//! Packing rendered entries into one message under a byte limit.
//!
//! Entries go out in the order they come in, joined by a separator. The
//! batcher keeps the longest run from the front whose joined size stays
//! within the limit, and always at least the first entry.

use vstd::prelude::*;

use crate::board_games::FormattedEntry;
use crate::text::{byte_len, joined, lemma_utf8_len_add, utf8_len};

verus! {

/// The texts of the entries, in order.
pub open spec fn entry_texts(entries: Seq<FormattedEntry>) -> Seq<Seq<char>> {
    entries.map_values(|e: FormattedEntry| e.text@)
}

/// The sizes of the texts in UTF-8, in order.
pub open spec fn text_sizes(texts: Seq<Seq<char>>) -> Seq<nat> {
    texts.map_values(|t: Seq<char>| utf8_len(t))
}

/// The sizes of the entries, in order.
pub open spec fn sizes_of(entries: Seq<FormattedEntry>) -> Seq<nat> {
    text_sizes(entry_texts(entries))
}

/// The sum of the sizes.
pub open spec fn total(sizes: Seq<nat>) -> nat
    decreases sizes.len(),
{
    if sizes.len() == 0 {
        0
    } else {
        total(sizes.drop_last()) + sizes.last()
    }
}

/// The size of a message made of the first `k` entries: their sizes, and one
/// separator between each two neighbours.
pub open spec fn payload_bytes(sizes: Seq<nat>, k: int, sep: nat) -> int {
    if k <= 0 {
        0
    } else {
        total(sizes.take(k)) + (k - 1) * sep
    }
}

/// The first `k` entries, joined, stay within the limit.
pub open spec fn fits(sizes: Seq<nat>, k: int, sep: nat, limit: nat) -> bool {
    payload_bytes(sizes, k, sep) <= limit
}

/// `k` is the number of entries that go out: the longest run from the front
/// that fits, and the first entry alone where not even that fits.
pub open spec fn is_cutoff(sizes: Seq<nat>, sep: nat, limit: nat, k: int) -> bool {
    &&& 0 <= k <= sizes.len()
    &&& sizes.len() > 0 ==> k >= 1
    &&& (forall|j: int| 1 <= j <= k ==> #[trigger] fits(sizes, j, sep, limit)) || (k == 1 && !fits(
        sizes,
        1,
        sep,
        limit,
    ))
    &&& k < sizes.len() ==> !fits(sizes, k + 1, sep, limit)
}

/// Where the scan ends that has let `k` entries through: it lets the next
/// one through while the run with it still fits.
pub open spec fn admitted(sizes: Seq<nat>, sep: nat, limit: nat, k: int) -> int
    decreases sizes.len() - k,
{
    if 1 <= k < sizes.len() && fits(sizes, k + 1, sep, limit) {
        admitted(sizes, sep, limit, k + 1)
    } else {
        k
    }
}

/// The number of entries that go out: none of none, and otherwise the first
/// and then each next one while the run with it still fits.
pub open spec fn cutoff(sizes: Seq<nat>, sep: nat, limit: nat) -> int {
    if sizes.len() == 0 {
        0
    } else {
        admitted(sizes, sep, limit, 1)
    }
}

/// One more entry costs its own size and, behind the first, one separator.
pub proof fn lemma_payload_step(sizes: Seq<nat>, k: int, sep: nat)
    requires
        0 <= k < sizes.len(),
    ensures
        payload_bytes(sizes, k + 1, sep) == payload_bytes(sizes, k, sep) + sizes[k] + (if k == 0 {
            0
        } else {
            sep as int
        }),
{
    assert(sizes.take(k + 1).drop_last() =~= sizes.take(k));
    assert(sizes.take(k + 1).last() == sizes[k]);
    if k == 0 {
        assert(total(sizes.take(0)) == 0);
    } else {
        assert((k + 1 - 1) * sep == (k - 1) * sep + sep) by (nonlinear_arith);
    }
}

/// A longer run never weighs less.
pub proof fn lemma_payload_monotonic(sizes: Seq<nat>, i: int, j: int, sep: nat)
    requires
        0 <= i <= j <= sizes.len(),
    ensures
        payload_bytes(sizes, i, sep) <= payload_bytes(sizes, j, sep),
    decreases j - i,
{
    if i < j {
        lemma_payload_monotonic(sizes, i, j - 1, sep);
        lemma_payload_step(sizes, j - 1, sep);
    }
}

/// The scan ends at the cutoff.
pub proof fn lemma_admitted_is_cutoff(sizes: Seq<nat>, sep: nat, limit: nat, k: int)
    requires
        1 <= k <= sizes.len(),
        (forall|j: int| 1 <= j <= k ==> #[trigger] fits(sizes, j, sep, limit)) || (k == 1 && !fits(
            sizes,
            1,
            sep,
            limit,
        )),
    ensures
        is_cutoff(sizes, sep, limit, admitted(sizes, sep, limit, k)),
    decreases sizes.len() - k,
{
    if k < sizes.len() && fits(sizes, k + 1, sep, limit) {
        lemma_payload_monotonic(sizes, 1, k + 1, sep);
        lemma_admitted_is_cutoff(sizes, sep, limit, k + 1);
    }
}

/// [`cutoff`] is the longest run from the front that fits, or the first
/// entry alone.
pub proof fn lemma_cutoff_is_cutoff(sizes: Seq<nat>, sep: nat, limit: nat)
    ensures
        is_cutoff(sizes, sep, limit, cutoff(sizes, sep, limit)),
{
    if sizes.len() > 0 {
        lemma_admitted_is_cutoff(sizes, sep, limit, 1);
    }
}

/// The cutoff is unique: the rule leaves no choice.
pub proof fn lemma_cutoff_unique(sizes: Seq<nat>, sep: nat, limit: nat, k1: int, k2: int)
    requires
        is_cutoff(sizes, sep, limit, k1),
        is_cutoff(sizes, sep, limit, k2),
    ensures
        k1 == k2,
{
    if k1 < k2 {
        lemma_payload_monotonic(sizes, 1, k1 + 1, sep);
        assert(fits(sizes, k1 + 1, sep, limit));
    } else if k2 < k1 {
        lemma_payload_monotonic(sizes, 1, k2 + 1, sep);
        assert(fits(sizes, k2 + 1, sep, limit));
    }
}

/// Entry `i` is among the `k` entries that go out.
pub open spec fn goes_out(k: int, i: int) -> bool {
    0 <= i < k
}

/// Where entry `i` goes out, so does every entry before it, and the run up
/// to it fits, unless it is a first entry that is too large on its own.
pub proof fn lemma_cutoff_is_prefix(sizes: Seq<nat>, sep: nat, limit: nat, k: int, i: int)
    requires
        is_cutoff(sizes, sep, limit, k),
        goes_out(k, i),
    ensures
        forall|j: int| 0 <= j <= i ==> #[trigger] goes_out(k, j),
        fits(sizes, i + 1, sep, limit) || (k == 1 && !fits(sizes, 1, sep, limit)),
{
}

/// A lower limit never lets more entries out.
pub proof fn lemma_cutoff_monotonic(sizes: Seq<nat>, sep: nat, low: nat, high: nat)
    requires
        low <= high,
    ensures
        cutoff(sizes, sep, low) <= cutoff(sizes, sep, high),
{
    let k_low = cutoff(sizes, sep, low);
    let k_high = cutoff(sizes, sep, high);
    lemma_cutoff_is_cutoff(sizes, sep, low);
    lemma_cutoff_is_cutoff(sizes, sep, high);
    if k_high < k_low {
        assert(k_low >= 2);
        assert(fits(sizes, k_high + 1, sep, low));
        assert(fits(sizes, k_high + 1, sep, high));
    }
}

/// The first `k` texts, joined, weigh what [`payload_bytes`] says.
pub proof fn lemma_joined_size(texts: Seq<Seq<char>>, k: int, sep: Seq<char>)
    requires
        0 <= k <= texts.len(),
    ensures
        utf8_len(joined(texts.take(k), sep)) == payload_bytes(text_sizes(texts), k, utf8_len(sep)),
    decreases k,
{
    let sizes = text_sizes(texts);
    if k == 0 {
        assert(joined(texts.take(0), sep) =~= Seq::<char>::empty());
    } else {
        lemma_joined_size(texts, k - 1, sep);
        lemma_payload_step(sizes, k - 1, utf8_len(sep));
        assert(texts.take(k).drop_last() =~= texts.take(k - 1));
        assert(texts.take(k).last() == texts[k - 1]);
        assert(sizes[k - 1] == utf8_len(texts[k - 1]));
        if k == 1 {
            assert(joined(texts.take(1), sep) == texts[0]);
        } else {
            let front = joined(texts.take(k - 1), sep);
            assert(joined(texts.take(k), sep) == front + sep + texts[k - 1]);
            lemma_utf8_len_add(front, sep);
            lemma_utf8_len_add(front + sep, texts[k - 1]);
        }
    }
}

/// Selects the entries that go into one message of at most `limit` bytes,
/// joined by `separator`, and says how many bytes that message has.
///
/// The selection is the longest run from the front that fits. An entry that
/// is too large on its own still goes out when it is the first: the message
/// is never empty while there are entries.
pub fn batch<'a>(entries: &'a [FormattedEntry], limit: usize, separator: &str) -> (res: (
    &'a [FormattedEntry],
    usize,
))
    ensures
        res.0@ == entries@.take(res.0@.len() as int),
        is_cutoff(sizes_of(entries@), utf8_len(separator@), limit as nat, res.0@.len() as int),
        res.0@.len() == cutoff(sizes_of(entries@), utf8_len(separator@), limit as nat),
        res.1 == payload_bytes(sizes_of(entries@), res.0@.len() as int, utf8_len(separator@)),
{
    let n = entries.len();
    let ghost sizes = sizes_of(entries@);
    let ghost sep_len = utf8_len(separator@);
    proof {
        lemma_cutoff_is_cutoff(sizes, sep_len, limit as nat);
    }
    if n == 0 {
        proof {
            assert(entries@.take(0) =~= entries@);
        }
        return (entries, 0);
    }
    let sep = byte_len(separator);
    let mut bytes: usize = entries[0].byte_length();
    let mut k: usize = 1;
    proof {
        lemma_payload_step(sizes, 0, sep_len);
    }
    while k < n
        invariant_except_break
            (forall|j: int| 1 <= j <= k ==> #[trigger] fits(sizes, j, sep_len, limit as nat)) || (k
                == 1 && !fits(sizes, 1, sep_len, limit as nat)),
        invariant
            n == entries@.len(),
            sizes == sizes_of(entries@),
            sep_len == utf8_len(separator@),
            sep == sep_len,
            1 <= k <= n,
            bytes == payload_bytes(sizes, k as int, sep_len),
        ensures
            is_cutoff(sizes, sep_len, limit as nat, k as int),
        decreases n - k,
    {
        let size = entries[k].byte_length();
        proof {
            lemma_payload_step(sizes, k as int, sep_len);
        }
        let projected = match bytes.checked_add(sep) {
            Some(with_sep) => with_sep.checked_add(size),
            None => None,
        };
        match projected {
            Some(p) => {
                if p > limit {
                    break ;
                }
                proof {
                    if k == 1 {
                        lemma_payload_monotonic(sizes, 1, 2, sep_len);
                    }
                }
                bytes = p;
                k += 1;
            },
            None => {
                break ;
            },
        }
    }
    proof {
        lemma_cutoff_unique(
            sizes,
            sep_len,
            limit as nat,
            k as int,
            cutoff(sizes, sep_len, limit as nat),
        );
    }
    (vstd::slice::slice_subrange(entries, 0, k), bytes)
}

/// The message itself: the texts of the given entries, joined by
/// `separator`.
pub fn join_entries(entries: &[FormattedEntry], separator: &str) -> (r: String)
    ensures
        r@ == joined(entry_texts(entries@), separator@),
        utf8_len(r@) == payload_bytes(
            sizes_of(entries@),
            entries@.len() as int,
            utf8_len(separator@),
        ),
{
    let ghost texts = entry_texts(entries@);
    let mut out = String::new();
    let n = entries.len();
    let mut i: usize = 0;
    while i < n
        invariant
            n == entries@.len(),
            texts == entry_texts(entries@),
            0 <= i <= n,
            out@ == joined(texts.take(i as int), separator@),
        decreases n - i,
    {
        proof {
            assert(texts.take(i + 1).drop_last() =~= texts.take(i as int));
            assert(texts.take(i + 1).last() == entries@[i as int].text@);
            if i == 0 {
                assert(Seq::<char>::empty() + entries@[0].text@ =~= entries@[0].text@);
            }
        }
        if i > 0 {
            out.append(separator);
        }
        out.append(entries[i].text.as_str());
        i += 1;
    }
    proof {
        assert(texts.take(n as int) =~= texts);
        lemma_joined_size(texts, n as int, separator@);
    }
    out
}

} // verus!
