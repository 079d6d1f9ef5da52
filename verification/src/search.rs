//! The search over the catalog: which games a term finds, and in what order.

use vstd::prelude::*;
use vstd::string::*;

use crate::board_games::BoardGame;
use crate::substring::{contains, contains_text};
use crate::text::{byte_len, lowercase, to_lowercase, trim, trimmed, utf8_len};

verus! {

/// The fewest bytes that a search term has once it is trimmed.
pub const MIN_QUERY_BYTES: usize = 3;

/// A search term that may be searched for: trimmed, and at least
/// [`MIN_QUERY_BYTES`] bytes long. Its case is left as it came; the search
/// folds it.
#[derive(Debug)]
pub struct SearchQuery {
    term: String,
}

impl View for SearchQuery {
    type V = Seq<char>;

    closed spec fn view(&self) -> Seq<char> {
        self.term@
    }
}

impl SearchQuery {
    #[verifier::type_invariant]
    spec fn long_enough(self) -> bool {
        utf8_len(self.term@) >= MIN_QUERY_BYTES
    }

    /// Takes a term that is trimmed already, and turns it away where it is
    /// too short.
    pub fn from_trimmed(term: &str) -> (q: Option<SearchQuery>)
        ensures
            q is Some <==> utf8_len(term@) >= MIN_QUERY_BYTES,
            q matches Some(query) ==> query@ == term@,
    {
        if byte_len(term) < MIN_QUERY_BYTES {
            None
        } else {
            Some(SearchQuery { term: String::from_str(term) })
        }
    }

    /// Trims a term as it came in, and turns it away where what is left is
    /// too short.
    pub fn parse(raw: &str) -> (q: Option<SearchQuery>)
        ensures
            q is Some <==> utf8_len(trimmed(raw@)) >= MIN_QUERY_BYTES,
            q matches Some(query) ==> query@ == trimmed(raw@),
    {
        SearchQuery::from_trimmed(trim(raw))
    }

    /// The term.
    pub fn as_str(&self) -> (term: &str)
        ensures
            term@ == self@,
            utf8_len(term@) >= MIN_QUERY_BYTES,
    {
        proof {
            use_type_invariant(self);
        }
        self.term.as_str()
    }
}

/// A name matches a term when the lower-case form of the name contains the
/// lower-case form of the term as one unbroken run. The whole term is the
/// pattern: it is not split into words.
pub open spec fn name_matches(name: Seq<char>, term: Seq<char>) -> bool {
    contains_text(lowercase(name), lowercase(term))
}

/// The test that a term puts to each game of the catalog.
pub open spec fn is_match(term: Seq<char>) -> spec_fn(BoardGame) -> bool {
    |g: BoardGame| name_matches(g.name@, term)
}

/// The games of the catalog that the term finds, in the catalog's order.
pub open spec fn match_set(catalog: Seq<BoardGame>, term: Seq<char>) -> Seq<BoardGame> {
    catalog.filter(is_match(term))
}

/// The games that the references point to.
pub open spec fn games_of(found: Seq<&BoardGame>) -> Seq<BoardGame> {
    found.map_values(|g: &BoardGame| *g)
}

/// Whether the term finds the game, whatever the case of either.
pub fn game_matches(game: &BoardGame, term: &str) -> (r: bool)
    ensures
        r == name_matches(game.name@, term@),
{
    let folded_name = to_lowercase(game.name.as_str());
    let folded_term = to_lowercase(term);
    contains(folded_name.as_str(), folded_term.as_str())
}

/// Finds the games whose name contains the term, ignoring case. The result
/// keeps the catalog's order and may be empty.
pub fn search<'a>(catalog: &'a [BoardGame], term: &str) -> (found: Vec<&'a BoardGame>)
    ensures
        games_of(found@) == match_set(catalog@, term@),
{
    let folded_term = to_lowercase(term);
    let mut found: Vec<&'a BoardGame> = Vec::new();
    let n = catalog.len();
    let mut i: usize = 0;
    proof {
        reveal(Seq::filter);
        assert(games_of(found@) =~= catalog@.take(0).filter(is_match(term@)));
    }
    while i < n
        invariant
            n == catalog@.len(),
            0 <= i <= n,
            folded_term@ == lowercase(term@),
            games_of(found@) == catalog@.take(i as int).filter(is_match(term@)),
        decreases n - i,
    {
        let game = &catalog[i];
        let folded_name = to_lowercase(game.name.as_str());
        let hit = contains(folded_name.as_str(), folded_term.as_str());
        proof {
            let before = catalog@.take(i as int);
            assert(before.push(catalog@[i as int]) =~= catalog@.take(i + 1));
            before.lemma_filter_push(catalog@[i as int], is_match(term@));
            assert(hit == is_match(term@)(catalog@[i as int]));
        }
        if hit {
            let ghost old_found = games_of(found@);
            found.push(game);
            proof {
                assert(games_of(found@) =~= old_found.push(catalog@[i as int]));
            }
        }
        i += 1;
    }
    proof {
        assert(catalog@.take(n as int) =~= catalog@);
    }
    found
}

/// Every game that the search returns matches the term, and every game of
/// the catalog that matches is returned.
pub proof fn lemma_matches_exact(catalog: Seq<BoardGame>, term: Seq<char>)
    ensures
        forall|i: int|
            0 <= i < match_set(catalog, term).len() ==> name_matches(
                (#[trigger] match_set(catalog, term)[i]).name@,
                term,
            ) && catalog.contains(match_set(catalog, term)[i]),
        forall|i: int|
            0 <= i < catalog.len() && name_matches((#[trigger] catalog[i]).name@, term)
                ==> match_set(catalog, term).contains(catalog[i]),
        match_set(catalog, term).len() <= catalog.len(),
{
    let pred = is_match(term);
    let found = catalog.filter(pred);
    catalog.lemma_filter_len(pred);
    assert forall|i: int| 0 <= i < found.len() implies name_matches(
        (#[trigger] found[i]).name@,
        term,
    ) && catalog.contains(found[i]) by {
        catalog.lemma_filter_pred(pred, i);
        assert(found.contains(found[i]));
        catalog.lemma_filter_contains_rev(pred, found[i]);
    }
    assert forall|i: int|
        0 <= i < catalog.len() && name_matches(
            (#[trigger] catalog[i]).name@,
            term,
        ) implies found.contains(catalog[i]) by {
        assert(pred(catalog[i]));
        catalog.lemma_filter_contains(pred, i);
    }
}

/// Where in the catalog the `i`-th game of the match set stands.
pub open spec fn position(catalog: Seq<BoardGame>, term: Seq<char>, i: int) -> int
    decreases catalog.len(),
{
    if catalog.len() == 0 {
        0
    } else if i < match_set(catalog.drop_last(), term).len() {
        position(catalog.drop_last(), term, i)
    } else {
        catalog.len() - 1
    }
}

/// The match set keeps the catalog's order: its games stand in the catalog
/// at positions that grow from each game to the next.
pub proof fn lemma_match_set_keeps_order(catalog: Seq<BoardGame>, term: Seq<char>)
    ensures
        forall|i: int|
            0 <= i < match_set(catalog, term).len() ==> 0 <= #[trigger] position(catalog, term, i)
                < catalog.len() && catalog[position(catalog, term, i)] == match_set(
                catalog,
                term,
            )[i],
        forall|i: int, j: int|
            0 <= i < j < match_set(catalog, term).len() ==> #[trigger] position(catalog, term, i)
                < #[trigger] position(catalog, term, j),
    decreases catalog.len(),
{
    reveal(Seq::filter);
    if catalog.len() > 0 {
        let front = catalog.drop_last();
        lemma_match_set_keeps_order(front, term);
        let found = match_set(catalog, term);
        let before = match_set(front, term);
        assert(found == if is_match(term)(catalog.last()) {
            before.push(catalog.last())
        } else {
            before
        });
        assert forall|i: int| 0 <= i < found.len() implies 0 <= #[trigger] position(
            catalog,
            term,
            i,
        ) < catalog.len() && catalog[position(catalog, term, i)] == found[i] by {
            if i < before.len() {
                assert(front[position(front, term, i)] == before[i]);
            }
        }
        assert forall|i: int, j: int| 0 <= i < j < found.len() implies #[trigger] position(
            catalog,
            term,
            i,
        ) < #[trigger] position(catalog, term, j) by {
            if j < before.len() {
                assert(position(front, term, i) < position(front, term, j));
            } else {
                assert(0 <= position(front, term, i) < front.len());
            }
        }
    }
}

} // verus!
