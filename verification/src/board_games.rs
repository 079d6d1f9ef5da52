//! The catalog's records and their MarkdownV2 rendering.

use vstd::prelude::*;
use vstd::string::*;

use crate::markdown::{
    escape, escaped, is_reserved, lemma_escaped_guards_reserved, lemma_unescaped_escaped,
    unescaped,
};
use crate::text::{byte_len, join, joined, texts_of, utf8_len};

verus! {

/// One physical place where a copy of a game can be found.
#[derive(Debug, Clone)]
pub struct Location {
    pub store: String,
    pub locale: String,
}

/// What a [`Location`] holds, as plain text.
pub struct LocationView {
    pub store: Seq<char>,
    pub locale: Seq<char>,
}

impl View for Location {
    type V = LocationView;

    open spec fn view(&self) -> LocationView {
        LocationView { store: self.store@, locale: self.locale@ }
    }
}

/// The text that stands between a store and its locale.
pub open spec fn store_locale_separator() -> Seq<char> {
    seq![' ', '-', ' ']
}

/// A location as a reader sees it: the store, the separator, the locale.
pub open spec fn human_friendly_text(l: LocationView) -> Seq<char> {
    l.store + store_locale_separator() + l.locale
}

impl Location {
    /// Renders the location as `store - locale`.
    pub fn human_friendly(&self) -> (r: String)
        ensures
            r@ == human_friendly_text(self@),
    {
        let mut out = self.store.clone();
        out.append(" - ");
        out.append(self.locale.as_str());
        proof {
            reveal_strlit(" - ");
            assert(" - "@ =~= store_locale_separator());
        }
        out
    }
}

/// One catalog entry: a game, its page, and where copies of it stand.
#[derive(Debug, Clone)]
pub struct BoardGame {
    pub url: String,
    pub name: String,
    pub locations: Vec<Location>,
}

/// What a [`BoardGame`] holds, as plain text.
pub struct BoardGameView {
    pub url: Seq<char>,
    pub name: Seq<char>,
    pub locations: Seq<LocationView>,
}

impl View for BoardGame {
    type V = BoardGameView;

    open spec fn view(&self) -> BoardGameView {
        BoardGameView {
            url: self.url@,
            name: self.name@,
            locations: self.locations@.map_values(|l: Location| l@),
        }
    }
}

/// The locations, one per line, before any escaping.
pub open spec fn location_lines(locations: Seq<LocationView>) -> Seq<char> {
    joined(locations.map_values(|l: LocationView| human_friendly_text(l)), seq!['\n'])
}

/// A game as a MarkdownV2 fragment: the escaped name as the label of a link
/// to the escaped URL, a space and a line break, then the escaped location
/// lines. Only the four characters of the link syntax stand unescaped.
pub open spec fn markdown_v2_text(g: BoardGameView) -> Seq<char> {
    seq!['['] + escaped(g.name) + seq![']', '('] + escaped(g.url) + seq![')', ' ', '\n']
        + escaped(location_lines(g.locations))
}

impl BoardGame {
    /// The locations as the lines they are shown as, in order.
    fn location_texts(&self) -> (lines: Vec<String>)
        ensures
            texts_of(lines@) == self@.locations.map_values(|l: LocationView| human_friendly_text(l)),
    {
        let mut lines: Vec<String> = Vec::new();
        let n = self.locations.len();
        let mut i: usize = 0;
        while i < n
            invariant
                n == self.locations@.len(),
                0 <= i <= n,
                lines@.len() == i,
                forall|j: int| 0 <= j < i ==> lines@[j]@ == human_friendly_text(self.locations@[j]@),
            decreases n - i,
        {
            lines.push(self.locations[i].human_friendly());
            i += 1;
        }
        proof {
            assert(texts_of(lines@) =~= self@.locations.map_values(
                |l: LocationView| human_friendly_text(l),
            ));
        }
        lines
    }

    /// Renders the game as a MarkdownV2 fragment.
    pub fn markdown_v2(&self) -> (r: String)
        ensures
            r@ == markdown_v2_text(self@),
    {
        let lines = self.location_texts();
        let locations = join(lines.as_slice(), "\n");
        let mut out = String::from_str("[");
        out.append(escape(self.name.as_str()).as_str());
        out.append("](");
        out.append(escape(self.url.as_str()).as_str());
        out.append(") \n");
        out.append(escape(locations.as_str()).as_str());
        proof {
            reveal_strlit("\n");
            reveal_strlit("[");
            reveal_strlit("](");
            reveal_strlit(") \n");
            assert("\n"@ =~= seq!['\n']);
            assert("["@ =~= seq!['[']);
            assert("]("@ =~= seq![']', '(']);
            assert(") \n"@ =~= seq![')', ' ', '\n']);
        }
        out
    }

    /// Renders the game as one entry of a message.
    pub fn format(&self) -> (e: FormattedEntry)
        ensures
            e.text@ == markdown_v2_text(self@),
    {
        FormattedEntry { text: self.markdown_v2() }
    }
}

/// One game, escaped and rendered, ready to be put into a message.
#[derive(Debug, Clone)]
pub struct FormattedEntry {
    pub text: String,
}

impl FormattedEntry {
    /// The entry's size in the transport's encoding, UTF-8.
    pub open spec fn size(&self) -> nat {
        utf8_len(self.text@)
    }

    /// The entry's size in bytes.
    pub fn byte_length(&self) -> (n: usize)
        ensures
            n == self.size(),
    {
        byte_len(self.text.as_str())
    }
}

/// Rendering depends on what a record holds and on nothing else: two records
/// that hold the same text render to the same characters, and so to the same
/// bytes.
pub proof fn lemma_format_deterministic(a: BoardGame, b: BoardGame)
    requires
        a@ == b@,
    ensures
        markdown_v2_text(a@) == markdown_v2_text(b@),
        vstd::utf8::encode_utf8(markdown_v2_text(a@)) == vstd::utf8::encode_utf8(
            markdown_v2_text(b@),
        ),
{
}

/// Nothing that a record holds can act as markup in its rendering: the only
/// reserved characters without a backslash before them are the four of the
/// link syntax, which the rendering itself writes. Each field can be read
/// back from its part of the rendering.
pub proof fn lemma_rendering_guards_fields(g: BoardGameView)
    ensures
        forall|i: int|
            0 <= i < markdown_v2_text(g).len() && is_reserved(#[trigger] markdown_v2_text(g)[i])
                && !(i > 0 && markdown_v2_text(g)[i - 1] == '\\') ==> i == 0 || i == 1 + escaped(
                g.name,
            ).len() || i == 2 + escaped(g.name).len() || i == 3 + escaped(g.name).len() + escaped(
                g.url,
            ).len(),
        unescaped(escaped(g.name)) == g.name,
        unescaped(escaped(g.url)) == g.url,
        unescaped(escaped(location_lines(g.locations))) == location_lines(g.locations),
{
    let name = escaped(g.name);
    let url = escaped(g.url);
    let lines = escaped(location_lines(g.locations));
    let text = markdown_v2_text(g);
    lemma_escaped_guards_reserved(g.name);
    lemma_escaped_guards_reserved(g.url);
    lemma_escaped_guards_reserved(location_lines(g.locations));
    lemma_unescaped_escaped(g.name);
    lemma_unescaped_escaped(g.url);
    lemma_unescaped_escaped(location_lines(g.locations));
    let url_from = 3 + name.len();
    let lines_from = 6 + name.len() + url.len();
    assert forall|i: int|
        0 <= i < text.len() && is_reserved(#[trigger] text[i]) && !(i > 0 && text[i - 1]
            == '\\') implies i == 0 || i == 1 + name.len() || i == 2 + name.len() || i == 3
        + name.len() + url.len() by {
        if 1 <= i < 1 + name.len() {
            let j = i - 1;
            assert(text[i] == name[j]);
            assert(j > 0 && name[j - 1] == '\\');
            assert(text[i - 1] == name[j - 1]);
        } else if url_from <= i < url_from + url.len() {
            let j = i - url_from;
            assert(text[i] == url[j]);
            assert(j > 0 && url[j - 1] == '\\');
            assert(text[i - 1] == url[j - 1]);
        } else if lines_from <= i {
            let j = i - lines_from;
            assert(text[i] == lines[j]);
            assert(j > 0 && lines[j - 1] == '\\');
            assert(text[i - 1] == lines[j - 1]);
        } else if i == url_from + url.len() + 1 {
            assert(text[i] == ' ');
        } else if i == url_from + url.len() + 2 {
            assert(text[i] == '\n');
        }
    }
}

} // verus!
