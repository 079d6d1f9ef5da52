//! From an inbound message to the reply and the outcome that is logged.
//!
//! The router keeps no state between messages. The transport reads the
//! commands; the router decides what each of them, or a text that is no
//! command, is answered with.

use vstd::prelude::*;
use vstd::string::*;

use crate::batcher::{
    batch, cutoff, entry_texts, fits, join_entries, lemma_cutoff_is_cutoff, lemma_joined_size,
    text_sizes,
};
use crate::board_games::{markdown_v2_text, BoardGame, FormattedEntry};
use crate::search::{games_of, match_set, search, SearchQuery, MIN_QUERY_BYTES};
use crate::text::{joined, trimmed, utf8_len};

verus! {

/// The largest message, in bytes, that the transport takes.
pub const MESSAGE_LIMIT: usize = 4096;

/// How a request was resolved.
#[derive(Debug, Clone, Copy, PartialEq, Eq, Structural)]
pub enum OutcomeCode {
    /// The list of commands was sent.
    HelpShown,
    /// The search term was too short, and no search was made.
    QueryTooShort,
    /// The message had no text to act on.
    NoIntentMatched,
    /// The welcome text was sent.
    StartShown,
    /// A search was made; the number is that of all the games it found, not
    /// only of those that went into the reply.
    SearchResults(usize),
}

/// A command as the transport has read it from a message.
#[derive(Debug, Clone)]
pub enum Command {
    Help,
    Search(String),
    S(String),
    Start,
}

/// What is sent back: the text, and whether it is MarkdownV2.
#[derive(Debug, Clone)]
pub struct Reply {
    pub text: String,
    pub markdown: bool,
}

/// What the router decides for one message.
#[derive(Debug, Clone)]
pub enum Resolution {
    /// The message is the administrator's request for diagnostics.
    Diagnostics,
    /// Any other message: what to send, if anything, and how it counts.
    Routed { reply: Option<Reply>, outcome: OutcomeCode },
}

/// The text between two entries of a reply.
pub open spec fn entry_separator() -> Seq<char> {
    seq!['\n', '\n']
}

/// The reply to `/start`.
pub open spec fn welcome_text() -> Seq<char> {
    "Welcome to the bastard's shelfs!\nPlease send me the name of the board game you're looking for."@
}

/// The reply to a search term of fewer than three bytes.
pub open spec fn too_short_text() -> Seq<char> {
    "Search term must be at least 3 characters long"@
}

/// The reply to a search that finds nothing.
pub open spec fn no_games_text() -> Seq<char> {
    "No games found"@
}

/// What an administrator's message begins with; the token follows.
pub open spec fn admin_prefix() -> Seq<char> {
    "/admin_"@
}

/// The renderings of the games, in order.
pub open spec fn rendered(games: Seq<BoardGame>) -> Seq<Seq<char>> {
    games.map_values(|g: BoardGame| markdown_v2_text(g@))
}

/// The sizes of the renderings, in order.
pub open spec fn rendered_sizes(games: Seq<BoardGame>) -> Seq<nat> {
    text_sizes(rendered(games))
}

/// How many of the games go into the reply.
pub open spec fn shown(games: Seq<BoardGame>) -> int {
    cutoff(rendered_sizes(games), utf8_len(entry_separator()), MESSAGE_LIMIT as nat)
}

/// The reply to a search that found `games`: the renderings of those that go
/// out, with an empty line between each two.
pub open spec fn results_text(games: Seq<BoardGame>) -> Seq<char> {
    joined(rendered(games).take(shown(games)), entry_separator())
}

/// `reply` and `outcome` are what a search that found `games` is answered
/// with.
pub open spec fn presents(games: Seq<BoardGame>, reply: Reply, outcome: OutcomeCode) -> bool {
    &&& outcome == OutcomeCode::SearchResults(games.len() as usize)
    &&& if games.len() == 0 {
        reply.text@ == no_games_text() && !reply.markdown
    } else {
        reply.text@ == results_text(games) && reply.markdown
    }
}

/// `reply` and `outcome` are what the trimmed search term `query` is
/// answered with over `catalog`.
pub open spec fn answers_query(
    catalog: Seq<BoardGame>,
    query: Seq<char>,
    reply: Reply,
    outcome: OutcomeCode,
) -> bool {
    if utf8_len(query) < MIN_QUERY_BYTES {
        reply.text@ == too_short_text() && !reply.markdown && outcome == OutcomeCode::QueryTooShort
    } else {
        presents(match_set(catalog, query), reply, outcome)
    }
}

/// The text is the administrator's request: a token is set, it is not
/// empty, and the text is the prefix followed by the token.
pub open spec fn is_admin_text(text: Seq<char>, token: Option<Seq<char>>) -> bool {
    token matches Some(t) && t.len() > 0 && text == admin_prefix() + t
}

/// The view of a text that may be absent.
pub open spec fn text_view(text: Option<&str>) -> Option<Seq<char>> {
    match text {
        Some(t) => Some(t@),
        None => None,
    }
}

/// The view of a string that may be absent.
pub open spec fn string_view(text: Option<String>) -> Option<Seq<char>> {
    match text {
        Some(t) => Some(t@),
        None => None,
    }
}

/// The reply to a search stays within the limit, unless the first game's
/// rendering alone is larger: then that rendering is the whole reply.
pub proof fn lemma_results_text_size(games: Seq<BoardGame>)
    requires
        games.len() > 0,
    ensures
        1 <= shown(games) <= games.len(),
        utf8_len(results_text(games)) <= MESSAGE_LIMIT || (shown(games) == 1 && results_text(games)
            == markdown_v2_text(games[0]@)),
{
    let sizes = rendered_sizes(games);
    let sep = utf8_len(entry_separator());
    let k = shown(games);
    lemma_cutoff_is_cutoff(sizes, sep, MESSAGE_LIMIT as nat);
    lemma_joined_size(rendered(games), k, entry_separator());
    assert(fits(sizes, k, sep, MESSAGE_LIMIT as nat) || k == 1);
    if k == 1 {
        assert(rendered(games).take(1).len() == 1);
        assert(rendered(games).take(1)[0] == markdown_v2_text(games[0]@));
    }
}

/// Whether `txt` is the administrator's request for diagnostics. Without a
/// token, or with an empty one, no text is.
pub fn is_secret_command(txt: &str, token: Option<&str>) -> (r: bool)
    ensures
        r == is_admin_text(txt@, text_view(token)),
{
    match token {
        None => false,
        Some(t) => {
            if t.is_empty() {
                false
            } else {
                let mut expected = String::from_str("/admin_");
                expected.append(t);
                expected == String::from_str(txt)
            }
        },
    }
}

/// Answers a search that found `games`: says so when there are none, and
/// otherwise renders them and sends as many, from the first on, as one
/// message takes. The outcome counts all of them.
pub fn present(games: &[&BoardGame]) -> (r: (Reply, OutcomeCode))
    ensures
        presents(games_of(games@), r.0, r.1),
{
    let n = games.len();
    if n == 0 {
        return (
            Reply { text: String::from_str("No games found"), markdown: false },
            OutcomeCode::SearchResults(0),
        );
    }
    let mut entries: Vec<FormattedEntry> = Vec::new();
    let mut i: usize = 0;
    while i < n
        invariant
            n == games@.len(),
            0 <= i <= n,
            entries@.len() == i,
            forall|j: int| 0 <= j < i ==> entries@[j].text@ == markdown_v2_text(games@[j]@),
        decreases n - i,
    {
        entries.push(games[i].format());
        i += 1;
    }
    let (selected, _bytes) = batch(entries.as_slice(), MESSAGE_LIMIT, "\n\n");
    let text = join_entries(selected, "\n\n");
    proof {
        reveal_strlit("\n\n");
        assert("\n\n"@ =~= entry_separator());
        assert(entry_texts(entries@) =~= rendered(games_of(games@)));
        assert(entry_texts(selected@) =~= entry_texts(entries@).take(selected@.len() as int));
    }
    (Reply { text, markdown: true }, OutcomeCode::SearchResults(n))
}

/// Answers a search term that was turned away, or searches for one that was
/// not.
fn answer(catalog: &[BoardGame], query: Option<SearchQuery>) -> (r: (Reply, OutcomeCode))
    ensures
        match query {
            None => r.0.text@ == too_short_text() && !r.0.markdown && r.1
                == OutcomeCode::QueryTooShort,
            Some(q) => presents(match_set(catalog@, q@), r.0, r.1),
        },
{
    match query {
        None => (
            Reply {
                text: String::from_str("Search term must be at least 3 characters long"),
                markdown: false,
            },
            OutcomeCode::QueryTooShort,
        ),
        Some(query) => {
            let found = search(catalog, query.as_str());
            present(found.as_slice())
        },
    }
}

/// Answers a search term that has been trimmed: a term of fewer than three
/// bytes is turned away without a search, any other is searched for.
pub fn answer_query(catalog: &[BoardGame], query: &str) -> (r: (Reply, OutcomeCode))
    ensures
        answers_query(catalog@, query@, r.0, r.1),
{
    answer(catalog, SearchQuery::from_trimmed(query))
}

/// Answers a search term as it came in: trims it, then see [`answer_query`].
pub fn search_reply(catalog: &[BoardGame], term: &str) -> (r: (Reply, OutcomeCode))
    ensures
        answers_query(catalog@, trimmed(term@), r.0, r.1),
        utf8_len(trimmed(term@)) < MIN_QUERY_BYTES ==> r.1 == OutcomeCode::QueryTooShort,
{
    answer(catalog, SearchQuery::parse(term))
}

/// The router's configuration: the administrator's token, if one is set, and
/// the list of commands that `/help` is answered with.
#[derive(Debug, Clone)]
pub struct Router {
    pub admin_token: Option<String>,
    pub command_list: String,
}

/// `r` is what `router` decides for a message with the given text, which the
/// transport has read as `command`, or as no command at all.
pub open spec fn resolves(
    router: Router,
    catalog: Seq<BoardGame>,
    text: Option<Seq<char>>,
    command: Option<Command>,
    r: Resolution,
) -> bool {
    match text {
        None => r == (Resolution::Routed { reply: None, outcome: OutcomeCode::NoIntentMatched }),
        Some(t) => if is_admin_text(t, string_view(router.admin_token)) {
            r is Diagnostics
        } else {
            &&& r matches Resolution::Routed { reply: Some(reply), outcome }
            &&& match command {
                Some(Command::Help) => reply.text@ == router.command_list@ && !reply.markdown
                    && outcome == OutcomeCode::HelpShown,
                Some(Command::Start) => reply.text@ == welcome_text() && !reply.markdown
                    && outcome == OutcomeCode::StartShown,
                Some(Command::Search(q)) => answers_query(catalog, trimmed(q@), reply, outcome),
                Some(Command::S(q)) => answers_query(catalog, trimmed(q@), reply, outcome),
                None => answers_query(catalog, trimmed(t), reply, outcome),
            }
        },
    }
}

impl Router {
    /// A router with the given token and list of commands.
    pub fn new(admin_token: Option<String>, command_list: String) -> (router: Router)
        ensures
            router.admin_token == admin_token,
            router.command_list == command_list,
    {
        Router { admin_token, command_list }
    }

    /// Whether `text` is the administrator's request under this router's
    /// token.
    pub fn is_admin_command(&self, text: &str) -> (r: bool)
        ensures
            r == is_admin_text(text@, string_view(self.admin_token)),
    {
        match &self.admin_token {
            None => is_secret_command(text, None),
            Some(token) => is_secret_command(text, Some(token.as_str())),
        }
    }

    /// Decides what a message is answered with.
    ///
    /// `text` is the message's text, if it has any, and `command` what the
    /// transport has read that text as: `None` where it is no command, in
    /// which case the whole text is a search term. The administrator's
    /// request is looked for first, in the text as it came.
    pub fn resolve(
        &self,
        catalog: &[BoardGame],
        text: Option<&str>,
        command: Option<Command>,
    ) -> (r: Resolution)
        ensures
            resolves(*self, catalog@, text_view(text), command, r),
    {
        let text = match text {
            None => {
                return Resolution::Routed { reply: None, outcome: OutcomeCode::NoIntentMatched };
            },
            Some(t) => t,
        };
        if self.is_admin_command(text) {
            return Resolution::Diagnostics;
        }
        let (reply, outcome) = match command {
            Some(Command::Help) => (
                Reply { text: self.command_list.clone(), markdown: false },
                OutcomeCode::HelpShown,
            ),
            Some(Command::Start) => (
                Reply {
                    text: String::from_str(
                        "Welcome to the bastard's shelfs!\nPlease send me the name of the board game you're looking for.",
                    ),
                    markdown: false,
                },
                OutcomeCode::StartShown,
            ),
            Some(Command::Search(q)) => search_reply(catalog, q.as_str()),
            Some(Command::S(q)) => search_reply(catalog, q.as_str()),
            None => search_reply(catalog, text),
        };
        Resolution::Routed { reply: Some(reply), outcome }
    }
}

} // verus!
