//! What is written down about each handled request.
//!
//! One record per request, made once the reply has gone out or has failed to.
//! The record's details are a JSON object whose shape goes by the outcome.

use vstd::prelude::*;
use vstd::string::*;

use crate::router::{string_view, text_view, OutcomeCode};
use crate::text::{decimal, decimal_u64};

verus! {

/// The name under which this bot writes its records.
pub open spec fn bot_id() -> Seq<char> {
    "bastard_cafe_bot"@
}

/// Who sent a message, as far as the transport tells.
#[derive(Debug, Clone)]
pub struct Sender {
    pub id: u64,
    pub username: Option<String>,
}

/// One row of the telemetry table, but for the time stamp, which the store
/// sets.
#[derive(Debug, Clone)]
pub struct TelemetryRecord {
    pub bot_id: String,
    pub chat_id: i64,
    pub raw_text: String,
    pub succeeded: bool,
    pub details_json: String,
    pub response_time_ms: i32,
}

/// What `serde_json::to_string` makes of a text: the text as a JSON string,
/// in double quotes and with the escapes that `serde_json` writes, or nothing
/// where it reports an error. The escapes go by a table of 256 entries, so
/// the result is named here and not written out.
pub uninterp spec fn json_string(s: Seq<char>) -> Option<Seq<char>>;

/// Calls `serde_json::to_string` on a text. It writes into a buffer of its
/// own and reads nothing but the text, so what it returns, and whether it
/// returns anything, depends on the text alone; the contract gives that
/// result its name and claims nothing more.
#[verifier::external_body]
fn json_quote(s: &str) -> (r: Option<String>)
    ensures
        r is Some <==> json_string(s@) is Some,
        r matches Some(quoted) ==> json_string(s@) == Some(quoted@),
{
    serde_json::to_string(s).ok()
}

/// How a sender is written in the details: the numeric id, a colon, and the
/// user name, or `unknown` in its place. A message without a sender counts
/// as sent by `0:unknown`.
pub open spec fn user_hash_text(sender: Option<Sender>) -> Seq<char> {
    match sender {
        Some(s) => decimal(s.id as int) + seq![':'] + (match s.username {
            Some(name) => name@,
            None => "unknown"@,
        }),
        None => "0:unknown"@,
    }
}

/// The handling of a request as specifications see it: the outcome, or the
/// text of the error that ended it.
pub open spec fn handled_view(handled: Result<OutcomeCode, String>) -> Result<
    OutcomeCode,
    Seq<char>,
> {
    match handled {
        Ok(outcome) => Ok(outcome),
        Err(error) => Err(error@),
    }
}

/// The details object, given the user and the error text already written as
/// JSON strings. The keys stand in alphabetical order.
pub open spec fn details_frame(handled: Result<OutcomeCode, Seq<char>>, user: Seq<char>) -> Seq<
    char,
> {
    match handled {
        Ok(OutcomeCode::HelpShown) =>
            "{\"code\":-1,\"command\":\"Help\",\"response_type\":\"Help command\",\"user\":"@
            + user + "}"@,
        Ok(OutcomeCode::QueryTooShort) =>
            "{\"code\":-2,\"command\":\"search\",\"response_type\":\"Search term too short\",\"user\":"@
            + user + "}"@,
        Ok(OutcomeCode::NoIntentMatched) =>
            "{\"code\":-666,\"command\":\"unknown\",\"response_type\":\"should not happen\",\"user\":"@
            + user + "}"@,
        Ok(OutcomeCode::StartShown) =>
            "{\"code\":-4,\"command\":\"Start\",\"response_type\":\"Welcome message\",\"user\":"@
            + user + "}"@,
        Ok(OutcomeCode::SearchResults(total)) =>
            "{\"code\":0,\"command\":\"search\",\"response_type\":\"Search results\",\"total\":"@
            + decimal(total as int) + ",\"user\":"@ + user + "}"@,
        Err(error) => "{\"code\":-1000,\"command\":\"unknown\",\"error\":"@ + error
            + ",\"response_type\":\"Error\"}"@,
    }
}

/// The details object for a handled request and the user who made it, or
/// nothing where the one text of the two that goes into the object cannot be
/// written as a JSON string: the user where the request was answered, the
/// error where it was not.
pub open spec fn details_text(handled: Result<OutcomeCode, Seq<char>>, user: Seq<char>) -> Option<
    Seq<char>,
> {
    match handled {
        Ok(outcome) => match json_string(user) {
            Some(quoted_user) => Some(details_frame(Ok(outcome), quoted_user)),
            None => None,
        },
        Err(error) => match json_string(error) {
            Some(quoted_error) => Some(details_frame(Err(quoted_error), ""@)),
            None => None,
        },
    }
}

/// The response time as it is stored: the milliseconds, or -1 where they do
/// not fit.
pub open spec fn stored_millis(elapsed_millis: u128) -> int {
    if elapsed_millis <= i32::MAX {
        elapsed_millis as int
    } else {
        -1
    }
}

/// `record` is the row for a request with the given text, handled as
/// `handled` says, in `elapsed_millis` milliseconds.
pub open spec fn records(
    record: TelemetryRecord,
    chat_id: i64,
    text: Option<Seq<char>>,
    handled: Result<OutcomeCode, Seq<char>>,
    sender: Option<Sender>,
    elapsed_millis: u128,
) -> bool {
    &&& record.bot_id@ == bot_id()
    &&& record.chat_id == chat_id
    &&& record.raw_text@ == (match text {
        Some(t) => t,
        None => Seq::empty(),
    })
    &&& record.succeeded == handled is Ok
    &&& details_text(handled, user_hash_text(sender)) == Some(record.details_json@)
    &&& record.response_time_ms == stored_millis(elapsed_millis)
}

/// Writes a sender as the details name them.
pub fn user_hash(sender: Option<&Sender>) -> (r: String)
    ensures
        r@ == user_hash_text(
            match sender {
                Some(s) => Some(*s),
                None => None,
            },
        ),
{
    match sender {
        None => String::from_str("0:unknown"),
        Some(s) => {
            let mut out = decimal_u64(s.id);
            out.append(":");
            match &s.username {
                Some(name) => out.append(name.as_str()),
                None => out.append("unknown"),
            }
            proof {
                reveal_strlit(":");
                assert(":"@ =~= seq![':']);
            }
            out
        },
    }
}

/// The milliseconds as they are stored.
pub fn response_time_ms(elapsed_millis: u128) -> (r: i32)
    ensures
        r == stored_millis(elapsed_millis),
{
    if elapsed_millis <= i32::MAX as u128 {
        elapsed_millis as i32
    } else {
        -1
    }
}

/// `head`, `middle` and `tail` in one string.
fn framed(head: &str, middle: &str, tail: &str) -> (r: String)
    ensures
        r@ == head@ + middle@ + tail@,
{
    let mut out = String::from_str(head);
    out.append(middle);
    out.append(tail);
    out
}

/// Puts the details object together from parts that are JSON already: the
/// user, and the error text where the handling failed.
pub fn details_object(handled: &Result<OutcomeCode, String>, quoted_user: &str) -> (r: String)
    ensures
        r@ == details_frame(handled_view(*handled), quoted_user@),
{
    match handled {
        Ok(OutcomeCode::HelpShown) => framed(
            "{\"code\":-1,\"command\":\"Help\",\"response_type\":\"Help command\",\"user\":",
            quoted_user,
            "}",
        ),
        Ok(OutcomeCode::QueryTooShort) => framed(
            "{\"code\":-2,\"command\":\"search\",\"response_type\":\"Search term too short\",\"user\":",
            quoted_user,
            "}",
        ),
        Ok(OutcomeCode::NoIntentMatched) => framed(
            "{\"code\":-666,\"command\":\"unknown\",\"response_type\":\"should not happen\",\"user\":",
            quoted_user,
            "}",
        ),
        Ok(OutcomeCode::StartShown) => framed(
            "{\"code\":-4,\"command\":\"Start\",\"response_type\":\"Welcome message\",\"user\":",
            quoted_user,
            "}",
        ),
        Ok(OutcomeCode::SearchResults(total)) => {
            let mut out = framed(
                "{\"code\":0,\"command\":\"search\",\"response_type\":\"Search results\",\"total\":",
                decimal_u64(*total as u64).as_str(),
                ",\"user\":",
            );
            out.append(quoted_user);
            out.append("}");
            out
        },
        Err(error) => framed(
            "{\"code\":-1000,\"command\":\"unknown\",\"error\":",
            error.as_str(),
            ",\"response_type\":\"Error\"}",
        ),
    }
}

/// Writes the details object for a handled request. The text that comes from
/// outside, the user or the error, is written as a JSON string first; there
/// are details exactly where that can be done.
pub fn details_json(handled: &Result<OutcomeCode, String>, user: &str) -> (r: Option<String>)
    ensures
        string_view(r) == details_text(handled_view(*handled), user@),
{
    match handled {
        Ok(outcome) => match json_quote(user) {
            Some(quoted_user) => Some(details_object(&Ok(*outcome), quoted_user.as_str())),
            None => None,
        },
        Err(error) => match json_quote(error.as_str()) {
            Some(quoted_error) => Some(details_object(&Err(quoted_error), "")),
            None => None,
        },
    }
}

/// Makes the record of one handled request, where there are details for it.
pub fn telemetry_record(
    chat_id: i64,
    text: Option<&str>,
    handled: &Result<OutcomeCode, String>,
    sender: Option<&Sender>,
    elapsed_millis: u128,
) -> (r: Option<TelemetryRecord>)
    ensures
        r is Some <==> details_text(
            handled_view(*handled),
            user_hash_text(
                match sender {
                    Some(s) => Some(*s),
                    None => None,
                },
            ),
        ) is Some,
        r matches Some(record) ==> records(
            record,
            chat_id,
            text_view(text),
            handled_view(*handled),
            match sender {
                Some(s) => Some(*s),
                None => None,
            },
            elapsed_millis,
        ),
{
    let user = user_hash(sender);
    match details_json(handled, user.as_str()) {
        None => None,
        Some(details) => Some(
            TelemetryRecord {
                bot_id: String::from_str("bastard_cafe_bot"),
                chat_id,
                raw_text: match text {
                    Some(t) => String::from_str(t),
                    None => String::new(),
                },
                succeeded: handled.is_ok(),
                details_json: details,
                response_time_ms: response_time_ms(elapsed_millis),
            },
        ),
    }
}

} // verus!
