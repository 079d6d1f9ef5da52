//! The administrator's view of the most recent telemetry records.

use vstd::prelude::*;
use vstd::string::*;

use crate::text::{decimal, decimal_i64};

verus! {

/// How many records the administrator is shown.
pub const RECENT_LIMIT: usize = 10;

/// One telemetry row as the store hands it back.
#[derive(Debug, Clone)]
pub struct StatsRow {
    pub id: i64,
    pub text: String,
    pub ok: i64,
    pub details: String,
    pub response_time_ms: i64,
    pub created_at: String,
}

/// Why the rows could not be read.
#[derive(Debug, Clone, Copy, PartialEq, Eq, Structural)]
pub enum StoreFailure {
    /// No connection to the store could be made.
    Connect,
    /// The store did not answer the query.
    Query,
}

/// What the administrator is told when no connection could be made.
pub open spec fn connect_failed_text() -> Seq<char> {
    "Failed to connect to database"@
}

/// What the administrator is told when the query failed.
pub open spec fn query_failed_text() -> Seq<char> {
    "Failed to fetch metrics"@
}

/// One row as it is shown: id, success flag, the text in single quotes, the
/// time of creation, the response time, the details, and an empty line.
pub open spec fn stats_line(row: StatsRow) -> Seq<char> {
    decimal(row.id as int) + seq![' '] + decimal(row.ok as int) + seq![' ', '\''] + row.text@
        + seq!['\'', ' '] + row.created_at@ + seq![' '] + decimal(row.response_time_ms as int)
        + seq!['m', 's', ' '] + row.details@ + seq!['\n', '\n']
}

/// The rows as they are shown, in the order given.
pub open spec fn stats_text(rows: Seq<StatsRow>) -> Seq<char>
    decreases rows.len(),
{
    if rows.len() == 0 {
        Seq::empty()
    } else {
        stats_text(rows.drop_last()) + stats_line(rows.last())
    }
}

/// What the administrator is sent, given what reading the rows came to.
pub open spec fn diagnostics_text(fetched: Result<Vec<StatsRow>, StoreFailure>) -> Seq<char> {
    match fetched {
        Ok(rows) => stats_text(rows@),
        Err(StoreFailure::Connect) => connect_failed_text(),
        Err(StoreFailure::Query) => query_failed_text(),
    }
}

/// Appends one row, as it is shown, to `out`.
fn push_stats_line(out: &mut String, row: &StatsRow)
    ensures
        final(out)@ == old(out)@ + stats_line(*row),
{
    let ghost before = out@;
    let mut line = decimal_i64(row.id);
    line.append(" ");
    line.append(decimal_i64(row.ok).as_str());
    line.append(" '");
    line.append(row.text.as_str());
    line.append("' ");
    line.append(row.created_at.as_str());
    line.append(" ");
    line.append(decimal_i64(row.response_time_ms).as_str());
    line.append("ms ");
    line.append(row.details.as_str());
    line.append("\n\n");
    proof {
        reveal_strlit(" ");
        reveal_strlit(" '");
        reveal_strlit("' ");
        reveal_strlit("ms ");
        reveal_strlit("\n\n");
        assert(" "@ =~= seq![' ']);
        assert(" '"@ =~= seq![' ', '\'']);
        assert("' "@ =~= seq!['\'', ' ']);
        assert("ms "@ =~= seq!['m', 's', ' ']);
        assert("\n\n"@ =~= seq!['\n', '\n']);
        assert(line@ == stats_line(*row));
    }
    out.append(line.as_str());
}

/// Writes the rows as the administrator is shown them, in the order given.
pub fn render_stats(rows: &[StatsRow]) -> (r: String)
    ensures
        r@ == stats_text(rows@),
{
    let mut out = String::new();
    let n = rows.len();
    let mut i: usize = 0;
    while i < n
        invariant
            n == rows@.len(),
            0 <= i <= n,
            out@ == stats_text(rows@.take(i as int)),
        decreases n - i,
    {
        proof {
            assert(rows@.take(i + 1).drop_last() =~= rows@.take(i as int));
            assert(rows@.take(i + 1).last() == rows@[i as int]);
        }
        push_stats_line(&mut out, &rows[i]);
        i += 1;
    }
    proof {
        assert(rows@.take(n as int) =~= rows@);
    }
    out
}

/// What the administrator is sent: the rows, or a notice that says which
/// step of reading them failed. A failure is told, never passed on.
pub fn diagnostics_reply(fetched: &Result<Vec<StatsRow>, StoreFailure>) -> (r: String)
    ensures
        r@ == diagnostics_text(*fetched),
{
    match fetched {
        Ok(rows) => render_stats(rows.as_slice()),
        Err(StoreFailure::Connect) => String::from_str("Failed to connect to database"),
        Err(StoreFailure::Query) => String::from_str("Failed to fetch metrics"),
    }
}

} // verus!
