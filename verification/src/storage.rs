//! What the session layer asks of the sample store: how a range of stored
//! samples is queried, and which device a sample is filed under.

use crate::text::{decimal_string, decimal_text};
use vstd::prelude::*;
use vstd::string::*;

verus! {

/// How many samples a query returns where the caller names no limit.
pub const DEFAULT_STATS_LIMIT: i64 = 120;

/// The device that a sample is filed under where neither the caller nor
/// the store names one.
pub const FALLBACK_DEVICE_ID: i64 = 1;

/// The start of the query for the stored samples of one device.
pub const STATS_SELECT: &'static str = "SELECT ts, cpu, ram_used_mb, ram_total_mb, gpu_util, \
    gpu_temp_c, power_mode FROM device_stats WHERE device_id = ?1";

/// A query text with the values bound to its numbered placeholders, in
/// order.
#[derive(Debug, Clone, PartialEq, Eq)]
pub struct StatsQuery {
    pub sql: String,
    pub binds: Vec<i64>,
}

/// The device to file a sample under: the one the caller names, else the
/// store's default device, else the fallback.
pub fn device_or_default(requested: Option<i64>, store_default: Option<i64>) -> (id: i64)
    ensures
        id == match requested {
            Some(id) => id,
            None => match store_default {
                Some(id) => id,
                None => FALLBACK_DEVICE_ID,
            },
        },
{
    match requested {
        Some(id) => id,
        None => match store_default {
            Some(id) => id,
            None => FALLBACK_DEVICE_ID,
        },
    }
}

/// The number of samples to return.
pub open spec fn effective_limit(limit: Option<i64>) -> i64 {
    match limit {
        Some(n) => n,
        None => DEFAULT_STATS_LIMIT,
    }
}

/// The condition on the start of the range: placeholder 2.
pub open spec fn start_clause(start_ts: Option<i64>) -> Seq<char> {
    if start_ts is Some {
        " AND ts >= ?2"@
    } else {
        Seq::empty()
    }
}

/// The condition on the end of the range: the placeholder behind those
/// already used.
pub open spec fn end_clause(start_ts: Option<i64>, end_ts: Option<i64>) -> Seq<char> {
    if end_ts is Some {
        " AND ts <= ?"@ + decimal_text(
            if start_ts is Some {
                3
            } else {
                2
            },
        )
    } else {
        Seq::empty()
    }
}

/// The text of the query for the newest samples of one device within an
/// optional time range, newest first.
pub open spec fn stats_sql(
    limit: Option<i64>,
    start_ts: Option<i64>,
    end_ts: Option<i64>,
) -> Seq<char> {
    STATS_SELECT@ + start_clause(start_ts) + end_clause(start_ts, end_ts) + " ORDER BY ts DESC LIMIT "@
        + decimal_text(effective_limit(limit) as int)
}

/// The values for the placeholders: the device, then the bounds that are
/// given.
pub open spec fn stats_binds(
    device_id: i64,
    start_ts: Option<i64>,
    end_ts: Option<i64>,
) -> Seq<i64> {
    seq![device_id] + (match start_ts {
        Some(s) => seq![s],
        None => Seq::empty(),
    }) + (match end_ts {
        Some(e) => seq![e],
        None => Seq::empty(),
    })
}

/// Builds the query for the newest samples of `device_id` between the
/// optional bounds, both inclusive.
pub fn stats_query(
    device_id: i64,
    limit: Option<i64>,
    start_ts: Option<i64>,
    end_ts: Option<i64>,
) -> (q: StatsQuery)
    ensures
        q.sql@ == stats_sql(limit, start_ts, end_ts),
        q.binds@ == stats_binds(device_id, start_ts, end_ts),
{
    let mut sql = STATS_SELECT.to_owned();
    let mut binds: Vec<i64> = Vec::new();
    binds.push(device_id);
    let ghost head = sql@;
    match start_ts {
        Some(s) => {
            sql.append(" AND ts >= ?2");
            binds.push(s);
        },
        None => {
            assert(head + Seq::<char>::empty() =~= head);
            assert(binds@ + Seq::<i64>::empty() =~= binds@);
        },
    }
    assert(sql@ == head + start_clause(start_ts));
    assert(binds@ =~= seq![device_id] + (match start_ts {
        Some(s) => seq![s],
        None => Seq::empty(),
    }));
    let ghost middle = sql@;
    let ghost bound = binds@;
    match end_ts {
        Some(e) => {
            let index: usize = binds.len() + 1;
            let number = decimal_string(index as i64);
            sql.append(" AND ts <= ?");
            sql.append(number.as_str());
            binds.push(e);
            assert(sql@ =~= middle + (" AND ts <= ?"@ + number@));
            assert(binds@ =~= bound + seq![e]);
        },
        None => {
            assert(middle + Seq::<char>::empty() =~= middle);
            assert(bound + Seq::<i64>::empty() =~= bound);
        },
    }
    assert(sql@ == middle + end_clause(start_ts, end_ts));
    let lim: i64 = match limit {
        Some(n) => n,
        None => DEFAULT_STATS_LIMIT,
    };
    let number = decimal_string(lim);
    sql.append(" ORDER BY ts DESC LIMIT ");
    sql.append(number.as_str());
    StatsQuery { sql, binds }
}

/// Samples that were read newest first, in the order of their time.
pub fn chronological<T>(newest_first: Vec<T>) -> (out: Vec<T>)
    ensures
        out@ == newest_first@.reverse(),
{
    let mut rest = newest_first;
    let ghost all = rest@;
    let mut out: Vec<T> = Vec::new();
    while rest.len() > 0
        invariant
            rest.len() <= all.len(),
            rest@ == all.take(rest.len() as int),
            out@ == all.skip(rest.len() as int).reverse(),
        decreases rest.len(),
    {
        let ghost n = rest.len() as int;
        match rest.pop() {
            Some(item) => {
                assert(all.skip(n - 1).reverse() =~= all.skip(n).reverse().push(item));
                out.push(item);
            },
            None => {},
        }
    }
    assert(all.skip(0) =~= all);
    out
}

} // verus!
