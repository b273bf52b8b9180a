//! The rolling stat fetcher's computational half: the stats request URL for
//! a trailing 30-day window, and the conversion of a stats response into a
//! team snapshot.
//!
//! A snapshot aggregates the 30 calendar days ending on (and including) the
//! as-of date — not a season total. The response carries three stat groups
//! at fixed positions 0, 1 and 2 (hitting, pitching, fielding), each with a
//! single aggregate object; if a group is missing or fails normalization,
//! the whole snapshot fails and no partial snapshot is produced.

use vstd::prelude::*;
use crate::calendar::{date_ord, date_wf, iso_seq, spec_minus_n_days, Date};
use crate::errors::HarvestError;
use crate::json::{jget, jidx, JsonVal};
use crate::stats::{
    all_rates_ok, fielding_fields, fielding_schema, hitting_fields, hitting_schema, normalize,
    pitching_fields, pitching_schema, record_matches, StatRecord,
};
use crate::text::{append_dec, dec_digits};

verus! {

/// A team's trailing-window snapshot: identity plus its three normalized
/// stat records.
#[derive(Debug)]
pub struct Team {
    pub team_id: u8,
    pub batting_stats: StatRecord,
    pub pitching_stats: StatRecord,
    pub fielding_stats: StatRecord,
}

/// Days of the trailing window, excluding the as-of day itself.
pub const WINDOW_DAYS: u8 = 30;

/// The aggregate stat object of group `i` in a stats response:
/// `stats[i].splits[0].stat`, read null-tolerantly.
pub open spec fn group_stat(v: JsonVal, i: int) -> JsonVal {
    jget(jidx(jget(jidx(jget(v, "stats"@), i), "splits"@), 0), "stat"@)
}

/// All three positional groups of the response normalize under their
/// schemas.
pub open spec fn snapshot_ok(v: JsonVal) -> bool {
    &&& all_rates_ok(group_stat(v, 0), hitting_schema())
    &&& all_rates_ok(group_stat(v, 1), pitching_schema())
    &&& all_rates_ok(group_stat(v, 2), fielding_schema())
}

/// The stats request URL for the trailing window ending on `end`.
pub open spec fn stats_url_seq(team_id: u8, end: Date) -> Seq<char> {
    "https://statsapi.mlb.com/api/v1/teams/"@ + dec_digits(team_id as nat) + "/stats?season="@
        + dec_digits(end.year as nat)
        + "&stats=byDateRange&group=hitting,pitching,fielding&startDate="@ + iso_seq(
        spec_minus_n_days(end, WINDOW_DAYS as nat),
    ) + "&endDate="@ + iso_seq(end)
}

/// Builds the rolling-stats request URL: the window runs from 30 days
/// before `end_date` up to and including `end_date`, within the as-of
/// year's season.
pub fn stats_url(team_id: u8, end_date: &Date) -> (s: String)
    requires
        date_wf(*end_date),
        date_ord(*end_date) >= WINDOW_DAYS,
    ensures
        s@ == stats_url_seq(team_id, *end_date),
{
    let start = end_date.minus_n_days(WINDOW_DAYS);
    let mut s = String::new();
    s.append("https://statsapi.mlb.com/api/v1/teams/");
    append_dec(&mut s, team_id as u64);
    s.append("/stats?season=");
    append_dec(&mut s, end_date.year as u64);
    s.append("&stats=byDateRange&group=hitting,pitching,fielding&startDate=");
    let start_str = start.to_iso_string();
    s.append(start_str.as_str());
    s.append("&endDate=");
    let end_str = end_date.to_iso_string();
    s.append(end_str.as_str());
    proof {
        assert(s@ =~= stats_url_seq(team_id, *end_date));
    }
    s
}

/// Converts a stats response into the team's snapshot.
///
/// Succeeds if and only if each of the three positional groups normalizes
/// under its schema; a missing group reads as null and so fails its rate
/// fields. There is no partial snapshot.
pub fn team_from_stats_response(team_id: u8, v: &JsonVal) -> (r: Result<Team, HarvestError>)
    ensures
        r is Ok <==> snapshot_ok(*v),
        r matches Ok(t) ==> {
            &&& t.team_id == team_id
            &&& record_matches(group_stat(*v, 0), hitting_schema(), t.batting_stats)
            &&& record_matches(group_stat(*v, 1), pitching_schema(), t.pitching_stats)
            &&& record_matches(group_stat(*v, 2), fielding_schema(), t.fielding_stats)
        },
        r matches Err(e) ==> e is Normalization,
{
    let null_v = JsonVal::Null;
    let groups = v.get_or("stats", &null_v);
    let g0 = groups.index_or(0, &null_v).get_or("splits", &null_v).index_or(0, &null_v).get_or(
        "stat",
        &null_v,
    );
    let g1 = groups.index_or(1, &null_v).get_or("splits", &null_v).index_or(0, &null_v).get_or(
        "stat",
        &null_v,
    );
    let g2 = groups.index_or(2, &null_v).get_or("splits", &null_v).index_or(0, &null_v).get_or(
        "stat",
        &null_v,
    );
    let hitting_table = hitting_fields();
    let batting_stats = match normalize(&hitting_table, g0) {
        Ok(rec) => rec,
        Err(e) => {
            return Err(e);
        },
    };
    let pitching_table = pitching_fields();
    let pitching_stats = match normalize(&pitching_table, g1) {
        Ok(rec) => rec,
        Err(e) => {
            return Err(e);
        },
    };
    let fielding_table = fielding_fields();
    let fielding_stats = match normalize(&fielding_table, g2) {
        Ok(rec) => rec,
        Err(e) => {
            return Err(e);
        },
    };
    Ok(Team { team_id, batting_stats, pitching_stats, fielding_stats })
}

} // verus!
