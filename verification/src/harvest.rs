//! The harvest loop's decisions, and what they guarantee.
//!
//! For one season the loop reads the pending teams, walks each team's
//! schedule, persists every yielded game, and then marks the team done.
//! The application performs the fetches and the file writes; everything
//! between — which entries become games, what the persisted record holds,
//! whether a team may be marked done — is decided here.

use vstd::prelude::*;
use crate::errors::HarvestError;
use crate::json::JsonVal;
use crate::schedule::{save_path_seq, Game, GameCandidate};
use crate::stats::{
    fielding_schema, hitting_schema, pitching_schema, record_matches, FieldValue, StatRecord,
};
use crate::team::{group_stat, snapshot_ok, team_from_stats_response, Team};

verus! {

/// Everything `game_from_parts` promises: success exactly when both
/// snapshots normalize, and every part of the game pinned to its inputs.
pub open spec fn game_from_parts_post(
    c: GameCandidate,
    home_resp: JsonVal,
    away_resp: JsonVal,
    r: Result<Game, HarvestError>,
) -> bool {
    &&& (r is Ok <==> snapshot_ok(home_resp) && snapshot_ok(away_resp))
    &&& (r matches Ok(g) ==> {
        &&& g.setting.date == c.date
        &&& g.result.home_team_score == c.home_score
        &&& g.result.away_team_score == c.away_score
        &&& g.home_team.team_id == c.home_team_id
        &&& g.away_team.team_id == c.away_team_id
        &&& record_matches(group_stat(home_resp, 0), hitting_schema(), g.home_team.batting_stats)
        &&& record_matches(group_stat(home_resp, 1), pitching_schema(), g.home_team.pitching_stats)
        &&& record_matches(group_stat(home_resp, 2), fielding_schema(), g.home_team.fielding_stats)
        &&& record_matches(group_stat(away_resp, 0), hitting_schema(), g.away_team.batting_stats)
        &&& record_matches(group_stat(away_resp, 1), pitching_schema(), g.away_team.pitching_stats)
        &&& record_matches(group_stat(away_resp, 2), fielding_schema(), g.away_team.fielding_stats)
    })
    &&& (r matches Err(e) ==> e is Normalization)
}

/// Joins a validated candidate with the two fetched stats responses —
/// home side first, then away, both as of the game's official date — into
/// the game that is persisted. Fails, and the game is dropped, exactly
/// when either snapshot fails to normalize.
pub fn game_from_parts(c: &GameCandidate, home_resp: &JsonVal, away_resp: &JsonVal) -> (r: Result<
    Game,
    HarvestError,
>)
    ensures
        game_from_parts_post(*c, *home_resp, *away_resp, r),
{
    let home_team = match team_from_stats_response(c.home_team_id, home_resp) {
        Ok(t) => t,
        Err(e) => {
            return Err(e);
        },
    };
    let away_team = match team_from_stats_response(c.away_team_id, away_resp) {
        Ok(t) => t,
        Err(e) => {
            return Err(e);
        },
    };
    Ok(Game::assemble(c, home_team, away_team))
}

/// What to do with a team whose schedule fetch failed: keeping it pending
/// retries it on the next run; marking it done reproduces the older
/// behaviour that conflated "nothing to harvest" with "harvest failed".
#[derive(Debug, Clone, Copy, PartialEq, Eq, Structural)]
pub enum FetchFailurePolicy {
    KeepPending,
    MarkDone,
}

/// Whether a team is marked done after its walk: always when its schedule
/// fetch succeeded (even with zero games yielded), and on a failed fetch
/// only under the `MarkDone` policy.
pub fn should_mark_done(schedule_fetch_ok: bool, policy: FetchFailurePolicy) -> (r: bool)
    ensures
        r == (schedule_fetch_ok || policy is MarkDone),
{
    schedule_fetch_ok || matches!(policy, FetchFailurePolicy::MarkDone)
}

/// The observable content of a normalized field: its counting value, if it
/// is one, and its rate characters, if it is one.
pub open spec fn field_count_repr(v: FieldValue) -> Option<u64> {
    match v {
        FieldValue::Count(n) => Some(n),
        FieldValue::Rate(_) => None,
    }
}

/// The rate characters of a normalized field, empty for a counting field.
pub open spec fn field_rate_repr(v: FieldValue) -> Seq<char> {
    match v {
        FieldValue::Count(_) => Seq::empty(),
        FieldValue::Rate(s) => s@,
    }
}

/// The observable content of a record: name, counting value and rate
/// characters of each field, in order.
pub open spec fn record_repr(rec: StatRecord) -> Seq<(Seq<char>, Option<u64>, Seq<char>)> {
    rec.fields@.map_values(
        |p: (String, FieldValue)| (p.0@, field_count_repr(p.1), field_rate_repr(p.1)),
    )
}

/// The observable content of a snapshot.
pub open spec fn team_repr(t: Team) -> (
    u8,
    Seq<(Seq<char>, Option<u64>, Seq<char>)>,
    Seq<(Seq<char>, Option<u64>, Seq<char>)>,
    Seq<(Seq<char>, Option<u64>, Seq<char>)>,
) {
    (t.team_id, record_repr(t.batting_stats), record_repr(t.pitching_stats), record_repr(
        t.fielding_stats,
    ))
}

/// Two records normalized from the same value under the same schema hold
/// the same content.
pub proof fn lemma_record_deterministic(
    v: JsonVal,
    schema: Seq<(Seq<char>, crate::stats::FieldKind)>,
    r1: StatRecord,
    r2: StatRecord,
)
    requires
        record_matches(v, schema, r1),
        record_matches(v, schema, r2),
    ensures
        record_repr(r1) == record_repr(r2),
{
    assert forall|j: int| 0 <= j < schema.len() implies record_repr(r1)[j] == record_repr(
        r2,
    )[j] by {
        assert(crate::stats::field_matches(v, schema[j].0, schema[j].1, r1.fields@[j]));
        assert(crate::stats::field_matches(v, schema[j].0, schema[j].1, r2.fields@[j]));
    };
    assert(record_repr(r1) =~= record_repr(r2));
}

/// Idempotence of the harvest of one schedule entry: two runs against
/// identical upstream responses build games with identical observable
/// content, to be persisted at the identical path — or fail identically.
pub proof fn lemma_harvest_deterministic(
    c: GameCandidate,
    home_resp: JsonVal,
    away_resp: JsonVal,
    r1: Result<Game, HarvestError>,
    r2: Result<Game, HarvestError>,
)
    requires
        game_from_parts_post(c, home_resp, away_resp, r1),
        game_from_parts_post(c, home_resp, away_resp, r2),
    ensures
        r1 is Ok <==> r2 is Ok,
        r1 matches Ok(g1) ==> (r2 matches Ok(g2) && g1.setting == g2.setting && g1.result
            == g2.result && team_repr(g1.home_team) == team_repr(g2.home_team) && team_repr(
            g1.away_team,
        ) == team_repr(g2.away_team) && save_path_seq(g1.setting.date, g1.home_team.team_id)
            == save_path_seq(g2.setting.date, g2.home_team.team_id)),
        r1 matches Err(e1) ==> (r2 matches Err(e2) && e1 == e2),
{
    if r1 is Ok {
        let g1 = r1.unwrap();
        let g2 = r2.unwrap();
        lemma_record_deterministic(
            group_stat(home_resp, 0),
            hitting_schema(),
            g1.home_team.batting_stats,
            g2.home_team.batting_stats,
        );
        lemma_record_deterministic(
            group_stat(home_resp, 1),
            pitching_schema(),
            g1.home_team.pitching_stats,
            g2.home_team.pitching_stats,
        );
        lemma_record_deterministic(
            group_stat(home_resp, 2),
            fielding_schema(),
            g1.home_team.fielding_stats,
            g2.home_team.fielding_stats,
        );
        lemma_record_deterministic(
            group_stat(away_resp, 0),
            hitting_schema(),
            g1.away_team.batting_stats,
            g2.away_team.batting_stats,
        );
        lemma_record_deterministic(
            group_stat(away_resp, 1),
            pitching_schema(),
            g1.away_team.pitching_stats,
            g2.away_team.pitching_stats,
        );
        lemma_record_deterministic(
            group_stat(away_resp, 2),
            fielding_schema(),
            g1.away_team.fielding_stats,
            g2.away_team.fielding_stats,
        );
    }
}

} // verus!
