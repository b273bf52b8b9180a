//! The schedule walker's decisions: which schedule entries are evaluated,
//! when an entry becomes a candidate game, and where a finished game is
//! persisted.
//!
//! A schedule response is a list of date-entries. Entry 0 is a sentinel of
//! the upstream schedule format and is always skipped, whatever it holds;
//! entries 1 onward are each validated into a candidate game. A candidate
//! needs a finished status, a well-formed official date, both team ids and
//! both scores; an entry failing any of these is skipped and walking
//! continues with the next entry.

use vstd::prelude::*;
use crate::calendar::{date_wf, iso_date, iso_seq, iso_shape, Date};
use crate::errors::HarvestError;
use crate::json::{jget, jidx, spec_as_str, spec_as_u64, spec_get, JsonVal};
use crate::team::Team;
use crate::text::{append_dec, dec_digits, str_eq};

verus! {

/// The final score of a finished game.
#[derive(Debug, Clone, Copy, PartialEq, Eq, Structural)]
pub struct GameResult {
    pub home_team_score: u8,
    pub away_team_score: u8,
}

/// The circumstances of a game: its official date.
#[derive(Debug, Clone, Copy, PartialEq, Eq, Structural)]
pub struct GameSetting {
    pub date: Date,
}

/// A finished game with both teams' trailing snapshots attached.
#[derive(Debug)]
pub struct Game {
    pub setting: GameSetting,
    pub home_team: Team,
    pub away_team: Team,
    pub result: GameResult,
}

/// What a schedule entry must yield before any snapshot is fetched.
#[derive(Debug, Clone, Copy, PartialEq, Eq, Structural)]
pub struct GameCandidate {
    pub date: Date,
    pub home_team_id: u8,
    pub away_team_id: u8,
    pub home_score: u8,
    pub away_score: u8,
}

/// The schedule request URL for a team's season.
pub open spec fn schedule_url_seq(team_id: u8, season: u16) -> Seq<char> {
    "https://statsapi.mlb.com/api/v1/schedule?sportId=1&teamId="@ + dec_digits(team_id as nat)
        + "&season="@ + dec_digits(season as nat)
}

/// Builds the schedule request URL for a team's season.
pub fn schedule_url(team_id: u8, season: u16) -> (s: String)
    ensures
        s@ == schedule_url_seq(team_id, season),
{
    let mut s = String::new();
    s.append("https://statsapi.mlb.com/api/v1/schedule?sportId=1&teamId=");
    append_dec(&mut s, team_id as u64);
    s.append("&season=");
    append_dec(&mut s, season as u64);
    proof {
        assert(s@ =~= schedule_url_seq(team_id, season));
    }
    s
}

/// The date-entry list of a schedule response, if the response has the
/// expected structure.
pub open spec fn spec_schedule_dates(v: JsonVal) -> Option<Seq<JsonVal>> {
    match spec_get(v, "dates"@) {
        Some(m) => match m {
            JsonVal::Arr(d) => Some(d@),
            _ => None,
        },
        _ => None,
    }
}

/// Reads the date-entry list out of a schedule response; a response without
/// a `dates` array has no expected structure and fails as a parse error.
pub fn schedule_dates<'a>(v: &'a JsonVal) -> (r: Result<&'a Vec<JsonVal>, HarvestError>)
    ensures
        r is Ok <==> spec_schedule_dates(*v) is Some,
        r matches Ok(d) ==> spec_schedule_dates(*v) == Some(d@),
        r matches Err(e) ==> e is ScheduleParse,
{
    match v.get("dates") {
        Some(m) => match m {
            JsonVal::Arr(elems) => Ok(elems),
            _ => Err(HarvestError::ScheduleParse),
        },
        None => Err(HarvestError::ScheduleParse),
    }
}

/// The positions of a schedule's date-entries that are evaluated: all of
/// them except position 0, which is always skipped as the upstream format's
/// sentinel entry, whatever its content.
pub fn plan_entries(dates_len: usize) -> (r: Vec<usize>)
    ensures
        dates_len == 0 ==> r@.len() == 0,
        dates_len > 0 ==> r@.len() == dates_len - 1,
        forall|k: int| 0 <= k < r@.len() ==> #[trigger] r@[k] == k + 1,
{
    let mut out: Vec<usize> = Vec::new();
    if dates_len == 0 {
        return out;
    }
    let mut i: usize = 1;
    while i < dates_len
        invariant
            1 <= i <= dates_len,
            out@.len() == i - 1,
            forall|k: int| 0 <= k < out@.len() ==> #[trigger] out@[k] == k + 1,
        decreases dates_len - i,
    {
        out.push(i);
        i = i + 1;
    }
    out
}

/// The game object of a date-entry: its first listed game.
pub open spec fn entry_game(e: JsonVal) -> JsonVal {
    jidx(jget(e, "games"@), 0)
}

/// The status code string of a date-entry's game, if present.
pub open spec fn entry_status(e: JsonVal) -> Option<Seq<char>> {
    spec_as_str(jget(jget(entry_game(e), "status"@), "statusCode"@))
}

/// The official date string of a date-entry's game, if present.
pub open spec fn entry_date_raw(e: JsonVal) -> Option<Seq<char>> {
    spec_as_str(jget(entry_game(e), "officialDate"@))
}

/// A side's team identifier in a date-entry's game, if present as an
/// integer.
pub open spec fn entry_team_id_raw(e: JsonVal, home: bool) -> Option<u64> {
    spec_as_u64(
        jget(
            jget(jget(jget(entry_game(e), "teams"@), if home {
                "home"@
            } else {
                "away"@
            }), "team"@),
            "id"@,
        ),
    )
}

/// A side's score in a date-entry's game, if present as an integer.
pub open spec fn entry_score_raw(e: JsonVal, home: bool) -> Option<u64> {
    spec_as_u64(jget(jget(jget(entry_game(e), "teams"@), if home {
        "home"@
    } else {
        "away"@
    }), "score"@))
}

/// A date-entry yields a candidate game exactly when its game is finished,
/// its official date is well-formed in the fixed calendar, and both team
/// ids and both scores are present.
pub open spec fn entry_valid(e: JsonVal) -> bool {
    &&& entry_status(e) == Some("finished"@)
    &&& entry_date_raw(e) matches Some(ds) && iso_shape(ds) && date_wf(iso_date(ds)) && iso_date(
        ds,
    ).year >= 1
    &&& entry_team_id_raw(e, true) is Some
    &&& entry_team_id_raw(e, false) is Some
    &&& entry_score_raw(e, true) is Some
    &&& entry_score_raw(e, false) is Some
}

/// The candidate a valid date-entry yields. Team ids and scores keep the
/// low eight bits of the upstream integers, as the persisted records do.
pub open spec fn entry_candidate(e: JsonVal) -> GameCandidate {
    GameCandidate {
        date: iso_date(entry_date_raw(e).unwrap()),
        home_team_id: (entry_team_id_raw(e, true).unwrap() % 256) as u8,
        away_team_id: (entry_team_id_raw(e, false).unwrap() % 256) as u8,
        home_score: (entry_score_raw(e, true).unwrap() % 256) as u8,
        away_score: (entry_score_raw(e, false).unwrap() % 256) as u8,
    }
}

/// Validates one date-entry into a candidate game.
///
/// Fails, and the entry is skipped, exactly when the entry is not a valid
/// finished game with a well-formed date, both team ids and both scores.
pub fn validate_entry(e: &JsonVal) -> (r: Result<GameCandidate, HarvestError>)
    ensures
        r is Ok <==> entry_valid(*e),
        r matches Ok(c) ==> c == entry_candidate(*e),
        r matches Err(err) ==> err is GameValidation,
{
    let null_v = JsonVal::Null;
    let game = e.get_or("games", &null_v).index_or(0, &null_v);
    let status = match game.get_or("status", &null_v).get_or("statusCode", &null_v).as_str() {
        Some(s) => s,
        None => {
            return Err(HarvestError::GameValidation);
        },
    };
    if !str_eq(status, "finished") {
        return Err(HarvestError::GameValidation);
    }
    let date_str = match game.get_or("officialDate", &null_v).as_str() {
        Some(s) => s,
        None => {
            return Err(HarvestError::GameValidation);
        },
    };
    let date = match Date::parse_iso(date_str) {
        Some(d) => d,
        None => {
            return Err(HarvestError::GameValidation);
        },
    };
    if !date.is_valid() || date.year < 1 {
        return Err(HarvestError::GameValidation);
    }
    let teams = game.get_or("teams", &null_v);
    let home_id = match teams.get_or("home", &null_v).get_or("team", &null_v).get_or(
        "id",
        &null_v,
    ).as_u64() {
        Some(x) => x,
        None => {
            return Err(HarvestError::GameValidation);
        },
    };
    let away_id = match teams.get_or("away", &null_v).get_or("team", &null_v).get_or(
        "id",
        &null_v,
    ).as_u64() {
        Some(x) => x,
        None => {
            return Err(HarvestError::GameValidation);
        },
    };
    let home_score = match teams.get_or("home", &null_v).get_or("score", &null_v).as_u64() {
        Some(x) => x,
        None => {
            return Err(HarvestError::GameValidation);
        },
    };
    let away_score = match teams.get_or("away", &null_v).get_or("score", &null_v).as_u64() {
        Some(x) => x,
        None => {
            return Err(HarvestError::GameValidation);
        },
    };
    Ok(
        GameCandidate {
            date,
            home_team_id: (home_id % 256) as u8,
            away_team_id: (away_id % 256) as u8,
            home_score: (home_score % 256) as u8,
            away_score: (away_score % 256) as u8,
        },
    )
}

impl Game {
    /// Joins a validated candidate with the two fetched snapshots into the
    /// record that is persisted.
    pub fn assemble(c: &GameCandidate, home_team: Team, away_team: Team) -> (g: Game)
        requires
            home_team.team_id == c.home_team_id,
            away_team.team_id == c.away_team_id,
        ensures
            g.setting.date == c.date,
            g.home_team == home_team,
            g.away_team == away_team,
            g.result.home_team_score == c.home_score,
            g.result.away_team_score == c.away_score,
    {
        Game {
            setting: GameSetting { date: c.date },
            home_team,
            away_team,
            result: GameResult {
                home_team_score: c.home_score,
                away_team_score: c.away_score,
            },
        }
    }

    /// The deterministic path a game is persisted at, keyed by year, home
    /// team and official date.
    pub fn save_path(&self) -> (s: String)
        ensures
            s@ == save_path_seq(self.setting.date, self.home_team.team_id),
    {
        let mut s = String::new();
        s.append("data/");
        append_dec(&mut s, self.setting.date.year as u64);
        s.append("/");
        append_dec(&mut s, self.home_team.team_id as u64);
        s.append("/");
        let date_str = self.setting.date.to_iso_string();
        s.append(date_str.as_str());
        s.append(".json");
        proof {
            assert(s@ =~= save_path_seq(self.setting.date, self.home_team.team_id));
        }
        s
    }
}

/// Where a game of this date and home team is persisted:
/// `data/<year>/<homeTeamId>/<ISO-date>.json`.
pub open spec fn save_path_seq(date: Date, home_team_id: u8) -> Seq<char> {
    "data/"@ + dec_digits(date.year as nat) + "/"@ + dec_digits(home_team_id as nat) + "/"@
        + iso_seq(date) + ".json"@
}

} // verus!
