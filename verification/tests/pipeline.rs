use mlb_harvest::calendar::Date;
use mlb_harvest::checkpoint::CheckpointState;
use mlb_harvest::checkpoint::team_universe;
use mlb_harvest::errors::HarvestError;
use mlb_harvest::fetcher::{attempt_succeeded, next_fetch_step, AttemptOutcome, FetchStep};
use mlb_harvest::harvest::{game_from_parts, should_mark_done, FetchFailurePolicy};
use mlb_harvest::json::JsonVal;
use mlb_harvest::rate::rate_string_parses;
use mlb_harvest::schedule::{
    plan_entries, schedule_dates, schedule_url, validate_entry, Game, GameCandidate,
};
use mlb_harvest::stats::{
    fielding_fields, hitting_fields, normalize, pitching_fields, FieldKind, FieldSpec, FieldValue,
};
use mlb_harvest::team::{stats_url, team_from_stats_response};
use mlb_harvest::text::u64_to_dec;

// ---- fixture helpers -------------------------------------------------------

fn obj(pairs: Vec<(&str, JsonVal)>) -> JsonVal {
    JsonVal::Obj(pairs.into_iter().map(|(k, v)| (k.to_string(), v)).collect())
}

fn s(text: &str) -> JsonVal {
    JsonVal::Str(text.to_string())
}

fn rates_obj(names: &[&str]) -> JsonVal {
    let mut pairs: Vec<(String, JsonVal)> = vec![("gamesPlayed".to_string(), JsonVal::UInt(9))];
    for name in names {
        pairs.push((name.to_string(), s("0.250")));
    }
    JsonVal::Obj(pairs)
}

const HITTING_RATES: [&str; 8] =
    ["avg", "obp", "slg", "ops", "stolenBasePercentage", "babip", "groundOutsToAirouts", "atBatsPerHomeRun"];

const PITCHING_RATES: [&str; 14] = [
    "avg",
    "era",
    "inningsPitched",
    "whip",
    "strikePercentage",
    "groundOutsToAirouts",
    "winPercentage",
    "pitchesPerInning",
    "strikeoutWalkRatio",
    "strikeoutsPer9Inn",
    "walksPer9Inn",
    "hitsPer9Inn",
    "runsScoredPer9",
    "homeRunsPer9",
];

const FIELDING_RATES: [&str; 4] =
    ["fielding", "rangeFactorPerGame", "rangeFactorPer9Inn", "innings"];

fn group(stat: JsonVal) -> JsonVal {
    obj(vec![("splits", JsonVal::Arr(vec![obj(vec![("stat", stat)])]))])
}

fn stats_response() -> JsonVal {
    obj(vec![(
        "stats",
        JsonVal::Arr(vec![
            group(rates_obj(&HITTING_RATES)),
            group(rates_obj(&PITCHING_RATES)),
            group(rates_obj(&FIELDING_RATES)),
        ]),
    )])
}

fn finished_entry(date: &str, home_id: u64, away_id: u64, home_score: u64, away_score: u64) -> JsonVal {
    obj(vec![(
        "games",
        JsonVal::Arr(vec![obj(vec![
            ("status", obj(vec![("statusCode", s("finished"))])),
            ("officialDate", s(date)),
            (
                "teams",
                obj(vec![
                    (
                        "home",
                        obj(vec![
                            ("team", obj(vec![("id", JsonVal::UInt(home_id))])),
                            ("score", JsonVal::UInt(home_score)),
                        ]),
                    ),
                    (
                        "away",
                        obj(vec![
                            ("team", obj(vec![("id", JsonVal::UInt(away_id))])),
                            ("score", JsonVal::UInt(away_score)),
                        ]),
                    ),
                ]),
            ),
        ])]),
    )])
}

fn record_value(rec: &mlb_harvest::stats::StatRecord, name: &str) -> Option<FieldValue> {
    for (n, v) in &rec.fields {
        if n == name {
            return Some(match v {
                FieldValue::Count(c) => FieldValue::Count(*c),
                FieldValue::Rate(r) => FieldValue::Rate(r.clone()),
            });
        }
    }
    None
}

// ---- calendar --------------------------------------------------------------

#[test]
fn minus_30_days_treats_february_as_28() {
    // 30 single-day decrements from March 15 with February fixed at 28
    // days: 15 steps reach February 28, 15 more reach February 13. A
    // leap-aware calendar would land a day later — exactly the drift the
    // fixed calendar forbids.
    let d = Date { year: 2024, month: 3, day: 15 };
    let r = d.minus_n_days(30);
    assert_eq!(r, Date { year: 2024, month: 2, day: 13 });
}

#[test]
fn previous_day_steps_into_previous_month() {
    let d = Date { year: 2023, month: 3, day: 1 };
    assert_eq!(d.previous_day(), Date { year: 2023, month: 2, day: 28 });
}

#[test]
fn previous_day_steps_into_previous_year() {
    let d = Date { year: 2023, month: 1, day: 1 };
    assert_eq!(d.previous_day(), Date { year: 2022, month: 12, day: 31 });
}

#[test]
fn minus_zero_days_is_identity() {
    let d = Date { year: 2021, month: 7, day: 9 };
    assert_eq!(d.minus_n_days(0), d);
}

#[test]
fn iso_string_pads_fields() {
    let d = Date { year: 987, month: 5, day: 4 };
    assert_eq!(d.to_iso_string(), "0987-05-04");
}

#[test]
fn iso_parse_round_trip() {
    let d = Date::parse_iso("2021-05-04").unwrap();
    assert_eq!(d, Date { year: 2021, month: 5, day: 4 });
    assert_eq!(d.to_iso_string(), "2021-05-04");
}

#[test]
fn iso_parse_rejects_other_shapes() {
    assert!(Date::parse_iso("2021-5-4").is_none());
    assert!(Date::parse_iso("garbage").is_none());
    assert!(Date::parse_iso("2021/05/04").is_none());
    assert!(Date::parse_iso("").is_none());
}

// ---- decimal text ----------------------------------------------------------

#[test]
fn decimal_rendering() {
    assert_eq!(u64_to_dec(0), "0");
    assert_eq!(u64_to_dec(42), "42");
    assert_eq!(u64_to_dec(1234567890123), "1234567890123");
}

// ---- rate strings ----------------------------------------------------------

#[test]
fn rate_accepts_numbers() {
    assert!(rate_string_parses("0.313"));
    assert!(rate_string_parses(".5"));
    assert!(rate_string_parses("-1.75"));
    assert!(rate_string_parses("3"));
    assert!(rate_string_parses("1.5e-3"));
    assert!(rate_string_parses("2E8"));
    assert!(rate_string_parses("7."));
    assert!(rate_string_parses("inf"));
    assert!(rate_string_parses("-Infinity"));
    assert!(rate_string_parses("NaN"));
}

#[test]
fn rate_rejects_sentinels_and_garbage() {
    assert!(!rate_string_parses("-.--"));
    assert!(!rate_string_parses(""));
    assert!(!rate_string_parses("-"));
    assert!(!rate_string_parses("."));
    assert!(!rate_string_parses("1.2.3"));
    assert!(!rate_string_parses("--1"));
    assert!(!rate_string_parses("1e"));
    assert!(!rate_string_parses("e5"));
    assert!(!rate_string_parses("12a"));
}

// ---- normalizer ------------------------------------------------------------

#[test]
fn absent_counting_field_defaults_to_zero() {
    let table = vec![FieldSpec { name: "runs".to_string(), kind: FieldKind::Counting }];
    let rec = normalize(&table, &obj(vec![])).unwrap();
    assert_eq!(rec.fields.len(), 1);
    assert_eq!(rec.fields[0].0, "runs");
    assert_eq!(rec.fields[0].1, FieldValue::Count(0));
}

#[test]
fn non_integer_counting_field_defaults_to_zero() {
    let table = vec![FieldSpec { name: "runs".to_string(), kind: FieldKind::Counting }];
    let rec = normalize(&table, &obj(vec![("runs", s("12"))])).unwrap();
    assert_eq!(rec.fields[0].1, FieldValue::Count(0));
}

#[test]
fn sentinel_rate_string_fails_normalization() {
    let table = vec![FieldSpec { name: "avg".to_string(), kind: FieldKind::Rate }];
    let r = normalize(&table, &obj(vec![("avg", s("-.--"))]));
    assert_eq!(r.unwrap_err(), HarvestError::Normalization);
}

#[test]
fn missing_rate_field_fails_normalization() {
    let table = vec![FieldSpec { name: "avg".to_string(), kind: FieldKind::Rate }];
    let r = normalize(&table, &obj(vec![]));
    assert_eq!(r.unwrap_err(), HarvestError::Normalization);
}

#[test]
fn non_string_rate_field_fails_normalization() {
    let table = vec![FieldSpec { name: "avg".to_string(), kind: FieldKind::Rate }];
    let r = normalize(&table, &obj(vec![("avg", JsonVal::UInt(3))]));
    assert_eq!(r.unwrap_err(), HarvestError::Normalization);
}

#[test]
fn hitting_schema_normalizes_fixture() {
    let table = hitting_fields();
    assert_eq!(table.len(), 31);
    let rec = normalize(&table, &rates_obj(&HITTING_RATES)).unwrap();
    assert_eq!(rec.fields.len(), 31);
    assert_eq!(record_value(&rec, "gamesPlayed"), Some(FieldValue::Count(9)));
    assert_eq!(record_value(&rec, "runs"), Some(FieldValue::Count(0)));
    assert_eq!(record_value(&rec, "avg"), Some(FieldValue::Rate("0.250".to_string())));
}

#[test]
fn pitching_and_fielding_schema_sizes() {
    assert_eq!(pitching_fields().len(), 49);
    assert_eq!(fielding_fields().len(), 14);
}

fn names_of(table: &[FieldSpec]) -> Vec<&str> {
    table.iter().map(|f| f.name.as_str()).collect()
}

fn rate_names_of(table: &[FieldSpec]) -> Vec<&str> {
    table
        .iter()
        .filter(|f| f.kind == FieldKind::Rate)
        .map(|f| f.name.as_str())
        .collect()
}

#[test]
fn hitting_field_names_fixture() {
    let table = hitting_fields();
    assert_eq!(
        names_of(&table),
        vec![
            "gamesPlayed",
            "groundOuts",
            "airOuts",
            "runs",
            "doubles",
            "triples",
            "homeRuns",
            "strikeOuts",
            "baseOnBalls",
            "intentionalWalks",
            "hits",
            "hitByPitch",
            "avg",
            "atBats",
            "obp",
            "slg",
            "ops",
            "caughtStealing",
            "stolenBases",
            "stolenBasePercentage",
            "groundIntoDoublePlay",
            "numberOfPitches",
            "plateAppearances",
            "totalBases",
            "rbi",
            "leftOnBase",
            "sacBunts",
            "sacFlies",
            "babip",
            "groundOutsToAirouts",
            "atBatsPerHomeRun",
        ]
    );
    assert_eq!(rate_names_of(&table), HITTING_RATES.to_vec());
}

#[test]
fn pitching_field_names_fixture() {
    let table = pitching_fields();
    assert_eq!(
        names_of(&table),
        vec![
            "gamesPlayed",
            "gamesStarted",
            "groundOuts",
            "airOuts",
            "runs",
            "doubles",
            "triples",
            "homeRuns",
            "strikeOuts",
            "baseOnBalls",
            "intentionalWalks",
            "hits",
            "hitByPitch",
            "avg",
            "atBats",
            "era",
            "inningsPitched",
            "wins",
            "losses",
            "ties",
            "saves",
            "saveOpportunities",
            "holds",
            "blownSaves",
            "earnedRuns",
            "whip",
            "battersFaced",
            "outs",
            "gamesPitched",
            "completeGames",
            "shutouts",
            "strikes",
            "strikePercentage",
            "hitBatsmen",
            "balks",
            "wildPitches",
            "pickoffs",
            "groundOutsToAirouts",
            "winPercentage",
            "pitchesPerInning",
            "gamesFinished",
            "strikeoutWalkRatio",
            "strikeoutsPer9Inn",
            "walksPer9Inn",
            "hitsPer9Inn",
            "runsScoredPer9",
            "homeRunsPer9",
            "sacBunts",
            "sacFlies",
        ]
    );
}

#[test]
fn fielding_field_names_fixture() {
    let table = fielding_fields();
    assert_eq!(
        names_of(&table),
        vec![
            "gamesPlayed",
            "gamesStarted",
            "assists",
            "putOuts",
            "errors",
            "chances",
            "fielding",
            "rangeFactorPerGame",
            "rangeFactorPer9Inn",
            "innings",
            "games",
            "doublePlays",
            "triplePlays",
            "throwingErrors",
        ]
    );
    assert_eq!(rate_names_of(&table), FIELDING_RATES.to_vec());
}

// ---- fetch policy ----------------------------------------------------------

#[test]
fn attempt_success_is_status_range() {
    assert!(attempt_succeeded(&AttemptOutcome::Response(200)));
    assert!(attempt_succeeded(&AttemptOutcome::Response(299)));
    assert!(!attempt_succeeded(&AttemptOutcome::Response(300)));
    assert!(!attempt_succeeded(&AttemptOutcome::Response(404)));
    assert!(!attempt_succeeded(&AttemptOutcome::Response(503)));
    assert!(!attempt_succeeded(&AttemptOutcome::TransportFailure));
}

#[test]
fn fetch_steps_deliver_retry_give_up() {
    assert_eq!(next_fetch_step(&AttemptOutcome::Response(200), 0, 5), FetchStep::Deliver);
    assert_eq!(next_fetch_step(&AttemptOutcome::Response(404), 0, 5), FetchStep::RetryAfterDelay);
    assert_eq!(next_fetch_step(&AttemptOutcome::TransportFailure, 3, 5), FetchStep::RetryAfterDelay);
    assert_eq!(
        next_fetch_step(&AttemptOutcome::Response(503), 4, 5),
        FetchStep::GiveUp(HarvestError::Transport)
    );
    assert_eq!(next_fetch_step(&AttemptOutcome::Response(204), 4, 5), FetchStep::Deliver);
}

// ---- schedule walker -------------------------------------------------------

#[test]
fn urls_are_built_exactly() {
    assert_eq!(
        schedule_url(147, 2021),
        "https://statsapi.mlb.com/api/v1/schedule?sportId=1&teamId=147&season=2021"
    );
    let end = Date { year: 2021, month: 5, day: 4 };
    assert_eq!(
        stats_url(147, &end),
        "https://statsapi.mlb.com/api/v1/teams/147/stats?season=2021&stats=byDateRange&group=hitting,pitching,fielding&startDate=2021-04-04&endDate=2021-05-04"
    );
}

#[test]
fn stats_url_window_crosses_year_boundary() {
    let end = Date { year: 2021, month: 1, day: 15 };
    assert_eq!(
        stats_url(110, &end),
        "https://statsapi.mlb.com/api/v1/teams/110/stats?season=2021&stats=byDateRange&group=hitting,pitching,fielding&startDate=2020-12-16&endDate=2021-01-15"
    );
}

#[test]
fn skip_rule_evaluates_positions_one_onward() {
    assert_eq!(plan_entries(0), Vec::<usize>::new());
    assert_eq!(plan_entries(1), Vec::<usize>::new());
    assert_eq!(plan_entries(3), vec![1, 2]);
    assert_eq!(plan_entries(6), vec![1, 2, 3, 4, 5]);
}

#[test]
fn schedule_without_dates_is_a_parse_error() {
    let no_dates = obj(vec![("totalGames", JsonVal::UInt(0))]);
    let r = schedule_dates(&no_dates);
    assert_eq!(r.unwrap_err(), HarvestError::ScheduleParse);
    let bad_dates = obj(vec![("dates", s("nope"))]);
    let r2 = schedule_dates(&bad_dates);
    assert_eq!(r2.unwrap_err(), HarvestError::ScheduleParse);
}

#[test]
fn valid_entry_yields_candidate() {
    let e = finished_entry("2021-05-04", 147, 108, 5, 3);
    let c = validate_entry(&e).unwrap();
    assert_eq!(
        c,
        GameCandidate {
            date: Date { year: 2021, month: 5, day: 4 },
            home_team_id: 147,
            away_team_id: 108,
            home_score: 5,
            away_score: 3,
        }
    );
}

#[test]
fn unfinished_entry_is_rejected() {
    let mut e = finished_entry("2021-05-04", 147, 108, 5, 3);
    if let JsonVal::Obj(pairs) = &mut e {
        if let JsonVal::Arr(games) = &mut pairs[0].1 {
            if let JsonVal::Obj(game) = &mut games[0] {
                game[0].1 = obj(vec![("statusCode", s("S"))]);
            }
        }
    }
    assert_eq!(validate_entry(&e).unwrap_err(), HarvestError::GameValidation);
}

#[test]
fn entry_without_home_score_is_rejected() {
    let e = obj(vec![(
        "games",
        JsonVal::Arr(vec![obj(vec![
            ("status", obj(vec![("statusCode", s("finished"))])),
            ("officialDate", s("2021-05-04")),
            (
                "teams",
                obj(vec![
                    ("home", obj(vec![("team", obj(vec![("id", JsonVal::UInt(147))]))])),
                    (
                        "away",
                        obj(vec![
                            ("team", obj(vec![("id", JsonVal::UInt(108))])),
                            ("score", JsonVal::UInt(3)),
                        ]),
                    ),
                ]),
            ),
        ])]),
    )]);
    assert_eq!(validate_entry(&e).unwrap_err(), HarvestError::GameValidation);
}

#[test]
fn entry_without_away_score_is_rejected() {
    let e = obj(vec![(
        "games",
        JsonVal::Arr(vec![obj(vec![
            ("status", obj(vec![("statusCode", s("finished"))])),
            ("officialDate", s("2021-05-04")),
            (
                "teams",
                obj(vec![
                    (
                        "home",
                        obj(vec![
                            ("team", obj(vec![("id", JsonVal::UInt(147))])),
                            ("score", JsonVal::UInt(5)),
                        ]),
                    ),
                    ("away", obj(vec![("team", obj(vec![("id", JsonVal::UInt(108))]))])),
                ]),
            ),
        ])]),
    )]);
    assert_eq!(validate_entry(&e).unwrap_err(), HarvestError::GameValidation);
}

#[test]
fn entry_with_malformed_date_is_rejected() {
    let e = finished_entry("05/04/2021", 147, 108, 5, 3);
    assert_eq!(validate_entry(&e).unwrap_err(), HarvestError::GameValidation);
}

// ---- team snapshots --------------------------------------------------------

#[test]
fn snapshot_from_full_response() {
    let t = team_from_stats_response(147, &stats_response()).unwrap();
    assert_eq!(t.team_id, 147);
    assert_eq!(t.batting_stats.fields.len(), 31);
    assert_eq!(t.pitching_stats.fields.len(), 49);
    assert_eq!(t.fielding_stats.fields.len(), 14);
    assert_eq!(record_value(&t.batting_stats, "avg"), Some(FieldValue::Rate("0.250".to_string())));
}

#[test]
fn snapshot_with_missing_group_fails() {
    let v = obj(vec![(
        "stats",
        JsonVal::Arr(vec![group(rates_obj(&HITTING_RATES)), group(rates_obj(&PITCHING_RATES))]),
    )]);
    assert_eq!(team_from_stats_response(147, &v).unwrap_err(), HarvestError::Normalization);
}

#[test]
fn snapshot_with_failing_group_fails_whole() {
    let mut bad_fielding = rates_obj(&FIELDING_RATES);
    if let JsonVal::Obj(pairs) = &mut bad_fielding {
        for p in pairs.iter_mut() {
            if p.0 == "fielding" {
                p.1 = s("-.--");
            }
        }
    }
    let v = obj(vec![(
        "stats",
        JsonVal::Arr(vec![
            group(rates_obj(&HITTING_RATES)),
            group(rates_obj(&PITCHING_RATES)),
            group(bad_fielding),
        ]),
    )]);
    assert_eq!(team_from_stats_response(147, &v).unwrap_err(), HarvestError::Normalization);
}

// ---- checkpoint store ------------------------------------------------------

#[test]
fn fresh_season_reads_full_universe() {
    let st = CheckpointState::new();
    let pending = st.pending_teams(2021);
    assert_eq!(pending, team_universe());
    assert_eq!(pending.len(), 30);
}

#[test]
fn mark_done_removes_team_and_keeps_rest() {
    let st = CheckpointState::new();
    let st = st.mark_done(2021, 147);
    let pending = st.pending_teams(2021);
    assert_eq!(pending.len(), 29);
    assert!(!pending.contains(&147));
    for t in &pending {
        assert!(team_universe().contains(t));
    }
    // the untouched season still reads the full universe
    assert_eq!(st.pending_teams(2020).len(), 30);
}

#[test]
fn mark_done_never_regains_a_team() {
    let st = CheckpointState::new();
    let st = st.mark_done(2021, 147);
    let st = st.mark_done(2021, 108);
    let st = st.mark_done(2021, 147);
    let pending = st.pending_teams(2021);
    assert_eq!(pending.len(), 28);
    assert!(!pending.contains(&147));
    assert!(!pending.contains(&108));
}

#[test]
fn checkpoint_document_round_trip() {
    let st = CheckpointState::new().mark_done(2021, 147).mark_done(2020, 108);
    let doc = st.to_document();
    let st2 = CheckpointState::from_document(&doc).unwrap();
    assert_eq!(st2.pending_teams(2021), st.pending_teams(2021));
    assert_eq!(st2.pending_teams(2020), st.pending_teams(2020));
    assert_eq!(st2.pending_teams(2019), st.pending_teams(2019));
}

#[test]
fn unreadable_checkpoint_documents_are_rejected() {
    let bad_key = obj(vec![("season", JsonVal::Arr(vec![JsonVal::UInt(108)]))]);
    assert!(CheckpointState::from_document(&bad_key).is_none());
    let huge_key = obj(vec![("70000", JsonVal::Arr(vec![JsonVal::UInt(108)]))]);
    assert!(CheckpointState::from_document(&huge_key).is_none());
    let bad_member = obj(vec![("2021", s("nope"))]);
    assert!(CheckpointState::from_document(&bad_member).is_none());
    let bad_team = obj(vec![("2021", JsonVal::Arr(vec![s("x")]))]);
    assert!(CheckpointState::from_document(&bad_team).is_none());
    assert!(CheckpointState::from_document(&s("not an object")).is_none());
}

#[test]
fn mark_done_on_unknown_team_keeps_set() {
    let st = CheckpointState::new();
    let st = st.mark_done(2021, 7);
    assert_eq!(st.pending_teams(2021).len(), 30);
}

// ---- harvest ---------------------------------------------------------------

#[test]
fn should_mark_done_policy() {
    assert!(should_mark_done(true, FetchFailurePolicy::KeepPending));
    assert!(should_mark_done(true, FetchFailurePolicy::MarkDone));
    assert!(!should_mark_done(false, FetchFailurePolicy::KeepPending));
    assert!(should_mark_done(false, FetchFailurePolicy::MarkDone));
}

#[test]
fn game_from_parts_happy_path() {
    let e = finished_entry("2021-05-04", 147, 108, 5, 3);
    let c = validate_entry(&e).unwrap();
    let g = game_from_parts(&c, &stats_response(), &stats_response()).unwrap();
    assert_eq!(g.setting.date, Date { year: 2021, month: 5, day: 4 });
    assert_eq!(g.home_team.team_id, 147);
    assert_eq!(g.away_team.team_id, 108);
    assert_eq!(g.result.home_team_score, 5);
    assert_eq!(g.result.away_team_score, 3);
}

#[test]
fn game_from_parts_drops_game_on_bad_snapshot() {
    let e = finished_entry("2021-05-04", 147, 108, 5, 3);
    let c = validate_entry(&e).unwrap();
    let bad = obj(vec![("stats", JsonVal::Arr(vec![]))]);
    assert_eq!(
        game_from_parts(&c, &stats_response(), &bad).unwrap_err(),
        HarvestError::Normalization
    );
}

#[test]
fn idempotent_runs_build_identical_output() {
    let e = finished_entry("2021-05-04", 147, 108, 5, 3);
    let c1 = validate_entry(&e).unwrap();
    let c2 = validate_entry(&e).unwrap();
    assert_eq!(c1, c2);
    let g1 = game_from_parts(&c1, &stats_response(), &stats_response()).unwrap();
    let g2 = game_from_parts(&c2, &stats_response(), &stats_response()).unwrap();
    assert_eq!(g1.save_path(), g2.save_path());
    assert_eq!(g1.setting, g2.setting);
    assert_eq!(g1.result, g2.result);
    assert_eq!(g1.home_team.batting_stats, g2.home_team.batting_stats);
    assert_eq!(g1.home_team.pitching_stats, g2.home_team.pitching_stats);
    assert_eq!(g1.home_team.fielding_stats, g2.home_team.fielding_stats);
    assert_eq!(g1.away_team.batting_stats, g2.away_team.batting_stats);
}

// ---- end to end ------------------------------------------------------------

#[test]
fn end_to_end_one_finished_game() {
    // schedule: entry 0 is a sentinel, entry 1 a finished game, entry 2
    // an unfinished game
    let schedule = obj(vec![(
        "dates",
        JsonVal::Arr(vec![
            s("sentinel-of-the-upstream-format"),
            finished_entry("2021-05-04", 147, 108, 5, 3),
            {
                let mut e = finished_entry("2021-05-05", 147, 108, 2, 2);
                if let JsonVal::Obj(pairs) = &mut e {
                    if let JsonVal::Arr(games) = &mut pairs[0].1 {
                        if let JsonVal::Obj(game) = &mut games[0] {
                            game[0].1 = obj(vec![("statusCode", s("inProgress"))]);
                        }
                    }
                }
                e
            },
        ]),
    )]);

    let dates = schedule_dates(&schedule).unwrap();
    let plan = plan_entries(dates.len());
    assert_eq!(plan, vec![1, 2]);

    let mut saved: Vec<(String, Game)> = Vec::new();
    for i in plan {
        let c = match validate_entry(&dates[i]) {
            Ok(c) => c,
            Err(_) => continue,
        };
        let g = match game_from_parts(&c, &stats_response(), &stats_response()) {
            Ok(g) => g,
            Err(_) => continue,
        };
        let path = g.save_path();
        saved.push((path, g));
    }

    assert_eq!(saved.len(), 1);
    assert_eq!(saved[0].0, "data/2021/147/2021-05-04.json");

    let st = CheckpointState::new();
    let st = st.mark_done(2021, 147);
    assert!(!st.pending_teams(2021).contains(&147));
}
