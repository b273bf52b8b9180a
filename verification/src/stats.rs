//! The stat normalizer: arbitrary upstream JSON objects become fixed-shape
//! records, one value per named field of a schema.
//!
//! Fields come in two kinds, and the asymmetry is deliberate:
//! - *counting* fields are lenient: an absent or non-integer member reads
//!   as 0, never as an error;
//! - *rate* fields are strict: the member must be present, must be a JSON
//!   string, and that string must parse as a floating-point number. Upstream
//!   emits sentinel strings (such as "-.--") for statistically undefined
//!   rates on small samples, and those must fail the whole record.
//!
//! Each of the three schemas (hitting, pitching, fielding) is a declarative
//! table of `(field name, kind)` rows; the normalizer is one function over
//! any such table.

use vstd::prelude::*;
use crate::errors::HarvestError;
use crate::json::{spec_get, JsonVal};
use crate::rate::{rate_parses, rate_string_parses};

verus! {

/// The handling a schema prescribes for one field.
#[derive(Debug, Clone, Copy, PartialEq, Eq, Structural)]
pub enum FieldKind {
    /// Integer statistic; lenient, defaults to 0 when absent.
    Counting,
    /// String-encoded floating-point statistic; strict, must parse.
    Rate,
}

/// One named field of a stat schema.
#[derive(Debug)]
pub struct FieldSpec {
    pub name: String,
    pub kind: FieldKind,
}

/// A normalized field value: a counting total, or a validated rate string.
#[derive(Debug, PartialEq)]
pub enum FieldValue {
    Count(u64),
    Rate(String),
}

/// A normalized record: one `(name, value)` pair per schema field, in schema
/// order.
#[derive(Debug, PartialEq)]
pub struct StatRecord {
    pub fields: Vec<(String, FieldValue)>,
}

/// The mathematical shape of a schema: a row of `(field name, kind)` pairs.
pub open spec fn schema_of(t: Seq<FieldSpec>) -> Seq<(Seq<char>, FieldKind)> {
    t.map_values(|f: FieldSpec| (f.name@, f.kind))
}

/// What a counting field of `v` named `key` reads as: the member's value if
/// it is an unsigned integer, 0 otherwise.
pub open spec fn counting_of(v: JsonVal, key: Seq<char>) -> u64 {
    match spec_get(v, key) {
        Some(m) => match m {
            JsonVal::UInt(n) => n,
            _ => 0,
        },
        _ => 0,
    }
}

/// The raw string of a rate field of `v` named `key`, if the member is
/// present and is a string.
pub open spec fn rate_raw(v: JsonVal, key: Seq<char>) -> Option<Seq<char>> {
    match spec_get(v, key) {
        Some(m) => match m {
            JsonVal::Str(s) => Some(s@),
            _ => None,
        },
        _ => None,
    }
}

/// A rate field normalizes only if its member is a string that parses as a
/// number.
pub open spec fn rate_field_ok(v: JsonVal, key: Seq<char>) -> bool {
    match rate_raw(v, key) {
        Some(s) => rate_parses(s),
        None => false,
    }
}

/// Every rate field of the schema normalizes against `v`; counting fields
/// cannot fail.
pub open spec fn all_rates_ok(v: JsonVal, schema: Seq<(Seq<char>, FieldKind)>) -> bool {
    forall|j: int|
        0 <= j < schema.len() && schema[j].1 is Rate ==> rate_field_ok(v, #[trigger] schema[j].0)
}

/// One record field agrees with what the schema row reads out of `v`.
pub open spec fn field_matches(
    v: JsonVal,
    name: Seq<char>,
    kind: FieldKind,
    out: (String, FieldValue),
) -> bool {
    &&& out.0@ == name
    &&& match kind {
        FieldKind::Counting => out.1 matches FieldValue::Count(n) && n == counting_of(v, name),
        FieldKind::Rate => out.1 matches FieldValue::Rate(s) && Some(s@) == rate_raw(v, name)
            && rate_parses(s@),
    }
}

/// The whole record agrees with the schema against `v`.
pub open spec fn record_matches(
    v: JsonVal,
    schema: Seq<(Seq<char>, FieldKind)>,
    rec: StatRecord,
) -> bool {
    &&& rec.fields@.len() == schema.len()
    &&& forall|j: int|
        0 <= j < schema.len() ==> field_matches(v, schema[j].0, schema[j].1, #[trigger] rec.fields@[j])
}

/// Converts the JSON object `v` into the fixed shape given by `table`.
///
/// Succeeds if and only if every rate field of the schema is present in `v`
/// as a parsable string; counting fields read as their integer value or
/// default to 0 and never fail. No partial record is ever produced.
pub fn normalize(table: &Vec<FieldSpec>, v: &JsonVal) -> (r: Result<StatRecord, HarvestError>)
    ensures
        r is Ok <==> all_rates_ok(*v, schema_of(table@)),
        r matches Ok(rec) ==> record_matches(*v, schema_of(table@), rec),
        r matches Err(e) ==> e is Normalization,
{
    let ghost schema = schema_of(table@);
    let n = table.len();
    let mut out: Vec<(String, FieldValue)> = Vec::new();
    let mut i: usize = 0;
    while i < n
        invariant
            i <= n,
            n == table@.len(),
            schema == schema_of(table@),
            out@.len() == i,
            forall|j: int|
                0 <= j < i ==> field_matches(*v, schema[j].0, schema[j].1, #[trigger] out@[j]),
        decreases n - i,
    {
        let f = &table[i];
        proof {
            assert(schema[i as int] == (f.name@, f.kind));
        }
        let name = f.name.clone();
        match f.kind {
            FieldKind::Counting => {
                let val: u64 = match v.get(f.name.as_str()) {
                    Some(m) => match m.as_u64() {
                        Some(x) => x,
                        None => 0,
                    },
                    None => 0,
                };
                out.push((name, FieldValue::Count(val)));
            },
            FieldKind::Rate => {
                match v.get(f.name.as_str()) {
                    Some(m) => match m.as_str() {
                        Some(s) => {
                            if rate_string_parses(s) {
                                let owned = s.to_owned();
                                out.push((name, FieldValue::Rate(owned)));
                            } else {
                                proof {
                                    assert(!rate_field_ok(*v, schema[i as int].0));
                                    assert(!all_rates_ok(*v, schema));
                                }
                                return Err(HarvestError::Normalization);
                            }
                        },
                        None => {
                            proof {
                                assert(!rate_field_ok(*v, schema[i as int].0));
                                assert(!all_rates_ok(*v, schema));
                            }
                            return Err(HarvestError::Normalization);
                        },
                    },
                    None => {
                        proof {
                            assert(!rate_field_ok(*v, schema[i as int].0));
                            assert(!all_rates_ok(*v, schema));
                        }
                        return Err(HarvestError::Normalization);
                    },
                }
            },
        }
        i = i + 1;
    }
    proof {
        assert forall|j: int|
            0 <= j < schema.len() && schema[j].1 is Rate implies rate_field_ok(
            *v,
            #[trigger] schema[j].0,
        ) by {
            assert(field_matches(*v, schema[j].0, schema[j].1, out@[j]));
        };
    }
    Ok(StatRecord { fields: out })
}

/// Appends one row to a schema table under construction.
fn push_field(t: &mut Vec<FieldSpec>, name: &str, kind: FieldKind)
    ensures
        final(t)@.len() == old(t)@.len() + 1,
        forall|j: int| 0 <= j < old(t)@.len() ==> final(t)@[j] == old(t)@[j],
        final(t)@[old(t)@.len() as int].name@ == name@,
        final(t)@[old(t)@.len() as int].kind == kind,
{
    let owned = name.to_owned();
    t.push(FieldSpec { name: owned, kind });
}

/// The fixed field-name contract of the hitting schema.
pub open spec fn hitting_schema() -> Seq<(Seq<char>, FieldKind)> {
    seq![
        ("gamesPlayed"@, FieldKind::Counting),
        ("groundOuts"@, FieldKind::Counting),
        ("airOuts"@, FieldKind::Counting),
        ("runs"@, FieldKind::Counting),
        ("doubles"@, FieldKind::Counting),
        ("triples"@, FieldKind::Counting),
        ("homeRuns"@, FieldKind::Counting),
        ("strikeOuts"@, FieldKind::Counting),
        ("baseOnBalls"@, FieldKind::Counting),
        ("intentionalWalks"@, FieldKind::Counting),
        ("hits"@, FieldKind::Counting),
        ("hitByPitch"@, FieldKind::Counting),
        ("avg"@, FieldKind::Rate),
        ("atBats"@, FieldKind::Counting),
        ("obp"@, FieldKind::Rate),
        ("slg"@, FieldKind::Rate),
        ("ops"@, FieldKind::Rate),
        ("caughtStealing"@, FieldKind::Counting),
        ("stolenBases"@, FieldKind::Counting),
        ("stolenBasePercentage"@, FieldKind::Rate),
        ("groundIntoDoublePlay"@, FieldKind::Counting),
        ("numberOfPitches"@, FieldKind::Counting),
        ("plateAppearances"@, FieldKind::Counting),
        ("totalBases"@, FieldKind::Counting),
        ("rbi"@, FieldKind::Counting),
        ("leftOnBase"@, FieldKind::Counting),
        ("sacBunts"@, FieldKind::Counting),
        ("sacFlies"@, FieldKind::Counting),
        ("babip"@, FieldKind::Rate),
        ("groundOutsToAirouts"@, FieldKind::Rate),
        ("atBatsPerHomeRun"@, FieldKind::Rate),
    ]
}

/// The declarative field table of the hitting schema.
#[verifier::rlimit(50)]
pub fn hitting_fields() -> (r: Vec<FieldSpec>)
    ensures
        schema_of(r@) == hitting_schema(),
{
    let mut t: Vec<FieldSpec> = Vec::new();
    push_field(&mut t, "gamesPlayed", FieldKind::Counting);
    push_field(&mut t, "groundOuts", FieldKind::Counting);
    push_field(&mut t, "airOuts", FieldKind::Counting);
    push_field(&mut t, "runs", FieldKind::Counting);
    push_field(&mut t, "doubles", FieldKind::Counting);
    push_field(&mut t, "triples", FieldKind::Counting);
    push_field(&mut t, "homeRuns", FieldKind::Counting);
    push_field(&mut t, "strikeOuts", FieldKind::Counting);
    push_field(&mut t, "baseOnBalls", FieldKind::Counting);
    push_field(&mut t, "intentionalWalks", FieldKind::Counting);
    push_field(&mut t, "hits", FieldKind::Counting);
    push_field(&mut t, "hitByPitch", FieldKind::Counting);
    push_field(&mut t, "avg", FieldKind::Rate);
    push_field(&mut t, "atBats", FieldKind::Counting);
    push_field(&mut t, "obp", FieldKind::Rate);
    push_field(&mut t, "slg", FieldKind::Rate);
    push_field(&mut t, "ops", FieldKind::Rate);
    push_field(&mut t, "caughtStealing", FieldKind::Counting);
    push_field(&mut t, "stolenBases", FieldKind::Counting);
    push_field(&mut t, "stolenBasePercentage", FieldKind::Rate);
    push_field(&mut t, "groundIntoDoublePlay", FieldKind::Counting);
    push_field(&mut t, "numberOfPitches", FieldKind::Counting);
    push_field(&mut t, "plateAppearances", FieldKind::Counting);
    push_field(&mut t, "totalBases", FieldKind::Counting);
    push_field(&mut t, "rbi", FieldKind::Counting);
    push_field(&mut t, "leftOnBase", FieldKind::Counting);
    push_field(&mut t, "sacBunts", FieldKind::Counting);
    push_field(&mut t, "sacFlies", FieldKind::Counting);
    push_field(&mut t, "babip", FieldKind::Rate);
    push_field(&mut t, "groundOutsToAirouts", FieldKind::Rate);
    push_field(&mut t, "atBatsPerHomeRun", FieldKind::Rate);
    proof {
        assert(schema_of(t@) =~= hitting_schema());
    }
    t
}

/// The fixed field-name contract of the pitching schema.
pub open spec fn pitching_schema() -> Seq<(Seq<char>, FieldKind)> {
    seq![
        ("gamesPlayed"@, FieldKind::Counting),
        ("gamesStarted"@, FieldKind::Counting),
        ("groundOuts"@, FieldKind::Counting),
        ("airOuts"@, FieldKind::Counting),
        ("runs"@, FieldKind::Counting),
        ("doubles"@, FieldKind::Counting),
        ("triples"@, FieldKind::Counting),
        ("homeRuns"@, FieldKind::Counting),
        ("strikeOuts"@, FieldKind::Counting),
        ("baseOnBalls"@, FieldKind::Counting),
        ("intentionalWalks"@, FieldKind::Counting),
        ("hits"@, FieldKind::Counting),
        ("hitByPitch"@, FieldKind::Counting),
        ("avg"@, FieldKind::Rate),
        ("atBats"@, FieldKind::Counting),
        ("era"@, FieldKind::Rate),
        ("inningsPitched"@, FieldKind::Rate),
        ("wins"@, FieldKind::Counting),
        ("losses"@, FieldKind::Counting),
        ("ties"@, FieldKind::Counting),
        ("saves"@, FieldKind::Counting),
        ("saveOpportunities"@, FieldKind::Counting),
        ("holds"@, FieldKind::Counting),
        ("blownSaves"@, FieldKind::Counting),
        ("earnedRuns"@, FieldKind::Counting),
        ("whip"@, FieldKind::Rate),
        ("battersFaced"@, FieldKind::Counting),
        ("outs"@, FieldKind::Counting),
        ("gamesPitched"@, FieldKind::Counting),
        ("completeGames"@, FieldKind::Counting),
        ("shutouts"@, FieldKind::Counting),
        ("strikes"@, FieldKind::Counting),
        ("strikePercentage"@, FieldKind::Rate),
        ("hitBatsmen"@, FieldKind::Counting),
        ("balks"@, FieldKind::Counting),
        ("wildPitches"@, FieldKind::Counting),
        ("pickoffs"@, FieldKind::Counting),
        ("groundOutsToAirouts"@, FieldKind::Rate),
        ("winPercentage"@, FieldKind::Rate),
        ("pitchesPerInning"@, FieldKind::Rate),
        ("gamesFinished"@, FieldKind::Counting),
        ("strikeoutWalkRatio"@, FieldKind::Rate),
        ("strikeoutsPer9Inn"@, FieldKind::Rate),
        ("walksPer9Inn"@, FieldKind::Rate),
        ("hitsPer9Inn"@, FieldKind::Rate),
        ("runsScoredPer9"@, FieldKind::Rate),
        ("homeRunsPer9"@, FieldKind::Rate),
        ("sacBunts"@, FieldKind::Counting),
        ("sacFlies"@, FieldKind::Counting),
    ]
}

/// The declarative field table of the pitching schema.
#[verifier::rlimit(80)]
pub fn pitching_fields() -> (r: Vec<FieldSpec>)
    ensures
        schema_of(r@) == pitching_schema(),
{
    let mut t: Vec<FieldSpec> = Vec::new();
    push_field(&mut t, "gamesPlayed", FieldKind::Counting);
    push_field(&mut t, "gamesStarted", FieldKind::Counting);
    push_field(&mut t, "groundOuts", FieldKind::Counting);
    push_field(&mut t, "airOuts", FieldKind::Counting);
    push_field(&mut t, "runs", FieldKind::Counting);
    push_field(&mut t, "doubles", FieldKind::Counting);
    push_field(&mut t, "triples", FieldKind::Counting);
    push_field(&mut t, "homeRuns", FieldKind::Counting);
    push_field(&mut t, "strikeOuts", FieldKind::Counting);
    push_field(&mut t, "baseOnBalls", FieldKind::Counting);
    push_field(&mut t, "intentionalWalks", FieldKind::Counting);
    push_field(&mut t, "hits", FieldKind::Counting);
    push_field(&mut t, "hitByPitch", FieldKind::Counting);
    push_field(&mut t, "avg", FieldKind::Rate);
    push_field(&mut t, "atBats", FieldKind::Counting);
    push_field(&mut t, "era", FieldKind::Rate);
    push_field(&mut t, "inningsPitched", FieldKind::Rate);
    push_field(&mut t, "wins", FieldKind::Counting);
    push_field(&mut t, "losses", FieldKind::Counting);
    push_field(&mut t, "ties", FieldKind::Counting);
    push_field(&mut t, "saves", FieldKind::Counting);
    push_field(&mut t, "saveOpportunities", FieldKind::Counting);
    push_field(&mut t, "holds", FieldKind::Counting);
    push_field(&mut t, "blownSaves", FieldKind::Counting);
    push_field(&mut t, "earnedRuns", FieldKind::Counting);
    push_field(&mut t, "whip", FieldKind::Rate);
    push_field(&mut t, "battersFaced", FieldKind::Counting);
    push_field(&mut t, "outs", FieldKind::Counting);
    push_field(&mut t, "gamesPitched", FieldKind::Counting);
    push_field(&mut t, "completeGames", FieldKind::Counting);
    push_field(&mut t, "shutouts", FieldKind::Counting);
    push_field(&mut t, "strikes", FieldKind::Counting);
    push_field(&mut t, "strikePercentage", FieldKind::Rate);
    push_field(&mut t, "hitBatsmen", FieldKind::Counting);
    push_field(&mut t, "balks", FieldKind::Counting);
    push_field(&mut t, "wildPitches", FieldKind::Counting);
    push_field(&mut t, "pickoffs", FieldKind::Counting);
    push_field(&mut t, "groundOutsToAirouts", FieldKind::Rate);
    push_field(&mut t, "winPercentage", FieldKind::Rate);
    push_field(&mut t, "pitchesPerInning", FieldKind::Rate);
    push_field(&mut t, "gamesFinished", FieldKind::Counting);
    push_field(&mut t, "strikeoutWalkRatio", FieldKind::Rate);
    push_field(&mut t, "strikeoutsPer9Inn", FieldKind::Rate);
    push_field(&mut t, "walksPer9Inn", FieldKind::Rate);
    push_field(&mut t, "hitsPer9Inn", FieldKind::Rate);
    push_field(&mut t, "runsScoredPer9", FieldKind::Rate);
    push_field(&mut t, "homeRunsPer9", FieldKind::Rate);
    push_field(&mut t, "sacBunts", FieldKind::Counting);
    push_field(&mut t, "sacFlies", FieldKind::Counting);
    proof {
        assert(schema_of(t@) =~= pitching_schema());
    }
    t
}

/// The fixed field-name contract of the fielding schema.
pub open spec fn fielding_schema() -> Seq<(Seq<char>, FieldKind)> {
    seq![
        ("gamesPlayed"@, FieldKind::Counting),
        ("gamesStarted"@, FieldKind::Counting),
        ("assists"@, FieldKind::Counting),
        ("putOuts"@, FieldKind::Counting),
        ("errors"@, FieldKind::Counting),
        ("chances"@, FieldKind::Counting),
        ("fielding"@, FieldKind::Rate),
        ("rangeFactorPerGame"@, FieldKind::Rate),
        ("rangeFactorPer9Inn"@, FieldKind::Rate),
        ("innings"@, FieldKind::Rate),
        ("games"@, FieldKind::Counting),
        ("doublePlays"@, FieldKind::Counting),
        ("triplePlays"@, FieldKind::Counting),
        ("throwingErrors"@, FieldKind::Counting),
    ]
}

/// The declarative field table of the fielding schema.
#[verifier::rlimit(50)]
pub fn fielding_fields() -> (r: Vec<FieldSpec>)
    ensures
        schema_of(r@) == fielding_schema(),
{
    let mut t: Vec<FieldSpec> = Vec::new();
    push_field(&mut t, "gamesPlayed", FieldKind::Counting);
    push_field(&mut t, "gamesStarted", FieldKind::Counting);
    push_field(&mut t, "assists", FieldKind::Counting);
    push_field(&mut t, "putOuts", FieldKind::Counting);
    push_field(&mut t, "errors", FieldKind::Counting);
    push_field(&mut t, "chances", FieldKind::Counting);
    push_field(&mut t, "fielding", FieldKind::Rate);
    push_field(&mut t, "rangeFactorPerGame", FieldKind::Rate);
    push_field(&mut t, "rangeFactorPer9Inn", FieldKind::Rate);
    push_field(&mut t, "innings", FieldKind::Rate);
    push_field(&mut t, "games", FieldKind::Counting);
    push_field(&mut t, "doublePlays", FieldKind::Counting);
    push_field(&mut t, "triplePlays", FieldKind::Counting);
    push_field(&mut t, "throwingErrors", FieldKind::Counting);
    proof {
        assert(schema_of(t@) =~= fielding_schema());
    }
    t
}

} // verus!
