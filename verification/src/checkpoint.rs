//! The checkpointed work queue: season by season, which teams still await
//! harvesting.
//!
//! The state maps a season to its pending team list. A season that was never
//! touched reads as the full fixed 30-team universe without being stored;
//! marking a team done stores the season (seeded with the universe) and
//! removes the team. Once removed, a team is never re-added: a season's
//! pending set only shrinks over the life of the state.

use vstd::prelude::*;
use crate::json::JsonVal;
use crate::text::{all_digits, dec_digits, digits_val, lemma_digits_val_of_dec, parse_u64_dec, u64_to_dec};

verus! {

/// The fixed universe of 30 team identifiers.
pub open spec fn team_universe_seq() -> Seq<u8> {
    seq![
        108u8,
        109u8,
        110u8,
        111u8,
        112u8,
        113u8,
        114u8,
        115u8,
        116u8,
        117u8,
        118u8,
        119u8,
        120u8,
        121u8,
        133u8,
        134u8,
        135u8,
        136u8,
        137u8,
        138u8,
        139u8,
        140u8,
        141u8,
        142u8,
        143u8,
        144u8,
        145u8,
        146u8,
        147u8,
        158u8,
    ]
}

/// The fixed universe of 30 team identifiers, as a vector.
pub fn team_universe() -> (r: Vec<u8>)
    ensures
        r@ == team_universe_seq(),
{
    let mut t: Vec<u8> = Vec::new();
    t.push(108);
    t.push(109);
    t.push(110);
    t.push(111);
    t.push(112);
    t.push(113);
    t.push(114);
    t.push(115);
    t.push(116);
    t.push(117);
    t.push(118);
    t.push(119);
    t.push(120);
    t.push(121);
    t.push(133);
    t.push(134);
    t.push(135);
    t.push(136);
    t.push(137);
    t.push(138);
    t.push(139);
    t.push(140);
    t.push(141);
    t.push(142);
    t.push(143);
    t.push(144);
    t.push(145);
    t.push(146);
    t.push(147);
    t.push(158);
    proof {
        assert(t@ =~= team_universe_seq());
    }
    t
}

/// The team list with every occurrence of `team` removed, order otherwise
/// kept.
pub open spec fn remove_team(s: Seq<u8>, team: u8) -> Seq<u8>
    decreases s.len(),
{
    if s.len() == 0 {
        Seq::empty()
    } else if s.first() == team {
        remove_team(s.drop_first(), team)
    } else {
        seq![s.first()] + remove_team(s.drop_first(), team)
    }
}

/// Removal removes the team for good and introduces no other team.
pub proof fn lemma_remove_team(s: Seq<u8>, team: u8)
    ensures
        !remove_team(s, team).contains(team),
        forall|t: u8| remove_team(s, team).contains(t) ==> s.contains(t),
        forall|t: u8| t != team && s.contains(t) ==> remove_team(s, team).contains(t),
    decreases s.len(),
{
    if s.len() > 0 {
        lemma_remove_team(s.drop_first(), team);
        let rest = remove_team(s.drop_first(), team);
        assert forall|t: u8| remove_team(s, team).contains(t) implies s.contains(t) by {
            if s.first() != team && remove_team(s, team).contains(t) {
                let r = seq![s.first()] + rest;
                let k = choose|k: int| 0 <= k < r.len() && r[k] == t;
                if k == 0 {
                    assert(s[0] == t);
                } else {
                    assert(rest.contains(t));
                    assert(s.drop_first().contains(t));
                    let k2 = choose|k2: int|
                        0 <= k2 < s.drop_first().len() && s.drop_first()[k2] == t;
                    assert(s[k2 + 1] == t);
                }
            } else if s.first() == team {
                assert(s.drop_first().contains(t));
                let k2 = choose|k2: int| 0 <= k2 < s.drop_first().len() && s.drop_first()[k2] == t;
                assert(s[k2 + 1] == t);
            }
        };
        assert forall|t: u8| t != team && s.contains(t) implies remove_team(s, team).contains(
            t,
        ) by {
            let k = choose|k: int| 0 <= k < s.len() && s[k] == t;
            if k == 0 {
                assert(remove_team(s, team)[0] == t);
            } else {
                assert(s.drop_first()[k - 1] == t);
                assert(s.drop_first().contains(t));
                assert(rest.contains(t));
                let k2 = choose|k2: int| 0 <= k2 < rest.len() && rest[k2] == t;
                if s.first() == team {
                    assert(remove_team(s, team)[k2] == t);
                } else {
                    assert(remove_team(s, team)[k2 + 1] == t);
                }
            }
        };
        if s.first() != team {
            assert forall|k: int|
                0 <= k < remove_team(s, team).len() implies remove_team(s, team)[k]
                != team by {
                if k > 0 {
                    assert(rest[k - 1] == remove_team(s, team)[k]);
                    assert(rest.contains(rest[k - 1]));
                }
            };
        }
    }
}

/// Removes every occurrence of `team` from a team list.
pub fn filter_team(l: &Vec<u8>, team: u8) -> (r: Vec<u8>)
    ensures
        r@ == remove_team(l@, team),
{
    let n = l.len();
    let mut out: Vec<u8> = Vec::new();
    proof {
        assert(l@.skip(0) =~= l@);
    }
    let mut i: usize = 0;
    while i < n
        invariant
            i <= n,
            n == l@.len(),
            out@ + remove_team(l@.skip(i as int), team) == remove_team(l@, team),
        decreases n - i,
    {
        proof {
            assert(l@.skip(i as int).len() > 0);
            assert(l@.skip(i as int).first() == l@[i as int]);
            assert(l@.skip(i as int).drop_first() =~= l@.skip(i as int + 1));
        }
        let x = l[i];
        if x != team {
            out.push(x);
            proof {
                assert(out@ + remove_team(l@.skip(i as int + 1), team) =~= (out@.drop_last()
                    + (seq![x] + remove_team(l@.skip(i as int + 1), team))));
            }
        }
        i = i + 1;
    }
    proof {
        assert(l@.skip(n as int).len() == 0);
        assert(out@ =~= out@ + remove_team(l@.skip(n as int), team));
    }
    out
}

/// Persisted checkpoint state: each stored season with its pending teams.
#[derive(Debug)]
pub struct CheckpointState {
    pub seasons: Vec<(u16, Vec<u8>)>,
}

/// The stored pending list of `season`, if the season was ever stored.
pub open spec fn season_entry(seasons: Seq<(u16, Vec<u8>)>, season: u16) -> Option<Seq<u8>>
    decreases seasons.len(),
{
    if seasons.len() == 0 {
        None
    } else if seasons[0].0 == season {
        Some(seasons[0].1@)
    } else {
        season_entry(seasons.drop_first(), season)
    }
}

/// What `pendingTeams` reads for a season: the stored list, or the full
/// universe for a season never stored.
pub open spec fn spec_pending(st: CheckpointState, season: u16) -> Seq<u8> {
    match season_entry(st.seasons@, season) {
        Some(l) => l,
        None => team_universe_seq(),
    }
}

/// Every stored pending list only holds teams of the fixed universe.
pub open spec fn checkpoint_wf(st: CheckpointState) -> bool {
    forall|i: int|
        0 <= i < st.seasons@.len() ==> (forall|t: u8|
            (#[trigger] st.seasons@[i].1)@.contains(t) ==> team_universe_seq().contains(t))
}

impl CheckpointState {
    /// A fresh state with no season stored.
    pub fn new() -> (r: CheckpointState)
        ensures
            r.seasons@.len() == 0,
            checkpoint_wf(r),
    {
        CheckpointState { seasons: Vec::new() }
    }

    /// The pending teams of a season: its stored list, or the full universe
    /// if the season was never stored. Reading does not store anything.
    pub fn pending_teams(&self, season: u16) -> (r: Vec<u8>)
        ensures
            r@ == spec_pending(*self, season),
    {
        let n = self.seasons.len();
        proof {
            assert(self.seasons@.skip(0) =~= self.seasons@);
        }
        let mut i: usize = 0;
        while i < n
            invariant
                i <= n,
                n == self.seasons@.len(),
                season_entry(self.seasons@, season) == season_entry(
                    self.seasons@.skip(i as int),
                    season,
                ),
            decreases n - i,
        {
            proof {
                assert(self.seasons@.skip(i as int).len() > 0);
                assert(self.seasons@.skip(i as int)[0] == self.seasons@[i as int]);
                assert(self.seasons@.skip(i as int).drop_first() =~= self.seasons@.skip(
                    i as int + 1,
                ));
            }
            if self.seasons[i].0 == season {
                return copy_teams(&self.seasons[i].1);
            }
            i = i + 1;
        }
        proof {
            assert(self.seasons@.skip(n as int).len() == 0);
        }
        team_universe()
    }

    /// Removes `team` from the season's pending set, seeding the season with
    /// the full universe first if it was never stored. Other seasons are
    /// untouched; the removed team never reappears.
    pub fn mark_done(self, season: u16, team: u8) -> (r: CheckpointState)
        ensures
            spec_pending(r, season) == remove_team(spec_pending(self, season), team),
            forall|s2: u16| s2 != season ==> spec_pending(r, s2) == spec_pending(self, s2),
            checkpoint_wf(self) ==> checkpoint_wf(r),
    {
        let ghost old_st = self;
        let rest = self.seasons;
        let n = rest.len();
        let mut out: Vec<(u16, Vec<u8>)> = Vec::new();
        let mut found = false;
        let mut i: usize = 0;
        while i < n
            invariant
                i <= n,
                n == old_st.seasons@.len(),
                rest@ == old_st.seasons@,
                out@.len() == i,
                forall|j: int|
                    0 <= j < i ==> (#[trigger] out@[j]).0 == old_st.seasons@[j].0,
                forall|j: int|
                    0 <= j < i ==> (#[trigger] out@[j]).1@ == (if old_st.seasons@[j].0 == season
                        && !season_found_before(old_st.seasons@, season, j) {
                        remove_team(old_st.seasons@[j].1@, team)
                    } else {
                        old_st.seasons@[j].1@
                    }),
                found == season_found_before(old_st.seasons@, season, i as int),
            decreases n - i,
        {
            let s = rest[i].0;
            if s == season && !found {
                let filtered = filter_team(&rest[i].1, team);
                out.push((s, filtered));
                found = true;
            } else {
                let copied = copy_teams(&rest[i].1);
                out.push((s, copied));
            }
            i = i + 1;
        }
        if !found {
            let universe = team_universe();
            let filtered = filter_team(&universe, team);
            out.push((season, filtered));
        }
        let r = CheckpointState { seasons: out };
        proof {
            lemma_mark_done_entry(old_st.seasons@, r.seasons@, season, team, season);
            assert forall|s2: u16| s2 != season implies spec_pending(r, s2) == spec_pending(
                old_st,
                s2,
            ) by {
                lemma_mark_done_entry(old_st.seasons@, r.seasons@, season, team, s2);
            };
            if checkpoint_wf(old_st) {
                assert forall|j: int, t: u8|
                    0 <= j < r.seasons@.len() && #[trigger] (r.seasons@[j].1)@.contains(t)
                    implies team_universe_seq().contains(t) by {
                    if j < old_st.seasons@.len() {
                        lemma_remove_team(old_st.seasons@[j].1@, team);
                    } else {
                        lemma_remove_team(team_universe_seq(), team);
                    }
                };
            }
        }
        r
    }
}

impl CheckpointState {
    /// Renders the state as the persisted document: season keys in decimal,
    /// pending teams as integer arrays, serialization staying at this
    /// load/save boundary.
    pub fn to_document(&self) -> (r: JsonVal)
        ensures
            doc_matches(*self, r),
    {
        let n = self.seasons.len();
        let mut pairs: Vec<(String, JsonVal)> = Vec::new();
        let mut i: usize = 0;
        while i < n
            invariant
                i <= n,
                n == self.seasons@.len(),
                pairs@.len() == i,
                forall|k: int|
                    0 <= k < i ==> pair_matches_doc(self.seasons@[k], #[trigger] pairs@[k]),
            decreases n - i,
        {
            let key = u64_to_dec(self.seasons[i].0 as u64);
            let teams = &self.seasons[i].1;
            let m = teams.len();
            let mut elems: Vec<JsonVal> = Vec::new();
            let mut j: usize = 0;
            while j < m
                invariant
                    j <= m,
                    m == teams@.len(),
                    elems@.len() == j,
                    forall|k: int|
                        0 <= k < j ==> #[trigger] elems@[k] == JsonVal::UInt(teams@[k] as u64),
                decreases m - j,
            {
                elems.push(JsonVal::UInt(teams[j] as u64));
                j = j + 1;
            }
            pairs.push((key, JsonVal::Arr(elems)));
            i = i + 1;
        }
        JsonVal::Obj(pairs)
    }

    /// Reads a state back from a persisted document. Succeeds exactly on a
    /// readable document: an object of decimal season keys, each with an
    /// array of integer team ids.
    pub fn from_document(doc: &JsonVal) -> (r: Option<CheckpointState>)
        ensures
            r is Some <==> doc_readable(*doc),
            r matches Some(st) ==> parsed_matches(*doc, st),
    {
        let pairs = match doc {
            JsonVal::Obj(pairs) => pairs,
            _ => {
                return None;
            },
        };
        let n = pairs.len();
        let mut seasons: Vec<(u16, Vec<u8>)> = Vec::new();
        let mut i: usize = 0;
        while i < n
            invariant
                i <= n,
                n == pairs@.len(),
                *doc == JsonVal::Obj(*pairs),
                seasons@.len() == i,
                forall|k: int| 0 <= k < i ==> pair_readable(#[trigger] pairs@[k]),
                forall|k: int|
                    0 <= k < i ==> pair_parsed(#[trigger] pairs@[k], seasons@[k]),
            decreases n - i,
        {
            let p = &pairs[i];
            let key_val = match parse_u64_dec(p.0.as_str()) {
                Some(v) => v,
                None => {
                    proof {
                        assert(!pair_readable(pairs@[i as int]));
                        assert(doc->Obj_0 == *pairs);
                        if doc_readable(*doc) {
                            assert(pair_readable((doc->Obj_0)@[i as int]));
                        }
                        assert(!doc_readable(*doc));
                    }
                    return None;
                },
            };
            if key_val > 65535 {
                proof {
                    assert(!pair_readable(pairs@[i as int]));
                        assert(doc->Obj_0 == *pairs);
                        if doc_readable(*doc) {
                            assert(pair_readable((doc->Obj_0)@[i as int]));
                        }
                        assert(!doc_readable(*doc));
                }
                return None;
            }
            let season: u16 = key_val as u16;
            let elems = match &p.1 {
                JsonVal::Arr(elems) => elems,
                _ => {
                    proof {
                        assert(!pair_readable(pairs@[i as int]));
                        assert(doc->Obj_0 == *pairs);
                        if doc_readable(*doc) {
                            assert(pair_readable((doc->Obj_0)@[i as int]));
                        }
                        assert(!doc_readable(*doc));
                    }
                    return None;
                },
            };
            let m = elems.len();
            let mut teams: Vec<u8> = Vec::new();
            let mut j: usize = 0;
            while j < m
                invariant
                    j <= m,
                    m == elems@.len(),
                    teams@.len() == j,
                    *doc == JsonVal::Obj(*pairs),
                    i < pairs@.len(),
                    p == &pairs@[i as int],
                    elems == (match p.1 {
                        JsonVal::Arr(ref e) => e,
                        _ => elems,
                    }),
                    p.1 is Arr,
                    forall|k: int| 0 <= k < j ==> (#[trigger] elems@[k]) is UInt,
                    forall|k: int|
                        0 <= k < j ==> ((#[trigger] elems@[k]) matches JsonVal::UInt(u)
                            && teams@[k] == (u % 256) as u8),
                decreases m - j,
            {
                let u = match &elems[j] {
                    JsonVal::UInt(u) => *u,
                    _ => {
                        proof {
                            assert(!(elems@[j as int] is UInt));
                            assert(!pair_readable(pairs@[i as int]));
                        assert(doc->Obj_0 == *pairs);
                        if doc_readable(*doc) {
                            assert(pair_readable((doc->Obj_0)@[i as int]));
                        }
                        assert(!doc_readable(*doc));
                        }
                        return None;
                    },
                };
                teams.push((u % 256) as u8);
                j = j + 1;
            }
            seasons.push((season, teams));
            i = i + 1;
        }
        Some(CheckpointState { seasons })
    }
}

/// Writing a state and reading it back is the identity: a state's document
/// is readable, and any state read from it stores the same seasons with
/// the same pending teams.
pub proof fn lemma_document_round_trip(st: CheckpointState, doc: JsonVal, st2: CheckpointState)
    requires
        doc_matches(st, doc),
        parsed_matches(doc, st2),
    ensures
        doc_readable(doc),
        st2.seasons@.len() == st.seasons@.len(),
        forall|i: int|
            0 <= i < st.seasons@.len() ==> (#[trigger] st2.seasons@[i]).0 == st.seasons@[i].0
                && st2.seasons@[i].1@ == st.seasons@[i].1@,
{
    let pairs = doc->Obj_0;
    assert forall|i: int| 0 <= i < pairs@.len() implies pair_readable(#[trigger] pairs@[i]) by {
        assert(pair_matches_doc(st.seasons@[i], pairs@[i]));
        lemma_digits_val_of_dec(st.seasons@[i].0 as nat);
        crate::text::lemma_dec_digits_len(st.seasons@[i].0 as nat);
    };
    assert forall|i: int|
        0 <= i < st.seasons@.len() implies (#[trigger] st2.seasons@[i]).0 == st.seasons@[i].0
        && st2.seasons@[i].1@ == st.seasons@[i].1@ by {
        assert(pair_matches_doc(st.seasons@[i], pairs@[i]));
        assert(pair_parsed(pairs@[i], st2.seasons@[i]));
        lemma_digits_val_of_dec(st.seasons@[i].0 as nat);
        assert forall|j: int|
            0 <= j < st.seasons@[i].1@.len() implies st2.seasons@[i].1@[j]
            == st.seasons@[i].1@[j] by {
            let elems = pairs@[i].1->Arr_0;
            assert(elems@[j] == JsonVal::UInt(st.seasons@[i].1@[j] as u64));
        };
        assert(st2.seasons@[i].1@ =~= st.seasons@[i].1@);
    };
}

/// Whether `season` occurs among the first `upto` stored seasons.
spec fn season_found_before(seasons: Seq<(u16, Vec<u8>)>, season: u16, upto: int) -> bool {
    exists|j: int| 0 <= j < upto && (#[trigger] seasons[j]).0 == season
}

/// Relates the rebuilt season list to the one it was built from, season by
/// season.
proof fn lemma_mark_done_entry(
    olds: Seq<(u16, Vec<u8>)>,
    news: Seq<(u16, Vec<u8>)>,
    season: u16,
    team: u8,
    q: u16,
)
    requires
        (news.len() == olds.len() && season_found_before(olds, season, olds.len() as int)) || (
        news.len() == olds.len() + 1 && !season_found_before(
            olds,
            season,
            olds.len() as int,
        ) && news[olds.len() as int].0 == season && news[olds.len() as int].1@ == remove_team(
            team_universe_seq(),
            team,
        )),
        forall|j: int| 0 <= j < olds.len() ==> (#[trigger] news[j]).0 == olds[j].0,
        forall|j: int|
            0 <= j < olds.len() ==> (#[trigger] news[j]).1@ == (if olds[j].0 == season
                && !season_found_before(olds, season, j) {
                remove_team(olds[j].1@, team)
            } else {
                olds[j].1@
            }),
    ensures
        q == season ==> (match season_entry(news, q) {
            Some(l) => match season_entry(olds, q) {
                Some(l0) => l == remove_team(l0, team),
                None => l == remove_team(team_universe_seq(), team),
            },
            None => false,
        }),
        q != season ==> season_entry(news, q) == season_entry(olds, q),
{
    lemma_season_entry_first(olds, q);
    lemma_season_entry_first(news, q);
    if exists|j: int| 0 <= j < olds.len() && (#[trigger] olds[j]).0 == q {
        let k = first_season_index(olds, q);
        lemma_first_index_props(olds, q);
        assert(news[k].0 == q);
        lemma_first_index_props(news, q);
        let k2 = first_season_index(news, q);
        if news.len() == olds.len() + 1 && k2 == olds.len() {
            assert(news[k].0 == q);
            assert(false);
        }
        assert(k2 <= k);
        assert(olds[k2].0 == news[k2].0);
        assert(k2 == k);
        assert(season_entry(news, q) == Some(news[k].1@));
        assert(season_entry(olds, q) == Some(olds[k].1@));
        if q == season {
            assert(!season_found_before(olds, season, k));
            assert(news[k].1@ == remove_team(olds[k].1@, team));
        } else {
            assert(olds[k].0 != season || q == season);
            if olds[k].0 == season && !season_found_before(olds, season, k) {
                assert(false);
            }
            assert(news[k].1@ == olds[k].1@);
        }
    } else {
        assert(season_entry(olds, q) is None);
        if q == season {
            assert(news.len() == olds.len() + 1);
            assert(news[olds.len() as int].0 == q);
            lemma_first_index_props(news, q);
            let k2 = first_season_index(news, q);
            assert(k2 == olds.len());
            assert(season_entry(news, q) == Some(news[k2].1@));
        } else {
            if exists|j: int| 0 <= j < news.len() && (#[trigger] news[j]).0 == q {
                let k2 = first_season_index(news, q);
                lemma_first_index_props(news, q);
                if k2 < olds.len() {
                    assert(olds[k2].0 == q);
                    assert(false);
                } else {
                    assert(news[k2].0 == season);
                    assert(false);
                }
            }
            lemma_season_entry_none(news, q);
            lemma_season_entry_none(olds, q);
        }
    }
}

/// The first index whose stored season is `q`.
spec fn first_season_index(seasons: Seq<(u16, Vec<u8>)>, q: u16) -> int {
    choose|k: int|
        0 <= k < seasons.len() && (#[trigger] seasons[k]).0 == q && !season_found_before(
            seasons,
            q,
            k,
        )
}

/// If `q` occurs at all, a first occurrence exists and `season_entry` reads
/// its list.
proof fn lemma_first_index_props(seasons: Seq<(u16, Vec<u8>)>, q: u16)
    requires
        exists|j: int| 0 <= j < seasons.len() && (#[trigger] seasons[j]).0 == q,
    ensures
        ({
            let k = first_season_index(seasons, q);
            &&& 0 <= k < seasons.len()
            &&& seasons[k].0 == q
            &&& !season_found_before(seasons, q, k)
            &&& season_entry(seasons, q) == Some(seasons[k].1@)
        }),
    decreases seasons.len(),
{
    let j0 = choose|j: int| 0 <= j < seasons.len() && (#[trigger] seasons[j]).0 == q;
    if seasons[0].0 == q {
        assert(seasons[0].0 == q && !season_found_before(seasons, q, 0));
        let k = first_season_index(seasons, q);
        assert(!season_found_before(seasons, q, k));
        if k != 0 {
            assert(0 <= 0 < k && seasons[0].0 == q);
            assert(false);
        }
    } else {
        assert(seasons.drop_first()[j0 - 1].0 == q);
        lemma_first_index_props(seasons.drop_first(), q);
        let kd = first_season_index(seasons.drop_first(), q);
        assert(seasons[kd + 1].0 == q && !season_found_before(seasons, q, kd + 1)) by {
            if season_found_before(seasons, q, kd + 1) {
                let m = choose|m: int| 0 <= m < kd + 1 && (#[trigger] seasons[m]).0 == q;
                assert(m != 0);
                assert(seasons.drop_first()[m - 1].0 == q);
                assert(season_found_before(seasons.drop_first(), q, kd));
            }
        }
        let k = first_season_index(seasons, q);
        assert(k == kd + 1) by {
            if k < kd + 1 {
                assert(k != 0);
                assert(seasons.drop_first()[k - 1].0 == q);
                assert(season_found_before(seasons.drop_first(), q, kd));
            }
            if k > kd + 1 {
                assert(0 <= kd + 1 < k && seasons[kd + 1].0 == q);
                assert(season_found_before(seasons, q, k));
            }
        }
        assert(season_entry(seasons, q) == season_entry(seasons.drop_first(), q));
    }
}

/// If `q` occurs nowhere, `season_entry` reads nothing.
proof fn lemma_season_entry_none(seasons: Seq<(u16, Vec<u8>)>, q: u16)
    requires
        forall|j: int| 0 <= j < seasons.len() ==> (#[trigger] seasons[j]).0 != q,
    ensures
        season_entry(seasons, q) is None,
    decreases seasons.len(),
{
    if seasons.len() > 0 {
        assert(forall|j: int|
            0 <= j < seasons.drop_first().len() ==> (#[trigger] seasons.drop_first()[j]).0
                != q) by {
            assert(forall|j: int|
                0 <= j < seasons.drop_first().len() ==> seasons.drop_first()[j] == seasons[j
                    + 1]);
        }
        lemma_season_entry_none(seasons.drop_first(), q);
    }
}

/// `season_entry` is `None` exactly when the season occurs nowhere.
proof fn lemma_season_entry_first(seasons: Seq<(u16, Vec<u8>)>, q: u16)
    ensures
        (exists|j: int| 0 <= j < seasons.len() && (#[trigger] seasons[j]).0 == q)
            <==> season_entry(seasons, q) is Some,
    decreases seasons.len(),
{
    if seasons.len() > 0 {
        lemma_season_entry_first(seasons.drop_first(), q);
        if seasons[0].0 != q {
            assert(forall|j: int|
                0 <= j < seasons.drop_first().len() ==> seasons.drop_first()[j] == seasons[j + 1]);
            if exists|j: int| 0 <= j < seasons.len() && (#[trigger] seasons[j]).0 == q {
                let j0 = choose|j: int| 0 <= j < seasons.len() && (#[trigger] seasons[j]).0 == q;
                assert(seasons.drop_first()[j0 - 1].0 == q);
            }
            if exists|j: int|
                0 <= j < seasons.drop_first().len() && (#[trigger] seasons.drop_first()[j]).0
                    == q {
                let j1 = choose|j: int|
                    0 <= j < seasons.drop_first().len() && (#[trigger] seasons.drop_first()[j]).0
                        == q;
                assert(seasons[j1 + 1].0 == q);
            }
        }
    }
}

/// Copies a team list.
pub fn copy_teams(l: &Vec<u8>) -> (r: Vec<u8>)
    ensures
        r@ == l@,
{
    let n = l.len();
    let mut out: Vec<u8> = Vec::new();
    let mut i: usize = 0;
    while i < n
        invariant
            i <= n,
            n == l@.len(),
            out@ == l@.take(i as int),
        decreases n - i,
    {
        out.push(l[i]);
        proof {
            assert(out@ =~= l@.take(i as int + 1));
        }
        i = i + 1;
    }
    proof {
        assert(l@.take(n as int) =~= l@);
    }
    out
}

/// One stored season as it stands in the persisted document: its decimal
/// key, and its pending teams as an array of integers.
pub open spec fn pair_matches_doc(entry: (u16, Vec<u8>), p: (String, JsonVal)) -> bool {
    &&& p.0@ == dec_digits(entry.0 as nat)
    &&& (p.1 matches JsonVal::Arr(elems) && elems@.len() == entry.1@.len() && (forall|j: int|
        0 <= j < elems@.len() ==> #[trigger] elems@[j] == JsonVal::UInt(entry.1@[j] as u64)))
}

/// The persisted document a state writes: one member per stored season, in
/// order, keyed by the season's decimal rendering.
pub open spec fn doc_matches(st: CheckpointState, doc: JsonVal) -> bool {
    doc matches JsonVal::Obj(pairs) && pairs@.len() == st.seasons@.len() && (forall|i: int|
        0 <= i < pairs@.len() ==> pair_matches_doc(st.seasons@[i], #[trigger] pairs@[i]))
}

/// A document member a state can be read from: a non-empty decimal key
/// denoting a season, and an array of integer team ids.
pub open spec fn pair_readable(p: (String, JsonVal)) -> bool {
    &&& p.0@.len() > 0
    &&& all_digits(p.0@)
    &&& digits_val(p.0@) <= u16::MAX
    &&& (p.1 matches JsonVal::Arr(elems) && (forall|j: int|
        0 <= j < elems@.len() ==> (#[trigger] elems@[j]) is UInt))
}

/// A document a state can be read from.
pub open spec fn doc_readable(doc: JsonVal) -> bool {
    doc matches JsonVal::Obj(pairs) && (forall|i: int|
        0 <= i < pairs@.len() ==> pair_readable(#[trigger] pairs@[i]))
}

/// What reading a document yields, member by member: the parsed season key
/// and the teams with their low eight bits kept.
pub open spec fn pair_parsed(p: (String, JsonVal), entry: (u16, Vec<u8>)) -> bool {
    &&& entry.0 == digits_val(p.0@)
    &&& (p.1 matches JsonVal::Arr(elems) && entry.1@.len() == elems@.len() && (forall|j: int|
        0 <= j < elems@.len() ==> ((#[trigger] elems@[j]) matches JsonVal::UInt(u) && entry.1@[j]
            == (u % 256) as u8)))
}

/// The state a readable document denotes.
pub open spec fn parsed_matches(doc: JsonVal, st: CheckpointState) -> bool {
    doc matches JsonVal::Obj(pairs) && st.seasons@.len() == pairs@.len() && (forall|i: int|
        0 <= i < pairs@.len() ==> pair_parsed(#[trigger] pairs@[i], st.seasons@[i]))
}

/// The checkpoint invariant: for every season, the pending set stays within
/// the fixed 30-team universe.
pub proof fn lemma_pending_subset_universe(st: CheckpointState, season: u16)
    requires
        checkpoint_wf(st),
    ensures
        forall|t: u8| spec_pending(st, season).contains(t) ==> team_universe_seq().contains(t),
{
    lemma_season_entry_first(st.seasons@, season);
    if season_entry(st.seasons@, season) is Some {
        let k = first_season_index(st.seasons@, season);
        lemma_first_index_props(st.seasons@, season);
        assert(spec_pending(st, season) == st.seasons@[k].1@);
    }
}

/// Marking a team done never re-adds anything: afterwards the marked team is
/// gone from its season, and every remaining pending team was pending
/// before.
pub proof fn lemma_mark_done_shrinks(before: Seq<u8>, team: u8)
    ensures
        !remove_team(before, team).contains(team),
        forall|t: u8| remove_team(before, team).contains(t) ==> before.contains(t),
{
    lemma_remove_team(before, team);
}

} // verus!
