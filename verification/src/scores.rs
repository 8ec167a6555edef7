//! Per-mission high-score tables: each mission keeps its best scores,
//! highest first.

use vstd::prelude::*;
use crate::parser::{join, join_path};
use crate::clock::{now, secs_since_epoch};
use crate::text::str_eq;

verus! {

/// Where the score tables file lives inside the configuration directory `config_dir`.
pub fn score_path(config_dir: &str) -> (p: String)
    ensures
        p@ == join_path(config_dir@, "scores.toml"@),
{
    join(config_dir, "scores.toml")
}

/// Scores kept per mission.
pub const MAX_PER_MISSION: usize = 5;

#[derive(Debug, PartialEq, Eq)]
pub struct ScoreEntry {
    pub player_name: String,
    pub score: i32,
    pub timestamp: u64,
}

impl Clone for ScoreEntry {
    fn clone(&self) -> (r: Self)
        ensures
            r == *self,
    {
        ScoreEntry {
            player_name: self.player_name.clone(),
            score: self.score,
            timestamp: self.timestamp,
        }
    }
}

/// A score entry as plain values: (player name, score, timestamp).
pub type EntryView = (Seq<char>, i32, u64);

pub open spec fn entry_view(e: ScoreEntry) -> EntryView {
    (e.player_name@, e.score, e.timestamp)
}

pub open spec fn entry_views(s: Seq<ScoreEntry>) -> Seq<EntryView> {
    s.map_values(|e: ScoreEntry| entry_view(e))
}

/// `s` with `e` put after every entry whose score is at least `e`'s and before
/// the first that is lower.
pub open spec fn insert_desc(s: Seq<EntryView>, e: EntryView) -> Seq<EntryView>
    decreases s.len(),
{
    if s.len() == 0 {
        seq![e]
    } else if s.last().1 >= e.1 {
        s.push(e)
    } else {
        insert_desc(s.drop_last(), e).push(s.last())
    }
}

/// `s` sorted by score, highest first, entries of equal score keeping their
/// order (a stable sort).
pub open spec fn sort_desc(s: Seq<EntryView>) -> Seq<EntryView>
    decreases s.len(),
{
    if s.len() == 0 {
        s
    } else {
        insert_desc(sort_desc(s.drop_last()), s.last())
    }
}

pub open spec fn sorted_desc(s: Seq<EntryView>) -> bool {
    forall|i: int, j: int| 0 <= i < j < s.len() ==> s[i].1 >= s[j].1
}

/// The list of mission `m` in `table`: the first with that name.
pub open spec fn lookup(table: Seq<(Seq<char>, Seq<EntryView>)>, m: Seq<char>) -> Option<
    Seq<EntryView>,
>
    decreases table.len(),
{
    if table.len() == 0 {
        None
    } else if table[0].0 == m {
        Some(table[0].1)
    } else {
        lookup(table.drop_first(), m)
    }
}

pub open spec fn list_of(table: Seq<(Seq<char>, Seq<EntryView>)>, m: Seq<char>) -> Seq<EntryView> {
    match lookup(table, m) {
        Some(s) => s,
        None => Seq::empty(),
    }
}

/// The list that a new entry `e` makes from `old`: `e` joins, the list is
/// sorted highest first, and only the best `MAX_PER_MISSION` are kept.
pub open spec fn ranked(old: Seq<EntryView>, e: EntryView) -> Seq<EntryView> {
    let s = sort_desc(old.push(e));
    if s.len() <= MAX_PER_MISSION {
        s
    } else {
        s.take(MAX_PER_MISSION as int)
    }
}

pub open spec fn pair_view(p: (String, Vec<ScoreEntry>)) -> (Seq<char>, Seq<EntryView>) {
    (p.0@, entry_views(p.1@))
}

/// No mission name occurs twice in `t`.
pub open spec fn names_distinct(t: Seq<(Seq<char>, Seq<EntryView>)>) -> bool {
    forall|i: int, j: int| 0 <= i < j < t.len() ==> t[i].0 != t[j].0
}

/// The best scores of every mission: one list per mission name.
pub struct ScoreTable {
    missions: Vec<(String, Vec<ScoreEntry>)>,
}

impl View for ScoreTable {
    type V = Seq<(Seq<char>, Seq<EntryView>)>;

    closed spec fn view(&self) -> Seq<(Seq<char>, Seq<EntryView>)> {
        self.missions@.map_values(|p: (String, Vec<ScoreEntry>)| pair_view(p))
    }
}

impl ScoreTable {
    #[verifier::type_invariant]
    spec fn one_list_per_mission(self) -> bool {
        names_distinct(self@)
    }

    pub fn new() -> (t: Self)
        ensures
            t@ == Seq::<(Seq<char>, Seq<EntryView>)>::empty(),
            names_distinct(t@),
    {
        let t = ScoreTable { missions: Vec::new() };
        assert(t@ =~= Seq::<(Seq<char>, Seq<EntryView>)>::empty());
        t
    }

    /// A table holding `missions`, in order; each mission is named once.
    pub fn from_lists(missions: Vec<(String, Vec<ScoreEntry>)>) -> (t: Self)
        requires
            names_distinct(missions@.map_values(|p: (String, Vec<ScoreEntry>)| pair_view(p))),
        ensures
            t@ == missions@.map_values(|p: (String, Vec<ScoreEntry>)| pair_view(p)),
            names_distinct(t@),
    {
        ScoreTable { missions }
    }

    /// The missions and their lists, in order.
    pub fn into_lists(self) -> (m: Vec<(String, Vec<ScoreEntry>)>)
        ensures
            self@ == m@.map_values(|p: (String, Vec<ScoreEntry>)| pair_view(p)),
            names_distinct(self@),
    {
        proof {
            use_type_invariant(&self);
        }
        self.missions
    }

    fn find(&self, mission: &str) -> (r: Option<usize>)
        ensures
            match r {
                Some(i) => i < self@.len() && self@[i as int].0 == mission@ && lookup(
                    self@,
                    mission@,
                ) == Some(self@[i as int].1) && forall|j: int|
                    0 <= j < i ==> self@[j].0 != mission@,
                None => lookup(self@, mission@) is None,
            },
    {
        let mut i: usize = 0;
        assert(self@.skip(0) =~= self@);
        while i < self.missions.len()
            invariant
                i <= self@.len(),
                self@.len() == self.missions@.len(),
                lookup(self@, mission@) == lookup(self@.skip(i as int), mission@),
                forall|j: int| 0 <= j < i ==> self@[j].0 != mission@,
            decreases self@.len() - i,
        {
            assert(self@[i as int] == pair_view(self.missions@[i as int]));
            assert(self@.skip(i as int).drop_first() =~= self@.skip(i + 1));
            if str_eq(self.missions[i].0.as_str(), mission) {
                return Some(i);
            }
            i += 1;
        }
        proof {
            assert(self@.skip(i as int).len() == 0);
        }
        None
    }
}

/// The best scores recorded for `mission`, highest first.
pub fn top_scores(table: &ScoreTable, mission: &str) -> (r: Vec<ScoreEntry>)
    ensures
        entry_views(r@) == list_of(table@, mission@),
{
    match table.find(mission) {
        Some(i) => {
            let v = clone_entries(&table.missions[i].1);
            assert(table@[i as int] == pair_view(table.missions@[i as int]));
            v
        },
        None => {
            let v: Vec<ScoreEntry> = Vec::new();
            assert(entry_views(v@) =~= Seq::<EntryView>::empty());
            v
        },
    }
}

fn clone_entries(s: &Vec<ScoreEntry>) -> (r: Vec<ScoreEntry>)
    ensures
        entry_views(r@) == entry_views(s@),
{
    let mut r: Vec<ScoreEntry> = Vec::new();
    let mut i: usize = 0;
    while i < s.len()
        invariant
            i <= s@.len(),
            entry_views(r@) == entry_views(s@).take(i as int),
        decreases s@.len() - i,
    {
        let ghost before = r@;
        let c = s[i].clone();
        assert(entry_view(c) == entry_views(s@)[i as int]);
        r.push(c);
        assert(entry_views(r@) =~= entry_views(before).push(entry_view(c)));
        assert(entry_views(s@).take(i + 1) =~= entry_views(s@).take(i as int).push(
            entry_views(s@)[i as int],
        ));
        i += 1;
    }
    assert(entry_views(s@).take(s@.len() as int) =~= entry_views(s@));
    r
}

/// Finds where `e` goes in `s` (see `insert_desc`).
fn insert_position(s: &Vec<ScoreEntry>, e: &ScoreEntry) -> (p: usize)
    ensures
        insert_desc(entry_views(s@), entry_view(*e)) == entry_views(s@).insert(
            p as int,
            entry_view(*e),
        ),
        p <= s@.len(),
{
    let ghost sv = entry_views(s@);
    let ghost ev = entry_view(*e);
    let mut p = s.len();
    assert(sv.take(sv.len() as int) =~= sv);
    assert(sv.skip(sv.len() as int) =~= Seq::<EntryView>::empty());
    while p > 0 && s[p - 1].score < e.score
        invariant
            p <= s@.len(),
            sv == entry_views(s@),
            ev == entry_view(*e),
            insert_desc(sv, ev) == insert_desc(sv.take(p as int), ev) + sv.skip(p as int),
        decreases p,
    {
        proof {
            let t = sv.take(p as int);
            assert(t.drop_last() =~= sv.take(p - 1));
            assert(t.last() == sv[p - 1]);
            assert(sv.skip(p - 1) =~= seq![sv[p - 1]] + sv.skip(p as int));
            assert(insert_desc(t, ev) == insert_desc(t.drop_last(), ev).push(t.last()));
            assert(insert_desc(t.drop_last(), ev).push(t.last()) + sv.skip(p as int)
                =~= insert_desc(t.drop_last(), ev) + sv.skip(p - 1));
        }
        p -= 1;
    }
    proof {
        let t = sv.take(p as int);
        if p > 0 {
            assert(t.last() == sv[p - 1]);
        }
        assert(insert_desc(t, ev) =~= t.push(ev));
        assert(sv.insert(p as int, ev) =~= t.push(ev) + sv.skip(p as int));
    }
    p
}

/// `s` sorted by score, highest first, keeping the order of equal scores.
fn stable_sort_desc(s: &Vec<ScoreEntry>) -> (r: Vec<ScoreEntry>)
    ensures
        entry_views(r@) == sort_desc(entry_views(s@)),
{
    let ghost sv = entry_views(s@);
    let mut out: Vec<ScoreEntry> = Vec::new();
    let mut i: usize = 0;
    assert(sv.take(0) =~= Seq::<EntryView>::empty());
    assert(entry_views(out@) =~= Seq::<EntryView>::empty());
    while i < s.len()
        invariant
            i <= s@.len(),
            sv == entry_views(s@),
            entry_views(out@) == sort_desc(sv.take(i as int)),
        decreases s@.len() - i,
    {
        let e = s[i].clone();
        let p = insert_position(&out, &e);
        let ghost before = out@;
        out.insert(p, e);
        assert(entry_views(out@) =~= entry_views(before).insert(p as int, entry_view(e)));
        assert(sv.take(i + 1).drop_last() =~= sv.take(i as int));
        assert(sv.take(i + 1).last() == entry_view(e));
        i += 1;
    }
    assert(sv.take(s@.len() as int) =~= sv);
    out
}

/// Records `score` by `player_name` at `timestamp` for `mission`; scores of 0
/// or less are not recorded.
pub fn record_score_at(
    table: &mut ScoreTable,
    mission: &str,
    player_name: &str,
    score: i32,
    timestamp: u64,
)
    ensures
        names_distinct(final(table)@),
        score <= 0 ==> final(table)@ == old(table)@,
        score > 0 ==> lookup(final(table)@, mission@) == Some(
            ranked(list_of(old(table)@, mission@), (player_name@, score, timestamp)),
        ),
        score > 0 ==> forall|m: Seq<char>|
            m != mission@ ==> #[trigger] lookup(final(table)@, m) == lookup(old(table)@, m),
{
    proof {
        use_type_invariant(&*table);
    }
    if score <= 0 {
        return;
    }
    let e = ScoreEntry { player_name: String::from_str(player_name), score, timestamp };
    let ghost ev = entry_view(e);
    let found = table.find(mission);
    let mut list: Vec<ScoreEntry> = match found {
        Some(i) => clone_entries(&table.missions[i].1),
        None => Vec::new(),
    };
    proof {
        if let Some(i) = found {
            assert(table@[i as int] == pair_view(table.missions@[i as int]));
        } else {
            assert(entry_views(list@) =~= Seq::<EntryView>::empty());
        }
    }
    let ghost before = list@;
    list.push(e);
    assert(entry_views(list@) =~= entry_views(before).push(ev));
    let mut sorted = stable_sort_desc(&list);
    if sorted.len() > MAX_PER_MISSION {
        let ghost full = sorted@;
        sorted.truncate(MAX_PER_MISSION);
        assert(entry_views(sorted@) =~= entry_views(full).take(MAX_PER_MISSION as int));
    }
    let ghost old_view = table@;
    let ghost sv = entry_views(sorted@);
    let mut missions: Vec<(String, Vec<ScoreEntry>)> = Vec::new();
    std::mem::swap(&mut missions, &mut table.missions);
    assert(old_view == missions@.map_values(|p: (String, Vec<ScoreEntry>)| pair_view(p)));
    match found {
        Some(i) => {
            let name = missions[i].0.clone();
            missions.set(i, (name, sorted));
            let ghost new_view = missions@.map_values(|p: (String, Vec<ScoreEntry>)| pair_view(p));
            proof {
                assert(new_view =~= old_view.update(i as int, (mission@, sv)));
                lemma_lookup_update(old_view, i as int, mission@, sv);
            }
        },
        None => {
            missions.push((String::from_str(mission), sorted));
            let ghost new_view = missions@.map_values(|p: (String, Vec<ScoreEntry>)| pair_view(p));
            proof {
                assert(new_view =~= old_view.push((mission@, sv)));
                lemma_lookup_push(old_view, mission@, sv);
                assert forall|j: int| 0 <= j < old_view.len() implies old_view[j].0 != mission@ by {
                    lemma_lookup_absent(old_view, mission@, j);
                }
            }
        },
    }
    table.missions = missions;
}

/// A name that `lookup` does not find names no entry.
proof fn lemma_lookup_absent(t: Seq<(Seq<char>, Seq<EntryView>)>, m: Seq<char>, j: int)
    requires
        lookup(t, m) is None,
        0 <= j < t.len(),
    ensures
        t[j].0 != m,
    decreases t.len(),
{
    if j > 0 {
        lemma_lookup_absent(t.drop_first(), m, j - 1);
    }
}

proof fn lemma_lookup_update(
    t: Seq<(Seq<char>, Seq<EntryView>)>,
    i: int,
    m: Seq<char>,
    s: Seq<EntryView>,
)
    requires
        0 <= i < t.len(),
        t[i].0 == m,
        forall|j: int| 0 <= j < i ==> t[j].0 != m,
    ensures
        lookup(t.update(i, (m, s)), m) == Some(s),
        forall|k: Seq<char>| k != m ==> #[trigger] lookup(t.update(i, (m, s)), k) == lookup(t, k),
    decreases i,
{
    let u = t.update(i, (m, s));
    if i > 0 {
        lemma_lookup_update(t.drop_first(), i - 1, m, s);
        assert(u.drop_first() =~= t.drop_first().update(i - 1, (m, s)));
        assert forall|k: Seq<char>| k != m implies #[trigger] lookup(u, k) == lookup(t, k) by {
            assert(u[0] == t[0]);
            assert(lookup(t.drop_first().update(i - 1, (m, s)), k) == lookup(t.drop_first(), k));
            assert(lookup(u.drop_first(), k) == lookup(t.drop_first(), k));
        }
    } else {
        assert(u.drop_first() =~= t.drop_first());
        assert forall|k: Seq<char>| k != m implies #[trigger] lookup(u, k) == lookup(t, k) by {
            assert(u[0].0 == m);
        }
    }
}

proof fn lemma_lookup_push(t: Seq<(Seq<char>, Seq<EntryView>)>, m: Seq<char>, s: Seq<EntryView>)
    requires
        lookup(t, m) is None,
    ensures
        lookup(t.push((m, s)), m) == Some(s),
        forall|k: Seq<char>| k != m ==> #[trigger] lookup(t.push((m, s)), k) == lookup(t, k),
    decreases t.len(),
{
    let u = t.push((m, s));
    if t.len() > 0 {
        assert(u.drop_first() =~= t.drop_first().push((m, s)));
        lemma_lookup_push(t.drop_first(), m, s);
        assert forall|k: Seq<char>| k != m implies #[trigger] lookup(u, k) == lookup(t, k) by {
            assert(u[0] == t[0]);
            assert(lookup(t.drop_first().push((m, s)), k) == lookup(t.drop_first(), k));
            assert(lookup(u.drop_first(), k) == lookup(t.drop_first(), k));
        }
    } else {
        assert forall|k: Seq<char>| k != m implies #[trigger] lookup(u, k) == lookup(t, k) by {
            assert(u.drop_first() =~= Seq::<(Seq<char>, Seq<EntryView>)>::empty());
            assert(lookup(u.drop_first(), k) is None);
            assert(u[0].0 == m);
        }
    }
}

/// Records `score` by `player_name` for `mission` at the current time (0 when
/// the clock is before 1970); scores of 0 or less are not recorded.
pub fn record_score(table: &mut ScoreTable, mission: &str, player_name: &str, score: i32)
    ensures
        names_distinct(final(table)@),
        score <= 0 ==> final(table)@ == old(table)@,
        score > 0 ==> exists|ts: u64|
            lookup(final(table)@, mission@) == Some(
                ranked(list_of(old(table)@, mission@), (player_name@, score, ts)),
            ),
        score > 0 ==> forall|m: Seq<char>|
            m != mission@ ==> #[trigger] lookup(final(table)@, m) == lookup(old(table)@, m),
{
    proof {
        use_type_invariant(&*table);
    }
    if score <= 0 {
        return;
    }
    let t = now();
    let ts = match secs_since_epoch(&t) {
        Some(s) => s,
        None => 0,
    };
    record_score_at(table, mission, player_name, score, ts);
}

} // verus!
