//! Save slots: the most recently played missions, newest first.

use vstd::prelude::*;
use crate::parser::{join, join_path};
use crate::clock::{now, secs_since_epoch};
use crate::consts::NSAVES;
use crate::numbers::{digit_of, value};
use crate::text::{push_char, str_eq};

verus! {

/// Where the save slots file lives inside the configuration directory `config_dir`.
pub fn save_path(config_dir: &str) -> (p: String)
    ensures
        p@ == join_path(config_dir@, "saves.toml"@),
{
    join(config_dir, "saves.toml")
}

/// Missions that are never saved.
pub open spec fn skipped(m: Seq<char>) -> bool {
    m == "lose.msn"@ || m == "null.msn"@ || m == "template.msn"@
}

#[derive(Debug, PartialEq, Eq)]
pub struct SaveSlot {
    pub mission: String,
    pub timestamp: u64,
}

impl Clone for SaveSlot {
    fn clone(&self) -> (r: Self)
        ensures
            r == *self,
    {
        SaveSlot { mission: self.mission.clone(), timestamp: self.timestamp }
    }
}

/// The decimal digits of `n`, without leading zeros.
pub open spec fn decimal(n: nat) -> Seq<char>
    decreases n,
{
    if n < 10 {
        seq![(n + 0x30) as char]
    } else {
        decimal(n / 10).push(((n % 10) + 0x30) as char)
    }
}

/// `n` written in decimal.
pub fn decimal_string(n: u64) -> (s: String)
    ensures
        s@ == decimal(n as nat),
    decreases n,
{
    if n < 10 {
        let mut s = String::new();
        push_char(&mut s, ((n as u8) + 0x30) as char);
        assert(s@ =~= decimal(n as nat));
        s
    } else {
        let mut s = decimal_string(n / 10);
        push_char(&mut s, (((n % 10) as u8) + 0x30) as char);
        s
    }
}

/// How long ago `timestamp` was at `now` (both in seconds since 1970), as the
/// load menu shows it.
pub open spec fn age_text(timestamp: u64, now: u64) -> Seq<char> {
    let diff: nat = if now >= timestamp {
        (now - timestamp) as nat
    } else {
        0
    };
    let mins = diff / 60;
    let hours = mins / 60;
    if diff < 120 {
        "just now"@
    } else if mins < 60 {
        decimal(mins) + " min ago"@
    } else if hours < 24 {
        decimal(hours) + " hr ago"@
    } else {
        decimal(hours / 24) + " days ago"@
    }
}

impl SaveSlot {
    /// How long ago this slot was saved, seen from `now`.
    pub fn display_time_at(&self, now: u64) -> (s: String)
        ensures
            s@ == age_text(self.timestamp, now),
    {
        let diff = now.saturating_sub(self.timestamp);
        if diff < 120 {
            return String::from_str("just now");
        }
        let mins = diff / 60;
        if mins < 60 {
            let mut s = decimal_string(mins);
            s.append(" min ago");
            return s;
        }
        let hours = mins / 60;
        if hours < 24 {
            let mut s = decimal_string(hours);
            s.append(" hr ago");
            return s;
        }
        let mut s = decimal_string(hours / 24);
        s.append(" days ago");
        s
    }

    /// How long ago this slot was saved, seen from the current time (from the
    /// slot's own time when the clock is before 1970).
    pub fn display_time(&self) -> (s: String)
        ensures
            exists|t: u64| s@ == age_text(self.timestamp, t),
    {
        let t = now();
        let n = match secs_since_epoch(&t) {
            Some(n) => n,
            None => self.timestamp,
        };
        self.display_time_at(n)
    }
}

/// The slots without those of mission `m`.
pub open spec fn without(slots: Seq<(Seq<char>, u64)>, m: Seq<char>) -> Seq<(Seq<char>, u64)>
    decreases slots.len(),
{
    if slots.len() == 0 {
        slots
    } else if slots.last().0 == m {
        without(slots.drop_last(), m)
    } else {
        without(slots.drop_last(), m).push(slots.last())
    }
}

pub open spec fn slot_view(s: SaveSlot) -> (Seq<char>, u64) {
    (s.mission@, s.timestamp)
}

pub open spec fn slot_views(s: Seq<SaveSlot>) -> Seq<(Seq<char>, u64)> {
    s.map_values(|x: SaveSlot| slot_view(x))
}

/// The slots after mission `m` is saved at time `ts`: it comes first, its
/// older slot goes, and only the newest `NSAVES` stay.
pub open spec fn pushed(slots: Seq<(Seq<char>, u64)>, m: Seq<char>, ts: u64) -> Seq<(Seq<char>, u64)> {
    let s = seq![(m, ts)] + without(slots, m);
    if s.len() <= NSAVES {
        s
    } else {
        s.take(NSAVES as int)
    }
}

/// Whether mission `m` is one that is never saved.
pub fn is_skipped(m: &str) -> (b: bool)
    ensures
        b == skipped(m@),
{
    str_eq(m, "lose.msn") || str_eq(m, "null.msn") || str_eq(m, "template.msn")
}

/// Saves mission `mission` at time `timestamp`; `lose.msn`, `null.msn` and
/// `template.msn` are never saved.
pub fn push_save_at(slots: &mut Vec<SaveSlot>, mission: &str, timestamp: u64)
    ensures
        skipped(mission@) ==> final(slots)@ == old(slots)@,
        !skipped(mission@) ==> slot_views(final(slots)@) == pushed(
            slot_views(old(slots)@),
            mission@,
            timestamp,
        ),
{
    if is_skipped(mission) {
        return;
    }
    let ghost sv = slot_views(slots@);
    let mut kept: Vec<SaveSlot> = Vec::new();
    kept.push(SaveSlot { mission: String::from_str(mission), timestamp });
    let mut i: usize = 0;
    assert(sv.take(0) =~= Seq::<(Seq<char>, u64)>::empty());
    assert(slot_views(kept@) =~= seq![(mission@, timestamp)] + without(sv.take(0), mission@));
    while i < slots.len()
        invariant
            i <= slots@.len(),
            sv == slot_views(slots@),
            slot_views(kept@) == seq![(mission@, timestamp)] + without(sv.take(i as int), mission@),
        decreases slots@.len() - i,
    {
        assert(sv.take(i + 1).drop_last() =~= sv.take(i as int));
        assert(sv.take(i + 1).last() == slot_view(slots@[i as int]));
        if !str_eq(slots[i].mission.as_str(), mission) {
            let ghost before = kept@;
            let c = slots[i].clone();
            kept.push(c);
            assert(slot_views(kept@) =~= slot_views(before).push(slot_view(c)));
        }
        i += 1;
    }
    assert(sv.take(slots@.len() as int) =~= sv);
    if kept.len() > NSAVES {
        let ghost full = kept@;
        kept.truncate(NSAVES);
        assert(slot_views(kept@) =~= slot_views(full).take(NSAVES as int));
    }
    *slots = kept;
}

/// Saves mission `mission` at the current time (0 when the clock is before
/// 1970); `lose.msn`, `null.msn` and `template.msn` are never saved.
pub fn push_save(slots: &mut Vec<SaveSlot>, mission: &str)
    ensures
        skipped(mission@) ==> final(slots)@ == old(slots)@,
        !skipped(mission@) ==> exists|ts: u64|
            slot_views(final(slots)@) == pushed(slot_views(old(slots)@), mission@, ts),
{
    if is_skipped(mission) {
        return;
    }
    let t = now();
    let ts = match secs_since_epoch(&t) {
        Some(n) => n,
        None => 0,
    };
    push_save_at(slots, mission, ts);
}

} // verus!
