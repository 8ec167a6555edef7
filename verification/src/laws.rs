//! Properties that hold across the library's operations.

use vstd::prelude::*;
use crate::canvas::{BrailleCanvas, cell_of, dot_bit, set_bit};
use crate::menu::{LoadAction, Key, TITLE_OPTIONS, active_indices, cycled, load_step, title_step};
use crate::radar::dist100;
use crate::texture::{ppm_header, ppm_texture};
use crate::vocab::{action_named, strategy_named, trigger_named};
use crate::events::{EffectView, EventAction, GameEvent, event_named, fired, run_actions, set_enabled, unescape};
use crate::loader::{WeaponOpView, weapon_ops, weapon_step};
use crate::input::InputState;
use crate::menu::{KeyCode, PlayAction, TitleAction, Toggles, is_back, is_char, is_select, play_step};
use crate::text::matches_kw;
use crate::vocab::EventActionKind;
use crate::parser::{open_comment, split_ws, strip, tokenize_spec, ws_scan};
use crate::numbers::{all_digits, digit_of, strip_plus, unsigned_text, value};
use crate::consts::NSAVES;
use crate::saves::{age_text, decimal, pushed, without};
use crate::scores::{EntryView, MAX_PER_MISSION, insert_desc, ranked, sort_desc, sorted_desc};
use crate::text::{is_ws, lower, lower_char};
use crate::mesh::{
    AcOpView, ac3d_steps, count_of, min_nat, follow, kids, lemma_top_kids, starts, top_objects, lemma_follow_append, lemma_follow_one, lemma_obj_follow,
    lemma_seek_object, obj_body, seek_object,
};

verus! {

/// No character of `t` is whitespace.
pub open spec fn ws_free(t: Seq<char>) -> bool {
    forall|i: int| 0 <= i < t.len() ==> !is_ws(#[trigger] t[i])
}

proof fn lemma_ws_scan(s: Seq<char>)
    ensures
        forall|i: int|
            0 <= i < ws_scan(s).0.len() ==> (#[trigger] ws_scan(s).0[i]).len() > 0 && ws_free(
                ws_scan(s).0[i],
            ),
        ws_free(ws_scan(s).1),
    decreases s.len(),
{
    if s.len() > 0 {
        lemma_ws_scan(s.drop_last());
        let (w, cur) = ws_scan(s.drop_last());
        let c = s.last();
        if is_ws(c) {
            if cur.len() > 0 {
                assert forall|i: int| 0 <= i < w.push(cur).len() implies (#[trigger] w.push(
                    cur,
                )[i]).len() > 0 && ws_free(w.push(cur)[i]) by {
                    if i < w.len() {
                        assert(w.push(cur)[i] == w[i]);
                    }
                }
            }
            assert(ws_free(Seq::<char>::empty()));
        } else {
            assert forall|i: int| 0 <= i < cur.push(c).len() implies !is_ws(
                #[trigger] cur.push(c)[i],
            ) by {
                if i < cur.len() {
                    assert(cur.push(c)[i] == cur[i]);
                }
            }
        }
    }
}

proof fn lemma_strip(toks: Seq<Seq<char>>, c: bool)
    ensures
        forall|i: int|
            0 <= i < strip(toks, c).len() ==> #[trigger] strip(toks, c)[i] != open_comment()
                && toks.contains(strip(toks, c)[i]),
    decreases toks.len(),
{
    if toks.len() > 0 {
        let t = toks[0];
        let rest = toks.drop_first();
        lemma_strip(rest, true);
        lemma_strip(rest, false);
        let r = strip(toks, c);
        if !c && t != open_comment() {
            assert(r == seq![t] + strip(rest, false));
            assert forall|i: int| 0 <= i < r.len() implies #[trigger] r[i] != open_comment()
                && toks.contains(r[i]) by {
                if i == 0 {
                    assert(r[0] == t);
                    assert(toks[0] == t);
                } else {
                    let x = strip(rest, false)[i - 1];
                    assert(r[i] == x);
                    assert(rest.contains(x));
                    let k = choose|k: int| 0 <= k < rest.len() && rest[k] == x;
                    assert(toks[k + 1] == rest[k]);
                }
            }
        } else {
            let c2 = if c {
                t != crate::parser::close_comment()
            } else {
                true
            };
            assert(r == strip(rest, c2));
            assert forall|i: int| 0 <= i < r.len() implies #[trigger] r[i] != open_comment()
                && toks.contains(r[i]) by {
                let x = r[i];
                if c2 {
                    assert(strip(rest, true)[i] == x);
                } else {
                    assert(strip(rest, false)[i] == x);
                }
                assert(rest.contains(x));
                let k = choose|k: int| 0 <= k < rest.len() && rest[k] == x;
                assert(toks[k + 1] == rest[k]);
            }
        }
    }
}

/// Every token of a mission file is a non-empty run of non-whitespace
/// characters, and no comment opener is left among them.
pub proof fn law_tokens_are_words(s: Seq<char>)
    ensures
        forall|i: int|
            0 <= i < tokenize_spec(s).len() ==> {
                let t = #[trigger] tokenize_spec(s)[i];
                &&& t.len() > 0
                &&& ws_free(t)
                &&& t != open_comment()
            },
{
    lemma_ws_scan(s);
    let w = split_ws(s);
    assert forall|i: int| 0 <= i < w.len() implies (#[trigger] w[i]).len() > 0 && ws_free(w[i]) by {
        let (a, cur) = ws_scan(s);
        if i < a.len() {
            assert(w[i] == a[i]);
        }
    }
    lemma_strip(w, false);
    assert forall|i: int| 0 <= i < tokenize_spec(s).len() implies ({
        let t = #[trigger] tokenize_spec(s)[i];
        &&& t.len() > 0
        &&& ws_free(t)
        &&& t != open_comment()
    }) by {
        let t = tokenize_spec(s)[i];
        let k = choose|k: int| 0 <= k < w.len() && w[k] == t;
        assert(w[k].len() > 0 && ws_free(w[k]));
    }
}

proof fn lemma_decimal(n: nat)
    ensures
        decimal(n).len() > 0,
        all_digits(decimal(n), 10),
        value(decimal(n), 10) == n,
        '0' <= decimal(n)[0] <= '9',
    decreases n,
{
    if n < 10 {
        let c = (n + 0x30) as char;
        assert(c as u32 == n + 0x30);
        assert(decimal(n).drop_last() =~= Seq::<char>::empty());
        assert(decimal(n).last() == c);
        assert(digit_of(c, 10) == Some(n));
        assert(value(decimal(n), 10) == value(Seq::<char>::empty(), 10) * 10 + n);
    } else {
        lemma_decimal(n / 10);
        let s = decimal(n / 10);
        let c = ((n % 10) + 0x30) as char;
        assert(c as u32 == (n % 10) + 0x30);
        assert(decimal(n).drop_last() =~= s);
        assert(digit_of(c, 10) == Some((n % 10) as nat));
        assert(decimal(n).last() == c);
        assert(value(decimal(n), 10) == value(s, 10) * 10 + n % 10);
        assert(n == (n / 10) * 10 + n % 10) by (nonlinear_arith);
        assert forall|i: int| 0 <= i < decimal(n).len() implies (#[trigger] digit_of(
            decimal(n)[i],
            10,
        )) is Some by {
            if i < s.len() {
                assert(decimal(n)[i] == s[i]);
            }
        }
    }
}

/// Numbers written by the load menu read back as themselves: the decimal
/// text of `n` parses as `n` for every unsigned type that holds it.
pub proof fn law_decimal_round_trip(n: nat, max: nat)
    requires
        n <= max,
    ensures
        unsigned_text(decimal(n), 10, max) == Some(n),
{
    lemma_decimal(n);
    assert(strip_plus(decimal(n)) == decimal(n));
}

proof fn lemma_insert_desc(s: Seq<EntryView>, e: EntryView)
    ensures
        insert_desc(s, e).to_multiset() == s.to_multiset().insert(e),
        insert_desc(s, e).len() == s.len() + 1,
        sorted_desc(s) ==> sorted_desc(insert_desc(s, e)),
    decreases s.len(),
{
    broadcast use vstd::seq_lib::group_to_multiset_ensures;

    if s.len() == 0 {
        assert(insert_desc(s, e) =~= Seq::<EntryView>::empty().push(e));
    } else if s.last().1 >= e.1 {
        assert(s.drop_last().push(s.last()) =~= s);
    } else {
        let d = s.drop_last();
        lemma_insert_desc(d, e);
        let r = insert_desc(d, e);
        assert(s =~= d.push(s.last()));
        assert(r.push(s.last()).to_multiset() == r.to_multiset().insert(s.last()));
        assert(d.push(s.last()).to_multiset() == d.to_multiset().insert(s.last()));
        assert(insert_desc(s, e).to_multiset() =~= s.to_multiset().insert(e));
        if sorted_desc(s) {
            assert(sorted_desc(d));
            assert forall|i: int| 0 <= i < r.len() implies (#[trigger] r[i]).1 >= s.last().1 by {
                assert(r.contains(r[i]));
                assert(r.to_multiset().count(r[i]) > 0);
                if r[i] != e {
                    assert(d.to_multiset().count(r[i]) > 0);
                    assert(d.contains(r[i]));
                    let k = choose|k: int| 0 <= k < d.len() && d[k] == r[i];
                    assert(s[k] == d[k]);
                }
            }
        }
    }
}

proof fn lemma_sort_desc(s: Seq<EntryView>)
    ensures
        sorted_desc(sort_desc(s)),
        sort_desc(s).to_multiset() == s.to_multiset(),
        sort_desc(s).len() == s.len(),
    decreases s.len(),
{
    broadcast use vstd::seq_lib::group_to_multiset_ensures;

    if s.len() > 0 {
        lemma_sort_desc(s.drop_last());
        lemma_insert_desc(sort_desc(s.drop_last()), s.last());
        assert(s =~= s.drop_last().push(s.last()));
    }
}

/// A mission's score list after a new entry: sorted highest first, as long
/// as it can be up to `MAX_PER_MISSION`, and made of the best of the old
/// entries and the new one: nothing left out scores higher than anything kept.
pub proof fn law_ranked(old: Seq<EntryView>, e: EntryView)
    ensures
        sorted_desc(ranked(old, e)),
        ranked(old, e).len() == if old.len() + 1 <= MAX_PER_MISSION {
            (old.len() + 1) as int
        } else {
            MAX_PER_MISSION as int
        },
        sort_desc(old.push(e)).to_multiset() == old.to_multiset().insert(e),
        ranked(old, e) == sort_desc(old.push(e)).take(ranked(old, e).len() as int),
        forall|i: int, j: int|
            0 <= i < ranked(old, e).len() <= j < sort_desc(old.push(e)).len() ==> (#[trigger] ranked(
                old,
                e,
            )[i]).1 >= (#[trigger] sort_desc(old.push(e))[j]).1,
{
    broadcast use vstd::seq_lib::group_to_multiset_ensures;

    let full = sort_desc(old.push(e));
    lemma_sort_desc(old.push(e));
    let r = ranked(old, e);
    if full.len() <= MAX_PER_MISSION {
        assert(full.take(full.len() as int) =~= full);
    }
    assert forall|i: int, j: int| 0 <= i < r.len() <= j < full.len() implies (#[trigger] r[i]).1
        >= (#[trigger] full[j]).1 by {
        assert(r[i] == full[i]);
    }
}

/// A new score is always kept while its mission has fewer than
/// `MAX_PER_MISSION` scores, so reading the list back shows it.
pub proof fn law_recorded_kept(old: Seq<EntryView>, e: EntryView)
    requires
        old.len() < MAX_PER_MISSION,
    ensures
        ranked(old, e).contains(e),
{
    broadcast use vstd::seq_lib::group_to_multiset_ensures;

    lemma_sort_desc(old.push(e));
    assert(old.push(e).contains(e)) by {
        assert(old.push(e)[old.len() as int] == e);
    }
    assert(sort_desc(old.push(e)).to_multiset().count(e) > 0);
}

/// No two slots are for the same mission.
pub open spec fn distinct_missions(s: Seq<(Seq<char>, u64)>) -> bool {
    forall|i: int, j: int| 0 <= i < j < s.len() ==> (#[trigger] s[i]).0 != (#[trigger] s[j]).0
}

proof fn lemma_without(s: Seq<(Seq<char>, u64)>, m: Seq<char>)
    ensures
        forall|i: int|
            0 <= i < without(s, m).len() ==> (#[trigger] without(s, m)[i]).0 != m && s.contains(
                without(s, m)[i],
            ),
        distinct_missions(s) ==> distinct_missions(without(s, m)),
        without(s, m).len() <= s.len(),
    decreases s.len(),
{
    if s.len() > 0 {
        let d = s.drop_last();
        lemma_without(d, m);
        let w = without(d, m);
        assert forall|i: int| 0 <= i < w.len() implies s.contains(#[trigger] w[i]) by {
            assert(d.contains(w[i]));
            let k = choose|k: int| 0 <= k < d.len() && d[k] == w[i];
            assert(s[k] == d[k]);
        }
        if s.last().0 != m {
            let r = w.push(s.last());
            assert forall|i: int| 0 <= i < r.len() implies (#[trigger] r[i]).0 != m && s.contains(
                r[i],
            ) by {
                if i < w.len() {
                    assert(r[i] == w[i]);
                } else {
                    assert(s[s.len() - 1] == r[i]);
                }
            }
            if distinct_missions(s) {
                assert(distinct_missions(d));
                assert forall|i: int, j: int| 0 <= i < j < r.len() implies (#[trigger] r[i]).0 != (
                #[trigger] r[j]).0 by {
                    if j < w.len() {
                        assert(r[i] == w[i] && r[j] == w[j]);
                    } else {
                        assert(r[i] == w[i]);
                        assert(d.contains(w[i]));
                        let k = choose|k: int| 0 <= k < d.len() && d[k] == w[i];
                        assert(s[k] == w[i]);
                        assert(s[s.len() - 1] == r[j]);
                    }
                }
            }
        }
    }
}

/// After a mission is saved its slot comes first, no other slot is for that
/// mission, no more than `NSAVES` slots are kept, and slots that were for
/// distinct missions stay so.
pub proof fn law_pushed(slots: Seq<(Seq<char>, u64)>, m: Seq<char>, ts: u64)
    ensures
        pushed(slots, m, ts).len() >= 1,
        pushed(slots, m, ts)[0] == (m, ts),
        pushed(slots, m, ts).len() <= NSAVES,
        forall|i: int| 1 <= i < pushed(slots, m, ts).len() ==> (#[trigger] pushed(slots, m, ts)[i]).0 != m,
        distinct_missions(slots) ==> distinct_missions(pushed(slots, m, ts)),
{
    lemma_without(slots, m);
    let w = without(slots, m);
    let full = seq![(m, ts)] + w;
    let p = pushed(slots, m, ts);
    assert forall|i: int| 1 <= i < p.len() implies (#[trigger] p[i]).0 != m by {
        assert(p[i] == full[i]);
        assert(full[i] == w[i - 1]);
    }
    if distinct_missions(slots) {
        assert forall|i: int, j: int| 0 <= i < j < p.len() implies (#[trigger] p[i]).0 != (
        #[trigger] p[j]).0 by {
            assert(p[j] == full[j] && full[j] == w[j - 1]);
            if i > 0 {
                assert(p[i] == full[i] && full[i] == w[i - 1]);
            }
        }
    }
}

/// `b` is `a` with perhaps another `enabled` flag.
pub open spec fn same_but_enabled(a: GameEvent, b: GameEvent) -> bool {
    &&& b.name == a.name
    &&& b.pending == a.pending
    &&& b.trigger == a.trigger
    &&& b.ivalue == a.ivalue
    &&& b.cvalue == a.cvalue
    &&& b.actions == a.actions
}

proof fn lemma_run_keeps_pending(evs: Seq<GameEvent>, acts: Seq<EventAction>, from: nat)
    ensures
        run_actions(evs, acts, from).0.len() == evs.len(),
        forall|j: int|
            0 <= j < evs.len() ==> same_but_enabled(evs[j], #[trigger] run_actions(evs, acts, from).0[j]),
    decreases acts.len(),
{
    if acts.len() > 0 {
        let a = acts[0];
        let rest = acts.drop_first();
        if !a.active || a.kind == EventActionKind::LoadMission {
            lemma_run_keeps_pending(evs, rest, from + 1);
        } else if a.kind == EventActionKind::Enable || a.kind == EventActionKind::Disable {
            let on = a.kind == EventActionKind::Enable;
            let u = set_enabled(evs, a.cvalue@, on);
            assert forall|j: int| 0 <= j < evs.len() implies same_but_enabled(evs[j], #[trigger] u[j]) by {}
            lemma_run_keeps_pending(u, rest, from + 1);
        } else {
            lemma_run_keeps_pending(evs, rest, from + 1);
        }
    }
}

/// Firing an event changes nothing of the event table but that event's
/// pending flag and the enabled flags that its actions switch.
pub proof fn law_firing_only_switches(evs: Seq<GameEvent>, e: nat)
    requires
        e < evs.len(),
    ensures
        fired(evs, e).0.len() == evs.len(),
        forall|j: int|
            0 <= j < evs.len() && j != e ==> same_but_enabled(evs[j], #[trigger] fired(evs, e).0[j]),
        same_but_enabled(GameEvent { pending: false, ..evs[e as int] }, fired(evs, e).0[e as int]),
{
    let u = evs.update(e as int, GameEvent { pending: false, ..evs[e as int] });
    lemma_run_keeps_pending(u, evs[e as int].actions@, 0);
    assert forall|j: int| 0 <= j < evs.len() && j != e implies same_but_enabled(
        evs[j],
        #[trigger] fired(evs, e).0[j],
    ) by {
        assert(same_but_enabled(u[j], fired(evs, e).0[j]));
    }
    assert(same_but_enabled(u[e as int], fired(evs, e).0[e as int]));
}

/// An event fires at most once: once fired it is no longer pending, and
/// firing it leaves whether the other events are pending as it was.
pub proof fn law_fired_once(evs: Seq<GameEvent>, e: nat)
    requires
        e < evs.len(),
    ensures
        fired(evs, e).0.len() == evs.len(),
        !fired(evs, e).0[e as int].pending,
        forall|j: int|
            0 <= j < evs.len() && j != e ==> (#[trigger] fired(evs, e).0[j]).pending
                == evs[j].pending,
{
    let u = evs.update(e as int, GameEvent { pending: false, ..evs[e as int] });
    lemma_run_keeps_pending(u, evs[e as int].actions@, 0);
    assert(u[e as int].pending == false);
}

/// Setting a dot shows in its cell: the cell then has a dot (so it draws as
/// a braille pattern, not a blank), and no other cell changes.
pub proof fn law_set_dot_shows(bits: Map<(u16, u16), u8>, x: u32, y: u32)
    ensures
        set_bit(bits, x, y).contains_key(cell_of(x, y)),
        set_bit(bits, x, y)[cell_of(x, y)] != 0,
        forall|k: (u16, u16)|
            k != cell_of(x, y) ==> (#[trigger] set_bit(bits, x, y).contains_key(k) == bits.contains_key(
                k,
            ) && (bits.contains_key(k) ==> set_bit(bits, x, y)[k] == bits[k])),
{
    let k = cell_of(x, y);
    let b: u8 = if bits.contains_key(k) {
        bits[k]
    } else {
        0
    };
    let d = dot_bit(x, y);
    assert(d != 0);
    assert((b | d) != 0) by (bit_vector)
        requires
            d != 0,
    ;
}

/// Both rings of the radar lie inside its ellipse, and they do not meet.
pub proof fn law_rings_inside(col: int, row: int)
    ensures
        ((85 < dist100(col, row) <= 100) || (dist100(col, row) == 85 && (col - 10 == 9 || col - 10
            == -9))) ==> dist100(col, row) <= 100 && !(21 <= dist100(col, row) <= 28),
        (21 <= dist100(col, row) <= 28) ==> dist100(col, row) <= 100,
{
}

/// The highlighted title entry stays on the menu.
pub proof fn law_title_selection(sel: nat, has_saves: bool, k: Key)
    requires
        sel < TITLE_OPTIONS,
    ensures
        title_step(sel, has_saves, k).1 < TITLE_OPTIONS,
{
}

/// The highlighted save slot stays among the slots, and only an existing slot
/// is ever loaded.
pub proof fn law_load_selection(sel: nat, n: nat, k: Key)
    requires
        sel < n,
    ensures
        load_step(sel, n, k).1 < n,
        load_step(sel, n, k).0 matches LoadAction::Load(i) ==> i < n,
{
}

proof fn lemma_active_indices(active: Seq<bool>)
    ensures
        forall|i: int|
            0 <= i < active_indices(active).len() ==> (#[trigger] active_indices(active)[i])
                < active.len() && active[active_indices(active)[i] as int],
    decreases active.len(),
{
    if active.len() > 0 {
        let d = active.drop_last();
        lemma_active_indices(d);
        let a = active_indices(d);
        assert forall|i: int| 0 <= i < active_indices(active).len() implies (
        #[trigger] active_indices(active)[i]) < active.len() && active[active_indices(
            active,
        )[i] as int] by {
            if i < a.len() {
                assert(active_indices(active)[i] == a[i]);
                assert(active[a[i] as int] == d[a[i] as int]);
            }
        }
    }
}

/// Cycling locks an active target, or none exactly when none is active.
pub proof fn law_cycle_target(active: Seq<bool>, current: Option<nat>)
    ensures
        cycled(active_indices(active), current) is None <==> active_indices(active).len() == 0,
        cycled(active_indices(active), current) matches Some(t) ==> t < active.len() && active[t as int],
{
    lemma_active_indices(active);
    let act = active_indices(active);
    if act.len() > 0 {
        match current {
            Some(c) => {
                if act.contains(c) {
                    let k = act.index_of(c);
                    assert(0 <= k < act.len());
                    let j = (k + 1) % (act.len() as int);
                    assert(0 <= j < act.len()) by (nonlinear_arith)
                        requires
                            j == (k + 1) % (act.len() as int),
                            act.len() > 0,
                    ;
                    assert(act[j] < active.len());
                } else {
                    let j = 1int % (act.len() as int);
                    assert(0 <= j < act.len()) by (nonlinear_arith)
                        requires
                            j == 1int % (act.len() as int),
                            act.len() > 0,
                    ;
                    assert(act[j] < active.len());
                }
            },
            None => {
                assert(act[0] < active.len());
            },
        }
    }
}

/// A decoded texture holds three bytes for each of its pixels.
pub proof fn law_texture_size(d: Seq<u8>)
    ensures
        ppm_texture(d) matches Some((w, h, px)) ==> px.len() == w * h * 3,
{
    if let Some((w, h, m, pos)) = ppm_header(d) {
        let n = w * h * 3;
        if pos + n <= d.len() {
            assert(d.subrange(pos as int, (pos + n) as int).len() == n);
        }
    }
}

proof fn lemma_lower_lower(s: Seq<char>)
    ensures
        lower(lower(s)) == lower(s),
{
    assert forall|i: int| 0 <= i < s.len() implies lower_char(lower_char(s[i])) == lower_char(s[i]) by {
        let c = s[i];
        if 'A' <= c && c <= 'Z' {
            assert(((c as u32) + 32) as char as u32 == (c as u32) + 32);
        }
    }
    assert(lower(lower(s)) =~= lower(s));
}

/// Mission words are read without regard to ASCII case: a word and its
/// lower-case form name the same strategy, trigger and action.
pub proof fn law_words_ignore_case(s: Seq<char>)
    ensures
        strategy_named(lower(s)) == strategy_named(s),
        trigger_named(lower(s)) == trigger_named(s),
        action_named(lower(s)) == action_named(s),
{
    lemma_lower_lower(s);
}

/// Reading an AC3D model gives well-formed steps: every object that opens
/// closes again, vertices and edges come only inside an object, and every
/// edge joins two of the vertices its object has at that point.
pub proof fn law_model_steps_well_formed(ts: Seq<Seq<char>>)
    ensures
        follow(ac3d_steps(ts), Seq::empty()) == Some(Seq::<nat>::empty()),
{
    lemma_seek_object(ts, 0);
    let q = seek_object(ts, 0);
    if q < ts.len() {
        let e = Seq::<nat>::empty();
        lemma_obj_follow(ts, q + 1, 0, e);
        lemma_follow_one(AcOpView::Object, e);
        lemma_follow_append(seq![AcOpView::Object], obj_body(ts, q + 1, 0).0, e);
    } else {
        assert(follow(Seq::<AcOpView>::empty(), Seq::<nat>::empty()) == Some(Seq::<nat>::empty()));
    }
}

/// A canvas without dots, such as a new or a cleared one, shows a blank in
/// every cell.
pub proof fn law_empty_canvas_is_blank(c: BrailleCanvas, x: int, y: int)
    requires
        c.cells() == Map::<(u16, u16), u8>::empty(),
    ensures
        c.glyph(x, y) == ' ',
{
}

/// Two words that differ once lower-cased are never both matched by one key.
proof fn lemma_kw_exclusive(k: Seq<char>, w1: Seq<char>, w2: Seq<char>)
    requires
        matches_kw(k, w1),
        lower(w1) != lower(w2),
    ensures
        !matches_kw(k, w2),
{
}

/// The lower-case forms of the keys of a `weapon` block are pairwise
/// different.
proof fn lemma_weapon_keys_differ()
    ensures
        lower("index"@) != lower("name"@),
        lower("index"@) != lower("speed"@),
        lower("index"@) != lower("yield"@),
        lower("index"@) != lower("idle"@),
        lower("index"@) != lower("expire"@),
        lower("name"@) != lower("speed"@),
        lower("name"@) != lower("yield"@),
        lower("name"@) != lower("idle"@),
        lower("name"@) != lower("expire"@),
        lower("speed"@) != lower("yield"@),
        lower("speed"@) != lower("idle"@),
        lower("speed"@) != lower("expire"@),
        lower("yield"@) != lower("idle"@),
        lower("yield"@) != lower("expire"@),
        lower("idle"@) != lower("expire"@),
{
    reveal_strlit("index");
    reveal_strlit("name");
    reveal_strlit("speed");
    reveal_strlit("yield");
    reveal_strlit("idle");
    reveal_strlit("expire");
    assert(lower("index"@).len() == 5);
    assert(lower("name"@).len() == 4);
    assert(lower("speed"@).len() == 5);
    assert(lower("yield"@).len() == 5);
    assert(lower("idle"@).len() == 4);
    assert(lower("expire"@).len() == 6);
    assert(lower("index"@)[0] == 'i');
    assert(lower("name"@)[0] == 'n');
    assert(lower("speed"@)[0] == 's');
    assert(lower("yield"@)[0] == 'y');
    assert(lower("idle"@)[0] == 'i');
}

/// In a `weapon` block each key word names the field that its entry sets,
/// whatever its ASCII case: an entry `idle a` adds exactly the step
/// `Idle(a)` (the time between shots), `expire a` exactly `Expire(a)` (the
/// missile's lifetime), and likewise `name`, `speed` and `yield`; the steps
/// of the entries before it are kept as they were.
pub proof fn law_weapon_keys(es: Seq<(Seq<char>, Option<Seq<char>>)>, k: Seq<char>, a: Seq<char>)
    ensures
        matches_kw(k, "idle"@) ==> weapon_ops(es.push((k, Some(a)))) == weapon_ops(es).push(
            WeaponOpView::Idle(a),
        ),
        matches_kw(k, "expire"@) ==> weapon_ops(es.push((k, Some(a)))) == weapon_ops(es).push(
            WeaponOpView::Expire(a),
        ),
        matches_kw(k, "name"@) ==> weapon_ops(es.push((k, Some(a)))) == weapon_ops(es).push(
            WeaponOpView::Name(a),
        ),
        matches_kw(k, "speed"@) ==> weapon_ops(es.push((k, Some(a)))) == weapon_ops(es).push(
            WeaponOpView::Speed(a),
        ),
        matches_kw(k, "yield"@) ==> weapon_ops(es.push((k, Some(a)))) == weapon_ops(es).push(
            WeaponOpView::Yield(a),
        ),
{
    let x = (k, Some(a));
    let e2 = es.push(x);
    assert(e2.drop_last() =~= es);
    assert(e2.last() == x);
    assert(weapon_ops(e2) == weapon_ops(es) + weapon_step(x));
    lemma_weapon_keys_differ();
    if matches_kw(k, "idle"@) {
        lemma_kw_exclusive(k, "idle"@, "index"@);
        lemma_kw_exclusive(k, "idle"@, "name"@);
        lemma_kw_exclusive(k, "idle"@, "speed"@);
        lemma_kw_exclusive(k, "idle"@, "yield"@);
        assert(weapon_ops(es) + seq![WeaponOpView::Idle(a)] =~= weapon_ops(es).push(
            WeaponOpView::Idle(a),
        ));
    }
    if matches_kw(k, "expire"@) {
        lemma_kw_exclusive(k, "expire"@, "index"@);
        lemma_kw_exclusive(k, "expire"@, "name"@);
        lemma_kw_exclusive(k, "expire"@, "speed"@);
        lemma_kw_exclusive(k, "expire"@, "yield"@);
        lemma_kw_exclusive(k, "expire"@, "idle"@);
        assert(weapon_ops(es) + seq![WeaponOpView::Expire(a)] =~= weapon_ops(es).push(
            WeaponOpView::Expire(a),
        ));
    }
    if matches_kw(k, "name"@) {
        lemma_kw_exclusive(k, "name"@, "index"@);
        assert(weapon_ops(es) + seq![WeaponOpView::Name(a)] =~= weapon_ops(es).push(
            WeaponOpView::Name(a),
        ));
    }
    if matches_kw(k, "speed"@) {
        lemma_kw_exclusive(k, "speed"@, "index"@);
        lemma_kw_exclusive(k, "speed"@, "name"@);
        assert(weapon_ops(es) + seq![WeaponOpView::Speed(a)] =~= weapon_ops(es).push(
            WeaponOpView::Speed(a),
        ));
    }
    if matches_kw(k, "yield"@) {
        lemma_kw_exclusive(k, "yield"@, "index"@);
        lemma_kw_exclusive(k, "yield"@, "name"@);
        lemma_kw_exclusive(k, "yield"@, "speed"@);
        assert(weapon_ops(es) + seq![WeaponOpView::Yield(a)] =~= weapon_ops(es).push(
            WeaponOpView::Yield(a),
        ));
    }
}

/// The kind of action that each effect on the world answers to.
pub open spec fn effect_kind(f: EffectView) -> EventActionKind {
    match f {
        EffectView::Message(_) => EventActionKind::Message,
        EffectView::HideTarget(_) => EventActionKind::Hide,
        EffectView::UnhideTarget(_) => EventActionKind::Unhide,
        EffectView::StopPlayer => EventActionKind::Stop,
        EffectView::MoveTarget(_) => EventActionKind::MoveObject,
        EffectView::MovePlayer => EventActionKind::MovePlayer,
        EffectView::MovePlanet(_) => EventActionKind::MovePlanet,
        EffectView::HidePlanet(_) => EventActionKind::HidePlanet,
        EffectView::UnhidePlanet(_) => EventActionKind::UnhidePlanet,
        EffectView::Betray(_) => EventActionKind::Betray,
        EffectView::Boom(_) => EventActionKind::Boom,
    }
}

/// An active action at the head of `acts` puts the effect of its own kind,
/// carrying its value, ahead of the effects of the actions after it: showing
/// a planet again shows it (never hides it), hiding hides, and so on for
/// every kind that acts on the world.
pub proof fn law_action_effect(evs: Seq<GameEvent>, acts: Seq<EventAction>, from: nat)
    requires
        acts.len() > 0,
        acts[0].active,
    ensures
        ({
            let a = acts[0];
            let v = a.cvalue@;
            let r = run_actions(evs, acts.drop_first(), from + 1);
            let with = |f: EffectView| (r.0, seq![f] + r.1, r.2);
            &&& a.kind == EventActionKind::UnhidePlanet ==> run_actions(evs, acts, from) == with(
                EffectView::UnhidePlanet(v),
            )
            &&& a.kind == EventActionKind::HidePlanet ==> run_actions(evs, acts, from) == with(
                EffectView::HidePlanet(v),
            )
            &&& a.kind == EventActionKind::Hide ==> run_actions(evs, acts, from) == with(
                EffectView::HideTarget(v),
            )
            &&& a.kind == EventActionKind::Unhide ==> run_actions(evs, acts, from) == with(
                EffectView::UnhideTarget(v),
            )
            &&& a.kind == EventActionKind::MoveObject ==> run_actions(evs, acts, from) == with(
                EffectView::MoveTarget(v),
            )
            &&& a.kind == EventActionKind::MovePlanet ==> run_actions(evs, acts, from) == with(
                EffectView::MovePlanet(v),
            )
            &&& a.kind == EventActionKind::Betray ==> run_actions(evs, acts, from) == with(
                EffectView::Betray(v),
            )
            &&& a.kind == EventActionKind::Message ==> run_actions(evs, acts, from) == with(
                EffectView::Message(unescape(v)),
            )
            &&& a.kind == EventActionKind::Stop ==> run_actions(evs, acts, from) == with(
                EffectView::StopPlayer,
            )
            &&& a.kind == EventActionKind::MovePlayer ==> run_actions(evs, acts, from) == with(
                EffectView::MovePlayer,
            )
            &&& a.kind == EventActionKind::Boom ==> run_actions(evs, acts, from) == with(
                EffectView::Boom(from),
            )
        }),
{
}

/// Every effect that running `acts` asks of the world answers to an active
/// action of its own kind among `acts`: a planet is hidden only by a
/// `HidePlanet` action, shown again only by an `UnhidePlanet` action, and so
/// on.
pub proof fn law_effects_have_sources(evs: Seq<GameEvent>, acts: Seq<EventAction>, from: nat)
    ensures
        forall|j: int|
            0 <= j < run_actions(evs, acts, from).1.len() ==> exists|i: int|
                0 <= i < acts.len() && acts[i].active && acts[i].kind == effect_kind(
                    #[trigger] run_actions(evs, acts, from).1[j],
                ),
    decreases acts.len(),
{
    if acts.len() > 0 {
        let a = acts[0];
        let rest = acts.drop_first();
        let evs2 = if !a.active || a.kind == EventActionKind::LoadMission {
            evs
        } else if a.kind == EventActionKind::Enable {
            set_enabled(evs, a.cvalue@, true)
        } else if a.kind == EventActionKind::Disable {
            set_enabled(evs, a.cvalue@, false)
        } else {
            evs
        };
        law_effects_have_sources(evs2, rest, from + 1);
        let fx = run_actions(evs, acts, from).1;
        let rfx = run_actions(evs2, rest, from + 1).1;
        assert forall|j: int| 0 <= j < fx.len() implies exists|i: int|
            0 <= i < acts.len() && acts[i].active && acts[i].kind == effect_kind(
                #[trigger] fx[j],
            ) by {
            if a.active && a.kind != EventActionKind::LoadMission && a.kind
                != EventActionKind::Enable && a.kind != EventActionKind::Disable
                && crate::events::world_effect(a, from) is Some {
                if j == 0 {
                    assert(acts[0] == a);
                } else {
                    assert(fx[j] == rfx[j - 1]);
                    let i = choose|i: int|
                        0 <= i < rest.len() && rest[i].active && rest[i].kind == effect_kind(
                            #[trigger] rfx[j - 1],
                        );
                    assert(acts[i + 1] == rest[i]);
                }
            } else {
                assert(fx[j] == rfx[j]);
                let i = choose|i: int|
                    0 <= i < rest.len() && rest[i].active && rest[i].kind == effect_kind(
                        #[trigger] rfx[j],
                    );
                assert(acts[i + 1] == rest[i]);
            }
        }
    }
}

/// While flying and not paused, each display key flips its own switch and
/// nothing else: `n` the planet names, `t` the planet textures, `z` the dense
/// stars, `b` the lines, `o` the orrery and `c` (without Control) the orbit
/// camera; the controls stay as they were and the world is asked for nothing.
pub proof fn law_display_keys(i: InputState, t: Toggles, k: Key)
    requires
        !t.paused,
    ensures
        is_char(k, 'n') ==> play_step(i, t, k) == (
            i,
            Toggles { show_names: !t.show_names, ..t },
            PlayAction::Stay,
        ),
        is_char(k, 't') ==> play_step(i, t, k) == (
            i,
            Toggles { show_texture: !t.show_texture, ..t },
            PlayAction::Stay,
        ),
        is_char(k, 'z') ==> play_step(i, t, k) == (
            i,
            Toggles { dense_stars: !t.dense_stars, ..t },
            PlayAction::Stay,
        ),
        is_char(k, 'b') ==> play_step(i, t, k) == (
            i,
            Toggles { show_lines: !t.show_lines, ..t },
            PlayAction::Stay,
        ),
        is_char(k, 'o') ==> play_step(i, t, k) == (
            i,
            Toggles { show_orrery: !t.show_orrery, ..t },
            PlayAction::Stay,
        ),
        is_char(k, 'c') && !k.ctrl ==> play_step(i, t, k) == (
            i,
            Toggles { orbit_cam: !t.orbit_cam, ..t },
            PlayAction::Stay,
        ),
{
}

/// Only its own key flips a display switch: the planet names change only on
/// `n`, the textures only on `t`, the dense stars only on `z`, the lines only
/// on `b`, the orrery only on `o` and the orbit camera only on `c`.
pub proof fn law_display_switch_keys(i: InputState, t: Toggles, k: Key)
    ensures
        play_step(i, t, k).1.show_names != t.show_names ==> is_char(k, 'n'),
        play_step(i, t, k).1.show_texture != t.show_texture ==> is_char(k, 't'),
        play_step(i, t, k).1.dense_stars != t.dense_stars ==> is_char(k, 'z'),
        play_step(i, t, k).1.show_lines != t.show_lines ==> is_char(k, 'b'),
        play_step(i, t, k).1.show_orrery != t.show_orrery ==> is_char(k, 'o'),
        play_step(i, t, k).1.orbit_cam != t.orbit_cam ==> is_char(k, 'c'),
{
}

/// A `kids n` line of a model reads `n` child objects as long as `OBJECT`
/// lines remain: the steps of the object from that line on hold exactly `n`
/// objects directly under it (each with everything nested in it), or fewer
/// only when reading ran to the end of the lines; then the object ends.
pub proof fn law_kids_read(ts: Seq<Seq<char>>, p: nat, nv: nat)
    requires
        p < ts.len(),
        starts(ts[p as int], "kids "@),
    ensures
        ({
            let (ops, q) = obj_body(ts, p, nv);
            let n = count_of(ts[p as int].skip(5));
            &&& ops.len() > 0
            &&& ops.last() == AcOpView::End
            &&& top_objects(ops.drop_last(), 0) <= n
            &&& (top_objects(ops.drop_last(), 0) == n || q == ts.len())
        }),
{
    let n = count_of(ts[p as int].skip(5));
    let (ko, q) = kids(ts, p + 1, n);
    let ops = ko + seq![AcOpView::End];
    let t = ts[p as int];
    reveal_strlit("kids ");
    reveal_strlit("loc ");
    reveal_strlit("numvert ");
    reveal_strlit("numsurf ");
    assert(t[0] == t.take(5)[0]);
    assert(!starts(t, "loc "@)) by {
        if starts(t, "loc "@) {
            assert(t.take(4)[0] == t[0]);
        }
    }
    assert(!starts(t, "numvert "@)) by {
        if starts(t, "numvert "@) {
            assert(t.take(8)[0] == t[0]);
        }
    }
    assert(!starts(t, "numsurf "@)) by {
        if starts(t, "numsurf "@) {
            assert(t.take(8)[0] == t[0]);
        }
    }
    assert(obj_body(ts, p, nv) == (ops, q));
    assert(ops.drop_last() =~= ko);
    lemma_top_kids(ts, p + 1, n, Seq::<AcOpView>::empty(), 0);
}

/// While flying and not paused, each control key holds its own control and
/// nothing else: Up or `w` thrust forward, Down or `s` backward, Left or `a`
/// and Right or `d` yaw, `i` and `k` pitch, `j` and `l` roll, Space fires;
/// `m`, `u`, `y`, `f`, `x` and `g` ask the world for the message, the nearest
/// enemy, the next target, the next weapon, warp and the autopilot; Esc or `q`
/// quits. The display switches stay as they were.
pub proof fn law_control_keys(i: InputState, t: Toggles, k: Key)
    requires
        !t.paused,
    ensures
        k.code == KeyCode::Up || is_char(k, 'w') ==> play_step(i, t, k) == (
            InputState { forward: true, ..i },
            t,
            PlayAction::Stay,
        ),
        k.code == KeyCode::Down || is_char(k, 's') ==> play_step(i, t, k) == (
            InputState { backward: true, ..i },
            t,
            PlayAction::Stay,
        ),
        k.code == KeyCode::Left || is_char(k, 'a') ==> play_step(i, t, k) == (
            InputState { yaw_left: true, ..i },
            t,
            PlayAction::Stay,
        ),
        k.code == KeyCode::Right || is_char(k, 'd') ==> play_step(i, t, k) == (
            InputState { yaw_right: true, ..i },
            t,
            PlayAction::Stay,
        ),
        is_char(k, 'i') ==> play_step(i, t, k) == (
            InputState { pitch_up: true, ..i },
            t,
            PlayAction::Stay,
        ),
        is_char(k, 'k') ==> play_step(i, t, k) == (
            InputState { pitch_down: true, ..i },
            t,
            PlayAction::Stay,
        ),
        is_char(k, 'j') ==> play_step(i, t, k) == (
            InputState { roll_left: true, ..i },
            t,
            PlayAction::Stay,
        ),
        is_char(k, 'l') ==> play_step(i, t, k) == (
            InputState { roll_right: true, ..i },
            t,
            PlayAction::Stay,
        ),
        is_char(k, ' ') ==> play_step(i, t, k) == (
            InputState { fire: true, ..i },
            t,
            PlayAction::Stay,
        ),
        is_char(k, 'm') ==> play_step(i, t, k) == (i, t, PlayAction::ToggleMessage),
        is_char(k, 'u') ==> play_step(i, t, k) == (i, t, PlayAction::LockNearest),
        is_char(k, 'y') ==> play_step(i, t, k) == (i, t, PlayAction::CycleTarget),
        is_char(k, 'f') ==> play_step(i, t, k) == (i, t, PlayAction::CycleWeapon),
        is_char(k, 'x') ==> play_step(i, t, k) == (i, t, PlayAction::ToggleWarp),
        is_char(k, 'g') ==> play_step(i, t, k) == (i, t, PlayAction::ToggleAutopilot),
        is_back(k) ==> play_step(i, t, k) == (i, t, PlayAction::Quit),
{
}

/// Each control is set only by its own keys, and each request to the world
/// comes only from its own key: thrust forward only from Up or `w`, fire
/// only from Space, the message only from `m`, and so on; pausing is switched
/// only by `p`, and Control-C alone interrupts.
pub proof fn law_control_sources(i: InputState, t: Toggles, k: Key)
    ensures
        play_step(i, t, k).0.forward != i.forward ==> k.code == KeyCode::Up || is_char(k, 'w'),
        play_step(i, t, k).0.backward != i.backward ==> k.code == KeyCode::Down || is_char(k, 's'),
        play_step(i, t, k).0.yaw_left != i.yaw_left ==> k.code == KeyCode::Left || is_char(k, 'a'),
        play_step(i, t, k).0.yaw_right != i.yaw_right ==> k.code == KeyCode::Right || is_char(
            k,
            'd',
        ),
        play_step(i, t, k).0.pitch_up != i.pitch_up ==> is_char(k, 'i'),
        play_step(i, t, k).0.pitch_down != i.pitch_down ==> is_char(k, 'k'),
        play_step(i, t, k).0.roll_left != i.roll_left ==> is_char(k, 'j'),
        play_step(i, t, k).0.roll_right != i.roll_right ==> is_char(k, 'l'),
        play_step(i, t, k).0.fire != i.fire ==> is_char(k, ' '),
        play_step(i, t, k).1.paused != t.paused ==> is_char(k, 'p'),
        play_step(i, t, k).2 == PlayAction::ToggleMessage ==> is_char(k, 'm'),
        play_step(i, t, k).2 == PlayAction::LockNearest ==> is_char(k, 'u'),
        play_step(i, t, k).2 == PlayAction::CycleTarget ==> is_char(k, 'y'),
        play_step(i, t, k).2 == PlayAction::CycleWeapon ==> is_char(k, 'f'),
        play_step(i, t, k).2 == PlayAction::ToggleWarp ==> is_char(k, 'x'),
        play_step(i, t, k).2 == PlayAction::ToggleAutopilot ==> is_char(k, 'g'),
        play_step(i, t, k).2 == PlayAction::Quit ==> is_back(k),
        play_step(i, t, k).2 == PlayAction::Interrupt <==> k.ctrl && is_char(k, 'c'),
{
}

/// `p` switches pausing, and while paused every other key but Control-C
/// leaves the controls and switches alone.
pub proof fn law_pause(i: InputState, t: Toggles, k: Key)
    ensures
        is_char(k, 'p') ==> play_step(i, t, k) == (
            i,
            Toggles { paused: !t.paused, ..t },
            PlayAction::Stay,
        ),
        t.paused && !is_char(k, 'p') ==> play_step(i, t, k).0 == i && play_step(i, t, k).1 == t,
{
}

/// The title menu: Up and Down (or `k` and `j`) move the highlight by one
/// within the menu; Enter or Space on the first entry starts a new game, on
/// the second opens the load menu when there are saves, on the third quits;
/// `n` starts a new game, `l` opens the load menu when there are saves, and
/// Esc or `q` quits.
pub proof fn law_title_keys(sel: nat, has_saves: bool, k: Key)
    requires
        !k.ctrl,
    ensures
        (k.code == KeyCode::Down || is_char(k, 'j')) && sel + 1 < TITLE_OPTIONS ==> title_step(
            sel,
            has_saves,
            k,
        ) == (TitleAction::Stay, sel + 1),
        (k.code == KeyCode::Up || is_char(k, 'k')) && sel > 0 ==> title_step(sel, has_saves, k) == (
            TitleAction::Stay,
            (sel - 1) as nat,
        ),
        is_select(k) && sel == 0 ==> title_step(sel, has_saves, k) == (TitleAction::NewGame, sel),
        is_select(k) && sel == 1 && has_saves ==> title_step(sel, has_saves, k) == (
            TitleAction::OpenLoadMenu,
            sel,
        ),
        is_select(k) && sel == 2 ==> title_step(sel, has_saves, k) == (TitleAction::Quit, sel),
        is_char(k, 'n') ==> title_step(sel, has_saves, k) == (TitleAction::NewGame, sel),
        is_char(k, 'l') && has_saves ==> title_step(sel, has_saves, k) == (
            TitleAction::OpenLoadMenu,
            sel,
        ),
        is_back(k) ==> title_step(sel, has_saves, k) == (TitleAction::Quit, sel),
        title_step(sel, has_saves, k).0 == TitleAction::OpenLoadMenu ==> has_saves,
{
}

/// The load menu of `n` slots: Up and Down (or `k` and `j`) move the
/// highlight by one among the slots; Enter or Space loads the highlighted
/// slot, a digit loads the slot it numbers, when there is one; Esc or `q`
/// goes back.
pub proof fn law_load_keys(sel: nat, n: nat, k: Key)
    ensures
        (k.code == KeyCode::Down || is_char(k, 'j')) && sel + 1 < n ==> load_step(sel, n, k) == (
            LoadAction::Stay,
            sel + 1,
        ),
        (k.code == KeyCode::Up || is_char(k, 'k')) && sel > 0 ==> load_step(sel, n, k) == (
            LoadAction::Stay,
            (sel - 1) as nat,
        ),
        is_select(k) && sel < n ==> load_step(sel, n, k) == (LoadAction::Load(sel as usize), sel),
        forall|d: char|
            '0' <= d <= '9' && is_char(k, d) && (d as nat - 0x30) < n ==> load_step(sel, n, k)
                == (LoadAction::Load((d as nat - 0x30) as usize), sel),
        is_back(k) ==> load_step(sel, n, k) == (LoadAction::Back, sel),
{
}

/// The actions that act on the event table and on what comes next: an
/// active `Enable` action switches on the event it names before the actions
/// after it run, `Disable` switches it off, `LoadMission` names the mission to
/// load, ahead of any that a later action names, and an inactive action does
/// nothing at all.
pub proof fn law_table_actions(evs: Seq<GameEvent>, acts: Seq<EventAction>, from: nat)
    requires
        acts.len() > 0,
    ensures
        ({
            let a = acts[0];
            let v = a.cvalue@;
            let rest = acts.drop_first();
            &&& !a.active ==> run_actions(evs, acts, from) == run_actions(evs, rest, from + 1)
            &&& a.active && a.kind == EventActionKind::Enable ==> run_actions(evs, acts, from)
                == run_actions(set_enabled(evs, v, true), rest, from + 1)
            &&& a.active && a.kind == EventActionKind::Disable ==> run_actions(evs, acts, from)
                == run_actions(set_enabled(evs, v, false), rest, from + 1)
            &&& a.active && a.kind == EventActionKind::LoadMission ==> run_actions(evs, acts, from)
                == ({
                let r = run_actions(evs, rest, from + 1);
                (r.0, r.1, Some(v))
            })
        }),
{
}

/// Switching an event on or off by name changes exactly the enabled flag of
/// the first event of that name (ignoring ASCII case) to what was asked, and
/// nothing when no event has that name.
pub proof fn law_set_enabled(evs: Seq<GameEvent>, name: Seq<char>, on: bool)
    ensures
        set_enabled(evs, name, on).len() == evs.len(),
        forall|j: int|
            0 <= j < evs.len() ==> #[trigger] set_enabled(evs, name, on)[j] == if event_named(
                evs,
                name,
            ) == Some(j as nat) {
                GameEvent { enabled: on, ..evs[j] }
            } else {
                evs[j]
            },
        event_named(evs, name) is None <==> forall|j: int|
            0 <= j < evs.len() ==> !matches_kw(#[trigger] evs[j].name@, name),
        forall|i: nat|
            event_named(evs, name) == Some(i) ==> i < evs.len() && matches_kw(evs[i as int].name@, name)
                && forall|j: int| 0 <= j < i ==> !matches_kw(#[trigger] evs[j].name@, name),
    decreases evs.len(),
{
    if evs.len() > 0 {
        law_set_enabled(evs.drop_first(), name, on);
        let r = evs.drop_first();
        assert forall|j: int| 0 <= j < r.len() implies #[trigger] evs[j + 1] == r[j] by {}
        if !matches_kw(evs[0].name@, name) {
            assert forall|j: int| 1 <= j < evs.len() implies evs[j] == r[j - 1] by {}
        }
    }
}

/// A message keeps its text but for each `\\` pair, which becomes a line
/// break: text without a backslash stays as it is, and a pair after such text
/// turns into one line break before the rest is read the same way.
pub proof fn law_unescape(a: Seq<char>, b: Seq<char>)
    requires
        forall|i: int| 0 <= i < a.len() ==> a[i] != '\\',
    ensures
        unescape(a) == a,
        unescape(a + seq!['\\', '\\'] + b) == a + seq!['\n'] + unescape(b),
    decreases a.len(),
{
    let bs = seq!['\\', '\\'];
    if a.len() == 0 {
        assert(a + bs + b =~= bs + b);
        assert((bs + b).skip(2) =~= b);
        assert(a + seq!['\n'] + unescape(b) =~= seq!['\n'] + unescape(b));
    } else {
        let r = a.drop_first();
        law_unescape(r, b);
        if a.len() >= 2 {
            assert(a[1] != '\\');
        }
        assert(a =~= seq![a[0]] + r);
        let whole = a + bs + b;
        assert(whole[0] == a[0]);
        assert(whole.drop_first() =~= r + bs + b);
        if a.len() == 1 {
            assert(whole[1] == '\\');
        } else {
            assert(whole[1] == a[1]);
        }
        assert(a + seq!['\n'] + unescape(b) =~= seq![a[0]] + (r + seq!['\n'] + unescape(b)));
    }
}

/// In an object's body a `loc` line gives the object's offset as the rest
/// of the line, and a `numvert k` line makes the next `k` lines (as many as
/// remain) the object's vertices, after which reading goes on with that many
/// vertices.
pub proof fn law_object_lines(ts: Seq<Seq<char>>, p: nat, nv: nat)
    requires
        p < ts.len(),
    ensures
        starts(ts[p as int], "loc "@) ==> obj_body(ts, p, nv).0 == seq![
            AcOpView::Loc(ts[p as int].skip(4)),
        ] + obj_body(ts, p + 1, nv).0,
        starts(ts[p as int], "numvert "@) ==> ({
            let k = min_nat(count_of(ts[p as int].skip(8)), (ts.len() - (p + 1)) as nat);
            obj_body(ts, p, nv).0 == seq![
                AcOpView::Verts(ts.subrange((p + 1) as int, (p + 1 + k) as int)),
            ] + obj_body(ts, p + 1 + k, k).0
        }),
{
    let t = ts[p as int];
    reveal_strlit("loc ");
    reveal_strlit("numvert ");
    if starts(t, "numvert "@) {
        assert(t.take(8)[0] == t[0]);
        if starts(t, "loc "@) {
            assert(t.take(4)[0] == t[0]);
        }
    }
}

/// The load menu tells a save's age from the seconds `d` since it was made:
/// under two minutes (or a time still to come) is "just now", then whole
/// minutes under an hour, whole hours under a day, and whole days after that.
pub proof fn law_age_text(timestamp: u64, now: u64)
    ensures
        now < timestamp + 120 ==> age_text(timestamp, now) == "just now"@,
        timestamp + 120 <= now < timestamp + 3600 ==> age_text(timestamp, now) == decimal(
            ((now - timestamp) / 60) as nat,
        ) + " min ago"@,
        timestamp + 3600 <= now < timestamp + 86400 ==> age_text(timestamp, now) == decimal(
            ((now - timestamp) / 3600) as nat,
        ) + " hr ago"@,
        timestamp + 86400 <= now ==> age_text(timestamp, now) == decimal(
            ((now - timestamp) / 86400) as nat,
        ) + " days ago"@,
{
    if now >= timestamp {
        let d = (now - timestamp) as int;
        vstd::arithmetic::div_mod::lemma_div_denominator(d, 60, 60);
        vstd::arithmetic::div_mod::lemma_div_denominator(d, 3600, 24);
        assert(d / 3600 / 24 == d / 86400);
    }
}

} // verus!
