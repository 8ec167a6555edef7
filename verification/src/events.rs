//! Mission events: what firing an event does. Effects on the event table
//! (enabling and disabling events) happen here; effects on the rest of the
//! world are handed back, in order, for the caller to carry out.

use vstd::prelude::*;
use crate::text::{chars_of, eq_ignore_ascii_case, matches_kw, push_char};
use crate::vocab::{EventActionKind, EventTrigger};

verus! {

pub struct EventAction {
    pub active: bool,
    pub kind: EventActionKind,
    pub ivalue: i32,
    pub cvalue: String,
}

pub struct GameEvent {
    pub name: String,
    /// Not yet fired.
    pub pending: bool,
    pub enabled: bool,
    pub trigger: EventTrigger,
    pub ivalue: i32,
    pub cvalue: String,
    pub actions: Vec<EventAction>,
}

/// What a fired event asks of the world outside the event table.
#[derive(Debug, PartialEq, Eq)]
pub enum Effect {
    /// Show this message.
    Message(String),
    HideTarget(String),
    UnhideTarget(String),
    /// Stop the player dead.
    StopPlayer,
    /// Move the named target to the event's position.
    MoveTarget(String),
    /// Move the player to the event's position.
    MovePlayer,
    /// Move the named planet to the event's position.
    MovePlanet(String),
    HidePlanet(String),
    UnhidePlanet(String),
    /// Switch the named target's side.
    Betray(String),
    /// An explosion at the event's position, sized by the value of the action
    /// of this index.
    Boom(usize),
}

pub enum EffectView {
    Message(Seq<char>),
    HideTarget(Seq<char>),
    UnhideTarget(Seq<char>),
    StopPlayer,
    MoveTarget(Seq<char>),
    MovePlayer,
    MovePlanet(Seq<char>),
    HidePlanet(Seq<char>),
    UnhidePlanet(Seq<char>),
    Betray(Seq<char>),
    Boom(nat),
}

pub open spec fn effect_view(e: Effect) -> EffectView {
    match e {
        Effect::Message(s) => EffectView::Message(s@),
        Effect::HideTarget(s) => EffectView::HideTarget(s@),
        Effect::UnhideTarget(s) => EffectView::UnhideTarget(s@),
        Effect::StopPlayer => EffectView::StopPlayer,
        Effect::MoveTarget(s) => EffectView::MoveTarget(s@),
        Effect::MovePlayer => EffectView::MovePlayer,
        Effect::MovePlanet(s) => EffectView::MovePlanet(s@),
        Effect::HidePlanet(s) => EffectView::HidePlanet(s@),
        Effect::UnhidePlanet(s) => EffectView::UnhidePlanet(s@),
        Effect::Betray(s) => EffectView::Betray(s@),
        Effect::Boom(i) => EffectView::Boom(i as nat),
    }
}

pub open spec fn effect_views(s: Seq<Effect>) -> Seq<EffectView> {
    s.map_values(|e: Effect| effect_view(e))
}

/// `s` with every `\\` pair (left to right) made a line break.
pub open spec fn unescape(s: Seq<char>) -> Seq<char>
    decreases s.len(),
{
    if s.len() < 2 {
        s
    } else if s[0] == '\\' && s[1] == '\\' {
        seq!['\n'] + unescape(s.skip(2))
    } else {
        seq![s[0]] + unescape(s.drop_first())
    }
}

/// Turns each `\\` pair of `s` into a line break.
pub fn unescape_message(s: &str) -> (r: String)
    ensures
        r@ == unescape(s@),
{
    let cs = chars_of(s);
    let mut r = String::new();
    let mut i: usize = 0;
    assert(cs@.skip(0) =~= cs@);
    while i < cs.len()
        invariant
            i <= cs@.len(),
            cs@ == s@,
            r@ + unescape(cs@.skip(i as int)) == unescape(s@),
        decreases cs@.len() - i,
    {
        let ghost rest = cs@.skip(i as int);
        if i + 1 < cs.len() && cs[i] == '\\' && cs[i + 1] == '\\' {
            let ghost before = r@;
            push_char(&mut r, '\n');
            assert(rest.skip(2) =~= cs@.skip(i + 2));
            assert(before + unescape(rest) =~= r@ + unescape(cs@.skip(i + 2)));
            i += 2;
        } else {
            let ghost before = r@;
            push_char(&mut r, cs[i]);
            assert(rest.drop_first() =~= cs@.skip(i + 1));
            assert(before + unescape(rest) =~= r@ + unescape(cs@.skip(i + 1)));
            i += 1;
        }
    }
    assert(unescape(cs@.skip(i as int)) =~= Seq::<char>::empty());
    assert(r@ + Seq::<char>::empty() =~= r@);
    r
}

/// The first event whose name is `name`, ignoring ASCII case.
pub open spec fn event_named(evs: Seq<GameEvent>, name: Seq<char>) -> Option<nat>
    decreases evs.len(),
{
    if evs.len() == 0 {
        None
    } else if matches_kw(evs[0].name@, name) {
        Some(0)
    } else {
        match event_named(evs.drop_first(), name) {
            Some(i) => Some(i + 1),
            None => None,
        }
    }
}

/// `evs` with the event named `name` (if any) enabled or disabled.
pub open spec fn set_enabled(evs: Seq<GameEvent>, name: Seq<char>, on: bool) -> Seq<GameEvent> {
    match event_named(evs, name) {
        Some(i) => if i < evs.len() {
            evs.update(i as int, GameEvent { enabled: on, ..evs[i as int] })
        } else {
            evs
        },
        None => evs,
    }
}

/// The effect of action `a` (the action of index `i`) on the world, if any.
pub open spec fn world_effect(a: EventAction, i: nat) -> Option<EffectView> {
    let v = a.cvalue@;
    match a.kind {
        EventActionKind::Message => Some(EffectView::Message(unescape(v))),
        EventActionKind::Hide => Some(EffectView::HideTarget(v)),
        EventActionKind::Unhide => Some(EffectView::UnhideTarget(v)),
        EventActionKind::Stop => Some(EffectView::StopPlayer),
        EventActionKind::MoveObject => Some(EffectView::MoveTarget(v)),
        EventActionKind::MovePlayer => Some(EffectView::MovePlayer),
        EventActionKind::MovePlanet => Some(EffectView::MovePlanet(v)),
        EventActionKind::HidePlanet => Some(EffectView::HidePlanet(v)),
        EventActionKind::UnhidePlanet => Some(EffectView::UnhidePlanet(v)),
        EventActionKind::Betray => Some(EffectView::Betray(v)),
        EventActionKind::Boom => Some(EffectView::Boom(i)),
        _ => None,
    }
}

/// Running the actions `acts` (of indices `from` on) against the event table
/// `evs`: the table afterwards, the world effects in order, and the mission
/// that the first active `LoadMission` action names. Every action runs,
/// those after a `LoadMission` too.
pub open spec fn run_actions(evs: Seq<GameEvent>, acts: Seq<EventAction>, from: nat) -> (
    Seq<GameEvent>,
    Seq<EffectView>,
    Option<Seq<char>>,
)
    decreases acts.len(),
{
    if acts.len() == 0 {
        (evs, Seq::empty(), None)
    } else {
        let a = acts[0];
        let rest = acts.drop_first();
        if !a.active {
            run_actions(evs, rest, from + 1)
        } else if a.kind == EventActionKind::LoadMission {
            let (e2, fx, _) = run_actions(evs, rest, from + 1);
            (e2, fx, Some(a.cvalue@))
        } else if a.kind == EventActionKind::Enable {
            run_actions(set_enabled(evs, a.cvalue@, true), rest, from + 1)
        } else if a.kind == EventActionKind::Disable {
            run_actions(set_enabled(evs, a.cvalue@, false), rest, from + 1)
        } else {
            let (e2, fx, l) = run_actions(evs, rest, from + 1);
            match world_effect(a, from) {
                Some(f) => (e2, seq![f] + fx, l),
                None => (e2, fx, l),
            }
        }
    }
}

/// Firing event `e` of `evs`: it stops pending, then its actions run.
pub open spec fn fired(evs: Seq<GameEvent>, e: nat) -> (
    Seq<GameEvent>,
    Seq<EffectView>,
    Option<Seq<char>>,
) {
    run_actions(evs.update(e as int, GameEvent { pending: false, ..evs[e as int] }), evs[e as int].actions@, 0)
}

pub open spec fn opt_str(o: Option<String>) -> Option<Seq<char>> {
    match o {
        Some(s) => Some(s@),
        None => None,
    }
}

/// What firing an event asks of the world.
pub struct Fired {
    pub effects: Vec<Effect>,
    /// The mission to load next: the one the first `LoadMission` action names.
    pub load: Option<String>,
}

fn find_event(evs: &Vec<GameEvent>, name: &str) -> (r: Option<usize>)
    ensures
        match r {
            Some(i) => event_named(evs@, name@) == Some(i as nat) && i < evs@.len(),
            None => event_named(evs@, name@) is None,
        },
{
    let mut i: usize = 0;
    assert(evs@.skip(0) =~= evs@);
    while i < evs.len()
        invariant
            i <= evs@.len(),
            event_named(evs@, name@) == match event_named(evs@.skip(i as int), name@) {
                Some(k) => Some((k + i) as nat),
                None => None,
            },
        decreases evs@.len() - i,
    {
        assert(evs@.skip(i as int)[0] == evs@[i as int]);
        assert(evs@.skip(i as int).drop_first() =~= evs@.skip(i + 1));
        if eq_ignore_ascii_case(evs[i].name.as_str(), name) {
            return Some(i);
        }
        i += 1;
    }
    None
}

fn set_event_enabled(evs: &mut Vec<GameEvent>, name: &str, on: bool)
    ensures
        final(evs)@ == set_enabled(old(evs)@, name@, on),
{
    match find_event(evs, name) {
        Some(i) => {
            let mut ev = evs.remove(i);
            ev.enabled = on;
            evs.insert(i, ev);
            assert(evs@ =~= set_enabled(old(evs)@, name@, on));
        },
        None => {},
    }
}

fn clone_str(s: &String) -> (r: String)
    ensures
        r@ == s@,
{
    s.clone()
}

/// Fires event `e`: it stops pending and all its actions run in order.
/// Enabling and disabling events happens on `evs`; the other actions come
/// back as effects, and the mission that the first `LoadMission` action
/// names comes back as the mission to load.
pub fn fire_event(evs: &mut Vec<GameEvent>, e: usize) -> (r: Fired)
    requires
        e < old(evs)@.len(),
    ensures
        final(evs)@ == fired(old(evs)@, e as nat).0,
        effect_views(r.effects@) == fired(old(evs)@, e as nat).1,
        opt_str(r.load) == fired(old(evs)@, e as nat).2,
{
    let ghost start = evs@;
    let mut ev = evs.remove(e);
    ev.pending = false;
    let actions = ev.actions;
    ev.actions = Vec::new();
    let ghost acts = actions@;
    let mut restored = GameEvent {
        name: ev.name,
        pending: false,
        enabled: ev.enabled,
        trigger: ev.trigger,
        ivalue: ev.ivalue,
        cvalue: ev.cvalue,
        actions,
    };
    evs.insert(e, restored);
    assert(evs@ =~= start.update(e as int, GameEvent { pending: false, ..start[e as int] }));
    let n = evs[e].actions.len();
    let mut effects: Vec<Effect> = Vec::new();
    let mut load: Option<String> = None;
    let mut i: usize = 0;
    assert(acts.skip(0) =~= acts);
    while i < n
        invariant
            i <= n,
            start == old(evs)@,
            e < evs@.len(),
            n == acts.len(),
            evs@[e as int].actions@ == acts,
            fired(start, e as nat) == ({
                let (e2, fx, l) = run_actions(evs@, acts.skip(i as int), i as nat);
                (e2, effect_views(effects@) + fx, match load {
                    Some(x) => Some(x@),
                    None => l,
                })
            }),
        decreases n - i,
    {
        let ghost rest = acts.skip(i as int);
        assert(rest[0] == acts[i as int]);
        assert(rest.drop_first() =~= acts.skip(i + 1));
        let active = evs[e].actions[i].active;
        let kind = evs[e].actions[i].kind;
        let v = clone_str(&evs[e].actions[i].cvalue);
        if active {
            if kind == EventActionKind::LoadMission {
                if load.is_none() {
                    load = Some(v);
                }
            } else if kind == EventActionKind::Enable || kind == EventActionKind::Disable {
                let on = kind == EventActionKind::Enable;
                let ghost before = evs@;
                set_event_enabled(evs, v.as_str(), on);
                proof {
                    let k = event_named(before, v@);
                    if let Some(j) = k {
                        if j as int == e as int {
                            assert(evs@[e as int].actions@ == acts);
                        }
                    }
                    assert(evs@[e as int].actions@ == acts);
                }
            } else {
                let fx: Option<Effect> = match kind {
                    EventActionKind::Message => Some(Effect::Message(unescape_message(v.as_str()))),
                    EventActionKind::Hide => Some(Effect::HideTarget(v)),
                    EventActionKind::Unhide => Some(Effect::UnhideTarget(v)),
                    EventActionKind::Stop => Some(Effect::StopPlayer),
                    EventActionKind::MoveObject => Some(Effect::MoveTarget(v)),
                    EventActionKind::MovePlayer => Some(Effect::MovePlayer),
                    EventActionKind::MovePlanet => Some(Effect::MovePlanet(v)),
                    EventActionKind::HidePlanet => Some(Effect::HidePlanet(v)),
                    EventActionKind::UnhidePlanet => Some(Effect::UnhidePlanet(v)),
                    EventActionKind::Betray => Some(Effect::Betray(v)),
                    EventActionKind::Boom => Some(Effect::Boom(i)),
                    _ => None,
                };
                match fx {
                    Some(f) => {
                        let ghost before = effects@;
                        let ghost fv = effect_view(f);
                        effects.push(f);
                        assert(effect_views(effects@) =~= effect_views(before).push(fv));
                        proof {
                            let (e2, fx2, l) = run_actions(evs@, acts.skip(i + 1), (i + 1) as nat);
                            assert(effect_views(before) + (seq![fv] + fx2) =~= effect_views(before).push(fv) + fx2);
                        }
                    },
                    None => {},
                }
            }
        }
        i += 1;
    }
    assert(acts.skip(n as int) =~= Seq::<EventAction>::empty());
    assert(effect_views(effects@) + Seq::<EffectView>::empty() =~= effect_views(effects@));
    Fired { effects, load }
}

proof fn lemma_run_len(evs: Seq<GameEvent>, acts: Seq<EventAction>, from: nat)
    ensures
        run_actions(evs, acts, from).0.len() == evs.len(),
    decreases acts.len(),
{
    if acts.len() > 0 {
        let a = acts[0];
        let rest = acts.drop_first();
        if !a.active || a.kind == EventActionKind::LoadMission {
            lemma_run_len(evs, rest, from + 1);
        } else if a.kind == EventActionKind::Enable {
            lemma_run_len(set_enabled(evs, a.cvalue@, true), rest, from + 1);
        } else if a.kind == EventActionKind::Disable {
            lemma_run_len(set_enabled(evs, a.cvalue@, false), rest, from + 1);
        } else {
            lemma_run_len(evs, rest, from + 1);
        }
    }
}

pub proof fn lemma_fired_len(evs: Seq<GameEvent>, e: nat)
    requires
        e < evs.len(),
    ensures
        fired(evs, e).0.len() == evs.len(),
{
    let u = evs.update(e as int, GameEvent { pending: false, ..evs[e as int] });
    lemma_run_len(u, evs[e as int].actions@, 0);
}

/// Whether event `ev` waits for the destruction of target `name`.
pub open spec fn awaits_destroy(ev: GameEvent, name: Seq<char>) -> bool {
    ev.pending && ev.enabled && ev.trigger == EventTrigger::Destroy && matches_kw(ev.cvalue@, name)
}

/// Effects `fx` marked as coming from event `i`.
pub open spec fn from_event(fx: Seq<EffectView>, i: nat) -> Seq<(nat, EffectView)> {
    fx.map_values(|f: EffectView| (i, f))
}

pub open spec fn tagged_views(s: Seq<(usize, Effect)>) -> Seq<(nat, EffectView)> {
    s.map_values(|p: (usize, Effect)| (p.0 as nat, effect_view(p.1)))
}

/// Going through events `i` to `n - 1` in order, firing each that waits for
/// the destruction of `name` (missions to load are ignored): the table
/// afterwards and the world effects in order, each with the index of the
/// event it comes from.
pub open spec fn destroy_run(evs: Seq<GameEvent>, name: Seq<char>, i: nat, n: nat) -> (
    Seq<GameEvent>,
    Seq<(nat, EffectView)>,
)
    decreases n - i,
{
    if i >= n || i >= evs.len() {
        (evs, Seq::empty())
    } else if awaits_destroy(evs[i as int], name) {
        let (e2, fx, _) = fired(evs, i);
        let (e3, fx2) = destroy_run(e2, name, i + 1, n);
        (e3, from_event(fx, i) + fx2)
    } else {
        destroy_run(evs, name, i + 1, n)
    }
}

/// Appends `fx` to `all`, each marked with event `i`.
fn append_from(all: &mut Vec<(usize, Effect)>, fx: Vec<Effect>, i: usize)
    ensures
        tagged_views(final(all)@) == tagged_views(old(all)@) + from_event(effect_views(fx@), i as nat),
{
    let ghost orig = effect_views(fx@);
    let ghost prev = tagged_views(all@);
    let mut fx = fx;
    let ghost mut k: int = 0;
    assert(orig.skip(0) =~= orig);
    assert(from_event(orig.take(0), i as nat) =~= Seq::<(nat, EffectView)>::empty());
    assert(prev + Seq::<(nat, EffectView)>::empty() =~= prev);
    while fx.len() > 0
        invariant
            0 <= k <= orig.len(),
            effect_views(fx@) == orig.skip(k),
            tagged_views(all@) == prev + from_event(orig.take(k), i as nat),
        decreases fx@.len(),
    {
        let ghost before = all@;
        assert(effect_views(fx@).len() == fx@.len());
        assert(k < orig.len());
        assert(effect_views(fx@)[0] == orig[k]);
        let ghost fb = fx@;
        let f = fx.remove(0);
        assert(fx@ =~= fb.drop_first());
        assert(effect_views(fx@) =~= effect_views(fb).drop_first());
        assert(effect_view(f) == orig[k]);
        all.push((i, f));
        assert(tagged_views(all@) =~= tagged_views(before).push((i as nat, orig[k])));
        assert(orig.take(k + 1) =~= orig.take(k).push(orig[k]));
        assert(from_event(orig.take(k + 1), i as nat) =~= from_event(orig.take(k), i as nat).push(
            (i as nat, orig[k]),
        ));
        proof {
            k = k + 1;
        }
        assert(effect_views(fx@) =~= orig.skip(k));
    }
    assert(orig.take(k) =~= orig);
}

/// Fires every event that waits for the destruction of target `target_name`,
/// in table order; missions they would load are ignored. Each effect comes
/// with the index of the event that asked for it.
pub fn notify_destroy(evs: &mut Vec<GameEvent>, target_name: &str) -> (fx: Vec<(usize, Effect)>)
    ensures
        final(evs)@ == destroy_run(old(evs)@, target_name@, 0, old(evs)@.len()).0,
        tagged_views(fx@) == destroy_run(old(evs)@, target_name@, 0, old(evs)@.len()).1,
{
    let ghost start = evs@;
    let n = evs.len();
    let mut all: Vec<(usize, Effect)> = Vec::new();
    let mut i: usize = 0;
    assert(tagged_views(all@) =~= Seq::<(nat, EffectView)>::empty());
    while i < n
        invariant
            i <= n,
            n == start.len(),
            evs@.len() == n,
            start == old(evs)@,
            destroy_run(start, target_name@, 0, n as nat) == ({
                let (e3, fx) = destroy_run(evs@, target_name@, i as nat, n as nat);
                (e3, tagged_views(all@) + fx)
            }),
        decreases n - i,
    {
        let ghost before = evs@;
        let hit = evs[i].pending && evs[i].enabled && evs[i].trigger == EventTrigger::Destroy
            && eq_ignore_ascii_case(evs[i].cvalue.as_str(), target_name);
        if hit {
            let r = fire_event(evs, i);
            proof {
                lemma_fired_len(before, i as nat);
            }
            let ghost prev = tagged_views(all@);
            let ghost fxv = from_event(effect_views(r.effects@), i as nat);
            append_from(&mut all, r.effects, i);
            proof {
                let (e3, rest) = destroy_run(evs@, target_name@, (i + 1) as nat, n as nat);
                assert(prev + (fxv + rest) =~= (prev + fxv) + rest);
            }
        }
        i += 1;
    }
    assert(tagged_views(all@) + Seq::<(nat, EffectView)>::empty() =~= tagged_views(all@));
    all
}

} // verus!
