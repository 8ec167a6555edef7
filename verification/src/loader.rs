//! The mission file's statements: each keyword at the top level starts a
//! statement, and each block statement's entries are gathered into what the
//! world needs from them. Where a value is a real number, its text is kept for
//! the caller to convert.

use vstd::prelude::*;
use crate::block::{
    Block, BlockKind, Entry, block_at, open_brace, entries_view, lemma_block_at, opt_view, read_block,
};
use crate::consts::{NPLAYER_WEAPONS, NWEAPONS};
use crate::numbers::{i32_text, parse_hex_u32, parse_i32, parse_u8, parse_usize, unsigned_text};
use crate::parser::{Parser, brace_message, eof_message, views};
use crate::text::{chars_of, eq_ignore_ascii_case, matches_kw, push_char};
use crate::vocab::{
    EventActionKind, EventTrigger, Strategy, action_named, parse_action_kind, parse_strategy,
    parse_trigger, strategy_named, trigger_named,
};

verus! {

pub type EntryView = (Seq<char>, Option<Seq<char>>);

/// The argument of the last entry whose key is `kw`.
pub open spec fn last_arg(es: Seq<EntryView>, kw: Seq<char>) -> Option<Seq<char>>
    decreases es.len(),
{
    if es.len() == 0 {
        None
    } else if matches_kw(es.last().0, kw) && es.last().1 is Some {
        es.last().1
    } else {
        last_arg(es.drop_last(), kw)
    }
}

/// The arguments of all entries whose key is `kw`, in order.
pub open spec fn all_args(es: Seq<EntryView>, kw: Seq<char>) -> Seq<Seq<char>>
    decreases es.len(),
{
    if es.len() == 0 {
        Seq::empty()
    } else if matches_kw(es.last().0, kw) && es.last().1 is Some {
        all_args(es.drop_last(), kw).push(es.last().1.unwrap())
    } else {
        all_args(es.drop_last(), kw)
    }
}

/// Whether some entry's key is `kw`.
pub open spec fn has_key(es: Seq<EntryView>, kw: Seq<char>) -> bool {
    exists|i: int| 0 <= i < es.len() && matches_kw(#[trigger] es[i].0, kw)
}

/// `s.parse::<i32>().unwrap_or(0)`.
pub open spec fn int_or_zero(s: Seq<char>) -> int {
    match i32_text(s) {
        Some(v) => v,
        None => 0,
    }
}

pub fn find_last_arg(es: &Vec<Entry>, kw: &str) -> (r: Option<String>)
    ensures
        opt_view(r) == last_arg(entries_view(es@), kw@),
{
    let ghost ev = entries_view(es@);
    let mut cur: Option<String> = None;
    let mut i: usize = 0;
    while i < es.len()
        invariant
            i <= es@.len(),
            ev == entries_view(es@),
            opt_view(cur) == last_arg(ev.take(i as int), kw@),
        decreases es@.len() - i,
    {
        assert(ev.take(i + 1).drop_last() =~= ev.take(i as int));
        assert(ev.take(i + 1).last() == ev[i as int]);
        if eq_ignore_ascii_case(es[i].key.as_str(), kw) {
            match &es[i].arg {
                Some(a) => {
                    cur = Some(a.clone());
                },
                None => {},
            }
        }
        i += 1;
    }
    assert(ev.take(es@.len() as int) =~= ev);
    cur
}

pub fn collect_args(es: &Vec<Entry>, kw: &str) -> (r: Vec<String>)
    ensures
        views(r@) == all_args(entries_view(es@), kw@),
{
    let ghost ev = entries_view(es@);
    let mut out: Vec<String> = Vec::new();
    let mut i: usize = 0;
    while i < es.len()
        invariant
            i <= es@.len(),
            ev == entries_view(es@),
            views(out@) == all_args(ev.take(i as int), kw@),
        decreases es@.len() - i,
    {
        assert(ev.take(i + 1).drop_last() =~= ev.take(i as int));
        assert(ev.take(i + 1).last() == ev[i as int]);
        if eq_ignore_ascii_case(es[i].key.as_str(), kw) {
            match &es[i].arg {
                Some(a) => {
                    let ghost o = views(out@);
                    out.push(a.clone());
                    assert(views(out@) =~= o.push(a@));
                },
                None => {},
            }
        }
        i += 1;
    }
    assert(ev.take(es@.len() as int) =~= ev);
    out
}

pub fn any_key(es: &Vec<Entry>, kw: &str) -> (r: bool)
    ensures
        r == has_key(entries_view(es@), kw@),
{
    let ghost ev = entries_view(es@);
    let mut i: usize = 0;
    while i < es.len()
        invariant
            i <= es@.len(),
            ev == entries_view(es@),
            forall|j: int| 0 <= j < i ==> !matches_kw(#[trigger] ev[j].0, kw@),
        decreases es@.len() - i,
    {
        assert(ev[i as int].0 == es@[i as int].key@);
        if eq_ignore_ascii_case(es[i].key.as_str(), kw) {
            assert(matches_kw(ev[i as int].0, kw@));
            return true;
        }
        i += 1;
    }
    false
}

/// What an `object` block sets on a new target; fields left `None` keep the
/// target's defaults.
pub struct ObjectSpec {
    pub name: Option<String>,
    /// Every model named, in order; the target shows the last one.
    pub models: Vec<String>,
    pub score: Option<i32>,
    pub strategy: Option<Strategy>,
    pub hidden: bool,
    pub invisible: bool,
    pub friendly: bool,
    pub weapon: Option<usize>,
    pub maxshields: Option<String>,
    pub shieldregen: Option<String>,
    pub turnrate: Option<String>,
    pub speed: Option<String>,
    /// Whether the block's closing `}` was found.
    pub complete: bool,
}

/// The weapon an object's `weapon` word names: its number, or the first enemy
/// weapon when it is no number, and at most the last weapon.
pub open spec fn weapon_choice(a: Seq<char>) -> nat {
    let w = match unsigned_text(a, 10, usize::MAX as nat) {
        Some(v) => v,
        None => NPLAYER_WEAPONS as nat,
    };
    if w < (NWEAPONS - 1) as nat {
        w
    } else {
        (NWEAPONS - 1) as nat
    }
}

pub open spec fn opt_int(o: Option<i32>) -> Option<int> {
    match o {
        Some(v) => Some(v as int),
        None => None,
    }
}

pub open spec fn opt_nat(o: Option<usize>) -> Option<nat> {
    match o {
        Some(v) => Some(v as nat),
        None => None,
    }
}

/// The object statement that entries `es` describe.
pub open spec fn object_matches(o: ObjectSpec, es: Seq<EntryView>) -> bool {
    &&& opt_view(o.name) == last_arg(es, "name"@)
    &&& views(o.models@) == all_args(es, "model"@)
    &&& opt_int(o.score) == match last_arg(es, "score"@) {
        Some(a) => Some(int_or_zero(a)),
        None => None,
    }
    &&& o.strategy == match last_arg(es, "strategy"@) {
        Some(a) => Some(strategy_named(a)),
        None => None,
    }
    &&& o.hidden == has_key(es, "hidden"@)
    &&& o.invisible == has_key(es, "invisible"@)
    &&& o.friendly == has_key(es, "friendly"@)
    &&& opt_nat(o.weapon) == match last_arg(es, "weapon"@) {
        Some(a) => Some(weapon_choice(a)),
        None => None,
    }
    &&& opt_view(o.maxshields) == last_arg(es, "maxshields"@)
    &&& opt_view(o.shieldregen) == last_arg(es, "shieldregen"@)
    &&& opt_view(o.turnrate) == last_arg(es, "turnrate"@)
    &&& opt_view(o.speed) == last_arg(es, "speed"@)
}

/// Reads an `object` block's body (its `{` already read).
pub fn read_object(parser: &mut Parser) -> (o: ObjectSpec)
    ensures
        final(parser).dir() == old(parser).dir(),
        object_matches(o, block_at(BlockKind::Object, old(parser)@).0),
        o.complete == block_at(BlockKind::Object, old(parser)@).1,
        final(parser)@ == old(parser)@.skip(block_at(BlockKind::Object, old(parser)@).2 as int),
{
    let b = read_block(parser, BlockKind::Object);
    let es = &b.entries;
    let score = match find_last_arg(es, "score") {
        Some(a) => match parse_i32(a.as_str()) {
            Some(v) => Some(v),
            None => Some(0),
        },
        None => None,
    };
    let strategy = match find_last_arg(es, "strategy") {
        Some(a) => Some(parse_strategy(a.as_str())),
        None => None,
    };
    let weapon = match find_last_arg(es, "weapon") {
        Some(a) => {
            let w = match parse_usize(a.as_str()) {
                Some(v) => v,
                None => NPLAYER_WEAPONS,
            };
            Some(if w < NWEAPONS - 1 { w } else { NWEAPONS - 1 })
        },
        None => None,
    };
    ObjectSpec {
        name: find_last_arg(es, "name"),
        models: collect_args(es, "model"),
        score,
        strategy,
        hidden: any_key(es, "hidden"),
        invisible: any_key(es, "invisible"),
        friendly: any_key(es, "friendly"),
        weapon,
        maxshields: find_last_arg(es, "maxshields"),
        shieldregen: find_last_arg(es, "shieldregen"),
        turnrate: find_last_arg(es, "turnrate"),
        speed: find_last_arg(es, "speed"),
        complete: b.closed,
    }
}

/// One action of an event statement.
pub struct ActionSpec {
    pub kind: EventActionKind,
    /// The action's value as written.
    pub cvalue: String,
    /// The value read as an `i32`, or 0.
    pub ivalue: i32,
}

/// What an `event` block sets on a new event.
pub struct EventSpec {
    pub name: String,
    pub trigger: EventTrigger,
    pub enabled: bool,
    /// The trigger's value as written.
    pub cvalue: String,
    /// The trigger's value read as an `i32`, or 0.
    pub ivalue: i32,
    pub actions: Vec<ActionSpec>,
    /// Whether the block's closing `}` was found.
    pub complete: bool,
}

/// The state of an event statement while its entries are read: a `value`
/// belongs to the trigger until an `action` has been named after the last
/// `trigger`, and to the last action from then on.
pub struct EventModel {
    pub name: Seq<char>,
    pub trigger: EventTrigger,
    pub enabled: bool,
    pub value: Seq<char>,
    pub actions: Seq<(EventActionKind, Seq<char>)>,
    pub on_action: bool,
}

pub open spec fn event_start() -> EventModel {
    EventModel {
        name: Seq::empty(),
        trigger: EventTrigger::Null,
        enabled: true,
        value: Seq::empty(),
        actions: Seq::empty(),
        on_action: false,
    }
}

/// The effect of one entry on an event statement.
pub open spec fn event_step(m: EventModel, e: EntryView) -> EventModel {
    let k = e.0;
    let a = match e.1 {
        Some(a) => a,
        None => Seq::empty(),
    };
    if matches_kw(k, "name"@) && e.1 is Some {
        EventModel { name: a, ..m }
    } else if matches_kw(k, "trigger"@) && e.1 is Some {
        EventModel { trigger: trigger_named(a), on_action: false, ..m }
    } else if matches_kw(k, "action"@) && e.1 is Some {
        EventModel {
            actions: m.actions.push((action_named(a), Seq::empty())),
            on_action: true,
            ..m
        }
    } else if matches_kw(k, "enabled"@) {
        EventModel { enabled: true, ..m }
    } else if matches_kw(k, "disabled"@) {
        EventModel { enabled: false, ..m }
    } else if matches_kw(k, "value"@) && e.1 is Some {
        if !m.on_action {
            EventModel { value: a, ..m }
        } else if m.actions.len() > 0 {
            let last = m.actions.len() - 1;
            EventModel { actions: m.actions.update(last, (m.actions[last].0, a)), ..m }
        } else {
            m
        }
    } else {
        m
    }
}

/// The event statement that entries `es` describe.
pub open spec fn event_fold(es: Seq<EntryView>) -> EventModel
    decreases es.len(),
{
    if es.len() == 0 {
        event_start()
    } else {
        event_step(event_fold(es.drop_last()), es.last())
    }
}

pub open spec fn action_views(acts: Seq<ActionSpec>) -> Seq<(EventActionKind, Seq<char>)> {
    acts.map_values(|x: ActionSpec| (x.kind, x.cvalue@))
}

pub open spec fn action_ints_ok(acts: Seq<ActionSpec>) -> bool {
    forall|j: int| 0 <= j < acts.len() ==> #[trigger] acts[j].ivalue as int == int_or_zero(
        acts[j].cvalue@,
    )
}

/// `ev` is what model `m` describes.
pub open spec fn event_matches(ev: EventSpec, m: EventModel) -> bool {
    &&& ev.name@ == m.name
    &&& ev.trigger == m.trigger
    &&& ev.enabled == m.enabled
    &&& ev.cvalue@ == m.value
    &&& ev.ivalue as int == int_or_zero(m.value)
    &&& action_views(ev.actions@) == m.actions
    &&& action_ints_ok(ev.actions@)
}

fn int_value(s: &str) -> (v: i32)
    ensures
        v as int == int_or_zero(s@),
{
    match parse_i32(s) {
        Some(v) => v,
        None => 0,
    }
}

/// Reads an `event` block's body (its `{` already read).
pub fn read_event(parser: &mut Parser) -> (ev: EventSpec)
    ensures
        final(parser).dir() == old(parser).dir(),
        event_matches(ev, event_fold(block_at(BlockKind::Event, old(parser)@).0)),
        ev.complete == block_at(BlockKind::Event, old(parser)@).1,
        final(parser)@ == old(parser)@.skip(block_at(BlockKind::Event, old(parser)@).2 as int),
{
    let b = read_block(parser, BlockKind::Event);
    let ghost es = entries_view(b.entries@);
    let mut ev = EventSpec {
        name: String::new(),
        trigger: EventTrigger::Null,
        enabled: true,
        cvalue: String::new(),
        ivalue: 0,
        actions: Vec::new(),
        complete: b.closed,
    };
    let mut on_action = false;
    proof {
        assert(i32_text(Seq::<char>::empty()) is None);
        assert(action_views(ev.actions@) =~= Seq::empty());
        assert(es.take(0) =~= Seq::<EntryView>::empty());
    }
    let mut i: usize = 0;
    while i < b.entries.len()
        invariant
            i <= b.entries@.len(),
            es == entries_view(b.entries@),
            ev.complete == b.closed,
            event_matches(ev, event_fold(es.take(i as int))),
            on_action == event_fold(es.take(i as int)).on_action,
        decreases b.entries@.len() - i,
    {
        let ghost m = event_fold(es.take(i as int));
        assert(es.take(i + 1).drop_last() =~= es.take(i as int));
        assert(es.take(i + 1).last() == es[i as int]);
        let e = &b.entries[i];
        assert(es[i as int] == (e.key@, opt_view(e.arg)));
        let k = e.key.as_str();
        match &e.arg {
            Some(a) => {
                if eq_ignore_ascii_case(k, "name") {
                    ev.name = a.clone();
                } else if eq_ignore_ascii_case(k, "trigger") {
                    ev.trigger = parse_trigger(a.as_str());
                    on_action = false;
                } else if eq_ignore_ascii_case(k, "action") {
                    let ghost pa = ev.actions@;
                    ev.actions.push(
                        ActionSpec {
                            kind: parse_action_kind(a.as_str()),
                            cvalue: String::new(),
                            ivalue: 0,
                        },
                    );
                    on_action = true;
                    proof {
                        assert(action_views(ev.actions@) =~= action_views(pa).push(
                            (action_named(a@), Seq::empty()),
                        ));
                        assert(i32_text(Seq::<char>::empty()) is None);
                    }
                } else if eq_ignore_ascii_case(k, "enabled") {
                    ev.enabled = true;
                } else if eq_ignore_ascii_case(k, "disabled") {
                    ev.enabled = false;
                } else if eq_ignore_ascii_case(k, "value") {
                    if !on_action {
                        ev.cvalue = a.clone();
                        ev.ivalue = int_value(a.as_str());
                    } else if ev.actions.len() > 0 {
                        let last = ev.actions.len() - 1;
                        let kind = ev.actions[last].kind;
                        let ghost pa = ev.actions@;
                        ev.actions.set(
                            last,
                            ActionSpec { kind, cvalue: a.clone(), ivalue: int_value(a.as_str()) },
                        );
                        proof {
                            assert(action_views(ev.actions@) =~= action_views(pa).update(
                                last as int,
                                (kind, a@),
                            ));
                        }
                    }
                }
            },
            None => {
                if eq_ignore_ascii_case(k, "enabled") {
                    ev.enabled = true;
                } else if eq_ignore_ascii_case(k, "disabled") {
                    ev.enabled = false;
                }
            },
        }
        i += 1;
    }
    assert(es.take(b.entries@.len() as int) =~= es);
    ev
}

/// One step of a `planet` statement, applied in order.
#[derive(Debug, PartialEq, Eq)]
pub enum PlanetOp {
    /// Select the planet of this name (no planet when none has it).
    Select(String),
    /// Give the selected planet a new name.
    Rename(String),
    /// Move the selected planet to the cursor.
    Reposition,
    /// Hide the selected planet.
    Hide,
    /// The selected planet's oblicity, as written.
    Oblicity(String),
    /// The selected planet's radius in km, as written.
    Radius(String),
}

pub enum PlanetOpView {
    Select(Seq<char>),
    Rename(Seq<char>),
    Reposition,
    Hide,
    Oblicity(Seq<char>),
    Radius(Seq<char>),
}

pub open spec fn planet_op_view(op: PlanetOp) -> PlanetOpView {
    match op {
        PlanetOp::Select(s) => PlanetOpView::Select(s@),
        PlanetOp::Rename(s) => PlanetOpView::Rename(s@),
        PlanetOp::Reposition => PlanetOpView::Reposition,
        PlanetOp::Hide => PlanetOpView::Hide,
        PlanetOp::Oblicity(s) => PlanetOpView::Oblicity(s@),
        PlanetOp::Radius(s) => PlanetOpView::Radius(s@),
    }
}

/// The step that one entry of a `planet` block stands for; `map` and unknown
/// keys stand for none.
pub open spec fn planet_step(e: EntryView) -> Seq<PlanetOpView> {
    let k = e.0;
    match e.1 {
        Some(a) => if matches_kw(k, "name"@) {
            seq![PlanetOpView::Select(a)]
        } else if matches_kw(k, "newname"@) {
            seq![PlanetOpView::Rename(a)]
        } else if matches_kw(k, "oblicity"@) {
            seq![PlanetOpView::Oblicity(a)]
        } else if matches_kw(k, "radius"@) {
            seq![PlanetOpView::Radius(a)]
        } else {
            Seq::empty()
        },
        None => if matches_kw(k, "reposition"@) {
            seq![PlanetOpView::Reposition]
        } else if matches_kw(k, "hidden"@) {
            seq![PlanetOpView::Hide]
        } else {
            Seq::empty()
        },
    }
}

/// The steps of a `planet` statement with entries `es`.
pub open spec fn planet_ops(es: Seq<EntryView>) -> Seq<PlanetOpView>
    decreases es.len(),
{
    if es.len() == 0 {
        Seq::empty()
    } else {
        planet_ops(es.drop_last()) + planet_step(es.last())
    }
}

pub open spec fn planet_views(ops: Seq<PlanetOp>) -> Seq<PlanetOpView> {
    ops.map_values(|op: PlanetOp| planet_op_view(op))
}

/// The steps of a `planet` block, and whether its closing `}` was found.
pub struct PlanetSpec {
    pub ops: Vec<PlanetOp>,
    pub complete: bool,
}

/// Reads a `planet` block's body (its `{` already read).
pub fn read_planet(parser: &mut Parser) -> (p: PlanetSpec)
    ensures
        final(parser).dir() == old(parser).dir(),
        planet_views(p.ops@) == planet_ops(block_at(BlockKind::Planet, old(parser)@).0),
        p.complete == block_at(BlockKind::Planet, old(parser)@).1,
        final(parser)@ == old(parser)@.skip(block_at(BlockKind::Planet, old(parser)@).2 as int),
{
    let b = read_block(parser, BlockKind::Planet);
    let ghost es = entries_view(b.entries@);
    let mut ops: Vec<PlanetOp> = Vec::new();
    let mut i: usize = 0;
    assert(planet_views(ops@) =~= planet_ops(es.take(0)));
    while i < b.entries.len()
        invariant
            i <= b.entries@.len(),
            es == entries_view(b.entries@),
            planet_views(ops@) == planet_ops(es.take(i as int)),
        decreases b.entries@.len() - i,
    {
        assert(es.take(i + 1).drop_last() =~= es.take(i as int));
        assert(es.take(i + 1).last() == es[i as int]);
        let e = &b.entries[i];
        assert(es[i as int] == (e.key@, opt_view(e.arg)));
        let k = e.key.as_str();
        let ghost before = planet_views(ops@);
        let op: Option<PlanetOp> = match &e.arg {
            Some(a) => if eq_ignore_ascii_case(k, "name") {
                Some(PlanetOp::Select(a.clone()))
            } else if eq_ignore_ascii_case(k, "newname") {
                Some(PlanetOp::Rename(a.clone()))
            } else if eq_ignore_ascii_case(k, "oblicity") {
                Some(PlanetOp::Oblicity(a.clone()))
            } else if eq_ignore_ascii_case(k, "radius") {
                Some(PlanetOp::Radius(a.clone()))
            } else {
                None
            },
            None => if eq_ignore_ascii_case(k, "reposition") {
                Some(PlanetOp::Reposition)
            } else if eq_ignore_ascii_case(k, "hidden") {
                Some(PlanetOp::Hide)
            } else {
                None
            },
        };
        match op {
            Some(op) => {
                let ghost v = planet_op_view(op);
                ops.push(op);
                assert(planet_step(es[i as int]) =~= seq![v]);
                assert(planet_views(ops@) =~= before + seq![v]);
            },
            None => {
                assert(planet_step(es[i as int]) =~= Seq::<PlanetOpView>::empty());
                assert(before + Seq::<PlanetOpView>::empty() =~= before);
            },
        }
        i += 1;
    }
    assert(es.take(b.entries@.len() as int) =~= es);
    PlanetSpec { ops, complete: b.closed }
}

/// `s` without its leading `0x` prefixes (`str::trim_start_matches("0x")`).
pub open spec fn trim_0x(s: Seq<char>) -> Seq<char>
    decreases s.len(),
{
    if s.len() >= 2 && s[0] == '0' && s[1] == 'x' {
        trim_0x(s.skip(2))
    } else {
        s
    }
}

/// The red, green and blue bytes of a `0xRRGGBB` colour word; a word that is
/// no hexadecimal number gives black.
pub open spec fn color_of(a: Seq<char>) -> (u8, u8, u8) {
    let c: nat = match unsigned_text(trim_0x(a), 16, u32::MAX as nat) {
        Some(v) => v,
        None => 0,
    };
    (((c / 65536) % 256) as u8, ((c / 256) % 256) as u8, (c % 256) as u8)
}

/// Reads a colour word.
pub fn parse_color(a: &str) -> (rgb: (u8, u8, u8))
    ensures
        rgb == color_of(a@),
{
    let cs = chars_of(a);
    let mut i: usize = 0;
    assert(cs@.skip(0) =~= cs@);
    while cs.len() - i >= 2 && cs[i] == '0' && cs[i + 1] == 'x'
        invariant
            i <= cs@.len(),
            cs@ == a@,
            trim_0x(cs@.skip(i as int)) == trim_0x(a@),
        decreases cs@.len() - i,
    {
        assert(cs@.skip(i as int).skip(2) =~= cs@.skip(i + 2));
        i += 2;
    }
    let ghost rest = cs@.skip(i as int);
    assert(trim_0x(rest) == rest);
    let mut t = String::new();
    let mut j = i;
    while j < cs.len()
        invariant
            i <= j <= cs@.len(),
            t@ == cs@.subrange(i as int, j as int),
        decreases cs@.len() - j,
    {
        push_char(&mut t, cs[j]);
        j += 1;
        assert(t@ =~= cs@.subrange(i as int, j as int));
    }
    assert(t@ =~= rest);
    let c: u32 = match parse_hex_u32(t.as_str()) {
        Some(v) => v,
        None => 0,
    };
    (((c / 65536) % 256) as u8, ((c / 256) % 256) as u8, (c % 256) as u8)
}

/// One step of a `weapon` statement, applied in order.
#[derive(Debug, PartialEq, Eq)]
pub enum WeaponOp {
    /// Select the weapon of this number (none when it is out of range).
    Index(usize),
    Name(String),
    /// Missile speed in km per second, as written.
    Speed(String),
    /// Damage, as written.
    Yield(String),
    /// Seconds between shots, as written.
    Idle(String),
    /// Seconds a missile lives, as written.
    Expire(String),
    Renderer(u8),
    Color(u8, u8, u8),
}

pub enum WeaponOpView {
    Index(nat),
    Name(Seq<char>),
    Speed(Seq<char>),
    Yield(Seq<char>),
    Idle(Seq<char>),
    Expire(Seq<char>),
    Renderer(u8),
    Color(u8, u8, u8),
}

pub open spec fn weapon_op_view(op: WeaponOp) -> WeaponOpView {
    match op {
        WeaponOp::Index(i) => WeaponOpView::Index(i as nat),
        WeaponOp::Name(s) => WeaponOpView::Name(s@),
        WeaponOp::Speed(s) => WeaponOpView::Speed(s@),
        WeaponOp::Yield(s) => WeaponOpView::Yield(s@),
        WeaponOp::Idle(s) => WeaponOpView::Idle(s@),
        WeaponOp::Expire(s) => WeaponOpView::Expire(s@),
        WeaponOp::Renderer(r) => WeaponOpView::Renderer(r),
        WeaponOp::Color(r, g, b) => WeaponOpView::Color(r, g, b),
    }
}

/// The step that one entry of a `weapon` block stands for: numbers that do not
/// parse count as 0, and unknown keys stand for no step.
pub open spec fn weapon_step(e: EntryView) -> Seq<WeaponOpView> {
    let k = e.0;
    match e.1 {
        Some(a) => if matches_kw(k, "index"@) {
            seq![WeaponOpView::Index(match unsigned_text(a, 10, usize::MAX as nat) {
                Some(v) => v,
                None => 0,
            })]
        } else if matches_kw(k, "name"@) {
            seq![WeaponOpView::Name(a)]
        } else if matches_kw(k, "speed"@) {
            seq![WeaponOpView::Speed(a)]
        } else if matches_kw(k, "yield"@) {
            seq![WeaponOpView::Yield(a)]
        } else if matches_kw(k, "idle"@) {
            seq![WeaponOpView::Idle(a)]
        } else if matches_kw(k, "expire"@) {
            seq![WeaponOpView::Expire(a)]
        } else if matches_kw(k, "renderer"@) {
            seq![WeaponOpView::Renderer(match unsigned_text(a, 10, u8::MAX as nat) {
                Some(v) => v as u8,
                None => 0,
            })]
        } else if matches_kw(k, "color"@) {
            let (r, g, b) = color_of(a);
            seq![WeaponOpView::Color(r, g, b)]
        } else {
            Seq::empty()
        },
        None => Seq::empty(),
    }
}

pub open spec fn weapon_ops(es: Seq<EntryView>) -> Seq<WeaponOpView>
    decreases es.len(),
{
    if es.len() == 0 {
        Seq::empty()
    } else {
        weapon_ops(es.drop_last()) + weapon_step(es.last())
    }
}

pub open spec fn weapon_views(ops: Seq<WeaponOp>) -> Seq<WeaponOpView> {
    ops.map_values(|op: WeaponOp| weapon_op_view(op))
}

/// The steps of a `weapon` block, and whether its closing `}` was found.
pub struct WeaponSpec {
    pub ops: Vec<WeaponOp>,
    pub complete: bool,
}

fn weapon_op_of(k: &str, a: &String) -> (op: Option<WeaponOp>)
    ensures
        match op {
            Some(op) => weapon_step((k@, Some(a@))) == seq![weapon_op_view(op)],
            None => weapon_step((k@, Some(a@))) == Seq::<WeaponOpView>::empty(),
        },
{
    if eq_ignore_ascii_case(k, "index") {
        Some(WeaponOp::Index(match parse_usize(a.as_str()) {
            Some(v) => v,
            None => 0,
        }))
    } else if eq_ignore_ascii_case(k, "name") {
        Some(WeaponOp::Name(a.clone()))
    } else if eq_ignore_ascii_case(k, "speed") {
        Some(WeaponOp::Speed(a.clone()))
    } else if eq_ignore_ascii_case(k, "yield") {
        Some(WeaponOp::Yield(a.clone()))
    } else if eq_ignore_ascii_case(k, "idle") {
        Some(WeaponOp::Idle(a.clone()))
    } else if eq_ignore_ascii_case(k, "expire") {
        Some(WeaponOp::Expire(a.clone()))
    } else if eq_ignore_ascii_case(k, "renderer") {
        Some(WeaponOp::Renderer(match parse_u8(a.as_str()) {
            Some(v) => v,
            None => 0,
        }))
    } else if eq_ignore_ascii_case(k, "color") {
        let (r, g, b) = parse_color(a.as_str());
        Some(WeaponOp::Color(r, g, b))
    } else {
        None
    }
}

/// Reads a `weapon` block's body (its `{` already read).
pub fn read_weapon(parser: &mut Parser) -> (w: WeaponSpec)
    ensures
        final(parser).dir() == old(parser).dir(),
        weapon_views(w.ops@) == weapon_ops(block_at(BlockKind::Weapon, old(parser)@).0),
        w.complete == block_at(BlockKind::Weapon, old(parser)@).1,
        final(parser)@ == old(parser)@.skip(block_at(BlockKind::Weapon, old(parser)@).2 as int),
{
    let b = read_block(parser, BlockKind::Weapon);
    let ghost es = entries_view(b.entries@);
    let mut ops: Vec<WeaponOp> = Vec::new();
    let mut i: usize = 0;
    assert(weapon_views(ops@) =~= weapon_ops(es.take(0)));
    while i < b.entries.len()
        invariant
            i <= b.entries@.len(),
            es == entries_view(b.entries@),
            weapon_views(ops@) == weapon_ops(es.take(i as int)),
        decreases b.entries@.len() - i,
    {
        assert(es.take(i + 1).drop_last() =~= es.take(i as int));
        assert(es.take(i + 1).last() == es[i as int]);
        let e = &b.entries[i];
        assert(es[i as int] == (e.key@, opt_view(e.arg)));
        let ghost before = weapon_views(ops@);
        let op = match &e.arg {
            Some(a) => weapon_op_of(e.key.as_str(), a),
            None => None,
        };
        match op {
            Some(op) => {
                let ghost v = weapon_op_view(op);
                ops.push(op);
                assert(weapon_views(ops@) =~= before + seq![v]);
            },
            None => {
                assert(weapon_step(es[i as int]) =~= Seq::<WeaponOpView>::empty());
                assert(before + Seq::<WeaponOpView>::empty() =~= before);
            },
        }
        i += 1;
    }
    assert(es.take(b.entries@.len() as int) =~= es);
    WeaponSpec { ops, complete: b.closed }
}

/// One token of a `cursor` block.
#[derive(Debug, PartialEq, Eq)]
pub enum CursorItem {
    /// A number of km for the next axis: `relative` when written with a sign,
    /// in which case it moves the cursor rather than placing it.
    Number { relative: bool, text: String },
    /// The name of a planet or object to move the cursor to.
    Name(String),
}

pub enum CursorItemView {
    Number { relative: bool, text: Seq<char> },
    Name(Seq<char>),
}

pub open spec fn cursor_item_view(c: CursorItem) -> CursorItemView {
    match c {
        CursorItem::Number { relative, text } => CursorItemView::Number { relative, text: text@ },
        CursorItem::Name(s) => CursorItemView::Name(s@),
    }
}

/// How a cursor block reads token `t`: a number when it starts with a sign or
/// an ASCII digit, else a name.
pub open spec fn cursor_item(t: Seq<char>) -> CursorItemView {
    let first = if t.len() > 0 {
        t[0]
    } else {
        ' '
    };
    if first == '+' || first == '-' {
        CursorItemView::Number { relative: true, text: t }
    } else if '0' <= first && first <= '9' {
        CursorItemView::Number { relative: false, text: t }
    } else {
        CursorItemView::Name(t)
    }
}

/// The items of a `cursor` block, and whether its closing `}` was found.
pub struct CursorSpec {
    pub items: Vec<CursorItem>,
    pub complete: bool,
}

/// Reads a `cursor` block's body (its `{` already read).
pub fn read_cursor(parser: &mut Parser) -> (c: CursorSpec)
    ensures
        final(parser).dir() == old(parser).dir(),
        c.items@.map_values(|x: CursorItem| cursor_item_view(x)) == block_at(
            BlockKind::Plain,
            old(parser)@,
        ).0.map_values(|e: EntryView| cursor_item(e.0)),
        c.complete == block_at(BlockKind::Plain, old(parser)@).1,
        final(parser)@ == old(parser)@.skip(block_at(BlockKind::Plain, old(parser)@).2 as int),
{
    let b = read_block(parser, BlockKind::Plain);
    let ghost es = entries_view(b.entries@);
    let mut items: Vec<CursorItem> = Vec::new();
    let mut i: usize = 0;
    while i < b.entries.len()
        invariant
            i <= b.entries@.len(),
            es == entries_view(b.entries@),
            items@.map_values(|x: CursorItem| cursor_item_view(x)) == es.take(i as int).map_values(
                |e: EntryView| cursor_item(e.0),
            ),
        decreases b.entries@.len() - i,
    {
        let e = &b.entries[i];
        assert(es[i as int] == (e.key@, opt_view(e.arg)));
        let cs = chars_of(e.key.as_str());
        let first = if cs.len() > 0 {
            cs[0]
        } else {
            ' '
        };
        let t = e.key.clone();
        let item = if first == '+' || first == '-' {
            CursorItem::Number { relative: true, text: t }
        } else if '0' <= first && first <= '9' {
            CursorItem::Number { relative: false, text: t }
        } else {
            CursorItem::Name(t)
        };
        let ghost before = items@;
        let ghost iv = cursor_item_view(item);
        assert(iv == cursor_item(es[i as int].0));
        items.push(item);
        assert(es.take(i + 1).map_values(|e: EntryView| cursor_item(e.0)) =~= es.take(
            i as int,
        ).map_values(|e: EntryView| cursor_item(e.0)).push(cursor_item(es[i as int].0)));
        assert(items@.map_values(|x: CursorItem| cursor_item_view(x)) =~= before.map_values(
            |x: CursorItem| cursor_item_view(x),
        ).push(iv));
        i += 1;
    }
    assert(es.take(b.entries@.len() as int) =~= es);
    CursorSpec { items, complete: b.closed }
}

/// The keywords that start a statement.
#[derive(Debug, Clone, Copy, PartialEq, Eq, Structural)]
pub enum Word {
    Cursor,
    Player,
    Waypoint,
    Object,
    Briefing,
    Event,
    Planet,
    Weapon,
    Include,
    Verbose,
    Terse,
}

/// The keyword that token `t` is, if any (ignoring ASCII case).
pub open spec fn word_of(t: Seq<char>) -> Option<Word> {
    if matches_kw(t, "cursor"@) {
        Some(Word::Cursor)
    } else if matches_kw(t, "player"@) {
        Some(Word::Player)
    } else if matches_kw(t, "waypoint"@) {
        Some(Word::Waypoint)
    } else if matches_kw(t, "object"@) {
        Some(Word::Object)
    } else if matches_kw(t, "briefing"@) {
        Some(Word::Briefing)
    } else if matches_kw(t, "event"@) {
        Some(Word::Event)
    } else if matches_kw(t, "planet"@) {
        Some(Word::Planet)
    } else if matches_kw(t, "weapon"@) {
        Some(Word::Weapon)
    } else if matches_kw(t, "include"@) {
        Some(Word::Include)
    } else if matches_kw(t, "verbose"@) {
        Some(Word::Verbose)
    } else if matches_kw(t, "terse"@) {
        Some(Word::Terse)
    } else {
        None
    }
}

pub fn word_named(t: &str) -> (w: Option<Word>)
    ensures
        w == word_of(t@),
{
    if eq_ignore_ascii_case(t, "cursor") {
        Some(Word::Cursor)
    } else if eq_ignore_ascii_case(t, "player") {
        Some(Word::Player)
    } else if eq_ignore_ascii_case(t, "waypoint") {
        Some(Word::Waypoint)
    } else if eq_ignore_ascii_case(t, "object") {
        Some(Word::Object)
    } else if eq_ignore_ascii_case(t, "briefing") {
        Some(Word::Briefing)
    } else if eq_ignore_ascii_case(t, "event") {
        Some(Word::Event)
    } else if eq_ignore_ascii_case(t, "planet") {
        Some(Word::Planet)
    } else if eq_ignore_ascii_case(t, "weapon") {
        Some(Word::Weapon)
    } else if eq_ignore_ascii_case(t, "include") {
        Some(Word::Include)
    } else if eq_ignore_ascii_case(t, "verbose") {
        Some(Word::Verbose)
    } else if eq_ignore_ascii_case(t, "terse") {
        Some(Word::Terse)
    } else {
        None
    }
}

/// The start of a statement. For a block statement its `{` has been read and
/// its body is next; for `include`, `file` is the file to include.
pub struct Statement {
    pub word: Word,
    pub file: Option<String>,
}

/// The statement that starts in `ts`, skipping tokens that are no keyword,
/// and the number of tokens it takes: `Ok(None)` at the end of the tokens;
/// an error when a block's `{` is missing or the tokens end too early.
pub open spec fn statement_at(ts: Seq<Seq<char>>) -> (
    Result<Option<(Word, Option<Seq<char>>)>, Seq<char>>,
    nat,
)
    decreases ts.len(),
{
    if ts.len() == 0 {
        (Ok(None), 0)
    } else {
        match word_of(ts[0]) {
            None => {
                let (r, n) = statement_at(ts.drop_first());
                (r, n + 1)
            },
            Some(w) => if w == Word::Verbose || w == Word::Terse {
                (Ok(Some((w, None))), 1)
            } else if ts.len() < 2 {
                (Err(eof_message()), 1)
            } else if w == Word::Include {
                (Ok(Some((w, Some(ts[1])))), 2)
            } else if ts[1] == open_brace() {
                (Ok(Some((w, None))), 2)
            } else {
                (Err(brace_message(ts[1])), 2)
            },
        }
    }
}

pub open spec fn statement_view(s: Statement) -> (Word, Option<Seq<char>>) {
    (s.word, opt_view(s.file))
}

proof fn lemma_statement_at(ts: Seq<Seq<char>>)
    ensures
        statement_at(ts).1 <= ts.len(),
    decreases ts.len(),
{
    if ts.len() > 0 && word_of(ts[0]) is None {
        lemma_statement_at(ts.drop_first());
    }
}

/// Reads up to the start of the next statement; tokens that are no keyword
/// are skipped.
pub fn next_statement(parser: &mut Parser) -> (r: Result<Option<Statement>, String>)
    ensures
        final(parser).dir() == old(parser).dir(),
        final(parser)@ == old(parser)@.skip(statement_at(old(parser)@).1 as int),
        match (r, statement_at(old(parser)@).0) {
            (Ok(None), Ok(None)) => true,
            (Ok(Some(s)), Ok(Some(v))) => statement_view(s) == v,
            (Err(m), Err(v)) => m@ == v,
            _ => false,
        },
{
    let ghost start = parser@;
    let ghost mut used: nat = 0;
    assert(start.skip(0) =~= start);
    loop
        invariant
            parser.dir() == old(parser).dir(),
            start == old(parser)@,
            used <= start.len(),
            parser@ == start.skip(used as int),
            statement_at(start) == ({
                let (r, n) = statement_at(parser@);
                (r, used + n)
            }),
        decreases parser@.len(),
    {
        let ghost cur = parser@;
        let t = match parser.next() {
            Some(t) => t,
            None => {
                return Ok(None);
            },
        };
        assert(start.skip((used + 1) as int) =~= cur.drop_first());
        match word_named(t.as_str()) {
            None => {
                proof {
                    used = used + 1;
                }
            },
            Some(w) => {
                if w == Word::Verbose || w == Word::Terse {
                    return Ok(Some(Statement { word: w, file: None }));
                }
                if w == Word::Include {
                    let f = parser.require()?;
                    assert(start.skip((used + 2) as int) =~= cur.drop_first().drop_first());
                    return Ok(Some(Statement { word: w, file: Some(f) }));
                }
                parser.require_brace()?;
                assert(start.skip((used + 2) as int) =~= cur.drop_first().drop_first());
                return Ok(Some(Statement { word: w, file: None }));
            },
        }
    }
}

/// The slot that a new object takes: the first that `free` marks free (an
/// unused target), or the error when every slot is in use.
pub fn free_target_slot(free: &Vec<bool>) -> (r: Result<usize, String>)
    ensures
        match r {
            Ok(i) => i < free@.len() && free@[i as int] && forall|j: int| 0 <= j < i ==> !free@[j],
            Err(m) => m@ == "Out of target slots"@ && forall|j: int|
                0 <= j < free@.len() ==> !free@[j],
        },
{
    let mut i: usize = 0;
    while i < free.len()
        invariant
            i <= free@.len(),
            forall|j: int| 0 <= j < i ==> !free@[j],
        decreases free@.len() - i,
    {
        if free[i] {
            return Ok(i);
        }
        i += 1;
    }
    Err(String::from_str("Out of target slots"))
}

} // verus!
