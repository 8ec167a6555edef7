//! What a key press does on each screen, and target and weapon cycling.

use vstd::prelude::*;
use crate::input::InputState;

verus! {

/// The key of a key event.
#[derive(Debug, Clone, Copy, PartialEq, Eq, Structural)]
pub enum KeyCode {
    Up,
    Down,
    Left,
    Right,
    Enter,
    Esc,
    Char(char),
    Other,
}

/// A key event: its key, whether Control was held, and whether it is a press
/// (rather than a release or repeat).
#[derive(Debug, Clone, Copy, PartialEq, Eq, Structural)]
pub struct Key {
    pub code: KeyCode,
    pub ctrl: bool,
    pub press: bool,
}

/// Entries of the title menu.
pub const TITLE_OPTIONS: usize = 3;

#[derive(Debug, Clone, Copy, PartialEq, Eq, Structural)]
pub enum TitleAction {
    Stay,
    NewGame,
    OpenLoadMenu,
    Quit,
    /// Control-C.
    Interrupt,
}

pub open spec fn is_char(k: Key, c: char) -> bool {
    k.code == KeyCode::Char(c)
}

pub open spec fn is_up(k: Key) -> bool {
    k.code == KeyCode::Up || is_char(k, 'k')
}

pub open spec fn is_down(k: Key) -> bool {
    k.code == KeyCode::Down || is_char(k, 'j')
}

pub open spec fn is_select(k: Key) -> bool {
    k.code == KeyCode::Enter || is_char(k, ' ')
}

pub open spec fn is_back(k: Key) -> bool {
    k.code == KeyCode::Esc || is_char(k, 'q')
}

/// The title screen's answer to key `k` with entry `sel` highlighted, and the
/// highlighted entry after it.
pub open spec fn title_step(sel: nat, has_saves: bool, k: Key) -> (TitleAction, nat) {
    if k.ctrl && is_char(k, 'c') {
        (TitleAction::Interrupt, sel)
    } else if is_back(k) {
        (TitleAction::Quit, sel)
    } else if is_up(k) {
        (TitleAction::Stay, if sel > 0 { (sel - 1) as nat } else { sel })
    } else if is_down(k) {
        (TitleAction::Stay, if sel + 1 < TITLE_OPTIONS { sel + 1 } else { sel })
    } else if is_select(k) {
        if sel == 0 {
            (TitleAction::NewGame, sel)
        } else if sel == 1 && has_saves {
            (TitleAction::OpenLoadMenu, sel)
        } else if sel == 2 {
            (TitleAction::Quit, sel)
        } else {
            (TitleAction::Stay, sel)
        }
    } else if is_char(k, 'n') {
        (TitleAction::NewGame, sel)
    } else if is_char(k, 'l') && has_saves {
        (TitleAction::OpenLoadMenu, sel)
    } else {
        (TitleAction::Stay, sel)
    }
}

/// Handles key `k` on the title screen.
pub fn title_key(sel: &mut usize, has_saves: bool, k: Key) -> (a: TitleAction)
    ensures
        (a, *final(sel) as nat) == title_step(*old(sel) as nat, has_saves, k),
{
    if k.ctrl && k.code == KeyCode::Char('c') {
        return TitleAction::Interrupt;
    }
    match k.code {
        KeyCode::Esc | KeyCode::Char('q') => TitleAction::Quit,
        KeyCode::Up | KeyCode::Char('k') => {
            if *sel > 0 {
                *sel -= 1;
            }
            TitleAction::Stay
        },
        KeyCode::Down | KeyCode::Char('j') => {
            if *sel < TITLE_OPTIONS - 1 {
                *sel += 1;
            }
            TitleAction::Stay
        },
        KeyCode::Enter | KeyCode::Char(' ') => {
            if *sel == 0 {
                TitleAction::NewGame
            } else if *sel == 1 && has_saves {
                TitleAction::OpenLoadMenu
            } else if *sel == 2 {
                TitleAction::Quit
            } else {
                TitleAction::Stay
            }
        },
        KeyCode::Char('n') => TitleAction::NewGame,
        KeyCode::Char('l') => {
            if has_saves {
                TitleAction::OpenLoadMenu
            } else {
                TitleAction::Stay
            }
        },
        _ => TitleAction::Stay,
    }
}

#[derive(Debug, Clone, Copy, PartialEq, Eq, Structural)]
pub enum LoadAction {
    Stay,
    /// Back to the title screen.
    Back,
    /// Load the slot of this index.
    Load(usize),
}

/// The load menu's answer to key `k` with slot `sel` of `n` highlighted, and
/// the highlighted slot after it.
pub open spec fn load_step(sel: nat, n: nat, k: Key) -> (LoadAction, nat) {
    if is_back(k) {
        (LoadAction::Back, sel)
    } else if is_up(k) {
        (LoadAction::Stay, if sel > 0 { (sel - 1) as nat } else { sel })
    } else if is_down(k) {
        (LoadAction::Stay, if sel + 1 < n { sel + 1 } else { sel })
    } else if is_select(k) {
        (if sel < n { LoadAction::Load(sel as usize) } else { LoadAction::Stay }, sel)
    } else if k.code matches KeyCode::Char(c) && '0' <= c && c <= '9' {
        let idx = ((k.code->Char_0) as nat - 0x30) as nat;
        (if idx < n { LoadAction::Load(idx as usize) } else { LoadAction::Stay }, sel)
    } else {
        (LoadAction::Stay, sel)
    }
}

/// Handles key `k` in the load menu of `n` slots.
pub fn load_key(sel: &mut usize, n: usize, k: Key) -> (a: LoadAction)
    ensures
        (a, *final(sel) as nat) == load_step(*old(sel) as nat, n as nat, k),
{
    match k.code {
        KeyCode::Esc | KeyCode::Char('q') => LoadAction::Back,
        KeyCode::Up | KeyCode::Char('k') => {
            if *sel > 0 {
                *sel -= 1;
            }
            LoadAction::Stay
        },
        KeyCode::Down | KeyCode::Char('j') => {
            if *sel < n && n - *sel > 1 {
                *sel += 1;
            }
            LoadAction::Stay
        },
        KeyCode::Enter | KeyCode::Char(' ') => {
            if *sel < n {
                LoadAction::Load(*sel)
            } else {
                LoadAction::Stay
            }
        },
        KeyCode::Char(c) => {
            if '0' <= c && c <= '9' {
                let idx = (c as u32 - 0x30) as usize;
                if idx < n {
                    LoadAction::Load(idx)
                } else {
                    LoadAction::Stay
                }
            } else {
                LoadAction::Stay
            }
        },
        _ => LoadAction::Stay,
    }
}

/// The display switches that keys toggle while flying.
pub struct Toggles {
    pub dense_stars: bool,
    pub show_lines: bool,
    pub show_orrery: bool,
    pub show_names: bool,
    pub show_texture: bool,
    pub orbit_cam: bool,
    pub paused: bool,
}

/// What a key while flying asks of the world.
#[derive(Debug, Clone, Copy, PartialEq, Eq, Structural)]
pub enum PlayAction {
    Stay,
    /// Back to the title screen.
    Quit,
    /// Control-C.
    Interrupt,
    /// Dismiss the message, or recall the last one.
    ToggleMessage,
    LockNearest,
    CycleTarget,
    CycleWeapon,
    ToggleWarp,
    /// Engage or release the orbit autopilot.
    ToggleAutopilot,
}

/// The controls and switches after key `k`, and what the world must do.
pub open spec fn play_step(i: InputState, t: Toggles, k: Key) -> (InputState, Toggles, PlayAction) {
    if k.ctrl && is_char(k, 'c') {
        (i, t, PlayAction::Interrupt)
    } else if is_char(k, 'p') {
        (i, Toggles { paused: !t.paused, ..t }, PlayAction::Stay)
    } else if t.paused {
        (i, t, if is_back(k) { PlayAction::Quit } else { PlayAction::Stay })
    } else if is_back(k) {
        (i, t, PlayAction::Quit)
    } else if k.code == KeyCode::Up || is_char(k, 'w') {
        (InputState { forward: true, ..i }, t, PlayAction::Stay)
    } else if k.code == KeyCode::Down || is_char(k, 's') {
        (InputState { backward: true, ..i }, t, PlayAction::Stay)
    } else if k.code == KeyCode::Left || is_char(k, 'a') {
        (InputState { yaw_left: true, ..i }, t, PlayAction::Stay)
    } else if k.code == KeyCode::Right || is_char(k, 'd') {
        (InputState { yaw_right: true, ..i }, t, PlayAction::Stay)
    } else if is_char(k, 'i') {
        (InputState { pitch_up: true, ..i }, t, PlayAction::Stay)
    } else if is_char(k, 'k') {
        (InputState { pitch_down: true, ..i }, t, PlayAction::Stay)
    } else if is_char(k, 'j') {
        (InputState { roll_left: true, ..i }, t, PlayAction::Stay)
    } else if is_char(k, 'l') {
        (InputState { roll_right: true, ..i }, t, PlayAction::Stay)
    } else if is_char(k, ' ') {
        (InputState { fire: true, ..i }, t, PlayAction::Stay)
    } else if is_char(k, 'm') {
        (i, t, PlayAction::ToggleMessage)
    } else if is_char(k, 'u') {
        (i, t, PlayAction::LockNearest)
    } else if is_char(k, 'y') {
        (i, t, PlayAction::CycleTarget)
    } else if is_char(k, 'f') {
        (i, t, PlayAction::CycleWeapon)
    } else if is_char(k, 'x') {
        (i, t, PlayAction::ToggleWarp)
    } else if is_char(k, 'z') {
        (i, Toggles { dense_stars: !t.dense_stars, ..t }, PlayAction::Stay)
    } else if is_char(k, 'b') {
        (i, Toggles { show_lines: !t.show_lines, ..t }, PlayAction::Stay)
    } else if is_char(k, 'o') {
        (i, Toggles { show_orrery: !t.show_orrery, ..t }, PlayAction::Stay)
    } else if is_char(k, 'n') {
        (i, Toggles { show_names: !t.show_names, ..t }, PlayAction::Stay)
    } else if is_char(k, 't') {
        (i, Toggles { show_texture: !t.show_texture, ..t }, PlayAction::Stay)
    } else if is_char(k, 'c') {
        (i, Toggles { orbit_cam: !t.orbit_cam, ..t }, PlayAction::Stay)
    } else if is_char(k, 'g') {
        (i, t, PlayAction::ToggleAutopilot)
    } else {
        (i, t, PlayAction::Stay)
    }
}

/// Handles key `k` while flying.
#[verifier::rlimit(80)]
pub fn play_key(input: &mut InputState, t: &mut Toggles, k: Key) -> (a: PlayAction)
    ensures
        (*final(input), *final(t), a) == play_step(*old(input), *old(t), k),
{
    if k.ctrl && k.code == KeyCode::Char('c') {
        return PlayAction::Interrupt;
    }
    if k.code == KeyCode::Char('p') {
        t.paused = !t.paused;
        return PlayAction::Stay;
    }
    if t.paused {
        if k.code == KeyCode::Char('q') || k.code == KeyCode::Esc {
            return PlayAction::Quit;
        }
        return PlayAction::Stay;
    }
    match k.code {
        KeyCode::Char('q') | KeyCode::Esc => PlayAction::Quit,
        KeyCode::Char('w') | KeyCode::Up => {
            input.forward = true;
            PlayAction::Stay
        },
        KeyCode::Char('s') | KeyCode::Down => {
            input.backward = true;
            PlayAction::Stay
        },
        KeyCode::Char('a') | KeyCode::Left => {
            input.yaw_left = true;
            PlayAction::Stay
        },
        KeyCode::Char('d') | KeyCode::Right => {
            input.yaw_right = true;
            PlayAction::Stay
        },
        KeyCode::Char('i') => {
            input.pitch_up = true;
            PlayAction::Stay
        },
        KeyCode::Char('k') => {
            input.pitch_down = true;
            PlayAction::Stay
        },
        KeyCode::Char('j') => {
            input.roll_left = true;
            PlayAction::Stay
        },
        KeyCode::Char('l') => {
            input.roll_right = true;
            PlayAction::Stay
        },
        KeyCode::Char(' ') => {
            input.fire = true;
            PlayAction::Stay
        },
        KeyCode::Char('m') => PlayAction::ToggleMessage,
        KeyCode::Char('u') => PlayAction::LockNearest,
        KeyCode::Char('y') => PlayAction::CycleTarget,
        KeyCode::Char('f') => PlayAction::CycleWeapon,
        KeyCode::Char('x') => PlayAction::ToggleWarp,
        KeyCode::Char('z') => {
            t.dense_stars = !t.dense_stars;
            PlayAction::Stay
        },
        KeyCode::Char('b') => {
            t.show_lines = !t.show_lines;
            PlayAction::Stay
        },
        KeyCode::Char('o') => {
            t.show_orrery = !t.show_orrery;
            PlayAction::Stay
        },
        KeyCode::Char('n') => {
            t.show_names = !t.show_names;
            PlayAction::Stay
        },
        KeyCode::Char('t') => {
            t.show_texture = !t.show_texture;
            PlayAction::Stay
        },
        KeyCode::Char('c') => {
            t.orbit_cam = !t.orbit_cam;
            PlayAction::Stay
        },
        KeyCode::Char('g') => PlayAction::ToggleAutopilot,
        _ => PlayAction::Stay,
    }
}

/// The indices of the `true` entries of `active`, in order.
pub open spec fn active_indices(active: Seq<bool>) -> Seq<nat>
    decreases active.len(),
{
    if active.len() == 0 {
        Seq::empty()
    } else if active.last() {
        active_indices(active.drop_last()).push((active.len() - 1) as nat)
    } else {
        active_indices(active.drop_last())
    }
}

/// The target locked after cycling from `current` through the active targets:
/// the one after `current` (wrapping round); the first when nothing is locked;
/// when the lock is on a target that is no longer active, the one after the
/// first (the second active target, or the only one when just one is active);
/// and none when no target is active.
pub open spec fn cycled(act: Seq<nat>, current: Option<nat>) -> Option<nat> {
    if act.len() == 0 {
        None
    } else {
        match current {
            Some(c) => if act.contains(c) {
                Some(act[(act.index_of(c) + 1) % (act.len() as int)])
            } else {
                Some(act[1int % (act.len() as int)])
            },
            None => Some(act[0]),
        }
    }
}

pub open spec fn opt_usize(o: Option<usize>) -> Option<nat> {
    match o {
        Some(v) => Some(v as nat),
        None => None,
    }
}

/// Locks the next active target after `current`; `active[i]` tells whether
/// target `i` is alive and shown.
pub fn cycle_target(active: &Vec<bool>, current: Option<usize>) -> (r: Option<usize>)
    ensures
        opt_usize(r) == cycled(active_indices(active@), opt_usize(current)),
{
    let mut act: Vec<usize> = Vec::new();
    let mut i: usize = 0;
    while i < active.len()
        invariant
            i <= active@.len(),
            act@.map_values(|x: usize| x as nat) == active_indices(active@.take(i as int)),
            forall|j: int, k: int| 0 <= j < k < act@.len() ==> act@[j] < act@[k],
            forall|j: int| 0 <= j < act@.len() ==> act@[j] < i,
        decreases active@.len() - i,
    {
        assert(active@.take(i + 1).drop_last() =~= active@.take(i as int));
        if active[i] {
            let ghost before = act@;
            act.push(i);
            assert(act@.map_values(|x: usize| x as nat) =~= before.map_values(|x: usize| x as nat).push(
                i as nat,
            ));
        }
        i += 1;
    }
    assert(active@.take(active@.len() as int) =~= active@);
    let ghost av = act@.map_values(|x: usize| x as nat);
    if act.len() == 0 {
        return None;
    }
    match current {
        Some(cur) => {
            let mut pos: usize = 0;
            let mut found = false;
            let mut j: usize = 0;
            while j < act.len()
                invariant
                    j <= act@.len(),
                    av == act@.map_values(|x: usize| x as nat),
                    forall|a: int, b: int| 0 <= a < b < act@.len() ==> act@[a] < act@[b],
                    !found ==> pos == 0 && forall|a: int| 0 <= a < j ==> act@[a] != cur,
                    found ==> pos < act@.len() && act@[pos as int] == cur && forall|a: int|
                        0 <= a < pos ==> act@[a] != cur,
                decreases act@.len() - j,
            {
                if !found && act[j] == cur {
                    pos = j;
                    found = true;
                }
                j += 1;
            }
            proof {
                if found {
                    assert(av[pos as int] == cur as nat);
                    assert(av.contains(cur as nat));
                    assert forall|a: int| 0 <= a < av.len() && av[a] == cur as nat implies a
                        == pos by {
                        if a < pos {
                            assert(act@[a] != cur);
                        } else if a > pos {
                            assert(act@[pos as int] < act@[a]);
                        }
                    }
                    let k = av.index_of(cur as nat);
                    assert(av[k] == cur as nat);
                } else {
                    assert forall|a: int| 0 <= a < av.len() implies av[a] != cur as nat by {
                        assert(act@[a] != cur);
                    }
                }
            }
            let next = if pos + 1 < act.len() {
                pos + 1
            } else {
                0
            };
            proof {
                assert((pos + 1) % (act@.len() as int) == next as int) by (nonlinear_arith)
                    requires
                        pos < act@.len(),
                        next == (if pos + 1 < act@.len() { pos + 1 } else { 0 }),
                ;
            }
            Some(act[next])
        },
        None => Some(act[0]),
    }
}

/// The weapon after `weapon` among `n`, wrapping round; unchanged when there
/// are none.
pub fn cycle_weapon(weapon: usize, n: usize) -> (r: usize)
    ensures
        n == 0 ==> r == weapon,
        n > 0 ==> r == (weapon as int + 1) % (n as int),
{
    if n == 0 {
        return weapon;
    }
    if weapon < usize::MAX {
        (weapon + 1) % n
    } else {
        assert((weapon as int + 1) % (n as int) == ((weapon % n) as int + 1) % (n as int)) by (nonlinear_arith)
            requires n > 0;
        let w = weapon % n;
        assert(((w as int) + 1) % (n as int) == (if w + 1 < n { w + 1 } else { 0 })) by (nonlinear_arith)
            requires
                w < n,
        ;
        if w + 1 < n { w + 1 } else { 0 }
    }
}

} // verus!
