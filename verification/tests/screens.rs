use terminal_orbit::config::{config_dir_from, Prefs};
use terminal_orbit::flow::{briefing_ends_game, next_mission};
use terminal_orbit::console::Console;
use terminal_orbit::consts::CONSLINES;
use terminal_orbit::input::InputState;
use terminal_orbit::menu::{
    cycle_target, cycle_weapon, load_key, play_key, title_key, Key, KeyCode, LoadAction,
    PlayAction, TitleAction, Toggles,
};
use terminal_orbit::radar::{in_circle, on_half_ring, on_ring};
use terminal_orbit::text::{eq_ignore_ascii_case, truncate};
use terminal_orbit::vocab::{
    parse_action_kind, parse_strategy, parse_trigger, AutopilotMode, EventActionKind,
    EventTrigger, FlightModel, GameState, Lock, LockType, Strategy,
};

fn press(code: KeyCode) -> Key {
    Key { code, ctrl: false, press: true }
}

fn ch(c: char) -> Key {
    press(KeyCode::Char(c))
}

fn toggles() -> Toggles {
    Toggles {
        dense_stars: false,
        show_lines: true,
        show_orrery: false,
        show_names: true,
        show_texture: false,
        orbit_cam: false,
        paused: false,
    }
}

#[test]
fn title_menu_navigation() {
    let mut sel = 0usize;
    assert_eq!(title_key(&mut sel, true, press(KeyCode::Up)), TitleAction::Stay);
    assert_eq!(sel, 0);
    assert_eq!(title_key(&mut sel, true, ch('j')), TitleAction::Stay);
    assert_eq!(sel, 1);
    assert_eq!(title_key(&mut sel, true, press(KeyCode::Enter)), TitleAction::OpenLoadMenu);
    assert_eq!(title_key(&mut sel, false, press(KeyCode::Enter)), TitleAction::Stay);
    assert_eq!(title_key(&mut sel, true, press(KeyCode::Down)), TitleAction::Stay);
    assert_eq!(title_key(&mut sel, true, press(KeyCode::Down)), TitleAction::Stay);
    assert_eq!(sel, 2);
    assert_eq!(title_key(&mut sel, true, ch(' ')), TitleAction::Quit);
}

#[test]
fn title_menu_shortcuts() {
    let mut sel = 2usize;
    assert_eq!(title_key(&mut sel, false, ch('n')), TitleAction::NewGame);
    assert_eq!(title_key(&mut sel, false, ch('l')), TitleAction::Stay);
    assert_eq!(title_key(&mut sel, true, ch('l')), TitleAction::OpenLoadMenu);
    assert_eq!(title_key(&mut sel, true, press(KeyCode::Esc)), TitleAction::Quit);
    assert_eq!(title_key(&mut sel, true, Key { code: KeyCode::Char('c'), ctrl: true, press: true }), TitleAction::Interrupt);
    assert_eq!(title_key(&mut sel, true, ch('x')), TitleAction::Stay);
    assert_eq!(sel, 2);
}

#[test]
fn load_menu_navigation() {
    let mut sel = 0usize;
    assert_eq!(load_key(&mut sel, 3, ch('j')), LoadAction::Stay);
    assert_eq!(load_key(&mut sel, 3, ch('j')), LoadAction::Stay);
    assert_eq!(load_key(&mut sel, 3, ch('j')), LoadAction::Stay);
    assert_eq!(sel, 2);
    assert_eq!(load_key(&mut sel, 3, press(KeyCode::Enter)), LoadAction::Load(2));
    assert_eq!(load_key(&mut sel, 3, ch('k')), LoadAction::Stay);
    assert_eq!(sel, 1);
    assert_eq!(load_key(&mut sel, 3, ch('0')), LoadAction::Load(0));
    assert_eq!(load_key(&mut sel, 3, ch('3')), LoadAction::Stay);
    assert_eq!(load_key(&mut sel, 3, ch('q')), LoadAction::Back);
}

#[test]
fn load_menu_with_no_slots() {
    let mut sel = 0usize;
    assert_eq!(load_key(&mut sel, 0, press(KeyCode::Enter)), LoadAction::Stay);
    assert_eq!(load_key(&mut sel, 0, press(KeyCode::Down)), LoadAction::Stay);
    assert_eq!(sel, 0);
}

#[test]
fn flying_keys_press_controls() {
    let mut input = InputState::default();
    let mut t = toggles();
    assert_eq!(play_key(&mut input, &mut t, ch('w')), PlayAction::Stay);
    assert_eq!(play_key(&mut input, &mut t, press(KeyCode::Left)), PlayAction::Stay);
    assert_eq!(play_key(&mut input, &mut t, ch(' ')), PlayAction::Stay);
    assert!(input.forward && input.yaw_left && input.fire);
    assert!(!input.backward && !input.pitch_up);
    input.clear();
    assert!(!input.forward && !input.yaw_left && !input.fire);
}

#[test]
fn flying_keys_toggle_and_act() {
    let mut input = InputState::default();
    let mut t = toggles();
    assert_eq!(play_key(&mut input, &mut t, ch('z')), PlayAction::Stay);
    assert!(t.dense_stars);
    assert_eq!(play_key(&mut input, &mut t, ch('b')), PlayAction::Stay);
    assert!(!t.show_lines);
    assert_eq!(play_key(&mut input, &mut t, ch('y')), PlayAction::CycleTarget);
    assert_eq!(play_key(&mut input, &mut t, ch('f')), PlayAction::CycleWeapon);
    assert_eq!(play_key(&mut input, &mut t, ch('u')), PlayAction::LockNearest);
    assert_eq!(play_key(&mut input, &mut t, ch('g')), PlayAction::ToggleAutopilot);
    assert_eq!(play_key(&mut input, &mut t, ch('x')), PlayAction::ToggleWarp);
    assert_eq!(play_key(&mut input, &mut t, ch('m')), PlayAction::ToggleMessage);
    assert_eq!(play_key(&mut input, &mut t, press(KeyCode::Esc)), PlayAction::Quit);
}

#[test]
fn paused_game_ignores_controls() {
    let mut input = InputState::default();
    let mut t = toggles();
    assert_eq!(play_key(&mut input, &mut t, ch('p')), PlayAction::Stay);
    assert!(t.paused);
    assert_eq!(play_key(&mut input, &mut t, ch('w')), PlayAction::Stay);
    assert!(!input.forward);
    assert_eq!(play_key(&mut input, &mut t, ch('z')), PlayAction::Stay);
    assert!(!t.dense_stars);
    assert_eq!(play_key(&mut input, &mut t, ch('q')), PlayAction::Quit);
    assert_eq!(play_key(&mut input, &mut t, ch('p')), PlayAction::Stay);
    assert!(!t.paused);
}

#[test]
fn control_c_interrupts() {
    let mut input = InputState::default();
    let mut t = toggles();
    let k = Key { code: KeyCode::Char('c'), ctrl: true, press: true };
    assert_eq!(play_key(&mut input, &mut t, k), PlayAction::Interrupt);
    assert!(!t.orbit_cam);
    assert_eq!(play_key(&mut input, &mut t, ch('c')), PlayAction::Stay);
    assert!(t.orbit_cam);
}

#[test]
fn target_cycling() {
    let active = vec![false, true, false, true, true];
    assert_eq!(cycle_target(&active, None), Some(1));
    assert_eq!(cycle_target(&active, Some(1)), Some(3));
    assert_eq!(cycle_target(&active, Some(3)), Some(4));
    assert_eq!(cycle_target(&active, Some(4)), Some(1));
    assert_eq!(cycle_target(&active, Some(2)), Some(3));
    assert_eq!(cycle_target(&vec![false, false], Some(0)), None);
    assert_eq!(cycle_target(&vec![true], Some(0)), Some(0));
    assert_eq!(cycle_target(&vec![], None), None);
}

#[test]
fn weapon_cycling() {
    assert_eq!(cycle_weapon(0, 4), 1);
    assert_eq!(cycle_weapon(3, 4), 0);
    assert_eq!(cycle_weapon(2, 0), 2);
    assert_eq!(cycle_weapon(usize::MAX, 10), ((usize::MAX as u128 + 1) % 10) as usize);
}

#[test]
fn radar_geometry_matches_float_formula() {
    for col in -30..50 {
        for row in -20..30 {
            let dx = (col - 10) as f64 / 10.0;
            let dy = (row - 5) as f64 / 5.0;
            let d2 = dx * dx + dy * dy;
            assert_eq!(in_circle(col, row), d2 <= 1.0, "in_circle {col} {row}");
            assert_eq!(on_ring(col, row), d2 >= 0.85 && d2 <= 1.0, "on_ring {col} {row}");
            assert_eq!(on_half_ring(col, row), d2 >= 0.21 && d2 <= 0.28, "on_half_ring {col} {row}");
        }
    }
}

#[test]
fn radar_known_cells() {
    assert!(in_circle(10, 5));
    assert!(in_circle(0, 5));
    assert!(!in_circle(0, 4));
    assert!(on_ring(19, 4));
    assert!(!on_ring(17, 2));
    assert!(on_half_ring(15, 5));
    assert!(on_half_ring(10, 3) == false);
}

#[test]
fn console_fills_then_scrolls() {
    let mut c: Console<u32> = Console::new(0);
    assert_eq!(c.next, 0);
    for i in 0..CONSLINES {
        c.add(format!("m{}", i), 1);
    }
    assert_eq!(c.next, CONSLINES);
    assert_eq!(c.buf[0], "m0");
    c.add("late".to_string(), 7);
    assert_eq!(c.next, CONSLINES);
    assert_eq!(c.buf[0], "m1");
    assert_eq!(c.buf[CONSLINES - 1], "late");
    assert_eq!(c.age[CONSLINES - 1], 7);
    assert_eq!(c.buf.len(), CONSLINES);
}

#[test]
fn prefs_default() {
    let p = Prefs::default();
    assert_eq!(p.player_name, "Ace");
    assert!(!p.gravity && !p.dense_stars && !p.vulnerable);
}

#[test]
fn vocabulary_words() {
    assert_eq!(parse_strategy("Hunt3"), Strategy::Hunt3);
    assert_eq!(parse_strategy("sit1"), Strategy::Sit1);
    assert_eq!(parse_strategy(""), Strategy::DoNothing);
    assert_eq!(parse_trigger("STOPNEAR"), EventTrigger::StopNear);
    assert_eq!(parse_trigger("never"), EventTrigger::Null);
    assert_eq!(parse_action_kind("destroy"), EventActionKind::Boom);
    assert_eq!(parse_action_kind("score"), EventActionKind::NoAction);
    assert_eq!(parse_action_kind("LoadMission"), EventActionKind::LoadMission);
    assert_eq!(parse_action_kind("UnHidePlanet"), EventActionKind::UnhidePlanet);
}

#[test]
fn vocabulary_defaults() {
    assert_eq!(Strategy::default(), Strategy::DoNothing);
    assert_eq!(EventTrigger::default(), EventTrigger::Null);
    assert_eq!(EventActionKind::default(), EventActionKind::NoAction);
    assert_eq!(FlightModel::default(), FlightModel::Newtonian);
    assert_eq!(GameState::default(), GameState::Normal);
    assert_eq!(LockType::default(), LockType::Enemy);
    assert_eq!(Lock::default().lock_type, LockType::Enemy);
    let l = Lock::default();
    assert_eq!(l.target, None);
    assert_eq!(AutopilotMode::Off, AutopilotMode::Off);
}

#[test]
fn ascii_case_comparison() {
    assert!(eq_ignore_ascii_case("Earth", "EARTH"));
    assert!(!eq_ignore_ascii_case("Earth", "Eart"));
    assert!(!eq_ignore_ascii_case("É", "é"));
}

#[test]
fn truncate_by_bytes() {
    assert_eq!(truncate("Commander", 4), "Comm");
    assert_eq!(truncate("Ace", 10), "Ace");
    assert_eq!(truncate("", 0), "");
    assert_eq!(truncate("héllo", 3), "hé");
}

#[test]
fn briefing_of_final_missions_ends_the_game() {
    assert!(briefing_ends_game("win.msn"));
    assert!(briefing_ends_game("lose.msn"));
    assert!(!briefing_ends_game("train01.msn"));
    assert!(!briefing_ends_game("WIN.msn"));
}

#[test]
fn mission_after_a_frame() {
    let r = next_mission("mars1.msn", Some("mars1.msn".to_string()), None).unwrap();
    assert_eq!(r.mission, "mars1.msn");
    assert!(!r.record_previous);
    let r = next_mission("mars1.msn", Some("mars2.msn".to_string()), Some("x.msn".to_string())).unwrap();
    assert_eq!(r.mission, "mars2.msn");
    assert!(r.record_previous);
    let r = next_mission("mars1.msn", None, Some("mars2.msn".to_string())).unwrap();
    assert_eq!(r.mission, "mars2.msn");
    assert!(r.record_previous);
    assert!(next_mission("mars1.msn", None, None).is_none());
}

#[test]
fn controls_table() {
    let rows: Vec<(Key, fn(&InputState) -> bool)> = vec![
        (ch('w'), |i| i.forward),
        (press(KeyCode::Up), |i| i.forward),
        (ch('s'), |i| i.backward),
        (press(KeyCode::Down), |i| i.backward),
        (ch('a'), |i| i.yaw_left),
        (press(KeyCode::Left), |i| i.yaw_left),
        (ch('d'), |i| i.yaw_right),
        (press(KeyCode::Right), |i| i.yaw_right),
        (ch('i'), |i| i.pitch_up),
        (ch('k'), |i| i.pitch_down),
        (ch('j'), |i| i.roll_left),
        (ch('l'), |i| i.roll_right),
        (ch(' '), |i| i.fire),
    ];
    for (key, held) in rows {
        let mut input = InputState::default();
        let mut t = toggles();
        assert_eq!(play_key(&mut input, &mut t, key), PlayAction::Stay);
        assert!(held(&input), "{:?}", key);
    }
    let mut input = InputState::default();
    let mut t = toggles();
    assert_eq!(play_key(&mut input, &mut t, ch('q')), PlayAction::Quit);
    assert_eq!(play_key(&mut input, &mut t, press(KeyCode::Esc)), PlayAction::Quit);
}

#[test]
fn config_dir_prefers_xdg_config_home() {
    assert_eq!(
        config_dir_from(Some("/x".to_string()), Some("/home/u".to_string())),
        "/x/terminal-orbit"
    );
    assert_eq!(config_dir_from(Some("/x/".to_string()), None), "/x/terminal-orbit");
    assert_eq!(config_dir_from(Some(String::new()), None), "terminal-orbit");
}

#[test]
fn config_dir_falls_back_to_home() {
    assert_eq!(
        config_dir_from(None, Some("/home/u".to_string())),
        "/home/u/.config/terminal-orbit"
    );
    assert_eq!(config_dir_from(None, None), "./.config/terminal-orbit");
}
