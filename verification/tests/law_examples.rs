use terminal_orbit::canvas::BrailleCanvas;
use terminal_orbit::events::{fire_event, EventAction, GameEvent};
use terminal_orbit::input::InputState;
use terminal_orbit::menu::{cycle_target, load_key, title_key, Key, KeyCode, LoadAction};
use terminal_orbit::numbers::{parse_u32, parse_usize};
use terminal_orbit::parser::tokenize;
use terminal_orbit::radar::{in_circle, on_half_ring, on_ring};
use terminal_orbit::saves::{decimal_string, push_save_at, SaveSlot};
use terminal_orbit::scores::{record_score_at, top_scores, ScoreTable, MAX_PER_MISSION};
use terminal_orbit::texture::{ppm_within_limits, PlanetTexture};
use terminal_orbit::vocab::{
    parse_action_kind, parse_strategy, parse_trigger, EventActionKind, EventTrigger,
};

fn all_keys() -> Vec<Key> {
    let mut codes = vec![
        KeyCode::Up,
        KeyCode::Down,
        KeyCode::Left,
        KeyCode::Right,
        KeyCode::Enter,
        KeyCode::Esc,
        KeyCode::Other,
    ];
    for c in " 0123456789abcdefghijklmnopqrstuvwxyzQ".chars() {
        codes.push(KeyCode::Char(c));
    }
    let mut keys = Vec::new();
    for code in codes {
        for ctrl in [false, true] {
            keys.push(Key { code, ctrl, press: true });
        }
    }
    keys
}

#[test]
fn tokens_are_nonempty_words_without_comment_openers() {
    let text = "a\tb /* c */ d\u{2003}e /* f";
    for t in tokenize(text) {
        assert!(!t.is_empty());
        assert!(!t.chars().any(char::is_whitespace));
        assert_ne!(t, "/*");
    }
}

#[test]
fn decimal_text_reads_back() {
    for n in [0u64, 1, 9, 10, 99, 100, 4_294_967_295, 123_456_789] {
        let s = decimal_string(n);
        assert_eq!(parse_usize(&s), Some(n as usize));
        if n <= u32::MAX as u64 {
            assert_eq!(parse_u32(&s), Some(n as u32));
        }
    }
}

#[test]
fn recorded_lists_stay_sorted_and_short() {
    let mut t = ScoreTable::new();
    for (i, s) in [5, 80, 15, 80, 3, 99, 42, 7, 61].iter().enumerate() {
        record_score_at(&mut t, "m", "P", *s, i as u64);
        let top = top_scores(&t, "m");
        assert!(top.len() <= MAX_PER_MISSION);
        assert!(top.windows(2).all(|w| w[0].score >= w[1].score));
    }
    let top: Vec<i32> = top_scores(&t, "m").iter().map(|e| e.score).collect();
    assert_eq!(top, vec![99, 80, 80, 61, 42]);
}

#[test]
fn new_score_is_kept_while_there_is_room() {
    let mut t = ScoreTable::new();
    record_score_at(&mut t, "m", "A", 100, 1);
    record_score_at(&mut t, "m", "B", 90, 2);
    record_score_at(&mut t, "m", "Low", 1, 3);
    assert!(top_scores(&t, "m").iter().any(|e| e.player_name == "Low"));
}

#[test]
fn saved_missions_stay_distinct() {
    let mut slots: Vec<SaveSlot> = Vec::new();
    for (i, m) in ["a", "b", "a", "c", "b", "b", "d"].iter().enumerate() {
        push_save_at(&mut slots, m, i as u64);
        assert_eq!(slots[0].mission, *m);
        for i in 0..slots.len() {
            for j in i + 1..slots.len() {
                assert_ne!(slots[i].mission, slots[j].mission);
            }
        }
    }
    let order: Vec<&str> = slots.iter().map(|s| s.mission.as_str()).collect();
    assert_eq!(order, vec!["d", "b", "c", "a"]);
}

#[test]
fn an_event_fires_once() {
    let mk = |name: &str| GameEvent {
        name: name.to_string(),
        pending: true,
        enabled: true,
        trigger: EventTrigger::True,
        ivalue: 0,
        cvalue: String::new(),
        actions: vec![EventAction {
            active: true,
            kind: EventActionKind::Disable,
            ivalue: 0,
            cvalue: "b".to_string(),
        }],
    };
    let mut evs = vec![mk("a"), mk("b")];
    fire_event(&mut evs, 0);
    assert!(!evs[0].pending);
    assert!(evs[1].pending);
    assert!(!evs[1].enabled);
}

#[test]
fn a_set_dot_is_visible() {
    for (x, y) in [(0u32, 0u32), (1, 2), (5, 7), (9, 3)] {
        let mut c = BrailleCanvas::new(10, 8);
        c.set(x, y);
        let rows = c.rows();
        let ch = rows[(y / 4) as usize].chars().nth((x / 2) as usize).unwrap();
        assert!(('\u{2801}'..='\u{28ff}').contains(&ch));
        let blanks = rows.iter().flat_map(|r| r.chars()).filter(|c| *c == ' ').count();
        assert_eq!(blanks, 5 * 2 - 1);
    }
}

#[test]
fn radar_rings_lie_inside() {
    for col in -5..26 {
        for row in -5..16 {
            if on_ring(col, row) || on_half_ring(col, row) {
                assert!(in_circle(col, row));
            }
            assert!(!(on_ring(col, row) && on_half_ring(col, row)));
        }
    }
}

#[test]
fn menu_selection_stays_in_range() {
    for start in 0..3usize {
        for has_saves in [false, true] {
            for k in all_keys() {
                let mut sel = start;
                title_key(&mut sel, has_saves, k);
                assert!(sel < 3);
            }
        }
    }
    for n in 1..4usize {
        for start in 0..n {
            for k in all_keys() {
                let mut sel = start;
                let a = load_key(&mut sel, n, k);
                assert!(sel < n);
                if let LoadAction::Load(i) = a {
                    assert!(i < n);
                }
            }
        }
    }
}

#[test]
fn cycling_locks_an_active_target() {
    let active = vec![true, false, false, true, false];
    for cur in [None, Some(0), Some(1), Some(3), Some(4), Some(17)] {
        let r = cycle_target(&active, cur).unwrap();
        assert!(active[r]);
    }
    assert_eq!(cycle_target(&vec![false; 4], Some(1)), None);
}

#[test]
fn texture_has_three_bytes_per_pixel() {
    let mut d = b"P6\n3 2\n255\n".to_vec();
    d.extend((0..18u8).collect::<Vec<u8>>());
    d.extend([1, 2, 3]);
    assert!(ppm_within_limits(&d));
    let t = PlanetTexture::from_ppm(&d).unwrap();
    assert_eq!(t.pixels.len(), (t.width * t.height * 3) as usize);
}

#[test]
fn words_ignore_case() {
    for w in ["Hunt1", "SIT4", "dance", "ApProAcH", "Shields", "MoveObject", "BETRAY", "x"] {
        let low = w.to_ascii_lowercase();
        assert_eq!(parse_strategy(w), parse_strategy(&low));
        assert_eq!(parse_trigger(w), parse_trigger(&low));
        assert_eq!(parse_action_kind(w), parse_action_kind(&low));
    }
}

#[test]
fn released_controls_after_clear() {
    let mut i = InputState { forward: true, fire: true, ..InputState::default() };
    i.clear();
    assert!(!i.forward && !i.fire && !i.roll_left);
}

#[test]
fn firing_only_switches_flags() {
    let mk = |name: &str, kind: EventActionKind, target: &str| GameEvent {
        name: name.to_string(),
        pending: true,
        enabled: true,
        trigger: EventTrigger::Score,
        ivalue: 7,
        cvalue: "v".to_string(),
        actions: vec![EventAction { active: true, kind, ivalue: 0, cvalue: target.to_string() }],
    };
    let mut evs = vec![
        mk("a", EventActionKind::Disable, "c"),
        mk("b", EventActionKind::Enable, "a"),
        mk("c", EventActionKind::Message, "hi"),
    ];
    fire_event(&mut evs, 0);
    assert_eq!(evs[0].name, "a");
    assert!(!evs[0].pending && evs[0].enabled);
    assert!(evs[1].pending && evs[1].enabled);
    assert!(evs[2].pending && !evs[2].enabled);
    for e in &evs {
        assert_eq!(e.trigger, EventTrigger::Score);
        assert_eq!(e.ivalue, 7);
        assert_eq!(e.cvalue, "v");
        assert_eq!(e.actions.len(), 1);
    }
}
