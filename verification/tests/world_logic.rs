use terminal_orbit::canvas::BrailleCanvas;
use terminal_orbit::console::toggle_message;
use terminal_orbit::loader::free_target_slot;
use terminal_orbit::events::{
    fire_event, notify_destroy, unescape_message, Effect, EventAction, GameEvent,
};
use terminal_orbit::numbers::{parse_hex_u32, parse_i32, parse_u32, parse_u8, parse_usize};
use terminal_orbit::texture::{ppm_within_limits, PlanetTexture};
use terminal_orbit::vocab::{EventActionKind, EventTrigger};

fn action(kind: EventActionKind, v: &str) -> EventAction {
    EventAction { active: true, kind, ivalue: 0, cvalue: v.to_string() }
}

fn event(name: &str, trigger: EventTrigger, cvalue: &str, actions: Vec<EventAction>) -> GameEvent {
    GameEvent {
        name: name.to_string(),
        pending: true,
        enabled: true,
        trigger,
        ivalue: 0,
        cvalue: cvalue.to_string(),
        actions,
    }
}

fn ppm(header: &str, body: &[u8]) -> Vec<u8> {
    let mut d = header.as_bytes().to_vec();
    d.extend_from_slice(body);
    d
}

fn decode(d: &[u8]) -> Option<PlanetTexture> {
    assert!(ppm_within_limits(d));
    PlanetTexture::from_ppm(d)
}

#[test]
fn integer_words() {
    assert_eq!(parse_i32("42"), Some(42));
    assert_eq!(parse_i32("+7"), Some(7));
    assert_eq!(parse_i32("-2147483648"), Some(i32::MIN));
    assert_eq!(parse_i32("2147483648"), None);
    assert_eq!(parse_i32("4x"), None);
    assert_eq!(parse_i32(""), None);
    assert_eq!(parse_i32("-"), None);
    assert_eq!(parse_i32(" 1"), None);
    assert_eq!(parse_usize("12"), Some(12));
    assert_eq!(parse_usize("-1"), None);
    assert_eq!(parse_u32("4294967295"), Some(u32::MAX));
    assert_eq!(parse_u32("4294967296"), None);
    assert_eq!(parse_u8("255"), Some(255));
    assert_eq!(parse_u8("256"), None);
    assert_eq!(parse_u8("+"), None);
}

#[test]
fn hex_words() {
    assert_eq!(parse_hex_u32("ff"), Some(255));
    assert_eq!(parse_hex_u32("FF00"), Some(0xff00));
    assert_eq!(parse_hex_u32("+10"), Some(16));
    assert_eq!(parse_hex_u32("ffffffff"), Some(u32::MAX));
    assert_eq!(parse_hex_u32("100000000"), None);
    assert_eq!(parse_hex_u32("0x10"), None);
    assert_eq!(parse_hex_u32("g"), None);
}

#[test]
fn numbers_agree_with_std() {
    for s in ["0", "00", "+0", "-0", "+", "-", "007", "99999999999", "-12", "1_0", "٣", "12 "] {
        assert_eq!(parse_i32(s), s.parse::<i32>().ok(), "i32 {s:?}");
        assert_eq!(parse_usize(s), s.parse::<usize>().ok(), "usize {s:?}");
        assert_eq!(parse_u8(s), s.parse::<u8>().ok(), "u8 {s:?}");
        assert_eq!(parse_hex_u32(s), u32::from_str_radix(s, 16).ok(), "hex {s:?}");
    }
}

#[test]
fn texture_decodes_p6() {
    let d = ppm("P6\n2 1\n255\n", &[1, 2, 3, 4, 5, 6]);
    let t = decode(&d).unwrap();
    assert_eq!((t.width, t.height), (2, 1));
    assert_eq!(t.pixels, vec![1, 2, 3, 4, 5, 6]);
}

#[test]
fn texture_header_comments_are_skipped() {
    let d = ppm("P6\n# made by hand\n1 1\n# depth\n255\n", &[9, 8, 7]);
    let t = decode(&d).unwrap();
    assert_eq!(t.pixels, vec![9, 8, 7]);
}

#[test]
fn texture_scales_small_maxval() {
    let d = ppm("P6 1 1 127 ", &[127, 0, 64]);
    let t = decode(&d).unwrap();
    assert_eq!(t.pixels, vec![255, 0, (64u32 * 255 / 127) as u8]);
}

#[test]
fn texture_extra_bytes_are_ignored() {
    let d = ppm("P6\n1 1\n255\n", &[1, 2, 3, 4, 5]);
    let t = decode(&d).unwrap();
    assert_eq!(t.pixels, vec![1, 2, 3]);
}

#[test]
fn texture_rejects_bad_data() {
    assert!(decode(b"P5\n1 1\n255\n\x01\x02\x03").is_none());
    assert!(decode(&ppm("P6\n2 2\n255\n", &[0; 11])).is_none());
    assert!(decode(b"P6\n1 1\n").is_none());
    assert!(decode(b"P6\nx 1\n255\n\x01\x02\x03").is_none());
    assert!(decode(b"P").is_none());
}

#[test]
fn texture_limits() {
    assert!(ppm_within_limits(b"P6 100 100 255 "));
    assert!(!ppm_within_limits(b"P6 70000 70000 255 "));
    assert!(!ppm_within_limits(b"P6 65536 65536 255 "));
    assert!(!ppm_within_limits(&ppm("P6 1 1 0 ", &[1, 2, 3])));
    assert!(ppm_within_limits(&ppm("P6 1 1 0 ", &[1, 2])));
    assert!(ppm_within_limits(b"not an image"));
}

#[test]
fn empty_canvas_rows_are_blank() {
    let c = BrailleCanvas::new(6, 8);
    assert_eq!(c.rows(), vec!["   ".to_string(), "   ".to_string()]);
}

#[test]
fn canvas_dots_make_braille() {
    let mut c = BrailleCanvas::new(4, 4);
    c.set(0, 0);
    assert_eq!(c.rows(), vec!["\u{2801} ".to_string()]);
    c.set(3, 3);
    assert_eq!(c.rows(), vec!["\u{2801}\u{2880}".to_string()]);
    c.set(4, 0);
    c.set(0, 4);
    assert_eq!(c.rows(), vec!["\u{2801}\u{2880}".to_string()]);
    c.clear();
    assert_eq!(c.rows(), vec!["  ".to_string()]);
}

#[test]
fn canvas_line_sets_every_dot() {
    let mut c = BrailleCanvas::new(4, 4);
    c.line(0, 0, 3, 0);
    assert_eq!(c.rows(), vec!["\u{2809}\u{2809}".to_string()]);
    let mut d = BrailleCanvas::new(2, 4);
    d.line(0, 0, 0, 3);
    assert_eq!(d.rows(), vec!["\u{2847}".to_string()]);
}

#[test]
fn canvas_line_off_canvas_is_ignored() {
    let mut c = BrailleCanvas::new(4, 4);
    c.line(0, 0, 4, 0);
    assert_eq!(c.rows(), vec!["  ".to_string()]);
}

#[test]
fn canvas_odd_size_rounds_down() {
    let c = BrailleCanvas::new(5, 7);
    assert_eq!(c.rows(), vec!["  ".to_string()]);
    let z = BrailleCanvas::new(1, 3);
    assert!(z.rows().is_empty());
}

#[test]
fn message_line_breaks() {
    assert_eq!(unescape_message("Hello\\\\pilot"), "Hello\npilot");
    assert_eq!(unescape_message("a\\\\\\b"), "a\n\\b");
    assert_eq!(unescape_message("a\\b"), "a\\b");
    assert_eq!(unescape_message(""), "");
    assert_eq!(unescape_message("\\\\\\\\"), "\n\n");
}

#[test]
fn firing_runs_actions_in_order() {
    let mut evs = vec![
        event(
            "start",
            EventTrigger::True,
            "",
            vec![
                action(EventActionKind::Message, "Go\\\\now"),
                action(EventActionKind::Enable, "SECOND"),
                action(EventActionKind::Hide, "bandit"),
                action(EventActionKind::Boom, ""),
                action(EventActionKind::LoadMission, "next.msn"),
                action(EventActionKind::Message, "later"),
            ],
        ),
        GameEvent { enabled: false, ..event("second", EventTrigger::Null, "", vec![]) },
    ];
    let f = fire_event(&mut evs, 0);
    assert!(!evs[0].pending);
    assert!(evs[1].enabled);
    assert_eq!(
        f.effects,
        vec![
            Effect::Message("Go\nnow".to_string()),
            Effect::HideTarget("bandit".to_string()),
            Effect::Boom(3),
            Effect::Message("later".to_string()),
        ]
    );
    assert_eq!(f.load.as_deref(), Some("next.msn"));
}

#[test]
fn actions_after_a_mission_load_still_run() {
    let mut evs = vec![event(
        "e",
        EventTrigger::True,
        "",
        vec![
            action(EventActionKind::LoadMission, "mars1.msn"),
            action(EventActionKind::Stop, ""),
            action(EventActionKind::LoadMission, "mars2.msn"),
            action(EventActionKind::Disable, "e"),
        ],
    )];
    let f = fire_event(&mut evs, 0);
    assert_eq!(f.effects, vec![Effect::StopPlayer]);
    assert_eq!(f.load.as_deref(), Some("mars1.msn"));
    assert!(!evs[0].pending);
    assert!(!evs[0].enabled);
}

#[test]
fn inactive_actions_are_skipped() {
    let mut evs = vec![event(
        "e",
        EventTrigger::True,
        "",
        vec![
            EventAction { active: false, ..action(EventActionKind::Stop, "") },
            action(EventActionKind::MovePlayer, ""),
            action(EventActionKind::Flash, ""),
            action(EventActionKind::NoAction, ""),
            action(EventActionKind::Betray, "wingman"),
        ],
    )];
    let f = fire_event(&mut evs, 0);
    assert_eq!(f.effects, vec![Effect::MovePlayer, Effect::Betray("wingman".to_string())]);
    assert_eq!(f.load, None);
}

#[test]
fn disable_can_switch_off_unknown_or_self() {
    let mut evs = vec![event(
        "self",
        EventTrigger::True,
        "",
        vec![action(EventActionKind::Disable, "self"), action(EventActionKind::Disable, "nobody")],
    )];
    let f = fire_event(&mut evs, 0);
    assert!(f.effects.is_empty());
    assert!(!evs[0].enabled);
    assert!(!evs[0].pending);
    assert_eq!(evs.len(), 1);
}

#[test]
fn destruction_fires_waiting_events() {
    let mut evs = vec![
        event("a", EventTrigger::Destroy, "Pirate", vec![action(EventActionKind::Enable, "b")]),
        GameEvent {
            enabled: false,
            ..event("b", EventTrigger::Destroy, "pirate", vec![action(EventActionKind::Message, "b")])
        },
        event("c", EventTrigger::Destroy, "other", vec![action(EventActionKind::Message, "c")]),
        event("d", EventTrigger::Score, "pirate", vec![action(EventActionKind::Message, "d")]),
    ];
    let fx = notify_destroy(&mut evs, "PIRATE");
    assert_eq!(fx, vec![(1, Effect::Message("b".to_string()))]);
    assert!(!evs[0].pending && !evs[1].pending);
    assert!(evs[2].pending && evs[3].pending);
    let again = notify_destroy(&mut evs, "pirate");
    assert!(again.is_empty());
}

#[test]
fn destruction_ignores_missions_to_load() {
    let mut evs = vec![
        event("a", EventTrigger::Destroy, "x", vec![action(EventActionKind::LoadMission, "m.msn")]),
        event("b", EventTrigger::Destroy, "x", vec![action(EventActionKind::Stop, "")]),
    ];
    let fx = notify_destroy(&mut evs, "x");
    assert_eq!(fx, vec![(1, Effect::StopPlayer)]);
}

#[test]
fn new_object_takes_first_free_slot() {
    assert_eq!(free_target_slot(&vec![false, true, true]), Ok(1));
    assert_eq!(free_target_slot(&vec![true]), Ok(0));
    assert_eq!(
        free_target_slot(&vec![false, false]),
        Err("Out of target slots".to_string())
    );
    assert_eq!(free_target_slot(&Vec::new()), Err("Out of target slots".to_string()));
}

#[test]
fn message_key_dismisses_and_recalls() {
    let mut text = "Incoming".to_string();
    assert!(!toggle_message(&mut text, "Incoming"));
    assert_eq!(text, "");
    assert!(toggle_message(&mut text, "Incoming"));
    assert_eq!(text, "Incoming");
    let mut none = String::new();
    assert!(!toggle_message(&mut none, ""));
    assert_eq!(none, "");
}
