use terminal_orbit::block::{arity_of, read_block, Arity, BlockKind};
use terminal_orbit::loader::{
    any_key, collect_args, find_last_arg, next_statement, parse_color, read_cursor, read_event,
    read_object, read_planet, read_weapon, word_named, CursorItem, PlanetOp, WeaponOp, Word,
};
use terminal_orbit::parser::Parser;
use terminal_orbit::vocab::{EventActionKind, EventTrigger, Strategy};

fn parser_with(text: &str) -> Parser {
    let mut p = Parser::new(String::from("missions"));
    p.push_file("m.msn", Ok(text.to_string())).unwrap();
    p
}

fn rest(p: &mut Parser) -> Vec<String> {
    let mut out = Vec::new();
    while let Some(t) = p.next() {
        out.push(t);
    }
    out
}

#[test]
fn arity_depends_on_block_kind() {
    assert_eq!(arity_of(BlockKind::Plain, "name"), Arity::Flag);
    assert_eq!(arity_of(BlockKind::Object, "NAME"), Arity::Token);
    assert_eq!(arity_of(BlockKind::Object, "hidden"), Arity::Flag);
    assert_eq!(arity_of(BlockKind::Planet, "map"), Arity::Token);
    assert_eq!(arity_of(BlockKind::Weapon, "Color"), Arity::Token);
    assert_eq!(arity_of(BlockKind::Event, "value"), Arity::Value);
    assert_eq!(arity_of(BlockKind::Event, "disabled"), Arity::Flag);
}

#[test]
fn read_block_pairs_keys_with_arguments() {
    let mut p = parser_with("name Bob hidden score 10 } tail");
    let b = read_block(&mut p, BlockKind::Object);
    assert!(b.closed);
    let got: Vec<(String, Option<String>)> =
        b.entries.iter().map(|e| (e.key.clone(), e.arg.clone())).collect();
    assert_eq!(
        got,
        vec![
            ("name".to_string(), Some("Bob".to_string())),
            ("hidden".to_string(), None),
            ("score".to_string(), Some("10".to_string())),
        ]
    );
    assert_eq!(rest(&mut p), vec!["tail".to_string()]);
}

#[test]
fn read_block_argument_may_be_a_brace() {
    let mut p = parser_with("name } friendly }");
    let b = read_block(&mut p, BlockKind::Object);
    assert!(b.closed);
    assert_eq!(b.entries.len(), 2);
    assert_eq!(b.entries[0].arg.as_deref(), Some("}"));
    assert_eq!(b.entries[1].key, "friendly");
}

#[test]
fn read_block_unclosed() {
    let mut p = parser_with("name");
    let b = read_block(&mut p, BlockKind::Object);
    assert!(!b.closed);
    assert_eq!(p.next(), None);
}

#[test]
fn entry_queries() {
    let mut p = parser_with("model a.ac name X model b.ac name Y friendly }");
    let b = read_block(&mut p, BlockKind::Object);
    assert_eq!(find_last_arg(&b.entries, "name").as_deref(), Some("Y"));
    assert_eq!(find_last_arg(&b.entries, "score"), None);
    assert_eq!(collect_args(&b.entries, "MODEL"), vec!["a.ac".to_string(), "b.ac".to_string()]);
    assert!(any_key(&b.entries, "friendly"));
    assert!(!any_key(&b.entries, "hidden"));
}

#[test]
fn object_block_fields() {
    let mut p = parser_with(
        "name Freighter model ship.ac score 250 strategy HUNT2 hidden weapon 7 speed 0.02 } x",
    );
    let o = read_object(&mut p);
    assert!(o.complete);
    assert_eq!(o.name.as_deref(), Some("Freighter"));
    assert_eq!(o.models, vec!["ship.ac".to_string()]);
    assert_eq!(o.score, Some(250));
    assert_eq!(o.strategy, Some(Strategy::Hunt2));
    assert!(o.hidden);
    assert!(!o.invisible);
    assert!(!o.friendly);
    assert_eq!(o.weapon, Some(7));
    assert_eq!(o.speed.as_deref(), Some("0.02"));
    assert_eq!(o.maxshields, None);
    assert_eq!(rest(&mut p), vec!["x".to_string()]);
}

#[test]
fn object_bad_numbers_take_defaults() {
    let mut p = parser_with("score lots weapon none }");
    let o = read_object(&mut p);
    assert_eq!(o.score, Some(0));
    assert_eq!(o.weapon, Some(4));
}

#[test]
fn object_weapon_is_capped_at_last_weapon() {
    let mut p = parser_with("weapon 99 }");
    let o = read_object(&mut p);
    assert_eq!(o.weapon, Some(9));
}

#[test]
fn object_unknown_strategy_does_nothing() {
    let mut p = parser_with("strategy dance }");
    let o = read_object(&mut p);
    assert_eq!(o.strategy, Some(Strategy::DoNothing));
}

#[test]
fn object_missing_close() {
    let mut p = parser_with("name Ghost");
    let o = read_object(&mut p);
    assert!(!o.complete);
    assert_eq!(o.name.as_deref(), Some("Ghost"));
}

#[test]
fn event_block_fields() {
    let mut p = parser_with(
        "name boss_dead trigger destroy value Boss action message value { Well done\\\\pilot } \
         action enable value next disabled } after",
    );
    let e = read_event(&mut p);
    assert!(e.complete);
    assert_eq!(e.name, "boss_dead");
    assert_eq!(e.trigger, EventTrigger::Destroy);
    assert_eq!(e.cvalue, "Boss");
    assert_eq!(e.ivalue, 0);
    assert!(!e.enabled);
    assert_eq!(e.actions.len(), 2);
    assert_eq!(e.actions[0].kind, EventActionKind::Message);
    assert_eq!(e.actions[0].cvalue, "Well done\\\\pilot");
    assert_eq!(e.actions[1].kind, EventActionKind::Enable);
    assert_eq!(e.actions[1].cvalue, "next");
    assert_eq!(rest(&mut p), vec!["after".to_string()]);
}

#[test]
fn event_value_after_new_trigger_belongs_to_trigger() {
    let mut p = parser_with("action boom trigger score value 30 }");
    let e = read_event(&mut p);
    assert_eq!(e.trigger, EventTrigger::Score);
    assert_eq!(e.cvalue, "30");
    assert_eq!(e.ivalue, 30);
    assert_eq!(e.actions.len(), 1);
    assert_eq!(e.actions[0].kind, EventActionKind::Boom);
    assert_eq!(e.actions[0].cvalue, "");
}

#[test]
fn event_action_values_are_numbers_too() {
    let mut p = parser_with("trigger true action boom value -12 }");
    let e = read_event(&mut p);
    assert!(e.enabled);
    assert_eq!(e.trigger, EventTrigger::True);
    assert_eq!(e.actions[0].ivalue, -12);
}

#[test]
fn planet_block_ops_in_order() {
    let mut p = parser_with("name Earth newname Terra reposition hidden map e.ppm radius 6371 }");
    let s = read_planet(&mut p);
    assert!(s.complete);
    assert_eq!(
        s.ops,
        vec![
            PlanetOp::Select("Earth".to_string()),
            PlanetOp::Rename("Terra".to_string()),
            PlanetOp::Reposition,
            PlanetOp::Hide,
            PlanetOp::Radius("6371".to_string()),
        ]
    );
}

#[test]
fn weapon_block_ops() {
    let mut p = parser_with("index 2 name Blaster renderer 3 color 0xff8000 yield 40 }");
    let w = read_weapon(&mut p);
    assert!(w.complete);
    assert_eq!(
        w.ops,
        vec![
            WeaponOp::Index(2),
            WeaponOp::Name("Blaster".to_string()),
            WeaponOp::Renderer(3),
            WeaponOp::Color(0xff, 0x80, 0x00),
            WeaponOp::Yield("40".to_string()),
        ]
    );
}

#[test]
fn weapon_bad_numbers_read_as_zero() {
    let mut p = parser_with("index many renderer 300 }");
    let w = read_weapon(&mut p);
    assert_eq!(w.ops, vec![WeaponOp::Index(0), WeaponOp::Renderer(0)]);
}

#[test]
fn colors() {
    assert_eq!(parse_color("0x102030"), (0x10, 0x20, 0x30));
    assert_eq!(parse_color("ABCDEF"), (0xab, 0xcd, 0xef));
    assert_eq!(parse_color("0x0x00ff00"), (0, 0xff, 0));
    assert_eq!(parse_color("green"), (0, 0, 0));
    assert_eq!(parse_color("0x1ffffff"), (0xff, 0xff, 0xff));
}

#[test]
fn cursor_items() {
    let mut p = parser_with("100 +5 -2 Earth }");
    let c = read_cursor(&mut p);
    assert!(c.complete);
    assert_eq!(
        c.items,
        vec![
            CursorItem::Number { relative: false, text: "100".to_string() },
            CursorItem::Number { relative: true, text: "+5".to_string() },
            CursorItem::Number { relative: true, text: "-2".to_string() },
            CursorItem::Name("Earth".to_string()),
        ]
    );
}

#[test]
fn keywords_ignore_case() {
    assert_eq!(word_named("OBJECT"), Some(Word::Object));
    assert_eq!(word_named("Include"), Some(Word::Include));
    assert_eq!(word_named("terse"), Some(Word::Terse));
    assert_eq!(word_named("objects"), None);
}

#[test]
fn statements_in_order() {
    let mut p = parser_with("junk player { } verbose include more.inc object { name A }");
    let s = next_statement(&mut p).unwrap().unwrap();
    assert_eq!(s.word, Word::Player);
    assert_eq!(rest_until_close(&mut p), 0);
    let s = next_statement(&mut p).unwrap().unwrap();
    assert_eq!(s.word, Word::Verbose);
    let s = next_statement(&mut p).unwrap().unwrap();
    assert_eq!(s.word, Word::Include);
    assert_eq!(s.file.as_deref(), Some("more.inc"));
    let s = next_statement(&mut p).unwrap().unwrap();
    assert_eq!(s.word, Word::Object);
    let o = read_object(&mut p);
    assert_eq!(o.name.as_deref(), Some("A"));
    assert!(next_statement(&mut p).unwrap().is_none());
}

fn rest_until_close(p: &mut Parser) -> usize {
    let mut n = 0;
    loop {
        let t = p.next().unwrap();
        if t == "}" {
            return n;
        }
        n += 1;
    }
}

#[test]
fn statement_without_brace() {
    let mut p = parser_with("planet Earth");
    let r = next_statement(&mut p);
    assert_eq!(r.err(), Some("Expected '{', found 'Earth'".to_string()));
}

#[test]
fn statement_cut_short() {
    let mut p = parser_with("include");
    let r = next_statement(&mut p);
    assert_eq!(r.err(), Some("Unexpected end of mission file".to_string()));
}
