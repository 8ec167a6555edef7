use terminal_orbit::saves::{decimal_string, push_save, push_save_at, save_path, SaveSlot};
use terminal_orbit::scores::{
    record_score, record_score_at, score_path, top_scores, ScoreEntry, ScoreTable,
    MAX_PER_MISSION,
};

fn entry(name: &str, score: i32, ts: u64) -> ScoreEntry {
    ScoreEntry { player_name: name.to_string(), score, timestamp: ts }
}

fn slot(m: &str, ts: u64) -> SaveSlot {
    SaveSlot { mission: m.to_string(), timestamp: ts }
}

fn scores_of(v: &[ScoreEntry]) -> Vec<i32> {
    v.iter().map(|e| e.score).collect()
}

#[test]
fn empty_table_has_no_scores() {
    let t = ScoreTable::new();
    assert!(top_scores(&t, "train01.msn").is_empty());
}

#[test]
fn top_scores_of_known_mission() {
    let t = ScoreTable::from_lists(vec![
        ("a.msn".to_string(), vec![entry("Ace", 90, 1), entry("Bo", 50, 2)]),
        ("b.msn".to_string(), vec![entry("Cy", 10, 3)]),
    ]);
    assert_eq!(top_scores(&t, "a.msn"), vec![entry("Ace", 90, 1), entry("Bo", 50, 2)]);
    assert_eq!(top_scores(&t, "b.msn"), vec![entry("Cy", 10, 3)]);
    assert!(top_scores(&t, "c.msn").is_empty());
}

#[test]
fn record_keeps_highest_first() {
    let mut t = ScoreTable::new();
    record_score_at(&mut t, "m", "Ace", 30, 100);
    record_score_at(&mut t, "m", "Bo", 70, 101);
    record_score_at(&mut t, "m", "Cy", 50, 102);
    assert_eq!(
        top_scores(&t, "m"),
        vec![entry("Bo", 70, 101), entry("Cy", 50, 102), entry("Ace", 30, 100)]
    );
}

#[test]
fn record_equal_score_goes_after_older() {
    let mut t = ScoreTable::new();
    record_score_at(&mut t, "m", "Old", 40, 1);
    record_score_at(&mut t, "m", "New", 40, 2);
    assert_eq!(top_scores(&t, "m"), vec![entry("Old", 40, 1), entry("New", 40, 2)]);
}

#[test]
fn record_keeps_only_the_best_five() {
    let mut t = ScoreTable::new();
    for (i, s) in [10, 60, 20, 50, 30, 40, 5].iter().enumerate() {
        record_score_at(&mut t, "m", "P", *s, i as u64);
    }
    let top = top_scores(&t, "m");
    assert_eq!(top.len(), MAX_PER_MISSION);
    assert_eq!(scores_of(&top), vec![60, 50, 40, 30, 20]);
}

#[test]
fn record_ignores_non_positive_scores() {
    let mut t = ScoreTable::new();
    record_score_at(&mut t, "m", "Zero", 0, 1);
    record_score_at(&mut t, "m", "Neg", -5, 1);
    record_score(&mut t, "m", "Zero", 0);
    assert!(top_scores(&t, "m").is_empty());
    assert!(t.into_lists().is_empty());
}

#[test]
fn record_leaves_other_missions_alone() {
    let mut t = ScoreTable::from_lists(vec![("other".to_string(), vec![entry("X", 5, 9)])]);
    record_score_at(&mut t, "m", "Ace", 12, 10);
    assert_eq!(top_scores(&t, "other"), vec![entry("X", 5, 9)]);
    assert_eq!(top_scores(&t, "m"), vec![entry("Ace", 12, 10)]);
}

#[test]
fn record_score_uses_the_clock() {
    let mut t = ScoreTable::new();
    record_score(&mut t, "m", "Ace", 8);
    let top = top_scores(&t, "m");
    assert_eq!(top.len(), 1);
    assert_eq!(top[0].player_name, "Ace");
    assert_eq!(top[0].score, 8);
    assert!(top[0].timestamp > 1_600_000_000);
}

#[test]
fn paths_inside_config_dir() {
    assert_eq!(score_path("/home/u/.config/terminal-orbit"), "/home/u/.config/terminal-orbit/scores.toml");
    assert_eq!(save_path("/home/u/.config/terminal-orbit"), "/home/u/.config/terminal-orbit/saves.toml");
    assert_eq!(save_path("cfg/"), "cfg/saves.toml");
}

#[test]
fn decimal_strings() {
    assert_eq!(decimal_string(0), "0");
    assert_eq!(decimal_string(7), "7");
    assert_eq!(decimal_string(120), "120");
    assert_eq!(decimal_string(u64::MAX), u64::MAX.to_string());
}

#[test]
fn display_time_buckets() {
    let s = slot("m", 1_000_000);
    assert_eq!(s.display_time_at(1_000_000), "just now");
    assert_eq!(s.display_time_at(1_000_119), "just now");
    assert_eq!(s.display_time_at(1_000_120), "2 min ago");
    assert_eq!(s.display_time_at(1_000_000 + 59 * 60 + 59), "59 min ago");
    assert_eq!(s.display_time_at(1_000_000 + 3600), "1 hr ago");
    assert_eq!(s.display_time_at(1_000_000 + 23 * 3600 + 3599), "23 hr ago");
    assert_eq!(s.display_time_at(1_000_000 + 24 * 3600), "1 days ago");
    assert_eq!(s.display_time_at(1_000_000 + 10 * 86400), "10 days ago");
}

#[test]
fn display_time_of_future_slot_is_just_now() {
    let s = slot("m", 5_000);
    assert_eq!(s.display_time_at(10), "just now");
}

#[test]
fn display_time_with_clock() {
    let s = slot("m", 0);
    assert!(s.display_time().ends_with("days ago"));
}

#[test]
fn push_save_puts_newest_first_and_dedups() {
    let mut slots = vec![slot("a.msn", 1), slot("b.msn", 2), slot("c.msn", 3)];
    push_save_at(&mut slots, "b.msn", 10);
    assert_eq!(slots, vec![slot("b.msn", 10), slot("a.msn", 1), slot("c.msn", 3)]);
}

#[test]
fn push_save_keeps_ten() {
    let mut slots: Vec<SaveSlot> = (0..10).map(|i| slot(&format!("m{}.msn", i), i)).collect();
    push_save_at(&mut slots, "new.msn", 99);
    assert_eq!(slots.len(), 10);
    assert_eq!(slots[0], slot("new.msn", 99));
    assert_eq!(slots[9], slot("m8.msn", 8));
}

#[test]
fn push_save_skips_special_missions() {
    let mut slots = vec![slot("a.msn", 1)];
    push_save_at(&mut slots, "lose.msn", 5);
    push_save_at(&mut slots, "null.msn", 5);
    push_save_at(&mut slots, "template.msn", 5);
    push_save(&mut slots, "lose.msn");
    assert_eq!(slots, vec![slot("a.msn", 1)]);
}

#[test]
fn push_save_uses_the_clock() {
    let mut slots = Vec::new();
    push_save(&mut slots, "train01.msn");
    assert_eq!(slots.len(), 1);
    assert_eq!(slots[0].mission, "train01.msn");
    assert!(slots[0].timestamp > 1_600_000_000);
}

#[test]
fn slot_clone_is_equal() {
    let s = slot("x.msn", 42);
    assert_eq!(s.clone(), s);
    let e = entry("A", 1, 2);
    assert_eq!(e.clone(), e);
}
