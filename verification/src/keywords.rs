//! What the key words of a mission file mean: each word names its own
//! strategy, trigger, action or step, whatever its ASCII case.

use vstd::prelude::*;
use crate::text::{lower, lower_char, matches_kw};
use crate::vocab::{EventActionKind, EventTrigger, Strategy, action_named, strategy_named, trigger_named};
use crate::loader::{
    CursorItemView, ObjectSpec, Word, cursor_item, last_arg, object_matches, word_of,
    EventModel, PlanetOpView, WeaponOpView, color_of, event_step, planet_ops, weapon_ops, weapon_step,
};
use crate::numbers::unsigned_text;
use crate::block::opt_view;

verus! {

/// A key that matches `w1` does not match a word `w2` that differs from it
/// in length, or at position `j` once lower-cased.
pub proof fn lemma_kw_ne(k: Seq<char>, w1: Seq<char>, w2: Seq<char>, j: int)
    requires
        matches_kw(k, w1),
        w1.len() != w2.len() || (0 <= j < w1.len() && j < w2.len() && lower_char(w1[j])
            != lower_char(w2[j])),
    ensures
        !matches_kw(k, w2),
{
    if matches_kw(k, w2) {
        assert(lower(w1) == lower(w2));
        assert(lower(w1).len() == w1.len());
        assert(lower(w2).len() == w2.len());
        if w1.len() == w2.len() {
            assert(lower(w1)[j] == lower_char(w1[j]));
            assert(lower(w2)[j] == lower_char(w2[j]));
        }
    }
}

/// Each strategy word names its own strategy, whatever its ASCII case:
/// `sit1` to `sit4` the sitting ones and `hunt1` to `hunt4` the hunting
/// ones; any other word means doing nothing.
pub proof fn law_strategy_words(s: Seq<char>)
    ensures
        matches_kw(s, "sit1"@) ==> strategy_named(s) == Strategy::Sit1,
        matches_kw(s, "sit2"@) ==> strategy_named(s) == Strategy::Sit2,
        matches_kw(s, "sit3"@) ==> strategy_named(s) == Strategy::Sit3,
        matches_kw(s, "sit4"@) ==> strategy_named(s) == Strategy::Sit4,
        matches_kw(s, "hunt1"@) ==> strategy_named(s) == Strategy::Hunt1,
        matches_kw(s, "hunt2"@) ==> strategy_named(s) == Strategy::Hunt2,
        matches_kw(s, "hunt3"@) ==> strategy_named(s) == Strategy::Hunt3,
        matches_kw(s, "hunt4"@) ==> strategy_named(s) == Strategy::Hunt4,
        !matches_kw(s, "sit1"@) && !matches_kw(s, "sit2"@) && !matches_kw(s, "sit3"@) && !matches_kw(s, "sit4"@) && !matches_kw(s, "hunt1"@) && !matches_kw(s, "hunt2"@) && !matches_kw(s, "hunt3"@) && !matches_kw(s, "hunt4"@) ==> strategy_named(s) == Strategy::DoNothing,
{
    reveal_strlit("sit1");
    reveal_strlit("sit2");
    reveal_strlit("sit3");
    reveal_strlit("sit4");
    reveal_strlit("hunt1");
    reveal_strlit("hunt2");
    reveal_strlit("hunt3");
    reveal_strlit("hunt4");
    if matches_kw(s, "sit2"@) {
        lemma_kw_ne(s, "sit2"@, "sit1"@, 3);
    }
    if matches_kw(s, "sit3"@) {
        lemma_kw_ne(s, "sit3"@, "sit1"@, 3);
        lemma_kw_ne(s, "sit3"@, "sit2"@, 3);
    }
    if matches_kw(s, "sit4"@) {
        lemma_kw_ne(s, "sit4"@, "sit1"@, 3);
        lemma_kw_ne(s, "sit4"@, "sit2"@, 3);
        lemma_kw_ne(s, "sit4"@, "sit3"@, 3);
    }
    if matches_kw(s, "hunt1"@) {
        lemma_kw_ne(s, "hunt1"@, "sit1"@, 0);
        lemma_kw_ne(s, "hunt1"@, "sit2"@, 0);
        lemma_kw_ne(s, "hunt1"@, "sit3"@, 0);
        lemma_kw_ne(s, "hunt1"@, "sit4"@, 0);
    }
    if matches_kw(s, "hunt2"@) {
        lemma_kw_ne(s, "hunt2"@, "sit1"@, 0);
        lemma_kw_ne(s, "hunt2"@, "sit2"@, 0);
        lemma_kw_ne(s, "hunt2"@, "sit3"@, 0);
        lemma_kw_ne(s, "hunt2"@, "sit4"@, 0);
        lemma_kw_ne(s, "hunt2"@, "hunt1"@, 4);
    }
    if matches_kw(s, "hunt3"@) {
        lemma_kw_ne(s, "hunt3"@, "sit1"@, 0);
        lemma_kw_ne(s, "hunt3"@, "sit2"@, 0);
        lemma_kw_ne(s, "hunt3"@, "sit3"@, 0);
        lemma_kw_ne(s, "hunt3"@, "sit4"@, 0);
        lemma_kw_ne(s, "hunt3"@, "hunt1"@, 4);
        lemma_kw_ne(s, "hunt3"@, "hunt2"@, 4);
    }
    if matches_kw(s, "hunt4"@) {
        lemma_kw_ne(s, "hunt4"@, "sit1"@, 0);
        lemma_kw_ne(s, "hunt4"@, "sit2"@, 0);
        lemma_kw_ne(s, "hunt4"@, "sit3"@, 0);
        lemma_kw_ne(s, "hunt4"@, "sit4"@, 0);
        lemma_kw_ne(s, "hunt4"@, "hunt1"@, 4);
        lemma_kw_ne(s, "hunt4"@, "hunt2"@, 4);
        lemma_kw_ne(s, "hunt4"@, "hunt3"@, 4);
    }
}

/// Each trigger word names its own trigger, whatever its ASCII case; any
/// other word names none.
pub proof fn law_trigger_words(s: Seq<char>)
    ensures
        matches_kw(s, "approach"@) ==> trigger_named(s) == EventTrigger::Approach,
        matches_kw(s, "depart"@) ==> trigger_named(s) == EventTrigger::Depart,
        matches_kw(s, "true"@) ==> trigger_named(s) == EventTrigger::True,
        matches_kw(s, "score"@) ==> trigger_named(s) == EventTrigger::Score,
        matches_kw(s, "destroy"@) ==> trigger_named(s) == EventTrigger::Destroy,
        matches_kw(s, "alarm"@) ==> trigger_named(s) == EventTrigger::Alarm,
        matches_kw(s, "stopnear"@) ==> trigger_named(s) == EventTrigger::StopNear,
        matches_kw(s, "shields"@) ==> trigger_named(s) == EventTrigger::Shields,
        !matches_kw(s, "approach"@) && !matches_kw(s, "depart"@) && !matches_kw(s, "true"@) && !matches_kw(s, "score"@) && !matches_kw(s, "destroy"@) && !matches_kw(s, "alarm"@) && !matches_kw(s, "stopnear"@) && !matches_kw(s, "shields"@) ==> trigger_named(s) == EventTrigger::Null,
{
    reveal_strlit("approach");
    reveal_strlit("depart");
    reveal_strlit("true");
    reveal_strlit("score");
    reveal_strlit("destroy");
    reveal_strlit("alarm");
    reveal_strlit("stopnear");
    reveal_strlit("shields");
    if matches_kw(s, "depart"@) {
        lemma_kw_ne(s, "depart"@, "approach"@, 0);
    }
    if matches_kw(s, "true"@) {
        lemma_kw_ne(s, "true"@, "approach"@, 0);
        lemma_kw_ne(s, "true"@, "depart"@, 0);
    }
    if matches_kw(s, "score"@) {
        lemma_kw_ne(s, "score"@, "approach"@, 0);
        lemma_kw_ne(s, "score"@, "depart"@, 0);
        lemma_kw_ne(s, "score"@, "true"@, 0);
    }
    if matches_kw(s, "destroy"@) {
        lemma_kw_ne(s, "destroy"@, "approach"@, 0);
        lemma_kw_ne(s, "destroy"@, "depart"@, 0);
        lemma_kw_ne(s, "destroy"@, "true"@, 0);
        lemma_kw_ne(s, "destroy"@, "score"@, 0);
    }
    if matches_kw(s, "alarm"@) {
        lemma_kw_ne(s, "alarm"@, "approach"@, 0);
        lemma_kw_ne(s, "alarm"@, "depart"@, 0);
        lemma_kw_ne(s, "alarm"@, "true"@, 0);
        lemma_kw_ne(s, "alarm"@, "score"@, 0);
        lemma_kw_ne(s, "alarm"@, "destroy"@, 0);
    }
    if matches_kw(s, "stopnear"@) {
        lemma_kw_ne(s, "stopnear"@, "approach"@, 0);
        lemma_kw_ne(s, "stopnear"@, "depart"@, 0);
        lemma_kw_ne(s, "stopnear"@, "true"@, 0);
        lemma_kw_ne(s, "stopnear"@, "score"@, 0);
        lemma_kw_ne(s, "stopnear"@, "destroy"@, 0);
        lemma_kw_ne(s, "stopnear"@, "alarm"@, 0);
    }
    if matches_kw(s, "shields"@) {
        lemma_kw_ne(s, "shields"@, "approach"@, 0);
        lemma_kw_ne(s, "shields"@, "depart"@, 0);
        lemma_kw_ne(s, "shields"@, "true"@, 0);
        lemma_kw_ne(s, "shields"@, "score"@, 0);
        lemma_kw_ne(s, "shields"@, "destroy"@, 0);
        lemma_kw_ne(s, "shields"@, "alarm"@, 0);
        lemma_kw_ne(s, "shields"@, "stopnear"@, 0);
    }
}

/// Each action word names its own action, whatever its ASCII case (`destroy`
/// is another word for `boom`); `score` and any other word name no action.
pub proof fn law_action_words(s: Seq<char>)
    ensures
        matches_kw(s, "message"@) ==> action_named(s) == EventActionKind::Message,
        matches_kw(s, "hide"@) ==> action_named(s) == EventActionKind::Hide,
        matches_kw(s, "unhide"@) ==> action_named(s) == EventActionKind::Unhide,
        matches_kw(s, "destroy"@) ==> action_named(s) == EventActionKind::Boom,
        matches_kw(s, "score"@) ==> action_named(s) == EventActionKind::NoAction,
        matches_kw(s, "enable"@) ==> action_named(s) == EventActionKind::Enable,
        matches_kw(s, "disable"@) ==> action_named(s) == EventActionKind::Disable,
        matches_kw(s, "loadmission"@) ==> action_named(s) == EventActionKind::LoadMission,
        matches_kw(s, "stop"@) ==> action_named(s) == EventActionKind::Stop,
        matches_kw(s, "boom"@) ==> action_named(s) == EventActionKind::Boom,
        matches_kw(s, "flash"@) ==> action_named(s) == EventActionKind::Flash,
        matches_kw(s, "moveobject"@) ==> action_named(s) == EventActionKind::MoveObject,
        matches_kw(s, "moveplayer"@) ==> action_named(s) == EventActionKind::MovePlayer,
        matches_kw(s, "moveplanet"@) ==> action_named(s) == EventActionKind::MovePlanet,
        matches_kw(s, "hideplanet"@) ==> action_named(s) == EventActionKind::HidePlanet,
        matches_kw(s, "unhideplanet"@) ==> action_named(s) == EventActionKind::UnhidePlanet,
        matches_kw(s, "betray"@) ==> action_named(s) == EventActionKind::Betray,
        !matches_kw(s, "message"@) && !matches_kw(s, "hide"@) && !matches_kw(s, "unhide"@) && !matches_kw(s, "destroy"@) && !matches_kw(s, "score"@) && !matches_kw(s, "enable"@) && !matches_kw(s, "disable"@) && !matches_kw(s, "loadmission"@) && !matches_kw(s, "stop"@) && !matches_kw(s, "boom"@) && !matches_kw(s, "flash"@) && !matches_kw(s, "moveobject"@) && !matches_kw(s, "moveplayer"@) && !matches_kw(s, "moveplanet"@) && !matches_kw(s, "hideplanet"@) && !matches_kw(s, "unhideplanet"@) && !matches_kw(s, "betray"@) ==> action_named(s) == EventActionKind::NoAction,
{
    reveal_strlit("message");
    reveal_strlit("hide");
    reveal_strlit("unhide");
    reveal_strlit("destroy");
    reveal_strlit("score");
    reveal_strlit("enable");
    reveal_strlit("disable");
    reveal_strlit("loadmission");
    reveal_strlit("stop");
    reveal_strlit("boom");
    reveal_strlit("flash");
    reveal_strlit("moveobject");
    reveal_strlit("moveplayer");
    reveal_strlit("moveplanet");
    reveal_strlit("hideplanet");
    reveal_strlit("unhideplanet");
    reveal_strlit("betray");
    if matches_kw(s, "hide"@) {
        lemma_kw_ne(s, "hide"@, "message"@, 0);
    }
    if matches_kw(s, "unhide"@) {
        lemma_kw_ne(s, "unhide"@, "message"@, 0);
        lemma_kw_ne(s, "unhide"@, "hide"@, 0);
    }
    if matches_kw(s, "destroy"@) {
        lemma_kw_ne(s, "destroy"@, "message"@, 0);
        lemma_kw_ne(s, "destroy"@, "hide"@, 0);
        lemma_kw_ne(s, "destroy"@, "unhide"@, 0);
    }
    if matches_kw(s, "score"@) {
        lemma_kw_ne(s, "score"@, "message"@, 0);
        lemma_kw_ne(s, "score"@, "hide"@, 0);
        lemma_kw_ne(s, "score"@, "unhide"@, 0);
        lemma_kw_ne(s, "score"@, "destroy"@, 0);
    }
    if matches_kw(s, "enable"@) {
        lemma_kw_ne(s, "enable"@, "message"@, 0);
        lemma_kw_ne(s, "enable"@, "hide"@, 0);
        lemma_kw_ne(s, "enable"@, "unhide"@, 0);
        lemma_kw_ne(s, "enable"@, "destroy"@, 0);
        lemma_kw_ne(s, "enable"@, "score"@, 0);
    }
    if matches_kw(s, "disable"@) {
        lemma_kw_ne(s, "disable"@, "message"@, 0);
        lemma_kw_ne(s, "disable"@, "hide"@, 0);
        lemma_kw_ne(s, "disable"@, "unhide"@, 0);
        lemma_kw_ne(s, "disable"@, "destroy"@, 1);
        lemma_kw_ne(s, "disable"@, "score"@, 0);
        lemma_kw_ne(s, "disable"@, "enable"@, 0);
    }
    if matches_kw(s, "loadmission"@) {
        lemma_kw_ne(s, "loadmission"@, "message"@, 0);
        lemma_kw_ne(s, "loadmission"@, "hide"@, 0);
        lemma_kw_ne(s, "loadmission"@, "unhide"@, 0);
        lemma_kw_ne(s, "loadmission"@, "destroy"@, 0);
        lemma_kw_ne(s, "loadmission"@, "score"@, 0);
        lemma_kw_ne(s, "loadmission"@, "enable"@, 0);
        lemma_kw_ne(s, "loadmission"@, "disable"@, 0);
    }
    if matches_kw(s, "stop"@) {
        lemma_kw_ne(s, "stop"@, "message"@, 0);
        lemma_kw_ne(s, "stop"@, "hide"@, 0);
        lemma_kw_ne(s, "stop"@, "unhide"@, 0);
        lemma_kw_ne(s, "stop"@, "destroy"@, 0);
        lemma_kw_ne(s, "stop"@, "score"@, 0);
        lemma_kw_ne(s, "stop"@, "enable"@, 0);
        lemma_kw_ne(s, "stop"@, "disable"@, 0);
        lemma_kw_ne(s, "stop"@, "loadmission"@, 0);
    }
    if matches_kw(s, "boom"@) {
        lemma_kw_ne(s, "boom"@, "message"@, 0);
        lemma_kw_ne(s, "boom"@, "hide"@, 0);
        lemma_kw_ne(s, "boom"@, "unhide"@, 0);
        lemma_kw_ne(s, "boom"@, "destroy"@, 0);
        lemma_kw_ne(s, "boom"@, "score"@, 0);
        lemma_kw_ne(s, "boom"@, "enable"@, 0);
        lemma_kw_ne(s, "boom"@, "disable"@, 0);
        lemma_kw_ne(s, "boom"@, "loadmission"@, 0);
        lemma_kw_ne(s, "boom"@, "stop"@, 0);
    }
    if matches_kw(s, "flash"@) {
        lemma_kw_ne(s, "flash"@, "message"@, 0);
        lemma_kw_ne(s, "flash"@, "hide"@, 0);
        lemma_kw_ne(s, "flash"@, "unhide"@, 0);
        lemma_kw_ne(s, "flash"@, "destroy"@, 0);
        lemma_kw_ne(s, "flash"@, "score"@, 0);
        lemma_kw_ne(s, "flash"@, "enable"@, 0);
        lemma_kw_ne(s, "flash"@, "disable"@, 0);
        lemma_kw_ne(s, "flash"@, "loadmission"@, 0);
        lemma_kw_ne(s, "flash"@, "stop"@, 0);
        lemma_kw_ne(s, "flash"@, "boom"@, 0);
    }
    if matches_kw(s, "moveobject"@) {
        lemma_kw_ne(s, "moveobject"@, "message"@, 0);
        lemma_kw_ne(s, "moveobject"@, "hide"@, 0);
        lemma_kw_ne(s, "moveobject"@, "unhide"@, 0);
        lemma_kw_ne(s, "moveobject"@, "destroy"@, 0);
        lemma_kw_ne(s, "moveobject"@, "score"@, 0);
        lemma_kw_ne(s, "moveobject"@, "enable"@, 0);
        lemma_kw_ne(s, "moveobject"@, "disable"@, 0);
        lemma_kw_ne(s, "moveobject"@, "loadmission"@, 0);
        lemma_kw_ne(s, "moveobject"@, "stop"@, 0);
        lemma_kw_ne(s, "moveobject"@, "boom"@, 0);
        lemma_kw_ne(s, "moveobject"@, "flash"@, 0);
    }
    if matches_kw(s, "moveplayer"@) {
        lemma_kw_ne(s, "moveplayer"@, "message"@, 0);
        lemma_kw_ne(s, "moveplayer"@, "hide"@, 0);
        lemma_kw_ne(s, "moveplayer"@, "unhide"@, 0);
        lemma_kw_ne(s, "moveplayer"@, "destroy"@, 0);
        lemma_kw_ne(s, "moveplayer"@, "score"@, 0);
        lemma_kw_ne(s, "moveplayer"@, "enable"@, 0);
        lemma_kw_ne(s, "moveplayer"@, "disable"@, 0);
        lemma_kw_ne(s, "moveplayer"@, "loadmission"@, 0);
        lemma_kw_ne(s, "moveplayer"@, "stop"@, 0);
        lemma_kw_ne(s, "moveplayer"@, "boom"@, 0);
        lemma_kw_ne(s, "moveplayer"@, "flash"@, 0);
        lemma_kw_ne(s, "moveplayer"@, "moveobject"@, 4);
    }
    if matches_kw(s, "moveplanet"@) {
        lemma_kw_ne(s, "moveplanet"@, "message"@, 0);
        lemma_kw_ne(s, "moveplanet"@, "hide"@, 0);
        lemma_kw_ne(s, "moveplanet"@, "unhide"@, 0);
        lemma_kw_ne(s, "moveplanet"@, "destroy"@, 0);
        lemma_kw_ne(s, "moveplanet"@, "score"@, 0);
        lemma_kw_ne(s, "moveplanet"@, "enable"@, 0);
        lemma_kw_ne(s, "moveplanet"@, "disable"@, 0);
        lemma_kw_ne(s, "moveplanet"@, "loadmission"@, 0);
        lemma_kw_ne(s, "moveplanet"@, "stop"@, 0);
        lemma_kw_ne(s, "moveplanet"@, "boom"@, 0);
        lemma_kw_ne(s, "moveplanet"@, "flash"@, 0);
        lemma_kw_ne(s, "moveplanet"@, "moveobject"@, 4);
        lemma_kw_ne(s, "moveplanet"@, "moveplayer"@, 7);
    }
    if matches_kw(s, "hideplanet"@) {
        lemma_kw_ne(s, "hideplanet"@, "message"@, 0);
        lemma_kw_ne(s, "hideplanet"@, "hide"@, 0);
        lemma_kw_ne(s, "hideplanet"@, "unhide"@, 0);
        lemma_kw_ne(s, "hideplanet"@, "destroy"@, 0);
        lemma_kw_ne(s, "hideplanet"@, "score"@, 0);
        lemma_kw_ne(s, "hideplanet"@, "enable"@, 0);
        lemma_kw_ne(s, "hideplanet"@, "disable"@, 0);
        lemma_kw_ne(s, "hideplanet"@, "loadmission"@, 0);
        lemma_kw_ne(s, "hideplanet"@, "stop"@, 0);
        lemma_kw_ne(s, "hideplanet"@, "boom"@, 0);
        lemma_kw_ne(s, "hideplanet"@, "flash"@, 0);
        lemma_kw_ne(s, "hideplanet"@, "moveobject"@, 0);
        lemma_kw_ne(s, "hideplanet"@, "moveplayer"@, 0);
        lemma_kw_ne(s, "hideplanet"@, "moveplanet"@, 0);
    }
    if matches_kw(s, "unhideplanet"@) {
        lemma_kw_ne(s, "unhideplanet"@, "message"@, 0);
        lemma_kw_ne(s, "unhideplanet"@, "hide"@, 0);
        lemma_kw_ne(s, "unhideplanet"@, "unhide"@, 0);
        lemma_kw_ne(s, "unhideplanet"@, "destroy"@, 0);
        lemma_kw_ne(s, "unhideplanet"@, "score"@, 0);
        lemma_kw_ne(s, "unhideplanet"@, "enable"@, 0);
        lemma_kw_ne(s, "unhideplanet"@, "disable"@, 0);
        lemma_kw_ne(s, "unhideplanet"@, "loadmission"@, 0);
        lemma_kw_ne(s, "unhideplanet"@, "stop"@, 0);
        lemma_kw_ne(s, "unhideplanet"@, "boom"@, 0);
        lemma_kw_ne(s, "unhideplanet"@, "flash"@, 0);
        lemma_kw_ne(s, "unhideplanet"@, "moveobject"@, 0);
        lemma_kw_ne(s, "unhideplanet"@, "moveplayer"@, 0);
        lemma_kw_ne(s, "unhideplanet"@, "moveplanet"@, 0);
        lemma_kw_ne(s, "unhideplanet"@, "hideplanet"@, 0);
    }
    if matches_kw(s, "betray"@) {
        lemma_kw_ne(s, "betray"@, "message"@, 0);
        lemma_kw_ne(s, "betray"@, "hide"@, 0);
        lemma_kw_ne(s, "betray"@, "unhide"@, 0);
        lemma_kw_ne(s, "betray"@, "destroy"@, 0);
        lemma_kw_ne(s, "betray"@, "score"@, 0);
        lemma_kw_ne(s, "betray"@, "enable"@, 0);
        lemma_kw_ne(s, "betray"@, "disable"@, 0);
        lemma_kw_ne(s, "betray"@, "loadmission"@, 0);
        lemma_kw_ne(s, "betray"@, "stop"@, 0);
        lemma_kw_ne(s, "betray"@, "boom"@, 0);
        lemma_kw_ne(s, "betray"@, "flash"@, 0);
        lemma_kw_ne(s, "betray"@, "moveobject"@, 0);
        lemma_kw_ne(s, "betray"@, "moveplayer"@, 0);
        lemma_kw_ne(s, "betray"@, "moveplanet"@, 0);
        lemma_kw_ne(s, "betray"@, "hideplanet"@, 0);
        lemma_kw_ne(s, "betray"@, "unhideplanet"@, 0);
    }
}

/// In a `planet` block each key names its own step, whatever its ASCII case:
/// `name a` selects the planet `a`, `newname a` renames it, `oblicity a` and
/// `radius a` set those values, and the bare keys `reposition` and `hidden`
/// move it to the cursor and hide it; the steps before are kept.
pub proof fn law_planet_keys(es: Seq<(Seq<char>, Option<Seq<char>>)>, k: Seq<char>, a: Seq<char>)
    ensures
        matches_kw(k, "name"@) ==> planet_ops(es.push((k, Some(a)))) == planet_ops(es).push(PlanetOpView::Select(a)),
        matches_kw(k, "newname"@) ==> planet_ops(es.push((k, Some(a)))) == planet_ops(es).push(PlanetOpView::Rename(a)),
        matches_kw(k, "oblicity"@) ==> planet_ops(es.push((k, Some(a)))) == planet_ops(es).push(PlanetOpView::Oblicity(a)),
        matches_kw(k, "radius"@) ==> planet_ops(es.push((k, Some(a)))) == planet_ops(es).push(PlanetOpView::Radius(a)),
        matches_kw(k, "reposition"@) ==> planet_ops(es.push((k, None))) == planet_ops(es).push(PlanetOpView::Reposition),
        matches_kw(k, "hidden"@) ==> planet_ops(es.push((k, None))) == planet_ops(es).push(PlanetOpView::Hide),
{
    reveal_strlit("name");
    reveal_strlit("newname");
    reveal_strlit("oblicity");
    reveal_strlit("radius");
    reveal_strlit("reposition");
    reveal_strlit("hidden");
    let x = (k, Some(a));
    let y = (k, Option::<Seq<char>>::None);
    assert(es.push(x).drop_last() =~= es);
    assert(es.push(y).drop_last() =~= es);
    assert(es.push(x).last() == x);
    assert(es.push(y).last() == y);
    if matches_kw(k, "name"@) {
        assert(planet_ops(es) + seq![PlanetOpView::Select(a)] =~= planet_ops(es).push(PlanetOpView::Select(a)));
    }
    if matches_kw(k, "newname"@) {
        lemma_kw_ne(k, "newname"@, "name"@, 0);
        assert(planet_ops(es) + seq![PlanetOpView::Rename(a)] =~= planet_ops(es).push(PlanetOpView::Rename(a)));
    }
    if matches_kw(k, "oblicity"@) {
        lemma_kw_ne(k, "oblicity"@, "name"@, 0);
        lemma_kw_ne(k, "oblicity"@, "newname"@, 0);
        assert(planet_ops(es) + seq![PlanetOpView::Oblicity(a)] =~= planet_ops(es).push(PlanetOpView::Oblicity(a)));
    }
    if matches_kw(k, "radius"@) {
        lemma_kw_ne(k, "radius"@, "name"@, 0);
        lemma_kw_ne(k, "radius"@, "newname"@, 0);
        lemma_kw_ne(k, "radius"@, "oblicity"@, 0);
        assert(planet_ops(es) + seq![PlanetOpView::Radius(a)] =~= planet_ops(es).push(PlanetOpView::Radius(a)));
    }
    if matches_kw(k, "reposition"@) {
        assert(planet_ops(es) + seq![PlanetOpView::Reposition] =~= planet_ops(es).push(PlanetOpView::Reposition));
    }
    if matches_kw(k, "hidden"@) {
        lemma_kw_ne(k, "hidden"@, "reposition"@, 0);
        assert(planet_ops(es) + seq![PlanetOpView::Hide] =~= planet_ops(es).push(PlanetOpView::Hide));
    }
}

/// The numeric keys of a `weapon` block name their own steps too, whatever
/// their ASCII case: `index a` picks the weapon slot that `a` numbers (0
/// when it is no number), `renderer a` sets the way it is drawn, and `color a`
/// its colour; the steps before are kept.
pub proof fn law_weapon_number_keys(es: Seq<(Seq<char>, Option<Seq<char>>)>, k: Seq<char>, a: Seq<char>)
    ensures
        matches_kw(k, "index"@) ==> weapon_ops(es.push((k, Some(a)))) == weapon_ops(es).push(
            WeaponOpView::Index(match unsigned_text(a, 10, usize::MAX as nat) {
                Some(v) => v,
                None => 0,
            }),
        ),
        matches_kw(k, "renderer"@) ==> weapon_ops(es.push((k, Some(a)))) == weapon_ops(es).push(
            WeaponOpView::Renderer(match unsigned_text(a, 10, u8::MAX as nat) {
                Some(v) => v as u8,
                None => 0,
            }),
        ),
        matches_kw(k, "color"@) ==> weapon_ops(es.push((k, Some(a)))) == weapon_ops(es).push(
            WeaponOpView::Color(color_of(a).0, color_of(a).1, color_of(a).2),
        ),
{
    reveal_strlit("index");
    reveal_strlit("name");
    reveal_strlit("speed");
    reveal_strlit("yield");
    reveal_strlit("idle");
    reveal_strlit("expire");
    reveal_strlit("renderer");
    reveal_strlit("color");
    let x = (k, Some(a));
    assert(es.push(x).drop_last() =~= es);
    assert(es.push(x).last() == x);
    assert(weapon_ops(es.push(x)) == weapon_ops(es) + weapon_step(x));
    if matches_kw(k, "index"@) {
        assert(weapon_step(x).len() == 1);
        assert(weapon_ops(es) + weapon_step(x) =~= weapon_ops(es).push(weapon_step(x)[0]));
    }
    if matches_kw(k, "renderer"@) {
        lemma_kw_ne(k, "renderer"@, "index"@, 0);
        lemma_kw_ne(k, "renderer"@, "name"@, 0);
        lemma_kw_ne(k, "renderer"@, "speed"@, 0);
        lemma_kw_ne(k, "renderer"@, "yield"@, 0);
        lemma_kw_ne(k, "renderer"@, "idle"@, 0);
        lemma_kw_ne(k, "renderer"@, "expire"@, 0);
        assert(weapon_step(x).len() == 1);
        assert(weapon_ops(es) + weapon_step(x) =~= weapon_ops(es).push(weapon_step(x)[0]));
    }
    if matches_kw(k, "color"@) {
        lemma_kw_ne(k, "color"@, "index"@, 0);
        lemma_kw_ne(k, "color"@, "name"@, 0);
        lemma_kw_ne(k, "color"@, "speed"@, 0);
        lemma_kw_ne(k, "color"@, "yield"@, 0);
        lemma_kw_ne(k, "color"@, "idle"@, 0);
        lemma_kw_ne(k, "color"@, "expire"@, 0);
        lemma_kw_ne(k, "color"@, "renderer"@, 0);
        assert(weapon_step(x).len() == 1);
        assert(weapon_ops(es) + weapon_step(x) =~= weapon_ops(es).push(weapon_step(x)[0]));
    }
}

/// In an `event` block each key sets what it names, whatever its ASCII case:
/// `name a` the name, `trigger a` the trigger that `a` names (a `value` then
/// belongs to it), `action a` adds the action that `a` names (a `value` then
/// belongs to it), `enabled` and `disabled` switch the event on and off, and
/// `value a` sets the value of the trigger or of the last action; nothing
/// else of the event changes.
pub proof fn law_event_keys(m: EventModel, k: Seq<char>, a: Seq<char>, o: Option<Seq<char>>)
    ensures
        matches_kw(k, "name"@) ==> event_step(m, (k, Some(a))) == (EventModel { name: a, ..m }),
        matches_kw(k, "trigger"@) ==> event_step(m, (k, Some(a))) == (EventModel {
            trigger: trigger_named(a),
            on_action: false,
            ..m
        }),
        matches_kw(k, "action"@) ==> event_step(m, (k, Some(a))) == (EventModel {
            actions: m.actions.push((action_named(a), Seq::empty())),
            on_action: true,
            ..m
        }),
        matches_kw(k, "enabled"@) ==> event_step(m, (k, o)) == (EventModel { enabled: true, ..m }),
        matches_kw(k, "disabled"@) ==> event_step(m, (k, o)) == (EventModel { enabled: false, ..m }),
        matches_kw(k, "value"@) && !m.on_action ==> event_step(m, (k, Some(a))) == (EventModel {
            value: a,
            ..m
        }),
        matches_kw(k, "value"@) && m.on_action && m.actions.len() > 0 ==> event_step(m, (k, Some(a)))
            == (EventModel {
            actions: m.actions.update(m.actions.len() - 1, (m.actions.last().0, a)),
            ..m
        }),
{
    reveal_strlit("name");
    reveal_strlit("trigger");
    reveal_strlit("action");
    reveal_strlit("enabled");
    reveal_strlit("disabled");
    reveal_strlit("value");
    if matches_kw(k, "trigger"@) {
        lemma_kw_ne(k, "trigger"@, "name"@, 0);
    }
    if matches_kw(k, "action"@) {
        lemma_kw_ne(k, "action"@, "name"@, 0);
        lemma_kw_ne(k, "action"@, "trigger"@, 0);
    }
    if matches_kw(k, "enabled"@) {
        lemma_kw_ne(k, "enabled"@, "name"@, 0);
        lemma_kw_ne(k, "enabled"@, "trigger"@, 0);
        lemma_kw_ne(k, "enabled"@, "action"@, 0);
    }
    if matches_kw(k, "disabled"@) {
        lemma_kw_ne(k, "disabled"@, "name"@, 0);
        lemma_kw_ne(k, "disabled"@, "trigger"@, 0);
        lemma_kw_ne(k, "disabled"@, "action"@, 0);
        lemma_kw_ne(k, "disabled"@, "enabled"@, 0);
    }
    if matches_kw(k, "value"@) {
        lemma_kw_ne(k, "value"@, "name"@, 0);
        lemma_kw_ne(k, "value"@, "trigger"@, 0);
        lemma_kw_ne(k, "value"@, "action"@, 0);
        lemma_kw_ne(k, "value"@, "enabled"@, 0);
        lemma_kw_ne(k, "value"@, "disabled"@, 0);
    }
}

/// `a` is the argument of the last entry of `es` that gives key `kw` one.
pub open spec fn last_given(es: Seq<(Seq<char>, Option<Seq<char>>)>, kw: Seq<char>, a: Seq<char>) -> bool {
    exists|j: int|
        0 <= j < es.len() && matches_kw(#[trigger] es[j].0, kw) && es[j].1 == Some(a) && forall|
            l: int,
        | j < l < es.len() ==> !(matches_kw(#[trigger] es[l].0, kw) && es[l].1 is Some)
}

/// No entry of `es` gives key `kw` an argument.
pub open spec fn none_given(es: Seq<(Seq<char>, Option<Seq<char>>)>, kw: Seq<char>) -> bool {
    forall|j: int| 0 <= j < es.len() ==> !(matches_kw(#[trigger] es[j].0, kw) && es[j].1 is Some)
}

/// A field read from key `kw`: the last argument given to it, or none.
pub open spec fn field_from(v: Option<Seq<char>>, es: Seq<(Seq<char>, Option<Seq<char>>)>, kw: Seq<char>) -> bool {
    match v {
        Some(a) => last_given(es, kw, a),
        None => none_given(es, kw),
    }
}

proof fn lemma_last_arg(es: Seq<(Seq<char>, Option<Seq<char>>)>, kw: Seq<char>)
    ensures
        field_from(last_arg(es, kw), es, kw),
    decreases es.len(),
{
    if es.len() > 0 {
        let r = es.drop_last();
        let n = es.len() - 1;
        lemma_last_arg(r, kw);
        assert forall|j: int| 0 <= j < r.len() implies #[trigger] es[j] == r[j] by {}
        if matches_kw(es.last().0, kw) && es.last().1 is Some {
            assert(es[n] == es.last());
        } else {
            match last_arg(r, kw) {
                Some(a) => {
                    let j = choose|j: int|
                        0 <= j < r.len() && matches_kw(#[trigger] r[j].0, kw) && r[j].1 == Some(a)
                            && forall|l: int|
                            j < l < r.len() ==> !(matches_kw(#[trigger] r[l].0, kw) && r[l].1 is Some);
                    assert(es[j] == r[j]);
                    assert forall|l: int| j < l < es.len() implies !(matches_kw(
                        #[trigger] es[l].0,
                        kw,
                    ) && es[l].1 is Some) by {
                        if l < n {
                            assert(es[l] == r[l]);
                        }
                    }
                },
                None => {
                    assert forall|j: int| 0 <= j < es.len() implies !(matches_kw(
                        #[trigger] es[j].0,
                        kw,
                    ) && es[j].1 is Some) by {
                        if j < n {
                            assert(es[j] == r[j]);
                        }
                    }
                },
            }
        }
    }
}

/// Each field of an `object` statement comes from its own key, whatever its
/// ASCII case: the name, speed, turn rate, shields and shield regeneration
/// from the last `name`, `speed`, `turnrate`, `maxshields` and `shieldregen`
/// entry with an argument, the strategy from the word of the last
/// `strategy` entry, and `hidden`, `invisible` and `friendly` are set exactly
/// when an entry of that key is present.
pub proof fn law_object_fields(o: ObjectSpec, es: Seq<(Seq<char>, Option<Seq<char>>)>)
    requires
        object_matches(o, es),
    ensures
        o.hidden <==> exists|j: int| 0 <= j < es.len() && matches_kw(#[trigger] es[j].0, "hidden"@),
        o.invisible <==> exists|j: int|
            0 <= j < es.len() && matches_kw(#[trigger] es[j].0, "invisible"@),
        o.friendly <==> exists|j: int|
            0 <= j < es.len() && matches_kw(#[trigger] es[j].0, "friendly"@),
        field_from(opt_view(o.name), es, "name"@),
        field_from(opt_view(o.speed), es, "speed"@),
        field_from(opt_view(o.turnrate), es, "turnrate"@),
        field_from(opt_view(o.maxshields), es, "maxshields"@),
        field_from(opt_view(o.shieldregen), es, "shieldregen"@),
        match o.strategy {
            Some(st) => exists|a: Seq<char>| last_given(es, "strategy"@, a) && st == strategy_named(a),
            None => none_given(es, "strategy"@),
        },
{
    lemma_last_arg(es, "name"@);
    lemma_last_arg(es, "speed"@);
    lemma_last_arg(es, "turnrate"@);
    lemma_last_arg(es, "maxshields"@);
    lemma_last_arg(es, "shieldregen"@);
    lemma_last_arg(es, "strategy"@);
}

/// Each statement keyword names its own statement, whatever its ASCII case,
/// and any other token names none.
pub proof fn law_statement_words(s: Seq<char>)
    ensures
        matches_kw(s, "cursor"@) ==> word_of(s) == Some(Word::Cursor),
        matches_kw(s, "player"@) ==> word_of(s) == Some(Word::Player),
        matches_kw(s, "waypoint"@) ==> word_of(s) == Some(Word::Waypoint),
        matches_kw(s, "object"@) ==> word_of(s) == Some(Word::Object),
        matches_kw(s, "briefing"@) ==> word_of(s) == Some(Word::Briefing),
        matches_kw(s, "event"@) ==> word_of(s) == Some(Word::Event),
        matches_kw(s, "planet"@) ==> word_of(s) == Some(Word::Planet),
        matches_kw(s, "weapon"@) ==> word_of(s) == Some(Word::Weapon),
        matches_kw(s, "include"@) ==> word_of(s) == Some(Word::Include),
        matches_kw(s, "verbose"@) ==> word_of(s) == Some(Word::Verbose),
        matches_kw(s, "terse"@) ==> word_of(s) == Some(Word::Terse),
        !matches_kw(s, "cursor"@) && !matches_kw(s, "player"@) && !matches_kw(s, "waypoint"@) && !matches_kw(s, "object"@) && !matches_kw(s, "briefing"@) && !matches_kw(s, "event"@) && !matches_kw(s, "planet"@) && !matches_kw(s, "weapon"@) && !matches_kw(s, "include"@) && !matches_kw(s, "verbose"@) && !matches_kw(s, "terse"@) ==> word_of(s) == Option::<Word>::None,
{
    reveal_strlit("cursor");
    reveal_strlit("player");
    reveal_strlit("waypoint");
    reveal_strlit("object");
    reveal_strlit("briefing");
    reveal_strlit("event");
    reveal_strlit("planet");
    reveal_strlit("weapon");
    reveal_strlit("include");
    reveal_strlit("verbose");
    reveal_strlit("terse");
    if matches_kw(s, "player"@) {
        lemma_kw_ne(s, "player"@, "cursor"@, 0);
    }
    if matches_kw(s, "waypoint"@) {
        lemma_kw_ne(s, "waypoint"@, "cursor"@, 0);
        lemma_kw_ne(s, "waypoint"@, "player"@, 0);
    }
    if matches_kw(s, "object"@) {
        lemma_kw_ne(s, "object"@, "cursor"@, 0);
        lemma_kw_ne(s, "object"@, "player"@, 0);
        lemma_kw_ne(s, "object"@, "waypoint"@, 0);
    }
    if matches_kw(s, "briefing"@) {
        lemma_kw_ne(s, "briefing"@, "cursor"@, 0);
        lemma_kw_ne(s, "briefing"@, "player"@, 0);
        lemma_kw_ne(s, "briefing"@, "waypoint"@, 0);
        lemma_kw_ne(s, "briefing"@, "object"@, 0);
    }
    if matches_kw(s, "event"@) {
        lemma_kw_ne(s, "event"@, "cursor"@, 0);
        lemma_kw_ne(s, "event"@, "player"@, 0);
        lemma_kw_ne(s, "event"@, "waypoint"@, 0);
        lemma_kw_ne(s, "event"@, "object"@, 0);
        lemma_kw_ne(s, "event"@, "briefing"@, 0);
    }
    if matches_kw(s, "planet"@) {
        lemma_kw_ne(s, "planet"@, "cursor"@, 0);
        lemma_kw_ne(s, "planet"@, "player"@, 3);
        lemma_kw_ne(s, "planet"@, "waypoint"@, 0);
        lemma_kw_ne(s, "planet"@, "object"@, 0);
        lemma_kw_ne(s, "planet"@, "briefing"@, 0);
        lemma_kw_ne(s, "planet"@, "event"@, 0);
    }
    if matches_kw(s, "weapon"@) {
        lemma_kw_ne(s, "weapon"@, "cursor"@, 0);
        lemma_kw_ne(s, "weapon"@, "player"@, 0);
        lemma_kw_ne(s, "weapon"@, "waypoint"@, 0);
        lemma_kw_ne(s, "weapon"@, "object"@, 0);
        lemma_kw_ne(s, "weapon"@, "briefing"@, 0);
        lemma_kw_ne(s, "weapon"@, "event"@, 0);
        lemma_kw_ne(s, "weapon"@, "planet"@, 0);
    }
    if matches_kw(s, "include"@) {
        lemma_kw_ne(s, "include"@, "cursor"@, 0);
        lemma_kw_ne(s, "include"@, "player"@, 0);
        lemma_kw_ne(s, "include"@, "waypoint"@, 0);
        lemma_kw_ne(s, "include"@, "object"@, 0);
        lemma_kw_ne(s, "include"@, "briefing"@, 0);
        lemma_kw_ne(s, "include"@, "event"@, 0);
        lemma_kw_ne(s, "include"@, "planet"@, 0);
        lemma_kw_ne(s, "include"@, "weapon"@, 0);
    }
    if matches_kw(s, "verbose"@) {
        lemma_kw_ne(s, "verbose"@, "cursor"@, 0);
        lemma_kw_ne(s, "verbose"@, "player"@, 0);
        lemma_kw_ne(s, "verbose"@, "waypoint"@, 0);
        lemma_kw_ne(s, "verbose"@, "object"@, 0);
        lemma_kw_ne(s, "verbose"@, "briefing"@, 0);
        lemma_kw_ne(s, "verbose"@, "event"@, 0);
        lemma_kw_ne(s, "verbose"@, "planet"@, 0);
        lemma_kw_ne(s, "verbose"@, "weapon"@, 0);
        lemma_kw_ne(s, "verbose"@, "include"@, 0);
    }
    if matches_kw(s, "terse"@) {
        lemma_kw_ne(s, "terse"@, "cursor"@, 0);
        lemma_kw_ne(s, "terse"@, "player"@, 0);
        lemma_kw_ne(s, "terse"@, "waypoint"@, 0);
        lemma_kw_ne(s, "terse"@, "object"@, 0);
        lemma_kw_ne(s, "terse"@, "briefing"@, 0);
        lemma_kw_ne(s, "terse"@, "event"@, 0);
        lemma_kw_ne(s, "terse"@, "planet"@, 0);
        lemma_kw_ne(s, "terse"@, "weapon"@, 0);
        lemma_kw_ne(s, "terse"@, "include"@, 0);
        lemma_kw_ne(s, "terse"@, "verbose"@, 0);
    }
}

/// A `cursor` block reads a token that starts with a sign as a move by that
/// many km, one that starts with a digit as a position, and any other token
/// as the name of something to move the cursor to.
pub proof fn law_cursor_items(t: Seq<char>)
    ensures
        t.len() > 0 && (t[0] == '+' || t[0] == '-') ==> cursor_item(t) == (CursorItemView::Number {
            relative: true,
            text: t,
        }),
        t.len() > 0 && '0' <= t[0] <= '9' ==> cursor_item(t) == (CursorItemView::Number {
            relative: false,
            text: t,
        }),
        !(t.len() > 0 && (t[0] == '+' || t[0] == '-' || ('0' <= t[0] <= '9'))) ==> cursor_item(t)
            == CursorItemView::Name(t),
{
}

} // verus!
