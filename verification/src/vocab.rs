//! The game's enumerations and the mission-file words that name them.

use vstd::prelude::*;
use crate::text::{eq_ignore_ascii_case, matches_kw};

verus! {

#[derive(Debug, Clone, Copy, PartialEq, Eq, Structural)]
pub enum FlightModel {
    Newtonian,
    Arcade,
}

impl Default for FlightModel {
    fn default() -> (r: Self)
        ensures
            r == FlightModel::Newtonian,
    {
        FlightModel::Newtonian
    }
}

#[derive(Debug, Clone, Copy, PartialEq, Eq, Structural)]
pub enum GameState {
    Normal,
    Init,
    Dead1,
    Dead2,
    LoadGame,
    GetText,
}

impl Default for GameState {
    fn default() -> (r: Self)
        ensures
            r == GameState::Normal,
    {
        GameState::Normal
    }
}

/// How a target behaves.
#[derive(Debug, Clone, Copy, PartialEq, Eq, Structural)]
pub enum Strategy {
    DoNothing,
    Sit1,
    Sit2,
    Sit3,
    Sit4,
    Hunt1,
    Hunt2,
    Hunt3,
    Hunt4,
}

impl Default for Strategy {
    fn default() -> (r: Self)
        ensures
            r == Strategy::DoNothing,
    {
        Strategy::DoNothing
    }
}

#[derive(Debug, Clone, Copy, PartialEq, Eq, Structural)]
pub enum LockType {
    Enemy,
    Friendly,
    Planet,
}

impl Default for LockType {
    fn default() -> (r: Self)
        ensures
            r == LockType::Enemy,
    {
        LockType::Enemy
    }
}

/// What makes a mission event fire.
#[derive(Debug, Clone, Copy, PartialEq, Eq, Structural)]
pub enum EventTrigger {
    Null,
    Approach,
    Destroy,
    Score,
    Alarm,
    Depart,
    True,
    StopNear,
    Shields,
}

impl Default for EventTrigger {
    fn default() -> (r: Self)
        ensures
            r == EventTrigger::Null,
    {
        EventTrigger::Null
    }
}

/// What a fired mission event does.
#[derive(Debug, Clone, Copy, PartialEq, Eq, Structural)]
pub enum EventActionKind {
    NoAction,
    Message,
    Hide,
    Unhide,
    Enable,
    Disable,
    LoadMission,
    Stop,
    Boom,
    Flash,
    MoveObject,
    MovePlayer,
    MovePlanet,
    HidePlanet,
    UnhidePlanet,
    Betray,
}

impl Default for EventActionKind {
    fn default() -> (r: Self)
        ensures
            r == EventActionKind::NoAction,
    {
        EventActionKind::NoAction
    }
}

/// The player's current target lock.
#[derive(Debug, Clone, Copy, PartialEq, Eq, Structural)]
pub struct Lock {
    pub target: Option<usize>,
    pub lock_type: LockType,
}

impl Default for Lock {
    fn default() -> (r: Self)
        ensures
            r.target is None,
            r.lock_type == LockType::Enemy,
    {
        Lock { target: None, lock_type: LockType::Enemy }
    }
}

/// Whether the orbit autopilot is engaged, and on which planet.
#[derive(Debug, Clone, Copy, PartialEq, Eq, Structural)]
pub enum AutopilotMode {
    Off,
    Orbit { planet_idx: usize },
}

/// The strategy a mission file's word names; unknown words mean `DoNothing`.
/// Words are matched without regard to ASCII case.
pub open spec fn strategy_named(s: Seq<char>) -> Strategy {
    if matches_kw(s, "sit1"@) {
        Strategy::Sit1
    } else if matches_kw(s, "sit2"@) {
        Strategy::Sit2
    } else if matches_kw(s, "sit3"@) {
        Strategy::Sit3
    } else if matches_kw(s, "sit4"@) {
        Strategy::Sit4
    } else if matches_kw(s, "hunt1"@) {
        Strategy::Hunt1
    } else if matches_kw(s, "hunt2"@) {
        Strategy::Hunt2
    } else if matches_kw(s, "hunt3"@) {
        Strategy::Hunt3
    } else if matches_kw(s, "hunt4"@) {
        Strategy::Hunt4
    } else {
        Strategy::DoNothing
    }
}

/// The trigger a mission file's word names; unknown words mean `Null`.
pub open spec fn trigger_named(s: Seq<char>) -> EventTrigger {
    if matches_kw(s, "approach"@) {
        EventTrigger::Approach
    } else if matches_kw(s, "depart"@) {
        EventTrigger::Depart
    } else if matches_kw(s, "true"@) {
        EventTrigger::True
    } else if matches_kw(s, "score"@) {
        EventTrigger::Score
    } else if matches_kw(s, "destroy"@) {
        EventTrigger::Destroy
    } else if matches_kw(s, "alarm"@) {
        EventTrigger::Alarm
    } else if matches_kw(s, "stopnear"@) {
        EventTrigger::StopNear
    } else if matches_kw(s, "shields"@) {
        EventTrigger::Shields
    } else {
        EventTrigger::Null
    }
}

/// The action a mission file's word names. `destroy` stands for `Boom`;
/// `score` and unknown words mean `NoAction`.
pub open spec fn action_named(s: Seq<char>) -> EventActionKind {
    if matches_kw(s, "message"@) {
        EventActionKind::Message
    } else if matches_kw(s, "hide"@) {
        EventActionKind::Hide
    } else if matches_kw(s, "unhide"@) {
        EventActionKind::Unhide
    } else if matches_kw(s, "destroy"@) {
        EventActionKind::Boom
    } else if matches_kw(s, "score"@) {
        EventActionKind::NoAction
    } else if matches_kw(s, "enable"@) {
        EventActionKind::Enable
    } else if matches_kw(s, "disable"@) {
        EventActionKind::Disable
    } else if matches_kw(s, "loadmission"@) {
        EventActionKind::LoadMission
    } else if matches_kw(s, "stop"@) {
        EventActionKind::Stop
    } else if matches_kw(s, "boom"@) {
        EventActionKind::Boom
    } else if matches_kw(s, "flash"@) {
        EventActionKind::Flash
    } else if matches_kw(s, "moveobject"@) {
        EventActionKind::MoveObject
    } else if matches_kw(s, "moveplayer"@) {
        EventActionKind::MovePlayer
    } else if matches_kw(s, "moveplanet"@) {
        EventActionKind::MovePlanet
    } else if matches_kw(s, "hideplanet"@) {
        EventActionKind::HidePlanet
    } else if matches_kw(s, "unhideplanet"@) {
        EventActionKind::UnhidePlanet
    } else if matches_kw(s, "betray"@) {
        EventActionKind::Betray
    } else {
        EventActionKind::NoAction
    }
}

pub fn parse_strategy(s: &str) -> (r: Strategy)
    ensures
        r == strategy_named(s@),
{
    if eq_ignore_ascii_case(s, "sit1") {
        Strategy::Sit1
    } else if eq_ignore_ascii_case(s, "sit2") {
        Strategy::Sit2
    } else if eq_ignore_ascii_case(s, "sit3") {
        Strategy::Sit3
    } else if eq_ignore_ascii_case(s, "sit4") {
        Strategy::Sit4
    } else if eq_ignore_ascii_case(s, "hunt1") {
        Strategy::Hunt1
    } else if eq_ignore_ascii_case(s, "hunt2") {
        Strategy::Hunt2
    } else if eq_ignore_ascii_case(s, "hunt3") {
        Strategy::Hunt3
    } else if eq_ignore_ascii_case(s, "hunt4") {
        Strategy::Hunt4
    } else {
        Strategy::DoNothing
    }
}

pub fn parse_trigger(s: &str) -> (r: EventTrigger)
    ensures
        r == trigger_named(s@),
{
    if eq_ignore_ascii_case(s, "approach") {
        EventTrigger::Approach
    } else if eq_ignore_ascii_case(s, "depart") {
        EventTrigger::Depart
    } else if eq_ignore_ascii_case(s, "true") {
        EventTrigger::True
    } else if eq_ignore_ascii_case(s, "score") {
        EventTrigger::Score
    } else if eq_ignore_ascii_case(s, "destroy") {
        EventTrigger::Destroy
    } else if eq_ignore_ascii_case(s, "alarm") {
        EventTrigger::Alarm
    } else if eq_ignore_ascii_case(s, "stopnear") {
        EventTrigger::StopNear
    } else if eq_ignore_ascii_case(s, "shields") {
        EventTrigger::Shields
    } else {
        EventTrigger::Null
    }
}

pub fn parse_action_kind(s: &str) -> (r: EventActionKind)
    ensures
        r == action_named(s@),
{
    if eq_ignore_ascii_case(s, "message") {
        EventActionKind::Message
    } else if eq_ignore_ascii_case(s, "hide") {
        EventActionKind::Hide
    } else if eq_ignore_ascii_case(s, "unhide") {
        EventActionKind::Unhide
    } else if eq_ignore_ascii_case(s, "destroy") {
        EventActionKind::Boom
    } else if eq_ignore_ascii_case(s, "score") {
        EventActionKind::NoAction
    } else if eq_ignore_ascii_case(s, "enable") {
        EventActionKind::Enable
    } else if eq_ignore_ascii_case(s, "disable") {
        EventActionKind::Disable
    } else if eq_ignore_ascii_case(s, "loadmission") {
        EventActionKind::LoadMission
    } else if eq_ignore_ascii_case(s, "stop") {
        EventActionKind::Stop
    } else if eq_ignore_ascii_case(s, "boom") {
        EventActionKind::Boom
    } else if eq_ignore_ascii_case(s, "flash") {
        EventActionKind::Flash
    } else if eq_ignore_ascii_case(s, "moveobject") {
        EventActionKind::MoveObject
    } else if eq_ignore_ascii_case(s, "moveplayer") {
        EventActionKind::MovePlayer
    } else if eq_ignore_ascii_case(s, "moveplanet") {
        EventActionKind::MovePlanet
    } else if eq_ignore_ascii_case(s, "hideplanet") {
        EventActionKind::HidePlanet
    } else if eq_ignore_ascii_case(s, "unhideplanet") {
        EventActionKind::UnhidePlanet
    } else if eq_ignore_ascii_case(s, "betray") {
        EventActionKind::Betray
    } else {
        EventActionKind::NoAction
    }
}

} // verus!
