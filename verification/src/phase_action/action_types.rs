//! Kinds of passes, shots and tackles, tackle outcomes and the events shown
//! to a match viewer, and the generic phases of an action.
use vstd::prelude::*;
use crate::geometry::Coord10;

verus! {

/// Kind of pass.
#[derive(Debug, Clone, Copy, PartialEq, Eq, Hash, Structural)]
pub enum PassType {
    Ground,
    Lofted,
    ThroughBall,
    Cross,
    BackPass,
}

impl PassType {
    /// Ticks of the wind-up before the kick: 1 for ground and back passes,
    /// 2 for lofted and through balls, 3 for crosses.
    pub fn windup_ticks(&self) -> (r: u8)
        ensures
            r == match *self {
                PassType::Ground => 1u8,
                PassType::Lofted => 2u8,
                PassType::ThroughBall => 2u8,
                PassType::Cross => 3u8,
                PassType::BackPass => 1u8,
            },
    {
        match self {
            PassType::Ground => 1,
            PassType::Lofted => 2,
            PassType::ThroughBall => 2,
            PassType::Cross => 3,
            PassType::BackPass => 1,
        }
    }
}

/// Kind of shot.
#[derive(Debug, Clone, Copy, PartialEq, Eq, Hash, Structural)]
pub enum ShotType {
    Normal,
    Finesse,
    Power,
    Chip,
    Header,
    Volley,
    OneTouch,
}

impl ShotType {
    /// Ticks of the wind-up before the strike: 3 for normal and finesse
    /// shots, 4 for power shots, 2 for chips and volleys, 1 for headers and
    /// one-touch shots.
    pub fn windup_ticks(&self) -> (r: u8)
        ensures
            r == match *self {
                ShotType::Normal => 3u8,
                ShotType::Finesse => 3u8,
                ShotType::Power => 4u8,
                ShotType::Chip => 2u8,
                ShotType::Header => 1u8,
                ShotType::Volley => 2u8,
                ShotType::OneTouch => 1u8,
            },
    {
        match self {
            ShotType::Normal => 3,
            ShotType::Finesse => 3,
            ShotType::Power => 4,
            ShotType::Chip => 2,
            ShotType::Header => 1,
            ShotType::Volley => 2,
            ShotType::OneTouch => 1,
        }
    }
}

/// Kind of tackle.
#[derive(Debug, Clone, Copy, PartialEq, Eq, Hash, Structural)]
pub enum TackleType {
    Standing,
    Sliding,
    Shoulder,
}

/// Ticks of the commit phase of a tackle.
pub open spec fn commit_ticks_of(t: TackleType) -> u8 {
    match t {
        TackleType::Standing => 2,
        TackleType::Sliding => 4,
        TackleType::Shoulder => 1,
    }
}

impl TackleType {
    /// Ticks of the commit phase: 2 standing, 4 sliding, 1 shoulder to shoulder.
    pub fn commit_ticks(&self) -> (r: u8)
        ensures
            r == commit_ticks_of(*self),
            1 <= r <= 4,
    {
        match self {
            TackleType::Standing => 2,
            TackleType::Sliding => 4,
            TackleType::Shoulder => 1,
        }
    }
}

/// Result of a tackle.
#[derive(Debug, Clone, Copy, PartialEq, Eq, Hash, Structural)]
pub enum TackleOutcome {
    CleanWin,
    Deflection,
    Miss,
    Foul,
    YellowCard,
    RedCard,
}

/// Result of a tackle as the viewer shows it.
#[derive(Debug, Clone, Copy, PartialEq, Eq, Hash, Structural)]
pub enum ViewerTackleOutcome {
    Clean,
    Deflect,
    Miss,
    Foul,
    Yellow,
    Red,
}

pub open spec fn viewer_outcome_of(o: TackleOutcome) -> ViewerTackleOutcome {
    match o {
        TackleOutcome::CleanWin => ViewerTackleOutcome::Clean,
        TackleOutcome::Deflection => ViewerTackleOutcome::Deflect,
        TackleOutcome::Miss => ViewerTackleOutcome::Miss,
        TackleOutcome::Foul => ViewerTackleOutcome::Foul,
        TackleOutcome::YellowCard => ViewerTackleOutcome::Yellow,
        TackleOutcome::RedCard => ViewerTackleOutcome::Red,
    }
}

impl ViewerTackleOutcome {
    /// The viewer's name for a tackle outcome.
    pub fn from_tackle_outcome(o: TackleOutcome) -> (r: ViewerTackleOutcome)
        ensures
            r == viewer_outcome_of(o),
    {
        match o {
            TackleOutcome::CleanWin => ViewerTackleOutcome::Clean,
            TackleOutcome::Deflection => ViewerTackleOutcome::Deflect,
            TackleOutcome::Miss => ViewerTackleOutcome::Miss,
            TackleOutcome::Foul => ViewerTackleOutcome::Foul,
            TackleOutcome::YellowCard => ViewerTackleOutcome::Yellow,
            TackleOutcome::RedCard => ViewerTackleOutcome::Red,
        }
    }
}

/// Tackle animation shown by the viewer.
#[derive(Debug, Clone, Copy, PartialEq, Eq, Hash, Structural)]
pub enum TackleActionKind {
    TackleStand,
    TackleSlide,
    TackleShoulder,
}

pub open spec fn action_kind_of(t: TackleType) -> TackleActionKind {
    match t {
        TackleType::Standing => TackleActionKind::TackleStand,
        TackleType::Sliding => TackleActionKind::TackleSlide,
        TackleType::Shoulder => TackleActionKind::TackleShoulder,
    }
}

impl TackleActionKind {
    /// The animation of a kind of tackle.
    pub fn from_tackle_type(t: TackleType) -> (r: TackleActionKind)
        ensures
            r == action_kind_of(t),
    {
        match t {
            TackleType::Standing => TackleActionKind::TackleStand,
            TackleType::Sliding => TackleActionKind::TackleSlide,
            TackleType::Shoulder => TackleActionKind::TackleShoulder,
        }
    }
}

/// Milliseconds added to the animation lock for each outcome.
pub open spec fn outcome_extra_ms(o: ViewerTackleOutcome) -> int {
    match o {
        ViewerTackleOutcome::Clean => 350,
        ViewerTackleOutcome::Deflect => 500,
        ViewerTackleOutcome::Miss => 625,
        ViewerTackleOutcome::Foul => 1000,
        ViewerTackleOutcome::Yellow => 1000,
        ViewerTackleOutcome::Red => 1000,
    }
}

/// The animation lock of a tackle: the commit ticks plus one resolve tick at
/// 250 ms each, plus the outcome's extra time, kept within 500 to 1400 ms.
pub open spec fn lock_ms_of(t: TackleType, o: ViewerTackleOutcome) -> int {
    let raw = (commit_ticks_of(t) + 1) * 250 + outcome_extra_ms(o);
    if raw < 500 {
        500
    } else if raw > 1400 {
        1400
    } else {
        raw
    }
}

/// Tackle event handed to the match viewer.
#[derive(Debug, Clone, Copy)]
pub struct TackleEvent {
    /// Match time in milliseconds.
    pub t_ms: u64,
    /// Always `"tackle"`.
    pub kind: &'static str,
    pub actor_track_id: u32,
    pub target_track_id: u32,
    pub action: TackleActionKind,
    /// How long the viewer locks the animation, in milliseconds.
    pub lock_ms: u32,
    pub outcome: ViewerTackleOutcome,
    pub ball_owner_before: Option<u32>,
    pub ball_owner_after: Option<u32>,
    /// Where the players met.
    pub contact_pos: Option<Coord10>,
    /// Ball position and height (0.1 m).
    pub ball_pos: Option<(i32, i32, i32)>,
}

impl TackleEvent {
    /// The animation lock of a tackle in milliseconds, from 500 to 1400.
    pub fn calculate_lock_ms(tackle_type: TackleType, outcome: ViewerTackleOutcome) -> (r: u32)
        ensures
            r == lock_ms_of(tackle_type, outcome),
            500 <= r <= 1400,
    {
        let extra: u32 = match outcome {
            ViewerTackleOutcome::Clean => 350,
            ViewerTackleOutcome::Deflect => 500,
            ViewerTackleOutcome::Miss => 625,
            ViewerTackleOutcome::Foul => 1000,
            ViewerTackleOutcome::Yellow => 1000,
            ViewerTackleOutcome::Red => 1000,
        };
        let raw: u32 = (tackle_type.commit_ticks() as u32 + 1) * 250 + extra;
        if raw < 500 {
            500
        } else if raw > 1400 {
            1400
        } else {
            raw
        }
    }
}

/// Kind of action run as a sequence of phases.
#[derive(Debug, Clone, Copy, PartialEq, Eq, Hash, Structural)]
pub enum PhaseActionType {
    Move,
    Pass,
    Shot,
    Dribble,
    Tackle,
    Header,
    Save,
}

/// Generic phase of an action.
#[derive(Debug, Clone, Copy, PartialEq, Eq, Hash, Structural)]
pub enum ActionPhase {
    Pending,
    Approach,
    Commit,
    Resolve,
    Recover,
    Cooldown,
    Finished,
}

} // verus!
