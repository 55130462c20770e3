//! Dribbling: why a player dribbles (intent), how (technique), and the
//! player's dribbling skills.
use vstd::prelude::*;
use crate::attributes::{PlayerAttributes, AVERAGE_RATING, uniform_attributes};

verus! {

/// Why the player dribbles.
#[derive(Debug, Clone, Copy, PartialEq, Eq, Structural)]
pub enum DribbleIntent {
    /// Keep the ball under pressure.
    Protect,
    /// Carry the ball into space.
    Progress,
    /// Get past a defender.
    Beat,
}

impl Default for DribbleIntent {
    fn default() -> (r: DribbleIntent)
        ensures
            r == DribbleIntent::Progress,
    {
        DribbleIntent::Progress
    }
}

/// How the player dribbles.
#[derive(Debug, Clone, Copy, PartialEq, Eq, Structural)]
pub enum DribbleTechnique {
    /// Back to the defender, protecting the ball.
    Shielding,
    /// Spin away from the defender.
    Turn,
    /// Face the defender at a distance.
    FaceUp,
    /// Knock the ball ahead and sprint.
    KnockOn,
    /// Feint a direction.
    Feint,
    /// Stop and go.
    Hesitation,
}

/// What a technique deceives the defender about.
#[derive(Debug, Clone, Copy, PartialEq, Eq, Structural)]
pub enum DeceptionType {
    Direction,
    Tempo,
    Speed,
}

/// Techniques allowed for an intent.
pub open spec fn dribble_techniques(i: DribbleIntent) -> Seq<DribbleTechnique> {
    match i {
        DribbleIntent::Protect => seq![DribbleTechnique::Shielding, DribbleTechnique::Turn],
        DribbleIntent::Progress => seq![DribbleTechnique::FaceUp, DribbleTechnique::KnockOn],
        DribbleIntent::Beat => seq![
            DribbleTechnique::Feint,
            DribbleTechnique::KnockOn,
            DribbleTechnique::Hesitation,
            DribbleTechnique::Turn,
        ],
    }
}

/// Ticks a technique takes.
pub open spec fn technique_duration(t: DribbleTechnique) -> u8 {
    match t {
        DribbleTechnique::Shielding => 2u8,
        DribbleTechnique::Turn => 3u8,
        DribbleTechnique::FaceUp => 1u8,
        DribbleTechnique::KnockOn => 5u8,
        DribbleTechnique::Feint => 4u8,
        DribbleTechnique::Hesitation => 3u8,
    }
}

impl DribbleIntent {
    /// Techniques allowed for the intent: shielding or a turn to protect;
    /// facing up or knocking on to progress; a feint, knocking on, a
    /// hesitation or a turn to beat a defender.
    pub fn available_techniques(&self) -> (r: &'static [DribbleTechnique])
        ensures
            r@ == dribble_techniques(*self),
    {
        match self {
            DribbleIntent::Protect => &[DribbleTechnique::Shielding, DribbleTechnique::Turn],
            DribbleIntent::Progress => &[DribbleTechnique::FaceUp, DribbleTechnique::KnockOn],
            DribbleIntent::Beat => &[
                DribbleTechnique::Feint,
                DribbleTechnique::KnockOn,
                DribbleTechnique::Hesitation,
                DribbleTechnique::Turn,
            ],
        }
    }
}

impl DribbleTechnique {
    /// Ticks the technique takes: shielding 2, a turn 3, facing up 1, a
    /// knock-on 5, a feint 4, a hesitation 3.
    pub fn duration_ticks(&self) -> (r: u8)
        ensures
            r == technique_duration(*self),
    {
        match self {
            DribbleTechnique::Shielding => 2,
            DribbleTechnique::Turn => 3,
            DribbleTechnique::FaceUp => 1,
            DribbleTechnique::KnockOn => 5,
            DribbleTechnique::Feint => 4,
            DribbleTechnique::Hesitation => 3,
        }
    }

    /// What the technique deceives about: direction for feints and turns,
    /// tempo for hesitations, speed for knock-ons; nothing for the others.
    pub fn deception_type(&self) -> (r: Option<DeceptionType>)
        ensures
            r == match *self {
                DribbleTechnique::Feint => Some(DeceptionType::Direction),
                DribbleTechnique::Turn => Some(DeceptionType::Direction),
                DribbleTechnique::Hesitation => Some(DeceptionType::Tempo),
                DribbleTechnique::KnockOn => Some(DeceptionType::Speed),
                _ => None,
            },
    {
        match self {
            DribbleTechnique::Feint => Some(DeceptionType::Direction),
            DribbleTechnique::Turn => Some(DeceptionType::Direction),
            DribbleTechnique::Hesitation => Some(DeceptionType::Tempo),
            DribbleTechnique::KnockOn => Some(DeceptionType::Speed),
            _ => None,
        }
    }
}

/// A 0-99 rating on the 0-20 scale: a fifth, at most 20.
pub open spec fn scale20(v: u8) -> u8 {
    if v / 5 > 20 { 20 } else { (v / 5) as u8 }
}

fn to_scale20(v: u8) -> (r: u8)
    ensures
        r == scale20(v),
        r <= 20,
{
    let q = v / 5;
    if q > 20 {
        20
    } else {
        q
    }
}

/// Dribbling skills on the 0-20 scale.
#[derive(Debug, Clone, Copy, PartialEq, Eq, Structural)]
pub struct DribbleSkills {
    pub dribbling: u8,
    pub technique: u8,
    pub acceleration: u8,
    pub agility: u8,
    pub decisions: u8,
    pub composure: u8,
}

impl Default for DribbleSkills {
    fn default() -> (r: DribbleSkills)
        ensures
            r == (DribbleSkills {
                dribbling: 0,
                technique: 0,
                acceleration: 0,
                agility: 0,
                decisions: 0,
                composure: 0,
            }),
    {
        DribbleSkills { dribbling: 0, technique: 0, acceleration: 0, agility: 0, decisions: 0, composure: 0 }
    }
}

impl DribbleSkills {
    /// The dribbling skills of a player, brought from 0-99 to 0-20.
    pub fn from_attributes(attrs: &PlayerAttributes) -> (r: DribbleSkills)
        ensures
            r == (DribbleSkills {
                dribbling: scale20(attrs.dribbling),
                technique: scale20(attrs.technique),
                acceleration: scale20(attrs.acceleration),
                agility: scale20(attrs.agility),
                decisions: scale20(attrs.decisions),
                composure: scale20(attrs.composure),
            }),
    {
        DribbleSkills {
            dribbling: to_scale20(attrs.dribbling),
            technique: to_scale20(attrs.technique),
            acceleration: to_scale20(attrs.acceleration),
            agility: to_scale20(attrs.agility),
            decisions: to_scale20(attrs.decisions),
            composure: to_scale20(attrs.composure),
        }
    }
}

/// Dribbling skills on the 0-99 scale, with pace, balance, flair and anticipation.
#[derive(Debug, Clone, Copy, PartialEq, Eq, Structural)]
pub struct DribbleSkillsFM {
    pub dribbling: u8,
    pub agility: u8,
    pub pace: u8,
    pub acceleration: u8,
    pub balance: u8,
    pub flair: u8,
    pub anticipation: u8,
}

impl DribbleSkillsFM {
    /// The dribbling skills of a player, kept on 0-99.
    pub fn from_attributes(attrs: &PlayerAttributes) -> (r: DribbleSkillsFM)
        ensures
            r == (DribbleSkillsFM {
                dribbling: attrs.dribbling,
                agility: attrs.agility,
                pace: attrs.pace,
                acceleration: attrs.acceleration,
                balance: attrs.balance,
                flair: attrs.flair,
                anticipation: attrs.anticipation,
            }),
    {
        DribbleSkillsFM {
            dribbling: attrs.dribbling,
            agility: attrs.agility,
            pace: attrs.pace,
            acceleration: attrs.acceleration,
            balance: attrs.balance,
            flair: attrs.flair,
            anticipation: attrs.anticipation,
        }
    }
}

/// The dribble model: intent to technique.
pub struct DribbleModel;

impl DribbleModel {
    /// Techniques allowed for an intent.
    pub fn available_techniques(intent: DribbleIntent) -> (r: &'static [DribbleTechnique])
        ensures
            r@ == dribble_techniques(intent),
    {
        intent.available_techniques()
    }
}


/// A chosen dribbling technique and its chance of success, in
/// three-thousandths (the unit in which every chance below is exact).
#[derive(Debug, Clone, Copy, PartialEq, Eq, Structural)]
pub struct TechniqueSelection {
    pub technique: DribbleTechnique,
    pub success_chance: u32,
}

/// `v` kept within `lo..=hi`.
pub open spec fn clamp_int(v: int, lo: int, hi: int) -> int {
    if v < lo {
        lo
    } else if v > hi {
        hi
    } else {
        v
    }
}

/// Shielding: strength and balance against strength and aggression;
/// 0.5 plus 0.3 per 100 points of advantage, within 0.2..0.9.
pub open spec fn shield_chance(a: PlayerAttributes, d: PlayerAttributes) -> int {
    clamp_int(1500 + 9 * ((a.strength + a.balance) - (d.strength + d.aggression)), 600, 2700)
}

/// A turn to protect the ball: dribbling, agility and balance against
/// anticipation and tackling; 0.4 plus 0.3 per 150 points, within 0.15..0.85.
pub open spec fn protect_turn_chance(a: PlayerAttributes, d: PlayerAttributes) -> int {
    clamp_int(1200 + 6 * ((a.dribbling + a.agility + a.balance) - (d.anticipation + d.tackling)), 450, 2550)
}

/// Speed advantage: acceleration and pace against acceleration and pace.
pub open spec fn speed_advantage(a: PlayerAttributes, d: PlayerAttributes) -> int {
    (a.acceleration + a.pace) - (d.acceleration + d.pace)
}

/// A knock-on: 0.35 plus 0.4 per 100 points of speed advantage, within
/// 0.1..0.75.
pub open spec fn knockon_chance(a: PlayerAttributes, d: PlayerAttributes) -> int {
    clamp_int(1050 + 12 * speed_advantage(a, d), 300, 2250)
}

/// A feint: dribbling, flair and technique against anticipation and
/// tackling; 0.3 plus 0.4 per 150 points, within 0.1..0.7.
pub open spec fn feint_chance(a: PlayerAttributes, d: PlayerAttributes) -> int {
    clamp_int(900 + 8 * ((a.dribbling + a.flair + a.technique) - (d.anticipation + d.tackling)), 300, 2100)
}

/// A hesitation: composure, flair and acceleration against concentration
/// and anticipation; 0.35 plus 0.35 per 150 points, within 0.15..0.7.
pub open spec fn hesitation_chance(a: PlayerAttributes, d: PlayerAttributes) -> int {
    clamp_int(1050 + 7 * ((a.composure + a.flair + a.acceleration) - (d.concentration + d.anticipation)), 450, 2100)
}

/// A turn to beat the defender: dribbling, agility and balance against
/// anticipation and tackling; 0.35 plus 0.35 per 150 points, within 0.15..0.75.
pub open spec fn beat_turn_chance(a: PlayerAttributes, d: PlayerAttributes) -> int {
    clamp_int(1050 + 7 * ((a.dribbling + a.agility + a.balance) - (d.anticipation + d.tackling)), 450, 2250)
}

/// Facing up is always safe: 0.85.
pub open spec fn faceup_chance() -> int {
    2550
}

/// The technique an intent calls for against a defender, with its chance:
/// to protect, shielding unless a turn is likelier; to progress, facing up
/// unless there is space and a knock-on is likelier than even with a speed
/// advantage above 5 points; to beat, the likeliest of knock-on, feint,
/// hesitation and turn, the later one on a tie.
pub open spec fn chosen_technique(intent: DribbleIntent, a: PlayerAttributes, d: PlayerAttributes, has_space: bool) -> (
    DribbleTechnique,
    int,
) {
    match intent {
        DribbleIntent::Protect => if shield_chance(a, d) >= protect_turn_chance(a, d) {
            (DribbleTechnique::Shielding, shield_chance(a, d))
        } else {
            (DribbleTechnique::Turn, protect_turn_chance(a, d))
        },
        DribbleIntent::Progress => if has_space && knockon_chance(a, d) > 1500 && speed_advantage(a, d) > 5 {
            (DribbleTechnique::KnockOn, knockon_chance(a, d))
        } else {
            (DribbleTechnique::FaceUp, faceup_chance())
        },
        DribbleIntent::Beat => {
            let k = knockon_chance(a, d);
            let f = feint_chance(a, d);
            let h = hesitation_chance(a, d);
            let t = beat_turn_chance(a, d);
            if t >= k && t >= f && t >= h {
                (DribbleTechnique::Turn, t)
            } else if h >= k && h >= f {
                (DribbleTechnique::Hesitation, h)
            } else if f >= k {
                (DribbleTechnique::Feint, f)
            } else {
                (DribbleTechnique::KnockOn, k)
            }
        },
    }
}

fn clamp_i32(v: i32, lo: i32, hi: i32) -> (r: u32)
    requires
        0 <= lo <= hi,
    ensures
        r == clamp_int(v as int, lo as int, hi as int),
{
    if v < lo {
        lo as u32
    } else if v > hi {
        hi as u32
    } else {
        v as u32
    }
}

/// Chooses a dribbling technique for an intent against a defender (an
/// average player when none is given), as `chosen_technique` states it.
pub fn choose_dribble_technique(
    intent: DribbleIntent,
    attacker: &PlayerAttributes,
    defender: Option<&PlayerAttributes>,
    has_space_ahead: bool,
) -> (r: TechniqueSelection)
    ensures
        (r.technique, r.success_chance as int) == chosen_technique(
            intent,
            *attacker,
            match defender {
                Some(d) => *d,
                None => uniform_attributes(AVERAGE_RATING),
            },
            has_space_ahead,
        ),
{
    let default_defender = PlayerAttributes::default();
    let d = match defender {
        Some(d) => d,
        None => &default_defender,
    };
    let a = attacker;
    match intent {
        DribbleIntent::Protect => {
            let shield = clamp_i32(
                1500 + 9 * ((a.strength as i32 + a.balance as i32) - (d.strength as i32 + d.aggression as i32)),
                600,
                2700,
            );
            let turn = clamp_i32(
                1200 + 6 * ((a.dribbling as i32 + a.agility as i32 + a.balance as i32) - (d.anticipation as i32
                    + d.tackling as i32)),
                450,
                2550,
            );
            if shield >= turn {
                TechniqueSelection { technique: DribbleTechnique::Shielding, success_chance: shield }
            } else {
                TechniqueSelection { technique: DribbleTechnique::Turn, success_chance: turn }
            }
        },
        DribbleIntent::Progress => {
            let adv = (a.acceleration as i32 + a.pace as i32) - (d.acceleration as i32 + d.pace as i32);
            let knock = clamp_i32(1050 + 12 * adv, 300, 2250);
            if has_space_ahead && knock > 1500 && adv > 5 {
                TechniqueSelection { technique: DribbleTechnique::KnockOn, success_chance: knock }
            } else {
                TechniqueSelection { technique: DribbleTechnique::FaceUp, success_chance: 2550 }
            }
        },
        DribbleIntent::Beat => {
            let adv = (a.acceleration as i32 + a.pace as i32) - (d.acceleration as i32 + d.pace as i32);
            let k = clamp_i32(1050 + 12 * adv, 300, 2250);
            let f = clamp_i32(
                900 + 8 * ((a.dribbling as i32 + a.flair as i32 + a.technique as i32) - (d.anticipation as i32
                    + d.tackling as i32)),
                300,
                2100,
            );
            let h = clamp_i32(
                1050 + 7 * ((a.composure as i32 + a.flair as i32 + a.acceleration as i32) - (d.concentration as i32
                    + d.anticipation as i32)),
                450,
                2100,
            );
            let t = clamp_i32(
                1050 + 7 * ((a.dribbling as i32 + a.agility as i32 + a.balance as i32) - (d.anticipation as i32
                    + d.tackling as i32)),
                450,
                2250,
            );
            // the likeliest, the later one on a tie
            let mut best = TechniqueSelection { technique: DribbleTechnique::KnockOn, success_chance: k };
            if f >= best.success_chance {
                best = TechniqueSelection { technique: DribbleTechnique::Feint, success_chance: f };
            }
            if h >= best.success_chance {
                best = TechniqueSelection { technique: DribbleTechnique::Hesitation, success_chance: h };
            }
            if t >= best.success_chance {
                best = TechniqueSelection { technique: DribbleTechnique::Turn, success_chance: t };
            }
            best
        },
    }
}

/// The chance of a chosen technique lies within that technique's bounds:
/// never below 0.1 and never above 0.9.
pub proof fn lemma_chosen_chance_bounds(intent: DribbleIntent, a: PlayerAttributes, d: PlayerAttributes, has_space: bool)
    ensures
        300 <= chosen_technique(intent, a, d, has_space).1 <= 2700,
        dribble_techniques(intent).contains(chosen_technique(intent, a, d, has_space).0),
{
    let c = chosen_technique(intent, a, d, has_space).0;
    let s = dribble_techniques(intent);
    match intent {
        DribbleIntent::Protect => {
            assert(s[0] == DribbleTechnique::Shielding && s[1] == DribbleTechnique::Turn);
        },
        DribbleIntent::Progress => {
            assert(s[0] == DribbleTechnique::FaceUp && s[1] == DribbleTechnique::KnockOn);
        },
        DribbleIntent::Beat => {
            assert(s[0] == DribbleTechnique::Feint && s[1] == DribbleTechnique::KnockOn);
            assert(s[2] == DribbleTechnique::Hesitation && s[3] == DribbleTechnique::Turn);
        },
    }
}


/// How a dribbling technique worked out.
#[derive(Debug, Clone, Copy, PartialEq, Eq, Structural)]
pub enum TechniqueOutcome {
    /// The defender is beaten (or, shielding, held off).
    Success,
    /// The ball is kept, the defender not beaten.
    Partial,
    /// The ball is lost.
    Failed,
}

/// The attacker's and defender's scores a technique pits against each
/// other, the spread (points per unit of roll away from the middle) and the
/// margin of a partial success, none when the technique has no partial
/// success.
pub open spec fn duel_terms(t: DribbleTechnique, a: PlayerAttributes, d: PlayerAttributes) -> (int, int, int, Option<int>) {
    match t {
        DribbleTechnique::Shielding => (a.strength + a.balance, d.strength + d.aggression, 20, Some(15)),
        DribbleTechnique::Turn => (a.dribbling + a.agility + a.balance, d.anticipation + d.tackling, 30, Some(20)),
        DribbleTechnique::KnockOn => (a.acceleration + a.pace + 10, d.acceleration + d.pace, 10, None),
        DribbleTechnique::Feint => (a.dribbling + a.flair + a.technique, d.anticipation + d.concentration, 30, Some(20)),
        DribbleTechnique::Hesitation => (a.composure + a.flair + a.acceleration, d.concentration + d.anticipation, 20, Some(15)),
        DribbleTechnique::FaceUp => (0, 0, 0, None),
    }
}

/// The outcome of a technique for a roll `r` in thousandths: facing up fails
/// only on a roll under 0.05; otherwise the attacker's score must beat the
/// defender's shifted by the spread times (roll - 0.5), and falls short by
/// less than the margin for a partial success.
pub open spec fn technique_outcome(t: DribbleTechnique, a: PlayerAttributes, d: PlayerAttributes, r: int) -> TechniqueOutcome {
    if t == DribbleTechnique::FaceUp {
        if r < 50 {
            TechniqueOutcome::Failed
        } else {
            TechniqueOutcome::Success
        }
    } else {
        let (att, def, spread, partial) = duel_terms(t, a, d);
        let bar = 1000 * def + spread * (r - 500);
        if 1000 * att > bar {
            TechniqueOutcome::Success
        } else {
            match partial {
                Some(m) => if 1000 * att > bar - 1000 * m {
                    TechniqueOutcome::Partial
                } else {
                    TechniqueOutcome::Failed
                },
                None => TechniqueOutcome::Failed,
            }
        }
    }
}

/// Judges a technique against a defender (an average player when none is
/// given) for a roll in thousandths, as `technique_outcome` states it.
pub fn judge_technique(
    technique: DribbleTechnique,
    attacker: &PlayerAttributes,
    defender: Option<&PlayerAttributes>,
    roll_pm: u32,
) -> (r: TechniqueOutcome)
    ensures
        r == technique_outcome(
            technique,
            *attacker,
            match defender {
                Some(d) => *d,
                None => uniform_attributes(AVERAGE_RATING),
            },
            roll_pm as int,
        ),
{
    let default_defender = PlayerAttributes::default();
    let d = match defender {
        Some(d) => d,
        None => &default_defender,
    };
    let a = attacker;
    let r = roll_pm as i64;
    let (att, def, spread, partial): (i64, i64, i64, i64) = match technique {
        DribbleTechnique::FaceUp => {
            return if roll_pm < 50 {
                TechniqueOutcome::Failed
            } else {
                TechniqueOutcome::Success
            };
        },
        DribbleTechnique::Shielding => (a.strength as i64 + a.balance as i64, d.strength as i64 + d.aggression as i64, 20, 15),
        DribbleTechnique::Turn => (
            a.dribbling as i64 + a.agility as i64 + a.balance as i64,
            d.anticipation as i64 + d.tackling as i64,
            30,
            20,
        ),
        DribbleTechnique::KnockOn => (a.acceleration as i64 + a.pace as i64 + 10, d.acceleration as i64 + d.pace as i64, 10, -1),
        DribbleTechnique::Feint => (
            a.dribbling as i64 + a.flair as i64 + a.technique as i64,
            d.anticipation as i64 + d.concentration as i64,
            30,
            20,
        ),
        DribbleTechnique::Hesitation => (
            a.composure as i64 + a.flair as i64 + a.acceleration as i64,
            d.concentration as i64 + d.anticipation as i64,
            20,
            15,
        ),
    };
    let bar = 1000 * def + spread * (r - 500);
    if 1000 * att > bar {
        TechniqueOutcome::Success
    } else if partial >= 0 && 1000 * att > bar - 1000 * partial {
        TechniqueOutcome::Partial
    } else {
        TechniqueOutcome::Failed
    }
}

/// A duel judged on scores: shielding pits strength and balance against strength and aggression, spread 20, a partial success within 15 points. The defender's bar is 1000 times his score
/// moved by the spread times the roll's distance from 500; the attacker
/// (1000 times his score) succeeds above the bar, is judged a partial success
/// when he falls short of it by less than 1000 times the margin, and fails
/// otherwise.
pub proof fn lemma_shielding_duel(a: PlayerAttributes, d: PlayerAttributes, r: int)
    ensures
        ({
            let att = 1000 * (a.strength + a.balance);
            let bar = 1000 * (d.strength + d.aggression) + 20 * (r - 500);
            &&& technique_outcome(DribbleTechnique::Shielding, a, d, r) == TechniqueOutcome::Success <==> att > bar
            &&& technique_outcome(DribbleTechnique::Shielding, a, d, r) == TechniqueOutcome::Partial <==> (att <= bar
                && att > bar - 15000)
            &&& technique_outcome(DribbleTechnique::Shielding, a, d, r) == TechniqueOutcome::Failed <==> att <= bar
                - 15000
        }),
{
}

/// A duel judged on scores: a turn pits dribbling, agility and balance against anticipation and tackling, spread 30, a partial success within 20 points. The defender's bar is 1000 times his score
/// moved by the spread times the roll's distance from 500; the attacker
/// (1000 times his score) succeeds above the bar, is judged a partial success
/// when he falls short of it by less than 1000 times the margin, and fails
/// otherwise.
pub proof fn lemma_turn_duel(a: PlayerAttributes, d: PlayerAttributes, r: int)
    ensures
        ({
            let att = 1000 * (a.dribbling + a.agility + a.balance);
            let bar = 1000 * (d.anticipation + d.tackling) + 30 * (r - 500);
            &&& technique_outcome(DribbleTechnique::Turn, a, d, r) == TechniqueOutcome::Success <==> att > bar
            &&& technique_outcome(DribbleTechnique::Turn, a, d, r) == TechniqueOutcome::Partial <==> (att <= bar
                && att > bar - 20000)
            &&& technique_outcome(DribbleTechnique::Turn, a, d, r) == TechniqueOutcome::Failed <==> att <= bar
                - 20000
        }),
{
}

/// A duel judged on scores: a feint pits dribbling, flair and technique against anticipation and concentration, spread 30, a partial success within 20 points. The defender's bar is 1000 times his score
/// moved by the spread times the roll's distance from 500; the attacker
/// (1000 times his score) succeeds above the bar, is judged a partial success
/// when he falls short of it by less than 1000 times the margin, and fails
/// otherwise.
pub proof fn lemma_feint_duel(a: PlayerAttributes, d: PlayerAttributes, r: int)
    ensures
        ({
            let att = 1000 * (a.dribbling + a.flair + a.technique);
            let bar = 1000 * (d.anticipation + d.concentration) + 30 * (r - 500);
            &&& technique_outcome(DribbleTechnique::Feint, a, d, r) == TechniqueOutcome::Success <==> att > bar
            &&& technique_outcome(DribbleTechnique::Feint, a, d, r) == TechniqueOutcome::Partial <==> (att <= bar
                && att > bar - 20000)
            &&& technique_outcome(DribbleTechnique::Feint, a, d, r) == TechniqueOutcome::Failed <==> att <= bar
                - 20000
        }),
{
}

/// A duel judged on scores: a hesitation pits composure, flair and acceleration against concentration and anticipation, spread 20, a partial success within 15 points. The defender's bar is 1000 times his score
/// moved by the spread times the roll's distance from 500; the attacker
/// (1000 times his score) succeeds above the bar, is judged a partial success
/// when he falls short of it by less than 1000 times the margin, and fails
/// otherwise.
pub proof fn lemma_hesitation_duel(a: PlayerAttributes, d: PlayerAttributes, r: int)
    ensures
        ({
            let att = 1000 * (a.composure + a.flair + a.acceleration);
            let bar = 1000 * (d.concentration + d.anticipation) + 20 * (r - 500);
            &&& technique_outcome(DribbleTechnique::Hesitation, a, d, r) == TechniqueOutcome::Success <==> att > bar
            &&& technique_outcome(DribbleTechnique::Hesitation, a, d, r) == TechniqueOutcome::Partial <==> (att <= bar
                && att > bar - 15000)
            &&& technique_outcome(DribbleTechnique::Hesitation, a, d, r) == TechniqueOutcome::Failed <==> att <= bar
                - 15000
        }),
{
}

/// A knock-on is a race with no partial success: acceleration and pace plus
/// 10 against the defender's acceleration and pace, spread 10; it succeeds
/// when 1000 times the attacker's score is above the bar and fails otherwise.
/// Facing up fails only on a roll under 50.
pub proof fn lemma_knockon_and_faceup(a: PlayerAttributes, d: PlayerAttributes, r: int)
    ensures
        technique_outcome(DribbleTechnique::KnockOn, a, d, r) == TechniqueOutcome::Success <==> 1000 * (
        a.acceleration + a.pace + 10) > 1000 * (d.acceleration + d.pace) + 10 * (r - 500),
        technique_outcome(DribbleTechnique::KnockOn, a, d, r) != TechniqueOutcome::Partial,
        technique_outcome(DribbleTechnique::FaceUp, a, d, r) == TechniqueOutcome::Failed <==> r < 50,
        technique_outcome(DribbleTechnique::FaceUp, a, d, r) != TechniqueOutcome::Partial,
{
}

/// In a duel (every technique but facing up) a lower roll never judges the
/// technique worse: whatever succeeds on a roll succeeds on every lower one,
/// and whatever is kept (success or partial) is kept on every lower one.
pub proof fn lemma_lower_roll_never_worse(t: DribbleTechnique, a: PlayerAttributes, d: PlayerAttributes, r1: int, r2: int)
    requires
        t != DribbleTechnique::FaceUp,
        r1 <= r2,
    ensures
        technique_outcome(t, a, d, r2) == TechniqueOutcome::Success ==> technique_outcome(t, a, d, r1)
            == TechniqueOutcome::Success,
        technique_outcome(t, a, d, r2) != TechniqueOutcome::Failed ==> technique_outcome(t, a, d, r1)
            != TechniqueOutcome::Failed,
{
    let (att, def, spread, partial) = duel_terms(t, a, d);
    assert(spread >= 0);
    assert(spread * (r1 - 500) <= spread * (r2 - 500)) by (nonlinear_arith)
        requires
            spread >= 0,
            r1 <= r2,
    ;
    let bar1 = 1000 * def + spread * (r1 - 500);
    let bar2 = 1000 * def + spread * (r2 - 500);
    assert(bar1 <= bar2);
    match partial {
        Some(m) => {
            assert(1000 * att > bar2 - 1000 * m ==> 1000 * att > bar1 - 1000 * m);
        },
        None => {},
    }
}

} // verus!
