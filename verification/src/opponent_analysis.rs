//! Reading an opponent's team instructions for weaknesses, and the
//! counter-tactics that exploit them.
use vstd::prelude::*;

verus! {

/// Height of a team's defensive line.
#[derive(Debug, Clone, Copy, PartialEq, Eq, Structural)]
pub enum DefensiveLine {
    VeryDeep,
    Deep,
    Normal,
    High,
    VeryHigh,
}

/// Width of a team's shape.
#[derive(Debug, Clone, Copy, PartialEq, Eq, Structural)]
pub enum TeamWidth {
    VeryNarrow,
    Narrow,
    Normal,
    Wide,
    VeryWide,
}

/// How hard a team presses.
#[derive(Debug, Clone, Copy, PartialEq, Eq, Structural)]
pub enum TeamPressing {
    VeryLow,
    Low,
    Normal,
    High,
    VeryHigh,
}

/// How fast a team plays.
#[derive(Debug, Clone, Copy, PartialEq, Eq, Structural)]
pub enum TeamTempo {
    VerySlow,
    Slow,
    Normal,
    Fast,
    VeryFast,
}

/// How a team builds its attacks.
#[derive(Debug, Clone, Copy, PartialEq, Eq, Structural)]
pub enum BuildUpStyle {
    Short,
    Mixed,
    Direct,
}

/// The team-wide instructions that the analysis reads.
#[derive(Debug, Clone, Copy, PartialEq, Eq, Structural)]
pub struct TeamInstructions {
    pub defensive_line: DefensiveLine,
    pub team_width: TeamWidth,
    pub pressing_intensity: TeamPressing,
    pub team_tempo: TeamTempo,
    pub build_up_style: BuildUpStyle,
}

impl Default for TeamInstructions {
    /// Middle settings everywhere, mixed build-up.
    fn default() -> (r: TeamInstructions)
        ensures
            r == (TeamInstructions {
                defensive_line: DefensiveLine::Normal,
                team_width: TeamWidth::Normal,
                pressing_intensity: TeamPressing::Normal,
                team_tempo: TeamTempo::Normal,
                build_up_style: BuildUpStyle::Mixed,
            }),
    {
        TeamInstructions {
            defensive_line: DefensiveLine::Normal,
            team_width: TeamWidth::Normal,
            pressing_intensity: TeamPressing::Normal,
            team_tempo: TeamTempo::Normal,
            build_up_style: BuildUpStyle::Mixed,
        }
    }
}

/// A weakness in an opponent's instructions.
#[derive(Debug, Clone, Copy, PartialEq, Eq, Structural)]
pub enum Weakness {
    /// A high line, open to balls behind it.
    HighLine,
    /// A narrow shape, open on the flanks.
    NarrowWidth,
    /// Little pressing, leaving time on the ball.
    LowPressing,
    /// A slow tempo, open to quick counters.
    SlowTempo,
    /// A wide shape, open in the centre.
    WideFormation,
    /// A deep line, leaving space in midfield.
    DeepLine,
    /// High pressing, leaving space behind.
    HighPressing,
}

/// The weaknesses of an opponent, in the order line, width, pressing, tempo.
pub open spec fn weaknesses_of(t: TeamInstructions) -> Seq<Weakness> {
    let line = match t.defensive_line {
        DefensiveLine::VeryHigh | DefensiveLine::High => seq![Weakness::HighLine],
        DefensiveLine::VeryDeep | DefensiveLine::Deep => seq![Weakness::DeepLine],
        _ => Seq::empty(),
    };
    let width = match t.team_width {
        TeamWidth::Narrow | TeamWidth::VeryNarrow => seq![Weakness::NarrowWidth],
        TeamWidth::Wide | TeamWidth::VeryWide => seq![Weakness::WideFormation],
        _ => Seq::empty(),
    };
    let pressing = match t.pressing_intensity {
        TeamPressing::Low | TeamPressing::VeryLow => seq![Weakness::LowPressing],
        TeamPressing::High | TeamPressing::VeryHigh => seq![Weakness::HighPressing],
        _ => Seq::empty(),
    };
    let tempo = match t.team_tempo {
        TeamTempo::Slow | TeamTempo::VerySlow => seq![Weakness::SlowTempo],
        _ => Seq::empty(),
    };
    line + width + pressing + tempo
}

/// Lists the weaknesses of an opponent: a high or a deep line, a narrow or a
/// wide shape, low or high pressing, and a slow tempo, in that order.
pub fn identify_weaknesses(opponent: &TeamInstructions) -> (r: Vec<Weakness>)
    ensures
        r@ == weaknesses_of(*opponent),
{
    let mut weaknesses: Vec<Weakness> = Vec::new();
    match opponent.defensive_line {
        DefensiveLine::VeryHigh | DefensiveLine::High => weaknesses.push(Weakness::HighLine),
        DefensiveLine::VeryDeep | DefensiveLine::Deep => weaknesses.push(Weakness::DeepLine),
        _ => {},
    }
    let ghost a = weaknesses@;
    match opponent.team_width {
        TeamWidth::Narrow | TeamWidth::VeryNarrow => weaknesses.push(Weakness::NarrowWidth),
        TeamWidth::Wide | TeamWidth::VeryWide => weaknesses.push(Weakness::WideFormation),
        _ => {},
    }
    let ghost b = weaknesses@;
    match opponent.pressing_intensity {
        TeamPressing::Low | TeamPressing::VeryLow => weaknesses.push(Weakness::LowPressing),
        TeamPressing::High | TeamPressing::VeryHigh => weaknesses.push(Weakness::HighPressing),
        _ => {},
    }
    let ghost c = weaknesses@;
    match opponent.team_tempo {
        TeamTempo::Slow | TeamTempo::VerySlow => weaknesses.push(Weakness::SlowTempo),
        _ => {},
    }
    assert(weaknesses@ =~= weaknesses_of(*opponent));
    weaknesses
}

/// A recommended way to play against an opponent.
#[derive(Debug, Clone)]
pub struct CounterTactic {
    pub recommended_style: BuildUpStyle,
    pub recommended_tempo: TeamTempo,
    /// Areas to attack.
    pub key_areas: Vec<String>,
    /// Keys of the descriptions, translated by the client.
    pub description_keys: Vec<String>,
}

/// A counter-tactic as plain values: style, tempo, key areas, description keys.
pub struct CounterPlan {
    pub style: BuildUpStyle,
    pub tempo: TeamTempo,
    pub areas: Seq<Seq<char>>,
    pub keys: Seq<Seq<char>>,
}

/// What one weakness adds to a counter-tactic.
pub open spec fn apply_weakness(p: CounterPlan, w: Weakness) -> CounterPlan {
    match w {
        Weakness::HighLine => CounterPlan {
            style: BuildUpStyle::Direct,
            tempo: TeamTempo::Fast,
            areas: p.areas.push("behind_defense"@),
            keys: p.keys.push("counter_high_line_direct_fast"@),
        },
        Weakness::NarrowWidth => CounterPlan {
            areas: p.areas.push("wide_areas"@).push("crosses"@),
            keys: p.keys.push("counter_narrow_width_wide_crosses"@),
            ..p
        },
        Weakness::LowPressing => CounterPlan {
            style: BuildUpStyle::Short,
            areas: p.areas.push("possession"@),
            keys: p.keys.push("counter_low_pressing_possession"@),
            ..p
        },
        Weakness::SlowTempo => CounterPlan {
            tempo: TeamTempo::VeryFast,
            areas: p.areas.push("quick_transitions"@),
            keys: p.keys.push("counter_slow_tempo_fast_play"@),
            ..p
        },
        Weakness::WideFormation => CounterPlan {
            areas: p.areas.push("central_attacks"@),
            keys: p.keys.push("counter_wide_formation_central"@),
            ..p
        },
        Weakness::DeepLine => CounterPlan {
            areas: p.areas.push("long_shots"@).push("patient_buildup"@),
            keys: p.keys.push("counter_deep_line_patience"@),
            ..p
        },
        Weakness::HighPressing => CounterPlan {
            style: BuildUpStyle::Direct,
            areas: p.areas.push("behind_press"@),
            keys: p.keys.push("counter_high_pressing_direct"@),
            ..p
        },
    }
}

/// The counter-tactic for the first `k` weaknesses, starting from a mixed
/// style at normal tempo with no areas and no keys.
pub open spec fn counter_upto(ws: Seq<Weakness>, k: int) -> CounterPlan
    decreases k,
{
    if k <= 0 {
        CounterPlan { style: BuildUpStyle::Mixed, tempo: TeamTempo::Normal, areas: Seq::empty(), keys: Seq::empty() }
    } else {
        apply_weakness(counter_upto(ws, k - 1), ws[k - 1])
    }
}

/// The texts of a list of strings.
pub open spec fn texts(v: Seq<String>) -> Seq<Seq<char>> {
    v.map_values(|s: String| s@)
}

fn push_text(v: &mut Vec<String>, s: &str)
    ensures
        texts(final(v)@) == texts(old(v)@).push(s@),
{
    let t = String::from_str(s);
    v.push(t);
    assert(texts(v@) =~= texts(old(v)@).push(s@));
}

/// Recommends how to play against a list of weaknesses, taking them in
/// order: each adds its areas and its description key and may set the style
/// and the tempo (a later weakness overrides an earlier one).
///
/// A high line calls for direct, fast play behind the defence; a narrow shape
/// for wide areas and crosses; low pressing for short possession play; a slow
/// tempo for very fast transitions; a wide shape for central attacks; a deep
/// line for long shots and patient build-up; high pressing for direct play
/// behind the press.
pub fn recommend_counter(weaknesses: &[Weakness]) -> (r: CounterTactic)
    ensures
        r.recommended_style == counter_upto(weaknesses@, weaknesses@.len() as int).style,
        r.recommended_tempo == counter_upto(weaknesses@, weaknesses@.len() as int).tempo,
        texts(r.key_areas@) == counter_upto(weaknesses@, weaknesses@.len() as int).areas,
        texts(r.description_keys@) == counter_upto(weaknesses@, weaknesses@.len() as int).keys,
{
    let mut style = BuildUpStyle::Mixed;
    let mut tempo = TeamTempo::Normal;
    let mut key_areas: Vec<String> = Vec::new();
    let mut description_keys: Vec<String> = Vec::new();
    let n = weaknesses.len();
    proof {
        assert(texts(key_areas@) =~= Seq::<Seq<char>>::empty());
        assert(texts(description_keys@) =~= Seq::<Seq<char>>::empty());
    }
    for k in 0..n
        invariant
            n == weaknesses@.len(),
            style == counter_upto(weaknesses@, k as int).style,
            tempo == counter_upto(weaknesses@, k as int).tempo,
            texts(key_areas@) == counter_upto(weaknesses@, k as int).areas,
            texts(description_keys@) == counter_upto(weaknesses@, k as int).keys,
    {
        match weaknesses[k] {
            Weakness::HighLine => {
                style = BuildUpStyle::Direct;
                tempo = TeamTempo::Fast;
                push_text(&mut key_areas, "behind_defense");
                push_text(&mut description_keys, "counter_high_line_direct_fast");
            },
            Weakness::NarrowWidth => {
                push_text(&mut key_areas, "wide_areas");
                push_text(&mut key_areas, "crosses");
                push_text(&mut description_keys, "counter_narrow_width_wide_crosses");
            },
            Weakness::LowPressing => {
                style = BuildUpStyle::Short;
                push_text(&mut key_areas, "possession");
                push_text(&mut description_keys, "counter_low_pressing_possession");
            },
            Weakness::SlowTempo => {
                tempo = TeamTempo::VeryFast;
                push_text(&mut key_areas, "quick_transitions");
                push_text(&mut description_keys, "counter_slow_tempo_fast_play");
            },
            Weakness::WideFormation => {
                push_text(&mut key_areas, "central_attacks");
                push_text(&mut description_keys, "counter_wide_formation_central");
            },
            Weakness::DeepLine => {
                push_text(&mut key_areas, "long_shots");
                push_text(&mut key_areas, "patient_buildup");
                push_text(&mut description_keys, "counter_deep_line_patience");
            },
            Weakness::HighPressing => {
                style = BuildUpStyle::Direct;
                push_text(&mut key_areas, "behind_press");
                push_text(&mut description_keys, "counter_high_pressing_direct");
            },
        }
    }
    CounterTactic { recommended_style: style, recommended_tempo: tempo, key_areas, description_keys }
}

/// An opponent shows at most four weaknesses, one per kind of instruction,
/// and never two opposite ones (a high and a deep line, a narrow and a wide
/// shape, low and high pressing).
pub proof fn lemma_weaknesses_bounded(t: TeamInstructions)
    ensures
        weaknesses_of(t).len() <= 4,
        !(weaknesses_of(t).contains(Weakness::HighLine) && weaknesses_of(t).contains(Weakness::DeepLine)),
        !(weaknesses_of(t).contains(Weakness::NarrowWidth) && weaknesses_of(t).contains(
            Weakness::WideFormation,
        )),
        !(weaknesses_of(t).contains(Weakness::LowPressing) && weaknesses_of(t).contains(
            Weakness::HighPressing,
        )),
{
    let s = weaknesses_of(t);
    assert forall|i: int, j: int|
        0 <= i < s.len() && 0 <= j < s.len() && s[i] == Weakness::HighLine implies s[j] != Weakness::DeepLine by {}
    assert forall|i: int, j: int|
        0 <= i < s.len() && 0 <= j < s.len() && s[i] == Weakness::NarrowWidth implies s[j] != Weakness::WideFormation by {}
    assert forall|i: int, j: int|
        0 <= i < s.len() && 0 <= j < s.len() && s[i] == Weakness::LowPressing implies s[j] != Weakness::HighPressing by {}
}

/// How each weakness is read off an opponent's instructions: a high line
/// from a high or very high line, a deep line from a deep or very deep one,
/// a narrow or wide shape from a narrow or wide width (either degree), low or
/// high pressing from low or high pressing (either degree), and a slow tempo
/// from a slow or very slow tempo; no weakness is listed twice.
pub proof fn lemma_weakness_readings(t: TeamInstructions)
    ensures
        weaknesses_of(t).contains(Weakness::HighLine) <==> (t.defensive_line == DefensiveLine::High
            || t.defensive_line == DefensiveLine::VeryHigh),
        weaknesses_of(t).contains(Weakness::DeepLine) <==> (t.defensive_line == DefensiveLine::Deep
            || t.defensive_line == DefensiveLine::VeryDeep),
        weaknesses_of(t).contains(Weakness::NarrowWidth) <==> (t.team_width == TeamWidth::Narrow || t.team_width
            == TeamWidth::VeryNarrow),
        weaknesses_of(t).contains(Weakness::WideFormation) <==> (t.team_width == TeamWidth::Wide || t.team_width
            == TeamWidth::VeryWide),
        weaknesses_of(t).contains(Weakness::LowPressing) <==> (t.pressing_intensity == TeamPressing::Low
            || t.pressing_intensity == TeamPressing::VeryLow),
        weaknesses_of(t).contains(Weakness::HighPressing) <==> (t.pressing_intensity == TeamPressing::High
            || t.pressing_intensity == TeamPressing::VeryHigh),
        weaknesses_of(t).contains(Weakness::SlowTempo) <==> (t.team_tempo == TeamTempo::Slow || t.team_tempo
            == TeamTempo::VerySlow),
        forall|i: int, j: int|
            0 <= i < j < weaknesses_of(t).len() ==> weaknesses_of(t)[i] != weaknesses_of(t)[j],
{
    let line = match t.defensive_line {
        DefensiveLine::VeryHigh | DefensiveLine::High => seq![Weakness::HighLine],
        DefensiveLine::VeryDeep | DefensiveLine::Deep => seq![Weakness::DeepLine],
        _ => Seq::empty(),
    };
    let width = match t.team_width {
        TeamWidth::Narrow | TeamWidth::VeryNarrow => seq![Weakness::NarrowWidth],
        TeamWidth::Wide | TeamWidth::VeryWide => seq![Weakness::WideFormation],
        _ => Seq::empty(),
    };
    let pressing = match t.pressing_intensity {
        TeamPressing::Low | TeamPressing::VeryLow => seq![Weakness::LowPressing],
        TeamPressing::High | TeamPressing::VeryHigh => seq![Weakness::HighPressing],
        _ => Seq::empty(),
    };
    let tempo = match t.team_tempo {
        TeamTempo::Slow | TeamTempo::VerySlow => seq![Weakness::SlowTempo],
        _ => Seq::empty(),
    };
    let s = weaknesses_of(t);
    assert(s == line + width + pressing + tempo);
    assert forall|x: Weakness| #[trigger] s.contains(x) <==> (line.contains(x) || width.contains(x)
        || pressing.contains(x) || tempo.contains(x)) by {
        lemma_concat_contains(line, width, x);
        lemma_concat_contains(line + width, pressing, x);
        lemma_concat_contains(line + width + pressing, tempo, x);
    }
    assert forall|x: Weakness, w: Weakness| #[trigger] seq![w].contains(x) <==> w == x by {
        assert(seq![w][0] == w);
    }
    assert forall|x: Weakness| !(#[trigger] Seq::<Weakness>::empty().contains(x)) by {}
    // each part holds at most one weakness, of its own kind
    assert forall|i: int| 0 <= i < s.len() implies weakness_kind(#[trigger] s[i]) == part_of(
        i,
        line.len() as int,
        width.len() as int,
        pressing.len() as int,
    ) by {
        let a = line.len() as int;
        let b = width.len() as int;
        let c = pressing.len() as int;
        if i < a {
            assert(s[i] == line[i]);
        } else if i < a + b {
            assert(s[i] == width[i - a]);
        } else if i < a + b + c {
            assert(s[i] == pressing[i - a - b]);
        } else {
            assert(s[i] == tempo[i - a - b - c]);
        }
    }
}

/// The instruction a weakness is read from: 0 line, 1 width, 2 pressing, 3 tempo.
spec fn weakness_kind(w: Weakness) -> int {
    match w {
        Weakness::HighLine | Weakness::DeepLine => 0,
        Weakness::NarrowWidth | Weakness::WideFormation => 1,
        Weakness::LowPressing | Weakness::HighPressing => 2,
        Weakness::SlowTempo => 3,
    }
}

/// The part of a list made of parts of lengths `a`, `b`, `c` and the rest
/// that position `i` falls in.
spec fn part_of(i: int, a: int, b: int, c: int) -> int {
    if i < a {
        0
    } else if i < a + b {
        1
    } else if i < a + b + c {
        2
    } else {
        3
    }
}

proof fn lemma_concat_contains(a: Seq<Weakness>, b: Seq<Weakness>, x: Weakness)
    ensures
        (a + b).contains(x) <==> a.contains(x) || b.contains(x),
{
    if (a + b).contains(x) {
        let i = choose|i: int| 0 <= i < (a + b).len() && (a + b)[i] == x;
        if i < a.len() {
            assert(a[i] == x);
        } else {
            assert(b[i - a.len()] == x);
        }
    }
    if a.contains(x) {
        let i = choose|i: int| 0 <= i < a.len() && a[i] == x;
        assert((a + b)[i] == x);
    }
    if b.contains(x) {
        let i = choose|i: int| 0 <= i < b.len() && b[i] == x;
        assert((a + b)[a.len() + i] == x);
    }
}

/// Every weakness adds exactly one description key, so a counter-tactic
/// carries as many keys as there are weaknesses.
pub proof fn lemma_one_key_per_weakness(ws: Seq<Weakness>, k: int)
    requires
        0 <= k <= ws.len(),
    ensures
        counter_upto(ws, k).keys.len() == k,
        counter_upto(ws, k).areas.len() >= k,
    decreases k,
{
    if k > 0 {
        lemma_one_key_per_weakness(ws, k - 1);
    }
}

/// Tempo of at least fast.
pub open spec fn fast_tempo(t: TeamTempo) -> bool {
    t == TeamTempo::Fast || t == TeamTempo::VeryFast
}

/// The factors (percent) by which one weakness of the opponent raises our
/// counter bonus, given our instructions.
pub open spec fn weakness_factors(my: TeamInstructions, w: Weakness) -> Seq<u32> {
    match w {
        Weakness::HighLine => (if my.build_up_style == BuildUpStyle::Direct {
            seq![112u32]
        } else {
            Seq::empty()
        }) + (if fast_tempo(my.team_tempo) {
            seq![108u32]
        } else {
            Seq::empty()
        }),
        Weakness::NarrowWidth => if my.team_width == TeamWidth::Wide || my.team_width == TeamWidth::VeryWide {
            seq![110u32]
        } else {
            Seq::empty()
        },
        Weakness::LowPressing => if my.build_up_style == BuildUpStyle::Short {
            seq![108u32]
        } else {
            Seq::empty()
        },
        Weakness::SlowTempo => if fast_tempo(my.team_tempo) {
            seq![110u32]
        } else {
            Seq::empty()
        },
        Weakness::WideFormation => if my.team_width == TeamWidth::Narrow || my.team_width
            == TeamWidth::VeryNarrow {
            seq![108u32]
        } else {
            Seq::empty()
        },
        Weakness::DeepLine => if my.team_tempo == TeamTempo::Slow || my.team_tempo == TeamTempo::VerySlow {
            seq![106u32]
        } else {
            Seq::empty()
        },
        Weakness::HighPressing => (if my.build_up_style == BuildUpStyle::Direct {
            seq![110u32]
        } else {
            Seq::empty()
        }) + (if fast_tempo(my.team_tempo) {
            seq![106u32]
        } else {
            Seq::empty()
        }),
    }
}

/// The factors of the first `k` weaknesses, in order.
pub open spec fn factors_upto(my: TeamInstructions, ws: Seq<Weakness>, k: int) -> Seq<u32>
    decreases k,
{
    if k <= 0 || k > ws.len() {
        Seq::empty()
    } else {
        factors_upto(my, ws, k - 1) + weakness_factors(my, ws[k - 1])
    }
}

/// The factors (percent) by which our instructions exploit the weaknesses of
/// an opponent, one for each match, weakness by weakness in the order of
/// `identify_weaknesses`: against a high line, direct build-up 112 and a fast
/// tempo 108; against a narrow shape, a wide one 110; against low pressing,
/// short build-up 108; against a slow tempo, a fast one 110; against a wide
/// shape, a narrow one 108; against a deep line, a slow tempo 106; against
/// high pressing, direct build-up 110 and a fast tempo 106. The bonus is their
/// product, capped at 1.5.
pub fn counter_bonus_factors(my: &TeamInstructions, opponent: &TeamInstructions) -> (r: Vec<u32>)
    ensures
        r@ == factors_upto(*my, weaknesses_of(*opponent), weaknesses_of(*opponent).len() as int),
{
    let weaknesses = identify_weaknesses(opponent);
    let mut factors: Vec<u32> = Vec::new();
    let n = weaknesses.len();
    let fast = matches!(my.team_tempo, TeamTempo::Fast | TeamTempo::VeryFast);
    for k in 0..n
        invariant
            n == weaknesses@.len(),
            fast == fast_tempo(my.team_tempo),
            factors@ == factors_upto(*my, weaknesses@, k as int),
    {
        let ghost before = factors@;
        match weaknesses[k] {
            Weakness::HighLine => {
                if matches!(my.build_up_style, BuildUpStyle::Direct) {
                    factors.push(112);
                }
                if fast {
                    factors.push(108);
                }
            },
            Weakness::NarrowWidth => {
                if matches!(my.team_width, TeamWidth::Wide | TeamWidth::VeryWide) {
                    factors.push(110);
                }
            },
            Weakness::LowPressing => {
                if matches!(my.build_up_style, BuildUpStyle::Short) {
                    factors.push(108);
                }
            },
            Weakness::SlowTempo => {
                if fast {
                    factors.push(110);
                }
            },
            Weakness::WideFormation => {
                if matches!(my.team_width, TeamWidth::Narrow | TeamWidth::VeryNarrow) {
                    factors.push(108);
                }
            },
            Weakness::DeepLine => {
                if matches!(my.team_tempo, TeamTempo::Slow | TeamTempo::VerySlow) {
                    factors.push(106);
                }
            },
            Weakness::HighPressing => {
                if matches!(my.build_up_style, BuildUpStyle::Direct) {
                    factors.push(110);
                }
                if fast {
                    factors.push(106);
                }
            },
        }
        proof {
            assert(factors@ =~= before + weakness_factors(*my, weaknesses@[k as int]));
        }
    }
    factors
}

/// Every counter factor raises the bonus, by 6 to 12 percent, and a weakness
/// gives at most two of them; an opponent without weaknesses gives none.
pub proof fn lemma_counter_factors_raise(my: TeamInstructions, ws: Seq<Weakness>, k: int)
    requires
        0 <= k <= ws.len(),
    ensures
        forall|i: int|
            0 <= i < factors_upto(my, ws, k).len() ==> 106 <= #[trigger] factors_upto(my, ws, k)[i] <= 112,
        factors_upto(my, ws, k).len() <= 2 * k,
    decreases k,
{
    if k > 0 {
        lemma_counter_factors_raise(my, ws, k - 1);
        let a = factors_upto(my, ws, k - 1);
        let b = weakness_factors(my, ws[k - 1]);
        assert forall|i: int| 0 <= i < (a + b).len() implies 106 <= #[trigger] (a + b)[i] <= 112 by {
            if i >= a.len() {
                assert((a + b)[i] == b[i - a.len()]);
            }
        }
    }
}


/// Product of a list of factors.
pub open spec fn product(fs: Seq<u32>) -> int
    decreases fs.len(),
{
    if fs.len() == 0 {
        1
    } else {
        product(fs.drop_last()) * fs.last()
    }
}

/// `b` to the power `n`.
pub open spec fn power(b: int, n: nat) -> int
    decreases n,
{
    if n == 0 {
        1
    } else {
        b * power(b, (n - 1) as nat)
    }
}

/// The counter bonus as a fraction `(numerator, n)` standing for
/// `numerator / 100^n`: the exact product of the `n` counter factors (each in
/// percent), or 150 / 100 = 1.5 when the product is larger.
pub open spec fn counter_bonus_exact(my: TeamInstructions, opponent: TeamInstructions) -> (int, nat) {
    let fs = factors_upto(my, weaknesses_of(opponent), weaknesses_of(opponent).len() as int);
    if 2 * product(fs) > 3 * power(100, fs.len()) {
        (150, 1)
    } else {
        (product(fs), fs.len())
    }
}

/// Confidence in an analysis, in percent: 50, and 10 more per weakness,
/// at most 95.
pub open spec fn confidence_pct(n: int) -> int {
    if 50 + 10 * n > 95 {
        95
    } else {
        50 + 10 * n
    }
}

proof fn lemma_power_mono(b: int, m: nat, n: nat)
    requires
        b >= 1,
        m <= n,
    ensures
        1 <= power(b, m) <= power(b, n),
    decreases n,
{
    if n > m {
        lemma_power_mono(b, m, (n - 1) as nat);
        assert(power(b, (n - 1) as nat) <= b * power(b, (n - 1) as nat)) by (nonlinear_arith)
            requires
                b >= 1,
                power(b, (n - 1) as nat) >= 1,
        ;
    } else if n > 0 {
        lemma_power_mono(b, 0, (n - 1) as nat);
        assert(1 <= b * power(b, (n - 1) as nat)) by (nonlinear_arith)
            requires
                b >= 1,
                power(b, (n - 1) as nat) >= 1,
        ;
    }
}

proof fn lemma_power_values()
    ensures
        power(112, 8) == 24759631762948096,
        power(100, 8) == 10000000000000000,
{
    assert(power(112, 0) == 1);
    assert(power(112, 1) == 112);
    assert(power(112, 2) == 12544);
    assert(power(112, 3) == 1404928);
    assert(power(112, 4) == 157351936);
    assert(power(112, 5) == 17623416832);
    assert(power(112, 6) == 1973822685184);
    assert(power(112, 7) == 221068140740608);
    assert(power(112, 8) == 24759631762948096);
    assert(power(100, 0) == 1);
    assert(power(100, 1) == 100);
    assert(power(100, 2) == 10000);
    assert(power(100, 3) == 1000000);
    assert(power(100, 4) == 100000000);
    assert(power(100, 5) == 10000000000);
    assert(power(100, 6) == 1000000000000);
    assert(power(100, 7) == 100000000000000);
    assert(power(100, 8) == 10000000000000000);
}

/// A counter bonus as the exact fraction `numerator / 100^scale`, from 1.0
/// to 1.5.
#[derive(Debug, Clone, Copy, PartialEq, Eq, Structural)]
pub struct CounterBonus {
    pub numerator: u64,
    pub scale: u32,
}

/// An opponent's weaknesses, the counter-tactic for them, and the confidence
/// of the reading.
#[derive(Debug, Clone)]
pub struct OpponentAnalysis {
    pub weaknesses: Vec<Weakness>,
    pub recommended_counter: CounterTactic,
    /// Confidence in percent.
    pub confidence: u32,
}

impl OpponentAnalysis {
    /// Reads an opponent's instructions: its weaknesses (see
    /// `identify_weaknesses`), the counter-tactic for them (see
    /// `recommend_counter`) and a confidence of 50 percent and 10 more per
    /// weakness, at most 95.
    pub fn analyze(opponent_instructions: &TeamInstructions) -> (r: OpponentAnalysis)
        ensures
            r.weaknesses@ == weaknesses_of(*opponent_instructions),
            r.recommended_counter.recommended_style == counter_upto(
                weaknesses_of(*opponent_instructions),
                weaknesses_of(*opponent_instructions).len() as int,
            ).style,
            r.recommended_counter.recommended_tempo == counter_upto(
                weaknesses_of(*opponent_instructions),
                weaknesses_of(*opponent_instructions).len() as int,
            ).tempo,
            texts(r.recommended_counter.key_areas@) == counter_upto(
                weaknesses_of(*opponent_instructions),
                weaknesses_of(*opponent_instructions).len() as int,
            ).areas,
            texts(r.recommended_counter.description_keys@) == counter_upto(
                weaknesses_of(*opponent_instructions),
                weaknesses_of(*opponent_instructions).len() as int,
            ).keys,
            r.confidence == confidence_pct(weaknesses_of(*opponent_instructions).len() as int),
    {
        let weaknesses = identify_weaknesses(opponent_instructions);
        let recommended_counter = recommend_counter(weaknesses.as_slice());
        proof {
            lemma_weaknesses_bounded(*opponent_instructions);
        }
        let n = weaknesses.len() as u32;
        let c = 50 + 10 * n;
        let confidence = if c > 95 {
            95
        } else {
            c
        };
        OpponentAnalysis { weaknesses, recommended_counter, confidence }
    }

    /// How well our instructions exploit an opponent's weaknesses, as an
    /// exact multiplier: the product of the counter factors (see
    /// `counter_bonus_factors`, each in percent) over 100 to the number of
    /// factors, 1.0 with no factor, and 1.5 where the product is larger.
    pub fn calculate_counter_bonus(
        my_instructions: &TeamInstructions,
        opponent_instructions: &TeamInstructions,
    ) -> (r: CounterBonus)
        ensures
            (r.numerator as int, r.scale as nat) == counter_bonus_exact(*my_instructions, *opponent_instructions),
            power(100, r.scale as nat) <= r.numerator,
            2 * r.numerator <= 3 * power(100, r.scale as nat),
    {
        let fs = counter_bonus_factors(my_instructions, opponent_instructions);
        let ghost ws = weaknesses_of(*opponent_instructions);
        proof {
            lemma_weaknesses_bounded(*opponent_instructions);
            lemma_counter_factors_raise(*my_instructions, ws, ws.len() as int);
            lemma_power_mono(112, 0, 8);
            lemma_power_values();
        }
        let n = fs.len();
        let mut num: u128 = 1;
        let mut den: u128 = 1;
        for i in 0..n
            invariant
                n == fs@.len(),
                n <= 8,
                forall|j: int| 0 <= j < fs@.len() ==> 106 <= #[trigger] fs@[j] <= 112,
                num == product(fs@.take(i as int)),
                den == power(100, i as nat),
                power(100, i as nat) <= num <= power(112, i as nat),
                power(112, 8) == 24759631762948096,
                power(100, 8) == 10000000000000000,
        {
            let f = fs[i];
            proof {
                assert(fs@.take(i + 1).drop_last() =~= fs@.take(i as int));
                lemma_power_mono(112, (i + 1) as nat, 8);
                let p = power(112, i as nat);
                let q = power(100, i as nat);
                assert(num * f <= p * 112) by (nonlinear_arith)
                    requires
                        num <= p,
                        f <= 112,
                        0 <= num,
                        0 <= f,
                ;
                assert(q * 100 <= num * f) by (nonlinear_arith)
                    requires
                        q <= num,
                        100 <= f,
                        0 <= q,
                ;
                lemma_power_mono(100, (i + 1) as nat, 8);
            }
            num = num * f as u128;
            den = den * 100;
        }
        proof {
            assert(fs@.take(n as int) =~= fs@);
            lemma_power_mono(112, n as nat, 8);
            assert(power(100, 0) == 1);
            assert(power(100, 1) == 100);
        }
        if 2 * num > 3 * den {
            CounterBonus { numerator: 150, scale: 1 }
        } else {
            CounterBonus { numerator: num as u64, scale: n as u32 }
        }
    }
}

} // verus!
