use of_core::opponent_analysis::{
    counter_bonus_factors, identify_weaknesses, recommend_counter, BuildUpStyle, CounterBonus,
    DefensiveLine, OpponentAnalysis, TeamInstructions, TeamPressing, TeamTempo, TeamWidth, Weakness,
};

/// The counter bonus.
fn bonus_of(my: &TeamInstructions, opponent: &TeamInstructions) -> CounterBonus {
    OpponentAnalysis::calculate_counter_bonus(my, opponent)
}

/// Whether a bonus is above `thousandths` / 1000.
fn above(b: CounterBonus, thousandths: u128) -> bool {
    (b.numerator as u128) * 1000 > thousandths * 100u128.pow(b.scale)
}

/// Whether a bonus is at most `thousandths` / 1000.
fn at_most(b: CounterBonus, thousandths: u128) -> bool {
    (b.numerator as u128) * 1000 <= thousandths * 100u128.pow(b.scale)
}

#[test]
fn test_high_line_detected() {
    let mut instructions = TeamInstructions::default();
    instructions.defensive_line = DefensiveLine::VeryHigh;
    let weaknesses = identify_weaknesses(&instructions);
    assert!(weaknesses.contains(&Weakness::HighLine), "Should detect high line weakness");
}

#[test]
fn test_narrow_width_detected() {
    let mut instructions = TeamInstructions::default();
    instructions.team_width = TeamWidth::VeryNarrow;
    let weaknesses = identify_weaknesses(&instructions);
    assert!(weaknesses.contains(&Weakness::NarrowWidth), "Should detect narrow width weakness");
}

#[test]
fn test_counter_bonus_against_high_line() {
    let mut my_tactics = TeamInstructions::default();
    my_tactics.build_up_style = BuildUpStyle::Direct;
    my_tactics.team_tempo = TeamTempo::Fast;
    let mut opponent = TeamInstructions::default();
    opponent.defensive_line = DefensiveLine::VeryHigh;
    let bonus = bonus_of(&my_tactics, &opponent);
    assert!(above(bonus, 1150), "Direct + Fast vs High Line should give good bonus: {:?}", bonus);
}

#[test]
fn test_counter_bonus_against_narrow() {
    let mut my_tactics = TeamInstructions::default();
    my_tactics.team_width = TeamWidth::VeryWide;
    let mut opponent = TeamInstructions::default();
    opponent.team_width = TeamWidth::VeryNarrow;
    let bonus = bonus_of(&my_tactics, &opponent);
    assert!(above(bonus, 1080), "Wide vs Narrow should give bonus: {:?}", bonus);
}

#[test]
fn test_bonus_capped_at_1_5() {
    let mut my_tactics = TeamInstructions::default();
    my_tactics.build_up_style = BuildUpStyle::Direct;
    my_tactics.team_tempo = TeamTempo::VeryFast;
    my_tactics.team_width = TeamWidth::VeryWide;
    let mut opponent = TeamInstructions::default();
    opponent.defensive_line = DefensiveLine::VeryHigh;
    opponent.team_width = TeamWidth::VeryNarrow;
    opponent.pressing_intensity = TeamPressing::VeryHigh;
    let bonus = bonus_of(&my_tactics, &opponent);
    assert!(at_most(bonus, 1500), "Bonus should be capped at 1.5: {:?}", bonus);
}

#[test]
fn test_recommended_counter_description() {
    let mut instructions = TeamInstructions::default();
    instructions.defensive_line = DefensiveLine::VeryHigh;
    let counter = recommend_counter(&identify_weaknesses(&instructions));
    assert!(!counter.description_keys.is_empty(), "Should have counter description keys");
    assert!(
        counter.key_areas.contains(&"behind_defense".to_string()),
        "Should recommend attacking behind defense"
    );
}

// ---------------------------------------------------------------------------
// Further cases
// ---------------------------------------------------------------------------

#[test]
fn weaknesses_in_order_of_instructions() {
    let opponent = TeamInstructions {
        defensive_line: DefensiveLine::Deep,
        team_width: TeamWidth::Wide,
        pressing_intensity: TeamPressing::Low,
        team_tempo: TeamTempo::VerySlow,
        build_up_style: BuildUpStyle::Short,
    };
    assert_eq!(
        identify_weaknesses(&opponent),
        vec![Weakness::DeepLine, Weakness::WideFormation, Weakness::LowPressing, Weakness::SlowTempo]
    );
    assert!(identify_weaknesses(&TeamInstructions::default()).is_empty());
}

#[test]
fn counter_tactic_follows_weaknesses() {
    let counter = recommend_counter(&[Weakness::HighLine, Weakness::LowPressing, Weakness::SlowTempo]);
    // the later weakness overrides the style; the tempo goes to very fast
    assert_eq!(counter.recommended_style, BuildUpStyle::Short);
    assert_eq!(counter.recommended_tempo, TeamTempo::VeryFast);
    assert_eq!(counter.key_areas, vec!["behind_defense", "possession", "quick_transitions"]);
    assert_eq!(
        counter.description_keys,
        vec!["counter_high_line_direct_fast", "counter_low_pressing_possession", "counter_slow_tempo_fast_play"]
    );
    let none = recommend_counter(&[]);
    assert_eq!(none.recommended_style, BuildUpStyle::Mixed);
    assert_eq!(none.recommended_tempo, TeamTempo::Normal);
    assert!(none.key_areas.is_empty());
}

#[test]
fn counter_factors_exact() {
    let my = TeamInstructions {
        defensive_line: DefensiveLine::Normal,
        team_width: TeamWidth::VeryWide,
        pressing_intensity: TeamPressing::Normal,
        team_tempo: TeamTempo::VeryFast,
        build_up_style: BuildUpStyle::Direct,
    };
    let opponent = TeamInstructions {
        defensive_line: DefensiveLine::VeryHigh,
        team_width: TeamWidth::VeryNarrow,
        pressing_intensity: TeamPressing::VeryHigh,
        team_tempo: TeamTempo::Normal,
        build_up_style: BuildUpStyle::Mixed,
    };
    // high line: 112 and 108; narrow width: 110; high pressing: 110 and 106
    assert_eq!(counter_bonus_factors(&my, &opponent), vec![112, 108, 110, 110, 106]);
    assert_eq!(bonus_of(&my, &opponent), CounterBonus { numerator: 150, scale: 1 });
    // no weakness, no factor
    assert!(counter_bonus_factors(&my, &TeamInstructions::default()).is_empty());
    // a deep line rewards a slow tempo only
    let mut slow = TeamInstructions::default();
    slow.team_tempo = TeamTempo::Slow;
    let mut deep = TeamInstructions::default();
    deep.defensive_line = DefensiveLine::VeryDeep;
    assert_eq!(counter_bonus_factors(&slow, &deep), vec![106]);
    assert!(counter_bonus_factors(&TeamInstructions::default(), &deep).is_empty());
}

#[test]
fn counter_bonus_is_the_capped_product_of_the_factors() {
    let mut my = TeamInstructions::default();
    my.build_up_style = BuildUpStyle::Direct;
    my.team_tempo = TeamTempo::Fast;
    let mut opponent = TeamInstructions::default();
    opponent.defensive_line = DefensiveLine::VeryHigh;
    // 1.12 x 1.08 = 1.2096
    assert_eq!(bonus_of(&my, &opponent), CounterBonus { numerator: 12096, scale: 2 });
    // no weakness, no bonus
    assert_eq!(bonus_of(&my, &TeamInstructions::default()), CounterBonus { numerator: 1, scale: 0 });
    // high line and high pressing against direct, fast play:
    // 1.12 x 1.08 x 1.10 x 1.06 = 1.4103936
    opponent.pressing_intensity = TeamPressing::VeryHigh;
    assert_eq!(bonus_of(&my, &opponent), CounterBonus { numerator: 141039360, scale: 4 });
    // adding a slow tempo: x 1.10 passes the cap
    opponent.team_tempo = TeamTempo::VerySlow;
    assert_eq!(bonus_of(&my, &opponent), CounterBonus { numerator: 150, scale: 1 });
}

#[test]
fn analyze_gives_weaknesses_counter_and_confidence() {
    let mut opponent = TeamInstructions::default();
    opponent.defensive_line = DefensiveLine::High;
    opponent.team_width = TeamWidth::Narrow;
    let a = OpponentAnalysis::analyze(&opponent);
    assert_eq!(a.weaknesses, vec![Weakness::HighLine, Weakness::NarrowWidth]);
    assert_eq!(a.confidence, 70);
    assert_eq!(a.recommended_counter.recommended_style, BuildUpStyle::Direct);
    assert_eq!(a.recommended_counter.recommended_tempo, TeamTempo::Fast);
    assert_eq!(a.recommended_counter.description_keys.len(), 2);
    let none = OpponentAnalysis::analyze(&TeamInstructions::default());
    assert!(none.weaknesses.is_empty());
    assert_eq!(none.confidence, 50);
}
