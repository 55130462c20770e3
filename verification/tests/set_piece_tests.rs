use of_core::phase_action::set_piece::{
    set_piece_step, CornerTactic, FreeKickContest, FreeKickTactic, SetPieceMove, SetPiecePhase, SetPieceStep,
    SetPieceTactic, SetPieceTick, SetPieceType, CORNER_SETUP_TICKS, FREEKICK_SETUP_TICKS, PENALTY_SETUP_TICKS,
};

fn quiet() -> SetPieceTick {
    SetPieceTick { cross_beaten: false, freekick_contest: FreeKickContest::Nothing }
}

/// Runs a set piece until it finishes, returning the ticks it took and what
/// it asked to settle on its last tick.
fn run(kind: SetPieceType, tactic: SetPieceTactic, ticks: u8, t: SetPieceTick, limit: u32) -> (u32, SetPieceMove) {
    let mut phase = SetPiecePhase::Setup;
    let mut rem = ticks;
    for tick in 1..=limit {
        let s = set_piece_step(kind, phase, rem, tactic, t);
        phase = s.phase;
        rem = s.remaining_ticks;
        if phase == SetPiecePhase::Finished {
            return (tick, s.action);
        }
    }
    (limit + 1, SetPieceMove::Wait)
}

#[test]
fn test_corner_kick_fsm_phases() {
    let (ticks, last) = run(SetPieceType::Corner, SetPieceTactic::Corner(CornerTactic::Inswing), CORNER_SETUP_TICKS, quiet(), 20);
    assert!(ticks <= 20, "Corner should finish within 20 ticks");
    // setup 3, delivery 2, contest 2, outcome 1
    assert_eq!(ticks, 8);
    assert_eq!(last, SetPieceMove::AerialDuel);
}

#[test]
fn test_penalty_fsm_phases() {
    let (ticks, last) = run(SetPieceType::Penalty, SetPieceTactic::Penalty, PENALTY_SETUP_TICKS, quiet(), 10);
    assert!(ticks <= 10, "Penalty should finish within 10 ticks");
    assert_eq!(ticks, 3);
    assert_eq!(last, SetPieceMove::Penalty);
}

#[test]
fn corner_variants_end_early() {
    let (ticks, last) = run(SetPieceType::Corner, SetPieceTactic::Corner(CornerTactic::Short), CORNER_SETUP_TICKS, quiet(), 20);
    assert_eq!((ticks, last), (5, SetPieceMove::ShortCorner));
    let beaten = SetPieceTick { cross_beaten: true, freekick_contest: FreeKickContest::Nothing };
    let (ticks, last) = run(SetPieceType::Corner, SetPieceTactic::Corner(CornerTactic::FarPost), CORNER_SETUP_TICKS, beaten, 20);
    assert_eq!((ticks, last), (7, SetPieceMove::CrossCleared));
}

#[test]
fn free_kick_variants() {
    let (ticks, last) = run(
        SetPieceType::FreeKickDirect,
        SetPieceTactic::FreeKick(FreeKickTactic::DirectShot),
        FREEKICK_SETUP_TICKS,
        quiet(),
        20,
    );
    assert_eq!((ticks, last), (5, SetPieceMove::DirectFreeKick));
    let shot = SetPieceTick { cross_beaten: false, freekick_contest: FreeKickContest::Shot };
    let (ticks, last) =
        run(SetPieceType::FreeKickIndirect, SetPieceTactic::FreeKick(FreeKickTactic::Cross), FREEKICK_SETUP_TICKS, shot, 20);
    assert_eq!((ticks, last), (7, SetPieceMove::FreeKickShot));
    let (_, last) =
        run(SetPieceType::FreeKickIndirect, SetPieceTactic::FreeKick(FreeKickTactic::ShortPass), FREEKICK_SETUP_TICKS, quiet(), 20);
    assert_eq!(last, SetPieceMove::ShortPass);
}

#[test]
fn missing_context_and_throw_ins_end_at_once() {
    let (ticks, last) = run(SetPieceType::Corner, SetPieceTactic::Unknown, CORNER_SETUP_TICKS, quiet(), 20);
    assert_eq!((ticks, last), (3, SetPieceMove::Ended));
    let s = set_piece_step(SetPieceType::ThrowIn, SetPiecePhase::Setup, 0, SetPieceTactic::Unknown, quiet());
    assert_eq!(s, SetPieceStep { phase: SetPiecePhase::Finished, remaining_ticks: 0, action: SetPieceMove::Ended });
    // a finished set piece stays as it is
    let s = set_piece_step(SetPieceType::Corner, SetPiecePhase::Finished, 0, SetPieceTactic::Penalty, quiet());
    assert_eq!(s, SetPieceStep { phase: SetPiecePhase::Finished, remaining_ticks: 0, action: SetPieceMove::Wait });
}
