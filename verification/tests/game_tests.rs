use robocup::game::{
    can_move, snapshot_readiness, DamageReason, GamePhase, GameScore, InsertCommandError,
    RobotSession, RobotStatus, SessionRegisterError, SnapshotReadiness,
    SubscribeGameSnapshotError, Team, Tick, BodyId,
};

#[test]
fn team_names_and_opponents() {
    assert_eq!(Team::Cyan.display_string(), "cyan");
    assert_eq!(Team::Yellow.display_string(), "yellow");
    assert_eq!(Team::Cyan.opponent(), Team::Yellow);
    assert_eq!(Team::Yellow.opponent(), Team::Cyan);
}

#[test]
fn robot_ids_follow_the_pattern() {
    assert_eq!(RobotSession::get_robot_id(Team::Cyan, 0), "r_cyan_0");
    assert_eq!(RobotSession::get_robot_id(Team::Yellow, 1), "r_yellow_1");
    assert_eq!(RobotSession::get_robot_id(Team::Cyan, 1234567), "r_cyan_1234567");
    assert_eq!(RobotSession::get_robot_id(Team::Yellow, 10), "r_yellow_10");
}

#[test]
fn robot_ids_are_distinct() {
    let mut ids = Vec::new();
    for team in [Team::Cyan, Team::Yellow] {
        for i in [0usize, 1, 2, 9, 10, 11, 100, 101] {
            ids.push(RobotSession::get_robot_id(team, i));
        }
    }
    for a in 0..ids.len() {
        for b in 0..ids.len() {
            if a != b {
                assert_ne!(ids[a], ids[b]);
            }
        }
    }
}

#[test]
fn tick_display() {
    assert_eq!(Tick(0).display_string(), "tick(0)");
    assert_eq!(Tick(42).display_string(), "tick(42)");
    assert_eq!(Tick(u32::MAX).display_string(), "tick(4294967295)");
}

#[test]
fn ticks_from_and_to_sim_time() {
    // 10 minutes at 50 ms per tick.
    let step = 50_000_000u128;
    assert_eq!(Tick::from_sim_time(step, 600_000_000_000), Tick(12_000));
    assert_eq!(Tick::from_sim_time(step, 49_999_999), Tick(0));
    assert_eq!(Tick::from_sim_time(1, 1u128 << 32), Tick(0));
    assert_eq!(Tick::from_sim_time(1, (1u128 << 32) + 5), Tick(5));
    assert_eq!(Tick(3).to_sim_time(50_000_000), 150_000_000);
}

#[test]
fn kickoff_turns_into_play_after_five_ticks() {
    // The lifecycle of the simulator: a kickoff from tick 1, play from tick 5.
    let mut phase = GamePhase::Kickoff { first_tick: Tick(1) };
    let mut can = Vec::new();
    for t in 1..=7u32 {
        phase.advance(Tick(t));
        can.push(can_move(phase, RobotStatus::Active));
    }
    assert_eq!(can, vec![false, false, false, false, true, true, true]);
    let mut playing = GamePhase::Playing;
    playing.advance(Tick(2));
    assert_eq!(playing, GamePhase::Playing);
}

#[test]
fn only_active_robots_move_in_play() {
    assert!(can_move(GamePhase::Playing, RobotStatus::Active));
    assert!(!can_move(GamePhase::Kickoff { first_tick: Tick(3) }, RobotStatus::Active));
    assert!(!can_move(GamePhase::Playing, RobotStatus::Damaged(DamageReason::NotResponding)));
    assert!(!can_move(
        GamePhase::Playing,
        RobotStatus::Removed { removed_at: Tick(2), damage_reason: DamageReason::EnteredOutArea }
    ));
}

#[test]
fn goals_count_for_the_other_team() {
    let mut score = GameScore::default();
    assert_eq!((score.cyan(), score.yellow()), (0, 0));
    score.record_goal_against(Team::Cyan);
    assert_eq!((score.cyan(), score.yellow()), (0, 1));
    score.record_goal_against(Team::Yellow);
    score.record_goal_against(Team::Yellow);
    assert_eq!((score.cyan(), score.yellow()), (2, 1));
    assert!(score.can_record(Team::Cyan));
}

#[test]
fn teammates() {
    let s0 = RobotSession::new("r_cyan_0".to_string(), Team::Cyan, 0, BodyId { index: 3, generation: 0 });
    let s1 = RobotSession::new("r_cyan_1".to_string(), Team::Cyan, 1, BodyId { index: 4, generation: 0 });
    let s5 = RobotSession::new("r_yellow_5".to_string(), Team::Yellow, 5, BodyId { index: 5, generation: 0 });
    assert_eq!(s0.teammate_id(), "r_cyan_1");
    assert_eq!(s1.teammate_id(), "r_cyan_0");
    assert_eq!(s5.teammate_id(), "r_yellow_0");
    assert_eq!(s0.status, RobotStatus::Active);
}

#[test]
fn status_codes() {
    assert_eq!(SessionRegisterError::Conflict { robot_id: "r_cyan_0".to_string() }.status_code(), 409);
    assert_eq!(SessionRegisterError::RegisterUnavailable.status_code(), 503);
    assert_eq!(SubscribeGameSnapshotError::TickExpired(Tick(4)).status_code(), 400);
    assert_eq!(SubscribeGameSnapshotError::SimulationClosed.status_code(), 503);
    assert_eq!(InsertCommandError::RobotNotFound("x".to_string()).status_code(), 404);
    assert_eq!(InsertCommandError::CannotMove.status_code(), 400);
    assert_eq!(InsertCommandError::TickNotCurrent(Tick(1)).status_code(), 400);
}

#[test]
fn snapshot_waiting() {
    assert_eq!(snapshot_readiness(None, Tick(1)), SnapshotReadiness::Wait);
    assert_eq!(snapshot_readiness(Some(Tick(0)), Tick(1)), SnapshotReadiness::Wait);
    assert_eq!(snapshot_readiness(Some(Tick(1)), Tick(1)), SnapshotReadiness::Ready);
    assert_eq!(snapshot_readiness(Some(Tick(2)), Tick(1)), SnapshotReadiness::Expired(Tick(2)));
}
