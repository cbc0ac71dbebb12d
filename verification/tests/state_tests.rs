use robocup::game::{
    BodyId, GamePhase, InsertCommandError, RobotStatus, SessionRegisterError, Team, Tick,
};
use robocup::state::{GameStateInner, TickOutcome};

#[derive(Clone, Copy, Debug, PartialEq)]
struct Cmd(i32);

fn body(i: u32) -> BodyId {
    BodyId { index: i, generation: 1 }
}

fn game_with_four_robots(length: u32) -> GameStateInner<Cmd> {
    let mut g = GameStateInner::new(Tick(length));
    g.register_session(Team::Cyan, 0, body(10)).unwrap();
    g.register_session(Team::Cyan, 1, body(11)).unwrap();
    g.register_session(Team::Yellow, 0, body(20)).unwrap();
    g.register_session(Team::Yellow, 1, body(21)).unwrap();
    g
}

#[test]
fn new_game_state() {
    let g: GameStateInner<Cmd> = GameStateInner::new(Tick(100));
    assert_eq!(g.tick, Tick(0));
    assert_eq!(g.game_length, Tick(100));
    assert_eq!(g.phase, GamePhase::Kickoff { first_tick: Tick(1) });
    assert_eq!(g.sessions.len(), 0);
    assert_eq!(g.tick_state.current_tick(), Tick(0));
    assert_eq!(g.tick_state.received_count(), 0);
    assert_eq!((g.score.cyan(), g.score.yellow()), (0, 0));
}

#[test]
fn registration() {
    let mut g: GameStateInner<Cmd> = GameStateInner::new(Tick(100));
    let s = g.register_session(Team::Yellow, 1, body(7)).unwrap();
    assert_eq!(s.robot_id, "r_yellow_1");
    assert_eq!(s.team, Team::Yellow);
    assert_eq!(s.robot_index, 1);
    assert_eq!(s.status, RobotStatus::Active);
    assert_eq!(s.rigid_body, body(7));
    assert_eq!(g.robot_body(Team::Yellow, 1), Some(body(7)));
    assert_eq!(g.robot_body(Team::Yellow, 0), None);
    match g.register_session(Team::Yellow, 1, body(8)) {
        Err(SessionRegisterError::Conflict { robot_id }) => assert_eq!(robot_id, "r_yellow_1"),
        other => panic!("unexpected {:?}", other),
    }
    assert_eq!(g.sessions.len(), 1);
    assert!(g.check_registration(Team::Cyan, 0).is_ok());
    assert!(matches!(
        g.check_registration(Team::Yellow, 1),
        Err(SessionRegisterError::Conflict { .. })
    ));
}

#[test]
fn registration_closes_after_first_tick() {
    let mut g = game_with_four_robots(100);
    assert_eq!(g.advance_tick(), TickOutcome::Started(Tick(1)));
    assert!(matches!(
        g.register_session(Team::Cyan, 2, body(30)),
        Err(SessionRegisterError::RegisterUnavailable)
    ));
    assert!(matches!(
        g.check_registration(Team::Cyan, 0),
        Err(SessionRegisterError::RegisterUnavailable)
    ));
}

#[test]
fn commands_are_collected_until_everyone_answered() {
    let mut g = game_with_four_robots(100);
    assert_eq!(g.advance_tick(), TickOutcome::Started(Tick(1)));
    assert!(matches!(
        g.insert_command("r_cyan_0".to_string(), Tick(2), None),
        Err(InsertCommandError::TickNotCurrent(Tick(2)))
    ));
    match g.insert_command("r_cyan_7".to_string(), Tick(1), None) {
        Err(InsertCommandError::RobotNotFound(id)) => assert_eq!(id, "r_cyan_7"),
        other => panic!("unexpected {:?}", other.map(|_| ())),
    }
    // During the kickoff robots may not move.
    assert!(matches!(
        g.insert_command("r_cyan_0".to_string(), Tick(1), Some(Cmd(5))),
        Err(InsertCommandError::CannotMove)
    ));
    assert_eq!(g.insert_command("r_cyan_0".to_string(), Tick(1), None).unwrap(), None);
    // A repeated command replaces the earlier one.
    assert_eq!(g.insert_command("r_cyan_0".to_string(), Tick(1), None).unwrap(), None);
    assert_eq!(g.tick_state.received_count(), 1);
    assert_eq!(g.insert_command("r_cyan_1".to_string(), Tick(1), None).unwrap(), None);
    assert_eq!(g.insert_command("r_yellow_0".to_string(), Tick(1), None).unwrap(), None);
    assert_eq!(g.insert_command("r_yellow_1".to_string(), Tick(1), None).unwrap(), Some(vec![]));
}

#[test]
fn driving_commands_reach_the_physics_step_in_play() {
    let mut g = game_with_four_robots(100);
    // Ticks 1 to 5: kickoff, play from tick 5.
    for t in 1..=5u32 {
        assert_eq!(g.advance_tick(), TickOutcome::Started(Tick(t)));
    }
    assert_eq!(g.phase, GamePhase::Playing);
    assert_eq!(g.insert_command("r_yellow_1".to_string(), Tick(5), Some(Cmd(1))).unwrap(), None);
    assert_eq!(g.insert_command("r_cyan_0".to_string(), Tick(5), None).unwrap(), None);
    assert_eq!(g.insert_command("r_cyan_1".to_string(), Tick(5), Some(Cmd(2))).unwrap(), None);
    let batch = g.insert_command("r_yellow_0".to_string(), Tick(5), Some(Cmd(3))).unwrap();
    assert_eq!(batch, Some(vec![(body(21), Cmd(1)), (body(11), Cmd(2)), (body(20), Cmd(3))]));
}

#[test]
fn a_goal_scores_and_restarts_with_a_kickoff() {
    let mut g = game_with_four_robots(100);
    for t in 1..=6u32 {
        assert_eq!(g.advance_tick(), TickOutcome::Started(Tick(t)));
    }
    assert_eq!(g.complete_step(Some(Team::Cyan)), Some(Team::Cyan));
    assert_eq!((g.score.cyan(), g.score.yellow()), (0, 1));
    assert_eq!(g.phase, GamePhase::Kickoff { first_tick: Tick(7) });
    assert_eq!(g.complete_step(None), None);
    assert_eq!(g.phase, GamePhase::Kickoff { first_tick: Tick(7) });
    for t in 7..=10u32 {
        assert!(g.can_advance());
        assert_eq!(g.advance_tick(), TickOutcome::Started(Tick(t)));
        assert!(matches!(g.phase, GamePhase::Kickoff { .. }));
    }
    assert_eq!(g.advance_tick(), TickOutcome::Started(Tick(11)));
    assert_eq!(g.phase, GamePhase::Playing);
}

#[test]
fn the_game_ends_after_its_length() {
    let mut g = game_with_four_robots(3);
    assert_eq!(g.advance_tick(), TickOutcome::Started(Tick(1)));
    assert_eq!(g.advance_tick(), TickOutcome::Started(Tick(2)));
    assert_eq!(g.advance_tick(), TickOutcome::GameOver);
    assert_eq!(g.tick, Tick(3));

    let mut empty: GameStateInner<Cmd> = GameStateInner::new(Tick(0));
    assert_eq!(empty.advance_tick(), TickOutcome::GameOver);
}

#[test]
fn advancing_a_late_kickoff_would_overflow() {
    let mut g: GameStateInner<Cmd> = GameStateInner::new(Tick(u32::MAX));
    g.phase = GamePhase::Kickoff { first_tick: Tick(u32::MAX - 2) };
    assert!(!g.can_advance());
    g.phase = GamePhase::Playing;
    assert!(g.can_advance());
}

#[test]
fn finishing_a_step_with_a_goal_starts_a_frozen_kickoff_tick() {
    let mut g = game_with_four_robots(100);
    for t in 1..=6u32 {
        assert_eq!(g.advance_tick(), TickOutcome::Started(Tick(t)));
    }
    assert!(g.can_finish_step(Some(Team::Yellow)));
    assert_eq!(g.finish_step(Some(Team::Yellow)), (Some(Team::Yellow), TickOutcome::Started(Tick(7))));
    assert_eq!((g.score.cyan(), g.score.yellow()), (1, 0));
    assert_eq!(g.phase, GamePhase::Kickoff { first_tick: Tick(7) });
    assert_eq!(g.tick_state.current_tick(), Tick(7));
    assert_eq!(g.tick_state.received_count(), 0);
    assert!(matches!(
        g.insert_command("r_cyan_0".to_string(), Tick(7), Some(Cmd(1))),
        Err(InsertCommandError::CannotMove)
    ));
    // Without a goal the phase just moves on.
    assert_eq!(g.finish_step(None), (None, TickOutcome::Started(Tick(8))));
    assert_eq!(g.phase, GamePhase::Kickoff { first_tick: Tick(7) });
}

#[test]
fn finishing_the_last_step_ends_the_game() {
    let mut g = game_with_four_robots(2);
    assert_eq!(g.advance_tick(), TickOutcome::Started(Tick(1)));
    assert_eq!(g.finish_step(Some(Team::Cyan)), (Some(Team::Cyan), TickOutcome::GameOver));
    assert_eq!(g.tick, Tick(2));
    assert_eq!((g.score.cyan(), g.score.yellow()), (0, 1));
}
