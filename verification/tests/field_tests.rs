use robocup::field::{
    ball_contact, kickoff_placements, scored_against, ColliderId, Goals, Heading,
    PhysicsStateEvent, Placement,
};
use robocup::game::Team;

fn c(i: u32) -> ColliderId {
    ColliderId { index: i, generation: 0 }
}

#[test]
fn cyan_kickoff_layout() {
    let p = kickoff_placements(Team::Cyan);
    assert_eq!(
        p,
        vec![
            Placement { team: Team::Cyan, robot_index: 0, x_mm: -200, y_mm: 0, heading: Heading::PositiveX },
            Placement { team: Team::Cyan, robot_index: 1, x_mm: -615, y_mm: 0, heading: Heading::PositiveX },
            Placement { team: Team::Yellow, robot_index: 0, x_mm: 615, y_mm: 340, heading: Heading::NegativeX },
            Placement { team: Team::Yellow, robot_index: 1, x_mm: 615, y_mm: -340, heading: Heading::NegativeX },
        ]
    );
}

#[test]
fn yellow_kickoff_layout_mirrors_cyan() {
    let cyan = kickoff_placements(Team::Cyan);
    let yellow = kickoff_placements(Team::Yellow);
    for (a, b) in cyan.iter().zip(yellow.iter()) {
        assert_eq!(b.team, a.team.opponent());
        assert_eq!(b.robot_index, a.robot_index);
        assert_eq!(b.x_mm, -a.x_mm);
        assert_eq!(b.y_mm, a.y_mm);
        assert_ne!(b.heading, a.heading);
    }
    // Every robot stands on its own half.
    for p in cyan.iter().chain(yellow.iter()) {
        match p.team {
            Team::Cyan => assert!(p.x_mm < 0 && p.heading == Heading::PositiveX),
            Team::Yellow => assert!(p.x_mm > 0 && p.heading == Heading::NegativeX),
        }
    }
}

#[test]
fn ball_in_goal_is_detected() {
    let goals = Goals { cyan: c(1), yellow: c(2) };
    let ball = c(9);
    assert_eq!(ball_contact(c(9), c(1), ball, goals), Some(PhysicsStateEvent::BallHitGoal(Team::Cyan)));
    assert_eq!(ball_contact(c(2), c(9), ball, goals), Some(PhysicsStateEvent::BallHitGoal(Team::Yellow)));
    assert_eq!(ball_contact(c(3), c(1), ball, goals), None);
    assert_eq!(ball_contact(c(9), c(4), ball, goals), None);
    // Same index, other generation: another collider.
    assert_eq!(ball_contact(ColliderId { index: 9, generation: 1 }, c(1), ball, goals), None);
}

#[test]
fn the_last_goal_of_a_step_counts() {
    let goals = Goals { cyan: c(1), yellow: c(2) };
    let ball = c(9);
    assert_eq!(scored_against(&[], ball, goals), None);
    assert_eq!(scored_against(&[(c(3), c(4))], ball, goals), None);
    assert_eq!(
        scored_against(&[(c(9), c(1)), (c(3), c(4)), (c(2), c(9)), (c(5), c(9))], ball, goals),
        Some(Team::Yellow)
    );
}
