//! The playing field: where robots stand for a kickoff, and which goal the
//! ball entered during a physics step.
use vstd::prelude::*;

use crate::game::Team;

verus! {

/// The direction a robot faces, along the length of the field.
#[derive(Clone, Copy, Debug, PartialEq, Eq, Structural)]
pub enum Heading {
    /// Facing the positive x direction (rotation 0).
    PositiveX,
    /// Facing the negative x direction (rotation pi).
    NegativeX,
}

impl Heading {
    pub open spec fn flipped(self) -> Heading {
        match self {
            Heading::PositiveX => Heading::NegativeX,
            Heading::NegativeX => Heading::PositiveX,
        }
    }
}

/// Where one robot is put for a kickoff, in millimetres from the centre spot.
#[derive(Clone, Copy, Debug, PartialEq, Eq, Structural)]
pub struct Placement {
    pub team: Team,
    pub robot_index: usize,
    pub x_mm: i32,
    pub y_mm: i32,
    pub heading: Heading,
}

/// The sign of the x coordinates of the half a team kicks off from: cyan
/// plays from the negative half, yellow from the positive half.
pub open spec fn half_sign(team: Team) -> int {
    match team {
        Team::Cyan => -1,
        Team::Yellow => 1,
    }
}

/// The heading of a team's robots at a kickoff: towards the other half.
pub open spec fn kickoff_heading(team: Team) -> Heading {
    match team {
        Team::Cyan => Heading::PositiveX,
        Team::Yellow => Heading::NegativeX,
    }
}

/// The kickoff layout when `kickoff_team` kicks off: its robot 0 stands 200 mm
/// from the centre and its robot 1 615 mm from the centre, both on the x axis;
/// the other team's robots stand 615 mm from the centre on their own half,
/// 340 mm either side of the x axis.
pub open spec fn kickoff_layout(kickoff_team: Team) -> Seq<Placement> {
    let k = kickoff_team;
    let n = kickoff_team.opponent_spec();
    seq![
        Placement {
            team: k,
            robot_index: 0,
            x_mm: (half_sign(k) * 200) as i32,
            y_mm: 0,
            heading: kickoff_heading(k),
        },
        Placement {
            team: k,
            robot_index: 1,
            x_mm: (half_sign(k) * 615) as i32,
            y_mm: 0,
            heading: kickoff_heading(k),
        },
        Placement {
            team: n,
            robot_index: 0,
            x_mm: (half_sign(n) * 615) as i32,
            y_mm: 340,
            heading: kickoff_heading(n),
        },
        Placement {
            team: n,
            robot_index: 1,
            x_mm: (half_sign(n) * 615) as i32,
            y_mm: -340i32,
            heading: kickoff_heading(n),
        },
    ]
}

fn half_sign_exec(team: Team) -> (s: i32)
    ensures
        s == half_sign(team),
{
    match team {
        Team::Cyan => -1,
        Team::Yellow => 1,
    }
}

fn kickoff_heading_exec(team: Team) -> (h: Heading)
    ensures
        h == kickoff_heading(team),
{
    match team {
        Team::Cyan => Heading::PositiveX,
        Team::Yellow => Heading::NegativeX,
    }
}

/// The placements of the four robots for a kickoff by `kickoff_team`. The ball
/// goes to the centre spot.
pub fn kickoff_placements(kickoff_team: Team) -> (p: Vec<Placement>)
    ensures
        p@ == kickoff_layout(kickoff_team),
{
    let k = kickoff_team;
    let n = kickoff_team.opponent();
    let ks = half_sign_exec(k);
    let ns = half_sign_exec(n);
    let mut p: Vec<Placement> = Vec::new();
    p.push(
        Placement {
            team: k,
            robot_index: 0,
            x_mm: ks * 200,
            y_mm: 0,
            heading: kickoff_heading_exec(k),
        },
    );
    p.push(
        Placement {
            team: k,
            robot_index: 1,
            x_mm: ks * 615,
            y_mm: 0,
            heading: kickoff_heading_exec(k),
        },
    );
    p.push(
        Placement {
            team: n,
            robot_index: 0,
            x_mm: ns * 615,
            y_mm: 340,
            heading: kickoff_heading_exec(n),
        },
    );
    p.push(
        Placement {
            team: n,
            robot_index: 1,
            x_mm: ns * 615,
            y_mm: -340,
            heading: kickoff_heading_exec(n),
        },
    );
    assert(p@ =~= kickoff_layout(kickoff_team));
    p
}

/// The same placement seen from the other side of the halfway line: the
/// other team, x negated, facing the other way.
pub open spec fn mirrored(p: Placement) -> Placement {
    Placement {
        team: p.team.opponent_spec(),
        robot_index: p.robot_index,
        x_mm: -p.x_mm as i32,
        y_mm: p.y_mm,
        heading: p.heading.flipped(),
    }
}

/// Whoever kicks off, the layout places robots 0 and 1 of both teams once
/// each, every robot on its own team's half (cyan at negative x, yellow at
/// positive x), facing the other half; the kicking-off team's robot 0 is the
/// one nearest the centre spot.
pub proof fn lemma_kickoff_layout_halves(kickoff_team: Team)
    ensures
        kickoff_layout(kickoff_team).len() == 4,
        forall|i: int|
            #![trigger kickoff_layout(kickoff_team)[i]]
            0 <= i < 4 ==> {
                let p = kickoff_layout(kickoff_team)[i];
                &&& half_sign(p.team) * p.x_mm > 0
                &&& p.heading == kickoff_heading(p.team)
                &&& p.robot_index < 2
                &&& (p.team == kickoff_team <==> i < 2)
                &&& p.robot_index == i % 2
                &&& (i != 0 ==> abs_x(kickoff_layout(kickoff_team)[0]) < abs_x(p))
            },
{
}

/// The distance of a placement from the halfway line.
pub open spec fn abs_x(p: Placement) -> int {
    if p.x_mm < 0 {
        -p.x_mm
    } else {
        p.x_mm as int
    }
}

/// The layout for a yellow kickoff is the cyan one mirrored across the
/// halfway line.
pub proof fn lemma_kickoff_layout_mirror()
    ensures
        kickoff_layout(Team::Yellow) =~= kickoff_layout(Team::Cyan).map_values(
            |p: Placement| mirrored(p),
        ),
{
}

/// The handle of a collider in the physics world, as its index and generation.
#[derive(Clone, Copy, Debug, PartialEq, Eq, Structural)]
pub struct ColliderId {
    pub index: u32,
    pub generation: u32,
}

/// The sensor colliders of the two goals.
#[derive(Clone, Copy, Debug, PartialEq, Eq, Structural)]
pub struct Goals {
    pub cyan: ColliderId,
    pub yellow: ColliderId,
}

/// What the physics step reports to the game.
#[derive(Clone, Copy, Debug, PartialEq, Eq, Structural)]
pub enum PhysicsStateEvent {
    /// The ball entered the goal defended by the given team.
    BallHitGoal(Team),
}

/// The event, if any, of a collision starting between `h1` and `h2`: when one
/// of them is the ball's collider and the other a goal's sensor, the ball hit
/// that goal.
pub open spec fn contact_event(
    h1: ColliderId,
    h2: ColliderId,
    ball: ColliderId,
    goals: Goals,
) -> Option<PhysicsStateEvent> {
    let other = if h1 == ball {
        Some(h2)
    } else if h2 == ball {
        Some(h1)
    } else {
        None
    };
    match other {
        Some(h) => if h == goals.cyan {
            Some(PhysicsStateEvent::BallHitGoal(Team::Cyan))
        } else if h == goals.yellow {
            Some(PhysicsStateEvent::BallHitGoal(Team::Yellow))
        } else {
            None
        },
        None => None,
    }
}

/// Which collider of a contact is named first does not matter; a contact
/// between the ball and a goal's sensor is the ball entering that goal; a
/// contact that does not involve both the ball and a goal is no event.
pub proof fn lemma_contact_classification(
    h1: ColliderId,
    h2: ColliderId,
    ball: ColliderId,
    goals: Goals,
)
    ensures
        contact_event(h1, h2, ball, goals) == contact_event(h2, h1, ball, goals),
        h1 == ball && h2 == goals.cyan ==> contact_event(h1, h2, ball, goals) == Some(
            PhysicsStateEvent::BallHitGoal(Team::Cyan),
        ),
        h1 == ball && h2 == goals.yellow && goals.yellow != goals.cyan ==> contact_event(
            h1,
            h2,
            ball,
            goals,
        ) == Some(PhysicsStateEvent::BallHitGoal(Team::Yellow)),
        h1 != ball && h2 != ball ==> contact_event(h1, h2, ball, goals) is None,
        h1 == ball && h2 != goals.cyan && h2 != goals.yellow ==> contact_event(h1, h2, ball, goals)
            is None,
{
}

/// A step whose only started contact is the ball with a goal's sensor
/// counts a goal against that goal's team, whichever order the pair is in.
pub proof fn lemma_single_contact_goal(ball: ColliderId, goals: Goals, team: Team)
    requires
        goals.cyan != goals.yellow,
    ensures
        ({
            let g = match team {
                Team::Cyan => goals.cyan,
                Team::Yellow => goals.yellow,
            };
            &&& last_goal(seq![(ball, g)], ball, goals) == Some(team)
            &&& last_goal(seq![(g, ball)], ball, goals) == Some(team)
        }),
{
    let g = match team {
        Team::Cyan => goals.cyan,
        Team::Yellow => goals.yellow,
    };
    lemma_contact_classification(ball, g, ball, goals);
    lemma_contact_classification(g, ball, ball, goals);
    assert(seq![(ball, g)].drop_last() =~= Seq::<(ColliderId, ColliderId)>::empty());
    assert(seq![(g, ball)].drop_last() =~= Seq::<(ColliderId, ColliderId)>::empty());
}

/// Classifies a collision that started between `h1` and `h2`.
pub fn ball_contact(h1: ColliderId, h2: ColliderId, ball: ColliderId, goals: Goals) -> (e: Option<
    PhysicsStateEvent,
>)
    ensures
        e == contact_event(h1, h2, ball, goals),
        e == contact_event(h2, h1, ball, goals),
        (h1 == ball || h2 == ball) && (h1 == goals.cyan || h2 == goals.cyan) && ball
            != goals.cyan ==> e == Some(PhysicsStateEvent::BallHitGoal(Team::Cyan)),
        (h1 == ball || h2 == ball) && (h1 == goals.yellow || h2 == goals.yellow) && ball
            != goals.yellow && goals.yellow != goals.cyan ==> e == Some(
            PhysicsStateEvent::BallHitGoal(Team::Yellow),
        ),
        h1 != ball && h2 != ball ==> e is None,
{
    let other = if h1 == ball {
        Some(h2)
    } else if h2 == ball {
        Some(h1)
    } else {
        None
    };
    match other {
        Some(h) => {
            if h == goals.cyan {
                Some(PhysicsStateEvent::BallHitGoal(Team::Cyan))
            } else if h == goals.yellow {
                Some(PhysicsStateEvent::BallHitGoal(Team::Yellow))
            } else {
                None
            }
        },
        None => None,
    }
}

/// The team scored against in a step whose started collisions are
/// `contacts`, in order: the last goal the ball hit, if any.
pub open spec fn last_goal(contacts: Seq<(ColliderId, ColliderId)>, ball: ColliderId, goals: Goals) -> Option<Team>
    decreases contacts.len(),
{
    if contacts.len() == 0 {
        None
    } else {
        match contact_event(contacts.last().0, contacts.last().1, ball, goals) {
            Some(PhysicsStateEvent::BallHitGoal(t)) => Some(t),
            None => last_goal(contacts.drop_last(), ball, goals),
        }
    }
}

/// The team scored against during a physics step, from the collisions that
/// started in it.
pub fn scored_against(contacts: &[(ColliderId, ColliderId)], ball: ColliderId, goals: Goals) -> (t:
    Option<Team>)
    ensures
        t == last_goal(contacts@, ball, goals),
{
    let mut scored: Option<Team> = None;
    let mut i: usize = 0;
    while i < contacts.len()
        invariant
            i <= contacts@.len(),
            scored == last_goal(contacts@.take(i as int), ball, goals),
        decreases contacts@.len() - i,
    {
        let (h1, h2) = contacts[i];
        match ball_contact(h1, h2, ball, goals) {
            Some(PhysicsStateEvent::BallHitGoal(team)) => scored = Some(team),
            None => {},
        }
        proof {
            assert(contacts@.take(i + 1).drop_last() =~= contacts@.take(i as int));
            assert(contacts@.take(i + 1).last() == contacts@[i as int]);
        }
        i = i + 1;
    }
    assert(contacts@.take(contacts@.len() as int) =~= contacts@);
    scored
}

} // verus!
