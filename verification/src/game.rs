//! The simulated game: teams, ticks, phases, scores and robot sessions.
use vstd::prelude::*;

use crate::text::{decimal, lemma_decimal_injective, push_decimal};

verus! {

/// Which goal a robot is defending.
#[derive(Clone, Copy, Debug, PartialEq, Eq, Structural)]
pub enum Team {
    Cyan,
    Yellow,
}

impl Team {
    /// The lower-case name of the team, as displayed and serialised.
    pub open spec fn name_spec(self) -> Seq<char> {
        match self {
            Team::Cyan => seq!['c', 'y', 'a', 'n'],
            Team::Yellow => seq!['y', 'e', 'l', 'l', 'o', 'w'],
        }
    }

    /// The other team.
    pub open spec fn opponent_spec(self) -> Team {
        match self {
            Team::Cyan => Team::Yellow,
            Team::Yellow => Team::Cyan,
        }
    }

    /// The lower-case name of the team.
    pub fn name(&self) -> (s: &'static str)
        ensures
            s@ == self.name_spec(),
    {
        proof {
            reveal_strlit("cyan");
            reveal_strlit("yellow");
        }
        match self {
            Team::Cyan => "cyan",
            Team::Yellow => "yellow",
        }
    }

    /// The text the team displays as.
    pub fn display_string(&self) -> (s: String)
        ensures
            s@ == self.name_spec(),
    {
        let mut s = String::new();
        s.append(self.name());
        s
    }

    /// The other team: the one defending the other goal.
    pub fn opponent(self) -> (t: Team)
        ensures
            t == self.opponent_spec(),
            t != self,
    {
        match self {
            Team::Cyan => Team::Yellow,
            Team::Yellow => Team::Cyan,
        }
    }
}

/// A tick in simulated time. Every tick, robots submit their commands,
/// the physics engine runs, and then the world state is queryable by
/// the robots.
#[derive(Clone, Copy, Debug, PartialEq, Eq, PartialOrd, Ord, Hash, Structural)]
pub struct Tick(pub u32);

impl Tick {
    /// The text a tick displays as: `tick(N)`.
    pub open spec fn display_spec(self) -> Seq<char> {
        seq!['t', 'i', 'c', 'k', '('] + decimal(self.0 as nat) + seq![')']
    }

    /// The text the tick displays as.
    pub fn display_string(&self) -> (s: String)
        ensures
            s@ == self.display_spec(),
    {
        let mut s = String::new();
        s.append("tick(");
        push_decimal(&mut s, self.0 as u64);
        s.append(")");
        proof {
            reveal_strlit("tick(");
            reveal_strlit(")");
        }
        assert(s@ =~= self.display_spec());
        s
    }

    /// Converts a duration of simulated time, in nanoseconds, into the number
    /// of whole ticks it spans, given the length of a tick in nanoseconds.
    /// The count is truncated to 32 bits, as the conversion to `u32` does.
    pub fn from_sim_time(timestep_nanos: u128, duration_nanos: u128) -> (t: Tick)
        requires
            timestep_nanos > 0,
        ensures
            t.0 == (duration_nanos / timestep_nanos) as u32,
    {
        Tick((duration_nanos / timestep_nanos) as u32)
    }

    /// The simulated time, in nanoseconds, at the start of this tick.
    pub fn to_sim_time(&self, timestep_nanos: u64) -> (n: u128)
        ensures
            n == timestep_nanos * self.0,
    {
        assert(timestep_nanos * self.0 <= u64::MAX * u32::MAX) by (nonlinear_arith);
        (timestep_nanos as u128) * (self.0 as u128)
    }
}

/// Whether the game is frozen for a kickoff or being played.
#[derive(Clone, Copy, Debug, PartialEq, Eq, Structural)]
pub enum GamePhase {
    /// Kickoffs freeze robots in their kickoff positions and last 5 ticks
    Kickoff {
        /// The first frozen tick
        first_tick: Tick,
    },
    Playing,
}

impl GamePhase {
    /// The phase after moving to `current_tick`: a kickoff that started at
    /// `first_tick` turns into play at tick `first_tick + 4`, its last frozen
    /// tick, so that robots can submit commands for the tick after it.
    pub open spec fn advance_spec(self, current_tick: Tick) -> GamePhase {
        match self {
            GamePhase::Kickoff { first_tick } => if current_tick.0 >= first_tick.0 + 4 {
                GamePhase::Playing
            } else {
                self
            },
            GamePhase::Playing => GamePhase::Playing,
        }
    }

    /// Advancing would overflow the tick counter (a kickoff starting within
    /// four ticks of the largest tick).
    pub open spec fn advance_overflows(self) -> bool {
        match self {
            GamePhase::Kickoff { first_tick } => first_tick.0 + 4 > u32::MAX,
            GamePhase::Playing => false,
        }
    }

    /// Moves the phase on to `current_tick`.
    pub fn advance(&mut self, current_tick: Tick)
        requires
            !old(self).advance_overflows(),
        ensures
            *final(self) == old(self).advance_spec(current_tick),
    {
        *self = match self {
            GamePhase::Kickoff { first_tick } => {
                if current_tick.0 >= first_tick.0 + 4 {
                    GamePhase::Playing
                } else {
                    *self
                }
            },
            GamePhase::Playing => GamePhase::Playing,
        };
    }
}

/// The phase after moving, one tick at a time, to each of the `count` ticks
/// `start, start + 1, ...`.
pub open spec fn advance_through(phase: GamePhase, start: nat, count: nat) -> GamePhase
    decreases count,
{
    if count == 0 {
        phase
    } else {
        advance_through(phase, start, (count - 1) as nat).advance_spec(
            Tick((start + count - 1) as u32),
        )
    }
}

/// Play, once begun, goes on until a goal starts a new kickoff.
pub proof fn lemma_playing_is_kept(start: nat, count: nat)
    ensures
        advance_through(GamePhase::Playing, start, count) == GamePhase::Playing,
    decreases count,
{
    if count > 0 {
        lemma_playing_is_kept(start, (count - 1) as nat);
    }
}

/// A kickoff whose first frozen tick is `t` keeps the robots frozen for five
/// ticks, `t` to `t + 4`: moving through the ticks from `t` on, the phase is
/// still the kickoff after ticks `t` to `t + 3`, and is play from tick `t + 4`
/// on, so that commands sent during tick `t + 4` move the robots at tick `t + 5`.
pub proof fn lemma_kickoff_lasts_five_ticks(t: nat, k: nat)
    requires
        t + k <= u32::MAX,
        t + 4 <= u32::MAX,
    ensures
        advance_through(GamePhase::Kickoff { first_tick: Tick(t as u32) }, t, k + 1) == if k < 4 {
            GamePhase::Kickoff { first_tick: Tick(t as u32) }
        } else {
            GamePhase::Playing
        },
    decreases k,
{
    let kick = GamePhase::Kickoff { first_tick: Tick(t as u32) };
    if k > 0 {
        lemma_kickoff_lasts_five_ticks(t, (k - 1) as nat);
    }
    assert(advance_through(kick, t, k + 1) == advance_through(kick, t, k).advance_spec(
        Tick((t + k) as u32),
    ));
}

/// Goals scored by each team.
#[derive(Debug)]
pub struct GameScore {
    cyan: u32,
    yellow: u32,
}

impl GameScore {
    pub closed spec fn cyan_spec(&self) -> u32 {
        self.cyan
    }

    pub closed spec fn yellow_spec(&self) -> u32 {
        self.yellow
    }

    /// The goals scored by `team`.
    pub open spec fn goals_spec(&self, team: Team) -> u32 {
        match team {
            Team::Cyan => self.cyan_spec(),
            Team::Yellow => self.yellow_spec(),
        }
    }

    /// Goals scored by the cyan team.
    pub fn cyan(&self) -> (n: u32)
        ensures
            n == self.cyan_spec(),
    {
        self.cyan
    }

    /// Goals scored by the yellow team.
    pub fn yellow(&self) -> (n: u32)
        ensures
            n == self.yellow_spec(),
    {
        self.yellow
    }

    /// Whether one more goal can be counted for `team` without overflow.
    pub fn can_record(&self, team: Team) -> (b: bool)
        ensures
            b == (self.goals_spec(team) < u32::MAX),
    {
        match team {
            Team::Cyan => self.cyan < u32::MAX,
            Team::Yellow => self.yellow < u32::MAX,
        }
    }

    /// Counts a goal scored into the goal that `scored_against` defends: the
    /// point goes to the other team.
    pub fn record_goal_against(&mut self, scored_against: Team)
        requires
            old(self).goals_spec(scored_against.opponent_spec()) < u32::MAX,
        ensures
            final(self).goals_spec(scored_against.opponent_spec()) == old(self).goals_spec(
                scored_against.opponent_spec(),
            ) + 1,
            final(self).goals_spec(scored_against) == old(self).goals_spec(scored_against),
    {
        match scored_against {
            Team::Cyan => self.yellow = self.yellow + 1,
            Team::Yellow => self.cyan = self.cyan + 1,
        }
    }
}

impl Default for GameScore {
    fn default() -> (s: GameScore)
        ensures
            s.cyan_spec() == 0,
            s.yellow_spec() == 0,
    {
        GameScore { cyan: 0, yellow: 0 }
    }
}

/// Why a robot was marked as damaged.
#[derive(Clone, Copy, Debug, PartialEq, Eq, Structural)]
pub enum DamageReason {
    NotResponding,
    /// Rule 5.7.1.2: Remaining in goal area for more than 20s
    StayingNearGoal,
    /// Rule 5.7.1.6: Whole of robot entered out area (and not pushed by other robot)
    /// Pushing is determined using dot product of target velocity and actual velocity
    EnteredOutArea,
}

/// Whether a robot may take part in play.
#[derive(Clone, Copy, Debug, PartialEq, Eq, Structural)]
pub enum RobotStatus {
    Active,
    /// Marked as damaged; pending removal from field
    Damaged(DamageReason),
    /// Removed from field for next 30s (5.7.2)
    Removed { removed_at: Tick, damage_reason: DamageReason },
}

/// A robot may drive only while the game is being played and it is active.
pub open spec fn can_move_spec(phase: GamePhase, status: RobotStatus) -> bool {
    phase == GamePhase::Playing && status == RobotStatus::Active
}

/// Whether a robot with `status` may submit a driving command in `phase`.
pub fn can_move(phase: GamePhase, status: RobotStatus) -> (b: bool)
    ensures
        b == can_move_spec(phase, status),
{
    match (phase, status) {
        (GamePhase::Playing, RobotStatus::Active) => true,
        _ => false,
    }
}

/// The handle of a rigid body in the physics world, as its index and generation.
#[derive(Clone, Copy, Debug, PartialEq, Eq, Structural)]
pub struct BodyId {
    pub index: u32,
    pub generation: u32,
}

/// The identifier of a robot: `r_<team>_<index>`.
pub open spec fn robot_id_spec(team: Team, robot_index: nat) -> Seq<char> {
    seq!['r', '_'] + team.name_spec() + seq!['_'] + decimal(robot_index)
}

/// Different robots have different identifiers.
pub proof fn lemma_robot_id_injective(t1: Team, i1: nat, t2: Team, i2: nat)
    requires
        robot_id_spec(t1, i1) == robot_id_spec(t2, i2),
    ensures
        t1 == t2,
        i1 == i2,
{
    let a = robot_id_spec(t1, i1);
    let b = robot_id_spec(t2, i2);
    assert(a[2] == t1.name_spec()[0]);
    assert(b[2] == t2.name_spec()[0]);
    assert(t1 == t2);
    let p = (3 + t1.name_spec().len()) as int;
    assert(a.subrange(p, a.len() as int) =~= decimal(i1));
    assert(b.subrange(p, b.len() as int) =~= decimal(i2));
    lemma_decimal_injective(i1, i2);
}

/// A robot process registered with the simulator.
#[derive(Clone, Debug)]
pub struct RobotSession {
    pub robot_id: String,
    pub team: Team,
    /// Index of robot within the team
    pub robot_index: usize,
    pub status: RobotStatus,
    pub rigid_body: BodyId,
}

impl RobotSession {
    /// The identifier of robot `robot_index` of `team`.
    pub fn get_robot_id(team: Team, robot_index: usize) -> (id: String)
        ensures
            id@ == robot_id_spec(team, robot_index as nat),
    {
        let mut id = String::new();
        id.append("r_");
        id.append(team.name());
        id.append("_");
        push_decimal(&mut id, robot_index as u64);
        proof {
            reveal_strlit("r_");
            reveal_strlit("_");
        }
        assert(id@ =~= robot_id_spec(team, robot_index as nat));
        id
    }

    /// A freshly registered, active session.
    pub fn new(robot_id: String, team: Team, robot_index: usize, rigid_body: BodyId) -> (s:
        RobotSession)
        ensures
            s.robot_id == robot_id,
            s.team == team,
            s.robot_index == robot_index,
            s.status == RobotStatus::Active,
            s.rigid_body == rigid_body,
    {
        RobotSession { robot_id, team, robot_index, status: RobotStatus::Active, rigid_body }
    }

    /// The index of this robot's teammate in a team of two.
    pub open spec fn teammate_index_spec(&self) -> nat {
        if self.robot_index == 0 {
            1
        } else {
            0
        }
    }

    /// The identifier of this robot's teammate: index 1 for robot 0, index 0
    /// for any other robot.
    pub fn teammate_id(&self) -> (id: String)
        ensures
            id@ == robot_id_spec(self.team, self.teammate_index_spec()),
    {
        RobotSession::get_robot_id(
            self.team,
            if self.robot_index == 0 {
                1
            } else {
                0
            },
        )
    }
}

/// Why a session could not be registered.
#[derive(Clone, Debug)]
pub enum SessionRegisterError {
    Conflict { robot_id: String },
    RegisterUnavailable,
}

impl SessionRegisterError {
    /// The HTTP status the simulator answers this error with.
    pub fn status_code(&self) -> (code: u16)
        ensures
            code == match self {
                SessionRegisterError::Conflict { .. } => 409u16,
                SessionRegisterError::RegisterUnavailable => 503u16,
            },
    {
        match self {
            SessionRegisterError::Conflict { .. } => 409,
            SessionRegisterError::RegisterUnavailable => 503,
        }
    }
}

/// Why a snapshot for a tick cannot be handed out.
#[derive(Clone, Copy, Debug, PartialEq, Eq, Structural)]
pub enum SubscribeGameSnapshotError {
    TickExpired(Tick),
    SimulationClosed,
}

impl SubscribeGameSnapshotError {
    /// The HTTP status the simulator answers this error with.
    pub fn status_code(&self) -> (code: u16)
        ensures
            code == match self {
                SubscribeGameSnapshotError::TickExpired(_) => 400u16,
                SubscribeGameSnapshotError::SimulationClosed => 503u16,
            },
    {
        match self {
            SubscribeGameSnapshotError::TickExpired(_) => 400,
            SubscribeGameSnapshotError::SimulationClosed => 503,
        }
    }
}

/// Why a command was refused.
#[derive(Clone, Debug)]
pub enum InsertCommandError {
    TickNotCurrent(Tick),
    RobotNotFound(String),
    CannotMove,
}

impl InsertCommandError {
    /// The HTTP status the simulator answers this error with.
    pub fn status_code(&self) -> (code: u16)
        ensures
            code == match self {
                InsertCommandError::RobotNotFound(_) => 404u16,
                InsertCommandError::CannotMove => 400u16,
                InsertCommandError::TickNotCurrent(_) => 400u16,
            },
    {
        match self {
            InsertCommandError::RobotNotFound(_) => 404,
            InsertCommandError::CannotMove | InsertCommandError::TickNotCurrent(_) => 400,
        }
    }
}

/// What a subscriber waiting for the snapshot of a tick does with the latest one.
#[derive(Clone, Copy, Debug, PartialEq, Eq, Structural)]
pub enum SnapshotReadiness {
    /// The latest snapshot is the one asked for.
    Ready,
    /// The latest snapshot is older: wait for the next one.
    Wait,
    /// The tick asked for has passed; the latest snapshot is at the given tick.
    Expired(Tick),
}

/// Decides, from the tick of the latest published snapshot (if any), whether
/// a subscriber asking for `wanted` gets it, waits, or is told it expired.
pub fn snapshot_readiness(latest: Option<Tick>, wanted: Tick) -> (r: SnapshotReadiness)
    ensures
        r == match latest {
            None => SnapshotReadiness::Wait,
            Some(t) => if t.0 < wanted.0 {
                SnapshotReadiness::Wait
            } else if t.0 == wanted.0 {
                SnapshotReadiness::Ready
            } else {
                SnapshotReadiness::Expired(t)
            },
        },
{
    match latest {
        None => SnapshotReadiness::Wait,
        Some(t) => {
            if t.0 < wanted.0 {
                SnapshotReadiness::Wait
            } else if t.0 == wanted.0 {
                SnapshotReadiness::Ready
            } else {
                SnapshotReadiness::Expired(t)
            }
        },
    }
}

} // verus!
