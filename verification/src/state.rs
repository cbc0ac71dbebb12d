//! The simulator's game state: registration, command collection, scoring and
//! the advance from one tick to the next.
//!
//! Physics is not part of this state: the state hands out the commands to
//! apply once every robot has answered, and is told which goal, if any, the
//! ball entered during the physics step.
use vstd::prelude::*;

use crate::game::{
    can_move, can_move_spec, robot_id_spec, BodyId, GamePhase, GameScore, InsertCommandError,
    RobotSession, RobotStatus, SessionRegisterError, Team, Tick,
};
use crate::keyed::{
    has_key, keyed_map, keys_distinct, lemma_keyed_map_at, lemma_keyed_map_empty,
    lemma_keyed_map_push, lemma_keyed_map_update,
};

verus! {

/// The key of a session: its robot identifier.
pub open spec fn session_key() -> spec_fn(RobotSession) -> Seq<char> {
    |s: RobotSession| s.robot_id@
}

/// The key of a received command: the identifier of the robot that sent it.
pub open spec fn command_key<C>() -> spec_fn((String, Option<C>)) -> Seq<char> {
    |e: (String, Option<C>)| e.0@
}

/// Holds pending state for the next tick
pub struct TickState<C> {
    current_tick: Tick,
    /// Pending commands to be applied to the world for the next tick
    /// If robots are unable to move (kickoff or damaged), they must still submit a None
    /// command to keep robot loop synchronised with sim time.
    commands_received: Vec<(String, Option<C>)>,
}

impl<C> TickState<C> {
    /// The tick whose commands are being collected.
    pub closed spec fn current_tick_spec(&self) -> Tick {
        self.current_tick
    }

    /// The commands received so far, in the order robots first answered.
    pub closed spec fn entries(&self) -> Seq<(String, Option<C>)> {
        self.commands_received@
    }

    /// The command each robot has submitted for the current tick.
    pub open spec fn received(&self) -> Map<Seq<char>, Option<C>> {
        keyed_map(self.entries(), command_key::<C>()).map_values(|e: (String, Option<C>)| e.1)
    }

    /// The tick whose commands are being collected.
    pub fn current_tick(&self) -> (t: Tick)
        ensures
            t == self.current_tick_spec(),
    {
        self.current_tick
    }

    /// How many robots have submitted a command for the current tick.
    pub fn received_count(&self) -> (n: usize)
        ensures
            n == self.entries().len(),
    {
        self.commands_received.len()
    }
}

/// The commands to hand to the physics engine, in the order they were
/// received: the body of each robot that submitted a driving command, with
/// that command.
pub open spec fn step_batch<C>(
    entries: Seq<(String, Option<C>)>,
    sessions: Map<Seq<char>, RobotSession>,
) -> Seq<(BodyId, C)>
    decreases entries.len(),
{
    if entries.len() == 0 {
        Seq::empty()
    } else {
        let rest = step_batch(entries.drop_last(), sessions);
        match entries.last().1 {
            Some(c) => rest.push((sessions[entries.last().0@].rigid_body, c)),
            None => rest,
        }
    }
}

/// The commands handed to the physics step are exactly the driving commands
/// received: each entry that carries a command contributes that command with
/// its robot's body, and every command in the batch comes from such an entry.
pub proof fn lemma_step_batch_members<C>(
    entries: Seq<(String, Option<C>)>,
    sessions: Map<Seq<char>, RobotSession>,
)
    ensures
        forall|i: int|
            #![trigger entries[i]]
            0 <= i < entries.len() && entries[i].1 is Some ==> step_batch(entries, sessions).contains(
                (sessions[entries[i].0@].rigid_body, entries[i].1->0),
            ),
        forall|j: int|
            #![trigger step_batch(entries, sessions)[j]]
            0 <= j < step_batch(entries, sessions).len() ==> exists|i: int|
                0 <= i < entries.len() && #[trigger] entries[i].1 == Some(
                    step_batch(entries, sessions)[j].1,
                ) && step_batch(entries, sessions)[j].0 == sessions[entries[i].0@].rigid_body,
        step_batch(entries, sessions).len() <= entries.len(),
    decreases entries.len(),
{
    if entries.len() > 0 {
        let rest = entries.drop_last();
        lemma_step_batch_members(rest, sessions);
        let b = step_batch(entries, sessions);
        let rb = step_batch(rest, sessions);
        assert forall|i: int| 0 <= i < entries.len() && entries[i].1 is Some implies b.contains(
            (sessions[entries[i].0@].rigid_body, entries[i].1->0),
        ) by {
            if i < entries.len() - 1 {
                assert(entries[i] == rest[i]);
                let x = (sessions[entries[i].0@].rigid_body, entries[i].1->0);
                assert(rb.contains(x));
                let k = choose|k: int| 0 <= k < rb.len() && rb[k] == x;
                assert(b[k] == x);
            } else {
                assert(b.last() == (sessions[entries[i].0@].rigid_body, entries[i].1->0));
            }
        }
        assert forall|j: int| #![trigger b[j]] 0 <= j < b.len() implies exists|i: int|
            0 <= i < entries.len() && #[trigger] entries[i].1 == Some(b[j].1) && b[j].0
                == sessions[entries[i].0@].rigid_body by {
            if j < rb.len() {
                assert(b[j] == rb[j]);
                let i = choose|i: int|
                    0 <= i < rest.len() && #[trigger] rest[i].1 == Some(rb[j].1) && rb[j].0
                        == sessions[rest[i].0@].rigid_body;
                assert(entries[i] == rest[i]);
            } else {
                let i = entries.len() - 1;
                assert(entries[i] == entries.last());
            }
        }
    }
}

/// What moving to the next tick led to.
#[derive(Clone, Copy, Debug, PartialEq, Eq, Structural)]
pub enum TickOutcome {
    /// The game has run for its full length; the simulation ends.
    GameOver,
    /// The given tick has begun.
    Started(Tick),
}

/// The mutable state of a simulated game, without its physics world.
/// `C` is the type of the robots' driving commands, which this state only
/// stores and hands back.
pub struct GameStateInner<C> {
    pub tick: Tick,
    pub score: GameScore,
    /// Length of game in ticks
    pub game_length: Tick,
    pub sessions: Vec<RobotSession>,
    pub tick_state: TickState<C>,
    pub phase: GamePhase,
}

impl<C: Copy> GameStateInner<C> {
    /// The registered sessions by robot identifier.
    pub open spec fn registered(&self) -> Map<Seq<char>, RobotSession> {
        keyed_map(self.sessions@, session_key())
    }

    /// Every registered robot has submitted a command for the current tick.
    pub open spec fn all_received(&self) -> bool {
        forall|k: Seq<char>| #[trigger]
            self.registered().dom().contains(k) ==> self.tick_state.received().dom().contains(k)
    }

    /// The body registered for robot `robot_index` of `team`, if any.
    pub open spec fn body_of_spec(&self, team: Team, robot_index: nat) -> Option<BodyId> {
        let id = robot_id_spec(team, robot_index);
        if self.registered().dom().contains(id) {
            Some(self.registered()[id].rigid_body)
        } else {
            None
        }
    }

    /// The state's own consistency: sessions have distinct identifiers that
    /// match their team and index; commands come from registered robots, at
    /// most one each; the command tick is the current tick; and the tick
    /// counter has room to advance.
    pub open spec fn wf(&self) -> bool {
        &&& keys_distinct(self.sessions@, session_key())
        &&& forall|i: int|
            0 <= i < self.sessions@.len() ==> (#[trigger] self.sessions@[i]).robot_id@
                == robot_id_spec(self.sessions@[i].team, self.sessions@[i].robot_index as nat)
        &&& keys_distinct(self.tick_state.entries(), command_key::<C>())
        &&& forall|k: Seq<char>| #[trigger]
            self.tick_state.received().dom().contains(k) ==> self.registered().dom().contains(k)
        &&& self.tick_state.current_tick_spec() == self.tick
        &&& (self.tick.0 == 0 || self.tick.0 < self.game_length.0)
    }

    /// A game of `game_length` ticks, before its first tick: no sessions, no
    /// goals, and a kickoff starting at tick 1.
    pub fn new(game_length: Tick) -> (g: GameStateInner<C>)
        ensures
            g.wf(),
            g.tick == Tick(0),
            g.game_length == game_length,
            g.score.cyan_spec() == 0,
            g.score.yellow_spec() == 0,
            g.sessions@.len() == 0,
            g.registered() == Map::<Seq<char>, RobotSession>::empty(),
            g.tick_state.current_tick_spec() == Tick(0),
            g.tick_state.received() == Map::<Seq<char>, Option<C>>::empty(),
            g.phase == (GamePhase::Kickoff { first_tick: Tick(1) }),
    {
        let g = GameStateInner {
            tick: Tick(0),
            score: GameScore::default(),
            game_length,
            sessions: Vec::new(),
            tick_state: TickState { current_tick: Tick(0), commands_received: Vec::new() },
            phase: GamePhase::Kickoff { first_tick: Tick(1) },
        };
        proof {
            lemma_keyed_map_empty(session_key());
            lemma_keyed_map_empty(command_key::<C>());
            assert(g.tick_state.received() =~= Map::<Seq<char>, Option<C>>::empty());
        }
        g
    }

    /// The position of the session with identifier `id`, if any.
    fn find_session(&self, id: &String) -> (r: Option<usize>)
        requires
            self.wf(),
        ensures
            match r {
                Some(i) => i < self.sessions@.len() && self.sessions@[i as int].robot_id@ == id@,
                None => !self.registered().dom().contains(id@),
            },
    {
        let mut i: usize = 0;
        while i < self.sessions.len()
            invariant
                i <= self.sessions@.len(),
                forall|j: int| 0 <= j < i ==> (#[trigger] self.sessions@[j]).robot_id@ != id@,
            decreases self.sessions@.len() - i,
        {
            if self.sessions[i].robot_id == *id {
                return Some(i);
            }
            i = i + 1;
        }
        proof {
            if has_key(self.sessions@, session_key(), id@) {
                let j = choose|j: int|
                    0 <= j < self.sessions@.len() && session_key()(
                        #[trigger] self.sessions@[j],
                    ) == id@;
                assert(self.sessions@[j].robot_id@ == id@);
            }
        }
        None
    }

    /// The position of the command received from robot `id`, if any.
    fn find_command(&self, id: &String) -> (r: Option<usize>)
        requires
            self.wf(),
        ensures
            match r {
                Some(i) => i < self.tick_state.entries().len() && self.tick_state.entries()[i as int].0@
                    == id@,
                None => !has_key(self.tick_state.entries(), command_key::<C>(), id@),
            },
    {
        let mut i: usize = 0;
        while i < self.tick_state.commands_received.len()
            invariant
                i <= self.tick_state.entries().len(),
                self.tick_state.entries() == self.tick_state.commands_received@,
                forall|j: int| 0 <= j < i ==> (#[trigger] self.tick_state.entries()[j]).0@ != id@,
            decreases self.tick_state.entries().len() - i,
        {
            if self.tick_state.commands_received[i].0 == *id {
                return Some(i);
            }
            i = i + 1;
        }
        proof {
            if has_key(self.tick_state.entries(), command_key::<C>(), id@) {
                let j = choose|j: int|
                    0 <= j < self.tick_state.entries().len() && command_key::<C>()(
                        #[trigger] self.tick_state.entries()[j],
                    ) == id@;
                assert(self.tick_state.entries()[j].0@ == id@);
            }
        }
        None
    }

    /// The body of robot `robot_index` of `team`, if that robot is registered.
    pub fn robot_body(&self, team: Team, robot_index: usize) -> (b: Option<BodyId>)
        requires
            self.wf(),
        ensures
            b == self.body_of_spec(team, robot_index as nat),
    {
        let id = RobotSession::get_robot_id(team, robot_index);
        match self.find_session(&id) {
            Some(i) => {
                proof {
                    lemma_keyed_map_at(self.sessions@, session_key(), i as int);
                }
                Some(self.sessions[i].rigid_body)
            },
            None => None,
        }
    }
}

impl<C: Copy> GameStateInner<C> {
    /// Whether robot `robot_index` of `team` could be registered now: only
    /// before the first tick, and only once.
    pub fn check_registration(&self, team: Team, robot_index: usize) -> (r: Result<
        (),
        SessionRegisterError,
    >)
        requires
            self.wf(),
        ensures
            (r matches Err(SessionRegisterError::RegisterUnavailable)) <==> self.tick.0 != 0,
            (r matches Err(SessionRegisterError::Conflict { robot_id })) <==> (self.tick.0 == 0
                && self.registered().dom().contains(robot_id_spec(team, robot_index as nat))),
            r matches Err(SessionRegisterError::Conflict { robot_id }) ==> robot_id@
                == robot_id_spec(team, robot_index as nat),
    {
        let robot_id = RobotSession::get_robot_id(team, robot_index);
        if self.tick.0 != 0 {
            return Err(SessionRegisterError::RegisterUnavailable);
        }
        match self.find_session(&robot_id) {
            Some(i) => {
                proof {
                    lemma_keyed_map_at(self.sessions@, session_key(), i as int);
                }
                Err(SessionRegisterError::Conflict { robot_id })
            },
            None => Ok(()),
        }
    }

    /// Registers robot `robot_index` of `team`, whose body in the physics
    /// world is `rigid_body`. Only works during tick 0, and only once per robot.
    pub fn register_session(&mut self, team: Team, robot_index: usize, rigid_body: BodyId) -> (r:
        Result<RobotSession, SessionRegisterError>)
        requires
            old(self).wf(),
        ensures
            final(self).wf(),
            (r matches Err(SessionRegisterError::RegisterUnavailable)) <==> old(self).tick.0 != 0,
            (r matches Err(SessionRegisterError::Conflict { robot_id })) <==> (old(self).tick.0 == 0
                && old(self).registered().dom().contains(
                robot_id_spec(team, robot_index as nat),
            )),
            r matches Err(SessionRegisterError::Conflict { robot_id }) ==> robot_id@
                == robot_id_spec(team, robot_index as nat),
            r is Err ==> *final(self) == *old(self),
            r matches Ok(s) ==> {
                &&& s.robot_id@ == robot_id_spec(team, robot_index as nat)
                &&& s.team == team
                &&& s.robot_index == robot_index
                &&& s.status == RobotStatus::Active
                &&& s.rigid_body == rigid_body
                &&& final(self).registered() == old(self).registered().insert(s.robot_id@, s)
            },
            r is Ok ==> {
                &&& final(self).tick == old(self).tick
                &&& final(self).game_length == old(self).game_length
                &&& final(self).score == old(self).score
                &&& final(self).phase == old(self).phase
                &&& final(self).tick_state == old(self).tick_state
            },
    {
        match self.check_registration(team, robot_index) {
            Err(e) => Err(e),
            Ok(()) => {
                let robot_id = RobotSession::get_robot_id(team, robot_index);
                let stored = RobotSession::new(robot_id.clone(), team, robot_index, rigid_body);
                let session = RobotSession::new(robot_id, team, robot_index, rigid_body);
                proof {
                    lemma_keyed_map_push(self.sessions@, session_key(), stored);
                }
                self.sessions.push(stored);
                proof {
                    let ss = self.sessions@;
                    assert forall|i: int| 0 <= i < ss.len() implies (#[trigger] ss[i]).robot_id@
                        == robot_id_spec(ss[i].team, ss[i].robot_index as nat) by {
                        if i < ss.len() - 1 {
                            assert(ss[i] == old(self).sessions@[i]);
                        }
                    }
                }
                Ok(session)
            },
        }
    }

    /// Every registered robot has a command for the current tick.
    fn check_all_received(&self) -> (b: bool)
        requires
            self.wf(),
        ensures
            b == self.all_received(),
    {
        let mut i: usize = 0;
        while i < self.sessions.len()
            invariant
                self.wf(),
                i <= self.sessions@.len(),
                forall|j: int|
                    0 <= j < i ==> self.tick_state.received().dom().contains(
                        (#[trigger] self.sessions@[j]).robot_id@,
                    ),
            decreases self.sessions@.len() - i,
        {
            match self.find_command(&self.sessions[i].robot_id) {
                Some(_) => {},
                None => {
                    proof {
                        lemma_keyed_map_at(self.sessions@, session_key(), i as int);
                        let k = self.sessions@[i as int].robot_id@;
                        assert(self.registered().dom().contains(k));
                        assert(!self.tick_state.received().dom().contains(k));
                    }
                    return false;
                },
            }
            i = i + 1;
        }
        proof {
            assert forall|k: Seq<char>| #[trigger]
                self.registered().dom().contains(k) implies self.tick_state.received().dom().contains(
                k,
            ) by {
                let j = choose|j: int|
                    0 <= j < self.sessions@.len() && session_key()(#[trigger] self.sessions@[j])
                        == k;
                assert(self.sessions@[j].robot_id@ == k);
            }
        }
        true
    }

    /// The commands to apply for this tick, once every robot has answered.
    fn collect_step_batch(&self) -> (b: Vec<(BodyId, C)>)
        requires
            self.wf(),
        ensures
            b@ == step_batch(self.tick_state.entries(), self.registered()),
    {
        let mut batch: Vec<(BodyId, C)> = Vec::new();
        let mut j: usize = 0;
        let ghost entries = self.tick_state.entries();
        while j < self.tick_state.commands_received.len()
            invariant
                self.wf(),
                entries == self.tick_state.entries(),
                entries == self.tick_state.commands_received@,
                j <= entries.len(),
                batch@ == step_batch(entries.take(j as int), self.registered()),
            decreases entries.len() - j,
        {
            proof {
                assert(entries.take(j + 1).drop_last() =~= entries.take(j as int));
                assert(entries.take(j + 1).last() == entries[j as int]);
                lemma_keyed_map_at(entries, command_key::<C>(), j as int);
                assert(self.tick_state.received().dom().contains(entries[j as int].0@));
                assert(self.registered().dom().contains(entries[j as int].0@));
            }
            match &self.tick_state.commands_received[j].1 {
                Some(c) => {
                    let cmd: C = *c;
                    let id = &self.tick_state.commands_received[j].0;
                    match self.find_session(id) {
                        Some(i) => {
                            proof {
                                lemma_keyed_map_at(self.sessions@, session_key(), i as int);
                            }
                            batch.push((self.sessions[i].rigid_body, cmd));
                        },
                        None => {
                            assert(false);
                        },
                    }
                },
                None => {},
            }
            j = j + 1;
        }
        assert(entries.take(entries.len() as int) =~= entries);
        batch
    }

    /// Records `robot_id`'s command for `tick`. Robots that may not drive must
    /// still submit `None` to keep in step with simulated time. Once every
    /// registered robot has answered, the result holds the commands to apply
    /// to the physics world before the step.
    pub fn insert_command(&mut self, robot_id: String, tick: Tick, command: Option<C>) -> (r:
        Result<Option<Vec<(BodyId, C)>>, InsertCommandError>)
        requires
            old(self).wf(),
        ensures
            final(self).wf(),
            (r matches Err(InsertCommandError::TickNotCurrent(t))) <==> old(
                self,
            ).tick_state.current_tick_spec() != tick,
            r matches Err(InsertCommandError::TickNotCurrent(t)) ==> t == tick,
            (r matches Err(InsertCommandError::RobotNotFound(id))) <==> (old(
                self,
            ).tick_state.current_tick_spec() == tick && !old(self).registered().dom().contains(
                robot_id@,
            )),
            r matches Err(InsertCommandError::RobotNotFound(id)) ==> id == robot_id,
            (r matches Err(InsertCommandError::CannotMove)) <==> (old(
                self,
            ).tick_state.current_tick_spec() == tick && old(self).registered().dom().contains(
                robot_id@,
            ) && command is Some && !can_move_spec(
                old(self).phase,
                old(self).registered()[robot_id@].status,
            )),
            r is Err ==> *final(self) == *old(self),
            r is Ok ==> {
                &&& final(self).tick_state.received() == old(self).tick_state.received().insert(
                    robot_id@,
                    command,
                )
                &&& final(self).tick_state.current_tick_spec() == old(
                    self,
                ).tick_state.current_tick_spec()
                &&& final(self).tick == old(self).tick
                &&& final(self).game_length == old(self).game_length
                &&& final(self).score == old(self).score
                &&& final(self).phase == old(self).phase
                &&& final(self).sessions == old(self).sessions
            },
            (r matches Ok(Some(_))) <==> (r is Ok && final(self).all_received()),
            r matches Ok(Some(b)) ==> b@ == step_batch(
                final(self).tick_state.entries(),
                final(self).registered(),
            ),
    {
        if self.tick_state.current_tick.0 != tick.0 {
            return Err(InsertCommandError::TickNotCurrent(tick));
        }
        let i = match self.find_session(&robot_id) {
            Some(i) => i,
            None => {
                return Err(InsertCommandError::RobotNotFound(robot_id));
            },
        };
        proof {
            lemma_keyed_map_at(self.sessions@, session_key(), i as int);
        }
        if command.is_some() && !can_move(self.phase, self.sessions[i].status) {
            return Err(InsertCommandError::CannotMove);
        }
        let ghost old_entries = self.tick_state.entries();
        let ghost entry = (robot_id, command);
        match self.find_command(&robot_id) {
            Some(j) => {
                proof {
                    lemma_keyed_map_update(old_entries, command_key::<C>(), j as int, entry);
                }
                self.tick_state.commands_received.set(j, (robot_id, command));
                proof {
                    assert(self.tick_state.entries() == old_entries.update(j as int, entry));
                }
            },
            None => {
                proof {
                    lemma_keyed_map_push(old_entries, command_key::<C>(), entry);
                }
                self.tick_state.commands_received.push((robot_id, command));
                proof {
                    assert(self.tick_state.entries() == old_entries.push(entry));
                }
            },
        }
        proof {
            let m_old = keyed_map(old_entries, command_key::<C>());
            let m_new = keyed_map(self.tick_state.entries(), command_key::<C>());
            assert(m_new == m_old.insert(entry.0@, entry));
            assert(self.tick_state.received() =~= old(self).tick_state.received().insert(
                robot_id@,
                command,
            ));
        }
        if self.check_all_received() {
            Ok(Some(self.collect_step_batch()))
        } else {
            Ok(None)
        }
    }
}

impl<C: Copy> GameStateInner<C> {
    /// Applies the outcome of a physics step: a ball that entered the goal
    /// defended by `scored_against` counts for the other team, and a kickoff
    /// begins at the next tick. Returns the team that kicks off next: the one
    /// scored against, if any.
    pub fn complete_step(&mut self, scored_against: Option<Team>) -> (kickoff: Option<Team>)
        requires
            old(self).wf(),
            scored_against matches Some(t) ==> old(self).score.goals_spec(t.opponent_spec())
                < u32::MAX,
        ensures
            kickoff == scored_against,
            final(self).wf(),
            final(self).tick == old(self).tick,
            final(self).game_length == old(self).game_length,
            final(self).sessions == old(self).sessions,
            final(self).tick_state == old(self).tick_state,
            match scored_against {
                Some(t) => {
                    &&& final(self).score.goals_spec(t.opponent_spec()) == old(
                        self,
                    ).score.goals_spec(t.opponent_spec()) + 1
                    &&& final(self).score.goals_spec(t) == old(self).score.goals_spec(t)
                    &&& final(self).phase == (GamePhase::Kickoff {
                        first_tick: Tick((old(self).tick.0 + 1) as u32),
                    })
                },
                None => {
                    &&& final(self).score == old(self).score
                    &&& final(self).phase == old(self).phase
                },
            },
    {
        match scored_against {
            Some(team) => {
                self.score.record_goal_against(team);
                self.phase = GamePhase::Kickoff { first_tick: Tick(self.tick.0 + 1) };
            },
            None => {},
        }
        scored_against
    }

    /// Whether moving to the next tick must stop for an arithmetic overflow
    /// in the kickoff countdown: the game goes on past the next tick while a
    /// kickoff starts within four ticks of the largest tick.
    pub open spec fn advance_overflows(&self) -> bool {
        self.tick.0 + 1 < self.game_length.0 && self.phase.advance_overflows()
    }

    /// Whether [`Self::advance_tick`] can run without overflow.
    pub fn can_advance(&self) -> (b: bool)
        requires
            self.wf(),
        ensures
            b == !self.advance_overflows(),
    {
        let continues = self.tick.0 + 1 < self.game_length.0;
        let overflows = match self.phase {
            GamePhase::Kickoff { first_tick } => first_tick.0 > u32::MAX - 4,
            GamePhase::Playing => false,
        };
        !(continues && overflows)
    }

    /// Moves to the next tick. When the game has run its full length the
    /// simulation ends; otherwise the commands for the new tick start empty
    /// and the phase moves on.
    pub fn advance_tick(&mut self) -> (r: TickOutcome)
        requires
            old(self).wf(),
            !old(self).advance_overflows(),
        ensures
            final(self).tick.0 == old(self).tick.0 + 1,
            final(self).game_length == old(self).game_length,
            final(self).sessions == old(self).sessions,
            final(self).score == old(self).score,
            (r == TickOutcome::GameOver) <==> final(self).tick.0 >= final(self).game_length.0,
            r == TickOutcome::GameOver ==> {
                &&& final(self).phase == old(self).phase
                &&& final(self).tick_state == old(self).tick_state
            },
            r matches TickOutcome::Started(t) ==> {
                &&& t == final(self).tick
                &&& final(self).wf()
                &&& final(self).tick_state.current_tick_spec() == final(self).tick
                &&& final(self).tick_state.received() == Map::<Seq<char>, Option<C>>::empty()
                &&& final(self).phase == old(self).phase.advance_spec(final(self).tick)
            },
    {
        self.tick = Tick(self.tick.0 + 1);
        if self.tick.0 >= self.game_length.0 {
            return TickOutcome::GameOver;
        }
        self.tick_state = TickState { current_tick: self.tick, commands_received: Vec::new() };
        proof {
            lemma_keyed_map_empty(command_key::<C>());
            assert(self.tick_state.received() =~= Map::<Seq<char>, Option<C>>::empty());
        }
        let tick = self.tick;
        self.phase.advance(tick);
        TickOutcome::Started(tick)
    }
}

impl<C: Copy> GameStateInner<C> {
    /// Ending a step would overflow: a goal counted for a team at the largest
    /// score, or a kickoff countdown past the largest tick while the game goes on.
    pub open spec fn finish_overflows(&self, scored_against: Option<Team>) -> bool {
        match scored_against {
            Some(t) => self.score.goals_spec(t.opponent_spec()) >= u32::MAX || (self.tick.0 + 1
                < self.game_length.0 && self.tick.0 + 1 + 4 > u32::MAX),
            None => self.advance_overflows(),
        }
    }

    /// Whether [`Self::finish_step`] can run without overflow.
    pub fn can_finish_step(&self, scored_against: Option<Team>) -> (b: bool)
        requires
            self.wf(),
        ensures
            b == !self.finish_overflows(scored_against),
    {
        match scored_against {
            Some(t) => {
                if !self.score.can_record(t.opponent()) {
                    return false;
                }
                let continues = self.tick.0 + 1 < self.game_length.0;
                !(continues && self.tick.0 + 1 > u32::MAX - 4)
            },
            None => self.can_advance(),
        }
    }

    /// Ends the current tick once the physics step has run: applies the
    /// step's outcome (a goal into the goal `scored_against` defends counts for
    /// the other team and starts a kickoff) and moves to the next tick.
    /// Returns the team that kicks off, if a goal was scored, and what the
    /// move to the next tick led to. After a goal the new tick is the first
    /// frozen tick of the kickoff, so no robot may drive during it.
    pub fn finish_step(&mut self, scored_against: Option<Team>) -> (r: (Option<Team>, TickOutcome))
        requires
            old(self).wf(),
            !old(self).finish_overflows(scored_against),
        ensures
            r.0 == scored_against,
            final(self).tick.0 == old(self).tick.0 + 1,
            final(self).game_length == old(self).game_length,
            final(self).sessions == old(self).sessions,
            match scored_against {
                Some(t) => {
                    &&& final(self).score.goals_spec(t.opponent_spec()) == old(
                        self,
                    ).score.goals_spec(t.opponent_spec()) + 1
                    &&& final(self).score.goals_spec(t) == old(self).score.goals_spec(t)
                },
                None => final(self).score == old(self).score,
            },
            (r.1 == TickOutcome::GameOver) <==> final(self).tick.0 >= final(self).game_length.0,
            r.1 == TickOutcome::GameOver ==> final(self).tick_state == old(self).tick_state,
            r.1 matches TickOutcome::Started(t) ==> {
                &&& t == final(self).tick
                &&& final(self).wf()
                &&& final(self).tick_state.current_tick_spec() == final(self).tick
                &&& final(self).tick_state.received() == Map::<Seq<char>, Option<C>>::empty()
                &&& final(self).phase == match scored_against {
                    Some(_) => GamePhase::Kickoff { first_tick: final(self).tick },
                    None => old(self).phase.advance_spec(final(self).tick),
                }
            },
            (r.1 is Started && scored_against is Some) ==> forall|status: RobotStatus|
                !can_move_spec(final(self).phase, status),
    {
        let kickoff = self.complete_step(scored_against);
        let outcome = self.advance_tick();
        (kickoff, outcome)
    }
}

/// A robot's body, once registered, is the one found for it: registering
/// robot `robot_index` of `team` with body `body` makes [`GameStateInner::robot_body`]
/// answer with that body.
pub proof fn lemma_registered_body_is_found<C: Copy>(
    before: GameStateInner<C>,
    after: GameStateInner<C>,
    team: Team,
    robot_index: usize,
    session: RobotSession,
)
    requires
        session.robot_id@ == robot_id_spec(team, robot_index as nat),
        after.registered() == before.registered().insert(session.robot_id@, session),
    ensures
        after.body_of_spec(team, robot_index as nat) == Some(session.rigid_body),
{
}

} // verus!
