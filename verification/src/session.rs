//! The connection lifecycle: registration, subscription, in-game pushes.
//!
//! A team session owns its configuration (server address, team name,
//! members) and walks the phases Disconnected, Connecting,
//! AwaitingRegisterResult, AwaitingSubscribeResult, InGame, Terminated.
//! Every transition is a pure step from state and input to next state and
//! emitted events; the transport around it only carries frames and hands
//! the decoded inputs back.

use vstd::prelude::*;
use crate::messages::{
    RegisterTeamResult, SubscribePlayerResult, ActionError, Challenge, RelativeDirection,
    SpecRegisterTeamResult, SpecSubscribePlayerResult, register_team_json, subscribe_player_json,
    serialize_register_team, serialize_subscribe_player,
};
use crate::maze_solver::{
    decide_action, relative_of, spec_decide, spec_relative_of, view_passable, Direction, LocalView,
    NavMode, NavigationState,
};
use crate::parse::{ServerMessage, SpecServerMessage};

verus! {

/// The phase of a team session's lifecycle.
#[derive(Debug, Copy, Clone, PartialEq, Eq, Structural)]
pub enum SessionPhase {
    /// No transport yet.
    Disconnected,
    /// The transport is being established.
    Connecting,
    /// The registration request is out; its result is awaited.
    AwaitingRegisterResult,
    /// The team is registered; member subscriptions are awaited.
    AwaitingSubscribeResult,
    /// Every expected member is subscribed; the radar/action loop runs.
    InGame,
    /// The session is over; its registration is destroyed.
    Terminated,
}

/// What a successful registration grants: the token, the expected player
/// count, and the members subscribed so far.
pub struct RegistrationSession {
    /// The token every member presents when subscribing.
    pub registration_token: String,
    /// How many players the server expects.
    pub expected_player_count: u8,
    /// The members whose subscription the server has accepted, in order.
    pub subscribed_member_names: Vec<String>,
}

/// The mathematical value of a registration session.
pub ghost struct SpecRegistrationSession {
    pub registration_token: Seq<char>,
    pub expected_player_count: u8,
    pub subscribed_member_names: Seq<Seq<char>>,
}

impl View for RegistrationSession {
    type V = SpecRegistrationSession;

    open spec fn view(&self) -> SpecRegistrationSession {
        SpecRegistrationSession {
            registration_token: self.registration_token@,
            expected_player_count: self.expected_player_count,
            subscribed_member_names: self.subscribed_member_names@.map_values(|m: String| m@),
        }
    }
}

/// An event the session hands upward to its consumer.
pub enum SessionEvent {
    /// A member is subscribed; the event carries the session's token.
    RegistrationComplete {
        /// The subscribed member.
        member_name: String,
        /// The token granted at team registration.
        registration_token: String,
    },
    /// Registration failed; the session stops, with no automatic retry.
    RegistrationFailed(String),
    /// One member's subscription failed; its siblings are unaffected.
    SubscriptionFailed {
        /// The refused member.
        member_name: String,
        /// The server's reason.
        reason: String,
    },
    /// A radar snapshot token arrived.
    RadarViewReceived(String),
    /// A hint arrived; its raw payload text is passed along unread.
    HintReceived(String),
    /// A challenge arrived; navigation suspends until it is answered.
    ChallengeReceived(Challenge),
    /// The server rejected the last move.
    ActionErrorReceived(ActionError),
}

/// The mathematical value of a session event.
pub ghost enum SpecSessionEvent {
    RegistrationComplete { member_name: Seq<char>, registration_token: Seq<char> },
    RegistrationFailed(Seq<char>),
    SubscriptionFailed { member_name: Seq<char>, reason: Seq<char> },
    RadarViewReceived(Seq<char>),
    HintReceived(Seq<char>),
    ChallengeReceived(Challenge),
    ActionErrorReceived(ActionError),
}

impl View for SessionEvent {
    type V = SpecSessionEvent;

    open spec fn view(&self) -> SpecSessionEvent {
        match self {
            SessionEvent::RegistrationComplete { member_name, registration_token } =>
                SpecSessionEvent::RegistrationComplete {
                member_name: member_name@,
                registration_token: registration_token@,
            },
            SessionEvent::RegistrationFailed(reason) => SpecSessionEvent::RegistrationFailed(
                reason@,
            ),
            SessionEvent::SubscriptionFailed { member_name, reason } =>
                SpecSessionEvent::SubscriptionFailed { member_name: member_name@, reason: reason@ },
            SessionEvent::RadarViewReceived(tok) => SpecSessionEvent::RadarViewReceived(tok@),
            SessionEvent::HintReceived(raw) => SpecSessionEvent::HintReceived(raw@),
            SessionEvent::ChallengeReceived(c) => SpecSessionEvent::ChallengeReceived(*c),
            SessionEvent::ActionErrorReceived(e) => SpecSessionEvent::ActionErrorReceived(*e),
        }
    }
}

/// A team session: its configuration and its lifecycle state. The server
/// address is an explicit configuration value handed to the constructor,
/// not a literal repeated at call sites.
pub struct TeamSession {
    /// Where the transport connects.
    pub server_address: String,
    /// The team's name.
    pub team_name: String,
    /// The members to subscribe.
    pub members: Vec<String>,
    /// The lifecycle phase.
    pub phase: SessionPhase,
    /// The granted registration, between registration and termination.
    pub session: Option<RegistrationSession>,
}

/// The mathematical value of a team session.
pub ghost struct SpecTeamSession {
    pub server_address: Seq<char>,
    pub team_name: Seq<char>,
    pub members: Seq<Seq<char>>,
    pub phase: SessionPhase,
    pub session: Option<SpecRegistrationSession>,
}

impl View for TeamSession {
    type V = SpecTeamSession;

    open spec fn view(&self) -> SpecTeamSession {
        SpecTeamSession {
            server_address: self.server_address@,
            team_name: self.team_name@,
            members: self.members@.map_values(|m: String| m@),
            phase: self.phase,
            session: match self.session {
                Option::Some(ref s) => Option::Some(s@),
                Option::None => Option::None,
            },
        }
    }
}

/// One input to the session state machine.
pub ghost enum SpecSessionInput {
    /// The client asks for a connection.
    StartConnect,
    /// The transport is established.
    Connected,
    /// The registration outcome arrived.
    RegisterResult(SpecRegisterTeamResult),
    /// One member's subscription outcome arrived.
    SubscribeResult { member_name: Seq<char>, result: SpecSubscribePlayerResult },
    /// A server push arrived in the game.
    Push(SpecServerMessage),
    /// The transport ended at a frame boundary.
    Closed,
}

/// The event, if any, that a server push hands upward.
pub open spec fn push_event(m: SpecServerMessage) -> Option<SpecSessionEvent> {
    match m {
        SpecServerMessage::RadarView(tok) => Option::Some(
            SpecSessionEvent::RadarViewReceived(tok),
        ),
        SpecServerMessage::Hint(raw) => Option::Some(SpecSessionEvent::HintReceived(raw)),
        SpecServerMessage::Challenge(c) => Option::Some(SpecSessionEvent::ChallengeReceived(c)),
        SpecServerMessage::ActionError(e) => Option::Some(
            SpecSessionEvent::ActionErrorReceived(e),
        ),
        SpecServerMessage::RegisterTeamResult(_) => Option::None,
        SpecServerMessage::SubscribePlayerResult(_) => Option::None,
    }
}

/// One transition of the session state machine: the next state and the
/// events handed upward. An input that does not belong to the current
/// phase changes nothing.
pub open spec fn session_step(s: SpecTeamSession, i: SpecSessionInput) -> (
    SpecTeamSession,
    Seq<SpecSessionEvent>,
) {
    match i {
        SpecSessionInput::StartConnect => {
            if s.phase is Disconnected {
                (SpecTeamSession { phase: SessionPhase::Connecting, ..s }, Seq::empty())
            } else {
                (s, Seq::empty())
            }
        },
        SpecSessionInput::Connected => {
            if s.phase is Connecting {
                (SpecTeamSession { phase: SessionPhase::AwaitingRegisterResult, ..s }, Seq::empty())
            } else {
                (s, Seq::empty())
            }
        },
        SpecSessionInput::RegisterResult(r) => {
            if s.phase is AwaitingRegisterResult {
                match r {
                    SpecRegisterTeamResult::Accepted { expected_players, registration_token } => (
                        SpecTeamSession {
                            phase: SessionPhase::AwaitingSubscribeResult,
                            session: Option::Some(
                                SpecRegistrationSession {
                                    registration_token,
                                    expected_player_count: expected_players,
                                    subscribed_member_names: Seq::empty(),
                                },
                            ),
                            ..s
                        },
                        Seq::empty(),
                    ),
                    SpecRegisterTeamResult::Rejected { reason } => (
                        SpecTeamSession {
                            phase: SessionPhase::Terminated,
                            session: Option::None,
                            ..s
                        },
                        seq![SpecSessionEvent::RegistrationFailed(reason)],
                    ),
                }
            } else {
                (s, Seq::empty())
            }
        },
        SpecSessionInput::SubscribeResult { member_name, result } => {
            if (s.phase is AwaitingSubscribeResult || s.phase is InGame) && s.session is Some {
                let sess = s.session->Some_0;
                match result {
                    SpecSubscribePlayerResult::Accepted => {
                        let sess2 = SpecRegistrationSession {
                            subscribed_member_names: sess.subscribed_member_names.push(
                                member_name,
                            ),
                            ..sess
                        };
                        let phase2 = if sess2.subscribed_member_names.len()
                            >= sess.expected_player_count as int {
                            SessionPhase::InGame
                        } else {
                            s.phase
                        };
                        (
                            SpecTeamSession { phase: phase2, session: Option::Some(sess2), ..s },
                            seq![
                                SpecSessionEvent::RegistrationComplete {
                                    member_name,
                                    registration_token: sess.registration_token,
                                },
                            ],
                        )
                    },
                    SpecSubscribePlayerResult::Rejected { reason } => (
                        s,
                        seq![SpecSessionEvent::SubscriptionFailed { member_name, reason }],
                    ),
                }
            } else {
                (s, Seq::empty())
            }
        },
        SpecSessionInput::Push(m) => {
            if s.phase is InGame {
                match push_event(m) {
                    Option::Some(e) => (s, seq![e]),
                    Option::None => (s, Seq::empty()),
                }
            } else {
                (s, Seq::empty())
            }
        },
        SpecSessionInput::Closed => (
            SpecTeamSession { phase: SessionPhase::Terminated, session: Option::None, ..s },
            Seq::empty(),
        ),
    }
}

/// The state and concatenated events after feeding `inputs` in order.
pub open spec fn session_run(s: SpecTeamSession, inputs: Seq<SpecSessionInput>) -> (
    SpecTeamSession,
    Seq<SpecSessionEvent>,
)
    decreases inputs.len(),
{
    if inputs.len() == 0 {
        (s, Seq::empty())
    } else {
        let (s1, evs1) = session_step(s, inputs[0]);
        let (s2, evs2) = session_run(s1, inputs.skip(1));
        (s2, evs1 + evs2)
    }
}

} // verus!

verus! {

/// Whether the session stands after a successful registration with token
/// `t`: either it still holds that registration, or it has terminated and
/// destroyed it.
pub open spec fn holds_token(s: SpecTeamSession, t: Seq<char>) -> bool {
    ||| ((s.phase is AwaitingSubscribeResult || s.phase is InGame) && s.session is Some
        && s.session->Some_0.registration_token == t)
    ||| (s.phase is Terminated && s.session is None)
}

/// Whether every subscription event in `events` carries the token `t`.
pub open spec fn events_token_uniform(events: Seq<SpecSessionEvent>, t: Seq<char>) -> bool {
    forall|k: int|
        0 <= k < events.len() ==> match #[trigger] events[k] {
            SpecSessionEvent::RegistrationComplete { member_name, registration_token } =>
                registration_token == t,
            _ => true,
        }
}

/// One step after a successful registration keeps the token, and any
/// subscription event it emits carries that token.
pub proof fn lemma_step_token_uniform(s: SpecTeamSession, i: SpecSessionInput, t: Seq<char>)
    requires
        holds_token(s, t),
    ensures
        holds_token(session_step(s, i).0, t),
        events_token_uniform(session_step(s, i).1, t),
{
}

/// After a successful registration, every subsequently subscribed
/// member's subscription event carries the identical registration token,
/// whatever inputs arrive and in whatever order.
pub proof fn lemma_registration_token_uniform(
    s: SpecTeamSession,
    inputs: Seq<SpecSessionInput>,
    t: Seq<char>,
)
    requires
        holds_token(s, t),
    ensures
        holds_token(session_run(s, inputs).0, t),
        events_token_uniform(session_run(s, inputs).1, t),
    decreases inputs.len(),
{
    if inputs.len() == 0 {
    } else {
        let (s1, evs1) = session_step(s, inputs[0]);
        lemma_step_token_uniform(s, inputs[0], t);
        lemma_registration_token_uniform(s1, inputs.skip(1), t);
        let (s2, evs2) = session_run(s1, inputs.skip(1));
        assert(events_token_uniform(evs1 + evs2, t)) by {
            assert(forall|k: int| 0 <= k < evs1.len() ==> (evs1 + evs2)[k] == evs1[k]);
            assert(forall|k: int|
                evs1.len() <= k < evs1.len() + evs2.len() ==> (evs1 + evs2)[k] == evs2[k - evs1.len()]);
        }
    }
}

impl TeamSession {
    /// A fresh session against the given server, for the given team and
    /// members: disconnected, with nothing registered.
    pub fn new(server_address: String, team_name: String, members: Vec<String>) -> (r: TeamSession)
        ensures
            r@.server_address == server_address@,
            r@.team_name == team_name@,
            r@.members == members@.map_values(|m: String| m@),
            r@.phase is Disconnected,
            r@.session is None,
    {
        TeamSession {
            server_address,
            team_name,
            members,
            phase: SessionPhase::Disconnected,
            session: None,
        }
    }

    /// Begins connecting; meaningful only when disconnected.
    pub fn start_connect(&mut self)
        ensures
            final(self)@ == session_step(old(self)@, SpecSessionInput::StartConnect).0,
            session_step(old(self)@, SpecSessionInput::StartConnect).1 == Seq::<
                SpecSessionEvent,
            >::empty(),
    {
        if let SessionPhase::Disconnected = self.phase {
            self.phase = SessionPhase::Connecting;
        }
    }

    /// Notes the established transport and gives the registration request
    /// to send; `None` when no connection was being awaited.
    pub fn on_connected(&mut self) -> (r: Option<String>)
        ensures
            final(self)@ == session_step(old(self)@, SpecSessionInput::Connected).0,
            match r {
                Some(msg) => old(self)@.phase is Connecting && msg@ == register_team_json(
                    old(self)@.team_name,
                ),
                None => !(old(self)@.phase is Connecting),
            },
    {
        if let SessionPhase::Connecting = self.phase {
            self.phase = SessionPhase::AwaitingRegisterResult;
            Some(serialize_register_team(self.team_name.as_str()))
        } else {
            None
        }
    }

    /// Takes the registration outcome: a granted registration opens the
    /// subscription phase; a refusal terminates the session with a
    /// failure event and no automatic retry.
    pub fn on_register_result(&mut self, r: RegisterTeamResult) -> (events: Vec<SessionEvent>)
        ensures
            ({
                let (s2, evs) = session_step(
                    old(self)@,
                    SpecSessionInput::RegisterResult(r@),
                );
                final(self)@ == s2 && events@.map_values(|e: SessionEvent| e@) == evs
            }),
    {
        let mut events: Vec<SessionEvent> = Vec::new();
        proof {
            assert(events@.map_values(|e: SessionEvent| e@) =~= Seq::<SpecSessionEvent>::empty());
        }
        if let SessionPhase::AwaitingRegisterResult = self.phase {
            match r {
                RegisterTeamResult::OkVariant { ok } => {
                    self.phase = SessionPhase::AwaitingSubscribeResult;
                    self.session = Some(
                        RegistrationSession {
                            registration_token: ok.registration_token,
                            expected_player_count: ok.expected_players,
                            subscribed_member_names: Vec::new(),
                        },
                    );
                    proof {
                        assert(self@.session->Some_0.subscribed_member_names =~= Seq::<
                            Seq<char>,
                        >::empty());
                    }
                },
                RegisterTeamResult::ErrVariant { err } => {
                    let ghost reason = err@;
                    self.phase = SessionPhase::Terminated;
                    self.session = None;
                    events.push(SessionEvent::RegistrationFailed(err));
                    proof {
                        assert(events@.map_values(|e: SessionEvent| e@) =~= seq![
                            SpecSessionEvent::RegistrationFailed(reason),
                        ]);
                    }
                },
            }
        }
        events
    }
}

} // verus!

verus! {

impl TeamSession {
    /// The subscription request to send for one member, carrying the
    /// session's token; `None` before a successful registration.
    pub fn subscribe_message(&self, member_name: &str) -> (r: Option<String>)
        ensures
            match r {
                Some(msg) => self@.session is Some && msg@ == subscribe_player_json(
                    member_name@,
                    self@.session->Some_0.registration_token,
                ),
                None => self@.session is None,
            },
    {
        match &self.session {
            Some(sess) => Some(
                serialize_subscribe_player(member_name, sess.registration_token.as_str()),
            ),
            None => None,
        }
    }

    /// Takes one member's subscription outcome. Acceptance records the
    /// member and hands upward a subscription event carrying the
    /// session's token; once every expected member is subscribed the
    /// session is in the game. A refusal fails only that member.
    pub fn on_subscribe_result(
        &mut self,
        member_name: String,
        result: SubscribePlayerResult,
    ) -> (events: Vec<SessionEvent>)
        ensures
            ({
                let (s2, evs) = session_step(
                    old(self)@,
                    SpecSessionInput::SubscribeResult { member_name: member_name@, result: result@ },
                );
                final(self)@ == s2 && events@.map_values(|e: SessionEvent| e@) == evs
            }),
    {
        let mut events: Vec<SessionEvent> = Vec::new();
        proof {
            assert(events@.map_values(|e: SessionEvent| e@) =~= Seq::<SpecSessionEvent>::empty());
        }
        let in_subscribe_phase = match self.phase {
            SessionPhase::AwaitingSubscribeResult => true,
            SessionPhase::InGame => true,
            _ => false,
        };
        if in_subscribe_phase && self.session.is_some() {
            match result {
                SubscribePlayerResult::Accepted => {
                    let ghost member_view = member_name@;
                    if let Some(sess) = &mut self.session {
                        let ghost old_subscribed = sess@.subscribed_member_names;
                        let ghost token_view = sess@.registration_token;
                        let token_copy = sess.registration_token.clone();
                        sess.subscribed_member_names.push(member_name.clone());
                        proof {
                            assert(sess@.subscribed_member_names =~= old_subscribed.push(
                                member_view,
                            ));
                        }
                        let subscribed_count = sess.subscribed_member_names.len();
                        let expected = sess.expected_player_count;
                        if subscribed_count >= expected as usize {
                            self.phase = SessionPhase::InGame;
                        }
                        events.push(
                            SessionEvent::RegistrationComplete {
                                member_name,
                                registration_token: token_copy,
                            },
                        );
                        proof {
                            assert(events@.map_values(|e: SessionEvent| e@) =~= seq![
                                SpecSessionEvent::RegistrationComplete {
                                    member_name: member_view,
                                    registration_token: token_view,
                                },
                            ]);
                        }
                    }
                },
                SubscribePlayerResult::Rejected(reason) => {
                    let ghost member_view = member_name@;
                    let ghost reason_view = reason@;
                    events.push(SessionEvent::SubscriptionFailed { member_name, reason });
                    proof {
                        assert(events@.map_values(|e: SessionEvent| e@) =~= seq![
                            SpecSessionEvent::SubscriptionFailed {
                                member_name: member_view,
                                reason: reason_view,
                            },
                        ]);
                    }
                },
            }
        }
        events
    }

    /// Takes one in-game server push and hands the matching event upward;
    /// outside the game, or for a push that is no push, nothing happens.
    pub fn on_push(&mut self, msg: ServerMessage) -> (events: Vec<SessionEvent>)
        ensures
            ({
                let (s2, evs) = session_step(old(self)@, SpecSessionInput::Push(msg@));
                final(self)@ == s2 && events@.map_values(|e: SessionEvent| e@) == evs
            }),
    {
        let mut events: Vec<SessionEvent> = Vec::new();
        proof {
            assert(events@.map_values(|e: SessionEvent| e@) =~= Seq::<SpecSessionEvent>::empty());
        }
        let in_game = match self.phase {
            SessionPhase::InGame => true,
            _ => false,
        };
        if in_game {
            let ghost msg_view = msg@;
            match msg {
                ServerMessage::RadarView(tok) => {
                    events.push(SessionEvent::RadarViewReceived(tok));
                },
                ServerMessage::Hint(raw) => {
                    events.push(SessionEvent::HintReceived(raw));
                },
                ServerMessage::Challenge(c) => {
                    events.push(SessionEvent::ChallengeReceived(c));
                },
                ServerMessage::ActionError(e) => {
                    events.push(SessionEvent::ActionErrorReceived(e));
                },
                ServerMessage::RegisterTeamResult(_) => {},
                ServerMessage::SubscribePlayerResult(_) => {},
            }
            proof {
                match push_event(msg_view) {
                    Option::Some(e) => {
                        assert(events@.map_values(|ev: SessionEvent| ev@) =~= seq![e]);
                    },
                    Option::None => {
                        assert(events@.map_values(|ev: SessionEvent| ev@) =~= Seq::<
                            SpecSessionEvent,
                        >::empty());
                    },
                }
            }
        }
        events
    }

    /// Ends the session: local closure or a remote end of stream at a
    /// frame boundary terminates it cleanly and destroys its
    /// registration.
    pub fn on_closed(&mut self)
        ensures
            final(self)@ == session_step(old(self)@, SpecSessionInput::Closed).0,
            session_step(old(self)@, SpecSessionInput::Closed).1 == Seq::<
                SpecSessionEvent,
            >::empty(),
    {
        self.phase = SessionPhase::Terminated;
        self.session = None;
    }
}

} // verus!

verus! {

/// What the consumer layer shows: the registration form, the pre-game
/// summary, or the running game.
#[derive(Debug)]
pub enum AppState {
    /// The registration form is open.
    Registration,
    /// The team is registered; the game has not started yet.
    GameSetup {
        /// The team's name.
        team_name: String,
        /// The team's members.
        team_members: Vec<String>,
        /// The granted registration token.
        token: String,
    },
    /// The game is running.
    Game {
        /// The team's name.
        team_name: String,
        /// The team's members.
        team_members: Vec<String>,
        /// The granted registration token.
        token: String,
    },
}

/// Whether the consumer creates a new team or joins an existing one.
#[derive(Debug, Copy, Clone, PartialEq, Eq, Structural)]
pub enum RegistrationMode {
    /// Create a team and register it.
    Create,
    /// Join a team under an existing token.
    Join,
}

/// The raw registration intent the consumer layer hands to the session:
/// create a team, or join one under an existing token.
#[derive(Debug)]
pub enum RegistrationData {
    /// Create a team with the given name and members.
    Create {
        /// The team's name.
        team_name: String,
        /// The team's members.
        team_members: Vec<String>,
    },
    /// Join an existing team.
    Join {
        /// The team's registration token.
        token: String,
        /// The joining player's name.
        player_name: String,
    },
}

} // verus!

verus! {

/// One player's in-game handler: the navigation engine it owns, the
/// direction the player faces, and whether a challenge suspends the
/// navigation. Each subscribed member's connection owns one instance;
/// nothing is shared across players.
pub struct PlayerSession {
    /// The wall-following navigation state.
    pub nav: NavigationState,
    /// The believed direction toward the exit.
    pub goal: Direction,
    /// The direction of the last sent move; relative directions are
    /// measured against it.
    pub facing: Direction,
    /// A challenge is open: navigation is suspended until its answer is
    /// accepted.
    pub challenged: bool,
}

impl PlayerSession {
    /// A fresh in-game handler aiming for `goal`, facing it, with no open
    /// challenge.
    pub fn new(goal: Direction) -> (r: PlayerSession)
        ensures
            r.nav == (NavigationState {
                heading: goal,
                pledge_counter: 0,
                mode: NavMode::Direct,
            }),
            r.goal == goal,
            r.facing == goal,
            !r.challenged,
    {
        PlayerSession {
            nav: NavigationState { heading: goal, pledge_counter: 0, mode: NavMode::Direct },
            goal,
            facing: goal,
            challenged: false,
        }
    }

    /// Answers one pushed radar view with at most one move: the relative
    /// direction to send, measured against the player's facing, which
    /// then follows the move. While a challenge is open, or when the view
    /// is fully enclosed, no move is sent and nothing changes.
    pub fn on_radar_view(&mut self, view: &LocalView) -> (r: Option<RelativeDirection>)
        requires
            old(self).nav.pledge_counter + 1 <= i64::MAX,
            old(self).nav.pledge_counter - 4 >= i64::MIN,
        ensures
            old(self).challenged ==> r is None && *final(self) == *old(self),
            !old(self).challenged ==> {
                let (nav2, mv) = spec_decide(*view, old(self).nav@, old(self).goal);
                &&& final(self).nav@ == nav2
                &&& final(self).goal == old(self).goal
                &&& final(self).challenged == old(self).challenged
                &&& match mv {
                    Some(d) => {
                        &&& r == Some(spec_relative_of(old(self).facing, d))
                        &&& final(self).facing == d
                        &&& view_passable(*view, d)
                    },
                    None => r is None && final(self).facing == old(self).facing,
                }
            },
    {
        if self.challenged {
            return None;
        }
        match decide_action(&mut self.nav, view, self.goal) {
            Some(target) => {
                let step = relative_of(self.facing, target);
                self.facing = target;
                Some(step)
            },
            None => None,
        }
    }

    /// Suspends navigation for a pushed challenge; the navigation state
    /// is kept as it is.
    pub fn on_challenge(&mut self)
        ensures
            final(self).challenged,
            final(self).nav == old(self).nav,
            final(self).goal == old(self).goal,
            final(self).facing == old(self).facing,
    {
        self.challenged = true;
    }

    /// Resumes navigation once the challenge's answer was accepted; the
    /// navigation state is kept as it is.
    pub fn on_challenge_solved(&mut self)
        ensures
            !final(self).challenged,
            final(self).nav == old(self).nav,
            final(self).goal == old(self).goal,
            final(self).facing == old(self).facing,
    {
        self.challenged = false;
    }

}

} // verus!
