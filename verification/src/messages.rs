//! The protocol's message taxonomy and its canonical JSON wire forms.
//!
//! Every message travels as a JSON object whose single outer key names the
//! message kind; dispatch branches on that key and never on payload shape.
//! The writers here emit the exact envelope forms of the protocol, and the
//! readers in the parsing module accept exactly those forms.

use vstd::prelude::*;
use crate::json::{json_string, u64_dec};
use crate::json::{append_json_string, append_u64_dec, append_str};

verus! {

/// A request to register a team under a name.
pub struct RegisterTeam {
    /// The team's name.
    pub name: String,
}

/// The successful outcome of a team registration.
pub struct RegisterTeamResultOk {
    /// How many players the server expects to subscribe.
    pub expected_players: u8,
    /// The token that every member presents when subscribing.
    pub registration_token: String,
}

/// The outcome of a team registration.
pub enum RegisterTeamResult {
    /// Registration succeeded.
    OkVariant {
        /// The player count and token granted by the server.
        ok: RegisterTeamResultOk,
    },
    /// Registration failed.
    ErrVariant {
        /// The server's reason.
        err: String,
    },
}

/// The registration outcome inside its outer envelope key.
pub struct RegisterTeamResultWrapper {
    /// The outcome carried under the `RegisterTeamResult` key.
    pub register_team_result: RegisterTeamResult,
}

/// A request to subscribe one member under a registration token.
pub struct SubscribePlayer {
    /// The member's name.
    pub name: String,
    /// The token granted at team registration.
    pub registration_token: String,
}

/// The outcome of one member's subscription.
pub enum SubscribePlayerResult {
    /// The subscription succeeded; the connection is in the game.
    Accepted,
    /// The subscription failed, with the server's reason; only this
    /// member's subscription fails, not its siblings'.
    Rejected(String),
}

/// A server-pushed snapshot of the player's surroundings, as a compact
/// token.
pub struct RadarView(pub String);

/// A relative direction, measured against the player's own heading.
#[derive(Debug, Copy, Clone, PartialEq, Eq, Structural)]
pub enum RelativeDirection {
    Front,
    Right,
    Back,
    Left,
}

/// A move the client sends in the game.
pub enum Action {
    /// Step one cell toward a relative direction.
    MoveTo(RelativeDirection),
    /// Answer the challenge that suspends navigation.
    SolveChallenge {
        /// The answer text.
        answer: String,
    },
}

/// Why the server rejected a move. All of these are recoverable locally:
/// the navigation engine keeps its state and reconsiders on the next
/// pushed radar view.
#[derive(Debug, Copy, Clone, PartialEq, Eq, Structural)]
pub enum ActionError {
    CannotPassThroughWall,
    CannotPassThroughOpponent,
    NoRunningChallenge,
    SolveChallengeFirst,
    InvalidChallengeSolution,
}

/// A challenge pushed by the server; navigation suspends until an answer
/// is accepted.
#[derive(Debug, Copy, Clone, PartialEq, Eq, Structural)]
pub enum Challenge {
    /// Answer with the sum of the secrets modulo the given value.
    SecretSumModulo(u64),
    /// A distress call with no payload.
    Sos,
}

/// The mathematical value of a registration outcome.
pub ghost enum SpecRegisterTeamResult {
    /// Registration succeeded.
    Accepted { expected_players: u8, registration_token: Seq<char> },
    /// Registration failed with a reason.
    Rejected { reason: Seq<char> },
}

impl View for RegisterTeamResult {
    type V = SpecRegisterTeamResult;

    open spec fn view(&self) -> SpecRegisterTeamResult {
        match self {
            RegisterTeamResult::OkVariant { ok } => SpecRegisterTeamResult::Accepted {
                expected_players: ok.expected_players,
                registration_token: ok.registration_token@,
            },
            RegisterTeamResult::ErrVariant { err } => SpecRegisterTeamResult::Rejected {
                reason: err@,
            },
        }
    }
}

/// The mathematical value of a subscription outcome.
pub ghost enum SpecSubscribePlayerResult {
    Accepted,
    Rejected { reason: Seq<char> },
}

impl View for SubscribePlayerResult {
    type V = SpecSubscribePlayerResult;

    open spec fn view(&self) -> SpecSubscribePlayerResult {
        match self {
            SubscribePlayerResult::Accepted => SpecSubscribePlayerResult::Accepted,
            SubscribePlayerResult::Rejected(reason) => SpecSubscribePlayerResult::Rejected {
                reason: reason@,
            },
        }
    }
}

/// The wire name of a relative direction.
pub open spec fn relative_direction_name(d: RelativeDirection) -> Seq<char> {
    match d {
        RelativeDirection::Front => "Front"@,
        RelativeDirection::Right => "Right"@,
        RelativeDirection::Back => "Back"@,
        RelativeDirection::Left => "Left"@,
    }
}

/// The wire name of a move rejection kind.
pub open spec fn action_error_name(e: ActionError) -> Seq<char> {
    match e {
        ActionError::CannotPassThroughWall => "CannotPassThroughWall"@,
        ActionError::CannotPassThroughOpponent => "CannotPassThroughOpponent"@,
        ActionError::NoRunningChallenge => "NoRunningChallenge"@,
        ActionError::SolveChallengeFirst => "SolveChallengeFirst"@,
        ActionError::InvalidChallengeSolution => "InvalidChallengeSolution"@,
    }
}

/// The wire form of a team registration request.
pub open spec fn register_team_json(name: Seq<char>) -> Seq<char> {
    "{\"RegisterTeam\":{\"name\":"@ + json_string(name) + "}}"@
}

/// The wire form of a member subscription request.
pub open spec fn subscribe_player_json(name: Seq<char>, token: Seq<char>) -> Seq<char> {
    "{\"SubscribePlayer\":{\"name\":"@ + json_string(name) + ",\"registration_token\":"@
        + json_string(token) + "}}"@
}

/// The wire form of a move or challenge answer.
pub open spec fn action_json(a: Action) -> Seq<char> {
    match a {
        Action::MoveTo(d) => "{\"Action\":{\"MoveTo\":\""@ + relative_direction_name(d)
            + "\"}}"@,
        Action::SolveChallenge { answer } => "{\"Action\":{\"SolveChallenge\":{\"answer\":"@
            + json_string(answer@) + "}}}"@,
    }
}

/// The payload of a registration outcome, without its outer envelope key.
pub open spec fn register_team_result_payload_json(m: SpecRegisterTeamResult) -> Seq<char> {
    match m {
        SpecRegisterTeamResult::Accepted { expected_players, registration_token } =>
            "{\"Ok\":{\"expected_players\":"@ + u64_dec(expected_players as u64)
            + ",\"registration_token\":"@ + json_string(registration_token) + "}}"@,
        SpecRegisterTeamResult::Rejected { reason } => "{\"Err\":"@ + json_string(reason) + "}"@,
    }
}

/// The wire form of a registration outcome, with its outer envelope key.
pub open spec fn register_team_result_json(m: SpecRegisterTeamResult) -> Seq<char> {
    "{\"RegisterTeamResult\":"@ + register_team_result_payload_json(m) + "}"@
}

/// The payload of a subscription outcome, without its outer envelope key.
pub open spec fn subscribe_player_result_payload_json(m: SpecSubscribePlayerResult) -> Seq<char> {
    match m {
        SpecSubscribePlayerResult::Accepted => "\"Ok\""@,
        SpecSubscribePlayerResult::Rejected { reason } => "{\"Err\":"@ + json_string(reason)
            + "}"@,
    }
}

/// The wire form of a subscription outcome, with its outer envelope key.
pub open spec fn subscribe_player_result_json(m: SpecSubscribePlayerResult) -> Seq<char> {
    "{\"SubscribePlayerResult\":"@ + subscribe_player_result_payload_json(m) + "}"@
}

/// The wire form of a move rejection.
pub open spec fn action_error_json(e: ActionError) -> Seq<char> {
    "{\"ActionError\":\""@ + action_error_name(e) + "\"}"@
}

/// The wire name of a relative direction.
pub fn relative_direction_str(d: RelativeDirection) -> (r: &'static str)
    ensures
        r@ == relative_direction_name(d),
{
    match d {
        RelativeDirection::Front => "Front",
        RelativeDirection::Right => "Right",
        RelativeDirection::Back => "Back",
        RelativeDirection::Left => "Left",
    }
}

/// The wire name of a move rejection kind.
pub fn action_error_str(e: ActionError) -> (r: &'static str)
    ensures
        r@ == action_error_name(e),
{
    match e {
        ActionError::CannotPassThroughWall => "CannotPassThroughWall",
        ActionError::CannotPassThroughOpponent => "CannotPassThroughOpponent",
        ActionError::NoRunningChallenge => "NoRunningChallenge",
        ActionError::SolveChallengeFirst => "SolveChallengeFirst",
        ActionError::InvalidChallengeSolution => "InvalidChallengeSolution",
    }
}

/// Writes the team registration request for `name`.
pub fn serialize_register_team(name: &str) -> (r: String)
    ensures
        r@ == register_team_json(name@),
{
    let mut out = String::new();
    append_str(&mut out, "{\"RegisterTeam\":{\"name\":");
    append_json_string(&mut out, name);
    append_str(&mut out, "}}");
    proof {
        assert(out@ =~= register_team_json(name@));
    }
    out
}

/// Writes the subscription request for one member under a token.
pub fn serialize_subscribe_player(name: &str, registration_token: &str) -> (r: String)
    ensures
        r@ == subscribe_player_json(name@, registration_token@),
{
    let mut out = String::new();
    append_str(&mut out, "{\"SubscribePlayer\":{\"name\":");
    append_json_string(&mut out, name);
    append_str(&mut out, ",\"registration_token\":");
    append_json_string(&mut out, registration_token);
    append_str(&mut out, "}}");
    proof {
        assert(out@ =~= subscribe_player_json(name@, registration_token@));
    }
    out
}

/// Writes a move or challenge answer.
pub fn serialize_action(a: &Action) -> (r: String)
    ensures
        r@ == action_json(*a),
{
    let mut out = String::new();
    match a {
        Action::MoveTo(d) => {
            append_str(&mut out, "{\"Action\":{\"MoveTo\":\"");
            append_str(&mut out, relative_direction_str(*d));
            append_str(&mut out, "\"}}");
        },
        Action::SolveChallenge { answer } => {
            append_str(&mut out, "{\"Action\":{\"SolveChallenge\":{\"answer\":");
            append_json_string(&mut out, answer.as_str());
            append_str(&mut out, "}}}");
        },
    }
    proof {
        assert(out@ =~= action_json(*a));
    }
    out
}

/// Writes a registration outcome with its envelope key.
pub fn serialize_register_team_result(m: &RegisterTeamResult) -> (r: String)
    ensures
        r@ == register_team_result_json(m@),
{
    let mut out = String::new();
    append_str(&mut out, "{\"RegisterTeamResult\":");
    match m {
        RegisterTeamResult::OkVariant { ok } => {
            append_str(&mut out, "{\"Ok\":{\"expected_players\":");
            append_u64_dec(&mut out, ok.expected_players as u64);
            append_str(&mut out, ",\"registration_token\":");
            append_json_string(&mut out, ok.registration_token.as_str());
            append_str(&mut out, "}}");
        },
        RegisterTeamResult::ErrVariant { err } => {
            append_str(&mut out, "{\"Err\":");
            append_json_string(&mut out, err.as_str());
            append_str(&mut out, "}");
        },
    }
    append_str(&mut out, "}");
    proof {
        assert(out@ =~= register_team_result_json(m@));
    }
    out
}

/// Writes a subscription outcome with its envelope key.
pub fn serialize_subscribe_player_result(m: &SubscribePlayerResult) -> (r: String)
    ensures
        r@ == subscribe_player_result_json(m@),
{
    let mut out = String::new();
    append_str(&mut out, "{\"SubscribePlayerResult\":");
    match m {
        SubscribePlayerResult::Accepted => {
            append_str(&mut out, "\"Ok\"");
        },
        SubscribePlayerResult::Rejected(reason) => {
            append_str(&mut out, "{\"Err\":");
            append_json_string(&mut out, reason.as_str());
            append_str(&mut out, "}");
        },
    }
    append_str(&mut out, "}");
    proof {
        assert(out@ =~= subscribe_player_result_json(m@));
    }
    out
}

/// Writes a move rejection with its envelope key.
pub fn serialize_action_error(e: ActionError) -> (r: String)
    ensures
        r@ == action_error_json(e),
{
    let mut out = String::new();
    append_str(&mut out, "{\"ActionError\":\"");
    append_str(&mut out, action_error_str(e));
    append_str(&mut out, "\"}");
    proof {
        assert(out@ =~= action_error_json(e));
    }
    out
}

} // verus!
