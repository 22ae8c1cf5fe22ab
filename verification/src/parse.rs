//! Reading and dispatching incoming protocol messages.
//!
//! A message is dispatched strictly on its outer JSON key — never on
//! substring search or payload shape, since different kinds can carry
//! payload-identical bodies. The readers accept exactly the canonical
//! wire forms that the message writers emit.

use vstd::prelude::*;
use crate::json::{
    spec_parse_string, spec_parse_u64, starts_with, lemma_skip_skip, lemma_starts_with_self,
    parse_string_at, parse_u64_at, expect_lit, str_eq,
};
use crate::messages::{
    RegisterTeamResult, RegisterTeamResultOk, RegisterTeamResultWrapper, SubscribePlayerResult,
    ActionError, Challenge, SpecRegisterTeamResult, SpecSubscribePlayerResult,
    register_team_result_json, register_team_result_payload_json, subscribe_player_result_json,
    subscribe_player_result_payload_json, action_error_json, action_error_name,
};
use crate::json::{json_string, u64_dec, lemma_concat_parts};

verus! {

/// Why an incoming message was refused. A protocol failure terminates
/// only the affected connection; it is reported as a structured event and
/// never crashes the process.
#[derive(Debug, Copy, Clone, PartialEq, Eq, Structural)]
pub enum ProtocolError {
    /// The text is not a canonical wire form of the recognized kind.
    MalformedJson,
    /// The outer key names no known message kind.
    UnrecognizedTag,
}

/// An incoming server message, identified by its outer key.
pub enum ServerMessage {
    /// The outcome of a team registration.
    RegisterTeamResult(RegisterTeamResult),
    /// The outcome of one member's subscription.
    SubscribePlayerResult(SubscribePlayerResult),
    /// A pushed radar snapshot: the compact token it carries.
    RadarView(String),
    /// A pushed hint: the raw payload text, passed upward unread.
    Hint(String),
    /// A pushed challenge; navigation suspends until it is answered.
    Challenge(Challenge),
    /// A rejected move.
    ActionError(ActionError),
}

/// The mathematical value of an incoming server message.
pub ghost enum SpecServerMessage {
    RegisterTeamResult(SpecRegisterTeamResult),
    SubscribePlayerResult(SpecSubscribePlayerResult),
    RadarView(Seq<char>),
    Hint(Seq<char>),
    Challenge(Challenge),
    ActionError(ActionError),
}

impl View for ServerMessage {
    type V = SpecServerMessage;

    open spec fn view(&self) -> SpecServerMessage {
        match self {
            ServerMessage::RegisterTeamResult(m) => SpecServerMessage::RegisterTeamResult(m@),
            ServerMessage::SubscribePlayerResult(m) => SpecServerMessage::SubscribePlayerResult(
                m@,
            ),
            ServerMessage::RadarView(tok) => SpecServerMessage::RadarView(tok@),
            ServerMessage::Hint(raw) => SpecServerMessage::Hint(raw@),
            ServerMessage::Challenge(c) => SpecServerMessage::Challenge(*c),
            ServerMessage::ActionError(e) => SpecServerMessage::ActionError(*e),
        }
    }
}

/// Reads a registration outcome payload from the front of `s`: the
/// outcome and the remainder after it.
pub open spec fn spec_parse_register_team_result(s: Seq<char>) -> Option<
    (SpecRegisterTeamResult, Seq<char>),
> {
    if starts_with(s, "{\"Ok\":{\"expected_players\":"@) {
        let s1 = s.skip("{\"Ok\":{\"expected_players\":"@.len() as int);
        match spec_parse_u64(s1) {
            Option::Some((v, s2)) => if v <= 255 && starts_with(
                s2,
                ",\"registration_token\":"@,
            ) {
                let s3 = s2.skip(",\"registration_token\":"@.len() as int);
                match spec_parse_string(s3) {
                    Option::Some((tok, s4)) => if starts_with(s4, "}}"@) {
                        Option::Some(
                            (
                                SpecRegisterTeamResult::Accepted {
                                    expected_players: v as u8,
                                    registration_token: tok,
                                },
                                s4.skip("}}"@.len() as int),
                            ),
                        )
                    } else {
                        Option::None
                    },
                    Option::None => Option::None,
                }
            } else {
                Option::None
            },
            Option::None => Option::None,
        }
    } else if starts_with(s, "{\"Err\":"@) {
        match spec_parse_string(s.skip("{\"Err\":"@.len() as int)) {
            Option::Some((reason, s2)) => if starts_with(s2, "}"@) {
                Option::Some(
                    (SpecRegisterTeamResult::Rejected { reason }, s2.skip("}"@.len() as int)),
                )
            } else {
                Option::None
            },
            Option::None => Option::None,
        }
    } else {
        Option::None
    }
}

/// Reads a subscription outcome payload from the front of `s`: the
/// outcome and the remainder after it.
pub open spec fn spec_parse_subscribe_player_result(s: Seq<char>) -> Option<
    (SpecSubscribePlayerResult, Seq<char>),
> {
    if starts_with(s, "\"Ok\""@) {
        Option::Some((SpecSubscribePlayerResult::Accepted, s.skip("\"Ok\""@.len() as int)))
    } else if starts_with(s, "{\"Err\":"@) {
        match spec_parse_string(s.skip("{\"Err\":"@.len() as int)) {
            Option::Some((reason, s2)) => if starts_with(s2, "}"@) {
                Option::Some(
                    (SpecSubscribePlayerResult::Rejected { reason }, s2.skip("}"@.len() as int)),
                )
            } else {
                Option::None
            },
            Option::None => Option::None,
        }
    } else {
        Option::None
    }
}

/// The move rejection kind with the given wire name, if any.
pub open spec fn spec_action_error_of(name: Seq<char>) -> Option<ActionError> {
    if name == "CannotPassThroughWall"@ {
        Option::Some(ActionError::CannotPassThroughWall)
    } else if name == "CannotPassThroughOpponent"@ {
        Option::Some(ActionError::CannotPassThroughOpponent)
    } else if name == "NoRunningChallenge"@ {
        Option::Some(ActionError::NoRunningChallenge)
    } else if name == "SolveChallengeFirst"@ {
        Option::Some(ActionError::SolveChallengeFirst)
    } else if name == "InvalidChallengeSolution"@ {
        Option::Some(ActionError::InvalidChallengeSolution)
    } else {
        Option::None
    }
}

/// Reads one whole incoming message, dispatching strictly on its outer
/// JSON key.
pub open spec fn spec_parse_server_message(s: Seq<char>) -> Result<
    SpecServerMessage,
    ProtocolError,
> {
    if starts_with(s, "{\"RegisterTeamResult\":"@) {
        match spec_parse_register_team_result(s.skip("{\"RegisterTeamResult\":"@.len() as int)) {
            Option::Some((m, rem)) => if rem == "}"@ {
                Result::Ok(SpecServerMessage::RegisterTeamResult(m))
            } else {
                Result::Err(ProtocolError::MalformedJson)
            },
            Option::None => Result::Err(ProtocolError::MalformedJson),
        }
    } else if starts_with(s, "{\"SubscribePlayerResult\":"@) {
        match spec_parse_subscribe_player_result(
            s.skip("{\"SubscribePlayerResult\":"@.len() as int),
        ) {
            Option::Some((m, rem)) => if rem == "}"@ {
                Result::Ok(SpecServerMessage::SubscribePlayerResult(m))
            } else {
                Result::Err(ProtocolError::MalformedJson)
            },
            Option::None => Result::Err(ProtocolError::MalformedJson),
        }
    } else if starts_with(s, "{\"RadarView\":"@) {
        match spec_parse_string(s.skip("{\"RadarView\":"@.len() as int)) {
            Option::Some((tok, rem)) => if rem == "}"@ {
                Result::Ok(SpecServerMessage::RadarView(tok))
            } else {
                Result::Err(ProtocolError::MalformedJson)
            },
            Option::None => Result::Err(ProtocolError::MalformedJson),
        }
    } else if starts_with(s, "{\"Hint\":"@) {
        let klen = "{\"Hint\":"@.len() as int;
        if s.len() > klen + 1 && s[s.len() - 1] == '}' {
            Result::Ok(SpecServerMessage::Hint(s.subrange(klen, s.len() - 1)))
        } else {
            Result::Err(ProtocolError::MalformedJson)
        }
    } else if starts_with(s, "{\"Challenge\":"@) {
        let s1 = s.skip("{\"Challenge\":"@.len() as int);
        if s1 == "\"SOS\"}"@ {
            Result::Ok(SpecServerMessage::Challenge(Challenge::Sos))
        } else {
            match spec_parse_u64(s1) {
                Option::Some((v, rem)) => if rem == "}"@ {
                    Result::Ok(SpecServerMessage::Challenge(Challenge::SecretSumModulo(v)))
                } else {
                    Result::Err(ProtocolError::MalformedJson)
                },
                Option::None => Result::Err(ProtocolError::MalformedJson),
            }
        }
    } else if starts_with(s, "{\"ActionError\":"@) {
        match spec_parse_string(s.skip("{\"ActionError\":"@.len() as int)) {
            Option::Some((name, rem)) => if rem == "}"@ {
                match spec_action_error_of(name) {
                    Option::Some(e) => Result::Ok(SpecServerMessage::ActionError(e)),
                    Option::None => Result::Err(ProtocolError::MalformedJson),
                }
            } else {
                Result::Err(ProtocolError::MalformedJson)
            },
            Option::None => Result::Err(ProtocolError::MalformedJson),
        }
    } else {
        Result::Err(ProtocolError::UnrecognizedTag)
    }
}

} // verus!

verus! {

/// Reads the registration outcome payload that starts at character
/// position `pos` of `s`.
fn parse_register_team_result_at(s: &str, pos: usize) -> (r: Option<(RegisterTeamResult, usize)>)
    requires
        pos <= s@.len(),
    ensures
        match r {
            Some(p) => pos <= p.1 <= s@.len() && spec_parse_register_team_result(
                s@.skip(pos as int),
            ) == Some((p.0@, s@.skip(p.1 as int))),
            None => spec_parse_register_team_result(s@.skip(pos as int)) is None,
        },
{
    if let Some(p1) = expect_lit(s, pos, "{\"Ok\":{\"expected_players\":") {
        proof {
            lemma_skip_skip(s@, pos as int, "{\"Ok\":{\"expected_players\":"@.len() as int);
        }
        match parse_u64_at(s, p1) {
            Some((v, p2)) => {
                if v > 255 {
                    return None;
                }
                if let Some(p3) = expect_lit(s, p2, ",\"registration_token\":") {
                    proof {
                        lemma_skip_skip(s@, p2 as int, ",\"registration_token\":"@.len() as int);
                    }
                    match parse_string_at(s, p3) {
                        Some((tok, p4)) => {
                            if let Some(p5) = expect_lit(s, p4, "}}") {
                                proof {
                                    lemma_skip_skip(s@, p4 as int, "}}"@.len() as int);
                                }
                                Some(
                                    (
                                        RegisterTeamResult::OkVariant {
                                            ok: RegisterTeamResultOk {
                                                expected_players: v as u8,
                                                registration_token: tok,
                                            },
                                        },
                                        p5,
                                    ),
                                )
                            } else {
                                None
                            }
                        },
                        None => None,
                    }
                } else {
                    None
                }
            },
            None => None,
        }
    } else if let Some(p1) = expect_lit(s, pos, "{\"Err\":") {
        proof {
            lemma_skip_skip(s@, pos as int, "{\"Err\":"@.len() as int);
        }
        match parse_string_at(s, p1) {
            Some((reason, p2)) => {
                if let Some(p3) = expect_lit(s, p2, "}") {
                    proof {
                        lemma_skip_skip(s@, p2 as int, "}"@.len() as int);
                    }
                    Some((RegisterTeamResult::ErrVariant { err: reason }, p3))
                } else {
                    None
                }
            },
            None => None,
        }
    } else {
        None
    }
}

/// Reads the subscription outcome payload that starts at character
/// position `pos` of `s`.
fn parse_subscribe_player_result_at(s: &str, pos: usize) -> (r: Option<
    (SubscribePlayerResult, usize),
>)
    requires
        pos <= s@.len(),
    ensures
        match r {
            Some(p) => pos <= p.1 <= s@.len() && spec_parse_subscribe_player_result(
                s@.skip(pos as int),
            ) == Some((p.0@, s@.skip(p.1 as int))),
            None => spec_parse_subscribe_player_result(s@.skip(pos as int)) is None,
        },
{
    if let Some(p1) = expect_lit(s, pos, "\"Ok\"") {
        proof {
            lemma_skip_skip(s@, pos as int, "\"Ok\""@.len() as int);
        }
        Some((SubscribePlayerResult::Accepted, p1))
    } else if let Some(p1) = expect_lit(s, pos, "{\"Err\":") {
        proof {
            lemma_skip_skip(s@, pos as int, "{\"Err\":"@.len() as int);
        }
        match parse_string_at(s, p1) {
            Some((reason, p2)) => {
                if let Some(p3) = expect_lit(s, p2, "}") {
                    proof {
                        lemma_skip_skip(s@, p2 as int, "}"@.len() as int);
                    }
                    Some((SubscribePlayerResult::Rejected(reason), p3))
                } else {
                    None
                }
            },
            None => None,
        }
    } else {
        None
    }
}

/// The move rejection kind with the given wire name, if any.
fn action_error_of(name: &str) -> (r: Option<ActionError>)
    ensures
        r == spec_action_error_of(name@),
{
    if str_eq(name, "CannotPassThroughWall") {
        Some(ActionError::CannotPassThroughWall)
    } else if str_eq(name, "CannotPassThroughOpponent") {
        Some(ActionError::CannotPassThroughOpponent)
    } else if str_eq(name, "NoRunningChallenge") {
        Some(ActionError::NoRunningChallenge)
    } else if str_eq(name, "SolveChallengeFirst") {
        Some(ActionError::SolveChallengeFirst)
    } else if str_eq(name, "InvalidChallengeSolution") {
        Some(ActionError::InvalidChallengeSolution)
    } else {
        None
    }
}

/// Whether the remainder of `s` after position `pos` is exactly one
/// closing brace.
fn closes_at(s: &str, pos: usize) -> (r: bool)
    requires
        pos <= s@.len(),
    ensures
        r == (s@.skip(pos as int) == "}"@),
{
    let n = s.unicode_len();
    if let Some(end) = expect_lit(s, pos, "}") {
        if end == n {
            proof {
                assert(s@.skip(pos as int).take("}"@.len() as int) == "}"@);
                assert(s@.skip(pos as int).len() == "}"@.len());
                assert(s@.skip(pos as int) =~= s@.skip(pos as int).take("}"@.len() as int));
            }
            true
        } else {
            proof {
                assert(s@.skip(pos as int).len() != "}"@.len());
            }
            false
        }
    } else {
        proof {
            if s@.skip(pos as int) == "}"@ {
                lemma_starts_with_self(s@.skip(pos as int), "}"@);
            }
        }
        false
    }
}

/// Reads one whole incoming message, dispatching strictly on its outer
/// JSON key: the typed message, or why the text was refused.
pub fn parse_server_message(s: &str) -> (r: Result<ServerMessage, ProtocolError>)
    ensures
        match r {
            Ok(m) => spec_parse_server_message(s@) == Ok::<SpecServerMessage, ProtocolError>(m@),
            Err(e) => spec_parse_server_message(s@) == Err::<SpecServerMessage, ProtocolError>(e),
        },
{
    let n = s.unicode_len();
    proof {
        assert(s@.skip(0) =~= s@);
    }
    if let Some(p) = expect_lit(s, 0, "{\"RegisterTeamResult\":") {
        proof {
            lemma_skip_skip(s@, 0, "{\"RegisterTeamResult\":"@.len() as int);
        }
        match parse_register_team_result_at(s, p) {
            Some((m, q)) => {
                if closes_at(s, q) {
                    Ok(ServerMessage::RegisterTeamResult(m))
                } else {
                    Err(ProtocolError::MalformedJson)
                }
            },
            None => Err(ProtocolError::MalformedJson),
        }
    } else if let Some(p) = expect_lit(s, 0, "{\"SubscribePlayerResult\":") {
        proof {
            lemma_skip_skip(s@, 0, "{\"SubscribePlayerResult\":"@.len() as int);
        }
        match parse_subscribe_player_result_at(s, p) {
            Some((m, q)) => {
                if closes_at(s, q) {
                    Ok(ServerMessage::SubscribePlayerResult(m))
                } else {
                    Err(ProtocolError::MalformedJson)
                }
            },
            None => Err(ProtocolError::MalformedJson),
        }
    } else if let Some(p) = expect_lit(s, 0, "{\"RadarView\":") {
        proof {
            lemma_skip_skip(s@, 0, "{\"RadarView\":"@.len() as int);
        }
        match parse_string_at(s, p) {
            Some((tok, q)) => {
                if closes_at(s, q) {
                    Ok(ServerMessage::RadarView(tok))
                } else {
                    Err(ProtocolError::MalformedJson)
                }
            },
            None => Err(ProtocolError::MalformedJson),
        }
    } else if let Some(p) = expect_lit(s, 0, "{\"Hint\":") {
        if n - p < 2 {
            return Err(ProtocolError::MalformedJson);
        }
        if s.get_char(n - 1) != '}' {
            return Err(ProtocolError::MalformedJson);
        }
        let raw = s.substring_char(p, n - 1);
        Ok(ServerMessage::Hint(raw.to_owned()))
    } else if let Some(p) = expect_lit(s, 0, "{\"Challenge\":") {
        proof {
            lemma_skip_skip(s@, 0, "{\"Challenge\":"@.len() as int);
        }
        let mut is_sos = false;
        if let Some(q) = expect_lit(s, p, "\"SOS\"}") {
            if q == n {
                proof {
                    let s1 = s@.skip(p as int);
                    assert(s1.take("\"SOS\"}"@.len() as int) == "\"SOS\"}"@);
                    assert(s1.len() == "\"SOS\"}"@.len());
                    assert(s1 =~= s1.take("\"SOS\"}"@.len() as int));
                }
                is_sos = true;
            }
        }
        if is_sos {
            return Ok(ServerMessage::Challenge(Challenge::Sos));
        }
        proof {
            if s@.skip(p as int) == "\"SOS\"}"@ {
                lemma_starts_with_self(s@.skip(p as int), "\"SOS\"}"@);
            }
        }
        match parse_u64_at(s, p) {
            Some((v, q)) => {
                if closes_at(s, q) {
                    Ok(ServerMessage::Challenge(Challenge::SecretSumModulo(v)))
                } else {
                    Err(ProtocolError::MalformedJson)
                }
            },
            None => Err(ProtocolError::MalformedJson),
        }
    } else if let Some(p) = expect_lit(s, 0, "{\"ActionError\":") {
        proof {
            lemma_skip_skip(s@, 0, "{\"ActionError\":"@.len() as int);
        }
        match parse_string_at(s, p) {
            Some((name, q)) => {
                if closes_at(s, q) {
                    match action_error_of(name.as_str()) {
                        Some(e) => Ok(ServerMessage::ActionError(e)),
                        None => Err(ProtocolError::MalformedJson),
                    }
                } else {
                    Err(ProtocolError::MalformedJson)
                }
            },
            None => Err(ProtocolError::MalformedJson),
        }
    } else {
        Err(ProtocolError::UnrecognizedTag)
    }
}

/// Reads a registration outcome in its envelope, as the registration
/// exchange expects it; any other recognized message is refused as an
/// unrecognized tag for this exchange.
pub fn parse_register_team_result(s: &str) -> (r: Result<RegisterTeamResultWrapper, ProtocolError>)
    ensures
        match r {
            Ok(w) => spec_parse_server_message(s@) == Ok::<SpecServerMessage, ProtocolError>(
                SpecServerMessage::RegisterTeamResult(w.register_team_result@),
            ),
            Err(e) => match spec_parse_server_message(s@) {
                Ok(m) => !(m is RegisterTeamResult) && e == ProtocolError::UnrecognizedTag,
                Err(e2) => e == e2,
            },
        },
{
    match parse_server_message(s) {
        Ok(ServerMessage::RegisterTeamResult(m)) => Ok(
            RegisterTeamResultWrapper { register_team_result: m },
        ),
        Ok(_) => Err(ProtocolError::UnrecognizedTag),
        Err(e) => Err(e),
    }
}

} // verus!

verus! {

/// A sequence that differs from `p` at some position is not prefixed by
/// `p`.
proof fn lemma_not_starts_with_at(s: Seq<char>, p: Seq<char>, k: int)
    requires
        0 <= k < p.len(),
        k < s.len(),
        s[k] != p[k],
    ensures
        !starts_with(s, p),
{
    if starts_with(s, p) {
        assert(s.take(p.len() as int)[k] == s[k]);
    }
}

/// Registration outcome round trip: the envelope the writer emits for any
/// registration outcome reads back as exactly that outcome.
pub proof fn lemma_register_team_result_wire_round_trip(m: SpecRegisterTeamResult)
    ensures
        spec_parse_server_message(register_team_result_json(m)) == Ok::<
            SpecServerMessage,
            ProtocolError,
        >(SpecServerMessage::RegisterTeamResult(m)),
{
    let key = "{\"RegisterTeamResult\":"@;
    let payload = register_team_result_payload_json(m);
    let s = register_team_result_json(m);
    let p = payload + "}"@;
    assert(s =~= key + p);
    lemma_concat_parts(key, p);
    let lit_ok = "{\"Ok\":{\"expected_players\":"@;
    let lit_tok = ",\"registration_token\":"@;
    match m {
        SpecRegisterTeamResult::Accepted { expected_players, registration_token } => {
            let v = expected_players;
            let tok = registration_token;
            let after_str = "}}"@ + "}"@;
            let rest2 = lit_tok + (json_string(tok) + after_str);
            let rest1 = u64_dec(v as u64) + rest2;
            assert(p =~= lit_ok + rest1);
            lemma_concat_parts(lit_ok, rest1);
            proof_of_token_lit_head();
            crate::json::lemma_u64_dec_parse_small(v as u64, rest2);
            lemma_concat_parts(lit_tok, json_string(tok) + after_str);
            crate::json::lemma_json_string_round_trip(tok, after_str);
            lemma_concat_parts("}}"@, "}"@);
            assert(spec_parse_register_team_result(p) == Option::Some(
                (SpecRegisterTeamResult::Accepted { expected_players, registration_token }, "}"@),
            ));
        },
        SpecRegisterTeamResult::Rejected { reason } => {
            let lit_err = "{\"Err\":"@;
            let after_str = "}"@ + "}"@;
            let rest1 = json_string(reason) + after_str;
            assert(p =~= lit_err + rest1);
            lemma_concat_parts(lit_err, rest1);
            reveal_strlit("{\"Ok\":{\"expected_players\":");
            reveal_strlit("{\"Err\":");
            assert(p[2] == lit_err[2] && lit_err[2] == 'E' && lit_ok[2] == 'O');
            lemma_not_starts_with_at(p, lit_ok, 2);
            crate::json::lemma_json_string_round_trip(reason, after_str);
            lemma_concat_parts("}"@, "}"@);
            assert(spec_parse_register_team_result(p) == Option::Some(
                (SpecRegisterTeamResult::Rejected { reason }, "}"@),
            ));
        },
    }
}

/// The subscription-token literal begins with a comma, which is no digit,
/// so a number before it ends exactly there.
proof fn proof_of_token_lit_head()
    ensures
        ",\"registration_token\":"@.len() > 0,
        !crate::json::is_digit(",\"registration_token\":"@[0]),
{
    reveal_strlit(",\"registration_token\":");
}

/// Subscription outcome round trip: the envelope the writer emits for any
/// subscription outcome reads back as exactly that outcome.
pub proof fn lemma_subscribe_player_result_wire_round_trip(m: SpecSubscribePlayerResult)
    ensures
        spec_parse_server_message(subscribe_player_result_json(m)) == Ok::<
            SpecServerMessage,
            ProtocolError,
        >(SpecServerMessage::SubscribePlayerResult(m)),
{
    let key = "{\"SubscribePlayerResult\":"@;
    let key_rtr = "{\"RegisterTeamResult\":"@;
    let payload = subscribe_player_result_payload_json(m);
    let s = subscribe_player_result_json(m);
    let p = payload + "}"@;
    assert(s =~= key + p);
    lemma_concat_parts(key, p);
    reveal_strlit("{\"SubscribePlayerResult\":");
    reveal_strlit("{\"RegisterTeamResult\":");
    assert(s[2] == key[2] && key[2] == 'S' && key_rtr[2] == 'R');
    lemma_not_starts_with_at(s, key_rtr, 2);
    let lit_okq = "\"Ok\""@;
    let lit_err = "{\"Err\":"@;
    match m {
        SpecSubscribePlayerResult::Accepted => {
            assert(p =~= lit_okq + "}"@);
            lemma_concat_parts(lit_okq, "}"@);
            assert(spec_parse_subscribe_player_result(p) == Option::Some(
                (SpecSubscribePlayerResult::Accepted, "}"@),
            ));
        },
        SpecSubscribePlayerResult::Rejected { reason } => {
            let after_str = "}"@ + "}"@;
            let rest1 = json_string(reason) + after_str;
            assert(p =~= lit_err + rest1);
            lemma_concat_parts(lit_err, rest1);
            reveal_strlit("\"Ok\"");
            reveal_strlit("{\"Err\":");
            assert(p[0] == lit_err[0] && lit_err[0] == '{' && lit_okq[0] == '"');
            lemma_not_starts_with_at(p, lit_okq, 0);
            crate::json::lemma_json_string_round_trip(reason, after_str);
            lemma_concat_parts("}"@, "}"@);
            assert(spec_parse_subscribe_player_result(p) == Option::Some(
                (SpecSubscribePlayerResult::Rejected { reason }, "}"@),
            ));
        },
    }
}

} // verus!

verus! {

/// The wire name of every move rejection kind is plain text: no quote, no
/// backslash, no control character.
proof fn lemma_action_error_name_plain(e: ActionError)
    ensures
        forall|k: int|
            0 <= k < action_error_name(e).len() ==> #[trigger] action_error_name(e)[k] != '"'
                && action_error_name(e)[k] != '\\' && !crate::json::is_ctl(action_error_name(e)[k]),
{
    reveal_strlit("CannotPassThroughWall");
    reveal_strlit("CannotPassThroughOpponent");
    reveal_strlit("NoRunningChallenge");
    reveal_strlit("SolveChallengeFirst");
    reveal_strlit("InvalidChallengeSolution");
}

/// Move rejection round trip: the envelope the writer emits for any
/// rejection kind reads back as exactly that kind.
pub proof fn lemma_action_error_wire_round_trip(e: ActionError)
    ensures
        spec_parse_server_message(action_error_json(e)) == Ok::<
            SpecServerMessage,
            ProtocolError,
        >(SpecServerMessage::ActionError(e)),
{
    let name = action_error_name(e);
    let key = "{\"ActionError\":"@;
    let s = action_error_json(e);
    lemma_action_error_name_plain(e);
    crate::json::lemma_json_escaped_plain(name);
    reveal_strlit("{\"ActionError\":\"");
    reveal_strlit("{\"ActionError\":");
    reveal_strlit("\"}");
    reveal_strlit("}");
    assert(s =~= key + (json_string(name) + "}"@));
    lemma_concat_parts(key, json_string(name) + "}"@);
    reveal_strlit("{\"RegisterTeamResult\":");
    reveal_strlit("{\"SubscribePlayerResult\":");
    reveal_strlit("{\"RadarView\":");
    reveal_strlit("{\"Hint\":");
    reveal_strlit("{\"Challenge\":");
    assert(s[2] == 'A');
    lemma_not_starts_with_at(s, "{\"RegisterTeamResult\":"@, 2);
    lemma_not_starts_with_at(s, "{\"SubscribePlayerResult\":"@, 2);
    lemma_not_starts_with_at(s, "{\"RadarView\":"@, 2);
    lemma_not_starts_with_at(s, "{\"Hint\":"@, 2);
    lemma_not_starts_with_at(s, "{\"Challenge\":"@, 2);
    crate::json::lemma_json_string_round_trip(name, "}"@);
    reveal_strlit("CannotPassThroughWall");
    reveal_strlit("CannotPassThroughOpponent");
    reveal_strlit("NoRunningChallenge");
    reveal_strlit("SolveChallengeFirst");
    reveal_strlit("InvalidChallengeSolution");
    assert(spec_action_error_of(name) == Option::Some(e));
}

} // verus!
