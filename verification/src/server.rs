//! The demonstration server's responder.
//!
//! One request frame in, one response frame out: a registration request is
//! granted with the configured player count and token, a subscription is
//! accepted, and anything else is answered with an error envelope. The
//! request is recognized by its outer JSON key alone.

use vstd::prelude::*;
use crate::json::{starts_with, expect_lit, json_string, append_json_string, append_str};
use crate::messages::{
    RegisterTeamResult, RegisterTeamResultOk, SubscribePlayerResult, SpecRegisterTeamResult,
    SpecSubscribePlayerResult, register_team_result_json, subscribe_player_result_json,
    serialize_register_team_result, serialize_subscribe_player_result,
};
use crate::parse::{
    spec_parse_server_message, SpecServerMessage, ProtocolError,
    lemma_register_team_result_wire_round_trip, lemma_subscribe_player_result_wire_round_trip,
};

verus! {

/// The response the demonstration server gives to one request: a granted
/// registration, an accepted subscription, or an error envelope for
/// anything else.
pub open spec fn spec_server_response(
    msg: Seq<char>,
    expected_players: u8,
    registration_token: Seq<char>,
) -> Seq<char> {
    if starts_with(msg, "{\"RegisterTeam\":"@) {
        register_team_result_json(
            SpecRegisterTeamResult::Accepted { expected_players, registration_token },
        )
    } else if starts_with(msg, "{\"SubscribePlayer\":"@) {
        subscribe_player_result_json(SpecSubscribePlayerResult::Accepted)
    } else {
        "{\"ActionError\":"@ + json_string("Unknown message"@) + "}"@
    }
}

/// Answers one request with the configured player count and token,
/// recognizing the request by its outer JSON key alone.
pub fn server_response(msg: &str, expected_players: u8, registration_token: &str) -> (r: String)
    ensures
        r@ == spec_server_response(msg@, expected_players, registration_token@),
{
    proof {
        assert(msg@.skip(0) =~= msg@);
    }
    if let Some(_p) = expect_lit(msg, 0, "{\"RegisterTeam\":") {
        serialize_register_team_result(
            &RegisterTeamResult::OkVariant {
                ok: RegisterTeamResultOk {
                    expected_players,
                    registration_token: registration_token.to_owned(),
                },
            },
        )
    } else if let Some(_p) = expect_lit(msg, 0, "{\"SubscribePlayer\":") {
        serialize_subscribe_player_result(&SubscribePlayerResult::Accepted)
    } else {
        let mut out = String::new();
        append_str(&mut out, "{\"ActionError\":");
        append_json_string(&mut out, "Unknown message");
        append_str(&mut out, "}");
        proof {
            assert(out@ =~= "{\"ActionError\":"@ + json_string("Unknown message"@) + "}"@);
        }
        out
    }
}

} // verus!

verus! {

/// The client understands the server: the reply to a registration request
/// reads back as the granted registration with the configured player
/// count and token, and the reply to a subscription request reads back as
/// an accepted subscription.
pub proof fn lemma_server_reply_understood(
    msg: Seq<char>,
    expected_players: u8,
    registration_token: Seq<char>,
)
    ensures
        starts_with(msg, "{\"RegisterTeam\":"@) ==> spec_parse_server_message(
            spec_server_response(msg, expected_players, registration_token),
        ) == Ok::<SpecServerMessage, ProtocolError>(
            SpecServerMessage::RegisterTeamResult(
                SpecRegisterTeamResult::Accepted { expected_players, registration_token },
            ),
        ),
        !starts_with(msg, "{\"RegisterTeam\":"@) && starts_with(msg, "{\"SubscribePlayer\":"@)
            ==> spec_parse_server_message(
            spec_server_response(msg, expected_players, registration_token),
        ) == Ok::<SpecServerMessage, ProtocolError>(
            SpecServerMessage::SubscribePlayerResult(SpecSubscribePlayerResult::Accepted),
        ),
{
    lemma_register_team_result_wire_round_trip(
        SpecRegisterTeamResult::Accepted { expected_players, registration_token },
    );
    lemma_subscribe_player_result_wire_round_trip(SpecSubscribePlayerResult::Accepted);
}

} // verus!
