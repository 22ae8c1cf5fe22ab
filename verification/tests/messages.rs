use maze_protocol::messages::{
    serialize_action, serialize_action_error, serialize_register_team,
    serialize_register_team_result, serialize_subscribe_player, serialize_subscribe_player_result,
    Action, ActionError, Challenge, RegisterTeamResult, RegisterTeamResultOk, RelativeDirection,
    SubscribePlayerResult,
};
use maze_protocol::parse::{
    parse_register_team_result, parse_server_message, ProtocolError, ServerMessage,
};
use maze_protocol::server::server_response;

#[test]
fn register_team_wire_form() {
    assert_eq!(
        serialize_register_team("curious_broccoli"),
        "{\"RegisterTeam\":{\"name\":\"curious_broccoli\"}}"
    );
}

#[test]
fn subscribe_player_wire_form() {
    assert_eq!(
        serialize_subscribe_player("alice", "demo-token-123"),
        "{\"SubscribePlayer\":{\"name\":\"alice\",\"registration_token\":\"demo-token-123\"}}"
    );
}

#[test]
fn action_wire_forms() {
    assert_eq!(
        serialize_action(&Action::MoveTo(RelativeDirection::Front)),
        "{\"Action\":{\"MoveTo\":\"Front\"}}"
    );
    assert_eq!(
        serialize_action(&Action::MoveTo(RelativeDirection::Left)),
        "{\"Action\":{\"MoveTo\":\"Left\"}}"
    );
    assert_eq!(
        serialize_action(&Action::SolveChallenge { answer: "42".to_string() }),
        "{\"Action\":{\"SolveChallenge\":{\"answer\":\"42\"}}}"
    );
}

#[test]
fn string_escaping_in_wire_forms() {
    assert_eq!(
        serialize_register_team("a\"b\\c\nd\te\rf"),
        "{\"RegisterTeam\":{\"name\":\"a\\\"b\\\\c\\nd\\te\\rf\"}}"
    );
    // Other control characters become four-digit escapes.
    assert_eq!(
        serialize_register_team("x\u{01}y\u{1f}"),
        "{\"RegisterTeam\":{\"name\":\"x\\u0001y\\u001f\"}}"
    );
    // Characters beyond ASCII travel raw.
    assert_eq!(
        serialize_register_team("équipe"),
        "{\"RegisterTeam\":{\"name\":\"équipe\"}}"
    );
}

#[test]
fn parse_register_team_result_accepted() {
    let text =
        "{\"RegisterTeamResult\":{\"Ok\":{\"expected_players\":3,\"registration_token\":\"demo-token-123\"}}}";
    let w = parse_register_team_result(text).unwrap();
    match w.register_team_result {
        RegisterTeamResult::OkVariant { ok } => {
            assert_eq!(ok.expected_players, 3);
            assert_eq!(ok.registration_token, "demo-token-123");
        }
        RegisterTeamResult::ErrVariant { .. } => panic!("expected the Ok variant"),
    }
}

#[test]
fn parse_register_team_result_rejected() {
    let text = "{\"RegisterTeamResult\":{\"Err\":\"team already exists\"}}";
    let w = parse_register_team_result(text).unwrap();
    match w.register_team_result {
        RegisterTeamResult::ErrVariant { err } => assert_eq!(err, "team already exists"),
        RegisterTeamResult::OkVariant { .. } => panic!("expected the Err variant"),
    }
}

#[test]
fn register_team_result_survives_its_own_wire_form() {
    let outcome = RegisterTeamResult::OkVariant {
        ok: RegisterTeamResultOk {
            expected_players: 7,
            registration_token: "to\"ken\\x".to_string(),
        },
    };
    let text = serialize_register_team_result(&outcome);
    let w = parse_register_team_result(&text).unwrap();
    match w.register_team_result {
        RegisterTeamResult::OkVariant { ok } => {
            assert_eq!(ok.expected_players, 7);
            assert_eq!(ok.registration_token, "to\"ken\\x");
        }
        RegisterTeamResult::ErrVariant { .. } => panic!("expected the Ok variant"),
    }
}

#[test]
fn parse_subscribe_player_result_forms() {
    match parse_server_message("{\"SubscribePlayerResult\":\"Ok\"}").unwrap() {
        ServerMessage::SubscribePlayerResult(SubscribePlayerResult::Accepted) => {}
        _ => panic!("expected an accepted subscription"),
    }
    match parse_server_message("{\"SubscribePlayerResult\":{\"Err\":\"bad token\"}}").unwrap() {
        ServerMessage::SubscribePlayerResult(SubscribePlayerResult::Rejected(reason)) => {
            assert_eq!(reason, "bad token")
        }
        _ => panic!("expected a rejected subscription"),
    }
    let text = serialize_subscribe_player_result(&SubscribePlayerResult::Accepted);
    assert_eq!(text, "{\"SubscribePlayerResult\":\"Ok\"}");
}

#[test]
fn parse_radar_view_token() {
    match parse_server_message("{\"RadarView\":\"sgvSBg8Sifa\"}").unwrap() {
        ServerMessage::RadarView(tok) => assert_eq!(tok, "sgvSBg8Sifa"),
        _ => panic!("expected a radar view"),
    }
}

#[test]
fn outer_key_separates_hint_from_challenge() {
    // The payloads are identical; only the outer key tells the two apart.
    match parse_server_message("{\"Hint\":123456}").unwrap() {
        ServerMessage::Hint(raw) => assert_eq!(raw, "123456"),
        _ => panic!("expected a hint"),
    }
    match parse_server_message("{\"Challenge\":123456}").unwrap() {
        ServerMessage::Challenge(Challenge::SecretSumModulo(n)) => assert_eq!(n, 123456),
        _ => panic!("expected a challenge"),
    }
}

#[test]
fn parse_challenge_sos() {
    match parse_server_message("{\"Challenge\":\"SOS\"}").unwrap() {
        ServerMessage::Challenge(Challenge::Sos) => {}
        _ => panic!("expected the distress challenge"),
    }
}

#[test]
fn parse_action_error_kinds() {
    let kinds = [
        ActionError::CannotPassThroughWall,
        ActionError::CannotPassThroughOpponent,
        ActionError::NoRunningChallenge,
        ActionError::SolveChallengeFirst,
        ActionError::InvalidChallengeSolution,
    ];
    for kind in kinds {
        let text = serialize_action_error(kind);
        match parse_server_message(&text).unwrap() {
            ServerMessage::ActionError(e) => assert_eq!(e, kind),
            _ => panic!("expected a move rejection"),
        }
    }
    assert_eq!(
        serialize_action_error(ActionError::CannotPassThroughWall),
        "{\"ActionError\":\"CannotPassThroughWall\"}"
    );
}

#[test]
fn unknown_outer_key_is_an_unrecognized_tag() {
    assert!(matches!(
        parse_server_message("{\"Gossip\":\"hello\"}"),
        Err(ProtocolError::UnrecognizedTag)
    ));
    assert!(matches!(
        parse_server_message("not json at all"),
        Err(ProtocolError::UnrecognizedTag)
    ));
}

#[test]
fn malformed_payloads_are_refused() {
    assert!(matches!(
        parse_server_message("{\"RadarView\":\"unterminated}"),
        Err(ProtocolError::MalformedJson)
    ));
    assert!(matches!(
        parse_server_message("{\"RadarView\":\"tok\"} trailing"),
        Err(ProtocolError::MalformedJson)
    ));
    assert!(matches!(
        parse_server_message("{\"ActionError\":\"NoSuchKind\"}"),
        Err(ProtocolError::MalformedJson)
    ));
    assert!(matches!(
        parse_server_message("{\"RegisterTeamResult\":{\"Ok\":{\"expected_players\":999,\"registration_token\":\"t\"}}}"),
        Err(ProtocolError::MalformedJson)
    ));
}

#[test]
fn server_answers_by_outer_key() {
    let reply = server_response(
        "{\"RegisterTeam\":{\"name\":\"the_team\"}}",
        3,
        "demo-token-123",
    );
    assert_eq!(
        reply,
        "{\"RegisterTeamResult\":{\"Ok\":{\"expected_players\":3,\"registration_token\":\"demo-token-123\"}}}"
    );
    assert_eq!(
        server_response("{\"SubscribePlayer\":{\"name\":\"a\",\"registration_token\":\"t\"}}", 3, "t"),
        "{\"SubscribePlayerResult\":\"Ok\"}"
    );
    assert_eq!(
        server_response("{\"Gossip\":1}", 3, "t"),
        "{\"ActionError\":\"Unknown message\"}"
    );
}
