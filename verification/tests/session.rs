use maze_protocol::messages::{
    ActionError, RegisterTeamResult, RegisterTeamResultOk, SubscribePlayerResult,
};
use maze_protocol::parse::ServerMessage;
use maze_protocol::session::{SessionEvent, SessionPhase, TeamSession};

fn fresh_session() -> TeamSession {
    TeamSession::new(
        "127.0.0.1:8778".to_string(),
        "the_team".to_string(),
        vec!["alice".to_string(), "bob".to_string(), "carol".to_string()],
    )
}

fn registered_session() -> TeamSession {
    let mut s = fresh_session();
    s.start_connect();
    let register = s.on_connected().unwrap();
    assert_eq!(register, "{\"RegisterTeam\":{\"name\":\"the_team\"}}");
    let events = s.on_register_result(RegisterTeamResult::OkVariant {
        ok: RegisterTeamResultOk {
            expected_players: 3,
            registration_token: "demo-token-123".to_string(),
        },
    });
    assert!(events.is_empty());
    assert_eq!(s.phase, SessionPhase::AwaitingSubscribeResult);
    s
}

#[test]
fn every_subscribed_member_gets_the_identical_token() {
    let mut s = registered_session();
    let mut tokens: Vec<String> = Vec::new();
    for member in ["alice", "bob", "carol"] {
        let msg = s.subscribe_message(member).unwrap();
        assert!(msg.contains("\"registration_token\":\"demo-token-123\""));
        let events =
            s.on_subscribe_result(member.to_string(), SubscribePlayerResult::Accepted);
        assert_eq!(events.len(), 1);
        match &events[0] {
            SessionEvent::RegistrationComplete { member_name, registration_token } => {
                assert_eq!(member_name, member);
                tokens.push(registration_token.clone());
            }
            _ => panic!("expected a completed subscription event"),
        }
    }
    assert!(tokens.iter().all(|t| t == "demo-token-123"));
    assert_eq!(s.phase, SessionPhase::InGame);
    let sess = s.session.as_ref().unwrap();
    assert_eq!(
        sess.subscribed_member_names,
        vec!["alice".to_string(), "bob".to_string(), "carol".to_string()]
    );
    assert_eq!(sess.expected_player_count, 3);
}

#[test]
fn a_rejected_member_does_not_abort_its_siblings() {
    let mut s = registered_session();
    let events = s.on_subscribe_result(
        "alice".to_string(),
        SubscribePlayerResult::Rejected("name taken".to_string()),
    );
    match &events[0] {
        SessionEvent::SubscriptionFailed { member_name, reason } => {
            assert_eq!(member_name, "alice");
            assert_eq!(reason, "name taken");
        }
        _ => panic!("expected a failed subscription event"),
    }
    // The session is unchanged and the next member can still subscribe.
    assert_eq!(s.phase, SessionPhase::AwaitingSubscribeResult);
    let events = s.on_subscribe_result("bob".to_string(), SubscribePlayerResult::Accepted);
    match &events[0] {
        SessionEvent::RegistrationComplete { registration_token, .. } => {
            assert_eq!(registration_token, "demo-token-123")
        }
        _ => panic!("expected a completed subscription event"),
    }
}

#[test]
fn a_refused_registration_terminates_without_retry() {
    let mut s = fresh_session();
    s.start_connect();
    s.on_connected().unwrap();
    let events = s.on_register_result(RegisterTeamResult::ErrVariant {
        err: "no capacity".to_string(),
    });
    assert_eq!(events.len(), 1);
    match &events[0] {
        SessionEvent::RegistrationFailed(reason) => assert_eq!(reason, "no capacity"),
        _ => panic!("expected a failed registration event"),
    }
    assert_eq!(s.phase, SessionPhase::Terminated);
    assert!(s.session.is_none());
    // Nothing more happens on this session.
    assert!(s.on_connected().is_none());
    assert!(s.subscribe_message("alice").is_none());
}

#[test]
fn in_game_pushes_become_events() {
    let mut s = registered_session();
    for member in ["alice", "bob", "carol"] {
        s.on_subscribe_result(member.to_string(), SubscribePlayerResult::Accepted);
    }
    assert_eq!(s.phase, SessionPhase::InGame);
    let events = s.on_push(ServerMessage::RadarView("abcd".to_string()));
    match &events[0] {
        SessionEvent::RadarViewReceived(tok) => assert_eq!(tok, "abcd"),
        _ => panic!("expected a radar event"),
    }
    let events = s.on_push(ServerMessage::ActionError(ActionError::CannotPassThroughWall));
    match &events[0] {
        SessionEvent::ActionErrorReceived(e) => {
            assert_eq!(*e, ActionError::CannotPassThroughWall)
        }
        _ => panic!("expected a move rejection event"),
    }
}

#[test]
fn pushes_outside_the_game_are_ignored() {
    let mut s = registered_session();
    let events = s.on_push(ServerMessage::RadarView("abcd".to_string()));
    assert!(events.is_empty());
}

#[test]
fn closing_destroys_the_registration() {
    let mut s = registered_session();
    s.on_closed();
    assert_eq!(s.phase, SessionPhase::Terminated);
    assert!(s.session.is_none());
}

use maze_protocol::maze_solver::{Direction, LocalView, NavMode};
use maze_protocol::messages::RelativeDirection;
use maze_protocol::session::PlayerSession;

#[test]
fn one_move_per_radar_view_relative_to_facing() {
    let mut p = PlayerSession::new(Direction::East);
    let open_east = LocalView { north: false, east: true, south: false, west: false };
    // Facing east and moving east: straight ahead.
    assert_eq!(p.on_radar_view(&open_east), Some(RelativeDirection::Front));
    assert_eq!(p.facing, Direction::East);
    // Goal east walled, only south open: the walker turns and the move is
    // to the player's right.
    let open_south = LocalView { north: false, east: false, south: true, west: false };
    assert_eq!(p.on_radar_view(&open_south), Some(RelativeDirection::Right));
    assert_eq!(p.facing, Direction::South);
    assert_eq!(p.nav.mode, NavMode::FollowWall);
}

#[test]
fn a_challenge_suspends_navigation_until_solved() {
    let mut p = PlayerSession::new(Direction::East);
    let open = LocalView { north: true, east: true, south: true, west: true };
    p.on_challenge();
    let nav_before = p.nav;
    assert_eq!(p.on_radar_view(&open), None);
    assert_eq!(p.nav, nav_before);
    p.on_challenge_solved();
    assert_eq!(p.on_radar_view(&open), Some(RelativeDirection::Front));
}

#[test]
fn enclosed_view_sends_no_move() {
    let mut p = PlayerSession::new(Direction::North);
    let closed = LocalView { north: false, east: false, south: false, west: false };
    assert_eq!(p.on_radar_view(&closed), None);
    assert_eq!(p.facing, Direction::North);
}
