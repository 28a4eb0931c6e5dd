use squelch::backend::{handle_signaling_event, BackendCore, BackendAction, BackendCmd, BackendState, JoinOutcome};
use squelch::signaling::{disband_message, SdpMessage, SignalingEvent};

fn logged_in() -> BackendCore {
    let mut b = BackendCore::new();
    b.start_command(BackendCmd::Login { homeserver: "h".into(), username: "u".into(), password: "p".into() });
    b.finish_login(Ok("@u:h".into()));
    b
}

#[test]
fn starts_not_connected() {
    let b = BackendCore::new();
    assert_eq!(b.state.status, "Not connected");
    assert!(!b.state.logged_in);
    assert!(b.state.error.is_none());
}

#[test]
fn login_flow() {
    let mut b = BackendCore::new();
    let act = b.start_command(BackendCmd::Login { homeserver: "https://h".into(), username: "u".into(), password: "pw".into() });
    assert!(matches!(act, BackendAction::Login { ref homeserver, .. } if homeserver == "https://h"));
    assert_eq!(b.state.status, "Logging in to Matrix…");
    b.finish_login(Ok("@u:h".into()));
    assert_eq!(b.state.status, "Logged in as @u:h");
    assert!(b.state.logged_in);
    assert_eq!(b.state.user_id.as_deref(), Some("@u:h"));
    assert!(b.has_client);
}

#[test]
fn login_failure_sets_error() {
    let mut b = BackendCore::new();
    b.start_command(BackendCmd::Login { homeserver: "h".into(), username: "u".into(), password: "p".into() });
    b.finish_login(Err("login failed: bad password".into()));
    assert_eq!(b.state.error.as_deref(), Some("Login failed: login failed: bad password"));
    assert_eq!(b.state.status, "Error");
    assert!(!b.state.logged_in);
}

#[test]
fn room_commands_need_login() {
    let mut b = BackendCore::new();
    let act = b.start_command(BackendCmd::CreateRoom { name: "x".into() });
    assert!(matches!(act, BackendAction::Nothing));
    assert_eq!(b.state.error.as_deref(), Some("Not logged in."));
    let act = b.start_command(BackendCmd::JoinRoom { room_id: "!r:h".into() });
    assert!(matches!(act, BackendAction::Nothing));
    assert_eq!(b.state.status, "Error");
    let act = b.start_command(BackendCmd::DisbandSquad);
    assert!(matches!(act, BackendAction::Nothing));
    assert_eq!(b.state.error.as_deref(), Some("Not in a squad room."));
    // leaving without a session does nothing, but clears the error
    let act = b.start_command(BackendCmd::LeaveSession);
    assert!(matches!(act, BackendAction::Nothing));
    assert!(b.state.error.is_none());
}

#[test]
fn create_then_leave() {
    let mut b = logged_in();
    let act = b.start_command(BackendCmd::CreateRoom { name: "Squelch — u".into() });
    assert!(matches!(act, BackendAction::CreateRoom { .. }));
    assert_eq!(b.state.status, "Creating squad room…");
    b.finish_create(Ok("!abc:h".into()));
    assert_eq!(b.state.room_id.as_deref(), Some("!abc:h"));
    assert_eq!(b.state.status, "Room ready — share ID: !abc:h");
    let act = b.start_command(BackendCmd::LeaveSession);
    assert!(matches!(act, BackendAction::LeaveRoom { ref room_id } if room_id == "!abc:h"));
    assert_eq!(b.state.status, "Leaving session…");
    b.finish_leave();
    assert!(b.state.room_id.is_none());
    assert!(b.room.is_none());
    assert_eq!(b.state.status, "Left session. Room still exists.");
}

#[test]
fn join_outcomes() {
    let mut b = logged_in();
    b.start_command(BackendCmd::JoinRoom { room_id: "garbage".into() });
    assert_eq!(b.state.status, "Joining squad room…");
    b.finish_join(JoinOutcome::InvalidRoomId);
    assert_eq!(b.state.error.as_deref(), Some("Invalid room ID format."));
    b.start_command(BackendCmd::JoinRoom { room_id: "!r:h".into() });
    assert!(b.state.error.is_none());
    b.finish_join(JoinOutcome::Failed("room error: forbidden".into()));
    assert_eq!(b.state.error.as_deref(), Some("Could not join room: room error: forbidden"));
    b.start_command(BackendCmd::JoinRoom { room_id: "!r:h".into() });
    b.finish_join(JoinOutcome::Joined("!r:h".into()));
    assert_eq!(b.state.status, "Joined squad room.");
    assert_eq!(b.state.room_id.as_deref(), Some("!r:h"));
}

#[test]
fn create_failure_message() {
    let mut b = logged_in();
    b.start_command(BackendCmd::CreateRoom { name: "n".into() });
    b.finish_create(Err("room error: nope".into()));
    assert_eq!(b.state.error.as_deref(), Some("Could not create room: room error: nope"));
    assert!(b.room.is_none());
}

#[test]
fn disband_and_logout() {
    let mut b = logged_in();
    b.finish_join(JoinOutcome::Joined("!r:h".into()));
    let act = b.start_command(BackendCmd::DisbandSquad);
    assert!(matches!(act, BackendAction::FetchMembersForDisband { ref room_id } if room_id == "!r:h"));
    assert_eq!(b.state.status, "Disbanding squad…");
    let me = b.state.user_id.clone().unwrap();
    let members = vec![me.clone(), "@bob:h".to_string(), "@carol:h".to_string()];
    match b.disband_with_members(&members) {
        BackendAction::DisbandRoom { room_id, notices } => {
            assert_eq!(room_id, "!r:h");
            let to: Vec<&str> = notices.iter().map(|n| n.to.as_str()).collect();
            assert_eq!(to, vec!["@bob:h", "@carol:h"]);
            for n in &notices {
                assert_eq!(n.message.event_type, "io.squelch.disband");
                assert_eq!(n.message.content, disband_message("!r:h").content);
                assert!(n.message.content.contains("\"room_id\":\"!r:h\""));
            }
        }
        other => panic!("unexpected {other:?}"),
    }
    b.finish_disband();
    assert_eq!(b.state.status, "Squad disbanded.");
    assert!(b.state.room_id.is_none());
    b.state.audio_active = true;
    let act = b.start_command(BackendCmd::Logout);
    assert!(matches!(act, BackendAction::LogoutClient));
    assert_eq!(b.state.status, "Logged out.");
    assert!(!b.state.logged_in);
    assert!(b.state.audio_active, "the audio pipeline keeps running after logout");
    assert!(b.state.user_id.is_none());
    assert!(!b.has_client);
    let act = b.start_command(BackendCmd::Logout);
    assert!(matches!(act, BackendAction::Nothing));
}

#[test]
fn remote_disband_clears_room() {
    let mut st = BackendState::default();
    st.room_id = Some("!r:h".into());
    st.status = "Joined squad room.".into();
    let offer = SignalingEvent::SdpOffer {
        from: "@b:h".into(),
        payload: SdpMessage { call_id: "c".into(), room_id: "!r:h".into(), sdp: "v=0".into() },
    };
    let leader = Some("@b:h".to_string());
    handle_signaling_event(&offer, &leader, &mut st);
    assert_eq!(st.room_id.as_deref(), Some("!r:h"));
    let ev = SignalingEvent::Disband { from: "@b:h".into(), room_id: "!r:h".into() };
    handle_signaling_event(&ev, &leader, &mut st);
    assert!(st.room_id.is_none());
    assert_eq!(st.status, "Squad disbanded by leader.");
}

#[test]
fn disband_from_non_leader_is_ignored() {
    let mut st = BackendState::default();
    st.room_id = Some("!r:h".into());
    st.status = "Joined squad room.".into();
    let ev = SignalingEvent::Disband { from: "@mallory:h".into(), room_id: "!r:h".into() };
    handle_signaling_event(&ev, &Some("@b:h".to_string()), &mut st);
    assert_eq!(st.room_id.as_deref(), Some("!r:h"));
    assert_eq!(st.status, "Joined squad room.");
    handle_signaling_event(&ev, &None, &mut st);
    assert_eq!(st.room_id.as_deref(), Some("!r:h"));
}

#[test]
fn disband_without_room_does_nothing() {
    let b = logged_in();
    assert!(matches!(b.disband_with_members(&vec!["@x:h".to_string()]), BackendAction::Nothing));
}

#[test]
fn room_only_while_logged_in() {
    let mut b = logged_in();
    b.start_command(BackendCmd::CreateRoom { name: "n".into() });
    b.finish_create(Ok("!r:h".into()));
    assert!(b.state.room_id.is_some() && b.state.logged_in && b.state.user_id.is_some());
    b.start_command(BackendCmd::Logout);
    assert!(b.state.room_id.is_none() && !b.state.logged_in);
}
