use squelch::backend::{BackendCmd, BackendState};
use squelch::config::{AppConfig, DEFAULT_PTT_KEY};
use squelch::room::SquadDraft;
use squelch::ui::{
    offers_assign, offers_disband, offers_join, offers_make_leader, offers_remove, RoomActions, Screen, SquelchApp,
};

fn no_actions() -> RoomActions {
    RoomActions {
        create_squad: None,
        join_squad: None,
        leave_squad: false,
        assign_to_squad: None,
        remove_from_squad: None,
        set_leader: None,
        disband_squad: None,
        leave_session: false,
        disband_room: false,
    }
}

fn state(user: Option<&str>, room: Option<&str>, peers: &[&str]) -> BackendState {
    let mut st = BackendState::default();
    st.user_id = user.map(|u| u.to_string());
    st.room_id = room.map(|r| r.to_string());
    st.peers = peers.iter().map(|p| p.to_string()).collect();
    st.logged_in = user.is_some();
    st
}

#[test]
fn default_config() {
    let cfg = AppConfig::default();
    assert_eq!(cfg.homeserver, "https://matrix.org");
    assert_eq!(cfg.username, "");
    assert_eq!(cfg.ptt_key, None);
    assert_eq!(DEFAULT_PTT_KEY, "CapsLock");
}

#[test]
fn new_app_fills_inputs() {
    let app = SquelchApp::new(AppConfig::default());
    assert_eq!(app.screen, Screen::Login);
    assert_eq!(app.homeserver_input, "https://matrix.org");
    assert_eq!(app.ptt_key_input, "CapsLock");
    let mut cfg = AppConfig::default();
    cfg.ptt_key = Some("F1".into());
    cfg.username = "alice".into();
    let app = SquelchApp::new(cfg);
    assert_eq!(app.ptt_key_input, "F1");
    assert_eq!(app.username_input, "alice");
}

#[test]
fn login_panel_and_transition() {
    let mut app = SquelchApp::new(AppConfig::default());
    let mut st = BackendState::default();
    st.status = "Not connected".into();
    let p = app.login_panel(&st);
    assert!(p.error.is_none() && p.status.is_none() && p.sign_in_enabled);
    st.status = "Logging in to Matrix…".into();
    let p = app.login_panel(&st);
    assert_eq!(p.status.as_deref(), Some("Logging in to Matrix…"));
    assert!(!p.sign_in_enabled);
    assert_eq!(app.screen, Screen::Login);
    st.logged_in = true;
    st.status = "Logged in as @a:b".into();
    let p = app.login_panel(&st);
    assert!(p.sign_in_enabled);
    assert_eq!(app.screen, Screen::SquadSetup);
    st.error = Some("Login failed: x".into());
    let p = app.login_panel(&st);
    assert_eq!(p.error.as_deref(), Some("Login failed: x"));
    assert!(p.status.is_none());
}

#[test]
fn do_login_validates_and_trims() {
    let mut app = SquelchApp::new(AppConfig::default());
    app.username_input = "  alice ".into();
    assert!(app.do_login().is_none(), "no password");
    app.password_input = " secret ".into();
    match app.do_login() {
        Some(BackendCmd::Login { homeserver, username, password }) => {
            assert_eq!(homeserver, "https://matrix.org");
            assert_eq!(username, "alice");
            assert_eq!(password, " secret ");
        }
        other => panic!("unexpected: {other:?}"),
    }
    assert_eq!(app.cfg.username, "alice");
    app.homeserver_input = "   ".into();
    assert!(app.do_login().is_none());
}

#[test]
fn setup_panel_and_start() {
    let mut app = SquelchApp::new(AppConfig::default());
    app.screen = Screen::SquadSetup;
    app.cfg.username = "alice".into();
    let st = state(Some("@alice:x"), None, &[]);
    let p = app.setup_panel(&st);
    assert_eq!(p.start_label, "Create Room");
    match app.do_start_squad() {
        Some(BackendCmd::CreateRoom { name }) => assert_eq!(name, "Squelch — alice"),
        other => panic!("unexpected: {other:?}"),
    }
    assert_eq!(app.cfg.ptt_key.as_deref(), Some("CapsLock"));
    app.room_id_input = " !abc:matrix.org ".into();
    assert_eq!(app.setup_panel(&st).start_label, "Join Room");
    match app.do_start_squad() {
        Some(BackendCmd::JoinRoom { room_id }) => assert_eq!(room_id, "!abc:matrix.org"),
        other => panic!("unexpected: {other:?}"),
    }
    app.ptt_key_input = "  ".into();
    assert!(app.do_start_squad().is_none());
    let st = state(Some("@alice:x"), Some("!abc:matrix.org"), &[]);
    app.setup_panel(&st);
    assert_eq!(app.screen, Screen::RoomView);
}

#[test]
fn sign_out_returns_to_login() {
    let mut app = SquelchApp::new(AppConfig::default());
    app.screen = Screen::SquadSetup;
    app.password_input = "pw".into();
    assert!(matches!(app.sign_out(), BackendCmd::Logout));
    assert_eq!(app.screen, Screen::Login);
    assert_eq!(app.password_input, "");
}

#[test]
fn room_view_lobby_and_squads() {
    let mut app = SquelchApp::new(AppConfig::default());
    app.screen = Screen::RoomView;
    let st = state(Some("@me"), Some("!r"), &["@bob", "@carol"]);
    let mut a = no_actions();
    a.create_squad = Some("Alpha".into());
    app.new_squad_name = "Alpha".into();
    app.apply_room_actions(&st, a);
    assert_eq!(app.new_squad_name, "");
    // The creator leads the new squad and is its only member.
    assert_eq!(app.squads[0].members, vec!["@me".to_string()]);
    assert_eq!(app.squads[0].leader.as_deref(), Some("@me"));
    let view = app.room_overview(&st);
    assert_eq!(view.lobby, vec!["@bob".to_string(), "@carol".into()]);
    assert_eq!(view.my_squad_idx, Some(0));
    assert!(view.i_am_leader);

    let mut a = no_actions();
    a.join_squad = Some(0);
    app.apply_room_actions(&st, a);
    let view = app.room_overview(&st);
    assert_eq!(view.my_squad_idx, Some(0));
    assert!(view.i_am_leader);
    assert_eq!(view.lobby, vec!["@bob".to_string(), "@carol".into()]);
    assert!(offers_assign(&view, "@bob"));
    assert!(!offers_assign(&view, "@me"));

    let mut a = no_actions();
    a.assign_to_squad = Some(("@bob".into(), 0));
    app.apply_room_actions(&st, a);
    assert_eq!(app.squads[0].members, vec!["@me".to_string(), "@bob".into()]);
    let view = app.room_overview(&st);
    assert!(offers_make_leader(&view, 0, &app.squads[0], "@bob"));
    assert!(!offers_make_leader(&view, 0, &app.squads[0], "@me"));
    assert!(offers_remove(&view, 0, "@bob"));
    assert!(offers_disband(&app.squads[0], &view));
    assert!(!offers_join(&view, &app.squads[0]));

    let mut a = no_actions();
    a.leave_squad = true;
    app.apply_room_actions(&st, a);
    assert_eq!(app.squads[0].members, vec!["@bob".to_string()]);
    assert_eq!(app.squads[0].leader.as_deref(), Some("@bob"));
    let view = app.room_overview(&st);
    assert!(!view.i_am_leader);
    assert!(!offers_assign(&view, "@carol"));
    assert!(!offers_remove(&view, 0, "@bob"));
    assert!(offers_remove(&view, 0, "@me"));
    assert!(!offers_disband(&app.squads[0], &view));
    assert!(offers_join(&view, &app.squads[0]));
}

#[test]
fn leaving_room_clears_squads() {
    let mut app = SquelchApp::new(AppConfig::default());
    app.screen = Screen::RoomView;
    app.room_id_input = "!r".into();
    app.squads = vec![SquadDraft { name: "A".into(), members: vec!["@me".into()], leader: Some("@me".into()) }];
    let st = state(Some("@me"), Some("!r"), &[]);
    let mut a = no_actions();
    a.leave_session = true;
    let cmds = app.apply_room_actions(&st, a);
    assert_eq!(cmds.len(), 1);
    assert!(matches!(cmds[0], BackendCmd::LeaveSession));
    assert!(app.squads.is_empty());
    assert_eq!(app.screen, Screen::SquadSetup);
    assert_eq!(app.room_id_input, "");
}

#[test]
fn remote_disband_leaves_room_view() {
    let mut app = SquelchApp::new(AppConfig::default());
    app.screen = Screen::RoomView;
    app.squads = vec![SquadDraft { name: "A".into(), members: vec![], leader: None }];
    let st = state(Some("@me"), None, &[]);
    let cmds = app.apply_room_actions(&st, no_actions());
    assert!(cmds.is_empty());
    assert!(app.squads.is_empty());
    assert_eq!(app.screen, Screen::SquadSetup);
}

#[test]
fn disband_room_command_and_squad_disband() {
    let mut app = SquelchApp::new(AppConfig::default());
    app.screen = Screen::RoomView;
    app.squads = vec![
        SquadDraft { name: "A".into(), members: vec!["@me".into()], leader: Some("@me".into()) },
        SquadDraft { name: "B".into(), members: vec![], leader: None },
    ];
    let st = state(Some("@me"), Some("!r"), &[]);
    let mut a = no_actions();
    a.disband_squad = Some(0);
    app.apply_room_actions(&st, a);
    assert_eq!(app.squads.len(), 1);
    assert_eq!(app.squads[0].name, "B");
    let mut a = no_actions();
    a.disband_room = true;
    let cmds = app.apply_room_actions(&st, a);
    assert!(matches!(cmds[..], [BackendCmd::DisbandSquad]));
    assert!(app.squads.is_empty());
}

#[test]
fn create_uses_trimmed_name_and_refuses_unusable_ones() {
    let mut app = SquelchApp::new(AppConfig::default());
    app.screen = Screen::RoomView;
    let st = state(Some("@me"), Some("!r"), &[]);
    app.new_squad_name = "  Alpha \t".into();
    let mut a = no_actions();
    a.create_squad = Some("  Alpha \t".into());
    app.apply_room_actions(&st, a);
    assert_eq!(app.squads.len(), 1);
    assert_eq!(app.squads[0].name, "Alpha");
    assert_eq!(app.new_squad_name, "");

    app.new_squad_name = " Alpha".into();
    let mut a = no_actions();
    a.create_squad = Some(" Alpha".into());
    app.apply_room_actions(&st, a);
    assert_eq!(app.squads.len(), 1, "a taken name creates nothing");
    assert_eq!(app.new_squad_name, " Alpha");

    let mut a = no_actions();
    a.create_squad = Some("   ".into());
    app.apply_room_actions(&st, a);
    assert_eq!(app.squads.len(), 1, "a blank name creates nothing");
}
