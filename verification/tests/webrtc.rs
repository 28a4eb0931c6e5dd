use squelch::mesh::PeerMesh;
use squelch::peer::{IceState, PeerConnection, PeerLoop, PeerRole, WebRtcError};

#[test]
fn peer_connection_creation() {
    let port: u16 = 40000;
    let (conn, _rx) = PeerConnection::new("@alice:example.org".into(), PeerRole::Offerer, [0, 0, 0, 0], port);
    assert_eq!(conn.remote_id, "@alice:example.org");
    assert_eq!(conn.role, PeerRole::Offerer);
    assert!(conn.local_addr().1 > 0, "should have a bound port");
    assert_eq!(conn.local_addr().1, port);
}

#[test]
fn peer_role_offerer_answerer_distinct() {
    assert_ne!(PeerRole::Offerer, PeerRole::Answerer);
}

#[test]
fn accept_answer_without_offer_fails() {
    let (mut conn, _rx) = PeerConnection::new("@bob:example.org".into(), PeerRole::Offerer, [0, 0, 0, 0], 40001);
    let result = conn.accept_answer("v=0\r\n");
    assert!(result.is_err(), "should fail without prior create_offer");
    assert!(result.unwrap_err().message().contains("before create_offer"));
}

#[test]
fn create_offer_produces_valid_sdp() {
    // Bound to 0.0.0.0, which str0m rejects as an ICE host candidate:
    // create_offer returns an Ice error, which is the correct behaviour.
    let (mut conn, _rx) = PeerConnection::new("@carol:example.org".into(), PeerRole::Offerer, [0, 0, 0, 0], 40002);
    let result = conn.create_offer();
    match &result {
        Ok(sdp) => {
            assert!(sdp.starts_with("v=0"), "SDP should start with v=0");
            assert!(sdp.contains("audio"), "SDP should contain audio m-line");
        }
        Err(WebRtcError::Ice(_)) => {}
        Err(e) => panic!("unexpected error: {}", e.message()),
    }
}

#[test]
fn mesh_add_and_count() {
    let mut mesh = PeerMesh::new();
    assert!(mesh.is_empty());

    let _rx = mesh.add_peer("@alice:example.org".into(), PeerRole::Offerer, [0, 0, 0, 0], 41000).unwrap();
    let _rx = mesh.add_peer("@bob:example.org".into(), PeerRole::Answerer, [0, 0, 0, 0], 41001).unwrap();

    assert_eq!(mesh.len(), 2);
    assert!(mesh.get("@alice:example.org").is_some());
    assert!(mesh.get("@unknown:example.org").is_none());
}

#[test]
fn mesh_replaces_connection_to_same_peer() {
    let mut mesh = PeerMesh::default();
    let _a = mesh.add_peer("@alice:x".into(), PeerRole::Offerer, [127, 0, 0, 1], 41002).unwrap();
    let _b = mesh.add_peer("@alice:x".into(), PeerRole::Answerer, [127, 0, 0, 1], 41003).unwrap();
    assert_eq!(mesh.len(), 1);
    let c = mesh.get("@alice:x").unwrap();
    assert_eq!(c.role, PeerRole::Answerer);
    assert_eq!(c.local_addr(), ([127, 0, 0, 1], 41003));
    assert!(mesh.get_mut("@alice:x").is_some());
    assert!(mesh.get_mut("@bob:x").is_none());
}

#[test]
fn create_offer_on_loopback_then_answer_errors() {
    let (mut conn, _rx) = PeerConnection::new("@dave:x".into(), PeerRole::Offerer, [127, 0, 0, 1], 41004);
    let offer = conn.create_offer().expect("loopback is a valid host candidate");
    assert!(offer.starts_with("v=0"));
    assert!(offer.contains("audio"));
    assert!(conn.mid().is_some());
    // A malformed answer uses up the pending offer and fails as SDP error.
    assert!(matches!(conn.accept_answer("garbage"), Err(WebRtcError::Sdp(_))));
    let again = conn.accept_answer("garbage").unwrap_err();
    assert_eq!(again.message(), "SDP error: accept_answer called before create_offer");
}

#[test]
fn offer_answer_between_two_peers() {
    let (mut a, _ra) = PeerConnection::new("@b:x".into(), PeerRole::Offerer, [127, 0, 0, 1], 41005);
    let (mut b, _rb) = PeerConnection::new("@a:x".into(), PeerRole::Answerer, [127, 0, 0, 1], 41006);
    let offer = a.create_offer().unwrap();
    let answer = b.accept_offer(&offer).unwrap();
    assert!(answer.starts_with("v=0"));
    assert!(a.accept_answer(&answer).is_ok());
}

#[test]
fn accept_offer_errors() {
    let (mut z, _r) = PeerConnection::new("@a:x".into(), PeerRole::Answerer, [0, 0, 0, 0], 41007);
    assert!(matches!(z.accept_offer("v=0"), Err(WebRtcError::Ice(_))));
    let (mut b, _r2) = PeerConnection::new("@a:x".into(), PeerRole::Answerer, [127, 0, 0, 1], 41008);
    assert!(matches!(b.accept_offer("not sdp"), Err(WebRtcError::Sdp(_))));
}

#[test]
fn ice_candidates_parse_or_fail() {
    let (mut c, _r) = PeerConnection::new("@a:x".into(), PeerRole::Offerer, [127, 0, 0, 1], 41009);
    assert!(c.add_ice_candidate("candidate:1 1 udp 2113929471 203.0.113.100 10100 typ host").is_ok());
    assert!(matches!(c.add_ice_candidate("nonsense"), Err(WebRtcError::Ice(_))));
}

#[test]
fn host_addresses_refused() {
    for ip in [[169, 254, 1, 1], [255, 255, 255, 255], [224, 0, 0, 1], [239, 1, 2, 3]] {
        let (mut c, _r) = PeerConnection::new("@a:x".into(), PeerRole::Offerer, ip, 41010);
        assert!(matches!(c.create_offer(), Err(WebRtcError::Ice(_))), "{ip:?}");
    }
}

#[test]
fn audio_in_taken_once() {
    let (mut c, _r) = PeerConnection::new("@a:x".into(), PeerRole::Offerer, [127, 0, 0, 1], 41011);
    assert!(c.take_audio_in().is_some());
    assert!(c.take_audio_in().is_none());
}

#[test]
fn run_loop_decisions() {
    let mut l = PeerLoop::new();
    assert!(!l.observe_ice(IceState::Checking));
    assert!(!l.connected);
    assert!(!l.observe_ice(IceState::Connected));
    assert!(l.connected);
    assert!(!l.observe_ice(IceState::Completed));
    assert!(l.connected);
    assert!(l.observe_ice(IceState::Disconnected));
    assert!(!l.connected);
    assert_eq!(l.next_media_time(), 960);
    assert_eq!(l.next_media_time(), 1920);
}

#[test]
fn webrtc_error_messages() {
    assert_eq!(WebRtcError::Ice("x".into()).message(), "ICE error: x");
    assert_eq!(WebRtcError::Codec("x".into()).message(), "codec error: x");
    assert_eq!(WebRtcError::PeerNotFound("p".into()).message(), "peer not found: p");
    assert_eq!(WebRtcError::Str0m("s".into()).message(), "str0m error: s");
    let io = WebRtcError::Io(std::io::Error::other("boom"));
    assert_eq!(io.message(), "I/O error: boom");
}

#[test]
fn run_loop_ends_on_disconnect_or_shutdown() {
    let mut l = PeerLoop::new();
    assert!(l.keep_running(false));
    assert!(!l.keep_running(true));
    l.observe_ice(IceState::Connected);
    assert!(l.keep_running(false));
    l.observe_ice(IceState::Disconnected);
    assert!(!l.keep_running(false));
    l.observe_ice(IceState::Connected);
    assert!(!l.keep_running(false), "a disconnect ends the loop for good");
}

#[test]
fn mesh_stores_connection_bound_to_address() {
    let mut mesh = PeerMesh::new();
    mesh.add_peer("@a:h".into(), PeerRole::Offerer, [10, 0, 0, 5], 40001).unwrap();
    mesh.add_peer("@b:h".into(), PeerRole::Answerer, [10, 0, 0, 5], 40002).unwrap();
    let a = mesh.get("@a:h").unwrap();
    assert_eq!(a.local_addr(), ([10, 0, 0, 5], 40001));
    assert_eq!(a.role, PeerRole::Offerer);
    mesh.add_peer("@a:h".into(), PeerRole::Answerer, [10, 0, 0, 6], 40003).unwrap();
    assert_eq!(mesh.len(), 2);
    let a = mesh.get("@a:h").unwrap();
    assert_eq!(a.local_addr(), ([10, 0, 0, 6], 40003));
    assert_eq!(a.role, PeerRole::Answerer);
    assert_eq!(mesh.get("@b:h").unwrap().local_addr(), ([10, 0, 0, 5], 40002));
}

#[test]
fn mesh_get_mut_changes_only_that_connection() {
    let mut mesh = PeerMesh::new();
    mesh.add_peer("@a:h".into(), PeerRole::Offerer, [0, 0, 0, 0], 40001).unwrap();
    mesh.add_peer("@b:h".into(), PeerRole::Offerer, [0, 0, 0, 0], 40002).unwrap();
    let b = mesh.get_mut("@b:h").unwrap();
    assert!(b.take_audio_in().is_some());
    assert!(mesh.get_mut("@b:h").unwrap().take_audio_in().is_none());
    assert!(mesh.get_mut("@a:h").unwrap().take_audio_in().is_some());
    assert!(mesh.get_mut("@c:h").is_none());
}

#[test]
fn frames_are_taken_only_while_connected_with_a_payload_type() {
    let mut l = PeerLoop::new();
    assert!(l.frame_target(None).is_none());
    l.observe_ice(IceState::Connected);
    assert!(l.frame_target(None).is_none(), "no payload type or audio line yet");
}

#[test]
fn offer_text_starts_with_version_line() {
    let (mut conn, _rx) = PeerConnection::new("@bob:example.org".into(), PeerRole::Offerer, [192, 168, 1, 20], 40100);
    let sdp = conn.create_offer().expect("offer");
    assert!(sdp.starts_with("v=0\r\n"));
    assert!(sdp.contains("m=audio"));
}

#[test]
fn remote_candidate_is_handed_to_the_session() {
    let (mut conn, _rx) = PeerConnection::new("@bob:example.org".into(), PeerRole::Answerer, [192, 168, 1, 30], 40200);
    assert!(conn.add_ice_candidate("candidate:1 1 udp 2130706431 192.168.1.40 40300 typ host").is_ok());
    assert!(matches!(conn.add_ice_candidate("not a candidate"), Err(WebRtcError::Ice(_))));
}
