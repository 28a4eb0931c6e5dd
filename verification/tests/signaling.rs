use squelch::signaling::{
    classify_to_device, disband_message, ice_candidate_message, sdp_answer_message, sdp_offer_message,
    IceCandidate, SdpMessage, SignalingEvent, CALL_MEMBER, DISBAND, ICE_CANDIDATE, SDP_ANSWER, SDP_OFFER,
};

#[test]
fn sdp_message_roundtrip() {
    let msg = SdpMessage {
        call_id: "test-call-1".into(),
        room_id: "!abc:example.org".into(),
        sdp: "v=0\r\no=- 0 0 IN IP4 127.0.0.1\r\n".into(),
    };
    let json = msg.to_json();
    let decoded = SdpMessage::from_json(&json).unwrap();
    assert_eq!(decoded.call_id, msg.call_id);
    assert_eq!(decoded.sdp, msg.sdp);
}

#[test]
fn ice_candidate_optional_field_omitted() {
    let ice = IceCandidate {
        call_id: "test-call-1".into(),
        room_id: "!abc:example.org".into(),
        candidate: "candidate:1 1 UDP 2130706431 192.168.1.1 54400 typ host".into(),
        sdp_m_line_index: None,
    };
    let json = ice.to_json();
    assert!(!json.contains("sdp_m_line_index"), "None field should be omitted");
}

#[test]
fn ice_candidate_with_index_serialized() {
    let ice = IceCandidate {
        call_id: "c".into(),
        room_id: "!r:e.org".into(),
        candidate: "candidate:1 1 UDP 2 1.2.3.4 1234 typ host".into(),
        sdp_m_line_index: Some(0),
    };
    let json = ice.to_json();
    assert!(json.contains("sdp_m_line_index"));
}

#[test]
fn event_type_names() {
    assert_eq!(SDP_OFFER, "io.squelch.sdp_offer");
    assert_eq!(SDP_ANSWER, "io.squelch.sdp_answer");
    assert_eq!(ICE_CANDIDATE, "io.squelch.ice_candidate");
    assert_eq!(CALL_MEMBER, "io.squelch.call_member");
    assert_eq!(DISBAND, "io.squelch.disband");
}

#[test]
fn sdp_json_exact_text() {
    let msg = SdpMessage { call_id: "c1".into(), room_id: "!r:x".into(), sdp: "v=0\r\n".into() };
    assert_eq!(msg.to_json(), "{\"call_id\":\"c1\",\"room_id\":\"!r:x\",\"sdp\":\"v=0\\r\\n\"}");
}

#[test]
fn ice_json_exact_text() {
    let ice = IceCandidate {
        call_id: "c".into(),
        room_id: "r".into(),
        candidate: "k".into(),
        sdp_m_line_index: Some(4294967295),
    };
    assert_eq!(
        ice.to_json(),
        "{\"call_id\":\"c\",\"room_id\":\"r\",\"candidate\":\"k\",\"sdp_m_line_index\":4294967295}"
    );
    let back = IceCandidate::from_json(&ice.to_json()).unwrap();
    assert_eq!(back.sdp_m_line_index, Some(4294967295));
}

#[test]
fn ice_from_json_index_rules() {
    let base = "\"call_id\":\"c\",\"room_id\":\"r\",\"candidate\":\"k\"";
    assert_eq!(IceCandidate::from_json(&format!("{{{base}}}")).unwrap().sdp_m_line_index, None);
    assert_eq!(
        IceCandidate::from_json(&format!("{{{base},\"sdp_m_line_index\":null}}")).unwrap().sdp_m_line_index,
        None
    );
    assert_eq!(
        IceCandidate::from_json(&format!("{{{base},\"sdp_m_line_index\":7}}")).unwrap().sdp_m_line_index,
        Some(7)
    );
    assert!(IceCandidate::from_json(&format!("{{{base},\"sdp_m_line_index\":-1}}")).is_none());
    assert!(IceCandidate::from_json(&format!("{{{base},\"sdp_m_line_index\":4294967296}}")).is_none());
    assert!(IceCandidate::from_json(&format!("{{{base},\"sdp_m_line_index\":\"0\"}}")).is_none());
    assert!(IceCandidate::from_json("{\"call_id\":\"c\",\"room_id\":\"r\"}").is_none());
}

#[test]
fn sdp_from_json_rejects_missing_or_mistyped_fields() {
    assert!(SdpMessage::from_json("not json").is_none());
    assert!(SdpMessage::from_json("{\"call_id\":\"a\",\"room_id\":\"b\"}").is_none());
    assert!(SdpMessage::from_json("{\"call_id\":1,\"room_id\":\"b\",\"sdp\":\"s\"}").is_none());
    let m = SdpMessage::from_json("{\"sdp\":\"s\",\"room_id\":\"b\",\"call_id\":\"a\",\"extra\":true}").unwrap();
    assert_eq!((m.call_id.as_str(), m.room_id.as_str(), m.sdp.as_str()), ("a", "b", "s"));
}

#[test]
fn outgoing_messages() {
    let msg = SdpMessage { call_id: "c".into(), room_id: "r".into(), sdp: "s".into() };
    let offer = sdp_offer_message(&msg);
    assert_eq!(offer.event_type, SDP_OFFER);
    assert_eq!(offer.content, msg.to_json());
    let answer = sdp_answer_message(&msg);
    assert_eq!(answer.event_type, SDP_ANSWER);
    let ice = IceCandidate { call_id: "c".into(), room_id: "r".into(), candidate: "k".into(), sdp_m_line_index: None };
    let m = ice_candidate_message(&ice);
    assert_eq!(m.event_type, ICE_CANDIDATE);
    assert_eq!(m.content, "{\"call_id\":\"c\",\"candidate\":\"k\",\"room_id\":\"r\"}");
    let ice2 = IceCandidate { sdp_m_line_index: Some(1), ..ice };
    assert_eq!(
        ice_candidate_message(&ice2).content,
        "{\"call_id\":\"c\",\"candidate\":\"k\",\"room_id\":\"r\",\"sdp_m_line_index\":1}"
    );
    let d = disband_message("!abc:example.org");
    assert_eq!(d.event_type, DISBAND);
    assert_eq!(d.content, "{\"reason\":\"leader_initiated\",\"room_id\":\"!abc:example.org\"}");
}

#[test]
fn classify_offer_from_peer() {
    let ev = "{\"type\":\"io.squelch.sdp_offer\",\"sender\":\"@bob:x\",\"content\":{\"call_id\":\"c\",\"room_id\":\"r\",\"sdp\":\"v=0\"}}";
    match classify_to_device("@alice:x", ev) {
        Some(SignalingEvent::SdpOffer { from, payload }) => {
            assert_eq!(from, "@bob:x");
            assert_eq!(payload.sdp, "v=0");
            assert_eq!(payload.call_id, "c");
        }
        other => panic!("unexpected: {other:?}"),
    }
}

#[test]
fn classify_ignores_own_events() {
    let ev = "{\"type\":\"io.squelch.sdp_offer\",\"sender\":\"@alice:x\",\"content\":{\"call_id\":\"c\",\"room_id\":\"r\",\"sdp\":\"v=0\"}}";
    assert!(classify_to_device("@alice:x", ev).is_none());
}

#[test]
fn classify_answer_ice_and_disband() {
    let ans = "{\"type\":\"io.squelch.sdp_answer\",\"sender\":\"@b:x\",\"content\":{\"call_id\":\"c\",\"room_id\":\"r\",\"sdp\":\"a\"}}";
    assert!(matches!(classify_to_device("@a:x", ans), Some(SignalingEvent::SdpAnswer { .. })));
    let ice = "{\"type\":\"io.squelch.ice_candidate\",\"sender\":\"@b:x\",\"content\":{\"call_id\":\"c\",\"room_id\":\"r\",\"candidate\":\"k\",\"sdp_m_line_index\":0}}";
    match classify_to_device("@a:x", ice) {
        Some(SignalingEvent::IceCandidate { payload, .. }) => assert_eq!(payload.sdp_m_line_index, Some(0)),
        other => panic!("unexpected: {other:?}"),
    }
    let dis = "{\"type\":\"io.squelch.disband\",\"sender\":\"@b:x\",\"content\":{\"room_id\":\"!r:x\",\"reason\":\"leader_initiated\"}}";
    match classify_to_device("@a:x", dis) {
        Some(SignalingEvent::Disband { from, room_id }) => {
            assert_eq!(from, "@b:x");
            assert_eq!(room_id, "!r:x");
        }
        other => panic!("unexpected: {other:?}"),
    }
    let dis_no_content = "{\"type\":\"io.squelch.disband\",\"sender\":\"@b:x\"}";
    match classify_to_device("@a:x", dis_no_content) {
        Some(SignalingEvent::Disband { room_id, .. }) => assert_eq!(room_id, ""),
        other => panic!("unexpected: {other:?}"),
    }
}

#[test]
fn classify_skips_unknown_broken_and_incomplete() {
    assert!(classify_to_device("@a:x", "{\"type\":\"m.room_key\",\"sender\":\"@b:x\"}").is_none());
    assert!(classify_to_device("@a:x", "{not json").is_none());
    assert!(classify_to_device("@a:x", "{\"type\":\"io.squelch.sdp_offer\",\"sender\":\"@b:x\",\"content\":{\"sdp\":\"v\"}}").is_none());
    assert!(classify_to_device("@a:x", "{\"type\":\"io.squelch.sdp_offer\",\"sender\":\"@b:x\"}").is_none());
}

#[test]
fn payloads_in_array_form() {
    let m = SdpMessage::from_json("[\"a\",\"b\",\"c\"]").unwrap();
    assert_eq!((m.call_id.as_str(), m.room_id.as_str(), m.sdp.as_str()), ("a", "b", "c"));
    assert!(SdpMessage::from_json("[\"a\",\"b\"]").is_none());
    assert!(SdpMessage::from_json("[\"a\",\"b\",\"c\",\"d\"]").is_none());
    let c = IceCandidate::from_json("[\"c\",\"r\",\"k\",null]").unwrap();
    assert_eq!(c.sdp_m_line_index, None);
    let c = IceCandidate::from_json("[\"c\",\"r\",\"k\",3]").unwrap();
    assert_eq!(c.sdp_m_line_index, Some(3));
    assert!(IceCandidate::from_json("[\"c\",\"r\",\"k\"]").is_none());
    let ev = "{\"type\":\"io.squelch.sdp_answer\",\"sender\":\"@b:x\",\"content\":[\"c\",\"r\",\"s\"]}";
    assert!(matches!(classify_to_device("@a:x", ev), Some(SignalingEvent::SdpAnswer { .. })));
}

#[test]
fn disband_message_escapes_room_id() {
    let m = disband_message("!a\"b\\c\nd\u{1}é");
    assert_eq!(
        m.content,
        "{\"reason\":\"leader_initiated\",\"room_id\":\"!a\\\"b\\\\c\\nd\\u0001é\"}"
    );
}
