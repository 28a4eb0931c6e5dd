//! WebRTC signaling messages sent as Matrix to-device events.
//!
//! All payloads are JSON objects sent via `io.squelch.*` to-device events.
//! They are unencrypted in MVP — the WebRTC DTLS-SRTP layer encrypts the
//! actual audio.
use vstd::prelude::*;

use crate::json::{
    json_at, json_lookup, json_quote, json_quoted, object_facts, json_object_text, json_members_text, json_member_text,
    flat_members, plain_key, object_pointer_result, json_value_text, JsonNode, JsonNodeView,
};
use crate::text::{str_concat, decimal, opt_name, str_equal, u32_decimal};

verus! {

// ── Event types ────────────────────────────────────────────────────────────

/// Matrix event type of an SDP offer.
pub const SDP_OFFER: &'static str = "io.squelch.sdp_offer";

/// Matrix event type of an SDP answer.
pub const SDP_ANSWER: &'static str = "io.squelch.sdp_answer";

/// Matrix event type of an ICE candidate.
pub const ICE_CANDIDATE: &'static str = "io.squelch.ice_candidate";

/// Matrix event type announcing call membership.
pub const CALL_MEMBER: &'static str = "io.squelch.call_member";

/// Sent by the squad leader to all members to initiate collective room cleanup.
/// All clients leave the Matrix room and clear their local room ID on receipt.
/// Only accepted from the current leader — clients ignore it from non-leaders.
pub const DISBAND: &'static str = "io.squelch.disband";

// ── Payloads ───────────────────────────────────────────────────────────────

/// A WebRTC SDP offer or answer sent to a remote peer.
#[derive(Debug, Clone)]
pub struct SdpMessage {
    /// Unique call identifier (e.g. UUID).
    pub call_id: String,
    /// Matrix room ID this call belongs to.
    pub room_id: String,
    /// SDP string as produced by str0m.
    pub sdp: String,
}

/// A WebRTC ICE candidate sent to a remote peer.
#[derive(Debug, Clone)]
pub struct IceCandidate {
    /// Unique call identifier matching the SDP exchange.
    pub call_id: String,
    /// Matrix room ID this call belongs to.
    pub room_id: String,
    /// ICE candidate string (e.g. `candidate:1 1 UDP ...`).
    pub candidate: String,
    /// SDP m-line index for this candidate; left out of the JSON when absent.
    pub sdp_m_line_index: Option<u32>,
}

/// A signaling event received from a remote peer via Matrix to-device.
#[derive(Debug, Clone)]
#[allow(inconsistent_fields)]
pub enum SignalingEvent {
    /// Remote peer is offering a WebRTC connection.
    SdpOffer { from: String, payload: SdpMessage },
    /// Remote peer answered our offer.
    SdpAnswer { from: String, payload: SdpMessage },
    /// Remote peer sent an ICE candidate.
    IceCandidate { from: String, payload: IceCandidate },
    /// The squad leader disbanded the squad room.
    Disband { from: String, room_id: String },
}

/// An outgoing to-device message: its event type and its JSON content.
#[derive(Debug, Clone)]
pub struct ToDeviceMessage {
    pub event_type: String,
    pub content: String,
}

/// The value of an [`SdpMessage`].
pub struct SdpMessageView {
    pub call_id: Seq<char>,
    pub room_id: Seq<char>,
    pub sdp: Seq<char>,
}

/// The value of an [`IceCandidate`].
pub struct IceCandidateView {
    pub call_id: Seq<char>,
    pub room_id: Seq<char>,
    pub candidate: Seq<char>,
    pub sdp_m_line_index: Option<u32>,
}

/// The value of a [`SignalingEvent`].
#[allow(inconsistent_fields)]
pub enum SignalingEventView {
    SdpOffer { from: Seq<char>, payload: SdpMessageView },
    SdpAnswer { from: Seq<char>, payload: SdpMessageView },
    IceCandidate { from: Seq<char>, payload: IceCandidateView },
    Disband { from: Seq<char>, room_id: Seq<char> },
}

impl View for SdpMessage {
    type V = SdpMessageView;

    open spec fn view(&self) -> SdpMessageView {
        SdpMessageView { call_id: self.call_id@, room_id: self.room_id@, sdp: self.sdp@ }
    }
}

impl View for IceCandidate {
    type V = IceCandidateView;

    open spec fn view(&self) -> IceCandidateView {
        IceCandidateView {
            call_id: self.call_id@,
            room_id: self.room_id@,
            candidate: self.candidate@,
            sdp_m_line_index: self.sdp_m_line_index,
        }
    }
}

impl View for SignalingEvent {
    type V = SignalingEventView;

    open spec fn view(&self) -> SignalingEventView {
        match self {
            SignalingEvent::SdpOffer { from, payload } => SignalingEventView::SdpOffer {
                from: from@,
                payload: payload@,
            },
            SignalingEvent::SdpAnswer { from, payload } => SignalingEventView::SdpAnswer {
                from: from@,
                payload: payload@,
            },
            SignalingEvent::IceCandidate { from, payload } => SignalingEventView::IceCandidate {
                from: from@,
                payload: payload@,
            },
            SignalingEvent::Disband { from, room_id } => SignalingEventView::Disband {
                from: from@,
                room_id: room_id@,
            },
        }
    }
}

/// The optional event, by value.
pub open spec fn opt_event(o: Option<SignalingEvent>) -> Option<SignalingEventView> {
    match o {
        Some(e) => Some(e@),
        None => None,
    }
}

// ── Reading JSON ───────────────────────────────────────────────────────────

/// The string at `pointer` in the JSON document `text`, if a string is there.
pub open spec fn str_at(text: Seq<char>, pointer: Seq<char>) -> Option<Seq<char>> {
    match json_lookup(text, pointer) {
        Some(JsonNodeView::Str(s)) => Some(s),
        _ => None,
    }
}

/// An SDP message read from the JSON value at `base` in `text`: an object
/// whose `call_id`, `room_id` and `sdp` are strings, or an array of exactly
/// three strings in that order.
pub open spec fn sdp_at(text: Seq<char>, base: Seq<char>) -> Option<SdpMessageView> {
    let (p_call, p_room, p_sdp) = match json_lookup(text, base) {
        Some(JsonNodeView::Array(_)) => (base + "/0"@, base + "/1"@, base + "/2"@),
        _ => (base + "/call_id"@, base + "/room_id"@, base + "/sdp"@),
    };
    let shape_ok = match json_lookup(text, base) {
        Some(JsonNodeView::Array(n)) => n == 3,
        _ => true,
    };
    match (str_at(text, p_call), str_at(text, p_room), str_at(text, p_sdp)) {
        (Some(c), Some(r), Some(s)) => if shape_ok {
            Some(SdpMessageView { call_id: c, room_id: r, sdp: s })
        } else {
            None
        },
        _ => None,
    }
}

/// The m-line index found at `pointer`: `Some(None)` when absent or null,
/// `Some(Some(n))` for an integer `n` that fits in `u32`, `None` otherwise.
pub open spec fn m_line_at(text: Seq<char>, pointer: Seq<char>) -> Option<Option<u32>> {
    match json_lookup(text, pointer) {
        Some(JsonNodeView::Missing) => Some(None),
        Some(JsonNodeView::Null) => Some(None),
        Some(JsonNodeView::UInt(u)) => if u <= u32::MAX {
            Some(Some(u as u32))
        } else {
            None
        },
        _ => None,
    }
}

/// An ICE candidate read from the JSON value at `base` in `text`: an object
/// whose `call_id`, `room_id` and `candidate` are strings and whose
/// `sdp_m_line_index` is absent, null or a `u32`, or an array of exactly
/// four such elements in that order.
pub open spec fn ice_at(text: Seq<char>, base: Seq<char>) -> Option<IceCandidateView> {
    let (p_call, p_room, p_cand, p_index) = match json_lookup(text, base) {
        Some(JsonNodeView::Array(_)) => (base + "/0"@, base + "/1"@, base + "/2"@, base + "/3"@),
        _ => (base + "/call_id"@, base + "/room_id"@, base + "/candidate"@, base + "/sdp_m_line_index"@),
    };
    let shape_ok = match json_lookup(text, base) {
        Some(JsonNodeView::Array(n)) => n == 4,
        _ => true,
    };
    match (str_at(text, p_call), str_at(text, p_room), str_at(text, p_cand), m_line_at(text, p_index)) {
        (Some(c), Some(r), Some(k), Some(i)) => if shape_ok {
            Some(IceCandidateView { call_id: c, room_id: r, candidate: k, sdp_m_line_index: i })
        } else {
            None
        },
        _ => None,
    }
}

/// The string at `pointer`, or the empty text when no string is there.
pub open spec fn str_or_empty(text: Seq<char>, pointer: Seq<char>) -> Seq<char> {
    match str_at(text, pointer) {
        Some(s) => s,
        None => Seq::empty(),
    }
}

/// The signaling event that the raw to-device event `text` carries for the
/// local user `own`: nothing when `text` is not JSON, when the sender is
/// `own`, when the type is not a signaling type, or when the content does
/// not hold the payload's fields.
pub open spec fn to_device_event(own: Seq<char>, text: Seq<char>) -> Option<SignalingEventView> {
    let ty = str_or_empty(text, "/type"@);
    let sender = str_or_empty(text, "/sender"@);
    if json_lookup(text, "/type"@) is None {
        None
    } else if sender == own {
        None
    } else if ty == SDP_OFFER@ {
        match sdp_at(text, "/content"@) {
            Some(p) => Some(SignalingEventView::SdpOffer { from: sender, payload: p }),
            None => None,
        }
    } else if ty == SDP_ANSWER@ {
        match sdp_at(text, "/content"@) {
            Some(p) => Some(SignalingEventView::SdpAnswer { from: sender, payload: p }),
            None => None,
        }
    } else if ty == ICE_CANDIDATE@ {
        match ice_at(text, "/content"@) {
            Some(p) => Some(SignalingEventView::IceCandidate { from: sender, payload: p }),
            None => None,
        }
    } else if ty == DISBAND@ {
        Some(SignalingEventView::Disband { from: sender, room_id: str_or_empty(text, "/content/room_id"@) })
    } else {
        None
    }
}

fn str_field(text: &str, pointer: &str) -> (r: Option<String>)
    ensures
        opt_name(r) == str_at(text@, pointer@),
        object_facts(text@, pointer@, json_lookup(text@, pointer@)),
{
    match json_at(text, pointer) {
        Some(JsonNode::Str(s)) => Some(s),
        _ => None,
    }
}

fn str_field_or_empty(text: &str, pointer: &str) -> (r: String)
    ensures
        r@ == str_or_empty(text@, pointer@),
{
    match str_field(text, pointer) {
        Some(s) => s,
        None => String::new(),
    }
}

fn m_line_field(text: &str, pointer: &str) -> (r: Option<Option<u32>>)
    ensures
        r == m_line_at(text@, pointer@),
        object_facts(text@, pointer@, json_lookup(text@, pointer@)),
{
    match json_at(text, pointer) {
        Some(JsonNode::Missing) => Some(None),
        Some(JsonNode::Null) => Some(None),
        Some(JsonNode::UInt(u)) => {
            if u <= 0xffff_ffffu64 {
                Some(Some(u as u32))
            } else {
                None
            }
        },
        _ => None,
    }
}

fn sdp_field(text: &str, base: &str) -> (r: Option<SdpMessage>)
    ensures
        match r {
            Some(m) => sdp_at(text@, base@) == Some(m@),
            None => sdp_at(text@, base@) is None,
        },
        object_facts(text@, base@, json_lookup(text@, base@)),
        !(json_lookup(text@, base@) matches Some(JsonNodeView::Array(_))) ==> {
            &&& object_facts(text@, base@ + "/call_id"@, json_lookup(text@, base@ + "/call_id"@))
            &&& object_facts(text@, base@ + "/room_id"@, json_lookup(text@, base@ + "/room_id"@))
            &&& object_facts(text@, base@ + "/sdp"@, json_lookup(text@, base@ + "/sdp"@))
        },
{
    let whole = json_at(text, base);
    let (p_call, p_room, p_sdp, shape_ok) = match whole {
        Some(JsonNode::Array(n)) => (str_concat(base, "/0"), str_concat(base, "/1"), str_concat(base, "/2"), n == 3),
        _ => (str_concat(base, "/call_id"), str_concat(base, "/room_id"), str_concat(base, "/sdp"), true),
    };
    let call_id = str_field(text, p_call.as_str());
    let room_id = str_field(text, p_room.as_str());
    let sdp = str_field(text, p_sdp.as_str());
    match (call_id, room_id, sdp) {
        (Some(call_id), Some(room_id), Some(sdp)) => {
            if shape_ok {
                Some(SdpMessage { call_id, room_id, sdp })
            } else {
                None
            }
        },
        _ => None,
    }
}

fn ice_field(text: &str, base: &str) -> (r: Option<IceCandidate>)
    ensures
        match r {
            Some(c) => ice_at(text@, base@) == Some(c@),
            None => ice_at(text@, base@) is None,
        },
        object_facts(text@, base@, json_lookup(text@, base@)),
        !(json_lookup(text@, base@) matches Some(JsonNodeView::Array(_))) ==> {
            &&& object_facts(text@, base@ + "/call_id"@, json_lookup(text@, base@ + "/call_id"@))
            &&& object_facts(text@, base@ + "/room_id"@, json_lookup(text@, base@ + "/room_id"@))
            &&& object_facts(text@, base@ + "/candidate"@, json_lookup(text@, base@ + "/candidate"@))
            &&& object_facts(
                text@,
                base@ + "/sdp_m_line_index"@,
                json_lookup(text@, base@ + "/sdp_m_line_index"@),
            )
        },
{
    let whole = json_at(text, base);
    let (p_call, p_room, p_cand, p_index, shape_ok) = match whole {
        Some(JsonNode::Array(n)) => (
            str_concat(base, "/0"),
            str_concat(base, "/1"),
            str_concat(base, "/2"),
            str_concat(base, "/3"),
            n == 4,
        ),
        _ => (
            str_concat(base, "/call_id"),
            str_concat(base, "/room_id"),
            str_concat(base, "/candidate"),
            str_concat(base, "/sdp_m_line_index"),
            true,
        ),
    };
    let call_id = str_field(text, p_call.as_str());
    let room_id = str_field(text, p_room.as_str());
    let candidate = str_field(text, p_cand.as_str());
    let index = m_line_field(text, p_index.as_str());
    match (call_id, room_id, candidate, index) {
        (Some(call_id), Some(room_id), Some(candidate), Some(sdp_m_line_index)) => {
            if shape_ok {
                Some(IceCandidate { call_id, room_id, candidate, sdp_m_line_index })
            } else {
                None
            }
        },
        _ => None,
    }
}

/// Reads the signaling event carried by one raw to-device event (the JSON of
/// the whole event, with `type`, `sender` and `content`), as the sync loop
/// does for each event it receives. Events sent by `own_user_id`, events of
/// other types, unreadable events and payloads that lack a field yield
/// nothing.
pub fn classify_to_device(own_user_id: &str, event_json: &str) -> (r: Option<SignalingEvent>)
    ensures
        opt_event(r) == to_device_event(own_user_id@, event_json@),
        r matches Some(e) ==> event_sender(e@) == str_or_empty(event_json@, "/sender"@) && event_sender(e@)
            != own_user_id@,
        r matches Some(e) ==> event_kind_matches(e@, str_or_empty(event_json@, "/type"@)),
{
    proof {
        law_events_carry_sender(own_user_id@, event_json@);
    }
    let ty_node = json_at(event_json, "/type");
    if ty_node.is_none() {
        return None;
    }
    let ty = str_field_or_empty(event_json, "/type");
    let sender = str_field_or_empty(event_json, "/sender");
    if str_equal(sender.as_str(), own_user_id) {
        return None;
    }
    if str_equal(ty.as_str(), SDP_OFFER) {
        match sdp_field(event_json, "/content") {
            Some(p) => Some(SignalingEvent::SdpOffer { from: sender, payload: p }),
            None => None,
        }
    } else if str_equal(ty.as_str(), SDP_ANSWER) {
        match sdp_field(event_json, "/content") {
            Some(p) => Some(SignalingEvent::SdpAnswer { from: sender, payload: p }),
            None => None,
        }
    } else if str_equal(ty.as_str(), ICE_CANDIDATE) {
        match ice_field(event_json, "/content") {
            Some(p) => Some(SignalingEvent::IceCandidate { from: sender, payload: p }),
            None => None,
        }
    } else if str_equal(ty.as_str(), DISBAND) {
        let room_id = str_field_or_empty(event_json, "/content/room_id");
        Some(SignalingEvent::Disband { from: sender, room_id })
    } else {
        None
    }
}

// ── Writing JSON ───────────────────────────────────────────────────────────

/// The JSON text of an SDP message, fields in declaration order.
pub open spec fn sdp_json(m: SdpMessageView) -> Seq<char> {
    "{\"call_id\":"@ + json_quoted(m.call_id) + ",\"room_id\":"@ + json_quoted(m.room_id)
        + ",\"sdp\":"@ + json_quoted(m.sdp) + "}"@
}

/// The JSON text of an ICE candidate, fields in declaration order; the
/// m-line index is left out when absent.
pub open spec fn ice_json(c: IceCandidateView) -> Seq<char> {
    "{\"call_id\":"@ + json_quoted(c.call_id) + ",\"room_id\":"@ + json_quoted(c.room_id)
        + ",\"candidate\":"@ + json_quoted(c.candidate) + match c.sdp_m_line_index {
        Some(n) => ",\"sdp_m_line_index\":"@ + decimal(n as nat) + "}"@,
        None => "}"@,
    }
}

/// The JSON text of an ICE candidate with its keys in sorted order, as a
/// `serde_json::Value` object writes them.
pub open spec fn ice_content_json(c: IceCandidateView) -> Seq<char> {
    "{\"call_id\":"@ + json_quoted(c.call_id) + ",\"candidate\":"@ + json_quoted(c.candidate)
        + ",\"room_id\":"@ + json_quoted(c.room_id) + match c.sdp_m_line_index {
        Some(n) => ",\"sdp_m_line_index\":"@ + decimal(n as nat) + "}"@,
        None => "}"@,
    }
}

/// The JSON content of a disband event for `room_id`.
pub open spec fn disband_json(room_id: Seq<char>) -> Seq<char> {
    "{\"reason\":\"leader_initiated\",\"room_id\":"@ + json_quoted(room_id) + "}"@
}

/// The members of the JSON object of an SDP message, in declaration order.
pub open spec fn sdp_members(m: SdpMessageView) -> Seq<(Seq<char>, JsonNodeView)> {
    seq![
        ("call_id"@, JsonNodeView::Str(m.call_id)),
        ("room_id"@, JsonNodeView::Str(m.room_id)),
        ("sdp"@, JsonNodeView::Str(m.sdp)),
    ]
}

proof fn lemma_key_text(k: Seq<char>)
    requires
        forall|i: int| 0 <= i < k.len() ==> #[trigger] k[i] == '_' || ('a' <= k[i] && k[i] <= 'z'),
    ensures
        json_quoted(k) == seq!['"'] + k + seq!['"'],
        plain_key(k),
{
    assert forall|i: int| 0 <= i < k.len() implies crate::json::json_plain_char(#[trigger] k[i]) by {}
    crate::json::lemma_quoted_plain(k);
}

proof fn lemma_sdp_members(m: SdpMessageView)
    ensures
        json_object_text(sdp_members(m)) == sdp_json(m),
        flat_members(sdp_members(m)),
{
    reveal_strlit("call_id");
    reveal_strlit("room_id");
    reveal_strlit("sdp");
    reveal_strlit("{\"call_id\":");
    reveal_strlit(",\"room_id\":");
    reveal_strlit(",\"sdp\":");
    reveal_strlit("}");
    lemma_key_text("call_id"@);
    lemma_key_text("room_id"@);
    lemma_key_text("sdp"@);
    let fs = sdp_members(m);
    let m0 = json_member_text(fs[0]);
    let m1 = json_member_text(fs[1]);
    let m2 = json_member_text(fs[2]);
    let d = fs.drop_last();
    assert(d.drop_last() =~= seq![fs[0]]);
    assert(json_members_text(d.drop_last()) == m0);
    assert(d.last() == fs[1]);
    assert(json_members_text(d) == m0 + seq![','] + m1);
    assert(json_members_text(fs) == m0 + seq![','] + m1 + seq![','] + m2);
    assert(json_object_text(fs) =~= sdp_json(m));
    assert(fs[0].0[0] != fs[1].0[0]);
    assert(fs[0].0[0] != fs[2].0[0]);
    assert(fs[1].0[0] != fs[2].0[0]);
}

/// Reading the JSON object text of an SDP message at the document's root
/// gives the message back, given what the parser finds there.
proof fn lemma_sdp_read_back(m: SdpMessageView)
    requires
        ({
            let t = sdp_json(m);
            let e = Seq::<char>::empty();
            &&& object_facts(t, e, json_lookup(t, e))
            &&& !(json_lookup(t, e) matches Some(JsonNodeView::Array(_))) ==> {
                &&& object_facts(t, e + "/call_id"@, json_lookup(t, e + "/call_id"@))
                &&& object_facts(t, e + "/room_id"@, json_lookup(t, e + "/room_id"@))
                &&& object_facts(t, e + "/sdp"@, json_lookup(t, e + "/sdp"@))
            }
        }),
    ensures
        sdp_at(sdp_json(m), Seq::empty()) == Some(m),
{
    let t = sdp_json(m);
    let e = Seq::<char>::empty();
    let fs = sdp_members(m);
    lemma_sdp_members(m);
    assert(json_object_text(fs) == t);
    assert(object_pointer_result(fs, e) == Some(Some(JsonNodeView::Object)));
    assert(json_lookup(t, e) == Some(JsonNodeView::Object));
    reveal_strlit("/call_id");
    reveal_strlit("/room_id");
    reveal_strlit("/sdp");
    reveal_strlit("call_id");
    reveal_strlit("room_id");
    reveal_strlit("sdp");
    assert((e + "/call_id"@).drop_first() =~= "call_id"@);
    assert((e + "/room_id"@).drop_first() =~= "room_id"@);
    assert((e + "/sdp"@).drop_first() =~= "sdp"@);
    assert(fs[0].0 == "call_id"@);
    assert(fs[1].0 == "room_id"@);
    assert(fs[2].0 == "sdp"@);
    assert(object_pointer_result(fs, e + "/call_id"@) == Some(Some(JsonNodeView::Str(m.call_id))));
    assert(object_pointer_result(fs, e + "/room_id"@) == Some(Some(JsonNodeView::Str(m.room_id))));
    assert(object_pointer_result(fs, e + "/sdp"@) == Some(Some(JsonNodeView::Str(m.sdp))));
}

/// The members of the JSON object of an ICE candidate, in declaration
/// order; the m-line index only when present.
pub open spec fn ice_members(c: IceCandidateView) -> Seq<(Seq<char>, JsonNodeView)> {
    let base = seq![
        ("call_id"@, JsonNodeView::Str(c.call_id)),
        ("room_id"@, JsonNodeView::Str(c.room_id)),
        ("candidate"@, JsonNodeView::Str(c.candidate)),
    ];
    match c.sdp_m_line_index {
        Some(n) => base.push(("sdp_m_line_index"@, JsonNodeView::UInt(n as u64))),
        None => base,
    }
}

proof fn lemma_ice_members(c: IceCandidateView)
    ensures
        json_object_text(ice_members(c)) == ice_json(c),
        flat_members(ice_members(c)),
{
    reveal_strlit("call_id");
    reveal_strlit("room_id");
    reveal_strlit("candidate");
    reveal_strlit("sdp_m_line_index");
    reveal_strlit("{\"call_id\":");
    reveal_strlit(",\"room_id\":");
    reveal_strlit(",\"candidate\":");
    reveal_strlit(",\"sdp_m_line_index\":");
    reveal_strlit("}");
    lemma_key_text("call_id"@);
    lemma_key_text("room_id"@);
    lemma_key_text("candidate"@);
    lemma_key_text("sdp_m_line_index"@);
    let fs = ice_members(c);
    let b = seq![
        ("call_id"@, JsonNodeView::Str(c.call_id)),
        ("room_id"@, JsonNodeView::Str(c.room_id)),
        ("candidate"@, JsonNodeView::Str(c.candidate)),
    ];
    let m0 = json_member_text(b[0]);
    let m1 = json_member_text(b[1]);
    let m2 = json_member_text(b[2]);
    let d = b.drop_last();
    assert(d.drop_last() =~= seq![b[0]]);
    assert(json_members_text(d.drop_last()) == m0);
    assert(d.last() == b[1]);
    assert(json_members_text(d) == m0 + seq![','] + m1);
    assert(json_members_text(b) == m0 + seq![','] + m1 + seq![','] + m2);
    assert(b[0].0[0] != b[1].0[0]);
    assert(b[0].0[2] != b[2].0[2]);
    assert(b[1].0[0] != b[2].0[0]);
    match c.sdp_m_line_index {
        Some(n) => {
            let k = ("sdp_m_line_index"@, JsonNodeView::UInt(n as u64));
            assert(fs == b.push(k));
            assert(fs.drop_last() =~= b);
            assert(fs.last() == k);
            assert(json_member_text(k) =~= seq!['"'] + "sdp_m_line_index"@ + seq!['"'] + seq![':'] + decimal(n as nat));
            assert(json_members_text(fs) == json_members_text(b) + seq![','] + json_member_text(k));
            assert(json_object_text(fs) =~= ice_json(c));
            assert(fs[0].0[1] != fs[3].0[1]);
            assert(fs[1].0[0] != fs[3].0[0]);
            assert(fs[2].0[0] != fs[3].0[0]);
            assert(fs[0].0[2] != fs[2].0[2]);
        },
        None => {
            assert(json_object_text(fs) =~= ice_json(c));
            assert(fs[0].0[2] != fs[2].0[2]);
        },
    }
}

/// Reading the JSON object text of an ICE candidate at the document's root
/// gives the candidate back, given what the parser finds there.
proof fn lemma_ice_read_back(c: IceCandidateView)
    requires
        ({
            let t = ice_json(c);
            let e = Seq::<char>::empty();
            &&& object_facts(t, e, json_lookup(t, e))
            &&& !(json_lookup(t, e) matches Some(JsonNodeView::Array(_))) ==> {
                &&& object_facts(t, e + "/call_id"@, json_lookup(t, e + "/call_id"@))
                &&& object_facts(t, e + "/room_id"@, json_lookup(t, e + "/room_id"@))
                &&& object_facts(t, e + "/candidate"@, json_lookup(t, e + "/candidate"@))
                &&& object_facts(t, e + "/sdp_m_line_index"@, json_lookup(t, e + "/sdp_m_line_index"@))
            }
        }),
    ensures
        ice_at(ice_json(c), Seq::empty()) == Some(c),
{
    let t = ice_json(c);
    let e = Seq::<char>::empty();
    let fs = ice_members(c);
    lemma_ice_members(c);
    assert(json_object_text(fs) == t);
    assert(object_pointer_result(fs, e) == Some(Some(JsonNodeView::Object)));
    assert(json_lookup(t, e) == Some(JsonNodeView::Object));
    reveal_strlit("/call_id");
    reveal_strlit("/room_id");
    reveal_strlit("/candidate");
    reveal_strlit("/sdp_m_line_index");
    reveal_strlit("call_id");
    reveal_strlit("room_id");
    reveal_strlit("candidate");
    reveal_strlit("sdp_m_line_index");
    assert((e + "/call_id"@).drop_first() =~= "call_id"@);
    assert((e + "/room_id"@).drop_first() =~= "room_id"@);
    assert((e + "/candidate"@).drop_first() =~= "candidate"@);
    assert((e + "/sdp_m_line_index"@).drop_first() =~= "sdp_m_line_index"@);
    assert(fs[0].0 == "call_id"@);
    assert(fs[1].0 == "room_id"@);
    assert(fs[2].0 == "candidate"@);
    assert(object_pointer_result(fs, e + "/call_id"@) == Some(Some(JsonNodeView::Str(c.call_id))));
    assert(object_pointer_result(fs, e + "/room_id"@) == Some(Some(JsonNodeView::Str(c.room_id))));
    assert(object_pointer_result(fs, e + "/candidate"@) == Some(Some(JsonNodeView::Str(c.candidate))));
    match c.sdp_m_line_index {
        Some(n) => {
            assert(fs[3].0 == "sdp_m_line_index"@);
            assert(object_pointer_result(fs, e + "/sdp_m_line_index"@) == Some(Some(JsonNodeView::UInt(n as u64))));
        },
        None => {
            assert(fs[0].0[0] != "sdp_m_line_index"@[0]);
            assert(fs[1].0[0] != "sdp_m_line_index"@[0]);
            assert(fs[2].0[0] != "sdp_m_line_index"@[0]);
            assert(!exists|i: int| 0 <= i < fs.len() && (#[trigger] fs[i]).0 == "sdp_m_line_index"@);
            assert(object_pointer_result(fs, e + "/sdp_m_line_index"@) == Some(Some(JsonNodeView::Missing)));
        },
    }
}

impl SdpMessage {
    /// The JSON object text of this message.
    pub fn to_json(&self) -> (r: String)
        ensures
            r@ == sdp_json(self@),
    {
        let mut s = String::from_str("{\"call_id\":");
        s.append(json_quote(self.call_id.as_str()).as_str());
        s.append(",\"room_id\":");
        s.append(json_quote(self.room_id.as_str()).as_str());
        s.append(",\"sdp\":");
        s.append(json_quote(self.sdp.as_str()).as_str());
        s.append("}");
        s
    }

    /// Reads a message from a JSON object holding string fields `call_id`,
    /// `room_id` and `sdp` (other fields are ignored), or from an array of
    /// exactly these three strings; `None` for any other text.
    ///
    /// The text `to_json` writes for a message reads back as that message.
    pub fn from_json(text: &str) -> (r: Option<SdpMessage>)
        ensures
            match r {
                Some(m) => sdp_at(text@, Seq::empty()) == Some(m@),
                None => sdp_at(text@, Seq::empty()) is None,
            },
            forall|m: SdpMessageView| text@ == sdp_json(m) ==> (r matches Some(x) && x@ == m),
    {
        proof {
            reveal_strlit("");
            assert(""@ =~= Seq::<char>::empty());
        }
        let r = sdp_field(text, "");
        proof {
            assert forall|m: SdpMessageView| text@ == sdp_json(m) implies (r matches Some(x) && x@ == m) by {
                lemma_sdp_read_back(m);
            }
        }
        r
    }
}

impl IceCandidate {
    /// The JSON object text of this candidate.
    pub fn to_json(&self) -> (r: String)
        ensures
            r@ == ice_json(self@),
    {
        let mut s = String::from_str("{\"call_id\":");
        s.append(json_quote(self.call_id.as_str()).as_str());
        s.append(",\"room_id\":");
        s.append(json_quote(self.room_id.as_str()).as_str());
        s.append(",\"candidate\":");
        s.append(json_quote(self.candidate.as_str()).as_str());
        let ghost head = s@;
        match self.sdp_m_line_index {
            Some(n) => {
                s.append(",\"sdp_m_line_index\":");
                s.append(u32_decimal(n).as_str());
                s.append("}");
                proof {
                    assert(s@ =~= head + (",\"sdp_m_line_index\":"@ + decimal(n as nat) + "}"@));
                }
            },
            None => {
                s.append("}");
            },
        }
        s
    }

    /// Reads a candidate from a JSON object holding string fields `call_id`,
    /// `room_id` and `candidate`, and an optional `sdp_m_line_index` that is
    /// absent, null or an integer fitting in `u32` (other fields are
    /// ignored), or from an array of exactly these four values.
    ///
    /// The text `to_json` writes for a candidate reads back as that candidate.
    pub fn from_json(text: &str) -> (r: Option<IceCandidate>)
        ensures
            match r {
                Some(c) => ice_at(text@, Seq::empty()) == Some(c@),
                None => ice_at(text@, Seq::empty()) is None,
            },
            forall|c: IceCandidateView| text@ == ice_json(c) ==> (r matches Some(x) && x@ == c),
    {
        proof {
            reveal_strlit("");
            assert(""@ =~= Seq::<char>::empty());
        }
        let r = ice_field(text, "");
        proof {
            assert forall|c: IceCandidateView| text@ == ice_json(c) implies (r matches Some(x) && x@ == c) by {
                lemma_ice_read_back(c);
            }
        }
        r
    }
}

// ── Outgoing to-device messages ────────────────────────────────────────────

/// The to-device message that offers a WebRTC connection.
pub fn sdp_offer_message(payload: &SdpMessage) -> (r: ToDeviceMessage)
    ensures
        r.event_type@ == SDP_OFFER@,
        r.content@ == sdp_json(payload@),
{
    ToDeviceMessage { event_type: String::from_str(SDP_OFFER), content: payload.to_json() }
}

/// The to-device message that answers a WebRTC offer.
pub fn sdp_answer_message(payload: &SdpMessage) -> (r: ToDeviceMessage)
    ensures
        r.event_type@ == SDP_ANSWER@,
        r.content@ == sdp_json(payload@),
{
    ToDeviceMessage { event_type: String::from_str(SDP_ANSWER), content: payload.to_json() }
}

/// The to-device message that sends an ICE candidate; its content has the
/// keys in sorted order.
pub fn ice_candidate_message(payload: &IceCandidate) -> (r: ToDeviceMessage)
    ensures
        r.event_type@ == ICE_CANDIDATE@,
        r.content@ == ice_content_json(payload@),
{
    let mut s = String::from_str("{\"call_id\":");
    s.append(json_quote(payload.call_id.as_str()).as_str());
    s.append(",\"candidate\":");
    s.append(json_quote(payload.candidate.as_str()).as_str());
    s.append(",\"room_id\":");
    s.append(json_quote(payload.room_id.as_str()).as_str());
    let ghost head = s@;
    match payload.sdp_m_line_index {
        Some(n) => {
            s.append(",\"sdp_m_line_index\":");
            s.append(u32_decimal(n).as_str());
            s.append("}");
            proof {
                assert(s@ =~= head + (",\"sdp_m_line_index\":"@ + decimal(n as nat) + "}"@));
            }
        },
        None => {
            s.append("}");
        },
    }
    ToDeviceMessage { event_type: String::from_str(ICE_CANDIDATE), content: s }
}

/// The to-device message by which the leader disbands the squad room.
pub fn disband_message(room_id: &str) -> (r: ToDeviceMessage)
    ensures
        r.event_type@ == DISBAND@,
        r.content@ == disband_json(room_id@),
{
    let mut s = String::from_str("{\"reason\":\"leader_initiated\",\"room_id\":");
    s.append(json_quote(room_id).as_str());
    s.append("}");
    ToDeviceMessage { event_type: String::from_str(DISBAND), content: s }
}

// ── Laws ───────────────────────────────────────────────────────────────────

/// A client never acts on the to-device events it sent itself.
pub proof fn law_own_events_ignored(own: Seq<char>, text: Seq<char>)
    requires
        str_or_empty(text, "/sender"@) == own,
    ensures
        to_device_event(own, text) is None,
{
}

/// Who sent an event.
pub open spec fn event_sender(e: SignalingEventView) -> Seq<char> {
    match e {
        SignalingEventView::SdpOffer { from, .. } => from,
        SignalingEventView::SdpAnswer { from, .. } => from,
        SignalingEventView::IceCandidate { from, .. } => from,
        SignalingEventView::Disband { from, .. } => from,
    }
}

/// Whether an event is of the kind its Matrix event type `ty` names.
pub open spec fn event_kind_matches(e: SignalingEventView, ty: Seq<char>) -> bool {
    match e {
        SignalingEventView::SdpOffer { .. } => ty == SDP_OFFER@,
        SignalingEventView::SdpAnswer { .. } => ty == SDP_ANSWER@,
        SignalingEventView::IceCandidate { .. } => ty == ICE_CANDIDATE@,
        SignalingEventView::Disband { .. } => ty == DISBAND@,
    }
}

/// Every event read from a raw to-device event is attributed to the event's
/// sender, which is never the local user, and is of the kind the event's type
/// names.
pub proof fn law_events_carry_sender(own: Seq<char>, text: Seq<char>)
    ensures
        to_device_event(own, text) matches Some(e) ==> {
            &&& event_sender(e) == str_or_empty(text, "/sender"@)
            &&& event_sender(e) != own
            &&& event_kind_matches(e, str_or_empty(text, "/type"@))
        },
{
}

/// Events whose type is not one of the signaling types are ignored.
pub proof fn law_unknown_types_ignored(own: Seq<char>, text: Seq<char>)
    requires
        str_or_empty(text, "/type"@) != SDP_OFFER@,
        str_or_empty(text, "/type"@) != SDP_ANSWER@,
        str_or_empty(text, "/type"@) != ICE_CANDIDATE@,
        str_or_empty(text, "/type"@) != DISBAND@,
    ensures
        to_device_event(own, text) is None,
{
}

/// A disband event from another user is always read and handed on, whatever
/// its content holds; whether it is obeyed is decided on receipt, where only
/// one from the current squad leader is accepted.
pub proof fn law_disband_always_read(own: Seq<char>, text: Seq<char>)
    requires
        json_lookup(text, "/type"@) is Some,
        str_or_empty(text, "/type"@) == DISBAND@,
        str_or_empty(text, "/sender"@) != own,
    ensures
        to_device_event(own, text) is Some,
{
    reveal_strlit("io.squelch.disband");
    reveal_strlit("io.squelch.sdp_offer");
    reveal_strlit("io.squelch.sdp_answer");
    reveal_strlit("io.squelch.ice_candidate");
    assert(DISBAND@[11] != SDP_OFFER@[11]);
    assert(DISBAND@[11] != SDP_ANSWER@[11]);
    assert(DISBAND@[11] != ICE_CANDIDATE@[11]);
}

} // verus!
