//! Single WebRTC peer connection — wraps str0m's `Rtc` instance.
//!
//! **Offerer:** call [`PeerConnection::create_offer`] to get the SDP offer
//! string, send it via Matrix, then call [`PeerConnection::accept_answer`]
//! when the remote peer responds.
//!
//! **Answerer:** call [`PeerConnection::accept_offer`] with the remote SDP
//! offer to get the answer string, send it back via Matrix.
//!
//! The socket and the run loop that moves packets belong to the driver; the
//! connection is bound to the local IPv4 address it is given.
use vstd::prelude::*;

use str0m::change::{SdpAnswer, SdpApi, SdpOffer, SdpPendingOffer};
use str0m::media::{Mid, Pt};
use str0m::{Candidate, Rtc};
use tokio::sync::mpsc::{Receiver, Sender};

use crate::text::str_concat;

verus! {

#[verifier::external_type_specification]
#[verifier::external_body]
pub struct ExRtc(Rtc);

#[verifier::external_type_specification]
#[verifier::external_body]
pub struct ExCandidate(Candidate);

#[verifier::external_type_specification]
#[verifier::external_body]
pub struct ExSdpApi<'a>(SdpApi<'a>);

#[verifier::external_type_specification]
#[verifier::external_body]
pub struct ExSdpOffer(SdpOffer);

#[verifier::external_type_specification]
#[verifier::external_body]
pub struct ExSdpAnswer(SdpAnswer);

#[verifier::external_type_specification]
#[verifier::external_body]
pub struct ExSdpPendingOffer(SdpPendingOffer);

#[verifier::external_type_specification]
#[verifier::external_body]
pub struct ExMid(Mid);

#[verifier::external_type_specification]
#[verifier::external_body]
pub struct ExPt(Pt);

#[verifier::external_type_specification]
#[verifier::external_body]
#[verifier::reject_recursive_types(T)]
pub struct ExSender<T>(Sender<T>);

#[verifier::external_type_specification]
#[verifier::external_body]
#[verifier::reject_recursive_types(T)]
pub struct ExReceiver<T>(Receiver<T>);

#[verifier::external_type_specification]
#[verifier::external_body]
pub struct ExIoError(std::io::Error);

/// Channel capacity for audio frames.
pub const AUDIO_CHAN_SIZE: usize = 128;

/// How many PCM samples per Opus frame (20ms @ 48kHz mono); the media clock
/// advances by this much per frame sent.
pub const OPUS_FRAME_SAMPLES: usize = 960;

/// Errors that can occur in the WebRTC layer.
#[derive(Debug)]
pub enum WebRtcError {
    Sdp(String),
    Ice(String),
    Codec(String),
    PeerNotFound(String),
    Io(std::io::Error),
    Str0m(String),
}

/// `io::Error`'s own text, from its `Display`.
#[verifier::external_body]
fn io_error_text(e: &std::io::Error) -> String {
    e.to_string()
}

impl WebRtcError {
    /// The human-readable message of this error, e.g. `SDP error: <detail>`.
    pub fn message(&self) -> (r: String)
        ensures
            match self {
                WebRtcError::Sdp(d) => r@ == "SDP error: "@ + d@,
                WebRtcError::Ice(d) => r@ == "ICE error: "@ + d@,
                WebRtcError::Codec(d) => r@ == "codec error: "@ + d@,
                WebRtcError::PeerNotFound(d) => r@ == "peer not found: "@ + d@,
                WebRtcError::Io(_) => r@.len() >= "I/O error: "@.len() && r@.subrange(0, "I/O error: "@.len() as int) == "I/O error: "@,
                WebRtcError::Str0m(d) => r@ == "str0m error: "@ + d@,
            },
    {
        match self {
            WebRtcError::Sdp(d) => str_concat("SDP error: ", d.as_str()),
            WebRtcError::Ice(d) => str_concat("ICE error: ", d.as_str()),
            WebRtcError::Codec(d) => str_concat("codec error: ", d.as_str()),
            WebRtcError::PeerNotFound(d) => str_concat("peer not found: ", d.as_str()),
            WebRtcError::Io(e) => {
                let t = io_error_text(e);
                let r = str_concat("I/O error: ", t.as_str());
                proof {
                    assert(r@.subrange(0, "I/O error: "@.len() as int) =~= "I/O error: "@);
                }
                r
            },
            WebRtcError::Str0m(d) => str_concat("str0m error: ", d.as_str()),
        }
    }
}

/// Role of this peer in the WebRTC negotiation.
#[derive(Debug, Clone, Copy, PartialEq, Eq, Structural)]
pub enum PeerRole {
    /// We initiate the connection (send the SDP offer).
    Offerer,
    /// The remote peer initiates (we send the SDP answer).
    Answerer,
}

// ── str0m and tokio ────────────────────────────────────────────────────────

/// Whether str0m accepts `ip` as the address of a host ICE candidate: an
/// IPv4 address that is not link-local (169.254/16), not the broadcast
/// address, not multicast (224/4) and not unspecified (0.0.0.0).
pub open spec fn host_ip_ok(ip: [u8; 4]) -> bool {
    &&& !(ip@[0] == 169 && ip@[1] == 254)
    &&& !(ip@[0] == 255 && ip@[1] == 255 && ip@[2] == 255 && ip@[3] == 255)
    &&& !(224 <= ip@[0] && ip@[0] <= 239)
    &&& !(ip@[0] == 0 && ip@[1] == 0 && ip@[2] == 0 && ip@[3] == 0)
}

/// Whether `str0m::change::SdpOffer::from_sdp_string` accepts `text`.
pub uninterp spec fn sdp_offer_parses(text: Seq<char>) -> bool;

/// Whether `str0m::change::SdpAnswer::from_sdp_string` accepts `text`.
pub uninterp spec fn sdp_answer_parses(text: Seq<char>) -> bool;

/// The candidate `str0m::Candidate::from_sdp_string` reads from `text`, or
/// `None` when it refuses the text.
pub uninterp spec fn candidate_from_text(text: Seq<char>) -> Option<Candidate>;

/// The host candidate `str0m::Candidate::host` makes for UDP at `ip:port`.
pub uninterp spec fn host_candidate_of(ip: [u8; 4], port: u16) -> Candidate;

/// The session after `str0m::Rtc::add_local_candidate(c)` on `rtc`.
pub uninterp spec fn session_with_local_candidate(rtc: Rtc, c: Candidate) -> Rtc;

/// The session after `str0m::Rtc::add_remote_candidate(c)` on `rtc`.
pub uninterp spec fn session_with_remote_candidate(rtc: Rtc, c: Candidate) -> Rtc;

/// The payload type of the first codec that `rtc`'s media writer for `mid`
/// offers, or `None` (see `first_payload_type`).
pub uninterp spec fn first_payload_type_of(rtc: Rtc, mid: Mid) -> Option<Pt>;

/// `str0m::Rtc::new` at the current time.
#[verifier::external_body]
fn new_rtc() -> Rtc {
    Rtc::new(std::time::Instant::now())
}

/// `str0m::Candidate::host` for UDP at `ip:port`. As str0m's source shows,
/// it succeeds exactly when the address passes `host_ip_ok` (the protocol
/// text "udp" is always accepted), and the candidate is built from the
/// address alone; the error text is str0m's.
#[verifier::external_body]
fn host_candidate(ip: [u8; 4], port: u16) -> (r: Result<Candidate, String>)
    ensures
        r is Ok <==> host_ip_ok(ip),
        r matches Ok(c) ==> c == host_candidate_of(ip, port),
{
    Candidate::host((ip, port).into(), "udp").map_err(|e| e.to_string())
}

/// `str0m::Rtc::add_local_candidate`: the session becomes the one named by
/// `session_with_local_candidate` (the ICE agent adopts, ranks or rejects
/// the candidate from the session and the candidate alone).
#[verifier::external_body]
fn add_local_candidate(rtc: &mut Rtc, c: Candidate)
    ensures
        *final(rtc) == session_with_local_candidate(*old(rtc), c),
{
    rtc.add_local_candidate(c);
}

/// `str0m::Rtc::add_remote_candidate`: the session becomes the one named by
/// `session_with_remote_candidate`.
#[verifier::external_body]
fn add_remote_candidate(rtc: &mut Rtc, c: Candidate)
    ensures
        *final(rtc) == session_with_remote_candidate(*old(rtc), c),
{
    rtc.add_remote_candidate(c);
}

/// The changes an `SdpApi` holds, in order, each as whether it needs
/// negotiating with the remote peer (str0m's `requires_negotiation`).
pub uninterp spec fn sdp_changes(api: SdpApi) -> Seq<bool>;

/// Whether `text` begins as every SDP text str0m writes does: its session
/// part opens with the version line `v=0`.
pub open spec fn sdp_text_begins(text: Seq<char>) -> bool {
    text.len() >= 5 && text.take(5) == "v=0\r\n"@
}

/// `str0m::Rtc::sdp_api`: starts a set of SDP changes, with none held yet.
#[verifier::external_body]
fn sdp_api<'a>(rtc: &'a mut Rtc) -> (r: SdpApi<'a>)
    ensures
        sdp_changes(r) == Seq::<bool>::empty(),
{
    rtc.sdp_api()
}

/// `str0m::change::SdpApi::add_media` for one send-and-receive audio line
/// with generated stream and track IDs; returns the line's media ID. The
/// change it adds (`Change::AddMedia`) needs negotiating.
#[verifier::external_body]
fn add_audio_media(api: &mut SdpApi) -> (r: Mid)
    ensures
        sdp_changes(*final(api)) == sdp_changes(*old(api)).push(true),
{
    api.add_media(str0m::media::MediaKind::Audio, str0m::media::Direction::SendRecv, None, None, None)
}

/// `str0m::change::SdpApi::apply`: the offer (as SDP text) and the pending
/// offer to complete later. It gives them exactly when some held change
/// needs negotiating (else it makes the changes directly, or there are
/// none); the offer text starts with `v=0`.
#[verifier::external_body]
fn apply_changes(api: SdpApi) -> (r: Option<(String, SdpPendingOffer)>)
    ensures
        (r is Some) == sdp_changes(api).contains(true),
        r matches Some((text, _)) ==> sdp_text_begins(text@),
{
    api.apply().map(|(offer, pending)| (offer.to_sdp_string(), pending))
}

/// `str0m::change::SdpOffer::from_sdp_string`; succeeds exactly when the
/// text is one that `sdp_offer_parses` names as accepted.
#[verifier::external_body]
fn parse_sdp_offer(text: &str) -> (r: Result<SdpOffer, String>)
    ensures
        r is Ok <==> sdp_offer_parses(text@),
{
    SdpOffer::from_sdp_string(text).map_err(|e| e.to_string())
}

/// `str0m::change::SdpAnswer::from_sdp_string`; succeeds exactly when the
/// text is one that `sdp_answer_parses` names as accepted.
#[verifier::external_body]
fn parse_sdp_answer(text: &str) -> (r: Result<SdpAnswer, String>)
    ensures
        r is Ok <==> sdp_answer_parses(text@),
{
    SdpAnswer::from_sdp_string(text).map_err(|e| e.to_string())
}

/// `str0m::Candidate::from_sdp_string`: the candidate that
/// `candidate_from_text` names for the text, or str0m's error text when it
/// names none.
#[verifier::external_body]
fn parse_candidate(text: &str) -> (r: Result<Candidate, String>)
    ensures
        match r {
            Ok(c) => candidate_from_text(text@) == Some(c),
            Err(_) => candidate_from_text(text@) is None,
        },
{
    Candidate::from_sdp_string(text).map_err(|e| e.to_string())
}

/// `str0m::change::SdpApi::accept_offer`: the answer as SDP text, which
/// starts with `v=0`, or str0m's error text. Whether it succeeds depends on
/// the session and is not stated.
#[verifier::external_body]
fn accept_offer_changes(api: SdpApi, offer: SdpOffer) -> (r: Result<String, String>)
    ensures
        r matches Ok(text) ==> sdp_text_begins(text@),
{
    api.accept_offer(offer).map(|answer| answer.to_sdp_string()).map_err(|e| e.to_string())
}

/// `str0m::change::SdpApi::accept_answer`, or str0m's error text. Whether
/// it succeeds depends on the session and is not stated.
#[verifier::external_body]
fn accept_answer_changes(api: SdpApi, pending: SdpPendingOffer, answer: SdpAnswer) -> Result<(), String> {
    api.accept_answer(pending, answer).map_err(|e| e.to_string())
}

/// The payload type of the first codec str0m's media writer for `mid`
/// offers (`Rtc::writer`, `Writer::payload_params`, `PayloadParams::pt`),
/// or `None` when there is no writer (the session is not alive) or no codec
/// was negotiated for the line. str0m panics here only for a session built in
/// RTP mode, and every session here comes from `Rtc::new`, which is not.
/// The result is the one named by `first_payload_type_of` for the session
/// and the line; what the writer leaves in the session is not stated.
#[verifier::external_body]
fn first_payload_type(rtc: &mut Rtc, mid: Mid) -> (r: Option<Pt>)
    ensures
        r == first_payload_type_of(*old(rtc), mid),
{
    rtc.writer(mid).and_then(|w| w.payload_params().next().map(|p| p.pt()))
}

/// `tokio::sync::mpsc::channel` of the given capacity (which tokio requires
/// to be positive). The two ends are opaque here: that the receiver is fed
/// by this sender is the channel's own identity, which no contract names.
#[verifier::external_body]
fn audio_channel(capacity: usize) -> (Sender<Vec<u8>>, Receiver<Vec<u8>>)
    requires
        capacity > 0,
{
    tokio::sync::mpsc::channel(capacity)
}

// ── The connection ─────────────────────────────────────────────────────────

/// A single WebRTC peer connection.
pub struct PeerConnection {
    /// Identifier of the remote peer (their Matrix user ID).
    pub remote_id: String,
    /// Role in SDP negotiation.
    pub role: PeerRole,
    local_ip: [u8; 4],
    local_port: u16,
    rtc: Rtc,
    /// Stored between `create_offer` and `accept_answer` (Offerer role only).
    pending: Option<SdpPendingOffer>,
    mid: Option<Mid>,
    /// Sends encoded audio (Opus bytes) from remote → squelch-audio.
    pub audio_out_tx: Sender<Vec<u8>>,
    /// Receives encoded audio (Opus bytes) from squelch-audio → remote.
    pub audio_in_tx: Sender<Vec<u8>>,
    audio_in_rx: Option<Receiver<Vec<u8>>>,
    /// The two ends that the `audio_channel` call for the remote peer's
    /// audio returned, as it returned them.
    out_channel: Ghost<(Sender<Vec<u8>>, Receiver<Vec<u8>>)>,
    /// The two ends that the `audio_channel` call for the local audio
    /// returned, as it returned them.
    in_channel: Ghost<(Sender<Vec<u8>>, Receiver<Vec<u8>>)>,
    /// The session the last offer was made, or accepted, on: its value at
    /// the moment the SDP step was opened on it.
    negotiated_on: Ghost<Option<Rtc>>,
}

impl PeerConnection {
    /// The two ends of the channel that carries the remote peer's audio, as
    /// one `audio_channel` call returned them.
    pub closed spec fn out_channel(&self) -> (Sender<Vec<u8>>, Receiver<Vec<u8>>) {
        self.out_channel@
    }

    /// The two ends of the channel that carries the local audio to the
    /// remote peer, as one `audio_channel` call returned them.
    pub closed spec fn in_channel(&self) -> (Sender<Vec<u8>>, Receiver<Vec<u8>>) {
        self.in_channel@
    }

    /// The sender the run loop forwards the remote peer's audio into.
    pub closed spec fn out_sender(&self) -> Sender<Vec<u8>> {
        self.audio_out_tx
    }

    /// The sender the local audio is sent to the remote peer through.
    pub closed spec fn in_sender(&self) -> Sender<Vec<u8>> {
        self.audio_in_tx
    }

    /// The receiver kept for the run loop, until it is taken.
    pub closed spec fn in_receiver(&self) -> Option<Receiver<Vec<u8>>> {
        self.audio_in_rx
    }

    /// The session the last offer was made, or accepted, on.
    pub closed spec fn negotiated_on(&self) -> Option<Rtc> {
        self.negotiated_on@
    }

    /// The remote peer's ID.
    pub closed spec fn remote_spec(&self) -> Seq<char> {
        self.remote_id@
    }

    /// The role in SDP negotiation.
    pub closed spec fn role_spec(&self) -> PeerRole {
        self.role
    }

    /// The local address the connection is bound to.
    pub closed spec fn local_ip_spec(&self) -> [u8; 4] {
        self.local_ip
    }

    /// The local port the connection is bound to.
    pub closed spec fn local_port_spec(&self) -> u16 {
        self.local_port
    }

    /// Whether an offer made by `create_offer` awaits its answer.
    pub closed spec fn has_pending_offer(&self) -> bool {
        self.pending is Some
    }

    /// The audio media line, once known.
    pub closed spec fn mid_spec(&self) -> Option<Mid> {
        self.mid
    }

    /// Whether the receiving end of the outgoing-audio channel is still here.
    pub closed spec fn has_audio_in(&self) -> bool {
        self.audio_in_rx is Some
    }

    /// The str0m session the connection drives.
    pub closed spec fn rtc_spec(&self) -> Rtc {
        self.rtc
    }

    /// The same connection with its str0m session replaced by `rtc`.
    pub closed spec fn with_rtc(self, rtc: Rtc) -> Self {
        PeerConnection { rtc, ..self }
    }

    /// Create a new peer connection bound to the local UDP address
    /// `local_ip:local_port`.
    ///
    /// Returns the connection and the channel to receive encoded audio bytes
    /// from the remote peer (connect this to squelch-audio). The receiver is
    /// the other end of the connection's `audio_out_tx` (both came out of one
    /// `audio_channel` call), and the receiver kept for the run loop is the
    /// other end of `audio_in_tx`.
    pub fn new(remote_id: String, role: PeerRole, local_ip: [u8; 4], local_port: u16) -> (r: (
        Self,
        Receiver<Vec<u8>>,
    ))
        ensures
            r.0.remote_spec() == remote_id@,
            r.0.role_spec() == role,
            r.0.local_ip_spec() == local_ip,
            r.0.local_port_spec() == local_port,
            !r.0.has_pending_offer(),
            r.0.mid_spec() is None,
            r.0.has_audio_in(),
            r.0.out_sender() == r.0.out_channel().0,
            r.1 == r.0.out_channel().1,
            r.0.in_sender() == r.0.in_channel().0,
            r.0.in_receiver() == Some(r.0.in_channel().1),
            r.0.negotiated_on() is None,
    {
        let rtc = new_rtc();
        let out_chan = audio_channel(AUDIO_CHAN_SIZE);
        let in_chan = audio_channel(AUDIO_CHAN_SIZE);
        let ghost out_pair = out_chan;
        let ghost in_pair = in_chan;
        let (audio_out_tx, audio_out_rx) = out_chan;
        let (audio_in_tx, audio_in_rx) = in_chan;
        let conn = PeerConnection {
            remote_id,
            role,
            local_ip,
            local_port,
            rtc,
            pending: None,
            mid: None,
            audio_out_tx,
            audio_in_tx,
            audio_in_rx: Some(audio_in_rx),
            out_channel: Ghost(out_pair),
            in_channel: Ghost(in_pair),
            negotiated_on: Ghost(None),
        };
        (conn, audio_out_rx)
    }

    /// The remote peer's ID.
    pub fn remote_id(&self) -> (r: &String)
        ensures
            r@ == self.remote_spec(),
    {
        &self.remote_id
    }

    /// Returns the local UDP address (IPv4 octets and port) of this connection.
    pub fn local_addr(&self) -> (r: ([u8; 4], u16))
        ensures
            r == (self.local_ip_spec(), self.local_port_spec()),
    {
        (self.local_ip, self.local_port)
    }

    /// The audio media line, once known.
    pub fn mid(&self) -> (r: Option<Mid>)
        ensures
            r == self.mid_spec(),
    {
        self.mid
    }

    /// The str0m session, for the run loop.
    ///
    /// The reference reaches the connection's own session: what is written
    /// through it becomes the session, and nothing else in the connection
    /// changes.
    pub fn rtc_mut(&mut self) -> (r: &mut Rtc)
        ensures
            *r == old(self).rtc_spec(),
            *final(self) == old(self).with_rtc(*final(r)),
    {
        &mut self.rtc
    }

    /// Once connected and with the audio line known, look up the payload type
    /// to write audio with, unless the loop already has one; otherwise the
    /// loop's payload type stays. Only the session may change.
    pub fn resolve_audio_pt(&mut self, lp: &mut PeerLoop)
        ensures
            !(old(lp).connected && old(lp).audio_pt is None && old(self).mid_spec() is Some) ==> final(lp).audio_pt
                == old(lp).audio_pt,
            old(lp).connected && old(lp).audio_pt is None ==> (old(self).mid_spec() matches Some(m)
                ==> final(lp).audio_pt == first_payload_type_of(old(self).rtc_spec(), m)),
            final(lp).connected == old(lp).connected,
            final(lp).media_ts == old(lp).media_ts,
            final(lp).disconnected == old(lp).disconnected,
            *final(self) == old(self).with_rtc(final(self).rtc_spec()),
    {
        if lp.connected && lp.audio_pt.is_none() {
            if let Some(mid) = self.mid {
                lp.audio_pt = first_payload_type(&mut self.rtc, mid);
            }
        }
    }

    /// Hand the receiving end of the outgoing-audio channel to the run loop;
    /// it can be taken once.
    pub fn take_audio_in(&mut self) -> (r: Option<Receiver<Vec<u8>>>)
        ensures
            (r is Some) == old(self).has_audio_in(),
            r == old(self).in_receiver(),
            !final(self).has_audio_in(),
            final(self).in_channel() == old(self).in_channel(),
            final(self).in_sender() == old(self).in_sender(),
            final(self).remote_spec() == old(self).remote_spec(),
            final(self).role_spec() == old(self).role_spec(),
            final(self).mid_spec() == old(self).mid_spec(),
            final(self).has_pending_offer() == old(self).has_pending_offer(),
    {
        self.audio_in_rx.take()
    }

    /// The remote peer added a media line: the first audio line names the
    /// connection's audio media.
    pub fn note_media_added(&mut self, is_audio: bool, mid: Mid)
        ensures
            final(self).mid_spec() == if is_audio && old(self).mid_spec() is None {
                Some(mid)
            } else {
                old(self).mid_spec()
            },
            final(self).remote_spec() == old(self).remote_spec(),
            final(self).role_spec() == old(self).role_spec(),
            final(self).has_pending_offer() == old(self).has_pending_offer(),
            final(self).has_audio_in() == old(self).has_audio_in(),
    {
        if is_audio && self.mid.is_none() {
            self.mid = Some(mid);
        }
    }

    /// Create an SDP offer (Offerer role) for one audio line, after adding
    /// the local address as a host candidate.
    ///
    /// Fails with an ICE error when str0m refuses the local address as a
    /// host candidate (0.0.0.0, for one); then nothing changes. On success
    /// the pending offer is kept for [`Self::accept_answer`] and the audio
    /// line is known. The offer is made on the session after the host
    /// candidate was added (`negotiated_on`); as the offer step reaches the
    /// session only through str0m's `SdpApi` and draws random stream and track
    /// IDs, no clause names the session or the offer it leaves.
    pub fn create_offer(&mut self) -> (r: Result<String, WebRtcError>)
        ensures
            !host_ip_ok(old(self).local_ip_spec()) ==> r matches Err(WebRtcError::Ice(_)),
            host_ip_ok(old(self).local_ip_spec()) ==> r is Ok,
            r matches Ok(text) ==> sdp_text_begins(text@),
            r is Ok ==> final(self).negotiated_on() == Some(
                session_with_local_candidate(
                    old(self).rtc_spec(),
                    host_candidate_of(old(self).local_ip_spec(), old(self).local_port_spec()),
                ),
            ),
            r is Ok ==> final(self).has_pending_offer() && final(self).mid_spec() is Some,
            r is Err ==> final(self).has_pending_offer() == old(self).has_pending_offer()
                && final(self).mid_spec() == old(self).mid_spec(),
            final(self).remote_spec() == old(self).remote_spec(),
            final(self).role_spec() == old(self).role_spec(),
            final(self).local_ip_spec() == old(self).local_ip_spec(),
            final(self).local_port_spec() == old(self).local_port_spec(),
            final(self).has_audio_in() == old(self).has_audio_in(),
    {
        let candidate = match host_candidate(self.local_ip, self.local_port) {
            Ok(c) => c,
            Err(e) => {
                return Err(WebRtcError::Ice(e));
            },
        };
        add_local_candidate(&mut self.rtc, candidate);
        self.negotiated_on = Ghost(Some(self.rtc));
        let mut api = sdp_api(&mut self.rtc);
        let mid = add_audio_media(&mut api);
        proof {
            assert(sdp_changes(api)[0]);
        }
        match apply_changes(api) {
            Some((offer, pending)) => {
                self.mid = Some(mid);
                self.pending = Some(pending);
                Ok(offer)
            },
            None => Err(WebRtcError::Sdp(String::from_str("no changes to apply"))),
        }
    }

    /// Accept an SDP offer from the remote peer (Answerer role), after adding
    /// the local address as a host candidate.
    ///
    /// Returns the SDP answer string to send back via Matrix. Fails with an
    /// ICE error when the local address is refused, else with an SDP error
    /// when the offer does not parse or str0m refuses it. The offer is
    /// accepted on the session after the host candidate was added
    /// (`negotiated_on`); as that step reaches the session only through
    /// str0m's `SdpApi`, which holds it borrowed, no clause names the session
    /// it leaves.
    pub fn accept_offer(&mut self, offer_sdp: &str) -> (r: Result<String, WebRtcError>)
        ensures
            !host_ip_ok(old(self).local_ip_spec()) ==> r matches Err(WebRtcError::Ice(_)),
            host_ip_ok(old(self).local_ip_spec()) && !sdp_offer_parses(offer_sdp@) ==> r matches Err(
                WebRtcError::Sdp(_),
            ),
            host_ip_ok(old(self).local_ip_spec()) ==> (r matches Ok(_) || r matches Err(WebRtcError::Sdp(_))),
            r matches Ok(text) ==> sdp_text_begins(text@),
            r is Ok ==> final(self).negotiated_on() == Some(
                session_with_local_candidate(
                    old(self).rtc_spec(),
                    host_candidate_of(old(self).local_ip_spec(), old(self).local_port_spec()),
                ),
            ),
            final(self).has_pending_offer() == old(self).has_pending_offer(),
            final(self).mid_spec() == old(self).mid_spec(),
            final(self).remote_spec() == old(self).remote_spec(),
            final(self).role_spec() == old(self).role_spec(),
            final(self).local_ip_spec() == old(self).local_ip_spec(),
            final(self).local_port_spec() == old(self).local_port_spec(),
            final(self).has_audio_in() == old(self).has_audio_in(),
    {
        let candidate = match host_candidate(self.local_ip, self.local_port) {
            Ok(c) => c,
            Err(e) => {
                return Err(WebRtcError::Ice(e));
            },
        };
        add_local_candidate(&mut self.rtc, candidate);
        let offer = match parse_sdp_offer(offer_sdp) {
            Ok(o) => o,
            Err(e) => {
                return Err(WebRtcError::Sdp(e));
            },
        };
        self.negotiated_on = Ghost(Some(self.rtc));
        match accept_offer_changes(sdp_api(&mut self.rtc), offer) {
            Ok(answer) => Ok(answer),
            Err(e) => Err(WebRtcError::Sdp(e)),
        }
    }

    /// Apply the remote peer's SDP answer (Offerer role, after
    /// [`Self::create_offer`]), using the pending offer, which is used up
    /// either way.
    ///
    /// Fails with "accept_answer called before create_offer" when no offer is
    /// pending, else with an SDP error when the answer does not parse or
    /// str0m refuses it.
    pub fn accept_answer(&mut self, answer_sdp: &str) -> (r: Result<(), WebRtcError>)
        ensures
            !old(self).has_pending_offer() ==> (r matches Err(WebRtcError::Sdp(m)) && m@
                == "accept_answer called before create_offer"@),
            old(self).has_pending_offer() && !sdp_answer_parses(answer_sdp@) ==> r matches Err(
                WebRtcError::Sdp(_),
            ),
            r matches Ok(_) || r matches Err(WebRtcError::Sdp(_)),
            !final(self).has_pending_offer(),
            final(self).mid_spec() == old(self).mid_spec(),
            final(self).remote_spec() == old(self).remote_spec(),
            final(self).role_spec() == old(self).role_spec(),
            final(self).local_ip_spec() == old(self).local_ip_spec(),
            final(self).local_port_spec() == old(self).local_port_spec(),
            final(self).has_audio_in() == old(self).has_audio_in(),
    {
        let pending = match self.pending.take() {
            Some(p) => p,
            None => {
                return Err(WebRtcError::Sdp(String::from_str("accept_answer called before create_offer")));
            },
        };
        let answer = match parse_sdp_answer(answer_sdp) {
            Ok(a) => a,
            Err(e) => {
                return Err(WebRtcError::Sdp(e));
            },
        };
        match accept_answer_changes(sdp_api(&mut self.rtc), pending, answer) {
            Ok(()) => Ok(()),
            Err(e) => Err(WebRtcError::Sdp(e)),
        }
    }

    /// Add a remote ICE candidate to the session. Fails with an ICE error,
    /// leaving the session as it was, exactly when the candidate text does not
    /// parse.
    pub fn add_ice_candidate(&mut self, candidate_str: &str) -> (r: Result<(), WebRtcError>)
        ensures
            r is Ok <==> candidate_from_text(candidate_str@) is Some,
            r is Err ==> r matches Err(WebRtcError::Ice(_)),
            candidate_from_text(candidate_str@) matches Some(c) ==> final(self).rtc_spec()
                == session_with_remote_candidate(old(self).rtc_spec(), c),
            candidate_from_text(candidate_str@) is None ==> final(self).rtc_spec() == old(self).rtc_spec(),
            final(self).has_pending_offer() == old(self).has_pending_offer(),
            final(self).mid_spec() == old(self).mid_spec(),
            final(self).remote_spec() == old(self).remote_spec(),
            final(self).role_spec() == old(self).role_spec(),
            final(self).local_ip_spec() == old(self).local_ip_spec(),
            final(self).local_port_spec() == old(self).local_port_spec(),
            final(self).has_audio_in() == old(self).has_audio_in(),
    {
        let candidate = match parse_candidate(candidate_str) {
            Ok(c) => c,
            Err(e) => {
                return Err(WebRtcError::Ice(e));
            },
        };
        add_remote_candidate(&mut self.rtc, candidate);
        Ok(())
    }
}

// ── Run loop decisions ─────────────────────────────────────────────────────

/// The ICE connection states that the run loop tells apart.
#[derive(Debug, Clone, Copy, PartialEq, Eq, Structural)]
pub enum IceState {
    New,
    Checking,
    Connected,
    Completed,
    Disconnected,
}

/// What the run loop remembers between rounds.
#[derive(Debug)]
pub struct PeerLoop {
    /// Whether ICE reports a usable connection.
    pub connected: bool,
    /// The media clock of the last audio frame sent, in 48kHz ticks.
    pub media_ts: u64,
    /// Whether the remote peer has disconnected.
    pub disconnected: bool,
    /// The payload type audio frames are written with, once known.
    pub audio_pt: Option<Pt>,
}

impl PeerLoop {
    /// The state when the loop starts: not connected, clock at zero.
    pub fn new() -> (r: Self)
        ensures
            !r.connected,
            r.media_ts == 0,
            !r.disconnected,
            r.audio_pt is None,
    {
        PeerLoop { connected: false, media_ts: 0, disconnected: false, audio_pt: None }
    }

    /// Whether the loop goes on for another round: it runs until the remote
    /// peer disconnects or a shutdown is requested.
    pub fn keep_running(&self, shutdown_requested: bool) -> (r: bool)
        ensures
            r == (!self.disconnected && !shutdown_requested),
    {
        !self.disconnected && !shutdown_requested
    }

    /// Where audio frames go this round: the audio line and its payload type,
    /// and only while ICE reports a usable connection. With `None` no frame is
    /// taken from the outgoing-audio channel.
    pub fn frame_target(&self, mid: Option<Mid>) -> (r: Option<(Mid, Pt)>)
        ensures
            r is Some <==> (self.connected && mid is Some && self.audio_pt is Some),
            r matches Some((m, p)) ==> mid == Some(m) && self.audio_pt == Some(p),
    {
        if !self.connected {
            return None;
        }
        match (mid, self.audio_pt) {
            (Some(m), Some(p)) => Some((m, p)),
            _ => None,
        }
    }

    /// An ICE state change: connected exactly in the Connected and Completed
    /// states. A Disconnected state is remembered, so that the loop ends.
    /// Returns whether to stop draining output (on Disconnected).
    pub fn observe_ice(&mut self, state: IceState) -> (stop: bool)
        ensures
            final(self).connected == (state == IceState::Connected || state == IceState::Completed),
            final(self).media_ts == old(self).media_ts,
            final(self).disconnected == (old(self).disconnected || state == IceState::Disconnected),
            final(self).audio_pt == old(self).audio_pt,
            stop == (state == IceState::Disconnected),
    {
        self.connected = state == IceState::Connected || state == IceState::Completed;
        if state == IceState::Disconnected {
            self.disconnected = true;
        }
        state == IceState::Disconnected
    }

    /// The media time of the next audio frame to send: the clock advances
    /// by one frame.
    pub fn next_media_time(&mut self) -> (r: u64)
        requires
            old(self).media_ts + OPUS_FRAME_SAMPLES <= u64::MAX,
        ensures
            r == old(self).media_ts + OPUS_FRAME_SAMPLES,
            final(self).media_ts == r,
            final(self).connected == old(self).connected,
            final(self).disconnected == old(self).disconnected,
            final(self).audio_pt == old(self).audio_pt,
    {
        self.media_ts = self.media_ts + 960;
        self.media_ts
    }
}

} // verus!
