//! The session engine: one peer connection's negotiation state machine,
//! its host candidates, and the media it carries.
//!
//! The negotiation internals (ICE, DTLS, SRTP, SDP parsing) are delegated
//! to the `str0m` state machine, reached only through small trusted
//! wrappers whose contracts state what the calls return. The socket, the
//! HTTP signaling transport and the clock live outside the library: the
//! caller binds the socket, performs each POST, and races the socket
//! against the deadline that [`Client::poll`] hands out, feeding datagrams
//! and elapsed timeouts back in.

use vstd::prelude::*;
use vstd::utf8::encode_utf8;
use vstd::string::StringSliceAdditionalSpecFns;

use crate::net4::{lemma_usable_of_usable, select_candidates, usable_of, IfAddr, IpV4, SockV4};
use crate::sdp::{sanitize_answer, sanitize_spec};
use str0m::change::{SdpAnswer, SdpOffer, SdpPendingOffer};
use str0m::media::Mid;
use str0m::Rtc;

verus! {

/// Claims carried by a WHIP bearer token.
#[derive(Debug)]
pub struct WhipClaims {
    pub whip_url: String,
    pub jti: String,
}

/// The discriminated result of one poll cycle, as seen by a driver.
#[derive(Debug)]
pub enum WebrtcEvent {
    /// No externally visible effect; keep driving.
    Continue,
    /// A decoded media unit arrived from the remote peer.
    Media(Vec<u8>),
    /// Terminal: the session is over.
    Disconnected,
}

/// The error taxonomy of the session engine.
#[derive(Debug)]
pub enum WebrtcError {
    /// HTTP transport or status failure during signaling.
    ServerError(String),
    /// Malformed or unacceptable SDP offer or answer.
    SdpError,
    /// Internal negotiation or state inconsistency.
    WebrtcError(String),
    /// Fatal socket-level failure.
    NetworkError(String),
    /// Outbound media write rejected by the negotiated parameters.
    SendError(String),
    /// Interface enumeration failed or yielded no usable interface.
    NoCandidates,
}

/// The direction of the one media track that an offer proposes.
#[derive(Clone, Copy, PartialEq, Eq, Structural, Debug)]
pub enum TrackDirection {
    SendOnly,
    RecvOnly,
}

/// An ICE connection state, as observed from the state machine.
#[derive(Clone, Copy, PartialEq, Eq, Structural, Debug)]
pub enum IceState {
    New,
    Checking,
    Connected,
    Completed,
    Disconnected,
    Other,
}

/// One event polled out of the state machine, with only what the engine
/// reads: the payload of inbound media, the new ICE state, and the bare
/// kind of everything else.
#[derive(Debug)]
pub enum EventRepr {
    Connected,
    IceChange(IceState),
    MediaAdded,
    Media(Vec<u8>),
    PeerStats,
    IngressStats,
    EgressStats,
    Other,
}

/// What one poll of the state machine produced.
pub enum PollOut {
    /// Polling itself failed, with the error's text.
    Failed(String),
    /// An event to classify.
    Ev(str0m::Event),
    /// A datagram to send, as destination address text and payload.
    Transmit(String, Vec<u8>),
    /// Nothing to do before this deadline.
    Deadline(std::time::Instant),
}

/// What feeding one received datagram into the state machine produced.
pub enum RecvOutcome {
    /// The datagram was consumed.
    Accepted,
    /// The bytes are not a STUN, DTLS, RTP or RTCP datagram.
    BadPacket,
    /// The state machine failed on the input, with the error's text.
    Failed(String),
}

/// One negotiated codec, reduced to what the media sender reads.
#[derive(Clone, Copy, PartialEq, Eq, Structural, Debug)]
pub struct CodecParam {
    /// Whether this is an H.264 codec entry.
    pub h264: bool,
    /// Whether a profile-level-id was negotiated.
    pub has_profile: bool,
    /// The negotiated profile-level-id, meaningful only when present.
    pub profile: u32,
    /// The RTP payload type.
    pub pt: u8,
    /// The codec clock rate in hertz; never zero.
    pub clock_rate: u32,
}

/// What handing one media payload to the transport writer produced.
pub enum WriteOutcome {
    /// The payload was accepted for sending.
    Written,
    /// The track has no writer yet; the payload was dropped silently.
    NoWriter,
    /// The writer rejected the payload, with the error's text.
    Failed(String),
}

#[verifier::external_type_specification]
#[verifier::external_body]
pub struct ExRtc(Rtc);

#[verifier::external_type_specification]
#[verifier::external_body]
pub struct ExSdpPendingOffer(SdpPendingOffer);

#[verifier::external_type_specification]
#[verifier::external_body]
pub struct ExSdpOffer(SdpOffer);

#[verifier::external_type_specification]
#[verifier::external_body]
pub struct ExSdpAnswer(SdpAnswer);

#[verifier::external_type_specification]
#[verifier::external_body]
pub struct ExMid(Mid);

#[verifier::external_type_specification]
#[verifier::external_body]
pub struct ExEvent(str0m::Event);

#[verifier::external_type_specification]
#[verifier::external_body]
pub struct ExInstant(std::time::Instant);

#[verifier::external_type_specification]
#[verifier::external_body]
pub struct ExIceConnectionState(str0m::IceConnectionState);

/// Whether a byte sequence is accepted by the SDP parser as an answer: a
/// fixed function of the bytes alone.
pub uninterp spec fn answer_parses(b: Seq<u8>) -> bool;

/// Whether a byte sequence is accepted by the SDP parser as an offer: a
/// fixed function of the bytes alone.
pub uninterp spec fn offer_parses(b: Seq<u8>) -> bool;

/// Relies on `SdpAnswer::from_sdp_string`: parsing is a function of the
/// text alone.
#[verifier::external_body]
fn parse_answer(b: &[u8]) -> (r: Option<SdpAnswer>)
    ensures
        r is Some <==> answer_parses(b@),
{
    match std::str::from_utf8(b) {
        Ok(s) => SdpAnswer::from_sdp_string(s).ok(),
        Err(_) => None,
    }
}

/// Relies on `SdpOffer::from_sdp_string`: parsing is a function of the
/// text alone.
#[verifier::external_body]
fn parse_offer(b: &[u8]) -> (r: Option<SdpOffer>)
    ensures
        r is Some <==> offer_parses(b@),
{
    match std::str::from_utf8(b) {
        Ok(s) => SdpOffer::from_sdp_string(s).ok(),
        Err(_) => None,
    }
}

/// Relies on `Rtc::builder`: a fresh state machine configured for one
/// low-latency H.264 session with periodic statistics.
#[verifier::external_body]
fn new_rtc() -> Rtc {
    Rtc::builder()
        .clear_codecs()
        .enable_h264(true)
        .set_stats_interval(Some(std::time::Duration::from_secs(2)))
        .set_reordering_size_video(1)
        .set_reordering_size_audio(1)
        .build(std::time::Instant::now())
}

/// Relies on `local_ip_address::list_afinet_netifas`: enumerates the
/// machine's interface addresses, `None` when enumeration fails. Which
/// addresses come back depends on the machine alone.
#[verifier::external_body]
fn list_host_interfaces() -> Option<Vec<IfAddr>> {
    let ifas = local_ip_address::list_afinet_netifas().ok()?;
    Some(ifas.into_iter().map(|(_, ip)| match ip {
        core::net::IpAddr::V4(v) => {
            let o = v.octets();
            IfAddr::V4(IpV4 { a: o[0], b: o[1], c: o[2], d: o[3] })
        }
        core::net::IpAddr::V6(_) => IfAddr::V6,
    }).collect())
}

/// Relies on `Candidate::host` and `Rtc::add_local_candidate`: registers
/// one UDP host candidate for the given endpoint; false when the
/// candidate was refused.
#[verifier::external_body]
fn rtc_add_candidate(rtc: &mut Rtc, ip: IpV4, port: u16) -> bool {
    let addr = core::net::SocketAddr::new(
        core::net::IpAddr::V4(core::net::Ipv4Addr::new(ip.a, ip.b, ip.c, ip.d)),
        port,
    );
    match str0m::Candidate::host(addr, str0m::net::Protocol::Udp) {
        Ok(c) => rtc.add_local_candidate(c).is_some(),
        Err(_) => false,
    }
}

/// Relies on `SdpApi::add_media` and `SdpApi::apply`: proposes one video
/// track with the given direction and returns the offer's SDP text, the
/// pending offer and the track identifier; `None` when the change needs
/// no negotiation.
#[verifier::external_body]
fn rtc_build_offer(rtc: &mut Rtc, dir: TrackDirection) -> Option<(String, SdpPendingOffer, Mid)> {
    let rtc_dir = match dir {
        TrackDirection::SendOnly => str0m::media::Direction::SendOnly,
        TrackDirection::RecvOnly => str0m::media::Direction::RecvOnly,
    };
    let mut change = rtc.sdp_api();
    let mid = change.add_media(
        str0m::media::MediaKind::Video,
        rtc_dir,
        Some("video_0".to_string()),
        Some("video_0".to_string()),
        None,
    );
    let (offer, pending) = change.apply()?;
    Some((offer.to_sdp_string(), pending, mid))
}

/// Relies on `SdpApi::accept_answer`: resolves the pending offer with the
/// parsed answer; false when the state machine rejects it.
#[verifier::external_body]
fn rtc_accept_answer(rtc: &mut Rtc, pending: SdpPendingOffer, answer: SdpAnswer) -> bool {
    rtc.sdp_api().accept_answer(pending, answer).is_ok()
}

/// Relies on `SdpApi::accept_offer` and `SdpAnswer::to_sdp_string`:
/// accepts a parsed remote offer and returns the local answer's SDP text,
/// `None` when the state machine rejects the offer.
#[verifier::external_body]
fn rtc_accept_offer(rtc: &mut Rtc, offer: SdpOffer) -> Option<String> {
    match rtc.sdp_api().accept_offer(offer) {
        Ok(answer) => Some(answer.to_sdp_string()),
        Err(_) => None,
    }
}

/// Relies on `Rtc::poll_output`: one poll of the state machine, its
/// output moved over variant by variant, a transmit's destination as
/// address text and its contents as plain bytes.
#[verifier::external_body]
fn rtc_poll_output(rtc: &mut Rtc) -> PollOut {
    match rtc.poll_output() {
        Err(e) => PollOut::Failed(e.to_string()),
        Ok(str0m::Output::Event(ev)) => PollOut::Ev(ev),
        Ok(str0m::Output::Timeout(t)) => PollOut::Deadline(t),
        Ok(str0m::Output::Transmit(t)) => {
            PollOut::Transmit(t.destination.to_string(), t.contents.to_vec())
        }
    }
}

/// Relies on the `Event` enum of the state machine: each variant the
/// engine reads is told apart and its payload moved, inbound media as its
/// plain bytes.
#[verifier::external_body]
fn event_kind(ev: str0m::Event) -> EventRepr {
    match ev {
        str0m::Event::Connected => EventRepr::Connected,
        str0m::Event::IceConnectionStateChange(s) => EventRepr::IceChange(ice_kind(s)),
        str0m::Event::MediaAdded(_) => EventRepr::MediaAdded,
        str0m::Event::MediaData(m) => EventRepr::Media(m.data.to_vec()),
        str0m::Event::PeerStats(_) => EventRepr::PeerStats,
        str0m::Event::MediaIngressStats(_) => EventRepr::IngressStats,
        str0m::Event::MediaEgressStats(_) => EventRepr::EgressStats,
        _ => EventRepr::Other,
    }
}

/// Relies on the `IceConnectionState` enum: each variant told apart.
#[verifier::external_body]
fn ice_kind(s: str0m::IceConnectionState) -> IceState {
    match s {
        str0m::IceConnectionState::New => IceState::New,
        str0m::IceConnectionState::Checking => IceState::Checking,
        str0m::IceConnectionState::Connected => IceState::Connected,
        str0m::IceConnectionState::Completed => IceState::Completed,
        str0m::IceConnectionState::Disconnected => IceState::Disconnected,
        _ => IceState::Other,
    }
}

/// Relies on `Instant::now`: whether the deadline has already passed.
/// The answer depends on the clock, so nothing holds of it.
#[verifier::external_body]
fn deadline_passed(t: &std::time::Instant) -> bool {
    *t <= std::time::Instant::now()
}

/// Relies on `Rtc::handle_input` with a timeout input: drives time
/// forward; the error's text when the state machine fails on it.
#[verifier::external_body]
fn rtc_handle_timeout(rtc: &mut Rtc) -> Option<String> {
    match rtc.handle_input(str0m::Input::Timeout(std::time::Instant::now())) {
        Ok(()) => None,
        Err(e) => Some(e.to_string()),
    }
}

/// Relies on `Receive::new` and `Rtc::handle_input`: wraps one received
/// datagram with its source and destination endpoints and feeds it in.
#[verifier::external_body]
fn rtc_handle_receive(rtc: &mut Rtc, source: SockV4, dest: SockV4, contents: &[u8]) -> RecvOutcome {
    let s = source.ip;
    let d = dest.ip;
    let src = (core::net::Ipv4Addr::new(s.a, s.b, s.c, s.d), source.port).into();
    let dst = (core::net::Ipv4Addr::new(d.a, d.b, d.c, d.d), dest.port).into();
    let recv = match str0m::net::Receive::new(str0m::net::Protocol::Udp, src, dst, contents) {
        Ok(r) => r,
        Err(_) => return RecvOutcome::BadPacket,
    };
    match rtc.handle_input(str0m::Input::Receive(std::time::Instant::now(), recv)) {
        Ok(()) => RecvOutcome::Accepted,
        Err(e) => RecvOutcome::Failed(e.to_string()),
    }
}

/// Relies on `Rtc::codec_config`: the negotiated codecs, each reduced to
/// its kind, profile, payload type and clock rate.
#[verifier::external_body]
fn rtc_codec_params(rtc: &Rtc) -> Vec<CodecParam> {
    rtc.codec_config()
        .params()
        .iter()
        .map(|p| CodecParam {
            h264: p.spec().codec == str0m::format::Codec::H264,
            has_profile: p.spec().format.profile_level_id.is_some(),
            profile: p.spec().format.profile_level_id.unwrap_or(0),
            pt: *p.pt(),
            clock_rate: p.spec().clock_rate.get(),
        })
        .collect()
}

/// Relies on `Rtc::writer` and `Writer::write`: hands one payload with
/// its RTP time to the transport writer of the given track.
#[verifier::external_body]
fn rtc_write_media(
    rtc: &mut Rtc,
    mid: Mid,
    pt: u8,
    rtp_time: u64,
    clock_rate: u32,
    data: &[u8],
) -> WriteOutcome {
    let freq = match str0m::media::Frequency::new(clock_rate) {
        Some(f) => f,
        None => return WriteOutcome::Failed("zero clock rate".to_string()),
    };
    let writer = match rtc.writer(mid) {
        Some(w) => w,
        None => return WriteOutcome::NoWriter,
    };
    let time = str0m::media::MediaTime::new(rtp_time, freq);
    match writer.write(pt.into(), std::time::Instant::now(), time, data.to_vec()) {
        Ok(()) => WriteOutcome::Written,
        Err(e) => WriteOutcome::Failed(e.to_string()),
    }
}

/// One peer connection: the negotiation state machine, the chosen local
/// endpoint, the candidate set, the negotiated video track, and a ghost
/// record of every media payload handed to the transport writer.
pub struct Client {
    rtc: Rtc,
    pending: Option<SdpPendingOffer>,
    video_mid: Option<Mid>,
    local: SockV4,
    candidates: Ghost<Seq<IpV4>>,
    submitted: Ghost<Seq<Seq<u8>>>,
}

impl Client {
    /// The host candidates registered with the state machine, in
    /// registration order.
    pub closed spec fn candidates(self) -> Seq<IpV4> {
        self.candidates@
    }

    /// Every media payload handed to the transport writer, in order.
    pub closed spec fn submitted(self) -> Seq<Seq<u8>> {
        self.submitted@
    }

    /// Whether an offer is pending: generated locally and not yet
    /// resolved by an answer. At most one offer is pending at a time.
    pub closed spec fn has_pending(self) -> bool {
        self.pending is Some
    }

    /// Whether negotiation has assigned the video track its identifier.
    pub closed spec fn negotiated(self) -> bool {
        self.video_mid is Some
    }

    /// The local endpoint used to stamp inbound datagrams.
    pub closed spec fn local_endpoint(self) -> SockV4 {
        self.local
    }

    /// Everything of the model except the submitted payloads is as it
    /// was.
    pub open spec fn same_session(self, other: Client) -> bool {
        self.candidates() == other.candidates() && self.has_pending() == other.has_pending()
            && self.negotiated() == other.negotiated() && self.local_endpoint()
            == other.local_endpoint()
    }

    /// Whether an offer is pending, for callers outside verified code.
    pub fn is_pending(&self) -> (r: bool)
        ensures
            r == self.has_pending(),
    {
        self.pending.is_some()
    }

    /// Whether the video track identifier has been assigned, for callers
    /// outside verified code.
    pub fn is_negotiated(&self) -> (r: bool)
        ensures
            r == self.negotiated(),
    {
        self.video_mid.is_some()
    }

    /// Build a session from an already enumerated interface list: one
    /// host candidate per usable IPv4 interface, all bound to the given
    /// local port, the last usable address chosen as the local endpoint;
    /// `NoCandidates` exactly when no interface qualifies.
    pub fn from_interfaces(port: u16, ifs: &Vec<IfAddr>) -> (r: Result<Client, WebrtcError>)
        ensures
            r is Err <==> usable_of(ifs@).len() == 0,
            r is Err ==> r->Err_0 is NoCandidates,
            r is Ok ==> r->Ok_0.candidates() == usable_of(ifs@) && r->Ok_0.local_endpoint().ip
                == usable_of(ifs@).last() && r->Ok_0.local_endpoint().port == port && !r
                ->Ok_0.has_pending() && !r->Ok_0.negotiated() && r->Ok_0.submitted()
                == Seq::<Seq<u8>>::empty(),
    {
        let cands = select_candidates(ifs);
        if cands.len() == 0 {
            return Err(WebrtcError::NoCandidates);
        }
        let mut rtc = new_rtc();
        let ghost mut registered: Seq<IpV4> = Seq::<IpV4>::empty();
        let mut i: usize = 0;
        while i < cands.len()
            invariant
                i <= cands.len(),
                registered == cands@.take(i as int),
            decreases cands.len() - i,
        {
            rtc_add_candidate(&mut rtc, cands[i], port);
            proof {
                registered = registered.push(cands@[i as int]);
                assert(registered =~= cands@.take(i + 1));
            }
            i += 1;
        }
        assert(cands@.take(cands.len() as int) =~= cands@);
        let ip = cands[cands.len() - 1];
        Ok(
            Client {
                rtc,
                pending: None,
                video_mid: None,
                local: SockV4 { ip, port },
                candidates: Ghost(registered),
                submitted: Ghost(Seq::<Seq<u8>>::empty()),
            },
        )
    }

    /// Create a session bound to the given local port: enumerate the
    /// machine's interfaces and register one host candidate per usable
    /// IPv4 interface. `NoCandidates` when enumeration fails or nothing
    /// qualifies; on success the candidate set is nonempty, every
    /// candidate is usable, and the local endpoint is the last of them.
    pub fn new(port: u16) -> (r: Result<Client, WebrtcError>)
        ensures
            r is Err ==> r->Err_0 is NoCandidates,
            r is Ok ==> r->Ok_0.candidates().len() > 0 && (forall|k: int|
                0 <= k < r->Ok_0.candidates().len() ==> (#[trigger] r->Ok_0.candidates()[k]).is_usable())
                && r->Ok_0.local_endpoint().ip == r->Ok_0.candidates().last()
                && r->Ok_0.local_endpoint().port == port && !r->Ok_0.has_pending() && !r
                ->Ok_0.negotiated() && r->Ok_0.submitted() == Seq::<Seq<u8>>::empty(),
    {
        match list_host_interfaces() {
            None => Err(WebrtcError::NoCandidates),
            Some(ifs) => {
                proof {
                    lemma_usable_of_usable(ifs@);
                }
                Client::from_interfaces(port, &ifs)
            },
        }
    }

    /// Propose one video track with the given direction: build the offer
    /// and keep it pending until an answer resolves it. On success the
    /// offer's SDP text is returned, an offer is pending and the track
    /// identifier is assigned; `SdpError` when the state machine yields
    /// no offer to negotiate.
    pub fn create_offer(&mut self, dir: TrackDirection) -> (r: Result<String, WebrtcError>)
        requires
            !old(self).has_pending(),
        ensures
            final(self).candidates() == old(self).candidates(),
            final(self).submitted() == old(self).submitted(),
            final(self).local_endpoint() == old(self).local_endpoint(),
            r is Ok ==> final(self).has_pending() && final(self).negotiated(),
            r is Err ==> r->Err_0 is SdpError && !final(self).has_pending()
                && final(self).negotiated() == old(self).negotiated(),
    {
        match rtc_build_offer(&mut self.rtc, dir) {
            None => Err(WebrtcError::SdpError),
            Some((offer, pending, mid)) => {
                self.pending = Some(pending);
                self.video_mid = Some(mid);
                Ok(offer)
            },
        }
    }

    /// Resolve the pending offer with the remote answer: sanitize the
    /// answer text, parse it, and commit it to the state machine. The
    /// pending offer is consumed either way; `SdpError` exactly when the
    /// sanitized answer does not parse. A parsed answer that the state
    /// machine still rejects is dropped without error, as the exchange
    /// treats acceptance failures as non-fatal.
    pub fn apply_answer(&mut self, answer: &str) -> (r: Result<(), WebrtcError>)
        requires
            old(self).has_pending(),
        ensures
            !final(self).has_pending(),
            final(self).candidates() == old(self).candidates(),
            final(self).submitted() == old(self).submitted(),
            final(self).local_endpoint() == old(self).local_endpoint(),
            final(self).negotiated() == old(self).negotiated(),
            r is Ok <==> answer_parses(sanitize_spec(answer.spec_bytes())),
            r is Err ==> r->Err_0 is SdpError,
    {
        let clean = sanitize_answer(answer.as_bytes());
        let pending = self.pending.take().unwrap();
        match parse_answer(clean.as_slice()) {
            None => Err(WebrtcError::SdpError),
            Some(ans) => {
                rtc_accept_answer(&mut self.rtc, pending, ans);
                Ok(())
            },
        }
    }

    /// Answer an inbound WHIP offer: parse the remote offer, let the
    /// state machine accept it, and return the local answer's SDP text.
    /// `SdpError` when the offer does not parse or the state machine
    /// rejects it; an offer that does not parse is always an error.
    pub fn accept_whip_request(&mut self, offer: String) -> (r: Result<String, WebrtcError>)
        ensures
            final(self).same_session(*old(self)),
            final(self).submitted() == old(self).submitted(),
            !offer_parses(encode_utf8(offer@)) ==> r is Err,
            r is Err ==> r->Err_0 is SdpError,
    {
        match parse_offer(offer.as_str().as_bytes()) {
            None => Err(WebrtcError::SdpError),
            Some(o) => match rtc_accept_offer(&mut self.rtc, o) {
                Some(answer) => Ok(answer),
                None => Err(WebrtcError::SdpError),
            },
        }
    }

    /// Drive the session one step: poll the state machine once. An event
    /// is classified and reported; a datagram to send is handed out with
    /// its destination; a deadline already passed feeds a timeout input
    /// at once (a failure there is non-fatal) and reports `Continue`; a
    /// deadline still ahead is handed out for the caller to race against
    /// the socket.
    pub fn poll(&mut self) -> (r: Result<DriveStep, WebrtcError>)
        ensures
            final(self).same_session(*old(self)),
            final(self).submitted() == old(self).submitted(),
            r is Err ==> r->Err_0 is WebrtcError,
    {
        match rtc_poll_output(&mut self.rtc) {
            PollOut::Failed(msg) => Err(WebrtcError::WebrtcError(msg)),
            PollOut::Ev(ev) => Ok(DriveStep::Report(classify_event(event_kind(ev)))),
            PollOut::Transmit(dest, data) => Ok(DriveStep::Transmit(dest, data)),
            PollOut::Deadline(t) => {
                if deadline_passed(&t) {
                    rtc_handle_timeout(&mut self.rtc);
                    Ok(DriveStep::Report(WebrtcEvent::Continue))
                } else {
                    Ok(DriveStep::Wait(t))
                }
            },
        }
    }

    /// Feed one received datagram into the state machine, stamped with
    /// the session's local endpoint as destination. A datagram that is
    /// not transport traffic, or a state machine failure on it, is fatal.
    pub fn handle_datagram(&mut self, source: SockV4, data: &[u8]) -> (r: Result<
        WebrtcEvent,
        WebrtcError,
    >)
        ensures
            final(self).same_session(*old(self)),
            final(self).submitted() == old(self).submitted(),
            r is Ok ==> r->Ok_0 is Continue,
            r is Err ==> r->Err_0 is NetworkError || r->Err_0 is WebrtcError,
    {
        let dest = self.local;
        match rtc_handle_receive(&mut self.rtc, source, dest, data) {
            RecvOutcome::Accepted => Ok(WebrtcEvent::Continue),
            RecvOutcome::BadPacket => Err(
                WebrtcError::NetworkError(String::from_str("datagram not recognized")),
            ),
            RecvOutcome::Failed(msg) => Err(WebrtcError::WebrtcError(msg)),
        }
    }

    /// Feed a timeout input after the handed-out deadline elapsed with no
    /// datagram. A state machine failure here ends the session.
    pub fn handle_timeout(&mut self) -> (r: Result<WebrtcEvent, WebrtcError>)
        ensures
            final(self).same_session(*old(self)),
            final(self).submitted() == old(self).submitted(),
            r is Ok ==> r->Ok_0 is Continue,
            r is Err ==> r->Err_0 is WebrtcError,
    {
        match rtc_handle_timeout(&mut self.rtc) {
            None => Ok(WebrtcEvent::Continue),
            Some(msg) => Err(WebrtcError::WebrtcError(msg)),
        }
    }

    /// Send one encoded video unit with its presentation time, given in
    /// microseconds since session start. Before negotiation completes
    /// (no track identifier assigned) this is a no-op that succeeds. With
    /// a track, the negotiated H.264 parameters are looked up, the time
    /// is rebased to the codec's clock rate, and the payload is handed to
    /// the transport writer exactly once; `SendError` when no matching
    /// parameters are negotiated or the writer rejects the payload.
    pub fn send_video(&mut self, frame: &[u8], pts_micros: u64) -> (r: Result<(), WebrtcError>)
        ensures
            final(self).same_session(*old(self)),
            !old(self).negotiated() ==> r is Ok && final(self).submitted() == old(self).submitted(),
            old(self).negotiated() ==> final(self).submitted() == old(self).submitted().push(frame@)
                || (r is Err && final(self).submitted() == old(self).submitted()),
            r is Err ==> r->Err_0 is SendError,
    {
        if self.video_mid.is_none() {
            return Ok(());
        }
        let params = rtc_codec_params(&self.rtc);
        let idx = match find_h264_params(&params) {
            None => {
                return Err(
                    WebrtcError::SendError(String::from_str("no negotiated H.264 parameters")),
                );
            },
            Some(i) => i,
        };
        let p = params[idx];
        let rtp = rebase_rtp_time(pts_micros, p.clock_rate);
        let mid = self.video_mid.unwrap();
        let out = rtc_write_media(&mut self.rtc, mid, p.pt, rtp, p.clock_rate, frame);
        self.submitted = Ghost(self.submitted@.push(frame@));
        match out {
            WriteOutcome::Failed(msg) => Err(WebrtcError::SendError(msg)),
            _ => Ok(()),
        }
    }
}

/// One step handed to the driver of a session.
pub enum DriveStep {
    /// An externally visible event.
    Report(WebrtcEvent),
    /// A datagram to send: destination address text and payload. Send
    /// failures are non-fatal, as delivery is best effort; the cycle
    /// counts as `Continue`.
    Transmit(String, Vec<u8>),
    /// Nothing to do before this deadline: wait for a datagram or for
    /// the deadline, whichever comes first.
    Wait(std::time::Instant),
}

/// How one polled event is classified: a transition to the disconnected
/// ICE state ends the session, inbound media is surfaced, and everything
/// else (connection made, statistics, track additions) drives on.
pub open spec fn classify_spec(e: EventRepr) -> WebrtcEvent {
    match e {
        EventRepr::IceChange(s) => if s is Disconnected {
            WebrtcEvent::Disconnected
        } else {
            WebrtcEvent::Continue
        },
        EventRepr::Media(d) => WebrtcEvent::Media(d),
        _ => WebrtcEvent::Continue,
    }
}

/// Classify one polled event.
pub fn classify_event(e: EventRepr) -> (r: WebrtcEvent)
    ensures
        r == classify_spec(e),
{
    match e {
        EventRepr::IceChange(s) => match s {
            IceState::Disconnected => WebrtcEvent::Disconnected,
            _ => WebrtcEvent::Continue,
        },
        EventRepr::Media(d) => WebrtcEvent::Media(d),
        _ => WebrtcEvent::Continue,
    }
}

/// The reports of a session driven over a sequence of events: each event
/// is classified and reported, and the first `Disconnected` report ends
/// the run, events after it never being processed.
pub open spec fn run_session(events: Seq<EventRepr>) -> Seq<WebrtcEvent>
    decreases events.len(),
{
    if events.len() == 0 {
        Seq::<WebrtcEvent>::empty()
    } else {
        let r = classify_spec(events[0]);
        if r is Disconnected {
            seq![WebrtcEvent::Disconnected]
        } else {
            seq![r] + run_session(events.skip(1))
        }
    }
}

/// Law: a `Disconnected` report, if any, is the last report of a run:
/// it is reported exactly once and no event is processed afterward.
pub proof fn lemma_disconnected_terminal(events: Seq<EventRepr>)
    ensures
        forall|i: int|
            0 <= i < run_session(events).len() && run_session(events)[i] is Disconnected ==> i
                == run_session(events).len() - 1,
    decreases events.len(),
{
    if events.len() > 0 {
        let r = classify_spec(events[0]);
        if !(r is Disconnected) {
            lemma_disconnected_terminal(events.skip(1));
            let rest = run_session(events.skip(1));
            assert(forall|i: int|
                1 <= i < run_session(events).len() ==> run_session(events)[i] == rest[i - 1]);
        }
    }
}

/// Law: a session driven with a connection event and then a transition
/// to the disconnected ICE state reports `Continue` then `Disconnected`
/// and stops, whatever events would follow.
pub proof fn lemma_connect_then_disconnect(tail: Seq<EventRepr>)
    ensures
        run_session(
            seq![EventRepr::Connected, EventRepr::IceChange(IceState::Disconnected)] + tail,
        ) == seq![WebrtcEvent::Continue, WebrtcEvent::Disconnected],
{
    let evs = seq![EventRepr::Connected, EventRepr::IceChange(IceState::Disconnected)] + tail;
    assert(evs[0] == EventRepr::Connected);
    let rest = evs.skip(1);
    assert(rest[0] == EventRepr::IceChange(IceState::Disconnected));
    assert(run_session(rest) == seq![WebrtcEvent::Disconnected]);
    assert(run_session(evs) == seq![WebrtcEvent::Continue] + seq![WebrtcEvent::Disconnected]);
    assert(seq![WebrtcEvent::Continue] + seq![WebrtcEvent::Disconnected] =~= seq![
        WebrtcEvent::Continue,
        WebrtcEvent::Disconnected,
    ]);
}

/// What a failed receive on the socket means: a connection reset is
/// transient and the drive cycle goes on; anything else is fatal.
pub fn classify_recv_failure(reset: bool, msg: String) -> (r: Result<WebrtcEvent, WebrtcError>)
    ensures
        reset ==> r is Ok && r->Ok_0 is Continue,
        !reset ==> r == Result::<WebrtcEvent, WebrtcError>::Err(WebrtcError::NetworkError(msg)),
{
    if reset {
        Ok(WebrtcEvent::Continue)
    } else {
        Err(WebrtcError::NetworkError(msg))
    }
}

/// The codec entry the sender looks for: H.264 with the one supported
/// profile-level-id.
pub open spec fn h264_param_match(p: CodecParam) -> bool {
    p.h264 && p.has_profile && p.profile == 4382751
}

/// The first negotiated codec entry matching the supported H.264
/// profile, if any.
pub fn find_h264_params(params: &Vec<CodecParam>) -> (r: Option<usize>)
    ensures
        r is None ==> forall|k: int| 0 <= k < params@.len() ==> !h264_param_match(params@[k]),
        r is Some ==> r->0 < params@.len() && h264_param_match(params@[r->0 as int]) && forall|
            k: int,
        | 0 <= k < r->0 ==> !h264_param_match(params@[k]),
{
    let mut i: usize = 0;
    while i < params.len()
        invariant
            i <= params.len(),
            forall|k: int| 0 <= k < i ==> !h264_param_match(params@[k]),
        decreases params.len() - i,
    {
        let p = params[i];
        if p.h264 && p.has_profile && p.profile == 4382751 {
            return Some(i);
        }
        i += 1;
    }
    None
}

/// A presentation time in microseconds rebased to a codec clock rate:
/// the whole number of clock ticks, as the transport's time type
/// computes it, truncated to its word size.
pub open spec fn rtp_time_of(pts_micros: u64, clock_rate: u32) -> int {
    (pts_micros * clock_rate) / 1000000
}

/// Rebase a presentation time to a codec clock rate.
pub fn rebase_rtp_time(pts_micros: u64, clock_rate: u32) -> (r: u64)
    ensures
        r == rtp_time_of(pts_micros, clock_rate) % 0x10000000000000000,
        rtp_time_of(pts_micros, clock_rate) <= u64::MAX ==> r == rtp_time_of(
            pts_micros,
            clock_rate,
        ),
{
    assert((pts_micros as int) * (clock_rate as int) <= (u64::MAX as int) * (u32::MAX as int))
        by (nonlinear_arith)
        requires
            pts_micros <= u64::MAX,
            clock_rate <= u32::MAX,
    ;
    let v: u128 = pts_micros as u128 * clock_rate as u128 / 1000000;
    assert(v == rtp_time_of(pts_micros, clock_rate));
    let r = #[verifier::truncate] (v as u64);
    assert(r == v % 0x10000000000000000) by (bit_vector)
        requires
            r == v as u64,
    ;
    r
}

} // verus!
