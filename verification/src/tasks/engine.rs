//! The WebRTC engine as the sessions see it: an opaque value that is fed
//! datagrams and timeouts and polled for what it wants done next.
//!
//! Everything in this file that touches the engine is trusted; what a session
//! decides on the engine's answers is verified in the session modules.

use crate::io::NetAddr;
use crate::tasks::{
    KeyframeRequestKind, MediaKind, RtpData, TrackMedia, MAX_PAYLOAD_TYPE, MAX_RTP_PAYLOAD,
};
use std::time::Duration;
use str0m::net::{Protocol, Receive};
use str0m::rtp::RtpWrite;
use str0m::Input;
use vstd::prelude::*;

verus! {

/// The engine itself, `str0m::Rtc`.
#[verifier::external_type_specification]
#[verifier::external_body]
pub struct ExRtc(str0m::Rtc);

/// A point in time as the engine counts it, `std::time::Instant`.
#[verifier::external_type_specification]
#[verifier::external_body]
pub struct ExInstant(std::time::Instant);

/// The name of a media line, `str0m::media::Mid`.
#[verifier::external_type_specification]
#[verifier::external_body]
pub struct ExMid(str0m::media::Mid);

/// A media time with its clock frequency, `str0m::media::MediaTime`.
#[verifier::external_type_specification]
#[verifier::external_body]
pub struct ExMediaTime(str0m::media::MediaTime);

/// A parsed RTP header, `str0m::rtp::RtpHeader`.
#[verifier::external_type_specification]
#[verifier::external_body]
pub struct ExRtpHeader(str0m::rtp::RtpHeader);

/// A DTLS certificate with its key, `str0m::config::DtlsCert`.
#[verifier::external_type_specification]
#[verifier::external_body]
pub struct ExDtlsCert(str0m::config::DtlsCert);

/// A datagram that the engine wants sent, `str0m::net::Transmit`.
#[verifier::external_type_specification]
#[verifier::external_body]
pub struct ExTransmit(str0m::net::Transmit);

/// An event of the engine, `str0m::Event`.
#[verifier::external_type_specification]
#[verifier::external_body]
pub struct ExEvent(str0m::Event);

/// The declaration of a media line, `str0m::media::MediaAdded`.
#[verifier::external_type_specification]
#[verifier::external_body]
pub struct ExMediaAdded(str0m::media::MediaAdded);

/// The state of the ICE connection, `str0m::IceConnectionState`.
#[verifier::external_type_specification]
#[verifier::external_body]
pub struct ExIceConnectionState(str0m::IceConnectionState);

/// An RTP packet as the engine delivers it, `str0m::rtp::RtpPacket`.
#[verifier::external_type_specification]
#[verifier::external_body]
pub struct ExRtpPacket(str0m::rtp::RtpPacket);

/// A request for a keyframe, `str0m::media::KeyframeRequest`.
#[verifier::external_type_specification]
#[verifier::external_body]
pub struct ExKeyframeRequest(str0m::media::KeyframeRequest);

/// A socket address of any family, `socket2::SockAddr`.
#[verifier::external_type_specification]
#[verifier::external_body]
pub struct ExSockAddr(socket2::SockAddr);

/// One engine instance together with the instant from which the session
/// counts time.
pub struct Engine {
    rtc: str0m::Rtc,
    epoch: std::time::Instant,
}

/// What one poll of the engine hands back, as the sessions read it. Times are
/// in nanoseconds since the epoch that the engine was built with.
#[allow(inconsistent_fields)]
pub enum EngineOutput {
    /// The engine wants a timeout at this time and has nothing else pending.
    Timeout(u64),
    /// A datagram to put on the wire.
    Transmit { from: NetAddr, to: NetAddr, buf: Vec<u8> },
    /// ICE and DTLS are established.
    Connected,
    /// The peer declared a media line.
    MediaAdded { mid: str0m::media::Mid, kind: MediaKind },
    /// The ICE connection changed state.
    IceConnectionStateChange(IceState),
    /// An RTP packet from the peer.
    RtpPacket(RtpData),
    /// The peer asks for a keyframe on a media line that it receives.
    KeyframeRequest { mid: str0m::media::Mid, kind: KeyframeRequestKind },
    /// Any other event; the sessions ignore these.
    Other,
}

/// The states of the ICE connection.
#[derive(Clone, Copy, Debug, PartialEq, Eq, Structural)]
pub enum IceState {
    New,
    Checking,
    Connected,
    Completed,
    Disconnected,
}

/// The three kinds of answer to a poll, their payloads still as the engine made them.
enum Polled {
    Timeout(std::time::Instant),
    Transmit(str0m::net::Transmit),
    Event(str0m::Event),
}

/// The events that the sessions read, their payloads still as the engine made them.
enum Happened {
    Connected,
    MediaAdded(str0m::media::MediaAdded),
    IceConnectionStateChange(str0m::IceConnectionState),
    RtpPacket(str0m::rtp::RtpPacket),
    KeyframeRequest(str0m::media::KeyframeRequest),
    Other,
}

/// `Rtc::poll_output`: the engine's next output, or nothing where the engine
/// reports an error. Nothing is claimed of which output comes.
#[verifier::external_body]
fn poll_output(rtc: &mut str0m::Rtc) -> Option<Polled> {
    match rtc.poll_output() {
        Ok(str0m::Output::Timeout(at)) => Some(Polled::Timeout(at)),
        Ok(str0m::Output::Transmit(transmit)) => Some(Polled::Transmit(transmit)),
        Ok(str0m::Output::Event(event)) => Some(Polled::Event(event)),
        Err(_) => None,
    }
}

/// Tells the variants of `str0m::Event` apart, one arm for each that a session reads.
#[verifier::external_body]
fn event_kind(event: str0m::Event) -> Happened {
    match event {
        str0m::Event::Connected => Happened::Connected,
        str0m::Event::MediaAdded(added) => Happened::MediaAdded(added),
        str0m::Event::IceConnectionStateChange(state) => Happened::IceConnectionStateChange(state),
        str0m::Event::RtpPacket(packet) => Happened::RtpPacket(packet),
        str0m::Event::KeyframeRequest(request) => Happened::KeyframeRequest(request),
        _ => Happened::Other,
    }
}

/// `Instant::saturating_duration_since`, in whole nanoseconds: how long
/// after `epoch` the instant `at` lies, zero where it lies before it.
/// Nothing where the count does not fit into 64 bits.
#[verifier::external_body]
fn nanos_between(epoch: &std::time::Instant, at: std::time::Instant) -> Option<u64> {
    u64::try_from(at.saturating_duration_since(*epoch).as_nanos()).ok()
}

/// `Instant::checked_add`: the instant `nanos` nanoseconds after `epoch`,
/// or nothing where it cannot be represented.
#[verifier::external_body]
fn instant_at(epoch: &std::time::Instant, nanos: u64) -> Option<std::time::Instant> {
    epoch.checked_add(Duration::from_nanos(nanos))
}

/// Takes a `str0m::net::Transmit` apart: source, destination and contents.
#[verifier::external_body]
fn transmit_parts(transmit: str0m::net::Transmit) -> (
    socket2::SockAddr,
    socket2::SockAddr,
    Vec<u8>,
) {
    (transmit.source.into(), transmit.destination.into(), transmit.contents.into())
}

/// `SockAddr::as_socket_ipv4` and `SockAddr::as_socket_ipv6`: address and port
/// of an IPv4 or IPv6 socket address, nothing for any other family. The flow
/// information and scope of an IPv6 address are not carried over.
#[verifier::external_body]
fn net_addr(addr: &socket2::SockAddr) -> Option<NetAddr> {
    match (addr.as_socket_ipv4(), addr.as_socket_ipv6()) {
        (Some(v4), _) => Some(NetAddr::V4 { ip: v4.ip().to_bits(), port: v4.port() }),
        (_, Some(v6)) => Some(NetAddr::V6 { ip: v6.ip().to_bits(), port: v6.port() }),
        _ => None,
    }
}

/// The media line and the kind of media that a `str0m::media::MediaAdded` names.
#[verifier::external_body]
fn media_added_parts(added: str0m::media::MediaAdded) -> (str0m::media::Mid, MediaKind) {
    match added.kind {
        str0m::media::MediaKind::Audio => (added.mid, MediaKind::Audio),
        str0m::media::MediaKind::Video => (added.mid, MediaKind::Video),
    }
}

/// Tells the variants of `str0m::IceConnectionState` apart.
#[verifier::external_body]
fn ice_state(state: str0m::IceConnectionState) -> IceState {
    match state {
        str0m::IceConnectionState::New => IceState::New,
        str0m::IceConnectionState::Checking => IceState::Checking,
        str0m::IceConnectionState::Connected => IceState::Connected,
        str0m::IceConnectionState::Completed => IceState::Completed,
        str0m::IceConnectionState::Disconnected => IceState::Disconnected,
    }
}

/// When the engine received `packet`: the `timestamp` of a
/// `str0m::rtp::RtpPacket`.
#[verifier::external_body]
fn rtp_received_at(packet: &str0m::rtp::RtpPacket) -> std::time::Instant {
    packet.timestamp
}

/// Takes a `str0m::rtp::RtpPacket` apart, field by field; the payload type
/// is read out of the header, and `timestamp` stands for the receipt time.
#[verifier::external_body]
fn rtp_parts(packet: str0m::rtp::RtpPacket, timestamp: u64) -> (data: RtpData)
    ensures
        data.timestamp == timestamp,
{
    RtpData {
        seq_no: *packet.seq_no,
        time: packet.time,
        payload_type: *packet.header.payload_type,
        header: packet.header,
        payload: packet.payload.to_vec(),
        timestamp,
    }
}

/// The media line and the kind of request that a `str0m::media::KeyframeRequest` names.
#[verifier::external_body]
fn keyframe_parts(request: str0m::media::KeyframeRequest) -> (
    str0m::media::Mid,
    KeyframeRequestKind,
) {
    match request.kind {
        str0m::media::KeyframeRequestKind::Pli => (request.mid, KeyframeRequestKind::Pli),
        str0m::media::KeyframeRequestKind::Fir => (request.mid, KeyframeRequestKind::Fir),
    }
}

/// `RtcConfig::build`, on a configuration with the given RTP mode, ICE-lite
/// mode and DTLS certificate, for an engine that starts at `start`. Nothing
/// is claimed of the engine that comes back. The engine expects that DTLS
/// can be set up with the certificate, as it can with one that
/// `generate_cert` has made; a `Certificate` holds no other.
#[verifier::external_body]
fn build_rtc(
    cert: str0m::config::DtlsCert,
    start: std::time::Instant,
    rtp_mode: bool,
    ice_lite: bool,
) -> str0m::Rtc {
    let config = str0m::Rtc::builder().set_rtp_mode(rtp_mode).set_ice_lite(ice_lite);
    config.set_dtls_cert(cert).build(start)
}

/// An engine with the given RTP mode, ICE-lite mode and DTLS certificate
/// that counts time from `epoch`. It starts `now` nanoseconds after `epoch`,
/// or at `epoch` itself where that instant cannot be represented.
pub(crate) fn build_engine(
    cert: Certificate,
    epoch: std::time::Instant,
    now: u64,
    rtp_mode: bool,
    ice_lite: bool,
) -> (engine: Engine)
    ensures
        engine.epoch() == epoch,
{
    let start = match instant_at(&epoch, now) {
        Some(start) => start,
        None => epoch,
    };
    Engine { rtc: build_rtc(cert.cert, start, rtp_mode, ice_lite), epoch }
}

/// `DirectApi::enable_twcc_feedback`.
#[verifier::external_body]
fn twcc_feedback(rtc: &mut str0m::Rtc) {
    rtc.direct_api().enable_twcc_feedback();
}

/// Lets the engine send transport-wide feedback on what it receives.
pub(crate) fn enable_twcc_feedback(engine: &mut Engine)
    ensures
        final(engine).epoch() == old(engine).epoch(),
{
    twcc_feedback(&mut engine.rtc);
}

/// `DirectApi::local_ice_credentials`: the username fragment of the engine's
/// own ICE credentials. The engine draws it at random, so nothing is claimed
/// of the text.
#[verifier::external_body]
fn ice_ufrag(rtc: &mut str0m::Rtc) -> String {
    rtc.direct_api().local_ice_credentials().ufrag
}

/// The username fragment of the engine's own ICE credentials.
pub(crate) fn local_ufrag(engine: &mut Engine) -> (ufrag: String)
    ensures
        final(engine).epoch() == old(engine).epoch(),
{
    ice_ufrag(&mut engine.rtc)
}

/// `Candidate::host` and `Rtc::add_local_candidate`: offers `addr` as a local
/// UDP host candidate. Says whether the engine took it.
#[verifier::external_body]
fn host_candidate(rtc: &mut str0m::Rtc, addr: NetAddr) -> bool {
    let host = match addr {
        NetAddr::V4 { ip, port } => (ip.to_be_bytes(), port).into(),
        NetAddr::V6 { ip, port } => (ip.to_be_bytes(), port).into(),
    };
    match str0m::Candidate::host(host, "udp") {
        Ok(candidate) => rtc.add_local_candidate(candidate).is_some(),
        Err(_) => false,
    }
}

/// Offers `addr` to the engine as a local UDP host candidate. Says whether
/// the engine took it.
pub(crate) fn add_local_candidate(engine: &mut Engine, addr: NetAddr) -> (taken: bool)
    ensures
        final(engine).epoch() == old(engine).epoch(),
{
    host_candidate(&mut engine.rtc, addr)
}

/// `SdpOffer::from_sdp_string` and `SdpApi::accept_offer`: reads `body` as an
/// SDP offer and accepts it. Gives the bytes of the SDP answer, or nothing
/// where the engine refuses the offer.
#[verifier::external_body]
fn answer_to(rtc: &mut str0m::Rtc, body: &[u8]) -> Option<Vec<u8>> {
    let offer = str0m::change::SdpOffer::from_sdp_string(&String::from_utf8_lossy(body)).ok()?;
    let answer = rtc.sdp_api().accept_offer(offer).ok()?;
    Some(answer.to_sdp_string().into_bytes())
}

/// Hands the engine the SDP offer in `body`. Gives the bytes of the SDP
/// answer, or nothing where the engine refuses the offer.
pub(crate) fn accept_offer(engine: &mut Engine, body: &[u8]) -> (answer: Option<Vec<u8>>)
    ensures
        final(engine).epoch() == old(engine).epoch(),
{
    answer_to(&mut engine.rtc, body)
}

/// `Rtc::handle_input` with `Input::Timeout` at `at`. Says whether the
/// engine took it.
#[verifier::external_body]
fn timeout_at(rtc: &mut str0m::Rtc, at: std::time::Instant) -> bool {
    rtc.handle_input(Input::Timeout(at)).is_ok()
}

/// Tells the engine that `now` nanoseconds after the epoch have come. Says
/// whether the engine took it, which it does not where that instant cannot
/// be represented.
pub(crate) fn handle_timeout(engine: &mut Engine, now: u64) -> (taken: bool)
    ensures
        final(engine).epoch() == old(engine).epoch(),
{
    match instant_at(&engine.epoch, now) {
        Some(at) => timeout_at(&mut engine.rtc, at),
        None => false,
    }
}

/// `Receive::new` and `Rtc::handle_input` with `Input::Receive`: hands the
/// engine one UDP datagram received at `at`. Says whether the engine could
/// read and took it.
#[verifier::external_body]
fn receive_at(
    rtc: &mut str0m::Rtc,
    at: std::time::Instant,
    from: NetAddr,
    to: NetAddr,
    buf: &[u8],
) -> bool {
    let source = match from {
        NetAddr::V4 { ip, port } => (ip.to_be_bytes(), port).into(),
        NetAddr::V6 { ip, port } => (ip.to_be_bytes(), port).into(),
    };
    let destination = match to {
        NetAddr::V4 { ip, port } => (ip.to_be_bytes(), port).into(),
        NetAddr::V6 { ip, port } => (ip.to_be_bytes(), port).into(),
    };
    match Receive::new(Protocol::Udp, source, destination, buf) {
        Ok(receive) => rtc.handle_input(Input::Receive(at, receive)).is_ok(),
        Err(_) => false,
    }
}

/// Hands the engine one UDP datagram received `now` nanoseconds after the
/// epoch. Says whether the engine could read and took it, which it does not
/// where that instant cannot be represented.
pub(crate) fn handle_receive(
    engine: &mut Engine,
    now: u64,
    from: NetAddr,
    to: NetAddr,
    buf: &[u8],
) -> (taken: bool)
    ensures
        final(engine).epoch() == old(engine).epoch(),
{
    match instant_at(&engine.epoch, now) {
        Some(at) => receive_at(&mut engine.rtc, at, from, to, buf),
        None => false,
    }
}

/// `DirectApi::stream_tx_by_mid` and `StreamTx::write_rtp`: queues `media` on
/// the outbound stream of media line `mid`, with its sequence number, RTP
/// time, marker and header extension values as they came and `at` as the
/// time of its receipt. Says whether the engine has such a stream. When it
/// later writes the packet into a datagram, the engine asserts that the
/// payload type fits in seven bits, and copies the payload into a buffer of
/// 2000 bytes behind the header.
#[verifier::external_body]
fn write_at(
    rtc: &mut str0m::Rtc,
    at: std::time::Instant,
    mid: str0m::media::Mid,
    media: TrackMedia,
    nackable: bool,
) -> bool
    requires
        media.payload_type <= MAX_PAYLOAD_TYPE,
        media.payload@.len() <= MAX_RTP_PAYLOAD,
{
    let mut api = rtc.direct_api();
    let Some(stream) = api.stream_tx_by_mid(mid, None) else {
        return false;
    };
    let (pt, seq_no) = (media.payload_type.into(), media.seq_no.into());
    let write = RtpWrite::new(pt, seq_no, media.header.timestamp, at, media.payload);
    let write = write.marker(media.header.marker).ext_vals(media.header.ext_vals);
    stream.write_rtp(write.nackable(nackable));
    true
}

/// Queues `media` on the outbound stream of media line `mid`, with the
/// time of its receipt counted from the epoch. Says whether the engine took
/// it, which it does not where it has no such stream or that instant cannot
/// be represented.
pub(crate) fn write_rtp(
    engine: &mut Engine,
    mid: str0m::media::Mid,
    media: TrackMedia,
    nackable: bool,
) -> (taken: bool)
    requires
        media.payload_type <= MAX_PAYLOAD_TYPE,
        media.payload@.len() <= MAX_RTP_PAYLOAD,
    ensures
        final(engine).epoch() == old(engine).epoch(),
{
    match instant_at(&engine.epoch, media.timestamp) {
        Some(at) => write_at(&mut engine.rtc, at, mid, media, nackable),
        None => false,
    }
}

/// `DirectApi::stream_rx_by_mid` and `StreamRx::request_keyframe`: asks the
/// sender on media line `mid` for a keyframe. Says whether the engine has
/// such a stream.
#[verifier::external_body]
fn keyframe_from(rtc: &mut str0m::Rtc, mid: str0m::media::Mid, kind: KeyframeRequestKind) -> bool {
    let kind = match kind {
        KeyframeRequestKind::Pli => str0m::media::KeyframeRequestKind::Pli,
        KeyframeRequestKind::Fir => str0m::media::KeyframeRequestKind::Fir,
    };
    match rtc.direct_api().stream_rx_by_mid(mid, None) {
        Some(stream) => {
            stream.request_keyframe(kind);
            true
        },
        None => false,
    }
}

/// Asks the sender on media line `mid` for a keyframe. Says whether the
/// engine has a receive stream on that line.
pub(crate) fn request_keyframe(
    engine: &mut Engine,
    mid: str0m::media::Mid,
    kind: KeyframeRequestKind,
) -> (asked: bool)
    ensures
        final(engine).epoch() == old(engine).epoch(),
{
    keyframe_from(&mut engine.rtc, mid, kind)
}

impl Engine {
    /// The instant from which the engine's times are counted.
    pub closed spec fn epoch(&self) -> std::time::Instant {
        self.epoch
    }

    /// How long after the epoch the instant `at` lies, in nanoseconds: zero
    /// where it lies before the epoch, `u64::MAX` where the count does not
    /// fit into 64 bits.
    fn nanos_since_epoch(&self, at: std::time::Instant) -> u64 {
        match nanos_between(&self.epoch, at) {
            Some(nanos) => nanos,
            None => u64::MAX,
        }
    }

    /// Polls the engine once and puts what it hands back into the sessions'
    /// terms. Nothing comes back where the engine reports an error; a
    /// datagram whose addresses are neither IPv4 nor IPv6 comes back as
    /// `Other`. Times are counted from the epoch, which stays as it is.
    pub(crate) fn poll(&mut self) -> (out: Option<EngineOutput>)
        ensures
            final(self).epoch() == old(self).epoch(),
    {
        match poll_output(&mut self.rtc) {
            None => None,
            Some(Polled::Timeout(at)) => Some(EngineOutput::Timeout(self.nanos_since_epoch(at))),
            Some(Polled::Transmit(transmit)) => {
                let (source, destination, buf) = transmit_parts(transmit);
                Some(EngineOutput::transmit(net_addr(&source), net_addr(&destination), buf))
            },
            Some(Polled::Event(event)) => match event_kind(event) {
                Happened::Connected => Some(EngineOutput::Connected),
                Happened::MediaAdded(added) => {
                    let (mid, kind) = media_added_parts(added);
                    Some(EngineOutput::MediaAdded { mid, kind })
                },
                Happened::IceConnectionStateChange(state) => Some(
                    EngineOutput::IceConnectionStateChange(ice_state(state)),
                ),
                Happened::RtpPacket(packet) => {
                    let timestamp = self.nanos_since_epoch(rtp_received_at(&packet));
                    Some(EngineOutput::RtpPacket(rtp_parts(packet, timestamp)))
                },
                Happened::KeyframeRequest(request) => {
                    let (mid, kind) = keyframe_parts(request);
                    Some(EngineOutput::KeyframeRequest { mid, kind })
                },
                Happened::Other => Some(EngineOutput::Other),
            },
        }
    }
}

impl EngineOutput {
    /// What a datagram with the contents `buf` that the engine wants sent
    /// comes to, where `from` and `to` are its addresses as far as they are
    /// IPv4 or IPv6 addresses: a `Transmit` where both are, else `Other`.
    pub open spec fn spec_transmit(
        from: Option<NetAddr>,
        to: Option<NetAddr>,
        buf: Vec<u8>,
    ) -> EngineOutput {
        match (from, to) {
            (Some(from), Some(to)) => EngineOutput::Transmit { from, to, buf },
            _ => EngineOutput::Other,
        }
    }

    /// What a datagram with the contents `buf` that the engine wants sent
    /// comes to: a `Transmit` where both of its addresses are IPv4 or IPv6
    /// addresses, else `Other`.
    pub fn transmit(from: Option<NetAddr>, to: Option<NetAddr>, buf: Vec<u8>) -> (out:
        EngineOutput)
        ensures
            out == Self::spec_transmit(from, to, buf),
    {
        match (from, to) {
            (Some(from), Some(to)) => EngineOutput::Transmit { from, to, buf },
            _ => EngineOutput::Other,
        }
    }
}

/// `<RtpHeader as Clone>::clone`: a header equal to `header`.
#[verifier::external_body]
pub(crate) fn clone_header(header: &str0m::rtp::RtpHeader) -> (copy: str0m::rtp::RtpHeader)
    ensures
        copy == *header,
{
    header.clone()
}

/// `<DtlsCert as Clone>::clone`: a certificate equal to `cert`.
#[verifier::external_body]
fn clone_cert(cert: &str0m::config::DtlsCert) -> (copy: str0m::config::DtlsCert)
    ensures
        copy == *cert,
{
    cert.clone()
}

/// `str0m::crypto::from_feature_flags` and `DtlsProvider::generate_certificate`:
/// a new self-signed DTLS certificate, or nothing where the crypto provider
/// makes none. The key is drawn at random, so nothing is claimed of it.
#[verifier::external_body]
fn generate_cert() -> Option<str0m::config::DtlsCert> {
    str0m::crypto::from_feature_flags().dtls_provider.generate_certificate()
}

/// A DTLS certificate that the crypto provider has made, so that an engine
/// can set DTLS up with it. There is no other way to come by one.
pub struct Certificate {
    cert: str0m::config::DtlsCert,
}

impl Certificate {
    /// A new self-signed certificate, or nothing where the crypto provider
    /// makes none.
    pub fn generate() -> (made: Option<Certificate>) {
        match generate_cert() {
            Some(cert) => Some(Certificate { cert }),
            None => None,
        }
    }

    /// The same certificate once more, for one more session.
    pub fn duplicate(&self) -> (copy: Certificate)
        ensures
            copy == *self,
    {
        Certificate { cert: clone_cert(&self.cert) }
    }
}

} // verus!
