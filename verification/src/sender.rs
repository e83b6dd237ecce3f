//! The WebRTC side of the sender: the codec it offers, the ICE servers it
//! uses, and the assembly of the WebRTC API object.

use vstd::prelude::*;
use webrtc::api::media_engine::MediaEngine;
use webrtc::api::API;
use webrtc::interceptor::registry::Registry;
use webrtc::peer_connection::configuration::RTCConfiguration;

verus! {

#[verifier::external_type_specification]
#[verifier::external_body]
pub struct ExMediaEngine(MediaEngine);

#[verifier::external_type_specification]
#[verifier::external_body]
pub struct ExRegistry(Registry);

#[verifier::external_type_specification]
#[verifier::external_body]
pub struct ExApi(API);

#[verifier::external_type_specification]
#[verifier::external_body]
pub struct ExRtcConfiguration(RTCConfiguration);

#[verifier::external_type_specification]
#[verifier::external_body]
pub struct ExWebrtcError(webrtc::Error);

/// Clock rate of the offered audio codec, in Hz.
pub const CODEC_CLOCK_RATE: u32 = 48000;

/// Channel count of the offered audio codec.
pub const CODEC_CHANNELS: u16 = 2;

/// RTP payload type of the offered audio codec.
pub const CODEC_PAYLOAD_TYPE: u8 = 111;

/// Number of interceptors that the default configuration adds: NACK
/// responder and generator, receiver and sender reports, TWCC receiver.
pub const DEFAULT_INTERCEPTOR_COUNT: usize = 5;

/// The kind of media a codec carries.
#[derive(Debug, Clone, Copy, PartialEq, Eq)]
pub enum CodecKind {
    Audio,
    Video,
}

/// One RTCP feedback mechanism of a codec.
pub struct RtcpFeedback {
    pub typ: String,
    pub parameter: String,
}

/// A codec to register with the media engine.
pub struct CodecSettings {
    pub mime_type: String,
    pub clock_rate: u32,
    pub channels: u16,
    pub sdp_fmtp_line: String,
    pub rtcp_feedback: Vec<RtcpFeedback>,
    pub payload_type: u8,
    pub kind: CodecKind,
}

/// The plain content of an RTCP feedback entry.
pub struct FeedbackSpec {
    pub typ: Seq<char>,
    pub parameter: Seq<char>,
}

/// The kind of credential an ICE server is reached with.
pub enum IceCredentialKind {
    Unspecified,
    Password,
    Oauth,
}

/// The plain content of an ICE server entry.
pub struct IceServerSpec {
    pub urls: Seq<Seq<char>>,
    pub username: Seq<char>,
    pub credential: Seq<char>,
    pub credential_type: IceCredentialKind,
}

/// The plain content of a registered codec.
pub struct CodecSpec {
    pub mime_type: Seq<char>,
    pub clock_rate: u32,
    pub channels: u16,
    pub sdp_fmtp_line: Seq<char>,
    pub rtcp_feedback: Seq<FeedbackSpec>,
    pub payload_type: u8,
}

impl View for RtcpFeedback {
    type V = FeedbackSpec;

    open spec fn view(&self) -> FeedbackSpec {
        FeedbackSpec { typ: self.typ@, parameter: self.parameter@ }
    }
}

impl View for CodecSettings {
    type V = CodecSpec;

    open spec fn view(&self) -> CodecSpec {
        CodecSpec {
            mime_type: self.mime_type@,
            clock_rate: self.clock_rate,
            channels: self.channels,
            sdp_fmtp_line: self.sdp_fmtp_line@,
            rtcp_feedback: self.rtcp_feedback@.map_values(|f: RtcpFeedback| f@),
            payload_type: self.payload_type,
        }
    }
}

/// The audio codecs registered with a media engine, in order.
pub uninterp spec fn engine_audio_codecs(engine: MediaEngine) -> Seq<CodecSpec>;

/// The video codecs registered with a media engine, in order.
pub uninterp spec fn engine_video_codecs(engine: MediaEngine) -> Seq<CodecSpec>;

/// The number of RTP header extensions registered with a media engine.
pub uninterp spec fn engine_header_extension_count(engine: MediaEngine) -> nat;

/// The number of interceptor builders held by a registry.
pub uninterp spec fn registry_builder_count(registry: Registry) -> nat;

/// The audio codecs of the media engine that an API object was built with.
pub uninterp spec fn api_audio_codecs(api: API) -> Seq<CodecSpec>;

/// The video codecs of the media engine that an API object was built with.
pub uninterp spec fn api_video_codecs(api: API) -> Seq<CodecSpec>;

/// The number of interceptor builders of the registry that an API object
/// was built with.
pub uninterp spec fn api_builder_count(api: API) -> nat;

/// The ICE servers of a configuration, in order.
pub uninterp spec fn config_ice_servers(config: RTCConfiguration) -> Seq<IceServerSpec>;

/// Every field of a configuration other than its ICE servers is the one of
/// `RTCConfiguration::default()`.
pub uninterp spec fn config_other_fields_default(config: RTCConfiguration) -> bool;

/// The transport-wide congestion control feedback entry.
pub open spec fn transport_cc_feedback() -> FeedbackSpec {
    FeedbackSpec { typ: "transport-cc"@, parameter: Seq::empty() }
}

/// The codecs after the default interceptors are configured: each audio
/// codec gets the transport-wide congestion control feedback appended.
pub open spec fn with_transport_cc(codecs: Seq<CodecSpec>) -> Seq<CodecSpec> {
    codecs.map_values(
        |c: CodecSpec| CodecSpec { rtcp_feedback: c.rtcp_feedback.push(transport_cc_feedback()), ..c },
    )
}

/// The codecs after the default interceptors are configured: each video
/// codec gets the NACK, picture-loss NACK and transport-cc feedback appended.
pub open spec fn with_default_video_feedback(codecs: Seq<CodecSpec>) -> Seq<CodecSpec> {
    codecs.map_values(
        |c: CodecSpec|
            CodecSpec {
                rtcp_feedback: c.rtcp_feedback.push(FeedbackSpec { typ: "nack"@, parameter: Seq::empty() }).push(
                    FeedbackSpec { typ: "nack"@, parameter: "pli"@ },
                ).push(transport_cc_feedback()),
                ..c
            },
    )
}

/// The plain content of the Opus codec the sender offers.
pub open spec fn opus_codec_spec() -> CodecSpec {
    CodecSpec {
        mime_type: "audio/opus"@,
        clock_rate: CODEC_CLOCK_RATE,
        channels: CODEC_CHANNELS,
        sdp_fmtp_line: "minptime=10;useinbandfec=1"@,
        rtcp_feedback: Seq::empty(),
        payload_type: CODEC_PAYLOAD_TYPE,
    }
}

/// The URL of the ICE server the sender uses.
pub open spec fn stun_server_url() -> Seq<char> {
    "stun:stun.l.google.com:19302"@
}

/// The one ICE server the sender uses: Google's public STUN server, with
/// the default (empty) user name and credential and the default credential
/// type.
pub open spec fn stun_server() -> IceServerSpec {
    IceServerSpec {
        urls: seq![stun_server_url()],
        username: Seq::empty(),
        credential: Seq::empty(),
        credential_type: IceCredentialKind::Password,
    }
}

/// The engine the sender expects: the Opus codec of `opus_codec_settings`
/// registered as its only codec, and no header extension.
pub open spec fn opus_only_engine(engine: MediaEngine) -> bool {
    &&& engine_audio_codecs(engine) == seq![opus_codec_spec()]
    &&& engine_video_codecs(engine) == Seq::<CodecSpec>::empty()
    &&& engine_header_extension_count(engine) == 0
}

/// Why the sender could not be set up.
#[derive(Debug, Clone, Copy, PartialEq, Eq)]
pub enum SenderError {
    /// The default interceptors could not be configured.
    Interceptors,
}

/// What the sender needs to open peer connections.
pub struct SenderSetup {
    pub api: API,
    pub config: RTCConfiguration,
}

/// The sender of captured audio.
pub struct AudioSender {}

/// `webrtc::api::media_engine::MIME_TYPE_OPUS`, which the webrtc source
/// defines as `"audio/opus"`.
#[verifier::external_body]
fn mime_type_opus() -> (m: &'static str)
    ensures
        m@ == "audio/opus"@,
{
    webrtc::api::media_engine::MIME_TYPE_OPUS
}

/// `MediaEngine::default`: an engine with no codec and no header extension.
#[verifier::external_body]
fn new_media_engine() -> (m: MediaEngine)
    ensures
        engine_audio_codecs(m) == Seq::<CodecSpec>::empty(),
        engine_video_codecs(m) == Seq::<CodecSpec>::empty(),
        engine_header_extension_count(m) == 0,
{
    MediaEngine::default()
}

/// `Registry::new`: a registry with no interceptor builder.
#[verifier::external_body]
fn new_interceptor_registry() -> (r: Registry)
    ensures
        registry_builder_count(r) == 0,
{
    Registry::new()
}

/// `register_default_interceptors`: adds the NACK, RTCP report and TWCC
/// receiver interceptors (five builders) and registers their feedback and
/// the transport-cc header extension. It fails only when a header extension
/// cannot be registered, which cannot happen on an engine with none; where
/// it succeeds, every audio codec has gained the transport-cc feedback and
/// every video codec the NACK, picture-loss NACK and transport-cc feedback.
/// It never adds or removes a codec.
#[verifier::external_body]
fn default_interceptors(registry: Registry, engine: &mut MediaEngine) -> (r: Result<Registry, webrtc::Error>)
    ensures
        engine_header_extension_count(*old(engine)) == 0 ==> r is Ok,
        r matches Ok(reg) ==> registry_builder_count(reg) == registry_builder_count(registry) + DEFAULT_INTERCEPTOR_COUNT,
        r is Ok ==> engine_audio_codecs(*final(engine)) == with_transport_cc(engine_audio_codecs(*old(engine))),
        r is Ok ==> engine_video_codecs(*final(engine)) == with_default_video_feedback(
            engine_video_codecs(*old(engine)),
        ),
{
    webrtc::api::interceptor_registry::register_default_interceptors(registry, engine)
}

/// `APIBuilder` with the given media engine and interceptor registry, built:
/// the API holds exactly that engine and that registry.
#[verifier::external_body]
fn build_api(engine: MediaEngine, registry: Registry) -> (api: API)
    ensures
        api_audio_codecs(api) == engine_audio_codecs(engine),
        api_video_codecs(api) == engine_video_codecs(engine),
        api_builder_count(api) == registry_builder_count(registry),
{
    webrtc::api::APIBuilder::new().with_media_engine(engine).with_interceptor_registry(registry).build()
}

/// An `RTCConfiguration` with one ICE server reached under `urls`, whose
/// user name and credential are empty and whose credential type is the
/// default (`Password`); every other setting is at its default.
#[verifier::external_body]
fn rtc_configuration(urls: Vec<String>) -> (config: RTCConfiguration)
    ensures
        config_ice_servers(config) == seq![
            IceServerSpec {
                urls: urls@.map_values(|u: String| u@),
                username: Seq::empty(),
                credential: Seq::empty(),
                credential_type: IceCredentialKind::Password,
            },
        ],
        config_other_fields_default(config),
{
    RTCConfiguration {
        ice_servers: vec![webrtc::ice_transport::ice_server::RTCIceServer { urls, ..Default::default() }],
        ..Default::default()
    }
}

/// The Opus codec the sender offers: audio at 48 kHz, stereo, payload type
/// 111, with a 10 ms minimum packet time, in-band forward error correction
/// and no RTCP feedback of its own.
pub fn opus_codec_settings() -> (c: CodecSettings)
    ensures
        c@ == opus_codec_spec(),
        c.kind == CodecKind::Audio,
{
    let c = CodecSettings {
        mime_type: mime_type_opus().to_string(),
        clock_rate: CODEC_CLOCK_RATE,
        channels: CODEC_CHANNELS,
        sdp_fmtp_line: "minptime=10;useinbandfec=1".to_string(),
        rtcp_feedback: Vec::new(),
        payload_type: CODEC_PAYLOAD_TYPE,
        kind: CodecKind::Audio,
    };
    assert(c@.rtcp_feedback =~= Seq::<FeedbackSpec>::empty());
    c
}

/// The URLs of the ICE server the sender uses: Google's public STUN server.
pub fn ice_server_urls() -> (urls: Vec<String>)
    ensures
        urls@.len() == 1,
        urls@[0]@ == stun_server_url(),
{
    let mut urls: Vec<String> = Vec::new();
    urls.push("stun:stun.l.google.com:19302".to_string());
    urls
}

impl SenderSetup {
    /// Finishes the setup from a media engine and the outcome of configuring
    /// its default interceptors: a failed configuration is reported as
    /// `SenderError::Interceptors`; otherwise the API is built from the
    /// engine and the registry, with a configuration whose one ICE server is
    /// `stun_server()` and whose other settings are the defaults.
    pub fn assemble(engine: MediaEngine, interceptors: Result<Registry, webrtc::Error>) -> (r: Result<SenderSetup, SenderError>)
        ensures
            r is Ok <==> interceptors is Ok,
            r matches Err(e) ==> e == SenderError::Interceptors,
            r matches Ok(s) ==> {
                &&& api_audio_codecs(s.api) == engine_audio_codecs(engine)
                &&& api_video_codecs(s.api) == engine_video_codecs(engine)
                &&& interceptors matches Ok(reg) && api_builder_count(s.api) == registry_builder_count(reg)
                &&& config_ice_servers(s.config) == seq![stun_server()]
                &&& config_other_fields_default(s.config)
            },
    {
        match interceptors {
            Ok(registry) => {
                let urls = ice_server_urls();
                let api = build_api(engine, registry);
                let config = rtc_configuration(urls);
                assert(urls@.map_values(|u: String| u@) =~= seq![stun_server_url()]);
                Ok(SenderSetup { api, config })
            },
            Err(_) => Err(SenderError::Interceptors),
        }
    }
}

impl AudioSender {
    /// A sender.
    pub fn new() -> (s: AudioSender) {
        AudioSender {}
    }

    /// Prepares the sender; there is nothing to prepare yet.
    pub fn init() {
    }

    /// Sets up the WebRTC side on `engine`, which holds the codecs to offer
    /// (registered by the caller; see `opus_codec_settings`): the five
    /// default interceptors are configured on it, and the API is built from
    /// it with a configuration whose one ICE server is `stun_server()`.
    /// On an engine without header extensions it always succeeds; any
    /// failure comes from the interceptors. On the engine the sender
    /// expects, the API then holds the Opus codec as its only codec, with
    /// the transport-cc feedback that the interceptors add.
    pub fn run(engine: MediaEngine) -> (r: Result<SenderSetup, SenderError>)
        ensures
            engine_header_extension_count(engine) == 0 ==> r is Ok,
            r matches Err(e) ==> e == SenderError::Interceptors,
            r matches Ok(s) ==> {
                &&& api_audio_codecs(s.api) == with_transport_cc(engine_audio_codecs(engine))
                &&& api_video_codecs(s.api) == with_default_video_feedback(engine_video_codecs(engine))
                &&& api_builder_count(s.api) == DEFAULT_INTERCEPTOR_COUNT
                &&& config_ice_servers(s.config) == seq![stun_server()]
                &&& config_other_fields_default(s.config)
            },
            opus_only_engine(engine) ==> (r matches Ok(s) && api_audio_codecs(s.api) == with_transport_cc(
                seq![opus_codec_spec()],
            ) && api_video_codecs(s.api) == Seq::<CodecSpec>::empty()),
    {
        let mut engine = engine;
        let interceptors = default_interceptors(new_interceptor_registry(), &mut engine);
        let r = SenderSetup::assemble(engine, interceptors);
        proof {
            assert(with_default_video_feedback(Seq::<CodecSpec>::empty()) =~= Seq::<CodecSpec>::empty());
        }
        r
    }

    /// Ends sending; there is nothing to release yet.
    pub fn end() {
    }

    /// Writes encoded audio; nothing is sent yet.
    pub fn write_opus() {
    }
}

} // verus!
