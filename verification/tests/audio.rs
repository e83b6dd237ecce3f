use std::collections::VecDeque;

use audio_relay::capture::{
    chunk_bytes, decode_samples, decode_samples_ordered, encode_samples, encode_samples_ordered, get_client, next_chunk, sample_queue_capacity,
    AudioCaptureClientWindows, FrameBuffer, CAPTURE_CHUNK_FRAMES, FRAME_SAMPLES,
};
use audio_relay::sender::{CodecKind, ice_server_urls, opus_codec_settings, AudioSender, SenderError, SenderSetup};
use webrtc::api::media_engine::MediaEngine;
use webrtc::rtp_transceiver::rtp_codec::{RTCRtpCodecCapability, RTCRtpCodecParameters, RTPCodecType};
use webrtc::interceptor::registry::Registry;

#[test]
fn capture_client_uses_chunks_of_4096_frames() {
    assert_eq!(get_client().chunksize(), 4096);
    assert_eq!(AudioCaptureClientWindows::new().chunksize(), CAPTURE_CHUNK_FRAMES);
}

#[test]
fn chunk_and_queue_sizes() {
    assert_eq!(chunk_bytes(2, 4096), 8192);
    assert_eq!(chunk_bytes(0, 4096), 0);
    assert_eq!(sample_queue_capacity(2, 480), 396800);
    assert_eq!(sample_queue_capacity(2, 0), 204800);
}

#[test]
fn queue_is_chunked_only_when_it_holds_more_than_a_chunk() {
    let mut q: VecDeque<u8> = (0u8..4).collect();
    assert_eq!(next_chunk(&mut q, 4), None);
    assert_eq!(q.len(), 4);
    q.push_back(4);
    assert_eq!(next_chunk(&mut q, 4), Some(vec![0, 1, 2, 3]));
    assert_eq!(q, VecDeque::from(vec![4u8]));
    assert_eq!(next_chunk(&mut q, 0), Some(vec![]));
    assert_eq!(q.len(), 1);
}

#[test]
fn samples_are_read_in_machine_byte_order() {
    let s = decode_samples(&[0x34, 0x12, 0xff, 0xff]);
    assert_eq!(s.len(), 2);
    assert_eq!(s[0], i16::from_ne_bytes([0x34, 0x12]));
    assert!(s[0] == 0x1234 || s[0] == 0x3412);
    assert_eq!(s[1], -1);
    assert_eq!(decode_samples(&[]), Vec::<i16>::new());
}

#[test]
fn samples_are_written_in_machine_byte_order() {
    let b = encode_samples(&[0x1234, -2]);
    assert_eq!(b.len(), 4);
    assert_eq!([b[0], b[1]], 0x1234i16.to_ne_bytes());
    assert!(b[0] != b[1]);
    assert_eq!([b[2], b[3]], (-2i16).to_ne_bytes());
}

#[test]
fn sample_bytes_round_trip() {
    let bytes: Vec<u8> = (0u8..200).collect();
    assert_eq!(encode_samples(&decode_samples(&bytes)), bytes);
}

#[test]
fn frames_are_cut_every_960_samples() {
    let mut fb = FrameBuffer::new();
    assert_eq!(fb.pending_len(), 0);
    let first: Vec<i16> = (0..1000).map(|x| x as i16).collect();
    let full = fb.push_samples(&first);
    assert_eq!(full.len(), 1);
    assert_eq!(full[0].len(), FRAME_SAMPLES);
    assert_eq!(full[0][..], first[..960]);
    assert_eq!(fb.pending_len(), 40);
    let second: Vec<i16> = (1000..2880).map(|x| x as i16).collect();
    let full = fb.push_samples(&second);
    assert_eq!(full.len(), 2);
    assert_eq!(full[0][0], 960);
    assert_eq!(full[0][959], 1919);
    assert_eq!(full[1][0], 1920);
    assert_eq!(full[1][959], 2879);
    assert_eq!(fb.pending_len(), 0);
    assert!(fb.push_samples(&[]).is_empty());
}

#[test]
fn opus_codec_is_offered() {
    let c = opus_codec_settings();
    assert_eq!(c.mime_type, "audio/opus");
    assert_eq!(c.clock_rate, 48000);
    assert_eq!(c.channels, 2);
    assert_eq!(c.sdp_fmtp_line, "minptime=10;useinbandfec=1");
    assert_eq!(c.payload_type, 111);
    assert!(c.rtcp_feedback.is_empty());
    assert_eq!(c.kind, CodecKind::Audio);
}

#[test]
fn google_stun_server_is_used() {
    assert_eq!(ice_server_urls(), vec!["stun:stun.l.google.com:19302".to_string()]);
}

#[test]
fn sender_sets_up() {
    let _sender = AudioSender::new();
    AudioSender::init();
    let c = opus_codec_settings();
    let mut engine = MediaEngine::default();
    engine
        .register_codec(
            RTCRtpCodecParameters {
                capability: RTCRtpCodecCapability {
                    mime_type: c.mime_type,
                    clock_rate: c.clock_rate,
                    channels: c.channels,
                    sdp_fmtp_line: c.sdp_fmtp_line,
                    rtcp_feedback: vec![],
                },
                payload_type: c.payload_type,
                ..Default::default()
            },
            RTPCodecType::Audio,
        )
        .unwrap();
    let setup = AudioSender::run(engine);
    assert!(setup.is_ok());
    assert!(!matches!(setup, Err(SenderError::Interceptors)));
    AudioSender::end();
    AudioSender::write_opus();
}

#[test]
fn framing_in_two_pushes_equals_one_push() {
    let a: Vec<i16> = (0..1500).map(|x| (x * 3) as i16).collect();
    let b: Vec<i16> = (0..1300).map(|x| (x * 7) as i16).collect();
    let mut whole = a.clone();
    whole.extend_from_slice(&b);

    let mut once = FrameBuffer::new();
    let frames_once = once.push_samples(&whole);

    let mut twice = FrameBuffer::new();
    let mut frames_twice = twice.push_samples(&a);
    assert_eq!(frames_twice.len(), 1);
    assert_eq!(twice.pending_len(), 540);
    frames_twice.extend(twice.push_samples(&b));

    assert_eq!(frames_once, frames_twice);
    assert_eq!(frames_once.len(), 2);
    assert_eq!(once.pending_len(), twice.pending_len());
    assert_eq!(once.pending_len(), 880);
}

#[test]
fn sender_runs_on_an_engine_without_codecs() {
    assert!(AudioSender::run(MediaEngine::default()).is_ok());
}

#[test]
fn setup_reports_failed_interceptors() {
    let failed = SenderSetup::assemble(MediaEngine::default(), Err(webrtc::Error::ErrUnknownType));
    assert!(matches!(failed, Err(SenderError::Interceptors)));
    let built = SenderSetup::assemble(MediaEngine::default(), Ok(Registry::new()));
    assert!(built.is_ok());
}

#[test]
fn successive_chunks_are_consecutive_slices() {
    let mut q: VecDeque<u8> = (0u8..10).collect();
    assert_eq!(next_chunk(&mut q, 3), Some(vec![0, 1, 2]));
    assert_eq!(next_chunk(&mut q, 3), Some(vec![3, 4, 5]));
    assert_eq!(next_chunk(&mut q, 3), Some(vec![6, 7, 8]));
    assert_eq!(next_chunk(&mut q, 3), None);
    assert_eq!(q, VecDeque::from(vec![9u8]));
}

#[test]
fn chunks_follow_the_stream_across_refills() {
    let mut q: VecDeque<u8> = (0u8..5).collect();
    let mut out: Vec<u8> = Vec::new();
    let mut appended: Vec<u8> = (0u8..5).collect();
    for round in 0u8..6 {
        while let Some(c) = next_chunk(&mut q, 4) {
            assert_eq!(c.len(), 4);
            out.extend(c);
        }
        let more: Vec<u8> = (0..(round + 3)).map(|x| 100 + round * 10 + x).collect();
        appended.extend(&more);
        q.extend(more);
    }
    out.extend(q.iter().copied());
    assert_eq!(out, appended);
}

#[test]
fn all_samples_share_one_byte_order() {
    let bytes: Vec<u8> = vec![0x01, 0x00, 0x00, 0x01, 0xff, 0x7f, 0x00, 0x80];
    let s = decode_samples(&bytes);
    let little = i16::from_ne_bytes([1, 0]) == 1;
    if little {
        assert_eq!(s, vec![1, 256, 32767, -32768]);
    } else {
        assert_eq!(s, vec![256, 1, -129, 128]);
    }
    let back = encode_samples(&[1, 256, 32767, -32768]);
    if little {
        assert_eq!(back, vec![0x01, 0x00, 0x00, 0x01, 0xff, 0x7f, 0x00, 0x80]);
    } else {
        assert_eq!(back, vec![0x00, 0x01, 0x01, 0x00, 0x7f, 0xff, 0x80, 0x00]);
    }
}

#[test]
fn samples_in_a_chosen_byte_order() {
    let bytes: Vec<u8> = vec![0x34, 0x12, 0xff, 0x7f, 0x00, 0x80];
    assert_eq!(decode_samples_ordered(&bytes, true), vec![0x1234, 32767, -32768]);
    assert_eq!(decode_samples_ordered(&bytes, false), vec![0x3412, -129, 128]);
    assert_eq!(encode_samples_ordered(&[0x1234, -2], true), vec![0x34, 0x12, 0xfe, 0xff]);
    assert_eq!(encode_samples_ordered(&[0x1234, -2], false), vec![0x12, 0x34, 0xff, 0xfe]);
    assert_eq!(decode_samples_ordered(&[], false), Vec::<i16>::new());
    let little = i16::from_ne_bytes([1, 0]) == 1;
    assert_eq!(decode_samples(&bytes), decode_samples_ordered(&bytes, little));
    assert_eq!(encode_samples(&[5, -300]), encode_samples_ordered(&[5, -300], little));
}
