use frame_encoder::encoder::EncoderWriter;
use frame_encoder::sink::FailingSink;
use frame_encoder::sink::IoError;
use frame_encoder::sink::LimitedSink;
use frame_encoder::sink::VecSink;
use frame_encoder::wire::control_start_bytes;
use frame_encoder::wire::control_stop_bytes;
use frame_encoder::wire::push_be32;

fn start_frame_no_content_type() -> Vec<u8> {
    vec![0, 0, 0, 0, 0, 0, 0, 4, 0, 0, 0, 2]
}

fn stop_frame() -> Vec<u8> {
    vec![0, 0, 0, 0, 0, 0, 0, 4, 0, 0, 0, 3]
}

#[test]
fn test_basic_encoding() {
    let mut enc = EncoderWriter::new(VecSink::new(), Some("test-content-type".to_string()));
    enc.write(b"test-content").unwrap();
    let enc = enc.finish().unwrap();
    let out = enc.into_vec();
    let expected: [u8; 65] = [
        0, 0, 0, 0, 0, 0, 0, 29, 0, 0, 0, 2, 0, 0, 0, 1, 0, 0, 0, 17, 116, 101, 115, 116, 45, 99,
        111, 110, 116, 101, 110, 116, 45, 116, 121, 112, 101, 0, 0, 0, 12, 116, 101, 115, 116, 45,
        99, 111, 110, 116, 101, 110, 116, 0, 0, 0, 0, 0, 0, 0, 4, 0, 0, 0, 3,
    ];
    assert_eq!(out, &expected[..]);
}

#[test]
fn test_no_content_type() {
    let mut enc = EncoderWriter::new(VecSink::new(), None);
    let n = enc.write(b"ab").unwrap();
    assert_eq!(n, 2);
    let out = enc.finish().unwrap().into_vec();
    let mut expected = start_frame_no_content_type();
    expected.extend_from_slice(&[0, 0, 0, 2, 97, 98]);
    expected.extend_from_slice(&stop_frame());
    assert_eq!(out, expected);
}

#[test]
fn test_finish_without_write() {
    let enc: EncoderWriter<VecSink> = EncoderWriter::new(VecSink::new(), Some("x".to_string()));
    let out = enc.finish().unwrap().into_vec();
    assert_eq!(out, Vec::<u8>::new());
}

#[test]
fn test_into_inner_emits_no_stop() {
    let mut enc = EncoderWriter::new(VecSink::new(), None);
    enc.write(b"hi").unwrap();
    let out = enc.into_inner().into_vec();
    let mut expected = start_frame_no_content_type();
    expected.extend_from_slice(&[0, 0, 0, 2, 104, 105]);
    assert_eq!(out, expected);
}

#[test]
fn test_partial_write_continuation() {
    let payload = b"test-content";
    let mut enc = EncoderWriter::new(LimitedSink::new(5), None);
    let n = enc.write(payload).unwrap();
    assert_eq!(n, 5);
    let n = enc.write(&payload[5..]).unwrap();
    assert_eq!(n, 5);
    let n = enc.write(&payload[10..]).unwrap();
    assert_eq!(n, 2);
    let out = enc.finish().unwrap().into_vec();
    let mut expected = start_frame_no_content_type();
    expected.extend_from_slice(&[0, 0, 0, 12]);
    expected.extend_from_slice(payload);
    expected.extend_from_slice(&stop_frame());
    assert_eq!(out, expected);
}

#[test]
fn test_reset_closes_old_sink_and_restarts() {
    let mut enc = EncoderWriter::new(VecSink::new(), Some("ab".to_string()));
    enc.write(b"xy").unwrap();
    let old = enc.reset(VecSink::new()).unwrap().into_vec();
    let mut expected_old: Vec<u8> =
        vec![0, 0, 0, 0, 0, 0, 0, 14, 0, 0, 0, 2, 0, 0, 0, 1, 0, 0, 0, 2, 97, 98];
    expected_old.extend_from_slice(&[0, 0, 0, 2, 120, 121]);
    expected_old.extend_from_slice(&stop_frame());
    assert_eq!(old, expected_old);

    enc.write(b"z").unwrap();
    let out = enc.finish().unwrap().into_vec();
    let mut expected: Vec<u8> =
        vec![0, 0, 0, 0, 0, 0, 0, 14, 0, 0, 0, 2, 0, 0, 0, 1, 0, 0, 0, 2, 97, 98];
    expected.extend_from_slice(&[0, 0, 0, 1, 122]);
    expected.extend_from_slice(&stop_frame());
    assert_eq!(out, expected);
}

#[test]
fn test_reset_not_started_emits_nothing() {
    let mut enc: EncoderWriter<VecSink> = EncoderWriter::new(VecSink::new(), None);
    let old = enc.reset(VecSink::new()).unwrap().into_vec();
    assert_eq!(old, Vec::<u8>::new());
    let out = enc.finish().unwrap().into_vec();
    assert_eq!(out, Vec::<u8>::new());
}

#[test]
fn test_write_error_propagates() {
    let mut enc = EncoderWriter::new(FailingSink::new(), None);
    let r = enc.write(b"abc");
    assert_eq!(r, Err(IoError::Sink));
    assert!(enc.finish().is_ok());
}

#[test]
fn test_write_zero_error() {
    let mut enc = EncoderWriter::new(LimitedSink::new(0), None);
    let r = enc.write(b"abc");
    assert_eq!(r, Err(IoError::WriteZero));
}

#[test]
fn test_empty_payload_keeps_zero_length_prefix() {
    let mut enc = EncoderWriter::new(VecSink::new(), None);
    let n = enc.write(b"").unwrap();
    assert_eq!(n, 0);
    let out = enc.finish().unwrap().into_vec();
    let mut expected = start_frame_no_content_type();
    expected.extend_from_slice(&[0, 0, 0, 0]);
    expected.extend_from_slice(&stop_frame());
    assert_eq!(out, expected);
}

#[test]
fn test_flush_writes_nothing() {
    let mut enc = EncoderWriter::new(VecSink::new(), None);
    enc.flush().unwrap();
    let out = enc.into_inner().into_vec();
    assert_eq!(out, Vec::<u8>::new());
}

#[test]
fn test_push_be32_exact_bytes() {
    let mut buf: Vec<u8> = Vec::new();
    push_be32(&mut buf, 0xdeadbeef);
    assert_eq!(buf, vec![0xde, 0xad, 0xbe, 0xef]);
    push_be32(&mut buf, 29);
    assert_eq!(buf, vec![0xde, 0xad, 0xbe, 0xef, 0, 0, 0, 29]);
}

#[test]
fn test_control_frame_builders() {
    assert_eq!(control_stop_bytes(), stop_frame());
    assert_eq!(control_start_bytes(&None), start_frame_no_content_type());
    let with_ct = control_start_bytes(&Some("ab".to_string()));
    assert_eq!(
        with_ct,
        vec![0, 0, 0, 0, 0, 0, 0, 14, 0, 0, 0, 2, 0, 0, 0, 1, 0, 0, 0, 2, 97, 98]
    );
}
