//! The primitive codec and the framer: round trips, boundary failures, and
//! exact wire bytes.

use phantom_core::data_types::fixed::{push_i64_be, read_i64, read_u128, read_u16};
use phantom_core::data_types::reader::Reader;
use phantom_core::data_types::strings::{decode_string, encode_string};
use phantom_core::data_types::var_int::{
    decode_var_int32, decode_var_int64, encode_var_int32, encode_var_int64,
};
use phantom_core::error::SlpError;
use phantom_core::packet::{read_packet, read_packet_kind, write_packet};

#[test]
fn read_write_var_int() {
    let expected = 183944198i32;
    let stream = encode_var_int32(expected);
    let mut reader = Reader::new(stream);
    assert_eq!(expected, decode_var_int32(&mut reader).unwrap());
}

#[test]
fn read_write_var_long() {
    let expected = 183944198i64;
    let stream = encode_var_int64(expected);
    let stream_size = stream.len();
    println!("stream size: {stream_size}");
    let mut reader = Reader::new(stream);
    assert_eq!(expected, decode_var_int64(&mut reader).unwrap());
}

#[test]
fn number_read_write_var_int() {
    let expected = 183944198i32;
    let mut reader = Reader::new(encode_var_int32(expected));
    assert_eq!(expected, decode_var_int32(&mut reader).unwrap());
}

#[test]
fn number_read_write_var_long() {
    let expected = 183944198i64;
    let mut reader = Reader::new(encode_var_int64(expected));
    assert_eq!(expected, decode_var_int64(&mut reader).unwrap());
}

#[test]
fn var_int_round_trip_edge_values() {
    for v in [0i32, 1, -1, 127, 128, 300, i32::MAX, i32::MIN, -2147483647] {
        let mut reader = Reader::new(encode_var_int32(v));
        assert_eq!(v, decode_var_int32(&mut reader).unwrap());
    }
    for v in [0i64, -1, 255, i64::MAX, i64::MIN, 1 << 62] {
        let mut reader = Reader::new(encode_var_int64(v));
        assert_eq!(v, decode_var_int64(&mut reader).unwrap());
    }
}

#[test]
fn var_int_known_encodings() {
    assert_eq!(encode_var_int32(0), vec![0x00]);
    assert_eq!(encode_var_int32(1), vec![0x01]);
    assert_eq!(encode_var_int32(127), vec![0x7F]);
    assert_eq!(encode_var_int32(128), vec![0x80, 0x01]);
    assert_eq!(encode_var_int32(300), vec![0xAC, 0x02]);
    assert_eq!(encode_var_int32(-1), vec![0xFF, 0xFF, 0xFF, 0xFF, 0x0F]);
    // The encoding is minimal: no value is encoded with a trailing empty
    // continuation byte, so each of these lengths is the least possible.
    assert_eq!(encode_var_int32(i32::MAX).len(), 5);
    assert_eq!(encode_var_int64(-1).len(), 10);
    assert_eq!(encode_var_int64(i64::MAX).len(), 9);
}

#[test]
fn var_int_decoder_accepts_non_minimal_runs() {
    // An over-long encoding of zero still decodes; only the encoder is minimal.
    let mut reader = Reader::new(vec![0x80, 0x00]);
    assert_eq!(decode_var_int32(&mut reader).unwrap(), 0);
    // A full five-byte run whose top group overflows 32 bits keeps the low bits.
    let mut reader = Reader::new(vec![0xFF, 0xFF, 0xFF, 0xFF, 0x7F]);
    assert_eq!(decode_var_int32(&mut reader).unwrap(), -1);
}

#[test]
fn var_int_fifth_byte_continuation_is_malformed() {
    let mut reader = Reader::new(vec![0x80, 0x80, 0x80, 0x80, 0x80, 0x00]);
    assert_eq!(decode_var_int32(&mut reader).unwrap_err(), SlpError::MalformedVarInt);
}

#[test]
fn var_long_tenth_byte_continuation_is_malformed() {
    let mut reader = Reader::new(vec![0x80; 11]);
    assert_eq!(decode_var_int64(&mut reader).unwrap_err(), SlpError::MalformedVarInt);
}

#[test]
fn var_int_truncated_run_is_short_read() {
    let mut reader = Reader::new(vec![0x80, 0x80]);
    assert_eq!(decode_var_int32(&mut reader).unwrap_err(), SlpError::ShortRead);
}

#[test]
fn fixed_width_round_trips() {
    let mut bytes = Vec::new();
    push_i64_be(&mut bytes, -42);
    assert_eq!(bytes.len(), 8);
    let mut reader = Reader::new(bytes);
    assert_eq!(read_i64(&mut reader).unwrap(), -42);

    let mut reader = Reader::new(vec![0x63, 0xDD]);
    assert_eq!(read_u16(&mut reader).unwrap(), 25565);

    let mut uuid_bytes = vec![0u8; 15];
    uuid_bytes.push(7);
    let mut reader = Reader::new(uuid_bytes);
    assert_eq!(read_u128(&mut reader).unwrap(), 7u128);
}

#[test]
fn fixed_width_short_source_fails() {
    let mut reader = Reader::new(vec![0x12]);
    assert_eq!(read_u16(&mut reader).unwrap_err(), SlpError::ShortRead);
    let mut reader = Reader::new(vec![1, 2, 3]);
    assert_eq!(read_i64(&mut reader).unwrap_err(), SlpError::ShortRead);
}

#[test]
fn encode_decode() {
    let expected = String::from("Hello world!");
    let stream = encode_string(expected.as_str()).unwrap();
    let mut reader = Reader::new(stream);
    assert_eq!(expected, decode_string(&mut reader).unwrap());
}

#[test]
fn string_round_trip_empty_and_unicode() {
    for s in ["", "héllo wörld", "日本語テキスト", "mixed ascii + ünïcode"] {
        let stream = encode_string(s).unwrap();
        let mut reader = Reader::new(stream);
        assert_eq!(s, decode_string(&mut reader).unwrap());
    }
}

#[test]
fn string_wire_form_is_length_then_bytes() {
    let stream = encode_string("abc").unwrap();
    assert_eq!(stream, vec![0x03, 0x61, 0x62, 0x63]);
}

#[test]
fn string_with_invalid_utf8_fails() {
    // Declared length 2, then a lone continuation byte and a stray high byte.
    let mut reader = Reader::new(vec![0x02, 0xFF, 0xFE]);
    assert_eq!(decode_string(&mut reader).unwrap_err(), SlpError::InvalidText);
}

#[test]
fn string_truncated_body_is_short_read() {
    // Declares four bytes but supplies two.
    let mut reader = Reader::new(vec![0x04, 0x61, 0x62]);
    assert_eq!(decode_string(&mut reader).unwrap_err(), SlpError::ShortRead);
}

#[test]
fn packet_frame_exposes_exactly_declared_count() {
    // One 3-byte frame, then more data queued behind it.
    let mut stream = write_packet(&vec![0xAA, 0xBB, 0xCC]);
    stream.extend_from_slice(&[0xDD, 0xEE, 0xFF, 0x11]);
    let mut source = Reader::new(stream);
    let mut frame = read_packet(&mut source).unwrap();
    assert_eq!(frame.len(), 3);
    assert_eq!(read_packet_kind(&mut frame).unwrap(), 0xAA);
    assert_eq!(read_packet_kind(&mut frame).unwrap(), 0xBB);
    assert_eq!(read_packet_kind(&mut frame).unwrap(), 0xCC);
    // One byte past the declared count fails, though the source has more.
    assert_eq!(read_packet_kind(&mut frame).unwrap_err(), SlpError::FrameExhausted);
    // The source itself re-anchors cleanly on the queued data.
    assert_eq!(source.len(), 4);
}

#[test]
fn packet_short_source_is_short_read() {
    // Declares five bytes but holds two.
    let mut source = Reader::new(vec![0x05, 0x01, 0x02]);
    assert_eq!(read_packet(&mut source).unwrap_err(), SlpError::ShortRead);
}

#[test]
fn packet_write_prepends_length() {
    assert_eq!(write_packet(&vec![0x01, 0x02]), vec![0x02, 0x01, 0x02]);
    let payload = vec![0x00; 200];
    let framed = write_packet(&payload);
    assert_eq!(framed[0], 0xC8);
    assert_eq!(framed[1], 0x01);
    assert_eq!(framed.len(), 202);
}
