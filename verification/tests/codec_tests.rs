use bb_cards::GqlError;
use bb_cards::codec::{decode_i32, decode_seed, encode_i32, encode_seed};

#[test]
fn encode_known_tokens() {
    assert_eq!(encode_i32(0), "AAAAAA==");
    assert_eq!(encode_i32(2), "AAAAAg==");
    assert_eq!(encode_i32(-1), "/////w==");
    assert_eq!(encode_i32(0x01020304), "AQIDBA==");
    assert_eq!(encode_seed(0x3f800000), "P4AAAA==");
}

#[test]
fn i32_round_trip() {
    for v in [0, 1, 2, -1, 100, -100, 1000, i32::MAX, i32::MIN, 123456789, -987654321] {
        assert_eq!(decode_i32(&encode_i32(v)), Ok(v));
    }
}

#[test]
fn f32_seed_round_trip() {
    for f in [0.0f32, 1.0, 0.5, 0.37, -2.25, f32::MAX, f32::MIN_POSITIVE, f32::INFINITY] {
        let bits = f.to_bits();
        let back = decode_seed(&encode_seed(bits)).unwrap();
        assert_eq!(back, bits);
        assert_eq!(f32::from_bits(back), f);
    }
    // NaN round-trips bit-exactly too.
    let nan_bits = f32::NAN.to_bits();
    assert_eq!(decode_seed(&encode_seed(nan_bits)), Ok(nan_bits));
}

#[test]
fn invalid_text_is_rejected() {
    assert_eq!(decode_i32("!!!"), Err(GqlError::DecodeError));
    assert_eq!(decode_i32("AAAA="), Err(GqlError::DecodeError));
    assert_eq!(decode_seed("not base64 at all"), Err(GqlError::DecodeError));
}

#[test]
fn short_and_long_tokens_still_decode() {
    // The decoder is length-tolerant: it folds whatever bytes the token
    // holds. Two bytes:
    let two = base64::encode(&[0x01u8, 0x02]);
    assert_eq!(decode_i32(&two), Ok(0x0102));
    // Five bytes: the high byte falls off the 32-bit accumulator.
    let five = base64::encode(&[0x01u8, 0x02, 0x03, 0x04, 0x05]);
    assert_eq!(decode_i32(&five), Ok(0x02030405));
    // Empty payload decodes to zero.
    let empty = base64::encode::<&[u8]>(&[]);
    assert_eq!(decode_i32(&empty), Ok(0));
}

#[test]
fn seed_decoder_pads_missing_bytes_with_zero() {
    let two = base64::encode(&[0x3fu8, 0x80]);
    assert_eq!(decode_seed(&two), Ok(0x3f800000));
    assert_eq!(f32::from_bits(0x3f800000), 1.0f32);
    // Extra bytes beyond the fourth are ignored.
    let six = base64::encode(&[0x3fu8, 0x80, 0, 0, 0xaa, 0xbb]);
    assert_eq!(decode_seed(&six), Ok(0x3f800000));
}
