use powchain::block::get_answer;
use powchain::codec::{i64_to_string, length_prefixed_string, u64_to_string};
use powchain::hex::{check_hex_decodable, string_to_u8, u8_to_string, vec_prefix};

#[test]
fn test_u64_to_string_values() {
    assert_eq!(u64_to_string(0), "0");
    assert_eq!(u64_to_string(7), "7");
    assert_eq!(u64_to_string(10), "10");
    assert_eq!(u64_to_string(123), "123");
    assert_eq!(u64_to_string(18446744073709551615), "18446744073709551615");
}

#[test]
fn test_i64_to_string_values() {
    assert_eq!(i64_to_string(0), "0");
    assert_eq!(i64_to_string(42), "42");
    assert_eq!(i64_to_string(-1), "-1");
    assert_eq!(i64_to_string(-9223372036854775808), "-9223372036854775808");
    assert_eq!(i64_to_string(9223372036854775807), "9223372036854775807");
}

#[test]
fn test_length_prefixed_string_values() {
    assert_eq!(length_prefixed_string("abc"), "3:abc");
    assert_eq!(length_prefixed_string(""), "0:");
    assert_eq!(length_prefixed_string("12:34"), "5:12:34");
}

#[test]
fn test_u8_to_string_values() {
    assert_eq!(u8_to_string(&[]), "");
    assert_eq!(u8_to_string(&[0xBE, 0xEF]), "BEEF");
    assert_eq!(u8_to_string(&[0x00, 0x0F, 0xA0]), "000FA0");
}

#[test]
fn test_check_hex_decodable_values() {
    assert!(check_hex_decodable("00FF"));
    assert!(check_hex_decodable(""));
    assert!(check_hex_decodable("0123456789ABCDEF"));
    assert!(!check_hex_decodable("xy"));
    assert!(!check_hex_decodable("ff"));
    let too_long = "0".repeat(129);
    assert!(!check_hex_decodable(&too_long));
    let at_limit = "0".repeat(128);
    assert!(check_hex_decodable(&at_limit));
}

#[test]
fn test_string_to_u8_values() {
    let v = string_to_u8("FF00AB");
    assert_eq!(v.len(), 64);
    assert_eq!(v[0], 0xFF);
    assert_eq!(v[1], 0x00);
    assert_eq!(v[2], 0xAB);
    for i in 3..64 {
        assert_eq!(v[i], 0);
    }
    // an odd trailing character fills only the high nibble
    let w = string_to_u8("ABC");
    assert_eq!(w[0], 0xAB);
    assert_eq!(w[1], 0xC0);
}

#[test]
fn test_hex_encode_decode_round_trip() {
    let bytes: Vec<u8> = (0u8..64).map(|i| i.wrapping_mul(37).wrapping_add(5)).collect();
    let encoded = u8_to_string(bytes.as_slice());
    assert_eq!(encoded.len(), 128);
    let decoded = string_to_u8(&encoded);
    assert_eq!(decoded, bytes);
}

#[test]
fn test_vec_prefix_values() {
    let v = vec![1u8, 2, 3, 4, 5];
    assert_eq!(vec_prefix(&v, 3), vec![1u8, 2, 3]);
    assert_eq!(vec_prefix(&v, 0), Vec::<u8>::new());
}

#[test]
fn test_get_answer_values() {
    assert_eq!(get_answer(0), "");
    assert_eq!(get_answer(1), "0");
    assert_eq!(get_answer(4), "0000");
}
