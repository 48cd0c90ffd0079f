use rmqtt::codec::{
    decode_remaining_length, decode_string_length, encode_remaining_length, encode_string,
    insert_all, parse_packet_id, push_16_bits, remaining_length_length,
};

#[test]
fn test_encode_string1() {
    let result: Vec<u8> = encode_string("TESTT");
    assert_eq!(0x00, result[0]);
    assert_eq!(0x05, result[1]);
    assert_eq!(0x54, result[2]);
    assert_eq!(0x45, result[3]);
    assert_eq!(0x53, result[4]);
    assert_eq!(0x54, result[5]);
    assert_eq!(0x54, result[6]);
}

#[test]
fn test_encode_string2() {
    let result: Vec<u8> = encode_string("MQTT");
    assert_eq!(0x00, result[0]);
    assert_eq!(0x04, result[1]);
    assert_eq!(0x4d, result[2]);
    assert_eq!(0x51, result[3]);
    assert_eq!(0x54, result[4]);
    assert_eq!(0x54, result[5]);
}

#[test]
fn test_encode_remaining_length1() {
    let result: Vec<u8> = encode_remaining_length(20);
    assert_eq!(1, result.len());
    assert_eq!(0x14, result[0]);
}

#[test]
fn test_encode_remaining_length2() {
    let result: Vec<u8> = encode_remaining_length(1307);
    assert_eq!(2, result.len());
    assert_eq!(0x9b, result[0]);
    assert_eq!(0x0a, result[1]);
}

#[test]
fn test_encode_remaining_length3() {
    let result: Vec<u8> = encode_remaining_length(16387);
    assert_eq!(3, result.len());
    assert_eq!(0x83, result[0]);
    assert_eq!(0x80, result[1]);
    assert_eq!(0x01, result[2]);
}

#[test]
fn test_decode_remaining_length1() {
    let encoded_remaining_length: Vec<u8> = encode_remaining_length(20);
    assert_eq!(20, decode_remaining_length(&encoded_remaining_length, 0).unwrap());
}

#[test]
fn test_decode_remaining_length2() {
    let encoded_remaining_length: Vec<u8> = encode_remaining_length(1307);
    assert_eq!(1307, decode_remaining_length(&encoded_remaining_length, 0).unwrap());
}

#[test]
fn test_decode_remaining_length3() {
    let encoded_remaining_length: Vec<u8> = encode_remaining_length(16387);
    assert_eq!(16387, decode_remaining_length(&encoded_remaining_length, 0).unwrap());
}

#[test]
fn test_insert_all() {
    let mut v1 = vec![0x01, 0x02, 0x03, 0x04];
    let v2 = vec![0x05, 0x06, 0x07];

    insert_all(v2, &mut v1, 2);
    assert_eq!(v1, [0x01, 0x02, 0x05, 0x06, 0x07, 0x03, 0x04]);
}

#[test]
fn insert_all_at_front_and_end() {
    let mut v = vec![1u8, 2];
    insert_all(vec![9, 8], &mut v, 0);
    assert_eq!(v, [9, 8, 1, 2]);
    insert_all(vec![7], &mut v, 4);
    assert_eq!(v, [9, 8, 1, 2, 7]);
    insert_all(Vec::new(), &mut v, 100);
    assert_eq!(v, [9, 8, 1, 2, 7]);
}

#[test]
fn remaining_length_boundaries() {
    assert_eq!(encode_remaining_length(0), [0x00]);
    assert_eq!(encode_remaining_length(127), [0x7f]);
    assert_eq!(encode_remaining_length(128), [0x80, 0x01]);
    assert_eq!(encode_remaining_length(16383), [0xff, 0x7f]);
    assert_eq!(encode_remaining_length(16384), [0x80, 0x80, 0x01]);
    assert_eq!(encode_remaining_length(32767), [0xff, 0xff, 0x01]);
    assert_eq!(encode_remaining_length(32768), [0x80, 0x80, 0x02]);
    assert_eq!(encode_remaining_length(2097151), [0xff, 0xff, 0x7f]);
    assert_eq!(encode_remaining_length(2097152), [0x80, 0x80, 0x80, 0x01]);
    assert_eq!(encode_remaining_length(268435455), [0xff, 0xff, 0xff, 0x7f]);
}

#[test]
fn remaining_length_roundtrip_full_range() {
    for n in [0usize, 1, 127, 128, 300, 16383, 16384, 32768, 40000, 2097151, 2097152, 268435455] {
        let encoded = encode_remaining_length(n);
        assert_eq!(Some(n as i32), decode_remaining_length(&encoded, 0));
        assert_eq!(encoded.len() as i8, remaining_length_length(n as i32));
    }
}

#[test]
fn decode_remaining_length_at_offset() {
    let bytes = vec![0x30u8, 0x9b, 0x0a, 0x00];
    assert_eq!(Some(1307), decode_remaining_length(&bytes, 1));
    assert_eq!(Some(20), decode_remaining_length(&vec![0x30, 0x14], 1));
    assert_eq!(Some(128), decode_remaining_length(&vec![0x30, 0x80, 0x01], 1));
}

#[test]
fn decode_four_byte_remaining_lengths() {
    assert_eq!(Some(2097152), decode_remaining_length(&vec![0x80, 0x80, 0x80, 0x01], 0));
    assert_eq!(Some(268435455), decode_remaining_length(&vec![0xff, 0xff, 0xff, 0x7f], 0));
}

#[test]
fn decode_remaining_length_rejects() {
    // a fifth byte is never accepted
    let five = vec![0x80u8, 0x80, 0x80, 0x80, 0x01];
    assert_eq!(None, decode_remaining_length(&five, 0));
    // a continuation that runs past the buffer
    let cut = vec![0x80u8, 0x80];
    assert_eq!(None, decode_remaining_length(&cut, 0));
}

#[test]
fn decode_remaining_length_with_nothing_to_read() {
    assert_eq!(Some(0), decode_remaining_length(&Vec::new(), 0));
    assert_eq!(Some(0), decode_remaining_length(&vec![0x30], 1));
}

#[test]
fn remaining_length_length_ranges() {
    assert_eq!(1, remaining_length_length(0));
    assert_eq!(1, remaining_length_length(127));
    assert_eq!(2, remaining_length_length(128));
    assert_eq!(2, remaining_length_length(16383));
    assert_eq!(3, remaining_length_length(16384));
    assert_eq!(3, remaining_length_length(2097151));
    assert_eq!(4, remaining_length_length(2097152));
    assert_eq!(4, remaining_length_length(268435455));
}

#[test]
fn string_length_prefix_reads_back() {
    let encoded = encode_string("héllo");
    assert_eq!(encoded.len(), 8);
    assert_eq!(decode_string_length(&encoded), 6);
    assert_eq!(&encoded[2..], "héllo".as_bytes());
    let long = "x".repeat(300);
    let encoded_long = encode_string(&long);
    assert_eq!(&encoded_long[..2], [0x01, 0x2c]);
    assert_eq!(decode_string_length(&encoded_long), 300);
}

#[test]
fn packet_id_bytes() {
    let mut v = Vec::new();
    push_16_bits(&mut v, 0x1234);
    assert_eq!(v, [0x12, 0x34]);
    assert_eq!(parse_packet_id(&v), 0x1234);
    let mut w = Vec::new();
    push_16_bits(&mut w, -1);
    assert_eq!(w, [0xff, 0xff]);
    assert_eq!(parse_packet_id(&w), -1);
    let mut x = Vec::new();
    push_16_bits(&mut x, -300);
    assert_eq!(x, [0xfe, 0xd4]);
    assert_eq!(parse_packet_id(&vec![0x80, 0x00]), -32768);
}
