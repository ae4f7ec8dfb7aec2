use a2pi::hex::decode_hex;
use a2pi::hex::u8_to_hex_string;

#[test]
fn bytes_render_with_prefix_and_two_digits() {
    assert_eq!(u8_to_hex_string(0x00), "0x00");
    assert_eq!(u8_to_hex_string(0x0F), "0x0f");
    assert_eq!(u8_to_hex_string(0x6E), "0x6e");
    assert_eq!(u8_to_hex_string(0x80), "0x80");
    assert_eq!(u8_to_hex_string(0xFF), "0xff");
}

#[test]
fn decode_accepts_prefixed_and_bare_digits() {
    assert_eq!(decode_hex("0x00"), 0x00);
    assert_eq!(decode_hex("0x6E"), 0x6E);
    assert_eq!(decode_hex("0x6e"), 0x6E);
    assert_eq!(decode_hex("ff"), 0xFF);
    assert_eq!(decode_hex("7"), 0x07);
    assert_eq!(decode_hex("0xC5"), 0xC5);
}

#[test]
fn render_then_decode_returns_the_byte() {
    for n in [0u8, 1, 9, 0x10, 0x42, 0x7F, 0x80, 0xC4, 0xFF] {
        let text = u8_to_hex_string(n);
        assert_eq!(decode_hex(&text), n);
    }
}
