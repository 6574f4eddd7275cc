use lc3::bits::sext;

#[test]
fn sext_positive_five_bits() {
    assert_eq!(sext(0b01111, 5), 0x000F);
}

#[test]
fn sext_negative_five_bits_propagates_sign() {
    assert_eq!(sext(0b11111, 5), 0xFFFF);
}

#[test]
fn sext_negative_three_five_bits() {
    assert_eq!(sext(0b11101, 5), 0xFFFD);
}

#[test]
fn sext_six_bit_minus_one() {
    assert_eq!(sext(0x3F, 6), 0xFFFF);
}

#[test]
fn sext_nine_bit_minus_one() {
    assert_eq!(sext(0x1FF, 9), 0xFFFF);
}

#[test]
fn sext_nine_bit_positive_unchanged() {
    assert_eq!(sext(0x0FF, 9), 0x00FF);
}

#[test]
fn sext_eleven_bit_minus_one() {
    assert_eq!(sext(0x7FF, 11), 0xFFFF);
}

#[test]
fn sext_eleven_bit_positive_unchanged() {
    assert_eq!(sext(4, 11), 4);
}
