use chip8::decode;
use chip8::Op;

#[test]
fn decode_is_total() {
    // Every 16-bit word decodes to some instruction without panicking.
    let mut decoded: usize = 0;
    for w in 0..=0xFFFFu16 {
        let _ = decode(w);
        decoded += 1;
    }
    assert_eq!(decoded, 65536);
}

#[test]
fn decode_spot_checks() {
    assert_eq!(decode(0x00E0), Op::Clear);
    assert_eq!(decode(0x00EE), Op::Return);
    assert_eq!(decode(0x1234), Op::AbsJump(0x234));
    assert_eq!(decode(0x6A3C), Op::SetVal(0xA, 0x3C));
    assert_eq!(decode(0x8AB4), Op::Add(0xA, 0xB));
    assert_eq!(decode(0xD012), Op::Draw(0, 1, 2));
}

#[test]
fn decode_ignores_low_nibble_of_register_skips() {
    // The 0x5 and 0x9 families ignore their low nibble entirely.
    assert_eq!(decode(0x5001), Op::SkipEqReg(0, 0));
    assert_eq!(decode(0x5230), Op::SkipEqReg(2, 3));
    assert_eq!(decode(0x523F), Op::SkipEqReg(2, 3));
    assert_eq!(decode(0x9AB0), Op::SkipNeqReg(0xA, 0xB));
    assert_eq!(decode(0x9AB7), Op::SkipNeqReg(0xA, 0xB));
}

#[test]
fn decode_ignores_second_nibble_of_fixed_words() {
    // Clear and Return are picked by family 0 and the low byte; the second
    // nibble is not validated.
    assert_eq!(decode(0x01E0), Op::Clear);
    assert_eq!(decode(0x0FEE), Op::Return);
}

#[test]
fn decode_address_families() {
    assert_eq!(decode(0x2ABC), Op::Call(0xABC));
    assert_eq!(decode(0xA123), Op::SetIndex(0x123));
    assert_eq!(decode(0xBFFF), Op::OffsetJump(0xFFF));
}

#[test]
fn decode_immediate_families() {
    assert_eq!(decode(0x30FF), Op::SkipEqVal(0, 0xFF));
    assert_eq!(decode(0x4512), Op::SkipNeqVal(5, 0x12));
    assert_eq!(decode(0x7F01), Op::AddVal(0xF, 0x01));
    assert_eq!(decode(0xC3AA), Op::Rand(3, 0xAA));
}

#[test]
fn decode_alu_family() {
    assert_eq!(decode(0x8120), Op::Mov(1, 2));
    assert_eq!(decode(0x8121), Op::Or(1, 2));
    assert_eq!(decode(0x8122), Op::And(1, 2));
    assert_eq!(decode(0x8123), Op::Xor(1, 2));
    assert_eq!(decode(0x8124), Op::Add(1, 2));
    assert_eq!(decode(0x8125), Op::Sub(1, 2));
    assert_eq!(decode(0x8126), Op::Shr(1, 2));
    assert_eq!(decode(0x8127), Op::SubN(1, 2));
    assert_eq!(decode(0x812E), Op::Shl(1, 2));
    // Unused ALU selectors fall through to Unknown.
    assert_eq!(decode(0x8128), Op::Unknown(0x8128));
    assert_eq!(decode(0x812F), Op::Unknown(0x812F));
}

#[test]
fn decode_key_and_timer_families() {
    assert_eq!(decode(0xE29E), Op::SkipKey(2));
    assert_eq!(decode(0xE3A1), Op::SkipNoKey(3));
    assert_eq!(decode(0xF00A), Op::GetKey(0));
    assert_eq!(decode(0xF107), Op::GetDelay(1));
    assert_eq!(decode(0xF215), Op::SetDelay(2));
    assert_eq!(decode(0xF318), Op::SetSoundTimer(3));
    assert_eq!(decode(0xF41E), Op::IncrIndex(4));
    assert_eq!(decode(0xF529), Op::SetSpriteI(5));
    assert_eq!(decode(0xF633), Op::DecimalRepr(6));
    assert_eq!(decode(0xF755), Op::DumpRegisters(7));
    assert_eq!(decode(0xF865), Op::LoadRegisters(8));
}

#[test]
fn decode_unknown_words() {
    assert_eq!(decode(0x0000), Op::Unknown(0x0000));
    assert_eq!(decode(0xE000), Op::Unknown(0xE000));
    assert_eq!(decode(0xE2FF), Op::Unknown(0xE2FF));
    assert_eq!(decode(0xF099), Op::Unknown(0xF099));
    assert_eq!(decode(0xF0FF), Op::Unknown(0xF0FF));
}
