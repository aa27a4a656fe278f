use makerpnp::fpga::{
    buttons_from_register, buttons_from_word, check_ident, decode_u32, decode_words, encode_u32,
    encode_words, plan_chunked_write, FpgaVersion, IdentCheck, CMD_READ_U32_BE, CMD_WRITE_U32_BE,
    EXPECTED_IDENT, REG_BUZZER_CTRL, REG_IO_IN_1, REG_LED_CTRL,
};
use makerpnp::fpga_pac::io::regs::io_in_1;

#[test]
fn words_are_big_endian() {
    assert_eq!(encode_u32(0x1122_3344), [0x11, 0x22, 0x33, 0x44]);
    assert_eq!(decode_u32(&[0xfa, 0xce, 0xb0, 0x0b]), 0xface_b00b);
    assert_eq!(decode_u32(&encode_u32(0xdead_beef)), 0xdead_beef);
}

#[test]
fn block_of_words_round_trips() {
    let words = [0x1100_0011u32, 0x2200_0022, 0x3300_0033];
    let bytes = encode_words(&words);
    assert_eq!(bytes.len(), 12);
    assert_eq!(&bytes[4..8], &[0x22, 0x00, 0x00, 0x22]);
    assert_eq!(decode_words(&bytes), words.to_vec());
    // trailing bytes that do not fill a word are ignored
    let mut longer = bytes.clone();
    longer.push(0xff);
    assert_eq!(decode_words(&longer), words.to_vec());
}

#[test]
fn chunked_write_plan_of_sixteen_byte_chunks() {
    let words = [0x1100_0011u32, 0x2200_0022, 0x3300_0033, 0x4400_0044, 0x5500_0055, 0x6600_0066];
    let plan = plan_chunked_write(0x0104, &words, 16);
    assert_eq!(plan.len(), 2);
    assert_eq!(plan[0].address, 0x0104);
    assert_eq!(plan[0].bytes.len(), 16);
    assert_eq!(plan[1].address, 0x0114);
    assert_eq!(plan[1].bytes, vec![0x55, 0x00, 0x00, 0x55, 0x66, 0x00, 0x00, 0x66]);
    let all: Vec<u8> = plan.iter().flat_map(|t| t.bytes.clone()).collect();
    assert_eq!(all, encode_words(&words));
    assert!(plan_chunked_write(0x0150, &[], 16).is_empty());
    // a chunk size that is not a multiple of four carries whole words only
    let odd = plan_chunked_write(0, &words, 9);
    assert_eq!(odd.len(), 3);
    assert_eq!(odd[2].address, 16);
}

#[test]
fn version_from_bytes_and_word() {
    let v = FpgaVersion::from_bytes([1, 2, 3, 4]);
    assert_eq!(v, FpgaVersion { major: 1, minor: 2, patch: 3, build: 4 });
    let w = FpgaVersion::from_u32(0x0403_0201);
    assert_eq!(w, FpgaVersion { major: 1, minor: 2, patch: 3, build: 4 });
}

#[test]
fn buttons() {
    assert_eq!(buttons_from_word(0xffff_fffe), 2);
    assert_eq!(buttons_from_word(0x0000_0107), 3);
    assert_eq!(buttons_from_register(io_in_1(0b01)), 1);
    assert_eq!(buttons_from_register(io_in_1(0b10)), 2);
    assert_eq!(buttons_from_register(io_in_1(0xffff_fffc)), 0);
}

#[test]
fn ident_check() {
    assert_eq!(check_ident(0xffff_ffff), IdentCheck::NoResponse);
    assert_eq!(check_ident(EXPECTED_IDENT), IdentCheck::Expected);
    assert_eq!(check_ident(0), IdentCheck::Unexpected);
}

#[test]
fn command_and_register_constants() {
    assert_eq!(CMD_READ_U32_BE, 0x10);
    assert_eq!(CMD_WRITE_U32_BE, 0x90);
    assert_eq!(REG_LED_CTRL, 0x40);
    assert_eq!(REG_IO_IN_1, 0x84);
    assert_eq!(REG_BUZZER_CTRL, 0xc0);
}
