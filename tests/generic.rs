use chacha_core::{mega_permute_n, permute, permute_20, quarter_round, ChaChaState, CHACHA20_DOUBLE_ROUNDS};

#[test]
fn rfc_7539_quarter_round() {
    let mut a: u32 = 0x11111111;
    let mut b: u32 = 0x01020304;
    let mut c: u32 = 0x9b8d6f43;
    let mut d: u32 = 0x01234567;
    quarter_round(&mut a, &mut b, &mut c, &mut d);
    assert_eq!(a, 0xea2a92f4);
    assert_eq!(b, 0xcb1cf8ce);
    assert_eq!(c, 0x4581472e);
    assert_eq!(d, 0x5881c4bb);
}

#[test]
fn it_works() {}

#[test]
fn genericstuff_rfc_7539_permute_20() {
    let mut st = ChaChaState {
        row0: (0x61707865, 0x3320646e, 0x79622d32, 0x6b206574),
        row1: (0x03020100, 0x07060504, 0x0b0a0908, 0x0f0e0d0c),
        row2: (0x13121110, 0x17161514, 0x1b1a1918, 0x1f1e1d1c),
        row3: (0x00000001, 0x09000000, 0x4a000000, 0x00000000),
    };
    permute::<u32>(&mut st, CHACHA20_DOUBLE_ROUNDS);

    assert_eq!(st.row0, (0x837778ab, 0xe238d763, 0xa67ae21e, 0x5950bb2f));
    assert_eq!(st.row1, (0xc4f2d0c7, 0xfc62bb2f, 0x8fa018fc, 0x3f5ec7b7));
    assert_eq!(st.row2, (0x335271c2, 0xf29489f3, 0xeabda8fc, 0x82e46ebd));
    assert_eq!(st.row3, (0xd19c12b4, 0xb04e16de, 0x9e83d0cb, 0x4e3c50a2));
}

#[test]
fn test_mega_permute() {
    let mut bs = [1u8; 64];
    let first = mega_permute_n(&mut bs, 1);
    assert_eq!(bs, [1u8; 64]);

    let mut single = [1u8; 64];
    permute_20(&mut single);
    assert_eq!(first, u32::from_le_bytes([single[0], single[1], single[2], single[3]]));
}
