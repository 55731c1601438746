use chacha_core::{
    batch_permute, decode_block, encode_block, permute, permute_20, permute_and_add, permute_only,
    roll_left, ChaChaElem, ChaChaState, QuadState, Row,
};

const RFC_STATE: [u32; 16] = [
    0x61707865, 0x3320646e, 0x79622d32, 0x6b206574,
    0x03020100, 0x07060504, 0x0b0a0908, 0x0f0e0d0c,
    0x13121110, 0x17161514, 0x1b1a1918, 0x1f1e1d1c,
    0x00000001, 0x09000000, 0x4a000000, 0x00000000,
];

const RFC_PERMUTED: [u32; 16] = [
    0x837778ab, 0xe238d763, 0xa67ae21e, 0x5950bb2f,
    0xc4f2d0c7, 0xfc62bb2f, 0x8fa018fc, 0x3f5ec7b7,
    0x335271c2, 0xf29489f3, 0xeabda8fc, 0x82e46ebd,
    0xd19c12b4, 0xb04e16de, 0x9e83d0cb, 0x4e3c50a2,
];

fn other_state() -> [u32; 16] {
    let mut xs = [0u32; 16];
    for (i, x) in xs.iter_mut().enumerate() {
        *x = (i as u32).wrapping_mul(0x9e3779b9) ^ 0xdeadbeef;
    }
    xs
}

fn generic_path(xs: &[u32; 16], rounds: u8) -> [u32; 16] {
    let mut st = ChaChaState::from_words(xs);
    permute(&mut st, (rounds / 2) as usize);
    st.to_words()
}

fn row_path(xs: &[u32; 16], rounds: u8) -> [u32; 16] {
    let mut ys = *xs;
    permute_only(rounds, &mut ys);
    ys
}

#[test]
fn increase_by_wraps_around() {
    let mut x: u32 = 0xFFFFFFFF;
    x.increase_by(&1);
    assert_eq!(x, 0);

    let mut q = QuadState(0xFFFFFFFF, 0xFFFFFFFF, 5, 0x80000000);
    q.increase_by(&QuadState(1, 2, 7, 0x80000000));
    assert_eq!(q, QuadState(0, 1, 12, 0));
}

#[test]
fn xor_by_each_lane() {
    let mut x: u32 = 0xF0F0F0F0;
    x.xor_by(&0xFF00FF00);
    assert_eq!(x, 0x0FF00FF0);

    let mut q = QuadState(1, 2, 3, 4);
    q.xor_by(&QuadState(1, 1, 1, 1));
    assert_eq!(q, QuadState(0, 3, 2, 5));
}

#[test]
fn roll_left_by_each_lane() {
    let mut x: u32 = 0x80000001;
    x.roll_left_by(1);
    assert_eq!(x, 0x00000003);

    let mut q = QuadState(0x80000000, 1, 0x12345678, 0xFFFFFFFF);
    q.roll_left_by(8);
    assert_eq!(q, QuadState(0x80, 0x100, 0x34567812, 0xFFFFFFFF));
}

#[test]
fn rotation_inverse() {
    let samples = [0u32, 1, 0x80000000, 0x12345678, 0xdeadbeef, 0xFFFFFFFF];
    for &x in samples.iter() {
        for n in 1..32usize {
            assert_eq!(roll_left(roll_left(x, n), 32 - n), x);
            assert_eq!(roll_left(x, n), x.rotate_left(n as u32));
        }
    }
    assert_eq!(roll_left(0x12345678, 16), 0x56781234);
}

#[test]
fn dup_fills_all_lanes() {
    assert_eq!(QuadState::dup(7), QuadState(7, 7, 7, 7));
}

#[test]
fn row_operations() {
    let a = Row(0xFFFFFFFF, 1, 2, 0x80000000);
    let b = Row(1, 2, 3, 0x80000000);
    assert_eq!(a.add(b), Row(0, 3, 5, 0));
    assert_eq!(a.xor(b), Row(0xFFFFFFFE, 3, 1, 0));
    assert_eq!(a.or(b), Row(0xFFFFFFFF, 3, 3, 0x80000000));
    assert_eq!(a.shift_left(4), Row(0xFFFFFFF0, 0x10, 0x20, 0));
    assert_eq!(a.shift_right(4), Row(0x0FFFFFFF, 0, 0, 0x08000000));
    assert_eq!(a.roll_left(4), Row(0xFFFFFFFF, 0x10, 0x20, 0x8));
}

#[test]
fn decode_is_little_endian() {
    let mut bs = [0u8; 64];
    for (i, b) in bs.iter_mut().enumerate() {
        *b = i as u8;
    }
    let words = decode_block(&bs);
    assert_eq!(words[0], 0x03020100);
    assert_eq!(words[15], 0x3f3e3d3c);
    let bytes = encode_block(&words);
    assert_eq!(bytes, bs);
}

#[test]
fn encode_decode_round_trip() {
    for seed in 0u32..8 {
        let mut bs = [0u8; 64];
        for (i, b) in bs.iter_mut().enumerate() {
            *b = ((i as u32).wrapping_mul(37).wrapping_add(seed.wrapping_mul(101)) % 256) as u8;
        }
        assert_eq!(encode_block(&decode_block(&bs)), bs);
    }
    assert_eq!(decode_block(&encode_block(&RFC_STATE)), RFC_STATE);
}

#[test]
fn state_bytes_round_trip() {
    let mut bs = [0u8; 64];
    for (i, b) in bs.iter_mut().enumerate() {
        *b = (255 - i) as u8;
    }
    let st = ChaChaState::from_bytes(&bs);
    assert_eq!(st.row0.0, 0xfcfdfeff);
    let mut out = [0u8; 64];
    st.into_bytes(&mut out);
    assert_eq!(out, bs);
}

#[test]
fn permute_20_on_bytes() {
    let mut bs = encode_block(&RFC_STATE);
    permute_20(&mut bs);
    assert_eq!(decode_block(&bs), RFC_PERMUTED);
}

#[test]
fn zero_rounds_leave_block_unchanged() {
    let mut xs = RFC_STATE;
    permute_only(0, &mut xs);
    assert_eq!(xs, RFC_STATE);

    let mut ys = RFC_STATE;
    permute_and_add(0, &mut ys);
    for i in 0..16 {
        assert_eq!(ys[i], RFC_STATE[i].wrapping_add(RFC_STATE[i]));
    }
}

#[test]
fn permute_and_add_adds_input() {
    let xs = other_state();
    let permuted = row_path(&xs, 8);
    let mut added = xs;
    permute_and_add(8, &mut added);
    for i in 0..16 {
        assert_eq!(added[i], permuted[i].wrapping_add(xs[i]));
    }
}

#[test]
fn paths_agree() {
    for xs in [RFC_STATE, other_state()].iter() {
        for rounds in (2u8..=20).step_by(2) {
            let row = row_path(xs, rounds);
            assert_eq!(generic_path(xs, rounds), row);
            assert_eq!(batch_permute(xs, rounds)[0], row);
        }
    }
    assert_eq!(row_path(&RFC_STATE, 20), RFC_PERMUTED);
}

#[test]
fn batch_lanes_are_independent_blocks() {
    let mut base = other_state();
    base[12] = 0xFFFFFFFE;
    for rounds in [2u8, 8, 20].iter() {
        let lanes = batch_permute(&base, *rounds);
        for k in 0..4u32 {
            let mut single = base;
            single[12] = base[12].wrapping_add(k);
            assert_eq!(lanes[k as usize], row_path(&single, *rounds));
        }
    }
}

#[test]
fn next_four_advances_counter_per_lane() {
    let st = ChaChaState::from_words(&RFC_STATE);
    let quad = ChaChaState::<QuadState>::next_four(st);
    assert_eq!(quad.row3.0, QuadState(1, 2, 3, 4));
    assert_eq!(quad.row0.0, QuadState::dup(0x61707865));
    assert_eq!(quad.row3.1, QuadState::dup(0x09000000));
    let mut expected = RFC_STATE;
    expected[12] = 3;
    assert_eq!(quad.lane_block(2), expected);
}
