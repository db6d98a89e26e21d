use loaded_chunks::bits::bit_width;
use loaded_chunks::bits::compact_u64s_len;
use loaded_chunks::wire::write_packed;
use loaded_chunks::wire::write_u16;
use loaded_chunks::wire::write_u64;
use loaded_chunks::wire::write_u8;
use loaded_chunks::wire::write_var_u32;
use valence_protocol::Encode;
use valence_protocol::VarInt;

fn var_int(v: i32) -> Vec<u8> {
    let mut buf = vec![];
    write_var_u32(&mut buf, v as u32);
    buf
}

fn reference_var_int(v: i32) -> Vec<u8> {
    let mut buf = vec![];
    VarInt(v).encode(&mut buf).unwrap();
    buf
}

#[test]
fn bit_width_of_small_numbers() {
    assert_eq!(bit_width(0), 0);
    assert_eq!(bit_width(1), 1);
    assert_eq!(bit_width(2), 2);
    assert_eq!(bit_width(3), 2);
    assert_eq!(bit_width(15), 4);
    assert_eq!(bit_width(16), 5);
    assert_eq!(bit_width(199), 8);
    assert_eq!(bit_width(255), 8);
    assert_eq!(bit_width(256), 9);
}

#[test]
fn bit_width_of_the_largest_block_state() {
    assert_eq!(bit_width(24134), 15);
}

#[test]
fn bit_width_of_the_largest_number() {
    assert_eq!(bit_width(usize::MAX), usize::BITS as usize);
}

#[test]
fn compact_len_rounds_up() {
    assert_eq!(compact_u64s_len(4096, 15), 1024);
    assert_eq!(compact_u64s_len(4096, 4), 256);
    assert_eq!(compact_u64s_len(4096, 5), 342);
    assert_eq!(compact_u64s_len(64, 1), 1);
    assert_eq!(compact_u64s_len(64, 3), 4);
    assert_eq!(compact_u64s_len(64, 64), 64);
    assert_eq!(compact_u64s_len(0, 7), 0);
    assert_eq!(compact_u64s_len(1, 33), 1);
}

#[test]
fn var_int_known_bytes() {
    assert_eq!(var_int(0), vec![0x00]);
    assert_eq!(var_int(1), vec![0x01]);
    assert_eq!(var_int(127), vec![0x7f]);
    assert_eq!(var_int(128), vec![0x80, 0x01]);
    assert_eq!(var_int(255), vec![0xff, 0x01]);
    assert_eq!(var_int(300), vec![0xac, 0x02]);
    assert_eq!(var_int(25565), vec![0xdd, 0xc7, 0x01]);
    assert_eq!(var_int(2097151), vec![0xff, 0xff, 0x7f]);
    assert_eq!(var_int(i32::MAX), vec![0xff, 0xff, 0xff, 0xff, 0x07]);
    assert_eq!(var_int(-1), vec![0xff, 0xff, 0xff, 0xff, 0x0f]);
    assert_eq!(var_int(i32::MIN), vec![0x80, 0x80, 0x80, 0x80, 0x08]);
}

#[test]
fn var_int_agrees_with_the_protocol_crate() {
    let mut v: i32 = 1;
    for _ in 0..40 {
        assert_eq!(var_int(v), reference_var_int(v));
        assert_eq!(var_int(v.wrapping_neg()), reference_var_int(v.wrapping_neg()));
        assert_eq!(var_int(v.wrapping_sub(1)), reference_var_int(v.wrapping_sub(1)));
        v = v.wrapping_mul(3).wrapping_add(7);
    }
    for v in [0, 127, 128, 16383, 16384, 2097151, 2097152, 268435455, 268435456, i32::MAX, i32::MIN] {
        assert_eq!(var_int(v), reference_var_int(v));
    }
}

#[test]
fn var_u32_is_the_var_int_of_the_same_bits() {
    let mut a = vec![];
    write_var_u32(&mut a, u32::MAX);
    assert_eq!(a, var_int(-1));
    let mut b = vec![9];
    write_var_u32(&mut b, 300);
    assert_eq!(b, vec![9, 0xac, 0x02]);
}

#[test]
fn integers_are_written_big_endian() {
    let mut buf = vec![];
    write_u8(&mut buf, 0xab);
    write_u16(&mut buf, 0x1234);
    write_u64(&mut buf, 0x0102_0304_0506_0708);
    assert_eq!(buf, vec![0xab, 0x12, 0x34, 1, 2, 3, 4, 5, 6, 7, 8]);
}

#[test]
fn integers_agree_with_the_protocol_crate() {
    for v in [0u64, 1, 255, 256, 0xdead_beef, u64::MAX, 0x8000_0000_0000_0000] {
        let mut ours = vec![];
        write_u64(&mut ours, v);
        let mut theirs = vec![];
        v.encode(&mut theirs).unwrap();
        assert_eq!(ours, theirs);
    }
    for v in [0u16, 1, 255, 256, 4096, u16::MAX] {
        let mut ours = vec![];
        write_u16(&mut ours, v);
        let mut theirs = vec![];
        v.encode(&mut theirs).unwrap();
        assert_eq!(ours, theirs);
    }
}

#[test]
fn packed_values_fill_a_word_from_the_low_end() {
    let mut buf = vec![];
    write_packed(&mut buf, &vec![1, 2, 3], 4);
    assert_eq!(buf, vec![0, 0, 0, 0, 0, 0, 0x03, 0x21]);
}

#[test]
fn packed_values_do_not_straddle_words() {
    // Four values of 15 bits go into a word; the fifth starts the next one.
    let mut buf = vec![];
    write_packed(&mut buf, &vec![0x7fff, 0, 0, 0x7fff, 1], 15);
    let first: u64 = 0x7fff | (0x7fff << 45);
    let mut expected = first.to_be_bytes().to_vec();
    expected.extend_from_slice(&1u64.to_be_bytes());
    assert_eq!(buf, expected);
}

#[test]
fn packed_values_of_full_width() {
    let mut buf = vec![7];
    write_packed(&mut buf, &vec![u64::MAX, 5], 64);
    let mut expected = vec![7];
    expected.extend_from_slice(&u64::MAX.to_be_bytes());
    expected.extend_from_slice(&5u64.to_be_bytes());
    assert_eq!(buf, expected);
}

#[test]
fn packing_nothing_writes_nothing() {
    let mut buf = vec![1, 2];
    write_packed(&mut buf, &vec![], 5);
    assert_eq!(buf, vec![1, 2]);
}
