use demoparser::error::DemoParserError;
use demoparser::path_ops::{do_op, generate_fp, FieldPath};
use demoparser::read_bits::Bitreader;

fn fp(path: [i32; 7], last: usize) -> FieldPath {
    FieldPath { path, last }
}

#[test]
fn generate_fp_starts_before_first_field() {
    let f = generate_fp();
    assert_eq!(f.path, [-1, 0, 0, 0, 0, 0, 0]);
    assert_eq!(f.last, 0);
}

#[test]
fn plus_ops() {
    let bytes: [u8; 0] = [];
    let mut r = Bitreader::new(&bytes);
    let mut f = generate_fp();
    assert_eq!(do_op(0, &mut r, &mut f), Ok(()));
    assert_eq!(f.path[0], 0);
    assert_eq!(do_op(1, &mut r, &mut f), Ok(()));
    assert_eq!(do_op(2, &mut r, &mut f), Ok(()));
    assert_eq!(do_op(3, &mut r, &mut f), Ok(()));
    assert_eq!(f.path[0], 9);
}

#[test]
fn plus_n_reads_an_index() {
    // First flag set, then two bits 0b10: 2, plus 5.
    let bytes = [0b0000_0101u8];
    let mut r = Bitreader::new(&bytes);
    let mut f = generate_fp();
    assert_eq!(do_op(4, &mut r, &mut f), Ok(()));
    assert_eq!(f.path[0], 6);
    assert_eq!(r.bits_remaining(), Some(5));
}

#[test]
fn push_and_pop() {
    let bytes: [u8; 0] = [];
    let mut r = Bitreader::new(&bytes);
    let mut f = fp([3, 9, 0, 0, 0, 0, 0], 0);
    // push_one_left_delta_zero_right_zero
    assert_eq!(do_op(5, &mut r, &mut f), Ok(()));
    assert_eq!(f.last, 1);
    assert_eq!(f.path[1], 0);
    // push_one_left_delta_one_right_zero
    assert_eq!(do_op(7, &mut r, &mut f), Ok(()));
    assert_eq!(f.path, [3, 1, 0, 0, 0, 0, 0]);
    assert_eq!(f.last, 2);
    // pop_one_plus_one
    assert_eq!(do_op(27, &mut r, &mut f), Ok(()));
    assert_eq!(f.path, [3, 2, 0, 0, 0, 0, 0]);
    assert_eq!(f.last, 1);
    // pop_all_but_one_plus_one
    assert_eq!(do_op(29, &mut r, &mut f), Ok(()));
    assert_eq!(f.path, [4, 0, 0, 0, 0, 0, 0]);
    assert_eq!(f.last, 0);
}

#[test]
fn push_two_pack5_left_delta_zero_sets_levels() {
    // Two 5-bit values: 3 and 17.
    let bits: u16 = 3 | (17 << 5);
    let bytes = bits.to_le_bytes();
    let mut r = Bitreader::new(&bytes);
    let mut f = generate_fp();
    assert_eq!(do_op(14, &mut r, &mut f), Ok(()));
    assert_eq!(f.last, 2);
    assert_eq!(f.path[1], 3);
    assert_eq!(f.path[2], 17);
}

#[test]
fn non_topo_complex_adds_where_flagged() {
    // Level 0: flag set, then varint 4 (zigzag 2).
    let bytes = [(4u8 << 1) | 1, 0];
    let mut r = Bitreader::new(&bytes);
    let mut f = fp([5, 0, 0, 0, 0, 0, 0], 0);
    assert_eq!(do_op(36, &mut r, &mut f), Ok(()));
    assert_eq!(f.path[0], 7);
}

#[test]
fn non_topo_complex_pack4_bits() {
    // Two levels: first flagged with four bits 0b1111 (15 - 7 = 8), second not flagged.
    let bytes = [0b0001_1111u8];
    let mut r = Bitreader::new(&bytes);
    let mut f = fp([1, 1, 0, 0, 0, 0, 0], 1);
    assert_eq!(do_op(38, &mut r, &mut f), Ok(()));
    assert_eq!(f.path[0], 9);
    assert_eq!(f.path[1], 1);
}

#[test]
fn penultimate_plus_one() {
    let bytes: [u8; 0] = [];
    let mut r = Bitreader::new(&bytes);
    let mut f = fp([1, 1, 0, 0, 0, 0, 0], 1);
    assert_eq!(do_op(37, &mut r, &mut f), Ok(()));
    assert_eq!(f.path[0], 2);
    let mut g = generate_fp();
    assert_eq!(do_op(37, &mut r, &mut g), Err(DemoParserError::IllegalPathOp));
}

#[test]
fn unknown_opcode_changes_nothing() {
    let bytes = [0xFFu8];
    let mut r = Bitreader::new(&bytes);
    let mut f = generate_fp();
    assert_eq!(do_op(39, &mut r, &mut f), Err(DemoParserError::UnknownPathOP));
    assert_eq!(f.path, [-1, 0, 0, 0, 0, 0, 0]);
    assert_eq!(r.bits_remaining(), Some(8));
}

#[test]
fn running_out_of_bits() {
    let bytes: [u8; 0] = [];
    let mut r = Bitreader::new(&bytes);
    let mut f = generate_fp();
    assert_eq!(do_op(4, &mut r, &mut f), Err(DemoParserError::OutOfBitsError));
    assert_eq!(f.path[0], -1);
}

#[test]
fn pushing_past_the_seventh_level_fails() {
    let bytes: [u8; 0] = [];
    let mut r = Bitreader::new(&bytes);
    let mut f = fp([0; 7], 6);
    assert_eq!(do_op(5, &mut r, &mut f), Err(DemoParserError::IllegalPathOp));
    assert_eq!(f.last, 7);
}

#[test]
fn pop_special_zeroes_dropped_levels() {
    let mut f = fp([1, 2, 3, 4, 0, 0, 0], 3);
    assert_eq!(f.pop_special(2), Ok(()));
    assert_eq!(f.path, [1, 2, 0, 0, 0, 0, 0]);
    assert_eq!(f.last, 1);
}

#[test]
fn get_entry_mut_bounds() {
    let mut f = generate_fp();
    *f.get_entry_mut(6).unwrap() = 42;
    assert_eq!(f.path[6], 42);
    assert!(matches!(f.get_entry_mut(7), Err(DemoParserError::IllegalPathOp)));
}

#[test]
fn push_n_reads_count_and_indices() {
    // push_n: count (u_bit_var 6 bits = 1), delta for level 0 (u_bit_var 6 bits = 2),
    // then one level with a field-path index (flag set, two bits = 3).
    let bits: u32 = 1 | (2 << 6) | (1 << 12) | (3 << 13);
    let bytes = bits.to_le_bytes();
    let mut r = Bitreader::new(&bytes);
    let mut f = fp([4, 0, 0, 0, 0, 0, 0], 0);
    assert_eq!(do_op(25, &mut r, &mut f), Ok(()));
    assert_eq!(f.path, [6, 3, 0, 0, 0, 0, 0]);
    assert_eq!(f.last, 1);
}
