//! Types, members and operators.

use bcc::ast::{BinOp, BitfieldInfo, StructField, Type};
use bcc::isa::{flipped, halvings, is_pow2, jcc_if_false, jcc_if_true, scaled, uscaled};

fn array(elem: Type, len: u32) -> Type {
    Type::Array { elem: Box::new(elem), len }
}

fn pointer(to: Type) -> Type {
    Type::Pointer(Box::new(to))
}

fn far(to: Type) -> Type {
    Type::FarPointer { pointee: Box::new(to), is_huge: false }
}

fn field(name: &str, ty: Type, offset: u16) -> StructField {
    StructField { name: name.to_string(), bitfield: None, ty, offset }
}

fn record(fields: Vec<StructField>, size: u16) -> Type {
    Type::Struct { name: Some("s".to_string()), fields, size }
}

#[test]
fn sizes_in_bytes() {
    assert_eq!(Type::Char.size_bytes(), 1);
    assert_eq!(Type::UChar.size_bytes(), 1);
    assert_eq!(Type::Int.size_bytes(), 2);
    assert_eq!(Type::UInt.size_bytes(), 2);
    assert_eq!(Type::Long.size_bytes(), 4);
    assert_eq!(Type::ULong.size_bytes(), 4);
    assert_eq!(Type::Float.size_bytes(), 4);
    assert_eq!(Type::Double.size_bytes(), 8);
    assert_eq!(pointer(Type::Long).size_bytes(), 2);
    assert_eq!(Type::NearPointer(Box::new(Type::Char)).size_bytes(), 2);
    assert_eq!(far(Type::Char).size_bytes(), 4);
    assert_eq!(Type::FnPointer.size_bytes(), 2);
    assert_eq!(array(array(Type::Long, 3), 5).size_bytes(), 60);
    assert_eq!(record(vec![], 6).size_bytes(), 6);
}

#[test]
fn sizes_that_do_not_fit() {
    assert!(array(Type::Char, 0xFFFF).is_countable());
    assert!(!array(Type::Char, 0x1_0000).is_countable());
    assert!(!array(array(Type::Long, 300), 300).is_countable());
}

#[test]
fn alignment_follows_the_innermost_element() {
    assert_eq!(Type::Char.alignment(), 1);
    assert_eq!(array(array(Type::UChar, 2), 2).alignment(), 1);
    assert_eq!(array(Type::Int, 2).alignment(), 2);
    assert_eq!(Type::Long.alignment(), 2);
    assert_eq!(Type::Double.alignment(), 2);
    assert_eq!(far(Type::Char).alignment(), 2);
    assert_eq!(record(vec![field("c", Type::Char, 0)], 1).alignment(), 2);
}

#[test]
fn classes_of_types() {
    assert!(Type::UInt.is_unsigned() && Type::ULong.is_unsigned() && Type::UChar.is_unsigned());
    assert!(!Type::Int.is_unsigned() && !pointer(Type::UInt).is_unsigned());
    assert!(Type::Char.is_char_like() && Type::UChar.is_char_like() && !Type::Int.is_char_like());
    assert!(Type::Long.is_long_like() && Type::ULong.is_long_like());
    assert!(!far(Type::Long).is_long_like());
    assert!(Type::Int.is_int_like() && Type::UInt.is_int_like());
    assert!(pointer(Type::Char).is_int_like());
    assert!(Type::NearPointer(Box::new(Type::Char)).is_int_like());
    assert!(Type::FnPointer.is_int_like() && !far(Type::Int).is_int_like());
    assert!(!Type::Char.is_int_like() && !Type::Long.is_int_like());
    assert!(Type::Float.is_float_like() && Type::Double.is_float_like());
    assert!(!Type::Long.is_float_like());
}

#[test]
fn storage_that_holds_a_long() {
    assert!(Type::ULong.contains_long());
    assert!(array(Type::Long, 2).contains_long());
    assert!(!pointer(Type::Long).contains_long());
    let inner = record(vec![field("a", Type::Int, 0), field("b", Type::Long, 2)], 6);
    assert!(record(vec![field("x", Type::Char, 0), field("y", array(inner, 2), 2)], 14)
        .contains_long());
    assert!(!record(vec![field("x", Type::Int, 0)], 2).contains_long());
}

#[test]
fn the_first_member_of_a_name_is_found() {
    let st = record(
        vec![
            field("a", Type::Char, 0),
            field("b", Type::Int, 2),
            field("a", Type::Long, 4),
        ],
        8,
    );
    assert_eq!(st.field("a"), Some((0, &Type::Char)));
    assert_eq!(st.field("b"), Some((2, &Type::Int)));
    assert_eq!(st.field("c"), None);
    assert_eq!(Type::Int.field("a"), None);
}

#[test]
fn what_arrays_and_pointers_lead_to() {
    assert_eq!(array(Type::Long, 2).array_elem(), Some(&Type::Long));
    assert_eq!(pointer(Type::Long).array_elem(), None);
    assert_eq!(pointer(Type::Long).pointee(), Some(&Type::Long));
    assert_eq!(Type::NearPointer(Box::new(Type::Int)).pointee(), Some(&Type::Int));
    assert_eq!(far(Type::Char).pointee(), Some(&Type::Char));
    assert_eq!(Type::FnPointer.pointee(), None);
    assert_eq!(array(Type::Int, 1).pointee(), None);
}

#[test]
fn types_are_the_same_throughout() {
    let bits = |w: u8| StructField {
        name: "f".to_string(),
        bitfield: Some(BitfieldInfo { bit_offset: 0, bit_width: w }),
        ty: Type::UInt,
        offset: 0,
    };
    assert!(record(vec![bits(3)], 2).same_as(&record(vec![bits(3)], 2)));
    assert!(!record(vec![bits(3)], 2).same_as(&record(vec![bits(4)], 2)));
    assert!(!record(vec![bits(3)], 2).same_as(&record(vec![bits(3)], 4)));
    assert!(!record(vec![], 2).same_as(&Type::Struct { name: None, fields: vec![], size: 2 }));
    assert!(array(pointer(Type::Int), 2).same_as(&array(pointer(Type::Int), 2)));
    assert!(!array(Type::Int, 2).same_as(&array(Type::Int, 3)));
    assert!(!pointer(Type::Int).same_as(&Type::NearPointer(Box::new(Type::Int))));
    assert!(!far(Type::Int)
        .same_as(&Type::FarPointer { pointee: Box::new(Type::Int), is_huge: true }));
}

const COMPARISONS: [BinOp; 6] =
    [BinOp::Eq, BinOp::Ne, BinOp::Lt, BinOp::Le, BinOp::Gt, BinOp::Ge];

const OTHERS: [BinOp; 10] = [
    BinOp::Add,
    BinOp::Sub,
    BinOp::Mul,
    BinOp::Div,
    BinOp::Mod,
    BinOp::BitAnd,
    BinOp::BitOr,
    BinOp::BitXor,
    BinOp::Shl,
    BinOp::Shr,
];

#[test]
fn jumps_of_comparisons() {
    let signed = ["je", "jne", "jl", "jle", "jg", "jge"];
    let unsigned = ["je", "jne", "jb", "jbe", "ja", "jae"];
    let not_signed = ["jne", "je", "jge", "jg", "jle", "jl"];
    let not_unsigned = ["jne", "je", "jae", "ja", "jbe", "jb"];
    for (i, op) in COMPARISONS.iter().enumerate() {
        assert!(op.is_comparison());
        assert_eq!(op.jump_if_true(false), Some(signed[i]));
        assert_eq!(op.jump_if_true(true), Some(unsigned[i]));
        assert_eq!(op.jump_if_false(false), Some(not_signed[i]));
        assert_eq!(op.jump_if_false(true), Some(not_unsigned[i]));
    }
    for op in OTHERS {
        assert!(!op.is_comparison());
        assert_eq!(op.jump_if_true(false), None);
        assert_eq!(op.jump_if_false(true), None);
        assert!(jcc_if_true(op, true).is_none() && jcc_if_false(op, false).is_none());
    }
}

#[test]
fn flipping_exchanges_the_operands() {
    assert_eq!(flipped(BinOp::Lt), BinOp::Gt);
    assert_eq!(flipped(BinOp::Ge), BinOp::Le);
    assert_eq!(flipped(BinOp::Eq), BinOp::Eq);
    for op in COMPARISONS {
        assert_eq!(flipped(flipped(op)), op);
        assert_eq!(op.is_commutative(), flipped(op) == op);
    }
}

#[test]
fn operators_that_commute() {
    for op in OTHERS {
        let expected = matches!(
            op,
            BinOp::Add | BinOp::Mul | BinOp::BitAnd | BinOp::BitOr | BinOp::BitXor
        );
        assert_eq!(op.is_commutative(), expected);
    }
}

#[test]
fn offsets_of_elements_wrap_at_32_bits() {
    assert_eq!(scaled(3, 4), 12);
    assert_eq!(scaled(0xFFFF_FFFF, 2), -2);
    assert_eq!(scaled(0x4000_0000, 2), i32::MIN);
    assert_eq!(uscaled(0x8000_0001, 2), 2);
}

#[test]
fn powers_of_two_and_their_halvings() {
    assert!(is_pow2(1) && is_pow2(64) && is_pow2(0x8000_0000));
    assert!(!is_pow2(0) && !is_pow2(6));
    assert_eq!(halvings(1), 0);
    assert_eq!(halvings(64), 6);
    assert_eq!(halvings(12), 2);
    assert_eq!(halvings(0), 32);
    for k in 0..32 {
        assert!(is_pow2(1 << k));
        assert_eq!(halvings(1 << k), k);
    }
}
