use equivchk::eval::{BinaryApply, InnerEval, NaryApply, UnaryApply, Wrap};
use equivchk::neutral::{AllOne, Zero};
use equivchk::ops::{And, Identity, Not, Or, Xor};

#[test]
fn wrap_evaluates_to_itself() {
    assert_eq!(Wrap(17u32).eval(), 17u32);
    assert_eq!(Wrap(true).eval(), true);
}

#[test]
fn identity_and_not_unary_ops() {
    let id = UnaryApply { op: Identity, a: Wrap(0xdeadu32) };
    assert_eq!(id.eval(), 0xdead);
    let neg = UnaryApply { op: Not, a: Wrap(0x0000_ffffu32) };
    assert_eq!(neg.eval(), 0xffff_0000);
    let negb = UnaryApply { op: Not, a: Wrap(false) };
    assert_eq!(negb.eval(), true);
}

#[test]
fn binary_ops_lane_wise() {
    let a = 0b1100u32;
    let b = 0b1010u32;
    assert_eq!(BinaryApply { op: And, a: Wrap(a), b: Wrap(b) }.eval(), 0b1000);
    assert_eq!(BinaryApply { op: Or, a: Wrap(a), b: Wrap(b) }.eval(), 0b1110);
    assert_eq!(BinaryApply { op: Xor, a: Wrap(a), b: Wrap(b) }.eval(), 0b0110);
    assert_eq!(BinaryApply { op: And, a: Wrap(true), b: Wrap(false) }.eval(), false);
    assert_eq!(BinaryApply { op: Xor, a: Wrap(true), b: Wrap(false) }.eval(), true);
}

#[test]
fn nary_apply_folds_left_to_right() {
    let app = NaryApply { op: Xor, x: vec![Wrap(0b001u32), Wrap(0b011u32), Wrap(0b111u32)] };
    assert_eq!(app.eval(), 0b101);
    let one = NaryApply { op: Or, x: vec![Wrap(0x55u32)] };
    assert_eq!(one.eval(), 0x55); // a single argument is returned unchanged
}

#[test]
fn nary_apply_empty_yields_neutral() {
    let empty_and: NaryApply<And, Wrap<u32>> = NaryApply { op: And, x: vec![] };
    assert_eq!(empty_and.eval(), 0xffff_ffff);
    let empty_or: NaryApply<Or, Wrap<u32>> = NaryApply { op: Or, x: vec![] };
    assert_eq!(empty_or.eval(), 0);
    let empty_xor: NaryApply<Xor, Wrap<bool>> = NaryApply { op: Xor, x: vec![] };
    assert_eq!(empty_xor.eval(), false);
}

#[test]
fn neutral_element_values() {
    assert_eq!(<bool as AllOne>::allone(), true);
    assert_eq!(<bool as Zero>::zero(), false);
    assert_eq!(<u8 as AllOne>::allone(), 0xff);
    assert_eq!(<u16 as AllOne>::allone(), 0xffff);
    assert_eq!(<u32 as AllOne>::allone(), 0xffff_ffff);
    assert_eq!(<u64 as AllOne>::allone(), 0xffff_ffff_ffff_ffff);
    assert_eq!(<u32 as Zero>::zero(), 0);
}

#[test]
fn nested_static_composition() {
    // (a & b) ^ !(a | b), evaluated over words through the apply structs
    let a = 0xf0f0_f0f0u32;
    let b = 0xff00_ff00u32;
    let lhs = BinaryApply { op: And, a: Wrap(a), b: Wrap(b) };
    let rhs = UnaryApply { op: Not, a: BinaryApply { op: Or, a: Wrap(a), b: Wrap(b) } };
    assert_eq!(lhs.eval() ^ rhs.eval(), (a & b) ^ !(a | b));
}
