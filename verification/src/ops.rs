//! Wrapping arithmetic on unsigned scalars: the numeric semantics of the
//! binary and unary operators, with the overflow flag that the checked
//! forms report.  Values are canonical (below `pow256(size)`), and every
//! result is too.

use vstd::prelude::*;
use vstd::arithmetic::div_mod::lemma_fundamental_div_mod_converse;
use crate::ir::{BinOp, UnOp};
use crate::mem::pow256;

verus! {

/// Whether the operator's output type equals its left operand's type.
pub open spec fn binop_left_homogeneous_s(op: BinOp) -> bool {
    match op {
        BinOp::Add | BinOp::Sub | BinOp::Mul | BinOp::BitAnd | BinOp::BitOr | BinOp::BitXor
            => true,
        _ => false,
    }
}

/// Whether the operator's right operand's type equals its left operand's.
pub open spec fn binop_right_homogeneous_s(op: BinOp) -> bool {
    binop_left_homogeneous_s(op)
}

pub fn binop_left_homogeneous(op: BinOp) -> (r: bool)
    ensures
        r == binop_left_homogeneous_s(op),
{
    match op {
        BinOp::Add | BinOp::Sub | BinOp::Mul | BinOp::BitAnd | BinOp::BitOr | BinOp::BitXor
            => true,
        _ => false,
    }
}

pub fn binop_right_homogeneous(op: BinOp) -> (r: bool)
    ensures
        r == binop_right_homogeneous_s(op),
{
    binop_left_homogeneous(op)
}

/// Byte width of the operator's result, given the operands' width:
/// comparisons produce a one-byte boolean, the rest keep the width.
pub open spec fn binop_result_size_s(op: BinOp, size: nat) -> nat {
    if binop_left_homogeneous_s(op) {
        size
    } else {
        1
    }
}

/// The wrapped numeric value of `l op r` at the given byte width.
pub open spec fn binop_val_spec(op: BinOp, l: u64, r: u64, size: nat) -> nat {
    match op {
        BinOp::Add => ((l + r) as nat) % pow256(size),
        BinOp::Sub => (((l as int) - (r as int) + (pow256(size) as int)) % (pow256(
            size,
        ) as int)) as nat,
        BinOp::Mul => ((l * r) as nat) % pow256(size),
        BinOp::BitAnd => (l & r) as nat,
        BinOp::BitOr => (l | r) as nat,
        BinOp::BitXor => (l ^ r) as nat,
        BinOp::Eq => if l == r { 1nat } else { 0nat },
        BinOp::Ne => if l != r { 1nat } else { 0nat },
        BinOp::Lt => if l < r { 1nat } else { 0nat },
        BinOp::Le => if l <= r { 1nat } else { 0nat },
        BinOp::Gt => if l > r { 1nat } else { 0nat },
        BinOp::Ge => if l >= r { 1nat } else { 0nat },
    }
}

/// Whether `l op r` overflows the width (always false for the bitwise and
/// comparison operators).
pub open spec fn binop_overflow_spec(op: BinOp, l: u64, r: u64, size: nat) -> bool {
    match op {
        BinOp::Add => l + r >= pow256(size),
        BinOp::Sub => l < r,
        BinOp::Mul => l * r >= pow256(size),
        _ => false,
    }
}

/// The wrapped numeric value of `op v` at the given byte width.
pub open spec fn unop_val_spec(op: UnOp, v: u64, size: nat) -> nat {
    match op {
        UnOp::Not => (pow256(size) - 1 - v) as nat,
        UnOp::Neg => (((pow256(size) as int) - (v as int)) % (pow256(size) as int)) as nat,
    }
}

/// `pow256` at the supported scalar widths, as a 128-bit value.
pub(crate) fn modulus128(size: usize) -> (m: u128)
    requires
        size == 1 || size == 2 || size == 4 || size == 8,
    ensures
        m == pow256(size as nat),
        1 < m <= 0x1_0000_0000_0000_0000,
{
    proof {
        reveal_with_fuel(pow256, 9);
    }
    if size == 1 {
        0x100
    } else if size == 2 {
        0x1_0000
    } else if size == 4 {
        0x1_0000_0000
    } else {
        0x1_0000_0000_0000_0000
    }
}

proof fn lemma_bitops_bounded(l: u64, r: u64, size: nat)
    requires
        size == 1 || size == 2 || size == 4 || size == 8,
        (l as nat) < pow256(size),
        (r as nat) < pow256(size),
    ensures
        ((l & r) as nat) < pow256(size),
        ((l | r) as nat) < pow256(size),
        ((l ^ r) as nat) < pow256(size),
{
    reveal_with_fuel(pow256, 9);
    if size == 1 {
        assert(l < 0x100 && r < 0x100 ==> (l & r) < 0x100 && (l | r) < 0x100 && (l ^ r)
            < 0x100) by (bit_vector);
    } else if size == 2 {
        assert(l < 0x1_0000 && r < 0x1_0000 ==> (l & r) < 0x1_0000 && (l | r) < 0x1_0000 && (l
            ^ r) < 0x1_0000) by (bit_vector);
    } else if size == 4 {
        assert(l < 0x1_0000_0000 && r < 0x1_0000_0000 ==> (l & r) < 0x1_0000_0000 && (l | r)
            < 0x1_0000_0000 && (l ^ r) < 0x1_0000_0000) by (bit_vector);
    }
}

/// Evaluate a binary operator on canonical scalars: the wrapped value and
/// the overflow flag.
pub fn eval_binop(op: BinOp, l: u64, r: u64, size: usize) -> (res: (u64, bool))
    requires
        size == 1 || size == 2 || size == 4 || size == 8,
        (l as nat) < pow256(size as nat),
        (r as nat) < pow256(size as nat),
    ensures
        res.0 as nat == binop_val_spec(op, l, r, size as nat),
        res.1 == binop_overflow_spec(op, l, r, size as nat),
        (res.0 as nat) < pow256(binop_result_size_s(op, size as nat)),
{
    proof {
        reveal_with_fuel(pow256, 9);
    }
    match op {
        BinOp::Add => {
            let m = modulus128(size);
            let wide: u128 = (l as u128) + (r as u128);
            let rem = wide % m;
            proof {
                assert(rem < m);
                assert(rem as nat == ((l + r) as nat) % pow256(size as nat));
            }
            (rem as u64, wide >= m)
        },
        BinOp::Sub => {
            let m = modulus128(size);
            let ghost p = pow256(size as nat) as int;
            if l >= r {
                proof {
                    lemma_fundamental_div_mod_converse(l - r + p, p, 1, l - r);
                }
                (l - r, false)
            } else {
                let diff: u128 = m - ((r - l) as u128);
                proof {
                    lemma_fundamental_div_mod_converse(l - r + p, p, 0, diff as int);
                }
                (diff as u64, true)
            }
        },
        BinOp::Mul => {
            let m = modulus128(size);
            proof {
                assert((l as u128) * (r as u128) <= (u64::MAX as u128) * (u64::MAX as u128))
                    by (nonlinear_arith)
                    requires
                        l <= u64::MAX,
                        r <= u64::MAX,
                ;
            }
            let wide: u128 = (l as u128) * (r as u128);
            let rem = wide % m;
            proof {
                assert(rem < m);
                assert(wide as nat == (l * r) as nat);
                assert(rem as nat == ((l * r) as nat) % pow256(size as nat));
            }
            (rem as u64, wide >= m)
        },
        BinOp::BitAnd => {
            proof {
                lemma_bitops_bounded(l, r, size as nat);
            }
            (l & r, false)
        },
        BinOp::BitOr => {
            proof {
                lemma_bitops_bounded(l, r, size as nat);
            }
            (l | r, false)
        },
        BinOp::BitXor => {
            proof {
                lemma_bitops_bounded(l, r, size as nat);
            }
            (l ^ r, false)
        },
        BinOp::Eq => (if l == r { 1 } else { 0 }, false),
        BinOp::Ne => (if l != r { 1 } else { 0 }, false),
        BinOp::Lt => (if l < r { 1 } else { 0 }, false),
        BinOp::Le => (if l <= r { 1 } else { 0 }, false),
        BinOp::Gt => (if l > r { 1 } else { 0 }, false),
        BinOp::Ge => (if l >= r { 1 } else { 0 }, false),
    }
}

/// Evaluate a unary operator on a canonical scalar; the result type always
/// equals the operand type.
pub fn eval_unop(op: UnOp, v: u64, size: usize) -> (res: u64)
    requires
        size == 1 || size == 2 || size == 4 || size == 8,
        (v as nat) < pow256(size as nat),
    ensures
        res as nat == unop_val_spec(op, v, size as nat),
        (res as nat) < pow256(size as nat),
{
    let m = modulus128(size);
    match op {
        UnOp::Not => {
            let mask = (m - 1) as u64;
            mask - v
        },
        UnOp::Neg => {
            let ghost p = pow256(size as nat) as int;
            if v == 0 {
                proof {
                    lemma_fundamental_div_mod_converse(p, p, 1, 0);
                }
                0
            } else {
                let neg: u128 = m - (v as u128);
                proof {
                    lemma_fundamental_div_mod_converse(p - v, p, 0, neg as int);
                }
                neg as u64
            }
        },
    }
}

} // verus!
