use interp_step::interp::InterpCx;
use interp_step::ir::{
    BasicBlock, BinOp, Body, ConstVal, Failure, Fatal, FatalKind, InterpError, LocalDecl,
    Operand, Place, Proj, Rvalue, Statement, StatementKind, Terminator, UbKind, UnOp,
};
use interp_step::layout::{Layout, Shape};
use interp_step::machine::Machine;
use interp_step::mem::{Immediate, MemByte, Memory, Pointer, Scalar};
use interp_step::ops::{eval_binop, eval_unop};

#[test]
fn binop_values_are_exact() {
    // wrapping addition with its overflow flag
    assert_eq!(eval_binop(BinOp::Add, 250, 10, 1), (4, true));
    assert_eq!(eval_binop(BinOp::Add, 200, 10, 2), (210, false));
    // wrapping subtraction borrows
    assert_eq!(eval_binop(BinOp::Sub, 5, 10, 1), (251, true));
    assert_eq!(eval_binop(BinOp::Sub, 10, 5, 8), (5, false));
    // wrapping multiplication
    assert_eq!(eval_binop(BinOp::Mul, 16, 16, 1), (0, true));
    assert_eq!(eval_binop(BinOp::Mul, 300, 3, 2), (900, false));
    // bitwise
    assert_eq!(eval_binop(BinOp::BitAnd, 0b1100, 0b1010, 1), (0b1000, false));
    assert_eq!(eval_binop(BinOp::BitOr, 0b1100, 0b1010, 1), (0b1110, false));
    assert_eq!(eval_binop(BinOp::BitXor, 0b1100, 0b1010, 1), (0b0110, false));
    // comparisons give a one-byte boolean
    assert_eq!(eval_binop(BinOp::Eq, 7, 7, 4), (1, false));
    assert_eq!(eval_binop(BinOp::Ne, 7, 7, 4), (0, false));
    assert_eq!(eval_binop(BinOp::Lt, 3, 7, 4), (1, false));
    assert_eq!(eval_binop(BinOp::Le, 7, 7, 4), (1, false));
    assert_eq!(eval_binop(BinOp::Gt, 3, 7, 4), (0, false));
    assert_eq!(eval_binop(BinOp::Ge, 3, 7, 4), (0, false));
}

#[test]
fn unop_values_are_exact() {
    assert_eq!(eval_unop(UnOp::Not, 0b0000_1111, 1), 0b1111_0000);
    assert_eq!(eval_unop(UnOp::Neg, 1, 1), 255);
    assert_eq!(eval_unop(UnOp::Neg, 0, 4), 0);
    assert_eq!(eval_unop(UnOp::Not, 0, 8), u64::MAX);
}

#[test]
fn scalars_round_trip_through_memory() {
    let mut m = Memory::new();
    let a = m.allocate(8);
    let p = Pointer { alloc: a, offset: 0 };
    // Uninitialized bytes read back as no scalar.
    assert_eq!(m.read_scalar(p, 4), None);
    m.write_scalar(p, Scalar::Int { val: 0x0102_0304, size: 4 });
    assert_eq!(m.read_scalar(p, 4), Some(Scalar::Int { val: 0x0102_0304, size: 4 }));
    // Little-endian byte order.
    let bytes = m.read_bytes(p, 4);
    assert_eq!(
        bytes,
        vec![MemByte::Init(4), MemByte::Init(3), MemByte::Init(2), MemByte::Init(1)]
    );
    // A pointer round-trips through its fragments.
    let q = Pointer { alloc: 7, offset: 42 };
    m.write_scalar(p, Scalar::Ptr(q));
    assert_eq!(m.read_scalar(p, 8), Some(Scalar::Ptr(q)));
    // A torn pointer image is no scalar at all.
    m.write_scalar(Pointer { alloc: a, offset: 4 }, Scalar::Int { val: 9, size: 1 });
    assert_eq!(m.read_scalar(p, 8), None);
}

fn scalar_layout(size: usize) -> Layout {
    Layout { size, align: if size == 0 { 1 } else { size }, sized: true, raw_base: false, shape: Shape::Scalar }
}

fn whole_local(l: usize) -> Place {
    Place { local: l, projs: Vec::new() }
}

fn const_int(val: u64, size: usize, layout: usize) -> Operand {
    Operand::Constant(ConstVal { imm: Immediate::Scalar(Scalar::Int { val, size }), layout })
}

fn run_one(layouts: Vec<Layout>, locals: Vec<LocalDecl>, kind: StatementKind) -> (
    InterpCx,
    Result<bool, Failure>,
) {
    let body = Body {
        blocks: vec![BasicBlock {
            statements: vec![Statement { kind }],
            terminator: Terminator::Return,
        }],
        locals,
    };
    let mut cx = InterpCx::new(layouts, Machine::new(1000, false, Vec::new()));
    cx.push_frame(body).unwrap();
    let r = cx.step();
    (cx, r)
}

#[test]
fn cast_truncates_to_the_target_width() {
    let layouts = vec![scalar_layout(4), scalar_layout(1)];
    let (cx, r) = run_one(
        layouts,
        vec![LocalDecl { layout: 1 }],
        StatementKind::Assign(
            whole_local(0),
            Rvalue::Cast(interp_step::ir::CastKind::IntToInt, const_int(0x1FF, 4, 0), 1),
        ),
    );
    assert_eq!(r, Ok(true));
    assert_eq!(
        cx.memory.read_bytes(Pointer { alloc: 0, offset: 0 }, 1),
        vec![MemByte::Init(0xFF)]
    );
}

#[test]
fn len_writes_the_array_length() {
    let layouts = vec![
        scalar_layout(4),
        Layout { size: 12, align: 4, sized: true, raw_base: false, shape: Shape::Array { elem: 0, count: 3 } },
        scalar_layout(8),
    ];
    let (cx, r) = run_one(
        layouts,
        vec![LocalDecl { layout: 1 }, LocalDecl { layout: 2 }],
        StatementKind::Assign(whole_local(1), Rvalue::Len(whole_local(0))),
    );
    assert_eq!(r, Ok(true));
    assert_eq!(
        cx.memory.read_scalar(Pointer { alloc: 1, offset: 0 }, 8),
        Some(Scalar::Int { val: 3, size: 8 })
    );
}

#[test]
fn uninit_operand_read_is_undefined_behavior() {
    // A binary operation must read its operands as values; an
    // uninitialized local is a validity violation.
    let layouts = vec![scalar_layout(4)];
    let (_cx, r) = run_one(
        layouts,
        vec![LocalDecl { layout: 0 }, LocalDecl { layout: 0 }],
        StatementKind::Assign(
            whole_local(0),
            Rvalue::BinaryOp(BinOp::Add, Operand::Copy(whole_local(1)), const_int(1, 4, 0)),
        ),
    );
    assert_eq!(
        r,
        Err(Failure::Interp(InterpError::UndefinedBehavior(UbKind::UninitRead)))
    );
}

#[test]
fn out_of_range_index_is_undefined_behavior() {
    let layouts = vec![
        scalar_layout(4),
        Layout { size: 8, align: 4, sized: true, raw_base: false, shape: Shape::Array { elem: 0, count: 2 } },
    ];
    let (_cx, r) = run_one(
        layouts,
        vec![LocalDecl { layout: 1 }, LocalDecl { layout: 0 }],
        StatementKind::Assign(
            whole_local(1),
            Rvalue::Use(Operand::Copy(Place { local: 0, projs: vec![Proj::Index(5)] })),
        ),
    );
    assert_eq!(
        r,
        Err(Failure::Interp(InterpError::UndefinedBehavior(UbKind::OutOfRange)))
    );
}

#[test]
fn deref_of_an_integer_is_not_a_pointer() {
    let layouts = vec![scalar_layout(8), scalar_layout(4)];
    let body = Body {
        blocks: vec![BasicBlock {
            statements: vec![
                Statement {
                    kind: StatementKind::Assign(whole_local(0), Rvalue::Use(const_int(5, 8, 0))),
                },
                Statement {
                    kind: StatementKind::Assign(
                        whole_local(1),
                        Rvalue::Use(Operand::Copy(Place { local: 0, projs: vec![Proj::Deref(1)] })),
                    ),
                },
            ],
            terminator: Terminator::Return,
        }],
        locals: vec![LocalDecl { layout: 0 }, LocalDecl { layout: 1 }],
    };
    let mut cx = InterpCx::new(layouts, Machine::new(1000, false, Vec::new()));
    cx.push_frame(body).unwrap();
    assert_eq!(cx.step(), Ok(true));
    assert_eq!(
        cx.step(),
        Err(Failure::Interp(InterpError::UndefinedBehavior(UbKind::NotAPointer)))
    );
}

#[test]
fn invalid_discriminant_is_undefined_behavior() {
    let layouts = vec![
        scalar_layout(1),
        Layout {
            size: 1,
            align: 1,
            sized: true,
            raw_base: false,
            shape: Shape::Enum {
                variants: vec![3, 3],
                tag_offset: 0,
                tag_size: 1,
                tag_values: vec![7, 9],
            },
        },
        scalar_layout(1),
        Layout { size: 1, align: 1, sized: true, raw_base: false, shape: Shape::Aggregate { fields: vec![] } },
    ];
    let body = Body {
        blocks: vec![BasicBlock {
            statements: vec![
                // Write a byte that is no variant's tag, then read the
                // discriminant.
                Statement {
                    kind: StatementKind::Assign(
                        whole_local(2),
                        Rvalue::Use(const_int(8, 1, 0)),
                    ),
                },
                Statement {
                    kind: StatementKind::Assign(
                        whole_local(1),
                        Rvalue::Discriminant(whole_local(0)),
                    ),
                },
            ],
            terminator: Terminator::Return,
        }],
        locals: vec![
            LocalDecl { layout: 1 },
            LocalDecl { layout: 2 },
            LocalDecl { layout: 0 },
        ],
    };
    let mut cx = InterpCx::new(layouts, Machine::new(1000, false, Vec::new()));
    cx.push_frame(body).unwrap();
    assert_eq!(cx.step(), Ok(true));
    // Put the junk byte into the enum's tag slot directly.
    cx.memory
        .write_scalar(Pointer { alloc: 0, offset: 0 }, Scalar::Int { val: 8, size: 1 });
    assert_eq!(
        cx.step(),
        Err(Failure::Interp(InterpError::UndefinedBehavior(UbKind::InvalidDiscriminant)))
    );
}

#[test]
fn thread_local_without_a_table_entry_is_unsupported() {
    let layouts = vec![scalar_layout(8)];
    let (_cx, r) = run_one(
        layouts,
        vec![LocalDecl { layout: 0 }],
        StatementKind::Assign(whole_local(0), Rvalue::ThreadLocalRef(0)),
    );
    assert_eq!(r, Err(Failure::Interp(InterpError::Unsupported)));
}

#[test]
fn thread_local_resolves_through_the_machine() {
    let layouts = vec![scalar_layout(8)];
    let body = Body {
        blocks: vec![BasicBlock {
            statements: vec![Statement {
                kind: StatementKind::Assign(whole_local(0), Rvalue::ThreadLocalRef(0)),
            }],
            terminator: Terminator::Return,
        }],
        locals: vec![LocalDecl { layout: 0 }],
    };
    let tls = vec![Pointer { alloc: 3, offset: 4 }];
    let mut cx = InterpCx::new(layouts, Machine::new(1000, false, tls));
    cx.push_frame(body).unwrap();
    assert_eq!(cx.step(), Ok(true));
    assert_eq!(
        cx.memory.read_scalar(Pointer { alloc: 0, offset: 0 }, 8),
        Some(Scalar::Ptr(Pointer { alloc: 3, offset: 4 }))
    );
}

#[test]
fn unreachable_terminator_is_undefined_behavior() {
    let layouts = vec![scalar_layout(4)];
    let body = Body {
        blocks: vec![BasicBlock { statements: vec![], terminator: Terminator::Unreachable }],
        locals: vec![LocalDecl { layout: 0 }],
    };
    let mut cx = InterpCx::new(layouts, Machine::new(1000, false, Vec::new()));
    cx.push_frame(body).unwrap();
    assert_eq!(
        cx.step(),
        Err(Failure::Interp(InterpError::UndefinedBehavior(UbKind::UnreachableCode)))
    );
}

#[test]
fn malformed_local_index_is_fatal() {
    let layouts = vec![scalar_layout(4)];
    let (_cx, r) = run_one(
        layouts,
        vec![LocalDecl { layout: 0 }],
        StatementKind::Assign(whole_local(9), Rvalue::Use(const_int(1, 4, 0))),
    );
    match r {
        Err(Failure::Fatal(Fatal { kind, .. })) => assert_eq!(kind, FatalKind::MalformedProgram),
        other => panic!("expected a fatal failure, got {:?}", other),
    }
}

#[test]
fn len_of_a_non_array_is_an_invalid_shape() {
    let layouts = vec![scalar_layout(4), scalar_layout(8)];
    let (_cx, r) = run_one(
        layouts,
        vec![LocalDecl { layout: 0 }, LocalDecl { layout: 1 }],
        StatementKind::Assign(whole_local(1), Rvalue::Len(whole_local(0))),
    );
    assert_eq!(r, Err(Failure::Interp(InterpError::InvalidShape)));
}

#[test]
fn ub_checks_flag_is_reported() {
    let layouts = vec![scalar_layout(1)];
    let body = Body {
        blocks: vec![BasicBlock {
            statements: vec![Statement {
                kind: StatementKind::Assign(
                    whole_local(0),
                    Rvalue::NullaryOp(interp_step::ir::NullOp::UbChecks),
                ),
            }],
            terminator: Terminator::Return,
        }],
        locals: vec![LocalDecl { layout: 0 }],
    };
    let mut cx = InterpCx::new(layouts, Machine::new(1000, true, Vec::new()));
    cx.push_frame(body).unwrap();
    assert_eq!(cx.step(), Ok(true));
    assert_eq!(
        cx.memory.read_bytes(Pointer { alloc: 0, offset: 0 }, 1),
        vec![MemByte::Init(1)]
    );
}

#[test]
fn deinit_marks_bytes_uninitialized() {
    let layouts = vec![scalar_layout(4)];
    let body = Body {
        blocks: vec![BasicBlock {
            statements: vec![
                Statement {
                    kind: StatementKind::Assign(whole_local(0), Rvalue::Use(const_int(5, 4, 0))),
                },
                Statement { kind: StatementKind::Deinit(whole_local(0)) },
            ],
            terminator: Terminator::Return,
        }],
        locals: vec![LocalDecl { layout: 0 }],
    };
    let mut cx = InterpCx::new(layouts, Machine::new(1000, false, Vec::new()));
    cx.push_frame(body).unwrap();
    assert_eq!(cx.step(), Ok(true));
    assert_eq!(cx.step(), Ok(true));
    assert_eq!(
        cx.memory.read_bytes(Pointer { alloc: 0, offset: 0 }, 4),
        vec![MemByte::Uninit; 4]
    );
}
