use interp_step::interp::{InterpCx, MPlace};
use interp_step::ir::{
    AggregateKind, BasicBlock, BinOp, Body, BorrowKind, ConstVal, Failure, FatalKind,
    InterpError, LocalDecl, Location, NullOp, Operand, Place, RetagKind, Rvalue, Statement,
    StatementKind, Terminator, UbKind,
};
use interp_step::layout::{checked_pair_layout, FieldSlot, Layout, Shape};
use interp_step::machine::Machine;
use interp_step::mem::{Immediate, MemByte, Pointer, Scalar};

fn scalar_layout(size: usize) -> Layout {
    Layout { size, align: if size == 0 { 1 } else { size }, sized: true, raw_base: false, shape: Shape::Scalar }
}

fn machine() -> Machine {
    Machine::new(1000, false, Vec::new())
}

fn whole_local(l: usize) -> Place {
    Place { local: l, projs: Vec::new() }
}

fn const_int(val: u64, size: usize, layout: usize) -> Operand {
    Operand::Constant(ConstVal { imm: Immediate::Scalar(Scalar::Int { val, size }), layout })
}

fn one_statement_body(nlocals: Vec<LocalDecl>, kind: StatementKind) -> Body {
    Body {
        blocks: vec![BasicBlock {
            statements: vec![Statement { kind }],
            terminator: Terminator::Return,
        }],
        locals: nlocals,
    }
}

fn read_alloc(cx: &InterpCx, alloc: usize, len: usize) -> Vec<MemByte> {
    cx.memory.read_bytes(Pointer { alloc, offset: 0 }, len)
}

#[test]
fn use_const_writes_bytes_and_advances() {
    // dest = Use(const 5u32): the four little-endian bytes of 5, and the
    // statement index advances by exactly one.
    let layouts = vec![scalar_layout(4)];
    let body = one_statement_body(
        vec![LocalDecl { layout: 0 }],
        StatementKind::Assign(whole_local(0), Rvalue::Use(const_int(5, 4, 0))),
    );
    let mut cx = InterpCx::new(layouts, machine());
    cx.push_frame(body).unwrap();
    assert_eq!(cx.frames[0].loc, Location::Executing { block: 0, stmt: 0 });
    let more = cx.step().unwrap();
    assert!(more);
    assert_eq!(cx.frames.len(), 1);
    assert_eq!(cx.frames[0].loc, Location::Executing { block: 0, stmt: 1 });
    let bytes = read_alloc(&cx, 0, 4);
    assert_eq!(
        bytes,
        vec![MemByte::Init(5), MemByte::Init(0), MemByte::Init(0), MemByte::Init(0)]
    );
}

#[test]
fn repeat_fills_four_identical_elements() {
    // Repeat(5u32, 4) into a [u32; 4] place: sixteen bytes, four identical
    // little-endian encodings of 5.
    let layouts = vec![
        scalar_layout(4),
        Layout { size: 16, align: 4, sized: true, raw_base: false, shape: Shape::Array { elem: 0, count: 4 } },
    ];
    let body = one_statement_body(
        vec![LocalDecl { layout: 1 }],
        StatementKind::Assign(whole_local(0), Rvalue::Repeat(const_int(5, 4, 0))),
    );
    let mut cx = InterpCx::new(layouts, machine());
    cx.push_frame(body).unwrap();
    cx.step().unwrap();
    let bytes = read_alloc(&cx, 0, 16);
    let mut expect = Vec::new();
    for _ in 0..4 {
        expect.push(MemByte::Init(5));
        expect.push(MemByte::Init(0));
        expect.push(MemByte::Init(0));
        expect.push(MemByte::Init(0));
    }
    assert_eq!(bytes, expect);
}

#[test]
fn repeat_zero_count_needs_valid_place_but_writes_nothing() {
    let layouts = vec![
        scalar_layout(4),
        Layout { size: 0, align: 4, sized: true, raw_base: false, shape: Shape::Array { elem: 0, count: 0 } },
        scalar_layout(0),
    ];
    let body = one_statement_body(
        vec![LocalDecl { layout: 1 }],
        StatementKind::Assign(whole_local(0), Rvalue::Repeat(const_int(5, 4, 0))),
    );
    let mut cx = InterpCx::new(layouts, machine());
    cx.push_frame(body).unwrap();
    // A valid (zero-sized) destination allocation: nothing written, step ok.
    let r = cx.step();
    assert_eq!(r, Ok(true));
    // An invalid destination place is rejected even though the count is 0.
    let bad = MPlace { ptr: Pointer { alloc: 99, offset: 0 }, layout: 1 };
    let r = cx.write_repeat(&const_int(5, 4, 0), bad);
    assert_eq!(
        r,
        Err(Failure::Interp(InterpError::UndefinedBehavior(UbKind::OutOfRange)))
    );
}

#[test]
fn checked_add_writes_value_and_overflow_flag() {
    // CheckedBinaryOp(Add, 250u8, 10u8) == (4u8, true).
    let u8l = scalar_layout(1);
    let booll = scalar_layout(1);
    let pair = checked_pair_layout(&u8l, 0, 1);
    assert_eq!(pair.size, 2);
    let layouts = vec![u8l, booll, pair];
    let body = one_statement_body(
        vec![LocalDecl { layout: 2 }],
        StatementKind::Assign(
            whole_local(0),
            Rvalue::CheckedBinaryOp(BinOp::Add, const_int(250, 1, 0), const_int(10, 1, 0)),
        ),
    );
    let mut cx = InterpCx::new(layouts, machine());
    cx.push_frame(body).unwrap();
    cx.step().unwrap();
    let bytes = read_alloc(&cx, 0, 2);
    assert_eq!(bytes, vec![MemByte::Init(4), MemByte::Init(1)]);
}

#[test]
fn checked_result_layout_differs_from_operand_layout() {
    let u8l = scalar_layout(1);
    let pair = checked_pair_layout(&u8l, 0, 1);
    assert_ne!(pair.size, u8l.size);
    let u64l = scalar_layout(8);
    let pair64 = checked_pair_layout(&u64l, 3, 1);
    assert_eq!(pair64.size, 9);
    assert_ne!(pair64.size, u64l.size);
}

#[test]
fn ref_requests_two_phase_or_default_retag() {
    // A two-phase-eligible borrow requests the two-phase retag kind; an
    // ordinary borrow requests the default kind; a raw address requests raw.
    let layouts = vec![scalar_layout(4), scalar_layout(8)];
    let body = Body {
        blocks: vec![BasicBlock {
            statements: vec![
                Statement {
                    kind: StatementKind::Assign(
                        whole_local(1),
                        Rvalue::Ref(BorrowKind::Mutable { two_phase: true }, whole_local(0)),
                    ),
                },
                Statement {
                    kind: StatementKind::Assign(
                        whole_local(1),
                        Rvalue::Ref(BorrowKind::Shared, whole_local(0)),
                    ),
                },
                Statement {
                    kind: StatementKind::Assign(whole_local(1), Rvalue::AddressOf(whole_local(0))),
                },
            ],
            terminator: Terminator::Return,
        }],
        locals: vec![LocalDecl { layout: 0 }, LocalDecl { layout: 1 }],
    };
    let mut cx = InterpCx::new(layouts, machine());
    cx.push_frame(body).unwrap();
    cx.step().unwrap();
    assert_eq!(cx.machine.retag_value_log, vec![RetagKind::TwoPhase]);
    cx.step().unwrap();
    assert_eq!(
        cx.machine.retag_value_log,
        vec![RetagKind::TwoPhase, RetagKind::Default]
    );
    cx.step().unwrap();
    assert_eq!(
        cx.machine.retag_value_log,
        vec![RetagKind::TwoPhase, RetagKind::Default, RetagKind::Raw]
    );
}

#[test]
fn size_of_zero_sized_type_writes_zero() {
    // NullaryOp(SizeOf, ZeroSizedType) writes 0 as a machine-width integer.
    let layouts = vec![scalar_layout(0), scalar_layout(8)];
    let body = one_statement_body(
        vec![LocalDecl { layout: 1 }],
        StatementKind::Assign(whole_local(0), Rvalue::NullaryOp(NullOp::SizeOf(0))),
    );
    let mut cx = InterpCx::new(layouts, machine());
    cx.push_frame(body).unwrap();
    cx.step().unwrap();
    let bytes = read_alloc(&cx, 0, 8);
    assert_eq!(bytes, vec![MemByte::Init(0); 8]);
}

#[test]
fn size_of_unsized_type_is_fatal_not_recoverable() {
    let layouts = vec![
        Layout { size: 0, align: 1, sized: false, raw_base: false, shape: Shape::Scalar },
        scalar_layout(8),
    ];
    let body = one_statement_body(
        vec![LocalDecl { layout: 1 }],
        StatementKind::Assign(whole_local(0), Rvalue::NullaryOp(NullOp::SizeOf(0))),
    );
    let mut cx = InterpCx::new(layouts, machine());
    cx.push_frame(body).unwrap();
    let direct = cx.nullary_op_value(&NullOp::SizeOf(0));
    match direct {
        Err(Failure::Fatal(f)) => assert_eq!(f.kind, FatalKind::UnsizedTypeQuery),
        other => panic!("expected a fatal failure, got {:?}", other),
    }
    let r = cx.step();
    match r {
        Err(Failure::Fatal(f)) => assert_eq!(f.kind, FatalKind::UnsizedTypeQuery),
        other => panic!("expected a fatal failure, got {:?}", other),
    }
}

#[test]
fn raw_pointer_aggregate_arity_is_fatal() {
    let layouts = vec![scalar_layout(8)];
    let body = one_statement_body(
        vec![LocalDecl { layout: 0 }],
        StatementKind::Assign(
            whole_local(0),
            Rvalue::Aggregate(AggregateKind::RawPtr, vec![const_int(0, 8, 0)]),
        ),
    );
    let mut cx = InterpCx::new(layouts, machine());
    cx.push_frame(body).unwrap();
    let r = cx.step();
    match r {
        Err(Failure::Fatal(f)) => assert_eq!(f.kind, FatalKind::RawPtrAggregateArity),
        other => panic!("expected a fatal failure, got {:?}", other),
    }
}

#[test]
fn aggregate_leaves_padding_uninit() {
    // A struct { u32 at 0, u32 at 8 } of size 12: after construction the
    // field bytes are initialized and the padding bytes are not.
    let layouts = vec![
        scalar_layout(4),
        Layout {
            size: 12,
            align: 4,
            sized: true,
            raw_base: false,
            shape: Shape::Aggregate {
                fields: vec![
                    FieldSlot { offset: 0, layout: 0 },
                    FieldSlot { offset: 8, layout: 0 },
                ],
            },
        },
    ];
    let body = one_statement_body(
        vec![LocalDecl { layout: 1 }],
        StatementKind::Assign(
            whole_local(0),
            Rvalue::Aggregate(
                AggregateKind::Adt { variant: 0, active_field: None },
                vec![const_int(1, 4, 0), const_int(2, 4, 0)],
            ),
        ),
    );
    let mut cx = InterpCx::new(layouts, machine());
    cx.push_frame(body).unwrap();
    cx.step().unwrap();
    let bytes = read_alloc(&cx, 0, 12);
    assert_eq!(bytes[0], MemByte::Init(1));
    assert_eq!(bytes[1..4], vec![MemByte::Init(0); 3][..]);
    assert_eq!(bytes[4..8], vec![MemByte::Uninit; 4][..]);
    assert_eq!(bytes[8], MemByte::Init(2));
    assert_eq!(bytes[9..12], vec![MemByte::Init(0); 3][..]);
    // Reading the padding back as a value is a validity violation.
    let pad = cx
        .memory
        .read_scalar(Pointer { alloc: 0, offset: 4 }, 4);
    assert_eq!(pad, None);
}

#[test]
fn statement_advances_index_and_keeps_depth() {
    let layouts = vec![scalar_layout(4)];
    let body = Body {
        blocks: vec![BasicBlock {
            statements: vec![
                Statement { kind: StatementKind::Nop },
                Statement { kind: StatementKind::Nop },
                Statement { kind: StatementKind::Nop },
            ],
            terminator: Terminator::Return,
        }],
        locals: vec![LocalDecl { layout: 0 }],
    };
    let mut cx = InterpCx::new(layouts, machine());
    cx.push_frame(body).unwrap();
    for i in 0..3 {
        assert_eq!(cx.frames[0].loc, Location::Executing { block: 0, stmt: i });
        assert_eq!(cx.frames.len(), 1);
        assert_eq!(cx.step(), Ok(true));
        assert_eq!(cx.frames.len(), 1);
        assert_eq!(cx.frames[0].loc, Location::Executing { block: 0, stmt: i + 1 });
    }
    // The statements are exhausted: the next step runs the terminator.
    assert_eq!(cx.machine.before_terminator_count, 0);
    assert_eq!(cx.step(), Ok(true));
    assert_eq!(cx.machine.before_terminator_count, 1);
    assert_eq!(cx.frames.len(), 0);
    // Empty stack: nothing more to do.
    assert_eq!(cx.step(), Ok(false));
}

#[test]
fn unwinding_frame_pops_and_caller_continues_unwinding() {
    let layouts = vec![scalar_layout(4)];
    let body = |_: usize| Body {
        blocks: vec![BasicBlock {
            statements: vec![Statement { kind: StatementKind::Nop }],
            terminator: Terminator::Return,
        }],
        locals: vec![LocalDecl { layout: 0 }],
    };
    let mut cx = InterpCx::new(layouts, machine());
    cx.push_frame(body(0)).unwrap();
    cx.push_frame(body(1)).unwrap();
    cx.begin_unwind();
    assert_eq!(cx.frames.len(), 2);
    assert_eq!(cx.step(), Ok(true));
    // The unwinding frame popped; the caller is now unwinding too.
    assert_eq!(cx.frames.len(), 1);
    assert_eq!(cx.frames[0].loc, Location::Unwinding);
    assert_eq!(cx.step(), Ok(true));
    assert_eq!(cx.frames.len(), 0);
    assert_eq!(cx.step(), Ok(false));
}

#[test]
fn goto_moves_to_target_block() {
    let layouts = vec![scalar_layout(4)];
    let body = Body {
        blocks: vec![
            BasicBlock { statements: vec![], terminator: Terminator::Goto { target: 1 } },
            BasicBlock {
                statements: vec![Statement { kind: StatementKind::Nop }],
                terminator: Terminator::Return,
            },
        ],
        locals: vec![LocalDecl { layout: 0 }],
    };
    let mut cx = InterpCx::new(layouts, machine());
    cx.push_frame(body).unwrap();
    assert_eq!(cx.step(), Ok(true));
    assert_eq!(cx.frames[0].loc, Location::Executing { block: 1, stmt: 0 });
    assert_eq!(cx.machine.last_block, Some(1));
}

#[test]
fn const_eval_counter_budget_exhaustion_is_reported() {
    let layouts = vec![scalar_layout(4)];
    let body = Body {
        blocks: vec![BasicBlock {
            statements: vec![
                Statement { kind: StatementKind::ConstEvalCounter },
                Statement { kind: StatementKind::ConstEvalCounter },
                Statement { kind: StatementKind::ConstEvalCounter },
            ],
            terminator: Terminator::Return,
        }],
        locals: vec![LocalDecl { layout: 0 }],
    };
    let mut cx = InterpCx::new(layouts, Machine::new(2, false, Vec::new()));
    cx.push_frame(body).unwrap();
    assert_eq!(cx.step(), Ok(true));
    assert_eq!(cx.step(), Ok(true));
    assert_eq!(cx.step(), Err(Failure::Interp(InterpError::ResourceExhausted)));
    // The failing statement did not advance the counter.
    assert_eq!(cx.frames[0].loc, Location::Executing { block: 0, stmt: 2 });
}

#[test]
fn set_and_read_discriminant() {
    // An enum with a one-byte tag at offset 0 encoding variants as 7 and 9.
    let layouts = vec![
        scalar_layout(1),
        Layout {
            size: 4,
            align: 4,
            sized: true,
            raw_base: false,
            shape: Shape::Enum {
                variants: vec![3, 3],
                tag_offset: 0,
                tag_size: 1,
                tag_values: vec![7, 9],
            },
        },
        scalar_layout(1),
        Layout { size: 4, align: 4, sized: true, raw_base: false, shape: Shape::Aggregate { fields: vec![] } },
    ];
    let body = Body {
        blocks: vec![BasicBlock {
            statements: vec![
                Statement { kind: StatementKind::SetDiscriminant(whole_local(0), 1) },
                Statement {
                    kind: StatementKind::Assign(
                        whole_local(1),
                        Rvalue::Discriminant(whole_local(0)),
                    ),
                },
            ],
            terminator: Terminator::Return,
        }],
        locals: vec![LocalDecl { layout: 1 }, LocalDecl { layout: 2 }],
    };
    let mut cx = InterpCx::new(layouts, machine());
    cx.push_frame(body).unwrap();
    assert_eq!(cx.step(), Ok(true));
    assert_eq!(read_alloc(&cx, 0, 1), vec![MemByte::Init(9)]);
    assert_eq!(cx.step(), Ok(true));
    assert_eq!(read_alloc(&cx, 1, 1), vec![MemByte::Init(9)]);
}

#[test]
fn deref_reads_through_a_stored_pointer() {
    // local0: *const u32 (raw); local1: u32 destination; memory of local0
    // holds a pointer to alloc 2 (a third local).
    let layouts = vec![
        Layout { size: 8, align: 8, sized: true, raw_base: true, shape: Shape::Scalar },
        scalar_layout(4),
    ];
    let body = Body {
        blocks: vec![BasicBlock {
            statements: vec![
                // local2 = 77u32
                Statement {
                    kind: StatementKind::Assign(whole_local(2), Rvalue::Use(const_int(77, 4, 1))),
                },
                // local0 = &raw local2
                Statement {
                    kind: StatementKind::Assign(whole_local(0), Rvalue::AddressOf(whole_local(2))),
                },
                // local1 = *local0
                Statement {
                    kind: StatementKind::Assign(
                        whole_local(1),
                        Rvalue::Use(Operand::Copy(Place {
                            local: 0,
                            projs: vec![interp_step::ir::Proj::Deref(1)],
                        })),
                    ),
                },
            ],
            terminator: Terminator::Return,
        }],
        locals: vec![
            LocalDecl { layout: 0 },
            LocalDecl { layout: 1 },
            LocalDecl { layout: 1 },
        ],
    };
    let mut cx = InterpCx::new(layouts, machine());
    cx.push_frame(body).unwrap();
    assert_eq!(cx.step(), Ok(true));
    assert_eq!(cx.step(), Ok(true));
    assert_eq!(cx.step(), Ok(true));
    let bytes = read_alloc(&cx, 1, 4);
    assert_eq!(
        bytes,
        vec![MemByte::Init(77), MemByte::Init(0), MemByte::Init(0), MemByte::Init(0)]
    );
    // Taking the raw address of an already-raw dereference skips retagging:
    // only the AddressOf of local2 above was logged.
    assert_eq!(cx.machine.retag_value_log, vec![RetagKind::Raw]);
}

#[test]
fn storage_dead_local_is_invalid_to_read() {
    let layouts = vec![scalar_layout(4)];
    let body = Body {
        blocks: vec![BasicBlock {
            statements: vec![
                Statement { kind: StatementKind::StorageDead(0) },
                Statement {
                    kind: StatementKind::Assign(whole_local(0), Rvalue::Use(const_int(1, 4, 0))),
                },
            ],
            terminator: Terminator::Return,
        }],
        locals: vec![LocalDecl { layout: 0 }],
    };
    let mut cx = InterpCx::new(layouts, machine());
    cx.push_frame(body).unwrap();
    assert_eq!(cx.step(), Ok(true));
    assert_eq!(
        cx.step(),
        Err(Failure::Interp(InterpError::UndefinedBehavior(UbKind::DeadLocal)))
    );
}

#[test]
fn enum_aggregate_with_active_field_writes_field_and_tag() {
    // Variant 1 of a two-variant enum: one u32 field at offset 4, a
    // one-byte tag at offset 0 (7 and 9 encode the variants).  The
    // single-field shorthand names the active field explicitly.
    let layouts = vec![
        scalar_layout(4),
        Layout {
            size: 8,
            align: 4,
            sized: true,
            raw_base: false,
            shape: Shape::Enum {
                variants: vec![2, 2],
                tag_offset: 0,
                tag_size: 1,
                tag_values: vec![7, 9],
            },
        },
        Layout {
            size: 8,
            align: 4,
            sized: true,
            raw_base: false,
            shape: Shape::Aggregate { fields: vec![FieldSlot { offset: 4, layout: 0 }] },
        },
    ];
    let body = one_statement_body(
        vec![LocalDecl { layout: 1 }],
        StatementKind::Assign(
            whole_local(0),
            Rvalue::Aggregate(
                AggregateKind::Adt { variant: 1, active_field: Some(0) },
                vec![const_int(5, 4, 0)],
            ),
        ),
    );
    let mut cx = InterpCx::new(layouts, machine());
    cx.push_frame(body).unwrap();
    assert_eq!(cx.step(), Ok(true));
    let bytes = read_alloc(&cx, 0, 8);
    assert_eq!(bytes[0], MemByte::Init(9));
    assert_eq!(bytes[1..4], vec![MemByte::Uninit; 3][..]);
    assert_eq!(
        bytes[4..8],
        vec![MemByte::Init(5), MemByte::Init(0), MemByte::Init(0), MemByte::Init(0)][..]
    );
}

#[test]
fn binary_op_writes_the_wrapped_result() {
    let layouts = vec![scalar_layout(2)];
    let body = one_statement_body(
        vec![LocalDecl { layout: 0 }],
        StatementKind::Assign(
            whole_local(0),
            Rvalue::BinaryOp(BinOp::Mul, const_int(300, 2, 0), const_int(300, 2, 0)),
        ),
    );
    let mut cx = InterpCx::new(layouts, machine());
    cx.push_frame(body).unwrap();
    assert_eq!(cx.step(), Ok(true));
    // 300 * 300 = 90000 = 0x15F90; wrapped to 16 bits it is 0x5F90.
    assert_eq!(
        cx.memory.read_scalar(Pointer { alloc: 0, offset: 0 }, 2),
        Some(Scalar::Int { val: 0x5F90, size: 2 })
    );
}
