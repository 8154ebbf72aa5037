//! The control-flow-graph intermediate representation the engine executes:
//! bodies of basic blocks, statements, places, operands and rvalues, plus
//! the two-tier failure outcome of a step.

use vstd::prelude::*;
use crate::layout::LayoutId;
use crate::mem::Immediate;

verus! {

/// Provenance bookkeeping kind requested when a reference or raw address is
/// formed.
#[derive(Clone, Copy, PartialEq, Eq, Structural, Debug)]
pub enum RetagKind {
    Default,
    TwoPhase,
    Raw,
}

/// The kind of borrow an IR `Ref` performs.
#[derive(Clone, Copy, PartialEq, Eq, Structural, Debug)]
pub enum BorrowKind {
    Shared,
    Mutable { two_phase: bool },
}

/// Whether this borrow permits two-phase use.
pub open spec fn allows_two_phase_borrow(bk: BorrowKind) -> bool {
    bk matches BorrowKind::Mutable { two_phase: true }
}

/// The retag kind a `Ref` of this borrow kind requests.
pub open spec fn retag_kind_for_borrow(bk: BorrowKind) -> RetagKind {
    if allows_two_phase_borrow(bk) {
        RetagKind::TwoPhase
    } else {
        RetagKind::Default
    }
}

pub fn allows_two_phase(bk: BorrowKind) -> (r: bool)
    ensures
        r == allows_two_phase_borrow(bk),
{
    match bk {
        BorrowKind::Mutable { two_phase } => two_phase,
        BorrowKind::Shared => false,
    }
}

#[derive(Clone, Copy, PartialEq, Eq, Structural, Debug)]
pub enum BinOp {
    Add,
    Sub,
    Mul,
    BitAnd,
    BitOr,
    BitXor,
    Eq,
    Ne,
    Lt,
    Le,
    Gt,
    Ge,
}

#[derive(Clone, Copy, PartialEq, Eq, Structural, Debug)]
pub enum UnOp {
    Not,
    Neg,
}

/// An operation taking no runtime operand, only a type (given here by its
/// layout).
#[derive(Clone, Debug)]
pub enum NullOp {
    SizeOf(LayoutId),
    AlignOf(LayoutId),
    /// Byte offset of the subfield reached by the field path.
    OffsetOf(LayoutId, Vec<usize>),
    /// Whether undefined-behavior checks are enabled in this build.
    UbChecks,
}

/// One step of a place's projection chain.
#[derive(Clone, Copy, PartialEq, Eq, Structural, Debug)]
pub enum Proj {
    Field(usize),
    Index(usize),
    Downcast(usize),
    /// Dereference; carries the layout of the pointee.
    Deref(LayoutId),
}

/// An addressable location: a local plus a chain of projections.  A place
/// owns no memory; it is resolved against the current frame on each use.
#[derive(Clone, Debug)]
pub struct Place {
    pub local: usize,
    pub projs: Vec<Proj>,
}

/// An embedded constant: an immediate together with its layout.
#[derive(Clone, Copy, PartialEq, Eq, Structural, Debug)]
pub struct ConstVal {
    pub imm: Immediate,
    pub layout: LayoutId,
}

/// A value source: a place to copy or move from, or a constant.  Reading an
/// operand never mutates it.
#[derive(Clone, Debug)]
pub enum Operand {
    Copy(Place),
    Move(Place),
    Constant(ConstVal),
}

/// How an aggregate is being built.
#[derive(Clone, Debug)]
pub enum AggregateKind {
    /// Algebraic-data-type construction: target variant, and optionally the
    /// single active field (single-field-variant shorthand).
    Adt { variant: usize, active_field: Option<usize> },
    /// Raw-pointer construction from a data operand and a metadata operand.
    RawPtr,
}

#[derive(Clone, Debug)]
pub enum CastKind {
    IntToInt,
}

/// A value-computation expression; evaluated directly into a destination
/// place.
#[derive(Clone, Debug)]
pub enum Rvalue {
    Use(Operand),
    CopyForDeref(Place),
    BinaryOp(BinOp, Operand, Operand),
    CheckedBinaryOp(BinOp, Operand, Operand),
    UnaryOp(UnOp, Operand),
    Aggregate(AggregateKind, Vec<Operand>),
    /// Repeat the operand; the count comes from the destination's array
    /// layout.
    Repeat(Operand),
    Len(Place),
    Ref(BorrowKind, Place),
    AddressOf(Place),
    NullaryOp(NullOp),
    ShallowInitBox(Operand),
    Cast(CastKind, Operand, LayoutId),
    Discriminant(Place),
    ThreadLocalRef(usize),
}

#[derive(Clone, Debug)]
pub enum StatementKind {
    Assign(Place, Rvalue),
    SetDiscriminant(Place, usize),
    Deinit(Place),
    StorageLive(usize),
    StorageDead(usize),
    FakeRead(Place),
    Retag(RetagKind, Place),
    Intrinsic(u64),
    PlaceMention(Place),
    AscribeUserType,
    Coverage,
    Nop,
    ConstEvalCounter,
}

#[derive(Clone, Debug)]
pub struct Statement {
    pub kind: StatementKind,
}

#[derive(Clone, Copy, PartialEq, Eq, Structural, Debug)]
pub enum Terminator {
    Goto { target: usize },
    Return,
    Unreachable,
}

#[derive(Debug)]
pub struct BasicBlock {
    pub statements: Vec<Statement>,
    pub terminator: Terminator,
}

#[derive(Clone, Copy, PartialEq, Eq, Structural, Debug)]
pub struct LocalDecl {
    pub layout: LayoutId,
}

/// One IR body: basic blocks and local-variable declarations.
#[derive(Debug)]
pub struct Body {
    pub blocks: Vec<BasicBlock>,
    pub locals: Vec<LocalDecl>,
}

/// Where a frame stands: at a statement index inside a block, or unwinding
/// (with no cleanup to run in this frame).
#[derive(Clone, Copy, PartialEq, Eq, Structural, Debug)]
pub enum Location {
    Executing { block: usize, stmt: usize },
    Unwinding,
}

/// A validity violation in the interpreted program.
#[derive(Clone, Copy, PartialEq, Eq, Structural, Debug)]
pub enum UbKind {
    UninitRead,
    OutOfRange,
    DeadLocal,
    NotAPointer,
    InvalidDiscriminant,
    UnreachableCode,
}

/// A recoverable interpretation failure: the evaluation is abandoned and
/// reported upward, but the engine itself is healthy.
#[derive(Clone, Copy, PartialEq, Eq, Structural, Debug)]
pub enum InterpError {
    UndefinedBehavior(UbKind),
    Unsupported,
    ResourceExhausted,
    /// An operand or destination of unexpected shape.
    InvalidShape,
}

/// What internal invariant a fatal failure violated.
#[derive(Clone, Copy, PartialEq, Eq, Structural, Debug)]
pub enum FatalKind {
    /// `SizeOf`/`AlignOf` was asked of an unsized type.
    UnsizedTypeQuery,
    /// Raw-pointer aggregate construction with an operand count other than
    /// two.
    RawPtrAggregateArity,
    /// An index in the program (block, local, layout) is out of range, or
    /// an arity rule of the IR is broken.
    MalformedProgram,
}

/// A fatal internal-invariant violation: a defect of the program producer
/// or of the engine, never a property of the interpreted program.  Carries
/// the location being executed as diagnostic context.
#[derive(Clone, Copy, PartialEq, Eq, Structural, Debug)]
pub struct Fatal {
    pub kind: FatalKind,
    pub at: Location,
}

/// The outcome of a step that did not succeed: a recoverable failure, or a
/// fatal one.  The recoverable tier is `InterpError` alone; `Fatal` is kept
/// apart and is never retried.
#[derive(Clone, Copy, PartialEq, Eq, Structural, Debug)]
pub enum Failure {
    Interp(InterpError),
    Fatal(Fatal),
}

} // verus!
