//! The interpreter context and its step loop: a frame stack, the byte
//! store, the layout table the host supplied, and the machine capability.
//! One call to `step` performs exactly one statement or one terminator.
//!
//! Every live local is backed by an allocation of the store, made when the
//! frame is pushed (or at `StorageLive`); an `Immediate` is the transient,
//! unbacked form a value takes while an rvalue is being evaluated.

use vstd::prelude::*;
use std::rc::Rc;
use crate::ir::{
    AggregateKind, BinOp, Body, CastKind, ConstVal, Failure, Fatal, FatalKind, InterpError,
    Location, NullOp, Operand, Place, Proj, Rvalue, Statement, StatementKind, Terminator, UbKind,
    allows_two_phase, retag_kind_for_borrow, RetagKind,
};
use crate::layout::{FieldSlot, Layout, LayoutId, Shape};
use crate::machine::Machine;
use crate::mem::{
    bytes_at, is_ptr_bytes, lemma_pow256_mono, lemma_ptr_bytes_unique, lemma_store_effect,
    pow256, ptr_bytes_for, ptr_enc, range_ok, same_outside, scalar_enc, scalar_size, scalar_wf,
    store_at, uninit_seq, vec_index_mut, Immediate, MemByte, Memory, Pointer, Scalar, PTR_SIZE,
};
use vstd::arithmetic::div_mod::lemma_fundamental_div_mod;

verus! {

/// One call frame: the body it executes, where it stands in it, and the
/// backing allocation of each local (`None` while its storage is dead).
pub struct Frame {
    /// The IR body this frame executes; shared, never mutated while the
    /// frame runs.
    pub body: Rc<Body>,
    pub loc: Location,
    pub locals: Vec<Option<usize>>,
}

/// A second handle to a shared body.
///
/// Relies on std's `Rc::clone`: it returns another pointer to the same
/// allocation, so the handed-back handle holds the same body value.
#[verifier::external_body]
fn share_body(b: &Rc<Body>) -> (r: Rc<Body>)
    ensures
        r == *b,
{
    Rc::clone(b)
}

pub open spec fn frame_wf(f: Frame) -> bool {
    f.locals@.len() == f.body.locals@.len()
}

/// Well-formedness depends only on the frame stack, so it carries over to
/// any context with the same frames.
pub proof fn lemma_wf_same_frames(a: InterpCx, b: InterpCx)
    requires
        a.wf(),
        b.frames@ == a.frames@,
    ensures
        b.wf(),
{
    assert forall|i: int| 0 <= i < b.frames@.len() implies frame_wf(b.frames@[i]) by {
        assert(b.frames@[i] == a.frames@[i]);
        assert(frame_wf(a.frames@[i]));
    }
}

/// A place resolved to concrete memory: a pointer and the layout of what
/// lives there.
#[derive(Clone, Copy, PartialEq, Eq, Structural, Debug)]
pub struct MPlace {
    pub ptr: Pointer,
    pub layout: LayoutId,
}

/// An evaluated operand: either still backed by memory, or an immediate.
#[derive(Clone, Copy, PartialEq, Eq, Structural, Debug)]
pub enum OpKind {
    Backed(MPlace),
    Imm(Immediate),
}

#[derive(Clone, Copy, PartialEq, Eq, Structural, Debug)]
pub struct OpTy {
    pub kind: OpKind,
    pub layout: LayoutId,
}

/// The pointer to the byte at `off` past `base`, within the same
/// allocation.
pub open spec fn field_ptr(base: Pointer, off: int) -> Pointer {
    Pointer { alloc: base.alloc, offset: (base.offset + off) as usize }
}

/// An immediate whose scalars are canonical for their width.
pub open spec fn imm_wf(imm: Immediate) -> bool {
    match imm {
        Immediate::Scalar(s) => scalar_wf(s),
        Immediate::ScalarPair(a, b) => scalar_wf(a) && scalar_wf(b),
    }
}

/// The interpreter context: the exclusive owner of one frame stack.
pub struct InterpCx {
    /// The layout table the host's layout service filled; a `LayoutId` in
    /// the program indexes it.
    pub layouts: Vec<Layout>,
    pub memory: Memory,
    pub frames: Vec<Frame>,
    pub machine: Machine,
}

impl InterpCx {
    pub open spec fn wf(&self) -> bool {
        forall|i: int| 0 <= i < self.frames@.len() ==> frame_wf(self.frames@[i])
    }

    pub open spec fn depth(&self) -> nat {
        self.frames@.len()
    }

    /// The current (topmost) frame.
    pub open spec fn cur(&self) -> Frame {
        self.frames@.last()
    }

    pub open spec fn lay_ok(&self, id: LayoutId) -> bool {
        id < self.layouts@.len()
    }

    pub open spec fn lay(&self, id: LayoutId) -> Layout {
        self.layouts@[id as int]
    }

    pub fn new(layouts: Vec<Layout>, machine: Machine) -> (r: InterpCx)
        ensures
            r.wf(),
            r.depth() == 0,
            r.layouts == layouts,
            r.machine == machine,
            r.memory@.len() == 0,
    {
        InterpCx { layouts, memory: Memory::new(), frames: Vec::new(), machine }
    }

    /// A fatal outcome, carrying the current location as diagnostic
    /// context.
    fn fatal(&self, kind: FatalKind) -> (r: Failure)
        ensures
            (r matches Failure::Fatal(f) && f.kind == kind),
    {
        let at = if self.frames.len() > 0 {
            self.frames[self.frames.len() - 1].loc
        } else {
            Location::Executing { block: 0, stmt: 0 }
        };
        Failure::Fatal(Fatal { kind, at })
    }

    /// Push a frame for `body`, standing at the start of block zero, with
    /// every local live and freshly (uninitialized) allocated.
    pub fn push_frame(&mut self, body: Body) -> (r: Result<(), Failure>)
        requires
            old(self).wf(),
        ensures
            final(self).wf(),
            final(self).layouts@ == old(self).layouts@,
            final(self).machine == old(self).machine,
            r is Ok ==> final(self).depth() == old(self).depth() + 1,
            r is Ok ==> final(self).cur().loc == (Location::Executing { block: 0, stmt: 0 }),
            r is Ok ==> (forall|i: int|
                0 <= i < old(self).depth() ==> final(self).frames@[i] == old(self).frames@[i]),
            r is Err ==> *final(self) == *old(self),
            (r is Ok) == (forall|i: int|
                0 <= i < body.locals@.len() ==> (#[trigger] body.locals@[i]).layout < old(
                    self,
                ).layouts@.len()),
            r is Ok ==> final(self).cur().body == body,
            r is Ok ==> final(self).cur().locals@.len() == body.locals@.len(),
            r is Ok ==> (forall|i: int|
                0 <= i < body.locals@.len() ==> final(self).cur().locals@[i] == Some(
                    (old(self).memory@.len() + i) as usize,
                )),
            r is Ok ==> final(self).memory@.len() == old(self).memory@.len()
                + body.locals@.len(),
            r is Ok ==> (forall|a: int|
                0 <= a < old(self).memory@.len() ==> final(self).memory@[a] == old(
                    self,
                ).memory@[a]),
            r is Ok ==> (forall|i: int|
                0 <= i < body.locals@.len() ==> final(self).memory@[old(self).memory@.len() + i]
                    == uninit_seq(old(self).lay(body.locals@[i].layout).size as nat)),
    {
        let n = body.locals.len();
        let mut i: usize = 0;
        while i < n
            invariant
                i <= n,
                n == body.locals@.len(),
                *self == *old(self),
                old(self).wf(),
                forall|k: int| 0 <= k < i ==> body.locals@[k].layout < self.layouts@.len(),
            decreases n - i,
        {
            if body.locals[i].layout >= self.layouts.len() {
                proof {
                    lemma_wf_same_frames(*old(self), *self);
                }
                return Err(self.fatal(FatalKind::MalformedProgram));
            }
            i += 1;
        }
        let ghost snap = *self;
        let mut locals: Vec<Option<usize>> = Vec::new();
        let mut i: usize = 0;
        while i < n
            invariant
                i <= n,
                n == body.locals@.len(),
                locals@.len() == i as nat,
                self.layouts@ == snap.layouts@,
                self.frames@ == snap.frames@,
                self.machine == snap.machine,
                snap == *old(self),
                old(self).wf(),
                forall|k: int| 0 <= k < n ==> body.locals@[k].layout < self.layouts@.len(),
                self.memory@.len() == snap.memory@.len() + i,
                forall|a: int| 0 <= a < snap.memory@.len() ==> self.memory@[a] == snap.memory@[a],
                forall|k: int|
                    0 <= k < i ==> locals@[k] == Some((snap.memory@.len() + k) as usize),
                forall|k: int|
                    0 <= k < i ==> self.memory@[snap.memory@.len() + k] == uninit_seq(
                        snap.lay(body.locals@[k].layout).size as nat,
                    ),
            decreases n - i,
        {
            let size = self.layouts[body.locals[i].layout].size;
            let a = self.memory.allocate(size);
            locals.push(Some(a));
            i += 1;
        }
        self.frames.push(
            Frame { body: Rc::new(body), loc: Location::Executing { block: 0, stmt: 0 }, locals },
        );
        proof {
            assert forall|i: int| 0 <= i < self.frames@.len() implies frame_wf(
                self.frames@[i],
            ) by {
                if i < old(self).frames@.len() {
                    assert(self.frames@[i] == old(self).frames@[i]);
                    assert(frame_wf(old(self).frames@[i]));
                } else {
                    assert(self.frames@[i] == self.frames@.last());
                    assert(self.frames@.last().locals@.len() == n);
                    assert(self.frames@.last().body.locals@.len() == n);
                    assert(frame_wf(self.frames@.last()));
                }
            }
        }
        Ok(())
    }

    /// Put the current frame into the unwinding state (an in-flight
    /// abnormal termination with no cleanup to run here).
    pub fn begin_unwind(&mut self)
        requires
            old(self).wf(),
            old(self).depth() > 0,
        ensures
            final(self).wf(),
            final(self).depth() == old(self).depth(),
            final(self).layouts@ == old(self).layouts@,
            final(self).memory@ == old(self).memory@,
            final(self).machine == old(self).machine,
            final(self).cur().loc is Unwinding,
            final(self).cur().body == old(self).cur().body,
            final(self).cur().locals == old(self).cur().locals,
            forall|i: int|
                0 <= i < old(self).depth() - 1 ==> final(self).frames@[i] == old(self).frames@[i],
    {
        let i = self.frames.len() - 1;
        let f = vec_index_mut(&mut self.frames, i);
        f.loc = Location::Unwinding;
    }

    /// Pop the current frame.  On an unwinding pop the caller, if any,
    /// continues in its own unwinding state.
    fn pop_frame(&mut self, unwinding: bool)
        requires
            old(self).wf(),
            old(self).depth() > 0,
        ensures
            final(self).wf(),
            final(self).depth() == old(self).depth() - 1,
            final(self).layouts@ == old(self).layouts@,
            final(self).memory@ == old(self).memory@,
            final(self).machine == old(self).machine,
            (unwinding && final(self).depth() > 0) ==> final(self).cur().loc is Unwinding,
            !unwinding ==> final(self).frames@ == old(self).frames@.drop_last(),
    {
        let _ = self.frames.pop();
        if unwinding && self.frames.len() > 0 {
            let i = self.frames.len() - 1;
            let f = vec_index_mut(&mut self.frames, i);
            f.loc = Location::Unwinding;
        }
    }

    /// Look up one field slot of an aggregate-shaped layout.
    fn agg_field(&self, lid: LayoutId, i: usize) -> (r: Option<FieldSlot>)
        requires
            self.lay_ok(lid),
        ensures
            r matches Some(f) ==> (self.lay(lid).shape matches Shape::Aggregate { fields }
                && i < fields@.len() && f == fields@[i as int]),
            r is None ==> !(self.lay(lid).shape matches Shape::Aggregate { fields } && i
                < fields@.len()),
    {
        match &self.layouts[lid].shape {
            Shape::Aggregate { fields } => {
                if i < fields.len() {
                    Some(fields[i])
                } else {
                    None
                }
            },
            _ => None,
        }
    }

    /// Resolve a place against the current frame: walk from the local's
    /// backing allocation through the projection chain.  Succeeds exactly
    /// when the spec-level `resolve` does, and then with its result.
    fn resolve_place(&self, place: &Place) -> (r: Result<MPlace, Failure>)
        requires
            self.wf(),
            self.depth() > 0,
        ensures
            r matches Ok(mp) ==> self.lay_ok(mp.layout),
            (r is Ok) == (self.resolve(*place) is Some),
            r matches Ok(mp) ==> self.resolve(*place) == Some(mp),
    {
        let fidx = self.frames.len() - 1;
        proof {
            assert(frame_wf(self.frames@[fidx as int]));
        }
        if place.local >= self.frames[fidx].locals.len() {
            return Err(self.fatal(FatalKind::MalformedProgram));
        }
        let a = match self.frames[fidx].locals[place.local] {
            Some(a) => a,
            None => {
                return Err(Failure::Interp(InterpError::UndefinedBehavior(UbKind::DeadLocal)));
            },
        };
        let mut lid = self.frames[fidx].body.locals[place.local].layout;
        if lid >= self.layouts.len() {
            return Err(self.fatal(FatalKind::MalformedProgram));
        }
        let mut ptr = Pointer { alloc: a, offset: 0 };
        let n = place.projs.len();
        let mut k: usize = 0;
        proof {
            assert(place.projs@.skip(0) =~= place.projs@);
        }
        while k < n
            invariant
                self.wf(),
                self.depth() > 0,
                k <= n,
                n == place.projs@.len(),
                self.lay_ok(lid),
                self.resolve(*place) == resolve_projs(
                    self.layouts@,
                    self.memory@,
                    MPlace { ptr, layout: lid },
                    place.projs@.skip(k as int),
                ),
            decreases n - k,
        {
            let ghost rest = place.projs@.skip(k as int);
            let ghost cur = MPlace { ptr, layout: lid };
            proof {
                assert(rest[0] == place.projs@[k as int]);
                assert(rest.drop_first() =~= place.projs@.skip(k as int + 1));
            }
            match place.projs[k] {
                Proj::Field(i) => {
                    let slot = match self.agg_field(lid, i) {
                        Some(s) => s,
                        None => {
                            proof {
                                assert(resolve_one(self.layouts@, self.memory@, cur, rest[0])
                                    is None);
                            }
                            return Err(Failure::Interp(InterpError::InvalidShape));
                        },
                    };
                    if slot.offset > usize::MAX - ptr.offset || slot.layout
                        >= self.layouts.len() {
                        proof {
                            assert(resolve_one(self.layouts@, self.memory@, cur, rest[0])
                                is None);
                        }
                        return Err(Failure::Interp(InterpError::InvalidShape));
                    }
                    ptr = Pointer { alloc: ptr.alloc, offset: ptr.offset + slot.offset };
                    lid = slot.layout;
                },
                Proj::Index(i) => {
                    let (elem, count) = match &self.layouts[lid].shape {
                        Shape::Array { elem, count } => (*elem, *count),
                        _ => {
                            return Err(Failure::Interp(InterpError::InvalidShape));
                        },
                    };
                    if i >= count {
                        return Err(
                            Failure::Interp(InterpError::UndefinedBehavior(UbKind::OutOfRange)),
                        );
                    }
                    if elem >= self.layouts.len() {
                        return Err(Failure::Interp(InterpError::InvalidShape));
                    }
                    let es = self.layouts[elem].size;
                    let off = match checked_mul_usize(i, es) {
                        Some(o) => o,
                        None => {
                            return Err(Failure::Interp(InterpError::InvalidShape));
                        },
                    };
                    if off > usize::MAX - ptr.offset {
                        return Err(Failure::Interp(InterpError::InvalidShape));
                    }
                    ptr = Pointer { alloc: ptr.alloc, offset: ptr.offset + off };
                    lid = elem;
                },
                Proj::Downcast(v) => {
                    let vl = match &self.layouts[lid].shape {
                        Shape::Enum { variants, .. } => {
                            if v < variants.len() {
                                variants[v]
                            } else {
                                return Err(Failure::Interp(InterpError::InvalidShape));
                            }
                        },
                        _ => {
                            return Err(Failure::Interp(InterpError::InvalidShape));
                        },
                    };
                    if vl >= self.layouts.len() {
                        return Err(Failure::Interp(InterpError::InvalidShape));
                    }
                    lid = vl;
                },
                Proj::Deref(pointee) => {
                    if !self.memory.check_range(ptr, PTR_SIZE) {
                        return Err(
                            Failure::Interp(InterpError::UndefinedBehavior(UbKind::OutOfRange)),
                        );
                    }
                    let ghost b = bytes_at(self.memory@, ptr, PTR_SIZE as nat);
                    let s = match self.memory.read_scalar(ptr, PTR_SIZE) {
                        Some(s) => s,
                        None => {
                            return Err(
                                Failure::Interp(InterpError::UndefinedBehavior(UbKind::UninitRead)),
                            );
                        },
                    };
                    let p = match s {
                        Scalar::Ptr(p) => p,
                        Scalar::Int { .. } => {
                            proof {
                                assert(!is_ptr_bytes(b));
                            }
                            return Err(
                                Failure::Interp(
                                    InterpError::UndefinedBehavior(UbKind::NotAPointer),
                                ),
                            );
                        },
                    };
                    if pointee >= self.layouts.len() {
                        return Err(Failure::Interp(InterpError::InvalidShape));
                    }
                    proof {
                        let c = choose|q: Pointer| ptr_bytes_for(b, q);
                        lemma_ptr_bytes_unique(b, p, c);
                    }
                    ptr = p;
                    lid = pointee;
                },
            }
            k += 1;
        }
        proof {
            assert(place.projs@.skip(n as int) =~= Seq::<Proj>::empty());
        }
        Ok(MPlace { ptr, layout: lid })
    }

    /// Evaluate an operand to a value source.  `hint` is a layout the
    /// caller already holds for the operand's type and is reused as the
    /// result's layout (it must describe the same type).
    fn eval_operand(&self, op: &Operand, hint: Option<LayoutId>) -> (r: Result<OpTy, Failure>)
        requires
            self.wf(),
            self.depth() > 0,
            hint matches Some(h) ==> self.lay_ok(h),
        ensures
            r matches Ok(o) ==> self.lay_ok(o.layout),
            r matches Ok(o) ==> (*op matches Operand::Constant(c) ==> o.kind == OpKind::Imm(
                c.imm,
            )),
            r matches Ok(o) ==> (*op matches Operand::Copy(p) ==> (o.kind matches OpKind::Backed(
                mp,
            ) && self.resolve(p) == Some(mp))),
            r matches Ok(o) ==> (*op matches Operand::Move(p) ==> (o.kind matches OpKind::Backed(
                mp,
            ) && self.resolve(p) == Some(mp))),
            r matches Ok(o) ==> (hint matches Some(h) ==> o.layout == h),
            *op matches Operand::Constant(c) ==> ((r is Ok) == self.lay_ok(c.layout)),
            r matches Ok(o) ==> (*op matches Operand::Constant(c) ==> (hint is None ==> o.layout
                == c.layout)),
    {
        match op {
            Operand::Copy(place) | Operand::Move(place) => {
                let mp = match self.resolve_place(place) {
                    Ok(mp) => mp,
                    Err(e) => {
                        return Err(e);
                    },
                };
                let layout = match hint {
                    Some(h) => h,
                    None => mp.layout,
                };
                Ok(OpTy { kind: OpKind::Backed(mp), layout })
            },
            Operand::Constant(c) => {
                if c.layout >= self.layouts.len() {
                    return Err(self.fatal(FatalKind::MalformedProgram));
                }
                let layout = match hint {
                    Some(h) => h,
                    None => c.layout,
                };
                Ok(OpTy { kind: OpKind::Imm(c.imm), layout })
            },
        }
    }

    /// Force an operand into immediate form, reading it from memory if it
    /// is backed (promoting the place to a value).
    fn read_immediate(&self, op: OpTy) -> (r: Result<Immediate, Failure>)
        requires
            self.wf(),
            self.lay_ok(op.layout),
        ensures
            r matches Ok(imm) ==> imm_wf(imm),
            op.kind matches OpKind::Imm(i) ==> (r matches Ok(x) ==> x == i),
    {
        match op.kind {
            OpKind::Imm(imm) => {
                if imm_fits(&imm) {
                    Ok(imm)
                } else {
                    Err(Failure::Interp(InterpError::InvalidShape))
                }
            },
            OpKind::Backed(mp) => {
                let (is_scalar, f0, f1) = {
                    match &self.layouts[op.layout].shape {
                        Shape::Scalar => (
                            true,
                            FieldSlot { offset: 0, layout: 0 },
                            FieldSlot { offset: 0, layout: 0 },
                        ),
                        Shape::Aggregate { fields } => {
                            if fields.len() == 2 {
                                (false, fields[0], fields[1])
                            } else {
                                return Err(Failure::Interp(InterpError::InvalidShape));
                            }
                        },
                        _ => {
                            return Err(Failure::Interp(InterpError::InvalidShape));
                        },
                    }
                };
                if is_scalar {
                    let size = self.layouts[op.layout].size;
                    if size > 8 {
                        return Err(Failure::Interp(InterpError::InvalidShape));
                    }
                    match self.read_scalar_checked(mp.ptr, size) {
                        Ok(s) => Ok(Immediate::Scalar(s)),
                        Err(e) => Err(e),
                    }
                } else {
                    let s0 = match self.read_field_scalar(mp.ptr, f0) {
                        Ok(s) => s,
                        Err(e) => {
                            return Err(e);
                        },
                    };
                    let s1 = match self.read_field_scalar(mp.ptr, f1) {
                        Ok(s) => s,
                        Err(e) => {
                            return Err(e);
                        },
                    };
                    Ok(Immediate::ScalarPair(s0, s1))
                }
            },
        }
    }

    /// Read the scalar of one field of a pair, by its slot.
    fn read_field_scalar(&self, base: Pointer, slot: FieldSlot) -> (r: Result<Scalar, Failure>)
        ensures
            r matches Ok(s) ==> scalar_wf(s),
    {
        if slot.layout >= self.layouts.len() {
            return Err(Failure::Interp(InterpError::InvalidShape));
        }
        let ok_shape = match &self.layouts[slot.layout].shape {
            Shape::Scalar => true,
            _ => false,
        };
        if !ok_shape {
            return Err(Failure::Interp(InterpError::InvalidShape));
        }
        let size = self.layouts[slot.layout].size;
        if size > 8 {
            return Err(Failure::Interp(InterpError::InvalidShape));
        }
        if slot.offset > usize::MAX - base.offset {
            return Err(Failure::Interp(InterpError::InvalidShape));
        }
        self.read_scalar_checked(Pointer { alloc: base.alloc, offset: base.offset + slot.offset },
            size)
    }

    /// Range-checked scalar read, reporting validity violations.
    fn read_scalar_checked(&self, ptr: Pointer, size: usize) -> (r: Result<Scalar, Failure>)
        requires
            size <= 8,
        ensures
            r matches Ok(s) ==> scalar_wf(s) && scalar_size(s) == size as nat,
    {
        if !self.memory.check_range(ptr, size) {
            return Err(Failure::Interp(InterpError::UndefinedBehavior(UbKind::OutOfRange)));
        }
        match self.memory.read_scalar(ptr, size) {
            Some(s) => Ok(s),
            None => Err(Failure::Interp(InterpError::UndefinedBehavior(UbKind::UninitRead))),
        }
    }

    /// Write an immediate into a destination.  A scalar needs a
    /// scalar-shaped destination of its exact width; a pair needs a
    /// two-field destination whose fields hold the two scalars.
    fn write_immediate(&mut self, imm: Immediate, dest: MPlace) -> (r: Result<(), Failure>)
        requires
            old(self).wf(),
            old(self).lay_ok(dest.layout),
            imm_wf(imm),
        ensures
            final(self).wf(),
            final(self).frames@ == old(self).frames@,
            final(self).layouts@ == old(self).layouts@,
            final(self).machine == old(self).machine,
            final(self).memory@.len() == old(self).memory@.len(),
            r is Ok ==> same_outside(
                old(self).memory@,
                final(self).memory@,
                dest.ptr,
                old(self).lay(dest.layout).size as nat,
            ),
            r is Err ==> final(self).memory@ == old(self).memory@,
            r is Ok ==> (imm matches Immediate::Scalar(s) ==> final(self).memory@ == store_at(
                old(self).memory@,
                dest.ptr,
                scalar_enc(s),
            ) && scalar_size(s) == old(self).lay(dest.layout).size),
            (imm matches Immediate::Scalar(sc) && scalar_size(sc) == old(self).lay(
                dest.layout,
            ).size && range_ok(old(self).memory@, dest.ptr, scalar_size(sc))) ==> r is Ok,
            r is Ok ==> (imm matches Immediate::ScalarPair(a, b) ==> (old(self).lay(
                dest.layout,
            ).shape matches Shape::Aggregate { fields } && fields@.len() == 2
                && final(self).memory@ == store_at(
                store_at(
                    old(self).memory@,
                    field_ptr(dest.ptr, fields@[0].offset as int),
                    scalar_enc(a),
                ),
                field_ptr(dest.ptr, fields@[1].offset as int),
                scalar_enc(b),
            ))),
    {
        let dsize = self.layouts[dest.layout].size;
        match imm {
            Immediate::Scalar(s) => {
                let ssize = scalar_width(&s);
                if ssize != dsize {
                    return Err(Failure::Interp(InterpError::InvalidShape));
                }
                if !self.memory.check_range(dest.ptr, ssize) {
                    return Err(
                        Failure::Interp(InterpError::UndefinedBehavior(UbKind::OutOfRange)),
                    );
                }
                proof {
                    crate::mem::lemma_scalar_enc_len(s);
                    lemma_store_effect(self.memory@, dest.ptr, scalar_enc(s));
                }
                self.memory.write_scalar(dest.ptr, s);
                Ok(())
            },
            Immediate::ScalarPair(s0, s1) => {
                let (f0, f1) = {
                    match &self.layouts[dest.layout].shape {
                        Shape::Aggregate { fields } => {
                            if fields.len() == 2 {
                                (fields[0], fields[1])
                            } else {
                                return Err(Failure::Interp(InterpError::InvalidShape));
                            }
                        },
                        _ => {
                            return Err(Failure::Interp(InterpError::InvalidShape));
                        },
                    }
                };
                let w0 = scalar_width(&s0);
                let w1 = scalar_width(&s1);
                // The fields must lie inside the destination, so the write
                // stays within it.
                if f0.offset > usize::MAX - w0 || f0.offset + w0 > dsize {
                    return Err(Failure::Interp(InterpError::InvalidShape));
                }
                if f1.offset > usize::MAX - w1 || f1.offset + w1 > dsize {
                    return Err(Failure::Interp(InterpError::InvalidShape));
                }
                if f0.offset > usize::MAX - dest.ptr.offset || f1.offset > usize::MAX
                    - dest.ptr.offset {
                    return Err(Failure::Interp(InterpError::InvalidShape));
                }
                let p0 = Pointer { alloc: dest.ptr.alloc, offset: dest.ptr.offset + f0.offset };
                let p1 = Pointer { alloc: dest.ptr.alloc, offset: dest.ptr.offset + f1.offset };
                if !self.memory.check_range(p0, w0) || !self.memory.check_range(p1, w1) {
                    return Err(
                        Failure::Interp(InterpError::UndefinedBehavior(UbKind::OutOfRange)),
                    );
                }
                let ghost m0 = self.memory@;
                proof {
                    crate::mem::lemma_scalar_enc_len(s0);
                    crate::mem::lemma_scalar_enc_len(s1);
                    lemma_store_effect(m0, p0, scalar_enc(s0));
                }
                self.memory.write_scalar(p0, s0);
                proof {
                    lemma_store_effect(self.memory@, p1, scalar_enc(s1));
                }
                self.memory.write_scalar(p1, s1);
                Ok(())
            },
        }
    }

    /// Copy an operand's bytes into a destination of the same size (the
    /// structural copy between locations).
    fn copy_op(&mut self, src: OpTy, dest: MPlace) -> (r: Result<(), Failure>)
        requires
            old(self).wf(),
            old(self).lay_ok(src.layout),
            old(self).lay_ok(dest.layout),
        ensures
            final(self).wf(),
            final(self).frames@ == old(self).frames@,
            final(self).layouts@ == old(self).layouts@,
            final(self).machine == old(self).machine,
            final(self).memory@.len() == old(self).memory@.len(),
            r is Err ==> final(self).memory@ == old(self).memory@,
            r is Ok ==> same_outside(
                old(self).memory@,
                final(self).memory@,
                dest.ptr,
                old(self).lay(dest.layout).size as nat,
            ),
            r is Ok ==> (src.kind matches OpKind::Backed(mp) ==> final(self).memory@ == store_at(
                old(self).memory@,
                dest.ptr,
                bytes_at(old(self).memory@, mp.ptr, old(self).lay(dest.layout).size as nat),
            )),
            r is Ok ==> (src.kind matches OpKind::Imm(i) ==> (i matches Immediate::Scalar(s)
                ==> final(self).memory@ == store_at(old(self).memory@, dest.ptr, scalar_enc(s))
                && scalar_size(s) == old(self).lay(dest.layout).size)),
            (src.kind matches OpKind::Imm(i) && i matches Immediate::Scalar(sc) && scalar_wf(sc)
                && old(self).lay(src.layout).size == old(self).lay(dest.layout).size
                && scalar_size(sc) == old(self).lay(dest.layout).size && range_ok(
                old(self).memory@,
                dest.ptr,
                scalar_size(sc),
            )) ==> r is Ok,
    {
        let dsize = self.layouts[dest.layout].size;
        let ssize = self.layouts[src.layout].size;
        if ssize != dsize {
            return Err(Failure::Interp(InterpError::InvalidShape));
        }
        match src.kind {
            OpKind::Backed(mp) => {
                if !self.memory.check_range(mp.ptr, dsize) || !self.memory.check_range(
                    dest.ptr,
                    dsize,
                ) {
                    return Err(
                        Failure::Interp(InterpError::UndefinedBehavior(UbKind::OutOfRange)),
                    );
                }
                proof {
                    lemma_store_effect(
                        self.memory@,
                        dest.ptr,
                        bytes_at(self.memory@, mp.ptr, dsize as nat),
                    );
                }
                self.memory.copy_within(mp.ptr, dest.ptr, dsize);
                Ok(())
            },
            OpKind::Imm(imm) => {
                if !imm_fits(&imm) {
                    return Err(Failure::Interp(InterpError::InvalidShape));
                }
                self.write_immediate(imm, dest)
            },
        }
    }
}

/// `i * es`, or `None` on overflow.
fn checked_mul_usize(i: usize, es: usize) -> (r: Option<usize>)
    ensures
        r matches Some(v) ==> v == i * es,
        r is None ==> i * es > usize::MAX,
{
    proof {
        assert((i as u128) * (es as u128) <= (u64::MAX as u128) * (u64::MAX as u128))
            by (nonlinear_arith)
            requires
                i <= u64::MAX,
                es <= u64::MAX,
        ;
    }
    let wide: u128 = (i as u128) * (es as u128);
    if wide > (usize::MAX as u128) {
        None
    } else {
        Some(wide as usize)
    }
}

/// The byte width a scalar occupies (executable form of `scalar_size`).
fn scalar_width(s: &Scalar) -> (r: usize)
    ensures
        r as nat == scalar_size(*s),
{
    match s {
        Scalar::Int { size, .. } => *size,
        Scalar::Ptr(_) => PTR_SIZE,
    }
}

/// Whether an integer value is canonical for its width.
fn int_fits(val: u64, size: usize) -> (b: bool)
    requires
        size <= 8,
    ensures
        b == ((val as nat) < pow256(size as nat)),
{
    if size >= 8 {
        proof {
            reveal_with_fuel(pow256, 9);
        }
        true
    } else {
        let mut lim: u64 = 1;
        let mut j: usize = 0;
        while j < size
            invariant
                j <= size,
                size < 8,
                lim as nat == pow256(j as nat),
            decreases size - j,
        {
            proof {
                lemma_pow256_mono(j as nat, 6);
                reveal_with_fuel(pow256, 9);
            }
            lim = lim * 256;
            j += 1;
        }
        val < lim
    }
}

/// Whether every scalar of an immediate is canonical.
fn imm_fits(imm: &Immediate) -> (b: bool)
    ensures
        b == imm_wf(*imm),
{
    match imm {
        Immediate::Scalar(s) => scalar_fits(s),
        Immediate::ScalarPair(a, b) => {
            let fa = scalar_fits(a);
            let fb = scalar_fits(b);
            fa && fb
        },
    }
}

fn scalar_fits(s: &Scalar) -> (b: bool)
    ensures
        b == scalar_wf(*s),
{
    match s {
        Scalar::Int { val, size } => {
            if *size > 8 {
                false
            } else {
                int_fits(*val, *size)
            }
        },
        Scalar::Ptr(_) => true,
    }
}


/// Some byte `j` lies inside a field that aggregate construction has
/// actually written: with an active field, that one field alone (once the
/// single operand is in); positionally, the first `nops` fields.
pub open spec fn agg_written_covers(
    vf: Seq<FieldSlot>,
    layouts: Seq<Layout>,
    nops: int,
    active: Option<usize>,
    j: int,
) -> bool {
    match active {
        Some(af) => nops > 0 && 0 <= af < vf.len() && vf[af as int].offset <= j < vf[
            af as int
        ].offset + layouts[vf[af as int].layout as int].size,
        None => exists|i: int|
            0 <= i < nops && i < vf.len() && (#[trigger] vf[i]).offset <= j < vf[i].offset
                + layouts[vf[i].layout as int].size,
    }
}

/// The target variant of an algebraic aggregate construction.
pub open spec fn adt_variant_of(k: AggregateKind) -> int {
    match k {
        AggregateKind::Adt { variant, .. } => variant as int,
        AggregateKind::RawPtr => -1,
    }
}

/// Some byte `j` (relative to the aggregate's start) lies inside one of the
/// given field slots.
pub open spec fn field_covers(fields: Seq<FieldSlot>, layouts: Seq<Layout>, j: int) -> bool {
    exists|i: int|
        0 <= i < fields.len() && (#[trigger] fields[i]).offset <= j < fields[i].offset
            + layouts[fields[i].layout as int].size
}

/// The field slots of the target variant of an aggregate destination.
pub open spec fn adt_variant_fields(ctx: InterpCx, lid: LayoutId, variant: int) -> Seq<
    FieldSlot,
> {
    match ctx.lay(lid).shape {
        Shape::Aggregate { fields } => if variant == 0 {
            fields@
        } else {
            Seq::empty()
        },
        Shape::Enum { variants, .. } => if 0 <= variant < variants@.len() && ctx.lay_ok(
            variants@[variant],
        ) {
            match ctx.lay(variants@[variant]).shape {
                Shape::Aggregate { fields } => fields@,
                _ => Seq::empty(),
            }
        } else {
            Seq::empty()
        },
        _ => Seq::empty(),
    }
}

/// Byte `j` (relative to the aggregate's start) lies in the tag of an
/// enum-shaped layout.
pub open spec fn tag_covers(ctx: InterpCx, lid: LayoutId, j: int) -> bool {
    match ctx.lay(lid).shape {
        Shape::Enum { tag_offset, tag_size, .. } => tag_offset <= j < tag_offset + tag_size,
        _ => false,
    }
}

/// The rvalue asks `SizeOf`/`AlignOf` of an unsized type: an internal
/// invariant of the program producer is broken.
pub open spec fn unsized_query(ctx: InterpCx, rv: Rvalue) -> bool {
    match rv {
        Rvalue::NullaryOp(n) => match n {
            NullOp::SizeOf(l) => ctx.lay_ok(l) && !ctx.lay(l).sized,
            NullOp::AlignOf(l) => ctx.lay_ok(l) && !ctx.lay(l).sized,
            _ => false,
        },
        _ => false,
    }
}

/// Raw-pointer aggregate construction with an operand count other than two.
pub open spec fn rawptr_bad_arity(rv: Rvalue) -> bool {
    match rv {
        Rvalue::Aggregate(k, ops) => (k is RawPtr) && ops@.len() != 2,
        _ => false,
    }
}

/// The place is a dereference of a local whose type is already a raw
/// pointer, so taking its raw address crosses no new provenance boundary.
pub open spec fn place_base_raw(ctx: InterpCx, place: Place) -> bool {
    &&& place.projs@.len() > 0
    &&& place.projs@[0] is Deref
    &&& place.local < ctx.cur().body.locals@.len()
    &&& ctx.lay_ok(ctx.cur().body.locals@[place.local as int].layout)
    &&& ctx.lay(ctx.cur().body.locals@[place.local as int].layout).raw_base
}

/// Spec-level resolution of one projection step against the layout table
/// and the store.  `None` exactly when the executable resolution reports a
/// failure for this step.
pub open spec fn resolve_one(
    layouts: Seq<Layout>,
    mem: Seq<Seq<MemByte>>,
    mp: MPlace,
    proj: Proj,
) -> Option<MPlace> {
    match proj {
        Proj::Field(i) => match layouts[mp.layout as int].shape {
            Shape::Aggregate { fields } => if i < fields@.len() && fields@[i as int].offset
                + mp.ptr.offset <= usize::MAX && fields@[i as int].layout < layouts.len() {
                Some(
                    MPlace {
                        ptr: field_ptr(mp.ptr, fields@[i as int].offset as int),
                        layout: fields@[i as int].layout,
                    },
                )
            } else {
                None
            },
            _ => None,
        },
        Proj::Index(i) => match layouts[mp.layout as int].shape {
            Shape::Array { elem, count } => if i < count && elem < layouts.len() && mp.ptr.offset
                + i * layouts[elem as int].size <= usize::MAX {
                Some(
                    MPlace {
                        ptr: field_ptr(mp.ptr, i * layouts[elem as int].size),
                        layout: elem,
                    },
                )
            } else {
                None
            },
            _ => None,
        },
        Proj::Downcast(v) => match layouts[mp.layout as int].shape {
            Shape::Enum { variants, .. } => if v < variants@.len() && variants@[v as int]
                < layouts.len() {
                Some(MPlace { ptr: mp.ptr, layout: variants@[v as int] })
            } else {
                None
            },
            _ => None,
        },
        Proj::Deref(pointee) => if range_ok(mem, mp.ptr, PTR_SIZE as nat) && is_ptr_bytes(
            bytes_at(mem, mp.ptr, PTR_SIZE as nat),
        ) && pointee < layouts.len() {
            Some(
                MPlace {
                    ptr: choose|q: Pointer|
                        ptr_bytes_for(bytes_at(mem, mp.ptr, PTR_SIZE as nat), q),
                    layout: pointee,
                },
            )
        } else {
            None
        },
    }
}

/// Spec-level resolution of a projection chain.
pub open spec fn resolve_projs(
    layouts: Seq<Layout>,
    mem: Seq<Seq<MemByte>>,
    mp: MPlace,
    projs: Seq<Proj>,
) -> Option<MPlace>
    decreases projs.len(),
{
    if projs.len() == 0 {
        Some(mp)
    } else {
        match resolve_one(layouts, mem, mp, projs[0]) {
            Some(next) => resolve_projs(layouts, mem, next, projs.drop_first()),
            None => None,
        }
    }
}

impl InterpCx {
    /// Spec-level resolution of a place against the current frame: the
    /// local's backing allocation, then the projection chain.  `Some`
    /// exactly when the executable `resolve_place` succeeds, and then with
    /// its result.
    pub open spec fn resolve(&self, place: Place) -> Option<MPlace> {
        let decls = self.cur().body.locals@;
        let slots = self.cur().locals@;
        if place.local < slots.len() && place.local < decls.len() {
            match slots[place.local as int] {
                Some(a) => if decls[place.local as int].layout < self.layouts@.len() {
                    resolve_projs(
                        self.layouts@,
                        self.memory@,
                        MPlace {
                            ptr: Pointer { alloc: a, offset: 0 },
                            layout: decls[place.local as int].layout,
                        },
                        place.projs@,
                    )
                } else {
                    None
                },
                None => None,
            }
        } else {
            None
        }
    }
}

/// The byte offset reached by a field path from a layout, summed over the
/// slots; `None` when the path leaves the table's aggregate shapes.
pub open spec fn offset_of_spec(layouts: Seq<Layout>, lid: int, path: Seq<usize>) -> Option<int>
    decreases path.len(),
{
    if path.len() == 0 {
        Some(0)
    } else if 0 <= lid < layouts.len() {
        match layouts[lid].shape {
            Shape::Aggregate { fields } => if (path[0] as int) < fields@.len() {
                match offset_of_spec(
                    layouts,
                    fields@[path[0] as int].layout as int,
                    path.drop_first(),
                ) {
                    Some(rest) => Some(fields@[path[0] as int].offset + rest),
                    None => None,
                }
            } else {
                None
            },
            _ => None,
        }
    } else {
        None
    }
}

pub proof fn lemma_offset_of_nonneg(layouts: Seq<Layout>, lid: int, path: Seq<usize>)
    ensures
        offset_of_spec(layouts, lid, path) matches Some(o) ==> o >= 0,
    decreases path.len(),
{
    if path.len() > 0 && 0 <= lid < layouts.len() {
        match layouts[lid].shape {
            Shape::Aggregate { fields } => {
                if (path[0] as int) < fields@.len() {
                    lemma_offset_of_nonneg(
                        layouts,
                        fields@[path[0] as int].layout as int,
                        path.drop_first(),
                    );
                }
            },
            _ => {},
        }
    }
}

/// The scalar a nullary operation produces: `None` exactly when the
/// executable evaluation does not succeed.
pub open spec fn nullary_value_spec(ctx: InterpCx, op: NullOp) -> Option<Scalar> {
    match op {
        NullOp::SizeOf(l) => if ctx.lay_ok(l) && ctx.lay(l).sized {
            Some(Scalar::Int { val: ctx.lay(l).size as u64, size: 8 })
        } else {
            None
        },
        NullOp::AlignOf(l) => if ctx.lay_ok(l) && ctx.lay(l).sized {
            Some(Scalar::Int { val: ctx.lay(l).align as u64, size: 8 })
        } else {
            None
        },
        NullOp::OffsetOf(l, path) => if ctx.lay_ok(l) {
            match offset_of_spec(ctx.layouts@, l as int, path@) {
                Some(o) => if o <= usize::MAX {
                    Some(Scalar::Int { val: o as u64, size: 8 })
                } else {
                    None
                },
                None => None,
            }
        } else {
            None
        },
        NullOp::UbChecks => Some(
            Scalar::Int {
                val: if ctx.machine.ub_checks {
                    1u64
                } else {
                    0u64
                },
                size: 1,
            },
        ),
    }
}

impl InterpCx {
    /// The value of an operation that takes only a type: its size or
    /// alignment (owed exactly when the type is sized; an unsized type here
    /// is a fatal internal error, never a recoverable one), a subfield
    /// offset, or the undefined-behavior-checks flag.
    pub fn nullary_op_value(&self, op: &NullOp) -> (r: Result<Scalar, Failure>)
        requires
            self.wf(),
            self.depth() > 0,
        ensures
            r matches Ok(s) ==> scalar_wf(s),
            *op matches NullOp::SizeOf(l) ==> (self.lay_ok(l) && self.lay(l).sized ==> r
                == Ok::<Scalar, Failure>(Scalar::Int { val: self.lay(l).size as u64, size: 8 })),
            *op matches NullOp::SizeOf(l) ==> (self.lay_ok(l) && !self.lay(l).sized ==> (r matches
                Err(f) && f matches Failure::Fatal(ft) && ft.kind == FatalKind::UnsizedTypeQuery)),
            *op matches NullOp::AlignOf(l) ==> (self.lay_ok(l) && self.lay(l).sized ==> r
                == Ok::<Scalar, Failure>(Scalar::Int { val: self.lay(l).align as u64, size: 8 })),
            *op matches NullOp::AlignOf(l) ==> (self.lay_ok(l) && !self.lay(l).sized ==> (r matches
                Err(f) && f matches Failure::Fatal(ft) && ft.kind == FatalKind::UnsizedTypeQuery)),
            *op is UbChecks ==> r == Ok::<Scalar, Failure>(
                Scalar::Int { val: if self.machine.ub_checks { 1u64 } else { 0u64 }, size: 1 },
            ),
            (r is Ok) == (nullary_value_spec(*self, *op) is Some),
            r matches Ok(s) ==> Some(s) == nullary_value_spec(*self, *op),
    {
        proof {
            reveal_with_fuel(pow256, 9);
        }
        match op {
            NullOp::SizeOf(l) => {
                if *l >= self.layouts.len() {
                    return Err(Failure::Interp(InterpError::InvalidShape));
                }
                if !self.layouts[*l].sized {
                    return Err(self.fatal(FatalKind::UnsizedTypeQuery));
                }
                Ok(Scalar::Int { val: self.layouts[*l].size as u64, size: 8 })
            },
            NullOp::AlignOf(l) => {
                if *l >= self.layouts.len() {
                    return Err(Failure::Interp(InterpError::InvalidShape));
                }
                if !self.layouts[*l].sized {
                    return Err(self.fatal(FatalKind::UnsizedTypeQuery));
                }
                Ok(Scalar::Int { val: self.layouts[*l].align as u64, size: 8 })
            },
            NullOp::OffsetOf(l, path) => {
                if *l >= self.layouts.len() {
                    return Err(Failure::Interp(InterpError::InvalidShape));
                }
                let mut cur: LayoutId = *l;
                let mut total: usize = 0;
                let mut k: usize = 0;
                let n = path.len();
                proof {
                    assert(path@.skip(0) =~= path@);
                    lemma_offset_of_nonneg(self.layouts@, *l as int, path@);
                    assert(*op == NullOp::OffsetOf(*l, *path));
                }
                while k < n
                    invariant
                        self.wf(),
                        k <= n,
                        n == path@.len(),
                        k < n ==> self.lay_ok(cur),
                        self.lay_ok(*l),
                        *op == NullOp::OffsetOf(*l, *path),
                        match offset_of_spec(self.layouts@, *l as int, path@) {
                            Some(o) => offset_of_spec(
                                self.layouts@,
                                cur as int,
                                path@.skip(k as int),
                            ) == Some(o - total) && total <= o,
                            None => offset_of_spec(
                                self.layouts@,
                                cur as int,
                                path@.skip(k as int),
                            ) is None,
                        },
                    decreases n - k,
                {
                    let ghost rest = path@.skip(k as int);
                    proof {
                        assert(rest[0] == path@[k as int]);
                        assert(rest.drop_first() =~= path@.skip(k as int + 1));
                        lemma_offset_of_nonneg(self.layouts@, cur as int, rest);
                    }
                    let slot = match self.agg_field(cur, path[k]) {
                        Some(s) => s,
                        None => {
                            proof {
                                assert(offset_of_spec(self.layouts@, cur as int, rest) is None);
                                assert(nullary_value_spec(*self, *op) is None);
                            }
                            return Err(Failure::Interp(InterpError::InvalidShape));
                        },
                    };
                    proof {
                        lemma_offset_of_nonneg(self.layouts@, slot.layout as int,
                            rest.drop_first());
                    }
                    if slot.offset > usize::MAX - total {
                        proof {
                            assert(nullary_value_spec(*self, *op) is None) by {
                                match offset_of_spec(self.layouts@, *l as int, path@) {
                                    Some(o) => {
                                        assert(offset_of_spec(self.layouts@, cur as int, rest)
                                            == Some(o - total));
                                        assert(o - total >= slot.offset);
                                        assert(o > usize::MAX);
                                    },
                                    None => {},
                                }
                            }
                        }
                        return Err(Failure::Interp(InterpError::InvalidShape));
                    }
                    if k + 1 < n && slot.layout >= self.layouts.len() {
                        proof {
                            assert(rest.drop_first().len() > 0);
                            assert(offset_of_spec(self.layouts@, cur as int, rest) is None);
                            assert(nullary_value_spec(*self, *op) is None);
                        }
                        return Err(Failure::Interp(InterpError::InvalidShape));
                    }
                    total = total + slot.offset;
                    cur = slot.layout;
                    k += 1;
                }
                proof {
                    assert(path@.skip(n as int) =~= Seq::<usize>::empty());
                }
                Ok(Scalar::Int { val: total as u64, size: 8 })
            },
            NullOp::UbChecks => {
                Ok(Scalar::Int { val: if self.machine.ub_checks { 1 } else { 0 }, size: 1 })
            },
        }
    }

    /// Write the tag for `variant` into an enum-shaped destination, leaving
    /// every non-tag byte as it was; on a single-variant (tagless) shape,
    /// variant zero is a no-op.
    fn write_discriminant(&mut self, variant: usize, dest: MPlace) -> (r: Result<(), Failure>)
        requires
            old(self).wf(),
            old(self).lay_ok(dest.layout),
        ensures
            final(self).wf(),
            final(self).frames@ == old(self).frames@,
            final(self).layouts@ == old(self).layouts@,
            final(self).machine == old(self).machine,
            final(self).memory@.len() == old(self).memory@.len(),
            r is Err ==> final(self).memory@ == old(self).memory@,
            r is Ok ==> same_outside(
                old(self).memory@,
                final(self).memory@,
                dest.ptr,
                old(self).lay(dest.layout).size as nat,
            ),
            r is Ok ==> (forall|j: int|
                0 <= j < old(self).lay(dest.layout).size
                    && dest.ptr.alloc < old(self).memory@.len()
                    && dest.ptr.offset + j < old(self).memory@[dest.ptr.alloc as int].len()
                    && !tag_covers(*old(self), dest.layout, j)
                    ==> final(self).memory@[dest.ptr.alloc as int][dest.ptr.offset + j]
                        == old(self).memory@[dest.ptr.alloc as int][dest.ptr.offset + j]),
            r is Ok ==> (old(self).lay(dest.layout).shape matches Shape::Enum {
                tag_offset,
                tag_size,
                tag_values,
                ..
            } ==> variant < tag_values@.len() && final(self).memory@ == store_at(
                old(self).memory@,
                field_ptr(dest.ptr, tag_offset as int),
                scalar_enc(Scalar::Int { val: tag_values@[variant as int], size: tag_size }),
            )),
            r is Ok ==> (!(old(self).lay(dest.layout).shape is Enum) ==> final(self).memory@
                == old(self).memory@ && variant == 0),
    {
        let dsize = self.layouts[dest.layout].size;
        let (is_enum, tag_off, tag_sz, nvariants, nvals) = {
            match &self.layouts[dest.layout].shape {
                Shape::Enum { variants, tag_offset, tag_size, tag_values } => (
                    true,
                    *tag_offset,
                    *tag_size,
                    variants.len(),
                    tag_values.len(),
                ),
                _ => (false, 0, 0, 0, 0),
            }
        };
        if !is_enum {
            if variant == 0 {
                return Ok(());
            } else {
                return Err(Failure::Interp(InterpError::InvalidShape));
            }
        }
        if variant >= nvariants || variant >= nvals {
            return Err(Failure::Interp(InterpError::InvalidShape));
        }
        if tag_sz > 8 {
            return Err(Failure::Interp(InterpError::InvalidShape));
        }
        if tag_off > usize::MAX - tag_sz || tag_off + tag_sz > dsize {
            return Err(Failure::Interp(InterpError::InvalidShape));
        }
        let tv = {
            match &self.layouts[dest.layout].shape {
                Shape::Enum { tag_values, .. } => tag_values[variant],
                _ => 0,
            }
        };
        if !int_fits(tv, tag_sz) {
            return Err(Failure::Interp(InterpError::InvalidShape));
        }
        if tag_off > usize::MAX - dest.ptr.offset {
            return Err(Failure::Interp(InterpError::InvalidShape));
        }
        let tptr = Pointer { alloc: dest.ptr.alloc, offset: dest.ptr.offset + tag_off };
        if !self.memory.check_range(tptr, tag_sz) {
            return Err(Failure::Interp(InterpError::UndefinedBehavior(UbKind::OutOfRange)));
        }
        let s = Scalar::Int { val: tv, size: tag_sz };
        proof {
            crate::mem::lemma_scalar_enc_len(s);
            lemma_store_effect(self.memory@, tptr, scalar_enc(s));
            crate::mem::lemma_same_outside_widen(
                self.memory@,
                store_at(self.memory@, tptr, scalar_enc(s)),
                tptr,
                tag_sz as nat,
                dest.ptr,
                self.lay(dest.layout).size as nat,
            );
        }
        self.memory.write_scalar(tptr, s);
        Ok(())
    }
}

impl InterpCx {
    /// Build an aggregate in `dest`: first deinitialize the whole
    /// destination (padding ends up uninitialized, never stale or zero),
    /// then write each operand into its field of the target variant and
    /// finally the variant's tag — or, for raw-pointer construction, build
    /// the pointer immediate from exactly two operands (data, metadata) and
    /// copy it in whole.  After a successful algebraic construction, every
    /// destination byte outside the written variant's fields and the tag is
    /// uninitialized.
    pub fn write_aggregate(
        &mut self,
        kind: &AggregateKind,
        operands: &Vec<Operand>,
        dest: MPlace,
    ) -> (r: Result<(), Failure>)
        requires
            old(self).wf(),
            old(self).depth() > 0,
            old(self).lay_ok(dest.layout),
            range_ok(old(self).memory@, dest.ptr, old(self).lay(dest.layout).size as nat),
        ensures
            final(self).wf(),
            final(self).frames@ == old(self).frames@,
            final(self).layouts@ == old(self).layouts@,
            final(self).machine == old(self).machine,
            final(self).memory@.len() == old(self).memory@.len(),
            same_outside(
                old(self).memory@,
                final(self).memory@,
                dest.ptr,
                old(self).lay(dest.layout).size as nat,
            ),
            ((*kind) is RawPtr && operands@.len() != 2) ==> (r matches Err(f) && f matches
                Failure::Fatal(ft) && ft.kind == FatalKind::RawPtrAggregateArity),
            r is Ok ==> (*kind matches AggregateKind::Adt { variant, active_field } ==> (forall|
                j: int,
            |
                0 <= j < old(self).lay(dest.layout).size
                    && !agg_written_covers(
                    adt_variant_fields(*old(self), dest.layout, variant as int),
                    old(self).layouts@,
                    operands@.len() as int,
                    active_field,
                    j,
                )
                    && !tag_covers(*old(self), dest.layout, j)
                    ==> final(self).memory@[dest.ptr.alloc as int][dest.ptr.offset + j]
                        is Uninit)),
    {
        let dsize = self.layouts[dest.layout].size;
        let ghost m_start = self.memory@;
        proof {
            lemma_store_effect(m_start, dest.ptr, crate::mem::uninit_seq(dsize as nat));
        }
        self.memory.deinit_range(dest.ptr, dsize);
        match kind {
            AggregateKind::RawPtr => {
                if operands.len() != 2 {
                    return Err(self.fatal(FatalKind::RawPtrAggregateArity));
                }
                let data = match self.eval_operand(&operands[0], None) {
                    Ok(o) => o,
                    Err(e) => {
                        return Err(e);
                    },
                };
                let dimm = match self.read_immediate(data) {
                    Ok(i) => i,
                    Err(e) => {
                        return Err(e);
                    },
                };
                let p = match dimm {
                    Immediate::Scalar(Scalar::Ptr(p)) => p,
                    _ => {
                        return Err(
                            Failure::Interp(InterpError::UndefinedBehavior(UbKind::NotAPointer)),
                        );
                    },
                };
                let meta = match self.eval_operand(&operands[1], None) {
                    Ok(o) => o,
                    Err(e) => {
                        return Err(e);
                    },
                };
                let meta_zst = self.layouts[meta.layout].size == 0 && self.layouts[
                    meta.layout
                ].sized;
                let imm = if meta_zst {
                    Immediate::Scalar(Scalar::Ptr(p))
                } else {
                    let mimm = match self.read_immediate(meta) {
                        Ok(i) => i,
                        Err(e) => {
                            return Err(e);
                        },
                    };
                    let ms = match mimm {
                        Immediate::Scalar(s) => s,
                        _ => {
                            return Err(Failure::Interp(InterpError::InvalidShape));
                        },
                    };
                    Immediate::ScalarPair(Scalar::Ptr(p), ms)
                };
                let ghost m_deinit = self.memory@;
                let res = self.write_immediate(imm, dest);
                proof {
                    if res is Ok {
                        crate::mem::lemma_same_outside_trans(
                            m_start,
                            m_deinit,
                            self.memory@,
                            dest.ptr,
                            self.lay(dest.layout).size as nat,
                        );
                    }
                }
                match res {
                    Ok(()) => Ok(()),
                    Err(e) => Err(e),
                }
            },
            AggregateKind::Adt { variant, active_field } => {
                let variant = *variant;
                // Narrow the destination to the target variant's fields.
                let (vlid, has_tag) = {
                    match &self.layouts[dest.layout].shape {
                        Shape::Aggregate { .. } => {
                            if variant == 0 {
                                (dest.layout, false)
                            } else {
                                return Err(Failure::Interp(InterpError::InvalidShape));
                            }
                        },
                        Shape::Enum { variants, .. } => {
                            if variant < variants.len() {
                                (variants[variant], true)
                            } else {
                                return Err(Failure::Interp(InterpError::InvalidShape));
                            }
                        },
                        _ => {
                            return Err(Failure::Interp(InterpError::InvalidShape));
                        },
                    }
                };
                if vlid >= self.layouts.len() {
                    return Err(Failure::Interp(InterpError::InvalidShape));
                }
                let vshape_ok = {
                    match &self.layouts[vlid].shape {
                        Shape::Aggregate { .. } => true,
                        _ => false,
                    }
                };
                if !vshape_ok {
                    return Err(Failure::Interp(InterpError::InvalidShape));
                }
                let ghost vf = adt_variant_fields(*old(self), dest.layout, variant as int);
                let nops = operands.len();
                if active_field.is_some() && nops != 1 {
                    return Err(self.fatal(FatalKind::MalformedProgram));
                }
                let ghost m0 = self.memory@;
                proof {
                    assert(forall|j: int|
                        0 <= j < dsize ==> (#[trigger] m0[dest.ptr.alloc as int][dest.ptr.offset
                            + j]) is Uninit);
                }
                let mut t: usize = 0;
                while t < nops
                    invariant
                        self.wf(),
                        self.depth() > 0,
                        t <= nops,
                        nops == operands@.len(),
                        active_field matches Some(_) ==> nops == 1,
                        (*kind) is Adt,
                        self.frames@ == old(self).frames@,
                        self.layouts@ == old(self).layouts@,
                        self.machine == old(self).machine,
                        self.memory@.len() == old(self).memory@.len(),
                        self.lay_ok(dest.layout),
                        self.lay_ok(vlid),
                        dsize == self.lay(dest.layout).size,
                        range_ok(old(self).memory@, dest.ptr, dsize as nat),
                        vf == adt_variant_fields(*old(self), dest.layout, variant as int),
                        self.lay(vlid).shape matches Shape::Aggregate { fields } && fields@
                            == vf,
                        same_outside(old(self).memory@, self.memory@, dest.ptr, dsize as nat),
                        forall|j: int|
                            0 <= j < dsize && !agg_written_covers(
                                vf,
                                self.layouts@,
                                t as int,
                                *active_field,
                                j,
                            ) ==> self.memory@[dest.ptr.alloc as int][dest.ptr.offset + j]
                                is Uninit,
                    decreases nops - t,
                {
                    let field_index = match active_field {
                        Some(af) => *af,
                        None => t,
                    };
                    let slot = match self.agg_field(vlid, field_index) {
                        Some(s) => s,
                        None => {
                            return Err(Failure::Interp(InterpError::InvalidShape));
                        },
                    };
                    if slot.layout >= self.layouts.len() {
                        return Err(Failure::Interp(InterpError::InvalidShape));
                    }
                    let fsize = self.layouts[slot.layout].size;
                    if slot.offset > usize::MAX - fsize || slot.offset + fsize > dsize {
                        return Err(Failure::Interp(InterpError::InvalidShape));
                    }
                    if slot.offset > usize::MAX - dest.ptr.offset {
                        return Err(Failure::Interp(InterpError::InvalidShape));
                    }
                    let fdest = MPlace {
                        ptr: Pointer {
                            alloc: dest.ptr.alloc,
                            offset: dest.ptr.offset + slot.offset,
                        },
                        layout: slot.layout,
                    };
                    let op = match self.eval_operand(&operands[t], Some(slot.layout)) {
                        Ok(o) => o,
                        Err(e) => {
                            return Err(e);
                        },
                    };
                    let ghost m_before = self.memory@;
                    match self.copy_op(op, fdest) {
                        Ok(()) => {},
                        Err(e) => {
                            return Err(e);
                        },
                    }
                    proof {
                        crate::mem::lemma_same_outside_widen(
                            m_before,
                            self.memory@,
                            fdest.ptr,
                            self.lay(slot.layout).size as nat,
                            dest.ptr,
                            dsize as nat,
                        );
                        crate::mem::lemma_same_outside_trans(
                            old(self).memory@,
                            m_before,
                            self.memory@,
                            dest.ptr,
                            dsize as nat,
                        );
                        assert forall|j: int|
                            0 <= j < dsize && !(#[trigger] agg_written_covers(
                                vf,
                                self.layouts@,
                                t as int + 1,
                                *active_field,
                                j,
                            )) implies self.memory@[dest.ptr.alloc as int][dest.ptr.offset + j]
                            is Uninit by {
                            assert(!agg_written_covers(vf, self.layouts@, t as int,
                                *active_field, j));
                            assert(!(slot.offset <= j < slot.offset + fsize)) by {
                                if slot.offset <= j < slot.offset + fsize {
                                    assert(agg_written_covers(
                                        vf,
                                        self.layouts@,
                                        t as int + 1,
                                        *active_field,
                                        j,
                                    )) by {
                                        assert(0 <= field_index < vf.len() && vf[
                                            field_index as int
                                        ].offset <= j < vf[field_index as int].offset
                                            + self.layouts@[
                                            vf[field_index as int].layout as int
                                        ].size);
                                    }
                                }
                            }
                            assert(self.memory@[dest.ptr.alloc as int][dest.ptr.offset + j]
                                == m_before[dest.ptr.alloc as int][dest.ptr.offset + j]);
                        }
                    }
                    t += 1;
                }
                let ghost m_fields = self.memory@;
                let ghost ctx_mid = *self;
                let res = self.write_discriminant(variant, dest);
                proof {
                    if res is Ok {
                        crate::mem::lemma_same_outside_trans(
                            old(self).memory@,
                            m_fields,
                            self.memory@,
                            dest.ptr,
                            dsize as nat,
                        );
                        assert(adt_variant_of(*kind) == variant as int);
                        assert forall|j: int|
                            0 <= j < dsize && !agg_written_covers(
                                vf,
                                old(self).layouts@,
                                nops as int,
                                *active_field,
                                j,
                            ) && !tag_covers(*old(self), dest.layout, j) implies self.memory@[
                            dest.ptr.alloc as int
                        ][dest.ptr.offset + j] is Uninit by {
                            assert(!agg_written_covers(
                                vf,
                                ctx_mid.layouts@,
                                nops as int,
                                *active_field,
                                j,
                            ));
                            assert(m_fields[dest.ptr.alloc as int][dest.ptr.offset + j]
                                is Uninit);
                            assert(dest.ptr.alloc < m_fields.len());
                            assert(dest.ptr.offset + j < m_fields[dest.ptr.alloc as int].len());
                            assert(ctx_mid.lay(dest.layout) == old(self).lay(dest.layout));
                            assert(!tag_covers(ctx_mid, dest.layout, j));
                            assert(0 <= j < ctx_mid.lay(dest.layout).size);
                            assert(self.memory@[dest.ptr.alloc as int][dest.ptr.offset + j]
                                == m_fields[dest.ptr.alloc as int][dest.ptr.offset + j]);
                        }
                    }
                }
                match res {
                    Ok(()) => Ok(()),
                    Err(e) => Err(e),
                }
            },
        }
    }
}


/// The pointer to element `k` of an array at `base` with elements of size
/// `es`.
pub open spec fn elem_ptr(base: Pointer, es: int, k: int) -> Pointer {
    Pointer { alloc: base.alloc, offset: (base.offset + k * es) as usize }
}

/// The conditions under which repeating a constant scalar into an array
/// destination is owed success: a valid array layout whose elements the
/// constant fits, and a destination range the store holds.
pub open spec fn repeat_const_ok(pre: InterpCx, c: ConstVal, dest: MPlace) -> bool {
    &&& pre.lay_ok(dest.layout)
    &&& match pre.lay(dest.layout).shape {
        Shape::Array { elem, count } => {
            &&& pre.lay_ok(elem)
            &&& pre.lay_ok(c.layout)
            &&& pre.lay(c.layout).sized
            &&& range_ok(pre.memory@, dest.ptr, pre.lay(dest.layout).size as nat)
            &&& count * pre.lay(elem).size <= usize::MAX
            &&& count * pre.lay(elem).size <= pre.lay(dest.layout).size
            &&& (count > 0 ==> {
                &&& pre.lay(c.layout).size == pre.lay(elem).size
                &&& (c.imm matches Immediate::Scalar(sc) && scalar_wf(sc) && scalar_size(sc)
                    == pre.lay(elem).size as nat)
            })
        },
        _ => false,
    }
}

impl InterpCx {
    /// Fill an array destination by repeating one operand.  The
    /// destination's own array layout gives the count.  A zero count writes
    /// nothing, but the destination must still be a valid place in a real
    /// allocation.  A positive count evaluates the operand once, copies it
    /// into element zero, and then copies element zero's bytes into each
    /// following element slot, so all elements come out bit-identical.
    pub fn write_repeat(&mut self, operand: &Operand, dest: MPlace) -> (r: Result<(), Failure>)
        requires
            old(self).wf(),
            old(self).depth() > 0,
            old(self).lay_ok(dest.layout),
        ensures
            final(self).wf(),
            final(self).frames@ == old(self).frames@,
            final(self).layouts@ == old(self).layouts@,
            final(self).machine == old(self).machine,
            final(self).memory@.len() == old(self).memory@.len(),
            r is Ok ==> range_ok(
                old(self).memory@,
                dest.ptr,
                old(self).lay(dest.layout).size as nat,
            ),
            r is Ok ==> same_outside(
                old(self).memory@,
                final(self).memory@,
                dest.ptr,
                old(self).lay(dest.layout).size as nat,
            ),
            r is Ok ==> (old(self).lay(dest.layout).shape matches Shape::Array { elem, count }
                ==> (count == 0 ==> final(self).memory@ == old(self).memory@)),
            r is Ok ==> (old(self).lay(dest.layout).shape matches Shape::Array { elem, count }
                ==> (old(self).lay_ok(elem) && count >= 1 ==> (forall|k: int|
                0 <= k < count ==> bytes_at(
                    final(self).memory@,
                    elem_ptr(dest.ptr, old(self).lay(elem).size as int, k),
                    old(self).lay(elem).size as nat,
                ) == bytes_at(
                    final(self).memory@,
                    dest.ptr,
                    old(self).lay(elem).size as nat,
                )))),
            *operand matches Operand::Constant(c) ==> (repeat_const_ok(*old(self), c, dest)
                ==> r is Ok),
            r is Ok ==> (old(self).lay(dest.layout).shape matches Shape::Array { elem, count }
                ==> (*operand matches Operand::Constant(c) ==> (c.imm matches Immediate::Scalar(
                s) ==> (count >= 1 ==> bytes_at(
                    final(self).memory@,
                    dest.ptr,
                    old(self).lay(elem).size as nat,
                ) == scalar_enc(s))))),
    {
        let dsize = self.layouts[dest.layout].size;
        let (elem, count) = {
            match &self.layouts[dest.layout].shape {
                Shape::Array { elem, count } => (*elem, *count),
                _ => {
                    return Err(Failure::Interp(InterpError::InvalidShape));
                },
            }
        };
        if elem >= self.layouts.len() {
            return Err(Failure::Interp(InterpError::InvalidShape));
        }
        let src = match self.eval_operand(operand, None) {
            Ok(o) => o,
            Err(e) => {
                return Err(e);
            },
        };
        // The source operand's type must be sized; an unsized source is a
        // defect of the program producer.
        if !self.layouts[src.layout].sized {
            return Err(self.fatal(FatalKind::MalformedProgram));
        }
        // The destination must be a real, large-enough allocation even when
        // nothing will be written.
        if !self.memory.check_range(dest.ptr, dsize) {
            return Err(Failure::Interp(InterpError::UndefinedBehavior(UbKind::OutOfRange)));
        }
        let es = self.layouts[elem].size;
        let total = match checked_mul_usize(count, es) {
            Some(t) => t,
            None => {
                return Err(Failure::Interp(InterpError::InvalidShape));
            },
        };
        if total > dsize {
            return Err(Failure::Interp(InterpError::InvalidShape));
        }
        if count == 0 {
            return Ok(());
        }
        let alen = self.memory.allocs[dest.ptr.alloc].bytes.len();
        proof {
            assert(alen == self.memory@[dest.ptr.alloc as int].len());
            assert(dest.ptr.offset + dsize <= alen);
            assert(es <= count * es) by (nonlinear_arith)
                requires
                    1 <= count,
                    es >= 0,
            ;
        }
        // Element zero, by structural copy (this also settles alignment and
        // validity for the element slots).
        let first = MPlace { ptr: dest.ptr, layout: elem };
        let ghost m_entry = self.memory@;
        match self.copy_op(src, first) {
            Ok(()) => {},
            Err(e) => {
                return Err(e);
            },
        }
        proof {
            crate::mem::lemma_same_outside_widen(
                m_entry,
                self.memory@,
                dest.ptr,
                es as nat,
                dest.ptr,
                dsize as nat,
            );
        }
        let ghost v0 = bytes_at(self.memory@, dest.ptr, es as nat);
        proof {
            assert(self.memory@[dest.ptr.alloc as int].len() == alen);
            assert(v0.len() == es);
            match *operand {
                Operand::Constant(c) => {
                    match c.imm {
                        Immediate::Scalar(sc) => {
                            crate::mem::lemma_scalar_enc_len(sc);
                            lemma_store_effect(m_entry, dest.ptr, scalar_enc(sc));
                            assert(v0 == scalar_enc(sc));
                        },
                        _ => {},
                    }
                },
                _ => {},
            }
        }
        // Bulk path: byte-for-byte copies of element zero into each later
        // slot, without re-evaluating the operand.
        let mut k: usize = 1;
        let mut off: usize = es;
        while k < count
            invariant
                1 <= k <= count,
                off == k * es,
                count * es == total,
                total <= dsize,
                es == self.lay(elem).size,
                dsize == self.lay(dest.layout).size,
                self.lay_ok(elem),
                self.lay_ok(dest.layout),
                self.wf(),
                self.frames@ == old(self).frames@,
                self.layouts@ == old(self).layouts@,
                self.machine == old(self).machine,
                self.memory@.len() == old(self).memory@.len(),
                range_ok(old(self).memory@, dest.ptr, dsize as nat),
                dest.ptr.offset + dsize <= usize::MAX,
                self.memory@[dest.ptr.alloc as int].len() == alen,
                dest.ptr.offset + dsize <= alen,
                same_outside(old(self).memory@, self.memory@, dest.ptr, dsize as nat),
                v0 == bytes_at(self.memory@, dest.ptr, es as nat),
                v0.len() == es,
                forall|i: int|
                    0 <= i < k ==> bytes_at(
                        self.memory@,
                        elem_ptr(dest.ptr, es as int, i),
                        es as nat,
                    ) == v0,
            decreases count - k,
        {
            proof {
                assert((k + 1) * es <= count * es) by (nonlinear_arith)
                    requires
                        k + 1 <= count,
                        es >= 0,
                ;
                assert(k * es + es == (k + 1) * es) by (nonlinear_arith);
                assert(es * 1 <= k * es) by (nonlinear_arith)
                    requires
                        1 <= k,
                        es >= 0,
                ;
            }
            let dst = Pointer { alloc: dest.ptr.alloc, offset: dest.ptr.offset + off };
            let ghost m_prev = self.memory@;
            proof {
                lemma_store_effect(m_prev, dst, bytes_at(m_prev, dest.ptr, es as nat));
            }
            self.memory.copy_within(dest.ptr, dst, es);
            proof {
                crate::mem::lemma_same_outside_widen(
                    m_prev,
                    self.memory@,
                    dst,
                    es as nat,
                    dest.ptr,
                    dsize as nat,
                );
                crate::mem::lemma_same_outside_trans(
                    old(self).memory@,
                    m_prev,
                    self.memory@,
                    dest.ptr,
                    dsize as nat,
                );
                assert(bytes_at(self.memory@, dest.ptr, es as nat) =~= v0) by {
                    assert(es <= k * es) by (nonlinear_arith)
                        requires
                            1 <= k,
                            es >= 0,
                    ;
                }
                assert(bytes_at(self.memory@, elem_ptr(dest.ptr, es as int, k as int), es as nat)
                    =~= v0);
                assert forall|i: int|
                    0 <= i < k + 1 implies bytes_at(
                    self.memory@,
                    elem_ptr(dest.ptr, es as int, i),
                    es as nat,
                ) == v0 by {
                    if i < k {
                        assert((i + 1) * es <= k * es) by (nonlinear_arith)
                            requires
                                i + 1 <= k,
                                es >= 0,
                        ;
                        assert(i * es + es == (i + 1) * es) by (nonlinear_arith);
                        assert(i * es >= 0) by (nonlinear_arith)
                            requires
                                i >= 0,
                                es >= 0,
                        ;
                        assert(bytes_at(self.memory@, elem_ptr(dest.ptr, es as int, i), es as nat)
                            =~= bytes_at(m_prev, elem_ptr(dest.ptr, es as int, i), es as nat));
                    }
                }
            }
            k += 1;
            off = off + es;
        }
        proof {
            assert forall|i: int|
                0 <= i < count implies bytes_at(
                self.memory@,
                elem_ptr(dest.ptr, es as int, i),
                es as nat,
            ) == bytes_at(self.memory@, dest.ptr, es as nat) by {
                assert(elem_ptr(dest.ptr, es as int, 0) == dest.ptr);
            }
        }
        Ok(())
    }
}


/// What a source operand's bytes contribute to a destination: a constant
/// scalar lands as its encoding; a place operand's bytes are copied whole.
pub open spec fn operand_store_effect(
    pre: InterpCx,
    post_mem: Seq<Seq<MemByte>>,
    op: Operand,
    dest: MPlace,
) -> bool {
    match op {
        Operand::Copy(p) => place_store_effect(pre, post_mem, p, dest),
        Operand::Move(p) => place_store_effect(pre, post_mem, p, dest),
        Operand::Constant(c) => (c.imm matches Immediate::Scalar(s) ==> post_mem == store_at(
            pre.memory@,
            dest.ptr,
            scalar_enc(s),
        )),
    }
}

pub open spec fn place_store_effect(
    pre: InterpCx,
    post_mem: Seq<Seq<MemByte>>,
    p: Place,
    dest: MPlace,
) -> bool {
    match pre.resolve(p) {
        Some(src) => post_mem == store_at(
            pre.memory@,
            dest.ptr,
            bytes_at(pre.memory@, src.ptr, pre.lay(dest.layout).size as nat),
        ),
        None => true,
    }
}

/// What a binary operation on two constant integer operands writes: the
/// wrapped value (and, checked, the overflow flag beside it).
pub open spec fn binop_const_effect(
    pre: InterpCx,
    post_mem: Seq<Seq<MemByte>>,
    op: BinOp,
    c1: ConstVal,
    c2: ConstVal,
    dest: MPlace,
    checked: bool,
) -> bool {
    c1.imm matches Immediate::Scalar(s1) ==> (s1 matches Scalar::Int { val: l, size: sz } ==> (
    c2.imm matches Immediate::Scalar(s2) ==> (s2 matches Scalar::Int { val: r, size: sz2 } ==> ((
    sz == sz2 && (sz == 1 || sz == 2 || sz == 4 || sz == 8) && (l as nat) < pow256(sz as nat) && (
    r as nat) < pow256(sz as nat)) ==> (if checked {
        crate::ops::binop_left_homogeneous_s(op) ==> (match pre.lay(dest.layout).shape {
            Shape::Aggregate { fields } => fields@.len() == 2 ==> post_mem == store_at(
                store_at(
                    pre.memory@,
                    field_ptr(dest.ptr, fields@[0].offset as int),
                    scalar_enc(
                        Scalar::Int {
                            val: crate::ops::binop_val_spec(op, l, r, sz as nat) as u64,
                            size: sz,
                        },
                    ),
                ),
                field_ptr(dest.ptr, fields@[1].offset as int),
                scalar_enc(
                    Scalar::Int {
                        val: if crate::ops::binop_overflow_spec(op, l, r, sz as nat) {
                            1u64
                        } else {
                            0u64
                        },
                        size: 1,
                    },
                ),
            ),
            _ => true,
        })
    } else {
        post_mem == store_at(
            pre.memory@,
            dest.ptr,
            scalar_enc(
                Scalar::Int {
                    val: crate::ops::binop_val_spec(op, l, r, sz as nat) as u64,
                    size: crate::ops::binop_result_size_s(op, sz as nat) as usize,
                },
            ),
        )
    })))))
}

/// What a successful repeat writes: nothing for a zero count, else every
/// element bit-identical to element zero, whose bytes a constant scalar
/// operand fixes exactly.
pub open spec fn repeat_effect(
    pre: InterpCx,
    post_mem: Seq<Seq<MemByte>>,
    op: Operand,
    dest: MPlace,
) -> bool {
    match pre.lay(dest.layout).shape {
        Shape::Array { elem, count } => {
            &&& (count == 0 ==> post_mem == pre.memory@)
            &&& (pre.lay_ok(elem) && count >= 1 ==> (forall|k: int|
                0 <= k < count ==> bytes_at(
                    post_mem,
                    elem_ptr(dest.ptr, pre.lay(elem).size as int, k),
                    pre.lay(elem).size as nat,
                ) == bytes_at(post_mem, dest.ptr, pre.lay(elem).size as nat)))
            &&& (pre.lay_ok(elem) && count >= 1 ==> (op matches Operand::Constant(c) ==> (
            c.imm matches Immediate::Scalar(s) ==> bytes_at(
                post_mem,
                dest.ptr,
                pre.lay(elem).size as nat,
            ) == scalar_enc(s))))
        },
        _ => true,
    }
}

/// What a successful algebraic aggregate leaves uninitialized: every
/// destination byte outside the fields actually written and the tag —
/// reading an unfilled field back as a value is a validity violation, not
/// zero.
pub open spec fn aggregate_effect(
    pre: InterpCx,
    post_mem: Seq<Seq<MemByte>>,
    kind: AggregateKind,
    nops: int,
    dest: MPlace,
) -> bool {
    kind matches AggregateKind::Adt { variant, active_field } ==> (forall|j: int|
        0 <= j < pre.lay(dest.layout).size && !agg_written_covers(
            adt_variant_fields(pre, dest.layout, variant as int),
            pre.layouts@,
            nops,
            active_field,
            j,
        ) && !tag_covers(pre, dest.layout, j)
            ==> post_mem[dest.ptr.alloc as int][dest.ptr.offset + j] is Uninit)
}

/// The memory a successful rvalue evaluation leaves, stated per variant
/// where the result is a function of the pre-state: always confined to the
/// resolved destination, and with the written bytes fixed for value
/// sources the pre-state determines (places, constants, type queries,
/// fresh references, thread-locals, repeats and aggregates).
pub open spec fn rvalue_effect(
    pre: InterpCx,
    post_mem: Seq<Seq<MemByte>>,
    rv: Rvalue,
    place: Place,
) -> bool {
    match pre.resolve(place) {
        Some(dest) => {
            &&& same_outside(pre.memory@, post_mem, dest.ptr, pre.lay(dest.layout).size as nat)
            &&& match rv {
                Rvalue::Use(op) => operand_store_effect(pre, post_mem, op, dest),
                Rvalue::CopyForDeref(p) => place_store_effect(pre, post_mem, p, dest),
                Rvalue::ThreadLocalRef(id) => id < pre.machine.thread_locals@.len()
                    ==> post_mem == store_at(
                    pre.memory@,
                    dest.ptr,
                    ptr_enc(pre.machine.thread_locals@[id as int]),
                ),
                Rvalue::Len(p) => (match pre.resolve(p) {
                    Some(src) => match pre.lay(src.layout).shape {
                        Shape::Array { count, .. } => post_mem == store_at(
                            pre.memory@,
                            dest.ptr,
                            scalar_enc(Scalar::Int { val: count as u64, size: 8 }),
                        ),
                        _ => true,
                    },
                    None => true,
                }),
                Rvalue::Ref(_, p) => (match pre.resolve(p) {
                    Some(src) => post_mem == store_at(pre.memory@, dest.ptr, ptr_enc(src.ptr)),
                    None => true,
                }),
                Rvalue::AddressOf(p) => (match pre.resolve(p) {
                    Some(src) => post_mem == store_at(pre.memory@, dest.ptr, ptr_enc(src.ptr)),
                    None => true,
                }),
                Rvalue::NullaryOp(op) => (match nullary_value_spec(pre, op) {
                    Some(sc) => post_mem == store_at(pre.memory@, dest.ptr, scalar_enc(sc)),
                    None => true,
                }),
                Rvalue::Cast(ck, op, target) => (op matches Operand::Constant(c) ==> (
                c.imm matches Immediate::Scalar(s) ==> (s matches Scalar::Int { val, .. } ==> (
                pre.lay_ok(target) ==> post_mem == store_at(
                    pre.memory@,
                    dest.ptr,
                    scalar_enc(
                        Scalar::Int {
                            val: ((val as nat) % pow256(pre.lay(target).size as nat)) as u64,
                            size: pre.lay(target).size,
                        },
                    ),
                ))))),
                Rvalue::ShallowInitBox(op) => (op matches Operand::Constant(c) ==> (
                c.imm matches Immediate::Scalar(s) ==> post_mem == store_at(
                    pre.memory@,
                    dest.ptr,
                    scalar_enc(s),
                ))),
                Rvalue::BinaryOp(op, a, b) => (a matches Operand::Constant(c1) ==> (b matches
                    Operand::Constant(c2) ==> binop_const_effect(
                    pre,
                    post_mem,
                    op,
                    c1,
                    c2,
                    dest,
                    false,
                ))),
                Rvalue::CheckedBinaryOp(op, a, b) => (a matches Operand::Constant(c1) ==> (
                b matches Operand::Constant(c2) ==> binop_const_effect(
                    pre,
                    post_mem,
                    op,
                    c1,
                    c2,
                    dest,
                    true,
                ))),
                Rvalue::Repeat(op) => repeat_effect(pre, post_mem, op, dest),
                Rvalue::Aggregate(kind, ops) => aggregate_effect(
                    pre,
                    post_mem,
                    kind,
                    ops@.len() as int,
                    dest,
                ),
                Rvalue::UnaryOp(op, a) => (a matches Operand::Constant(c) ==> (c.imm matches
                    Immediate::Scalar(s1) ==> (s1 matches Scalar::Int { val: v, size: sz } ==> ((
                sz == 1 || sz == 2 || sz == 4 || sz == 8) && (v as nat) < pow256(sz as nat)
                    ==> post_mem == store_at(
                    pre.memory@,
                    dest.ptr,
                    scalar_enc(
                        Scalar::Int {
                            val: crate::ops::unop_val_spec(op, v, sz as nat) as u64,
                            size: sz,
                        },
                    ),
                ))))),
                Rvalue::Discriminant(_) => true,
            }
        },
        None => true,
    }
}

impl InterpCx {
    /// Evaluate an rvalue and write its result into the place.  The
    /// destination is resolved first, before any operand is evaluated.
    /// Forming a reference requests a two-phase retag exactly when the
    /// borrow permits two-phase use; taking a raw address requests a raw
    /// retag unless the place is already a dereference of a raw-pointer
    /// local.  A size or alignment query of an unsized type, and raw-pointer
    /// aggregate construction with an operand count other than two, never
    /// succeed (they are fatal internal errors).
    #[verifier::rlimit(80)]
    pub fn eval_rvalue_into_place(&mut self, rvalue: &Rvalue, place: &Place) -> (r: Result<
        (),
        Failure,
    >)
        requires
            old(self).wf(),
            old(self).depth() > 0,
        ensures
            final(self).wf(),
            final(self).depth() == old(self).depth(),
            final(self).frames@ == old(self).frames@,
            final(self).layouts@ == old(self).layouts@,
            final(self).memory@.len() == old(self).memory@.len(),
            final(self).machine.retag_place_log@ == old(self).machine.retag_place_log@,
            unsized_query(*old(self), *rvalue) ==> !(r is Ok),
            unsized_query(*old(self), *rvalue) ==> (old(self).resolve(*place) is Some ==> (
            r matches Err(f) && f matches Failure::Fatal(ft) && ft.kind
                == FatalKind::UnsizedTypeQuery)),
            rawptr_bad_arity(*rvalue) ==> !(r is Ok),
            rawptr_bad_arity(*rvalue) ==> (match old(self).resolve(*place) {
                Some(dest) => range_ok(
                    old(self).memory@,
                    dest.ptr,
                    old(self).lay(dest.layout).size as nat,
                ) ==> (r matches Err(f) && f matches Failure::Fatal(ft) && ft.kind
                    == FatalKind::RawPtrAggregateArity),
                None => r is Err,
            }),
            r is Ok ==> rvalue_effect(*old(self), final(self).memory@, *rvalue, *place),
            *rvalue matches Rvalue::Repeat(op2) ==> (op2 matches Operand::Constant(c) ==> (match
                old(self).resolve(*place) {
                Some(dest) => repeat_const_ok(*old(self), c, dest) ==> r is Ok,
                None => r is Err,
            })),
            r is Ok ==> final(self).machine.retag_value_log@ == (match *rvalue {
                Rvalue::Ref(bk, _) => old(self).machine.retag_value_log@.push(
                    retag_kind_for_borrow(bk),
                ),
                Rvalue::AddressOf(p) => if place_base_raw(*old(self), p) {
                    old(self).machine.retag_value_log@
                } else {
                    old(self).machine.retag_value_log@.push(RetagKind::Raw)
                },
                _ => old(self).machine.retag_value_log@,
            }),
    {
        let dest = match self.resolve_place(place) {
            Ok(mp) => mp,
            Err(e) => {
                return Err(e);
            },
        };
        match rvalue {
            Rvalue::ThreadLocalRef(id) => {
                let ptr = match self.machine.thread_local_static_pointer(*id) {
                    Ok(p) => p,
                    Err(e) => {
                        return Err(e);
                    },
                };
                self.write_immediate(Immediate::Scalar(Scalar::Ptr(ptr)), dest)
            },
            Rvalue::Use(operand) => {
                let op = match self.eval_operand(operand, Some(dest.layout)) {
                    Ok(o) => o,
                    Err(e) => {
                        return Err(e);
                    },
                };
                self.copy_op(op, dest)
            },
            Rvalue::CopyForDeref(src_place) => {
                let mp = match self.resolve_place(src_place) {
                    Ok(mp) => mp,
                    Err(e) => {
                        return Err(e);
                    },
                };
                self.copy_op(OpTy { kind: OpKind::Backed(mp), layout: dest.layout }, dest)
            },
            Rvalue::BinaryOp(op, left, right) => {
                let lhint = if crate::ops::binop_left_homogeneous(*op) {
                    Some(dest.layout)
                } else {
                    None
                };
                let lop = match self.eval_operand(left, lhint) {
                    Ok(o) => o,
                    Err(e) => {
                        return Err(e);
                    },
                };
                let limm = match self.read_immediate(lop) {
                    Ok(i) => i,
                    Err(e) => {
                        return Err(e);
                    },
                };
                let rhint = if crate::ops::binop_right_homogeneous(*op) {
                    Some(lop.layout)
                } else {
                    None
                };
                let rop = match self.eval_operand(right, rhint) {
                    Ok(o) => o,
                    Err(e) => {
                        return Err(e);
                    },
                };
                let rimm = match self.read_immediate(rop) {
                    Ok(i) => i,
                    Err(e) => {
                        return Err(e);
                    },
                };
                let (lv, lsz) = match limm {
                    Immediate::Scalar(Scalar::Int { val, size }) => (val, size),
                    _ => {
                        return Err(Failure::Interp(InterpError::Unsupported));
                    },
                };
                let (rv, rsz) = match rimm {
                    Immediate::Scalar(Scalar::Int { val, size }) => (val, size),
                    _ => {
                        return Err(Failure::Interp(InterpError::Unsupported));
                    },
                };
                if lsz != rsz || !(lsz == 1 || lsz == 2 || lsz == 4 || lsz == 8) {
                    return Err(Failure::Interp(InterpError::InvalidShape));
                }
                let (val, _overflow) = crate::ops::eval_binop(*op, lv, rv, lsz);
                let rsize = if crate::ops::binop_left_homogeneous(*op) {
                    lsz
                } else {
                    1
                };
                self.write_immediate(
                    Immediate::Scalar(Scalar::Int { val, size: rsize }),
                    dest,
                )
            },
            Rvalue::CheckedBinaryOp(op, left, right) => {
                // The result is a (value, flag) pair, so the destination
                // layout can never be reused for the left operand.
                let lop = match self.eval_operand(left, None) {
                    Ok(o) => o,
                    Err(e) => {
                        return Err(e);
                    },
                };
                let limm = match self.read_immediate(lop) {
                    Ok(i) => i,
                    Err(e) => {
                        return Err(e);
                    },
                };
                let rhint = if crate::ops::binop_right_homogeneous(*op) {
                    Some(lop.layout)
                } else {
                    None
                };
                let rop = match self.eval_operand(right, rhint) {
                    Ok(o) => o,
                    Err(e) => {
                        return Err(e);
                    },
                };
                let rimm = match self.read_immediate(rop) {
                    Ok(i) => i,
                    Err(e) => {
                        return Err(e);
                    },
                };
                let (lv, lsz) = match limm {
                    Immediate::Scalar(Scalar::Int { val, size }) => (val, size),
                    _ => {
                        return Err(Failure::Interp(InterpError::Unsupported));
                    },
                };
                let (rv, rsz) = match rimm {
                    Immediate::Scalar(Scalar::Int { val, size }) => (val, size),
                    _ => {
                        return Err(Failure::Interp(InterpError::Unsupported));
                    },
                };
                if !crate::ops::binop_left_homogeneous(*op) {
                    return Err(Failure::Interp(InterpError::InvalidShape));
                }
                if lsz != rsz || !(lsz == 1 || lsz == 2 || lsz == 4 || lsz == 8) {
                    return Err(Failure::Interp(InterpError::InvalidShape));
                }
                let (val, overflow) = crate::ops::eval_binop(*op, lv, rv, lsz);
                let flag: u64 = if overflow {
                    1
                } else {
                    0
                };
                proof {
                    reveal_with_fuel(pow256, 9);
                }
                self.write_immediate(
                    Immediate::ScalarPair(
                        Scalar::Int { val, size: lsz },
                        Scalar::Int { val: flag, size: 1 },
                    ),
                    dest,
                )
            },
            Rvalue::UnaryOp(op, operand) => {
                // The operand always has the same type as the result.
                let oop = match self.eval_operand(operand, Some(dest.layout)) {
                    Ok(o) => o,
                    Err(e) => {
                        return Err(e);
                    },
                };
                let imm = match self.read_immediate(oop) {
                    Ok(i) => i,
                    Err(e) => {
                        return Err(e);
                    },
                };
                let (v, sz) = match imm {
                    Immediate::Scalar(Scalar::Int { val, size }) => (val, size),
                    _ => {
                        return Err(Failure::Interp(InterpError::Unsupported));
                    },
                };
                // A result layout the engine cannot even represent is a
                // defect of the program producer, not of the program.
                if !(sz == 1 || sz == 2 || sz == 4 || sz == 8) {
                    return Err(self.fatal(FatalKind::MalformedProgram));
                }
                let res = crate::ops::eval_unop(*op, v, sz);
                self.write_immediate(Immediate::Scalar(Scalar::Int { val: res, size: sz }), dest)
            },
            Rvalue::Aggregate(kind, operands) => {
                let dsize = self.layouts[dest.layout].size;
                if !self.memory.check_range(dest.ptr, dsize) {
                    return Err(
                        Failure::Interp(InterpError::UndefinedBehavior(UbKind::OutOfRange)),
                    );
                }
                self.write_aggregate(kind, operands, dest)
            },
            Rvalue::Repeat(operand) => self.write_repeat(operand, dest),
            Rvalue::Len(src_place) => {
                let mp = match self.resolve_place(src_place) {
                    Ok(mp) => mp,
                    Err(e) => {
                        return Err(e);
                    },
                };
                let count = {
                    match &self.layouts[mp.layout].shape {
                        Shape::Array { count, .. } => *count,
                        _ => {
                            return Err(Failure::Interp(InterpError::InvalidShape));
                        },
                    }
                };
                proof {
                    reveal_with_fuel(pow256, 9);
                }
                self.write_immediate(
                    Immediate::Scalar(Scalar::Int { val: count as u64, size: 8 }),
                    dest,
                )
            },
            Rvalue::Ref(borrow_kind, src_place) => {
                let mp = match self.resolve_place(src_place) {
                    Ok(mp) => mp,
                    Err(e) => {
                        return Err(e);
                    },
                };
                // A fresh reference was created: it gets retagged.
                let kind = if allows_two_phase(*borrow_kind) {
                    RetagKind::TwoPhase
                } else {
                    RetagKind::Default
                };
                let val = self.machine.retag_ptr_value(
                    kind,
                    Immediate::Scalar(Scalar::Ptr(mp.ptr)),
                );
                self.write_immediate(val, dest)
            },
            Rvalue::AddressOf(src_place) => {
                // A raw address of an already raw place crosses no new
                // provenance boundary, so it is not retagged.
                let fidx = self.frames.len() - 1;
                let base_raw = if src_place.projs.len() > 0 && src_place.local
                    < self.frames[fidx].body.locals.len() {
                    let is_deref = match src_place.projs[0] {
                        Proj::Deref(_) => true,
                        _ => false,
                    };
                    if is_deref {
                        let lid0 = self.frames[fidx].body.locals[src_place.local].layout;
                        if lid0 < self.layouts.len() {
                            self.layouts[lid0].raw_base
                        } else {
                            false
                        }
                    } else {
                        false
                    }
                } else {
                    false
                };
                proof {
                    assert(base_raw == place_base_raw(*self, *src_place));
                }
                let mp = match self.resolve_place(src_place) {
                    Ok(mp) => mp,
                    Err(e) => {
                        return Err(e);
                    },
                };
                let val = if base_raw {
                    Immediate::Scalar(Scalar::Ptr(mp.ptr))
                } else {
                    self.machine.retag_ptr_value(
                        RetagKind::Raw,
                        Immediate::Scalar(Scalar::Ptr(mp.ptr)),
                    )
                };
                self.write_immediate(val, dest)
            },
            Rvalue::NullaryOp(op) => {
                let sc = match self.nullary_op_value(op) {
                    Ok(s) => s,
                    Err(e) => {
                        return Err(e);
                    },
                };
                self.write_immediate(Immediate::Scalar(sc), dest)
            },
            Rvalue::ShallowInitBox(operand) => {
                let op = match self.eval_operand(operand, None) {
                    Ok(o) => o,
                    Err(e) => {
                        return Err(e);
                    },
                };
                let imm = match self.read_immediate(op) {
                    Ok(i) => i,
                    Err(e) => {
                        return Err(e);
                    },
                };
                // The operand (a raw pointer) is written through unchanged.
                self.write_immediate(imm, dest)
            },
            Rvalue::Cast(cast_kind, operand, target) => {
                match cast_kind {
                    CastKind::IntToInt => {},
                }
                let op = match self.eval_operand(operand, None) {
                    Ok(o) => o,
                    Err(e) => {
                        return Err(e);
                    },
                };
                let imm = match self.read_immediate(op) {
                    Ok(i) => i,
                    Err(e) => {
                        return Err(e);
                    },
                };
                let v = match imm {
                    Immediate::Scalar(Scalar::Int { val, .. }) => val,
                    _ => {
                        return Err(Failure::Interp(InterpError::Unsupported));
                    },
                };
                if *target >= self.layouts.len() {
                    return Err(Failure::Interp(InterpError::InvalidShape));
                }
                let tsize = self.layouts[*target].size;
                if !(tsize == 1 || tsize == 2 || tsize == 4 || tsize == 8) {
                    return Err(Failure::Interp(InterpError::InvalidShape));
                }
                let m = crate::ops::modulus128(tsize);
                let res = ((v as u128) % m) as u64;
                self.write_immediate(Immediate::Scalar(Scalar::Int { val: res, size: tsize }),
                    dest)
            },
            Rvalue::Discriminant(src_place) => {
                let mp = match self.resolve_place(src_place) {
                    Ok(mp) => mp,
                    Err(e) => {
                        return Err(e);
                    },
                };
                let (tag_off, tag_sz, nvals) = {
                    match &self.layouts[mp.layout].shape {
                        Shape::Enum { tag_offset, tag_size, tag_values, .. } => (
                            *tag_offset,
                            *tag_size,
                            tag_values.len(),
                        ),
                        _ => {
                            return Err(Failure::Interp(InterpError::InvalidShape));
                        },
                    }
                };
                if tag_sz > 8 {
                    return Err(Failure::Interp(InterpError::InvalidShape));
                }
                if tag_off > usize::MAX - mp.ptr.offset {
                    return Err(Failure::Interp(InterpError::InvalidShape));
                }
                let tptr = Pointer { alloc: mp.ptr.alloc, offset: mp.ptr.offset + tag_off };
                let s = match self.read_scalar_checked(tptr, tag_sz) {
                    Ok(s) => s,
                    Err(e) => {
                        return Err(e);
                    },
                };
                let v = match s {
                    Scalar::Int { val, .. } => val,
                    Scalar::Ptr(_) => {
                        return Err(
                            Failure::Interp(InterpError::UndefinedBehavior(UbKind::NotAPointer)),
                        );
                    },
                };
                // The tag must name a variant of the type.
                let mut found = false;
                let mut i: usize = 0;
                while i < nvals && !found
                    invariant
                        i <= nvals,
                        self.wf(),
                        self.lay_ok(mp.layout),
                        (*rvalue) is Discriminant,
                    decreases nvals - i + (if found { 0int } else { 1int }),
                {
                    let tv = {
                        match &self.layouts[mp.layout].shape {
                            Shape::Enum { tag_values, .. } => {
                                if i < tag_values.len() {
                                    tag_values[i]
                                } else {
                                    return Err(Failure::Interp(InterpError::InvalidShape));
                                }
                            },
                            _ => {
                                return Err(Failure::Interp(InterpError::InvalidShape));
                            },
                        }
                    };
                    if tv == v {
                        found = true;
                    } else {
                        i += 1;
                    }
                }
                if !found {
                    return Err(
                        Failure::Interp(
                            InterpError::UndefinedBehavior(UbKind::InvalidDiscriminant),
                        ),
                    );
                }
                let dsize = self.layouts[dest.layout].size;
                if dsize < tag_sz || dsize > 8 {
                    return Err(Failure::Interp(InterpError::InvalidShape));
                }
                proof {
                    lemma_pow256_mono(tag_sz as nat, dsize as nat);
                }
                self.write_immediate(Immediate::Scalar(Scalar::Int { val: v, size: dsize }),
                    dest)
            },
        }
    }
}


impl InterpCx {
    /// Run one statement at the current frame.  This does not move the
    /// statement counter; the caller does that.  Executing a statement
    /// never changes the frame stack depth, nor the current frame's
    /// location or body.
    pub fn statement(&mut self, stmt: &Statement) -> (r: Result<(), Failure>)
        requires
            old(self).wf(),
            old(self).depth() > 0,
        ensures
            final(self).wf(),
            final(self).depth() == old(self).depth(),
            final(self).layouts@ == old(self).layouts@,
            final(self).cur().loc == old(self).cur().loc,
            final(self).cur().body == old(self).cur().body,
            forall|i: int|
                0 <= i < old(self).depth() - 1 ==> final(self).frames@[i] == old(self).frames@[i],
            stmt.kind is FakeRead || stmt.kind is AscribeUserType || stmt.kind is Coverage
                || stmt.kind is Nop ==> r == Ok::<(), Failure>(()) && *final(self) == *old(self),
            stmt.kind matches StatementKind::Assign(p, rv) ==> (r is Ok ==> rvalue_effect(
                *old(self),
                final(self).memory@,
                rv,
                p,
            )),
            stmt.kind is ConstEvalCounter ==> ((r is Ok) == (old(self).machine.const_eval_steps
                < old(self).machine.const_eval_limit) && (r is Ok ==> (final(self).memory@
                == old(self).memory@ && final(self).machine == (Machine {
                const_eval_steps: (old(self).machine.const_eval_steps + 1) as u64,
                ..old(self).machine
            }))) && (r is Err ==> r == Err::<(), Failure>(
                Failure::Interp(InterpError::ResourceExhausted),
            ) && *final(self) == *old(self))),
            stmt.kind matches StatementKind::Retag(k, p) ==> ((r is Ok) == (old(self).resolve(p)
                is Some) && final(self).memory@ == old(self).memory@ && (r is Ok
                ==> final(self).machine.retag_place_log@
                    == old(self).machine.retag_place_log@.push(k))),
            stmt.kind is Intrinsic ==> (r is Ok && final(self).memory@ == old(self).memory@
                && final(self).machine.intrinsic_count == crate::machine::bump(
                old(self).machine.intrinsic_count,
            )),
            stmt.kind matches StatementKind::Deinit(p) ==> (match old(self).resolve(p) {
                Some(mp) => ((r is Ok) == range_ok(
                    old(self).memory@,
                    mp.ptr,
                    old(self).lay(mp.layout).size as nat,
                )) && (r is Ok ==> final(self).memory@ == store_at(
                    old(self).memory@,
                    mp.ptr,
                    uninit_seq(old(self).lay(mp.layout).size as nat),
                )),
                None => r is Err,
            }),
            stmt.kind matches StatementKind::SetDiscriminant(p, v) ==> (match old(self).resolve(
                p,
            ) {
                Some(mp) => (r is Ok ==> (old(self).lay(mp.layout).shape matches Shape::Enum {
                    tag_offset,
                    tag_size,
                    tag_values,
                    ..
                } ==> v < tag_values@.len() && final(self).memory@ == store_at(
                    old(self).memory@,
                    field_ptr(mp.ptr, tag_offset as int),
                    scalar_enc(Scalar::Int { val: tag_values@[v as int], size: tag_size }),
                ))),
                None => r is Err,
            }),
            stmt.kind matches StatementKind::StorageLive(l) ==> ((r is Ok) == (l < old(
                self,
            ).cur().locals@.len() && old(self).cur().body.locals@[l as int].layout < old(
                self,
            ).layouts@.len())),
            stmt.kind matches StatementKind::StorageDead(l) ==> ((r is Ok) == (l < old(
                self,
            ).cur().locals@.len())),
            stmt.kind matches StatementKind::StorageLive(l) ==> (r is Ok ==> (l
                < old(self).cur().locals@.len() && final(self).cur().locals@
                == old(self).cur().locals@.update(
                l as int,
                Some(old(self).memory@.len() as usize),
            ) && final(self).memory@.len() == old(self).memory@.len() + 1 && (forall|a: int|
                0 <= a < old(self).memory@.len() ==> final(self).memory@[a]
                    == old(self).memory@[a]))),
            stmt.kind matches StatementKind::StorageDead(l) ==> (r is Ok ==> (l
                < old(self).cur().locals@.len() && final(self).cur().locals@
                == old(self).cur().locals@.update(
                l as int,
                None::<usize>,
            ) && final(self).memory@ == old(self).memory@)),
    {
        match &stmt.kind {
            StatementKind::Assign(place, rvalue) => self.eval_rvalue_into_place(rvalue, place),
            StatementKind::SetDiscriminant(place, variant) => {
                let mp = match self.resolve_place(place) {
                    Ok(mp) => mp,
                    Err(e) => {
                        return Err(e);
                    },
                };
                self.write_discriminant(*variant, mp)
            },
            StatementKind::Deinit(place) => {
                let mp = match self.resolve_place(place) {
                    Ok(mp) => mp,
                    Err(e) => {
                        return Err(e);
                    },
                };
                let size = self.layouts[mp.layout].size;
                if !self.memory.check_range(mp.ptr, size) {
                    return Err(
                        Failure::Interp(InterpError::UndefinedBehavior(UbKind::OutOfRange)),
                    );
                }
                self.memory.deinit_range(mp.ptr, size);
                Ok(())
            },
            StatementKind::StorageLive(l) => {
                let local = *l;
                let fidx = self.frames.len() - 1;
                proof {
                    assert(frame_wf(self.frames@[fidx as int]));
                }
                if local >= self.frames[fidx].locals.len() {
                    return Err(self.fatal(FatalKind::MalformedProgram));
                }
                let lid = self.frames[fidx].body.locals[local].layout;
                if lid >= self.layouts.len() {
                    return Err(self.fatal(FatalKind::MalformedProgram));
                }
                let size = self.layouts[lid].size;
                let a = self.memory.allocate(size);
                let f = vec_index_mut(&mut self.frames, fidx);
                let slot = vec_index_mut(&mut f.locals, local);
                *slot = Some(a);
                proof {
                    assert forall|i: int| 0 <= i < self.frames@.len() implies frame_wf(
                        self.frames@[i],
                    ) by {
                        if i != fidx {
                            assert(self.frames@[i] == old(self).frames@[i]);
                            assert(frame_wf(old(self).frames@[i]));
                        }
                    }
                }
                Ok(())
            },
            StatementKind::StorageDead(l) => {
                let local = *l;
                let fidx = self.frames.len() - 1;
                if local >= self.frames[fidx].locals.len() {
                    return Err(self.fatal(FatalKind::MalformedProgram));
                }
                let f = vec_index_mut(&mut self.frames, fidx);
                let slot = vec_index_mut(&mut f.locals, local);
                *slot = None;
                proof {
                    assert forall|i: int| 0 <= i < self.frames@.len() implies frame_wf(
                        self.frames@[i],
                    ) by {
                        if i != fidx {
                            assert(self.frames@[i] == old(self).frames@[i]);
                            assert(frame_wf(old(self).frames@[i]));
                        } else {
                            assert(frame_wf(old(self).frames@[i]));
                        }
                    }
                }
                Ok(())
            },
            StatementKind::FakeRead(_) => Ok(()),
            StatementKind::Retag(kind, place) => {
                let mp = match self.resolve_place(place) {
                    Ok(mp) => mp,
                    Err(e) => {
                        return Err(e);
                    },
                };
                let _ = mp;
                self.machine.retag_place_contents(*kind);
                Ok(())
            },
            StatementKind::Intrinsic(id) => self.machine.emulate_nondiverging_intrinsic(*id),
            StatementKind::PlaceMention(place) => {
                match self.resolve_place(place) {
                    Ok(_) => Ok(()),
                    Err(e) => Err(e),
                }
            },
            StatementKind::AscribeUserType => Ok(()),
            StatementKind::Coverage => Ok(()),
            StatementKind::Nop => Ok(()),
            StatementKind::ConstEvalCounter => self.machine.increment_const_eval_counter(),
        }
    }

    /// Evaluate a terminator and adjust the frame stack and statement
    /// position: the branch and return logic itself, with the post-step
    /// location bookkeeping.
    fn terminator(&mut self, term: Terminator) -> (r: Result<(), Failure>)
        requires
            old(self).wf(),
            old(self).depth() > 0,
        ensures
            final(self).wf(),
            final(self).layouts@ == old(self).layouts@,
            final(self).machine.before_terminator_count == old(
                self,
            ).machine.before_terminator_count,
            final(self).memory@ == old(self).memory@,
            term matches Terminator::Goto { target } ==> (r is Ok ==> final(self).depth() == old(
                self,
            ).depth() && final(self).cur().loc == (Location::Executing { block: target, stmt: 0 })
                && target < final(self).cur().body.blocks@.len()
                && final(self).machine.last_block == Some(target)),
            term matches Terminator::Goto { target } ==> ((r is Ok) == (target
                < old(self).cur().body.blocks@.len())),
            term is Return ==> r is Ok && final(self).depth() == old(self).depth() - 1,
            term is Return ==> (final(self).depth() > 0 ==> (final(self).cur().loc matches
                Location::Executing { block, .. } ==> final(self).machine.last_block
                    == Some(block))),
            term is Unreachable ==> r == Err::<(), Failure>(
                Failure::Interp(InterpError::UndefinedBehavior(UbKind::UnreachableCode)),
            ),
    {
        match term {
            Terminator::Goto { target } => {
                let fidx = self.frames.len() - 1;
                if target >= self.frames[fidx].body.blocks.len() {
                    return Err(self.fatal(FatalKind::MalformedProgram));
                }
                let f = vec_index_mut(&mut self.frames, fidx);
                f.loc = Location::Executing { block: target, stmt: 0 };
                proof {
                    assert forall|i: int| 0 <= i < self.frames@.len() implies frame_wf(
                        self.frames@[i],
                    ) by {
                        if i != fidx {
                            assert(self.frames@[i] == old(self).frames@[i]);
                        }
                        assert(frame_wf(old(self).frames@[i]));
                    }
                }
                self.machine.note_location(target);
                Ok(())
            },
            Terminator::Return => {
                self.pop_frame(false);
                if self.frames.len() > 0 {
                    let loc = self.frames[self.frames.len() - 1].loc;
                    match loc {
                        Location::Executing { block, .. } => {
                            self.machine.note_location(block);
                        },
                        Location::Unwinding => {},
                    }
                }
                Ok(())
            },
            Terminator::Unreachable => {
                Err(Failure::Interp(InterpError::UndefinedBehavior(UbKind::UnreachableCode)))
            },
        }
    }

    /// Perform exactly one unit of work and say whether more remains.
    ///
    /// With an empty stack there is nothing more to do.  An unwinding
    /// frame with no cleanup pops at once, leaving its caller unwinding in
    /// turn.  A statement is executed and the statement index then advances
    /// by exactly one, with the frame stack depth unchanged; a failing
    /// statement leaves the location where it was.  With the statements of
    /// the block exhausted, the pre-terminator hook runs and the block's
    /// terminator is evaluated.
    pub fn step(&mut self) -> (r: Result<bool, Failure>)
        requires
            old(self).wf(),
        ensures
            final(self).wf(),
            final(self).layouts@ == old(self).layouts@,
            old(self).depth() == 0 ==> r == Ok::<bool, Failure>(false) && *final(self)
                == *old(self),
            old(self).depth() > 0 ==> (r is Ok ==> r == Ok::<bool, Failure>(true)),
            old(self).depth() > 0 && old(self).cur().loc is Unwinding ==> (r == Ok::<
                bool,
                Failure,
            >(true) && final(self).depth() == old(self).depth() - 1 && (final(self).depth() > 0
                ==> final(self).cur().loc is Unwinding) && final(self).memory@
                == old(self).memory@),
            old(self).depth() > 0 ==> (old(self).cur().loc matches Location::Executing {
                block,
                stmt,
            } ==> (block < old(self).cur().body.blocks@.len() && stmt
                < old(self).cur().body.blocks@[block as int].statements@.len() ==> {
                &&& final(self).depth() == old(self).depth()
                &&& (r is Ok ==> r == Ok::<bool, Failure>(true) && final(self).cur().loc == (
                Location::Executing { block, stmt: (stmt + 1) as usize }))
                &&& (r is Err ==> final(self).cur().loc == old(self).cur().loc)
                &&& final(self).cur().body == old(self).cur().body
                &&& (old(self).cur().body.blocks@[block as int].statements@[stmt as int].kind
                    matches StatementKind::Assign(p, rv) ==> (r is Ok ==> rvalue_effect(
                    *old(self),
                    final(self).memory@,
                    rv,
                    p,
                )))
            })),
            old(self).depth() > 0 ==> (old(self).cur().loc matches Location::Executing {
                block,
                stmt,
            } ==> (block < old(self).cur().body.blocks@.len() && stmt
                >= old(self).cur().body.blocks@[block as int].statements@.len()
                ==> final(self).machine.before_terminator_count == crate::machine::bump(
                old(self).machine.before_terminator_count,
            ) && (old(self).cur().body.blocks@[block as int].terminator is Return ==> (r == Ok::<
                bool,
                Failure,
            >(true) && final(self).depth() == old(self).depth() - 1))
                && (old(self).cur().body.blocks@[block as int].terminator matches
                Terminator::Goto { target }
                ==> ((r is Ok) == (target < old(self).cur().body.blocks@.len()))))),
    {
        if self.frames.len() == 0 {
            return Ok(false);
        }
        let fidx = self.frames.len() - 1;
        let loc = self.frames[fidx].loc;
        match loc {
            Location::Unwinding => {
                // This frame has no cleanup code for the in-flight
                // unwinding: pop it and go on unwinding in the caller.
                self.pop_frame(true);
                Ok(true)
            },
            Location::Executing { block, stmt } => {
                if block >= self.frames[fidx].body.blocks.len() {
                    return Err(self.fatal(FatalKind::MalformedProgram));
                }
                let nstmts = self.frames[fidx].body.blocks[block].statements.len();
                if stmt < nstmts {
                    let body = share_body(&self.frames[fidx].body);
                    match self.statement(&body.blocks[block].statements[stmt]) {
                        Ok(()) => {},
                        Err(e) => {
                            return Err(e);
                        },
                    }
                    // The frame stack depth is unchanged by the statement
                    // (this is proved, not checked at run time).  Advance
                    // the program counter.
                    let f = vec_index_mut(&mut self.frames, fidx);
                    f.loc = Location::Executing { block, stmt: stmt + 1 };
                    proof {
                        assert forall|i: int| 0 <= i < self.frames@.len() implies frame_wf(
                            self.frames@[i],
                        ) by {
                            if i != fidx {
                                assert(self.frames@[i] == old(self).frames@[i]);
                            }
                        }
                    }
                    Ok(true)
                } else {
                    self.machine.before_terminator();
                    let term = self.frames[fidx].body.blocks[block].terminator;
                    match self.terminator(term) {
                        Ok(()) => Ok(true),
                        Err(e) => Err(e),
                    }
                }
            },
        }
    }
}

} // verus!
