//! Layouts, as supplied by the host's layout service.  The engine never
//! computes a layout itself: it is handed a table of `Layout` records, and
//! every type in the program is a `LayoutId` index into that table.

use vstd::prelude::*;

verus! {

/// A key into the layout table.
pub type LayoutId = usize;

/// One field of an aggregate: its byte offset and the layout of its type.
#[derive(Clone, Copy, PartialEq, Eq, Structural, Debug)]
pub struct FieldSlot {
    pub offset: usize,
    pub layout: LayoutId,
}

/// The structure a layout gives to its bytes.
#[derive(Debug)]
pub enum Shape {
    /// A single scalar (integer, boolean or pointer) of the layout's size.
    Scalar,
    /// A fixed-length array of `count` elements of layout `elem`.
    Array { elem: LayoutId, count: usize },
    /// A struct or tuple: one variant, fields at fixed offsets.
    Aggregate { fields: Vec<FieldSlot> },
    /// A sum type: one layout per variant (all of the full size), and a tag
    /// written at `tag_offset`; variant `v` is encoded as `tag_values[v]`.
    Enum {
        variants: Vec<LayoutId>,
        tag_offset: usize,
        tag_size: usize,
        tag_values: Vec<u64>,
    },
}

/// Size, alignment and structure of one type, as the layout service
/// computed them.
#[derive(Debug)]
pub struct Layout {
    pub size: usize,
    pub align: usize,
    /// Whether the type's size is known statically.
    pub sized: bool,
    /// Whether the type is a raw-pointer type (a dereference of it is
    /// already raw).
    pub raw_base: bool,
    pub shape: Shape,
}

impl Layout {
    /// A zero-sized type: statically sized, and of size zero.
    pub open spec fn is_zst(&self) -> bool {
        self.size == 0 && self.sized
    }
}

/// The layout of the (value, overflow-flag) pair that a checked binary
/// operation produces for a `value`-layouted left operand: the value field
/// at offset zero, a one-byte flag right after it.  The result never equals
/// the operand layout itself — it is strictly larger.
pub fn checked_pair_layout(value: &Layout, value_id: LayoutId, flag_id: LayoutId) -> (r: Layout)
    requires
        value.size < usize::MAX,
    ensures
        r.size == value.size + 1,
        r.size != value.size,
        r != *value,
        r.sized,
        !r.raw_base,
        (r.shape matches Shape::Aggregate { fields } && fields@.len() == 2 && fields@[0]
            == (FieldSlot { offset: 0, layout: value_id }) && fields@[1] == (FieldSlot {
            offset: value.size,
            layout: flag_id,
        })),
{
    let mut fields: Vec<FieldSlot> = Vec::new();
    fields.push(FieldSlot { offset: 0, layout: value_id });
    fields.push(FieldSlot { offset: value.size, layout: flag_id });
    Layout {
        size: value.size + 1,
        align: value.align,
        sized: true,
        raw_base: false,
        shape: Shape::Aggregate { fields },
    }
}

} // verus!
