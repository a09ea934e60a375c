//! What the generator knows of a Rust type's layout and of a function's calling
//! convention, as plain data.
use vstd::prelude::*;

verus! {

/// What a scalar holds.
#[derive(Clone, Copy, PartialEq, Eq, Structural, Debug)]
pub enum Primitive {
    Int { bits: u64, signed: bool },
    Float { bits: u64 },
    Pointer,
}

/// A scalar of a layout.
#[derive(Clone, Copy, PartialEq, Eq, Structural, Debug)]
pub struct Scalar {
    pub primitive: Primitive,
    /// Whether the scalar is a truth value: an 8-bit integer that is 0 or 1.
    pub is_bool: bool,
    /// The size in bytes.
    pub size: u64,
    /// The alignment in bytes.
    pub align: u64,
}

/// How a type is represented by the backend.
#[derive(Clone, Copy, PartialEq, Eq, Structural, Debug)]
pub enum BackendRepr {
    Scalar(Scalar),
    ScalarPair(Scalar, Scalar),
    SimdVector { element: Scalar, count: u64 },
    Memory,
}

/// Whether a type is one of the two integer types as wide as a pointer.
#[derive(Clone, Copy, PartialEq, Eq, Structural, Debug)]
pub enum TyTag {
    Usize,
    Isize,
    Other,
}

/// The layout of a type.
#[derive(Debug)]
pub struct Layout {
    pub repr: BackendRepr,
    pub ty: TyTag,
    pub is_zst: bool,
    /// The size in bytes.
    pub size: u64,
    /// The alignment in bytes.
    pub align: u64,
    /// Whether the type has a single variant, so that its fields can be asked for.
    pub single_variant: bool,
    /// The types of the fields of the only variant.
    pub fields: Vec<TyTag>,
}

/// The registers in which a value is passed that is cast for the call.
#[derive(Debug)]
pub struct CastTarget {
    /// The sizes in bytes of the leading registers.
    pub prefix: Vec<u64>,
    /// The size in bytes of one of the registers that follow.
    pub rest_unit: u64,
    /// The size in bytes of what is passed in those.
    pub rest_total: u64,
    /// The size in bytes, rounded up to whole registers.
    pub size: u64,
    /// The alignment in bytes.
    pub align: u64,
    /// The size in bytes before rounding.
    pub unaligned_size: u64,
}

impl CastTarget {
    /// Sizes are those of objects that can exist, and a register has a size.
    pub open spec fn wf(&self) -> bool {
        &&& self.size < 0x2000_0000_0000_0000
        &&& self.rest_unit < 0x2000_0000_0000_0000
        &&& self.rest_total > 0 ==> self.rest_unit > 0
        &&& forall|i: int|
            0 <= i < self.prefix@.len() ==> #[trigger] self.prefix@[i] < 0x2000_0000_0000_0000
    }
}

/// How an argument or a return value is passed.
#[derive(Debug)]
pub enum PassMode {
    /// Not passed at all.
    Ignore,
    Direct,
    /// As the two scalars of a pair.
    Pair,
    Cast(CastTarget),
    /// By a pointer, with metadata where the type is unsized.
    Indirect { on_stack: bool, has_meta: bool, pointee_align: Option<u64> },
}

/// One argument, or the return value, of a function.
#[derive(Debug)]
pub struct ArgAbi {
    pub layout: Layout,
    pub mode: PassMode,
}

impl ArgAbi {
    pub open spec fn wf(&self) -> bool {
        self.mode matches PassMode::Cast(cast) ==> cast.wf()
    }
}

/// The calling convention of a function.
#[derive(Debug)]
pub struct FnAbi {
    pub args: Vec<ArgAbi>,
    pub ret: ArgAbi,
    pub c_variadic: bool,
}

impl FnAbi {
    pub open spec fn wf(&self) -> bool {
        &&& self.ret.wf()
        &&& forall|i: int| 0 <= i < self.args@.len() ==> (#[trigger] self.args@[i]).wf()
    }
}

} // verus!
