use vstd::prelude::*;

verus! {

/// Rounding mode `softfloat_round_min`.
pub const ROUND_MIN: i32 = 2;

/// Rounding mode `softfloat_round_max`.
pub const ROUND_MAX: i32 = 3;

/// Rounding mode `softfloat_round_minMag`.
pub const ROUND_MIN_MAG: i32 = 1;

/// Number of softfloat functions imported for each float width.
pub const OPS_PER_WIDTH: u32 = 20;

/// Renumbers functions when the softfloat imports are inserted: indices from `start` on move up
/// by `off`.
pub struct MyEncoder {
    pub(crate) start: u32,
    pub(crate) off: u32,
}

impl MyEncoder {
    /// The first function index that is moved.
    pub closed spec fn first_moved(&self) -> u32 {
        self.start
    }

    /// How far the moved functions go up.
    pub closed spec fn shift(&self) -> u32 {
        self.off
    }

    /// An encoder that renumbers nothing.
    pub fn new() -> (r: MyEncoder)
        ensures
            r.first_moved() == 0,
            r.shift() == 0,
    {
        MyEncoder { start: 0, off: 0 }
    }

    /// The new index of function `func`.
    pub open spec fn spec_function_index(&self, func: u32) -> int {
        if func >= self.first_moved() {
            func + self.shift()
        } else {
            func as int
        }
    }

    /// The new index of function `func`.
    pub fn function_index(&mut self, func: u32) -> (r: u32)
        requires
            old(self).spec_function_index(func) <= u32::MAX,
        ensures
            r == old(self).spec_function_index(func),
            *final(self) == *old(self),
    {
        if func >= self.start {
            func + self.off
        } else {
            func
        }
    }

    /// Whether the new index of function `func` fits in a `u32`, as [`MyEncoder::function_index`]
    /// asks.
    pub fn moved_index_fits(&self, func: u32) -> (r: bool)
        ensures
            r == (self.spec_function_index(func) <= u32::MAX),
    {
        func < self.start || func as u64 + self.off as u64 <= u32::MAX as u64
    }

    /// Starts renumbering at `start` (the number of the module's own imports) and moves the
    /// functions from there on up by `off` (the number of inserted imports).
    pub fn set_layout(&mut self, start: u32, off: u32)
        ensures
            final(self).first_moved() == start,
            final(self).shift() == off,
    {
        self.start = start;
        self.off = off;
    }
}

/// Renumbering keeps the functions before the first moved one in place, moves each of the others
/// up by exactly the number of inserted imports, past the inserted range, and never maps two
/// functions to one index.
pub proof fn lemma_function_index_layout(e: MyEncoder, f: u32, g: u32)
    ensures
        f < e.first_moved() ==> e.spec_function_index(f) == f,
        f >= e.first_moved() ==> e.spec_function_index(f) == f + e.shift(),
        f >= e.first_moved() ==> e.spec_function_index(f) >= e.first_moved() + e.shift(),
        f != g ==> e.spec_function_index(f) != e.spec_function_index(g),
{
}

/// A wasm value type.
#[derive(Clone, Copy, PartialEq, Eq, Debug, Structural)]
pub enum ValKind {
    I32,
    I64,
    F32,
    F64,
}

/// The indices of the function types that the softfloat imports of one width use.
#[derive(Clone, Copy, PartialEq, Eq, Debug, Structural)]
pub struct FTypes {
    pub bopf: u32,
    pub uopf: u32,
    pub boolop: u32,
    pub from_i32: u32,
    pub from_i64: u32,
    pub to_i32: u32,
    pub to_i64: u32,
    pub round: u32,
}

/// The indices of the imported softfloat functions of one width.
#[derive(Clone, Copy, PartialEq, Eq, Debug, Structural)]
pub struct FOps {
    pub add: u32,
    pub mul: u32,
    pub sub: u32,
    pub div: u32,
    pub lt: u32,
    pub le: u32,
    pub eq: u32,
    pub ge: u32,
    pub gt: u32,
    pub from_u32: u32,
    pub from_i32: u32,
    pub from_u64: u32,
    pub from_i64: u32,
    pub to_u32: u32,
    pub to_i32: u32,
    pub to_u64: u32,
    pub to_i64: u32,
    pub flt_conv_to: u32,
    pub round: u32,
    pub sqrt: u32,
}

/// The type indices of one width, when its eight types are appended from index `base` on.
pub open spec fn spec_ftypes(base: int) -> FTypes {
    FTypes {
        bopf: base as u32,
        uopf: (base + 1) as u32,
        boolop: (base + 2) as u32,
        from_i32: (base + 3) as u32,
        from_i64: (base + 4) as u32,
        to_i32: (base + 5) as u32,
        to_i64: (base + 6) as u32,
        round: (base + 7) as u32,
    }
}

/// The function types appended to the type section, in order: eight for `f32`, eight for
/// `f64`, then the two conversions between the widths.
pub open spec fn spec_float_signature(i: int) -> (Seq<ValKind>, Seq<ValKind>) {
    let f = if i < 8 {
        ValKind::F32
    } else {
        ValKind::F64
    };
    let k = i % 8;
    if i == 16 {
        (seq![ValKind::F32], seq![ValKind::F64])
    } else if i == 17 {
        (seq![ValKind::F64], seq![ValKind::F32])
    } else if k == 0 {
        (seq![f, f], seq![f])
    } else if k == 1 {
        (seq![f], seq![f])
    } else if k == 2 {
        (seq![f, f], seq![ValKind::I32])
    } else if k == 3 {
        (seq![ValKind::I32], seq![f])
    } else if k == 4 {
        (seq![ValKind::I64], seq![f])
    } else if k == 5 {
        (seq![f, ValKind::I32, ValKind::I32], seq![ValKind::I32])
    } else if k == 6 {
        (seq![f, ValKind::I32, ValKind::I32], seq![ValKind::I64])
    } else {
        (seq![f, ValKind::I32, ValKind::I32], seq![f])
    }
}

/// The softfloat type indices when the new types are appended after `base` existing ones:
/// the `f32` types, the `f64` types, `f32 -> f64` and `f64 -> f32`.
pub fn float_types(base: u32) -> (r: (FTypes, FTypes, u32, u32))
    requires
        base + 18 <= u32::MAX,
    ensures
        r.0 == spec_ftypes(base as int),
        r.1 == spec_ftypes(base + 8),
        r.2 == base + 16,
        r.3 == base + 17,
{
    let f32_types = FTypes {
        bopf: base,
        uopf: base + 1,
        boolop: base + 2,
        from_i32: base + 3,
        from_i64: base + 4,
        to_i32: base + 5,
        to_i64: base + 6,
        round: base + 7,
    };
    let f64_types = FTypes {
        bopf: base + 8,
        uopf: base + 9,
        boolop: base + 10,
        from_i32: base + 11,
        from_i64: base + 12,
        to_i32: base + 13,
        to_i64: base + 14,
        round: base + 15,
    };
    (f32_types, f64_types, base + 16, base + 17)
}

/// The function types to append to the type section, in the order their indices are given.
pub fn float_signatures() -> (r: Vec<(Vec<ValKind>, Vec<ValKind>)>)
    ensures
        r@.len() == 18,
        forall|i: int| 0 <= i < 18 ==> (#[trigger] r@[i].0@, r@[i].1@) == spec_float_signature(i),
{
    let mut r: Vec<(Vec<ValKind>, Vec<ValKind>)> = Vec::new();
    let mut i: u32 = 0;
    while i < 18
        invariant
            0 <= i <= 18,
            r@.len() == i,
            forall|j: int| 0 <= j < i ==> (#[trigger] r@[j].0@, r@[j].1@) == spec_float_signature(j),
        decreases 18 - i,
    {
        let f = if i < 8 {
            ValKind::F32
        } else {
            ValKind::F64
        };
        let k = i % 8;
        let mut p: Vec<ValKind> = Vec::new();
        let mut q: Vec<ValKind> = Vec::new();
        if i == 16 {
            p.push(ValKind::F32);
            q.push(ValKind::F64);
        } else if i == 17 {
            p.push(ValKind::F64);
            q.push(ValKind::F32);
        } else if k == 0 {
            p.push(f);
            p.push(f);
            q.push(f);
        } else if k == 1 {
            p.push(f);
            q.push(f);
        } else if k == 2 {
            p.push(f);
            p.push(f);
            q.push(ValKind::I32);
        } else if k == 3 {
            p.push(ValKind::I32);
            q.push(f);
        } else if k == 4 {
            p.push(ValKind::I64);
            q.push(f);
        } else if k == 5 {
            p.push(f);
            p.push(ValKind::I32);
            p.push(ValKind::I32);
            q.push(ValKind::I32);
        } else if k == 6 {
            p.push(f);
            p.push(ValKind::I32);
            p.push(ValKind::I32);
            q.push(ValKind::I64);
        } else {
            p.push(f);
            p.push(ValKind::I32);
            p.push(ValKind::I32);
            q.push(f);
        }
        assert((p@, q@) =~~= spec_float_signature(i as int));
        r.push((p, q));
        i = i + 1;
    }
    r
}


/// The module name under which the softfloat functions are imported.
pub open spec fn spec_import_module() -> Seq<char> {
    "softfloat"@
}

/// The name of the `k`-th softfloat import of one width (`f64` when `wide`).
pub open spec fn spec_import_name(wide: bool, k: int) -> Seq<char> {
    if k == 0 {
        if wide { "f64_add"@ } else { "f32_add"@ }
    } else if k == 1 {
        if wide { "f64_mul"@ } else { "f32_mul"@ }
    } else if k == 2 {
        if wide { "f64_sub"@ } else { "f32_sub"@ }
    } else if k == 3 {
        if wide { "f64_div"@ } else { "f32_div"@ }
    } else if k == 4 {
        if wide { "f64_lt_quiet"@ } else { "f32_lt_quiet"@ }
    } else if k == 5 {
        if wide { "f64_le_quiet"@ } else { "f32_le_quiet"@ }
    } else if k == 6 {
        if wide { "f64_eq"@ } else { "f32_eq"@ }
    } else if k == 7 {
        if wide { "f64_ge_quiet"@ } else { "f32_ge_quiet"@ }
    } else if k == 8 {
        if wide { "f64_gt_quiet"@ } else { "f32_gt_quiet"@ }
    } else if k == 9 {
        if wide { "ui32_to_f64"@ } else { "ui32_to_f32"@ }
    } else if k == 10 {
        if wide { "i32_to_f64"@ } else { "i32_to_f32"@ }
    } else if k == 11 {
        if wide { "ui64_to_f64"@ } else { "ui64_to_f32"@ }
    } else if k == 12 {
        if wide { "i64_to_f64"@ } else { "i64_to_f32"@ }
    } else if k == 13 {
        if wide { "f64_to_i32"@ } else { "f32_to_i32"@ }
    } else if k == 14 {
        if wide { "f64_to_ui32"@ } else { "f32_to_ui32"@ }
    } else if k == 15 {
        if wide { "f64_to_i64"@ } else { "f32_to_i64"@ }
    } else if k == 16 {
        if wide { "f64_to_ui64"@ } else { "f32_to_ui64"@ }
    } else if k == 17 {
        if wide { "f32_to_f64"@ } else { "f64_to_f32"@ }
    } else if k == 18 {
        if wide { "f64_roundToInt"@ } else { "f32_roundToInt"@ }
    } else {
        if wide { "f64_sqrt"@ } else { "f32_sqrt"@ }
    }
}

/// The name of the `k`-th softfloat import of one width (`f64` when `wide`).
pub fn import_name(wide: bool, k: u32) -> (r: String)
    requires
        k < OPS_PER_WIDTH,
    ensures
        r@ == spec_import_name(wide, k as int),
{
    if k == 0 {
        if wide { String::from_str("f64_add") } else { String::from_str("f32_add") }
    } else if k == 1 {
        if wide { String::from_str("f64_mul") } else { String::from_str("f32_mul") }
    } else if k == 2 {
        if wide { String::from_str("f64_sub") } else { String::from_str("f32_sub") }
    } else if k == 3 {
        if wide { String::from_str("f64_div") } else { String::from_str("f32_div") }
    } else if k == 4 {
        if wide { String::from_str("f64_lt_quiet") } else { String::from_str("f32_lt_quiet") }
    } else if k == 5 {
        if wide { String::from_str("f64_le_quiet") } else { String::from_str("f32_le_quiet") }
    } else if k == 6 {
        if wide { String::from_str("f64_eq") } else { String::from_str("f32_eq") }
    } else if k == 7 {
        if wide { String::from_str("f64_ge_quiet") } else { String::from_str("f32_ge_quiet") }
    } else if k == 8 {
        if wide { String::from_str("f64_gt_quiet") } else { String::from_str("f32_gt_quiet") }
    } else if k == 9 {
        if wide { String::from_str("ui32_to_f64") } else { String::from_str("ui32_to_f32") }
    } else if k == 10 {
        if wide { String::from_str("i32_to_f64") } else { String::from_str("i32_to_f32") }
    } else if k == 11 {
        if wide { String::from_str("ui64_to_f64") } else { String::from_str("ui64_to_f32") }
    } else if k == 12 {
        if wide { String::from_str("i64_to_f64") } else { String::from_str("i64_to_f32") }
    } else if k == 13 {
        if wide { String::from_str("f64_to_i32") } else { String::from_str("f32_to_i32") }
    } else if k == 14 {
        if wide { String::from_str("f64_to_ui32") } else { String::from_str("f32_to_ui32") }
    } else if k == 15 {
        if wide { String::from_str("f64_to_i64") } else { String::from_str("f32_to_i64") }
    } else if k == 16 {
        if wide { String::from_str("f64_to_ui64") } else { String::from_str("f32_to_ui64") }
    } else if k == 17 {
        if wide { String::from_str("f32_to_f64") } else { String::from_str("f64_to_f32") }
    } else if k == 18 {
        if wide { String::from_str("f64_roundToInt") } else { String::from_str("f32_roundToInt") }
    } else {
        if wide { String::from_str("f64_sqrt") } else { String::from_str("f32_sqrt") }
    }
}

/// The function type of the `k`-th softfloat import of a width whose types are `t` and whose
/// conversion from the other width has type `conv`.
pub open spec fn spec_import_type(t: FTypes, conv: u32, k: int) -> u32 {
    if k == 0 {
        t.bopf
    } else if k == 1 {
        t.bopf
    } else if k == 2 {
        t.bopf
    } else if k == 3 {
        t.bopf
    } else if k == 4 {
        t.boolop
    } else if k == 5 {
        t.boolop
    } else if k == 6 {
        t.boolop
    } else if k == 7 {
        t.boolop
    } else if k == 8 {
        t.boolop
    } else if k == 9 {
        t.from_i32
    } else if k == 10 {
        t.from_i32
    } else if k == 11 {
        t.from_i64
    } else if k == 12 {
        t.from_i64
    } else if k == 13 {
        t.to_i32
    } else if k == 14 {
        t.to_i32
    } else if k == 15 {
        t.to_i64
    } else if k == 16 {
        t.to_i64
    } else if k == 17 {
        conv
    } else if k == 18 {
        t.round
    } else {
        t.uopf
    }
}

/// The function type of the `k`-th softfloat import of a width whose types are `t` and whose
/// conversion from the other width has type `conv`.
pub fn import_type(t: FTypes, conv: u32, k: u32) -> (r: u32)
    requires
        k < OPS_PER_WIDTH,
    ensures
        r == spec_import_type(t, conv, k as int),
{
    if k == 0 {
        t.bopf
    } else if k == 1 {
        t.bopf
    } else if k == 2 {
        t.bopf
    } else if k == 3 {
        t.bopf
    } else if k == 4 {
        t.boolop
    } else if k == 5 {
        t.boolop
    } else if k == 6 {
        t.boolop
    } else if k == 7 {
        t.boolop
    } else if k == 8 {
        t.boolop
    } else if k == 9 {
        t.from_i32
    } else if k == 10 {
        t.from_i32
    } else if k == 11 {
        t.from_i64
    } else if k == 12 {
        t.from_i64
    } else if k == 13 {
        t.to_i32
    } else if k == 14 {
        t.to_i32
    } else if k == 15 {
        t.to_i64
    } else if k == 16 {
        t.to_i64
    } else if k == 17 {
        conv
    } else if k == 18 {
        t.round
    } else {
        t.uopf
    }
}

/// The function indices of the softfloat imports of one width when they are imported in order
/// from index `base` on.
pub open spec fn spec_fops(base: int) -> FOps {
    FOps {
        add: (base + 0) as u32,
        mul: (base + 1) as u32,
        sub: (base + 2) as u32,
        div: (base + 3) as u32,
        lt: (base + 4) as u32,
        le: (base + 5) as u32,
        eq: (base + 6) as u32,
        ge: (base + 7) as u32,
        gt: (base + 8) as u32,
        from_u32: (base + 9) as u32,
        from_i32: (base + 10) as u32,
        from_u64: (base + 11) as u32,
        from_i64: (base + 12) as u32,
        to_i32: (base + 13) as u32,
        to_u32: (base + 14) as u32,
        to_i64: (base + 15) as u32,
        to_u64: (base + 16) as u32,
        flt_conv_to: (base + 17) as u32,
        round: (base + 18) as u32,
        sqrt: (base + 19) as u32,
    }
}

/// The function indices of the softfloat imports of one width when they are imported in order
/// from index `base` on.
pub fn fops_from(base: u32) -> (r: FOps)
    requires
        base + OPS_PER_WIDTH <= u32::MAX,
    ensures
        r == spec_fops(base as int),
{
    FOps {
        add: base + 0,
        mul: base + 1,
        sub: base + 2,
        div: base + 3,
        lt: base + 4,
        le: base + 5,
        eq: base + 6,
        ge: base + 7,
        gt: base + 8,
        from_u32: base + 9,
        from_i32: base + 10,
        from_u64: base + 11,
        from_i64: base + 12,
        to_i32: base + 13,
        to_u32: base + 14,
        to_i64: base + 15,
        to_u64: base + 16,
        flt_conv_to: base + 17,
        round: base + 18,
        sqrt: base + 19,
    }
}

/// One import to append to the import section: its name in module `softfloat` and its function
/// type.
pub struct FloatImport {
    pub name: String,
    pub fn_type: u32,
}

/// The imports that the softfloat rewrite appends after the `start` imports of the module: the
/// twenty `f32` functions, then the twenty `f64` functions; with the indices they get.
pub fn float_imports(start: u32, t32: FTypes, t64: FTypes, f32_to_f64: u32, f64_to_f32: u32) -> (r: (
    Vec<FloatImport>,
    FOps,
    FOps,
))
    requires
        start + 2 * OPS_PER_WIDTH <= u32::MAX,
    ensures
        r.0@.len() == 2 * OPS_PER_WIDTH,
        forall|k: int|
            0 <= k < OPS_PER_WIDTH ==> {
                &&& (#[trigger] r.0@[k]).name@ == spec_import_name(false, k)
                &&& r.0@[k].fn_type == spec_import_type(t32, f64_to_f32, k)
            },
        forall|k: int|
            OPS_PER_WIDTH <= k < 2 * OPS_PER_WIDTH ==> {
                &&& (#[trigger] r.0@[k]).name@ == spec_import_name(true, k - OPS_PER_WIDTH)
                &&& r.0@[k].fn_type == spec_import_type(t64, f32_to_f64, k - OPS_PER_WIDTH)
            },
        r.1 == spec_fops(start as int),
        r.2 == spec_fops(start + OPS_PER_WIDTH),
{
    let mut v: Vec<FloatImport> = Vec::new();
    let mut k: u32 = 0;
    while k < OPS_PER_WIDTH
        invariant
            k <= OPS_PER_WIDTH,
            v@.len() == k,
            forall|j: int|
                0 <= j < k ==> {
                    &&& (#[trigger] v@[j]).name@ == spec_import_name(false, j)
                    &&& v@[j].fn_type == spec_import_type(t32, f64_to_f32, j)
                },
        decreases OPS_PER_WIDTH - k,
    {
        let name = import_name(false, k);
        let fn_type = import_type(t32, f64_to_f32, k);
        v.push(FloatImport { name, fn_type });
        k = k + 1;
    }
    let mut k: u32 = 0;
    while k < OPS_PER_WIDTH
        invariant
            k <= OPS_PER_WIDTH,
            v@.len() == OPS_PER_WIDTH + k,
            forall|j: int|
                0 <= j < OPS_PER_WIDTH ==> {
                    &&& (#[trigger] v@[j]).name@ == spec_import_name(false, j)
                    &&& v@[j].fn_type == spec_import_type(t32, f64_to_f32, j)
                },
            forall|j: int|
                OPS_PER_WIDTH <= j < OPS_PER_WIDTH + k ==> {
                    &&& (#[trigger] v@[j]).name@ == spec_import_name(true, j - OPS_PER_WIDTH)
                    &&& v@[j].fn_type == spec_import_type(t64, f32_to_f64, j - OPS_PER_WIDTH)
                },
        decreases OPS_PER_WIDTH - k,
    {
        let name = import_name(true, k);
        let fn_type = import_type(t64, f32_to_f64, k);
        v.push(FloatImport { name, fn_type });
        k = k + 1;
    }
    (v, fops_from(start), fops_from(start + OPS_PER_WIDTH))
}


/// A float instruction that the softfloat rewrite replaces.
#[derive(Clone, Copy, PartialEq, Eq, Debug, Structural)]
pub enum FloatInstr {
    F32Neg,
    F32Abs,
    F32ConvertI32U,
    F32ConvertI32S,
    F32ConvertI64U,
    F32ConvertI64S,
    F32Add,
    F32Sub,
    F32Mul,
    F32Div,
    F32Le,
    F32Lt,
    F32Ge,
    F32Gt,
    F32Eq,
    F32Ne,
    I32TruncF32S,
    I32TruncF32U,
    I64TruncF32S,
    I64TruncF32U,
    F32Floor,
    F32Ceil,
    F64Neg,
    F64Abs,
    F64ConvertI32U,
    F64ConvertI32S,
    F64ConvertI64U,
    F64ConvertI64S,
    F64Add,
    F64Sub,
    F64Mul,
    F64Div,
    F64Le,
    F64Lt,
    F64Ge,
    F64Gt,
    F64Eq,
    F64Ne,
    I64TruncF64S,
    I64TruncF64U,
    I32TruncF64S,
    I32TruncF64U,
    F64Floor,
    F64Ceil,
    F32DemoteF64,
    F64PromoteF32,
    F32Sqrt,
    F64Sqrt,
}

/// An instruction that the softfloat rewrite emits in place of a float instruction.
#[derive(Clone, Copy, PartialEq, Eq, Debug, Structural)]
pub enum Emit {
    Call(u32),
    I32Const(i32),
    I64Const(i64),
    I32Xor,
    I32And,
    I64Xor,
    I64And,
    I32ReinterpretF32,
    F32ReinterpretI32,
    I64ReinterpretF64,
    F64ReinterpretI64,
}

/// The `i32` constant with only the sign bit set.
pub const I32_SIGN: i32 = -2147483648i32;

/// The `i32` constant with every bit but the sign bit set.
pub const I32_MAGNITUDE: i32 = 2147483647i32;

/// The `i64` constant with only the sign bit set.
pub const I64_SIGN: i64 = -9223372036854775808i64;

/// The `i64` constant with every bit but the sign bit set.
pub const I64_MAGNITUDE: i64 = 9223372036854775807i64;

/// A call of the softfloat function `f`.
pub open spec fn spec_call(f: u32) -> Seq<Emit> {
    seq![Emit::Call(f)]
}

/// A call of the float-to-integer conversion `f`, rounding toward zero without raising the
/// inexact flag.
pub open spec fn spec_trunc(f: u32) -> Seq<Emit> {
    seq![Emit::I32Const(ROUND_MIN_MAG), Emit::I32Const(0), Emit::Call(f)]
}

/// A call of the rounding function `f` in rounding mode `mode`.
pub open spec fn spec_round(mode: i32, f: u32) -> Seq<Emit> {
    seq![Emit::I32Const(mode), Emit::I32Const(0), Emit::Call(f)]
}

/// Float inequality: the equality `eq` with its result flipped.
pub open spec fn spec_not_equal(eq: u32) -> Seq<Emit> {
    seq![Emit::Call(eq), Emit::I32Const(1), Emit::I32Xor]
}

/// What the softfloat rewrite emits in place of `ins`, given the imported `f32` and `f64`
/// functions. Negation and absolute value flip or clear the sign bit of the bits; every other
/// instruction becomes a call of its softfloat function.
pub open spec fn spec_rewrite(ins: FloatInstr, o32: FOps, o64: FOps) -> Seq<Emit> {
    match ins {
        FloatInstr::F32Neg => seq![Emit::I32ReinterpretF32, Emit::I32Const(I32_SIGN), Emit::I32Xor, Emit::F32ReinterpretI32],
        FloatInstr::F32Abs => seq![Emit::I32ReinterpretF32, Emit::I32Const(I32_MAGNITUDE), Emit::I32And, Emit::F32ReinterpretI32],
        FloatInstr::F32ConvertI32U => spec_call(o32.from_u32),
        FloatInstr::F32ConvertI32S => spec_call(o32.from_i32),
        FloatInstr::F32ConvertI64U => spec_call(o32.from_u64),
        FloatInstr::F32ConvertI64S => spec_call(o32.from_i64),
        FloatInstr::F32Add => spec_call(o32.add),
        FloatInstr::F32Sub => spec_call(o32.sub),
        FloatInstr::F32Mul => spec_call(o32.mul),
        FloatInstr::F32Div => spec_call(o32.div),
        FloatInstr::F32Le => spec_call(o32.le),
        FloatInstr::F32Lt => spec_call(o32.lt),
        FloatInstr::F32Ge => spec_call(o32.ge),
        FloatInstr::F32Gt => spec_call(o32.gt),
        FloatInstr::F32Eq => spec_call(o32.eq),
        FloatInstr::F32Ne => spec_not_equal(o32.eq),
        FloatInstr::I32TruncF32S => spec_trunc(o32.to_i32),
        FloatInstr::I32TruncF32U => spec_trunc(o32.to_u32),
        FloatInstr::I64TruncF32S => spec_trunc(o32.to_i64),
        FloatInstr::I64TruncF32U => spec_trunc(o32.to_u64),
        FloatInstr::F32Floor => spec_round(ROUND_MIN, o32.round),
        FloatInstr::F32Ceil => spec_round(ROUND_MAX, o32.round),
        FloatInstr::F64Neg => seq![Emit::I64ReinterpretF64, Emit::I64Const(I64_SIGN), Emit::I64Xor, Emit::F64ReinterpretI64],
        FloatInstr::F64Abs => seq![Emit::I64ReinterpretF64, Emit::I64Const(I64_MAGNITUDE), Emit::I64And, Emit::F64ReinterpretI64],
        FloatInstr::F64ConvertI32U => spec_call(o64.from_u32),
        FloatInstr::F64ConvertI32S => spec_call(o64.from_i32),
        FloatInstr::F64ConvertI64U => spec_call(o64.from_u64),
        FloatInstr::F64ConvertI64S => spec_call(o64.from_i64),
        FloatInstr::F64Add => spec_call(o64.add),
        FloatInstr::F64Sub => spec_call(o64.sub),
        FloatInstr::F64Mul => spec_call(o64.mul),
        FloatInstr::F64Div => spec_call(o64.div),
        FloatInstr::F64Le => spec_call(o64.le),
        FloatInstr::F64Lt => spec_call(o64.lt),
        FloatInstr::F64Ge => spec_call(o64.ge),
        FloatInstr::F64Gt => spec_call(o64.gt),
        FloatInstr::F64Eq => spec_call(o64.eq),
        FloatInstr::F64Ne => spec_not_equal(o64.eq),
        FloatInstr::I64TruncF64S => spec_trunc(o64.to_i64),
        FloatInstr::I64TruncF64U => spec_trunc(o64.to_u64),
        FloatInstr::I32TruncF64S => spec_trunc(o64.to_i32),
        FloatInstr::I32TruncF64U => spec_trunc(o64.to_u32),
        FloatInstr::F64Floor => spec_round(ROUND_MIN, o64.round),
        FloatInstr::F64Ceil => spec_round(ROUND_MAX, o64.round),
        FloatInstr::F32DemoteF64 => spec_call(o32.flt_conv_to),
        FloatInstr::F64PromoteF32 => spec_call(o64.flt_conv_to),
        FloatInstr::F32Sqrt => spec_call(o32.sqrt),
        FloatInstr::F64Sqrt => spec_call(o64.sqrt),
    }
}

/// The instructions that replace the float instruction `ins`, given the imported `f32` and `f64`
/// functions.
pub fn rewrite_float_instruction(ins: FloatInstr, o32: FOps, o64: FOps) -> (r: Vec<Emit>)
    ensures
        r@ == spec_rewrite(ins, o32, o64),
{
    let r = match ins {
        FloatInstr::F32Neg => vec![Emit::I32ReinterpretF32, Emit::I32Const(I32_SIGN), Emit::I32Xor, Emit::F32ReinterpretI32],
        FloatInstr::F32Abs => vec![Emit::I32ReinterpretF32, Emit::I32Const(I32_MAGNITUDE), Emit::I32And, Emit::F32ReinterpretI32],
        FloatInstr::F32ConvertI32U => vec![Emit::Call(o32.from_u32)],
        FloatInstr::F32ConvertI32S => vec![Emit::Call(o32.from_i32)],
        FloatInstr::F32ConvertI64U => vec![Emit::Call(o32.from_u64)],
        FloatInstr::F32ConvertI64S => vec![Emit::Call(o32.from_i64)],
        FloatInstr::F32Add => vec![Emit::Call(o32.add)],
        FloatInstr::F32Sub => vec![Emit::Call(o32.sub)],
        FloatInstr::F32Mul => vec![Emit::Call(o32.mul)],
        FloatInstr::F32Div => vec![Emit::Call(o32.div)],
        FloatInstr::F32Le => vec![Emit::Call(o32.le)],
        FloatInstr::F32Lt => vec![Emit::Call(o32.lt)],
        FloatInstr::F32Ge => vec![Emit::Call(o32.ge)],
        FloatInstr::F32Gt => vec![Emit::Call(o32.gt)],
        FloatInstr::F32Eq => vec![Emit::Call(o32.eq)],
        FloatInstr::F32Ne => vec![Emit::Call(o32.eq), Emit::I32Const(1), Emit::I32Xor],
        FloatInstr::I32TruncF32S => vec![Emit::I32Const(ROUND_MIN_MAG), Emit::I32Const(0), Emit::Call(o32.to_i32)],
        FloatInstr::I32TruncF32U => vec![Emit::I32Const(ROUND_MIN_MAG), Emit::I32Const(0), Emit::Call(o32.to_u32)],
        FloatInstr::I64TruncF32S => vec![Emit::I32Const(ROUND_MIN_MAG), Emit::I32Const(0), Emit::Call(o32.to_i64)],
        FloatInstr::I64TruncF32U => vec![Emit::I32Const(ROUND_MIN_MAG), Emit::I32Const(0), Emit::Call(o32.to_u64)],
        FloatInstr::F32Floor => vec![Emit::I32Const(ROUND_MIN), Emit::I32Const(0), Emit::Call(o32.round)],
        FloatInstr::F32Ceil => vec![Emit::I32Const(ROUND_MAX), Emit::I32Const(0), Emit::Call(o32.round)],
        FloatInstr::F64Neg => vec![Emit::I64ReinterpretF64, Emit::I64Const(I64_SIGN), Emit::I64Xor, Emit::F64ReinterpretI64],
        FloatInstr::F64Abs => vec![Emit::I64ReinterpretF64, Emit::I64Const(I64_MAGNITUDE), Emit::I64And, Emit::F64ReinterpretI64],
        FloatInstr::F64ConvertI32U => vec![Emit::Call(o64.from_u32)],
        FloatInstr::F64ConvertI32S => vec![Emit::Call(o64.from_i32)],
        FloatInstr::F64ConvertI64U => vec![Emit::Call(o64.from_u64)],
        FloatInstr::F64ConvertI64S => vec![Emit::Call(o64.from_i64)],
        FloatInstr::F64Add => vec![Emit::Call(o64.add)],
        FloatInstr::F64Sub => vec![Emit::Call(o64.sub)],
        FloatInstr::F64Mul => vec![Emit::Call(o64.mul)],
        FloatInstr::F64Div => vec![Emit::Call(o64.div)],
        FloatInstr::F64Le => vec![Emit::Call(o64.le)],
        FloatInstr::F64Lt => vec![Emit::Call(o64.lt)],
        FloatInstr::F64Ge => vec![Emit::Call(o64.ge)],
        FloatInstr::F64Gt => vec![Emit::Call(o64.gt)],
        FloatInstr::F64Eq => vec![Emit::Call(o64.eq)],
        FloatInstr::F64Ne => vec![Emit::Call(o64.eq), Emit::I32Const(1), Emit::I32Xor],
        FloatInstr::I64TruncF64S => vec![Emit::I32Const(ROUND_MIN_MAG), Emit::I32Const(0), Emit::Call(o64.to_i64)],
        FloatInstr::I64TruncF64U => vec![Emit::I32Const(ROUND_MIN_MAG), Emit::I32Const(0), Emit::Call(o64.to_u64)],
        FloatInstr::I32TruncF64S => vec![Emit::I32Const(ROUND_MIN_MAG), Emit::I32Const(0), Emit::Call(o64.to_i32)],
        FloatInstr::I32TruncF64U => vec![Emit::I32Const(ROUND_MIN_MAG), Emit::I32Const(0), Emit::Call(o64.to_u32)],
        FloatInstr::F64Floor => vec![Emit::I32Const(ROUND_MIN), Emit::I32Const(0), Emit::Call(o64.round)],
        FloatInstr::F64Ceil => vec![Emit::I32Const(ROUND_MAX), Emit::I32Const(0), Emit::Call(o64.round)],
        FloatInstr::F32DemoteF64 => vec![Emit::Call(o32.flt_conv_to)],
        FloatInstr::F64PromoteF32 => vec![Emit::Call(o64.flt_conv_to)],
        FloatInstr::F32Sqrt => vec![Emit::Call(o32.sqrt)],
        FloatInstr::F64Sqrt => vec![Emit::Call(o64.sqrt)],
    };
    assert(r@ =~= spec_rewrite(ins, o32, o64));
    r
}


/// With the softfloat imports laid out after the module's own `start` imports, every call that
/// the rewrite emits goes to one of the inserted imports: never to one of the module's own
/// imports, and never to a function that the encoder moved past them.
pub proof fn lemma_rewrite_calls_softfloat(ins: FloatInstr, start: u32, e: MyEncoder, func: u32, i: int)
    requires
        start + 2 * OPS_PER_WIDTH <= u32::MAX,
        e.first_moved() == start,
        e.shift() == 2 * OPS_PER_WIDTH,
        0 <= i < spec_rewrite(ins, spec_fops(start as int), spec_fops(start + OPS_PER_WIDTH)).len(),
    ensures
        spec_rewrite(ins, spec_fops(start as int), spec_fops(start + OPS_PER_WIDTH))[i] matches Emit::Call(
            f,
        ) ==> start <= f < start + 2 * OPS_PER_WIDTH && f != e.spec_function_index(func),
{
}

/// The softfloat function that computes the float instruction `ins`, by its import name, with
/// what is pushed before the call (the rounding mode and the exception flag, for conversions to
/// integers and rounding) and what follows it (a flip of the result, for `ne`); none for
/// negation and absolute value, which take no call.
pub open spec fn softfloat_call(ins: FloatInstr) -> Option<(Seq<char>, Seq<Emit>, Seq<Emit>)> {
    match ins {
        FloatInstr::F32Neg | FloatInstr::F32Abs | FloatInstr::F64Neg | FloatInstr::F64Abs => None,
        FloatInstr::F32ConvertI32U => Some(("ui32_to_f32"@, Seq::empty(), Seq::empty())),
        FloatInstr::F32ConvertI32S => Some(("i32_to_f32"@, Seq::empty(), Seq::empty())),
        FloatInstr::F32ConvertI64U => Some(("ui64_to_f32"@, Seq::empty(), Seq::empty())),
        FloatInstr::F32ConvertI64S => Some(("i64_to_f32"@, Seq::empty(), Seq::empty())),
        FloatInstr::F32Add => Some(("f32_add"@, Seq::empty(), Seq::empty())),
        FloatInstr::F32Sub => Some(("f32_sub"@, Seq::empty(), Seq::empty())),
        FloatInstr::F32Mul => Some(("f32_mul"@, Seq::empty(), Seq::empty())),
        FloatInstr::F32Div => Some(("f32_div"@, Seq::empty(), Seq::empty())),
        FloatInstr::F32Le => Some(("f32_le_quiet"@, Seq::empty(), Seq::empty())),
        FloatInstr::F32Lt => Some(("f32_lt_quiet"@, Seq::empty(), Seq::empty())),
        FloatInstr::F32Ge => Some(("f32_ge_quiet"@, Seq::empty(), Seq::empty())),
        FloatInstr::F32Gt => Some(("f32_gt_quiet"@, Seq::empty(), Seq::empty())),
        FloatInstr::F32Eq => Some(("f32_eq"@, Seq::empty(), Seq::empty())),
        FloatInstr::F32Ne => Some(("f32_eq"@, Seq::empty(), seq![Emit::I32Const(1), Emit::I32Xor])),
        FloatInstr::I32TruncF32S => Some(("f32_to_i32"@, seq![Emit::I32Const(ROUND_MIN_MAG), Emit::I32Const(0)], Seq::empty())),
        FloatInstr::I32TruncF32U => Some(("f32_to_ui32"@, seq![Emit::I32Const(ROUND_MIN_MAG), Emit::I32Const(0)], Seq::empty())),
        FloatInstr::I64TruncF32S => Some(("f32_to_i64"@, seq![Emit::I32Const(ROUND_MIN_MAG), Emit::I32Const(0)], Seq::empty())),
        FloatInstr::I64TruncF32U => Some(("f32_to_ui64"@, seq![Emit::I32Const(ROUND_MIN_MAG), Emit::I32Const(0)], Seq::empty())),
        FloatInstr::F32Floor => Some(("f32_roundToInt"@, seq![Emit::I32Const(ROUND_MIN), Emit::I32Const(0)], Seq::empty())),
        FloatInstr::F32Ceil => Some(("f32_roundToInt"@, seq![Emit::I32Const(ROUND_MAX), Emit::I32Const(0)], Seq::empty())),
        FloatInstr::F64ConvertI32U => Some(("ui32_to_f64"@, Seq::empty(), Seq::empty())),
        FloatInstr::F64ConvertI32S => Some(("i32_to_f64"@, Seq::empty(), Seq::empty())),
        FloatInstr::F64ConvertI64U => Some(("ui64_to_f64"@, Seq::empty(), Seq::empty())),
        FloatInstr::F64ConvertI64S => Some(("i64_to_f64"@, Seq::empty(), Seq::empty())),
        FloatInstr::F64Add => Some(("f64_add"@, Seq::empty(), Seq::empty())),
        FloatInstr::F64Sub => Some(("f64_sub"@, Seq::empty(), Seq::empty())),
        FloatInstr::F64Mul => Some(("f64_mul"@, Seq::empty(), Seq::empty())),
        FloatInstr::F64Div => Some(("f64_div"@, Seq::empty(), Seq::empty())),
        FloatInstr::F64Le => Some(("f64_le_quiet"@, Seq::empty(), Seq::empty())),
        FloatInstr::F64Lt => Some(("f64_lt_quiet"@, Seq::empty(), Seq::empty())),
        FloatInstr::F64Ge => Some(("f64_ge_quiet"@, Seq::empty(), Seq::empty())),
        FloatInstr::F64Gt => Some(("f64_gt_quiet"@, Seq::empty(), Seq::empty())),
        FloatInstr::F64Eq => Some(("f64_eq"@, Seq::empty(), Seq::empty())),
        FloatInstr::F64Ne => Some(("f64_eq"@, Seq::empty(), seq![Emit::I32Const(1), Emit::I32Xor])),
        FloatInstr::I64TruncF64S => Some(("f64_to_i64"@, seq![Emit::I32Const(ROUND_MIN_MAG), Emit::I32Const(0)], Seq::empty())),
        FloatInstr::I64TruncF64U => Some(("f64_to_ui64"@, seq![Emit::I32Const(ROUND_MIN_MAG), Emit::I32Const(0)], Seq::empty())),
        FloatInstr::I32TruncF64S => Some(("f64_to_i32"@, seq![Emit::I32Const(ROUND_MIN_MAG), Emit::I32Const(0)], Seq::empty())),
        FloatInstr::I32TruncF64U => Some(("f64_to_ui32"@, seq![Emit::I32Const(ROUND_MIN_MAG), Emit::I32Const(0)], Seq::empty())),
        FloatInstr::F64Floor => Some(("f64_roundToInt"@, seq![Emit::I32Const(ROUND_MIN), Emit::I32Const(0)], Seq::empty())),
        FloatInstr::F64Ceil => Some(("f64_roundToInt"@, seq![Emit::I32Const(ROUND_MAX), Emit::I32Const(0)], Seq::empty())),
        FloatInstr::F32DemoteF64 => Some(("f64_to_f32"@, Seq::empty(), Seq::empty())),
        FloatInstr::F64PromoteF32 => Some(("f32_to_f64"@, Seq::empty(), Seq::empty())),
        FloatInstr::F32Sqrt => Some(("f32_sqrt"@, Seq::empty(), Seq::empty())),
        FloatInstr::F64Sqrt => Some(("f64_sqrt"@, Seq::empty(), Seq::empty())),
    }
}

/// The name of the softfloat import at function index `f`, the twenty `f32` imports laid out from
/// index `start` on and the twenty `f64` ones right after them.
pub open spec fn import_name_at(start: int, f: int) -> Seq<char> {
    if f < start + OPS_PER_WIDTH {
        spec_import_name(false, f - start)
    } else {
        spec_import_name(true, f - start - OPS_PER_WIDTH)
    }
}

/// Every float instruction but negation and absolute value is replaced by one call of the
/// softfloat import whose name is that instruction's operation (`f32.lt` by `f32_lt_quiet`,
/// `i32.trunc_f64_u` by `f64_to_ui32`, `f32.demote_f64` by `f64_to_f32`, and so on), with the
/// rounding toward zero, down or up pushed before it for truncations, `floor` and `ceil`, and the
/// result flipped after it for `ne`; negation and absolute value call nothing and flip or clear
/// the sign bit of the value's bits.
pub proof fn lemma_rewrite_calls_the_named_function(ins: FloatInstr, start: u32)
    requires
        start + 2 * OPS_PER_WIDTH <= u32::MAX,
    ensures
        ({
            let out = spec_rewrite(ins, spec_fops(start as int), spec_fops(start + OPS_PER_WIDTH));
            match softfloat_call(ins) {
                Some((name, before, after)) => exists|f: u32|
                    {
                        &&& start <= f < start + 2 * OPS_PER_WIDTH
                        &&& import_name_at(start as int, f as int) == name
                        &&& out == before + seq![Emit::Call(f)] + after
                    },
                None => {
                    &&& out.len() == 4
                    &&& forall|i: int| 0 <= i < 4 ==> !(out[i] is Call)
                    &&& (ins is F32Neg ==> out[2] == Emit::I32Xor && out[1] == Emit::I32Const(i32::MIN))
                    &&& (ins is F32Abs ==> out[2] == Emit::I32And && out[1] == Emit::I32Const(i32::MAX))
                    &&& (ins is F64Neg ==> out[2] == Emit::I64Xor && out[1] == Emit::I64Const(i64::MIN))
                    &&& (ins is F64Abs ==> out[2] == Emit::I64And && out[1] == Emit::I64Const(i64::MAX))
                },
            }
        }),
{
    let out = spec_rewrite(ins, spec_fops(start as int), spec_fops(start + OPS_PER_WIDTH));
    let k: int = match ins {
        FloatInstr::F32ConvertI32U => 9,
        FloatInstr::F32ConvertI32S => 10,
        FloatInstr::F32ConvertI64U => 11,
        FloatInstr::F32ConvertI64S => 12,
        FloatInstr::F32Add => 0,
        FloatInstr::F32Sub => 2,
        FloatInstr::F32Mul => 1,
        FloatInstr::F32Div => 3,
        FloatInstr::F32Le => 5,
        FloatInstr::F32Lt => 4,
        FloatInstr::F32Ge => 7,
        FloatInstr::F32Gt => 8,
        FloatInstr::F32Eq => 6,
        FloatInstr::F32Ne => 6,
        FloatInstr::F32Floor => 18,
        FloatInstr::F32Ceil => 18,
        FloatInstr::F32Sqrt => 19,
        FloatInstr::F64ConvertI32U => 29,
        FloatInstr::F64ConvertI32S => 30,
        FloatInstr::F64ConvertI64U => 31,
        FloatInstr::F64ConvertI64S => 32,
        FloatInstr::F64Add => 20,
        FloatInstr::F64Sub => 22,
        FloatInstr::F64Mul => 21,
        FloatInstr::F64Div => 23,
        FloatInstr::F64Le => 25,
        FloatInstr::F64Lt => 24,
        FloatInstr::F64Ge => 27,
        FloatInstr::F64Gt => 28,
        FloatInstr::F64Eq => 26,
        FloatInstr::F64Ne => 26,
        FloatInstr::F64Floor => 38,
        FloatInstr::F64Ceil => 38,
        FloatInstr::F64Sqrt => 39,
        FloatInstr::I32TruncF32S => 13,
        FloatInstr::I32TruncF32U => 14,
        FloatInstr::I64TruncF32S => 15,
        FloatInstr::I64TruncF32U => 16,
        FloatInstr::I64TruncF64S => 35,
        FloatInstr::I64TruncF64U => 36,
        FloatInstr::I32TruncF64S => 33,
        FloatInstr::I32TruncF64U => 34,
        FloatInstr::F32DemoteF64 => 17,
        FloatInstr::F64PromoteF32 => 37,
        _ => 0,
    };
    match softfloat_call(ins) {
        Some((name, before, after)) => {
            let f = (start + k) as u32;
            assert(out =~= before + seq![Emit::Call(f)] + after);
            assert(import_name_at(start as int, f as int) == name);
        },
        None => {},
    }
}

/// What the float instruction `ins` takes from the wasm stack and leaves on it.
pub open spec fn float_instr_type(ins: FloatInstr) -> (Seq<ValKind>, Seq<ValKind>) {
    match ins {
        FloatInstr::F32ConvertI32U => (seq![ValKind::I32], seq![ValKind::F32]),
        FloatInstr::F32ConvertI32S => (seq![ValKind::I32], seq![ValKind::F32]),
        FloatInstr::F32ConvertI64U => (seq![ValKind::I64], seq![ValKind::F32]),
        FloatInstr::F32ConvertI64S => (seq![ValKind::I64], seq![ValKind::F32]),
        FloatInstr::F32Add => (seq![ValKind::F32, ValKind::F32], seq![ValKind::F32]),
        FloatInstr::F32Sub => (seq![ValKind::F32, ValKind::F32], seq![ValKind::F32]),
        FloatInstr::F32Mul => (seq![ValKind::F32, ValKind::F32], seq![ValKind::F32]),
        FloatInstr::F32Div => (seq![ValKind::F32, ValKind::F32], seq![ValKind::F32]),
        FloatInstr::F32Le => (seq![ValKind::F32, ValKind::F32], seq![ValKind::I32]),
        FloatInstr::F32Lt => (seq![ValKind::F32, ValKind::F32], seq![ValKind::I32]),
        FloatInstr::F32Ge => (seq![ValKind::F32, ValKind::F32], seq![ValKind::I32]),
        FloatInstr::F32Gt => (seq![ValKind::F32, ValKind::F32], seq![ValKind::I32]),
        FloatInstr::F32Eq => (seq![ValKind::F32, ValKind::F32], seq![ValKind::I32]),
        FloatInstr::F32Ne => (seq![ValKind::F32, ValKind::F32], seq![ValKind::I32]),
        FloatInstr::F32Floor => (seq![ValKind::F32], seq![ValKind::F32]),
        FloatInstr::F32Ceil => (seq![ValKind::F32], seq![ValKind::F32]),
        FloatInstr::F32Neg => (seq![ValKind::F32], seq![ValKind::F32]),
        FloatInstr::F32Abs => (seq![ValKind::F32], seq![ValKind::F32]),
        FloatInstr::F32Sqrt => (seq![ValKind::F32], seq![ValKind::F32]),
        FloatInstr::I32TruncF32S => (seq![ValKind::F32], seq![ValKind::I32]),
        FloatInstr::I32TruncF32U => (seq![ValKind::F32], seq![ValKind::I32]),
        FloatInstr::I64TruncF32S => (seq![ValKind::F32], seq![ValKind::I64]),
        FloatInstr::I64TruncF32U => (seq![ValKind::F32], seq![ValKind::I64]),
        FloatInstr::F64ConvertI32U => (seq![ValKind::I32], seq![ValKind::F64]),
        FloatInstr::F64ConvertI32S => (seq![ValKind::I32], seq![ValKind::F64]),
        FloatInstr::F64ConvertI64U => (seq![ValKind::I64], seq![ValKind::F64]),
        FloatInstr::F64ConvertI64S => (seq![ValKind::I64], seq![ValKind::F64]),
        FloatInstr::F64Add => (seq![ValKind::F64, ValKind::F64], seq![ValKind::F64]),
        FloatInstr::F64Sub => (seq![ValKind::F64, ValKind::F64], seq![ValKind::F64]),
        FloatInstr::F64Mul => (seq![ValKind::F64, ValKind::F64], seq![ValKind::F64]),
        FloatInstr::F64Div => (seq![ValKind::F64, ValKind::F64], seq![ValKind::F64]),
        FloatInstr::F64Le => (seq![ValKind::F64, ValKind::F64], seq![ValKind::I32]),
        FloatInstr::F64Lt => (seq![ValKind::F64, ValKind::F64], seq![ValKind::I32]),
        FloatInstr::F64Ge => (seq![ValKind::F64, ValKind::F64], seq![ValKind::I32]),
        FloatInstr::F64Gt => (seq![ValKind::F64, ValKind::F64], seq![ValKind::I32]),
        FloatInstr::F64Eq => (seq![ValKind::F64, ValKind::F64], seq![ValKind::I32]),
        FloatInstr::F64Ne => (seq![ValKind::F64, ValKind::F64], seq![ValKind::I32]),
        FloatInstr::F64Floor => (seq![ValKind::F64], seq![ValKind::F64]),
        FloatInstr::F64Ceil => (seq![ValKind::F64], seq![ValKind::F64]),
        FloatInstr::F64Neg => (seq![ValKind::F64], seq![ValKind::F64]),
        FloatInstr::F64Abs => (seq![ValKind::F64], seq![ValKind::F64]),
        FloatInstr::F64Sqrt => (seq![ValKind::F64], seq![ValKind::F64]),
        FloatInstr::I32TruncF64S => (seq![ValKind::F64], seq![ValKind::I32]),
        FloatInstr::I32TruncF64U => (seq![ValKind::F64], seq![ValKind::I32]),
        FloatInstr::I64TruncF64S => (seq![ValKind::F64], seq![ValKind::I64]),
        FloatInstr::I64TruncF64U => (seq![ValKind::F64], seq![ValKind::I64]),
        FloatInstr::F32DemoteF64 => (seq![ValKind::F64], seq![ValKind::F32]),
        FloatInstr::F64PromoteF32 => (seq![ValKind::F32], seq![ValKind::F64]),
    }
}

/// The function type, counted from `base`, of the softfloat import at `j` among the forty
/// imports, when the types were appended from `base` on and the imports take them as
/// `float_types` and `float_imports` give them.
pub open spec fn import_signature_at(base: int, j: int) -> (Seq<ValKind>, Seq<ValKind>) {
    let t = if j < OPS_PER_WIDTH {
        spec_import_type(spec_ftypes(base), (base + 17) as u32, j)
    } else {
        spec_import_type(spec_ftypes(base + 8), (base + 16) as u32, j - OPS_PER_WIDTH)
    };
    spec_float_signature(t - base)
}

/// How many values the rewrite of `ins` pushes before its call.
pub open spec fn values_pushed_before(ins: FloatInstr) -> nat {
    match softfloat_call(ins) {
        Some((_, before, _)) => before.len(),
        None => 0,
    }
}

/// Every call that replaces a float instruction fits the stack: the called import's function
/// type takes what the instruction takes, followed by one `i32` for each value pushed before the
/// call (the rounding mode and the exception flag), and gives what the instruction gives.
pub proof fn lemma_rewrite_calls_fit_the_stack(ins: FloatInstr, start: u32, base: u32, i: int)
    requires
        start + 2 * OPS_PER_WIDTH <= u32::MAX,
        base + 18 <= u32::MAX,
        softfloat_call(ins) is Some,
        0 <= i < spec_rewrite(ins, spec_fops(start as int), spec_fops(start + OPS_PER_WIDTH)).len(),
    ensures
        spec_rewrite(ins, spec_fops(start as int), spec_fops(start + OPS_PER_WIDTH))[i] matches Emit::Call(f)
            ==> import_signature_at(base as int, f - start) == (
        float_instr_type(ins).0 + Seq::new(values_pushed_before(ins), |j: int| ValKind::I32),
        float_instr_type(ins).1,
        ),
{
    lemma_rewrite_calls_the_named_function(ins, start);
    let out = spec_rewrite(ins, spec_fops(start as int), spec_fops(start + OPS_PER_WIDTH));
    if let Emit::Call(f) = out[i] {
        let (params, results) = float_instr_type(ins);
        let n = values_pushed_before(ins);
        let sig = import_signature_at(base as int, f - start);
        assert(sig.0 =~= params + Seq::new(n, |j: int| ValKind::I32));
        assert(sig.1 =~= results);
    }
}

/// An instruction of a function body as the rewrite sees it: a float instruction that it
/// replaces, or any other instruction, by its position in the body.
#[derive(Clone, Copy, PartialEq, Eq, Debug, Structural)]
pub enum BodyOp {
    Float(FloatInstr),
    Other(usize),
}

/// An instruction of a rewritten body: one that the rewrite emits, or an instruction of the
/// body copied as it is, by its position.
#[derive(Clone, Copy, PartialEq, Eq, Debug, Structural)]
pub enum OutOp {
    Emit(Emit),
    Copy(usize),
}

/// What one instruction of a body becomes.
pub open spec fn spec_rewrite_op(op: BodyOp, o32: FOps, o64: FOps) -> Seq<OutOp> {
    match op {
        BodyOp::Float(f) => spec_rewrite(f, o32, o64).map_values(|e: Emit| OutOp::Emit(e)),
        BodyOp::Other(i) => seq![OutOp::Copy(i)],
    }
}

/// A body with each float instruction replaced by what the rewrite emits for it, and every
/// other instruction kept, in order.
pub open spec fn spec_rewrite_body(ops: Seq<BodyOp>, o32: FOps, o64: FOps) -> Seq<OutOp>
    decreases ops.len(),
{
    if ops.len() == 0 {
        Seq::empty()
    } else {
        spec_rewrite_body(ops.drop_last(), o32, o64) + spec_rewrite_op(ops.last(), o32, o64)
    }
}

/// Rewrites a function body: each float instruction becomes the instructions that replace
/// it, and every other instruction is copied.
pub fn rewrite_body(ops: &Vec<BodyOp>, o32: FOps, o64: FOps) -> (r: Vec<OutOp>)
    ensures
        r@ == spec_rewrite_body(ops@, o32, o64),
{
    let mut out: Vec<OutOp> = Vec::new();
    let mut i: usize = 0;
    while i < ops.len()
        invariant
            0 <= i <= ops@.len(),
            out@ == spec_rewrite_body(ops@.take(i as int), o32, o64),
        decreases ops@.len() - i,
    {
        assert(ops@.take(i + 1).drop_last() =~= ops@.take(i as int));
        let ghost before = out@;
        match ops[i] {
            BodyOp::Float(f) => {
                let emitted = rewrite_float_instruction(f, o32, o64);
                let mut k: usize = 0;
                while k < emitted.len()
                    invariant
                        0 <= k <= emitted@.len(),
                        emitted@ == spec_rewrite(f, o32, o64),
                        out@ == before + emitted@.take(k as int).map_values(|e: Emit| OutOp::Emit(e)),
                    decreases emitted@.len() - k,
                {
                    out.push(OutOp::Emit(emitted[k]));
                    assert(emitted@.take(k + 1).map_values(|e: Emit| OutOp::Emit(e)) =~= emitted@.take(
                        k as int,
                    ).map_values(|e: Emit| OutOp::Emit(e)).push(OutOp::Emit(emitted@[k as int])));
                    k = k + 1;
                }
                assert(emitted@.take(emitted@.len() as int) =~= emitted@);
            },
            BodyOp::Other(j) => {
                out.push(OutOp::Copy(j));
            },
        }
        assert(out@ =~= spec_rewrite_body(ops@.take(i + 1), o32, o64));
        i = i + 1;
    }
    assert(ops@.take(ops@.len() as int) =~= ops@);
    out
}

/// No float instruction survives the rewrite of a body: every instruction copied into the
/// rewritten body is one that the body held as a non-float instruction; all the others are
/// what the rewrite emits.
pub proof fn lemma_no_float_survives(ops: Seq<BodyOp>, o32: FOps, o64: FOps, k: int)
    requires
        0 <= k < spec_rewrite_body(ops, o32, o64).len(),
    ensures
        spec_rewrite_body(ops, o32, o64)[k] matches OutOp::Copy(i) ==> exists|j: int|
            0 <= j < ops.len() && #[trigger] ops[j] == BodyOp::Other(i),
    decreases ops.len(),
{
    let out = spec_rewrite_body(ops, o32, o64);
    let p = spec_rewrite_body(ops.drop_last(), o32, o64);
    if ops.len() > 0 {
        if k < p.len() {
            lemma_no_float_survives(ops.drop_last(), o32, o64, k);
            if let OutOp::Copy(i) = out[k] {
                let j = choose|j: int| 0 <= j < ops.drop_last().len() && #[trigger] ops.drop_last()[j]
                    == BodyOp::Other(i);
                assert(ops[j] == BodyOp::Other(i));
            }
        } else {
            assert(out[k] == spec_rewrite_op(ops.last(), o32, o64)[k - p.len()]);
            if let OutOp::Copy(i) = out[k] {
                assert(ops[ops.len() - 1] == BodyOp::Other(i));
            }
        }
    }
}

/// The positions of the instructions of `ops` that are not float instructions, in order.
pub open spec fn kept_positions(ops: Seq<BodyOp>) -> Seq<usize>
    decreases ops.len(),
{
    if ops.len() == 0 {
        Seq::empty()
    } else {
        kept_positions(ops.drop_last()) + match ops.last() {
            BodyOp::Other(i) => seq![i],
            BodyOp::Float(_) => Seq::empty(),
        }
    }
}

/// The positions of the body's instructions that `out` copies, in order.
pub open spec fn copied_positions(out: Seq<OutOp>) -> Seq<usize>
    decreases out.len(),
{
    if out.len() == 0 {
        Seq::empty()
    } else {
        copied_positions(out.drop_last()) + match out.last() {
            OutOp::Copy(i) => seq![i],
            OutOp::Emit(_) => Seq::empty(),
        }
    }
}

proof fn lemma_copied_positions_append(a: Seq<OutOp>, b: Seq<OutOp>)
    ensures
        copied_positions(a + b) == copied_positions(a) + copied_positions(b),
    decreases b.len(),
{
    if b.len() == 0 {
        assert(a + b =~= a);
        assert(copied_positions(a) + Seq::<usize>::empty() =~= copied_positions(a));
    } else {
        assert((a + b).drop_last() =~= a + b.drop_last());
        lemma_copied_positions_append(a, b.drop_last());
        assert(copied_positions(a) + copied_positions(b) =~= copied_positions(a) + copied_positions(
            b.drop_last(),
        ) + match b.last() {
            OutOp::Copy(i) => seq![i],
            OutOp::Emit(_) => Seq::<usize>::empty(),
        });
    }
}

proof fn lemma_emits_copy_nothing(es: Seq<Emit>)
    ensures
        copied_positions(es.map_values(|e: Emit| OutOp::Emit(e))) == Seq::<usize>::empty(),
    decreases es.len(),
{
    let m = es.map_values(|e: Emit| OutOp::Emit(e));
    if es.len() > 0 {
        assert(m.drop_last() =~= es.drop_last().map_values(|e: Emit| OutOp::Emit(e)));
        lemma_emits_copy_nothing(es.drop_last());
        assert(copied_positions(m) =~= Seq::<usize>::empty());
    }
}

/// The rewrite of a body copies every instruction that is not a float instruction, each once
/// and in the order of the body, and copies nothing else.
pub proof fn lemma_rewrite_keeps_other_instructions(ops: Seq<BodyOp>, o32: FOps, o64: FOps)
    ensures
        copied_positions(spec_rewrite_body(ops, o32, o64)) == kept_positions(ops),
    decreases ops.len(),
{
    if ops.len() > 0 {
        lemma_rewrite_keeps_other_instructions(ops.drop_last(), o32, o64);
        lemma_copied_positions_append(
            spec_rewrite_body(ops.drop_last(), o32, o64),
            spec_rewrite_op(ops.last(), o32, o64),
        );
        match ops.last() {
            BodyOp::Float(f) => {
                lemma_emits_copy_nothing(spec_rewrite(f, o32, o64));
            },
            BodyOp::Other(i) => {
                let one = seq![OutOp::Copy(i)];
                assert(one.drop_last() =~= Seq::<OutOp>::empty());
                assert(copied_positions(one.drop_last()) == Seq::<usize>::empty());
                assert(one.last() == OutOp::Copy(i));
                assert(Seq::<usize>::empty() + seq![i] =~= seq![i]);
                assert(copied_positions(one) =~= seq![i]);
            },
        }
    }
}

/// Each instruction of a body is rewritten on its own: the rewrite of two pieces of a body one
/// after the other is the rewrite of the first followed by that of the second, and a lone float
/// instruction becomes what [`rewrite_float_instruction`] emits for it.
pub proof fn lemma_rewrite_body_piecewise(a: Seq<BodyOp>, b: Seq<BodyOp>, f: FloatInstr, o32: FOps, o64: FOps)
    ensures
        spec_rewrite_body(a + b, o32, o64) == spec_rewrite_body(a, o32, o64) + spec_rewrite_body(b, o32, o64),
        spec_rewrite_body(seq![BodyOp::Float(f)], o32, o64) == spec_rewrite(f, o32, o64).map_values(
            |e: Emit| OutOp::Emit(e),
        ),
    decreases b.len(),
{
    let one = seq![BodyOp::Float(f)];
    assert(one.drop_last() =~= Seq::<BodyOp>::empty());
    assert(spec_rewrite_body(one.drop_last(), o32, o64) == Seq::<OutOp>::empty());
    assert(one.last() == BodyOp::Float(f));
    assert(Seq::<OutOp>::empty() + spec_rewrite_op(BodyOp::Float(f), o32, o64) =~= spec_rewrite_op(
        BodyOp::Float(f),
        o32,
        o64,
    ));
    if b.len() == 0 {
        assert(a + b =~= a);
        assert(spec_rewrite_body(a, o32, o64) + Seq::<OutOp>::empty() =~= spec_rewrite_body(a, o32, o64));
    } else {
        assert((a + b).drop_last() =~= a + b.drop_last());
        assert((a + b).last() == b.last());
        lemma_rewrite_body_piecewise(a, b.drop_last(), f, o32, o64);
        assert(spec_rewrite_body(a + b, o32, o64) =~= spec_rewrite_body(a, o32, o64) + spec_rewrite_body(
            b,
            o32,
            o64,
        ));
    }
}

} // verus!
