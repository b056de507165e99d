//! Value types, function signatures and index spaces of a WebAssembly module.

use vstd::prelude::*;
use vstd::std_specs::convert::FromSpecImpl;

verus! {

/// WebAssembly value type.
#[derive(Debug, Copy, Clone, PartialEq, Eq, Hash, Structural)]
pub enum WasmType {
    /// I32 type
    I32,
    /// I64 type
    I64,
    /// F32 type
    F32,
    /// F64 type
    F64,
    /// V128 type
    V128,
    /// FuncRef type
    FuncRef,
    /// ExternRef type
    ExternRef,
}

/// The textual name of a value type, as the text format writes it.
pub open spec fn wasm_type_name(ty: WasmType) -> Seq<char> {
    match ty {
        WasmType::I32 => "i32"@,
        WasmType::I64 => "i64"@,
        WasmType::F32 => "f32"@,
        WasmType::F64 => "f64"@,
        WasmType::V128 => "v128"@,
        WasmType::ExternRef => "externref"@,
        WasmType::FuncRef => "funcref"@,
    }
}

impl WasmType {
    /// Renders the type by its name in the text format.
    pub fn to_string(&self) -> (text: String)
        ensures
            text@ == wasm_type_name(*self),
    {
        match self {
            WasmType::I32 => String::from_str("i32"),
            WasmType::I64 => String::from_str("i64"),
            WasmType::F32 => String::from_str("f32"),
            WasmType::F64 => String::from_str("f64"),
            WasmType::V128 => String::from_str("v128"),
            WasmType::ExternRef => String::from_str("externref"),
            WasmType::FuncRef => String::from_str("funcref"),
        }
    }
}

/// Number of `externref` entries among `types`.
pub open spec fn externref_count(types: Seq<WasmType>) -> nat {
    types.filter(|t: WasmType| t == WasmType::ExternRef).len()
}

/// WebAssembly function type: parameter and result types, with the number of
/// `externref`s among each kept alongside.
#[derive(Debug, Eq, PartialEq, Hash)]
pub struct WasmFuncType {
    params: Vec<WasmType>,
    externref_params_count: usize,
    results: Vec<WasmType>,
    externref_returns_count: usize,
}

fn count_externref(types: &[WasmType]) -> (n: usize)
    ensures
        n == externref_count(types@),
{
    let mut n: usize = 0;
    let mut i: usize = 0;
    while i < types.len()
        invariant
            i <= types.len(),
            n <= i,
            n == externref_count(types@.take(i as int)),
        decreases types.len() - i,
    {
        proof {
            reveal(Seq::filter);
            assert(types@.take(i + 1).drop_last() =~= types@.take(i as int));
        }
        if types[i] == WasmType::ExternRef {
            n = n + 1;
        }
        i = i + 1;
    }
    proof {
        assert(types@.take(i as int) =~= types@);
    }
    n
}

impl Clone for WasmFuncType {
    fn clone(&self) -> (copy: Self)
        ensures
            copy.spec_params() == self.spec_params(),
            copy.spec_results() == self.spec_results(),
    {
        proof {
            use_type_invariant(self);
        }
        let params = self.params.clone();
        let results = self.results.clone();
        assert(params@ =~= self.params@);
        assert(results@ =~= self.results@);
        WasmFuncType {
            params,
            externref_params_count: self.externref_params_count,
            results,
            externref_returns_count: self.externref_returns_count,
        }
    }
}

impl WasmFuncType {
    /// The two stored counts agree with the stored types.
    #[verifier::type_invariant]
    spec fn counts_agree(&self) -> bool {
        &&& self.externref_params_count == externref_count(self.params@)
        &&& self.externref_returns_count == externref_count(self.results@)
    }

    /// The parameter types, as a sequence.
    pub closed spec fn spec_params(&self) -> Seq<WasmType> {
        self.params@
    }

    /// The result types, as a sequence.
    pub closed spec fn spec_results(&self) -> Seq<WasmType> {
        self.results@
    }

    /// Builds a function type and counts the `externref`s on both sides.
    pub fn new(params: Box<[WasmType]>, results: Box<[WasmType]>) -> (ty: Self)
        ensures
            ty.spec_params() == params@,
            ty.spec_results() == results@,
    {
        let params = params.into_vec();
        let results = results.into_vec();
        let externref_params_count = count_externref(params.as_slice());
        let externref_returns_count = count_externref(results.as_slice());
        WasmFuncType { params, externref_params_count, results, externref_returns_count }
    }

    /// Function params types.
    pub fn params(&self) -> (p: &[WasmType])
        ensures
            p@ == self.spec_params(),
    {
        self.params.as_slice()
    }

    /// How many `externref`s are in this function's params?
    pub fn externref_params_count(&self) -> (n: usize)
        ensures
            n == externref_count(self.spec_params()),
    {
        proof {
            use_type_invariant(self);
        }
        self.externref_params_count
    }

    /// Function result types.
    pub fn results(&self) -> (r: &[WasmType])
        ensures
            r@ == self.spec_results(),
    {
        self.results.as_slice()
    }

    /// How many `externref`s are in this function's returns?
    pub fn externref_returns_count(&self) -> (n: usize)
        ensures
            n == externref_count(self.spec_results()),
    {
        proof {
            use_type_invariant(self);
        }
        self.externref_returns_count
    }
}

/// Index type of a function (imported or defined) inside the WebAssembly module.
#[derive(Copy, Clone, PartialEq, Eq, Hash, PartialOrd, Ord, Debug, Structural)]
pub struct FuncIndex(pub u32);

impl From<u32> for FuncIndex {
    fn from(v: u32) -> (idx: FuncIndex) {
        FuncIndex(v)
    }
}

impl FromSpecImpl<u32> for FuncIndex {
    open spec fn obeys_from_spec() -> bool {
        true
    }

    open spec fn from_spec(v: u32) -> FuncIndex {
        FuncIndex(v)
    }
}

/// Index type of a defined function inside the WebAssembly module.
#[derive(Copy, Clone, PartialEq, Eq, Hash, PartialOrd, Ord, Debug, Structural)]
pub struct DefinedFuncIndex(pub u32);

impl From<u32> for DefinedFuncIndex {
    fn from(v: u32) -> (idx: DefinedFuncIndex) {
        DefinedFuncIndex(v)
    }
}

impl FromSpecImpl<u32> for DefinedFuncIndex {
    open spec fn obeys_from_spec() -> bool {
        true
    }

    open spec fn from_spec(v: u32) -> DefinedFuncIndex {
        DefinedFuncIndex(v)
    }
}

/// Index type of a defined table inside the WebAssembly module.
#[derive(Copy, Clone, PartialEq, Eq, Hash, PartialOrd, Ord, Debug, Structural)]
pub struct DefinedTableIndex(pub u32);

impl From<u32> for DefinedTableIndex {
    fn from(v: u32) -> (idx: DefinedTableIndex) {
        DefinedTableIndex(v)
    }
}

impl FromSpecImpl<u32> for DefinedTableIndex {
    open spec fn obeys_from_spec() -> bool {
        true
    }

    open spec fn from_spec(v: u32) -> DefinedTableIndex {
        DefinedTableIndex(v)
    }
}

/// Index type of a defined memory inside the WebAssembly module.
#[derive(Copy, Clone, PartialEq, Eq, Hash, PartialOrd, Ord, Debug, Structural)]
pub struct DefinedMemoryIndex(pub u32);

impl From<u32> for DefinedMemoryIndex {
    fn from(v: u32) -> (idx: DefinedMemoryIndex) {
        DefinedMemoryIndex(v)
    }
}

impl FromSpecImpl<u32> for DefinedMemoryIndex {
    open spec fn obeys_from_spec() -> bool {
        true
    }

    open spec fn from_spec(v: u32) -> DefinedMemoryIndex {
        DefinedMemoryIndex(v)
    }
}

/// Index type of a memory that the module owns.
#[derive(Copy, Clone, PartialEq, Eq, Hash, PartialOrd, Ord, Debug, Structural)]
pub struct OwnedMemoryIndex(pub u32);

impl From<u32> for OwnedMemoryIndex {
    fn from(v: u32) -> (idx: OwnedMemoryIndex) {
        OwnedMemoryIndex(v)
    }
}

impl FromSpecImpl<u32> for OwnedMemoryIndex {
    open spec fn obeys_from_spec() -> bool {
        true
    }

    open spec fn from_spec(v: u32) -> OwnedMemoryIndex {
        OwnedMemoryIndex(v)
    }
}

/// Index type of a defined global inside the WebAssembly module.
#[derive(Copy, Clone, PartialEq, Eq, Hash, PartialOrd, Ord, Debug, Structural)]
pub struct DefinedGlobalIndex(pub u32);

impl From<u32> for DefinedGlobalIndex {
    fn from(v: u32) -> (idx: DefinedGlobalIndex) {
        DefinedGlobalIndex(v)
    }
}

impl FromSpecImpl<u32> for DefinedGlobalIndex {
    open spec fn obeys_from_spec() -> bool {
        true
    }

    open spec fn from_spec(v: u32) -> DefinedGlobalIndex {
        DefinedGlobalIndex(v)
    }
}

/// Index type of a table (imported or defined) inside the WebAssembly module.
#[derive(Copy, Clone, PartialEq, Eq, Hash, PartialOrd, Ord, Debug, Structural)]
pub struct TableIndex(pub u32);

impl From<u32> for TableIndex {
    fn from(v: u32) -> (idx: TableIndex) {
        TableIndex(v)
    }
}

impl FromSpecImpl<u32> for TableIndex {
    open spec fn obeys_from_spec() -> bool {
        true
    }

    open spec fn from_spec(v: u32) -> TableIndex {
        TableIndex(v)
    }
}

/// Index type of a global variable (imported or defined) inside the WebAssembly module.
#[derive(Copy, Clone, PartialEq, Eq, Hash, PartialOrd, Ord, Debug, Structural)]
pub struct GlobalIndex(pub u32);

impl From<u32> for GlobalIndex {
    fn from(v: u32) -> (idx: GlobalIndex) {
        GlobalIndex(v)
    }
}

impl FromSpecImpl<u32> for GlobalIndex {
    open spec fn obeys_from_spec() -> bool {
        true
    }

    open spec fn from_spec(v: u32) -> GlobalIndex {
        GlobalIndex(v)
    }
}

/// Index type of a linear memory (imported or defined) inside the WebAssembly module.
#[derive(Copy, Clone, PartialEq, Eq, Hash, PartialOrd, Ord, Debug, Structural)]
pub struct MemoryIndex(pub u32);

impl From<u32> for MemoryIndex {
    fn from(v: u32) -> (idx: MemoryIndex) {
        MemoryIndex(v)
    }
}

impl FromSpecImpl<u32> for MemoryIndex {
    open spec fn obeys_from_spec() -> bool {
        true
    }

    open spec fn from_spec(v: u32) -> MemoryIndex {
        MemoryIndex(v)
    }
}

/// Index type of a signature (imported or defined) inside the WebAssembly module.
#[derive(Copy, Clone, PartialEq, Eq, Hash, PartialOrd, Ord, Debug, Structural)]
pub struct SignatureIndex(pub u32);

impl From<u32> for SignatureIndex {
    fn from(v: u32) -> (idx: SignatureIndex) {
        SignatureIndex(v)
    }
}

impl FromSpecImpl<u32> for SignatureIndex {
    open spec fn obeys_from_spec() -> bool {
        true
    }

    open spec fn from_spec(v: u32) -> SignatureIndex {
        SignatureIndex(v)
    }
}

/// Index type of a passive data segment inside the WebAssembly module.
#[derive(Copy, Clone, PartialEq, Eq, Hash, PartialOrd, Ord, Debug, Structural)]
pub struct DataIndex(pub u32);

impl From<u32> for DataIndex {
    fn from(v: u32) -> (idx: DataIndex) {
        DataIndex(v)
    }
}

impl FromSpecImpl<u32> for DataIndex {
    open spec fn obeys_from_spec() -> bool {
        true
    }

    open spec fn from_spec(v: u32) -> DataIndex {
        DataIndex(v)
    }
}

/// Index type of a passive element segment inside the WebAssembly module.
#[derive(Copy, Clone, PartialEq, Eq, Hash, PartialOrd, Ord, Debug, Structural)]
pub struct ElemIndex(pub u32);

impl From<u32> for ElemIndex {
    fn from(v: u32) -> (idx: ElemIndex) {
        ElemIndex(v)
    }
}

impl FromSpecImpl<u32> for ElemIndex {
    open spec fn obeys_from_spec() -> bool {
        true
    }

    open spec fn from_spec(v: u32) -> ElemIndex {
        ElemIndex(v)
    }
}

/// Index type of a type inside the WebAssembly module.
#[derive(Copy, Clone, PartialEq, Eq, Hash, PartialOrd, Ord, Debug, Structural)]
pub struct TypeIndex(pub u32);

impl From<u32> for TypeIndex {
    fn from(v: u32) -> (idx: TypeIndex) {
        TypeIndex(v)
    }
}

impl FromSpecImpl<u32> for TypeIndex {
    open spec fn obeys_from_spec() -> bool {
        true
    }

    open spec fn from_spec(v: u32) -> TypeIndex {
        TypeIndex(v)
    }
}

/// Index type of an event inside the WebAssembly module.
#[derive(Copy, Clone, PartialEq, Eq, Hash, PartialOrd, Ord, Debug, Structural)]
pub struct TagIndex(pub u32);

impl From<u32> for TagIndex {
    fn from(v: u32) -> (idx: TagIndex) {
        TagIndex(v)
    }
}

impl FromSpecImpl<u32> for TagIndex {
    open spec fn obeys_from_spec() -> bool {
        true
    }

    open spec fn from_spec(v: u32) -> TagIndex {
        TagIndex(v)
    }
}

/// Index type of a local variable of a function: parameters first, declared locals after.
#[derive(Copy, Clone, PartialEq, Eq, Hash, PartialOrd, Ord, Debug, Structural)]
pub struct LocalIndex(pub u32);

impl From<u32> for LocalIndex {
    fn from(v: u32) -> (idx: LocalIndex) {
        LocalIndex(v)
    }
}

impl FromSpecImpl<u32> for LocalIndex {
    open spec fn obeys_from_spec() -> bool {
        true
    }

    open spec fn from_spec(v: u32) -> LocalIndex {
        LocalIndex(v)
    }
}

/// Number of enclosing blocks and loops that a branch unwinds past; 0 is the innermost one.
#[derive(Copy, Clone, PartialEq, Eq, Hash, PartialOrd, Ord, Debug, Structural)]
pub struct RelativeDepth(pub u32);

impl From<u32> for RelativeDepth {
    fn from(v: u32) -> (idx: RelativeDepth) {
        RelativeDepth(v)
    }
}

impl FromSpecImpl<u32> for RelativeDepth {
    open spec fn obeys_from_spec() -> bool {
        true
    }

    open spec fn from_spec(v: u32) -> RelativeDepth {
        RelativeDepth(v)
    }
}

/// An index of an entity.
#[derive(Copy, Clone, PartialEq, Eq, Hash, PartialOrd, Ord, Debug, Structural)]
pub enum EntityIndex {
    /// Function index.
    Function(FuncIndex),
    /// Table index.
    Table(TableIndex),
    /// Memory index.
    Memory(MemoryIndex),
    /// Global index.
    Global(GlobalIndex),
}

impl From<FuncIndex> for EntityIndex {
    fn from(idx: FuncIndex) -> (entity: EntityIndex) {
        EntityIndex::Function(idx)
    }
}

impl FromSpecImpl<FuncIndex> for EntityIndex {
    open spec fn obeys_from_spec() -> bool {
        true
    }

    open spec fn from_spec(idx: FuncIndex) -> EntityIndex {
        EntityIndex::Function(idx)
    }
}

impl From<TableIndex> for EntityIndex {
    fn from(idx: TableIndex) -> (entity: EntityIndex) {
        EntityIndex::Table(idx)
    }
}

impl FromSpecImpl<TableIndex> for EntityIndex {
    open spec fn obeys_from_spec() -> bool {
        true
    }

    open spec fn from_spec(idx: TableIndex) -> EntityIndex {
        EntityIndex::Table(idx)
    }
}

impl From<MemoryIndex> for EntityIndex {
    fn from(idx: MemoryIndex) -> (entity: EntityIndex) {
        EntityIndex::Memory(idx)
    }
}

impl FromSpecImpl<MemoryIndex> for EntityIndex {
    open spec fn obeys_from_spec() -> bool {
        true
    }

    open spec fn from_spec(idx: MemoryIndex) -> EntityIndex {
        EntityIndex::Memory(idx)
    }
}

impl From<GlobalIndex> for EntityIndex {
    fn from(idx: GlobalIndex) -> (entity: EntityIndex) {
        EntityIndex::Global(idx)
    }
}

impl FromSpecImpl<GlobalIndex> for EntityIndex {
    open spec fn obeys_from_spec() -> bool {
        true
    }

    open spec fn from_spec(idx: GlobalIndex) -> EntityIndex {
        EntityIndex::Global(idx)
    }
}

/// A type of an item in a wasm module where an item is typically something that
/// can be exported.
#[derive(Clone, Debug)]
pub enum EntityType {
    /// A global variable with the specified content type
    Global(Global),
    /// A linear memory with the specified limits
    Memory(Memory),
    /// An event definition.
    Tag(Tag),
    /// A table with the specified element type and limits
    Table(Table),
    /// A function type where the index points to the type section and records a
    /// function signature.
    Function(SignatureIndex),
}

/// A WebAssembly global.
#[derive(Debug, Clone, Copy, Hash, Eq, PartialEq, Structural)]
pub struct Global {
    /// The Wasm type of the value stored in the global.
    pub wasm_ty: WasmType,
    /// A flag indicating whether the value may change at runtime.
    pub mutability: bool,
    /// The source of the initial value.
    pub initializer: GlobalInit,
}

/// Globals are initialized via the `const` operators or by referring to another import.
#[derive(Debug, Clone, Copy, Hash, Eq, PartialEq, Structural)]
pub enum GlobalInit {
    /// An `i32.const`.
    I32Const(i32),
    /// An `i64.const`.
    I64Const(i64),
    /// An `f32.const`, by its bits.
    F32Const(u32),
    /// An `f64.const`, by its bits.
    F64Const(u64),
    /// A `vconst`.
    V128Const(u128),
    /// A `global.get` of another global.
    GetGlobal(GlobalIndex),
    /// A `ref.null`.
    RefNullConst,
    /// A `ref.func <index>`.
    RefFunc(FuncIndex),
    /// The global is imported from, and thus initialized by, a different module.
    Import,
}

impl Global {
    /// Creates a global of the given content type, mutability and initial value.
    pub fn new(wasm_ty: WasmType, mutability: bool, initializer: GlobalInit) -> (global: Global)
        ensures
            global == (Global { wasm_ty, mutability, initializer }),
    {
        Global { wasm_ty, mutability, initializer }
    }
}

/// WebAssembly table.
#[derive(Debug, Clone, Copy, Hash, Eq, PartialEq, Structural)]
pub struct Table {
    /// The table elements' Wasm type.
    pub wasm_ty: WasmType,
    /// The minimum number of elements in the table.
    pub minimum: u32,
    /// The maximum number of elements in the table.
    pub maximum: Option<u32>,
}

/// WebAssembly linear memory.
#[derive(Debug, Clone, Copy, Hash, Eq, PartialEq, Structural)]
pub struct Memory {
    /// The minimum number of pages in the memory.
    pub minimum: u64,
    /// The maximum number of pages in the memory.
    pub maximum: Option<u64>,
    /// Whether the memory may be shared between multiple threads.
    pub shared: bool,
    /// Whether or not this is a 64-bit memory
    pub memory64: bool,
}

/// WebAssembly event.
#[derive(Debug, Clone, Copy, Hash, Eq, PartialEq, Structural)]
pub struct Tag {
    /// The event signature type.
    pub ty: TypeIndex,
}

} // verus!
