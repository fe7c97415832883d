//! The intermediate representation that the lowering reads: a module of
//! functions, each a graph of basic blocks, with the types and constants
//! that their instructions mention. A frontend fills it; the lowering only
//! reads it.
use vstd::prelude::*;
use vstd::string::*;

verus! {

/// The name of a local value, of a block or of a global symbol.
#[derive(Debug)]
pub enum Name {
    /// A name given in the source.
    Name(String),
    /// A sequence number, where the source gives no name.
    Number(usize),
}

/// A type.
#[derive(Debug)]
pub enum Type {
    VoidType,
    IntegerType { bits: u32 },
    PointerType { addr_space: u32 },
    ArrayType { element_type: Box<Type>, num_elements: usize },
    StructType { element_types: Vec<Type>, is_packed: bool },
    /// A struct type given by its name in the type table.
    NamedStructType { name: String },
    FuncType { result_type: Box<Type>, param_types: Vec<Type>, is_var_arg: bool },
    /// A type of any other kind, with its text.
    Other { text: String },
}

/// What the type table holds for a name.
#[derive(Debug)]
pub enum NamedStructDef {
    /// The name is declared, its layout is not.
    Opaque,
    /// The type that the name stands for.
    Defined(Type),
}

/// One entry of the type table.
#[derive(Debug)]
pub struct NamedStruct {
    pub name: String,
    pub def: NamedStructDef,
}

/// The type table: the named struct types of a module. Where a name occurs
/// twice, its first entry is the one that counts.
#[derive(Debug)]
pub struct Types {
    pub named_struct_defs: Vec<NamedStruct>,
}

/// A constant.
#[derive(Debug)]
#[allow(inconsistent_fields)]
pub enum Constant {
    Int { bits: u32, value: u64 },
    Null(Type),
    AggregateZero(Type),
    Struct { name: Option<String>, values: Vec<Constant>, is_packed: bool },
    Array { element_type: Type, elements: Vec<Constant> },
    Undef(Type),
    Poison(Type),
    /// The address of the global symbol `name`, whose value has type `ty`.
    GlobalReference { name: Name, ty: Type },
    PtrToInt { operand: Box<Constant>, to_type: Type },
    IntToPtr { operand: Box<Constant>, to_type: Type },
    /// A constant of any other kind, with its text.
    Other { text: String },
}

/// An operand of an instruction.
#[derive(Debug)]
pub enum Operand {
    LocalOperand { name: Name, ty: Type },
    ConstantOperand(Constant),
    MetadataOperand,
}

/// What a call instruction calls.
#[derive(Debug)]
pub enum Callee {
    InlineAssembly,
    Operand(Operand),
}

/// A call of `function` on `arguments`, whose result is named `dest`.
#[derive(Debug)]
pub struct Call {
    pub function: Callee,
    pub arguments: Vec<Operand>,
    pub dest: Option<Name>,
}

/// A stack allocation of `num_elements` values of `allocated_type`.
#[derive(Debug)]
pub struct Alloca {
    pub allocated_type: Type,
    pub num_elements: Operand,
    pub dest: Name,
}

/// A read of the part of `aggregate` at `indices`.
#[derive(Debug)]
pub struct ExtractValue {
    pub aggregate: Operand,
    pub indices: Vec<u32>,
    pub dest: Name,
}

/// A write of `element` to the part of `aggregate` at `indices`.
#[derive(Debug)]
pub struct InsertValue {
    pub aggregate: Operand,
    pub element: Operand,
    pub indices: Vec<u32>,
    pub dest: Name,
}

/// A choice between two values by a condition.
#[derive(Debug)]
pub struct Select {
    pub condition: Operand,
    pub true_value: Operand,
    pub false_value: Operand,
    pub dest: Name,
}

/// A cast of an integer to a pointer.
#[derive(Debug)]
pub struct IntToPtr {
    pub operand: Operand,
    pub to_type: Type,
    pub dest: Name,
}

/// A cast of a pointer to an integer.
#[derive(Debug)]
pub struct PtrToInt {
    pub operand: Operand,
    pub to_type: Type,
    pub dest: Name,
}

/// One incoming value of a phi, with the block it comes from.
#[derive(Debug)]
pub struct Incoming {
    pub value: Operand,
    pub block: Name,
}

/// A value that depends on the block that control came from.
#[derive(Debug)]
pub struct Phi {
    pub incoming_values: Vec<Incoming>,
    pub dest: Name,
    pub to_type: Type,
}

/// An instruction.
#[derive(Debug)]
pub enum Instruction {
    ExtractValue(ExtractValue),
    InsertValue(InsertValue),
    Alloca(Alloca),
    Phi(Phi),
    Call(Call),
    Select(Select),
    IntToPtr(IntToPtr),
    PtrToInt(PtrToInt),
    /// An instruction of any other kind, with its text.
    Other { text: String },
}

/// A return, with the returned value if there is one.
#[derive(Debug)]
pub struct Ret {
    pub return_operand: Option<Operand>,
}

/// A branch to `dest`.
#[derive(Debug)]
pub struct Br {
    pub dest: Name,
}

/// A branch to `true_dest` where `condition` is not zero, else to `false_dest`.
#[derive(Debug)]
pub struct CondBr {
    pub condition: Operand,
    pub true_dest: Name,
    pub false_dest: Name,
}

/// One case of a switch terminator.
#[derive(Debug)]
pub struct SwitchDest {
    pub value: Constant,
    pub dest: Name,
}

/// A branch to the destination whose value `operand` has, or to `default_dest`.
#[derive(Debug)]
pub struct Switch {
    pub operand: Operand,
    pub dests: Vec<SwitchDest>,
    pub default_dest: Name,
}

/// The instruction that ends a block.
#[derive(Debug)]
pub enum Terminator {
    Ret(Ret),
    Br(Br),
    CondBr(CondBr),
    Switch(Switch),
    Unreachable,
    /// A terminator of any other kind, with its text.
    Other { text: String },
}

/// A basic block: instructions in order, and the terminator that ends them.
#[derive(Debug)]
pub struct BasicBlock {
    pub name: Name,
    pub instrs: Vec<Instruction>,
    pub term: Terminator,
}

/// A parameter of a function.
#[derive(Debug)]
pub struct Parameter {
    pub name: Name,
    pub ty: Type,
}

/// A function with a body. Its name is its identity.
#[derive(Debug)]
pub struct Function {
    pub name: String,
    pub parameters: Vec<Parameter>,
    pub return_type: Type,
    pub basic_blocks: Vec<BasicBlock>,
}

/// A module: its functions in order, and its type table.
#[derive(Debug)]
pub struct Module {
    pub functions: Vec<Function>,
    pub types: Types,
}

/// The functions that one function may call.
#[derive(Debug)]
pub struct Callees {
    pub caller: String,
    pub callees: Vec<String>,
}

/// The call graph of a module, as a call-graph analysis gives it: for each
/// function its direct callees. Where a caller occurs twice, its first entry
/// is the one that counts; a function without an entry calls nothing.
#[derive(Debug)]
pub struct CallGraph {
    pub nodes: Vec<Callees>,
}

/// The block at which a function starts.
#[derive(Debug)]
pub struct EntryBlock {
    pub function: String,
    pub block: Name,
}

/// What the analyses of a module give the lowering: the call graph, and the
/// entry block of each function. Where a function occurs twice among the
/// entries, its first entry is the one that counts.
#[derive(Debug)]
pub struct ModuleAnalysis {
    pub call_graph: CallGraph,
    pub entries: Vec<EntryBlock>,
}

/// What a name holds.
pub enum NameView {
    Name(Seq<char>),
    Number(usize),
}

impl View for Name {
    type V = NameView;

    open spec fn view(&self) -> NameView {
        match self {
            Name::Name(s) => NameView::Name(s@),
            Name::Number(n) => NameView::Number(*n),
        }
    }
}

impl Name {
    /// Whether two names are the same.
    pub fn same(&self, other: &Name) -> (r: bool)
        ensures
            r == (self@ == other@),
    {
        match self {
            Name::Name(a) => match other {
                Name::Name(b) => crate::text::str_eq(a.as_str(), b.as_str()),
                Name::Number(_) => false,
            },
            Name::Number(a) => match other {
                Name::Name(_) => false,
                Name::Number(b) => *a == *b,
            },
        }
    }
}

/// The entry of the type table that counts for `name`, looking from
/// position `from` on.
pub open spec fn find_def(defs: Seq<NamedStruct>, name: Seq<char>, from: int) -> Option<
    NamedStructDef,
>
    decreases defs.len() - from,
{
    if from < 0 || from >= defs.len() {
        None
    } else if defs[from].name@ == name {
        Some(defs[from].def)
    } else {
        find_def(defs, name, from + 1)
    }
}

impl Types {
    /// What the table holds for `name`.
    pub open spec fn def_of(&self, name: Seq<char>) -> Option<NamedStructDef> {
        find_def(self.named_struct_defs@, name, 0)
    }

    /// What the table holds for `name`, if anything.
    pub fn named_struct_def(&self, name: &str) -> (r: Option<&NamedStructDef>)
        ensures
            match r {
                Some(d) => self.def_of(name@) == Some(*d),
                None => self.def_of(name@) is None,
            },
    {
        let n = self.named_struct_defs.len();
        let mut i: usize = 0;
        while i < n
            invariant
                i <= n,
                n == self.named_struct_defs.len(),
                self.def_of(name@) == find_def(self.named_struct_defs@, name@, i as int),
            decreases n - i,
        {
            if crate::text::str_eq(self.named_struct_defs[i].name.as_str(), name) {
                return Some(&self.named_struct_defs[i].def);
            }
            i += 1;
        }
        None
    }
}

} // verus!
