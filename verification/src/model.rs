//! A compiled Verilog-A module, as far as its JSON output depends on it.
//!
//! Entities of the compiler appear by what is written of them: nodes, branches,
//! parameters and variables by their names, SSA values, blocks, functions,
//! cache slots, opcodes and unknowns by the text that stands for them.

use vstd::prelude::*;

verus! {

/// A node of the circuit, or a terminal of the module.
#[derive(Debug)]
pub struct Node {
    pub name: String,
}

/// What a named branch connects.
#[derive(Debug)]
pub enum BranchKind {
    /// Two nodes.
    Nodes(Node, Node),
    /// A node and ground.
    NodeGnd(Node),
    /// The flow into a terminal.
    PortFlow(Node),
}

/// A named branch.
#[derive(Debug)]
pub struct Branch {
    pub name: String,
    pub kind: BranchKind,
}

/// The place where a current is probed.
#[derive(Debug)]
pub enum CurrentKind {
    Branch(Branch),
    Unnamed { hi: Node, lo: Option<Node> },
    Port(Node),
}

/// A model parameter.
#[derive(Debug)]
pub struct Parameter {
    pub name: String,
}

/// A variable of the module.
#[derive(Debug)]
pub struct Variable {
    pub name: String,
}

/// A parameter that the simulator supplies, such as `$mfactor`, by its text.
#[derive(Debug)]
pub struct ParamSysFun {
    pub text: String,
}

/// An equation that the compiler introduced, by its number and its text.
#[derive(Debug)]
pub struct ImplicitEquation {
    pub index: usize,
    pub text: String,
}

/// What an argument of a compiled function stands for.
#[derive(Debug)]
pub enum ParamKind {
    Voltage { hi: Node, lo: Option<Node> },
    Current(CurrentKind),
    Param(Parameter),
    ParamGiven { param: Parameter },
    Temperature,
    Abstime,
    ParamSysFun(ParamSysFun),
    HiddenState(Variable),
    PortConnected { port: Node },
    PrevState(usize),
    NewState(usize),
    EnableLim,
    EnableIntegration,
    ImplicitUnknown(ImplicitEquation),
}

/// A function of the simulator that compiled code calls.
#[derive(Debug)]
pub enum CallBackKind {
    TimeDerivative,
    NodeDerivative(Node),
    Derivative,
    SimParam,
    SimParamOpt,
    SimParamStr,
    Analysis,
    CollapseHint(Node, Option<Node>),
    StoreLimit,
    LimDiscontinuity,
    BuiltinLimit,
    WhiteNoise,
    FlickerNoise,
    Print,
    ParamInfo,
    SetRetFlag,
    NoiseTable,
}

/// An SSA value, by its number and its text.
#[derive(Debug)]
pub struct Value {
    pub index: u32,
    pub text: String,
}

/// A basic block, by its text.
#[derive(Debug)]
pub struct Block {
    pub text: String,
}

/// A called function, by its text.
#[derive(Debug)]
pub struct FuncRef {
    pub text: String,
}

/// An opcode, by its text.
#[derive(Debug)]
pub struct Opcode {
    pub text: String,
}

/// A cache slot, by its text.
#[derive(Debug)]
pub struct CacheSlot {
    pub text: String,
}

/// A double-precision constant: its IEEE 754 bits, and its decimal text, which
/// is used only where the constant is finite.
#[derive(Debug)]
pub struct FloatConst {
    pub bits: u64,
    pub text: String,
}

/// A constant.
#[derive(Debug)]
pub enum Const {
    Float(FloatConst),
    Int(i32),
    Bool(bool),
    /// A string literal, by its number in the interner.
    Str(usize),
}

/// Where an SSA value comes from.
#[derive(Debug)]
pub enum ValueDef {
    /// The argument of the function with this number.
    Param(usize),
    Const(Const),
    /// The result of an instruction, or nothing.
    Other,
}

/// What an instruction does.
#[derive(Debug)]
pub enum InstructionData {
    Unary { opcode: Opcode, arg: Value },
    Binary { opcode: Opcode, lhs: Value, rhs: Value },
    Branch { cond: Value, then_dst: Block, else_dst: Block },
    Jump { destination: Block },
    Exit,
    /// The incoming edges.
    PhiNode(Vec<(Block, Value)>),
    Call { func_ref: FuncRef, args: Vec<Value> },
}

/// An instruction and the values that it defines.
#[derive(Debug)]
pub struct Inst {
    pub results: Vec<Value>,
    pub data: InstructionData,
}

/// A basic block with its instructions in order.
#[derive(Debug)]
pub struct BlockLayout {
    pub block: Block,
    pub insts: Vec<Inst>,
}

/// A compiled function: all its values, and its blocks in order.
#[derive(Debug)]
pub struct Function {
    pub values: Vec<(Value, ValueDef)>,
    pub layout: Vec<BlockLayout>,
}

/// What the arguments and the called functions of a compiled function stand for.
#[derive(Debug)]
pub struct HirInterner {
    pub params: Vec<(ParamKind, Value)>,
    pub callbacks: Vec<CallBackKind>,
}

/// An unknown of the equation system.
#[derive(Debug)]
pub enum SimUnknownKind {
    KirchoffLaw(Node),
    Current(CurrentKind),
    Implicit(ImplicitEquation),
}

/// A reference to an unknown, by its number and its text.
#[derive(Debug)]
pub struct SimUnknown {
    pub index: usize,
    pub text: String,
}

/// The nature of a residual.
#[derive(Debug, Clone, Copy)]
pub enum ResidualNatureKind {
    Flow,
    Potential,
    Switch,
}

/// The residual of one equation.
#[derive(Debug)]
pub struct Residual {
    pub resist: Value,
    pub react: Value,
    pub resist_small_signal: Value,
    pub react_small_signal: Value,
    pub resist_lim_rhs: Value,
    pub react_lim_rhs: Value,
    pub nature_kind: ResidualNatureKind,
}

/// One entry of the Jacobian.
#[derive(Debug)]
pub struct MatrixEntry {
    pub row: SimUnknown,
    pub col: SimUnknown,
    pub resist: Value,
    pub react: Value,
}

/// The equation system.
#[derive(Debug)]
pub struct DaeSystem {
    pub unknowns: Vec<SimUnknownKind>,
    pub residual: Vec<Residual>,
    pub jacobian: Vec<MatrixEntry>,
    pub num_resistive: u32,
    pub num_reactive: u32,
    /// The number of noise sources.
    pub num_noise_sources: usize,
    /// The value that stands for the constant zero.
    pub zero: Value,
}

/// The setup of an instance: its function, and where its results are cached.
#[derive(Debug)]
pub struct Initialization {
    pub func: Function,
    pub intern: HirInterner,
    pub cached_vals: Vec<(Value, CacheSlot)>,
}

/// The declaration of a module.
#[derive(Debug)]
pub struct ModuleInfo {
    pub name: String,
    pub ports: Vec<Node>,
    pub internal_nodes: Vec<Node>,
}

/// A compiled module.
#[derive(Debug)]
pub struct CompiledModule {
    pub info: ModuleInfo,
    pub dae_system: DaeSystem,
    pub eval: Function,
    pub intern: HirInterner,
    pub init: Initialization,
    pub model_param_setup: Function,
    pub model_param_intern: HirInterner,
}

} // verus!
