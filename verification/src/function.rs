//! Compiled functions.

use lasso::Rodeo;
use vstd::prelude::*;

use crate::args::sorted_args;
#[allow(unused_imports)]
use crate::args::{args_of, by_number};
use crate::branches::BranchReg;
#[allow(unused_imports)]
use crate::branches::Ends;
use crate::builder::{ArrayWriter, ObjectWriter};
use crate::json::{jstr, quoted, Layout};
#[allow(unused_imports)]
use crate::json::{escaped, render, Doc, Members};
#[allow(unused_imports)]
use crate::literals::interned;
use crate::literals::resolve;
use crate::model::{
    Block, BlockLayout, CacheSlot, CallBackKind, Const, FloatConst, Function, HirInterner, Inst,
    InstructionData, ParamKind, Value, ValueDef,
};
use crate::params::{callback_name, param_kind_json};
#[allow(unused_imports)]
use crate::params::{callback_text, known_after_param, param_doc};
#[allow(unused_imports)]
use crate::text::{decimal_text, signed_text};
use crate::text::{decimal, signed_decimal};

verus! {

/// Two to the power of fifty-two: what the exponent of a double is a multiple of.
pub const FRACTION_RANGE: u64 = 0x10_0000_0000_0000;

/// The number of exponents of a double.
pub const EXPONENT_RANGE: u64 = 0x800;

/// The biased exponent of a double.
pub open spec fn exponent(bits: u64) -> int {
    (bits as int / FRACTION_RANGE as int) % EXPONENT_RANGE as int
}

/// The fraction bits of a double.
pub open spec fn fraction(bits: u64) -> int {
    bits as int % FRACTION_RANGE as int
}

/// Whether the sign bit of a double is set.
pub open spec fn is_negative(bits: u64) -> bool {
    bits as int >= FRACTION_RANGE * EXPONENT_RANGE
}

/// A double that is neither infinite nor not-a-number.
pub open spec fn is_finite(bits: u64) -> bool {
    exponent(bits) != EXPONENT_RANGE - 1
}

/// An infinite double.
pub open spec fn is_infinite(bits: u64) -> bool {
    exponent(bits) == EXPONENT_RANGE - 1 && fraction(bits) == 0
}

/// A floating-point constant: its decimal text where it is finite, else a
/// string, as JSON has no literal for it.
pub open spec fn float_doc(value: FloatConst) -> Doc {
    if is_finite(value.bits) {
        Doc::Num(value.text@)
    } else if is_infinite(value.bits) {
        if is_negative(value.bits) {
            Doc::Str("__neginf__"@)
        } else {
            Doc::Str("__inf__"@)
        }
    } else {
        Doc::Str("__nan__"@)
    }
}

/// The entry for a value that is a floating-point constant.
pub open spec fn float_member(entry: (Value, ValueDef)) -> Option<(Seq<char>, Doc)> {
    match entry.1 {
        ValueDef::Const(Const::Float(value)) => Some((entry.0.text@, float_doc(value))),
        _ => None,
    }
}

/// The entry for a value that is an integer constant.
pub open spec fn int_member(entry: (Value, ValueDef)) -> Option<(Seq<char>, Doc)> {
    match entry.1 {
        ValueDef::Const(Const::Int(value)) => Some(
            (entry.0.text@, Doc::Num(signed_text(value as int))),
        ),
        _ => None,
    }
}

/// The entry for a value that is a truth value.
pub open spec fn bool_member(entry: (Value, ValueDef)) -> Option<(Seq<char>, Doc)> {
    match entry.1 {
        ValueDef::Const(Const::Bool(value)) => Some((entry.0.text@, Doc::Bool(value))),
        _ => None,
    }
}

/// The entry for a value that is a string literal, from the interned strings.
pub open spec fn str_member(entry: (Value, ValueDef), strings: Seq<Seq<char>>) -> Option<
    (Seq<char>, Doc),
> {
    match entry.1 {
        ValueDef::Const(Const::Str(number)) => Some(
            (entry.0.text@, Doc::Str(escaped(strings[number as int]))),
        ),
        _ => None,
    }
}

/// The entries that `entry_of` gives for the values of a function, in order.
pub open spec fn picked(
    values: Seq<(Value, ValueDef)>,
    entry_of: spec_fn((Value, ValueDef)) -> Option<(Seq<char>, Doc)>,
) -> Members
    decreases values.len(),
{
    if values.len() == 0 {
        Seq::empty()
    } else {
        let before = picked(values.drop_last(), entry_of);
        match entry_of(values.last()) {
            Some(entry) => before.push(entry),
            None => before,
        }
    }
}

/// The entries for the floating-point constants among the values.
pub open spec fn float_members(values: Seq<(Value, ValueDef)>) -> Members {
    picked(values, |entry: (Value, ValueDef)| float_member(entry))
}

/// The entries for the integer constants among the values.
pub open spec fn int_members(values: Seq<(Value, ValueDef)>) -> Members {
    picked(values, |entry: (Value, ValueDef)| int_member(entry))
}

/// The entries for the truth values among the values.
pub open spec fn bool_members(values: Seq<(Value, ValueDef)>) -> Members {
    picked(values, |entry: (Value, ValueDef)| bool_member(entry))
}

/// The entries for the string literals among the values.
pub open spec fn str_members(values: Seq<(Value, ValueDef)>, strings: Seq<Seq<char>>) -> Members {
    picked(values, |entry: (Value, ValueDef)| str_member(entry, strings))
}

/// The constants of a function: the floating-point numbers, the integers, the
/// truth values and the strings, each in the order of the values.
pub open spec fn constants_doc(func: Function, strings: Seq<Seq<char>>) -> Doc {
    Doc::Obj(
        Layout::Lines(6),
        float_members(func.values@) + int_members(func.values@) + bool_members(func.values@)
            + str_members(func.values@, strings),
    )
}

/// Every string literal of a function is one of the interned strings.
pub open spec fn literals_known(func: Function, strings: Seq<Seq<char>>) -> bool {
    forall|i: int|
        0 <= i < func.values@.len() ==> literal_known(#[trigger] func.values@[i].1, strings)
}

/// A value that is a string literal is one of the interned strings.
pub open spec fn literal_known(def: ValueDef, strings: Seq<Seq<char>>) -> bool {
    match def {
        ValueDef::Const(Const::Str(number)) => number < strings.len(),
        _ => true,
    }
}

/// The result of an instruction, or null.
pub open spec fn result_doc(results: Seq<Value>) -> Doc {
    if results.len() == 0 {
        Doc::Null
    } else {
        Doc::Str(results[0].text@)
    }
}

/// A list of values.
pub open spec fn values_doc(values: Seq<Value>) -> Doc {
    Doc::Arr(Layout::Spaced, Seq::new(values.len(), |i: int| Doc::Str(values[i].text@)))
}

/// An incoming edge of a phi instruction.
pub open spec fn edge_doc(edge: (Block, Value)) -> Doc {
    Doc::Obj(
        Layout::Spaced,
        seq![("value"@, Doc::Str(edge.1.text@)), ("block"@, Doc::Str(edge.0.text@))],
    )
}

/// The incoming edges of a phi instruction.
pub open spec fn edges_doc(edges: Seq<(Block, Value)>) -> Doc {
    Doc::Arr(Layout::Spaced, Seq::new(edges.len(), |i: int| edge_doc(edges[i])))
}

/// An instruction.
pub open spec fn inst_doc(inst: Inst) -> Doc {
    let result = ("result"@, result_doc(inst.results@));
    Doc::Obj(
        Layout::Spaced,
        match inst.data {
            InstructionData::Unary { opcode, arg } => seq![
                result,
                ("opcode"@, Doc::Str(opcode.text@)),
                ("operands"@, Doc::Arr(Layout::Spaced, seq![Doc::Str(arg.text@)])),
            ],
            InstructionData::Binary { opcode, lhs, rhs } => seq![
                result,
                ("opcode"@, Doc::Str(opcode.text@)),
                (
                    "operands"@,
                    Doc::Arr(Layout::Spaced, seq![Doc::Str(lhs.text@), Doc::Str(rhs.text@)]),
                ),
            ],
            InstructionData::Branch { cond, then_dst, else_dst } => seq![
                result,
                ("opcode"@, Doc::Str("br"@)),
                ("condition"@, Doc::Str(cond.text@)),
                ("true_block"@, Doc::Str(then_dst.text@)),
                ("false_block"@, Doc::Str(else_dst.text@)),
            ],
            InstructionData::Jump { destination } => seq![
                result,
                ("opcode"@, Doc::Str("jmp"@)),
                ("targets"@, Doc::Arr(Layout::Spaced, seq![Doc::Str(destination.text@)])),
            ],
            InstructionData::Exit => seq![
                result,
                ("opcode"@, Doc::Str("exit"@)),
                ("operands"@, Doc::Arr(Layout::Spaced, Seq::empty())),
            ],
            InstructionData::PhiNode(edges) => seq![
                result,
                ("opcode"@, Doc::Str("phi"@)),
                ("phi_edges"@, edges_doc(edges@)),
            ],
            InstructionData::Call { func_ref, args } => seq![
                result,
                ("opcode"@, Doc::Str("call"@)),
                ("call_target"@, Doc::Str(func_ref.text@)),
                ("operands"@, values_doc(args@)),
            ],
        },
    )
}

/// The instructions of a basic block, in order.
pub open spec fn insts_doc(insts: Seq<Inst>) -> Doc {
    Doc::Arr(Layout::Lines(8), Seq::new(insts.len(), |i: int| inst_doc(insts[i])))
}

/// A basic block.
pub open spec fn block_doc(block: BlockLayout) -> Doc {
    Doc::Obj(
        Layout::Spaced,
        seq![
            ("label"@, Doc::Str(block.block.text@)),
            ("insts"@, insts_doc(block.insts@)),
        ],
    )
}

/// The basic blocks of a function, in order.
pub open spec fn blocks_doc(func: Function) -> Doc {
    Doc::Arr(
        Layout::Lines(6),
        Seq::new(func.layout@.len(), |i: int| block_doc(func.layout@[i])),
    )
}

/// The values that hold the arguments of a function, by number.
pub open spec fn args_doc(func: Function) -> Doc {
    let args = by_number(args_of(func.values@));
    Doc::Arr(Layout::Spaced, Seq::new(args.len(), |i: int| Doc::Str(args[i].1)))
}

/// The branches that have a number once the first `n` arguments have been described.
pub open spec fn known_after_params(
    params: Seq<(ParamKind, Value)>,
    n: int,
    known: Seq<Ends>,
) -> Seq<Ends>
    decreases n,
{
    if n <= 0 {
        known
    } else {
        known_after_param(params[n - 1].0, known_after_params(params, n - 1, known))
    }
}

/// The entry for the argument with the given place in the list, under the value that holds it.
pub open spec fn param_member(
    params: Seq<(ParamKind, Value)>,
    i: int,
    known: Seq<Ends>,
) -> (Seq<char>, Doc) {
    (
        params[i].1.text@,
        param_doc(params[i].0, i as u32, known_after_params(params, i, known)),
    )
}

/// What the arguments of a function stand for, with the branches that have a
/// number before any of them is described.
pub open spec fn params_doc(params: Seq<(ParamKind, Value)>, known: Seq<Ends>) -> Doc {
    Doc::Obj(
        Layout::Lines(6),
        Seq::new(params.len(), |i: int| param_member(params, i, known)),
    )
}

/// The declaration of the called function with the given place in the list.
pub open spec fn call_decl_doc(index: int, kind: CallBackKind) -> Doc {
    Doc::Obj(
        Layout::Spaced,
        seq![
            ("name"@, Doc::Str("inst"@ + decimal_text(index as nat))),
            ("raw"@, Doc::Str("fn %"@ + callback_text(kind))),
        ],
    )
}

/// The functions that a function calls.
pub open spec fn call_decls_doc(callbacks: Seq<CallBackKind>) -> Doc {
    Doc::Arr(
        Layout::Lines(6),
        Seq::new(callbacks.len(), |i: int| call_decl_doc(i, callbacks[i])),
    )
}

/// A cached value and its slot.
pub open spec fn cached_doc(entry: (Value, CacheSlot)) -> Doc {
    Doc::Obj(
        Layout::Spaced,
        seq![("init_value"@, Doc::Str(entry.0.text@)), ("cslot"@, Doc::Str(entry.1.text@))],
    )
}

/// The cached values; a function without a cache has none.
pub open spec fn cache_mapping_doc(mapping: Seq<(Value, CacheSlot)>) -> Doc {
    Doc::Arr(Layout::Lines(6), Seq::new(mapping.len(), |i: int| cached_doc(mapping[i])))
}

/// The pairs of a cache mapping, where there is one.
pub open spec fn mapping_entries(mapping: Option<&Vec<(Value, CacheSlot)>>) -> Seq<
    (Value, CacheSlot),
> {
    match mapping {
        Some(mapping) => mapping@,
        None => Seq::empty(),
    }
}

/// A compiled function, with the branches that have a number before it is written.
pub open spec fn function_doc(
    name: Seq<char>,
    func: Function,
    intern: HirInterner,
    strings: Seq<Seq<char>>,
    mapping: Seq<(Value, CacheSlot)>,
    known: Seq<Ends>,
) -> Doc {
    Doc::Obj(
        Layout::Lines(4),
        seq![
            ("name"@, Doc::Str(name)),
            ("args"@, args_doc(func)),
            ("params"@, params_doc(intern.params@, known)),
            ("constants"@, constants_doc(func, strings)),
            ("call_decls"@, call_decls_doc(intern.callbacks@)),
            ("blocks"@, blocks_doc(func)),
            ("cache_mapping"@, cache_mapping_doc(mapping)),
        ],
    )
}

/// The branches that have a number once a function has been written.
pub open spec fn known_after_function(intern: HirInterner, known: Seq<Ends>) -> Seq<Ends> {
    known_after_params(intern.params@, intern.params@.len() as int, known)
}

/// Describing more arguments never takes a branch out of the list.
pub proof fn lemma_params_add_branches(
    params: Seq<(ParamKind, Value)>,
    n: int,
    m: int,
    known: Seq<Ends>,
)
    requires
        n <= m,
    ensures
        known_after_params(params, n, known).len() <= known_after_params(params, m, known).len(),
    decreases m - n,
{
    if 0 < m && n < m {
        lemma_params_add_branches(params, n, m - 1, known);
    }
}

/// Writes a floating-point constant.
fn float_text(value: &FloatConst) -> (res: String)
    ensures
        res@ == render(float_doc(*value)),
{
    let above: u64 = value.bits / FRACTION_RANGE;
    let exponent: u64 = above % EXPONENT_RANGE;
    let fraction: u64 = value.bits % FRACTION_RANGE;
    if exponent != EXPONENT_RANGE - 1 {
        value.text.clone()
    } else if fraction == 0 {
        if above >= EXPONENT_RANGE {
            quoted("__neginf__")
        } else {
            quoted("__inf__")
        }
    } else {
        quoted("__nan__")
    }
}

/// Appends the entries for the floating-point constants among the values.
fn put_floats(values: &Vec<(Value, ValueDef)>, out: &mut ObjectWriter)
    requires
        old(out).wf(),
    ensures
        final(out).wf(),
        final(out).layout() == old(out).layout(),
        final(out)@ == old(out)@ + float_members(values@),
{
    let mut i: usize = 0;
    assert(out@ =~= old(out)@ + float_members(values@.take(0)));
    while i < values.len()
        invariant
            i <= values.len(),
            out.wf(),
            out.layout() == old(out).layout(),
            out@ == old(out)@ + float_members(values@.take(i as int)),
        decreases values.len() - i,
    {
        let entry = &values[i];
        assert(values@.take(i + 1).drop_last() =~= values@.take(i as int));
        if let ValueDef::Const(Const::Float(value)) = &entry.1 {
            let text = float_text(value);
            out.put(entry.0.text.as_str(), text.as_str(), Ghost(float_doc(*value)));
        }
        assert(out@ =~= old(out)@ + float_members(values@.take(i + 1)));
        i += 1;
    }
    assert(values@.take(i as int) =~= values@);
}

/// Appends the entries for the integer constants among the values.
fn put_ints(values: &Vec<(Value, ValueDef)>, out: &mut ObjectWriter)
    requires
        old(out).wf(),
    ensures
        final(out).wf(),
        final(out).layout() == old(out).layout(),
        final(out)@ == old(out)@ + int_members(values@),
{
    let mut i: usize = 0;
    assert(out@ =~= old(out)@ + int_members(values@.take(0)));
    while i < values.len()
        invariant
            i <= values.len(),
            out.wf(),
            out.layout() == old(out).layout(),
            out@ == old(out)@ + int_members(values@.take(i as int)),
        decreases values.len() - i,
    {
        let entry = &values[i];
        assert(values@.take(i + 1).drop_last() =~= values@.take(i as int));
        if let ValueDef::Const(Const::Int(value)) = &entry.1 {
            let text = signed_decimal(*value);
            out.put(
                entry.0.text.as_str(),
                text.as_str(),
                Ghost(Doc::Num(signed_text(*value as int))),
            );
        }
        assert(out@ =~= old(out)@ + int_members(values@.take(i + 1)));
        i += 1;
    }
    assert(values@.take(i as int) =~= values@);
}

/// Appends the entries for the truth values among the values.
fn put_bools(values: &Vec<(Value, ValueDef)>, out: &mut ObjectWriter)
    requires
        old(out).wf(),
    ensures
        final(out).wf(),
        final(out).layout() == old(out).layout(),
        final(out)@ == old(out)@ + bool_members(values@),
{
    let mut i: usize = 0;
    assert(out@ =~= old(out)@ + bool_members(values@.take(0)));
    while i < values.len()
        invariant
            i <= values.len(),
            out.wf(),
            out.layout() == old(out).layout(),
            out@ == old(out)@ + bool_members(values@.take(i as int)),
        decreases values.len() - i,
    {
        let entry = &values[i];
        assert(values@.take(i + 1).drop_last() =~= values@.take(i as int));
        if let ValueDef::Const(Const::Bool(value)) = &entry.1 {
            out.put_bool(entry.0.text.as_str(), *value);
        }
        assert(out@ =~= old(out)@ + bool_members(values@.take(i + 1)));
        i += 1;
    }
    assert(values@.take(i as int) =~= values@);
}

/// Appends the entries for the string literals among the values.
fn put_strs(values: &Vec<(Value, ValueDef)>, literals: &Rodeo, out: &mut ObjectWriter)
    requires
        old(out).wf(),
        forall|i: int|
            0 <= i < values@.len() ==> literal_known(#[trigger] values@[i].1, interned(*literals)),
    ensures
        final(out).wf(),
        final(out).layout() == old(out).layout(),
        final(out)@ == old(out)@ + str_members(values@, interned(*literals)),
{
    let mut i: usize = 0;
    assert(out@ =~= old(out)@ + str_members(values@.take(0), interned(*literals)));
    while i < values.len()
        invariant
            i <= values.len(),
            out.wf(),
            out.layout() == old(out).layout(),
            out@ == old(out)@ + str_members(values@.take(i as int), interned(*literals)),
            forall|j: int|
                0 <= j < values@.len() ==> literal_known(
                    #[trigger] values@[j].1,
                    interned(*literals),
                ),
        decreases values.len() - i,
    {
        let entry = &values[i];
        assert(values@.take(i + 1).drop_last() =~= values@.take(i as int));
        if let ValueDef::Const(Const::Str(value)) = &entry.1 {
            assert(literal_known(values@[i as int].1, interned(*literals)));
            let text = jstr(resolve(literals, *value));
            out.put_str(entry.0.text.as_str(), text.as_str());
        }
        assert(out@ =~= old(out)@ + str_members(values@.take(i + 1), interned(*literals)));
        i += 1;
    }
    assert(values@.take(i as int) =~= values@);
}

/// Writes the constants of a function.
pub fn emit_constants(func: &Function, literals: &Rodeo) -> (res: String)
    requires
        literals_known(*func, interned(*literals)),
    ensures
        res@ == render(constants_doc(*func, interned(*literals))),
{
    let mut out = ObjectWriter::new(Layout::Lines(6));
    put_floats(&func.values, &mut out);
    put_ints(&func.values, &mut out);
    put_bools(&func.values, &mut out);
    put_strs(&func.values, literals, &mut out);
    out.finish(Ghost(constants_doc(*func, interned(*literals))))
}

/// Writes a list of values.
fn values_text(values: &Vec<Value>) -> (res: String)
    ensures
        res@ == render(values_doc(values@)),
{
    let mut out = ArrayWriter::new(Layout::Spaced);
    let mut i: usize = 0;
    while i < values.len()
        invariant
            i <= values.len(),
            out.wf(),
            out.layout() == Layout::Spaced,
            out@.len() == i,
            forall|j: int| 0 <= j < i ==> #[trigger] out@[j] == Doc::Str(values@[j].text@),
        decreases values.len() - i,
    {
        out.put_str(values[i].text.as_str());
        i += 1;
    }
    out.finish(Ghost(values_doc(values@)))
}

/// Writes an incoming edge of a phi instruction.
fn edge_text(edge: &(Block, Value)) -> (res: String)
    ensures
        res@ == render(edge_doc(*edge)),
{
    let mut out = ObjectWriter::new(Layout::Spaced);
    out.put_str("value", edge.1.text.as_str());
    out.put_str("block", edge.0.text.as_str());
    out.finish(Ghost(edge_doc(*edge)))
}

/// Writes the incoming edges of a phi instruction.
fn edges_text(edges: &Vec<(Block, Value)>) -> (res: String)
    ensures
        res@ == render(edges_doc(edges@)),
{
    let mut out = ArrayWriter::new(Layout::Spaced);
    let mut i: usize = 0;
    while i < edges.len()
        invariant
            i <= edges.len(),
            out.wf(),
            out.layout() == Layout::Spaced,
            out@.len() == i,
            forall|j: int| 0 <= j < i ==> #[trigger] out@[j] == edge_doc(edges@[j]),
        decreases edges.len() - i,
    {
        let text = edge_text(&edges[i]);
        out.put(text, Ghost(edge_doc(edges@[i as int])));
        i += 1;
    }
    out.finish(Ghost(edges_doc(edges@)))
}

/// Writes an instruction.
pub fn emit_inst(inst: &Inst) -> (res: String)
    ensures
        res@ == render(inst_doc(*inst)),
{
    let mut out = ObjectWriter::new(Layout::Spaced);
    if inst.results.len() == 0 {
        out.put_null("result");
    } else {
        out.put_str("result", inst.results[0].text.as_str());
    }
    match &inst.data {
        InstructionData::Unary { opcode, arg } => {
            out.put_str("opcode", opcode.text.as_str());
            let mut operands = ArrayWriter::new(Layout::Spaced);
            operands.put_str(arg.text.as_str());
            let ghost doc = Doc::Arr(Layout::Spaced, seq![Doc::Str(arg.text@)]);
            let operands = operands.finish(Ghost(doc));
            out.put("operands", operands.as_str(), Ghost(doc));
        },
        InstructionData::Binary { opcode, lhs, rhs } => {
            out.put_str("opcode", opcode.text.as_str());
            let mut operands = ArrayWriter::new(Layout::Spaced);
            operands.put_str(lhs.text.as_str());
            operands.put_str(rhs.text.as_str());
            let ghost doc = Doc::Arr(
                Layout::Spaced,
                seq![Doc::Str(lhs.text@), Doc::Str(rhs.text@)],
            );
            let operands = operands.finish(Ghost(doc));
            out.put("operands", operands.as_str(), Ghost(doc));
        },
        InstructionData::Branch { cond, then_dst, else_dst } => {
            out.put_str("opcode", "br");
            out.put_str("condition", cond.text.as_str());
            out.put_str("true_block", then_dst.text.as_str());
            out.put_str("false_block", else_dst.text.as_str());
        },
        InstructionData::Jump { destination } => {
            out.put_str("opcode", "jmp");
            let mut targets = ArrayWriter::new(Layout::Spaced);
            targets.put_str(destination.text.as_str());
            let ghost doc = Doc::Arr(Layout::Spaced, seq![Doc::Str(destination.text@)]);
            let targets = targets.finish(Ghost(doc));
            out.put("targets", targets.as_str(), Ghost(doc));
        },
        InstructionData::Exit => {
            out.put_str("opcode", "exit");
            let ghost doc = Doc::Arr(Layout::Spaced, Seq::empty());
            let operands = ArrayWriter::new(Layout::Spaced).finish(Ghost(doc));
            out.put("operands", operands.as_str(), Ghost(doc));
        },
        InstructionData::PhiNode(edges) => {
            out.put_str("opcode", "phi");
            let text = edges_text(edges);
            out.put("phi_edges", text.as_str(), Ghost(edges_doc(edges@)));
        },
        InstructionData::Call { func_ref, args } => {
            out.put_str("opcode", "call");
            out.put_str("call_target", func_ref.text.as_str());
            let operands = values_text(args);
            out.put("operands", operands.as_str(), Ghost(values_doc(args@)));
        },
    }
    out.finish(Ghost(inst_doc(*inst)))
}

/// Writes a basic block.
fn emit_block(block: &BlockLayout) -> (res: String)
    ensures
        res@ == render(block_doc(*block)),
{
    let mut insts = ArrayWriter::new(Layout::Lines(8));
    let mut i: usize = 0;
    while i < block.insts.len()
        invariant
            i <= block.insts.len(),
            insts.wf(),
            insts.layout() == Layout::Lines(8),
            insts@.len() == i,
            forall|j: int| 0 <= j < i ==> #[trigger] insts@[j] == inst_doc(block.insts@[j]),
        decreases block.insts.len() - i,
    {
        let text = emit_inst(&block.insts[i]);
        insts.put(text, Ghost(inst_doc(block.insts@[i as int])));
        i += 1;
    }
    let insts = insts.finish(Ghost(insts_doc(block.insts@)));
    let mut out = ObjectWriter::new(Layout::Spaced);
    out.put_str("label", block.block.text.as_str());
    out.put("insts", insts.as_str(), Ghost(insts_doc(block.insts@)));
    out.finish(Ghost(block_doc(*block)))
}

/// Writes the basic blocks of a function.
pub fn emit_blocks(func: &Function) -> (res: String)
    ensures
        res@ == render(blocks_doc(*func)),
{
    let mut out = ArrayWriter::new(Layout::Lines(6));
    let mut i: usize = 0;
    while i < func.layout.len()
        invariant
            i <= func.layout.len(),
            out.wf(),
            out.layout() == Layout::Lines(6),
            out@.len() == i,
            forall|j: int| 0 <= j < i ==> #[trigger] out@[j] == block_doc(func.layout@[j]),
        decreases func.layout.len() - i,
    {
        let text = emit_block(&func.layout[i]);
        out.put(text, Ghost(block_doc(func.layout@[i as int])));
        i += 1;
    }
    out.finish(Ghost(blocks_doc(*func)))
}

/// Writes the values that hold the arguments of a function.
fn args_text(func: &Function) -> (res: String)
    ensures
        res@ == render(args_doc(*func)),
{
    let args = sorted_args(&func.values);
    let mut out = ArrayWriter::new(Layout::Spaced);
    let mut i: usize = 0;
    while i < args.len()
        invariant
            i <= args.len(),
            out.wf(),
            out.layout() == Layout::Spaced,
            out@.len() == i,
            forall|j: int| 0 <= j < i ==> #[trigger] out@[j] == Doc::Str(args@[j].1@),
        decreases args.len() - i,
    {
        out.put_str(args[i].1.as_str());
        i += 1;
    }
    proof {
        let sorted = by_number(args_of(func.values@));
        assert(forall|j: int| 0 <= j < sorted.len() ==> (#[trigger] sorted[j]).1 == args@[j].1@);
    }
    out.finish(Ghost(args_doc(*func)))
}

/// Writes what the arguments of a function stand for.
fn params_text(params: &Vec<(ParamKind, Value)>, branches: &mut BranchReg) -> (res: String)
    requires
        old(branches).wf(),
        known_after_params(params@, params@.len() as int, old(branches)@).len() <= u32::MAX,
    ensures
        final(branches).wf(),
        final(branches)@ == known_after_params(params@, params@.len() as int, old(branches)@),
        res@ == render(params_doc(params@, old(branches)@)),
{
    let mut out = ObjectWriter::new(Layout::Lines(6));
    let mut idx: usize = 0;
    while idx < params.len()
        invariant
            idx <= params.len(),
            branches.wf(),
            branches@ == known_after_params(params@, idx as int, old(branches)@),
            known_after_params(params@, params@.len() as int, old(branches)@).len() <= u32::MAX,
            out.wf(),
            out.layout() == Layout::Lines(6),
            out@.len() == idx,
            forall|j: int|
                0 <= j < idx ==> #[trigger] out@[j] == param_member(params@, j, old(branches)@),
        decreases params.len() - idx,
    {
        let entry = &params[idx];
        proof {
            lemma_params_add_branches(
                params@,
                idx + 1,
                params@.len() as int,
                old(branches)@,
            );
        }
        let ghost doc = param_doc(entry.0, idx as u32, branches@);
        let text = param_kind_json(&entry.0, idx as u32, branches);
        out.put(entry.1.text.as_str(), text.as_str(), Ghost(doc));
        idx += 1;
    }
    out.finish(Ghost(params_doc(params@, old(branches)@)))
}

/// Writes the declarations of the functions that a function calls.
fn call_decls_text(callbacks: &Vec<CallBackKind>) -> (res: String)
    ensures
        res@ == render(call_decls_doc(callbacks@)),
{
    let mut out = ArrayWriter::new(Layout::Lines(6));
    let mut idx: usize = 0;
    while idx < callbacks.len()
        invariant
            idx <= callbacks.len(),
            out.wf(),
            out.layout() == Layout::Lines(6),
            out@.len() == idx,
            forall|j: int| 0 <= j < idx ==> #[trigger] out@[j] == call_decl_doc(j, callbacks@[j]),
        decreases callbacks.len() - idx,
    {
        let number = decimal(idx as u64);
        let mut name = "inst".to_owned();
        name.append(number.as_str());
        let callback = callback_name(&callbacks[idx]);
        let mut raw = "fn %".to_owned();
        raw.append(callback.as_str());
        let ghost doc = call_decl_doc(idx as int, callbacks@[idx as int]);
        let mut decl = ObjectWriter::new(Layout::Spaced);
        decl.put_str("name", name.as_str());
        decl.put_str("raw", raw.as_str());
        let text = decl.finish(Ghost(doc));
        out.put(text, Ghost(doc));
        idx += 1;
    }
    out.finish(Ghost(call_decls_doc(callbacks@)))
}

/// Writes the cached values and their slots.
fn cache_mapping_text(mapping: Option<&Vec<(Value, CacheSlot)>>) -> (res: String)
    ensures
        res@ == render(cache_mapping_doc(mapping_entries(mapping))),
{
    let mut out = ArrayWriter::new(Layout::Lines(6));
    if let Some(entries) = mapping {
        let mut i: usize = 0;
        while i < entries.len()
            invariant
                i <= entries.len(),
                out.wf(),
                out.layout() == Layout::Lines(6),
                out@.len() == i,
                forall|j: int| 0 <= j < i ==> #[trigger] out@[j] == cached_doc(entries@[j]),
            decreases entries.len() - i,
        {
            let entry = &entries[i];
            let mut item = ObjectWriter::new(Layout::Spaced);
            item.put_str("init_value", entry.0.text.as_str());
            item.put_str("cslot", entry.1.text.as_str());
            let text = item.finish(Ghost(cached_doc(*entry)));
            out.put(text, Ghost(cached_doc(*entry)));
            i += 1;
        }
    }
    out.finish(Ghost(cache_mapping_doc(mapping_entries(mapping))))
}

/// Writes a compiled function.
pub fn emit_function_json(
    fn_name: &str,
    func: &Function,
    intern: &HirInterner,
    literals: &Rodeo,
    cache_mapping: Option<&Vec<(Value, CacheSlot)>>,
    branches: &mut BranchReg,
) -> (res: String)
    requires
        old(branches).wf(),
        literals_known(*func, interned(*literals)),
        known_after_function(*intern, old(branches)@).len() <= u32::MAX,
    ensures
        final(branches).wf(),
        final(branches)@ == known_after_function(*intern, old(branches)@),
        res@ == render(
            function_doc(
                fn_name@,
                *func,
                *intern,
                interned(*literals),
                mapping_entries(cache_mapping),
                old(branches)@,
            ),
        ),
{
    let ghost known = branches@;
    let ghost strings = interned(*literals);
    let ghost mapping = mapping_entries(cache_mapping);
    let mut out = ObjectWriter::new(Layout::Lines(4));
    out.put_str("name", fn_name);
    let args = args_text(func);
    out.put("args", args.as_str(), Ghost(args_doc(*func)));
    let params = params_text(&intern.params, branches);
    out.put("params", params.as_str(), Ghost(params_doc(intern.params@, known)));
    let constants = emit_constants(func, literals);
    out.put("constants", constants.as_str(), Ghost(constants_doc(*func, strings)));
    let call_decls = call_decls_text(&intern.callbacks);
    out.put("call_decls", call_decls.as_str(), Ghost(call_decls_doc(intern.callbacks@)));
    let blocks = emit_blocks(func);
    out.put("blocks", blocks.as_str(), Ghost(blocks_doc(*func)));
    let cached = cache_mapping_text(cache_mapping);
    out.put("cache_mapping", cached.as_str(), Ghost(cache_mapping_doc(mapping)));
    out.finish(Ghost(function_doc(fn_name@, *func, *intern, strings, mapping, known)))
}

} // verus!
