use lasso::Rodeo;
use openvaf::branches::BranchReg;
use openvaf::dae::{emit_dae_json, sim_unknown_name};
use openvaf::json::jstr;
use openvaf::mna::{emit_mna_json, mna_node_info};
use openvaf::model::{
    Block, BlockLayout, Branch, BranchKind, CacheSlot, CallBackKind, CompiledModule, Const,
    CurrentKind, DaeSystem, FloatConst, FuncRef, Function, HirInterner, ImplicitEquation, Inst,
    Initialization, InstructionData, MatrixEntry, ModuleInfo, Node, Opcode, ParamKind, Parameter,
    Residual, ResidualNatureKind, SimUnknown, SimUnknownKind, Value, ValueDef,
};
use openvaf::module::{json_pieces, try_json_pieces, try_write_json, write_json};
use openvaf::write::{lines_of, write_first, write_next, WriteStep};

fn node(name: &str) -> Node {
    Node { name: name.to_string() }
}

fn v(index: u32) -> Value {
    Value { index, text: format!("v{index}") }
}

fn block(index: u32) -> Block {
    Block { text: format!("block{index}") }
}

fn unknown(index: usize) -> SimUnknown {
    SimUnknown { index, text: format!("sim_node{index}") }
}

fn float(x: f64) -> ValueDef {
    ValueDef::Const(Const::Float(FloatConst { bits: x.to_bits(), text: format!("{x}") }))
}

fn main_branch() -> Branch {
    Branch { name: "br_ac".to_string(), kind: BranchKind::Nodes(node("A"), node("C")) }
}

fn no_function() -> Function {
    Function { values: vec![], layout: vec![] }
}

fn no_interner() -> HirInterner {
    HirInterner { params: vec![], callbacks: vec![] }
}

fn no_equations() -> DaeSystem {
    DaeSystem {
        unknowns: vec![],
        residual: vec![],
        jacobian: vec![],
        num_resistive: 0,
        num_reactive: 0,
        num_noise_sources: 0,
        zero: v(3),
    }
}

fn empty_module() -> CompiledModule {
    CompiledModule {
        info: ModuleInfo { name: "".to_string(), ports: vec![], internal_nodes: vec![] },
        dae_system: no_equations(),
        eval: no_function(),
        intern: no_interner(),
        init: Initialization {
            func: no_function(),
            intern: no_interner(),
            cached_vals: vec![],
        },
        model_param_setup: no_function(),
        model_param_intern: no_interner(),
    }
}

fn call(results: Vec<Value>, name: &str, args: Vec<Value>) -> Inst {
    let func_ref = FuncRef { text: name.to_string() };
    Inst { results, data: InstructionData::Call { func_ref, args } }
}

fn eval_function() -> Function {
    let fneg = Opcode { text: "fneg".to_string() };
    let fmul = Opcode { text: "fmul".to_string() };
    Function {
        values: vec![
            (v(3), float(0.0)),
            (v(17), ValueDef::Param(1)),
            (v(16), ValueDef::Param(0)),
            (v(20), ValueDef::Const(Const::Int(-7))),
            (v(21), float(f64::INFINITY)),
            (v(22), float(f64::NEG_INFINITY)),
            (v(23), float(f64::NAN)),
            (v(24), ValueDef::Const(Const::Bool(true))),
            (v(25), ValueDef::Const(Const::Str(1))),
            (v(26), ValueDef::Other),
            (v(27), ValueDef::Const(Const::Bool(false))),
            (v(28), float(1.5)),
        ],
        layout: vec![
            BlockLayout {
                block: block(0),
                insts: vec![
                    Inst {
                        results: vec![v(30)],
                        data: InstructionData::Unary { opcode: fneg, arg: v(16) },
                    },
                    Inst {
                        results: vec![v(31)],
                        data: InstructionData::Binary { opcode: fmul, lhs: v(30), rhs: v(17) },
                    },
                    Inst {
                        results: vec![],
                        data: InstructionData::Branch {
                            cond: v(24),
                            then_dst: block(1),
                            else_dst: block(2),
                        },
                    },
                ],
            },
            BlockLayout {
                block: block(1),
                insts: vec![Inst {
                    results: vec![],
                    data: InstructionData::Jump { destination: block(3) },
                }],
            },
            BlockLayout { block: block(2), insts: vec![] },
            BlockLayout {
                block: block(3),
                insts: vec![
                    Inst {
                        results: vec![v(32)],
                        data: InstructionData::PhiNode(vec![(block(1), v(30)), (block(2), v(31))]),
                    },
                    call(vec![v(33), v(34)], "inst0", vec![v(32), v(17)]),
                    call(vec![], "inst1", vec![]),
                    Inst { results: vec![v(35)], data: InstructionData::PhiNode(vec![]) },
                    Inst { results: vec![], data: InstructionData::Exit },
                ],
            },
        ],
    }
}

fn eval_interner() -> HirInterner {
    HirInterner {
        params: vec![
            (ParamKind::Voltage { hi: node("A"), lo: Some(node("C")) }, v(16)),
            (ParamKind::Current(CurrentKind::Branch(main_branch())), v(17)),
            (ParamKind::Voltage { hi: node("int"), lo: None }, v(40)),
            (ParamKind::Current(CurrentKind::Unnamed { hi: node("A"), lo: None }), v(41)),
            (ParamKind::Current(CurrentKind::Port(node("C"))), v(42)),
            (ParamKind::Param(Parameter { name: "is\n".to_string() }), v(43)),
        ],
        callbacks: vec![
            CallBackKind::TimeDerivative,
            CallBackKind::NodeDerivative(node("A")),
            CallBackKind::CollapseHint(node("A"), Some(node("C"))),
            CallBackKind::CollapseHint(node("int"), None),
        ],
    }
}

fn instance_setup() -> Initialization {
    let flow = Branch { name: "br_p".to_string(), kind: BranchKind::PortFlow(node("C")) };
    let grounded = Branch { name: "br_g".to_string(), kind: BranchKind::NodeGnd(node("A")) };
    let equation = ImplicitEquation { index: 2, text: "implicit_equation_2".to_string() };
    Initialization {
        func: Function {
            values: vec![(v(1), ValueDef::Param(0))],
            layout: vec![BlockLayout {
                block: block(0),
                insts: vec![Inst { results: vec![], data: InstructionData::Exit }],
            }],
        },
        intern: HirInterner {
            params: vec![
                (ParamKind::Temperature, v(1)),
                (ParamKind::Current(CurrentKind::Branch(flow)), v(2)),
                (ParamKind::Current(CurrentKind::Branch(grounded)), v(3)),
                (ParamKind::PrevState(4), v(4)),
                (ParamKind::ImplicitUnknown(equation), v(5)),
            ],
            callbacks: vec![],
        },
        cached_vals: vec![
            (v(1), CacheSlot { text: "cslot0".to_string() }),
            (v(9), CacheSlot { text: "cslot1".to_string() }),
        ],
    }
}

fn residual(values: [u32; 6], nature_kind: ResidualNatureKind) -> Residual {
    Residual {
        resist: v(values[0]),
        react: v(values[1]),
        resist_small_signal: v(values[2]),
        react_small_signal: v(values[3]),
        resist_lim_rhs: v(values[4]),
        react_lim_rhs: v(values[5]),
        nature_kind,
    }
}

fn equations() -> DaeSystem {
    let equation = ImplicitEquation { index: 0, text: "implicit_equation_0".to_string() };
    DaeSystem {
        unknowns: vec![
            SimUnknownKind::KirchoffLaw(node("A")),
            SimUnknownKind::KirchoffLaw(node("C")),
            SimUnknownKind::Current(CurrentKind::Branch(main_branch())),
            SimUnknownKind::Current(CurrentKind::Unnamed {
                hi: node("int"),
                lo: Some(node("A")),
            }),
            SimUnknownKind::Current(CurrentKind::Port(node("A"))),
            SimUnknownKind::Implicit(equation),
        ],
        residual: vec![
            residual([50, 3, 51, 52, 53, 54], ResidualNatureKind::Flow),
            residual([60, 61, 62, 63, 64, 65], ResidualNatureKind::Potential),
            residual([3, 3, 3, 3, 3, 3], ResidualNatureKind::Switch),
        ],
        jacobian: vec![
            MatrixEntry { row: unknown(0), col: unknown(1), resist: v(70), react: v(3) },
            MatrixEntry { row: unknown(1), col: unknown(0), resist: v(3), react: v(71) },
        ],
        num_resistive: 1,
        num_reactive: 12,
        num_noise_sources: 3,
        zero: v(3),
    }
}

fn declaration() -> ModuleInfo {
    ModuleInfo {
        name: "diode \"x\"".to_string(),
        ports: vec![node("A"), node("C")],
        internal_nodes: vec![node("int")],
    }
}

fn diode() -> CompiledModule {
    CompiledModule {
        info: declaration(),
        dae_system: equations(),
        eval: eval_function(),
        intern: eval_interner(),
        init: instance_setup(),
        model_param_setup: no_function(),
        model_param_intern: HirInterner {
            params: vec![],
            callbacks: vec![CallBackKind::SetRetFlag],
        },
    }
}

fn literals() -> Rodeo {
    let mut literals = Rodeo::new();
    literals.get_or_intern("first");
    literals.get_or_intern("say \"hi\"\t");
    literals
}

const DIODE: &str = r#"{
  "schema_version": 1,
  "name": "diode \"x\"",
  "ports": ["A", "C"],
  "port_nodes": ["A", "C"],
  "internal_nodes": ["int"],
  "eval_fn": {
    "name": "",
    "args": ["v16", "v17"],
    "params": {
      "v16": {"tag":"Voltage","hi":"A","lo":"C","hi_node":"A","lo_node":"C"},
      "v17": {"tag":"CurrentBranch","branch":"br_ac","branch_id":0,"hi":"A","lo":"C"},
      "v40": {"tag":"Voltage","hi":"int","lo":null,"hi_node":"int","lo_node":null},
      "v41": {"tag":"CurrentUnnamed","branch_id":2,"hi":"A","lo":null},
      "v42": {"tag":"CurrentPort","port":"C"},
      "v43": {"tag":"Param","name":"is\n","param_id":5}
    },
    "constants": {
      "v3": 0,
      "v21": "__inf__",
      "v22": "__neginf__",
      "v23": "__nan__",
      "v28": 1.5,
      "v20": -7,
      "v24": true,
      "v27": false,
      "v25": "say \"hi\"\t"
    },
    "call_decls": [
      {"name": "inst0", "raw": "fn %ddt"},
      {"name": "inst1", "raw": "fn %ddx_A"},
      {"name": "inst2", "raw": "fn %collapse_A_Some(C)"},
      {"name": "inst3", "raw": "fn %collapse_int_None"}
    ],
    "blocks": [
      {"label": "block0", "insts": [
        {"result": "v30", "opcode": "fneg", "operands": ["v16"]},
        {"result": "v31", "opcode": "fmul", "operands": ["v30", "v17"]},
        {"result": null, "opcode": "br", "condition": "v24", "true_block": "block1", "false_block": "block2"}
      ]},
      {"label": "block1", "insts": [
        {"result": null, "opcode": "jmp", "targets": ["block3"]}
      ]},
      {"label": "block2", "insts": []},
      {"label": "block3", "insts": [
        {"result": "v32", "opcode": "phi", "phi_edges": [{"value": "v30", "block": "block1"}, {"value": "v31", "block": "block2"}]},
        {"result": "v33", "opcode": "call", "call_target": "inst0", "operands": ["v32", "v17"]},
        {"result": null, "opcode": "call", "call_target": "inst1", "operands": []},
        {"result": "v35", "opcode": "phi", "phi_edges": []},
        {"result": null, "opcode": "exit", "operands": []}
      ]}
    ],
    "cache_mapping": []
  },
  "init_fn": {
    "name": "_init",
    "args": ["v1"],
    "params": {
      "v1": {"tag":"Temperature"},
      "v2": {"tag":"CurrentBranch","branch":"br_p","branch_id":3,"hi":"C","lo":null},
      "v3": {"tag":"CurrentBranch","branch":"br_g","branch_id":2,"hi":"A","lo":null},
      "v4": {"tag":"PrevState","index":4},
      "v5": {"tag":"ImplicitUnknown","id":2}
    },
    "constants": {},
    "call_decls": [],
    "blocks": [
      {"label": "block0", "insts": [
        {"result": null, "opcode": "exit", "operands": []}
      ]}
    ],
    "cache_mapping": [
      {"init_value": "v1", "cslot": "cslot0"},
      {"init_value": "v9", "cslot": "cslot1"}
    ]
  },
  "setup_fn": {
    "name": "_setup",
    "args": [],
    "params": {},
    "constants": {},
    "call_decls": [
      {"name": "inst0", "raw": "fn %set_Invalid"}
    ],
    "blocks": [],
    "cache_mapping": []
  },
  "dae": {
    "unknowns": {
      "sim_node0": "A",
      "sim_node1": "C",
      "sim_node2": "br[Branch(BranchId(0))]",
      "sim_node3": "br[Branch(BranchId(1))]",
      "sim_node4": "br[Branch(BranchId(2))]",
      "sim_node5": "implicit_equation_0"
    },
    "residual": {
      "sim_node0": {"resist": "v50", "react": "v3", "resist_small_signal": "v51", "react_small_signal": "v52", "resist_lim_rhs": "v53", "react_lim_rhs": "v54", "nature_kind": "Flow"},
      "sim_node1": {"resist": "v60", "react": "v61", "resist_small_signal": "v62", "react_small_signal": "v63", "resist_lim_rhs": "v64", "react_lim_rhs": "v65", "nature_kind": "Potential"},
      "sim_node2": {"resist": "v3", "react": "v3", "resist_small_signal": "v3", "react_small_signal": "v3", "resist_lim_rhs": "v3", "react_lim_rhs": "v3", "nature_kind": "Switch"}
    },
    "jacobian": {
      "sim_node0,sim_node1": {"row": "sim_node0", "col": "sim_node1", "resist": "v70", "react": "v3"},
      "sim_node1,sim_node0": {"row": "sim_node1", "col": "sim_node0", "resist": "v3", "react": "v71"}
    },
    "num_resistive": 1,
    "num_reactive": 12
  },
  "mna": {
    "num_nodes": 6,
    "num_terminals": 2,
    "nodes": [
      {"idx": 0, "name": "A", "kind": "voltage"},
      {"idx": 1, "name": "C", "kind": "voltage"},
      {"idx": 2, "name": "I(A,C)", "kind": "current"},
      {"idx": 3, "name": "I(int,A)", "kind": "current"},
      {"idx": 4, "name": "I<A>", "kind": "current"},
      {"idx": 5, "name": "implicit_equation_0", "kind": "implicit"}
    ],
    "residuals": [
      {"node": 0, "resist": "v50", "react": "v3"},
      {"node": 1, "resist": "v60", "react": "v61"},
      {"node": 2, "resist": "v3", "react": "v3"}
    ],
    "jacobian_entries": [
      {"row": 0, "col": 1, "resist": "v70", "react": "v3", "has_resist": true, "has_react": false},
      {"row": 1, "col": 0, "resist": "v3", "react": "v71", "has_resist": false, "has_react": true}
    ],
    "num_noise_sources": 3,
    "num_jacobian_entries": 2,
    "num_resistive_jacobian_entries": 1,
    "num_reactive_jacobian_entries": 12
  }
}
"#;

#[test]
fn a_whole_module() {
    assert_eq!(write_json(&diode(), &literals()), DIODE);
    assert_eq!(try_write_json(&diode(), &literals()), Some(DIODE.to_string()));
}

#[test]
fn an_empty_module() {
    let expected = r#"{
  "schema_version": 1,
  "name": "",
  "ports": [],
  "port_nodes": [],
  "internal_nodes": [],
  "eval_fn": {
    "name": "",
    "args": [],
    "params": {},
    "constants": {},
    "call_decls": [],
    "blocks": [],
    "cache_mapping": []
  },
  "init_fn": {
    "name": "_init",
    "args": [],
    "params": {},
    "constants": {},
    "call_decls": [],
    "blocks": [],
    "cache_mapping": []
  },
  "setup_fn": {
    "name": "_setup",
    "args": [],
    "params": {},
    "constants": {},
    "call_decls": [],
    "blocks": [],
    "cache_mapping": []
  },
  "dae": {
    "unknowns": {},
    "residual": {},
    "jacobian": {},
    "num_resistive": 0,
    "num_reactive": 0
  },
  "mna": {
    "num_nodes": 0,
    "num_terminals": 0,
    "nodes": [],
    "residuals": [],
    "jacobian_entries": [],
    "num_noise_sources": 0,
    "num_jacobian_entries": 0,
    "num_resistive_jacobian_entries": 0,
    "num_reactive_jacobian_entries": 0
  }
}
"#;
    assert_eq!(write_json(&empty_module(), &Rodeo::new()), expected);
    assert_eq!(try_write_json(&empty_module(), &Rodeo::new()), Some(expected.to_string()));
}

#[test]
fn a_literal_that_was_not_interned_cannot_be_written() {
    let mut few = Rodeo::new();
    few.get_or_intern("first");
    assert_eq!(try_write_json(&diode(), &few), None);
    assert_eq!(try_write_json(&diode(), &Rodeo::new()), None);
    let mut module = empty_module();
    module.init.func.values.push((v(1), ValueDef::Const(Const::Str(0))));
    assert_eq!(try_write_json(&module, &Rodeo::new()), None);
    assert!(try_write_json(&module, &few).is_some());
    let mut module = empty_module();
    module.model_param_setup.values.push((v(1), ValueDef::Const(Const::Str(1))));
    assert_eq!(try_write_json(&module, &few), None);
    assert!(try_write_json(&module, &literals()).is_some());
}

#[test]
fn all_sections_use_one_numbering() {
    // The unknowns are numbered first, so the branch of the third unknown has
    // number zero where it is probed and where it is an unknown.
    assert!(DIODE.contains("\"branch\":\"br_ac\",\"branch_id\":0,"));
    assert!(DIODE.contains("\"sim_node2\": \"br[Branch(BranchId(0))]\""));
    assert!(DIODE.contains("\"sim_node3\": \"br[Branch(BranchId(1))]\""));
    // The flow into a terminal goes by its node alone, as a branch to ground does.
    assert!(DIODE.contains("\"tag\":\"CurrentUnnamed\",\"branch_id\":2,"));
    assert!(DIODE.contains("\"branch\":\"br_g\",\"branch_id\":2,"));
    assert!(DIODE.contains("\"sim_node4\": \"br[Branch(BranchId(2))]\""));
    assert_eq!(write_json(&diode(), &literals()), DIODE);
}

#[test]
fn names_of_unknowns() {
    let mut reg = BranchReg::new();
    let equation = ImplicitEquation { index: 4, text: "implicit_equation_4".to_string() };
    assert_eq!(sim_unknown_name(&SimUnknownKind::KirchoffLaw(node("a")), &mut reg), "a");
    assert_eq!(
        sim_unknown_name(&SimUnknownKind::Implicit(equation), &mut reg),
        "implicit_equation_4"
    );
    assert_eq!(reg.len(), 0);
    let port = SimUnknownKind::Current(CurrentKind::Port(node("a")));
    assert_eq!(sim_unknown_name(&port, &mut reg), "br[Branch(BranchId(0))]");
    let branch = SimUnknownKind::Current(CurrentKind::Branch(main_branch()));
    assert_eq!(sim_unknown_name(&branch, &mut reg), "br[Branch(BranchId(1))]");
    let ground = SimUnknownKind::Current(CurrentKind::Unnamed { hi: node("a"), lo: None });
    assert_eq!(sim_unknown_name(&ground, &mut reg), "br[Branch(BranchId(0))]");
    assert_eq!(reg.len(), 2);
}

#[test]
fn positional_names_of_unknowns() {
    let equation = ImplicitEquation { index: 4, text: "implicit_equation_4".to_string() };
    let grounded = Branch { name: "g".to_string(), kind: BranchKind::NodeGnd(node("a")) };
    let cases = vec![
        (SimUnknownKind::KirchoffLaw(node("a")), "a", "voltage"),
        (SimUnknownKind::Implicit(equation), "implicit_equation_4", "implicit"),
        (SimUnknownKind::Current(CurrentKind::Branch(main_branch())), "I(A,C)", "current"),
        (SimUnknownKind::Current(CurrentKind::Branch(grounded)), "I(a)", "current"),
        (
            SimUnknownKind::Current(CurrentKind::Unnamed { hi: node("x"), lo: Some(node("y")) }),
            "I(x,y)",
            "current",
        ),
        (
            SimUnknownKind::Current(CurrentKind::Unnamed { hi: node("x"), lo: None }),
            "I(x)",
            "current",
        ),
        (SimUnknownKind::Current(CurrentKind::Port(node("p"))), "I<p>", "current"),
    ];
    for (kind, name, word) in &cases {
        assert_eq!(mna_node_info(kind), (name.to_string(), *word));
    }
}

#[test]
fn equations_of_a_module() {
    let mut reg = BranchReg::new();
    let text = emit_dae_json(&equations(), &mut reg);
    let expected = r#"{
    "unknowns": {
      "sim_node0": "A",
      "sim_node1": "C",
      "sim_node2": "br[Branch(BranchId(0))]",
      "sim_node3": "br[Branch(BranchId(1))]",
      "sim_node4": "br[Branch(BranchId(2))]",
      "sim_node5": "implicit_equation_0"
    },
    "residual": {
      "sim_node0": {"resist": "v50", "react": "v3", "resist_small_signal": "v51", "react_small_signal": "v52", "resist_lim_rhs": "v53", "react_lim_rhs": "v54", "nature_kind": "Flow"},
      "sim_node1": {"resist": "v60", "react": "v61", "resist_small_signal": "v62", "react_small_signal": "v63", "resist_lim_rhs": "v64", "react_lim_rhs": "v65", "nature_kind": "Potential"},
      "sim_node2": {"resist": "v3", "react": "v3", "resist_small_signal": "v3", "react_small_signal": "v3", "resist_lim_rhs": "v3", "react_lim_rhs": "v3", "nature_kind": "Switch"}
    },
    "jacobian": {
      "sim_node0,sim_node1": {"row": "sim_node0", "col": "sim_node1", "resist": "v70", "react": "v3"},
      "sim_node1,sim_node0": {"row": "sim_node1", "col": "sim_node0", "resist": "v3", "react": "v71"}
    },
    "num_resistive": 1,
    "num_reactive": 12
  }"#;
    assert_eq!(text, expected);
    assert_eq!(reg.len(), 3);
}

#[test]
fn positional_view_of_the_equations() {
    assert_eq!(emit_mna_json(&declaration(), &equations()), r#"{
    "num_nodes": 6,
    "num_terminals": 2,
    "nodes": [
      {"idx": 0, "name": "A", "kind": "voltage"},
      {"idx": 1, "name": "C", "kind": "voltage"},
      {"idx": 2, "name": "I(A,C)", "kind": "current"},
      {"idx": 3, "name": "I(int,A)", "kind": "current"},
      {"idx": 4, "name": "I<A>", "kind": "current"},
      {"idx": 5, "name": "implicit_equation_0", "kind": "implicit"}
    ],
    "residuals": [
      {"node": 0, "resist": "v50", "react": "v3"},
      {"node": 1, "resist": "v60", "react": "v61"},
      {"node": 2, "resist": "v3", "react": "v3"}
    ],
    "jacobian_entries": [
      {"row": 0, "col": 1, "resist": "v70", "react": "v3", "has_resist": true, "has_react": false},
      {"row": 1, "col": 0, "resist": "v3", "react": "v71", "has_resist": false, "has_react": true}
    ],
    "num_noise_sources": 3,
    "num_jacobian_entries": 2,
    "num_resistive_jacobian_entries": 1,
    "num_reactive_jacobian_entries": 12
  }"#);
}

#[test]
fn both_views_number_the_unknowns_alike() {
    let mut reg = BranchReg::new();
    let dae = emit_dae_json(&equations(), &mut reg);
    let mna = emit_mna_json(&declaration(), &equations());
    assert!(dae.contains("\"sim_node1\": \"C\""));
    assert!(mna.contains("{\"idx\": 1, \"name\": \"C\", \"kind\": \"voltage\"}"));
    assert!(dae.contains("\"sim_node1\": {\"resist\": \"v60\", \"react\": \"v61\","));
    assert!(mna.contains("{\"node\": 1, \"resist\": \"v60\", \"react\": \"v61\"}"));
}

#[test]
fn no_equations_at_all() {
    let mut reg = BranchReg::new();
    assert_eq!(
        emit_dae_json(&no_equations(), &mut reg),
        "{\n    \"unknowns\": {},\n    \"residual\": {},\n    \"jacobian\": {},\n    \"num_resistive\": 0,\n    \"num_reactive\": 0\n  }"
    );
}

#[test]
fn the_zero_value_decides_what_an_entry_has() {
    let mut dae = equations();
    dae.zero = v(70);
    let text = emit_mna_json(&declaration(), &dae);
    assert!(text.contains("\"resist\": \"v70\", \"react\": \"v3\", \"has_resist\": false, \"has_react\": true}"));
    assert!(text.contains("\"resist\": \"v3\", \"react\": \"v71\", \"has_resist\": true, \"has_react\": true}"));
}

#[test]
fn strings_of_the_source_are_escaped() {
    let text = write_json(&diode(), &literals());
    assert!(text.contains("  \"name\": \"diode \\\"x\\\"\",\n"));
    assert!(text.contains("\"v25\": \"say \\\"hi\\\"\\t\""));
    assert!(text.contains("\"name\":\"is\\n\""));
}

#[test]
fn the_same_module_is_written_twice_alike() {
    assert_eq!(write_json(&diode(), &literals()), write_json(&diode(), &literals()));
}

#[derive(Debug, PartialEq)]
enum Json {
    Null,
    Bool(bool),
    Num(String),
    Str(String),
    Arr(Vec<Json>),
    Obj(Vec<(String, Json)>),
}

/// A reader of JSON, for looking at what is written.
struct Reader {
    chars: Vec<char>,
    at: usize,
}

impl Reader {
    fn next(&mut self) -> char {
        self.at += 1;
        self.chars[self.at - 1]
    }

    fn peek(&mut self) -> char {
        while self.at < self.chars.len() && " \t\n\r".contains(self.chars[self.at]) {
            self.at += 1;
        }
        self.chars[self.at]
    }

    fn expect(&mut self, c: char) {
        assert_eq!(self.peek(), c);
        self.at += 1;
    }

    fn word(&mut self, word: &str, value: Json) -> Json {
        for c in word.chars() {
            assert_eq!(self.next(), c);
        }
        value
    }

    fn string(&mut self) -> String {
        self.expect('"');
        let mut text = String::new();
        loop {
            let c = self.next();
            assert!(c as u32 >= 0x20);
            match c {
                '"' => return text,
                '\\' => match self.next() {
                    'n' => text.push('\n'),
                    'r' => text.push('\r'),
                    't' => text.push('\t'),
                    'u' => {
                        let code: String = (0..4).map(|_| self.next()).collect();
                        let code = u32::from_str_radix(&code, 16).unwrap();
                        text.push(char::from_u32(code).unwrap());
                    }
                    c => {
                        assert!("\"\\/".contains(c));
                        text.push(c);
                    }
                },
                c => text.push(c),
            }
        }
    }

    fn value(&mut self) -> Json {
        match self.peek() {
            'n' => self.word("null", Json::Null),
            't' => self.word("true", Json::Bool(true)),
            'f' => self.word("false", Json::Bool(false)),
            '"' => Json::Str(self.string()),
            '[' => {
                let mut items = vec![];
                self.at += 1;
                if self.peek() != ']' {
                    items.push(self.value());
                    while self.peek() == ',' {
                        self.at += 1;
                        items.push(self.value());
                    }
                }
                self.expect(']');
                Json::Arr(items)
            }
            '{' => {
                let mut members = vec![];
                self.at += 1;
                while self.peek() != '}' {
                    if !members.is_empty() {
                        self.expect(',');
                    }
                    self.peek();
                    let name = self.string();
                    self.expect(':');
                    members.push((name, self.value()));
                }
                self.expect('}');
                Json::Obj(members)
            }
            _ => {
                let mut text = String::new();
                while "+-.eE0123456789".contains(self.chars[self.at]) {
                    text.push(self.next());
                }
                assert!(text.parse::<f64>().is_ok());
                Json::Num(text)
            }
        }
    }
}

fn read(text: &str) -> Json {
    let mut reader = Reader { chars: text.chars().chain(vec!['\n']).collect(), at: 0 };
    let value = reader.value();
    while reader.at < reader.chars.len() {
        assert!(" \t\n\r".contains(reader.next()));
    }
    value
}

fn get<'a>(value: &'a Json, name: &str) -> &'a Json {
    match value {
        Json::Obj(members) => &members.iter().find(|member| member.0 == name).unwrap().1,
        _ => panic!("no object"),
    }
}

fn items(value: &Json) -> &Vec<Json> {
    match value {
        Json::Arr(items) => items,
        _ => panic!("no array"),
    }
}

fn names(value: &Json) -> Vec<&str> {
    match value {
        Json::Obj(members) => members.iter().map(|member| member.0.as_str()).collect(),
        _ => panic!("no object"),
    }
}

fn text(s: &str) -> Json {
    Json::Str(s.to_string())
}

#[test]
fn a_written_module_is_json() {
    let value = read(&write_json(&diode(), &literals()));
    assert_eq!(*get(&value, "schema_version"), Json::Num("1".to_string()));
    assert_eq!(*get(&value, "name"), text("diode \"x\""));
    assert_eq!(*get(&value, "ports"), Json::Arr(vec![text("A"), text("C")]));
    let eval = get(&value, "eval_fn");
    assert_eq!(*get(get(eval, "constants"), "v25"), text("say \"hi\"\t"));
    assert_eq!(*get(get(eval, "constants"), "v24"), Json::Bool(true));
    assert_eq!(*get(get(eval, "params"), "v41"), {
        let number = Json::Num("2".to_string());
        Json::Obj(vec![
            ("tag".to_string(), text("CurrentUnnamed")),
            ("branch_id".to_string(), number),
            ("hi".to_string(), text("A")),
            ("lo".to_string(), Json::Null),
        ])
    });
    assert_eq!(items(get(eval, "blocks")).len(), 4);
}

#[test]
fn an_array_of_written_modules_is_json() {
    let one = write_json(&diode(), &literals());
    let other = write_json(&empty_module(), &Rodeo::new());
    let value = read(&format!("[{one},{other}]\n"));
    assert_eq!(value, Json::Arr(vec![read(&one), read(&other)]));
}

#[test]
fn escaping_is_undone_by_reading() {
    for s in ["", "plain", "a\"b\\c/", "\n\r\t\u{0}\u{1f}", "Ω𝛼"] {
        assert_eq!(read(&format!("\"{}\"", jstr(s))), text(s));
    }
}

#[test]
fn every_module_has_the_same_schema() {
    let one = read(&write_json(&diode(), &literals()));
    let other = read(&write_json(&empty_module(), &Rodeo::new()));
    assert_eq!(names(&one), names(&other));
    for section in ["eval_fn", "init_fn", "setup_fn", "dae", "mna"] {
        assert_eq!(names(get(&one, section)), names(get(&other, section)));
    }
}

#[test]
fn only_finite_constants_are_numbers() {
    let value = read(&write_json(&diode(), &literals()));
    let constants = get(get(&value, "eval_fn"), "constants");
    assert_eq!(*get(constants, "v3"), Json::Num("0".to_string()));
    assert_eq!(*get(constants, "v28"), Json::Num("1.5".to_string()));
    assert_eq!(*get(constants, "v21"), text("__inf__"));
    assert_eq!(*get(constants, "v22"), text("__neginf__"));
    assert_eq!(*get(constants, "v23"), text("__nan__"));
}

#[test]
fn the_first_nodes_are_the_terminals() {
    let value = read(&write_json(&diode(), &literals()));
    let ports = items(get(&value, "ports"));
    let nodes = items(get(get(&value, "mna"), "nodes"));
    for (i, port) in ports.iter().enumerate() {
        assert_eq!(get(&nodes[i], "name"), port);
        assert_eq!(*get(&nodes[i], "idx"), Json::Num(i.to_string()));
        assert_eq!(*get(&nodes[i], "kind"), text("voltage"));
    }
}

#[test]
fn the_pieces_of_a_module_make_up_its_text() {
    let pieces = json_pieces(&diode(), &literals());
    assert_eq!(pieces.concat(), DIODE);
    assert_eq!(pieces.len(), 12);
    assert_eq!(pieces[0], "{\n");
    assert_eq!(pieces[1], "  \"schema_version\": 1,\n");
    assert_eq!(pieces[2], "  \"name\": \"diode \\\"x\\\"\",\n");
    assert_eq!(pieces[3], "  \"ports\": [\"A\", \"C\"],\n");
    assert!(pieces[10].starts_with("  \"mna\": {\n"));
    assert!(pieces[10].ends_with("\n  }\n"));
    assert_eq!(pieces[11], "}\n");
    assert_eq!(try_json_pieces(&diode(), &literals()), Some(pieces));
    assert_eq!(try_json_pieces(&diode(), &Rodeo::new()), None);
    assert_eq!(lines_of(&vec![]), vec!["{\n", "}\n"]);
}

/// What a writer receives that takes pieces until the one with the number `bad`.
fn received(pieces: &[String], bad: usize) -> (String, WriteStep) {
    let mut out = String::new();
    let mut step = write_first(pieces.len());
    while let WriteStep::Write { index, .. } = step {
        if index != bad {
            out.push_str(&pieces[index]);
        }
        step = write_next(step, index != bad);
    }
    (out, step)
}

#[test]
fn writing_stops_at_the_first_failure() {
    let pieces = json_pieces(&diode(), &literals());
    assert_eq!(received(&pieces, 100), (DIODE.to_string(), WriteStep::Done));
    for bad in 0..pieces.len() {
        let (out, step) = received(&pieces, bad);
        assert_eq!(out, pieces[..bad].concat());
        assert!(DIODE.starts_with(&out));
        assert_eq!(step, WriteStep::Failed { index: bad });
        assert_eq!(write_next(step, true), step);
    }
    assert_eq!(received(&[], 0), (String::new(), WriteStep::Done));
}

#[test]
fn different_modules_have_different_texts() {
    let one = write_json(&diode(), &literals());
    let other = write_json(&empty_module(), &Rodeo::new());
    assert_ne!(read(&one), read(&other));
    assert_eq!(read(&one), read(&format!(" \n{one}\t")));
}
