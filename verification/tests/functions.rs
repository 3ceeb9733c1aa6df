use lasso::{Key, Rodeo};
use openvaf::args::sorted_args;
use openvaf::branches::BranchReg;
use openvaf::function::{emit_blocks, emit_constants, emit_function_json, emit_inst};
use openvaf::model::{
    Block, BlockLayout, CacheSlot, CallBackKind, Const, CurrentKind, FloatConst, FuncRef, Function,
    HirInterner, Inst, InstructionData, Node, Opcode, ParamKind, Value, ValueDef,
};

fn v(index: u32) -> Value {
    Value { index, text: format!("v{index}") }
}

fn block(index: u32) -> Block {
    Block { text: format!("block{index}") }
}

fn float(index: u32, x: f64) -> (Value, ValueDef) {
    (v(index), ValueDef::Const(Const::Float(FloatConst { bits: x.to_bits(), text: format!("{x}") })))
}

fn op(text: &str) -> Opcode {
    Opcode { text: text.to_string() }
}

fn inst(results: Vec<Value>, data: InstructionData) -> String {
    emit_inst(&Inst { results, data })
}

fn with_values(values: Vec<(Value, ValueDef)>) -> Function {
    Function { values, layout: vec![] }
}

#[test]
fn arguments_come_in_order_of_their_numbers() {
    let values = vec![
        (v(9), ValueDef::Param(2)),
        (v(3), ValueDef::Other),
        (v(4), ValueDef::Param(0)),
        (v(5), ValueDef::Const(Const::Bool(true))),
        (v(6), ValueDef::Param(1)),
    ];
    assert_eq!(
        sorted_args(&values),
        vec![(0, "v4".to_string()), (1, "v6".to_string()), (2, "v9".to_string())]
    );
}

#[test]
fn arguments_with_one_number_keep_their_order() {
    let values = vec![
        (v(9), ValueDef::Param(1)),
        (v(4), ValueDef::Param(0)),
        (v(2), ValueDef::Param(1)),
        (v(7), ValueDef::Param(1)),
    ];
    assert_eq!(
        sorted_args(&values),
        vec![
            (0, "v4".to_string()),
            (1, "v9".to_string()),
            (1, "v2".to_string()),
            (1, "v7".to_string()),
        ]
    );
}

#[test]
fn no_constants() {
    let literals = Rodeo::new();
    assert_eq!(emit_constants(&with_values(vec![(v(1), ValueDef::Other)]), &literals), "{}");
}

#[test]
fn finite_constants_are_numbers() {
    let literals = Rodeo::new();
    let func = with_values(vec![
        float(1, 0.0),
        float(2, -0.0),
        float(3, 1.5),
        float(4, f64::MAX),
        float(5, f64::MIN_POSITIVE / 4.0),
    ]);
    let text = emit_constants(&func, &literals);
    assert!(text.starts_with("{\n      \"v1\": 0,\n      \"v2\": -0,\n      \"v3\": 1.5,\n"));
    assert!(text.contains(&format!("\"v4\": {},", f64::MAX)));
    assert!(text.ends_with(&format!("\"v5\": {}\n    }}", f64::MIN_POSITIVE / 4.0)));
}

#[test]
fn other_floats_are_strings() {
    let literals = Rodeo::new();
    let func = with_values(vec![
        float(1, f64::INFINITY),
        float(2, f64::NEG_INFINITY),
        float(3, f64::NAN),
        float(4, -f64::NAN),
    ]);
    assert_eq!(
        emit_constants(&func, &literals),
        "{\n      \"v1\": \"__inf__\",\n      \"v2\": \"__neginf__\",\n      \"v3\": \"__nan__\",\n      \"v4\": \"__nan__\"\n    }"
    );
}

#[test]
fn constants_are_grouped_by_type() {
    let mut literals: Rodeo = Rodeo::new();
    literals.get_or_intern("first");
    let key = literals.get_or_intern("say \"hi\"\n").into_usize();
    let func = with_values(vec![
        (v(1), ValueDef::Const(Const::Str(key))),
        (v(2), ValueDef::Const(Const::Bool(false))),
        (v(3), ValueDef::Const(Const::Int(-7))),
        float(4, 2.5),
        (v(5), ValueDef::Const(Const::Int(i32::MAX))),
        (v(6), ValueDef::Const(Const::Str(0))),
        (v(7), ValueDef::Const(Const::Bool(true))),
    ]);
    assert_eq!(
        emit_constants(&func, &literals),
        "{\n      \"v4\": 2.5,\n      \"v3\": -7,\n      \"v5\": 2147483647,\n      \"v2\": false,\n      \"v7\": true,\n      \"v1\": \"say \\\"hi\\\"\\n\",\n      \"v6\": \"first\"\n    }"
    );
}

#[test]
fn unary_and_binary_instructions() {
    assert_eq!(
        inst(vec![v(3)], InstructionData::Unary { opcode: op("fneg"), arg: v(1) }),
        r#"{"result": "v3", "opcode": "fneg", "operands": ["v1"]}"#
    );
    assert_eq!(
        inst(vec![v(3)], InstructionData::Binary { opcode: op("fadd"), lhs: v(1), rhs: v(2) }),
        r#"{"result": "v3", "opcode": "fadd", "operands": ["v1", "v2"]}"#
    );
}

#[test]
fn control_flow_instructions() {
    let branch =
        InstructionData::Branch { cond: v(1), then_dst: block(2), else_dst: block(3) };
    assert_eq!(
        inst(vec![], branch),
        r#"{"result": null, "opcode": "br", "condition": "v1", "true_block": "block2", "false_block": "block3"}"#
    );
    assert_eq!(
        inst(vec![], InstructionData::Jump { destination: block(4) }),
        r#"{"result": null, "opcode": "jmp", "targets": ["block4"]}"#
    );
    assert_eq!(
        inst(vec![], InstructionData::Exit),
        r#"{"result": null, "opcode": "exit", "operands": []}"#
    );
}

#[test]
fn phi_instructions() {
    assert_eq!(
        inst(vec![v(5)], InstructionData::PhiNode(vec![(block(1), v(2)), (block(3), v(4))])),
        r#"{"result": "v5", "opcode": "phi", "phi_edges": [{"value": "v2", "block": "block1"}, {"value": "v4", "block": "block3"}]}"#
    );
    assert_eq!(
        inst(vec![v(5)], InstructionData::PhiNode(vec![])),
        r#"{"result": "v5", "opcode": "phi", "phi_edges": []}"#
    );
}

#[test]
fn calls() {
    let func_ref = FuncRef { text: "inst1".to_string() };
    assert_eq!(
        inst(vec![v(5), v(6)], InstructionData::Call { func_ref, args: vec![v(1), v(2)] }),
        r#"{"result": "v5", "opcode": "call", "call_target": "inst1", "operands": ["v1", "v2"]}"#
    );
    let func_ref = FuncRef { text: "inst0".to_string() };
    assert_eq!(
        inst(vec![], InstructionData::Call { func_ref, args: vec![] }),
        r#"{"result": null, "opcode": "call", "call_target": "inst0", "operands": []}"#
    );
}

#[test]
fn blocks() {
    assert_eq!(emit_blocks(&with_values(vec![])), "[]");
    let func = Function {
        values: vec![],
        layout: vec![
            BlockLayout { block: block(0), insts: vec![] },
            BlockLayout {
                block: block(1),
                insts: vec![
                    Inst { results: vec![], data: InstructionData::Exit },
                    Inst {
                        results: vec![],
                        data: InstructionData::Jump { destination: block(0) },
                    },
                ],
            },
        ],
    };
    assert_eq!(
        emit_blocks(&func),
        "[\n      {\"label\": \"block0\", \"insts\": []},\n      {\"label\": \"block1\", \"insts\": [\n        {\"result\": null, \"opcode\": \"exit\", \"operands\": []},\n        {\"result\": null, \"opcode\": \"jmp\", \"targets\": [\"block0\"]}\n      ]}\n    ]"
    );
}

#[test]
fn an_empty_function() {
    let literals = Rodeo::new();
    let mut reg = BranchReg::new();
    let intern = HirInterner { params: vec![], callbacks: vec![] };
    let cached: Vec<(Value, CacheSlot)> = vec![];
    let expected = "{\n    \"name\": \"f\",\n    \"args\": [],\n    \"params\": {},\n    \"constants\": {},\n    \"call_decls\": [],\n    \"blocks\": [],\n    \"cache_mapping\": []\n  }";
    let func = with_values(vec![]);
    assert_eq!(emit_function_json("f", &func, &intern, &literals, None, &mut reg), expected);
    assert_eq!(
        emit_function_json("f", &func, &intern, &literals, Some(&cached), &mut reg),
        expected
    );
    assert_eq!(reg.len(), 0);
}

#[test]
fn a_small_function() {
    let literals = Rodeo::new();
    let mut reg = BranchReg::new();
    let current = CurrentKind::Unnamed { hi: Node { name: "a".to_string() }, lo: None };
    let intern = HirInterner {
        params: vec![
            (ParamKind::Temperature, v(16)),
            (ParamKind::Current(current), v(17)),
        ],
        callbacks: vec![CallBackKind::TimeDerivative, CallBackKind::Print],
    };
    let cached = vec![(v(1), CacheSlot { text: "cslot0".to_string() })];
    let func = with_values(vec![(v(17), ValueDef::Param(1)), (v(16), ValueDef::Param(0))]);
    let expected = r#"{
    "name": "_init",
    "args": ["v16", "v17"],
    "params": {
      "v16": {"tag":"Temperature"},
      "v17": {"tag":"CurrentUnnamed","branch_id":0,"hi":"a","lo":null}
    },
    "constants": {},
    "call_decls": [
      {"name": "inst0", "raw": "fn %ddt"},
      {"name": "inst1", "raw": "fn %Print"}
    ],
    "blocks": [],
    "cache_mapping": [
      {"init_value": "v1", "cslot": "cslot0"}
    ]
  }"#;
    assert_eq!(
        emit_function_json("_init", &func, &intern, &literals, Some(&cached), &mut reg),
        expected
    );
    assert_eq!(reg.len(), 1);
}
