use openvaf::branches::BranchReg;
use openvaf::model::{
    Branch, BranchKind, CallBackKind, CurrentKind, ImplicitEquation, Node, ParamKind, ParamSysFun,
    Parameter, Variable,
};
use openvaf::params::{callback_name, current_kind_json, param_kind_json};

fn node(name: &str) -> Node {
    Node { name: name.to_string() }
}

fn written(kind: ParamKind) -> String {
    let mut reg = BranchReg::new();
    param_kind_json(&kind, 7, &mut reg)
}

#[test]
fn voltages() {
    assert_eq!(
        written(ParamKind::Voltage { hi: node("a"), lo: Some(node("c")) }),
        r#"{"tag":"Voltage","hi":"a","lo":"c","hi_node":"a","lo_node":"c"}"#
    );
    assert_eq!(
        written(ParamKind::Voltage { hi: node("a"), lo: None }),
        r#"{"tag":"Voltage","hi":"a","lo":null,"hi_node":"a","lo_node":null}"#
    );
}

#[test]
fn node_names_of_a_voltage_are_not_escaped() {
    assert_eq!(
        written(ParamKind::Voltage { hi: node("a\""), lo: None }),
        "{\"tag\":\"Voltage\",\"hi\":\"a\"\",\"lo\":null,\"hi_node\":\"a\"\",\"lo_node\":null}"
    );
}

#[test]
fn model_parameters() {
    assert_eq!(
        written(ParamKind::Param(Parameter { name: "is".to_string() })),
        r#"{"tag":"Param","name":"is","param_id":7}"#
    );
    assert_eq!(
        written(ParamKind::ParamGiven { param: Parameter { name: "r\"".to_string() } }),
        r#"{"tag":"ParamGiven","name":"r\"","param_id":7}"#
    );
}

#[test]
fn simulator_quantities() {
    assert_eq!(written(ParamKind::Temperature), r#"{"tag":"Temperature"}"#);
    assert_eq!(written(ParamKind::Abstime), r#"{"tag":"Abstime"}"#);
    assert_eq!(written(ParamKind::EnableLim), r#"{"tag":"EnableLim"}"#);
    assert_eq!(written(ParamKind::EnableIntegration), r#"{"tag":"EnableIntegration"}"#);
    assert_eq!(
        written(ParamKind::ParamSysFun(ParamSysFun { text: "mfactor".to_string() })),
        r#"{"tag":"ParamSysFun","name":"mfactor"}"#
    );
}

#[test]
fn states_and_ports() {
    assert_eq!(
        written(ParamKind::HiddenState(Variable { name: "x\\".to_string() })),
        r#"{"tag":"HiddenState","var":"x\\","var_id":7}"#
    );
    assert_eq!(
        written(ParamKind::PortConnected { port: node("p\n") }),
        r#"{"tag":"PortConnected","port":"p\n"}"#
    );
    assert_eq!(written(ParamKind::PrevState(3)), r#"{"tag":"PrevState","index":3}"#);
    assert_eq!(written(ParamKind::NewState(12)), r#"{"tag":"NewState","index":12}"#);
    assert_eq!(
        written(ParamKind::ImplicitUnknown(ImplicitEquation {
            index: 5,
            text: "implicit_equation_5".to_string(),
        })),
        r#"{"tag":"ImplicitUnknown","id":5}"#
    );
}

#[test]
fn currents() {
    let mut reg = BranchReg::new();
    let named = CurrentKind::Branch(Branch {
        name: "b\"r".to_string(),
        kind: BranchKind::Nodes(node("a"), node("c")),
    });
    assert_eq!(
        current_kind_json(&named, &mut reg),
        r#"{"tag":"CurrentBranch","branch":"b\"r","branch_id":0,"hi":"a","lo":"c"}"#
    );
    let grounded = CurrentKind::Branch(Branch {
        name: "g".to_string(),
        kind: BranchKind::NodeGnd(node("a")),
    });
    assert_eq!(
        current_kind_json(&grounded, &mut reg),
        r#"{"tag":"CurrentBranch","branch":"g","branch_id":1,"hi":"a","lo":null}"#
    );
    let unnamed = CurrentKind::Unnamed { hi: node("c\t"), lo: Some(node("a\"")) };
    assert_eq!(
        current_kind_json(&unnamed, &mut reg),
        r#"{"tag":"CurrentUnnamed","branch_id":2,"hi":"c\t","lo":"a\""}"#
    );
    let single = CurrentKind::Unnamed { hi: node("a"), lo: None };
    assert_eq!(
        current_kind_json(&single, &mut reg),
        r#"{"tag":"CurrentUnnamed","branch_id":1,"hi":"a","lo":null}"#
    );
    assert_eq!(reg.len(), 3);
}

#[test]
fn a_port_current_registers_no_branch() {
    let mut reg = BranchReg::new();
    let port = CurrentKind::Port(node("p\""));
    assert_eq!(current_kind_json(&port, &mut reg), r#"{"tag":"CurrentPort","port":"p\""}"#);
    assert_eq!(reg.len(), 0);
    assert_eq!(
        param_kind_json(&ParamKind::Current(port), 0, &mut reg),
        r#"{"tag":"CurrentPort","port":"p\""}"#
    );
    assert_eq!(reg.len(), 0);
}

#[test]
fn callback_names() {
    assert_eq!(callback_name(&CallBackKind::TimeDerivative), "ddt");
    assert_eq!(callback_name(&CallBackKind::NodeDerivative(node("n"))), "ddx_n");
    assert_eq!(callback_name(&CallBackKind::Derivative), "ddx_param");
    assert_eq!(callback_name(&CallBackKind::SimParam), "simparam");
    assert_eq!(callback_name(&CallBackKind::SimParamOpt), "SimParamOpt");
    assert_eq!(callback_name(&CallBackKind::SimParamStr), "simparam_str");
    assert_eq!(callback_name(&CallBackKind::Analysis), "Analysis");
    assert_eq!(
        callback_name(&CallBackKind::CollapseHint(node("a"), Some(node("b")))),
        "collapse_a_Some(b)"
    );
    assert_eq!(callback_name(&CallBackKind::CollapseHint(node("a"), None)), "collapse_a_None");
    assert_eq!(callback_name(&CallBackKind::StoreLimit), "StoreLimit");
    assert_eq!(callback_name(&CallBackKind::LimDiscontinuity), "LimDiscontinuity");
    assert_eq!(callback_name(&CallBackKind::BuiltinLimit), "BuiltinLimit");
    assert_eq!(callback_name(&CallBackKind::WhiteNoise), "WhiteNoise");
    assert_eq!(callback_name(&CallBackKind::FlickerNoise), "FlickerNoise");
    assert_eq!(callback_name(&CallBackKind::Print), "Print");
    assert_eq!(callback_name(&CallBackKind::ParamInfo), "set_Invalid");
    assert_eq!(callback_name(&CallBackKind::SetRetFlag), "set_Invalid");
    assert_eq!(callback_name(&CallBackKind::NoiseTable), "WhiteNoise");
}
