use quill::ast::NodeKind;
use quill::ast::OutputExpr;
use quill::ast::RespectExpr;
use quill::ast::ValueExpr;
use quill::ast::GateExpr;
use quill::parser::parse;

const SCENARIO: &str = "Maistow qubit q0 = 0; Maistow qubit q1 = 1; h q0; cx q0, q1; \
     Maistow cbit c0 = 0; Maistow cbit c1 = 1; measure q0 -> c0; measure q1 -> c1; return 1000;";

#[test]
fn parse_scenario_statement_count() {
    let ast = parse(SCENARIO).expect("scenario must parse");
    assert_eq!(ast.node_kind, NodeKind::Program);
    let children = ast.children.as_ref().expect("program has children");
    // Nine statements plus the end marker.
    assert_eq!(children.len(), 10);
    assert_eq!(children[9].node_kind, NodeKind::EOI);
}

#[test]
fn parse_empty_program() {
    let ast = parse("").expect("empty text parses");
    let children = ast.children.as_ref().unwrap();
    assert_eq!(children.len(), 1);
    assert_eq!(children[0].node_kind, NodeKind::EOI);

    let ast = parse("   \n\t  ").expect("whitespace parses");
    assert_eq!(ast.children.as_ref().unwrap().len(), 1);
}

#[test]
fn parse_assignment_shape() {
    let ast = parse("Canstow qubit q0 = 0;").unwrap();
    let stmt = &ast.children.as_ref().unwrap()[0];
    assert_eq!(stmt.node_kind, NodeKind::Assignment);
    let cs = stmt.children.as_ref().unwrap();
    assert_eq!(cs.len(), 4);
    assert_eq!(cs[0].node_kind, NodeKind::RespectType(RespectExpr::Canstow));
    assert_eq!(cs[1].node_kind, NodeKind::ValueType(ValueExpr::Qubit));
    assert_eq!(cs[2].node_kind, NodeKind::Name(String::from("q0")));
    assert_eq!(cs[3].node_kind, NodeKind::Qubit(String::from("0")));
}

#[test]
fn parse_register_and_tensor_values() {
    let ast = parse("Maistow qreg r = 0[4];").unwrap();
    let cs = ast.children.as_ref().unwrap()[0].children.as_ref().unwrap();
    assert_eq!(cs[3].node_kind, NodeKind::QReg);
    let reg = cs[3].children.as_ref().unwrap();
    assert_eq!(reg[0].node_kind, NodeKind::Qubit(String::from("0")));
    assert_eq!(reg[1].node_kind, NodeKind::Index(4));

    let ast = parse("Maistow qreg r = 0[2] * 1[3];").unwrap();
    let cs = ast.children.as_ref().unwrap()[0].children.as_ref().unwrap();
    assert_eq!(cs[3].node_kind, NodeKind::QRegTensor);
    assert_eq!(cs[3].children.as_ref().unwrap().len(), 2);

    let ast = parse("Maistow creg c = 1[3];").unwrap();
    let cs = ast.children.as_ref().unwrap()[0].children.as_ref().unwrap();
    assert_eq!(cs[3].node_kind, NodeKind::CReg);
    let reg = cs[3].children.as_ref().unwrap();
    assert_eq!(reg[0].node_kind, NodeKind::CBit(1));
    assert_eq!(reg[1].node_kind, NodeKind::Index(3));

    let ast = parse("Maistow creg c = 0[2] * 1[1];").unwrap();
    let cs = ast.children.as_ref().unwrap()[0].children.as_ref().unwrap();
    assert_eq!(cs[3].node_kind, NodeKind::CRegTensor);
}

#[test]
fn parse_gate_shapes() {
    let ast = parse("h q0;").unwrap();
    let cs = ast.children.as_ref().unwrap()[0].children.as_ref().unwrap();
    assert_eq!(cs.len(), 3);
    assert_eq!(cs[0].node_kind, NodeKind::Name(String::from("h")));
    assert_eq!(cs[1].node_kind, NodeKind::GateType(GateExpr::Q1Gate));
    assert_eq!(cs[2].node_kind, NodeKind::Name(String::from("q0")));

    let ast = parse("cx q0, q1;").unwrap();
    let cs = ast.children.as_ref().unwrap()[0].children.as_ref().unwrap();
    assert_eq!(cs.len(), 4);
    assert_eq!(cs[1].node_kind, NodeKind::GateType(GateExpr::Q2Gate));
    assert_eq!(cs[3].node_kind, NodeKind::ControlList);
    assert_eq!(cs[3].children.as_ref().unwrap().len(), 1);

    let ast = parse("rx q0 (pi/2);").unwrap();
    let cs = ast.children.as_ref().unwrap()[0].children.as_ref().unwrap();
    assert_eq!(cs.len(), 4);
    assert_eq!(cs[1].node_kind, NodeKind::GateType(GateExpr::Q1ParamGate));
    assert_eq!(cs[3].node_kind, NodeKind::ValList);
    let ps = cs[3].children.as_ref().unwrap();
    assert_eq!(ps.len(), 1);
    assert_eq!(ps[0].node_kind, NodeKind::PI(1, 2));

    let ast = parse("crz q0, q1 (pi*3/4);").unwrap();
    let cs = ast.children.as_ref().unwrap()[0].children.as_ref().unwrap();
    assert_eq!(cs.len(), 5);
    assert_eq!(cs[1].node_kind, NodeKind::GateType(GateExpr::Q2ParamGate));
    assert_eq!(cs[3].node_kind, NodeKind::ControlList);
    assert_eq!(cs[4].node_kind, NodeKind::ValList);
    assert_eq!(cs[4].children.as_ref().unwrap()[0].node_kind, NodeKind::PI(3, 4));

    let ast = parse("ccx q0, q1, q2;").unwrap();
    let cs = ast.children.as_ref().unwrap()[0].children.as_ref().unwrap();
    assert_eq!(cs[1].node_kind, NodeKind::GateType(GateExpr::ToffoliGate));
    assert_eq!(cs[3].children.as_ref().unwrap().len(), 2);

    let ast = parse("mcx q0, q1, q2, q3;").unwrap();
    let cs = ast.children.as_ref().unwrap()[0].children.as_ref().unwrap();
    assert_eq!(cs[1].node_kind, NodeKind::GateType(GateExpr::QMultiGate));
    assert_eq!(cs[3].children.as_ref().unwrap().len(), 3);
}

#[test]
fn parse_numeric_parameters() {
    let ast = parse("rx q0 (2);").unwrap();
    let cs = ast.children.as_ref().unwrap()[0].children.as_ref().unwrap();
    assert_eq!(cs[3].children.as_ref().unwrap()[0].node_kind, NodeKind::Int(2));

    let ast = parse("rx q0 (-7);").unwrap();
    let cs = ast.children.as_ref().unwrap()[0].children.as_ref().unwrap();
    assert_eq!(cs[3].children.as_ref().unwrap()[0].node_kind, NodeKind::Int(-7));

    let ast = parse("rx q0 (3.14);").unwrap();
    let cs = ast.children.as_ref().unwrap()[0].children.as_ref().unwrap();
    assert_eq!(
        cs[3].children.as_ref().unwrap()[0].node_kind,
        NodeKind::Float(String::from("3.14"))
    );

    let ast = parse("rx q0 (-0.5);").unwrap();
    let cs = ast.children.as_ref().unwrap()[0].children.as_ref().unwrap();
    assert_eq!(
        cs[3].children.as_ref().unwrap()[0].node_kind,
        NodeKind::Float(String::from("-0.5"))
    );

    let ast = parse("rx q0 (pi);").unwrap();
    let cs = ast.children.as_ref().unwrap()[0].children.as_ref().unwrap();
    assert_eq!(cs[3].children.as_ref().unwrap()[0].node_kind, NodeKind::PI(1, 1));

    let ast = parse("rx q0 (pi*3);").unwrap();
    let cs = ast.children.as_ref().unwrap()[0].children.as_ref().unwrap();
    assert_eq!(cs[3].children.as_ref().unwrap()[0].node_kind, NodeKind::PI(3, 1));
}

#[test]
fn parse_slices() {
    let ast = parse("cx r[0], w[1:2];").unwrap();
    let cs = ast.children.as_ref().unwrap()[0].children.as_ref().unwrap();
    assert_eq!(cs[2].node_kind, NodeKind::QRegSlice);
    let slice = cs[2].children.as_ref().unwrap();
    assert_eq!(slice[0].node_kind, NodeKind::Name(String::from("r")));
    assert_eq!(slice[1].node_kind, NodeKind::Indices);
    assert_eq!(slice[1].children.as_ref().unwrap().len(), 1);
    assert_eq!(slice[1].children.as_ref().unwrap()[0].node_kind, NodeKind::Index(0));

    let ctl = &cs[3].children.as_ref().unwrap()[0];
    assert_eq!(ctl.node_kind, NodeKind::QRegSlice);
    let idxs = ctl.children.as_ref().unwrap()[1].children.as_ref().unwrap();
    assert_eq!(idxs.len(), 2);
    assert_eq!(idxs[0].node_kind, NodeKind::Index(1));
    assert_eq!(idxs[1].node_kind, NodeKind::Index(2));

    let ast = parse("measure q[0] -> c[0];").unwrap();
    let cs = ast.children.as_ref().unwrap()[0].children.as_ref().unwrap();
    assert_eq!(cs[0].node_kind, NodeKind::QRegSlice);
    assert_eq!(cs[1].node_kind, NodeKind::CRegSlice);
}

#[test]
fn parse_measurement_shape() {
    let ast = parse("measure q0 -> c0;").unwrap();
    let stmt = &ast.children.as_ref().unwrap()[0];
    assert_eq!(stmt.node_kind, NodeKind::Measurement);
    let cs = stmt.children.as_ref().unwrap();
    assert_eq!(cs.len(), 2);
    assert_eq!(cs[0].node_kind, NodeKind::Name(String::from("q0")));
    assert_eq!(cs[1].node_kind, NodeKind::Name(String::from("c0")));
}

#[test]
fn parse_return_forms() {
    let ast = parse("return 1000;").unwrap();
    let cs = ast.children.as_ref().unwrap()[0].children.as_ref().unwrap();
    assert_eq!(cs.len(), 1);
    assert_eq!(cs[0].node_kind, NodeKind::Int(1000));

    let ast = parse("return -5;").unwrap();
    let cs = ast.children.as_ref().unwrap()[0].children.as_ref().unwrap();
    assert_eq!(cs[0].node_kind, NodeKind::Int(-5));

    let ast = parse("return 10 -> counts;").unwrap();
    let cs = ast.children.as_ref().unwrap()[0].children.as_ref().unwrap();
    assert_eq!(cs.len(), 2);
    assert_eq!(cs[1].node_kind, NodeKind::OutputType(OutputExpr::Counts));

    let ast = parse("return 10 -> statevector;").unwrap();
    let cs = ast.children.as_ref().unwrap()[0].children.as_ref().unwrap();
    assert_eq!(cs[1].node_kind, NodeKind::OutputType(OutputExpr::Statevector));

    let ast = parse("return 10 -> probabilities;").unwrap();
    let cs = ast.children.as_ref().unwrap()[0].children.as_ref().unwrap();
    assert_eq!(cs[1].node_kind, NodeKind::OutputType(OutputExpr::Probabilities));
}

#[test]
fn parse_rejects_bad_text() {
    assert!(parse("blah q0;").is_err());
    assert!(parse("Maistow qubit q0 = 0").is_err());
    assert!(parse("Maistow int x = 3;").is_err());
    assert!(parse("Maistow qubit = 0;").is_err());
    assert!(parse("cx q0 q1;").is_err());
    assert!(parse("measure q0 c0;").is_err());
    assert!(parse("return 10 -> histogram;").is_err());
    assert!(parse("rx q0 ();").is_err());
    assert!(parse("h q0; 7;").is_err());
    assert!(parse(";").is_err());
}

#[test]
fn parse_rejects_oversized_number() {
    assert!(parse("return 99999999999;").is_err());
    let err = parse("return 99999999999;").unwrap_err();
    assert!(err.pos > 0);
}

#[test]
fn parse_error_position_points_at_fault() {
    let err = parse("h q0; blah q1;").unwrap_err();
    assert_eq!(err.pos, 6);
}

#[test]
fn parse_tolerates_irregular_whitespace() {
    let ast = parse("  Maistow   qubit\tq0 =  0 ;\n  h q0 ;\r\n").unwrap();
    let children = ast.children.as_ref().unwrap();
    assert_eq!(children.len(), 3);
    assert_eq!(children[0].node_kind, NodeKind::Assignment);
    assert_eq!(children[1].node_kind, NodeKind::GateApplication);
    assert_eq!(children[2].node_kind, NodeKind::EOI);
}

#[test]
fn ast_node_new_packs_its_parts() {
    let leaf = quill::ast::ASTNode::new(None, NodeKind::Int(7));
    assert_eq!(leaf.node_kind, NodeKind::Int(7));
    assert!(leaf.children.is_none());
    let parent = quill::ast::ASTNode::new(Some(vec![leaf]), NodeKind::Return);
    assert_eq!(parent.children.as_ref().unwrap().len(), 1);
}

#[test]
fn quill_parser_type_exists() {
    let _parser = quill::parser::QuillParser;
}

#[test]
fn parse_rejects_trailing_text_after_last_statement() {
    assert!(parse("h q0; x").is_err());
    assert!(parse("h q0; Maistow").is_err());
}

#[test]
fn parse_accepts_tight_and_loose_token_spacing() {
    assert!(parse("measure q0->c0;").is_ok());
    assert!(parse("cx q0 ,q1 ;").is_ok());
    assert!(parse("rx q0(pi);").is_ok());
    assert!(parse("Maistow qubit q0 = 0 ;").is_ok());
}
