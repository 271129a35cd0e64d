use quill::ast::ASTNode;
use quill::ast::NodeKind;
use quill::ast::RespectExpr;
use quill::ast::ValueExpr;
use quill::parser::parse;
use quill::type_checker::type_check;
use quill::type_checker::ErrorKind;

fn check_text(src: &str) -> Result<(), quill::type_checker::CheckError> {
    let ast = parse(src).expect("test text must parse");
    type_check(&ast)
}

#[test]
fn scenario_a_checks_cleanly() {
    let src = "Maistow qubit q0 = 0; Maistow qubit q1 = 1; h q0; cx q0, q1; \
         Maistow cbit c0 = 0; Maistow cbit c1 = 1; measure q0 -> c0; measure q1 -> c1; \
         return 1000;";
    assert!(check_text(src).is_ok());
}

#[test]
fn scenario_b_return_before_assignment_is_ordering_error() {
    let err = check_text("Maistow qubit q0 = 0; return 10; Maistow qubit q1 = 1;").unwrap_err();
    assert_eq!(err.kind, ErrorKind::OrderingError);
    assert_eq!(err.stmt_index, 2);
}

#[test]
fn scenario_c_self_control_is_duplicate_operand_error() {
    let err = check_text("Maistow qubit q0 = 0; cx q0, q0;").unwrap_err();
    assert_eq!(err.kind, ErrorKind::DuplicateOperandError);
    assert_eq!(err.stmt_index, 2);
}

#[test]
fn scenario_d_unbound_gate_target_is_unbound_name_error() {
    let err = check_text("h q0;").unwrap_err();
    assert_eq!(err.kind, ErrorKind::UnboundNameError);
    assert_eq!(err.stmt_index, 1);
}

#[test]
fn rebinding_same_kind_succeeds() {
    assert!(check_text("Maistow qubit a = 0; Canstow qubit a = 1; h a;").is_ok());
}

#[test]
fn rebinding_other_kind_is_type_error() {
    let err = check_text("Maistow qubit a = 0; Maistow cbit a = 0;").unwrap_err();
    assert_eq!(err.kind, ErrorKind::TypeError);
    assert_eq!(err.stmt_index, 2);
}

#[test]
fn param_gate_without_parameters_is_arity_error() {
    let err = check_text("Maistow qubit q0 = 0; rx q0;").unwrap_err();
    assert_eq!(err.kind, ErrorKind::ArityError);
    assert_eq!(err.stmt_index, 2);
}

#[test]
fn param_gate_with_two_parameters_is_arity_error() {
    let err = check_text("Maistow qubit q0 = 0; rx q0 (pi/2, pi);").unwrap_err();
    assert_eq!(err.kind, ErrorKind::ArityError);
}

#[test]
fn param_gate_with_one_numeric_parameter_succeeds() {
    assert!(check_text("Maistow qubit q0 = 0; rx q0 (pi/2);").is_ok());
    assert!(check_text("Maistow qubit q0 = 0; rx q0 (2);").is_ok());
    assert!(check_text("Maistow qubit q0 = 0; rx q0 (3.14);").is_ok());
    assert!(check_text("Maistow qubit q0 = 0; Maistow qubit q1 = 1; crz q0, q1 (pi);").is_ok());
}

#[test]
fn param_gate_with_valid_controls_succeeds() {
    // A parameterized gate may carry controls; they must resolve and obey
    // the duplicate rule, and the single-parameter rule still applies.
    assert!(check_text("Maistow qubit q0 = 0; Maistow qubit q1 = 1; rx q0, q1 (pi);").is_ok());
}

#[test]
fn param_gate_with_self_control_is_duplicate_operand_error() {
    let err = check_text("Maistow qubit q0 = 0; crz q0, q0 (pi);").unwrap_err();
    assert_eq!(err.kind, ErrorKind::DuplicateOperandError);
}

#[test]
fn param_gate_with_unbound_control_is_unbound_name_error() {
    let err = check_text("Maistow qubit q0 = 0; crz q0, zz (pi);").unwrap_err();
    assert_eq!(err.kind, ErrorKind::UnboundNameError);
}

#[test]
fn param_gate_controls_are_checked_before_the_missing_parameters() {
    let err = check_text("Maistow qubit q0 = 0; crz q0, q0;").unwrap_err();
    assert_eq!(err.kind, ErrorKind::DuplicateOperandError);
}

#[test]
fn param_gate_with_controls_but_no_parameters_is_arity_error() {
    let err = check_text("Maistow qubit q0 = 0; Maistow qubit q1 = 1; crz q0, q1;").unwrap_err();
    assert_eq!(err.kind, ErrorKind::ArityError);
}

#[test]
fn single_qubit_gate_with_controls_is_arity_error() {
    let err = check_text("Maistow qubit q0 = 0; Maistow qubit q1 = 1; h q0, q1;").unwrap_err();
    assert_eq!(err.kind, ErrorKind::ArityError);
}

#[test]
fn controlled_gate_without_controls_is_arity_error() {
    let err = check_text("Maistow qubit q0 = 0; cx q0;").unwrap_err();
    assert_eq!(err.kind, ErrorKind::ArityError);
}

#[test]
fn controlled_gate_with_parameters_is_arity_error() {
    let err = check_text("Maistow qubit q0 = 0; cx q0 (pi);").unwrap_err();
    assert_eq!(err.kind, ErrorKind::ArityError);
}

#[test]
fn two_qubit_gate_with_two_controls_is_arity_error() {
    let err = check_text(
        "Maistow qubit q0 = 0; Maistow qubit q1 = 1; Maistow qubit q2 = 0; cx q0, q1, q2;",
    )
    .unwrap_err();
    assert_eq!(err.kind, ErrorKind::ArityError);
}

#[test]
fn multi_gate_with_duplicate_controls_is_duplicate_operand_error() {
    let err = check_text("Maistow qubit q0 = 0; Maistow qubit q1 = 1; mcx q0, q1, q1;")
        .unwrap_err();
    assert_eq!(err.kind, ErrorKind::DuplicateOperandError);
}

#[test]
fn multi_gate_with_target_among_controls_is_duplicate_operand_error() {
    let err = check_text("Maistow qubit q0 = 0; Maistow qubit q1 = 1; mcx q0, q1, q0;")
        .unwrap_err();
    assert_eq!(err.kind, ErrorKind::DuplicateOperandError);
}

#[test]
fn toffoli_with_distinct_controls_succeeds() {
    let src = "Maistow qubit q0 = 0; Maistow qubit q1 = 1; Maistow qubit q2 = 0; ccx q0, q1, q2;";
    assert!(check_text(src).is_ok());
}

#[test]
fn slices_resolve_through_their_register() {
    let src = "Maistow qreg r = 0[4]; Maistow qreg w = 1[4]; Maistow creg c = 0[4]; \
         cx r[0], w[1]; measure r[0] -> c[0]; return 5;";
    assert!(check_text(src).is_ok());
}

#[test]
fn slices_of_one_register_share_its_identity() {
    let err = check_text("Maistow qreg r = 0[4]; cx r[0], r[1];").unwrap_err();
    assert_eq!(err.kind, ErrorKind::DuplicateOperandError);
}

#[test]
fn gate_target_of_wrong_kind_is_type_error() {
    let err = check_text("Maistow cbit c0 = 0; h c0;").unwrap_err();
    assert_eq!(err.kind, ErrorKind::TypeError);
}

#[test]
fn sliced_gate_target_must_be_quantum_register() {
    let err = check_text("Maistow creg c = 0[4]; h c[0];").unwrap_err();
    assert_eq!(err.kind, ErrorKind::TypeError);
}

#[test]
fn measurement_of_classical_operand_is_type_error() {
    let err = check_text("Maistow cbit c0 = 0; Maistow cbit c1 = 1; measure c0 -> c1;")
        .unwrap_err();
    assert_eq!(err.kind, ErrorKind::TypeError);
}

#[test]
fn measurement_into_qubit_is_type_error() {
    let err = check_text("Maistow qubit q0 = 0; Maistow qubit q1 = 1; measure q0 -> q1;")
        .unwrap_err();
    assert_eq!(err.kind, ErrorKind::TypeError);
}

#[test]
fn measurement_of_unbound_recipient_is_unbound_name_error() {
    let err = check_text("Maistow qubit q0 = 0; measure q0 -> c0;").unwrap_err();
    assert_eq!(err.kind, ErrorKind::UnboundNameError);
}

#[test]
fn zero_shots_is_range_error() {
    let err = check_text("return 0;").unwrap_err();
    assert_eq!(err.kind, ErrorKind::RangeError);
    assert_eq!(err.stmt_index, 1);
}

#[test]
fn negative_shots_is_range_error() {
    let err = check_text("Maistow qubit q0 = 0; h q0; return -5;").unwrap_err();
    assert_eq!(err.kind, ErrorKind::RangeError);
    assert_eq!(err.stmt_index, 3);
}

#[test]
fn one_shot_with_output_tag_succeeds() {
    assert!(check_text("return 1 -> statevector;").is_ok());
}

#[test]
fn empty_program_checks_cleanly() {
    assert!(check_text("").is_ok());
}

#[test]
fn non_program_root_is_structural_error() {
    let root = ASTNode { children: None, node_kind: NodeKind::Name(String::from("x")) };
    let err = type_check(&root).unwrap_err();
    assert_eq!(err.kind, ErrorKind::StructuralError);
    assert_eq!(err.stmt_index, 0);
}

#[test]
fn assignment_with_declared_kind_mismatch_is_type_error() {
    // Hand-built: declared cbit, value a qubit literal.  The grammar cannot
    // produce this shape, the checker still rejects it.
    let stmt = ASTNode {
        children: Some(vec![
            ASTNode { children: None, node_kind: NodeKind::RespectType(RespectExpr::Maistow) },
            ASTNode { children: None, node_kind: NodeKind::ValueType(ValueExpr::CBit) },
            ASTNode { children: None, node_kind: NodeKind::Name(String::from("a")) },
            ASTNode { children: None, node_kind: NodeKind::Qubit(String::from("0")) },
        ]),
        node_kind: NodeKind::Assignment,
    };
    let prog = ASTNode {
        children: Some(vec![stmt, ASTNode { children: None, node_kind: NodeKind::EOI }]),
        node_kind: NodeKind::Program,
    };
    let err = type_check(&prog).unwrap_err();
    assert_eq!(err.kind, ErrorKind::TypeError);
    assert_eq!(err.stmt_index, 1);
}

#[test]
fn assignment_with_foreign_value_is_structural_error() {
    let stmt = ASTNode {
        children: Some(vec![
            ASTNode { children: None, node_kind: NodeKind::RespectType(RespectExpr::Maistow) },
            ASTNode { children: None, node_kind: NodeKind::ValueType(ValueExpr::CBit) },
            ASTNode { children: None, node_kind: NodeKind::Name(String::from("a")) },
            ASTNode { children: None, node_kind: NodeKind::Int(3) },
        ]),
        node_kind: NodeKind::Assignment,
    };
    let prog = ASTNode {
        children: Some(vec![stmt, ASTNode { children: None, node_kind: NodeKind::EOI }]),
        node_kind: NodeKind::Program,
    };
    let err = type_check(&prog).unwrap_err();
    assert_eq!(err.kind, ErrorKind::StructuralError);
}

#[test]
fn program_without_end_marker_is_structural_error() {
    let shots = ASTNode { children: None, node_kind: NodeKind::Int(5) };
    let ret = ASTNode { children: Some(vec![shots]), node_kind: NodeKind::Return };
    let prog = ASTNode { children: Some(vec![ret]), node_kind: NodeKind::Program };
    let err = type_check(&prog).unwrap_err();
    assert_eq!(err.kind, ErrorKind::StructuralError);
    assert_eq!(err.stmt_index, 0);
}

#[test]
fn misplaced_return_reported_before_later_faults() {
    // The ordering scan runs first, so the unbound gate target after the
    // return is not what gets reported.
    let err = check_text("return 10; h q9;").unwrap_err();
    assert_eq!(err.kind, ErrorKind::OrderingError);
    assert_eq!(err.stmt_index, 1);
}

#[test]
fn two_qubit_gate_with_control_and_parameters_is_arity_error() {
    let err = check_text("Maistow qubit q0 = 0; Maistow qubit q1 = 1; cx q0, q1 (pi);")
        .unwrap_err();
    assert_eq!(err.kind, ErrorKind::ArityError);
}

#[test]
fn toffoli_with_duplicate_controls_is_duplicate_operand_error() {
    let err = check_text("Maistow qubit q0 = 0; Maistow qubit q1 = 1; ccx q0, q1, q1;")
        .unwrap_err();
    assert_eq!(err.kind, ErrorKind::DuplicateOperandError);
}

#[test]
fn tensor_assignment_binds_register_kind() {
    let src = "Maistow qreg r = 0[2] * 1[2]; Maistow qubit q0 = 0; cx q0, r[1]; return 3;";
    assert!(check_text(src).is_ok());
}
