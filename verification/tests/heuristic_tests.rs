use quill::ast::ASTNode;
use quill::ast::NodeKind;
use quill::optimizations::respect_ratio;
use quill::parser::parse;

fn ratio_of(src: &str) -> bool {
    respect_ratio(&parse(src).expect("test text must parse"))
}

#[test]
fn zero_assignments_give_false_without_crashing() {
    assert!(!ratio_of(""));
    assert!(!ratio_of("return 5;"));
}

#[test]
fn four_of_four_favored_is_false() {
    // Ratio 1.0 lies above 9/10.
    let src = "Maistow qubit a = 0; Maistow qubit b = 0; Maistow qubit c = 0; \
         Maistow qubit d = 0;";
    assert!(!ratio_of(src));
}

#[test]
fn two_of_four_favored_is_true() {
    // Ratio 0.5 is the lower edge of the interval.
    let src = "Maistow qubit a = 0; Maistow qubit b = 0; Canstow qubit c = 0; \
         Canstow qubit d = 0;";
    assert!(ratio_of(src));
}

#[test]
fn three_of_four_favored_is_true() {
    let src = "Maistow qubit a = 0; Maistow qubit b = 0; Maistow qubit c = 0; \
         Canstow qubit d = 0;";
    assert!(ratio_of(src));
}

#[test]
fn one_of_four_favored_is_false() {
    let src = "Maistow qubit a = 0; Canstow qubit b = 0; Canstow qubit c = 0; \
         Canstow qubit d = 0;";
    assert!(!ratio_of(src));
}

#[test]
fn nine_of_ten_favored_is_true() {
    // Ratio 0.9 is the upper edge of the interval.
    let mut src = String::new();
    for i in 0..9 {
        src.push_str(&format!("Maistow qubit q{} = 0; ", i));
    }
    src.push_str("Canstow qubit q9 = 0;");
    assert!(ratio_of(&src));
}

#[test]
fn scenario_a_ratio_is_false() {
    let src = "Maistow qubit q0 = 0; Maistow qubit q1 = 1; h q0; cx q0, q1; \
         Maistow cbit c0 = 0; Maistow cbit c1 = 1; measure q0 -> c0; measure q1 -> c1; \
         return 1000;";
    assert!(!ratio_of(src));
}

#[test]
fn childless_root_gives_false() {
    let root = ASTNode { children: None, node_kind: NodeKind::Program };
    assert!(!respect_ratio(&root));
}

#[test]
fn non_assignment_statements_are_not_counted() {
    // One favored assignment out of one: ratio 1.0, so false, however many
    // other statements stand around it.
    let src = "Maistow qubit a = 0; h a; h a; h a;";
    assert!(!ratio_of(src));
}
