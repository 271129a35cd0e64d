//! The abstract syntax tree: one node type with a closed set of kinds, plus
//! the well-formedness predicates that say which child shapes each kind
//! allows.

use vstd::prelude::*;

verus! {

/// Declaration style of an assignment (the "respect modality").  It is read
/// only by the style heuristic in `optimizations`, never by the type checker.
#[derive(PartialEq, Eq, Structural, Debug, Clone, Copy)]
pub enum RespectExpr {
    Canstow,
    Maistow,
}

/// The six gate categories.  The category a gate name falls in drives every
/// arity rule the checker enforces for its statement.
#[derive(PartialEq, Eq, Structural, Debug, Clone, Copy)]
pub enum GateExpr {
    Q1Gate,
    Q1ParamGate,
    Q2Gate,
    Q2ParamGate,
    ToffoliGate,
    QMultiGate,
}

/// The four value kinds a name can be bound to in the symbol table.
#[derive(PartialEq, Eq, Structural, Debug, Clone, Copy)]
pub enum ValueExpr {
    QReg,
    Qubit,
    CBit,
    CReg,
}

/// Output-format annotation a return statement may carry.  It is recorded on
/// the node and never consumed: no lowering pass exists.
#[derive(PartialEq, Eq, Structural, Debug, Clone, Copy)]
pub enum OutputExpr {
    Counts,
    Statevector,
    Probabilities,
}

/// The closed set of node kinds.  Kinds that carry a scalar payload are
/// leaves (no children); the others hold their parts as ordered children
/// with a count and meaning fixed per kind (see the `wf_*` predicates).
#[derive(PartialEq, Eq, Debug)]
pub enum NodeKind {
    Program,
    Assignment,
    GateApplication,
    Measurement,
    Return,
    Name(String),
    Indices,
    QRegSlice,
    CRegSlice,
    ValList,
    ControlList,
    QRegTensor,
    QReg,
    Qubit(String),
    CRegTensor,
    CReg,
    CBit(i32),
    /// Lexeme of a floating-point literal.  No pass reads the numeric value:
    /// a float is only ever legal as a gate parameter, where the checker
    /// looks at its kind alone.
    Float(String),
    Int(i32),
    Index(i32),
    /// A pi-multiple literal: multiplier and divisor, both defaulting to 1,
    /// standing for pi times the first over the second.
    PI(i32, i32),
    ValueType(ValueExpr),
    GateType(GateExpr),
    RespectType(RespectExpr),
    OutputType(OutputExpr),
    /// Reserved for trees whose source grammar keeps comments; this
    /// crate's parser never produces it.
    COMMENT,
    EOI,
}

/// One node of the tree: a kind plus optional ordered children.
#[derive(PartialEq, Eq, Debug)]
pub struct ASTNode {
    pub children: Option<Vec<ASTNode>>,
    pub node_kind: NodeKind,
}

/// The children of a node that has some, as a sequence.
pub open spec fn kids(n: ASTNode) -> Seq<ASTNode>
    recommends
        n.children is Some,
{
    n.children->0@
}

/// A `Name` leaf.
pub open spec fn is_name_leaf(n: ASTNode) -> bool {
    &&& n.node_kind is Name
    &&& n.children is None
}

/// A `Qubit` literal leaf.
pub open spec fn wf_qubit_lit(n: ASTNode) -> bool {
    &&& n.node_kind is Qubit
    &&& n.children is None
}

/// A `CBit` literal leaf.
pub open spec fn wf_cbit_lit(n: ASTNode) -> bool {
    &&& n.node_kind is CBit
    &&& n.children is None
}

/// An `Index` leaf.
pub open spec fn wf_index(n: ASTNode) -> bool {
    &&& n.node_kind is Index
    &&& n.children is None
}

/// A quantum register: a qubit literal and a length index.
pub open spec fn wf_qreg(n: ASTNode) -> bool {
    &&& n.node_kind == NodeKind::QReg
    &&& n.children is Some
    &&& kids(n).len() == 2
    &&& wf_qubit_lit(kids(n)[0])
    &&& wf_index(kids(n)[1])
}

/// A classical register: a classical-bit literal and a length index.
pub open spec fn wf_creg(n: ASTNode) -> bool {
    &&& n.node_kind == NodeKind::CReg
    &&& n.children is Some
    &&& kids(n).len() == 2
    &&& wf_cbit_lit(kids(n)[0])
    &&& wf_index(kids(n)[1])
}

/// A tensor (concatenation) of quantum registers.
pub open spec fn wf_qreg_tensor(n: ASTNode) -> bool {
    &&& n.node_kind == NodeKind::QRegTensor
    &&& n.children is Some
    &&& kids(n).len() >= 1
    &&& forall|i: int| 0 <= i < kids(n).len() ==> wf_qreg(#[trigger] kids(n)[i])
}

/// A tensor (concatenation) of classical registers.
pub open spec fn wf_creg_tensor(n: ASTNode) -> bool {
    &&& n.node_kind == NodeKind::CRegTensor
    &&& n.children is Some
    &&& kids(n).len() >= 1
    &&& forall|i: int| 0 <= i < kids(n).len() ==> wf_creg(#[trigger] kids(n)[i])
}

/// The shapes allowed as the value of an assignment.
pub open spec fn wf_assign_value(n: ASTNode) -> bool {
    ||| wf_qubit_lit(n)
    ||| wf_cbit_lit(n)
    ||| wf_qreg(n)
    ||| wf_creg(n)
    ||| wf_qreg_tensor(n)
    ||| wf_creg_tensor(n)
}

/// An index list of a slice: one index, or an inclusive range of two.
pub open spec fn wf_indices(n: ASTNode) -> bool {
    &&& n.node_kind == NodeKind::Indices
    &&& n.children is Some
    &&& 1 <= kids(n).len() <= 2
    &&& forall|i: int| 0 <= i < kids(n).len() ==> wf_index(#[trigger] kids(n)[i])
}

/// A slice of a named quantum register.
pub open spec fn wf_qreg_slice(n: ASTNode) -> bool {
    &&& n.node_kind == NodeKind::QRegSlice
    &&& n.children is Some
    &&& kids(n).len() == 2
    &&& is_name_leaf(kids(n)[0])
    &&& wf_indices(kids(n)[1])
}

/// A slice of a named classical register.
pub open spec fn wf_creg_slice(n: ASTNode) -> bool {
    &&& n.node_kind == NodeKind::CRegSlice
    &&& n.children is Some
    &&& kids(n).len() == 2
    &&& is_name_leaf(kids(n)[0])
    &&& wf_indices(kids(n)[1])
}

/// A quantum operand: a bare name or a quantum-register slice.
pub open spec fn wf_q_operand(n: ASTNode) -> bool {
    ||| is_name_leaf(n)
    ||| wf_qreg_slice(n)
}

/// A classical operand: a bare name or a classical-register slice.
pub open spec fn wf_c_operand(n: ASTNode) -> bool {
    ||| is_name_leaf(n)
    ||| wf_creg_slice(n)
}

/// A gate parameter: one of the numeric literal leaves.
pub open spec fn wf_param(n: ASTNode) -> bool {
    &&& n.children is None
    &&& (n.node_kind is Int || n.node_kind is Float || n.node_kind is PI)
}

/// A non-empty parameter list.
pub open spec fn wf_val_list(n: ASTNode) -> bool {
    &&& n.node_kind == NodeKind::ValList
    &&& n.children is Some
    &&& kids(n).len() >= 1
    &&& forall|i: int| 0 <= i < kids(n).len() ==> wf_param(#[trigger] kids(n)[i])
}

/// A non-empty control list of quantum operands.
pub open spec fn wf_control_list(n: ASTNode) -> bool {
    &&& n.node_kind == NodeKind::ControlList
    &&& n.children is Some
    &&& kids(n).len() >= 1
    &&& forall|i: int| 0 <= i < kids(n).len() ==> wf_q_operand(#[trigger] kids(n)[i])
}

/// An assignment statement: modality tag, declared kind tag, name, value.
pub open spec fn wf_assignment(n: ASTNode) -> bool {
    &&& n.node_kind == NodeKind::Assignment
    &&& n.children is Some
    &&& kids(n).len() == 4
    &&& kids(n)[0].node_kind is RespectType
    &&& kids(n)[0].children is None
    &&& kids(n)[1].node_kind is ValueType
    &&& kids(n)[1].children is None
    &&& is_name_leaf(kids(n)[2])
    &&& wf_assign_value(kids(n)[3])
}

/// A gate application: gate name, category tag, target, then an optional
/// control list and an optional parameter list, the control list first
/// whenever both occur.
pub open spec fn wf_gate_app(n: ASTNode) -> bool {
    &&& n.node_kind == NodeKind::GateApplication
    &&& n.children is Some
    &&& 3 <= kids(n).len() <= 5
    &&& is_name_leaf(kids(n)[0])
    &&& kids(n)[1].node_kind is GateType
    &&& kids(n)[1].children is None
    &&& wf_q_operand(kids(n)[2])
    &&& kids(n).len() == 4 ==> (wf_control_list(kids(n)[3]) || wf_val_list(kids(n)[3]))
    &&& kids(n).len() == 5 ==> (wf_control_list(kids(n)[3]) && wf_val_list(kids(n)[4]))
}

/// A measurement: measured quantum operand, then classical recipient.
pub open spec fn wf_measurement(n: ASTNode) -> bool {
    &&& n.node_kind == NodeKind::Measurement
    &&& n.children is Some
    &&& kids(n).len() == 2
    &&& wf_q_operand(kids(n)[0])
    &&& wf_c_operand(kids(n)[1])
}

/// A return statement: an integer shot count, optionally followed by an
/// output-format tag.
pub open spec fn wf_return(n: ASTNode) -> bool {
    &&& n.node_kind == NodeKind::Return
    &&& n.children is Some
    &&& 1 <= kids(n).len() <= 2
    &&& kids(n)[0].node_kind is Int
    &&& kids(n)[0].children is None
    &&& kids(n).len() == 2 ==> (kids(n)[1].node_kind is OutputType && kids(n)[1].children is None)
}

/// One of the four statement forms.
pub open spec fn wf_stmt(n: ASTNode) -> bool {
    ||| wf_assignment(n)
    ||| wf_gate_app(n)
    ||| wf_measurement(n)
    ||| wf_return(n)
}

/// A whole program: well-formed statements followed by one end marker.
pub open spec fn wf_program(n: ASTNode) -> bool {
    &&& n.node_kind == NodeKind::Program
    &&& n.children is Some
    &&& kids(n).len() >= 1
    &&& kids(n)[kids(n).len() - 1].node_kind == NodeKind::EOI
    &&& kids(n)[kids(n).len() - 1].children is None
    &&& forall|i: int| 0 <= i < kids(n).len() - 1 ==> wf_stmt(#[trigger] kids(n)[i])
}

impl ASTNode {
    /// Pack children and a kind into a node.
    pub fn new(children: Option<Vec<ASTNode>>, node_kind: NodeKind) -> (n: ASTNode)
        ensures
            n.children == children,
            n.node_kind == node_kind,
    {
        ASTNode { children, node_kind }
    }
}

} // verus!
