//! The semantic checker: one forward pass over a program's statements,
//! growing a flat name-to-kind symbol table and enforcing the typing, arity,
//! operand-uniqueness and ordering rules.
//!
//! The rules themselves are written once, as the specification functions
//! `spec_check` and its parts; the executable checker is proved to return
//! exactly what that model says, error kind and statement index included.

use vstd::prelude::*;
use vstd::hash_map::StringHashMap;

use crate::ast::ASTNode;
use crate::ast::NodeKind;
use crate::ast::ValueExpr;
use crate::ast::GateExpr;
use crate::ast::kids;
use crate::ast::wf_gate_app;
use crate::ast::wf_measurement;
use crate::ast::wf_program;
use crate::ast::wf_q_operand;
use crate::ast::wf_c_operand;
use crate::ast::wf_stmt;

verus! {

/// The kinds of diagnostic the checker can report.  `StructuralError` marks
/// a tree that breaks the builder's shape contract; it is never a user
/// error.
#[derive(PartialEq, Eq, Structural, Debug, Clone, Copy)]
pub enum ErrorKind {
    StructuralError,
    TypeError,
    ArityError,
    DuplicateOperandError,
    OrderingError,
    RangeError,
    UnboundNameError,
}

/// A checker diagnostic: what went wrong, at which 1-based statement index
/// (0 names the program node itself), and a human-readable description.
#[derive(Debug)]
pub struct CheckError {
    pub kind: ErrorKind,
    pub stmt_index: usize,
    pub message: String,
}

/// The symbol table as the model sees it: names to declared kinds.
pub type Ctx = Map<Seq<char>, ValueExpr>;

/// The value kind an assignment's right-hand side denotes, from its node
/// kind alone; `None` for shapes no assignment can hold.
pub open spec fn value_kind_of(n: ASTNode) -> Option<ValueExpr> {
    match n.node_kind {
        NodeKind::QReg => Some(ValueExpr::QReg),
        NodeKind::QRegTensor => Some(ValueExpr::QReg),
        NodeKind::CReg => Some(ValueExpr::CReg),
        NodeKind::CRegTensor => Some(ValueExpr::CReg),
        NodeKind::Qubit(_) => Some(ValueExpr::Qubit),
        NodeKind::CBit(_) => Some(ValueExpr::CBit),
        _ => None,
    }
}

/// Resolve a quantum operand: a bare name must be bound to a qubit, a
/// register slice's base name to a quantum register.  Returns the operand's
/// name, the identity the duplicate rule compares.
pub open spec fn spec_resolve_q(n: ASTNode, ctx: Ctx) -> Result<Seq<char>, ErrorKind> {
    match n.node_kind {
        NodeKind::Name(nm) => if !ctx.contains_key(nm@) {
            Err(ErrorKind::UnboundNameError)
        } else if ctx[nm@] != ValueExpr::Qubit {
            Err(ErrorKind::TypeError)
        } else {
            Ok(nm@)
        },
        NodeKind::QRegSlice => if !(n.children is Some && kids(n).len() == 2 && kids(
            n,
        )[1].node_kind is Indices) {
            Err(ErrorKind::StructuralError)
        } else {
            match kids(n)[0].node_kind {
                NodeKind::Name(nm) => if !ctx.contains_key(nm@) {
                    Err(ErrorKind::UnboundNameError)
                } else if ctx[nm@] != ValueExpr::QReg {
                    Err(ErrorKind::TypeError)
                } else {
                    Ok(nm@)
                },
                _ => Err(ErrorKind::StructuralError),
            }
        },
        _ => Err(ErrorKind::StructuralError),
    }
}

/// Resolve a classical operand: a bare name must be bound to a classical
/// bit, a slice's base name to a classical register.
pub open spec fn spec_resolve_c(n: ASTNode, ctx: Ctx) -> Result<Seq<char>, ErrorKind> {
    match n.node_kind {
        NodeKind::Name(nm) => if !ctx.contains_key(nm@) {
            Err(ErrorKind::UnboundNameError)
        } else if ctx[nm@] != ValueExpr::CBit {
            Err(ErrorKind::TypeError)
        } else {
            Ok(nm@)
        },
        NodeKind::CRegSlice => if !(n.children is Some && kids(n).len() == 2 && kids(
            n,
        )[1].node_kind is Indices) {
            Err(ErrorKind::StructuralError)
        } else {
            match kids(n)[0].node_kind {
                NodeKind::Name(nm) => if !ctx.contains_key(nm@) {
                    Err(ErrorKind::UnboundNameError)
                } else if ctx[nm@] != ValueExpr::CReg {
                    Err(ErrorKind::TypeError)
                } else {
                    Ok(nm@)
                },
                _ => Err(ErrorKind::StructuralError),
            }
        },
        _ => Err(ErrorKind::StructuralError),
    }
}

/// Check one assignment against the table: the value's kind must match the
/// declared kind, and a name already bound must keep its recorded kind.
/// On success the binding is recorded (rebinding with the same kind only
/// rewrites the same entry).
pub open spec fn spec_check_assignment(n: ASTNode, ctx: Ctx) -> Result<Ctx, ErrorKind> {
    if !(n.children is Some && kids(n).len() == 4 && kids(n)[0].node_kind is RespectType) {
        Err(ErrorKind::StructuralError)
    } else {
        match (kids(n)[1].node_kind, kids(n)[2].node_kind) {
            (NodeKind::ValueType(d), NodeKind::Name(nm)) => match value_kind_of(kids(n)[3]) {
                Some(v) => if v != d {
                    Err(ErrorKind::TypeError)
                } else if ctx.contains_key(nm@) && ctx[nm@] != d {
                    Err(ErrorKind::TypeError)
                } else {
                    Ok(ctx.insert(nm@, d))
                },
                None => Err(ErrorKind::StructuralError),
            },
            _ => Err(ErrorKind::StructuralError),
        }
    }
}

/// Position of the first control operand that fails to resolve, if any.
pub open spec fn first_failing_control(cs: Seq<ASTNode>, i: int, ctx: Ctx) -> Option<int>
    decreases cs.len() - i,
{
    if i >= cs.len() {
        None
    } else if spec_resolve_q(cs[i], ctx) is Err {
        Some(i)
    } else {
        first_failing_control(cs, i + 1, ctx)
    }
}

/// The names of a control list whose operands all resolve.
pub open spec fn control_names(cs: Seq<ASTNode>, ctx: Ctx) -> Seq<Seq<char>> {
    Seq::new(cs.len(), |i: int| spec_resolve_q(cs[i], ctx)->Ok_0)
}

/// Whether a sequence of names holds the same name twice.
pub open spec fn has_duplicate(ns: Seq<Seq<char>>) -> bool {
    exists|i: int, j: int| 0 <= i < j < ns.len() && ns[i] == ns[j]
}

/// The control phase of a gate check: every control operand must resolve,
/// and the names of the target and the controls must be pairwise distinct.
pub open spec fn spec_check_controls(ctl: Seq<ASTNode>, target: Seq<char>, ctx: Ctx) -> Result<
    (),
    ErrorKind,
> {
    match first_failing_control(ctl, 0, ctx) {
        Some(j) => Err(spec_resolve_q(ctl[j], ctx)->Err_0),
        None => {
            let ns = control_names(ctl, ctx);
            if ns.contains(target) || has_duplicate(ns) {
                Err(ErrorKind::DuplicateOperandError)
            } else {
                Ok(())
            }
        },
    }
}

/// The parameter rule of a parameterized gate: exactly one parameter, and
/// it must be a numeric literal.
pub open spec fn spec_check_params(ps: Seq<ASTNode>) -> Result<(), ErrorKind> {
    if ps.len() != 1 {
        Err(ErrorKind::ArityError)
    } else if ps[0].node_kind is PI || ps[0].node_kind is Float || ps[0].node_kind is Int {
        Ok(())
    } else {
        Err(ErrorKind::ArityError)
    }
}

/// The per-category arity and control rules for a gate statement whose
/// target has already resolved to `target`.  Parameterized gates check any
/// control list they carry (resolution and the duplicate rule) and then
/// their single numeric parameter.
pub open spec fn spec_check_gate_arity(
    n: ASTNode,
    g: GateExpr,
    target: Seq<char>,
    ctx: Ctx,
) -> Result<Ctx, ErrorKind> {
    let cs = kids(n);
    match g {
        GateExpr::Q1Gate => if cs.len() == 3 {
            Ok(ctx)
        } else {
            Err(ErrorKind::ArityError)
        },
        GateExpr::Q1ParamGate | GateExpr::Q2ParamGate => if cs.len() == 3 {
            Err(ErrorKind::ArityError)
        } else if cs.len() == 4 {
            if cs[3].node_kind is ControlList {
                // Controls without a parameter list: the controls must
                // still resolve and obey the duplicate rule, and the
                // missing parameter is an arity fault.
                if !(cs[3].children is Some) {
                    Err(ErrorKind::StructuralError)
                } else {
                    match spec_check_controls(kids(cs[3]), target, ctx) {
                        Ok(()) => Err(ErrorKind::ArityError),
                        Err(k) => Err(k),
                    }
                }
            } else if !(cs[3].node_kind is ValList && cs[3].children is Some) {
                Err(ErrorKind::StructuralError)
            } else {
                match spec_check_params(kids(cs[3])) {
                    Ok(()) => Ok(ctx),
                    Err(k) => Err(k),
                }
            }
        } else {
            if !(cs[3].node_kind is ControlList && cs[3].children is Some && cs[4].node_kind
                is ValList && cs[4].children is Some) {
                Err(ErrorKind::StructuralError)
            } else {
                match spec_check_controls(kids(cs[3]), target, ctx) {
                    Err(k) => Err(k),
                    Ok(()) => match spec_check_params(kids(cs[4])) {
                        Ok(()) => Ok(ctx),
                        Err(k) => Err(k),
                    },
                }
            }
        },
        GateExpr::Q2Gate | GateExpr::ToffoliGate | GateExpr::QMultiGate => if cs.len() != 4 {
            Err(ErrorKind::ArityError)
        } else if cs[3].node_kind is ValList {
            Err(ErrorKind::ArityError)
        } else if !(cs[3].node_kind is ControlList && cs[3].children is Some) {
            Err(ErrorKind::StructuralError)
        } else {
            let ctl = kids(cs[3]);
            if (g is Q2Gate && ctl.len() != 1) || ctl.len() == 0 {
                Err(ErrorKind::ArityError)
            } else {
                match spec_check_controls(ctl, target, ctx) {
                    Ok(()) => Ok(ctx),
                    Err(k) => Err(k),
                }
            }
        },
    }
}

/// Check one gate application: shape, target resolution, then the
/// category's arity and control rules.
pub open spec fn spec_check_gate(n: ASTNode, ctx: Ctx) -> Result<Ctx, ErrorKind> {
    if !(n.children is Some && 3 <= kids(n).len() <= 5 && kids(n)[0].node_kind is Name) {
        Err(ErrorKind::StructuralError)
    } else {
        match kids(n)[1].node_kind {
            NodeKind::GateType(g) => match spec_resolve_q(kids(n)[2], ctx) {
                Err(k) => Err(k),
                Ok(target) => spec_check_gate_arity(n, g, target, ctx),
            },
            _ => Err(ErrorKind::StructuralError),
        }
    }
}

/// Check one measurement: the measured operand must be quantum, the
/// recipient classical.
pub open spec fn spec_check_measure(n: ASTNode, ctx: Ctx) -> Result<Ctx, ErrorKind> {
    if !(n.children is Some && kids(n).len() == 2) {
        Err(ErrorKind::StructuralError)
    } else {
        match spec_resolve_q(kids(n)[0], ctx) {
            Err(k) => Err(k),
            Ok(_) => match spec_resolve_c(kids(n)[1], ctx) {
                Err(k) => Err(k),
                Ok(_) => Ok(ctx),
            },
        }
    }
}

/// Check one return statement: an integer shot count of at least 1, with an
/// optional output-format tag after it.
pub open spec fn spec_check_return(n: ASTNode, ctx: Ctx) -> Result<Ctx, ErrorKind> {
    if !(n.children is Some && 1 <= kids(n).len() <= 2) {
        Err(ErrorKind::StructuralError)
    } else if kids(n).len() == 2 && !(kids(n)[1].node_kind is OutputType) {
        Err(ErrorKind::StructuralError)
    } else {
        match kids(n)[0].node_kind {
            NodeKind::Int(v) => if v < 1 {
                Err(ErrorKind::RangeError)
            } else {
                Ok(ctx)
            },
            _ => Err(ErrorKind::StructuralError),
        }
    }
}

/// Check one statement, threading the symbol table.
pub open spec fn spec_check_stmt(n: ASTNode, ctx: Ctx) -> Result<Ctx, ErrorKind> {
    match n.node_kind {
        NodeKind::Assignment => spec_check_assignment(n, ctx),
        NodeKind::GateApplication => spec_check_gate(n, ctx),
        NodeKind::Measurement => spec_check_measure(n, ctx),
        NodeKind::Return => spec_check_return(n, ctx),
        _ => Err(ErrorKind::StructuralError),
    }
}

/// Position of the first `Return` that is not the program's second-to-last
/// child, scanning all children but the last.
pub open spec fn first_misplaced_return(cs: Seq<ASTNode>, i: int) -> Option<int>
    decreases cs.len() - i,
{
    if i >= cs.len() - 1 {
        None
    } else if cs[i].node_kind is Return && i != cs.len() - 2 {
        Some(i)
    } else {
        first_misplaced_return(cs, i + 1)
    }
}

/// The left-to-right walk from statement `i` on: end markers are skipped,
/// the first violation is reported with its 1-based statement index.
pub open spec fn spec_check_stmts(cs: Seq<ASTNode>, i: int, ctx: Ctx) -> Result<
    (),
    (ErrorKind, int),
>
    decreases cs.len() - i,
{
    if i >= cs.len() {
        Ok(())
    } else if cs[i].node_kind is EOI {
        spec_check_stmts(cs, i + 1, ctx)
    } else {
        match spec_check_stmt(cs[i], ctx) {
            Ok(c2) => spec_check_stmts(cs, i + 1, c2),
            Err(k) => Err((k, i + 1)),
        }
    }
}

/// The whole checking pass: the root must be a non-empty program node
/// ending in the end marker, no `Return` may sit anywhere but immediately
/// before that marker, and the statements must pass the forward walk over
/// an initially empty table.
pub open spec fn spec_check(ast: ASTNode) -> Result<(), (ErrorKind, int)> {
    if !(ast.node_kind is Program && ast.children is Some && kids(ast).len() >= 1 && kids(
        ast,
    )[kids(ast).len() - 1].node_kind is EOI) {
        Err((ErrorKind::StructuralError, 0))
    } else {
        match first_misplaced_return(kids(ast), 0) {
            Some(i) => Err((ErrorKind::OrderingError, i + 1)),
            None => spec_check_stmts(kids(ast), 0, Map::empty()),
        }
    }
}

/// Rebinding law: take an assignment whose value kind matches its declared
/// kind `d` and whose name `nm` is already bound.  If the recorded kind
/// differs from `d` the checker reports a `TypeError`; if it equals `d`
/// the statement succeeds and leaves the table exactly as it was.
pub proof fn lemma_rebinding(n: ASTNode, ctx: Ctx, d: ValueExpr, nm: Seq<char>)
    requires
        n.node_kind == NodeKind::Assignment,
        n.children is Some,
        kids(n).len() == 4,
        kids(n)[0].node_kind is RespectType,
        kids(n)[1].node_kind == NodeKind::ValueType(d),
        kids(n)[2].node_kind matches NodeKind::Name(s) && s@ == nm,
        value_kind_of(kids(n)[3]) == Some(d),
        ctx.contains_key(nm),
    ensures
        ctx[nm] != d ==> spec_check_stmt(n, ctx) == Err::<Ctx, ErrorKind>(ErrorKind::TypeError),
        ctx[nm] == d ==> spec_check_stmt(n, ctx) == Ok::<Ctx, ErrorKind>(ctx),
{
    if ctx[nm] == d {
        assert(ctx.insert(nm, d) =~= ctx);
    }
}

/// Parameter-arity law: a parameterized gate whose target resolves to
/// `target`, whose controls (when a control list stands) all pass the
/// control rules, and whose parameter list, when one stands, is `ps` has,
/// as its only possible outcomes, an `ArityError` for a missing list, a
/// parameter count other than one, or a non-numeric parameter, and
/// success for exactly one numeric literal.
pub proof fn lemma_param_gate_arity(
    n: ASTNode,
    ctx: Ctx,
    g: GateExpr,
    target: Seq<char>,
    ps: Seq<ASTNode>,
)
    requires
        n.node_kind == NodeKind::GateApplication,
        n.children is Some,
        3 <= kids(n).len() <= 5,
        kids(n)[0].node_kind is Name,
        kids(n)[1].node_kind == NodeKind::GateType(g),
        g == GateExpr::Q1ParamGate || g == GateExpr::Q2ParamGate,
        spec_resolve_q(kids(n)[2], ctx) == Ok::<Seq<char>, ErrorKind>(target),
        kids(n).len() == 4 ==> kids(n)[3].node_kind == NodeKind::ValList && kids(
            n,
        )[3].children is Some && ps == kids(kids(n)[3]),
        kids(n).len() == 5 ==> kids(n)[3].node_kind is ControlList && kids(
            n,
        )[3].children is Some && kids(n)[4].node_kind == NodeKind::ValList && kids(
            n,
        )[4].children is Some && ps == kids(kids(n)[4]) && spec_check_controls(
            kids(kids(n)[3]),
            target,
            ctx,
        ) == Ok::<(), ErrorKind>(()),
    ensures
        kids(n).len() == 3 ==> spec_check_stmt(n, ctx) == Err::<Ctx, ErrorKind>(
            ErrorKind::ArityError,
        ),
        kids(n).len() >= 4 && ps.len() != 1 ==> spec_check_stmt(n, ctx) == Err::<Ctx, ErrorKind>(
            ErrorKind::ArityError,
        ),
        kids(n).len() >= 4 && ps.len() == 1 && (ps[0].node_kind is PI || ps[0].node_kind is Float
            || ps[0].node_kind is Int) ==> spec_check_stmt(n, ctx) == Ok::<Ctx, ErrorKind>(ctx),
        kids(n).len() >= 4 && ps.len() == 1 && !(ps[0].node_kind is PI || ps[0].node_kind is Float
            || ps[0].node_kind is Int) ==> spec_check_stmt(n, ctx) == Err::<Ctx, ErrorKind>(
            ErrorKind::ArityError,
        ),
{
}

/// Duplicate-operand law: in a controlled gate of the right shape and
/// control count whose target and controls all resolve, a control set
/// holding the target's name or a repeated name is a
/// `DuplicateOperandError`, and pairwise-distinct names succeed.
pub proof fn lemma_duplicate_controls(n: ASTNode, ctx: Ctx, g: GateExpr, target: Seq<char>)
    requires
        n.node_kind == NodeKind::GateApplication,
        n.children is Some,
        kids(n).len() == 4,
        kids(n)[0].node_kind is Name,
        kids(n)[1].node_kind == NodeKind::GateType(g),
        g == GateExpr::Q2Gate || g == GateExpr::ToffoliGate || g == GateExpr::QMultiGate,
        spec_resolve_q(kids(n)[2], ctx) == Ok::<Seq<char>, ErrorKind>(target),
        kids(n)[3].node_kind == NodeKind::ControlList,
        kids(n)[3].children is Some,
        kids(kids(n)[3]).len() >= 1,
        g is Q2Gate ==> kids(kids(n)[3]).len() == 1,
        first_failing_control(kids(kids(n)[3]), 0, ctx) is None,
    ensures
        control_names(kids(kids(n)[3]), ctx).contains(target) || has_duplicate(
            control_names(kids(kids(n)[3]), ctx),
        ) ==> spec_check_stmt(n, ctx) == Err::<Ctx, ErrorKind>(ErrorKind::DuplicateOperandError),
        !(control_names(kids(kids(n)[3]), ctx).contains(target) || has_duplicate(
            control_names(kids(kids(n)[3]), ctx),
        )) ==> spec_check_stmt(n, ctx) == Ok::<Ctx, ErrorKind>(ctx),
{
}

/// A well-formed quantum operand resolves to a name or to a user-facing
/// diagnostic, never to a structural break.
proof fn lemma_resolve_q_wf(n: ASTNode, ctx: Ctx)
    requires
        wf_q_operand(n),
    ensures
        spec_resolve_q(n, ctx) != Err::<Seq<char>, ErrorKind>(ErrorKind::StructuralError),
{
}

/// A well-formed classical operand resolves to a name or to a user-facing
/// diagnostic, never to a structural break.
proof fn lemma_resolve_c_wf(n: ASTNode, ctx: Ctx)
    requires
        wf_c_operand(n),
    ensures
        spec_resolve_c(n, ctx) != Err::<Seq<char>, ErrorKind>(ErrorKind::StructuralError),
{
}

/// Where the control scan stops, it stops inside the list, on an operand
/// that fails to resolve.
proof fn lemma_first_failing_bounds(cs: Seq<ASTNode>, i: int, ctx: Ctx)
    requires
        0 <= i <= cs.len(),
    ensures
        match first_failing_control(cs, i, ctx) {
            Some(j) => i <= j < cs.len() && spec_resolve_q(cs[j], ctx) is Err,
            None => true,
        },
    decreases cs.len() - i,
{
    if i < cs.len() && !(spec_resolve_q(cs[i], ctx) is Err) {
        lemma_first_failing_bounds(cs, i + 1, ctx);
    }
}

/// On a well-formed statement the checker can only report the statement's
/// own rules: a `StructuralError` is out of reach, whatever the table
/// holds.
pub proof fn lemma_wf_stmt_no_structural(n: ASTNode, ctx: Ctx)
    requires
        wf_stmt(n),
    ensures
        spec_check_stmt(n, ctx) matches Err(k) ==> k != ErrorKind::StructuralError,
{
    if wf_gate_app(n) {
        let cs = kids(n);
        lemma_resolve_q_wf(cs[2], ctx);
        if spec_resolve_q(cs[2], ctx) is Ok {
            if cs.len() >= 4 && cs[3].node_kind is ControlList {
                let ctl = kids(cs[3]);
                lemma_first_failing_bounds(ctl, 0, ctx);
                match first_failing_control(ctl, 0, ctx) {
                    Some(j) => {
                        lemma_resolve_q_wf(ctl[j], ctx);
                    },
                    None => {},
                }
            }
        }
    } else if wf_measurement(n) {
        lemma_resolve_q_wf(kids(n)[0], ctx);
        if spec_resolve_q(kids(n)[0], ctx) is Ok {
            lemma_resolve_c_wf(kids(n)[1], ctx);
        }
    }
}

/// The walk over well-formed statements and end markers never reports a
/// structural break.
proof fn lemma_wf_stmts_no_structural(cs: Seq<ASTNode>, i: int, ctx: Ctx)
    requires
        0 <= i,
        forall|k: int| 0 <= k < cs.len() ==> wf_stmt(#[trigger] cs[k]) || cs[k].node_kind is EOI,
    ensures
        spec_check_stmts(cs, i, ctx) matches Err(p) ==> p.0 != ErrorKind::StructuralError,
    decreases cs.len() - i,
{
    if i < cs.len() {
        if cs[i].node_kind is EOI {
            lemma_wf_stmts_no_structural(cs, i + 1, ctx);
        } else {
            lemma_wf_stmt_no_structural(cs[i], ctx);
            match spec_check_stmt(cs[i], ctx) {
                Ok(c2) => {
                    lemma_wf_stmts_no_structural(cs, i + 1, c2);
                },
                Err(_) => {},
            }
        }
    }
}

/// Shape is settled at build time: on a well-formed program — the shape
/// `parse` promises of every tree it returns — the checker never reports a
/// `StructuralError`; every diagnostic is one of the user-facing kinds.
pub proof fn lemma_wf_program_no_structural(ast: ASTNode)
    requires
        wf_program(ast),
    ensures
        spec_check(ast) matches Err(p) ==> p.0 != ErrorKind::StructuralError,
{
    let cs = kids(ast);
    assert forall|k: int| 0 <= k < cs.len() implies wf_stmt(#[trigger] cs[k])
        || cs[k].node_kind is EOI by {
        if k < cs.len() - 1 {
            assert(wf_stmt(cs[k]));
        } else {
            assert(cs[k].node_kind is EOI);
        }
    }
    lemma_wf_stmts_no_structural(cs, 0, Map::empty());
}

/// The value kind of an assignment's right-hand side, executably.
fn infer_value_kind(n: &ASTNode) -> (r: Option<ValueExpr>)
    ensures
        r == value_kind_of(*n),
{
    match &n.node_kind {
        NodeKind::QReg => Some(ValueExpr::QReg),
        NodeKind::QRegTensor => Some(ValueExpr::QReg),
        NodeKind::CReg => Some(ValueExpr::CReg),
        NodeKind::CRegTensor => Some(ValueExpr::CReg),
        NodeKind::Qubit(_) => Some(ValueExpr::Qubit),
        NodeKind::CBit(_) => Some(ValueExpr::CBit),
        _ => None,
    }
}

/// Resolve a quantum operand against the table, handing back its name.
fn resolve_q<'a>(n: &'a ASTNode, ctx: &StringHashMap<ValueExpr>) -> (r: Result<
    &'a String,
    (ErrorKind, String),
>)
    ensures
        match r {
            Ok(nm) => spec_resolve_q(*n, ctx@) == Ok::<Seq<char>, ErrorKind>(nm@),
            Err(p) => spec_resolve_q(*n, ctx@) == Err::<Seq<char>, ErrorKind>(p.0),
        },
{
    match &n.node_kind {
        NodeKind::Name(nm) => match ctx.get(nm.as_str()) {
            None => Err(
                (ErrorKind::UnboundNameError, String::from_str("operand name is not bound")),
            ),
            Some(v) => if *v == ValueExpr::Qubit {
                Ok(nm)
            } else {
                Err((ErrorKind::TypeError, String::from_str("operand is bound but not to a qubit")))
            },
        },
        NodeKind::QRegSlice => match &n.children {
            Some(cs) => {
                if cs.len() != 2 {
                    return Err(
                        (
                            ErrorKind::StructuralError,
                            String::from_str("register slice must hold a name and indices"),
                        ),
                    );
                }
                if !(matches!(cs[1].node_kind, NodeKind::Indices)) {
                    return Err(
                        (
                            ErrorKind::StructuralError,
                            String::from_str("register slice must end in an index list"),
                        ),
                    );
                }
                match &cs[0].node_kind {
                    NodeKind::Name(nm) => match ctx.get(nm.as_str()) {
                        None => Err(
                            (
                                ErrorKind::UnboundNameError,
                                String::from_str("sliced register name is not bound"),
                            ),
                        ),
                        Some(v) => if *v == ValueExpr::QReg {
                            Ok(nm)
                        } else {
                            Err(
                                (
                                    ErrorKind::TypeError,
                                    String::from_str(
                                        "sliced name is bound but not to a quantum register",
                                    ),
                                ),
                            )
                        },
                    },
                    _ => Err(
                        (
                            ErrorKind::StructuralError,
                            String::from_str("register slice must start with a name"),
                        ),
                    ),
                }
            },
            None => Err(
                (ErrorKind::StructuralError, String::from_str("register slice without children")),
            ),
        },
        _ => Err(
            (
                ErrorKind::StructuralError,
                String::from_str("operand must be a name or a register slice"),
            ),
        ),
    }
}

/// Resolve a classical operand against the table.
fn resolve_c<'a>(n: &'a ASTNode, ctx: &StringHashMap<ValueExpr>) -> (r: Result<
    &'a String,
    (ErrorKind, String),
>)
    ensures
        match r {
            Ok(nm) => spec_resolve_c(*n, ctx@) == Ok::<Seq<char>, ErrorKind>(nm@),
            Err(p) => spec_resolve_c(*n, ctx@) == Err::<Seq<char>, ErrorKind>(p.0),
        },
{
    match &n.node_kind {
        NodeKind::Name(nm) => match ctx.get(nm.as_str()) {
            None => Err(
                (ErrorKind::UnboundNameError, String::from_str("recipient name is not bound")),
            ),
            Some(v) => if *v == ValueExpr::CBit {
                Ok(nm)
            } else {
                Err(
                    (
                        ErrorKind::TypeError,
                        String::from_str("recipient is bound but not to a classical bit"),
                    ),
                )
            },
        },
        NodeKind::CRegSlice => match &n.children {
            Some(cs) => {
                if cs.len() != 2 {
                    return Err(
                        (
                            ErrorKind::StructuralError,
                            String::from_str("register slice must hold a name and indices"),
                        ),
                    );
                }
                if !(matches!(cs[1].node_kind, NodeKind::Indices)) {
                    return Err(
                        (
                            ErrorKind::StructuralError,
                            String::from_str("register slice must end in an index list"),
                        ),
                    );
                }
                match &cs[0].node_kind {
                    NodeKind::Name(nm) => match ctx.get(nm.as_str()) {
                        None => Err(
                            (
                                ErrorKind::UnboundNameError,
                                String::from_str("sliced register name is not bound"),
                            ),
                        ),
                        Some(v) => if *v == ValueExpr::CReg {
                            Ok(nm)
                        } else {
                            Err(
                                (
                                    ErrorKind::TypeError,
                                    String::from_str(
                                        "sliced name is bound but not to a classical register",
                                    ),
                                ),
                            )
                        },
                    },
                    _ => Err(
                        (
                            ErrorKind::StructuralError,
                            String::from_str("register slice must start with a name"),
                        ),
                    ),
                }
            },
            None => Err(
                (ErrorKind::StructuralError, String::from_str("register slice without children")),
            ),
        },
        _ => Err(
            (
                ErrorKind::StructuralError,
                String::from_str("recipient must be a name or a register slice"),
            ),
        ),
    }
}

/// Check one assignment and record its binding.
fn check_assignment(n: &ASTNode, ctx: &mut StringHashMap<ValueExpr>) -> (r: Result<
    (),
    (ErrorKind, String),
>)
    ensures
        match r {
            Ok(()) => spec_check_assignment(*n, old(ctx)@) == Ok::<Ctx, ErrorKind>(final(ctx)@),
            Err(p) => spec_check_assignment(*n, old(ctx)@) == Err::<Ctx, ErrorKind>(p.0)
                && final(ctx)@ == old(ctx)@,
        },
{
    let cs = match &n.children {
        Some(cs) => cs,
        None => {
            return Err(
                (ErrorKind::StructuralError, String::from_str("assignment without children")),
            );
        },
    };
    if cs.len() != 4 {
        return Err(
            (ErrorKind::StructuralError, String::from_str("assignment must hold four children")),
        );
    }
    if !(matches!(cs[0].node_kind, NodeKind::RespectType(_))) {
        return Err(
            (
                ErrorKind::StructuralError,
                String::from_str("assignment must start with a modality tag"),
            ),
        );
    }
    let d: ValueExpr = match &cs[1].node_kind {
        NodeKind::ValueType(d) => *d,
        _ => {
            return Err(
                (
                    ErrorKind::StructuralError,
                    String::from_str("assignment must carry a declared-kind tag"),
                ),
            );
        },
    };
    let nm: &String = match &cs[2].node_kind {
        NodeKind::Name(nm) => nm,
        _ => {
            return Err(
                (ErrorKind::StructuralError, String::from_str("assignment must name its binding")),
            );
        },
    };
    let v: ValueExpr = match infer_value_kind(&cs[3]) {
        Some(v) => v,
        None => {
            return Err(
                (
                    ErrorKind::StructuralError,
                    String::from_str("assignment value has no value kind"),
                ),
            );
        },
    };
    if v != d {
        return Err(
            (ErrorKind::TypeError, String::from_str("value kind differs from the declared kind")),
        );
    }
    match ctx.get(nm.as_str()) {
        Some(prev) => if *prev != d {
            return Err(
                (
                    ErrorKind::TypeError,
                    String::from_str("name was bound before with another kind"),
                ),
            );
        },
        None => (),
    }
    ctx.insert(nm.clone(), d);
    Ok(())
}

/// Enforce the parameter rule of a parameterized gate.
fn check_params(ps: &Vec<ASTNode>) -> (r: Result<(), (ErrorKind, String)>)
    ensures
        match r {
            Ok(()) => spec_check_params(ps@) == Ok::<(), ErrorKind>(()),
            Err(p) => spec_check_params(ps@) == Err::<(), ErrorKind>(p.0),
        },
{
    if ps.len() != 1 {
        return Err(
            (
                ErrorKind::ArityError,
                String::from_str("a parameterized gate takes exactly one parameter"),
            ),
        );
    }
    match &ps[0].node_kind {
        NodeKind::PI(..) => Ok(()),
        NodeKind::Float(_) => Ok(()),
        NodeKind::Int(_) => Ok(()),
        _ => Err(
            (
                ErrorKind::ArityError,
                String::from_str("a parameter must be a pi, float or int literal"),
            ),
        ),
    }
}

/// Resolve every control and enforce the duplicate rule against the target.
#[verifier::loop_isolation(false)]
fn check_controls(ctl: &Vec<ASTNode>, target: &String, ctx: &StringHashMap<ValueExpr>) -> (r:
    Result<(), (ErrorKind, String)>)
    ensures
        match r {
            Ok(()) => spec_check_controls(ctl@, target@, ctx@) == Ok::<(), ErrorKind>(()),
            Err(p) => spec_check_controls(ctl@, target@, ctx@) == Err::<(), ErrorKind>(p.0),
        },
{
    let m = ctl.len();
    let mut names: Vec<&String> = Vec::new();
    for j in 0..m
        invariant
            names@.len() == j,
            forall|k: int| 0 <= k < j ==> spec_resolve_q(ctl@[k], ctx@) is Ok,
            forall|k: int|
                0 <= k < j ==> (#[trigger] names@[k])@ == spec_resolve_q(ctl@[k], ctx@)->Ok_0,
            first_failing_control(ctl@, 0, ctx@) == first_failing_control(ctl@, j as int, ctx@),
    {
        match resolve_q(&ctl[j], ctx) {
            Ok(nm) => names.push(nm),
            Err(p) => {
                return Err(p);
            },
        }
    }
    assert(first_failing_control(ctl@, 0, ctx@) is None);
    let ghost ns = control_names(ctl@, ctx@);
    assert(forall|k: int| 0 <= k < m ==> ns[k] == names@[k]@);
    for j in 0..m
        invariant
            forall|k: int| 0 <= k < j ==> ns[k] != target@,
    {
        if *names[j] == *target {
            assert(ns[j as int] == target@);
            return Err(
                (
                    ErrorKind::DuplicateOperandError,
                    String::from_str("a control repeats the target"),
                ),
            );
        }
    }
    assert(!ns.contains(target@));
    for j in 0..m
        invariant
            forall|a: int, b: int| 0 <= a < b < j ==> ns[a] != ns[b],
    {
        for k in 0..j
            invariant
                forall|a: int, b: int| 0 <= a < b < j ==> ns[a] != ns[b],
                forall|a: int| 0 <= a < k ==> ns[a] != ns[j as int],
        {
            if *names[k] == *names[j] {
                assert(ns[k as int] == ns[j as int]);
                return Err(
                    (
                        ErrorKind::DuplicateOperandError,
                        String::from_str("two controls share a name"),
                    ),
                );
            }
        }
    }
    assert(!has_duplicate(ns));
    Ok(())
}

/// Check one gate application.
fn check_gate(n: &ASTNode, ctx: &StringHashMap<ValueExpr>) -> (r: Result<(), (ErrorKind, String)>)
    ensures
        match r {
            Ok(()) => spec_check_gate(*n, ctx@) == Ok::<Ctx, ErrorKind>(ctx@),
            Err(p) => spec_check_gate(*n, ctx@) == Err::<Ctx, ErrorKind>(p.0),
        },
{
    let cs = match &n.children {
        Some(cs) => cs,
        None => {
            return Err(
                (ErrorKind::StructuralError, String::from_str("gate statement without children")),
            );
        },
    };
    if cs.len() < 3 || cs.len() > 5 {
        return Err(
            (
                ErrorKind::StructuralError,
                String::from_str("gate statement must hold three to five children"),
            ),
        );
    }
    if !(matches!(cs[0].node_kind, NodeKind::Name(_))) {
        return Err(
            (ErrorKind::StructuralError, String::from_str("gate statement must name its gate")),
        );
    }
    let g: GateExpr = match &cs[1].node_kind {
        NodeKind::GateType(g) => *g,
        _ => {
            return Err(
                (
                    ErrorKind::StructuralError,
                    String::from_str("gate statement must carry a category tag"),
                ),
            );
        },
    };
    let target: &String = match resolve_q(&cs[2], ctx) {
        Ok(nm) => nm,
        Err(p) => {
            return Err(p);
        },
    };
    match g {
        GateExpr::Q1Gate => {
            if cs.len() == 3 {
                Ok(())
            } else {
                Err(
                    (
                        ErrorKind::ArityError,
                        String::from_str("a single-qubit gate takes no controls and no parameters"),
                    ),
                )
            }
        },
        GateExpr::Q1ParamGate | GateExpr::Q2ParamGate => {
            if cs.len() == 3 {
                return Err(
                    (
                        ErrorKind::ArityError,
                        String::from_str("a parameterized gate needs a parameter list"),
                    ),
                );
            }
            if cs.len() == 4 {
                if matches!(cs[3].node_kind, NodeKind::ControlList) {
                    let ctl = match &cs[3].children {
                        Some(ctl) => ctl,
                        None => {
                            return Err(
                                (
                                    ErrorKind::StructuralError,
                                    String::from_str("control list without children"),
                                ),
                            );
                        },
                    };
                    return match check_controls(ctl, target, ctx) {
                        Ok(()) => Err(
                            (
                                ErrorKind::ArityError,
                                String::from_str("a parameterized gate still needs its parameters"),
                            ),
                        ),
                        Err(p) => Err(p),
                    };
                }
                let ps = match &cs[3].node_kind {
                    NodeKind::ValList => match &cs[3].children {
                        Some(ps) => ps,
                        None => {
                            return Err(
                                (
                                    ErrorKind::StructuralError,
                                    String::from_str("parameter list without children"),
                                ),
                            );
                        },
                    },
                    _ => {
                        return Err(
                            (
                                ErrorKind::StructuralError,
                                String::from_str(
                                    "a parameterized gate must end in a parameter list",
                                ),
                            ),
                        );
                    },
                };
                check_params(ps)
            } else {
                let ctl = match &cs[3].node_kind {
                    NodeKind::ControlList => match &cs[3].children {
                        Some(ctl) => ctl,
                        None => {
                            return Err(
                                (
                                    ErrorKind::StructuralError,
                                    String::from_str("control list without children"),
                                ),
                            );
                        },
                    },
                    _ => {
                        return Err(
                            (
                                ErrorKind::StructuralError,
                                String::from_str(
                                    "expected a control list before the parameter list",
                                ),
                            ),
                        );
                    },
                };
                let ps = match &cs[4].node_kind {
                    NodeKind::ValList => match &cs[4].children {
                        Some(ps) => ps,
                        None => {
                            return Err(
                                (
                                    ErrorKind::StructuralError,
                                    String::from_str("parameter list without children"),
                                ),
                            );
                        },
                    },
                    _ => {
                        return Err(
                            (
                                ErrorKind::StructuralError,
                                String::from_str(
                                    "a parameterized gate must end in a parameter list",
                                ),
                            ),
                        );
                    },
                };
                match check_controls(ctl, target, ctx) {
                    Ok(()) => check_params(ps),
                    Err(p) => Err(p),
                }
            }
        },
        GateExpr::Q2Gate | GateExpr::ToffoliGate | GateExpr::QMultiGate => {
            if cs.len() != 4 {
                return Err(
                    (
                        ErrorKind::ArityError,
                        String::from_str("a controlled gate takes exactly a control list"),
                    ),
                );
            }
            if matches!(cs[3].node_kind, NodeKind::ValList) {
                return Err(
                    (
                        ErrorKind::ArityError,
                        String::from_str("a controlled gate takes no parameters"),
                    ),
                );
            }
            let ctl = match &cs[3].node_kind {
                NodeKind::ControlList => match &cs[3].children {
                    Some(ctl) => ctl,
                    None => {
                        return Err(
                            (
                                ErrorKind::StructuralError,
                                String::from_str("control list without children"),
                            ),
                        );
                    },
                },
                _ => {
                    return Err(
                        (
                            ErrorKind::StructuralError,
                            String::from_str("a controlled gate must end in a control list"),
                        ),
                    );
                },
            };
            let two_qubit = matches!(g, GateExpr::Q2Gate);
            if (two_qubit && ctl.len() != 1) || ctl.len() == 0 {
                return Err(
                    (
                        ErrorKind::ArityError,
                        String::from_str("wrong number of controls for this gate category"),
                    ),
                );
            }
            check_controls(ctl, target, ctx)
        },
    }
}

/// Check one measurement.
fn check_measure(n: &ASTNode, ctx: &StringHashMap<ValueExpr>) -> (r: Result<
    (),
    (ErrorKind, String),
>)
    ensures
        match r {
            Ok(()) => spec_check_measure(*n, ctx@) == Ok::<Ctx, ErrorKind>(ctx@),
            Err(p) => spec_check_measure(*n, ctx@) == Err::<Ctx, ErrorKind>(p.0),
        },
{
    let cs = match &n.children {
        Some(cs) => cs,
        None => {
            return Err(
                (ErrorKind::StructuralError, String::from_str("measurement without children")),
            );
        },
    };
    if cs.len() != 2 {
        return Err(
            (ErrorKind::StructuralError, String::from_str("measurement must hold two operands")),
        );
    }
    match resolve_q(&cs[0], ctx) {
        Ok(_) => (),
        Err(p) => {
            return Err(p);
        },
    }
    match resolve_c(&cs[1], ctx) {
        Ok(_) => Ok(()),
        Err(p) => Err(p),
    }
}

/// Check one return statement.
fn check_return(n: &ASTNode, ctx: &StringHashMap<ValueExpr>) -> (r: Result<
    (),
    (ErrorKind, String),
>)
    ensures
        match r {
            Ok(()) => spec_check_return(*n, ctx@) == Ok::<Ctx, ErrorKind>(ctx@),
            Err(p) => spec_check_return(*n, ctx@) == Err::<Ctx, ErrorKind>(p.0),
        },
{
    let cs = match &n.children {
        Some(cs) => cs,
        None => {
            return Err(
                (ErrorKind::StructuralError, String::from_str("return statement without children")),
            );
        },
    };
    if cs.len() < 1 || cs.len() > 2 {
        return Err(
            (
                ErrorKind::StructuralError,
                String::from_str("return statement must hold a shot count and at most a tag"),
            ),
        );
    }
    if cs.len() == 2 && !(matches!(cs[1].node_kind, NodeKind::OutputType(_))) {
        return Err(
            (
                ErrorKind::StructuralError,
                String::from_str("the second child of a return must be an output tag"),
            ),
        );
    }
    match &cs[0].node_kind {
        NodeKind::Int(v) => if *v < 1 {
            Err((ErrorKind::RangeError, String::from_str("shot count must be at least 1")))
        } else {
            Ok(())
        },
        _ => Err(
            (ErrorKind::StructuralError, String::from_str("shot count must be an int literal")),
        ),
    }
}

/// Check one statement, threading the symbol table.
fn check_stmt(n: &ASTNode, ctx: &mut StringHashMap<ValueExpr>) -> (r: Result<
    (),
    (ErrorKind, String),
>)
    ensures
        match r {
            Ok(()) => spec_check_stmt(*n, old(ctx)@) == Ok::<Ctx, ErrorKind>(final(ctx)@),
            Err(p) => spec_check_stmt(*n, old(ctx)@) == Err::<Ctx, ErrorKind>(p.0) && final(ctx)@
                == old(ctx)@,
        },
{
    match &n.node_kind {
        NodeKind::Assignment => check_assignment(n, ctx),
        NodeKind::GateApplication => check_gate(n, ctx),
        NodeKind::Measurement => check_measure(n, ctx),
        NodeKind::Return => check_return(n, ctx),
        _ => Err(
            (ErrorKind::StructuralError, String::from_str("node is not one of the statement forms")),
        ),
    }
}

/// Check a whole program: `Return` placement first, then the forward pass
/// over every statement with an initially empty symbol table.
///
/// The result is exactly what the model `spec_check` says, down to the
/// error kind and the 1-based statement index; only the message text is
/// presentation.
#[verifier::loop_isolation(false)]
pub fn type_check(ast: &ASTNode) -> (r: Result<(), CheckError>)
    ensures
        match r {
            Ok(()) => spec_check(*ast) == Ok::<(), (ErrorKind, int)>(()),
            Err(e) => spec_check(*ast) == Err::<(), (ErrorKind, int)>(
                (e.kind, e.stmt_index as int),
            ),
        },
{
    let children = match &ast.children {
        Some(cs) => cs,
        None => {
            return Err(
                CheckError {
                    kind: ErrorKind::StructuralError,
                    stmt_index: 0,
                    message: String::from_str("program node without children"),
                },
            );
        },
    };
    if !(matches!(ast.node_kind, NodeKind::Program)) || children.len() == 0 {
        return Err(
            CheckError {
                kind: ErrorKind::StructuralError,
                stmt_index: 0,
                message: String::from_str("root must be a non-empty program node"),
            },
        );
    }
    let n = children.len();
    if !(matches!(children[n - 1].node_kind, NodeKind::EOI)) {
        return Err(
            CheckError {
                kind: ErrorKind::StructuralError,
                stmt_index: 0,
                message: String::from_str("a program must end in the end marker"),
            },
        );
    }
    for i in 0..n - 1
        invariant
            first_misplaced_return(children@, 0) == first_misplaced_return(children@, i as int),
    {
        if matches!(children[i].node_kind, NodeKind::Return) && i != n - 2 {
            return Err(
                CheckError {
                    kind: ErrorKind::OrderingError,
                    stmt_index: i + 1,
                    message: String::from_str(
                        "a return must immediately precede the end of the program",
                    ),
                },
            );
        }
    }
    assert(first_misplaced_return(children@, 0) is None);
    let mut ctx: StringHashMap<ValueExpr> = StringHashMap::new();
    for i in 0..n
        invariant
            spec_check_stmts(children@, 0, Map::empty()) == spec_check_stmts(
                children@,
                i as int,
                ctx@,
            ),
    {
        if !(matches!(children[i].node_kind, NodeKind::EOI)) {
            match check_stmt(&children[i], &mut ctx) {
                Ok(()) => (),
                Err(p) => {
                    return Err(
                        CheckError { kind: p.0, stmt_index: i + 1, message: p.1 },
                    );
                },
            }
        }
    }
    Ok(())
}

} // verus!
