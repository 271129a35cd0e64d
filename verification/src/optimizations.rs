//! The style heuristic: the fraction of assignment statements whose
//! modality tag is the favored `Maistow`, tested against the closed
//! interval [1/2, 9/10].  The ratio is compared in integer arithmetic, and
//! a program with no assignments is defined to fail the test.

use vstd::prelude::*;

use crate::ast::ASTNode;
use crate::ast::NodeKind;
use crate::ast::RespectExpr;
use crate::ast::kids;

verus! {

/// An assignment statement, as the heuristic counts them.
pub open spec fn is_assignment(n: ASTNode) -> bool {
    n.node_kind is Assignment
}

/// An assignment whose modality tag is the favored `Maistow`.
pub open spec fn is_favored_assignment(n: ASTNode) -> bool {
    &&& n.node_kind is Assignment
    &&& n.children is Some
    &&& kids(n).len() >= 1
    &&& kids(n)[0].node_kind == NodeKind::RespectType(RespectExpr::Maistow)
}

/// How many of the first `i` nodes are assignments.
pub open spec fn assignment_count(s: Seq<ASTNode>, i: int) -> nat
    decreases i,
{
    if i <= 0 || i > s.len() {
        0
    } else {
        assignment_count(s, i - 1) + (if is_assignment(s[i - 1]) {
            1nat
        } else {
            0nat
        })
    }
}

/// How many of the first `i` nodes are favored assignments.
pub open spec fn favored_count(s: Seq<ASTNode>, i: int) -> nat
    decreases i,
{
    if i <= 0 || i > s.len() {
        0
    } else {
        favored_count(s, i - 1) + (if is_favored_assignment(s[i - 1]) {
            1nat
        } else {
            0nat
        })
    }
}

/// What the heuristic answers: with `m` favored out of `t` assignments, true
/// exactly when `t > 0` and `1/2 <= m/t <= 9/10`, phrased over integers.
/// A node without children has no assignments and so fails the test.
pub open spec fn spec_respect_ratio(ast: ASTNode) -> bool {
    if ast.children is None {
        false
    } else {
        let t = assignment_count(kids(ast), kids(ast).len() as int);
        let m = favored_count(kids(ast), kids(ast).len() as int);
        t > 0 && 2 * m >= t && 10 * m <= 9 * t
    }
}

/// Walk the top-level statements and test whether the favored-modality
/// ratio lies in [1/2, 9/10].  Zero assignments give a defined result:
/// false.
#[verifier::loop_isolation(false)]
pub fn respect_ratio(ast: &ASTNode) -> (r: bool)
    ensures
        r == spec_respect_ratio(*ast),
        assignment_count(kids(*ast), kids(*ast).len() as int) == 0 ==> r == false,
{
    let children = match &ast.children {
        Some(cs) => cs,
        None => {
            return false;
        },
    };
    let n = children.len();
    let mut total: usize = 0;
    let mut maistows: usize = 0;
    for i in 0..n
        invariant
            total == assignment_count(children@, i as int),
            maistows == favored_count(children@, i as int),
            maistows <= total <= i,
    {
        match &children[i].node_kind {
            NodeKind::Assignment => {
                total = total + 1;
                match &children[i].children {
                    Some(acs) => {
                        if acs.len() >= 1 && matches!(
                            acs[0].node_kind,
                            NodeKind::RespectType(RespectExpr::Maistow),
                        ) {
                            maistows = maistows + 1;
                        }
                    },
                    None => (),
                }
            },
            _ => (),
        }
    }
    total > 0 && 2 * (maistows as u128) >= (total as u128) && 10 * (maistows as u128) <= 9 * (
    total as u128)
}

} // verus!
