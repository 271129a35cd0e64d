//! The parser: recursive descent from source text to the tree of `ast`.
//!
//! The grammar is the project's own.  Statements are an assignment
//! (`Maistow qubit q0 = 0;`), a gate application (`cx q0, q1;`, with an
//! optional parenthesised parameter list), a measurement
//! (`measure q0 -> c0;`) and a return (`return 1000;`, with an optional
//! output-format tag after `->`).  Every statement ends in one `;`, and no
//! other token holds one, so a valid program's statement count is its
//! semicolon count.
//!
//! The grammar is stated once more as specification functions: the
//! `spec_*_end` family fixes where each construct ends, culminating in
//! `spec_accepts`, and the `built_*` family fixes the node built for each
//! construct at a given position, culminating in `built_stmt`.  `parse` is
//! proved to succeed on exactly the texts the grammar accepts, returning a
//! well-formed tree with one top-level child per statement whose whole
//! content - statement form, tags, name and literal lexemes, numeric
//! values, list elements - is the one the text dictates.

use vstd::prelude::*;

use crate::ast::ASTNode;
use crate::ast::NodeKind;
use crate::ast::OutputExpr;
use crate::ast::RespectExpr;
use crate::ast::ValueExpr;
use crate::ast::GateExpr;
use crate::ast::kids;
use crate::ast::wf_assign_value;
use crate::ast::wf_assignment;
use crate::ast::wf_cbit_lit;
use crate::ast::wf_gate_app;
use crate::ast::wf_measurement;
use crate::ast::wf_param;
use crate::ast::wf_program;
use crate::ast::wf_q_operand;
use crate::ast::wf_c_operand;
use crate::ast::wf_qreg;
use crate::ast::wf_creg;
use crate::ast::wf_qubit_lit;
use crate::ast::wf_return;
use crate::ast::wf_stmt;
use crate::type_checker::value_kind_of;
use vstd::string::StrSliceExecFns;
use vstd::string::StringExecFns;

verus! {

/// A rejection by the parser, with the character position it points at.
#[derive(Debug)]
pub struct SyntaxError {
    pub pos: usize,
    pub message: String,
}

/// The parser for Quill source text; `parse` is its entry point.
#[derive(Debug, Clone, Copy)]
pub struct QuillParser;

/// Whitespace between tokens.
pub open spec fn is_space_char(c: char) -> bool {
    c == ' ' || c == '\t' || c == '\n' || c == '\r'
}

/// An ASCII decimal digit.
pub open spec fn is_digit_char(c: char) -> bool {
    48 <= c as u32 <= 57
}

/// An ASCII letter.
pub open spec fn is_alpha_char(c: char) -> bool {
    (65 <= c as u32 <= 90) || (97 <= c as u32 <= 122)
}

/// A character that may continue an identifier.
pub open spec fn is_ident_char(c: char) -> bool {
    is_alpha_char(c) || is_digit_char(c) || c == '_'
}

/// The numeric value of a digit character.
pub open spec fn digit_val(c: char) -> int {
    c as u32 - 48
}

/// The value of a digit string read in base 10.
pub open spec fn digits_val(s: Seq<char>) -> int
    decreases s.len(),
{
    if s.len() == 0 {
        0
    } else {
        digits_val(s.drop_last()) * 10 + digit_val(s.last())
    }
}

/// How many semicolons `s` holds in the range `[a, b)`.
pub open spec fn semi_count_range(s: Seq<char>, a: int, b: int) -> nat
    decreases b - a,
{
    if a >= b || b > s.len() || a < 0 {
        0
    } else {
        semi_count_range(s, a, b - 1) + (if s[b - 1] == ';' {
            1nat
        } else {
            0nat
        })
    }
}

/// How many statements a text holds: in this grammar one `;` ends each
/// statement and appears in no other token, so this is the semicolon count.
pub open spec fn statement_count(s: Seq<char>) -> nat {
    semi_count_range(s, 0, s.len() as int)
}

/// No semicolon anywhere in `[a, b)`.
pub open spec fn no_semi(s: Seq<char>, a: int, b: int) -> bool {
    forall|k: int| a <= k < b ==> s[k] != ';'
}

/// The consumed range `[a, b)` of a statement: one `;` at its end and none
/// before it.
pub open spec fn one_semi_at_end(s: Seq<char>, a: int, b: int) -> bool {
    &&& a < b <= s.len()
    &&& s[b - 1] == ';'
    &&& no_semi(s, a, b - 1)
}

/// Semicolon counts add over adjacent ranges.
proof fn lemma_semi_split(s: Seq<char>, a: int, m: int, b: int)
    requires
        0 <= a <= m <= b <= s.len(),
    ensures
        semi_count_range(s, a, b) == semi_count_range(s, a, m) + semi_count_range(s, m, b),
    decreases b - m,
{
    if m == b {
    } else {
        lemma_semi_split(s, a, m, b - 1);
    }
}

/// A range without semicolons counts none.
proof fn lemma_semi_none(s: Seq<char>, a: int, b: int)
    requires
        0 <= a,
        b <= s.len(),
        no_semi(s, a, b),
    ensures
        semi_count_range(s, a, b) == 0,
    decreases b - a,
{
    if a < b {
        lemma_semi_none(s, a, b - 1);
    }
}

/// A statement's consumed range counts exactly one semicolon.
proof fn lemma_semi_one(s: Seq<char>, a: int, b: int)
    requires
        0 <= a,
        one_semi_at_end(s, a, b),
    ensures
        semi_count_range(s, a, b) == 1,
{
    lemma_semi_none(s, a, b - 1);
}

/// A digit string reads as a non-negative value.
proof fn lemma_digits_val_nonneg(s: Seq<char>, i: int, b: int)
    requires
        0 <= i <= b <= s.len(),
        forall|k: int| i <= k < b ==> is_digit_char(s[k]),
    ensures
        digits_val(s.subrange(i, b)) >= 0,
    decreases b - i,
{
    if i < b {
        lemma_digits_val_nonneg(s, i, b - 1);
        assert(s.subrange(i, b).drop_last() =~= s.subrange(i, b - 1));
        assert(s.subrange(i, b).last() == s[b - 1]);
    }
}

/// Reading more digits never shrinks the value.
proof fn lemma_digits_val_prefix_le(s: Seq<char>, i: int, a: int, b: int)
    requires
        0 <= i <= a <= b <= s.len(),
        forall|k: int| i <= k < b ==> is_digit_char(s[k]),
    ensures
        digits_val(s.subrange(i, a)) <= digits_val(s.subrange(i, b)),
    decreases b - a,
{
    if a < b {
        lemma_digits_val_prefix_le(s, i, a, b - 1);
        lemma_digits_val_nonneg(s, i, b - 1);
        assert(s.subrange(i, b).drop_last() =~= s.subrange(i, b - 1));
        assert(s.subrange(i, b).last() == s[b - 1]);
    }
}

/// Where whitespace ends, from `i` on.
pub open spec fn spec_skip_ws(s: Seq<char>, i: int) -> int
    decreases s.len() - i,
{
    if 0 <= i < s.len() && is_space_char(s[i]) {
        spec_skip_ws(s, i + 1)
    } else {
        i
    }
}

/// Where a run of identifier-continuation characters ends, from `i` on.
pub open spec fn spec_ident_run(s: Seq<char>, i: int) -> int
    decreases s.len() - i,
{
    if 0 <= i < s.len() && is_ident_char(s[i]) {
        spec_ident_run(s, i + 1)
    } else {
        i
    }
}

/// Where the identifier starting at `i` ends; `i` itself when none starts
/// there.
pub open spec fn spec_ident_end(s: Seq<char>, i: int) -> int {
    if 0 <= i < s.len() && is_alpha_char(s[i]) {
        spec_ident_run(s, i + 1)
    } else {
        i
    }
}

/// Where the digit run starting at `i` ends.
pub open spec fn spec_digits_end(s: Seq<char>, i: int) -> int
    decreases s.len() - i,
{
    if 0 <= i < s.len() && is_digit_char(s[i]) {
        spec_digits_end(s, i + 1)
    } else {
        i
    }
}

/// Where an unsigned number ends: a non-empty digit run whose value fits a
/// 32-bit signed integer; `None` otherwise.
pub open spec fn spec_uint_end(s: Seq<char>, i: int) -> Option<int> {
    let e = spec_digits_end(s, i);
    if e == i {
        None
    } else if digits_val(s.subrange(i, e)) > i32::MAX {
        None
    } else {
        Some(e)
    }
}

/// Where a number with an optional leading minus sign ends.
pub open spec fn spec_int_end(s: Seq<char>, i: int) -> Option<int> {
    if 0 <= i < s.len() && s[i] == '-' {
        spec_uint_end(s, i + 1)
    } else {
        spec_uint_end(s, i)
    }
}

/// Where a qubit literal (a non-empty digit run) ends.
pub open spec fn spec_qubit_end(s: Seq<char>, i: int) -> Option<int> {
    let e = spec_digits_end(s, i);
    if e == i {
        None
    } else {
        Some(e)
    }
}

/// Where a classical-bit literal (one digit) ends.
pub open spec fn spec_cbit_end(s: Seq<char>, i: int) -> Option<int> {
    if 0 <= i < s.len() && is_digit_char(s[i]) {
        Some(i + 1)
    } else {
        None
    }
}

/// Where a quantum register (qubit literal, bracketed length) ends.
pub open spec fn spec_qreg_end(s: Seq<char>, i: int) -> Option<int> {
    match spec_qubit_end(s, i) {
        None => None,
        Some(j) => {
            let j1 = spec_skip_ws(s, j);
            if j1 < s.len() && s[j1] == '[' {
                let j3 = spec_skip_ws(s, j1 + 1);
                match spec_uint_end(s, j3) {
                    None => None,
                    Some(j4) => {
                        let j5 = spec_skip_ws(s, j4);
                        if j5 < s.len() && s[j5] == ']' {
                            Some(j5 + 1)
                        } else {
                            None
                        }
                    },
                }
            } else {
                None
            }
        },
    }
}

/// Where a classical register (classical-bit literal, bracketed length)
/// ends.
pub open spec fn spec_creg_end(s: Seq<char>, i: int) -> Option<int> {
    match spec_cbit_end(s, i) {
        None => None,
        Some(j) => {
            let j1 = spec_skip_ws(s, j);
            if j1 < s.len() && s[j1] == '[' {
                let j3 = spec_skip_ws(s, j1 + 1);
                match spec_uint_end(s, j3) {
                    None => None,
                    Some(j4) => {
                        let j5 = spec_skip_ws(s, j4);
                        if j5 < s.len() && s[j5] == ']' {
                            Some(j5 + 1)
                        } else {
                            None
                        }
                    },
                }
            } else {
                None
            }
        },
    }
}

/// Where the `*`-joined continuation of a quantum-register tensor ends,
/// from the position right after a parsed register.
pub open spec fn spec_qreg_tail_end(s: Seq<char>, i: int) -> Option<int>
    decreases s.len() - i,
{
    let j1 = spec_skip_ws(s, i);
    if j1 < s.len() && s[j1] == '*' {
        let j2 = spec_skip_ws(s, j1 + 1);
        match spec_qreg_end(s, j2) {
            None => None,
            Some(j3) => if i < j3 <= s.len() {
                spec_qreg_tail_end(s, j3)
            } else {
                None
            },
        }
    } else {
        Some(i)
    }
}

/// Where the `*`-joined continuation of a classical-register tensor ends.
pub open spec fn spec_creg_tail_end(s: Seq<char>, i: int) -> Option<int>
    decreases s.len() - i,
{
    let j1 = spec_skip_ws(s, i);
    if j1 < s.len() && s[j1] == '*' {
        let j2 = spec_skip_ws(s, j1 + 1);
        match spec_creg_end(s, j2) {
            None => None,
            Some(j3) => if i < j3 <= s.len() {
                spec_creg_tail_end(s, j3)
            } else {
                None
            },
        }
    } else {
        Some(i)
    }
}

/// Where a `qreg` assignment value (register or tensor) ends.
pub open spec fn spec_qreg_value_end(s: Seq<char>, i: int) -> Option<int> {
    match spec_qreg_end(s, i) {
        None => None,
        Some(j) => spec_qreg_tail_end(s, j),
    }
}

/// Where a `creg` assignment value (register or tensor) ends.
pub open spec fn spec_creg_value_end(s: Seq<char>, i: int) -> Option<int> {
    match spec_creg_end(s, i) {
        None => None,
        Some(j) => spec_creg_tail_end(s, j),
    }
}

/// Where an operand (a name, optionally with one or two bracketed
/// indices) ends.
pub open spec fn spec_operand_end(s: Seq<char>, i: int) -> Option<int> {
    let j = spec_ident_end(s, i);
    if j == i {
        None
    } else if j < s.len() && s[j] == '[' {
        let j1 = spec_skip_ws(s, j + 1);
        match spec_uint_end(s, j1) {
            None => None,
            Some(j2) => {
                let jj = spec_skip_ws(s, j2);
                if jj < s.len() && s[jj] == ':' {
                    let j3 = spec_skip_ws(s, jj + 1);
                    match spec_uint_end(s, j3) {
                        None => None,
                        Some(j4) => {
                            let jj2 = spec_skip_ws(s, j4);
                            if jj2 < s.len() && s[jj2] == ']' {
                                Some(jj2 + 1)
                            } else {
                                None
                            }
                        },
                    }
                } else if jj < s.len() && s[jj] == ']' {
                    Some(jj + 1)
                } else {
                    None
                }
            },
        }
    } else {
        Some(j)
    }
}

/// Where the optional `/ divisor` part of a pi literal ends.
pub open spec fn spec_pi_div_end(s: Seq<char>, i: int) -> Option<int> {
    if i < s.len() && s[i] == '/' {
        spec_uint_end(s, i + 1)
    } else {
        Some(i)
    }
}

/// Where a gate parameter (pi literal, float, or int) ends.
pub open spec fn spec_param_end(s: Seq<char>, i: int) -> Option<int> {
    let j = spec_ident_end(s, i);
    if j > i {
        if s.subrange(i, j) == "pi"@ {
            if j < s.len() && s[j] == '*' {
                match spec_uint_end(s, j + 1) {
                    None => None,
                    Some(j2) => spec_pi_div_end(s, j2),
                }
            } else {
                spec_pi_div_end(s, j)
            }
        } else {
            None
        }
    } else if 0 <= i < s.len() && (is_digit_char(s[i]) || s[i] == '-') {
        match spec_int_end(s, i) {
            None => None,
            Some(j2) => if j2 < s.len() && s[j2] == '.' {
                let j3 = spec_digits_end(s, j2 + 1);
                if j3 == j2 + 1 {
                    None
                } else {
                    Some(j3)
                }
            } else {
                Some(j2)
            },
        }
    } else {
        None
    }
}

/// Whitespace test, executably.
fn is_space(c: char) -> (r: bool)
    ensures
        r == is_space_char(c),
{
    c == ' ' || c == '\t' || c == '\n' || c == '\r'
}

/// Digit test, executably.
fn is_digit(c: char) -> (r: bool)
    ensures
        r == is_digit_char(c),
{
    let u = c as u32;
    48 <= u && u <= 57
}

/// Letter test, executably.
fn is_alpha(c: char) -> (r: bool)
    ensures
        r == is_alpha_char(c),
{
    let u = c as u32;
    (65 <= u && u <= 90) || (97 <= u && u <= 122)
}

/// Identifier-continuation test, executably.
fn is_ident(c: char) -> (r: bool)
    ensures
        r == is_ident_char(c),
{
    is_alpha(c) || is_digit(c) || c == '_'
}

/// Advance past whitespace.
#[verifier::loop_isolation(false)]
fn skip_ws(s: &str, n: usize, i: usize) -> (j: usize)
    requires
        n == s@.len(),
        i <= n,
    ensures
        i <= j <= n,
        forall|k: int| i <= k < j ==> is_space_char(s@[k]),
        j < n ==> !is_space_char(s@[j as int]),
        no_semi(s@, i as int, j as int),
        j as int == spec_skip_ws(s@, i as int),
{
    let mut j = i;
    while j < n && is_space(s.get_char(j))
        invariant
            i <= j <= n,
            forall|k: int| i <= k < j ==> is_space_char(s@[k]),
            spec_skip_ws(s@, i as int) == spec_skip_ws(s@, j as int),
        decreases n - j,
    {
        j = j + 1;
    }
    assert forall|k: int| i <= k < j implies s@[k] != ';' by {
        assert(is_space_char(s@[k]));
    }
    j
}

/// End of the identifier starting at `i`, or `i` when none starts there.
#[verifier::loop_isolation(false)]
fn scan_ident_end(s: &str, n: usize, i: usize) -> (j: usize)
    requires
        n == s@.len(),
        i <= n,
    ensures
        i <= j <= n,
        j > i ==> is_alpha_char(s@[i as int]),
        forall|k: int| i <= k < j ==> is_ident_char(s@[k]),
        j < n ==> !(j == i && is_alpha_char(s@[j as int])) && !(j > i && is_ident_char(
            s@[j as int],
        )),
        no_semi(s@, i as int, j as int),
        j as int == spec_ident_end(s@, i as int),
{
    let mut j = i;
    if j < n && is_alpha(s.get_char(j)) {
        j = j + 1;
        while j < n && is_ident(s.get_char(j))
            invariant
                i < j <= n,
                is_alpha_char(s@[i as int]),
                forall|k: int| i <= k < j ==> is_ident_char(s@[k]),
                spec_ident_run(s@, i as int + 1) == spec_ident_run(s@, j as int),
            decreases n - j,
        {
            j = j + 1;
        }
    }
    assert forall|k: int| i <= k < j implies s@[k] != ';' by {
        assert(is_ident_char(s@[k]));
    }
    j
}

/// End of the digit run starting at `i`.
#[verifier::loop_isolation(false)]
fn scan_digits_end(s: &str, n: usize, i: usize) -> (j: usize)
    requires
        n == s@.len(),
        i <= n,
    ensures
        i <= j <= n,
        forall|k: int| i <= k < j ==> is_digit_char(s@[k]),
        j < n ==> !is_digit_char(s@[j as int]),
        no_semi(s@, i as int, j as int),
        j as int == spec_digits_end(s@, i as int),
{
    let mut j = i;
    while j < n && is_digit(s.get_char(j))
        invariant
            i <= j <= n,
            forall|k: int| i <= k < j ==> is_digit_char(s@[k]),
            spec_digits_end(s@, i as int) == spec_digits_end(s@, j as int),
        decreases n - j,
    {
        j = j + 1;
    }
    assert forall|k: int| i <= k < j implies s@[k] != ';' by {
        assert(is_digit_char(s@[k]));
    }
    j
}

/// The text of `[i, j)` as an owned string.
fn lexeme(s: &str, i: usize, j: usize) -> (t: String)
    requires
        i <= j,
        j <= s@.len(),
    ensures
        t@ == s@.subrange(i as int, j as int),
{
    String::from_str(s.substring_char(i, j))
}

/// Whether a token reads exactly as a keyword.
fn tok_eq(t: &String, kw: &str) -> (r: bool)
    ensures
        r == (t@ == kw@),
{
    *t == String::from_str(kw)
}

/// A childless node.
fn leaf(k: NodeKind) -> (node: ASTNode)
    ensures
        node.node_kind == k,
        node.children is None,
{
    ASTNode { children: None, node_kind: k }
}

/// Demand one fixed character at `i`.
fn expect(s: &str, n: usize, i: usize, c: char, what: &str) -> (r: Result<usize, SyntaxError>)
    requires
        n == s@.len(),
        i <= n,
    ensures
        match r {
            Ok(j) => j == i + 1 && i < n && s@[i as int] == c,
            Err(_) => !(i < n && s@[i as int] == c),
        },
{
    if i < n && s.get_char(i) == c {
        Ok(i + 1)
    } else {
        Err(SyntaxError { pos: i, message: String::from_str(what) })
    }
}

/// Read an unsigned decimal number into an `i32`.
#[verifier::loop_isolation(false)]
fn parse_uint(s: &str, n: usize, i: usize) -> (r: Result<(i32, usize), SyntaxError>)
    requires
        n == s@.len(),
        i <= n,
    ensures
        match r {
            Ok(p) => i < p.1 <= n && (forall|k: int| i <= k < p.1 ==> is_digit_char(s@[k])) && (p.1
                < n ==> !is_digit_char(s@[p.1 as int])) && 0 <= p.0 && p.0 as int == digits_val(
                s@.subrange(i as int, p.1 as int),
            ) && no_semi(s@, i as int, p.1 as int) && spec_uint_end(s@, i as int) == Some(
                p.1 as int,
            ),
            Err(_) => spec_uint_end(s@, i as int) is None,
        },
{
    let j_end = scan_digits_end(s, n, i);
    if j_end == i {
        return Err(SyntaxError { pos: i, message: String::from_str("expected a number") });
    }
    let mut acc: i32 = 0;
    let mut j = i;
    proof {
        assert(s@.subrange(i as int, i as int) =~= Seq::<char>::empty());
    }
    while j < j_end
        invariant
            i <= j <= j_end,
            0 <= acc,
            acc as int == digits_val(s@.subrange(i as int, j as int)),
        decreases j_end - j,
    {
        let c = s.get_char(j);
        assert(is_digit_char(s@[j as int]));
        let d = (c as u32 - 48) as i32;
        if acc > (i32::MAX - d) / 10 {
            proof {
                assert(acc * 10 + d > i32::MAX) by (nonlinear_arith)
                    requires
                        0 <= acc,
                        0 <= d <= 9,
                        acc > (i32::MAX - d) / 10,
                ;
                assert(s@.subrange(i as int, (j + 1) as int).drop_last() =~= s@.subrange(
                    i as int,
                    j as int,
                ));
                assert(s@.subrange(i as int, (j + 1) as int).last() == s@[j as int]);
                assert(digits_val(s@.subrange(i as int, (j + 1) as int)) > i32::MAX);
                lemma_digits_val_prefix_le(s@, i as int, (j + 1) as int, j_end as int);
            }
            return Err(
                SyntaxError { pos: i, message: String::from_str("number does not fit in 31 bits") },
            );
        }
        assert(acc * 10 + d <= i32::MAX) by (nonlinear_arith)
            requires
                0 <= acc,
                0 <= d <= 9,
                acc <= (i32::MAX - d) / 10,
        ;
        acc = acc * 10 + d;
        proof {
            assert(s@.subrange(i as int, (j + 1) as int).drop_last() =~= s@.subrange(
                i as int,
                j as int,
            ));
            assert(s@.subrange(i as int, (j + 1) as int).last() == s@[j as int]);
        }
        j = j + 1;
    }
    Ok((acc, j_end))
}

/// Read a decimal number with an optional leading minus sign.
fn parse_int(s: &str, n: usize, i: usize) -> (r: Result<(i32, usize), SyntaxError>)
    requires
        n == s@.len(),
        i <= n,
    ensures
        match r {
            Ok(p) => i < p.1 <= n && no_semi(s@, i as int, p.1 as int) && (if s@[i as int] == '-' {
                p.0 as int == -digits_val(s@.subrange(i + 1, p.1 as int))
            } else {
                p.0 as int == digits_val(s@.subrange(i as int, p.1 as int))
            }) && spec_int_end(s@, i as int) == Some(p.1 as int),
            Err(_) => spec_int_end(s@, i as int) is None,
        },
{
    if i < n && s.get_char(i) == '-' {
        match parse_uint(s, n, i + 1) {
            Ok(p) => Ok((-p.0, p.1)),
            Err(e) => Err(e),
        }
    } else {
        parse_uint(s, n, i)
    }
}

/// A qubit literal: a run of digits, kept as its lexeme.
fn parse_qubit_lit(s: &str, n: usize, i: usize) -> (r: Result<(ASTNode, usize), SyntaxError>)
    requires
        n == s@.len(),
        i <= n,
    ensures
        match r {
            Ok(p) => i < p.1 <= n && wf_qubit_lit(p.0) && no_semi(s@, i as int, p.1 as int)
                && (p.0.node_kind matches NodeKind::Qubit(q) && q@ == s@.subrange(
                i as int,
                p.1 as int,
            )) && spec_qubit_end(s@, i as int) == Some(p.1 as int) && built_qubit_lit(
                s@,
                i as int,
                p.0,
            ),
            Err(_) => spec_qubit_end(s@, i as int) is None,
        },
{
    let j = scan_digits_end(s, n, i);
    if j == i {
        return Err(SyntaxError { pos: i, message: String::from_str("expected a qubit literal") });
    }
    let tok = lexeme(s, i, j);
    Ok((leaf(NodeKind::Qubit(tok)), j))
}

/// A classical-bit literal: one digit.
fn parse_cbit_lit(s: &str, n: usize, i: usize) -> (r: Result<(ASTNode, usize), SyntaxError>)
    requires
        n == s@.len(),
        i <= n,
    ensures
        match r {
            Ok(p) => p.1 == i + 1 && i < n && wf_cbit_lit(p.0) && no_semi(s@, i as int, p.1 as int)
                && (p.0.node_kind matches NodeKind::CBit(b) && b as int == digit_val(s@[i as int]))
                && spec_cbit_end(s@, i as int) == Some(p.1 as int) && built_cbit_lit(
                s@,
                i as int,
                p.0,
            ),
            Err(_) => spec_cbit_end(s@, i as int) is None,
        },
{
    if i < n {
        let c = s.get_char(i);
        if is_digit(c) {
            let d = (c as u32 - 48) as i32;
            return Ok((leaf(NodeKind::CBit(d)), i + 1));
        }
    }
    Err(SyntaxError { pos: i, message: String::from_str("expected a classical-bit literal") })
}

/// A quantum register: a qubit literal and a bracketed length.
fn parse_qreg(s: &str, n: usize, i: usize) -> (r: Result<(ASTNode, usize), SyntaxError>)
    requires
        n == s@.len(),
        i <= n,
    ensures
        match r {
            Ok(p) => i < p.1 <= n && wf_qreg(p.0) && no_semi(s@, i as int, p.1 as int)
                && spec_qreg_end(s@, i as int) == Some(p.1 as int) && built_qreg(s@, i as int, p.0),
            Err(_) => spec_qreg_end(s@, i as int) is None,
        },
{
    let (q, j) = match parse_qubit_lit(s, n, i) {
        Ok(p) => p,
        Err(e) => {
            return Err(e);
        },
    };
    let j1 = skip_ws(s, n, j);
    let j2 = match expect(s, n, j1, '[', "expected a bracketed register length") {
        Ok(j2) => j2,
        Err(e) => {
            return Err(e);
        },
    };
    let j3 = skip_ws(s, n, j2);
    let (len_v, j4) = match parse_uint(s, n, j3) {
        Ok(p) => p,
        Err(e) => {
            return Err(e);
        },
    };
    let j5 = skip_ws(s, n, j4);
    let j6 = match expect(s, n, j5, ']', "expected a closing bracket after a register length") {
        Ok(j6) => j6,
        Err(e) => {
            return Err(e);
        },
    };
    let mut cs: Vec<ASTNode> = Vec::new();
    cs.push(q);
    cs.push(leaf(NodeKind::Index(len_v)));
    let node = ASTNode { children: Some(cs), node_kind: NodeKind::QReg };
    Ok((node, j6))
}

/// A classical register: a classical-bit literal and a bracketed length.
fn parse_creg(s: &str, n: usize, i: usize) -> (r: Result<(ASTNode, usize), SyntaxError>)
    requires
        n == s@.len(),
        i <= n,
    ensures
        match r {
            Ok(p) => i < p.1 <= n && wf_creg(p.0) && no_semi(s@, i as int, p.1 as int)
                && spec_creg_end(s@, i as int) == Some(p.1 as int) && built_creg(s@, i as int, p.0),
            Err(_) => spec_creg_end(s@, i as int) is None,
        },
{
    let (b, j) = match parse_cbit_lit(s, n, i) {
        Ok(p) => p,
        Err(e) => {
            return Err(e);
        },
    };
    let j1 = skip_ws(s, n, j);
    let j2 = match expect(s, n, j1, '[', "expected a bracketed register length") {
        Ok(j2) => j2,
        Err(e) => {
            return Err(e);
        },
    };
    let j3 = skip_ws(s, n, j2);
    let (len_v, j4) = match parse_uint(s, n, j3) {
        Ok(p) => p,
        Err(e) => {
            return Err(e);
        },
    };
    let j5 = skip_ws(s, n, j4);
    let j6 = match expect(s, n, j5, ']', "expected a closing bracket after a register length") {
        Ok(j6) => j6,
        Err(e) => {
            return Err(e);
        },
    };
    let mut cs: Vec<ASTNode> = Vec::new();
    cs.push(b);
    cs.push(leaf(NodeKind::Index(len_v)));
    let node = ASTNode { children: Some(cs), node_kind: NodeKind::CReg };
    Ok((node, j6))
}

/// The value of a `qreg` assignment: one register, or a `*`-joined tensor.
#[verifier::loop_isolation(false)]
fn parse_qreg_value(s: &str, n: usize, i: usize) -> (r: Result<(ASTNode, usize), SyntaxError>)
    requires
        n == s@.len(),
        i <= n,
    ensures
        match r {
            Ok(p) => i < p.1 <= n && wf_assign_value(p.0) && no_semi(s@, i as int, p.1 as int)
                && value_kind_of(p.0) == Some(ValueExpr::QReg) && spec_qreg_value_end(
                s@,
                i as int,
            ) == Some(p.1 as int) && built_qreg_value(s@, i as int, p.0),
            Err(_) => spec_qreg_value_end(s@, i as int) is None,
        },
{
    let (first, j) = match parse_qreg(s, n, i) {
        Ok(p) => p,
        Err(e) => {
            return Err(e);
        },
    };
    let mut regs: Vec<ASTNode> = Vec::new();
    regs.push(first);
    let mut jj = j;
    let mut done = false;
    while !done
        invariant
            n == s@.len(),
            i < jj <= n,
            regs@.len() >= 1,
            forall|k: int| 0 <= k < regs@.len() ==> wf_qreg(#[trigger] regs@[k]),
            no_semi(s@, i as int, jj as int),
            spec_qreg_tail_end(s@, j as int) == spec_qreg_tail_end(s@, jj as int),
            done ==> spec_qreg_tail_end(s@, jj as int) == Some(jj as int),
            forall|k: int|
                0 <= k < regs@.len() ==> built_qreg(
                    s@,
                    qreg_elem_start(s@, i as int, k),
                    #[trigger] regs@[k],
                ),
            spec_qreg_end(s@, qreg_elem_start(s@, i as int, regs@.len() - 1)) == Some(jj as int),
            qreg_tail_count(s@, j as int) == regs@.len() - 1 + qreg_tail_count(s@, jj as int),
            done ==> qreg_tail_count(s@, jj as int) == 0,
        decreases n - jj, (if done { 0int } else { 1int }),
    {
        let j1 = skip_ws(s, n, jj);
        if j1 < n && s.get_char(j1) == '*' {
            let j2 = skip_ws(s, n, j1 + 1);
            let (next, j3) = match parse_qreg(s, n, j2) {
                Ok(p) => p,
                Err(e) => {
                    return Err(e);
                },
            };
            regs.push(next);
            jj = j3;
        } else {
            done = true;
        }
    }
    if regs.len() == 1 {
        let node = regs.remove(0);
        Ok((node, jj))
    } else {
        let node = ASTNode { children: Some(regs), node_kind: NodeKind::QRegTensor };
        Ok((node, jj))
    }
}

/// The value of a `creg` assignment: one register, or a `*`-joined tensor.
#[verifier::loop_isolation(false)]
fn parse_creg_value(s: &str, n: usize, i: usize) -> (r: Result<(ASTNode, usize), SyntaxError>)
    requires
        n == s@.len(),
        i <= n,
    ensures
        match r {
            Ok(p) => i < p.1 <= n && wf_assign_value(p.0) && no_semi(s@, i as int, p.1 as int)
                && value_kind_of(p.0) == Some(ValueExpr::CReg) && spec_creg_value_end(
                s@,
                i as int,
            ) == Some(p.1 as int) && built_creg_value(s@, i as int, p.0),
            Err(_) => spec_creg_value_end(s@, i as int) is None,
        },
{
    let (first, j) = match parse_creg(s, n, i) {
        Ok(p) => p,
        Err(e) => {
            return Err(e);
        },
    };
    let mut regs: Vec<ASTNode> = Vec::new();
    regs.push(first);
    let mut jj = j;
    let mut done = false;
    while !done
        invariant
            n == s@.len(),
            i < jj <= n,
            regs@.len() >= 1,
            forall|k: int| 0 <= k < regs@.len() ==> wf_creg(#[trigger] regs@[k]),
            no_semi(s@, i as int, jj as int),
            spec_creg_tail_end(s@, j as int) == spec_creg_tail_end(s@, jj as int),
            done ==> spec_creg_tail_end(s@, jj as int) == Some(jj as int),
            forall|k: int|
                0 <= k < regs@.len() ==> built_creg(
                    s@,
                    creg_elem_start(s@, i as int, k),
                    #[trigger] regs@[k],
                ),
            spec_creg_end(s@, creg_elem_start(s@, i as int, regs@.len() - 1)) == Some(jj as int),
            creg_tail_count(s@, j as int) == regs@.len() - 1 + creg_tail_count(s@, jj as int),
            done ==> creg_tail_count(s@, jj as int) == 0,
        decreases n - jj, (if done { 0int } else { 1int }),
    {
        let j1 = skip_ws(s, n, jj);
        if j1 < n && s.get_char(j1) == '*' {
            let j2 = skip_ws(s, n, j1 + 1);
            let (next, j3) = match parse_creg(s, n, j2) {
                Ok(p) => p,
                Err(e) => {
                    return Err(e);
                },
            };
            regs.push(next);
            jj = j3;
        } else {
            done = true;
        }
    }
    if regs.len() == 1 {
        let node = regs.remove(0);
        Ok((node, jj))
    } else {
        let node = ASTNode { children: Some(regs), node_kind: NodeKind::CRegTensor };
        Ok((node, jj))
    }
}

/// An operand: a bare name, or a name with one or two bracketed indices.
/// The side decides whether a slice is quantum or classical.
fn parse_operand(s: &str, n: usize, i: usize, quantum: bool) -> (r: Result<
    (ASTNode, usize),
    SyntaxError,
>)
    requires
        n == s@.len(),
        i <= n,
    ensures
        match r {
            Ok(p) => i < p.1 <= n && no_semi(s@, i as int, p.1 as int) && (quantum ==> wf_q_operand(
                p.0,
            )) && (!quantum ==> wf_c_operand(p.0)) && spec_operand_end(s@, i as int) == Some(
                p.1 as int,
            ) && built_operand(s@, i as int, quantum, p.0),
            Err(_) => spec_operand_end(s@, i as int) is None,
        },
{
    let j = scan_ident_end(s, n, i);
    if j == i {
        return Err(SyntaxError { pos: i, message: String::from_str("expected an operand name") });
    }
    let name_node = leaf(NodeKind::Name(lexeme(s, i, j)));
    if j < n && s.get_char(j) == '[' {
        let j1 = skip_ws(s, n, j + 1);
        let (v1, j2) = match parse_uint(s, n, j1) {
            Ok(p) => p,
            Err(e) => {
                return Err(e);
            },
        };
        let mut idxs: Vec<ASTNode> = Vec::new();
        idxs.push(leaf(NodeKind::Index(v1)));
        let mut jj = skip_ws(s, n, j2);
        if jj < n && s.get_char(jj) == ':' {
            let j3 = skip_ws(s, n, jj + 1);
            let (v2, j4) = match parse_uint(s, n, j3) {
                Ok(p) => p,
                Err(e) => {
                    return Err(e);
                },
            };
            idxs.push(leaf(NodeKind::Index(v2)));
            jj = skip_ws(s, n, j4);
        }
        let j5 = match expect(s, n, jj, ']', "expected a closing bracket after slice indices") {
            Ok(j5) => j5,
            Err(e) => {
                return Err(e);
            },
        };
        let indices_node = ASTNode { children: Some(idxs), node_kind: NodeKind::Indices };
        let mut cs: Vec<ASTNode> = Vec::new();
        cs.push(name_node);
        cs.push(indices_node);
        let node = ASTNode {
            children: Some(cs),
            node_kind: if quantum {
                NodeKind::QRegSlice
            } else {
                NodeKind::CRegSlice
            },
        };
        Ok((node, j5))
    } else {
        Ok((name_node, j))
    }
}

/// A gate parameter: a pi-multiple (`pi`, `pi*3`, `pi/2`, `pi*3/2`), a
/// float, or an integer.
fn parse_param(s: &str, n: usize, i: usize) -> (r: Result<(ASTNode, usize), SyntaxError>)
    requires
        n == s@.len(),
        i <= n,
    ensures
        match r {
            Ok(p) => i < p.1 <= n && wf_param(p.0) && no_semi(s@, i as int, p.1 as int)
                && spec_param_end(s@, i as int) == Some(p.1 as int) && built_param(
                s@,
                i as int,
                p.0,
            ),
            Err(_) => spec_param_end(s@, i as int) is None,
        },
{
    let j = scan_ident_end(s, n, i);
    if j > i {
        let tok = lexeme(s, i, j);
        if !tok_eq(&tok, "pi") {
            return Err(
                SyntaxError {
                    pos: i,
                    message: String::from_str("expected pi, a float or an int as a parameter"),
                },
            );
        }
        let mut mult: i32 = 1;
        let mut div: i32 = 1;
        let mut jj = j;
        if jj < n && s.get_char(jj) == '*' {
            let (v, j2) = match parse_uint(s, n, jj + 1) {
                Ok(p) => p,
                Err(e) => {
                    return Err(e);
                },
            };
            mult = v;
            jj = j2;
        }
        if jj < n && s.get_char(jj) == '/' {
            let (v, j2) = match parse_uint(s, n, jj + 1) {
                Ok(p) => p,
                Err(e) => {
                    return Err(e);
                },
            };
            div = v;
            jj = j2;
        }
        return Ok((leaf(NodeKind::PI(mult, div)), jj));
    }
    if i < n {
        let c = s.get_char(i);
        if is_digit(c) || c == '-' {
            let (v, j2) = match parse_int(s, n, i) {
                Ok(p) => p,
                Err(e) => {
                    return Err(e);
                },
            };
            if j2 < n && s.get_char(j2) == '.' {
                let j3 = scan_digits_end(s, n, j2 + 1);
                if j3 == j2 + 1 {
                    return Err(
                        SyntaxError {
                            pos: j2 + 1,
                            message: String::from_str("expected digits after the decimal point"),
                        },
                    );
                }
                return Ok((leaf(NodeKind::Float(lexeme(s, i, j3))), j3));
            }
            return Ok((leaf(NodeKind::Int(v)), j2));
        }
    }
    Err(SyntaxError { pos: i, message: String::from_str("expected a parameter") })
}

/// Which gate category a gate name falls in, or `None` for no gate at all.
pub open spec fn spec_classify_gate(t: Seq<char>) -> Option<GateExpr> {
    if t == "h"@ || t == "x"@ || t == "y"@ || t == "z"@ || t == "s"@ || t == "t"@ {
        Some(GateExpr::Q1Gate)
    } else if t == "rx"@ || t == "ry"@ || t == "rz"@ || t == "p"@ {
        Some(GateExpr::Q1ParamGate)
    } else if t == "cx"@ || t == "cz"@ {
        Some(GateExpr::Q2Gate)
    } else if t == "crx"@ || t == "cry"@ || t == "crz"@ || t == "cp"@ {
        Some(GateExpr::Q2ParamGate)
    } else if t == "ccx"@ || t == "ccz"@ {
        Some(GateExpr::ToffoliGate)
    } else if t == "mcx"@ || t == "mcz"@ {
        Some(GateExpr::QMultiGate)
    } else {
        None
    }
}

/// Classify a gate name, executably.
fn classify_gate(t: &String) -> (g: Option<GateExpr>)
    ensures
        g == spec_classify_gate(t@),
{
    if tok_eq(t, "h") || tok_eq(t, "x") || tok_eq(t, "y") || tok_eq(t, "z") || tok_eq(t, "s")
        || tok_eq(t, "t") {
        Some(GateExpr::Q1Gate)
    } else if tok_eq(t, "rx") || tok_eq(t, "ry") || tok_eq(t, "rz") || tok_eq(t, "p") {
        Some(GateExpr::Q1ParamGate)
    } else if tok_eq(t, "cx") || tok_eq(t, "cz") {
        Some(GateExpr::Q2Gate)
    } else if tok_eq(t, "crx") || tok_eq(t, "cry") || tok_eq(t, "crz") || tok_eq(t, "cp") {
        Some(GateExpr::Q2ParamGate)
    } else if tok_eq(t, "ccx") || tok_eq(t, "ccz") {
        Some(GateExpr::ToffoliGate)
    } else if tok_eq(t, "mcx") || tok_eq(t, "mcz") {
        Some(GateExpr::QMultiGate)
    } else {
        None
    }
}

/// Where a statement's closing `;` ends: whitespace, then the semicolon.
pub open spec fn spec_semi_end(s: Seq<char>, i: int) -> Option<int> {
    let j = spec_skip_ws(s, i);
    if j < s.len() && s[j] == ';' {
        Some(j + 1)
    } else {
        None
    }
}

/// Where the tail of an assignment with declared kind `d` ends, from the
/// position after the type keyword: name, `=`, a value in the declared
/// kind's form, `;`.
pub open spec fn spec_assign_tail_end(s: Seq<char>, j1: int, d: ValueExpr) -> Option<int> {
    let j2 = spec_skip_ws(s, j1);
    let j3 = spec_ident_end(s, j2);
    if j3 == j2 {
        None
    } else {
        let j4 = spec_skip_ws(s, j3);
        if j4 < s.len() && s[j4] == '=' {
            let j6 = spec_skip_ws(s, j4 + 1);
            let v = match d {
                ValueExpr::Qubit => spec_qubit_end(s, j6),
                ValueExpr::CBit => spec_cbit_end(s, j6),
                ValueExpr::QReg => spec_qreg_value_end(s, j6),
                ValueExpr::CReg => spec_creg_value_end(s, j6),
            };
            match v {
                None => None,
                Some(j7) => spec_semi_end(s, j7),
            }
        } else {
            None
        }
    }
}

/// Where the rest of an assignment ends, from the position after its
/// modality keyword.
pub open spec fn spec_assign_rest_end(s: Seq<char>, i: int) -> Option<int> {
    let j0 = spec_skip_ws(s, i);
    let j1 = spec_ident_end(s, j0);
    if j1 == j0 {
        None
    } else {
        let t = s.subrange(j0, j1);
        if t == "qreg"@ {
            spec_assign_tail_end(s, j1, ValueExpr::QReg)
        } else if t == "qubit"@ {
            spec_assign_tail_end(s, j1, ValueExpr::Qubit)
        } else if t == "creg"@ {
            spec_assign_tail_end(s, j1, ValueExpr::CReg)
        } else if t == "cbit"@ {
            spec_assign_tail_end(s, j1, ValueExpr::CBit)
        } else {
            None
        }
    }
}

/// Where a gate's `,`-joined control operands end, from the position after
/// the previous operand; the answer stands before any trailing whitespace.
pub open spec fn spec_controls_end(s: Seq<char>, i: int) -> Option<int>
    decreases s.len() - i,
{
    let j2 = spec_skip_ws(s, i);
    if j2 < s.len() && s[j2] == ',' {
        let j3 = spec_skip_ws(s, j2 + 1);
        match spec_operand_end(s, j3) {
            None => None,
            Some(j4) => if i < j4 <= s.len() {
                spec_controls_end(s, j4)
            } else {
                None
            },
        }
    } else {
        Some(i)
    }
}

/// Where a parameter list's `,`-joined continuation ends, from a position
/// with whitespace already skipped.
pub open spec fn spec_params_more_end(s: Seq<char>, i: int) -> Option<int>
    decreases s.len() - i,
{
    if i < s.len() && s[i] == ',' {
        let j7 = spec_skip_ws(s, i + 1);
        match spec_param_end(s, j7) {
            None => None,
            Some(j8) => {
                let j9 = spec_skip_ws(s, j8);
                if i < j9 <= s.len() {
                    spec_params_more_end(s, j9)
                } else {
                    None
                }
            },
        }
    } else {
        Some(i)
    }
}

/// Where a parenthesised parameter list opening at `jc` ends, after its
/// closing parenthesis.
pub open spec fn spec_paren_params_end(s: Seq<char>, jc: int) -> Option<int> {
    let j5 = spec_skip_ws(s, jc + 1);
    match spec_param_end(s, j5) {
        None => None,
        Some(j6) => {
            let j7 = spec_skip_ws(s, j6);
            match spec_params_more_end(s, j7) {
                None => None,
                Some(j8) => if j8 < s.len() && s[j8] == ')' {
                    Some(j8 + 1)
                } else {
                    None
                },
            }
        },
    }
}

/// Where the rest of a gate application ends, from the position after its
/// gate name: target, controls, optional parenthesised parameters, `;`.
pub open spec fn spec_gate_rest_end(s: Seq<char>, i: int) -> Option<int> {
    let j0 = spec_skip_ws(s, i);
    match spec_operand_end(s, j0) {
        None => None,
        Some(j1) => match spec_controls_end(s, j1) {
            None => None,
            Some(jp) => {
                let jc = spec_skip_ws(s, jp);
                if jc < s.len() && s[jc] == '(' {
                    match spec_paren_params_end(s, jc) {
                        None => None,
                        Some(j9) => spec_semi_end(s, j9),
                    }
                } else {
                    spec_semi_end(s, jp)
                }
            },
        },
    }
}

/// Where the rest of a measurement ends, from the position after its
/// keyword.
pub open spec fn spec_measure_rest_end(s: Seq<char>, i: int) -> Option<int> {
    let j0 = spec_skip_ws(s, i);
    match spec_operand_end(s, j0) {
        None => None,
        Some(j1) => {
            let j2 = spec_skip_ws(s, j1);
            if j2 < s.len() && s[j2] == '-' {
                if j2 + 1 < s.len() && s[j2 + 1] == '>' {
                    let j5 = spec_skip_ws(s, j2 + 2);
                    match spec_operand_end(s, j5) {
                        None => None,
                        Some(j6) => spec_semi_end(s, j6),
                    }
                } else {
                    None
                }
            } else {
                None
            }
        },
    }
}

/// Where the rest of a return statement ends, from the position after its
/// keyword.
pub open spec fn spec_return_rest_end(s: Seq<char>, i: int) -> Option<int> {
    let j0 = spec_skip_ws(s, i);
    match spec_int_end(s, j0) {
        None => None,
        Some(j1) => {
            let jj = spec_skip_ws(s, j1);
            if jj < s.len() && s[jj] == '-' {
                if jj + 1 < s.len() && s[jj + 1] == '>' {
                    let j3 = spec_skip_ws(s, jj + 2);
                    let j4 = spec_ident_end(s, j3);
                    if j4 == j3 {
                        None
                    } else {
                        let t = s.subrange(j3, j4);
                        if t == "counts"@ || t == "statevector"@ || t == "probabilities"@ {
                            spec_semi_end(s, j4)
                        } else {
                            None
                        }
                    }
                } else {
                    None
                }
            } else {
                if jj < s.len() && s[jj] == ';' {
                    Some(jj + 1)
                } else {
                    None
                }
            }
        },
    }
}

/// Where one whole statement ends, dispatched on its leading keyword or
/// gate name.
pub open spec fn spec_stmt_end(s: Seq<char>, i: int) -> Option<int> {
    let j = spec_ident_end(s, i);
    if j == i {
        None
    } else {
        let t = s.subrange(i, j);
        if t == "Maistow"@ || t == "Canstow"@ {
            spec_assign_rest_end(s, j)
        } else if t == "measure"@ {
            spec_measure_rest_end(s, j)
        } else if t == "return"@ {
            spec_return_rest_end(s, j)
        } else {
            match spec_classify_gate(t) {
                Some(_) => spec_gate_rest_end(s, j),
                None => None,
            }
        }
    }
}

/// Whether every remaining statement parses and the text ends after them,
/// from a position with whitespace already skipped.
pub open spec fn spec_accepts_from(s: Seq<char>, i: int) -> bool
    decreases s.len() - i,
{
    if i >= s.len() {
        true
    } else {
        match spec_stmt_end(s, i) {
            None => false,
            Some(j) => {
                let j2 = spec_skip_ws(s, j);
                if i < j2 <= s.len() {
                    spec_accepts_from(s, j2)
                } else {
                    false
                }
            },
        }
    }
}

/// Whether the grammar accepts a text: `parse` succeeds on exactly the
/// texts this holds of.
pub open spec fn spec_accepts(s: Seq<char>) -> bool {
    let f = spec_skip_ws(s, 0);
    if 0 <= f <= s.len() {
        spec_accepts_from(s, f)
    } else {
        false
    }
}

/// The value of the number with an optional leading minus sign at `i`.
pub open spec fn spec_int_val(s: Seq<char>, i: int) -> int {
    if 0 <= i < s.len() && s[i] == '-' {
        -digits_val(s.subrange(i + 1, spec_digits_end(s, i + 1)))
    } else {
        digits_val(s.subrange(i, spec_digits_end(s, i)))
    }
}

/// The node built for the name token covering `[a, b)`.
pub open spec fn built_name(s: Seq<char>, a: int, b: int, node: ASTNode) -> bool {
    &&& node.children is None
    &&& node.node_kind matches NodeKind::Name(nm) && nm@ == s.subrange(a, b)
}

/// The node built for the qubit literal at `i`: its digit run, as lexeme.
pub open spec fn built_qubit_lit(s: Seq<char>, i: int, node: ASTNode) -> bool {
    &&& node.children is None
    &&& node.node_kind matches NodeKind::Qubit(q) && q@ == s.subrange(i, spec_digits_end(s, i))
}

/// The node built for the classical-bit literal at `i`: the digit's value.
pub open spec fn built_cbit_lit(s: Seq<char>, i: int, node: ASTNode) -> bool {
    &&& node.children is None
    &&& node.node_kind matches NodeKind::CBit(b) && b as int == digit_val(s[i])
}

/// The node built for the unsigned index at `i`: the digit run's value.
pub open spec fn built_index(s: Seq<char>, i: int, node: ASTNode) -> bool {
    &&& node.children is None
    &&& node.node_kind matches NodeKind::Index(v) && v as int == digits_val(
        s.subrange(i, spec_digits_end(s, i)),
    )
}

/// The node built for the signed integer literal at `i`.
pub open spec fn built_int_leaf(s: Seq<char>, i: int, node: ASTNode) -> bool {
    &&& node.children is None
    &&& node.node_kind matches NodeKind::Int(v) && v as int == spec_int_val(s, i)
}

/// The node built for the quantum register at `i`: its qubit lexeme and
/// its bracketed length.
pub open spec fn built_qreg(s: Seq<char>, i: int, node: ASTNode) -> bool {
    let j = spec_digits_end(s, i);
    let j1 = spec_skip_ws(s, j);
    let j3 = spec_skip_ws(s, j1 + 1);
    &&& node.node_kind == NodeKind::QReg
    &&& node.children is Some
    &&& kids(node).len() == 2
    &&& built_qubit_lit(s, i, kids(node)[0])
    &&& built_index(s, j3, kids(node)[1])
}

/// The node built for the classical register at `i`.
pub open spec fn built_creg(s: Seq<char>, i: int, node: ASTNode) -> bool {
    let j1 = spec_skip_ws(s, i + 1);
    let j3 = spec_skip_ws(s, j1 + 1);
    &&& node.node_kind == NodeKind::CReg
    &&& node.children is Some
    &&& kids(node).len() == 2
    &&& built_cbit_lit(s, i, kids(node)[0])
    &&& built_index(s, j3, kids(node)[1])
}

/// Start position of the `k`-th register of a quantum tensor whose first
/// register starts at `i`.
pub open spec fn qreg_elem_start(s: Seq<char>, i: int, k: int) -> int
    decreases k,
{
    if k <= 0 {
        i
    } else {
        match spec_qreg_end(s, qreg_elem_start(s, i, k - 1)) {
            Some(j) => spec_skip_ws(s, spec_skip_ws(s, j) + 1),
            None => qreg_elem_start(s, i, k - 1),
        }
    }
}

/// How many further `* register` groups follow a quantum register ending
/// at `e`.
pub open spec fn qreg_tail_count(s: Seq<char>, e: int) -> nat
    decreases s.len() - e,
{
    let j1 = spec_skip_ws(s, e);
    if j1 < s.len() && s[j1] == '*' {
        let j2 = spec_skip_ws(s, j1 + 1);
        match spec_qreg_end(s, j2) {
            Some(j3) => if e < j3 <= s.len() {
                (1 + qreg_tail_count(s, j3)) as nat
            } else {
                1
            },
            None => 1,
        }
    } else {
        0
    }
}

/// Start position of the `k`-th register of a classical tensor.
pub open spec fn creg_elem_start(s: Seq<char>, i: int, k: int) -> int
    decreases k,
{
    if k <= 0 {
        i
    } else {
        match spec_creg_end(s, creg_elem_start(s, i, k - 1)) {
            Some(j) => spec_skip_ws(s, spec_skip_ws(s, j) + 1),
            None => creg_elem_start(s, i, k - 1),
        }
    }
}

/// How many further `* register` groups follow a classical register
/// ending at `e`.
pub open spec fn creg_tail_count(s: Seq<char>, e: int) -> nat
    decreases s.len() - e,
{
    let j1 = spec_skip_ws(s, e);
    if j1 < s.len() && s[j1] == '*' {
        let j2 = spec_skip_ws(s, j1 + 1);
        match spec_creg_end(s, j2) {
            Some(j3) => if e < j3 <= s.len() {
                (1 + creg_tail_count(s, j3)) as nat
            } else {
                1
            },
            None => 1,
        }
    } else {
        0
    }
}

/// The node built for a `qreg` assignment value at `i`: the single
/// register itself, or a tensor holding every `*`-joined register.
pub open spec fn built_qreg_value(s: Seq<char>, i: int, node: ASTNode) -> bool {
    match spec_qreg_end(s, i) {
        None => false,
        Some(j) => {
            let extra = qreg_tail_count(s, j);
            if extra == 0 {
                built_qreg(s, i, node)
            } else {
                &&& node.node_kind == NodeKind::QRegTensor
                &&& node.children is Some
                &&& kids(node).len() == 1 + extra
                &&& forall|k: int|
                    0 <= k < kids(node).len() ==> built_qreg(
                        s,
                        qreg_elem_start(s, i, k),
                        #[trigger] kids(node)[k],
                    )
            }
        },
    }
}

/// The node built for a `creg` assignment value at `i`.
pub open spec fn built_creg_value(s: Seq<char>, i: int, node: ASTNode) -> bool {
    match spec_creg_end(s, i) {
        None => false,
        Some(j) => {
            let extra = creg_tail_count(s, j);
            if extra == 0 {
                built_creg(s, i, node)
            } else {
                &&& node.node_kind == NodeKind::CRegTensor
                &&& node.children is Some
                &&& kids(node).len() == 1 + extra
                &&& forall|k: int|
                    0 <= k < kids(node).len() ==> built_creg(
                        s,
                        creg_elem_start(s, i, k),
                        #[trigger] kids(node)[k],
                    )
            }
        },
    }
}

/// The node built for the operand at `i`: a bare name leaf, or a slice of
/// the side's register kind with its index values.
pub open spec fn built_operand(s: Seq<char>, i: int, quantum: bool, node: ASTNode) -> bool {
    let j = spec_ident_end(s, i);
    if !(j > i) {
        false
    } else if j < s.len() && s[j] == '[' {
        let j1 = spec_skip_ws(s, j + 1);
        &&& node.node_kind == (if quantum {
            NodeKind::QRegSlice
        } else {
            NodeKind::CRegSlice
        })
        &&& node.children is Some
        &&& kids(node).len() == 2
        &&& built_name(s, i, j, kids(node)[0])
        &&& kids(node)[1].node_kind == NodeKind::Indices
        &&& kids(node)[1].children is Some
        &&& kids(kids(node)[1]).len() >= 1
        &&& built_index(s, j1, kids(kids(node)[1])[0])
        &&& match spec_uint_end(s, j1) {
            None => false,
            Some(j2) => {
                let jj = spec_skip_ws(s, j2);
                if jj < s.len() && s[jj] == ':' {
                    let j3 = spec_skip_ws(s, jj + 1);
                    kids(kids(node)[1]).len() == 2 && built_index(s, j3, kids(kids(node)[1])[1])
                } else {
                    kids(kids(node)[1]).len() == 1
                }
            },
        }
    } else {
        built_name(s, i, j, node)
    }
}

/// The node built for the parameter at `i`: a pi leaf with its multiplier
/// and divisor (defaults 1), a float leaf with its lexeme, or an int leaf
/// with its value.
pub open spec fn built_param(s: Seq<char>, i: int, node: ASTNode) -> bool {
    let j = spec_ident_end(s, i);
    if j > i {
        let have_mult = j < s.len() && s[j] == '*';
        let jm = if have_mult {
            spec_digits_end(s, j + 1)
        } else {
            j
        };
        let have_div = jm < s.len() && s[jm] == '/';
        &&& s.subrange(i, j) == "pi"@
        &&& node.children is None
        &&& node.node_kind matches NodeKind::PI(m, d) && m as int == (if have_mult {
            digits_val(s.subrange(j + 1, spec_digits_end(s, j + 1)))
        } else {
            1int
        }) && d as int == (if have_div {
            digits_val(s.subrange(jm + 1, spec_digits_end(s, jm + 1)))
        } else {
            1int
        })
    } else {
        match spec_int_end(s, i) {
            None => false,
            Some(j2) => if j2 < s.len() && s[j2] == '.' {
                let j3 = spec_digits_end(s, j2 + 1);
                &&& node.children is None
                &&& node.node_kind matches NodeKind::Float(f) && f@ == s.subrange(i, j3)
            } else {
                built_int_leaf(s, i, node)
            },
        }
    }
}

/// The node built for an assignment whose modality keyword ends at `i`:
/// the modality and declared-kind tags, the bound name's lexeme, and the
/// value in the declared kind's form.
pub open spec fn built_assign(s: Seq<char>, i: int, resp: RespectExpr, node: ASTNode) -> bool {
    let j0 = spec_skip_ws(s, i);
    let j1 = spec_ident_end(s, j0);
    let t = s.subrange(j0, j1);
    let j2 = spec_skip_ws(s, j1);
    let j3 = spec_ident_end(s, j2);
    let j4 = spec_skip_ws(s, j3);
    let j6 = spec_skip_ws(s, j4 + 1);
    &&& j1 > j0
    &&& node.node_kind == NodeKind::Assignment
    &&& node.children is Some
    &&& kids(node).len() == 4
    &&& kids(node)[0].children is None
    &&& kids(node)[0].node_kind == NodeKind::RespectType(resp)
    &&& kids(node)[1].children is None
    &&& built_name(s, j2, j3, kids(node)[2])
    &&& if t == "qreg"@ {
        kids(node)[1].node_kind == NodeKind::ValueType(ValueExpr::QReg) && built_qreg_value(
            s,
            j6,
            kids(node)[3],
        )
    } else if t == "qubit"@ {
        kids(node)[1].node_kind == NodeKind::ValueType(ValueExpr::Qubit) && built_qubit_lit(
            s,
            j6,
            kids(node)[3],
        )
    } else if t == "creg"@ {
        kids(node)[1].node_kind == NodeKind::ValueType(ValueExpr::CReg) && built_creg_value(
            s,
            j6,
            kids(node)[3],
        )
    } else if t == "cbit"@ {
        kids(node)[1].node_kind == NodeKind::ValueType(ValueExpr::CBit) && built_cbit_lit(
            s,
            j6,
            kids(node)[3],
        )
    } else {
        false
    }
}

/// End position after `m` controls, counting from the target's end `e`.
pub open spec fn controls_cursor(s: Seq<char>, e: int, m: int) -> int
    decreases m,
{
    if m <= 0 {
        e
    } else {
        let st = spec_skip_ws(s, spec_skip_ws(s, controls_cursor(s, e, m - 1)) + 1);
        match spec_operand_end(s, st) {
            Some(j) => j,
            None => controls_cursor(s, e, m - 1),
        }
    }
}

/// Start position of the `k`-th control operand.
pub open spec fn control_start(s: Seq<char>, e: int, k: int) -> int {
    spec_skip_ws(s, spec_skip_ws(s, controls_cursor(s, e, k)) + 1)
}

/// How many `, operand` groups follow an operand ending at `e`.
pub open spec fn control_count(s: Seq<char>, e: int) -> nat
    decreases s.len() - e,
{
    let j2 = spec_skip_ws(s, e);
    if j2 < s.len() && s[j2] == ',' {
        let j3 = spec_skip_ws(s, j2 + 1);
        match spec_operand_end(s, j3) {
            Some(j4) => if e < j4 <= s.len() {
                (1 + control_count(s, j4)) as nat
            } else {
                1
            },
            None => 1,
        }
    } else {
        0
    }
}

/// The node built for the control list of a gate whose target ends at
/// `e`: one operand per `, operand` group, each at its own position.
pub open spec fn built_control_list(s: Seq<char>, e: int, node: ASTNode) -> bool {
    &&& node.node_kind == NodeKind::ControlList
    &&& node.children is Some
    &&& kids(node).len() == control_count(s, e)
    &&& forall|k: int|
        0 <= k < kids(node).len() ==> built_operand(
            s,
            control_start(s, e, k),
            true,
            #[trigger] kids(node)[k],
        )
}

/// Post-whitespace position after `m` additional parameters, counting
/// from `j7`, the post-whitespace position after the first parameter.
pub open spec fn params_cursor(s: Seq<char>, j7: int, m: int) -> int
    decreases m,
{
    if m <= 0 {
        j7
    } else {
        let st = spec_skip_ws(s, params_cursor(s, j7, m - 1) + 1);
        match spec_param_end(s, st) {
            Some(e) => spec_skip_ws(s, e),
            None => params_cursor(s, j7, m - 1),
        }
    }
}

/// Start position of the `m`-th additional parameter.
pub open spec fn param_start(s: Seq<char>, j7: int, m: int) -> int {
    spec_skip_ws(s, params_cursor(s, j7, m) + 1)
}

/// How many `, parameter` groups follow, from a post-whitespace position.
pub open spec fn params_more_count(s: Seq<char>, i: int) -> nat
    decreases s.len() - i,
{
    if i < s.len() && s[i] == ',' {
        let j7 = spec_skip_ws(s, i + 1);
        match spec_param_end(s, j7) {
            Some(j8) => {
                let j9 = spec_skip_ws(s, j8);
                if i < j9 <= s.len() {
                    (1 + params_more_count(s, j9)) as nat
                } else {
                    1
                }
            },
            None => 1,
        }
    } else {
        0
    }
}

/// The parameters built for the list opening at `jc` (the position of the
/// parenthesis): every `,`-joined parameter, each at its position.
pub open spec fn built_params_vec(s: Seq<char>, jc: int, ps: Seq<ASTNode>) -> bool {
    let j5 = spec_skip_ws(s, jc + 1);
    &&& ps.len() >= 1
    &&& built_param(s, j5, ps[0])
    &&& match spec_param_end(s, j5) {
        None => false,
        Some(j6) => {
            let j7 = spec_skip_ws(s, j6);
            &&& ps.len() == 1 + params_more_count(s, j7)
            &&& forall|k: int|
                1 <= k < ps.len() ==> built_param(s, param_start(s, j7, k - 1), #[trigger] ps[k])
        },
    }
}

/// The node built for the parameter list opening at `jc`.
pub open spec fn built_val_list(s: Seq<char>, jc: int, node: ASTNode) -> bool {
    &&& node.node_kind == NodeKind::ValList
    &&& node.children is Some
    &&& built_params_vec(s, jc, kids(node))
}

/// The node built for the rest of a gate application, from the position
/// `i` after its gate name: the category tag, the target operand, and the
/// control and parameter lists exactly as the text holds them.
pub open spec fn built_gate_rest(s: Seq<char>, i: int, g: GateExpr, node: ASTNode) -> bool {
    let j0 = spec_skip_ws(s, i);
    match spec_operand_end(s, j0) {
        None => false,
        Some(j1) => match spec_controls_end(s, j1) {
            None => false,
            Some(jp) => {
                let nc = control_count(s, j1);
                let jc = spec_skip_ws(s, jp);
                let have_params = jc < s.len() && s[jc] == '(';
                &&& node.node_kind == NodeKind::GateApplication
                &&& node.children is Some
                &&& kids(node).len() == 3 + (if nc > 0 {
                    1int
                } else {
                    0int
                }) + (if have_params {
                    1int
                } else {
                    0int
                })
                &&& kids(node)[1].children is None
                &&& kids(node)[1].node_kind == NodeKind::GateType(g)
                &&& built_operand(s, j0, true, kids(node)[2])
                &&& (nc > 0 ==> built_control_list(s, j1, kids(node)[3]))
                &&& (have_params ==> built_val_list(s, jc, kids(node)[kids(node).len() - 1]))
            },
        },
    }
}

/// The node built for a whole gate application whose name token covers
/// `[a, b)` and classifies as `g`.
pub open spec fn built_gate(s: Seq<char>, a: int, b: int, g: GateExpr, node: ASTNode) -> bool {
    &&& built_gate_rest(s, b, g, node)
    &&& built_name(s, a, b, kids(node)[0])
}

/// The node built for a measurement whose keyword ends at `i`.
pub open spec fn built_measure(s: Seq<char>, i: int, node: ASTNode) -> bool {
    let j0 = spec_skip_ws(s, i);
    match spec_operand_end(s, j0) {
        None => false,
        Some(j1) => {
            let j2 = spec_skip_ws(s, j1);
            let j5 = spec_skip_ws(s, j2 + 2);
            &&& node.node_kind == NodeKind::Measurement
            &&& node.children is Some
            &&& kids(node).len() == 2
            &&& built_operand(s, j0, true, kids(node)[0])
            &&& built_operand(s, j5, false, kids(node)[1])
        },
    }
}

/// The node built for a return statement whose keyword ends at `i`: the
/// shot count's value, and the output tag named in the text when one is.
pub open spec fn built_return(s: Seq<char>, i: int, node: ASTNode) -> bool {
    let j0 = spec_skip_ws(s, i);
    match spec_int_end(s, j0) {
        None => false,
        Some(j1) => {
            let jj = spec_skip_ws(s, j1);
            let tagged = jj < s.len() && s[jj] == '-';
            &&& node.node_kind == NodeKind::Return
            &&& node.children is Some
            &&& kids(node).len() >= 1
            &&& built_int_leaf(s, j0, kids(node)[0])
            &&& if tagged {
                let j3 = spec_skip_ws(s, jj + 2);
                let j4 = spec_ident_end(s, j3);
                let t = s.subrange(j3, j4);
                &&& kids(node).len() == 2
                &&& kids(node)[1].children is None
                &&& (if t == "counts"@ {
                    kids(node)[1].node_kind == NodeKind::OutputType(OutputExpr::Counts)
                } else if t == "statevector"@ {
                    kids(node)[1].node_kind == NodeKind::OutputType(OutputExpr::Statevector)
                } else if t == "probabilities"@ {
                    kids(node)[1].node_kind == NodeKind::OutputType(OutputExpr::Probabilities)
                } else {
                    false
                })
            } else {
                kids(node).len() == 1
            }
        },
    }
}

/// The node built for the statement starting at `i`: its form and content
/// follow the dispatching keyword or gate name of its source range.
pub open spec fn built_stmt(s: Seq<char>, i: int, node: ASTNode) -> bool {
    let j = spec_ident_end(s, i);
    let t = s.subrange(i, j);
    &&& j > i
    &&& if t == "Maistow"@ {
        built_assign(s, j, RespectExpr::Maistow, node)
    } else if t == "Canstow"@ {
        built_assign(s, j, RespectExpr::Canstow, node)
    } else if t == "measure"@ {
        built_measure(s, j, node)
    } else if t == "return"@ {
        built_return(s, j, node)
    } else {
        match spec_classify_gate(t) {
            Some(g) => built_gate(s, i, j, g, node),
            None => false,
        }
    }
}

/// Start position of the `k`-th statement of a text.
pub open spec fn spec_stmt_start(s: Seq<char>, k: int) -> int
    decreases k,
{
    if k <= 0 {
        spec_skip_ws(s, 0)
    } else {
        match spec_stmt_end(s, spec_stmt_start(s, k - 1)) {
            Some(j) => spec_skip_ws(s, j),
            None => spec_stmt_start(s, k - 1),
        }
    }
}

/// The rest of an assignment, after its modality keyword: declared type,
/// name, `=`, a value parsed by the declared type, `;`.
fn parse_assign_rest(s: &str, n: usize, i: usize, respect: RespectExpr) -> (r: Result<
    (ASTNode, usize),
    SyntaxError,
>)
    requires
        n == s@.len(),
        i <= n,
    ensures
        match r {
            Ok(p) => p.1 <= n && wf_assignment(p.0) && one_semi_at_end(s@, i as int, p.1 as int)
                && (kids(p.0)[1].node_kind matches NodeKind::ValueType(d) && value_kind_of(
                kids(p.0)[3],
            ) == Some(d)) && spec_assign_rest_end(s@, i as int) == Some(p.1 as int)
                && built_assign(s@, i as int, respect, p.0),
            Err(_) => spec_assign_rest_end(s@, i as int) is None,
        },
{
    let j0 = skip_ws(s, n, i);
    let j1 = scan_ident_end(s, n, j0);
    if j1 == j0 {
        return Err(SyntaxError { pos: j0, message: String::from_str("expected a type keyword") });
    }
    let ty_tok = lexeme(s, j0, j1);
    let d: ValueExpr = if tok_eq(&ty_tok, "qreg") {
        ValueExpr::QReg
    } else if tok_eq(&ty_tok, "qubit") {
        ValueExpr::Qubit
    } else if tok_eq(&ty_tok, "creg") {
        ValueExpr::CReg
    } else if tok_eq(&ty_tok, "cbit") {
        ValueExpr::CBit
    } else {
        return Err(
            SyntaxError { pos: j0, message: String::from_str("not a valid type to assign") },
        );
    };
    let j2 = skip_ws(s, n, j1);
    let j3 = scan_ident_end(s, n, j2);
    if j3 == j2 {
        return Err(SyntaxError { pos: j2, message: String::from_str("expected a name to bind") });
    }
    let name_node = leaf(NodeKind::Name(lexeme(s, j2, j3)));
    let j4 = skip_ws(s, n, j3);
    let j5 = match expect(s, n, j4, '=', "expected an equals sign") {
        Ok(j5) => j5,
        Err(e) => {
            return Err(e);
        },
    };
    let j6 = skip_ws(s, n, j5);
    let (value, j7) = match (match d {
        ValueExpr::Qubit => parse_qubit_lit(s, n, j6),
        ValueExpr::CBit => parse_cbit_lit(s, n, j6),
        ValueExpr::QReg => parse_qreg_value(s, n, j6),
        ValueExpr::CReg => parse_creg_value(s, n, j6),
    }) {
        Ok(p) => p,
        Err(e) => {
            return Err(e);
        },
    };
    let j8 = skip_ws(s, n, j7);
    let j9 = match expect(s, n, j8, ';', "expected a semicolon after the assignment") {
        Ok(j9) => j9,
        Err(e) => {
            return Err(e);
        },
    };
    let mut cs: Vec<ASTNode> = Vec::new();
    cs.push(leaf(NodeKind::RespectType(respect)));
    cs.push(leaf(NodeKind::ValueType(d)));
    cs.push(name_node);
    cs.push(value);
    let node = ASTNode { children: Some(cs), node_kind: NodeKind::Assignment };
    Ok((node, j9))
}

/// The `,`-joined control operands following an operand that ends at
/// `j1`; the returned position stands before any trailing whitespace.
#[verifier::loop_isolation(false)]
#[verifier::rlimit(50)]
fn parse_controls(s: &str, n: usize, j1: usize) -> (r: Result<(Vec<ASTNode>, usize), SyntaxError>)
    requires
        n == s@.len(),
        j1 <= n,
    ensures
        match r {
            Ok(p) => {
                &&& j1 <= p.1 <= n
                &&& no_semi(s@, j1 as int, p.1 as int)
                &&& forall|k: int| 0 <= k < p.0@.len() ==> wf_q_operand(#[trigger] p.0@[k])
                &&& spec_controls_end(s@, j1 as int) == Some(p.1 as int)
                &&& p.0@.len() == control_count(s@, j1 as int)
                &&& forall|k: int|
                    0 <= k < p.0@.len() ==> built_operand(
                        s@,
                        control_start(s@, j1 as int, k),
                        true,
                        #[trigger] p.0@[k],
                    )
            },
            Err(_) => spec_controls_end(s@, j1 as int) is None,
        },
{
    let mut controls: Vec<ASTNode> = Vec::new();
    let mut jj = j1;
    let mut done = false;
    while !done
        invariant
            n == s@.len(),
            j1 <= jj <= n,
            no_semi(s@, j1 as int, jj as int),
            forall|k: int| 0 <= k < controls@.len() ==> wf_q_operand(#[trigger] controls@[k]),
            spec_controls_end(s@, j1 as int) == spec_controls_end(s@, jj as int),
            done ==> spec_controls_end(s@, jj as int) == Some(jj as int),
            forall|k: int|
                0 <= k < controls@.len() ==> built_operand(
                    s@,
                    control_start(s@, j1 as int, k),
                    true,
                    #[trigger] controls@[k],
                ),
            jj as int == controls_cursor(s@, j1 as int, controls@.len() as int),
            control_count(s@, j1 as int) == controls@.len() + control_count(s@, jj as int),
            done ==> control_count(s@, jj as int) == 0,
        decreases n - jj, (if done { 0int } else { 1int }),
    {
        let j2 = skip_ws(s, n, jj);
        if j2 < n && s.get_char(j2) == ',' {
            let j3 = skip_ws(s, n, j2 + 1);
            let (c, j4) = match parse_operand(s, n, j3, true) {
                Ok(p) => p,
                Err(e) => {
                    return Err(e);
                },
            };
            controls.push(c);
            jj = j4;
        } else {
            done = true;
        }
    }
    Ok((controls, jj))
}

/// A parenthesised parameter list opening at `jc`, through its closing
/// parenthesis.
#[verifier::loop_isolation(false)]
#[verifier::rlimit(50)]
fn parse_params(s: &str, n: usize, jc: usize) -> (r: Result<(Vec<ASTNode>, usize), SyntaxError>)
    requires
        n == s@.len(),
        jc < n,
        s@[jc as int] == '(',
    ensures
        match r {
            Ok(p) => {
                &&& jc < p.1 <= n
                &&& no_semi(s@, jc as int, p.1 as int)
                &&& forall|k: int| 0 <= k < p.0@.len() ==> wf_param(#[trigger] p.0@[k])
                &&& spec_paren_params_end(s@, jc as int) == Some(p.1 as int)
                &&& built_params_vec(s@, jc as int, p.0@)
            },
            Err(_) => spec_paren_params_end(s@, jc as int) is None,
        },
{
    let mut params: Vec<ASTNode> = Vec::new();
    let j5 = skip_ws(s, n, jc + 1);
    let (p0, j6) = match parse_param(s, n, j5) {
        Ok(p) => p,
        Err(e) => {
            return Err(e);
        },
    };
    params.push(p0);
    let mut jj = skip_ws(s, n, j6);
    let ghost pstart: int = jj as int;
    let mut pdone = false;
    while !pdone
        invariant
            n == s@.len(),
            jc < jj <= n,
            no_semi(s@, jc as int, jj as int),
            params@.len() >= 1,
            forall|k: int| 0 <= k < params@.len() ==> wf_param(#[trigger] params@[k]),
            spec_params_more_end(s@, pstart) == spec_params_more_end(s@, jj as int),
            pdone ==> spec_params_more_end(s@, jj as int) == Some(jj as int),
            built_param(s@, j5 as int, params@[0]),
            jj as int == params_cursor(s@, pstart, params@.len() - 1),
            forall|k: int|
                1 <= k < params@.len() ==> built_param(
                    s@,
                    param_start(s@, pstart, k - 1),
                    #[trigger] params@[k],
                ),
            params_more_count(s@, pstart) == params@.len() - 1 + params_more_count(s@, jj as int),
            pdone ==> params_more_count(s@, jj as int) == 0,
        decreases n - jj, (if pdone { 0int } else { 1int }),
    {
        if jj < n && s.get_char(jj) == ',' {
            let j7 = skip_ws(s, n, jj + 1);
            let (pk, j8) = match parse_param(s, n, j7) {
                Ok(p) => p,
                Err(e) => {
                    return Err(e);
                },
            };
            params.push(pk);
            jj = skip_ws(s, n, j8);
        } else {
            pdone = true;
        }
    }
    let j9 = match expect(s, n, jj, ')', "expected a closing parenthesis after parameters") {
        Ok(j9) => j9,
        Err(e) => {
            return Err(e);
        },
    };
    Ok((params, j9))
}

/// The rest of a gate application, after its gate name: the target, then
/// `,`-joined controls, then an optional parenthesised parameter list, `;`.
#[verifier::loop_isolation(false)]
#[verifier::rlimit(100)]
fn parse_gate_rest(s: &str, n: usize, i: usize, tok: String, g: GateExpr) -> (r: Result<
    (ASTNode, usize),
    SyntaxError,
>)
    requires
        n == s@.len(),
        i <= n,
    ensures
        match r {
            Ok(p) => p.1 <= n && wf_gate_app(p.0) && one_semi_at_end(s@, i as int, p.1 as int) && (
            kids(p.0)[1].node_kind == NodeKind::GateType(g)) && spec_gate_rest_end(s@, i as int)
                == Some(p.1 as int) && built_gate_rest(s@, i as int, g, p.0) && kids(
                p.0,
            )[0].children is None && kids(p.0)[0].node_kind == NodeKind::Name(tok),
            Err(_) => spec_gate_rest_end(s@, i as int) is None,
        },
{
    let j0 = skip_ws(s, n, i);
    let (target, j1) = match parse_operand(s, n, j0, true) {
        Ok(p) => p,
        Err(e) => {
            return Err(e);
        },
    };
    let (controls, jp) = match parse_controls(s, n, j1) {
        Ok(p) => p,
        Err(e) => {
            return Err(e);
        },
    };
    let mut params: Vec<ASTNode> = Vec::new();
    let mut have_params = false;
    let mut jj = jp;
    let jc = skip_ws(s, n, jp);
    if jc < n && s.get_char(jc) == '(' {
        have_params = true;
        let (ps, j9) = match parse_params(s, n, jc) {
            Ok(p) => p,
            Err(e) => {
                return Err(e);
            },
        };
        params = ps;
        jj = j9;
    }
    let j10 = skip_ws(s, n, jj);
    let j11 = match expect(s, n, j10, ';', "expected a semicolon after a gate statement") {
        Ok(j11) => j11,
        Err(e) => {
            return Err(e);
        },
    };
    let mut cs: Vec<ASTNode> = Vec::new();
    cs.push(leaf(NodeKind::Name(tok)));
    cs.push(leaf(NodeKind::GateType(g)));
    cs.push(target);
    if controls.len() > 0 {
        cs.push(ASTNode { children: Some(controls), node_kind: NodeKind::ControlList });
    }
    if have_params {
        cs.push(ASTNode { children: Some(params), node_kind: NodeKind::ValList });
    }
    let node = ASTNode { children: Some(cs), node_kind: NodeKind::GateApplication };
    Ok((node, j11))
}

/// The rest of a measurement, after the keyword: a quantum operand, `->`,
/// a classical operand, `;`.
fn parse_measure_rest(s: &str, n: usize, i: usize) -> (r: Result<(ASTNode, usize), SyntaxError>)
    requires
        n == s@.len(),
        i <= n,
    ensures
        match r {
            Ok(p) => p.1 <= n && wf_measurement(p.0) && one_semi_at_end(s@, i as int, p.1 as int)
                && spec_measure_rest_end(s@, i as int) == Some(p.1 as int) && built_measure(
                s@,
                i as int,
                p.0,
            ),
            Err(_) => spec_measure_rest_end(s@, i as int) is None,
        },
{
    let j0 = skip_ws(s, n, i);
    let (measured, j1) = match parse_operand(s, n, j0, true) {
        Ok(p) => p,
        Err(e) => {
            return Err(e);
        },
    };
    let j2 = skip_ws(s, n, j1);
    let j3 = match expect(s, n, j2, '-', "expected an arrow after the measured operand") {
        Ok(j3) => j3,
        Err(e) => {
            return Err(e);
        },
    };
    let j4 = match expect(s, n, j3, '>', "expected an arrow after the measured operand") {
        Ok(j4) => j4,
        Err(e) => {
            return Err(e);
        },
    };
    let j5 = skip_ws(s, n, j4);
    let (recipient, j6) = match parse_operand(s, n, j5, false) {
        Ok(p) => p,
        Err(e) => {
            return Err(e);
        },
    };
    let j7 = skip_ws(s, n, j6);
    let j8 = match expect(s, n, j7, ';', "expected a semicolon after the measurement") {
        Ok(j8) => j8,
        Err(e) => {
            return Err(e);
        },
    };
    let mut cs: Vec<ASTNode> = Vec::new();
    cs.push(measured);
    cs.push(recipient);
    let node = ASTNode { children: Some(cs), node_kind: NodeKind::Measurement };
    Ok((node, j8))
}

/// The rest of a return statement, after the keyword: a shot count, an
/// optional `->` output-format tag, `;`.
fn parse_return_rest(s: &str, n: usize, i: usize) -> (r: Result<(ASTNode, usize), SyntaxError>)
    requires
        n == s@.len(),
        i <= n,
    ensures
        match r {
            Ok(p) => p.1 <= n && wf_return(p.0) && one_semi_at_end(s@, i as int, p.1 as int)
                && spec_return_rest_end(s@, i as int) == Some(p.1 as int) && built_return(
                s@,
                i as int,
                p.0,
            ),
            Err(_) => spec_return_rest_end(s@, i as int) is None,
        },
{
    let j0 = skip_ws(s, n, i);
    let (v, j1) = match parse_int(s, n, j0) {
        Ok(p) => p,
        Err(e) => {
            return Err(e);
        },
    };
    let mut cs: Vec<ASTNode> = Vec::new();
    cs.push(leaf(NodeKind::Int(v)));
    let mut jj = skip_ws(s, n, j1);
    if jj < n && s.get_char(jj) == '-' {
        let j2 = match expect(s, n, jj + 1, '>', "expected an arrow before the output format") {
            Ok(j2) => j2,
            Err(e) => {
                return Err(e);
            },
        };
        let j3 = skip_ws(s, n, j2);
        let j4 = scan_ident_end(s, n, j3);
        if j4 == j3 {
            return Err(
                SyntaxError { pos: j3, message: String::from_str("expected an output format") },
            );
        }
        let tok = lexeme(s, j3, j4);
        let fmt: OutputExpr = if tok_eq(&tok, "counts") {
            OutputExpr::Counts
        } else if tok_eq(&tok, "statevector") {
            OutputExpr::Statevector
        } else if tok_eq(&tok, "probabilities") {
            OutputExpr::Probabilities
        } else {
            return Err(
                SyntaxError { pos: j3, message: String::from_str("unknown output format") },
            );
        };
        cs.push(leaf(NodeKind::OutputType(fmt)));
        jj = skip_ws(s, n, j4);
    }
    let j5 = match expect(s, n, jj, ';', "expected a semicolon after the return statement") {
        Ok(j5) => j5,
        Err(e) => {
            return Err(e);
        },
    };
    let node = ASTNode { children: Some(cs), node_kind: NodeKind::Return };
    Ok((node, j5))
}

/// One statement, dispatched on its leading keyword or gate name.
fn parse_stmt(s: &str, n: usize, i: usize) -> (r: Result<(ASTNode, usize), SyntaxError>)
    requires
        n == s@.len(),
        i <= n,
    ensures
        match r {
            Ok(p) => i < p.1 <= n && wf_stmt(p.0) && one_semi_at_end(s@, i as int, p.1 as int)
                && spec_stmt_end(s@, i as int) == Some(p.1 as int) && built_stmt(
                s@,
                i as int,
                p.0,
            ),
            Err(_) => spec_stmt_end(s@, i as int) is None,
        },
{
    let j = scan_ident_end(s, n, i);
    if j == i {
        return Err(SyntaxError { pos: i, message: String::from_str("expected a statement") });
    }
    let tok = lexeme(s, i, j);
    if tok_eq(&tok, "Maistow") {
        parse_assign_rest(s, n, j, RespectExpr::Maistow)
    } else if tok_eq(&tok, "Canstow") {
        parse_assign_rest(s, n, j, RespectExpr::Canstow)
    } else if tok_eq(&tok, "measure") {
        parse_measure_rest(s, n, j)
    } else if tok_eq(&tok, "return") {
        parse_return_rest(s, n, j)
    } else {
        match classify_gate(&tok) {
            Some(g) => parse_gate_rest(s, n, j, tok, g),
            None => Err(
                SyntaxError {
                    pos: i,
                    message: String::from_str("unknown statement keyword or gate name"),
                },
            ),
        }
    }
}

/// Parse a whole source text into a program tree.
///
/// Success comes exactly on the texts the grammar accepts
/// (`spec_accepts`).  On success the tree is well-formed (`wf_program`),
/// its top-level children are the statements in source order followed by
/// one end marker - exactly `statement_count(source@) + 1` of them - and
/// the `k`-th statement node is the one the text dictates at that
/// statement's start position (`built_stmt`), down to tags, lexemes and
/// numeric values.
#[verifier::loop_isolation(false)]
pub fn parse(source: &str) -> (r: Result<ASTNode, SyntaxError>)
    ensures
        match r {
            Ok(ast) => wf_program(ast) && kids(ast).len() == statement_count(source@) + 1
                && spec_accepts(source@) && (forall|k: int|
                0 <= k < statement_count(source@) ==> built_stmt(
                    source@,
                    spec_stmt_start(source@, k),
                    #[trigger] kids(ast)[k],
                )),
            Err(_) => !spec_accepts(source@),
        },
{
    let n = source.unicode_len();
    let mut stmts: Vec<ASTNode> = Vec::new();
    let first = skip_ws(source, n, 0);
    proof {
        lemma_semi_none(source@, 0, first as int);
    }
    let mut i = first;
    while i < n
        invariant
            i <= n,
            stmts@.len() == semi_count_range(source@, 0, i as int),
            forall|k: int| 0 <= k < stmts@.len() ==> wf_stmt(#[trigger] stmts@[k]),
            spec_accepts(source@) == spec_accepts_from(source@, i as int),
            spec_stmt_start(source@, stmts@.len() as int) == i as int,
            forall|k: int|
                0 <= k < stmts@.len() ==> built_stmt(
                    source@,
                    spec_stmt_start(source@, k),
                    #[trigger] stmts@[k],
                ),
        decreases n - i,
    {
        let (node, j) = match parse_stmt(source, n, i) {
            Ok(p) => p,
            Err(e) => {
                return Err(e);
            },
        };
        stmts.push(node);
        let j2 = skip_ws(source, n, j);
        proof {
            lemma_semi_one(source@, i as int, j as int);
            lemma_semi_split(source@, 0, i as int, j as int);
            lemma_semi_none(source@, j as int, j2 as int);
            lemma_semi_split(source@, 0, j as int, j2 as int);
        }
        i = j2;
    }
    stmts.push(leaf(NodeKind::EOI));
    let ast = ASTNode { children: Some(stmts), node_kind: NodeKind::Program };
    Ok(ast)
}

} // verus!
