//! A recognizer for the surface grammar of the source language: the rules
//! a parser front end distinguishes (literals, identifiers, typed
//! bindings, calls, conditionals, repetitions, operator expressions,
//! blocks, whole programs). `parses` answers whether an input matches a
//! rule: every rule skips leading whitespace and matches a prefix of the
//! input; a whole program must consume the input up to trailing
//! whitespace.

use vstd::prelude::*;
use vstd::string::StringSliceAdditionalSpecFns;

verus! {

/// The grammar rules a front end distinguishes.
#[derive(Debug, Clone, Copy, PartialEq, Eq)]
pub enum Rule {
    Integer,
    Float,
    Identifier,
    TypedIdentifier,
    Assignment,
    FunctionDef,
    MethodCall,
    IfExpr,
    RepExpr,
    BinOp,
    UnOp,
    Block,
    Program,
}

pub(crate) fn is_digit(c: u8) -> (r: bool)
    ensures
        r == (48 <= c <= 57),
{
    48 <= c && c <= 57
}

pub(crate) fn is_alpha(c: u8) -> (r: bool)
    ensures
        r == (65 <= c <= 90 || 97 <= c <= 122),
{
    (65 <= c && c <= 90) || (97 <= c && c <= 122)
}

pub(crate) fn is_ident_char(c: u8) -> (r: bool)
    ensures
        r == (48 <= c <= 57 || 65 <= c <= 90 || 97 <= c <= 122 || c == 95),
{
    is_digit(c) || is_alpha(c) || c == 95
}

pub(crate) fn is_space(c: u8) -> (r: bool)
    ensures
        r == (c == 32 || c == 9 || c == 10 || c == 13),
{
    c == 32 || c == 9 || c == 10 || c == 13
}

/// Skips whitespace; never moves backwards.
pub(crate) fn ws(b: &[u8], i: usize) -> (j: usize)
    requires
        i <= b@.len(),
    ensures
        i <= j <= b@.len(),
{
    let mut j = i;
    while j < b.len() && is_space(b[j])
        invariant
            i <= j <= b@.len(),
        decreases b@.len() - j,
    {
        j = j + 1;
    }
    j
}

/// Matches the literal token at `i`.
pub(crate) fn lit(b: &[u8], i: usize, tok: &str) -> (r: Option<usize>)
    requires
        i <= b@.len(),
    ensures
        r matches Some(j) ==> i <= j <= b@.len() && j == i + tok.spec_bytes().len(),
{
    let t = tok.as_bytes();
    if b.len() - i < t.len() {
        return None;
    }
    let mut k: usize = 0;
    while k < t.len()
        invariant
            k <= t@.len(),
            i + t@.len() <= b@.len(),
            b@.len() <= usize::MAX,
            t@ == tok.spec_bytes(),
        decreases t@.len() - k,
    {
        if b[i + k] != t[k] {
            return None;
        }
        k = k + 1;
    }
    Some(i + t.len())
}

/// Whether position `j` ends an identifier-like token.
pub(crate) fn at_boundary(b: &[u8], j: usize) -> (r: bool)
    requires
        j <= b@.len(),
{
    j >= b.len() || !is_ident_char(b[j])
}

/// integer: an optional minus sign, then one or more digits.
fn p_int(b: &[u8], i: usize) -> (r: Option<usize>)
    requires
        i <= b@.len(),
    ensures
        r matches Some(j) ==> i < j <= b@.len(),
{
    let mut j = i;
    if j < b.len() && b[j] == 45 {
        j = j + 1;
    }
    if !(j < b.len() && is_digit(b[j])) {
        return None;
    }
    j = j + 1;
    while j < b.len() && is_digit(b[j])
        invariant
            i < j <= b@.len(),
        decreases b@.len() - j,
    {
        j = j + 1;
    }
    Some(j)
}

/// float: an optional minus sign, digits, a dot, digits.
pub(crate) fn p_float(b: &[u8], i: usize) -> (r: Option<usize>)
    requires
        i <= b@.len(),
    ensures
        r matches Some(j) ==> i < j <= b@.len(),
{
    let mut j = i;
    if j < b.len() && b[j] == 45 {
        j = j + 1;
    }
    if !(j < b.len() && is_digit(b[j])) {
        return None;
    }
    j = j + 1;
    while j < b.len() && is_digit(b[j])
        invariant
            i < j <= b@.len(),
        decreases b@.len() - j,
    {
        j = j + 1;
    }
    if !(j < b.len() && b[j] == 46) {
        return None;
    }
    j = j + 1;
    if !(j < b.len() && is_digit(b[j])) {
        return None;
    }
    j = j + 1;
    while j < b.len() && is_digit(b[j])
        invariant
            i < j <= b@.len(),
        decreases b@.len() - j,
    {
        j = j + 1;
    }
    Some(j)
}

/// identifier: a letter, then letters, digits or underscores.
fn p_ident(b: &[u8], i: usize) -> (r: Option<usize>)
    requires
        i <= b@.len(),
    ensures
        r matches Some(j) ==> i < j <= b@.len(),
{
    if !(i < b.len() && is_alpha(b[i])) {
        return None;
    }
    let mut j = i + 1;
    while j < b.len() && is_ident_char(b[j])
        invariant
            i < j <= b@.len(),
        decreases b@.len() - j,
    {
        j = j + 1;
    }
    Some(j)
}

/// an infix operator token.
pub(crate) fn p_op(b: &[u8], i: usize) -> (r: Option<usize>)
    requires
        i <= b@.len(),
    ensures
        r matches Some(j) ==> i < j <= b@.len(),
{
    if i < b.len() && i + 1 < b.len() {
        let two_ok = (b[i] == 61 && b[i + 1] == 61) || (b[i] == 33 && b[i + 1] == 61) || (b[i]
            == 60 && b[i + 1] == 61) || (b[i] == 62 && b[i + 1] == 61) || (b[i] == 38 && b[i + 1]
            == 38) || (b[i] == 124 && b[i + 1] == 124);
        if two_ok {
            return Some(i + 2);
        }
    }
    if i < b.len() && (b[i] == 43 || b[i] == 45 || b[i] == 42 || b[i] == 47 || b[i] == 60 || b[i]
        == 62) {
        return Some(i + 1);
    }
    None
}

/// Whether the input matches the rule: leading whitespace is skipped, and
/// a prefix match suffices for every rule but a whole program, which must
/// consume the input. The grammar is plain seven-bit text; other input
/// matches no rule. Compound rules are answered by the parser itself
/// (`crate::parser`), so recognition and tree building cannot drift apart.
pub fn parses(input: &str, rule: Rule) -> bool {
    if !input.is_ascii() {
        return false;
    }
    let b = input.as_bytes();
    proof {
        broadcast use vstd::string::is_ascii_spec_bytes;

        assert(input.spec_bytes().len() == input@.len());
    }
    let i = ws(b, 0);
    match rule {
        Rule::Integer => p_int(b, i).is_some(),
        Rule::Float => p_float(b, i).is_some(),
        Rule::Identifier => p_ident(b, i).is_some(),
        Rule::TypedIdentifier => crate::parser::q_typed_ident(input, b, i).is_some(),
        Rule::Assignment => crate::parser::q_assignment(input, b, i).is_some(),
        Rule::FunctionDef => crate::parser::q_function_def(input, b, i).is_some(),
        Rule::MethodCall => crate::parser::q_method_call(input, b, i).is_some(),
        Rule::IfExpr => crate::parser::q_if(input, b, i).is_some(),
        Rule::RepExpr => crate::parser::q_rep(input, b, i).is_some(),
        Rule::BinOp => crate::parser::q_binop(input, b, i).is_some(),
        Rule::UnOp => crate::parser::q_unop(input, b, i).is_some(),
        Rule::Block => crate::parser::q_block(input, b, i).is_some(),
        Rule::Program => crate::parser::parse_program(input).is_some(),
    }
}

} // verus!
