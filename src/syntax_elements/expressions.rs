//! Expressions, kept whole as one block.

use vstd::prelude::*;
use crate::text::{joined, push_joined, texts, trim, trimmed};

verus! {

/// The kind of an expression.
#[derive(Clone, Copy, Debug, PartialEq, Eq)]
pub enum ARSExpressionType {
    Block,
}

/// An expression and its text.
#[derive(Debug, PartialEq)]
pub struct ARSExpression {
    pub expression_type: ARSExpressionType,
    pub content: String,
}

/// The expressions of `input`: the whole text as one block, or none when
/// it is blank.
pub fn extract_ars_expressions(input: &str) -> (r: Vec<ARSExpression>)
    ensures
        trim(input@).len() == 0 ==> r@.len() == 0,
        trim(input@).len() > 0 ==> r@.len() == 1 && r@[0].expression_type
            == ARSExpressionType::Block && r@[0].content@ == input@,
{
    let t = trimmed(input);
    if t.unicode_len() == 0 {
        Vec::new()
    } else {
        vec![ARSExpression { expression_type: ARSExpressionType::Block, content: input.to_owned() }]
    }
}

/// The texts of the expressions.
pub open spec fn expression_texts(v: Seq<ARSExpression>) -> Seq<Seq<char>> {
    v.map_values(|e: ARSExpression| e.content@)
}

/// The expressions' texts, one per line.
pub fn reconstruct(expressions: &[ARSExpression]) -> (r: String)
    ensures
        r@ == joined(expression_texts(expressions@), "\n"@),
{
    let mut parts: Vec<String> = Vec::new();
    for k in 0..expressions.len()
        invariant
            texts(parts@) == expression_texts(expressions@.take(k as int)),
    {
        let t = expressions[k].content.clone();
        let ghost prev = parts@;
        parts.push(t);
        assert(texts(parts@) =~= texts(prev).push(t@));
        assert(texts(parts@) =~= expression_texts(expressions@.take(k + 1)));
    }
    assert(expressions@.take(expressions.len() as int) =~= expressions@);
    let mut out = String::new();
    push_joined(&mut out, &parts, "\n");
    out
}

} // verus!
