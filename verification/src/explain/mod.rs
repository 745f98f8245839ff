//! Explanations of patterns: the nodes that describe them, and the parse
//! check that locates syntax errors.

pub mod syntax;
pub mod tree;
pub mod visitor;

use vstd::prelude::*;
use vstd::utf8::{decode_utf8, encode_utf8, is_char_boundary};

use crate::text::{owned, push_str, substring_bytes};
pub(crate) use syntax::ast_parse;
use syntax::{convert, pattern_tree, root, TREE_DEPTH_LIMIT};
use tree::{explain_nodes, RegexAst};
use visitor::{nodes_view, ExplainVisitor};

verus! {

/// One line of an explanation, indented by `depth`.
#[derive(Debug, Clone)]
pub struct ExplainNode {
    pub depth: usize,
    pub description: String,
}

/// What the `regex-syntax` parser reports for a pattern: success, or its
/// error message and the byte offset where the error starts.
pub uninterp spec fn ast_parse_outcome(pattern: Seq<char>) -> Result<(), (Seq<char>, usize)>;

/// The parse error of a pattern, as the explanation panel shows it:
/// `Parse error: ` and the parser's message, with the error's position
/// counted in characters. `None` when the pattern is empty or parses.
pub open spec fn spec_parse_error(pattern: Seq<char>) -> Option<(Seq<char>, usize)> {
    if pattern.len() == 0 {
        None
    } else {
        match ast_parse_outcome(pattern) {
            Ok(()) => None,
            Err((m, off)) => Some(
                (
                    "Parse error: "@ + m,
                    decode_utf8(encode_utf8(pattern).subrange(0, off as int)).len() as usize,
                ),
            ),
        }
    }
}

/// Checks the pattern's syntax; on an error, its message and its position
/// in characters.
pub fn parse_error(pattern: &str) -> (r: Option<(String, usize)>)
    ensures
        (match r {
            None => spec_parse_error(pattern@) is None,
            Some((m, off)) => spec_parse_error(pattern@) == Some((m@, off)),
        }),
{
    if pattern.unicode_len() == 0 {
        return None;
    }
    match ast_parse(pattern) {
        Ok(_) => None,
        Err((m, off)) => {
            proof {
                vstd::utf8::encode_utf8_valid_utf8(pattern@);
                vstd::utf8::is_char_boundary_start_end_of_seq(encode_utf8(pattern@));
            }
            let prefix = substring_bytes(pattern, 0, off);
            let mut msg = owned("Parse error: ");
            push_str(&mut msg, m.as_str());
            Some((msg, prefix.unicode_len()))
        },
    }
}

/// The syntax error of an explanation, or its lines.
pub open spec fn explanation_ok(pattern: Seq<char>, r: Result<Seq<(usize, Seq<char>)>, (Seq<char>, usize)>) -> bool {
    match spec_parse_error(pattern) {
        Some(e) => r == Err::<Seq<(usize, Seq<char>)>, (Seq<char>, usize)>(e),
        None => r matches Ok(lines) && (pattern.len() == 0 ==> lines.len() == 0) && (pattern.len() > 0 ==> exists|t: RegexAst|
            #[trigger] pattern_tree(pattern, t) && explain_nodes(t, 0) == lines),
    }
}

/// Explains a pattern line by line, from the syntax tree `regex-syntax`
/// parses it into (`pattern_tree`); on a syntax error, the error as `parse_error` gives it.
pub fn explain(pattern: &str) -> (r: Result<Vec<ExplainNode>, (String, Option<usize>)>)
    ensures
        explanation_ok(
            pattern@,
            match r {
                Ok(v) => Ok(nodes_view(v@)),
                Err((m, off)) => Err((m@, off.unwrap_or(0))),
            },
        ),
        r matches Err((_, off)) ==> off is Some,
{
    if pattern.unicode_len() == 0 {
        let v: Vec<ExplainNode> = Vec::new();
        assert(nodes_view(v@) =~= explain_nodes(RegexAst::Empty, 0));
        return Ok(v);
    }
    match ast_parse(pattern) {
        Ok(parsed) => {
            let r0 = root(&parsed);
            let t = convert(&r0, TREE_DEPTH_LIMIT);
            assert(pattern_tree(pattern@, t));
            let mut visitor = ExplainVisitor::new();
            visitor.visit(&t);
            let v = visitor.into_nodes();
            assert(nodes_view(v@) =~= explain_nodes(t, 0));
            Ok(v)
        },
        Err((m, off)) => {
            proof {
                vstd::utf8::encode_utf8_valid_utf8(pattern@);
                vstd::utf8::is_char_boundary_start_end_of_seq(encode_utf8(pattern@));
            }
            let prefix = substring_bytes(pattern, 0, off);
            let mut msg = owned("Parse error: ");
            push_str(&mut msg, m.as_str());
            Err((msg, Some(prefix.unicode_len())))
        },
    }
}

} // verus!
