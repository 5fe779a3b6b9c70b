//! The statement decomposer: a function body split into classified
//! statements by a real parse, or kept whole where that parse fails.

use vstd::prelude::*;
use crate::text::{joined, pieces, push_joined, split_pieces, texts, trim, trimmed};

verus! {

/// What kind of statement a body holds.
#[derive(Clone, Copy, Debug, PartialEq, Eq)]
pub enum StatementKind {
    /// A `let` binding.
    Local,
    /// A nested item declaration.
    Item,
    /// An expression, with or without its semicolon.
    Expr,
    /// A macro invocation in statement position.
    Macro,
    /// A body that did not parse, kept verbatim.
    Generic,
}

pub open spec fn kind_name(k: StatementKind) -> Seq<char> {
    match k {
        StatementKind::Local => "Local"@,
        StatementKind::Item => "Item"@,
        StatementKind::Expr => "Expr"@,
        StatementKind::Macro => "Macro"@,
        StatementKind::Generic => "Generic"@,
    }
}

impl StatementKind {
    /// The name of the kind.
    pub fn as_str(&self) -> (r: &'static str)
        ensures
            r@ == kind_name(*self),
    {
        match self {
            StatementKind::Local => "Local",
            StatementKind::Item => "Item",
            StatementKind::Expr => "Expr",
            StatementKind::Macro => "Macro",
            StatementKind::Generic => "Generic",
        }
    }
}

/// One statement of a function body.
#[derive(Debug)]
pub struct ARSStatement {
    pub stmt_type: StatementKind,
    /// The statement's canonical token text, or the verbatim body for
    /// `Generic`.
    pub content: String,
}

/// A statement as its kind and its text.
pub open spec fn statement_view(s: ARSStatement) -> (StatementKind, Seq<char>) {
    (s.stmt_type, s.content@)
}

pub open spec fn statement_views(v: Seq<ARSStatement>) -> Seq<(StatementKind, Seq<char>)> {
    v.map_values(|s: ARSStatement| statement_view(s))
}

/// The one-line form of a statement: its kind, a comma, and its text in
/// brackets with each line break written as `\n`.
pub open spec fn encoded(s: ARSStatement) -> Seq<char> {
    kind_name(s.stmt_type) + ",["@ + joined(pieces(s.content@, '\n'), "\\n"@) + "]"@
}

impl ARSStatement {
    /// The statement on a single line (see `encoded`).
    pub fn encode(&self) -> (r: String)
        ensures
            r@ == encoded(*self),
    {
        let mut out = String::new();
        out.append(self.stmt_type.as_str());
        out.append(",[");
        let lines = split_pieces(self.content.as_str(), '\n');
        push_joined(&mut out, &lines, "\\n");
        out.append("]");
        assert(out@ =~= encoded(*self));
        out
    }
}

/// The longest body, in characters, that is handed to the parser. syn's
/// parser recurses once for each level of nesting, with no limit of its
/// own, and a level of braces costs some ten kilobytes of stack in a debug
/// build; this bound keeps it well within the 2 MiB stack of a spawned
/// thread. A longer body is kept whole instead.
pub const PARSE_LIMIT: usize = 150;

pub open spec fn opt_statement_views(o: Option<Option<Vec<ARSStatement>>>) -> Option<
    Option<Seq<(StatementKind, Seq<char>)>>,
> {
    match o {
        Some(Some(v)) => Some(Some(statement_views(v@))),
        Some(None) => Some(None),
        None => None,
    }
}

/// No statement of `v` is of the `Generic` kind.
pub open spec fn no_generic(v: Seq<(StatementKind, Seq<char>)>) -> bool {
    forall|i: int| 0 <= i < v.len() ==> v[i].0 != StatementKind::Generic
}

/// Relies on `syn::parse_file` to parse `text` as a file (`None` when it
/// does not parse; `Some(None)` when its first item is not a function), and
/// on quote's `ToTokens::to_token_stream`, printed through
/// `proc_macro2::TokenStream`'s `Display`, for the token text of each
/// statement of that function's block. syn has four kinds of statement,
/// none of them `Generic`. The token text depends on which lexer
/// proc-macro2 runs, a choice global to the process, so nothing more is
/// said of it. The bound on the length keeps the parser's recursion, at
/// most one level for each character, within the stack (see `PARSE_LIMIT`).
#[verifier::external_body]
fn parse_statements(text: &str) -> (r: Option<Option<Vec<ARSStatement>>>)
    requires
        text@.len() <= PARSE_LIMIT + 15,
    ensures
        match opt_statement_views(r) {
            Some(Some(v)) => no_generic(v),
            _ => true,
        },
{
    let file = syn::parse_file(text).ok()?;
    Some(match file.items.first() {
        Some(syn::Item::Fn(f)) => Some(f.block.stmts.iter().map(|s| ARSStatement {
            stmt_type: match s {
                syn::Stmt::Local(_) => StatementKind::Local,
                syn::Stmt::Item(_) => StatementKind::Item,
                syn::Stmt::Expr(..) => StatementKind::Expr,
                syn::Stmt::Macro(_) => StatementKind::Macro,
            },
            content: proc_macro2::TokenStream::to_string(&quote::ToTokens::to_token_stream(s)),
        }).collect()),
        _ => None,
    })
}

/// What the decomposer makes of a body, given what the parser made of it:
/// the parsed statements (none when the parse gives no function), or else
/// the whole body as one `Generic` statement, or nothing for a blank body.
pub open spec fn decomposition(
    input: Seq<char>,
    parsed: Option<Option<Seq<(StatementKind, Seq<char>)>>>,
) -> Seq<(StatementKind, Seq<char>)> {
    match parsed {
        Some(Some(v)) => v,
        Some(None) => Seq::empty(),
        None => if trim(input).len() == 0 {
            Seq::empty()
        } else {
            seq![(StatementKind::Generic, input)]
        },
    }
}

/// What holds of the statements `v` of the body `input`, whatever the
/// parser makes of it: past `PARSE_LIMIT` the body is kept whole (nothing
/// for a blank body); else `v` holds the parser's statements, none of them
/// `Generic`, or the body whole as one `Generic` statement where it does
/// not parse.
pub open spec fn decomposes(input: Seq<char>, v: Seq<(StatementKind, Seq<char>)>) -> bool {
    if input.len() > PARSE_LIMIT {
        v == decomposition(input, None)
    } else {
        no_generic(v) || (trim(input).len() > 0 && v == seq![(StatementKind::Generic, input)])
    }
}

/// The statements of `input`, given what the parser made of it.
pub fn statements_from_parse(input: &str, parsed: Option<Option<Vec<ARSStatement>>>) -> (r: Vec<
    ARSStatement,
>)
    ensures
        statement_views(r@) == decomposition(input@, opt_statement_views(parsed)),
{
    match parsed {
        Some(Some(v)) => v,
        Some(None) => {
            let r: Vec<ARSStatement> = Vec::new();
            assert(statement_views(r@) =~= Seq::empty());
            r
        },
        None => {
            let t = trimmed(input);
            if t.unicode_len() == 0 {
                let r: Vec<ARSStatement> = Vec::new();
                assert(statement_views(r@) =~= Seq::empty());
                r
            } else {
                let r = vec![ARSStatement { stmt_type: StatementKind::Generic, content: input.to_owned() }];
                assert(statement_views(r@) =~= seq![(StatementKind::Generic, input@)]);
                r
            }
        },
    }
}

/// The statements of the body `input`.
pub fn extract_ars_statements(input: &str) -> (r: Vec<ARSStatement>)
    ensures
        decomposes(input@, statement_views(r@)),
        forall|i: int|
            0 <= i < r@.len() && r@[i].stmt_type == StatementKind::Generic ==> r@.len() == 1
                && r@[0].content@ == input@,
{
    if input.unicode_len() > PARSE_LIMIT {
        let r = statements_from_parse(input, None);
        assert(opt_statement_views(None) == None::<Option<Seq<(StatementKind, Seq<char>)>>>);
        assert(statement_views(r@) == decomposition(input@, None));
        assert forall|i: int|
            0 <= i < r@.len() && r@[i].stmt_type == StatementKind::Generic implies r@.len() == 1
                && r@[0].content@ == input@ by {
            assert(statement_views(r@).len() == r@.len());
            assert(statement_views(r@)[i] == statement_view(r@[i]));
            assert(statement_views(r@)[0] == statement_view(r@[0]));
            if trim(input@).len() > 0 {
                assert(statement_views(r@) == seq![(StatementKind::Generic, input@)]);
            }
        }
        return r;
    }
    let mut code = String::new();
    code.append("fn dummy() { ");
    code.append(input);
    code.append(" }");
    proof {
        reveal_strlit("fn dummy() { ");
        reveal_strlit(" }");
    }
    assert(code@.len() == input@.len() + 15);
    let parsed = parse_statements(code.as_str());
    let ghost pv = opt_statement_views(parsed);
    let r = statements_from_parse(input, parsed);
    proof {
        assert forall|i: int|
            0 <= i < r@.len() && r@[i].stmt_type == StatementKind::Generic implies r@.len() == 1
                && r@[0].content@ == input@ by {
            assert(statement_views(r@)[i] == statement_view(r@[i]));
            assert(statement_views(r@)[0] == statement_view(r@[0]));
        }
    }
    r
}

/// The texts of the statements.
pub open spec fn contents(v: Seq<(StatementKind, Seq<char>)>) -> Seq<Seq<char>> {
    v.map_values(|s: (StatementKind, Seq<char>)| s.1)
}

/// The statements' texts, one per line.
pub fn reconstruct(statements: &[ARSStatement]) -> (r: String)
    ensures
        r@ == joined(contents(statement_views(statements@)), "\n"@),
{
    let mut parts: Vec<String> = Vec::new();
    for k in 0..statements.len()
        invariant
            texts(parts@) == contents(statement_views(statements@.take(k as int))),
    {
        let t = statements[k].content.clone();
        let ghost prev = parts@;
        parts.push(t);
        assert(texts(parts@) =~= texts(prev).push(t@));
        assert(texts(parts@) =~= contents(statement_views(statements@.take(k + 1))));
    }
    assert(statements@.take(statements.len() as int) =~= statements@);
    let mut out = String::new();
    push_joined(&mut out, &parts, "\n");
    assert(out@ =~= joined(texts(parts@), "\n"@));
    out
}

/// A body that does not parse, or that is too long to be parsed, and is
/// not blank comes back from the decomposer as exactly one `Generic`
/// statement holding the body verbatim, and its reconstruction is the body
/// itself.
pub proof fn unparsed_body_kept(input: Seq<char>, v: Seq<(StatementKind, Seq<char>)>)
    requires
        trim(input).len() > 0,
        v == decomposition(input, None) || (input.len() > PARSE_LIMIT && decomposes(input, v)),
    ensures
        v == seq![(StatementKind::Generic, input)],
        joined(contents(v), "\n"@) == input,
{
    assert(contents(v) =~= seq![input]);
}

/// Where the statements of a body hold a `Generic` one, it is the only one,
/// it holds the body verbatim, and the reconstruction is the body itself.
pub proof fn generic_statement_is_whole_body(input: Seq<char>, v: Seq<(StatementKind, Seq<char>)>, i: int)
    requires
        decomposes(input, v),
        0 <= i < v.len(),
        v[i].0 == StatementKind::Generic,
    ensures
        v == seq![(StatementKind::Generic, input)],
        joined(contents(v), "\n"@) == input,
{
    assert(contents(v) =~= seq![input]);
}

} // verus!
