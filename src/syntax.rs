use vstd::prelude::*;
use squawk_parser::StrStep;
use crate::violations::text_eq;

verus! {

/// One step of a depth-first walk over the concrete syntax tree of a source
/// text, with every token of the text in order.
#[derive(Clone, Debug, PartialEq, Eq)]
pub enum SyntaxEvent {
    /// A node of the named kind starts.
    Enter(String),
    /// The innermost open node ends.
    Exit,
    /// A token of the named kind, with its length in bytes.
    Token(String, usize),
    /// A syntax error: the parser's message and where it arose, a byte
    /// offset (for an illegal numeric literal, the index of its token).
    Error(String, usize),
}

/// A parse failure: the message and where in the source it arose, mostly a
/// byte offset (for the parser's illegal numeric literal error, the index of
/// the token).
#[derive(Clone, Debug, PartialEq, Eq)]
pub struct CheckSQLError {
    pub message: String,
    pub pos: usize,
}

/// One top-level statement: its byte range and the kinds of every node and
/// token inside it, in source order.
#[derive(Clone, Debug, PartialEq, Eq)]
pub struct Statement {
    pub start: usize,
    pub end: usize,
    pub kinds: Vec<String>,
}

/// The mathematical value of a statement.
pub struct StatementModel {
    pub start: usize,
    pub end: usize,
    pub kinds: Seq<Seq<char>>,
}

/// The characters of each string.
pub open spec fn texts(v: Seq<String>) -> Seq<Seq<char>> {
    v.map_values(|s: String| s@)
}

impl View for Statement {
    type V = StatementModel;

    open spec fn view(&self) -> StatementModel {
        StatementModel { start: self.start, end: self.end, kinds: texts(self.kinds@) }
    }
}

pub open spec fn statement_models(v: Seq<Statement>) -> Seq<StatementModel> {
    v.map_values(|s: Statement| s@)
}

/// The walk that the parser produces for `text`.
pub uninterp spec fn syntax_events_of(text: Seq<char>) -> Seq<SyntaxEvent>;

/// The parser splits a numeric literal that follows a dot (`a.1.2`, `a..5`)
/// and asserts on the pieces, which fails on some texts; such texts are kept
/// out.
///
/// Relies on squawk_parser: `LexedStr::new` lexes the text, `parse` builds the
/// tree's events and `LexedStr::intersperse_trivia` walks them with every token
/// in place; each step is handed out with its kind's name (`SyntaxKind`'s
/// `Debug`). The walk depends on the text alone. The three calls stand in one
/// body because the parser's input type is not exported by the crate.
#[verifier::external_body]
fn syntax_events(text: &str) -> (r: Vec<SyntaxEvent>)
    requires
        !dot_before_numeric(lexer_tokens_of(text@)),
    ensures
        r@ == syntax_events_of(text@),
{
    let lexed = squawk_parser::LexedStr::new(text);
    let output = squawk_parser::parse(&lexed.to_input());
    let mut events = Vec::new();
    lexed.intersperse_trivia(&output, &mut |step| events.push(match step {
        StrStep::Token { kind, text } => SyntaxEvent::Token(format!("{kind:?}"), text.len()),
        StrStep::Enter { kind } => SyntaxEvent::Enter(format!("{kind:?}")),
        StrStep::Exit => SyntaxEvent::Exit,
        StrStep::Error { msg, pos } => SyntaxEvent::Error(msg.to_string(), pos),
    }));
    events
}

/// Where the statement builder stands after a prefix of the walk.
pub struct BuildState {
    pub depth: nat,
    pub offset: usize,
    pub stmts: Seq<StatementModel>,
    pub current: StatementModel,
    pub error: Option<(Seq<char>, usize)>,
}

/// `a + n`, held at `usize::MAX`.
pub open spec fn sat_add(a: usize, n: usize) -> usize {
    if n <= usize::MAX - a { (a + n) as usize } else { usize::MAX }
}

pub open spec fn initial_state() -> BuildState {
    BuildState {
        depth: 0,
        offset: 0,
        stmts: Seq::empty(),
        current: StatementModel { start: 0, end: 0, kinds: Seq::empty() },
        error: None,
    }
}

/// The effect of one event. Depth one is inside the source file node, so a
/// node entered there starts a statement, and leaving depth two ends it.
pub open spec fn step(st: BuildState, e: SyntaxEvent) -> BuildState {
    match e {
        SyntaxEvent::Enter(k) => if st.depth == 1 {
            BuildState {
                depth: st.depth + 1,
                current: StatementModel { start: st.offset, end: st.offset, kinds: seq![k@] },
                ..st
            }
        } else if st.depth >= 2 {
            BuildState {
                depth: st.depth + 1,
                current: StatementModel { kinds: st.current.kinds.push(k@), ..st.current },
                ..st
            }
        } else {
            BuildState { depth: st.depth + 1, ..st }
        },
        SyntaxEvent::Token(k, n) => if st.depth >= 2 {
            BuildState {
                offset: sat_add(st.offset, n),
                current: StatementModel {
                    start: st.current.start,
                    end: sat_add(st.offset, n),
                    kinds: st.current.kinds.push(k@),
                },
                ..st
            }
        } else {
            BuildState { offset: sat_add(st.offset, n), ..st }
        },
        SyntaxEvent::Exit => if st.depth == 2 {
            BuildState {
                depth: 1,
                stmts: st.stmts.push(st.current),
                current: StatementModel { start: 0, end: 0, kinds: Seq::empty() },
                ..st
            }
        } else if st.depth > 0 {
            BuildState { depth: (st.depth - 1) as nat, ..st }
        } else {
            st
        },
        SyntaxEvent::Error(m, p) => if st.error is None {
            BuildState { error: Some((m@, p)), ..st }
        } else {
            st
        },
    }
}

pub open spec fn run(events: Seq<SyntaxEvent>) -> BuildState
    decreases events.len(),
{
    if events.len() == 0 {
        initial_state()
    } else {
        step(run(events.drop_last()), events.last())
    }
}

/// The top-level statements of a walk, or its first error.
pub open spec fn statements_of(events: Seq<SyntaxEvent>) -> Result<Seq<StatementModel>, (Seq<char>, usize)> {
    let st = run(events);
    match st.error {
        Some(e) => Err(e),
        None => Ok(st.stmts),
    }
}

/// Splits a walk into its top-level statements; the first syntax error the
/// walk reports is the result instead, whatever else it holds.
pub fn statements_from_events(events: &Vec<SyntaxEvent>) -> (r: Result<Vec<Statement>, CheckSQLError>)
    ensures
        match (r, statements_of(events@)) {
            (Ok(s), Ok(m)) => statement_models(s@) == m,
            (Err(e), Err(m)) => e.message@ == m.0 && e.pos == m.1,
            _ => false,
        },
{
    let mut depth: usize = 0;
    let mut offset: usize = 0;
    let mut stmts: Vec<Statement> = Vec::new();
    let mut cur_start: usize = 0;
    let mut cur_end: usize = 0;
    let mut cur_kinds: Vec<String> = Vec::new();
    let mut error: Option<CheckSQLError> = None;
    let mut i: usize = 0;
    proof {
        assert(events@.take(0) =~= Seq::<SyntaxEvent>::empty());
        assert(texts(cur_kinds@) =~= Seq::<Seq<char>>::empty());
        assert(statement_models(stmts@) =~= Seq::<StatementModel>::empty());
    }
    while i < events.len()
        invariant
            i <= events@.len(),
            depth <= i,
            ({
                let st = run(events@.take(i as int));
                &&& st.depth == depth as nat
                &&& st.offset == offset
                &&& st.stmts == statement_models(stmts@)
                &&& st.current == (StatementModel { start: cur_start, end: cur_end, kinds: texts(cur_kinds@) })
                &&& match (error, st.error) {
                    (None, None) => true,
                    (Some(e), Some(m)) => e.message@ == m.0 && e.pos == m.1,
                    _ => false,
                }
            }),
        decreases events@.len() - i,
    {
        proof {
            assert(events@.take(i + 1).drop_last() =~= events@.take(i as int));
            assert(events@.take(i + 1).last() == events@[i as int]);
        }
        match &events[i] {
            SyntaxEvent::Enter(k) => {
                if depth == 1 {
                    cur_start = offset;
                    cur_end = offset;
                    cur_kinds = Vec::new();
                    cur_kinds.push(k.clone());
                    proof { assert(texts(cur_kinds@) =~= seq![k@]); }
                } else if depth >= 2 {
                    let ghost prev = cur_kinds@;
                    cur_kinds.push(k.clone());
                    proof { assert(texts(cur_kinds@) =~= texts(prev).push(k@)); }
                }
                depth = depth + 1;
            },
            SyntaxEvent::Token(k, n) => {
                let next = if *n <= usize::MAX - offset { offset + *n } else { usize::MAX };
                if depth >= 2 {
                    cur_end = next;
                    let ghost prev = cur_kinds@;
                    cur_kinds.push(k.clone());
                    proof { assert(texts(cur_kinds@) =~= texts(prev).push(k@)); }
                }
                offset = next;
            },
            SyntaxEvent::Exit => {
                if depth == 2 {
                    let ghost prev = stmts@;
                    let s = Statement { start: cur_start, end: cur_end, kinds: cur_kinds };
                    stmts.push(s);
                    proof { assert(statement_models(stmts@) =~= statement_models(prev).push(s@)); }
                    cur_start = 0;
                    cur_end = 0;
                    cur_kinds = Vec::new();
                    proof { assert(texts(cur_kinds@) =~= Seq::<Seq<char>>::empty()); }
                    depth = 1;
                } else if depth > 0 {
                    depth = depth - 1;
                }
            },
            SyntaxEvent::Error(m, p) => {
                if error.is_none() {
                    error = Some(CheckSQLError { message: m.clone(), pos: *p });
                }
            },
        }
        i = i + 1;
    }
    proof { assert(events@.take(events@.len() as int) =~= events@); }
    match error {
        Some(e) => Err(e),
        None => Ok(stmts),
    }
}

/// The errors the lexer reports for `text`, in source order.
pub uninterp spec fn lex_errors_of(text: Seq<char>) -> Seq<CheckSQLError>;

/// Relies on squawk_parser's `LexedStr::errors`: the lexer's own errors
/// (unterminated comments, strings and quoted identifiers, malformed numbers),
/// each with its message and the byte offset where it starts. They depend on
/// the text alone.
#[verifier::external_body]
fn lex_errors(text: &str) -> (r: Vec<CheckSQLError>)
    ensures
        r@ == lex_errors_of(text@),
{
    let lexed = squawk_parser::LexedStr::new(text);
    lexed.errors().map(|(range, msg)| CheckSQLError { message: msg.to_string(), pos: range.start as usize }).collect()
}

/// One token of the lexer: its kind's name and its length in bytes.
#[derive(Clone, Debug, PartialEq, Eq)]
pub struct LexToken {
    pub kind: String,
    pub len: usize,
}

/// The tokens the lexer produces for `text`.
pub uninterp spec fn lexer_tokens_of(text: Seq<char>) -> Seq<LexToken>;

/// Relies on squawk_lexer's `tokenize`, the lexer that the parser runs: each
/// token with its kind's name (`TokenKind`'s `Debug`) and its length. The
/// tokens depend on the text alone.
#[verifier::external_body]
fn lexer_tokens(text: &str) -> (r: Vec<LexToken>)
    ensures
        r@ == lexer_tokens_of(text@),
{
    squawk_lexer::tokenize(text).map(|t| LexToken { kind: format!("{:?}", t.kind), len: t.len as usize }).collect()
}

pub open spec fn starts_with(s: Seq<char>, p: Seq<char>) -> bool {
    p.len() <= s.len() && s.subrange(0, p.len() as int) == p
}

/// Whitespace and comments, which the parser skips.
pub open spec fn is_lex_trivia(kind: Seq<char>) -> bool {
    kind == "Whitespace"@ || kind == "LineComment"@ || starts_with(kind, "BlockComment"@)
}

/// A numeric literal with a decimal point or an exponent.
pub open spec fn is_numeric_literal(kind: Seq<char>) -> bool {
    starts_with(kind, "Literal { kind: Numeric "@)
}

/// Whether the first token at or after `j` that is not trivia is a numeric
/// literal.
pub open spec fn numeric_from(toks: Seq<LexToken>, j: int) -> bool
    decreases toks.len() - j,
{
    if j < 0 || j >= toks.len() {
        false
    } else if is_lex_trivia(toks[j].kind@) {
        numeric_from(toks, j + 1)
    } else {
        is_numeric_literal(toks[j].kind@)
    }
}

/// Whether the token at `i` is a dot whose next token is a numeric literal.
pub open spec fn dot_then_numeric(toks: Seq<LexToken>, i: int) -> bool {
    toks[i].kind@ == "Dot"@ && numeric_from(toks, i + 1)
}

/// Whether some dot is followed, past whitespace and comments, by a numeric
/// literal.
pub open spec fn dot_before_numeric(toks: Seq<LexToken>) -> bool {
    exists|i: int| 0 <= i < toks.len() && #[trigger] dot_then_numeric(toks, i)
}

/// The first index at or after `i` where a dot precedes a numeric literal,
/// or the number of tokens if there is none.
pub open spec fn first_dot_numeric(toks: Seq<LexToken>, i: int) -> int
    decreases toks.len() - i,
{
    if i < 0 || i >= toks.len() {
        toks.len() as int
    } else if dot_then_numeric(toks, i) {
        i
    } else {
        first_dot_numeric(toks, i + 1)
    }
}

/// The byte offset where token `i` starts, held at `usize::MAX`.
pub open spec fn token_offset(toks: Seq<LexToken>, i: int) -> usize
    decreases i,
{
    if i <= 0 || i > toks.len() {
        0
    } else {
        sat_add(token_offset(toks, i - 1), toks[i - 1].len)
    }
}

pub(crate) proof fn lemma_first_dot_numeric(toks: Seq<LexToken>, i: int)
    requires
        0 <= i <= toks.len(),
    ensures
        i <= first_dot_numeric(toks, i) <= toks.len(),
        first_dot_numeric(toks, i) < toks.len() ==> dot_then_numeric(toks, first_dot_numeric(toks, i)),
        forall|q: int| i <= q < first_dot_numeric(toks, i) ==> !#[trigger] dot_then_numeric(toks, q),
    decreases toks.len() - i,
{
    if i < toks.len() && !dot_then_numeric(toks, i) {
        lemma_first_dot_numeric(toks, i + 1);
    }
}

/// The message for a dot followed by a numeric literal.
pub open spec fn dot_numeric_message() -> Seq<char> {
    "a numeric literal after a dot is not supported"@
}

/// What parsing `text` gives: the first lexer error if there is one; else,
/// where a dot precedes a numeric literal, an error at the first such dot;
/// else the statements of the parser's walk or the first error it reports.
pub open spec fn parse_result(text: Seq<char>) -> Result<Seq<StatementModel>, (Seq<char>, usize)> {
    let lex = lex_errors_of(text);
    let toks = lexer_tokens_of(text);
    let d = first_dot_numeric(toks, 0);
    if lex.len() > 0 {
        Err((lex[0].message@, lex[0].pos))
    } else if d < toks.len() {
        Err((dot_numeric_message(), token_offset(toks, d)))
    } else {
        statements_of(syntax_events_of(text))
    }
}

/// Whether `s` starts with `p`.
fn has_prefix(s: &str, p: &str) -> (r: bool)
    ensures
        r == starts_with(s@, p@),
{
    let n = p.unicode_len();
    if n > s.unicode_len() {
        return false;
    }
    let mut i: usize = 0;
    while i < n
        invariant
            n == p@.len(),
            n <= s@.len(),
            i <= n,
            forall|q: int| 0 <= q < i ==> s@[q] == p@[q],
        decreases n - i,
    {
        if s.get_char(i) != p.get_char(i) {
            assert(s@.subrange(0, n as int)[i as int] != p@[i as int]);
            return false;
        }
        i = i + 1;
    }
    assert(s@.subrange(0, n as int) =~= p@);
    true
}

fn is_trivia_token(t: &LexToken) -> (r: bool)
    ensures
        r == is_lex_trivia(t.kind@),
{
    let k = t.kind.as_str();
    text_eq(k, "Whitespace") || text_eq(k, "LineComment") || has_prefix(k, "BlockComment")
}

/// Whether the first token at or after `j` that is not trivia is a numeric
/// literal.
fn is_numeric_from(toks: &Vec<LexToken>, j: usize) -> (r: bool)
    requires
        j <= toks@.len(),
    ensures
        r == numeric_from(toks@, j as int),
{
    let mut p: usize = j;
    while p < toks.len() && is_trivia_token(&toks[p])
        invariant
            j <= p <= toks@.len(),
            numeric_from(toks@, j as int) == numeric_from(toks@, p as int),
        decreases toks@.len() - p,
    {
        p = p + 1;
    }
    if p < toks.len() {
        has_prefix(toks[p].kind.as_str(), "Literal { kind: Numeric ")
    } else {
        false
    }
}

/// Whether token `i` is a dot whose next token is a numeric literal.
fn is_dot_then_numeric(toks: &Vec<LexToken>, i: usize) -> (r: bool)
    requires
        i < toks@.len(),
    ensures
        r == dot_then_numeric(toks@, i as int),
{
    let n = toks.len();
    text_eq(toks[i].kind.as_str(), "Dot") && i + 1 <= n && is_numeric_from(toks, i + 1)
}

/// Parses `text` into its top-level statements. Any error of the lexer or
/// the parser anywhere in the text makes the result an error.
pub fn parse_statements(text: &str) -> (r: Result<Vec<Statement>, CheckSQLError>)
    ensures
        match (r, parse_result(text@)) {
            (Ok(s), Ok(m)) => statement_models(s@) == m,
            (Err(e), Err(m)) => e.message@ == m.0 && e.pos == m.1,
            _ => false,
        },
{
    let mut lexed = lex_errors(text);
    if lexed.len() > 0 {
        return Err(lexed.swap_remove(0));
    }
    let toks = lexer_tokens(text);
    let ghost ts = toks@;
    let mut i: usize = 0;
    let mut offset: usize = 0;
    while i < toks.len()
        invariant
            i <= ts.len(),
            ts == toks@,
            ts == lexer_tokens_of(text@),
            lex_errors_of(text@).len() == 0,
            first_dot_numeric(ts, 0) == first_dot_numeric(ts, i as int),
            offset == token_offset(ts, i as int),
        decreases ts.len() - i,
    {
        if is_dot_then_numeric(&toks, i) {
            proof {
                assert(first_dot_numeric(ts, i as int) == i);
            }
            return Err(CheckSQLError { message: "a numeric literal after a dot is not supported".to_owned(), pos: offset });
        }
        let n = toks[i].len;
        offset = if n <= usize::MAX - offset { offset + n } else { usize::MAX };
        i = i + 1;
    }
    proof {
        lemma_first_dot_numeric(ts, 0);
        if dot_before_numeric(ts) {
            let q = choose|q: int| 0 <= q < ts.len() && #[trigger] dot_then_numeric(ts, q);
        }
    }
    let events = syntax_events(text);
    statements_from_events(&events)
}

} // verus!
