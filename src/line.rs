use vstd::prelude::*;

use crate::number::{NumberState, NumberType};
use crate::token::{operator_text, Operator, Token, TokenKind};
use vstd::std_specs::iter::IteratorSpec;

use crate::xid::{ident_continue, ident_start, is_ident_continue, is_ident_start};

verus! {

/// The quote that opened a string literal.
#[derive(Debug, Clone, Copy, PartialEq, Eq, Structural)]
pub enum StringQuote {
    Single,
    Double,
}

/// The state of the line scanner between two characters.
///
/// Every payload `usize` is the character index at which the construct being
/// scanned began.
#[derive(Debug, Clone, Copy, PartialEq, Eq, Structural)]
pub enum State {
    /// Skipping the leading spaces of the line.
    Indent,
    Identifier(usize),
    /// Inside a comment, which runs to the end of the line.
    Comment(usize),
    /// After a literal that began with `0`, awaiting its radix marker.
    Zero(usize),
    /// A decimal literal padded with zeros; not supported beyond this point.
    ZeroPadded(usize),
    /// After one letter that may prefix a string literal (the letter is kept).
    StringPrefixSingle(usize, char),
    /// After two letters that together may prefix a string literal.
    StringPrefixDouble(usize),
    /// Inside a string literal; its body is not supported.
    Quoted(StringQuote, usize),
    /// Inside a run of spaces.
    Whitespaces(usize),
    Number(NumberType, NumberState, usize),
    /// Nothing pending: an operator was just emitted.
    Empty,
}

/// Why a line could not be tokenized.
#[derive(Debug, Clone, Copy, PartialEq, Eq, Structural)]
pub enum Error {
    /// The character `c` cannot follow what was scanned in `state`.
    InvalidCharacter { state: State, c: char },
    /// The line ended while the construct of `state` was still open.
    InvalidTerminalState { state: State },
}

/// A token located in the line: its class and the character range
/// `start..end` of its lexeme.
#[derive(Debug, Clone, Copy, PartialEq, Eq, Structural)]
pub struct Span {
    pub kind: TokenKind,
    pub start: usize,
    pub end: usize,
}

/// The outcome of feeding one character to the scanner: the next state, the
/// token that the character ended, if any, and the operator it stands for,
/// if any.
#[derive(Debug, Clone, Copy, PartialEq, Eq, Structural)]
pub struct Step {
    pub state: State,
    pub ended: Option<Span>,
    pub operator: Option<Span>,
}

pub open spec fn is_dec_digit(c: char) -> bool {
    '0' <= c && c <= '9'
}

pub open spec fn is_b_or_f(c: char) -> bool {
    c == 'b' || c == 'B' || c == 'f' || c == 'F'
}

pub open spec fn is_r(c: char) -> bool {
    c == 'r' || c == 'R'
}

/// Letters that may prefix a string literal, in either case.
pub open spec fn is_prefix_letter(c: char) -> bool {
    is_b_or_f(c) || is_r(c) || c == 'u' || c == 'U'
}

/// Two letters that together may prefix a string literal.
pub open spec fn is_prefix_pair(p: char, c: char) -> bool {
    (is_b_or_f(p) && is_r(c)) || (is_r(p) && is_b_or_f(c))
}

pub open spec fn operator_span(op: Operator, index: usize) -> Span {
    Span { kind: TokenKind::Operator(op), start: index, end: (index + 1) as usize }
}

pub open spec fn plain(state: State) -> Step {
    Step { state, ended: None, operator: None }
}

/// Where a token may begin: the state that the character at `index` starts,
/// and the operator token it makes at once; `None` if no token starts so.
pub open spec fn first_char_spec(index: usize, c: char) -> Option<(State, Option<Span>)> {
    if c == '#' {
        Some((State::Comment(index), None))
    } else if is_prefix_letter(c) {
        Some((State::StringPrefixSingle(index, c), None))
    } else if c == '0' {
        Some((State::Zero(index), None))
    } else if c == ' ' {
        Some((State::Whitespaces(index), None))
    } else if c == ':' {
        Some((State::Empty, Some(operator_span(Operator::Colon, index))))
    } else if c == '+' {
        Some((State::Empty, Some(operator_span(Operator::Plus, index))))
    } else if is_dec_digit(c) {
        Some((State::Number(NumberType::Dec, NumberState::Normal, index), None))
    } else if ident_start(c) {
        Some((State::Identifier(index), None))
    } else {
        None
    }
}

/// The step in which `c`, at `index`, begins a fresh token after `ended`
/// (if any) was closed; an error reported against `state` if it cannot.
pub open spec fn restart_spec(state: State, index: usize, c: char, ended: Option<Span>) -> Result<
    Step,
    Error,
> {
    match first_char_spec(index, c) {
        Some((next, operator)) => Ok(Step { state: next, ended, operator }),
        None => Err(Error::InvalidCharacter { state, c }),
    }
}

/// The step of an identifier begun at `start` on the character `c` at `index`.
pub open spec fn identifier_step_spec(start: usize, index: usize, c: char) -> Result<Step, Error> {
    if ident_continue(c) {
        Ok(plain(State::Identifier(start)))
    } else {
        restart_spec(
            State::Identifier(start),
            index,
            c,
            Some(Span { kind: TokenKind::Identifier, start, end: index }),
        )
    }
}

/// The transition of the scanner in `state` on the character `c` at `index`.
pub open spec fn step_spec(state: State, index: usize, c: char) -> Result<Step, Error> {
    match state {
        State::Indent => {
            if c == ' ' {
                Ok(plain(State::Indent))
            } else {
                restart_spec(state, index, c, None)
            }
        },
        State::Whitespaces(start) => {
            if c == ' ' {
                Ok(plain(state))
            } else {
                restart_spec(
                    state,
                    index,
                    c,
                    Some(Span { kind: TokenKind::Whitespaces, start, end: index }),
                )
            }
        },
        State::Empty => restart_spec(state, index, c, None),
        State::Zero(start) => {
            if c == 'x' || c == 'X' {
                Ok(plain(State::Number(NumberType::Hex, NumberState::Normal, start)))
            } else if c == 'b' || c == 'B' {
                Ok(plain(State::Number(NumberType::Bin, NumberState::Normal, start)))
            } else if c == 'o' || c == 'O' {
                Ok(plain(State::Number(NumberType::Oct, NumberState::Normal, start)))
            } else if c == '0' {
                Ok(plain(State::ZeroPadded(start)))
            } else {
                Err(Error::InvalidCharacter { state, c })
            }
        },
        State::StringPrefixSingle(start, p) => {
            if is_prefix_pair(p, c) {
                Ok(plain(State::StringPrefixDouble(start)))
            } else if c == '\'' {
                Ok(plain(State::Quoted(StringQuote::Single, start)))
            } else if c == '"' {
                Ok(plain(State::Quoted(StringQuote::Double, start)))
            } else {
                identifier_step_spec(start, index, c)
            }
        },
        State::StringPrefixDouble(start) => {
            if c == '\'' {
                Ok(plain(State::Quoted(StringQuote::Single, start)))
            } else if c == '"' {
                Ok(plain(State::Quoted(StringQuote::Double, start)))
            } else {
                identifier_step_spec(start, index, c)
            }
        },
        State::Identifier(start) => identifier_step_spec(start, index, c),
        State::Number(t, ns, start) => {
            if t.is_digit_spec(c) {
                Ok(plain(State::Number(t, NumberState::Normal, start)))
            } else if ns == NumberState::Underscore {
                Err(Error::InvalidCharacter { state, c })
            } else if c == '_' {
                Ok(plain(State::Number(t, NumberState::Underscore, start)))
            } else {
                restart_spec(
                    state,
                    index,
                    c,
                    Some(Span { kind: TokenKind::Number(t), start, end: index }),
                )
            }
        },
        State::Comment(start) => Ok(plain(State::Comment(start))),
        State::ZeroPadded(_) | State::Quoted(_, _) => Err(Error::InvalidCharacter { state, c }),
    }
}

/// How the scanner in `state` resolves the end of a line of `len` characters:
/// the last token, if one is pending, or an error if a construct is open.
pub open spec fn finish_spec(state: State, len: usize) -> Result<Option<Span>, Error> {
    match state {
        State::Comment(start) => Ok(Some(Span { kind: TokenKind::Comment, start, end: len })),
        State::Number(t, NumberState::Normal, start) => Ok(
            Some(Span { kind: TokenKind::Number(t), start, end: len }),
        ),
        State::Identifier(start) => Ok(Some(Span { kind: TokenKind::Identifier, start, end: len })),
        State::Indent | State::Whitespaces(_) | State::Empty => Ok(None),
        _ => Err(Error::InvalidTerminalState { state }),
    }
}

pub open spec fn push_opt(spans: Seq<Span>, sp: Option<Span>) -> Seq<Span> {
    match sp {
        Some(x) => spans.push(x),
        None => spans,
    }
}

/// The scanner after the first `n` characters of `s`: its state, the
/// indentation found so far, and the tokens emitted.
pub open spec fn run(s: Seq<char>, n: nat) -> Result<(State, nat, Seq<Span>), Error>
    decreases n,
{
    if n == 0 {
        Ok((State::Indent, 0, Seq::empty()))
    } else {
        let i = (n - 1) as nat;
        match run(s, i) {
            Err(e) => Err(e),
            Ok((state, offset, spans)) => match step_spec(state, i as usize, s[i as int]) {
                Err(e) => Err(e),
                Ok(step) => Ok(
                    (
                        step.state,
                        if state is Indent {
                            if s[i as int] == ' ' {
                                n
                            } else {
                                i
                            }
                        } else {
                            offset
                        },
                        push_opt(push_opt(spans, step.ended), step.operator),
                    ),
                ),
            },
        }
    }
}

/// The tokens of the line `s` located in it, with its indentation: the index
/// of its first character that is not a space, or its length if it has none.
pub open spec fn tokenize_spans(s: Seq<char>) -> Result<(nat, Seq<Span>), Error> {
    match run(s, s.len()) {
        Err(e) => Err(e),
        Ok((state, offset, spans)) => match finish_spec(state, s.len() as usize) {
            Err(e) => Err(e),
            Ok(last) => Ok((offset, push_opt(spans, last))),
        },
    }
}

/// A located token seen as its class and lexeme.
pub open spec fn span_view(s: Seq<char>, sp: Span) -> (TokenKind, Seq<char>) {
    (sp.kind, s.subrange(sp.start as int, sp.end as int))
}

/// The tokenization of the line `s`: its indentation and its tokens, each as
/// its class and lexeme, in the order they appear.
pub open spec fn tokenize(s: Seq<char>) -> Result<(nat, Seq<(TokenKind, Seq<char>)>), Error> {
    match tokenize_spans(s) {
        Err(e) => Err(e),
        Ok((offset, spans)) => Ok((offset, spans.map_values(|sp: Span| span_view(s, sp)))),
    }
}

/// Decides where a token begins at the character `c` found at `index`.
pub fn match_first_char(index: usize, c: char) -> (r: Option<(State, Option<Span>)>)
    requires
        index < usize::MAX,
    ensures
        r == first_char_spec(index, c),
{
    if c == '#' {
        Some((State::Comment(index), None))
    } else if c == 'b' || c == 'B' || c == 'f' || c == 'F' || c == 'r' || c == 'R' || c == 'u'
        || c == 'U' {
        Some((State::StringPrefixSingle(index, c), None))
    } else if c == '0' {
        Some((State::Zero(index), None))
    } else if c == ' ' {
        Some((State::Whitespaces(index), None))
    } else if c == ':' {
        let op = Span { kind: TokenKind::Operator(Operator::Colon), start: index, end: index + 1 };
        Some((State::Empty, Some(op)))
    } else if c == '+' {
        let op = Span { kind: TokenKind::Operator(Operator::Plus), start: index, end: index + 1 };
        Some((State::Empty, Some(op)))
    } else if '0' <= c && c <= '9' {
        Some((State::Number(NumberType::Dec, NumberState::Normal, index), None))
    } else if is_ident_start(c) {
        Some((State::Identifier(index), None))
    } else {
        None
    }
}

fn restart(state: State, index: usize, c: char, ended: Option<Span>) -> (r: Result<Step, Error>)
    requires
        index < usize::MAX,
    ensures
        r == restart_spec(state, index, c, ended),
{
    match match_first_char(index, c) {
        Some((next, operator)) => Ok(Step { state: next, ended, operator }),
        None => Err(Error::InvalidCharacter { state, c }),
    }
}

fn identifier_step(start: usize, index: usize, c: char) -> (r: Result<Step, Error>)
    requires
        index < usize::MAX,
    ensures
        r == identifier_step_spec(start, index, c),
{
    if is_ident_continue(c) {
        Ok(Step { state: State::Identifier(start), ended: None, operator: None })
    } else {
        let ended = Span { kind: TokenKind::Identifier, start, end: index };
        restart(State::Identifier(start), index, c, Some(ended))
    }
}

/// Feeds the character `c`, found at `index`, to the scanner in `state`.
///
/// A decimal literal ended in the middle of a line is a `DecNumber`, as it is
/// at the end of one.
pub fn step(state: State, index: usize, c: char) -> (r: Result<Step, Error>)
    requires
        index < usize::MAX,
    ensures
        r == step_spec(state, index, c),
{
    let stay = |s: State| -> (r: Result<Step, Error>)
        ensures
            r == Ok::<Step, Error>(plain(s)),
        { Ok(Step { state: s, ended: None, operator: None }) };
    match state {
        State::Indent => {
            if c == ' ' {
                stay(State::Indent)
            } else {
                restart(state, index, c, None)
            }
        },
        State::Whitespaces(start) => {
            if c == ' ' {
                stay(state)
            } else {
                let ended = Span { kind: TokenKind::Whitespaces, start, end: index };
                restart(state, index, c, Some(ended))
            }
        },
        State::Empty => restart(state, index, c, None),
        State::Zero(start) => {
            if c == 'x' || c == 'X' {
                stay(State::Number(NumberType::Hex, NumberState::Normal, start))
            } else if c == 'b' || c == 'B' {
                stay(State::Number(NumberType::Bin, NumberState::Normal, start))
            } else if c == 'o' || c == 'O' {
                stay(State::Number(NumberType::Oct, NumberState::Normal, start))
            } else if c == '0' {
                stay(State::ZeroPadded(start))
            } else {
                Err(Error::InvalidCharacter { state, c })
            }
        },
        State::StringPrefixSingle(start, p) => {
            let p_bf = p == 'b' || p == 'B' || p == 'f' || p == 'F';
            let c_bf = c == 'b' || c == 'B' || c == 'f' || c == 'F';
            let p_r = p == 'r' || p == 'R';
            let c_r = c == 'r' || c == 'R';
            if (p_bf && c_r) || (p_r && c_bf) {
                stay(State::StringPrefixDouble(start))
            } else if c == '\'' {
                stay(State::Quoted(StringQuote::Single, start))
            } else if c == '"' {
                stay(State::Quoted(StringQuote::Double, start))
            } else {
                identifier_step(start, index, c)
            }
        },
        State::StringPrefixDouble(start) => {
            if c == '\'' {
                stay(State::Quoted(StringQuote::Single, start))
            } else if c == '"' {
                stay(State::Quoted(StringQuote::Double, start))
            } else {
                identifier_step(start, index, c)
            }
        },
        State::Identifier(start) => identifier_step(start, index, c),
        State::Number(t, ns, start) => {
            if t.is_digit(c) {
                stay(State::Number(t, NumberState::Normal, start))
            } else if ns == NumberState::Underscore {
                Err(Error::InvalidCharacter { state, c })
            } else if c == '_' {
                stay(State::Number(t, NumberState::Underscore, start))
            } else {
                let ended = Span { kind: TokenKind::Number(t), start, end: index };
                restart(state, index, c, Some(ended))
            }
        },
        State::Comment(start) => stay(State::Comment(start)),
        State::ZeroPadded(_) | State::Quoted(_, _) => Err(Error::InvalidCharacter { state, c }),
    }
}

/// Resolves the end of a line of `len` characters reached in `state`.
pub fn finish(state: State, len: usize) -> (r: Result<Option<Span>, Error>)
    ensures
        r == finish_spec(state, len),
{
    match state {
        State::Comment(start) => Ok(Some(Span { kind: TokenKind::Comment, start, end: len })),
        State::Number(t, NumberState::Normal, start) => Ok(
            Some(Span { kind: TokenKind::Number(t), start, end: len }),
        ),
        State::Identifier(start) => Ok(Some(Span { kind: TokenKind::Identifier, start, end: len })),
        State::Indent | State::Whitespaces(_) | State::Empty => Ok(None),
        _ => Err(Error::InvalidTerminalState { state }),
    }
}

/// The characters of `s`, in order.
fn chars_of(s: &str) -> (r: Vec<char>)
    ensures
        r@ == s@,
{
    broadcast use vstd::string::axiom_spec_iter, vstd::string::next_postcondition;

    let mut it = s.chars();
    let mut out: Vec<char> = Vec::new();
    loop
        invariant
            out@ + it.remaining() == s@,
            it.obeys_prophetic_iter_laws(),
        ensures
            out@ == s@,
        decreases s@.len() - out@.len(),
    {
        match it.next() {
            Some(c) => {
                out.push(c);
            },
            None => {
                assert(out@ =~= s@);
                break ;
            },
        }
    }
    out
}

/// Where the token pending in `state` began, after `n` characters.
pub open spec fn pending(state: State, n: nat) -> nat {
    match state {
        State::Indent | State::Empty => n,
        State::Identifier(p) | State::Comment(p) | State::Zero(p) | State::ZeroPadded(p)
        | State::StringPrefixSingle(p, _) | State::StringPrefixDouble(p) | State::Quoted(_, p)
        | State::Whitespaces(p) | State::Number(_, _, p) => p as nat,
    }
}

/// A located token lies within `s`, and an operator's lexeme spells it.
pub open spec fn span_ok(s: Seq<char>, sp: Span) -> bool {
    &&& sp.start <= sp.end <= s.len()
    &&& sp.kind matches TokenKind::Operator(op) ==> s.subrange(sp.start as int, sp.end as int)
        == operator_text(op)
}

/// The located tokens `spans` follow one another without gap from `a` to `b`.
pub open spec fn covers(s: Seq<char>, spans: Seq<Span>, a: nat, b: nat) -> bool
    decreases spans.len(),
{
    if spans.len() == 0 {
        a == b
    } else {
        &&& covers(s, spans.drop_last(), a, spans.last().start as nat)
        &&& span_ok(s, spans.last())
        &&& spans.last().end == b
    }
}

/// What holds of the scanner after the first `n` characters of `s`.
pub open spec fn scan_inv(s: Seq<char>, n: nat, state: State, offset: nat, spans: Seq<Span>) -> bool {
    &&& n <= s.len()
    &&& offset <= pending(state, n) <= n
    &&& covers(s, spans, offset, pending(state, n))
    &&& state is Indent ==> offset == n && spans.len() == 0
    &&& !(state is Indent) ==> offset < n && s[offset as int] != ' '
    &&& forall|j: int| 0 <= j < offset ==> s[j] == ' '
    &&& state is Whitespaces ==> n > 0 && s[n - 1] == ' '
}

pub proof fn lemma_covers_push(s: Seq<char>, spans: Seq<Span>, sp: Span, a: nat)
    requires
        covers(s, spans, a, sp.start as nat),
        span_ok(s, sp),
    ensures
        covers(s, spans.push(sp), a, sp.end as nat),
{
    assert(spans.push(sp).drop_last() =~= spans);
}

pub proof fn lemma_covers_le(s: Seq<char>, spans: Seq<Span>, a: nat, b: nat)
    requires
        covers(s, spans, a, b),
    ensures
        a <= b,
        forall|k: int| 0 <= k < spans.len() ==> span_ok(s, #[trigger] spans[k]),
    decreases spans.len(),
{
    if spans.len() > 0 {
        lemma_covers_le(s, spans.drop_last(), a, spans.last().start as nat);
        assert forall|k: int| 0 <= k < spans.len() implies span_ok(s, #[trigger] spans[k]) by {
            if k < spans.len() - 1 {
                assert(spans[k] == spans.drop_last()[k]);
            }
        }
    }
}

proof fn lemma_operator_span_ok(s: Seq<char>, n: nat)
    requires
        n < s.len() <= usize::MAX,
    ensures
        s[n as int] == ':' ==> span_ok(s, operator_span(Operator::Colon, n as usize)),
        s[n as int] == '+' ==> span_ok(s, operator_span(Operator::Plus, n as usize)),
{
    assert(s[n as int] == ':' ==> s.subrange(n as int, n + 1int) =~= seq![':']);
    assert(s[n as int] == '+' ==> s.subrange(n as int, n + 1int) =~= seq!['+']);
}

/// One step of the scanner keeps its invariant.
proof fn lemma_step_inv(s: Seq<char>, n: nat, state: State, offset: nat, spans: Seq<Span>)
    requires
        scan_inv(s, n, state, offset, spans),
        n < s.len() <= usize::MAX,
        step_spec(state, n as usize, s[n as int]) is Ok,
    ensures
        ({
            let step = step_spec(state, n as usize, s[n as int])->Ok_0;
            let c = s[n as int];
            let offset2 = if state is Indent {
                if c == ' ' {
                    n + 1
                } else {
                    n
                }
            } else {
                offset
            };
            scan_inv(s, n + 1, step.state, offset2, push_opt(push_opt(spans, step.ended), step.operator))
        }),
{
    let c = s[n as int];
    let step = step_spec(state, n as usize, c)->Ok_0;
    lemma_operator_span_ok(s, n);
    lemma_covers_le(s, spans, offset, pending(state, n));
    let spans1 = push_opt(spans, step.ended);
    match step.ended {
        Some(sp) => {
            lemma_covers_push(s, spans, sp, offset);
        },
        None => {},
    }
    match step.operator {
        Some(op) => {
            assert(covers(s, spans1, offset, n));
            lemma_covers_push(s, spans1, op, offset);
        },
        None => {},
    }
}

/// The scanner's invariant holds after every prefix that it accepts.
pub proof fn lemma_run_inv(s: Seq<char>, n: nat)
    requires
        n <= s.len() <= usize::MAX,
    ensures
        run(s, n) matches Ok((state, offset, spans)) ==> scan_inv(s, n, state, offset, spans),
    decreases n,
{
    if n > 0 {
        let i = (n - 1) as nat;
        lemma_run_inv(s, i);
        if let Ok((state, offset, spans)) = run(s, i) {
            if step_spec(state, i as usize, s[i as int]) is Ok {
                lemma_step_inv(s, i, state, offset, spans);
            }
        }
    }
}

/// A prefix that the scanner rejects leaves the whole line rejected, with the
/// same error.
proof fn lemma_run_err(s: Seq<char>, n: nat, m: nat)
    requires
        n <= m,
        run(s, n) is Err,
    ensures
        run(s, m) == run(s, n),
    decreases m - n,
{
    if n < m {
        lemma_run_err(s, n, (m - 1) as nat);
    }
}

/// One line, tokenized: the index of its first character that is not a
/// space (its length if it has none), and its tokens in order.
#[derive(Debug)]
pub struct LineTokenizer {
    pub offset: usize,
    pub tokens: Vec<Token>,
}

impl View for LineTokenizer {
    /// The indentation and the tokens, each as its class and lexeme.
    type V = (nat, Seq<(TokenKind, Seq<char>)>);

    open spec fn view(&self) -> (nat, Seq<(TokenKind, Seq<char>)>) {
        (self.offset as nat, self.tokens@.map_values(|t: Token| t@))
    }
}

impl LineTokenizer {
    /// Tokenizes one line of text, which holds no line terminator.
    ///
    /// The line is accepted whole or rejected with the first error met.
    pub fn from_str(input: &str) -> (r: Result<LineTokenizer, Error>)
        ensures
            match tokenize(input@) {
                Ok(v) => r matches Ok(lt) && lt@ == v,
                Err(e) => r == Err::<LineTokenizer, Error>(e),
            },
    {
        let chars = chars_of(input);
        let n = chars.len();
        let ghost s = input@;
        let mut state = State::Indent;
        let mut offset: usize = 0;
        let mut spans: Vec<Span> = Vec::new();
        let mut i: usize = 0;
        while i < n
            invariant
                chars@ == s,
                s == input@,
                n == s.len(),
                i <= n,
                run(s, i as nat) == Ok::<(State, nat, Seq<Span>), Error>(
                    (state, offset as nat, spans@),
                ),
            decreases n - i,
        {
            let c = chars[i];
            let was_indent = state == State::Indent;
            let st = match step(state, i, c) {
                Ok(st) => st,
                Err(e) => {
                    proof {
                        lemma_run_err(s, (i + 1) as nat, n as nat);
                    }
                    return Err(e);
                },
            };
            if let Some(sp) = st.ended {
                spans.push(sp);
            }
            if let Some(sp) = st.operator {
                spans.push(sp);
            }
            if was_indent {
                offset = if c == ' ' {
                    i + 1
                } else {
                    i
                };
            }
            state = st.state;
            i += 1;
        }
        proof {
            lemma_run_inv(s, n as nat);
        }
        let last = match finish(state, n) {
            Ok(last) => last,
            Err(e) => return Err(e),
        };
        if let Some(sp) = last {
            proof {
                lemma_covers_push(s, spans@, sp, offset as nat);
            }
            spans.push(sp);
        }
        proof {
            lemma_covers_le(s, spans@, offset as nat, if last is Some { n as nat } else { pending(state, n as nat) });
        }
        let mut tokens: Vec<Token> = Vec::new();
        let mut k: usize = 0;
        while k < spans.len()
            invariant
                s == input@,
                k <= spans@.len(),
                forall|j: int| 0 <= j < spans@.len() ==> span_ok(s, #[trigger] spans@[j]),
                tokens@.len() == k,
                forall|j: int| 0 <= j < k ==> #[trigger] tokens@[j]@ == span_view(s, spans@[j]),
            decreases spans@.len() - k,
        {
            let sp = spans[k];
            let text = input.substring_char(sp.start, sp.end).to_owned();
            tokens.push(Token::from_kind(sp.kind, text));
            k += 1;
        }
        assert(tokens@.map_values(|t: Token| t@) =~= spans@.map_values(|sp: Span| span_view(s, sp)));
        Ok(LineTokenizer { offset, tokens })
    }
}

} // verus!
