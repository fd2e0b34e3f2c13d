use vstd::prelude::*;

use crate::line::{
    covers, finish_spec, lemma_covers_le, lemma_covers_push, lemma_run_inv, run, span_view, tokenize,
    tokenize_spans, is_dec_digit, is_prefix_letter, first_char_spec, step_spec, is_prefix_pair, Step, Error, Span, State,
};
use crate::number::{NumberState, NumberType};
use crate::token::{Operator, TokenKind};
use crate::xid::{ident_continue, ident_start};

verus! {

/// The lexemes of `tokens`, written one after the other.
pub open spec fn lexemes(tokens: Seq<(TokenKind, Seq<char>)>) -> Seq<char>
    decreases tokens.len(),
{
    if tokens.len() == 0 {
        Seq::empty()
    } else {
        lexemes(tokens.drop_last()) + tokens.last().1
    }
}

/// A line rebuilt from its tokenization: `offset` spaces, then the lexemes.
pub open spec fn reassemble(offset: nat, tokens: Seq<(TokenKind, Seq<char>)>) -> Seq<char> {
    Seq::new(offset, |_i: int| ' ') + lexemes(tokens)
}

/// The line ends in spaces that follow some other character: a run of spaces
/// at the end of a line yields no token.
pub open spec fn has_trailing_spaces(s: Seq<char>) -> bool {
    &&& s.len() > 0
    &&& s.last() == ' '
    &&& exists|j: int| 0 <= j < s.len() && s[j] != ' '
}

proof fn lemma_covers_lexemes(s: Seq<char>, spans: Seq<Span>, a: nat, b: nat)
    requires
        covers(s, spans, a, b),
        b <= s.len(),
    ensures
        lexemes(spans.map_values(|sp: Span| span_view(s, sp))) == s.subrange(a as int, b as int),
    decreases spans.len(),
{
    let f = |sp: Span| span_view(s, sp);
    if spans.len() == 0 {
        assert(s.subrange(a as int, b as int) =~= Seq::empty());
    } else {
        let last = spans.last();
        lemma_covers_le(s, spans.drop_last(), a, last.start as nat);
        lemma_covers_lexemes(s, spans.drop_last(), a, last.start as nat);
        assert(spans.map_values(f).drop_last() =~= spans.drop_last().map_values(f));
        assert(s.subrange(a as int, last.start as int) + s.subrange(
            last.start as int,
            last.end as int,
        ) =~= s.subrange(a as int, b as int));
    }
}

/// Writing the indentation as spaces and then every lexeme in order gives
/// back the line, and tokenizing that text again gives the same result.
///
/// This holds of every line that tokenizes, except one that ends in spaces
/// after some other character, since a final run of spaces yields no token.
pub proof fn lemma_round_trip(s: Seq<char>)
    requires
        s.len() <= usize::MAX,
        tokenize(s) is Ok,
        !has_trailing_spaces(s),
    ensures
        reassemble(tokenize(s)->Ok_0.0, tokenize(s)->Ok_0.1) == s,
        tokenize(reassemble(tokenize(s)->Ok_0.0, tokenize(s)->Ok_0.1)) == tokenize(s),
{
    let n = s.len();
    lemma_run_inv(s, n);
    let (state, offset, spans) = run(s, n)->Ok_0;
    let spans2 = tokenize_spans(s)->Ok_0.1;
    match finish_spec(state, n as usize)->Ok_0 {
        Some(sp) => {
            lemma_covers_push(s, spans, sp, offset);
        },
        None => {
            if state is Whitespaces {
                assert(s[offset as int] != ' ');
            }
        },
    }
    assert(covers(s, spans2, offset, n));
    lemma_covers_lexemes(s, spans2, offset, n);
    assert(Seq::new(offset, |_i: int| ' ') =~= s.subrange(0, offset as int));
    assert(s.subrange(0, offset as int) + s.subrange(offset as int, n as int) =~= s);
}

proof fn lemma_digits_run(s: Seq<char>, n: nat)
    requires
        1 <= n <= s.len() <= usize::MAX,
        forall|j: int| 0 <= j < s.len() ==> is_dec_digit(#[trigger] s[j]),
        s[0] != '0',
    ensures
        run(s, n) == Ok::<_, Error>(
            (State::Number(NumberType::Dec, NumberState::Normal, 0), 0nat, Seq::<Span>::empty()),
        ),
    decreases n,
{
    if n > 1 {
        lemma_digits_run(s, (n - 1) as nat);
        assert(is_dec_digit(s[n - 1]));
    } else {
        let c = s[0];
        assert(is_dec_digit(c));
        assert(run(s, 0) == Ok::<_, Error>((State::Indent, 0nat, Seq::<Span>::empty())));
        assert(first_char_spec(0, c) == Some::<(State, Option<Span>)>(
            (State::Number(NumberType::Dec, NumberState::Normal, 0), None),
        ));
    }
}

/// A line made of decimal digits alone, not led by a zero, is one decimal
/// literal spelled as the line.
///
/// A line led by `0` is no such literal: `0` must be followed by a radix
/// marker.
pub proof fn lemma_digits_one_number(s: Seq<char>)
    requires
        0 < s.len() <= usize::MAX,
        forall|j: int| 0 <= j < s.len() ==> is_dec_digit(#[trigger] s[j]),
        s[0] != '0',
    ensures
        tokenize(s) == Ok::<_, Error>((0nat, seq![(TokenKind::Number(NumberType::Dec), s)])),
{
    lemma_digits_run(s, s.len());
    let sp = Span { kind: TokenKind::Number(NumberType::Dec), start: 0, end: s.len() as usize };
    assert(tokenize_spans(s) == Ok::<_, Error>((0nat, seq![sp])));
    assert(s.subrange(0, s.len() as int) =~= s);
    assert(seq![sp].map_values(|x: Span| span_view(s, x)) =~= seq![
        (TokenKind::Number(NumberType::Dec), s),
    ]);
}

proof fn lemma_comment_run(s: Seq<char>, k: nat, n: nat)
    requires
        k < s.len() <= usize::MAX,
        n <= s.len(),
        forall|j: int| 0 <= j < k ==> #[trigger] s[j] == ' ',
        s[k as int] == '#',
    ensures
        n <= k ==> run(s, n) == Ok::<_, Error>((State::Indent, n, Seq::<Span>::empty())),
        n > k ==> run(s, n) == Ok::<_, Error>((State::Comment(k as usize), k, Seq::<Span>::empty())),
    decreases n,
{
    if n > 0 {
        lemma_comment_run(s, k, (n - 1) as nat);
        if n <= k {
            assert(s[n - 1] == ' ');
        }
    }
}

/// A line that is, after its leading spaces, a `#` and anything at all, is
/// one comment running from the `#` to the end of the line.
pub proof fn lemma_comment_line(s: Seq<char>, k: nat)
    requires
        k < s.len() <= usize::MAX,
        forall|j: int| 0 <= j < k ==> #[trigger] s[j] == ' ',
        s[k as int] == '#',
    ensures
        tokenize(s) == Ok::<_, Error>((k, seq![(TokenKind::Comment, s.subrange(k as int, s.len() as int))])),
{
    lemma_comment_run(s, k, s.len());
    let sp = Span { kind: TokenKind::Comment, start: k as usize, end: s.len() as usize };
    assert(tokenize_spans(s) == Ok::<_, Error>((k, seq![sp])));
    assert(seq![sp].map_values(|x: Span| span_view(s, x)) =~= seq![
        (TokenKind::Comment, s.subrange(k as int, s.len() as int)),
    ]);
}

/// `r` is an identifier run: a character of the starting class followed by
/// characters of the continuing class.
pub open spec fn is_identifier_run(r: Seq<char>) -> bool {
    &&& r.len() > 0
    &&& ident_start(r[0])
    &&& forall|j: int| 1 <= j < r.len() ==> ident_continue(#[trigger] r[j])
}

/// `r` is, whole, a prefix that may open a string literal.
pub open spec fn is_string_prefix(r: Seq<char>) -> bool {
    ||| r.len() == 1 && is_prefix_letter(r[0])
    ||| r.len() == 2 && is_prefix_pair(r[0], r[1])
}

/// The scanner's state after the first `n` characters of an identifier run.
pub open spec fn identifier_state(r: Seq<char>, n: nat) -> State {
    if n == 1 && is_prefix_letter(r[0]) {
        State::StringPrefixSingle(0, r[0])
    } else if n == 2 && is_prefix_pair(r[0], r[1]) {
        State::StringPrefixDouble(0)
    } else {
        State::Identifier(0)
    }
}

proof fn lemma_identifier_prefix(s: Seq<char>, r: Seq<char>, n: nat)
    requires
        is_identifier_run(r),
        r.len() <= s.len() <= usize::MAX,
        s.take(r.len() as int) == r,
        1 <= n <= r.len(),
    ensures
        run(s, n) == Ok::<_, Error>((identifier_state(r, n), 0nat, Seq::<Span>::empty())),
    decreases n,
{
    assert(s[n - 1] == s.take(r.len() as int)[n - 1]);
    let c = s[n - 1];
    if n > 1 {
        lemma_identifier_prefix(s, r, (n - 1) as nat);
        assert(ident_continue(r[n - 1]));
        assert(c != '\'' && c != '"');
    } else {
        assert(run(s, 0) == Ok::<_, Error>((State::Indent, 0nat, Seq::<Span>::empty())));
        assert(c != ' ' && c != '#' && c != '0' && c != ':' && c != '+' && !is_dec_digit(c));
    }
}

/// An identifier run alone on a line is one identifier token, and followed
/// by `:` it is an identifier token and a colon operator.
///
/// Alone, a run that is nothing but a string prefix (`b`, `rb`) is left out:
/// the line ends before the string it announces, which is an error.
pub proof fn lemma_identifier_run(r: Seq<char>)
    requires
        is_identifier_run(r),
        r.len() < usize::MAX,
    ensures
        tokenize(r.push(':')) == Ok::<_, Error>(
            (0nat, seq![(TokenKind::Identifier, r), (TokenKind::Operator(Operator::Colon), seq![':'])]),
        ),
        !is_string_prefix(r) ==> tokenize(r) == Ok::<_, Error>(
            (0nat, seq![(TokenKind::Identifier, r)]),
        ),
{
    let n = r.len();
    let s = r.push(':');
    assert(s.take(n as int) =~= r);
    assert(r.take(n as int) =~= r);
    lemma_identifier_prefix(s, r, n);
    lemma_identifier_prefix(r, r, n);
    let id = Span { kind: TokenKind::Identifier, start: 0, end: n as usize };
    let colon = Span { kind: TokenKind::Operator(Operator::Colon), start: n as usize, end: (n + 1) as usize };
    assert(s[n as int] == ':');
    assert(!ident_continue(':'));
    assert(first_char_spec(n as usize, ':') == Some::<(State, Option<Span>)>((State::Empty, Some(colon))));
    let st = identifier_state(r, n);
    assert(step_spec(st, n as usize, ':') == Ok::<_, Error>(Step { state: State::Empty, ended: Some(id), operator: Some(colon) }));
    assert(seq![id, colon] =~= Seq::<Span>::empty().push(id).push(colon));
    assert(run(s, n + 1) == Ok::<_, Error>((State::Empty, 0nat, seq![id, colon])));
    assert(tokenize_spans(s) == Ok::<_, Error>((0nat, seq![id, colon])));
    assert(s.subrange(0, n as int) =~= r);
    assert(s.subrange(n as int, n + 1int) =~= seq![':']);
    assert(seq![id, colon].map_values(|x: Span| span_view(s, x)) =~= seq![
        (TokenKind::Identifier, r),
        (TokenKind::Operator(Operator::Colon), seq![':']),
    ]);
    if !is_string_prefix(r) {
        assert(tokenize_spans(r) == Ok::<_, Error>((0nat, seq![id])));
        assert(r.subrange(0, n as int) =~= r);
        assert(seq![id].map_values(|x: Span| span_view(r, x)) =~= seq![
            (TokenKind::Identifier, r),
        ]);
    }
}

} // verus!
