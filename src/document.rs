use vstd::prelude::*;

use crate::line::{tokenize, Error, LineTokenizer};
use crate::token::TokenKind;

verus! {

/// The text of each line.
pub open spec fn texts(lines: Seq<String>) -> Seq<Seq<char>> {
    lines.map_values(|l: String| l@)
}

/// The tokenization of a document given as its lines, in order: every line
/// tokenized, or the error of the first line that is rejected.
pub open spec fn tokenize_lines(lines: Seq<Seq<char>>) -> Result<
    Seq<(nat, Seq<(TokenKind, Seq<char>)>)>,
    Error,
>
    decreases lines.len(),
{
    if lines.len() == 0 {
        Ok(Seq::empty())
    } else {
        match tokenize_lines(lines.drop_last()) {
            Err(e) => Err(e),
            Ok(done) => match tokenize(lines.last()) {
                Err(e) => Err(e),
                Ok(line) => Ok(done.push(line)),
            },
        }
    }
}

proof fn lemma_tokenize_lines_err(lines: Seq<Seq<char>>, k: nat)
    requires
        k <= lines.len(),
        tokenize_lines(lines.take(k as int)) is Err,
    ensures
        tokenize_lines(lines) == tokenize_lines(lines.take(k as int)),
    decreases lines.len() - k,
{
    if k < lines.len() {
        assert(lines.take(k + 1int).drop_last() =~= lines.take(k as int));
        lemma_tokenize_lines_err(lines, k + 1);
    } else {
        assert(lines.take(k as int) =~= lines);
    }
}

/// A document, tokenized line by line.
#[derive(Debug)]
pub struct Tokenizer {
    pub lines: Vec<LineTokenizer>,
}

impl Tokenizer {
    /// Tokenizes the lines read from a document, in order; the first line
    /// that is rejected rejects the document with its error.
    pub fn from_reader(lines: Vec<String>) -> (r: Result<Tokenizer, Error>)
        ensures
            match tokenize_lines(texts(lines@)) {
                Ok(v) => r matches Ok(t) && t.lines@.map_values(|l: LineTokenizer| l@) == v,
                Err(e) => r == Err::<Tokenizer, Error>(e),
            },
    {
        let ghost ts = texts(lines@);
        let mut out: Vec<LineTokenizer> = Vec::new();
        let mut k: usize = 0;
        assert(ts.take(0) =~= Seq::<Seq<char>>::empty());
        assert(out@.map_values(|l: LineTokenizer| l@) =~= Seq::empty());
        while k < lines.len()
            invariant
                ts == texts(lines@),
                k <= lines@.len(),
                tokenize_lines(ts.take(k as int)) == Ok::<_, Error>(
                    out@.map_values(|l: LineTokenizer| l@),
                ),
            decreases lines@.len() - k,
        {
            assert(ts.take(k + 1int).drop_last() =~= ts.take(k as int));
            assert(ts.take(k + 1int).last() == lines@[k as int]@);
            match LineTokenizer::from_str(lines[k].as_str()) {
                Ok(lt) => {
                    let ghost before = out@;
                    out.push(lt);
                    assert(out@.map_values(|l: LineTokenizer| l@) =~= before.map_values(
                        |l: LineTokenizer| l@,
                    ).push(lt@));
                },
                Err(e) => {
                    proof {
                        lemma_tokenize_lines_err(ts, (k + 1) as nat);
                    }
                    return Err(e);
                },
            }
            k += 1;
        }
        assert(ts.take(lines@.len() as int) =~= ts);
        Ok(Tokenizer { lines: out })
    }
}

/// A document held as its numbered lines.
#[derive(Debug)]
pub struct Parser {
    pub lines: Vec<(usize, String)>,
}

impl Parser {
    /// Numbers the lines read from a document from zero, in order.
    pub fn from_reader(lines: Vec<String>) -> (r: Parser)
        ensures
            r.lines@.len() == lines@.len(),
            forall|k: int|
                0 <= k < lines@.len() ==> #[trigger] r.lines@[k].0 == k && r.lines@[k].1@
                    == lines@[k]@,
    {
        let mut out: Vec<(usize, String)> = Vec::new();
        let mut k: usize = 0;
        while k < lines.len()
            invariant
                k <= lines@.len(),
                out@.len() == k,
                forall|j: int|
                    0 <= j < k ==> #[trigger] out@[j].0 == j && out@[j].1@ == lines@[j]@,
            decreases lines@.len() - k,
        {
            out.push((k, lines[k].clone()));
            k += 1;
        }
        Parser { lines: out }
    }
}

} // verus!
