use vstd::prelude::*;
use crate::model::{
    eof_token, is_blank, line_end, scan, scan_from, seq_of, step, Scan, ScannedToken,
};
use crate::token::TokenType;

verus! {

/// The number of newline characters in `s`.
pub open spec fn newline_count(s: Seq<char>) -> nat
    decreases s.len(),
{
    if s.len() == 0 {
        0
    } else {
        newline_count(s.drop_last()) + if s.last() == '\n' {
            1nat
        } else {
            0nat
        }
    }
}

/// The number of newline characters strictly before offset `p`.
pub open spec fn newlines_before(s: Seq<char>, p: nat) -> nat {
    newline_count(s.take(p as int))
}

proof fn lemma_newlines_step(s: Seq<char>, p: nat)
    requires
        p < s.len(),
    ensures
        newlines_before(s, p + 1) == newlines_before(s, p) + if s[p as int] == '\n' {
            1nat
        } else {
            0nat
        },
{
    assert(s.take(p + 1int).drop_last() =~= s.take(p as int));
}

proof fn lemma_newlines_to_line_end(s: Seq<char>, p: nat)
    requires
        p <= s.len(),
    ensures
        newlines_before(s, line_end(s, p)) == newlines_before(s, p),
    decreases s.len() - p,
{
    if p < s.len() && s[p as int] != '\n' {
        lemma_newlines_step(s, p);
        lemma_newlines_to_line_end(s, p + 1);
    }
}

proof fn lemma_step_keeps_line_count(s: Seq<char>, pos: nat, line: nat)
    requires
        pos < s.len(),
        line == 1 + newlines_before(s, pos),
    ensures
        pos < step(s, pos, line).next <= s.len(),
        step(s, pos, line).line == 1 + newlines_before(s, step(s, pos, line).next),
        step(s, pos, line).token is Some ==> step(s, pos, line).token->0.start == pos,
        step(s, pos, line).token is Some ==> step(s, pos, line).token->0.line == line,
{
    lemma_newlines_step(s, pos);
    let c = s[pos as int];
    if c == '/' && pos + 1 < s.len() && s[pos + 1int] == '/' {
        lemma_newlines_step(s, pos + 1);
        crate::model::lemma_line_end_bounds(s, pos + 2);
        lemma_newlines_to_line_end(s, pos + 2);
    }
}

/// Whatever the input, the token sequence is not empty and ends with the
/// end-of-input token, whose lexeme is empty.
pub proof fn lemma_ends_with_eof(s: Seq<char>, pos: nat, line: nat)
    ensures
        scan_from(s, pos, line).tokens.len() > 0,
        scan_from(s, pos, line).tokens.last().kind == TokenType::Eof,
        scan_from(s, pos, line).tokens.last().lexeme == Seq::<char>::empty(),
    decreases s.len() - pos,
{
    if pos < s.len() {
        let st = step(s, pos, line);
        crate::model::lemma_step_advances(s, pos, line);
        lemma_ends_with_eof(s, st.next, st.line);
        let rest = scan_from(s, st.next, st.line);
        assert((seq_of(st.token) + rest.tokens).last() == rest.tokens.last());
    }
}

/// Scanned from a cursor whose line counter is right, every token carries
/// as its line one more than the number of newlines before its start.
pub proof fn lemma_token_lines_from(s: Seq<char>, pos: nat, line: nat)
    requires
        pos <= s.len(),
        line == 1 + newlines_before(s, pos),
    ensures
        forall|i: int|
            0 <= i < scan_from(s, pos, line).tokens.len() ==> {
                let t = #[trigger] scan_from(s, pos, line).tokens[i];
                &&& pos <= t.start <= s.len()
                &&& t.line == 1 + newlines_before(s, t.start)
            },
    decreases s.len() - pos,
{
    if pos < s.len() {
        let st = step(s, pos, line);
        lemma_step_keeps_line_count(s, pos, line);
        lemma_token_lines_from(s, st.next, st.line);
        let rest = scan_from(s, st.next, st.line);
        assert forall|i: int| 0 <= i < scan_from(s, pos, line).tokens.len() implies {
            let t = #[trigger] scan_from(s, pos, line).tokens[i];
            &&& pos <= t.start <= s.len()
            &&& t.line == 1 + newlines_before(s, t.start)
        } by {
            if st.token is Some && i > 0 {
                assert(scan_from(s, pos, line).tokens[i] == rest.tokens[i - 1]);
            } else if st.token is None {
                assert(scan_from(s, pos, line).tokens[i] == rest.tokens[i]);
            }
        }
    }
}

/// Every token of a whole scan is on the line given by the number of
/// newlines before its start, plus one.
pub proof fn lemma_token_lines(s: Seq<char>)
    ensures
        forall|i: int|
            0 <= i < scan(s).tokens.len() ==> {
                let t = #[trigger] scan(s).tokens[i];
                &&& t.start <= s.len()
                &&& t.line == 1 + newlines_before(s, t.start)
            },
{
    assert(s.take(0) =~= Seq::<char>::empty());
    lemma_token_lines_from(s, 0, 1);
}

pub open spec fn is_whitespace(c: char) -> bool {
    is_blank(c) || c == '\n'
}

/// Input made of whitespace alone gives exactly the end-of-input token, on
/// the line after the last newline, and no error.
pub proof fn lemma_whitespace_only(s: Seq<char>)
    requires
        forall|i: int| 0 <= i < s.len() ==> is_whitespace(#[trigger] s[i]),
    ensures
        scan(s) == (Scan { tokens: seq![eof_token(s, 1 + newline_count(s))], errors: Seq::empty() }),
{
    assert(s.take(0) =~= Seq::<char>::empty());
    lemma_whitespace_from(s, 0, 1);
    assert(s.take(s.len() as int) =~= s);
}

proof fn lemma_whitespace_from(s: Seq<char>, pos: nat, line: nat)
    requires
        pos <= s.len(),
        line == 1 + newlines_before(s, pos),
        forall|i: int| pos <= i < s.len() ==> is_whitespace(#[trigger] s[i]),
    ensures
        scan_from(s, pos, line) == (Scan {
            tokens: seq![eof_token(s, 1 + newlines_before(s, s.len()))],
            errors: Seq::empty(),
        }),
    decreases s.len() - pos,
{
    if pos < s.len() {
        let st = step(s, pos, line);
        lemma_step_keeps_line_count(s, pos, line);
        lemma_whitespace_from(s, st.next, st.line);
        let rest = scan_from(s, st.next, st.line);
        assert(seq_of(st.token) + rest.tokens =~= rest.tokens);
        assert(seq_of(st.error) + rest.errors =~= rest.errors);
    }
}

/// A line comment, `//` and then text without a newline up to a newline or
/// the end of the input, emits nothing, records nothing and leaves the line
/// counter as it was: scanning resumes at the newline.
pub proof fn lemma_comment_skipped(
    before: Seq<char>,
    body: Seq<char>,
    after: Seq<char>,
    line: nat,
)
    requires
        forall|i: int| 0 <= i < body.len() ==> #[trigger] body[i] != '\n',
        after.len() == 0 || after[0] == '\n',
    ensures
        ({
            let s = before + seq!['/', '/'] + body + after;
            scan_from(s, before.len(), line) == scan_from(
                s,
                before.len() + 2 + body.len(),
                line,
            )
        }),
{
    let s = before + seq!['/', '/'] + body + after;
    let start = before.len() + 2;
    assert(s[before.len() as int] == '/');
    assert(s[before.len() + 1int] == '/');
    assert forall|k: nat| start <= k <= start + body.len() implies line_end(s, k) == start
        + body.len() by {
        lemma_line_end_of_body(s, body, after, start, k);
    }
    crate::model::lemma_line_end_bounds(s, start);
}

proof fn lemma_line_end_of_body(s: Seq<char>, body: Seq<char>, after: Seq<char>, start: nat, k: nat)
    requires
        start + body.len() + after.len() == s.len(),
        forall|i: int| 0 <= i < body.len() ==> s[start + i] == body[i],
        forall|i: int| 0 <= i < after.len() ==> s[start + body.len() + i] == after[i],
        forall|i: int| 0 <= i < body.len() ==> #[trigger] body[i] != '\n',
        after.len() == 0 || after[0] == '\n',
        start <= k <= start + body.len(),
    ensures
        line_end(s, k) == start + body.len(),
    decreases start + body.len() - k,
{
    if k < start + body.len() {
        assert(s[k as int] == body[k - start]);
        lemma_line_end_of_body(s, body, after, start, k + 1);
    } else if after.len() > 0 {
        assert(s[k as int] == after[0]);
    }
}

} // verus!
