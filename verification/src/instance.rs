//! The text form of a 3-SAT instance: one clause per line, three signed
//! literals on a line.
//!
//! A text is cut into lines at each line feed; a line feed at the very end
//! starts no further line. A line is cut into tokens, the maximal runs of
//! bytes that are not white space. A token is a literal where it is an
//! optional sign followed by decimal digits whose value fits 32 signed bits.

use vstd::prelude::*;
use vstd::slice::slice_subrange;

verus! {

/// Why an instance was refused.
#[derive(Debug, Copy, Clone, PartialEq, Eq, Structural)]
pub enum InstanceError {
    /// The line with this index, counted from zero, is not three literals.
    MalformedLine { line: usize },
    /// The clause with this index, counted from zero, holds the literal zero
    /// or a variable beyond the dimension.
    LiteralOutOfDimension { clause: usize },
}

/// The byte that ends a line.
pub const LINE_FEED: u8 = 10;

/// The sign of a negative literal.
pub const MINUS: u8 = 45;

/// The sign that a positive literal may bear.
pub const PLUS: u8 = 43;

/// The digit nought.
pub const DIGIT_ZERO: u8 = 48;

/// The digit nine.
pub const DIGIT_NINE: u8 = 57;

/// White space within a line: tab, vertical tab, form feed, carriage return
/// and space.
pub open spec fn is_space(b: u8) -> bool {
    b == 9 || b == 11 || b == 12 || b == 13 || b == 32
}

/// A decimal digit.
pub open spec fn is_digit(b: u8) -> bool {
    DIGIT_ZERO <= b <= DIGIT_NINE
}

/// The number of bytes before the first line feed, or all of them.
pub open spec fn line_len(text: Seq<u8>) -> nat
    decreases text.len(),
{
    if text.len() == 0 || text[0] == LINE_FEED {
        0
    } else {
        1 + line_len(text.skip(1))
    }
}

/// The lines of a text, without their line feeds.
pub open spec fn lines(text: Seq<u8>) -> Seq<Seq<u8>>
    decreases text.len(),
{
    if text.len() == 0 {
        Seq::empty()
    } else {
        let n = line_len(text) as int;
        let rest = if n < text.len() {
            text.skip(n + 1)
        } else {
            Seq::empty()
        };
        seq![text.take(n)] + lines(rest)
    }
}

/// The number of bytes before the first white space, or all of them.
pub open spec fn token_len(line: Seq<u8>) -> nat
    decreases line.len(),
{
    if line.len() == 0 || is_space(line[0]) {
        0
    } else {
        1 + token_len(line.skip(1))
    }
}

/// A token is no longer than the line that it begins.
pub proof fn lemma_token_len_at_most_len(line: Seq<u8>)
    ensures
        token_len(line) <= line.len(),
    decreases line.len(),
{
    if line.len() > 0 && !is_space(line[0]) {
        lemma_token_len_at_most_len(line.skip(1));
    }
}

/// The tokens of a line, in order.
pub open spec fn tokens(line: Seq<u8>) -> Seq<Seq<u8>>
    decreases line.len(),
    via tokens_decreases
{
    if line.len() == 0 {
        Seq::empty()
    } else if is_space(line[0]) {
        tokens(line.skip(1))
    } else {
        let n = token_len(line) as int;
        seq![line.take(n)] + tokens(line.skip(n))
    }
}

#[via_fn]
proof fn tokens_decreases(line: Seq<u8>) {
    lemma_token_len_at_most_len(line);
}

/// Every byte is a decimal digit.
pub open spec fn all_digits(s: Seq<u8>) -> bool {
    forall|i: int| 0 <= i < s.len() ==> is_digit(#[trigger] s[i])
}

/// The value of a digit; zero for any other byte.
pub open spec fn digit_value(b: u8) -> nat {
    if is_digit(b) {
        (b - DIGIT_ZERO) as nat
    } else {
        0
    }
}

/// The number that a run of digits writes in base ten.
pub open spec fn decimal(digits: Seq<u8>) -> nat
    decreases digits.len(),
{
    if digits.len() == 0 {
        0
    } else {
        decimal(digits.drop_last()) * 10 + digit_value(digits.last())
    }
}

/// Whether the token begins with a sign.
pub open spec fn has_sign(token: Seq<u8>) -> bool {
    token.len() > 0 && (token[0] == MINUS || token[0] == PLUS)
}

/// The digits of a token: all of it but a leading sign.
pub open spec fn digits_of(token: Seq<u8>) -> Seq<u8> {
    if has_sign(token) {
        token.skip(1)
    } else {
        token
    }
}

/// The integer that a token writes, whether or not it is a literal.
pub open spec fn token_value(token: Seq<u8>) -> int {
    if token.len() > 0 && token[0] == MINUS {
        -(decimal(digits_of(token)) as int)
    } else {
        decimal(digits_of(token)) as int
    }
}

/// The literal that a token writes, if it writes one.
pub open spec fn literal_of(token: Seq<u8>) -> Option<i32> {
    if digits_of(token).len() > 0 && all_digits(digits_of(token)) && i32::MIN <= token_value(token)
        <= i32::MAX {
        Some(token_value(token) as i32)
    } else {
        None
    }
}

/// The clause that a line writes, if it writes one: the line has exactly
/// three tokens and each is a literal.
pub open spec fn clause_of_line(line: Seq<u8>) -> Option<(i32, i32, i32)> {
    let t = tokens(line);
    if t.len() == 3 && literal_of(t[0]).is_some() && literal_of(t[1]).is_some() && literal_of(
        t[2],
    ).is_some() {
        Some((literal_of(t[0]).unwrap(), literal_of(t[1]).unwrap(), literal_of(t[2]).unwrap()))
    } else {
        None
    }
}

/// Every line writes a clause.
pub open spec fn all_lines_are_clauses(text: Seq<u8>) -> bool {
    forall|i: int| 0 <= i < lines(text).len() ==> clause_of_line(#[trigger] lines(text)[i]).is_some()
}

/// The line with index `k` is the first that writes no clause.
pub open spec fn is_first_malformed(text: Seq<u8>, k: int) -> bool {
    &&& 0 <= k < lines(text).len()
    &&& clause_of_line(lines(text)[k]).is_none()
    &&& forall|j: int| 0 <= j < k ==> clause_of_line(#[trigger] lines(text)[j]).is_some()
}

/// The instance that a text writes when every line is a clause.
pub open spec fn instance_of(text: Seq<u8>) -> Seq<(i32, i32, i32)> {
    Seq::new(lines(text).len(), |i: int| clause_of_line(lines(text)[i]).unwrap())
}

/// A run of digits writes at least what any of its beginnings writes.
pub proof fn lemma_decimal_of_prefix(digits: Seq<u8>, k: int)
    requires
        0 <= k <= digits.len(),
    ensures
        decimal(digits.take(k)) <= decimal(digits),
    decreases digits.len() - k,
{
    if k == digits.len() {
        assert(digits.take(k) =~= digits);
    } else {
        assert(digits.drop_last().take(k) =~= digits.take(k));
        lemma_decimal_of_prefix(digits.drop_last(), k);
    }
}

/// Reads a literal from a token: an optional sign, then decimal digits whose
/// value fits 32 signed bits.
pub fn parse_literal(token: &[u8]) -> (r: Option<i32>)
    ensures
        r == literal_of(token@),
{
    let n: usize = token.len();
    if n == 0 {
        return None;
    }
    let first: u8 = token[0];
    let negative: bool = first == MINUS;
    let start: usize = if first == MINUS || first == PLUS {
        1
    } else {
        0
    };
    let ghost digits = digits_of(token@);
    if start == n {
        return None;
    }
    let mut acc: i64 = 0;
    let mut i: usize = start;
    while i < n
        invariant
            start <= i <= n,
            n == token@.len(),
            digits == token@.skip(start as int),
            digits == digits_of(token@),
            negative == (token@[0] == MINUS),
            all_digits(digits.take(i - start)),
            acc == decimal(digits.take(i - start)),
            0 <= acc <= 2147483648,
        decreases n - i,
    {
        let d: u8 = token[i];
        let ghost upto = digits.take(i + 1 - start);
        assert(upto.drop_last() =~= digits.take(i - start));
        if d < DIGIT_ZERO || d > DIGIT_NINE {
            assert(!is_digit(digits[i - start]));
            return None;
        }
        let next: i64 = acc * 10 + ((d - DIGIT_ZERO) as i64);
        if next > 2147483648 {
            proof {
                lemma_decimal_of_prefix(digits, i + 1 - start);
            }
            return None;
        }
        assert forall|j: int| 0 <= j < upto.len() implies is_digit(#[trigger] upto[j]) by {
            if j < i - start {
                assert(upto[j] == digits.take(i - start)[j]);
            }
        }
        acc = next;
        i = i + 1;
    }
    assert(digits.take(n - start) =~= digits);
    let value: i64 = if negative {
        -acc
    } else {
        acc
    };
    if value > 2147483647 {
        None
    } else {
        Some(value as i32)
    }
}

/// Whether a byte is white space within a line.
pub fn is_blank(b: u8) -> (r: bool)
    ensures
        r == is_space(b),
{
    b == 9 || b == 11 || b == 12 || b == 13 || b == 32
}

/// Finds the next token of the line at or after `pos`: its first byte and
/// the byte after its last, or `None` where only white space is left.
fn next_token(line: &[u8], pos: usize) -> (r: Option<(usize, usize)>)
    requires
        pos <= line@.len(),
    ensures
        match r {
            None => tokens(line@.skip(pos as int)).len() == 0,
            Some((from, to)) => {
                &&& pos <= from < to <= line@.len()
                &&& tokens(line@.skip(pos as int)) == seq![line@.subrange(from as int, to as int)]
                    + tokens(line@.skip(to as int))
            },
        },
{
    let n: usize = line.len();
    let mut from: usize = pos;
    while from < n && is_blank(line[from])
        invariant
            pos <= from <= n,
            n == line@.len(),
            tokens(line@.skip(pos as int)) == tokens(line@.skip(from as int)),
        decreases n - from,
    {
        assert(line@.skip(from as int).skip(1) =~= line@.skip(from + 1));
        from = from + 1;
    }
    if from == n {
        return None;
    }
    let mut to: usize = from;
    while to < n && !is_blank(line[to])
        invariant
            from <= to <= n,
            n == line@.len(),
            token_len(line@.skip(from as int)) == (to - from) + token_len(line@.skip(to as int)),
        decreases n - to,
    {
        assert(line@.skip(to as int).skip(1) =~= line@.skip(to + 1));
        to = to + 1;
    }
    proof {
        let tail = line@.skip(from as int);
        assert(tail.take(to - from) =~= line@.subrange(from as int, to as int));
        assert(tail.skip(to - from) =~= line@.skip(to as int));
    }
    Some((from, to))
}

/// Reads a clause from a line: exactly three tokens, each a literal.
pub fn parse_clause(line: &[u8]) -> (r: Option<(i32, i32, i32)>)
    ensures
        r == clause_of_line(line@),
{
    assert(line@.skip(0) =~= line@);
    let (from_a, to_a) = match next_token(line, 0) {
        Some(span) => span,
        None => {
            return None;
        },
    };
    let a: i32 = match parse_literal(slice_subrange(line, from_a, to_a)) {
        Some(literal) => literal,
        None => {
            return None;
        },
    };
    let (from_b, to_b) = match next_token(line, to_a) {
        Some(span) => span,
        None => {
            return None;
        },
    };
    let b: i32 = match parse_literal(slice_subrange(line, from_b, to_b)) {
        Some(literal) => literal,
        None => {
            return None;
        },
    };
    let (from_c, to_c) = match next_token(line, to_b) {
        Some(span) => span,
        None => {
            return None;
        },
    };
    let c: i32 = match parse_literal(slice_subrange(line, from_c, to_c)) {
        Some(literal) => literal,
        None => {
            return None;
        },
    };
    match next_token(line, to_c) {
        Some(_) => None,
        None => Some((a, b, c)),
    }
}

/// Reads an instance from its text, one clause from each line.
///
/// Where a line is not three literals the text is refused, with the index of
/// the first such line.
pub fn load_instance(text: &[u8]) -> (r: Result<Vec<(i32, i32, i32)>, InstanceError>)
    ensures
        match r {
            Ok(problem) => all_lines_are_clauses(text@) && problem@ == instance_of(text@),
            Err(InstanceError::MalformedLine { line }) => is_first_malformed(text@, line as int),
            Err(InstanceError::LiteralOutOfDimension { .. }) => false,
        },
{
    let n: usize = text.len();
    let mut problem: Vec<(i32, i32, i32)> = Vec::new();
    let ghost mut done: Seq<Seq<u8>> = Seq::empty();
    let mut start: usize = 0;
    assert(text@.skip(0) =~= text@);
    while start < n
        invariant
            start <= n,
            n == text@.len(),
            lines(text@) == done + lines(text@.skip(start as int)),
            done.len() == problem@.len(),
            problem@.len() <= start,
            forall|j: int| 0 <= j < done.len() ==> clause_of_line(#[trigger] done[j]) == Some(problem@[j]),
        decreases n - start,
    {
        let mut end: usize = start;
        while end < n && text[end] != LINE_FEED
            invariant
                start <= end <= n,
                n == text@.len(),
                line_len(text@.skip(start as int)) == (end - start) + line_len(text@.skip(end as int)),
            decreases n - end,
        {
            assert(text@.skip(end as int).skip(1) =~= text@.skip(end + 1));
            end = end + 1;
        }
        let line = slice_subrange(text, start, end);
        let next: usize = if end < n {
            end + 1
        } else {
            n
        };
        proof {
            let tail = text@.skip(start as int);
            assert(tail.take(end - start) =~= line@);
            if end < n {
                assert(tail.skip(end - start + 1) =~= text@.skip(next as int));
            } else {
                assert(text@.skip(next as int) =~= Seq::<u8>::empty());
            }
        }
        match parse_clause(line) {
            Some(clause) => {
                problem.push(clause);
                proof {
                    done = done.push(line@);
                }
            },
            None => {
                assert forall|j: int| 0 <= j < done.len() implies clause_of_line(
                    #[trigger] lines(text@)[j],
                ).is_some() by {
                    assert(lines(text@)[j] == done[j]);
                }
                return Err(InstanceError::MalformedLine { line: problem.len() });
            },
        }
        start = next;
    }
    proof {
        assert(lines(text@) =~= done);
        assert(problem@ =~= instance_of(text@));
    }
    Ok(problem)
}

} // verus!
