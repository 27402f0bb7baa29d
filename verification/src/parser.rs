//! Reading expressions from text by recursive descent.
//!
//! The grammar, lowest precedence first: sums and differences, then
//! products and quotients, then exponentiation (whose right side is a
//! single primary), then primaries -- numeric literals with an optional
//! decimal point, parenthesized expressions, the recognized function
//! names, the literal `e` (Euler's number, unless followed by `^`, which
//! reads as `exp(...)`), and identifiers as variables.  Parse failures are
//! descriptive strings; the reader stops at the first character no rule
//! consumes and leaves it unread.

use vstd::prelude::*;
use vstd::string::{StrSliceExecFns, StringExecFns};
use crate::expression::{Expression, ExprView, wf_expr, str_eq};
use crate::num::{Num, NumUnit, spec_norm};

verus! {

/// An ASCII whitespace character.
pub open spec fn is_ws(c: char) -> bool {
    c == ' ' || c == '\t' || c == '\n' || c == '\r'
}

/// An ASCII letter or digit.
pub open spec fn is_alnum(c: char) -> bool {
    ('a' <= c && c <= 'z') || ('A' <= c && c <= 'Z') || ('0' <= c && c <= '9')
}

/// The first position at or after `pos` that does not hold whitespace.
pub open spec fn spec_skip_ws(s: Seq<char>, pos: int) -> int
    decreases s.len() - pos,
{
    if 0 <= pos < s.len() && is_ws(s[pos]) {
        spec_skip_ws(s, pos + 1)
    } else {
        pos
    }
}

/// Whether the character at `i` is whitespace.
fn ws_at(s: &str, i: usize) -> (r: bool)
    requires
        i < s@.len(),
    ensures
        r == is_ws(s@[i as int]),
{
    let c = s.get_char(i);
    c == ' ' || c == '\t' || c == '\n' || c == '\r'
}

/// Whether the character at `i` is a letter or digit.
fn alnum_at(s: &str, i: usize) -> (r: bool)
    requires
        i < s@.len(),
    ensures
        r == is_alnum(s@[i as int]),
{
    let c = s.get_char(i);
    ('a' <= c && c <= 'z') || ('A' <= c && c <= 'Z') || ('0' <= c && c <= '9')
}


/// `spec_skip_ws` stays within the text and never moves backward.
pub proof fn lemma_skip_ws_bounds(s: Seq<char>, pos: int)
    requires
        0 <= pos <= s.len(),
    ensures
        pos <= spec_skip_ws(s, pos) <= s.len(),
    decreases s.len() - pos,
{
    if pos < s.len() && is_ws(s[pos]) {
        lemma_skip_ws_bounds(s, pos + 1);
    }
}

/// A decimal digit.
pub open spec fn is_digit(c: char) -> bool {
    '0' <= c && c <= '9'
}

/// A character of a numeric literal: a digit or the decimal point.
pub open spec fn is_numchar(c: char) -> bool {
    is_digit(c) || c == '.'
}

/// The first position at or after `pos` that does not hold a letter or
/// digit.
pub open spec fn spec_scan_alnum(s: Seq<char>, pos: int) -> int
    decreases s.len() - pos,
{
    if 0 <= pos < s.len() && is_alnum(s[pos]) {
        spec_scan_alnum(s, pos + 1)
    } else {
        pos
    }
}

/// The alphanumeric scan stays within the text and never moves backward.
pub proof fn lemma_scan_alnum_bounds(s: Seq<char>, pos: int)
    requires
        0 <= pos <= s.len(),
    ensures
        pos <= spec_scan_alnum(s, pos) <= s.len(),
    decreases s.len() - pos,
{
    if pos < s.len() && is_alnum(s[pos]) {
        lemma_scan_alnum_bounds(s, pos + 1);
    }
}

/// The alphanumeric scan end is pinned by its characterization: letters
/// and digits up to `p`, and none at `p`.
pub proof fn lemma_scan_alnum_char(s: Seq<char>, pos: int, p: int)
    requires
        0 <= pos <= p <= s.len(),
        forall|j: int| pos <= j < p ==> is_alnum(#[trigger] s[j]),
        p == s.len() || !is_alnum(s[p]),
    ensures
        spec_scan_alnum(s, pos) == p,
    decreases p - pos,
{
    if pos < p {
        lemma_scan_alnum_char(s, pos + 1, p);
    }
}

/// The first position at or after `pos` that does not hold a character of
/// a numeric literal.
pub open spec fn spec_num_end(s: Seq<char>, pos: int) -> int
    decreases s.len() - pos,
{
    if 0 <= pos < s.len() && is_numchar(s[pos]) {
        spec_num_end(s, pos + 1)
    } else {
        pos
    }
}

/// The numeric scan stays within the text and never moves backward.
pub proof fn lemma_num_end_bounds(s: Seq<char>, pos: int)
    requires
        0 <= pos <= s.len(),
    ensures
        pos <= spec_num_end(s, pos) <= s.len(),
    decreases s.len() - pos,
{
    if pos < s.len() && is_numchar(s[pos]) {
        lemma_num_end_bounds(s, pos + 1);
    }
}

/// The numeric scan end is pinned by its characterization.
pub proof fn lemma_num_end_char(s: Seq<char>, pos: int, p: int)
    requires
        0 <= pos <= p <= s.len(),
        forall|j: int| pos <= j < p ==> is_numchar(#[trigger] s[j]),
        p == s.len() || !is_numchar(s[p]),
    ensures
        spec_num_end(s, pos) == p,
    decreases p - pos,
{
    if pos < p {
        lemma_num_end_char(s, pos + 1, p);
    }
}

/// The running state of the numeric-literal accumulator: the integer part,
/// the fraction's digits and its power-of-ten denominator, whether a point
/// and a digit have been seen, and whether everything so far fit in a
/// machine word with at most one point.
#[verifier::ext_equal]
pub struct NumScan {
    pub int_part: int,
    pub frac_num: int,
    pub frac_den: int,
    pub seen_dot: bool,
    pub seen_digit: bool,
    pub ok: bool,
}

/// The accumulator before any character.
pub open spec fn spec_num_init() -> NumScan {
    NumScan {
        int_part: 0,
        frac_num: 0,
        frac_den: 1,
        seen_dot: false,
        seen_digit: false,
        ok: true,
    }
}

/// One character of a numeric literal folded into the accumulator.
pub open spec fn spec_num_step(st: NumScan, c: char) -> NumScan {
    if c == '.' {
        NumScan {
            int_part: st.int_part,
            frac_num: st.frac_num,
            frac_den: st.frac_den,
            seen_dot: true,
            seen_digit: st.seen_digit,
            ok: st.ok && !st.seen_dot,
        }
    } else {
        let d = (c as u32) - 48;
        if !st.seen_dot {
            if st.int_part * 10 + d <= u64::MAX {
                NumScan {
                    int_part: st.int_part * 10 + d,
                    frac_num: st.frac_num,
                    frac_den: st.frac_den,
                    seen_dot: st.seen_dot,
                    seen_digit: true,
                    ok: st.ok,
                }
            } else {
                NumScan {
                    int_part: st.int_part,
                    frac_num: st.frac_num,
                    frac_den: st.frac_den,
                    seen_dot: st.seen_dot,
                    seen_digit: true,
                    ok: false,
                }
            }
        } else {
            if st.frac_den * 10 <= u64::MAX && st.frac_num * 10 + d <= u64::MAX {
                NumScan {
                    int_part: st.int_part,
                    frac_num: st.frac_num * 10 + d,
                    frac_den: st.frac_den * 10,
                    seen_dot: st.seen_dot,
                    seen_digit: true,
                    ok: st.ok,
                }
            } else {
                NumScan {
                    int_part: st.int_part,
                    frac_num: st.frac_num,
                    frac_den: st.frac_den,
                    seen_dot: st.seen_dot,
                    seen_digit: true,
                    ok: false,
                }
            }
        }
    }
}

/// The characters of `s` from `pos` up to `end` folded into `st`.
pub open spec fn spec_num_scan(s: Seq<char>, pos: int, end: int, st: NumScan) -> NumScan
    decreases end - pos,
{
    if pos < end {
        spec_num_scan(s, pos + 1, end, spec_num_step(st, s[pos]))
    } else {
        st
    }
}

/// Extending a numeric fold by one character steps the folded state once.
pub proof fn lemma_num_scan_snoc(s: Seq<char>, a: int, p: int, st: NumScan)
    requires
        a <= p,
    ensures
        spec_num_scan(s, a, p + 1, st) == spec_num_step(spec_num_scan(s, a, p, st), s[p]),
    decreases p - a,
{
    reveal_with_fuel(spec_num_scan, 3);
    if a < p {
        lemma_num_scan_snoc(s, a + 1, p, spec_num_step(st, s[a]));
    }
}

/// The message for a numeric literal that cannot be read.
pub open spec fn spec_invalid_number_msg(s: Seq<char>, pos: int) -> Seq<char> {
    "Invalid number: "@ + s.subrange(pos, spec_num_end(s, pos))
}

/// The parse of a numeric literal at `pos`: the maximal run of digits and
/// points read as the exact fraction `(int_part * 10^k + frac) / 10^k`.
/// An error exactly when the run has no digit, more than one point, or a
/// part that does not fit exact constants.
pub open spec fn spec_parse_number(s: Seq<char>, pos: int) -> Result<(ExprView, int), Seq<char>> {
    let end = spec_num_end(s, pos);
    let st = spec_num_scan(s, pos, end, spec_num_init());
    if !st.ok || !st.seen_digit {
        Err(spec_invalid_number_msg(s, pos))
    } else {
        let numerator = st.int_part * st.frac_den + st.frac_num;
        if numerator > i64::MAX || st.frac_den > i64::MAX {
            Err(spec_invalid_number_msg(s, pos))
        } else {
            match spec_norm(numerator, st.frac_den, NumUnit::One) {
                Some(v) => Ok((ExprView::Constant(v), end)),
                None => Err(spec_invalid_number_msg(s, pos)),
            }
        }
    }
}

/// The message `expect_char` reports when `expected` does not stand at the
/// first non-whitespace position.
pub open spec fn spec_expect_msg(s: Seq<char>, pos: int, expected: char) -> Seq<char> {
    let q = spec_skip_ws(s, pos);
    if q < s.len() {
        "Expected '"@ + seq![expected] + "', found '"@ + seq![s[q]] + "'"@
    } else {
        "Expected '"@ + seq![expected] + "', found end of input"@
    }
}


/// Closing a parenthesized group: whitespace, then `)`.
pub open spec fn spec_close_paren(s: Seq<char>, e: ExprView, p: int) -> Result<
    (ExprView, int),
    Seq<char>,
> {
    let q = spec_skip_ws(s, p);
    if q < s.len() && s[q] == ')' {
        Ok((e, q + 1))
    } else {
        Err(spec_expect_msg(s, p, ')'))
    }
}

/// Whether `name` is one of the recognized function names.
pub open spec fn spec_is_func_name(name: Seq<char>) -> bool {
    ||| name == "sin"@
    ||| name == "cos"@
    ||| name == "tan"@
    ||| name == "arcsin"@
    ||| name == "arccos"@
    ||| name == "arctan"@
    ||| name == "ln"@
    ||| name == "exp"@
    ||| name == "sinh"@
    ||| name == "cosh"@
    ||| name == "tanh"@
}

/// The function node a recognized name builds around its argument.
pub open spec fn spec_apply_func(name: Seq<char>, a: ExprView) -> ExprView {
    if name == "sin"@ {
        ExprView::Sin(Box::new(a))
    } else if name == "cos"@ {
        ExprView::Cos(Box::new(a))
    } else if name == "tan"@ {
        ExprView::Tan(Box::new(a))
    } else if name == "arcsin"@ {
        ExprView::Arcsin(Box::new(a))
    } else if name == "arccos"@ {
        ExprView::Arccos(Box::new(a))
    } else if name == "arctan"@ {
        ExprView::Arctan(Box::new(a))
    } else if name == "ln"@ {
        ExprView::Ln(Box::new(a))
    } else if name == "exp"@ {
        ExprView::Exp(Box::new(a))
    } else if name == "sinh"@ {
        ExprView::Sinh(Box::new(a))
    } else if name == "cosh"@ {
        ExprView::Cosh(Box::new(a))
    } else {
        ExprView::Tanh(Box::new(a))
    }
}

/// The parse of a primary at `pos`: a numeric literal, a parenthesized
/// expression, a recognized function applied to a parenthesized argument,
/// Euler's number (`e`, or `e^u` as `exp(u)` when `^` follows at once), or
/// a variable.  An error, with its message, exactly where no rule applies.
pub open spec fn spec_parse_primary(s: Seq<char>, pos: int) -> Result<(ExprView, int), Seq<char>>
    decreases s.len() - pos, 2int,
{
    let q = spec_skip_ws(s, pos);
    if !(pos <= q <= s.len()) {
        Err(""@)
    } else if q == s.len() {
        Err("Unexpected end of input"@)
    } else {
        let c = s[q];
        if is_digit(c) {
            spec_parse_number(s, q)
        } else if c == '(' {
            match spec_parse_expression(s, q + 1) {
                Ok((e, p)) => spec_close_paren(s, e, p),
                Err(m) => Err(m),
            }
        } else if ('a' <= c && c <= 'z') || ('A' <= c && c <= 'Z') {
            let end = spec_scan_alnum(s, q);
            if !(q < end <= s.len()) {
                Err(""@)
            } else {
                let name = s.subrange(q, end);
                if spec_is_func_name(name) {
                    match spec_parse_fnarg(s, end) {
                        Ok((a, p)) => Ok((spec_apply_func(name, a), p)),
                        Err(m) => Err(m),
                    }
                } else if name == "e"@ {
                    if end < s.len() && s[end] == '^' {
                        match spec_parse_primary(s, end + 1) {
                            Ok((u, p)) => Ok((ExprView::Exp(Box::new(u)), p)),
                            Err(m) => Err(m),
                        }
                    } else {
                        Ok((
                            ExprView::Constant(Num { num: 1, den: 1, unit: NumUnit::Euler }),
                            end,
                        ))
                    }
                } else {
                    Ok((ExprView::Variable(name), end))
                }
            }
        } else {
            Err("Unexpected character: "@ + seq![c])
        }
    }
}

/// The parenthesized argument of a recognized function name.
pub open spec fn spec_parse_fnarg(s: Seq<char>, pos: int) -> Result<(ExprView, int), Seq<char>>
    decreases s.len() - pos, 1int,
{
    let q = spec_skip_ws(s, pos);
    if !(pos <= q < s.len()) {
        Err("Expected '(' after function name"@)
    } else if s[q] == '(' {
        match spec_parse_expression(s, q + 1) {
            Ok((e, p)) => spec_close_paren(s, e, p),
            Err(m) => Err(m),
        }
    } else {
        Err("Expected '(' after function name"@)
    }
}

/// Exponentiations continuing a parsed primary; `^` binds each right side
/// as a single primary, associating to the left.
pub open spec fn spec_power_rest(s: Seq<char>, pos: int, left: ExprView) -> Result<
    (ExprView, int),
    Seq<char>,
>
    decreases s.len() - pos, 3int,
{
    let q = spec_skip_ws(s, pos);
    if !(pos <= q <= s.len()) {
        Err(""@)
    } else if q < s.len() && s[q] == '^' {
        match spec_parse_primary(s, q + 1) {
            Ok((r, p2)) => if q + 1 <= p2 <= s.len() {
                spec_power_rest(s, p2, ExprView::Power(Box::new(left), Box::new(r)))
            } else {
                Err(""@)
            },
            Err(m) => Err(m),
        }
    } else {
        Ok((left, q))
    }
}

/// The parse of the exponentiation level at `pos`.
pub open spec fn spec_parse_power(s: Seq<char>, pos: int) -> Result<(ExprView, int), Seq<char>>
    decreases s.len() - pos, 4int,
{
    match spec_parse_primary(s, pos) {
        Ok((e, p)) => if pos <= p <= s.len() {
            spec_power_rest(s, p, e)
        } else {
            Err(""@)
        },
        Err(m) => Err(m),
    }
}

/// Products and quotients continuing a parsed operand, left-associative.
pub open spec fn spec_mul_div_rest(s: Seq<char>, pos: int, left: ExprView) -> Result<
    (ExprView, int),
    Seq<char>,
>
    decreases s.len() - pos, 5int,
{
    let q = spec_skip_ws(s, pos);
    if !(pos <= q <= s.len()) {
        Err(""@)
    } else if q < s.len() && s[q] == '*' {
        match spec_parse_power(s, q + 1) {
            Ok((r, p2)) => if q + 1 <= p2 <= s.len() {
                spec_mul_div_rest(s, p2, ExprView::Multiply(Box::new(left), Box::new(r)))
            } else {
                Err(""@)
            },
            Err(m) => Err(m),
        }
    } else if q < s.len() && s[q] == '/' {
        match spec_parse_power(s, q + 1) {
            Ok((r, p2)) => if q + 1 <= p2 <= s.len() {
                spec_mul_div_rest(s, p2, ExprView::Divide(Box::new(left), Box::new(r)))
            } else {
                Err(""@)
            },
            Err(m) => Err(m),
        }
    } else {
        Ok((left, q))
    }
}

/// The parse of the multiplicative level at `pos`.
pub open spec fn spec_parse_mul_div(s: Seq<char>, pos: int) -> Result<(ExprView, int), Seq<char>>
    decreases s.len() - pos, 6int,
{
    match spec_parse_power(s, pos) {
        Ok((e, p)) => if pos <= p <= s.len() {
            spec_mul_div_rest(s, p, e)
        } else {
            Err(""@)
        },
        Err(m) => Err(m),
    }
}

/// Sums and differences continuing a parsed operand, left-associative.
pub open spec fn spec_add_sub_rest(s: Seq<char>, pos: int, left: ExprView) -> Result<
    (ExprView, int),
    Seq<char>,
>
    decreases s.len() - pos, 7int,
{
    let q = spec_skip_ws(s, pos);
    if !(pos <= q <= s.len()) {
        Err(""@)
    } else if q < s.len() && s[q] == '+' {
        match spec_parse_mul_div(s, q + 1) {
            Ok((r, p2)) => if q + 1 <= p2 <= s.len() {
                spec_add_sub_rest(s, p2, ExprView::Add(Box::new(left), Box::new(r)))
            } else {
                Err(""@)
            },
            Err(m) => Err(m),
        }
    } else if q < s.len() && s[q] == '-' {
        match spec_parse_mul_div(s, q + 1) {
            Ok((r, p2)) => if q + 1 <= p2 <= s.len() {
                spec_add_sub_rest(s, p2, ExprView::Subtract(Box::new(left), Box::new(r)))
            } else {
                Err(""@)
            },
            Err(m) => Err(m),
        }
    } else {
        Ok((left, q))
    }
}

/// The parse of the additive level at `pos`.
pub open spec fn spec_parse_add_sub(s: Seq<char>, pos: int) -> Result<(ExprView, int), Seq<char>>
    decreases s.len() - pos, 8int,
{
    match spec_parse_mul_div(s, pos) {
        Ok((e, p)) => if pos <= p <= s.len() {
            spec_add_sub_rest(s, p, e)
        } else {
            Err(""@)
        },
        Err(m) => Err(m),
    }
}

/// A whole expression: the additive level, lowest in precedence.  Reading
/// stops at the first character no rule consumes; a trailing remainder is
/// left unread, not an error.
pub open spec fn spec_parse_expression(s: Seq<char>, pos: int) -> Result<(ExprView, int), Seq<char>>
    decreases s.len() - pos, 9int,
{
    spec_parse_add_sub(s, pos)
}

/// Relies on std's char::to_string: a single-character string.
#[verifier::external_body]
fn char_to_string(c: char) -> (s: String)
    ensures
        s@ == seq![c],
{
    c.to_string()
}

/// A cursor over the text of an expression.
pub struct ExpressionParser<'a> {
    input: &'a str,
    pos: usize,
}

impl<'a> ExpressionParser<'a> {
    /// The text being read.
    pub closed spec fn text(&self) -> Seq<char> {
        self.input@
    }

    /// How far the cursor has come.
    pub closed spec fn position(&self) -> int {
        self.pos as int
    }

    /// The cursor never leaves the text.
    pub open spec fn wf(&self) -> bool {
        0 <= self.position() <= self.text().len()
    }

    /// A cursor at the start of `input`.
    pub fn new(input: &'a str) -> (r: ExpressionParser<'a>)
        ensures
            r.text() == input@,
            r.position() == 0,
            r.wf(),
    {
        ExpressionParser { input, pos: 0 }
    }

    /// The character under the cursor, if any, without moving.
    pub fn peek(&self) -> (r: Option<char>)
        requires
            self.wf(),
        ensures
            self.position() < self.text().len() ==> r == Some(
                self.text()[self.position()],
            ),
            self.position() >= self.text().len() ==> r is None,
    {
        if self.pos < self.input.unicode_len() {
            Some(self.input.get_char(self.pos))
        } else {
            None
        }
    }

    /// Moves the cursor past any whitespace.
    pub fn skip_whitespace(&mut self)
        requires
            old(self).wf(),
        ensures
            final(self).text() == old(self).text(),
            final(self).position() == spec_skip_ws(old(self).text(), old(self).position()),
            final(self).position() >= old(self).position(),
            final(self).wf(),
    {
        let n = self.input.unicode_len();
        while self.pos < n && ws_at(self.input, self.pos)
            invariant
                self.wf(),
                n == self.text().len(),
                spec_skip_ws(self.text(), self.position()) == spec_skip_ws(
                    old(self).text(),
                    old(self).position(),
                ),
                self.text() == old(self).text(),
                self.position() >= old(self).position(),
            decreases n - self.pos,
        {
            self.pos = self.pos + 1;
        }
    }

    /// Demands that the next non-whitespace character is `expected`,
    /// consuming it; otherwise reports what stood there instead.
    pub fn expect_char(&mut self, expected: char) -> (r: Result<(), String>)
        requires
            old(self).wf(),
        ensures
            final(self).text() == old(self).text(),
            final(self).wf(),
            final(self).position() >= old(self).position(),
            ({
                let p = spec_skip_ws(old(self).text(), old(self).position());
                &&& (r is Ok <==> p < old(self).text().len() && old(self).text()[p]
                    == expected)
                &&& (r is Ok ==> final(self).position() == p + 1)
            }),
            r matches Err(m) ==> m@ == spec_expect_msg(
                old(self).text(),
                old(self).position(),
                expected,
            ),
    {
        self.skip_whitespace();
        if self.pos < self.input.unicode_len() {
            let c = self.input.get_char(self.pos);
            if c == expected {
                self.pos = self.pos + 1;
                Ok(())
            } else {
                let msg = String::from_str("Expected '").concat(
                    char_to_string(expected).as_str(),
                ).concat("', found '").concat(char_to_string(c).as_str()).concat("'");
                Err(msg)
            }
        } else {
            let msg = String::from_str("Expected '").concat(
                char_to_string(expected).as_str(),
            ).concat("', found end of input");
            Err(msg)
        }
    }

    /// Scans the maximal run of letters and digits under the cursor; an
    /// empty run is an error.
    pub fn parse_identifier(&mut self) -> (r: Result<String, String>)
        requires
            old(self).wf(),
        ensures
            final(self).text() == old(self).text(),
            final(self).wf(),
            final(self).position() >= old(self).position(),
            r matches Ok(name) ==> {
                &&& final(self).position() > old(self).position()
                &&& name@ == old(self).text().subrange(
                    old(self).position(),
                    final(self).position(),
                )
                &&& (final(self).position() == final(self).text().len() || !is_alnum(
                    final(self).text()[final(self).position()],
                ))
                &&& forall|j: int| old(self).position() <= j < final(self).position()
                    ==> is_alnum(#[trigger] final(self).text()[j])
            },
            r is Err <==> (old(self).position() == old(self).text().len() || !is_alnum(
                old(self).text()[old(self).position()],
            )),
    {
        let n = self.input.unicode_len();
        let mut name = String::new();
        let ghost start = self.position();
        while self.pos < n && alnum_at(self.input, self.pos)
            invariant
                self.wf(),
                n == self.text().len(),
                self.text() == old(self).text(),
                start == old(self).position(),
                start <= self.position(),
                name@ == self.text().subrange(start, self.position()),
                forall|j: int| start <= j < self.position() ==> is_alnum(
                    #[trigger] self.text()[j],
                ),
            decreases n - self.pos,
        {
            let c = self.input.get_char(self.pos);
            let ghost prev = name@;
            name.append(char_to_string(c).as_str());
            self.pos = self.pos + 1;
            proof {
                assert(name@ =~= self.text().subrange(start, self.position()));
            }
        }
        if self.pos == 0 || name.as_str().unicode_len() == 0 {
            proof {
                assert(name@.len() == 0);
            }
            Err(String::from_str("Expected identifier"))
        } else {
            Ok(name)
        }
    }
}


/// Whether the character at `i` is a decimal digit.
fn digit_at(s: &str, i: usize) -> (r: bool)
    requires
        i < s@.len(),
    ensures
        r == ('0' <= s@[i as int] && s@[i as int] <= '9'),
{
    let c = s.get_char(i);
    '0' <= c && c <= '9'
}

/// Whether the character at `i` is a decimal digit or a point.
fn numchar_at(s: &str, i: usize) -> (r: bool)
    requires
        i < s@.len(),
    ensures
        r == (('0' <= s@[i as int] && s@[i as int] <= '9') || s@[i as int] == '.'),
{
    let c = s.get_char(i);
    ('0' <= c && c <= '9') || c == '.'
}

impl<'a> ExpressionParser<'a> {
    /// Reads one expression, to the first character that no rule consumes.
    pub fn parse(&mut self) -> (r: Result<Expression, String>)
        requires
            old(self).wf(),
        ensures
            final(self).wf(),
            final(self).text() == old(self).text(),
            final(self).position() >= old(self).position(),
            r matches Ok(e) ==> spec_parse_expression(old(self).text(), old(self).position())
                == Ok::<(ExprView, int), Seq<char>>((e@, final(self).position())),
            r matches Err(m) ==> spec_parse_expression(old(self).text(), old(self).position()) == Err::<
                (ExprView, int),
                Seq<char>,
            >(m@),
            r matches Ok(e) ==> wf_expr(e@),
        decreases self.text().len() - self.position(), 5int,
    {
        self.parse_expression()
    }

    /// The whole grammar starts at the additive level.
    fn parse_expression(&mut self) -> (r: Result<Expression, String>)
        requires
            old(self).wf(),
        ensures
            final(self).wf(),
            final(self).text() == old(self).text(),
            final(self).position() >= old(self).position(),
            r matches Ok(e) ==> spec_parse_expression(old(self).text(), old(self).position())
                == Ok::<(ExprView, int), Seq<char>>((e@, final(self).position())),
            r matches Err(m) ==> spec_parse_expression(old(self).text(), old(self).position()) == Err::<
                (ExprView, int),
                Seq<char>,
            >(m@),
            r matches Ok(e) ==> wf_expr(e@),
        decreases self.text().len() - self.position(), 4int,
    {
        self.parse_add_sub()
    }

    /// Left-associative sums and differences.
    #[verifier::rlimit(100)]
    #[verifier::spinoff_prover]
    pub fn parse_add_sub(&mut self) -> (r: Result<Expression, String>)
        requires
            old(self).wf(),
        ensures
            final(self).wf(),
            final(self).text() == old(self).text(),
            final(self).position() >= old(self).position(),
            r matches Ok(e) ==> spec_parse_add_sub(old(self).text(), old(self).position())
                == Ok::<(ExprView, int), Seq<char>>((e@, final(self).position())),
            r matches Err(m) ==> spec_parse_add_sub(old(self).text(), old(self).position()) == Err::<(ExprView, int), Seq<char>>(m@),
            r matches Ok(e) ==> wf_expr(e@),
        decreases self.text().len() - self.position(), 3int,
    {
        let ghost s_txt = self.text();
        let ghost p0 = self.position();
        let mut left = match self.parse_mul_div() {
            Ok(e) => e,
            Err(m) => {
                proof {
                    reveal_with_fuel(spec_parse_add_sub, 2);
                    assert(spec_parse_add_sub(s_txt, p0) == Err::<(ExprView, int), Seq<char>>(m@));
                }
                return Err(m);
            }
        };
        proof {
            reveal_with_fuel(spec_parse_add_sub, 2);
            assert(spec_add_sub_rest(s_txt, self.position(), left@) == spec_parse_add_sub(s_txt, p0));
        }
        let n = self.input.unicode_len();
        let mut done = false;
        while !done
            invariant
                self.wf(),
                n == self.text().len(),
                self.text() == s_txt,
                s_txt == old(self).text(),
                p0 == old(self).position(),
                self.position() >= p0,
                wf_expr(left@),
                spec_add_sub_rest(s_txt, self.position(), left@) == spec_parse_add_sub(s_txt, p0),
                done ==> spec_add_sub_rest(s_txt, self.position(), left@) == Ok::<
                    (ExprView, int),
                    Seq<char>,
                >((left@, self.position())),
            decreases self.text().len() - self.position() + (if done { 0int } else { 1int }),
        {
            if self.pos < n && ws_at(self.input, self.pos) {
                proof {
                    lemma_skip_ws_bounds(s_txt, self.position() + 1);
                    assert(spec_add_sub_rest(s_txt, self.position() + 1, left@) == spec_add_sub_rest(
                        s_txt,
                        self.position(),
                        left@,
                    ));
                }
                self.pos = self.pos + 1;
            } else if self.pos < n && self.input.get_char(self.pos) == '+' {
                proof {
                    assert(spec_skip_ws(s_txt, self.position()) == self.position());
                }
                self.pos = self.pos + 1;
                let right = match self.parse_mul_div() {
                    Ok(e) => e,
                    Err(m) => {
                        proof {
                            reveal_with_fuel(spec_parse_add_sub, 2);
                            assert(spec_parse_add_sub(s_txt, p0) == Err::<(ExprView, int), Seq<char>>(m@));
                        }
                        return Err(m);
                    }
                };
                left = Expression::add(left, right);
                proof {
                    reveal_with_fuel(spec_add_sub_rest, 2);
                    assert(spec_add_sub_rest(s_txt, self.position(), left@) == spec_parse_add_sub(
                        s_txt,
                        p0,
                    ));
                }
            } else if self.pos < n && self.input.get_char(self.pos) == '-' {
                proof {
                    assert(spec_skip_ws(s_txt, self.position()) == self.position());
                }
                self.pos = self.pos + 1;
                let right = match self.parse_mul_div() {
                    Ok(e) => e,
                    Err(m) => {
                        proof {
                            reveal_with_fuel(spec_parse_add_sub, 2);
                            assert(spec_parse_add_sub(s_txt, p0) == Err::<(ExprView, int), Seq<char>>(m@));
                        }
                        return Err(m);
                    }
                };
                left = Expression::subtract(left, right);
                proof {
                    reveal_with_fuel(spec_add_sub_rest, 2);
                    assert(spec_add_sub_rest(s_txt, self.position(), left@) == spec_parse_add_sub(
                        s_txt,
                        p0,
                    ));
                }
            } else {
                proof {
                    assert(spec_skip_ws(s_txt, self.position()) == self.position());
                }
                done = true;
            }
        }
        Ok(left)
    }

    /// Left-associative products and quotients.
    #[verifier::rlimit(100)]
    #[verifier::spinoff_prover]
    pub fn parse_mul_div(&mut self) -> (r: Result<Expression, String>)
        requires
            old(self).wf(),
        ensures
            final(self).wf(),
            final(self).text() == old(self).text(),
            final(self).position() >= old(self).position(),
            r matches Ok(e) ==> spec_parse_mul_div(old(self).text(), old(self).position())
                == Ok::<(ExprView, int), Seq<char>>((e@, final(self).position())),
            r matches Err(m) ==> spec_parse_mul_div(old(self).text(), old(self).position()) == Err::<(ExprView, int), Seq<char>>(m@),
            r matches Ok(e) ==> wf_expr(e@),
        decreases self.text().len() - self.position(), 2int,
    {
        let ghost s_txt = self.text();
        let ghost p0 = self.position();
        let mut left = match self.parse_power() {
            Ok(e) => e,
            Err(m) => {
                proof {
                    reveal_with_fuel(spec_parse_mul_div, 2);
                    assert(spec_parse_mul_div(s_txt, p0) == Err::<(ExprView, int), Seq<char>>(m@));
                }
                return Err(m);
            }
        };
        proof {
            reveal_with_fuel(spec_parse_mul_div, 2);
            assert(spec_mul_div_rest(s_txt, self.position(), left@) == spec_parse_mul_div(s_txt, p0));
        }
        let n = self.input.unicode_len();
        let mut done = false;
        while !done
            invariant
                self.wf(),
                n == self.text().len(),
                self.text() == s_txt,
                s_txt == old(self).text(),
                p0 == old(self).position(),
                self.position() >= p0,
                wf_expr(left@),
                spec_mul_div_rest(s_txt, self.position(), left@) == spec_parse_mul_div(s_txt, p0),
                done ==> spec_mul_div_rest(s_txt, self.position(), left@) == Ok::<
                    (ExprView, int),
                    Seq<char>,
                >((left@, self.position())),
            decreases self.text().len() - self.position() + (if done { 0int } else { 1int }),
        {
            if self.pos < n && ws_at(self.input, self.pos) {
                proof {
                    lemma_skip_ws_bounds(s_txt, self.position() + 1);
                    assert(spec_mul_div_rest(s_txt, self.position() + 1, left@) == spec_mul_div_rest(
                        s_txt,
                        self.position(),
                        left@,
                    ));
                }
                self.pos = self.pos + 1;
            } else if self.pos < n && self.input.get_char(self.pos) == '*' {
                proof {
                    assert(spec_skip_ws(s_txt, self.position()) == self.position());
                }
                self.pos = self.pos + 1;
                let right = match self.parse_power() {
                    Ok(e) => e,
                    Err(m) => {
                        proof {
                            reveal_with_fuel(spec_parse_mul_div, 2);
                            assert(spec_parse_mul_div(s_txt, p0) == Err::<(ExprView, int), Seq<char>>(m@));
                        }
                        return Err(m);
                    }
                };
                left = Expression::multiply(left, right);
                proof {
                    reveal_with_fuel(spec_mul_div_rest, 2);
                    assert(spec_mul_div_rest(s_txt, self.position(), left@) == spec_parse_mul_div(
                        s_txt,
                        p0,
                    ));
                }
            } else if self.pos < n && self.input.get_char(self.pos) == '/' {
                proof {
                    assert(spec_skip_ws(s_txt, self.position()) == self.position());
                }
                self.pos = self.pos + 1;
                let right = match self.parse_power() {
                    Ok(e) => e,
                    Err(m) => {
                        proof {
                            reveal_with_fuel(spec_parse_mul_div, 2);
                            assert(spec_parse_mul_div(s_txt, p0) == Err::<(ExprView, int), Seq<char>>(m@));
                        }
                        return Err(m);
                    }
                };
                left = Expression::divide(left, right);
                proof {
                    reveal_with_fuel(spec_mul_div_rest, 2);
                    assert(spec_mul_div_rest(s_txt, self.position(), left@) == spec_parse_mul_div(
                        s_txt,
                        p0,
                    ));
                }
            } else {
                proof {
                    assert(spec_skip_ws(s_txt, self.position()) == self.position());
                }
                done = true;
            }
        }
        Ok(left)
    }

    /// Exponentiation; each right side is a single primary, so chained
    /// exponents associate to the left.
    #[verifier::rlimit(100)]
    #[verifier::spinoff_prover]
    pub fn parse_power(&mut self) -> (r: Result<Expression, String>)
        requires
            old(self).wf(),
        ensures
            final(self).wf(),
            final(self).text() == old(self).text(),
            final(self).position() >= old(self).position(),
            r matches Ok(e) ==> spec_parse_power(old(self).text(), old(self).position())
                == Ok::<(ExprView, int), Seq<char>>((e@, final(self).position())),
            r matches Err(m) ==> spec_parse_power(old(self).text(), old(self).position()) == Err::<(ExprView, int), Seq<char>>(m@),
            r matches Ok(e) ==> wf_expr(e@),
        decreases self.text().len() - self.position(), 1int,
    {
        let ghost s_txt = self.text();
        let ghost p0 = self.position();
        let mut left = match self.parse_primary() {
            Ok(e) => e,
            Err(m) => {
                proof {
                    reveal_with_fuel(spec_parse_power, 2);
                    assert(spec_parse_power(s_txt, p0) == Err::<(ExprView, int), Seq<char>>(m@));
                }
                return Err(m);
            }
        };
        proof {
            reveal_with_fuel(spec_parse_power, 2);
            assert(spec_power_rest(s_txt, self.position(), left@) == spec_parse_power(s_txt, p0));
        }
        let n = self.input.unicode_len();
        let mut done = false;
        while !done
            invariant
                self.wf(),
                n == self.text().len(),
                self.text() == s_txt,
                s_txt == old(self).text(),
                p0 == old(self).position(),
                self.position() >= p0,
                wf_expr(left@),
                spec_power_rest(s_txt, self.position(), left@) == spec_parse_power(s_txt, p0),
                done ==> spec_power_rest(s_txt, self.position(), left@) == Ok::<
                    (ExprView, int),
                    Seq<char>,
                >((left@, self.position())),
            decreases self.text().len() - self.position() + (if done { 0int } else { 1int }),
        {
            if self.pos < n && ws_at(self.input, self.pos) {
                proof {
                    lemma_skip_ws_bounds(s_txt, self.position() + 1);
                    assert(spec_power_rest(s_txt, self.position() + 1, left@) == spec_power_rest(
                        s_txt,
                        self.position(),
                        left@,
                    ));
                }
                self.pos = self.pos + 1;
            } else if self.pos < n && self.input.get_char(self.pos) == '^' {
                proof {
                    assert(spec_skip_ws(s_txt, self.position()) == self.position());
                }
                self.pos = self.pos + 1;
                let right = match self.parse_primary() {
                    Ok(e) => e,
                    Err(m) => {
                        proof {
                            reveal_with_fuel(spec_parse_power, 2);
                            assert(spec_parse_power(s_txt, p0) == Err::<(ExprView, int), Seq<char>>(m@));
                        }
                        return Err(m);
                    }
                };
                left = Expression::power(left, right);
                proof {
                    reveal_with_fuel(spec_power_rest, 2);
                    assert(spec_power_rest(s_txt, self.position(), left@) == spec_parse_power(
                        s_txt,
                        p0,
                    ));
                }
            } else {
                proof {
                    assert(spec_skip_ws(s_txt, self.position()) == self.position());
                }
                done = true;
            }
        }
        Ok(left)
    }

    /// A primary: a numeric literal, a parenthesized expression, a named
    /// function application, Euler's number (or `e^...` as `exp`), or a
    /// variable.
    #[verifier::rlimit(100)]
    #[verifier::spinoff_prover]
    fn parse_primary(&mut self) -> (r: Result<Expression, String>)
        requires
            old(self).wf(),
        ensures
            final(self).wf(),
            final(self).text() == old(self).text(),
            final(self).position() >= old(self).position(),
            r matches Ok(e) ==> spec_parse_primary(old(self).text(), old(self).position())
                == Ok::<(ExprView, int), Seq<char>>((e@, final(self).position())),
            r matches Err(m) ==> spec_parse_primary(old(self).text(), old(self).position()) == Err::<(ExprView, int), Seq<char>>(m@),
            r matches Ok(e) ==> wf_expr(e@),
        decreases self.text().len() - self.position(), 0int,
    {
        let ghost s_txt = self.text();
        let ghost p0 = self.position();
        self.skip_whitespace();
        let ghost q = self.position();
        let n = self.input.unicode_len();
        if self.pos >= n {
            proof {
                reveal_with_fuel(spec_parse_primary, 2);
            }
            return Err(String::from_str("Unexpected end of input"));
        }
        let c = self.input.get_char(self.pos);
        if '0' <= c && c <= '9' {
            let res = self.parse_number();
            proof {
                reveal_with_fuel(spec_parse_primary, 2);
                assert(spec_parse_primary(s_txt, p0) == spec_parse_number(s_txt, q));
            }
            res
        } else if c == '(' {
            self.pos = self.pos + 1;
            let e = match self.parse_expression() {
                Ok(e) => e,
                Err(m) => {
                    proof {
                        reveal_with_fuel(spec_parse_primary, 2);
                    }
                    return Err(m);
                }
            };
            let ghost pafter = self.position();
            match self.expect_char(')') {
                Ok(_) => {
                    proof {
                        reveal_with_fuel(spec_parse_primary, 2);
                        assert(spec_parse_primary(s_txt, p0) == spec_close_paren(
                            s_txt,
                            e@,
                            pafter,
                        ));
                    }
                    Ok(e)
                }
                Err(m) => {
                    proof {
                        reveal_with_fuel(spec_parse_primary, 2);
                    }
                    Err(m)
                }
            }
        } else if ('a' <= c && c <= 'z') || ('A' <= c && c <= 'Z') {
            let name = match self.parse_identifier() {
                Ok(name) => name,
                Err(m) => {
                    proof {
                        assert(is_alnum(s_txt[q]));
                        assert(false);
                    }
                    return Err(m);
                }
            };
            let ghost endp = self.position();
            proof {
                lemma_scan_alnum_char(s_txt, q, endp);
                assert(name@ == s_txt.subrange(q, endp));
            }
            if str_eq(name.as_str(), "sin") {
                match self.parse_function() {
                    Ok(arg) => {
                        proof {
                            reveal_with_fuel(spec_parse_primary, 2);
                            assert(spec_apply_func(name@, arg@) == ExprView::Sin(
                                Box::new(arg@),
                            ));
                        }
                        Ok(Expression::sin(arg))
                    }
                    Err(m) => {
                        proof {
                            reveal_with_fuel(spec_parse_primary, 2);
                        }
                        Err(m)
                    }
                }
            } else if str_eq(name.as_str(), "cos") {
                match self.parse_function() {
                    Ok(arg) => {
                        proof {
                            reveal_with_fuel(spec_parse_primary, 2);
                            assert(spec_apply_func(name@, arg@) == ExprView::Cos(
                                Box::new(arg@),
                            ));
                        }
                        Ok(Expression::cos(arg))
                    }
                    Err(m) => {
                        proof {
                            reveal_with_fuel(spec_parse_primary, 2);
                        }
                        Err(m)
                    }
                }
            } else if str_eq(name.as_str(), "tan") {
                match self.parse_function() {
                    Ok(arg) => {
                        proof {
                            reveal_with_fuel(spec_parse_primary, 2);
                            assert(spec_apply_func(name@, arg@) == ExprView::Tan(
                                Box::new(arg@),
                            ));
                        }
                        Ok(Expression::tan(arg))
                    }
                    Err(m) => {
                        proof {
                            reveal_with_fuel(spec_parse_primary, 2);
                        }
                        Err(m)
                    }
                }
            } else if str_eq(name.as_str(), "arcsin") {
                match self.parse_function() {
                    Ok(arg) => {
                        proof {
                            reveal_with_fuel(spec_parse_primary, 2);
                            assert(spec_apply_func(name@, arg@) == ExprView::Arcsin(
                                Box::new(arg@),
                            ));
                        }
                        Ok(Expression::arcsin(arg))
                    }
                    Err(m) => {
                        proof {
                            reveal_with_fuel(spec_parse_primary, 2);
                        }
                        Err(m)
                    }
                }
            } else if str_eq(name.as_str(), "arccos") {
                match self.parse_function() {
                    Ok(arg) => {
                        proof {
                            reveal_with_fuel(spec_parse_primary, 2);
                            assert(spec_apply_func(name@, arg@) == ExprView::Arccos(
                                Box::new(arg@),
                            ));
                        }
                        Ok(Expression::arccos(arg))
                    }
                    Err(m) => {
                        proof {
                            reveal_with_fuel(spec_parse_primary, 2);
                        }
                        Err(m)
                    }
                }
            } else if str_eq(name.as_str(), "arctan") {
                match self.parse_function() {
                    Ok(arg) => {
                        proof {
                            reveal_with_fuel(spec_parse_primary, 2);
                            assert(spec_apply_func(name@, arg@) == ExprView::Arctan(
                                Box::new(arg@),
                            ));
                        }
                        Ok(Expression::arctan(arg))
                    }
                    Err(m) => {
                        proof {
                            reveal_with_fuel(spec_parse_primary, 2);
                        }
                        Err(m)
                    }
                }
            } else if str_eq(name.as_str(), "ln") {
                match self.parse_function() {
                    Ok(arg) => {
                        proof {
                            reveal_with_fuel(spec_parse_primary, 2);
                            assert(spec_apply_func(name@, arg@) == ExprView::Ln(
                                Box::new(arg@),
                            ));
                        }
                        Ok(Expression::ln(arg))
                    }
                    Err(m) => {
                        proof {
                            reveal_with_fuel(spec_parse_primary, 2);
                        }
                        Err(m)
                    }
                }
            } else if str_eq(name.as_str(), "exp") {
                match self.parse_function() {
                    Ok(arg) => {
                        proof {
                            reveal_with_fuel(spec_parse_primary, 2);
                            assert(spec_apply_func(name@, arg@) == ExprView::Exp(
                                Box::new(arg@),
                            ));
                        }
                        Ok(Expression::exp(arg))
                    }
                    Err(m) => {
                        proof {
                            reveal_with_fuel(spec_parse_primary, 2);
                        }
                        Err(m)
                    }
                }
            } else if str_eq(name.as_str(), "sinh") {
                match self.parse_function() {
                    Ok(arg) => {
                        proof {
                            reveal_with_fuel(spec_parse_primary, 2);
                            assert(spec_apply_func(name@, arg@) == ExprView::Sinh(
                                Box::new(arg@),
                            ));
                        }
                        Ok(Expression::sinh(arg))
                    }
                    Err(m) => {
                        proof {
                            reveal_with_fuel(spec_parse_primary, 2);
                        }
                        Err(m)
                    }
                }
            } else if str_eq(name.as_str(), "cosh") {
                match self.parse_function() {
                    Ok(arg) => {
                        proof {
                            reveal_with_fuel(spec_parse_primary, 2);
                            assert(spec_apply_func(name@, arg@) == ExprView::Cosh(
                                Box::new(arg@),
                            ));
                        }
                        Ok(Expression::cosh(arg))
                    }
                    Err(m) => {
                        proof {
                            reveal_with_fuel(spec_parse_primary, 2);
                        }
                        Err(m)
                    }
                }
            } else if str_eq(name.as_str(), "tanh") {
                match self.parse_function() {
                    Ok(arg) => {
                        proof {
                            reveal_with_fuel(spec_parse_primary, 2);
                            assert(spec_apply_func(name@, arg@) == ExprView::Tanh(
                                Box::new(arg@),
                            ));
                        }
                        Ok(Expression::tanh(arg))
                    }
                    Err(m) => {
                        proof {
                            reveal_with_fuel(spec_parse_primary, 2);
                        }
                        Err(m)
                    }
                }
            } else if str_eq(name.as_str(), "e") {
                // Euler's number, unless `^` follows at once: `e^u` is exp(u).
                if self.pos < n && self.input.get_char(self.pos) == '^' {
                    self.pos = self.pos + 1;
                    match self.parse_primary() {
                        Ok(power) => {
                            proof {
                                reveal_with_fuel(spec_parse_primary, 2);
                            }
                            Ok(Expression::exp(power))
                        }
                        Err(m) => {
                            proof {
                                reveal_with_fuel(spec_parse_primary, 2);
                            }
                            Err(m)
                        }
                    }
                } else {
                    proof {
                        reveal_with_fuel(spec_parse_primary, 2);
                        crate::num::lemma_unit_frac_wf(1, 1, NumUnit::Euler);
                    }
                    Ok(Expression::constant(Num::scaled(1, 1, NumUnit::Euler)))
                }
            } else {
                proof {
                    reveal_with_fuel(spec_parse_primary, 2);
                }
                Ok(Expression::variable(name.as_str()))
            }
        } else {
            proof {
                reveal_with_fuel(spec_parse_primary, 2);
            }
            Err(String::from_str("Unexpected character: ").concat(
                char_to_string(c).as_str(),
            ))
        }
    }

    /// The parenthesized argument of a named function; the caller wraps it
    /// in the function's own constructor.
    fn parse_function(&mut self) -> (r: Result<Expression, String>)
        requires
            old(self).wf(),
        ensures
            final(self).wf(),
            final(self).text() == old(self).text(),
            final(self).position() >= old(self).position(),
            r matches Ok(e) ==> spec_parse_fnarg(old(self).text(), old(self).position())
                == Ok::<(ExprView, int), Seq<char>>((e@, final(self).position())),
            r matches Err(m) ==> spec_parse_fnarg(old(self).text(), old(self).position()) == Err::<(ExprView, int), Seq<char>>(m@),
            r matches Ok(e) ==> wf_expr(e@),
        decreases self.text().len() - self.position(), 0int,
    {
        let ghost s_txt = self.text();
        let ghost p0 = self.position();
        self.skip_whitespace();
        let n = self.input.unicode_len();
        if self.pos < n && self.input.get_char(self.pos) == '(' {
            self.pos = self.pos + 1;
            let e = match self.parse_expression() {
                Ok(e) => e,
                Err(m) => {
                    proof {
                        reveal_with_fuel(spec_parse_fnarg, 2);
                    }
                    return Err(m);
                }
            };
            let ghost pafter = self.position();
            match self.expect_char(')') {
                Ok(_) => {
                    proof {
                        reveal_with_fuel(spec_parse_fnarg, 2);
                        assert(spec_parse_fnarg(s_txt, p0) == spec_close_paren(
                            s_txt,
                            e@,
                            pafter,
                        ));
                    }
                    Ok(e)
                }
                Err(m) => {
                    proof {
                        reveal_with_fuel(spec_parse_fnarg, 2);
                    }
                    Err(m)
                }
            }
        } else {
            proof {
                reveal_with_fuel(spec_parse_fnarg, 2);
            }
            Err(String::from_str("Expected '(' after function name"))
        }
    }

    /// A numeric literal: digits with at most one decimal point, read as
    /// the exact fraction over a power of ten.  A second point, a literal
    /// with no digit, or one too large for exact constants is an error.
    fn parse_number(&mut self) -> (r: Result<Expression, String>)
        requires
            old(self).wf(),
        ensures
            final(self).wf(),
            final(self).text() == old(self).text(),
            final(self).position() >= old(self).position(),
            r matches Ok(e) ==> spec_parse_number(old(self).text(), old(self).position())
                == Ok::<(ExprView, int), Seq<char>>((e@, final(self).position())),
            r matches Err(m) ==> spec_parse_number(old(self).text(), old(self).position()) == Err::<(ExprView, int), Seq<char>>(m@),
            r matches Ok(e) ==> wf_expr(e@),
    {
        let ghost s_txt = self.text();
        let ghost start = self.position();
        let n = self.input.unicode_len();
        let mut raw = String::new();
        let mut int_part: u64 = 0;
        let mut frac_num: u64 = 0;
        let mut frac_den: u64 = 1;
        let mut seen_dot = false;
        let mut seen_digit = false;
        let mut ok = true;
        while self.pos < n && numchar_at(self.input, self.pos)
            invariant
                self.wf(),
                n == self.text().len(),
                self.text() == s_txt,
                s_txt == old(self).text(),
                start == old(self).position(),
                self.position() >= start,
                frac_den >= 1,
                forall|j: int| start <= j < self.position() ==> is_numchar(
                    #[trigger] s_txt[j],
                ),
                raw@ == s_txt.subrange(start, self.position()),
                spec_num_scan(s_txt, start, self.position(), spec_num_init()) == (NumScan {
                    int_part: int_part as int,
                    frac_num: frac_num as int,
                    frac_den: frac_den as int,
                    seen_dot: seen_dot,
                    seen_digit: seen_digit,
                    ok: ok,
                }),
            decreases n - self.pos,
        {
            let c = self.input.get_char(self.pos);
            let ghost stv = NumScan {
                int_part: int_part as int,
                frac_num: frac_num as int,
                frac_den: frac_den as int,
                seen_dot: seen_dot,
                seen_digit: seen_digit,
                ok: ok,
            };
            raw.append(char_to_string(c).as_str());
            if c == '.' {
                if seen_dot {
                    ok = false;
                }
                seen_dot = true;
            } else {
                seen_digit = true;
                let d: u64 = ((c as u32) - 48) as u64;
                if !seen_dot {
                    match int_part.checked_mul(10) {
                        Some(v) => match v.checked_add(d) {
                            Some(w) => {
                                int_part = w;
                            }
                            None => {
                                ok = false;
                            }
                        },
                        None => {
                            ok = false;
                        }
                    }
                } else {
                    match frac_den.checked_mul(10) {
                        Some(v) => {
                            match frac_num.checked_mul(10) {
                                Some(fv) => match fv.checked_add(d) {
                                    Some(fw) => {
                                        frac_num = fw;
                                        frac_den = v;
                                    }
                                    None => {
                                        ok = false;
                                    }
                                },
                                None => {
                                    ok = false;
                                }
                            }
                        }
                        None => {
                            ok = false;
                        }
                    }
                }
            }
            self.pos = self.pos + 1;
            proof {
                assert(raw@ =~= s_txt.subrange(start, self.position()));
                lemma_num_scan_snoc(s_txt, start, self.position() - 1, spec_num_init());
                assert((NumScan {
                    int_part: int_part as int,
                    frac_num: frac_num as int,
                    frac_den: frac_den as int,
                    seen_dot: seen_dot,
                    seen_digit: seen_digit,
                    ok: ok,
                }) =~= spec_num_step(stv, c));
            }
        }
        proof {
            lemma_num_end_char(s_txt, start, self.position());
        }
        if !ok || !seen_digit {
            return Err(String::from_str("Invalid number: ").concat(raw.as_str()));
        }
        // value = int_part + frac_num / frac_den = (int_part*frac_den + frac_num) / frac_den
        proof {
            assert((int_part as int) * (frac_den as int) + (frac_num as int)
                <= 0xFFFF_FFFF_FFFF_FFFF_0000_0000_0000_0000) by (nonlinear_arith)
                requires
                    0 <= int_part as int <= 0xFFFF_FFFF_FFFF_FFFF,
                    0 <= frac_den as int <= 0xFFFF_FFFF_FFFF_FFFF,
                    0 <= frac_num as int <= 0xFFFF_FFFF_FFFF_FFFF,
            ;
        }
        let numerator: u128 = (int_part as u128) * (frac_den as u128) + (frac_num as u128);
        if numerator > 0x7FFF_FFFF_FFFF_FFFFu128 || frac_den > 0x7FFF_FFFF_FFFF_FFFFu64 {
            return Err(String::from_str("Invalid number: ").concat(raw.as_str()));
        }
        let value = Num::rational(numerator as i64, frac_den as i64);
        Ok(Expression::constant(value))
    }
}

} // verus!
