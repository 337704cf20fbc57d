//! Parse errors and the building of their messages.

use vstd::prelude::*;
use vstd::string::StringExecFns;
use crate::token::{Token, TokenView, tv_name};

verus! {

/// Reported when an invalid expression is parsed.
///
/// `col` is the running offset, in characters, of the token at which parsing
/// failed. No newline scanning is done, so `line` is always 0; a true line
/// number for multi-line expressions would need a dedicated enhancement.
#[derive(Clone, Debug)]
pub struct ParseError {
    /// The error message.
    pub msg: String,
    /// The line number of the error.
    pub line: usize,
    /// The column of the error.
    pub col: usize,
}

/// Appends one character to a string.
///
/// Relies on `String::push`: it appends the given `char` to the end of the
/// `String`.
#[verifier::external_body]
pub(crate) fn push_char(s: &mut String, c: char)
    ensures
        final(s)@ == old(s)@.push(c),
{
    s.push(c);
}

/// The character of a single decimal digit.
pub open spec fn digit_char(d: nat) -> char {
    if d == 0 { '0' }
    else if d == 1 { '1' }
    else if d == 2 { '2' }
    else if d == 3 { '3' }
    else if d == 4 { '4' }
    else if d == 5 { '5' }
    else if d == 6 { '6' }
    else if d == 7 { '7' }
    else if d == 8 { '8' }
    else { '9' }
}

/// The decimal digits of `n`, most significant first.
pub open spec fn dec_digits(n: nat) -> Seq<char>
    decreases n,
{
    if n < 10 {
        seq![digit_char(n)]
    } else {
        dec_digits(n / 10) + seq![digit_char(n % 10)]
    }
}

/// Appends the decimal digits of `n` to `out`.
fn push_decimal(out: &mut String, n: usize)
    ensures
        final(out)@ == old(out)@ + dec_digits(n as nat),
    decreases n,
{
    if n >= 10 {
        push_decimal(out, n / 10);
    }
    let d: usize = n % 10;
    let c: char = if d == 0 { '0' }
        else if d == 1 { '1' }
        else if d == 2 { '2' }
        else if d == 3 { '3' }
        else if d == 4 { '4' }
        else if d == 5 { '5' }
        else if d == 6 { '6' }
        else if d == 7 { '7' }
        else if d == 8 { '8' }
        else { '9' };
    push_char(out, c);
    proof {
        assert(final(out)@ =~= old(out)@ + dec_digits(n as nat));
    }
}

/// The full text of an error message: the offending token's name, the offset
/// at which it stands, and a description of the failure.
pub open spec fn err_msg_view(t: TokenView, pos: nat, body: Seq<char>) -> Seq<char> {
    "Error at "@ + tv_name(t) + " token, "@ + dec_digits(pos) + ": "@ + body
}

/// The model of a parse error: its message text and its column.
pub struct ErrView {
    pub msg: Seq<char>,
    pub col: nat,
}

/// Whether the executable error `e` is modelled by `ev`.
pub open spec fn err_matches(e: ParseError, ev: ErrView) -> bool {
    &&& e.msg@ == ev.msg
    &&& e.col as nat == ev.col
    &&& e.line == 0
}

/// Builds the error message for failing at token `t` (offset `pos`) with
/// description `body`.
pub(crate) fn format_error(t: &Token, pos: usize, body: &str) -> (r: String)
    ensures
        r@ == err_msg_view(t.deep_view(), pos as nat, body@),
{
    let mut s = String::from_str("Error at ");
    s.append(t.name());
    s.append(" token, ");
    push_decimal(&mut s, pos);
    s.append(": ");
    s.append(body);
    proof {
        assert(s@ =~= err_msg_view(t.deep_view(), pos as nat, body@));
    }
    s
}

} // verus!
