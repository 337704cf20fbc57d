//! The tokenizer: turns expression text into a sequence of [`Token`]s,
//! always terminated by `Token::Eof`.
//!
//! Lexical classes: identifiers are `[A-Za-z_][A-Za-z0-9_]*`; numbers are an
//! optional `-` followed by decimal digits and must fit in 32 bits; `` ` ``
//! encloses a literal whose contents are read as a JSON scalar (`null`,
//! `true`, `false`, an integer, or a double-quoted string), any other
//! contents being kept verbatim as a string value; whitespace becomes
//! `Whitespace` tokens that the parser skips; anything unrecognized becomes
//! an `Unknown` token, which no parse accepts.

use vstd::prelude::*;
use vstd::std_specs::iter::IteratorSpec;
use crate::ast::{Json, JsonView};
use crate::errors::push_char;
use crate::token::{Token, TokenView, tv_size};

verus! {

broadcast use vstd::string::next_postcondition, vstd::string::axiom_spec_iter;

/// Whether `c` may start an identifier.
pub open spec fn is_ident_start(c: char) -> bool {
    (97 <= c as u32 && c as u32 <= 122)  // 'a'..='z'
    || (65 <= c as u32 && c as u32 <= 90)  // 'A'..='Z'
    || c == '_'
}

/// Whether `c` may continue an identifier.
pub open spec fn is_ident_char(c: char) -> bool {
    is_ident_start(c) || is_digit(c)
}

/// Whether `c` is a decimal digit.
pub open spec fn is_digit(c: char) -> bool {
    48 <= c as u32 && c as u32 <= 57
}

/// The numeric value of a digit character.
pub open spec fn digit_val(c: char) -> int {
    c as u32 - 48
}

/// Whether `c` is whitespace.
pub open spec fn is_ws(c: char) -> bool {
    c == ' ' || c == '\t' || c == '\n' || c == '\r'
}

/// The length of the run of identifier characters starting at `i`.
pub open spec fn ident_len(cs: Seq<char>, i: int) -> nat
    decreases cs.len() - i,
{
    if 0 <= i && i < cs.len() && is_ident_char(cs[i]) {
        1 + ident_len(cs, i + 1)
    } else {
        0
    }
}

/// The length of the run of digits starting at `i`.
pub open spec fn digit_run(cs: Seq<char>, i: int) -> nat
    decreases cs.len() - i,
{
    if 0 <= i && i < cs.len() && is_digit(cs[i]) {
        1 + digit_run(cs, i + 1)
    } else {
        0
    }
}

/// Left-to-right accumulation of the digits `cs[i..end]` on top of `acc`,
/// pinned once it passes `clamp` so that it stays bounded; while the result
/// is at most `clamp` it is the exact value of the digits.
pub open spec fn num_acc(cs: Seq<char>, i: int, end: int, acc: int, clamp: int) -> int
    decreases end - i,
{
    if i < end {
        num_acc(cs, i + 1, end, if acc > clamp { clamp + 1 } else { acc * 10 + digit_val(cs[i]) }, clamp)
    } else {
        acc
    }
}

/// The index of the first backtick at or after `j`, or the length of `cs` if
/// there is none.
pub open spec fn close_tick(cs: Seq<char>, j: int) -> int
    decreases cs.len() - j,
{
    if j < 0 || j >= cs.len() {
        cs.len() as int
    } else if cs[j] == '`' {
        j
    } else {
        close_tick(cs, j + 1)
    }
}

/// Whether `cs` is a decimal integer: an optional minus sign followed by at
/// least one digit and nothing else.
pub open spec fn is_int_text(cs: Seq<char>) -> bool {
    let d0: int = if cs.len() > 0 && cs[0] == '-' { 1 } else { 0 };
    cs.len() > d0 && (forall|k: int| d0 <= k < cs.len() ==> is_digit(cs[k]))
}

/// The JSON scalar denoted by the contents of a backtick literal: `null`,
/// `true`, `false`, a 64-bit integer, or a double-quoted string without
/// inner quotes; any other contents stand for themselves as a string.
pub open spec fn spec_json(cs: Seq<char>) -> JsonView {
    if cs == "null"@ {
        JsonView::Null
    } else if cs == "true"@ {
        JsonView::Boolean(true)
    } else if cs == "false"@ {
        JsonView::Boolean(false)
    } else if is_int_text(cs) && json_int_ok(cs) {
        JsonView::Number(json_int_val(cs))
    } else if cs.len() >= 2 && cs[0] == '"' && cs[cs.len() - 1] == '"' && (forall|k: int|
        0 < k < cs.len() - 1 ==> cs[k] != '"') {
        JsonView::String(cs.subrange(1, cs.len() - 1))
    } else {
        JsonView::String(cs)
    }
}

/// The clamped accumulation of an integer literal's digits.
pub open spec fn json_int_acc(cs: Seq<char>) -> int {
    let d0: int = if cs.len() > 0 && cs[0] == '-' { 1 } else { 0 };
    num_acc(cs, d0, cs.len() as int, 0, 0x8000_0000_0000_0000)
}

/// Whether an integer literal fits in 64 bits.
pub open spec fn json_int_ok(cs: Seq<char>) -> bool {
    if cs.len() > 0 && cs[0] == '-' {
        json_int_acc(cs) <= 0x8000_0000_0000_0000
    } else {
        json_int_acc(cs) <= 0x7fff_ffff_ffff_ffff
    }
}

/// The value of an integer literal that fits.
pub open spec fn json_int_val(cs: Seq<char>) -> int {
    if cs.len() > 0 && cs[0] == '-' {
        -json_int_acc(cs)
    } else {
        json_int_acc(cs)
    }
}

/// The token starting at `cs[i]`, and how many characters beyond the first
/// it occupies.
pub open spec fn spec_next(cs: Seq<char>, i: int) -> (TokenView, nat) {
    let c = cs[i];
    if c == '@' { (TokenView::At, 0) }
    else if c == '.' { (TokenView::Dot, 0) }
    else if c == '*' { (TokenView::Star, 0) }
    else if c == ']' { (TokenView::Rbracket, 0) }
    else if c == '{' { (TokenView::Lbrace, 0) }
    else if c == '}' { (TokenView::Rbrace, 0) }
    else if c == ',' { (TokenView::Comma, 0) }
    else if c == ':' { (TokenView::Colon, 0) }
    else if c == '&' { (TokenView::Ampersand, 0) }
    else if c == '[' {
        if i + 1 < cs.len() && cs[i + 1] == ']' { (TokenView::Flatten, 1) }
        else if i + 1 < cs.len() && cs[i + 1] == '?' { (TokenView::Filter, 1) }
        else { (TokenView::Lbracket, 0) }
    }
    else if c == '|' {
        if i + 1 < cs.len() && cs[i + 1] == '|' { (TokenView::Or, 1) }
        else { (TokenView::Pipe, 0) }
    }
    else if is_ws(c) { (TokenView::Whitespace, 0) }
    else if is_ident_start(c) {
        let n = ident_len(cs, i);
        (TokenView::Identifier(cs.subrange(i, i + n), n), (n - 1) as nat)
    }
    else if is_digit(c) || c == '-' {
        spec_number(cs, i)
    }
    else if c == '`' {
        spec_literal(cs, i)
    }
    else {
        (TokenView::Unknown(seq![c], 1), 0)
    }
}

/// The number token starting at `cs[i]` (a digit or a minus sign). A minus
/// sign with no digit after it, and a value outside the 32-bit range, give
/// an `Unknown` token instead.
pub open spec fn spec_number(cs: Seq<char>, i: int) -> (TokenView, nat) {
    let neg = cs[i] == '-';
    let d0: int = if neg { i + 1 } else { i };
    if neg && (d0 >= cs.len() || !is_digit(cs[d0])) {
        (TokenView::Unknown(seq!['-'], 1), 0)
    } else {
        let run = digit_run(cs, d0);
        let end = d0 + run;
        let acc = num_acc(cs, d0, end, 0, 0x8000_0000);
        let size = (end - i) as nat;
        if neg && acc <= 0x8000_0000 {
            (TokenView::Number(-acc, size), (size - 1) as nat)
        } else if !neg && acc <= 0x7fff_ffff {
            (TokenView::Number(acc, size), (size - 1) as nat)
        } else {
            (TokenView::Unknown(cs.subrange(i, end), size), (size - 1) as nat)
        }
    }
}

/// The literal token starting at the backtick `cs[i]`. Without a closing
/// backtick the rest of the text becomes an `Unknown` token.
pub open spec fn spec_literal(cs: Seq<char>, i: int) -> (TokenView, nat) {
    let k = close_tick(cs, i + 1);
    if k >= cs.len() {
        (TokenView::Unknown(cs.subrange(i, cs.len() as int), (cs.len() - i) as nat),
            (cs.len() - i - 1) as nat)
    } else {
        (TokenView::Literal(spec_json(cs.subrange(i + 1, k)), (k + 1 - i) as nat), (k - i) as nat)
    }
}

/// The token sequence of `cs[i..]`, ending with `Eof`.
pub open spec fn spec_tokenize_from(cs: Seq<char>, i: int) -> Seq<TokenView>
    decreases cs.len() - i,
{
    if i < 0 || i >= cs.len() {
        seq![TokenView::Eof]
    } else {
        let (t, extra) = spec_next(cs, i);
        let j = if i + 1 + extra > cs.len() { cs.len() as int } else { i + 1 + extra };
        seq![t] + spec_tokenize_from(cs, j)
    }
}

/// The token sequence of the whole text.
pub open spec fn spec_tokenize(cs: Seq<char>) -> Seq<TokenView> {
    spec_tokenize_from(cs, 0)
}

/// The total source length, in characters, covered by a token sequence.
pub open spec fn sum_sizes(ts: Seq<TokenView>) -> nat
    decreases ts.len(),
{
    if ts.len() == 0 {
        0
    } else {
        tv_size(ts[0]) + sum_sizes(ts.drop_first())
    }
}

/// The characters of `s`, in order.
pub fn str_chars(s: &str) -> (v: Vec<char>)
    ensures
        v@ == s@,
{
    let mut it = s.chars();
    let mut v: Vec<char> = Vec::new();
    loop
        invariant_except_break
            v@ + it.remaining() == s@,
        ensures
            v@ == s@,
        decreases s@.len() - v@.len(),
    {
        match it.next() {
            Option::Some(c) => {
                v.push(c);
                proof {
                    assert(v@ + it.remaining() =~= s@);
                }
            },
            Option::None => {
                proof {
                    assert(v@ =~= s@);
                }
                break;
            },
        }
    }
    v
}

/// The substring `v[from..to]`, as a `String`.
fn vec_to_string(v: &Vec<char>, from: usize, to: usize) -> (s: String)
    requires
        from <= to <= v@.len(),
    ensures
        s@ == v@.subrange(from as int, to as int),
{
    let mut s = String::new();
    let mut j: usize = from;
    while j < to
        invariant
            from <= j <= to <= v@.len(),
            s@ == v@.subrange(from as int, j as int),
        decreases to - j,
    {
        push_char(&mut s, v[j]);
        j = j + 1;
        proof {
            assert(s@ =~= v@.subrange(from as int, j as int));
        }
    }
    s
}

/// The slice `v[from..to]`, as a fresh vector.
fn vec_sub(v: &Vec<char>, from: usize, to: usize) -> (r: Vec<char>)
    requires
        from <= to <= v@.len(),
    ensures
        r@ == v@.subrange(from as int, to as int),
{
    let mut r: Vec<char> = Vec::new();
    let mut j: usize = from;
    while j < to
        invariant
            from <= j <= to <= v@.len(),
            r@ == v@.subrange(from as int, j as int),
        decreases to - j,
    {
        r.push(v[j]);
        j = j + 1;
        proof {
            assert(r@ =~= v@.subrange(from as int, j as int));
        }
    }
    r
}

/// Executable check of [`is_ident_start`].
fn ident_start(c: char) -> (r: bool)
    ensures
        r == is_ident_start(c),
{
    let u = c as u32;
    (97 <= u && u <= 122) || (65 <= u && u <= 90) || c == '_'
}

/// Executable check of [`is_ident_char`].
fn ident_char(c: char) -> (r: bool)
    ensures
        r == is_ident_char(c),
{
    let u = c as u32;
    (97 <= u && u <= 122) || (65 <= u && u <= 90) || c == '_' || (48 <= u && u <= 57)
}

/// Executable check of [`is_digit`].
fn digit(c: char) -> (r: bool)
    ensures
        r == is_digit(c),
{
    let u = c as u32;
    48 <= u && u <= 57
}

/// The length of the identifier run starting at `i`.
fn scan_ident_run(chars: &Vec<char>, i: usize) -> (run: usize)
    requires
        i <= chars@.len(),
    ensures
        run as nat == ident_len(chars@, i as int),
        i + run <= chars@.len(),
    decreases chars@.len() - i,
{
    let mut j: usize = i;
    while j < chars.len() && ident_char(chars[j])
        invariant
            i <= j <= chars@.len(),
            ident_len(chars@, i as int) == (j - i) + ident_len(chars@, j as int),
        decreases chars@.len() - j,
    {
        j = j + 1;
    }
    j - i
}

/// The length of the digit run starting at `i`; every character in the run
/// is a digit.
fn scan_digit_run(chars: &Vec<char>, i: usize) -> (run: usize)
    requires
        i <= chars@.len(),
    ensures
        run as nat == digit_run(chars@, i as int),
        i + run <= chars@.len(),
        forall|k: int| i <= k < i + run ==> is_digit(chars@[k]),
    decreases chars@.len() - i,
{
    let mut j: usize = i;
    while j < chars.len() && digit(chars[j])
        invariant
            i <= j <= chars@.len(),
            digit_run(chars@, i as int) == (j - i) + digit_run(chars@, j as int),
            forall|k: int| i <= k < j ==> is_digit(chars@[k]),
        decreases chars@.len() - j,
    {
        j = j + 1;
    }
    j - i
}

/// Folds the digits `chars[d0..d0+run]` with the clamp rule of [`num_acc`].
fn fold_digits(chars: &Vec<char>, d0: usize, run: usize, clamp: u128) -> (acc: u128)
    requires
        d0 + run <= chars@.len(),
        forall|k: int| d0 <= k < d0 + run ==> is_digit(chars@[k]),
        clamp <= 0x8000_0000_0000_0000,
    ensures
        acc as int == num_acc(chars@, d0 as int, d0 + run, 0, clamp as int),
{
    let clen = chars.len();
    assert(d0 + run <= clen);
    let mut acc: u128 = 0;
    let mut j: usize = d0;
    let end: usize = d0 + run;
    while j < end
        invariant
            d0 <= j <= end,
            end == d0 + run,
            d0 + run <= chars@.len(),
            forall|k: int| d0 <= k < d0 + run ==> is_digit(chars@[k]),
            clamp <= 0x8000_0000_0000_0000,
            acc <= clamp * 10 + 9,
            num_acc(chars@, j as int, end as int, acc as int, clamp as int) == num_acc(
                chars@,
                d0 as int,
                end as int,
                0,
                clamp as int,
            ),
        decreases end - j,
    {
        let c = chars[j];
        let d: u128 = (c as u32 - 48) as u128;
        if acc > clamp {
            acc = clamp + 1;
        } else {
            acc = acc * 10 + d;
        }
        j = j + 1;
    }
    acc
}

/// The index of the first backtick at or after `from`, or the text length.
fn find_tick(chars: &Vec<char>, from: usize) -> (k: usize)
    requires
        from <= chars@.len(),
    ensures
        k as int == close_tick(chars@, from as int),
        from <= k <= chars@.len(),
        k < chars@.len() ==> chars@[k as int] == '`',
    decreases chars@.len() - from,
{
    let mut j: usize = from;
    while j < chars.len() && chars[j] != '`'
        invariant
            from <= j <= chars@.len(),
            close_tick(chars@, from as int) == close_tick(chars@, j as int),
        decreases chars@.len() - j,
    {
        j = j + 1;
    }
    j
}

/// Reads the contents of a backtick literal as a JSON scalar.
fn json_value(sub: &Vec<char>) -> (j: Json)
    ensures
        crate::ast::json_view(j) == spec_json(sub@),
{
    let n = sub.len();
    proof {
        reveal_strlit("null");
        reveal_strlit("true");
        reveal_strlit("false");
    }
    if n == 4 && sub[0] == 'n' && sub[1] == 'u' && sub[2] == 'l' && sub[3] == 'l' {
        proof {
            assert(sub@ =~= "null"@);
        }
        return Json::Null;
    }
    if n == 4 && sub[0] == 't' && sub[1] == 'r' && sub[2] == 'u' && sub[3] == 'e' {
        proof {
            assert(sub@ =~= "true"@);
        }
        return Json::Boolean(true);
    }
    if n == 5 && sub[0] == 'f' && sub[1] == 'a' && sub[2] == 'l' && sub[3] == 's' && sub[4] == 'e' {
        proof {
            assert(sub@ =~= "false"@);
        }
        return Json::Boolean(false);
    }
    proof {
        assert(sub@ != "null"@ && sub@ != "true"@ && sub@ != "false"@) by {
            if sub@ == "null"@ {
                assert(sub@.len() == 4 && sub@[0] == 'n' && sub@[1] == 'u' && sub@[2] == 'l'
                    && sub@[3] == 'l');
            }
            if sub@ == "true"@ {
                assert(sub@.len() == 4 && sub@[0] == 't' && sub@[1] == 'r' && sub@[2] == 'u'
                    && sub@[3] == 'e');
            }
            if sub@ == "false"@ {
                assert(sub@.len() == 5 && sub@[0] == 'f' && sub@[1] == 'a' && sub@[2] == 'l'
                    && sub@[3] == 's' && sub@[4] == 'e');
            }
        }
    }
    // Integer?
    let neg = n > 0 && sub[0] == '-';
    let d0: usize = if neg { 1 } else { 0 };
    if n > d0 {
        let run = scan_digit_run(sub, d0);
        if d0 + run == n {
            // All characters after the optional sign are digits.
            assert(is_int_text(sub@));
            let acc = fold_digits(sub, d0, run, 0x8000_0000_0000_0000);
            if neg && acc <= 0x8000_0000_0000_0000 {
                proof {
                    assert(acc as int <= 0x8000_0000_0000_0000);
                    assert(-(acc as int) >= i64::MIN as int);
                }
                let v: i64 = (-(acc as i128)) as i64;
                assert(v as int == json_int_val(sub@));
                return Json::Number(v);
            }
            if !neg && acc <= 0x7fff_ffff_ffff_ffff {
                let v: i64 = acc as i64;
                assert(v as int == json_int_val(sub@));
                return Json::Number(v);
            }
            // Out of range: fall through to the string cases.
            assert(!json_int_ok(sub@));
        } else {
            assert(!is_int_text(sub@)) by {
                if is_int_text(sub@) {
                    crate::lexer::lemma_digit_run_full(sub@, d0 as int);
                }
            }
        }
    } else {
        assert(!is_int_text(sub@));
    }
    // Quoted string?
    if n >= 2 && sub[0] == '"' && sub[n - 1] == '"' {
        let mut j: usize = 1;
        let mut clean = true;
        while j < n - 1
            invariant
                1 <= j <= n - 1,
                n == sub@.len(),
                n >= 2,
                clean == (forall|k: int| 0 < k < j ==> sub@[k] != '"'),
            decreases n - 1 - j,
        {
            if sub[j] == '"' {
                clean = false;
            }
            j = j + 1;
        }
        if clean {
            return Json::String(vec_to_string(sub, 1, n - 1));
        }
    }
    proof {
        assert(sub@.subrange(0, n as int) =~= sub@);
    }
    Json::String(vec_to_string(sub, 0, n))
}

/// Scans the token starting at `chars[i]`; returns it and how many
/// characters beyond the first it occupies.
fn next_token(chars: &Vec<char>, i: usize) -> (r: (Token, usize))
    requires
        i < chars@.len(),
    ensures
        (r.0.deep_view(), r.1 as nat) == spec_next(chars@, i as int),
        i + 1 + r.1 <= chars@.len(),
{
    let clen = chars.len();
    let c = chars[i];
    if c == '@' { (Token::At, 0) }
    else if c == '.' { (Token::Dot, 0) }
    else if c == '*' { (Token::Star, 0) }
    else if c == ']' { (Token::Rbracket, 0) }
    else if c == '{' { (Token::Lbrace, 0) }
    else if c == '}' { (Token::Rbrace, 0) }
    else if c == ',' { (Token::Comma, 0) }
    else if c == ':' { (Token::Colon, 0) }
    else if c == '&' { (Token::Ampersand, 0) }
    else if c == '[' {
        if i + 1 < clen && chars[i + 1] == ']' { (Token::Flatten, 1) }
        else if i + 1 < clen && chars[i + 1] == '?' { (Token::Filter, 1) }
        else { (Token::Lbracket, 0) }
    }
    else if c == '|' {
        if i + 1 < clen && chars[i + 1] == '|' { (Token::Or, 1) }
        else { (Token::Pipe, 0) }
    }
    else if c == ' ' || c == '\t' || c == '\n' || c == '\r' { (Token::Whitespace, 0) }
    else if ident_start(c) {
        let run = scan_ident_run(chars, i);
        assert(run >= 1) by {
            assert(is_ident_char(chars@[i as int]));
        }
        let s = vec_to_string(chars, i, i + run);
        (Token::Identifier(s, run), run - 1)
    }
    else if digit(c) || c == '-' {
        let neg = c == '-';
        let d0: usize = if neg { i + 1 } else { i };
        if neg && (d0 >= clen || !digit(chars[d0])) {
            proof {
                reveal_strlit("-");
            }
            let s = String::from_str("-");
            proof {
                assert(s@ =~= seq!['-']);
            }
            (Token::Unknown(s, 1), 0)
        } else {
            let run = scan_digit_run(chars, d0);
            assert(run >= 1) by {
                assert(is_digit(chars@[d0 as int]));
            }
            let end = d0 + run;
            let acc = fold_digits(chars, d0, run, 0x8000_0000);
            let size = end - i;
            if neg && acc <= 0x8000_0000 {
                let v: i32 = (-(acc as i64)) as i32;
                assert(v as int == -(acc as int));
                (Token::Number(v, size), size - 1)
            } else if !neg && acc <= 0x7fff_ffff {
                let v: i32 = acc as i32;
                (Token::Number(v, size), size - 1)
            } else {
                let s = vec_to_string(chars, i, end);
                (Token::Unknown(s, size), size - 1)
            }
        }
    }
    else if c == '`' {
        let k = find_tick(chars, i + 1);
        if k == clen {
            let s = vec_to_string(chars, i, clen);
            (Token::Unknown(s, clen - i), clen - i - 1)
        } else {
            let sub = vec_sub(chars, i + 1, k);
            let j = json_value(&sub);
            (Token::Literal(j, k + 1 - i), k - i)
        }
    }
    else {
        let s = vec_to_string(chars, i, i + 1);
        proof {
            assert(s@ =~= seq![chars@[i as int]]);
        }
        (Token::Unknown(s, 1), 0)
    }
}

/// The tokens of the whole text, ending with `Eof`.
pub fn tokenize(chars: &Vec<char>) -> (toks: Vec<Token>)
    ensures
        toks.deep_view() == spec_tokenize(chars@),
{
    let mut toks: Vec<Token> = Vec::new();
    let mut i: usize = 0;
    while i < chars.len()
        invariant
            i <= chars@.len(),
            spec_tokenize(chars@) == toks.deep_view() + spec_tokenize_from(chars@, i as int),
        decreases chars@.len() - i,
    {
        let (t, extra) = next_token(chars, i);
        let ghost old_toks = toks.deep_view();
        toks.push(t);
        proof {
            assert(toks.deep_view() =~= old_toks + seq![t.deep_view()]);
            assert(old_toks + (seq![t.deep_view()] + spec_tokenize_from(
                chars@,
                i + 1 + extra,
            )) =~= (old_toks + seq![t.deep_view()]) + spec_tokenize_from(chars@, i + 1 + extra));
        }
        i = i + 1 + extra;
    }
    let ghost old_toks = toks.deep_view();
    toks.push(Token::Eof);
    proof {
        assert(toks.deep_view() =~= old_toks + seq![TokenView::Eof]);
    }
    toks
}

/// The token scanned inside the text is never `Eof`, covers exactly the
/// characters it consumes, and stays within the text.
pub proof fn lemma_spec_next_facts(cs: Seq<char>, i: int)
    requires
        0 <= i < cs.len(),
    ensures
        !(spec_next(cs, i).0 is Eof),
        tv_size(spec_next(cs, i).0) == 1 + spec_next(cs, i).1,
        i + 1 + spec_next(cs, i).1 <= cs.len(),
{
    let c = cs[i];
    if is_ident_start(c) {
        lemma_ident_len_bound(cs, i);
        assert(ident_len(cs, i) >= 1);
    } else if is_digit(c) || c == '-' {
        let neg = c == '-';
        let d0: int = if neg { i + 1 } else { i };
        if !(neg && (d0 >= cs.len() || !is_digit(cs[d0]))) {
            lemma_digit_run_bound(cs, d0);
            assert(digit_run(cs, d0) >= 1);
        }
    } else if c == '`' {
        lemma_close_tick_bound(cs, i + 1);
    }
}

/// The identifier run starting inside the text stays within it.
pub proof fn lemma_ident_len_bound(cs: Seq<char>, i: int)
    requires
        0 <= i <= cs.len(),
    ensures
        i + ident_len(cs, i) <= cs.len(),
    decreases cs.len() - i,
{
    if i < cs.len() && is_ident_char(cs[i]) {
        lemma_ident_len_bound(cs, i + 1);
    }
}

/// The digit run starting inside the text stays within it.
pub proof fn lemma_digit_run_bound(cs: Seq<char>, i: int)
    requires
        0 <= i <= cs.len(),
    ensures
        i + digit_run(cs, i) <= cs.len(),
    decreases cs.len() - i,
{
    if i < cs.len() && is_digit(cs[i]) {
        lemma_digit_run_bound(cs, i + 1);
    }
}

/// The closing-backtick search stays within the text.
pub proof fn lemma_close_tick_bound(cs: Seq<char>, j: int)
    requires
        0 <= j <= cs.len(),
    ensures
        j <= close_tick(cs, j) <= cs.len(),
    decreases cs.len() - j,
{
    if j < cs.len() && cs[j] != '`' {
        lemma_close_tick_bound(cs, j + 1);
    }
}

/// The token sequence of `cs[i..]` is non-empty, ends with its only `Eof`,
/// and covers exactly the remaining characters.
pub proof fn lemma_tokenize_from_wf(cs: Seq<char>, i: int)
    requires
        0 <= i <= cs.len(),
    ensures
        spec_tokenize_from(cs, i).len() >= 1,
        spec_tokenize_from(cs, i).last() is Eof,
        forall|k: int| 0 <= k < spec_tokenize_from(cs, i).len() - 1 ==> !(spec_tokenize_from(
            cs,
            i,
        )[k] is Eof),
        sum_sizes(spec_tokenize_from(cs, i)) == cs.len() - i,
    decreases cs.len() - i,
{
    let ts = spec_tokenize_from(cs, i);
    if i >= cs.len() {
        assert(ts =~= seq![TokenView::Eof]);
        assert(sum_sizes(ts) == tv_size(TokenView::Eof) + sum_sizes(ts.drop_first()));
        assert(ts.drop_first() =~= Seq::<TokenView>::empty());
    } else {
        let (t, extra) = spec_next(cs, i);
        lemma_spec_next_facts(cs, i);
        let j = i + 1 + extra;
        lemma_tokenize_from_wf(cs, j);
        let rest = spec_tokenize_from(cs, j);
        assert(ts =~= seq![t] + rest);
        assert(ts.drop_first() =~= rest);
        assert(sum_sizes(ts) == tv_size(t) + sum_sizes(rest));
    }
}

/// Splitting the size sum of a token sequence at one token.
pub proof fn lemma_sum_skip(ts: Seq<TokenView>, idx: int)
    requires
        0 <= idx < ts.len(),
    ensures
        sum_sizes(ts.skip(idx)) == tv_size(ts[idx]) + sum_sizes(ts.skip(idx + 1)),
{
    assert(ts.skip(idx).drop_first() =~= ts.skip(idx + 1));
    assert(sum_sizes(ts.skip(idx)) == tv_size(ts.skip(idx)[0]) + sum_sizes(
        ts.skip(idx).drop_first(),
    ));
}

/// If every character from `i` on is a digit, the digit run reaches the end.
pub proof fn lemma_digit_run_full(cs: Seq<char>, i: int)
    requires
        0 <= i <= cs.len(),
        forall|k: int| i <= k < cs.len() ==> is_digit(cs[k]),
    ensures
        digit_run(cs, i) == cs.len() - i,
    decreases cs.len() - i,
{
    if i < cs.len() {
        lemma_digit_run_full(cs, i + 1);
    }
}

} // verus!
