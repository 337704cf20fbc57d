//! The Pratt parser: its mathematical definition (the `spec_*` functions),
//! the executable [`Parser`] proved to match it, and the laws that follow.
//!
//! The spec functions walk a token sequence with a current index `idx` and a
//! running character offset `pos`, exactly as the executable parser does.
//! Every recursive step re-enters at a strictly larger index; the `step`
//! helper makes that visible to the termination checker, and the executable
//! parser proves that the clamping it does never actually happens.

use vstd::prelude::*;
use vstd::string::StringExecFns;
use crate::ast::{Ast, AstView, Json, KeyValuePair, ast_view, ast_seq_view, kvp_seq_view,
    json_view, JsonView, opt_view, lemma_ast_seq_view, lemma_kvp_seq_view};
use crate::errors::{ErrView, ParseError, err_matches, err_msg_view, format_error};
use crate::lexer::{spec_tokenize, str_chars, sum_sizes, tokenize, lemma_tokenize_from_wf,
    lemma_sum_skip};
use crate::token::{Token, TokenView, tv_lbp, tv_size};

verus! {

/// The outcome of one spec-level parsing step: a result, the new current
/// index, and the new running offset.
pub struct SpOut<T> {
    pub res: Result<T, ErrView>,
    pub idx: int,
    pub pos: int,
}

/// The error raised at token `toks[idx]`, offset `pos`, with message `body`.
pub open spec fn sp_err(toks: Seq<TokenView>, idx: int, pos: int, body: Seq<char>) -> ErrView {
    ErrView { msg: err_msg_view(toks[idx], pos as nat, body), col: pos as nat }
}

/// A placeholder error for index arguments outside the token sequence,
/// which the executable parser never reaches.
pub open spec fn stray_err() -> ErrView {
    ErrView { msg: Seq::empty(), col: 0 }
}

/// Forces a continuation index into `idx < .. <= len`, for termination.
/// The executable parser always continues at such an index, so for it this
/// is the identity.
pub open spec fn step(j: int, idx: int, len: int) -> int {
    if idx + 1 >= len {
        len
    } else if j <= idx {
        idx + 1
    } else if j > len {
        len
    } else {
        j
    }
}

/// Skipping whitespace: commits the size of the current token and of every
/// whitespace token after it, and stops on the first other token (or on the
/// last token of the sequence).
pub open spec fn spec_advance(toks: Seq<TokenView>, idx: int, pos: int) -> (int, int)
    decreases toks.len() - idx,
{
    let p2 = pos + tv_size(toks[idx]);
    if idx < 0 || idx + 1 >= toks.len() {
        (idx, p2)
    } else if toks[idx + 1] is Whitespace {
        spec_advance(toks, idx + 1, p2)
    } else {
        (idx + 1, p2)
    }
}

/// A set of token kinds that `expect` may demand.
#[derive(Clone, Copy)]
pub enum Edible {
    Colon,
    ColonRbracket,
    NumberColonRbracket,
    NumberColonStar,
    Rbracket,
    DotRhs,
}

/// Whether token `t` belongs to the set `e`.
pub open spec fn edible_contains(e: Edible, t: TokenView) -> bool {
    match e {
        Edible::Colon => t is Colon,
        Edible::ColonRbracket => t is Colon || t is Rbracket,
        Edible::NumberColonRbracket => t is Number || t is Colon || t is Rbracket,
        Edible::NumberColonStar => t is Number || t is Colon || t is Star,
        Edible::Rbracket => t is Rbracket,
        Edible::DotRhs => t is Identifier || t is Star || t is Lbrace || t is Lbracket
            || t is Ampersand || t is Filter,
    }
}

/// The name of the set `e`, as it appears in error messages.
pub open spec fn edible_label(e: Edible) -> Seq<char> {
    match e {
        Edible::Colon => "\"Colon\""@,
        Edible::ColonRbracket => "\"Colon|Rbracket\""@,
        Edible::NumberColonRbracket => "\"Number|Colon|Rbracket\""@,
        Edible::NumberColonStar => "\"Number|Colon|Star\""@,
        Edible::Rbracket => "\"Rbracket\""@,
        Edible::DotRhs => "\"Identifier|Star|Lbrace|Lbracket|Ampersand|Filter\""@,
    }
}

/// Advances, then demands that the new current token belong to `e`.
pub open spec fn spec_expect(toks: Seq<TokenView>, idx: int, pos: int, e: Edible) -> SpOut<()> {
    let (i2, p2) = spec_advance(toks, idx, pos);
    if edible_contains(e, toks[i2]) {
        SpOut { res: Ok(()), idx: i2, pos: p2 }
    } else {
        SpOut {
            res: Err(sp_err(toks, i2, p2, "Expected one of the following tokens: "@ + edible_label(e))),
            idx: i2,
            pos: p2,
        }
    }
}

/// The prefix (nud) interpretation of the current token.
pub open spec fn spec_nud(toks: Seq<TokenView>, idx: int, pos: int) -> SpOut<AstView>
    decreases toks.len() - idx, 25int,
{
    if idx < 0 || idx >= toks.len() {
        SpOut { res: Err(stray_err()), idx, pos }
    } else {
        let len = toks.len() as int;
        match toks[idx] {
            TokenView::At => {
                let (j, p) = spec_advance(toks, idx, pos);
                SpOut { res: Ok(AstView::CurrentNode), idx: j, pos: p }
            },
            TokenView::Identifier(s, _) => {
                let (j, p) = spec_advance(toks, idx, pos);
                SpOut { res: Ok(AstView::Identifier(s)), idx: j, pos: p }
            },
            TokenView::Literal(v, _) => {
                let (j, p) = spec_advance(toks, idx, pos);
                SpOut { res: Ok(AstView::Literal(v)), idx: j, pos: p }
            },
            TokenView::Star => {
                let (j, p) = spec_advance(toks, idx, pos);
                spec_wildcard_values(toks, step(j, idx, len), p, AstView::CurrentNode)
            },
            TokenView::Lbracket => {
                let (j0, p) = spec_advance(toks, idx, pos);
                let j = step(j0, idx, len);
                if toks[j] is Number || toks[j] is Colon {
                    spec_array_index(toks, j, p)
                } else if toks[j] is Star {
                    if j + 1 < len && toks[j + 1] is Rbracket {
                        spec_wildcard_index(toks, j, p)
                    } else {
                        spec_multi_list(toks, j, p, Seq::empty())
                    }
                } else {
                    spec_multi_list(toks, j, p, Seq::empty())
                }
            },
            TokenView::Flatten => spec_led_flatten(toks, idx, pos, AstView::CurrentNode),
            TokenView::Lbrace => spec_hash(toks, idx, pos, Seq::empty()),
            TokenView::Eof => SpOut {
                res: Err(sp_err(toks, idx, pos, "Unexpected EOF"@)),
                idx,
                pos,
            },
            _ => SpOut {
                res: Err(sp_err(toks, idx, pos, "Unexpected nud token"@)),
                idx,
                pos,
            },
        }
    }
}

/// One expression at right binding power `rbp`: a prefix interpretation
/// extended by infix interpretations while `rbp` is below the current
/// token's binding power.
pub open spec fn spec_expr(toks: Seq<TokenView>, idx: int, pos: int, rbp: nat) -> SpOut<AstView>
    decreases toks.len() - idx, 30int,
{
    if idx < 0 || idx >= toks.len() {
        SpOut { res: Err(stray_err()), idx, pos }
    } else {
        let nd = spec_nud(toks, idx, pos);
        match nd.res {
            Err(e) => nd,
            Ok(left) => spec_led_loop(
                toks,
                step(nd.idx, idx, toks.len() as int),
                nd.pos,
                rbp,
                left,
            ),
        }
    }
}

/// The Pratt loop: extends `left` while the current token binds tighter
/// than `rbp`.
pub open spec fn spec_led_loop(
    toks: Seq<TokenView>,
    idx: int,
    pos: int,
    rbp: nat,
    left: AstView,
) -> SpOut<AstView>
    decreases toks.len() - idx, 20int,
{
    if idx < 0 || idx >= toks.len() {
        SpOut { res: Err(stray_err()), idx, pos }
    } else if rbp < tv_lbp(toks[idx]) {
        let len = toks.len() as int;
        let out = match toks[idx] {
            TokenView::Dot => spec_led_dot(toks, idx, pos, left),
            TokenView::Lbracket => spec_led_lbracket(toks, idx, pos),
            TokenView::Flatten => spec_led_flatten(toks, idx, pos, left),
            TokenView::Or => spec_led_or(toks, idx, pos, left),
            TokenView::Pipe => spec_led_pipe(toks, idx, pos, left),
            _ => SpOut {
                res: Err(sp_err(toks, idx, pos, "Unexpected led token"@)),
                idx,
                pos,
            },
        };
        match out.res {
            Err(e) => out,
            Ok(newl) => spec_led_loop(toks, step(out.idx, idx, len), out.pos, rbp, newl),
        }
    } else {
        SpOut { res: Ok(left), idx, pos }
    }
}

/// Infix dot: `left . rhs` under the restricted dot grammar.
pub open spec fn spec_led_dot(toks: Seq<TokenView>, idx: int, pos: int, left: AstView) -> SpOut<
    AstView,
>
    decreases toks.len() - idx, 15int,
{
    if idx < 0 || idx >= toks.len() {
        SpOut { res: Err(stray_err()), idx, pos }
    } else {
        let out = spec_parse_dot(toks, idx, pos, 40);
        match out.res {
            Err(e) => out,
            Ok(rhs) => SpOut {
                res: Ok(AstView::Subexpr(Box::new(left), Box::new(rhs))),
                idx: out.idx,
                pos: out.pos,
            },
        }
    }
}

/// Infix bracket: an index, a slice projection, or a wildcard index. The
/// left-hand side plays no part in the tree these paths build.
pub open spec fn spec_led_lbracket(toks: Seq<TokenView>, idx: int, pos: int) -> SpOut<AstView>
    decreases toks.len() - idx, 15int,
{
    if idx < 0 || idx >= toks.len() {
        SpOut { res: Err(stray_err()), idx, pos }
    } else {
        let len = toks.len() as int;
        let ex = spec_expect(toks, idx, pos, Edible::NumberColonStar);
        match ex.res {
            Err(e) => SpOut { res: Err(e), idx: ex.idx, pos: ex.pos },
            Ok(u) => {
                let j = step(ex.idx, idx, len);
                if toks[j] is Number || toks[j] is Colon {
                    spec_array_index(toks, j, ex.pos)
                } else {
                    spec_wildcard_index(toks, j, ex.pos)
                }
            },
        }
    }
}

/// Infix flatten: consumes the token and projects `Flatten(left)` over the
/// projection right-hand side.
pub open spec fn spec_led_flatten(toks: Seq<TokenView>, idx: int, pos: int, left: AstView) -> SpOut<
    AstView,
>
    decreases toks.len() - idx, 10int,
{
    if idx < 0 || idx >= toks.len() {
        SpOut { res: Err(stray_err()), idx, pos }
    } else {
        let len = toks.len() as int;
        let (j, p) = spec_advance(toks, idx, pos);
        let out = spec_projection_rhs(toks, step(j, idx, len), p);
        match out.res {
            Err(e) => out,
            Ok(rhs) => SpOut {
                res: Ok(AstView::ArrayProjection(
                    Box::new(AstView::Flatten(Box::new(left))),
                    Box::new(rhs),
                )),
                idx: out.idx,
                pos: out.pos,
            },
        }
    }
}

/// Infix logical or.
pub open spec fn spec_led_or(toks: Seq<TokenView>, idx: int, pos: int, left: AstView) -> SpOut<
    AstView,
>
    decreases toks.len() - idx, 15int,
{
    if idx < 0 || idx >= toks.len() {
        SpOut { res: Err(stray_err()), idx, pos }
    } else {
        let len = toks.len() as int;
        let (j, p) = spec_advance(toks, idx, pos);
        let out = spec_expr(toks, step(j, idx, len), p, 2);
        match out.res {
            Err(e) => out,
            Ok(rhs) => SpOut {
                res: Ok(AstView::Or(Box::new(left), Box::new(rhs))),
                idx: out.idx,
                pos: out.pos,
            },
        }
    }
}

/// Infix pipe: sequential composition, looser than dot.
pub open spec fn spec_led_pipe(toks: Seq<TokenView>, idx: int, pos: int, left: AstView) -> SpOut<
    AstView,
>
    decreases toks.len() - idx, 15int,
{
    if idx < 0 || idx >= toks.len() {
        SpOut { res: Err(stray_err()), idx, pos }
    } else {
        let len = toks.len() as int;
        let (j, p) = spec_advance(toks, idx, pos);
        let out = spec_expr(toks, step(j, idx, len), p, 1);
        match out.res {
            Err(e) => out,
            Ok(rhs) => SpOut {
                res: Ok(AstView::Subexpr(Box::new(left), Box::new(rhs))),
                idx: out.idx,
                pos: out.pos,
            },
        }
    }
}

/// The right-hand side of a dot: a restricted set of starting tokens, with
/// a bracket opening a multi-select list.
pub open spec fn spec_parse_dot(toks: Seq<TokenView>, idx: int, pos: int, lbp: nat) -> SpOut<
    AstView,
>
    decreases toks.len() - idx, 10int,
{
    if idx < 0 || idx >= toks.len() {
        SpOut { res: Err(stray_err()), idx, pos }
    } else {
        let len = toks.len() as int;
        let ex = spec_expect(toks, idx, pos, Edible::DotRhs);
        match ex.res {
            Err(e) => SpOut { res: Err(e), idx: ex.idx, pos: ex.pos },
            Ok(u) => {
                let j = step(ex.idx, idx, len);
                if toks[j] is Lbracket {
                    let (k, p2) = spec_advance(toks, j, ex.pos);
                    spec_multi_list(toks, step(k, j, len), p2, Seq::empty())
                } else {
                    spec_expr(toks, j, ex.pos, lbp)
                }
            },
        }
    }
}

/// What follows a projection: a dot continues under the dot grammar, a
/// bracket or filter continues as an expression, a loosely binding token
/// leaves the identity, and anything else is an error.
pub open spec fn spec_projection_rhs(toks: Seq<TokenView>, idx: int, pos: int) -> SpOut<AstView>
    decreases toks.len() - idx, 40int,
{
    if idx < 0 || idx >= toks.len() {
        SpOut { res: Err(stray_err()), idx, pos }
    } else {
        let lbp = tv_lbp(toks[idx]);
        if toks[idx] is Dot {
            spec_parse_dot(toks, idx, pos, lbp)
        } else if toks[idx] is Lbracket {
            spec_expr(toks, idx, pos, lbp)
        } else if toks[idx] is Filter {
            spec_expr(toks, idx, pos, lbp)
        } else if lbp < 10 {
            SpOut { res: Ok(AstView::CurrentNode), idx, pos }
        } else {
            SpOut {
                res: Err(sp_err(toks, idx, pos, "Syntax error found in projection"@)),
                idx,
                pos,
            }
        }
    }
}

/// The wildcard index `[*]`: consumes `*]` and projects the current node
/// over the projection right-hand side.
pub open spec fn spec_wildcard_index(toks: Seq<TokenView>, idx: int, pos: int) -> SpOut<AstView>
    decreases toks.len() - idx, 10int,
{
    if idx < 0 || idx >= toks.len() {
        SpOut { res: Err(stray_err()), idx, pos }
    } else {
        let len = toks.len() as int;
        let ex = spec_expect(toks, idx, pos, Edible::Rbracket);
        match ex.res {
            Err(e) => SpOut { res: Err(e), idx: ex.idx, pos: ex.pos },
            Ok(u) => {
                let j = step(ex.idx, idx, len);
                let (k, p2) = spec_advance(toks, j, ex.pos);
                let out = spec_projection_rhs(toks, step(k, j, len), p2);
                match out.res {
                    Err(e) => out,
                    Ok(rhs) => SpOut {
                        res: Ok(AstView::ArrayProjection(
                            Box::new(AstView::CurrentNode),
                            Box::new(rhs),
                        )),
                        idx: out.idx,
                        pos: out.pos,
                    },
                }
            },
        }
    }
}

/// The bare wildcard `*`: projects `lhs` over the projection right-hand
/// side, over an object's values.
pub open spec fn spec_wildcard_values(toks: Seq<TokenView>, idx: int, pos: int, lhs: AstView) -> SpOut<
    AstView,
>
    decreases toks.len() - idx, 50int,
{
    if idx < 0 || idx >= toks.len() {
        SpOut { res: Err(stray_err()), idx, pos }
    } else {
        let out = spec_projection_rhs(toks, idx, pos);
        match out.res {
            Err(e) => out,
            Ok(rhs) => SpOut {
                res: Ok(AstView::ObjectProjection(Box::new(lhs), Box::new(rhs))),
                idx: out.idx,
                pos: out.pos,
            },
        }
    }
}

/// Scans the slice parts between brackets: numbers and up to two colons, in
/// any order, ended by `]` (which it consumes).
pub open spec fn spec_slice_scan(
    toks: Seq<TokenView>,
    idx: int,
    pos: int,
    p0: Option<int>,
    p1: Option<int>,
    p2: Option<int>,
    cnt: nat,
) -> SpOut<(Option<int>, Option<int>, Option<int>, nat)>
    decreases toks.len() - idx, 10int,
{
    if idx < 0 || idx >= toks.len() {
        SpOut { res: Err(stray_err()), idx, pos }
    } else {
        let len = toks.len() as int;
        match toks[idx] {
            TokenView::Colon => {
                if cnt + 1 > 2 {
                    SpOut {
                        res: Err(sp_err(toks, idx, pos, "Too many colons in slice expr"@)),
                        idx,
                        pos,
                    }
                } else {
                    let ex = spec_expect(toks, idx, pos, Edible::NumberColonRbracket);
                    match ex.res {
                        Err(e) => SpOut { res: Err(e), idx: ex.idx, pos: ex.pos },
                        Ok(u) => spec_slice_scan(
                            toks,
                            step(ex.idx, idx, len),
                            ex.pos,
                            p0,
                            p1,
                            p2,
                            cnt + 1,
                        ),
                    }
                }
            },
            TokenView::Number(v, _) => {
                let q0 = if cnt == 0 { Some(v) } else { p0 };
                let q1 = if cnt == 1 { Some(v) } else { p1 };
                let q2 = if cnt == 2 { Some(v) } else { p2 };
                let ex = spec_expect(toks, idx, pos, Edible::ColonRbracket);
                match ex.res {
                    Err(e) => SpOut { res: Err(e), idx: ex.idx, pos: ex.pos },
                    Ok(u) => spec_slice_scan(toks, step(ex.idx, idx, len), ex.pos, q0, q1, q2, cnt),
                }
            },
            TokenView::Rbracket => {
                let (j, p) = spec_advance(toks, idx, pos);
                SpOut { res: Ok((p0, p1, p2, cnt)), idx: j, pos: p }
            },
            _ => SpOut { res: Err(sp_err(toks, idx, pos, "Unexpected token"@)), idx, pos },
        }
    }
}

/// An index or slice between brackets: without colons a fixed `Index`, with
/// colons a slice that becomes a projection over its result.
pub open spec fn spec_array_index(toks: Seq<TokenView>, idx: int, pos: int) -> SpOut<AstView>
    decreases toks.len() - idx, 20int,
{
    if idx < 0 || idx >= toks.len() {
        SpOut { res: Err(stray_err()), idx, pos }
    } else {
        let len = toks.len() as int;
        let sc = spec_slice_scan(toks, idx, pos, None, None, None, 0);
        match sc.res {
            Err(e) => SpOut { res: Err(e), idx: sc.idx, pos: sc.pos },
            Ok(parts) => {
                if parts.3 == 0 {
                    match parts.0 {
                        Some(v) => SpOut { res: Ok(AstView::Index(v)), idx: sc.idx, pos: sc.pos },
                        None => SpOut { res: Ok(AstView::Index(0)), idx: sc.idx, pos: sc.pos },
                    }
                } else {
                    let out = spec_projection_rhs(toks, step(sc.idx, idx, len), sc.pos);
                    match out.res {
                        Err(e) => out,
                        Ok(rhs) => SpOut {
                            res: Ok(AstView::ArrayProjection(
                                Box::new(AstView::Slice(parts.0, parts.1, parts.2)),
                                Box::new(rhs),
                            )),
                            idx: out.idx,
                            pos: out.pos,
                        },
                    }
                }
            },
        }
    }
}

/// A multi-select list: a non-empty comma-separated sequence of
/// expressions, ended by `]` (which it leaves in place).
pub open spec fn spec_multi_list(toks: Seq<TokenView>, idx: int, pos: int, acc: Seq<AstView>) -> SpOut<
    AstView,
>
    decreases toks.len() - idx, 40int,
{
    if idx < 0 || idx >= toks.len() {
        SpOut { res: Err(stray_err()), idx, pos }
    } else {
        let len = toks.len() as int;
        let e = spec_expr(toks, idx, pos, 0);
        match e.res {
            Err(err) => SpOut { res: Err(err), idx: e.idx, pos: e.pos },
            Ok(a) => {
                let acc2 = acc.push(a);
                let j = step(e.idx, idx, len);
                if toks[j] is Comma {
                    let (k, p2) = spec_advance(toks, j, e.pos);
                    spec_multi_list(toks, step(k, j, len), p2, acc2)
                } else if toks[j] is Rbracket {
                    SpOut { res: Ok(AstView::MultiList(acc2)), idx: j, pos: e.pos }
                } else {
                    spec_multi_list(toks, j, e.pos, acc2)
                }
            },
        }
    }
}

/// One key-value pair of a multi-select hash: an identifier key, a colon,
/// and an expression value.
pub open spec fn spec_kvp(toks: Seq<TokenView>, idx: int, pos: int) -> SpOut<(AstView, AstView)>
    decreases toks.len() - idx, 10int,
{
    if idx < 0 || idx >= toks.len() {
        SpOut { res: Err(stray_err()), idx, pos }
    } else {
        let len = toks.len() as int;
        match toks[idx] {
            TokenView::Identifier(nm, _) => {
                let ex = spec_expect(toks, idx, pos, Edible::Colon);
                match ex.res {
                    Err(e) => SpOut { res: Err(e), idx: ex.idx, pos: ex.pos },
                    Ok(u) => {
                        let j = step(ex.idx, idx, len);
                        let (k, p2) = spec_advance(toks, j, ex.pos);
                        let e = spec_expr(toks, step(k, j, len), p2, 0);
                        match e.res {
                            Err(err) => SpOut { res: Err(err), idx: e.idx, pos: e.pos },
                            Ok(v) => SpOut {
                                res: Ok((AstView::Literal(JsonView::String(nm)), v)),
                                idx: e.idx,
                                pos: e.pos,
                            },
                        }
                    },
                }
            },
            _ => SpOut {
                res: Err(sp_err(toks, idx, pos, "Expected Identifier to start key value pair"@)),
                idx,
                pos,
            },
        }
    }
}

/// A multi-select hash: advances past `{` or `,`, reads a pair, and goes on
/// until `}` (which it consumes).
pub open spec fn spec_hash(toks: Seq<TokenView>, idx: int, pos: int, acc: Seq<(AstView, AstView)>) -> SpOut<
    AstView,
>
    decreases toks.len() - idx, 10int,
{
    if idx < 0 || idx >= toks.len() {
        SpOut { res: Err(stray_err()), idx, pos }
    } else {
        let len = toks.len() as int;
        let (j0, q) = spec_advance(toks, idx, pos);
        let j = step(j0, idx, len);
        let kv = spec_kvp(toks, j, q);
        match kv.res {
            Err(e) => SpOut { res: Err(e), idx: kv.idx, pos: kv.pos },
            Ok(pair) => {
                let acc2 = acc.push(pair);
                let k = step(kv.idx, j, len);
                if toks[k] is Rbrace {
                    let (m, r) = spec_advance(toks, k, kv.pos);
                    SpOut { res: Ok(AstView::MultiHash(acc2)), idx: m, pos: r }
                } else if toks[k] is Comma {
                    spec_hash(toks, k, kv.pos, acc2)
                } else {
                    SpOut {
                        res: Err(sp_err(toks, k, kv.pos, "Expected Rbrace or Comma"@)),
                        idx: k,
                        pos: kv.pos,
                    }
                }
            },
        }
    }
}

/// A whole parse: one expression at binding power 0, after which the token
/// following the current one must be the end of the stream.
pub open spec fn spec_parser_parse(toks: Seq<TokenView>, idx: int, pos: int) -> SpOut<AstView>
    decreases toks.len() - idx, 60int,
{
    if idx < 0 || idx >= toks.len() {
        SpOut { res: Err(stray_err()), idx, pos }
    } else {
        let e = spec_expr(toks, idx, pos, 0);
        match e.res {
            Err(err) => e,
            Ok(a) => {
                if e.idx + 1 >= toks.len() || toks[e.idx + 1] is Eof {
                    e
                } else {
                    SpOut {
                        res: Err(sp_err(toks, e.idx, e.pos, "Did not reach token stream EOF"@)),
                        idx: e.idx,
                        pos: e.pos,
                    }
                }
            },
        }
    }
}

/// What parsing a text yields: the model of the tree on success, the
/// message and column of the error on failure.
pub open spec fn spec_parse(cs: Seq<char>) -> Result<AstView, ErrView> {
    spec_parser_parse(spec_tokenize(cs), 0, 0).res
}

/// Whether the executable result `r` is modelled by `s`.
pub open spec fn parse_result_matches(r: Result<Ast, ParseError>, s: Result<AstView, ErrView>) -> bool {
    match (r, s) {
        (Result::Ok(a), Result::Ok(v)) => ast_view(a) == v,
        (Result::Err(e), Result::Err(ev)) => err_matches(e, ev),
        _ => false,
    }
}

/// Whether the executable step result `r` taken at parser state `p` is
/// modelled by the spec step `out`.
pub open spec fn out_matches(r: Result<Ast, ParseError>, p: Parser, out: SpOut<AstView>) -> bool {
    &&& p.cur_idx() == out.idx
    &&& p.cur_pos() == out.pos
    &&& match (r, out.res) {
        (Result::Ok(a), Result::Ok(v)) => ast_view(a) == v,
        (Result::Err(e), Result::Err(ev)) => err_matches(e, ev),
        _ => false,
    }
}

/// Parses an expression into an abstract syntax tree.
///
/// On success the tree is exactly the one [`spec_parse`] gives for the
/// text; on failure the error carries the message and column that
/// [`spec_parse`] gives.
pub fn parse(expr: &str) -> (r: Result<Ast, ParseError>)
    ensures
        parse_result_matches(r, spec_parse(expr@)),
{
    let mut p = Parser::new(expr);
    p.parse()
}

/// The expression parser: a token sequence, the index of the current
/// token, and the running character offset used for error reporting.
pub struct Parser {
    /// The tokens of the expression, ending with `Eof`.
    tokens: Vec<Token>,
    /// The index of the current token.
    idx: usize,
    /// The character offset of the current token in the expression.
    pos: usize,
}

impl Parser {
    /// The models of the tokens.
    pub closed spec fn toks(&self) -> Seq<TokenView> {
        self.tokens.deep_view()
    }

    /// The index of the current token.
    pub closed spec fn cur_idx(&self) -> int {
        self.idx as int
    }

    /// The running character offset.
    pub closed spec fn cur_pos(&self) -> int {
        self.pos as int
    }

    /// The parser state invariant: the current index is inside the token
    /// sequence, exactly the last token is `Eof`, and the offset can absorb
    /// the sizes of all remaining tokens without overflowing.
    pub closed spec fn wf(&self) -> bool {
        &&& self.idx < self.tokens.len()
        &&& self.toks().last() is Eof
        &&& forall|k: int| 0 <= k < self.toks().len() - 1 ==> !(self.toks()[k] is Eof)
        &&& self.pos as nat + sum_sizes(self.toks().skip(self.idx as int)) <= usize::MAX
    }

    /// Tokenizes an expression and stands ready to parse it.
    pub fn new(expr: &str) -> (p: Parser)
        ensures
            p.wf(),
            p.toks() == spec_tokenize(expr@),
            p.cur_idx() == 0,
            p.cur_pos() == 0,
    {
        let chars = str_chars(expr);
        let n = chars.len();
        let tokens = tokenize(&chars);
        proof {
            lemma_tokenize_from_wf(chars@, 0);
            assert(tokens.deep_view().skip(0) =~= tokens.deep_view());
        }
        Parser { tokens, idx: 0, pos: 0 }
    }

    /// Builds a [`ParseError`] naming the current token, the current
    /// offset, and `msg`.
    fn err(&self, msg: &str) -> (e: ParseError)
        requires
            self.wf(),
        ensures
            err_matches(e, sp_err(self.toks(), self.cur_idx(), self.cur_pos(), msg@)),
    {
        let m = format_error(&self.tokens[self.idx], self.pos, msg);
        ParseError { msg: m, line: 0, col: self.pos }
    }

    /// Commits the current token's size to the offset and moves to the
    /// next non-whitespace token, staying put at the end of the stream.
    fn advance(&mut self)
        requires
            old(self).wf(),
        ensures
            final(self).wf(),
            final(self).toks() == old(self).toks(),
            (final(self).cur_idx(), final(self).cur_pos()) == spec_advance(
                old(self).toks(),
                old(self).cur_idx(),
                old(self).cur_pos(),
            ),
            old(self).cur_idx() <= final(self).cur_idx() < old(self).toks().len(),
            !(old(self).toks()[old(self).cur_idx()] is Eof) ==> final(self).cur_idx() > old(
                self,
            ).cur_idx(),
        decreases self.toks().len() - self.cur_idx(),
    {
        proof {
            lemma_sum_skip(self.toks(), self.idx as int);
        }
        let sz = self.tokens[self.idx].size();
        self.pos = self.pos + sz;
        if self.idx + 1 < self.tokens.len() {
            let ws = match &self.tokens[self.idx + 1] {
                Token::Whitespace => true,
                _ => false,
            };
            self.idx = self.idx + 1;
            if ws {
                self.advance();
            }
        }
    }

    /// Advances, then demands that the new current token belong to `e`
    /// (`label` is the set's name for the error message).
    fn expect(&mut self, e: Edible, label: &str) -> (r: Result<(), ParseError>)
        requires
            old(self).wf(),
            label@ == edible_label(e),
        ensures
            final(self).wf(),
            final(self).toks() == old(self).toks(),
            ({
                let out = spec_expect(old(self).toks(), old(self).cur_idx(), old(self).cur_pos(), e);
                &&& final(self).cur_idx() == out.idx
                &&& final(self).cur_pos() == out.pos
                &&& match (r, out.res) {
                    (Result::Ok(u1), Result::Ok(u2)) => true,
                    (Result::Err(pe), Result::Err(ev)) => err_matches(pe, ev),
                    _ => false,
                }
                &&& (r is Ok ==> edible_contains(e, final(self).toks()[final(self).cur_idx()]))
            }),
            old(self).cur_idx() <= final(self).cur_idx() < old(self).toks().len(),
            !(old(self).toks()[old(self).cur_idx()] is Eof) ==> final(self).cur_idx() > old(
                self,
            ).cur_idx(),
    {
        self.advance();
        if tok_in(e, &self.tokens[self.idx]) {
            Ok(())
        } else {
            let mut m = String::from_str("Expected one of the following tokens: ");
            m.append(label);
            Err(self.err(m.as_str()))
        }
    }

    /// Parses the whole expression: one expression at binding power 0,
    /// after which the token stream must be at its end.
    pub fn parse(&mut self) -> (r: Result<Ast, ParseError>)
        requires
            old(self).wf(),
        ensures
            final(self).wf(),
            final(self).toks() == old(self).toks(),
            out_matches(
                r,
                *final(self),
                spec_parser_parse(old(self).toks(), old(self).cur_idx(), old(self).cur_pos()),
            ),
    {
        let r = self.expr(0);
        match r {
            Result::Err(e) => Err(e),
            Result::Ok(a) => {
                if self.idx + 1 >= self.tokens.len() {
                    Ok(a)
                } else {
                    let at_end = matches!(&self.tokens[self.idx + 1], Token::Eof);
                    if at_end {
                        Ok(a)
                    } else {
                        Err(self.err("Did not reach token stream EOF"))
                    }
                }
            },
        }
    }

    /// One expression at right binding power `rbp`: the Pratt loop.
    #[verifier::loop_isolation(false)]
    pub fn expr(&mut self, rbp: usize) -> (r: Result<Ast, ParseError>)
        requires
            old(self).wf(),
        ensures
            final(self).wf(),
            final(self).toks() == old(self).toks(),
            out_matches(
                r,
                *final(self),
                spec_expr(old(self).toks(), old(self).cur_idx(), old(self).cur_pos(), rbp as nat),
            ),
            old(self).cur_idx() <= final(self).cur_idx(),
            r is Ok ==> old(self).cur_idx() < final(self).cur_idx(),
        decreases self.toks().len() - self.cur_idx(), 30int,
    {
        let ghost toks = self.toks();
        let ghost i0 = self.cur_idx();
        let ghost p0 = self.cur_pos();
        let k = nud_kind(&self.tokens[self.idx]);
        let nud_r: Result<Ast, ParseError> = match k {
            NudKind::KAt => self.nud_at(),
            NudKind::KIdent => {
                let nm = match &self.tokens[self.idx] {
                    Token::Identifier(s, _) => s.clone(),
                    _ => String::new(),
                };
                self.nud_identifier(nm)
            },
            NudKind::KLiteral => {
                let v = match &self.tokens[self.idx] {
                    Token::Literal(j, _) => j.clone(),
                    _ => Json::Null,
                };
                self.nud_literal(v)
            },
            NudKind::KStar => self.nud_star(),
            NudKind::KLbracket => self.nud_lbracket(),
            NudKind::KFlatten => self.nud_flatten(),
            NudKind::KLbrace => self.nud_lbrace(),
            NudKind::KEof => Err(self.err("Unexpected EOF")),
            NudKind::KOther => Err(self.err("Unexpected nud token")),
        };
        let mut left = match nud_r {
            Result::Ok(a) => a,
            Result::Err(e) => {
                return Err(e);
            },
        };
        loop
            invariant
                self.wf(),
                self.toks() == toks,
                i0 < self.cur_idx(),
                spec_expr(toks, i0, p0, rbp as nat) == spec_led_loop(
                    toks,
                    self.cur_idx(),
                    self.cur_pos(),
                    rbp as nat,
                    ast_view(left),
                ),
            decreases self.toks().len() - self.cur_idx(),
        {
            let lbp = self.tokens[self.idx].lbp();
            if !(rbp < lbp) {
                return Ok(left);
            }
            let lk = led_kind(&self.tokens[self.idx]);
            let led_r: Result<Ast, ParseError> = match lk {
                LedKind::LDot => self.led_dot(left),
                LedKind::LLbracket => self.led_lbracket(left),
                LedKind::LFlatten => self.led_flatten(left),
                LedKind::LOr => self.led_or(left),
                LedKind::LPipe => self.led_pipe(left),
                LedKind::LOther => {
                    return Err(self.err("Unexpected led token"));
                },
            };
            match led_r {
                Result::Ok(nl) => {
                    left = nl;
                },
                Result::Err(e) => {
                    return Err(e);
                },
            }
        }
    }

    /// Prefix `@`: the current node.
    fn nud_at(&mut self) -> (r: Result<Ast, ParseError>)
        requires
            old(self).wf(),
            old(self).toks()[old(self).cur_idx()] is At,
        ensures
            final(self).wf(),
            final(self).toks() == old(self).toks(),
            out_matches(
                r,
                *final(self),
                spec_nud(old(self).toks(), old(self).cur_idx(), old(self).cur_pos()),
            ),
            old(self).cur_idx() < final(self).cur_idx(),
    {
        self.advance();
        Ok(Ast::CurrentNode)
    }

    /// Prefix identifier: field access by name.
    fn nud_identifier(&mut self, s: String) -> (r: Result<Ast, ParseError>)
        requires
            old(self).wf(),
            old(self).toks()[old(self).cur_idx()] is Identifier,
            s@ == old(self).toks()[old(self).cur_idx()]->Identifier_0,
        ensures
            final(self).wf(),
            final(self).toks() == old(self).toks(),
            out_matches(
                r,
                *final(self),
                spec_nud(old(self).toks(), old(self).cur_idx(), old(self).cur_pos()),
            ),
            old(self).cur_idx() < final(self).cur_idx(),
    {
        self.advance();
        Ok(Ast::Identifier(s))
    }

    /// Prefix literal: an embedded constant.
    fn nud_literal(&mut self, value: Json) -> (r: Result<Ast, ParseError>)
        requires
            old(self).wf(),
            old(self).toks()[old(self).cur_idx()] is Literal,
            json_view(value) == old(self).toks()[old(self).cur_idx()]->Literal_0,
        ensures
            final(self).wf(),
            final(self).toks() == old(self).toks(),
            out_matches(
                r,
                *final(self),
                spec_nud(old(self).toks(), old(self).cur_idx(), old(self).cur_pos()),
            ),
            old(self).cur_idx() < final(self).cur_idx(),
    {
        self.advance();
        Ok(Ast::Literal(value))
    }

    /// Prefix `*`: a projection over the current context's values.
    fn nud_star(&mut self) -> (r: Result<Ast, ParseError>)
        requires
            old(self).wf(),
            old(self).toks()[old(self).cur_idx()] is Star,
        ensures
            final(self).wf(),
            final(self).toks() == old(self).toks(),
            out_matches(
                r,
                *final(self),
                spec_nud(old(self).toks(), old(self).cur_idx(), old(self).cur_pos()),
            ),
            old(self).cur_idx() < final(self).cur_idx(),
        decreases self.toks().len() - self.cur_idx(), 25int,
    {
        self.advance();
        self.parse_wildcard_values(Ast::CurrentNode)
    }

    /// Prefix `[`: index, slice, wildcard index, or multi-select list.
    fn nud_lbracket(&mut self) -> (r: Result<Ast, ParseError>)
        requires
            old(self).wf(),
            old(self).toks()[old(self).cur_idx()] is Lbracket,
        ensures
            final(self).wf(),
            final(self).toks() == old(self).toks(),
            out_matches(
                r,
                *final(self),
                spec_nud(old(self).toks(), old(self).cur_idx(), old(self).cur_pos()),
            ),
            old(self).cur_idx() < final(self).cur_idx(),
        decreases self.toks().len() - self.cur_idx(), 25int,
    {
        self.advance();
        let num_or_colon = matches!(
            &self.tokens[self.idx],
            Token::Number(_, _) | Token::Colon
        );
        if num_or_colon {
            self.parse_array_index()
        } else {
            let star = matches!(&self.tokens[self.idx], Token::Star);
            if star {
                let wildcard = self.idx + 1 < self.tokens.len() && matches!(
                    &self.tokens[self.idx + 1],
                    Token::Rbracket
                );
                if wildcard {
                    self.parse_wildcard_index()
                } else {
                    self.parse_multi_list()
                }
            } else {
                self.parse_multi_list()
            }
        }
    }

    /// Prefix `[]`: an infix flatten applied to the current node.
    fn nud_flatten(&mut self) -> (r: Result<Ast, ParseError>)
        requires
            old(self).wf(),
            old(self).toks()[old(self).cur_idx()] is Flatten,
        ensures
            final(self).wf(),
            final(self).toks() == old(self).toks(),
            out_matches(
                r,
                *final(self),
                spec_nud(old(self).toks(), old(self).cur_idx(), old(self).cur_pos()),
            ),
            old(self).cur_idx() < final(self).cur_idx(),
        decreases self.toks().len() - self.cur_idx(), 25int,
    {
        self.led_flatten(Ast::CurrentNode)
    }

    /// Prefix `{`: a multi-select hash.
    #[verifier::loop_isolation(false)]
    fn nud_lbrace(&mut self) -> (r: Result<Ast, ParseError>)
        requires
            old(self).wf(),
            old(self).toks()[old(self).cur_idx()] is Lbrace,
        ensures
            final(self).wf(),
            final(self).toks() == old(self).toks(),
            out_matches(
                r,
                *final(self),
                spec_nud(old(self).toks(), old(self).cur_idx(), old(self).cur_pos()),
            ),
            old(self).cur_idx() < final(self).cur_idx(),
        decreases self.toks().len() - self.cur_idx(), 25int,
    {
        let ghost toks = self.toks();
        let ghost i0 = self.cur_idx();
        let ghost p0 = self.cur_pos();
        let mut pairs: Vec<KeyValuePair> = Vec::new();
        loop
            invariant
                self.wf(),
                self.toks() == toks,
                i0 <= self.cur_idx(),
                !(toks[self.cur_idx()] is Eof),
                spec_hash(toks, i0, p0, Seq::empty()) == spec_hash(
                    toks,
                    self.cur_idx(),
                    self.cur_pos(),
                    kvp_seq_view(pairs@),
                ),
            decreases self.toks().len() - self.cur_idx(),
        {
            self.advance();
            let kv = match self.parse_kvp() {
                Result::Ok(kv) => kv,
                Result::Err(e) => {
                    return Err(e);
                },
            };
            let ghost old_pairs = pairs@;
            pairs.push(kv);
            proof {
                lemma_kvp_seq_view(old_pairs);
                lemma_kvp_seq_view(pairs@);
                assert(kvp_seq_view(pairs@) =~= kvp_seq_view(old_pairs).push(
                    (ast_view(*pairs@.last().key), ast_view(*pairs@.last().value)),
                ));
            }
            let rbrace = matches!(&self.tokens[self.idx], Token::Rbrace);
            if rbrace {
                self.advance();
                return Ok(Ast::MultiHash(pairs));
            }
            let comma = matches!(&self.tokens[self.idx], Token::Comma);
            if !comma {
                return Err(self.err("Expected Rbrace or Comma"));
            }
        }
    }

    /// One key-value pair: an identifier key, a colon, an expression value.
    fn parse_kvp(&mut self) -> (r: Result<KeyValuePair, ParseError>)
        requires
            old(self).wf(),
        ensures
            final(self).wf(),
            final(self).toks() == old(self).toks(),
            ({
                let out = spec_kvp(old(self).toks(), old(self).cur_idx(), old(self).cur_pos());
                &&& final(self).cur_idx() == out.idx
                &&& final(self).cur_pos() == out.pos
                &&& match (r, out.res) {
                    (Result::Ok(kv), Result::Ok(pv)) => (ast_view(*kv.key), ast_view(*kv.value))
                        == pv,
                    (Result::Err(e), Result::Err(ev)) => err_matches(e, ev),
                    _ => false,
                }
            }),
            old(self).cur_idx() <= final(self).cur_idx(),
            r is Ok ==> old(self).cur_idx() < final(self).cur_idx(),
        decreases self.toks().len() - self.cur_idx(), 10int,
    {
        let is_ident = matches!(&self.tokens[self.idx], Token::Identifier(_, _));
        if !is_ident {
            return Err(self.err("Expected Identifier to start key value pair"));
        }
        let nm = match &self.tokens[self.idx] {
            Token::Identifier(s, _) => s.clone(),
            _ => String::new(),
        };
        match self.expect(Edible::Colon, "\"Colon\"") {
            Result::Err(e) => Err(e),
            Result::Ok(u) => {
                self.advance();
                match self.expr(0) {
                    Result::Err(e) => Err(e),
                    Result::Ok(v) => Ok(
                        KeyValuePair {
                            key: Box::new(Ast::Literal(Json::String(nm))),
                            value: Box::new(v),
                        },
                    ),
                }
            },
        }
    }

    /// Infix dot: `left . rhs` under the restricted dot grammar.
    fn led_dot(&mut self, left: Ast) -> (r: Result<Ast, ParseError>)
        requires
            old(self).wf(),
            old(self).toks()[old(self).cur_idx()] is Dot,
        ensures
            final(self).wf(),
            final(self).toks() == old(self).toks(),
            out_matches(
                r,
                *final(self),
                spec_led_dot(
                    old(self).toks(),
                    old(self).cur_idx(),
                    old(self).cur_pos(),
                    ast_view(left),
                ),
            ),
            old(self).cur_idx() <= final(self).cur_idx(),
            r is Ok ==> old(self).cur_idx() < final(self).cur_idx(),
        decreases self.toks().len() - self.cur_idx(), 15int,
    {
        let l = Token::Dot.lbp();
        match self.parse_dot(l) {
            Result::Err(e) => Err(e),
            Result::Ok(rhs) => Ok(Ast::Subexpr(Box::new(left), Box::new(rhs))),
        }
    }

    /// Infix `[`: index, slice, or wildcard index; `lhs` plays no part in
    /// the tree these paths build.
    fn led_lbracket(&mut self, lhs: Ast) -> (r: Result<Ast, ParseError>)
        requires
            old(self).wf(),
            old(self).toks()[old(self).cur_idx()] is Lbracket,
        ensures
            final(self).wf(),
            final(self).toks() == old(self).toks(),
            out_matches(
                r,
                *final(self),
                spec_led_lbracket(old(self).toks(), old(self).cur_idx(), old(self).cur_pos()),
            ),
            old(self).cur_idx() <= final(self).cur_idx(),
            r is Ok ==> old(self).cur_idx() < final(self).cur_idx(),
        decreases self.toks().len() - self.cur_idx(), 15int,
    {
        match self.expect(Edible::NumberColonStar, "\"Number|Colon|Star\"") {
            Result::Err(e) => Err(e),
            Result::Ok(u) => {
                let num_or_colon = matches!(
                    &self.tokens[self.idx],
                    Token::Number(_, _) | Token::Colon
                );
                if num_or_colon {
                    self.parse_array_index()
                } else {
                    self.parse_wildcard_index()
                }
            },
        }
    }

    /// Infix `[]`: consumes the token and projects `Flatten(lhs)` over the
    /// projection right-hand side.
    fn led_flatten(&mut self, lhs: Ast) -> (r: Result<Ast, ParseError>)
        requires
            old(self).wf(),
            old(self).toks()[old(self).cur_idx()] is Flatten,
        ensures
            final(self).wf(),
            final(self).toks() == old(self).toks(),
            out_matches(
                r,
                *final(self),
                spec_led_flatten(
                    old(self).toks(),
                    old(self).cur_idx(),
                    old(self).cur_pos(),
                    ast_view(lhs),
                ),
            ),
            old(self).cur_idx() < final(self).cur_idx(),
        decreases self.toks().len() - self.cur_idx(), 10int,
    {
        let ghost toks = self.toks();
        let ghost i0 = self.cur_idx();
        proof {
            assert(toks.last() is Eof);
            assert(i0 + 1 < toks.len());
        }
        self.advance();
        proof {
            assert(step(self.cur_idx(), i0, toks.len() as int) == self.cur_idx());
        }
        let l = Token::Flatten.lbp();
        match self.projection_rhs(l) {
            Result::Err(e) => Err(e),
            Result::Ok(rhs) => {
                proof {
                    reveal_with_fuel(ast_view, 3);
                }
                Ok(Ast::ArrayProjection(Box::new(Ast::Flatten(Box::new(lhs))), Box::new(rhs)))
            },
        }
    }

    /// Infix `||`: short-circuiting or.
    fn led_or(&mut self, left: Ast) -> (r: Result<Ast, ParseError>)
        requires
            old(self).wf(),
            old(self).toks()[old(self).cur_idx()] is Or,
        ensures
            final(self).wf(),
            final(self).toks() == old(self).toks(),
            out_matches(
                r,
                *final(self),
                spec_led_or(
                    old(self).toks(),
                    old(self).cur_idx(),
                    old(self).cur_pos(),
                    ast_view(left),
                ),
            ),
            old(self).cur_idx() <= final(self).cur_idx(),
            r is Ok ==> old(self).cur_idx() < final(self).cur_idx(),
        decreases self.toks().len() - self.cur_idx(), 15int,
    {
        self.advance();
        let l = Token::Or.lbp();
        match self.expr(l) {
            Result::Err(e) => Err(e),
            Result::Ok(rhs) => Ok(Ast::Or(Box::new(left), Box::new(rhs))),
        }
    }

    /// Infix `|`: sequential composition, looser than dot.
    fn led_pipe(&mut self, left: Ast) -> (r: Result<Ast, ParseError>)
        requires
            old(self).wf(),
            old(self).toks()[old(self).cur_idx()] is Pipe,
        ensures
            final(self).wf(),
            final(self).toks() == old(self).toks(),
            out_matches(
                r,
                *final(self),
                spec_led_pipe(
                    old(self).toks(),
                    old(self).cur_idx(),
                    old(self).cur_pos(),
                    ast_view(left),
                ),
            ),
            old(self).cur_idx() <= final(self).cur_idx(),
            r is Ok ==> old(self).cur_idx() < final(self).cur_idx(),
        decreases self.toks().len() - self.cur_idx(), 15int,
    {
        self.advance();
        let l = Token::Pipe.lbp();
        match self.expr(l) {
            Result::Err(e) => Err(e),
            Result::Ok(rhs) => Ok(Ast::Subexpr(Box::new(left), Box::new(rhs))),
        }
    }

    /// The right-hand side of a dot: a restricted set of starting tokens,
    /// with a bracket opening a multi-select list.
    fn parse_dot(&mut self, lbp: usize) -> (r: Result<Ast, ParseError>)
        requires
            old(self).wf(),
            old(self).toks()[old(self).cur_idx()] is Dot,
        ensures
            final(self).wf(),
            final(self).toks() == old(self).toks(),
            out_matches(
                r,
                *final(self),
                spec_parse_dot(
                    old(self).toks(),
                    old(self).cur_idx(),
                    old(self).cur_pos(),
                    lbp as nat,
                ),
            ),
            old(self).cur_idx() <= final(self).cur_idx(),
            r is Ok ==> old(self).cur_idx() < final(self).cur_idx(),
        decreases self.toks().len() - self.cur_idx(), 10int,
    {
        match self.expect(
            Edible::DotRhs,
            "\"Identifier|Star|Lbrace|Lbracket|Ampersand|Filter\"",
        ) {
            Result::Err(e) => Err(e),
            Result::Ok(u) => {
                let lbracket = matches!(&self.tokens[self.idx], Token::Lbracket);
                if lbracket {
                    self.advance();
                    self.parse_multi_list()
                } else {
                    self.expr(lbp)
                }
            },
        }
    }

    /// What may follow a projection; loosely binding tokens leave the
    /// identity as the right-hand side.
    fn projection_rhs(&mut self, lbp: usize) -> (r: Result<Ast, ParseError>)
        requires
            old(self).wf(),
        ensures
            final(self).wf(),
            final(self).toks() == old(self).toks(),
            out_matches(
                r,
                *final(self),
                spec_projection_rhs(old(self).toks(), old(self).cur_idx(), old(self).cur_pos()),
            ),
            old(self).cur_idx() <= final(self).cur_idx(),
        decreases self.toks().len() - self.cur_idx(), 40int,
    {
        let cur_lbp = self.tokens[self.idx].lbp();
        let dot = matches!(&self.tokens[self.idx], Token::Dot);
        if dot {
            self.parse_dot(cur_lbp)
        } else {
            let bracket = matches!(&self.tokens[self.idx], Token::Lbracket);
            let filter = matches!(&self.tokens[self.idx], Token::Filter);
            if bracket || filter {
                self.expr(cur_lbp)
            } else if cur_lbp < 10 {
                Ok(Ast::CurrentNode)
            } else {
                Err(self.err("Syntax error found in projection"))
            }
        }
    }

    /// The wildcard index `[*]`: consumes `*]` and projects the current
    /// node over the projection right-hand side.
    fn parse_wildcard_index(&mut self) -> (r: Result<Ast, ParseError>)
        requires
            old(self).wf(),
            !(old(self).toks()[old(self).cur_idx()] is Eof),
        ensures
            final(self).wf(),
            final(self).toks() == old(self).toks(),
            out_matches(
                r,
                *final(self),
                spec_wildcard_index(old(self).toks(), old(self).cur_idx(), old(self).cur_pos()),
            ),
            old(self).cur_idx() <= final(self).cur_idx(),
            r is Ok ==> old(self).cur_idx() < final(self).cur_idx(),
        decreases self.toks().len() - self.cur_idx(), 10int,
    {
        let ghost toks = self.toks();
        let ghost i0 = self.cur_idx();
        proof {
            assert(toks.last() is Eof);
            assert(i0 + 1 < toks.len());
        }
        match self.expect(Edible::Rbracket, "\"Rbracket\"") {
            Result::Err(e) => Err(e),
            Result::Ok(u) => {
                let ghost j1 = self.cur_idx();
                proof {
                    assert(step(j1, i0, toks.len() as int) == j1);
                    assert(toks[j1] is Rbracket);
                    assert(j1 + 1 < toks.len());
                }
                self.advance();
                proof {
                    assert(step(self.cur_idx(), j1, toks.len() as int) == self.cur_idx());
                }
                let l = Token::Star.lbp();
                match self.projection_rhs(l) {
                    Result::Err(e) => Err(e),
                    Result::Ok(rhs) => {
                        proof {
                            reveal_with_fuel(ast_view, 3);
                        }
                        Ok(Ast::ArrayProjection(Box::new(Ast::CurrentNode), Box::new(rhs)))
                    },
                }
            },
        }
    }

    /// The bare wildcard `*`: projects `lhs` over an object's values.
    fn parse_wildcard_values(&mut self, lhs: Ast) -> (r: Result<Ast, ParseError>)
        requires
            old(self).wf(),
        ensures
            final(self).wf(),
            final(self).toks() == old(self).toks(),
            out_matches(
                r,
                *final(self),
                spec_wildcard_values(
                    old(self).toks(),
                    old(self).cur_idx(),
                    old(self).cur_pos(),
                    ast_view(lhs),
                ),
            ),
            old(self).cur_idx() <= final(self).cur_idx(),
        decreases self.toks().len() - self.cur_idx(), 50int,
    {
        let l = Token::Star.lbp();
        match self.projection_rhs(l) {
            Result::Err(e) => Err(e),
            Result::Ok(rhs) => Ok(Ast::ObjectProjection(Box::new(lhs), Box::new(rhs))),
        }
    }

    /// Scans the slice parts between brackets: numbers and up to two
    /// colons, ended by `]` (which it consumes).
    fn slice_scan(
        &mut self,
        p0: Option<i32>,
        p1: Option<i32>,
        p2: Option<i32>,
        cnt: usize,
    ) -> (r: Result<(Option<i32>, Option<i32>, Option<i32>, usize), ParseError>)
        requires
            old(self).wf(),
            cnt <= 2,
        ensures
            final(self).wf(),
            final(self).toks() == old(self).toks(),
            ({
                let out = spec_slice_scan(
                    old(self).toks(),
                    old(self).cur_idx(),
                    old(self).cur_pos(),
                    opt_view(p0),
                    opt_view(p1),
                    opt_view(p2),
                    cnt as nat,
                );
                &&& final(self).cur_idx() == out.idx
                &&& final(self).cur_pos() == out.pos
                &&& match (r, out.res) {
                    (Result::Ok(t), Result::Ok(s)) => (
                        opt_view(t.0),
                        opt_view(t.1),
                        opt_view(t.2),
                        t.3 as nat,
                    ) == s,
                    (Result::Err(e), Result::Err(ev)) => err_matches(e, ev),
                    _ => false,
                }
            }),
            old(self).cur_idx() <= final(self).cur_idx(),
            r is Ok ==> old(self).cur_idx() < final(self).cur_idx(),
        decreases self.toks().len() - self.cur_idx(), 10int,
    {
        let colon = matches!(&self.tokens[self.idx], Token::Colon);
        if colon {
            if cnt + 1 > 2 {
                return Err(self.err("Too many colons in slice expr"));
            }
            return match self.expect(Edible::NumberColonRbracket, "\"Number|Colon|Rbracket\"") {
                Result::Err(e) => Err(e),
                Result::Ok(u) => self.slice_scan(p0, p1, p2, cnt + 1),
            };
        }
        let num = matches!(&self.tokens[self.idx], Token::Number(_, _));
        if num {
            let v: i32 = match &self.tokens[self.idx] {
                Token::Number(n, _) => *n,
                _ => 0,
            };
            let q0 = if cnt == 0 { Some(v) } else { p0 };
            let q1 = if cnt == 1 { Some(v) } else { p1 };
            let q2 = if cnt == 2 { Some(v) } else { p2 };
            return match self.expect(Edible::ColonRbracket, "\"Colon|Rbracket\"") {
                Result::Err(e) => Err(e),
                Result::Ok(u) => self.slice_scan(q0, q1, q2, cnt),
            };
        }
        let rbracket = matches!(&self.tokens[self.idx], Token::Rbracket);
        if rbracket {
            self.advance();
            return Ok((p0, p1, p2, cnt));
        }
        Err(self.err("Unexpected token"))
    }

    /// An index or slice between brackets: without colons a fixed `Index`,
    /// with colons a slice projected over the projection right-hand side.
    fn parse_array_index(&mut self) -> (r: Result<Ast, ParseError>)
        requires
            old(self).wf(),
            old(self).toks()[old(self).cur_idx()] is Number || old(self).toks()[old(
                self,
            ).cur_idx()] is Colon,
        ensures
            final(self).wf(),
            final(self).toks() == old(self).toks(),
            out_matches(
                r,
                *final(self),
                spec_array_index(old(self).toks(), old(self).cur_idx(), old(self).cur_pos()),
            ),
            old(self).cur_idx() <= final(self).cur_idx(),
            r is Ok ==> old(self).cur_idx() < final(self).cur_idx(),
        decreases self.toks().len() - self.cur_idx(), 20int,
    {
        let ghost toks = self.toks();
        let ghost i0 = self.cur_idx();
        proof {
            assert(toks.last() is Eof);
            assert(i0 + 1 < toks.len());
        }
        match self.slice_scan(None, None, None, 0) {
            Result::Err(e) => Err(e),
            Result::Ok(parts) => {
                proof {
                    assert(step(self.cur_idx(), i0, toks.len() as int) == self.cur_idx());
                }
                let (p0, p1, p2, cnt) = parts;
                if cnt == 0 {
                    match p0 {
                        Option::Some(v) => Ok(Ast::Index(v)),
                        Option::None => Ok(Ast::Index(0)),
                    }
                } else {
                    let l = Token::Star.lbp();
                    match self.projection_rhs(l) {
                        Result::Err(e) => Err(e),
                        Result::Ok(rhs) => {
                            proof {
                                reveal_with_fuel(ast_view, 3);
                            }
                            Ok(
                                Ast::ArrayProjection(
                                    Box::new(Ast::Slice(p0, p1, p2)),
                                    Box::new(rhs),
                                ),
                            )
                        },
                    }
                }
            },
        }
    }

    /// A multi-select list: a non-empty comma-separated sequence of
    /// expressions, ended by `]`.
    #[verifier::loop_isolation(false)]
    fn parse_multi_list(&mut self) -> (r: Result<Ast, ParseError>)
        requires
            old(self).wf(),
        ensures
            final(self).wf(),
            final(self).toks() == old(self).toks(),
            out_matches(
                r,
                *final(self),
                spec_multi_list(
                    old(self).toks(),
                    old(self).cur_idx(),
                    old(self).cur_pos(),
                    Seq::empty(),
                ),
            ),
            old(self).cur_idx() <= final(self).cur_idx(),
            r is Ok ==> old(self).cur_idx() < final(self).cur_idx(),
        decreases self.toks().len() - self.cur_idx(), 40int,
    {
        let ghost toks = self.toks();
        let ghost i0 = self.cur_idx();
        let ghost p0 = self.cur_pos();
        let mut nodes: Vec<Box<Ast>> = Vec::new();
        loop
            invariant
                self.wf(),
                self.toks() == toks,
                i0 <= self.cur_idx(),
                nodes@.len() > 0 ==> i0 < self.cur_idx(),
                spec_multi_list(toks, i0, p0, Seq::empty()) == spec_multi_list(
                    toks,
                    self.cur_idx(),
                    self.cur_pos(),
                    ast_seq_view(nodes@),
                ),
            decreases self.toks().len() - self.cur_idx(),
        {
            let a = match self.expr(0) {
                Result::Ok(a) => a,
                Result::Err(e) => {
                    return Err(e);
                },
            };
            let ghost old_nodes = nodes@;
            nodes.push(Box::new(a));
            proof {
                lemma_ast_seq_view(old_nodes);
                lemma_ast_seq_view(nodes@);
                assert(ast_seq_view(nodes@) =~= ast_seq_view(old_nodes).push(
                    ast_view(*nodes@.last()),
                ));
            }
            let comma = matches!(&self.tokens[self.idx], Token::Comma);
            if comma {
                self.advance();
            } else {
                let rbracket = matches!(&self.tokens[self.idx], Token::Rbracket);
                if rbracket {
                    return Ok(Ast::MultiList(nodes));
                }
            }
        }
    }
}

/// Whether `cs` is a single identifier: a letter or underscore followed by
/// letters, digits and underscores.
pub open spec fn is_identifier_text(cs: Seq<char>) -> bool {
    &&& cs.len() >= 1
    &&& crate::lexer::is_ident_start(cs[0])
    &&& forall|k: int| 0 <= k < cs.len() ==> crate::lexer::is_ident_char(cs[k])
}

/// A run of identifier characters reaching the end of the text.
proof fn lemma_ident_len_full(cs: Seq<char>, i: int)
    requires
        0 <= i <= cs.len(),
        forall|k: int| i <= k < cs.len() ==> crate::lexer::is_ident_char(cs[k]),
    ensures
        crate::lexer::ident_len(cs, i) == cs.len() - i,
    decreases cs.len() - i,
{
    if i < cs.len() {
        lemma_ident_len_full(cs, i + 1);
    }
}

/// Law: every text of the identifier lexical class parses to exactly the
/// identifier node carrying that text.
pub proof fn lemma_identifier_parses(cs: Seq<char>)
    requires
        is_identifier_text(cs),
    ensures
        spec_parse(cs) == Ok::<AstView, ErrView>(AstView::Identifier(cs)),
{
    let n = cs.len() as int;
    lemma_ident_len_full(cs, 0);
    assert(cs.subrange(0, n) =~= cs);
    let t0 = TokenView::Identifier(cs, cs.len());
    assert(crate::lexer::spec_next(cs, 0) == (t0, (cs.len() - 1) as nat));
    let toks = spec_tokenize(cs);
    assert(crate::lexer::spec_tokenize_from(cs, n) =~= seq![TokenView::Eof]);
    assert(toks =~= seq![t0, TokenView::Eof]);
    let adv = spec_advance(toks, 0, 0);
    assert(adv == (1int, n));
    let nd = spec_nud(toks, 0, 0);
    assert(nd == SpOut::<AstView> { res: Ok(AstView::Identifier(cs)), idx: 1, pos: n });
    assert(step(1, 0, 2) == 1);
    assert(tv_lbp(toks[1]) == 0);
    let lp = spec_led_loop(toks, 1, n, 0, AstView::Identifier(cs));
    assert(lp == SpOut::<AstView> { res: Ok(AstView::Identifier(cs)), idx: 1, pos: n });
    let e = spec_expr(toks, 0, 0, 0);
    assert(e == SpOut::<AstView> { res: Ok(AstView::Identifier(cs)), idx: 1, pos: n });
    assert(spec_parser_parse(toks, 0, 0).res == Ok::<AstView, ErrView>(AstView::Identifier(cs)));
}

/// Law: parsing is a function of the text alone, so parsing the same text
/// twice yields structurally equal results — equal tree models on success,
/// the same message and column on failure.
pub proof fn lemma_reparse_structurally_equal(
    r1: Result<Ast, ParseError>,
    r2: Result<Ast, ParseError>,
    cs: Seq<char>,
)
    requires
        parse_result_matches(r1, spec_parse(cs)),
        parse_result_matches(r2, spec_parse(cs)),
    ensures
        r1 is Ok <==> r2 is Ok,
        r1 is Ok ==> ast_view(r1->Ok_0) == ast_view(r2->Ok_0),
        r1 is Err ==> r1->Err_0.msg@ == r2->Err_0.msg@ && r1->Err_0.col == r2->Err_0.col,
{
}

/// The dispatch classes of tokens in prefix position.
enum NudKind {
    KAt,
    KIdent,
    KStar,
    KLbracket,
    KFlatten,
    KLiteral,
    KLbrace,
    KEof,
    KOther,
}

/// Classifies a token for prefix dispatch.
fn nud_kind(t: &Token) -> (k: NudKind)
    ensures
        (k is KAt <==> t.deep_view() is At),
        (k is KIdent <==> t.deep_view() is Identifier),
        (k is KStar <==> t.deep_view() is Star),
        (k is KLbracket <==> t.deep_view() is Lbracket),
        (k is KFlatten <==> t.deep_view() is Flatten),
        (k is KLiteral <==> t.deep_view() is Literal),
        (k is KLbrace <==> t.deep_view() is Lbrace),
        (k is KEof <==> t.deep_view() is Eof),
{
    match t {
        Token::At => NudKind::KAt,
        Token::Identifier(_, _) => NudKind::KIdent,
        Token::Star => NudKind::KStar,
        Token::Lbracket => NudKind::KLbracket,
        Token::Flatten => NudKind::KFlatten,
        Token::Literal(_, _) => NudKind::KLiteral,
        Token::Lbrace => NudKind::KLbrace,
        Token::Eof => NudKind::KEof,
        _ => NudKind::KOther,
    }
}

/// The dispatch classes of tokens in infix position.
enum LedKind {
    LDot,
    LLbracket,
    LFlatten,
    LOr,
    LPipe,
    LOther,
}

/// Classifies a token for infix dispatch.
fn led_kind(t: &Token) -> (k: LedKind)
    ensures
        (k is LDot <==> t.deep_view() is Dot),
        (k is LLbracket <==> t.deep_view() is Lbracket),
        (k is LFlatten <==> t.deep_view() is Flatten),
        (k is LOr <==> t.deep_view() is Or),
        (k is LPipe <==> t.deep_view() is Pipe),
{
    match t {
        Token::Dot => LedKind::LDot,
        Token::Lbracket => LedKind::LLbracket,
        Token::Flatten => LedKind::LFlatten,
        Token::Or => LedKind::LOr,
        Token::Pipe => LedKind::LPipe,
        _ => LedKind::LOther,
    }
}

/// Executable membership check for [`edible_contains`].
fn tok_in(e: Edible, t: &Token) -> (r: bool)
    ensures
        r == edible_contains(e, t.deep_view()),
{
    match e {
        Edible::Colon => matches!(t, Token::Colon),
        Edible::ColonRbracket => matches!(t, Token::Colon | Token::Rbracket),
        Edible::NumberColonRbracket => matches!(
            t,
            Token::Number(_, _) | Token::Colon | Token::Rbracket
        ),
        Edible::NumberColonStar => matches!(t, Token::Number(_, _) | Token::Colon | Token::Star),
        Edible::Rbracket => matches!(t, Token::Rbracket),
        Edible::DotRhs => matches!(
            t,
            Token::Identifier(_, _) | Token::Star | Token::Lbrace | Token::Lbracket
                | Token::Ampersand | Token::Filter
        ),
    }
}

} // verus!
