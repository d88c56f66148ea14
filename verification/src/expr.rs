//! The expression compiler: turns the mini-language strings found in value
//! positions of a schema (sizes, conditions, repeat counts, switch
//! discriminants, instance bodies) into an expression tree. Evaluation is
//! deferred to parse time; compiling never partially evaluates, so forward
//! references to enums are permitted here and checked later.

use vstd::prelude::*;
use vstd::slice::slice_index_get;
use vstd::slice::slice_subrange;
use vstd::slice::slice_to_vec;

use crate::doc::bytes_eq;
use crate::error::SyntaxError;

verus! {

/// Where a field path starts: the current object, the root object, or an
/// enclosing object `up` levels above the current one.
#[derive(Debug, Clone, PartialEq, Eq)]
pub enum Base {
    Cur,
    Root,
    Up(u64),
}

/// A binary operator of the expression language, standard precedence.
#[derive(Debug, Clone, Copy, PartialEq, Eq)]
pub enum BinOp {
    Add,
    Sub,
    Mul,
    Div,
    Mod,
    Eq,
    Ne,
    Lt,
    Le,
    Gt,
    Ge,
    And,
    Or,
}

/// A compiled expression: a pure function of a field environment.
#[derive(Debug)]
pub enum Expr {
    /// An integer literal.
    IntLit(i128),
    /// A boolean literal.
    BoolLit(bool),
    /// A string literal, carried as bytes.
    StrLit(Vec<u8>),
    /// A float literal, carried as its source text; deliberately not
    /// evaluable in the supported value positions.
    FloatLit(Vec<u8>),
    /// A field or instance reference: a dotted path from a base scope.
    Field { base: Base, path: Vec<Vec<u8>> },
    /// An enum member reference `EnumName::member`.
    EnumRef { enum_id: Vec<u8>, member: Vec<u8> },
    /// Arithmetic negation.
    Neg(Box<Expr>),
    /// A binary operation.
    Bin { op: BinOp, lhs: Box<Expr>, rhs: Box<Expr> },
    /// Ternary selection `cond ? a : b`.
    Cond { cond: Box<Expr>, yes: Box<Expr>, no: Box<Expr> },
    /// Indexing `coll[idx]`.
    Index { coll: Box<Expr>, idx: Box<Expr> },
}

/// One lexical token, with the byte offset where it starts.
#[derive(Debug, PartialEq)]
enum Token {
    Num(i128),
    FloatText(Vec<u8>),
    Word(Vec<u8>),
    Text(Vec<u8>),
    LParen,
    RParen,
    LBrack,
    RBrack,
    Quest,
    Colon,
    DColon,
    Dot,
    Plus,
    Minus,
    Star,
    Slash,
    Percent,
    EqEq,
    NotEq,
    LessEq,
    Less,
    GreaterEq,
    Greater,
}

/// A well-formed syntax error for `src`: it points into the text and
/// carries the text from that point on.
pub open spec fn err_wf(e: SyntaxError, src: Seq<u8>) -> bool {
    e.at <= src.len() && e.fragment@ == src.subrange(e.at as int, src.len() as int)
}

/// Every token offset points into the text.
spec fn toks_wf(toks: Seq<(Token, usize)>, src: Seq<u8>) -> bool {
    forall|j: int| 0 <= j < toks.len() ==> (#[trigger] toks[j]).1 <= src.len()
}

/// Builds the error value for a fault at offset `at`.
fn syn_err(src: &[u8], at: usize) -> (e: SyntaxError)
    requires
        at <= src@.len(),
    ensures
        err_wf(e, src@),
        e.at == at,
{
    let rest = slice_subrange(src, at, src.len());
    SyntaxError { at, fragment: slice_to_vec(rest) }
}

/// The source offset of the token at `pos`, or the text length when the
/// tokens are exhausted.
fn tok_off(src: &[u8], toks: &Vec<(Token, usize)>, pos: usize) -> (off: usize)
    requires
        toks_wf(toks@, src@),
    ensures
        off <= src@.len(),
{
    if pos < toks.len() {
        toks[pos].1
    } else {
        src.len()
    }
}

/// Whether `c` is a decimal digit.
fn is_digit(c: u8) -> (r: bool)
    ensures
        r == (48 <= c <= 57),
{
    c >= 48 && c <= 57
}

/// Whether `c` can continue an identifier.
fn is_word_byte(c: u8) -> bool {
    (c >= 97 && c <= 122) || (c >= 65 && c <= 90) || (c >= 48 && c <= 57) || c == 95
}

/// Splits the expression text into tokens.
fn lex(src: &[u8]) -> (r: Result<Vec<(Token, usize)>, SyntaxError>)
    ensures
        r matches Ok(toks) ==> toks_wf(toks@, src@),
        r matches Err(e) ==> err_wf(e, src@),
        src@.len() == 1 && 48 <= src@[0] <= 57 ==> (r matches Ok(toks) && toks@.len() == 1
            && toks@[0].0 is Num && toks@[0].0->Num_0 == src@[0] - 48),
{
    let n = src.len();
    let mut toks: Vec<(Token, usize)> = Vec::new();
    let mut i: usize = 0;
    while i < n
        invariant
            i <= n,
            n == src@.len(),
            toks_wf(toks@, src@),
            n == 1 && 48 <= src@[0] <= 57 ==> ((i == 0 && toks@.len() == 0) || (i == 1
                && toks@.len() == 1 && toks@[0].0 is Num && toks@[0].0->Num_0 == src@[0] - 48)),
        decreases n - i,
    {
        let c = *slice_index_get(src, i);
        let start = i;
        if c == 32 || c == 9 || c == 10 || c == 13 {
            i = i + 1;
        } else if is_digit(c) {
            let mut v: i128 = (c - 48) as i128;
            let mut is_float = false;
            i = i + 1;
            while i < n && (is_digit(*slice_index_get(src, i)) || *slice_index_get(src, i) == 46)
                invariant
                    start < i <= n,
                    n == src@.len(),
                    0 <= v,
                    n == 1 && start == 0 ==> (i == 1 && v == src@[0] - 48 && !is_float),
                decreases n - i,
            {
                let d = *slice_index_get(src, i);
                if d == 46 {
                    is_float = true;
                } else if !is_float {
                    if v > i128::MAX / 10 - 1 {
                        return Err(syn_err(src, start));
                    }
                    v = v * 10 + ((d - 48) as i128);
                }
                i = i + 1;
            }
            if is_float {
                let text = slice_to_vec(slice_subrange(src, start, i));
                toks.push((Token::FloatText(text), start));
            } else {
                toks.push((Token::Num(v), start));
            }
        } else if is_word_byte(c) && !is_digit(c) {
            i = i + 1;
            while i < n && is_word_byte(*slice_index_get(src, i))
                invariant
                    start < i <= n,
                    n == src@.len(),
                decreases n - i,
            {
                i = i + 1;
            }
            let w = slice_to_vec(slice_subrange(src, start, i));
            toks.push((Token::Word(w), start));
        } else if c == 34 || c == 39 {
            i = i + 1;
            let text_start = i;
            while i < n && *slice_index_get(src, i) != c
                invariant
                    start < i <= n,
                    text_start <= i <= n,
                    n == src@.len(),
                decreases n - i,
            {
                i = i + 1;
            }
            if i == n {
                return Err(syn_err(src, start));
            }
            let t = slice_to_vec(slice_subrange(src, text_start, i));
            toks.push((Token::Text(t), start));
            i = i + 1;
        } else {
            let two = if i + 1 < n {
                Some(*slice_index_get(src, i + 1))
            } else {
                None
            };
            let tok: Token = if c == 61 && two == Some(61) {
                i = i + 2;
                Token::EqEq
            } else if c == 33 && two == Some(61) {
                i = i + 2;
                Token::NotEq
            } else if c == 60 && two == Some(61) {
                i = i + 2;
                Token::LessEq
            } else if c == 62 && two == Some(61) {
                i = i + 2;
                Token::GreaterEq
            } else if c == 58 && two == Some(58) {
                i = i + 2;
                Token::DColon
            } else if c == 60 {
                i = i + 1;
                Token::Less
            } else if c == 62 {
                i = i + 1;
                Token::Greater
            } else if c == 40 {
                i = i + 1;
                Token::LParen
            } else if c == 41 {
                i = i + 1;
                Token::RParen
            } else if c == 91 {
                i = i + 1;
                Token::LBrack
            } else if c == 93 {
                i = i + 1;
                Token::RBrack
            } else if c == 63 {
                i = i + 1;
                Token::Quest
            } else if c == 58 {
                i = i + 1;
                Token::Colon
            } else if c == 46 {
                i = i + 1;
                Token::Dot
            } else if c == 43 {
                i = i + 1;
                Token::Plus
            } else if c == 45 {
                i = i + 1;
                Token::Minus
            } else if c == 42 {
                i = i + 1;
                Token::Star
            } else if c == 47 {
                i = i + 1;
                Token::Slash
            } else if c == 37 {
                i = i + 1;
                Token::Percent
            } else {
                return Err(syn_err(src, i));
            };
            toks.push((tok, start));
        }
    }
    Ok(toks)
}

/// A fresh copy of a byte string.
fn copy_bytes(v: &Vec<u8>) -> (r: Vec<u8>)
    ensures
        r@ == v@,
{
    slice_to_vec(v.as_slice())
}

/// Parses `name(.name)*` starting at a word token.
fn parse_path(src: &[u8], toks: &Vec<(Token, usize)>, pos: usize) -> (r: Result<
    (Vec<Vec<u8>>, usize),
    SyntaxError,
>)
    requires
        toks_wf(toks@, src@),
        pos <= toks@.len(),
    ensures
        r matches Ok(p) ==> pos < p.1 <= toks@.len(),
        r matches Err(e) ==> err_wf(e, src@),
{
    if pos >= toks.len() {
        return Err(syn_err(src, tok_off(src, toks, pos)));
    }
    let mut path: Vec<Vec<u8>> = Vec::new();
    match &toks[pos].0 {
        Token::Word(w) => {
            path.push(copy_bytes(w));
        },
        _ => {
            return Err(syn_err(src, tok_off(src, toks, pos)));
        },
    }
    let mut p = pos + 1;
    let n = toks.len();
    while p < n && n - p > 1
        invariant
            toks_wf(toks@, src@),
            pos < p <= n,
            n == toks@.len(),
        decreases n - p,
    {
        let is_dot = matches!(&toks[p].0, Token::Dot);
        if !is_dot {
            break;
        }
        match &toks[p + 1].0 {
            Token::Word(w) => {
                path.push(copy_bytes(w));
            },
            _ => {
                break;
            },
        }
        p = p + 2;
    }
    Ok((path, p))
}

/// Parses a primary expression: a literal, a reference, or parentheses.
fn parse_primary(src: &[u8], toks: &Vec<(Token, usize)>, pos: usize, fuel: u128) -> (r: Result<
    (Expr, usize),
    SyntaxError,
>)
    requires
        toks_wf(toks@, src@),
        pos <= toks@.len(),
    ensures
        r matches Ok(p) ==> pos < p.1 <= toks@.len(),
        r matches Err(e) ==> err_wf(e, src@),
        toks@.len() == 1 && toks@[0].0 is Num && pos == 0 && fuel >= 1 ==> (r matches Ok(p2)
            && p2.1 == 1 && p2.0 == Expr::IntLit(toks@[0].0->Num_0)),
    decreases fuel, 0int,
{
    if fuel == 0 || pos >= toks.len() {
        return Err(syn_err(src, tok_off(src, toks, pos)));
    }
    let n = toks.len();
    match &toks[pos].0 {
        Token::Num(v) => Ok((Expr::IntLit(*v), pos + 1)),
        Token::FloatText(t) => Ok((Expr::FloatLit(copy_bytes(t)), pos + 1)),
        Token::Text(t) => Ok((Expr::StrLit(copy_bytes(t)), pos + 1)),
        Token::LParen => {
            let (inner, p1) = match parse_ternary(src, toks, pos + 1, fuel - 1) {
                Ok(x) => x,
                Err(e) => {
                    return Err(e);
                },
            };
            if p1 < n && matches!(&toks[p1].0, Token::RParen) {
                Ok((inner, p1 + 1))
            } else {
                Err(syn_err(src, tok_off(src, toks, p1)))
            }
        },
        Token::Word(w) => {
            if bytes_eq(w.as_slice(), "true".as_bytes()) {
                return Ok((Expr::BoolLit(true), pos + 1));
            }
            if bytes_eq(w.as_slice(), "false".as_bytes()) {
                return Ok((Expr::BoolLit(false), pos + 1));
            }
            if bytes_eq(w.as_slice(), "_root".as_bytes()) {
                if pos < n && n - pos > 1 && matches!(&toks[pos + 1].0, Token::Dot) {
                    let (path, p1) = match parse_path(src, toks, pos + 2) {
                        Ok(x) => x,
                        Err(e) => {
                            return Err(e);
                        },
                    };
                    return Ok((Expr::Field { base: Base::Root, path }, p1));
                }
                return Err(syn_err(src, tok_off(src, toks, pos)));
            }
            if bytes_eq(w.as_slice(), "_parent".as_bytes()) {
                let mut up: u64 = 1;
                let mut p = pos + 1;
                while p < n && n - p > 1
                    invariant
                        toks_wf(toks@, src@),
                        pos < p <= n,
                        n == toks@.len(),
                        up < 0x10000,
                    decreases n - p,
                {
                    if up >= 0xffff {
                        break;
                    }
                    if !matches!(&toks[p].0, Token::Dot) {
                        break;
                    }
                    let more = match &toks[p + 1].0 {
                        Token::Word(w2) => bytes_eq(w2.as_slice(), "_parent".as_bytes()),
                        _ => false,
                    };
                    if !more {
                        break;
                    }
                    up = up + 1;
                    p = p + 2;
                }
                if p < n && n - p > 1 && matches!(&toks[p].0, Token::Dot) {
                    let (path, p1) = match parse_path(src, toks, p + 1) {
                        Ok(x) => x,
                        Err(e) => {
                            return Err(e);
                        },
                    };
                    return Ok((Expr::Field { base: Base::Up(up), path }, p1));
                }
                return Err(syn_err(src, tok_off(src, toks, p)));
            }
            if pos < n && n - pos > 2 && matches!(&toks[pos + 1].0, Token::DColon) {
                match &toks[pos + 2].0 {
                    Token::Word(m) => {
                        return Ok(
                            (
                                Expr::EnumRef { enum_id: copy_bytes(w), member: copy_bytes(m) },
                                pos + 3,
                            ),
                        );
                    },
                    _ => {
                        return Err(syn_err(src, tok_off(src, toks, pos + 2)));
                    },
                }
            }
            let (path, p1) = match parse_path(src, toks, pos) {
                Ok(x) => x,
                Err(e) => {
                    return Err(e);
                },
            };
            Ok((Expr::Field { base: Base::Cur, path }, p1))
        },
        _ => Err(syn_err(src, tok_off(src, toks, pos))),
    }
}

/// Parses postfix indexing `coll[idx]`.
fn parse_postfix(src: &[u8], toks: &Vec<(Token, usize)>, pos: usize, fuel: u128) -> (r: Result<
    (Expr, usize),
    SyntaxError,
>)
    requires
        toks_wf(toks@, src@),
        pos <= toks@.len(),
    ensures
        r matches Ok(p) ==> pos < p.1 <= toks@.len(),
        r matches Err(e) ==> err_wf(e, src@),
        toks@.len() == 1 && toks@[0].0 is Num && pos == 0 && fuel >= 1 ==> (r matches Ok(p2)
            && p2.1 == 1 && p2.0 == Expr::IntLit(toks@[0].0->Num_0)),
    decreases fuel, 1int,
{
    if fuel == 0 {
        return Err(syn_err(src, tok_off(src, toks, pos)));
    }
    let (mut e, mut p) = match parse_primary(src, toks, pos, fuel) {
        Ok(x) => x,
        Err(er) => {
            return Err(er);
        },
    };
    let n = toks.len();
    while p < n
        invariant
            toks_wf(toks@, src@),
            pos < p <= n,
            n == toks@.len(),
            toks@.len() == 1 && toks@[0].0 is Num && pos == 0 ==> (p == 1
                && e == Expr::IntLit(toks@[0].0->Num_0)),
            fuel >= 1,
        decreases n - p,
    {
        if !matches!(&toks[p].0, Token::LBrack) {
            break;
        }
        let (idx, p1) = match parse_ternary(src, toks, p + 1, fuel - 1) {
            Ok(x) => x,
            Err(er) => {
                return Err(er);
            },
        };
        if p1 < n && matches!(&toks[p1].0, Token::RBrack) {
            e = Expr::Index { coll: Box::new(e), idx: Box::new(idx) };
            p = p1 + 1;
        } else {
            return Err(syn_err(src, tok_off(src, toks, p1)));
        }
    }
    Ok((e, p))
}

/// Parses unary negation.
fn parse_unary(src: &[u8], toks: &Vec<(Token, usize)>, pos: usize, fuel: u128) -> (r: Result<
    (Expr, usize),
    SyntaxError,
>)
    requires
        toks_wf(toks@, src@),
        pos <= toks@.len(),
    ensures
        r matches Ok(p) ==> pos < p.1 <= toks@.len(),
        r matches Err(e) ==> err_wf(e, src@),
        toks@.len() == 1 && toks@[0].0 is Num && pos == 0 && fuel >= 1 ==> (r matches Ok(p2)
            && p2.1 == 1 && p2.0 == Expr::IntLit(toks@[0].0->Num_0)),
    decreases fuel, 2int,
{
    if fuel == 0 {
        return Err(syn_err(src, tok_off(src, toks, pos)));
    }
    if pos < toks.len() && matches!(&toks[pos].0, Token::Minus) {
        let (e, p) = match parse_unary(src, toks, pos + 1, fuel - 1) {
            Ok(x) => x,
            Err(er) => {
                return Err(er);
            },
        };
        Ok((Expr::Neg(Box::new(e)), p))
    } else {
        parse_postfix(src, toks, pos, fuel)
    }
}

/// Parses `*`, `/` and `%` chains.
fn parse_mul(src: &[u8], toks: &Vec<(Token, usize)>, pos: usize, fuel: u128) -> (r: Result<
    (Expr, usize),
    SyntaxError,
>)
    requires
        toks_wf(toks@, src@),
        pos <= toks@.len(),
    ensures
        r matches Ok(p) ==> pos < p.1 <= toks@.len(),
        r matches Err(e) ==> err_wf(e, src@),
        toks@.len() == 1 && toks@[0].0 is Num && pos == 0 && fuel >= 1 ==> (r matches Ok(p2)
            && p2.1 == 1 && p2.0 == Expr::IntLit(toks@[0].0->Num_0)),
    decreases fuel, 3int,
{
    if fuel == 0 {
        return Err(syn_err(src, tok_off(src, toks, pos)));
    }
    let (mut e, mut p) = match parse_unary(src, toks, pos, fuel) {
        Ok(x) => x,
        Err(er) => {
            return Err(er);
        },
    };
    let n = toks.len();
    while p < n
        invariant
            toks_wf(toks@, src@),
            pos < p <= n,
            n == toks@.len(),
            toks@.len() == 1 && toks@[0].0 is Num && pos == 0 ==> (p == 1
                && e == Expr::IntLit(toks@[0].0->Num_0)),
        decreases n - p,
    {
        let op = match &toks[p].0 {
            Token::Star => BinOp::Mul,
            Token::Slash => BinOp::Div,
            Token::Percent => BinOp::Mod,
            _ => {
                break;
            },
        };
        let (rhs, p1) = match parse_unary(src, toks, p + 1, fuel) {
            Ok(x) => x,
            Err(er) => {
                return Err(er);
            },
        };
        e = Expr::Bin { op, lhs: Box::new(e), rhs: Box::new(rhs) };
        p = p1;
    }
    Ok((e, p))
}

/// Parses `+` and `-` chains.
fn parse_add(src: &[u8], toks: &Vec<(Token, usize)>, pos: usize, fuel: u128) -> (r: Result<
    (Expr, usize),
    SyntaxError,
>)
    requires
        toks_wf(toks@, src@),
        pos <= toks@.len(),
    ensures
        r matches Ok(p) ==> pos < p.1 <= toks@.len(),
        r matches Err(e) ==> err_wf(e, src@),
        toks@.len() == 1 && toks@[0].0 is Num && pos == 0 && fuel >= 1 ==> (r matches Ok(p2)
            && p2.1 == 1 && p2.0 == Expr::IntLit(toks@[0].0->Num_0)),
    decreases fuel, 4int,
{
    if fuel == 0 {
        return Err(syn_err(src, tok_off(src, toks, pos)));
    }
    let (mut e, mut p) = match parse_mul(src, toks, pos, fuel) {
        Ok(x) => x,
        Err(er) => {
            return Err(er);
        },
    };
    let n = toks.len();
    while p < n
        invariant
            toks_wf(toks@, src@),
            pos < p <= n,
            n == toks@.len(),
            toks@.len() == 1 && toks@[0].0 is Num && pos == 0 ==> (p == 1
                && e == Expr::IntLit(toks@[0].0->Num_0)),
        decreases n - p,
    {
        let op = match &toks[p].0 {
            Token::Plus => BinOp::Add,
            Token::Minus => BinOp::Sub,
            _ => {
                break;
            },
        };
        let (rhs, p1) = match parse_mul(src, toks, p + 1, fuel) {
            Ok(x) => x,
            Err(er) => {
                return Err(er);
            },
        };
        e = Expr::Bin { op, lhs: Box::new(e), rhs: Box::new(rhs) };
        p = p1;
    }
    Ok((e, p))
}

/// Parses one optional comparison between additive expressions.
fn parse_cmp(src: &[u8], toks: &Vec<(Token, usize)>, pos: usize, fuel: u128) -> (r: Result<
    (Expr, usize),
    SyntaxError,
>)
    requires
        toks_wf(toks@, src@),
        pos <= toks@.len(),
    ensures
        r matches Ok(p) ==> pos < p.1 <= toks@.len(),
        r matches Err(e) ==> err_wf(e, src@),
        toks@.len() == 1 && toks@[0].0 is Num && pos == 0 && fuel >= 1 ==> (r matches Ok(p2)
            && p2.1 == 1 && p2.0 == Expr::IntLit(toks@[0].0->Num_0)),
    decreases fuel, 5int,
{
    if fuel == 0 {
        return Err(syn_err(src, tok_off(src, toks, pos)));
    }
    let (e, p) = match parse_add(src, toks, pos, fuel) {
        Ok(x) => x,
        Err(er) => {
            return Err(er);
        },
    };
    if p >= toks.len() {
        return Ok((e, p));
    }
    let op = match &toks[p].0 {
        Token::EqEq => BinOp::Eq,
        Token::NotEq => BinOp::Ne,
        Token::Less => BinOp::Lt,
        Token::LessEq => BinOp::Le,
        Token::Greater => BinOp::Gt,
        Token::GreaterEq => BinOp::Ge,
        _ => {
            return Ok((e, p));
        },
    };
    let (rhs, p1) = match parse_add(src, toks, p + 1, fuel) {
        Ok(x) => x,
        Err(er) => {
            return Err(er);
        },
    };
    Ok((Expr::Bin { op, lhs: Box::new(e), rhs: Box::new(rhs) }, p1))
}

/// Parses `and` chains.
fn parse_and(src: &[u8], toks: &Vec<(Token, usize)>, pos: usize, fuel: u128) -> (r: Result<
    (Expr, usize),
    SyntaxError,
>)
    requires
        toks_wf(toks@, src@),
        pos <= toks@.len(),
    ensures
        r matches Ok(p) ==> pos < p.1 <= toks@.len(),
        r matches Err(e) ==> err_wf(e, src@),
        toks@.len() == 1 && toks@[0].0 is Num && pos == 0 && fuel >= 1 ==> (r matches Ok(p2)
            && p2.1 == 1 && p2.0 == Expr::IntLit(toks@[0].0->Num_0)),
    decreases fuel, 6int,
{
    if fuel == 0 {
        return Err(syn_err(src, tok_off(src, toks, pos)));
    }
    let (mut e, mut p) = match parse_cmp(src, toks, pos, fuel) {
        Ok(x) => x,
        Err(er) => {
            return Err(er);
        },
    };
    let n = toks.len();
    while p < n
        invariant
            toks_wf(toks@, src@),
            pos < p <= n,
            n == toks@.len(),
            toks@.len() == 1 && toks@[0].0 is Num && pos == 0 ==> (p == 1
                && e == Expr::IntLit(toks@[0].0->Num_0)),
        decreases n - p,
    {
        let is_and = match &toks[p].0 {
            Token::Word(w) => bytes_eq(w.as_slice(), "and".as_bytes()),
            _ => false,
        };
        if !is_and {
            break;
        }
        let (rhs, p1) = match parse_cmp(src, toks, p + 1, fuel) {
            Ok(x) => x,
            Err(er) => {
                return Err(er);
            },
        };
        e = Expr::Bin { op: BinOp::And, lhs: Box::new(e), rhs: Box::new(rhs) };
        p = p1;
    }
    Ok((e, p))
}

/// Parses `or` chains.
fn parse_or(src: &[u8], toks: &Vec<(Token, usize)>, pos: usize, fuel: u128) -> (r: Result<
    (Expr, usize),
    SyntaxError,
>)
    requires
        toks_wf(toks@, src@),
        pos <= toks@.len(),
    ensures
        r matches Ok(p) ==> pos < p.1 <= toks@.len(),
        r matches Err(e) ==> err_wf(e, src@),
        toks@.len() == 1 && toks@[0].0 is Num && pos == 0 && fuel >= 1 ==> (r matches Ok(p2)
            && p2.1 == 1 && p2.0 == Expr::IntLit(toks@[0].0->Num_0)),
    decreases fuel, 7int,
{
    if fuel == 0 {
        return Err(syn_err(src, tok_off(src, toks, pos)));
    }
    let (mut e, mut p) = match parse_and(src, toks, pos, fuel) {
        Ok(x) => x,
        Err(er) => {
            return Err(er);
        },
    };
    let n = toks.len();
    while p < n
        invariant
            toks_wf(toks@, src@),
            pos < p <= n,
            n == toks@.len(),
            toks@.len() == 1 && toks@[0].0 is Num && pos == 0 ==> (p == 1
                && e == Expr::IntLit(toks@[0].0->Num_0)),
        decreases n - p,
    {
        let is_or = match &toks[p].0 {
            Token::Word(w) => bytes_eq(w.as_slice(), "or".as_bytes()),
            _ => false,
        };
        if !is_or {
            break;
        }
        let (rhs, p1) = match parse_and(src, toks, p + 1, fuel) {
            Ok(x) => x,
            Err(er) => {
                return Err(er);
            },
        };
        e = Expr::Bin { op: BinOp::Or, lhs: Box::new(e), rhs: Box::new(rhs) };
        p = p1;
    }
    Ok((e, p))
}

/// Parses a full expression, ternary selection at the top.
fn parse_ternary(src: &[u8], toks: &Vec<(Token, usize)>, pos: usize, fuel: u128) -> (r: Result<
    (Expr, usize),
    SyntaxError,
>)
    requires
        toks_wf(toks@, src@),
        pos <= toks@.len(),
    ensures
        r matches Ok(p) ==> pos < p.1 <= toks@.len(),
        r matches Err(e) ==> err_wf(e, src@),
        toks@.len() == 1 && toks@[0].0 is Num && pos == 0 && fuel >= 1 ==> (r matches Ok(p2)
            && p2.1 == 1 && p2.0 == Expr::IntLit(toks@[0].0->Num_0)),
    decreases fuel, 8int,
{
    if fuel == 0 {
        return Err(syn_err(src, tok_off(src, toks, pos)));
    }
    let (cond, p) = match parse_or(src, toks, pos, fuel) {
        Ok(x) => x,
        Err(er) => {
            return Err(er);
        },
    };
    let n = toks.len();
    if p < n && matches!(&toks[p].0, Token::Quest) {
        let (yes, p1) = match parse_ternary(src, toks, p + 1, fuel - 1) {
            Ok(x) => x,
            Err(er) => {
                return Err(er);
            },
        };
        if !(p1 < n && matches!(&toks[p1].0, Token::Colon)) {
            return Err(syn_err(src, tok_off(src, toks, p1)));
        }
        let (no, p2) = match parse_ternary(src, toks, p1 + 1, fuel - 1) {
            Ok(x) => x,
            Err(er) => {
                return Err(er);
            },
        };
        Ok((Expr::Cond { cond: Box::new(cond), yes: Box::new(yes), no: Box::new(no) }, p2))
    } else {
        Ok((cond, p))
    }
}

/// Compiles one expression string into an expression tree, or fails naming
/// the offending position with the text from that position on.
pub fn compile_expr(src: &[u8]) -> (r: Result<Expr, SyntaxError>)
    ensures
        r matches Err(e) ==> err_wf(e, src@),
        src@.len() == 1 && 48 <= src@[0] <= 57 ==> (r matches Ok(e) && e == Expr::IntLit(
            (src@[0] - 48) as i128,
        )),
{
    let toks = match lex(src) {
        Ok(t) => t,
        Err(e) => {
            return Err(e);
        },
    };
    let fuel: u128 = src.len() as u128 + 1;
    let (e, p) = match parse_ternary(src, &toks, 0, fuel) {
        Ok(x) => x,
        Err(er) => {
            return Err(er);
        },
    };
    if p != toks.len() {
        return Err(syn_err(src, tok_off(src, &toks, p)));
    }
    Ok(e)
}

} // verus!
