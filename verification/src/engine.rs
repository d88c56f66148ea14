//! The parse engine: executes an emitted parse procedure against a byte
//! stream, producing a parsed object. It also evaluates expressions against
//! the field environment, dispatches switches, and serves lazily computed,
//! memoized instance values.

use vstd::prelude::*;
use vstd::slice::slice_to_vec;

use crate::emit::ParseProc;
use crate::emit::Program;
use crate::emit::ReadOp;
use crate::emit::Step;
use crate::emit::StepRepeat;
use crate::emit::StepSize;
use crate::error::ParseError;
use crate::expr::Base;
use crate::expr::BinOp;
use crate::expr::Expr;
use crate::schema::Endian;
use crate::schema::PrimKind;
use crate::stream::be_seg;
use crate::stream::le_seg;
use crate::stream::signed_of;
use crate::stream::ByteStream;
use crate::stream::TerminatorFlags;
use crate::value::clone_obj;
use crate::value::clone_value;
use crate::value::lemma_slot_skip;
use crate::value::slot_of;
use crate::value::ParsedObj;
use crate::value::Value;

verus! {

/// The target type of the first case whose value equals `v`.
pub open spec fn case_of(cases: Seq<(i128, usize)>, v: i128) -> Option<usize>
    decreases cases.len(),
{
    if cases.len() == 0 {
        Option::None
    } else if cases[0].0 == v {
        Option::Some(cases[0].1)
    } else {
        case_of(cases.drop_first(), v)
    }
}

/// Chooses the type a switch dispatches to for discriminant value `v`: the
/// first matching case, else the default case, else a fatal error naming
/// the unmatched value and every known case value.
pub fn select_case(cases: &Vec<(i128, usize)>, dflt: &Option<usize>, v: i128) -> (r: Result<
    usize,
    ParseError,
>)
    ensures
        case_of(cases@, v) matches Some(t) ==> r == Ok::<usize, ParseError>(t),
        case_of(cases@, v) is None ==> match dflt {
            Some(d) => r == Ok::<usize, ParseError>(*d),
            None => (r matches Err(e) && e matches ParseError::UnmatchedSwitch {
                value,
                known,
            } && value == v && known@.len() == cases@.len() && (forall|j: int|
                0 <= j < cases@.len() ==> known@[j] == (#[trigger] cases@[j]).0)),
        },
{
    let n = cases.len();
    let mut i: usize = 0;
    proof {
        assert(cases@.skip(0) =~= cases@);
    }
    while i < n
        invariant
            i <= n,
            n == cases@.len(),
            case_of(cases@, v) == case_of(cases@.skip(i as int), v),
        decreases n - i,
    {
        proof {
            assert(cases@.skip(i as int)[0] == cases@[i as int]);
            assert(cases@.skip(i as int).drop_first() =~= cases@.skip(i + 1));
        }
        if cases[i].0 == v {
            return Ok(cases[i].1);
        }
        i = i + 1;
    }
    match dflt {
        Some(d) => Ok(*d),
        None => {
            let mut known: Vec<i128> = Vec::new();
            let mut j: usize = 0;
            while j < n
                invariant
                    j <= n,
                    n == cases@.len(),
                    known@.len() == j,
                    forall|k: int| 0 <= k < j ==> known@[k] == (#[trigger] cases@[k]).0,
                decreases n - j,
            {
                known.push(cases[j].0);
                j = j + 1;
            }
            Err(ParseError::UnmatchedSwitch { value: v, known })
        },
    }
}

/// The object a path base starts from: the current object, the root of the
/// ancestor chain, or an ancestor `k` levels up.
fn resolve_base<'a>(base: &Base, chain: &'a Vec<ParsedObj>, cur: &'a ParsedObj) -> (r: Result<
    &'a ParsedObj,
    ParseError,
>) {
    match base {
        Base::Cur => Ok(cur),
        Base::Root => {
            if chain.len() > 0 {
                Ok(&chain[0])
            } else {
                Ok(cur)
            }
        },
        Base::Up(k) => {
            let len = chain.len();
            if *k >= 1 && *k <= len as u64 {
                let kk = *k as usize;
                Ok(&chain[len - kk])
            } else {
                Err(ParseError::BadValue)
            }
        },
    }
}

/// Applies one binary operator to two evaluated operands. Arithmetic is
/// checked: overflow, division by zero and remainder by zero fail rather
/// than wrap. Products demand both factors within the supported window.
fn apply_bin(op: &BinOp, a: Value, b: Value) -> (r: Result<Value, ParseError>) {
    match (op, a, b) {
        (BinOp::Add, Value::Int(x), Value::Int(y)) => {
            if (y > 0 && x > i128::MAX - y) || (y < 0 && x < i128::MIN - y) {
                Err(ParseError::Arithmetic)
            } else {
                Ok(Value::Int(x + y))
            }
        },
        (BinOp::Sub, Value::Int(x), Value::Int(y)) => {
            if (y < 0 && x > i128::MAX + y) || (y > 0 && x < i128::MIN + y) {
                Err(ParseError::Arithmetic)
            } else {
                Ok(Value::Int(x - y))
            }
        },
        (BinOp::Mul, Value::Int(x), Value::Int(y)) => {
            let lim: i128 = 0x4000_0000_0000_0000;
            if x > lim || x < -lim || y > lim || y < -lim {
                Err(ParseError::Arithmetic)
            } else {
                proof {
                    assert(x * y <= 0x1000_0000_0000_0000_0000_0000_0000_0000int && x * y
                        >= -0x1000_0000_0000_0000_0000_0000_0000_0000int) by (nonlinear_arith)
                        requires
                            -0x4000_0000_0000_0000int <= x <= 0x4000_0000_0000_0000int,
                            -0x4000_0000_0000_0000int <= y <= 0x4000_0000_0000_0000int,
                    ;
                }
                Ok(Value::Int(x * y))
            }
        },
        (BinOp::Div, Value::Int(x), Value::Int(y)) => {
            if y == 0 || (x == i128::MIN && y == -1) {
                Err(ParseError::Arithmetic)
            } else {
                Ok(Value::Int(x / y))
            }
        },
        (BinOp::Mod, Value::Int(x), Value::Int(y)) => {
            if y == 0 || (x == i128::MIN && y == -1) {
                Err(ParseError::Arithmetic)
            } else {
                Ok(Value::Int(x % y))
            }
        },
        (BinOp::Eq, Value::Int(x), Value::Int(y)) => Ok(Value::Bool(x == y)),
        (BinOp::Eq, Value::Bool(x), Value::Bool(y)) => Ok(Value::Bool(x == y)),
        (BinOp::Eq, Value::Bytes(x), Value::Bytes(y)) => Ok(
            Value::Bool(crate::doc::bytes_eq(x.as_slice(), y.as_slice())),
        ),
        (BinOp::Ne, Value::Int(x), Value::Int(y)) => Ok(Value::Bool(x != y)),
        (BinOp::Ne, Value::Bool(x), Value::Bool(y)) => Ok(Value::Bool(x != y)),
        (BinOp::Ne, Value::Bytes(x), Value::Bytes(y)) => Ok(
            Value::Bool(!crate::doc::bytes_eq(x.as_slice(), y.as_slice())),
        ),
        (BinOp::Lt, Value::Int(x), Value::Int(y)) => Ok(Value::Bool(x < y)),
        (BinOp::Le, Value::Int(x), Value::Int(y)) => Ok(Value::Bool(x <= y)),
        (BinOp::Gt, Value::Int(x), Value::Int(y)) => Ok(Value::Bool(x > y)),
        (BinOp::Ge, Value::Int(x), Value::Int(y)) => Ok(Value::Bool(x >= y)),
        (BinOp::And, Value::Bool(x), Value::Bool(y)) => Ok(Value::Bool(x && y)),
        (BinOp::Or, Value::Bool(x), Value::Bool(y)) => Ok(Value::Bool(x || y)),
        _ => Err(ParseError::BadValue),
    }
}

/// How deep a chain of instances referencing other instances may go
/// before evaluation reports a depth fault.
pub const INSTANCE_DEPTH: u64 = 16;

/// Walks the remaining names of a path into nested record fields.
fn walk_path(v0: Value, path: &Vec<Vec<u8>>, from: usize) -> (r: Result<Value, ParseError>) {
    let mut v = v0;
    let np = path.len();
    let mut i: usize = from;
    while i < np
        invariant
            np == path@.len(),
        decreases np - i,
    {
        let nxt = match &v {
            Value::Record(o) => match o.get_field(path[i].as_slice()) {
                Some(x) => clone_value(x),
                None => {
                    return Err(ParseError::MissingName { name: slice_to_vec(path[i].as_slice()) });
                },
            },
            _ => {
                return Err(ParseError::BadValue);
            },
        };
        v = nxt;
        i = i + 1;
    }
    Ok(v)
}

/// Evaluates an expression against a field environment: the current
/// object's fields and instances, the ancestor chain for `_parent`/`_root`
/// paths, and, inside a repeat-until test, the latest element bound to
/// `_`. A name that is no parsed field but an instance of the owning
/// object's type is computed through its expression, to `fuel` levels of
/// instances referencing other instances. Expressions are pure: evaluation
/// never changes the environment.
fn eval(
    prog: &Program,
    e: &Expr,
    chain: &Vec<ParsedObj>,
    cur: &ParsedObj,
    last: Option<&Value>,
    fuel: u64,
) -> (r: Result<Value, ParseError>)
    decreases fuel, e,
{
    match e {
        Expr::IntLit(v) => Ok(Value::Int(*v)),
        Expr::BoolLit(b) => Ok(Value::Bool(*b)),
        Expr::StrLit(s) => Ok(Value::Bytes(slice_to_vec(s.as_slice()))),
        Expr::FloatLit(_) => Err(ParseError::Unsupported),
        Expr::EnumRef { .. } => Err(ParseError::Unsupported),
        Expr::Field { base, path } => {
            if path.len() == 0 {
                return Err(ParseError::BadValue);
            }
            let is_last_ref = match base {
                Base::Cur => path.len() == 1 && path[0].len() == 1 && crate::doc::bytes_eq(
                    path[0].as_slice(),
                    "_".as_bytes(),
                ),
                _ => false,
            };
            if is_last_ref {
                match last {
                    Some(v) => {
                        return Ok(clone_value(v));
                    },
                    None => {
                        return Err(ParseError::MissingName { name: slice_to_vec("_".as_bytes()) });
                    },
                }
            }
            let start = resolve_base(base, chain, cur)?;
            let mut val: &Value = match start.get_field(path[0].as_slice()) {
                Some(v) => v,
                None => {
                    // Not a parsed field: an instance of the owning type,
                    // computed through its expression against the owning
                    // object's own fields and instances.
                    if start.type_index >= prog.procs.len() {
                        return Err(
                            ParseError::MissingName { name: slice_to_vec(path[0].as_slice()) },
                        );
                    }
                    let ie = match find_instance_expr(
                        &prog.procs[start.type_index],
                        path[0].as_slice(),
                    ) {
                        Some(x) => x,
                        None => {
                            return Err(
                                ParseError::MissingName { name: slice_to_vec(path[0].as_slice()) },
                            );
                        },
                    };
                    if fuel == 0 {
                        return Err(ParseError::DepthLimit);
                    }
                    let own_scope: Vec<ParsedObj> = Vec::new();
                    let v0 = eval(prog, ie, &own_scope, start, None, fuel - 1)?;
                    return walk_path(v0, path, 1);
                },
            };
            let np = path.len();
            let mut i: usize = 1;
            while i < np
                invariant
                    i <= np,
                    np == path@.len(),
                decreases np - i,
            {
                match val {
                    Value::Record(o) => {
                        match o.get_field(path[i].as_slice()) {
                            Some(v2) => {
                                val = v2;
                            },
                            None => {
                                return Err(
                                    ParseError::MissingName {
                                        name: slice_to_vec(path[i].as_slice()),
                                    },
                                );
                            },
                        }
                    },
                    _ => {
                        return Err(ParseError::BadValue);
                    },
                }
                i = i + 1;
            }
            Ok(clone_value(val))
        },
        Expr::Neg(inner) => {
            match eval(prog, &*inner, chain, cur, last, fuel)? {
                Value::Int(x) => {
                    if x == i128::MIN {
                        Err(ParseError::Arithmetic)
                    } else {
                        Ok(Value::Int(-x))
                    }
                },
                _ => Err(ParseError::BadValue),
            }
        },
        Expr::Bin { op, lhs, rhs } => {
            let a = eval(prog, &*lhs, chain, cur, last, fuel)?;
            let b = eval(prog, &*rhs, chain, cur, last, fuel)?;
            apply_bin(op, a, b)
        },
        Expr::Cond { cond, yes, no } => {
            match eval(prog, &*cond, chain, cur, last, fuel)? {
                Value::Bool(true) => eval(prog, &*yes, chain, cur, last, fuel),
                Value::Bool(false) => eval(prog, &*no, chain, cur, last, fuel),
                _ => Err(ParseError::BadValue),
            }
        },
        Expr::Index { coll, idx } => {
            let c = eval(prog, &*coll, chain, cur, last, fuel)?;
            let iv = eval(prog, &*idx, chain, cur, last, fuel)?;
            match (c, iv) {
                (Value::List(mut items), Value::Int(i)) => {
                    if 0 <= i && i < items.len() as i128 {
                        Ok(items.remove(i as usize))
                    } else {
                        Err(ParseError::BadValue)
                    }
                },
                (Value::Bytes(b), Value::Int(i)) => {
                    if 0 <= i && i < b.len() as i128 {
                        Ok(Value::Int(b[i as usize] as i128))
                    } else {
                        Err(ParseError::BadValue)
                    }
                },
                _ => Err(ParseError::BadValue),
            }
        },
    }
}

/// Evaluates an expression that must yield an integer.
fn eval_int(
    prog: &Program,
    e: &Expr,
    chain: &Vec<ParsedObj>,
    cur: &ParsedObj,
    last: Option<&Value>,
) -> (r: Result<i128, ParseError>) {
    match eval(prog, e, chain, cur, last, INSTANCE_DEPTH)? {
        Value::Int(v) => Ok(v),
        _ => Err(ParseError::BadValue),
    }
}

/// Evaluates an expression that must yield a boolean.
fn eval_bool(
    prog: &Program,
    e: &Expr,
    chain: &Vec<ParsedObj>,
    cur: &ParsedObj,
    last: Option<&Value>,
) -> (r: Result<bool, ParseError>) {
    match eval(prog, e, chain, cur, last, INSTANCE_DEPTH)? {
        Value::Bool(v) => Ok(v),
        _ => Err(ParseError::BadValue),
    }
}

/// The ancestor chain for a nested parse: the current chain with the
/// current object appended.
fn extend_chain(chain: &Vec<ParsedObj>, cur: &ParsedObj) -> (r: Vec<ParsedObj>) {
    let mut cc: Vec<ParsedObj> = Vec::new();
    let n = chain.len();
    let mut i: usize = 0;
    while i < n
        invariant
            i <= n,
            n == chain@.len(),
        decreases n - i,
    {
        cc.push(clone_obj(&chain[i]));
        i = i + 1;
    }
    cc.push(clone_obj(cur));
    cc
}

/// The documented value of a primitive field over the stream bytes: the
/// unsigned little- or big-endian reading of `width` bytes at `p`, put
/// through the two's-complement reading for a signed letter; a float
/// field carries exactly those raw bits.
pub open spec fn prim_value(kind: PrimKind, width: u8, endian: Endian, b: Seq<u8>, p: int) -> int {
    let uv = if endian is Big {
        be_seg(b, p, width as int)
    } else {
        le_seg(b, p, width as int)
    };
    if kind is S {
        signed_of(uv, width as int)
    } else {
        uv as int
    }
}

/// Reads one primitive element, dispatching on letter, width and
/// endianness; float reads return their raw bits.
fn read_prim(kind: PrimKind, width: u8, endian: Endian, s: &mut ByteStream) -> (r: Result<
    Value,
    ParseError,
>)
    requires
        width == 1 || width == 2 || width == 4 || width == 8,
        kind is F ==> width == 4 || width == 8,
    ensures
        final(s).bytes() == old(s).bytes(),
        old(s).remaining() >= width ==> (r matches Ok(v) && v matches Value::Int(i) && i
            == prim_value(kind, width, endian, old(s).bytes(), old(s).position())
            && final(s).position() == old(s).position() + width),
        old(s).remaining() < width ==> r is Err,
{
    proof {
        crate::stream::lemma_pow256_vals();
        let b = old(s).bytes();
        let p = old(s).position();
        assert(le_seg(b, p + 1, 0) == 0);
        assert(le_seg(b, p, 1) == (b[p] as nat) + 256 * le_seg(b, p + 1, 0));
        assert(be_seg(b, p, 0) == 0);
        assert(be_seg(b, p, 1) == 256 * be_seg(b, p, 0) + (b[p] as nat));
    }
    let big = match endian {
        Endian::Big => true,
        _ => false,
    };
    match kind {
        PrimKind::U => {
            if width == 1 {
                match s.read_u1() {
                    Ok(v) => Ok(Value::Int(v as i128)),
                    Err(e) => Err(e),
                }
            } else if width == 2 {
                let v = if big {
                    s.read_u2be()?
                } else {
                    s.read_u2le()?
                };
                Ok(Value::Int(v as i128))
            } else if width == 4 {
                let v = if big {
                    s.read_u4be()?
                } else {
                    s.read_u4le()?
                };
                Ok(Value::Int(v as i128))
            } else if width == 8 {
                let v = if big {
                    s.read_u8be()?
                } else {
                    s.read_u8le()?
                };
                Ok(Value::Int(v as i128))
            } else {
                Err(ParseError::BadProcedure)
            }
        },
        PrimKind::S => {
            if width == 1 {
                match s.read_s1() {
                    Ok(v) => Ok(Value::Int(v as i128)),
                    Err(e) => Err(e),
                }
            } else if width == 2 {
                let v = if big {
                    s.read_s2be()?
                } else {
                    s.read_s2le()?
                };
                Ok(Value::Int(v as i128))
            } else if width == 4 {
                let v = if big {
                    s.read_s4be()?
                } else {
                    s.read_s4le()?
                };
                Ok(Value::Int(v as i128))
            } else if width == 8 {
                let v = if big {
                    s.read_s8be()?
                } else {
                    s.read_s8le()?
                };
                Ok(Value::Int(v as i128))
            } else {
                Err(ParseError::BadProcedure)
            }
        },
        PrimKind::F => {
            if width == 4 {
                let v = if big {
                    s.read_f4be_bits()?
                } else {
                    s.read_f4le_bits()?
                };
                Ok(Value::Int(v as i128))
            } else if width == 8 {
                let v = if big {
                    s.read_f8be_bits()?
                } else {
                    s.read_f8le_bits()?
                };
                Ok(Value::Int(v as i128))
            } else {
                Err(ParseError::BadProcedure)
            }
        },
    }
}

/// A plain primitive step: unconditional, unsized, unrepeated, without
/// fixed contents, reading one integer or float of a supported width.
pub open spec fn plain_prim_step(st: Step) -> bool {
    &&& st.cond is None
    &&& st.contents is None
    &&& st.size is NoSize
    &&& st.repeat is Once
    &&& (st.read matches ReadOp::PrimOp(pt) && (pt.width == 1 || pt.width == 2 || pt.width == 4
        || pt.width == 8) && (pt.kind is F ==> pt.width == 4 || pt.width == 8))
}

/// Parses one element of a step against the given stream: a primitive, a
/// terminator-delimited byte read, or a recursive parse of a user type or
/// switch-chosen type.
fn parse_element(
    prog: &Program,
    read: &ReadOp,
    s: &mut ByteStream,
    chain: &Vec<ParsedObj>,
    cur: &ParsedObj,
    fuel: u64,
) -> (r: Result<Value, ParseError>)
    ensures
        final(s).bytes() == old(s).bytes(),
        read matches ReadOp::PrimOp(pt) ==> (r matches Ok(v) ==> (v matches Value::Int(i) && i
            == prim_value(pt.kind, pt.width, pt.endian, old(s).bytes(), old(s).position()))),
        read matches ReadOp::PrimOp(pt) ==> (((pt.width == 1 || pt.width == 2 || pt.width == 4
            || pt.width == 8) && (pt.kind is F ==> pt.width == 4 || pt.width == 8) && old(
            s,
        ).remaining() >= pt.width) ==> (r is Ok && final(s).position() == old(s).position()
            + pt.width)),
    decreases fuel, 0int,
{
    match read {
        ReadOp::PrimOp(pt) => {
            let width_fits = match pt.kind {
                PrimKind::F => pt.width == 4 || pt.width == 8,
                _ => pt.width == 1 || pt.width == 2 || pt.width == 4 || pt.width == 8,
            };
            if width_fits {
                read_prim(pt.kind, pt.width, pt.endian, s)
            } else {
                Err(ParseError::BadProcedure)
            }
        },
        ReadOp::RawBytes { terminator } => {
            match terminator {
                Some(t) => {
                    let b = s.read_bytes_term(*t as char, TerminatorFlags::consume())?;
                    Ok(Value::Bytes(b))
                },
                None => {
                    let b = s.read_bytes_full()?;
                    Ok(Value::Bytes(b))
                },
            }
        },
        ReadOp::UserTy(u) => {
            if fuel == 0 {
                return Err(ParseError::DepthLimit);
            }
            let cc = extend_chain(chain, cur);
            let o = parse_type(prog, *u, s, &cc, fuel - 1)?;
            Ok(Value::Record(o))
        },
        ReadOp::SwitchOp { disc, cases, dflt } => {
            if fuel == 0 {
                return Err(ParseError::DepthLimit);
            }
            let dv = eval_int(prog, disc, chain, cur, None)?;
            let ti = select_case(cases, dflt, dv)?;
            let cc = extend_chain(chain, cur);
            let o = parse_type(prog, ti, s, &cc, fuel - 1)?;
            Ok(Value::Record(o))
        },
    }
}

/// Parses one sized or unsized element: a size expression first reads that
/// many bytes into a bounded sub-stream that scopes the element's reads; a
/// to-end size takes the whole rest; fixed contents are read and compared
/// byte for byte.
fn parse_one(
    prog: &Program,
    step: &Step,
    s: &mut ByteStream,
    chain: &Vec<ParsedObj>,
    cur: &ParsedObj,
    fuel: u64,
) -> (r: Result<Value, ParseError>)
    ensures
        final(s).bytes() == old(s).bytes(),
        step.contents matches Some(c) ==> (old(s).remaining() >= c@.len() && old(
            s,
        ).bytes().subrange(old(s).position(), old(s).position() + c@.len()) == c@ ==> r is Ok
            && final(s).position() == old(s).position() + c@.len()),
        step.contents matches Some(c) ==> (old(s).remaining() >= c@.len() && old(
            s,
        ).bytes().subrange(old(s).position(), old(s).position() + c@.len()) != c@ ==> r is Err),
        step.contents is None && step.size is NoSize ==> (step.read matches ReadOp::PrimOp(pt)
            ==> ((r matches Ok(v) ==> (v matches Value::Int(i) && i == prim_value(
            pt.kind,
            pt.width,
            pt.endian,
            old(s).bytes(),
            old(s).position(),
        ))) && (((pt.width == 1 || pt.width == 2 || pt.width == 4 || pt.width == 8) && (pt.kind
            is F ==> pt.width == 4 || pt.width == 8) && old(s).remaining() >= pt.width) ==> (r
            is Ok && final(s).position() == old(s).position() + pt.width)))),
    decreases fuel, 1int,
{
    match &step.contents {
        Some(c) => {
            s.ensure_fixed_contents(c.as_slice())?;
            return Ok(Value::Bytes(slice_to_vec(c.as_slice())));
        },
        None => {
        },
    }
    match &step.size {
        StepSize::NoSize => parse_element(prog, &step.read, s, chain, cur, fuel),
        StepSize::SizeExpr(e) => {
            let nv = eval_int(prog, e, chain, cur, None)?;
            if nv < 0 || nv > usize::MAX as i128 {
                return Err(ParseError::BadValue);
            }
            let raw = s.read_bytes(nv as usize)?;
            match &step.read {
                ReadOp::RawBytes { .. } => Ok(Value::Bytes(raw)),
                _ => {
                    let mut sub = ByteStream::new(raw);
                    parse_element(prog, &step.read, &mut sub, chain, cur, fuel)
                },
            }
        },
        StepSize::ToEos => {
            let raw = s.read_bytes_full()?;
            match &step.read {
                ReadOp::RawBytes { .. } => Ok(Value::Bytes(raw)),
                _ => {
                    let mut sub = ByteStream::new(raw);
                    parse_element(prog, &step.read, &mut sub, chain, cur, fuel)
                },
            }
        },
    }
}

/// Runs one step: evaluates the presence condition, then reads once or in
/// a repeat loop. A skipped step returns `None` and leaves the stream
/// untouched; a repeat-until step always reads at least one element before
/// testing its condition; a repeat-to-end step ends exactly when the
/// stream it reads from has no byte left.
pub fn parse_step(
    prog: &Program,
    step: &Step,
    s: &mut ByteStream,
    chain: &Vec<ParsedObj>,
    cur: &ParsedObj,
    fuel: u64,
) -> (r: Result<Option<Value>, ParseError>)
    ensures
        final(s).bytes() == old(s).bytes(),
        r matches Ok(o) ==> (o is None ==> *final(s) == *old(s)),
        step.repeat matches StepRepeat::UntilTrue(_) ==> (r matches Ok(o) ==> (o matches Some(v)
            ==> (v matches Value::List(items) && items@.len() >= 1))),
        step.repeat is ToEnd ==> (r matches Ok(o) ==> (o matches Some(_) ==> final(s).remaining()
            == 0)),
        plain_prim_step(*step) && old(s).remaining() >= step.read->PrimOp_0.width ==> (r matches
            Ok(o) && (o matches Some(v) && (v matches Value::Int(i) && i == prim_value(
            step.read->PrimOp_0.kind,
            step.read->PrimOp_0.width,
            step.read->PrimOp_0.endian,
            old(s).bytes(),
            old(s).position(),
        ))) && final(s).position() == old(s).position() + step.read->PrimOp_0.width),
    decreases fuel, 2int,
{
    match &step.cond {
        Some(c) => {
            if !eval_bool(prog, c, chain, cur, None)? {
                return Ok(None);
            }
        },
        None => {
        },
    }
    match &step.repeat {
        StepRepeat::Once => {
            let v = parse_one(prog, step, s, chain, cur, fuel)?;
            Ok(Some(v))
        },
        StepRepeat::CountExpr(e) => {
            let nv = eval_int(prog, e, chain, cur, None)?;
            if nv < 0 {
                return Err(ParseError::BadValue);
            }
            let mut items: Vec<Value> = Vec::new();
            let mut i: i128 = 0;
            while i < nv
                invariant
                    0 <= i <= nv,
                    s.bytes() == old(s).bytes(),
                    !plain_prim_step(*step),
                decreases nv - i,
            {
                let v = parse_one(prog, step, s, chain, cur, fuel)?;
                items.push(v);
                i = i + 1;
            }
            Ok(Some(Value::List(items)))
        },
        StepRepeat::ToEnd => {
            let mut items: Vec<Value> = Vec::new();
            proof {
                use_type_invariant(&*s);
                crate::stream::lemma_stream_bounds(*s);
            }
            while !s.is_eof()
                invariant
                    s.bytes() == old(s).bytes(),
                    s.position() <= s.bytes().len(),
                    !plain_prim_step(*step),
                decreases s.bytes().len() - s.position(),
            {
                let before = s.pos();
                let v = parse_one(prog, step, s, chain, cur, fuel)?;
                if s.pos() <= before {
                    return Err(ParseError::NoProgress);
                }
                items.push(v);
                proof {
                    use_type_invariant(&*s);
                    crate::stream::lemma_stream_bounds(*s);
                }
            }
            Ok(Some(Value::List(items)))
        },
        StepRepeat::UntilTrue(e) => {
            let mut items: Vec<Value> = Vec::new();
            let v0 = parse_one(prog, step, s, chain, cur, fuel)?;
            let mut done = eval_bool(prog, e, chain, cur, Some(&v0))?;
            items.push(v0);
            proof {
                use_type_invariant(&*s);
                crate::stream::lemma_stream_bounds(*s);
            }
            while !done
                invariant
                    items@.len() >= 1,
                    s.bytes() == old(s).bytes(),
                    s.position() <= s.bytes().len(),
                    !plain_prim_step(*step),
                decreases (if done {
                    0int
                } else {
                    1int
                }), s.bytes().len() - s.position(),
            {
                let before = s.pos();
                let v = parse_one(prog, step, s, chain, cur, fuel)?;
                done = eval_bool(prog, e, chain, cur, Some(&v))?;
                items.push(v);
                if !done && s.pos() <= before {
                    return Err(ParseError::NoProgress);
                }
                proof {
                    use_type_invariant(&*s);
                    crate::stream::lemma_stream_bounds(*s);
                }
            }
            Ok(Some(Value::List(items)))
        },
    }
}

/// Parses one value of the type at `idx` from the stream: one state per
/// attribute in sequence order, then a terminal state that lays out the
/// empty instance cache cells. A failed required read aborts the whole
/// parse; a skipped conditional attribute never does.
pub fn parse_type(
    prog: &Program,
    idx: usize,
    s: &mut ByteStream,
    chain: &Vec<ParsedObj>,
    fuel: u64,
) -> (r: Result<ParsedObj, ParseError>)
    ensures
        final(s).bytes() == old(s).bytes(),
        r matches Ok(o) ==> o.type_index == idx,
        idx < prog.procs@.len() && prog.procs@[idx as int].steps@.len() == 0
            && prog.procs@[idx as int].instances@.len() == 0 ==> (r matches Ok(o)
            && o.fields@.len() == 0 && o.cache@.len() == 0 && *final(s) == *old(s)),
        idx < prog.procs@.len() && prog.procs@[idx as int].steps@.len() == 1
            && plain_prim_step(prog.procs@[idx as int].steps@[0])
            && prog.procs@[idx as int].instances@.len() == 0 && old(s).remaining()
            >= prog.procs@[idx as int].steps@[0].read->PrimOp_0.width ==> (r matches Ok(o) && o.fields@.len() == 1
            && o.fields@[0].0@ == prog.procs@[idx as int].steps@[0].field@ && (o.fields@[0].1
            matches Value::Int(i) && i == prim_value(
            prog.procs@[idx as int].steps@[0].read->PrimOp_0.kind,
            prog.procs@[idx as int].steps@[0].read->PrimOp_0.width,
            prog.procs@[idx as int].steps@[0].read->PrimOp_0.endian,
            old(s).bytes(),
            old(s).position(),
        )) && final(s).position() == old(s).position()
            + prog.procs@[idx as int].steps@[0].read->PrimOp_0.width),
    decreases fuel, 3int,
{
    if idx >= prog.procs.len() {
        return Err(ParseError::BadProcedure);
    }
    let mut obj = ParsedObj { type_index: idx, fields: Vec::new(), cache: Vec::new() };
    let nsteps = prog.procs[idx].steps.len();
    let mut si: usize = 0;
    while si < nsteps
        invariant
            si <= nsteps,
            idx < prog.procs@.len(),
            nsteps == prog.procs@[idx as int].steps@.len(),
            s.bytes() == old(s).bytes(),
            obj.type_index == idx,
            obj.cache@.len() == 0,
            nsteps == 0 ==> obj.fields@.len() == 0 && *s == *old(s),
            idx < prog.procs@.len() && prog.procs@[idx as int].steps@.len() == 1
            && plain_prim_step(prog.procs@[idx as int].steps@[0])
            && prog.procs@[idx as int].instances@.len() == 0 && old(s).remaining()
            >= prog.procs@[idx as int].steps@[0].read->PrimOp_0.width ==> ((si == 0 && obj.fields@.len() == 0 && *s == *old(s)) || (si == 1
                && obj.fields@.len() == 1 && obj.fields@[0].0@
                == prog.procs@[idx as int].steps@[0].field@ && (obj.fields@[0].1
                matches Value::Int(i) && i == prim_value(
                prog.procs@[idx as int].steps@[0].read->PrimOp_0.kind,
                prog.procs@[idx as int].steps@[0].read->PrimOp_0.width,
                prog.procs@[idx as int].steps@[0].read->PrimOp_0.endian,
                old(s).bytes(),
                old(s).position(),
            )) && s.position() == old(s).position()
                + prog.procs@[idx as int].steps@[0].read->PrimOp_0.width)),
        decreases nsteps - si,
    {
        let step = &prog.procs[idx].steps[si];
        match parse_step(prog, step, s, chain, &obj, fuel)? {
            Some(v) => {
                obj.fields.push((slice_to_vec(step.field.as_slice()), v));
            },
            None => {
            },
        }
        si = si + 1;
    }
    let ni = prog.procs[idx].instances.len();
    let mut ii: usize = 0;
    while ii < ni
        invariant
            ii <= ni,
            idx < prog.procs@.len(),
            ni == prog.procs@[idx as int].instances@.len(),
            s.bytes() == old(s).bytes(),
            obj.type_index == idx,
            obj.cache@.len() == ii,
            prog.procs@[idx as int].steps@.len() == 0 ==> obj.fields@.len() == 0 && *s == *old(s),
            idx < prog.procs@.len() && prog.procs@[idx as int].steps@.len() == 1
            && plain_prim_step(prog.procs@[idx as int].steps@[0])
            && prog.procs@[idx as int].instances@.len() == 0 && old(s).remaining()
            >= prog.procs@[idx as int].steps@[0].read->PrimOp_0.width ==> (obj.fields@.len() == 1 && obj.fields@[0].0@
                == prog.procs@[idx as int].steps@[0].field@ && (obj.fields@[0].1
                matches Value::Int(i) && i == prim_value(
                prog.procs@[idx as int].steps@[0].read->PrimOp_0.kind,
                prog.procs@[idx as int].steps@[0].read->PrimOp_0.width,
                prog.procs@[idx as int].steps@[0].read->PrimOp_0.endian,
                old(s).bytes(),
                old(s).position(),
            )) && s.position() == old(s).position()
                + prog.procs@[idx as int].steps@[0].read->PrimOp_0.width),
        decreases ni - ii,
    {
        obj.cache.push((slice_to_vec(prog.procs[idx].instances[ii].0.as_slice()), None));
        ii = ii + 1;
    }
    Ok(obj)
}

/// Parses a whole stream as the program's root type.
pub fn parse_root(prog: &Program, data: Vec<u8>) -> (r: Result<ParsedObj, ParseError>)
    ensures
        r matches Ok(o) ==> o.type_index == prog.root,
        prog.root < prog.procs@.len() && prog.procs@[prog.root as int].steps@.len() == 0
            && prog.procs@[prog.root as int].instances@.len() == 0 ==> r is Ok,
        prog.root < prog.procs@.len() && prog.procs@[prog.root as int].steps@.len() == 1
            && plain_prim_step(prog.procs@[prog.root as int].steps@[0])
            && prog.procs@[prog.root as int].instances@.len() == 0 && data@.len()
            >= prog.procs@[prog.root as int].steps@[0].read->PrimOp_0.width ==> (r matches Ok(o)
            && o.fields@.len() == 1 && o.fields@[0].0@
            == prog.procs@[prog.root as int].steps@[0].field@ && (o.fields@[0].1
            matches Value::Int(i) && i == prim_value(
            prog.procs@[prog.root as int].steps@[0].read->PrimOp_0.kind,
            prog.procs@[prog.root as int].steps@[0].read->PrimOp_0.width,
            prog.procs@[prog.root as int].steps@[0].read->PrimOp_0.endian,
            data@,
            0,
        ))),
{
    let mut s = ByteStream::new(data);
    let chain: Vec<ParsedObj> = Vec::new();
    parse_type(prog, prog.root, &mut s, &chain, 64)
}

/// The expression of the named instance in a parse procedure.
fn find_instance_expr<'a>(proc_: &'a ParseProc, name: &[u8]) -> (r: Option<&'a Expr>) {
    let n = proc_.instances.len();
    let mut i: usize = 0;
    while i < n
        invariant
            i <= n,
            n == proc_.instances@.len(),
        decreases n - i,
    {
        if crate::doc::bytes_eq(proc_.instances[i].0.as_slice(), name) {
            return Some(&proc_.instances[i].1);
        }
        i = i + 1;
    }
    None
}

/// Serves the named instance of a parsed object: evaluated against the
/// object's own, now-complete field set and its other instances on first
/// access, and memoized; a later access returns exactly the cached value
/// and changes nothing, even when a referenced field was changed after the
/// first access. A parsed object carries no link to its parents, so
/// ancestor paths are a parse-time affordance only: an instance expression
/// sees the owning object alone.
pub fn instance_value<'a>(prog: &Program, obj: &'a mut ParsedObj, name: &[u8]) -> (r: Result<
    &'a Value,
    ParseError,
>)
    ensures
        final(obj).fields == old(obj).fields,
        final(obj).type_index == old(obj).type_index,
        slot_of(old(obj).cache@, name@) < 0 ==> r is Err && *final(obj) == *old(obj),
        slot_of(old(obj).cache@, name@) >= 0 ==> (old(obj).cache@[slot_of(
            old(obj).cache@,
            name@,
        )].1 matches Some(v) ==> ({
            &&& *final(obj) == *old(obj)
            &&& r matches Ok(rv)
            &&& *rv == v
        })),
        r matches Ok(rv) ==> {
            let k = slot_of(old(obj).cache@, name@);
            &&& k >= 0
            &&& final(obj).cache@.len() == old(obj).cache@.len()
            &&& final(obj).cache@[k].0 == old(obj).cache@[k].0
            &&& final(obj).cache@[k].1 == Some(*rv)
            &&& (forall|j: int|
                0 <= j < old(obj).cache@.len() && j != k ==> final(obj).cache@[j] == old(
                    obj,
                ).cache@[j])
        },
{
    let n = obj.cache.len();
    let mut i: usize = 0;
    while i < n
        invariant
            i <= n,
            n == obj.cache@.len(),
            *obj == *old(obj),
            forall|j: int| 0 <= j < i ==> (#[trigger] obj.cache@[j]).0@ != name@,
        decreases n - i,
    {
        if crate::doc::bytes_eq(obj.cache[i].0.as_slice(), name) {
            proof {
                lemma_slot_skip(obj.cache@, name@, i as int);
                assert(obj.cache@.skip(i as int)[0] == obj.cache@[i as int]);
                assert(slot_of(obj.cache@, name@) == i);
            }
            let filled = match &obj.cache[i].1 {
                Some(_) => true,
                None => false,
            };
            if !filled {
                if obj.type_index >= prog.procs.len() {
                    return Err(ParseError::BadProcedure);
                }
                let val = match find_instance_expr(&prog.procs[obj.type_index], name) {
                    Some(e) => {
                        let empty_chain: Vec<ParsedObj> = Vec::new();
                        eval(prog, e, &empty_chain, &*obj, None, INSTANCE_DEPTH)?
                    },
                    None => {
                        return Err(ParseError::MissingName { name: slice_to_vec(name) });
                    },
                };
                let cell = obj.cache.remove(i);
                obj.cache.insert(i, (cell.0, Some(val)));
                proof {
                    assert(obj.cache@ =~= old(obj).cache@.update(
                        i as int,
                        (old(obj).cache@[i as int].0, obj.cache@[i as int].1),
                    ));
                }
            }
            match &obj.cache[i].1 {
                Some(v) => {
                    return Ok(v);
                },
                None => {
                    return Err(ParseError::MissingName { name: slice_to_vec(name) });
                },
            }
        }
        i = i + 1;
    }
    proof {
        lemma_slot_skip(obj.cache@, name@, n as int);
        assert(obj.cache@.skip(n as int).len() == 0);
    }
    Err(ParseError::MissingName { name: slice_to_vec(name) })
}

} // verus!
