//! The schema model and its builder: turns the generic document tree into
//! `Meta`, a tree of `TypeDef` with `Attribute`s, `Instance` expressions and
//! `EnumDef`s, compiling embedded expressions on the way. A structurally
//! invalid document aborts the whole build with a `SchemaError`.

use vstd::prelude::*;
use vstd::slice::slice_index_get;
use vstd::slice::slice_to_vec;

use crate::doc::bytes_eq;
use crate::doc::map_get;
use crate::doc::Doc;
use crate::error::SchemaError;
use crate::expr::compile_expr;
use crate::expr::Expr;

verus! {

/// Byte order of a multi-byte read; `Unspecified` defers to the inherited
/// default until the resolver concretizes it.
#[derive(Debug, Clone, Copy, PartialEq, Eq, Structural)]
pub enum Endian {
    Little,
    Big,
    Unspecified,
}

/// Format-wide defaults, inherited by nested types unless overridden.
#[derive(Debug)]
pub struct Meta {
    pub id: Option<Vec<u8>>,
    pub endian: Endian,
    pub encoding: Option<Vec<u8>>,
}

/// The letter of a primitive type token: unsigned, signed, or float.
#[derive(Debug, Clone, Copy, PartialEq, Eq, Structural)]
pub enum PrimKind {
    U,
    S,
    F,
}

/// A primitive fixed-width type: letter, width in bytes, endianness.
#[derive(Debug, Clone, Copy, PartialEq, Eq, Structural)]
pub struct PrimType {
    pub kind: PrimKind,
    pub width: u8,
    pub endian: Endian,
}

/// The type of one attribute.
#[derive(Debug)]
pub enum TypeSpec {
    /// A fixed-width integer or float.
    Prim(PrimType),
    /// A byte string, sized by the size spec or by a terminator.
    BytesT,
    /// A user-defined type referenced by name.
    User(Vec<u8>),
    /// A type choice keyed by a discriminant expression; case values map to
    /// type names, with an optional default name.
    Switch { disc: Expr, cases: Vec<(i128, Vec<u8>)>, dflt: Option<Vec<u8>> },
}

/// How many bytes one element of an attribute spans.
#[derive(Debug)]
pub enum SizeSpec {
    /// No size bound: the type itself decides how much it reads.
    Unsized,
    /// Exactly the value of the expression, read into a bounded sub-stream.
    Fixed(Expr),
    /// Everything to the end of the enclosing stream.
    Eos,
}

/// How often an attribute repeats.
#[derive(Debug)]
pub enum RepeatSpec {
    /// One element.
    NoRepeat,
    /// Exactly the value of the expression many elements.
    Count(Expr),
    /// Elements until the stream reports end of stream.
    UntilEos,
    /// Elements until the expression holds of the latest element; at least
    /// one element is always read.
    Until(Expr),
}

/// One field of the sequential layout.
#[derive(Debug)]
pub struct Attribute {
    pub id: Vec<u8>,
    pub ty: TypeSpec,
    pub size: SizeSpec,
    pub repeat: RepeatSpec,
    /// Presence condition: when it evaluates false the field is skipped
    /// without reading or assigning.
    pub cond: Option<Expr>,
    /// Fixed expected contents for validation-only fields.
    pub contents: Option<Vec<u8>>,
    /// Terminator byte for terminator-delimited byte reads.
    pub terminator: Option<u8>,
}

/// A mapping from integer values to symbolic names, scoped to the type
/// that declares it.
#[derive(Debug)]
pub struct EnumDef {
    pub id: Vec<u8>,
    pub members: Vec<(i128, Vec<u8>)>,
}

/// A named structural type: ordered attributes, lazily computed instances,
/// enums and nested types, plus its (possibly still unresolved) meta.
#[derive(Debug)]
pub struct TypeDef {
    pub id: Vec<u8>,
    pub meta: Meta,
    pub seq: Vec<Attribute>,
    pub instances: Vec<(Vec<u8>, Expr)>,
    pub enums: Vec<EnumDef>,
    pub types: Vec<TypeDef>,
}

/// The root entity: the format-wide meta and the root type.
#[derive(Debug)]
pub struct Schema {
    pub meta: Meta,
    pub root: TypeDef,
}

/// No two attributes of the sequence share an identifier.
pub open spec fn attr_ids_unique(s: Seq<Attribute>) -> bool {
    forall|i: int, j: int|
        0 <= i < j < s.len() ==> (#[trigger] s[i]).id@ != (#[trigger] s[j]).id@
}

/// No two instances share a name, and none shadows an attribute.
pub open spec fn inst_ids_unique(insts: Seq<(Vec<u8>, Expr)>, seq: Seq<Attribute>) -> bool {
    (forall|i: int, j: int|
        0 <= i < j < insts.len() ==> (#[trigger] insts[i]).0@ != (#[trigger] insts[j]).0@)
        && (forall|i: int, j: int|
        0 <= i < insts.len() && 0 <= j < seq.len() ==> (#[trigger] insts[i]).0@ != (
        #[trigger] seq[j]).id@)
}

/// Parses an optionally signed decimal integer from bytes.
pub(crate) fn parse_int_bytes(b: &[u8]) -> (r: Option<i128>) {
    let n = b.len();
    if n == 0 {
        return None;
    }
    let neg = *slice_index_get(b, 0) == 45;
    let mut i: usize = if neg {
        1
    } else {
        0
    };
    if i >= n {
        return None;
    }
    let mut v: i128 = 0;
    while i < n
        invariant
            i <= n,
            n == b@.len(),
            0 <= v,
        decreases n - i,
    {
        let c = *slice_index_get(b, i);
        if c < 48 || c > 57 {
            return None;
        }
        if v > i128::MAX / 10 - 1 {
            return None;
        }
        v = v * 10 + ((c - 48) as i128);
        i = i + 1;
    }
    if neg {
        Some(-v)
    } else {
        Some(v)
    }
}

/// Parses a primitive type token: `u`/`s`/`f`, a width, and an optional
/// `le`/`be` suffix; width 1 takes no suffix.
pub(crate) fn parse_type_token(tok: &[u8]) -> (r: Option<PrimType>) {
    let n = tok.len();
    if n != 2 && n != 4 {
        return None;
    }
    let kind = match *slice_index_get(tok, 0) {
        117 => PrimKind::U,
        115 => PrimKind::S,
        102 => PrimKind::F,
        _ => {
            return None;
        },
    };
    let width: u8 = match *slice_index_get(tok, 1) {
        49 => 1,
        50 => 2,
        52 => 4,
        56 => 8,
        _ => {
            return None;
        },
    };
    match kind {
        PrimKind::F => {
            if width != 4 && width != 8 {
                return None;
            }
        },
        _ => {
        },
    }
    if n == 2 {
        return Some(PrimType { kind, width, endian: Endian::Unspecified });
    }
    if width == 1 {
        return None;
    }
    let e0 = *slice_index_get(tok, 2);
    let e1 = *slice_index_get(tok, 3);
    if e0 == 108 && e1 == 101 {
        Some(PrimType { kind, width, endian: Endian::Little })
    } else if e0 == 98 && e1 == 101 {
        Some(PrimType { kind, width, endian: Endian::Big })
    } else {
        None
    }
}

/// Compiles an expression-valued document scalar: an integer becomes a
/// literal, a string is compiled by the expression compiler.
fn build_expr(d: &Doc, key: &[u8]) -> (r: Result<Expr, SchemaError>) {
    match d {
        Doc::Int(v) => Ok(Expr::IntLit(*v as i128)),
        Doc::Bool(b) => Ok(Expr::BoolLit(*b)),
        Doc::Str(s) => match compile_expr(s.as_slice()) {
            Ok(e) => Ok(e),
            Err(e) => Err(SchemaError::Syntax(e)),
        },
        _ => Err(SchemaError::WrongShape { key: slice_to_vec(key) }),
    }
}

/// Builds the meta mapping: identifier, default endianness, encoding.
fn build_meta(d: &Doc) -> (r: Result<Meta, SchemaError>) {
    let entries = match d {
        Doc::Mapping(m) => m,
        _ => {
            return Err(SchemaError::WrongShape { key: slice_to_vec("meta".as_bytes()) });
        },
    };
    let id = match map_get(entries, "id".as_bytes()) {
        Some(Doc::Str(s)) => Some(slice_to_vec(s.as_slice())),
        Some(_) => {
            return Err(SchemaError::WrongShape { key: slice_to_vec("id".as_bytes()) });
        },
        None => None,
    };
    let endian = match map_get(entries, "endian".as_bytes()) {
        Some(Doc::Str(s)) => {
            if bytes_eq(s.as_slice(), "le".as_bytes()) {
                Endian::Little
            } else if bytes_eq(s.as_slice(), "be".as_bytes()) {
                Endian::Big
            } else {
                return Err(SchemaError::WrongShape { key: slice_to_vec("endian".as_bytes()) });
            }
        },
        Some(_) => {
            return Err(SchemaError::WrongShape { key: slice_to_vec("endian".as_bytes()) });
        },
        None => Endian::Unspecified,
    };
    let encoding = match map_get(entries, "encoding".as_bytes()) {
        Some(Doc::Str(s)) => Some(slice_to_vec(s.as_slice())),
        Some(_) => {
            return Err(SchemaError::WrongShape { key: slice_to_vec("encoding".as_bytes()) });
        },
        None => None,
    };
    Ok(Meta { id, endian, encoding })
}

/// Builds the fixed expected contents of a validation field: a string, or
/// a list of byte-valued integers.
fn build_contents(d: &Doc) -> (r: Result<Vec<u8>, SchemaError>) {
    match d {
        Doc::Str(s) => Ok(slice_to_vec(s.as_slice())),
        Doc::List(items) => {
            let n = items.len();
            let mut out: Vec<u8> = Vec::new();
            let mut i: usize = 0;
            while i < n
                invariant
                    i <= n,
                    n == items@.len(),
                decreases n - i,
            {
                match &items[i] {
                    Doc::Int(v) => {
                        if *v < 0 || *v > 255 {
                            return Err(
                                SchemaError::WrongShape { key: slice_to_vec("contents".as_bytes()) },
                            );
                        }
                        out.push(*v as u8);
                    },
                    _ => {
                        return Err(
                            SchemaError::WrongShape { key: slice_to_vec("contents".as_bytes()) },
                        );
                    },
                }
                i = i + 1;
            }
            Ok(out)
        },
        _ => Err(SchemaError::WrongShape { key: slice_to_vec("contents".as_bytes()) }),
    }
}

/// Builds the type spec of an attribute from its `type` value: a primitive
/// token, a user-type name, or a switch mapping.
fn build_type_spec(d: &Doc) -> (r: Result<TypeSpec, SchemaError>) {
    match d {
        Doc::Str(s) => {
            match parse_type_token(s.as_slice()) {
                Some(p) => Ok(TypeSpec::Prim(p)),
                None => {
                    if s.len() == 3 && bytes_eq(s.as_slice(), "str".as_bytes()) {
                        Ok(TypeSpec::BytesT)
                    } else {
                        Ok(TypeSpec::User(slice_to_vec(s.as_slice())))
                    }
                },
            }
        },
        Doc::Mapping(m) => {
            let disc = match map_get(m, "switch-on".as_bytes()) {
                Some(dd) => build_expr(dd, "switch-on".as_bytes())?,
                None => {
                    return Err(SchemaError::MissingKey { key: slice_to_vec("switch-on".as_bytes()) });
                },
            };
            let case_entries = match map_get(m, "cases".as_bytes()) {
                Some(Doc::Mapping(cm)) => cm,
                _ => {
                    return Err(SchemaError::MissingKey { key: slice_to_vec("cases".as_bytes()) });
                },
            };
            let n = case_entries.len();
            let mut cases: Vec<(i128, Vec<u8>)> = Vec::new();
            let mut dflt: Option<Vec<u8>> = None;
            let mut i: usize = 0;
            while i < n
                invariant
                    i <= n,
                    n == case_entries@.len(),
                decreases n - i,
            {
                let key = &case_entries[i].0;
                let tyname = match &case_entries[i].1 {
                    Doc::Str(s) => slice_to_vec(s.as_slice()),
                    _ => {
                        return Err(SchemaError::WrongShape { key: slice_to_vec("cases".as_bytes()) });
                    },
                };
                if key.len() == 1 && bytes_eq(key.as_slice(), "_".as_bytes()) {
                    dflt = Some(tyname);
                } else {
                    match parse_int_bytes(key.as_slice()) {
                        Some(v) => {
                            cases.push((v, tyname));
                        },
                        None => {
                            return Err(
                                SchemaError::WrongShape { key: slice_to_vec("cases".as_bytes()) },
                            );
                        },
                    }
                }
                i = i + 1;
            }
            Ok(TypeSpec::Switch { disc, cases, dflt })
        },
        _ => Err(SchemaError::WrongShape { key: slice_to_vec("type".as_bytes()) }),
    }
}

/// Builds one attribute of the `seq` list.
fn build_attribute(d: &Doc) -> (r: Result<Attribute, SchemaError>) {
    let entries = match d {
        Doc::Mapping(m) => m,
        _ => {
            return Err(SchemaError::WrongShape { key: slice_to_vec("seq".as_bytes()) });
        },
    };
    let id = match map_get(entries, "id".as_bytes()) {
        Some(Doc::Str(s)) => slice_to_vec(s.as_slice()),
        Some(_) => {
            return Err(SchemaError::WrongShape { key: slice_to_vec("id".as_bytes()) });
        },
        None => {
            return Err(SchemaError::MissingKey { key: slice_to_vec("id".as_bytes()) });
        },
    };
    let contents = match map_get(entries, "contents".as_bytes()) {
        Some(c) => Some(build_contents(c)?),
        None => None,
    };
    let ty = match map_get(entries, "type".as_bytes()) {
        Some(t) => build_type_spec(t)?,
        None => TypeSpec::BytesT,
    };
    let size_eos = match map_get(entries, "size-eos".as_bytes()) {
        Some(Doc::Bool(b)) => *b,
        Some(_) => {
            return Err(SchemaError::WrongShape { key: slice_to_vec("size-eos".as_bytes()) });
        },
        None => false,
    };
    let size = match map_get(entries, "size".as_bytes()) {
        Some(sd) => {
            if size_eos {
                return Err(SchemaError::WrongShape { key: slice_to_vec("size".as_bytes()) });
            }
            SizeSpec::Fixed(build_expr(sd, "size".as_bytes())?)
        },
        None => {
            if size_eos {
                SizeSpec::Eos
            } else {
                SizeSpec::Unsized
            }
        },
    };
    let repeat = match map_get(entries, "repeat".as_bytes()) {
        Some(Doc::Str(s)) => {
            if bytes_eq(s.as_slice(), "eos".as_bytes()) {
                RepeatSpec::UntilEos
            } else if bytes_eq(s.as_slice(), "expr".as_bytes()) {
                match map_get(entries, "repeat-expr".as_bytes()) {
                    Some(ed) => RepeatSpec::Count(build_expr(ed, "repeat-expr".as_bytes())?),
                    None => {
                        return Err(
                            SchemaError::MissingKey { key: slice_to_vec("repeat-expr".as_bytes()) },
                        );
                    },
                }
            } else if bytes_eq(s.as_slice(), "until".as_bytes()) {
                match map_get(entries, "repeat-until".as_bytes()) {
                    Some(ed) => RepeatSpec::Until(build_expr(ed, "repeat-until".as_bytes())?),
                    None => {
                        return Err(
                            SchemaError::MissingKey { key: slice_to_vec("repeat-until".as_bytes()) },
                        );
                    },
                }
            } else {
                return Err(SchemaError::WrongShape { key: slice_to_vec("repeat".as_bytes()) });
            }
        },
        Some(_) => {
            return Err(SchemaError::WrongShape { key: slice_to_vec("repeat".as_bytes()) });
        },
        None => RepeatSpec::NoRepeat,
    };
    match (&repeat, &size) {
        (RepeatSpec::Count(_), SizeSpec::Eos) => {
            return Err(SchemaError::WrongShape { key: slice_to_vec("repeat".as_bytes()) });
        },
        _ => {
        },
    }
    let cond = match map_get(entries, "if".as_bytes()) {
        Some(cd) => Some(build_expr(cd, "if".as_bytes())?),
        None => None,
    };
    let terminator = match map_get(entries, "terminator".as_bytes()) {
        Some(Doc::Int(v)) => {
            if *v < 0 || *v > 255 {
                return Err(SchemaError::WrongShape { key: slice_to_vec("terminator".as_bytes()) });
            }
            Some(*v as u8)
        },
        Some(_) => {
            return Err(SchemaError::WrongShape { key: slice_to_vec("terminator".as_bytes()) });
        },
        None => None,
    };
    Ok(Attribute { id, ty, size, repeat, cond, contents, terminator })
}

/// Builds one enum definition: integer values mapped to member names,
/// member names unique within the enum.
fn build_enum(id: &[u8], d: &Doc) -> (r: Result<EnumDef, SchemaError>) {
    let entries = match d {
        Doc::Mapping(m) => m,
        _ => {
            return Err(SchemaError::WrongShape { key: slice_to_vec(id) });
        },
    };
    let n = entries.len();
    let mut members: Vec<(i128, Vec<u8>)> = Vec::new();
    let mut i: usize = 0;
    while i < n
        invariant
            i <= n,
            n == entries@.len(),
        decreases n - i,
    {
        let v = match parse_int_bytes(entries[i].0.as_slice()) {
            Some(v) => v,
            None => {
                return Err(SchemaError::BadEnumValue { id: slice_to_vec(id) });
            },
        };
        let name = match &entries[i].1 {
            Doc::Str(s) => slice_to_vec(s.as_slice()),
            _ => {
                return Err(SchemaError::BadEnumValue { id: slice_to_vec(id) });
            },
        };
        let mut j: usize = 0;
        let m = members.len();
        while j < m
            invariant
                j <= m,
                m == members@.len(),
            decreases m - j,
        {
            if bytes_eq(members[j].1.as_slice(), name.as_slice()) {
                return Err(SchemaError::DuplicateId { id: name });
            }
            j = j + 1;
        }
        members.push((v, name));
        i = i + 1;
    }
    Ok(EnumDef { id: slice_to_vec(id), members })
}

/// Builds a type definition from its mapping: `seq`, `instances`, `enums`
/// and nested `types`, checking identifier uniqueness as it goes.
fn build_typedef(id: &[u8], entries: &Vec<(Vec<u8>, Doc)>, fuel: u64) -> (r: Result<
    TypeDef,
    SchemaError,
>)
    ensures
        r matches Ok(td) ==> td.id@ == id@ && attr_ids_unique(td.seq@) && inst_ids_unique(
            td.instances@,
            td.seq@,
        ),
        entries@.len() == 0 && fuel > 0 ==> (r matches Ok(td) && td.seq@.len() == 0
            && td.types@.len() == 0 && td.instances@.len() == 0 && td.enums@.len() == 0),
    decreases fuel,
{
    if fuel == 0 {
        return Err(SchemaError::NestingTooDeep);
    }
    let meta = match map_get(entries, "meta".as_bytes()) {
        Some(md) => build_meta(md)?,
        None => Meta { id: None, endian: Endian::Unspecified, encoding: None },
    };
    let mut seq: Vec<Attribute> = Vec::new();
    match map_get(entries, "seq".as_bytes()) {
        Some(Doc::List(items)) => {
            let n = items.len();
            let mut i: usize = 0;
            while i < n
                invariant
                    entries@.len() > 0,
                    i <= n,
                    n == items@.len(),
                    attr_ids_unique(seq@),
                decreases n - i,
            {
                let attr = build_attribute(&items[i])?;
                let m = seq.len();
                let mut j: usize = 0;
                while j < m
                    invariant
                    entries@.len() > 0,
                        j <= m,
                        m == seq@.len(),
                        attr_ids_unique(seq@),
                        forall|k: int| 0 <= k < j ==> (#[trigger] seq@[k]).id@ != attr.id@,
                    decreases m - j,
                {
                    if bytes_eq(seq[j].id.as_slice(), attr.id.as_slice()) {
                        return Err(SchemaError::DuplicateId { id: attr.id });
                    }
                    j = j + 1;
                }
                seq.push(attr);
                i = i + 1;
            }
        },
        Some(_) => {
            return Err(SchemaError::WrongShape { key: slice_to_vec("seq".as_bytes()) });
        },
        None => {
        },
    }
    let mut instances: Vec<(Vec<u8>, Expr)> = Vec::new();
    match map_get(entries, "instances".as_bytes()) {
        Some(Doc::Mapping(im)) => {
            let n = im.len();
            let mut i: usize = 0;
            while i < n
                invariant
                    entries@.len() > 0,
                    i <= n,
                    n == im@.len(),
                    attr_ids_unique(seq@),
                    inst_ids_unique(instances@, seq@),
                decreases n - i,
            {
                let name = slice_to_vec(im[i].0.as_slice());
                let body = match &im[i].1 {
                    Doc::Mapping(bm) => match map_get(bm, "value".as_bytes()) {
                        Some(vd) => build_expr(vd, "value".as_bytes())?,
                        None => {
                            return Err(
                                SchemaError::MissingKey { key: slice_to_vec("value".as_bytes()) },
                            );
                        },
                    },
                    _ => {
                        return Err(
                            SchemaError::WrongShape { key: slice_to_vec("instances".as_bytes()) },
                        );
                    },
                };
                let m = instances.len();
                let mut j: usize = 0;
                while j < m
                    invariant
                    entries@.len() > 0,
                        j <= m,
                        m == instances@.len(),
                        inst_ids_unique(instances@, seq@),
                        forall|k: int| 0 <= k < j ==> (#[trigger] instances@[k]).0@ != name@,
                    decreases m - j,
                {
                    if bytes_eq(instances[j].0.as_slice(), name.as_slice()) {
                        return Err(SchemaError::DuplicateId { id: name });
                    }
                    j = j + 1;
                }
                let ms = seq.len();
                let mut k: usize = 0;
                while k < ms
                    invariant
                    entries@.len() > 0,
                        k <= ms,
                        ms == seq@.len(),
                        inst_ids_unique(instances@, seq@),
                        forall|k2: int| 0 <= k2 < instances@.len() ==> (#[trigger] instances@[k2]).0@ != name@,
                        forall|k2: int| 0 <= k2 < k ==> (#[trigger] seq@[k2]).id@ != name@,
                    decreases ms - k,
                {
                    if bytes_eq(seq[k].id.as_slice(), name.as_slice()) {
                        return Err(SchemaError::DuplicateId { id: name });
                    }
                    k = k + 1;
                }
                instances.push((name, body));
                i = i + 1;
            }
        },
        Some(_) => {
            return Err(SchemaError::WrongShape { key: slice_to_vec("instances".as_bytes()) });
        },
        None => {
        },
    }
    let mut enums: Vec<EnumDef> = Vec::new();
    match map_get(entries, "enums".as_bytes()) {
        Some(Doc::Mapping(em)) => {
            let n = em.len();
            let mut i: usize = 0;
            while i < n
                invariant
                    entries@.len() > 0,
                    i <= n,
                    n == em@.len(),
                decreases n - i,
            {
                let e = build_enum(em[i].0.as_slice(), &em[i].1)?;
                let m = enums.len();
                let mut j: usize = 0;
                while j < m
                    invariant
                    entries@.len() > 0,
                        j <= m,
                        m == enums@.len(),
                    decreases m - j,
                {
                    if bytes_eq(enums[j].id.as_slice(), e.id.as_slice()) {
                        return Err(SchemaError::DuplicateId { id: e.id });
                    }
                    j = j + 1;
                }
                enums.push(e);
                i = i + 1;
            }
        },
        Some(_) => {
            return Err(SchemaError::WrongShape { key: slice_to_vec("enums".as_bytes()) });
        },
        None => {
        },
    }
    let mut types: Vec<TypeDef> = Vec::new();
    match map_get(entries, "types".as_bytes()) {
        Some(Doc::Mapping(tm)) => {
            let n = tm.len();
            let mut i: usize = 0;
            while i < n
                invariant
                    entries@.len() > 0,
                    i <= n,
                    n == tm@.len(),
                    fuel >= 1,
                decreases n - i,
            {
                let sub_entries = match &tm[i].1 {
                    Doc::Mapping(se) => se,
                    _ => {
                        return Err(
                            SchemaError::WrongShape { key: slice_to_vec("types".as_bytes()) },
                        );
                    },
                };
                let td = build_typedef(tm[i].0.as_slice(), sub_entries, fuel - 1)?;
                let m = types.len();
                let mut j: usize = 0;
                while j < m
                    invariant
                    entries@.len() > 0,
                        j <= m,
                        m == types@.len(),
                    decreases m - j,
                {
                    if bytes_eq(types[j].id.as_slice(), td.id.as_slice()) {
                        return Err(SchemaError::DuplicateId { id: td.id });
                    }
                    j = j + 1;
                }
                types.push(td);
                i = i + 1;
            }
        },
        Some(_) => {
            return Err(SchemaError::WrongShape { key: slice_to_vec("types".as_bytes()) });
        },
        None => {
        },
    }
    Ok(TypeDef { id: slice_to_vec(id), meta, seq, instances, enums, types })
}

/// Builds a whole schema from the top-level mapping of the specification
/// document and the identifier of the outermost generated type. Unknown
/// top-level keys are ignored.
pub fn build_schema(d: &Doc, root_id: &[u8]) -> (r: Result<Schema, SchemaError>)
    ensures
        r matches Ok(sch) ==> sch.root.id@ == root_id@ && attr_ids_unique(sch.root.seq@)
            && inst_ids_unique(sch.root.instances@, sch.root.seq@),
        d matches Doc::Mapping(es) && es@.len() == 0 ==> (r matches Ok(sch)
            && sch.root.seq@.len() == 0 && sch.root.types@.len() == 0
            && sch.root.instances@.len() == 0),
{
    let entries = match d {
        Doc::Mapping(m) => m,
        _ => {
            return Err(SchemaError::WrongShape { key: slice_to_vec("meta".as_bytes()) });
        },
    };
    let root = build_typedef(root_id, entries, 64)?;
    let meta = match map_get(entries, "meta".as_bytes()) {
        Some(md) => build_meta(md)?,
        None => Meta { id: None, endian: Endian::Unspecified, encoding: None },
    };
    Ok(Schema { meta, root })
}

} // verus!
