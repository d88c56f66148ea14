//! The second pass over a built schema: propagates inherited meta top-down,
//! binds every user-type and enum reference by walking outward through the
//! enclosing scopes, concretizes endianness, and rejects reference cycles
//! that guarantee a non-terminating expansion.

use vstd::prelude::*;
use vstd::slice::slice_to_vec;

use crate::doc::bytes_eq;
use crate::error::ResolutionError;
use crate::expr::Expr;
use crate::schema::Attribute;
use crate::schema::Endian;
use crate::schema::EnumDef;
use crate::schema::PrimType;
use crate::schema::RepeatSpec;
use crate::schema::Schema;
use crate::schema::SizeSpec;
use crate::schema::TypeDef;
use crate::schema::TypeSpec;

verus! {

/// One type of the flattened tree: identity, scope links and enums, used
/// for name lookups after flattening.
#[derive(Debug)]
pub struct ScopeNode {
    pub id: Vec<u8>,
    pub parent: Option<usize>,
    pub children: Vec<(Vec<u8>, usize)>,
    pub enums: Vec<EnumDef>,
    pub endian: Endian,
    pub encoding: Option<Vec<u8>>,
}

/// The expression-bearing half of a flattened type, consumed while
/// resolving.
#[derive(Debug)]
struct ContentNode {
    seq: Vec<Attribute>,
    instances: Vec<(Vec<u8>, Expr)>,
}

/// A fully resolved attribute type: every name is an index into the
/// resolved type table and every multi-byte primitive has a concrete
/// endianness.
#[derive(Debug)]
pub enum RType {
    Prim(PrimType),
    BytesT,
    User(usize),
    Switch { disc: Expr, cases: Vec<(i128, usize)>, dflt: Option<usize> },
}

/// A resolved attribute.
#[derive(Debug)]
pub struct RAttr {
    pub id: Vec<u8>,
    pub ty: RType,
    pub size: SizeSpec,
    pub repeat: RepeatSpec,
    pub cond: Option<Expr>,
    pub contents: Option<Vec<u8>>,
    pub terminator: Option<u8>,
}

/// A resolved type: attributes and instances, all references bound.
#[derive(Debug)]
pub struct RTypeDef {
    pub id: Vec<u8>,
    pub seq: Vec<RAttr>,
    pub instances: Vec<(Vec<u8>, Expr)>,
}

/// The resolved schema: a flat type table; the root type is at `root`.
#[derive(Debug)]
pub struct ResolvedSchema {
    pub types: Vec<RTypeDef>,
    pub root: usize,
}

/// Flattens the type tree into parallel scope/content tables, propagating
/// inherited endianness and encoding top-down; returns the node's index.
fn flatten(
    td: TypeDef,
    parent: Option<usize>,
    inherited_endian: Endian,
    inherited_encoding: &Option<Vec<u8>>,
    skel: &mut Vec<ScopeNode>,
    content: &mut Vec<ContentNode>,
    fuel: u64,
) -> (r: Result<usize, ResolutionError>)
    requires
        old(skel)@.len() == old(content)@.len(),
    ensures
        final(skel)@.len() == final(content)@.len(),
        r matches Ok(i) ==> i < final(skel)@.len(),
        final(skel)@.len() >= old(skel)@.len(),
        forall|j: int| 0 <= j < old(skel)@.len() ==> final(skel)@[j] == old(skel)@[j],
        r matches Ok(i) ==> i == old(skel)@.len() && final(skel)@[i as int].id@ == td.id@,
        r matches Ok(i) ==> final(skel)@[i as int].endian == (if td.meta.endian is Unspecified {
            inherited_endian
        } else {
            td.meta.endian
        }),
        fuel > 0 && td.types@.len() == 0 && old(skel)@.len() == 0 ==> (r is Ok
            && final(skel)@.len() == 1 && final(content)@[0].seq@.len() == td.seq@.len()
            && final(content)@[0].instances@.len() == td.instances@.len()),
    decreases fuel,
{
    if fuel == 0 {
        return Err(ResolutionError::NestingTooDeep);
    }
    let endian = match td.meta.endian {
        Endian::Unspecified => inherited_endian,
        e => e,
    };
    let encoding = match td.meta.encoding {
        Some(e) => Some(e),
        None => match inherited_encoding {
            Some(e) => Some(slice_to_vec(e.as_slice())),
            None => None,
        },
    };
    let index = skel.len();
    skel.push(
        ScopeNode {
            id: slice_to_vec(td.id.as_slice()),
            parent,
            children: Vec::new(),
            enums: td.enums,
            endian,
            encoding: match &encoding {
                Some(e) => Some(slice_to_vec(e.as_slice())),
                None => None,
            },
        },
    );
    content.push(ContentNode { seq: td.seq, instances: td.instances });
    let ghost snap = skel@;
    proof {
        assert(snap[index as int].id@ == td.id@);
        assert(snap[index as int].endian == endian);
        assert(forall|j: int| 0 <= j < index ==> snap[j] == old(skel)@[j]);
    }
    let mut children: Vec<(Vec<u8>, usize)> = Vec::new();
    let mut rest = td.types;
    while rest.len() > 0
        invariant
            skel@.len() == content@.len(),
            skel@.len() > index,
            skel@.len() >= snap.len(),
            snap.len() == index + 1,
            index == old(skel)@.len(),
            forall|j: int| 0 <= j < index ==> snap[j] == old(skel)@[j],
            forall|j: int| 0 <= j < snap.len() ==> skel@[j] == snap[j],
            fuel >= 1,
            td.types@.len() == 0 ==> rest@.len() == 0,
            td.types@.len() == 0 && index == 0 ==> (skel@.len() == 1 && content@[0].seq@.len()
                == td.seq@.len() && content@[0].instances@.len() == td.instances@.len()),
        decreases rest.len(),
    {
        let child = rest.remove(0);
        let child_id = slice_to_vec(child.id.as_slice());
        let ci = match flatten(child, Some(index), endian, &encoding, skel, content, fuel - 1) {
            Ok(c) => c,
            Err(er) => {
                proof {
                    assert forall|j: int|
                        0 <= j < old(skel)@.len() implies skel@[j] == old(skel)@[j] by {
                        assert(skel@[j] == snap[j]);
                    }
                }
                return Err(er);
            },
        };
        children.push((child_id, ci));
    }
    let ghost before = skel@;
    proof {
        assert(before[index as int] == snap[index as int]);
    }
    let mut node = skel.remove(index);
    node.children = children;
    skel.insert(index, node);
    proof {
        assert(forall|j: int|
            0 <= j < before.len() && j != index ==> skel@[j] == before[j]);
        assert(snap[index as int].id@ == td.id@);
        assert(skel@[index as int].id@ == td.id@);
        assert(skel@[index as int].endian == snap[index as int].endian);
        assert forall|j: int| 0 <= j < old(skel)@.len() implies skel@[j] == old(skel)@[j] by {
            assert(skel@[j] == before[j]);
            assert(before[j] == snap[j]);
        }
    }
    Ok(index)
}

/// Looks a type name up from scope `from`: the scope's own nested types
/// and the scope itself by name, then each enclosing scope outward. On
/// failure returns the identifiers of the scopes walked, innermost first.
fn lookup_type(skel: &Vec<ScopeNode>, from: usize, name: &[u8]) -> (r: Result<
    usize,
    ResolutionError,
>)
    requires
        from < skel@.len(),
{
    let mut walked: Vec<Vec<u8>> = Vec::new();
    let mut cur: usize = from;
    let mut hops: usize = 0;
    let n = skel.len();
    while hops < n
        invariant
            hops <= n,
            cur < skel@.len(),
            n == skel@.len(),
        decreases n - hops,
    {
        walked.push(slice_to_vec(skel[cur].id.as_slice()));
        if bytes_eq(skel[cur].id.as_slice(), name) {
            return Ok(cur);
        }
        let m = skel[cur].children.len();
        let mut j: usize = 0;
        while j < m
            invariant
                j <= m,
                cur < skel@.len(),
                m == skel@[cur as int].children@.len(),
            decreases m - j,
        {
            if bytes_eq(skel[cur].children[j].0.as_slice(), name) {
                let t = skel[cur].children[j].1;
                return Ok(t);
            }
            j = j + 1;
        }
        match skel[cur].parent {
            Some(p) => {
                if p >= n {
                    return Err(
                        ResolutionError::UnknownType { name: slice_to_vec(name), walked },
                    );
                }
                cur = p;
            },
            None => {
                return Err(ResolutionError::UnknownType { name: slice_to_vec(name), walked });
            },
        }
        hops = hops + 1;
    }
    Err(ResolutionError::UnknownType { name: slice_to_vec(name), walked })
}

/// Looks an enum member up from scope `from`, walking outward; the result
/// is the member's integer value.
fn lookup_enum(skel: &Vec<ScopeNode>, from: usize, enum_id: &[u8], member: &[u8]) -> (r: Result<
    i128,
    ResolutionError,
>)
    requires
        from < skel@.len(),
{
    let mut walked: Vec<Vec<u8>> = Vec::new();
    let mut cur: usize = from;
    let mut hops: usize = 0;
    let n = skel.len();
    while hops < n
        invariant
            hops <= n,
            cur < skel@.len(),
            n == skel@.len(),
        decreases n - hops,
    {
        walked.push(slice_to_vec(skel[cur].id.as_slice()));
        let m = skel[cur].enums.len();
        let mut j: usize = 0;
        while j < m
            invariant
                j <= m,
                cur < skel@.len(),
                m == skel@[cur as int].enums@.len(),
            decreases m - j,
        {
            if bytes_eq(skel[cur].enums[j].id.as_slice(), enum_id) {
                let mm = skel[cur].enums[j].members.len();
                let mut k: usize = 0;
                while k < mm
                    invariant
                        k <= mm,
                        cur < skel@.len(),
                        j < skel@[cur as int].enums@.len(),
                        mm == skel@[cur as int].enums@[j as int].members@.len(),
                    decreases mm - k,
                {
                    if bytes_eq(skel[cur].enums[j].members[k].1.as_slice(), member) {
                        let v = skel[cur].enums[j].members[k].0;
                        return Ok(v);
                    }
                    k = k + 1;
                }
                return Err(ResolutionError::UnknownEnum { name: slice_to_vec(member), walked });
            }
            j = j + 1;
        }
        match skel[cur].parent {
            Some(p) => {
                if p >= n {
                    return Err(
                        ResolutionError::UnknownEnum { name: slice_to_vec(enum_id), walked },
                    );
                }
                cur = p;
            },
            None => {
                return Err(ResolutionError::UnknownEnum { name: slice_to_vec(enum_id), walked });
            },
        }
        hops = hops + 1;
    }
    Err(ResolutionError::UnknownEnum { name: slice_to_vec(enum_id), walked })
}

/// Rewrites an expression, replacing every enum member reference by its
/// integer value, resolved by walking the enclosing scopes.
fn resolve_expr(e: Expr, skel: &Vec<ScopeNode>, scope: usize) -> (r: Result<
    Expr,
    ResolutionError,
>)
    requires
        scope < skel@.len(),
    decreases e,
{
    match e {
        Expr::EnumRef { enum_id, member } => {
            let v = lookup_enum(skel, scope, enum_id.as_slice(), member.as_slice())?;
            Ok(Expr::IntLit(v))
        },
        Expr::Neg(inner) => Ok(Expr::Neg(Box::new(resolve_expr(*inner, skel, scope)?))),
        Expr::Bin { op, lhs, rhs } => Ok(
            Expr::Bin {
                op,
                lhs: Box::new(resolve_expr(*lhs, skel, scope)?),
                rhs: Box::new(resolve_expr(*rhs, skel, scope)?),
            },
        ),
        Expr::Cond { cond, yes, no } => Ok(
            Expr::Cond {
                cond: Box::new(resolve_expr(*cond, skel, scope)?),
                yes: Box::new(resolve_expr(*yes, skel, scope)?),
                no: Box::new(resolve_expr(*no, skel, scope)?),
            },
        ),
        Expr::Index { coll, idx } => Ok(
            Expr::Index {
                coll: Box::new(resolve_expr(*coll, skel, scope)?),
                idx: Box::new(resolve_expr(*idx, skel, scope)?),
            },
        ),
        Expr::Field { base, path } => Ok(Expr::Field { base, path }),
        other => Ok(other),
    }
}

/// Resolves one optional expression in place.
fn resolve_opt_expr(e: Option<Expr>, skel: &Vec<ScopeNode>, scope: usize) -> (r: Result<
    Option<Expr>,
    ResolutionError,
>)
    requires
        scope < skel@.len(),
{
    match e {
        Some(x) => Ok(Some(resolve_expr(x, skel, scope)?)),
        None => Ok(None),
    }
}

/// Concretizes the endianness of a primitive, falling back to the scope's
/// inherited default; a multi-byte primitive with no default at all is an
/// error naming the attribute.
fn concretize_endian(p: PrimType, dflt: Endian, attr_id: &[u8]) -> (r: Result<
    PrimType,
    ResolutionError,
>) {
    if p.width == 1 {
        return Ok(PrimType { kind: p.kind, width: p.width, endian: Endian::Little });
    }
    match p.endian {
        Endian::Unspecified => match dflt {
            Endian::Unspecified => Err(
                ResolutionError::UnresolvedEndianness { attr: slice_to_vec(attr_id) },
            ),
            d => Ok(PrimType { kind: p.kind, width: p.width, endian: d }),
        },
        _ => Ok(p),
    }
}

/// Sets one element of a boolean vector.
fn set_bool(v: &mut Vec<bool>, i: usize, b: bool)
    requires
        i < old(v)@.len(),
    ensures
        final(v)@ == old(v)@.update(i as int, b),
{
    let old_b = v.remove(i);
    v.insert(i, b);
    proof {
        assert(final(v)@ =~= old(v)@.update(i as int, b));
    }
}

/// Whether a reference cycle among unconditional, unsized user-type
/// attributes with no earlier guaranteed byte consumption reaches from
/// `start` back to `start`; such a cycle guarantees a non-terminating
/// expansion, as opposed to permitted reference-based recursion that is
/// gated by a condition, bounded by a size, or preceded by a consuming
/// read.
fn cycle_from(edges: &Vec<Vec<usize>>, start: usize) -> (r: bool)
    requires
        start < edges@.len(),
    ensures
        edges@[start as int]@.len() == 0 ==> r == false,
{
    let n = edges.len();
    let mut reach: Vec<bool> = Vec::new();
    let mut i: usize = 0;
    while i < n
        invariant
            i <= n,
            reach@.len() == i,
            forall|q: int| 0 <= q < i ==> !(#[trigger] reach@[q]),
        decreases n - i,
    {
        reach.push(false);
        i = i + 1;
    }
    // Seed with the direct successors of `start`, then propagate along the
    // edges for as many passes as there are nodes: `start` becomes marked
    // exactly when some edge path of length one or more leads back to it.
    let m = edges[start].len();
    let mut j: usize = 0;
    while j < m
        invariant
            j <= m,
            start < edges@.len(),
            reach@.len() == n,
            n == edges@.len(),
            m == edges@[start as int]@.len(),
            m == 0 ==> forall|q: int| 0 <= q < n ==> !(#[trigger] reach@[q]),
        decreases m - j,
    {
        let t = edges[start][j];
        if t < n {
            set_bool(&mut reach, t, true);
        }
        j = j + 1;
    }
    let mut pass: usize = 0;
    while pass < n
        invariant
            n == edges@.len(),
            reach@.len() == n,
            edges@[start as int]@.len() == 0 ==> forall|q: int|
                0 <= q < n ==> !(#[trigger] reach@[q]),
        decreases n - pass,
    {
        let mut a: usize = 0;
        while a < n
            invariant
                a <= n,
                n == edges@.len(),
                reach@.len() == n,
                edges@[start as int]@.len() == 0 ==> forall|q: int|
                    0 <= q < n ==> !(#[trigger] reach@[q]),
            decreases n - a,
        {
            if reach[a] {
                let ma = edges[a].len();
                let mut k: usize = 0;
                while k < ma
                    invariant
                        k <= ma,
                        a < n,
                        n == edges@.len(),
                        reach@.len() == n,
                        ma == edges@[a as int]@.len(),
                        reach@[a as int],
                        edges@[start as int]@.len() == 0 ==> forall|q: int|
                            0 <= q < n ==> !(#[trigger] reach@[q]),
                    decreases ma - k,
                {
                    let t = edges[a][k];
                    if t < n {
                        set_bool(&mut reach, t, true);
                    }
                    k = k + 1;
                }
            }
            a = a + 1;
        }
        pass = pass + 1;
    }
    reach[start]
}

/// Resolves a built schema: meta propagation happened while flattening;
/// this pass binds every type and enum reference, concretizes endianness,
/// and rejects illegal cycles. The root type gets index 0.
pub fn resolve_schema(sch: Schema) -> (r: Result<ResolvedSchema, ResolutionError>)
    ensures
        r matches Ok(rs) ==> rs.root == 0 && rs.types@.len() >= 1 && rs.types@[0].id@
            == sch.root.id@,
        sch.root.seq@.len() == 0 && sch.root.types@.len() == 0 && sch.root.instances@.len() == 0
            ==> r is Ok,
{
    let mut skel: Vec<ScopeNode> = Vec::new();
    let mut content: Vec<ContentNode> = Vec::new();
    let top_endian = sch.meta.endian;
    let root_td = sch.root;
    let root = flatten(root_td, None, top_endian, &sch.meta.encoding, &mut skel, &mut content, 64)?;
    let n = skel.len();
    let mut types: Vec<RTypeDef> = Vec::new();
    let mut scope: usize = 0;
    while scope < n
        invariant
            n == skel@.len(),
            content@.len() == n - scope,
            types@.len() == scope,
            forall|j: int| 0 <= j < scope ==> (#[trigger] types@[j]).id@ == skel@[j].id@,
            sch.root.seq@.len() == 0 && sch.root.types@.len() == 0 && sch.root.instances@.len()
                == 0 ==> (n == 1 && (scope == 0 ==> content@[0].seq@.len() == 0
                && content@[0].instances@.len() == 0) && (scope == 1
                ==> types@[0].seq@.len() == 0)),
        decreases n - scope,
    {
        let node_content = content.remove(0);
        let dflt_endian = skel[scope].endian;
        let mut seq: Vec<RAttr> = Vec::new();
        let ghost sl = node_content.seq@.len();
        let mut rest = node_content.seq;
        while rest.len() > 0
            invariant
                scope < n,
                n == skel@.len(),
                seq@.len() + rest@.len() == sl,
                sch.root.seq@.len() == 0 && sch.root.types@.len() == 0 && sch.root.instances@.len() == 0 ==> sl == 0,
            decreases rest.len(),
        {
            let a = rest.remove(0);
            let ty: RType = match a.ty {
                TypeSpec::Prim(p) => RType::Prim(concretize_endian(p, dflt_endian, a.id.as_slice())?),
                TypeSpec::BytesT => RType::BytesT,
                TypeSpec::User(name) => RType::User(lookup_type(&skel, scope, name.as_slice())?),
                TypeSpec::Switch { disc, cases, dflt } => {
                    let rdisc = resolve_expr(disc, &skel, scope)?;
                    let mut rcases: Vec<(i128, usize)> = Vec::new();
                    let mut crest = cases;
                    while crest.len() > 0
                        invariant
                            scope < n,
                            n == skel@.len(),
                            !(sch.root.seq@.len() == 0 && sch.root.types@.len() == 0 && sch.root.instances@.len() == 0),
                        decreases crest.len(),
                    {
                        let (cv, cname) = crest.remove(0);
                        let ti = lookup_type(&skel, scope, cname.as_slice())?;
                        rcases.push((cv, ti));
                    }
                    let rdflt = match dflt {
                        Some(dname) => Some(lookup_type(&skel, scope, dname.as_slice())?),
                        None => None,
                    };
                    RType::Switch { disc: rdisc, cases: rcases, dflt: rdflt }
                },
            };
            let size = match a.size {
                SizeSpec::Fixed(e) => SizeSpec::Fixed(resolve_expr(e, &skel, scope)?),
                s => s,
            };
            let repeat = match a.repeat {
                RepeatSpec::Count(e) => RepeatSpec::Count(resolve_expr(e, &skel, scope)?),
                RepeatSpec::Until(e) => RepeatSpec::Until(resolve_expr(e, &skel, scope)?),
                rp => rp,
            };
            let cond = resolve_opt_expr(a.cond, &skel, scope)?;
            seq.push(
                RAttr {
                    id: a.id,
                    ty,
                    size,
                    repeat,
                    cond,
                    contents: a.contents,
                    terminator: a.terminator,
                },
            );
        }
        let mut instances: Vec<(Vec<u8>, Expr)> = Vec::new();
        let ghost il = node_content.instances@.len();
        let mut irest = node_content.instances;
        while irest.len() > 0
            invariant
                scope < n,
                n == skel@.len(),
                instances@.len() + irest@.len() == il,
                sch.root.seq@.len() == 0 && sch.root.types@.len() == 0 && sch.root.instances@.len() == 0 ==> il == 0,
            decreases irest.len(),
        {
            let (iname, ie) = irest.remove(0);
            instances.push((iname, resolve_expr(ie, &skel, scope)?));
        }
        types.push(RTypeDef { id: slice_to_vec(skel[scope].id.as_slice()), seq, instances });
        scope = scope + 1;
    }
    // Cycle detection over unconditional, unsized, not-yet-consuming
    // user-type attributes.
    let mut edges: Vec<Vec<usize>> = Vec::new();
    let mut t: usize = 0;
    while t < types.len()
        invariant
            edges@.len() == t,
            t <= types@.len(),
            forall|j: int|
                0 <= j < t && types@[j].seq@.len() == 0 ==> (#[trigger] edges@[j])@.len() == 0,
        decreases types@.len() - t,
    {
        let mut succ: Vec<usize> = Vec::new();
        let mut progressed = false;
        let na = types[t].seq.len();
        let mut ai: usize = 0;
        while ai < na
            invariant
                ai <= na,
                t < types@.len(),
                na == types@[t as int].seq@.len(),
                na == 0 ==> succ@.len() == 0,
            decreases na - ai,
        {
            let a = &types[t].seq[ai];
            let unconditional = match &a.cond {
                Some(_) => false,
                None => true,
            };
            if unconditional && !progressed {
                match (&a.ty, &a.size) {
                    (RType::User(u), SizeSpec::Unsized) => {
                        succ.push(*u);
                    },
                    _ => {
                    },
                }
            }
            if unconditional {
                let consumes = match (&a.ty, &a.contents) {
                    (RType::Prim(_), _) => true,
                    (_, Some(c)) => c.len() > 0,
                    (RType::BytesT, _) => match &a.terminator {
                        Some(_) => true,
                        None => false,
                    },
                    _ => false,
                };
                if consumes {
                    progressed = true;
                }
            }
            ai = ai + 1;
        }
        edges.push(succ);
        t = t + 1;
    }
    let nn = edges.len();
    let mut s: usize = 0;
    while s < nn
        invariant
            nn == edges@.len(),
            types@.len() == nn,
            sch.root.seq@.len() == 0 && sch.root.types@.len() == 0 && sch.root.instances@.len() == 0 ==> (nn == 1 && edges@[0]@.len() == 0),
        decreases nn - s,
    {
        if cycle_from(&edges, s) {
            return Err(ResolutionError::IllegalCycle { id: slice_to_vec(types[s].id.as_slice()) });
        }
        s = s + 1;
    }
    if types.len() == 0 || root != 0 {
        return Err(ResolutionError::NestingTooDeep);
    }
    Ok(ResolvedSchema { types, root: 0 })
}

} // verus!
