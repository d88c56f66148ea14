//! The definition emitter: walks the resolved schema and produces, per
//! type, a structured-type descriptor (one field per attribute, one entry
//! per instance) and a parse-procedure descriptor (one step per attribute,
//! in sequence order), wired to the stream primitives that the engine
//! calls.

use vstd::prelude::*;
use vstd::slice::slice_to_vec;

use crate::expr::Expr;
use crate::resolve::RAttr;
use crate::resolve::RType;
use crate::resolve::ResolvedSchema;
use crate::schema::PrimKind;
use crate::schema::PrimType;
use crate::schema::RepeatSpec;
use crate::schema::SizeSpec;

verus! {

/// The shape of one field of a generated type.
#[derive(Debug)]
pub enum FieldKind {
    /// An integer field, unsigned or signed.
    IntF,
    /// A float field, carried as its raw bits.
    FloatBitsF,
    /// A byte-string field.
    BytesF,
    /// A nested object of the type at the given index.
    ObjectF(usize),
    /// A nested object whose type a switch chooses at parse time.
    ChoiceF,
    /// A repeated field: a list of the inner shape.
    ListOf(Box<FieldKind>),
}

/// A structured-type descriptor: one field per attribute, plus the names
/// of the lazily computed instances.
#[derive(Debug)]
pub struct TypeDescriptor {
    pub id: Vec<u8>,
    pub fields: Vec<(Vec<u8>, FieldKind)>,
    pub instances: Vec<Vec<u8>>,
}

/// How one step bounds its read.
#[derive(Debug)]
pub enum StepSize {
    NoSize,
    SizeExpr(Expr),
    ToEos,
}

/// How often one step repeats.
#[derive(Debug)]
pub enum StepRepeat {
    Once,
    CountExpr(Expr),
    ToEnd,
    UntilTrue(Expr),
}

/// What one step reads for each element.
#[derive(Debug)]
pub enum ReadOp {
    /// A primitive read, dispatched by letter, width and endianness.
    PrimOp(PrimType),
    /// A byte-string read: sized, to-end, or terminator-delimited.
    RawBytes { terminator: Option<u8> },
    /// A recursive parse of the type at the given index.
    UserTy(usize),
    /// Evaluate the discriminant, pick the case's type, parse it; with no
    /// matching case and no default the parse fails.
    SwitchOp { disc: Expr, cases: Vec<(i128, usize)>, dflt: Option<usize> },
}

/// One state of a parse procedure: a conditional, possibly repeated,
/// possibly size-scoped read assigned to one field.
#[derive(Debug)]
pub struct Step {
    pub field: Vec<u8>,
    pub cond: Option<Expr>,
    pub size: StepSize,
    pub repeat: StepRepeat,
    pub read: ReadOp,
    /// Fixed expected contents; checked byte for byte while reading.
    pub contents: Option<Vec<u8>>,
}

/// The parse procedure of one type: its steps in sequence order plus the
/// instance expressions evaluated lazily after the sequential pass.
#[derive(Debug)]
pub struct ParseProc {
    pub steps: Vec<Step>,
    pub instances: Vec<(Vec<u8>, Expr)>,
}

/// A compiled program: parallel descriptor and procedure tables, one entry
/// per type, with the root type's index.
#[derive(Debug)]
pub struct Program {
    pub descs: Vec<TypeDescriptor>,
    pub procs: Vec<ParseProc>,
    pub root: usize,
}

/// One parse step carries one resolved attribute: the same field name,
/// condition and contents, and the size, repeat and read forms mapped one
/// to one.
pub open spec fn step_of(a: RAttr, s: Step) -> bool {
    &&& s.field == a.id
    &&& s.cond == a.cond
    &&& s.contents == a.contents
    &&& match a.size {
        SizeSpec::Unsized => s.size is NoSize,
        SizeSpec::Fixed(e) => s.size == StepSize::SizeExpr(e),
        SizeSpec::Eos => s.size is ToEos,
    }
    &&& match a.repeat {
        RepeatSpec::NoRepeat => s.repeat is Once,
        RepeatSpec::Count(e) => s.repeat == StepRepeat::CountExpr(e),
        RepeatSpec::UntilEos => s.repeat is ToEnd,
        RepeatSpec::Until(e) => s.repeat == StepRepeat::UntilTrue(e),
    }
    &&& match a.ty {
        RType::Prim(pt) => s.read == ReadOp::PrimOp(pt),
        RType::BytesT => s.read == (ReadOp::RawBytes { terminator: a.terminator }),
        RType::User(u) => s.read == ReadOp::UserTy(u),
        RType::Switch { disc, cases, dflt } => s.read == (ReadOp::SwitchOp { disc, cases, dflt }),
    }
}

/// Emits the descriptor tables from a resolved schema: one descriptor and
/// one procedure per type; per type, one step and one field per attribute
/// in sequence order, each step carrying its attribute's forms, and the
/// instance expressions taken over verbatim.
pub fn emit(rs: ResolvedSchema) -> (p: Program)
    ensures
        p.root == rs.root,
        p.procs@.len() == rs.types@.len(),
        p.descs@.len() == rs.types@.len(),
        forall|j: int| 0 <= j < rs.types@.len() ==> (#[trigger] p.descs@[j]).id@ == rs.types@[j].id@,
        forall|j: int|
            0 <= j < rs.types@.len() ==> (#[trigger] p.procs@[j]).steps@.len()
                == rs.types@[j].seq@.len(),
        forall|j: int, k: int|
            0 <= j < rs.types@.len() && 0 <= k < rs.types@[j].seq@.len() ==> step_of(
                rs.types@[j].seq@[k],
                #[trigger] p.procs@[j].steps@[k],
            ),
        forall|j: int|
            0 <= j < rs.types@.len() ==> (#[trigger] p.procs@[j]).instances
                == rs.types@[j].instances,
        forall|j: int|
            0 <= j < rs.types@.len() ==> (#[trigger] p.descs@[j]).fields@.len()
                == rs.types@[j].seq@.len() && p.descs@[j].instances@.len()
                == rs.types@[j].instances@.len(),
{
    let mut descs: Vec<TypeDescriptor> = Vec::new();
    let mut procs: Vec<ParseProc> = Vec::new();
    let root = rs.root;
    let ghost orig = rs.types@;
    let ghost orig_len = rs.types@.len();
    let mut rest = rs.types;
    proof {
        assert(orig.skip(0) =~= orig);
    }
    while rest.len() > 0
        invariant
            descs@.len() == procs@.len(),
            descs@.len() + rest@.len() == orig_len,
            rest@ =~= orig.skip(descs@.len() as int),
            orig_len == orig.len(),
            forall|j: int| 0 <= j < descs@.len() ==> (#[trigger] descs@[j]).id@ == orig[j].id@,
            forall|j: int|
                0 <= j < descs@.len() ==> (#[trigger] procs@[j]).steps@.len()
                    == orig[j].seq@.len(),
            forall|j: int, k: int|
                0 <= j < descs@.len() && 0 <= k < orig[j].seq@.len() ==> step_of(
                    orig[j].seq@[k],
                    #[trigger] procs@[j].steps@[k],
                ),
            forall|j: int|
                0 <= j < descs@.len() ==> (#[trigger] procs@[j]).instances == orig[j].instances,
            forall|j: int|
                0 <= j < descs@.len() ==> (#[trigger] descs@[j]).fields@.len()
                    == orig[j].seq@.len() && descs@[j].instances@.len()
                    == orig[j].instances@.len(),
        decreases rest.len(),
    {
        proof {
            assert(rest@[0] == orig[descs@.len() as int]);
            assert(rest@.drop_first() =~= orig.skip(descs@.len() as int + 1));
        }
        let t = rest.remove(0);
        let ghost ti = descs@.len() as int;
        let ghost aseq = t.seq@;
        let mut fields: Vec<(Vec<u8>, FieldKind)> = Vec::new();
        let mut steps: Vec<Step> = Vec::new();
        let mut seq_rest = t.seq;
        proof {
            assert(aseq.skip(0) =~= aseq);
        }
        while seq_rest.len() > 0
            invariant
                fields@.len() == steps@.len(),
                steps@.len() + seq_rest@.len() == aseq.len(),
                seq_rest@ =~= aseq.skip(steps@.len() as int),
                forall|k: int|
                    0 <= k < steps@.len() ==> step_of(aseq[k], (#[trigger] steps@[k])),
            decreases seq_rest.len(),
        {
            proof {
                assert(seq_rest@[0] == aseq[steps@.len() as int]);
                assert(seq_rest@.drop_first() =~= aseq.skip(steps@.len() as int + 1));
            }
            let ghost ak = steps@.len() as int;
            let a: RAttr = seq_rest.remove(0);
            proof {
                assert(a == aseq[ak]);
            }
            let read: ReadOp = match a.ty {
                RType::Prim(pt) => ReadOp::PrimOp(pt),
                RType::BytesT => ReadOp::RawBytes { terminator: a.terminator },
                RType::User(u) => ReadOp::UserTy(u),
                RType::Switch { disc, cases, dflt } => ReadOp::SwitchOp { disc, cases, dflt },
            };
            let base: FieldKind = match &read {
                ReadOp::PrimOp(pt) => match pt.kind {
                    PrimKind::F => FieldKind::FloatBitsF,
                    _ => FieldKind::IntF,
                },
                ReadOp::RawBytes { .. } => FieldKind::BytesF,
                ReadOp::UserTy(u) => FieldKind::ObjectF(*u),
                ReadOp::SwitchOp { .. } => FieldKind::ChoiceF,
            };
            let size: StepSize = match a.size {
                SizeSpec::Unsized => StepSize::NoSize,
                SizeSpec::Fixed(e) => StepSize::SizeExpr(e),
                SizeSpec::Eos => StepSize::ToEos,
            };
            let (repeat, kind): (StepRepeat, FieldKind) = match a.repeat {
                RepeatSpec::NoRepeat => (StepRepeat::Once, base),
                RepeatSpec::Count(e) => (StepRepeat::CountExpr(e), FieldKind::ListOf(Box::new(base))),
                RepeatSpec::UntilEos => (StepRepeat::ToEnd, FieldKind::ListOf(Box::new(base))),
                RepeatSpec::Until(e) => (StepRepeat::UntilTrue(e), FieldKind::ListOf(Box::new(base))),
            };
            fields.push((slice_to_vec(a.id.as_slice()), kind));
            let st = Step { field: a.id, cond: a.cond, size, repeat, read, contents: a.contents };
            proof {
                assert(step_of(aseq[ak], st));
            }
            steps.push(st);
        }
        let mut inames: Vec<Vec<u8>> = Vec::new();
        let mut i: usize = 0;
        let ni = t.instances.len();
        while i < ni
            invariant
                i <= ni,
                ni == t.instances@.len(),
                inames@.len() == i,
            decreases ni - i,
        {
            inames.push(slice_to_vec(t.instances[i].0.as_slice()));
            i = i + 1;
        }
        proof {
            assert(orig[ti].seq@ =~= aseq);
        }
        descs.push(TypeDescriptor { id: slice_to_vec(t.id.as_slice()), fields, instances: inames });
        procs.push(ParseProc { steps, instances: t.instances });
    }
    Program { descs, procs, root }
}

} // verus!
