//! A compiler for a declarative binary-format description language, paired
//! with the runtime byte-stream primitives that the produced parsers call.
//!
//! The pipeline: a generic document tree ([`doc::Doc`]) is turned into a
//! structured schema by the model builder, resolved (meta inheritance, name
//! references, cycle checks), and emitted as per-type parse procedures that
//! a small engine executes against a [`stream::ByteStream`].

pub mod doc;
pub mod emit;
pub mod engine;
pub mod error;
pub mod expr;
pub mod resolve;
pub mod schema;
pub mod stream;
pub mod value;

use vstd::prelude::*;

verus! {

/// Compiles a specification document, given the identifier for the
/// outermost generated type, into a program of type descriptors and parse
/// procedures. A specification is accepted or rejected as a whole: any
/// stage error aborts the compilation with no partial output.
pub fn compile(d: &doc::Doc, root_id: &[u8]) -> (r: Result<emit::Program, error::CompileError>)
    ensures
        r matches Ok(p) ==> p.root == 0 && p.procs@.len() >= 1 && p.descs@.len()
            == p.procs@.len() && p.descs@[0].id@ == root_id@,
        d matches doc::Doc::Mapping(es) && es@.len() == 0 ==> r is Ok,
{
    let sch = match schema::build_schema(d, root_id) {
        Ok(s) => s,
        Err(e) => {
            return Err(error::CompileError::Schema(e));
        },
    };
    let rs = match resolve::resolve_schema(sch) {
        Ok(s) => s,
        Err(e) => {
            return Err(error::CompileError::Resolution(e));
        },
    };
    Ok(emit::emit(rs))
}

} // verus!

