//! Semantic-analysis core of an EXPRESS (ISO 10303-11) schema compiler.
//!
//! Given a parsed syntax tree of one or more schemas, this crate resolves
//! every name reference (type names, entity supertypes, attribute types)
//! into a fully qualified, validated, semantically annotated intermediate
//! representation that downstream code generators can consume without
//! re-deriving semantic facts.

pub mod ast;
pub mod entity;
pub mod namespace;
pub mod parser;
pub mod schema;
pub mod scope;
pub mod subsuper;
pub mod type_ref;

use vstd::prelude::*;

verus! {

pub use crate::entity::{Attribute, Entity};
pub use crate::namespace::{Named, Namespace};
pub use crate::schema::{Schema, TypeDecl, UnderlyingType};
pub use crate::scope::{Path, PathV, Scope, ScopeSegment, ScopeType, ScopeV};
pub use crate::subsuper::SubSuperGraph;
pub use crate::type_ref::{Bound, SimpleType, TypeRef};

use crate::namespace::{ns_model, ns_wf};
use crate::schema::{schema_err, schema_rel, schema_shapes_ok};
use crate::subsuper::{edges_model, first_cycle_key};

/// Semantic errors surfaced while legalizing a syntax tree.
///
/// Every piece of context needed for a diagnostic (the referenced name, the
/// scope it was referenced from, the offending path) is retained in the
/// error value itself.
#[derive(Debug)]
pub enum SemanticError {
    /// A referenced name has no visible declaration.
    TypeNotFound { name: String, scope: Scope },
    /// A path is structurally inconsistent with what is stored, or a graph
    /// inconsistency (such as a supertype cycle or an over-long alias chain)
    /// was detected.
    InvalidPath(Path),
}

/// Mathematical model of a [`SemanticError`].
#[verifier::ext_equal]
pub enum SemanticErrorV {
    TypeNotFound { name: Seq<char>, scope: ScopeV },
    InvalidPath(PathV),
}

impl View for SemanticError {
    type V = SemanticErrorV;

    open spec fn view(&self) -> SemanticErrorV {
        match self {
            SemanticError::TypeNotFound { name, scope } => SemanticErrorV::TypeNotFound {
                name: name@,
                scope: scope@,
            },
            SemanticError::InvalidPath(p) => SemanticErrorV::InvalidPath(p@),
        }
    }
}

/// Legalize a piece of parsed input into the corresponding intermediate
/// representation, consulting the symbol table and the supertype graph as
/// read-only oracles.  Each implementing type states what its inputs must
/// satisfy (`legalize_req`) and what its result means (`legalize_ens`).
pub trait Legalize: Sized {
    type Input;

    /// What the inputs must satisfy for legalization to be defined.
    spec fn legalize_req(ns: Namespace, ss: SubSuperGraph, scope: Scope, syn: Self::Input) -> bool;

    /// What the returned value means.
    spec fn legalize_ens(
        ns: Namespace,
        ss: SubSuperGraph,
        scope: Scope,
        syn: Self::Input,
        r: Result<Self, SemanticError>,
    ) -> bool;

    fn legalize(ns: &Namespace, ss: &SubSuperGraph, scope: &Scope, syn: &Self::Input) -> (r: Result<
        Self,
        SemanticError,
    >)
        requires
            Self::legalize_req(*ns, *ss, *scope, *syn),
        ensures
            Self::legalize_ens(*ns, *ss, *scope, *syn, r),
    ;
}

/// Every schema of the input has shapes that admit legalization.
pub open spec fn st_shapes_ok(schemas: Seq<ast::SchemaV>) -> bool {
    forall|i: int| 0 <= i < schemas.len() ==> schema_shapes_ok(#[trigger] schemas[i])
}

/// The first error legalizing the schemas surfaces, in input order, if any.
pub open spec fn schemas_err(
    ns: Seq<(PathV, namespace::NamedV)>,
    schemas: Seq<ast::SchemaV>,
) -> Option<SemanticErrorV>
    decreases schemas.len(),
{
    if schemas.len() == 0 {
        Option::None
    } else {
        match schema_err(ns, schemas.first()) {
            Option::Some(e) => Option::Some(e),
            Option::None => schemas_err(ns, schemas.drop_first()),
        }
    }
}

/// What the intermediate representation legalized from the input must be:
/// one legalized schema per input schema, in input order.
pub open spec fn ir_rel(
    ns: Seq<(PathV, namespace::NamedV)>,
    g: Seq<(PathV, PathV)>,
    schemas: Seq<ast::SchemaV>,
    ir: IR,
) -> bool {
    &&& ir.schemas@.len() == schemas.len()
    &&& forall|i: int|
        0 <= i < schemas.len() ==> schema_rel(ns, g, schemas[i], #[trigger] ir.schemas@[i])
}

/// The intermediate representation: the legalized schemas, one per input
/// schema, in input order.
#[derive(Debug)]
pub struct IR {
    pub schemas: Vec<Schema>,
}

impl Legalize for IR {
    type Input = ast::SyntaxTree;

    open spec fn legalize_req(
        ns: Namespace,
        ss: SubSuperGraph,
        scope: Scope,
        syn: ast::SyntaxTree,
    ) -> bool {
        ns_wf(ns@) && st_shapes_ok(syn@) && scope@ == Seq::<(ScopeType, Seq<char>)>::empty()
    }

    open spec fn legalize_ens(
        ns: Namespace,
        ss: SubSuperGraph,
        scope: Scope,
        syn: ast::SyntaxTree,
        r: Result<Self, SemanticError>,
    ) -> bool {
        match r {
            Result::Ok(ir) => schemas_err(ns@, syn@) is None && ir_rel(ns@, ss@, syn@, ir),
            Result::Err(e) => schemas_err(ns@, syn@) == Option::Some(e@),
        }
    }

    /// Legalizes every schema in input order, failing fast.
    fn legalize(ns: &Namespace, ss: &SubSuperGraph, scope: &Scope, syn: &ast::SyntaxTree) -> (r:
        Result<Self, SemanticError>) {
        let mut schemas: Vec<Schema> = Vec::new();
        let n = syn.schemas.len();
        let mut i: usize = 0;
        assert(syn@.skip(0) =~= syn@);
        while i < n
            invariant
                i <= n,
                n == syn.schemas@.len(),
                ns_wf(ns@),
                st_shapes_ok(syn@),
                scope@ == Seq::<(ScopeType, Seq<char>)>::empty(),
                schemas@.len() == i,
                forall|j: int|
                    0 <= j < i ==> schema_rel(ns@, ss@, syn@[j], #[trigger] schemas@[j]),
                schemas_err(ns@, syn@) == schemas_err(ns@, syn@.skip(i as int)),
            decreases n - i,
        {
            let s = &syn.schemas[i];
            proof {
                assert(syn@[i as int] == s@);
                assert(syn@.skip(i as int).first() == syn@[i as int]);
                assert(syn@.skip(i as int).drop_first() =~= syn@.skip(i as int + 1));
            }
            match Schema::legalize(ns, ss, scope, s) {
                Result::Err(e) => {
                    return Result::Err(e);
                },
                Result::Ok(sc) => {
                    schemas.push(sc);
                },
            }
            i += 1;
        }
        proof {
            assert(syn@.skip(n as int) =~= Seq::<ast::SchemaV>::empty());
        }
        Result::Ok(IR { schemas })
    }
}

impl IR {
    /// Sequences the three passes: the symbol table, the supertype graph
    /// and the recursive legalization of every schema, returning the first
    /// error encountered, if any.
    pub fn from_syntax_tree(st: &ast::SyntaxTree) -> (r: Result<IR, SemanticError>)
        requires
            st_shapes_ok(st@),
        ensures
            match r {
                Result::Ok(ir) => {
                    &&& edges_model(ns_model(st@), st@) is Ok
                    &&& first_cycle_key(edges_model(ns_model(st@), st@)->Ok_0, 0) is None
                    &&& schemas_err(ns_model(st@), st@) is None
                    &&& ir_rel(ns_model(st@), edges_model(ns_model(st@), st@)->Ok_0, st@, ir)
                },
                Result::Err(e) => match edges_model(ns_model(st@), st@) {
                    Result::Err(e2) => e@ == e2,
                    Result::Ok(es) => match first_cycle_key(es, 0) {
                        Option::Some(p) => e@ == SemanticErrorV::InvalidPath(p),
                        Option::None => schemas_err(ns_model(st@), st@) == Option::Some(e@),
                    },
                },
            },
    {
        let ns = Namespace::new(st);
        let ss = match SubSuperGraph::new(&ns, st) {
            Result::Ok(g) => g,
            Result::Err(e) => {
                return Result::Err(e);
            },
        };
        let root = Scope::root();
        match IR::legalize(&ns, &ss, &root, st) {
            Result::Ok(ir) => Result::Ok(ir),
            Result::Err(e) => Result::Err(e),
        }
    }
}

} // verus!
