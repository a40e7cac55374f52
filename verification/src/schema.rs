//! Legalized schemas: named, ordered collections of legalized entities and
//! type declarations.

use vstd::prelude::*;

use crate::ast;
use crate::entity::{attrs_err, entity_rel, entity_shapes_ok, Entity};
use crate::namespace::{ns_wf, schema_scope, NamedV, Namespace};
use crate::scope::{PathV, Scope, ScopeType, ScopeV};
use crate::subsuper::SubSuperGraph;
use crate::type_ref::{legalizable_shape, legalize_type_err, legalize_type_rel, TypeRef};
use crate::{Legalize, SemanticError, SemanticErrorV};

verus! {

/// The legalized underlying type of a type declaration: an enumeration
/// keeps its identifiers; every other shape is a resolved type reference.
#[derive(Debug)]
pub enum UnderlyingType {
    Enumeration { items: Vec<String> },
    Reference(TypeRef),
}

/// A legalized type declaration.
#[derive(Debug)]
pub struct TypeDecl {
    pub name: String,
    pub underlying: UnderlyingType,
}

/// A legalized schema: its entities and type declarations, each in
/// declaration order.
#[derive(Debug)]
pub struct Schema {
    pub name: String,
    pub entities: Vec<Entity>,
    pub types: Vec<TypeDecl>,
}

/// A type declaration's underlying type either is an enumeration or has a
/// reference shape.
pub open spec fn type_decl_shape_ok(t: ast::TypeDeclV) -> bool {
    t.underlying_type is Enumeration || legalizable_shape(t.underlying_type)
}

/// The error legalizing the type declaration surfaces, if any; declaring
/// an enumeration never fails.
pub open spec fn type_decl_err(
    ns: Seq<(PathV, NamedV)>,
    scope: ScopeV,
    syn: ast::TypeDeclV,
) -> Option<SemanticErrorV> {
    match syn.underlying_type {
        ast::TypeV::Enumeration(_) => Option::None,
        _ => legalize_type_err(ns, scope, syn.underlying_type),
    }
}

/// What the type declaration legalized from `syn` must be.
pub open spec fn type_decl_rel(
    ns: Seq<(PathV, NamedV)>,
    g: Seq<(PathV, PathV)>,
    scope: ScopeV,
    syn: ast::TypeDeclV,
    d: TypeDecl,
) -> bool {
    &&& d.name@ == syn.name
    &&& match syn.underlying_type {
        ast::TypeV::Enumeration(items) => match d.underlying {
            UnderlyingType::Enumeration { items: v } => ast::names_view(v@) == items,
            _ => false,
        },
        _ => match d.underlying {
            UnderlyingType::Reference(t) => legalize_type_rel(ns, g, scope, syn.underlying_type, t),
            _ => false,
        },
    }
}

impl Legalize for TypeDecl {
    type Input = ast::TypeDecl;

    open spec fn legalize_req(
        ns: Namespace,
        ss: SubSuperGraph,
        scope: Scope,
        syn: ast::TypeDecl,
    ) -> bool {
        ns_wf(ns@) && type_decl_shape_ok(syn@)
    }

    open spec fn legalize_ens(
        ns: Namespace,
        ss: SubSuperGraph,
        scope: Scope,
        syn: ast::TypeDecl,
        r: Result<Self, SemanticError>,
    ) -> bool {
        match r {
            Result::Ok(d) => type_decl_err(ns@, scope@, syn@) is None && type_decl_rel(
                ns@,
                ss@,
                scope@,
                syn@,
                d,
            ),
            Result::Err(e) => type_decl_err(ns@, scope@, syn@) == Option::Some(e@),
        }
    }

    fn legalize(ns: &Namespace, ss: &SubSuperGraph, scope: &Scope, syn: &ast::TypeDecl) -> (r:
        Result<Self, SemanticError>) {
        match &syn.underlying_type {
            ast::Type::Enumeration { items } => {
                let v = items.clone();
                proof {
                    assert forall|k: int| 0 <= k < v@.len() implies v@[k]@ == items@[k]@ by {
                        assert(cloned::<String>(items@[k], v@[k]));
                    }
                    assert(ast::names_view(v@) =~= ast::names_view(items@));
                }
                Result::Ok(
                    TypeDecl {
                        name: syn.name.clone(),
                        underlying: UnderlyingType::Enumeration { items: v },
                    },
                )
            },
            _ => {
                proof {
                    match syn.underlying_type {
                        ast::Type::Simple(_) => {},
                        ast::Type::Named(_) => {},
                        ast::Type::Enumeration { .. } => {},
                        ast::Type::SetOf { .. } => {},
                        ast::Type::ListOf { .. } => {},
                    }
                    assert(!(syn@.underlying_type is Enumeration));
                }
                match TypeRef::legalize(ns, ss, scope, &syn.underlying_type) {
                    Result::Err(e) => Result::Err(e),
                    Result::Ok(t) => Result::Ok(
                        TypeDecl {
                            name: syn.name.clone(),
                            underlying: UnderlyingType::Reference(t),
                        },
                    ),
                }
            },
        }
    }
}

/// Every entity's and type declaration's shapes admit legalization.
pub open spec fn schema_shapes_ok(s: ast::SchemaV) -> bool {
    &&& forall|j: int| 0 <= j < s.entities.len() ==> entity_shapes_ok(#[trigger] s.entities[j])
    &&& forall|j: int| 0 <= j < s.types.len() ==> type_decl_shape_ok(#[trigger] s.types[j])
}

/// The first error legalizing the entities surfaces, in order, if any.
pub open spec fn entities_err(
    ns: Seq<(PathV, NamedV)>,
    scope: ScopeV,
    entities: Seq<ast::EntityV>,
) -> Option<SemanticErrorV>
    decreases entities.len(),
{
    if entities.len() == 0 {
        Option::None
    } else {
        match attrs_err(ns, scope, entities.first().attributes) {
            Option::Some(e) => Option::Some(e),
            Option::None => entities_err(ns, scope, entities.drop_first()),
        }
    }
}

/// The first error legalizing the type declarations surfaces, in order.
pub open spec fn type_decls_err(
    ns: Seq<(PathV, NamedV)>,
    scope: ScopeV,
    types: Seq<ast::TypeDeclV>,
) -> Option<SemanticErrorV>
    decreases types.len(),
{
    if types.len() == 0 {
        Option::None
    } else {
        match type_decl_err(ns, scope, types.first()) {
            Option::Some(e) => Option::Some(e),
            Option::None => type_decls_err(ns, scope, types.drop_first()),
        }
    }
}

/// The first error legalizing the schema surfaces: its entities first,
/// then its type declarations.
pub open spec fn schema_err(ns: Seq<(PathV, NamedV)>, syn: ast::SchemaV) -> Option<SemanticErrorV> {
    match entities_err(ns, schema_scope(syn.name), syn.entities) {
        Option::Some(e) => Option::Some(e),
        Option::None => type_decls_err(ns, schema_scope(syn.name), syn.types),
    }
}

/// What the schema legalized from `syn` must be: same name, entities and
/// type declarations legalized element for element, order preserved.
pub open spec fn schema_rel(
    ns: Seq<(PathV, NamedV)>,
    g: Seq<(PathV, PathV)>,
    syn: ast::SchemaV,
    s: Schema,
) -> bool {
    &&& s.name@ == syn.name
    &&& s.entities@.len() == syn.entities.len()
    &&& s.types@.len() == syn.types.len()
    &&& forall|i: int|
        0 <= i < syn.entities.len() ==> entity_rel(
            ns,
            g,
            schema_scope(syn.name),
            syn.entities[i],
            #[trigger] s.entities@[i],
        )
    &&& forall|i: int|
        0 <= i < syn.types.len() ==> type_decl_rel(
            ns,
            g,
            schema_scope(syn.name),
            syn.types[i],
            #[trigger] s.types@[i],
        )
}

impl Legalize for Schema {
    type Input = ast::Schema;

    open spec fn legalize_req(
        ns: Namespace,
        ss: SubSuperGraph,
        scope: Scope,
        syn: ast::Schema,
    ) -> bool {
        ns_wf(ns@) && schema_shapes_ok(syn@) && scope@ == Seq::<(ScopeType, Seq<char>)>::empty()
    }

    open spec fn legalize_ens(
        ns: Namespace,
        ss: SubSuperGraph,
        scope: Scope,
        syn: ast::Schema,
        r: Result<Self, SemanticError>,
    ) -> bool {
        match r {
            Result::Ok(s) => schema_err(ns@, syn@) is None && schema_rel(ns@, ss@, syn@, s),
            Result::Err(e) => schema_err(ns@, syn@) == Option::Some(e@),
        }
    }

    /// Legalizes the schema's entities, then its type declarations, each in
    /// declaration order, failing fast on the first error.
    fn legalize(ns: &Namespace, ss: &SubSuperGraph, scope: &Scope, syn: &ast::Schema) -> (r: Result<
        Self,
        SemanticError,
    >) {
        let sscope = scope.pushed(ScopeType::Schema, &syn.name);
        proof {
            assert(sscope@ =~= schema_scope(syn@.name));
        }
        let mut entities: Vec<Entity> = Vec::new();
        let ne = syn.entities.len();
        let mut i: usize = 0;
        assert(syn@.entities.skip(0) =~= syn@.entities);
        while i < ne
            invariant
                i <= ne,
                ne == syn.entities@.len(),
                ns_wf(ns@),
                schema_shapes_ok(syn@),
                sscope@ == schema_scope(syn@.name),
                entities@.len() == i,
                forall|j: int|
                    0 <= j < i ==> entity_rel(
                        ns@,
                        ss@,
                        schema_scope(syn@.name),
                        syn@.entities[j],
                        #[trigger] entities@[j],
                    ),
                entities_err(ns@, schema_scope(syn@.name), syn@.entities) == entities_err(
                    ns@,
                    schema_scope(syn@.name),
                    syn@.entities.skip(i as int),
                ),
            decreases ne - i,
        {
            let e = &syn.entities[i];
            proof {
                assert(syn@.entities[i as int] == e@);
                assert(syn@.entities.skip(i as int).first() == syn@.entities[i as int]);
                assert(syn@.entities.skip(i as int).drop_first() =~= syn@.entities.skip(
                    i as int + 1,
                ));
            }
            match Entity::legalize(ns, ss, &sscope, e) {
                Result::Err(er) => {
                    return Result::Err(er);
                },
                Result::Ok(ent) => {
                    entities.push(ent);
                },
            }
            i += 1;
        }
        proof {
            assert(syn@.entities.skip(ne as int) =~= Seq::<ast::EntityV>::empty());
        }
        let mut types: Vec<TypeDecl> = Vec::new();
        let nt = syn.types.len();
        let mut i: usize = 0;
        assert(syn@.types.skip(0) =~= syn@.types);
        while i < nt
            invariant
                i <= nt,
                nt == syn.types@.len(),
                ns_wf(ns@),
                schema_shapes_ok(syn@),
                sscope@ == schema_scope(syn@.name),
                entities_err(ns@, schema_scope(syn@.name), syn@.entities) is None,
                types@.len() == i,
                forall|j: int|
                    0 <= j < i ==> type_decl_rel(
                        ns@,
                        ss@,
                        schema_scope(syn@.name),
                        syn@.types[j],
                        #[trigger] types@[j],
                    ),
                type_decls_err(ns@, schema_scope(syn@.name), syn@.types) == type_decls_err(
                    ns@,
                    schema_scope(syn@.name),
                    syn@.types.skip(i as int),
                ),
            decreases nt - i,
        {
            let t = &syn.types[i];
            proof {
                assert(syn@.types[i as int] == t@);
                assert(syn@.types.skip(i as int).first() == syn@.types[i as int]);
                assert(syn@.types.skip(i as int).drop_first() =~= syn@.types.skip(i as int + 1));
            }
            match TypeDecl::legalize(ns, ss, &sscope, t) {
                Result::Err(er) => {
                    return Result::Err(er);
                },
                Result::Ok(d) => {
                    types.push(d);
                },
            }
            i += 1;
        }
        proof {
            assert(syn@.types.skip(nt as int) =~= Seq::<ast::TypeDeclV>::empty());
        }
        Result::Ok(Schema { name: syn.name.clone(), entities, types })
    }
}

} // verus!
