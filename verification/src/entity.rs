//! Legalized entities: a name plus an ordered sequence of attributes.
//!
//! Attribute order is significant: it must match declaration order, since
//! it determines generated constructor and binding order downstream.

use vstd::prelude::*;

use crate::ast;
use crate::namespace::{ns_wf, NamedV, Namespace};
use crate::scope::{PathV, Scope, ScopeV};
use crate::subsuper::SubSuperGraph;
use crate::type_ref::{legalizable_shape, legalize_type_err, legalize_type_rel, TypeRef};
use crate::{Legalize, SemanticError, SemanticErrorV};

verus! {

/// A legalized attribute: its name, its resolved type and the optional flag.
#[derive(Debug)]
pub struct Attribute {
    pub name: String,
    pub ty: TypeRef,
    pub optional: bool,
}

/// A legalized entity: its name and its attributes, in declaration order.
#[derive(Debug)]
pub struct Entity {
    pub name: String,
    pub attributes: Vec<Attribute>,
}

/// What the attribute legalized from `syn` must be: same name, same
/// optional flag, and the type reference legalized from its syntactic type.
pub open spec fn attr_rel(
    ns: Seq<(PathV, NamedV)>,
    g: Seq<(PathV, PathV)>,
    scope: ScopeV,
    syn: ast::EntityAttributeV,
    a: Attribute,
) -> bool {
    a.name@ == syn.name && a.optional == syn.optional && legalize_type_rel(
        ns,
        g,
        scope,
        syn.ty,
        a.ty,
    )
}

/// The first error legalizing the attributes surfaces, in declaration
/// order, if any.
pub open spec fn attrs_err(
    ns: Seq<(PathV, NamedV)>,
    scope: ScopeV,
    attrs: Seq<ast::EntityAttributeV>,
) -> Option<SemanticErrorV>
    decreases attrs.len(),
{
    if attrs.len() == 0 {
        Option::None
    } else {
        match legalize_type_err(ns, scope, attrs.first().ty) {
            Option::Some(e) => Option::Some(e),
            Option::None => attrs_err(ns, scope, attrs.drop_first()),
        }
    }
}

/// Every attribute's syntactic type has a reference shape.
pub open spec fn entity_shapes_ok(e: ast::EntityV) -> bool {
    forall|j: int|
        0 <= j < e.attributes.len() ==> legalizable_shape((#[trigger] e.attributes[j]).ty)
}

/// What the entity legalized from `syn` must be: same name, and the
/// attribute sequence legalized element for element, order and count
/// preserved exactly.
pub open spec fn entity_rel(
    ns: Seq<(PathV, NamedV)>,
    g: Seq<(PathV, PathV)>,
    scope: ScopeV,
    syn: ast::EntityV,
    ent: Entity,
) -> bool {
    &&& ent.name@ == syn.name
    &&& ent.attributes@.len() == syn.attributes.len()
    &&& forall|i: int|
        0 <= i < syn.attributes.len() ==> attr_rel(
            ns,
            g,
            scope,
            syn.attributes[i],
            #[trigger] ent.attributes@[i],
        )
}

impl Legalize for Entity {
    type Input = ast::Entity;

    open spec fn legalize_req(
        ns: Namespace,
        ss: SubSuperGraph,
        scope: Scope,
        syn: ast::Entity,
    ) -> bool {
        ns_wf(ns@) && entity_shapes_ok(syn@)
    }

    open spec fn legalize_ens(
        ns: Namespace,
        ss: SubSuperGraph,
        scope: Scope,
        syn: ast::Entity,
        r: Result<Self, SemanticError>,
    ) -> bool {
        match r {
            Result::Ok(ent) => attrs_err(ns@, scope@, syn@.attributes) is None && entity_rel(
                ns@,
                ss@,
                scope@,
                syn@,
                ent,
            ),
            Result::Err(e) => attrs_err(ns@, scope@, syn@.attributes) == Option::Some(e@),
        }
    }

    /// Legalizes every attribute in declaration order, failing fast on the
    /// first attribute whose type does not legalize.
    fn legalize(ns: &Namespace, ss: &SubSuperGraph, scope: &Scope, syn: &ast::Entity) -> (r: Result<
        Self,
        SemanticError,
    >) {
        let mut attributes: Vec<Attribute> = Vec::new();
        let n = syn.attributes.len();
        let mut i: usize = 0;
        assert(syn@.attributes.skip(0) =~= syn@.attributes);
        while i < n
            invariant
                i <= n,
                n == syn.attributes@.len(),
                ns_wf(ns@),
                entity_shapes_ok(syn@),
                attributes@.len() == i,
                forall|j: int|
                    0 <= j < i ==> attr_rel(
                        ns@,
                        ss@,
                        scope@,
                        syn@.attributes[j],
                        #[trigger] attributes@[j],
                    ),
                attrs_err(ns@, scope@, syn@.attributes) == attrs_err(
                    ns@,
                    scope@,
                    syn@.attributes.skip(i as int),
                ),
            decreases n - i,
        {
            let a = &syn.attributes[i];
            proof {
                assert(syn@.attributes[i as int] == a@);
                assert(syn@.attributes.skip(i as int).first() == syn@.attributes[i as int]);
                assert(syn@.attributes.skip(i as int).drop_first() =~= syn@.attributes.skip(
                    i as int + 1,
                ));
            }
            match TypeRef::legalize(ns, ss, scope, &a.ty) {
                Result::Err(e) => {
                    return Result::Err(e);
                },
                Result::Ok(t) => {
                    attributes.push(
                        Attribute { name: a.name.clone(), ty: t, optional: a.optional },
                    );
                },
            }
            i += 1;
        }
        proof {
            assert(syn@.attributes.skip(n as int) =~= Seq::<ast::EntityAttributeV>::empty());
        }
        Result::Ok(Entity { name: syn.name.clone(), attributes })
    }
}

} // verus!
