//! Legalized type references.
//!
//! A [`TypeRef`] is the resolved form of a syntactic type reference.  For a
//! named reference, three independent semantic facts are computed exactly
//! once, at legalization time, and stored on the value; downstream
//! consumers treat them as authoritative without re-walking the symbol
//! table:
//!
//! - `is_simple` (transitive): the chain of name aliases eventually reaches
//!   a primitive simple type or an enumeration;
//! - `is_direct_simple` (one hop only): the immediately referenced
//!   declaration's underlying type is itself a primitive simple type or an
//!   enumeration;
//! - `is_enumerate` (one hop only): the immediately referenced
//!   declaration's underlying type is exactly an enumeration.

use vstd::prelude::*;

use crate::ast;
use crate::namespace::{get_model, named_kind, ns_wf, resolve_model, Named, NamedV, Namespace};
use crate::scope::{Path, PathV, Scope, ScopeType, ScopeV};
use crate::subsuper::{graph_has_super, SubSuperGraph};
use crate::{Legalize, SemanticError, SemanticErrorV};

verus! {

/// A legalized primitive simple type.
#[derive(Debug, Clone, Copy, PartialEq, Eq, Structural)]
pub struct SimpleType(pub ast::SimpleType);

/// A legalized cardinality bound.  Bounds are carried but not semantically
/// checked: a deliberate stub.
#[derive(Debug, Clone, Copy, PartialEq, Eq, Structural)]
pub struct Bound {}

/// The legalized, resolved form of a type reference.
#[derive(Debug)]
pub enum TypeRef {
    SimpleType(SimpleType),
    Named {
        name: String,
        /// Scope where the named type is declared.
        scope: Scope,
        /// The underlying type of the named type is transitively simple.
        is_simple: bool,
        /// The named type is an enumeration or directly renames a simple
        /// type or an enumeration (one hop, not transitive).
        is_direct_simple: bool,
        /// The named type is declared as an enumeration (one hop).
        is_enumerate: bool,
    },
    /// Declared as `ENTITY`.
    Entity { name: String, scope: Scope, is_supertype: bool },
    /// An aggregate `SET OF base`.
    SetOf { base: Box<TypeRef>, bound: Option<Bound> },
    /// An aggregate `LIST OF base`.
    ListOf { base: Box<TypeRef>, bound: Option<Bound>, unique: bool },
}

/// `t` is a simple type, a named type whose underlying type is transitively
/// simple, or a set or list of such a type.
pub open spec fn spec_is_simple(t: TypeRef) -> bool
    decreases t,
{
    match t {
        TypeRef::SimpleType(..) => true,
        TypeRef::Named { is_simple, .. } => is_simple,
        TypeRef::SetOf { base, .. } => spec_is_simple(*base),
        TypeRef::ListOf { base, .. } => spec_is_simple(*base),
        _ => false,
    }
}

/// `t` is a simple type, an enumeration, a direct renaming of either, or a
/// set or list of such a type.
pub open spec fn spec_is_direct_simple(t: TypeRef) -> bool
    decreases t,
{
    match t {
        TypeRef::SimpleType(..) => true,
        TypeRef::Named { is_direct_simple, .. } => is_direct_simple,
        TypeRef::SetOf { base, .. } => spec_is_direct_simple(*base),
        TypeRef::ListOf { base, .. } => spec_is_direct_simple(*base),
        _ => false,
    }
}

/// The declaration's underlying type is itself a primitive simple type or
/// an enumeration (one hop, not transitive).
pub open spec fn local_direct_simple(n: NamedV) -> bool {
    match n {
        NamedV::Type(td) => td.underlying_type is Simple || td.underlying_type is Enumeration,
        NamedV::Entity(_) => false,
    }
}

/// The declaration's underlying type is exactly an enumeration (one hop).
pub open spec fn local_enumerate(n: NamedV) -> bool {
    match n {
        NamedV::Type(td) => td.underlying_type is Enumeration,
        NamedV::Entity(_) => false,
    }
}

/// Chasing the chain of name aliases from `p`, with `fuel` lookups left:
/// a primitive simple type or an enumeration ends the chase with `true`;
/// a bare named alias re-resolves in the alias's own declaring scope and
/// continues; any other underlying shape (or an entity) ends it with
/// `false`.  A chain longer than the number of declarations revisits one
/// (a malformed alias cycle) and is rejected as an invalid path.
pub open spec fn chase_is_simple(ns: Seq<(PathV, NamedV)>, p: PathV, fuel: nat) -> Result<
    bool,
    SemanticErrorV,
>
    decreases fuel,
{
    if fuel == 0 {
        Result::Err(SemanticErrorV::InvalidPath(p))
    } else {
        match get_model(ns, p) {
            Result::Err(e) => Result::Err(e),
            Result::Ok(n) => match n {
                NamedV::Entity(_) => Result::Ok(false),
                NamedV::Type(td) => match td.underlying_type {
                    ast::TypeV::Simple(_) => Result::Ok(true),
                    ast::TypeV::Enumeration(_) => Result::Ok(true),
                    ast::TypeV::Named(other) => match resolve_model(ns, p.scope, other) {
                        Option::None => Result::Err(
                            SemanticErrorV::TypeNotFound { name: other, scope: p.scope },
                        ),
                        Option::Some(p2) => chase_is_simple(ns, p2, (fuel - 1) as nat),
                    },
                    _ => Result::Ok(false),
                },
            },
        }
    }
}

/// The error converting `p` surfaces, if any: entity paths never fail;
/// type paths fail exactly when the alias chase fails.
pub open spec fn from_path_err(ns: Seq<(PathV, NamedV)>, p: PathV) -> Option<SemanticErrorV> {
    if p.ty == ScopeType::Entity {
        Option::None
    } else {
        match chase_is_simple(ns, p, ns.len() + 1) {
            Result::Err(e) => Option::Some(e),
            Result::Ok(_) => Option::None,
        }
    }
}

/// What the type reference built from `p` must be.
pub open spec fn from_path_rel(
    ns: Seq<(PathV, NamedV)>,
    g: Seq<(PathV, PathV)>,
    p: PathV,
    r: TypeRef,
) -> bool {
    if p.ty == ScopeType::Entity {
        match r {
            TypeRef::Entity { name, scope, is_supertype } => name@ == p.name && scope@ == p.scope
                && is_supertype == graph_has_super(g, p),
            _ => false,
        }
    } else {
        match r {
            TypeRef::Named { name, scope, is_simple, is_direct_simple, is_enumerate } => name@
                == p.name && scope@ == p.scope && chase_is_simple(ns, p, ns.len() + 1)
                == Result::Ok::<bool, SemanticErrorV>(is_simple) && match get_model(ns, p) {
                Result::Ok(n) => is_direct_simple == local_direct_simple(n) && is_enumerate
                    == local_enumerate(n),
                Result::Err(_) => false,
            },
            _ => false,
        }
    }
}

impl TypeRef {
    /// Whether this reference is transitively simple; aggregates delegate
    /// to their base.
    pub fn is_simple(&self) -> (r: bool)
        ensures
            r == spec_is_simple(*self),
        decreases *self,
    {
        match self {
            TypeRef::SimpleType(..) => true,
            TypeRef::Named { is_simple, .. } => *is_simple,
            TypeRef::SetOf { base, .. } => base.is_simple(),
            TypeRef::ListOf { base, .. } => base.is_simple(),
            _ => false,
        }
    }

    /// Whether this reference is directly simple; aggregates delegate to
    /// their base.
    pub fn is_direct_simple(&self) -> (r: bool)
        ensures
            r == spec_is_direct_simple(*self),
        decreases *self,
    {
        match self {
            TypeRef::SimpleType(..) => true,
            TypeRef::Named { is_direct_simple, .. } => *is_direct_simple,
            TypeRef::SetOf { base, .. } => base.is_direct_simple(),
            TypeRef::ListOf { base, .. } => base.is_direct_simple(),
            _ => false,
        }
    }

    /// Converts a resolved path into a legalized type reference.  Entity
    /// paths always succeed, with `is_supertype` read off the graph; type
    /// paths chase the alias chain for `is_simple` and read the immediate
    /// declaration for `is_direct_simple` and `is_enumerate`.
    pub fn from_path(ns: &Namespace, ss: &SubSuperGraph, path: &Path) -> (r: Result<
        TypeRef,
        SemanticError,
    >)
        requires
            path@.ty == ScopeType::Entity || path@.ty == ScopeType::Type,
        ensures
            match r {
                Result::Ok(t) => from_path_err(ns@, path@) is None && from_path_rel(
                    ns@,
                    ss@,
                    path@,
                    t,
                ),
                Result::Err(e) => from_path_err(ns@, path@) == Option::Some(e@),
            },
    {
        if path.ty == ScopeType::Entity {
            let is_supertype = ss.is_supertype(path);
            Result::Ok(
                TypeRef::Entity {
                    name: path.name.clone(),
                    scope: path.scope.clone(),
                    is_supertype,
                },
            )
        } else {
            let ghost full_fuel: nat = ns@.len() + 1;
            let limit = ns.len();
            let mut cur: Path = path.clone();
            let mut steps: usize = 0;
            loop
                invariant
                    limit == ns@.len(),
                    steps <= limit,
                    full_fuel == ns@.len() + 1,
                    path@.ty == ScopeType::Type,
                    chase_is_simple(ns@, path@, full_fuel) == chase_is_simple(
                        ns@,
                        cur@,
                        (full_fuel - steps as nat) as nat,
                    ),
                decreases limit - steps,
            {
                let ghost fuel: nat = (full_fuel - steps as nat) as nat;
                assert(fuel > 0);
                let simple: bool;
                match ns.get(&cur) {
                    Result::Err(e) => {
                        return Result::Err(e);
                    },
                    Result::Ok(named) => {
                        match named {
                            Named::Entity(_) => {
                                simple = false;
                            },
                            Named::Type(td) => {
                                match &td.underlying_type {
                                    ast::Type::Simple(_) => {
                                        simple = true;
                                    },
                                    ast::Type::Enumeration { .. } => {
                                        simple = true;
                                    },
                                    ast::Type::Named(other) => {
                                        match ns.resolve(&cur.scope, other) {
                                            Result::Err(e) => {
                                                return Result::Err(e);
                                            },
                                            Result::Ok(p2) => {
                                                if steps == limit {
                                                    proof {
                                                        assert(fuel == 1);
                                                        assert(chase_is_simple(ns@, cur@, 1)
                                                            == chase_is_simple(ns@, p2@, 0));
                                                        assert(chase_is_simple(ns@, p2@, 0)
                                                            == Result::Err::<
                                                            bool,
                                                            SemanticErrorV,
                                                        >(SemanticErrorV::InvalidPath(p2@)));
                                                    }
                                                    return Result::Err(
                                                        SemanticError::InvalidPath(p2),
                                                    );
                                                }
                                                steps += 1;
                                                cur = p2;
                                                continue ;
                                            },
                                        }
                                    },
                                    _ => {
                                        simple = false;
                                    },
                                }
                            },
                        }
                    },
                }
                // the chase ended at `cur`; read the immediate declaration
                // of `path` for the one-hop facts
                assert(chase_is_simple(ns@, path@, full_fuel) == Result::Ok::<
                    bool,
                    SemanticErrorV,
                >(simple));
                proof {
                    reveal_with_fuel(chase_is_simple, 2);
                    assert(get_model(ns@, path@) is Ok);
                }
                match ns.get(path) {
                    Result::Err(e) => {
                        // the chase already looked `path` up successfully
                        proof {
                            assert(false);
                        }
                        return Result::Err(e);
                    },
                    Result::Ok(named2) => {
                        let is_direct_simple: bool;
                        let is_enumerate: bool;
                        match named2 {
                            Named::Type(td) => {
                                match &td.underlying_type {
                                    ast::Type::Simple(_) => {
                                        is_direct_simple = true;
                                        is_enumerate = false;
                                    },
                                    ast::Type::Enumeration { .. } => {
                                        is_direct_simple = true;
                                        is_enumerate = true;
                                    },
                                    _ => {
                                        is_direct_simple = false;
                                        is_enumerate = false;
                                    },
                                }
                            },
                            Named::Entity(_) => {
                                is_direct_simple = false;
                                is_enumerate = false;
                            },
                        }
                        return Result::Ok(
                            TypeRef::Named {
                                scope: path.scope.clone(),
                                name: path.name.clone(),
                                is_simple: simple,
                                is_direct_simple,
                                is_enumerate,
                            },
                        );
                    },
                }
            }
        }
    }
}


/// The shapes of syntactic type that a type reference may take: primitive
/// simple types, bare names, and sets and lists of such shapes.  An
/// anonymous enumeration is not a reference.
pub open spec fn legalizable_shape(t: ast::TypeV) -> bool
    decreases t,
{
    match t {
        ast::TypeV::Simple(_) => true,
        ast::TypeV::Named(_) => true,
        ast::TypeV::Enumeration(_) => false,
        ast::TypeV::SetOf { base, .. } => legalizable_shape(*base),
        ast::TypeV::ListOf { base, .. } => legalizable_shape(*base),
    }
}

/// The first error legalizing the syntactic type `t` surfaces, if any.
pub open spec fn legalize_type_err(
    ns: Seq<(PathV, NamedV)>,
    scope: ScopeV,
    t: ast::TypeV,
) -> Option<SemanticErrorV>
    decreases t,
{
    match t {
        ast::TypeV::Simple(_) => Option::None,
        ast::TypeV::Named(n) => match resolve_model(ns, scope, n) {
            Option::None => Option::Some(SemanticErrorV::TypeNotFound { name: n, scope }),
            Option::Some(p) => from_path_err(ns, p),
        },
        ast::TypeV::Enumeration(_) => Option::None,
        ast::TypeV::SetOf { base, .. } => legalize_type_err(ns, scope, *base),
        ast::TypeV::ListOf { base, .. } => legalize_type_err(ns, scope, *base),
    }
}

/// What the type reference legalized from the syntactic type `t` must be.
pub open spec fn legalize_type_rel(
    ns: Seq<(PathV, NamedV)>,
    g: Seq<(PathV, PathV)>,
    scope: ScopeV,
    t: ast::TypeV,
    r: TypeRef,
) -> bool
    decreases t,
{
    match t {
        ast::TypeV::Simple(s) => r == TypeRef::SimpleType(SimpleType(s)),
        ast::TypeV::Named(n) => match resolve_model(ns, scope, n) {
            Option::Some(p) => from_path_rel(ns, g, p, r),
            Option::None => false,
        },
        ast::TypeV::Enumeration(_) => false,
        ast::TypeV::SetOf { base, bound } => match r {
            TypeRef::SetOf { base: rb, bound: rbound } => legalize_type_rel(ns, g, scope, *base, *rb)
                && (rbound is Some <==> bound is Some),
            _ => false,
        },
        ast::TypeV::ListOf { base, bound, unique } => match r {
            TypeRef::ListOf { base: rb, bound: rbound, unique: ru } => legalize_type_rel(
                ns,
                g,
                scope,
                *base,
                *rb,
            ) && (rbound is Some <==> bound is Some) && ru == unique,
            _ => false,
        },
    }
}

impl Legalize for SimpleType {
    type Input = ast::SimpleType;

    open spec fn legalize_req(
        ns: Namespace,
        ss: SubSuperGraph,
        scope: Scope,
        syn: ast::SimpleType,
    ) -> bool {
        true
    }

    open spec fn legalize_ens(
        ns: Namespace,
        ss: SubSuperGraph,
        scope: Scope,
        syn: ast::SimpleType,
        r: Result<Self, SemanticError>,
    ) -> bool {
        r == Result::Ok::<SimpleType, SemanticError>(SimpleType(syn))
    }

    fn legalize(ns: &Namespace, ss: &SubSuperGraph, scope: &Scope, syn: &ast::SimpleType) -> (r:
        Result<Self, SemanticError>) {
        Result::Ok(SimpleType(*syn))
    }
}

impl Legalize for Bound {
    type Input = ast::Bound;

    open spec fn legalize_req(
        ns: Namespace,
        ss: SubSuperGraph,
        scope: Scope,
        syn: ast::Bound,
    ) -> bool {
        true
    }

    open spec fn legalize_ens(
        ns: Namespace,
        ss: SubSuperGraph,
        scope: Scope,
        syn: ast::Bound,
        r: Result<Self, SemanticError>,
    ) -> bool {
        r == Result::Ok::<Bound, SemanticError>(Bound {  })
    }

    fn legalize(ns: &Namespace, ss: &SubSuperGraph, scope: &Scope, syn: &ast::Bound) -> (r: Result<
        Self,
        SemanticError,
    >) {
        Result::Ok(Bound {  })
    }
}

impl Legalize for TypeRef {
    type Input = ast::Type;

    open spec fn legalize_req(
        ns: Namespace,
        ss: SubSuperGraph,
        scope: Scope,
        syn: ast::Type,
    ) -> bool {
        ns_wf(ns@) && legalizable_shape(syn@)
    }

    open spec fn legalize_ens(
        ns: Namespace,
        ss: SubSuperGraph,
        scope: Scope,
        syn: ast::Type,
        r: Result<Self, SemanticError>,
    ) -> bool {
        match r {
            Result::Ok(t) => legalize_type_err(ns@, scope@, syn@) is None && legalize_type_rel(
                ns@,
                ss@,
                scope@,
                syn@,
                t,
            ),
            Result::Err(e) => legalize_type_err(ns@, scope@, syn@) == Option::Some(e@),
        }
    }

    fn legalize(ns: &Namespace, ss: &SubSuperGraph, scope: &Scope, syn: &ast::Type) -> (r: Result<
        Self,
        SemanticError,
    >)
        decreases *syn,
    {
        match syn {
            ast::Type::Simple(ty) => Result::Ok(TypeRef::SimpleType(SimpleType(*ty))),
            ast::Type::Named(name) => {
                match ns.resolve(scope, name) {
                    Result::Err(e) => Result::Err(e),
                    Result::Ok(path) => {
                        proof {
                            let pv = path@;
                            let idx = choose|i: int|
                                0 <= i < ns@.len() && (#[trigger] ns@[i]).0 == pv;
                            assert(ns@[idx].0.ty == named_kind(ns@[idx].1));
                        }
                        TypeRef::from_path(ns, ss, &path)
                    },
                }
            },
            ast::Type::Enumeration { .. } => {
                // an anonymous enumeration is not a reference shape, and
                // the precondition rules it out; the arm only makes the
                // match total
                proof {
                    assert(false);
                }
                Result::Err(
                    SemanticError::TypeNotFound { name: String::new(), scope: Scope::root() },
                )
            },
            ast::Type::SetOf { base, bound } => {
                let base_ir = match TypeRef::legalize(ns, ss, scope, &**base) {
                    Result::Ok(b) => b,
                    Result::Err(e) => {
                        return Result::Err(e);
                    },
                };
                let bound_ir = match bound {
                    Option::Some(b) => {
                        match Bound::legalize(ns, ss, scope, b) {
                            Result::Ok(x) => Option::Some(x),
                            Result::Err(e) => {
                                // legalizing a bound cannot fail
                                proof {
                                    assert(false);
                                }
                                return Result::Err(e);
                            },
                        }
                    },
                    Option::None => Option::None,
                };
                Result::Ok(TypeRef::SetOf { base: Box::new(base_ir), bound: bound_ir })
            },
            ast::Type::ListOf { base, bound, unique } => {
                let base_ir = match TypeRef::legalize(ns, ss, scope, &**base) {
                    Result::Ok(b) => b,
                    Result::Err(e) => {
                        return Result::Err(e);
                    },
                };
                let bound_ir = match bound {
                    Option::Some(b) => {
                        match Bound::legalize(ns, ss, scope, b) {
                            Result::Ok(x) => Option::Some(x),
                            Result::Err(e) => {
                                // legalizing a bound cannot fail
                                proof {
                                    assert(false);
                                }
                                return Result::Err(e);
                            },
                        }
                    },
                    Option::None => Option::None,
                };
                Result::Ok(
                    TypeRef::ListOf { base: Box::new(base_ir), bound: bound_ir, unique: *unique },
                )
            },
        }
    }
}

impl Namespace {
    /// Convenience composition of `resolve` followed by
    /// [`TypeRef::from_path`].
    pub fn lookup_type(&self, ss: &SubSuperGraph, scope: &Scope, name: &String) -> (r: Result<
        TypeRef,
        SemanticError,
    >)
        requires
            ns_wf(self@),
        ensures
            match r {
                Result::Ok(t) => match resolve_model(self@, scope@, name@) {
                    Option::Some(p) => from_path_err(self@, p) is None && from_path_rel(
                        self@,
                        ss@,
                        p,
                        t,
                    ),
                    Option::None => false,
                },
                Result::Err(e) => match resolve_model(self@, scope@, name@) {
                    Option::None => e@ == SemanticErrorV::TypeNotFound {
                        name: name@,
                        scope: scope@,
                    },
                    Option::Some(p) => from_path_err(self@, p) == Option::Some(e@),
                },
            },
    {
        match self.resolve(scope, name) {
            Result::Err(e) => Result::Err(e),
            Result::Ok(path) => {
                proof {
                    let pv = path@;
                    let idx = choose|i: int| 0 <= i < self@.len() && (#[trigger] self@[i]).0 == pv;
                    assert(self@[idx].0.ty == named_kind(self@[idx].1));
                }
                TypeRef::from_path(self, ss, &path)
            },
        }
    }
}

} // verus!

