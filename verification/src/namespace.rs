//! The global symbol table: an immutable mapping from [`Path`] to the raw
//! declaration payload ([`Named`]), covering every declaration in every
//! schema of the input.
//!
//! The table is built once by [`Namespace::new`] and never mutated
//! afterwards.  Building never validates cross-references: it only records
//! declarations as found, entities first and type declarations second within
//! each schema, in declaration order.  Where two declarations share a path,
//! the earlier one wins on lookup (lookups return the first match).

use vstd::prelude::*;

use crate::ast;
use crate::scope::{Path, PathV, Scope, ScopeType, ScopeV};
use crate::{SemanticError, SemanticErrorV};

verus! {

/// The raw syntax-tree payload associated with a path: a type declaration
/// or an entity declaration.
#[derive(Debug)]
pub enum Named {
    Type(ast::TypeDecl),
    Entity(ast::Entity),
}

/// Mathematical model of a [`Named`] payload.
#[verifier::ext_equal]
pub enum NamedV {
    Type(ast::TypeDeclV),
    Entity(ast::EntityV),
}

impl View for Named {
    type V = NamedV;

    open spec fn view(&self) -> NamedV {
        match self {
            Named::Type(t) => NamedV::Type(t@),
            Named::Entity(e) => NamedV::Entity(e@),
        }
    }
}

/// The kind of path a payload must be stored under.
pub open spec fn named_kind(n: NamedV) -> ScopeType {
    match n {
        NamedV::Type(_) => ScopeType::Type,
        NamedV::Entity(_) => ScopeType::Entity,
    }
}

/// Every entry's path kind agrees with its payload (and so is always
/// `Entity` or `Type`).
pub open spec fn ns_wf(ns: Seq<(PathV, NamedV)>) -> bool {
    forall|i: int| 0 <= i < ns.len() ==> (#[trigger] ns[i]).0.ty == named_kind(ns[i].1)
}

/// The scope every declaration of the schema named `name` lives in.
pub open spec fn schema_scope(name: Seq<char>) -> ScopeV {
    seq![(ScopeType::Schema, name)]
}

/// The path of an entity declared in the schema named `schema_name`.
pub open spec fn entity_path(schema_name: Seq<char>, entity_name: Seq<char>) -> PathV {
    PathV { scope: schema_scope(schema_name), name: entity_name, ty: ScopeType::Entity }
}

/// The path of a type declared in the schema named `schema_name`.
pub open spec fn type_path(schema_name: Seq<char>, tname: Seq<char>) -> PathV {
    PathV { scope: schema_scope(schema_name), name: tname, ty: ScopeType::Type }
}

/// The table entries contributed by the entities of one schema.
pub open spec fn entity_decls(s: ast::SchemaV) -> Seq<(PathV, NamedV)> {
    s.entities.map_values(|e: ast::EntityV| (entity_path(s.name, e.name), NamedV::Entity(e)))
}

/// The table entries contributed by the type declarations of one schema.
pub open spec fn type_decls(s: ast::SchemaV) -> Seq<(PathV, NamedV)> {
    s.types.map_values(|t: ast::TypeDeclV| (type_path(s.name, t.name), NamedV::Type(t)))
}

/// The table entries contributed by one schema: entities first, then type
/// declarations, each in declaration order.
pub open spec fn schema_decls(s: ast::SchemaV) -> Seq<(PathV, NamedV)> {
    entity_decls(s) + type_decls(s)
}

/// The whole table: one schema after the other, in input order.
pub open spec fn ns_model(schemas: Seq<ast::SchemaV>) -> Seq<(PathV, NamedV)>
    decreases schemas.len(),
{
    if schemas.len() == 0 {
        Seq::empty()
    } else {
        ns_model(schemas.drop_last()) + schema_decls(schemas.last())
    }
}

/// The first entry declared under `scope` with terminal name `name`, if any.
pub open spec fn find_decl(ns: Seq<(PathV, NamedV)>, scope: ScopeV, name: Seq<char>) -> Option<
    (PathV, NamedV),
>
    decreases ns.len(),
{
    if ns.len() == 0 {
        None
    } else if ns.first().0.scope == scope && ns.first().0.name == name {
        Some(ns.first())
    } else {
        find_decl(ns.drop_first(), scope, name)
    }
}

/// What an exact lookup of `p` yields: the stored payload, or
/// `TypeNotFound` when no declaration has `p`'s scope and name, or
/// `InvalidPath` when one has but its kind disagrees with `p`.
pub open spec fn get_model(ns: Seq<(PathV, NamedV)>, p: PathV) -> Result<NamedV, SemanticErrorV> {
    match find_decl(ns, p.scope, p.name) {
        Option::None => Result::Err(
            SemanticErrorV::TypeNotFound { name: p.name, scope: p.scope },
        ),
        Option::Some(e) => if e.0.ty == p.ty {
            Result::Ok(e.1)
        } else {
            Result::Err(SemanticErrorV::InvalidPath(p))
        },
    }
}

/// What resolving the bare `name` from within `scope` denotes: the nearest
/// enclosing scope that declares `name` wins; `None` when no enclosing
/// scope (the schema's own declarations at minimum) declares it.
pub open spec fn resolve_model(ns: Seq<(PathV, NamedV)>, scope: ScopeV, name: Seq<char>) -> Option<
    PathV,
>
    decreases scope.len(),
{
    match find_decl(ns, scope, name) {
        Option::Some(e) => Option::Some(e.0),
        Option::None => if scope.len() == 0 {
            Option::None
        } else {
            resolve_model(ns, scope.drop_last(), name)
        },
    }
}

/// `p` is the path of some entry of the table.
pub open spec fn ns_contains(ns: Seq<(PathV, NamedV)>, p: PathV) -> bool {
    exists|i: int| 0 <= i < ns.len() && (#[trigger] ns[i]).0 == p
}

/// A found entry is an entry of the table.
proof fn lemma_find_decl_mem(ns: Seq<(PathV, NamedV)>, scope: ScopeV, name: Seq<char>)
    ensures
        match find_decl(ns, scope, name) {
            Option::Some(e) => ns_contains(ns, e.0),
            Option::None => true,
        },
    decreases ns.len(),
{
    if ns.len() != 0 {
        if ns.first().0.scope == scope && ns.first().0.name == name {
            assert(ns[0].0 == find_decl(ns, scope, name)->Some_0.0);
        } else {
            lemma_find_decl_mem(ns.drop_first(), scope, name);
            match find_decl(ns.drop_first(), scope, name) {
                Option::Some(e) => {
                    let i = choose|i: int|
                        0 <= i < ns.drop_first().len() && (#[trigger] ns.drop_first()[i]).0 == e.0;
                    assert(ns[i + 1].0 == e.0);
                },
                Option::None => {},
            }
        }
    }
}

/// A resolved path is the path of some entry of the table.
pub proof fn lemma_resolve_model_mem(ns: Seq<(PathV, NamedV)>, scope: ScopeV, name: Seq<char>)
    ensures
        match resolve_model(ns, scope, name) {
            Option::Some(p) => ns_contains(ns, p),
            Option::None => true,
        },
    decreases scope.len(),
{
    lemma_find_decl_mem(ns, scope, name);
    match find_decl(ns, scope, name) {
        Option::Some(_) => {},
        Option::None => {
            if scope.len() != 0 {
                lemma_resolve_model_mem(ns, scope.drop_last(), name);
            }
        },
    }
}

/// No entry of the schema carries the terminal name `name`.
pub open spec fn schema_lacks_name(s: ast::SchemaV, name: Seq<char>) -> bool {
    &&& forall|j: int| 0 <= j < s.entities.len() ==> (#[trigger] s.entities[j]).name != name
    &&& forall|j: int| 0 <= j < s.types.len() ==> (#[trigger] s.types[j]).name != name
}

proof fn lemma_ns_model_lacks_name(schemas: Seq<ast::SchemaV>, name: Seq<char>)
    requires
        forall|i: int| 0 <= i < schemas.len() ==> schema_lacks_name(#[trigger] schemas[i], name),
    ensures
        forall|i: int|
            0 <= i < ns_model(schemas).len() ==> (#[trigger] ns_model(schemas)[i]).0.name != name,
    decreases schemas.len(),
{
    if schemas.len() != 0 {
        lemma_ns_model_lacks_name(schemas.drop_last(), name);
        let s = schemas.last();
        assert(schema_lacks_name(s, name));
        let m = ns_model(schemas);
        let pre = ns_model(schemas.drop_last());
        assert forall|i: int| 0 <= i < m.len() implies (#[trigger] m[i]).0.name != name by {
            if i >= pre.len() {
                let k = i - pre.len();
                assert(m[i] == schema_decls(s)[k]);
                if k < entity_decls(s).len() {
                    assert(schema_decls(s)[k] == entity_decls(s)[k]);
                    assert(s.entities[k].name != name);
                } else {
                    let t = k - entity_decls(s).len();
                    assert(schema_decls(s)[k] == type_decls(s)[t]);
                    assert(s.types[t].name != name);
                }
            }
        }
    }
}

proof fn lemma_find_decl_absent(ns: Seq<(PathV, NamedV)>, scope: ScopeV, name: Seq<char>)
    requires
        forall|i: int| 0 <= i < ns.len() ==> (#[trigger] ns[i]).0.name != name,
    ensures
        find_decl(ns, scope, name) is None,
    decreases ns.len(),
{
    if ns.len() != 0 {
        assert(ns[0].0.name != name);
        assert forall|i: int| 0 <= i < ns.drop_first().len() implies (#[trigger] ns.drop_first()[i]).0.name
            != name by {
            assert(ns.drop_first()[i] == ns[i + 1]);
        }
        lemma_find_decl_absent(ns.drop_first(), scope, name);
    }
}

proof fn lemma_resolve_model_absent(ns: Seq<(PathV, NamedV)>, scope: ScopeV, name: Seq<char>)
    requires
        forall|i: int| 0 <= i < ns.len() ==> (#[trigger] ns[i]).0.name != name,
    ensures
        resolve_model(ns, scope, name) is None,
    decreases scope.len(),
{
    lemma_find_decl_absent(ns, scope, name);
    if scope.len() != 0 {
        lemma_resolve_model_absent(ns, scope.drop_last(), name);
    }
}

/// Law: a name that no declaration of any schema carries does not resolve,
/// from any scope.
pub proof fn lemma_unresolved_name(schemas: Seq<ast::SchemaV>, scope: ScopeV, name: Seq<char>)
    requires
        forall|i: int| 0 <= i < schemas.len() ==> schema_lacks_name(#[trigger] schemas[i], name),
    ensures
        resolve_model(ns_model(schemas), scope, name) is None,
{
    lemma_ns_model_lacks_name(schemas, name);
    lemma_resolve_model_absent(ns_model(schemas), scope, name);
}

/// The view of the table's backing entries.
pub open spec fn entries_view(s: Seq<(Path, Named)>) -> Seq<(PathV, NamedV)> {
    s.map_values(|e: (Path, Named)| (e.0@, e.1@))
}

/// The global symbol table, built once from the syntax tree and read-only
/// afterwards.
#[derive(Debug)]
pub struct Namespace {
    entries: Vec<(Path, Named)>,
}

impl View for Namespace {
    type V = Seq<(PathV, NamedV)>;

    closed spec fn view(&self) -> Seq<(PathV, NamedV)> {
        entries_view(self.entries@)
    }
}

impl Namespace {
    /// Walks every schema and every declaration within it, recording a
    /// (path, payload) entry for each.  Never fails.
    pub fn new(st: &ast::SyntaxTree) -> (r: Namespace)
        ensures
            r@ == ns_model(st@),
            ns_wf(r@),
    {
        let mut entries: Vec<(Path, Named)> = Vec::new();
        let root = Scope::root();
        let n = st.schemas.len();
        assert(entries_view(entries@) =~= ns_model(st@.take(0)));
        let mut i: usize = 0;
        while i < n
            invariant
                i <= n,
                n == st.schemas@.len(),
                root@ == Seq::<(ScopeType, Seq<char>)>::empty(),
                entries_view(entries@) == ns_model(st@.take(i as int)),
                ns_wf(entries_view(entries@)),
            decreases n - i,
        {
            let schema = &st.schemas[i];
            let scope = root.pushed(ScopeType::Schema, &schema.name);
            proof {
                assert(scope@ =~= schema_scope(schema@.name));
                assert(st@[i as int] == schema@);
            }
            let ghost sv = schema@;
            let ghost base = entries_view(entries@);
            let ne = schema.entities.len();
            let mut j: usize = 0;
            assert(base + entity_decls(sv).take(0) =~= base);
            while j < ne
                invariant
                    j <= ne,
                    ne == schema.entities@.len(),
                    sv == schema@,
                    scope@ == schema_scope(sv.name),
                    entries_view(entries@) == base + entity_decls(sv).take(j as int),
                    ns_wf(entries_view(entries@)),
                decreases ne - j,
            {
                let e = &schema.entities[j];
                let path = Path { scope: scope.clone(), name: e.name.clone(), ty: ScopeType::Entity };
                let named = Named::Entity(e.clone());
                proof {
                    assert(path@ =~= entity_path(sv.name, sv.entities[j as int].name));
                    assert(named@ == NamedV::Entity(sv.entities[j as int]));
                    assert(entries_view(entries@.push((path, named))) =~= entries_view(entries@).push(
                        (path@, named@),
                    ));
                    assert(entity_decls(sv).take(j as int + 1) =~= entity_decls(sv).take(
                        j as int,
                    ).push(entity_decls(sv)[j as int]));
                    assert(base + entity_decls(sv).take(j as int + 1) =~= (base + entity_decls(
                        sv,
                    ).take(j as int)).push((path@, named@)));
                }
                entries.push((path, named));
                j += 1;
            }
            let ghost base2 = entries_view(entries@);
            let nt = schema.types.len();
            let mut j: usize = 0;
            assert(base2 + type_decls(sv).take(0) =~= base2);
            while j < nt
                invariant
                    j <= nt,
                    nt == schema.types@.len(),
                    sv == schema@,
                    scope@ == schema_scope(sv.name),
                    entries_view(entries@) == base2 + type_decls(sv).take(j as int),
                    ns_wf(entries_view(entries@)),
                decreases nt - j,
            {
                let t = &schema.types[j];
                let path = Path { scope: scope.clone(), name: t.name.clone(), ty: ScopeType::Type };
                let named = Named::Type(t.clone());
                proof {
                    assert(path@ =~= type_path(sv.name, sv.types[j as int].name));
                    assert(named@ == NamedV::Type(sv.types[j as int]));
                    assert(entries_view(entries@.push((path, named))) =~= entries_view(entries@).push(
                        (path@, named@),
                    ));
                    assert(type_decls(sv).take(j as int + 1) =~= type_decls(sv).take(j as int).push(
                        type_decls(sv)[j as int],
                    ));
                    assert(base2 + type_decls(sv).take(j as int + 1) =~= (base2 + type_decls(
                        sv,
                    ).take(j as int)).push((path@, named@)));
                }
                entries.push((path, named));
                j += 1;
            }
            proof {
                assert(entity_decls(sv).take(sv.entities.len() as int) =~= entity_decls(sv));
                assert(type_decls(sv).take(sv.types.len() as int) =~= type_decls(sv));
                assert(entries_view(entries@) =~= ns_model(st@.take(i as int)) + schema_decls(sv));
                assert(st@.take(i as int + 1).drop_last() =~= st@.take(i as int));
                assert(st@.take(i as int + 1).last() == sv);
            }
            i += 1;
        }
        assert(st@.take(n as int) =~= st@);
        Namespace { entries }
    }

    /// How many declarations the table holds.
    pub fn len(&self) -> (r: usize)
        ensures
            r == self@.len(),
    {
        self.entries.len()
    }

    /// Index of the first entry declared under `scope` with name `name`.
    fn find(&self, scope: &Scope, name: &String) -> (r: Option<usize>)
        ensures
            match r {
                Option::Some(i) => i < self.entries@.len() && find_decl(self@, scope@, name@)
                    == Option::Some(self@[i as int]),
                Option::None => find_decl(self@, scope@, name@) is None,
            },
    {
        let n = self.entries.len();
        let mut i: usize = 0;
        assert(self@.skip(0) =~= self@);
        while i < n
            invariant
                i <= n,
                n == self.entries@.len(),
                find_decl(self@, scope@, name@) == find_decl(
                    self@.skip(i as int),
                    scope@,
                    name@,
                ),
            decreases n - i,
        {
            let e = &self.entries[i];
            proof {
                assert(self@.skip(i as int).first() == self@[i as int]);
                assert(self@[i as int] == (e.0@, e.1@));
            }
            if e.0.scope == *scope && e.0.name == *name {
                return Option::Some(i);
            }
            proof {
                assert(self@.skip(i as int).drop_first() =~= self@.skip(i as int + 1));
            }
            i += 1;
        }
        proof {
            assert(self@.skip(n as int) =~= Seq::<(PathV, NamedV)>::empty());
        }
        Option::None
    }

    /// Exact lookup of a path.
    pub fn get(&self, path: &Path) -> (r: Result<&Named, SemanticError>)
        ensures
            match r {
                Result::Ok(n) => get_model(self@, path@) == Result::Ok::<NamedV, SemanticErrorV>(
                    n@,
                ),
                Result::Err(e) => get_model(self@, path@) == Result::Err::<NamedV, SemanticErrorV>(
                    e@,
                ),
            },
    {
        match self.find(&path.scope, &path.name) {
            Option::Some(i) => {
                let e = &self.entries[i];
                if e.0.ty == path.ty {
                    Result::Ok(&e.1)
                } else {
                    let err = SemanticError::InvalidPath(path.clone());
                    proof {
                        assert(err@ =~= SemanticErrorV::InvalidPath(path@));
                    }
                    Result::Err(err)
                }
            },
            Option::None => {
                let err = SemanticError::TypeNotFound {
                    name: path.name.clone(),
                    scope: path.scope.clone(),
                };
                proof {
                    assert(err@ =~= SemanticErrorV::TypeNotFound {
                        name: path@.name,
                        scope: path@.scope,
                    });
                }
                Result::Err(err)
            },
        }
    }

    /// Resolves the bare `name` referenced from within `scope` to the path
    /// it denotes: the nearest enclosing scope that declares `name` wins.
    pub fn resolve(&self, scope: &Scope, name: &String) -> (r: Result<Path, SemanticError>)
        ensures
            match r {
                Result::Ok(p) => resolve_model(self@, scope@, name@) == Option::Some(p@)
                    && ns_contains(self@, p@),
                Result::Err(e) => resolve_model(self@, scope@, name@) is None && e@
                    == SemanticErrorV::TypeNotFound { name: name@, scope: scope@ },
            },
    {
        let mut k = scope.segments.len();
        assert(scope@.take(k as int) =~= scope@);
        loop
            invariant
                k <= scope.segments@.len(),
                resolve_model(self@, scope@, name@) == resolve_model(
                    self@,
                    scope@.take(k as int),
                    name@,
                ),
            decreases k,
        {
            let prefix = scope.prefix(k);
            match self.find(&prefix, name) {
                Option::Some(i) => {
                    let p = self.entries[i].0.clone();
                    proof {
                        lemma_find_decl_mem(self@, prefix@, name@);
                        assert(p@ == self@[i as int].0);
                    }
                    return Result::Ok(p);
                },
                Option::None => {
                    if k == 0 {
                        let err = SemanticError::TypeNotFound {
                            name: name.clone(),
                            scope: scope.clone(),
                        };
                        proof {
                            assert(scope@.take(0).len() == 0);
                            assert(err@ =~= SemanticErrorV::TypeNotFound {
                                name: name@,
                                scope: scope@,
                            });
                        }
                        return Result::Err(err);
                    }
                    proof {
                        assert(scope@.take(k as int).drop_last() =~= scope@.take(k as int - 1));
                    }
                    k -= 1;
                },
            }
        }
    }
}

} // verus!
