//! The supertype/subtype relation graph, built once from the syntax tree
//! and read-only afterwards.
//!
//! For every entity declaration that declares one or more supertypes, each
//! supertype name is resolved to a path and an edge (supertype path,
//! subtype path) is recorded.  An entity is a supertype exactly when it
//! appears on the left of some edge.  Cyclic supertype declarations are
//! rejected: the graph is never built in an inconsistent state.

use vstd::prelude::*;

use crate::ast;
use crate::namespace::{entity_path, resolve_model, schema_scope, Namespace, NamedV};
use crate::scope::{Path, PathV, Scope, ScopeType, ScopeV};
use crate::{SemanticError, SemanticErrorV};

verus! {

/// The edges contributed by one entity's supertype name list, resolved in
/// order; the first name that does not resolve to an entity fails the
/// whole construction.
pub open spec fn edges_of_names(
    ns: Seq<(PathV, NamedV)>,
    scope: ScopeV,
    sub: PathV,
    names: Seq<Seq<char>>,
) -> Result<Seq<(PathV, PathV)>, SemanticErrorV>
    decreases names.len(),
{
    if names.len() == 0 {
        Result::Ok(Seq::empty())
    } else {
        match resolve_model(ns, scope, names.first()) {
            Option::None => Result::Err(
                SemanticErrorV::TypeNotFound { name: names.first(), scope },
            ),
            Option::Some(p) => if p.ty != ScopeType::Entity {
                Result::Err(SemanticErrorV::InvalidPath(p))
            } else {
                match edges_of_names(ns, scope, sub, names.drop_first()) {
                    Result::Err(e) => Result::Err(e),
                    Result::Ok(rest) => Result::Ok(seq![(p, sub)] + rest),
                }
            },
        }
    }
}

/// The edges contributed by the entities of one schema, in order.
pub open spec fn edges_of_entities(
    ns: Seq<(PathV, NamedV)>,
    schema_name: Seq<char>,
    entities: Seq<ast::EntityV>,
) -> Result<Seq<(PathV, PathV)>, SemanticErrorV>
    decreases entities.len(),
{
    if entities.len() == 0 {
        Result::Ok(Seq::empty())
    } else {
        let e = entities.first();
        match edges_of_names(
            ns,
            schema_scope(schema_name),
            entity_path(schema_name, e.name),
            e.supertypes,
        ) {
            Result::Err(er) => Result::Err(er),
            Result::Ok(es) => match edges_of_entities(ns, schema_name, entities.drop_first()) {
                Result::Err(er) => Result::Err(er),
                Result::Ok(rest) => Result::Ok(es + rest),
            },
        }
    }
}

/// All edges declared by the input, one schema after the other; the first
/// unresolvable or non-entity supertype name fails the construction.
pub open spec fn edges_model(
    ns: Seq<(PathV, NamedV)>,
    schemas: Seq<ast::SchemaV>,
) -> Result<Seq<(PathV, PathV)>, SemanticErrorV>
    decreases schemas.len(),
{
    if schemas.len() == 0 {
        Result::Ok(Seq::empty())
    } else {
        match edges_of_entities(ns, schemas.first().name, schemas.first().entities) {
            Result::Err(er) => Result::Err(er),
            Result::Ok(es) => match edges_model(ns, schemas.drop_first()) {
                Result::Err(er) => Result::Err(er),
                Result::Ok(rest) => Result::Ok(es + rest),
            },
        }
    }
}

/// `p` is a supertype: it stands on the left of some edge.
pub open spec fn graph_has_super(g: Seq<(PathV, PathV)>, p: PathV) -> bool {
    exists|i: int| 0 <= i < g.len() && (#[trigger] g[i]).0 == p
}

/// The set of path views a sequence of paths stands for.
pub open spec fn path_set(v: Seq<Path>) -> Set<PathV> {
    Set::new(|q: PathV| exists|i: int| 0 <= i < v.len() && (#[trigger] v[i])@ == q)
}

/// The direct subtypes of the members of `s`.
pub open spec fn succs(g: Seq<(PathV, PathV)>, s: Set<PathV>) -> Set<PathV> {
    Set::new(
        |q: PathV| exists|i: int| 0 <= i < g.len() && s.contains((#[trigger] g[i]).0) && g[i].1 == q,
    )
}

/// `k` rounds of closing `s` under direct subtypes.
pub open spec fn reach_k(g: Seq<(PathV, PathV)>, s: Set<PathV>, k: nat) -> Set<PathV>
    decreases k,
{
    if k == 0 {
        s
    } else {
        let t = reach_k(g, s, (k - 1) as nat);
        t.union(succs(g, t))
    }
}

/// `p` lies on a supertype cycle: it reaches itself in one or more steps.
/// `g.len()` closing rounds are enough to reach everything reachable, since
/// every round that adds nothing more has already closed the set.
pub open spec fn on_cycle(g: Seq<(PathV, PathV)>, p: PathV) -> bool {
    reach_k(g, succs(g, Set::empty().insert(p)), g.len() as nat).contains(p)
}

/// The first edge key (in edge order) that lies on a cycle, from index `i` on.
pub open spec fn first_cycle_key(g: Seq<(PathV, PathV)>, i: int) -> Option<PathV>
    decreases g.len() - i,
{
    if i < 0 || i >= g.len() {
        Option::None
    } else if on_cycle(g, g[i].0) {
        Option::Some(g[i].0)
    } else {
        first_cycle_key(g, i + 1)
    }
}

/// The view of the graph's backing edge list.
pub open spec fn edges_view(s: Seq<(Path, Path)>) -> Seq<(PathV, PathV)> {
    s.map_values(|e: (Path, Path)| (e.0@, e.1@))
}

/// The direct subtypes contributed by the first `m` edges.
pub open spec fn succs_upto(g: Seq<(PathV, PathV)>, s: Set<PathV>, m: int) -> Set<PathV> {
    Set::new(
        |q: PathV| exists|i: int| 0 <= i < m && s.contains((#[trigger] g[i]).0) && g[i].1 == q,
    )
}

proof fn lemma_path_set_push(v: Seq<Path>, x: Path)
    ensures
        path_set(v.push(x)) == path_set(v).insert(x@),
{
    assert forall|q: PathV| path_set(v.push(x)).contains(q) implies path_set(v).insert(
        x@,
    ).contains(q) by {
        let i = choose|i: int| 0 <= i < v.push(x).len() && (#[trigger] v.push(x)[i])@ == q;
        if i < v.len() {
            assert(v[i]@ == q);
        }
    }
    assert forall|q: PathV| path_set(v).insert(x@).contains(q) implies path_set(
        v.push(x),
    ).contains(q) by {
        if q == x@ {
            assert(v.push(x)[v.len() as int]@ == q);
        } else {
            let i = choose|i: int| 0 <= i < v.len() && (#[trigger] v[i])@ == q;
            assert(v.push(x)[i]@ == q);
        }
    }
    assert(path_set(v.push(x)) =~= path_set(v).insert(x@));
}

/// Whether some recorded path stands for `p`.
fn vec_contains(v: &Vec<Path>, p: &Path) -> (b: bool)
    ensures
        b == path_set(v@).contains(p@),
{
    let n = v.len();
    let mut i: usize = 0;
    while i < n
        invariant
            i <= n,
            n == v@.len(),
            forall|j: int| 0 <= j < i ==> (#[trigger] v@[j])@ != p@,
        decreases n - i,
    {
        if v[i] == *p {
            assert(v@[i as int]@ == p@);
            assert(path_set(v@).contains(p@));
            return true;
        }
        i += 1;
    }
    assert(!path_set(v@).contains(p@));
    false
}

/// One closing round: `cur` plus the direct subtypes of its members.
fn close_step(g: &Vec<(Path, Path)>, cur: &Vec<Path>) -> (next: Vec<Path>)
    ensures
        path_set(next@) == path_set(cur@).union(succs(edges_view(g@), path_set(cur@))),
{
    let ghost gv = edges_view(g@);
    let ghost s = path_set(cur@);
    let mut next = cur.clone();
    proof {
        assert forall|q: PathV| path_set(next@).contains(q) implies s.contains(q) by {
            let i = choose|i: int| 0 <= i < next@.len() && (#[trigger] next@[i])@ == q;
            assert(cloned::<Path>(cur@[i], next@[i]));
            assert(cur@[i]@ == q);
        }
        assert forall|q: PathV| s.contains(q) implies path_set(next@).contains(q) by {
            let i = choose|i: int| 0 <= i < cur@.len() && (#[trigger] cur@[i])@ == q;
            assert(cloned::<Path>(cur@[i], next@[i]));
            assert(next@[i]@ == q);
        }
        assert(path_set(next@) =~= s);
        assert(path_set(next@) =~= s.union(succs_upto(gv, s, 0)));
    }
    let n = g.len();
    let mut m: usize = 0;
    while m < n
        invariant
            m <= n,
            n == g@.len(),
            gv == edges_view(g@),
            s == path_set(cur@),
            path_set(next@) == s.union(succs_upto(gv, s, m as int)),
        decreases n - m,
    {
        let e = &g[m];
        proof {
            assert(gv[m as int] == (e.0@, e.1@));
        }
        if vec_contains(cur, &e.0) {
            if !vec_contains(&next, &e.1) {
                let ghost old_next = next@;
                next.push(e.1.clone());
                proof {
                    lemma_path_set_push(old_next, next@[next@.len() - 1]);
                    assert(next@.drop_last() =~= old_next);
                    assert(path_set(next@) == path_set(old_next).insert(e.1@));
                    assert(path_set(next@) =~= s.union(succs_upto(gv, s, m as int + 1)));
                }
            } else {
                proof {
                    assert(path_set(next@) =~= s.union(succs_upto(gv, s, m as int + 1)));
                }
            }
        } else {
            proof {
                assert(succs_upto(gv, s, m as int + 1) =~= succs_upto(gv, s, m as int));
            }
        }
        m += 1;
    }
    proof {
        assert(succs_upto(gv, s, n as int) =~= succs(gv, s));
    }
    next
}

/// Whether `p` reaches itself along recorded edges in one or more steps.
fn on_cycle_exec(g: &Vec<(Path, Path)>, p: &Path) -> (b: bool)
    ensures
        b == on_cycle(edges_view(g@), p@),
{
    let ghost gv = edges_view(g@);
    let ghost single = Set::<PathV>::empty().insert(p@);
    let mut cur: Vec<Path> = Vec::new();
    proof {
        assert(path_set(cur@) =~= succs_upto(gv, single, 0));
    }
    let n = g.len();
    let mut m: usize = 0;
    while m < n
        invariant
            m <= n,
            n == g@.len(),
            gv == edges_view(g@),
            single == Set::<PathV>::empty().insert(p@),
            path_set(cur@) == succs_upto(gv, single, m as int),
        decreases n - m,
    {
        let e = &g[m];
        proof {
            assert(gv[m as int] == (e.0@, e.1@));
        }
        if e.0 == *p {
            let ghost old_cur = cur@;
            cur.push(e.1.clone());
            proof {
                lemma_path_set_push(old_cur, cur@[cur@.len() - 1]);
                assert(cur@.drop_last() =~= old_cur);
                assert(path_set(cur@) =~= succs_upto(gv, single, m as int + 1));
            }
        } else {
            proof {
                assert(succs_upto(gv, single, m as int + 1) =~= succs_upto(gv, single, m as int));
            }
        }
        m += 1;
    }
    proof {
        assert(succs_upto(gv, single, n as int) =~= succs(gv, single));
    }
    let rounds = g.len();
    let mut r: usize = 0;
    while r < rounds
        invariant
            r <= rounds,
            rounds == g@.len(),
            gv == edges_view(g@),
            single == Set::<PathV>::empty().insert(p@),
            path_set(cur@) == reach_k(gv, succs(gv, single), r as nat),
        decreases rounds - r,
    {
        cur = close_step(g, &cur);
        r += 1;
    }
    vec_contains(&cur, p)
}

/// The first recorded supertype that lies on a cycle, in edge order.
fn find_cycle_key(g: &Vec<(Path, Path)>) -> (r: Option<Path>)
    ensures
        match r {
            Option::Some(p) => first_cycle_key(edges_view(g@), 0) == Option::Some(p@),
            Option::None => first_cycle_key(edges_view(g@), 0) is None,
        },
{
    let ghost gv = edges_view(g@);
    let n = g.len();
    let mut i: usize = 0;
    while i < n
        invariant
            i <= n,
            n == g@.len(),
            gv == edges_view(g@),
            first_cycle_key(gv, 0) == first_cycle_key(gv, i as int),
        decreases n - i,
    {
        let e = &g[i];
        proof {
            assert(gv[i as int] == (e.0@, e.1@));
        }
        if on_cycle_exec(g, &e.0) {
            let p = e.0.clone();
            return Option::Some(p);
        }
        i += 1;
    }
    Option::None
}

/// The graph of entity supertype/subtype relations: the recorded edges
/// (supertype path, subtype path), in declaration order.
#[derive(Debug)]
pub struct SubSuperGraph {
    super_to_sub: Vec<(Path, Path)>,
}

impl View for SubSuperGraph {
    type V = Seq<(PathV, PathV)>;

    closed spec fn view(&self) -> Seq<(PathV, PathV)> {
        edges_view(self.super_to_sub@)
    }
}

impl SubSuperGraph {
    /// Whether `path` is recorded as a supertype of anything.
    pub fn is_supertype(&self, path: &Path) -> (r: bool)
        ensures
            r == graph_has_super(self@, path@),
    {
        let n = self.super_to_sub.len();
        let mut i: usize = 0;
        while i < n
            invariant
                i <= n,
                n == self.super_to_sub@.len(),
                forall|j: int| 0 <= j < i ==> (#[trigger] self@[j]).0 != path@,
            decreases n - i,
        {
            let e = &self.super_to_sub[i];
            if e.0 == *path {
                assert(self@[i as int].0 == path@);
                return true;
            }
            assert(self@[i as int] == (e.0@, e.1@));
            i += 1;
        }
        false
    }

    /// Resolves every declared supertype name and records the edges; fails
    /// on the first name that does not resolve to an entity, and on a
    /// cyclic supertype declaration.
    pub fn new(ns: &Namespace, st: &ast::SyntaxTree) -> (r: Result<SubSuperGraph, SemanticError>)
        ensures
            match r {
                Result::Ok(g) => edges_model(ns@, st@) == Result::Ok::<_, SemanticErrorV>(g@)
                    && first_cycle_key(g@, 0) is None,
                Result::Err(e) => match edges_model(ns@, st@) {
                    Result::Err(e2) => e@ == e2,
                    Result::Ok(es) => first_cycle_key(es, 0) == Option::Some(
                        match e@ {
                            SemanticErrorV::InvalidPath(p) => p,
                            _ => arbitrary(),
                        },
                    ) && e@ is InvalidPath,
                },
            },
    {
        let mut edges: Vec<(Path, Path)> = Vec::new();
        let root = Scope::root();
        let n = st.schemas.len();
        assert(st@.skip(0) =~= st@);
        let mut i: usize = 0;
        while i < n
            invariant
                i <= n,
                n == st.schemas@.len(),
                root@ == Seq::<(ScopeType, Seq<char>)>::empty(),
                edges_model(ns@, st@) == match edges_model(ns@, st@.skip(i as int)) {
                    Result::Ok(rest) => Result::Ok::<_, SemanticErrorV>(edges_view(edges@) + rest),
                    Result::Err(e) => Result::Err(e),
                },
            decreases n - i,
        {
            let schema = &st.schemas[i];
            let scope = root.pushed(ScopeType::Schema, &schema.name);
            proof {
                assert(scope@ =~= schema_scope(schema@.name));
                assert(st@[i as int] == schema@);
                assert(st@.skip(i as int).first() == st@[i as int]);
                assert(st@.skip(i as int).drop_first() =~= st@.skip(i as int + 1));
            }
            let ghost sv = schema@;
            let ghost base = edges_view(edges@);
            let ne = schema.entities.len();
            let mut j: usize = 0;
            assert(sv.entities.skip(0) =~= sv.entities);
            while j < ne
                invariant
                    j <= ne,
                    ne == schema.entities@.len(),
                    sv == schema@,
                    scope@ == schema_scope(sv.name),
                    base.len() <= edges_view(edges@).len(),
                    edges_view(edges@).take(base.len() as int) == base,
                    edges_model(ns@, st@) == match edges_model(ns@, st@.skip(i as int)) {
                        Result::Ok(rest) => Result::Ok::<_, SemanticErrorV>(base + rest),
                        Result::Err(e) => Result::Err(e),
                    },
                    edges_model(ns@, st@.skip(i as int)) == match edges_of_entities(
                        ns@,
                        sv.name,
                        sv.entities,
                    ) {
                        Result::Ok(es) => match edges_model(ns@, st@.skip(i as int + 1)) {
                            Result::Ok(rest) => Result::Ok::<_, SemanticErrorV>(es + rest),
                            Result::Err(e) => Result::Err(e),
                        },
                        Result::Err(e) => Result::Err(e),
                    },
                    edges_of_entities(ns@, sv.name, sv.entities) == match edges_of_entities(
                        ns@,
                        sv.name,
                        sv.entities.skip(j as int),
                    ) {
                        Result::Ok(rest) => Result::Ok::<_, SemanticErrorV>(
                            edges_view(edges@).skip(base.len() as int) + rest,
                        ),
                        Result::Err(e) => Result::Err(e),
                    },
                decreases ne - j,
            {
                let e = &schema.entities[j];
                let sub = Path { scope: scope.clone(), name: e.name.clone(), ty: ScopeType::Entity };
                proof {
                    assert(sub@ =~= entity_path(sv.name, sv.entities[j as int].name));
                    assert(sv.entities.skip(j as int).first() == sv.entities[j as int]);
                    assert(sv.entities.skip(j as int).drop_first() =~= sv.entities.skip(
                        j as int + 1,
                    ));
                }
                let ghost ev = sv.entities[j as int];
                let ghost base2 = edges_view(edges@);
                let nn = e.supertypes.len();
                let mut k: usize = 0;
                assert(ev.supertypes.skip(0) =~= ev.supertypes);
                assert(base2.skip(base2.len() as int) =~= Seq::<(PathV, PathV)>::empty());
                while k < nn
                    invariant
                        k <= nn,
                        nn == e.supertypes@.len(),
                        ev == sv.entities[j as int],
                        ev.supertypes == crate::ast::names_view(e.supertypes@),
                        sub@ == entity_path(sv.name, ev.name),
                        scope@ == schema_scope(sv.name),
                        base.len() <= base2.len(),
                        base2.len() <= edges_view(edges@).len(),
                        edges_view(edges@).take(base2.len() as int) == base2,
                        base2.take(base.len() as int) == base,
                        edges_model(ns@, st@) == match edges_model(ns@, st@.skip(i as int)) {
                            Result::Ok(rest) => Result::Ok::<_, SemanticErrorV>(base + rest),
                            Result::Err(er) => Result::Err(er),
                        },
                        edges_model(ns@, st@.skip(i as int)) == match edges_of_entities(
                            ns@,
                            sv.name,
                            sv.entities,
                        ) {
                            Result::Ok(es) => match edges_model(ns@, st@.skip(i as int + 1)) {
                                Result::Ok(rest) => Result::Ok::<_, SemanticErrorV>(es + rest),
                                Result::Err(er) => Result::Err(er),
                            },
                            Result::Err(er) => Result::Err(er),
                        },
                        edges_of_entities(ns@, sv.name, sv.entities) == match edges_of_entities(
                            ns@,
                            sv.name,
                            sv.entities.skip(j as int),
                        ) {
                            Result::Ok(rest) => Result::Ok::<_, SemanticErrorV>(
                                base2.skip(base.len() as int) + rest,
                            ),
                            Result::Err(er) => Result::Err(er),
                        },
                        edges_of_entities(ns@, sv.name, sv.entities.skip(j as int)) == match
                            edges_of_names(ns@, scope@, sub@, ev.supertypes) {
                            Result::Ok(es) => match edges_of_entities(
                                ns@,
                                sv.name,
                                sv.entities.skip(j as int + 1),
                            ) {
                                Result::Ok(rest) => Result::Ok::<_, SemanticErrorV>(es + rest),
                                Result::Err(er) => Result::Err(er),
                            },
                            Result::Err(er) => Result::Err(er),
                        },
                        edges_of_names(ns@, scope@, sub@, ev.supertypes) == match edges_of_names(
                            ns@,
                            scope@,
                            sub@,
                            ev.supertypes.skip(k as int),
                        ) {
                            Result::Ok(rest) => Result::Ok::<_, SemanticErrorV>(
                                edges_view(edges@).skip(base2.len() as int) + rest,
                            ),
                            Result::Err(er) => Result::Err(er),
                        },
                    decreases nn - k,
                {
                    let sup_name = &e.supertypes[k];
                    proof {
                        assert(ev.supertypes[k as int] == sup_name@);
                        assert(ev.supertypes.skip(k as int).first() == ev.supertypes[k as int]);
                        assert(ev.supertypes.skip(k as int).drop_first() =~= ev.supertypes.skip(
                            k as int + 1,
                        ));
                    }
                    match ns.resolve(&scope, sup_name) {
                        Result::Err(er) => {
                            proof {
                                assert(edges_of_names(ns@, scope@, sub@, ev.supertypes)
                                    == Result::<Seq<(PathV, PathV)>, SemanticErrorV>::Err(er@));
                                assert(edges_model(ns@, st@) == Result::<
                                    Seq<(PathV, PathV)>,
                                    SemanticErrorV,
                                >::Err(er@));
                            }
                            return Result::Err(er);
                        },
                        Result::Ok(p) => {
                            if p.ty != ScopeType::Entity {
                                let er = SemanticError::InvalidPath(p);
                                proof {
                                    assert(er@ == SemanticErrorV::InvalidPath(
                                        resolve_model(ns@, scope@, sup_name@)->Some_0,
                                    ));
                                    assert(edges_of_names(ns@, scope@, sub@, ev.supertypes)
                                        == Result::<Seq<(PathV, PathV)>, SemanticErrorV>::Err(er@));
                                    assert(edges_model(ns@, st@) == Result::<
                                        Seq<(PathV, PathV)>,
                                        SemanticErrorV,
                                    >::Err(er@));
                                }
                                return Result::Err(er);
                            }
                            let sub2 = sub.clone();
                            let ghost old_edges = edges_view(edges@);
                            edges.push((p, sub2));
                            k += 1;
                            proof {
                                assert(edges_view(edges@) =~= old_edges.push((p@, sub@)));
                                assert(edges_view(edges@).take(base2.len() as int) =~= base2);
                                assert(edges_view(edges@).skip(base2.len() as int) =~= old_edges.skip(
                                    base2.len() as int,
                                ).push((p@, sub@)));
                                match edges_of_names(ns@, scope@, sub@, ev.supertypes.skip(k as int)) {
                                    Result::Ok(rest) => {
                                        assert(old_edges.skip(base2.len() as int) + (seq![(p@, sub@)]
                                            + rest) =~= edges_view(edges@).skip(base2.len() as int)
                                            + rest);
                                    },
                                    Result::Err(_) => {},
                                }
                            }
                        },
                    }
                }
                proof {
                    assert(ev.supertypes.skip(nn as int) =~= Seq::<Seq<char>>::empty());
                    assert(edges_view(edges@).skip(base2.len() as int) + Seq::<
                        (PathV, PathV),
                    >::empty() =~= edges_view(edges@).skip(base2.len() as int));
                    // edges_of_names over the whole list is now fixed
                    match edges_of_entities(ns@, sv.name, sv.entities.skip(j as int + 1)) {
                        Result::Ok(rest) => {
                            assert(base2.skip(base.len() as int) + (edges_view(edges@).skip(
                                base2.len() as int,
                            ) + rest) =~= edges_view(edges@).skip(base.len() as int) + rest);
                        },
                        Result::Err(_) => {},
                    }
                    assert(edges_view(edges@).take(base.len() as int) =~= base);
                }
                j += 1;
            }
            proof {
                assert(sv.entities.skip(ne as int) =~= Seq::<ast::EntityV>::empty());
                assert(edges_view(edges@).skip(base.len() as int) + Seq::<(PathV, PathV)>::empty()
                    =~= edges_view(edges@).skip(base.len() as int));
                match edges_model(ns@, st@.skip(i as int + 1)) {
                    Result::Ok(rest) => {
                        assert(base + (edges_view(edges@).skip(base.len() as int) + rest)
                            =~= edges_view(edges@) + rest);
                    },
                    Result::Err(_) => {},
                }
            }
            i += 1;
        }
        proof {
            assert(st@.skip(n as int) =~= Seq::<ast::SchemaV>::empty());
            assert(edges_view(edges@) + Seq::<(PathV, PathV)>::empty() =~= edges_view(edges@));
        }
        match find_cycle_key(&edges) {
            Option::Some(p) => Result::Err(SemanticError::InvalidPath(p)),
            Option::None => Result::Ok(SubSuperGraph { super_to_sub: edges }),
        }
    }
}

} // verus!
