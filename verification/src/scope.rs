//! Hierarchical naming contexts ([`Scope`]) and fully qualified symbol
//! identities ([`Path`]).
//!
//! A scope is an ordered sequence of (container kind, name) segments rooted
//! at the distinguished empty root scope.  A path is a scope plus a terminal
//! name and the terminal's own kind; it is the unique key of both the symbol
//! table and the supertype graph.  Scopes and paths are value objects: they
//! are compared structurally and never mutated in place.

use vstd::prelude::*;

verus! {

/// The kind of container (or terminal declaration) a scope segment stands for.
#[derive(Debug, Clone, Copy, PartialEq, Eq, Structural)]
pub enum ScopeType {
    Entity,
    Schema,
    Type,
    Function,
    Procedure,
    Rule,
}

/// One segment of a scope: the kind of the container and its name.
#[derive(Debug)]
pub struct ScopeSegment {
    pub ty: ScopeType,
    pub name: String,
}

impl Clone for ScopeSegment {
    fn clone(&self) -> (r: Self)
        ensures
            r@ == self@,
    {
        ScopeSegment { ty: self.ty, name: self.name.clone() }
    }
}

impl View for ScopeSegment {
    type V = (ScopeType, Seq<char>);

    open spec fn view(&self) -> (ScopeType, Seq<char>) {
        (self.ty, self.name@)
    }
}

impl PartialEq for ScopeSegment {
    fn eq(&self, other: &Self) -> bool {
        self.ty == other.ty && self.name == other.name
    }
}

impl vstd::std_specs::cmp::PartialEqSpecImpl for ScopeSegment {
    open spec fn obeys_eq_spec() -> bool {
        true
    }

    open spec fn eq_spec(&self, other: &Self) -> bool {
        self@ == other@
    }
}

/// Mathematical model of a scope: its segment views, in order.
pub type ScopeV = Seq<(ScopeType, Seq<char>)>;

/// A hierarchical naming context: an ordered sequence of segments.
#[derive(Debug)]
pub struct Scope {
    pub segments: Vec<ScopeSegment>,
}

impl Clone for Scope {
    fn clone(&self) -> (r: Self)
        ensures
            r@ == self@,
    {
        let segments = self.segments.clone();
        let r = Scope { segments };
        proof {
            assert forall|i: int| 0 <= i < r.segments@.len() implies r.segments@[i]@
                == self.segments@[i]@ by {
                assert(cloned::<ScopeSegment>(self.segments@[i], r.segments@[i]));
            }
            assert(r@ =~= self@);
        }
        r
    }
}

impl View for Scope {
    type V = ScopeV;

    open spec fn view(&self) -> ScopeV {
        self.segments@.map_values(|s: ScopeSegment| s@)
    }
}

impl PartialEq for Scope {
    fn eq(&self, other: &Self) -> (r: bool) {
        if self.segments.len() != other.segments.len() {
            assert(self@.len() != other@.len());
            return false;
        }
        let n = self.segments.len();
        let mut i: usize = 0;
        while i < n
            invariant
                i <= n,
                n == self.segments@.len(),
                n == other.segments@.len(),
                forall|j: int| 0 <= j < i ==> self.segments@[j]@ == other.segments@[j]@,
            decreases n - i,
        {
            if self.segments[i] != other.segments[i] {
                assert(self@[i as int] != other@[i as int]);
                return false;
            }
            i += 1;
        }
        assert(self@ =~= other@);
        true
    }
}

impl vstd::std_specs::cmp::PartialEqSpecImpl for Scope {
    open spec fn obeys_eq_spec() -> bool {
        true
    }

    open spec fn eq_spec(&self, other: &Self) -> bool {
        self@ == other@
    }
}

impl Scope {
    /// The empty root context.
    pub fn root() -> (r: Scope)
        ensures
            r@ == Seq::<(ScopeType, Seq<char>)>::empty(),
    {
        let r = Scope { segments: Vec::new() };
        assert(r@ =~= Seq::<(ScopeType, Seq<char>)>::empty());
        r
    }

    /// A new scope with one more segment appended; `self` is unaffected.
    pub fn pushed(&self, ty: ScopeType, name: &String) -> (r: Scope)
        ensures
            r@ == self@.push((ty, name@)),
    {
        let mut segments = self.segments.clone();
        segments.push(ScopeSegment { ty, name: name.clone() });
        let r = Scope { segments };
        assert(r@ =~= self@.push((ty, name@)));
        r
    }

    /// The prefix of `self` made of its first `k` segments.
    pub fn prefix(&self, k: usize) -> (r: Scope)
        requires
            k <= self.segments@.len(),
        ensures
            r@ == self@.take(k as int),
    {
        let mut segments: Vec<ScopeSegment> = Vec::new();
        let mut i: usize = 0;
        while i < k
            invariant
                i <= k,
                k <= self.segments@.len(),
                segments@.len() == i,
                forall|j: int| 0 <= j < i ==> segments@[j]@ == self.segments@[j]@,
            decreases k - i,
        {
            segments.push(self.segments[i].clone());
            i += 1;
        }
        let r = Scope { segments };
        assert(r@ =~= self@.take(k as int));
        r
    }
}

/// Mathematical model of a path: the container scope, the terminal name and
/// the terminal's kind.
#[verifier::ext_equal]
pub struct PathV {
    pub scope: ScopeV,
    pub name: Seq<char>,
    pub ty: ScopeType,
}

/// A fully qualified symbol identity: a container scope plus a terminal name
/// and the terminal's own kind.
#[derive(Debug)]
pub struct Path {
    /// Scope the declaration lives in.
    pub scope: Scope,
    /// Name of the declaration itself.
    pub name: String,
    /// Kind of the declaration itself.
    pub ty: ScopeType,
}

impl Clone for Path {
    fn clone(&self) -> (r: Self)
        ensures
            r@ == self@,
    {
        let r = Path { scope: self.scope.clone(), name: self.name.clone(), ty: self.ty };
        assert(r@ =~= self@);
        r
    }
}

impl View for Path {
    type V = PathV;

    open spec fn view(&self) -> PathV {
        PathV { scope: self.scope@, name: self.name@, ty: self.ty }
    }
}

impl PartialEq for Path {
    fn eq(&self, other: &Self) -> (r: bool) {
        let r = self.ty == other.ty && self.name == other.name && self.scope == other.scope;
        if r {
            assert(self@ =~= other@);
        }
        r
    }
}

impl vstd::std_specs::cmp::PartialEqSpecImpl for Path {
    open spec fn obeys_eq_spec() -> bool {
        true
    }

    open spec fn eq_spec(&self, other: &Self) -> bool {
        self@ == other@
    }
}

} // verus!
