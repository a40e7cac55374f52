//! The syntax tree handed to the semantic analysis.
//!
//! The upstream grammar layer produces these values; the analysis treats
//! them as an immutable, read-only input and never mutates them.  Each node
//! has a mathematical view (`TypeV`, `EntityV`, ...) over which all
//! contracts of the analysis are stated.

use vstd::prelude::*;

verus! {

/// A primitive terminal type with no further structure.
#[derive(Debug, Clone, Copy, PartialEq, Eq, Structural)]
pub enum SimpleType {
    Number,
    Real,
    Integer,
    Logical,
    Boolean,
    Text,
    Binary,
}

/// A cardinality constraint on an aggregate type.  Bounds are carried
/// through legalization but not semantically checked.
#[derive(Debug, Clone, Copy, PartialEq, Eq, Structural)]
pub struct Bound {
    pub lower: u64,
    pub upper: u64,
}

/// The syntactic form of a type reference or of a type declaration's
/// underlying type.
#[derive(Debug)]
pub enum Type {
    /// A primitive simple type.
    Simple(SimpleType),
    /// A reference to a declared type or entity by bare name.
    Named(String),
    /// An enumeration over a closed set of identifiers.
    Enumeration { items: Vec<String> },
    /// `SET [bound] OF base`
    SetOf { base: Box<Type>, bound: Option<Bound> },
    /// `LIST [bound] OF [UNIQUE] base`
    ListOf { base: Box<Type>, bound: Option<Bound>, unique: bool },
}

/// Mathematical model of a [`Type`].
#[verifier::ext_equal]
pub enum TypeV {
    Simple(SimpleType),
    Named(Seq<char>),
    Enumeration(Seq<Seq<char>>),
    SetOf { base: Box<TypeV>, bound: Option<Bound> },
    ListOf { base: Box<TypeV>, bound: Option<Bound>, unique: bool },
}

/// The view of a sequence of names.
pub open spec fn names_view(names: Seq<String>) -> Seq<Seq<char>> {
    names.map_values(|s: String| s@)
}

pub open spec fn type_view(t: Type) -> TypeV
    decreases t,
{
    match t {
        Type::Simple(s) => TypeV::Simple(s),
        Type::Named(n) => TypeV::Named(n@),
        Type::Enumeration { items } => TypeV::Enumeration(names_view(items@)),
        Type::SetOf { base, bound } => TypeV::SetOf { base: Box::new(type_view(*base)), bound },
        Type::ListOf { base, bound, unique } => TypeV::ListOf {
            base: Box::new(type_view(*base)),
            bound,
            unique,
        },
    }
}

impl View for Type {
    type V = TypeV;

    open spec fn view(&self) -> TypeV {
        type_view(*self)
    }
}

impl Clone for Type {
    fn clone(&self) -> (r: Self)
        ensures
            r@ == self@,
        decreases self,
    {
        match self {
            Type::Simple(s) => Type::Simple(*s),
            Type::Named(n) => Type::Named(n.clone()),
            Type::Enumeration { items } => {
                let cloned_items = items.clone();
                proof {
                    assert forall|i: int| 0 <= i < cloned_items@.len() implies cloned_items@[i]@
                        == items@[i]@ by {
                        assert(cloned::<String>(items@[i], cloned_items@[i]));
                    }
                    assert(names_view(cloned_items@) =~= names_view(items@));
                }
                Type::Enumeration { items: cloned_items }
            },
            Type::SetOf { base, bound } => Type::SetOf {
                base: Box::new((**base).clone()),
                bound: *bound,
            },
            Type::ListOf { base, bound, unique } => Type::ListOf {
                base: Box::new((**base).clone()),
                bound: *bound,
                unique: *unique,
            },
        }
    }
}

/// A type declaration: `TYPE name = underlying_type; END_TYPE;`
#[derive(Debug)]
pub struct TypeDecl {
    pub name: String,
    pub underlying_type: Type,
}

/// Mathematical model of a [`TypeDecl`].
#[verifier::ext_equal]
pub struct TypeDeclV {
    pub name: Seq<char>,
    pub underlying_type: TypeV,
}

impl View for TypeDecl {
    type V = TypeDeclV;

    open spec fn view(&self) -> TypeDeclV {
        TypeDeclV { name: self.name@, underlying_type: self.underlying_type@ }
    }
}

impl Clone for TypeDecl {
    fn clone(&self) -> (r: Self)
        ensures
            r@ == self@,
    {
        let r = TypeDecl { name: self.name.clone(), underlying_type: self.underlying_type.clone() };
        assert(r@ =~= self@);
        r
    }
}

/// One attribute of an entity declaration: a name, the syntactic type and
/// the optional flag.
#[derive(Debug)]
pub struct EntityAttribute {
    pub name: String,
    pub ty: Type,
    pub optional: bool,
}

/// Mathematical model of an [`EntityAttribute`].
#[verifier::ext_equal]
pub struct EntityAttributeV {
    pub name: Seq<char>,
    pub ty: TypeV,
    pub optional: bool,
}

impl View for EntityAttribute {
    type V = EntityAttributeV;

    open spec fn view(&self) -> EntityAttributeV {
        EntityAttributeV { name: self.name@, ty: self.ty@, optional: self.optional }
    }
}

impl Clone for EntityAttribute {
    fn clone(&self) -> (r: Self)
        ensures
            r@ == self@,
    {
        let r = EntityAttribute {
            name: self.name.clone(),
            ty: self.ty.clone(),
            optional: self.optional,
        };
        assert(r@ =~= self@);
        r
    }
}

/// An entity declaration: a name, the names of its declared supertypes and
/// its ordered attribute list.
#[derive(Debug)]
pub struct Entity {
    pub name: String,
    pub supertypes: Vec<String>,
    pub attributes: Vec<EntityAttribute>,
}

/// Mathematical model of an [`Entity`] declaration.
#[verifier::ext_equal]
pub struct EntityV {
    pub name: Seq<char>,
    pub supertypes: Seq<Seq<char>>,
    pub attributes: Seq<EntityAttributeV>,
}

impl View for Entity {
    type V = EntityV;

    open spec fn view(&self) -> EntityV {
        EntityV {
            name: self.name@,
            supertypes: names_view(self.supertypes@),
            attributes: self.attributes@.map_values(|a: EntityAttribute| a@),
        }
    }
}

impl Clone for Entity {
    fn clone(&self) -> (r: Self)
        ensures
            r@ == self@,
    {
        let r = Entity {
            name: self.name.clone(),
            supertypes: self.supertypes.clone(),
            attributes: self.attributes.clone(),
        };
        proof {
            assert forall|i: int| 0 <= i < r.supertypes@.len() implies r.supertypes@[i]@
                == self.supertypes@[i]@ by {
                assert(cloned::<String>(self.supertypes@[i], r.supertypes@[i]));
            }
            assert(names_view(r.supertypes@) =~= names_view(self.supertypes@));
            assert forall|i: int| 0 <= i < r.attributes@.len() implies r.attributes@[i]@
                == self.attributes@[i]@ by {
                assert(cloned::<EntityAttribute>(self.attributes@[i], r.attributes@[i]));
            }
            assert(r.attributes@.map_values(|a: EntityAttribute| a@) =~= self.attributes@.map_values(
                |a: EntityAttribute| a@,
            ));
            assert(r@ =~= self@);
        }
        r
    }
}

/// A schema: a named top-level grouping of declarations.
#[derive(Debug)]
pub struct Schema {
    pub name: String,
    pub entities: Vec<Entity>,
    pub types: Vec<TypeDecl>,
}

/// Mathematical model of a [`Schema`].
#[verifier::ext_equal]
pub struct SchemaV {
    pub name: Seq<char>,
    pub entities: Seq<EntityV>,
    pub types: Seq<TypeDeclV>,
}

impl View for Schema {
    type V = SchemaV;

    open spec fn view(&self) -> SchemaV {
        SchemaV {
            name: self.name@,
            entities: self.entities@.map_values(|e: Entity| e@),
            types: self.types@.map_values(|t: TypeDecl| t@),
        }
    }
}

/// The whole parsed input: an ordered sequence of schemas.
#[derive(Debug)]
pub struct SyntaxTree {
    pub schemas: Vec<Schema>,
}

impl View for SyntaxTree {
    type V = Seq<SchemaV>;

    open spec fn view(&self) -> Seq<SchemaV> {
        self.schemas@.map_values(|s: Schema| s@)
    }
}

} // verus!
