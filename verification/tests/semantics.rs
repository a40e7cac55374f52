use espr::ast::{
    Bound as AstBound, Entity as AstEntity, EntityAttribute, Schema as AstSchema, SimpleType,
    SyntaxTree, Type, TypeDecl as AstTypeDecl,
};
use espr::{
    Entity, Legalize, Namespace, Scope, ScopeType, SemanticError, SubSuperGraph, TypeRef,
    UnderlyingType, IR,
};

fn attr(name: &str, ty: Type) -> EntityAttribute {
    EntityAttribute { name: name.to_string(), ty, optional: false }
}

/// The demo schema:
/// `TYPE a = INTEGER; TYPE b = a; TYPE color = ENUMERATION OF (red, green, blue);`
/// `ENTITY base; x: INTEGER; END_ENTITY;`
/// `ENTITY derived SUBTYPE OF (base); y: b; END_ENTITY;`
fn demo_tree() -> SyntaxTree {
    SyntaxTree {
        schemas: vec![AstSchema {
            name: "demo".to_string(),
            entities: vec![
                AstEntity {
                    name: "base".to_string(),
                    supertypes: vec![],
                    attributes: vec![attr("x", Type::Simple(SimpleType::Integer))],
                },
                AstEntity {
                    name: "derived".to_string(),
                    supertypes: vec!["base".to_string()],
                    attributes: vec![attr("y", Type::Named("b".to_string()))],
                },
            ],
            types: vec![
                AstTypeDecl {
                    name: "a".to_string(),
                    underlying_type: Type::Simple(SimpleType::Integer),
                },
                AstTypeDecl {
                    name: "b".to_string(),
                    underlying_type: Type::Named("a".to_string()),
                },
                AstTypeDecl {
                    name: "color".to_string(),
                    underlying_type: Type::Enumeration {
                        items: vec![
                            "red".to_string(),
                            "green".to_string(),
                            "blue".to_string(),
                        ],
                    },
                },
            ],
        }],
    }
}

fn demo_context() -> (SyntaxTree, Namespace, SubSuperGraph, Scope) {
    let tree = demo_tree();
    let ns = Namespace::new(&tree);
    let ss = SubSuperGraph::new(&ns, &tree).unwrap();
    let scope = Scope::root().pushed(ScopeType::Schema, &tree.schemas[0].name);
    (tree, ns, ss, scope)
}

#[test]
fn legalize() {
    let (tree, ns, ss, scope) = demo_context();
    let entity = &tree.schemas[0].entities[0];
    let entity = Entity::legalize(&ns, &ss, &scope, entity).unwrap();
    assert_eq!(entity.name, "base");
    assert_eq!(entity.attributes.len(), 1);
    assert_eq!(entity.attributes[0].name, "x");
}

#[test]
fn order_preservation() {
    let (_, ns, ss, scope) = demo_context();
    let entity = AstEntity {
        name: "wide".to_string(),
        supertypes: vec![],
        attributes: vec![
            attr("first", Type::Simple(SimpleType::Integer)),
            attr("second", Type::Named("b".to_string())),
            attr("third", Type::Simple(SimpleType::Boolean)),
            attr("fourth", Type::Named("color".to_string())),
        ],
    };
    let legalized = Entity::legalize(&ns, &ss, &scope, &entity).unwrap();
    assert_eq!(legalized.attributes.len(), 4);
    let names: Vec<&str> = legalized.attributes.iter().map(|a| a.name.as_str()).collect();
    assert_eq!(names, vec!["first", "second", "third", "fourth"]);
}

#[test]
fn transitive_vs_local_flags() {
    let (_, ns, ss, scope) = demo_context();
    let b = ns.lookup_type(&ss, &scope, &"b".to_string()).unwrap();
    match &b {
        TypeRef::Named { name, is_simple, is_direct_simple, is_enumerate, .. } => {
            assert_eq!(name.as_str(), "b");
            assert!(*is_simple);
            assert!(!*is_direct_simple);
            assert!(!*is_enumerate);
        }
        other => panic!("b should be a named reference, got {:?}", other),
    }
    let a = ns.lookup_type(&ss, &scope, &"a".to_string()).unwrap();
    match &a {
        TypeRef::Named { is_simple, is_direct_simple, .. } => {
            assert!(*is_simple);
            assert!(*is_direct_simple);
        }
        other => panic!("a should be a named reference, got {:?}", other),
    }
    assert!(b.is_simple());
    assert!(!b.is_direct_simple());
    assert!(a.is_simple());
    assert!(a.is_direct_simple());
}

#[test]
fn enumeration_classification() {
    let (_, ns, ss, scope) = demo_context();
    let color = ns.lookup_type(&ss, &scope, &"color".to_string()).unwrap();
    match &color {
        TypeRef::Named { is_simple, is_direct_simple, is_enumerate, .. } => {
            assert!(*is_simple);
            assert!(*is_direct_simple);
            assert!(*is_enumerate);
        }
        other => panic!("color should be a named reference, got {:?}", other),
    }
}

#[test]
fn supertype_detection() {
    let (_, ns, ss, scope) = demo_context();
    let base = ns.lookup_type(&ss, &scope, &"base".to_string()).unwrap();
    match &base {
        TypeRef::Entity { is_supertype, .. } => assert!(*is_supertype),
        other => panic!("base should be an entity reference, got {:?}", other),
    }
    let derived = ns.lookup_type(&ss, &scope, &"derived".to_string()).unwrap();
    match &derived {
        TypeRef::Entity { is_supertype, .. } => assert!(!*is_supertype),
        other => panic!("derived should be an entity reference, got {:?}", other),
    }
}

#[test]
fn aggregate_recursion() {
    let (_, ns, ss, scope) = demo_context();
    // SET OF LIST OF INTEGER is simple at both levels
    let set_of_list = Type::SetOf {
        base: Box::new(Type::ListOf {
            base: Box::new(Type::Simple(SimpleType::Integer)),
            bound: None,
            unique: false,
        }),
        bound: None,
    };
    let legalized = TypeRef::legalize(&ns, &ss, &scope, &set_of_list).unwrap();
    assert!(legalized.is_simple());
    assert!(legalized.is_direct_simple());
    // LIST OF base-entity is not simple
    let list_of_entity = Type::ListOf {
        base: Box::new(Type::Named("base".to_string())),
        bound: None,
        unique: true,
    };
    let legalized = TypeRef::legalize(&ns, &ss, &scope, &list_of_entity).unwrap();
    assert!(!legalized.is_simple());
    match &legalized {
        TypeRef::ListOf { unique, bound, .. } => {
            assert!(*unique);
            assert!(bound.is_none());
        }
        other => panic!("expected a list reference, got {:?}", other),
    }
}

#[test]
fn bound_carried() {
    let (_, ns, ss, scope) = demo_context();
    let bounded = Type::SetOf {
        base: Box::new(Type::Simple(SimpleType::Integer)),
        bound: Some(AstBound { lower: 1, upper: 3 }),
    };
    let legalized = TypeRef::legalize(&ns, &ss, &scope, &bounded).unwrap();
    match &legalized {
        TypeRef::SetOf { bound, .. } => assert!(bound.is_some()),
        other => panic!("expected a set reference, got {:?}", other),
    }
}

#[test]
fn unresolved_name() {
    let (_, ns, _, scope) = demo_context();
    let missing = ns.resolve(&scope, &"nowhere".to_string());
    match missing {
        Err(SemanticError::TypeNotFound { name, scope: err_scope }) => {
            assert_eq!(name, "nowhere");
            assert!(err_scope == scope);
        }
        other => panic!("expected TypeNotFound, got {:?}", other),
    }
}

#[test]
fn unresolved_name_fails_whole_ir() {
    let mut tree = demo_tree();
    tree.schemas[0].entities[1].attributes[0].ty = Type::Named("ghostly".to_string());
    match IR::from_syntax_tree(&tree) {
        Err(SemanticError::TypeNotFound { name, .. }) => assert_eq!(name, "ghostly"),
        other => panic!("expected TypeNotFound, got {:?}", other),
    }
}

#[test]
fn invalid_path_kind_mismatch() {
    let (_, ns, _, scope) = demo_context();
    // a path claiming "base" is a type, while the table stores an entity
    let bad = espr::Path { scope: scope.clone(), name: "base".to_string(), ty: ScopeType::Type };
    match ns.get(&bad) {
        Err(SemanticError::InvalidPath(p)) => assert_eq!(p.name, "base"),
        other => panic!("expected InvalidPath, got {:?}", other),
    }
}

#[test]
fn supertype_cycle_rejected() {
    let tree = SyntaxTree {
        schemas: vec![AstSchema {
            name: "looped".to_string(),
            entities: vec![
                AstEntity {
                    name: "alpha".to_string(),
                    supertypes: vec!["beta".to_string()],
                    attributes: vec![],
                },
                AstEntity {
                    name: "beta".to_string(),
                    supertypes: vec!["alpha".to_string()],
                    attributes: vec![],
                },
            ],
            types: vec![],
        }],
    };
    match IR::from_syntax_tree(&tree) {
        Err(SemanticError::InvalidPath(_)) => {}
        other => panic!("expected InvalidPath on a supertype cycle, got {:?}", other),
    }
}

#[test]
fn multiple_inheritance_accepted() {
    let tree = SyntaxTree {
        schemas: vec![AstSchema {
            name: "multi".to_string(),
            entities: vec![
                AstEntity {
                    name: "left".to_string(),
                    supertypes: vec![],
                    attributes: vec![],
                },
                AstEntity {
                    name: "right".to_string(),
                    supertypes: vec![],
                    attributes: vec![],
                },
                AstEntity {
                    name: "both".to_string(),
                    supertypes: vec!["left".to_string(), "right".to_string()],
                    attributes: vec![],
                },
            ],
            types: vec![],
        }],
    };
    let ns = Namespace::new(&tree);
    let ss = SubSuperGraph::new(&ns, &tree).unwrap();
    let scope = Scope::root().pushed(ScopeType::Schema, &tree.schemas[0].name);
    for name in ["left", "right"] {
        match ns.lookup_type(&ss, &scope, &name.to_string()).unwrap() {
            TypeRef::Entity { is_supertype, .. } => assert!(is_supertype),
            other => panic!("expected an entity reference, got {:?}", other),
        }
    }
    match ns.lookup_type(&ss, &scope, &"both".to_string()).unwrap() {
        TypeRef::Entity { is_supertype, .. } => assert!(!is_supertype),
        other => panic!("expected an entity reference, got {:?}", other),
    }
}

#[test]
fn end_to_end_scenario() {
    let tree = demo_tree();
    let ir = IR::from_syntax_tree(&tree).unwrap();
    assert_eq!(ir.schemas.len(), 1);
    let schema = &ir.schemas[0];
    assert_eq!(schema.name, "demo");
    assert_eq!(schema.entities.len(), 2);
    assert_eq!(schema.entities[0].name, "base");
    assert_eq!(schema.entities[1].name, "derived");

    let derived = &schema.entities[1];
    assert_eq!(derived.attributes.len(), 1);
    assert_eq!(derived.attributes[0].name, "y");
    match &derived.attributes[0].ty {
        TypeRef::Named { name, is_simple, is_direct_simple, is_enumerate, .. } => {
            assert_eq!(name.as_str(), "b");
            assert!(*is_simple);
            assert!(!*is_direct_simple);
            assert!(!*is_enumerate);
        }
        other => panic!("derived.y should be a named reference, got {:?}", other),
    }

    // base's entity type reference is a supertype
    let ns = Namespace::new(&tree);
    let ss = SubSuperGraph::new(&ns, &tree).unwrap();
    let scope = Scope::root().pushed(ScopeType::Schema, &tree.schemas[0].name);
    match ns.lookup_type(&ss, &scope, &"base".to_string()).unwrap() {
        TypeRef::Entity { is_supertype, .. } => assert!(is_supertype),
        other => panic!("base should be an entity reference, got {:?}", other),
    }

    // the color declaration keeps its identifiers
    assert_eq!(schema.types.len(), 3);
    assert_eq!(schema.types[2].name, "color");
    match &schema.types[2].underlying {
        UnderlyingType::Enumeration { items } => {
            assert_eq!(items, &vec!["red".to_string(), "green".to_string(), "blue".to_string()]);
        }
        other => panic!("color should stay an enumeration, got {:?}", other),
    }
    // the declaration of b references a, which renames INTEGER directly
    match &schema.types[1].underlying {
        UnderlyingType::Reference(TypeRef::Named { name, is_simple, is_direct_simple, .. }) => {
            assert_eq!(name.as_str(), "a");
            assert!(*is_simple);
            assert!(*is_direct_simple);
        }
        other => panic!("b should reference a named type, got {:?}", other),
    }
}

#[test]
fn scopes_are_value_objects() {
    let root = Scope::root();
    let pushed = root.pushed(ScopeType::Schema, &"demo".to_string());
    assert_eq!(root.segments.len(), 0);
    assert_eq!(pushed.segments.len(), 1);
    assert!(root == Scope::root());
    assert!(pushed != root);
    assert!(pushed == Scope::root().pushed(ScopeType::Schema, &"demo".to_string()));
}
