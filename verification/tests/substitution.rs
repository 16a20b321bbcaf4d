use ragu::substitution::{
    evaluate, replace_driver_field_in_generic_param, replace_inferences, GenericArgument,
    GenericParam, Input, PathArguments, PathSegment, RaguCorePath, Type, TypeParamBound, TypePath,
};

fn seg(name: &str) -> PathSegment {
    PathSegment { ident: name.to_string(), arguments: PathArguments::Absent }
}

fn seg_with(name: &str, args: Vec<GenericArgument>) -> PathSegment {
    PathSegment { ident: name.to_string(), arguments: PathArguments::AngleBracketed(args) }
}

fn path(leading_colon: bool, segments: Vec<PathSegment>) -> Type {
    Type::Path(TypePath { qself: None, position: 0, leading_colon, segments })
}

fn name(n: &str) -> Type {
    path(false, vec![seg(n)])
}

fn ty(t: Type) -> GenericArgument {
    GenericArgument::Type(t)
}

fn lt(n: &str) -> GenericArgument {
    GenericArgument::Lifetime(n.to_string())
}

fn phantom(f: &str) -> Type {
    path(true, vec![seg("core"), seg("marker"), seg_with("PhantomData", vec![ty(name(f))])])
}

fn trait_bound(segments: Vec<PathSegment>) -> TypeParamBound {
    TypeParamBound::Trait { prefix: String::new(), leading_colon: false, segments }
}

#[test]
fn test_evaluate() {
    // F; MyGadget<'_, _, C, 5>
    let input = Input {
        f: name("F"),
        cast: false,
        path: path(
            false,
            vec![seg_with(
                "MyGadget",
                vec![lt("_"), ty(Type::Infer), ty(name("C")), GenericArgument::Other("5".to_string())],
            )],
        ),
    };
    // <MyGadget<'static, ::core::marker::PhantomData<F>, C, 5>
    //     as ::ragu_core::gadgets::Gadget<'static, ::core::marker::PhantomData<F>>>::Kind
    let gadget = path(
        false,
        vec![seg_with(
            "MyGadget",
            vec![lt("static"), ty(phantom("F")), ty(name("C")), GenericArgument::Other("5".to_string())],
        )],
    );
    assert_eq!(
        evaluate(input, &RaguCorePath::default_path()),
        Type::Path(TypePath {
            qself: Some(Box::new(gadget)),
            position: 3,
            leading_colon: true,
            segments: vec![
                seg("ragu_core"),
                seg("gadgets"),
                seg_with("Gadget", vec![lt("static"), ty(phantom("F"))]),
                seg("Kind"),
            ],
        })
    );
}

#[test]
fn test_extra() {
    // F; @EndoscalingOutput<'_, _, C>
    let input = Input {
        f: name("F"),
        cast: true,
        path: path(
            false,
            vec![seg_with("EndoscalingOutput", vec![lt("_"), ty(Type::Infer), ty(name("C"))])],
        ),
    };
    // EndoscalingOutput<'static, ::core::marker::PhantomData<F>, C>
    assert_eq!(
        evaluate(input, &RaguCorePath::default_path()),
        path(
            false,
            vec![seg_with(
                "EndoscalingOutput",
                vec![lt("static"), ty(phantom("F")), ty(name("C"))]
            )],
        )
    );
}

#[test]
fn evaluate_follows_the_core_path() {
    let core = RaguCorePath {
        leading_colon: false,
        segments: vec!["crate".to_string(), "core".to_string()],
    };
    let input = Input { f: name("F"), cast: false, path: name("G") };
    assert_eq!(
        evaluate(input, &core),
        Type::Path(TypePath {
            qself: Some(Box::new(name("G"))),
            position: 4,
            leading_colon: false,
            segments: vec![
                seg("crate"),
                seg("core"),
                seg("gadgets"),
                seg_with("Gadget", vec![lt("static"), ty(phantom("F"))]),
                seg("Kind"),
            ],
        })
    );
    assert_eq!(RaguCorePath::default_path().segments, vec!["ragu_core".to_string()]);
    assert!(RaguCorePath::default_path().leading_colon);
}

#[test]
fn inferences_are_replaced_in_paths_and_tuples_only() {
    // (_, Vec<_>, A<T = _, 'a>, fn(_), B<I: Iterator<Item = _>>)
    let mut t = Type::Tuple(vec![
        Type::Infer,
        path(false, vec![seg_with("Vec", vec![ty(Type::Infer)])]),
        path(
            false,
            vec![seg_with(
                "A",
                vec![GenericArgument::AssocType("T".to_string(), Type::Infer), lt("a")],
            )],
        ),
        Type::Other("fn(_)".to_string()),
        path(
            false,
            vec![seg_with(
                "B",
                vec![GenericArgument::Constraint(
                    "I".to_string(),
                    vec![
                        trait_bound(vec![seg_with(
                            "Iterator",
                            vec![GenericArgument::AssocType("Item".to_string(), Type::Infer)],
                        )]),
                        TypeParamBound::Other("'_".to_string()),
                    ],
                )],
            )],
        ),
    ]);
    replace_inferences(&mut t, &name("F"));
    assert_eq!(
        t,
        Type::Tuple(vec![
            phantom("F"),
            path(false, vec![seg_with("Vec", vec![ty(phantom("F"))])]),
            path(
                false,
                vec![seg_with(
                    "A",
                    vec![GenericArgument::AssocType("T".to_string(), phantom("F")), lt("a")],
                )],
            ),
            Type::Other("fn(_)".to_string()),
            path(
                false,
                vec![seg_with(
                    "B",
                    vec![GenericArgument::Constraint(
                        "I".to_string(),
                        vec![
                            trait_bound(vec![seg_with(
                                "Iterator",
                                vec![GenericArgument::AssocType("Item".to_string(), phantom("F"))],
                            )]),
                            TypeParamBound::Other("'_".to_string()),
                        ],
                    )],
                )],
            ),
        ])
    );
}

#[test]
fn the_field_type_is_not_rewritten_itself() {
    // the field type is put in as it is, inferences and all
    let mut t = Type::Infer;
    let field = path(false, vec![seg_with("W", vec![ty(Type::Infer), lt("_")])]);
    replace_inferences(&mut t, &field);
    assert_eq!(
        t,
        path(
            true,
            vec![
                seg("core"),
                seg("marker"),
                seg_with(
                    "PhantomData",
                    vec![ty(path(false, vec![seg_with("W", vec![ty(Type::Infer), lt("_")])]))]
                ),
            ]
        )
    );
    // a qualified self type is not looked into
    let qualified = || {
        Type::Path(TypePath {
            qself: Some(Box::new(Type::Infer)),
            position: 1,
            leading_colon: false,
            segments: vec![seg_with("T", vec![ty(Type::Infer)]), seg("Out")],
        })
    };
    let mut t = qualified();
    replace_inferences(&mut t, &name("F"));
    assert_eq!(
        t,
        Type::Path(TypePath {
            qself: Some(Box::new(Type::Infer)),
            position: 1,
            leading_colon: false,
            segments: vec![seg_with("T", vec![ty(phantom("F"))]), seg("Out")],
        })
    );
}

#[test]
fn driver_field_is_replaced_in_bounds_and_default() {
    let d = "D".to_string();
    let field = "DriverField".to_string();
    let driver_f = || path(false, vec![seg("D"), seg("F")]);
    // T: Gadget<D::F> + Other<D::G, E::F, D::F::X> = Vec<D::F>
    let mut param = GenericParam::Type {
        ident: "T".to_string(),
        bounds: vec![
            trait_bound(vec![seg_with("Gadget", vec![ty(driver_f())])]),
            trait_bound(vec![seg_with(
                "Other",
                vec![
                    ty(path(false, vec![seg("D"), seg("G")])),
                    ty(path(false, vec![seg("E"), seg("F")])),
                    ty(path(false, vec![seg("D"), seg("F"), seg("X")])),
                ],
            )]),
        ],
        default: Some(path(false, vec![seg_with("Vec", vec![ty(driver_f())])])),
    };
    replace_driver_field_in_generic_param(&mut param, &d, &field);
    assert_eq!(
        param,
        GenericParam::Type {
            ident: "T".to_string(),
            bounds: vec![
                trait_bound(vec![seg_with("Gadget", vec![ty(name("DriverField"))])]),
                trait_bound(vec![seg_with(
                    "Other",
                    vec![
                        ty(path(false, vec![seg("D"), seg("G")])),
                        ty(path(false, vec![seg("E"), seg("F")])),
                        ty(path(false, vec![seg("D"), seg("F"), seg("X")])),
                    ],
                )]),
            ],
            default: Some(path(false, vec![seg_with("Vec", vec![ty(name("DriverField"))])])),
        }
    );

    // a default that is the field itself; inferences stay
    let mut param = GenericParam::Type {
        ident: "T".to_string(),
        bounds: Vec::new(),
        default: Some(Type::Tuple(vec![driver_f(), Type::Infer])),
    };
    replace_driver_field_in_generic_param(&mut param, &d, &field);
    assert_eq!(
        param,
        GenericParam::Type {
            ident: "T".to_string(),
            bounds: Vec::new(),
            default: Some(Type::Tuple(vec![name("DriverField"), Type::Infer])),
        }
    );

    // with a qualified self type the path is no driver field
    let qualified = || {
        Type::Path(TypePath {
            qself: Some(Box::new(name("X"))),
            position: 1,
            leading_colon: false,
            segments: vec![seg("D"), seg("F")],
        })
    };
    let mut param =
        GenericParam::Type { ident: "T".to_string(), bounds: Vec::new(), default: Some(qualified()) };
    replace_driver_field_in_generic_param(&mut param, &d, &field);
    assert_eq!(
        param,
        GenericParam::Type { ident: "T".to_string(), bounds: Vec::new(), default: Some(qualified()) }
    );

    let mut other = GenericParam::Other("'a".to_string());
    replace_driver_field_in_generic_param(&mut other, &d, &field);
    assert_eq!(other, GenericParam::Other("'a".to_string()));
}
