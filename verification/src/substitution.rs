//! Rewriting the types that the gadget shorthand is written in: an inferred
//! type stands for the phantom driver over the field, an inferred lifetime
//! for `'static`, and `D::F` for the name of the driver's field.
//!
//! Types are held as trees of their own here. A tree keeps what the rewriting
//! reads: paths with their segments and generic arguments, tuples, and the
//! bounds of a type parameter. Everything else is kept as it was written.

use vstd::prelude::*;

verus! {

/// A type.
#[derive(Debug, PartialEq, Eq)]
pub enum Type {
    /// The inferred type, written `_`.
    Infer,
    /// A path, with or without a qualified self type.
    Path(TypePath),
    /// A tuple of types.
    Tuple(Vec<Type>),
    /// Any other type, as written.
    Other(String),
}

/// A path type. With a qualified self type, the first `position` segments
/// name the trait.
#[derive(Debug, PartialEq, Eq)]
pub struct TypePath {
    pub qself: Option<Box<Type>>,
    pub position: usize,
    pub leading_colon: bool,
    pub segments: Vec<PathSegment>,
}

/// A segment of a path.
#[derive(Debug, PartialEq, Eq)]
pub struct PathSegment {
    pub ident: String,
    pub arguments: PathArguments,
}

/// The arguments of a segment.
#[derive(Debug, PartialEq, Eq)]
pub enum PathArguments {
    /// No arguments.
    Absent,
    /// Arguments in angle brackets.
    AngleBracketed(Vec<GenericArgument>),
    /// Arguments in parentheses, as written.
    Parenthesized(String),
}

/// A generic argument.
#[derive(Debug, PartialEq, Eq)]
pub enum GenericArgument {
    /// A lifetime, by its name without the quote.
    Lifetime(String),
    /// A type.
    Type(Type),
    /// A binding of an associated type, by its name.
    AssocType(String, Type),
    /// A constraint on an associated type, by its name.
    Constraint(String, Vec<TypeParamBound>),
    /// Any other argument, as written.
    Other(String),
}

/// A bound of a type parameter or of a constraint.
#[derive(Debug, PartialEq, Eq)]
pub enum TypeParamBound {
    /// A trait, by its path; `prefix` is what stands before the path.
    Trait { prefix: String, leading_colon: bool, segments: Vec<PathSegment> },
    /// Any other bound, as written.
    Other(String),
}

/// A generic parameter.
#[derive(Debug, PartialEq, Eq)]
pub enum GenericParam {
    /// A type parameter with its bounds and default.
    Type { ident: String, bounds: Vec<TypeParamBound>, default: Option<Type> },
    /// Any other parameter, as written.
    Other(String),
}

/// What a `Type` is, in mathematical terms.
pub ghost enum TypeModel {
    Infer,
    Path(PathModel),
    Tuple(Seq<TypeModel>),
    Other(Seq<char>),
}

/// What a `TypePath` is.
pub ghost struct PathModel {
    pub qself: Option<Box<TypeModel>>,
    pub position: nat,
    pub leading_colon: bool,
    pub segments: Seq<SegmentModel>,
}

/// What a `PathSegment` is.
pub ghost struct SegmentModel {
    pub ident: Seq<char>,
    pub arguments: ArgumentsModel,
}

/// What `PathArguments` are.
pub ghost enum ArgumentsModel {
    Absent,
    AngleBracketed(Seq<ArgumentModel>),
    Parenthesized(Seq<char>),
}

/// What a `GenericArgument` is.
pub ghost enum ArgumentModel {
    Lifetime(Seq<char>),
    Type(TypeModel),
    AssocType(Seq<char>, TypeModel),
    Constraint(Seq<char>, Seq<BoundModel>),
    Other(Seq<char>),
}

/// What a `TypeParamBound` is.
pub ghost enum BoundModel {
    Trait { prefix: Seq<char>, leading_colon: bool, segments: Seq<SegmentModel> },
    Other(Seq<char>),
}

/// What a `GenericParam` is.
pub ghost enum ParamModel {
    Type { ident: Seq<char>, bounds: Seq<BoundModel>, default: Option<TypeModel> },
    Other(Seq<char>),
}

/// What is replaced by what.
pub ghost enum Strategy {
    /// Nothing is replaced.
    Keep,
    /// An inferred type by the phantom driver over `field_type`, and the
    /// inferred lifetime by `'static`.
    PhantomField { field_type: TypeModel },
    /// The path `driver_id::F` by the name `driverfield_ident`.
    DriverField { driver_id: Seq<char>, driverfield_ident: Seq<char> },
}

/// The path with the segments `names`, none of them with arguments.
pub open spec fn plain_segments(names: Seq<Seq<char>>) -> Seq<SegmentModel> {
    Seq::new(
        names.len(),
        |i: int| SegmentModel { ident: names[i], arguments: ArgumentsModel::Absent },
    )
}

/// The type `::core::marker::PhantomData<field_type>`.
pub open spec fn phantom_data(field_type: TypeModel) -> TypeModel {
    TypeModel::Path(
        PathModel {
            qself: None,
            position: 0,
            leading_colon: true,
            segments: plain_segments(seq!["core"@, "marker"@]).push(
                SegmentModel {
                    ident: "PhantomData"@,
                    arguments: ArgumentsModel::AngleBracketed(
                        seq![ArgumentModel::Type(field_type)],
                    ),
                },
            ),
        },
    )
}

/// The type that is the bare name `ident`.
pub open spec fn named(ident: Seq<char>) -> PathModel {
    PathModel {
        qself: None,
        position: 0,
        leading_colon: false,
        segments: plain_segments(seq![ident]),
    }
}

/// Whether `path` is `driver_id::F`, whatever arguments its segments have.
pub open spec fn is_driver_field(path: PathModel, driver_id: Seq<char>) -> bool {
    path.qself is None && path.segments.len() == 2 && path.segments[0].ident == driver_id
        && path.segments[1].ident == "F"@
}

/// The type `t` rewritten.
pub open spec fn subst_type(t: TypeModel, s: Strategy) -> TypeModel
    decreases t, 0nat,
{
    match (t, s) {
        (TypeModel::Infer, Strategy::PhantomField { field_type }) => phantom_data(field_type),
        (TypeModel::Path(path), _) => TypeModel::Path(subst_path(path, s)),
        (TypeModel::Tuple(elems), _) => TypeModel::Tuple(
            Seq::new(
                elems.len(),
                |i: int|
                    if 0 <= i < elems.len() {
                        subst_type(elems[i], s)
                    } else {
                        TypeModel::Infer
                    },
            ),
        ),
        _ => t,
    }
}

/// The path `path` rewritten: replaced where it is the driver's field, and
/// else rewritten in the arguments of its segments. A qualified self type
/// stays as it is.
pub open spec fn subst_path(path: PathModel, s: Strategy) -> PathModel
    decreases path, 0nat,
{
    match s {
        Strategy::DriverField { driver_id, driverfield_ident } if is_driver_field(
            path,
            driver_id,
        ) => named(driverfield_ident),
        _ => PathModel { segments: subst_segments(path.segments, s), ..path },
    }
}

/// The segments rewritten, each in its arguments.
pub open spec fn subst_segments(segments: Seq<SegmentModel>, s: Strategy) -> Seq<SegmentModel>
    decreases segments, 1nat,
{
    Seq::new(
        segments.len(),
        |i: int|
            if 0 <= i < segments.len() {
                SegmentModel {
                    ident: segments[i].ident,
                    arguments: subst_arguments(segments[i].arguments, s),
                }
            } else {
                SegmentModel { ident: Seq::empty(), arguments: ArgumentsModel::Absent }
            },
    )
}

/// The arguments rewritten: those in angle brackets, one by one.
pub open spec fn subst_arguments(arguments: ArgumentsModel, s: Strategy) -> ArgumentsModel
    decreases arguments, 0nat,
{
    match arguments {
        ArgumentsModel::AngleBracketed(args) => ArgumentsModel::AngleBracketed(
            Seq::new(
                args.len(),
                |i: int|
                    if 0 <= i < args.len() {
                        subst_argument(args[i], s)
                    } else {
                        ArgumentModel::Other(Seq::empty())
                    },
            ),
        ),
        _ => arguments,
    }
}

/// The lifetime rewritten.
pub open spec fn subst_lifetime(name: Seq<char>, s: Strategy) -> Seq<char> {
    if s is PhantomField && name == "_"@ {
        "static"@
    } else {
        name
    }
}

/// The argument rewritten.
pub open spec fn subst_argument(argument: ArgumentModel, s: Strategy) -> ArgumentModel
    decreases argument, 0nat,
{
    match argument {
        ArgumentModel::Lifetime(name) => ArgumentModel::Lifetime(subst_lifetime(name, s)),
        ArgumentModel::Type(t) => ArgumentModel::Type(subst_type(t, s)),
        ArgumentModel::AssocType(name, t) => ArgumentModel::AssocType(name, subst_type(t, s)),
        ArgumentModel::Constraint(name, bounds) => ArgumentModel::Constraint(
            name,
            subst_bounds(bounds, s),
        ),
        ArgumentModel::Other(_) => argument,
    }
}

/// The bounds rewritten, one by one.
pub open spec fn subst_bounds(bounds: Seq<BoundModel>, s: Strategy) -> Seq<BoundModel>
    decreases bounds, 1nat,
{
    Seq::new(
        bounds.len(),
        |i: int|
            if 0 <= i < bounds.len() {
                subst_bound(bounds[i], s)
            } else {
                BoundModel::Other(Seq::empty())
            },
    )
}

/// The bound rewritten: a trait in the arguments of its segments.
pub open spec fn subst_bound(bound: BoundModel, s: Strategy) -> BoundModel
    decreases bound, 0nat,
{
    match bound {
        BoundModel::Trait { prefix, leading_colon, segments } => BoundModel::Trait {
            prefix,
            leading_colon,
            segments: subst_segments(segments, s),
        },
        BoundModel::Other(_) => bound,
    }
}

/// The parameter rewritten: a type parameter in its bounds and its default.
pub open spec fn subst_param(param: ParamModel, s: Strategy) -> ParamModel {
    match param {
        ParamModel::Type { ident, bounds, default } => ParamModel::Type {
            ident,
            bounds: subst_bounds(bounds, s),
            default: match default {
                Some(t) => Some(subst_type(t, s)),
                None => None,
            },
        },
        ParamModel::Other(_) => param,
    }
}

/// What the type `t` is.
pub open spec fn model_type(t: Type) -> TypeModel
    decreases t, 0nat,
{
    match t {
        Type::Infer => TypeModel::Infer,
        Type::Path(path) => TypeModel::Path(model_path(path)),
        Type::Tuple(elems) => TypeModel::Tuple(
            Seq::new(
                elems@.len(),
                |i: int|
                    if 0 <= i < elems@.len() {
                        model_type(elems@[i])
                    } else {
                        TypeModel::Infer
                    },
            ),
        ),
        Type::Other(text) => TypeModel::Other(text@),
    }
}

/// What the path `path` is.
pub open spec fn model_path(path: TypePath) -> PathModel
    decreases path, 0nat,
{
    PathModel {
        qself: match path.qself {
            Some(inner) => Some(Box::new(model_type(*inner))),
            None => None,
        },
        position: path.position as nat,
        leading_colon: path.leading_colon,
        segments: model_segments(path.segments),
    }
}

/// What the segments are.
pub open spec fn model_segments(segments: Vec<PathSegment>) -> Seq<SegmentModel>
    decreases segments, 1nat,
{
    Seq::new(
        segments@.len(),
        |i: int|
            if 0 <= i < segments@.len() {
                SegmentModel {
                    ident: segments@[i].ident@,
                    arguments: model_arguments(segments@[i].arguments),
                }
            } else {
                SegmentModel { ident: Seq::empty(), arguments: ArgumentsModel::Absent }
            },
    )
}

/// What the arguments are.
pub open spec fn model_arguments(arguments: PathArguments) -> ArgumentsModel
    decreases arguments, 0nat,
{
    match arguments {
        PathArguments::Absent => ArgumentsModel::Absent,
        PathArguments::AngleBracketed(args) => ArgumentsModel::AngleBracketed(
            Seq::new(
                args@.len(),
                |i: int|
                    if 0 <= i < args@.len() {
                        model_argument(args@[i])
                    } else {
                        ArgumentModel::Other(Seq::empty())
                    },
            ),
        ),
        PathArguments::Parenthesized(text) => ArgumentsModel::Parenthesized(text@),
    }
}

/// What the argument is.
pub open spec fn model_argument(argument: GenericArgument) -> ArgumentModel
    decreases argument, 0nat,
{
    match argument {
        GenericArgument::Lifetime(name) => ArgumentModel::Lifetime(name@),
        GenericArgument::Type(t) => ArgumentModel::Type(model_type(t)),
        GenericArgument::AssocType(name, t) => ArgumentModel::AssocType(name@, model_type(t)),
        GenericArgument::Constraint(name, bounds) => ArgumentModel::Constraint(
            name@,
            model_bounds(bounds),
        ),
        GenericArgument::Other(text) => ArgumentModel::Other(text@),
    }
}

/// What the bounds are.
pub open spec fn model_bounds(bounds: Vec<TypeParamBound>) -> Seq<BoundModel>
    decreases bounds, 1nat,
{
    Seq::new(
        bounds@.len(),
        |i: int|
            if 0 <= i < bounds@.len() {
                model_bound(bounds@[i])
            } else {
                BoundModel::Other(Seq::empty())
            },
    )
}

/// What the bound is.
pub open spec fn model_bound(bound: TypeParamBound) -> BoundModel
    decreases bound, 0nat,
{
    match bound {
        TypeParamBound::Trait { prefix, leading_colon, segments } => BoundModel::Trait {
            prefix: prefix@,
            leading_colon,
            segments: model_segments(segments),
        },
        TypeParamBound::Other(text) => BoundModel::Other(text@),
    }
}

/// What the parameter is.
pub open spec fn model_param(param: GenericParam) -> ParamModel {
    match param {
        GenericParam::Type { ident, bounds, default } => ParamModel::Type {
            ident: ident@,
            bounds: model_bounds(bounds),
            default: match default {
                Some(t) => Some(model_type(t)),
                None => None,
            },
        },
        GenericParam::Other(text) => ParamModel::Other(text@),
    }
}

/// Where nothing is replaced, a type stays what it is.
pub proof fn lemma_keep_type(t: TypeModel)
    ensures
        subst_type(t, Strategy::Keep) == t,
    decreases t, 0nat,
{
    match t {
        TypeModel::Path(path) => {
            lemma_keep_segments(path.segments);
            let after = subst_path(path, Strategy::Keep);
            assert(after.segments == path.segments);
            assert(after.qself == path.qself);
            assert(after == path);
        },
        TypeModel::Tuple(elems) => {
            assert forall|i: int| 0 <= i < elems.len() implies subst_type(elems[i], Strategy::Keep)
                == elems[i] by {
                lemma_keep_type(elems[i]);
            }
            assert(subst_type(t, Strategy::Keep)->Tuple_0 =~= elems);
        },
        _ => {},
    }
}

/// Where nothing is replaced, segments stay what they are.
pub proof fn lemma_keep_segments(segments: Seq<SegmentModel>)
    ensures
        subst_segments(segments, Strategy::Keep) == segments,
    decreases segments, 1nat,
{
    assert forall|i: int| 0 <= i < segments.len() implies subst_arguments(
        segments[i].arguments,
        Strategy::Keep,
    ) == segments[i].arguments by {
        lemma_keep_arguments(segments[i].arguments);
    }
    assert(subst_segments(segments, Strategy::Keep) =~= segments);
}

/// Where nothing is replaced, arguments stay what they are.
pub proof fn lemma_keep_arguments(arguments: ArgumentsModel)
    ensures
        subst_arguments(arguments, Strategy::Keep) == arguments,
    decreases arguments, 0nat,
{
    match arguments {
        ArgumentsModel::AngleBracketed(args) => {
            assert forall|i: int| 0 <= i < args.len() implies subst_argument(
                args[i],
                Strategy::Keep,
            ) == args[i] by {
                match args[i] {
                    ArgumentModel::Type(t) => {
                        lemma_keep_type(t);
                    },
                    ArgumentModel::AssocType(_, t) => {
                        lemma_keep_type(t);
                    },
                    ArgumentModel::Constraint(_, bounds) => {
                        lemma_keep_bounds(bounds);
                    },
                    _ => {},
                }
            }
            assert(subst_arguments(arguments, Strategy::Keep)->AngleBracketed_0 =~= args);
        },
        _ => {},
    }
}

/// Where nothing is replaced, bounds stay what they are.
pub proof fn lemma_keep_bounds(bounds: Seq<BoundModel>)
    ensures
        subst_bounds(bounds, Strategy::Keep) == bounds,
    decreases bounds, 1nat,
{
    assert forall|i: int| 0 <= i < bounds.len() implies subst_bound(bounds[i], Strategy::Keep)
        == bounds[i] by {
        match bounds[i] {
            BoundModel::Trait { prefix, leading_colon, segments } => {
                lemma_keep_segments(segments);
            },
            _ => {},
        }
    }
    assert(subst_bounds(bounds, Strategy::Keep) =~= bounds);
}

/// What to replace, for the functions that rewrite.
pub enum Rewrite<'a> {
    /// Nothing: the tree is copied.
    Keep,
    /// An inferred type by the phantom driver over `field_type`, and the
    /// inferred lifetime by `'static`.
    PhantomField { field_type: &'a Type },
    /// The path `driver_id::F` by the name `driverfield_ident`.
    DriverField { driver_id: &'a String, driverfield_ident: &'a String },
}

impl<'a> Rewrite<'a> {
    /// What is replaced by what, in mathematical terms.
    pub open spec fn strategy(&self) -> Strategy {
        match *self {
            Rewrite::Keep => Strategy::Keep,
            Rewrite::PhantomField { field_type } => Strategy::PhantomField {
                field_type: model_type(*field_type),
            },
            Rewrite::DriverField { driver_id, driverfield_ident } => Strategy::DriverField {
                driver_id: driver_id@,
                driverfield_ident: driverfield_ident@,
            },
        }
    }

    /// One where something is replaced, nought where nothing is: a rewrite
    /// of the first sort may ask for a copy of any tree, a copy only for
    /// copies of smaller trees.
    pub open spec fn rank(&self) -> nat {
        if *self is Keep {
            0
        } else {
            1
        }
    }
}

/// A segment without arguments.
fn plain_segment(name: &str) -> (r: PathSegment)
    ensures
        r.ident@ == name@,
        r.arguments == PathArguments::Absent,
{
    PathSegment { ident: name.to_owned(), arguments: PathArguments::Absent }
}

/// The type `t` rewritten as `s` says, in a tree of its own.
pub fn rewritten_type(t: &Type, s: &Rewrite) -> (r: Type)
    ensures
        model_type(r) == subst_type(model_type(*t), s.strategy()),
    decreases s.rank(), *t,
{
    match t {
        Type::Infer => {
            match s {
                Rewrite::PhantomField { field_type } => {
                    let inner = rewritten_type(field_type, &Rewrite::Keep);
                    proof {
                        lemma_keep_type(model_type(**field_type));
                    }
                    let mut args: Vec<GenericArgument> = Vec::new();
                    args.push(GenericArgument::Type(inner));
                    let mut segments: Vec<PathSegment> = Vec::new();
                    segments.push(plain_segment("core"));
                    segments.push(plain_segment("marker"));
                    segments.push(
                        PathSegment {
                            ident: "PhantomData".to_owned(),
                            arguments: PathArguments::AngleBracketed(args),
                        },
                    );
                    let path = TypePath { qself: None, position: 0, leading_colon: true, segments };
                    proof {
                        let want = phantom_data(model_type(**field_type));
                        assert(model_arguments(path.segments@[2].arguments)->AngleBracketed_0
                            =~= seq![ArgumentModel::Type(model_type(**field_type))]);
                        assert(model_segments(path.segments) =~= want->Path_0.segments);
                        assert(model_path(path).qself == want->Path_0.qself);
                        assert(model_path(path) == want->Path_0);
                        assert(subst_type(model_type(*t), s.strategy()) == want);
                    }
                    Type::Path(path)
                },
                _ => Type::Infer,
            }
        },
        Type::Path(path) => Type::Path(rewritten_path(path, s)),
        Type::Tuple(elems) => {
            let mut out: Vec<Type> = Vec::new();
            let mut i: usize = 0;
            while i < elems.len()
                invariant
                    i <= elems@.len(),
                    *t is Tuple,
                    t->Tuple_0 == *elems,
                    out@.len() == i,
                    forall|j: int|
                        0 <= j < i ==> model_type(out@[j]) == subst_type(
                            model_type(elems@[j]),
                            s.strategy(),
                        ),
                decreases elems@.len() - i,
            {
                proof {
                    assert(decreases_to!(*elems => elems[i as int]));
                    assert(decreases_to!(*t => t->Tuple_0));
                }
                out.push(rewritten_type(&elems[i], s));
                i += 1;
            }
            let r = Type::Tuple(out);
            proof {
                assert(model_type(r)->Tuple_0 =~= subst_type(
                    model_type(*t),
                    s.strategy(),
                )->Tuple_0);
            }
            r
        },
        Type::Other(text) => Type::Other(text.clone()),
    }
}

/// The path rewritten as `s` says.
pub fn rewritten_path(path: &TypePath, s: &Rewrite) -> (r: TypePath)
    ensures
        model_path(r) == subst_path(model_path(*path), s.strategy()),
    decreases s.rank(), *path,
{
    match s {
        Rewrite::DriverField { driver_id, driverfield_ident } => {
            if path.qself.is_none() && path.segments.len() == 2 {
                let field = "F".to_owned();
                if path.segments[0].ident == **driver_id && path.segments[1].ident == field {
                    let mut segments: Vec<PathSegment> = Vec::new();
                    segments.push(
                        PathSegment {
                            ident: (*driverfield_ident).clone(),
                            arguments: PathArguments::Absent,
                        },
                    );
                    let r = TypePath { qself: None, position: 0, leading_colon: false, segments };
                    proof {
                        assert(model_segments(r.segments) =~= named(
                            driverfield_ident@,
                        ).segments);
                    }
                    return r;
                }
            }
        },
        _ => {},
    }
    let qself = match &path.qself {
        Some(inner) => {
            let copy = rewritten_type(inner, &Rewrite::Keep);
            proof {
                lemma_keep_type(model_type(**inner));
            }
            Some(Box::new(copy))
        },
        None => None,
    };
    let segments = rewritten_segments(&path.segments, s);
    TypePath { qself, position: path.position, leading_colon: path.leading_colon, segments }
}

/// The segments rewritten as `s` says, each in its arguments.
pub fn rewritten_segments(segments: &Vec<PathSegment>, s: &Rewrite) -> (r: Vec<PathSegment>)
    ensures
        model_segments(r) == subst_segments(model_segments(*segments), s.strategy()),
    decreases s.rank(), *segments,
{
    let mut out: Vec<PathSegment> = Vec::new();
    let mut i: usize = 0;
    while i < segments.len()
        invariant
            i <= segments@.len(),
            out@.len() == i,
            forall|j: int|
                0 <= j < i ==> out@[j].ident@ == segments@[j].ident@ && model_arguments(
                    out@[j].arguments,
                ) == subst_arguments(model_arguments(segments@[j].arguments), s.strategy()),
        decreases segments@.len() - i,
    {
        proof {
            assert(decreases_to!(*segments => segments[i as int]));
            assert(decreases_to!(segments[i as int] => segments[i as int].arguments));
        }
        let arguments = rewritten_arguments(&segments[i].arguments, s);
        out.push(PathSegment { ident: segments[i].ident.clone(), arguments });
        i += 1;
    }
    proof {
        assert(model_segments(out) =~= subst_segments(model_segments(*segments), s.strategy()));
    }
    out
}

/// The arguments rewritten as `s` says.
pub fn rewritten_arguments(arguments: &PathArguments, s: &Rewrite) -> (r: PathArguments)
    ensures
        model_arguments(r) == subst_arguments(model_arguments(*arguments), s.strategy()),
    decreases s.rank(), *arguments,
{
    match arguments {
        PathArguments::Absent => PathArguments::Absent,
        PathArguments::AngleBracketed(args) => {
            let mut out: Vec<GenericArgument> = Vec::new();
            let mut i: usize = 0;
            while i < args.len()
                invariant
                    i <= args@.len(),
                    *arguments is AngleBracketed,
                    arguments->AngleBracketed_0 == *args,
                    out@.len() == i,
                    forall|j: int|
                        0 <= j < i ==> model_argument(out@[j]) == subst_argument(
                            model_argument(args@[j]),
                            s.strategy(),
                        ),
                decreases args@.len() - i,
            {
                proof {
                    assert(decreases_to!(*args => args[i as int]));
                    assert(decreases_to!(*arguments => arguments->AngleBracketed_0));
                }
                out.push(rewritten_argument(&args[i], s));
                i += 1;
            }
            let r = PathArguments::AngleBracketed(out);
            proof {
                assert(model_arguments(r)->AngleBracketed_0 =~= subst_arguments(
                    model_arguments(*arguments),
                    s.strategy(),
                )->AngleBracketed_0);
            }
            r
        },
        PathArguments::Parenthesized(text) => PathArguments::Parenthesized(text.clone()),
    }
}

/// The argument rewritten as `s` says.
pub fn rewritten_argument(argument: &GenericArgument, s: &Rewrite) -> (r: GenericArgument)
    ensures
        model_argument(r) == subst_argument(model_argument(*argument), s.strategy()),
    decreases s.rank(), *argument,
{
    match argument {
        GenericArgument::Lifetime(name) => {
            let inferred = "_".to_owned();
            match s {
                Rewrite::PhantomField { field_type } => {
                    if *name == inferred {
                        GenericArgument::Lifetime("static".to_owned())
                    } else {
                        GenericArgument::Lifetime(name.clone())
                    }
                },
                _ => GenericArgument::Lifetime(name.clone()),
            }
        },
        GenericArgument::Type(t) => GenericArgument::Type(rewritten_type(t, s)),
        GenericArgument::AssocType(name, t) => GenericArgument::AssocType(
            name.clone(),
            rewritten_type(t, s),
        ),
        GenericArgument::Constraint(name, bounds) => GenericArgument::Constraint(
            name.clone(),
            rewritten_bounds(bounds, s),
        ),
        GenericArgument::Other(text) => GenericArgument::Other(text.clone()),
    }
}

/// The bounds rewritten as `s` says.
pub fn rewritten_bounds(bounds: &Vec<TypeParamBound>, s: &Rewrite) -> (r: Vec<TypeParamBound>)
    ensures
        model_bounds(r) == subst_bounds(model_bounds(*bounds), s.strategy()),
    decreases s.rank(), *bounds,
{
    let mut out: Vec<TypeParamBound> = Vec::new();
    let mut i: usize = 0;
    while i < bounds.len()
        invariant
            i <= bounds@.len(),
            out@.len() == i,
            forall|j: int|
                0 <= j < i ==> model_bound(out@[j]) == subst_bound(
                    model_bound(bounds@[j]),
                    s.strategy(),
                ),
        decreases bounds@.len() - i,
    {
        proof {
            assert(decreases_to!(*bounds => bounds[i as int]));
        }
        out.push(rewritten_bound(&bounds[i], s));
        i += 1;
    }
    proof {
        assert(model_bounds(out) =~= subst_bounds(model_bounds(*bounds), s.strategy()));
    }
    out
}

/// The bound rewritten as `s` says.
pub fn rewritten_bound(bound: &TypeParamBound, s: &Rewrite) -> (r: TypeParamBound)
    ensures
        model_bound(r) == subst_bound(model_bound(*bound), s.strategy()),
    decreases s.rank(), *bound,
{
    match bound {
        TypeParamBound::Trait { prefix, leading_colon, segments } => TypeParamBound::Trait {
            prefix: prefix.clone(),
            leading_colon: *leading_colon,
            segments: rewritten_segments(segments, s),
        },
        TypeParamBound::Other(text) => TypeParamBound::Other(text.clone()),
    }
}

/// Replaces every inferred type of `ty` by `::core::marker::PhantomData` of
/// `field_type`, and every inferred lifetime by `'static`. Only the
/// arguments of paths and the members of tuples are looked into.
pub fn replace_inferences(ty: &mut Type, field_type: &Type)
    ensures
        model_type(*final(ty)) == subst_type(
            model_type(*old(ty)),
            Strategy::PhantomField { field_type: model_type(*field_type) },
        ),
{
    let rewritten = rewritten_type(ty, &Rewrite::PhantomField { field_type });
    *ty = rewritten;
}

/// Replaces `driver_id::F` by `driverfield_ident` in the bounds and in the
/// default of a type parameter. Any other parameter stays as it is.
pub fn replace_driver_field_in_generic_param(
    param: &mut GenericParam,
    driver_id: &String,
    driverfield_ident: &String,
)
    ensures
        model_param(*final(param)) == subst_param(
            model_param(*old(param)),
            Strategy::DriverField { driver_id: driver_id@, driverfield_ident: driverfield_ident@ },
        ),
{
    let strategy = Rewrite::DriverField { driver_id, driverfield_ident };
    let rewritten = match param {
        GenericParam::Type { ident, bounds, default } => {
            let bounds = rewritten_bounds(bounds, &strategy);
            let default = match default {
                Some(t) => Some(rewritten_type(t, &strategy)),
                None => None,
            };
            Some(GenericParam::Type { ident: ident.clone(), bounds, default })
        },
        GenericParam::Other(_) => None,
    };
    match rewritten {
        Some(p) => {
            *param = p;
        },
        None => {},
    }
}

/// What the shorthand is given: the field, whether the path is taken as it
/// is, and the path.
#[derive(Debug, PartialEq, Eq)]
pub struct Input {
    pub f: Type,
    pub cast: bool,
    pub path: Type,
}

/// Where the core crate is found.
#[derive(Debug, PartialEq, Eq)]
pub struct RaguCorePath {
    pub leading_colon: bool,
    pub segments: Vec<String>,
}

/// The names of `names`.
pub open spec fn names_of(names: Seq<String>) -> Seq<Seq<char>> {
    Seq::new(names.len(), |i: int| names[i]@)
}

/// The kind of the gadget `gadget` over the field `f`:
/// `<gadget as core::gadgets::Gadget<'static, ::core::marker::PhantomData<f>>>::Kind`,
/// with `core` as the path of the core crate.
pub open spec fn kind_of(
    gadget: TypeModel,
    f: TypeModel,
    core_leading_colon: bool,
    core: Seq<Seq<char>>,
) -> TypeModel {
    TypeModel::Path(
        PathModel {
            qself: Some(Box::new(gadget)),
            position: core.len() + 2,
            leading_colon: core_leading_colon,
            segments: plain_segments(core).push(
                SegmentModel { ident: "gadgets"@, arguments: ArgumentsModel::Absent },
            ).push(
                SegmentModel {
                    ident: "Gadget"@,
                    arguments: ArgumentsModel::AngleBracketed(
                        seq![
                            ArgumentModel::Lifetime("static"@),
                            ArgumentModel::Type(phantom_data(f)),
                        ],
                    ),
                },
            ).push(SegmentModel { ident: "Kind"@, arguments: ArgumentsModel::Absent }),
        },
    )
}

impl RaguCorePath {
    /// The path `::ragu_core`.
    pub fn default_path() -> (r: RaguCorePath)
        ensures
            r.leading_colon,
            names_of(r.segments@) == seq!["ragu_core"@],
    {
        let mut segments: Vec<String> = Vec::new();
        segments.push("ragu_core".to_owned());
        assert(names_of(segments@) =~= seq!["ragu_core"@]);
        RaguCorePath { leading_colon: true, segments }
    }
}

/// What the shorthand stands for: the path with its inferences replaced,
/// and, unless the path is taken as it is, the kind of the gadget that this
/// names.
pub fn evaluate(input: Input, ragu_core_path: &RaguCorePath) -> (r: Type)
    requires
        ragu_core_path.segments@.len() + 2 <= usize::MAX,
    ensures
        model_type(r) == if input.cast {
            subst_type(
                model_type(input.path),
                Strategy::PhantomField { field_type: model_type(input.f) },
            )
        } else {
            kind_of(
                subst_type(
                    model_type(input.path),
                    Strategy::PhantomField { field_type: model_type(input.f) },
                ),
                model_type(input.f),
                ragu_core_path.leading_colon,
                names_of(ragu_core_path.segments@),
            )
        },
{
    let strategy = Rewrite::PhantomField { field_type: &input.f };
    let subst = rewritten_type(&input.path, &strategy);
    if input.cast {
        return subst;
    }
    let mut segments: Vec<PathSegment> = Vec::new();
    let mut i: usize = 0;
    while i < ragu_core_path.segments.len()
        invariant
            i <= ragu_core_path.segments@.len(),
            segments@.len() == i,
            forall|j: int|
                0 <= j < i ==> segments@[j].ident@ == ragu_core_path.segments@[j]@
                    && segments@[j].arguments == PathArguments::Absent,
        decreases ragu_core_path.segments@.len() - i,
    {
        segments.push(
            PathSegment {
                ident: ragu_core_path.segments[i].clone(),
                arguments: PathArguments::Absent,
            },
        );
        i += 1;
    }
    let phantom = rewritten_type(&Type::Infer, &strategy);
    let mut args: Vec<GenericArgument> = Vec::new();
    args.push(GenericArgument::Lifetime("static".to_owned()));
    args.push(GenericArgument::Type(phantom));
    segments.push(plain_segment("gadgets"));
    segments.push(
        PathSegment { ident: "Gadget".to_owned(), arguments: PathArguments::AngleBracketed(args) },
    );
    segments.push(plain_segment("Kind"));
    let position = ragu_core_path.segments.len() + 2;
    let path = TypePath {
        qself: Some(Box::new(subst)),
        position,
        leading_colon: ragu_core_path.leading_colon,
        segments,
    };
    proof {
        let f = model_type(input.f);
        let want = kind_of(
            model_type(subst),
            f,
            ragu_core_path.leading_colon,
            names_of(ragu_core_path.segments@),
        );
        let n = ragu_core_path.segments@.len() as int;
        assert(model_arguments(path.segments@[n + 1].arguments)->AngleBracketed_0 =~= seq![
            ArgumentModel::Lifetime("static"@),
            ArgumentModel::Type(phantom_data(f)),
        ]);
        assert(model_segments(path.segments) =~= want->Path_0.segments);
        assert(model_path(path).qself == want->Path_0.qself);
        assert(model_path(path) == want->Path_0);
    }
    Type::Path(path)
}

} // verus!
