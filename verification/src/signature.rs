//! Syntactic inspection of Rust types and function signatures for the
//! export macros: self-reference detection and `Result` return detection.

use vstd::prelude::*;
use vstd::string::*;
use crate::text::str_eq;

verus! {

/// The shape of a Rust type, as far as the export macros look into it.
pub enum TypeTree {
    /// A path such as `a::b::C<T>`.
    Path(Vec<PathSegment>),
    /// `&T` or `&mut T`.
    Reference(Box<TypeTree>),
    /// `[T]`.
    Slice(Box<TypeTree>),
    /// `[T; N]`.
    Array(Box<TypeTree>),
    /// `(A, B, ...)`.
    Tuple(Vec<TypeTree>),
    /// `(T)`.
    Paren(Box<TypeTree>),
    /// An invisible group around a type.
    Group(Box<TypeTree>),
    /// `*const T` or `*mut T`.
    Ptr(Box<TypeTree>),
    /// `fn(A, B) -> C`; `output` is `None` for the default return type.
    BareFn { inputs: Vec<TypeTree>, output: Option<Box<TypeTree>> },
    /// `dyn A + B`: the paths of its trait bounds.
    TraitObject(Vec<BoundPath>),
    /// `impl A + B`: the paths of its trait bounds.
    ImplTrait(Vec<BoundPath>),
    /// `<Q as Trait>::Name`: the qualified self type and the path.
    Qualified { qself: Box<TypeTree>, path: Vec<PathSegment> },
    /// A type that holds no path (`_`, `!`).
    Other,
}

/// The path of a trait bound (`Trait<..>`, `Fn(..) -> ..`); lifetime
/// bounds are left out.
pub struct BoundPath {
    pub segments: Vec<PathSegment>,
}

/// One segment of a path: its identifier and its arguments.
pub struct PathSegment {
    pub ident: String,
    pub arguments: PathArgs,
}

/// The arguments of a path segment.
pub enum PathArgs {
    /// No arguments.
    Bare,
    /// `<...>`.
    AngleBracketed(Vec<GenericArg>),
    /// `(A, B) -> C`; `output` is `None` for the default return type.
    Parenthesized { inputs: Vec<TypeTree>, output: Option<Box<TypeTree>> },
}

/// One generic argument.
pub enum GenericArg {
    /// A type argument.
    Type(TypeTree),
    /// An associated type binding `Name = Type`: its type.
    AssocType(TypeTree),
    /// An associated type bound `Name: Bounds`: the paths of its bounds.
    Constraint(Vec<BoundPath>),
    /// A lifetime, a constant or an associated constant.
    Other,
}

/// Whether `ty` mentions a path segment named `ident`.
pub open spec fn type_mentions(ty: TypeTree, ident: Seq<char>) -> bool
    decreases ty, 0int, 0int,
{
    match ty {
        TypeTree::Path(segs) => segments_mention(segs@, 0, ident),
        TypeTree::Reference(t) => type_mentions(*t, ident),
        TypeTree::Slice(t) => type_mentions(*t, ident),
        TypeTree::Array(t) => type_mentions(*t, ident),
        TypeTree::Tuple(elems) => types_mention(elems@, 0, ident),
        TypeTree::Paren(t) => type_mentions(*t, ident),
        TypeTree::Group(t) => type_mentions(*t, ident),
        TypeTree::Ptr(t) => type_mentions(*t, ident),
        TypeTree::BareFn { inputs, output } => types_mention(inputs@, 0, ident) || match output {
            Some(t) => type_mentions(*t, ident),
            None => false,
        },
        TypeTree::TraitObject(bounds) => bounds_mention(bounds@, 0, ident),
        TypeTree::ImplTrait(bounds) => bounds_mention(bounds@, 0, ident),
        TypeTree::Qualified { qself, path } => type_mentions(*qself, ident) || segments_mention(path@, 0, ident),
        TypeTree::Other => false,
    }
}

/// Whether the path of one of the bounds `bounds[i..]` mentions `ident`.
pub open spec fn bounds_mention(bounds: Seq<BoundPath>, i: int, ident: Seq<char>) -> bool
    decreases bounds, bounds.len() - i, 0int,
{
    if i < 0 || i >= bounds.len() {
        false
    } else {
        segments_mention(bounds[i].segments@, 0, ident) || bounds_mention(bounds, i + 1, ident)
    }
}

/// Whether one of `segs[i..]` is named `ident` or mentions it in its arguments.
pub open spec fn segments_mention(segs: Seq<PathSegment>, i: int, ident: Seq<char>) -> bool
    decreases segs, segs.len() - i, 0int,
{
    if i < 0 || i >= segs.len() {
        false
    } else {
        segment_mentions(segs[i], ident) || segments_mention(segs, i + 1, ident)
    }
}

/// Whether a segment is named `ident`, or one of its type arguments, inputs
/// or output mentions it.
pub open spec fn segment_mentions(seg: PathSegment, ident: Seq<char>) -> bool
    decreases seg, 0int, 0int,
{
    seg.ident@ == ident || match seg.arguments {
        PathArgs::Bare => false,
        PathArgs::AngleBracketed(args) => generics_mention(args@, 0, ident),
        PathArgs::Parenthesized { inputs, output } => types_mention(inputs@, 0, ident) || match output {
            Some(t) => type_mentions(*t, ident),
            None => false,
        },
    }
}

/// Whether one of the type arguments `args[i..]` mentions `ident`.
pub open spec fn generics_mention(args: Seq<GenericArg>, i: int, ident: Seq<char>) -> bool
    decreases args, args.len() - i, 0int,
{
    if i < 0 || i >= args.len() {
        false
    } else {
        (match args[i] {
            GenericArg::Type(t) => type_mentions(t, ident),
            GenericArg::AssocType(t) => type_mentions(t, ident),
            GenericArg::Constraint(bounds) => bounds_mention(bounds@, 0, ident),
            GenericArg::Other => false,
        }) || generics_mention(args, i + 1, ident)
    }
}

/// Whether one of the types `tys[i..]` mentions `ident`.
pub open spec fn types_mention(tys: Seq<TypeTree>, i: int, ident: Seq<char>) -> bool
    decreases tys, tys.len() - i, 0int,
{
    if i < 0 || i >= tys.len() {
        false
    } else {
        type_mentions(tys[i], ident) || types_mention(tys, i + 1, ident)
    }
}

/// Checks whether `ty` syntactically contains, anywhere, a path segment
/// whose identifier is `ident`: in its paths and their arguments, behind
/// references and pointers, in slices, arrays, tuples, parentheses and
/// groups, in the inputs and output of function types, in the bounds of
/// trait objects and `impl Trait`, and in qualified self types.
pub fn type_contains_ident(ty: &TypeTree, ident: &str) -> (r: bool)
    ensures
        r == type_mentions(*ty, ident@),
    decreases *ty, 0int, 0int,
{
    match ty {
        TypeTree::Path(segs) => segments_contain_ident(segs, ident),
        TypeTree::Reference(t) => type_contains_ident(t, ident),
        TypeTree::Slice(t) => type_contains_ident(t, ident),
        TypeTree::Array(t) => type_contains_ident(t, ident),
        TypeTree::Tuple(elems) => types_contain_ident(elems, ident),
        TypeTree::Paren(t) => type_contains_ident(t, ident),
        TypeTree::Group(t) => type_contains_ident(t, ident),
        TypeTree::Ptr(t) => type_contains_ident(t, ident),
        TypeTree::BareFn { inputs, output } => {
            if types_contain_ident(inputs, ident) {
                true
            } else {
                match output {
                    Some(t) => type_contains_ident(t, ident),
                    None => false,
                }
            }
        },
        TypeTree::TraitObject(bounds) => bounds_contain_ident(bounds, ident),
        TypeTree::ImplTrait(bounds) => bounds_contain_ident(bounds, ident),
        TypeTree::Qualified { qself, path } => type_contains_ident(qself, ident) || segments_contain_ident(path, ident),
        TypeTree::Other => false,
    }
}

fn bounds_contain_ident(bounds: &Vec<BoundPath>, ident: &str) -> (r: bool)
    ensures
        r == bounds_mention(bounds@, 0, ident@),
    decreases bounds@, bounds@.len() + 1, 0int,
{
    let n = bounds.len();
    let mut i: usize = n;
    while i > 0
        invariant
            n == bounds@.len(),
            i <= n,
            !bounds_mention(bounds@, i as int, ident@),
        decreases i,
    {
        i -= 1;
        assert(decreases_to!(bounds@ => bounds@[i as int]));
        if segments_contain_ident(&bounds[i].segments, ident) {
            proof { lemma_bounds_found_from(bounds@, 0, i as int, ident@); }
            return true;
        }
    }
    false
}

proof fn lemma_bounds_found_from(bounds: Seq<BoundPath>, i: int, k: int, ident: Seq<char>)
    requires
        0 <= i <= k < bounds.len(),
        segments_mention(bounds[k].segments@, 0, ident),
    ensures
        bounds_mention(bounds, i, ident),
    decreases k - i,
{
    if i < k {
        lemma_bounds_found_from(bounds, i + 1, k, ident);
    }
}

fn segments_contain_ident(segs: &Vec<PathSegment>, ident: &str) -> (r: bool)
    ensures
        r == segments_mention(segs@, 0, ident@),
    decreases segs@, segs@.len() + 1, 0int,
{
    let n = segs.len();
    let mut i: usize = n;
    while i > 0
        invariant
            n == segs@.len(),
            i <= n,
            !segments_mention(segs@, i as int, ident@),
        decreases i,
    {
        i -= 1;
        assert(decreases_to!(segs@ => segs@[i as int]));
        if segment_contains_ident(&segs[i], ident) {
            proof { lemma_segments_found_from(segs@, 0, i as int, ident@); }
            return true;
        }
    }
    false
}

proof fn lemma_segments_found_from(segs: Seq<PathSegment>, i: int, k: int, ident: Seq<char>)
    requires
        0 <= i <= k < segs.len(),
        segment_mentions(segs[k], ident),
    ensures
        segments_mention(segs, i, ident),
    decreases k - i,
{
    if i < k {
        lemma_segments_found_from(segs, i + 1, k, ident);
    }
}

fn segment_contains_ident(seg: &PathSegment, ident: &str) -> (r: bool)
    ensures
        r == segment_mentions(*seg, ident@),
    decreases *seg, 0int, 0int,
{
    if str_eq(seg.ident.as_str(), ident) {
        return true;
    }
    match &seg.arguments {
        PathArgs::Bare => false,
        PathArgs::AngleBracketed(args) => generics_contain_ident(args, ident),
        PathArgs::Parenthesized { inputs, output } => {
            if types_contain_ident(inputs, ident) {
                true
            } else {
                match output {
                    Some(t) => type_contains_ident(t, ident),
                    None => false,
                }
            }
        },
    }
}

fn generics_contain_ident(args: &Vec<GenericArg>, ident: &str) -> (r: bool)
    ensures
        r == generics_mention(args@, 0, ident@),
    decreases args@, args@.len() + 1, 0int,
{
    let n = args.len();
    let mut i: usize = n;
    while i > 0
        invariant
            n == args@.len(),
            i <= n,
            !generics_mention(args@, i as int, ident@),
        decreases i,
    {
        i -= 1;
        assert(decreases_to!(args@ => args@[i as int]));
        let hit = match &args[i] {
            GenericArg::Type(t) => type_contains_ident(t, ident),
            GenericArg::AssocType(t) => type_contains_ident(t, ident),
            GenericArg::Constraint(bounds) => bounds_contain_ident(bounds, ident),
            GenericArg::Other => false,
        };
        if hit {
            proof { lemma_generics_found_from(args@, 0, i as int, ident@); }
            return true;
        }
    }
    false
}

/// Whether one generic argument mentions `ident`.
pub open spec fn generic_mentions(arg: GenericArg, ident: Seq<char>) -> bool {
    match arg {
        GenericArg::Type(t) => type_mentions(t, ident),
        GenericArg::AssocType(t) => type_mentions(t, ident),
        GenericArg::Constraint(bounds) => bounds_mention(bounds@, 0, ident),
        GenericArg::Other => false,
    }
}

proof fn lemma_generics_found_from(args: Seq<GenericArg>, i: int, k: int, ident: Seq<char>)
    requires
        0 <= i <= k < args.len(),
        generic_mentions(args[k], ident),
    ensures
        generics_mention(args, i, ident),
    decreases k - i,
{
    if i < k {
        lemma_generics_found_from(args, i + 1, k, ident);
    }
}

fn types_contain_ident(tys: &Vec<TypeTree>, ident: &str) -> (r: bool)
    ensures
        r == types_mention(tys@, 0, ident@),
    decreases tys@, tys@.len() + 1, 0int,
{
    let n = tys.len();
    let mut i: usize = n;
    while i > 0
        invariant
            n == tys@.len(),
            i <= n,
            !types_mention(tys@, i as int, ident@),
        decreases i,
    {
        i -= 1;
        assert(decreases_to!(tys@ => tys@[i as int]));
        if type_contains_ident(&tys[i], ident) {
            proof { lemma_types_found_from(tys@, 0, i as int, ident@); }
            return true;
        }
    }
    false
}

proof fn lemma_types_found_from(tys: Seq<TypeTree>, i: int, k: int, ident: Seq<char>)
    requires
        0 <= i <= k < tys.len(),
        type_mentions(tys[k], ident),
    ensures
        types_mention(tys, i, ident),
    decreases k - i,
{
    if i < k {
        lemma_types_found_from(tys, i + 1, k, ident);
    }
}

} // verus!

verus! {

/// One parameter of a function signature.
pub enum FnInput {
    /// `pattern: Type`.
    Typed,
    /// `self`, `&self`, `&mut self`, ...
    Receiver,
}

/// The declared return type of a function.
pub enum FnOutput {
    /// No return type (`()`).
    Default,
    Type(TypeTree),
}

/// A function signature, as far as the export macros look into it.
pub struct FnSignature {
    pub inputs: Vec<FnInput>,
    pub output: FnOutput,
}

/// What a function returns, for the generated wrapper.
#[derive(Debug, PartialEq, Eq, Structural)]
pub enum ReturnShape {
    /// Nothing: the value is `()`.
    Unit,
    /// A value of the declared type.
    Plain,
    /// `...::Result<T, ...>`: the value is `T`, and an error is passed on.
    ResultOf,
}

/// What can be exported of a signature.
#[derive(Debug, PartialEq, Eq, Structural)]
pub struct SignatureInfo {
    pub arg_count: usize,
    pub result: ReturnShape,
}

/// Why a signature cannot be exported.
#[derive(Debug, PartialEq, Eq, Structural)]
pub enum SignatureError {
    /// `self` is not supported in exported functions.
    SelfReceiver,
}

/// A return type counts as a `Result` when it is a path (qualified or not)
/// whose last segment is named `Result` and has angle-bracketed arguments,
/// the first of which is a type. Aliases and nested results are not
/// recognised.
pub open spec fn is_result_type(ty: TypeTree) -> bool {
    match ty {
        TypeTree::Path(segs) => is_result_path(segs@),
        TypeTree::Qualified { path, .. } => is_result_path(path@),
        _ => false,
    }
}

/// A path names a `Result` when its last segment is `Result` with
/// angle-bracketed arguments, the first of which is a type.
pub open spec fn is_result_path(segs: Seq<PathSegment>) -> bool {
    segs.len() > 0 && segs.last().ident@ == "Result"@ && match segs.last().arguments {
        PathArgs::AngleBracketed(args) => args@.len() > 0 && args@[0] is Type,
        _ => false,
    }
}

fn path_is_result(segs: &Vec<PathSegment>) -> (r: bool)
    ensures
        r == is_result_path(segs@),
{
    let m = segs.len();
    if m == 0 {
        false
    } else {
        let last = &segs[m - 1];
        str_eq(last.ident.as_str(), "Result") && match &last.arguments {
            PathArgs::AngleBracketed(args) => args.len() > 0 && match &args[0] {
                GenericArg::Type(_) => true,
                _ => false,
            },
            _ => false,
        }
    }
}

/// The return shape of a declared return type.
pub open spec fn return_shape(out: FnOutput) -> ReturnShape {
    match out {
        FnOutput::Default => ReturnShape::Unit,
        FnOutput::Type(t) => if is_result_type(t) { ReturnShape::ResultOf } else { ReturnShape::Plain },
    }
}

/// Checks a signature for export: every parameter must be typed (no
/// `self`), and the return type is classified.
pub fn extract_fn_signature(sig: &FnSignature) -> (r: Result<SignatureInfo, SignatureError>)
    ensures
        match r {
            Ok(info) => {
                &&& forall|i: int| 0 <= i < sig.inputs@.len() ==> (#[trigger] sig.inputs@[i]) is Typed
                &&& info.arg_count == sig.inputs@.len()
                &&& info.result == return_shape(sig.output)
            },
            Err(e) => e == SignatureError::SelfReceiver && exists|i: int| 0 <= i < sig.inputs@.len() && (#[trigger] sig.inputs@[i]) is Receiver,
        },
{
    let n = sig.inputs.len();
    let mut i: usize = 0;
    while i < n
        invariant
            n == sig.inputs@.len(),
            i <= n,
            forall|j: int| 0 <= j < i ==> (#[trigger] sig.inputs@[j]) is Typed,
        decreases n - i,
    {
        match &sig.inputs[i] {
            FnInput::Receiver => return Err(SignatureError::SelfReceiver),
            FnInput::Typed => {},
        }
        i += 1;
    }
    let result = match &sig.output {
        FnOutput::Default => ReturnShape::Unit,
        FnOutput::Type(t) => {
            let is_result = match t {
                TypeTree::Path(segs) => path_is_result(segs),
                TypeTree::Qualified { path, .. } => path_is_result(path),
                _ => false,
            };
            if is_result { ReturnShape::ResultOf } else { ReturnShape::Plain }
        },
    };
    Ok(SignatureInfo { arg_count: n, result })
}

} // verus!

verus! {

/// A return type whose path ends in a segment named `Result` with angle
/// brackets whose first argument is a type is classified as a `Result`,
/// however many arguments follow (`Result<T>`, `Result<T, E>`, ...), and
/// whatever precedes the last segment; a return type whose path ends in any
/// other name is a plain value, and no return type is the unit value.
pub proof fn lemma_result_return_shapes(segs: Vec<PathSegment>, args: Vec<GenericArg>, t: TypeTree)
    ensures
        (segs@.len() > 0 && segs@.last().ident@ == "Result"@
            && segs@.last().arguments == PathArgs::AngleBracketed(args)
            && args@.len() >= 1 && args@[0] == GenericArg::Type(t))
            ==> return_shape(FnOutput::Type(TypeTree::Path(segs))) == ReturnShape::ResultOf,
        (segs@.len() > 0 && segs@.last().ident@ != "Result"@)
            ==> return_shape(FnOutput::Type(TypeTree::Path(segs))) == ReturnShape::Plain,
        return_shape(FnOutput::Default) == ReturnShape::Unit,
{
}

} // verus!
