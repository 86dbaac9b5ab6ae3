//! The part of rustdoc's JSON output that the node graph reads, as plain
//! values, together with a mathematical view of each type.
//!
//! The variants that the graph logic never looks into are folded into an
//! `Other` variant; identifiers, names, attributes and the shape of types are
//! kept as rustdoc gives them.

use vstd::prelude::*;

verus! {

/// What kind of item a summary describes; carried through unchanged.
#[verifier::external_type_specification]
#[verifier::external_body]
pub struct ExItemKind(rustdoc_types::ItemKind);

/// A crate that the documented crate depends on; carried through unchanged.
#[verifier::external_type_specification]
#[verifier::external_body]
pub struct ExExternalCrate(rustdoc_types::ExternalCrate);

/// The derived `Clone` of `rustdoc_types::ExternalCrate`: it clones the
/// crate's name and documentation URL field by field, so the copy equals
/// the value it was made from.
pub assume_specification[<rustdoc_types::ExternalCrate as Clone>::clone](
    c: &rustdoc_types::ExternalCrate,
) -> (r: rustdoc_types::ExternalCrate)
    ensures
        r == *c,
;

/// The rustdoc identifier of an item within one crate.
#[derive(Debug, Clone, Copy, PartialEq, Eq, Hash, Structural)]
pub struct Id(pub u32);

/// A path to a type, with its generic arguments.
#[derive(Debug, PartialEq, Eq, Hash)]
pub struct Path {
    pub name: String,
    pub id: Id,
    pub args: Option<Box<GenericArgs>>,
}

/// The generic arguments of a path.
#[derive(Debug, PartialEq, Eq, Hash)]
pub enum GenericArgs {
    /// `<'a, T, N>`
    AngleBracketed { args: Vec<GenericArg> },
    /// `Fn(A, B)`
    Parenthesized { inputs: Vec<Type> },
}

/// One generic argument: a type, or something else (a lifetime, a constant,
/// `_`).
#[derive(Debug, PartialEq, Eq, Hash)]
pub enum GenericArg {
    Type(Type),
    Other,
}

/// A type as it is written in a signature or a field.
#[derive(Debug, PartialEq, Eq, Hash)]
pub enum Type {
    ResolvedPath(Path),
    QualifiedPath { self_type: Box<Type>, args: Box<GenericArgs> },
    Primitive(String),
    Tuple(Vec<Type>),
    Slice(Box<Type>),
    Array { type_: Box<Type> },
    /// Any other type: generics, references, pointers, trait objects, ...
    Other,
}

/// The shape of a struct's fields.
#[derive(Debug, PartialEq, Eq, Hash)]
pub enum StructKind {
    Unit,
    /// Fields that rustdoc hides are `None`.
    Tuple(Vec<Option<Id>>),
    Plain { fields: Vec<Id> },
}

/// The shape of an enum variant's fields.
#[derive(Debug, PartialEq, Eq, Hash)]
pub enum VariantKind {
    Plain,
    Tuple(Vec<Option<Id>>),
    Struct { fields: Vec<Id> },
}

/// What an item is.
#[derive(Debug, PartialEq, Eq, Hash)]
pub enum ItemEnum {
    Module { items: Vec<Id> },
    Struct { kind: StructKind, impls: Vec<Id> },
    StructField(Type),
    Enum { variants: Vec<Id> },
    Variant(VariantKind),
    Impl { trait_: Option<Path>, for_: Type, items: Vec<Id> },
    AssocType { type_: Option<Type> },
    /// Any other item: functions, traits, constants, uses, ...
    Other,
}

/// One item of a crate.
#[derive(Debug, PartialEq, Eq, Hash)]
pub struct Item {
    pub id: Id,
    pub name: Option<String>,
    /// The item's attributes as source text, e.g. `#[serde(skip)]`.
    pub attrs: Vec<String>,
    pub inner: ItemEnum,
}

/// The summary of an item that lives in another crate.
#[derive(Debug, PartialEq, Eq, Hash)]
pub struct ItemSummary {
    pub crate_id: u32,
    pub path: Vec<String>,
    pub kind: rustdoc_types::ItemKind,
}

// ---------------------------------------------------------------------------
// Mathematical views
// ---------------------------------------------------------------------------

pub struct PathV {
    pub name: Seq<char>,
    pub id: Id,
    pub args: Option<Box<GenericArgsV>>,
}

pub enum GenericArgsV {
    AngleBracketed(Seq<GenericArgV>),
    Parenthesized(Seq<TypeV>),
}

pub enum GenericArgV {
    Type(TypeV),
    Other,
}

pub enum TypeV {
    ResolvedPath(PathV),
    QualifiedPath { self_type: Box<TypeV>, args: Box<GenericArgsV> },
    Primitive(Seq<char>),
    Tuple(Seq<TypeV>),
    Slice(Box<TypeV>),
    Array(Box<TypeV>),
    Other,
}

pub enum StructKindV {
    Unit,
    Tuple(Seq<Option<Id>>),
    Plain(Seq<Id>),
}

pub enum VariantKindV {
    Plain,
    Tuple(Seq<Option<Id>>),
    Struct(Seq<Id>),
}

pub enum ItemEnumV {
    Module(Seq<Id>),
    Struct { kind: StructKindV, impls: Seq<Id> },
    StructField(TypeV),
    Enum(Seq<Id>),
    Variant(VariantKindV),
    Impl { trait_: Option<PathV>, for_: TypeV, items: Seq<Id> },
    AssocType(Option<TypeV>),
    Other,
}

pub struct ItemSummaryV {
    pub crate_id: u32,
    pub path: Seq<Seq<char>>,
    pub kind: rustdoc_types::ItemKind,
}

pub struct ItemV {
    pub id: Id,
    pub name: Option<Seq<char>>,
    pub attrs: Seq<Seq<char>>,
    pub inner: ItemEnumV,
}

pub open spec fn path_view(p: Path) -> PathV
    decreases p,
{
    PathV {
        name: p.name@,
        id: p.id,
        args: match p.args {
            Some(a) => Some(Box::new(args_view(*a))),
            None => None,
        },
    }
}

pub open spec fn args_view(a: GenericArgs) -> GenericArgsV
    decreases a,
{
    match a {
        GenericArgs::AngleBracketed { args } => GenericArgsV::AngleBracketed(arg_list_view(args)),
        GenericArgs::Parenthesized { inputs } => GenericArgsV::Parenthesized(types_view(inputs)),
    }
}

/// The views of a list of generic arguments.
pub open spec fn arg_list_view(v: Vec<GenericArg>) -> Seq<GenericArgV>
    decreases v,
{
    Seq::new(
        v.len() as nat,
        |i: int|
            if 0 <= i < v.len() {
                arg_view(v[i])
            } else {
                GenericArgV::Other
            },
    )
}

/// The views of a list of types.
pub open spec fn types_view(v: Vec<Type>) -> Seq<TypeV>
    decreases v,
{
    Seq::new(
        v.len() as nat,
        |i: int|
            if 0 <= i < v.len() {
                type_view(v[i])
            } else {
                TypeV::Other
            },
    )
}

pub open spec fn arg_view(a: GenericArg) -> GenericArgV
    decreases a,
{
    match a {
        GenericArg::Type(t) => GenericArgV::Type(type_view(t)),
        GenericArg::Other => GenericArgV::Other,
    }
}

pub open spec fn type_view(t: Type) -> TypeV
    decreases t,
{
    match t {
        Type::ResolvedPath(p) => TypeV::ResolvedPath(path_view(p)),
        Type::QualifiedPath { self_type, args } => TypeV::QualifiedPath {
            self_type: Box::new(type_view(*self_type)),
            args: Box::new(args_view(*args)),
        },
        Type::Primitive(s) => TypeV::Primitive(s@),
        Type::Tuple(v) => TypeV::Tuple(types_view(v)),
        Type::Slice(b) => TypeV::Slice(Box::new(type_view(*b))),
        Type::Array { type_ } => TypeV::Array(Box::new(type_view(*type_))),
        Type::Other => TypeV::Other,
    }
}

pub open spec fn option_type_view(t: Option<Type>) -> Option<TypeV> {
    match t {
        Some(t) => Some(type_view(t)),
        None => None,
    }
}

pub open spec fn option_path_view(p: Option<Path>) -> Option<PathV> {
    match p {
        Some(p) => Some(path_view(p)),
        None => None,
    }
}

impl View for Path {
    type V = PathV;

    open spec fn view(&self) -> PathV {
        path_view(*self)
    }
}

impl View for GenericArgs {
    type V = GenericArgsV;

    open spec fn view(&self) -> GenericArgsV {
        args_view(*self)
    }
}

impl View for GenericArg {
    type V = GenericArgV;

    open spec fn view(&self) -> GenericArgV {
        arg_view(*self)
    }
}

impl View for Type {
    type V = TypeV;

    open spec fn view(&self) -> TypeV {
        type_view(*self)
    }
}

impl View for StructKind {
    type V = StructKindV;

    open spec fn view(&self) -> StructKindV {
        match self {
            StructKind::Unit => StructKindV::Unit,
            StructKind::Tuple(v) => StructKindV::Tuple(v@),
            StructKind::Plain { fields } => StructKindV::Plain(fields@),
        }
    }
}

impl View for VariantKind {
    type V = VariantKindV;

    open spec fn view(&self) -> VariantKindV {
        match self {
            VariantKind::Plain => VariantKindV::Plain,
            VariantKind::Tuple(v) => VariantKindV::Tuple(v@),
            VariantKind::Struct { fields } => VariantKindV::Struct(fields@),
        }
    }
}

impl View for ItemEnum {
    type V = ItemEnumV;

    open spec fn view(&self) -> ItemEnumV {
        match self {
            ItemEnum::Module { items } => ItemEnumV::Module(items@),
            ItemEnum::Struct { kind, impls } => ItemEnumV::Struct { kind: kind@, impls: impls@ },
            ItemEnum::StructField(t) => ItemEnumV::StructField(t@),
            ItemEnum::Enum { variants } => ItemEnumV::Enum(variants@),
            ItemEnum::Variant(k) => ItemEnumV::Variant(k@),
            ItemEnum::Impl { trait_, for_, items } => ItemEnumV::Impl {
                trait_: option_path_view(*trait_),
                for_: for_@,
                items: items@,
            },
            ItemEnum::AssocType { type_ } => ItemEnumV::AssocType(option_type_view(*type_)),
            ItemEnum::Other => ItemEnumV::Other,
        }
    }
}

/// The characters of each string of a sequence.
pub open spec fn strings_view(v: Seq<String>) -> Seq<Seq<char>> {
    v.map_values(|s: String| s@)
}

impl View for ItemSummary {
    type V = ItemSummaryV;

    open spec fn view(&self) -> ItemSummaryV {
        ItemSummaryV { crate_id: self.crate_id, path: strings_view(self.path@), kind: self.kind }
    }
}

impl View for Item {
    type V = ItemV;

    open spec fn view(&self) -> ItemV {
        ItemV {
            id: self.id,
            name: match self.name {
                Some(n) => Some(n@),
                None => None,
            },
            attrs: strings_view(self.attrs@),
            inner: self.inner@,
        }
    }
}


// ---------------------------------------------------------------------------
// Copies
// ---------------------------------------------------------------------------

pub(crate) fn copy_ids(v: &Vec<Id>) -> (r: Vec<Id>)
    ensures
        r@ == v@,
{
    let mut r: Vec<Id> = Vec::new();
    for i in 0..v.len()
        invariant
            r@ == v@.take(i as int),
    {
        r.push(v[i]);
        assert(r@ =~= v@.take(i + 1));
    }
    assert(v@.take(v.len() as int) =~= v@);
    r
}

fn copy_opt_ids(v: &Vec<Option<Id>>) -> (r: Vec<Option<Id>>)
    ensures
        r@ == v@,
{
    let mut r: Vec<Option<Id>> = Vec::new();
    for i in 0..v.len()
        invariant
            r@ == v@.take(i as int),
    {
        let x = match v[i] {
            Some(id) => Some(id),
            None => None,
        };
        r.push(x);
        assert(r@ =~= v@.take(i + 1));
    }
    assert(v@.take(v.len() as int) =~= v@);
    r
}

fn copy_strings(v: &Vec<String>) -> (r: Vec<String>)
    ensures
        r@ == v@,
{
    let mut r: Vec<String> = Vec::new();
    for i in 0..v.len()
        invariant
            r@ == v@.take(i as int),
    {
        r.push(v[i].clone());
        assert(r@ =~= v@.take(i + 1));
    }
    assert(v@.take(v.len() as int) =~= v@);
    r
}

fn copy_path(p: &Path) -> (r: Path)
    ensures
        r@ == p@,
    decreases p,
{
    let args = match &p.args {
        Some(a) => Some(Box::new(copy_args(a))),
        None => None,
    };
    Path { name: p.name.clone(), id: p.id, args }
}

fn copy_args(a: &GenericArgs) -> (r: GenericArgs)
    ensures
        r@ == a@,
    decreases a,
{
    match a {
        GenericArgs::AngleBracketed { args } => {
            GenericArgs::AngleBracketed { args: copy_arg_list(args) }
        },
        GenericArgs::Parenthesized { inputs } => {
            GenericArgs::Parenthesized { inputs: copy_types(inputs) }
        },
    }
}

fn copy_arg_list(v: &Vec<GenericArg>) -> (r: Vec<GenericArg>)
    ensures
        arg_list_view(r) == arg_list_view(*v),
    decreases v,
{
    let mut r: Vec<GenericArg> = Vec::new();
    for i in 0..v.len()
        invariant
            r.len() == i,
            forall|j: int| #![trigger r@[j]] 0 <= j < i ==> arg_view(r@[j]) == arg_view(v@[j]),
    {
        r.push(copy_arg(&v[i]));
    }
    assert(arg_list_view(r) =~= arg_list_view(*v));
    r
}

fn copy_arg(a: &GenericArg) -> (r: GenericArg)
    ensures
        r@ == a@,
    decreases a,
{
    match a {
        GenericArg::Type(t) => GenericArg::Type(copy_type(t)),
        GenericArg::Other => GenericArg::Other,
    }
}

fn copy_types(v: &Vec<Type>) -> (r: Vec<Type>)
    ensures
        types_view(r) == types_view(*v),
    decreases v,
{
    let mut r: Vec<Type> = Vec::new();
    for i in 0..v.len()
        invariant
            r.len() == i,
            forall|j: int| #![trigger r@[j]] 0 <= j < i ==> type_view(r@[j]) == type_view(v@[j]),
    {
        r.push(copy_type(&v[i]));
    }
    assert(types_view(r) =~= types_view(*v));
    r
}

fn copy_type(t: &Type) -> (r: Type)
    ensures
        r@ == t@,
    decreases t,
{
    match t {
        Type::ResolvedPath(p) => {
            let p2 = copy_path(p);
            let r = Type::ResolvedPath(p2);
            r
        },
        Type::QualifiedPath { self_type, args } => Type::QualifiedPath {
            self_type: Box::new(copy_type(self_type)),
            args: Box::new(copy_args(args)),
        },
        Type::Primitive(s) => Type::Primitive(s.clone()),
        Type::Tuple(v) => {
            Type::Tuple(copy_types(v))
        },
        Type::Slice(b) => Type::Slice(Box::new(copy_type(b))),
        Type::Array { type_ } => Type::Array { type_: Box::new(copy_type(type_)) },
        Type::Other => Type::Other,
    }
}

fn copy_opt_string(s: &Option<String>) -> (r: Option<String>)
    ensures
        r == *s,
{
    match s {
        Some(x) => Some(x.clone()),
        None => None,
    }
}

fn copy_struct_kind(k: &StructKind) -> (r: StructKind)
    ensures
        r@ == k@,
{
    match k {
        StructKind::Unit => StructKind::Unit,
        StructKind::Tuple(v) => StructKind::Tuple(copy_opt_ids(v)),
        StructKind::Plain { fields } => StructKind::Plain { fields: copy_ids(fields) },
    }
}

fn copy_variant_kind(k: &VariantKind) -> (r: VariantKind)
    ensures
        r@ == k@,
{
    match k {
        VariantKind::Plain => VariantKind::Plain,
        VariantKind::Tuple(v) => VariantKind::Tuple(copy_opt_ids(v)),
        VariantKind::Struct { fields } => VariantKind::Struct { fields: copy_ids(fields) },
    }
}

fn copy_item_enum(e: &ItemEnum) -> (r: ItemEnum)
    ensures
        r@ == e@,
{
    match e {
        ItemEnum::Module { items } => ItemEnum::Module { items: copy_ids(items) },
        ItemEnum::Struct { kind, impls } => ItemEnum::Struct {
            kind: copy_struct_kind(kind),
            impls: copy_ids(impls),
        },
        ItemEnum::StructField(t) => ItemEnum::StructField(copy_type(t)),
        ItemEnum::Enum { variants } => ItemEnum::Enum { variants: copy_ids(variants) },
        ItemEnum::Variant(k) => ItemEnum::Variant(copy_variant_kind(k)),
        ItemEnum::Impl { trait_, for_, items } => {
            let trait_ = match trait_ {
                Some(p) => Some(copy_path(p)),
                None => None,
            };
            ItemEnum::Impl { trait_, for_: copy_type(for_), items: copy_ids(items) }
        },
        ItemEnum::AssocType { type_ } => {
            let type_ = match type_ {
                Some(t) => Some(copy_type(t)),
                None => None,
            };
            ItemEnum::AssocType { type_ }
        },
        ItemEnum::Other => ItemEnum::Other,
    }
}

impl Clone for Path {
    fn clone(&self) -> (r: Self)
        ensures
            r@ == self@,
    {
        copy_path(self)
    }
}

impl Clone for GenericArgs {
    fn clone(&self) -> (r: Self)
        ensures
            r@ == self@,
    {
        copy_args(self)
    }
}

impl Clone for GenericArg {
    fn clone(&self) -> (r: Self)
        ensures
            r@ == self@,
    {
        copy_arg(self)
    }
}

impl Clone for Type {
    fn clone(&self) -> (r: Self)
        ensures
            r@ == self@,
    {
        copy_type(self)
    }
}

impl Clone for StructKind {
    fn clone(&self) -> (r: Self)
        ensures
            r@ == self@,
    {
        copy_struct_kind(self)
    }
}

impl Clone for VariantKind {
    fn clone(&self) -> (r: Self)
        ensures
            r@ == self@,
    {
        copy_variant_kind(self)
    }
}

impl Clone for ItemEnum {
    fn clone(&self) -> (r: Self)
        ensures
            r@ == self@,
    {
        copy_item_enum(self)
    }
}

impl Clone for Item {
    fn clone(&self) -> (r: Self)
        ensures
            r@ == self@,
    {
        Item {
            id: self.id,
            name: copy_opt_string(&self.name),
            attrs: copy_strings(&self.attrs),
            inner: copy_item_enum(&self.inner),
        }
    }
}

impl Clone for ItemSummary {
    fn clone(&self) -> (r: Self)
        ensures
            r@ == self@,
    {
        ItemSummary { crate_id: self.crate_id, path: copy_strings(&self.path), kind: self.kind }
    }
}
} // verus!
