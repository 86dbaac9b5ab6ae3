//! The nodes and edges of the type graph.

use std::cmp::Ordering;
use std::hash::{Hash, Hasher};
use vstd::prelude::*;
use vstd::std_specs::cmp::{PartialEqSpecImpl, PartialOrdSpecImpl};

use crate::item::{
    field_ids, field_ids_of, has_associated_item, has_field, has_variant, is_impl_for,
    item_has_associated_item, item_has_field, item_has_variant, item_is_impl_for,
    present_ids_exec, string_is, struct_kind_ids, variant_ids, variant_ids_of,
};
use crate::model::{
    arg_list_view, strings_view, types_view, GenericArg, GenericArgV, GenericArgs, GenericArgsV,
    Id, Item, ItemEnum, ItemEnumV, ItemSummary, ItemSummaryV, ItemV, Path, PathV, StructKind,
    Type, TypeV,
};
use crate::pattern::{first_group, is_match, regex_first_group, regex_matches};

verus! {

/// The kind of relation an edge of the graph stands for.
#[derive(Debug, Clone, Copy, PartialEq, Eq, Hash, Structural)]
pub enum Edge {
    ModuleItem,
    ImplFor,
    Impl,
    StructField,
    Type,
}

// ---------------------------------------------------------------------------
// GlobalId
// ---------------------------------------------------------------------------

/// A globally unique identifier of an item: the crate it lives in and its
/// rustdoc id within that crate.
#[derive(Debug)]
pub struct GlobalId {
    pub crate_: String,
    pub id: u32,
}

pub struct GlobalIdV {
    pub crate_: Seq<char>,
    pub id: u32,
}

impl View for GlobalId {
    type V = GlobalIdV;

    open spec fn view(&self) -> GlobalIdV {
        GlobalIdV { crate_: self.crate_@, id: self.id }
    }
}

impl GlobalId {
    pub fn new(crate_: &str, id: u32) -> (r: Self)
        ensures
            r@ == (GlobalIdV { crate_: crate_@, id }),
    {
        Self { crate_: crate_.to_string(), id }
    }
}

impl PartialEq for GlobalId {
    fn eq(&self, other: &Self) -> (r: bool) {
        self.crate_ == other.crate_ && self.id == other.id
    }
}

impl PartialEqSpecImpl for GlobalId {
    open spec fn obeys_eq_spec() -> bool {
        true
    }

    open spec fn eq_spec(&self, other: &GlobalId) -> bool {
        self@ == other@
    }
}

impl Eq for GlobalId {}

impl Clone for GlobalId {
    fn clone(&self) -> (r: Self)
        ensures
            r == *self,
    {
        GlobalId { crate_: self.crate_.clone(), id: self.id }
    }
}

/// `Hash::hash` of `String`: feeds the string to the hasher. Nothing is
/// claimed of the hasher's state afterwards.
pub assume_specification<H: Hasher>[<String as Hash>::hash::<H>](s: &String, state: &mut H);

/// `Hash::hash` of `u32`: feeds the integer to the hasher. Nothing is
/// claimed of the hasher's state afterwards.
pub assume_specification<H: Hasher>[<u32 as Hash>::hash::<H>](x: &u32, state: &mut H);

impl Hash for GlobalId {
    fn hash<H: Hasher>(&self, state: &mut H) {
        self.crate_.hash(state);
        self.id.hash(state);
    }
}

// ---------------------------------------------------------------------------
// Whether a type mentions another type
// ---------------------------------------------------------------------------

/// Names of std types that, for a type of another crate, are not looked into.
pub open spec fn is_std_container(name: Seq<char>) -> bool {
    name == "Option"@ || name == "String"@ || name == "Vec"@ || name == "std::ops::Range"@
}

/// Whether the type `t` refers to the item with id `target`, directly or
/// through generic arguments, tuples, slices, arrays and qualified paths.
/// With `is_remote`, paths to `Option`, `String`, `Vec` and
/// `std::ops::Range` are not looked into.
pub open spec fn type_mentions(target: u32, t: TypeV, is_remote: bool) -> bool
    decreases t,
{
    match t {
        TypeV::ResolvedPath(p) => path_mentions(target, p, is_remote),
        TypeV::QualifiedPath { self_type, args } => type_mentions(target, *self_type, is_remote)
            || args_mention(target, *args, is_remote),
        TypeV::Primitive(_) => false,
        TypeV::Tuple(ts) => types_mention(target, ts, is_remote),
        TypeV::Slice(b) => type_mentions(target, *b, is_remote),
        TypeV::Array(b) => type_mentions(target, *b, is_remote),
        TypeV::Other => false,
    }
}

/// Whether some type of `ts` mentions `target`.
pub open spec fn types_mention(target: u32, ts: Seq<TypeV>, is_remote: bool) -> bool
    decreases ts,
{
    if ts.len() == 0 {
        false
    } else {
        type_mentions(target, ts[0], is_remote) || types_mention(
            target,
            ts.drop_first(),
            is_remote,
        )
    }
}

/// Whether the path `p` is `target`, or one of its generic arguments
/// mentions it.
pub open spec fn path_mentions(target: u32, p: PathV, is_remote: bool) -> bool
    decreases p,
{
    if is_remote && is_std_container(p.name) {
        false
    } else {
        p.id.0 == target || match p.args {
            Some(a) => args_mention(target, *a, is_remote),
            None => false,
        }
    }
}

/// Whether some type among the generic arguments `a` mentions `target`.
pub open spec fn args_mention(target: u32, a: GenericArgsV, is_remote: bool) -> bool
    decreases a,
{
    match a {
        GenericArgsV::AngleBracketed(args) => arg_list_mentions(target, args, is_remote),
        GenericArgsV::Parenthesized(inputs) => types_mention(target, inputs, is_remote),
    }
}

/// Whether some type argument of `args` mentions `target`.
pub open spec fn arg_list_mentions(target: u32, args: Seq<GenericArgV>, is_remote: bool) -> bool
    decreases args,
{
    if args.len() == 0 {
        false
    } else {
        let first = match args[0] {
            GenericArgV::Type(t) => type_mentions(target, t, is_remote),
            GenericArgV::Other => false,
        };
        first || arg_list_mentions(target, args.drop_first(), is_remote)
    }
}


fn check_type(parent: &GlobalId, type_: &Type, is_remote: bool) -> (r: bool)
    ensures
        r == type_mentions(parent.id, type_@, is_remote),
    decreases type_,
{
    match type_ {
        Type::ResolvedPath(path) => check_path(parent, path, is_remote),
        Type::QualifiedPath { self_type, args } => check_type(parent, self_type, is_remote)
            || check_args(parent, args, is_remote),
        Type::Primitive(_) => false,
        Type::Tuple(vec) => check_types(parent, vec, is_remote),
        Type::Slice(t) => check_type(parent, t, is_remote),
        Type::Array { type_: t } => check_type(parent, t, is_remote),
        Type::Other => false,
    }
}

fn check_types(parent: &GlobalId, types: &Vec<Type>, is_remote: bool) -> (r: bool)
    ensures
        r == types_mention(parent.id, types_view(*types), is_remote),
    decreases types,
{
    let ghost s = types_view(*types);
    assert(s.skip(0) =~= s);
    let mut i: usize = 0;
    while i < types.len()
        invariant
            0 <= i <= types.len(),
            s == types_view(*types),
            s.len() == types.len(),
            types_mention(parent.id, s, is_remote) == types_mention(
                parent.id,
                s.skip(i as int),
                is_remote,
            ),
        decreases types.len() - i,
    {
        assert(s.skip(i as int).drop_first() =~= s.skip(i + 1));
        assert(s.skip(i as int)[0] == types[i as int]@);
        if check_type(parent, &types[i], is_remote) {
            return true;
        }
        i += 1;
    }
    assert(s.skip(i as int).len() == 0);
    false
}

fn check_path(parent: &GlobalId, path: &Path, is_remote: bool) -> (r: bool)
    ensures
        r == path_mentions(parent.id, path@, is_remote),
    decreases path,
{
    if is_remote {
        if string_is(&path.name, "Option") || string_is(&path.name, "String") || string_is(
            &path.name,
            "Vec",
        ) || string_is(&path.name, "std::ops::Range") {
            return false;
        }
    }
    path.id.0 == parent.id || match &path.args {
        Some(args) => check_args(parent, args, is_remote),
        None => false,
    }
}

fn check_args(parent: &GlobalId, args: &GenericArgs, is_remote: bool) -> (r: bool)
    ensures
        r == args_mention(parent.id, args@, is_remote),
    decreases args,
{
    match args {
        GenericArgs::AngleBracketed { args } => check_arg_list(parent, args, is_remote),
        GenericArgs::Parenthesized { inputs } => check_types(parent, inputs, is_remote),
    }
}

fn check_arg(parent: &GlobalId, arg: &GenericArg, is_remote: bool) -> (r: bool)
    ensures
        r == match arg@ {
            GenericArgV::Type(t) => type_mentions(parent.id, t, is_remote),
            GenericArgV::Other => false,
        },
    decreases arg,
{
    match arg {
        GenericArg::Type(t) => check_type(parent, t, is_remote),
        GenericArg::Other => false,
    }
}

fn check_arg_list(parent: &GlobalId, args: &Vec<GenericArg>, is_remote: bool) -> (r: bool)
    ensures
        r == arg_list_mentions(parent.id, arg_list_view(*args), is_remote),
    decreases args,
{
    let ghost s = arg_list_view(*args);
    assert(s.skip(0) =~= s);
    let mut i: usize = 0;
    while i < args.len()
        invariant
            0 <= i <= args.len(),
            s == arg_list_view(*args),
            s.len() == args.len(),
            arg_list_mentions(parent.id, s, is_remote) == arg_list_mentions(
                parent.id,
                s.skip(i as int),
                is_remote,
            ),
        decreases args.len() - i,
    {
        assert(s.skip(i as int).drop_first() =~= s.skip(i + 1));
        assert(s.skip(i as int)[0] == args[i as int]@);
        if check_arg(parent, &args[i], is_remote) {
            return true;
        }
        i += 1;
    }
    assert(s.skip(i as int).len() == 0);
    false
}

// ---------------------------------------------------------------------------
// Crate, summary and item nodes
// ---------------------------------------------------------------------------

/// A crate that the documented crate depends on.
#[derive(Debug)]
pub struct CrateNode {
    pub id: GlobalId,
    pub crate_: rustdoc_types::ExternalCrate,
}

impl CrateNode {
    pub fn new(crate_name: String, id: u32, crate_: rustdoc_types::ExternalCrate) -> (r: Self)
        ensures
            r.id@ == (GlobalIdV { crate_: crate_name@, id }),
            r.crate_ == crate_,
    {
        Self { id: GlobalId { crate_: crate_name, id }, crate_ }
    }
}

impl PartialEq for CrateNode {
    fn eq(&self, other: &Self) -> (r: bool) {
        self.id == other.id
    }
}

impl PartialEqSpecImpl for CrateNode {
    open spec fn obeys_eq_spec() -> bool {
        true
    }

    open spec fn eq_spec(&self, other: &CrateNode) -> bool {
        self.id@ == other.id@
    }
}

impl Eq for CrateNode {}

impl Clone for CrateNode {
    fn clone(&self) -> (r: Self)
        ensures
            r == *self,
    {
        CrateNode { id: self.id.clone(), crate_: self.crate_.clone() }
    }
}

impl Hash for CrateNode {
    fn hash<H: Hasher>(&self, state: &mut H) {
        self.id.hash(state);
    }
}

/// An item of another crate, known only by its summary.
#[derive(Debug)]
pub struct SummaryNode {
    pub id: GlobalId,
    pub summary: ItemSummary,
}

pub struct SummaryNodeV {
    pub id: GlobalIdV,
    pub summary: ItemSummaryV,
}

impl View for SummaryNode {
    type V = SummaryNodeV;

    open spec fn view(&self) -> SummaryNodeV {
        SummaryNodeV { id: self.id@, summary: self.summary@ }
    }
}

/// Two module paths have the same length and agree on every component but
/// the last: the items they name live in the same module.
pub open spec fn same_module(a: Seq<Seq<char>>, b: Seq<Seq<char>>) -> bool {
    a.len() == b.len() && a.take(a.len() - 1) == b.take(b.len() - 1)
}

impl SummaryNode {
    pub fn new(crate_: String, id: u32, summary: ItemSummary) -> (r: Self)
        ensures
            r@ == (SummaryNodeV { id: GlobalIdV { crate_: crate_@, id }, summary: summary@ }),
    {
        Self { id: GlobalId { crate_, id }, summary }
    }

    /// The full path of the item, e.g. `["std", "vec", "Vec"]`.
    pub fn path(&self) -> (r: Vec<String>)
        ensures
            strings_view(r@) == self@.summary.path,
    {
        let mut r: Vec<String> = Vec::new();
        for i in 0..self.summary.path.len()
            invariant
                r@ == self.summary.path@.take(i as int),
        {
            r.push(self.summary.path[i].clone());
            assert(r@ =~= self.summary.path@.take(i + 1));
        }
        assert(self.summary.path@.take(self.summary.path@.len() as int) =~= self.summary.path@);
        r
    }

    /// Whether the two items live in the same module: their paths have the
    /// same length and agree on all components but the last.
    pub fn in_same_module_as(&self, other: &SummaryNode) -> (r: bool)
        requires
            self.summary.path@.len() == other.summary.path@.len() ==> self.summary.path@.len() > 0,
        ensures
            r == same_module(self@.summary.path, other@.summary.path),
    {
        let mine = &self.summary.path;
        let theirs = &other.summary.path;
        if mine.len() != theirs.len() {
            return false;
        }
        let n = mine.len() - 1;
        let ghost a = strings_view(mine@);
        let ghost b = strings_view(theirs@);
        for i in 0..n
            invariant
                n == mine.len() - 1,
                mine.len() == theirs.len(),
                a == strings_view(self.summary.path@),
                b == strings_view(other.summary.path@),
                mine@ == self.summary.path@,
                theirs@ == other.summary.path@,
                a.take(i as int) == b.take(i as int),
        {
            if mine[i] != theirs[i] {
                assert(a.take(n as int)[i as int] != b.take(n as int)[i as int]);
                return false;
            }
            assert(a.take(i + 1) =~= b.take(i + 1)) by {
                assert(a.take(i + 1) =~= a.take(i as int).push(a[i as int]));
                assert(b.take(i + 1) =~= b.take(i as int).push(b[i as int]));
            }
        }
        true
    }

    /// Whether the item's summary names `crate_` as the crate it comes from.
    pub fn points_to_crate(&self, crate_: &CrateNode) -> (r: bool)
        ensures
            r == (self@.id.crate_ == crate_.id@.crate_ && self@.summary.crate_id == crate_.id@.id),
    {
        self.id.crate_ == crate_.id.crate_ && self.summary.crate_id == crate_.id.id
    }
}

impl PartialEq for SummaryNode {
    fn eq(&self, other: &Self) -> (r: bool) {
        self.id == other.id
    }
}

impl PartialEqSpecImpl for SummaryNode {
    open spec fn obeys_eq_spec() -> bool {
        true
    }

    open spec fn eq_spec(&self, other: &SummaryNode) -> bool {
        self.id@ == other.id@
    }
}

impl Eq for SummaryNode {}

impl Clone for SummaryNode {
    fn clone(&self) -> (r: Self)
        ensures
            r@ == self@,
    {
        SummaryNode { id: self.id.clone(), summary: self.summary.clone() }
    }
}

impl Hash for SummaryNode {
    fn hash<H: Hasher>(&self, state: &mut H) {
        self.id.hash(state);
    }
}


/// The attribute by which serde renames an item: `#[serde(rename = "Name")]`.
pub const SERDE_RENAME: &'static str = r#"\[serde\(rename\s*=\s*"(\w+)"\)\]"#;

/// The attribute by which serde leaves a field or variant out:
/// `#[serde(skip)]`.
pub const SERDE_SKIP: &'static str = r#"\[serde\s*\(\s*skip\s*\)\s*\]"#;

/// An item of the crate being documented.
#[derive(Debug)]
pub struct ItemNode {
    pub id: GlobalId,
    pub item: Item,
}

pub struct ItemNodeV {
    pub id: GlobalIdV,
    pub item: ItemV,
}

impl View for ItemNode {
    type V = ItemNodeV;

    open spec fn view(&self) -> ItemNodeV {
        ItemNodeV { id: self.id@, item: self.item@ }
    }
}

impl Clone for ItemNode {
    fn clone(&self) -> (r: Self)
        ensures
            r@ == self@,
    {
        ItemNode { id: self.id.clone(), item: self.item.clone() }
    }
}

impl PartialEq for ItemNode {
    fn eq(&self, other: &Self) -> (r: bool) {
        self.id == other.id
    }
}

impl PartialEqSpecImpl for ItemNode {
    open spec fn obeys_eq_spec() -> bool {
        true
    }

    open spec fn eq_spec(&self, other: &ItemNode) -> bool {
        self.id@ == other.id@
    }
}

impl Eq for ItemNode {}

impl Hash for ItemNode {
    fn hash<H: Hasher>(&self, state: &mut H) {
        self.id.hash(state);
    }
}

/// The name that serde gives the item through the last
/// `#[serde(rename = "...")]` among `attrs`; empty when there is none.
pub open spec fn renamed_to(attrs: Seq<Seq<char>>) -> Seq<char>
    decreases attrs.len(),
{
    if attrs.len() == 0 {
        Seq::empty()
    } else {
        match regex_first_group(SERDE_RENAME@, attrs.last()) {
            Some(n) => n,
            None => renamed_to(attrs.drop_last()),
        }
    }
}

/// The name under which the item is serialized: its serde rename where it
/// has a non-empty one, else its own name.
pub open spec fn serialized_name(item: ItemV) -> Option<Seq<char>> {
    let n = renamed_to(item.attrs);
    if n.len() == 0 {
        item.name
    } else {
        Some(n)
    }
}

/// Some attribute of the item is `#[serde(skip)]`.
pub open spec fn is_skipped(item: ItemV) -> bool {
    exists|i: int| 0 <= i < item.attrs.len() && regex_matches(SERDE_SKIP@, #[trigger] item.attrs[i])
}

/// The traits whose impls lead from the impl to the type it is for.
pub open spec fn is_graph_trait(name: Seq<char>) -> bool {
    name == "App"@ || name == "Effect"@ || name == "Capability"@ || name == "Operation"@
}

/// Edges of one kind to each of `ids`, all within the crate `crate_`.
pub open spec fn id_edges(crate_: Seq<char>, ids: Seq<Id>, kind: Edge) -> Seq<(GlobalIdV, Edge)> {
    ids.map_values(|id: Id| (GlobalIdV { crate_, id: id.0 }, kind))
}

/// The outgoing edges of an item node: a module to its items, a struct to
/// its fields and then its impls, a field to the type it is of (when that is
/// a path), and an impl of `App`, `Effect`, `Capability` or `Operation` to
/// the type it is for (when that is a path). Other items have none.
pub open spec fn node_edges(node: ItemNodeV) -> Seq<(GlobalIdV, Edge)> {
    let c = node.id.crate_;
    match node.item.inner {
        ItemEnumV::Module(items) => id_edges(c, items, Edge::ModuleItem),
        ItemEnumV::Struct { kind, impls } => id_edges(c, struct_kind_ids(kind), Edge::StructField)
            + id_edges(c, impls, Edge::Impl),
        ItemEnumV::StructField(t) => match t {
            TypeV::ResolvedPath(p) => seq![(GlobalIdV { crate_: c, id: p.id.0 }, Edge::Type)],
            _ => Seq::empty(),
        },
        ItemEnumV::Impl { trait_, for_, .. } => match trait_ {
            Some(t) => if is_graph_trait(t.name) {
                match for_ {
                    TypeV::ResolvedPath(p) => seq![
                        (GlobalIdV { crate_: c, id: p.id.0 }, Edge::ImplFor),
                    ],
                    _ => Seq::empty(),
                }
            } else {
                Seq::empty()
            },
            None => Seq::empty(),
        },
        _ => Seq::empty(),
    }
}

/// The views of a list of edges.
pub open spec fn edges_view(v: Seq<(GlobalId, Edge)>) -> Seq<(GlobalIdV, Edge)> {
    v.map_values(|e: (GlobalId, Edge)| (e.0@, e.1))
}

/// The item is a struct field whose type is a path named `std::ops::Range`.
pub open spec fn is_range_field(item: ItemV) -> bool {
    match item.inner {
        ItemEnumV::StructField(TypeV::ResolvedPath(p)) => p.name == "std::ops::Range"@,
        _ => false,
    }
}

/// The item, in the same crate as `id`, is a struct field whose type
/// mentions `id`, or an associated type set to the path `id`.
pub open spec fn is_of_type_spec(node: ItemNodeV, id: GlobalIdV, is_remote: bool) -> bool {
    node.id.crate_ == id.crate_ && match node.item.inner {
        ItemEnumV::StructField(t) => type_mentions(id.id, t, is_remote),
        ItemEnumV::AssocType(Some(TypeV::ResolvedPath(target))) => target.id.0 == id.id,
        _ => false,
    }
}

/// A candidate may stand for the field or variant with id `id`: it is not
/// skipped by serde, and its item has that id.
pub open spec fn usable_for(id: Id, cand: ItemNodeV) -> bool {
    !is_skipped(cand.item) && cand.item.id == id
}

/// The first candidate that may stand for `id`.
pub open spec fn first_usable(id: Id, cands: Seq<ItemNodeV>) -> Option<ItemNodeV>
    decreases cands.len(),
{
    if cands.len() == 0 {
        None
    } else if usable_for(id, cands[0]) {
        Some(cands[0])
    } else {
        first_usable(id, cands.drop_first())
    }
}

/// For each of `ids` in order, the first candidate that may stand for it;
/// ids that none may stand for are left out.
pub open spec fn pick_nodes(ids: Seq<Id>, cands: Seq<ItemNodeV>) -> Seq<ItemNodeV>
    decreases ids.len(),
{
    if ids.len() == 0 {
        Seq::empty()
    } else {
        let prev = pick_nodes(ids.drop_last(), cands);
        match first_usable(ids.last(), cands) {
            Some(c) => prev.push(c),
            None => prev,
        }
    }
}

/// The views of a list of candidate nodes.
pub open spec fn candidates_view(v: Seq<(&ItemNode,)>) -> Seq<ItemNodeV> {
    v.map_values(|c: (&ItemNode,)| c.0@)
}

/// The views of a list of nodes.
pub open spec fn nodes_view(v: Seq<ItemNode>) -> Seq<ItemNodeV> {
    v.map_values(|n: ItemNode| n@)
}

/// Appends an edge of kind `kind` to each of `ids`, within `crate_`.
fn push_edges(edges: &mut Vec<(GlobalId, Edge)>, crate_: &str, ids: &Vec<Id>, kind: Edge)
    ensures
        edges_view(final(edges)@) == edges_view(old(edges)@) + id_edges(crate_@, ids@, kind),
{
    let ghost start = edges_view(edges@);
    for i in 0..ids.len()
        invariant
            edges_view(edges@) == start + id_edges(crate_@, ids@.take(i as int), kind),
    {
        let ghost before = edges@;
        let gid = GlobalId::new(crate_, ids[i].0);
        edges.push((gid, kind));
        assert(edges_view(edges@) =~= edges_view(before).push((gid@, kind)));
        assert(id_edges(crate_@, ids@.take(i + 1), kind) =~= id_edges(
            crate_@,
            ids@.take(i as int),
            kind,
        ).push((gid@, kind)));
    }
    assert(ids@.take(ids.len() as int) =~= ids@);
}

/// The index of the first candidate that may stand for `id`.
fn find_usable(id: Id, cands: &Vec<(&ItemNode,)>) -> (r: Option<usize>)
    ensures
        match r {
            Some(j) => j < cands.len() && first_usable(id, candidates_view(cands@)) == Some(
                cands@[j as int].0@,
            ),
            None => first_usable(id, candidates_view(cands@)) is None,
        },
{
    let ghost s = candidates_view(cands@);
    assert(s.skip(0) =~= s);
    let mut j: usize = 0;
    while j < cands.len()
        invariant
            0 <= j <= cands.len(),
            s == candidates_view(cands@),
            first_usable(id, s) == first_usable(id, s.skip(j as int)),
        decreases cands.len() - j,
    {
        assert(s.skip(j as int).drop_first() =~= s.skip(j + 1));
        let c = cands[j].0;
        if !c.should_skip() && id == c.item.id {
            return Some(j);
        }
        j += 1;
    }
    None
}

/// For each of `ids` in order, a copy of the first candidate that may stand
/// for it.
fn pick(ids: &Vec<Id>, cands: &Vec<(&ItemNode,)>) -> (r: Vec<ItemNode>)
    ensures
        nodes_view(r@) == pick_nodes(ids@, candidates_view(cands@)),
{
    let mut r: Vec<ItemNode> = Vec::new();
    for i in 0..ids.len()
        invariant
            nodes_view(r@) == pick_nodes(ids@.take(i as int), candidates_view(cands@)),
    {
        assert(ids@.take(i + 1).drop_last() =~= ids@.take(i as int));
        match find_usable(ids[i], cands) {
            Some(j) => {
                r.push(cands[j].0.clone());
                assert(nodes_view(r@) =~= pick_nodes(ids@.take(i + 1), candidates_view(cands@)));
            },
            None => {},
        }
    }
    assert(ids@.take(ids.len() as int) =~= ids@);
    r
}

impl ItemNode {
    pub fn new(crate_: String, item: Item) -> (r: Self)
        ensures
            r.id@ == (GlobalIdV { crate_: crate_@, id: item.id.0 }),
            r.item == item,
    {
        let id = item.id.0;
        Self { id: GlobalId { crate_, id }, item }
    }

    /// The outgoing edges of this node, in the order of `node_edges`.
    pub fn edges(&self) -> (r: Vec<(GlobalId, Edge)>)
        ensures
            edges_view(r@) == node_edges(self@),
    {
        let crate_ = self.id.crate_.as_str();
        let mut edges: Vec<(GlobalId, Edge)> = Vec::new();
        match &self.item.inner {
            ItemEnum::Module { items } => {
                push_edges(&mut edges, crate_, items, Edge::ModuleItem);
                assert(edges_view(edges@) =~= node_edges(self@));
            },
            ItemEnum::Struct { kind, impls } => {
                match kind {
                    StructKind::Plain { fields } => {
                        push_edges(&mut edges, crate_, fields, Edge::StructField);
                    },
                    StructKind::Tuple(fields) => {
                        let ids = present_ids_exec(fields);
                        push_edges(&mut edges, crate_, &ids, Edge::StructField);
                    },
                    StructKind::Unit => {},
                }
                assert(edges_view(edges@) =~= id_edges(
                    crate_@,
                    struct_kind_ids(kind@),
                    Edge::StructField,
                ));
                push_edges(&mut edges, crate_, impls, Edge::Impl);
                assert(edges_view(edges@) =~= node_edges(self@));
            },
            ItemEnum::StructField(type_) => match type_ {
                Type::ResolvedPath(p) => {
                    assert(type_@ == TypeV::ResolvedPath(p@));
                    edges.push((GlobalId::new(crate_, p.id.0), Edge::Type));
                    assert(edges_view(edges@) =~= node_edges(self@));
                },
                _ => {
                    assert(!(type_@ is ResolvedPath));
                    assert(edges_view(edges@) =~= node_edges(self@));
                },
            },
            ItemEnum::Impl { trait_: Some(t), for_, .. } => {
                if string_is(&t.name, "App") || string_is(&t.name, "Effect") || string_is(
                    &t.name,
                    "Capability",
                ) || string_is(&t.name, "Operation") {
                    match for_ {
                        Type::ResolvedPath(p) => {
                            assert(for_@ == TypeV::ResolvedPath(p@));
                            edges.push((GlobalId::new(crate_, p.id.0), Edge::ImplFor));
                            assert(edges_view(edges@) =~= node_edges(self@));
                        },
                        _ => {
                            assert(!(for_@ is ResolvedPath));
                            assert(edges_view(edges@) =~= node_edges(self@));
                        },
                    }
                } else {
                    assert(edges_view(edges@) =~= node_edges(self@));
                }
            },
            _ => {
                assert(edges_view(edges@) =~= node_edges(self@));
            },
        }
        edges
    }

    /// The name under which serde serializes the item: the name in its last
    /// `#[serde(rename = "...")]` attribute, else its own name.
    pub fn name(&self) -> (r: Option<String>)
        ensures
            r.deep_view() == serialized_name(self.item@),
    {
        let attrs = &self.item.attrs;
        let ghost a = strings_view(attrs@);
        let mut new_name = String::new();
        for i in 0..attrs.len()
            invariant
                a == strings_view(attrs@),
                attrs@ == self.item.attrs@,
                new_name@ == renamed_to(a.take(i as int)),
        {
            assert(a.take(i + 1).drop_last() =~= a.take(i as int));
            if let Some(n) = first_group(SERDE_RENAME, attrs[i].as_str()) {
                new_name = n;
            }
        }
        assert(a.take(attrs.len() as int) =~= a);
        if new_name.as_str().is_empty() {
            match &self.item.name {
                Some(n) => Some(n.clone()),
                None => None,
            }
        } else {
            Some(new_name)
        }
    }

    /// Whether the item is the same node as the summary's (same id).
    pub fn has_summary(&self, summary: &SummaryNode) -> (r: bool)
        ensures
            r == (self.id@ == summary.id@),
    {
        self.id == summary.id
    }

    /// Whether this item is, in the same crate, an impl of the trait named
    /// `trait_name` for the type `for_`.
    pub fn is_impl_for(&self, for_: &ItemNode, trait_name: &str) -> (r: bool)
        ensures
            r == (self.id@.crate_ == for_.id@.crate_ && item_is_impl_for(
                self.item@,
                for_.item@,
                trait_name@,
            )),
    {
        self.id.crate_ == for_.id.crate_ && is_impl_for(&self.item, &for_.item, trait_name)
    }

    /// Whether this item is a struct field of type `std::ops::Range`.
    pub fn is_range(&self) -> (r: bool)
        ensures
            r == is_range_field(self.item@),
    {
        match &self.item.inner {
            ItemEnum::StructField(t) => match t {
                Type::ResolvedPath(p) => {
                    assert(t@ == TypeV::ResolvedPath(p@));
                    string_is(&p.name, "std::ops::Range")
                },
                _ => {
                    assert(!(t@ is ResolvedPath));
                    false
                },
            },
            _ => false,
        }
    }

    /// Whether the item carries `#[serde(skip)]`.
    fn should_skip(&self) -> (r: bool)
        ensures
            r == is_skipped(self.item@),
    {
        let attrs = &self.item.attrs;
        for i in 0..attrs.len()
            invariant
                attrs@ == self.item.attrs@,
                forall|j: int| 0 <= j < i ==> !regex_matches(SERDE_SKIP@, #[trigger] attrs@[j]@),
        {
            if is_match(SERDE_SKIP, attrs[i].as_str()) {
                assert(self.item@.attrs[i as int] == attrs@[i as int]@);
                return true;
            }
        }
        assert forall|j: int| 0 <= j < self.item@.attrs.len() implies !regex_matches(
            SERDE_SKIP@,
            #[trigger] self.item@.attrs[j],
        ) by {
            assert(self.item@.attrs[j] == attrs@[j]@);
        }
        false
    }

    /// Copies of the fields of this struct or variant, in declaration order:
    /// for each field, the first candidate that is not skipped by serde and
    /// has the field's id.
    pub fn fields(&self, fields: Vec<(&ItemNode,)>) -> (r: Vec<ItemNode>)
        ensures
            nodes_view(r@) == pick_nodes(field_ids_of(self.item@), candidates_view(fields@)),
    {
        let ids = field_ids(&self.item);
        pick(&ids, &fields)
    }

    /// Whether `field` is, in the same crate, a field of this item that serde
    /// does not skip.
    pub fn has_field(&self, field: &ItemNode) -> (r: bool)
        ensures
            r == (self.id@.crate_ == field.id@.crate_ && !is_skipped(field.item@)
                && item_has_field(self.item@, field.item@)),
    {
        self.id.crate_ == field.id.crate_ && !field.should_skip() && has_field(
            &self.item,
            &field.item,
        )
    }

    /// Copies of the variants of this enum, in declaration order: for each
    /// variant, the first candidate that is not skipped by serde and has the
    /// variant's id.
    pub fn variants(&self, variants: Vec<(&ItemNode,)>) -> (r: Vec<ItemNode>)
        ensures
            nodes_view(r@) == pick_nodes(variant_ids_of(self.item@), candidates_view(variants@)),
    {
        let ids = variant_ids(&self.item);
        pick(&ids, &variants)
    }

    /// Whether `variant` is, in the same crate, a variant of this item that
    /// serde does not skip.
    pub fn has_variant(&self, variant: &ItemNode) -> (r: bool)
        ensures
            r == (self.id@.crate_ == variant.id@.crate_ && !is_skipped(variant.item@)
                && item_has_variant(self.item@, variant.item@)),
    {
        self.id.crate_ == variant.id.crate_ && !variant.should_skip() && has_variant(
            &self.item,
            &variant.item,
        )
    }

    /// Whether this item is a field or associated type of the local type
    /// `type_node`.
    pub fn is_of_local_type(&self, type_node: &ItemNode) -> (r: bool)
        ensures
            r == is_of_type_spec(self@, type_node.id@, false),
    {
        self.is_of_type(&type_node.id, false)
    }

    /// Whether this item is a field or associated type of the type
    /// `type_node` of another crate.
    pub fn is_of_remote_type(&self, type_node: &SummaryNode) -> (r: bool)
        ensures
            r == is_of_type_spec(self@, type_node.id@, true),
    {
        self.is_of_type(&type_node.id, true)
    }

    fn is_of_type(&self, id: &GlobalId, is_remote: bool) -> (r: bool)
        ensures
            r == is_of_type_spec(self@, id@, is_remote),
    {
        if self.id.crate_ != id.crate_ {
            return false;
        }
        match &self.item.inner {
            ItemEnum::StructField(t) => check_type(id, t, is_remote),
            ItemEnum::AssocType { type_ } => match type_ {
                Some(t) => match t {
                    Type::ResolvedPath(target) => {
                        assert(t@ == TypeV::ResolvedPath(target@));
                        target.id.0 == id.id
                    },
                    _ => {
                        assert(!(t@ is ResolvedPath));
                        false
                    },
                },
                None => false,
            },
            _ => false,
        }
    }

    /// Whether this item is, in the same crate, an impl that holds
    /// `associated_item` under the name `with_name`.
    pub fn has_associated_item(&self, associated_item: &ItemNode, with_name: &str) -> (r: bool)
        ensures
            r == (self.id@.crate_ == associated_item.id@.crate_ && item_has_associated_item(
                self.item@,
                associated_item.item@,
                with_name@,
            )),
    {
        self.id.crate_ == associated_item.id.crate_ && has_associated_item(
            &self.item,
            &associated_item.item,
            with_name,
        )
    }
}


// ---------------------------------------------------------------------------
// Node
// ---------------------------------------------------------------------------

/// A node of the graph: an item of the documented crate, or an item of
/// another crate known by its summary.
#[derive(Debug)]
pub enum Node {
    Item(ItemNode),
    Summary(SummaryNode),
}

pub enum NodeV {
    Item(ItemNodeV),
    Summary(SummaryNodeV),
}

impl View for Node {
    type V = NodeV;

    open spec fn view(&self) -> NodeV {
        match self {
            Node::Item(i) => NodeV::Item(i@),
            Node::Summary(s) => NodeV::Summary(s@),
        }
    }
}

/// The identifier of a node.
pub open spec fn node_id(n: NodeV) -> GlobalIdV {
    match n {
        NodeV::Item(i) => i.id,
        NodeV::Summary(s) => s.id,
    }
}

/// Where a node stands in the order of nodes: summaries before items.
pub open spec fn node_rank(n: NodeV) -> int {
    match n {
        NodeV::Summary(_) => 0,
        NodeV::Item(_) => 1,
    }
}

/// How two ranks compare.
pub open spec fn rank_order(x: int, y: int) -> Ordering {
    if x < y {
        Ordering::Less
    } else if x == y {
        Ordering::Equal
    } else {
        Ordering::Greater
    }
}

/// How two nodes compare: by kind only, summaries before items.
pub open spec fn node_order(a: NodeV, b: NodeV) -> Ordering {
    rank_order(node_rank(a), node_rank(b))
}

/// The opposite of an ordering.
pub open spec fn reversed(o: Ordering) -> Ordering {
    match o {
        Ordering::Less => Ordering::Greater,
        Ordering::Equal => Ordering::Equal,
        Ordering::Greater => Ordering::Less,
    }
}

impl Node {
    pub fn id(&self) -> (r: &GlobalId)
        ensures
            r@ == node_id(self@),
    {
        match self {
            Node::Item(i) => &i.id,
            Node::Summary(s) => &s.id,
        }
    }

    /// Compares two nodes by kind alone: every summary comes before every
    /// item, and two nodes of the same kind are equal in this order.
    pub fn cmp(&self, other: &Self) -> (r: Ordering)
        ensures
            r == node_order(self@, other@),
    {
        match (self, other) {
            (Node::Item(_), Node::Item(_)) => Ordering::Equal,
            (Node::Item(_), Node::Summary(_)) => Ordering::Greater,
            (Node::Summary(_), Node::Item(_)) => Ordering::Less,
            (Node::Summary(_), Node::Summary(_)) => Ordering::Equal,
        }
    }
}

impl PartialOrd for Node {
    /// `cmp`, which is total.
    fn partial_cmp(&self, other: &Self) -> (r: Option<Ordering>) {
        Some(self.cmp(other))
    }
}

impl PartialOrdSpecImpl for Node {
    open spec fn obeys_partial_cmp_spec() -> bool {
        true
    }

    open spec fn partial_cmp_spec(&self, other: &Node) -> Option<Ordering> {
        Some(node_order(self@, other@))
    }
}

impl Clone for Node {
    fn clone(&self) -> (r: Self)
        ensures
            r@ == self@,
    {
        match self {
            Node::Item(i) => Node::Item(i.clone()),
            Node::Summary(s) => Node::Summary(s.clone()),
        }
    }
}

impl PartialEq for Node {
    fn eq(&self, other: &Self) -> (r: bool) {
        self.id() == other.id()
    }
}

impl PartialEqSpecImpl for Node {
    open spec fn obeys_eq_spec() -> bool {
        true
    }

    open spec fn eq_spec(&self, other: &Node) -> bool {
        node_id(self@) == node_id(other@)
    }
}

impl Eq for Node {}

impl Hash for Node {
    fn hash<H: Hasher>(&self, state: &mut H) {
        self.id().hash(state);
    }
}

} // verus!
