//! The data of definitions as the analysis uses them: functions and their
//! parameters, methodmaps and enum structs with their members.
use vstd::prelude::*;
use crate::hir::{Name, TypeRef, TypeRefView};
use std::sync::Arc;
use crate::base_db::FileId;
use crate::ids::{EnumStructId, FunctionId, InternDatabase, ItemLoc, Lookup, MethodmapId, PropertyId, TreeId};
use crate::ids::ItemContainerId;
use crate::child_by_source::PropertyDatabase;
use crate::item_tree::{EnumStructItemId, ItemTree, MethodmapItemId};
use crate::item_tree::AstId;
use crate::resolver::{spec_resolve, Resolver, ValueNs, ValueNsView};
use crate::text::{join_spec, join_strings, strings_view};

verus! {

/// The names of a map from names to indices, with the index of each.
pub open spec fn name_entries(v: Seq<(Name, usize)>) -> Seq<(Seq<char>, usize)> {
    v.map_values(|e: (Name, usize)| (e.0@, e.1))
}

/// The index that `entries` maps name `n` to: that of its first entry.
pub open spec fn lookup_name(entries: Seq<(Seq<char>, usize)>, n: Seq<char>) -> Option<usize>
    decreases entries.len(),
{
    if entries.len() == 0 {
        None
    } else if entries[0].0 == n {
        Some(entries[0].1)
    } else {
        lookup_name(entries.drop_first(), n)
    }
}

pub proof fn lemma_lookup_name_bound(entries: Seq<(Seq<char>, usize)>, n: Seq<char>, bound: usize)
    requires
        forall|k: int| 0 <= k < entries.len() ==> (#[trigger] entries[k]).1 < bound,
    ensures
        lookup_name(entries, n) matches Some(i) ==> i < bound,
    decreases entries.len(),
{
    if entries.len() > 0 && entries[0].0 != n {
        assert forall|k: int| 0 <= k < entries.drop_first().len() implies (#[trigger] entries.drop_first()[k]).1
            < bound by {
            assert(entries.drop_first()[k] == entries[k + 1]);
        }
        lemma_lookup_name_bound(entries.drop_first(), n, bound);
    }
}

/// The index of the first entry of `entries` named `n`, if any.
pub open spec fn find_name(entries: Seq<(Seq<char>, usize)>, n: Seq<char>) -> Option<int>
    decreases entries.len(),
{
    if entries.len() == 0 {
        None
    } else if entries[0].0 == n {
        Some(0)
    } else {
        match find_name(entries.drop_first(), n) {
            Some(i) => Some(i + 1),
            None => None,
        }
    }
}

/// The entries after mapping `n` to `v`: the first entry named `n` gets the
/// index, or a new entry is added at the end.
pub open spec fn entries_insert(entries: Seq<(Seq<char>, usize)>, n: Seq<char>, v: usize) -> Seq<(Seq<char>, usize)> {
    match find_name(entries, n) {
        Some(i) => entries.update(i, (n, v)),
        None => entries.push((n, v)),
    }
}

proof fn lemma_find_name_first(entries: Seq<(Seq<char>, usize)>, n: Seq<char>, i: int)
    requires
        0 <= i < entries.len(),
        entries[i].0 == n,
        forall|k: int| 0 <= k < i ==> entries[k].0 != n,
    ensures
        find_name(entries, n) == Some(i),
    decreases entries.len(),
{
    if i > 0 {
        assert forall|k: int| 0 <= k < i - 1 implies entries.drop_first()[k].0 != n by {
            assert(entries.drop_first()[k] == entries[k + 1]);
        }
        lemma_find_name_first(entries.drop_first(), n, i - 1);
    }
}

proof fn lemma_find_name_none(entries: Seq<(Seq<char>, usize)>, n: Seq<char>)
    requires
        forall|k: int| 0 <= k < entries.len() ==> entries[k].0 != n,
    ensures
        find_name(entries, n) is None,
    decreases entries.len(),
{
    if entries.len() > 0 {
        assert forall|k: int| 0 <= k < entries.drop_first().len() implies entries.drop_first()[k].0 != n by {
            assert(entries.drop_first()[k] == entries[k + 1]);
        }
        lemma_find_name_none(entries.drop_first(), n);
    }
}

/// A map from names to indices.
#[derive(Debug)]
pub struct NameMap {
    entries: Vec<(Name, usize)>,
}

impl NameMap {
    pub closed spec fn spec_entries(&self) -> Seq<(Seq<char>, usize)> {
        name_entries(self.entries@)
    }

    /// The index that name `n` maps to.
    pub open spec fn spec_get(&self, n: Seq<char>) -> Option<usize> {
        lookup_name(self.spec_entries(), n)
    }

    pub fn new() -> (res: Self)
        ensures
            res.spec_entries() == Seq::<(Seq<char>, usize)>::empty(),
            forall|n: Seq<char>| res.spec_get(n) is None,
    {
        NameMap { entries: Vec::new() }
    }

    /// The index that `name` maps to.
    pub fn get(&self, name: &Name) -> (res: Option<usize>)
        ensures
            res == self.spec_get(name@),
    {
        let ghost es = self.spec_entries();
        let mut i: usize = 0;
        assert(es.skip(0) =~= es);
        while i < self.entries.len()
            invariant
                0 <= i <= self.entries.len(),
                es == name_entries(self.entries@),
                lookup_name(es, name@) == lookup_name(es.skip(i as int), name@),
            decreases self.entries.len() - i,
        {
            assert(es.skip(i as int)[0] == (self.entries@[i as int].0@, self.entries@[i as int].1));
            if self.entries[i].0.same_as(name) {
                return Some(self.entries[i].1);
            }
            assert(es.skip(i as int).drop_first() =~= es.skip(i + 1));
            i = i + 1;
        }
        None
    }

    /// Maps `name` to `idx`, replacing what it mapped to before.
    pub fn insert(&mut self, name: Name, idx: usize)
        ensures
            final(self).spec_entries() == entries_insert(old(self).spec_entries(), name@, idx),
            forall|n: Seq<char>| #[trigger] final(self).spec_get(n) == if n == name@ {
                Some(idx)
            } else {
                old(self).spec_get(n)
            },
            forall|k: int| 0 <= k < final(self).spec_entries().len() ==> (#[trigger] final(self).spec_entries()[k]).1 == idx
                || exists|j: int| 0 <= j < old(self).spec_entries().len() && old(self).spec_entries()[j] == final(self).spec_entries()[k],
    {
        let ghost es = self.spec_entries();
        let mut i: usize = 0;
        while i < self.entries.len()
            invariant
                0 <= i <= self.entries.len(),
                es == name_entries(self.entries@),
                es == old(self).spec_entries(),
                forall|k: int| 0 <= k < i ==> es[k].0 != name@,
            decreases self.entries.len() - i,
        {
            if self.entries[i].0.same_as(&name) {
                let ghost before = self.entries@;
                self.entries.set(i, (name, idx));
                proof {
                    let new_es = name_entries(self.entries@);
                    assert(new_es =~= es.update(i as int, (name@, idx)));
                    lemma_find_name_first(es, name@, i as int);
                    lemma_lookup_update(es, i as int, name@, idx);
                    assert forall|k: int| 0 <= k < new_es.len() implies (#[trigger] new_es[k]).1 == idx || exists|j: int|
                        0 <= j < es.len() && es[j] == new_es[k] by {
                        if k != i {
                            assert(es[k] == new_es[k]);
                        }
                    }
                }
                return;
            }
            i = i + 1;
        }
        let ghost before = self.entries@;
        self.entries.push((name, idx));
        proof {
            let new_es = name_entries(self.entries@);
            assert(new_es =~= es.push((name@, idx)));
            lemma_find_name_none(es, name@);
            lemma_lookup_push(es, name@, idx);
            assert forall|k: int| 0 <= k < new_es.len() implies (#[trigger] new_es[k]).1 == idx || exists|j: int|
                0 <= j < es.len() && es[j] == new_es[k] by {
                if k < es.len() {
                    assert(es[k] == new_es[k]);
                }
            }
        }
    }

    /// The number of names mapped.
    pub fn len(&self) -> (res: usize)
        ensures
            res == self.spec_entries().len(),
    {
        self.entries.len()
    }

    /// The `i`-th entry.
    pub fn entry(&self, i: usize) -> (res: (&Name, usize))
        requires
            i < self.spec_entries().len(),
        ensures
            (res.0@, res.1) == self.spec_entries()[i as int],
    {
        (&self.entries[i].0, self.entries[i].1)
    }
}

proof fn lemma_lookup_update(es: Seq<(Seq<char>, usize)>, i: int, n: Seq<char>, v: usize)
    requires
        0 <= i < es.len(),
        es[i].0 == n,
        forall|k: int| 0 <= k < i ==> es[k].0 != n,
    ensures
        forall|m: Seq<char>| #[trigger] lookup_name(es.update(i, (n, v)), m) == if m == n {
            Some(v)
        } else {
            lookup_name(es, m)
        },
    decreases es.len(),
{
    assert forall|m: Seq<char>| #[trigger] lookup_name(es.update(i, (n, v)), m) == if m == n {
        Some(v)
    } else {
        lookup_name(es, m)
    } by {
        let u = es.update(i, (n, v));
        if i == 0 {
            assert(u.drop_first() =~= es.drop_first());
        } else {
            assert(u[0] == es[0]);
            assert(es[0].0 != n);
            assert forall|k: int| 0 <= k < i - 1 implies es.drop_first()[k].0 != n by {
                assert(es.drop_first()[k] == es[k + 1]);
            }
            lemma_lookup_update(es.drop_first(), i - 1, n, v);
            assert(es.update(i, (n, v)).drop_first() =~= es.drop_first().update(i - 1, (n, v)));
            assert(lookup_name(es.drop_first().update(i - 1, (n, v)), m) == if m == n {
                Some(v)
            } else {
                lookup_name(es.drop_first(), m)
            });
        }
    }
}

proof fn lemma_lookup_push(es: Seq<(Seq<char>, usize)>, n: Seq<char>, v: usize)
    requires
        forall|k: int| 0 <= k < es.len() ==> es[k].0 != n,
    ensures
        forall|m: Seq<char>| #[trigger] lookup_name(es.push((n, v)), m) == if m == n {
            Some(v)
        } else {
            lookup_name(es, m)
        },
    decreases es.len(),
{
    assert forall|m: Seq<char>| #[trigger] lookup_name(es.push((n, v)), m) == if m == n {
        Some(v)
    } else {
        lookup_name(es, m)
    } by {
        if es.len() == 0 {
            assert(es.push((n, v))[0] == (n, v));
            assert(es.push((n, v)).drop_first() =~= es);
            assert(lookup_name(es, m) is None);
        } else {
            assert(es.push((n, v))[0] == es[0]);
            assert forall|k: int| 0 <= k < es.drop_first().len() implies es.drop_first()[k].0 != n by {
                assert(es.drop_first()[k] == es[k + 1]);
            }
            lemma_lookup_push(es.drop_first(), n, v);
            assert(es.push((n, v)).drop_first() =~= es.drop_first().push((n, v)));
            assert(lookup_name(es.drop_first().push((n, v)), m) == if m == n {
                Some(v)
            } else {
                lookup_name(es.drop_first(), m)
            });
        }
    }
}

/// Whether a function is defined, forward-declared or native.
#[derive(Debug, Clone, Copy, PartialEq, Eq, Structural, Hash)]
pub enum FunctionKind {
    Def,
    Forward,
    Native,
}

/// The special methods of a methodmap.
#[derive(Debug, Clone, Copy, PartialEq, Eq, Structural, Hash)]
pub enum SpecialMethod {
    Constructor,
    Destructor,
}

/// The visibility keywords of a declaration, as a set of bits.
#[derive(Debug, Clone, Copy, PartialEq, Eq, Structural, Hash)]
pub struct RawVisibilityId(pub u32);

impl RawVisibilityId {
    /// The bit of `public`.
    pub const PUBLIC: u32 = 1;
    /// The bit of `stock`.
    pub const STOCK: u32 = 2;
    /// The bit of `static`.
    pub const STATIC: u32 = 4;
    /// The bit of a declaration without visibility keyword.
    pub const NONE: u32 = 8;

    /// Whether all the bits of `bits` are set in `self`.
    pub fn contains(&self, bits: u32) -> (res: bool)
        ensures
            res == (self.0 & bits == bits),
    {
        self.0 & bits == bits
    }

    /// The keywords of the visibility, in the order `public`, `stock`, `static`.
    pub open spec fn spec_words(self) -> Seq<Seq<char>> {
        (if self.0 & RawVisibilityId::PUBLIC == RawVisibilityId::PUBLIC {
            seq!["public"@]
        } else {
            seq![]
        }) + (if self.0 & RawVisibilityId::STOCK == RawVisibilityId::STOCK {
            seq!["stock"@]
        } else {
            seq![]
        }) + (if self.0 & RawVisibilityId::STATIC == RawVisibilityId::STATIC {
            seq!["static"@]
        } else {
            seq![]
        })
    }

    /// The keywords of the visibility, separated by spaces.
    pub fn to_string(&self) -> (res: String)
        ensures
            res@ == join_spec(self.spec_words(), " "@),
    {
        let mut words: Vec<String> = Vec::new();
        if self.contains(RawVisibilityId::PUBLIC) {
            words.push(String::from_str("public"));
        }
        let ghost w1 = words@;
        if self.contains(RawVisibilityId::STOCK) {
            words.push(String::from_str("stock"));
        }
        let ghost w2 = words@;
        if self.contains(RawVisibilityId::STATIC) {
            words.push(String::from_str("static"));
        }
        assert(strings_view(words@) =~= self.spec_words());
        join_strings(&words, " ")
    }
}

/// A parameter of a function.
#[derive(Debug)]
pub struct ParamData {
    pub type_ref: Option<TypeRef>,
    pub has_default: bool,
    pub is_rest: bool,
    pub is_const: bool,
}

/// A parameter is mandatory when it has no default value and is not variadic.
pub open spec fn is_mandatory(p: ParamData) -> bool {
    !(p.has_default || p.is_rest)
}

/// The number of mandatory parameters among `ps`.
pub open spec fn count_mandatory(ps: Seq<ParamData>) -> nat
    decreases ps.len(),
{
    if ps.len() == 0 {
        0
    } else {
        count_mandatory(ps.drop_last()) + if is_mandatory(ps.last()) {
            1nat
        } else {
            0nat
        }
    }
}

pub proof fn lemma_count_mandatory_bound(ps: Seq<ParamData>)
    ensures
        count_mandatory(ps) <= ps.len(),
    decreases ps.len(),
{
    if ps.len() > 0 {
        lemma_count_mandatory_bound(ps.drop_last());
    }
}

/// The data of a function.
#[derive(Debug)]
pub struct FunctionData {
    pub name: Name,
    pub type_ref: Option<TypeRef>,
    pub params: Vec<ParamData>,
    pub kind: FunctionKind,
    pub visibility: RawVisibilityId,
    pub special: Option<SpecialMethod>,
    pub deprecated: bool,
}

pub open spec fn opt_type_view(t: Option<TypeRef>) -> Option<TypeRefView> {
    match t {
        Some(t) => Some(t@),
        None => None,
    }
}

impl FunctionData {
    pub fn name(&self) -> (res: Name)
        ensures
            res@ == self.name@,
    {
        self.name.clone()
    }

    pub fn type_ref(&self) -> (res: Option<TypeRef>)
        ensures
            opt_type_view(res) == opt_type_view(self.type_ref),
    {
        match &self.type_ref {
            Some(t) => Some(t.clone()),
            None => None,
        }
    }

    pub fn params(&self) -> (res: &[ParamData])
        ensures
            res@ == self.params@,
    {
        self.params.as_slice()
    }

    /// The number of parameters that a call must pass.
    pub fn number_of_mandatory_parameters(&self) -> (res: usize)
        ensures
            res == count_mandatory(self.params@),
    {
        let mut n: usize = 0;
        let mut i: usize = 0;
        while i < self.params.len()
            invariant
                0 <= i <= self.params.len(),
                n == count_mandatory(self.params@.take(i as int)),
                n <= i,
            decreases self.params.len() - i,
        {
            assert(self.params@.take(i + 1).drop_last() =~= self.params@.take(i as int));
            if !(self.params[i].has_default || self.params[i].is_rest) {
                n = n + 1;
            }
            i = i + 1;
        }
        assert(self.params@.take(self.params.len() as int) =~= self.params@);
        n
    }

    /// The largest number of arguments that a call may pass: none when the
    /// function is variadic.
    pub fn number_of_parameters(&self) -> (res: Option<usize>)
        ensures
            res == if exists|k: int| 0 <= k < self.params.len() && (#[trigger] self.params@[k]).is_rest {
                None
            } else {
                Some(self.params.len())
            },
    {
        let mut i: usize = 0;
        while i < self.params.len()
            invariant
                0 <= i <= self.params.len(),
                forall|k: int| 0 <= k < i ==> !(#[trigger] self.params@[k]).is_rest,
            decreases self.params.len() - i,
        {
            if self.params[i].is_rest {
                return None;
            }
            i = i + 1;
        }
        Some(self.params.len())
    }
}

/// The extension clause of a methodmap.
#[derive(Debug)]
pub enum MethodmapExtension {
    Inherits(Name),
    Nullable,
}

impl MethodmapExtension {
    /// The extension of a methodmap that inherits `inherits` (if any) and is
    /// `nullable` or not: none when it has both or neither.
    pub fn from(inherits: Option<Name>, nullable: bool) -> (res: Option<Self>)
        ensures
            match (inherits, nullable) {
                (Some(n), false) => res matches Some(MethodmapExtension::Inherits(m)) && m@ == n@,
                (None, true) => res matches Some(MethodmapExtension::Nullable),
                _ => res is None,
            },
    {
        match (inherits, nullable) {
            (Some(name), false) => Some(MethodmapExtension::Inherits(name)),
            (None, true) => Some(MethodmapExtension::Nullable),
            _ => None,
        }
    }
}

/// An accessor of a property.
#[derive(Debug, Clone, Copy, PartialEq, Eq, Structural)]
pub enum PropertyItem {
    Getter(FunctionId),
    Setter(FunctionId),
}

impl PropertyItem {
    pub fn function_id(&self) -> (res: FunctionId)
        ensures
            res == match self {
                PropertyItem::Getter(id) => *id,
                PropertyItem::Setter(id) => *id,
            },
    {
        match self {
            PropertyItem::Getter(id) | PropertyItem::Setter(id) => *id,
        }
    }
}

/// A single property of a methodmap.
#[derive(Debug)]
pub struct PropertyData {
    pub id: PropertyId,
    pub getters_setters: Vec<PropertyItem>,
    pub name: Name,
    pub type_ref: TypeRef,
    pub deprecated: bool,
}

/// A member of a methodmap.
#[derive(Debug)]
pub enum MethodmapItemData {
    Property(PropertyData),
    Method(FunctionId),
    Static(FunctionId),
    Constructor(FunctionId),
    Destructor(FunctionId),
}

/// The function of a member, if it is one.
pub open spec fn item_method(item: MethodmapItemData) -> Option<FunctionId> {
    match item {
        MethodmapItemData::Property(_) => None,
        MethodmapItemData::Method(f) | MethodmapItemData::Static(f) | MethodmapItemData::Constructor(f)
        | MethodmapItemData::Destructor(f) => Some(f),
    }
}

/// The functions of the methods, static methods, constructor and destructor among `items`, in order.
pub open spec fn methods_of(items: Seq<MethodmapItemData>) -> Seq<FunctionId>
    decreases items.len(),
{
    if items.len() == 0 {
        seq![]
    } else {
        methods_of(items.drop_last()) + match item_method(items.last()) {
            Some(f) => seq![f],
            None => seq![],
        }
    }
}

/// The functions of the accessors `ps`.
pub open spec fn accessor_fns(ps: Seq<PropertyItem>) -> Seq<FunctionId> {
    ps.map_values(
        |p: PropertyItem|
            match p {
                PropertyItem::Getter(f) => f,
                PropertyItem::Setter(f) => f,
            },
    )
}

/// The functions of the accessors of the properties among `items`, in order.
pub open spec fn getters_setters_of(items: Seq<MethodmapItemData>) -> Seq<FunctionId>
    decreases items.len(),
{
    if items.len() == 0 {
        seq![]
    } else {
        getters_setters_of(items.drop_last()) + match items.last() {
            MethodmapItemData::Property(p) => accessor_fns(p.getters_setters@),
            _ => seq![],
        }
    }
}

/// The data of a methodmap: its members (the inherited ones first), the
/// index of each member by name, and its special methods.
#[derive(Debug)]
pub struct MethodmapData {
    pub name: Name,
    pub items: Vec<MethodmapItemData>,
    pub items_map: NameMap,
    pub last_inherited_item_idx: Option<u32>,
    pub extension: Option<MethodmapExtension>,
    pub inherits: Option<MethodmapId>,
    pub constructor: Option<usize>,
    pub destructor: Option<usize>,
    pub deprecated: bool,
}

/// The static methods among the members `items`, in order.
pub open spec fn statics_of(items: Seq<MethodmapItemData>) -> Seq<FunctionId>
    decreases items.len(),
{
    if items.len() == 0 {
        seq![]
    } else {
        statics_of(items.drop_last()) + match items.last() {
            MethodmapItemData::Static(f) => seq![f],
            _ => seq![],
        }
    }
}

/// The ids of the properties among the members `items`, in order.
pub open spec fn properties_of(items: Seq<MethodmapItemData>) -> Seq<PropertyId>
    decreases items.len(),
{
    if items.len() == 0 {
        seq![]
    } else {
        properties_of(items.drop_last()) + match items.last() {
            MethodmapItemData::Property(pd) => seq![pd.id],
            _ => seq![],
        }
    }
}

/// Whether the member at index `idx` of `items` is the property `id`.
pub open spec fn is_property_member(items: Seq<MethodmapItemData>, idx: usize, id: PropertyId) -> bool {
    &&& idx < items.len()
    &&& items[idx as int] matches MethodmapItemData::Property(pd) && pd.id == id
}

impl MethodmapData {
    /// The indices that the data refers to are those of its members.
    pub open spec fn wf(&self) -> bool {
        &&& forall|k: int|
            0 <= k < self.items_map.spec_entries().len() ==> (#[trigger] self.items_map.spec_entries()[k]).1
                < self.items.len()
        &&& self.constructor matches Some(c) ==> c < self.items.len()
        &&& self.destructor matches Some(d) ==> d < self.items.len()
    }

    /// The ids of the properties, in order.
    pub fn properties(&self) -> (res: Vec<PropertyId>)
        ensures
            res@ == properties_of(self.items@),
    {
        let mut res: Vec<PropertyId> = Vec::new();
        let mut i: usize = 0;
        while i < self.items.len()
            invariant
                0 <= i <= self.items.len(),
                res@ == properties_of(self.items@.take(i as int)),
            decreases self.items.len() - i,
        {
            assert(self.items@.take(i + 1).drop_last() =~= self.items@.take(i as int));
            match &self.items[i] {
                MethodmapItemData::Property(pd) => {
                    res.push(pd.id);
                },
                _ => {},
            }
            i = i + 1;
        }
        assert(self.items@.take(self.items.len() as int) =~= self.items@);
        res
    }

    /// The data of the property `id`: the first member, in the order of the
    /// map of names, that is that property.
    pub fn property_from_id(&self, id: PropertyId) -> (res: Option<&PropertyData>)
        requires
            self.wf(),
        ensures
            match res {
                Some(pd) => exists|k: int|
                    0 <= k < self.items_map.spec_entries().len()
                        && is_property_member(self.items@, #[trigger] self.items_map.spec_entries()[k].1, id)
                        && (forall|j: int| 0 <= j < k ==> !is_property_member(self.items@, #[trigger] self.items_map.spec_entries()[j].1, id))
                        && self.items@[self.items_map.spec_entries()[k].1 as int] == MethodmapItemData::Property(*pd),
                None => forall|k: int|
                    0 <= k < self.items_map.spec_entries().len() ==> !is_property_member(self.items@, #[trigger] self.items_map.spec_entries()[k].1, id),
            },
    {
        let n = self.items_map.len();
        let mut i: usize = 0;
        while i < n
            invariant
                self.wf(),
                n == self.items_map.spec_entries().len(),
                0 <= i <= n,
                forall|j: int| 0 <= j < i ==> !is_property_member(self.items@, #[trigger] self.items_map.spec_entries()[j].1, id),
            decreases n - i,
        {
            let (_, idx) = self.items_map.entry(i);
            assert(self.items_map.spec_entries()[i as int].1 < self.items.len());
            match &self.items[idx] {
                MethodmapItemData::Property(pd) => {
                    if pd.id == id {
                        assert(is_property_member(self.items@, self.items_map.spec_entries()[i as int].1, id));
                        return Some(pd);
                    }
                },
                _ => {},
            }
            i = i + 1;
        }
        None
    }

    pub fn name(&self) -> (res: &Name)
        ensures
            res@ == self.name@,
    {
        &self.name
    }

    /// The member named `name`.
    pub fn items(&self, name: &Name) -> (res: Option<usize>)
        requires
            self.wf(),
        ensures
            res == self.items_map.spec_get(name@),
            res matches Some(i) ==> i < self.items.len(),
    {
        proof {
            lemma_lookup_name_bound(self.items_map.spec_entries(), name@, self.items.len());
        }
        self.items_map.get(name)
    }

    pub fn item(&self, item: usize) -> (res: &MethodmapItemData)
        requires
            item < self.items.len(),
        ensures
            *res == self.items@[item as int],
    {
        &self.items[item]
    }

    /// The function of member `item`, if it is one.
    pub fn method(&self, item: usize) -> (res: Option<FunctionId>)
        requires
            item < self.items.len(),
        ensures
            res == item_method(self.items@[item as int]),
    {
        match &self.items[item] {
            MethodmapItemData::Property(_) => None,
            MethodmapItemData::Static(f) => Some(*f),
            MethodmapItemData::Method(f) => Some(*f),
            MethodmapItemData::Constructor(f) => Some(*f),
            MethodmapItemData::Destructor(f) => Some(*f),
        }
    }

    /// The property that member `item` is, if it is one.
    pub fn property(&self, item: usize) -> (res: Option<&PropertyData>)
        requires
            item < self.items.len(),
        ensures
            match self.items@[item as int] {
                MethodmapItemData::Property(p) => res == Some(&p),
                _ => res is None,
            },
    {
        match &self.items[item] {
            MethodmapItemData::Property(p) => Some(p),
            _ => None,
        }
    }

    pub open spec fn spec_constructor(&self) -> Option<FunctionId> {
        match self.constructor {
            Some(c) => item_method(self.items@[c as int]),
            None => None,
        }
    }

    pub open spec fn spec_destructor(&self) -> Option<FunctionId> {
        match self.destructor {
            Some(d) => item_method(self.items@[d as int]),
            None => None,
        }
    }

    /// The function of the constructor.
    pub fn constructor(&self) -> (res: Option<FunctionId>)
        requires
            self.wf(),
        ensures
            res == self.spec_constructor(),
    {
        match self.constructor {
            Some(c) => self.method(c),
            None => None,
        }
    }

    /// The function of the destructor.
    pub fn destructor(&self) -> (res: Option<FunctionId>)
        requires
            self.wf(),
        ensures
            res == self.spec_destructor(),
    {
        match self.destructor {
            Some(d) => self.method(d),
            None => None,
        }
    }

    /// Whether member `idx` was declared by the methodmap itself (not inherited).
    pub open spec fn spec_is_local(&self, idx: usize) -> bool {
        match self.last_inherited_item_idx {
            Some(max) => idx > max,
            None => true,
        }
    }

    pub fn is_local(&self, idx: usize) -> (res: bool)
        ensures
            res == self.spec_is_local(idx),
    {
        match self.last_inherited_item_idx {
            Some(max) => idx as u64 > max as u64,
            None => true,
        }
    }

    /// Indices of the members that were not inherited, in order.
    pub fn local_items(&self) -> (res: Vec<usize>)
        ensures
            res@ == Seq::new(self.items.len() as nat, |i: int| i as usize).filter(|i: usize| self.spec_is_local(i)),
    {
        let ghost all = Seq::new(self.items.len() as nat, |i: int| i as usize);
        let mut res: Vec<usize> = Vec::new();
        let mut i: usize = 0;
        while i < self.items.len()
            invariant
                0 <= i <= self.items.len(),
                all == Seq::new(self.items.len() as nat, |i: int| i as usize),
                res@ == all.take(i as int).filter(|i: usize| self.spec_is_local(i)),
            decreases self.items.len() - i,
        {
            proof {
                assert(all.take(i + 1) =~= all.take(i as int).push(i));
            }
            if self.is_local(i) {
                res.push(i);
            }
            proof {
                reveal_with_fuel(Seq::filter, 2);
                assert(all.take(i + 1).drop_last() =~= all.take(i as int));
            }
            i = i + 1;
        }
        assert(all.take(self.items.len() as int) =~= all);
        res
    }

    /// The functions of the methods, static methods, constructor and destructor, in order.
    pub fn methods(&self) -> (res: Vec<FunctionId>)
        ensures
            res@ == methods_of(self.items@),
    {
        let mut res: Vec<FunctionId> = Vec::new();
        let mut i: usize = 0;
        while i < self.items.len()
            invariant
                0 <= i <= self.items.len(),
                res@ == methods_of(self.items@.take(i as int)),
            decreases self.items.len() - i,
        {
            assert(self.items@.take(i + 1).drop_last() =~= self.items@.take(i as int));
            match &self.items[i] {
                MethodmapItemData::Method(f) | MethodmapItemData::Static(f) | MethodmapItemData::Constructor(f)
                | MethodmapItemData::Destructor(f) => {
                    res.push(*f);
                },
                MethodmapItemData::Property(_) => {},
            }
            i = i + 1;
        }
        assert(self.items@.take(self.items.len() as int) =~= self.items@);
        res
    }

    /// The functions of the getters and setters of the properties, in order.
    pub fn getters_setters(&self) -> (res: Vec<FunctionId>)
        ensures
            res@ == getters_setters_of(self.items@),
    {
        let mut res: Vec<FunctionId> = Vec::new();
        let mut i: usize = 0;
        while i < self.items.len()
            invariant
                0 <= i <= self.items.len(),
                res@ == getters_setters_of(self.items@.take(i as int)),
            decreases self.items.len() - i,
        {
            assert(self.items@.take(i + 1).drop_last() =~= self.items@.take(i as int));
            match &self.items[i] {
                MethodmapItemData::Property(p) => {
                    let ghost r0 = res@;
                    let mut j: usize = 0;
                    while j < p.getters_setters.len()
                        invariant
                            0 <= j <= p.getters_setters.len(),
                            res@ == r0 + accessor_fns(p.getters_setters@.take(j as int)),
                        decreases p.getters_setters.len() - j,
                    {
                        let f = p.getters_setters[j].function_id();
                        res.push(f);
                        assert(accessor_fns(p.getters_setters@.take(j + 1)) =~= accessor_fns(p.getters_setters@.take(j as int)).push(f));
                        j = j + 1;
                    }
                    assert(p.getters_setters@.take(p.getters_setters.len() as int) =~= p.getters_setters@);
                },
                _ => {},
            }
            i = i + 1;
        }
        assert(self.items@.take(self.items.len() as int) =~= self.items@);
        res
    }

    /// The static methods, in order.
    pub fn static_methods(&self) -> (res: Vec<FunctionId>)
        ensures
            res@ == statics_of(self.items@),
    {
        let mut res: Vec<FunctionId> = Vec::new();
        let mut i: usize = 0;
        while i < self.items.len()
            invariant
                0 <= i <= self.items.len(),
                res@ == statics_of(self.items@.take(i as int)),
            decreases self.items.len() - i,
        {
            assert(self.items@.take(i + 1).drop_last() =~= self.items@.take(i as int));
            match &self.items[i] {
                MethodmapItemData::Static(f) => {
                    res.push(*f);
                },
                _ => {},
            }
            i = i + 1;
        }
        assert(self.items@.take(self.items.len() as int) =~= self.items@);
        res
    }
}

/// A field of an enum struct.
#[derive(Debug)]
pub struct FieldData {
    pub name: Name,
    pub type_ref: TypeRef,
    pub deprecated: bool,
}

/// A member of an enum struct.
#[derive(Debug)]
pub enum EnumStructItemData {
    Field(FieldData),
    Method(FunctionId),
}

/// The functions of the methods among the members `items` of an enum struct, in order.
pub open spec fn es_methods_of(items: Seq<EnumStructItemData>) -> Seq<FunctionId>
    decreases items.len(),
{
    if items.len() == 0 {
        seq![]
    } else {
        es_methods_of(items.drop_last()) + match items.last() {
            EnumStructItemData::Method(f) => seq![f],
            EnumStructItemData::Field(_) => seq![],
        }
    }
}

/// The data of an enum struct: its members and the index of each by name.
#[derive(Debug)]
pub struct EnumStructData {
    pub name: Name,
    pub items: Vec<EnumStructItemData>,
    pub items_map: NameMap,
    pub deprecated: bool,
}

impl EnumStructData {
    /// The functions of the methods, in order.
    pub fn methods(&self) -> (res: Vec<FunctionId>)
        ensures
            res@ == es_methods_of(self.items@),
    {
        let mut res: Vec<FunctionId> = Vec::new();
        let mut i: usize = 0;
        while i < self.items.len()
            invariant
                0 <= i <= self.items.len(),
                res@ == es_methods_of(self.items@.take(i as int)),
            decreases self.items.len() - i,
        {
            assert(self.items@.take(i + 1).drop_last() =~= self.items@.take(i as int));
            match &self.items[i] {
                EnumStructItemData::Method(f) => res.push(*f),
                EnumStructItemData::Field(_) => {},
            }
            i = i + 1;
        }
        assert(self.items@.take(self.items.len() as int) =~= self.items@);
        res
    }

    /// The indices of the map are those of members.
    pub open spec fn wf(&self) -> bool {
        forall|k: int|
            0 <= k < self.items_map.spec_entries().len() ==> (#[trigger] self.items_map.spec_entries()[k]).1
                < self.items.len()
    }

    /// The member named `name`.
    pub fn items(&self, name: &Name) -> (res: Option<usize>)
        requires
            self.wf(),
        ensures
            res == self.items_map.spec_get(name@),
            res matches Some(i) ==> i < self.items.len(),
    {
        proof {
            lemma_lookup_name_bound(self.items_map.spec_entries(), name@, self.items.len());
        }
        self.items_map.get(name)
    }

    pub fn item(&self, item: usize) -> (res: &EnumStructItemData)
        requires
            item < self.items.len(),
        ensures
            *res == self.items@[item as int],
    {
        &self.items[item]
    }

    /// The function of member `item`, if it is a method.
    pub fn method(&self, item: usize) -> (res: Option<FunctionId>)
        requires
            item < self.items.len(),
        ensures
            res == match self.items@[item as int] {
                EnumStructItemData::Method(f) => Some(f),
                _ => None,
            },
    {
        match &self.items[item] {
            EnumStructItemData::Field(_) => None,
            EnumStructItemData::Method(f) => Some(*f),
        }
    }

    /// The field that member `item` is, if it is one.
    pub fn field(&self, item: usize) -> (res: Option<&FieldData>)
        requires
            item < self.items.len(),
        ensures
            match self.items@[item as int] {
                EnumStructItemData::Field(f) => res == Some(&f),
                _ => res is None,
            },
    {
        match &self.items[item] {
            EnumStructItemData::Field(f) => Some(f),
            EnumStructItemData::Method(_) => None,
        }
    }

    /// The type of member `item`, if it is a field.
    pub fn field_type(&self, item: usize) -> (res: Option<&TypeRef>)
        requires
            item < self.items.len(),
        ensures
            match self.items@[item as int] {
                EnumStructItemData::Field(f) => res == Some(&f.type_ref),
                _ => res is None,
            },
    {
        match &self.items[item] {
            EnumStructItemData::Field(f) => Some(&f.type_ref),
            EnumStructItemData::Method(_) => None,
        }
    }
}

/// The queries that the data of definitions is computed from. Each query is a
/// function of its argument.
pub trait DataDatabase: InternDatabase {
    spec fn spec_lookup_methodmap(&self, id: MethodmapId) -> ItemLoc;

    spec fn spec_lookup_enum_struct(&self, id: EnumStructId) -> ItemLoc;

    spec fn spec_lookup_function(&self, id: FunctionId) -> ItemLoc;

    spec fn spec_item_tree(&self, tree: TreeId) -> Arc<ItemTree>;

    spec fn spec_global_resolver(&self, file_id: FileId) -> Resolver;

    spec fn spec_methodmap_data(&self, id: MethodmapId) -> Arc<MethodmapData>;

    spec fn spec_enum_struct_data(&self, id: EnumStructId) -> Arc<EnumStructData>;

    spec fn spec_function_data(&self, id: FunctionId) -> Arc<FunctionData>;

    /// The location that `id` was interned from.
    fn lookup_methodmap(&self, id: MethodmapId) -> (res: ItemLoc)
        ensures
            res == self.spec_lookup_methodmap(id),
    ;

    fn lookup_enum_struct(&self, id: EnumStructId) -> (res: ItemLoc)
        ensures
            res == self.spec_lookup_enum_struct(id),
    ;

    fn lookup_function(&self, id: FunctionId) -> (res: ItemLoc)
        ensures
            res == self.spec_lookup_function(id),
    ;

    /// The item tree of a file or a block.
    fn item_tree(&self, tree: TreeId) -> (res: Arc<ItemTree>)
        ensures
            res == self.spec_item_tree(tree),
            res.wf(),
    ;

    /// The resolver of the global scope of a file.
    fn global_resolver(&self, file_id: FileId) -> (res: Resolver)
        ensures
            res == self.spec_global_resolver(file_id),
            res.wf(),
    ;

    fn methodmap_data(&self, id: MethodmapId) -> (res: Arc<MethodmapData>)
        ensures
            res == self.spec_methodmap_data(id),
            res.wf(),
    ;

    fn enum_struct_data(&self, id: EnumStructId) -> (res: Arc<EnumStructData>)
        ensures
            res == self.spec_enum_struct_data(id),
            res.wf(),
    ;

    fn function_data(&self, id: FunctionId) -> (res: Arc<FunctionData>)
        ensures
            res == self.spec_function_data(id),
    ;
}

impl<D: DataDatabase> Lookup<D> for FunctionId {
    type Data = ItemLoc;

    fn lookup(&self, db: &D) -> (res: ItemLoc)
        ensures
            res == db.spec_lookup_function(*self),
    {
        db.lookup_function(*self)
    }
}

impl<D: DataDatabase> Lookup<D> for MethodmapId {
    type Data = ItemLoc;

    fn lookup(&self, db: &D) -> (res: ItemLoc)
        ensures
            res == db.spec_lookup_methodmap(*self),
    {
        db.lookup_methodmap(*self)
    }
}

impl<D: DataDatabase> Lookup<D> for EnumStructId {
    type Data = ItemLoc;

    fn lookup(&self, db: &D) -> (res: ItemLoc)
        ensures
            res == db.spec_lookup_enum_struct(*self),
    {
        db.lookup_enum_struct(*self)
    }
}

/// A parameter as plain values: its type, and whether it has a default, is
/// variadic, is const.
pub type ParamView = (Option<TypeRefView>, bool, bool, bool);

pub open spec fn param_view(p: ParamData) -> ParamView {
    (opt_type_view(p.type_ref), p.has_default, p.is_rest, p.is_const)
}

pub open spec fn item_param_view(p: crate::item_tree::Param) -> ParamView {
    (opt_type_view(p.type_ref), p.has_default, p.is_rest, p.is_const)
}

impl ParamData {
    /// The data of the parameter `param` of an item tree.
    pub fn from_param(param: &crate::item_tree::Param) -> (res: Self)
        ensures
            param_view(res) == item_param_view(*param),
    {
        let type_ref = match &param.type_ref {
            Some(t) => Some(t.clone()),
            None => None,
        };
        ParamData { type_ref, has_default: param.has_default, is_rest: param.is_rest, is_const: param.is_const }
    }
}

/// A function's data as plain values.
pub type FunctionDataView = (
    Seq<char>,
    Option<TypeRefView>,
    Seq<ParamView>,
    FunctionKind,
    RawVisibilityId,
    Option<SpecialMethod>,
    bool,
);

pub open spec fn function_data_view(d: FunctionData) -> FunctionDataView {
    (
        d.name@,
        opt_type_view(d.type_ref),
        d.params@.map_values(|p: ParamData| param_view(p)),
        d.kind,
        d.visibility,
        d.special,
        d.deprecated,
    )
}

/// The data of function `f` of item tree `tree`.
pub open spec fn spec_function_data_of(tree: &ItemTree, f: int) -> FunctionDataView {
    let func = tree.functions@[f];
    (
        func.name@,
        opt_type_view(func.ret_type),
        tree.params@.subrange(func.params.start as int, func.params.end as int).map_values(
            |p: crate::item_tree::Param| item_param_view(p),
        ),
        func.kind,
        func.visibility,
        func.special,
        func.deprecated,
    )
}

/// The location of `id` is that of a function of its item tree.
pub open spec fn function_loc_valid<D: DataDatabase>(db: &D, id: FunctionId) -> bool {
    db.spec_lookup_function(id).value < db.spec_item_tree(db.spec_lookup_function(id).tree).functions.len()
}

/// The data of function `id`, from its item tree.
pub fn function_data_query<D: DataDatabase>(db: &D, id: FunctionId) -> (res: Arc<FunctionData>)
    requires
        function_loc_valid(db, id),
    ensures
        function_data_view(*res) == ({
            let loc = db.spec_lookup_function(id);
            spec_function_data_of(&*db.spec_item_tree(loc.tree), loc.value as int)
        }),
{
    let loc = db.lookup_function(id);
    let item_tree = db.item_tree(loc.tree);
    let function = &item_tree.functions[loc.value];
    let start = function.params.start;
    let end = function.params.end;
    assert(function.params.within(item_tree.params.len() as nat));
    let ghost all = item_tree.params@.subrange(start as int, end as int).map_values(
        |p: crate::item_tree::Param| item_param_view(p),
    );
    let mut params: Vec<ParamData> = Vec::new();
    let mut k = start;
    while k < end
        invariant
            start <= k <= end <= item_tree.params.len(),
            all == item_tree.params@.subrange(start as int, end as int).map_values(
                |p: crate::item_tree::Param| item_param_view(p),
            ),
            params@.map_values(|p: ParamData| param_view(p)) == all.take(k - start),
        decreases end - k,
    {
        let p = ParamData::from_param(&item_tree.params[k]);
        let ghost before = params@;
        params.push(p);
        assert(params@.map_values(|p: ParamData| param_view(p)) =~= before.map_values(|p: ParamData| param_view(p)).push(param_view(p)));
        assert(all.take(k + 1 - start) =~= all.take(k - start).push(all[k - start]));
        k = k + 1;
    }
    assert(all.take(end - start) =~= all);
    let type_ref = match &function.ret_type {
        Some(t) => Some(t.clone()),
        None => None,
    };
    Arc::new(
        FunctionData {
            name: function.name.clone(),
            type_ref,
            params,
            kind: function.kind,
            visibility: function.visibility,
            special: function.special,
            deprecated: function.deprecated,
        },
    )
}

/// A member of an enum struct as plain values.
pub enum EnumStructItemView {
    Field(Seq<char>, TypeRefView, bool),
    Method(FunctionId),
}

pub open spec fn es_item_view(i: EnumStructItemData) -> EnumStructItemView {
    match i {
        EnumStructItemData::Field(f) => EnumStructItemView::Field(f.name@, f.type_ref@, f.deprecated),
        EnumStructItemData::Method(m) => EnumStructItemView::Method(m),
    }
}

pub open spec fn es_items_view(v: Seq<EnumStructItemData>) -> Seq<EnumStructItemView> {
    v.map_values(|i: EnumStructItemData| es_item_view(i))
}

/// The location of a member `value` of the type `container`.
pub open spec fn member_loc(container: ItemContainerId, tree: TreeId, value: usize) -> ItemLoc {
    ItemLoc { container, tree, value }
}

/// The members of enum struct `id` made from the item ids `items`, with the
/// index of each by name.
pub open spec fn es_fold<D: DataDatabase>(db: &D, id: EnumStructId, loc: ItemLoc, tree: &ItemTree, items: Seq<EnumStructItemId>) -> (
    Seq<EnumStructItemView>,
    Seq<(Seq<char>, usize)>,
)
    decreases items.len(),
{
    if items.len() == 0 {
        (seq![], seq![])
    } else {
        let (iv, es) = es_fold(db, id, loc, tree, items.drop_last());
        match items.last() {
            EnumStructItemId::Field(f) => {
                let field = tree.fields@[f as int];
                (
                    iv.push(EnumStructItemView::Field(field.name@, field.type_ref@, field.deprecated)),
                    entries_insert(es, field.name@, iv.len() as usize),
                )
            },
            EnumStructItemId::Method(m) => (
                iv.push(
                    EnumStructItemView::Method(
                        db.spec_intern_function(member_loc(ItemContainerId::EnumStructId(id), loc.tree, m)),
                    ),
                ),
                entries_insert(es, tree.functions@[m as int].name@, iv.len() as usize),
            ),
        }
    }
}

proof fn lemma_es_fold_len<D: DataDatabase>(db: &D, id: EnumStructId, loc: ItemLoc, tree: &ItemTree, items: Seq<EnumStructItemId>)
    ensures
        es_fold(db, id, loc, tree, items).0.len() == items.len(),
        forall|k: int| 0 <= k < es_fold(db, id, loc, tree, items).1.len() ==> (#[trigger] es_fold(db, id, loc, tree, items).1[k]).1 < items.len(),
    decreases items.len(),
{
    if items.len() > 0 {
        lemma_es_fold_len(db, id, loc, tree, items.drop_last());
        let (iv, es) = es_fold(db, id, loc, tree, items.drop_last());
        lemma_entries_insert_bound(es, iv.len() as usize, items.len() as nat);
    }
}

proof fn lemma_find_name_in(entries: Seq<(Seq<char>, usize)>, n: Seq<char>)
    ensures
        find_name(entries, n) matches Some(i) ==> 0 <= i < entries.len() && entries[i].0 == n,
    decreases entries.len(),
{
    if entries.len() > 0 && entries[0].0 != n {
        lemma_find_name_in(entries.drop_first(), n);
    }
}

proof fn lemma_entries_insert_bound(es: Seq<(Seq<char>, usize)>, v: usize, bound: nat)
    requires
        forall|k: int| 0 <= k < es.len() ==> (#[trigger] es[k]).1 < bound,
        v < bound,
    ensures
        forall|n: Seq<char>, k: int| 0 <= k < entries_insert(es, n, v).len() ==> (#[trigger] entries_insert(es, n, v)[k]).1 < bound,
{
    assert forall|n: Seq<char>, k: int| 0 <= k < entries_insert(es, n, v).len() implies (#[trigger] entries_insert(es, n, v)[k]).1 < bound by {
        lemma_find_name_in(es, n);
        match find_name(es, n) {
            Some(i) => {
                if k != i {
                    assert(entries_insert(es, n, v)[k] == es[k]);
                }
            },
            None => {
                if k < es.len() {
                    assert(entries_insert(es, n, v)[k] == es[k]);
                }
            },
        }
    }
}

/// The location of `id` is that of an enum struct of its item tree.
pub open spec fn enum_struct_loc_valid<D: DataDatabase>(db: &D, id: EnumStructId) -> bool {
    db.spec_lookup_enum_struct(id).value < db.spec_item_tree(db.spec_lookup_enum_struct(id).tree).enum_structs.len()
}

/// The data of enum struct `id`, from its item tree: its fields and methods in
/// order, each under its name (a later member replaces an earlier one of the
/// same name).
pub fn enum_struct_data_query<D: DataDatabase>(db: &D, id: EnumStructId) -> (res: Arc<EnumStructData>)
    requires
        enum_struct_loc_valid(db, id),
    ensures
        res.wf(),
        ({
            let loc = db.spec_lookup_enum_struct(id);
            let tree = db.spec_item_tree(loc.tree);
            let es = tree.enum_structs@[loc.value as int];
            &&& res.name@ == es.name@
            &&& res.deprecated == es.deprecated
            &&& (es_items_view(res.items@), res.items_map.spec_entries()) == es_fold(db, id, loc, &*tree, es.items@)
        }),
{
    let loc = db.lookup_enum_struct(id);
    let item_tree = db.item_tree(loc.tree);
    let enum_struct = &item_tree.enum_structs[loc.value];
    let mut items: Vec<EnumStructItemData> = Vec::new();
    let mut items_map = NameMap::new();
    let mut k: usize = 0;
    while k < enum_struct.items.len()
        invariant
            0 <= k <= enum_struct.items.len(),
            item_tree.wf(),
            loc.value < item_tree.enum_structs.len(),
            *enum_struct == item_tree.enum_structs@[loc.value as int],
            (es_items_view(items@), items_map.spec_entries()) == es_fold(db, id, loc, &*item_tree, enum_struct.items@.take(k as int)),
        decreases enum_struct.items.len() - k,
    {
        let ghost t = enum_struct.items@.take(k + 1);
        assert(t.drop_last() =~= enum_struct.items@.take(k as int));
        assert(t.last() == enum_struct.items@[k as int]);
        proof {
            lemma_es_fold_len(db, id, loc, &*item_tree, enum_struct.items@.take(k as int));
        }
        let idx = items.len();
        match enum_struct.items[k] {
            EnumStructItemId::Field(f) => {
                let field = &item_tree.fields[f];
                let ghost before = items@;
                items.push(EnumStructItemData::Field(FieldData { name: field.name.clone(), type_ref: field.type_ref.clone(), deprecated: field.deprecated }));
                assert(es_items_view(items@) =~= es_items_view(before).push(
                    EnumStructItemView::Field(field.name@, field.type_ref@, field.deprecated),
                ));
                items_map.insert(field.name.clone(), idx);
            },
            EnumStructItemId::Method(m) => {
                let fn_id = db.intern_function(ItemLoc { container: ItemContainerId::EnumStructId(id), tree: loc.tree, value: m });
                let ghost before = items@;
                items.push(EnumStructItemData::Method(fn_id));
                assert(es_items_view(items@) =~= es_items_view(before).push(EnumStructItemView::Method(fn_id)));
                items_map.insert(item_tree.functions[m].name.clone(), idx);
            },
        }
        k = k + 1;
    }
    assert(enum_struct.items@.take(enum_struct.items.len() as int) =~= enum_struct.items@);
    proof {
        lemma_es_fold_len(db, id, loc, &*item_tree, enum_struct.items@);
        assert(es_items_view(items@).len() == items.len());
        assert(items.len() == enum_struct.items.len());
        let es = items_map.spec_entries();
        assert forall|k: int| 0 <= k < es.len() implies (#[trigger] es[k]).1 < items.len() by {
            assert(es == es_fold(db, id, loc, &*item_tree, enum_struct.items@).1);
        }
    }
    Arc::new(EnumStructData { name: enum_struct.name.clone(), items, items_map, deprecated: enum_struct.deprecated })
}

/// A problem found while computing the data of a definition.
#[derive(Debug)]
pub enum DefDiagnostic {
    UnresolvedInherit { methodmap_ast_id: AstId, inherit_name: Name, exists: bool },
}

pub open spec fn def_diag_view(d: DefDiagnostic) -> (AstId, Seq<char>, bool) {
    match d {
        DefDiagnostic::UnresolvedInherit { methodmap_ast_id, inherit_name, exists } => (
            methodmap_ast_id,
            inherit_name@,
            exists,
        ),
    }
}

/// A member of a methodmap as plain values.
pub enum MethodmapItemView {
    Property(PropertyId, Seq<PropertyItem>, Seq<char>, TypeRefView, bool),
    Method(FunctionId),
    Static(FunctionId),
    Constructor(FunctionId),
    Destructor(FunctionId),
}

pub open spec fn mm_item_view(i: MethodmapItemData) -> MethodmapItemView {
    match i {
        MethodmapItemData::Property(p) => MethodmapItemView::Property(
            p.id,
            p.getters_setters@,
            p.name@,
            p.type_ref@,
            p.deprecated,
        ),
        MethodmapItemData::Method(f) => MethodmapItemView::Method(f),
        MethodmapItemData::Static(f) => MethodmapItemView::Static(f),
        MethodmapItemData::Constructor(f) => MethodmapItemView::Constructor(f),
        MethodmapItemData::Destructor(f) => MethodmapItemView::Destructor(f),
    }
}

pub open spec fn mm_items_view(v: Seq<MethodmapItemData>) -> Seq<MethodmapItemView> {
    v.map_values(|i: MethodmapItemData| mm_item_view(i))
}

/// A copy of a member.
fn clone_item(item: &MethodmapItemData) -> (res: MethodmapItemData)
    ensures
        mm_item_view(res) == mm_item_view(*item),
{
    match item {
        MethodmapItemData::Property(p) => {
            let mut gs: Vec<PropertyItem> = Vec::new();
            let mut k: usize = 0;
            while k < p.getters_setters.len()
                invariant
                    0 <= k <= p.getters_setters.len(),
                    gs@ == p.getters_setters@.take(k as int),
                decreases p.getters_setters.len() - k,
            {
                gs.push(p.getters_setters[k]);
                assert(p.getters_setters@.take(k + 1) =~= p.getters_setters@.take(k as int).push(p.getters_setters@[k as int]));
                k = k + 1;
            }
            assert(p.getters_setters@.take(p.getters_setters.len() as int) =~= p.getters_setters@);
            MethodmapItemData::Property(
                PropertyData { id: p.id, getters_setters: gs, name: p.name.clone(), type_ref: p.type_ref.clone(), deprecated: p.deprecated },
            )
        },
        MethodmapItemData::Method(f) => MethodmapItemData::Method(*f),
        MethodmapItemData::Static(f) => MethodmapItemData::Static(*f),
        MethodmapItemData::Constructor(f) => MethodmapItemData::Constructor(*f),
        MethodmapItemData::Destructor(f) => MethodmapItemData::Destructor(*f),
    }
}

/// The members inherited from a parent whose members are `parent_items` and
/// whose index by name is `entries`: all but its constructor and destructor,
/// in the order of the index.
pub open spec fn inherit_fold(parent_items: Seq<MethodmapItemData>, entries: Seq<(Seq<char>, usize)>) -> (
    Seq<MethodmapItemView>,
    Seq<(Seq<char>, usize)>,
)
    decreases entries.len(),
{
    if entries.len() == 0 {
        (seq![], seq![])
    } else {
        let (iv, es) = inherit_fold(parent_items, entries.drop_last());
        let (k, v) = entries.last();
        let item = parent_items[v as int];
        if item is Constructor || item is Destructor {
            (iv, es)
        } else {
            (iv.push(mm_item_view(item)), entries_insert(es, k, iv.len() as usize))
        }
    }
}

/// The largest index of `entries`, if any.
pub open spec fn max_index(entries: Seq<(Seq<char>, usize)>) -> Option<usize>
    decreases entries.len(),
{
    if entries.len() == 0 {
        None
    } else {
        match max_index(entries.drop_last()) {
            Some(m) => Some(
                if entries.last().1 > m {
                    entries.last().1
                } else {
                    m
                },
            ),
            None => Some(entries.last().1),
        }
    }
}

/// The accessor function `start + j` of a property of methodmap `id`.
pub open spec fn accessor_fn<D: DataDatabase>(db: &D, id: MethodmapId, tree: TreeId, f: int) -> FunctionId {
    db.spec_intern_function(member_loc(ItemContainerId::MethodmapId(id), tree, f as usize))
}

/// The accessors of a property whose functions are `range`: a getter for a
/// function named `get`, else a setter.
pub open spec fn accessors<D: DataDatabase>(db: &D, id: MethodmapId, tree: TreeId, range: crate::item_tree::IdxRange) -> Seq<PropertyItem> {
    Seq::new(
        (range.end - range.start) as nat,
        |j: int|
            {
                let f = accessor_fn(db, id, tree, range.start + j);
                if db.spec_function_data(f).name@ == "get"@ {
                    PropertyItem::Getter(f)
                } else {
                    PropertyItem::Setter(f)
                }
            },
    )
}

/// The accessor functions of a property whose functions are `range` are all
/// named `get` or `set`.
pub open spec fn accessors_named<D: DataDatabase>(db: &D, id: MethodmapId, tree: TreeId, range: crate::item_tree::IdxRange) -> bool {
    forall|f: int|
        range.start <= f < range.end ==> {
            let n = #[trigger] db.spec_function_data(accessor_fn(db, id, tree, f)).name@;
            n == "get"@ || n == "set"@
        }
}

/// The members of methodmap `id` declared by the methodmap item ids `items`,
/// added after `init`, with the index of each by name and the indices of the
/// constructor and destructor.
pub open spec fn local_fold<D: DataDatabase>(
    db: &D,
    id: MethodmapId,
    loc: ItemLoc,
    tree: &ItemTree,
    items: Seq<MethodmapItemId>,
    init: (Seq<MethodmapItemView>, Seq<(Seq<char>, usize)>),
) -> (Seq<MethodmapItemView>, Seq<(Seq<char>, usize)>, Option<usize>, Option<usize>)
    decreases items.len(),
{
    if items.len() == 0 {
        (init.0, init.1, None, None)
    } else {
        let (iv, es, ctor, dtor) = local_fold(db, id, loc, tree, items.drop_last(), init);
        let idx = iv.len() as usize;
        match items.last() {
            MethodmapItemId::Property(p) => {
                let prop = tree.properties@[p as int];
                let pid = db.spec_intern_property(member_loc(ItemContainerId::MethodmapId(id), loc.tree, p));
                (
                    iv.push(
                        MethodmapItemView::Property(
                            pid,
                            accessors(db, id, loc.tree, prop.getters_setters),
                            prop.name@,
                            prop.type_ref@,
                            prop.deprecated,
                        ),
                    ),
                    entries_insert(es, prop.name@, idx),
                    ctor,
                    dtor,
                )
            },
            MethodmapItemId::Method(m) => {
                let f = tree.functions@[m as int];
                let fid = db.spec_intern_function(member_loc(ItemContainerId::MethodmapId(id), loc.tree, m));
                let item = match f.special {
                    Some(SpecialMethod::Constructor) => MethodmapItemView::Constructor(fid),
                    Some(SpecialMethod::Destructor) => MethodmapItemView::Destructor(fid),
                    None => if f.visibility.0 & RawVisibilityId::STATIC == RawVisibilityId::STATIC {
                        MethodmapItemView::Static(fid)
                    } else {
                        MethodmapItemView::Method(fid)
                    },
                };
                (
                    iv.push(item),
                    entries_insert(es, f.name@, idx),
                    if f.special == Some(SpecialMethod::Constructor) {
                        Some(idx)
                    } else {
                        ctor
                    },
                    if f.special == Some(SpecialMethod::Destructor) {
                        Some(idx)
                    } else {
                        dtor
                    },
                )
            },
        }
    }
}

/// The methodmap that the inheritance clause `inherits` of a methodmap of file
/// `file_id` names, if it names one, and how it resolved.
pub open spec fn resolved_inherit<D: DataDatabase>(db: &D, file_id: FileId, inherits: Option<Name>) -> Option<Option<ValueNsView>> {
    match inherits {
        Some(n) => Some(
            spec_resolve(db.spec_global_resolver(file_id).scopes@, db.spec_global_resolver(file_id).file_id, n@),
        ),
        None => None,
    }
}

pub open spec fn parent_of(r: Option<Option<ValueNsView>>) -> Option<MethodmapId> {
    match r {
        Some(Some(ValueNsView::MethodmapId(it))) => Some(it.value),
        _ => None,
    }
}

/// The location of `id` is that of a methodmap of its item tree whose
/// properties' accessors are named `get` or `set`.
pub open spec fn methodmap_loc_valid<D: DataDatabase>(db: &D, id: MethodmapId) -> bool {
    let loc = db.spec_lookup_methodmap(id);
    let tree = db.spec_item_tree(loc.tree);
    &&& loc.value < tree.methodmaps.len()
    &&& forall|j: int|
        0 <= j < tree.methodmaps@[loc.value as int].items.len() ==> (#[trigger] tree.methodmaps@[loc.value as int].items@[j] matches MethodmapItemId::Property(
            p,
        ) ==> p < tree.properties.len() && accessors_named(db, id, loc.tree, tree.properties@[p as int].getters_setters))
}

proof fn lemma_inherit_fold_len(parent_items: Seq<MethodmapItemData>, entries: Seq<(Seq<char>, usize)>)
    requires
        forall|k: int| 0 <= k < entries.len() ==> (#[trigger] entries[k]).1 < parent_items.len(),
    ensures
        inherit_fold(parent_items, entries).0.len() <= entries.len(),
        forall|k: int|
            0 <= k < inherit_fold(parent_items, entries).1.len() ==> (#[trigger] inherit_fold(parent_items, entries).1[k]).1
                < inherit_fold(parent_items, entries).0.len(),
    decreases entries.len(),
{
    if entries.len() > 0 {
        let rest = entries.drop_last();
        assert forall|k: int| 0 <= k < rest.len() implies (#[trigger] rest[k]).1 < parent_items.len() by {
            assert(rest[k] == entries[k]);
        }
        lemma_inherit_fold_len(parent_items, rest);
        let (iv, es) = inherit_fold(parent_items, rest);
        assert forall|k: int| 0 <= k < es.len() implies (#[trigger] es[k]).1 < iv.len() + 1 by {}
        lemma_entries_insert_bound(es, iv.len() as usize, (iv.len() + 1) as nat);
    }
}

proof fn lemma_local_fold_len<D: DataDatabase>(
    db: &D,
    id: MethodmapId,
    loc: ItemLoc,
    tree: &ItemTree,
    items: Seq<MethodmapItemId>,
    init: (Seq<MethodmapItemView>, Seq<(Seq<char>, usize)>),
)
    requires
        forall|k: int| 0 <= k < init.1.len() ==> (#[trigger] init.1[k]).1 < init.0.len(),
    ensures
        ({
            let (iv, es, c, d) = local_fold(db, id, loc, tree, items, init);
            &&& iv.len() == init.0.len() + items.len()
            &&& forall|k: int| 0 <= k < es.len() ==> (#[trigger] es[k]).1 < iv.len()
            &&& c matches Some(c) ==> c < iv.len()
            &&& d matches Some(d) ==> d < iv.len()
        }),
    decreases items.len(),
{
    if items.len() > 0 {
        lemma_local_fold_len(db, id, loc, tree, items.drop_last(), init);
        let (iv, es, c, d) = local_fold(db, id, loc, tree, items.drop_last(), init);
        assert forall|k: int| 0 <= k < es.len() implies (#[trigger] es[k]).1 < iv.len() + 1 by {}
        lemma_entries_insert_bound(es, iv.len() as usize, (iv.len() + 1) as nat);
    }
}

/// Inherits the members of `parent`: all but its constructor and destructor.
fn inherit_items(parent: &MethodmapData, items: &mut Vec<MethodmapItemData>, items_map: &mut NameMap)
    requires
        parent.wf(),
        old(items)@.len() == 0,
        old(items_map).spec_entries().len() == 0,
    ensures
        (mm_items_view(final(items)@), final(items_map).spec_entries()) == inherit_fold(parent.items@, parent.items_map.spec_entries()),
{
    let ghost pe = parent.items_map.spec_entries();
    let mut j: usize = 0;
    assert(mm_items_view(items@) =~= Seq::<MethodmapItemView>::empty());
    assert(pe.take(0) =~= Seq::<(Seq<char>, usize)>::empty());
    while j < parent.items_map.len()
        invariant
            0 <= j <= pe.len(),
            parent.wf(),
            pe == parent.items_map.spec_entries(),
            (mm_items_view(items@), items_map.spec_entries()) == inherit_fold(parent.items@, pe.take(j as int)),
        decreases pe.len() - j,
    {
        let ghost t = pe.take(j + 1);
        assert(t.drop_last() =~= pe.take(j as int));
        assert(t.last() == pe[j as int]);
        let (k, v) = parent.items_map.entry(j);
        assert(pe[j as int].1 < parent.items.len());
        match &parent.items[v] {
            MethodmapItemData::Constructor(_) | MethodmapItemData::Destructor(_) => {},
            other => {
                let idx = items.len();
                let ghost before = items@;
                let item = clone_item(other);
                items.push(item);
                assert(mm_items_view(items@) =~= mm_items_view(before).push(mm_item_view(*other)));
                items_map.insert(k.clone(), idx);
            },
        }
        j = j + 1;
    }
    assert(pe.take(pe.len() as int) =~= pe);
}

/// The largest index of the map.
fn max_index_of(map: &NameMap) -> (res: Option<usize>)
    ensures
        res == max_index(map.spec_entries()),
{
    let ghost es = map.spec_entries();
    let mut res: Option<usize> = None;
    let mut j: usize = 0;
    while j < map.len()
        invariant
            0 <= j <= es.len(),
            es == map.spec_entries(),
            res == max_index(es.take(j as int)),
        decreases es.len() - j,
    {
        let ghost t = es.take(j + 1);
        assert(t.drop_last() =~= es.take(j as int));
        let (_, v) = map.entry(j);
        res = match res {
            Some(m) => Some(
                if v > m {
                    v
                } else {
                    m
                },
            ),
            None => Some(v),
        };
        j = j + 1;
    }
    assert(es.take(es.len() as int) =~= es);
    res
}

/// The index `max` as a 32-bit arena index (truncated).
fn index_u32(max: usize) -> (res: u32)
    ensures
        res == max as u32,
{
    #[verifier::truncate]
    (max as u32)
}

/// The data of methodmap `id`, from its item tree: the members it inherits
/// from the methodmap its inheritance clause names (all but the constructor
/// and destructor), then its own properties and methods, each under its name
/// (a later member replaces an earlier one of the same name); and a
/// diagnostic when the clause names no methodmap.
pub fn methodmap_data_with_diagnostics_query<D: DataDatabase>(db: &D, id: MethodmapId) -> (res: (Arc<MethodmapData>, Vec<DefDiagnostic>))
    requires
        methodmap_loc_valid(db, id),
    ensures
        res.0.wf(),
        ({
            let loc = db.spec_lookup_methodmap(id);
            let tree = db.spec_item_tree(loc.tree);
            let mm = tree.methodmaps@[loc.value as int];
            let r = resolved_inherit(db, loc.tree.file, mm.inherits);
            let parent = parent_of(r);
            let inherited = match parent {
                Some(p) => inherit_fold(db.spec_methodmap_data(p).items@, db.spec_methodmap_data(p).items_map.spec_entries()),
                None => (seq![], seq![]),
            };
            let (iv, es, ctor, dtor) = local_fold(db, id, loc, &*tree, mm.items@, inherited);
            &&& res.0.name@ == mm.name@
            &&& mm_items_view(res.0.items@) == iv
            &&& res.0.items_map.spec_entries() == es
            &&& res.0.last_inherited_item_idx == match parent {
                Some(_) => match max_index(inherited.1) {
                    Some(m) => Some(m as u32),
                    None => None,
                },
                None => None,
            }
            &&& res.0.inherits == parent
            &&& res.0.constructor == ctor
            &&& res.0.destructor == dtor
            &&& res.0.deprecated == mm.deprecated
            &&& match (mm.inherits, mm.nullable) {
                (Some(n), false) => res.0.extension matches Some(MethodmapExtension::Inherits(m)) && m@ == n@,
                (None, true) => res.0.extension matches Some(MethodmapExtension::Nullable),
                _ => res.0.extension is None,
            }
            &&& res.1@.map_values(|d: DefDiagnostic| def_diag_view(d)) == match (mm.inherits, r) {
                (Some(n), Some(Some(ValueNsView::MethodmapId(_)))) => seq![],
                (Some(n), Some(Some(_))) => seq![(mm.ast_id, n@, true)],
                (Some(n), _) => seq![(mm.ast_id, n@, false)],
                (None, _) => seq![],
            }
        }),
{
    let mut diags: Vec<DefDiagnostic> = Vec::new();
    let loc = db.lookup_methodmap(id);
    let item_tree = db.item_tree(loc.tree);
    let methodmap = &item_tree.methodmaps[loc.value];
    let mut items: Vec<MethodmapItemData> = Vec::new();
    let mut items_map = NameMap::new();
    // Compute inherits first, so that they get properly overwritten.
    let mut inherits_id: Option<MethodmapId> = None;
    let mut last_inherited_item_idx: Option<u32> = None;
    if let Some(inherits_name) = &methodmap.inherits {
        let resolver = db.global_resolver(loc.tree.file);
        match resolver.resolve_ident(inherits_name.as_str()) {
            Some(ValueNs::MethodmapId(inherits)) => {
                inherits_id = Some(inherits.value);
                let inherits_data = db.methodmap_data(inherits.value);
                inherit_items(&*inherits_data, &mut items, &mut items_map);
                last_inherited_item_idx = match max_index_of(&items_map) {
                    Some(m) => Some(index_u32(m)),
                    None => None,
                };
                proof {
                    lemma_inherit_fold_len(inherits_data.items@, inherits_data.items_map.spec_entries());
                }
            },
            Some(_) => {
                diags.push(
                    DefDiagnostic::UnresolvedInherit {
                        methodmap_ast_id: methodmap.ast_id,
                        inherit_name: inherits_name.clone(),
                        exists: true,
                    },
                );
            },
            None => {
                diags.push(
                    DefDiagnostic::UnresolvedInherit {
                        methodmap_ast_id: methodmap.ast_id,
                        inherit_name: inherits_name.clone(),
                        exists: false,
                    },
                );
            },
        }
    }
    let ghost init = (mm_items_view(items@), items_map.spec_entries());
    proof {
        let r = resolved_inherit(db, loc.tree.file, methodmap.inherits);
        let parent = parent_of(r);
        let inherited = match parent {
            Some(p) => inherit_fold(db.spec_methodmap_data(p).items@, db.spec_methodmap_data(p).items_map.spec_entries()),
            None => (seq![], seq![]),
        };
        if parent is None {
            assert(mm_items_view(items@) =~= Seq::<MethodmapItemView>::empty());
            assert(items_map.spec_entries() =~= Seq::<(Seq<char>, usize)>::empty());
        }
        assert(init == inherited);
        assert(inherits_id == parent);
    }
    assert(forall|k: int| 0 <= k < init.1.len() ==> (#[trigger] init.1[k]).1 < init.0.len());
    let mut constructor: Option<usize> = None;
    let mut destructor: Option<usize> = None;
    let mut j: usize = 0;
    assert(methodmap.items@.take(0) =~= Seq::<MethodmapItemId>::empty());
    while j < methodmap.items.len()
        invariant
            0 <= j <= methodmap.items.len(),
            methodmap_loc_valid(db, id),
            loc == db.spec_lookup_methodmap(id),
            item_tree == db.spec_item_tree(loc.tree),
            item_tree.wf(),
            *methodmap == item_tree.methodmaps@[loc.value as int],
            forall|k: int| 0 <= k < init.1.len() ==> (#[trigger] init.1[k]).1 < init.0.len(),
            (mm_items_view(items@), items_map.spec_entries(), constructor, destructor) == local_fold(
                db,
                id,
                loc,
                &*item_tree,
                methodmap.items@.take(j as int),
                init,
            ),
        decreases methodmap.items.len() - j,
    {
        let ghost t = methodmap.items@.take(j + 1);
        assert(t.drop_last() =~= methodmap.items@.take(j as int));
        assert(t.last() == methodmap.items@[j as int]);
        proof {
            lemma_local_fold_len(db, id, loc, &*item_tree, methodmap.items@.take(j as int), init);
        }
        let idx = items.len();
        assert(mm_items_view(items@).len() == items.len());
        match methodmap.items[j] {
            MethodmapItemId::Property(property_idx) => {
                let property = &item_tree.properties[property_idx];
                let property_id = db.intern_property(
                    ItemLoc { container: ItemContainerId::MethodmapId(id), tree: loc.tree, value: property_idx },
                );
                let range = property.getters_setters;
                assert(range.within(item_tree.functions.len() as nat));
                assert(accessors_named(db, id, loc.tree, range));
                let ghost acc = accessors(db, id, loc.tree, range);
                let mut getters_setters: Vec<PropertyItem> = Vec::new();
                let mut f = range.start;
                while f < range.end
                    invariant
                        range.start <= f <= range.end,
                        accessors_named(db, id, loc.tree, range),
                        acc == accessors(db, id, loc.tree, range),
                        getters_setters@ == acc.take(f - range.start),
                    decreases range.end - f,
                {
                    let fn_id = db.intern_function(ItemLoc { container: ItemContainerId::MethodmapId(id), tree: loc.tree, value: f });
                    let data = db.function_data(fn_id);
                    proof {
                        reveal_strlit("get");
                        reveal_strlit("set");
                        assert(accessor_fn(db, id, loc.tree, f as int) == fn_id);
                    }
                    let item = if crate::base_db::str_eq(data.name.as_str(), "get") {
                        PropertyItem::Getter(fn_id)
                    } else {
                        PropertyItem::Setter(fn_id)
                    };
                    assert(acc[f - range.start] == item);
                    getters_setters.push(item);
                    assert(acc.take(f + 1 - range.start) =~= acc.take(f - range.start).push(item));
                    f = f + 1;
                }
                assert(acc.take(range.end - range.start) =~= acc);
                let ghost before = items@;
                let data = PropertyData {
                    id: property_id,
                    name: property.name.clone(),
                    type_ref: property.type_ref.clone(),
                    getters_setters,
                    deprecated: property.deprecated,
                };
                items.push(MethodmapItemData::Property(data));
                assert(mm_items_view(items@) =~= mm_items_view(before).push(
                    MethodmapItemView::Property(property_id, acc, property.name@, property.type_ref@, property.deprecated),
                ));
                items_map.insert(property.name.clone(), idx);
            },
            MethodmapItemId::Method(method_idx) => {
                let method = &item_tree.functions[method_idx];
                let fn_id = db.intern_function(ItemLoc { container: ItemContainerId::MethodmapId(id), tree: loc.tree, value: method_idx });
                let item = match method.special {
                    Some(SpecialMethod::Constructor) => MethodmapItemData::Constructor(fn_id),
                    Some(SpecialMethod::Destructor) => MethodmapItemData::Destructor(fn_id),
                    None => if method.visibility.contains(RawVisibilityId::STATIC) {
                        MethodmapItemData::Static(fn_id)
                    } else {
                        MethodmapItemData::Method(fn_id)
                    },
                };
                let ghost before = items@;
                let ghost iv_item = mm_item_view(item);
                items.push(item);
                assert(mm_items_view(items@) =~= mm_items_view(before).push(iv_item));
                match method.special {
                    Some(SpecialMethod::Constructor) => constructor = Some(idx),
                    Some(SpecialMethod::Destructor) => destructor = Some(idx),
                    None => {},
                }
                items_map.insert(method.name.clone(), idx);
            },
        }
        j = j + 1;
    }
    assert(methodmap.items@.take(methodmap.items.len() as int) =~= methodmap.items@);
    proof {
        lemma_local_fold_len(db, id, loc, &*item_tree, methodmap.items@, init);
        assert(mm_items_view(items@).len() == items.len());
        let lf = local_fold(db, id, loc, &*item_tree, methodmap.items@, init);
        assert(lf.0 == mm_items_view(items@));
        assert(lf.1 == items_map.spec_entries());
        assert(lf.2 == constructor);
        assert(lf.3 == destructor);
        assert(forall|k: int| 0 <= k < lf.1.len() ==> (#[trigger] lf.1[k]).1 < lf.0.len());
    }
    let extension = MethodmapExtension::from(
        match &methodmap.inherits {
            Some(n) => Some(n.clone()),
            None => None,
        },
        methodmap.nullable,
    );
    let data = MethodmapData {
        name: methodmap.name.clone(),
        items,
        items_map,
        last_inherited_item_idx,
        extension,
        inherits: inherits_id,
        constructor,
        destructor,
        deprecated: methodmap.deprecated,
    };
    proof {
        assert(diags@.map_values(|d: DefDiagnostic| def_diag_view(d)) =~= match (methodmap.inherits, resolved_inherit(
            db,
            loc.tree.file,
            methodmap.inherits,
        )) {
            (Some(n), Some(Some(ValueNsView::MethodmapId(_)))) => seq![],
            (Some(n), Some(Some(_))) => seq![(methodmap.ast_id, n@, true)],
            (Some(n), _) => seq![(methodmap.ast_id, n@, false)],
            (None, _) => seq![],
        });
    }
    (Arc::new(data), diags)
}

/// Two property data are the same: same id, accessors, name, type and
/// deprecation.
pub open spec fn same_property(a: PropertyData, b: PropertyData) -> bool {
    &&& a.id == b.id
    &&& a.getters_setters@ == b.getters_setters@
    &&& a.name@ == b.name@
    &&& a.type_ref@ == b.type_ref@
    &&& a.deprecated == b.deprecated
}

impl PropertyData {
    /// A copy of this data.
    pub fn duplicate(&self) -> (res: PropertyData)
        ensures
            same_property(res, *self),
    {
        let mut getters_setters: Vec<PropertyItem> = Vec::new();
        let mut i: usize = 0;
        while i < self.getters_setters.len()
            invariant
                0 <= i <= self.getters_setters.len(),
                getters_setters@ == self.getters_setters@.take(i as int),
            decreases self.getters_setters.len() - i,
        {
            getters_setters.push(self.getters_setters[i]);
            assert(self.getters_setters@.take(i + 1) =~= self.getters_setters@.take(i as int).push(self.getters_setters@[i as int]));
            i = i + 1;
        }
        assert(self.getters_setters@.take(i as int) =~= self.getters_setters@);
        PropertyData {
            id: self.id,
            getters_setters,
            name: self.name.clone(),
            type_ref: self.type_ref.clone(),
            deprecated: self.deprecated,
        }
    }

    /// The data of the property `id`, as the data of its methodmap holds it.
    pub fn property_data_query<D: PropertyDatabase>(db: &D, id: PropertyId) -> (res: Arc<PropertyData>)
        requires
            db.spec_lookup_property(id).container is MethodmapId,
            ({
                let data = db.spec_methodmap_data(db.spec_lookup_property(id).container->MethodmapId_0);
                exists|k: int| 0 <= k < data.items_map.spec_entries().len()
                    && is_property_member(data.items@, #[trigger] data.items_map.spec_entries()[k].1, id)
            }),
        ensures
            ({
                let data = db.spec_methodmap_data(db.spec_lookup_property(id).container->MethodmapId_0);
                exists|k: int|
                    0 <= k < data.items_map.spec_entries().len()
                        && is_property_member(data.items@, #[trigger] data.items_map.spec_entries()[k].1, id)
                        && (forall|j: int| 0 <= j < k ==> !is_property_member(data.items@, #[trigger] data.items_map.spec_entries()[j].1, id))
                        && (data.items@[data.items_map.spec_entries()[k].1 as int] matches MethodmapItemData::Property(pd)
                        && same_property(*res, pd))
            }),
    {
        let methodmap_id = match db.lookup_property(id).container {
            ItemContainerId::MethodmapId(it) => it,
            _ => {
                assert(false);
                return Arc::new(PropertyData {
                    id,
                    getters_setters: Vec::new(),
                    name: Name::from_str(""),
                    type_ref: TypeRef::Int,
                    deprecated: false,
                });
            },
        };
        let data = db.methodmap_data(methodmap_id);
        let pd = data.property_from_id(id);
        match pd {
            Some(pd) => Arc::new(pd.duplicate()),
            None => {
                assert(false);
                Arc::new(PropertyData {
                    id,
                    getters_setters: Vec::new(),
                    name: Name::from_str(""),
                    type_ref: TypeRef::Int,
                    deprecated: false,
                })
            },
        }
    }
}

} // verus!
