//! The definitions that the nodes of a file, or of a container, declare: for
//! each kind of definition, a map from the node that declares it to the
//! definition.
use vstd::prelude::*;
use crate::ast_id::AstIdMap;
use crate::base_db::FileId;
use crate::data::{EnumStructData, EnumStructItemData, MethodmapData, MethodmapItemData, PropertyItem};
use crate::def_map::DefMap;
use crate::hir::{spec_returntype, TypeRef};
use crate::infer::FieldId;
use crate::ids::{
    EnumStructId, FileDefId, FuncenumId, FunctagId, FunctionId, ItemLoc, MethodmapId, PropertyId, StructId, TypedefId,
    TypesetId,
};
use crate::item_data::{FuncenumData, ItemDataDatabase, TypesetData};
use crate::item_tree::ItemTree;
use crate::syntax::{field_index_from, FieldName, NodeKind, NodePtr, SyntaxNode};

verus! {

/// A definition that a node declares.
#[derive(Debug, Clone, Copy, PartialEq, Eq, Structural, Hash)]
pub enum ChildDef {
    Def(FileDefId),
    Property(PropertyId),
    Field(FieldId),
}

/// The kinds of definitions by which the map is keyed.
#[derive(Debug, Clone, Copy, PartialEq, Eq, Structural, Hash)]
pub enum ChildKey {
    Function,
    Macro,
    Global,
    EnumStruct,
    Methodmap,
    Property,
    Enum,
    EnumVariant,
    Typedef,
    Typeset,
    Functag,
    Funcenum,
    Field,
    Struct,
}

/// The kind of the definition `d`.
pub open spec fn key_of(d: ChildDef) -> ChildKey {
    match d {
        ChildDef::Def(FileDefId::FunctionId(_)) => ChildKey::Function,
        ChildDef::Def(FileDefId::MacroId(_)) => ChildKey::Macro,
        ChildDef::Def(FileDefId::GlobalId(_)) => ChildKey::Global,
        ChildDef::Def(FileDefId::EnumStructId(_)) => ChildKey::EnumStruct,
        ChildDef::Def(FileDefId::MethodmapId(_)) => ChildKey::Methodmap,
        ChildDef::Def(FileDefId::EnumId(_)) => ChildKey::Enum,
        ChildDef::Def(FileDefId::VariantId(_)) => ChildKey::EnumVariant,
        ChildDef::Def(FileDefId::TypedefId(_)) => ChildKey::Typedef,
        ChildDef::Def(FileDefId::TypesetId(_)) => ChildKey::Typeset,
        ChildDef::Def(FileDefId::FunctagId(_)) => ChildKey::Functag,
        ChildDef::Def(FileDefId::FuncenumId(_)) => ChildKey::Funcenum,
        ChildDef::Def(FileDefId::StructId(_)) => ChildKey::Struct,
        ChildDef::Property(_) => ChildKey::Property,
        ChildDef::Field(_) => ChildKey::Field,
    }
}

/// The kind of the definition `d`.
fn child_key(d: ChildDef) -> (res: ChildKey)
    ensures
        res == key_of(d),
{
    match d {
        ChildDef::Def(FileDefId::FunctionId(_)) => ChildKey::Function,
        ChildDef::Def(FileDefId::MacroId(_)) => ChildKey::Macro,
        ChildDef::Def(FileDefId::GlobalId(_)) => ChildKey::Global,
        ChildDef::Def(FileDefId::EnumStructId(_)) => ChildKey::EnumStruct,
        ChildDef::Def(FileDefId::MethodmapId(_)) => ChildKey::Methodmap,
        ChildDef::Def(FileDefId::EnumId(_)) => ChildKey::Enum,
        ChildDef::Def(FileDefId::VariantId(_)) => ChildKey::EnumVariant,
        ChildDef::Def(FileDefId::TypedefId(_)) => ChildKey::Typedef,
        ChildDef::Def(FileDefId::TypesetId(_)) => ChildKey::Typeset,
        ChildDef::Def(FileDefId::FunctagId(_)) => ChildKey::Functag,
        ChildDef::Def(FileDefId::FuncenumId(_)) => ChildKey::Funcenum,
        ChildDef::Def(FileDefId::StructId(_)) => ChildKey::Struct,
        ChildDef::Property(_) => ChildKey::Property,
        ChildDef::Field(_) => ChildKey::Field,
    }
}

/// The map after inserting each node and definition of `es`, in order: a
/// later insertion under the same kind and node replaces an earlier one.
pub open spec fn inserts(m: Map<(ChildKey, NodePtr), ChildDef>, es: Seq<(NodePtr, ChildDef)>) -> Map<(ChildKey, NodePtr), ChildDef>
    decreases es.len(),
{
    if es.len() == 0 {
        m
    } else {
        inserts(m, es.drop_last()).insert((key_of(es.last().1), es.last().0), es.last().1)
    }
}

/// A node's recorded definition is the one inserted last under its kind:
/// after the insertions `es`, each entry is found under its kind and node,
/// unless a later entry has the same kind and node.
pub proof fn law_inserts_find_each(m: Map<(ChildKey, NodePtr), ChildDef>, es: Seq<(NodePtr, ChildDef)>, k: int)
    requires
        0 <= k < es.len(),
        forall|j: int| k < j < es.len() ==> (key_of((#[trigger] es[j]).1), es[j].0) != (key_of(es[k].1), es[k].0),
    ensures
        inserts(m, es).contains_key((key_of(es[k].1), es[k].0)),
        inserts(m, es)[(key_of(es[k].1), es[k].0)] == es[k].1,
    decreases es.len(),
{
    if k < es.len() - 1 {
        assert forall|j: int| k < j < es.drop_last().len() implies (key_of((#[trigger] es.drop_last()[j]).1), es.drop_last()[j].0)
            != (key_of(es.drop_last()[k].1), es.drop_last()[k].0) by {
            assert(es.drop_last()[j] == es[j]);
        }
        law_inserts_find_each(m, es.drop_last(), k);
        assert(es.drop_last()[k] == es[k]);
        assert((key_of(es.last().1), es.last().0) != (key_of(es[k].1), es[k].0));
    }
}

/// For each kind of definition, the definition that each node declares.
#[derive(Debug)]
pub struct DynMap {
    entries: Vec<(NodePtr, ChildDef)>,
}

impl View for DynMap {
    type V = Map<(ChildKey, NodePtr), ChildDef>;

    closed spec fn view(&self) -> Map<(ChildKey, NodePtr), ChildDef> {
        inserts(Map::empty(), self.entries@)
    }
}

proof fn lemma_inserts_push(m: Map<(ChildKey, NodePtr), ChildDef>, es: Seq<(NodePtr, ChildDef)>, e: (NodePtr, ChildDef))
    ensures
        inserts(m, es.push(e)) == inserts(m, es).insert((key_of(e.1), e.0), e.1),
{
    assert(es.push(e).drop_last() =~= es);
}

impl DynMap {
    pub fn new() -> (res: Self)
        ensures
            res@ == Map::<(ChildKey, NodePtr), ChildDef>::empty(),
    {
        DynMap { entries: Vec::new() }
    }

    /// Records that `ptr` declares `def`.
    pub fn insert(&mut self, ptr: NodePtr, def: ChildDef)
        ensures
            final(self)@ == old(self)@.insert((key_of(def), ptr), def),
    {
        proof {
            lemma_inserts_push(Map::empty(), self.entries@, (ptr, def));
        }
        self.entries.push((ptr, def));
    }

    /// The definition of kind `key` that `ptr` declares.
    pub fn get(&self, key: ChildKey, ptr: NodePtr) -> (res: Option<ChildDef>)
        ensures
            res == if self@.contains_key((key, ptr)) {
                Some(self@[(key, ptr)])
            } else {
                None
            },
    {
        let ghost es = self.entries@;
        let mut i: usize = self.entries.len();
        assert(es.take(i as int) =~= es);
        while i > 0
            invariant
                0 <= i <= es.len(),
                es == self.entries@,
                self@.contains_key((key, ptr)) == inserts(Map::empty(), es.take(i as int)).contains_key((key, ptr)),
                self@.contains_key((key, ptr)) ==> self@[(key, ptr)] == inserts(Map::empty(), es.take(i as int))[(key, ptr)],
            decreases i,
        {
            let ghost t = es.take(i as int);
            assert(t.drop_last() =~= es.take(i - 1));
            assert(t.last() == es[i - 1]);
            let (p, d) = self.entries[i - 1];
            if p == ptr && child_key(d) == key {
                return Some(d);
            }
            i = i - 1;
        }
        assert(es.take(0) =~= Seq::<(NodePtr, ChildDef)>::empty());
        None
    }
}

/// The index, in its arena of `tree`, of the item that `loc` locates.
pub open spec fn loc_index(loc: ItemLoc) -> int {
    loc.value as int
}

/// The id, among the nodes of its file, of the item that declares `def`, by
/// its location in `tree`; `None` when the location is outside the tree.
pub open spec fn def_ast_id<D: ItemDataDatabase>(db: &D, tree: &ItemTree, def: FileDefId) -> Option<u32> {
    match def {
        FileDefId::FunctionId(id) => {
            let i = loc_index(db.spec_lookup_function(id));
            if i < tree.functions.len() { Some(tree.functions@[i].ast_id) } else { None }
        },
        FileDefId::MacroId(id) => {
            let i = loc_index(db.spec_lookup_macro(id));
            if i < tree.macros.len() { Some(tree.macros@[i].ast_id) } else { None }
        },
        FileDefId::GlobalId(id) => {
            let i = db.spec_lookup_global(id).value as int;
            if i < tree.variables.len() { Some(tree.variables@[i].ast_id) } else { None }
        },
        FileDefId::EnumStructId(id) => {
            let i = loc_index(db.spec_lookup_enum_struct(id));
            if i < tree.enum_structs.len() { Some(tree.enum_structs@[i].ast_id) } else { None }
        },
        FileDefId::MethodmapId(id) => {
            let i = loc_index(db.spec_lookup_methodmap(id));
            if i < tree.methodmaps.len() { Some(tree.methodmaps@[i].ast_id) } else { None }
        },
        FileDefId::EnumId(id) => {
            let i = loc_index(db.spec_lookup_enum(id));
            if i < tree.enums.len() { Some(tree.enums@[i].ast_id) } else { None }
        },
        FileDefId::VariantId(id) => {
            let i = loc_index(db.spec_lookup_variant(id));
            if i < tree.variants.len() { Some(tree.variants@[i].ast_id) } else { None }
        },
        FileDefId::TypedefId(id) => {
            let i = loc_index(db.spec_lookup_typedef(id));
            if i < tree.typedefs.len() { Some(tree.typedefs@[i].ast_id) } else { None }
        },
        FileDefId::TypesetId(id) => {
            let i = loc_index(db.spec_lookup_typeset(id));
            if i < tree.typesets.len() { Some(tree.typesets@[i].ast_id) } else { None }
        },
        FileDefId::FunctagId(id) => {
            let i = loc_index(db.spec_lookup_functag(id));
            if i < tree.functags.len() { Some(tree.functags@[i].ast_id) } else { None }
        },
        FileDefId::FuncenumId(id) => {
            let i = loc_index(db.spec_lookup_funcenum(id));
            if i < tree.funcenums.len() { Some(tree.funcenums@[i].ast_id) } else { None }
        },
        FileDefId::StructId(id) => {
            let i = loc_index(db.spec_lookup_struct(id));
            if i < tree.structs.len() { Some(tree.structs@[i].ast_id) } else { None }
        },
    }
}

/// The item of `def` lies in `tree`, and its id names a node of `arena`.
pub open spec fn def_in_tree<D: ItemDataDatabase>(db: &D, tree: &ItemTree, arena: Seq<NodePtr>, def: FileDefId) -> bool {
    def_ast_id(db, tree, def) matches Some(a) && a < arena.len()
}

/// The node that declares `def`, with `def`.
pub open spec fn def_entry<D: ItemDataDatabase>(db: &D, tree: &ItemTree, arena: Seq<NodePtr>, def: FileDefId) -> (NodePtr, ChildDef) {
    (arena[def_ast_id(db, tree, def)->Some_0 as int], ChildDef::Def(def))
}

/// The entries of the definitions `defs`, in order.
pub open spec fn def_entries<D: ItemDataDatabase>(db: &D, tree: &ItemTree, arena: Seq<NodePtr>, defs: Seq<FileDefId>) -> Seq<(NodePtr, ChildDef)> {
    Seq::new(defs.len(), |k: int| def_entry(db, tree, arena, defs[k]))
}

/// The id of the item of `def` in `tree`.
fn def_item_ast_id<D: ItemDataDatabase>(db: &D, tree: &ItemTree, def: FileDefId) -> (res: u32)
    requires
        def_ast_id(db, tree, def) is Some,
    ensures
        def_ast_id(db, tree, def) == Some(res),
{
    match def {
        FileDefId::FunctionId(id) => tree.functions[db.lookup_function(id).value].ast_id,
        FileDefId::MacroId(id) => tree.macros[db.lookup_macro(id).value].ast_id,
        FileDefId::GlobalId(id) => tree.variables[db.lookup_global(id).value].ast_id,
        FileDefId::EnumStructId(id) => tree.enum_structs[db.lookup_enum_struct(id).value].ast_id,
        FileDefId::MethodmapId(id) => tree.methodmaps[db.lookup_methodmap(id).value].ast_id,
        FileDefId::EnumId(id) => tree.enums[db.lookup_enum(id).value].ast_id,
        FileDefId::VariantId(id) => tree.variants[db.lookup_variant(id).value].ast_id,
        FileDefId::TypedefId(id) => tree.typedefs[db.lookup_typedef(id).value].ast_id,
        FileDefId::TypesetId(id) => tree.typesets[db.lookup_typeset(id).value].ast_id,
        FileDefId::FunctagId(id) => tree.functags[db.lookup_functag(id).value].ast_id,
        FileDefId::FuncenumId(id) => tree.funcenums[db.lookup_funcenum(id).value].ast_id,
        FileDefId::StructId(id) => tree.structs[db.lookup_struct(id).value].ast_id,
    }
}

/// Records the node of each definition of `defs`, in order.
fn insert_defs<D: ItemDataDatabase>(db: &D, defs: &[FileDefId], tree: &ItemTree, ast_id_map: &AstIdMap, map: &mut DynMap)
    requires
        forall|k: int| 0 <= k < defs@.len() ==> def_in_tree(db, tree, ast_id_map.arena@, #[trigger] defs@[k]),
    ensures
        final(map)@ == inserts(old(map)@, def_entries(db, tree, ast_id_map.arena@, defs@)),
{
    let ghost es = def_entries(db, tree, ast_id_map.arena@, defs@);
    let mut i: usize = 0;
    proof {
        assert(es.take(0) =~= Seq::<(NodePtr, ChildDef)>::empty());
    }
    while i < defs.len()
        invariant
            0 <= i <= defs@.len(),
            es == def_entries(db, tree, ast_id_map.arena@, defs@),
            forall|k: int| 0 <= k < defs@.len() ==> def_in_tree(db, tree, ast_id_map.arena@, #[trigger] defs@[k]),
            map@ == inserts(old(map)@, es.take(i as int)),
        decreases defs@.len() - i,
    {
        let def = defs[i];
        assert(def_in_tree(db, tree, ast_id_map.arena@, defs@[i as int]));
        let ast_id = def_item_ast_id(db, tree, def);
        let ptr = ast_id_map.get_raw(ast_id);
        map.insert(ptr, ChildDef::Def(def));
        proof {
            assert(es.take(i + 1) =~= es.take(i as int).push(es[i as int]));
            lemma_inserts_push(old(map)@, es.take(i as int), es[i as int]);
        }
        i = i + 1;
    }
    assert(es.take(i as int) =~= es);
}

impl FileId {
    /// Records the node of each declaration of the file: `def_map`,
    /// `item_tree` and `ast_id_map` are the file's definitions, item tree and
    /// node ids.
    pub fn child_by_source_to<D: ItemDataDatabase>(
        &self,
        db: &D,
        def_map: &DefMap,
        item_tree: &ItemTree,
        ast_id_map: &AstIdMap,
        map: &mut DynMap,
    )
        requires
            forall|k: int| 0 <= k < def_map.spec_declarations().len()
                ==> def_in_tree(db, item_tree, ast_id_map.arena@, #[trigger] def_map.spec_declarations()[k]),
        ensures
            final(map)@ == inserts(old(map)@, def_entries(db, item_tree, ast_id_map.arena@, def_map.spec_declarations())),
    {
        insert_defs(db, def_map.declarations(), item_tree, ast_id_map, map);
    }

    /// The node of each declaration of the file.
    pub fn child_by_source<D: ItemDataDatabase>(&self, db: &D, def_map: &DefMap, item_tree: &ItemTree, ast_id_map: &AstIdMap) -> (res: DynMap)
        requires
            forall|k: int| 0 <= k < def_map.spec_declarations().len()
                ==> def_in_tree(db, item_tree, ast_id_map.arena@, #[trigger] def_map.spec_declarations()[k]),
        ensures
            res@ == inserts(Map::empty(), def_entries(db, item_tree, ast_id_map.arena@, def_map.spec_declarations())),
    {
        let mut map = DynMap::new();
        self.child_by_source_to(db, def_map, item_tree, ast_id_map, &mut map);
        map
    }
}

impl TypesetId {
    /// Records the node of each typedef of the typeset, whose data is `data`.
    pub fn child_by_source_to<D: ItemDataDatabase>(
        &self,
        db: &D,
        data: &TypesetData,
        item_tree: &ItemTree,
        ast_id_map: &AstIdMap,
        map: &mut DynMap,
    )
        requires
            forall|k: int| 0 <= k < data.typedefs.len()
                ==> def_in_tree(db, item_tree, ast_id_map.arena@, FileDefId::TypedefId(#[trigger] data.typedefs@[k])),
        ensures
            final(map)@ == inserts(old(map)@, def_entries(db, item_tree, ast_id_map.arena@, data.typedefs@.map_values(
                |t: TypedefId| FileDefId::TypedefId(t),
            ))),
    {
        let mut defs: Vec<FileDefId> = Vec::new();
        let mut i: usize = 0;
        while i < data.typedefs.len()
            invariant
                0 <= i <= data.typedefs.len(),
                defs@ =~= data.typedefs@.take(i as int).map_values(|t: TypedefId| FileDefId::TypedefId(t)),
            decreases data.typedefs.len() - i,
        {
            defs.push(FileDefId::TypedefId(data.typedefs[i]));
            i = i + 1;
        }
        assert(data.typedefs@.take(i as int) =~= data.typedefs@);
        insert_defs(db, defs.as_slice(), item_tree, ast_id_map, map);
    }

    /// The node of each typedef among the children of `node`, the typeset's
    /// source, that declare a return type, in order.
    pub fn child_source(&self, node: &SyntaxNode) -> (res: Vec<NodePtr>)
        ensures
            res@ == typed_children(node.children@, FieldName::ReturnType, false),
    {
        let mut res: Vec<NodePtr> = Vec::new();
        let mut i: usize = 0;
        while i < node.children.len()
            invariant
                0 <= i <= node.children.len(),
                res@ == typed_children(node.children@.take(i as int), FieldName::ReturnType, false),
            decreases node.children.len() - i,
        {
            let child = &node.children[i].1;
            assert(node.children@.take(i + 1).drop_last() =~= node.children@.take(i as int));
            if child.kind == NodeKind::TypedefExpression {
                if TypeRef::from_returntype_node(child, FieldName::ReturnType).is_some() {
                    res.push(NodePtr::from_node(child));
                }
            }
            i = i + 1;
        }
        assert(node.children@.take(i as int) =~= node.children@);
        res
    }
}

/// The nodes of the typedef expressions among `children`: those that declare
/// a type in `field`, or all of them when `all`.
pub open spec fn typed_children(children: Seq<(Option<FieldName>, SyntaxNode)>, field: FieldName, all: bool) -> Seq<NodePtr>
    decreases children.len(),
{
    if children.len() == 0 {
        seq![]
    } else {
        let c = children.last().1;
        let prev = typed_children(children.drop_last(), field, all);
        if c.kind == NodeKind::TypedefExpression && (all || spec_returntype(c, field) is Some) {
            prev.push(NodePtr::spec_from(&c))
        } else {
            prev
        }
    }
}

impl FuncenumId {
    /// Records the node of each functag of the funcenum, whose data is `data`.
    pub fn child_by_source_to<D: ItemDataDatabase>(
        &self,
        db: &D,
        data: &FuncenumData,
        item_tree: &ItemTree,
        ast_id_map: &AstIdMap,
        map: &mut DynMap,
    )
        requires
            forall|k: int| 0 <= k < data.functags.len()
                ==> def_in_tree(db, item_tree, ast_id_map.arena@, FileDefId::FunctagId(#[trigger] data.functags@[k])),
        ensures
            final(map)@ == inserts(old(map)@, def_entries(db, item_tree, ast_id_map.arena@, data.functags@.map_values(
                |t: FunctagId| FileDefId::FunctagId(t),
            ))),
    {
        let mut defs: Vec<FileDefId> = Vec::new();
        let mut i: usize = 0;
        while i < data.functags.len()
            invariant
                0 <= i <= data.functags.len(),
                defs@ =~= data.functags@.take(i as int).map_values(|t: FunctagId| FileDefId::FunctagId(t)),
            decreases data.functags.len() - i,
        {
            defs.push(FileDefId::FunctagId(data.functags[i]));
            i = i + 1;
        }
        assert(data.functags@.take(i as int) =~= data.functags@);
        insert_defs(db, defs.as_slice(), item_tree, ast_id_map, map);
    }

    /// The node of each typedef expression among the children of `node`, the
    /// funcenum's source, in order.
    pub fn child_source(&self, node: &SyntaxNode) -> (res: Vec<NodePtr>)
        ensures
            res@ == typed_children(node.children@, FieldName::ReturnType, true),
    {
        let mut res: Vec<NodePtr> = Vec::new();
        let mut i: usize = 0;
        while i < node.children.len()
            invariant
                0 <= i <= node.children.len(),
                res@ == typed_children(node.children@.take(i as int), FieldName::ReturnType, true),
            decreases node.children.len() - i,
        {
            let child = &node.children[i].1;
            assert(node.children@.take(i + 1).drop_last() =~= node.children@.take(i as int));
            if child.kind == NodeKind::TypedefExpression {
                res.push(NodePtr::from_node(child));
            }
            i = i + 1;
        }
        assert(node.children@.take(i as int) =~= node.children@);
        res
    }
}

proof fn lemma_inserts_concat(m: Map<(ChildKey, NodePtr), ChildDef>, a: Seq<(NodePtr, ChildDef)>, b: Seq<(NodePtr, ChildDef)>)
    ensures
        inserts(m, a + b) == inserts(inserts(m, a), b),
    decreases b.len(),
{
    if b.len() == 0 {
        assert(a + b =~= a);
    } else {
        lemma_inserts_concat(m, a, b.drop_last());
        assert((a + b).drop_last() =~= a + b.drop_last());
        assert((a + b).last() == b.last());
    }
}

/// The locations that properties were interned from.
pub trait PropertyDatabase: ItemDataDatabase {
    spec fn spec_lookup_property(&self, id: PropertyId) -> ItemLoc;

    fn lookup_property(&self, id: PropertyId) -> (res: ItemLoc)
        ensures
            res == self.spec_lookup_property(id),
    ;
}

/// The function of a getter or setter, as a definition.
pub open spec fn accessor_def(g: PropertyItem) -> FileDefId {
    match g {
        PropertyItem::Getter(id) => FileDefId::FunctionId(id),
        PropertyItem::Setter(id) => FileDefId::FunctionId(id),
    }
}

/// The item of the property `id` lies in `tree`, and its id names a node of `arena`.
pub open spec fn property_in_tree<D: PropertyDatabase>(db: &D, tree: &ItemTree, arena: Seq<NodePtr>, id: PropertyId) -> bool {
    let i = loc_index(db.spec_lookup_property(id));
    i < tree.properties.len() && tree.properties@[i].ast_id < arena.len()
}

/// The entries of a member of a methodmap: for a property, those of its
/// getters and setters, then its own; for a method, its own.
pub open spec fn methodmap_item_entries<D: PropertyDatabase>(db: &D, tree: &ItemTree, arena: Seq<NodePtr>, item: MethodmapItemData) -> Seq<(NodePtr, ChildDef)> {
    match item {
        MethodmapItemData::Property(pd) => def_entries(db, tree, arena, pd.getters_setters@.map_values(|g: PropertyItem| accessor_def(g)))
            .push((arena[tree.properties@[loc_index(db.spec_lookup_property(pd.id))].ast_id as int], ChildDef::Property(pd.id))),
        MethodmapItemData::Method(id) => seq![def_entry(db, tree, arena, FileDefId::FunctionId(id))],
        MethodmapItemData::Static(id) => seq![def_entry(db, tree, arena, FileDefId::FunctionId(id))],
        MethodmapItemData::Constructor(id) => seq![def_entry(db, tree, arena, FileDefId::FunctionId(id))],
        MethodmapItemData::Destructor(id) => seq![def_entry(db, tree, arena, FileDefId::FunctionId(id))],
    }
}

/// The entries of the members `items`, in order.
pub open spec fn methodmap_entries<D: PropertyDatabase>(db: &D, tree: &ItemTree, arena: Seq<NodePtr>, items: Seq<MethodmapItemData>) -> Seq<(NodePtr, ChildDef)>
    decreases items.len(),
{
    if items.len() == 0 {
        seq![]
    } else {
        methodmap_entries(db, tree, arena, items.drop_last()) + methodmap_item_entries(db, tree, arena, items.last())
    }
}

/// The items of the member `item` lie in `tree`.
pub open spec fn methodmap_item_in_tree<D: PropertyDatabase>(db: &D, tree: &ItemTree, arena: Seq<NodePtr>, item: MethodmapItemData) -> bool {
    match item {
        MethodmapItemData::Property(pd) => property_in_tree(db, tree, arena, pd.id) && forall|k: int| 0 <= k < pd.getters_setters.len()
            ==> def_in_tree(db, tree, arena, accessor_def(#[trigger] pd.getters_setters@[k])),
        MethodmapItemData::Method(id) => def_in_tree(db, tree, arena, FileDefId::FunctionId(id)),
        MethodmapItemData::Static(id) => def_in_tree(db, tree, arena, FileDefId::FunctionId(id)),
        MethodmapItemData::Constructor(id) => def_in_tree(db, tree, arena, FileDefId::FunctionId(id)),
        MethodmapItemData::Destructor(id) => def_in_tree(db, tree, arena, FileDefId::FunctionId(id)),
    }
}

impl MethodmapId {
    /// Records the node of each member of the methodmap, whose data is
    /// `data`: each property with its getters and setters, and each method.
    pub fn child_by_source_to<D: PropertyDatabase>(
        &self,
        db: &D,
        data: &MethodmapData,
        item_tree: &ItemTree,
        ast_id_map: &AstIdMap,
        map: &mut DynMap,
    )
        requires
            forall|k: int| 0 <= k < data.items.len() ==> methodmap_item_in_tree(db, item_tree, ast_id_map.arena@, #[trigger] data.items@[k]),
        ensures
            final(map)@ == inserts(old(map)@, methodmap_entries(db, item_tree, ast_id_map.arena@, data.items@)),
    {
        let ghost arena = ast_id_map.arena@;
        let mut i: usize = 0;
        assert(data.items@.take(0) =~= Seq::<MethodmapItemData>::empty());
        while i < data.items.len()
            invariant
                0 <= i <= data.items.len(),
                arena == ast_id_map.arena@,
                forall|k: int| 0 <= k < data.items.len() ==> methodmap_item_in_tree(db, item_tree, arena, #[trigger] data.items@[k]),
                map@ == inserts(old(map)@, methodmap_entries(db, item_tree, arena, data.items@.take(i as int))),
            decreases data.items.len() - i,
        {
            let ghost before = map@;
            let ghost item = data.items@[i as int];
            assert(methodmap_item_in_tree(db, item_tree, arena, item));
            proof {
                assert(data.items@.take(i + 1).drop_last() =~= data.items@.take(i as int));
                lemma_inserts_concat(
                    old(map)@,
                    methodmap_entries(db, item_tree, arena, data.items@.take(i as int)),
                    methodmap_item_entries(db, item_tree, arena, item),
                );
            }
            match &data.items[i] {
                MethodmapItemData::Property(pd) => {
                    let mut defs: Vec<FileDefId> = Vec::new();
                    let mut j: usize = 0;
                    while j < pd.getters_setters.len()
                        invariant
                            0 <= j <= pd.getters_setters.len(),
                            defs@ =~= pd.getters_setters@.take(j as int).map_values(|g: PropertyItem| accessor_def(g)),
                        decreases pd.getters_setters.len() - j,
                    {
                        defs.push(FileDefId::FunctionId(pd.getters_setters[j].function_id()));
                        j = j + 1;
                    }
                    assert(pd.getters_setters@.take(j as int) =~= pd.getters_setters@);
                    insert_defs(db, defs.as_slice(), item_tree, ast_id_map, map);
                    let loc = db.lookup_property(pd.id);
                    let ptr = ast_id_map.get_raw(item_tree.properties[loc.value].ast_id);
                    map.insert(ptr, ChildDef::Property(pd.id));
                    proof {
                        let g = def_entries(db, item_tree, arena, pd.getters_setters@.map_values(|g: PropertyItem| accessor_def(g)));
                        lemma_inserts_push(before, g, (ptr, ChildDef::Property(pd.id)));
                    }
                },
                MethodmapItemData::Method(id) | MethodmapItemData::Static(id) | MethodmapItemData::Constructor(id) | MethodmapItemData::Destructor(id) => {
                    let def = FileDefId::FunctionId(*id);
                    let ast_id = def_item_ast_id(db, item_tree, def);
                    let ptr = ast_id_map.get_raw(ast_id);
                    map.insert(ptr, ChildDef::Def(def));
                    proof {
                        lemma_inserts_push(before, seq![], (ptr, ChildDef::Def(def)));
                        assert(seq![].push((ptr, ChildDef::Def(def))) =~= seq![def_entry(db, item_tree, arena, def)]);
                    }
                },
            }
            i = i + 1;
        }
        assert(data.items@.take(i as int) =~= data.items@);
    }
}

/// The number of fields among the members `items`.
pub open spec fn count_fields(items: Seq<EnumStructItemData>) -> nat
    decreases items.len(),
{
    if items.len() == 0 {
        0
    } else {
        count_fields(items.drop_last()) + if items.last() is Field { 1nat } else { 0nat }
    }
}

/// The entries of the members `items` of the enum struct `parent`: a field
/// gets the node of the field with its index among the fields, and the
/// member's index as its id; a method, its own node.
pub open spec fn enum_struct_entries<D: ItemDataDatabase>(
    parent: EnumStructId,
    db: &D,
    tree: &ItemTree,
    arena: Seq<NodePtr>,
    items: Seq<EnumStructItemData>,
    fields: Seq<NodePtr>,
) -> Seq<(NodePtr, ChildDef)>
    decreases items.len(),
{
    if items.len() == 0 {
        seq![]
    } else {
        let prev = items.drop_last();
        enum_struct_entries(parent, db, tree, arena, prev, fields) + match items.last() {
            EnumStructItemData::Field(_) => seq![(fields[count_fields(prev) as int], ChildDef::Field(FieldId { parent, local_id: prev.len() as usize }))],
            EnumStructItemData::Method(id) => seq![def_entry(db, tree, arena, FileDefId::FunctionId(id))],
        }
    }
}

/// The entries of the field nodes `fields`, each with its index as its id.
pub open spec fn field_entries(parent: EnumStructId, fields: Seq<NodePtr>) -> Seq<(NodePtr, ChildDef)> {
    Seq::new(fields.len(), |j: int| (fields[j], ChildDef::Field(FieldId { parent, local_id: j as usize })))
}

/// The nodes of the fields among `children`.
pub open spec fn field_children(children: Seq<(Option<FieldName>, SyntaxNode)>) -> Seq<NodePtr>
    decreases children.len(),
{
    if children.len() == 0 {
        seq![]
    } else {
        let c = children.last().1;
        let prev = field_children(children.drop_last());
        if c.kind == NodeKind::EnumStructField {
            prev.push(NodePtr::spec_from(&c))
        } else {
            prev
        }
    }
}

impl EnumStructId {
    /// Records the node of each member of the enum struct, whose data is
    /// `data` and whose field nodes, in order, are `fields`; then records each
    /// field node again with its index among the fields as its id.
    pub fn child_by_source_to<D: ItemDataDatabase>(
        &self,
        db: &D,
        data: &EnumStructData,
        fields: &Vec<NodePtr>,
        item_tree: &ItemTree,
        ast_id_map: &AstIdMap,
        map: &mut DynMap,
    )
        requires
            count_fields(data.items@) <= fields.len(),
            forall|k: int| 0 <= k < data.items.len() ==> (#[trigger] data.items@[k] matches EnumStructItemData::Method(id)
                ==> def_in_tree(db, item_tree, ast_id_map.arena@, FileDefId::FunctionId(id))),
        ensures
            final(map)@ == inserts(
                old(map)@,
                enum_struct_entries(*self, db, item_tree, ast_id_map.arena@, data.items@, fields@) + field_entries(*self, fields@),
            ),
    {
        let ghost arena = ast_id_map.arena@;
        let ghost items = data.items@;
        let mut field_idx: usize = 0;
        let mut i: usize = 0;
        assert(items.take(0) =~= Seq::<EnumStructItemData>::empty());
        while i < data.items.len()
            invariant
                0 <= i <= data.items.len(),
                arena == ast_id_map.arena@,
                items == data.items@,
                count_fields(items) <= fields.len(),
                forall|k: int| 0 <= k < data.items.len() ==> (#[trigger] data.items@[k] matches EnumStructItemData::Method(id)
                    ==> def_in_tree(db, item_tree, arena, FileDefId::FunctionId(id))),
                field_idx == count_fields(items.take(i as int)),
                map@ == inserts(old(map)@, enum_struct_entries(*self, db, item_tree, arena, items.take(i as int), fields@)),
            decreases data.items.len() - i,
        {
            let ghost before = map@;
            let ghost prev = items.take(i as int);
            proof {
                assert(items.take(i + 1).drop_last() =~= prev);
                assert(items.take(i + 1).last() == items[i as int]);
                lemma_count_fields_prefix(items, i + 1);
            }
            match &data.items[i] {
                EnumStructItemData::Field(_) => {
                    let ptr = fields[field_idx];
                    let def = ChildDef::Field(FieldId { parent: *self, local_id: i });
                    map.insert(ptr, def);
                    proof {
                        lemma_inserts_push(before, seq![], (ptr, def));
                        lemma_inserts_concat(
                            old(map)@,
                            enum_struct_entries(*self, db, item_tree, arena, prev, fields@),
                            seq![(ptr, def)],
                        );
                        assert(seq![].push((ptr, def)) =~= seq![(ptr, def)]);
                    }
                    field_idx = field_idx + 1;
                },
                EnumStructItemData::Method(id) => {
                    assert(data.items@[i as int] matches EnumStructItemData::Method(id));
                    let def = FileDefId::FunctionId(*id);
                    let ast_id = def_item_ast_id(db, item_tree, def);
                    let ptr = ast_id_map.get_raw(ast_id);
                    map.insert(ptr, ChildDef::Def(def));
                    proof {
                        lemma_inserts_push(before, seq![], (ptr, ChildDef::Def(def)));
                        lemma_inserts_concat(
                            old(map)@,
                            enum_struct_entries(*self, db, item_tree, arena, prev, fields@),
                            seq![(ptr, ChildDef::Def(def))],
                        );
                        assert(seq![].push((ptr, ChildDef::Def(def))) =~= seq![(ptr, ChildDef::Def(def))]);
                    }
                },
            }
            i = i + 1;
        }
        assert(items.take(i as int) =~= items);
        let ghost mid = map@;
        let ghost fe = field_entries(*self, fields@);
        let mut j: usize = 0;
        assert(fe.take(0) =~= Seq::<(NodePtr, ChildDef)>::empty());
        while j < fields.len()
            invariant
                0 <= j <= fields.len(),
                fe == field_entries(*self, fields@),
                map@ == inserts(mid, fe.take(j as int)),
            decreases fields.len() - j,
        {
            let def = ChildDef::Field(FieldId { parent: *self, local_id: j });
            map.insert(fields[j], def);
            proof {
                assert(fe.take(j + 1) =~= fe.take(j as int).push(fe[j as int]));
                lemma_inserts_push(mid, fe.take(j as int), fe[j as int]);
            }
            j = j + 1;
        }
        proof {
            assert(fe.take(j as int) =~= fe);
            lemma_inserts_concat(old(map)@, enum_struct_entries(*self, db, item_tree, arena, items, fields@), fe);
        }
    }

    /// The node of each field among the children of `node`, the enum
    /// struct's source, in order.
    pub fn child_source(&self, node: &SyntaxNode) -> (res: Vec<NodePtr>)
        requires
            forall|k: int| 0 <= k < node.children.len() && (#[trigger] node.children@[k]).1.kind == NodeKind::EnumStructField
                ==> field_index_from(node.children@[k].1.children@, FieldName::Name, 0) is Some
                && spec_returntype(node.children@[k].1, FieldName::Type) is Some,
        ensures
            res@ == field_children(node.children@),
    {
        let mut res: Vec<NodePtr> = Vec::new();
        let mut i: usize = 0;
        while i < node.children.len()
            invariant
                0 <= i <= node.children.len(),
                res@ == field_children(node.children@.take(i as int)),
            decreases node.children.len() - i,
        {
            let child = &node.children[i].1;
            assert(node.children@.take(i + 1).drop_last() =~= node.children@.take(i as int));
            if child.kind == NodeKind::EnumStructField {
                res.push(NodePtr::from_node(child));
            }
            i = i + 1;
        }
        assert(node.children@.take(i as int) =~= node.children@);
        res
    }
}

/// The fields of a prefix are at most those of the whole.
proof fn lemma_count_fields_prefix(items: Seq<EnumStructItemData>, n: int)
    requires
        0 <= n <= items.len(),
    ensures
        count_fields(items.take(n)) <= count_fields(items),
        n < items.len() ==> count_fields(items.take(n)) < count_fields(items) || !(items[n] is Field),
    decreases items.len(),
{
    if n == items.len() {
        assert(items.take(n) =~= items);
    } else {
        lemma_count_fields_prefix(items.drop_last(), n);
        assert(items.drop_last().take(n) =~= items.take(n));
        if n < items.len() - 1 {
            assert(items.drop_last()[n] == items[n]);
        }
    }
}

} // verus!
