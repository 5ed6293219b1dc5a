//! The definitions that a file (or a block) declares, by name.
use vstd::prelude::*;
use std::sync::Arc;
use crate::base_db::FileId;
use crate::hir::{BlockId, Name};
use crate::ids::{EnumId, FileDefId, InternDatabase, ItemContainerId, ItemLoc, GlobalLoc, MacroId, TreeId};
use crate::item_tree::{FileItem, ItemTree};

verus! {

/// For a map computed for a block expression: the block and the containing file.
#[derive(Debug, Clone, Copy, PartialEq, Eq, Structural)]
pub struct BlockInfo {
    pub block: BlockId,
    pub parent: FileId,
}

/// The definitions declared in a file, by name, in declaration order.
#[derive(Debug)]
pub struct DefMap {
    file_id: FileId,
    values: Vec<(Name, Vec<FileDefId>)>,
    macros: Vec<(u32, MacroId)>,
    declarations: Vec<FileDefId>,
    block: Option<BlockInfo>,
}

impl DefMap {
    pub closed spec fn spec_file_id(&self) -> FileId {
        self.file_id
    }

    /// The definitions declared under name `n`, in declaration order.
    pub closed spec fn defs_of(&self, n: Seq<char>) -> Seq<FileDefId> {
        if exists|i: int| 0 <= i < self.values.len() && (#[trigger] self.values@[i]).0@ == n {
            let i = choose|i: int| 0 <= i < self.values.len() && (#[trigger] self.values@[i]).0@ == n;
            self.values@[i].1@
        } else {
            seq![]
        }
    }

    /// Every definition, in declaration order.
    pub closed spec fn spec_declarations(&self) -> Seq<FileDefId> {
        self.declarations@
    }

    /// The macro recorded under index `idx`, if any.
    pub closed spec fn spec_macro(&self, idx: u32) -> Option<MacroId> {
        if exists|i: int| 0 <= i < self.macros.len() && (#[trigger] self.macros@[i]).0 == idx {
            let i = choose|i: int| 0 <= i < self.macros.len() && (#[trigger] self.macros@[i]).0 == idx;
            Some(self.macros@[i].1)
        } else {
            None
        }
    }

    pub closed spec fn spec_block(&self) -> Option<BlockInfo> {
        self.block
    }

    /// Names and macro indices are unique.
    pub closed spec fn wf(&self) -> bool {
        &&& forall|i: int, j: int| 0 <= i < j < self.values.len() ==> self.values@[i].0@ != self.values@[j].0@
        &&& forall|i: int, j: int| 0 <= i < j < self.macros.len() ==> self.macros@[i].0 != self.macros@[j].0
    }

    /// An empty map for `file_id`.
    pub fn new(file_id: FileId) -> (res: Self)
        ensures
            res.wf(),
            res.spec_file_id() == file_id,
            forall|n: Seq<char>| res.defs_of(n) == Seq::<FileDefId>::empty(),
            res.spec_declarations() == Seq::<FileDefId>::empty(),
            forall|idx: u32| res.spec_macro(idx) is None,
            res.spec_block() is None,
    {
        Self { file_id, values: Vec::new(), macros: Vec::new(), declarations: Vec::new(), block: None }
    }

    /// An empty map for the block `block` of file `file_id`.
    pub fn new_block(file_id: FileId, block: BlockId) -> (res: Self)
        ensures
            res.wf(),
            res.spec_file_id() == file_id,
            forall|n: Seq<char>| res.defs_of(n) == Seq::<FileDefId>::empty(),
            res.spec_declarations() == Seq::<FileDefId>::empty(),
            forall|idx: u32| res.spec_macro(idx) is None,
            res.spec_block() == Some(BlockInfo { block, parent: file_id }),
    {
        Self {
            file_id,
            values: Vec::new(),
            macros: Vec::new(),
            declarations: Vec::new(),
            block: Some(BlockInfo { block, parent: file_id }),
        }
    }

    pub fn file_id(&self) -> (res: FileId)
        ensures
            res == self.spec_file_id(),
    {
        self.file_id
    }

    /// Index of the entry of `name`, if any.
    fn find(&self, name: &Name) -> (res: Option<usize>)
        requires
            self.wf(),
        ensures
            match res {
                Some(i) => i < self.values.len() && self.values@[i as int].0@ == name@
                    && self.defs_of(name@) == self.values@[i as int].1@,
                None => forall|k: int| 0 <= k < self.values.len() ==> self.values@[k].0@ != name@,
            },
            res is None ==> self.defs_of(name@) == Seq::<FileDefId>::empty(),
    {
        let mut i: usize = 0;
        while i < self.values.len()
            invariant
                self.wf(),
                0 <= i <= self.values.len(),
                forall|k: int| 0 <= k < i ==> self.values@[k].0@ != name@,
            decreases self.values.len() - i,
        {
            if self.values[i].0.same_as(name) {
                proof {
                    let j = choose|j: int| 0 <= j < self.values.len() && (#[trigger] self.values@[j]).0@ == name@;
                    if j != i {
                        if j < i {
                            assert(self.values@[j].0@ != self.values@[i as int].0@);
                        } else {
                            assert(self.values@[i as int].0@ != self.values@[j].0@);
                        }
                    }
                }
                return Some(i);
            }
            i = i + 1;
        }
        None
    }

    /// The definitions declared under `name`, if any.
    pub fn get(&self, name: &Name) -> (res: Option<Vec<FileDefId>>)
        requires
            self.wf(),
        ensures
            match res {
                Some(v) => v@ == self.defs_of(name@) && v@.len() > 0,
                None => self.defs_of(name@).len() == 0,
            },
    {
        match self.find(name) {
            Some(i) => {
                let v = self.values[i].1.clone();
                assert(v@ == self.values@[i as int].1@);
                if v.len() > 0 {
                    Some(v)
                } else {
                    None
                }
            },
            None => None,
        }
    }

    pub fn get_from_str(&self, name: &str) -> (res: Option<Vec<FileDefId>>)
        requires
            self.wf(),
        ensures
            match res {
                Some(v) => v@ == self.defs_of(name@) && v@.len() > 0,
                None => self.defs_of(name@).len() == 0,
            },
    {
        self.get(&Name::from_str(name))
    }

    /// The first definition declared under `name`.
    pub fn get_first_from_str(&self, name: &str) -> (res: Option<FileDefId>)
        requires
            self.wf(),
        ensures
            res == if self.defs_of(name@).len() > 0 {
                Some(self.defs_of(name@)[0])
            } else {
                None
            },
    {
        match self.get_from_str(name) {
            Some(v) => Some(v[0]),
            None => None,
        }
    }

    /// The macro recorded under index `idx`.
    pub fn get_macro(&self, idx: &u32) -> (res: Option<MacroId>)
        requires
            self.wf(),
        ensures
            res == self.spec_macro(*idx),
    {
        let mut i: usize = 0;
        while i < self.macros.len()
            invariant
                self.wf(),
                0 <= i <= self.macros.len(),
                forall|k: int| 0 <= k < i ==> self.macros@[k].0 != *idx,
            decreases self.macros.len() - i,
        {
            if self.macros[i].0 == *idx {
                proof {
                    let j = choose|j: int| 0 <= j < self.macros.len() && (#[trigger] self.macros@[j]).0 == *idx;
                    if j != i {
                        if j < i {
                            assert(self.macros@[j].0 != self.macros@[i as int].0);
                        } else {
                            assert(self.macros@[i as int].0 != self.macros@[j].0);
                        }
                    }
                }
                return Some(self.macros[i].1);
            }
            i = i + 1;
        }
        None
    }

    /// Records the macro `id` under index `idx`.
    pub fn declare_macro(&mut self, idx: u32, id: MacroId)
        requires
            old(self).wf(),
            old(self).spec_macro(idx) is None,
        ensures
            final(self).wf(),
            final(self).spec_macro(idx) == Some(id),
            forall|k: u32| k != idx ==> final(self).spec_macro(k) == old(self).spec_macro(k),
            forall|n: Seq<char>| final(self).defs_of(n) == old(self).defs_of(n),
            final(self).spec_declarations() == old(self).spec_declarations(),
            final(self).spec_file_id() == old(self).spec_file_id(),
            final(self).spec_block() == old(self).spec_block(),
    {
        let ghost old_macros = self.macros@;
        self.macros.push((idx, id));
        proof {
            assert(self.values@ == old(self).values@);
            assert forall|n: Seq<char>| self.defs_of(n) == old(self).defs_of(n) by {}
            assert(self.macros@[old_macros.len() as int] == (idx, id));
            assert forall|i: int, j: int| 0 <= i < j < self.macros.len() implies self.macros@[i].0 != self.macros@[j].0 by {
                if j == old_macros.len() {
                    if self.macros@[i].0 == idx {
                        assert(old_macros[i].0 == idx);
                    }
                }
            }
            assert forall|k: u32| k != idx implies self.spec_macro(k) == old(self).spec_macro(k) by {
                if exists|i: int| 0 <= i < self.macros.len() && (#[trigger] self.macros@[i]).0 == k {
                    let i = choose|i: int| 0 <= i < self.macros.len() && (#[trigger] self.macros@[i]).0 == k;
                    assert(old_macros[i] == self.macros@[i]);
                }
                if exists|i: int| 0 <= i < old_macros.len() && (#[trigger] old_macros[i]).0 == k {
                    let i = choose|i: int| 0 <= i < old_macros.len() && (#[trigger] old_macros[i]).0 == k;
                    assert(old_macros[i] == self.macros@[i]);
                }
            }
        }
    }

    /// Declares `def` under `name`.
    pub fn declare(&mut self, name: Name, def: FileDefId)
        requires
            old(self).wf(),
        ensures
            final(self).wf(),
            final(self).defs_of(name@) == old(self).defs_of(name@).push(def),
            forall|n: Seq<char>| n != name@ ==> final(self).defs_of(n) == old(self).defs_of(n),
            final(self).spec_declarations() == old(self).spec_declarations().push(def),
            forall|k: u32| final(self).spec_macro(k) == old(self).spec_macro(k),
            final(self).spec_file_id() == old(self).spec_file_id(),
            final(self).spec_block() == old(self).spec_block(),
    {
        let ghost old_values = self.values@;
        let ghost nm = name@;
        match self.find(&name) {
            Some(i) => {
                let mut defs = self.values[i].1.clone();
                assert(defs@ == old_values[i as int].1@);
                defs.push(def);
                let entry_name = self.values[i].0.clone();
                self.values.set(i, (entry_name, defs));
                proof {
                    assert forall|a: int, b: int| 0 <= a < b < self.values.len() implies self.values@[a].0@ != self.values@[b].0@ by {
                        assert(old_values[a].0@ != old_values[b].0@);
                    }
                    assert(self.values@[i as int].0@ == nm);
                    assert(self.defs_of(nm) == self.values@[i as int].1@) by {
                        let j = choose|j: int| 0 <= j < self.values.len() && (#[trigger] self.values@[j]).0@ == nm;
                        if j != i {
                            if j < i {
                                assert(self.values@[j].0@ != self.values@[i as int].0@);
                            } else {
                                assert(self.values@[i as int].0@ != self.values@[j].0@);
                            }
                        }
                    }
                    assert forall|n: Seq<char>| n != nm implies self.defs_of(n) == old(self).defs_of(n) by {
                        if exists|j: int| 0 <= j < self.values.len() && (#[trigger] self.values@[j]).0@ == n {
                            let j = choose|j: int| 0 <= j < self.values.len() && (#[trigger] self.values@[j]).0@ == n;
                            assert(old_values[j] == self.values@[j]);
                            assert(old_values[j].0@ == n);
                            let j2 = choose|j2: int| 0 <= j2 < old_values.len() && (#[trigger] old_values[j2]).0@ == n;
                            if j2 != j {
                                if j2 < j {
                                    assert(old_values[j2].0@ != old_values[j].0@);
                                } else {
                                    assert(old_values[j].0@ != old_values[j2].0@);
                                }
                            }
                        } else {
                            if exists|j: int| 0 <= j < old_values.len() && (#[trigger] old_values[j]).0@ == n {
                                let j = choose|j: int| 0 <= j < old_values.len() && (#[trigger] old_values[j]).0@ == n;
                                assert(self.values@[j].0@ == n);
                            }
                        }
                    }
                }
            },
            None => {
                let mut defs: Vec<FileDefId> = Vec::new();
                defs.push(def);
                self.values.push((name, defs));
                proof {
                    let last = old_values.len() as int;
                    assert(self.values@[last].0@ == nm);
                    assert forall|a: int, b: int| 0 <= a < b < self.values.len() implies self.values@[a].0@ != self.values@[b].0@ by {
                        if b < last {
                            assert(old_values[a].0@ != old_values[b].0@);
                        }
                    }
                    assert(self.defs_of(nm) == self.values@[last].1@) by {
                        let j = choose|j: int| 0 <= j < self.values.len() && (#[trigger] self.values@[j]).0@ == nm;
                        if j != last {
                            assert(self.values@[j].0@ != self.values@[last].0@);
                        }
                    }
                    assert(self.values@[last].1@ == seq![def]);
                    assert forall|n: Seq<char>| n != nm implies self.defs_of(n) == old(self).defs_of(n) by {
                        if exists|j: int| 0 <= j < self.values.len() && (#[trigger] self.values@[j]).0@ == n {
                            let j = choose|j: int| 0 <= j < self.values.len() && (#[trigger] self.values@[j]).0@ == n;
                            assert(j < last);
                            assert(old_values[j] == self.values@[j]);
                            let j2 = choose|j2: int| 0 <= j2 < old_values.len() && (#[trigger] old_values[j2]).0@ == n;
                            if j2 != j {
                                if j2 < j {
                                    assert(old_values[j2].0@ != old_values[j].0@);
                                } else {
                                    assert(old_values[j].0@ != old_values[j2].0@);
                                }
                            }
                        } else {
                            if exists|j: int| 0 <= j < old_values.len() && (#[trigger] old_values[j]).0@ == n {
                                let j = choose|j: int| 0 <= j < old_values.len() && (#[trigger] old_values[j]).0@ == n;
                                assert(self.values@[j] == old_values[j]);
                            }
                        }
                    }
                }
            },
        }
        let ghost mid_values = self.values@;
        self.declarations.push(def);
        proof {
            assert(self.values@ == mid_values);
            assert(self.macros@ == old(self).macros@);
            assert forall|k: u32| self.spec_macro(k) == old(self).spec_macro(k) by {}
        }
    }

    /// The block this map was computed for, if any.
    pub fn block_id(&self) -> (res: Option<BlockId>)
        ensures
            res == match self.spec_block() {
                Some(b) => Some(b.block),
                None => None,
            },
    {
        match self.block {
            Some(b) => Some(b.block),
            None => None,
        }
    }

    /// Every definition, in declaration order.
    pub fn declarations(&self) -> (res: &[FileDefId])
        ensures
            res@ == self.spec_declarations(),
    {
        self.declarations.as_slice()
    }
}

/// The definitions declared under name `n` among the declarations `decls`, in order.
pub open spec fn defs_named(decls: Seq<(Seq<char>, FileDefId)>, n: Seq<char>) -> Seq<FileDefId>
    decreases decls.len(),
{
    if decls.len() == 0 {
        seq![]
    } else {
        let prev = defs_named(decls.drop_last(), n);
        if decls.last().0 == n {
            prev.push(decls.last().1)
        } else {
            prev
        }
    }
}

/// The location of item `value` of the item tree of file `file_id`, held by the file.
pub open spec fn file_loc(file_id: FileId, value: usize) -> ItemLoc {
    ItemLoc { container: ItemContainerId::FileId(file_id), tree: TreeId { file: file_id, block: None }, value }
}

/// The declarations of the variants of enum `enum_id` whose indices are
/// `start..start + count`.
pub open spec fn variant_decls<D: InternDatabase>(db: &D, file_id: FileId, tree: &ItemTree, enum_id: EnumId, start: usize, count: nat) -> Seq<
    (Seq<char>, FileDefId),
> {
    Seq::new(
        count,
        |j: int|
            (
                tree.variants@[start + j].name@,
                FileDefId::VariantId(
                    db.spec_intern_variant(
                        ItemLoc {
                            container: ItemContainerId::EnumId(enum_id),
                            tree: TreeId { file: file_id, block: None },
                            value: (start + j) as usize,
                        },
                    ),
                ),
            ),
    )
}

/// The declarations that the top-level item `item` of file `file_id` makes:
/// its name, and for an enum the names of its variants first. Unnamed
/// typedefs and functags, variants and properties declare nothing.
pub open spec fn item_decls<D: InternDatabase>(db: &D, file_id: FileId, tree: &ItemTree, item: FileItem) -> Seq<
    (Seq<char>, FileDefId),
> {
    match item {
        FileItem::Function(i) => seq![
            (tree.functions@[i as int].name@, FileDefId::FunctionId(db.spec_intern_function(file_loc(file_id, i)))),
        ],
        FileItem::Variable(i) => seq![
            (
                tree.variables@[i as int].name@,
                FileDefId::GlobalId(db.spec_intern_variable(GlobalLoc { tree: TreeId { file: file_id, block: None }, value: i })),
            ),
        ],
        FileItem::EnumStruct(i) => seq![
            (tree.enum_structs@[i as int].name@, FileDefId::EnumStructId(db.spec_intern_enum_struct(file_loc(file_id, i)))),
        ],
        FileItem::Methodmap(i) => seq![
            (tree.methodmaps@[i as int].name@, FileDefId::MethodmapId(db.spec_intern_methodmap(file_loc(file_id, i)))),
        ],
        FileItem::Macro(i) => seq![
            (tree.macros@[i as int].name@, FileDefId::MacroId(db.spec_intern_macro(file_loc(file_id, i)))),
        ],
        FileItem::Enum(i) => {
            let e = tree.enums@[i as int];
            let enum_id = db.spec_intern_enum(file_loc(file_id, i));
            variant_decls(db, file_id, tree, enum_id, e.variants.start, (e.variants.end - e.variants.start) as nat)
                + seq![(e.name@, FileDefId::EnumId(enum_id))]
        },
        FileItem::Typedef(i) => match tree.typedefs@[i as int].name {
            Some(n) => seq![(n@, FileDefId::TypedefId(db.spec_intern_typedef(file_loc(file_id, i))))],
            None => seq![],
        },
        FileItem::Typeset(i) => seq![
            (tree.typesets@[i as int].name@, FileDefId::TypesetId(db.spec_intern_typeset(file_loc(file_id, i)))),
        ],
        FileItem::Functag(i) => match tree.functags@[i as int].name {
            Some(n) => seq![(n@, FileDefId::FunctagId(db.spec_intern_functag(file_loc(file_id, i))))],
            None => seq![],
        },
        FileItem::Funcenum(i) => seq![
            (tree.funcenums@[i as int].name@, FileDefId::FuncenumId(db.spec_intern_funcenum(file_loc(file_id, i)))),
        ],
        FileItem::Struct(i) => seq![
            (tree.structs@[i as int].name@, FileDefId::StructId(db.spec_intern_struct(file_loc(file_id, i)))),
        ],
        FileItem::Variant(_) | FileItem::Property(_) => seq![],
    }
}

/// The declarations that the items `items` make, in order.
pub open spec fn items_decls<D: InternDatabase>(db: &D, file_id: FileId, tree: &ItemTree, items: Seq<FileItem>) -> Seq<
    (Seq<char>, FileDefId),
>
    decreases items.len(),
{
    if items.len() == 0 {
        seq![]
    } else {
        items_decls(db, file_id, tree, items.drop_last()) + item_decls(db, file_id, tree, items.last())
    }
}

/// The macros that the items `items` define, in order.
pub open spec fn items_macros<D: InternDatabase>(db: &D, file_id: FileId, items: Seq<FileItem>) -> Seq<MacroId>
    decreases items.len(),
{
    if items.len() == 0 {
        seq![]
    } else {
        let prev = items_macros(db, file_id, items.drop_last());
        match items.last() {
            FileItem::Macro(i) => prev.push(db.spec_intern_macro(file_loc(file_id, i))),
            _ => prev,
        }
    }
}

pub open spec fn decl_defs(decls: Seq<(Seq<char>, FileDefId)>) -> Seq<FileDefId> {
    decls.map_values(|d: (Seq<char>, FileDefId)| d.1)
}

pub proof fn lemma_items_macros_len<D: InternDatabase>(db: &D, file_id: FileId, items: Seq<FileItem>)
    ensures
        items_macros(db, file_id, items).len() <= items.len(),
    decreases items.len(),
{
    if items.len() > 0 {
        lemma_items_macros_len(db, file_id, items.drop_last());
    }
}

impl DefMap {
    /// The map holds the declarations `decls` and the macros `macros`.
    pub open spec fn holds(&self, decls: Seq<(Seq<char>, FileDefId)>, macros: Seq<MacroId>) -> bool {
        &&& self.wf()
        &&& forall|n: Seq<char>| #[trigger] self.defs_of(n) == defs_named(decls, n)
        &&& self.spec_declarations() == decl_defs(decls)
        &&& forall|k: u32| #[trigger] self.spec_macro(k) == if k < macros.len() {
            Some(macros[k as int])
        } else {
            None
        }
    }

    /// Declares `def` under `name`, one more declaration.
    fn declare_one(&mut self, name: Name, def: FileDefId, Ghost(decls): Ghost<Seq<(Seq<char>, FileDefId)>>, Ghost(macros): Ghost<Seq<MacroId>>)
        requires
            old(self).holds(decls, macros),
        ensures
            final(self).holds(decls.push((name@, def)), macros),
            final(self).spec_file_id() == old(self).spec_file_id(),
            final(self).spec_block() == old(self).spec_block(),
    {
        let ghost nm = name@;
        self.declare(name, def);
        proof {
            let ds = decls.push((nm, def));
            assert(ds.drop_last() =~= decls);
            assert forall|n: Seq<char>| #[trigger] self.defs_of(n) == defs_named(ds, n) by {}
            assert(decl_defs(ds) =~= decl_defs(decls).push(def));
        }
    }

    /// The definitions that file `file_id` declares, from its item tree: each
    /// top-level item under its name, an enum after its variants; the macros
    /// are also numbered in order.
    pub fn file_def_map_query<D: InternDatabase>(db: &D, file_id: FileId, item_tree: &ItemTree) -> (res: Arc<DefMap>)
        requires
            item_tree.wf(),
            item_tree.top_level.len() <= u32::MAX,
        ensures
            res.holds(
                items_decls(db, file_id, item_tree, item_tree.top_level@),
                items_macros(db, file_id, item_tree.top_level@),
            ),
            res.spec_file_id() == file_id,
            res.spec_block() is None,
    {
        let mut res = DefMap::new(file_id);
        let tree_id = TreeId { file: file_id, block: None };
        let items = item_tree.top_level_items();
        let mut macro_idx: u32 = 0;
        let mut i: usize = 0;
        proof {
            assert(items@.take(0) =~= Seq::<FileItem>::empty());
            assert(decl_defs(seq![]) =~= Seq::<FileDefId>::empty());
        }
        while i < items.len()
            invariant
                0 <= i <= items.len(),
                items@ == item_tree.top_level@,
                item_tree.wf(),
                item_tree.top_level.len() <= u32::MAX,
                tree_id == (TreeId { file: file_id, block: None }),
                res.holds(items_decls(db, file_id, item_tree, items@.take(i as int)), items_macros(db, file_id, items@.take(i as int))),
                macro_idx == items_macros(db, file_id, items@.take(i as int)).len(),
                macro_idx <= i,
                res.spec_file_id() == file_id,
                res.spec_block() is None,
            decreases items.len() - i,
        {
            let ghost t = items@.take(i + 1);
            let ghost d0 = items_decls(db, file_id, item_tree, items@.take(i as int));
            let ghost m0 = items_macros(db, file_id, items@.take(i as int));
            assert(t.drop_last() =~= items@.take(i as int));
            assert(t.last() == items@[i as int]);
            assert(item_tree.has_item(items@[i as int]));
            match items[i] {
                FileItem::Function(id) => {
                    let f = db.intern_function(ItemLoc { container: ItemContainerId::FileId(file_id), tree: tree_id, value: id });
                    res.declare_one(item_tree.functions[id].name.clone(), FileDefId::FunctionId(f), Ghost(d0), Ghost(m0));
                    assert(d0.push((item_tree.functions@[id as int].name@, FileDefId::FunctionId(f))) =~= d0 + item_decls(db, file_id, item_tree, items@[i as int]));
                },
                FileItem::Variable(id) => {
                    let g = db.intern_variable(GlobalLoc { tree: tree_id, value: id });
                    res.declare_one(item_tree.variables[id].name.clone(), FileDefId::GlobalId(g), Ghost(d0), Ghost(m0));
                    assert(d0.push((item_tree.variables@[id as int].name@, FileDefId::GlobalId(g))) =~= d0 + item_decls(db, file_id, item_tree, items@[i as int]));
                },
                FileItem::EnumStruct(id) => {
                    let e = db.intern_enum_struct(ItemLoc { container: ItemContainerId::FileId(file_id), tree: tree_id, value: id });
                    res.declare_one(item_tree.enum_structs[id].name.clone(), FileDefId::EnumStructId(e), Ghost(d0), Ghost(m0));
                    assert(d0.push((item_tree.enum_structs@[id as int].name@, FileDefId::EnumStructId(e))) =~= d0 + item_decls(db, file_id, item_tree, items@[i as int]));
                },
                FileItem::Methodmap(id) => {
                    let m = db.intern_methodmap(ItemLoc { container: ItemContainerId::FileId(file_id), tree: tree_id, value: id });
                    res.declare_one(item_tree.methodmaps[id].name.clone(), FileDefId::MethodmapId(m), Ghost(d0), Ghost(m0));
                    assert(d0.push((item_tree.methodmaps@[id as int].name@, FileDefId::MethodmapId(m))) =~= d0 + item_decls(db, file_id, item_tree, items@[i as int]));
                },
                FileItem::Macro(id) => {
                    let m = db.intern_macro(ItemLoc { container: ItemContainerId::FileId(file_id), tree: tree_id, value: id });
                    res.declare_one(item_tree.macros[id].name.clone(), FileDefId::MacroId(m), Ghost(d0), Ghost(m0));
                    assert(d0.push((item_tree.macros@[id as int].name@, FileDefId::MacroId(m))) =~= d0 + item_decls(db, file_id, item_tree, items@[i as int]));
                    let ghost d1 = d0.push((item_tree.macros@[id as int].name@, FileDefId::MacroId(m)));
                    res.declare_macro(macro_idx, m);
                    proof {
                        let m1 = m0.push(m);
                        assert forall|k: u32| #[trigger] res.spec_macro(k) == if k < m1.len() {
                            Some(m1[k as int])
                        } else {
                            None
                        } by {}
                    }
                    macro_idx = macro_idx + 1;
                },
                FileItem::Enum(id) => {
                    let enum_id = db.intern_enum(ItemLoc { container: ItemContainerId::FileId(file_id), tree: tree_id, value: id });
                    let e = &item_tree.enums[id];
                    let start = e.variants.start;
                    let end = e.variants.end;
                    let ghost vd = variant_decls(db, file_id, item_tree, enum_id, start, (end - start) as nat);
                    let mut v = start;
                    while v < end
                        invariant
                            start <= v <= end <= item_tree.variants.len(),
                            vd == variant_decls(db, file_id, item_tree, enum_id, start, (end - start) as nat),
                            res.holds(d0 + vd.take(v - start), m0),
                            res.spec_file_id() == file_id,
                            res.spec_block() is None,
                            tree_id == (TreeId { file: file_id, block: None }),
                        decreases end - v,
                    {
                        let var_id = db.intern_variant(ItemLoc { container: ItemContainerId::EnumId(enum_id), tree: tree_id, value: v });
                        assert(vd[v - start] == (item_tree.variants@[v as int].name@, FileDefId::VariantId(var_id)));
                        res.declare_one(item_tree.variants[v].name.clone(), FileDefId::VariantId(var_id), Ghost(d0 + vd.take(v - start)), Ghost(m0));
                        assert((d0 + vd.take(v - start)).push(vd[v - start]) =~= d0 + vd.take(v + 1 - start));
                        v = v + 1;
                    }
                    assert(vd.take(end - start) =~= vd);
                    res.declare_one(e.name.clone(), FileDefId::EnumId(enum_id), Ghost(d0 + vd), Ghost(m0));
                    assert((d0 + vd).push((e.name@, FileDefId::EnumId(enum_id))) =~= d0 + (vd + seq![(e.name@, FileDefId::EnumId(enum_id))]));
                },
                FileItem::Typedef(id) => {
                    let t = db.intern_typedef(ItemLoc { container: ItemContainerId::FileId(file_id), tree: tree_id, value: id });
                    match &item_tree.typedefs[id].name {
                        Some(n) => {
                            res.declare_one(n.clone(), FileDefId::TypedefId(t), Ghost(d0), Ghost(m0));
                            assert(d0.push((n@, FileDefId::TypedefId(t))) =~= d0 + item_decls(db, file_id, item_tree, items@[i as int]));
                        },
                        None => {
                            assert(d0 + item_decls(db, file_id, item_tree, items@[i as int]) =~= d0);
                        },
                    }
                },
                FileItem::Typeset(id) => {
                    let t = db.intern_typeset(ItemLoc { container: ItemContainerId::FileId(file_id), tree: tree_id, value: id });
                    res.declare_one(item_tree.typesets[id].name.clone(), FileDefId::TypesetId(t), Ghost(d0), Ghost(m0));
                    assert(d0.push((item_tree.typesets@[id as int].name@, FileDefId::TypesetId(t))) =~= d0 + item_decls(db, file_id, item_tree, items@[i as int]));
                },
                FileItem::Functag(id) => {
                    let t = db.intern_functag(ItemLoc { container: ItemContainerId::FileId(file_id), tree: tree_id, value: id });
                    match &item_tree.functags[id].name {
                        Some(n) => {
                            res.declare_one(n.clone(), FileDefId::FunctagId(t), Ghost(d0), Ghost(m0));
                            assert(d0.push((n@, FileDefId::FunctagId(t))) =~= d0 + item_decls(db, file_id, item_tree, items@[i as int]));
                        },
                        None => {
                            assert(d0 + item_decls(db, file_id, item_tree, items@[i as int]) =~= d0);
                        },
                    }
                },
                FileItem::Funcenum(id) => {
                    let t = db.intern_funcenum(ItemLoc { container: ItemContainerId::FileId(file_id), tree: tree_id, value: id });
                    res.declare_one(item_tree.funcenums[id].name.clone(), FileDefId::FuncenumId(t), Ghost(d0), Ghost(m0));
                    assert(d0.push((item_tree.funcenums@[id as int].name@, FileDefId::FuncenumId(t))) =~= d0 + item_decls(db, file_id, item_tree, items@[i as int]));
                },
                FileItem::Struct(id) => {
                    let t = db.intern_struct(ItemLoc { container: ItemContainerId::FileId(file_id), tree: tree_id, value: id });
                    res.declare_one(item_tree.structs[id].name.clone(), FileDefId::StructId(t), Ghost(d0), Ghost(m0));
                    assert(d0.push((item_tree.structs@[id as int].name@, FileDefId::StructId(t))) =~= d0 + item_decls(db, file_id, item_tree, items@[i as int]));
                },
                FileItem::Variant(_) | FileItem::Property(_) => {
                    assert(d0 + item_decls(db, file_id, item_tree, items@[i as int]) =~= d0);
                },
            }
            proof {
                assert(items_decls(db, file_id, item_tree, t) == d0 + item_decls(db, file_id, item_tree, items@[i as int]));
            }
            i = i + 1;
        }
        assert(items@.take(items.len() as int) =~= items@);
        Arc::new(res)
    }
}

/// The declarations of the block `block_id` of file `file_id`, whose items
/// `items` are global variables of `tree`, in order.
pub open spec fn block_decls<D: InternDatabase>(db: &D, file_id: FileId, block_id: BlockId, tree: &ItemTree, items: Seq<FileItem>) -> Seq<
    (Seq<char>, FileDefId),
> {
    Seq::new(
        items.len(),
        |k: int| {
            let i = items[k]->Variable_0;
            (
                tree.variables@[i as int].name@,
                FileDefId::GlobalId(db.spec_intern_variable(GlobalLoc { tree: TreeId { file: file_id, block: Some(block_id) }, value: i })),
            )
        },
    )
}

impl DefMap {
    /// The definitions that the block `block_id` of file `file_id` declares,
    /// from its item tree `item_tree`: each of its variables under its name.
    pub fn block_def_map_query<D: InternDatabase>(db: &D, block_id: BlockId, file_id: FileId, item_tree: &ItemTree) -> (res: Arc<DefMap>)
        requires
            forall|k: int| 0 <= k < item_tree.top_level.len() ==> (#[trigger] item_tree.top_level@[k] matches FileItem::Variable(i)
                && i < item_tree.variables.len()),
        ensures
            res.holds(block_decls(db, file_id, block_id, item_tree, item_tree.top_level@), seq![]),
            res.spec_file_id() == file_id,
            res.spec_block() is None,
    {
        let mut res = DefMap::new(file_id);
        let tree_id = TreeId { file: file_id, block: Some(block_id) };
        let items = &item_tree.top_level;
        let mut i: usize = 0;
        proof {
            assert(block_decls(db, file_id, block_id, item_tree, items@.take(0)) =~= Seq::<(Seq<char>, FileDefId)>::empty());
            assert(decl_defs(seq![]) =~= Seq::<FileDefId>::empty());
            assert forall|k: u32| #[trigger] res.spec_macro(k) == if k < Seq::<MacroId>::empty().len() {
                Some(Seq::<MacroId>::empty()[k as int])
            } else {
                None
            } by {}
        }
        while i < items.len()
            invariant
                0 <= i <= items.len(),
                items@ == item_tree.top_level@,
                forall|k: int| 0 <= k < item_tree.top_level.len() ==> (#[trigger] item_tree.top_level@[k] matches FileItem::Variable(i)
                    && i < item_tree.variables.len()),
                tree_id == (TreeId { file: file_id, block: Some(block_id) }),
                res.holds(block_decls(db, file_id, block_id, item_tree, items@.take(i as int)), seq![]),
                res.spec_file_id() == file_id,
                res.spec_block() is None,
            decreases items.len() - i,
        {
            let ghost d0 = block_decls(db, file_id, block_id, item_tree, items@.take(i as int));
            let ghost m0: Seq<MacroId> = seq![];
            assert(item_tree.top_level@[i as int] matches FileItem::Variable(_));
            match items[i] {
                FileItem::Variable(id) => {
                    let var_id = db.intern_variable(GlobalLoc { tree: tree_id, value: id });
                    res.declare_one(item_tree.variables[id].name.clone(), FileDefId::GlobalId(var_id), Ghost(d0), Ghost(m0));
                    assert(block_decls(db, file_id, block_id, item_tree, items@.take(i + 1)) =~= d0.push(
                        (item_tree.variables@[id as int].name@, FileDefId::GlobalId(var_id)),
                    ));
                },
                _ => {},
            }
            i = i + 1;
        }
        assert(items@.take(items.len() as int) =~= items@);
        Arc::new(res)
    }
}

} // verus!
