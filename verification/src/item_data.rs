//! The data of the simple definitions, read from their item trees: macros,
//! typedefs, typesets, functags, funcenums, enums, variants, structs and
//! globals.
use vstd::prelude::*;
use crate::data::{DataDatabase, NameMap, RawVisibilityId};
use crate::hir::{opt_type_ref_view, Name, TypeRef, TypeRefView};
use crate::ids::{
    EnumId, FuncenumId, FunctagId, GlobalId, GlobalLoc, ItemContainerId, ItemLoc, MacroId, StructId, TypedefId, TypesetId, VariantId,
};
use crate::item_tree::{opt_name_view, ItemTree};
use std::sync::Arc;

verus! {

/// The locations that the simple definitions were interned from.
pub trait ItemDataDatabase: DataDatabase {
    spec fn spec_lookup_macro(&self, id: MacroId) -> ItemLoc;

    spec fn spec_lookup_typedef(&self, id: TypedefId) -> ItemLoc;

    spec fn spec_lookup_typeset(&self, id: TypesetId) -> ItemLoc;

    spec fn spec_lookup_functag(&self, id: FunctagId) -> ItemLoc;

    spec fn spec_lookup_funcenum(&self, id: FuncenumId) -> ItemLoc;

    spec fn spec_lookup_enum(&self, id: EnumId) -> ItemLoc;

    spec fn spec_lookup_variant(&self, id: VariantId) -> ItemLoc;

    spec fn spec_lookup_global(&self, id: GlobalId) -> GlobalLoc;

    spec fn spec_lookup_struct(&self, id: StructId) -> ItemLoc;

    fn lookup_macro(&self, id: MacroId) -> (res: ItemLoc)
        ensures
            res == self.spec_lookup_macro(id),
    ;

    fn lookup_typedef(&self, id: TypedefId) -> (res: ItemLoc)
        ensures
            res == self.spec_lookup_typedef(id),
    ;

    fn lookup_typeset(&self, id: TypesetId) -> (res: ItemLoc)
        ensures
            res == self.spec_lookup_typeset(id),
    ;

    fn lookup_functag(&self, id: FunctagId) -> (res: ItemLoc)
        ensures
            res == self.spec_lookup_functag(id),
    ;

    fn lookup_funcenum(&self, id: FuncenumId) -> (res: ItemLoc)
        ensures
            res == self.spec_lookup_funcenum(id),
    ;

    fn lookup_enum(&self, id: EnumId) -> (res: ItemLoc)
        ensures
            res == self.spec_lookup_enum(id),
    ;

    fn lookup_variant(&self, id: VariantId) -> (res: ItemLoc)
        ensures
            res == self.spec_lookup_variant(id),
    ;

    fn lookup_global(&self, id: GlobalId) -> (res: GlobalLoc)
        ensures
            res == self.spec_lookup_global(id),
    ;

    fn lookup_struct(&self, id: StructId) -> (res: ItemLoc)
        ensures
            res == self.spec_lookup_struct(id),
    ;
}

fn clone_name(n: &Option<Name>) -> (res: Option<Name>)
    ensures
        opt_name_view(res) == opt_name_view(*n),
{
    match n {
        Some(n) => Some(n.clone()),
        None => None,
    }
}

fn clone_type(t: &Option<TypeRef>) -> (res: Option<TypeRef>)
    ensures
        opt_type_ref_view(res) == opt_type_ref_view(*t),
{
    match t {
        Some(t) => Some(t.clone()),
        None => None,
    }
}

/// The data of a macro.
#[derive(Debug)]
pub struct MacroData {
    pub name: Name,
    pub deprecated: bool,
}

impl MacroData {
    /// The data of the macro `id`, as its item tree holds it.
    pub fn macro_data_query<D: ItemDataDatabase>(db: &D, id: MacroId) -> (res: Arc<MacroData>)
        requires
            db.spec_lookup_macro(id).value < db.spec_item_tree(db.spec_lookup_macro(id).tree).macros.len(),
        ensures
            ({
                let loc = db.spec_lookup_macro(id);
                let m = db.spec_item_tree(loc.tree).macros@[loc.value as int];
                res.name@ == m.name@ && res.deprecated == m.deprecated
            }),
    {
        let loc = db.lookup_macro(id);
        let tree = db.item_tree(loc.tree);
        let m = &tree.macros[loc.value];
        Arc::new(MacroData { name: m.name.clone(), deprecated: m.deprecated })
    }
}

/// The data of a typedef.
#[derive(Debug)]
pub struct TypedefData {
    pub name: Option<Name>,
    pub type_ref: TypeRef,
    pub deprecated: bool,
}

impl TypedefData {
    /// The data of the typedef `id`, as its item tree holds it.
    pub fn typedef_data_query<D: ItemDataDatabase>(db: &D, id: TypedefId) -> (res: Arc<TypedefData>)
        requires
            db.spec_lookup_typedef(id).value < db.spec_item_tree(db.spec_lookup_typedef(id).tree).typedefs.len(),
        ensures
            ({
                let loc = db.spec_lookup_typedef(id);
                let d = db.spec_item_tree(loc.tree).typedefs@[loc.value as int];
                opt_name_view(res.name) == opt_name_view(d.name) && res.type_ref@ == d.type_ref@ && res.deprecated
                    == d.deprecated
            }),
    {
        let loc = db.lookup_typedef(id);
        let tree = db.item_tree(loc.tree);
        let d = &tree.typedefs[loc.value];
        Arc::new(TypedefData { name: clone_name(&d.name), type_ref: d.type_ref.clone(), deprecated: d.deprecated })
    }

    pub fn name(&self) -> (res: Option<Name>)
        ensures
            opt_name_view(res) == opt_name_view(self.name),
    {
        clone_name(&self.name)
    }
}

/// The data of a typeset: its typedefs by id.
#[derive(Debug)]
pub struct TypesetData {
    pub name: Name,
    pub typedefs: Vec<TypedefId>,
    pub deprecated: bool,
}

impl TypesetData {
    /// The data of the typeset `id`: each typedef of its range interned with
    /// the typeset as container.
    pub fn typeset_data_query<D: ItemDataDatabase>(db: &D, id: TypesetId) -> (res: Arc<TypesetData>)
        requires
            db.spec_lookup_typeset(id).value < db.spec_item_tree(db.spec_lookup_typeset(id).tree).typesets.len(),
        ensures
            ({
                let loc = db.spec_lookup_typeset(id);
                let s = db.spec_item_tree(loc.tree).typesets@[loc.value as int];
                &&& res.name@ == s.name@
                &&& res.deprecated == s.deprecated
                &&& res.typedefs.len() == s.typedefs.end - s.typedefs.start
                &&& forall|k: int|
                    0 <= k < res.typedefs.len() ==> #[trigger] res.typedefs@[k] == db.spec_intern_typedef(
                        ItemLoc {
                            container: ItemContainerId::TypesetId(id),
                            tree: loc.tree,
                            value: (s.typedefs.start + k) as usize,
                        },
                    )
            }),
    {
        let loc = db.lookup_typeset(id);
        let tree = db.item_tree(loc.tree);
        let s = &tree.typesets[loc.value];
        let mut typedefs: Vec<TypedefId> = Vec::new();
        let mut i: usize = s.typedefs.start;
        while i < s.typedefs.end
            invariant
                s.typedefs.start <= i <= s.typedefs.end,
                typedefs.len() == i - s.typedefs.start,
                forall|k: int|
                    0 <= k < typedefs.len() ==> #[trigger] typedefs@[k] == db.spec_intern_typedef(
                        ItemLoc { container: ItemContainerId::TypesetId(id), tree: loc.tree, value: (s.typedefs.start + k) as usize },
                    ),
            decreases s.typedefs.end - i,
        {
            let t = db.intern_typedef(ItemLoc { container: ItemContainerId::TypesetId(id), tree: loc.tree, value: i });
            typedefs.push(t);
            i = i + 1;
        }
        Arc::new(TypesetData { name: s.name.clone(), typedefs, deprecated: s.deprecated })
    }
}

/// The data of a functag.
#[derive(Debug)]
pub struct FunctagData {
    pub name: Option<Name>,
    pub type_ref: Option<TypeRef>,
    pub deprecated: bool,
}

impl FunctagData {
    /// The data of the functag `id`, as its item tree holds it.
    pub fn functag_data_query<D: ItemDataDatabase>(db: &D, id: FunctagId) -> (res: Arc<FunctagData>)
        requires
            db.spec_lookup_functag(id).value < db.spec_item_tree(db.spec_lookup_functag(id).tree).functags.len(),
        ensures
            ({
                let loc = db.spec_lookup_functag(id);
                let f = db.spec_item_tree(loc.tree).functags@[loc.value as int];
                opt_name_view(res.name) == opt_name_view(f.name) && opt_type_ref_view(res.type_ref) == opt_type_ref_view(
                    f.type_ref,
                ) && res.deprecated == f.deprecated
            }),
    {
        let loc = db.lookup_functag(id);
        let tree = db.item_tree(loc.tree);
        let f = &tree.functags[loc.value];
        Arc::new(FunctagData { name: clone_name(&f.name), type_ref: clone_type(&f.type_ref), deprecated: f.deprecated })
    }

    pub fn name(&self) -> (res: Option<Name>)
        ensures
            opt_name_view(res) == opt_name_view(self.name),
    {
        clone_name(&self.name)
    }
}

/// The data of a funcenum: its functags by id.
#[derive(Debug)]
pub struct FuncenumData {
    pub name: Name,
    pub functags: Vec<FunctagId>,
    pub deprecated: bool,
}

impl FuncenumData {
    /// The data of the funcenum `id`: each functag of its range interned with
    /// the funcenum as container.
    pub fn funcenum_data_query<D: ItemDataDatabase>(db: &D, id: FuncenumId) -> (res: Arc<FuncenumData>)
        requires
            db.spec_lookup_funcenum(id).value < db.spec_item_tree(db.spec_lookup_funcenum(id).tree).funcenums.len(),
        ensures
            ({
                let loc = db.spec_lookup_funcenum(id);
                let f = db.spec_item_tree(loc.tree).funcenums@[loc.value as int];
                &&& res.name@ == f.name@
                &&& res.deprecated == f.deprecated
                &&& res.functags.len() == f.functags.end - f.functags.start
                &&& forall|k: int|
                    0 <= k < res.functags.len() ==> #[trigger] res.functags@[k] == db.spec_intern_functag(
                        ItemLoc {
                            container: ItemContainerId::FuncenumId(id),
                            tree: loc.tree,
                            value: (f.functags.start + k) as usize,
                        },
                    )
            }),
    {
        let loc = db.lookup_funcenum(id);
        let tree = db.item_tree(loc.tree);
        let f = &tree.funcenums[loc.value];
        let mut functags: Vec<FunctagId> = Vec::new();
        let mut i: usize = f.functags.start;
        while i < f.functags.end
            invariant
                f.functags.start <= i <= f.functags.end,
                functags.len() == i - f.functags.start,
                forall|k: int|
                    0 <= k < functags.len() ==> #[trigger] functags@[k] == db.spec_intern_functag(
                        ItemLoc { container: ItemContainerId::FuncenumId(id), tree: loc.tree, value: (f.functags.start + k) as usize },
                    ),
            decreases f.functags.end - i,
        {
            let t = db.intern_functag(ItemLoc { container: ItemContainerId::FuncenumId(id), tree: loc.tree, value: i });
            functags.push(t);
            i = i + 1;
        }
        Arc::new(FuncenumData { name: f.name.clone(), functags, deprecated: f.deprecated })
    }
}

/// The data of an enum variant.
#[derive(Debug)]
pub struct VariantData {
    pub name: Name,
    pub deprecated: bool,
}

impl VariantData {
    /// The data of the variant `id`, as its item tree holds it.
    pub fn variant_data_query<D: ItemDataDatabase>(db: &D, id: VariantId) -> (res: Arc<VariantData>)
        requires
            db.spec_lookup_variant(id).value < db.spec_item_tree(db.spec_lookup_variant(id).tree).variants.len(),
        ensures
            ({
                let loc = db.spec_lookup_variant(id);
                let v = db.spec_item_tree(loc.tree).variants@[loc.value as int];
                res.name@ == v.name@ && res.deprecated == v.deprecated
            }),
    {
        let loc = db.lookup_variant(id);
        let tree = db.item_tree(loc.tree);
        let v = &tree.variants[loc.value];
        Arc::new(VariantData { name: v.name.clone(), deprecated: v.deprecated })
    }
}

/// The data of an enum: its variants, and the index of each variant by name.
#[derive(Debug)]
pub struct EnumData {
    pub name: Name,
    pub variants: Vec<VariantData>,
    pub variants_map: NameMap,
    pub deprecated: bool,
}

impl EnumData {
    /// The data of the enum `id`: its variants in order; a name declared twice
    /// maps to its last variant.
    pub fn enum_data_query<D: ItemDataDatabase>(db: &D, id: EnumId) -> (res: Arc<EnumData>)
        requires
            db.spec_lookup_enum(id).value < db.spec_item_tree(db.spec_lookup_enum(id).tree).enums.len(),
            db.spec_item_tree(db.spec_lookup_enum(id).tree).enums@[db.spec_lookup_enum(id).value as int].variants.within(
                db.spec_item_tree(db.spec_lookup_enum(id).tree).variants.len() as nat,
            ),
        ensures
            ({
                let loc = db.spec_lookup_enum(id);
                let tree = db.spec_item_tree(loc.tree);
                let e = tree.enums@[loc.value as int];
                &&& res.name@ == e.name@
                &&& res.deprecated == e.deprecated
                &&& res.variants.len() == e.variants.end - e.variants.start
                &&& forall|k: int|
                    0 <= k < res.variants.len() ==> (#[trigger] res.variants@[k]).name@ == tree.variants@[e.variants.start
                        + k].name@ && res.variants@[k].deprecated == tree.variants@[e.variants.start + k].deprecated
                &&& forall|k: int|
                    0 <= k < res.variants.len() ==> res.variants_map.spec_get(#[trigger] res.variants@[k].name@) is Some
            }),
    {
        let loc = db.lookup_enum(id);
        let tree = db.item_tree(loc.tree);
        let e = &tree.enums[loc.value];
        let mut variants: Vec<VariantData> = Vec::new();
        let mut variants_map = NameMap::new();
        let mut i: usize = e.variants.start;
        while i < e.variants.end
            invariant
                e.variants.start <= i <= e.variants.end,
                e.variants.end <= tree.variants.len(),
                variants.len() == i - e.variants.start,
                forall|k: int|
                    0 <= k < variants.len() ==> (#[trigger] variants@[k]).name@ == tree.variants@[e.variants.start + k].name@
                        && variants@[k].deprecated == tree.variants@[e.variants.start + k].deprecated,
                forall|k: int| 0 <= k < variants.len() ==> variants_map.spec_get(#[trigger] variants@[k].name@) is Some,
            decreases e.variants.end - i,
        {
            let v = &tree.variants[i];
            let idx = variants.len();
            variants.push(VariantData { name: v.name.clone(), deprecated: v.deprecated });
            variants_map.insert(v.name.clone(), idx);
            i = i + 1;
        }
        Arc::new(EnumData { name: e.name.clone(), variants, variants_map, deprecated: e.deprecated })
    }
}

/// The data of a global variable.
#[derive(Debug)]
pub struct GlobalData {
    pub name: Name,
    pub type_ref: Option<TypeRef>,
    pub visibility: RawVisibilityId,
}

impl GlobalData {
    /// The data of the global `id`, as its item tree holds it.
    pub fn global_data_query<D: ItemDataDatabase>(db: &D, id: GlobalId) -> (res: Arc<GlobalData>)
        requires
            db.spec_lookup_global(id).value < db.spec_item_tree(db.spec_lookup_global(id).tree).variables.len(),
        ensures
            ({
                let loc = db.spec_lookup_global(id);
                let v = db.spec_item_tree(loc.tree).variables@[loc.value as int];
                res.name@ == v.name@ && opt_type_ref_view(res.type_ref) == opt_type_ref_view(v.type_ref) && res.visibility
                    == v.visibility
            }),
    {
        let loc = db.lookup_global(id);
        let tree = db.item_tree(loc.tree);
        let v = &tree.variables[loc.value];
        Arc::new(GlobalData { name: v.name.clone(), type_ref: clone_type(&v.type_ref), visibility: v.visibility })
    }

    pub fn name(&self) -> (res: &Name)
        ensures
            res == &self.name,
    {
        &self.name
    }
}

/// The data of a field of a struct.
#[derive(Debug)]
pub struct StructFieldData {
    pub name: Name,
    pub type_ref: TypeRef,
    pub const_: bool,
    pub deprecated: bool,
}

/// The data of a struct: its fields, in order.
#[derive(Debug)]
pub struct StructData {
    pub name: Name,
    pub fields: Vec<StructFieldData>,
    pub deprecated: bool,
}

/// The index of the first field of `fields` named `name`.
pub open spec fn field_named(fields: Seq<StructFieldData>, name: Seq<char>) -> Option<int> {
    if exists|k: int| 0 <= k < fields.len() && (#[trigger] fields[k]).name@ == name {
        Some(choose|k: int| 0 <= k < fields.len() && (#[trigger] fields[k]).name@ == name
            && forall|j: int| 0 <= j < k ==> (#[trigger] fields[j]).name@ != name)
    } else {
        None
    }
}

impl StructData {
    /// The data of the struct `id`: its name, and each field of its range
    /// of the item tree.
    pub fn struct_data_query<D: ItemDataDatabase>(db: &D, id: StructId) -> (res: Arc<StructData>)
        requires
            db.spec_lookup_struct(id).value < db.spec_item_tree(db.spec_lookup_struct(id).tree).structs.len(),
        ensures
            ({
                let loc = db.spec_lookup_struct(id);
                let tree = db.spec_item_tree(loc.tree);
                let s = tree.structs@[loc.value as int];
                &&& res.name@ == s.name@
                &&& res.deprecated == s.deprecated
                &&& res.fields.len() == s.fields.end - s.fields.start
                &&& forall|k: int| 0 <= k < res.fields.len() ==> {
                    let f = tree.struct_fields@[s.fields.start + k];
                    &&& (#[trigger] res.fields@[k]).name@ == f.name@
                    &&& res.fields@[k].type_ref@ == f.type_ref@
                    &&& res.fields@[k].const_ == f.const_
                    &&& res.fields@[k].deprecated == f.deprecated
                }
            }),
    {
        let loc = db.lookup_struct(id);
        let tree = db.item_tree(loc.tree);
        let s = &tree.structs[loc.value];
        assert(s.fields.within(tree.struct_fields.len() as nat));
        let mut fields: Vec<StructFieldData> = Vec::new();
        let mut i: usize = s.fields.start;
        while i < s.fields.end
            invariant
                s.fields.start <= i <= s.fields.end <= tree.struct_fields.len(),
                fields.len() == i - s.fields.start,
                forall|k: int| 0 <= k < fields.len() ==> {
                    let f = tree.struct_fields@[s.fields.start + k];
                    &&& (#[trigger] fields@[k]).name@ == f.name@
                    &&& fields@[k].type_ref@ == f.type_ref@
                    &&& fields@[k].const_ == f.const_
                    &&& fields@[k].deprecated == f.deprecated
                },
            decreases s.fields.end - i,
        {
            let f = &tree.struct_fields[i];
            fields.push(StructFieldData { name: f.name.clone(), type_ref: f.type_ref.clone(), const_: f.const_, deprecated: f.deprecated });
            i = i + 1;
        }
        Arc::new(StructData { name: s.name.clone(), fields, deprecated: s.deprecated })
    }

    pub fn name(&self) -> (res: Name)
        ensures
            res@ == self.name@,
    {
        self.name.clone()
    }

    /// The field at index `item`.
    pub fn field(&self, item: usize) -> (res: &StructFieldData)
        requires
            item < self.fields.len(),
        ensures
            *res == self.fields@[item as int],
    {
        &self.fields[item]
    }

    /// The index of the first field named `name`.
    pub fn field_by_name(&self, name: &str) -> (res: Option<usize>)
        ensures
            match res {
                Some(i) => field_named(self.fields@, name@) == Some(i as int),
                None => field_named(self.fields@, name@) is None,
            },
    {
        let n = Name::from_str(name);
        let mut i: usize = 0;
        while i < self.fields.len()
            invariant
                0 <= i <= self.fields.len(),
                n@ == name@,
                forall|j: int| 0 <= j < i ==> (#[trigger] self.fields@[j]).name@ != name@,
            decreases self.fields.len() - i,
        {
            if self.fields[i].name.same_as(&n) {
                proof {
                    let fs = self.fields@;
                    assert(0 <= i < fs.len() && fs[i as int].name@ == name@ && forall|j: int| 0 <= j < i ==> (#[trigger] fs[j]).name@ != name@);
                    let k = choose|k: int| 0 <= k < fs.len() && (#[trigger] fs[k]).name@ == name@
                        && forall|j: int| 0 <= j < k ==> (#[trigger] fs[j]).name@ != name@;
                    if k < i {
                        assert(fs[k].name@ != name@);
                    } else if k > i {
                        assert(fs[i as int].name@ != name@);
                    }
                }
                return Some(i);
            }
            i = i + 1;
        }
        None
    }
}

} // verus!
