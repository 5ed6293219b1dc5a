//! The item tree of a file: its top-level items, each kind in an arena of its
//! own, with the names, types and members that the analysis reads.
use vstd::prelude::*;
use crate::data::{FunctionKind, RawVisibilityId, SpecialMethod};
use crate::hir::{opt_type_ref_view, Name, TypeRef, TypeRefView};

verus! {

/// The index of the syntax node of an item in its file.
pub type AstId = u32;

/// A range of indices `start..end` in an arena.
#[derive(Debug, Clone, Copy, PartialEq, Eq, Structural, Hash)]
pub struct IdxRange {
    pub start: usize,
    pub end: usize,
}

impl IdxRange {
    pub open spec fn within(self, len: nat) -> bool {
        self.start <= self.end && self.end <= len
    }
}

#[derive(Debug)]
pub struct Macro {
    pub name: Name,
    pub ast_id: AstId,
    pub deprecated: bool,
}

#[derive(Debug)]
pub struct Variable {
    pub name: Name,
    pub visibility: RawVisibilityId,
    pub type_ref: Option<TypeRef>,
    pub ast_id: AstId,
}

#[derive(Debug)]
pub struct Function {
    pub name: Name,
    pub kind: FunctionKind,
    pub visibility: RawVisibilityId,
    pub params: IdxRange,
    pub special: Option<SpecialMethod>,
    pub ret_type: Option<TypeRef>,
    pub ast_id: AstId,
    pub deprecated: bool,
}

#[derive(Debug)]
pub struct Param {
    pub has_default: bool,
    pub is_rest: bool,
    pub is_const: bool,
    pub type_ref: Option<TypeRef>,
    pub ast_id: AstId,
}

#[derive(Debug)]
pub struct Typedef {
    pub name: Option<Name>,
    pub params: IdxRange,
    pub type_ref: TypeRef,
    pub ast_id: AstId,
    pub deprecated: bool,
}

#[derive(Debug)]
pub struct Typeset {
    pub name: Name,
    pub typedefs: IdxRange,
    pub ast_id: AstId,
    pub deprecated: bool,
}

#[derive(Debug)]
pub struct Functag {
    pub name: Option<Name>,
    pub params: IdxRange,
    pub type_ref: Option<TypeRef>,
    pub ast_id: AstId,
    pub deprecated: bool,
}

#[derive(Debug)]
pub struct Funcenum {
    pub name: Name,
    pub functags: IdxRange,
    pub ast_id: AstId,
    pub deprecated: bool,
}

/// A member of an enum struct: a method (index of a function) or a field.
#[derive(Debug, Clone, Copy, PartialEq, Eq, Structural)]
pub enum EnumStructItemId {
    Method(usize),
    Field(usize),
}

#[derive(Debug)]
pub struct EnumStruct {
    pub name: Name,
    pub items: Vec<EnumStructItemId>,
    pub ast_id: AstId,
    pub deprecated: bool,
}

#[derive(Debug)]
pub struct Struct {
    pub name: Name,
    pub fields: IdxRange,
    pub ast_id: AstId,
    pub deprecated: bool,
}

/// A single field of a struct.
#[derive(Debug)]
pub struct StructField {
    pub name: Name,
    pub const_: bool,
    pub type_ref: TypeRef,
    pub ast_id: AstId,
    pub deprecated: bool,
}

/// A single field of an enum struct.
#[derive(Debug)]
pub struct Field {
    pub name: Name,
    pub type_ref: TypeRef,
    pub ast_id: AstId,
    pub deprecated: bool,
}

/// A member of a methodmap: a method (index of a function) or a property.
#[derive(Debug, Clone, Copy, PartialEq, Eq, Structural)]
pub enum MethodmapItemId {
    Method(usize),
    Property(usize),
}

#[derive(Debug)]
pub struct Property {
    pub name: Name,
    pub getters_setters: IdxRange,
    pub type_ref: TypeRef,
    pub ast_id: AstId,
    pub deprecated: bool,
}

#[derive(Debug)]
pub struct Methodmap {
    pub name: Name,
    pub items: Vec<MethodmapItemId>,
    pub inherits: Option<Name>,
    pub nullable: bool,
    pub ast_id: AstId,
    pub deprecated: bool,
}

#[derive(Debug)]
pub struct Enum {
    pub name: Name,
    pub variants: IdxRange,
    pub ast_id: AstId,
    pub deprecated: bool,
}

#[derive(Debug)]
pub struct Variant {
    pub name: Name,
    pub ast_id: AstId,
    pub deprecated: bool,
}

/// An item of a file, by kind and index in the arena of its kind.
#[derive(Debug, Clone, Copy, PartialEq, Eq, Structural)]
pub enum FileItem {
    Function(usize),
    Variable(usize),
    Macro(usize),
    EnumStruct(usize),
    Methodmap(usize),
    Property(usize),
    Enum(usize),
    Variant(usize),
    Typedef(usize),
    Typeset(usize),
    Functag(usize),
    Funcenum(usize),
    Struct(usize),
}

/// The item tree of a source file.
#[derive(Debug)]
pub struct ItemTree {
    pub top_level: Vec<FileItem>,
    pub functions: Vec<Function>,
    pub variables: Vec<Variable>,
    pub macros: Vec<Macro>,
    pub enum_structs: Vec<EnumStruct>,
    pub fields: Vec<Field>,
    pub methodmaps: Vec<Methodmap>,
    pub properties: Vec<Property>,
    pub params: Vec<Param>,
    pub enums: Vec<Enum>,
    pub typedefs: Vec<Typedef>,
    pub typesets: Vec<Typeset>,
    pub functags: Vec<Functag>,
    pub funcenums: Vec<Funcenum>,
    pub variants: Vec<Variant>,
    pub structs: Vec<Struct>,
    pub struct_fields: Vec<StructField>,
}

/// An optional name by its text.
pub open spec fn opt_name_view(n: Option<Name>) -> Option<Seq<char>> {
    match n {
        Some(n) => Some(n@),
        None => None,
    }
}

/// A `Macro` as plain values.
pub struct MacroView {
    pub name: Seq<char>,
    pub ast_id: AstId,
    pub deprecated: bool,
}

impl View for Macro {
    type V = MacroView;

    open spec fn view(&self) -> MacroView {
        MacroView {
            name: self.name@,
            ast_id: self.ast_id,
            deprecated: self.deprecated,
        }
    }
}

/// A `Variable` as plain values.
pub struct VariableView {
    pub name: Seq<char>,
    pub visibility: RawVisibilityId,
    pub type_ref: Option<TypeRefView>,
    pub ast_id: AstId,
}

impl View for Variable {
    type V = VariableView;

    open spec fn view(&self) -> VariableView {
        VariableView {
            name: self.name@,
            visibility: self.visibility,
            type_ref: opt_type_ref_view(self.type_ref),
            ast_id: self.ast_id,
        }
    }
}

/// A `Function` as plain values.
pub struct FunctionView {
    pub name: Seq<char>,
    pub kind: FunctionKind,
    pub visibility: RawVisibilityId,
    pub params: IdxRange,
    pub special: Option<SpecialMethod>,
    pub ret_type: Option<TypeRefView>,
    pub ast_id: AstId,
    pub deprecated: bool,
}

impl View for Function {
    type V = FunctionView;

    open spec fn view(&self) -> FunctionView {
        FunctionView {
            name: self.name@,
            kind: self.kind,
            visibility: self.visibility,
            params: self.params,
            special: self.special,
            ret_type: opt_type_ref_view(self.ret_type),
            ast_id: self.ast_id,
            deprecated: self.deprecated,
        }
    }
}

/// A `Param` as plain values.
pub struct ParamView {
    pub has_default: bool,
    pub is_rest: bool,
    pub is_const: bool,
    pub type_ref: Option<TypeRefView>,
    pub ast_id: AstId,
}

impl View for Param {
    type V = ParamView;

    open spec fn view(&self) -> ParamView {
        ParamView {
            has_default: self.has_default,
            is_rest: self.is_rest,
            is_const: self.is_const,
            type_ref: opt_type_ref_view(self.type_ref),
            ast_id: self.ast_id,
        }
    }
}

/// A `Typedef` as plain values.
pub struct TypedefView {
    pub name: Option<Seq<char>>,
    pub params: IdxRange,
    pub type_ref: TypeRefView,
    pub ast_id: AstId,
    pub deprecated: bool,
}

impl View for Typedef {
    type V = TypedefView;

    open spec fn view(&self) -> TypedefView {
        TypedefView {
            name: opt_name_view(self.name),
            params: self.params,
            type_ref: self.type_ref@,
            ast_id: self.ast_id,
            deprecated: self.deprecated,
        }
    }
}

/// A `Typeset` as plain values.
pub struct TypesetView {
    pub name: Seq<char>,
    pub typedefs: IdxRange,
    pub ast_id: AstId,
    pub deprecated: bool,
}

impl View for Typeset {
    type V = TypesetView;

    open spec fn view(&self) -> TypesetView {
        TypesetView {
            name: self.name@,
            typedefs: self.typedefs,
            ast_id: self.ast_id,
            deprecated: self.deprecated,
        }
    }
}

/// A `Functag` as plain values.
pub struct FunctagView {
    pub name: Option<Seq<char>>,
    pub params: IdxRange,
    pub type_ref: Option<TypeRefView>,
    pub ast_id: AstId,
    pub deprecated: bool,
}

impl View for Functag {
    type V = FunctagView;

    open spec fn view(&self) -> FunctagView {
        FunctagView {
            name: opt_name_view(self.name),
            params: self.params,
            type_ref: opt_type_ref_view(self.type_ref),
            ast_id: self.ast_id,
            deprecated: self.deprecated,
        }
    }
}

/// A `Funcenum` as plain values.
pub struct FuncenumView {
    pub name: Seq<char>,
    pub functags: IdxRange,
    pub ast_id: AstId,
    pub deprecated: bool,
}

impl View for Funcenum {
    type V = FuncenumView;

    open spec fn view(&self) -> FuncenumView {
        FuncenumView {
            name: self.name@,
            functags: self.functags,
            ast_id: self.ast_id,
            deprecated: self.deprecated,
        }
    }
}

/// A `EnumStruct` as plain values.
pub struct EnumStructView {
    pub name: Seq<char>,
    pub items: Seq<EnumStructItemId>,
    pub ast_id: AstId,
    pub deprecated: bool,
}

impl View for EnumStruct {
    type V = EnumStructView;

    open spec fn view(&self) -> EnumStructView {
        EnumStructView {
            name: self.name@,
            items: self.items@,
            ast_id: self.ast_id,
            deprecated: self.deprecated,
        }
    }
}

/// A `Struct` as plain values.
pub struct StructView {
    pub name: Seq<char>,
    pub fields: IdxRange,
    pub ast_id: AstId,
    pub deprecated: bool,
}

impl View for Struct {
    type V = StructView;

    open spec fn view(&self) -> StructView {
        StructView {
            name: self.name@,
            fields: self.fields,
            ast_id: self.ast_id,
            deprecated: self.deprecated,
        }
    }
}

/// A `StructField` as plain values.
pub struct StructFieldView {
    pub name: Seq<char>,
    pub const_: bool,
    pub type_ref: TypeRefView,
    pub ast_id: AstId,
    pub deprecated: bool,
}

impl View for StructField {
    type V = StructFieldView;

    open spec fn view(&self) -> StructFieldView {
        StructFieldView {
            name: self.name@,
            const_: self.const_,
            type_ref: self.type_ref@,
            ast_id: self.ast_id,
            deprecated: self.deprecated,
        }
    }
}

/// A `Field` as plain values.
pub struct FieldView {
    pub name: Seq<char>,
    pub type_ref: TypeRefView,
    pub ast_id: AstId,
    pub deprecated: bool,
}

impl View for Field {
    type V = FieldView;

    open spec fn view(&self) -> FieldView {
        FieldView {
            name: self.name@,
            type_ref: self.type_ref@,
            ast_id: self.ast_id,
            deprecated: self.deprecated,
        }
    }
}

/// A `Property` as plain values.
pub struct PropertyView {
    pub name: Seq<char>,
    pub getters_setters: IdxRange,
    pub type_ref: TypeRefView,
    pub ast_id: AstId,
    pub deprecated: bool,
}

impl View for Property {
    type V = PropertyView;

    open spec fn view(&self) -> PropertyView {
        PropertyView {
            name: self.name@,
            getters_setters: self.getters_setters,
            type_ref: self.type_ref@,
            ast_id: self.ast_id,
            deprecated: self.deprecated,
        }
    }
}

/// A `Methodmap` as plain values.
pub struct MethodmapView {
    pub name: Seq<char>,
    pub items: Seq<MethodmapItemId>,
    pub inherits: Option<Seq<char>>,
    pub nullable: bool,
    pub ast_id: AstId,
    pub deprecated: bool,
}

impl View for Methodmap {
    type V = MethodmapView;

    open spec fn view(&self) -> MethodmapView {
        MethodmapView {
            name: self.name@,
            items: self.items@,
            inherits: opt_name_view(self.inherits),
            nullable: self.nullable,
            ast_id: self.ast_id,
            deprecated: self.deprecated,
        }
    }
}

/// A `Enum` as plain values.
pub struct EnumView {
    pub name: Seq<char>,
    pub variants: IdxRange,
    pub ast_id: AstId,
    pub deprecated: bool,
}

impl View for Enum {
    type V = EnumView;

    open spec fn view(&self) -> EnumView {
        EnumView {
            name: self.name@,
            variants: self.variants,
            ast_id: self.ast_id,
            deprecated: self.deprecated,
        }
    }
}

/// A `Variant` as plain values.
pub struct VariantView {
    pub name: Seq<char>,
    pub ast_id: AstId,
    pub deprecated: bool,
}

impl View for Variant {
    type V = VariantView;

    open spec fn view(&self) -> VariantView {
        VariantView {
            name: self.name@,
            ast_id: self.ast_id,
            deprecated: self.deprecated,
        }
    }
}

/// An item tree as plain values: its top-level items and each arena.
pub struct ItemTreeView {
    pub top_level: Seq<FileItem>,
    pub functions: Seq<FunctionView>,
    pub variables: Seq<VariableView>,
    pub macros: Seq<MacroView>,
    pub enum_structs: Seq<EnumStructView>,
    pub fields: Seq<FieldView>,
    pub methodmaps: Seq<MethodmapView>,
    pub properties: Seq<PropertyView>,
    pub params: Seq<ParamView>,
    pub enums: Seq<EnumView>,
    pub typedefs: Seq<TypedefView>,
    pub typesets: Seq<TypesetView>,
    pub functags: Seq<FunctagView>,
    pub funcenums: Seq<FuncenumView>,
    pub variants: Seq<VariantView>,
    pub structs: Seq<StructView>,
    pub struct_fields: Seq<StructFieldView>,
}

impl View for ItemTree {
    type V = ItemTreeView;

    open spec fn view(&self) -> ItemTreeView {
        ItemTreeView {
            top_level: self.top_level@,
            functions: self.functions@.map_values(|x: Function| x@),
            variables: self.variables@.map_values(|x: Variable| x@),
            macros: self.macros@.map_values(|x: Macro| x@),
            enum_structs: self.enum_structs@.map_values(|x: EnumStruct| x@),
            fields: self.fields@.map_values(|x: Field| x@),
            methodmaps: self.methodmaps@.map_values(|x: Methodmap| x@),
            properties: self.properties@.map_values(|x: Property| x@),
            params: self.params@.map_values(|x: Param| x@),
            enums: self.enums@.map_values(|x: Enum| x@),
            typedefs: self.typedefs@.map_values(|x: Typedef| x@),
            typesets: self.typesets@.map_values(|x: Typeset| x@),
            functags: self.functags@.map_values(|x: Functag| x@),
            funcenums: self.funcenums@.map_values(|x: Funcenum| x@),
            variants: self.variants@.map_values(|x: Variant| x@),
            structs: self.structs@.map_values(|x: Struct| x@),
            struct_fields: self.struct_fields@.map_values(|x: StructField| x@),
        }
    }
}

/// The view of an item tree with no item.
pub open spec fn empty_tree_view() -> ItemTreeView {
    ItemTreeView {
        top_level: seq![],
        functions: seq![],
        variables: seq![],
        macros: seq![],
        enum_structs: seq![],
        fields: seq![],
        methodmaps: seq![],
        properties: seq![],
        params: seq![],
        enums: seq![],
        typedefs: seq![],
        typesets: seq![],
        functags: seq![],
        funcenums: seq![],
        variants: seq![],
        structs: seq![],
        struct_fields: seq![],
    }
}

impl ItemTree {
    /// Whether the index of `item` is in the arena of its kind.
    pub open spec fn has_item(&self, item: FileItem) -> bool {
        match item {
            FileItem::Function(i) => i < self.functions.len(),
            FileItem::Variable(i) => i < self.variables.len(),
            FileItem::Macro(i) => i < self.macros.len(),
            FileItem::EnumStruct(i) => i < self.enum_structs.len(),
            FileItem::Methodmap(i) => i < self.methodmaps.len(),
            FileItem::Property(i) => i < self.properties.len(),
            FileItem::Enum(i) => i < self.enums.len(),
            FileItem::Variant(i) => i < self.variants.len(),
            FileItem::Typedef(i) => i < self.typedefs.len(),
            FileItem::Typeset(i) => i < self.typesets.len(),
            FileItem::Functag(i) => i < self.functags.len(),
            FileItem::Funcenum(i) => i < self.funcenums.len(),
            FileItem::Struct(i) => i < self.structs.len(),
        }
    }

    /// The indices that the tree holds refer to entries of its arenas.
    pub open spec fn wf(&self) -> bool {
        &&& forall|k: int| 0 <= k < self.top_level.len() ==> self.has_item(#[trigger] self.top_level@[k])
        &&& forall|k: int|
            0 <= k < self.enums.len() ==> (#[trigger] self.enums@[k]).variants.within(self.variants.len() as nat)
        &&& forall|k: int|
            0 <= k < self.functions.len() ==> (#[trigger] self.functions@[k]).params.within(self.params.len() as nat)
        &&& forall|k: int|
            0 <= k < self.properties.len() ==> (#[trigger] self.properties@[k]).getters_setters.within(
                self.functions.len() as nat,
            )
        &&& forall|k: int, j: int|
            0 <= k < self.methodmaps.len() && 0 <= j < self.methodmaps@[k].items.len() ==> match #[trigger] self.methodmaps@[k].items@[j] {
                MethodmapItemId::Method(f) => f < self.functions.len(),
                MethodmapItemId::Property(p) => p < self.properties.len(),
            }
        &&& forall|k: int, j: int|
            0 <= k < self.enum_structs.len() && 0 <= j < self.enum_structs@[k].items.len() ==> match #[trigger] self.enum_structs@[k].items@[j] {
                EnumStructItemId::Method(f) => f < self.functions.len(),
                EnumStructItemId::Field(f) => f < self.fields.len(),
            }
        &&& forall|k: int|
            0 <= k < self.typedefs.len() ==> (#[trigger] self.typedefs@[k]).params.within(self.params.len() as nat)
        &&& forall|k: int|
            0 <= k < self.functags.len() ==> (#[trigger] self.functags@[k]).params.within(self.params.len() as nat)
        &&& forall|k: int|
            0 <= k < self.typesets.len() ==> (#[trigger] self.typesets@[k]).typedefs.within(self.typedefs.len() as nat)
        &&& forall|k: int|
            0 <= k < self.funcenums.len() ==> (#[trigger] self.funcenums@[k]).functags.within(self.functags.len() as nat)
        &&& forall|k: int|
            0 <= k < self.structs.len() ==> (#[trigger] self.structs@[k]).fields.within(self.struct_fields.len() as nat)
    }

    /// An item tree with no item.
    pub fn new() -> (res: Self)
        ensures
            res.wf(),
            res.top_level@.len() == 0,
            res@ == empty_tree_view(),
    {
        let res = ItemTree {
            top_level: Vec::new(),
            functions: Vec::new(),
            variables: Vec::new(),
            macros: Vec::new(),
            enum_structs: Vec::new(),
            fields: Vec::new(),
            methodmaps: Vec::new(),
            properties: Vec::new(),
            params: Vec::new(),
            enums: Vec::new(),
            typedefs: Vec::new(),
            typesets: Vec::new(),
            functags: Vec::new(),
            funcenums: Vec::new(),
            variants: Vec::new(),
            structs: Vec::new(),
            struct_fields: Vec::new(),
        };
        proof {
            assert(res@.functions =~= empty_tree_view().functions);
            assert(res@.variables =~= empty_tree_view().variables);
            assert(res@.macros =~= empty_tree_view().macros);
            assert(res@.enum_structs =~= empty_tree_view().enum_structs);
            assert(res@.fields =~= empty_tree_view().fields);
            assert(res@.methodmaps =~= empty_tree_view().methodmaps);
            assert(res@.properties =~= empty_tree_view().properties);
            assert(res@.params =~= empty_tree_view().params);
            assert(res@.enums =~= empty_tree_view().enums);
            assert(res@.typedefs =~= empty_tree_view().typedefs);
            assert(res@.typesets =~= empty_tree_view().typesets);
            assert(res@.functags =~= empty_tree_view().functags);
            assert(res@.funcenums =~= empty_tree_view().funcenums);
            assert(res@.variants =~= empty_tree_view().variants);
            assert(res@.structs =~= empty_tree_view().structs);
            assert(res@.struct_fields =~= empty_tree_view().struct_fields);
        }
        res
    }

    /// The items at the top level of the file, in source order.
    pub fn top_level_items(&self) -> (res: &[FileItem])
        ensures
            res@ == self.top_level@,
    {
        self.top_level.as_slice()
    }
}

} // verus!
