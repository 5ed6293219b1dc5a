//! What a name in the source resolves to, as the editor features see it, and
//! the file that declares it.
use vstd::prelude::*;
use crate::base_db::FileId;
use crate::child_by_source::PropertyDatabase;
use crate::infer::FieldId;
use crate::hir::{ExprId, Name};
use crate::ids::{
    DefWithBodyId, EnumId, EnumStructId, FuncenumId, FunctagId, FunctionId, GlobalId, MacroId, MethodmapId,
    PropertyId, StructId, TypedefId, TypesetId, VariantId,
};
use crate::resolver::{ValueNs, ValueNsView};

verus! {

/// A local binding: the definition whose body holds it and its binding
/// expression.
#[derive(Debug, Clone, Copy, PartialEq, Eq, Structural, Hash)]
pub struct Local {
    pub parent: DefWithBodyId,
    pub expr_id: ExprId,
}

/// A definition that a name resolves to.
#[derive(Debug)]
pub enum DefResolution {
    Function(FunctionId),
    Macro(MacroId),
    EnumStruct(EnumStructId),
    Methodmap(MethodmapId),
    Property(PropertyId),
    Enum(EnumId),
    Variant(VariantId),
    Typedef(TypedefId),
    Typeset(TypesetId),
    Functag(FunctagId),
    Funcenum(FuncenumId),
    Struct(StructId),
    Field(FieldId),
    Global(GlobalId),
    /// A local binding, with the name it was reached by, if any.
    Local((Option<Name>, Local)),
    File(FileId),
}

/// A [`DefResolution`] as plain values: the name of a local by its text.
pub enum DefResolutionView {
    Function(FunctionId),
    Macro(MacroId),
    EnumStruct(EnumStructId),
    Methodmap(MethodmapId),
    Property(PropertyId),
    Enum(EnumId),
    Variant(VariantId),
    Typedef(TypedefId),
    Typeset(TypesetId),
    Functag(FunctagId),
    Funcenum(FuncenumId),
    Struct(StructId),
    Field(FieldId),
    Global(GlobalId),
    Local(Option<Seq<char>>, Local),
    File(FileId),
}

impl View for DefResolution {
    type V = DefResolutionView;

    open spec fn view(&self) -> DefResolutionView {
        match self {
            DefResolution::Function(it) => DefResolutionView::Function(*it),
            DefResolution::Macro(it) => DefResolutionView::Macro(*it),
            DefResolution::EnumStruct(it) => DefResolutionView::EnumStruct(*it),
            DefResolution::Methodmap(it) => DefResolutionView::Methodmap(*it),
            DefResolution::Property(it) => DefResolutionView::Property(*it),
            DefResolution::Enum(it) => DefResolutionView::Enum(*it),
            DefResolution::Variant(it) => DefResolutionView::Variant(*it),
            DefResolution::Typedef(it) => DefResolutionView::Typedef(*it),
            DefResolution::Typeset(it) => DefResolutionView::Typeset(*it),
            DefResolution::Functag(it) => DefResolutionView::Functag(*it),
            DefResolution::Funcenum(it) => DefResolutionView::Funcenum(*it),
            DefResolution::Struct(it) => DefResolutionView::Struct(*it),
            DefResolution::Field(it) => DefResolutionView::Field(*it),
            DefResolution::Global(it) => DefResolutionView::Global(*it),
            DefResolution::Local((n, l)) => DefResolutionView::Local(
                match n {
                    Some(n) => Some(n@),
                    None => None,
                },
                *l,
            ),
            DefResolution::File(it) => DefResolutionView::File(*it),
        }
    }
}

/// The definition that the value `v` denotes: for functions, the first of
/// them; `None` when there is none.
pub open spec fn spec_try_from(v: ValueNsView) -> Option<DefResolutionView> {
    match v {
        ValueNsView::FunctionId(ids) => if ids.len() > 0 {
            Some(DefResolutionView::Function(ids[0].value))
        } else {
            None
        },
        ValueNsView::LocalId(name, id, expr) => Some(DefResolutionView::Local(name, Local { parent: id, expr_id: expr })),
        ValueNsView::MacroId(id) => Some(DefResolutionView::Macro(id.value)),
        ValueNsView::GlobalId(id) => Some(DefResolutionView::Global(id.value)),
        ValueNsView::EnumStructId(id) => Some(DefResolutionView::EnumStruct(id.value)),
        ValueNsView::MethodmapId(id) => Some(DefResolutionView::Methodmap(id.value)),
        ValueNsView::EnumId(id) => Some(DefResolutionView::Enum(id.value)),
        ValueNsView::VariantId(id) => Some(DefResolutionView::Variant(id.value)),
        ValueNsView::TypedefId(id) => Some(DefResolutionView::Typedef(id.value)),
        ValueNsView::TypesetId(id) => Some(DefResolutionView::Typeset(id.value)),
        ValueNsView::FunctagId(id) => Some(DefResolutionView::Functag(id.value)),
        ValueNsView::FuncenumId(id) => Some(DefResolutionView::Funcenum(id.value)),
        ValueNsView::StructId(id) => Some(DefResolutionView::Struct(id.value)),
    }
}

/// The file that declares the definition with a body `def`.
pub open spec fn body_file_id<D: PropertyDatabase>(db: &D, def: DefWithBodyId) -> FileId {
    match def {
        DefWithBodyId::FunctionId(it) => db.spec_lookup_function(it).tree.file,
        DefWithBodyId::TypedefId(it) => db.spec_lookup_typedef(it).tree.file,
        DefWithBodyId::FunctagId(it) => db.spec_lookup_functag(it).tree.file,
    }
}

/// The file that declares the definition `d`.
pub open spec fn spec_def_file_id<D: PropertyDatabase>(db: &D, d: DefResolutionView) -> FileId {
    match d {
        DefResolutionView::Function(it) => db.spec_lookup_function(it).tree.file,
        DefResolutionView::Macro(it) => db.spec_lookup_macro(it).tree.file,
        DefResolutionView::EnumStruct(it) => db.spec_lookup_enum_struct(it).tree.file,
        DefResolutionView::Methodmap(it) => db.spec_lookup_methodmap(it).tree.file,
        DefResolutionView::Property(it) => db.spec_lookup_property(it).tree.file,
        DefResolutionView::Enum(it) => db.spec_lookup_enum(it).tree.file,
        DefResolutionView::Variant(it) => db.spec_lookup_variant(it).tree.file,
        DefResolutionView::Typedef(it) => db.spec_lookup_typedef(it).tree.file,
        DefResolutionView::Typeset(it) => db.spec_lookup_typeset(it).tree.file,
        DefResolutionView::Functag(it) => db.spec_lookup_functag(it).tree.file,
        DefResolutionView::Funcenum(it) => db.spec_lookup_funcenum(it).tree.file,
        DefResolutionView::Struct(it) => db.spec_lookup_struct(it).tree.file,
        DefResolutionView::Field(it) => db.spec_lookup_enum_struct(it.parent).tree.file,
        DefResolutionView::Global(it) => db.spec_lookup_global(it).tree.file,
        DefResolutionView::Local(_, l) => body_file_id(db, l.parent),
        DefResolutionView::File(it) => it,
    }
}

impl DefWithBodyId {
    /// The file that declares this definition.
    pub fn file_id<D: PropertyDatabase>(&self, db: &D) -> (res: FileId)
        ensures
            res == body_file_id(db, *self),
    {
        match self {
            DefWithBodyId::FunctionId(it) => db.lookup_function(*it).tree.file,
            DefWithBodyId::TypedefId(it) => db.lookup_typedef(*it).tree.file,
            DefWithBodyId::FunctagId(it) => db.lookup_functag(*it).tree.file,
        }
    }
}

impl DefResolution {
    /// The definition that `value` denotes: for functions, the first of
    /// them; `None` when there is none.
    pub fn try_from(value: ValueNs) -> (res: Option<Self>)
        ensures
            match res {
                Some(d) => spec_try_from(value@) == Some(d@),
                None => spec_try_from(value@) is None,
            },
    {
        match value {
            ValueNs::FunctionId(ids) => {
                if ids.len() > 0 {
                    Some(DefResolution::Function(ids[0].value))
                } else {
                    None
                }
            },
            ValueNs::LocalId((name, id, expr)) => Some(DefResolution::Local((name, Local { parent: id, expr_id: expr }))),
            ValueNs::MacroId(id) => Some(DefResolution::Macro(id.value)),
            ValueNs::GlobalId(id) => Some(DefResolution::Global(id.value)),
            ValueNs::EnumStructId(id) => Some(DefResolution::EnumStruct(id.value)),
            ValueNs::MethodmapId(id) => Some(DefResolution::Methodmap(id.value)),
            ValueNs::EnumId(id) => Some(DefResolution::Enum(id.value)),
            ValueNs::VariantId(id) => Some(DefResolution::Variant(id.value)),
            ValueNs::TypedefId(id) => Some(DefResolution::Typedef(id.value)),
            ValueNs::TypesetId(id) => Some(DefResolution::Typeset(id.value)),
            ValueNs::FunctagId(id) => Some(DefResolution::Functag(id.value)),
            ValueNs::FuncenumId(id) => Some(DefResolution::Funcenum(id.value)),
            ValueNs::StructId(id) => Some(DefResolution::Struct(id.value)),
        }
    }

    /// The file that declares the definition.
    pub fn file_id<D: PropertyDatabase>(&self, db: &D) -> (res: FileId)
        ensures
            res == spec_def_file_id(db, self@),
    {
        match self {
            DefResolution::Function(it) => db.lookup_function(*it).tree.file,
            DefResolution::Macro(it) => db.lookup_macro(*it).tree.file,
            DefResolution::EnumStruct(it) => db.lookup_enum_struct(*it).tree.file,
            DefResolution::Methodmap(it) => db.lookup_methodmap(*it).tree.file,
            DefResolution::Property(it) => db.lookup_property(*it).tree.file,
            DefResolution::Enum(it) => db.lookup_enum(*it).tree.file,
            DefResolution::Variant(it) => db.lookup_variant(*it).tree.file,
            DefResolution::Typedef(it) => db.lookup_typedef(*it).tree.file,
            DefResolution::Typeset(it) => db.lookup_typeset(*it).tree.file,
            DefResolution::Functag(it) => db.lookup_functag(*it).tree.file,
            DefResolution::Funcenum(it) => db.lookup_funcenum(*it).tree.file,
            DefResolution::Struct(it) => db.lookup_struct(*it).tree.file,
            DefResolution::Field(it) => db.lookup_enum_struct(it.parent).tree.file,
            DefResolution::Global(it) => db.lookup_global(*it).tree.file,
            DefResolution::Local((_, l)) => l.parent.file_id(db),
            DefResolution::File(it) => *it,
        }
    }
}

} // verus!
