//! The definitions of a file as the analysis presents them: which of them
//! have a body, what kind of function a function is, and the symbol kinds.
use vstd::prelude::*;
use crate::data::DataDatabase;
use crate::ids::{
    DefWithBodyId, EnumId, EnumStructId, FuncenumId, FunctagId, FunctionId, GlobalId, ItemContainerId, MacroId, MethodmapId,
    TypedefId, TypesetId, VariantId,
};

verus! {

/// The role of a function in its container.
#[derive(Debug, Clone, Copy, PartialEq, Eq, Structural, Hash)]
pub enum FunctionType {
    Function,
    Method,
    Getter,
    Setter,
    Constructor,
    Destructor,
}

/// The kinds of symbols that the editor lists.
#[derive(Debug, Clone, Copy, PartialEq, Eq, Structural, Hash)]
pub enum SymbolKind {
    Macro,
    Function,
    Forward,
    Native,
    Constructor,
    Destructor,
    Typedef,
    Typeset,
    Functag,
    Funcenum,
    Method,
    EnumStruct,
    Field,
    Methodmap,
    Property,
    Struct,
    Enum,
    Variant,
    Global,
    Local,
}

impl Default for SymbolKind {
    fn default() -> (res: Self)
        ensures
            res == SymbolKind::Macro,
    {
        SymbolKind::Macro
    }
}

/// The symbol kind of a function of type `ft`: getters and setters are methods.
pub open spec fn symbol_kind_of(ft: FunctionType) -> SymbolKind {
    match ft {
        FunctionType::Function => SymbolKind::Function,
        FunctionType::Constructor => SymbolKind::Constructor,
        FunctionType::Method => SymbolKind::Method,
        FunctionType::Getter => SymbolKind::Method,
        FunctionType::Setter => SymbolKind::Method,
        FunctionType::Destructor => SymbolKind::Destructor,
    }
}

impl From<FunctionType> for SymbolKind {
    fn from(ft: FunctionType) -> (res: Self) {
        match ft {
            FunctionType::Function => SymbolKind::Function,
            FunctionType::Constructor => SymbolKind::Constructor,
            FunctionType::Method => SymbolKind::Method,
            FunctionType::Getter => SymbolKind::Method,
            FunctionType::Setter => SymbolKind::Method,
            FunctionType::Destructor => SymbolKind::Destructor,
        }
    }
}

impl vstd::std_specs::convert::FromSpecImpl<FunctionType> for SymbolKind {
    open spec fn obeys_from_spec() -> bool {
        true
    }

    open spec fn from_spec(ft: FunctionType) -> SymbolKind {
        symbol_kind_of(ft)
    }
}

/// The defs which have a body.
#[derive(Debug, Clone, Copy, PartialEq, Eq, Structural, Hash)]
pub enum DefWithBody {
    Function(FunctionId),
    Typedef(TypedefId),
    Functag(FunctagId),
}

impl DefWithBody {
    pub open spec fn spec_id(self) -> DefWithBodyId {
        match self {
            DefWithBody::Function(f) => DefWithBodyId::FunctionId(f),
            DefWithBody::Typedef(t) => DefWithBodyId::TypedefId(t),
            DefWithBody::Functag(f) => DefWithBodyId::FunctagId(f),
        }
    }

    /// The id of the def.
    pub fn id(self) -> (res: DefWithBodyId)
        ensures
            res == self.spec_id(),
    {
        match self {
            DefWithBody::Function(f) => DefWithBodyId::FunctionId(f),
            DefWithBody::Typedef(t) => DefWithBodyId::TypedefId(t),
            DefWithBody::Functag(f) => DefWithBodyId::FunctagId(f),
        }
    }
}

/// The defs which can be visible in a file.
#[derive(Debug, Clone, Copy, PartialEq, Eq, Structural, Hash)]
pub enum FileDef {
    Function(FunctionId),
    Macro(MacroId),
    EnumStruct(EnumStructId),
    Methodmap(MethodmapId),
    Global(GlobalId),
    Enum(EnumId),
    Variant(VariantId),
    Typedef(TypedefId),
    Typeset(TypesetId),
    Functag(FunctagId),
    Funcenum(FuncenumId),
}

pub open spec fn spec_def_with_body(def: FileDef) -> Option<DefWithBody> {
    match def {
        FileDef::Function(it) => Some(DefWithBody::Function(it)),
        FileDef::Typedef(it) => Some(DefWithBody::Typedef(it)),
        FileDef::Functag(it) => Some(DefWithBody::Functag(it)),
        _ => None,
    }
}

impl FileDef {
    /// The def as a def with a body: functions, typedefs and functags have one.
    pub fn as_def_with_body(self) -> (res: Option<DefWithBody>)
        ensures
            res == spec_def_with_body(self),
    {
        match self {
            FileDef::Function(it) => Some(DefWithBody::Function(it)),
            FileDef::Typedef(it) => Some(DefWithBody::Typedef(it)),
            FileDef::Functag(it) => Some(DefWithBody::Functag(it)),
            FileDef::EnumStruct(_) | FileDef::Methodmap(_) | FileDef::Global(_) | FileDef::Macro(_) | FileDef::Enum(_)
            | FileDef::Variant(_) | FileDef::Typeset(_) | FileDef::Funcenum(_) => None,
        }
    }
}

/// A container that holds functions: a file, a methodmap or an enum struct.
pub open spec fn holds_functions(c: ItemContainerId) -> bool {
    c is FileId || c is MethodmapId || c is EnumStructId
}

/// The type of the function `id` in its container: the constructor or the
/// destructor of its methodmap, another method, or a function of the file.
pub open spec fn spec_function_type<D: DataDatabase>(db: &D, id: FunctionId) -> FunctionType {
    match db.spec_lookup_function(id).container {
        ItemContainerId::MethodmapId(m) => {
            let data = db.spec_methodmap_data(m);
            if data.spec_constructor() == Some(id) {
                FunctionType::Constructor
            } else if data.spec_destructor() == Some(id) {
                FunctionType::Destructor
            } else {
                FunctionType::Method
            }
        },
        ItemContainerId::EnumStructId(_) => FunctionType::Method,
        _ => FunctionType::Function,
    }
}

/// The type of the function `id`.
pub fn function_type<D: DataDatabase>(db: &D, id: FunctionId) -> (res: FunctionType)
    requires
        holds_functions(db.spec_lookup_function(id).container),
    ensures
        res == spec_function_type(db, id),
{
    let item = db.lookup_function(id);
    match item.container {
        ItemContainerId::MethodmapId(container) => {
            let method_map = db.methodmap_data(container);
            if let Some(constructor_id) = method_map.constructor() {
                if constructor_id == id {
                    return FunctionType::Constructor;
                }
            }
            if let Some(destructor_id) = method_map.destructor() {
                if destructor_id == id {
                    return FunctionType::Destructor;
                }
            }
            FunctionType::Method
        },
        ItemContainerId::EnumStructId(_) => FunctionType::Method,
        _ => FunctionType::Function,
    }
}

} // verus!
