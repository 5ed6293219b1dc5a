//! Identifiers of the definitions of a project. Each is the index under which
//! the definition's location was interned.
use vstd::prelude::*;
use crate::base_db::FileId;

verus! {

#[derive(Debug, Clone, Copy, PartialEq, Eq, Structural, Hash)]
pub struct FunctionId(pub u32);

#[derive(Debug, Clone, Copy, PartialEq, Eq, Structural, Hash)]
pub struct MacroId(pub u32);

#[derive(Debug, Clone, Copy, PartialEq, Eq, Structural, Hash)]
pub struct GlobalId(pub u32);

#[derive(Debug, Clone, Copy, PartialEq, Eq, Structural, Hash, PartialOrd, Ord)]
pub struct EnumStructId(pub u32);

#[derive(Debug, Clone, Copy, PartialEq, Eq, Structural, Hash, PartialOrd, Ord)]
pub struct MethodmapId(pub u32);

#[derive(Debug, Clone, Copy, PartialEq, Eq, Structural, Hash, PartialOrd, Ord)]
pub struct PropertyId(pub u32);

#[derive(Debug, Clone, Copy, PartialEq, Eq, Structural, Hash)]
pub struct EnumId(pub u32);

#[derive(Debug, Clone, Copy, PartialEq, Eq, Structural, Hash)]
pub struct VariantId(pub u32);

#[derive(Debug, Clone, Copy, PartialEq, Eq, Structural, Hash)]
pub struct TypedefId(pub u32);

#[derive(Debug, Clone, Copy, PartialEq, Eq, Structural, Hash)]
pub struct TypesetId(pub u32);

#[derive(Debug, Clone, Copy, PartialEq, Eq, Structural, Hash)]
pub struct FunctagId(pub u32);

#[derive(Debug, Clone, Copy, PartialEq, Eq, Structural, Hash)]
pub struct FuncenumId(pub u32);

#[derive(Debug, Clone, Copy, PartialEq, Eq, Structural, Hash)]
pub struct StructId(pub u32);

/// A data type: the types that bring `this` into scope.
#[derive(Debug, Clone, Copy, PartialEq, Eq, Structural, Hash, PartialOrd, Ord)]
pub enum AdtId {
    EnumStructId(EnumStructId),
    MethodmapId(MethodmapId),
}

/// The defs which have a body.
#[derive(Debug, Clone, Copy, PartialEq, Eq, Structural, Hash)]
pub enum DefWithBodyId {
    FunctionId(FunctionId),
    TypedefId(TypedefId),
    FunctagId(FunctagId),
}

/// Defs which can be visible at the global scope.
#[derive(Debug, Clone, Copy, PartialEq, Eq, Structural, Hash)]
pub enum FileDefId {
    FunctionId(FunctionId),
    MacroId(MacroId),
    GlobalId(GlobalId),
    EnumStructId(EnumStructId),
    MethodmapId(MethodmapId),
    EnumId(EnumId),
    VariantId(VariantId),
    TypedefId(TypedefId),
    TypesetId(TypesetId),
    FunctagId(FunctagId),
    FuncenumId(FuncenumId),
    StructId(StructId),
}

/// `InFile<T>` stores a value of `T` inside a particular file.
#[derive(Debug, Clone, Copy, PartialEq, Eq, Structural, Hash)]
pub struct InFile<T> {
    pub file_id: FileId,
    pub value: T,
}

impl<T> InFile<T> {
    pub fn new(file_id: FileId, value: T) -> (res: InFile<T>)
        ensures
            res.file_id == file_id,
            res.value == value,
    {
        InFile { file_id, value }
    }

    pub fn with_value<U>(&self, value: U) -> (res: InFile<U>)
        ensures
            res.file_id == self.file_id,
            res.value == value,
    {
        InFile::new(self.file_id, value)
    }

    pub fn as_ref(&self) -> (res: InFile<&T>)
        ensures
            res.file_id == self.file_id,
            res.value == &self.value,
    {
        self.with_value(&self.value)
    }
}

impl<T> InFile<Option<T>> {
    /// Moves the option outwards.
    pub fn transpose(self) -> (res: Option<InFile<T>>)
        ensures
            res == match self.value {
                Some(v) => Some(InFile { file_id: self.file_id, value: v }),
                None => None,
            },
    {
        match self.value {
            Some(value) => Some(InFile::new(self.file_id, value)),
            None => None,
        }
    }
}

/// What contains an item: a file or a type with members.
#[derive(Debug, Clone, Copy, PartialEq, Eq, Structural, Hash)]
pub enum ItemContainerId {
    FileId(FileId),
    EnumStructId(EnumStructId),
    MethodmapId(MethodmapId),
    TypesetId(TypesetId),
    FuncenumId(FuncenumId),
    EnumId(EnumId),
}

/// Identifies an item tree: that of a file, or that of a block of a file.
#[derive(Debug, Clone, Copy, PartialEq, Eq, Structural, Hash)]
pub struct TreeId {
    pub file: FileId,
    pub block: Option<crate::hir::BlockId>,
}

/// The location of an item that a container holds: the container, the item
/// tree, and the index of the item in its arena of the tree.
#[derive(Debug, Clone, Copy, PartialEq, Eq, Structural, Hash)]
pub struct ItemLoc {
    pub container: ItemContainerId,
    pub tree: TreeId,
    pub value: usize,
}

/// The location of a global variable: its item tree and its index there.
#[derive(Debug, Clone, Copy, PartialEq, Eq, Structural, Hash)]
pub struct GlobalLoc {
    pub tree: TreeId,
    pub value: usize,
}

/// The interning of locations: each location gets an identifier, the same
/// one each time it is interned.
pub trait InternDatabase {
    spec fn spec_intern_function(&self, loc: ItemLoc) -> FunctionId;

    spec fn spec_intern_variable(&self, loc: GlobalLoc) -> GlobalId;

    spec fn spec_intern_macro(&self, loc: ItemLoc) -> MacroId;

    spec fn spec_intern_enum_struct(&self, loc: ItemLoc) -> EnumStructId;

    spec fn spec_intern_methodmap(&self, loc: ItemLoc) -> MethodmapId;

    spec fn spec_intern_property(&self, loc: ItemLoc) -> PropertyId;

    spec fn spec_intern_enum(&self, loc: ItemLoc) -> EnumId;

    spec fn spec_intern_variant(&self, loc: ItemLoc) -> VariantId;

    spec fn spec_intern_typedef(&self, loc: ItemLoc) -> TypedefId;

    spec fn spec_intern_typeset(&self, loc: ItemLoc) -> TypesetId;

    spec fn spec_intern_functag(&self, loc: ItemLoc) -> FunctagId;

    spec fn spec_intern_funcenum(&self, loc: ItemLoc) -> FuncenumId;

    spec fn spec_intern_struct(&self, loc: ItemLoc) -> StructId;

    fn intern_function(&self, loc: ItemLoc) -> (res: FunctionId)
        ensures
            res == self.spec_intern_function(loc),
    ;

    fn intern_variable(&self, loc: GlobalLoc) -> (res: GlobalId)
        ensures
            res == self.spec_intern_variable(loc),
    ;

    fn intern_macro(&self, loc: ItemLoc) -> (res: MacroId)
        ensures
            res == self.spec_intern_macro(loc),
    ;

    fn intern_enum_struct(&self, loc: ItemLoc) -> (res: EnumStructId)
        ensures
            res == self.spec_intern_enum_struct(loc),
    ;

    fn intern_methodmap(&self, loc: ItemLoc) -> (res: MethodmapId)
        ensures
            res == self.spec_intern_methodmap(loc),
    ;

    fn intern_property(&self, loc: ItemLoc) -> (res: PropertyId)
        ensures
            res == self.spec_intern_property(loc),
    ;

    fn intern_enum(&self, loc: ItemLoc) -> (res: EnumId)
        ensures
            res == self.spec_intern_enum(loc),
    ;

    fn intern_variant(&self, loc: ItemLoc) -> (res: VariantId)
        ensures
            res == self.spec_intern_variant(loc),
    ;

    fn intern_typedef(&self, loc: ItemLoc) -> (res: TypedefId)
        ensures
            res == self.spec_intern_typedef(loc),
    ;

    fn intern_typeset(&self, loc: ItemLoc) -> (res: TypesetId)
        ensures
            res == self.spec_intern_typeset(loc),
    ;

    fn intern_functag(&self, loc: ItemLoc) -> (res: FunctagId)
        ensures
            res == self.spec_intern_functag(loc),
    ;

    fn intern_funcenum(&self, loc: ItemLoc) -> (res: FuncenumId)
        ensures
            res == self.spec_intern_funcenum(loc),
    ;

    fn intern_struct(&self, loc: ItemLoc) -> (res: StructId)
        ensures
            res == self.spec_intern_struct(loc),
    ;
}

/// The location of a block: the syntax node it was lowered from and its file.
#[derive(Debug, Clone, Copy, PartialEq, Eq, Structural, Hash)]
pub struct BlockLoc {
    pub ast_id: u32,
    pub file_id: FileId,
}

/// Looks up what an interned id stands for, in the database `D`.
pub trait Lookup<D> {
    type Data;

    fn lookup(&self, db: &D) -> Self::Data;
}

} // verus!
