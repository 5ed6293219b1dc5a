//! The resolver that type references inside a definition are resolved with:
//! the global scope of the file that declares the definition, with `this`
//! brought into scope inside an enum struct or a methodmap.
use vstd::prelude::*;
use crate::base_db::FileId;
use crate::child_by_source::PropertyDatabase;
use crate::ids::{
    AdtId, DefWithBodyId, EnumStructId, FuncenumId, FunctagId, FunctionId, GlobalId, ItemContainerId, MethodmapId,
    PropertyId, TypedefId, TypesetId,
};
use crate::resolver::{Resolver, Scope};

verus! {

/// The scopes and the file of the global resolver of file `file_id`.
pub open spec fn global_scopes<D: PropertyDatabase>(db: &D, file_id: FileId) -> (Seq<Scope>, FileId) {
    (db.spec_global_resolver(file_id).scopes@, db.spec_global_resolver(file_id).file_id)
}

/// `r` with `this` brought into scope as `adt`.
pub open spec fn with_this(r: (Seq<Scope>, FileId), adt: AdtId) -> (Seq<Scope>, FileId) {
    (r.0.push(Scope::This(adt)), r.1)
}

/// The scopes and the file of the resolver of the container `c`.
pub open spec fn container_scopes<D: PropertyDatabase>(db: &D, c: ItemContainerId) -> (Seq<Scope>, FileId) {
    match c {
        ItemContainerId::FileId(f) => global_scopes(db, f),
        ItemContainerId::EnumStructId(it) => with_this(
            global_scopes(db, db.spec_lookup_enum_struct(it).tree.file),
            AdtId::EnumStructId(it),
        ),
        ItemContainerId::MethodmapId(it) => with_this(
            global_scopes(db, db.spec_lookup_methodmap(it).tree.file),
            AdtId::MethodmapId(it),
        ),
        ItemContainerId::TypesetId(it) => global_scopes(db, db.spec_lookup_typeset(it).tree.file),
        ItemContainerId::FuncenumId(it) => global_scopes(db, db.spec_lookup_funcenum(it).tree.file),
        ItemContainerId::EnumId(it) => global_scopes(db, db.spec_lookup_enum(it).tree.file),
    }
}

/// The scopes and the file of the resolver of the definition with a body `def`.
pub open spec fn body_scopes<D: PropertyDatabase>(db: &D, def: DefWithBodyId) -> (Seq<Scope>, FileId) {
    match def {
        DefWithBodyId::FunctionId(it) => container_scopes(db, db.spec_lookup_function(it).container),
        DefWithBodyId::TypedefId(it) => container_scopes(db, db.spec_lookup_typedef(it).container),
        DefWithBodyId::FunctagId(it) => container_scopes(db, db.spec_lookup_functag(it).container),
    }
}

/// The scopes and the file of `r`.
pub open spec fn scopes_of(r: Resolver) -> (Seq<Scope>, FileId) {
    (r.scopes@, r.file_id)
}

impl FileId {
    /// The global resolver of the file.
    pub fn resolver<D: PropertyDatabase>(self, db: &D) -> (res: Resolver)
        ensures
            scopes_of(res) == global_scopes(db, self),
            res.wf(),
    {
        db.global_resolver(self)
    }
}

impl EnumStructId {
    /// The resolver of the file of the enum struct, with `this` in scope.
    pub fn resolver<D: PropertyDatabase>(self, db: &D) -> (res: Resolver)
        ensures
            scopes_of(res) == container_scopes(db, ItemContainerId::EnumStructId(self)),
            res.wf(),
    {
        db.lookup_enum_struct(self).tree.file.resolver(db).push_this_scope(AdtId::EnumStructId(self))
    }
}

impl MethodmapId {
    /// The resolver of the file of the methodmap, with `this` in scope.
    pub fn resolver<D: PropertyDatabase>(self, db: &D) -> (res: Resolver)
        ensures
            scopes_of(res) == container_scopes(db, ItemContainerId::MethodmapId(self)),
            res.wf(),
    {
        db.lookup_methodmap(self).tree.file.resolver(db).push_this_scope(AdtId::MethodmapId(self))
    }
}

impl TypesetId {
    /// The resolver of the file of the typeset.
    pub fn resolver<D: PropertyDatabase>(self, db: &D) -> (res: Resolver)
        ensures
            scopes_of(res) == container_scopes(db, ItemContainerId::TypesetId(self)),
            res.wf(),
    {
        db.lookup_typeset(self).tree.file.resolver(db)
    }
}

impl FuncenumId {
    /// The resolver of the file of the funcenum.
    pub fn resolver<D: PropertyDatabase>(self, db: &D) -> (res: Resolver)
        ensures
            scopes_of(res) == container_scopes(db, ItemContainerId::FuncenumId(self)),
            res.wf(),
    {
        db.lookup_funcenum(self).tree.file.resolver(db)
    }
}

impl ItemContainerId {
    /// The resolver of the container.
    pub fn resolver<D: PropertyDatabase>(self, db: &D) -> (res: Resolver)
        ensures
            scopes_of(res) == container_scopes(db, self),
            res.wf(),
    {
        match self {
            ItemContainerId::FileId(file_id) => file_id.resolver(db),
            ItemContainerId::EnumStructId(it) => it.resolver(db),
            ItemContainerId::MethodmapId(it) => it.resolver(db),
            ItemContainerId::TypesetId(it) => it.resolver(db),
            ItemContainerId::FuncenumId(it) => it.resolver(db),
            ItemContainerId::EnumId(it) => db.lookup_enum(it).tree.file.resolver(db),
        }
    }
}

impl FunctionId {
    /// The resolver of the container of the function.
    pub fn resolver<D: PropertyDatabase>(self, db: &D) -> (res: Resolver)
        ensures
            scopes_of(res) == container_scopes(db, db.spec_lookup_function(self).container),
            res.wf(),
    {
        db.lookup_function(self).container.resolver(db)
    }
}

impl TypedefId {
    /// The resolver of the container of the typedef.
    pub fn resolver<D: PropertyDatabase>(self, db: &D) -> (res: Resolver)
        ensures
            scopes_of(res) == container_scopes(db, db.spec_lookup_typedef(self).container),
            res.wf(),
    {
        db.lookup_typedef(self).container.resolver(db)
    }
}

impl FunctagId {
    /// The resolver of the container of the functag.
    pub fn resolver<D: PropertyDatabase>(self, db: &D) -> (res: Resolver)
        ensures
            scopes_of(res) == container_scopes(db, db.spec_lookup_functag(self).container),
            res.wf(),
    {
        db.lookup_functag(self).container.resolver(db)
    }
}

impl PropertyId {
    /// The resolver of the container of the property.
    pub fn resolver<D: PropertyDatabase>(self, db: &D) -> (res: Resolver)
        ensures
            scopes_of(res) == container_scopes(db, db.spec_lookup_property(self).container),
            res.wf(),
    {
        db.lookup_property(self).container.resolver(db)
    }
}

impl GlobalId {
    /// The global resolver of the file of the global variable.
    pub fn resolver<D: PropertyDatabase>(self, db: &D) -> (res: Resolver)
        ensures
            scopes_of(res) == global_scopes(db, db.spec_lookup_global(self).tree.file),
            res.wf(),
    {
        db.lookup_global(self).tree.file.resolver(db)
    }
}

impl DefWithBodyId {
    /// The resolver of the definition.
    pub fn resolver<D: PropertyDatabase>(self, db: &D) -> (res: Resolver)
        ensures
            scopes_of(res) == body_scopes(db, self),
            res.wf(),
    {
        match self {
            DefWithBodyId::FunctionId(it) => it.resolver(db),
            DefWithBodyId::TypedefId(it) => it.resolver(db),
            DefWithBodyId::FunctagId(it) => it.resolver(db),
        }
    }
}

} // verus!
