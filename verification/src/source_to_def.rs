//! From a node of the source to the definition it declares: the container
//! of the node is found by climbing its ancestors, and the node is looked up
//! in the map of the container's children.
use vstd::prelude::*;
use crate::base_db::FileId;
use crate::child_by_source::{ChildDef, ChildKey, DynMap};
use crate::ids::{
    DefWithBodyId, EnumStructId, FileDefId, FuncenumId, FunctagId, FunctionId, MethodmapId, StructId, TypedefId,
    TypesetId,
};
use crate::syntax::{NodeKind, NodePtr, SyntaxNode};

verus! {

/// What holds a definition: a file, a definition with a body, or a
/// definition with members.
#[derive(Debug, Clone, Copy, PartialEq, Eq, Structural, Hash)]
pub enum ChildContainer {
    DefWithBodyId(DefWithBodyId),
    FileId(FileId),
    EnumStructId(EnumStructId),
    MethodmapId(MethodmapId),
    TypedefId(TypedefId),
    TypesetId(TypesetId),
    FunctagId(FunctagId),
    FuncenumId(FuncenumId),
    StructId(StructId),
}

/// The maps of the children of containers, each for a container in a file,
/// as `child_by_source` builds them.
#[derive(Debug)]
pub struct ChildMaps {
    pub entries: Vec<(ChildContainer, FileId, DynMap)>,
}

/// The map of `container` in `file_id` among `es`: the first one listed,
/// or the empty map.
pub open spec fn first_map(es: Seq<(ChildContainer, FileId, DynMap)>, container: ChildContainer, file_id: FileId) -> Map<
    (ChildKey, NodePtr),
    ChildDef,
>
    decreases es.len(),
{
    if es.len() == 0 {
        Map::empty()
    } else if es[0].0 == container && es[0].1 == file_id {
        es[0].2@
    } else {
        first_map(es.drop_first(), container, file_id)
    }
}

/// The definition of kind `key` that `ptr` declares in `m`.
pub open spec fn lookup(m: Map<(ChildKey, NodePtr), ChildDef>, key: ChildKey, ptr: NodePtr) -> Option<ChildDef> {
    if m.contains_key((key, ptr)) {
        Some(m[(key, ptr)])
    } else {
        None
    }
}

impl ChildMaps {
    /// The map of the children of `container` in `file_id`.
    pub open spec fn map_of(&self, container: ChildContainer, file_id: FileId) -> Map<(ChildKey, NodePtr), ChildDef> {
        first_map(self.entries@, container, file_id)
    }

    /// The definition of kind `key` that `ptr` declares in `container`.
    pub fn get(&self, container: ChildContainer, file_id: FileId, key: ChildKey, ptr: NodePtr) -> (res: Option<ChildDef>)
        ensures
            res == lookup(self.map_of(container, file_id), key, ptr),
    {
        let mut i: usize = 0;
        assert(self.entries@.skip(0) =~= self.entries@);
        while i < self.entries.len()
            invariant
                0 <= i <= self.entries.len(),
                self.map_of(container, file_id) == first_map(self.entries@.skip(i as int), container, file_id),
            decreases self.entries.len() - i,
        {
            let ghost rest = self.entries@.skip(i as int);
            assert(rest[0] == self.entries@[i as int]);
            assert(rest.drop_first() =~= self.entries@.skip(i + 1));
            if self.entries[i].0 == container && self.entries[i].1 == file_id {
                return self.entries[i].2.get(key, ptr);
            }
            i = i + 1;
        }
        None
    }
}

/// Whether a node of kind `k` is a function, a method or a property
/// accessor with a body.
pub open spec fn is_function_kind(k: NodeKind) -> bool {
    ||| k == NodeKind::FunctionDefinition
    ||| k == NodeKind::FunctionDeclaration
    ||| k == NodeKind::EnumStructMethod
    ||| k == NodeKind::MethodmapNative
    ||| k == NodeKind::MethodmapNativeConstructor
    ||| k == NodeKind::MethodmapNativeDestructor
    ||| k == NodeKind::MethodmapMethod
    ||| k == NodeKind::MethodmapMethodConstructor
    ||| k == NodeKind::MethodmapMethodDestructor
    ||| k == NodeKind::MethodmapPropertyNative
    ||| k == NodeKind::MethodmapPropertyMethod
}

pub(crate) fn function_kind(k: NodeKind) -> (res: bool)
    ensures
        res == is_function_kind(k),
{
    k == NodeKind::FunctionDefinition || k == NodeKind::FunctionDeclaration || k == NodeKind::EnumStructMethod
        || k == NodeKind::MethodmapNative || k == NodeKind::MethodmapNativeConstructor
        || k == NodeKind::MethodmapNativeDestructor || k == NodeKind::MethodmapMethod
        || k == NodeKind::MethodmapMethodConstructor || k == NodeKind::MethodmapMethodDestructor
        || k == NodeKind::MethodmapPropertyNative || k == NodeKind::MethodmapPropertyMethod
}

/// The container of a node of kind `kind` whose ancestors, from its parent
/// up, are `anc` from index `start` on.
pub open spec fn container_of(maps: ChildMaps, file_id: FileId, kind: NodeKind, anc: Seq<SyntaxNode>, start: int) -> Option<ChildContainer>
    decreases anc.len() - start, 2int,
{
    if start < 0 || start > anc.len() {
        None
    } else if kind == NodeKind::PreprocDefine || kind == NodeKind::PreprocMacro {
        // A macro is held by its file, wherever it stands.
        Some(ChildContainer::FileId(file_id))
    } else {
        climb(maps, file_id, anc, start)
    }
}

/// The definition of kind `key` that the ancestor `anc[i]` declares: looked
/// up in the map of its own container.
pub open spec fn ancestor_def(maps: ChildMaps, file_id: FileId, key: ChildKey, anc: Seq<SyntaxNode>, i: int) -> Option<ChildDef>
    decreases anc.len() - i, 0int,
{
    if 0 <= i < anc.len() {
        match container_of(maps, file_id, anc[i].kind, anc, i + 1) {
            Some(c) => lookup(maps.map_of(c, file_id), key, NodePtr::spec_from(&anc[i])),
            None => None,
        }
    } else {
        None
    }
}

/// The container found by climbing the ancestors `anc` from index `i`.
pub open spec fn climb(maps: ChildMaps, file_id: FileId, anc: Seq<SyntaxNode>, i: int) -> Option<ChildContainer>
    decreases anc.len() - i, 1int,
{
    if i < 0 || i >= anc.len() {
        None
    } else {
        let k = anc[i].kind;
        if k == NodeKind::SourceFile {
            Some(ChildContainer::FileId(file_id))
        } else if is_function_kind(k) {
            match ancestor_def(maps, file_id, ChildKey::Function, anc, i) {
                Some(ChildDef::Def(FileDefId::FunctionId(f))) => Some(ChildContainer::DefWithBodyId(DefWithBodyId::FunctionId(f))),
                _ => None,
            }
        } else if k == NodeKind::EnumStruct {
            match ancestor_def(maps, file_id, ChildKey::EnumStruct, anc, i) {
                Some(ChildDef::Def(FileDefId::EnumStructId(e))) => Some(ChildContainer::EnumStructId(e)),
                _ => None,
            }
        } else if k == NodeKind::Methodmap {
            match ancestor_def(maps, file_id, ChildKey::Methodmap, anc, i) {
                Some(ChildDef::Def(FileDefId::MethodmapId(m))) => Some(ChildContainer::MethodmapId(m)),
                _ => None,
            }
        } else if k == NodeKind::Typedef {
            match ancestor_def(maps, file_id, ChildKey::Typedef, anc, i) {
                Some(ChildDef::Def(FileDefId::TypedefId(t))) => Some(ChildContainer::DefWithBodyId(DefWithBodyId::TypedefId(t))),
                _ => None,
            }
        } else if k == NodeKind::Typeset {
            match ancestor_def(maps, file_id, ChildKey::Typeset, anc, i) {
                Some(ChildDef::Def(FileDefId::TypesetId(t))) => Some(ChildContainer::TypesetId(t)),
                _ => None,
            }
        } else if k == NodeKind::TypedefExpression {
            // A typedef expression stands for its typedef, or for itself in a typeset.
            if i + 1 < anc.len() && anc[i + 1].kind == NodeKind::Typedef {
                climb(maps, file_id, anc, i + 1)
            } else if i + 1 < anc.len() && anc[i + 1].kind == NodeKind::Typeset {
                match ancestor_def(maps, file_id, ChildKey::Typedef, anc, i) {
                    Some(ChildDef::Def(FileDefId::TypedefId(t))) => Some(ChildContainer::DefWithBodyId(DefWithBodyId::TypedefId(t))),
                    _ => None,
                }
            } else {
                None
            }
        } else if k == NodeKind::Functag || k == NodeKind::FuncenumMember {
            match ancestor_def(maps, file_id, ChildKey::Functag, anc, i) {
                Some(ChildDef::Def(FileDefId::FunctagId(t))) => Some(ChildContainer::DefWithBodyId(DefWithBodyId::FunctagId(t))),
                _ => None,
            }
        } else if k == NodeKind::Funcenum {
            match ancestor_def(maps, file_id, ChildKey::Funcenum, anc, i) {
                Some(ChildDef::Def(FileDefId::FuncenumId(t))) => Some(ChildContainer::FuncenumId(t)),
                _ => None,
            }
        } else if k == NodeKind::Struct {
            match ancestor_def(maps, file_id, ChildKey::Struct, anc, i) {
                Some(ChildDef::Def(FileDefId::StructId(t))) => Some(ChildContainer::StructId(t)),
                _ => None,
            }
        } else {
            climb(maps, file_id, anc, i + 1)
        }
    }
}

/// The definition of kind `key` that the node `ptr`, of kind `kind`, whose
/// ancestors are `anc` from `start` on, declares.
pub open spec fn spec_to_def(maps: ChildMaps, file_id: FileId, key: ChildKey, kind: NodeKind, ptr: NodePtr, anc: Seq<SyntaxNode>, start: int) -> Option<
    ChildDef,
> {
    match container_of(maps, file_id, kind, anc, start) {
        Some(c) => lookup(maps.map_of(c, file_id), key, ptr),
        None => None,
    }
}

/// The nodes of `anc`.
pub open spec fn nodes_view(anc: Seq<&SyntaxNode>) -> Seq<SyntaxNode> {
    anc.map_values(|n: &SyntaxNode| *n)
}

/// The context that finds definitions from source nodes of a file.
pub struct SourceToDefCtx<'a> {
    pub maps: &'a ChildMaps,
}

impl<'a> SourceToDefCtx<'a> {
    /// The container of the node of kind `kind`, whose ancestors from its
    /// parent up are `ancestors` from `start` on.
    pub fn find_container(&self, file_id: FileId, kind: NodeKind, ancestors: &Vec<&SyntaxNode>, start: usize) -> (res: Option<
        ChildContainer,
    >)
        ensures
            res == container_of(*self.maps, file_id, kind, nodes_view(ancestors@), start as int),
        decreases ancestors.len() - start, 2int,
    {
        if start > ancestors.len() {
            return None;
        }
        if kind == NodeKind::PreprocDefine || kind == NodeKind::PreprocMacro {
            return Some(ChildContainer::FileId(file_id));
        }
        self.climb(file_id, ancestors, start)
    }

    /// The definition of kind `key` that the ancestor `ancestors[i]` declares.
    fn ancestor_def(&self, file_id: FileId, key: ChildKey, ancestors: &Vec<&SyntaxNode>, i: usize) -> (res: Option<ChildDef>)
        requires
            i < ancestors.len(),
        ensures
            res == ancestor_def(*self.maps, file_id, key, nodes_view(ancestors@), i as int),
        decreases ancestors.len() - i, 0int,
    {
        let node: &SyntaxNode = ancestors[i];
        match self.find_container(file_id, node.kind, ancestors, i + 1) {
            Some(c) => self.maps.get(c, file_id, key, NodePtr::from_node(node)),
            None => None,
        }
    }

    /// The container found by climbing the ancestors from index `i`.
    fn climb(&self, file_id: FileId, ancestors: &Vec<&SyntaxNode>, i: usize) -> (res: Option<ChildContainer>)
        ensures
            res == climb(*self.maps, file_id, nodes_view(ancestors@), i as int),
        decreases ancestors.len() - i, 1int,
    {
        if i >= ancestors.len() {
            return None;
        }
        let k = ancestors[i].kind;
        if k == NodeKind::SourceFile {
            Some(ChildContainer::FileId(file_id))
        } else if function_kind(k) {
            match self.ancestor_def(file_id, ChildKey::Function, ancestors, i) {
                Some(ChildDef::Def(FileDefId::FunctionId(f))) => Some(ChildContainer::DefWithBodyId(DefWithBodyId::FunctionId(f))),
                _ => None,
            }
        } else if k == NodeKind::EnumStruct {
            match self.ancestor_def(file_id, ChildKey::EnumStruct, ancestors, i) {
                Some(ChildDef::Def(FileDefId::EnumStructId(e))) => Some(ChildContainer::EnumStructId(e)),
                _ => None,
            }
        } else if k == NodeKind::Methodmap {
            match self.ancestor_def(file_id, ChildKey::Methodmap, ancestors, i) {
                Some(ChildDef::Def(FileDefId::MethodmapId(m))) => Some(ChildContainer::MethodmapId(m)),
                _ => None,
            }
        } else if k == NodeKind::Typedef {
            match self.ancestor_def(file_id, ChildKey::Typedef, ancestors, i) {
                Some(ChildDef::Def(FileDefId::TypedefId(t))) => Some(ChildContainer::DefWithBodyId(DefWithBodyId::TypedefId(t))),
                _ => None,
            }
        } else if k == NodeKind::Typeset {
            match self.ancestor_def(file_id, ChildKey::Typeset, ancestors, i) {
                Some(ChildDef::Def(FileDefId::TypesetId(t))) => Some(ChildContainer::TypesetId(t)),
                _ => None,
            }
        } else if k == NodeKind::TypedefExpression {
            if i + 1 < ancestors.len() && ancestors[i + 1].kind == NodeKind::Typedef {
                self.climb(file_id, ancestors, i + 1)
            } else if i + 1 < ancestors.len() && ancestors[i + 1].kind == NodeKind::Typeset {
                match self.ancestor_def(file_id, ChildKey::Typedef, ancestors, i) {
                    Some(ChildDef::Def(FileDefId::TypedefId(t))) => Some(ChildContainer::DefWithBodyId(DefWithBodyId::TypedefId(t))),
                    _ => None,
                }
            } else {
                None
            }
        } else if k == NodeKind::Functag || k == NodeKind::FuncenumMember {
            match self.ancestor_def(file_id, ChildKey::Functag, ancestors, i) {
                Some(ChildDef::Def(FileDefId::FunctagId(t))) => Some(ChildContainer::DefWithBodyId(DefWithBodyId::FunctagId(t))),
                _ => None,
            }
        } else if k == NodeKind::Funcenum {
            match self.ancestor_def(file_id, ChildKey::Funcenum, ancestors, i) {
                Some(ChildDef::Def(FileDefId::FuncenumId(t))) => Some(ChildContainer::FuncenumId(t)),
                _ => None,
            }
        } else if k == NodeKind::Struct {
            match self.ancestor_def(file_id, ChildKey::Struct, ancestors, i) {
                Some(ChildDef::Def(FileDefId::StructId(t))) => Some(ChildContainer::StructId(t)),
                _ => None,
            }
        } else {
            self.climb(file_id, ancestors, i + 1)
        }
    }

    /// The definition of kind `key` that `node`, whose ancestors from its
    /// parent up are `ancestors` from `start` on, declares.
    pub fn to_def(&self, file_id: FileId, key: ChildKey, node: &SyntaxNode, ancestors: &Vec<&SyntaxNode>, start: usize) -> (res: Option<
        ChildDef,
    >)
        ensures
            res == spec_to_def(*self.maps, file_id, key, node.kind, NodePtr::spec_from(node), nodes_view(ancestors@), start as int),
    {
        match self.find_container(file_id, node.kind, ancestors, start) {
            Some(c) => self.maps.get(c, file_id, key, NodePtr::from_node(node)),
            None => None,
        }
    }
}

} // verus!
