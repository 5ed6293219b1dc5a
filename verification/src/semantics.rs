//! What a name in the source declares: the definition of which a node is the
//! name, found through the container maps of the file.
use vstd::prelude::*;
use crate::base_db::FileId;
use crate::child_by_source::{ChildDef, ChildKey};
use crate::def_resolution::{DefResolution, DefResolutionView, Local};
use crate::ids::{DefWithBodyId, FileDefId, InFile};
use crate::lower::{last_expr, BodySourceMap};
use crate::resolver::{spec_resolve, Resolver, ValueNs, ValueNsView};
use crate::source_to_def::{container_of, nodes_view, spec_to_def, ChildContainer, ChildMaps, SourceToDefCtx};
use crate::syntax::{fills_field, is_name_node, FieldName, NodeKind, NodePtr, SyntaxNode};

verus! {

/// Whether a node of kind `k` declares a variable.
pub open spec fn is_variable_kind(k: NodeKind) -> bool {
    k == NodeKind::VariableDeclaration || k == NodeKind::OldVariableDeclaration || k == NodeKind::DynamicArrayDeclaration
}

/// Whether a node of kind `k` declares global variables.
pub open spec fn is_global_statement_kind(k: NodeKind) -> bool {
    k == NodeKind::GlobalVariableDeclaration || k == NodeKind::OldGlobalVariableDeclaration
}

/// Whether a node of kind `k` declares local variables.
pub open spec fn is_local_statement_kind(k: NodeKind) -> bool {
    k == NodeKind::VariableDeclarationStatement || k == NodeKind::OldVariableDeclarationStatement
        || k == NodeKind::OldForLoopVariableDeclarationStatement
}

/// Whether a node of kind `k` is a declaration whose name leads to a definition.
pub open spec fn is_declaration_kind(k: NodeKind) -> bool {
    ||| crate::source_to_def::is_function_kind(k)
    ||| k == NodeKind::EnumStruct
    ||| k == NodeKind::EnumStructField
    ||| k == NodeKind::ParameterDeclaration
    ||| is_variable_kind(k)
    ||| k == NodeKind::PreprocMacro
    ||| k == NodeKind::PreprocDefine
    ||| k == NodeKind::PreprocUndefine
    ||| k == NodeKind::Enum
    ||| k == NodeKind::EnumEntry
    ||| k == NodeKind::Methodmap
    ||| k == NodeKind::MethodmapProperty
    ||| k == NodeKind::Typedef
    ||| k == NodeKind::Typeset
    ||| k == NodeKind::Functag
    ||| k == NodeKind::Funcenum
    ||| k == NodeKind::Struct
    ||| k == NodeKind::StructField
    ||| k == NodeKind::StructDeclaration
}

/// The index among the ancestors `anc` of the declaration that a name node
/// names: its parent, or for an accessor of a property, the parent's parent.
pub open spec fn declaration_index(anc: Seq<SyntaxNode>) -> Option<int> {
    if anc.len() == 0 {
        None
    } else if anc[0].kind == NodeKind::MethodmapPropertySetter || anc[0].kind == NodeKind::MethodmapPropertyGetter {
        if anc.len() > 1 { Some(1) } else { None }
    } else {
        Some(0)
    }
}

/// The name node `node`, with ancestors `anc`, names a declaration that the
/// lookup handles: a variable declaration stands in a statement.
pub open spec fn name_def_handled(node: SyntaxNode, anc: Seq<SyntaxNode>) -> bool {
    fills_field(node, if anc.len() > 0 { Some(anc[0]) } else { None }, FieldName::Name) ==> match declaration_index(anc) {
        Some(p) => {
            &&& is_declaration_kind(anc[p].kind)
            &&& is_variable_kind(anc[p].kind) ==> p + 1 < anc.len() && (is_global_statement_kind(anc[p + 1].kind)
                || is_local_statement_kind(anc[p + 1].kind))
        },
        None => true,
    }
}

/// The source map of the body of `def` among `maps`: the first one listed.
pub open spec fn source_map_of(maps: Seq<(DefWithBodyId, BodySourceMap)>, def: DefWithBodyId) -> Option<BodySourceMap>
    decreases maps.len(),
{
    if maps.len() == 0 {
        None
    } else if maps[0].0 == def {
        Some(maps[0].1)
    } else {
        source_map_of(maps.drop_first(), def)
    }
}

/// The local binding that the node `ptr`, of kind `kind`, with ancestors
/// `anc` from `start` on, declares: the expression it was lowered to in the
/// body of its container.
pub open spec fn spec_local_to_def(
    source_maps: Seq<(DefWithBodyId, BodySourceMap)>,
    maps: ChildMaps,
    file_id: FileId,
    kind: NodeKind,
    ptr: NodePtr,
    anc: Seq<SyntaxNode>,
    start: int,
) -> Option<(DefWithBodyId, usize)> {
    match container_of(maps, file_id, kind, anc, start) {
        Some(ChildContainer::DefWithBodyId(def)) => match source_map_of(source_maps, def) {
            Some(sm) => match last_expr(sm.expr_map@, InFile { file_id, value: ptr }) {
                Some(e) => Some((def, e)),
                None => None,
            },
            None => None,
        },
        _ => None,
    }
}

/// The definition of which the node `node`, with ancestors `anc`, is the
/// name; `None` when it is no name or its declaration is not found.
pub open spec fn spec_find_name_def(
    source_maps: Seq<(DefWithBodyId, BodySourceMap)>,
    resolver: Resolver,
    maps: ChildMaps,
    file_id: FileId,
    node: SyntaxNode,
    anc: Seq<SyntaxNode>,
) -> Option<DefResolutionView> {
    if anc.len() == 0 || !fills_field(node, Some(anc[0]), FieldName::Name) {
        None
    } else {
        match declaration_index(anc) {
            None => None,
            Some(p) => {
                let parent = anc[p];
                let k = parent.kind;
                let def_of = |key: ChildKey| spec_to_def(maps, file_id, key, k, NodePtr::spec_from(&parent), anc, p + 1);
                let local = match spec_local_to_def(source_maps, maps, file_id, k, NodePtr::spec_from(&parent), anc, p + 1) {
                    Some((def, e)) => Some(DefResolutionView::Local(None, Local { parent: def, expr_id: e })),
                    None => None,
                };
                if crate::source_to_def::is_function_kind(k) {
                    match def_of(ChildKey::Function) {
                        Some(ChildDef::Def(FileDefId::FunctionId(f))) => Some(DefResolutionView::Function(f)),
                        _ => None,
                    }
                } else if k == NodeKind::EnumStruct {
                    match def_of(ChildKey::EnumStruct) {
                        Some(ChildDef::Def(FileDefId::EnumStructId(e))) => Some(DefResolutionView::EnumStruct(e)),
                        _ => None,
                    }
                } else if k == NodeKind::EnumStructField {
                    match def_of(ChildKey::Field) {
                        Some(ChildDef::Field(f)) => Some(DefResolutionView::Field(f)),
                        _ => None,
                    }
                } else if k == NodeKind::ParameterDeclaration {
                    local
                } else if is_variable_kind(k) {
                    if is_global_statement_kind(anc[p + 1].kind) {
                        match def_of(ChildKey::Global) {
                            Some(ChildDef::Def(FileDefId::GlobalId(g))) => Some(DefResolutionView::Global(g)),
                            _ => None,
                        }
                    } else {
                        local
                    }
                } else if k == NodeKind::PreprocMacro || k == NodeKind::PreprocDefine {
                    match def_of(ChildKey::Macro) {
                        Some(ChildDef::Def(FileDefId::MacroId(m))) => Some(DefResolutionView::Macro(m)),
                        _ => None,
                    }
                } else if k == NodeKind::PreprocUndefine {
                    match spec_resolve(resolver.scopes@, resolver.file_id, node.text@) {
                        Some(ValueNsView::MacroId(id)) => Some(DefResolutionView::Macro(id.value)),
                        _ => None,
                    }
                } else if k == NodeKind::Enum {
                    match def_of(ChildKey::Enum) {
                        Some(ChildDef::Def(FileDefId::EnumId(e))) => Some(DefResolutionView::Enum(e)),
                        _ => None,
                    }
                } else if k == NodeKind::EnumEntry {
                    match def_of(ChildKey::EnumVariant) {
                        Some(ChildDef::Def(FileDefId::VariantId(v))) => Some(DefResolutionView::Variant(v)),
                        _ => None,
                    }
                } else if k == NodeKind::Methodmap {
                    match def_of(ChildKey::Methodmap) {
                        Some(ChildDef::Def(FileDefId::MethodmapId(m))) => Some(DefResolutionView::Methodmap(m)),
                        _ => None,
                    }
                } else if k == NodeKind::MethodmapProperty {
                    match def_of(ChildKey::Property) {
                        Some(ChildDef::Property(pr)) => Some(DefResolutionView::Property(pr)),
                        _ => None,
                    }
                } else if k == NodeKind::Typedef {
                    match def_of(ChildKey::Typedef) {
                        Some(ChildDef::Def(FileDefId::TypedefId(t))) => Some(DefResolutionView::Typedef(t)),
                        _ => None,
                    }
                } else if k == NodeKind::Typeset {
                    match def_of(ChildKey::Typeset) {
                        Some(ChildDef::Def(FileDefId::TypesetId(t))) => Some(DefResolutionView::Typeset(t)),
                        _ => None,
                    }
                } else if k == NodeKind::Functag {
                    match def_of(ChildKey::Functag) {
                        Some(ChildDef::Def(FileDefId::FunctagId(t))) => Some(DefResolutionView::Functag(t)),
                        _ => None,
                    }
                } else if k == NodeKind::Funcenum {
                    match def_of(ChildKey::Funcenum) {
                        Some(ChildDef::Def(FileDefId::FuncenumId(t))) => Some(DefResolutionView::Funcenum(t)),
                        _ => None,
                    }
                } else if k == NodeKind::StructDeclaration {
                    match def_of(ChildKey::Global) {
                        Some(ChildDef::Def(FileDefId::GlobalId(g))) => Some(DefResolutionView::Global(g)),
                        _ => None,
                    }
                } else if k == NodeKind::Struct {
                    match def_of(ChildKey::Struct) {
                        Some(ChildDef::Def(FileDefId::StructId(t))) => Some(DefResolutionView::Struct(t)),
                        _ => None,
                    }
                } else {
                    // The fields of structs resolve to nothing.
                    None
                }
            },
        }
    }
}

/// The name of a variable declared by a global variable declaration denotes the
/// global that the file's child maps hold for that variable declaration.
pub proof fn law_global_variable_name(
    source_maps: Seq<(DefWithBodyId, BodySourceMap)>,
    resolver: Resolver,
    maps: ChildMaps,
    file_id: FileId,
    node: SyntaxNode,
    anc: Seq<SyntaxNode>,
    g: crate::ids::GlobalId,
)
    requires
        anc.len() >= 2,
        fills_field(node, Some(anc[0]), FieldName::Name),
        anc[0].kind == NodeKind::VariableDeclaration || anc[0].kind == NodeKind::OldVariableDeclaration || anc[0].kind
            == NodeKind::DynamicArrayDeclaration,
        anc[1].kind == NodeKind::GlobalVariableDeclaration || anc[1].kind == NodeKind::OldGlobalVariableDeclaration,
        spec_to_def(maps, file_id, ChildKey::Global, anc[0].kind, NodePtr::spec_from(&anc[0]), anc, 1) == Some(
            ChildDef::Def(FileDefId::GlobalId(g)),
        ),
    ensures
        spec_find_name_def(source_maps, resolver, maps, file_id, node, anc) == Some(DefResolutionView::Global(g)),
{
}

/// The name of a variable declared by a local variable statement denotes the
/// binding that the body of its container lowered the declaration to.
pub proof fn law_local_variable_name(
    source_maps: Seq<(DefWithBodyId, BodySourceMap)>,
    resolver: Resolver,
    maps: ChildMaps,
    file_id: FileId,
    node: SyntaxNode,
    anc: Seq<SyntaxNode>,
    def: DefWithBodyId,
    e: usize,
)
    requires
        anc.len() >= 2,
        fills_field(node, Some(anc[0]), FieldName::Name),
        anc[0].kind == NodeKind::VariableDeclaration || anc[0].kind == NodeKind::OldVariableDeclaration || anc[0].kind
            == NodeKind::DynamicArrayDeclaration,
        anc[1].kind == NodeKind::VariableDeclarationStatement || anc[1].kind == NodeKind::OldVariableDeclarationStatement
            || anc[1].kind == NodeKind::OldForLoopVariableDeclarationStatement,
        spec_local_to_def(source_maps, maps, file_id, anc[0].kind, NodePtr::spec_from(&anc[0]), anc, 1) == Some((def, e)),
    ensures
        spec_find_name_def(source_maps, resolver, maps, file_id, node, anc) == Some(
            DefResolutionView::Local(None, Local { parent: def, expr_id: e }),
        ),
{
}

/// What the file's child maps hold, under `key`, for the declaration `anc[0]`.
pub open spec fn name_lookup(maps: ChildMaps, file_id: FileId, key: ChildKey, anc: Seq<SyntaxNode>) -> Option<ChildDef> {
    spec_to_def(maps, file_id, key, anc[0].kind, NodePtr::spec_from(&anc[0]), anc, 1)
}

/// The name of an item declaration denotes the definition of the item's kind that
/// the file's child maps hold for the declaration.
pub proof fn law_item_names(
    source_maps: Seq<(DefWithBodyId, BodySourceMap)>,
    resolver: Resolver,
    maps: ChildMaps,
    file_id: FileId,
    node: SyntaxNode,
    anc: Seq<SyntaxNode>,
)
    requires
        anc.len() >= 1,
        fills_field(node, Some(anc[0]), FieldName::Name),
    ensures
        anc[0].kind == NodeKind::FunctionDefinition ==> (name_lookup(maps, file_id, ChildKey::Function, anc) matches Some(
            ChildDef::Def(FileDefId::FunctionId(x)),
        ) ==> spec_find_name_def(source_maps, resolver, maps, file_id, node, anc) == Some(DefResolutionView::Function(x))),
        anc[0].kind == NodeKind::EnumStruct ==> (name_lookup(maps, file_id, ChildKey::EnumStruct, anc) matches Some(
            ChildDef::Def(FileDefId::EnumStructId(x)),
        ) ==> spec_find_name_def(source_maps, resolver, maps, file_id, node, anc) == Some(DefResolutionView::EnumStruct(x))),
        anc[0].kind == NodeKind::Enum ==> (name_lookup(maps, file_id, ChildKey::Enum, anc) matches Some(
            ChildDef::Def(FileDefId::EnumId(x)),
        ) ==> spec_find_name_def(source_maps, resolver, maps, file_id, node, anc) == Some(DefResolutionView::Enum(x))),
        anc[0].kind == NodeKind::EnumEntry ==> (name_lookup(maps, file_id, ChildKey::EnumVariant, anc) matches Some(
            ChildDef::Def(FileDefId::VariantId(x)),
        ) ==> spec_find_name_def(source_maps, resolver, maps, file_id, node, anc) == Some(DefResolutionView::Variant(x))),
        anc[0].kind == NodeKind::Methodmap ==> (name_lookup(maps, file_id, ChildKey::Methodmap, anc) matches Some(
            ChildDef::Def(FileDefId::MethodmapId(x)),
        ) ==> spec_find_name_def(source_maps, resolver, maps, file_id, node, anc) == Some(DefResolutionView::Methodmap(x))),
        anc[0].kind == NodeKind::Typedef ==> (name_lookup(maps, file_id, ChildKey::Typedef, anc) matches Some(
            ChildDef::Def(FileDefId::TypedefId(x)),
        ) ==> spec_find_name_def(source_maps, resolver, maps, file_id, node, anc) == Some(DefResolutionView::Typedef(x))),
        anc[0].kind == NodeKind::Typeset ==> (name_lookup(maps, file_id, ChildKey::Typeset, anc) matches Some(
            ChildDef::Def(FileDefId::TypesetId(x)),
        ) ==> spec_find_name_def(source_maps, resolver, maps, file_id, node, anc) == Some(DefResolutionView::Typeset(x))),
        anc[0].kind == NodeKind::Functag ==> (name_lookup(maps, file_id, ChildKey::Functag, anc) matches Some(
            ChildDef::Def(FileDefId::FunctagId(x)),
        ) ==> spec_find_name_def(source_maps, resolver, maps, file_id, node, anc) == Some(DefResolutionView::Functag(x))),
        anc[0].kind == NodeKind::Funcenum ==> (name_lookup(maps, file_id, ChildKey::Funcenum, anc) matches Some(
            ChildDef::Def(FileDefId::FuncenumId(x)),
        ) ==> spec_find_name_def(source_maps, resolver, maps, file_id, node, anc) == Some(DefResolutionView::Funcenum(x))),
        anc[0].kind == NodeKind::Struct ==> (name_lookup(maps, file_id, ChildKey::Struct, anc) matches Some(
            ChildDef::Def(FileDefId::StructId(x)),
        ) ==> spec_find_name_def(source_maps, resolver, maps, file_id, node, anc) == Some(DefResolutionView::Struct(x))),
        anc[0].kind == NodeKind::PreprocDefine ==> (name_lookup(maps, file_id, ChildKey::Macro, anc) matches Some(
            ChildDef::Def(FileDefId::MacroId(x)),
        ) ==> spec_find_name_def(source_maps, resolver, maps, file_id, node, anc) == Some(DefResolutionView::Macro(x))),
        anc[0].kind == NodeKind::PreprocMacro ==> (name_lookup(maps, file_id, ChildKey::Macro, anc) matches Some(
            ChildDef::Def(FileDefId::MacroId(x)),
        ) ==> spec_find_name_def(source_maps, resolver, maps, file_id, node, anc) == Some(DefResolutionView::Macro(x))),
{
}

pub open spec fn opt_def_view(o: Option<DefResolution>) -> Option<DefResolutionView> {
    match o {
        Some(d) => Some(d@),
        None => None,
    }
}

/// The semantic queries on the sources of a file: the maps of its
/// containers, the source map of each body, and the global resolver of the
/// file.
pub struct Semantics<'a> {
    pub maps: &'a ChildMaps,
    pub source_maps: &'a Vec<(DefWithBodyId, BodySourceMap)>,
    pub resolver: &'a Resolver,
}

impl<'a> Semantics<'a> {
    /// The source map of the body of `def`.
    fn source_map(&self, def: DefWithBodyId) -> (res: Option<&BodySourceMap>)
        ensures
            match res {
                Some(sm) => source_map_of(self.source_maps@, def) == Some(*sm),
                None => source_map_of(self.source_maps@, def) is None,
            },
    {
        let mut i: usize = 0;
        assert(self.source_maps@.skip(0) =~= self.source_maps@);
        while i < self.source_maps.len()
            invariant
                0 <= i <= self.source_maps.len(),
                source_map_of(self.source_maps@, def) == source_map_of(self.source_maps@.skip(i as int), def),
            decreases self.source_maps.len() - i,
        {
            let ghost rest = self.source_maps@.skip(i as int);
            assert(rest[0] == self.source_maps@[i as int]);
            assert(rest.drop_first() =~= self.source_maps@.skip(i + 1));
            if self.source_maps[i].0 == def {
                return Some(&self.source_maps[i].1);
            }
            i = i + 1;
        }
        None
    }

    /// The local binding that the node `node`, with ancestors from its parent
    /// up `ancestors` from `start` on, declares.
    fn local_to_def(&self, file_id: FileId, node: &SyntaxNode, ancestors: &Vec<&SyntaxNode>, start: usize) -> (res: Option<
        (DefWithBodyId, usize),
    >)
        ensures
            res == spec_local_to_def(self.source_maps@, *self.maps, file_id, node.kind, NodePtr::spec_from(node), nodes_view(ancestors@), start as int),
    {
        let ctx = SourceToDefCtx { maps: self.maps };
        match ctx.find_container(file_id, node.kind, ancestors, start) {
            Some(ChildContainer::DefWithBodyId(def)) => match self.source_map(def) {
                Some(source_map) => match source_map.node_ptr_expr(InFile::new(file_id, NodePtr::from_node(node))) {
                    Some(e) => Some((def, e)),
                    None => None,
                },
                None => None,
            },
            _ => None,
        }
    }

    /// The definition of which `node` is the name; `ancestors` are its
    /// ancestors from its parent up to the root of the file `file_id`.
    pub fn find_name_def(&self, file_id: FileId, node: &SyntaxNode, ancestors: &Vec<&SyntaxNode>) -> (res: Option<DefResolution>)
        requires
            name_def_handled(*node, nodes_view(ancestors@)),
            self.resolver.wf(),
        ensures
            opt_def_view(res) == spec_find_name_def(self.source_maps@, *self.resolver, *self.maps, file_id, *node, nodes_view(ancestors@)),
    {
        let ghost anc = nodes_view(ancestors@);
        if ancestors.len() == 0 {
            return None;
        }
        if !is_name_node(node, Some(ancestors[0])) {
            return None;
        }
        let first: &SyntaxNode = ancestors[0];
        let p: usize = if first.kind == NodeKind::MethodmapPropertySetter || first.kind == NodeKind::MethodmapPropertyGetter {
            if ancestors.len() > 1 {
                1
            } else {
                return None;
            }
        } else {
            0
        };
        let parent: &SyntaxNode = ancestors[p];
        assert(*parent == anc[p as int]);
        let ctx = SourceToDefCtx { maps: self.maps };
        let k = parent.kind;
        if crate::source_to_def::function_kind(k) {
            match ctx.to_def(file_id, ChildKey::Function, parent, ancestors, p + 1) {
                Some(ChildDef::Def(FileDefId::FunctionId(f))) => Some(DefResolution::Function(f)),
                _ => None,
            }
        } else if k == NodeKind::EnumStruct {
            match ctx.to_def(file_id, ChildKey::EnumStruct, parent, ancestors, p + 1) {
                Some(ChildDef::Def(FileDefId::EnumStructId(e))) => Some(DefResolution::EnumStruct(e)),
                _ => None,
            }
        } else if k == NodeKind::EnumStructField {
            match ctx.to_def(file_id, ChildKey::Field, parent, ancestors, p + 1) {
                Some(ChildDef::Field(f)) => Some(DefResolution::Field(f)),
                _ => None,
            }
        } else if k == NodeKind::ParameterDeclaration {
            match self.local_to_def(file_id, parent, ancestors, p + 1) {
                Some((def, e)) => Some(DefResolution::Local((None, Local { parent: def, expr_id: e }))),
                None => None,
            }
        } else if k == NodeKind::VariableDeclaration || k == NodeKind::OldVariableDeclaration || k == NodeKind::DynamicArrayDeclaration {
            let gk = ancestors[p + 1].kind;
            if gk == NodeKind::GlobalVariableDeclaration || gk == NodeKind::OldGlobalVariableDeclaration {
                match ctx.to_def(file_id, ChildKey::Global, parent, ancestors, p + 1) {
                    Some(ChildDef::Def(FileDefId::GlobalId(g))) => Some(DefResolution::Global(g)),
                    _ => None,
                }
            } else {
                match self.local_to_def(file_id, parent, ancestors, p + 1) {
                    Some((def, e)) => Some(DefResolution::Local((None, Local { parent: def, expr_id: e }))),
                    None => None,
                }
            }
        } else if k == NodeKind::PreprocMacro || k == NodeKind::PreprocDefine {
            match ctx.to_def(file_id, ChildKey::Macro, parent, ancestors, p + 1) {
                Some(ChildDef::Def(FileDefId::MacroId(m))) => Some(DefResolution::Macro(m)),
                _ => None,
            }
        } else if k == NodeKind::PreprocUndefine {
            match self.resolver.resolve_ident(node.text.as_str()) {
                Some(ValueNs::MacroId(id)) => Some(DefResolution::Macro(id.value)),
                _ => None,
            }
        } else if k == NodeKind::Enum {
            match ctx.to_def(file_id, ChildKey::Enum, parent, ancestors, p + 1) {
                Some(ChildDef::Def(FileDefId::EnumId(e))) => Some(DefResolution::Enum(e)),
                _ => None,
            }
        } else if k == NodeKind::EnumEntry {
            match ctx.to_def(file_id, ChildKey::EnumVariant, parent, ancestors, p + 1) {
                Some(ChildDef::Def(FileDefId::VariantId(v))) => Some(DefResolution::Variant(v)),
                _ => None,
            }
        } else if k == NodeKind::Methodmap {
            match ctx.to_def(file_id, ChildKey::Methodmap, parent, ancestors, p + 1) {
                Some(ChildDef::Def(FileDefId::MethodmapId(m))) => Some(DefResolution::Methodmap(m)),
                _ => None,
            }
        } else if k == NodeKind::MethodmapProperty {
            match ctx.to_def(file_id, ChildKey::Property, parent, ancestors, p + 1) {
                Some(ChildDef::Property(pr)) => Some(DefResolution::Property(pr)),
                _ => None,
            }
        } else if k == NodeKind::Typedef {
            match ctx.to_def(file_id, ChildKey::Typedef, parent, ancestors, p + 1) {
                Some(ChildDef::Def(FileDefId::TypedefId(t))) => Some(DefResolution::Typedef(t)),
                _ => None,
            }
        } else if k == NodeKind::Typeset {
            match ctx.to_def(file_id, ChildKey::Typeset, parent, ancestors, p + 1) {
                Some(ChildDef::Def(FileDefId::TypesetId(t))) => Some(DefResolution::Typeset(t)),
                _ => None,
            }
        } else if k == NodeKind::Functag {
            match ctx.to_def(file_id, ChildKey::Functag, parent, ancestors, p + 1) {
                Some(ChildDef::Def(FileDefId::FunctagId(t))) => Some(DefResolution::Functag(t)),
                _ => None,
            }
        } else if k == NodeKind::Funcenum {
            match ctx.to_def(file_id, ChildKey::Funcenum, parent, ancestors, p + 1) {
                Some(ChildDef::Def(FileDefId::FuncenumId(t))) => Some(DefResolution::Funcenum(t)),
                _ => None,
            }
        } else if k == NodeKind::StructDeclaration {
            match ctx.to_def(file_id, ChildKey::Global, parent, ancestors, p + 1) {
                Some(ChildDef::Def(FileDefId::GlobalId(g))) => Some(DefResolution::Global(g)),
                _ => None,
            }
        } else if k == NodeKind::Struct {
            match ctx.to_def(file_id, ChildKey::Struct, parent, ancestors, p + 1) {
                Some(ChildDef::Def(FileDefId::StructId(t))) => Some(DefResolution::Struct(t)),
                _ => None,
            }
        } else {
            None
        }
    }
}

} // verus!
