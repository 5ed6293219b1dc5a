//! Lowering of the syntax of a file to its item tree: the declarations at its
//! top level, the members of its methodmaps, enum structs and structs, and
//! its macros, each with the index of its node and whether it is deprecated.
use vstd::prelude::*;
use crate::base_db::FileId;
use crate::data::{FunctionKind, RawVisibilityId, SpecialMethod};
use crate::hir::{spec_returntype, Name, TypeRef, TypeRefView};
use crate::item_tree::{
    empty_tree_view, AstId, Enum, EnumStruct, EnumStructItemId, EnumStructView, EnumView, Field, FieldView, FileItem, Funcenum,
    FuncenumView, Functag, FunctagView, Function, FunctionView, IdxRange, ItemTree, ItemTreeView, Macro, MacroView, Methodmap,
    MethodmapItemId, MethodmapView, Param, ParamView, Property, PropertyView, Struct, StructField, StructFieldView, StructView,
    Typedef, TypedefView, Typeset, TypesetView, Variable, VariableView, Variant, VariantView,
};
use crate::diagnostics::{decimal, push_decimal};
use crate::hir::{opt_type_ref_view, BlockId};
use crate::ids::InFile;
use crate::text::{is_prefix, push_str, str_starts_with};
use std::sync::Arc;
use crate::lower::{child_index, child_ix, child_node, child_node_spec, child_of_kind, child_of_kind_spec, ptr_of, LowerDatabase};
use crate::syntax::{FieldName, NodeKind, NodePtr, SyntaxNode};

verus! {

/// The context of a lowering: the database that indexes nodes, the file, and
/// the rows of the `#pragma deprecated` directives of the file.
pub struct LowerCtx<'a, D: LowerDatabase> {
    pub db: &'a D,
    pub file_id: FileId,
    pub deprecated: Seq<usize>,
}

/// The index of `node` in its file.
pub open spec fn ast<D: LowerDatabase>(c: LowerCtx<D>, node: SyntaxNode) -> AstId {
    c.db.spec_ast_id_of(c.file_id, ptr_of(node))
}

/// The row above the first row of `node` (the first row itself on the first row).
pub open spec fn row_above(node: SyntaxNode) -> usize {
    if node.start_row == 0 {
        0
    } else {
        (node.start_row - 1) as usize
    }
}

/// A node is deprecated when a `#pragma deprecated` directive stands on the row above it.
pub open spec fn deprecated<D: LowerDatabase>(c: LowerCtx<D>, node: SyntaxNode) -> bool {
    c.deprecated.contains(row_above(node))
}

/// Whether `node` has a child of kind `kind`.
pub open spec fn has_child_kind(node: SyntaxNode, kind: NodeKind) -> bool {
    exists|i: int| 0 <= i < node.children.len() && (#[trigger] node.children@[i]).1.kind == kind
}

/// The kind that the first `forward` or `native` keyword among `children`, from `i` on, gives.
pub open spec fn kind_from(children: Seq<(Option<FieldName>, SyntaxNode)>, i: int) -> FunctionKind
    decreases children.len() - i,
{
    if i < 0 || i >= children.len() {
        FunctionKind::Def
    } else if children[i].1.kind == NodeKind::AnonForward {
        FunctionKind::Forward
    } else if children[i].1.kind == NodeKind::AnonNative {
        FunctionKind::Native
    } else {
        kind_from(children, i + 1)
    }
}

/// The kind of the function `node`, as its `kind` child says.
pub open spec fn spec_function_kind(node: SyntaxNode) -> FunctionKind {
    match child_node_spec(node, FieldName::Kind) {
        Some(k) => kind_from(k.children@, 0),
        None => FunctionKind::Def,
    }
}

/// Children without a `forward` or `native` keyword leave the kind to those after them.
proof fn lemma_kind_from_skip(children: Seq<(Option<FieldName>, SyntaxNode)>, i: int)
    requires
        0 <= i <= children.len(),
        forall|j: int|
            0 <= j < i ==> (#[trigger] children[j]).1.kind != NodeKind::AnonForward && children[j].1.kind
                != NodeKind::AnonNative,
    ensures
        kind_from(children, 0) == kind_from(children, i),
    decreases i,
{
    if i > 0 {
        lemma_kind_from_skip(children, i - 1);
        assert(children[i - 1].1.kind != NodeKind::AnonForward);
    }
}

/// The kind of a function is told by the first `forward` or `native` keyword of
/// its `kind` child: `native` makes it native, `forward` a forward; with no such
/// keyword, or no `kind` child, it is a definition.
pub proof fn law_function_kind(node: SyntaxNode, k: SyntaxNode, i: int)
    requires
        child_node_spec(node, FieldName::Kind) == Some(k),
        0 <= i <= k.children.len(),
        forall|j: int|
            0 <= j < i ==> (#[trigger] k.children@[j]).1.kind != NodeKind::AnonForward && k.children@[j].1.kind
                != NodeKind::AnonNative,
    ensures
        i < k.children.len() && k.children@[i].1.kind == NodeKind::AnonNative ==> spec_function_kind(node)
            == FunctionKind::Native,
        i < k.children.len() && k.children@[i].1.kind == NodeKind::AnonForward ==> spec_function_kind(node)
            == FunctionKind::Forward,
        i == k.children.len() ==> spec_function_kind(node) == FunctionKind::Def,
{
    lemma_kind_from_skip(k.children@, i);
}

/// A function without a `kind` child is a definition.
pub proof fn law_function_kind_default(node: SyntaxNode)
    requires
        child_node_spec(node, FieldName::Kind) is None,
    ensures
        spec_function_kind(node) == FunctionKind::Def,
{
}

/// The bit of a visibility keyword; no bit for another node.
pub open spec fn visibility_bit(kind: NodeKind) -> u32 {
    if kind == NodeKind::AnonPublic {
        RawVisibilityId::PUBLIC
    } else if kind == NodeKind::AnonStock {
        RawVisibilityId::STOCK
    } else if kind == NodeKind::AnonStatic {
        RawVisibilityId::STATIC
    } else {
        0
    }
}

/// The bits of the first `n` keywords of a visibility node, over the bit of no keyword.
pub open spec fn visibility_bits(children: Seq<(Option<FieldName>, SyntaxNode)>, n: nat) -> u32
    decreases n,
{
    if n == 0 || n > children.len() {
        RawVisibilityId::NONE
    } else {
        visibility_bits(children, (n - 1) as nat) | visibility_bit(children[n - 1].1.kind)
    }
}

/// The visibility of the declaration `node`, as its `visibility` child says.
pub open spec fn spec_visibility(node: SyntaxNode) -> RawVisibilityId {
    match child_node_spec(node, FieldName::Visibility) {
        Some(v) => RawVisibilityId(visibility_bits(v.children@, v.children.len() as nat)),
        None => RawVisibilityId(RawVisibilityId::NONE),
    }
}

/// Every node with parameters holds them in a list of parameter declarations.
pub open spec fn params_ok(node: SyntaxNode) -> bool
    decreases node,
{
    &&& (child_node_spec(node, FieldName::Parameters) matches Some(p) ==> p.kind == NodeKind::ParameterDeclarations)
    &&& forall|i: int| 0 <= i < node.children.len() ==> params_ok(#[trigger] node.children@[i].1)
}

pub open spec fn push_param(t: ItemTreeView, p: ParamView) -> ItemTreeView {
    ItemTreeView { params: t.params.push(p), ..t }
}

pub open spec fn push_function(t: ItemTreeView, f: FunctionView) -> ItemTreeView {
    ItemTreeView { functions: t.functions.push(f), ..t }
}

pub open spec fn push_top(t: ItemTreeView, item: FileItem) -> ItemTreeView {
    ItemTreeView { top_level: t.top_level.push(item), ..t }
}

/// The parameter that the parameter declaration `n` gives.
pub open spec fn param_of<D: LowerDatabase>(c: LowerCtx<D>, n: SyntaxNode) -> ParamView {
    ParamView {
        type_ref: spec_returntype(n, FieldName::Type),
        ast_id: ast(c, n),
        has_default: child_ix(n, FieldName::DefaultValue) is Some,
        is_rest: n.kind == NodeKind::RestParameter,
        is_const: child_ix(n, FieldName::StorageClass) is Some,
    }
}

/// Allocates the parameters among the first `n` children of the list `p`.
pub open spec fn params_fold<D: LowerDatabase>(c: LowerCtx<D>, t: ItemTreeView, p: SyntaxNode, n: nat) -> ItemTreeView
    decreases n,
{
    if n == 0 || n > p.children.len() {
        t
    } else {
        let t1 = params_fold(c, t, p, (n - 1) as nat);
        let d = p.children@[n - 1].1;
        if d.kind == NodeKind::ParameterDeclaration || d.kind == NodeKind::RestParameter {
            push_param(t1, param_of(c, d))
        } else {
            t1
        }
    }
}

/// Allocates the parameters of `node`; the range of their indices.
pub open spec fn spec_lower_parameters<D: LowerDatabase>(c: LowerCtx<D>, t: ItemTreeView, node: SyntaxNode) -> (
    ItemTreeView,
    IdxRange,
) {
    let start = t.params.len() as usize;
    match child_node_spec(node, FieldName::Parameters) {
        Some(p) => {
            let t1 = params_fold(c, t, p, p.children.len() as nat);
            (t1, IdxRange { start, end: t1.params.len() as usize })
        },
        None => (t, IdxRange { start, end: start }),
    }
}

/// Allocates the function `node` (its parameters first, even when it has no
/// name); its index when it has a name.
pub open spec fn spec_lower_function_<D: LowerDatabase>(
    c: LowerCtx<D>,
    t: ItemTreeView,
    node: SyntaxNode,
    visibility: Option<RawVisibilityId>,
    kind: Option<FunctionKind>,
    special: Option<SpecialMethod>,
) -> (ItemTreeView, Option<usize>) {
    let kind = match kind {
        Some(k) => k,
        None => spec_function_kind(node),
    };
    let (t1, params) = spec_lower_parameters(c, t, node);
    match child_node_spec(node, FieldName::Name) {
        Some(name) => {
            let f = FunctionView {
                name: name.text@,
                kind,
                visibility: match visibility {
                    Some(v) => v,
                    None => spec_visibility(node),
                },
                params,
                special,
                ret_type: spec_returntype(node, FieldName::ReturnType),
                ast_id: ast(c, node),
                deprecated: deprecated(c, node),
            };
            (push_function(t1, f), Some(t1.functions.len() as usize))
        },
        None => (t1, None),
    }
}

/// Lowers the getter or the setter `node` of the property accessor `parent`.
pub open spec fn spec_lower_property_method<D: LowerDatabase>(
    c: LowerCtx<D>,
    t: ItemTreeView,
    node: SyntaxNode,
    parent: SyntaxNode,
    type_ref: TypeRefView,
    kind: FunctionKind,
) -> ItemTreeView {
    if node.kind == NodeKind::MethodmapPropertyGetter {
        let idx = t.params.len() as usize;
        push_function(
            t,
            FunctionView {
                name: "get"@,
                kind,
                visibility: RawVisibilityId(RawVisibilityId::PUBLIC),
                params: IdxRange { start: idx, end: idx },
                special: None,
                ret_type: Some(type_ref),
                ast_id: ast(c, parent),
                deprecated: deprecated(c, node),
            },
        )
    } else if node.kind == NodeKind::MethodmapPropertySetter {
        match child_node_spec(node, FieldName::Parameter) {
            Some(p) => {
                let param = ParamView {
                    type_ref: spec_returntype(p, FieldName::Type),
                    ast_id: ast(c, p),
                    has_default: false,
                    is_rest: false,
                    is_const: child_ix(p, FieldName::StorageClass) is Some,
                };
                let start = t.params.len() as usize;
                let t1 = push_param(t, param);
                push_function(
                    t1,
                    FunctionView {
                        name: "set"@,
                        kind,
                        visibility: RawVisibilityId(RawVisibilityId::NONE),
                        params: IdxRange { start, end: t1.params.len() as usize },
                        special: None,
                        ret_type: None,
                        ast_id: ast(c, parent),
                        deprecated: deprecated(c, node),
                    },
                )
            },
            None => t,
        }
    } else {
        t
    }
}

/// Lowers the accessors among the first `n` children of the accessor node `e1`.
pub open spec fn accessors_fold<D: LowerDatabase>(
    c: LowerCtx<D>,
    t: ItemTreeView,
    e1: SyntaxNode,
    n: nat,
    type_ref: TypeRefView,
    kind: FunctionKind,
) -> ItemTreeView
    decreases n,
{
    if n == 0 || n > e1.children.len() {
        t
    } else {
        spec_lower_property_method(c, accessors_fold(c, t, e1, (n - 1) as nat, type_ref, kind), e1.children@[n - 1].1, e1, type_ref, kind)
    }
}

/// Lowers the accessors of the first `n` accessor nodes among the children of the property `e`.
pub open spec fn property_fold<D: LowerDatabase>(c: LowerCtx<D>, t: ItemTreeView, e: SyntaxNode, n: nat, type_ref: TypeRefView) -> ItemTreeView
    decreases n,
{
    if n == 0 || n > e.children.len() {
        t
    } else {
        let t1 = property_fold(c, t, e, (n - 1) as nat, type_ref);
        let e1 = e.children@[n - 1].1;
        if e1.kind == NodeKind::MethodmapPropertyMethod {
            accessors_fold(c, t1, e1, e1.children.len() as nat, type_ref, FunctionKind::Def)
        } else if e1.kind == NodeKind::MethodmapPropertyNative {
            accessors_fold(c, t1, e1, e1.children.len() as nat, type_ref, FunctionKind::Native)
        } else {
            t1
        }
    }
}

/// Lowers a method of a methodmap: public, and static with the `static` keyword.
pub open spec fn spec_lower_methodmap_method<D: LowerDatabase>(
    c: LowerCtx<D>,
    t: ItemTreeView,
    items: Seq<MethodmapItemId>,
    e: SyntaxNode,
    kind: Option<FunctionKind>,
    special: Option<SpecialMethod>,
) -> (ItemTreeView, Seq<MethodmapItemId>) {
    let visibility = if has_child_kind(e, NodeKind::AnonStatic) {
        RawVisibilityId(RawVisibilityId::PUBLIC | RawVisibilityId::STATIC)
    } else {
        RawVisibilityId(RawVisibilityId::PUBLIC)
    };
    let (t1, r) = spec_lower_function_(c, t, e, Some(visibility), kind, special);
    match r {
        Some(id) => (t1, items.push(MethodmapItemId::Method(id))),
        None => (t1, items),
    }
}

/// Lowers the property `e` of a methodmap: its accessors, then the property.
pub open spec fn spec_lower_property<D: LowerDatabase>(c: LowerCtx<D>, t: ItemTreeView, items: Seq<MethodmapItemId>, e: SyntaxNode) -> (
    ItemTreeView,
    Seq<MethodmapItemId>,
) {
    match (child_node_spec(e, FieldName::Name), spec_returntype(e, FieldName::Type)) {
        (Some(name), Some(type_ref)) => {
            let start = t.functions.len() as usize;
            let t1 = property_fold(c, t, e, e.children.len() as nat, type_ref);
            let p = PropertyView {
                name: name.text@,
                getters_setters: IdxRange { start, end: t1.functions.len() as usize },
                type_ref,
                ast_id: ast(c, e),
                deprecated: deprecated(c, e),
            };
            (
                ItemTreeView { properties: t1.properties.push(p), ..t1 },
                items.push(MethodmapItemId::Property(t1.properties.len() as usize)),
            )
        },
        _ => (t, items),
    }
}

/// Lowers the member `e` of a methodmap.
pub open spec fn spec_lower_methodmap_item<D: LowerDatabase>(
    c: LowerCtx<D>,
    t: ItemTreeView,
    items: Seq<MethodmapItemId>,
    e: SyntaxNode,
) -> (ItemTreeView, Seq<MethodmapItemId>) {
    match e.kind {
        NodeKind::MethodmapProperty => spec_lower_property(c, t, items, e),
        NodeKind::MethodmapMethod => spec_lower_methodmap_method(c, t, items, e, None, None),
        NodeKind::MethodmapMethodConstructor => spec_lower_methodmap_method(c, t, items, e, None, Some(SpecialMethod::Constructor)),
        NodeKind::MethodmapMethodDestructor => spec_lower_methodmap_method(c, t, items, e, None, Some(SpecialMethod::Destructor)),
        NodeKind::MethodmapNative => spec_lower_methodmap_method(c, t, items, e, Some(FunctionKind::Native), None),
        NodeKind::MethodmapNativeConstructor => spec_lower_methodmap_method(
            c,
            t,
            items,
            e,
            Some(FunctionKind::Native),
            Some(SpecialMethod::Constructor),
        ),
        NodeKind::MethodmapNativeDestructor => spec_lower_methodmap_method(
            c,
            t,
            items,
            e,
            Some(FunctionKind::Native),
            Some(SpecialMethod::Destructor),
        ),
        _ => (t, items),
    }
}

/// Lowers the members among the first `n` children of the methodmap `node`.
pub open spec fn methodmap_items_fold<D: LowerDatabase>(c: LowerCtx<D>, t: ItemTreeView, node: SyntaxNode, n: nat) -> (
    ItemTreeView,
    Seq<MethodmapItemId>,
)
    decreases n,
{
    if n == 0 || n > node.children.len() {
        (t, seq![])
    } else {
        let (t1, items) = methodmap_items_fold(c, t, node, (n - 1) as nat);
        spec_lower_methodmap_item(c, t1, items, node.children@[n - 1].1)
    }
}

/// Lowers the methodmap `node`: its members, then the methodmap, a top-level item.
pub open spec fn spec_lower_methodmap<D: LowerDatabase>(c: LowerCtx<D>, t: ItemTreeView, node: SyntaxNode) -> ItemTreeView {
    match child_node_spec(node, FieldName::Name) {
        Some(name) => {
            let (t1, items) = methodmap_items_fold(c, t, node, node.children.len() as nat);
            let m = MethodmapView {
                name: name.text@,
                items,
                inherits: match child_node_spec(node, FieldName::Inherits) {
                    Some(i) => Some(i.text@),
                    None => None,
                },
                nullable: has_child_kind(node, NodeKind::AnonNullable),
                ast_id: ast(c, node),
                deprecated: deprecated(c, node),
            };
            push_top(
                ItemTreeView { methodmaps: t1.methodmaps.push(m), ..t1 },
                FileItem::Methodmap(t1.methodmaps.len() as usize),
            )
        },
        None => t,
    }
}


/// Allocates the variable `v` as a top-level item.
pub open spec fn push_variable(t: ItemTreeView, v: VariableView) -> ItemTreeView {
    push_top(ItemTreeView { variables: t.variables.push(v), ..t }, FileItem::Variable(t.variables.len() as usize))
}

/// Lowers the struct declaration `node` to a public variable.
pub open spec fn spec_lower_struct_declaration<D: LowerDatabase>(c: LowerCtx<D>, t: ItemTreeView, node: SyntaxNode) -> ItemTreeView {
    match child_node_spec(node, FieldName::Name) {
        Some(name) => push_variable(
            t,
            VariableView {
                name: name.text@,
                visibility: RawVisibilityId(RawVisibilityId::PUBLIC),
                type_ref: spec_returntype(node, FieldName::Type),
                ast_id: ast(c, node),
            },
        ),
        None => t,
    }
}

/// Lowers the variables declared among the first `n` children of `node`, of
/// visibility `visibility` and type `type_ref` (with `old_style`, the
/// old-style declarations, each with its own type).
pub open spec fn variables_fold<D: LowerDatabase>(
    c: LowerCtx<D>,
    t: ItemTreeView,
    node: SyntaxNode,
    n: nat,
    visibility: RawVisibilityId,
    type_ref: Option<TypeRefView>,
    old_style: bool,
) -> ItemTreeView
    decreases n,
{
    if n == 0 || n > node.children.len() {
        t
    } else {
        let t1 = variables_fold(c, t, node, (n - 1) as nat, visibility, type_ref, old_style);
        let d = node.children@[n - 1].1;
        let selected = if old_style {
            d.kind == NodeKind::OldVariableDeclaration
        } else {
            d.kind == NodeKind::VariableDeclaration || d.kind == NodeKind::DynamicArrayDeclaration
        };
        if selected {
            match child_node_spec(d, FieldName::Name) {
                Some(name) => push_variable(
                    t1,
                    VariableView {
                        name: name.text@,
                        visibility,
                        type_ref: if old_style {
                            spec_returntype(d, FieldName::Type)
                        } else {
                            type_ref
                        },
                        ast_id: ast(c, d),
                    },
                ),
                None => t1,
            }
        } else {
            t1
        }
    }
}

/// Lowers the variant entries among the first `n` children of the entries `node` of an enum.
pub open spec fn variants_fold<D: LowerDatabase>(c: LowerCtx<D>, t: ItemTreeView, node: SyntaxNode, n: nat) -> ItemTreeView
    decreases n,
{
    if n == 0 || n > node.children.len() {
        t
    } else {
        let t1 = variants_fold(c, t, node, (n - 1) as nat);
        let e = node.children@[n - 1].1;
        if e.kind == NodeKind::EnumEntry {
            match child_node_spec(e, FieldName::Name) {
                Some(name) => push_top(
                    ItemTreeView {
                        variants: t1.variants.push(VariantView { name: name.text@, ast_id: ast(c, e), deprecated: deprecated(c, e) }),
                        ..t1
                    },
                    FileItem::Variant(t1.variants.len() as usize),
                ),
                None => t1,
            }
        } else {
            t1
        }
    }
}

/// The name of an enum: its own, or one made of its index for an unnamed enum.
pub open spec fn enum_name<D: LowerDatabase>(c: LowerCtx<D>, node: SyntaxNode) -> Seq<char> {
    match child_node_spec(node, FieldName::Name) {
        Some(name) => name.text@,
        None => "unnamed_enum_"@ + decimal(ast(c, node) as nat),
    }
}

/// Lowers the enum `node`: its variants, then the enum.
pub open spec fn spec_lower_enum<D: LowerDatabase>(c: LowerCtx<D>, t: ItemTreeView, node: SyntaxNode) -> ItemTreeView {
    let start = t.variants.len() as usize;
    let t1 = match child_node_spec(node, FieldName::Entries) {
        Some(entries) => variants_fold(c, t, entries, entries.children.len() as nat),
        None => t,
    };
    let e = EnumView {
        name: enum_name(c, node),
        variants: IdxRange { start, end: t1.variants.len() as usize },
        ast_id: ast(c, node),
        deprecated: deprecated(c, node),
    };
    push_top(ItemTreeView { enums: t1.enums.push(e), ..t1 }, FileItem::Enum(t1.enums.len() as usize))
}

/// Lowers the function `node`, a top-level item when it has a name.
pub open spec fn spec_lower_function<D: LowerDatabase>(c: LowerCtx<D>, t: ItemTreeView, node: SyntaxNode) -> ItemTreeView {
    let (t1, r) = spec_lower_function_(c, t, node, None, None, None);
    match r {
        Some(id) => push_top(t1, FileItem::Function(id)),
        None => t1,
    }
}

/// Lowers the typedef `node`: the parameters of its type, then the typedef.
pub open spec fn spec_lower_typedef<D: LowerDatabase>(c: LowerCtx<D>, t: ItemTreeView, node: SyntaxNode) -> ItemTreeView {
    match (child_node_spec(node, FieldName::Name), child_of_kind_spec(node, NodeKind::TypedefExpression)) {
        (Some(name), Some(expr)) => match spec_returntype(expr, FieldName::ReturnType) {
            Some(type_ref) => {
                let (t1, params) = spec_lower_parameters(c, t, expr);
                let d = TypedefView { name: Some(name.text@), params, type_ref, ast_id: ast(c, node), deprecated: deprecated(c, node) };
                push_top(ItemTreeView { typedefs: t1.typedefs.push(d), ..t1 }, FileItem::Typedef(t1.typedefs.len() as usize))
            },
            None => t,
        },
        _ => t,
    }
}

/// Lowers the typedef expressions among the first `n` children of the typeset `node`.
pub open spec fn typeset_fold<D: LowerDatabase>(c: LowerCtx<D>, t: ItemTreeView, node: SyntaxNode, n: nat) -> ItemTreeView
    decreases n,
{
    if n == 0 || n > node.children.len() {
        t
    } else {
        let t1 = typeset_fold(c, t, node, (n - 1) as nat);
        let e = node.children@[n - 1].1;
        if e.kind == NodeKind::TypedefExpression {
            match spec_returntype(e, FieldName::ReturnType) {
                Some(type_ref) => {
                    let (t2, params) = spec_lower_parameters(c, t1, e);
                    let d = TypedefView { name: None, params, type_ref, ast_id: ast(c, e), deprecated: deprecated(c, e) };
                    ItemTreeView { typedefs: t2.typedefs.push(d), ..t2 }
                },
                None => t1,
            }
        } else {
            t1
        }
    }
}

/// Lowers the typeset `node`: its typedefs, then the typeset.
pub open spec fn spec_lower_typeset<D: LowerDatabase>(c: LowerCtx<D>, t: ItemTreeView, node: SyntaxNode) -> ItemTreeView {
    match child_node_spec(node, FieldName::Name) {
        Some(name) => {
            let start = t.typedefs.len() as usize;
            let t1 = typeset_fold(c, t, node, node.children.len() as nat);
            let s = TypesetView {
                name: name.text@,
                typedefs: IdxRange { start, end: t1.typedefs.len() as usize },
                ast_id: ast(c, node),
                deprecated: deprecated(c, node),
            };
            push_top(ItemTreeView { typesets: t1.typesets.push(s), ..t1 }, FileItem::Typeset(t1.typesets.len() as usize))
        },
        None => t,
    }
}

/// Lowers the functag `node`: its parameters, then the functag.
pub open spec fn spec_lower_functag<D: LowerDatabase>(c: LowerCtx<D>, t: ItemTreeView, node: SyntaxNode) -> ItemTreeView {
    match child_node_spec(node, FieldName::Name) {
        Some(name) => {
            let (t1, params) = spec_lower_parameters(c, t, node);
            let f = FunctagView {
                name: Some(name.text@),
                params,
                type_ref: spec_returntype(node, FieldName::ReturnType),
                ast_id: ast(c, node),
                deprecated: deprecated(c, node),
            };
            push_top(ItemTreeView { functags: t1.functags.push(f), ..t1 }, FileItem::Functag(t1.functags.len() as usize))
        },
        None => t,
    }
}

/// Lowers the members among the first `n` children of the funcenum `node`.
pub open spec fn funcenum_fold<D: LowerDatabase>(c: LowerCtx<D>, t: ItemTreeView, node: SyntaxNode, n: nat) -> ItemTreeView
    decreases n,
{
    if n == 0 || n > node.children.len() {
        t
    } else {
        let t1 = funcenum_fold(c, t, node, (n - 1) as nat);
        let e = node.children@[n - 1].1;
        if e.kind == NodeKind::FuncenumMember {
            let (t2, params) = spec_lower_parameters(c, t1, e);
            let f = FunctagView {
                name: None,
                params,
                type_ref: spec_returntype(e, FieldName::ReturnType),
                ast_id: ast(c, e),
                deprecated: deprecated(c, e),
            };
            ItemTreeView { functags: t2.functags.push(f), ..t2 }
        } else {
            t1
        }
    }
}

/// Lowers the funcenum `node`: its members, then the funcenum.
pub open spec fn spec_lower_funcenum<D: LowerDatabase>(c: LowerCtx<D>, t: ItemTreeView, node: SyntaxNode) -> ItemTreeView {
    match child_node_spec(node, FieldName::Name) {
        Some(name) => {
            let start = t.functags.len() as usize;
            let t1 = funcenum_fold(c, t, node, node.children.len() as nat);
            let f = FuncenumView {
                name: name.text@,
                functags: IdxRange { start, end: t1.functags.len() as usize },
                ast_id: ast(c, node),
                deprecated: deprecated(c, node),
            };
            push_top(ItemTreeView { funcenums: t1.funcenums.push(f), ..t1 }, FileItem::Funcenum(t1.funcenums.len() as usize))
        },
        None => t,
    }
}

/// Lowers the fields among the first `n` children of the struct `node`.
pub open spec fn struct_fold<D: LowerDatabase>(c: LowerCtx<D>, t: ItemTreeView, node: SyntaxNode, n: nat) -> ItemTreeView
    decreases n,
{
    if n == 0 || n > node.children.len() {
        t
    } else {
        let t1 = struct_fold(c, t, node, (n - 1) as nat);
        let e = node.children@[n - 1].1;
        if e.kind == NodeKind::StructField {
            match (spec_returntype(e, FieldName::Type), child_node_spec(e, FieldName::Name)) {
                (Some(type_ref), Some(name)) => {
                    let f = StructFieldView {
                        name: name.text@,
                        const_: has_child_kind(e, NodeKind::AnonConst),
                        type_ref,
                        ast_id: ast(c, e),
                        deprecated: deprecated(c, e),
                    };
                    ItemTreeView { struct_fields: t1.struct_fields.push(f), ..t1 }
                },
                _ => t1,
            }
        } else {
            t1
        }
    }
}

/// Lowers the struct `node`: its fields, then the struct.
pub open spec fn spec_lower_struct<D: LowerDatabase>(c: LowerCtx<D>, t: ItemTreeView, node: SyntaxNode) -> ItemTreeView {
    match child_node_spec(node, FieldName::Name) {
        Some(name) => {
            let start = t.struct_fields.len() as usize;
            let t1 = struct_fold(c, t, node, node.children.len() as nat);
            let s = StructView {
                name: name.text@,
                fields: IdxRange { start, end: t1.struct_fields.len() as usize },
                ast_id: ast(c, node),
                deprecated: deprecated(c, node),
            };
            push_top(ItemTreeView { structs: t1.structs.push(s), ..t1 }, FileItem::Struct(t1.structs.len() as usize))
        },
        None => t,
    }
}

/// Lowers the member `e` of an enum struct: a field or a method.
pub open spec fn spec_lower_enum_struct_item<D: LowerDatabase>(
    c: LowerCtx<D>,
    t: ItemTreeView,
    items: Seq<EnumStructItemId>,
    e: SyntaxNode,
) -> (ItemTreeView, Seq<EnumStructItemId>) {
    if e.kind == NodeKind::EnumStructField {
        match (child_node_spec(e, FieldName::Name), spec_returntype(e, FieldName::Type)) {
            (Some(name), Some(type_ref)) => {
                let f = FieldView { name: name.text@, type_ref, ast_id: ast(c, e), deprecated: deprecated(c, e) };
                (ItemTreeView { fields: t.fields.push(f), ..t }, items.push(EnumStructItemId::Field(t.fields.len() as usize)))
            },
            _ => (t, items),
        }
    } else if e.kind == NodeKind::EnumStructMethod {
        let (t1, r) = spec_lower_function_(c, t, e, None, None, None);
        match r {
            Some(id) => (t1, items.push(EnumStructItemId::Method(id))),
            None => (t1, items),
        }
    } else {
        (t, items)
    }
}

/// Lowers the members among the first `n` children of the enum struct `node`.
pub open spec fn enum_struct_fold<D: LowerDatabase>(c: LowerCtx<D>, t: ItemTreeView, node: SyntaxNode, n: nat) -> (
    ItemTreeView,
    Seq<EnumStructItemId>,
)
    decreases n,
{
    if n == 0 || n > node.children.len() {
        (t, seq![])
    } else {
        let (t1, items) = enum_struct_fold(c, t, node, (n - 1) as nat);
        spec_lower_enum_struct_item(c, t1, items, node.children@[n - 1].1)
    }
}

/// Lowers the enum struct `node`: its members, then the enum struct.
pub open spec fn spec_lower_enum_struct<D: LowerDatabase>(c: LowerCtx<D>, t: ItemTreeView, node: SyntaxNode) -> ItemTreeView {
    match child_node_spec(node, FieldName::Name) {
        Some(name) => {
            let (t1, items) = enum_struct_fold(c, t, node, node.children.len() as nat);
            let s = EnumStructView { name: name.text@, items, ast_id: ast(c, node), deprecated: deprecated(c, node) };
            push_top(
                ItemTreeView { enum_structs: t1.enum_structs.push(s), ..t1 },
                FileItem::EnumStruct(t1.enum_structs.len() as usize),
            )
        },
        None => t,
    }
}

/// Lowers the top-level declaration `node`, by its kind.
pub open spec fn spec_lower_item<D: LowerDatabase>(c: LowerCtx<D>, t: ItemTreeView, node: SyntaxNode) -> ItemTreeView {
    match node.kind {
        NodeKind::FunctionDefinition | NodeKind::FunctionDeclaration => spec_lower_function(c, t, node),
        NodeKind::Enum => spec_lower_enum(c, t, node),
        NodeKind::StructDeclaration => spec_lower_struct_declaration(c, t, node),
        NodeKind::GlobalVariableDeclaration => variables_fold(
            c,
            t,
            node,
            node.children.len() as nat,
            spec_visibility(node),
            spec_returntype(node, FieldName::Type),
            false,
        ),
        NodeKind::OldGlobalVariableDeclaration => variables_fold(
            c,
            t,
            node,
            node.children.len() as nat,
            spec_visibility(node),
            None,
            true,
        ),
        NodeKind::EnumStruct => spec_lower_enum_struct(c, t, node),
        NodeKind::Methodmap => spec_lower_methodmap(c, t, node),
        NodeKind::Typedef => spec_lower_typedef(c, t, node),
        NodeKind::Typeset => spec_lower_typeset(c, t, node),
        NodeKind::Functag => spec_lower_functag(c, t, node),
        NodeKind::Funcenum => spec_lower_funcenum(c, t, node),
        NodeKind::Struct => spec_lower_struct(c, t, node),
        _ => t,
    }
}

/// Lowers the first `n` top-level declarations among the children of `root`.
pub open spec fn items_fold<D: LowerDatabase>(c: LowerCtx<D>, t: ItemTreeView, root: SyntaxNode, n: nat) -> ItemTreeView
    decreases n,
{
    if n == 0 || n > root.children.len() {
        t
    } else {
        spec_lower_item(c, items_fold(c, t, root, (n - 1) as nat), root.children@[n - 1].1)
    }
}

/// Allocates the macro that `node` defines, if it is a macro definition with a name.
pub open spec fn spec_lower_macro<D: LowerDatabase>(c: LowerCtx<D>, t: ItemTreeView, node: SyntaxNode) -> ItemTreeView {
    if node.kind == NodeKind::PreprocMacro || node.kind == NodeKind::PreprocDefine {
        match child_node_spec(node, FieldName::Name) {
            Some(name) => push_top(
                ItemTreeView {
                    macros: t.macros.push(MacroView { name: name.text@, ast_id: ast(c, node), deprecated: deprecated(c, node) }),
                    ..t
                },
                FileItem::Macro(t.macros.len() as usize),
            ),
            None => t,
        }
    } else {
        t
    }
}

/// Allocates the macros defined in the tree rooted at `node`, in document order.
pub open spec fn macros_of<D: LowerDatabase>(c: LowerCtx<D>, t: ItemTreeView, node: SyntaxNode) -> ItemTreeView
    decreases node, 1nat, 0nat,
{
    macros_children(c, spec_lower_macro(c, t, node), node, node.children.len() as nat)
}

/// Allocates the macros defined under the first `n` children of `node`.
pub open spec fn macros_children<D: LowerDatabase>(c: LowerCtx<D>, t: ItemTreeView, node: SyntaxNode, n: nat) -> ItemTreeView
    decreases node, 0nat, n,
{
    if n == 0 || n > node.children.len() {
        t
    } else {
        macros_of(c, macros_children(c, t, node, (n - 1) as nat), node.children@[n - 1].1)
    }
}

/// The text that starts a deprecation directive.
pub open spec fn deprecation_prefix() -> Seq<char> {
    "#pragma deprecated"@
}

/// The rows of the deprecation directives in the tree rooted at `node`, in document order.
pub open spec fn pragma_rows(node: SyntaxNode) -> Seq<usize>
    decreases node, 1nat, 0nat,
{
    (if node.kind == NodeKind::PreprocPragma && is_prefix(node.text@, deprecation_prefix()) {
        seq![node.start_row]
    } else {
        seq![]
    }) + pragma_rows_children(node, node.children.len() as nat)
}

pub open spec fn pragma_rows_children(node: SyntaxNode, n: nat) -> Seq<usize>
    decreases node, 0nat, n,
{
    if n == 0 || n > node.children.len() {
        seq![]
    } else {
        pragma_rows_children(node, (n - 1) as nat) + pragma_rows(node.children@[n - 1].1)
    }
}

/// The item tree of the file `fid` whose syntax tree is `root`: its
/// declarations, then the macros that it defines.
pub open spec fn spec_file_item_tree<D: LowerDatabase>(db: &D, fid: FileId, root: SyntaxNode) -> ItemTreeView {
    let c = LowerCtx { db, file_id: fid, deprecated: pragma_rows(root) };
    macros_of(c, items_fold(c, empty_tree_view(), root, root.children.len() as nat), root)
}

/// The variables declared among the first `n` statements of the block `node`.
pub open spec fn block_fold<D: LowerDatabase>(c: LowerCtx<D>, t: ItemTreeView, node: SyntaxNode, n: nat) -> ItemTreeView
    decreases n,
{
    if n == 0 || n > node.children.len() {
        t
    } else {
        let t1 = block_fold(c, t, node, (n - 1) as nat);
        let s = node.children@[n - 1].1;
        let none = RawVisibilityId(RawVisibilityId::NONE);
        if s.kind == NodeKind::VariableDeclarationStatement {
            variables_fold(c, t1, s, s.children.len() as nat, none, spec_returntype(s, FieldName::Type), false)
        } else if s.kind == NodeKind::OldVariableDeclarationStatement || s.kind == NodeKind::OldForLoopVariableDeclarationStatement {
            variables_fold(c, t1, s, s.children.len() as nat, none, None, true)
        } else {
            t1
        }
    }
}

/// Lowers the syntax of a file into an item tree.
pub struct Ctx<'a, D: LowerDatabase> {
    pub db: &'a D,
    pub file_id: FileId,
    pub deprecated: Vec<usize>,
    pub tree: ItemTree,
}

/// The kind of the function `node`, as its `kind` child says.
pub fn function_kind_from_node(node: &SyntaxNode) -> (res: FunctionKind)
    ensures
        res == spec_function_kind(*node),
{
    match child_node(node, FieldName::Kind) {
        Some(k) => {
            let mut i: usize = 0;
            while i < k.children.len()
                invariant
                    0 <= i <= k.children.len(),
                    child_node_spec(*node, FieldName::Kind) == Some(*k),
                    kind_from(k.children@, 0) == kind_from(k.children@, i as int),
                decreases k.children.len() - i,
            {
                if k.children[i].1.kind == NodeKind::AnonForward {
                    return FunctionKind::Forward;
                }
                if k.children[i].1.kind == NodeKind::AnonNative {
                    return FunctionKind::Native;
                }
                i = i + 1;
            }
            FunctionKind::Def
        },
        None => FunctionKind::Def,
    }
}

/// The visibility of the declaration `node`, as its `visibility` child says.
pub fn visibility_from_node(node: &SyntaxNode) -> (res: RawVisibilityId)
    ensures
        res == spec_visibility(*node),
{
    match child_node(node, FieldName::Visibility) {
        Some(v) => {
            let mut bits: u32 = RawVisibilityId::NONE;
            let mut i: usize = 0;
            while i < v.children.len()
                invariant
                    0 <= i <= v.children.len(),
                    bits == visibility_bits(v.children@, i as nat),
                decreases v.children.len() - i,
            {
                let k = v.children[i].1.kind;
                let bit = if k == NodeKind::AnonPublic {
                    RawVisibilityId::PUBLIC
                } else if k == NodeKind::AnonStock {
                    RawVisibilityId::STOCK
                } else if k == NodeKind::AnonStatic {
                    RawVisibilityId::STATIC
                } else {
                    0
                };
                bits = bits | bit;
                i = i + 1;
            }
            RawVisibilityId(bits)
        },
        None => RawVisibilityId(RawVisibilityId::NONE),
    }
}

/// Whether `node` has a child of kind `kind`.
pub fn has_kind(node: &SyntaxNode, kind: NodeKind) -> (res: bool)
    ensures
        res == has_child_kind(*node, kind),
{
    let mut i: usize = 0;
    while i < node.children.len()
        invariant
            0 <= i <= node.children.len(),
            forall|k: int| 0 <= k < i ==> (#[trigger] node.children@[k]).1.kind != kind,
        decreases node.children.len() - i,
    {
        if node.children[i].1.kind == kind {
            assert(node.children@[i as int].1.kind == kind);
            return true;
        }
        i = i + 1;
    }
    false
}

impl<'a, D: LowerDatabase> Ctx<'a, D> {
    pub open spec fn ctx(&self) -> LowerCtx<'a, D> {
        LowerCtx { db: self.db, file_id: self.file_id, deprecated: self.deprecated@ }
    }

    fn ast_id_of(&self, node: &SyntaxNode) -> (res: AstId)
        ensures
            res == ast(self.ctx(), *node),
    {
        self.db.ast_id_of(self.file_id, NodePtr::from_node(node))
    }

    fn is_deprecated(&self, node: &SyntaxNode) -> (res: bool)
        ensures
            res == deprecated(self.ctx(), *node),
    {
        let row = if node.start_row == 0 {
            0
        } else {
            node.start_row - 1
        };
        let mut i: usize = 0;
        while i < self.deprecated.len()
            invariant
                0 <= i <= self.deprecated.len(),
                row == row_above(*node),
                forall|k: int| 0 <= k < i ==> self.deprecated@[k] != row,
            decreases self.deprecated.len() - i,
        {
            if self.deprecated[i] == row {
                assert(self.deprecated@[i as int] == row);
                return true;
            }
            i = i + 1;
        }
        false
    }

    fn alloc_param(&mut self, p: Param) -> (res: usize)
        ensures
            final(self).ctx() == old(self).ctx(),
            final(self).tree@ == push_param(old(self).tree@, p@),
            res == old(self).tree.params.len(),
    {
        let id = self.tree.params.len();
        let ghost v0 = self.tree@;
        self.tree.params.push(p);
        assert(self.tree@.params =~= v0.params.push(p@));
        id
    }

    fn alloc_function(&mut self, f: Function) -> (res: usize)
        ensures
            final(self).ctx() == old(self).ctx(),
            final(self).tree@ == push_function(old(self).tree@, f@),
            res == old(self).tree.functions.len(),
    {
        let id = self.tree.functions.len();
        let ghost v0 = self.tree@;
        self.tree.functions.push(f);
        assert(self.tree@.functions =~= v0.functions.push(f@));
        id
    }

    fn alloc_property(&mut self, p: Property) -> (res: usize)
        ensures
            final(self).ctx() == old(self).ctx(),
            final(self).tree@ == (ItemTreeView { properties: old(self).tree@.properties.push(p@), ..old(self).tree@ }),
            res == old(self).tree.properties.len(),
    {
        let id = self.tree.properties.len();
        let ghost v0 = self.tree@;
        self.tree.properties.push(p);
        assert(self.tree@.properties =~= v0.properties.push(p@));
        id
    }

    fn alloc_methodmap(&mut self, m: Methodmap) -> (res: usize)
        ensures
            final(self).ctx() == old(self).ctx(),
            final(self).tree@ == (ItemTreeView { methodmaps: old(self).tree@.methodmaps.push(m@), ..old(self).tree@ }),
            res == old(self).tree.methodmaps.len(),
    {
        let id = self.tree.methodmaps.len();
        let ghost v0 = self.tree@;
        self.tree.methodmaps.push(m);
        assert(self.tree@.methodmaps =~= v0.methodmaps.push(m@));
        id
    }

    fn push_top_level(&mut self, item: FileItem)
        ensures
            final(self).ctx() == old(self).ctx(),
            final(self).tree@ == push_top(old(self).tree@, item),
    {
        self.tree.top_level.push(item);
    }

    /// Allocates the parameters of `node`; the range of their indices.
    fn lower_parameters(&mut self, node: &SyntaxNode) -> (res: IdxRange)
        requires
            params_ok(*node),
        ensures
            final(self).ctx() == old(self).ctx(),
            (final(self).tree@, res) == spec_lower_parameters(old(self).ctx(), old(self).tree@, *node),
    {
        let start = self.tree.params.len();
        match child_node(node, FieldName::Parameters) {
            Some(p) => {
                let ghost t0 = self.tree@;
                let ghost c0 = self.ctx();
                let mut i: usize = 0;
                while i < p.children.len()
                    invariant
                        0 <= i <= p.children.len(),
                        self.ctx() == c0,
                        self.tree@ == params_fold(c0, t0, *p, i as nat),
                    decreases p.children.len() - i,
                {
                    let n = &p.children[i].1;
                    if n.kind == NodeKind::ParameterDeclaration || n.kind == NodeKind::RestParameter {
                        let param = Param {
                            type_ref: TypeRef::from_returntype_node(n, FieldName::Type),
                            ast_id: self.ast_id_of(n),
                            has_default: child_index(n, FieldName::DefaultValue).is_some(),
                            is_rest: n.kind == NodeKind::RestParameter,
                            is_const: child_index(n, FieldName::StorageClass).is_some(),
                        };
                        self.alloc_param(param);
                    }
                    i = i + 1;
                }
                IdxRange { start, end: self.tree.params.len() }
            },
            None => IdxRange { start, end: start },
        }
    }

    /// Allocates the function `node`; its index when it has a name.
    fn lower_function_(
        &mut self,
        node: &SyntaxNode,
        visibility: Option<RawVisibilityId>,
        kind: Option<FunctionKind>,
        special: Option<SpecialMethod>,
    ) -> (res: Option<usize>)
        requires
            params_ok(*node),
        ensures
            final(self).ctx() == old(self).ctx(),
            (final(self).tree@, res) == spec_lower_function_(old(self).ctx(), old(self).tree@, *node, visibility, kind, special),
    {
        let kind = match kind {
            Some(kind) => kind,
            None => function_kind_from_node(node),
        };
        let params = self.lower_parameters(node);
        let name_node = match child_node(node, FieldName::Name) {
            Some(n) => n,
            None => return None,
        };
        let visibility = match visibility {
            Some(v) => v,
            None => visibility_from_node(node),
        };
        let f = Function {
            name: Name(name_node.text.clone()),
            kind,
            ret_type: TypeRef::from_returntype_node(node, FieldName::ReturnType),
            visibility,
            params,
            special,
            ast_id: self.ast_id_of(node),
            deprecated: self.is_deprecated(node),
        };
        Some(self.alloc_function(f))
    }

    /// Lowers the getter or the setter `node` of the accessor node `parent`.
    fn lower_property_method(&mut self, node: &SyntaxNode, parent: &SyntaxNode, type_ref: &TypeRef, kind: FunctionKind)
        ensures
            final(self).ctx() == old(self).ctx(),
            final(self).tree@ == spec_lower_property_method(old(self).ctx(), old(self).tree@, *node, *parent, type_ref@, kind),
    {
        if node.kind == NodeKind::MethodmapPropertyGetter {
            let idx = self.tree.params.len();
            let f = Function {
                name: Name::from_str("get"),
                kind,
                ret_type: Some(type_ref.clone()),
                visibility: RawVisibilityId(RawVisibilityId::PUBLIC),
                params: IdxRange { start: idx, end: idx },
                special: None,
                ast_id: self.ast_id_of(parent),
                deprecated: self.is_deprecated(node),
            };
            self.alloc_function(f);
        } else if node.kind == NodeKind::MethodmapPropertySetter {
            let p = match child_node(node, FieldName::Parameter) {
                Some(p) => p,
                None => return ,
            };
            let param = Param {
                type_ref: TypeRef::from_returntype_node(p, FieldName::Type),
                ast_id: self.ast_id_of(p),
                has_default: false,
                is_rest: false,
                is_const: child_index(p, FieldName::StorageClass).is_some(),
            };
            let start = self.tree.params.len();
            self.alloc_param(param);
            let end = self.tree.params.len();
            let f = Function {
                name: Name::from_str("set"),
                kind,
                ret_type: None,
                visibility: RawVisibilityId(RawVisibilityId::NONE),
                params: IdxRange { start, end },
                special: None,
                ast_id: self.ast_id_of(parent),
                deprecated: self.is_deprecated(node),
            };
            self.alloc_function(f);
        }
    }

    /// Lowers the accessors that are children of the accessor node `e1`.
    fn lower_accessors(&mut self, e1: &SyntaxNode, type_ref: &TypeRef, kind: FunctionKind)
        ensures
            final(self).ctx() == old(self).ctx(),
            final(self).tree@ == accessors_fold(old(self).ctx(), old(self).tree@, *e1, e1.children.len() as nat, type_ref@, kind),
    {
        let ghost t0 = self.tree@;
        let ghost c0 = self.ctx();
        let mut i: usize = 0;
        while i < e1.children.len()
            invariant
                0 <= i <= e1.children.len(),
                self.ctx() == c0,
                self.tree@ == accessors_fold(c0, t0, *e1, i as nat, type_ref@, kind),
            decreases e1.children.len() - i,
        {
            self.lower_property_method(&e1.children[i].1, e1, type_ref, kind);
            i = i + 1;
        }
    }

    /// Lowers a method of a methodmap.
    fn lower_methodmap_method(
        &mut self,
        e: &SyntaxNode,
        items: &mut Vec<MethodmapItemId>,
        kind: Option<FunctionKind>,
        special: Option<SpecialMethod>,
    )
        requires
            params_ok(*e),
        ensures
            final(self).ctx() == old(self).ctx(),
            (final(self).tree@, final(items)@) == spec_lower_methodmap_method(
                old(self).ctx(),
                old(self).tree@,
                old(items)@,
                *e,
                kind,
                special,
            ),
    {
        let visibility = if has_kind(e, NodeKind::AnonStatic) {
            RawVisibilityId(RawVisibilityId::PUBLIC | RawVisibilityId::STATIC)
        } else {
            RawVisibilityId(RawVisibilityId::PUBLIC)
        };
        if let Some(id) = self.lower_function_(e, Some(visibility), kind, special) {
            items.push(MethodmapItemId::Method(id));
        }
    }

    /// Lowers the property `e` of a methodmap.
    fn lower_property(&mut self, e: &SyntaxNode, items: &mut Vec<MethodmapItemId>)
        ensures
            final(self).ctx() == old(self).ctx(),
            (final(self).tree@, final(items)@) == spec_lower_property(old(self).ctx(), old(self).tree@, old(items)@, *e),
    {
        let name = match child_node(e, FieldName::Name) {
            Some(n) => n,
            None => return ,
        };
        let type_ref = match TypeRef::from_returntype_node(e, FieldName::Type) {
            Some(t) => t,
            None => return ,
        };
        let start = self.tree.functions.len();
        let ghost t0 = self.tree@;
        let ghost c0 = self.ctx();
        let mut i: usize = 0;
        while i < e.children.len()
            invariant
                0 <= i <= e.children.len(),
                self.ctx() == c0,
                self.tree@ == property_fold(c0, t0, *e, i as nat, type_ref@),
            decreases e.children.len() - i,
        {
            let e1 = &e.children[i].1;
            if e1.kind == NodeKind::MethodmapPropertyMethod {
                self.lower_accessors(e1, &type_ref, FunctionKind::Def);
            } else if e1.kind == NodeKind::MethodmapPropertyNative {
                self.lower_accessors(e1, &type_ref, FunctionKind::Native);
            }
            i = i + 1;
        }
        let end = self.tree.functions.len();
        let p = Property {
            name: Name(name.text.clone()),
            getters_setters: IdxRange { start, end },
            type_ref,
            ast_id: self.ast_id_of(e),
            deprecated: self.is_deprecated(e),
        };
        let id = self.alloc_property(p);
        items.push(MethodmapItemId::Property(id));
    }

    /// Lowers the methodmap `node`.
    fn lower_methodmap(&mut self, node: &SyntaxNode)
        requires
            params_ok(*node),
        ensures
            final(self).ctx() == old(self).ctx(),
            final(self).tree@ == spec_lower_methodmap(old(self).ctx(), old(self).tree@, *node),
    {
        let name = match child_node(node, FieldName::Name) {
            Some(n) => n,
            None => return ,
        };
        let ghost t0 = self.tree@;
        let ghost c0 = self.ctx();
        let mut items: Vec<MethodmapItemId> = Vec::new();
        let mut i: usize = 0;
        while i < node.children.len()
            invariant
                0 <= i <= node.children.len(),
                params_ok(*node),
                self.ctx() == c0,
                (self.tree@, items@) == methodmap_items_fold(c0, t0, *node, i as nat),
            decreases node.children.len() - i,
        {
            let e = &node.children[i].1;
            assert(params_ok(node.children@[i as int].1));
            match e.kind {
                NodeKind::MethodmapProperty => self.lower_property(e, &mut items),
                NodeKind::MethodmapMethod => self.lower_methodmap_method(e, &mut items, None, None),
                NodeKind::MethodmapMethodConstructor => self.lower_methodmap_method(
                    e,
                    &mut items,
                    None,
                    Some(SpecialMethod::Constructor),
                ),
                NodeKind::MethodmapMethodDestructor => self.lower_methodmap_method(
                    e,
                    &mut items,
                    None,
                    Some(SpecialMethod::Destructor),
                ),
                NodeKind::MethodmapNative => self.lower_methodmap_method(e, &mut items, Some(FunctionKind::Native), None),
                NodeKind::MethodmapNativeConstructor => self.lower_methodmap_method(
                    e,
                    &mut items,
                    Some(FunctionKind::Native),
                    Some(SpecialMethod::Constructor),
                ),
                NodeKind::MethodmapNativeDestructor => self.lower_methodmap_method(
                    e,
                    &mut items,
                    Some(FunctionKind::Native),
                    Some(SpecialMethod::Destructor),
                ),
                _ => {},
            }
            i = i + 1;
        }
        let inherits = match child_node(node, FieldName::Inherits) {
            Some(n) => Some(Name(n.text.clone())),
            None => None,
        };
        let m = Methodmap {
            name: Name(name.text.clone()),
            items,
            inherits,
            nullable: has_kind(node, NodeKind::AnonNullable),
            ast_id: self.ast_id_of(node),
            deprecated: self.is_deprecated(node),
        };
        let id = self.alloc_methodmap(m);
        self.push_top_level(FileItem::Methodmap(id));
    }
}

impl<'a, D: LowerDatabase> Ctx<'a, D> {
    fn alloc_variable(&mut self, x: Variable) -> (res: usize)
        ensures
            final(self).ctx() == old(self).ctx(),
            final(self).tree@ == (ItemTreeView { variables: old(self).tree@.variables.push(x@), ..old(self).tree@ }),
            res == old(self).tree.variables.len(),
    {
        let id = self.tree.variables.len();
        let ghost v0 = self.tree@;
        self.tree.variables.push(x);
        assert(self.tree@.variables =~= v0.variables.push(x@));
        id
    }

    fn alloc_variant(&mut self, x: Variant) -> (res: usize)
        ensures
            final(self).ctx() == old(self).ctx(),
            final(self).tree@ == (ItemTreeView { variants: old(self).tree@.variants.push(x@), ..old(self).tree@ }),
            res == old(self).tree.variants.len(),
    {
        let id = self.tree.variants.len();
        let ghost v0 = self.tree@;
        self.tree.variants.push(x);
        assert(self.tree@.variants =~= v0.variants.push(x@));
        id
    }

    fn alloc_enum(&mut self, x: Enum) -> (res: usize)
        ensures
            final(self).ctx() == old(self).ctx(),
            final(self).tree@ == (ItemTreeView { enums: old(self).tree@.enums.push(x@), ..old(self).tree@ }),
            res == old(self).tree.enums.len(),
    {
        let id = self.tree.enums.len();
        let ghost v0 = self.tree@;
        self.tree.enums.push(x);
        assert(self.tree@.enums =~= v0.enums.push(x@));
        id
    }

    fn alloc_typedef(&mut self, x: Typedef) -> (res: usize)
        ensures
            final(self).ctx() == old(self).ctx(),
            final(self).tree@ == (ItemTreeView { typedefs: old(self).tree@.typedefs.push(x@), ..old(self).tree@ }),
            res == old(self).tree.typedefs.len(),
    {
        let id = self.tree.typedefs.len();
        let ghost v0 = self.tree@;
        self.tree.typedefs.push(x);
        assert(self.tree@.typedefs =~= v0.typedefs.push(x@));
        id
    }

    fn alloc_typeset(&mut self, x: Typeset) -> (res: usize)
        ensures
            final(self).ctx() == old(self).ctx(),
            final(self).tree@ == (ItemTreeView { typesets: old(self).tree@.typesets.push(x@), ..old(self).tree@ }),
            res == old(self).tree.typesets.len(),
    {
        let id = self.tree.typesets.len();
        let ghost v0 = self.tree@;
        self.tree.typesets.push(x);
        assert(self.tree@.typesets =~= v0.typesets.push(x@));
        id
    }

    fn alloc_functag(&mut self, x: Functag) -> (res: usize)
        ensures
            final(self).ctx() == old(self).ctx(),
            final(self).tree@ == (ItemTreeView { functags: old(self).tree@.functags.push(x@), ..old(self).tree@ }),
            res == old(self).tree.functags.len(),
    {
        let id = self.tree.functags.len();
        let ghost v0 = self.tree@;
        self.tree.functags.push(x);
        assert(self.tree@.functags =~= v0.functags.push(x@));
        id
    }

    fn alloc_funcenum(&mut self, x: Funcenum) -> (res: usize)
        ensures
            final(self).ctx() == old(self).ctx(),
            final(self).tree@ == (ItemTreeView { funcenums: old(self).tree@.funcenums.push(x@), ..old(self).tree@ }),
            res == old(self).tree.funcenums.len(),
    {
        let id = self.tree.funcenums.len();
        let ghost v0 = self.tree@;
        self.tree.funcenums.push(x);
        assert(self.tree@.funcenums =~= v0.funcenums.push(x@));
        id
    }

    fn alloc_struct_field(&mut self, x: StructField) -> (res: usize)
        ensures
            final(self).ctx() == old(self).ctx(),
            final(self).tree@ == (ItemTreeView { struct_fields: old(self).tree@.struct_fields.push(x@), ..old(self).tree@ }),
            res == old(self).tree.struct_fields.len(),
    {
        let id = self.tree.struct_fields.len();
        let ghost v0 = self.tree@;
        self.tree.struct_fields.push(x);
        assert(self.tree@.struct_fields =~= v0.struct_fields.push(x@));
        id
    }

    fn alloc_struct(&mut self, x: Struct) -> (res: usize)
        ensures
            final(self).ctx() == old(self).ctx(),
            final(self).tree@ == (ItemTreeView { structs: old(self).tree@.structs.push(x@), ..old(self).tree@ }),
            res == old(self).tree.structs.len(),
    {
        let id = self.tree.structs.len();
        let ghost v0 = self.tree@;
        self.tree.structs.push(x);
        assert(self.tree@.structs =~= v0.structs.push(x@));
        id
    }

    fn alloc_field(&mut self, x: Field) -> (res: usize)
        ensures
            final(self).ctx() == old(self).ctx(),
            final(self).tree@ == (ItemTreeView { fields: old(self).tree@.fields.push(x@), ..old(self).tree@ }),
            res == old(self).tree.fields.len(),
    {
        let id = self.tree.fields.len();
        let ghost v0 = self.tree@;
        self.tree.fields.push(x);
        assert(self.tree@.fields =~= v0.fields.push(x@));
        id
    }

    fn alloc_enum_struct(&mut self, x: EnumStruct) -> (res: usize)
        ensures
            final(self).ctx() == old(self).ctx(),
            final(self).tree@ == (ItemTreeView { enum_structs: old(self).tree@.enum_structs.push(x@), ..old(self).tree@ }),
            res == old(self).tree.enum_structs.len(),
    {
        let id = self.tree.enum_structs.len();
        let ghost v0 = self.tree@;
        self.tree.enum_structs.push(x);
        assert(self.tree@.enum_structs =~= v0.enum_structs.push(x@));
        id
    }

    fn alloc_macro(&mut self, x: Macro) -> (res: usize)
        ensures
            final(self).ctx() == old(self).ctx(),
            final(self).tree@ == (ItemTreeView { macros: old(self).tree@.macros.push(x@), ..old(self).tree@ }),
            res == old(self).tree.macros.len(),
    {
        let id = self.tree.macros.len();
        let ghost v0 = self.tree@;
        self.tree.macros.push(x);
        assert(self.tree@.macros =~= v0.macros.push(x@));
        id
    }

}

fn clone_type(t: &Option<TypeRef>) -> (res: Option<TypeRef>)
    ensures
        opt_type_ref_view(res) == opt_type_ref_view(*t),
{
    match t {
        Some(t) => Some(t.clone()),
        None => None,
    }
}

impl<'a, D: LowerDatabase> Ctx<'a, D> {
    fn push_variable_item(&mut self, v: Variable)
        ensures
            final(self).ctx() == old(self).ctx(),
            final(self).tree@ == push_variable(old(self).tree@, v@),
    {
        let id = self.alloc_variable(v);
        self.push_top_level(FileItem::Variable(id));
    }

    /// Lowers the struct declaration `node`.
    fn lower_struct_declaration(&mut self, node: &SyntaxNode)
        ensures
            final(self).ctx() == old(self).ctx(),
            final(self).tree@ == spec_lower_struct_declaration(old(self).ctx(), old(self).tree@, *node),
    {
        let type_ref = TypeRef::from_returntype_node(node, FieldName::Type);
        if let Some(name) = child_node(node, FieldName::Name) {
            let v = Variable {
                name: Name(name.text.clone()),
                visibility: RawVisibilityId(RawVisibilityId::PUBLIC),
                type_ref,
                ast_id: self.ast_id_of(node),
            };
            self.push_variable_item(v);
        }
    }

    /// Lowers the variables declared among the children of `node`.
    fn lower_variables(&mut self, node: &SyntaxNode, visibility: RawVisibilityId, type_ref: &Option<TypeRef>, old_style: bool)
        ensures
            final(self).ctx() == old(self).ctx(),
            final(self).tree@ == variables_fold(
                old(self).ctx(),
                old(self).tree@,
                *node,
                node.children.len() as nat,
                visibility,
                opt_type_ref_view(*type_ref),
                old_style,
            ),
    {
        let ghost t0 = self.tree@;
        let ghost c0 = self.ctx();
        let mut i: usize = 0;
        while i < node.children.len()
            invariant
                0 <= i <= node.children.len(),
                self.ctx() == c0,
                self.tree@ == variables_fold(c0, t0, *node, i as nat, visibility, opt_type_ref_view(*type_ref), old_style),
            decreases node.children.len() - i,
        {
            let d = &node.children[i].1;
            let selected = if old_style {
                d.kind == NodeKind::OldVariableDeclaration
            } else {
                d.kind == NodeKind::VariableDeclaration || d.kind == NodeKind::DynamicArrayDeclaration
            };
            if selected {
                if let Some(name) = child_node(d, FieldName::Name) {
                    let t = if old_style {
                        TypeRef::from_returntype_node(d, FieldName::Type)
                    } else {
                        clone_type(type_ref)
                    };
                    let v = Variable { name: Name(name.text.clone()), visibility, type_ref: t, ast_id: self.ast_id_of(d) };
                    self.push_variable_item(v);
                }
            }
            i = i + 1;
        }
    }

    /// Lowers the enum `node`.
    fn lower_enum(&mut self, node: &SyntaxNode)
        ensures
            final(self).ctx() == old(self).ctx(),
            final(self).tree@ == spec_lower_enum(old(self).ctx(), old(self).tree@, *node),
    {
        let start = self.tree.variants.len();
        if let Some(entries) = child_node(node, FieldName::Entries) {
            let ghost t0 = self.tree@;
            let ghost c0 = self.ctx();
            let mut i: usize = 0;
            while i < entries.children.len()
                invariant
                    0 <= i <= entries.children.len(),
                    self.ctx() == c0,
                    self.tree@ == variants_fold(c0, t0, *entries, i as nat),
                decreases entries.children.len() - i,
            {
                let e = &entries.children[i].1;
                if e.kind == NodeKind::EnumEntry {
                    if let Some(name) = child_node(e, FieldName::Name) {
                        let v = Variant { name: Name(name.text.clone()), ast_id: self.ast_id_of(e), deprecated: self.is_deprecated(e) };
                        let id = self.alloc_variant(v);
                        self.push_top_level(FileItem::Variant(id));
                    }
                }
                i = i + 1;
            }
        }
        let end = self.tree.variants.len();
        let ast_id = self.ast_id_of(node);
        let name = match child_node(node, FieldName::Name) {
            Some(n) => Name(n.text.clone()),
            None => {
                let mut s = String::new();
                push_str(&mut s, "unnamed_enum_");
                push_decimal(&mut s, ast_id as usize);
                Name(s)
            },
        };
        let e = Enum { name, variants: IdxRange { start, end }, ast_id, deprecated: self.is_deprecated(node) };
        let id = self.alloc_enum(e);
        self.push_top_level(FileItem::Enum(id));
    }

    /// Lowers the function `node`.
    fn lower_function(&mut self, node: &SyntaxNode)
        requires
            params_ok(*node),
        ensures
            final(self).ctx() == old(self).ctx(),
            final(self).tree@ == spec_lower_function(old(self).ctx(), old(self).tree@, *node),
    {
        if let Some(id) = self.lower_function_(node, None, None, None) {
            self.push_top_level(FileItem::Function(id));
        }
    }

    /// Lowers the typedef `node`.
    fn lower_typedef(&mut self, node: &SyntaxNode)
        requires
            params_ok(*node),
        ensures
            final(self).ctx() == old(self).ctx(),
            final(self).tree@ == spec_lower_typedef(old(self).ctx(), old(self).tree@, *node),
    {
        let name = match child_node(node, FieldName::Name) {
            Some(n) => n,
            None => return ,
        };
        let expr = match child_of_kind(node, NodeKind::TypedefExpression) {
            Some(e) => e,
            None => return ,
        };
        let type_ref = match TypeRef::from_returntype_node(expr, FieldName::ReturnType) {
            Some(t) => t,
            None => return ,
        };
        let params = self.lower_parameters(expr);
        let d = Typedef {
            name: Some(Name(name.text.clone())),
            params,
            type_ref,
            ast_id: self.ast_id_of(node),
            deprecated: self.is_deprecated(node),
        };
        let id = self.alloc_typedef(d);
        self.push_top_level(FileItem::Typedef(id));
    }

    /// Lowers the typeset `node`.
    fn lower_typeset(&mut self, node: &SyntaxNode)
        requires
            params_ok(*node),
        ensures
            final(self).ctx() == old(self).ctx(),
            final(self).tree@ == spec_lower_typeset(old(self).ctx(), old(self).tree@, *node),
    {
        let name = match child_node(node, FieldName::Name) {
            Some(n) => n,
            None => return ,
        };
        let start = self.tree.typedefs.len();
        let ghost t0 = self.tree@;
        let ghost c0 = self.ctx();
        let mut i: usize = 0;
        while i < node.children.len()
            invariant
                0 <= i <= node.children.len(),
                params_ok(*node),
                self.ctx() == c0,
                self.tree@ == typeset_fold(c0, t0, *node, i as nat),
            decreases node.children.len() - i,
        {
            let e = &node.children[i].1;
            assert(params_ok(node.children@[i as int].1));
            if e.kind == NodeKind::TypedefExpression {
                if let Some(type_ref) = TypeRef::from_returntype_node(e, FieldName::ReturnType) {
                    let params = self.lower_parameters(e);
                    let d = Typedef { name: None, params, type_ref, ast_id: self.ast_id_of(e), deprecated: self.is_deprecated(e) };
                    self.alloc_typedef(d);
                }
            }
            i = i + 1;
        }
        let end = self.tree.typedefs.len();
        let s = Typeset {
            name: Name(name.text.clone()),
            typedefs: IdxRange { start, end },
            ast_id: self.ast_id_of(node),
            deprecated: self.is_deprecated(node),
        };
        let id = self.alloc_typeset(s);
        self.push_top_level(FileItem::Typeset(id));
    }

    /// Lowers the functag `node`.
    fn lower_functag(&mut self, node: &SyntaxNode)
        requires
            params_ok(*node),
        ensures
            final(self).ctx() == old(self).ctx(),
            final(self).tree@ == spec_lower_functag(old(self).ctx(), old(self).tree@, *node),
    {
        let name = match child_node(node, FieldName::Name) {
            Some(n) => n,
            None => return ,
        };
        let type_ref = TypeRef::from_returntype_node(node, FieldName::ReturnType);
        let params = self.lower_parameters(node);
        let f = Functag {
            name: Some(Name(name.text.clone())),
            params,
            type_ref,
            ast_id: self.ast_id_of(node),
            deprecated: self.is_deprecated(node),
        };
        let id = self.alloc_functag(f);
        self.push_top_level(FileItem::Functag(id));
    }

    /// Lowers the funcenum `node`.
    fn lower_funcenum(&mut self, node: &SyntaxNode)
        requires
            params_ok(*node),
        ensures
            final(self).ctx() == old(self).ctx(),
            final(self).tree@ == spec_lower_funcenum(old(self).ctx(), old(self).tree@, *node),
    {
        let name = match child_node(node, FieldName::Name) {
            Some(n) => n,
            None => return ,
        };
        let start = self.tree.functags.len();
        let ghost t0 = self.tree@;
        let ghost c0 = self.ctx();
        let mut i: usize = 0;
        while i < node.children.len()
            invariant
                0 <= i <= node.children.len(),
                params_ok(*node),
                self.ctx() == c0,
                self.tree@ == funcenum_fold(c0, t0, *node, i as nat),
            decreases node.children.len() - i,
        {
            let e = &node.children[i].1;
            assert(params_ok(node.children@[i as int].1));
            if e.kind == NodeKind::FuncenumMember {
                let type_ref = TypeRef::from_returntype_node(e, FieldName::ReturnType);
                let params = self.lower_parameters(e);
                let f = Functag { name: None, params, type_ref, ast_id: self.ast_id_of(e), deprecated: self.is_deprecated(e) };
                self.alloc_functag(f);
            }
            i = i + 1;
        }
        let end = self.tree.functags.len();
        let f = Funcenum {
            name: Name(name.text.clone()),
            functags: IdxRange { start, end },
            ast_id: self.ast_id_of(node),
            deprecated: self.is_deprecated(node),
        };
        let id = self.alloc_funcenum(f);
        self.push_top_level(FileItem::Funcenum(id));
    }

    /// Lowers the struct `node`.
    fn lower_struct(&mut self, node: &SyntaxNode)
        ensures
            final(self).ctx() == old(self).ctx(),
            final(self).tree@ == spec_lower_struct(old(self).ctx(), old(self).tree@, *node),
    {
        let name = match child_node(node, FieldName::Name) {
            Some(n) => n,
            None => return ,
        };
        let start = self.tree.struct_fields.len();
        let ghost t0 = self.tree@;
        let ghost c0 = self.ctx();
        let mut i: usize = 0;
        while i < node.children.len()
            invariant
                0 <= i <= node.children.len(),
                self.ctx() == c0,
                self.tree@ == struct_fold(c0, t0, *node, i as nat),
            decreases node.children.len() - i,
        {
            let e = &node.children[i].1;
            if e.kind == NodeKind::StructField {
                if let Some(type_ref) = TypeRef::from_returntype_node(e, FieldName::Type) {
                    if let Some(field_name) = child_node(e, FieldName::Name) {
                        let f = StructField {
                            name: Name(field_name.text.clone()),
                            const_: has_kind(e, NodeKind::AnonConst),
                            type_ref,
                            ast_id: self.ast_id_of(e),
                            deprecated: self.is_deprecated(e),
                        };
                        self.alloc_struct_field(f);
                    }
                }
            }
            i = i + 1;
        }
        let end = self.tree.struct_fields.len();
        let s = Struct {
            name: Name(name.text.clone()),
            fields: IdxRange { start, end },
            ast_id: self.ast_id_of(node),
            deprecated: self.is_deprecated(node),
        };
        let id = self.alloc_struct(s);
        self.push_top_level(FileItem::Struct(id));
    }

    /// Lowers the member `e` of an enum struct.
    fn lower_enum_struct_item(&mut self, e: &SyntaxNode, items: &mut Vec<EnumStructItemId>)
        requires
            params_ok(*e),
        ensures
            final(self).ctx() == old(self).ctx(),
            (final(self).tree@, final(items)@) == spec_lower_enum_struct_item(old(self).ctx(), old(self).tree@, old(items)@, *e),
    {
        if e.kind == NodeKind::EnumStructField {
            let name = match child_node(e, FieldName::Name) {
                Some(n) => n,
                None => return ,
            };
            let type_ref = match TypeRef::from_returntype_node(e, FieldName::Type) {
                Some(t) => t,
                None => return ,
            };
            let f = Field { name: Name(name.text.clone()), type_ref, ast_id: self.ast_id_of(e), deprecated: self.is_deprecated(e) };
            let id = self.alloc_field(f);
            items.push(EnumStructItemId::Field(id));
        } else if e.kind == NodeKind::EnumStructMethod {
            if let Some(id) = self.lower_function_(e, None, None, None) {
                items.push(EnumStructItemId::Method(id));
            }
        }
    }

    /// Lowers the enum struct `node`.
    fn lower_enum_struct(&mut self, node: &SyntaxNode)
        requires
            params_ok(*node),
        ensures
            final(self).ctx() == old(self).ctx(),
            final(self).tree@ == spec_lower_enum_struct(old(self).ctx(), old(self).tree@, *node),
    {
        let name = match child_node(node, FieldName::Name) {
            Some(n) => n,
            None => return ,
        };
        let ghost t0 = self.tree@;
        let ghost c0 = self.ctx();
        let mut items: Vec<EnumStructItemId> = Vec::new();
        let mut i: usize = 0;
        while i < node.children.len()
            invariant
                0 <= i <= node.children.len(),
                params_ok(*node),
                self.ctx() == c0,
                (self.tree@, items@) == enum_struct_fold(c0, t0, *node, i as nat),
            decreases node.children.len() - i,
        {
            assert(params_ok(node.children@[i as int].1));
            self.lower_enum_struct_item(&node.children[i].1, &mut items);
            i = i + 1;
        }
        let s = EnumStruct { name: Name(name.text.clone()), items, ast_id: self.ast_id_of(node), deprecated: self.is_deprecated(node) };
        let id = self.alloc_enum_struct(s);
        self.push_top_level(FileItem::EnumStruct(id));
    }

    /// Lowers the top-level declaration `node`.
    fn lower_item(&mut self, node: &SyntaxNode)
        requires
            params_ok(*node),
        ensures
            final(self).ctx() == old(self).ctx(),
            final(self).tree@ == spec_lower_item(old(self).ctx(), old(self).tree@, *node),
    {
        match node.kind {
            NodeKind::FunctionDefinition | NodeKind::FunctionDeclaration => self.lower_function(node),
            NodeKind::Enum => self.lower_enum(node),
            NodeKind::StructDeclaration => self.lower_struct_declaration(node),
            NodeKind::GlobalVariableDeclaration => {
                let visibility = visibility_from_node(node);
                let type_ref = TypeRef::from_returntype_node(node, FieldName::Type);
                self.lower_variables(node, visibility, &type_ref, false);
            },
            NodeKind::OldGlobalVariableDeclaration => {
                let visibility = visibility_from_node(node);
                self.lower_variables(node, visibility, &None, true);
            },
            NodeKind::EnumStruct => self.lower_enum_struct(node),
            NodeKind::Methodmap => self.lower_methodmap(node),
            NodeKind::Typedef => self.lower_typedef(node),
            NodeKind::Typeset => self.lower_typeset(node),
            NodeKind::Functag => self.lower_functag(node),
            NodeKind::Funcenum => self.lower_funcenum(node),
            NodeKind::Struct => self.lower_struct(node),
            _ => {},
        }
    }

    /// Allocates the macros defined in the tree rooted at `node`.
    fn lower_macros(&mut self, node: &SyntaxNode)
        ensures
            final(self).ctx() == old(self).ctx(),
            final(self).tree@ == macros_of(old(self).ctx(), old(self).tree@, *node),
        decreases node,
    {
        if node.kind == NodeKind::PreprocMacro || node.kind == NodeKind::PreprocDefine {
            if let Some(name) = child_node(node, FieldName::Name) {
                let m = Macro { name: Name(name.text.clone()), ast_id: self.ast_id_of(node), deprecated: self.is_deprecated(node) };
                let id = self.alloc_macro(m);
                self.push_top_level(FileItem::Macro(id));
            }
        }
        let ghost t0 = self.tree@;
        let ghost c0 = self.ctx();
        let mut i: usize = 0;
        while i < node.children.len()
            invariant
                0 <= i <= node.children.len(),
                self.ctx() == c0,
                self.tree@ == macros_children(c0, t0, *node, i as nat),
            decreases node.children.len() - i,
        {
            self.lower_macros(&node.children[i].1);
            i = i + 1;
        }
    }
}

/// Appends to `rows` the rows of the deprecation directives in the tree rooted at `node`.
fn collect_deprecated(node: &SyntaxNode, rows: &mut Vec<usize>)
    ensures
        final(rows)@ == old(rows)@ + pragma_rows(*node),
    decreases node,
{
    let ghost r0 = rows@;
    if node.kind == NodeKind::PreprocPragma && str_starts_with(node.text.as_str(), "#pragma deprecated") {
        rows.push(node.start_row);
    }
    let ghost r1 = rows@;
    let mut i: usize = 0;
    while i < node.children.len()
        invariant
            0 <= i <= node.children.len(),
            rows@ == r1 + pragma_rows_children(*node, i as nat),
        decreases node.children.len() - i,
    {
        collect_deprecated(&node.children[i].1, rows);
        assert(rows@ =~= r1 + pragma_rows_children(*node, (i + 1) as nat));
        i = i + 1;
    }
    assert(rows@ =~= r0 + pragma_rows(*node));
}

impl<'a, D: LowerDatabase> Ctx<'a, D> {
    /// A context that lowers the file `file_id` into an empty tree.
    pub fn new(db: &'a D, file_id: FileId) -> (res: Self)
        ensures
            res.db == db,
            res.file_id == file_id,
            res.deprecated@ == Seq::<usize>::empty(),
            res.tree@ == empty_tree_view(),
    {
        Ctx { db, file_id, deprecated: Vec::new(), tree: ItemTree::new() }
    }

    /// Lowers the file whose syntax tree is `root`: records its deprecation
    /// directives, lowers its top-level declarations, then its macros.
    pub fn lower(&mut self, root: &SyntaxNode)
        requires
            params_ok(*root),
        ensures
            final(self).db == old(self).db,
            final(self).file_id == old(self).file_id,
            final(self).deprecated@ == old(self).deprecated@ + pragma_rows(*root),
            final(self).tree@ == macros_of(
                final(self).ctx(),
                items_fold(final(self).ctx(), old(self).tree@, *root, root.children.len() as nat),
                *root,
            ),
    {
        collect_deprecated(root, &mut self.deprecated);
        let ghost t0 = self.tree@;
        let ghost c0 = self.ctx();
        let mut i: usize = 0;
        while i < root.children.len()
            invariant
                0 <= i <= root.children.len(),
                params_ok(*root),
                self.ctx() == c0,
                self.tree@ == items_fold(c0, t0, *root, i as nat),
            decreases root.children.len() - i,
        {
            assert(params_ok(root.children@[i as int].1));
            self.lower_item(&root.children[i].1);
            i = i + 1;
        }
        self.lower_macros(root);
    }

    /// The item tree that was lowered.
    pub fn finish(self) -> (res: Arc<ItemTree>)
        ensures
            res@ == self.tree@,
    {
        Arc::new(self.tree)
    }
}

/// The syntax trees that item trees are lowered from.
pub trait ItemTreeDatabase: LowerDatabase {
    spec fn spec_parse(&self, file_id: FileId) -> SyntaxNode;

    spec fn spec_block_source(&self, block: BlockId) -> InFile<SyntaxNode>;

    /// The syntax tree of the file `file_id`.
    fn parse(&self, file_id: FileId) -> (res: &SyntaxNode)
        ensures
            *res == self.spec_parse(file_id),
    ;

    /// The file of the block `block`, and its node.
    fn block_source(&self, block: BlockId) -> (res: (FileId, &SyntaxNode))
        ensures
            res.0 == self.spec_block_source(block).file_id,
            *res.1 == self.spec_block_source(block).value,
    ;
}

impl ItemTree {
    /// The item tree of the file `file_id`.
    pub fn file_item_tree_query<D: ItemTreeDatabase>(db: &D, file_id: FileId) -> (res: Arc<ItemTree>)
        requires
            params_ok(db.spec_parse(file_id)),
        ensures
            res@ == spec_file_item_tree(db, file_id, db.spec_parse(file_id)),
    {
        let root = db.parse(file_id);
        let mut ctx = Ctx::new(db, file_id);
        ctx.lower(root);
        proof {
            assert(ctx.deprecated@ =~= pragma_rows(*root));
        }
        ctx.finish()
    }

    /// The item tree of the block `block`: the variables that its statements declare.
    pub fn block_item_tree_query<D: ItemTreeDatabase>(db: &D, block: BlockId) -> (res: Arc<ItemTree>)
        ensures
            res@ == ({
                let src = db.spec_block_source(block);
                let c = LowerCtx { db, file_id: src.file_id, deprecated: seq![] };
                block_fold(c, empty_tree_view(), src.value, src.value.children.len() as nat)
            }),
    {
        let (file_id, node) = db.block_source(block);
        let mut ctx = Ctx::new(db, file_id);
        let ghost c0 = ctx.ctx();
        let mut i: usize = 0;
        while i < node.children.len()
            invariant
                0 <= i <= node.children.len(),
                ctx.ctx() == c0,
                ctx.tree@ == block_fold(c0, empty_tree_view(), *node, i as nat),
            decreases node.children.len() - i,
        {
            let s = &node.children[i].1;
            let none = RawVisibilityId(RawVisibilityId::NONE);
            if s.kind == NodeKind::VariableDeclarationStatement {
                let type_ref = TypeRef::from_returntype_node(s, FieldName::Type);
                ctx.lower_variables(s, none, &type_ref, false);
            } else if s.kind == NodeKind::OldVariableDeclarationStatement || s.kind == NodeKind::OldForLoopVariableDeclarationStatement {
                ctx.lower_variables(s, none, &None, true);
            }
            i = i + 1;
        }
        ctx.finish()
    }
}

} // verus!
