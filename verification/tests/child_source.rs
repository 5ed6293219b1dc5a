use sourcepawn_lsp::child_by_source::{ChildDef, ChildKey, DynMap};
use sourcepawn_lsp::infer::FieldId;
use sourcepawn_lsp::ids::{EnumStructId, FileDefId, FuncenumId, FunctionId, MacroId, TypesetId};
use sourcepawn_lsp::syntax::{FieldName, NodeKind, NodePtr, SyntaxNode};

fn leaf(kind: NodeKind, text: &str, start: usize) -> SyntaxNode {
    SyntaxNode { kind, text: String::from(text), start_byte: start, end_byte: start + text.len(), start_row: 0, children: vec![] }
}

fn node(kind: NodeKind, start: usize, end: usize, children: Vec<(Option<FieldName>, SyntaxNode)>) -> SyntaxNode {
    SyntaxNode { kind, text: String::new(), start_byte: start, end_byte: end, start_row: 0, children }
}

fn ptr(kind: NodeKind, start: usize, end: usize) -> NodePtr {
    NodePtr { kind, start_byte: start, end_byte: end }
}

#[test]
fn dyn_map_keeps_the_last_insert_per_kind_and_node() {
    let p = ptr(NodeKind::FunctionDefinition, 0, 10);
    let mut map = DynMap::new();
    map.insert(p, ChildDef::Def(FileDefId::FunctionId(FunctionId(1))));
    map.insert(p, ChildDef::Def(FileDefId::MacroId(MacroId(7))));
    map.insert(p, ChildDef::Def(FileDefId::FunctionId(FunctionId(2))));
    assert_eq!(map.get(ChildKey::Function, p), Some(ChildDef::Def(FileDefId::FunctionId(FunctionId(2)))));
    assert_eq!(map.get(ChildKey::Macro, p), Some(ChildDef::Def(FileDefId::MacroId(MacroId(7)))));
    assert_eq!(map.get(ChildKey::Global, p), None);
    assert_eq!(map.get(ChildKey::Function, ptr(NodeKind::FunctionDefinition, 0, 11)), None);
}

#[test]
fn dyn_map_keys_fields_apart() {
    let p = ptr(NodeKind::EnumStructField, 3, 9);
    let mut map = DynMap::new();
    let f = ChildDef::Field(FieldId { parent: EnumStructId(4), local_id: 1 });
    map.insert(p, f);
    assert_eq!(map.get(ChildKey::Field, p), Some(f));
    assert_eq!(map.get(ChildKey::Property, p), None);
}

fn typedef_expr(start: usize, typed: bool) -> SyntaxNode {
    let children = if typed { vec![(Some(FieldName::ReturnType), leaf(NodeKind::AnonInt, "int", start))] } else { vec![] };
    node(NodeKind::TypedefExpression, start, start + 5, children)
}

fn typeset_node() -> SyntaxNode {
    node(
        NodeKind::Typeset,
        0,
        40,
        vec![
            (None, leaf(NodeKind::Identifier, "T", 0)),
            (None, typedef_expr(10, true)),
            (None, typedef_expr(20, false)),
            (None, typedef_expr(30, true)),
        ],
    )
}

#[test]
fn typeset_child_source_keeps_typed_expressions() {
    let res = TypesetId(0).child_source(&typeset_node());
    assert_eq!(res, vec![ptr(NodeKind::TypedefExpression, 10, 15), ptr(NodeKind::TypedefExpression, 30, 35)]);
}

#[test]
fn funcenum_child_source_keeps_every_expression() {
    let res = FuncenumId(0).child_source(&typeset_node());
    assert_eq!(
        res,
        vec![
            ptr(NodeKind::TypedefExpression, 10, 15),
            ptr(NodeKind::TypedefExpression, 20, 25),
            ptr(NodeKind::TypedefExpression, 30, 35),
        ]
    );
}

#[test]
fn enum_struct_child_source_lists_fields() {
    let field = |start: usize| {
        node(
            NodeKind::EnumStructField,
            start,
            start + 6,
            vec![(Some(FieldName::Type), leaf(NodeKind::AnonInt, "int", start)), (Some(FieldName::Name), leaf(NodeKind::Identifier, "x", start + 4))],
        )
    };
    let es = node(
        NodeKind::EnumStruct,
        0,
        50,
        vec![(Some(FieldName::Name), leaf(NodeKind::Identifier, "S", 0)), (None, field(10)), (None, node(NodeKind::EnumStructMethod, 20, 30, vec![])), (None, field(40))],
    );
    let res = EnumStructId(0).child_source(&es);
    assert_eq!(res, vec![ptr(NodeKind::EnumStructField, 10, 16), ptr(NodeKind::EnumStructField, 40, 46)]);
}

use sourcepawn_lsp::base_db::FileId;
use sourcepawn_lsp::def_map::DefMap;
use sourcepawn_lsp::hir::Name;
use sourcepawn_lsp::ids::{DefWithBodyId, GlobalId};
use sourcepawn_lsp::resolver::{Resolver, ValueNs};
use sourcepawn_lsp::scope::{ExprScopes, ScopeData, ScopeParent};
use std::sync::Arc;

fn local_scopes() -> ExprScopes {
    ExprScopes {
        scopes: vec![
            ScopeData { parent: ScopeParent::File(FileId(1)), entries: vec![(Name::from_str("a"), 0)] },
            ScopeData { parent: ScopeParent::Block(0), entries: vec![(Name::from_str("b"), 1), (Name::from_str("c"), 2)] },
        ],
        scope_entries: vec![10, 11, 12],
        scope_by_expr: vec![],
    }
}

#[test]
fn available_defs_lists_locals_innermost_first_then_globals() {
    let mut def_map = DefMap::new(FileId(1));
    def_map.declare(Name::from_str("f"), FileDefId::FunctionId(FunctionId(5)));
    def_map.declare(Name::from_str("g"), FileDefId::GlobalId(GlobalId(6)));
    let owner = DefWithBodyId::FunctionId(FunctionId(5));
    let resolver = Resolver::global_resolver(FileId(1), vec![Arc::new(def_map)]).push_expr_scope(owner, Arc::new(local_scopes()), 1);
    let defs = resolver.available_defs();
    assert_eq!(defs.len(), 5);
    let locals: Vec<(String, usize)> = defs[..3]
        .iter()
        .map(|d| match d {
            ValueNs::LocalId((Some(n), o, e)) => {
                assert_eq!(*o, owner);
                (n.to_string(), *e)
            }
            _ => panic!("expected a local"),
        })
        .collect();
    assert_eq!(locals, vec![(String::from("b"), 11), (String::from("c"), 12), (String::from("a"), 10)]);
    match &defs[3] {
        ValueNs::FunctionId(ids) => {
            assert_eq!(ids.len(), 1);
            assert_eq!(ids[0].file_id, FileId(1));
            assert_eq!(ids[0].value, FunctionId(5));
        }
        _ => panic!("expected a function"),
    }
    match &defs[4] {
        ValueNs::GlobalId(id) => assert_eq!(id.value, GlobalId(6)),
        _ => panic!("expected a global"),
    }
}

#[test]
fn available_defs_of_empty_resolver() {
    let resolver = Resolver::global_resolver(FileId(1), vec![]);
    assert!(resolver.available_defs().is_empty());
}

use sourcepawn_lsp::def_resolution::{DefResolution, Local};
use sourcepawn_lsp::ids::InFile;

#[test]
fn def_resolution_of_functions_is_the_first() {
    let v = ValueNs::FunctionId(vec![InFile::new(FileId(1), FunctionId(3)), InFile::new(FileId(2), FunctionId(4))]);
    match DefResolution::try_from(v) {
        Some(DefResolution::Function(id)) => assert_eq!(id, FunctionId(3)),
        _ => panic!("expected a function"),
    }
    assert!(DefResolution::try_from(ValueNs::FunctionId(vec![])).is_none());
}

#[test]
fn def_resolution_of_a_local_keeps_its_name() {
    let owner = DefWithBodyId::FunctionId(FunctionId(1));
    let v = ValueNs::LocalId((Some(Name::from_str("x")), owner, 7));
    match DefResolution::try_from(v) {
        Some(DefResolution::Local((Some(n), l))) => {
            assert_eq!(n.to_string(), "x");
            assert_eq!(l, Local { parent: owner, expr_id: 7 });
        }
        _ => panic!("expected a local"),
    }
    match DefResolution::try_from(ValueNs::GlobalId(InFile::new(FileId(1), GlobalId(9)))) {
        Some(DefResolution::Global(g)) => assert_eq!(g, GlobalId(9)),
        _ => panic!("expected a global"),
    }
}

use sourcepawn_lsp::syntax::{is_field_receiver_node, is_name_node};

#[test]
fn name_node_is_the_name_child_of_its_parent() {
    let name = leaf(NodeKind::Identifier, "f", 5);
    let other = leaf(NodeKind::Identifier, "g", 9);
    let parent = node(NodeKind::FunctionDefinition, 0, 20, vec![(Some(FieldName::Name), leaf(NodeKind::Identifier, "f", 5)), (None, leaf(NodeKind::Identifier, "g", 9))]);
    assert!(is_name_node(&name, Some(&parent)));
    assert!(!is_name_node(&other, Some(&parent)));
    assert!(!is_name_node(&name, None));
    assert!(!is_field_receiver_node(&name, Some(&parent)));
}

#[test]
fn field_receiver_is_the_field_child_of_an_access() {
    let field = leaf(NodeKind::Identifier, "x", 4);
    let access = node(NodeKind::FieldAccess, 0, 5, vec![(Some(FieldName::Target), leaf(NodeKind::Identifier, "a", 0)), (Some(FieldName::Field), leaf(NodeKind::Identifier, "x", 4))]);
    assert!(is_field_receiver_node(&field, Some(&access)));
    assert!(!is_field_receiver_node(&leaf(NodeKind::Identifier, "a", 0), Some(&access)));
}
