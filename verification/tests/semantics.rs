use sourcepawn_lsp::base_db::FileId;
use sourcepawn_lsp::child_by_source::{ChildDef, ChildKey, DynMap};
use sourcepawn_lsp::def_resolution::{DefResolution, Local};
use sourcepawn_lsp::ids::{DefWithBodyId, FileDefId, FunctionId, InFile, MethodmapId};
use sourcepawn_lsp::lower::BodySourceMap;
use sourcepawn_lsp::resolver::Resolver;
use sourcepawn_lsp::semantics::Semantics;
use sourcepawn_lsp::source_to_def::{ChildContainer, ChildMaps, SourceToDefCtx};
use sourcepawn_lsp::syntax::{FieldName, NodeKind, NodePtr, SyntaxNode};

fn leaf(kind: NodeKind, text: &str, start: usize) -> SyntaxNode {
    SyntaxNode { kind, text: String::from(text), start_byte: start, end_byte: start + text.len(), start_row: 0, children: vec![] }
}

fn node(kind: NodeKind, start: usize, end: usize, children: Vec<(Option<FieldName>, SyntaxNode)>) -> SyntaxNode {
    SyntaxNode { kind, text: String::new(), start_byte: start, end_byte: end, start_row: 0, children }
}

fn ptr(n: &SyntaxNode) -> NodePtr {
    NodePtr { kind: n.kind, start_byte: n.start_byte, end_byte: n.end_byte }
}

fn param() -> SyntaxNode {
    node(NodeKind::ParameterDeclaration, 7, 12, vec![(Some(FieldName::Type), leaf(NodeKind::AnonInt, "int", 7)), (Some(FieldName::Name), leaf(NodeKind::Identifier, "a", 11))])
}

fn params() -> SyntaxNode {
    node(NodeKind::ParameterDeclarations, 6, 13, vec![(None, param())])
}

fn function() -> SyntaxNode {
    node(NodeKind::FunctionDefinition, 0, 50, vec![(Some(FieldName::Name), leaf(NodeKind::Identifier, "f", 5)), (Some(FieldName::Parameters), params())])
}

fn methodmap() -> SyntaxNode {
    node(NodeKind::Methodmap, 60, 100, vec![(Some(FieldName::Name), leaf(NodeKind::Identifier, "M", 70))])
}

fn root() -> SyntaxNode {
    node(NodeKind::SourceFile, 0, 100, vec![(None, function()), (None, methodmap())])
}

fn file_maps() -> ChildMaps {
    let mut map = DynMap::new();
    map.insert(ptr(&function()), ChildDef::Def(FileDefId::FunctionId(FunctionId(3))));
    map.insert(ptr(&methodmap()), ChildDef::Def(FileDefId::MethodmapId(MethodmapId(4))));
    ChildMaps { entries: vec![(ChildContainer::FileId(FileId(1)), FileId(1), map)] }
}

fn source_maps() -> Vec<(DefWithBodyId, BodySourceMap)> {
    vec![(
        DefWithBodyId::FunctionId(FunctionId(3)),
        BodySourceMap { expr_map: vec![(InFile::new(FileId(1), ptr(&param())), 7)], expr_map_back: vec![] },
    )]
}

#[test]
fn container_of_a_node_in_a_function_is_the_function() {
    let maps = file_maps();
    let ctx = SourceToDefCtx { maps: &maps };
    let (r, f, p) = (root(), function(), params());
    let ancestors = vec![&p, &f, &r];
    assert_eq!(
        ctx.find_container(FileId(1), NodeKind::ParameterDeclaration, &ancestors, 0),
        Some(ChildContainer::DefWithBodyId(DefWithBodyId::FunctionId(FunctionId(3))))
    );
    // A macro is held by its file, wherever it stands.
    assert_eq!(ctx.find_container(FileId(1), NodeKind::PreprocDefine, &ancestors, 0), Some(ChildContainer::FileId(FileId(1))));
    // Without ancestors there is no container.
    assert_eq!(ctx.find_container(FileId(1), NodeKind::Identifier, &vec![], 0), None);
    assert_eq!(ctx.to_def(FileId(1), ChildKey::Function, &f, &vec![&r], 0), Some(ChildDef::Def(FileDefId::FunctionId(FunctionId(3)))));
    assert_eq!(ctx.to_def(FileId(1), ChildKey::Macro, &f, &vec![&r], 0), None);
}

#[test]
fn name_of_a_function_resolves_to_it() {
    let (maps, sms) = (file_maps(), source_maps());
    let resolver = Resolver::global_resolver(FileId(1), vec![]);
    let sema = Semantics { maps: &maps, source_maps: &sms, resolver: &resolver };
    let (r, f, m) = (root(), function(), methodmap());
    match sema.find_name_def(FileId(1), &f.children[0].1, &vec![&f, &r]) {
        Some(DefResolution::Function(id)) => assert_eq!(id, FunctionId(3)),
        _ => panic!("expected the function"),
    }
    match sema.find_name_def(FileId(1), &m.children[0].1, &vec![&m, &r]) {
        Some(DefResolution::Methodmap(id)) => assert_eq!(id, MethodmapId(4)),
        _ => panic!("expected the methodmap"),
    }
}

#[test]
fn name_of_a_parameter_resolves_to_its_binding() {
    let (maps, sms) = (file_maps(), source_maps());
    let resolver = Resolver::global_resolver(FileId(1), vec![]);
    let sema = Semantics { maps: &maps, source_maps: &sms, resolver: &resolver };
    let (r, f, ps, p) = (root(), function(), params(), param());
    match sema.find_name_def(FileId(1), &p.children[1].1, &vec![&p, &ps, &f, &r]) {
        Some(DefResolution::Local((None, local))) => {
            assert_eq!(local, Local { parent: DefWithBodyId::FunctionId(FunctionId(3)), expr_id: 7 })
        }
        _ => panic!("expected the parameter"),
    }
}

#[test]
fn a_node_that_is_no_name_resolves_to_nothing() {
    let (maps, sms) = (file_maps(), source_maps());
    let resolver = Resolver::global_resolver(FileId(1), vec![]);
    let sema = Semantics { maps: &maps, source_maps: &sms, resolver: &resolver };
    let (r, p, ps, f) = (root(), param(), params(), function());
    // The type of a parameter is not its name.
    assert!(sema.find_name_def(FileId(1), &p.children[0].1, &vec![&p, &ps, &f, &r]).is_none());
    assert!(sema.find_name_def(FileId(1), &r, &vec![]).is_none());
}

use sourcepawn_lsp::scope::{ExprScopes, ScopeData, ScopeParent};
use sourcepawn_lsp::source_analyzer::scope_for;

#[test]
fn scope_of_a_node_is_that_of_its_innermost_block() {
    let ident = leaf(NodeKind::Identifier, "x", 22);
    let inner = node(NodeKind::Block, 20, 30, vec![(None, leaf(NodeKind::Identifier, "x", 22))]);
    let outer = node(NodeKind::Block, 15, 40, vec![]);
    let f = function();
    let scopes = ExprScopes {
        scopes: vec![
            ScopeData { parent: ScopeParent::File(FileId(1)), entries: vec![] },
            ScopeData { parent: ScopeParent::Block(0), entries: vec![] },
        ],
        scope_entries: vec![],
        scope_by_expr: vec![Some(0), Some(1)],
    };
    let sm = BodySourceMap {
        expr_map: vec![(InFile::new(FileId(1), ptr(&outer)), 0), (InFile::new(FileId(1), ptr(&inner)), 1)],
        expr_map_back: vec![],
    };
    assert_eq!(scope_for(&scopes, &sm, FileId(1), &ident, &vec![&inner, &outer, &f]), Some(1));
    assert_eq!(scope_for(&scopes, &sm, FileId(1), &outer, &vec![&f]), Some(0));
    assert_eq!(scope_for(&scopes, &sm, FileId(1), &f, &vec![]), None);
}
