use sourcepawn_lsp::ast_id::AstIdMap;
use sourcepawn_lsp::base_db::FileId;
use sourcepawn_lsp::hir::{BlockId, Expr, Literal, TypeRef};
use sourcepawn_lsp::ids::{BlockLoc, InFile};

use sourcepawn_lsp::item_lower::Ctx;
use sourcepawn_lsp::memory_db::MemoryDb;
use sourcepawn_lsp::item_tree::{FileItem, ItemTree, MethodmapItemId};
use sourcepawn_lsp::lower::lower;
use sourcepawn_lsp::pretty::print_item_tree;
use sourcepawn_lsp::data::RawVisibilityId;
use sourcepawn_lsp::syntax::{FieldName, NodeKind, NodePtr, SyntaxNode};

fn leaf(kind: NodeKind, text: &str, start: usize) -> SyntaxNode {
    SyntaxNode { kind, text: String::from(text), start_byte: start, end_byte: start + text.len(), start_row: 0, children: vec![] }
}

fn node(kind: NodeKind, start: usize, end: usize, row: usize, children: Vec<(Option<FieldName>, SyntaxNode)>) -> SyntaxNode {
    SyntaxNode { kind, text: String::new(), start_byte: start, end_byte: end, start_row: row, children }
}

fn empty() -> SyntaxNode {
    node(NodeKind::SourceFile, 0, 0, 0, vec![])
}

fn db_with(files: Vec<(FileId, SyntaxNode)>) -> MemoryDb {
    MemoryDb {
        files,
        empty: empty(),
        blocks: vec![(BlockLoc { ast_id: 2, file_id: FileId(1) }, BlockId(77))],
        block_nodes: vec![],
        floats: vec![(String::from("2.5"), 2.5f64.to_bits())],
    }
}

/// A file holding one function with the parameters and the body below.
fn function_file() -> SyntaxNode {
    let f = node(NodeKind::FunctionDefinition, 0, 60, 0, vec![(Some(FieldName::Parameters), params()), (Some(FieldName::Body), body())]);
    node(NodeKind::SourceFile, 0, 60, 0, vec![(None, f)])
}

fn params() -> SyntaxNode {
    node(
        NodeKind::ParameterDeclarations,
        5,
        12,
        0,
        vec![(
            None,
            node(
                NodeKind::ParameterDeclaration,
                6,
                11,
                0,
                vec![(Some(FieldName::Type), leaf(NodeKind::AnonInt, "int", 6)), (Some(FieldName::Name), leaf(NodeKind::Identifier, "a", 10))],
            ),
        )],
    )
}

/// `{ int x = 1; foo(x, 2.5); return x; }`
fn body() -> SyntaxNode {
    let decl = node(
        NodeKind::VariableDeclarationStatement,
        22,
        32,
        1,
        vec![
            (Some(FieldName::Type), leaf(NodeKind::AnonInt, "int", 22)),
            (
                None,
                node(
                    NodeKind::VariableDeclaration,
                    26,
                    31,
                    1,
                    vec![
                        (Some(FieldName::Name), leaf(NodeKind::Identifier, "x", 26)),
                        (Some(FieldName::InitialValue), leaf(NodeKind::IntLiteral, "1", 30)),
                    ],
                ),
            ),
        ],
    );
    let args = node(
        NodeKind::Other(1),
        36,
        44,
        2,
        vec![
            (None, leaf(NodeKind::AnonLParen, "(", 36)),
            (None, leaf(NodeKind::Identifier, "x", 37)),
            (None, leaf(NodeKind::AnonComma, ",", 38)),
            (None, leaf(NodeKind::FloatLiteral, "2.5", 40)),
            (None, leaf(NodeKind::AnonRParen, ")", 43)),
        ],
    );
    let call = node(
        NodeKind::CallExpression,
        33,
        44,
        2,
        vec![(Some(FieldName::Function), leaf(NodeKind::Identifier, "foo", 33)), (Some(FieldName::Arguments), args)],
    );
    let stmt = node(NodeKind::ExpressionStatement, 33, 45, 2, vec![(None, call)]);
    let ret = node(NodeKind::ReturnStatement, 46, 55, 3, vec![(Some(FieldName::Expression), leaf(NodeKind::Identifier, "x", 53))]);
    node(
        NodeKind::Block,
        20,
        57,
        1,
        vec![
            (None, leaf(NodeKind::AnonLBrace, "{", 20)),
            (None, decl),
            (None, stmt),
            (None, ret),
            (None, leaf(NodeKind::AnonRBrace, "}", 56)),
        ],
    )
}

#[test]
fn lower_body_allocates_in_order() {
    let db = db_with(vec![(FileId(1), function_file())]);
    let p = params();
    let b = body();
    let (body, source_map) = lower(&db, Some(&p), FileId(1), Some(&b));
    assert_eq!(body.exprs.len(), 11);
    assert_eq!(body.idents.iter().map(|n| n.0.clone()).collect::<Vec<_>>(), vec!["a", "x"]);
    assert_eq!(body.params, vec![(0, 0)]);
    assert!(matches!(body.exprs[0], Expr::Binding { ident_id: 0, type_ref: Some(TypeRef::Int), initializer: None }));
    assert!(matches!(body.exprs[1], Expr::Literal(Literal::Int(1))));
    assert!(matches!(body.exprs[2], Expr::Binding { ident_id: 1, type_ref: Some(TypeRef::Int), initializer: Some(1) }));
    match &body.exprs[3] {
        Expr::Decl(ids) => assert_eq!(ids, &vec![2]),
        e => panic!("unexpected {:?}", e),
    }
    match &body.exprs[4] {
        Expr::Ident(n) => assert_eq!(n.0, "foo"),
        e => panic!("unexpected {:?}", e),
    }
    assert!(matches!(&body.exprs[5], Expr::Ident(n) if n.0 == "x"));
    match &body.exprs[6] {
        Expr::Literal(Literal::Float(f)) => assert_eq!(f.0, 2.5f64.to_bits()),
        e => panic!("unexpected {:?}", e),
    }
    match &body.exprs[7] {
        Expr::Call { callee, args } => {
            assert_eq!(*callee, 4);
            assert_eq!(args, &vec![5, 6]);
        },
        e => panic!("unexpected {:?}", e),
    }
    assert!(matches!(&body.exprs[8], Expr::Ident(n) if n.0 == "x"));
    assert!(matches!(body.exprs[9], Expr::Control { keyword: NodeKind::AnonReturn, operand: Some(8) }));
    match &body.exprs[10] {
        Expr::Block { id, statements } => {
            assert_eq!(*id, Some(BlockId(77)));
            assert_eq!(statements, &vec![3, 7, 9]);
        },
        e => panic!("unexpected {:?}", e),
    }
    assert_eq!(body.body_expr, Some(10));
    // The return is recorded on its operand's node.
    let x_ptr = InFile { file_id: FileId(1), value: NodePtr { kind: NodeKind::Identifier, start_byte: 53, end_byte: 54 } };
    assert_eq!(source_map.expr_source(9), Some(x_ptr));
    assert_eq!(source_map.node_ptr_expr(x_ptr), Some(9));
    for e in 0..body.exprs.len() {
        if let Some(p) = source_map.expr_source(e) {
            let back = source_map.node_ptr_expr(p).unwrap();
            assert_eq!(source_map.expr_source(back), Some(p));
        }
    }
}

#[test]
fn lower_missing_operand_is_a_missing_expression() {
    let db = db_with(vec![]);
    // `(x) = ;` : an assignment without right-hand side lowers to nothing,
    // while a named argument without a value lowers its name only.
    let assign = node(NodeKind::AssignmentExpression, 0, 4, 0, vec![(Some(FieldName::Left), leaf(NodeKind::Identifier, "x", 0))]);
    let stmt = node(NodeKind::ExpressionStatement, 0, 5, 0, vec![(None, assign)]);
    let (body, _) = lower(&db, None, FileId(1), Some(&stmt));
    assert_eq!(body.exprs.len(), 2);
    assert!(matches!(&body.exprs[0], Expr::Ident(n) if n.0 == "x"));
    assert!(matches!(body.exprs[1], Expr::Missing));
    assert_eq!(body.body_expr, Some(1));
}

fn function(start: usize, row: usize, name: &str) -> SyntaxNode {
    node(
        NodeKind::FunctionDefinition,
        start,
        start + 30,
        row,
        vec![
            (Some(FieldName::ReturnType), leaf(NodeKind::AnonVoid, "void", start)),
            (Some(FieldName::Name), leaf(NodeKind::Identifier, name, start + 5)),
            (Some(FieldName::Parameters), node(NodeKind::ParameterDeclarations, start + 10, start + 12, row, vec![])),
        ],
    )
}

fn methodmap() -> SyntaxNode {
    let getter = node(NodeKind::MethodmapPropertyGetter, 140, 150, 11, vec![]);
    let setter = node(
        NodeKind::MethodmapPropertySetter,
        151,
        170,
        11,
        vec![(
            Some(FieldName::Parameter),
            node(
                NodeKind::ParameterDeclaration,
                155,
                165,
                11,
                vec![(Some(FieldName::Type), leaf(NodeKind::AnonInt, "int", 155)), (Some(FieldName::Name), leaf(NodeKind::Identifier, "v", 160))],
            ),
        )],
    );
    let accessor = node(NodeKind::MethodmapPropertyMethod, 135, 171, 11, vec![(None, getter), (None, setter)]);
    let property = node(
        NodeKind::MethodmapProperty,
        120,
        180,
        11,
        vec![
            (Some(FieldName::Type), leaf(NodeKind::AnonInt, "int", 125)),
            (Some(FieldName::Name), leaf(NodeKind::Identifier, "Size", 129)),
            (None, accessor),
        ],
    );
    let ctor = node(
        NodeKind::MethodmapMethodConstructor,
        181,
        200,
        12,
        vec![
            (Some(FieldName::Name), leaf(NodeKind::Identifier, "List", 181)),
            (Some(FieldName::Parameters), node(NodeKind::ParameterDeclarations, 186, 188, 12, vec![])),
        ],
    );
    let stat = node(
        NodeKind::MethodmapMethod,
        201,
        230,
        13,
        vec![
            (None, leaf(NodeKind::AnonStatic, "static", 201)),
            (Some(FieldName::ReturnType), leaf(NodeKind::AnonInt, "int", 208)),
            (Some(FieldName::Name), leaf(NodeKind::Identifier, "Count", 212)),
            (Some(FieldName::Parameters), node(NodeKind::ParameterDeclarations, 217, 219, 13, vec![])),
        ],
    );
    node(
        NodeKind::Methodmap,
        100,
        240,
        10,
        vec![
            (Some(FieldName::Name), leaf(NodeKind::Identifier, "List", 110)),
            (Some(FieldName::Inherits), leaf(NodeKind::Identifier, "Handle", 118)),
            (None, property),
            (None, ctor),
            (None, stat),
        ],
    )
}

fn file() -> SyntaxNode {
    let pragma = SyntaxNode {
        kind: NodeKind::PreprocPragma,
        text: String::from("#pragma deprecated Use Bar"),
        start_byte: 40,
        end_byte: 66,
        start_row: 4,
        children: vec![],
    };
    let define = node(
        NodeKind::PreprocDefine,
        70,
        90,
        6,
        vec![(Some(FieldName::Name), leaf(NodeKind::Identifier, "MAX", 78))],
    );
    node(
        NodeKind::SourceFile,
        0,
        300,
        0,
        vec![(None, function(0, 0, "Foo")), (None, pragma), (None, function(67, 5, "Bar")), (None, define), (None, methodmap())],
    )
}

#[test]
fn item_tree_of_a_file() {
    let db = db_with(vec![(FileId(2), file())]);
    let mut ctx = Ctx::new(&db, FileId(2));
    let root = file();
    ctx.lower(&root);
    let tree = ctx.finish();
    assert_eq!(
        tree.top_level,
        vec![FileItem::Function(0), FileItem::Function(1), FileItem::Methodmap(0), FileItem::Macro(0)]
    );
    assert_eq!(tree.functions[0].name.0, "Foo");
    assert!(!tree.functions[0].deprecated);
    assert_eq!(tree.functions[1].name.0, "Bar");
    assert!(tree.functions[1].deprecated);
    assert_eq!(tree.functions[1].ast_id, 2);
    // The accessors of the property, then the constructor and the static method.
    assert_eq!(tree.functions.iter().map(|f| f.name.0.clone()).collect::<Vec<_>>(), vec!["Foo", "Bar", "get", "set", "List", "Count"]);
    assert_eq!(tree.functions[2].ast_id, 18);
    assert_eq!((tree.functions[2].params.start, tree.functions[2].params.end), (0, 0));
    assert_eq!((tree.functions[3].params.start, tree.functions[3].params.end), (0, 1));
    assert_eq!(tree.functions[3].visibility.0, 8);
    assert_eq!(tree.functions[5].visibility.0, 5);
    assert_eq!(tree.properties.len(), 1);
    assert_eq!(tree.properties[0].name.0, "Size");
    assert_eq!((tree.properties[0].getters_setters.start, tree.properties[0].getters_setters.end), (2, 4));
    let m = &tree.methodmaps[0];
    assert_eq!(m.name.0, "List");
    assert_eq!(m.inherits.as_ref().unwrap().0, "Handle");
    assert!(!m.nullable);
    assert_eq!(m.items, vec![MethodmapItemId::Property(0), MethodmapItemId::Method(4), MethodmapItemId::Method(5)]);
    assert_eq!(tree.macros[0].name.0, "MAX");
    assert_eq!(tree.macros[0].ast_id, 3);
}

#[test]
fn item_tree_queries() {
    let block = || node(
        NodeKind::Block,
        0,
        20,
        0,
        vec![(
            None,
            node(
                NodeKind::VariableDeclarationStatement,
                2,
                18,
                0,
                vec![
                    (Some(FieldName::Type), leaf(NodeKind::AnonFloat, "float", 2)),
                    (None, node(NodeKind::VariableDeclaration, 8, 9, 0, vec![(Some(FieldName::Name), leaf(NodeKind::Identifier, "f", 8))])),
                    (None, node(NodeKind::VariableDeclaration, 11, 12, 0, vec![(Some(FieldName::Name), leaf(NodeKind::Identifier, "g", 11))])),
                ],
            ),
        )],
    );
    let mut db = db_with(vec![(FileId(2), file()), (FileId(5), node(NodeKind::SourceFile, 0, 20, 0, vec![(None, block())]))]);
    db.block_nodes.push((BlockId(1), (FileId(5), block())));
    let tree = ItemTree::file_item_tree_query(&db, FileId(2));
    assert_eq!(tree.top_level.len(), 4);
    let block_tree = ItemTree::block_item_tree_query(&db, BlockId(1));
    assert_eq!(block_tree.top_level, vec![FileItem::Variable(0), FileItem::Variable(1)]);
    assert_eq!(block_tree.variables[1].name.0, "g");
    assert_eq!(block_tree.variables[1].ast_id, 2);
    assert!(ItemTree::block_item_tree_query(&db, BlockId(9)).top_level.is_empty());
    assert!(matches!(block_tree.variables[0].type_ref, Some(TypeRef::Float)));
}

#[test]
fn ast_ids_round_trip() {
    let root = file();
    let map = AstIdMap::from_source(&root);
    // The children of the file first, then those of the functions and the methodmap.
    assert_eq!(map.arena[0], NodePtr { kind: NodeKind::FunctionDefinition, start_byte: 0, end_byte: 30 });
    assert_eq!(map.arena[1].kind, NodeKind::PreprocPragma);
    for ptr in map.arena.iter() {
        let id = map.ast_id_of(*ptr);
        assert_eq!(map.get_raw(id), *ptr);
    }
    let target = NodePtr { kind: NodeKind::MethodmapPropertyGetter, start_byte: 140, end_byte: 150 };
    assert_eq!(target.to_node(&root).unwrap().start_row, 11);
    let absent = NodePtr { kind: NodeKind::Block, start_byte: 140, end_byte: 150 };
    assert!(absent.to_node(&root).is_none());
}

#[test]
fn item_tree_prints_as_text() {
    let root = node(
        NodeKind::SourceFile,
        0,
        60,
        0,
        vec![
            (None, function(0, 0, "Foo")),
            (None, node(NodeKind::PreprocDefine, 40, 55, 2, vec![(Some(FieldName::Name), leaf(NodeKind::Identifier, "MAX", 48))])),
        ],
    );
    let db = db_with(vec![(FileId(3), root)]);
    let tree = ItemTree::file_item_tree_query(&db, FileId(3));
    assert_eq!(print_item_tree(&tree), "// AstId(0)\nvoid Foo() {\n  /* body */\n}\n\n// AstId(1)\n#define MAX\n\n");
}

#[test]
fn visibility_keywords() {
    assert_eq!(RawVisibilityId(RawVisibilityId::PUBLIC | RawVisibilityId::NONE).to_string(), "public");
    assert_eq!(
        RawVisibilityId(RawVisibilityId::PUBLIC | RawVisibilityId::STOCK | RawVisibilityId::STATIC).to_string(),
        "public stock static"
    );
    assert_eq!(RawVisibilityId(RawVisibilityId::NONE).to_string(), "");
}

use sourcepawn_lsp::def_map::DefMap;
use sourcepawn_lsp::hir::Name;
use sourcepawn_lsp::ids::{FileDefId, FunctionId, GlobalId, MacroId, MethodmapId, StructId};

#[test]
fn file_def_map_declares_top_level_items() {
    let db = db_with(vec![(FileId(2), file())]);
    let tree = ItemTree::file_item_tree_query(&db, FileId(2));
    let def_map = DefMap::file_def_map_query(&db, FileId(2), &tree);
    assert_eq!(def_map.file_id(), FileId(2));
    assert_eq!(
        def_map.declarations(),
        &[
            FileDefId::FunctionId(FunctionId(0)),
            FileDefId::FunctionId(FunctionId(1)),
            FileDefId::MethodmapId(MethodmapId(0)),
            FileDefId::MacroId(MacroId(0)),
        ]
    );
    assert_eq!(def_map.get(&Name::from_str("Bar")), Some(vec![FileDefId::FunctionId(FunctionId(1))]));
    assert_eq!(def_map.get(&Name::from_str("List")), Some(vec![FileDefId::MethodmapId(MethodmapId(0))]));
    assert_eq!(def_map.get(&Name::from_str("Baz")), None);
    assert_eq!(def_map.get_macro(&0), Some(MacroId(0)));
    assert_eq!(def_map.get_macro(&1), None);
}

#[test]
fn file_def_map_declares_structs() {
    let root = node(
        NodeKind::SourceFile,
        0,
        30,
        0,
        vec![(
            None,
            node(NodeKind::Struct, 0, 30, 0, vec![(Some(FieldName::Name), leaf(NodeKind::Identifier, "Plugin", 7))]),
        )],
    );
    let db = db_with(vec![(FileId(4), root)]);
    let tree = ItemTree::file_item_tree_query(&db, FileId(4));
    let def_map = DefMap::file_def_map_query(&db, FileId(4), &tree);
    assert_eq!(def_map.declarations(), &[FileDefId::StructId(StructId(0))]);
    assert_eq!(def_map.get(&Name::from_str("Plugin")), Some(vec![FileDefId::StructId(StructId(0))]));
}

#[test]
fn block_def_map_declares_the_block_variables() {
    let block = node(
        NodeKind::Block,
        0,
        20,
        0,
        vec![(
            None,
            node(
                NodeKind::VariableDeclarationStatement,
                2,
                18,
                0,
                vec![
                    (Some(FieldName::Type), leaf(NodeKind::AnonInt, "int", 2)),
                    (None, node(NodeKind::VariableDeclaration, 8, 9, 0, vec![(Some(FieldName::Name), leaf(NodeKind::Identifier, "f", 8))])),
                    (None, node(NodeKind::VariableDeclaration, 11, 12, 0, vec![(Some(FieldName::Name), leaf(NodeKind::Identifier, "g", 11))])),
                ],
            ),
        )],
    );
    let mut db = db_with(vec![]);
    db.block_nodes.push((BlockId(1), (FileId(5), block)));
    let tree = ItemTree::block_item_tree_query(&db, BlockId(1));
    let def_map = DefMap::block_def_map_query(&db, BlockId(1), FileId(5), &tree);
    assert_eq!(def_map.file_id(), FileId(5));
    assert_eq!(def_map.block_id(), None);
    assert_eq!(def_map.declarations(), &[FileDefId::GlobalId(GlobalId(0)), FileDefId::GlobalId(GlobalId(1))]);
    assert_eq!(def_map.get(&Name::from_str("g")), Some(vec![FileDefId::GlobalId(GlobalId(1))]));
}
