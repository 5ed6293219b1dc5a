use sourcepawn_lsp::base_db::{FileExtension, FileId};
use sourcepawn_lsp::data::{FunctionData, FunctionKind, RawVisibilityId, SpecialMethod};
use sourcepawn_lsp::graph::{Edge, Graph, Node, SubGraph};
use sourcepawn_lsp::graphviz::render_graphviz;
use sourcepawn_lsp::hir::{Name, TypeRef};
use sourcepawn_lsp::ids::{FunctionId, MacroId};
use sourcepawn_lsp::render::{Function, Macro};
use sourcepawn_lsp::syntax::{FieldName, NodeKind, SyntaxNode};

fn leaf(kind: NodeKind, text: &str) -> SyntaxNode {
    SyntaxNode { kind, text: String::from(text), start_byte: 0, end_byte: text.len(), start_row: 0, children: vec![] }
}

fn node(kind: NodeKind, text: &str, children: Vec<(Option<FieldName>, SyntaxNode)>) -> SyntaxNode {
    SyntaxNode { kind, text: String::from(text), start_byte: 0, end_byte: text.len(), start_row: 0, children }
}

fn sp(id: u32) -> Node {
    Node { file_id: FileId(id), extension: FileExtension::Sp }
}

fn inc(id: u32) -> Node {
    Node { file_id: FileId(id), extension: FileExtension::Inc }
}

fn names() -> Vec<(FileId, String)> {
    vec![(FileId(1), String::from("a.sp")), (FileId(2), String::from("b.inc")), (FileId(3), String::from("c.sp"))]
}

#[test]
fn graphviz_of_one_project() {
    let graph = Graph { nodes: vec![sp(1), inc(2)], edges: vec![Edge { source: sp(1), target: inc(2) }] };
    let text = graph.to_graphviz(&names()).unwrap();
    let expected = "digraph G {\n  subgraph cluster_0 {\n    style=filled;\n    color=aliceblue;\n    node [style=filled,color=white];\n    label = \"Project n\u{b0}0\";\n\"a.sp\" -> \"b.inc\";\n}\n\"a.sp\" [shape=Mdiamond];\n}";
    assert_eq!(text, expected);
}

#[test]
fn graphviz_numbers_only_sp_projects() {
    let sgs = vec![
        SubGraph { root: inc(2), nodes: vec![inc(2)], edges: vec![] },
        SubGraph { root: sp(1), nodes: vec![sp(1)], edges: vec![] },
        SubGraph { root: sp(3), nodes: vec![sp(3), inc(2)], edges: vec![Edge { source: sp(3), target: inc(2) }] },
    ];
    let text = render_graphviz(&sgs, &names()).unwrap();
    let expected = "digraph G {\n  subgraph cluster_0 {\n    style=filled;\n    color=aliceblue;\n    node [style=filled,color=white];\n    label = \"Project n\u{b0}0\";\n}\n  subgraph cluster_1 {\n    style=filled;\n    color=antiquewhite;\n    node [style=filled,color=white];\n    label = \"Project n\u{b0}1\";\n\"c.sp\" -> \"b.inc\";\n}\n\"a.sp\" [shape=Mdiamond];\n\"c.sp\" [shape=Mdiamond];\n}";
    assert_eq!(text, expected);
}

#[test]
fn graphviz_without_a_name_is_none() {
    let graph = Graph { nodes: vec![sp(1), inc(4)], edges: vec![Edge { source: sp(1), target: inc(4) }] };
    assert_eq!(graph.to_graphviz(&names()), None);
}

#[test]
fn graphviz_of_empty_graph() {
    let graph = Graph { nodes: vec![], edges: vec![] };
    assert_eq!(graph.to_graphviz(&vec![]).unwrap(), "digraph G {\n}");
}

#[test]
fn macro_define_renders_trimmed() {
    let m = node(
        NodeKind::PreprocDefine,
        "#define FOO  1",
        vec![(Some(FieldName::Name), leaf(NodeKind::Identifier, " FOO ")), (Some(FieldName::Value), leaf(NodeKind::Other(0), "  1 "))],
    );
    assert_eq!(Macro { id: MacroId(0) }.render(&m).unwrap(), "#define FOO 1");
}

#[test]
fn macro_with_parameters_renders_them() {
    let m = node(
        NodeKind::PreprocMacro,
        "#define SUM(%1, %2) %1 + %2",
        vec![
            (Some(FieldName::Name), leaf(NodeKind::Identifier, "SUM")),
            (Some(FieldName::Parameters), leaf(NodeKind::Other(0), "(%1, %2)")),
            (Some(FieldName::Value), leaf(NodeKind::Other(0), "%1 + %2\n")),
        ],
    );
    assert_eq!(Macro { id: MacroId(0) }.render(&m).unwrap(), "#define SUM(%1, %2) %1 + %2");
}

#[test]
fn macro_without_value_is_none() {
    let m = node(NodeKind::PreprocDefine, "#define FOO", vec![(Some(FieldName::Name), leaf(NodeKind::Identifier, "FOO"))]);
    assert_eq!(Macro { id: MacroId(0) }.render(&m), None);
}

#[test]
fn macro_with_empty_value_drops_trailing_space() {
    let m = node(
        NodeKind::PreprocDefine,
        "#define FOO",
        vec![(Some(FieldName::Name), leaf(NodeKind::Identifier, "FOO")), (Some(FieldName::Value), leaf(NodeKind::Other(0), ""))],
    );
    assert_eq!(Macro { id: MacroId(0) }.render(&m).unwrap(), "#define FOO");
}

fn param(text: &str, name: Option<&str>) -> SyntaxNode {
    let children = match name {
        Some(n) => vec![(Some(FieldName::Name), leaf(NodeKind::Identifier, n))],
        None => vec![],
    };
    node(NodeKind::ParameterDeclaration, text, children)
}

fn typedef_node(params: Vec<SyntaxNode>) -> SyntaxNode {
    let params = node(NodeKind::ParameterDeclarations, "", params.into_iter().map(|p| (None, p)).collect());
    node(
        NodeKind::TypedefExpression,
        "",
        vec![
            (Some(FieldName::ReturnType), leaf(NodeKind::AnonVoid, "void")),
            (Some(FieldName::Name), leaf(NodeKind::Identifier, "Callback")),
            (Some(FieldName::Parameters), params),
        ],
    )
}

#[test]
fn snippet_numbers_parameters_from_two() {
    let n = typedef_node(vec![param("int client", Some("client")), param("const char[] name", Some("name"))]);
    assert_eq!(
        Function { id: FunctionId(0) }.as_snippet(&n).unwrap(),
        "public void Callback(int ${2:client}, const char[] ${3:name})\n{\n\t$0\n}"
    );
}

#[test]
fn snippet_without_parameters() {
    let n = typedef_node(vec![]);
    assert_eq!(Function { id: FunctionId(0) }.as_snippet(&n).unwrap(), "public void Callback()\n{\n\t$0\n}");
}

#[test]
fn snippet_skips_unnamed_parameter_but_counts_it() {
    let n = typedef_node(vec![param("any", None), param("int x", Some("x"))]);
    assert_eq!(Function { id: FunctionId(0) }.as_snippet(&n).unwrap(), "public void Callback(int ${3:x})\n{\n\t$0\n}");
}

#[test]
fn snippet_without_return_type_is_none() {
    let n = node(NodeKind::TypedefExpression, "", vec![(Some(FieldName::Name), leaf(NodeKind::Identifier, "F"))]);
    assert_eq!(Function { id: FunctionId(0) }.as_snippet(&n), None);
}

fn data(visibility: u32, kind: FunctionKind, type_ref: Option<TypeRef>, special: Option<SpecialMethod>) -> FunctionData {
    FunctionData {
        name: Name::from_str("Bar"),
        type_ref,
        params: vec![],
        kind,
        visibility: RawVisibilityId(visibility),
        special,
        deprecated: false,
    }
}

fn function_node() -> SyntaxNode {
    node(
        NodeKind::FunctionDeclaration,
        "native int Bar(int a);",
        vec![(Some(FieldName::Name), leaf(NodeKind::Identifier, "Bar")), (Some(FieldName::Parameters), leaf(NodeKind::ParameterDeclarations, "(int a)"))],
    )
}

#[test]
fn render_function_with_parent_name() {
    let d = data(RawVisibilityId::PUBLIC | RawVisibilityId::STOCK, FunctionKind::Native, Some(TypeRef::Int), None);
    let parent = node(NodeKind::Methodmap, "", vec![(Some(FieldName::Name), leaf(NodeKind::Identifier, "Foo"))]);
    let text = Function { id: FunctionId(0) }.render(&d, &function_node(), Some(&parent)).unwrap();
    assert_eq!(text, "Foo\npublic stock native int Bar(int a)");
}

#[test]
fn render_plain_function() {
    let d = data(RawVisibilityId::NONE, FunctionKind::Def, None, None);
    let text = Function { id: FunctionId(0) }.render(&d, &function_node(), None).unwrap();
    assert_eq!(text, "Bar(int a)");
}

#[test]
fn render_destructor_and_forward() {
    let d = data(0, FunctionKind::Forward, Some(TypeRef::Void), Some(SpecialMethod::Destructor));
    let parent = node(NodeKind::SourceFile, "", vec![]);
    let text = Function { id: FunctionId(0) }.render(&d, &function_node(), Some(&parent)).unwrap();
    assert_eq!(text, "forward void ~Bar(int a)");
}

use sourcepawn_lsp::data::{EnumStructData, EnumStructItemData, FieldData, MethodmapData, MethodmapExtension, NameMap, PropertyData, PropertyItem};
use sourcepawn_lsp::ids::{EnumId, EnumStructId, FuncenumId, FunctagId, GlobalId, MethodmapId, PropertyId, TypedefId, TypesetId, VariantId};
use sourcepawn_lsp::item_data::{FunctagData, GlobalData, TypedefData};
use sourcepawn_lsp::render::{Enum, Field, Funcenum, Functag, Global, Methodmap, Property, Typedef, Typeset, Variant};

fn methodmap_data(extension: Option<MethodmapExtension>) -> MethodmapData {
    MethodmapData {
        name: Name::from_str("List"),
        items: vec![],
        items_map: NameMap::new(),
        last_inherited_item_idx: None,
        extension,
        inherits: None,
        constructor: None,
        destructor: None,
        deprecated: false,
    }
}

#[test]
fn methodmap_headers() {
    let m = Methodmap { id: MethodmapId(0) };
    assert_eq!(m.render(&methodmap_data(None)).unwrap(), "methodmap List");
    assert_eq!(m.render(&methodmap_data(Some(MethodmapExtension::Inherits(Name::from_str("Handle"))))).unwrap(), "methodmap List < Handle");
    assert_eq!(m.render(&methodmap_data(Some(MethodmapExtension::Nullable))).unwrap(), "methodmap List __nullable__");
}

#[test]
fn property_declaration() {
    let data = PropertyData {
        id: PropertyId(1),
        getters_setters: vec![PropertyItem::Getter(FunctionId(2))],
        name: Name::from_str("Length"),
        type_ref: TypeRef::Int,
        deprecated: false,
    };
    assert_eq!(Property { id: PropertyId(1) }.render(&Name::from_str("List"), &data).unwrap(), "List::property int Length");
}

#[test]
fn keyword_headers() {
    assert_eq!(Enum { id: EnumId(0) }.render(&Name::from_str("Color")).unwrap(), "enum Color");
    assert_eq!(Typeset { id: TypesetId(0) }.render(&Name::from_str("Cb")).unwrap(), "typeset Cb");
    assert_eq!(Funcenum { id: FuncenumId(0) }.render(&Name::from_str("Fe")).unwrap(), "funcenum Fe");
}

#[test]
fn variant_with_and_without_enum_name() {
    let v = Variant { id: VariantId(0) };
    assert_eq!(v.render(&Name::from_str("Color"), &Name::from_str("Red")).unwrap(), "Color::Red");
    assert_eq!(v.render(&Name::from_str(""), &Name::from_str("Red")).unwrap(), "Red");
}

#[test]
fn global_declarations() {
    let g = Global { id: GlobalId(0) };
    let data = GlobalData { name: Name::from_str("g_count"), type_ref: Some(TypeRef::Int), visibility: RawVisibilityId(RawVisibilityId::PUBLIC) };
    assert_eq!(g.render(&data).unwrap(), "public int g_count;");
    let old = GlobalData { name: Name::from_str("g_f"), type_ref: Some(TypeRef::OldName(Name::from_str("Float"))), visibility: RawVisibilityId(0) };
    assert_eq!(g.render(&old).unwrap(), "Float:g_f;");
    let untyped = GlobalData { name: Name::from_str("x"), type_ref: None, visibility: RawVisibilityId(RawVisibilityId::NONE) };
    assert_eq!(g.render(&untyped).unwrap(), "x;");
}

#[test]
fn field_declaration() {
    let parent = EnumStructData {
        name: Name::from_str("Point"),
        items: vec![
            EnumStructItemData::Method(FunctionId(1)),
            EnumStructItemData::Field(FieldData { name: Name::from_str("x"), type_ref: TypeRef::Float, deprecated: false }),
        ],
        items_map: NameMap::new(),
        deprecated: false,
    };
    assert_eq!(Field { parent: EnumStructId(0), id: 1 }.render(&parent).unwrap(), "float Point::x;");
}

#[test]
fn typedef_declaration_and_snippet() {
    let expr = typedef_node(vec![param("int client", Some("client"))]);
    let named = TypedefData { name: Some(Name::from_str("Cb")), type_ref: TypeRef::Void, deprecated: false };
    let t = Typedef { id: TypedefId(0) };
    assert_eq!(t.render(&named, &expr).unwrap(), "typedef Cb = function void ;");
    let wrapped = node(NodeKind::Typedef, "", vec![(Some(FieldName::Name), leaf(NodeKind::Identifier, "Cb")), (None, typedef_node(vec![]))]);
    let unnamed = TypedefData { name: None, type_ref: TypeRef::Int, deprecated: false };
    assert_eq!(t.render(&unnamed, &wrapped).unwrap(), "function int ;");
    assert_eq!(t.render(&unnamed, &leaf(NodeKind::Identifier, "x")), None);
    assert_eq!(t.as_snippet(&expr).unwrap(), "void ${1:name}(int ${2:client})\n{\n\t$0\n}");
    assert_eq!(t.as_snippet(&wrapped).unwrap(), "void ${1:name}()\n{\n\t$0\n}");
}

#[test]
fn functag_declarations() {
    let decl = node(NodeKind::Functag, "", vec![(Some(FieldName::Parameters), leaf(NodeKind::ParameterDeclarations, "(int a)"))]);
    let f = Functag { id: FunctagId(0) };
    let named = FunctagData { name: Some(Name::from_str("Cb")), type_ref: Some(TypeRef::Int), deprecated: false };
    assert_eq!(f.render(&named, None, &decl).unwrap(), "functag public intCb(int a);");
    let unnamed = FunctagData { name: None, type_ref: Some(TypeRef::Void), deprecated: false };
    assert_eq!(f.render(&unnamed, Some(&Name::from_str("Fe")), &decl).unwrap(), "Fe\nvoid:public(int a);");
}
