use sourcepawn_lsp::base_db::{FileExtension, FileId, Include, IncludeKind, IncludeType};
use sourcepawn_lsp::completion_data::{completion_data_text, Attribute, Database, Event, Game};
use sourcepawn_lsp::data::{FunctionData, FunctionKind, MethodmapExtension, NameMap, ParamData, RawVisibilityId};
use sourcepawn_lsp::graph::Graph;
use sourcepawn_lsp::hir::{Name, TypeRef};
use sourcepawn_lsp::text::{join_strings, replace_str, take_before_char, trim, trim_end_char};

fn name(s: &str) -> Name {
    Name(String::from(s))
}

#[test]
fn name_map_reads_back_what_was_written() {
    let mut m = NameMap::new();
    m.insert(name("foo"), 1);
    m.insert(name("bar"), 2);
    assert_eq!(m.get(&name("foo")), Some(1));
    m.insert(name("foo"), 5);
    assert_eq!(m.get(&name("foo")), Some(5));
    assert_eq!(m.get(&name("bar")), Some(2));
    assert_eq!(m.get(&name("baz")), None);
    assert_eq!(m.len(), 2);
}

fn param(has_default: bool, is_rest: bool) -> ParamData {
    ParamData { type_ref: Some(TypeRef::Int), has_default, is_rest, is_const: false }
}

#[test]
fn function_data_counts_parameters() {
    let f = FunctionData {
        name: name("f"),
        type_ref: None,
        params: vec![param(false, false), param(true, false), param(false, false)],
        kind: FunctionKind::Def,
        visibility: RawVisibilityId(RawVisibilityId::PUBLIC),
        special: None,
        deprecated: false,
    };
    assert_eq!(f.number_of_mandatory_parameters(), 2);
    assert_eq!(f.number_of_parameters(), Some(3));
    let g = FunctionData { params: vec![param(false, false), param(false, true)], ..f };
    assert_eq!(g.number_of_mandatory_parameters(), 1);
    assert_eq!(g.number_of_parameters(), None);
}

#[test]
fn visibility_bits() {
    let v = RawVisibilityId(RawVisibilityId::PUBLIC | RawVisibilityId::STATIC);
    assert!(v.contains(RawVisibilityId::PUBLIC));
    assert!(v.contains(RawVisibilityId::STATIC));
    assert!(!v.contains(RawVisibilityId::STOCK));
}

#[test]
fn methodmap_extension_from_clause() {
    assert!(matches!(MethodmapExtension::from(Some(name("Handle")), false), Some(MethodmapExtension::Inherits(n)) if n.0 == "Handle"));
    assert!(matches!(MethodmapExtension::from(None, true), Some(MethodmapExtension::Nullable)));
    assert!(MethodmapExtension::from(None, false).is_none());
    assert!(MethodmapExtension::from(Some(name("Handle")), true).is_none());
}

fn inc(id: u32) -> Include {
    Include::new(FileId(id), IncludeKind::Quotes, IncludeType::Include, FileExtension::Inc)
}

#[test]
fn include_graph_roots_and_projects() {
    let documents = vec![(FileId(1), FileExtension::Sp), (FileId(2), FileExtension::Inc), (FileId(3), FileExtension::Inc)];
    let includes = vec![vec![inc(2)], vec![inc(3)], vec![]];
    let graph = Graph::graph_query(&documents, &includes);
    let mut roots: Vec<u32> = graph.find_roots().iter().map(|n| n.file_id.0).collect();
    roots.sort();
    assert_eq!(roots, vec![1, 2]);
    let project = graph.projet_subgraph_query(FileId(1)).unwrap();
    assert_eq!(project.root.file_id, FileId(1));
    let mut ids: Vec<u32> = project.nodes.iter().map(|n| n.file_id.0).collect();
    ids.sort();
    assert_eq!(ids, vec![1, 2, 3]);
    // an include file is the top of its own project
    let project = graph.projet_subgraph_query(FileId(3)).unwrap();
    assert_eq!(project.root.file_id, FileId(3));
    assert_eq!(project.root.extension, FileExtension::Inc);
    let ids: Vec<u32> = project.nodes.iter().map(|n| n.file_id.0).collect();
    assert_eq!(ids, vec![3]);
    let project = graph.projet_subgraph_query(FileId(2)).unwrap();
    assert_eq!(project.root.file_id, FileId(2));
    let mut reach: Vec<u32> = graph.get_subgraph_ids_from_root(FileId(2)).iter().map(|f| f.0).collect();
    reach.sort();
    assert_eq!(reach, vec![2, 3]);
    assert!(graph.projet_subgraph_query(FileId(9)).is_none());
}

fn include_of(id: u32, extension: FileExtension) -> Include {
    Include::new(FileId(id), IncludeKind::Quotes, IncludeType::Include, extension)
}

#[test]
fn project_of_a_file_with_two_parents_is_none() {
    let documents = vec![(FileId(1), FileExtension::Sp), (FileId(2), FileExtension::Sp)];
    let includes = vec![vec![inc(3)], vec![inc(3)]];
    let graph = Graph::graph_query(&documents, &includes);
    assert!(graph.projet_subgraph_query(FileId(3)).is_none());
    let project = graph.projet_subgraph_query(FileId(1)).unwrap();
    assert_eq!(project.root.file_id, FileId(1));
}

#[test]
fn project_below_a_shared_ancestor_is_none() {
    let documents = vec![(FileId(1), FileExtension::Sp), (FileId(3), FileExtension::Sp), (FileId(2), FileExtension::Sp)];
    let includes = vec![
        vec![include_of(2, FileExtension::Sp)],
        vec![include_of(2, FileExtension::Sp)],
        vec![include_of(4, FileExtension::Inc)],
    ];
    let graph = Graph::graph_query(&documents, &includes);
    assert!(graph.projet_subgraph_query(FileId(4)).is_none());
    assert!(graph.projet_subgraph_query(FileId(2)).is_none());
    assert_eq!(graph.projet_subgraph_query(FileId(3)).unwrap().root.file_id, FileId(3));
}

#[test]
fn project_of_a_plugin_file_is_its_top_plugin() {
    let documents = vec![(FileId(1), FileExtension::Sp), (FileId(2), FileExtension::Sp)];
    let includes = vec![vec![include_of(2, FileExtension::Sp)], vec![include_of(4, FileExtension::Inc)]];
    let graph = Graph::graph_query(&documents, &includes);
    let project = graph.projet_subgraph_query(FileId(2)).unwrap();
    assert_eq!(project.root.file_id, FileId(1));
    let mut ids: Vec<u32> = project.nodes.iter().map(|n| n.file_id.0).collect();
    ids.sort();
    assert_eq!(ids, vec![1, 2, 4]);
    // the include file tops its own project
    assert_eq!(graph.projet_subgraph_query(FileId(4)).unwrap().root.file_id, FileId(4));
}

#[test]
fn project_of_a_cycle_is_none() {
    let documents = vec![(FileId(1), FileExtension::Sp), (FileId(2), FileExtension::Sp)];
    let includes = vec![vec![include_of(2, FileExtension::Sp)], vec![include_of(1, FileExtension::Sp)]];
    let graph = Graph::graph_query(&documents, &includes);
    assert!(graph.projet_subgraph_query(FileId(1)).is_none());
    assert!(graph.projet_subgraph_query(FileId(2)).is_none());
}

fn extension_of(graph: &Graph, id: u32) -> FileExtension {
    graph.nodes.iter().find(|n| n.file_id.0 == id).unwrap().extension
}

#[test]
fn graph_nodes_keep_the_first_extension_met() {
    let documents = vec![(FileId(1), FileExtension::Sp), (FileId(2), FileExtension::Sp)];
    let includes = vec![vec![include_of(2, FileExtension::Inc)], vec![]];
    let graph = Graph::graph_query(&documents, &includes);
    assert_eq!(extension_of(&graph, 1), FileExtension::Sp);
    assert_eq!(extension_of(&graph, 2), FileExtension::Inc);
    assert_eq!(graph.edges.len(), 1);
    assert_eq!(graph.edges[0].source.extension, FileExtension::Sp);
    assert_eq!(graph.edges[0].target.extension, FileExtension::Inc);
}

#[test]
fn add_file_id_keeps_stored_extensions() {
    let mut graph = Graph { edges: vec![], nodes: vec![] };
    graph.add_file_id(FileId(1), FileExtension::Sp, FileId(2), FileExtension::Inc);
    graph.add_file_id(FileId(2), FileExtension::Sp, FileId(3), FileExtension::Inc);
    assert_eq!(extension_of(&graph, 1), FileExtension::Sp);
    assert_eq!(extension_of(&graph, 2), FileExtension::Inc);
    assert_eq!(extension_of(&graph, 3), FileExtension::Inc);
    assert_eq!(graph.nodes.len(), 3);
    assert_eq!(graph.edges.len(), 2);
    assert_eq!(graph.edges[1].source.extension, FileExtension::Sp);
    // the same include again adds nothing
    graph.add_file_id(FileId(1), FileExtension::Inc, FileId(2), FileExtension::Sp);
    assert_eq!(graph.edges.len(), 2);
    assert_eq!(graph.edges[0].source.extension, FileExtension::Sp);
    assert_eq!(extension_of(&graph, 1), FileExtension::Sp);
}

fn game() -> Game {
    Game::new(
        String::from("csgo"),
        vec![Event::new(
            String::from("round_end"),
            None,
            vec![Attribute::new(String::from("winner"), String::from("byte"), None)],
        )],
    )
}

#[test]
fn completion_database_lookups() {
    let db = Database::new(vec![(String::from("csgo"), game())]);
    assert_eq!(db.get_event("csgo", "round_end").unwrap().name(), "round_end");
    assert!(db.get_event("csgo", "round_start").is_none());
    assert!(db.get("tf2").is_none());
    let events = db.get_events("round_end");
    assert_eq!(events.len(), 1);
    assert_eq!(events[0].0, "csgo");
}

#[test]
fn text_helpers() {
    assert_eq!(trim("  a b \n"), "a b");
    assert_eq!(replace_str("a-b-c", "-", "+"), "a+b+c");
    assert_eq!(replace_str("abc", "x", "y"), "abc");
    assert_eq!(take_before_char("left@right", '@'), "left");
    assert_eq!(take_before_char("none", '@'), "none");
    assert_eq!(join_strings(&vec![String::from("a"), String::from("b")], ", "), "a, b");
    assert_eq!(trim_end_char("name:", ':'), "name");
}

use sourcepawn_lsp::data::{MethodmapData, MethodmapItemData, PropertyData, PropertyItem};
use sourcepawn_lsp::ids::{FunctionId, PropertyId};

fn property(id: u32, n: &str) -> MethodmapItemData {
    MethodmapItemData::Property(PropertyData {
        id: PropertyId(id),
        getters_setters: vec![PropertyItem::Getter(FunctionId(id + 100))],
        name: name(n),
        type_ref: TypeRef::Int,
        deprecated: false,
    })
}

fn methodmap_with_properties() -> MethodmapData {
    let mut items_map = NameMap::new();
    items_map.insert(name("Length"), 1);
    items_map.insert(name("Push"), 0);
    items_map.insert(name("Size"), 2);
    MethodmapData {
        name: name("List"),
        items: vec![MethodmapItemData::Method(FunctionId(1)), property(7, "Length"), property(8, "Size")],
        items_map,
        last_inherited_item_idx: None,
        extension: None,
        inherits: None,
        constructor: None,
        destructor: None,
        deprecated: false,
    }
}

#[test]
fn property_from_id_finds_the_property() {
    let data = methodmap_with_properties();
    let found = data.property_from_id(PropertyId(8)).unwrap();
    assert_eq!(found.name.to_string(), "Size");
    assert_eq!(data.property_from_id(PropertyId(7)).unwrap().name.to_string(), "Length");
}

#[test]
fn property_from_id_of_unknown_property_is_none() {
    let data = methodmap_with_properties();
    assert!(data.property_from_id(PropertyId(9)).is_none());
}

#[test]
fn methodmap_properties_in_order() {
    let data = methodmap_with_properties();
    assert_eq!(data.properties(), vec![PropertyId(7), PropertyId(8)]);
}

use sourcepawn_lsp::item_data::{StructData, StructFieldData};

fn struct_field(n: &str) -> StructFieldData {
    StructFieldData { name: name(n), type_ref: TypeRef::Int, const_: false, deprecated: false }
}

#[test]
fn struct_field_by_name_finds_the_first() {
    let data = StructData { name: name("Plugin"), fields: vec![struct_field("name"), struct_field("author"), struct_field("name")], deprecated: false };
    assert_eq!(data.field_by_name("author"), Some(1));
    assert_eq!(data.field_by_name("name"), Some(0));
    assert_eq!(data.field_by_name("url"), None);
    assert_eq!(data.field(1).name.to_string(), "author");
    assert_eq!(data.name().to_string(), "Plugin");
}

use flate2::write::GzEncoder;
use flate2::Compression;
use std::io::Write;

#[test]
fn completion_data_text_decompresses() {
    let mut encoder = GzEncoder::new(Vec::new(), Compression::default());
    encoder.write_all(b"{\"csgo\": []}").unwrap();
    let compressed = encoder.finish().unwrap();
    assert_eq!(completion_data_text(&compressed), Some(String::from("{\"csgo\": []}")));
    assert_eq!(completion_data_text(b"not gzip"), None);
}

#[test]
fn trim_removes_unicode_white_space() {
    assert_eq!(trim("\u{3000}\u{a0}name\u{85}\t"), "name");
    assert_eq!(trim("\u{200b}x"), "\u{200b}x");
}
