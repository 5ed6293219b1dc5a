use sourcepawn_lsp::base_db::{infer_include_ext, FileExtension, FileId, FileTable, Include, IncludeKind, IncludeType};
use sourcepawn_lsp::includes::{file_includes_query, IncludeDirective};
use sourcepawn_lsp::lsp::{Position, Range};

#[test]
fn infer_include_ext_appends_inc() {
    let mut path = String::from("sourcemod");
    assert_eq!(infer_include_ext(&mut path), FileExtension::Inc);
    assert_eq!(path, "sourcemod.inc");
}

#[test]
fn infer_include_ext_keeps_sp() {
    let mut path = String::from("plugin.sp");
    assert_eq!(infer_include_ext(&mut path), FileExtension::Sp);
    assert_eq!(path, "plugin.sp");
}

#[test]
fn infer_include_ext_keeps_inc() {
    let mut path = String::from("sdktools.inc");
    assert_eq!(infer_include_ext(&mut path), FileExtension::Inc);
    assert_eq!(path, "sdktools.inc");
}

#[test]
fn infer_include_ext_twice_changes_nothing() {
    let mut path = String::from("dir/file");
    let first = infer_include_ext(&mut path);
    let once = path.clone();
    let second = infer_include_ext(&mut path);
    assert_eq!(first, second);
    assert_eq!(path, once);
    assert_eq!(path, "dir/file.inc");
}

fn table() -> FileTable {
    FileTable {
        files: vec![
            (FileId(1), FileExtension::Sp, String::from("")),
            (FileId(2), FileExtension::Inc, String::from("")),
            (FileId(3), FileExtension::Inc, String::from("")),
            (FileId(4), FileExtension::Inc, String::from("")),
        ],
        anchored: vec![
            ((FileId(1), String::from("foo.inc")), FileId(2)),
            ((FileId(1), String::from("include/bar.inc")), FileId(4)),
        ],
        roots: vec![(String::from("sourcemod.inc"), FileId(3))],
    }
}

#[test]
fn file_includes_resolves_and_reports() {
    let db = table();
    let directives = vec![
        IncludeDirective { type_: IncludeType::Include, text: String::from("#include \"foo\""), line: 1, character: 0 },
        IncludeDirective { type_: IncludeType::Include, text: String::from("  #include <missing>  "), line: 2, character: 2 },
        IncludeDirective { type_: IncludeType::TryInclude, text: String::from("#tryinclude <gone>"), line: 3, character: 0 },
        IncludeDirective { type_: IncludeType::Include, text: String::from("#include \"bar\""), line: 4, character: 0 },
        IncludeDirective { type_: IncludeType::Include, text: String::from("#include <sourcemod>"), line: 5, character: 0 },
    ];
    let (includes, unresolved) = file_includes_query(&db, FileId(1), &directives);
    assert_eq!(
        *includes,
        vec![
            Include::new(FileId(3), IncludeKind::Chevrons, IncludeType::TryInclude, FileExtension::Inc),
            Include::new(FileId(2), IncludeKind::Quotes, IncludeType::Include, FileExtension::Inc),
            Include::new(FileId(4), IncludeKind::Quotes, IncludeType::Include, FileExtension::Inc),
            Include::new(FileId(3), IncludeKind::Chevrons, IncludeType::Include, FileExtension::Inc),
        ]
    );
    assert_eq!(unresolved.len(), 1);
    assert_eq!(unresolved[0].file_id, FileId(1));
    assert_eq!(unresolved[0].path, "missing.inc");
    assert_eq!(unresolved[0].range, Range::new(Position::new(2, 2), Position::new(2, 18)));
}

#[test]
fn file_includes_without_sourcemod_root() {
    let db = FileTable { files: vec![], anchored: vec![], roots: vec![] };
    let directives = vec![IncludeDirective {
        type_: IncludeType::Include,
        text: String::from("#include nothing"),
        line: 0,
        character: 0,
    }];
    let (includes, unresolved) = file_includes_query(&db, FileId(7), &directives);
    assert!(includes.is_empty());
    assert!(unresolved.is_empty());
}

use sourcepawn_lsp::base_db::FileLoader;

#[test]
fn file_table_gives_texts_and_known_files() {
    let t = FileTable {
        files: vec![
            (FileId(1), FileExtension::Sp, String::from("#include <a>")),
            (FileId(2), FileExtension::Inc, String::from("int x;")),
            (FileId(1), FileExtension::Sp, String::from("shadowed")),
        ],
        anchored: vec![],
        roots: vec![],
    };
    assert_eq!(t.file_text(FileId(1)), "#include <a>");
    assert_eq!(t.file_text(FileId(2)), "int x;");
    assert_eq!(t.file_text(FileId(9)), "");
    assert_eq!(
        t.known_files(),
        vec![(FileId(1), FileExtension::Sp), (FileId(2), FileExtension::Inc), (FileId(1), FileExtension::Sp)]
    );
}
