use sourcepawn_lsp::base_db::FileId;
use sourcepawn_lsp::defs::{DefWithBody, FileDef, FunctionType, SymbolKind};
use sourcepawn_lsp::diagnostics::{
    code, message, push_decimal, to_diagnostic, AnyDiagnostic, ConstructorDiagnosticKind, DiagnosticCode, InactiveCode,
    IncorrectNumberOfArguments, InvalidUseOfThis, PreprocessorEvaluationError, Severity, UnresolvedConstructor,
    UnresolvedField, UnresolvedInclude, UnresolvedInherit, UnresolvedMacro, UnresolvedMethodCall, UnresolvedNamedArg,
};
use sourcepawn_lsp::hir::Name;
use sourcepawn_lsp::ids::{FunctionId, InFile, MacroId, TypedefId};
use sourcepawn_lsp::infer::{InferenceDiagnostic, InferenceResult};
use sourcepawn_lsp::lower::BodySourceMap;
use sourcepawn_lsp::lsp::{Position, Range};
use sourcepawn_lsp::syntax::{NodeKind, NodePtr};

fn ptr(start: usize) -> InFile<NodePtr> {
    InFile { file_id: FileId(1), value: NodePtr { kind: NodeKind::Identifier, start_byte: start, end_byte: start + 3 } }
}

fn name(s: &str) -> Name {
    Name(String::from(s))
}

fn range() -> Range {
    Range::new(Position::new(1, 2), Position::new(1, 5))
}

#[test]
fn diagnostic_code_as_str() {
    assert_eq!(DiagnosticCode::SpCompError("E0000").as_str(), "E0000");
    assert_eq!(DiagnosticCode::SpCompWarning("W0001").as_str(), "W0001");
    assert_eq!(DiagnosticCode::Lint("inactive-code", Severity::WeakWarning).as_str(), "inactive-code");
}

#[test]
fn diagnostic_code_severity() {
    assert_eq!(DiagnosticCode::SpCompError("E0000").severity(), Severity::Error);
    assert_eq!(DiagnosticCode::SpCompWarning("W0001").severity(), Severity::Warning);
    assert_eq!(DiagnosticCode::Lint("x", Severity::WeakWarning).severity(), Severity::WeakWarning);
}

#[test]
fn decimal_text_reads_back() {
    for n in [0usize, 7, 10, 42, 1000, 4294967295] {
        let mut s = String::from("n=");
        push_decimal(&mut s, n);
        assert_eq!(s, format!("n={}", n));
        assert_eq!(s[2..].parse::<usize>().unwrap(), n);
    }
}

#[test]
fn message_of_each_diagnostic() {
    let field = AnyDiagnostic::UnresolvedField(Box::new(UnresolvedField {
        expr: ptr(0),
        receiver: name("Foo"),
        name: name("bar"),
        method_with_same_name_exists: true,
    }));
    assert_eq!(message(&field), "no field `bar` on type `Foo`, but a method with a similar name exists");
    let method = AnyDiagnostic::UnresolvedMethodCall(Box::new(UnresolvedMethodCall {
        expr: ptr(0),
        receiver: name("Foo"),
        name: name("baz"),
        field_with_same_name_exists: false,
    }));
    assert_eq!(message(&method), "no method `baz` on type `Foo`");
    let ctor = |exists| {
        AnyDiagnostic::UnresolvedConstructor(Box::new(UnresolvedConstructor { expr: ptr(0), methodmap: name("Map"), exists }))
    };
    assert_eq!(message(&ctor(Some(ConstructorDiagnosticKind::Methodmap))), "methodmap `Map` does not have a constructor");
    assert_eq!(message(&ctor(Some(ConstructorDiagnosticKind::EnumStruct))), "enum struct `Map` found, expected a methodmap");
    assert_eq!(message(&ctor(None)), "methodmap `Map` does not exist");
    let named = AnyDiagnostic::UnresolvedNamedArg(Box::new(UnresolvedNamedArg { expr: ptr(0), name: name("x"), callee: name("f") }));
    assert_eq!(message(&named), "no parameter `x` found");
    let too_few = AnyDiagnostic::IncorrectNumberOfArguments(Box::new(IncorrectNumberOfArguments {
        expr: ptr(0),
        name: name("f"),
        expected: 3,
        actual: 1,
    }));
    assert_eq!(message(&too_few), "expected at least 3 arguments for `f` call, found 1");
    let too_many = AnyDiagnostic::IncorrectNumberOfArguments(Box::new(IncorrectNumberOfArguments {
        expr: ptr(0),
        name: name("g"),
        expected: 2,
        actual: 12,
    }));
    assert_eq!(message(&too_many), "expected at most 2 arguments for `g` call, found 12");
    let inherit = |exists| AnyDiagnostic::UnresolvedInherit(Box::new(UnresolvedInherit { expr: ptr(0), inherit: name("Base"), exists }));
    assert_eq!(message(&inherit(true)), "methodmap `Base` does not exist");
    assert_eq!(message(&inherit(false)), "`Base` is not a methodmap");
    let unresolved_file = AnyDiagnostic::UnresolvedInclude(Box::new(UnresolvedInclude { range: range(), path: String::from("a.inc") }));
    assert_eq!(message(&unresolved_file), "file `a.inc` was not found");
    let eval = AnyDiagnostic::PreprocessorEvaluationError(Box::new(PreprocessorEvaluationError {
        range: range(),
        text: String::from("bad expression"),
    }));
    assert_eq!(message(&eval), "bad expression");
    let mac = AnyDiagnostic::UnresolvedMacro(Box::new(UnresolvedMacro { range: range(), name: String::from("FOO") }));
    assert_eq!(message(&mac), "no macro `FOO` found");
    let inactive = AnyDiagnostic::InactiveCode(Box::new(InactiveCode { range: range() }));
    assert_eq!(message(&inactive), "code is inactive due to preprocessor directives");
    let this = AnyDiagnostic::InvalidUseOfThis(Box::new(InvalidUseOfThis { expr: ptr(0) }));
    assert_eq!(message(&this), "`this` can only be used in methods");
}

#[test]
fn inactive_code_is_a_weak_unused_lint() {
    let inactive = AnyDiagnostic::InactiveCode(Box::new(InactiveCode { range: range() }));
    let d = to_diagnostic(&inactive, range());
    assert_eq!(d.code.as_str(), "inactive-code");
    assert_eq!(d.severity, Severity::WeakWarning);
    assert!(d.unused);
    assert!(!d.experimental);
    assert_eq!(d.range, range());
    let named = AnyDiagnostic::UnresolvedNamedArg(Box::new(UnresolvedNamedArg { expr: ptr(0), name: name("x"), callee: name("f") }));
    let d = to_diagnostic(&named, range());
    assert_eq!(code(&named).as_str(), "E0000");
    assert_eq!(d.severity, Severity::Error);
    assert!(!d.unused);
    assert_eq!(d.message, "no parameter `x` found");
}

#[test]
fn def_with_body_diagnostics_are_placed_on_their_nodes() {
    let mut infer = InferenceResult::new();
    infer.diagnostics.push(InferenceDiagnostic::UnresolvedField {
        expr: 1,
        receiver: name("Foo"),
        name: name("bar"),
        method_with_same_name_exists: false,
    });
    infer.diagnostics.push(InferenceDiagnostic::UnresolvedConstructor {
        expr: 0,
        methodmap: name("Map"),
        exists: Some(sourcepawn_lsp::infer::ConstructorDiagnosticKind::EnumStruct),
    });
    infer.diagnostics.push(InferenceDiagnostic::IncorrectNumberOfArguments { expr: 1, name: name("f"), expected: 2, actual: 3 });
    let source_map = BodySourceMap { expr_map: vec![(ptr(10), 0), (ptr(20), 1)], expr_map_back: vec![Some(ptr(10)), Some(ptr(20))] };
    let mut acc = vec![AnyDiagnostic::InactiveCode(Box::new(InactiveCode { range: range() }))];
    DefWithBody::Function(FunctionId(0)).diagnostics(&infer, &source_map, &mut acc);
    assert_eq!(acc.len(), 4);
    assert!(matches!(&acc[0], AnyDiagnostic::InactiveCode(_)));
    match &acc[1] {
        AnyDiagnostic::UnresolvedField(d) => {
            assert_eq!(d.expr, ptr(20));
            assert_eq!(d.name.0, "bar");
            assert_eq!(d.receiver.0, "Foo");
            assert!(!d.method_with_same_name_exists);
        },
        _ => panic!("expected an unresolved field"),
    }
    match &acc[2] {
        AnyDiagnostic::UnresolvedConstructor(d) => {
            assert_eq!(d.expr, ptr(10));
            assert_eq!(d.methodmap.0, "Map");
            assert_eq!(d.exists, Some(ConstructorDiagnosticKind::EnumStruct));
        },
        _ => panic!("expected an unresolved constructor"),
    }
    match &acc[3] {
        AnyDiagnostic::IncorrectNumberOfArguments(d) => {
            assert_eq!(d.expr, ptr(20));
            assert_eq!((d.expected, d.actual), (2, 3));
        },
        _ => panic!("expected an arity diagnostic"),
    }
}

#[test]
fn symbol_kind_of_function_types() {
    assert_eq!(SymbolKind::from(FunctionType::Getter), SymbolKind::Method);
    assert_eq!(SymbolKind::from(FunctionType::Setter), SymbolKind::Method);
    assert_eq!(SymbolKind::from(FunctionType::Method), SymbolKind::Method);
    assert_eq!(SymbolKind::from(FunctionType::Constructor), SymbolKind::Constructor);
    assert_eq!(SymbolKind::from(FunctionType::Destructor), SymbolKind::Destructor);
    assert_eq!(SymbolKind::from(FunctionType::Function), SymbolKind::Function);
    assert_eq!(SymbolKind::default(), SymbolKind::Macro);
}

#[test]
fn file_defs_with_a_body() {
    assert_eq!(FileDef::Function(FunctionId(3)).as_def_with_body(), Some(DefWithBody::Function(FunctionId(3))));
    assert_eq!(FileDef::Typedef(TypedefId(1)).as_def_with_body(), Some(DefWithBody::Typedef(TypedefId(1))));
    assert_eq!(FileDef::Macro(MacroId(1)).as_def_with_body(), None);
}

use sourcepawn_lsp::diagnostics::byte_to_row_col;

#[test]
fn byte_positions_to_rows_and_columns() {
    let text = "ab\ncd";
    assert_eq!(byte_to_row_col(text, 0), Some((1, 0)));
    assert_eq!(byte_to_row_col(text, 1), Some((1, 1)));
    assert_eq!(byte_to_row_col(text, 3), Some((2, 0)));
    assert_eq!(byte_to_row_col(text, 5), Some((2, 2)));
    assert_eq!(byte_to_row_col(text, 6), None);
}

#[test]
fn byte_inside_a_character_has_no_position() {
    let text = "\u{e9}x";
    assert_eq!(byte_to_row_col(text, 1), None);
    assert_eq!(byte_to_row_col(text, 2), Some((1, 1)));
    assert_eq!(byte_to_row_col("", 0), Some((1, 0)));
}
