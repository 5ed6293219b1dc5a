//! Resolution of `#include` and `#tryinclude` directives to files.
use vstd::prelude::*;
use vstd::utf8::encode_utf8;
use crate::base_db::{
    infer_include_ext, spec_include_ext, spec_include_path, FileExtension, FileId, FileLoader,
    Include, IncludeKind, IncludeType,
};
use crate::lsp::{Position, Range};
use crate::pattern::{regex_capture, regex_group};
use crate::syntax::{field_index_from, FieldName, NodeKind, NodePtr, SyntaxNode};
use crate::text::{push_str, trim, trim_spec};
use std::sync::Arc;

verus! {

/// The path between the chevrons of `#include <path>`.
pub const RE_CHEVRON: &'static str = "<([^>]+)>";

/// The path between the quotes of `#include "path"`.
pub const RE_QUOTE: &'static str = "\"([^>]+)\"";

/// `a` when it names a file, else `b`.
pub open spec fn first_some(a: Option<FileId>, b: Option<FileId>) -> Option<FileId> {
    if a is Some {
        a
    } else {
        b
    }
}

/// `path` inside an `include/` folder.
pub open spec fn in_include_dir(path: Seq<char>) -> Seq<char> {
    "include/"@ + path
}

/// `"include/"` followed by `path`.
fn with_include_dir(path: &str) -> (res: String)
    ensures
        res@ == in_include_dir(path@),
{
    let mut res = "include/".to_owned();
    push_str(&mut res, path);
    res
}

/// The kind of include that a directive node stands for.
pub open spec fn directive_type(kind: NodeKind) -> IncludeType {
    if kind == NodeKind::PreprocInclude {
        IncludeType::Include
    } else {
        IncludeType::TryInclude
    }
}

/// The lookups of an include path, in the order they are tried: relative to
/// the including file, in its `include/` folder, relative to the roots, and
/// for chevrons, in the `include/` folder of the roots.
pub open spec fn node_lookup<D: FileLoader>(db: &D, anchor: FileId, kind: IncludeKind, path: Seq<char>) -> Option<FileId> {
    first_some(
        db.spec_resolve_path(anchor, path),
        first_some(
            db.spec_resolve_path(anchor, in_include_dir(path)),
            first_some(
                db.spec_resolve_path_relative_to_roots(path),
                if kind == IncludeKind::Chevrons {
                    db.spec_resolve_path_relative_to_roots(in_include_dir(path))
                } else {
                    None
                },
            ),
        ),
    )
}

/// A directive node is well formed when it is an include or a tryinclude and
/// its path, if any, is a system-library string or a string literal.
pub open spec fn include_node_wf(node: &SyntaxNode) -> bool {
    &&& (node.kind == NodeKind::PreprocInclude || node.kind == NodeKind::PreprocTryinclude)
    &&& (field_index_from(node.children@, FieldName::Path, 0) matches Some(i) ==> {
        let k = node.children@[i].1.kind;
        k == NodeKind::SystemLibString || k == NodeKind::StringLiteral
    })
}

/// What `resolve_include_node` gives for a well-formed directive node.
pub open spec fn spec_resolve_include_node<D: FileLoader>(db: &D, file_id: FileId, node: &SyntaxNode) -> Option<
    (Option<FileId>, IncludeKind, IncludeType, Seq<char>, NodePtr, FileExtension),
> {
    match field_index_from(node.children@, FieldName::Path, 0) {
        None => None,
        Some(i) => {
            let path_node = node.children@[i].1;
            let kind = if path_node.kind == NodeKind::SystemLibString {
                IncludeKind::Chevrons
            } else {
                IncludeKind::Quotes
            };
            let pattern = if kind == IncludeKind::Chevrons {
                RE_CHEVRON@
            } else {
                RE_QUOTE@
            };
            match regex_group(pattern, path_node.text@, 1) {
                None => None,
                Some(raw) => {
                    let path = spec_include_path(raw);
                    Some(
                        (
                            node_lookup(db, file_id, kind, path),
                            kind,
                            directive_type(node.kind),
                            path,
                            NodePtr::spec_from(&path_node),
                            spec_include_ext(raw),
                        ),
                    )
                },
            }
        },
    }
}

proof fn lemma_include_path_idempotent(raw: Seq<char>)
    ensures
        spec_include_path(spec_include_path(raw)) == spec_include_path(raw),
        spec_include_ext(spec_include_path(raw)) == spec_include_ext(raw),
{
    reveal_strlit(".inc");
    reveal_strlit(".sp");
    let p = spec_include_path(raw);
    if !(crate::text::is_suffix(raw, ".sp"@) || crate::text::is_suffix(raw, ".inc"@)) {
        assert(p == raw + ".inc"@);
        assert(p.subrange(p.len() - 4, p.len() as int) =~= ".inc"@);
        assert(crate::text::is_suffix(p, ".inc"@));
        assert(p[p.len() - 1] == 'c');
        if crate::text::is_suffix(p, ".sp"@) {
            assert(p.subrange(p.len() - 3, p.len() as int)[2] == p[p.len() - 1]);
        }
    }
}

/// Resolves the include directive `node` of the file `file_id`: the file it
/// names (if any file answers), how its path is delimited, whether it is a
/// tryinclude, the path with its extension inferred, the path node and the
/// extension. `None` when the node has no path or the path is not delimited.
pub fn resolve_include_node<D: FileLoader>(db: &D, file_id: FileId, node: &SyntaxNode) -> (res: Option<
    (Option<FileId>, IncludeKind, IncludeType, String, NodePtr, FileExtension),
>)
    requires
        include_node_wf(node),
    ensures
        match (res, spec_resolve_include_node(db, file_id, node)) {
            (None, None) => true,
            (Some(r), Some(s)) => r.0 == s.0 && r.1 == s.1 && r.2 == s.2 && r.3@ == s.3 && r.4 == s.4
                && r.5 == s.5,
            _ => false,
        },
{
    let i = match node.child_by_field_name(FieldName::Path) {
        Some(i) => i,
        None => return None,
    };
    let path_node = &node.children[i].1;
    let type_ = if node.kind == NodeKind::PreprocInclude {
        IncludeType::Include
    } else {
        IncludeType::TryInclude
    };
    let ptr = NodePtr::from_node(path_node);
    let kind;
    let mut text;
    let ghost raw;
    if path_node.kind == NodeKind::SystemLibString {
        text = match regex_capture(RE_CHEVRON, path_node.text.as_str(), 1) {
            Some(t) => t,
            None => return None,
        };
        proof {
            raw = text@;
        }
        kind = IncludeKind::Chevrons;
    } else {
        let mut t = match regex_capture(RE_QUOTE, path_node.text.as_str(), 1) {
            Some(t) => t,
            None => return None,
        };
        proof {
            raw = t@;
        }
        let extension = infer_include_ext(&mut t);
        // Try to resolve the path relative to the including file.
        if let Some(f) = db.resolve_path(file_id, t.as_str()) {
            return Some((Some(f), IncludeKind::Quotes, type_, t, ptr, extension));
        }
        // Relative includes may also live in an `include` folder.
        let t_inc = with_include_dir(t.as_str());
        if let Some(f) = db.resolve_path(file_id, t_inc.as_str()) {
            return Some((Some(f), IncludeKind::Quotes, type_, t, ptr, extension));
        }
        text = t;
        kind = IncludeKind::Quotes;
        proof {
            lemma_include_path_idempotent(raw);
        }
    }
    let extension = infer_include_ext(&mut text);
    assert(text@ == spec_include_path(raw));
    assert(extension == spec_include_ext(raw));
    // Relative to the including file.
    if let Some(f) = db.resolve_path(file_id, text.as_str()) {
        return Some((Some(f), kind, type_, text, ptr, extension));
    }
    // In the `include` folder next to the including file, for chevrons.
    if kind == IncludeKind::Chevrons {
        let t_inc = with_include_dir(text.as_str());
        if let Some(f) = db.resolve_path(file_id, t_inc.as_str()) {
            return Some((Some(f), kind, type_, text, ptr, extension));
        }
    }
    // Relative to the roots.
    if let Some(f) = db.resolve_path_relative_to_roots(text.as_str()) {
        return Some((Some(f), kind, type_, text, ptr, extension));
    }
    // In the `include` folder of the roots, for chevrons.
    if kind == IncludeKind::Chevrons {
        let t_inc = with_include_dir(text.as_str());
        if let Some(f) = db.resolve_path_relative_to_roots(t_inc.as_str()) {
            return Some((Some(f), kind, type_, text, ptr, extension));
        }
    }
    Some((None, kind, type_, text, ptr, extension))
}

/// An include directive as the lexer reports it: the directive, the text
/// that follows it on its line, and where the directive starts.
pub struct IncludeDirective {
    pub type_: IncludeType,
    pub text: String,
    pub line: u32,
    pub character: u32,
}

/// An include whose file could not be found.
#[derive(Debug, PartialEq, Eq, Clone)]
pub struct UnresolvedInclude {
    pub file_id: FileId,
    pub range: Range,
    pub path: String,
}

impl View for UnresolvedInclude {
    type V = (FileId, Range, Seq<char>);

    open spec fn view(&self) -> (FileId, Range, Seq<char>) {
        (self.file_id, self.range, self.path@)
    }
}

/// The target of the directive text `text` of file `file_id`: how the path is
/// delimited, the path with its extension inferred, the extension, and the
/// file it names, if any. `None` when the text holds no delimited path.
pub open spec fn directive_target<D: FileLoader>(db: &D, file_id: FileId, text: Seq<char>) -> Option<
    (IncludeKind, Seq<char>, FileExtension, Option<FileId>),
> {
    match regex_group(RE_QUOTE@, text, 1) {
        Some(raw) => {
            let path = spec_include_path(raw);
            Some(
                (
                    IncludeKind::Quotes,
                    path,
                    spec_include_ext(raw),
                    first_some(
                        db.spec_resolve_path(file_id, path),
                        first_some(
                            db.spec_resolve_path(file_id, in_include_dir(path)),
                            db.spec_resolve_path_relative_to_roots(path),
                        ),
                    ),
                ),
            )
        },
        None => match regex_group(RE_CHEVRON@, text, 1) {
            Some(raw) => {
                let path = spec_include_path(raw);
                Some(
                    (
                        IncludeKind::Chevrons,
                        path,
                        spec_include_ext(raw),
                        db.spec_resolve_path_relative_to_roots(path),
                    ),
                )
            },
            None => None,
        },
    }
}

/// The include that directive `d` of file `file_id` resolves to, if any.
pub open spec fn directive_include<D: FileLoader>(db: &D, file_id: FileId, d: IncludeDirective) -> Option<
    (FileId, IncludeKind, IncludeType, FileExtension),
> {
    match directive_target(db, file_id, trim_spec(d.text@)) {
        Some((kind, _path, ext, Some(target))) => Some((target, kind, d.type_, ext)),
        _ => None,
    }
}

/// The range reported for an unresolved directive: from where the directive
/// starts to the byte length of its trimmed text, on the same line.
pub open spec fn directive_range(d: IncludeDirective) -> Range {
    Range {
        start: Position { line: d.line, character: d.character },
        end: Position { line: d.line, character: (encode_utf8(trim_spec(d.text@)).len() as usize) as u32 },
    }
}

/// The unresolved include that directive `d` of file `file_id` reports, if
/// any: only an `#include` (not a `#tryinclude`) whose path names no file.
pub open spec fn directive_unresolved<D: FileLoader>(db: &D, file_id: FileId, d: IncludeDirective) -> Option<
    (FileId, Range, Seq<char>),
> {
    match directive_target(db, file_id, trim_spec(d.text@)) {
        Some((_kind, path, _ext, None)) => if d.type_ == IncludeType::Include {
            Some((file_id, directive_range(d), path))
        } else {
            None
        },
        _ => None,
    }
}

/// The includes that the directives `ds` resolve to, in order.
pub open spec fn spec_includes<D: FileLoader>(db: &D, file_id: FileId, ds: Seq<IncludeDirective>) -> Seq<
    (FileId, IncludeKind, IncludeType, FileExtension),
>
    decreases ds.len(),
{
    if ds.len() == 0 {
        seq![]
    } else {
        let prev = spec_includes(db, file_id, ds.drop_last());
        match directive_include(db, file_id, ds.last()) {
            Some(inc) => prev.push(inc),
            None => prev,
        }
    }
}

/// The unresolved includes that the directives `ds` report, in order.
pub open spec fn spec_unresolved<D: FileLoader>(db: &D, file_id: FileId, ds: Seq<IncludeDirective>) -> Seq<
    (FileId, Range, Seq<char>),
>
    decreases ds.len(),
{
    if ds.len() == 0 {
        seq![]
    } else {
        let prev = spec_unresolved(db, file_id, ds.drop_last());
        match directive_unresolved(db, file_id, ds.last()) {
            Some(u) => prev.push(u),
            None => prev,
        }
    }
}

/// The include of `sourcemod.inc` that every file has when the roots hold it.
pub open spec fn default_includes<D: FileLoader>(db: &D) -> Seq<(FileId, IncludeKind, IncludeType, FileExtension)> {
    match db.spec_resolve_path_relative_to_roots("sourcemod.inc"@) {
        Some(f) => seq![(f, IncludeKind::Chevrons, IncludeType::TryInclude, FileExtension::Inc)],
        None => seq![],
    }
}

/// Resolves the trimmed directive text `text` of file `file_id`.
fn resolve_directive_text<D: FileLoader>(db: &D, file_id: FileId, text: &str) -> (res: Option<
    (IncludeKind, String, FileExtension, Option<FileId>),
>)
    ensures
        match (res, directive_target(db, file_id, text@)) {
            (None, None) => true,
            (Some(r), Some(s)) => r.0 == s.0 && r.1@ == s.1 && r.2 == s.2 && r.3 == s.3,
            _ => false,
        },
{
    if let Some(mut path) = regex_capture(RE_QUOTE, text, 1) {
        let ext = infer_include_ext(&mut path);
        if let Some(f) = db.resolve_path(file_id, path.as_str()) {
            return Some((IncludeKind::Quotes, path, ext, Some(f)));
        }
        // Relative includes may also live in an `include` folder.
        let path_inc = with_include_dir(path.as_str());
        if let Some(f) = db.resolve_path(file_id, path_inc.as_str()) {
            return Some((IncludeKind::Quotes, path, ext, Some(f)));
        }
        let target = db.resolve_path_relative_to_roots(path.as_str());
        return Some((IncludeKind::Quotes, path, ext, target));
    }
    if let Some(mut path) = regex_capture(RE_CHEVRON, text, 1) {
        let ext = infer_include_ext(&mut path);
        let target = db.resolve_path_relative_to_roots(path.as_str());
        return Some((IncludeKind::Chevrons, path, ext, target));
    }
    None
}

/// Returns all resolved and unresolved includes of the file `file_id`, given
/// the include directives that the lexer found in it. `sourcemod.inc` comes
/// first when the roots hold it.
///
/// # Note
/// Does not return includes that are in subincludes, i.e this function is not recursive.
pub fn file_includes_query<D: FileLoader>(db: &D, file_id: FileId, directives: &Vec<IncludeDirective>) -> (res: (
    Arc<Vec<Include>>,
    Arc<Vec<UnresolvedInclude>>,
))
    ensures
        res.0@.map_values(|i: Include| i@) == default_includes(db) + spec_includes(db, file_id, directives@),
        res.1@.map_values(|u: UnresolvedInclude| u@) == spec_unresolved(db, file_id, directives@),
{
    let mut res: Vec<Include> = Vec::new();
    let mut unresolved: Vec<UnresolvedInclude> = Vec::new();
    // Include sourcemod by default.
    if let Some(f) = db.resolve_path_relative_to_roots("sourcemod.inc") {
        res.push(Include::new(f, IncludeKind::Chevrons, IncludeType::TryInclude, FileExtension::Inc));
    }
    let ghost prefix = res@.map_values(|i: Include| i@);
    assert(prefix == default_includes(db));
    let mut i: usize = 0;
    while i < directives.len()
        invariant
            0 <= i <= directives.len(),
            prefix == default_includes(db),
            res@.map_values(|i: Include| i@) == prefix + spec_includes(db, file_id, directives@.take(i as int)),
            unresolved@.map_values(|u: UnresolvedInclude| u@) == spec_unresolved(db, file_id, directives@.take(i as int)),
        decreases directives.len() - i,
    {
        let d = &directives[i];
        let ghost taken = directives@.take(i + 1);
        assert(taken.drop_last() == directives@.take(i as int));
        assert(taken.last() == *d);
        let text = trim(d.text.as_str());
        match resolve_directive_text(db, file_id, text.as_str()) {
            Some((kind, _path, ext, Some(f))) => {
                let inc = Include::new(f, kind, d.type_, ext);
                assert(directive_include(db, file_id, *d) == Some(inc@));
                assert(spec_includes(db, file_id, taken) == spec_includes(db, file_id, directives@.take(i as int)).push(inc@));
                let ghost old_res = res@;
                res.push(inc);
                assert(res@.map_values(|i: Include| i@) =~= old_res.map_values(|i: Include| i@).push(inc@));
                assert(res@.map_values(|i: Include| i@) =~= prefix + spec_includes(db, file_id, taken));
            },
            Some((_kind, path, _ext, None)) => {
                if d.type_ == IncludeType::Include {
                    let end = #[verifier::truncate] (text.as_str().len() as u32);
                    let range = Range::new(Position::new(d.line, d.character), Position::new(d.line, end));
                    let u = UnresolvedInclude { file_id, range, path };
                    assert(directive_unresolved(db, file_id, *d) == Some(u@));
                    assert(spec_unresolved(db, file_id, taken) == spec_unresolved(db, file_id, directives@.take(i as int)).push(u@));
                    let ghost old_unresolved = unresolved@;
                    unresolved.push(u);
                    assert(unresolved@.map_values(|u: UnresolvedInclude| u@) =~= old_unresolved.map_values(|u: UnresolvedInclude| u@).push(u@));
                    assert(unresolved@.map_values(|u: UnresolvedInclude| u@) =~= spec_unresolved(db, file_id, taken));
                }
            },
            None => {},
        }
        i = i + 1;
    }
    assert(directives@.take(directives.len() as int) == directives@);
    (Arc::new(res), Arc::new(unresolved))
}

} // verus!
