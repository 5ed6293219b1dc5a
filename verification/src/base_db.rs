//! Basic inputs of the analysis: file identifiers, file extensions and includes.
use vstd::prelude::*;
use crate::text::{is_suffix, str_ends_with};

verus! {

/// Identifier of a file known to the analysis.
#[derive(Clone, Copy, Debug, PartialEq, Eq, Structural, Hash, PartialOrd, Ord)]
pub struct FileId(pub u32);

/// Extension of a SourcePawn file.
#[derive(Clone, Copy, Debug, PartialEq, Eq, Structural, Hash, PartialOrd, Ord)]
pub enum FileExtension {
    Sp,
    Inc,
}

/// The path after `infer_include_ext`: unchanged when it already ends in `.sp`
/// or `.inc`, otherwise with `.inc` appended.
pub open spec fn spec_include_path(path: Seq<char>) -> Seq<char> {
    if is_suffix(path, ".sp"@) || is_suffix(path, ".inc"@) {
        path
    } else {
        path + ".inc"@
    }
}

/// The extension detected by `infer_include_ext`.
pub open spec fn spec_include_ext(path: Seq<char>) -> FileExtension {
    if is_suffix(path, ".sp"@) {
        FileExtension::Sp
    } else {
        FileExtension::Inc
    }
}

/// Mutate the include path to add `.inc` if necessary and return the detected file extension.
pub fn infer_include_ext(path: &mut String) -> (ext: FileExtension)
    ensures
        final(path)@ == spec_include_path(old(path)@),
        ext == spec_include_ext(old(path)@),
{
    if str_ends_with(path.as_str(), ".sp") {
        FileExtension::Sp
    } else if str_ends_with(path.as_str(), ".inc") {
        FileExtension::Inc
    } else {
        path.append(".inc");
        FileExtension::Inc
    }
}

/// The directive of an include.
#[derive(Debug, Clone, Copy, PartialEq, Eq, Structural, Hash, PartialOrd, Ord)]
pub enum IncludeType {
    /// #include <foo>
    Include,
    /// #tryinclude <foo>
    TryInclude,
}

/// How the path of an include is delimited.
#[derive(Debug, Clone, Copy, PartialEq, Eq, Structural, Hash, PartialOrd, Ord)]
pub enum IncludeKind {
    /// #include <foo>
    Chevrons,
    /// #include "foo"
    Quotes,
}

/// A resolved include of a file.
#[derive(Debug, Clone, Copy, PartialEq, Eq, Structural, Hash, PartialOrd, Ord)]
pub struct Include {
    id: FileId,
    kind: IncludeKind,
    type_: IncludeType,
    extension: FileExtension,
}

impl View for Include {
    type V = (FileId, IncludeKind, IncludeType, FileExtension);

    open spec fn view(&self) -> (FileId, IncludeKind, IncludeType, FileExtension) {
        (self.spec_file_id(), self.spec_kind(), self.spec_type(), self.spec_extension())
    }
}

impl Include {
    pub closed spec fn spec_file_id(&self) -> FileId {
        self.id
    }

    pub closed spec fn spec_kind(&self) -> IncludeKind {
        self.kind
    }

    pub closed spec fn spec_type(&self) -> IncludeType {
        self.type_
    }

    pub closed spec fn spec_extension(&self) -> FileExtension {
        self.extension
    }

    pub fn new(id: FileId, kind: IncludeKind, type_: IncludeType, extension: FileExtension) -> (res: Self)
        ensures
            res.spec_file_id() == id,
            res.spec_kind() == kind,
            res.spec_type() == type_,
            res.spec_extension() == extension,
    {
        Self { id, kind, type_, extension }
    }

    pub fn file_id(&self) -> (res: FileId)
        ensures
            res == self.spec_file_id(),
    {
        self.id
    }

    pub fn kind(&self) -> (res: IncludeKind)
        ensures
            res == self.spec_kind(),
    {
        self.kind
    }

    pub fn type_(&self) -> (res: IncludeType)
        ensures
            res == self.spec_type(),
    {
        self.type_
    }

    pub fn extension(&self) -> (res: FileExtension)
        ensures
            res == self.spec_extension(),
    {
        self.extension
    }
}

/// Identifier of a source root (a directory of files watched together).
#[derive(Debug, Clone, Copy, PartialEq, Eq, Structural, Hash, PartialOrd, Ord)]
pub struct SourceRootId(pub u32);

/// Converts the views of types that a database exposes to one another.
pub trait Upcast<T: ?Sized> {
    fn upcast(&self) -> &T;
}

/// Delegates file loading to a database.
pub struct FileLoaderDelegate<T>(pub T);

/// Access to the files of the workspace, as a database provides it.
///
/// Path resolution is a function of its arguments: the same anchor and path
/// always name the same file (or none) for a given loader.
pub trait FileLoader {
    /// The file that `path` names, read relative to the directory of `anchor`.
    spec fn spec_resolve_path(&self, anchor: FileId, path: Seq<char>) -> Option<FileId>;

    /// The file that `path` names relative to the first source root that has it.
    spec fn spec_resolve_path_relative_to_roots(&self, path: Seq<char>) -> Option<FileId>;

    /// Text of the file.
    fn file_text(&self, file_id: FileId) -> String;

    /// Known files.
    fn known_files(&self) -> Vec<(FileId, FileExtension)>;

    /// Resolve a path, relative to the directory of `anchor`, to a file.
    fn resolve_path(&self, anchor: FileId, path: &str) -> (res: Option<FileId>)
        ensures
            res == self.spec_resolve_path(anchor, path@),
    ;

    /// Resolve a path relative to the roots.
    fn resolve_path_relative_to_roots(&self, path: &str) -> (res: Option<FileId>)
        ensures
            res == self.spec_resolve_path_relative_to_roots(path@),
    ;
}

/// The first entry of `entries` whose key is `key`, if any.
pub open spec fn first_match<K, V>(entries: Seq<(K, V)>, key: K) -> Option<V>
    decreases entries.len(),
{
    if entries.len() == 0 {
        None
    } else if entries[0].0 == key {
        Some(entries[0].1)
    } else {
        first_match(entries.drop_first(), key)
    }
}

/// A file loader over explicit tables: the files with their text, the
/// anchored paths (anchor and path text) with the file each names, and the
/// paths that the source roots resolve.
pub struct FileTable {
    pub files: Vec<(FileId, FileExtension, String)>,
    pub anchored: Vec<((FileId, String), FileId)>,
    pub roots: Vec<(String, FileId)>,
}

/// The text of each file of a table, by file id.
pub open spec fn texts_view(files: Seq<(FileId, FileExtension, String)>) -> Seq<(FileId, Seq<char>)> {
    files.map_values(|e: (FileId, FileExtension, String)| (e.0, e.2@))
}

/// The keys of anchored entries as plain values.
pub open spec fn anchored_view(entries: Seq<((FileId, String), FileId)>) -> Seq<((FileId, Seq<char>), FileId)> {
    entries.map_values(|e: ((FileId, String), FileId)| ((e.0.0, e.0.1@), e.1))
}

/// The keys of root entries as plain values.
pub open spec fn roots_view(entries: Seq<(String, FileId)>) -> Seq<(Seq<char>, FileId)> {
    entries.map_values(|e: (String, FileId)| (e.0@, e.1))
}

/// Character-wise equality of two strings.
pub fn str_eq(a: &str, b: &str) -> (res: bool)
    ensures
        res == (a@ == b@),
{
    let n = a.unicode_len();
    if n != b.unicode_len() {
        return false;
    }
    let mut i: usize = 0;
    while i < n
        invariant
            n == a@.len() == b@.len(),
            0 <= i <= n,
            a@.take(i as int) == b@.take(i as int),
        decreases n - i,
    {
        if a.get_char(i) != b.get_char(i) {
            assert(a@[i as int] != b@[i as int]);
            return false;
        }
        assert(a@.take(i + 1) == a@.take(i as int).push(a@[i as int]));
        assert(b@.take(i + 1) == b@.take(i as int).push(b@[i as int]));
        i = i + 1;
    }
    assert(a@.take(n as int) == a@);
    assert(b@.take(n as int) == b@);
    true
}

impl FileLoader for FileTable {
    open spec fn spec_resolve_path(&self, anchor: FileId, path: Seq<char>) -> Option<FileId> {
        first_match(anchored_view(self.anchored@), (anchor, path))
    }

    open spec fn spec_resolve_path_relative_to_roots(&self, path: Seq<char>) -> Option<FileId> {
        first_match(roots_view(self.roots@), path)
    }

    fn file_text(&self, file_id: FileId) -> (res: String)
        ensures
            res@ == match first_match(texts_view(self.files@), file_id) {
                Some(t) => t,
                None => Seq::<char>::empty(),
            },
    {
        let ghost full = texts_view(self.files@);
        assert(full.skip(0) == full);
        let mut i: usize = 0;
        while i < self.files.len()
            invariant
                0 <= i <= self.files.len(),
                full == texts_view(self.files@),
                first_match(full, file_id) == first_match(full.skip(i as int), file_id),
            decreases self.files.len() - i,
        {
            let ghost rest = full.skip(i as int);
            assert(rest[0] == full[i as int]);
            assert(rest.drop_first() == full.skip(i + 1));
            if self.files[i].0 == file_id {
                return self.files[i].2.clone();
            }
            i = i + 1;
        }
        assert(full.skip(i as int).len() == 0);
        String::new()
    }

    fn known_files(&self) -> (res: Vec<(FileId, FileExtension)>)
        ensures
            res@ == self.files@.map_values(|e: (FileId, FileExtension, String)| (e.0, e.1)),
    {
        let mut res: Vec<(FileId, FileExtension)> = Vec::new();
        let mut i: usize = 0;
        while i < self.files.len()
            invariant
                0 <= i <= self.files.len(),
                res@ == self.files@.take(i as int).map_values(|e: (FileId, FileExtension, String)| (e.0, e.1)),
            decreases self.files.len() - i,
        {
            res.push((self.files[i].0, self.files[i].1));
            assert(self.files@.take(i + 1).map_values(|e: (FileId, FileExtension, String)| (e.0, e.1)) =~= self.files@.take(
                i as int,
            ).map_values(|e: (FileId, FileExtension, String)| (e.0, e.1)).push((self.files@[i as int].0, self.files@[i as int].1)));
            i = i + 1;
        }
        assert(self.files@.take(i as int) =~= self.files@);
        res
    }

    fn resolve_path(&self, anchor: FileId, path: &str) -> (res: Option<FileId>) {
        let ghost full = anchored_view(self.anchored@);
        assert(full.skip(0) == full);
        let mut i: usize = 0;
        while i < self.anchored.len()
            invariant
                0 <= i <= self.anchored.len(),
                full == anchored_view(self.anchored@),
                first_match(full, (anchor, path@)) == first_match(full.skip(i as int), (anchor, path@)),
            decreases self.anchored.len() - i,
        {
            let ghost rest = full.skip(i as int);
            assert(rest.drop_first() == full.skip(i + 1));
            if self.anchored[i].0.0 == anchor && str_eq(self.anchored[i].0.1.as_str(), path) {
                return Some(self.anchored[i].1);
            }
            i = i + 1;
        }
        None
    }

    fn resolve_path_relative_to_roots(&self, path: &str) -> (res: Option<FileId>) {
        let ghost full = roots_view(self.roots@);
        assert(full.skip(0) == full);
        let mut i: usize = 0;
        while i < self.roots.len()
            invariant
                0 <= i <= self.roots.len(),
                full == roots_view(self.roots@),
                first_match(full, path@) == first_match(full.skip(i as int), path@),
            decreases self.roots.len() - i,
        {
            let ghost rest = full.skip(i as int);
            assert(rest.drop_first() == full.skip(i + 1));
            if str_eq(self.roots[i].0.as_str(), path) {
                return Some(self.roots[i].1);
            }
            i = i + 1;
        }
        None
    }
}


/// Inferring the extension of an include path a second time changes nothing:
/// the path that `infer_include_ext` gives is kept as it is, with the same extension.
pub proof fn law_include_ext_idempotent(path: Seq<char>)
    ensures
        spec_include_path(spec_include_path(path)) == spec_include_path(path),
        spec_include_ext(spec_include_path(path)) == spec_include_ext(path),
{
    reveal_strlit(".sp");
    reveal_strlit(".inc");
    if !(is_suffix(path, ".sp"@) || is_suffix(path, ".inc"@)) {
        let q = path + ".inc"@;
        assert(q.subrange(q.len() - 4, q.len() as int) =~= ".inc"@);
        assert(q[q.len() - 1] == 'c');
        if is_suffix(q, ".sp"@) {
            assert(q.subrange(q.len() - 3, q.len() as int)[2] == 'p');
        }
    }
}

} // verus!
