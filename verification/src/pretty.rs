//! A textual rendering of an item tree: each item with the index of its
//! node, in a syntax close to the source, indented by nesting.
use vstd::prelude::*;
use crate::data::{FunctionKind, RawVisibilityId};
use crate::diagnostics::{decimal, push_decimal};
use crate::hir::{type_text, TypeRefView};
use crate::item_tree::{
    AstId, EnumStructItemId, FileItem, FunctionView, IdxRange, ItemTree, ItemTreeView, MethodmapItemId,
};
use crate::text::{join_spec, push_char, push_str, repeat_seq};

verus! {

/// The text written so far and the current indentation level.
pub struct PrintState {
    pub buf: Seq<char>,
    pub indent: nat,
}

pub open spec fn push(p: PrintState, s: Seq<char>) -> PrintState {
    PrintState { buf: p.buf + s, ..p }
}

/// A line break followed by two spaces per indentation level.
pub open spec fn newline(p: PrintState) -> PrintState {
    PrintState { buf: p.buf + seq!['\n'] + repeat_seq("  "@, p.indent), ..p }
}

pub open spec fn indent(p: PrintState) -> PrintState {
    PrintState { indent: p.indent + 1, ..p }
}

pub open spec fn dedent(p: PrintState) -> PrintState {
    PrintState { indent: (p.indent - 1) as nat, ..p }
}

/// The comment that names the node index `id`, then a line break.
pub open spec fn ast_line(p: PrintState, id: AstId) -> PrintState {
    newline(push(p, "// AstId("@ + decimal(id as nat) + ")"@))
}

/// The keywords of a visibility.
pub open spec fn visibility_text(v: RawVisibilityId) -> Seq<char> {
    join_spec(v.spec_words(), " "@)
}

/// The parameters in `range` that have a type: each on its own lines, with its node index.
pub open spec fn print_params(t: ItemTreeView, p: PrintState, start: int, end: int) -> PrintState
    decreases end - start,
{
    if start >= end {
        p
    } else {
        let q = print_params(t, p, start, end - 1);
        match t.params[end - 1].type_ref {
            Some(tr) => push(push(ast_line(newline(q), t.params[end - 1].ast_id), type_text(tr)), ","@),
            None => q,
        }
    }
}

/// A function: its visibility, kind and return type, its name and typed
/// parameters, and a body for a definition.
pub open spec fn print_function(t: ItemTreeView, p: PrintState, idx: int) -> PrintState {
    let f = t.functions[idx];
    let p1 = ast_line(p, f.ast_id);
    let p2 = if f.visibility.0 != RawVisibilityId::NONE {
        push(push(p1, visibility_text(f.visibility)), " "@)
    } else {
        p1
    };
    let p3 = match f.kind {
        FunctionKind::Forward => push(p2, "forward "@),
        FunctionKind::Native => push(p2, "native "@),
        FunctionKind::Def => p2,
    };
    let p4 = match f.ret_type {
        Some(rt) => push(push(p3, type_text(rt)), " "@),
        None => p3,
    };
    let p5 = print_params(t, indent(push(push(p4, f.name), "("@)), f.params.start as int, f.params.end as int);
    let p6 = if f.kind == FunctionKind::Def {
        push(newline(dedent(push(newline(push(p5, ") {"@)), "/* body */"@))), "}"@)
    } else {
        dedent(push(p5, ");"@))
    };
    newline(p6)
}

/// A global variable.
pub open spec fn print_variable(t: ItemTreeView, p: PrintState, idx: int) -> PrintState {
    let v = t.variables[idx];
    let p1 = ast_line(p, v.ast_id);
    let p2 = if v.visibility.0 != RawVisibilityId::NONE {
        push(push(p1, visibility_text(v.visibility)), " "@)
    } else {
        p1
    };
    let p3 = match v.type_ref {
        Some(tr) => push(push(p2, type_text(tr)), " "@),
        None => p2,
    };
    newline(push(p3, v.name))
}

/// A macro definition.
pub open spec fn print_macro(t: ItemTreeView, p: PrintState, idx: int) -> PrintState {
    newline(push(ast_line(p, t.macros[idx].ast_id), "#define "@ + t.macros[idx].name))
}

/// The variants of an enum in `start..end`.
pub open spec fn print_variants(t: ItemTreeView, p: PrintState, start: int, end: int) -> PrintState
    decreases end - start,
{
    if start >= end {
        p
    } else {
        let q = print_variants(t, p, start, end - 1);
        newline(push(ast_line(q, t.variants[end - 1].ast_id), t.variants[end - 1].name + ","@))
    }
}

/// An enum and its variants.
pub open spec fn print_enum(t: ItemTreeView, p: PrintState, idx: int) -> PrintState {
    let e = t.enums[idx];
    let p1 = newline(indent(push(ast_line(p, e.ast_id), "enum "@ + e.name + " {"@)));
    let p2 = print_variants(t, p1, e.variants.start as int, e.variants.end as int);
    newline(push(dedent(p2), "};"@))
}

/// The first `n` members of an enum struct.
pub open spec fn print_enum_struct_items(t: ItemTreeView, p: PrintState, items: Seq<EnumStructItemId>, n: nat) -> PrintState
    decreases n,
{
    if n == 0 || n > items.len() {
        p
    } else {
        let q = print_enum_struct_items(t, p, items, (n - 1) as nat);
        match items[n - 1] {
            EnumStructItemId::Field(f) => newline(
                push(ast_line(q, t.fields[f as int].ast_id), type_text(t.fields[f as int].type_ref) + " "@ + t.fields[f as int].name + ";"@),
            ),
            EnumStructItemId::Method(m) => print_function(t, q, m as int),
        }
    }
}

/// An enum struct and its members.
pub open spec fn print_enum_struct(t: ItemTreeView, p: PrintState, idx: int) -> PrintState {
    let e = t.enum_structs[idx];
    let p1 = newline(indent(push(ast_line(p, e.ast_id), "enum struct "@ + e.name + " {"@)));
    let p2 = print_enum_struct_items(t, p1, e.items, e.items.len());
    newline(push(newline(dedent(p2)), "}"@))
}

/// The functions in `start..end`.
pub open spec fn print_functions(t: ItemTreeView, p: PrintState, start: int, end: int) -> PrintState
    decreases end - start,
{
    if start >= end {
        p
    } else {
        print_function(t, print_functions(t, p, start, end - 1), end - 1)
    }
}

/// The first `n` members of a methodmap.
pub open spec fn print_methodmap_items(t: ItemTreeView, p: PrintState, items: Seq<MethodmapItemId>, n: nat) -> PrintState
    decreases n,
{
    if n == 0 || n > items.len() {
        p
    } else {
        let q = print_methodmap_items(t, p, items, (n - 1) as nat);
        match items[n - 1] {
            MethodmapItemId::Property(i) => {
                let pr = t.properties[i as int];
                let q1 = newline(indent(push(ast_line(q, pr.ast_id), "property "@ + type_text(pr.type_ref) + " "@ + pr.name + " {"@)));
                let q2 = print_functions(t, q1, pr.getters_setters.start as int, pr.getters_setters.end as int);
                newline(push(dedent(q2), "}"@))
            },
            MethodmapItemId::Method(m) => print_function(t, q, m as int),
        }
    }
}

/// A methodmap, what it inherits, and its members.
pub open spec fn print_methodmap(t: ItemTreeView, p: PrintState, idx: int) -> PrintState {
    let m = t.methodmaps[idx];
    let p1 = push(ast_line(p, m.ast_id), "methodmap "@ + m.name);
    let p2 = match m.inherits {
        Some(i) => push(p1, " < "@ + i),
        None => p1,
    };
    let p3 = newline(indent(push(p2, " {"@)));
    let p4 = print_methodmap_items(t, p3, m.items, m.items.len());
    newline(push(newline(dedent(p4)), "}"@))
}

/// A typedef: its name if it has one, its return type and typed parameters.
pub open spec fn print_typedef(t: ItemTreeView, p: PrintState, idx: int) -> PrintState {
    let d = t.typedefs[idx];
    let p1 = ast_line(p, d.ast_id);
    let p2 = match d.name {
        Some(n) => push(p1, "typedef "@ + n + " = "@),
        None => p1,
    };
    let p3 = indent(push(push(p2, "function "@ + type_text(d.type_ref)), "("@));
    newline(dedent(push(print_params(t, p3, d.params.start as int, d.params.end as int), ");"@)))
}

/// The typedefs in `start..end`.
pub open spec fn print_typedefs(t: ItemTreeView, p: PrintState, start: int, end: int) -> PrintState
    decreases end - start,
{
    if start >= end {
        p
    } else {
        print_typedef(t, print_typedefs(t, p, start, end - 1), end - 1)
    }
}

/// A typeset and its typedefs.
pub open spec fn print_typeset(t: ItemTreeView, p: PrintState, idx: int) -> PrintState {
    let s = t.typesets[idx];
    let p1 = indent(newline(push(ast_line(p, s.ast_id), "typeset "@ + s.name)));
    newline(push(dedent(print_typedefs(t, p1, s.typedefs.start as int, s.typedefs.end as int)), "};"@))
}

/// The text of an optional type: empty when there is none.
pub open spec fn opt_type_text(t: Option<TypeRefView>) -> Seq<char> {
    match t {
        Some(t) => type_text(t),
        None => seq![],
    }
}

/// A functag: public, with its return type, name and typed parameters.
pub open spec fn print_functag(t: ItemTreeView, p: PrintState, idx: int) -> PrintState {
    let f = t.functags[idx];
    let p1 = ast_line(p, f.ast_id);
    let p2 = match f.name {
        Some(n) => push(p1, "functag public "@ + opt_type_text(f.type_ref) + ":"@ + n),
        None => push(p1, opt_type_text(f.type_ref) + ":public"@),
    };
    let p3 = indent(push(p2, "("@));
    newline(dedent(push(print_params(t, p3, f.params.start as int, f.params.end as int), ");"@)))
}

/// The functags in `start..end`.
pub open spec fn print_functags(t: ItemTreeView, p: PrintState, start: int, end: int) -> PrintState
    decreases end - start,
{
    if start >= end {
        p
    } else {
        print_functag(t, print_functags(t, p, start, end - 1), end - 1)
    }
}

/// A funcenum and its functags.
pub open spec fn print_funcenum(t: ItemTreeView, p: PrintState, idx: int) -> PrintState {
    let f = t.funcenums[idx];
    let p1 = indent(newline(push(ast_line(p, f.ast_id), "funcenum "@ + f.name)));
    newline(push(dedent(print_functags(t, p1, f.functags.start as int, f.functags.end as int)), "};"@))
}

/// A top-level item; variants, properties and structs print nothing of their own.
pub open spec fn print_item(t: ItemTreeView, p: PrintState, item: FileItem) -> PrintState {
    match item {
        FileItem::Function(i) => print_function(t, p, i as int),
        FileItem::Variable(i) => print_variable(t, p, i as int),
        FileItem::EnumStruct(i) => print_enum_struct(t, p, i as int),
        FileItem::Enum(i) => print_enum(t, p, i as int),
        FileItem::Macro(i) => print_macro(t, p, i as int),
        FileItem::Methodmap(i) => print_methodmap(t, p, i as int),
        FileItem::Typedef(i) => print_typedef(t, p, i as int),
        FileItem::Typeset(i) => print_typeset(t, p, i as int),
        FileItem::Functag(i) => print_functag(t, p, i as int),
        FileItem::Funcenum(i) => print_funcenum(t, p, i as int),
        FileItem::Variant(_) | FileItem::Property(_) | FileItem::Struct(_) => p,
    }
}

/// The first `n` top-level items, each followed by a line break.
pub open spec fn print_items(t: ItemTreeView, p: PrintState, n: nat) -> PrintState
    decreases n,
{
    if n == 0 || n > t.top_level.len() {
        p
    } else {
        newline(print_item(t, print_items(t, p, (n - 1) as nat), t.top_level[n - 1]))
    }
}

/// The rendering of the item tree `t`.
pub open spec fn spec_print_item_tree(t: ItemTreeView) -> Seq<char> {
    print_items(t, PrintState { buf: seq![], indent: 0 }, t.top_level.len()).buf
}


/// Writes an item tree as text.
pub struct Printer<'a> {
    pub buf: String,
    pub indent_level: usize,
    pub tree: &'a ItemTree,
}

impl<'a> Printer<'a> {
    pub open spec fn st(&self) -> PrintState {
        PrintState { buf: self.buf@, indent: self.indent_level as nat }
    }

    /// The printer is ready to print an item of its tree.
    pub open spec fn ready(&self) -> bool {
        self.tree.wf()
    }

    pub fn new(tree: &'a ItemTree) -> (res: Self)
        ensures
            res.st() == (PrintState { buf: seq![], indent: 0 }),
            res.tree == tree,
    {
        Printer { buf: String::new(), indent_level: 0, tree }
    }

    fn indent(&mut self)
        requires
            old(self).indent_level < usize::MAX,
        ensures
            final(self).st() == indent(old(self).st()),
            final(self).tree == old(self).tree,
    {
        self.indent_level = self.indent_level + 1;
    }

    fn dedent(&mut self)
        requires
            old(self).indent_level > 0,
        ensures
            final(self).st() == dedent(old(self).st()),
            final(self).tree == old(self).tree,
    {
        self.indent_level = self.indent_level - 1;
    }

    fn newline(&mut self)
        ensures
            final(self).st() == newline(old(self).st()),
            final(self).tree == old(self).tree,
            final(self).indent_level == old(self).indent_level,
    {
        let ghost b0 = self.buf@;
        push_char(&mut self.buf, '\n');
        let mut i: usize = 0;
        while i < self.indent_level
            invariant
                0 <= i <= self.indent_level,
                self.indent_level == old(self).indent_level,
                self.tree == old(self).tree,
                self.buf@ == b0 + seq!['\n'] + repeat_seq("  "@, i as nat),
            decreases self.indent_level - i,
        {
            push_str(&mut self.buf, "  ");
            assert(self.buf@ =~= b0 + seq!['\n'] + repeat_seq("  "@, (i + 1) as nat));
            i = i + 1;
        }
    }

    fn push(&mut self, s: &str)
        ensures
            final(self).st() == push(old(self).st(), s@),
            final(self).tree == old(self).tree,
            final(self).indent_level == old(self).indent_level,
    {
        push_str(&mut self.buf, s);
    }

    /// The text written.
    pub fn into_string(self) -> (res: String)
        ensures
            res@ == self.st().buf,
    {
        self.buf
    }

    fn ast_line(&mut self, id: AstId)
        ensures
            final(self).st() == ast_line(old(self).st(), id),
            final(self).tree == old(self).tree,
            final(self).indent_level == old(self).indent_level,
    {
        let ghost s0 = self.st();
        self.push("// AstId(");
        push_decimal(&mut self.buf, id as usize);
        self.push(")");
        assert(self.buf@ =~= s0.buf + ("// AstId("@ + decimal(id as nat) + ")"@));
        assert(self.st() == push(s0, "// AstId("@ + decimal(id as nat) + ")"@));
        self.newline();
    }

    fn print_params(&mut self, range: IdxRange)
        requires
            old(self).tree.wf(),
            range.within(old(self).tree.params.len() as nat),
            old(self).indent_level < usize::MAX,
        ensures
            final(self).st() == print_params(old(self).tree@, old(self).st(), range.start as int, range.end as int),
            final(self).tree == old(self).tree,
            final(self).indent_level == old(self).indent_level,
    {
        let ghost s0 = self.st();
        let mut i: usize = range.start;
        while i < range.end
            invariant
                range.start <= i <= range.end,
                range.end <= self.tree.params.len(),
                self.st() == print_params(self.tree@, s0, range.start as int, i as int),
                self.tree == old(self).tree,
                self.indent_level == old(self).indent_level,
            decreases range.end - i,
        {
            let param = &self.tree.params[i];
            assert(self.tree@.params[i as int] == param@);
            if let Some(type_ref) = &param.type_ref {
                self.newline();
                self.ast_line(param.ast_id);
                let s = type_ref.to_str();
                self.push(s.as_str());
                self.push(",");
            }
            i = i + 1;
        }
    }

    pub fn print_function(&mut self, idx: usize)
        requires
            old(self).ready(),
            old(self).indent_level < usize::MAX - 6000,
            idx < old(self).tree.functions.len(),
        ensures
            final(self).st() == print_function(old(self).tree@, old(self).st(), idx as int),
            final(self).tree == old(self).tree,
            final(self).indent_level == old(self).indent_level,
    {
        let f = &self.tree.functions[idx];
        assert(self.tree@.functions[idx as int] == f@);
        self.ast_line(f.ast_id);
        if f.visibility.0 != RawVisibilityId::NONE {
            let v = f.visibility.to_string();
            self.push(v.as_str());
            self.push(" ");
        }
        match f.kind {
            FunctionKind::Forward => self.push("forward "),
            FunctionKind::Native => self.push("native "),
            FunctionKind::Def => {},
        }
        if let Some(ret_type) = &f.ret_type {
            let s = ret_type.to_str();
            self.push(s.as_str());
            self.push(" ");
        }
        self.push(f.name.0.as_str());
        self.push("(");
        self.indent();
        self.print_params(f.params);
        if f.kind == FunctionKind::Def {
            self.push(") {");
            self.newline();
            self.push("/* body */");
            self.dedent();
            self.newline();
            self.push("}");
        } else {
            self.push(");");
            self.dedent();
        }
        self.newline();
    }

    pub fn print_variable(&mut self, idx: usize)
        requires
            old(self).ready(),
            idx < old(self).tree.variables.len(),
        ensures
            final(self).st() == print_variable(old(self).tree@, old(self).st(), idx as int),
            final(self).tree == old(self).tree,
            final(self).indent_level == old(self).indent_level,
    {
        let v = &self.tree.variables[idx];
        assert(self.tree@.variables[idx as int] == v@);
        self.ast_line(v.ast_id);
        if v.visibility.0 != RawVisibilityId::NONE {
            let s = v.visibility.to_string();
            self.push(s.as_str());
            self.push(" ");
        }
        if let Some(type_ref) = &v.type_ref {
            let s = type_ref.to_str();
            self.push(s.as_str());
            self.push(" ");
        }
        self.push(v.name.0.as_str());
        self.newline();
    }

    pub fn print_macro(&mut self, idx: usize)
        requires
            old(self).ready(),
            idx < old(self).tree.macros.len(),
        ensures
            final(self).st() == print_macro(old(self).tree@, old(self).st(), idx as int),
            final(self).tree == old(self).tree,
            final(self).indent_level == old(self).indent_level,
    {
        let m = &self.tree.macros[idx];
        assert(self.tree@.macros[idx as int] == m@);
        self.ast_line(m.ast_id);
        let ghost s1 = self.st();
        self.push("#define ");
        self.push(m.name.0.as_str());
        assert(self.buf@ =~= s1.buf + ("#define "@ + m.name@));
        assert(self.st() == push(s1, "#define "@ + m.name@));
        self.newline();
    }

    pub fn print_enum(&mut self, idx: usize)
        requires
            old(self).ready(),
            old(self).indent_level < usize::MAX - 7000,
            idx < old(self).tree.enums.len(),
        ensures
            final(self).st() == print_enum(old(self).tree@, old(self).st(), idx as int),
            final(self).tree == old(self).tree,
            final(self).indent_level == old(self).indent_level,
    {
        let e = &self.tree.enums[idx];
        assert(self.tree@.enums[idx as int] == e@);
        self.ast_line(e.ast_id);
        let ghost s1 = self.st();
        self.push("enum ");
        self.push(e.name.0.as_str());
        self.push(" {");
        assert(self.buf@ =~= s1.buf + ("enum "@ + e.name@ + " {"@));
        assert(self.st() == push(s1, "enum "@ + e.name@ + " {"@));
        self.indent();
        self.newline();
        let ghost s2 = self.st();
        let mut i: usize = e.variants.start;
        while i < e.variants.end
            invariant
                e.variants.start <= i <= e.variants.end,
                e.variants.end <= self.tree.variants.len(),
                self.tree == old(self).tree,
                self.indent_level == s2.indent,
                self.st() == print_variants(self.tree@, s2, e.variants.start as int, i as int),
            decreases e.variants.end - i,
        {
            let v = &self.tree.variants[i];
            assert(self.tree@.variants[i as int] == v@);
            self.ast_line(v.ast_id);
            let ghost s3 = self.st();
            self.push(v.name.0.as_str());
            self.push(",");
            assert(self.buf@ =~= s3.buf + (v.name@ + ","@));
            assert(self.st() == push(s3, v.name@ + ","@));
            self.newline();
            i = i + 1;
        }
        self.dedent();
        self.push("};");
        self.newline();
    }

    pub fn print_enum_struct(&mut self, idx: usize)
        requires
            old(self).ready(),
            old(self).indent_level < usize::MAX - 7000,
            idx < old(self).tree.enum_structs.len(),
        ensures
            final(self).st() == print_enum_struct(old(self).tree@, old(self).st(), idx as int),
            final(self).tree == old(self).tree,
            final(self).indent_level == old(self).indent_level,
    {
        let e = &self.tree.enum_structs[idx];
        assert(self.tree@.enum_structs[idx as int] == e@);
        self.ast_line(e.ast_id);
        let ghost s1 = self.st();
        self.push("enum struct ");
        self.push(e.name.0.as_str());
        self.push(" {");
        assert(self.buf@ =~= s1.buf + ("enum struct "@ + e.name@ + " {"@));
        assert(self.st() == push(s1, "enum struct "@ + e.name@ + " {"@));
        self.indent();
        self.newline();
        let ghost s2 = self.st();
        let mut i: usize = 0;
        while i < e.items.len()
            invariant
                0 <= i <= e.items.len(),
                self.tree == old(self).tree,
                self.tree.wf(),
                idx < self.tree.enum_structs.len(),
                e == &self.tree.enum_structs[idx as int],
                self.indent_level == s2.indent,
                s2.indent < usize::MAX - 6999,
                self.st() == print_enum_struct_items(self.tree@, s2, e.items@, i as nat),
            decreases e.items.len() - i,
        {
            assert(0 <= idx < self.tree.enum_structs.len() && 0 <= i < self.tree.enum_structs@[idx as int].items.len());
            match e.items[i] {
                EnumStructItemId::Field(f) => {
                    let field = &self.tree.fields[f];
                    assert(self.tree@.fields[f as int] == field@);
                    self.ast_line(field.ast_id);
                    let ghost s3 = self.st();
                    let t = field.type_ref.to_str();
                    self.push(t.as_str());
                    self.push(" ");
                    self.push(field.name.0.as_str());
                    self.push(";");
                    assert(self.buf@ =~= s3.buf + (type_text(field.type_ref@) + " "@ + field.name@ + ";"@));
                    assert(self.st() == push(s3, type_text(field.type_ref@) + " "@ + field.name@ + ";"@));
                    self.newline();
                },
                EnumStructItemId::Method(m) => self.print_function(m),
            }
            i = i + 1;
        }
        assert(e.items@.len() == e.items.len());
        self.dedent();
        self.newline();
        self.push("}");
        self.newline();
    }

    fn print_functions(&mut self, range: IdxRange)
        requires
            old(self).ready(),
            old(self).indent_level < usize::MAX - 6000,
            range.within(old(self).tree.functions.len() as nat),
        ensures
            final(self).st() == print_functions(old(self).tree@, old(self).st(), range.start as int, range.end as int),
            final(self).tree == old(self).tree,
            final(self).indent_level == old(self).indent_level,
    {
        let ghost s0 = self.st();
        let mut i: usize = range.start;
        while i < range.end
            invariant
                range.start <= i <= range.end,
                range.end <= self.tree.functions.len(),
                self.tree == old(self).tree,
                self.ready(),
                self.indent_level == s0.indent,
                s0.indent < usize::MAX - 6000,
                self.st() == print_functions(self.tree@, s0, range.start as int, i as int),
            decreases range.end - i,
        {
            self.print_function(i);
            i = i + 1;
        }
    }

    pub fn print_methodmap(&mut self, idx: usize)
        requires
            old(self).ready(),
            old(self).indent_level < usize::MAX - 8000,
            idx < old(self).tree.methodmaps.len(),
        ensures
            final(self).st() == print_methodmap(old(self).tree@, old(self).st(), idx as int),
            final(self).tree == old(self).tree,
            final(self).indent_level == old(self).indent_level,
    {
        let m = &self.tree.methodmaps[idx];
        assert(self.tree@.methodmaps[idx as int] == m@);
        self.ast_line(m.ast_id);
        let ghost s1 = self.st();
        self.push("methodmap ");
        self.push(m.name.0.as_str());
        assert(self.buf@ =~= s1.buf + ("methodmap "@ + m.name@));
        assert(self.st() == push(s1, "methodmap "@ + m.name@));
        if let Some(inherits) = &m.inherits {
            let ghost s2 = self.st();
            self.push(" < ");
            self.push(inherits.0.as_str());
            assert(self.buf@ =~= s2.buf + (" < "@ + inherits@));
            assert(self.st() == push(s2, " < "@ + inherits@));
        }
        self.push(" {");
        self.indent();
        self.newline();
        let ghost s3 = self.st();
        let mut i: usize = 0;
        while i < m.items.len()
            invariant
                0 <= i <= m.items.len(),
                self.tree == old(self).tree,
                self.tree.wf(),
                idx < self.tree.methodmaps.len(),
                m == &self.tree.methodmaps[idx as int],
                self.indent_level == s3.indent,
                s3.indent < usize::MAX - 7999,
                self.st() == print_methodmap_items(self.tree@, s3, m.items@, i as nat),
            decreases m.items.len() - i,
        {
            assert(0 <= idx < self.tree.methodmaps.len() && 0 <= i < self.tree.methodmaps@[idx as int].items.len());
            match m.items[i] {
                MethodmapItemId::Property(p) => {
                    let pr = &self.tree.properties[p];
                    assert(self.tree@.properties[p as int] == pr@);
                    self.ast_line(pr.ast_id);
                    let ghost s4 = self.st();
                    let t = pr.type_ref.to_str();
                    self.push("property ");
                    self.push(t.as_str());
                    self.push(" ");
                    self.push(pr.name.0.as_str());
                    self.push(" {");
                    assert(self.buf@ =~= s4.buf + ("property "@ + type_text(pr.type_ref@) + " "@ + pr.name@ + " {"@));
                    assert(self.st() == push(s4, "property "@ + type_text(pr.type_ref@) + " "@ + pr.name@ + " {"@));
                    self.indent();
                    self.newline();
                    self.print_functions(pr.getters_setters);
                    self.dedent();
                    self.push("}");
                    self.newline();
                },
                MethodmapItemId::Method(f) => self.print_function(f),
            }
            i = i + 1;
        }
        self.dedent();
        self.newline();
        self.push("}");
        self.newline();
    }

    pub fn print_typedef(&mut self, idx: usize)
        requires
            old(self).ready(),
            old(self).indent_level < usize::MAX - 6000,
            idx < old(self).tree.typedefs.len(),
        ensures
            final(self).st() == print_typedef(old(self).tree@, old(self).st(), idx as int),
            final(self).tree == old(self).tree,
            final(self).indent_level == old(self).indent_level,
    {
        let d = &self.tree.typedefs[idx];
        assert(self.tree@.typedefs[idx as int] == d@);
        self.ast_line(d.ast_id);
        if let Some(name) = &d.name {
            let ghost s1 = self.st();
            self.push("typedef ");
            self.push(name.0.as_str());
            self.push(" = ");
            assert(self.buf@ =~= s1.buf + ("typedef "@ + name@ + " = "@));
            assert(self.st() == push(s1, "typedef "@ + name@ + " = "@));
        }
        let ghost s2 = self.st();
        let t = d.type_ref.to_str();
        self.push("function ");
        self.push(t.as_str());
        assert(self.buf@ =~= s2.buf + ("function "@ + type_text(d.type_ref@)));
        assert(self.st() == push(s2, "function "@ + type_text(d.type_ref@)));
        self.push("(");
        self.indent();
        self.print_params(d.params);
        self.push(");");
        self.dedent();
        self.newline();
    }

    pub fn print_typeset(&mut self, idx: usize)
        requires
            old(self).ready(),
            old(self).indent_level < usize::MAX - 7000,
            idx < old(self).tree.typesets.len(),
        ensures
            final(self).st() == print_typeset(old(self).tree@, old(self).st(), idx as int),
            final(self).tree == old(self).tree,
            final(self).indent_level == old(self).indent_level,
    {
        let s = &self.tree.typesets[idx];
        assert(self.tree@.typesets[idx as int] == s@);
        self.ast_line(s.ast_id);
        let ghost s1 = self.st();
        self.push("typeset ");
        self.push(s.name.0.as_str());
        assert(self.buf@ =~= s1.buf + ("typeset "@ + s.name@));
        assert(self.st() == push(s1, "typeset "@ + s.name@));
        self.newline();
        self.indent();
        let ghost s2 = self.st();
        let mut i: usize = s.typedefs.start;
        while i < s.typedefs.end
            invariant
                s.typedefs.start <= i <= s.typedefs.end,
                s.typedefs.end <= self.tree.typedefs.len(),
                self.tree == old(self).tree,
                self.ready(),
                self.indent_level == s2.indent,
                s2.indent < usize::MAX - 6999,
                self.st() == print_typedefs(self.tree@, s2, s.typedefs.start as int, i as int),
            decreases s.typedefs.end - i,
        {
            self.print_typedef(i);
            i = i + 1;
        }
        self.dedent();
        self.push("};");
        self.newline();
    }

    pub fn print_functag(&mut self, idx: usize)
        requires
            old(self).ready(),
            old(self).indent_level < usize::MAX - 6000,
            idx < old(self).tree.functags.len(),
        ensures
            final(self).st() == print_functag(old(self).tree@, old(self).st(), idx as int),
            final(self).tree == old(self).tree,
            final(self).indent_level == old(self).indent_level,
    {
        let f = &self.tree.functags[idx];
        assert(self.tree@.functags[idx as int] == f@);
        self.ast_line(f.ast_id);
        let t = match &f.type_ref {
            Some(t) => t.to_str(),
            None => String::new(),
        };
        assert(t@ == opt_type_text(f@.type_ref));
        let ghost s1 = self.st();
        match &f.name {
            Some(name) => {
                self.push("functag public ");
                self.push(t.as_str());
                self.push(":");
                self.push(name.0.as_str());
                assert(self.buf@ =~= s1.buf + ("functag public "@ + opt_type_text(f@.type_ref) + ":"@ + name@));
                assert(self.st() == push(s1, "functag public "@ + opt_type_text(f@.type_ref) + ":"@ + name@));
            },
            None => {
                self.push(t.as_str());
                self.push(":public");
                assert(self.buf@ =~= s1.buf + (opt_type_text(f@.type_ref) + ":public"@));
                assert(self.st() == push(s1, opt_type_text(f@.type_ref) + ":public"@));
            },
        }
        self.push("(");
        self.indent();
        self.print_params(f.params);
        self.push(");");
        self.dedent();
        self.newline();
    }

    pub fn print_funcenum(&mut self, idx: usize)
        requires
            old(self).ready(),
            old(self).indent_level < usize::MAX - 7000,
            idx < old(self).tree.funcenums.len(),
        ensures
            final(self).st() == print_funcenum(old(self).tree@, old(self).st(), idx as int),
            final(self).tree == old(self).tree,
            final(self).indent_level == old(self).indent_level,
    {
        let f = &self.tree.funcenums[idx];
        assert(self.tree@.funcenums[idx as int] == f@);
        self.ast_line(f.ast_id);
        let ghost s1 = self.st();
        self.push("funcenum ");
        self.push(f.name.0.as_str());
        assert(self.buf@ =~= s1.buf + ("funcenum "@ + f.name@));
        assert(self.st() == push(s1, "funcenum "@ + f.name@));
        self.newline();
        self.indent();
        let ghost s2 = self.st();
        let mut i: usize = f.functags.start;
        while i < f.functags.end
            invariant
                f.functags.start <= i <= f.functags.end,
                f.functags.end <= self.tree.functags.len(),
                self.tree == old(self).tree,
                self.ready(),
                self.indent_level == s2.indent,
                s2.indent < usize::MAX - 6999,
                self.st() == print_functags(self.tree@, s2, f.functags.start as int, i as int),
            decreases f.functags.end - i,
        {
            self.print_functag(i);
            i = i + 1;
        }
        self.dedent();
        self.push("};");
        self.newline();
    }
}

/// The rendering of the item tree `tree`.
pub fn print_item_tree(tree: &ItemTree) -> (res: String)
    requires
        tree.wf(),
    ensures
        res@ == spec_print_item_tree(tree@),
{
    let mut printer = Printer::new(tree);
    let ghost s0 = printer.st();
    let mut i: usize = 0;
    while i < tree.top_level.len()
        invariant
            0 <= i <= tree.top_level.len(),
            printer.tree == tree,
            tree.wf(),
            printer.indent_level == 0,
            printer.st() == print_items(tree@, s0, i as nat),
        decreases tree.top_level.len() - i,
    {
        assert(tree.has_item(tree.top_level@[i as int]));
        match tree.top_level[i] {
            FileItem::Function(idx) => printer.print_function(idx),
            FileItem::Variable(idx) => printer.print_variable(idx),
            FileItem::EnumStruct(idx) => printer.print_enum_struct(idx),
            FileItem::Enum(idx) => printer.print_enum(idx),
            FileItem::Macro(idx) => printer.print_macro(idx),
            FileItem::Methodmap(idx) => printer.print_methodmap(idx),
            FileItem::Typedef(idx) => printer.print_typedef(idx),
            FileItem::Typeset(idx) => printer.print_typeset(idx),
            FileItem::Functag(idx) => printer.print_functag(idx),
            FileItem::Funcenum(idx) => printer.print_funcenum(idx),
            FileItem::Variant(_) | FileItem::Property(_) | FileItem::Struct(_) => {},
        }
        printer.newline();
        i = i + 1;
    }
    printer.into_string()
}

} // verus!
