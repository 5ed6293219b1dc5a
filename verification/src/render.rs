//! The text shown for a function or a macro: a function's signature as it
//! is declared, the snippet that completes a callback's definition, and a
//! macro's definition line.
use vstd::prelude::*;
use crate::data::{EnumStructData, FunctionData, FunctionKind, MethodmapData, MethodmapExtension, PropertyData, SpecialMethod};
use crate::hir::Name;
use crate::item_data::{FunctagData, GlobalData, TypedefData};
use crate::diagnostics::{decimal, push_decimal};
use crate::hir::type_text;
use crate::ids::{
    EnumId, EnumStructId, FuncenumId, FunctagId, FunctionId, GlobalId, MacroId, MethodmapId, PropertyId, TypedefId, TypesetId,
    VariantId,
};
use crate::syntax::{field_index_from, FieldName, NodeKind, SyntaxNode};
use crate::text::{
    is_suffix, is_whitespace, join_spec, str_ends_with, lemma_trailing_ws_bound, push_str, replace_spec, replace_str, to_chars, from_chars,
    trailing_ws, trim, trim_end_spec, trim_spec,
};

verus! {

/// The text of the first child of `node` that fills `field`, if any.
pub open spec fn field_text(node: SyntaxNode, field: FieldName) -> Option<Seq<char>> {
    match field_index_from(node.children@, field, 0) {
        Some(i) => Some(node.children@[i].1.text@),
        None => None,
    }
}

pub open spec fn opt_str_view(o: Option<&str>) -> Option<Seq<char>> {
    match o {
        Some(s) => Some(s@),
        None => None,
    }
}

/// The text of the first child of `node` that fills `field`.
fn child_text(node: &SyntaxNode, field: FieldName) -> (res: Option<&str>)
    ensures
        opt_str_view(res) == field_text(*node, field),
{
    match node.child_by_field_name(field) {
        Some(i) => Some(node.children[i].1.text.as_str()),
        None => None,
    }
}

/// `to` before each character of `s` and after the last, as `str::replace`
/// gives it for an empty pattern.
pub open spec fn interleave(s: Seq<char>, to: Seq<char>) -> Seq<char>
    decreases s.len(),
{
    if s.len() == 0 {
        to
    } else {
        to + seq![s[0]] + interleave(s.drop_first(), to)
    }
}

/// `s` with `from` replaced by `to`, as `str::replace` gives it.
pub open spec fn str_replace(s: Seq<char>, from: Seq<char>, to: Seq<char>) -> Seq<char> {
    if from.len() == 0 {
        interleave(s, to)
    } else {
        replace_spec(s, from, to)
    }
}

/// `s` with `from` replaced by `to`.
fn replace_any(s: &str, from: &str, to: &str) -> (res: String)
    ensures
        res@ == str_replace(s@, from@, to@),
{
    if from.unicode_len() > 0 {
        return replace_str(s, from, to);
    }
    let v = to_chars(s);
    let mut res = String::new();
    let mut i: usize = 0;
    assert(v@.skip(0) =~= v@);
    while i < v.len()
        invariant
            0 <= i <= v.len(),
            v@ == s@,
            res@ + interleave(v@.skip(i as int), to@) == interleave(s@, to@),
        decreases v.len() - i,
    {
        let ghost before = res@;
        let ghost rest = v@.skip(i as int);
        assert(rest[0] == v@[i as int]);
        assert(rest.drop_first() =~= v@.skip(i + 1));
        push_str(&mut res, to);
        crate::text::push_char(&mut res, v[i]);
        assert(res@ + interleave(v@.skip(i + 1), to@) =~= before + interleave(rest, to@));
        i = i + 1;
    }
    assert(v@.skip(i as int).len() == 0);
    push_str(&mut res, to);
    res
}

/// `s` without trailing whitespace.
fn trim_end_string(s: &str) -> (res: String)
    ensures
        res@ == trim_end_spec(s@),
{
    let v = to_chars(s);
    let mut end: usize = v.len();
    proof {
        lemma_trailing_ws_bound(v@);
        assert(v@.take(end as int) =~= v@);
    }
    while end > 0 && is_whitespace(v[end - 1])
        invariant
            0 <= end <= v.len(),
            v@ == s@,
            trailing_ws(v@) == (v.len() - end) + trailing_ws(v@.take(end as int)),
        decreases end,
    {
        proof {
            let u = v@.take(end as int);
            assert(u.last() == v@[end - 1]);
            assert(u.drop_last() =~= v@.take(end - 1));
        }
        end = end - 1;
    }
    proof {
        let u = v@.take(end as int);
        if end > 0 {
            assert(u.last() == v@[end - 1]);
        }
        assert(trailing_ws(u) == 0);
        assert(v@.subrange(0, end as int) =~= v@.take(end as int));
    }
    from_chars(&v, 0, end)
}

/// `s` without its last character, as `String::pop` leaves it.
pub open spec fn pop_spec(s: Seq<char>) -> Seq<char> {
    if s.len() > 0 {
        s.drop_last()
    } else {
        s
    }
}

// ---------------------------------------------------------------------------
// Macros
// ---------------------------------------------------------------------------

/// The definition line of the macro declared by `node`, as
/// `#define NAME(PARAMS) VALUE`, each part without surrounding whitespace;
/// `None` when the node lacks a part.
pub open spec fn spec_macro_render(node: SyntaxNode) -> Option<Seq<char>> {
    match field_text(node, FieldName::Name) {
        None => None,
        Some(name) => {
            let head = "#define "@ + trim_spec(name);
            let with_params = if node.kind == NodeKind::PreprocMacro {
                match field_text(node, FieldName::Parameters) {
                    Some(p) => Some(head + trim_spec(p)),
                    None => None,
                }
            } else {
                Some(head)
            };
            match (with_params, field_text(node, FieldName::Value)) {
                (Some(h), Some(v)) => Some(trim_spec(h + " "@ + trim_spec(v))),
                _ => None,
            }
        },
    }
}

/// A macro of the analysis.
#[derive(Debug, Clone, Copy, PartialEq, Eq, Structural, Hash)]
pub struct Macro {
    pub id: MacroId,
}

impl Macro {
    /// The definition line of the macro, read from `node`, its source node.
    pub fn render(self, node: &SyntaxNode) -> (res: Option<String>)
        ensures
            match res {
                Some(s) => spec_macro_render(*node) == Some(s@),
                None => spec_macro_render(*node) is None,
            },
    {
        let name = child_text(node, FieldName::Name)?;
        let mut buf = "#define ".to_owned();
        let tn = trim(name);
        push_str(&mut buf, tn.as_str());
        if node.kind == NodeKind::PreprocMacro {
            let params = child_text(node, FieldName::Parameters)?;
            let tp = trim(params);
            push_str(&mut buf, tp.as_str());
        }
        let value = child_text(node, FieldName::Value)?;
        push_str(&mut buf, " ");
        let tv = trim(value);
        push_str(&mut buf, tv.as_str());
        Some(trim(buf.as_str()))
    }
}

// ---------------------------------------------------------------------------
// Function snippets
// ---------------------------------------------------------------------------

/// Whether a node of kind `k` declares a parameter.
pub open spec fn is_param_kind(k: NodeKind) -> bool {
    k == NodeKind::ParameterDeclaration || k == NodeKind::RestParameter
}

/// The placeholder of a snippet for the parameter `name`, numbered `n`.
pub open spec fn placeholder(n: nat, name: Seq<char>) -> Seq<char> {
    "${"@ + decimal(n) + ":"@ + name + "}"@
}

/// The parameters among `children`, each written with its name turned into a
/// placeholder and followed by a comma; the first parameter has index `i`,
/// and the placeholders are numbered from two.
pub open spec fn param_pieces(children: Seq<(Option<FieldName>, SyntaxNode)>, i: nat) -> Seq<char>
    decreases children.len(),
{
    if children.len() == 0 {
        seq![]
    } else if is_param_kind(children[0].1.kind) {
        let p = children[0].1;
        (match field_text(p, FieldName::Name) {
            Some(n) => str_replace(p.text@, n, placeholder(i + 2, n)) + ", "@,
            None => seq![],
        }) + param_pieces(children.drop_first(), i + 1)
    } else {
        param_pieces(children.drop_first(), i)
    }
}

/// Whether one of `children` declares a parameter.
pub open spec fn has_param(children: Seq<(Option<FieldName>, SyntaxNode)>) -> bool {
    exists|k: int| 0 <= k < children.len() && is_param_kind(#[trigger] children[k].1.kind)
}

/// The snippet that defines a function of the type that `node` declares:
/// `public TYPE NAME(PARAMS)` and an empty body; `None` when the node has no
/// return type, name or parameter list.
pub open spec fn spec_snippet(node: SyntaxNode) -> Option<Seq<char>> {
    match (field_text(node, FieldName::ReturnType), field_text(node, FieldName::Name), field_index_from(node.children@, FieldName::Parameters, 0)) {
        (Some(t), Some(n), Some(pi)) => Some(snippet_body("public "@ + t + " "@ + n + "("@, node.children@[pi].1.children@)),
        _ => None,
    }
}

/// A snippet that starts with `head` and lists the parameters among
/// `params`: without the comma after the last one, then an empty body.
pub open spec fn snippet_body(head: Seq<char>, params: Seq<(Option<FieldName>, SyntaxNode)>) -> Seq<char> {
    let buf = head + param_pieces(params, 0);
    let buf = if has_param(params) { pop_spec(trim_end_spec(buf)) } else { buf };
    buf + ")\n{\n\t$0\n}"@
}

/// The snippet that starts with `head` and lists the parameters among `params`.
fn finish_snippet(head: String, params: &Vec<(Option<FieldName>, SyntaxNode)>) -> (res: String)
    requires
        params.len() < usize::MAX - 2,
    ensures
        res@ == snippet_body(head@, params@),
{
    let mut buf = head;
    let at_least_one_param = push_param_pieces(params, &mut buf);
    if at_least_one_param {
        let t = trim_end_string(buf.as_str());
        let v = to_chars(t.as_str());
        buf = if v.len() > 0 {
            from_chars(&v, 0, v.len() - 1)
        } else {
            t
        };
        assert(v.len() > 0 ==> v@.subrange(0, v.len() - 1) =~= v@.drop_last());
    }
    push_str(&mut buf, ")\n{\n\t$0\n}");
    buf
}

/// Appends the parameters among `children`, numbered from zero; tells
/// whether there is one.
fn push_param_pieces(children: &Vec<(Option<FieldName>, SyntaxNode)>, buf: &mut String) -> (met: bool)
    requires
        children.len() < usize::MAX - 2,
    ensures
        final(buf)@ == old(buf)@ + param_pieces(children@, 0),
        met == has_param(children@),
{
    let mut k: usize = 0;
    let mut i: usize = 0;
    let mut met = false;
    assert(children@.skip(0) =~= children@);
    while k < children.len()
        invariant
            0 <= i <= k <= children.len() < usize::MAX - 2,
            buf@ + param_pieces(children@.skip(k as int), i as nat) == old(buf)@ + param_pieces(children@, 0),
            met <==> exists|j: int| 0 <= j < k && is_param_kind(#[trigger] children@[j].1.kind),
        decreases children.len() - k,
    {
        let ghost rest = children@.skip(k as int);
        assert(rest[0] == children@[k as int]);
        assert(rest.drop_first() =~= children@.skip(k + 1));
        let ghost before = buf@;
        let child = &children[k].1;
        if child.kind == NodeKind::ParameterDeclaration || child.kind == NodeKind::RestParameter {
            met = true;
            match child_text(child, FieldName::Name) {
                Some(name) => {
                    let mut ph = "${".to_owned();
                    push_decimal(&mut ph, i + 2);
                    push_str(&mut ph, ":");
                    push_str(&mut ph, name);
                    push_str(&mut ph, "}");
                    let cur = replace_any(child.text.as_str(), name, ph.as_str());
                    push_str(buf, cur.as_str());
                    push_str(buf, ", ");
                    assert(buf@ + param_pieces(children@.skip(k + 1), (i + 1) as nat) =~= before + param_pieces(rest, i as nat));
                },
                None => {
                    assert(before + param_pieces(children@.skip(k + 1), (i + 1) as nat) =~= before + param_pieces(rest, i as nat));
                },
            }
            i = i + 1;
        }
        k = k + 1;
    }
    assert(children@.skip(k as int).len() == 0);
    assert(buf@ + seq![] =~= buf@);
    met
}

/// A function of the analysis.
#[derive(Debug, Clone, Copy, PartialEq, Eq, Structural, Hash)]
pub struct Function {
    pub id: FunctionId,
}

/// The signature of the function with data `data` declared by `node`, as
/// its source writes it: visibility, kind, return type, `~` for a
/// destructor, name and parameter list, after the name of its parent when
/// `parent` has one.
pub open spec fn spec_function_render(data: FunctionData, node: SyntaxNode, parent: Option<SyntaxNode>) -> Seq<char> {
    let b = signature_head(data) + match field_text(node, FieldName::Parameters) {
        Some(p) => p,
        None => seq![],
    };
    match parent {
        Some(par) => match field_text(par, FieldName::Name) {
            Some(pn) => pn + "\n"@ + b,
            None => b,
        },
        None => b,
    }
}

/// The visibility keywords, followed by a space when there are any.
pub open spec fn visibility_prefix(data: FunctionData) -> Seq<char> {
    let vis = join_spec(data.visibility.spec_words(), " "@);
    if vis.len() > 0 { vis + " "@ } else { vis }
}

/// The keyword of a function's kind, followed by a space.
pub open spec fn kind_prefix(kind: FunctionKind) -> Seq<char> {
    match kind {
        FunctionKind::Def => seq![],
        FunctionKind::Forward => "forward "@,
        FunctionKind::Native => "native "@,
    }
}

/// The return type, followed by a space.
pub open spec fn type_prefix(data: FunctionData) -> Seq<char> {
    match data.type_ref {
        Some(t) => type_text(t@) + " "@,
        None => seq![],
    }
}

/// `~` for a destructor.
pub open spec fn destructor_prefix(data: FunctionData) -> Seq<char> {
    if data.special == Some(SpecialMethod::Destructor) { "~"@ } else { seq![] }
}

/// The signature up to the name.
pub open spec fn signature_head(data: FunctionData) -> Seq<char> {
    visibility_prefix(data) + kind_prefix(data.kind) + type_prefix(data) + destructor_prefix(data) + data.name@
}

impl Function {
    /// The signature of the function, from its data, `node`, its source
    /// node, and `parent`, the parent of that node in the tree.
    pub fn render(self, data: &FunctionData, node: &SyntaxNode, parent: Option<&SyntaxNode>) -> (res: Option<String>)
        ensures
            res matches Some(s) && s@ == spec_function_render(*data, *node, match parent {
                Some(p) => Some(*p),
                None => None,
            }),
    {
        let mut buf = data.visibility.to_string();
        if buf.unicode_len() > 0 {
            push_str(&mut buf, " ");
        }
        assert(buf@ == visibility_prefix(*data));
        let ghost b1 = buf@;
        match data.kind {
            FunctionKind::Def => {},
            FunctionKind::Forward => push_str(&mut buf, "forward "),
            FunctionKind::Native => push_str(&mut buf, "native "),
        }
        assert(buf@ =~= b1 + kind_prefix(data.kind));
        let ghost b2 = buf@;
        match &data.type_ref {
            Some(t) => {
                let ts = t.to_str();
                push_str(&mut buf, ts.as_str());
                push_str(&mut buf, " ");
            },
            None => {},
        }
        assert(buf@ =~= b2 + type_prefix(*data));
        let ghost b3 = buf@;
        match data.special {
            Some(SpecialMethod::Destructor) => push_str(&mut buf, "~"),
            _ => {},
        }
        assert(buf@ =~= b3 + destructor_prefix(*data));
        push_str(&mut buf, data.name.as_str());
        assert(buf@ =~= signature_head(*data));
        let ghost head = buf@;
        match child_text(node, FieldName::Parameters) {
            Some(params) => push_str(&mut buf, params),
            None => {},
        }
        let ghost b = buf@;
        assert(b =~= head + match field_text(*node, FieldName::Parameters) {
            Some(p) => p,
            None => seq![],
        });
        match parent {
            None => Some(buf),
            Some(par) => match child_text(par, FieldName::Name) {
                Some(parent_name) => {
                    let mut s = parent_name.to_owned();
                    push_str(&mut s, "\n");
                    push_str(&mut s, buf.as_str());
                    Some(s)
                },
                None => Some(buf),
            },
        }
    }

    /// The snippet that defines a function of the type that `node`, the
    /// source node of this function, declares.
    pub fn as_snippet(self, node: &SyntaxNode) -> (res: Option<String>)
        requires
            forall|k: int| 0 <= k < node.children.len() ==> (#[trigger] node.children@[k]).1.children.len() < usize::MAX - 2,
        ensures
            match res {
                Some(s) => spec_snippet(*node) == Some(s@),
                None => spec_snippet(*node) is None,
            },
    {
        let type_ = child_text(node, FieldName::ReturnType)?;
        let name = child_text(node, FieldName::Name)?;
        let pi = node.child_by_field_name(FieldName::Parameters)?;
        let params = &node.children[pi].1;
        let mut buf = "public ".to_owned();
        push_str(&mut buf, type_);
        push_str(&mut buf, " ");
        push_str(&mut buf, name);
        push_str(&mut buf, "(");
        Some(finish_snippet(buf, &params.children))
    }
}

// ---------------------------------------------------------------------------
// The other definitions
// ---------------------------------------------------------------------------

/// The header of a methodmap: its name, and what it inherits or that it is
/// nullable.
pub open spec fn spec_methodmap_render(data: MethodmapData) -> Seq<char> {
    "methodmap "@ + data.name@ + match data.extension {
        Some(MethodmapExtension::Inherits(n)) => " < "@ + n@,
        Some(MethodmapExtension::Nullable) => " __nullable__"@,
        None => seq![],
    }
}

/// A methodmap of the analysis.
#[derive(Debug, Clone, Copy, PartialEq, Eq, Structural, Hash)]
pub struct Methodmap {
    pub id: MethodmapId,
}

impl Methodmap {
    /// The header of the methodmap, whose data is `data`.
    pub fn render(self, data: &MethodmapData) -> (res: Option<String>)
        ensures
            res matches Some(s) && s@ == spec_methodmap_render(*data),
    {
        let mut buf = "methodmap ".to_owned();
        push_str(&mut buf, data.name.as_str());
        match &data.extension {
            Some(MethodmapExtension::Inherits(inherits)) => {
                push_str(&mut buf, " < ");
                push_str(&mut buf, inherits.as_str());
            },
            Some(MethodmapExtension::Nullable) => push_str(&mut buf, " __nullable__"),
            None => {},
        }
        Some(buf)
    }
}

/// A property of a methodmap.
#[derive(Debug, Clone, Copy, PartialEq, Eq, Structural, Hash)]
pub struct Property {
    pub id: PropertyId,
}

impl Property {
    /// The declaration of the property, whose data is `data`, in the
    /// methodmap named `parent_name`.
    pub fn render(self, parent_name: &Name, data: &PropertyData) -> (res: Option<String>)
        ensures
            res matches Some(s) && s@ == parent_name@ + "::property "@ + type_text(data.type_ref@) + " "@ + data.name@,
    {
        let mut buf = parent_name.to_string();
        push_str(&mut buf, "::property ");
        let t = data.type_ref.to_str();
        push_str(&mut buf, t.as_str());
        push_str(&mut buf, " ");
        push_str(&mut buf, data.name.as_str());
        Some(buf)
    }
}

/// `prefix` followed by `name`.
fn prefixed_name(prefix: &str, name: &Name) -> (res: Option<String>)
    ensures
        res matches Some(s) && s@ == prefix@ + name@,
{
    let mut buf = prefix.to_owned();
    push_str(&mut buf, name.as_str());
    Some(buf)
}

/// An enum.
#[derive(Debug, Clone, Copy, PartialEq, Eq, Structural, Hash)]
pub struct Enum {
    pub id: EnumId,
}

impl Enum {
    /// `enum NAME`, for the enum named `name`.
    pub fn render(self, name: &Name) -> (res: Option<String>)
        ensures
            res matches Some(s) && s@ == "enum "@ + name@,
    {
        prefixed_name("enum ", name)
    }
}

/// A typeset.
#[derive(Debug, Clone, Copy, PartialEq, Eq, Structural, Hash)]
pub struct Typeset {
    pub id: TypesetId,
}

impl Typeset {
    /// `typeset NAME`, for the typeset named `name`.
    pub fn render(self, name: &Name) -> (res: Option<String>)
        ensures
            res matches Some(s) && s@ == "typeset "@ + name@,
    {
        prefixed_name("typeset ", name)
    }
}

/// A funcenum.
#[derive(Debug, Clone, Copy, PartialEq, Eq, Structural, Hash)]
pub struct Funcenum {
    pub id: FuncenumId,
}

impl Funcenum {
    /// `funcenum NAME`, for the funcenum named `name`.
    pub fn render(self, name: &Name) -> (res: Option<String>)
        ensures
            res matches Some(s) && s@ == "funcenum "@ + name@,
    {
        prefixed_name("funcenum ", name)
    }
}

/// A variant of an enum.
#[derive(Debug, Clone, Copy, PartialEq, Eq, Structural, Hash)]
pub struct Variant {
    pub id: VariantId,
}

impl Variant {
    /// The variant named `name` of the enum named `parent_name`: the name
    /// alone when the enum has no name, `ENUM::NAME` otherwise.
    pub fn render(self, parent_name: &Name, name: &Name) -> (res: Option<String>)
        ensures
            res matches Some(s) && s@ == if parent_name@.len() == 0 {
                name@
            } else {
                parent_name@ + "::"@ + name@
            },
    {
        if parent_name.as_str().unicode_len() == 0 {
            Some(name.to_string())
        } else {
            let mut buf = parent_name.to_string();
            push_str(&mut buf, "::");
            push_str(&mut buf, name.as_str());
            Some(buf)
        }
    }
}

/// The declaration of a global variable: visibility, type (followed by a
/// space unless the text so far ends with a colon), name and a semicolon.
pub open spec fn spec_global_render(data: GlobalData) -> Seq<char> {
    let vis = join_spec(data.visibility.spec_words(), " "@);
    let b = if vis.len() > 0 { vis + " "@ } else { vis };
    let b = match data.type_ref {
        Some(t) => {
            let bt = b + type_text(t@);
            if bt.len() > 0 && bt.last() == ':' { bt } else { bt + " "@ }
        },
        None => b,
    };
    b + data.name@ + ";"@
}

/// A global variable.
#[derive(Debug, Clone, Copy, PartialEq, Eq, Structural, Hash)]
pub struct Global {
    pub id: GlobalId,
}

impl Global {
    /// The declaration of the global variable whose data is `data`.
    pub fn render(self, data: &GlobalData) -> (res: Option<String>)
        ensures
            res matches Some(s) && s@ == spec_global_render(*data),
    {
        let mut buf = data.visibility.to_string();
        if buf.unicode_len() > 0 {
            push_str(&mut buf, " ");
        }
        let ghost b = buf@;
        match &data.type_ref {
            Some(t) => {
                let ts = t.to_str();
                push_str(&mut buf, ts.as_str());
                if !str_ends_with(buf.as_str(), ":") {
                    push_str(&mut buf, " ");
                }
                proof {
                    reveal_strlit(":");
                    let bt = b + type_text(t@);
                    assert(":"@ =~= seq![':']);
                    if bt.len() > 0 {
                        let last = bt.subrange(bt.len() - 1, bt.len() as int);
                        assert(last =~= seq![bt.last()]);
                        if bt.last() == ':' {
                            assert(last =~= ":"@);
                        } else {
                            assert(last[0] != ":"@[0]);
                        }
                    }
                }
            },
            None => {},
        }
        push_str(&mut buf, data.name.as_str());
        push_str(&mut buf, ";");
        Some(buf)
    }
}

/// A field of an enum struct.
#[derive(Debug, Clone, Copy, PartialEq, Eq, Structural, Hash)]
pub struct Field {
    pub parent: EnumStructId,
    pub id: usize,
}

impl Field {
    /// The declaration `TYPE PARENT::NAME;` of the field, a member of the
    /// enum struct whose data is `parent_data`.
    pub fn render(self, parent_data: &EnumStructData) -> (res: Option<String>)
        requires
            self.id < parent_data.items.len(),
            parent_data.items@[self.id as int] is Field,
        ensures
            ({
                let f = parent_data.items@[self.id as int]->Field_0;
                res matches Some(s) && s@ == type_text(f.type_ref@) + " "@ + parent_data.name@ + "::"@ + f.name@ + ";"@
            }),
    {
        let f = parent_data.field(self.id).unwrap();
        let mut buf = f.type_ref.to_str();
        push_str(&mut buf, " ");
        push_str(&mut buf, parent_data.name.as_str());
        push_str(&mut buf, "::");
        push_str(&mut buf, f.name.as_str());
        push_str(&mut buf, ";");
        Some(buf)
    }
}

/// The typedef expression of `node`: the node itself when it is one,
/// otherwise its first child that is one.
pub open spec fn typedef_expr(node: SyntaxNode) -> Option<SyntaxNode> {
    if node.kind == NodeKind::TypedefExpression {
        Some(node)
    } else {
        match kind_index_from(node.children@, NodeKind::TypedefExpression, 0) {
            Some(i) => Some(node.children@[i].1),
            None => None,
        }
    }
}

/// Index of the first child, from `start` on, of kind `kind`.
pub open spec fn kind_index_from(children: Seq<(Option<FieldName>, SyntaxNode)>, kind: NodeKind, start: int) -> Option<int>
    decreases children.len() - start,
{
    if start < 0 || start >= children.len() {
        None
    } else if children[start].1.kind == kind {
        Some(start)
    } else {
        kind_index_from(children, kind, start + 1)
    }
}

/// The typedef expression of `node`.
fn find_typedef_expr(node: &SyntaxNode) -> (res: Option<&SyntaxNode>)
    ensures
        match res {
            Some(n) => typedef_expr(*node) == Some(*n),
            None => typedef_expr(*node) is None,
        },
        res matches Some(n) ==> *n == *node || exists|i: int| 0 <= i < node.children.len() && *n == (#[trigger] node.children@[i]).1,
{
    if node.kind == NodeKind::TypedefExpression {
        return Some(node);
    }
    let mut i: usize = 0;
    while i < node.children.len()
        invariant
            0 <= i <= node.children.len(),
            node.kind != NodeKind::TypedefExpression,
            kind_index_from(node.children@, NodeKind::TypedefExpression, 0)
                == kind_index_from(node.children@, NodeKind::TypedefExpression, i as int),
        decreases node.children.len() - i,
    {
        if node.children[i].1.kind == NodeKind::TypedefExpression {
            return Some(&node.children[i].1);
        }
        i = i + 1;
    }
    None
}

/// The declaration of the typedef with data `data` declared by `node`:
/// `typedef NAME = ` when it is named, then `function TYPE ` and the
/// parameter list of its typedef expression, and a semicolon; `None` when
/// the node has no typedef expression.
pub open spec fn spec_typedef_render(data: TypedefData, node: SyntaxNode) -> Option<Seq<char>> {
    let head = match data.name {
        Some(n) => "typedef "@ + n@ + " = "@,
        None => seq![],
    } + "function "@ + type_text(data.type_ref@) + " "@;
    match typedef_expr(node) {
        Some(e) => Some(head + match field_text(e, FieldName::Parameters) {
            Some(p) => p,
            None => seq![],
        } + ";"@),
        None => None,
    }
}

/// The snippet that defines a function of the type that `node` declares:
/// `TYPE ${1:name}(PARAMS)` and an empty body; `None` when the node has no
/// typedef expression, or that has no return type or parameter list.
pub open spec fn spec_typedef_snippet(node: SyntaxNode) -> Option<Seq<char>> {
    match typedef_expr(node) {
        Some(e) => match (field_text(e, FieldName::ReturnType), field_index_from(e.children@, FieldName::Parameters, 0)) {
            (Some(t), Some(pi)) => Some(snippet_body(t + " ${1:name}("@, e.children@[pi].1.children@)),
            _ => None,
        },
        None => None,
    }
}

/// A typedef.
#[derive(Debug, Clone, Copy, PartialEq, Eq, Structural, Hash)]
pub struct Typedef {
    pub id: TypedefId,
}

impl Typedef {
    /// The declaration of the typedef, from its data and `node`, its source
    /// node.
    pub fn render(self, data: &TypedefData, node: &SyntaxNode) -> (res: Option<String>)
        ensures
            match res {
                Some(s) => spec_typedef_render(*data, *node) == Some(s@),
                None => spec_typedef_render(*data, *node) is None,
            },
    {
        let mut buf = String::new();
        match &data.name {
            Some(name) => {
                push_str(&mut buf, "typedef ");
                push_str(&mut buf, name.as_str());
                push_str(&mut buf, " = ");
            },
            None => {},
        }
        push_str(&mut buf, "function ");
        let t = data.type_ref.to_str();
        push_str(&mut buf, t.as_str());
        push_str(&mut buf, " ");
        let ghost head = buf@;
        assert(head =~= match data.name {
            Some(n) => "typedef "@ + n@ + " = "@,
            None => seq![],
        } + "function "@ + type_text(data.type_ref@) + " "@);
        let e = find_typedef_expr(node)?;
        match child_text(e, FieldName::Parameters) {
            Some(params) => push_str(&mut buf, params),
            None => {},
        }
        push_str(&mut buf, ";");
        Some(buf)
    }

    /// The snippet that defines a function of this type, read from `node`,
    /// its source node.
    pub fn as_snippet(self, node: &SyntaxNode) -> (res: Option<String>)
        requires
            forall|k: int| 0 <= k < node.children.len() ==> (#[trigger] node.children@[k]).1.children.len() < usize::MAX - 2,
            forall|k: int, j: int| 0 <= k < node.children.len() && 0 <= j < node.children@[k].1.children.len()
                ==> (#[trigger] node.children@[k].1.children@[j]).1.children.len() < usize::MAX - 2,
        ensures
            match res {
                Some(s) => spec_typedef_snippet(*node) == Some(s@),
                None => spec_typedef_snippet(*node) is None,
            },
    {
        let e = find_typedef_expr(node)?;
        let type_ = child_text(e, FieldName::ReturnType)?;
        let pi = e.child_by_field_name(FieldName::Parameters)?;
        proof {
            if *e != *node {
                let i = choose|i: int| 0 <= i < node.children.len() && *e == (#[trigger] node.children@[i]).1;
                assert(node.children@[i].1.children@[pi as int].1.children.len() < usize::MAX - 2);
            } else {
                assert(node.children@[pi as int].1.children.len() < usize::MAX - 2);
            }
        }
        let mut buf = type_.to_owned();
        push_str(&mut buf, " ${1:name}(");
        Some(finish_snippet(buf, &e.children[pi].1.children))
    }
}

/// The declaration of the functag with data `data` declared by `node`,
/// whose funcenum, when it has no name, is named `parent_name`.
pub open spec fn spec_functag_render(data: FunctagData, parent_name: Option<Name>, node: SyntaxNode) -> Seq<char> {
    let t = match data.type_ref {
        Some(t) => type_text(t@),
        None => seq![],
    };
    let head = match data.name {
        Some(n) => "functag public "@ + t + n@,
        None => parent_name->Some_0@ + "\n"@ + t + ":public"@,
    };
    head + match field_text(node, FieldName::Parameters) {
        Some(p) => p,
        None => seq![],
    } + ";"@
}

pub open spec fn opt_name(n: Option<&Name>) -> Option<Name> {
    match n {
        Some(n) => Some(*n),
        None => None,
    }
}

/// A functag.
#[derive(Debug, Clone, Copy, PartialEq, Eq, Structural, Hash)]
pub struct Functag {
    pub id: FunctagId,
}

impl Functag {
    /// The declaration of the functag, from its data, the name of its
    /// funcenum `parent_name` (read when the functag has no name) and `node`,
    /// its source node.
    pub fn render(self, data: &FunctagData, parent_name: Option<&Name>, node: &SyntaxNode) -> (res: Option<String>)
        requires
            data.name is Some || parent_name is Some,
        ensures
            res matches Some(s) && s@ == spec_functag_render(*data, opt_name(parent_name), *node),
    {
        let t = match &data.type_ref {
            Some(t) => t.to_str(),
            None => String::new(),
        };
        let mut buf = String::new();
        match &data.name {
            Some(name) => {
                push_str(&mut buf, "functag public ");
                push_str(&mut buf, t.as_str());
                push_str(&mut buf, name.as_str());
            },
            None => {
                let parent = parent_name.unwrap();
                push_str(&mut buf, parent.as_str());
                push_str(&mut buf, "\n");
                push_str(&mut buf, t.as_str());
                push_str(&mut buf, ":public");
            },
        }
        match child_text(node, FieldName::Parameters) {
            Some(params) => push_str(&mut buf, params),
            None => {},
        }
        push_str(&mut buf, ";");
        Some(buf)
    }
}

} // verus!
