//! Documentation of symbols: its rendering as Markdown and the extraction of
//! parameter descriptions.
use vstd::prelude::*;
use vstd::std_specs::convert::FromSpec;
use crate::completion_data::{opt_str, AttributeView, Event, EventView};
use crate::pattern::{regex_after_match, regex_escape, regex_escaped, regex_find_rest, regex_replace_all, regex_replaced};
use crate::text::{
    before_char, join_spec, join_strings, push_str, replace_spec, replace_str, strings_view, take_before_char,
    trim, trim_spec,
};

verus! {

/// Holds documentation
#[derive(Debug, Clone, PartialEq, Eq, Hash)]
pub struct Documentation(String);

impl View for Documentation {
    type V = Seq<char>;

    closed spec fn view(&self) -> Seq<char> {
        self.0@
    }
}

/// `text` with every match of `pattern` replaced by `replacement`; `text`
/// itself when the pattern does not compile.
pub open spec fn replaced_or_same(pattern: Seq<char>, text: Seq<char>, replacement: Seq<char>) -> Seq<char> {
    match regex_replaced(pattern, text, replacement) {
        Some(t) => t,
        None => text,
    }
}

fn replace_or_keep(pattern: &str, text: String, replacement: &str) -> (res: String)
    ensures
        res@ == replaced_or_same(pattern@, text@, replacement@),
{
    match regex_replace_all(pattern, text.as_str(), replacement) {
        Some(t) => t,
        None => text,
    }
}

/// A `*<` that opens the text.
pub const MD_OPENING_STAR: &'static str = r"^\*<";
/// A `*` line break `*` sequence.
pub const MD_STAR_BREAK: &'static str = r"\*\s*\r?\n\s*\*";
/// A line break followed by a `*`.
pub const MD_BREAK_STAR: &'static str = r"\r?\n\s*\*";
/// A `*` that opens the text.
pub const MD_LEADING_STAR: &'static str = r"^\*";
/// A `<`.
pub const MD_LT: &'static str = r"<";
/// A `>`.
pub const MD_GT: &'static str = r">";
/// A tag such as `@param`, with the spaces around it.
pub const MD_TAG: &'static str = r"\s*(@[A-Za-z]+)\s+";
/// A rendered `@param` tag and the parameter name that follows it.
pub const MD_PARAM: &'static str = r"(_@param_) ([A-Za-z0-9_.]+)\s*";
/// A call such as `Foo(int a)`.
pub const MD_CALL: &'static str = r"(\w+\([A-Za-z0-9_ :]*\))";

/// The Markdown rendering of the documentation text `doc`.
pub open spec fn markdown_spec(doc: Seq<char>) -> Seq<char> {
    let t = replaced_or_same(MD_OPENING_STAR@, doc, ""@);
    let t = replaced_or_same(MD_STAR_BREAK@, t, "\n\n"@);
    let t = replaced_or_same(MD_BREAK_STAR@, t, ""@);
    let t = replaced_or_same(MD_LEADING_STAR@, t, ""@);
    let t = replaced_or_same(MD_LT@, t, "\\<"@);
    let t = replaced_or_same(MD_GT@, t, "\\>"@);
    let t = replaced_or_same(MD_TAG@, t, "\n\n_${1}_ "@);
    let t = replaced_or_same(MD_PARAM@, t, "${1} `${2}` — >"@);
    let t = replaced_or_same(MD_CALL@, t, "`${1}`"@);
    trim_spec(replace_spec(t, "DEPRECATED"@, "\n\n**DEPRECATED**"@))
}

/// The pattern that finds the description of parameter `name`.
pub open spec fn param_pattern(name: Seq<char>) -> Seq<char> {
    "\\s*@param\\s+"@ + regex_escaped(name) + "\\s+"@
}

/// The description of parameter `name` in `doc`: what follows its `@param`
/// tag up to the next `@`, trimmed.
pub open spec fn param_description_spec(doc: Seq<char>, name: Seq<char>) -> Option<Seq<char>> {
    match regex_after_match(param_pattern(name), doc) {
        Some(rest) => Some(trim_spec(before_char(rest, '@'))),
        None => None,
    }
}

/// A `/**` or `/**<` that opens a comment, with the spaces around it.
pub const DOC_OPEN: &'static str = r"^\s*/(?:\*){2}<?\s*";
/// The `*/` that closes a comment.
pub const DOC_CLOSE: &'static str = r"\*/$";
/// A `//` that opens a comment.
pub const DOC_LINE: &'static str = r"^\s*//\s*";
/// A line break followed by a `*`.
pub const DOC_BREAK_STAR: &'static str = r"\r?\n\s*\*\s*";
/// A `*` that opens the text.
pub const DOC_LEADING_STAR: &'static str = r"^\s*\*\s*";

/// The documentation text of the comment `text`: its delimiters and the
/// leading stars of its lines removed.
pub open spec fn comment_to_doc_spec(text: Seq<char>) -> Seq<char> {
    let t = replaced_or_same(DOC_OPEN@, text, ""@);
    let t = replaced_or_same(DOC_CLOSE@, t, ""@);
    let t = replaced_or_same(DOC_LINE@, t, ""@);
    let t = replaced_or_same(DOC_BREAK_STAR@, t, "\n"@);
    replaced_or_same(DOC_LEADING_STAR@, t, ""@)
}

/// The documentation text of the comment `text`.
pub fn comment_to_doc(text: &str) -> (res: String)
    ensures
        res@ == comment_to_doc_spec(text@),
{
    let t = replace_or_keep(DOC_OPEN, text.to_owned(), "");
    let t = replace_or_keep(DOC_CLOSE, t, "");
    let t = replace_or_keep(DOC_LINE, t, "");
    let t = replace_or_keep(DOC_BREAK_STAR, t, "\n");
    replace_or_keep(DOC_LEADING_STAR, t, "")
}

/// The line that documents an attribute of an event: its name in code, its
/// type in bold, and its description after a dash.
pub open spec fn attribute_line(a: AttributeView) -> Seq<char> {
    let head = "`"@ + a.0 + "` (__"@ + a.1 + "__)"@;
    match a.2 {
        Some(d) => head + " — "@ + d,
        None => head,
    }
}

/// The paragraphs that document an event: its note and a rule, then a line
/// for each attribute.
pub open spec fn event_parts(e: EventView) -> Seq<Seq<char>> {
    let head = match e.1 {
        Some(n) => seq![n, "---"@],
        None => seq![],
    };
    head + e.2.map_values(|a: AttributeView| attribute_line(a))
}

impl Documentation {
    pub fn new(s: String) -> (res: Self)
        ensures
            res@ == s@,
    {
        Documentation(s)
    }

    pub fn as_str(&self) -> (res: &str)
        ensures
            res@ == self@,
    {
        self.0.as_str()
    }

    /// The text of the documentation.
    pub fn into_string(self) -> (res: String)
        ensures
            res@ == self@,
    {
        self.0
    }

    /// The documentation of a game event.
    pub fn from_event(event: &Event) -> (res: Self)
        ensures
            res@ == join_spec(event_parts(event@), "\n\n"@),
    {
        let mut docs: Vec<String> = Vec::new();
        match event.note() {
            Some(note) => {
                docs.push(note.to_owned());
                docs.push("---".to_owned());
            },
            None => {},
        }
        let ghost head = strings_view(docs@);
        let attrs = event.attributes();
        let ghost av = event@.2;
        assert(head == match event@.1 {
            Some(n) => seq![n, "---"@],
            None => Seq::<Seq<char>>::empty(),
        });
        let mut i: usize = 0;
        while i < attrs.len()
            invariant
                0 <= i <= attrs.len(),
                av == crate::completion_data::attributes_view(attrs@),
                strings_view(docs@) == head + av.take(i as int).map_values(|a: AttributeView| attribute_line(a)),
            decreases attrs.len() - i,
        {
            let a = &attrs[i];
            let mut buf = "`".to_owned();
            push_str(&mut buf, a.name());
            push_str(&mut buf, "` (__");
            push_str(&mut buf, a.type_());
            push_str(&mut buf, "__)");
            match a.description() {
                Some(d) => {
                    push_str(&mut buf, " — ");
                    push_str(&mut buf, d);
                },
                None => {},
            }
            assert(buf@ == attribute_line(av[i as int]));
            let ghost old_docs = docs@;
            docs.push(buf);
            assert(strings_view(docs@) =~= strings_view(old_docs).push(buf@));
            assert(av.take(i + 1).map_values(|a: AttributeView| attribute_line(a)) =~= av.take(i as int).map_values(
                |a: AttributeView| attribute_line(a),
            ).push(attribute_line(av[i as int])));
            i = i + 1;
        }
        assert(av.take(attrs.len() as int) =~= av);
        Documentation(join_strings(&docs, "\n\n"))
    }

    /// The documentation rendered as Markdown.
    pub fn to_markdown(&self) -> (res: String)
        ensures
            res@ == markdown_spec(self@),
    {
        let t = replace_or_keep(MD_OPENING_STAR, self.0.clone(), "");
        let t = replace_or_keep(MD_STAR_BREAK, t, "\n\n");
        let t = replace_or_keep(MD_BREAK_STAR, t, "");
        let t = replace_or_keep(MD_LEADING_STAR, t, "");
        let t = replace_or_keep(MD_LT, t, "\\<");
        let t = replace_or_keep(MD_GT, t, "\\>");
        let t = replace_or_keep(MD_TAG, t, "\n\n_${1}_ ");
        let t = replace_or_keep(MD_PARAM, t, "${1} `${2}` — >");
        let t = replace_or_keep(MD_CALL, t, "`${1}`");
        proof {
            reveal_strlit("DEPRECATED");
        }
        let t = replace_str(t.as_str(), "DEPRECATED", "\n\n**DEPRECATED**");
        trim(t.as_str())
    }

    /// Extracts the description of a parameter from the documentation.
    pub fn param_description(&self, param_name: &str) -> (res: Option<Self>)
        ensures
            match res {
                Some(d) => param_description_spec(self@, param_name@) == Some(d@),
                None => param_description_spec(self@, param_name@) is None,
            },
    {
        let mut pattern = r"\s*@param\s+".to_owned();
        let escaped = regex_escape(param_name);
        push_str(&mut pattern, escaped.as_str());
        push_str(&mut pattern, r"\s+");
        let rest = regex_find_rest(pattern.as_str(), self.0.as_str())?;
        let desc = take_before_char(rest.as_str(), '@');
        Some(Documentation(trim(desc.as_str())))
    }
}

impl From<String> for Documentation {
    fn from(s: String) -> (res: Self) {
        Documentation(s)
    }
}

impl vstd::std_specs::convert::FromSpecImpl<String> for Documentation {
    open spec fn obeys_from_spec() -> bool {
        true
    }

    closed spec fn from_spec(s: String) -> Self {
        Documentation(s)
    }
}

/// Documentation made by `From` from a text holds exactly that text, as `new`
/// makes it; and `String::from` gives back the text of documentation.
pub proof fn law_from_round_trip(s: String, d: Documentation)
    ensures
        <Documentation as FromSpec<String>>::from_spec(s)@ == s@,
        <String as FromSpec<Documentation>>::from_spec(d)@ == d@,
{
}

impl From<Documentation> for String {
    fn from(d: Documentation) -> (res: Self) {
        d.0
    }
}

impl vstd::std_specs::convert::FromSpecImpl<Documentation> for String {
    open spec fn obeys_from_spec() -> bool {
        true
    }

    closed spec fn from_spec(d: Documentation) -> String {
        d.0
    }
}

} // verus!
