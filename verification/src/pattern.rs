//! Bindings to the `regex` crate and to `std` number parsing.
use vstd::prelude::*;

verus! {

pub open spec fn opt_string_view(o: Option<String>) -> Option<Seq<char>> {
    match o {
        Some(s) => Some(s@),
        None => None,
    }
}

/// The text of capture group `group` of the leftmost-first match of the regular
/// expression `pattern` in `text`; `None` when the pattern does not compile,
/// does not match, or the group took no part in the match.
pub uninterp spec fn regex_group(pattern: Seq<char>, text: Seq<char>, group: usize) -> Option<Seq<char>>;

/// The text that follows the leftmost-first match of `pattern` in `text`; `None`
/// when the pattern does not compile or does not match.
pub uninterp spec fn regex_after_match(pattern: Seq<char>, text: Seq<char>) -> Option<Seq<char>>;

/// `text` with every non-overlapping match of `pattern` replaced by `replacement`
/// (where `$1`, `${1}` stand for capture groups); `None` when the pattern does not compile.
pub uninterp spec fn regex_replaced(pattern: Seq<char>, text: Seq<char>, replacement: Seq<char>) -> Option<Seq<char>>;

/// The characters that have a meaning in a regular expression, and that
/// `regex::escape` escapes.
pub open spec fn is_regex_meta(c: char) -> bool {
    c == '\\' || c == '.' || c == '+' || c == '*' || c == '?' || c == '(' || c == ')' || c == '|' || c == '['
        || c == ']' || c == '{' || c == '}' || c == '^' || c == '$' || c == '#' || c == '&' || c == '-'
        || c == '~'
}

/// `text` with a `\` put before each regular-expression meta character.
pub open spec fn regex_escaped(text: Seq<char>) -> Seq<char>
    decreases text.len(),
{
    if text.len() == 0 {
        seq![]
    } else {
        regex_escaped(text.drop_last()) + if is_regex_meta(text.last()) {
            seq!['\\', text.last()]
        } else {
            seq![text.last()]
        }
    }
}

/// Compiles `pattern` with `regex::Regex::new`, runs `Regex::captures` on `text`
/// and returns the text of group `group` (`Captures::get`). Its contract only
/// names the result: the regex engine's semantics are not restated here.
#[verifier::external_body]
pub(crate) fn regex_capture(pattern: &str, text: &str, group: usize) -> (res: Option<String>)
    ensures
        opt_string_view(res) == regex_group(pattern@, text@, group),
{
    let re = regex::Regex::new(pattern).ok()?;
    let caps = re.captures(text)?;
    caps.get(group).map(|m| m.as_str().to_string())
}

/// Compiles `pattern` with `regex::Regex::new`, runs `Regex::find` on `text` and
/// returns the text after the match (`Match::end`). Its contract only names the result.
#[verifier::external_body]
pub(crate) fn regex_find_rest(pattern: &str, text: &str) -> (res: Option<String>)
    ensures
        opt_string_view(res) == regex_after_match(pattern@, text@),
{
    let re = regex::Regex::new(pattern).ok()?;
    let m = re.find(text)?;
    Some(text[m.end()..].to_string())
}

/// Compiles `pattern` with `regex::Regex::new` and runs `Regex::replace_all` on
/// `text`. Its contract only names the result.
#[verifier::external_body]
pub(crate) fn regex_replace_all(pattern: &str, text: &str, replacement: &str) -> (res: Option<String>)
    ensures
        opt_string_view(res) == regex_replaced(pattern@, text@, replacement@),
{
    let re = regex::Regex::new(pattern).ok()?;
    Some(re.replace_all(text, replacement).into_owned())
}

/// Calls `regex::escape`, which puts a `\` before each character that
/// `regex_syntax::is_meta_character` accepts, and copies the others.
#[verifier::external_body]
pub(crate) fn regex_escape(text: &str) -> (res: String)
    ensures
        res@ == regex_escaped(text@),
{
    regex::escape(text)
}

/// All characters of `s` are ASCII decimal digits, and there is at least one.
pub open spec fn is_ascii_digits(s: Seq<char>) -> bool {
    s.len() > 0 && forall|i: int| 0 <= i < s.len() ==> '0' <= #[trigger] s[i] <= '9'
}

/// The value of the decimal numeral `s`.
pub open spec fn decimal_value(s: Seq<char>) -> int
    decreases s.len(),
{
    if s.len() == 0 {
        0
    } else {
        decimal_value(s.drop_last()) * 10 + (s.last() as int - '0' as int)
    }
}

/// The digits of an unsigned numeral: `s` itself, or `s` without a leading `+`.
pub open spec fn unsigned_digits(s: Seq<char>) -> Seq<char> {
    if s.len() > 0 && s[0] == '+' {
        s.drop_first()
    } else {
        s
    }
}

/// What `str::parse::<u32>` gives: the value of an optionally `+`-signed
/// decimal numeral that fits in a `u32`, else nothing.
pub open spec fn parse_u32_spec(s: Seq<char>) -> Option<u32> {
    let d = unsigned_digits(s);
    if is_ascii_digits(d) && decimal_value(d) <= u32::MAX {
        Some(decimal_value(d) as u32)
    } else {
        None
    }
}

/// Calls `str::parse::<u32>`; std documents that it accepts an optional `+`
/// followed by ASCII decimal digits whose value fits in the type.
#[verifier::external_body]
pub(crate) fn parse_u32(s: &str) -> (res: Option<u32>)
    ensures
        res == parse_u32_spec(s@),
{
    s.parse::<u32>().ok()
}

/// What `str::parse::<i64>` gives: the value of an optionally signed decimal
/// numeral that fits in an `i64`, else nothing.
pub open spec fn parse_i64_spec(s: Seq<char>) -> Option<i64> {
    if s.len() > 0 && s[0] == '-' {
        let d = s.drop_first();
        if is_ascii_digits(d) && decimal_value(d) <= 0x8000_0000_0000_0000 {
            Some((0 - decimal_value(d)) as i64)
        } else {
            None
        }
    } else {
        let d = unsigned_digits(s);
        if is_ascii_digits(d) && decimal_value(d) <= i64::MAX {
            Some(decimal_value(d) as i64)
        } else {
            None
        }
    }
}

/// Calls `str::parse::<i64>`; std documents that it accepts an optional `+`
/// or `-` followed by ASCII decimal digits whose value fits in the type.
#[verifier::external_body]
pub(crate) fn parse_i64(s: &str) -> (res: Option<i64>)
    ensures
        res == parse_i64_spec(s@),
{
    s.parse::<i64>().ok()
}

} // verus!
