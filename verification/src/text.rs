//! String operations that vstd leaves unspecified: a few trusted bindings to `std`,
//! and helpers verified over the characters of the strings.
use vstd::prelude::*;

verus! {

/// `true` iff `suffix` is a suffix of `s` (character-wise).
pub open spec fn is_suffix(s: Seq<char>, suffix: Seq<char>) -> bool {
    suffix.len() <= s.len() && s.subrange(s.len() - suffix.len(), s.len() as int) == suffix
}

/// Whether `suffix` ends `s`, character by character.
pub fn str_ends_with(s: &str, suffix: &str) -> (res: bool)
    ensures
        res == is_suffix(s@, suffix@),
{
    let sv = to_chars(s);
    let xv = to_chars(suffix);
    let n = sv.len();
    let m = xv.len();
    if m > n {
        return false;
    }
    let mut i: usize = 0;
    while i < m
        invariant
            sv@ == s@,
            xv@ == suffix@,
            n == sv.len(),
            m == xv.len(),
            m <= n,
            0 <= i <= m,
            forall|k: int| 0 <= k < i ==> sv@[n - m + k] == xv@[k],
        decreases m - i,
    {
        if sv[n - m + i] != xv[i] {
            assert(s@.subrange(n - m, n as int)[i as int] != suffix@[i as int]);
            return false;
        }
        i = i + 1;
    }
    assert(s@.subrange(n - m, n as int) =~= suffix@);
    true
}

/// `s` repeated `n` times.
pub open spec fn repeat_seq(s: Seq<char>, n: nat) -> Seq<char>
    decreases n,
{
    if n == 0 {
        seq![]
    } else {
        repeat_seq(s, (n - 1) as nat) + s
    }
}

/// Appends `tail` to `s`.
pub fn push_str(s: &mut String, tail: &str)
    ensures
        final(s)@ == old(s)@ + tail@,
{
    s.append(tail);
}

/// Calls `String::push`; std documents that it appends the character to the end.
#[verifier::external_body]
pub(crate) fn push_char(s: &mut String, c: char)
    ensures
        final(s)@ == old(s)@.push(c),
{
    s.push(c);
}

/// Whether `c` has the Unicode `White_Space` property: the 25 code points
/// U+0009 to U+000D, U+0020, U+0085, U+00A0, U+1680, U+2000 to U+200A,
/// U+2028, U+2029, U+202F, U+205F and U+3000.
pub open spec fn char_is_whitespace(c: char) -> bool {
    let n = c as u32;
    (0x9 <= n <= 0xd) || n == 0x20 || n == 0x85 || n == 0xa0 || n == 0x1680 || (0x2000 <= n <= 0x200a)
        || n == 0x2028 || n == 0x2029 || n == 0x202f || n == 0x205f || n == 0x3000
}

/// Calls `char::is_whitespace`, which std documents as true exactly for the
/// characters with the Unicode `White_Space` property.
#[verifier::external_body]
pub(crate) fn is_whitespace(c: char) -> (res: bool)
    ensures
        res == char_is_whitespace(c),
{
    c.is_whitespace()
}

/// `true` iff `prefix` is a prefix of `s`.
pub open spec fn is_prefix(s: Seq<char>, prefix: Seq<char>) -> bool {
    prefix.len() <= s.len() && s.subrange(0, prefix.len() as int) == prefix
}

/// Whether `prefix` begins `s`, character by character.
pub fn str_starts_with(s: &str, prefix: &str) -> (res: bool)
    ensures
        res == is_prefix(s@, prefix@),
{
    let sv = to_chars(s);
    let pv = to_chars(prefix);
    if pv.len() > sv.len() {
        return false;
    }
    let mut i: usize = 0;
    while i < pv.len()
        invariant
            sv@ == s@,
            pv@ == prefix@,
            pv.len() <= sv.len(),
            0 <= i <= pv.len(),
            forall|k: int| 0 <= k < i ==> sv@[k] == pv@[k],
        decreases pv.len() - i,
    {
        if sv[i] != pv[i] {
            assert(s@.subrange(0, prefix@.len() as int)[i as int] != prefix@[i as int]);
            return false;
        }
        i = i + 1;
    }
    assert(s@.subrange(0, prefix@.len() as int) =~= prefix@);
    true
}

/// Number of leading whitespace characters of `s`.
pub open spec fn leading_ws(s: Seq<char>) -> nat
    decreases s.len(),
{
    if s.len() > 0 && char_is_whitespace(s[0]) {
        1 + leading_ws(s.drop_first())
    } else {
        0
    }
}

/// Number of trailing whitespace characters of `s`.
pub open spec fn trailing_ws(s: Seq<char>) -> nat
    decreases s.len(),
{
    if s.len() > 0 && char_is_whitespace(s.last()) {
        1 + trailing_ws(s.drop_last())
    } else {
        0
    }
}

/// `s` without leading whitespace, as `str::trim_start` gives it.
pub open spec fn trim_start_spec(s: Seq<char>) -> Seq<char> {
    s.skip(leading_ws(s) as int)
}

/// `s` without trailing whitespace, as `str::trim_end` gives it.
pub open spec fn trim_end_spec(s: Seq<char>) -> Seq<char> {
    s.take(s.len() - trailing_ws(s))
}

/// `s` without leading and trailing whitespace, as `str::trim` gives it.
pub open spec fn trim_spec(s: Seq<char>) -> Seq<char> {
    trim_end_spec(trim_start_spec(s))
}

pub proof fn lemma_leading_ws_bound(s: Seq<char>)
    ensures
        leading_ws(s) <= s.len(),
    decreases s.len(),
{
    if s.len() > 0 && char_is_whitespace(s[0]) {
        lemma_leading_ws_bound(s.drop_first());
    }
}

pub proof fn lemma_trailing_ws_bound(s: Seq<char>)
    ensures
        trailing_ws(s) <= s.len(),
    decreases s.len(),
{
    if s.len() > 0 && char_is_whitespace(s.last()) {
        lemma_trailing_ws_bound(s.drop_last());
    }
}

/// The characters of `s`.
pub fn to_chars(s: &str) -> (res: Vec<char>)
    ensures
        res@ == s@,
{
    let n = s.unicode_len();
    let mut res: Vec<char> = Vec::new();
    let mut i: usize = 0;
    while i < n
        invariant
            n == s@.len(),
            0 <= i <= n,
            res@ == s@.take(i as int),
        decreases n - i,
    {
        res.push(s.get_char(i));
        proof {
            assert(s@.take(i + 1) == s@.take(i as int).push(s@[i as int]));
        }
        i = i + 1;
    }
    assert(s@.take(n as int) == s@);
    res
}

/// The string made of the characters `v[from..to]`.
pub fn from_chars(v: &Vec<char>, from: usize, to: usize) -> (res: String)
    requires
        from <= to <= v.len(),
    ensures
        res@ == v@.subrange(from as int, to as int),
{
    let mut res = String::new();
    let mut i: usize = from;
    while i < to
        invariant
            from <= i <= to <= v.len(),
            res@ == v@.subrange(from as int, i as int),
        decreases to - i,
    {
        push_char(&mut res, v[i]);
        proof {
            assert(v@.subrange(from as int, i + 1) == v@.subrange(from as int, i as int).push(v@[i as int]));
        }
        i = i + 1;
    }
    res
}

/// `s` without leading and trailing whitespace.
pub fn trim(s: &str) -> (res: String)
    ensures
        res@ == trim_spec(s@),
{
    let v = to_chars(s);
    let mut start: usize = 0;
    proof {
        lemma_leading_ws_bound(v@);
        assert(v@.skip(0) == v@);
    }
    while start < v.len() && is_whitespace(v[start])
        invariant
            0 <= start <= v.len(),
            v@ == s@,
            leading_ws(v@) == start + leading_ws(v@.skip(start as int)),
        decreases v.len() - start,
    {
        proof {
            assert(v@.skip(start as int).drop_first() == v@.skip(start + 1));
        }
        start = start + 1;
    }
    proof {
        if start < v.len() {
            assert(v@.skip(start as int)[0] == v@[start as int]);
        }
        assert(leading_ws(v@.skip(start as int)) == 0);
    }
    let ghost t = v@.skip(start as int);
    let mut end: usize = v.len();
    proof {
        lemma_trailing_ws_bound(t);
        assert(v@.subrange(start as int, end as int) == t);
    }
    while end > start && is_whitespace(v[end - 1])
        invariant
            start <= end <= v.len(),
            t == v@.skip(start as int),
            trailing_ws(t) == (v.len() - end) + trailing_ws(v@.subrange(start as int, end as int)),
        decreases end,
    {
        proof {
            let u = v@.subrange(start as int, end as int);
            assert(u.last() == v@[end - 1]);
            assert(u.drop_last() == v@.subrange(start as int, end - 1));
        }
        end = end - 1;
    }
    proof {
        let u = v@.subrange(start as int, end as int);
        if end > start {
            assert(u.last() == v@[end - 1]);
        }
        assert(trailing_ws(u) == 0);
        assert(t.take(t.len() - trailing_ws(t)) == u);
    }
    from_chars(&v, start, end)
}

/// `s` with every non-overlapping occurrence of `from`, scanned from the
/// left, replaced by `to`, as `str::replace` gives it for a non-empty `from`.
pub open spec fn replace_spec(s: Seq<char>, from: Seq<char>, to: Seq<char>) -> Seq<char>
    recommends
        from.len() > 0,
    decreases s.len(),
{
    if s.len() == 0 || from.len() == 0 {
        s
    } else if is_prefix(s, from) {
        to + replace_spec(s.skip(from.len() as int), from, to)
    } else {
        seq![s[0]] + replace_spec(s.drop_first(), from, to)
    }
}

/// Whether `from` occurs in `v` at index `i`.
fn occurs_at(v: &Vec<char>, i: usize, from: &Vec<char>) -> (res: bool)
    requires
        i <= v.len(),
    ensures
        res == is_prefix(v@.skip(i as int), from@),
{
    if from.len() > v.len() - i {
        return false;
    }
    let mut k: usize = 0;
    while k < from.len()
        invariant
            i + from.len() <= v.len(),
            0 <= k <= from.len(),
            forall|j: int| 0 <= j < k ==> v@[i + j] == from@[j],
        decreases from.len() - k,
    {
        if v[i + k] != from[k] {
            assert(v@.skip(i as int).subrange(0, from.len() as int)[k as int] != from@[k as int]);
            return false;
        }
        k = k + 1;
    }
    assert(v@.skip(i as int).subrange(0, from.len() as int) =~= from@);
    true
}

/// `s` with every occurrence of the non-empty `from` replaced by `to`.
pub fn replace_str(s: &str, from: &str, to: &str) -> (res: String)
    requires
        from@.len() > 0,
    ensures
        res@ == replace_spec(s@, from@, to@),
{
    let v = to_chars(s);
    let f = to_chars(from);
    let mut res = String::new();
    let mut i: usize = 0;
    assert(v@.skip(0) == v@);
    while i < v.len()
        invariant
            0 <= i <= v.len(),
            v@ == s@,
            f@ == from@,
            f@.len() > 0,
            res@ + replace_spec(v@.skip(i as int), from@, to@) == replace_spec(s@, from@, to@),
        decreases v.len() - i,
    {
        let ghost rest = v@.skip(i as int);
        if occurs_at(&v, i, &f) {
            proof {
                assert(rest.skip(f@.len() as int) =~= v@.skip(i + f@.len()));
                assert(res@ + to@ + replace_spec(rest.skip(f@.len() as int), from@, to@) =~= res@ + replace_spec(rest, from@, to@));
            }
            push_str(&mut res, to);
            i = i + f.len();
        } else {
            proof {
                assert(rest[0] == v@[i as int]);
                assert(rest.drop_first() =~= v@.skip(i + 1));
                assert(res@.push(v@[i as int]) + replace_spec(rest.drop_first(), from@, to@) =~= res@ + replace_spec(rest, from@, to@));
            }
            push_char(&mut res, v[i]);
            i = i + 1;
        }
    }
    assert(v@.skip(i as int).len() == 0);
    res
}

/// The index of the first `c` in `s`, if any.
pub open spec fn find_char_spec(s: Seq<char>, c: char) -> Option<int>
    decreases s.len(),
{
    if s.len() == 0 {
        None
    } else if s[0] == c {
        Some(0)
    } else {
        match find_char_spec(s.drop_first(), c) {
            Some(i) => Some(i + 1),
            None => None,
        }
    }
}

/// The characters of `s` before the first `c`, or all of them.
pub open spec fn before_char(s: Seq<char>, c: char) -> Seq<char> {
    match find_char_spec(s, c) {
        Some(i) => s.take(i),
        None => s,
    }
}

/// The characters of `s` before the first `c`, or all of them.
pub fn take_before_char(s: &str, c: char) -> (res: String)
    ensures
        res@ == before_char(s@, c),
{
    let v = to_chars(s);
    let mut i: usize = 0;
    assert(v@.skip(0) == v@);
    while i < v.len() && v[i] != c
        invariant
            0 <= i <= v.len(),
            v@ == s@,
            forall|j: int| 0 <= j < i ==> v@[j] != c,
            find_char_spec(s@, c) == match find_char_spec(v@.skip(i as int), c) {
                Some(k) => Some(k + i),
                None => None,
            },
        decreases v.len() - i,
    {
        assert(v@.skip(i as int).drop_first() =~= v@.skip(i + 1));
        i = i + 1;
    }
    if i < v.len() {
        assert(v@.skip(i as int)[0] == c);
    }
    from_chars(&v, 0, i)
}

/// The strings of `parts` joined by `sep`.
pub open spec fn join_spec(parts: Seq<Seq<char>>, sep: Seq<char>) -> Seq<char>
    decreases parts.len(),
{
    if parts.len() == 0 {
        seq![]
    } else if parts.len() == 1 {
        parts[0]
    } else {
        join_spec(parts.drop_last(), sep) + sep + parts.last()
    }
}

/// The views of a sequence of strings.
pub open spec fn strings_view(v: Seq<String>) -> Seq<Seq<char>> {
    v.map_values(|s: String| s@)
}

/// The strings of `parts` joined by `sep`.
pub fn join_strings(parts: &Vec<String>, sep: &str) -> (res: String)
    ensures
        res@ == join_spec(strings_view(parts@), sep@),
{
    let mut res = String::new();
    let mut i: usize = 0;
    while i < parts.len()
        invariant
            0 <= i <= parts.len(),
            res@ == join_spec(strings_view(parts@).take(i as int), sep@),
        decreases parts.len() - i,
    {
        let ghost taken = strings_view(parts@).take(i + 1);
        proof {
            assert(taken.drop_last() =~= strings_view(parts@).take(i as int));
            assert(taken.last() == parts@[i as int]@);
        }
        if i > 0 {
            push_str(&mut res, sep);
        }
        push_str(&mut res, parts[i].as_str());
        i = i + 1;
    }
    assert(strings_view(parts@).take(parts.len() as int) =~= strings_view(parts@));
    res
}

/// `s` without the occurrences of `c` that end it.
pub open spec fn trim_end_char_spec(s: Seq<char>, c: char) -> Seq<char>
    decreases s.len(),
{
    if s.len() > 0 && s.last() == c {
        trim_end_char_spec(s.drop_last(), c)
    } else {
        s
    }
}

/// `s` without the occurrences of `c` that end it, as `str::trim_end_matches`
/// gives it for a character.
pub fn trim_end_char(s: &str, c: char) -> (res: String)
    ensures
        res@ == trim_end_char_spec(s@, c),
{
    let v = to_chars(s);
    let mut end: usize = v.len();
    assert(v@.take(end as int) =~= v@);
    while end > 0 && v[end - 1] == c
        invariant
            0 <= end <= v.len(),
            v@ == s@,
            trim_end_char_spec(s@, c) == trim_end_char_spec(v@.take(end as int), c),
        decreases end,
    {
        assert(v@.take(end as int).drop_last() =~= v@.take(end - 1));
        end = end - 1;
    }
    assert(v@.subrange(0, end as int) =~= v@.take(end as int));
    from_chars(&v, 0, end)
}

} // verus!
