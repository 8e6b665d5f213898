//! Small verified text helpers: decimal rendering of counters and ids,
//! white-space trimming of feed-provided titles and summaries, and joining
//! URL lists for export.

use vstd::prelude::*;
use vstd::string::StrSliceExecFns;
use vstd::string::StringExecFns;

verus! {

/// The decimal digit character for `d`.
pub open spec fn digit_char(d: int) -> char {
    if d == 0 {
        '0'
    } else if d == 1 {
        '1'
    } else if d == 2 {
        '2'
    } else if d == 3 {
        '3'
    } else if d == 4 {
        '4'
    } else if d == 5 {
        '5'
    } else if d == 6 {
        '6'
    } else if d == 7 {
        '7'
    } else if d == 8 {
        '8'
    } else {
        '9'
    }
}

/// The decimal digits of `n`, most significant first, with no leading zero
/// except for `n == 0` itself.
pub open spec fn dec_digits(n: int) -> Seq<char>
    decreases n,
{
    if n < 10 {
        seq![digit_char(n)]
    } else {
        dec_digits(n / 10).push(digit_char(n % 10))
    }
}

/// The one-character string for decimal digit `d`.
fn digit_str(d: u64) -> (s: &'static str)
    requires
        d < 10,
    ensures
        s@ == seq![digit_char(d as int)],
{
    let s: &'static str = if d == 0 {
        "0"
    } else if d == 1 {
        "1"
    } else if d == 2 {
        "2"
    } else if d == 3 {
        "3"
    } else if d == 4 {
        "4"
    } else if d == 5 {
        "5"
    } else if d == 6 {
        "6"
    } else if d == 7 {
        "7"
    } else if d == 8 {
        "8"
    } else {
        "9"
    };
    proof {
        reveal_strlit("0");
        reveal_strlit("1");
        reveal_strlit("2");
        reveal_strlit("3");
        reveal_strlit("4");
        reveal_strlit("5");
        reveal_strlit("6");
        reveal_strlit("7");
        reveal_strlit("8");
        reveal_strlit("9");
        assert(s@ =~= seq![digit_char(d as int)]);
    }
    s
}

/// Render `n` in decimal.
pub fn u64_to_dec(n: u64) -> (s: String)
    ensures
        s@ == dec_digits(n as int),
    decreases n,
{
    if n < 10 {
        digit_str(n).to_owned()
    } else {
        let mut s = u64_to_dec(n / 10);
        s.append(digit_str(n % 10));
        s
    }
}

/// `parts` joined with `sep` between consecutive parts.
pub open spec fn join_with(parts: Seq<Seq<char>>, sep: Seq<char>) -> Seq<char>
    decreases parts.len(),
{
    if parts.len() == 0 {
        Seq::empty()
    } else if parts.len() == 1 {
        parts[0]
    } else {
        join_with(parts.drop_last(), sep) + sep + parts.last()
    }
}

/// Join `parts` with the separator `sep`.
pub fn join_strings(parts: &Vec<String>, sep: &str) -> (out: String)
    ensures
        out@ == join_with(parts.deep_view(), sep@),
{
    let mut out = String::new();
    let n = parts.len();
    let mut i: usize = 0;
    while i < n
        invariant
            n == parts@.len(),
            0 <= i <= n,
            out@ == join_with(parts.deep_view().take(i as int), sep@),
        decreases n - i,
    {
        if i > 0 {
            out.append(sep);
        }
        out.append(parts[i].as_str());
        proof {
            let dv = parts.deep_view();
            assert(dv.take(i as int + 1).drop_last() =~= dv.take(i as int));
            assert(dv.take(i as int + 1).last() == dv[i as int]);
        }
        i += 1;
    }
    proof {
        assert(parts.deep_view().take(n as int) =~= parts.deep_view());
    }
    out
}

/// Clone an optional string, keeping its value.
pub(crate) fn clone_opt_string(o: &Option<String>) -> (r: Option<String>)
    ensures
        r == *o,
{
    match o {
        Some(s) => Some(s.clone()),
        None => None,
    }
}

/// Clone a vector of strings, keeping its values.
pub(crate) fn clone_string_vec(v: &Vec<String>) -> (r: Vec<String>)
    ensures
        r@.len() == v@.len(),
        forall|i: int| 0 <= i < v@.len() ==> r@[i] == v@[i],
        r.deep_view() == v.deep_view(),
{
    let n = v.len();
    let mut r: Vec<String> = Vec::new();
    let mut i: usize = 0;
    while i < n
        invariant
            n == v@.len(),
            0 <= i <= n,
            r@.len() == i,
            forall|j: int| 0 <= j < i ==> r@[j] == v@[j],
        decreases n - i,
    {
        r.push(v[i].clone());
        i += 1;
    }
    proof {
        assert(r.deep_view() =~= v.deep_view());
    }
    r
}

/// Whether `c` carries the Unicode `White_Space` property, the set of
/// characters that trimming strips.
pub open spec fn is_space(c: char) -> bool {
    let u = c as int;
    u == 0x09 || u == 0x0a || u == 0x0b || u == 0x0c || u == 0x0d || u == 0x20 || u == 0x85 || u
        == 0xa0 || u == 0x1680 || (0x2000 <= u && u <= 0x200a) || u == 0x2028 || u == 0x2029 || u
        == 0x202f || u == 0x205f || u == 0x3000
}

/// Runtime check for [`is_space`].
pub fn is_space_char(c: char) -> (r: bool)
    ensures
        r == is_space(c),
{
    let u = c as u32;
    u == 0x09 || u == 0x0a || u == 0x0b || u == 0x0c || u == 0x0d || u == 0x20 || u == 0x85 || u
        == 0xa0 || u == 0x1680 || (0x2000 <= u && u <= 0x200a) || u == 0x2028 || u == 0x2029 || u
        == 0x202f || u == 0x205f || u == 0x3000
}

/// How many white-space characters `s` starts with.
pub open spec fn leading_spaces(s: Seq<char>) -> int
    decreases s.len(),
{
    if s.len() == 0 {
        0
    } else if !is_space(s[0]) {
        0
    } else {
        1 + leading_spaces(s.drop_first())
    }
}

/// How many white-space characters `s` ends with.
pub open spec fn trailing_spaces(s: Seq<char>) -> int
    decreases s.len(),
{
    if s.len() == 0 {
        0
    } else if !is_space(s.last()) {
        0
    } else {
        1 + trailing_spaces(s.drop_last())
    }
}

/// `s` with leading and trailing white space removed.
pub open spec fn trim_spec(s: Seq<char>) -> Seq<char> {
    if leading_spaces(s) == s.len() {
        Seq::empty()
    } else {
        s.subrange(leading_spaces(s), s.len() - trailing_spaces(s))
    }
}

/// `s` with markup tags removed, starting inside an unclosed tag when
/// `in_tag` holds: characters from a `<` through the next `>` are
/// dropped, everything else is kept.
pub open spec fn strip_tags_from(s: Seq<char>, in_tag: bool) -> Seq<char>
    decreases s.len(),
{
    if s.len() == 0 {
        Seq::empty()
    } else if in_tag {
        strip_tags_from(s.drop_first(), s[0] != '>')
    } else if s[0] == '<' {
        strip_tags_from(s.drop_first(), true)
    } else {
        seq![s[0]] + strip_tags_from(s.drop_first(), false)
    }
}

/// `s` reduced to plain text: every `<...>` tag removed.
pub open spec fn strip_html(s: Seq<char>) -> Seq<char> {
    strip_tags_from(s, false)
}

/// Remove every markup tag from `s`, keeping the text between tags.
pub fn strip_html_text(s: &String) -> (r: String)
    ensures
        r@ == strip_html(s@),
{
    let st = s.as_str();
    let n = st.unicode_len();
    let mut out = String::new();
    let mut in_tag = false;
    // Start of the run of plain text that is not yet copied out.
    let mut run_start: usize = 0;
    let mut i: usize = 0;
    proof {
        assert(s@.skip(0) =~= s@);
        assert(out@ + s@.subrange(0, 0) + strip_tags_from(s@.skip(0), false) =~= strip_html(s@));
    }
    while i < n
        invariant
            st@ == s@,
            n == s@.len(),
            0 <= i <= n,
            !in_tag ==> run_start <= i && strip_html(s@) == out@ + s@.subrange(
                run_start as int,
                i as int,
            ) + strip_tags_from(s@.skip(i as int), false),
            in_tag ==> strip_html(s@) == out@ + strip_tags_from(s@.skip(i as int), true),
        decreases n - i,
    {
        proof {
            assert(s@.skip(i as int).drop_first() =~= s@.skip(i as int + 1));
            assert(s@.skip(i as int)[0] == s@[i as int]);
        }
        let c = st.get_char(i);
        if in_tag {
            if c == '>' {
                in_tag = false;
                run_start = i + 1;
                proof {
                    assert(s@.subrange(i as int + 1, i as int + 1) =~= Seq::<char>::empty());
                    assert(out@ + s@.subrange(i as int + 1, i as int + 1) =~= out@);
                }
            }
        } else if c == '<' {
            out.append(st.substring_char(run_start, i));
            in_tag = true;
        } else {
            proof {
                assert(s@.subrange(run_start as int, i as int + 1) =~= s@.subrange(
                    run_start as int,
                    i as int,
                ) + seq![s@[i as int]]);
                assert(out@ + s@.subrange(run_start as int, i as int + 1) + strip_tags_from(
                    s@.skip(i as int + 1),
                    false,
                ) =~= out@ + s@.subrange(run_start as int, i as int) + (seq![s@[i as int]]
                    + strip_tags_from(s@.skip(i as int + 1), false)));
            }
        }
        i += 1;
    }
    proof {
        assert(s@.skip(n as int) =~= Seq::<char>::empty());
    }
    if !in_tag {
        out.append(st.substring_char(run_start, n));
    }
    out
}

/// `s` without its trailing `/`, if it ends in one.
pub open spec fn without_trailing_slash(s: Seq<char>) -> Seq<char> {
    if s.len() > 0 && s.last() == '/' {
        s.drop_last()
    } else {
        s
    }
}

/// Remove one trailing `/` from `s`, if present.
pub fn trim_trailing_slash(s: &String) -> (r: String)
    ensures
        r@ == without_trailing_slash(s@),
{
    let st = s.as_str();
    let n = st.unicode_len();
    if n > 0 && st.get_char(n - 1) == '/' {
        let out = st.substring_char(0, n - 1);
        proof {
            assert(out@ =~= s@.drop_last());
        }
        out.to_owned()
    } else {
        s.clone()
    }
}

/// A prefix of white space followed by a non-space (or the end) pins down
/// `leading_spaces`.
proof fn lemma_leading_spaces_at(s: Seq<char>, a: int)
    requires
        0 <= a <= s.len(),
        forall|j: int| 0 <= j < a ==> is_space(s[j]),
        a == s.len() || !is_space(s[a]),
    ensures
        leading_spaces(s) == a,
    decreases a,
{
    if a == 0 {
    } else {
        assert(is_space(s[0]));
        let rest = s.drop_first();
        assert forall|j: int| 0 <= j < a - 1 implies is_space(rest[j]) by {
            assert(rest[j] == s[j + 1]);
        }
        if a - 1 < rest.len() {
            assert(rest[a - 1] == s[a]);
        }
        lemma_leading_spaces_at(rest, a - 1);
    }
}

/// A suffix of white space preceded by a non-space (or the start) pins down
/// `trailing_spaces`.
proof fn lemma_trailing_spaces_at(s: Seq<char>, b: int)
    requires
        0 <= b <= s.len(),
        forall|j: int| b <= j < s.len() ==> is_space(s[j]),
        b == 0 || !is_space(s[b - 1]),
    ensures
        trailing_spaces(s) == s.len() - b,
    decreases s.len(),
{
    if b == s.len() {
        if s.len() > 0 {
            assert(!is_space(s.last()));
        }
    } else {
        assert(is_space(s.last()));
        let rest = s.drop_last();
        assert forall|j: int| b <= j < rest.len() implies is_space(rest[j]) by {
            assert(rest[j] == s[j]);
        }
        if b > 0 {
            assert(rest[b - 1] == s[b - 1]);
        }
        lemma_trailing_spaces_at(rest, b);
    }
}

/// Remove leading and trailing white space from `s`.
pub fn trim_string(s: &String) -> (r: String)
    ensures
        r@ == trim_spec(s@),
{
    let st = s.as_str();
    let n = st.unicode_len();
    let mut a: usize = 0;
    while a < n && is_space_char(st.get_char(a))
        invariant
            st@ == s@,
            n == s@.len(),
            0 <= a <= n,
            forall|j: int| 0 <= j < a ==> is_space(s@[j]),
        decreases n - a,
    {
        a += 1;
    }
    if a == n {
        proof {
            lemma_leading_spaces_at(s@, n as int);
        }
        return String::new();
    }
    let mut b: usize = n;
    while b > a && is_space_char(st.get_char(b - 1))
        invariant
            st@ == s@,
            n == s@.len(),
            0 <= a < n,
            a <= b <= n,
            !is_space(s@[a as int]),
            forall|j: int| b <= j < n ==> is_space(s@[j]),
        decreases b,
    {
        b -= 1;
    }
    proof {
        if b == a {
            assert(is_space(s@[a as int]));
            assert(false);
        }
        lemma_leading_spaces_at(s@, a as int);
        lemma_trailing_spaces_at(s@, b as int);
    }
    let out = st.substring_char(a, b);
    out.to_owned()
}

} // verus!
