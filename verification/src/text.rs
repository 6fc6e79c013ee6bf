//! Character-level text helpers shared by the SQL generators.
//!
//! Text is modelled by its `Seq<char>` view; every helper here is specified over that view.

use vstd::prelude::*;

verus! {

/// Result of a text computation, viewed as character sequences.
pub open spec fn res_view(r: Result<String, String>) -> Result<Seq<char>, Seq<char>> {
    match r {
        Ok(s) => Ok(s@),
        Err(e) => Err(e@),
    }
}

/// Concatenation of `f` applied to every character of `s`, in order.
pub open spec fn map_concat(s: Seq<char>, f: spec_fn(char) -> Seq<char>) -> Seq<char>
    decreases s.len(),
{
    if s.len() == 0 {
        Seq::empty()
    } else {
        map_concat(s.drop_last(), f) + f(s.last())
    }
}

/// Copies the characters of `s` into a vector.
pub fn chars_of(s: &str) -> (v: Vec<char>)
    ensures
        v@ == s@,
{
    let mut v: Vec<char> = Vec::new();
    for c in it: s.chars()
        invariant
            v@ == it.seq().take(it.index() as int),
    {
        v.push(c);
    }
    v
}

/// Appends one character to a string (`String::push`).
#[verifier::external_body]
pub(crate) fn push_char(s: &mut String, c: char)
    ensures
        final(s)@ == old(s)@.push(c),
{
    s.push(c);
}

/// Builds a string holding exactly the given characters.
pub fn string_from_chars(v: &[char]) -> (s: String)
    ensures
        s@ == v@,
{
    let mut s = String::new();
    let mut i: usize = 0;
    while i < v.len()
        invariant
            i <= v.len(),
            s@ == v@.take(i as int),
        decreases v.len() - i,
    {
        push_char(&mut s, v[i]);
        assert(v@.take(i + 1) == v@.take(i as int).push(v@[i as int]));
        i = i + 1;
    }
    assert(v@.take(v.len() as int) == v@);
    s
}

/// Appends `t` to `s`.
pub fn push_str(s: &mut String, t: &str)
    ensures
        final(s)@ == old(s)@ + t@,
{
    s.append(t);
}

/// One character of an SQL string literal: a single quote is doubled.
pub open spec fn escape_literal_char(c: char) -> Seq<char> {
    if c == '\'' {
        seq!['\'', '\'']
    } else {
        seq![c]
    }
}

/// `value` with every single quote doubled, as inside an SQL string literal.
pub open spec fn spec_escape_literal(value: Seq<char>) -> Seq<char> {
    map_concat(value, |c: char| escape_literal_char(c))
}

/// Doubles every single quote of `value`.
pub fn escape_literal(value: &str) -> (r: String)
    ensures
        r@ == spec_escape_literal(value@),
{
    let cs = chars_of(value);
    let mut out = String::new();
    let mut i: usize = 0;
    while i < cs.len()
        invariant
            i <= cs.len(),
            cs@ == value@,
            out@ == spec_escape_literal(cs@.take(i as int)),
        decreases cs.len() - i,
    {
        let c = cs[i];
        if c == '\'' {
            push_char(&mut out, '\'');
        }
        push_char(&mut out, c);
        assert(cs@.take(i + 1).drop_last() == cs@.take(i as int));
        i = i + 1;
    }
    assert(cs@.take(cs.len() as int) == cs@);
    out
}


/// Unicode `White_Space` property (the set `char::is_whitespace` tests).
pub open spec fn spec_is_whitespace(c: char) -> bool {
    let u = c as u32;
    (0x9 <= u && u <= 0xd) || u == 0x20 || u == 0x85 || u == 0xa0 || u == 0x1680 || (0x2000 <= u
        && u <= 0x200a) || u == 0x2028 || u == 0x2029 || u == 0x202f || u == 0x205f || u == 0x3000
}

/// Whether `c` is a Unicode white space character.
pub fn is_whitespace(c: char) -> (b: bool)
    ensures
        b == spec_is_whitespace(c),
{
    let u = c as u32;
    (0x9 <= u && u <= 0xd) || u == 0x20 || u == 0x85 || u == 0xa0 || u == 0x1680 || (0x2000 <= u
        && u <= 0x200a) || u == 0x2028 || u == 0x2029 || u == 0x202f || u == 0x205f || u == 0x3000
}

/// General category Cc (the set `char::is_control` tests).
pub open spec fn spec_is_control(c: char) -> bool {
    let u = c as u32;
    u <= 0x1f || (0x7f <= u && u <= 0x9f)
}

/// Whether `c` is a control character.
pub fn is_control(c: char) -> (b: bool)
    ensures
        b == spec_is_control(c),
{
    let u = c as u32;
    u <= 0x1f || (0x7f <= u && u <= 0x9f)
}

/// Whether some character of `s` is a control character.
pub open spec fn has_control(s: Seq<char>) -> bool {
    exists|i: int| 0 <= i < s.len() && spec_is_control(#[trigger] s[i])
}

/// Whether some character of `s` is a control character.
pub fn any_control(s: &[char]) -> (b: bool)
    ensures
        b == has_control(s@),
{
    let mut i: usize = 0;
    while i < s.len()
        invariant
            i <= s.len(),
            forall|j: int| 0 <= j < i ==> !spec_is_control(#[trigger] s@[j]),
        decreases s.len() - i,
    {
        if is_control(s[i]) {
            return true;
        }
        i = i + 1;
    }
    false
}

/// Number of white space characters at the front of `s`.
pub open spec fn leading_ws(s: Seq<char>) -> nat
    decreases s.len(),
{
    if s.len() == 0 {
        0
    } else if spec_is_whitespace(s[0]) {
        1 + leading_ws(s.drop_first())
    } else {
        0
    }
}

/// Number of white space characters at the end of `s`.
pub open spec fn trailing_ws(s: Seq<char>) -> nat
    decreases s.len(),
{
    if s.len() == 0 {
        0
    } else if spec_is_whitespace(s.last()) {
        1 + trailing_ws(s.drop_last())
    } else {
        0
    }
}

/// `s` without its leading and trailing white space (`str::trim`).
pub open spec fn spec_trim(s: Seq<char>) -> Seq<char> {
    let rest = s.skip(leading_ws(s) as int);
    rest.take(rest.len() - trailing_ws(rest))
}

proof fn lemma_leading_ws_bound(s: Seq<char>)
    ensures
        leading_ws(s) <= s.len(),
    decreases s.len(),
{
    if s.len() > 0 && spec_is_whitespace(s[0]) {
        lemma_leading_ws_bound(s.drop_first());
    }
}

proof fn lemma_trailing_ws_bound(s: Seq<char>)
    ensures
        trailing_ws(s) <= s.len(),
    decreases s.len(),
{
    if s.len() > 0 && spec_is_whitespace(s.last()) {
        lemma_trailing_ws_bound(s.drop_last());
    }
}

/// Index of the first character of `s` at or after `i` that is not white space.
fn skip_leading_ws(s: &[char], i: usize) -> (r: usize)
    requires
        i <= s.len(),
    ensures
        r == i + leading_ws(s@.skip(i as int)),
    decreases s.len() - i,
{
    if i < s.len() && is_whitespace(s[i]) {
        assert(s@.skip(i as int).drop_first() == s@.skip(i + 1));
        skip_leading_ws(s, i + 1)
    } else {
        proof {
            r_helper_empty_or_stop(s@, i as int);
        }
        i
    }
}

proof fn r_helper_empty_or_stop(s: Seq<char>, i: int)
    requires
        0 <= i <= s.len(),
        i < s.len() ==> !spec_is_whitespace(s[i]),
    ensures
        leading_ws(s.skip(i)) == 0,
{
    if i < s.len() {
        assert(s.skip(i)[0] == s[i]);
    }
}

/// Length of the prefix `s[..e]` once white space at its end is dropped.
fn drop_trailing_ws(s: &[char], e: usize) -> (r: usize)
    requires
        e <= s.len(),
    ensures
        r + trailing_ws(s@.take(e as int)) == e,
    decreases e,
{
    if e > 0 && is_whitespace(s[e - 1]) {
        assert(s@.take(e as int).drop_last() == s@.take(e - 1));
        drop_trailing_ws(s, e - 1)
    } else {
        e
    }
}

/// Start and end (exclusive) of the trimmed part of `s`.
pub fn trim_bounds(s: &[char]) -> (r: (usize, usize))
    ensures
        r.0 <= r.1 <= s.len(),
        s@.subrange(r.0 as int, r.1 as int) == spec_trim(s@),
{
    let a = skip_leading_ws(s, 0);
    assert(s@.skip(0) == s@);
    proof {
        lemma_leading_ws_bound(s@);
    }
    let ghost rest = s@.skip(a as int);
    let b = drop_trailing_ws(s, s.len());
    assert(s@.take(s.len() as int) == s@);
    // trailing white space of the whole sequence equals that of its untrimmed rest,
    // unless the rest is empty
    proof {
        lemma_trailing_ws_bound(rest);
        lemma_trailing_skip(s@, a as int);
    }
    if b < a {
        (a, a)
    } else {
        (a, b)
    }
}

proof fn lemma_trailing_skip(s: Seq<char>, a: int)
    requires
        0 <= a <= s.len(),
        a == leading_ws(s),
    ensures
        s.skip(a).len() > 0 ==> trailing_ws(s.skip(a)) == trailing_ws(s),
        s.skip(a).len() == 0 ==> trailing_ws(s) == s.len(),
    decreases s.len(),
{
    lemma_trailing_skip_gen(s, a);
}

proof fn lemma_all_ws_prefix(s: Seq<char>, a: int)
    requires
        0 <= a <= s.len(),
        a == leading_ws(s),
    ensures
        forall|i: int| 0 <= i < a ==> spec_is_whitespace(#[trigger] s[i]),
        a < s.len() ==> !spec_is_whitespace(s[a]),
    decreases s.len(),
{
    if s.len() > 0 && spec_is_whitespace(s[0]) {
        lemma_leading_ws_bound(s.drop_first());
        lemma_all_ws_prefix(s.drop_first(), a - 1);
        assert forall|i: int| 0 <= i < a implies spec_is_whitespace(#[trigger] s[i]) by {
            if i > 0 {
                assert(s[i] == s.drop_first()[i - 1]);
            }
        }
        if a < s.len() {
            assert(s[a] == s.drop_first()[a - 1]);
        }
    }
}

proof fn lemma_trailing_of_suffix(s: Seq<char>, a: int)
    requires
        0 <= a < s.len(),
    ensures
        trailing_ws(s.skip(a)) <= trailing_ws(s),
        trailing_ws(s.skip(a)) < s.len() - a ==> trailing_ws(s.skip(a)) == trailing_ws(s),
    decreases s.len(),
{
    if s.len() - a == 1 {
        assert(s.skip(a).last() == s.last());
        assert(s.skip(a).drop_last().len() == 0);
        assert(trailing_ws(s.skip(a).drop_last()) == 0);
    } else {
        assert(s.skip(a).last() == s.last());
        assert(s.skip(a).drop_last() == s.drop_last().skip(a));
        if spec_is_whitespace(s.last()) {
            lemma_trailing_of_suffix(s.drop_last(), a);
        }
    }
}

proof fn lemma_trailing_all(s: Seq<char>)
    requires
        forall|i: int| 0 <= i < s.len() ==> spec_is_whitespace(#[trigger] s[i]),
    ensures
        trailing_ws(s) == s.len(),
    decreases s.len(),
{
    if s.len() > 0 {
        assert(spec_is_whitespace(s[s.len() - 1]));
        assert forall|i: int| 0 <= i < s.drop_last().len() implies spec_is_whitespace(
            #[trigger] s.drop_last()[i],
        ) by {
            assert(s.drop_last()[i] == s[i]);
        }
        lemma_trailing_all(s.drop_last());
    }
}

proof fn lemma_trailing_skip_gen(s: Seq<char>, a: int)
    requires
        0 <= a <= s.len(),
        a == leading_ws(s),
    ensures
        s.skip(a).len() > 0 ==> trailing_ws(s.skip(a)) == trailing_ws(s),
        s.skip(a).len() == 0 ==> trailing_ws(s) == s.len(),
{
    lemma_all_ws_prefix(s, a);
    if a < s.len() {
        lemma_trailing_ws_bound(s.skip(a));
        lemma_trailing_of_suffix(s, a);
        // the first character of the rest is not white space, so the rest is not all white space
        if trailing_ws(s.skip(a)) == s.len() - a {
            lemma_trailing_full_means_all(s.skip(a));
            assert(s.skip(a)[0] == s[a]);
        }
    } else {
        lemma_trailing_all(s);
    }
}

proof fn lemma_trailing_full_means_all(s: Seq<char>)
    requires
        s.len() > 0,
        trailing_ws(s) == s.len(),
    ensures
        spec_is_whitespace(s[0]),
    decreases s.len(),
{
    if s.len() == 1 {
    } else {
        assert(spec_is_whitespace(s.last()));
        assert(s.drop_last()[0] == s[0]);
        lemma_trailing_full_means_all(s.drop_last());
    }
}

/// `s` with leading and trailing white space removed.
pub fn trim_chars(s: &[char]) -> (r: Vec<char>)
    ensures
        r@ == spec_trim(s@),
{
    let (a, b) = trim_bounds(s);
    let mut r: Vec<char> = Vec::new();
    let mut i = a;
    while i < b
        invariant
            a <= i <= b <= s.len(),
            r@ == s@.subrange(a as int, i as int),
        decreases b - i,
    {
        r.push(s[i]);
        i = i + 1;
    }
    r
}

/// `s` with leading and trailing white space removed.
pub fn trim(s: &str) -> (r: String)
    ensures
        r@ == spec_trim(s@),
{
    let cs = chars_of(s);
    let t = trim_chars(cs.as_slice());
    string_from_chars(t.as_slice())
}


/// `c` with an ASCII upper-case letter mapped to lower case.
pub open spec fn spec_ascii_lower(c: char) -> char {
    if 'A' <= c && c <= 'Z' {
        ((c as u32) + 32) as char
    } else {
        c
    }
}

/// Lower-cases an ASCII letter and keeps any other character.
pub fn ascii_lower(c: char) -> (r: char)
    ensures
        r == spec_ascii_lower(c),
{
    if 'A' <= c && c <= 'Z' {
        ((c as u8) + 32) as char
    } else {
        c
    }
}

/// `s` with ASCII upper-case letters lowered.
pub open spec fn spec_ascii_lowercase(s: Seq<char>) -> Seq<char> {
    s.map_values(|c: char| spec_ascii_lower(c))
}

/// Lower-cases the ASCII letters of `s` (`str::to_ascii_lowercase`).
pub fn to_ascii_lowercase(s: &str) -> (r: String)
    ensures
        r@ == spec_ascii_lowercase(s@),
{
    let cs = chars_of(s);
    let mut out: Vec<char> = Vec::new();
    let mut i: usize = 0;
    while i < cs.len()
        invariant
            i <= cs.len(),
            cs@ == s@,
            out@ == spec_ascii_lowercase(cs@.take(i as int)),
        decreases cs.len() - i,
    {
        out.push(ascii_lower(cs[i]));
        i = i + 1;
    }
    assert(cs@.take(cs.len() as int) == cs@);
    string_from_chars(out.as_slice())
}

/// Equality of two texts when ASCII letters are compared without case.
pub open spec fn spec_same_name(a: Seq<char>, b: Seq<char>) -> bool {
    a.len() == b.len() && forall|i: int|
        0 <= i < a.len() ==> spec_ascii_lower(#[trigger] a[i]) == spec_ascii_lower(b[i])
}

/// ASCII case-insensitive comparison of two character slices.
pub fn same_name_chars(a: &[char], b: &[char]) -> (r: bool)
    ensures
        r == spec_same_name(a@, b@),
{
    if a.len() != b.len() {
        return false;
    }
    let mut i: usize = 0;
    while i < a.len()
        invariant
            i <= a.len() == b.len(),
            forall|j: int| 0 <= j < i ==> spec_ascii_lower(#[trigger] a@[j]) == spec_ascii_lower(b@[j]),
        decreases a.len() - i,
    {
        if ascii_lower(a[i]) != ascii_lower(b[i]) {
            return false;
        }
        i = i + 1;
    }
    true
}

/// ASCII case-insensitive comparison (`str::eq_ignore_ascii_case`).
pub fn same_name(a: &str, b: &str) -> (r: bool)
    ensures
        r == spec_same_name(a@, b@),
{
    let x = chars_of(a);
    let y = chars_of(b);
    same_name_chars(x.as_slice(), y.as_slice())
}

/// Exact comparison of two texts.
pub fn str_eq(a: &str, b: &str) -> (r: bool)
    ensures
        r == (a@ == b@),
{
    let x = chars_of(a);
    let y = chars_of(b);
    if x.len() != y.len() {
        return false;
    }
    let mut i: usize = 0;
    while i < x.len()
        invariant
            i <= x.len() == y.len(),
            x@ == a@,
            y@ == b@,
            forall|j: int| 0 <= j < i ==> #[trigger] x@[j] == y@[j],
        decreases x.len() - i,
    {
        if x[i] != y[i] {
            return false;
        }
        i = i + 1;
    }
    assert(x@ == y@);
    true
}

/// Decimal digit for `d < 10`.
pub open spec fn digit_char(d: nat) -> char {
    ((d + 48) as u32) as char
}

/// Decimal representation of `n`, without leading zeros.
pub open spec fn spec_decimal(n: nat) -> Seq<char>
    decreases n,
{
    if n < 10 {
        seq![digit_char(n)]
    } else {
        spec_decimal(n / 10).push(digit_char(n % 10))
    }
}

/// Decimal representation of `n` (`u64::to_string`).
pub fn decimal(n: u64) -> (r: String)
    ensures
        r@ == spec_decimal(n as nat),
    decreases n,
{
    let d = (n % 10) as u8;
    let c = (48u8 + d) as char;
    if n < 10 {
        let mut s = String::new();
        push_char(&mut s, c);
        s
    } else {
        let mut s = decimal(n / 10);
        push_char(&mut s, c);
        s
    }
}

/// Space for a line break, other characters kept.
pub open spec fn unbreak_char(c: char) -> Seq<char> {
    if c == '\r' || c == '\n' {
        seq![' ']
    } else {
        seq![c]
    }
}

/// `value` on one line: carriage returns and line feeds become spaces, then it is trimmed.
pub open spec fn spec_compact(value: Seq<char>) -> Seq<char> {
    spec_trim(map_concat(value, |c: char| unbreak_char(c)))
}

/// Puts `value` on one line and trims it.
pub fn compact(value: &str) -> (r: String)
    ensures
        r@ == spec_compact(value@),
{
    let cs = chars_of(value);
    let mut out: Vec<char> = Vec::new();
    let mut i: usize = 0;
    while i < cs.len()
        invariant
            i <= cs.len(),
            cs@ == value@,
            out@ == map_concat(cs@.take(i as int), |c: char| unbreak_char(c)),
        decreases cs.len() - i,
    {
        let c = cs[i];
        if c == '\r' || c == '\n' {
            out.push(' ');
        } else {
            out.push(c);
        }
        assert(cs@.take(i + 1).drop_last() == cs@.take(i as int));
        i = i + 1;
    }
    assert(cs@.take(cs.len() as int) == cs@);
    let t = trim_chars(out.as_slice());
    string_from_chars(t.as_slice())
}


/// The texts of `parts` separated by `sep`.
pub open spec fn spec_join(parts: Seq<Seq<char>>, sep: Seq<char>) -> Seq<char>
    decreases parts.len(),
{
    if parts.len() == 0 {
        Seq::empty()
    } else if parts.len() == 1 {
        parts[0]
    } else {
        spec_join(parts.drop_last(), sep) + sep + parts.last()
    }
}

/// Views of a list of texts.
pub open spec fn strings_view(v: Seq<String>) -> Seq<Seq<char>> {
    v.map_values(|s: String| s@)
}

/// Joins `parts` with `sep` between neighbours (`[String]::join`).
pub fn join(parts: &[String], sep: &str) -> (r: String)
    ensures
        r@ == spec_join(strings_view(parts@), sep@),
{
    let mut out = String::new();
    let mut i: usize = 0;
    while i < parts.len()
        invariant
            i <= parts.len(),
            out@ == spec_join(strings_view(parts@.take(i as int)), sep@),
        decreases parts.len() - i,
    {
        if i > 0 {
            push_str(&mut out, sep);
        }
        push_str(&mut out, parts[i].as_str());
        assert(strings_view(parts@.take(i + 1)).drop_last() == strings_view(parts@.take(i as int)));
        i = i + 1;
    }
    assert(parts@.take(parts.len() as int) == parts@);
    out
}

/// Concatenates two texts.
pub fn cat2(a: &str, b: &str) -> (r: String)
    ensures
        r@ == a@ + b@,
{
    let mut s = String::new();
    push_str(&mut s, a);
    push_str(&mut s, b);
    s
}

/// Concatenates three texts.
pub fn cat3(a: &str, b: &str, c: &str) -> (r: String)
    ensures
        r@ == a@ + b@ + c@,
{
    let mut s = cat2(a, b);
    push_str(&mut s, c);
    s
}

/// Concatenates four texts.
pub fn cat4(a: &str, b: &str, c: &str, d: &str) -> (r: String)
    ensures
        r@ == a@ + b@ + c@ + d@,
{
    let mut s = cat3(a, b, c);
    push_str(&mut s, d);
    s
}

/// Concatenates five texts.
pub fn cat5(a: &str, b: &str, c: &str, d: &str, e: &str) -> (r: String)
    ensures
        r@ == a@ + b@ + c@ + d@ + e@,
{
    let mut s = cat4(a, b, c, d);
    push_str(&mut s, e);
    s
}


/// `r` with `p` put in front of its list, an error kept as it is.
pub open spec fn prepend<T>(p: Seq<T>, r: Result<Seq<T>, Seq<char>>) -> Result<Seq<T>, Seq<char>> {
    match r {
        Ok(x) => Ok(p + x),
        Err(e) => Err(e),
    }
}


/// Putting nothing in front changes nothing.
pub proof fn lemma_prepend_empty<T>(r: Result<Seq<T>, Seq<char>>)
    ensures
        prepend(Seq::<T>::empty(), r) == r,
{
    if let Ok(x) = r {
        assert(Seq::<T>::empty() + x =~= x);
    }
}

/// Putting `p` then `q` in front is putting `p + q` in front.
pub proof fn lemma_prepend_assoc<T>(p: Seq<T>, q: Seq<T>, r: Result<Seq<T>, Seq<char>>)
    ensures
        prepend(p, prepend(q, r)) == prepend(p + q, r),
{
    if let Ok(x) = r {
        assert(p + (q + x) =~= (p + q) + x);
    }
}


/// Number of bytes of `c` in UTF-8.
pub open spec fn spec_utf8_width(c: char) -> nat {
    let u = c as u32;
    if u < 0x80 {
        1
    } else if u < 0x800 {
        2
    } else if u < 0x10000 {
        3
    } else {
        4
    }
}

/// Number of bytes of `s` in UTF-8.
pub open spec fn spec_utf8_len(s: Seq<char>) -> nat
    decreases s.len(),
{
    if s.len() == 0 {
        0
    } else {
        spec_utf8_len(s.drop_last()) + spec_utf8_width(s.last())
    }
}

/// UTF-8 width of one character (`char::len_utf8`).
pub fn utf8_width(c: char) -> (r: usize)
    ensures
        r == spec_utf8_width(c),
{
    let u = c as u32;
    if u < 0x80 {
        1
    } else if u < 0x800 {
        2
    } else if u < 0x10000 {
        3
    } else {
        4
    }
}

proof fn lemma_utf8_len_bound(s: Seq<char>)
    ensures
        spec_utf8_len(s) <= 4 * s.len(),
    decreases s.len(),
{
    if s.len() > 0 {
        lemma_utf8_len_bound(s.drop_last());
    }
}

/// Number of bytes of `s` in UTF-8, saturating at `usize::MAX`.
pub fn utf8_len(s: &str) -> (r: usize)
    ensures
        r == if spec_utf8_len(s@) > usize::MAX {
            usize::MAX as nat
        } else {
            spec_utf8_len(s@)
        },
{
    let cs = chars_of(s);
    let mut n: usize = 0;
    let mut i: usize = 0;
    let mut saturated = false;
    while i < cs.len()
        invariant
            i <= cs.len(),
            cs@ == s@,
            !saturated ==> n == spec_utf8_len(cs@.take(i as int)),
            saturated ==> n == usize::MAX && spec_utf8_len(cs@.take(i as int)) > usize::MAX,
        decreases cs.len() - i,
    {
        assert(cs@.take(i + 1).drop_last() == cs@.take(i as int));
        let w = utf8_width(cs[i]);
        if !saturated {
            if n > usize::MAX - w {
                n = usize::MAX;
                saturated = true;
            } else {
                n = n + w;
            }
        }
        i = i + 1;
    }
    assert(cs@.take(cs.len() as int) == cs@);
    n
}

/// Whether `c` occurs in `s`.
pub fn contains_char(s: &str, c: char) -> (r: bool)
    ensures
        r == s@.contains(c),
{
    let cs = chars_of(s);
    let mut i: usize = 0;
    while i < cs.len()
        invariant
            i <= cs.len(),
            cs@ == s@,
            forall|j: int| 0 <= j < i ==> cs@[j] != c,
        decreases cs.len() - i,
    {
        if cs[i] == c {
            assert(s@[i as int] == c);
            return true;
        }
        i = i + 1;
    }
    false
}


/// Appends the texts of `more` to `out`, in order.
pub fn append_strings(out: &mut Vec<String>, more: Vec<String>)
    ensures
        strings_view(final(out)@) == strings_view(old(out)@) + strings_view(more@),
{
    let mut more = more;
    let ghost m = more@;
    out.append(&mut more);
    assert(strings_view(out@) =~= strings_view(old(out)@) + strings_view(m));
}

/// Whether some text of `v` equals `t`.
pub fn contains_text(v: &[String], t: &str) -> (r: bool)
    ensures
        r == strings_view(v@).contains(t@),
{
    let mut i: usize = 0;
    while i < v.len()
        invariant
            i <= v.len(),
            forall|j: int| 0 <= j < i ==> #[trigger] v@[j]@ != t@,
        decreases v.len() - i,
    {
        if str_eq(v[i].as_str(), t) {
            assert(strings_view(v@)[i as int] == t@);
            return true;
        }
        i = i + 1;
    }
    assert forall|j: int| 0 <= j < strings_view(v@).len() implies strings_view(v@)[j] != t@ by {
        assert(v@[j]@ != t@);
    }
    false
}


/// Distinct numbers have distinct decimal representations.
pub proof fn lemma_decimal_injective(a: nat, b: nat)
    requires
        spec_decimal(a) == spec_decimal(b),
    ensures
        a == b,
    decreases a,
{
    if a >= 10 && b >= 10 {
        assert(spec_decimal(a).last() == digit_char(a % 10));
        assert(spec_decimal(b).last() == digit_char(b % 10));
        assert(spec_decimal(a).drop_last() =~= spec_decimal(a / 10));
        assert(spec_decimal(b).drop_last() =~= spec_decimal(b / 10));
        lemma_decimal_injective(a / 10, b / 10);
        assert(a % 10 == b % 10);
    } else if a < 10 && b < 10 {
        assert(spec_decimal(a)[0] == digit_char(a));
        assert(spec_decimal(b)[0] == digit_char(b));
    } else if a >= 10 {
        assert(spec_decimal(a).len() == spec_decimal(a / 10).len() + 1);
        assert(spec_decimal(a / 10).len() > 0) by {
            reveal_with_fuel(spec_decimal, 2);
            lemma_decimal_nonempty(a / 10);
        }
    } else if b >= 10 {
        assert(spec_decimal(b).len() == spec_decimal(b / 10).len() + 1);
        lemma_decimal_nonempty(b / 10);
    }
}

/// A decimal representation has at least one digit.
pub proof fn lemma_decimal_nonempty(n: nat)
    ensures
        spec_decimal(n).len() > 0,
    decreases n,
{
    if n >= 10 {
        lemma_decimal_nonempty(n / 10);
    }
}


/// Whether `s` begins with the characters of `p`.
pub fn starts_with_chars(s: &[char], p: &str) -> (r: bool)
    ensures
        r == (s@.len() >= p@.len() && s@.take(p@.len() as int) == p@),
{
    let pc = chars_of(p);
    if s.len() < pc.len() {
        return false;
    }
    let mut i: usize = 0;
    while i < pc.len()
        invariant
            i <= pc.len() <= s.len(),
            pc@ == p@,
            forall|j: int| 0 <= j < i ==> s@[j] == #[trigger] pc@[j],
        decreases pc.len() - i,
    {
        if s[i] != pc[i] {
            assert(s@.take(p@.len() as int)[i as int] != p@[i as int]);
            return false;
        }
        i = i + 1;
    }
    assert(s@.take(p@.len() as int) =~= p@);
    true
}


/// Whether `needle` occurs in `hay` as a contiguous run of characters.
pub open spec fn spec_contains_text(hay: Seq<char>, needle: Seq<char>) -> bool {
    exists|i: int| 0 <= i && i + needle.len() <= hay.len() && #[trigger] hay.subrange(i, i + needle.len()) == needle
}

/// Whether `needle` occurs in `hay` (`str::contains`).
pub fn contains_str(hay: &str, needle: &str) -> (r: bool)
    ensures
        r == spec_contains_text(hay@, needle@),
{
    let h = chars_of(hay);
    let n = chars_of(needle);
    if n.len() > h.len() {
        return false;
    }
    let mut i: usize = 0;
    while i <= h.len() - n.len()
        invariant
            h@ == hay@,
            n@ == needle@,
            n.len() <= h.len(),
            i <= h.len() - n.len() + 1,
            forall|k: int| 0 <= k < i ==> #[trigger] h@.subrange(k, k + n@.len()) != n@,
        decreases h.len() - i,
    {
        let mut j: usize = 0;
        let mut same = true;
        while j < n.len()
            invariant
                h@ == hay@,
                n@ == needle@,
                i + n.len() <= h.len(),
                j <= n.len(),
                same == (forall|m: int| 0 <= m < j ==> h@[i + m] == n@[m]),
            decreases n.len() - j,
        {
            if h[i + j] != n[j] {
                same = false;
            }
            j = j + 1;
        }
        if same {
            assert(h@.subrange(i as int, i + n@.len()) =~= n@);
            return true;
        }
        assert(h@.subrange(i as int, i + n@.len()) != n@) by {
            let m = choose|m: int| 0 <= m < n.len() && h@[i + m] != n@[m];
            assert(h@.subrange(i as int, i + n@.len())[m] != n@[m]);
        }
        i = i + 1;
    }
    false
}


/// Text that neither starts nor ends with white space is its own trim.
pub proof fn lemma_trim_no_edge_whitespace(s: Seq<char>)
    requires
        s.len() > 0,
        !spec_is_whitespace(s[0]),
        !spec_is_whitespace(s[s.len() - 1]),
    ensures
        spec_trim(s) == s,
{
    assert(leading_ws(s) == 0);
    assert(s.skip(0) =~= s);
    assert(trailing_ws(s) == 0);
    assert(s.take(s.len() as int) =~= s);
}

} // verus!
