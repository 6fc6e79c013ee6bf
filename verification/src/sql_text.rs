//! Validated SQL pieces: quoted identifiers and raw fragments checked for statement breaks.

use vstd::prelude::*;

use crate::domain::{DriverKind, spec_quote_identifier};
use crate::text::{
    any_control, cat2, chars_of, has_control, join, lemma_prepend_assoc, lemma_prepend_empty, prepend, res_view, spec_join, spec_trim,
    string_from_chars, strings_view, trim_chars,
};

verus! {

/// A trimmed identifier quoted for `driver`; empty or control-character names are refused.
pub open spec fn spec_identifier(driver: DriverKind, value: Seq<char>, label: Seq<char>) -> Result<
    Seq<char>,
    Seq<char>,
> {
    let v = spec_trim(value);
    if v.len() == 0 || has_control(v) {
        Err(label + "为空或包含控制字符，无法生成迁移 SQL"@)
    } else {
        Ok(spec_quote_identifier(driver, v))
    }
}

/// Quotes a trimmed identifier, refusing an empty one or one with control characters.
pub fn identifier(driver: DriverKind, value: &str, label: &str) -> (r: Result<String, String>)
    ensures
        res_view(r) == spec_identifier(driver, value@, label@),
{
    let cs = chars_of(value);
    let t = trim_chars(cs.as_slice());
    if t.len() == 0 || any_control(t.as_slice()) {
        return Err(cat2(label, "为空或包含控制字符，无法生成迁移 SQL"));
    }
    let ts = string_from_chars(t.as_slice());
    Ok(driver.quote_identifier(ts.as_str()))
}

/// Scan of `s` from `i` while inside the quote `quote` (if any): true when an unquoted `;`,
/// `--` or `/*` occurs, or when a quote is left open at the end. A doubled quote character
/// inside a quoted part stands for itself.
pub open spec fn spec_unsafe_scan(s: Seq<char>, i: int, quote: Option<char>) -> bool
    decreases s.len() - i,
{
    if i >= s.len() || i < 0 {
        quote is Some
    } else {
        let c = s[i];
        match quote {
            Some(q) => {
                if c == q {
                    if i + 1 < s.len() && s[i + 1] == q {
                        spec_unsafe_scan(s, i + 2, quote)
                    } else {
                        spec_unsafe_scan(s, i + 1, None)
                    }
                } else {
                    spec_unsafe_scan(s, i + 1, quote)
                }
            },
            None => {
                if c == '\'' || c == '"' || c == '`' {
                    spec_unsafe_scan(s, i + 1, Some(c))
                } else if c == ';' || (c == '-' && i + 1 < s.len() && s[i + 1] == '-') || (c == '/'
                    && i + 1 < s.len() && s[i + 1] == '*') {
                    true
                } else {
                    spec_unsafe_scan(s, i + 1, None)
                }
            },
        }
    }
}

/// Whether `value` holds a statement separator or comment outside quotes, or an unclosed quote.
pub open spec fn spec_contains_unquoted_unsafe_token(value: Seq<char>) -> bool {
    spec_unsafe_scan(value, 0, None)
}

/// Scans `value` for `;`, `--` or `/*` outside quotes, and for an unclosed quote.
pub fn contains_unquoted_unsafe_token(value: &[char]) -> (r: bool)
    ensures
        r == spec_contains_unquoted_unsafe_token(value@),
{
    let mut quote: Option<char> = None;
    let mut i: usize = 0;
    let n = value.len();
    while i < n
        invariant
            i <= n == value.len(),
            spec_unsafe_scan(value@, 0, None) == spec_unsafe_scan(value@, i as int, quote),
        decreases n - i,
    {
        let c = value[i];
        match quote {
            Some(q) => {
                if c == q {
                    if i + 1 < n && value[i + 1] == q {
                        i = i + 2;
                    } else {
                        quote = None;
                        i = i + 1;
                    }
                } else {
                    i = i + 1;
                }
            },
            None => {
                if c == '\'' || c == '"' || c == '`' {
                    quote = Some(c);
                    i = i + 1;
                } else if c == ';' || (c == '-' && i + 1 < n && value[i + 1] == '-') || (c == '/'
                    && i + 1 < n && value[i + 1] == '*') {
                    return true;
                } else {
                    i = i + 1;
                }
            },
        }
    }
    quote.is_some()
}

/// A trimmed raw SQL fragment (type, default, expression) that cannot end the statement early.
pub open spec fn spec_fragment(value: Seq<char>, label: Seq<char>) -> Result<Seq<char>, Seq<char>> {
    let v = spec_trim(value);
    if v.len() == 0 || has_control(v) || spec_contains_unquoted_unsafe_token(v) {
        Err(label + "包含无法安全生成的 SQL 片段"@)
    } else {
        Ok(v)
    }
}

/// Accepts a trimmed raw SQL fragment only when it is non-empty, free of control characters
/// and of unquoted `;`, `--` and `/*`.
pub fn fragment(value: &str, label: &str) -> (r: Result<String, String>)
    ensures
        res_view(r) == spec_fragment(value@, label@),
{
    let cs = chars_of(value);
    let t = trim_chars(cs.as_slice());
    if t.len() == 0 || any_control(t.as_slice()) || contains_unquoted_unsafe_token(t.as_slice()) {
        return Err(cat2(label, "包含无法安全生成的 SQL 片段"));
    }
    Ok(string_from_chars(t.as_slice()))
}

/// Unicode alphabetic-or-numeric property of a character (`char::is_alphanumeric`).
pub uninterp spec fn spec_is_alphanumeric(c: char) -> bool;

/// `char::is_alphanumeric`: whether `c` is alphabetic or numeric in Unicode. The contract
/// names the result and states nothing of which characters have the property.
#[verifier::external_body]
fn is_alphanumeric(c: char) -> (b: bool)
    ensures
        b == spec_is_alphanumeric(c),
{
    c.is_alphanumeric()
}

/// A character allowed in a bare identifier.
pub open spec fn spec_identifier_char(c: char) -> bool {
    spec_is_alphanumeric(c) || c == '_' || c == '$'
}

/// Whether the trimmed `value` is non-empty and made of letters, digits, `_` and `$` only.
pub open spec fn spec_is_simple_identifier(value: Seq<char>) -> bool {
    let v = spec_trim(value);
    v.len() > 0 && forall|i: int| 0 <= i < v.len() ==> spec_identifier_char(#[trigger] v[i])
}

/// Whether `value` is a bare identifier once trimmed.
pub fn is_simple_identifier(value: &str) -> (r: bool)
    ensures
        r == spec_is_simple_identifier(value@),
{
    let cs = chars_of(value);
    let t = trim_chars(cs.as_slice());
    assert(t@ == spec_trim(value@));
    if t.len() == 0 {
        return false;
    }
    let mut i: usize = 0;
    while i < t.len()
        invariant
            i <= t.len(),
            forall|j: int| 0 <= j < i ==> spec_identifier_char(#[trigger] t@[j]),
            t@ == spec_trim(value@),
        decreases t.len() - i,
    {
        let c = t[i];
        if !(is_alphanumeric(c) || c == '_' || c == '$') {
            assert(!spec_identifier_char(t@[i as int]));
            return false;
        }
        i = i + 1;
    }
    true
}

/// Each name of `values` as an identifier, the first refusal winning.
pub open spec fn spec_identifier_parts(
    driver: DriverKind,
    values: Seq<Seq<char>>,
    label: Seq<char>,
) -> Result<Seq<Seq<char>>, Seq<char>>
    decreases values.len(),
{
    if values.len() == 0 {
        Ok(Seq::empty())
    } else {
        match spec_identifier(driver, values[0], label) {
            Err(e) => Err(e),
            Ok(x) => prepend(seq![x], spec_identifier_parts(driver, values.drop_first(), label)),
        }
    }
}

/// The names of `values` quoted and joined with `", "`.
pub open spec fn spec_identifiers(driver: DriverKind, values: Seq<Seq<char>>, label: Seq<char>) -> Result<
    Seq<char>,
    Seq<char>,
> {
    match spec_identifier_parts(driver, values, label) {
        Ok(parts) => Ok(spec_join(parts, ", "@)),
        Err(e) => Err(e),
    }
}

/// Quotes every name and joins them with `", "`.
pub fn identifiers(driver: DriverKind, values: &[String], label: &str) -> (r: Result<String, String>)
    ensures
        res_view(r) == spec_identifiers(driver, strings_view(values@), label@),
{
    let ghost vv = strings_view(values@);
    let mut out: Vec<String> = Vec::new();
    let mut i: usize = 0;
    proof {
        assert(vv.skip(0) == vv);
        assert(strings_view(out@) == Seq::<Seq<char>>::empty());
        lemma_prepend_empty(spec_identifier_parts(driver, vv, label@));
    }
    while i < values.len()
        invariant
            i <= values.len(),
            vv == strings_view(values@),
            spec_identifier_parts(driver, vv, label@) == prepend(
                strings_view(out@),
                spec_identifier_parts(driver, vv.skip(i as int), label@),
            ),
        decreases values.len() - i,
    {
        assert(vv.skip(i as int).drop_first() == vv.skip(i + 1));
        assert(vv.skip(i as int)[0] == values@[i as int]@);
        match identifier(driver, values[i].as_str(), label) {
            Err(e) => {
                return Err(e);
            },
            Ok(x) => {
                let ghost before = strings_view(out@);
                out.push(x);
                assert(strings_view(out@) == before + seq![x@]);
                proof {
                    lemma_prepend_assoc(
                        before,
                        seq![x@],
                        spec_identifier_parts(driver, vv.skip(i + 1), label@),
                    );
                }
            },
        }
        i = i + 1;
    }
    assert(vv.skip(values.len() as int) == Seq::<Seq<char>>::empty());
    assert(strings_view(out@) + Seq::<Seq<char>>::empty() == strings_view(out@));
    Ok(join(out.as_slice(), ", "))
}

/// `schema.table` with both parts quoted.
pub open spec fn spec_qualified_name(driver: DriverKind, schema: Seq<char>, table: Seq<char>) -> Result<
    Seq<char>,
    Seq<char>,
> {
    match spec_identifier(driver, schema, "Schema"@) {
        Err(e) => Err(e),
        Ok(s) => match spec_identifier(driver, table, "表名"@) {
            Err(e) => Err(e),
            Ok(t) => Ok(s + "."@ + t),
        },
    }
}

/// Quotes `schema.table`.
pub fn qualified_name(driver: DriverKind, schema: &str, table: &str) -> (r: Result<String, String>)
    ensures
        res_view(r) == spec_qualified_name(driver, schema@, table@),
{
    let s = identifier(driver, schema, "Schema")?;
    let t = identifier(driver, table, "表名")?;
    let mut out = s;
    crate::text::push_str(&mut out, ".");
    crate::text::push_str(&mut out, t.as_str());
    Ok(out)
}

} // verus!
