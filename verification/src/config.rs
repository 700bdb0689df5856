//! A plain model of the TOML documents herdr's configuration is written in,
//! and the text preparation applied before parsing. Parsing itself is the
//! `toml` crate's.
use vstd::prelude::*;

use crate::text::{first_index_of, trim_start};

verus! {

/// A TOML value as far as the keybinding lookup reads it.
pub enum TomlValue {
    Str(String),
    Table(Vec<(String, TomlValue)>),
    Array(Vec<TomlValue>),
    /// Integers, floats, booleans and datetimes.
    Other,
}

/// The value of the first entry named `key`.
pub open spec fn toml_lookup(entries: Seq<(String, TomlValue)>, key: Seq<char>) -> Option<TomlValue>
    decreases entries.len(),
{
    if entries.len() == 0 {
        None
    } else if entries[0].0@ == key {
        Some(entries[0].1)
    } else {
        toml_lookup(entries.drop_first(), key)
    }
}

/// What the `toml` crate parses `text` into as a top-level table, as
/// entries in the table's iteration order; `None` when `text` is not TOML.
pub uninterp spec fn toml_parse(text: Seq<char>) -> Option<Vec<(String, TomlValue)>>;

/// Declares `toml::Value` to Verus, opaque.
#[verifier::external_type_specification]
#[verifier::external_body]
pub struct ExTomlValue(toml::Value);

/// Calls `text.parse::<toml::Table>()` and converts the table's entries, in
/// iteration order, into `TomlValue`s. Claims only that the result is a
/// function of the text (`toml_parse`); nothing about which texts parse.
#[verifier::external_body]
pub(crate) fn parse_toml(text: &str) -> (r: Option<Vec<(String, TomlValue)>>)
    ensures
        r == toml_parse(text@),
{
    text.parse::<toml::Table>().ok().map(|t| t.into_iter().map(|(k, v)| (k, toml_of(v))).collect())
}

/// Moves a `toml::Value` into a `TomlValue`, variant by variant. Used only by
/// `parse_toml`.
#[verifier::external_body]
fn toml_of(v: toml::Value) -> TomlValue {
    match v {
        toml::Value::String(s) => TomlValue::Str(s),
        toml::Value::Table(t) => TomlValue::Table(t.into_iter().map(|(k, v)| (k, toml_of(v))).collect()),
        toml::Value::Array(a) => TomlValue::Array(a.into_iter().map(toml_of).collect()),
        _ => TomlValue::Other,
    }
}

/// The member `key` of a table's entries.
pub fn toml_get<'a>(entries: &'a Vec<(String, TomlValue)>, key: &str) -> (r: Option<&'a TomlValue>)
    ensures
        r matches Some(w) ==> toml_lookup(entries@, key@) == Some(*w),
        r is None ==> toml_lookup(entries@, key@) is None,
{
    let ghost all = entries@;
    let mut i: usize = 0;
    assert(all.skip(0) =~= all);
    while i < entries.len()
        invariant
            i <= entries.len(),
            all == entries@,
            toml_lookup(all, key@) == toml_lookup(all.skip(i as int), key@),
        decreases entries.len() - i,
    {
        assert(all.skip(i as int).drop_first() =~= all.skip(i + 1));
        assert(all.skip(i as int)[0] == entries@[i as int]);
        if crate::text::str_eq(entries[i].0.as_str(), key) {
            return Some(&entries[i].1);
        }
        i = i + 1;
    }
    None
}

// ---------------------------------------------------------------------------
// Lines
// ---------------------------------------------------------------------------
/// `l` without one trailing carriage return.
pub open spec fn strip_cr(l: Seq<char>) -> Seq<char> {
    if l.len() > 0 && l.last() == '\r' {
        l.drop_last()
    } else {
        l
    }
}

/// `str::lines`: split at `\n`, drop a `\r` before each `\n`, no empty last
/// line for a trailing newline.
pub open spec fn lines_of(s: Seq<char>) -> Seq<Seq<char>>
    decreases s.len(),
{
    if s.len() == 0 {
        Seq::empty()
    } else {
        match first_index_of(s, '\n') {
            Some(i) => if 0 <= i < s.len() {
                seq![strip_cr(s.take(i))] + lines_of(s.skip(i + 1))
            } else {
                seq![s]
            },
            None => seq![s],
        }
    }
}

/// One line with its leading `#` (after indentation) removed when
/// `uncomment` is set.
pub open spec fn uncomment_line(l: Seq<char>, uncomment: bool) -> Seq<char> {
    let t = trim_start(l);
    if uncomment && t.len() > 0 && t[0] == '#' {
        t.drop_first()
    } else {
        l
    }
}

/// The text rebuilt line by line, each line uncommented when asked and ended
/// with `\n`.
pub open spec fn cleaned_lines(lines: Seq<Seq<char>>, uncomment: bool) -> Seq<char>
    decreases lines.len(),
{
    if lines.len() == 0 {
        Seq::empty()
    } else {
        cleaned_lines(lines.drop_last(), uncomment) + uncomment_line(lines.last(), uncomment) + seq!['\n']
    }
}

proof fn lemma_first_newline_in_range(s: Seq<char>)
    ensures
        first_index_of(s, '\n') matches Some(i) ==> 0 <= i < s.len(),
{
    crate::text::lemma_first_index_of(s, '\n');
}

/// The lines of `s` (`str::lines`).
pub fn lines(s: &[char]) -> (r: Vec<Vec<char>>)
    ensures
        r@.map_values(|l: Vec<char>| l@) == lines_of(s@),
{
    let mut r: Vec<Vec<char>> = Vec::new();
    let mut start: usize = 0;
    assert(s@.skip(0) =~= s@);
    while start < s.len()
        invariant
            start <= s.len(),
            r@.map_values(|l: Vec<char>| l@) + lines_of(s@.skip(start as int)) == lines_of(s@),
        decreases s.len() - start,
    {
        let ghost rest = s@.skip(start as int);
        let mut j: usize = start;
        while j < s.len() && s[j] != '\n'
            invariant
                start <= j <= s.len(),
                forall|k: int| start <= k < j ==> s@[k] != '\n',
            decreases s.len() - j,
        {
            j = j + 1;
        }
        let mut end: usize = j;
        if j < s.len() && end > start && s[end - 1] == '\r' {
            end = end - 1;
        }
        let mut line: Vec<char> = Vec::new();
        let mut k: usize = start;
        while k < end
            invariant
                start <= k <= end <= s.len(),
                line@ == s@.subrange(start as int, k as int),
            decreases end - k,
        {
            line.push(s[k]);
            k = k + 1;
            assert(line@ =~= s@.subrange(start as int, k as int));
        }
        proof {
            lemma_first_newline_in_range(rest);
            if j < s.len() {
                crate::text::lemma_first_index_of_is(rest, '\n', j - start);
                assert(rest.take(j - start) =~= s@.subrange(start as int, j as int));
                assert(rest.skip(j - start + 1) =~= s@.skip(j + 1));
                assert(line@ =~= strip_cr(rest.take(j - start)));
            } else {
                crate::text::lemma_first_index_of_is(rest, '\n', rest.len() as int);
                assert(line@ =~= rest);
                assert(s@.skip(s@.len() as int) =~= Seq::<char>::empty());
            }
        }
        let ghost before = r@.map_values(|l: Vec<char>| l@);
        r.push(line);
        assert(r@.map_values(|l: Vec<char>| l@) =~= before.push(line@));
        if j < s.len() {
            start = j + 1;
            assert(before + lines_of(rest) =~= r@.map_values(|l: Vec<char>| l@) + lines_of(s@.skip(start as int)));
        } else {
            start = s.len();
            assert(before + lines_of(rest) =~= r@.map_values(|l: Vec<char>| l@) + lines_of(s@.skip(start as int)));
        }
    }
    assert(s@.skip(s@.len() as int) =~= Seq::<char>::empty());
    assert(r@.map_values(|l: Vec<char>| l@) + Seq::<Seq<char>>::empty() =~= r@.map_values(|l: Vec<char>| l@));
    r
}

/// The text rebuilt from its lines, uncommenting each when `uncomment` is
/// set (the default configuration ships its keybindings commented out).
pub fn clean_text(text: &str, uncomment: bool) -> (r: String)
    ensures
        r@ == cleaned_lines(lines_of(text@), uncomment),
{
    let v = crate::text::chars_of(text);
    let ls = lines(&v);
    let ghost lv = ls@.map_values(|l: Vec<char>| l@);
    let mut out = String::new();
    let mut i: usize = 0;
    while i < ls.len()
        invariant
            i <= ls.len(),
            lv == ls@.map_values(|l: Vec<char>| l@),
            out@ == cleaned_lines(lv.take(i as int), uncomment),
        decreases ls.len() - i,
    {
        let l = &ls[i];
        let a = crate::text::trim_start_len(l.as_slice());
        let ghost before = out@;
        if uncomment && a < l.len() && l[a] == '#' {
            let mut k: usize = a + 1;
            while k < l.len()
                invariant
                    a + 1 <= k <= l.len(),
                    out@ == before + l@.subrange(a + 1, k as int),
                decreases l.len() - k,
            {
                out.push(l[k]);
                k = k + 1;
                assert(out@ =~= before + l@.subrange(a + 1, k as int));
            }
            assert(l@.skip(a as int).drop_first() =~= l@.subrange(a + 1, l@.len() as int));
        } else {
            let mut k: usize = 0;
            while k < l.len()
                invariant
                    k <= l.len(),
                    out@ == before + l@.take(k as int),
                decreases l.len() - k,
            {
                out.push(l[k]);
                k = k + 1;
                assert(out@ =~= before + l@.take(k as int));
            }
            assert(l@.take(l@.len() as int) =~= l@);
        }
        out.push('\n');
        assert(lv.take(i + 1).drop_last() =~= lv.take(i as int));
        assert(lv.take(i + 1).last() == l@);
        i = i + 1;
    }
    assert(lv.take(ls@.len() as int) =~= lv);
    out
}

} // verus!
