use vstd::prelude::*;

use crate::text::{
    eq_ignore_case, find_first_of2, spec_eq_ci, spec_find2, spec_trim, trim,
};

verus! {

// ---------------------------------------------------------------------------
// The INI grammar
//
// The manifest format is line-based. A line, once trimmed, is blank (kept
// out), a comment (first character `;` or `#`), a section header
// (`[name]`, the name being what stands before the last `]`, trimmed), or a
// key-value pair split at the first `=` or `:`, both sides trimmed. An
// inline comment (`;` or `#` after the content) cuts the line short. A line
// with an empty key, a header without `]`, a pair without a delimiter, and
// a pair before the first header are kept out. Section and key names match
// without regard to ASCII case; of equal keys the last one wins, and equally
// named sections are read as one.
// ---------------------------------------------------------------------------

/// One key-value pair of a section.
#[derive(Debug, PartialEq)]
pub struct IniKv {
    pub key: String,
    pub value: String,
}

/// One section of a manifest: its name and its pairs, in file order.
#[derive(Debug, PartialEq)]
pub struct IniSection {
    pub name: String,
    pub kvs: Vec<IniKv>,
}

/// The mathematical model of a section.
#[verifier::ext_equal]
pub struct SpecSection {
    pub name: Seq<char>,
    pub kvs: Seq<(Seq<char>, Seq<char>)>,
}

/// The model of a parsed pair list.
pub open spec fn spec_kvs_model(kvs: Seq<IniKv>) -> Seq<(Seq<char>, Seq<char>)> {
    kvs.map_values(|kv: IniKv| (kv.key@, kv.value@))
}

/// The model of a parsed section list.
pub open spec fn spec_secs_model(secs: Seq<IniSection>) -> Seq<SpecSection> {
    secs.map_values(|s: IniSection| SpecSection { name: s.name@, kvs: spec_kvs_model(s.kvs@) })
}

/// Index of the last occurrence of `c` strictly before `i`, plus one;
/// zero if there is none.
pub open spec fn spec_rfind(s: Seq<char>, i: nat, c: char) -> nat
    decreases i,
{
    if i == 0 {
        0
    } else if i > s.len() {
        spec_rfind(s, s.len(), c)
    } else if s[i - 1] == c {
        i
    } else {
        spec_rfind(s, (i - 1) as nat, c)
    }
}

/// Splitting a text into its lines at `\n`. A text without a newline is a
/// single line; every newline separates two lines, so a trailing newline
/// yields a final empty line.
pub open spec fn spec_lines(s: Seq<char>) -> Seq<Seq<char>>
    decreases s.len(),
{
    let k = spec_find2(s, 0, '\n', '\n');
    if k >= s.len() {
        seq![s]
    } else {
        seq![s.subrange(0, k as int)] + spec_lines(s.subrange(k + 1 as int, s.len() as int))
    }
}

/// How one line changes the section list read so far.
pub open spec fn spec_step(acc: Seq<SpecSection>, line: Seq<char>) -> Seq<SpecSection> {
    let t0 = spec_trim(line);
    if t0.len() == 0 {
        acc
    } else if t0[0] == ';' || t0[0] == '#' {
        acc
    } else {
        let cut = spec_find2(t0, 0, ';', '#');
        let t = if cut < t0.len() {
            spec_trim(t0.subrange(0, cut as int))
        } else {
            t0
        };
        if t.len() == 0 {
            acc
        } else if t[0] == '[' {
            let close = spec_rfind(t, t.len(), ']');
            if close >= 1 {
                acc.push(
                    SpecSection {
                        name: spec_trim(t.subrange(1, close - 1)),
                        kvs: Seq::empty(),
                    },
                )
            } else {
                acc
            }
        } else {
            let d = spec_find2(t, 0, '=', ':');
            if d < t.len() {
                let key = spec_trim(t.subrange(0, d as int));
                let value = spec_trim(t.subrange(d + 1 as int, t.len() as int));
                if key.len() == 0 || acc.len() == 0 {
                    acc
                } else {
                    let last = acc[acc.len() - 1];
                    acc.update(
                        acc.len() - 1,
                        SpecSection { name: last.name, kvs: last.kvs.push((key, value)) },
                    )
                }
            } else {
                acc
            }
        }
    }
}

/// The model of a whole manifest: its lines folded in order into a
/// section list.
pub open spec fn spec_fold_upto(lines: Seq<Seq<char>>, n: int) -> Seq<SpecSection>
    decreases n,
{
    if n <= 0 {
        Seq::empty()
    } else {
        spec_step(spec_fold_upto(lines, n - 1), lines[n - 1])
    }
}

/// What parsing a manifest text yields.
pub open spec fn spec_parse_ini(text: Seq<char>) -> Seq<SpecSection> {
    spec_fold_upto(spec_lines(text), spec_lines(text).len() as int)
}

/// The value of `key` in the section named `name`, reading equally named
/// sections as one and letting the last binding of a key win; `None` when
/// no matching section binds the key.
pub open spec fn spec_kv_get(kvs: Seq<(Seq<char>, Seq<char>)>, key: Seq<char>) -> Option<
    Seq<char>,
>
    decreases kvs.len(),
{
    if kvs.len() == 0 {
        None
    } else if spec_eq_ci(kvs.last().0, key) {
        Some(kvs.last().1)
    } else {
        spec_kv_get(kvs.drop_last(), key)
    }
}

/// Lookup over a whole section list; see `spec_kv_get`.
pub open spec fn spec_ini_get(
    secs: Seq<SpecSection>,
    name: Seq<char>,
    key: Seq<char>,
) -> Option<Seq<char>>
    decreases secs.len(),
{
    if secs.len() == 0 {
        None
    } else if spec_eq_ci(secs.last().name, name) && spec_kv_get(secs.last().kvs, key) is Some {
        spec_kv_get(secs.last().kvs, key)
    } else {
        spec_ini_get(secs.drop_last(), name, key)
    }
}

proof fn lemma_rfind_props(s: Seq<char>, i: nat, c: char)
    ensures
        spec_rfind(s, i, c) <= s.len(),
        spec_rfind(s, i, c) <= i,
        spec_rfind(s, i, c) >= 1 ==> s[spec_rfind(s, i, c) - 1] == c,
    decreases i,
{
    if i == 0 {
    } else if i > s.len() {
        lemma_rfind_props(s, s.len(), c);
    } else if s[i - 1] == c {
    } else {
        lemma_rfind_props(s, (i - 1) as nat, c);
    }
}

/// Find the last occurrence of `c` in `s`, as index plus one; zero if `c`
/// does not occur.
fn rfind_char(s: &str, c: char) -> (r: usize)
    ensures
        r as nat == spec_rfind(s@, s@.len(), c),
        r <= s@.len(),
{
    let len = s.unicode_len();
    let mut i: usize = len;
    while i > 0
        invariant
            i <= len,
            len == s@.len(),
            spec_rfind(s@, len as nat, c) == spec_rfind(s@, i as nat, c),
        decreases i,
    {
        if s.get_char(i - 1) == c {
            return i;
        }
        i -= 1;
    }
    i
}

/// Split a text into its lines.
fn split_lines<'a>(s: &'a str) -> (r: Vec<&'a str>)
    ensures
        r@.map_values(|l: &str| l@) == spec_lines(s@),
{
    let mut out: Vec<&'a str> = Vec::new();
    let mut rest: &'a str = s;
    loop
        invariant
            out@.map_values(|l: &str| l@) + spec_lines(rest@) == spec_lines(s@),
        decreases rest@.len(),
    {
        let len = rest.unicode_len();
        let k = find_first_of2(rest, '\n', '\n');
        if k >= len {
            out.push(rest);
            proof {
                assert(out@.map_values(|l: &str| l@) =~= spec_lines(s@));
            }
            return out;
        }
        let ghost prev = out@.map_values(|l: &str| l@);
        let ghost prev_rest = rest@;
        out.push(rest.substring_char(0, k));
        rest = rest.substring_char(k + 1, len);
        proof {
            assert(out@.map_values(|l: &str| l@) =~= prev.push(prev_rest.subrange(0, k as int)));
            assert(out@.map_values(|l: &str| l@) + spec_lines(rest@) =~= spec_lines(s@));
        }
    }
}

/// Read one line into the section list.
fn process_line(secs: &mut Vec<IniSection>, line: &str)
    ensures
        spec_secs_model(final(secs)@) == spec_step(spec_secs_model(old(secs)@), line@),
{
    let t0 = trim(line);
    let t0len = t0.unicode_len();
    if t0len == 0 {
        return;
    }
    let c0 = t0.get_char(0);
    if c0 == ';' || c0 == '#' {
        return;
    }
    let cut = find_first_of2(t0, ';', '#');
    let t: &str = if cut < t0len {
        trim(t0.substring_char(0, cut))
    } else {
        t0
    };
    let tlen = t.unicode_len();
    if tlen == 0 {
        return;
    }
    if t.get_char(0) == '[' {
        let close = rfind_char(t, ']');
        if close >= 1 {
            proof {
                lemma_rfind_props(t@, t@.len(), ']');
                // the character at `close - 1` is `]`, so it is not the
                // opening bracket at index zero
                assert(t@[close - 1] == ']');
                assert(close >= 2);
            }
            let name = trim(t.substring_char(1, close - 1)).to_owned();
            let ghost prev = spec_secs_model(secs@);
            secs.push(IniSection { name, kvs: Vec::new() });
            proof {
                assert(spec_secs_model(secs@) =~~= spec_step(prev, line@));
            }
        }
        return;
    }
    let d = find_first_of2(t, '=', ':');
    if d >= tlen {
        return;
    }
    let key = trim(t.substring_char(0, d)).to_owned();
    if key.unicode_len() == 0 {
        return;
    }
    if secs.len() == 0 {
        return;
    }
    let value = trim(t.substring_char(d + 1, tlen)).to_owned();
    let ghost prev = spec_secs_model(secs@);
    let mut sec = secs.pop().unwrap();
    sec.kvs.push(IniKv { key, value });
    secs.push(sec);
    proof {
        assert(spec_secs_model(secs@) =~~= spec_step(prev, line@));
    }
}

/// Parse a manifest text into its sections.
pub fn parse_ini(text: &str) -> (r: Vec<IniSection>)
    ensures
        spec_secs_model(r@) == spec_parse_ini(text@),
{
    let lines = split_lines(text);
    let ghost line_views = lines@.map_values(|l: &str| l@);
    let mut secs: Vec<IniSection> = Vec::new();
    proof {
        assert(spec_secs_model(secs@) =~= spec_fold_upto(line_views, 0));
    }
    let mut i: usize = 0;
    while i < lines.len()
        invariant
            i <= lines.len(),
            line_views == lines@.map_values(|l: &str| l@),
            line_views == spec_lines(text@),
            spec_secs_model(secs@) == spec_fold_upto(line_views, i as int),
        decreases lines.len() - i,
    {
        process_line(&mut secs, lines[i]);
        i += 1;
    }
    proof {
        assert(spec_secs_model(Seq::<IniSection>::empty()) =~= Seq::<SpecSection>::empty());
    }
    secs
}

/// Look a key up in the parsed sections, without regard to ASCII case of
/// the section or key name.
pub fn ini_get<'a>(secs: &'a Vec<IniSection>, name: &str, key: &str) -> (r: Option<&'a String>)
    ensures
        match r {
            Some(v) => spec_ini_get(spec_secs_model(secs@), name@, key@) == Some(v@),
            None => spec_ini_get(spec_secs_model(secs@), name@, key@) is None,
        },
{
    let ghost model = spec_secs_model(secs@);
    proof {
        assert(model.subrange(0, model.len() as int) =~= model);
    }
    let mut i: usize = secs.len();
    while i > 0
        invariant
            i <= secs.len(),
            model == spec_secs_model(secs@),
            spec_ini_get(model, name@, key@) == spec_ini_get(
                model.subrange(0, i as int),
                name@,
                key@,
            ),
        decreases i,
    {
        proof {
            assert(model.subrange(0, i as int).last() == model[i - 1]);
            assert(model.subrange(0, i as int).drop_last() =~= model.subrange(0, i - 1));
        }
        let sec = &secs[i - 1];
        if eq_ignore_case(sec.name.as_str(), name) {
            let got = kv_get(&sec.kvs, key);
            if got.is_some() {
                return got;
            }
        }
        i -= 1;
    }
    None
}

/// Look a key up in one section's pairs, last binding first.
fn kv_get<'a>(kvs: &'a Vec<IniKv>, key: &str) -> (r: Option<&'a String>)
    ensures
        match r {
            Some(v) => spec_kv_get(spec_kvs_model(kvs@), key@) == Some(v@),
            None => spec_kv_get(spec_kvs_model(kvs@), key@) is None,
        },
{
    let ghost model = spec_kvs_model(kvs@);
    proof {
        assert(model.subrange(0, model.len() as int) =~= model);
    }
    let mut i: usize = kvs.len();
    while i > 0
        invariant
            i <= kvs.len(),
            model == spec_kvs_model(kvs@),
            spec_kv_get(model, key@) == spec_kv_get(model.subrange(0, i as int), key@),
        decreases i,
    {
        proof {
            assert(model.subrange(0, i as int).last() == model[i - 1]);
            assert(model.subrange(0, i as int).drop_last() =~= model.subrange(0, i - 1));
        }
        let kv = &kvs[i - 1];
        if eq_ignore_case(kv.key.as_str(), key) {
            return Some(&kv.value);
        }
        i -= 1;
    }
    None
}

} // verus!
