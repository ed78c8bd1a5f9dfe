use vstd::prelude::*;

verus! {

// ---------------------------------------------------------------------------
// ASCII case folding
// ---------------------------------------------------------------------------

/// ASCII lower-casing of one character; characters outside `A`..`Z` are kept.
pub open spec fn spec_lower_char(c: char) -> char {
    if 0x41 <= c as u32 && c as u32 <= 0x5a {
        (((c as u32) + 0x20) as u8) as char
    } else {
        c
    }
}

/// ASCII lower-casing of a character sequence.
pub open spec fn spec_lower(s: Seq<char>) -> Seq<char> {
    s.map_values(|c: char| spec_lower_char(c))
}

/// Two sequences are equal up to ASCII case.
pub open spec fn spec_eq_ci(a: Seq<char>, b: Seq<char>) -> bool {
    spec_lower(a) == spec_lower(b)
}

fn lower_char(c: char) -> (r: char)
    ensures
        r == spec_lower_char(c),
{
    let v = c as u32;
    if 0x41 <= v && v <= 0x5a {
        ((v + 0x20) as u8) as char
    } else {
        c
    }
}

/// Case-insensitive (ASCII) equality of two strings.
pub fn eq_ignore_case(a: &str, b: &str) -> (r: bool)
    ensures
        r == spec_eq_ci(a@, b@),
{
    let alen = a.unicode_len();
    let blen = b.unicode_len();
    if alen != blen {
        proof {
            assert(spec_lower(a@).len() != spec_lower(b@).len());
        }
        return false;
    }
    let mut i: usize = 0;
    while i < alen
        invariant
            i <= alen,
            alen == a@.len(),
            alen == b@.len(),
            forall|j: int| 0 <= j < i ==> spec_lower_char(a@[j]) == spec_lower_char(b@[j]),
        decreases alen - i,
    {
        if lower_char(a.get_char(i)) != lower_char(b.get_char(i)) {
            proof {
                assert(spec_lower(a@)[i as int] != spec_lower(b@)[i as int]);
            }
            return false;
        }
        i += 1;
    }
    proof {
        assert(spec_lower(a@) =~= spec_lower(b@));
    }
    true
}

// ---------------------------------------------------------------------------
// Case-insensitive containment (the liveness check's comparison)
// ---------------------------------------------------------------------------

/// `needle` occurs in `hay`, comparing ASCII-case-insensitively.
pub open spec fn spec_contains_ci(hay: Seq<char>, needle: Seq<char>) -> bool {
    exists|k: int|
        0 <= k && k + needle.len() <= hay.len() && spec_eq_ci(
            #[trigger] hay.subrange(k, k + needle.len() as int),
            needle,
        )
}

fn matches_at(hay: &str, needle: &str, k: usize) -> (r: bool)
    requires
        k + needle@.len() <= hay@.len(),
        hay@.len() <= usize::MAX,
    ensures
        r == spec_eq_ci(hay@.subrange(k as int, k as int + needle@.len() as int), needle@),
{
    let nlen = needle.unicode_len();
    let ghost sub = hay@.subrange(k as int, k as int + needle@.len() as int);
    let mut j: usize = 0;
    while j < nlen
        invariant
            j <= nlen,
            nlen == needle@.len(),
            k + nlen <= hay@.len(),
            hay@.len() <= usize::MAX,
            sub == hay@.subrange(k as int, k as int + needle@.len() as int),
            forall|m: int| 0 <= m < j ==> spec_lower_char(sub[m]) == spec_lower_char(needle@[m]),
        decreases nlen - j,
    {
        if lower_char(hay.get_char(k + j)) != lower_char(needle.get_char(j)) {
            proof {
                assert(sub[j as int] == hay@[k + j]);
                assert(spec_lower(sub)[j as int] != spec_lower(needle@)[j as int]);
            }
            return false;
        }
        j += 1;
    }
    proof {
        assert(spec_lower(sub) =~= spec_lower(needle@));
    }
    true
}

/// Whether `needle` occurs anywhere in `hay`, ignoring ASCII case.
pub fn contains_ci(hay: &str, needle: &str) -> (r: bool)
    ensures
        r == spec_contains_ci(hay@, needle@),
{
    let hlen = hay.unicode_len();
    let nlen = needle.unicode_len();
    if nlen > hlen {
        return false;
    }
    if nlen == 0 {
        proof {
            assert(hay@.subrange(0, 0) =~= needle@);
            assert(spec_eq_ci(hay@.subrange(0, 0 + needle@.len() as int), needle@));
        }
        return true;
    }
    let mut k: usize = 0;
    while k <= hlen - nlen
        invariant
            1 <= nlen <= hlen,
            hlen == hay@.len(),
            nlen == needle@.len(),
            k <= hlen - nlen + 1,
            forall|m: int|
                0 <= m < k ==> !spec_eq_ci(
                    #[trigger] hay@.subrange(m, m + needle@.len() as int),
                    needle@,
                ),
        decreases hlen + 1 - k,
    {
        if matches_at(hay, needle, k) {
            return true;
        }
        k += 1;
    }
    false
}

// ---------------------------------------------------------------------------
// Whitespace, trimming
// ---------------------------------------------------------------------------

/// The whitespace this format cares about: spaces, tabs, and the carriage
/// return left at a line's end by CRLF endings.
pub open spec fn spec_is_ws(c: char) -> bool {
    c == ' ' || c == '\t' || c == '\r'
}

fn is_ws(c: char) -> (r: bool)
    ensures
        r == spec_is_ws(c),
{
    c == ' ' || c == '\t' || c == '\r'
}

/// Index of the first non-whitespace character at or after `i`; the length
/// if there is none.
pub open spec fn spec_skip_ws(s: Seq<char>, i: nat) -> nat
    decreases s.len() - i,
{
    if i >= s.len() {
        s.len()
    } else if spec_is_ws(s[i as int]) {
        spec_skip_ws(s, i + 1)
    } else {
        i
    }
}

/// One past the last non-whitespace character strictly before `i`; zero if
/// there is none.
pub open spec fn spec_rskip_ws(s: Seq<char>, i: nat) -> nat
    decreases i,
{
    if i == 0 {
        0
    } else if i > s.len() {
        spec_rskip_ws(s, s.len())
    } else if spec_is_ws(s[i - 1]) {
        spec_rskip_ws(s, (i - 1) as nat)
    } else {
        i
    }
}

proof fn lemma_rskip_all_ws(s: Seq<char>, i: nat)
    requires
        i <= s.len(),
        forall|j: int| 0 <= j < i ==> spec_is_ws(s[j]),
    ensures
        spec_rskip_ws(s, i) == 0,
    decreases i,
{
    if i > 0 {
        lemma_rskip_all_ws(s, (i - 1) as nat);
    }
}

/// `s` with leading and trailing whitespace removed.
pub open spec fn spec_trim(s: Seq<char>) -> Seq<char> {
    let a = spec_skip_ws(s, 0);
    let b = spec_rskip_ws(s, s.len());
    if a < b {
        s.subrange(a as int, b as int)
    } else {
        Seq::empty()
    }
}

/// Trim ASCII-style whitespace from both ends of a string.
pub fn trim<'a>(s: &'a str) -> (r: &'a str)
    ensures
        r@ == spec_trim(s@),
{
    let len = s.unicode_len();
    let mut a: usize = 0;
    while a < len && is_ws(s.get_char(a))
        invariant
            a <= len,
            len == s@.len(),
            spec_skip_ws(s@, 0) == spec_skip_ws(s@, a as nat),
            forall|j: int| 0 <= j < a ==> spec_is_ws(s@[j]),
        decreases len - a,
    {
        a += 1;
    }
    let mut b: usize = len;
    while b > a && is_ws(s.get_char(b - 1))
        invariant
            a <= b <= len,
            len == s@.len(),
            spec_skip_ws(s@, 0) == a,
            spec_rskip_ws(s@, s@.len()) == spec_rskip_ws(s@, b as nat),
        decreases b,
    {
        b -= 1;
    }
    proof {
        if b == a {
            // everything before `a` is whitespace, so the trimmed view is empty
            lemma_rskip_all_ws(s@, a as nat);
        } else {
            assert(!spec_is_ws(s@[b - 1]));
            assert(spec_rskip_ws(s@, b as nat) == b);
        }
    }
    if a < b {
        s.substring_char(a, b)
    } else {
        let r = s.substring_char(a, a);
        proof {
            assert(r@ =~= Seq::<char>::empty());
        }
        r
    }
}

// ---------------------------------------------------------------------------
// Finding characters
// ---------------------------------------------------------------------------

/// Index of the first occurrence of `c1` or `c2` at or after `i`; the
/// length if neither occurs.
pub open spec fn spec_find2(s: Seq<char>, i: nat, c1: char, c2: char) -> nat
    decreases s.len() - i,
{
    if i >= s.len() {
        s.len()
    } else if s[i as int] == c1 || s[i as int] == c2 {
        i
    } else {
        spec_find2(s, i + 1, c1, c2)
    }
}

/// Find the first occurrence of `c1` or `c2` in `s`; returns the length if
/// neither occurs.
pub fn find_first_of2(s: &str, c1: char, c2: char) -> (r: usize)
    ensures
        r as nat == spec_find2(s@, 0, c1, c2),
        r <= s@.len(),
{
    let len = s.unicode_len();
    let mut i: usize = 0;
    while i < len
        invariant
            i <= len,
            len == s@.len(),
            spec_find2(s@, 0, c1, c2) == spec_find2(s@, i as nat, c1, c2),
        decreases len - i,
    {
        let c = s.get_char(i);
        if c == c1 || c == c2 {
            return i;
        }
        i += 1;
    }
    i
}

// ---------------------------------------------------------------------------
// Decimal rendering of an integer (section names `Profile0`, `Profile1`, ...)
// ---------------------------------------------------------------------------

/// The character for one decimal digit.
pub open spec fn spec_digit_char(d: nat) -> char {
    let m = d % 10;
    if m == 0 {
        '0'
    } else if m == 1 {
        '1'
    } else if m == 2 {
        '2'
    } else if m == 3 {
        '3'
    } else if m == 4 {
        '4'
    } else if m == 5 {
        '5'
    } else if m == 6 {
        '6'
    } else if m == 7 {
        '7'
    } else if m == 8 {
        '8'
    } else {
        '9'
    }
}

/// The canonical decimal rendering of `n` (no leading zeros).
pub open spec fn spec_dec(n: nat) -> Seq<char>
    decreases n,
{
    if n < 10 {
        seq![spec_digit_char(n)]
    } else {
        spec_dec(n / 10) + seq![spec_digit_char(n % 10)]
    }
}

fn digit_str(d: u64) -> (r: &'static str)
    requires
        d < 10,
    ensures
        r@ =~= seq![spec_digit_char(d as nat)],
{
    let r: &'static str = if d == 0 {
        "0"
    } else if d == 1 {
        "1"
    } else if d == 2 {
        "2"
    } else if d == 3 {
        "3"
    } else if d == 4 {
        "4"
    } else if d == 5 {
        "5"
    } else if d == 6 {
        "6"
    } else if d == 7 {
        "7"
    } else if d == 8 {
        "8"
    } else {
        "9"
    };
    proof {
        reveal_strlit("0");
        reveal_strlit("1");
        reveal_strlit("2");
        reveal_strlit("3");
        reveal_strlit("4");
        reveal_strlit("5");
        reveal_strlit("6");
        reveal_strlit("7");
        reveal_strlit("8");
        reveal_strlit("9");
    }
    r
}

/// Render `n` in decimal.
pub fn u64_to_dec(n: u64) -> (r: String)
    ensures
        r@ == spec_dec(n as nat),
    decreases n,
{
    if n < 10 {
        let r = digit_str(n).to_owned();
        proof {
            assert(r@ =~= spec_dec(n as nat));
        }
        r
    } else {
        let mut s = u64_to_dec(n / 10);
        s.append(digit_str(n % 10));
        proof {
            assert(s@ =~= spec_dec(n as nat));
        }
        s
    }
}

proof fn lemma_dec_len(n: nat)
    ensures
        spec_dec(n).len() >= 1,
        n < 10 <==> spec_dec(n).len() == 1,
    decreases n,
{
    if n >= 10 {
        lemma_dec_len(n / 10);
    }
}

/// Lower-casing does not move a decimal rendering: digits have no case.
proof fn lemma_lower_dec(n: nat)
    ensures
        spec_lower(spec_dec(n)) == spec_dec(n),
    decreases n,
{
    if n < 10 {
        assert(spec_lower(spec_dec(n)) =~= spec_dec(n));
    } else {
        lemma_lower_dec(n / 10);
        assert(spec_lower(spec_dec(n)) =~= spec_dec(n));
    }
}

proof fn lemma_digit_char_injective(d1: nat, d2: nat)
    requires
        d1 < 10,
        d2 < 10,
        spec_digit_char(d1) == spec_digit_char(d2),
    ensures
        d1 == d2,
{
    assert(d1 % 10 == d1);
    assert(d2 % 10 == d2);
}

/// Two numbers with the same decimal rendering are the same number.
proof fn lemma_dec_injective(a: nat, b: nat)
    requires
        spec_dec(a) == spec_dec(b),
    ensures
        a == b,
    decreases a,
{
    lemma_dec_len(a);
    lemma_dec_len(b);
    if a < 10 && b < 10 {
        assert(spec_dec(a)[0] == spec_digit_char(a));
        assert(spec_dec(b)[0] == spec_digit_char(b));
        lemma_digit_char_injective(a, b);
    } else if a >= 10 && b >= 10 {
        assert(spec_dec(a).last() == spec_digit_char(a % 10));
        assert(spec_dec(b).last() == spec_digit_char(b % 10));
        lemma_digit_char_injective(a % 10, b % 10);
        assert(spec_dec(a).drop_last() =~= spec_dec(a / 10));
        assert(spec_dec(b).drop_last() =~= spec_dec(b / 10));
        lemma_dec_injective(a / 10, b / 10);
    }
    // mixed lengths are ruled out by `lemma_dec_len`
}

/// Lower-casing distributes over concatenation.
proof fn lemma_lower_distributes(a: Seq<char>, b: Seq<char>)
    ensures
        spec_lower(a + b) == spec_lower(a) + spec_lower(b),
{
    assert(spec_lower(a + b) =~= spec_lower(a) + spec_lower(b));
}

/// Two decimal suffixes on one prefix match case-insensitively only for
/// the same number.
pub proof fn lemma_prefixed_dec_injective(p: Seq<char>, n1: nat, n2: nat)
    requires
        spec_eq_ci(p + spec_dec(n1), p + spec_dec(n2)),
    ensures
        n1 == n2,
{
    lemma_lower_distributes(p, spec_dec(n1));
    lemma_lower_distributes(p, spec_dec(n2));
    lemma_lower_dec(n1);
    lemma_lower_dec(n2);
    let l = spec_lower(p);
    assert((l + spec_dec(n1)).len() == (l + spec_dec(n2)).len());
    assert(spec_dec(n1) =~= (l + spec_dec(n1)).subrange(
        l.len() as int,
        (l + spec_dec(n1)).len() as int,
    ));
    assert(spec_dec(n2) =~= (l + spec_dec(n2)).subrange(
        l.len() as int,
        (l + spec_dec(n2)).len() as int,
    ));
    lemma_dec_injective(n1, n2);
}

// ---------------------------------------------------------------------------
// Path joining
// ---------------------------------------------------------------------------

/// Resolve `rel` against `root`: an absolute `rel` stands alone, an empty
/// `root` adds nothing, and otherwise `rel` is appended to `root` with a
/// single separator between them.
pub open spec fn spec_join_path(root: Seq<char>, rel: Seq<char>) -> Seq<char> {
    if rel.len() > 0 && rel[0] == '/' {
        rel
    } else if root.len() == 0 {
        rel
    } else if root[root.len() - 1] == '/' {
        root + rel
    } else {
        root + seq!['/'] + rel
    }
}

/// Join a relative path onto a root directory.
pub fn join_path(root: &str, rel: &str) -> (r: String)
    ensures
        r@ == spec_join_path(root@, rel@),
{
    let rlen = rel.unicode_len();
    if rlen > 0 && rel.get_char(0) == '/' {
        return rel.to_owned();
    }
    let rootlen = root.unicode_len();
    if rootlen == 0 {
        return rel.to_owned();
    }
    let mut s = root.to_owned();
    if !(root.get_char(rootlen - 1) == '/') {
        s.append("/");
        proof {
            reveal_strlit("/");
            assert(s@ =~= root@ + seq!['/']);
        }
    }
    s.append(rel);
    proof {
        assert(s@ =~= spec_join_path(root@, rel@));
    }
    s
}

} // verus!
