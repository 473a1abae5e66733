//! Verified text utilities: substring search, prefix tests, path component
//! extraction and lexicographic comparison, all specified over `Seq<char>`.

use vstd::prelude::*;

verus! {

/// `pat` occurs in `s` at position `i`.
pub open spec fn matches_at(s: Seq<char>, pat: Seq<char>, i: int) -> bool {
    0 <= i && i + pat.len() <= s.len() && s.subrange(i, i + pat.len() as int) == pat
}

/// `pat` occurs somewhere in `s`.
pub open spec fn contains_seq(s: Seq<char>, pat: Seq<char>) -> bool {
    exists|i: int| matches_at(s, pat, i)
}

/// The index of the last occurrence of `c` in `s`, if any.
pub open spec fn rfind_char(s: Seq<char>, c: char) -> Option<int>
    decreases s.len(),
{
    if s.len() == 0 {
        None
    } else if s.last() == c {
        Some(s.len() - 1)
    } else {
        rfind_char(s.drop_last(), c)
    }
}

pub proof fn lemma_rfind_char(s: Seq<char>, c: char)
    ensures
        match rfind_char(s, c) {
            Some(i) => 0 <= i < s.len() && s[i] == c && (forall|j: int|
                i < j < s.len() ==> s[j] != c),
            None => forall|j: int| 0 <= j < s.len() ==> s[j] != c,
        },
    decreases s.len(),
{
    if s.len() > 0 && s.last() != c {
        lemma_rfind_char(s.drop_last(), c);
        assert forall|j: int| 0 <= j < s.len() - 1 implies s.drop_last()[j] == s[j] by {}
    }
}

/// The final component of a path: the text after the last `/`, or the whole
/// path when it has no `/`.
pub open spec fn file_name_spec(p: Seq<char>) -> Seq<char> {
    match rfind_char(p, '/') {
        Some(i) => p.subrange(i + 1, p.len() as int),
        None => p,
    }
}

/// The extension of a file name: the text after its last `.`, unless the
/// name starts with that `.` or has none.
pub open spec fn ext_of_name(name: Seq<char>) -> Option<Seq<char>> {
    match rfind_char(name, '.') {
        Some(i) => if i > 0 {
            Some(name.subrange(i + 1, name.len() as int))
        } else {
            None
        },
        None => None,
    }
}

/// The extension of a path's final component.
pub open spec fn ext_of_path(p: Seq<char>) -> Option<Seq<char>> {
    ext_of_name(file_name_spec(p))
}

/// `a` and `b` are equal up to ASCII letter case.
pub open spec fn chars_eqi(x: char, y: char) -> bool {
    ||| x == y
    ||| (65 <= x as u32 <= 90 && y as u32 == x as u32 + 32)
    ||| (65 <= y as u32 <= 90 && x as u32 == y as u32 + 32)
}

pub open spec fn seq_eqi(a: Seq<char>, b: Seq<char>) -> bool {
    a.len() == b.len() && forall|i: int| 0 <= i < a.len() ==> chars_eqi(a[i], b[i])
}

/// Strict lexicographic order on character sequences, by code point, with a
/// proper prefix ordered first.
pub open spec fn lex_lt(a: Seq<char>, b: Seq<char>) -> bool
    decreases a.len(),
{
    if b.len() == 0 {
        false
    } else if a.len() == 0 {
        true
    } else if a[0] != b[0] {
        (a[0] as u32) < (b[0] as u32)
    } else {
        lex_lt(a.skip(1), b.skip(1))
    }
}

pub open spec fn lex_le(a: Seq<char>, b: Seq<char>) -> bool {
    lex_lt(a, b) || a == b
}

/// Distinct characters have distinct code points.
pub proof fn lemma_char_cast_injective(x: char, y: char)
    ensures
        x != y ==> x as u32 != y as u32,
{
    vstd::utf8::char_u32_cast(x, x as u32);
    vstd::utf8::char_u32_cast(y, y as u32);
}

/// Exactly one of `a < b`, `a == b`, `b < a` holds.
pub proof fn lemma_lex_trichotomy(a: Seq<char>, b: Seq<char>)
    ensures
        lex_lt(a, b) || a == b || lex_lt(b, a),
        lex_lt(a, b) ==> a != b && !lex_lt(b, a),
        a == b ==> !lex_lt(a, b) && !lex_lt(b, a),
    decreases a.len() + b.len(),
{
    if a.len() == 0 && b.len() == 0 {
        assert(a =~= b);
    } else if a.len() > 0 && b.len() > 0 {
        lemma_char_cast_injective(a[0], b[0]);
        lemma_lex_trichotomy(a.skip(1), b.skip(1));
        if a[0] == b[0] && a.skip(1) == b.skip(1) {
            assert forall|j: int| 0 <= j < a.len() implies a[j] == b[j] by {
                if j > 0 {
                    assert(a[j] == a.skip(1)[j - 1]);
                    assert(b[j] == b.skip(1)[j - 1]);
                }
            }
            assert(a =~= b);
        }
        if a == b {
            assert(a.skip(1) =~= b.skip(1));
        }
    }
}

pub proof fn lemma_lex_transitive(a: Seq<char>, b: Seq<char>, c: Seq<char>)
    requires
        lex_lt(a, b),
        lex_lt(b, c),
    ensures
        lex_lt(a, c),
    decreases a.len() + b.len() + c.len(),
{
    if a.len() > 0 && b.len() > 0 && c.len() > 0 {
        if a[0] == b[0] && b[0] == c[0] {
            lemma_lex_transitive(a.skip(1), b.skip(1), c.skip(1));
        }
    }
}

/// Equal prefixes of length `i` and a smaller character at `i` give `lex_lt`.
pub proof fn lemma_lex_lt_at(a: Seq<char>, b: Seq<char>, i: int)
    requires
        0 <= i < a.len(),
        i < b.len(),
        a.subrange(0, i) == b.subrange(0, i),
        (a[i] as u32) < (b[i] as u32),
    ensures
        lex_lt(a, b),
    decreases i,
{
    if i == 0 {
    } else {
        assert(a[0] == b[0]) by {
            assert(a.subrange(0, i)[0] == a[0]);
            assert(b.subrange(0, i)[0] == b[0]);
        }
        assert forall|j: int| 1 <= j < i implies a[j] == b[j] by {
            assert(a.subrange(0, i)[j] == a[j]);
            assert(b.subrange(0, i)[j] == b[j]);
        }
        assert(a.skip(1).subrange(0, i - 1) =~= b.skip(1).subrange(0, i - 1));
        assert(a.skip(1)[i - 1] == a[i]);
        assert(b.skip(1)[i - 1] == b[i]);
        lemma_lex_lt_at(a.skip(1), b.skip(1), i - 1);
    }
}

/// A proper prefix is lexicographically first.
pub proof fn lemma_lex_lt_prefix(a: Seq<char>, b: Seq<char>)
    requires
        a.len() < b.len(),
        a == b.subrange(0, a.len() as int),
    ensures
        lex_lt(a, b),
    decreases a.len(),
{
    if a.len() > 0 {
        assert(a[0] == b.subrange(0, a.len() as int)[0]);
        assert(a.skip(1) =~= b.skip(1).subrange(0, a.len() - 1)) by {
            assert forall|j: int| 0 <= j < a.len() - 1 implies a.skip(1)[j] == b.skip(1).subrange(
                0,
                a.len() - 1,
            )[j] by {
                assert(a[j + 1] == b.subrange(0, a.len() as int)[j + 1]);
            }
        }
        lemma_lex_lt_prefix(a.skip(1), b.skip(1));
    }
}

/// Three-way lexicographic comparison of two character vectors.
pub fn cmp_chars_lex(a: &Vec<char>, b: &Vec<char>) -> (r: i8)
    ensures
        -1 <= r <= 1,
        r == -1 ==> lex_lt(a@, b@),
        r == 0 ==> a@ == b@,
        r == 1 ==> lex_lt(b@, a@),
{
    let n = if a.len() < b.len() {
        a.len()
    } else {
        b.len()
    };
    let mut i: usize = 0;
    while i < n
        invariant
            i <= n,
            n <= a@.len(),
            n <= b@.len(),
            n == if a@.len() < b@.len() {
                a@.len() as int
            } else {
                b@.len() as int
            },
            a@.subrange(0, i as int) == b@.subrange(0, i as int),
        decreases n - i,
    {
        let x = a[i];
        let y = b[i];
        if (x as u32) < (y as u32) {
            proof {
                lemma_char_cast_injective(x, y);
                lemma_lex_lt_at(a@, b@, i as int);
            }
            return -1;
        }
        if (y as u32) < (x as u32) {
            proof {
                lemma_char_cast_injective(x, y);
                lemma_lex_lt_at(b@, a@, i as int);
            }
            return 1;
        }
        proof {
            lemma_char_cast_injective(x, y);
            assert(x == y);
            assert(a@.subrange(0, i + 1) =~= b@.subrange(0, i + 1));
        }
        i += 1;
    }
    if a.len() < b.len() {
        proof {
            assert(a@ =~= b@.subrange(0, a@.len() as int));
            lemma_lex_lt_prefix(a@, b@);
        }
        return -1;
    }
    if b.len() < a.len() {
        proof {
            assert(b@ =~= a@.subrange(0, b@.len() as int));
            lemma_lex_lt_prefix(b@, a@);
        }
        return 1;
    }
    proof {
        assert forall|j: int| 0 <= j < a@.len() implies a@[j] == b@[j] by {
            assert(a@.subrange(0, n as int)[j] == a@[j]);
            assert(b@.subrange(0, n as int)[j] == b@[j]);
        }
        assert(a@ =~= b@);
    }
    0
}

/// Copies the characters of a string into a vector.
pub fn str_to_chars(s: &str) -> (v: Vec<char>)
    ensures
        v@ == s@,
{
    let n = s.unicode_len();
    let mut v: Vec<char> = Vec::new();
    let mut i: usize = 0;
    while i < n
        invariant
            i <= n,
            n == s@.len(),
            v@ == s@.subrange(0, i as int),
        decreases n - i,
    {
        v.push(s.get_char(i));
        proof {
            assert(v@ =~= s@.subrange(0, i + 1));
        }
        i += 1;
    }
    proof {
        assert(v@ =~= s@);
    }
    v
}

/// Two strings hold the same characters.
pub fn str_eq(a: &str, b: &str) -> (r: bool)
    ensures
        r == (a@ == b@),
{
    let na = a.unicode_len();
    let nb = b.unicode_len();
    if na != nb {
        proof {
            assert(a@ != b@);
        }
        return false;
    }
    let mut i: usize = 0;
    while i < na
        invariant
            i <= na,
            na == a@.len(),
            na == b@.len(),
            a@.subrange(0, i as int) == b@.subrange(0, i as int),
        decreases na - i,
    {
        if a.get_char(i) != b.get_char(i) {
            proof {
                assert(a@[i as int] != b@[i as int]);
            }
            return false;
        }
        proof {
            assert(a@.subrange(0, i + 1) =~= b@.subrange(0, i + 1));
        }
        i += 1;
    }
    proof {
        assert(a@ =~= a@.subrange(0, na as int));
        assert(b@ =~= b@.subrange(0, na as int));
    }
    true
}

/// A vector of characters equals the characters of a string.
pub fn chars_eq_str(v: &Vec<char>, s: &str) -> (r: bool)
    ensures
        r == (v@ == s@),
{
    let n = s.unicode_len();
    if v.len() != n {
        proof {
            assert(v@ != s@);
        }
        return false;
    }
    let mut i: usize = 0;
    while i < n
        invariant
            i <= n,
            n == s@.len(),
            n == v@.len(),
            v@.subrange(0, i as int) == s@.subrange(0, i as int),
        decreases n - i,
    {
        if v[i] != s.get_char(i) {
            proof {
                assert(v@[i as int] != s@[i as int]);
            }
            return false;
        }
        proof {
            assert(v@.subrange(0, i + 1) =~= s@.subrange(0, i + 1));
        }
        i += 1;
    }
    proof {
        assert(v@ =~= v@.subrange(0, n as int));
        assert(s@ =~= s@.subrange(0, n as int));
    }
    true
}

/// A vector of characters equals the characters of a string up to ASCII case.
pub fn chars_eqi_str(v: &Vec<char>, s: &str) -> (r: bool)
    ensures
        r == seq_eqi(v@, s@),
{
    let n = s.unicode_len();
    if v.len() != n {
        return false;
    }
    let mut i: usize = 0;
    while i < n
        invariant
            i <= n,
            n == s@.len(),
            n == v@.len(),
            forall|j: int| 0 <= j < i ==> chars_eqi(v@[j], s@[j]),
        decreases n - i,
    {
        let x = v[i];
        let y = s.get_char(i);
        let xi = x as u32;
        let yi = y as u32;
        let eq = x == y || ('A' as u32 <= xi && xi <= 'Z' as u32 && yi == xi + 32) || ('A' as u32
            <= yi && yi <= 'Z' as u32 && xi == yi + 32);
        proof {
            assert(eq == chars_eqi(v@[i as int], s@[i as int]));
        }
        if !eq {
            return false;
        }
        i += 1;
    }
    true
}

/// `pat` occurs in `v` at position `i`.
pub fn match_at(v: &Vec<char>, pat: &Vec<char>, i: usize) -> (r: bool)
    ensures
        r == matches_at(v@, pat@, i as int),
{
    if pat.len() > v.len() || i > v.len() - pat.len() {
        return false;
    }
    let mut k: usize = 0;
    while k < pat.len()
        invariant
            k <= pat.len(),
            i + pat.len() <= v.len(),
            v@.subrange(i as int, i + k) == pat@.subrange(0, k as int),
        decreases pat.len() - k,
    {
        if v[i + k] != pat[k] {
            proof {
                assert(v@.subrange(i as int, i + pat@.len())[k as int] == v@[i + k]);
                assert(pat@[k as int] != v@[i + k]);
            }
            return false;
        }
        proof {
            assert(v@.subrange(i as int, i + k + 1) =~= pat@.subrange(0, k + 1));
        }
        k += 1;
    }
    proof {
        assert(v@.subrange(i as int, i + pat@.len()) =~= pat@.subrange(0, pat@.len() as int));
        assert(pat@.subrange(0, pat@.len() as int) =~= pat@);
    }
    true
}

/// The first occurrence of `pat` in `v` at or after `from`, if any.
pub fn find_sub_from(v: &Vec<char>, pat: &Vec<char>, from: usize) -> (r: Option<usize>)
    ensures
        match r {
            Some(i) => from <= i && matches_at(v@, pat@, i as int) && (forall|j: int|
                from <= j < i ==> !matches_at(v@, pat@, j)),
            None => forall|j: int| from <= j ==> !matches_at(v@, pat@, j),
        },
{
    if pat.len() > v.len() {
        proof {
            assert forall|j: int| from <= j implies !matches_at(v@, pat@, j) by {}
        }
        return None;
    }
    let last = v.len() - pat.len();
    if from > last {
        proof {
            assert forall|j: int| from <= j implies !matches_at(v@, pat@, j) by {}
        }
        return None;
    }
    let mut i: usize = from;
    while i < last
        invariant
            from <= i <= last,
            last == v@.len() - pat@.len(),
            forall|j: int| from <= j < i ==> !matches_at(v@, pat@, j),
        decreases last - i,
    {
        if match_at(v, pat, i) {
            return Some(i);
        }
        i += 1;
    }
    if match_at(v, pat, last) {
        return Some(last);
    }
    proof {
        assert forall|j: int| from <= j implies !matches_at(v@, pat@, j) by {
            if j < last {
            } else if j == last {
            } else {
                assert(j + pat@.len() > v@.len());
            }
        }
    }
    None
}

/// Whether `pat` occurs anywhere in `v`.
pub fn contains_sub(v: &Vec<char>, pat: &Vec<char>) -> (r: bool)
    ensures
        r == contains_seq(v@, pat@),
{
    match find_sub_from(v, pat, 0) {
        Some(i) => {
            proof {
                assert(matches_at(v@, pat@, i as int));
            }
            true
        },
        None => {
            proof {
                assert forall|j: int| !matches_at(v@, pat@, j) by {
                    if j >= 0 {
                    } else {
                    }
                }
            }
            false
        },
    }
}

/// Whether the characters of `pre` are a prefix of `v`.
pub fn starts_with_chars(v: &Vec<char>, pre: &Vec<char>) -> (r: bool)
    ensures
        r == pre@.is_prefix_of(v@),
{
    let r = match_at(v, pre, 0);
    proof {
        if r {
            assert(v@.subrange(0, pre@.len() as int) == pre@);
        }
        if pre@.is_prefix_of(v@) {
            assert(matches_at(v@, pre@, 0));
        }
    }
    r
}

/// The start of a path's final component: the index after its last `/`.
#[verifier::loop_isolation(false)]
pub fn file_name_start(v: &Vec<char>) -> (r: usize)
    ensures
        r <= v@.len(),
        v@.subrange(r as int, v@.len() as int) == file_name_spec(v@),
{
    proof {
        lemma_rfind_char(v@, '/');
    }
    let mut i: usize = v.len();
    while i > 0
        invariant
            i <= v@.len(),
            forall|j: int| i <= j < v@.len() ==> v@[j] != '/',
        decreases i,
    {
        if v[i - 1] == '/' {
            proof {
                match rfind_char(v@, '/') {
                    Some(k) => {
                        if k < i - 1 {
                            assert(v@[i - 1] != '/');  // from the lemma: nothing after k is '/'
                            assert(false);
                        }
                        if k > i - 1 {
                            assert(v@[k] != '/');  // from the invariant: nothing at or after i
                            assert(false);
                        }
                    },
                    None => {
                        assert(v@[i - 1] != '/');
                        assert(false);
                    },
                }
            }
            return i;
        }
        i -= 1;
    }
    proof {
        match rfind_char(v@, '/') {
            Some(k) => {
                assert(v@[k] != '/');
            },
            None => {},
        }
        assert(v@.subrange(0, v@.len() as int) =~= v@);
    }
    0
}

/// The final component of a path.
pub fn file_name_chars(v: &Vec<char>) -> (r: Vec<char>)
    ensures
        r@ == file_name_spec(v@),
{
    let start = file_name_start(v);
    let mut r: Vec<char> = Vec::new();
    let mut i: usize = start;
    while i < v.len()
        invariant
            start <= i <= v@.len(),
            r@ == v@.subrange(start as int, i as int),
        decreases v@.len() - i,
    {
        r.push(v[i]);
        proof {
            assert(r@ =~= v@.subrange(start as int, i + 1));
        }
        i += 1;
    }
    r
}

/// The extension of a file name, as the characters after its last `.`.
#[verifier::loop_isolation(false)]
pub fn ext_of_name_chars(name: &Vec<char>) -> (r: Option<Vec<char>>)
    ensures
        match r {
            Some(e) => ext_of_name(name@) == Some(e@),
            None => ext_of_name(name@) is None,
        },
{
    proof {
        lemma_rfind_char(name@, '.');
    }
    let mut i: usize = name.len();
    while i > 0
        invariant
            i <= name@.len(),
            forall|j: int| i <= j < name@.len() ==> name@[j] != '.',
        decreases i,
    {
        if name[i - 1] == '.' {
            proof {
                match rfind_char(name@, '.') {
                    Some(k) => {
                        if k < i - 1 {
                            assert(name@[i - 1] != '.');  // from the lemma: nothing after k is '.'
                            assert(false);
                        }
                        if k > i - 1 {
                            assert(name@[k] != '.');  // from the invariant: nothing at or after i
                            assert(false);
                        }
                    },
                    None => {
                        assert(name@[i - 1] != '.');
                        assert(false);
                    },
                }
            }
            if i - 1 == 0 {
                return None;
            }
            let mut e: Vec<char> = Vec::new();
            let mut k: usize = i;
            while k < name.len()
                invariant
                    i <= k <= name@.len(),
                    e@ == name@.subrange(i as int, k as int),
                decreases name@.len() - k,
            {
                e.push(name[k]);
                proof {
                    assert(e@ =~= name@.subrange(i as int, k + 1));
                }
                k += 1;
            }
            return Some(e);
        }
        i -= 1;
    }
    proof {
        match rfind_char(name@, '.') {
            Some(k) => {
                assert(name@[k] != '.');
            },
            None => {},
        }
    }
    None
}

/// The extension of a path's final component.
pub fn ext_of_path_chars(path: &Vec<char>) -> (r: Option<Vec<char>>)
    ensures
        match r {
            Some(e) => ext_of_path(path@) == Some(e@),
            None => ext_of_path(path@) is None,
        },
{
    let name = file_name_chars(path);
    ext_of_name_chars(&name)
}

/// Joins a directory and a file name with `/`.
pub fn join_path(dir: &str, name: &str) -> (r: String)
    ensures
        r@ == dir@ + "/"@ + name@,
{
    let mut s = String::from_str(dir);
    s.append("/");
    s.append(name);
    s
}

} // verus!

verus! {

/// Relies on `String`'s `FromIterator` over characters: collects the
/// characters into a string, in order.
#[verifier::external_body]
pub(crate) fn chars_to_string(v: &Vec<char>) -> (r: String)
    ensures
        r@ == v@,
{
    v.iter().collect()
}

/// Copies a range of a character vector.
pub fn subvec(v: &Vec<char>, a: usize, b: usize) -> (r: Vec<char>)
    requires
        a <= b <= v@.len(),
    ensures
        r@ == v@.subrange(a as int, b as int),
{
    let mut r: Vec<char> = Vec::new();
    let mut i: usize = a;
    while i < b
        invariant
            a <= i <= b <= v@.len(),
            r@ == v@.subrange(a as int, i as int),
        decreases b - i,
    {
        r.push(v[i]);
        proof {
            assert(r@ =~= v@.subrange(a as int, i + 1));
        }
        i += 1;
    }
    r
}

} // verus!
