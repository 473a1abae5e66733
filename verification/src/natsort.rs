//! Natural (alphanumeric-aware) ordering of file names, and verified sorts
//! built on it.
//!
//! A name is read as a sequence of tokens: maximal runs of decimal digits
//! form number tokens, every other character forms a character token, and
//! white space is skipped (it still splits two digit runs).  Number
//! tokens compare numerically: a run with a leading zero is read as a
//! fraction and ordered below every run without one by its digits, and runs
//! without leading zeros compare by length and then by digits.  Ties between
//! whole names are broken by the full path, so the order of a discovery pass
//! is total.
//!
//! A token is a pair: the flag says whether the payload is a digit run; a
//! character token's payload is that single character.

use vstd::prelude::*;
use vstd::multiset::Multiset;
use crate::chars::{
    lex_lt, lex_le, lemma_lex_trichotomy, lemma_lex_transitive, lemma_char_cast_injective,
    file_name_spec, file_name_chars, str_to_chars, cmp_chars_lex,
};
use crate::metadata::{MarkdownFile, MarkdownFileView};

verus! {

pub open spec fn is_digit(c: char) -> bool {
    48 <= c as u32 <= 57
}

/// A white-space character, which the ordering skips: the Unicode
/// White_Space set.
pub open spec fn is_space_char(c: char) -> bool {
    ||| (9 <= c as u32 <= 13)
    ||| c as u32 == 32
    ||| c as u32 == 0x85
    ||| c as u32 == 0xA0
    ||| c as u32 == 0x1680
    ||| (0x2000 <= c as u32 <= 0x200A)
    ||| c as u32 == 0x2028
    ||| c as u32 == 0x2029
    ||| c as u32 == 0x202F
    ||| c as u32 == 0x205F
    ||| c as u32 == 0x3000
}

/// The length of the digit run at the start of `s`.
pub open spec fn run_len(s: Seq<char>) -> nat
    decreases s.len(),
{
    if s.len() == 0 || !is_digit(s[0]) {
        0
    } else {
        1 + run_len(s.skip(1))
    }
}

pub proof fn lemma_run_len(s: Seq<char>)
    ensures
        run_len(s) <= s.len(),
        forall|j: int| 0 <= j < run_len(s) ==> is_digit(s[j]),
        run_len(s) < s.len() ==> !is_digit(s[run_len(s) as int]),
    decreases s.len(),
{
    if s.len() > 0 && is_digit(s[0]) {
        lemma_run_len(s.skip(1));
        assert forall|j: int| 0 <= j < run_len(s) implies is_digit(s[j]) by {
            if j > 0 {
                assert(s.skip(1)[j - 1] == s[j]);
            }
        }
        if run_len(s) < s.len() {
            assert(s.skip(1)[run_len(s) - 1 as int] == s[run_len(s) as int]);
        }
    }
}

/// `run_len` is pinned by its characterization.
pub proof fn lemma_run_len_is(s: Seq<char>, k: int)
    requires
        0 <= k <= s.len(),
        forall|j: int| 0 <= j < k ==> is_digit(s[j]),
        k < s.len() ==> !is_digit(s[k]),
    ensures
        run_len(s) == k,
    decreases s.len(),
{
    if s.len() == 0 || !is_digit(s[0]) {
        assert(k == 0);
    } else {
        assert(k > 0) by {
            if k == 0 {
                assert(!is_digit(s[0]));
            }
        }
        assert forall|j: int| 0 <= j < k - 1 implies is_digit(s.skip(1)[j]) by {
            assert(s.skip(1)[j] == s[j + 1]);
        }
        if k - 1 < s.skip(1).len() {
            assert(s.skip(1)[k - 1] == s[k]);
        }
        lemma_run_len_is(s.skip(1), k - 1);
    }
}

/// The token sequence of a name.  In the digit branch the run is nonempty,
/// so the guarded length below equals `run_len` and makes the recursion
/// visibly decreasing.
pub open spec fn nat_tokens(s: Seq<char>) -> Seq<(bool, Seq<char>)>
    decreases s.len(),
{
    if s.len() == 0 {
        Seq::empty()
    } else if is_digit(s[0]) {
        let k = if run_len(s) == 0 || run_len(s) > s.len() {
            1nat
        } else {
            run_len(s)
        };
        seq![(true, s.take(k as int))] + nat_tokens(s.skip(k as int))
    } else if is_space_char(s[0]) {
        nat_tokens(s.skip(1))
    } else {
        seq![(false, seq![s[0]])] + nat_tokens(s.skip(1))
    }
}

/// A token as the tokenizer produces it: digit runs are nonempty and all
/// digits, character tokens hold one character that is neither a digit nor
/// whitespace.
pub open spec fn wf_tok(t: (bool, Seq<char>)) -> bool {
    if t.0 {
        t.1.len() > 0 && (forall|i: int| 0 <= i < t.1.len() ==> is_digit(t.1[i]))
    } else {
        t.1.len() == 1 && !is_digit(t.1[0]) && !is_space_char(t.1[0])
    }
}

pub open spec fn wf_toks(s: Seq<(bool, Seq<char>)>) -> bool {
    forall|i: int| 0 <= i < s.len() ==> wf_tok(#[trigger] s[i])
}

pub proof fn lemma_nat_tokens_wf(s: Seq<char>)
    ensures
        wf_toks(nat_tokens(s)),
    decreases s.len(),
{
    if s.len() == 0 {
    } else if is_digit(s[0]) {
        lemma_run_len(s);
        assert(run_len(s) == 1 + run_len(s.skip(1)));
        let k = run_len(s);
        lemma_nat_tokens_wf(s.skip(k as int));
        let t = (true, s.take(k as int));
        assert(wf_tok(t)) by {
            assert(s.take(k as int).len() == k);
            assert forall|i: int| 0 <= i < k implies is_digit(s.take(k as int)[i]) by {
                assert(s.take(k as int)[i] == s[i]);
            }
        }
        let rest = nat_tokens(s.skip(k as int));
        assert(nat_tokens(s) == seq![t] + rest);
        assert forall|i: int| 0 <= i < nat_tokens(s).len() implies wf_tok(
            #[trigger] nat_tokens(s)[i],
        ) by {
            if i == 0 {
                assert((seq![t] + rest)[0] == t);
            } else {
                assert((seq![t] + rest)[i] == rest[i - 1]);
            }
        }
    } else if is_space_char(s[0]) {
        lemma_nat_tokens_wf(s.skip(1));
    } else {
        lemma_nat_tokens_wf(s.skip(1));
        let t = (false, seq![s[0]]);
        let rest = nat_tokens(s.skip(1));
        assert(nat_tokens(s) == seq![t] + rest);
        assert forall|i: int| 0 <= i < nat_tokens(s).len() implies wf_tok(
            #[trigger] nat_tokens(s)[i],
        ) by {
            if i == 0 {
                assert((seq![t] + rest)[0] == t);
            } else {
                assert((seq![t] + rest)[i] == rest[i - 1]);
            }
        }
    }
}

/// A digit run that starts with `0`.
pub open spec fn zero_led(d: Seq<char>) -> bool {
    d.len() > 0 && d[0] == '0'
}

/// Numeric order on digit runs.  A zero-led run reads as a fraction: it is
/// below every run without a leading zero, and zero-led runs compare by
/// their digits.  Runs without leading zeros compare by length, then by
/// their digits.
pub open spec fn num_lt(x: Seq<char>, y: Seq<char>) -> bool {
    if zero_led(x) && zero_led(y) {
        lex_lt(x, y)
    } else if zero_led(x) {
        true
    } else if zero_led(y) {
        false
    } else {
        x.len() < y.len() || (x.len() == y.len() && lex_lt(x, y))
    }
}

pub proof fn lemma_num_trichotomy(x: Seq<char>, y: Seq<char>)
    ensures
        num_lt(x, y) || x == y || num_lt(y, x),
        num_lt(x, y) ==> x != y && !num_lt(y, x),
        x == y ==> !num_lt(x, y),
{
    lemma_lex_trichotomy(x, y);
}

pub proof fn lemma_num_transitive(x: Seq<char>, y: Seq<char>, z: Seq<char>)
    requires
        num_lt(x, y),
        num_lt(y, z),
    ensures
        num_lt(x, z),
{
    if zero_led(x) && zero_led(y) && zero_led(z) {
        lemma_lex_transitive(x, y, z);
    } else if !zero_led(x) && !zero_led(y) && !zero_led(z) {
        if x.len() == y.len() && y.len() == z.len() {
            lemma_lex_transitive(x, y, z);
        }
    }
}

/// `lex_lt` on single characters is the character order.
pub proof fn lemma_lex_singleton(x: Seq<char>, y: Seq<char>)
    requires
        x.len() == 1,
        y.len() == 1,
    ensures
        lex_lt(x, y) <==> (x[0] != y[0] && (x[0] as u32) < (y[0] as u32)),
{
    if x[0] == y[0] {
        assert(!lex_lt(x.skip(1), y.skip(1)));
    }
}

/// Order on single tokens.  A digit run against a character compares as its
/// first digit would: below every character above `'9'`, above every
/// character below `'0'`.
pub open spec fn tok_lt(a: (bool, Seq<char>), b: (bool, Seq<char>)) -> bool {
    if a.0 && b.0 {
        num_lt(a.1, b.1)
    } else if !a.0 && !b.0 {
        lex_lt(a.1, b.1)
    } else if a.0 {
        57 < ((b.1)[0] as u32)
    } else {
        ((a.1)[0] as u32) < 48
    }
}

pub proof fn lemma_tok_trichotomy(a: (bool, Seq<char>), b: (bool, Seq<char>))
    requires
        wf_tok(a),
        wf_tok(b),
    ensures
        tok_lt(a, b) || a == b || tok_lt(b, a),
        tok_lt(a, b) ==> a != b && !tok_lt(b, a),
        a == b ==> !tok_lt(a, b),
{
    if a.0 && b.0 {
        lemma_num_trichotomy(a.1, b.1);
    } else if !a.0 && !b.0 {
        lemma_lex_trichotomy(a.1, b.1);
    } else if a.0 {
        // b is a character token, so its character is not a digit.
        assert(((b.1)[0] as u32) < 48 || 57 < ((b.1)[0] as u32));
    } else {
        assert(((a.1)[0] as u32) < 48 || 57 < ((a.1)[0] as u32));
    }
}

pub proof fn lemma_tok_transitive(a: (bool, Seq<char>), b: (bool, Seq<char>), c: (bool, Seq<char>))
    requires
        wf_tok(a),
        wf_tok(b),
        wf_tok(c),
        tok_lt(a, b),
        tok_lt(b, c),
    ensures
        tok_lt(a, c),
{
    if a.0 && b.0 && c.0 {
        lemma_num_transitive(a.1, b.1, c.1);
    } else if !a.0 && !b.0 && !c.0 {
        lemma_lex_transitive(a.1, b.1, c.1);
    } else if a.0 && !b.0 && !c.0 {
        // 57 < b, and b < c as characters, so 57 < c.
        lemma_lex_singleton(b.1, c.1);
    } else if !a.0 && !b.0 && c.0 {
        // a < b as characters and b < 48, so a < 48.
        lemma_lex_singleton(a.1, b.1);
    } else if !a.0 && b.0 && !c.0 {
        // a < 48 <= 57 < c, so a < c as characters.
        lemma_lex_singleton(a.1, c.1);
        lemma_char_cast_injective((a.1)[0], (c.1)[0]);
    }
}

/// Lexicographic order on token sequences.
pub open spec fn toks_lt(a: Seq<(bool, Seq<char>)>, b: Seq<(bool, Seq<char>)>) -> bool
    decreases a.len(),
{
    if b.len() == 0 {
        false
    } else if a.len() == 0 {
        true
    } else if a[0] != b[0] {
        tok_lt(a[0], b[0])
    } else {
        toks_lt(a.skip(1), b.skip(1))
    }
}

proof fn lemma_wf_toks_skip(a: Seq<(bool, Seq<char>)>)
    requires
        wf_toks(a),
        a.len() > 0,
    ensures
        wf_toks(a.skip(1)),
{
    assert forall|i: int| 0 <= i < a.skip(1).len() implies wf_tok(#[trigger] a.skip(1)[i]) by {
        assert(a.skip(1)[i] == a[i + 1]);
    }
}

pub proof fn lemma_toks_trichotomy(a: Seq<(bool, Seq<char>)>, b: Seq<(bool, Seq<char>)>)
    requires
        wf_toks(a),
        wf_toks(b),
    ensures
        toks_lt(a, b) || a == b || toks_lt(b, a),
        toks_lt(a, b) ==> a != b && !toks_lt(b, a),
        a == b ==> !toks_lt(a, b),
    decreases a.len() + b.len(),
{
    if a.len() == 0 && b.len() == 0 {
        assert(a =~= b);
    } else if a.len() > 0 && b.len() > 0 {
        assert(wf_tok(a[0]));
        assert(wf_tok(b[0]));
        lemma_tok_trichotomy(a[0], b[0]);
        lemma_wf_toks_skip(a);
        lemma_wf_toks_skip(b);
        lemma_toks_trichotomy(a.skip(1), b.skip(1));
        if a[0] == b[0] && a.skip(1) == b.skip(1) {
            assert forall|j: int| 0 <= j < a.len() implies a[j] == b[j] by {
                if j > 0 {
                    assert(a[j] == a.skip(1)[j - 1]);
                    assert(b[j] == b.skip(1)[j - 1]);
                }
            }
            assert(a =~= b);
        }
        if a == b {
            assert(a.skip(1) =~= b.skip(1));
        }
    }
}

pub proof fn lemma_toks_transitive(
    a: Seq<(bool, Seq<char>)>,
    b: Seq<(bool, Seq<char>)>,
    c: Seq<(bool, Seq<char>)>,
)
    requires
        wf_toks(a),
        wf_toks(b),
        wf_toks(c),
        toks_lt(a, b),
        toks_lt(b, c),
    ensures
        toks_lt(a, c),
    decreases a.len() + b.len() + c.len(),
{
    if a.len() == 0 {
    } else {
        // toks_lt(a, b) with a nonempty forces b nonempty, and likewise c.
        assert(b.len() > 0);
        assert(c.len() > 0);
        assert(wf_tok(a[0]));
        assert(wf_tok(b[0]));
        assert(wf_tok(c[0]));
        lemma_tok_trichotomy(a[0], b[0]);
        lemma_tok_trichotomy(b[0], c[0]);
        lemma_tok_trichotomy(a[0], c[0]);
        lemma_wf_toks_skip(a);
        lemma_wf_toks_skip(b);
        lemma_wf_toks_skip(c);
        if a[0] == b[0] && b[0] == c[0] {
            lemma_toks_transitive(a.skip(1), b.skip(1), c.skip(1));
        } else if a[0] == b[0] {
        } else if b[0] == c[0] {
        } else {
            lemma_tok_transitive(a[0], b[0], c[0]);
        }
    }
}

/// Natural order of two names: by their token sequences.
pub open spec fn nat_name_lt(a: Seq<char>, b: Seq<char>) -> bool {
    toks_lt(nat_tokens(a), nat_tokens(b))
}

/// The discovery order of fragments: natural order of the file names, with a
/// tie on the token sequences broken by the full path.
pub open spec fn file_le(f: MarkdownFileView, g: MarkdownFileView) -> bool {
    let ta = nat_tokens(file_name_spec(f.path));
    let tb = nat_tokens(file_name_spec(g.path));
    toks_lt(ta, tb) || (ta == tb && lex_le(f.path, g.path))
}

/// The discovery order is total.
pub proof fn lemma_file_le_total(f: MarkdownFileView, g: MarkdownFileView)
    ensures
        file_le(f, g) || file_le(g, f),
{
    lemma_nat_tokens_wf(file_name_spec(f.path));
    lemma_nat_tokens_wf(file_name_spec(g.path));
    lemma_toks_trichotomy(nat_tokens(file_name_spec(f.path)), nat_tokens(file_name_spec(g.path)));
    lemma_lex_trichotomy(f.path, g.path);
}

/// The discovery order is transitive.
pub proof fn lemma_file_le_transitive(f: MarkdownFileView, g: MarkdownFileView, h: MarkdownFileView)
    requires
        file_le(f, g),
        file_le(g, h),
    ensures
        file_le(f, h),
{
    let ta = nat_tokens(file_name_spec(f.path));
    let tb = nat_tokens(file_name_spec(g.path));
    let tc = nat_tokens(file_name_spec(h.path));
    lemma_nat_tokens_wf(file_name_spec(f.path));
    lemma_nat_tokens_wf(file_name_spec(g.path));
    lemma_nat_tokens_wf(file_name_spec(h.path));
    lemma_toks_trichotomy(ta, tb);
    lemma_toks_trichotomy(tb, tc);
    lemma_toks_trichotomy(ta, tc);
    if toks_lt(ta, tb) && toks_lt(tb, tc) {
        lemma_toks_transitive(ta, tb, tc);
    } else if !toks_lt(ta, tb) && !toks_lt(tb, tc) {
        if lex_lt(f.path, g.path) && lex_lt(g.path, h.path) {
            lemma_lex_transitive(f.path, g.path, h.path);
        }
        lemma_lex_trichotomy(f.path, g.path);
        lemma_lex_trichotomy(g.path, h.path);
    }
}

/// Whether a character is a decimal digit.
pub fn is_digit_char(c: char) -> (r: bool)
    ensures
        r == is_digit(c),
{
    let u = c as u32;
    48 <= u && u <= 57
}

/// Whether a character is white space.
pub fn is_space_char_exec(c: char) -> (r: bool)
    ensures
        r == is_space_char(c),
{
    let u = c as u32;
    (9 <= u && u <= 13) || u == 32 || u == 0x85 || u == 0xA0 || u == 0x1680 || (0x2000 <= u && u
        <= 0x200A) || u == 0x2028 || u == 0x2029 || u == 0x202F || u == 0x205F || u == 0x3000
}

/// The deep view of a character vector is its view.
proof fn lemma_deep_chars(v: Vec<char>)
    ensures
        v.deep_view() == v@,
{
    assert(v.deep_view() =~= v@);
}

/// Splits a name into its tokens.
#[verifier::loop_isolation(false)]
pub fn tokenize(v: &Vec<char>) -> (r: Vec<(bool, Vec<char>)>)
    ensures
        r.deep_view() == nat_tokens(v@),
{
    let mut r: Vec<(bool, Vec<char>)> = Vec::new();
    let mut i: usize = 0;
    proof {
        assert(v@.skip(0) =~= v@);
    }
    while i < v.len()
        invariant
            i <= v@.len(),
            nat_tokens(v@) == r.deep_view() + nat_tokens(v@.skip(i as int)),
        decreases v@.len() - i,
    {
        let ghost r_old = r.deep_view();
        let ghost tail = v@.skip(i as int);
        if is_digit_char(v[i]) {
            let mut j: usize = i;
            let mut run: Vec<char> = Vec::new();
            while j < v.len() && is_digit_char(v[j])
                invariant
                    i <= j <= v@.len(),
                    run@ == v@.subrange(i as int, j as int),
                    forall|p: int| i <= p < j ==> is_digit(v@[p]),
                decreases v@.len() - j,
            {
                run.push(v[j]);
                proof {
                    assert(run@ =~= v@.subrange(i as int, j + 1));
                }
                j += 1;
            }
            assert(j > i) by {
                assert(is_digit(v@[i as int]));
            }
            proof {
                assert forall|p: int| 0 <= p < j - i implies is_digit(tail[p]) by {
                    assert(tail[p] == v@[i + p]);
                }
                if j - i < tail.len() {
                    assert(tail[j - i] == v@[j as int]);
                }
                lemma_run_len_is(tail, j - i);
                assert(tail.take(j - i) =~= run@);
                assert(tail.skip(j - i) =~= v@.skip(j as int));
                assert(nat_tokens(tail) == seq![(true, run@)] + nat_tokens(v@.skip(j as int)));
            }
            proof {
                lemma_deep_chars(run);
            }
            r.push((true, run));
            proof {
                assert(r.deep_view() =~= r_old.push((true, v@.subrange(i as int, j as int))));
                assert(r.deep_view() + nat_tokens(v@.skip(j as int)) =~= r_old + nat_tokens(tail));
            }
            i = j;
        } else if is_space_char_exec(v[i]) {
            proof {
                assert(tail.skip(1) =~= v@.skip(i + 1));
                assert(nat_tokens(tail) == nat_tokens(v@.skip(i + 1)));
            }
            i += 1;
        } else {
            let mut cv: Vec<char> = Vec::new();
            cv.push(v[i]);
            proof {
                assert(cv@ =~= seq![v@[i as int]]);
                assert(tail.skip(1) =~= v@.skip(i + 1));
                assert(nat_tokens(tail) == seq![(false, seq![tail[0]])] + nat_tokens(
                    v@.skip(i + 1),
                ));
            }
            proof {
                lemma_deep_chars(cv);
            }
            r.push((false, cv));
            proof {
                assert(r.deep_view() =~= r_old.push((false, seq![v@[i as int]])));
                assert(r.deep_view() + nat_tokens(v@.skip(i + 1)) =~= r_old + nat_tokens(tail));
            }
            i += 1;
        }
    }
    proof {
        assert(v@.skip(i as int).len() == 0);
        assert(nat_tokens(v@.skip(i as int)) == Seq::<(bool, Seq<char>)>::empty());
        assert(r.deep_view() + Seq::<(bool, Seq<char>)>::empty() =~= r.deep_view());
    }
    r
}

/// Three-way comparison of two digit runs in numeric order.
pub fn num_cmp(x: &Vec<char>, y: &Vec<char>) -> (r: i8)
    requires
        x@.len() > 0,
        y@.len() > 0,
    ensures
        -1 <= r <= 1,
        r == -1 ==> num_lt(x@, y@),
        r == 0 ==> x@ == y@,
        r == 1 ==> num_lt(y@, x@),
{
    let zx = x[0] == '0';
    let zy = y[0] == '0';
    proof {
        assert(zx == zero_led(x@));
        assert(zy == zero_led(y@));
    }
    if zx && zy {
        cmp_chars_lex(x, y)
    } else if zx {
        -1
    } else if zy {
        1
    } else {
        if x.len() < y.len() {
            -1
        } else if y.len() < x.len() {
            1
        } else {
            cmp_chars_lex(x, y)
        }
    }
}

/// Three-way comparison of two tokens.
pub fn tok_cmp(a: &(bool, Vec<char>), b: &(bool, Vec<char>)) -> (r: i8)
    requires
        wf_tok(a.deep_view()),
        wf_tok(b.deep_view()),
    ensures
        -1 <= r <= 1,
        r == -1 ==> tok_lt(a.deep_view(), b.deep_view()),
        r == 0 ==> a.deep_view() == b.deep_view(),
        r == 1 ==> tok_lt(b.deep_view(), a.deep_view()),
{
    let ghost av = a.deep_view();
    let ghost bv = b.deep_view();
    proof {
        lemma_deep_chars(a.1);
        lemma_deep_chars(b.1);
        assert(av == (a.0, a.1@));
        assert(bv == (b.0, b.1@));
    }
    if a.0 && b.0 {
        let r = num_cmp(&a.1, &b.1);
        proof {
            if r == 0 {
                assert(av =~= bv);
            }
        }
        r
    } else if !a.0 && !b.0 {
        let r = cmp_chars_lex(&a.1, &b.1);
        proof {
            if r == 0 {
                assert(av =~= bv);
            }
        }
        r
    } else if a.0 {
        let d = b.1[0];
        if 57 < d as u32 {
            -1
        } else {
            proof {
                assert(((bv.1)[0] as u32) < 48 || 57 < ((bv.1)[0] as u32));
            }
            1
        }
    } else {
        let c = a.1[0];
        if (c as u32) < 48 {
            -1
        } else {
            proof {
                assert(((av.1)[0] as u32) < 48 || 57 < ((av.1)[0] as u32));
            }
            1
        }
    }
}

/// Equal token-sequence prefixes and a smaller token at `i` give `toks_lt`.
proof fn lemma_toks_lt_at(a: Seq<(bool, Seq<char>)>, b: Seq<(bool, Seq<char>)>, i: int)
    requires
        0 <= i < a.len(),
        i < b.len(),
        a.subrange(0, i) == b.subrange(0, i),
        a[i] != b[i],
        tok_lt(a[i], b[i]),
    ensures
        toks_lt(a, b),
    decreases i,
{
    if i == 0 {
    } else {
        assert(a[0] == b[0]) by {
            assert(a.subrange(0, i)[0] == a[0]);
            assert(b.subrange(0, i)[0] == b[0]);
        }
        assert forall|j: int| 1 <= j < i implies a[j] == b[j] by {
            assert(a.subrange(0, i)[j] == a[j]);
            assert(b.subrange(0, i)[j] == b[j]);
        }
        assert(a.skip(1).subrange(0, i - 1) =~= b.skip(1).subrange(0, i - 1));
        assert(a.skip(1)[i - 1] == a[i]);
        assert(b.skip(1)[i - 1] == b[i]);
        lemma_toks_lt_at(a.skip(1), b.skip(1), i - 1);
    }
}

/// A proper token-sequence prefix is first.
proof fn lemma_toks_lt_prefix(a: Seq<(bool, Seq<char>)>, b: Seq<(bool, Seq<char>)>)
    requires
        a.len() < b.len(),
        a == b.subrange(0, a.len() as int),
    ensures
        toks_lt(a, b),
    decreases a.len(),
{
    if a.len() > 0 {
        assert(a[0] == b.subrange(0, a.len() as int)[0]);
        assert(a.skip(1) =~= b.skip(1).subrange(0, a.len() - 1)) by {
            assert forall|j: int| 0 <= j < a.len() - 1 implies a.skip(1)[j] == b.skip(1).subrange(
                0,
                a.len() - 1,
            )[j] by {
                assert(a[j + 1] == b.subrange(0, a.len() as int)[j + 1]);
            }
        }
        lemma_toks_lt_prefix(a.skip(1), b.skip(1));
    }
}

/// Three-way comparison of two token sequences.
#[verifier::loop_isolation(false)]
pub fn toks_cmp(a: &Vec<(bool, Vec<char>)>, b: &Vec<(bool, Vec<char>)>) -> (r: i8)
    requires
        wf_toks(a.deep_view()),
        wf_toks(b.deep_view()),
    ensures
        -1 <= r <= 1,
        r == -1 ==> toks_lt(a.deep_view(), b.deep_view()),
        r == 0 ==> a.deep_view() == b.deep_view(),
        r == 1 ==> toks_lt(b.deep_view(), a.deep_view()),
{
    let ghost av = a.deep_view();
    let ghost bv = b.deep_view();
    let n = if a.len() < b.len() {
        a.len()
    } else {
        b.len()
    };
    let mut i: usize = 0;
    while i < n
        invariant
            i <= n,
            av.subrange(0, i as int) == bv.subrange(0, i as int),
        decreases n - i,
    {
        proof {
            assert(av[i as int] == a@[i as int].deep_view());
            assert(bv[i as int] == b@[i as int].deep_view());
            assert(wf_tok(av[i as int]));
            assert(wf_tok(bv[i as int]));
        }
        let c = tok_cmp(&a[i], &b[i]);
        if c < 0 {
            proof {
                lemma_tok_trichotomy(av[i as int], bv[i as int]);
                lemma_toks_lt_at(av, bv, i as int);
            }
            return -1;
        }
        if c > 0 {
            proof {
                lemma_tok_trichotomy(av[i as int], bv[i as int]);
                lemma_toks_lt_at(bv, av, i as int);
            }
            return 1;
        }
        proof {
            assert(av.subrange(0, i + 1) =~= bv.subrange(0, i + 1));
        }
        i += 1;
    }
    if a.len() < b.len() {
        proof {
            assert(av =~= bv.subrange(0, av.len() as int));
            lemma_toks_lt_prefix(av, bv);
        }
        return -1;
    }
    if b.len() < a.len() {
        proof {
            assert(bv =~= av.subrange(0, bv.len() as int));
            lemma_toks_lt_prefix(bv, av);
        }
        return 1;
    }
    proof {
        assert forall|j: int| 0 <= j < av.len() implies av[j] == bv[j] by {
            assert(av.subrange(0, n as int)[j] == av[j]);
            assert(bv.subrange(0, n as int)[j] == bv[j]);
        }
        assert(av =~= bv);
    }
    0
}

/// Three-way natural comparison of two names, as discovery orders them.
pub fn natural_compare(a: &str, b: &str) -> (r: i8)
    ensures
        -1 <= r <= 1,
        r == -1 ==> nat_name_lt(a@, b@),
        r == 0 ==> nat_tokens(a@) == nat_tokens(b@),
        r == 1 ==> nat_name_lt(b@, a@),
{
    let va = str_to_chars(a);
    let vb = str_to_chars(b);
    let ta = tokenize(&va);
    let tb = tokenize(&vb);
    proof {
        lemma_nat_tokens_wf(a@);
        lemma_nat_tokens_wf(b@);
    }
    toks_cmp(&ta, &tb)
}

/// Whether `f` comes no later than `g` in the discovery order.
pub fn file_le_exec(f: &MarkdownFile, g: &MarkdownFile) -> (r: bool)
    ensures
        r == file_le(f@, g@),
{
    let fp = str_to_chars(f.path.as_str());
    let gp = str_to_chars(g.path.as_str());
    let fname = file_name_chars(&fp);
    let gname = file_name_chars(&gp);
    let ta = tokenize(&fname);
    let tb = tokenize(&gname);
    proof {
        lemma_nat_tokens_wf(fname@);
        lemma_nat_tokens_wf(gname@);
    }
    let c = toks_cmp(&ta, &tb);
    if c < 0 {
        true
    } else if c > 0 {
        proof {
            lemma_toks_trichotomy(ta.deep_view(), tb.deep_view());
        }
        false
    } else {
        let pc = cmp_chars_lex(&fp, &gp);
        proof {
            lemma_toks_trichotomy(ta.deep_view(), tb.deep_view());
            lemma_lex_trichotomy(f.path@, g.path@);
        }
        pc <= 0
    }
}

/// Sorts fragments into the discovery order: natural order of file names,
/// ties broken by the full path.  The result is a sorted permutation of the
/// input.
#[verifier::loop_isolation(false)]
pub fn sort_markdown_files(files: Vec<MarkdownFile>) -> (r: Vec<MarkdownFile>)
    ensures
        r.deep_view().to_multiset() == files.deep_view().to_multiset(),
        forall|p: int, q: int|
            0 <= p < q < r.deep_view().len() ==> file_le(r.deep_view()[p], r.deep_view()[q]),
{
    broadcast use vstd::seq_lib::group_to_multiset_ensures;

    let ghost orig = files.deep_view();
    let mut inp = files;
    let mut out: Vec<MarkdownFile> = Vec::new();
    while inp.len() > 0
        invariant
            out.deep_view().to_multiset().add(inp.deep_view().to_multiset())
                == orig.to_multiset(),
            forall|p: int, q: int|
                0 <= p < q < out.deep_view().len() ==> file_le(
                    out.deep_view()[p],
                    out.deep_view()[q],
                ),
            forall|p: int, q: int|
                0 <= p < out.deep_view().len() && 0 <= q < inp.deep_view().len() ==> file_le(
                    out.deep_view()[p],
                    inp.deep_view()[q],
                ),
        decreases inp.len(),
    {
        // Find a minimal remaining fragment.
        let mut m: usize = 0;
        let mut t: usize = 1;
        while t < inp.len()
            invariant
                m < t <= inp.len(),
                forall|j: int| 0 <= j < t ==> file_le(inp.deep_view()[m as int], inp.deep_view()[j]),
            decreases inp.len() - t,
        {
            if !file_le_exec(&inp[m], &inp[t]) {
                proof {
                    lemma_file_le_total(inp.deep_view()[m as int], inp.deep_view()[t as int]);
                    assert forall|j: int| 0 <= j < t + 1 implies file_le(
                        inp.deep_view()[t as int],
                        inp.deep_view()[j],
                    ) by {
                        if j < t {
                            lemma_file_le_transitive(
                                inp.deep_view()[t as int],
                                inp.deep_view()[m as int],
                                inp.deep_view()[j],
                            );
                        }
                    }
                }
                m = t;
            }
            t += 1;
        }
        let ghost inp_before = inp.deep_view();
        let ghost out_before = out.deep_view();
        let ghost x = inp.deep_view()[m as int];
        let e = inp.remove(m);
        proof {
            assert(inp.deep_view() =~= inp_before.remove(m as int));
        }
        out.push(e);
        proof {
            assert(out.deep_view() =~= out_before.push(x));
            // The multiset balance: one copy of the minimum moved over.
            assert(out.deep_view().to_multiset() =~= out_before.to_multiset().insert(x));
            assert(inp.deep_view().to_multiset() =~= inp_before.to_multiset().remove(x));
            assert(inp_before.to_multiset().contains(x)) by {
                assert(inp_before[m as int] == x);
            }
            assert(out.deep_view().to_multiset().add(inp.deep_view().to_multiset())
                =~= out_before.to_multiset().add(inp_before.to_multiset()));
            // Order: everything already emitted is at most x, and x is at
            // most everything left.
            assert forall|p: int, q: int|
                0 <= p < q < out.deep_view().len() implies file_le(
                out.deep_view()[p],
                out.deep_view()[q],
            ) by {
                if q == out.deep_view().len() - 1 {
                    assert(out.deep_view()[q] == x);
                    assert(file_le(out_before[p], inp_before[m as int]));
                }
            }
            assert forall|p: int, q: int|
                0 <= p < out.deep_view().len() && 0 <= q < inp.deep_view().len() implies file_le(
                out.deep_view()[p],
                inp.deep_view()[q],
            ) by {
                let qq = if q < m { q } else { q + 1 };
                assert(inp.deep_view()[q] == inp_before[qq]);
                if p < out.deep_view().len() - 1 {
                    assert(file_le(out_before[p], inp_before[qq]));
                } else {
                    assert(out.deep_view()[p] == x);
                    assert(file_le(x, inp_before[qq]));
                }
            }
        }
    }
    proof {
        assert(inp.deep_view().len() == 0);
        assert(inp.deep_view().to_multiset() =~= Multiset::<MarkdownFileView>::empty());
        assert(out.deep_view().to_multiset().add(Multiset::<MarkdownFileView>::empty())
            =~= out.deep_view().to_multiset());
    }
    out
}

/// Sorts a list of names lexicographically.  The result is a sorted
/// permutation of the input.
#[verifier::loop_isolation(false)]
pub fn sort_strings(names: Vec<String>) -> (r: Vec<String>)
    ensures
        r.deep_view().to_multiset() == names.deep_view().to_multiset(),
        forall|p: int, q: int|
            0 <= p < q < r.deep_view().len() ==> lex_le(r.deep_view()[p], r.deep_view()[q]),
{
    broadcast use vstd::seq_lib::group_to_multiset_ensures;

    let ghost orig = names.deep_view();
    let mut inp = names;
    let mut out: Vec<String> = Vec::new();
    while inp.len() > 0
        invariant
            out.deep_view().to_multiset().add(inp.deep_view().to_multiset())
                == orig.to_multiset(),
            forall|p: int, q: int|
                0 <= p < q < out.deep_view().len() ==> lex_le(
                    out.deep_view()[p],
                    out.deep_view()[q],
                ),
            forall|p: int, q: int|
                0 <= p < out.deep_view().len() && 0 <= q < inp.deep_view().len() ==> lex_le(
                    out.deep_view()[p],
                    inp.deep_view()[q],
                ),
        decreases inp.len(),
    {
        let mut m: usize = 0;
        let mut t: usize = 1;
        while t < inp.len()
            invariant
                m < t <= inp.len(),
                forall|j: int| 0 <= j < t ==> lex_le(inp.deep_view()[m as int], inp.deep_view()[j]),
            decreases inp.len() - t,
        {
            let vm = str_to_chars(inp[m].as_str());
            let vt = str_to_chars(inp[t].as_str());
            let c = cmp_chars_lex(&vm, &vt);
            if c > 0 {
                proof {
                    lemma_lex_trichotomy(inp.deep_view()[m as int], inp.deep_view()[t as int]);
                    assert forall|j: int| 0 <= j < t + 1 implies lex_le(
                        inp.deep_view()[t as int],
                        inp.deep_view()[j],
                    ) by {
                        if j < t {
                            if lex_lt(inp.deep_view()[t as int], inp.deep_view()[m as int])
                                && lex_lt(inp.deep_view()[m as int], inp.deep_view()[j]) {
                                lemma_lex_transitive(
                                    inp.deep_view()[t as int],
                                    inp.deep_view()[m as int],
                                    inp.deep_view()[j],
                                );
                            }
                        }
                    }
                }
                m = t;
            }
            t += 1;
        }
        let ghost inp_before = inp.deep_view();
        let ghost out_before = out.deep_view();
        let ghost x = inp.deep_view()[m as int];
        let e = inp.remove(m);
        proof {
            assert(inp.deep_view() =~= inp_before.remove(m as int));
        }
        out.push(e);
        proof {
            assert(out.deep_view() =~= out_before.push(x));
            assert(out.deep_view().to_multiset() =~= out_before.to_multiset().insert(x));
            assert(inp.deep_view().to_multiset() =~= inp_before.to_multiset().remove(x));
            assert(inp_before.to_multiset().contains(x)) by {
                assert(inp_before[m as int] == x);
            }
            assert(out.deep_view().to_multiset().add(inp.deep_view().to_multiset())
                =~= out_before.to_multiset().add(inp_before.to_multiset()));
            assert forall|p: int, q: int|
                0 <= p < q < out.deep_view().len() implies lex_le(
                out.deep_view()[p],
                out.deep_view()[q],
            ) by {
                if q == out.deep_view().len() - 1 {
                    assert(out.deep_view()[q] == x);
                    assert(lex_le(out_before[p], inp_before[m as int]));
                }
            }
            assert forall|p: int, q: int|
                0 <= p < out.deep_view().len() && 0 <= q < inp.deep_view().len() implies lex_le(
                out.deep_view()[p],
                inp.deep_view()[q],
            ) by {
                let qq = if q < m { q } else { q + 1 };
                assert(inp.deep_view()[q] == inp_before[qq]);
                if p < out.deep_view().len() - 1 {
                    assert(lex_le(out_before[p], inp_before[qq]));
                } else {
                    assert(out.deep_view()[p] == x);
                    assert(lex_le(x, inp_before[qq]));
                }
            }
        }
    }
    proof {
        assert(inp.deep_view().len() == 0);
        assert(inp.deep_view().to_multiset() =~= Multiset::<Seq<char>>::empty());
        assert(out.deep_view().to_multiset().add(Multiset::<Seq<char>>::empty())
            =~= out.deep_view().to_multiset());
    }
    out
}

} // verus!

verus! {

/// The discovery order is antisymmetric up to the path: two fragments that
/// precede each other carry the same path.
pub proof fn lemma_file_le_antisymmetric(f: MarkdownFileView, g: MarkdownFileView)
    requires
        file_le(f, g),
        file_le(g, f),
    ensures
        f.path == g.path,
{
    lemma_nat_tokens_wf(file_name_spec(f.path));
    lemma_nat_tokens_wf(file_name_spec(g.path));
    lemma_toks_trichotomy(nat_tokens(file_name_spec(f.path)), nat_tokens(file_name_spec(g.path)));
    lemma_lex_trichotomy(f.path, g.path);
}

/// Discovery and ordering are deterministic: two sorted arrangements of the
/// same fragments, with no path repeated, are identical.  With the parse
/// and merge contracts, which pin their results as functions of the file
/// contents alone, running discovery and merge twice over an unchanged
/// directory yields the same fragment order and the same merged metadata.
/// The distinct-paths hypothesis holds of every discovery pass, since a
/// walk yields each path once; without it the claim is false — two entries
/// carrying the same path but different contents tie in the order and may
/// stand in either arrangement.
pub proof fn lemma_discovery_order_deterministic(
    a: Seq<MarkdownFileView>,
    b: Seq<MarkdownFileView>,
)
    requires
        forall|p: int, q: int| 0 <= p < q < a.len() ==> file_le(a[p], a[q]),
        forall|p: int, q: int| 0 <= p < q < b.len() ==> file_le(b[p], b[q]),
        a.to_multiset() == b.to_multiset(),
        forall|p: int, q: int| 0 <= p < q < a.len() ==> a[p].path != a[q].path,
    ensures
        a == b,
    decreases a.len(),
{
    broadcast use vstd::seq_lib::group_to_multiset_ensures;

    if a.len() == 0 {
        assert(b.len() == 0);
        assert(a =~= b);
    } else {
        assert(a.to_multiset().len() == b.to_multiset().len());
        assert(a.len() == a.to_multiset().len());
        assert(b.len() == b.to_multiset().len());
        assert(b.len() == a.len());
        // The heads are both minimal, so they carry the same path; with
        // distinct paths they are the same fragment.
        assert(a.to_multiset().contains(a[0]));
        assert(b.contains(a[0]));
        let ia = choose|i: int| 0 <= i < b.len() && b[i] == a[0];
        assert(a.contains(b[0])) by {
            assert(b.to_multiset().contains(b[0]));
        }
        let ib = choose|i: int| 0 <= i < a.len() && a[i] == b[0];
        assert(file_le(a[0], b[0])) by {
            if ib > 0 {
                assert(file_le(a[0], a[ib]));
            } else {
                lemma_file_le_total(a[0], b[0]);
                if ia > 0 {
                    assert(file_le(b[0], b[ia]));
                }
            }
        }
        assert(file_le(b[0], a[0])) by {
            if ia > 0 {
                assert(file_le(b[0], b[ia]));
            } else {
                lemma_file_le_total(a[0], b[0]);
            }
        }
        lemma_file_le_antisymmetric(a[0], b[0]);
        assert(a[0] == b[0]) by {
            if ib > 0 {
                assert(a[0].path != a[ib].path);
            }
        }
        let at = a.skip(1);
        let bt = b.skip(1);
        assert(at.to_multiset() =~= bt.to_multiset()) by {
            assert(at =~= a.remove(0));
            assert(bt =~= b.remove(0));
            assert(a.remove(0).to_multiset() =~= a.to_multiset().remove(a[0]));
            assert(b.remove(0).to_multiset() =~= b.to_multiset().remove(b[0]));
        }
        assert forall|p: int, q: int| 0 <= p < q < at.len() implies file_le(at[p], at[q]) by {
            assert(at[p] == a[p + 1]);
            assert(at[q] == a[q + 1]);
        }
        assert forall|p: int, q: int| 0 <= p < q < bt.len() implies file_le(bt[p], bt[q]) by {
            assert(bt[p] == b[p + 1]);
            assert(bt[q] == b[q + 1]);
        }
        assert forall|p: int, q: int| 0 <= p < q < at.len() implies at[p].path != at[q].path by {
            assert(at[p] == a[p + 1]);
            assert(at[q] == a[q + 1]);
        }
        lemma_discovery_order_deterministic(at, bt);
        assert forall|i: int| 0 <= i < a.len() implies a[i] == b[i] by {
            if i > 0 {
                assert(a[i] == at[i - 1]);
                assert(b[i] == bt[i - 1]);
            }
        }
        assert(a =~= b);
    }
}

} // verus!
