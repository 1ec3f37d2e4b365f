//! Character-level helpers over `&str`: equality, prefix and substring tests,
//! trimming and whitespace tokenization, and decimal rendering of integers.
//!
//! The two embedded command grammars (dotted document commands, whitespace
//! tokenized key-value commands) and the catalog heuristics of the relational
//! driver are all stated over these.

use vstd::prelude::*;

verus! {

/// An ASCII whitespace character: what the key-value grammar splits on.
pub open spec fn is_space(c: char) -> bool {
    c == ' ' || c == '\t' || c == '\n' || c == '\r'
}

/// Executable test for `is_space`.
pub fn space_char(c: char) -> (r: bool)
    ensures
        r == is_space(c),
{
    c == ' ' || c == '\t' || c == '\n' || c == '\r'
}

/// Character-wise string equality.
pub fn str_eq(a: &str, b: &str) -> (r: bool)
    ensures
        r == (a@ == b@),
{
    let alen = a.unicode_len();
    let blen = b.unicode_len();
    if alen != blen {
        return false;
    }
    let mut i: usize = 0;
    while i < alen
        invariant
            alen == a@.len(),
            blen == b@.len(),
            alen == blen,
            i <= alen,
            forall|j: int| 0 <= j < i ==> a@[j] == b@[j],
        decreases alen - i,
    {
        if a.get_char(i) != b.get_char(i) {
            return false;
        }
        i = i + 1;
    }
    proof {
        assert(a@ =~= b@);
    }
    true
}

/// `p` is a prefix of `s`.
pub open spec fn spec_starts_with(s: Seq<char>, p: Seq<char>) -> bool {
    p.len() <= s.len() && s.subrange(0, p.len() as int) == p
}

/// Executable prefix test.
pub fn str_starts_with(s: &str, p: &str) -> (r: bool)
    ensures
        r == spec_starts_with(s@, p@),
{
    let slen = s.unicode_len();
    let plen = p.unicode_len();
    if plen > slen {
        return false;
    }
    let mut i: usize = 0;
    while i < plen
        invariant
            slen == s@.len(),
            plen == p@.len(),
            plen <= slen,
            i <= plen,
            forall|j: int| 0 <= j < i ==> s@[j] == p@[j],
        decreases plen - i,
    {
        if s.get_char(i) != p.get_char(i) {
            proof {
                assert(s@.subrange(0, p@.len() as int)[i as int] == s@[i as int]);
            }
            return false;
        }
        i = i + 1;
    }
    proof {
        assert(s@.subrange(0, p@.len() as int) =~= p@);
    }
    true
}

/// `sub` occurs in `s` at position `i`.
pub open spec fn spec_match_at(s: Seq<char>, sub: Seq<char>, i: int) -> bool {
    0 <= i && i + sub.len() <= s.len() && s.subrange(i, i + sub.len() as int) == sub
}

/// `sub` occurs somewhere in `s`.
pub open spec fn spec_contains(s: Seq<char>, sub: Seq<char>) -> bool {
    exists|i: int| spec_match_at(s, sub, i)
}

/// Executable test that `sub` occurs in `s` at position `i`.
fn match_at(s: &str, sub: &str, i: usize) -> (r: bool)
    requires
        i + sub@.len() <= s@.len(),
    ensures
        r == spec_match_at(s@, sub@, i as int),
{
    let slen = s.unicode_len();
    let sublen = sub.unicode_len();
    let mut j: usize = 0;
    while j < sublen
        invariant
            slen == s@.len(),
            sublen == sub@.len(),
            i + sublen <= slen,
            j <= sublen,
            forall|k: int| 0 <= k < j ==> s@[i + k] == sub@[k],
        decreases sublen - j,
    {
        if s.get_char(i + j) != sub.get_char(j) {
            proof {
                assert(s@.subrange(i as int, i + sub@.len() as int)[j as int] == s@[i + j]);
            }
            return false;
        }
        j = j + 1;
    }
    proof {
        assert(s@.subrange(i as int, i + sub@.len() as int) =~= sub@);
    }
    true
}

/// Executable substring search.
pub fn str_contains(s: &str, sub: &str) -> (r: bool)
    ensures
        r == spec_contains(s@, sub@),
{
    let slen = s.unicode_len();
    let sublen = sub.unicode_len();
    if sublen > slen {
        return false;
    }
    if sublen == 0 {
        proof {
            assert(spec_match_at(s@, sub@, 0)) by {
                assert(s@.subrange(0, 0) =~= sub@);
            }
        }
        return true;
    }
    let mut i: usize = 0;
    while i <= slen - sublen
        invariant
            slen == s@.len(),
            sublen == sub@.len(),
            0 < sublen <= slen,
            i <= slen - sublen + 1,
            forall|j: int| 0 <= j < i ==> !spec_match_at(s@, sub@, j),
        decreases slen - sublen + 1 - i,
    {
        if match_at(s, sub, i) {
            return true;
        }
        i = i + 1;
    }
    proof {
        assert(forall|j: int| spec_match_at(s@, sub@, j) ==> 0 <= j < i);
    }
    false
}

/// `s` with its leading whitespace removed.
pub open spec fn spec_trim_start(s: Seq<char>) -> Seq<char>
    decreases s.len(),
{
    if s.len() > 0 && is_space(s[0]) {
        spec_trim_start(s.subrange(1, s.len() as int))
    } else {
        s
    }
}

/// Skipping a known run of leading spaces computes `spec_trim_start`.
proof fn lemma_trim_start_skip(s: Seq<char>, k: int)
    requires
        0 <= k <= s.len(),
        forall|j: int| 0 <= j < k ==> is_space(s[j]),
        k == s.len() || !is_space(s[k]),
    ensures
        spec_trim_start(s) == s.subrange(k, s.len() as int),
    decreases k,
{
    if k == 0 {
        assert(s.subrange(0, s.len() as int) =~= s);
    } else {
        let t = s.subrange(1, s.len() as int);
        lemma_trim_start_skip(t, k - 1);
        assert(t.subrange(k - 1, t.len() as int) =~= s.subrange(k, s.len() as int));
    }
}

/// Executable trim of leading whitespace.
pub fn trim_start(s: &str) -> (r: &str)
    ensures
        r@ == spec_trim_start(s@),
{
    let slen = s.unicode_len();
    let mut i: usize = 0;
    while i < slen && space_char(s.get_char(i))
        invariant
            slen == s@.len(),
            i <= slen,
            forall|j: int| 0 <= j < i ==> is_space(s@[j]),
        decreases slen - i,
    {
        i = i + 1;
    }
    proof {
        lemma_trim_start_skip(s@, i as int);
    }
    s.substring_char(i, slen)
}

/// First position of `c` in `s`, if any.
pub fn find_char(s: &str, c: char) -> (r: Option<usize>)
    ensures
        match r {
            Some(i) => 0 <= i < s@.len() && s@[i as int] == c && (forall|j: int|
                0 <= j < i ==> s@[j] != c),
            None => forall|j: int| 0 <= j < s@.len() ==> s@[j] != c,
        },
{
    let slen = s.unicode_len();
    let mut i: usize = 0;
    while i < slen
        invariant
            slen == s@.len(),
            i <= slen,
            forall|j: int| 0 <= j < i ==> s@[j] != c,
        decreases slen - i,
    {
        if s.get_char(i) == c {
            return Some(i);
        }
        i = i + 1;
    }
    None
}

/// Position of the first occurrence of `c` in `s`, or -1 when absent.
pub open spec fn spec_find_char(s: Seq<char>, c: char) -> int
    decreases s.len(),
{
    if s.len() == 0 {
        -1
    } else if s[0] == c {
        0
    } else if spec_find_char(s.subrange(1, s.len() as int), c) < 0 {
        -1
    } else {
        1 + spec_find_char(s.subrange(1, s.len() as int), c)
    }
}

/// A first match (or a match-free scan) determines `spec_find_char`.
pub proof fn lemma_find_char_at(s: Seq<char>, c: char, k: int)
    requires
        0 <= k <= s.len(),
        forall|j: int| 0 <= j < k ==> s[j] != c,
        k == s.len() || s[k] == c,
    ensures
        spec_find_char(s, c) == if k == s.len() {
            -1
        } else {
            k
        },
    decreases s.len(),
{
    if s.len() == 0 {
    } else if s[0] == c {
        assert(k == 0);
    } else {
        assert(k != 0);
        let t = s.subrange(1, s.len() as int);
        lemma_find_char_at(t, c, k - 1);
    }
}

/// Length of the leading run of non-space characters of `s`.
pub open spec fn spec_token_len(s: Seq<char>) -> int
    decreases s.len(),
{
    if s.len() == 0 || is_space(s[0]) {
        0
    } else {
        1 + spec_token_len(s.subrange(1, s.len() as int))
    }
}

/// Bounds of `spec_token_len` and the shape of the run it measures.
pub proof fn lemma_token_len_bounds(s: Seq<char>)
    ensures
        0 <= spec_token_len(s) <= s.len(),
        s.len() > 0 && !is_space(s[0]) ==> spec_token_len(s) >= 1,
    decreases s.len(),
{
    if s.len() == 0 || is_space(s[0]) {
    } else {
        lemma_token_len_bounds(s.subrange(1, s.len() as int));
    }
}

/// A run of `n` non-space characters ended by a space or the end of the string
/// is exactly what `spec_token_len` measures.
proof fn lemma_token_len_run(s: Seq<char>, n: int)
    requires
        0 <= n <= s.len(),
        forall|j: int| 0 <= j < n ==> !is_space(s[j]),
        n == s.len() || is_space(s[n]),
    ensures
        spec_token_len(s) == n,
    decreases n,
{
    if n == 0 {
    } else {
        let t = s.subrange(1, s.len() as int);
        lemma_token_len_run(t, n - 1);
    }
}

/// The whitespace tokenization of `s`: maximal runs of non-space characters,
/// in order, with all separators dropped.
pub open spec fn spec_tokens(s: Seq<char>) -> Seq<Seq<char>>
    decreases s.len(),
    via spec_tokens_dec
{
    if s.len() == 0 {
        Seq::empty()
    } else if is_space(s[0]) {
        spec_tokens(s.subrange(1, s.len() as int))
    } else {
        seq![s.subrange(0, spec_token_len(s))] + spec_tokens(
            s.subrange(spec_token_len(s), s.len() as int),
        )
    }
}

#[via_fn]
proof fn spec_tokens_dec(s: Seq<char>) {
    lemma_token_len_bounds(s);
}

/// The views of a sequence of owned strings.
pub open spec fn views_of(ts: Seq<String>) -> Seq<Seq<char>> {
    ts.map_values(|t: String| t@)
}

/// Executable whitespace tokenization.
pub fn tokenize(s: &str) -> (r: Vec<String>)
    ensures
        views_of(r@) == spec_tokens(s@),
{
    let slen = s.unicode_len();
    let mut toks: Vec<String> = Vec::new();
    let mut i: usize = 0;
    proof {
        assert(s@.subrange(0, slen as int) =~= s@);
        assert(views_of(toks@) + spec_tokens(s@) =~= spec_tokens(s@));
    }
    while i < slen
        invariant
            slen == s@.len(),
            i <= slen,
            views_of(toks@) + spec_tokens(s@.subrange(i as int, slen as int)) == spec_tokens(s@),
        decreases slen - i,
    {
        if space_char(s.get_char(i)) {
            proof {
                let t = s@.subrange(i as int, slen as int);
                assert(t.subrange(1, t.len() as int) =~= s@.subrange(i + 1, slen as int));
            }
            i = i + 1;
        } else {
            let mut j: usize = i;
            while j < slen && !space_char(s.get_char(j))
                invariant
                    slen == s@.len(),
                    i <= j <= slen,
                    forall|k: int| i <= k < j ==> !is_space(s@[k]),
                decreases slen - j,
            {
                j = j + 1;
            }
            let tok = s.substring_char(i, j).to_owned();
            proof {
                let t = s@.subrange(i as int, slen as int);
                assert(forall|k: int| 0 <= k < j - i ==> t[k] == s@[i + k]);
                lemma_token_len_run(t, j - i);
                assert(t.subrange(0, (j - i) as int) =~= s@.subrange(i as int, j as int));
                assert(t.subrange((j - i) as int, t.len() as int) =~= s@.subrange(
                    j as int,
                    slen as int,
                ));
                assert(views_of(toks@.push(tok)) =~= views_of(toks@) + seq![tok@]);
                assert(views_of(toks@.push(tok)) + spec_tokens(s@.subrange(j as int, slen as int))
                    =~= views_of(toks@) + spec_tokens(t));
            }
            toks.push(tok);
            i = j;
        }
    }
    proof {
        assert(spec_tokens(s@.subrange(i as int, slen as int)) =~= Seq::<Seq<char>>::empty());
        assert(views_of(toks@) =~= views_of(toks@) + Seq::<Seq<char>>::empty());
    }
    toks
}

/// The characters of an optional string: empty when absent.
pub open spec fn spec_opt_str(o: Option<String>) -> Seq<char> {
    match o {
        Some(s) => s@,
        None => Seq::empty(),
    }
}

/// The character for decimal digit `d`.
pub open spec fn spec_digit(d: int) -> char {
    ((d + 48) as u8) as char
}

/// The decimal rendering of a nonnegative integer, most significant digit first.
pub open spec fn spec_dec(n: int) -> Seq<char>
    recommends
        n >= 0,
    decreases n,
{
    if n < 10 {
        seq![spec_digit(n)]
    } else {
        spec_dec(n / 10) + seq![spec_digit(n % 10)]
    }
}

/// A one-character string for a single decimal digit.
fn digit_str(d: u64) -> (r: String)
    requires
        d < 10,
    ensures
        r@ == seq![spec_digit(d as int)],
{
    let r: String = if d == 0 {
        proof {
            reveal_strlit("0");
        }
        String::from_str("0")
    } else if d == 1 {
        proof {
            reveal_strlit("1");
        }
        String::from_str("1")
    } else if d == 2 {
        proof {
            reveal_strlit("2");
        }
        String::from_str("2")
    } else if d == 3 {
        proof {
            reveal_strlit("3");
        }
        String::from_str("3")
    } else if d == 4 {
        proof {
            reveal_strlit("4");
        }
        String::from_str("4")
    } else if d == 5 {
        proof {
            reveal_strlit("5");
        }
        String::from_str("5")
    } else if d == 6 {
        proof {
            reveal_strlit("6");
        }
        String::from_str("6")
    } else if d == 7 {
        proof {
            reveal_strlit("7");
        }
        String::from_str("7")
    } else if d == 8 {
        proof {
            reveal_strlit("8");
        }
        String::from_str("8")
    } else {
        proof {
            reveal_strlit("9");
        }
        String::from_str("9")
    };
    proof {
        assert(r@ =~= seq![spec_digit(d as int)]);
    }
    r
}

/// Decimal rendering of a `u64`.
pub fn u64_to_string(n: u64) -> (r: String)
    ensures
        r@ == spec_dec(n as int),
    decreases n,
{
    if n < 10 {
        digit_str(n)
    } else {
        let mut s = u64_to_string(n / 10);
        let d = digit_str(n % 10);
        s.append(d.as_str());
        s
    }
}

/// The decimal rendering of a signed integer: a minus sign for negatives.
pub open spec fn spec_dec_signed(n: int) -> Seq<char> {
    if n < 0 {
        seq!['-'] + spec_dec(-n)
    } else {
        spec_dec(n)
    }
}

/// Decimal rendering of an `i64`.
pub fn i64_to_string(n: i64) -> (r: String)
    ensures
        r@ == spec_dec_signed(n as int),
{
    if n < 0 {
        let m: u64 = (-(n as i128)) as u64;
        proof {
            reveal_strlit("-");
        }
        let mut s = String::from_str("-");
        let mag = u64_to_string(m);
        s.append(mag.as_str());
        proof {
            assert(s@ =~= spec_dec_signed(n as int));
        }
        s
    } else {
        u64_to_string(n as u64)
    }
}

} // verus!
