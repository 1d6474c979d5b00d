//! Plain-text utilities: substring search, scan-left replacement, and
//! decimal formatting of integers. These carry the exact specifications
//! that the expression expander and the query URL builder build on.

use vstd::prelude::*;
use vstd::string::*;

verus! {

/// `pat` occurs in `s` starting at index `i`.
pub open spec fn matches_at(s: Seq<char>, pat: Seq<char>, i: int) -> bool {
    0 <= i && i + pat.len() <= s.len() && s.subrange(i, i + pat.len()) == pat
}

/// `pat` occurs somewhere in `s`.
pub open spec fn contains_token(s: Seq<char>, pat: Seq<char>) -> bool {
    exists|i: int| matches_at(s, pat, i)
}

/// `s` with every occurrence of `pat` replaced by `to`, scanning left to
/// right and never re-examining replacement text. An empty pattern leaves
/// `s` unchanged.
pub open spec fn replaced(s: Seq<char>, pat: Seq<char>, to: Seq<char>) -> Seq<char>
    decreases s.len(),
{
    if pat.len() == 0 || s.len() < pat.len() {
        s
    } else if s.subrange(0, pat.len() as int) == pat {
        to + replaced(s.skip(pat.len() as int), pat, to)
    } else {
        seq![s[0]] + replaced(s.skip(1), pat, to)
    }
}

/// Whether `pat` matches in `s` at position `i`; checked character by
/// character.
pub fn str_matches_at(s: &str, i: usize, pat: &str) -> (r: bool)
    requires
        i + pat@.len() <= s@.len(),
    ensures
        r == matches_at(s@, pat@, i as int),
{
    let n = s.unicode_len();
    let p = pat.unicode_len();
    let mut j: usize = 0;
    while j < p
        invariant
            j <= p,
            n == s@.len(),
            p == pat@.len(),
            i + p <= n,
            forall|k: int| 0 <= k < j ==> s@[i + k] == pat@[k],
        decreases p - j,
    {
        if s.get_char(i + j) != pat.get_char(j) {
            proof {
                let sub = s@.subrange(i as int, i + p);
                assert(sub[j as int] == s@[i + j]);
                assert(sub != pat@);
            }
            return false;
        }
        j += 1;
    }
    proof {
        assert(s@.subrange(i as int, i + p) =~= pat@);
    }
    true
}

/// Whether `pat` occurs anywhere in `s`.
pub fn str_contains(s: &str, pat: &str) -> (r: bool)
    ensures
        r == contains_token(s@, pat@),
{
    let n = s.unicode_len();
    let p = pat.unicode_len();
    if p == 0 {
        proof {
            assert(s@.subrange(0, 0) =~= pat@);
            assert(matches_at(s@, pat@, 0));
        }
        return true;
    }
    if p > n {
        proof {
            assert(forall|i: int| !matches_at(s@, pat@, i));
        }
        return false;
    }
    let mut i: usize = 0;
    while i <= n - p
        invariant
            1 <= p <= n,
            n == s@.len(),
            p == pat@.len(),
            i <= n - p + 1,
            forall|k: int| 0 <= k < i ==> !matches_at(s@, pat@, k),
        decreases n - i,
    {
        if str_matches_at(s, i, pat) {
            return true;
        }
        i += 1;
    }
    proof {
        assert(forall|k: int| matches_at(s@, pat@, k) ==> 0 <= k <= n - p);
    }
    false
}

/// `s` with every occurrence of `pat` replaced by `to`, scanning left to
/// right.
pub fn replace_all(s: &str, pat: &str, to: &str) -> (r: String)
    requires
        pat@.len() >= 1,
    ensures
        r@ == replaced(s@, pat@, to@),
{
    let n = s.unicode_len();
    let p = pat.unicode_len();
    let mut out = String::new();
    proof {
        assert(s@.skip(0) =~= s@);
        assert(Seq::<char>::empty() + replaced(s@, pat@, to@) =~= replaced(s@, pat@, to@));
    }
    let mut i: usize = 0;
    while i < n
        invariant
            i <= n,
            n == s@.len(),
            p == pat@.len(),
            1 <= p,
            replaced(s@, pat@, to@) == out@ + replaced(s@.skip(i as int), pat@, to@),
        decreases n - i,
    {
        let ghost rest = s@.skip(i as int);
        if p <= n - i && str_matches_at(s, i, pat) {
            proof {
                assert(rest.subrange(0, p as int) =~= s@.subrange(i as int, i + p));
                assert(rest.skip(p as int) =~= s@.skip(i + p));
                assert(replaced(rest, pat@, to@) == to@ + replaced(s@.skip(i + p), pat@, to@));
            }
            out.append(to);
            i += p;
        } else {
            proof {
                if p <= n - i {
                    assert(rest.subrange(0, p as int) =~= s@.subrange(i as int, i + p));
                } else {
                    assert(rest.len() < p);
                }
                assert(rest.skip(1) =~= s@.skip(i + 1));
                if rest.len() >= p {
                    assert(replaced(rest, pat@, to@) == seq![s@[i as int]] + replaced(
                        s@.skip(i + 1),
                        pat@,
                        to@,
                    ));
                }
            }
            let c = s.substring_char(i, i + 1);
            proof {
                assert(c@ =~= seq![s@[i as int]]);
            }
            out.append(c);
            i += 1;
            proof {
                if s@.skip(i - 1).len() < p {
                    // near the end of `s` no further match fits, so the
                    // remaining characters are copied over one by one
                    assert(replaced(s@.skip(i - 1), pat@, to@) == s@.skip(i - 1));
                    assert(s@.skip(i - 1) =~= seq![s@[i - 1]] + s@.skip(i as int));
                    assert(replaced(s@.skip(i as int), pat@, to@) == s@.skip(i as int));
                }
            }
        }
    }
    proof {
        assert(s@.skip(n as int) =~= Seq::<char>::empty());
        assert(replaced(s@.skip(n as int), pat@, to@) =~= Seq::<char>::empty());
        assert(out@ + Seq::<char>::empty() =~= out@);
    }
    out
}

/// No character of `s` is `c`.
pub open spec fn lacks_char(s: Seq<char>, c: char) -> bool {
    forall|i: int| 0 <= i < s.len() ==> s[i] != c
}

/// Any two occurrences of `c` in `s` lie at least `d` positions apart.
pub open spec fn isolated_marks(s: Seq<char>, c: char, d: int) -> bool {
    forall|i: int, j: int| 0 <= i < j < s.len() && s[i] == c && s[j] == c ==> j - i >= d
}

/// Law: a token that does not occur in a string is left untouched by
/// replacing that token, so unresolved references survive verbatim.
pub proof fn lemma_replaced_absent(s: Seq<char>, pat: Seq<char>, to: Seq<char>)
    requires
        !contains_token(s, pat),
    ensures
        replaced(s, pat, to) == s,
    decreases s.len(),
{
    if pat.len() == 0 || s.len() < pat.len() {
    } else if s.subrange(0, pat.len() as int) == pat {
        assert(matches_at(s, pat, 0));
    } else {
        if contains_token(s.skip(1), pat) {
            let i = choose|i: int| matches_at(s.skip(1), pat, i);
            assert(s.subrange(i + 1, i + 1 + pat.len()) =~= s.skip(1).subrange(
                i,
                i + pat.len(),
            ));
            assert(matches_at(s, pat, i + 1));
        }
        lemma_replaced_absent(s.skip(1), pat, to);
        assert(seq![s[0]] + s.skip(1) =~= s);
    }
}

/// If the output of a replacement starts with a proper tail of the pattern,
/// and neither the replacement text nor the input's leading characters can
/// supply the pattern's first character, then the input itself starts with
/// that tail.
proof fn lemma_replaced_prefix(t: Seq<char>, pat: Seq<char>, to: Seq<char>, j: int)
    requires
        1 <= j < pat.len(),
        lacks_char(to, pat[0]),
        forall|k: int| 0 <= k < pat.len() - j && k < t.len() ==> t[k] != pat[0],
        replaced(t, pat, to).len() >= pat.len() - j,
        replaced(t, pat, to).subrange(0, pat.len() - j) == pat.skip(j),
    ensures
        t.len() >= pat.len() - j,
        t.subrange(0, pat.len() - j) == pat.skip(j),
    decreases t.len(),
{
    let p = pat.len() as int;
    if t.len() < p {
        assert(replaced(t, pat, to) == t);
    } else if t.subrange(0, p) == pat {
        assert(pat.skip(j)[0] == pat[j]);
        assert(replaced(t, pat, to) == to + replaced(t.skip(p), pat, to));
        if to.len() > 0 {
            assert(replaced(t, pat, to)[0] == to[0]);
            assert(to[0] == pat[j]);
            assert(pat[j] != pat[0] || t[0] == pat[0]);
            // a match at the head would place `pat[0]` among the leading
            // characters of `t`, which the hypothesis rules out
            assert(t[0] == pat[0]);
            assert(false);
        } else {
            assert(t[0] == pat[0]);
            assert(false);
        }
    } else {
        assert(replaced(t, pat, to) == seq![t[0]] + replaced(t.skip(1), pat, to));
        assert(replaced(t, pat, to)[0] == t[0]);
        assert(t[0] == pat.skip(j)[0]);
        assert(pat.skip(j)[0] == pat[j]);
        if p - j == 1 {
            assert(t.subrange(0, 1) =~= seq![t[0]]);
            assert(seq![t[0]] =~= pat.skip(j));
        } else {
            let r1 = replaced(t.skip(1), pat, to);
            assert forall|k: int|
                0 <= k < p - (j + 1) && k < t.skip(1).len() implies t.skip(1)[k] != pat[0] by {
                assert(t.skip(1)[k] == t[k + 1]);
            }
            assert(r1.subrange(0, p - j - 1) =~= replaced(t, pat, to).subrange(1, p - j));
            assert(pat.skip(j + 1) =~= pat.skip(j).subrange(1, p - j));
            assert(r1.subrange(0, p - (j + 1)) == pat.skip(j + 1));
            lemma_replaced_prefix(t.skip(1), pat, to, j + 1);
            assert(t.skip(1).subrange(0, p - j - 1) =~= t.subrange(1, p - j));
            assert(t.subrange(0, p - j) =~= seq![t[0]] + t.subrange(1, p - j));
            assert(pat.skip(j) =~= seq![pat[j]] + pat.skip(j + 1));
            assert(t.subrange(0, p - j) =~= pat.skip(j));
        }
    }
}

/// Law: after replacing a token whose replacement text does not contain the
/// token's first character, and whose first character never occurs twice
/// within one token-length in the input, no occurrence of the token remains.
pub proof fn lemma_replaced_removes(s: Seq<char>, pat: Seq<char>, to: Seq<char>)
    requires
        pat.len() >= 1,
        lacks_char(to, pat[0]),
        isolated_marks(s, pat[0], pat.len() as int),
    ensures
        !contains_token(replaced(s, pat, to), pat),
    decreases s.len(),
{
    let p = pat.len() as int;
    let r = replaced(s, pat, to);
    if s.len() < p {
        assert(r == s);
        if contains_token(r, pat) {
            let q = choose|q: int| matches_at(r, pat, q);
            assert(q + p <= r.len());
            assert(false);
        }
    } else if s.subrange(0, p) == pat {
        let rest = replaced(s.skip(p), pat, to);
        assert forall|i: int, j: int|
            0 <= i < j < s.skip(p).len() && s.skip(p)[i] == pat[0] && s.skip(p)[j]
                == pat[0] implies j - i >= p by {
            assert(s.skip(p)[i] == s[i + p] && s.skip(p)[j] == s[j + p]);
        }
        lemma_replaced_removes(s.skip(p), pat, to);
        assert(r == to + rest);
        if contains_token(r, pat) {
            let q = choose|q: int| matches_at(r, pat, q);
            assert(r[q] == r.subrange(q, q + p)[0]);
            assert(r[q] == pat[0]);
            if q < to.len() {
                assert(r[q] == to[q]);
                assert(false);
            } else {
                assert(rest.subrange(q - to.len(), q - to.len() + p) =~= r.subrange(q, q + p));
                assert(matches_at(rest, pat, q - to.len()));
                assert(false);
            }
        }
    } else {
        let rest = replaced(s.skip(1), pat, to);
        assert forall|i: int, j: int|
            0 <= i < j < s.skip(1).len() && s.skip(1)[i] == pat[0] && s.skip(1)[j]
                == pat[0] implies j - i >= p by {
            assert(s.skip(1)[i] == s[i + 1] && s.skip(1)[j] == s[j + 1]);
        }
        lemma_replaced_removes(s.skip(1), pat, to);
        assert(r == seq![s[0]] + rest);
        if contains_token(r, pat) {
            let q = choose|q: int| matches_at(r, pat, q);
            if q >= 1 {
                assert(rest.subrange(q - 1, q - 1 + p) =~= r.subrange(q, q + p));
                assert(matches_at(rest, pat, q - 1));
                assert(false);
            } else {
                assert(r.subrange(0, p)[0] == r[0]);
                assert(s[0] == pat[0]);
                if p == 1 {
                    assert(s.subrange(0, 1) =~= seq![s[0]]);
                    assert(seq![s[0]] =~= pat);
                    assert(false);
                } else {
                    assert forall|k: int|
                        0 <= k < p - 1 && k < s.skip(1).len() implies s.skip(1)[k] != pat[0] by {
                        assert(s.skip(1)[k] == s[k + 1]);
                        if s[k + 1] == pat[0] {
                            assert(0 <= 0 < k + 1 < s.len() && s[0] == pat[0] && s[k + 1]
                                == pat[0]);
                        }
                    }
                    assert(rest.subrange(0, p - 1) =~= r.subrange(1, p));
                    assert(pat.skip(1) =~= pat.subrange(1, p));
                    assert(r.subrange(1, p) =~= r.subrange(0, p).subrange(1, p));
                    assert(rest.len() >= p - 1);
                    assert(rest.subrange(0, p - 1) == pat.skip(1));
                    lemma_replaced_prefix(s.skip(1), pat, to, 1);
                    assert(s.skip(1).subrange(0, p - 1) =~= s.subrange(1, p));
                    assert(s.subrange(0, p) =~= seq![s[0]] + s.subrange(1, p));
                    assert(pat =~= seq![pat[0]] + pat.skip(1));
                    assert(s.subrange(0, p) == pat);
                    assert(false);
                }
            }
        }
    }
}

/// Whether two strings hold the same characters.
pub fn str_eq(a: &str, b: &str) -> (r: bool)
    ensures
        r == (a@ == b@),
{
    let n = a.unicode_len();
    let m = b.unicode_len();
    if n != m {
        return false;
    }
    let mut i: usize = 0;
    while i < n
        invariant
            n == a@.len(),
            n == b@.len(),
            i <= n,
            forall|k: int| 0 <= k < i ==> a@[k] == b@[k],
        decreases n - i,
    {
        if a.get_char(i) != b.get_char(i) {
            return false;
        }
        i += 1;
    }
    proof {
        assert(a@ =~= b@);
    }
    true
}

/// The index of the first `'='` in `s`, or a negative value when there is
/// none.
pub open spec fn first_eq(s: Seq<char>) -> int
    decreases s.len(),
{
    if s.len() == 0 {
        -1
    } else if s[0] == '=' {
        0
    } else {
        let r = first_eq(s.skip(1));
        if r < 0 {
            -1
        } else {
            r + 1
        }
    }
}

/// `first_eq` names the leftmost `'='` when one exists, and is negative
/// exactly when none does.
pub proof fn lemma_first_eq(s: Seq<char>)
    ensures
        first_eq(s) >= 0 ==> first_eq(s) < s.len() && s[first_eq(s)] == '=' && forall|k: int|
            0 <= k < first_eq(s) ==> s[k] != '=',
        first_eq(s) < 0 ==> forall|k: int| 0 <= k < s.len() ==> s[k] != '=',
    decreases s.len(),
{
    if s.len() == 0 {
    } else if s[0] == '=' {
    } else {
        lemma_first_eq(s.skip(1));
        let r = first_eq(s.skip(1));
        if r >= 0 {
            assert(s[r + 1] == s.skip(1)[r]);
            assert forall|k: int| 0 <= k < r + 1 implies s[k] != '=' by {
                if k > 0 {
                    assert(s[k] == s.skip(1)[k - 1]);
                }
            }
        } else {
            assert forall|k: int| 0 <= k < s.len() implies s[k] != '=' by {
                if k > 0 {
                    assert(s[k] == s.skip(1)[k - 1]);
                }
            }
        }
    }
}

/// The decimal character for a single digit.
pub open spec fn digit_char(d: int) -> char {
    if d == 0 {
        '0'
    } else if d == 1 {
        '1'
    } else if d == 2 {
        '2'
    } else if d == 3 {
        '3'
    } else if d == 4 {
        '4'
    } else if d == 5 {
        '5'
    } else if d == 6 {
        '6'
    } else if d == 7 {
        '7'
    } else if d == 8 {
        '8'
    } else {
        '9'
    }
}

/// The decimal rendering of a natural number, most significant digit first,
/// with no leading zeros (a single `'0'` for zero).
pub open spec fn dec_str(n: nat) -> Seq<char>
    decreases n,
{
    if n < 10 {
        seq![digit_char(n as int)]
    } else {
        dec_str(n / 10).push(digit_char((n % 10) as int))
    }
}

/// The decimal rendering of an integer, with a leading `'-'` when negative.
pub open spec fn dec_str_signed(v: int) -> Seq<char> {
    if v < 0 {
        seq!['-'] + dec_str((-v) as nat)
    } else {
        dec_str(v as nat)
    }
}

fn digit_str(d: u64) -> (r: &'static str)
    requires
        d < 10,
    ensures
        r@ == seq![digit_char(d as int)],
{
    if d == 0 {
        proof {
            reveal_strlit("0");
            assert("0"@ =~= seq![digit_char(0)]);
        }
        "0"
    } else if d == 1 {
        proof {
            reveal_strlit("1");
            assert("1"@ =~= seq![digit_char(1)]);
        }
        "1"
    } else if d == 2 {
        proof {
            reveal_strlit("2");
            assert("2"@ =~= seq![digit_char(2)]);
        }
        "2"
    } else if d == 3 {
        proof {
            reveal_strlit("3");
            assert("3"@ =~= seq![digit_char(3)]);
        }
        "3"
    } else if d == 4 {
        proof {
            reveal_strlit("4");
            assert("4"@ =~= seq![digit_char(4)]);
        }
        "4"
    } else if d == 5 {
        proof {
            reveal_strlit("5");
            assert("5"@ =~= seq![digit_char(5)]);
        }
        "5"
    } else if d == 6 {
        proof {
            reveal_strlit("6");
            assert("6"@ =~= seq![digit_char(6)]);
        }
        "6"
    } else if d == 7 {
        proof {
            reveal_strlit("7");
            assert("7"@ =~= seq![digit_char(7)]);
        }
        "7"
    } else if d == 8 {
        proof {
            reveal_strlit("8");
            assert("8"@ =~= seq![digit_char(8)]);
        }
        "8"
    } else {
        proof {
            reveal_strlit("9");
            assert("9"@ =~= seq![digit_char(9)]);
        }
        "9"
    }
}

/// The decimal rendering of an unsigned integer.
pub fn u64_to_dec(n: u64) -> (r: String)
    ensures
        r@ == dec_str(n as nat),
    decreases n,
{
    if n < 10 {
        digit_str(n).to_owned()
    } else {
        let mut s = u64_to_dec(n / 10);
        s.append(digit_str(n % 10));
        proof {
            assert(s@ =~= dec_str((n / 10) as nat).push(digit_char((n % 10) as int)));
        }
        s
    }
}

/// The decimal rendering of a signed integer.
pub fn i64_to_dec(n: i64) -> (r: String)
    ensures
        r@ == dec_str_signed(n as int),
{
    if n >= 0 {
        u64_to_dec(n as u64)
    } else {
        let mag: u64 = ((-(n + 1)) as u64) + 1;
        proof {
            assert(mag as int == -(n as int));
        }
        let mut s = String::from_str("-");
        proof {
            reveal_strlit("-");
            assert(s@ =~= seq!['-']);
        }
        let digits = u64_to_dec(mag);
        s.append(digits.as_str());
        s
    }
}

} // verus!
