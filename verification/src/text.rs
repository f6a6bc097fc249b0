//! String utilities: lexicographic order on strings (the order in which a
//! key-value store walks its byte-encoded keys), decimal rendering of
//! unsigned integers for event attributes, and decimal parsing.

use vstd::prelude::*;

verus! {

use vstd::string::StrSliceExecFns;
use vstd::string::StringExecFns;
use vstd::arithmetic::div_mod::{lemma_fundamental_div_mod, lemma_mod_bound};

// ---------------------------------------------------------------------------
// Lexicographic order on character sequences.
//
// UTF-8 encodes larger code points as larger byte sequences, so ordering
// strings by code point coincides with ordering their UTF-8 bytes, which is
// how a key-value store orders string keys.
// ---------------------------------------------------------------------------

/// Strict lexicographic order by unicode code point.
pub open spec fn lex_lt(a: Seq<char>, b: Seq<char>) -> bool
    decreases b.len(),
{
    if b.len() == 0 {
        false
    } else if a.len() == 0 {
        true
    } else if a[0] != b[0] {
        (a[0] as u32) < (b[0] as u32)
    } else {
        lex_lt(a.skip(1), b.skip(1))
    }
}

/// Two sequences neither of which precedes the other are equal.
pub proof fn lemma_lex_connex(a: Seq<char>, b: Seq<char>)
    requires
        !lex_lt(a, b),
        !lex_lt(b, a),
    ensures
        a == b,
    decreases a.len(),
{
    if a.len() == 0 {
        assert(b.len() == 0);
        assert(a =~= b);
    } else {
        assert(b.len() != 0);
        assert((a[0] as u32) == (b[0] as u32));
        assert(a[0] == b[0]) by {
            vstd::utf8::char_u32_cast(a[0], a[0] as u32);
            vstd::utf8::char_u32_cast(b[0], b[0] as u32);
        }
        lemma_lex_connex(a.skip(1), b.skip(1));
        assert(a.skip(1).len() == b.skip(1).len());
        assert(a.len() == b.len());
        assert forall|i: int| 0 <= i < a.len() implies a[i] == b[i] by {
            if i >= 1 {
                assert(a[i] == a.skip(1)[i - 1]);
                assert(b[i] == b.skip(1)[i - 1]);
            }
        }
        assert(a =~= b);
    }
}

/// No sequence precedes itself.
pub proof fn lemma_lex_irreflexive(a: Seq<char>)
    ensures
        !lex_lt(a, a),
    decreases a.len(),
{
    if a.len() > 0 {
        lemma_lex_irreflexive(a.skip(1));
    }
}

/// Lexicographic order is transitive.
pub proof fn lemma_lex_transitive(a: Seq<char>, b: Seq<char>, c: Seq<char>)
    requires
        lex_lt(a, b),
        lex_lt(b, c),
    ensures
        lex_lt(a, c),
    decreases a.len() + b.len() + c.len(),
{
    if b.len() == 0 {
        // lex_lt(a, b) would be false
        assert(false);
    } else if c.len() == 0 {
        assert(false);
    } else if a.len() == 0 {
        // a precedes every non-empty sequence
    } else {
        if a[0] == b[0] && b[0] == c[0] {
            lemma_lex_transitive(a.skip(1), b.skip(1), c.skip(1));
        }
    }
}

/// Skipping one more element on both sides of two sequences that agree at
/// position `i` does not change their relative order.
proof fn lemma_lex_skip_step(a: Seq<char>, b: Seq<char>, i: int)
    requires
        0 <= i < a.len(),
        0 <= i < b.len(),
        a[i] == b[i],
    ensures
        lex_lt(a.skip(i), b.skip(i)) == lex_lt(a.skip(i + 1), b.skip(i + 1)),
{
    assert(a.skip(i).len() > 0);
    assert(b.skip(i).len() > 0);
    assert(a.skip(i)[0] == a[i]);
    assert(b.skip(i)[0] == b[i]);
    assert(a.skip(i).skip(1) =~= a.skip(i + 1));
    assert(b.skip(i).skip(1) =~= b.skip(i + 1));
}

/// Decides `lex_lt(a@, b@)` executably.
pub fn str_lt(a: &str, b: &str) -> (r: bool)
    ensures
        r == lex_lt(a@, b@),
{
    let a_len: usize = a.unicode_len();
    let b_len: usize = b.unicode_len();
    let mut i: usize = 0;
    assert(a@.skip(0) =~= a@);
    assert(b@.skip(0) =~= b@);
    while i < a_len && i < b_len
        invariant
            i <= a_len,
            i <= b_len,
            a_len == a@.len(),
            b_len == b@.len(),
            lex_lt(a@, b@) == lex_lt(a@.skip(i as int), b@.skip(i as int)),
        decreases a_len - i,
    {
        let ca = a.get_char(i);
        let cb = b.get_char(i);
        if ca != cb {
            assert(a@.skip(i as int)[0] == ca);
            assert(b@.skip(i as int)[0] == cb);
            return (ca as u32) < (cb as u32);
        }
        proof {
            lemma_lex_skip_step(a@, b@, i as int);
        }
        i = i + 1;
    }
    if i == b_len {
        assert(b@.skip(i as int).len() == 0);
        false
    } else {
        assert(a@.skip(i as int).len() == 0);
        assert(b@.skip(i as int).len() > 0);
        true
    }
}

/// String equality at the view level, decided by the standard comparison.
pub fn str_eq(a: &String, b: &String) -> (r: bool)
    ensures
        r == (a@ == b@),
{
    a.eq(b)
}

/// String-slice equality at the view level, decided by two ordered
/// comparisons.
pub fn str_eq_str(a: &str, b: &str) -> (r: bool)
    ensures
        r == (a@ == b@),
{
    if str_lt(a, b) {
        proof {
            if a@ == b@ {
                lemma_lex_irreflexive(a@);
            }
        }
        false
    } else if str_lt(b, a) {
        proof {
            if a@ == b@ {
                lemma_lex_irreflexive(a@);
            }
        }
        false
    } else {
        proof {
            lemma_lex_connex(a@, b@);
        }
        true
    }
}

// ---------------------------------------------------------------------------
// Decimal rendering of unsigned integers.
// ---------------------------------------------------------------------------

/// The character for one decimal digit.
pub open spec fn dec_digit(d: int) -> char {
    if d == 0 {
        '0'
    } else if d == 1 {
        '1'
    } else if d == 2 {
        '2'
    } else if d == 3 {
        '3'
    } else if d == 4 {
        '4'
    } else if d == 5 {
        '5'
    } else if d == 6 {
        '6'
    } else if d == 7 {
        '7'
    } else if d == 8 {
        '8'
    } else {
        '9'
    }
}

/// The decimal rendering of a non-negative integer, without leading zeros
/// (except for the number 0 itself).
pub open spec fn dec_str(n: int) -> Seq<char>
    decreases n,
{
    if n < 10 {
        seq![dec_digit(n)]
    } else {
        dec_str(n / 10).push(dec_digit(n % 10))
    }
}

/// A one-character string for one decimal digit.
fn dec_digit_str(d: u128) -> (r: &'static str)
    requires
        d < 10,
    ensures
        r@ =~= seq![dec_digit(d as int)],
{
    proof {
        reveal_strlit("0");
        reveal_strlit("1");
        reveal_strlit("2");
        reveal_strlit("3");
        reveal_strlit("4");
        reveal_strlit("5");
        reveal_strlit("6");
        reveal_strlit("7");
        reveal_strlit("8");
        reveal_strlit("9");
    }
    if d == 0 {
        "0"
    } else if d == 1 {
        "1"
    } else if d == 2 {
        "2"
    } else if d == 3 {
        "3"
    } else if d == 4 {
        "4"
    } else if d == 5 {
        "5"
    } else if d == 6 {
        "6"
    } else if d == 7 {
        "7"
    } else if d == 8 {
        "8"
    } else {
        "9"
    }
}

/// Renders `n` in decimal.
pub fn u128_to_string(n: u128) -> (r: String)
    ensures
        r@ == dec_str(n as int),
    decreases n,
{
    if n < 10 {
        String::from_str(dec_digit_str(n))
    } else {
        proof {
            lemma_fundamental_div_mod(n as int, 10);
            lemma_mod_bound(n as int, 10);
        }
        assert(n / 10 < n) by (nonlinear_arith)
            requires n >= 10;
        let mut s = u128_to_string(n / 10);
        s.append(dec_digit_str(n % 10));
        s
    }
}

/// Renders `n` in decimal.
pub fn u64_to_string(n: u64) -> (r: String)
    ensures
        r@ == dec_str(n as int),
{
    u128_to_string(n as u128)
}

// ---------------------------------------------------------------------------
// Decimal parsing.
// ---------------------------------------------------------------------------

/// Whether `c` is an ASCII decimal digit.
pub open spec fn is_dec_digit(c: char) -> bool {
    48 <= (c as u32) <= 57
}

/// The numeric value of one ASCII digit character.
pub open spec fn digit_val(c: char) -> int {
    (c as u32) - 48
}

/// The value of a sequence of ASCII digits, most significant first.
pub open spec fn dec_val(s: Seq<char>) -> int
    decreases s.len(),
{
    if s.len() == 0 {
        0
    } else {
        dec_val(s.drop_last()) * 10 + digit_val(s.last())
    }
}

/// Whether every character of `s` is an ASCII digit.
pub open spec fn all_dec_digits(s: Seq<char>) -> bool {
    forall|i: int| 0 <= i < s.len() ==> is_dec_digit(#[trigger] s[i])
}

// ---------------------------------------------------------------------------
// Vectors of strings.
// ---------------------------------------------------------------------------

/// No two elements are equal.
pub open spec fn distinct_seqs(l: Seq<Seq<char>>) -> bool {
    forall|i: int, j: int| 0 <= i < j < l.len() ==> #[trigger] l[i] != #[trigger] l[j]
}

/// The character sequences of a sequence of strings.
pub open spec fn strings_view(v: Seq<String>) -> Seq<Seq<char>> {
    v.map_values(|s: String| s@)
}

/// Whether some string of `v` reads `s`.
pub fn contains_string(v: &Vec<String>, s: &str) -> (r: bool)
    ensures
        r == strings_view(v@).contains(s@),
{
    let n = v.len();
    let mut i: usize = 0;
    while i < n
        invariant
            i <= n,
            n == v@.len(),
            forall|j: int| 0 <= j < i ==> strings_view(v@)[j] != s@,
        decreases n - i,
    {
        if str_eq_str(v[i].as_str(), s) {
            assert(strings_view(v@)[i as int] == s@);
            return true;
        }
        i = i + 1;
    }
    false
}

/// A copy of a vector of strings.
pub fn clone_strings(v: &Vec<String>) -> (r: Vec<String>)
    ensures
        r@ == v@,
{
    let n = v.len();
    let mut r: Vec<String> = Vec::new();
    let mut i: usize = 0;
    while i < n
        invariant
            i <= n,
            n == v@.len(),
            r@ =~= v@.take(i as int),
        decreases n - i,
    {
        r.push(v[i].clone());
        assert(r@ =~= v@.take(i as int + 1));
        i = i + 1;
    }
    assert(r@ =~= v@);
    r
}

// ---------------------------------------------------------------------------
// Rendering lists for event attributes.
// ---------------------------------------------------------------------------

/// The elements joined with commas.
pub open spec fn joined(l: Seq<Seq<char>>) -> Seq<char>
    decreases l.len(),
{
    if l.len() == 0 {
        Seq::empty()
    } else if l.len() == 1 {
        l[0]
    } else {
        joined(l.drop_last()) + ","@ + l.last()
    }
}

/// Joins strings with commas.
pub fn join_strings(v: &Vec<String>) -> (r: String)
    ensures
        r@ == joined(strings_view(v@)),
{
    let n = v.len();
    let mut r = String::new();
    let mut i: usize = 0;
    proof {
        assert(strings_view(v@).take(0) =~= Seq::<Seq<char>>::empty());
        assert(r@ =~= joined(strings_view(v@).take(0)));
    }
    while i < n
        invariant
            i <= n,
            n == v@.len(),
            r@ == joined(strings_view(v@).take(i as int)),
        decreases n - i,
    {
        if i > 0 {
            r.append(",");
        }
        r.append(v[i].as_str());
        proof {
            let l = strings_view(v@);
            assert(l.take(i as int + 1).drop_last() =~= l.take(i as int));
            assert(l.take(i as int + 1).last() == l[i as int]);
            if i == 0 {
                assert(l.take(1) =~= seq![l[0]]);
            }
        }
        i = i + 1;
    }
    proof {
        assert(strings_view(v@).take(n as int) =~= strings_view(v@));
    }
    r
}

} // verus!
