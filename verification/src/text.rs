//! Decimal digits and small character-sequence helpers shared by the
//! resolution parser and the command builders.

use vstd::prelude::*;
use vstd::string::StrSliceExecFns;
use vstd::string::StringExecFns;

verus! {

/// An ASCII decimal digit.
pub open spec fn is_digit(c: char) -> bool {
    48 <= c as u32 <= 57
}

/// The numeric value of a digit character.
pub open spec fn digit_val(c: char) -> int {
    c as u32 - 48
}

/// The digit character for a value in `0..=9`.
pub open spec fn digit_char(d: int) -> char {
    if d == 0 {
        '0'
    } else if d == 1 {
        '1'
    } else if d == 2 {
        '2'
    } else if d == 3 {
        '3'
    } else if d == 4 {
        '4'
    } else if d == 5 {
        '5'
    } else if d == 6 {
        '6'
    } else if d == 7 {
        '7'
    } else if d == 8 {
        '8'
    } else {
        '9'
    }
}

/// Every character of `s` is a decimal digit.
pub open spec fn all_digits(s: Seq<char>) -> bool {
    forall|i: int| 0 <= i < s.len() ==> is_digit(#[trigger] s[i])
}

/// The number a digit string denotes, most significant digit first.
pub open spec fn digits_val(s: Seq<char>) -> int
    decreases s.len(),
{
    if s.len() == 0 {
        0
    } else {
        digits_val(s.drop_last()) * 10 + digit_val(s.last())
    }
}

/// The canonical decimal spelling of `n >= 0`, without leading zeros.
pub open spec fn digits_of(n: int) -> Seq<char>
    decreases n,
{
    if n < 0 {
        Seq::empty()
    } else if n < 10 {
        seq![digit_char(n)]
    } else {
        digits_of(n / 10) + seq![digit_char(n % 10)]
    }
}

/// The index of the first occurrence of `c` in `s`, or `-1`.
pub open spec fn find_char(s: Seq<char>, c: char) -> int
    decreases s.len(),
{
    if s.len() == 0 {
        -1
    } else if s[0] == c {
        0
    } else {
        let r = find_char(s.subrange(1, s.len() as int), c);
        if r == -1 {
            -1
        } else {
            r + 1
        }
    }
}

/// ASCII whitespace, as the parser strips it.
pub open spec fn is_space(c: char) -> bool {
    c == ' ' || c == '\t' || c == '\n' || c == '\r'
}

/// `s` with leading and trailing ASCII whitespace removed.
pub open spec fn trim_spec(s: Seq<char>) -> Seq<char>
    decreases s.len(),
{
    if s.len() > 0 && is_space(s[0]) {
        trim_spec(s.subrange(1, s.len() as int))
    } else if s.len() > 0 && is_space(s.last()) {
        trim_spec(s.subrange(0, s.len() - 1))
    } else {
        s
    }
}

/// The canonical spelling of `n` consists of digits, is nonempty, and
/// denotes `n` again.
pub proof fn lemma_digits_of(n: int)
    requires
        n >= 0,
    ensures
        all_digits(digits_of(n)),
        digits_of(n).len() >= 1,
        digits_val(digits_of(n)) == n,
    decreases n,
{
    if n < 10 {
        let s = digits_of(n);
        assert(digit_val(digit_char(n)) == n);
        assert(s =~= seq![digit_char(n)]);
        assert(s.drop_last() =~= Seq::<char>::empty());
        assert(digits_val(Seq::<char>::empty()) == 0);
        assert(s.last() == digit_char(n));
    } else {
        lemma_digits_of(n / 10);
        let a = digits_of(n / 10);
        let c = digit_char(n % 10);
        assert(digit_val(c) == n % 10);
        let s = a + seq![c];
        assert(s.drop_last() =~= a);
        assert(s.last() == c);
        assert(digits_val(s) == digits_val(a) * 10 + digit_val(c));
        assert(digits_val(s) == n) by {
            vstd::arithmetic::div_mod::lemma_fundamental_div_mod(n, 10);
        }
    }
}

/// A digit string denotes a nonnegative number.
pub proof fn lemma_digits_val_nonneg(s: Seq<char>)
    requires
        all_digits(s),
    ensures
        digits_val(s) >= 0,
    decreases s.len(),
{
    if s.len() > 0 {
        assert(all_digits(s.drop_last()));
        lemma_digits_val_nonneg(s.drop_last());
    }
}

/// Extending a digit string to the right never shrinks its value.
pub proof fn lemma_digits_val_prefix_le(s: Seq<char>, k: int)
    requires
        all_digits(s),
        0 <= k <= s.len(),
    ensures
        digits_val(s.take(k)) <= digits_val(s),
    decreases s.len() - k,
{
    if k == s.len() {
        assert(s.take(k) =~= s);
    } else {
        assert(s.take(k + 1).drop_last() =~= s.take(k));
        assert(all_digits(s.take(k)));
        lemma_digits_val_nonneg(s.take(k));
        assert(digits_val(s.take(k + 1)) == digits_val(s.take(k)) * 10 + digit_val(
            s.take(k + 1).last(),
        ));
        assert(digits_val(s.take(k)) * 10 >= digits_val(s.take(k))) by (nonlinear_arith)
            requires
                digits_val(s.take(k)) >= 0,
        ;
        lemma_digits_val_prefix_le(s, k + 1);
    }
}

/// What `find_char` returns: the first occurrence, if there is one.
pub proof fn lemma_find_char(s: Seq<char>, c: char)
    ensures
        -1 <= find_char(s, c) < s.len(),
        find_char(s, c) == -1 ==> forall|i: int| 0 <= i < s.len() ==> s[i] != c,
        find_char(s, c) >= 0 ==> 0 <= find_char(s, c) < s.len() && s[find_char(s, c)] == c
            && forall|i: int| 0 <= i < find_char(s, c) ==> s[i] != c,
    decreases s.len(),
{
    if s.len() > 0 && s[0] != c {
        let t = s.subrange(1, s.len() as int);
        lemma_find_char(t, c);
        if find_char(t, c) == -1 {
            assert(find_char(s, c) == -1);
            assert forall|i: int| 0 <= i < s.len() implies s[i] != c by {
                if i >= 1 {
                    assert(s[i] == t[i - 1]);
                    assert(t[i - 1] != c);
                }
            }
        } else {
            let r = find_char(t, c);
            assert(find_char(s, c) == r + 1);
            assert(s[r + 1] == t[r]);
            assert forall|i: int| 0 <= i < r + 1 implies s[i] != c by {
                if i >= 1 {
                    assert(s[i] == t[i - 1]);
                    assert(t[i - 1] != c);
                }
            }
        }
    }
}

/// If `j` is an occurrence of `c` with none before it, `find_char`
/// returns `j`.
pub proof fn lemma_find_char_at(s: Seq<char>, c: char, j: int)
    requires
        0 <= j < s.len(),
        s[j] == c,
        forall|i: int| 0 <= i < j ==> s[i] != c,
    ensures
        find_char(s, c) == j,
{
    lemma_find_char(s, c);
}

/// If `c` does not occur, `find_char` returns `-1`.
pub proof fn lemma_find_char_none(s: Seq<char>, c: char)
    requires
        forall|i: int| 0 <= i < s.len() ==> s[i] != c,
    ensures
        find_char(s, c) == -1,
{
    lemma_find_char(s, c);
}

/// A string of nothing but whitespace trims to nothing.
pub proof fn lemma_trim_all_space(s: Seq<char>)
    requires
        forall|i: int| 0 <= i < s.len() ==> is_space(#[trigger] s[i]),
    ensures
        trim_spec(s) == Seq::<char>::empty(),
    decreases s.len(),
{
    if s.len() > 0 {
        let t = s.subrange(1, s.len() as int);
        assert(forall|i: int| 0 <= i < t.len() ==> is_space(#[trigger] t[i]));
        lemma_trim_all_space(t);
    } else {
        assert(trim_spec(s) =~= Seq::<char>::empty());
    }
}

/// Trimming removes exactly the whitespace prefix and suffix.
pub proof fn lemma_trim_subrange(s: Seq<char>, lo: int, hi: int)
    requires
        0 <= lo <= hi <= s.len(),
        forall|i: int| 0 <= i < lo ==> is_space(#[trigger] s[i]),
        forall|i: int| hi <= i < s.len() ==> is_space(#[trigger] s[i]),
        lo < hi ==> !is_space(s[lo]) && !is_space(s[hi - 1]),
    ensures
        trim_spec(s) == s.subrange(lo, hi),
    decreases s.len(),
{
    if lo == hi {
        assert(forall|i: int| 0 <= i < s.len() ==> is_space(#[trigger] s[i]));
        lemma_trim_all_space(s);
        assert(s.subrange(lo, hi) =~= Seq::<char>::empty());
    } else if is_space(s[0]) {
        let t = s.subrange(1, s.len() as int);
        assert(lo >= 1);
        lemma_trim_subrange(t, lo - 1, hi - 1);
        assert(s.subrange(lo, hi) =~= t.subrange(lo - 1, hi - 1));
    } else if is_space(s.last()) {
        // s[0] is not whitespace, so lo == 0 and hi < s.len()
        assert(lo == 0);
        assert(hi < s.len());
        let t = s.subrange(0, s.len() - 1);
        lemma_trim_subrange(t, 0, hi);
        assert(s.subrange(lo, hi) =~= t.subrange(0, hi));
    } else {
        assert(lo == 0 && hi == s.len());
        assert(s.subrange(lo, hi) =~= s);
    }
}

/// Relies on std's `String::push`: appends one character.
#[verifier::external_body]
pub(crate) fn push_char(s: &mut String, c: char)
    ensures
        final(s)@ == old(s)@.push(c),
{
    s.push(c);
}

/// Append the decimal spelling of `n`.
pub fn push_u64(out: &mut String, n: u64)
    ensures
        final(out)@ == old(out)@ + digits_of(n as int),
    decreases n,
{
    if n >= 10 {
        push_u64(out, n / 10);
    }
    let r = n % 10;
    let c: char = if r == 0 {
        '0'
    } else if r == 1 {
        '1'
    } else if r == 2 {
        '2'
    } else if r == 3 {
        '3'
    } else if r == 4 {
        '4'
    } else if r == 5 {
        '5'
    } else if r == 6 {
        '6'
    } else if r == 7 {
        '7'
    } else if r == 8 {
        '8'
    } else {
        '9'
    };
    assert(c == digit_char(n as int % 10));
    push_char(out, c);
    proof {
        if n < 10 {
            assert(old(out)@ + digits_of(n as int) =~= old(out)@.push(digit_char(n as int)));
        } else {
            assert(old(out)@ + digits_of(n as int) =~= (old(out)@ + digits_of(
                n as int / 10,
            )).push(digit_char(n as int % 10)));
        }
    }
}

/// The decimal spelling of `n`, without leading zeros.
pub fn u64_to_string(n: u64) -> (r: String)
    ensures
        r@ == digits_of(n as int),
{
    let mut out = String::new();
    push_u64(&mut out, n);
    proof {
        assert(out@ =~= digits_of(n as int));
    }
    out
}

/// The characters of `s`, as a vector.
pub fn char_vec(s: &str) -> (r: Vec<char>)
    ensures
        r@ == s@,
{
    let n = s.unicode_len();
    let mut v: Vec<char> = Vec::new();
    let mut i: usize = 0;
    while i < n
        invariant
            n == s@.len(),
            0 <= i <= n,
            v@ == s@.take(i as int),
        decreases n - i,
    {
        let c = s.get_char(i);
        v.push(c);
        i = i + 1;
        proof {
            assert(v@ =~= s@.take(i as int));
        }
    }
    proof {
        assert(v@ =~= s@);
    }
    v
}

/// The characters `v[a..b]`, as a string.
pub fn range_to_string(v: &Vec<char>, a: usize, b: usize) -> (r: String)
    requires
        a <= b <= v@.len(),
    ensures
        r@ == v@.subrange(a as int, b as int),
{
    let mut out = String::new();
    let mut i: usize = a;
    while i < b
        invariant
            a <= i <= b <= v@.len(),
            out@ == v@.subrange(a as int, i as int),
        decreases b - i,
    {
        push_char(&mut out, v[i]);
        i = i + 1;
        proof {
            assert(out@ =~= v@.subrange(a as int, i as int));
        }
    }
    proof {
        assert(out@ =~= v@.subrange(a as int, b as int));
    }
    out
}

/// Parse the digits `v[a..b]` as a `u64`.
///
/// Returns the denoted value when the range is a nonempty digit string
/// whose value fits; `None` on an empty range, a non-digit, or
/// overflow.
pub fn parse_digits(v: &Vec<char>, a: usize, b: usize) -> (r: Option<u64>)
    requires
        a <= b <= v@.len(),
    ensures
        ({
            let seg = v@.subrange(a as int, b as int);
            match r {
                Some(n) => seg.len() >= 1 && all_digits(seg) && digits_val(seg) == n,
                None => !(seg.len() >= 1 && all_digits(seg) && digits_val(seg)
                    <= u64::MAX),
            }
        }),
{
    let ghost seg = v@.subrange(a as int, b as int);
    if a == b {
        return None;
    }
    // first pass: every character must be a digit
    let mut i: usize = a;
    while i < b
        invariant
            a <= i <= b <= v@.len(),
            seg == v@.subrange(a as int, b as int),
            forall|k: int| 0 <= k < i - a ==> is_digit(#[trigger] seg[k]),
        decreases b - i,
    {
        let u = v[i] as u32;
        proof {
            assert(seg[i - a] == v@[i as int]);
        }
        if !(48 <= u && u <= 57) {
            assert(!is_digit(seg[i - a]));
            return None;
        }
        assert(is_digit(seg[i - a]));
        i = i + 1;
    }
    assert(all_digits(seg));
    // second pass: accumulate, watching for overflow
    let mut acc: u64 = 0;
    i = a;
    while i < b
        invariant
            a <= i <= b <= v@.len(),
            seg == v@.subrange(a as int, b as int),
            all_digits(seg),
            acc == digits_val(seg.take(i - a)),
        decreases b - i,
    {
        let c = v[i];
        proof {
            assert(seg[i - a] == v@[i as int]);
            assert(is_digit(seg[i - a]));
        }
        let d: u64 = (c as u32 - 48) as u64;
        proof {
            assert(seg.take(i - a + 1).drop_last() =~= seg.take(i - a));
            lemma_digits_val_nonneg(seg.take(i - a));
        }
        // u64::MAX is 18446744073709551615; overflow iff acc * 10 + d
        // would pass it
        if acc > 1844674407370955161 || (acc == 1844674407370955161 && d > 5) {
            proof {
                assert(digits_val(seg.take(i - a + 1)) == acc * 10 + d);
                lemma_digits_val_prefix_le(seg, i - a + 1);
            }
            return None;
        }
        acc = acc * 10 + d;
        i = i + 1;
    }
    proof {
        assert(seg.take(b - a) =~= seg);
    }
    Some(acc)
}

} // verus!
