//! Target display resolutions: the `WIDTHxHEIGHT,...` list the caller
//! asks for, its parser, and its formatter.
//!
//! A list splits on `,` into tokens; a token splits at its first `x`
//! into two nonempty digit strings, both positive and both fitting a
//! `u64`. A malformed token fails the whole parse and is named in the
//! error; nothing is defaulted or dropped.

use vstd::prelude::*;
use vstd::string::StringExecFns;

use crate::text::{
    all_digits, digits_of, digits_val, find_char, is_digit, is_space, lemma_digits_of,
    lemma_find_char, lemma_find_char_at, lemma_find_char_none, lemma_trim_subrange, trim_spec,
    char_vec, parse_digits, push_char, push_u64, range_to_string,
};

verus! {

/// One target display resolution.
#[derive(Clone, Copy, PartialEq, Eq, Structural, Debug)]
pub struct Resolution {
    /// Display width in pixels.
    pub width: u64,
    /// Display height in pixels.
    pub height: u64,
}

/// Both dimensions are positive.
pub open spec fn valid_resolution(r: Resolution) -> bool {
    r.width >= 1 && r.height >= 1
}

/// A malformed token, reported verbatim.
#[derive(Debug)]
pub struct ParseError {
    /// The offending token, exactly as it stood in the input.
    pub token: String,
}

/// What one `WIDTHxHEIGHT` token denotes, if it is well-formed.
pub open spec fn parse_token(s: Seq<char>) -> Option<(int, int)> {
    let i = find_char(s, 'x');
    if !(0 <= i < s.len()) {
        None
    } else {
        let left = s.subrange(0, i);
        let right = s.subrange(i + 1, s.len() as int);
        if left.len() >= 1 && right.len() >= 1 && all_digits(left) && all_digits(right) && 1
            <= digits_val(left) <= u64::MAX && 1 <= digits_val(right) <= u64::MAX {
            Some((digits_val(left), digits_val(right)))
        } else {
            None
        }
    }
}

/// The comma-separated tokens of `s`; an empty `s` gives one empty
/// token, as splitting on commas does.
pub open spec fn split_commas(s: Seq<char>) -> Seq<Seq<char>>
    decreases s.len(),
{
    let i = find_char(s, ',');
    if !(0 <= i < s.len()) {
        seq![s]
    } else {
        seq![s.subrange(0, i)] + split_commas(s.subrange(i + 1, s.len() as int))
    }
}

/// Every token of `s` is well-formed.
pub open spec fn tokens_ok(s: Seq<char>) -> bool {
    forall|k: int| 0 <= k < split_commas(s).len() ==> parse_token(
        #[trigger] split_commas(s)[k],
    ) is Some
}

/// The ordered list of target resolutions.
#[derive(Debug)]
pub struct ResolutionSet {
    /// The resolutions, in the order they were requested.
    pub items: Vec<Resolution>,
}

impl View for ResolutionSet {
    type V = Seq<Resolution>;

    open spec fn view(&self) -> Seq<Resolution> {
        self.items@
    }
}

/// `c == is_space(c)`, executably.
fn space_char(c: char) -> (b: bool)
    ensures
        b == is_space(c),
{
    c == ' ' || c == '\t' || c == '\n' || c == '\r'
}

/// Parse the token `v[a..b]`.
fn parse_token_range(v: &Vec<char>, a: usize, b: usize) -> (r: Option<Resolution>)
    requires
        a <= b <= v@.len(),
    ensures
        ({
            let seg = v@.subrange(a as int, b as int);
            match r {
                Some(res) => parse_token(seg) == Some((res.width as int, res.height as int))
                    && valid_resolution(res),
                None => parse_token(seg) is None,
            }
        }),
{
    let ghost seg = v@.subrange(a as int, b as int);
    // find the first 'x'
    let mut j = a;
    while j < b && v[j] != 'x'
        invariant
            a <= j <= b <= v@.len(),
            seg == v@.subrange(a as int, b as int),
            forall|k: int| 0 <= k < j - a ==> seg[k] != 'x',
        decreases b - j,
    {
        proof {
            assert(seg[j - a] == v@[j as int]);
        }
        j = j + 1;
    }
    if j == b {
        proof {
            lemma_find_char_none(seg, 'x');
        }
        return None;
    }
    proof {
        assert(seg[j - a] == v@[j as int]);
        lemma_find_char_at(seg, 'x', j - a);
        assert(v@.subrange(a as int, j as int) =~= seg.subrange(0, j - a));
        assert(v@.subrange(j + 1, b as int) =~= seg.subrange(j - a + 1, seg.len() as int));
    }
    let w_opt = parse_digits(v, a, j);
    let h_opt = parse_digits(v, j + 1, b);
    match (w_opt, h_opt) {
        (Some(w), Some(h)) => {
            if w >= 1 && h >= 1 {
                Some(Resolution { width: w, height: h })
            } else {
                None
            }
        },
        _ => None,
    }
}

impl ResolutionSet {
    /// Parse a comma-separated `WIDTHxHEIGHT` list, after stripping
    /// surrounding whitespace.
    ///
    /// Succeeds exactly when every token is well-formed, and then
    /// returns the denoted resolutions in order. Otherwise the error
    /// names the first malformed token.
    pub fn parse(s: &str) -> (r: Result<ResolutionSet, ParseError>)
        ensures
            r is Ok <==> tokens_ok(trim_spec(s@)),
            r matches Ok(rs) ==> {
                let toks = split_commas(trim_spec(s@));
                &&& rs@.len() == toks.len()
                &&& forall|k: int| 0 <= k < toks.len() ==> parse_token(#[trigger] toks[k])
                    == Some((rs@[k].width as int, rs@[k].height as int))
                &&& forall|k: int| 0 <= k < rs@.len() ==> valid_resolution(#[trigger] rs@[k])
            },
            r matches Err(e) ==> {
                let toks = split_commas(trim_spec(s@));
                exists|k: int|
                    {
                        &&& 0 <= k < toks.len()
                        &&& parse_token(#[trigger] toks[k]) is None
                        &&& e.token@ == toks[k]
                        &&& forall|i: int| 0 <= i < k ==> parse_token(#[trigger] toks[i]) is Some
                    }
            },
    {
        let chars = char_vec(s);
        let n = chars.len();
        // strip surrounding whitespace
        let mut lo: usize = 0;
        while lo < n && space_char(chars[lo])
            invariant
                0 <= lo <= n == chars@.len(),
                forall|k: int| 0 <= k < lo ==> is_space(#[trigger] chars@[k]),
            decreases n - lo,
        {
            lo = lo + 1;
        }
        let mut hi: usize = n;
        while hi > lo && space_char(chars[hi - 1])
            invariant
                lo <= hi <= n == chars@.len(),
                forall|k: int| hi <= k < n ==> is_space(#[trigger] chars@[k]),
            decreases hi,
        {
            hi = hi - 1;
        }
        let mut tv: Vec<char> = Vec::new();
        let mut i: usize = lo;
        while i < hi
            invariant
                lo <= i <= hi <= chars@.len(),
                tv@ == chars@.subrange(lo as int, i as int),
            decreases hi - i,
        {
            tv.push(chars[i]);
            i = i + 1;
            proof {
                assert(tv@ =~= chars@.subrange(lo as int, i as int));
            }
        }
        proof {
            lemma_trim_subrange(s@, lo as int, hi as int);
            assert(tv@ == trim_spec(s@));
        }

        let ghost full = tv@;
        let ghost toks = split_commas(full);
        let m = tv.len();
        let mut items: Vec<Resolution> = Vec::new();
        let ghost mut done: Seq<Seq<char>> = Seq::empty();
        let mut start: usize = 0;
        proof {
            assert(full.subrange(0, m as int) =~= full);
            assert(done + split_commas(full.subrange(0, m as int)) =~= toks);
        }
        loop
            invariant
                0 <= start <= m == tv@.len(),
                full == tv@,
                full == trim_spec(s@),
                toks == split_commas(full),
                done.len() == items@.len(),
                toks =~= done + split_commas(full.subrange(start as int, m as int)),
                forall|k: int| 0 <= k < done.len() ==> parse_token(#[trigger] done[k]) == Some(
                    (items@[k].width as int, items@[k].height as int),
                ),
                forall|k: int| 0 <= k < items@.len() ==> valid_resolution(#[trigger] items@[k]),
            decreases m - start,
        {
            let ghost rem = full.subrange(start as int, m as int);
            // scan to the next comma
            let mut j = start;
            while j < m && tv[j] != ','
                invariant
                    start <= j <= m == tv@.len(),
                    full == tv@,
                    rem == full.subrange(start as int, m as int),
                    forall|k: int| 0 <= k < j - start ==> rem[k] != ',',
                decreases m - j,
            {
                proof {
                    assert(rem[j - start] == full[j as int]);
                }
                j = j + 1;
            }
            let ghost seg = full.subrange(start as int, j as int);
            proof {
                if j == m {
                    lemma_find_char_none(rem, ',');
                    assert(split_commas(rem) =~= seq![rem]);
                    assert(seg =~= rem);
                } else {
                    assert(rem[j - start] == full[j as int]);
                    lemma_find_char_at(rem, ',', j - start);
                    assert(rem.subrange(0, j - start) =~= seg);
                    assert(rem.subrange(j - start + 1, rem.len() as int) =~= full.subrange(
                        j + 1,
                        m as int,
                    ));
                }
            }
            match parse_token_range(&tv, start, j) {
                None => {
                    proof {
                        assert(split_commas(rem).len() >= 1);
                        assert(toks.len() > done.len());
                        assert(toks[done.len() as int] == seg);
                        assert(parse_token(toks[done.len() as int]) is None);
                        assert forall|i: int| 0 <= i < done.len() implies parse_token(
                            #[trigger] toks[i],
                        ) is Some by {
                            assert(toks[i] == done[i]);
                        }
                    }
                    return Err(ParseError { token: range_to_string(&tv, start, j) });
                },
                Some(res) => {
                    items.push(res);
                    proof {
                        done = done.push(seg);
                    }
                    if j == m {
                        proof {
                            assert(toks =~= done);
                            assert(forall|k: int| 0 <= k < toks.len() ==> parse_token(
                                #[trigger] toks[k],
                            ) is Some);
                        }
                        return Ok(ResolutionSet { items });
                    }
                    proof {
                        assert(seq![seg] + split_commas(full.subrange(j + 1, m as int))
                            =~= split_commas(rem));
                        assert(toks =~= done + split_commas(full.subrange(j + 1, m as int)));
                    }
                    start = j + 1;
                },
            }
        }
    }

    /// How many resolutions were requested.
    pub fn len(&self) -> (n: usize)
        ensures
            n == self@.len(),
    {
        self.items.len()
    }
}

/// The canonical spelling of one resolution: `WIDTHxHEIGHT`.
pub open spec fn format_res_spec(r: Resolution) -> Seq<char> {
    digits_of(r.width as int) + seq!['x'] + digits_of(r.height as int)
}

/// The canonical spelling of a list: tokens joined by commas.
pub open spec fn format_set_spec(rs: Seq<Resolution>) -> Seq<char>
    decreases rs.len(),
{
    if rs.len() == 0 {
        Seq::empty()
    } else if rs.len() == 1 {
        format_res_spec(rs[0])
    } else {
        format_res_spec(rs[0]) + seq![','] + format_set_spec(rs.drop_first())
    }
}

impl Resolution {
    /// Format as `WIDTHxHEIGHT`.
    pub fn format(&self) -> (r: String)
        ensures
            r@ == format_res_spec(*self),
    {
        let mut out = String::new();
        push_u64(&mut out, self.width);
        push_char(&mut out, 'x');
        push_u64(&mut out, self.height);
        proof {
            assert(out@ =~= format_res_spec(*self));
        }
        out
    }
}

/// Appending one more resolution to a formatted prefix.
proof fn lemma_format_set_take_snoc(rs: Seq<Resolution>, k: int)
    requires
        1 <= k < rs.len(),
    ensures
        format_set_spec(rs.take(k + 1)) == format_set_spec(rs.take(k)) + seq![',']
            + format_res_spec(rs[k]),
    decreases k,
{
    let t = rs.drop_first();
    if k == 1 {
        assert(rs.take(2).drop_first() =~= seq![rs[1]]);
        assert(rs.take(1) =~= seq![rs[0]]);
        assert(format_set_spec(seq![rs[1]]) == format_res_spec(rs[1]));
        assert(format_set_spec(seq![rs[0]]) == format_res_spec(rs[0]));
        assert(format_set_spec(rs.take(2)) == format_res_spec(rs[0]) + seq![',']
            + format_res_spec(rs[1]));
        assert(format_set_spec(rs.take(1)) + seq![','] + format_res_spec(rs[1])
            =~= format_res_spec(rs[0]) + seq![','] + format_res_spec(rs[1]));
    } else {
        lemma_format_set_take_snoc(t, k - 1);
        assert(rs.take(k + 1).drop_first() =~= t.take(k));
        assert(rs.take(k).drop_first() =~= t.take(k - 1));
        assert(t[k - 1] == rs[k]);
        assert(format_set_spec(rs.take(k + 1)) == format_res_spec(rs[0]) + seq![',']
            + format_set_spec(t.take(k)));
        assert(format_set_spec(rs.take(k)) == format_res_spec(rs[0]) + seq![',']
            + format_set_spec(t.take(k - 1)));
        assert(format_res_spec(rs[0]) + seq![','] + (format_set_spec(t.take(k - 1)) + seq![',']
            + format_res_spec(rs[k])) =~= (format_res_spec(rs[0]) + seq![','] + format_set_spec(
            t.take(k - 1),
        )) + seq![','] + format_res_spec(rs[k]));
    }
}

/// Parsing one formatted token gives the resolution back.
proof fn lemma_parse_token_format(r: Resolution)
    requires
        valid_resolution(r),
    ensures
        parse_token(format_res_spec(r)) == Some((r.width as int, r.height as int)),
{
    let dw = digits_of(r.width as int);
    let dh = digits_of(r.height as int);
    lemma_digits_of(r.width as int);
    lemma_digits_of(r.height as int);
    let s = format_res_spec(r);
    let j = dw.len() as int;
    assert(s[j] == 'x');
    assert forall|i: int| 0 <= i < j implies s[i] != 'x' by {
        assert(s[i] == dw[i]);
        assert(is_digit(dw[i]));
    }
    lemma_find_char_at(s, 'x', j);
    assert(s.subrange(0, j) =~= dw);
    assert(s.subrange(j + 1, s.len() as int) =~= dh);
}

/// Splitting a formatted list on commas yields the formatted tokens.
proof fn lemma_split_format_set(rs: Seq<Resolution>)
    requires
        rs.len() >= 1,
        forall|k: int| 0 <= k < rs.len() ==> valid_resolution(#[trigger] rs[k]),
    ensures
        split_commas(format_set_spec(rs)).len() == rs.len(),
        forall|k: int| 0 <= k < rs.len() ==> split_commas(format_set_spec(rs))[k]
            == format_res_spec(#[trigger] rs[k]),
    decreases rs.len(),
{
    let s = format_set_spec(rs);
    let f0 = format_res_spec(rs[0]);
    lemma_digits_of(rs[0].width as int);
    lemma_digits_of(rs[0].height as int);
    assert forall|i: int| 0 <= i < f0.len() implies f0[i] != ',' by {
        let dw = digits_of(rs[0].width as int);
        let dh = digits_of(rs[0].height as int);
        if i < dw.len() {
            assert(f0[i] == dw[i]);
            assert(is_digit(dw[i]));
        } else if i == dw.len() {
            assert(f0[i] == 'x');
        } else {
            assert(f0[i] == dh[i - dw.len() - 1]);
            assert(is_digit(dh[i - dw.len() - 1]));
        }
    }
    if rs.len() == 1 {
        lemma_find_char_none(s, ',');
        assert(split_commas(s) =~= seq![s]);
    } else {
        let rest = rs.drop_first();
        let t = format_set_spec(rest);
        assert(s == f0 + seq![','] + t);
        assert(s[f0.len() as int] == ',');
        assert forall|i: int| 0 <= i < f0.len() implies s[i] != ',' by {
            assert(s[i] == f0[i]);
        }
        lemma_find_char_at(s, ',', f0.len() as int);
        assert(s.subrange(0, f0.len() as int) =~= f0);
        assert(s.subrange(f0.len() as int + 1, s.len() as int) =~= t);
        lemma_split_format_set(rest);
        assert(split_commas(s) == seq![f0] + split_commas(t));
        assert forall|k: int| 0 <= k < rs.len() implies split_commas(s)[k] == format_res_spec(
            #[trigger] rs[k],
        ) by {
            if k >= 1 {
                assert(split_commas(s)[k] == split_commas(t)[k - 1]);
                assert(rest[k - 1] == rs[k]);
            }
        }
    }
}

/// A formatted list starts and ends with a digit, so it carries no
/// surrounding whitespace.
proof fn lemma_format_set_ends(rs: Seq<Resolution>)
    requires
        rs.len() >= 1,
        forall|k: int| 0 <= k < rs.len() ==> valid_resolution(#[trigger] rs[k]),
    ensures
        format_set_spec(rs).len() >= 1,
        is_digit(format_set_spec(rs)[0]),
        is_digit(format_set_spec(rs).last()),
    decreases rs.len(),
{
    let s = format_set_spec(rs);
    let dw = digits_of(rs[0].width as int);
    let dh = digits_of(rs[0].height as int);
    lemma_digits_of(rs[0].width as int);
    lemma_digits_of(rs[0].height as int);
    assert(s[0] == dw[0]);
    if rs.len() == 1 {
        assert(s.last() == dh.last());
    } else {
        let rest = rs.drop_first();
        lemma_format_set_ends(rest);
        assert(s.last() == format_set_spec(rest).last());
    }
}

/// Parsing is a left-inverse of formatting: a formatted list of
/// positive resolutions trims to itself, all of its tokens are
/// well-formed, and they denote the original resolutions in order.
/// With `ResolutionSet::parse`'s contract this says that parsing a
/// formatted list succeeds and gives the same resolutions back.
pub proof fn lemma_parse_inverts_format(rs: Seq<Resolution>)
    requires
        rs.len() >= 1,
        forall|k: int| 0 <= k < rs.len() ==> valid_resolution(#[trigger] rs[k]),
    ensures
        trim_spec(format_set_spec(rs)) == format_set_spec(rs),
        tokens_ok(format_set_spec(rs)),
        split_commas(format_set_spec(rs)).len() == rs.len(),
        forall|k: int| 0 <= k < rs.len() ==> parse_token(split_commas(format_set_spec(rs))[k])
            == Some((rs[k].width as int, rs[k].height as int)),
{
    let s = format_set_spec(rs);
    lemma_format_set_ends(rs);
    assert(!is_space(s[0]));
    assert(!is_space(s.last()));
    lemma_trim_subrange(s, 0, s.len() as int);
    assert(s.subrange(0, s.len() as int) =~= s);
    lemma_split_format_set(rs);
    assert forall|k: int| 0 <= k < rs.len() implies parse_token(
        split_commas(s)[k],
    ) == Some((rs[k].width as int, rs[k].height as int)) by {
        lemma_parse_token_format(rs[k]);
    }
}

/// Formatting is injective on positive resolutions: distinct
/// resolutions never share a spelling.
pub proof fn lemma_format_res_injective(a: Resolution, b: Resolution)
    requires
        valid_resolution(a),
        valid_resolution(b),
        format_res_spec(a) == format_res_spec(b),
    ensures
        a == b,
{
    lemma_parse_token_format(a);
    lemma_parse_token_format(b);
}

impl ResolutionSet {
    /// Format as a comma-separated `WIDTHxHEIGHT` list.
    pub fn format(&self) -> (r: String)
        ensures
            r@ == format_set_spec(self@),
    {
        let mut out = String::new();
        let mut k: usize = 0;
        let n = self.items.len();
        while k < n
            invariant
                0 <= k <= n == self.items@.len(),
                out@ == format_set_spec(self.items@.take(k as int)),
            decreases n - k,
        {
            if k > 0 {
                push_char(&mut out, ',');
            }
            let item = self.items[k];
            let label = item.format();
            out.append(label.as_str());
            proof {
                if k == 0 {
                    assert(self.items@.take(1) =~= seq![self.items@[0]]);
                    assert(out@ =~= format_set_spec(self.items@.take(1)));
                } else {
                    lemma_format_set_take_snoc(self.items@, k as int);
                    assert(out@ =~= format_set_spec(self.items@.take(k as int)) + seq![',']
                        + format_res_spec(self.items@[k as int]));
                }
            }
            k = k + 1;
        }
        proof {
            assert(self.items@.take(n as int) =~= self.items@);
        }
        out
    }
}

} // verus!
