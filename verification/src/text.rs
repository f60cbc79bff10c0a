//! Character-level text utilities: conversions between `String`/`&str` and
//! `Vec<char>`, substring search and replacement, and decimal formatting.
//! All the string manipulation of the crate is built on these.

use vstd::prelude::*;

verus! {

/// Relies on `String::push`: appends the given character to the end of the string.
#[verifier::external_body]
pub(crate) fn push_char(s: &mut String, c: char)
    ensures
        final(s)@ == old(s)@.push(c),
{
    s.push(c)
}

/// The characters of a string slice, as a vector.
pub fn chars_of(s: &str) -> (r: Vec<char>)
    ensures
        r@ == s@,
{
    let n = s.unicode_len();
    let mut r: Vec<char> = Vec::new();
    let mut i: usize = 0;
    while i < n
        invariant
            n == s@.len(),
            i <= n,
            r@ == s@.subrange(0, i as int),
        decreases n - i,
    {
        let c = s.get_char(i);
        r.push(c);
        i = i + 1;
        proof {
            assert(r@ =~= s@.subrange(0, i as int));
        }
    }
    proof {
        assert(s@.subrange(0, n as int) =~= s@);
    }
    r
}

/// A `String` holding exactly the given characters.
pub fn string_of(v: &Vec<char>) -> (r: String)
    ensures
        r@ == v@,
{
    let mut r = String::new();
    let mut i: usize = 0;
    while i < v.len()
        invariant
            i <= v@.len(),
            r@ == v@.subrange(0, i as int),
        decreases v@.len() - i,
    {
        push_char(&mut r, v[i]);
        i = i + 1;
        proof {
            assert(r@ =~= v@.subrange(0, i as int));
        }
    }
    proof {
        assert(v@.subrange(0, v@.len() as int) =~= v@);
    }
    r
}

pub fn subrange_vec(v: &Vec<char>, from: usize, to: usize) -> (r: Vec<char>)
    requires
        from <= to <= v@.len(),
    ensures
        r@ == v@.subrange(from as int, to as int),
{
    let mut r: Vec<char> = Vec::new();
    let mut i = from;
    while i < to
        invariant
            from <= i <= to <= v@.len(),
            r@ == v@.subrange(from as int, i as int),
        decreases to - i,
    {
        r.push(v[i]);
        i = i + 1;
        proof {
            assert(r@ =~= v@.subrange(from as int, i as int));
        }
    }
    proof {
        assert(r@ =~= v@.subrange(from as int, to as int));
    }
    r
}

/// A field-for-field copy of a vector of strings.
pub fn clone_strings(v: &Vec<String>) -> (r: Vec<String>)
    ensures
        r@ == v@,
{
    let mut r: Vec<String> = Vec::new();
    let mut i: usize = 0;
    while i < v.len()
        invariant
            i <= v@.len(),
            r@ == v@.subrange(0, i as int),
        decreases v@.len() - i,
    {
        r.push(v[i].clone());
        i = i + 1;
        proof {
            assert(r@ =~= v@.subrange(0, i as int));
        }
    }
    proof {
        assert(v@.subrange(0, v@.len() as int) =~= v@);
    }
    r
}

/// A copy of an optional string.
pub fn clone_opt_string(o: &Option<String>) -> (r: Option<String>)
    ensures
        r == *o,
{
    match o {
        Option::None => None,
        Option::Some(s) => Some(s.clone()),
    }
}

/// Whether two string slices hold the same characters.
pub fn str_eq(a: &str, b: &str) -> (r: bool)
    ensures
        r == (a@ == b@),
{
    let va = chars_of(a);
    let vb = chars_of(b);
    if va.len() != vb.len() {
        return false;
    }
    let mut i: usize = 0;
    while i < va.len()
        invariant
            va@ == a@,
            vb@ == b@,
            va@.len() == vb@.len(),
            i <= va@.len(),
            forall|k: int| 0 <= k < i ==> a@[k] == b@[k],
        decreases va@.len() - i,
    {
        if va[i] != vb[i] {
            return false;
        }
        i = i + 1;
    }
    proof {
        assert(a@ =~= b@);
    }
    true
}

/// The pattern `pat` occurs in `hay` at position `i`.
pub open spec fn matches_at(hay: Seq<char>, pat: Seq<char>, i: int) -> bool {
    0 <= i && i + pat.len() <= hay.len() && hay.subrange(i, i + pat.len() as int) == pat
}

/// The pattern `pat` occurs somewhere in `hay`.
pub open spec fn contains_seq(hay: Seq<char>, pat: Seq<char>) -> bool {
    exists|i: int| matches_at(hay, pat, i)
}

/// Whether `pat` occurs in `hay` at position `i`.
pub fn matches_at_exec(hay: &Vec<char>, pat: &Vec<char>, i: usize) -> (r: bool)
    requires
        i <= hay@.len(),
    ensures
        r == matches_at(hay@, pat@, i as int),
{
    if pat.len() > hay.len() - i {
        return false;
    }
    let mut j: usize = 0;
    while j < pat.len()
        invariant
            i + pat@.len() <= hay@.len(),
            hay@.len() <= usize::MAX as nat,
            j <= pat@.len(),
            forall|k: int| 0 <= k < j ==> hay@[i + k] == pat@[k],
        decreases pat@.len() - j,
    {
        if hay[i + j] != pat[j] {
            proof {
                assert(hay@.subrange(i as int, i + pat@.len()) == pat@
                    ==> hay@.subrange(i as int, i + pat@.len())[j as int] == pat@[j as int]);
            }
            return false;
        }
        j = j + 1;
    }
    proof {
        assert(hay@.subrange(i as int, i + pat@.len()) =~= pat@);
    }
    true
}

/// The position of the first occurrence of `pat` in `hay`, if any.
pub fn find_sub(hay: &Vec<char>, pat: &Vec<char>) -> (r: Option<usize>)
    ensures
        match r {
            Some(i) => matches_at(hay@, pat@, i as int) && forall|k: int|
                0 <= k < i ==> !matches_at(hay@, pat@, k),
            None => !contains_seq(hay@, pat@),
        },
{
    if pat.len() > hay.len() {
        return None;
    }
    if pat.len() == 0 {
        proof {
            assert(hay@.subrange(0, 0) =~= pat@);
        }
        return Some(0);
    }
    let last = hay.len() - pat.len();
    let mut i: usize = 0;
    while i <= last
        invariant
            0 < pat@.len() <= hay@.len(),
            hay@.len() <= usize::MAX as nat,
            last == hay@.len() - pat@.len(),
            i <= last + 1,
            forall|k: int| 0 <= k < i ==> !matches_at(hay@, pat@, k),
        decreases last + 1 - i,
    {
        if matches_at_exec(hay, pat, i) {
            return Some(i);
        }
        i = i + 1;
    }
    proof {
        assert forall|k: int| !matches_at(hay@, pat@, k) by {
            if 0 <= k <= last as int {
                assert(!matches_at(hay@, pat@, k));
            }
        }
    }
    None
}

/// Whether `pat` occurs somewhere in `hay`.
pub fn contains_exec(hay: &Vec<char>, pat: &Vec<char>) -> (r: bool)
    ensures
        r == contains_seq(hay@, pat@),
{
    match find_sub(hay, pat) {
        Some(i) => {
            proof {
                assert(matches_at(hay@, pat@, i as int));
            }
            true
        },
        None => false,
    }
}

/// The text with every occurrence of a non-empty pattern replaced, scanning
/// left to right and never rescanning replaced output.
pub open spec fn replace_all_spec(hay: Seq<char>, pat: Seq<char>, val: Seq<char>) -> Seq<char>
    decreases hay.len(),
{
    if pat.len() == 0 || hay.len() < pat.len() {
        hay
    } else if hay.subrange(0, pat.len() as int) == pat {
        val + replace_all_spec(hay.skip(pat.len() as int), pat, val)
    } else {
        seq![hay[0]] + replace_all_spec(hay.drop_first(), pat, val)
    }
}

/// Replaces every occurrence of `pat` in `hay` by `val`.
pub fn replace_all(hay: &Vec<char>, pat: &Vec<char>, val: &Vec<char>) -> (r: Vec<char>)
    requires
        pat@.len() > 0,
    ensures
        r@ == replace_all_spec(hay@, pat@, val@),
{
    let mut out: Vec<char> = Vec::new();
    let mut i: usize = 0;
    proof {
        assert(hay@.skip(0) =~= hay@);
        assert(Seq::<char>::empty() + replace_all_spec(hay@, pat@, val@) =~= replace_all_spec(
            hay@,
            pat@,
            val@,
        ));
    }
    while i < hay.len()
        invariant
            pat@.len() > 0,
            i <= hay@.len(),
            replace_all_spec(hay@, pat@, val@) == out@ + replace_all_spec(
                hay@.skip(i as int),
                pat@,
                val@,
            ),
        decreases hay@.len() - i,
    {
        let ghost prev = i as int;
        let ghost out_prev = out@;
        let ghost rem = hay@.skip(prev);
        if matches_at_exec(hay, pat, i) {
            out.extend_from_slice(val.as_slice());
            i = i + pat.len();
            proof {
                assert(rem.subrange(0, pat@.len() as int) =~= hay@.subrange(
                    prev,
                    prev + pat@.len(),
                ));
                assert(rem.skip(pat@.len() as int) =~= hay@.skip(i as int));
                assert(replace_all_spec(rem, pat@, val@) == val@ + replace_all_spec(
                    hay@.skip(i as int),
                    pat@,
                    val@,
                ));
                assert((out_prev + val@) + replace_all_spec(hay@.skip(i as int), pat@, val@)
                    =~= out_prev + (val@ + replace_all_spec(hay@.skip(i as int), pat@, val@)));
            }
        } else {
            out.push(hay[i]);
            i = i + 1;
            proof {
                assert(rem[0] == hay@[prev]);
                if rem.len() < pat@.len() {
                    assert(replace_all_spec(rem, pat@, val@) == rem);
                    assert(hay@.skip(i as int).len() < pat@.len());
                    assert(replace_all_spec(hay@.skip(i as int), pat@, val@) == hay@.skip(
                        i as int,
                    ));
                    assert(rem =~= seq![hay@[prev]] + hay@.skip(i as int));
                } else {
                    assert(rem.subrange(0, pat@.len() as int) =~= hay@.subrange(
                        prev,
                        prev + pat@.len(),
                    ));
                    assert(rem.subrange(0, pat@.len() as int) != pat@);
                    assert(rem.drop_first() =~= hay@.skip(i as int));
                    assert(replace_all_spec(rem, pat@, val@) == seq![hay@[prev]]
                        + replace_all_spec(hay@.skip(i as int), pat@, val@));
                }
                assert((out_prev + seq![hay@[prev]]) + replace_all_spec(
                    hay@.skip(i as int),
                    pat@,
                    val@,
                ) =~= out_prev + (seq![hay@[prev]] + replace_all_spec(
                    hay@.skip(i as int),
                    pat@,
                    val@,
                )));
                assert(out@ =~= out_prev + seq![hay@[prev]]);
            }
        }
    }
    proof {
        assert(hay@.skip(hay@.len() as int) =~= Seq::<char>::empty());
        assert(out@ + Seq::<char>::empty() =~= out@);
    }
    out
}

/// A pattern occurs in itself, at the start.
pub proof fn lemma_contains_self(x: Seq<char>)
    ensures
        contains_seq(x, x),
{
    assert(x.subrange(0, x.len() as int) =~= x);
    assert(matches_at(x, x, 0));
}

/// An occurrence on the left survives concatenation.
pub proof fn lemma_contains_concat_left(a: Seq<char>, b: Seq<char>, x: Seq<char>)
    requires
        contains_seq(a, x),
    ensures
        contains_seq(a + b, x),
{
    let i = choose|i: int| matches_at(a, x, i);
    assert((a + b).subrange(i, i + x.len() as int) =~= a.subrange(i, i + x.len() as int));
    assert(matches_at(a + b, x, i));
}

/// An occurrence on the right survives concatenation.
pub proof fn lemma_contains_concat_right(a: Seq<char>, b: Seq<char>, x: Seq<char>)
    requires
        contains_seq(b, x),
    ensures
        contains_seq(a + b, x),
{
    let i = choose|i: int| matches_at(b, x, i);
    assert((a + b).subrange(a.len() + i, a.len() + i + x.len() as int) =~= b.subrange(
        i,
        i + x.len() as int,
    ));
    assert(matches_at(a + b, x, a.len() + i));
}

/// `a` sorts strictly before `b` in lexicographic character order.
pub open spec fn lex_lt(a: Seq<char>, b: Seq<char>) -> bool
    decreases a.len(),
{
    if b.len() == 0 {
        false
    } else if a.len() == 0 {
        true
    } else if a[0] != b[0] {
        a[0] < b[0]
    } else {
        lex_lt(a.drop_first(), b.drop_first())
    }
}

pub open spec fn is_digit(c: char) -> bool {
    '0' <= c && c <= '9'
}

pub open spec fn digit_val(c: char) -> int {
    c as int - '0' as int
}

pub open spec fn all_digits(s: Seq<char>) -> bool {
    forall|i: int| 0 <= i < s.len() ==> is_digit(#[trigger] s[i])
}

/// The numeric value of a digit string, most significant digit first.
pub open spec fn dec_val(s: Seq<char>) -> int
    decreases s.len(),
{
    if s.len() == 0 {
        0
    } else {
        dec_val(s.drop_last()) * 10 + digit_val(s.last())
    }
}

pub open spec fn dec_digit_char(d: int) -> char {
    if d == 0 {
        '0'
    } else if d == 1 {
        '1'
    } else if d == 2 {
        '2'
    } else if d == 3 {
        '3'
    } else if d == 4 {
        '4'
    } else if d == 5 {
        '5'
    } else if d == 6 {
        '6'
    } else if d == 7 {
        '7'
    } else if d == 8 {
        '8'
    } else {
        '9'
    }
}

/// The canonical decimal rendering of a non-negative number: no sign, no
/// leading zeros (except for zero itself).
pub open spec fn dec_str(n: int) -> Seq<char>
    decreases n,
{
    if n < 10 {
        seq![dec_digit_char(n)]
    } else {
        dec_str(n / 10).push(dec_digit_char(n % 10))
    }
}

fn dec_digit_char_exec(d: u64) -> (c: char)
    requires
        d < 10,
    ensures
        c == dec_digit_char(d as int),
{
    if d == 0 {
        '0'
    } else if d == 1 {
        '1'
    } else if d == 2 {
        '2'
    } else if d == 3 {
        '3'
    } else if d == 4 {
        '4'
    } else if d == 5 {
        '5'
    } else if d == 6 {
        '6'
    } else if d == 7 {
        '7'
    } else if d == 8 {
        '8'
    } else {
        '9'
    }
}

/// The decimal digits of `n`, most significant first.
pub fn fmt_u64(n: u64) -> (r: Vec<char>)
    ensures
        r@ == dec_str(n as int),
    decreases n,
{
    if n < 10 {
        let mut v: Vec<char> = Vec::new();
        v.push(dec_digit_char_exec(n));
        proof {
            assert(v@ =~= dec_str(n as int));
        }
        v
    } else {
        let mut v = fmt_u64(n / 10);
        v.push(dec_digit_char_exec(n % 10));
        v
    }
}

pub proof fn lemma_all_digits_dec_str(n: int)
    requires
        n >= 0,
    ensures
        all_digits(dec_str(n)),
        dec_str(n).len() >= 1,
    decreases n,
{
    if n >= 10 {
        lemma_all_digits_dec_str(n / 10);
        assert forall|i: int| 0 <= i < dec_str(n).len() implies is_digit(#[trigger] dec_str(n)[i]) by {
            if i < dec_str(n / 10).len() {
                assert(dec_str(n)[i] == dec_str(n / 10)[i]);
            }
        }
    }
}

pub proof fn lemma_digit_val_dec_digit_char(d: int)
    requires
        0 <= d < 10,
    ensures
        digit_val(dec_digit_char(d)) == d,
        is_digit(dec_digit_char(d)),
{
}

/// Formatting then reading back the decimal form returns the number.
pub proof fn lemma_dec_val_dec_str(n: int)
    requires
        n >= 0,
    ensures
        dec_val(dec_str(n)) == n,
    decreases n,
{
    reveal_with_fuel(dec_val, 2);
    if n < 10 {
        lemma_digit_val_dec_digit_char(n);
        assert(dec_str(n).drop_last() =~= Seq::<char>::empty());
        assert(dec_str(n).last() == dec_digit_char(n));
    } else {
        lemma_dec_val_dec_str(n / 10);
        lemma_digit_val_dec_digit_char(n % 10);
        assert(dec_str(n).drop_last() =~= dec_str(n / 10));
        assert(dec_str(n).last() == dec_digit_char(n % 10));
    }
}

/// A digit-string value never shrinks when the string is extended on the
/// right by digits.
pub proof fn lemma_dec_val_prefix_le(s: Seq<char>, i: int)
    requires
        all_digits(s),
        0 <= i <= s.len(),
    ensures
        dec_val(s.subrange(0, i)) <= dec_val(s),
        dec_val(s) >= 0,
    decreases s.len() - i,
{
    lemma_dec_val_nonneg(s);
    if i < s.len() {
        lemma_dec_val_prefix_le(s, i + 1);
        let a = s.subrange(0, i);
        let b = s.subrange(0, i + 1);
        assert(b.drop_last() =~= a);
        lemma_dec_val_nonneg(a);
        assert(dec_val(b) == dec_val(a) * 10 + digit_val(b.last()));
        assert(dec_val(a) * 10 >= dec_val(a)) by {
            assert(dec_val(a) >= 0);
        }
    } else {
        assert(s.subrange(0, i) =~= s);
    }
}

pub proof fn lemma_dec_val_nonneg(s: Seq<char>)
    requires
        all_digits(s),
    ensures
        dec_val(s) >= 0,
    decreases s.len(),
{
    if s.len() > 0 {
        assert(all_digits(s.drop_last())) by {
            assert(forall|i: int|
                0 <= i < s.len() - 1 ==> s.drop_last()[i] == #[trigger] s[i]);
        }
        lemma_dec_val_nonneg(s.drop_last());
        assert(is_digit(s.last()));
    }
}

/// Reads the decimal number in `v[from..to]`: defined exactly when the range
/// is non-empty, all digits, and the value fits in a `u64`.
pub fn parse_dec(v: &Vec<char>, from: usize, to: usize) -> (r: Option<u64>)
    requires
        from <= to <= v@.len(),
    ensures
        match r {
            Some(n) => {
                &&& to > from
                &&& all_digits(v@.subrange(from as int, to as int))
                &&& n as int == dec_val(v@.subrange(from as int, to as int))
            },
            None => to == from || !all_digits(v@.subrange(from as int, to as int)) || dec_val(
                v@.subrange(from as int, to as int),
            ) > u64::MAX as int,
        },
{
    if to == from {
        return None;
    }
    let ghost s = v@.subrange(from as int, to as int);
    // First pass: the range must be all digits.
    let mut i: usize = from;
    while i < to
        invariant
            from <= i <= to <= v@.len(),
            forall|k: int| 0 <= k < i - from ==> is_digit(#[trigger] s[k]),
            s == v@.subrange(from as int, to as int),
        decreases to - i,
    {
        let c = v[i];
        if !('0' <= c && c <= '9') {
            proof {
                assert(s[i - from] == c);
            }
            return None;
        }
        i = i + 1;
    }
    proof {
        assert(all_digits(s));
    }
    // Second pass: accumulate, stopping as soon as the value no longer fits.
    let mut acc: u128 = 0;
    let mut j: usize = from;
    while j < to
        invariant
            from <= j <= to <= v@.len(),
            s == v@.subrange(from as int, to as int),
            all_digits(s),
            acc <= u64::MAX as u128,
            acc as int == dec_val(s.subrange(0, j - from)),
        decreases to - j,
    {
        let c = v[j];
        proof {
            assert(s[j - from] == c);
            assert(is_digit(c));
        }
        let d: u128 = (c as u32 as u128) - ('0' as u32 as u128);
        let next: u128 = acc * 10 + d;
        proof {
            let pre = s.subrange(0, j - from);
            let pre2 = s.subrange(0, j + 1 - from);
            assert(pre2.drop_last() =~= pre);
            assert(pre2.last() == c);
            assert(dec_val(pre2) == dec_val(pre) * 10 + digit_val(c));
            assert(digit_val(c) == d as int);
        }
        if next > u64::MAX as u128 {
            proof {
                lemma_dec_val_prefix_le(s, j + 1 - from);
                assert(dec_val(s.subrange(0, j + 1 - from)) == next as int);
            }
            return None;
        }
        acc = next;
        j = j + 1;
    }
    proof {
        assert(s.subrange(0, to - from) =~= s);
    }
    Some(acc as u64)
}

} // verus!
