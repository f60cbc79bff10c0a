//! Release versions, kept as the dotted digit string a release tag carries,
//! with any leading `v` letters stripped. A string is accepted exactly when
//! every dot-separated part reads as an unsigned 32-bit number (an optional
//! leading `+` included, as the standard number parser accepts one).

use vstd::prelude::*;

use crate::errors::Error;
use crate::text::{all_digits, chars_of, dec_val, parse_dec, string_of, subrange_vec};

verus! {

/// A release version such as `1.8.4`, without prefix.
pub struct Version(String);

impl View for Version {
    type V = Seq<char>;

    closed spec fn view(&self) -> Seq<char> {
        self.0@
    }
}

/// The string with its leading `v` letters removed.
pub open spec fn strip_v(s: Seq<char>) -> Seq<char>
    decreases s.len(),
{
    if s.len() > 0 && s[0] == 'v' {
        strip_v(s.drop_first())
    } else {
        s
    }
}

/// One dot-separated part: an optional `+`, then digits, valued within
/// 32 bits.
pub open spec fn valid_part(s: Seq<char>) -> bool {
    let t = if s.len() > 0 && s[0] == '+' {
        s.drop_first()
    } else {
        s
    };
    t.len() > 0 && all_digits(t) && dec_val(t) <= u32::MAX as int
}

/// The position of the first occurrence of `c`, if any.
pub open spec fn find_char(s: Seq<char>, c: char) -> Option<int>
    decreases s.len(),
{
    if s.len() == 0 {
        Option::None
    } else if s[0] == c {
        Option::Some(0)
    } else {
        match find_char(s.drop_first(), c) {
            Option::Some(i) => Option::Some(i + 1),
            Option::None => Option::None,
        }
    }
}

pub proof fn lemma_find_char_bounds(s: Seq<char>, c: char)
    ensures
        match find_char(s, c) {
            Option::Some(i) => 0 <= i < s.len() && s[i] == c && forall|j: int|
                0 <= j < i ==> s[j] != c,
            Option::None => forall|j: int| 0 <= j < s.len() ==> s[j] != c,
        },
    decreases s.len(),
{
    if s.len() > 0 && s[0] != c {
        lemma_find_char_bounds(s.drop_first(), c);
        let d = s.drop_first();
        assert(forall|j: int| 0 <= j < d.len() ==> d[j] == #[trigger] s[j + 1]);
        match find_char(d, c) {
            Option::Some(i) => {
                assert(s[i + 1] == c);
                assert forall|j: int| 0 <= j < i + 1 implies s[j] != c by {
                    if j > 0 {
                        assert(d[j - 1] == s[j]);
                    }
                }
            },
            Option::None => {
                assert forall|j: int| 0 <= j < s.len() implies s[j] != c by {
                    if j > 0 {
                        assert(d[j - 1] == s[j]);
                    }
                }
            },
        }
    }
}

/// The first `k` characters are not `c`, and the `k`-th is `c` or the end:
/// then the first occurrence is at `k` (or absent).
pub proof fn lemma_find_char_at(s: Seq<char>, c: char, k: int)
    requires
        0 <= k <= s.len(),
        forall|j: int| 0 <= j < k ==> s[j] != c,
        k < s.len() ==> s[k] == c,
    ensures
        find_char(s, c) == (if k < s.len() {
            Option::Some(k)
        } else {
            Option::<int>::None
        }),
    decreases k,
{
    if k == 0 {
        if s.len() > 0 {
        }
    } else {
        assert(s[0] != c);
        lemma_find_char_at(s.drop_first(), c, k - 1);
        assert(forall|j: int| 0 <= j < s.len() - 1 ==> s.drop_first()[j] == #[trigger] s[j + 1]);
    }
}

#[via_fn]
proof fn valid_version_decreases(s: Seq<char>)
{
    lemma_find_char_bounds(s, '.');
}

/// A whole version string: dot-separated parts, each valid.
pub open spec fn valid_version(s: Seq<char>) -> bool
    decreases s.len(),
        via valid_version_decreases
{
    match find_char(s, '.') {
        Option::None => valid_part(s),
        Option::Some(i) => valid_part(s.subrange(0, i)) && valid_version(s.skip(i + 1)),
    }
}

fn valid_part_exec(v: &Vec<char>, from: usize, to: usize) -> (r: bool)
    requires
        from <= to <= v@.len(),
    ensures
        r == valid_part(v@.subrange(from as int, to as int)),
{
    let ghost s = v@.subrange(from as int, to as int);
    let start = if from < to && v[from] == '+' {
        from + 1
    } else {
        from
    };
    proof {
        if from < to && v@[from as int] == '+' {
            assert(s[0] == '+');
            assert(s.drop_first() =~= v@.subrange(start as int, to as int));
        } else {
            assert(s =~= v@.subrange(start as int, to as int));
        }
    }
    let ghost t = v@.subrange(start as int, to as int);
    match parse_dec(v, start, to) {
        Some(n) => n <= u32::MAX as u64,
        None => {
            proof {
                if to > start && all_digits(t) && dec_val(t) <= u32::MAX as int {
                    crate::text::lemma_dec_val_nonneg(t);
                    assert(dec_val(t) <= u64::MAX as int);
                }
            }
            false
        },
    }
}

fn valid_segments(v: &Vec<char>, from: usize) -> (r: bool)
    requires
        from <= v@.len(),
    ensures
        r == valid_version(v@.skip(from as int)),
    decreases v@.len() - from,
{
    let ghost s = v@.skip(from as int);
    // Scan for the next dot.
    let mut i = from;
    let mut dot: Option<usize> = None;
    while i < v.len() && dot.is_none()
        invariant
            from <= i <= v@.len(),
            match dot {
                Option::Some(d) => from <= d < v@.len() && v@[d as int] == '.' && i == d + 1
                    && forall|j: int| from <= j < d ==> v@[j] != '.',
                Option::None => forall|j: int| from <= j < i ==> v@[j] != '.',
            },
        decreases v@.len() - i,
    {
        if v[i] == '.' {
            dot = Some(i);
        }
        i = i + 1;
    }
    proof {
        assert(forall|j: int| 0 <= j < s.len() ==> s[j] == #[trigger] v@[from + j]);
        match dot {
            Option::Some(d) => {
                lemma_find_char_at(s, '.', d - from);
            },
            Option::None => {
                lemma_find_char_at(s, '.', s.len() as int);
            },
        }
    }
    match dot {
        Some(d) => {
            proof {
                assert(s.subrange(0, d - from) =~= v@.subrange(from as int, d as int));
                assert(s.skip(d - from + 1) =~= v@.skip(d as int + 1));
            }
            if !valid_part_exec(v, from, d) {
                return false;
            }
            valid_segments(v, d + 1)
        },
        None => {
            proof {
                assert(s.subrange(0, s.len() as int) =~= s);
                assert(s =~= v@.subrange(from as int, v@.len() as int));
            }
            valid_part_exec(v, from, v.len())
        },
    }
}

impl Version {
    /// Reads a version string: leading `v` letters are stripped, and the
    /// rest is accepted exactly when every dot-separated part is a valid
    /// unsigned number. The stored text is the stripped form.
    pub fn from_str(s: &str) -> (r: Result<Version, Error>)
        ensures
            match r {
                Result::Ok(v) => valid_version(strip_v(s@)) && v@ == strip_v(s@),
                Result::Err(e) => !valid_version(strip_v(s@)) && e is InvalidVersion,
            },
    {
        let cs = chars_of(s);
        let mut k: usize = 0;
        proof {
            assert(cs@.skip(0) =~= s@);
        }
        while k < cs.len() && cs[k] == 'v'
            invariant
                k <= cs@.len(),
                cs@ == s@,
                strip_v(s@) == strip_v(cs@.skip(k as int)),
            decreases cs@.len() - k,
        {
            proof {
                assert(cs@.skip(k as int).drop_first() =~= cs@.skip(k as int + 1));
            }
            k = k + 1;
        }
        proof {
            let rest = cs@.skip(k as int);
            if rest.len() > 0 {
                assert(rest[0] == cs@[k as int]);
            }
            assert(strip_v(s@) == rest);
        }
        if valid_segments(&cs, k) {
            let body = subrange_vec(&cs, k, cs.len());
            proof {
                assert(cs@.subrange(k as int, cs@.len() as int) =~= cs@.skip(k as int));
            }
            Ok(Version(string_of(&body)))
        } else {
            Err(Error::InvalidVersion)
        }
    }

    /// Returns "v{version}".
    pub fn as_prefixed(&self) -> (r: String)
        ensures
            r@ == seq!['v'] + self@,
    {
        let mut out: Vec<char> = Vec::new();
        out.push('v');
        let mut cs = chars_of(self.0.as_str());
        out.append(&mut cs);
        proof {
            assert(out@ =~= seq!['v'] + self@);
        }
        string_of(&out)
    }

    /// The bare version text.
    pub fn as_string(&self) -> (r: String)
        ensures
            r@ == self@,
    {
        self.0.clone()
    }

    /// A field-for-field copy.
    pub fn duplicate(&self) -> (r: Version)
        ensures
            r@ == self@,
    {
        Version(self.0.clone())
    }
}

} // verus!
