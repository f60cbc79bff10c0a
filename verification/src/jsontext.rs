//! A small JSON text layer: canonical encoding of strings, numbers, booleans
//! and string arrays, and parsers that read that canonical form back.
//! Every encoder is pinned to a spec-level encoding function, every parser to
//! a spec-level parsing function, and parsing is proved to invert encoding.

use vstd::prelude::*;

use crate::text::{
    all_digits, chars_of, dec_str, dec_val, is_digit, lemma_all_digits_dec_str,
    lemma_dec_val_dec_str, matches_at_exec,
};

verus! {

pub open spec fn is_hex_lower(c: char) -> bool {
    ('0' <= c && c <= '9') || ('a' <= c && c <= 'f')
}

pub open spec fn hex_val(c: char) -> int {
    if '0' <= c && c <= '9' {
        c as int - '0' as int
    } else {
        c as int - 'a' as int + 10
    }
}

pub open spec fn hex_digit_char(d: int) -> char {
    if d < 10 {
        crate::text::dec_digit_char(d)
    } else if d == 10 {
        'a'
    } else if d == 11 {
        'b'
    } else if d == 12 {
        'c'
    } else if d == 13 {
        'd'
    } else if d == 14 {
        'e'
    } else {
        'f'
    }
}

pub proof fn lemma_hex_round_trip(d: int)
    requires
        0 <= d < 16,
    ensures
        is_hex_lower(hex_digit_char(d)),
        hex_val(hex_digit_char(d)) == d,
{
}

fn hex_digit_char_exec(d: u32) -> (c: char)
    requires
        d < 16,
    ensures
        c == hex_digit_char(d as int),
{
    match d {
        0 => '0',
        1 => '1',
        2 => '2',
        3 => '3',
        4 => '4',
        5 => '5',
        6 => '6',
        7 => '7',
        8 => '8',
        9 => '9',
        10 => 'a',
        11 => 'b',
        12 => 'c',
        13 => 'd',
        14 => 'e',
        _ => 'f',
    }
}

/// The escape sequence a character becomes inside a JSON string: quote and
/// backslash get a backslash escape, control characters a `\u00xx` escape,
/// everything else stands for itself.
pub open spec fn esc_char(c: char) -> Seq<char> {
    if c == '"' {
        seq!['\\', '"']
    } else if c == '\\' {
        seq!['\\', '\\']
    } else if (c as u32) < 32 {
        seq![
            '\\',
            'u',
            '0',
            '0',
            hex_digit_char((c as u32) as int / 16),
            hex_digit_char((c as u32) as int % 16),
        ]
    } else {
        seq![c]
    }
}

pub open spec fn esc_str(s: Seq<char>) -> Seq<char>
    decreases s.len(),
{
    if s.len() == 0 {
        Seq::empty()
    } else {
        esc_char(s[0]) + esc_str(s.drop_first())
    }
}

/// The canonical JSON encoding of a string: quoted and escaped.
pub open spec fn enc_str(s: Seq<char>) -> Seq<char> {
    seq!['"'] + esc_str(s) + seq!['"']
}

pub open spec fn enc_bool(b: bool) -> Seq<char> {
    if b {
        seq!['t', 'r', 'u', 'e']
    } else {
        seq!['f', 'a', 'l', 's', 'e']
    }
}

pub open spec fn null_chars() -> Seq<char> {
    seq!['n', 'u', 'l', 'l']
}

/// An optional string: `null` when absent, the quoted string when present.
pub open spec fn enc_opt_str(o: Option<Seq<char>>) -> Seq<char> {
    match o {
        Option::None => null_chars(),
        Option::Some(s) => enc_str(s),
    }
}

pub open spec fn enc_str_items(items: Seq<Seq<char>>) -> Seq<char>
    decreases items.len(),
{
    if items.len() == 0 {
        Seq::empty()
    } else if items.len() == 1 {
        enc_str(items[0])
    } else {
        enc_str(items[0]) + seq![','] + enc_str_items(items.drop_first())
    }
}

/// A JSON array of strings.
pub open spec fn enc_str_arr(items: Seq<Seq<char>>) -> Seq<char> {
    seq!['['] + enc_str_items(items) + seq![']']
}

pub proof fn lemma_esc_str_append(a: Seq<char>, b: Seq<char>)
    ensures
        esc_str(a + b) == esc_str(a) + esc_str(b),
    decreases a.len(),
{
    if a.len() == 0 {
        assert(a + b =~= b);
        assert(esc_str(a) + esc_str(b) =~= esc_str(b));
    } else {
        lemma_esc_str_append(a.drop_first(), b);
        assert((a + b).drop_first() =~= a.drop_first() + b);
        assert((a + b)[0] == a[0]);
        assert(esc_char(a[0]) + (esc_str(a.drop_first()) + esc_str(b)) =~= (esc_char(a[0])
            + esc_str(a.drop_first())) + esc_str(b));
    }
}

/// Appends the characters of a literal.
pub fn write_lit(out: &mut Vec<char>, lit: &str)
    ensures
        final(out)@ == old(out)@ + lit@,
{
    let mut cs = chars_of(lit);
    out.append(&mut cs);
}

/// Appends the escaped form of `s`.
pub fn write_escaped(out: &mut Vec<char>, s: &Vec<char>)
    ensures
        final(out)@ == old(out)@ + esc_str(s@),
{
    let ghost base = out@;
    let mut i: usize = 0;
    proof {
        assert(s@.subrange(0, 0) =~= Seq::<char>::empty());
        assert(base + Seq::<char>::empty() =~= base);
    }
    while i < s.len()
        invariant
            i <= s@.len(),
            out@ == base + esc_str(s@.subrange(0, i as int)),
        decreases s@.len() - i,
    {
        let ghost pre = s@.subrange(0, i as int);
        let c = s[i];
        if c == '"' {
            out.push('\\');
            out.push('"');
        } else if c == '\\' {
            out.push('\\');
            out.push('\\');
        } else if (c as u32) < 32 {
            let code = c as u32;
            out.push('\\');
            out.push('u');
            out.push('0');
            out.push('0');
            out.push(hex_digit_char_exec(code / 16));
            out.push(hex_digit_char_exec(code % 16));
        } else {
            out.push(c);
        }
        i = i + 1;
        proof {
            reveal_with_fuel(esc_str, 2);
            let pre2 = s@.subrange(0, i as int);
            assert(pre2 =~= pre + seq![c]);
            lemma_esc_str_append(pre, seq![c]);
            assert(seq![c].drop_first() =~= Seq::<char>::empty());
            assert(esc_str(seq![c]) =~= esc_char(c));
            assert(out@ =~= base + (esc_str(pre) + esc_char(c)));
        }
    }
    proof {
        assert(s@.subrange(0, s@.len() as int) =~= s@);
    }
}

/// Appends the quoted, escaped form of `s`.
pub fn write_quoted(out: &mut Vec<char>, s: &Vec<char>)
    ensures
        final(out)@ == old(out)@ + enc_str(s@),
{
    let ghost base = out@;
    out.push('"');
    write_escaped(out, s);
    out.push('"');
    proof {
        assert(out@ =~= base + enc_str(s@));
    }
}

/// Appends the decimal form of `n`.
pub fn write_u64(out: &mut Vec<char>, n: u64)
    ensures
        final(out)@ == old(out)@ + dec_str(n as int),
{
    let mut digits = crate::text::fmt_u64(n);
    out.append(&mut digits);
}

/// Appends `true` or `false`.
pub fn write_bool(out: &mut Vec<char>, b: bool)
    ensures
        final(out)@ == old(out)@ + enc_bool(b),
{
    let ghost base = out@;
    if b {
        write_lit(out, "true");
        proof {
            reveal_strlit("true");
            assert(out@ =~= base + enc_bool(b));
        }
    } else {
        write_lit(out, "false");
        proof {
            reveal_strlit("false");
            assert(out@ =~= base + enc_bool(b));
        }
    }
}

/// Consumes an expected literal prefix.
pub open spec fn p_lit(s: Seq<char>, lit: Seq<char>) -> Option<Seq<char>> {
    if lit.len() <= s.len() && s.subrange(0, lit.len() as int) == lit {
        Option::Some(s.skip(lit.len() as int))
    } else {
        Option::None
    }
}

/// Reads a string body up to and including the closing quote, undoing the
/// escapes that [`esc_char`] introduces.
pub open spec fn p_strbody(s: Seq<char>) -> Option<(Seq<char>, Seq<char>)>
    decreases s.len(),
{
    if s.len() == 0 {
        Option::None
    } else if s[0] == '"' {
        Option::Some((Seq::empty(), s.drop_first()))
    } else if s[0] == '\\' {
        if s.len() >= 2 && (s[1] == '"' || s[1] == '\\') {
            match p_strbody(s.skip(2)) {
                Option::Some(r) => Option::Some((seq![s[1]] + r.0, r.1)),
                Option::None => Option::None,
            }
        } else if s.len() >= 6 && s[1] == 'u' && s[2] == '0' && s[3] == '0' && is_hex_lower(s[4])
            && is_hex_lower(s[5]) && hex_val(s[4]) * 16 + hex_val(s[5]) < 32 {
            match p_strbody(s.skip(6)) {
                Option::Some(r) => Option::Some(
                    (seq![(((hex_val(s[4]) * 16 + hex_val(s[5])) as u32) as char)] + r.0, r.1),
                ),
                Option::None => Option::None,
            }
        } else {
            Option::None
        }
    } else {
        match p_strbody(s.drop_first()) {
            Option::Some(r) => Option::Some((seq![s[0]] + r.0, r.1)),
            Option::None => Option::None,
        }
    }
}

/// Reads a quoted string.
pub open spec fn p_quoted(s: Seq<char>) -> Option<(Seq<char>, Seq<char>)> {
    if s.len() > 0 && s[0] == '"' {
        p_strbody(s.drop_first())
    } else {
        Option::None
    }
}

pub open spec fn p_bool(s: Seq<char>) -> Option<(bool, Seq<char>)> {
    match p_lit(s, enc_bool(true)) {
        Option::Some(r) => Option::Some((true, r)),
        Option::None => match p_lit(s, enc_bool(false)) {
            Option::Some(r) => Option::Some((false, r)),
            Option::None => Option::None,
        },
    }
}

/// The length of the leading run of decimal digits.
pub open spec fn digit_run(s: Seq<char>) -> int
    decreases s.len(),
{
    if s.len() > 0 && is_digit(s[0]) {
        1 + digit_run(s.drop_first())
    } else {
        0
    }
}

/// Reads a decimal number that fits a `u64`.
pub open spec fn p_u64(s: Seq<char>) -> Option<(u64, Seq<char>)> {
    let n = digit_run(s);
    if n == 0 {
        Option::None
    } else if dec_val(s.subrange(0, n)) > u64::MAX as int {
        Option::None
    } else {
        Option::Some((dec_val(s.subrange(0, n)) as u64, s.skip(n)))
    }
}

/// Reads `null` or a quoted string.
pub open spec fn p_opt_str(s: Seq<char>) -> Option<(Option<Seq<char>>, Seq<char>)> {
    match p_lit(s, null_chars()) {
        Option::Some(r) => Option::Some((Option::None, r)),
        Option::None => match p_quoted(s) {
            Option::Some(r) => Option::Some((Option::Some(r.0), r.1)),
            Option::None => Option::None,
        },
    }
}

/// Every successful string-body parse consumes at least one character.
pub proof fn lemma_p_strbody_shrinks(s: Seq<char>)
    ensures
        p_strbody(s) matches Option::Some(r) ==> r.1.len() < s.len(),
    decreases s.len(),
{
    if s.len() > 0 && s[0] != '"' {
        if s[0] == '\\' {
            if s.len() >= 2 && (s[1] == '"' || s[1] == '\\') {
                lemma_p_strbody_shrinks(s.skip(2));
            } else if s.len() >= 6 && s[1] == 'u' {
                lemma_p_strbody_shrinks(s.skip(6));
            }
        } else {
            lemma_p_strbody_shrinks(s.drop_first());
        }
    }
}

#[via_fn]
proof fn p_str_items_decreases(s: Seq<char>)
{
    if s.len() > 0 && s[0] == '"' {
        lemma_p_strbody_shrinks(s.drop_first());
    }
}

/// Reads comma-separated quoted strings up to and including the closing
/// bracket of the array.
pub open spec fn p_str_items(s: Seq<char>) -> Option<(Seq<Seq<char>>, Seq<char>)>
    decreases s.len(),
        via p_str_items_decreases
{
    match p_quoted(s) {
        Option::Some(r) => {
            if r.1.len() > 0 && r.1[0] == ']' {
                Option::Some((seq![r.0], r.1.drop_first()))
            } else if r.1.len() > 0 && r.1[0] == ',' {
                match p_str_items(r.1.drop_first()) {
                    Option::Some(r2) => Option::Some((seq![r.0] + r2.0, r2.1)),
                    Option::None => Option::None,
                }
            } else {
                Option::None
            }
        },
        Option::None => Option::None,
    }
}

/// Reads a JSON array of strings.
pub open spec fn p_str_arr(s: Seq<char>) -> Option<(Seq<Seq<char>>, Seq<char>)> {
    if s.len() > 0 && s[0] == '[' {
        let t = s.drop_first();
        if t.len() > 0 && t[0] == ']' {
            Option::Some((Seq::empty(), t.drop_first()))
        } else {
            p_str_items(t)
        }
    } else {
        Option::None
    }
}

/// A literal parses off the front of its own encoding.
pub proof fn lemma_p_lit_enc(lit: Seq<char>, rest: Seq<char>)
    ensures
        p_lit(lit + rest, lit) == Option::Some(rest),
{
    let w = lit + rest;
    assert(w.subrange(0, lit.len() as int) =~= lit);
    assert(w.skip(lit.len() as int) =~= rest);
}

/// Reading a string body inverts escaping.
pub proof fn lemma_p_strbody_enc(s: Seq<char>, rest: Seq<char>)
    ensures
        p_strbody(esc_str(s) + seq!['"'] + rest) == Option::Some((s, rest)),
    decreases s.len(),
{
    let w = esc_str(s) + seq!['"'] + rest;
    if s.len() == 0 {
        assert(w =~= seq!['"'] + rest);
        assert(w[0] == '"');
        assert(w.drop_first() =~= rest);
        assert(p_strbody(w) == Option::Some((Seq::<char>::empty(), rest)));
    } else {
        let c = s[0];
        let tail = s.drop_first();
        lemma_p_strbody_enc(tail, rest);
        let x = esc_str(tail) + seq!['"'] + rest;
        assert(esc_str(s) == esc_char(c) + esc_str(tail));
        assert(w =~= esc_char(c) + x);
        if c == '"' {
            assert(w[0] == '\\');
            assert(w[1] == '"');
            assert(w.skip(2) =~= x);
            assert(seq![w[1]] + tail =~= s);
        } else if c == '\\' {
            assert(w[0] == '\\');
            assert(w[1] == '\\');
            assert(w.skip(2) =~= x);
            assert(seq![w[1]] + tail =~= s);
        } else if (c as u32) < 32 {
            let u = (c as u32) as int;
            assert(w[0] == '\\');
            assert(w[1] == 'u');
            assert(w[2] == '0');
            assert(w[3] == '0');
            assert(w[4] == hex_digit_char(u / 16));
            assert(w[5] == hex_digit_char(u % 16));
            lemma_hex_round_trip(u / 16);
            lemma_hex_round_trip(u % 16);
            assert(hex_val(w[4]) * 16 + hex_val(w[5]) == u);
            assert((u as u32) == c as u32);
            vstd::utf8::char_u32_cast(c, c as u32);
            assert(((u as u32) as char) == c);
            assert(w.skip(6) =~= x);
            assert(seq![((hex_val(w[4]) * 16 + hex_val(w[5])) as u32 as char)] + tail =~= s);
        } else {
            assert(w[0] == c);
            assert(w[0] != '"' && w[0] != '\\');
            assert(w.drop_first() =~= x);
            assert(seq![w[0]] + tail =~= s);
        }
    }
}

/// Reading a quoted string inverts encoding.
pub proof fn lemma_p_quoted_enc(s: Seq<char>, rest: Seq<char>)
    ensures
        p_quoted(enc_str(s) + rest) == Option::Some((s, rest)),
{
    let w = enc_str(s) + rest;
    assert(w[0] == '"');
    assert(w.drop_first() =~= esc_str(s) + seq!['"'] + rest);
    lemma_p_strbody_enc(s, rest);
}

pub proof fn lemma_p_bool_enc(b: bool, rest: Seq<char>)
    ensures
        p_bool(enc_bool(b) + rest) == Option::Some((b, rest)),
{
    let w = enc_bool(b) + rest;
    if b {
        lemma_p_lit_enc(enc_bool(true), rest);
    } else {
        lemma_p_lit_enc(enc_bool(false), rest);
        if p_lit(w, enc_bool(true)) is Some {
            assert(w.subrange(0, 4)[0] == 'f');
            assert(false);
        }
    }
}

/// The digit run of an all-digit string followed by a non-digit is the whole
/// string.
pub proof fn lemma_digit_run_append(a: Seq<char>, b: Seq<char>)
    requires
        all_digits(a),
        b.len() == 0 || !is_digit(b[0]),
    ensures
        digit_run(a + b) == a.len(),
    decreases a.len(),
{
    let w = a + b;
    if a.len() == 0 {
        assert(w =~= b);
    } else {
        assert(is_digit(a[0]));
        assert(w[0] == a[0]);
        assert(all_digits(a.drop_first())) by {
            assert(forall|i: int|
                0 <= i < a.len() - 1 ==> a.drop_first()[i] == #[trigger] a[i + 1]);
        }
        lemma_digit_run_append(a.drop_first(), b);
        assert(w.drop_first() =~= a.drop_first() + b);
    }
}

/// Reading a decimal number inverts formatting, provided what follows does
/// not begin with a digit.
pub proof fn lemma_p_u64_enc(n: u64, rest: Seq<char>)
    requires
        rest.len() == 0 || !is_digit(rest[0]),
    ensures
        p_u64(dec_str(n as int) + rest) == Option::Some((n, rest)),
{
    let d = dec_str(n as int);
    let w = d + rest;
    lemma_all_digits_dec_str(n as int);
    lemma_dec_val_dec_str(n as int);
    lemma_digit_run_append(d, rest);
    assert(w.subrange(0, d.len() as int) =~= d);
    assert(w.skip(d.len() as int) =~= rest);
}

pub proof fn lemma_p_opt_str_enc(o: Option<Seq<char>>, rest: Seq<char>)
    ensures
        p_opt_str(enc_opt_str(o) + rest) == Option::Some((o, rest)),
{
    let w = enc_opt_str(o) + rest;
    match o {
        Option::None => {
            lemma_p_lit_enc(null_chars(), rest);
        },
        Option::Some(s) => {
            assert(w[0] == '"');
            if p_lit(w, null_chars()) is Some {
                assert(w.subrange(0, 4)[0] == '"');
                assert(false);
            }
            lemma_p_quoted_enc(s, rest);
        },
    }
}

pub proof fn lemma_p_str_items_enc(items: Seq<Seq<char>>, rest: Seq<char>)
    requires
        items.len() >= 1,
    ensures
        p_str_items(enc_str_items(items) + seq![']'] + rest) == Option::Some((items, rest)),
    decreases items.len(),
{
    let w = enc_str_items(items) + seq![']'] + rest;
    if items.len() == 1 {
        assert(w =~= enc_str(items[0]) + (seq![']'] + rest));
        lemma_p_quoted_enc(items[0], seq![']'] + rest);
        let r1 = (seq![']'] + rest);
        assert(r1[0] == ']');
        assert(r1.drop_first() =~= rest);
        assert(seq![items[0]] =~= items);
    } else {
        let x = items[0];
        let tail = items.drop_first();
        let inner = seq![','] + enc_str_items(tail) + seq![']'] + rest;
        assert(w =~= enc_str(x) + inner);
        lemma_p_quoted_enc(x, inner);
        assert(inner[0] == ',');
        assert(inner[0] != ']');
        assert(inner.drop_first() =~= enc_str_items(tail) + seq![']'] + rest);
        lemma_p_str_items_enc(tail, rest);
        assert(seq![x] + tail =~= items);
    }
}

/// Reading a string array inverts encoding.
pub proof fn lemma_p_str_arr_enc(items: Seq<Seq<char>>, rest: Seq<char>)
    ensures
        p_str_arr(enc_str_arr(items) + rest) == Option::Some((items, rest)),
{
    let w = enc_str_arr(items) + rest;
    assert(w[0] == '[');
    let t = w.drop_first();
    if items.len() == 0 {
        assert(t =~= seq![']'] + rest);
        assert(t[0] == ']');
        assert(t.drop_first() =~= rest);
        assert(Seq::<Seq<char>>::empty() =~= items);
    } else {
        assert(t =~= enc_str_items(items) + seq![']'] + rest);
        assert(enc_str_items(items)[0] == '"');
        assert(t[0] == '"');
        assert(t[0] != ']');
        lemma_p_str_items_enc(items, rest);
    }
}

/// The character sequences held by a sequence of character vectors.
pub open spec fn views_of(s: Seq<Vec<char>>) -> Seq<Seq<char>> {
    Seq::new(s.len(), |i: int| s[i]@)
}

/// The character sequences held by a sequence of strings.
pub open spec fn views_of_strings(s: Seq<String>) -> Seq<Seq<char>> {
    Seq::new(s.len(), |i: int| s[i]@)
}

/// The character sequence held by an optional string.
pub open spec fn view_of_opt(o: Option<String>) -> Option<Seq<char>> {
    match o {
        Option::None => Option::None,
        Option::Some(s) => Option::Some(s@),
    }
}

/// Appends the quoted, escaped form of a string slice.
pub fn write_quoted_str(out: &mut Vec<char>, s: &str)
    ensures
        final(out)@ == old(out)@ + enc_str(s@),
{
    let cs = chars_of(s);
    write_quoted(out, &cs);
}

/// Appends `null` or the quoted string.
pub fn write_opt_str(out: &mut Vec<char>, o: &Option<String>)
    ensures
        final(out)@ == old(out)@ + enc_opt_str(view_of_opt(*o)),
{
    let ghost base = out@;
    match o {
        Option::None => {
            write_lit(out, "null");
            proof {
                reveal_strlit("null");
                assert(out@ =~= base + null_chars());
            }
        },
        Option::Some(s) => {
            write_quoted_str(out, s.as_str());
        },
    }
}

fn write_str_items_from(out: &mut Vec<char>, items: &Vec<String>, idx: usize)
    requires
        idx <= items@.len(),
    ensures
        final(out)@ == old(out)@ + enc_str_items(views_of_strings(items@).skip(idx as int)),
    decreases items@.len() - idx,
{
    let ghost vs = views_of_strings(items@).skip(idx as int);
    if idx == items.len() {
        proof {
            assert(out@ + enc_str_items(vs) =~= out@);
        }
        return ;
    }
    let ghost base = out@;
    write_quoted_str(out, items[idx].as_str());
    proof {
        assert(vs[0] == items@[idx as int]@);
    }
    if idx + 1 == items.len() {
        proof {
            assert(vs.len() == 1);
            assert(out@ =~= base + enc_str_items(vs));
        }
    } else {
        out.push(',');
        write_str_items_from(out, items, idx + 1);
        proof {
            assert(vs.len() > 1);
            assert(vs.drop_first() =~= views_of_strings(items@).skip(idx as int + 1));
            assert(out@ =~= base + enc_str_items(vs));
        }
    }
}

/// Appends the JSON array of the given strings.
pub fn write_str_arr(out: &mut Vec<char>, items: &Vec<String>)
    ensures
        final(out)@ == old(out)@ + enc_str_arr(views_of_strings(items@)),
{
    let ghost base = out@;
    out.push('[');
    write_str_items_from(out, items, 0);
    out.push(']');
    proof {
        assert(views_of_strings(items@).skip(0) =~= views_of_strings(items@));
        assert(out@ =~= base + enc_str_arr(views_of_strings(items@)));
    }
}

/// Consumes the characters of `lit` at `pos`.
pub fn parse_lit(v: &Vec<char>, pos: usize, lit: &str) -> (r: Option<usize>)
    requires
        pos <= v@.len(),
    ensures
        match r {
            Some(j) => pos <= j <= v@.len() && p_lit(v@.skip(pos as int), lit@) == Option::Some(
                v@.skip(j as int),
            ),
            None => p_lit(v@.skip(pos as int), lit@) is None,
        },
{
    let cs = chars_of(lit);
    let n = v.len();
    let ghost rem = v@.skip(pos as int);
    if matches_at_exec(v, &cs, pos) {
        proof {
            assert(pos + cs@.len() <= n);
        }
        proof {
            assert(rem.subrange(0, lit@.len() as int) =~= v@.subrange(
                pos as int,
                pos + lit@.len(),
            ));
            assert(rem.skip(lit@.len() as int) =~= v@.skip(pos + lit@.len()));
        }
        Some(pos + cs.len())
    } else {
        proof {
            if lit@.len() <= rem.len() {
                assert(rem.subrange(0, lit@.len() as int) =~= v@.subrange(
                    pos as int,
                    pos + lit@.len(),
                ));
            }
        }
        None
    }
}

fn is_hex_lower_exec(c: char) -> (r: bool)
    ensures
        r == is_hex_lower(c),
{
    ('0' <= c && c <= '9') || ('a' <= c && c <= 'f')
}

fn hex_val_exec(c: char) -> (r: u32)
    requires
        is_hex_lower(c),
    ensures
        r as int == hex_val(c),
        r < 16,
{
    if '0' <= c && c <= '9' {
        (c as u32) - ('0' as u32)
    } else {
        (c as u32) - ('a' as u32) + 10
    }
}

/// Reads a string body starting at `pos`, returning the decoded characters
/// and the position after the closing quote.
pub fn parse_strbody(v: &Vec<char>, pos: usize) -> (r: Option<(Vec<char>, usize)>)
    requires
        pos <= v@.len(),
    ensures
        match r {
            Some(p) => pos <= p.1 <= v@.len() && p_strbody(v@.skip(pos as int)) == Option::Some(
                (p.0@, v@.skip(p.1 as int)),
            ),
            None => p_strbody(v@.skip(pos as int)) is None,
        },
    decreases v@.len() - pos,
{
    let ghost rem = v@.skip(pos as int);
    if pos == v.len() {
        return None;
    }
    let c = v[pos];
    proof {
        assert(rem[0] == c);
    }
    if c == '"' {
        proof {
            assert(rem.drop_first() =~= v@.skip(pos as int + 1));
        }
        return Some((Vec::new(), pos + 1));
    }
    if c == '\\' {
        if v.len() - pos < 2 {
            return None;
        }
        let e = v[pos + 1];
        proof {
            assert(rem[1] == e);
        }
        if e == '"' || e == '\\' {
            proof {
                assert(rem.skip(2) =~= v@.skip(pos as int + 2));
            }
            match parse_strbody(v, pos + 2) {
                Some((mut sv, j)) => {
                    let ghost sub = sv@;
                    sv.insert(0, e);
                    proof {
                        assert(sv@ =~= seq![e] + sub);
                    }
                    Some((sv, j))
                },
                None => None,
            }
        } else if e == 'u' {
            if v.len() - pos < 6 {
                return None;
            }
            let d2 = v[pos + 2];
            let d3 = v[pos + 3];
            let h1c = v[pos + 4];
            let h2c = v[pos + 5];
            proof {
                assert(rem[2] == d2);
                assert(rem[3] == d3);
                assert(rem[4] == h1c);
                assert(rem[5] == h2c);
            }
            if !(d2 == '0' && d3 == '0' && is_hex_lower_exec(h1c) && is_hex_lower_exec(h2c)) {
                return None;
            }
            let code = hex_val_exec(h1c) * 16 + hex_val_exec(h2c);
            if code >= 32 {
                return None;
            }
            proof {
                assert(rem.skip(6) =~= v@.skip(pos as int + 6));
            }
            match parse_strbody(v, pos + 6) {
                Some((mut sv, j)) => {
                    let ch = (code as u8) as char;
                    proof {
                        assert(code as int == hex_val(rem[4]) * 16 + hex_val(rem[5]));
                        assert(ch == (((hex_val(rem[4]) * 16 + hex_val(rem[5])) as u32) as char));
                    }
                    let ghost sub = sv@;
                    sv.insert(0, ch);
                    proof {
                        assert(sv@ =~= seq![ch] + sub);
                    }
                    Some((sv, j))
                },
                None => None,
            }
        } else {
            None
        }
    } else {
        match parse_strbody(v, pos + 1) {
            Some((mut sv, j)) => {
                proof {
                    assert(rem.drop_first() =~= v@.skip(pos as int + 1));
                }
                let ghost sub = sv@;
                sv.insert(0, c);
                proof {
                    assert(sv@ =~= seq![c] + sub);
                }
                Some((sv, j))
            },
            None => {
                proof {
                    assert(rem.drop_first() =~= v@.skip(pos as int + 1));
                }
                None
            },
        }
    }
}

/// Reads a quoted string starting at `pos`.
pub fn parse_quoted(v: &Vec<char>, pos: usize) -> (r: Option<(Vec<char>, usize)>)
    requires
        pos <= v@.len(),
    ensures
        match r {
            Some(p) => pos <= p.1 <= v@.len() && p_quoted(v@.skip(pos as int)) == Option::Some(
                (p.0@, v@.skip(p.1 as int)),
            ),
            None => p_quoted(v@.skip(pos as int)) is None,
        },
{
    let ghost rem = v@.skip(pos as int);
    if pos == v.len() {
        return None;
    }
    if v[pos] != '"' {
        proof {
            assert(rem[0] == v@[pos as int]);
        }
        return None;
    }
    proof {
        assert(rem[0] == '"');
        assert(rem.drop_first() =~= v@.skip(pos as int + 1));
    }
    parse_strbody(v, pos + 1)
}

/// Reads `true` or `false` starting at `pos`.
pub fn parse_bool(v: &Vec<char>, pos: usize) -> (r: Option<(bool, usize)>)
    requires
        pos <= v@.len(),
    ensures
        match r {
            Some(p) => pos <= p.1 <= v@.len() && p_bool(v@.skip(pos as int)) == Option::Some(
                (p.0, v@.skip(p.1 as int)),
            ),
            None => p_bool(v@.skip(pos as int)) is None,
        },
{
    proof {
        reveal_strlit("true");
        reveal_strlit("false");
        assert(("true")@ =~= enc_bool(true));
        assert(("false")@ =~= enc_bool(false));
    }
    match parse_lit(v, pos, "true") {
        Some(j) => Some((true, j)),
        None => match parse_lit(v, pos, "false") {
            Some(j) => Some((false, j)),
            None => None,
        },
    }
}

fn digit_run_end(v: &Vec<char>, pos: usize) -> (j: usize)
    requires
        pos <= v@.len(),
    ensures
        pos <= j <= v@.len(),
        forall|k: int| pos <= k < j ==> is_digit(#[trigger] v@[k]),
        j < v@.len() ==> !is_digit(v@[j as int]),
{
    let mut j = pos;
    while j < v.len()
        invariant
            pos <= j <= v@.len(),
            forall|k: int| pos <= k < j ==> is_digit(#[trigger] v@[k]),
        decreases v@.len() - j,
    {
        let c = v[j];
        if !('0' <= c && c <= '9') {
            return j;
        }
        j = j + 1;
    }
    j
}

proof fn lemma_digit_run_char(s: Seq<char>, k: int)
    requires
        0 <= k <= s.len(),
        forall|i: int| 0 <= i < k ==> is_digit(#[trigger] s[i]),
        k < s.len() ==> !is_digit(s[k]),
    ensures
        digit_run(s) == k,
    decreases k,
{
    if k == 0 {
    } else {
        assert(is_digit(s[0]));
        lemma_digit_run_char(s.drop_first(), k - 1);
        assert(forall|i: int| 0 <= i < k - 1 ==> s.drop_first()[i] == #[trigger] s[i + 1]);
    }
}

/// Reads a decimal `u64` starting at `pos`.
pub fn parse_u64_at(v: &Vec<char>, pos: usize) -> (r: Option<(u64, usize)>)
    requires
        pos <= v@.len(),
    ensures
        match r {
            Some(p) => pos <= p.1 <= v@.len() && p_u64(v@.skip(pos as int)) == Option::Some(
                (p.0, v@.skip(p.1 as int)),
            ),
            None => p_u64(v@.skip(pos as int)) is None,
        },
{
    let ghost rem = v@.skip(pos as int);
    let j = digit_run_end(v, pos);
    proof {
        assert(forall|k: int| 0 <= k < j - pos ==> rem[k] == #[trigger] v@[pos + k]);
        lemma_digit_run_char(rem, j - pos);
    }
    if j == pos {
        return None;
    }
    let ghost run = rem.subrange(0, j - pos);
    proof {
        assert(run =~= v@.subrange(pos as int, j as int));
    }
    match crate::text::parse_dec(v, pos, j) {
        Some(n) => Some((n, j)),
        None => {
            proof {
                assert(rem.skip(j - pos) =~= v@.skip(j as int));
            }
            None
        },
    }
}

/// Reads `null` or a quoted string starting at `pos`.
pub fn parse_opt_str(v: &Vec<char>, pos: usize) -> (r: Option<(Option<Vec<char>>, usize)>)
    requires
        pos <= v@.len(),
    ensures
        match r {
            Some(p) => pos <= p.1 <= v@.len() && ({
                let inner = match p.0 {
                    Option::None => Option::<Seq<char>>::None,
                    Option::Some(ref sv) => Option::Some(sv@),
                };
                p_opt_str(v@.skip(pos as int)) == Option::Some((inner, v@.skip(p.1 as int)))
            }),
            None => p_opt_str(v@.skip(pos as int)) is None,
        },
{
    proof {
        reveal_strlit("null");
        assert(("null")@ =~= null_chars());
    }
    match parse_lit(v, pos, "null") {
        Some(j) => Some((None, j)),
        None => match parse_quoted(v, pos) {
            Some((sv, j)) => Some((Some(sv), j)),
            None => None,
        },
    }
}

/// Reads quoted strings separated by commas, up to and including the closing
/// bracket, starting at `pos`.
pub fn parse_str_items(v: &Vec<char>, pos: usize) -> (r: Option<(Vec<Vec<char>>, usize)>)
    requires
        pos <= v@.len(),
    ensures
        match r {
            Some(p) => pos <= p.1 <= v@.len() && p_str_items(v@.skip(pos as int))
                == Option::Some((views_of(p.0@), v@.skip(p.1 as int))),
            None => p_str_items(v@.skip(pos as int)) is None,
        },
    decreases v@.len() - pos,
{
    let ghost rem = v@.skip(pos as int);
    match parse_quoted(v, pos) {
        Some((sv, j)) => {
            if j == v.len() {
                return None;
            }
            let c2 = v[j];
            proof {
                assert(v@.skip(j as int)[0] == c2);
            }
            if c2 == ']' {
                let mut out: Vec<Vec<char>> = Vec::new();
                let ghost svv = sv@;
                out.push(sv);
                proof {
                    assert(views_of(out@) =~= seq![svv]);
                    assert(v@.skip(j as int).drop_first() =~= v@.skip(j as int + 1));
                }
                Some((out, j + 1))
            } else if c2 == ',' {
                proof {
                    assert(v@.skip(j as int).drop_first() =~= v@.skip(j as int + 1));
                }
                match parse_str_items(v, j + 1) {
                    Some((mut out, k)) => {
                        let ghost outv = out@;
                        let ghost svv = sv@;
                        out.insert(0, sv);
                        proof {
                            assert(views_of(out@) =~= seq![svv] + views_of(outv));
                        }
                        Some((out, k))
                    },
                    None => None,
                }
            } else {
                None
            }
        },
        None => None,
    }
}

/// Reads a JSON array of strings starting at `pos`.
pub fn parse_str_arr(v: &Vec<char>, pos: usize) -> (r: Option<(Vec<Vec<char>>, usize)>)
    requires
        pos <= v@.len(),
    ensures
        match r {
            Some(p) => pos <= p.1 <= v@.len() && p_str_arr(v@.skip(pos as int)) == Option::Some(
                (views_of(p.0@), v@.skip(p.1 as int)),
            ),
            None => p_str_arr(v@.skip(pos as int)) is None,
        },
{
    let ghost rem = v@.skip(pos as int);
    if pos == v.len() {
        return None;
    }
    if v[pos] != '[' {
        proof {
            assert(rem[0] == v@[pos as int]);
        }
        return None;
    }
    proof {
        assert(rem[0] == '[');
        assert(rem.drop_first() =~= v@.skip(pos as int + 1));
    }
    if pos + 1 < v.len() {
        let c1 = v[pos + 1];
        proof {
            assert(rem.drop_first()[0] == c1);
        }
        if c1 == ']' {
            proof {
                assert(rem.drop_first().drop_first() =~= v@.skip(pos as int + 2));
                assert(views_of(Seq::<Vec<char>>::empty()) =~= Seq::<Seq<char>>::empty());
            }
            return Some((Vec::new(), pos + 2));
        }
    }
    parse_str_items(v, pos + 1)
}

} // verus!
