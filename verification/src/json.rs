//! JSON text primitives for the protocol's wire forms.
//!
//! The protocol exchanges machine-generated JSON in the exact envelope
//! forms of the message taxonomy, so these readers accept precisely the
//! canonical text that the writers here emit: strings with the minimal
//! escapes, bare decimal integers, and no incidental whitespace.

use vstd::prelude::*;

verus! {

/// Whether `c` is a control character, which JSON never holds raw.
pub open spec fn is_ctl(c: char) -> bool {
    (c as u32) < 32
}

/// Whether `c` is a decimal digit.
pub open spec fn is_digit(c: char) -> bool {
    '0' <= c && c <= '9'
}

/// The lowercase hexadecimal digit of a value below 16.
pub open spec fn hex_char(v: u8) -> char
    recommends
        v < 16,
{
    if v < 10 {
        (48 + v) as char
    } else {
        (87 + v) as char
    }
}

/// The text that stands for `c` inside a JSON string: the minimal escape
/// for a quote, a backslash or a control character, the character itself
/// otherwise.
pub open spec fn esc_char(c: char) -> Seq<char> {
    if c == '"' {
        seq!['\\', '"']
    } else if c == '\\' {
        seq!['\\', '\\']
    } else if c == '\n' {
        seq!['\\', 'n']
    } else if c == '\r' {
        seq!['\\', 'r']
    } else if c == '\t' {
        seq!['\\', 't']
    } else if is_ctl(c) {
        seq!['\\', 'u', '0', '0', hex_char((c as u32 / 16) as u8), hex_char((c as u32 % 16) as u8)]
    } else {
        seq![c]
    }
}

/// The body of the JSON string that holds `s`: every character escaped as
/// `esc_char` says.
pub open spec fn json_escaped(s: Seq<char>) -> Seq<char>
    decreases s.len(),
{
    if s.len() == 0 {
        Seq::empty()
    } else {
        esc_char(s[0]) + json_escaped(s.skip(1))
    }
}

/// The JSON string that holds `s`: quote, escaped body, quote.
pub open spec fn json_string(s: Seq<char>) -> Seq<char> {
    seq!['"'] + json_escaped(s) + seq!['"']
}

/// The decimal digits of `n`, most significant first.
pub open spec fn u64_dec(n: u64) -> Seq<char>
    decreases n,
{
    if n < 10 {
        seq![(48 + n) as char]
    } else {
        u64_dec(n / 10).push((48 + n % 10) as char)
    }
}

/// Whether `p` is a prefix of `s`.
pub open spec fn starts_with(s: Seq<char>, p: Seq<char>) -> bool {
    s.len() >= p.len() && s.take(p.len() as int) == p
}

/// Escaping distributes over appending one character.
pub proof fn lemma_json_escaped_snoc(s: Seq<char>, c: char)
    ensures
        json_escaped(s.push(c)) == json_escaped(s) + esc_char(c),
    decreases s.len(),
{
    if s.len() == 0 {
        assert(s.push(c).skip(1) =~= Seq::<char>::empty());
        assert(s.push(c)[0] == c);
        assert(json_escaped(s.push(c)) == esc_char(c) + json_escaped(s.push(c).skip(1)));
        assert(json_escaped(s.push(c).skip(1)) == Seq::<char>::empty());
        assert(json_escaped(s) == Seq::<char>::empty());
        assert(json_escaped(s.push(c)) =~= json_escaped(s) + esc_char(c));
    } else {
        assert(s.push(c).skip(1) =~= s.skip(1).push(c));
        lemma_json_escaped_snoc(s.skip(1), c);
        assert(json_escaped(s.push(c)) =~= json_escaped(s) + esc_char(c));
    }
}

/// Relies on String::push: appends exactly the given character.
#[verifier::external_body]
pub(crate) fn push_char(s: &mut String, c: char)
    ensures
        final(s)@ == old(s)@.push(c),
{
    s.push(c);
}

/// Relies on String::push_str: appends exactly the given characters.
#[verifier::external_body]
pub(crate) fn append_str(out: &mut String, s: &str)
    ensures
        final(out)@ == old(out)@ + s@,
{
    out.push_str(s);
}

/// The lowercase hexadecimal digit of a value below 16.
fn hex_char_exec(v: u8) -> (c: char)
    requires
        v < 16,
    ensures
        c == hex_char(v),
{
    if v < 10 {
        (48 + v) as char
    } else {
        (87 + v) as char
    }
}

/// Appends the escaped body of the JSON string that holds `s`.
pub fn append_json_escaped(out: &mut String, s: &str)
    ensures
        final(out)@ == old(out)@ + json_escaped(s@),
{
    let n = s.unicode_len();
    let mut i: usize = 0;
    proof {
        assert(out@ =~= old(out)@ + json_escaped(s@.take(0)));
    }
    while i < n
        invariant
            i <= n,
            n == s@.len(),
            out@ == old(out)@ + json_escaped(s@.take(i as int)),
        decreases n - i,
    {
        let c = s.get_char(i);
        if c == '"' {
            push_char(out, '\\');
            push_char(out, '"');
        } else if c == '\\' {
            push_char(out, '\\');
            push_char(out, '\\');
        } else if c == '\n' {
            push_char(out, '\\');
            push_char(out, 'n');
        } else if c == '\r' {
            push_char(out, '\\');
            push_char(out, 'r');
        } else if c == '\t' {
            push_char(out, '\\');
            push_char(out, 't');
        } else if (c as u32) < 32 {
            push_char(out, '\\');
            push_char(out, 'u');
            push_char(out, '0');
            push_char(out, '0');
            push_char(out, hex_char_exec((c as u32 / 16) as u8));
            push_char(out, hex_char_exec((c as u32 % 16) as u8));
        } else {
            push_char(out, c);
        }
        proof {
            lemma_json_escaped_snoc(s@.take(i as int), s@[i as int]);
            assert(s@.take(i + 1) =~= s@.take(i as int).push(s@[i as int]));
            assert(out@ =~= old(out)@ + json_escaped(s@.take(i + 1)));
        }
        i = i + 1;
    }
    proof {
        assert(s@.take(n as int) =~= s@);
    }
}

/// Appends the JSON string that holds `s`: quote, escaped body, quote.
pub fn append_json_string(out: &mut String, s: &str)
    ensures
        final(out)@ == old(out)@ + json_string(s@),
{
    push_char(out, '"');
    append_json_escaped(out, s);
    push_char(out, '"');
    proof {
        assert(out@ =~= old(out)@ + json_string(s@));
    }
}

/// Appends the decimal digits of `n`, most significant first.
pub fn append_u64_dec(out: &mut String, n: u64)
    ensures
        final(out)@ == old(out)@ + u64_dec(n),
    decreases n,
{
    if n < 10 {
        push_char(out, (48 + n as u8) as char);
        proof {
            assert(out@ =~= old(out)@ + u64_dec(n));
        }
    } else {
        append_u64_dec(out, n / 10);
        push_char(out, (48 + (n % 10) as u8) as char);
        proof {
            assert(out@ =~= old(out)@ + u64_dec(n));
        }
    }
}

} // verus!

verus! {

/// Whether `c` is a lowercase hexadecimal digit.
pub open spec fn is_hex_lc(c: char) -> bool {
    is_digit(c) || ('a' <= c && c <= 'f')
}

/// The value of a lowercase hexadecimal digit, 255 for any other character.
pub open spec fn hex_val(c: char) -> u8 {
    if is_digit(c) {
        (c as u32 - 48) as u8
    } else if 'a' <= c && c <= 'f' {
        (c as u32 - 87) as u8
    } else {
        255
    }
}

/// Reads the body of a JSON string after its opening quote: the decoded
/// characters and the remainder after the closing quote. Exactly the
/// escapes that the writer emits are accepted, so a string survives the
/// round trip through writer and reader unchanged.
pub open spec fn spec_parse_string_body(s: Seq<char>) -> Option<(Seq<char>, Seq<char>)>
    decreases s.len(),
{
    if s.len() == 0 {
        None
    } else if s[0] == '"' {
        Some((Seq::empty(), s.skip(1)))
    } else if s[0] == '\\' {
        if s.len() < 2 {
            None
        } else {
            let e = s[1];
            if e == '"' || e == '\\' || e == 'n' || e == 'r' || e == 't' {
                let c = if e == '"' {
                    '"'
                } else if e == '\\' {
                    '\\'
                } else if e == 'n' {
                    '\n'
                } else if e == 'r' {
                    '\r'
                } else {
                    '\t'
                };
                match spec_parse_string_body(s.skip(2)) {
                    Some((rest, rem)) => Some((seq![c] + rest, rem)),
                    None => None,
                }
            } else if e == 'u' {
                if s.len() < 6 {
                    None
                } else if s[2] == '0' && s[3] == '0' && is_hex_lc(s[4]) && is_hex_lc(s[5]) {
                    let v = 16 * hex_val(s[4]) + hex_val(s[5]);
                    if v < 32 && v != 9 && v != 10 && v != 13 {
                        match spec_parse_string_body(s.skip(6)) {
                            Some((rest, rem)) => Some((seq![(v as char)] + rest, rem)),
                            None => None,
                        }
                    } else {
                        None
                    }
                } else {
                    None
                }
            } else {
                None
            }
        }
    } else if is_ctl(s[0]) {
        None
    } else {
        match spec_parse_string_body(s.skip(1)) {
            Some((rest, rem)) => Some((seq![s[0]] + rest, rem)),
            None => None,
        }
    }
}

/// Reads a JSON string from the front of `s`: the decoded characters and
/// the remainder after the closing quote.
pub open spec fn spec_parse_string(s: Seq<char>) -> Option<(Seq<char>, Seq<char>)> {
    if s.len() > 0 && s[0] == '"' {
        spec_parse_string_body(s.skip(1))
    } else {
        None
    }
}

/// Accumulates decimal digits from the front of `s` onto `acc`, rejecting
/// a value beyond the 64-bit range.
pub open spec fn spec_parse_u64_loop(s: Seq<char>, acc: u64) -> Option<(u64, Seq<char>)>
    decreases s.len(),
{
    if s.len() == 0 || !is_digit(s[0]) {
        Some((acc, s))
    } else {
        let d = (s[0] as u32 - 48) as u8;
        if acc > 1844674407370955161 || (acc == 1844674407370955161 && d > 5) {
            None
        } else {
            spec_parse_u64_loop(s.skip(1), (10 * acc + d) as u64)
        }
    }
}

/// Reads an unsigned decimal integer from the front of `s`: its value and
/// the remainder after the last digit. At least one digit must be there,
/// and the value must fit 64 bits.
pub open spec fn spec_parse_u64(s: Seq<char>) -> Option<(u64, Seq<char>)> {
    if s.len() == 0 || !is_digit(s[0]) {
        None
    } else {
        spec_parse_u64_loop(s, 0)
    }
}

/// The value of a lowercase hexadecimal digit, 255 for any other character.
fn hex_val_exec(c: char) -> (v: u8)
    ensures
        v == hex_val(c),
{
    if '0' <= c && c <= '9' {
        (c as u32 - 48) as u8
    } else if 'a' <= c && c <= 'f' {
        (c as u32 - 87) as u8
    } else {
        255
    }
}

/// Reads the JSON string that starts at character position `pos` of `s`,
/// giving its decoded content and the position after its closing quote.
pub fn parse_string_at(s: &str, pos: usize) -> (r: Option<(String, usize)>)
    requires
        pos <= s@.len(),
    ensures
        match r {
            Some(p) => pos < p.1 <= s@.len() && spec_parse_string(s@.skip(pos as int)) == Some(
                (p.0@, s@.skip(p.1 as int)),
            ),
            None => spec_parse_string(s@.skip(pos as int)) is None,
        },
{
    let n = s.unicode_len();
    if pos >= n {
        return None;
    }
    if s.get_char(pos) != '"' {
        return None;
    }
    let mut out = String::new();
    let mut i: usize = pos + 1;
    proof {
        assert(s@.skip(pos as int).skip(1) =~= s@.skip(pos + 1));
        assert(out@ + Seq::<char>::empty() =~= out@);
    }
    while i < n
        invariant
            pos + 1 <= i <= n,
            n == s@.len(),
            s@[pos as int] == '"',
            spec_parse_string_body(s@.skip(pos + 1)) == (match spec_parse_string_body(
                s@.skip(i as int),
            ) {
                Some((rest, rem)) => Some((out@ + rest, rem)),
                None => None::<(Seq<char>, Seq<char>)>,
            }),
        decreases n - i,
    {
        proof {
            assert(s@.skip(pos as int)[0] == '"');
            assert(s@.skip(pos as int).skip(1) =~= s@.skip(pos + 1));
        }
        let c = s.get_char(i);
        if c == '"' {
            proof {
                assert(s@.skip(i as int)[0] == '"');
                assert(s@.skip(i as int).skip(1) =~= s@.skip(i + 1));
                assert(out@ + Seq::<char>::empty() =~= out@);
            }
            return Some((out, i + 1));
        } else if c == '\\' {
            if i + 1 >= n {
                proof {
                    assert(s@.skip(i as int).len() < 2);
                }
                return None;
            }
            let e = s.get_char(i + 1);
            let ghost pre = out@;
            if e == '"' || e == '\\' || e == 'n' || e == 'r' || e == 't' {
                let decoded = if e == '"' {
                    '"'
                } else if e == '\\' {
                    '\\'
                } else if e == 'n' {
                    '\n'
                } else if e == 'r' {
                    '\r'
                } else {
                    '\t'
                };
                push_char(&mut out, decoded);
                proof {
                    assert(s@.skip(i as int)[1] == e);
                    assert(s@.skip(i as int).skip(2) =~= s@.skip(i + 2));
                    assert(forall|rest: Seq<char>|
                        pre + (seq![decoded] + rest) =~= (pre.push(decoded)) + rest);
                }
                i = i + 2;
            } else if e == 'u' {
                if n - i < 6 {
                    proof {
                        assert(s@.skip(i as int).len() < 6);
                        assert(s@.skip(i as int)[1] == 'u');
                    }
                    return None;
                }
                let h2 = s.get_char(i + 2);
                let h3 = s.get_char(i + 3);
                let v4 = hex_val_exec(s.get_char(i + 4));
                let v5 = hex_val_exec(s.get_char(i + 5));
                proof {
                    assert(s@.skip(i as int)[1] == 'u');
                    assert(s@.skip(i as int)[2] == s@[i + 2]);
                    assert(s@.skip(i as int)[3] == s@[i + 3]);
                    assert(s@.skip(i as int)[4] == s@[i + 4]);
                    assert(s@.skip(i as int)[5] == s@[i + 5]);
                }
                if !(h2 == '0' && h3 == '0' && v4 < 16 && v5 < 16) {
                    return None;
                }
                let v: u8 = 16 * v4 + v5;
                if !(v < 32 && v != 9 && v != 10 && v != 13) {
                    return None;
                }
                let decoded = v as char;
                push_char(&mut out, decoded);
                proof {
                    assert(s@.skip(i as int).skip(6) =~= s@.skip(i + 6));
                    assert(forall|rest: Seq<char>|
                        pre + (seq![decoded] + rest) =~= (pre.push(decoded)) + rest);
                }
                i = i + 6;
            } else {
                proof {
                    assert(s@.skip(i as int)[1] == e);
                }
                return None;
            }
        } else if (c as u32) < 32 {
            return None;
        } else {
            let ghost pre = out@;
            push_char(&mut out, c);
            proof {
                assert(s@.skip(i as int)[0] == c);
                assert(s@.skip(i as int).skip(1) =~= s@.skip(i + 1));
                assert(forall|rest: Seq<char>| pre + (seq![c] + rest) =~= (pre.push(c)) + rest);
            }
            i = i + 1;
        }
    }
    proof {
        assert(s@.skip(i as int).len() == 0);
        assert(s@.skip(pos as int)[0] == '"');
        assert(s@.skip(pos as int).skip(1) =~= s@.skip(pos + 1));
    }
    None
}

/// Reads the unsigned decimal integer that starts at character position
/// `pos` of `s`, giving its value and the position after its last digit.
pub fn parse_u64_at(s: &str, pos: usize) -> (r: Option<(u64, usize)>)
    requires
        pos <= s@.len(),
    ensures
        match r {
            Some(p) => pos < p.1 <= s@.len() && spec_parse_u64(s@.skip(pos as int)) == Some(
                (p.0, s@.skip(p.1 as int)),
            ),
            None => spec_parse_u64(s@.skip(pos as int)) is None,
        },
{
    let n = s.unicode_len();
    if pos >= n {
        return None;
    }
    let first = s.get_char(pos);
    if !('0' <= first && first <= '9') {
        return None;
    }
    let mut acc: u64 = 0;
    let mut i: usize = pos;
    while i < n
        invariant_except_break
            pos <= i <= n,
            n == s@.len(),
            is_digit(s@[pos as int]),
            spec_parse_u64_loop(s@.skip(pos as int), 0) == spec_parse_u64_loop(
                s@.skip(i as int),
                acc,
            ),
        ensures
            pos <= i <= n,
            n == s@.len(),
            is_digit(s@[pos as int]),
            spec_parse_u64_loop(s@.skip(pos as int), 0) == spec_parse_u64_loop(
                s@.skip(i as int),
                acc,
            ),
            i == n || !is_digit(s@[i as int]),
        decreases n - i,
    {
        let c = s.get_char(i);
        proof {
            assert(s@.skip(i as int)[0] == c);
        }
        if !('0' <= c && c <= '9') {
            break;
        }
        let d: u8 = (c as u32 - 48) as u8;
        if acc > 1844674407370955161 || (acc == 1844674407370955161 && d > 5) {
            return None;
        }
        acc = 10 * acc + (d as u64);
        proof {
            assert(s@.skip(i as int).skip(1) =~= s@.skip(i + 1));
        }
        i = i + 1;
    }
    proof {
        if i < n {
            assert(s@.skip(i as int)[0] == s@[i as int]);
        } else {
            assert(s@.skip(i as int).len() == 0);
        }
        assert(spec_parse_u64_loop(s@.skip(i as int), acc) == Some((acc, s@.skip(i as int))));
    }
    Some((acc, i))
}

/// Whether the characters of `lit` stand at character position `pos` of
/// `s`; on success the position right after them.
pub fn expect_lit(s: &str, pos: usize, lit: &str) -> (r: Option<usize>)
    requires
        pos <= s@.len(),
    ensures
        match r {
            Some(np) => np == pos + lit@.len() && np <= s@.len() && starts_with(
                s@.skip(pos as int),
                lit@,
            ),
            None => !starts_with(s@.skip(pos as int), lit@),
        },
{
    let n = s.unicode_len();
    let m = lit.unicode_len();
    if m > n - pos {
        proof {
            assert(s@.skip(pos as int).len() < lit@.len());
        }
        return None;
    }
    let mut j: usize = 0;
    while j < m
        invariant
            0 <= j <= m,
            pos + m <= n,
            n == s@.len(),
            m == lit@.len(),
            forall|t: int| 0 <= t < j ==> s@.skip(pos as int)[t] == lit@[t],
        decreases m - j,
    {
        if s.get_char(pos + j) != lit.get_char(j) {
            proof {
                assert(s@.skip(pos as int)[j as int] != lit@[j as int]);
                assert(s@.skip(pos as int).take(m as int)[j as int] != lit@[j as int]);
            }
            return None;
        }
        proof {
            assert(s@.skip(pos as int)[j as int] == s@[pos + j]);
        }
        j = j + 1;
    }
    proof {
        assert(s@.skip(pos as int).take(m as int) =~= lit@);
    }
    Some(pos + m)
}

} // verus!

verus! {

/// Skipping twice is skipping the sum.
pub proof fn lemma_skip_skip(s: Seq<char>, a: int, b: int)
    requires
        0 <= a,
        0 <= b,
        a + b <= s.len(),
    ensures
        s.skip(a).skip(b) == s.skip(a + b),
{
    assert(s.skip(a).skip(b) =~= s.skip(a + b));
}

/// A sequence is a prefix of itself.
pub proof fn lemma_starts_with_self(s: Seq<char>, p: Seq<char>)
    requires
        s == p,
    ensures
        starts_with(s, p),
{
    assert(s.take(p.len() as int) =~= p);
}

/// Whether two character strings hold the same characters.
pub fn str_eq(a: &str, b: &str) -> (r: bool)
    ensures
        r == (a@ == b@),
{
    let n = a.unicode_len();
    let m = b.unicode_len();
    if n != m {
        return false;
    }
    let mut i: usize = 0;
    while i < n
        invariant
            i <= n,
            n == a@.len(),
            n == b@.len(),
            forall|t: int| 0 <= t < i ==> a@[t] == b@[t],
        decreases n - i,
    {
        if a.get_char(i) != b.get_char(i) {
            return false;
        }
        i = i + 1;
    }
    proof {
        assert(a@ =~= b@);
    }
    true
}

} // verus!

verus! {

/// A hexadecimal digit the writer emits reads back as its value.
proof fn lemma_hex_char_val(v: u8)
    requires
        v < 16,
    ensures
        is_hex_lc(hex_char(v)),
        hex_val(hex_char(v)) == v,
{
}

/// A control character that has no short escape keeps its code below 32,
/// away from the short-escaped codes, and is recovered from its code.
proof fn lemma_ctl_code(c: char)
    requires
        is_ctl(c),
        c != '\n',
        c != '\r',
        c != '\t',
    ensures
        (c as u32) < 32,
        c as u32 != 9,
        c as u32 != 10,
        c as u32 != 13,
        ((c as u32) as char) == c,
{
}

/// The escaped body the writer emits for one character, followed by a
/// closing quote and anything after it, reads back as that character.
proof fn lemma_json_escaped_parse(x: Seq<char>, rest: Seq<char>)
    ensures
        spec_parse_string_body(json_escaped(x) + (seq!['"'] + rest)) == Some((x, rest)),
    decreases x.len(),
{
    let tail = seq!['"'] + rest;
    let s = json_escaped(x) + tail;
    if x.len() == 0 {
        assert(s =~= tail);
        assert(s[0] == '"');
        assert(s.skip(1) =~= rest);
        assert(spec_parse_string_body(s) == Some((Seq::<char>::empty(), rest)));
        assert(x =~= Seq::<char>::empty());
    } else {
        let c = x[0];
        let e = esc_char(c);
        lemma_json_escaped_parse(x.skip(1), rest);
        let inner = json_escaped(x.skip(1)) + tail;
        assert(s =~= e + inner);
        assert(forall|k: int| 0 <= k < e.len() ==> s[k] == e[k]);
        if c == '"' || c == '\\' || c == '\n' || c == '\r' || c == '\t' {
            assert(e.len() == 2 && e[0] == '\\');
            assert(s.skip(2) =~= inner);
            assert(seq![c] + x.skip(1) =~= x);
        } else if is_ctl(c) {
            let hi = (c as u32 / 16) as u8;
            let lo = (c as u32 % 16) as u8;
            lemma_hex_char_val(hi);
            lemma_hex_char_val(lo);
            assert(e.len() == 6 && e[0] == '\\' && e[1] == 'u' && e[2] == '0' && e[3] == '0');
            assert(s.len() >= 6);
            let v = 16 * hex_val(s[4]) + hex_val(s[5]);
            assert(v == c as u32);
            lemma_ctl_code(c);
            assert(v < 32 && v != 9 && v != 10 && v != 13);
            assert((v as char) == c);
            assert(s.skip(6) =~= inner);
            assert(seq![c] + x.skip(1) =~= x);
        } else {
            assert(e =~= seq![c]);
            assert(s[0] == c);
            assert(!is_ctl(c));
            assert(s.skip(1) =~= inner);
            assert(seq![c] + x.skip(1) =~= x);
        }
    }
}

/// String round trip: the JSON string the writer emits for any
/// characters, followed by anything, reads back as exactly those
/// characters with exactly that remainder.
pub proof fn lemma_json_string_round_trip(x: Seq<char>, rest: Seq<char>)
    ensures
        spec_parse_string(json_string(x) + rest) == Some((x, rest)),
{
    let s = json_string(x) + rest;
    assert(s[0] == '"');
    assert(s.skip(1) =~= json_escaped(x) + (seq!['"'] + rest));
    lemma_json_escaped_parse(x, rest);
}

} // verus!

verus! {

/// A concatenation starts with its left part, and skipping that part
/// leaves the right part.
pub proof fn lemma_concat_parts(a: Seq<char>, b: Seq<char>)
    ensures
        starts_with(a + b, a),
        (a + b).skip(a.len() as int) == b,
{
    assert((a + b).take(a.len() as int) =~= a);
    assert((a + b).skip(a.len() as int) =~= b);
}

/// The decimal digits the writer emits for a value up to 255, followed by
/// anything that is no digit, read back as exactly that value.
pub proof fn lemma_u64_dec_parse_small(n: u64, rest: Seq<char>)
    requires
        n <= 255,
        rest.len() > 0,
        !is_digit(rest[0]),
    ensures
        spec_parse_u64(u64_dec(n) + rest) == Some((n, rest)),
{
    let s = u64_dec(n) + rest;
    reveal_with_fuel(u64_dec, 4);
    if n < 10 {
        let d0 = (48 + n) as char;
        assert(u64_dec(n) =~= seq![d0]);
        assert(s[0] == d0);
        assert(is_digit(d0) && (d0 as u32 - 48) as u8 == n);
        assert(s.skip(1) =~= rest);
        assert(spec_parse_u64_loop(s, 0) == spec_parse_u64_loop(rest, n));
        assert(spec_parse_u64_loop(rest, n) == Some((n, rest)));
    } else if n < 100 {
        let d0 = (48 + n / 10) as char;
        let d1 = (48 + n % 10) as char;
        assert(u64_dec(n) =~= seq![d0, d1]);
        assert(s[0] == d0 && s[1] == d1);
        assert(is_digit(d0) && (d0 as u32 - 48) as u8 == n / 10);
        assert(is_digit(d1) && (d1 as u32 - 48) as u8 == n % 10);
        assert(s.skip(1) =~= seq![d1] + rest);
        assert((seq![d1] + rest).skip(1) =~= rest);
        assert(spec_parse_u64_loop(s, 0) == spec_parse_u64_loop(seq![d1] + rest, n / 10));
        assert(spec_parse_u64_loop(seq![d1] + rest, n / 10) == spec_parse_u64_loop(
            rest,
            (10 * (n / 10) + n % 10) as u64,
        ));
        assert(10 * (n / 10) + n % 10 == n);
        assert(spec_parse_u64_loop(rest, n) == Some((n, rest)));
    } else {
        let d0 = (48 + n / 100) as char;
        let d1 = (48 + (n / 10) % 10) as char;
        let d2 = (48 + n % 10) as char;
        assert((n / 10) / 10 == n / 100) by (nonlinear_arith)
            requires
                n <= 255,
        ;
        assert(u64_dec(n / 10) =~= seq![d0, d1]);
        assert(u64_dec(n) =~= seq![d0, d1, d2]);
        assert(s[0] == d0 && s[1] == d1 && s[2] == d2);
        assert(is_digit(d0) && (d0 as u32 - 48) as u8 == n / 100);
        assert(is_digit(d1) && (d1 as u32 - 48) as u8 == (n / 10) % 10);
        assert(is_digit(d2) && (d2 as u32 - 48) as u8 == n % 10);
        assert(s.skip(1) =~= seq![d1, d2] + rest);
        assert((seq![d1, d2] + rest).skip(1) =~= seq![d2] + rest);
        assert((seq![d2] + rest).skip(1) =~= rest);
        assert(spec_parse_u64_loop(s, 0) == spec_parse_u64_loop(seq![d1, d2] + rest, n / 100));
        assert(spec_parse_u64_loop(seq![d1, d2] + rest, n / 100) == spec_parse_u64_loop(
            seq![d2] + rest,
            (10 * (n / 100) + (n / 10) % 10) as u64,
        ));
        assert(10 * (n / 100) + (n / 10) % 10 == n / 10);
        assert(spec_parse_u64_loop(seq![d2] + rest, n / 10) == spec_parse_u64_loop(
            rest,
            (10 * (n / 10) + n % 10) as u64,
        ));
        assert(10 * (n / 10) + n % 10 == n);
        assert(spec_parse_u64_loop(rest, n) == Some((n, rest)));
    }
}

} // verus!

verus! {

/// Characters that need no escape pass through the escaping unchanged.
pub proof fn lemma_json_escaped_plain(x: Seq<char>)
    requires
        forall|k: int|
            0 <= k < x.len() ==> #[trigger] x[k] != '"' && x[k] != '\\' && !is_ctl(x[k]),
    ensures
        json_escaped(x) == x,
    decreases x.len(),
{
    if x.len() == 0 {
        assert(json_escaped(x) =~= x);
    } else {
        lemma_json_escaped_plain(x.skip(1));
        assert(esc_char(x[0]) =~= seq![x[0]]);
        assert(json_escaped(x) =~= x);
    }
}

} // verus!
