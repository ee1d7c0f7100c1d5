//! Character-level text helpers: conversions between `String` and `Vec<char>`,
//! decimal formatting, prefix tests, and splitting/joining on a separator.
use vstd::prelude::*;

verus! {

/// Relies on `String: FromIterator<char>`: collecting a sequence of chars
/// yields the string of exactly those chars.
#[verifier::external_body]
pub fn chars_to_string(v: Vec<char>) -> (s: String)
    ensures
        s@ == v@,
{
    v.into_iter().collect()
}

/// Relies on `char::from_u32`: returns the char of a code point, `None`
/// exactly on surrogates and values above the Unicode maximum.
#[verifier::external_body]
pub fn char_from_u32(v: u32) -> (r: Option<char>)
    ensures
        r is Some <==> (v < 0xD800 || (0xE000 <= v && v <= 0x10FFFF)),
        r matches Some(c) ==> c as u32 == v && c as int == v as int,
{
    char::from_u32(v)
}

/// The characters of `s`, in order.
pub fn string_to_chars(s: &str) -> (v: Vec<char>)
    ensures
        v@ == s@,
{
    let n = s.unicode_len();
    let mut v: Vec<char> = Vec::new();
    let mut i: usize = 0;
    while i < n
        invariant
            n == s@.len(),
            i <= n,
            v@ == s@.subrange(0, i as int),
        decreases n - i,
    {
        v.push(s.get_char(i));
        proof {
            assert(v@ =~= s@.subrange(0, i + 1 as int));
        }
        i += 1;
    }
    proof {
        assert(v@ =~= s@);
    }
    v
}

/// Whether `s` begins with `prefix`.
pub open spec fn spec_starts_with(s: Seq<char>, prefix: Seq<char>) -> bool {
    s.len() >= prefix.len() && s.subrange(0, prefix.len() as int) == prefix
}

/// Prefix test over the characters of two string slices.
pub fn str_starts_with(s: &str, prefix: &str) -> (r: bool)
    ensures
        r == spec_starts_with(s@, prefix@),
{
    let n = prefix.unicode_len();
    if s.unicode_len() < n {
        return false;
    }
    let mut i: usize = 0;
    while i < n
        invariant
            n == prefix@.len(),
            s@.len() >= n,
            i <= n,
            forall|k: int| 0 <= k < i ==> s@[k] == prefix@[k],
        decreases n - i,
    {
        if s.get_char(i) != prefix.get_char(i) {
            proof {
                assert(s@.subrange(0, n as int)[i as int] != prefix@[i as int]);
            }
            return false;
        }
        i += 1;
    }
    proof {
        assert(s@.subrange(0, n as int) =~= prefix@);
    }
    true
}

/// Character-wise equality of two string slices.
pub fn str_eq(a: &str, b: &str) -> (r: bool)
    ensures
        r == (a@ == b@),
{
    let n = a.unicode_len();
    if b.unicode_len() != n {
        return false;
    }
    let mut i: usize = 0;
    while i < n
        invariant
            n == a@.len() == b@.len(),
            i <= n,
            forall|k: int| 0 <= k < i ==> a@[k] == b@[k],
        decreases n - i,
    {
        if a.get_char(i) != b.get_char(i) {
            return false;
        }
        i += 1;
    }
    proof {
        assert(a@ =~= b@);
    }
    true
}

/// The character for the decimal digit `d`.
pub open spec fn spec_digit_char(d: int) -> char {
    (d + 48) as char
}

/// The decimal numeral of `n`, most significant digit first.
pub open spec fn spec_dec_nat(n: nat) -> Seq<char>
    decreases n,
{
    if n < 10 {
        seq![spec_digit_char(n as int)]
    } else {
        spec_dec_nat(n / 10).push(spec_digit_char((n % 10) as int))
    }
}

/// The decimal numeral of `n`, with a leading minus sign when negative.
pub open spec fn spec_dec_int(n: int) -> Seq<char> {
    if n < 0 {
        seq!['-'] + spec_dec_nat((-n) as nat)
    } else {
        spec_dec_nat(n as nat)
    }
}

fn dec_u32_rec(n: u32, out: &mut Vec<char>)
    ensures
        final(out)@ == old(out)@ + spec_dec_nat(n as nat),
    decreases n,
{
    if n < 10 {
        let c = (48 + (n as u8)) as char;
        proof {
            assert(c == spec_digit_char(n as int));
        }
        out.push(c);
        proof {
            assert(out@ =~= old(out)@ + spec_dec_nat(n as nat));
        }
    } else {
        dec_u32_rec(n / 10, out);
        let c = (48 + ((n % 10) as u8)) as char;
        proof {
            assert(c == spec_digit_char((n % 10) as int));
        }
        out.push(c);
        proof {
            assert(out@ =~= old(out)@ + spec_dec_nat(n as nat));
        }
    }
}

/// The decimal rendering of `n` as a string.
pub fn dec_i32(n: i32) -> (s: String)
    ensures
        s@ == spec_dec_int(n as int),
{
    let mut out: Vec<char> = Vec::new();
    if n < 0 {
        out.push('-');
        let mag: u32 = ((-(n as i64)) as u32);
        proof {
            assert(mag as nat == (-(n as int)) as nat);
        }
        dec_u32_rec(mag, &mut out);
        proof {
            assert(out@ =~= spec_dec_int(n as int));
        }
    } else {
        dec_u32_rec(n as u32, &mut out);
    }
    chars_to_string(out)
}

pub open spec fn spec_split_rec(s: Seq<char>, sep: char, i: int, cur: Seq<char>, acc: Seq<Seq<char>>) -> Seq<
    Seq<char>,
>
    decreases s.len() - i,
{
    if i < 0 || i >= s.len() {
        acc.push(cur)
    } else if s[i] == sep {
        spec_split_rec(s, sep, i + 1, Seq::empty(), acc.push(cur))
    } else {
        spec_split_rec(s, sep, i + 1, cur.push(s[i]), acc)
    }
}

/// The pieces of `s` between occurrences of `sep`, in order; empty pieces
/// are kept, and a string without `sep` is one piece (so the empty string
/// splits into one empty piece).
pub open spec fn spec_split(s: Seq<char>, sep: char) -> Seq<Seq<char>> {
    spec_split_rec(s, sep, 0, Seq::empty(), Seq::empty())
}

/// Splits `s` on every occurrence of `sep`.
pub fn split_char(s: &str, sep: char) -> (parts: Vec<String>)
    ensures
        parts.deep_view() == spec_split(s@, sep),
{
    let n = s.unicode_len();
    let mut parts: Vec<String> = Vec::new();
    let mut cur: Vec<char> = Vec::new();
    let mut i: usize = 0;
    proof {
        assert(parts.deep_view() =~= Seq::<Seq<char>>::empty());
    }
    while i < n
        invariant
            n == s@.len(),
            i <= n,
            spec_split(s@, sep) == spec_split_rec(s@, sep, i as int, cur@, parts.deep_view()),
        decreases n - i,
    {
        let c = s.get_char(i);
        if c == sep {
            let ghost old_parts = parts.deep_view();
            let ghost piece = cur@;
            parts.push(chars_to_string(cur));
            cur = Vec::new();
            proof {
                assert(parts.deep_view() =~= old_parts.push(piece));
            }
        } else {
            cur.push(c);
        }
        i += 1;
    }
    let ghost old_parts = parts.deep_view();
    let ghost last = cur@;
    parts.push(chars_to_string(cur));
    proof {
        assert(parts.deep_view() =~= old_parts.push(last));
    }
    parts
}

/// The concatenation of `parts` with `sep` between consecutive pieces.
pub open spec fn spec_join(parts: Seq<Seq<char>>, sep: char) -> Seq<char>
    decreases parts.len(),
{
    if parts.len() == 0 {
        Seq::empty()
    } else if parts.len() == 1 {
        parts[0]
    } else {
        spec_join(parts.drop_last(), sep) + seq![sep] + parts.last()
    }
}

/// Joins `parts` with `sep` between consecutive pieces.
pub fn join_char(parts: &Vec<String>, sep: char) -> (s: String)
    ensures
        s@ == spec_join(parts.deep_view(), sep),
{
    let mut out: Vec<char> = Vec::new();
    let n = parts.len();
    let mut i: usize = 0;
    while i < n
        invariant
            n == parts@.len(),
            i <= n,
            out@ == spec_join(parts.deep_view().take(i as int), sep),
        decreases n - i,
    {
        if i > 0 {
            out.push(sep);
        }
        let piece = string_to_chars(parts[i].as_str());
        let mut j: usize = 0;
        let m = piece.len();
        let ghost mid = out@;
        while j < m
            invariant
                m == piece@.len(),
                j <= m,
                out@ == mid + piece@.subrange(0, j as int),
            decreases m - j,
        {
            out.push(piece[j]);
            proof {
                assert(out@ =~= mid + piece@.subrange(0, j + 1 as int));
            }
            j += 1;
        }
        proof {
            let pv = parts.deep_view();
            assert(piece@ == pv[i as int]);
            assert(pv.take(i + 1 as int).drop_last() =~= pv.take(i as int));
            assert(pv.take(i + 1 as int).last() == pv[i as int]);
            if i > 0 {
                assert(out@ =~= spec_join(pv.take(i as int), sep) + seq![sep] + pv[i as int]);
            } else {
                assert(out@ =~= mid + piece@.subrange(0, m as int));
                assert(out@ =~= pv[0]);
            }
        }
        i += 1;
    }
    proof {
        assert(parts.deep_view().take(n as int) =~= parts.deep_view());
    }
    chars_to_string(out)
}

} // verus!
