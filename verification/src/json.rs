//! A small JSON reader and the escaping rules this crate prints with.  The
//! vault subprocess and the cache file both speak JSON; the parser here is
//! the single place the crate turns such text into structured values, and
//! its contracts pin the result to the spec-level parser.
//!
//! Numbers are kept as their raw lexemes: nothing in this crate interprets
//! them, and keeping the text preserves every value exactly.  String
//! escapes cover the standard single-character forms and `\u` with a code
//! point that is a Unicode scalar value; surrogate pairs are rejected.
use vstd::prelude::*;
use crate::text::string_to_chars;

verus! {

/// Spec-level model of a JSON document.
pub enum JsonV {
    Null,
    Bool(bool),
    Num(Seq<char>),
    Str(Seq<char>),
    Arr(Seq<JsonV>),
    Obj(Seq<(Seq<char>, JsonV)>),
}

/// A parsed JSON document.
#[derive(Debug)]
pub enum Json {
    Null,
    Bool(bool),
    Num(String),
    Str(String),
    Arr(Vec<Json>),
    Obj(Vec<(String, Json)>),
}

/// The spec view of a [`Json`] value.
pub open spec fn json_view(j: Json) -> JsonV
    decreases j,
{
    match j {
        Json::Null => JsonV::Null,
        Json::Bool(b) => JsonV::Bool(b),
        Json::Num(s) => JsonV::Num(s@),
        Json::Str(s) => JsonV::Str(s@),
        Json::Arr(items) => JsonV::Arr(json_arr_view(items@)),
        Json::Obj(members) => JsonV::Obj(json_obj_view(members@)),
    }
}

/// The spec view of an array's element list.
pub open spec fn json_arr_view(items: Seq<Json>) -> Seq<JsonV>
    decreases items,
{
    if items.len() == 0 {
        Seq::empty()
    } else {
        json_arr_view(items.drop_last()).push(json_view(items.last()))
    }
}

/// The spec view of an object's member list.
pub open spec fn json_obj_view(ms: Seq<(String, Json)>) -> Seq<(Seq<char>, JsonV)>
    decreases ms,
{
    if ms.len() == 0 {
        Seq::empty()
    } else {
        json_obj_view(ms.drop_last()).push((ms.last().0@, json_view(ms.last().1)))
    }
}

pub proof fn lemma_arr_view(items: Seq<Json>)
    ensures
        json_arr_view(items).len() == items.len(),
        forall|i: int| 0 <= i < items.len() ==> json_arr_view(items)[i] == json_view(items[i]),
    decreases items.len(),
{
    if items.len() > 0 {
        lemma_arr_view(items.drop_last());
        assert forall|i: int| 0 <= i < items.len() implies json_arr_view(items)[i] == json_view(
            items[i],
        ) by {
            if i < items.len() - 1 {
                assert(items.drop_last()[i] == items[i]);
            }
        }
    }
}

pub proof fn lemma_obj_view(ms: Seq<(String, Json)>)
    ensures
        json_obj_view(ms).len() == ms.len(),
        forall|i: int|
            0 <= i < ms.len() ==> json_obj_view(ms)[i] == (ms[i].0@, json_view(ms[i].1)),
    decreases ms.len(),
{
    if ms.len() > 0 {
        lemma_obj_view(ms.drop_last());
        assert forall|i: int| 0 <= i < ms.len() implies json_obj_view(ms)[i] == (
            ms[i].0@,
            json_view(ms[i].1),
        ) by {
            if i < ms.len() - 1 {
                assert(ms.drop_last()[i] == ms[i]);
            }
        }
    }
}

impl View for Json {
    type V = JsonV;

    open spec fn view(&self) -> JsonV {
        json_view(*self)
    }
}

impl DeepView for Json {
    type V = JsonV;

    open spec fn deep_view(&self) -> JsonV {
        self.view()
    }
}

/// The JSON whitespace characters.
pub open spec fn spec_json_ws(c: char) -> bool {
    c == ' ' || c == '\t' || c == '\n' || c == '\r'
}

/// The first index at or after `i` that does not hold whitespace.
pub open spec fn spec_skip_ws(s: Seq<char>, i: int) -> int
    decreases s.len() - i,
{
    if 0 <= i < s.len() && spec_json_ws(s[i]) {
        spec_skip_ws(s, i + 1)
    } else {
        i
    }
}

pub proof fn lemma_skip_ws_bounds(s: Seq<char>, i: int)
    requires
        0 <= i <= s.len(),
    ensures
        i <= spec_skip_ws(s, i) <= s.len(),
    decreases s.len() - i,
{
    if i < s.len() && spec_json_ws(s[i]) {
        lemma_skip_ws_bounds(s, i + 1);
    }
}

/// The value of a hexadecimal digit character, or -1.
pub open spec fn spec_hex_val(c: char) -> int {
    if '0' <= c && c <= '9' {
        c as int - 48
    } else if 'a' <= c && c <= 'f' {
        c as int - 87
    } else if 'A' <= c && c <= 'F' {
        c as int - 55
    } else {
        -1
    }
}

/// The code point of the four hex digits at `i`, or `None`.
pub open spec fn spec_hex4(s: Seq<char>, i: int) -> Option<int> {
    if i >= 0 && i + 4 <= s.len() && spec_hex_val(s[i]) >= 0 && spec_hex_val(s[i + 1]) >= 0
        && spec_hex_val(s[i + 2]) >= 0 && spec_hex_val(s[i + 3]) >= 0 {
        Some(
            spec_hex_val(s[i]) * 4096 + spec_hex_val(s[i + 1]) * 256 + spec_hex_val(s[i + 2]) * 16
                + spec_hex_val(s[i + 3]),
        )
    } else {
        None
    }
}

/// What a single-character escape stands for.
pub open spec fn spec_esc_char(c: char) -> Option<char> {
    if c == '"' {
        Some('"')
    } else if c == '\\' {
        Some('\\')
    } else if c == '/' {
        Some('/')
    } else if c == 'b' {
        Some('\u{8}')
    } else if c == 'f' {
        Some('\u{C}')
    } else if c == 'n' {
        Some('\n')
    } else if c == 'r' {
        Some('\r')
    } else if c == 't' {
        Some('\t')
    } else {
        None
    }
}

/// Whether a code point is a Unicode scalar value, and so a valid `char`.
pub open spec fn spec_is_scalar(cp: int) -> bool {
    (0 <= cp < 0xD800) || (0xE000 <= cp <= 0x10FFFF)
}

/// Reads a string body starting just after the opening quote; yields the
/// decoded characters and the index after the closing quote.
pub open spec fn spec_parse_string_body(s: Seq<char>, i: int) -> Option<(Seq<char>, int)>
    decreases s.len() - i,
{
    if i < 0 || i >= s.len() {
        None
    } else if s[i] == '"' {
        Some((Seq::empty(), i + 1))
    } else if s[i] == '\\' {
        if i + 1 >= s.len() {
            None
        } else if s[i + 1] == 'u' {
            match spec_hex4(s, i + 2) {
                Some(cp) => if spec_is_scalar(cp) {
                    match spec_parse_string_body(s, i + 6) {
                        Some((rest, j)) => Some((seq![cp as char] + rest, j)),
                        None => None,
                    }
                } else {
                    None
                },
                None => None,
            }
        } else {
            match spec_esc_char(s[i + 1]) {
                Some(c) => match spec_parse_string_body(s, i + 2) {
                    Some((rest, j)) => Some((seq![c] + rest, j)),
                    None => None,
                },
                None => None,
            }
        }
    } else if (s[i] as u32) < 32 {
        None
    } else {
        match spec_parse_string_body(s, i + 1) {
            Some((rest, j)) => Some((seq![s[i]] + rest, j)),
            None => None,
        }
    }
}

pub proof fn lemma_string_body_bounds(s: Seq<char>, i: int)
    requires
        0 <= i,
    ensures
        spec_parse_string_body(s, i) matches Some((cs, j)) ==> i < j <= s.len(),
    decreases s.len() - i,
{
    if 0 <= i < s.len() {
        if s[i] == '"' {
        } else if s[i] == '\\' {
            if i + 1 < s.len() {
                if s[i + 1] == 'u' {
                    if spec_hex4(s, i + 2) is Some {
                        lemma_string_body_bounds(s, i + 6);
                    }
                } else {
                    lemma_string_body_bounds(s, i + 2);
                }
            }
        } else {
            lemma_string_body_bounds(s, i + 1);
        }
    }
}

/// Whether a character can occur in a number lexeme.
pub open spec fn spec_num_char(c: char) -> bool {
    ('0' <= c && c <= '9') || c == '-' || c == '+' || c == '.' || c == 'e' || c == 'E'
}

/// The first index at or after `i` that does not hold a number character.
pub open spec fn spec_num_end(s: Seq<char>, i: int) -> int
    decreases s.len() - i,
{
    if 0 <= i < s.len() && spec_num_char(s[i]) {
        spec_num_end(s, i + 1)
    } else {
        i
    }
}

pub proof fn lemma_num_end_bounds(s: Seq<char>, i: int)
    requires
        0 <= i <= s.len(),
    ensures
        i <= spec_num_end(s, i) <= s.len(),
    decreases s.len() - i,
{
    if i < s.len() && spec_num_char(s[i]) {
        lemma_num_end_bounds(s, i + 1);
    }
}

/// Whether `s` holds `lit` starting at `i`.
pub open spec fn spec_lit_at(s: Seq<char>, i: int, lit: Seq<char>) -> bool {
    i >= 0 && i + lit.len() <= s.len() && s.subrange(i, i + lit.len()) == lit
}

/// The fuel that suffices for the recursive parser on input `s`.
pub open spec fn spec_fuel(s: Seq<char>) -> nat {
    (2 * s.len() + 2) as nat
}

/// Reads one JSON value at `i` (whitespace already skipped); yields the
/// value and the index just after it.
pub open spec fn spec_parse_value(s: Seq<char>, i: int, fuel: nat) -> Option<(JsonV, int)>
    decreases fuel,
{
    if fuel == 0 || i < 0 || i >= s.len() {
        None
    } else if s[i] == '"' {
        match spec_parse_string_body(s, i + 1) {
            Some((cs, j)) => Some((JsonV::Str(cs), j)),
            None => None,
        }
    } else if s[i] == '[' {
        let j = spec_skip_ws(s, i + 1);
        if j < s.len() && s[j] == ']' {
            Some((JsonV::Arr(Seq::empty()), j + 1))
        } else {
            match spec_parse_elems(s, j, (fuel - 1) as nat) {
                Some((vs, j2)) => Some((JsonV::Arr(vs), j2)),
                None => None,
            }
        }
    } else if s[i] == '{' {
        let j = spec_skip_ws(s, i + 1);
        if j < s.len() && s[j] == '}' {
            Some((JsonV::Obj(Seq::empty()), j + 1))
        } else {
            match spec_parse_members(s, j, (fuel - 1) as nat) {
                Some((ms, j2)) => Some((JsonV::Obj(ms), j2)),
                None => None,
            }
        }
    } else if spec_lit_at(s, i, "true"@) {
        Some((JsonV::Bool(true), i + 4))
    } else if spec_lit_at(s, i, "false"@) {
        Some((JsonV::Bool(false), i + 5))
    } else if spec_lit_at(s, i, "null"@) {
        Some((JsonV::Null, i + 4))
    } else if s[i] == '-' || ('0' <= s[i] && s[i] <= '9') {
        let e = spec_num_end(s, i);
        Some((JsonV::Num(s.subrange(i, e)), e))
    } else {
        None
    }
}

/// Reads the elements of a non-empty array, the first one starting at `i`
/// (whitespace already skipped); yields the elements and the index just
/// after the closing bracket.
pub open spec fn spec_parse_elems(s: Seq<char>, i: int, fuel: nat) -> Option<(Seq<JsonV>, int)>
    decreases fuel,
{
    if fuel == 0 {
        None
    } else {
        match spec_parse_value(s, i, (fuel - 1) as nat) {
            Some((v, j)) => {
                let k = spec_skip_ws(s, j);
                if k < s.len() && s[k] == ']' {
                    Some((seq![v], k + 1))
                } else if k < s.len() && s[k] == ',' {
                    match spec_parse_elems(s, spec_skip_ws(s, k + 1), (fuel - 1) as nat) {
                        Some((vs, j2)) => Some((seq![v] + vs, j2)),
                        None => None,
                    }
                } else {
                    None
                }
            },
            None => None,
        }
    }
}

/// Reads the members of a non-empty object, the first key starting at `i`
/// (whitespace already skipped); yields the members and the index just
/// after the closing brace.
pub open spec fn spec_parse_members(s: Seq<char>, i: int, fuel: nat) -> Option<
    (Seq<(Seq<char>, JsonV)>, int),
>
    decreases fuel,
{
    if fuel == 0 || i < 0 || i >= s.len() || s[i] != '"' {
        None
    } else {
        match spec_parse_string_body(s, i + 1) {
            Some((key, j)) => {
                let k = spec_skip_ws(s, j);
                if k < s.len() && s[k] == ':' {
                    match spec_parse_value(s, spec_skip_ws(s, k + 1), (fuel - 1) as nat) {
                        Some((v, j2)) => {
                            let k2 = spec_skip_ws(s, j2);
                            if k2 < s.len() && s[k2] == '}' {
                                Some((seq![(key, v)], k2 + 1))
                            } else if k2 < s.len() && s[k2] == ',' {
                                match spec_parse_members(
                                    s,
                                    spec_skip_ws(s, k2 + 1),
                                    (fuel - 1) as nat,
                                ) {
                                    Some((ms, j3)) => Some((seq![(key, v)] + ms, j3)),
                                    None => None,
                                }
                            } else {
                                None
                            }
                        },
                        None => None,
                    }
                } else {
                    None
                }
            },
            None => None,
        }
    }
}

/// Enough fuel gives the parser its final answer: above the threshold the
/// result does not depend on the fuel, and a parsed value ends strictly
/// after it begins and within the input.
pub proof fn lemma_value_fuel(s: Seq<char>, i: int, f1: nat, f2: nat)
    requires
        0 <= i <= s.len(),
        f1 >= 2 * (s.len() - i) + 1,
        f2 >= f1,
    ensures
        spec_parse_value(s, i, f1) == spec_parse_value(s, i, f2),
        spec_parse_value(s, i, f1) matches Some((v, j)) ==> i < j <= s.len(),
    decreases f1,
{
    reveal_strlit("true");
    reveal_strlit("false");
    reveal_strlit("null");
    if i < s.len() {
        if s[i] == '"' {
            lemma_string_body_bounds(s, i + 1);
        } else if s[i] == '[' {
            lemma_skip_ws_bounds(s, i + 1);
            let j = spec_skip_ws(s, i + 1);
            if j < s.len() && s[j] == ']' {
            } else {
                lemma_elems_fuel(s, j, (f1 - 1) as nat, (f2 - 1) as nat);
            }
        } else if s[i] == '{' {
            lemma_skip_ws_bounds(s, i + 1);
            let j = spec_skip_ws(s, i + 1);
            if j < s.len() && s[j] == '}' {
            } else {
                lemma_members_fuel(s, j, (f1 - 1) as nat, (f2 - 1) as nat);
            }
        } else if spec_lit_at(s, i, "true"@) || spec_lit_at(s, i, "false"@) || spec_lit_at(
            s,
            i,
            "null"@,
        ) {
        } else if s[i] == '-' || ('0' <= s[i] && s[i] <= '9') {
            assert(spec_num_char(s[i]));
            lemma_num_end_bounds(s, i + 1);
            assert(spec_num_end(s, i) == spec_num_end(s, i + 1));
        }
    }
}

pub proof fn lemma_elems_fuel(s: Seq<char>, i: int, f1: nat, f2: nat)
    requires
        0 <= i <= s.len(),
        f1 >= 2 * (s.len() - i) + 2,
        f2 >= f1,
    ensures
        spec_parse_elems(s, i, f1) == spec_parse_elems(s, i, f2),
        spec_parse_elems(s, i, f1) matches Some((vs, j)) ==> i < j <= s.len(),
    decreases f1,
{
    lemma_value_fuel(s, i, (f1 - 1) as nat, (f2 - 1) as nat);
    match spec_parse_value(s, i, (f1 - 1) as nat) {
        Some((v, j)) => {
            lemma_skip_ws_bounds(s, j);
            let k = spec_skip_ws(s, j);
            if k < s.len() && s[k] == ']' {
            } else if k < s.len() && s[k] == ',' {
                lemma_skip_ws_bounds(s, k + 1);
                let m = spec_skip_ws(s, k + 1);
                lemma_elems_fuel(s, m, (f1 - 1) as nat, (f2 - 1) as nat);
            }
        },
        None => {},
    }
}

pub proof fn lemma_members_fuel(s: Seq<char>, i: int, f1: nat, f2: nat)
    requires
        0 <= i <= s.len(),
        f1 >= 2 * (s.len() - i) + 2,
        f2 >= f1,
    ensures
        spec_parse_members(s, i, f1) == spec_parse_members(s, i, f2),
        spec_parse_members(s, i, f1) matches Some((ms, j)) ==> i < j <= s.len(),
    decreases f1,
{
    if i < s.len() && s[i] == '"' {
        lemma_string_body_bounds(s, i + 1);
        match spec_parse_string_body(s, i + 1) {
            Some((key, j)) => {
                lemma_skip_ws_bounds(s, j);
                let k = spec_skip_ws(s, j);
                if k < s.len() && s[k] == ':' {
                    lemma_skip_ws_bounds(s, k + 1);
                    let m = spec_skip_ws(s, k + 1);
                    lemma_value_fuel(s, m, (f1 - 1) as nat, (f2 - 1) as nat);
                    match spec_parse_value(s, m, (f1 - 1) as nat) {
                        Some((v, j2)) => {
                            lemma_skip_ws_bounds(s, j2);
                            let k2 = spec_skip_ws(s, j2);
                            if k2 < s.len() && s[k2] == '}' {
                            } else if k2 < s.len() && s[k2] == ',' {
                                lemma_skip_ws_bounds(s, k2 + 1);
                                let m2 = spec_skip_ws(s, k2 + 1);
                                lemma_members_fuel(s, m2, (f1 - 1) as nat, (f2 - 1) as nat);
                            }
                        },
                        None => {},
                    }
                }
            },
            None => {},
        }
    }
}

/// The parse of a whole document: one value surrounded by whitespace.
pub open spec fn spec_parse_json(s: Seq<char>) -> Option<JsonV> {
    match spec_parse_value(s, spec_skip_ws(s, 0), spec_fuel(s)) {
        Some((v, j)) => if spec_skip_ws(s, j) == s.len() {
            Some(v)
        } else {
            None
        },
        None => None,
    }
}

fn json_ws(c: char) -> (r: bool)
    ensures
        r == spec_json_ws(c),
{
    c == ' ' || c == '\t' || c == '\n' || c == '\r'
}

fn skip_ws(s: &Vec<char>, i: usize) -> (j: usize)
    requires
        i <= s@.len(),
    ensures
        j as int == spec_skip_ws(s@, i as int),
        i <= j <= s@.len(),
    decreases s@.len() - i,
{
    if i < s.len() && json_ws(s[i]) {
        skip_ws(s, i + 1)
    } else {
        i
    }
}

fn hex_val(c: char) -> (r: i32)
    ensures
        r as int == spec_hex_val(c),
{
    let u = c as u32;
    if 48 <= u && u <= 57 {
        (u - 48) as i32
    } else if 97 <= u && u <= 102 {
        (u - 87) as i32
    } else if 65 <= u && u <= 70 {
        (u - 55) as i32
    } else {
        -1
    }
}

fn hex4(s: &Vec<char>, i: usize) -> (r: Option<u32>)
    requires
        i <= s@.len(),
    ensures
        match r {
            Some(cp) => spec_hex4(s@, i as int) == Some(cp as int),
            None => spec_hex4(s@, i as int) is None,
        },
{
    if s.len() < 4 || i > s.len() - 4 {
        return None;
    }
    let a = hex_val(s[i]);
    let b = hex_val(s[i + 1]);
    let c = hex_val(s[i + 2]);
    let d = hex_val(s[i + 3]);
    if a >= 0 && b >= 0 && c >= 0 && d >= 0 {
        Some((a as u32) * 4096 + (b as u32) * 256 + (c as u32) * 16 + (d as u32))
    } else {
        None
    }
}

fn esc_char_exec(c: char) -> (r: Option<char>)
    ensures
        r == spec_esc_char(c),
{
    if c == '"' {
        Some('"')
    } else if c == '\\' {
        Some('\\')
    } else if c == '/' {
        Some('/')
    } else if c == 'b' {
        Some('\u{8}')
    } else if c == 'f' {
        Some('\u{C}')
    } else if c == 'n' {
        Some('\n')
    } else if c == 'r' {
        Some('\r')
    } else if c == 't' {
        Some('\t')
    } else {
        None
    }
}

/// A vector holding `c` followed by the contents of `rest`.
fn prepend_char(c: char, rest: Vec<char>) -> (out: Vec<char>)
    ensures
        out@ == seq![c] + rest@,
{
    let mut out: Vec<char> = Vec::new();
    out.push(c);
    let n = rest.len();
    let mut k: usize = 0;
    while k < n
        invariant
            n == rest@.len(),
            k <= n,
            out@ =~= seq![c] + rest@.subrange(0, k as int),
        decreases n - k,
    {
        out.push(rest[k]);
        proof {
            assert(out@ =~= seq![c] + rest@.subrange(0, k as int + 1));
        }
        k += 1;
    }
    proof {
        assert(out@ =~= seq![c] + rest@);
    }
    out
}

fn parse_string_body(s: &Vec<char>, i: usize) -> (r: Option<(Vec<char>, usize)>)
    requires
        i <= s@.len(),
    ensures
        match r {
            Some((cs, j)) => spec_parse_string_body(s@, i as int) == Some((cs@, j as int)) && i < j
                <= s@.len(),
            None => spec_parse_string_body(s@, i as int) is None,
        },
    decreases s@.len() - i,
{
    if i >= s.len() {
        return None;
    }
    let c = s[i];
    if c == '"' {
        let out: Vec<char> = Vec::new();
        proof {
            assert(out@ =~= Seq::<char>::empty());
            assert(spec_parse_string_body(s@, i as int) == Some((out@, i + 1 as int)));
        }
        return Some((out, i + 1));
    }
    if c == '\\' {
        if i + 1 >= s.len() {
            return None;
        }
        let e = s[i + 1];
        if e == 'u' {
            match hex4(s, i + 2) {
                Some(cp) => {
                    if cp < 0xD800 || (0xE000 <= cp && cp <= 0x10FFFF) {
                        let ch = match crate::text::char_from_u32(cp) {
                            Some(ch) => ch,
                            None => {
                                proof {
                                    assert(false);
                                }
                                return None;
                            },
                        };
                        match parse_string_body(s, i + 6) {
                            Some((rest, j)) => {
                                proof {
                                    let scp = spec_hex4(s@, i as int + 2)->Some_0;
                                    assert(scp == cp as int);
                                    assert(ch as int == cp as int);
                                    assert((scp as char) as int == scp);
                                    assert((scp as char) == ch);
                                }
                                let out = prepend_char(ch, rest);
                                proof {
                                    assert(spec_parse_string_body(s@, i as int) == Some(
                                        (out@, j as int),
                                    ));
                                }
                                Some((out, j))
                            },
                            None => None,
                        }
                    } else {
                        None
                    }
                },
                None => None,
            }
        } else {
            match esc_char_exec(e) {
                Some(ch) => match parse_string_body(s, i + 2) {
                    Some((rest, j)) => {
                        let out = prepend_char(ch, rest);
                        proof {
                            assert(spec_parse_string_body(s@, i as int) == Some((out@, j as int)));
                        }
                        Some((out, j))
                    },
                    None => None,
                },
                None => None,
            }
        }
    } else if (c as u32) < 32 {
        None
    } else {
        match parse_string_body(s, i + 1) {
            Some((rest, j)) => {
                let out = prepend_char(c, rest);
                proof {
                    assert(spec_parse_string_body(s@, i as int) == Some((out@, j as int)));
                }
                Some((out, j))
            },
            None => None,
        }
    }
}

fn num_char(c: char) -> (r: bool)
    ensures
        r == spec_num_char(c),
{
    ('0' <= c && c <= '9') || c == '-' || c == '+' || c == '.' || c == 'e' || c == 'E'
}

fn num_end(s: &Vec<char>, i: usize) -> (j: usize)
    requires
        i <= s@.len(),
    ensures
        j as int == spec_num_end(s@, i as int),
        i <= j <= s@.len(),
    decreases s@.len() - i,
{
    if i < s.len() && num_char(s[i]) {
        num_end(s, i + 1)
    } else {
        i
    }
}

fn lit_at4(s: &Vec<char>, i: usize, c0: char, c1: char, c2: char, c3: char) -> (r: bool)
    requires
        i <= s@.len(),
    ensures
        r == spec_lit_at(s@, i as int, seq![c0, c1, c2, c3]),
{
    let ghost lit = seq![c0, c1, c2, c3];
    if s.len() < 4 || i > s.len() - 4 {
        return false;
    }
    let r = s[i] == c0 && s[i + 1] == c1 && s[i + 2] == c2 && s[i + 3] == c3;
    proof {
        if r {
            assert(s@.subrange(i as int, i as int + 4) =~= lit);
        } else {
            assert(s@.subrange(i as int, i as int + 4) != lit) by {
                if s@.subrange(i as int, i as int + 4) == lit {
                    assert(s@[i as int] == lit[0]);
                    assert(s@[i as int + 1] == lit[1]);
                    assert(s@[i as int + 2] == lit[2]);
                    assert(s@[i as int + 3] == lit[3]);
                }
            };
        }
    }
    r
}

fn lit_at5(s: &Vec<char>, i: usize, c0: char, c1: char, c2: char, c3: char, c4: char) -> (r: bool)
    requires
        i <= s@.len(),
    ensures
        r == spec_lit_at(s@, i as int, seq![c0, c1, c2, c3, c4]),
{
    let ghost lit = seq![c0, c1, c2, c3, c4];
    if s.len() < 5 || i > s.len() - 5 {
        return false;
    }
    let r = s[i] == c0 && s[i + 1] == c1 && s[i + 2] == c2 && s[i + 3] == c3 && s[i + 4] == c4;
    proof {
        if r {
            assert(s@.subrange(i as int, i as int + 5) =~= lit);
        } else {
            assert(s@.subrange(i as int, i as int + 5) != lit) by {
                if s@.subrange(i as int, i as int + 5) == lit {
                    assert(s@[i as int] == lit[0]);
                    assert(s@[i as int + 1] == lit[1]);
                    assert(s@[i as int + 2] == lit[2]);
                    assert(s@[i as int + 3] == lit[3]);
                    assert(s@[i as int + 4] == lit[4]);
                }
            };
        }
    }
    r
}

proof fn lemma_snoc_subrange<T>(a: T, b: Seq<T>, k: int)
    requires
        0 <= k < b.len(),
    ensures
        (seq![a] + b.subrange(0, k)).push(b[k]) == seq![a] + b.subrange(0, k + 1),
{
    assert((seq![a] + b.subrange(0, k)).push(b[k]) =~= seq![a] + b.subrange(0, k + 1));
}

/// A vector holding `v` followed by the contents of `rest`.
fn prepend_json(v: Json, rest: Vec<Json>) -> (out: Vec<Json>)
    ensures
        json_arr_view(out@) == seq![v@] + json_arr_view(rest@),
{
    let ghost vv = v@;
    let ghost restv0 = rest@;
    proof {
        lemma_arr_view(restv0);
    }
    let ghost restv = json_arr_view(restv0);
    let mut rest = rest;
    let mut out: Vec<Json> = Vec::new();
    out.push(v);
    let ghost mut k: int = 0;
    let ghost n = restv.len();
    proof {
        lemma_arr_view(out@);
        assert(json_arr_view(out@) =~= seq![vv] + restv.subrange(0, 0));
    }
    while rest.len() > 0
        invariant
            n == restv.len(),
            k + rest@.len() == n,
            0 <= k <= n,
            forall|t: int| 0 <= t < rest@.len() ==> json_view(rest@[t]) == restv[k + t],
            json_arr_view(out@) =~= seq![vv] + restv.subrange(0, k as int),
        decreases rest@.len(),
    {
        let ghost old_rest = rest@;
        let x = rest.remove(0);
        proof {
            assert(x == old_rest[0]);
            assert(json_view(x) == restv[k as int]);
            assert forall|t: int| 0 <= t < rest@.len() implies json_view(rest@[t]) == restv[
                k + 1 + t
            ] by {
                assert(rest@[t] == old_rest[t + 1]);
            }
        }
        let ghost old_out = out@;
        out.push(x);
        proof {
            assert(out@.drop_last() =~= old_out);
            assert(out@.last() == x);
            assert(json_arr_view(out@) == json_arr_view(old_out).push(json_view(x)));
            assert(json_arr_view(old_out) == seq![vv] + restv.subrange(0, k as int));
            assert(0 <= k < restv.len());
            lemma_snoc_subrange(vv, restv, k as int);
            assert(json_arr_view(out@) =~= seq![vv] + restv.subrange(0, k as int + 1));
            k = k + 1;
        }
    }
    proof {
        assert(restv.subrange(0, k as int) =~= restv);
        assert(json_arr_view(out@) =~= seq![vv] + restv);
    }
    out
}

/// A vector holding the member `kv` followed by the contents of `rest`.
fn prepend_member(kv: (String, Json), rest: Vec<(String, Json)>) -> (out: Vec<(String, Json)>)
    ensures
        json_obj_view(out@) == seq![(kv.0@, kv.1@)] + json_obj_view(rest@),
{
    let ghost kvv = (kv.0@, kv.1@);
    let ghost restv0 = rest@;
    proof {
        lemma_obj_view(restv0);
    }
    let ghost restv = json_obj_view(restv0);
    let mut rest = rest;
    let mut out: Vec<(String, Json)> = Vec::new();
    out.push(kv);
    let ghost mut k: int = 0;
    let ghost n = restv.len();
    proof {
        lemma_obj_view(out@);
        assert(json_obj_view(out@) =~= seq![kvv] + restv.subrange(0, 0));
    }
    while rest.len() > 0
        invariant
            n == restv.len(),
            k + rest@.len() == n,
            0 <= k <= n,
            forall|t: int|
                0 <= t < rest@.len() ==> (rest@[t].0@, json_view(rest@[t].1)) == restv[k + t],
            json_obj_view(out@) =~= seq![kvv] + restv.subrange(0, k as int),
        decreases rest@.len(),
    {
        let ghost old_rest = rest@;
        let x = rest.remove(0);
        proof {
            assert(x == old_rest[0]);
            assert((x.0@, json_view(x.1)) == restv[k as int]);
            assert forall|t: int|
                0 <= t < rest@.len() implies (rest@[t].0@, json_view(rest@[t].1)) == restv[
                k + 1 + t
            ] by {
                assert(rest@[t] == old_rest[t + 1]);
            }
        }
        let ghost old_out = out@;
        out.push(x);
        proof {
            assert(out@.drop_last() =~= old_out);
            assert(out@.last() == x);
            assert(json_obj_view(out@) == json_obj_view(old_out).push((x.0@, json_view(x.1))));
            assert(json_obj_view(old_out) == seq![kvv] + restv.subrange(0, k as int));
            assert(0 <= k < restv.len());
            lemma_snoc_subrange(kvv, restv, k as int);
            assert(json_obj_view(out@) =~= seq![kvv] + restv.subrange(0, k as int + 1));
            k = k + 1;
        }
    }
    proof {
        assert(restv.subrange(0, k as int) =~= restv);
        assert(json_obj_view(out@) =~= seq![kvv] + restv);
    }
    out
}

/// The view of an optional parse result.
pub open spec fn spec_opt_value(r: Option<(Json, usize)>) -> Option<(JsonV, int)> {
    match r {
        Some((v, j)) => Some((v@, j as int)),
        None => None,
    }
}

/// The fuel each exec parser proves its result at.
pub open spec fn spec_value_fuel(s: Seq<char>, i: int) -> nat {
    (2 * (s.len() - i) + 1) as nat
}

pub open spec fn spec_list_fuel(s: Seq<char>, i: int) -> nat {
    (2 * (s.len() - i) + 2) as nat
}

fn parse_value(s: &Vec<char>, i: usize) -> (r: Option<(Json, usize)>)
    requires
        i <= s@.len(),
    ensures
        r matches Some((v, j)) ==> i < j <= s@.len(),
        spec_parse_value(s@, i as int, spec_value_fuel(s@, i as int)) == spec_opt_value(r),
    decreases s@.len() - i, 0int,
{
    proof {
        reveal_strlit("true");
        reveal_strlit("false");
        reveal_strlit("null");
        assert(seq!['t', 'r', 'u', 'e'] =~= "true"@);
        assert(seq!['f', 'a', 'l', 's', 'e'] =~= "false"@);
        assert(seq!['n', 'u', 'l', 'l'] =~= "null"@);
    }
    let ghost ff = spec_value_fuel(s@, i as int);
    if i >= s.len() {
        return None;
    }
    let c = s[i];
    if c == '"' {
        match parse_string_body(s, i + 1) {
            Some((cs, j)) => Some((Json::Str(crate::text::chars_to_string(cs)), j)),
            None => None,
        }
    } else if c == '[' {
        let j = skip_ws(s, i + 1);
        if j < s.len() && s[j] == ']' {
            let empty: Vec<Json> = Vec::new();
            let out = Json::Arr(empty);
            proof {
                assert(json_view(out) == JsonV::Arr(Seq::<JsonV>::empty()));
            }
            Some((out, j + 1))
        } else {
            match parse_elems(s, j) {
                Some((vs, j2)) => {
                    proof {
                        lemma_elems_fuel(
                            s@,
                            j as int,
                            spec_list_fuel(s@, j as int),
                            (ff - 1) as nat,
                        );
                    }
                    let out = Json::Arr(vs);
                    Some((out, j2))
                },
                None => {
                    proof {
                        lemma_elems_fuel(
                            s@,
                            j as int,
                            spec_list_fuel(s@, j as int),
                            (ff - 1) as nat,
                        );
                    }
                    None
                },
            }
        }
    } else if c == '{' {
        let j = skip_ws(s, i + 1);
        if j < s.len() && s[j] == '}' {
            let empty: Vec<(String, Json)> = Vec::new();
            let out = Json::Obj(empty);
            proof {
                assert(json_view(out) == JsonV::Obj(Seq::<(Seq<char>, JsonV)>::empty()));
            }
            Some((out, j + 1))
        } else {
            match parse_members(s, j) {
                Some((ms, j2)) => {
                    proof {
                        lemma_members_fuel(
                            s@,
                            j as int,
                            spec_list_fuel(s@, j as int),
                            (ff - 1) as nat,
                        );
                    }
                    let out = Json::Obj(ms);
                    Some((out, j2))
                },
                None => {
                    proof {
                        lemma_members_fuel(
                            s@,
                            j as int,
                            spec_list_fuel(s@, j as int),
                            (ff - 1) as nat,
                        );
                    }
                    None
                },
            }
        }
    } else if lit_at4(s, i, 't', 'r', 'u', 'e') {
        Some((Json::Bool(true), i + 4))
    } else if lit_at5(s, i, 'f', 'a', 'l', 's', 'e') {
        Some((Json::Bool(false), i + 5))
    } else if lit_at4(s, i, 'n', 'u', 'l', 'l') {
        Some((Json::Null, i + 4))
    } else if c == '-' || ('0' <= c && c <= '9') {
        let e = num_end(s, i);
        proof {
            assert(spec_num_char(s@[i as int]));
            lemma_num_end_bounds(s@, i as int + 1);
            assert(spec_num_end(s@, i as int) == spec_num_end(s@, i as int + 1));
        }
        let mut out: Vec<char> = Vec::new();
        let mut k: usize = i;
        while k < e
            invariant
                i <= k <= e <= s@.len(),
                out@ =~= s@.subrange(i as int, k as int),
            decreases e - k,
        {
            out.push(s[k]);
            proof {
                assert(out@ =~= s@.subrange(i as int, k as int + 1));
            }
            k += 1;
        }
        Some((Json::Num(crate::text::chars_to_string(out)), e))
    } else {
        None
    }
}

fn parse_elems(s: &Vec<char>, i: usize) -> (r: Option<(Vec<Json>, usize)>)
    requires
        i <= s@.len(),
    ensures
        r matches Some((vs, j)) ==> i < j <= s@.len(),
        spec_parse_elems(s@, i as int, spec_list_fuel(s@, i as int)) == (match r {
            Some((vs, j)) => Some((json_arr_view(vs@), j as int)),
            None => None,
        }),
    decreases s@.len() - i, 1int,
{
    let ghost ff = spec_list_fuel(s@, i as int);
    proof {
        assert((ff - 1) as nat == spec_value_fuel(s@, i as int));
    }
    match parse_value(s, i) {
        Some((v, j)) => {
            let k = skip_ws(s, j);
            if k < s.len() && s[k] == ']' {
                let ghost vv = v@;
                let mut vs: Vec<Json> = Vec::new();
                vs.push(v);
                proof {
                    lemma_arr_view(vs@);
                    assert(json_arr_view(vs@) =~= seq![vv]);
                }
                Some((vs, k + 1))
            } else if k < s.len() && s[k] == ',' {
                let m = skip_ws(s, k + 1);
                match parse_elems(s, m) {
                    Some((rest, j2)) => {
                        proof {
                            lemma_elems_fuel(
                                s@,
                                m as int,
                                spec_list_fuel(s@, m as int),
                                (ff - 1) as nat,
                            );
                        }
                        Some((prepend_json(v, rest), j2))
                    },
                    None => {
                        proof {
                            lemma_elems_fuel(
                                s@,
                                m as int,
                                spec_list_fuel(s@, m as int),
                                (ff - 1) as nat,
                            );
                        }
                        None
                    },
                }
            } else {
                None
            }
        },
        None => None,
    }
}

fn parse_members(s: &Vec<char>, i: usize) -> (r: Option<(Vec<(String, Json)>, usize)>)
    requires
        i <= s@.len(),
    ensures
        r matches Some((ms, j)) ==> i < j <= s@.len(),
        spec_parse_members(s@, i as int, spec_list_fuel(s@, i as int)) == (match r {
            Some((ms, j)) => Some((json_obj_view(ms@), j as int)),
            None => None,
        }),
    decreases s@.len() - i, 1int,
{
    let ghost ff = spec_list_fuel(s@, i as int);
    if i >= s.len() || s[i] != '"' {
        return None;
    }
    match parse_string_body(s, i + 1) {
        Some((key, j)) => {
            let k = skip_ws(s, j);
            if k < s.len() && s[k] == ':' {
                let m = skip_ws(s, k + 1);
                match parse_value(s, m) {
                    Some((v, j2)) => {
                        proof {
                            lemma_value_fuel(
                                s@,
                                m as int,
                                spec_value_fuel(s@, m as int),
                                (ff - 1) as nat,
                            );
                        }
                        let k2 = skip_ws(s, j2);
                        let keystr = crate::text::chars_to_string(key);
                        if k2 < s.len() && s[k2] == '}' {
                            let ghost kvv = (keystr@, v@);
                            let mut ms: Vec<(String, Json)> = Vec::new();
                            ms.push((keystr, v));
                            proof {
                                lemma_obj_view(ms@);
                                assert(json_obj_view(ms@) =~= seq![kvv]);
                            }
                            Some((ms, k2 + 1))
                        } else if k2 < s.len() && s[k2] == ',' {
                            let m2 = skip_ws(s, k2 + 1);
                            match parse_members(s, m2) {
                                Some((rest, j3)) => {
                                    proof {
                                        lemma_members_fuel(
                                            s@,
                                            m2 as int,
                                            spec_list_fuel(s@, m2 as int),
                                            (ff - 1) as nat,
                                        );
                                    }
                                    Some((prepend_member((keystr, v), rest), j3))
                                },
                                None => {
                                    proof {
                                        lemma_members_fuel(
                                            s@,
                                            m2 as int,
                                            spec_list_fuel(s@, m2 as int),
                                            (ff - 1) as nat,
                                        );
                                    }
                                    None
                                },
                            }
                        } else {
                            None
                        }
                    },
                    None => {
                        proof {
                            lemma_value_fuel(
                                s@,
                                m as int,
                                spec_value_fuel(s@, m as int),
                                (ff - 1) as nat,
                            );
                        }
                        None
                    },
                }
            } else {
                None
            }
        },
        None => None,
    }
}

/// Parses a whole JSON document: one value, optionally surrounded by
/// whitespace; anything else yields `None`.
pub fn parse_json(text: &str) -> (r: Option<Json>)
    ensures
        match r {
            Some(v) => spec_parse_json(text@) == Some(v@),
            None => spec_parse_json(text@) is None,
        },
{
    let chars = string_to_chars(text);
    let i = skip_ws(&chars, 0);
    proof {
        lemma_value_fuel(chars@, i as int, spec_value_fuel(chars@, i as int), spec_fuel(chars@));
    }
    match parse_value(&chars, i) {
        Some((v, j)) => {
            if skip_ws(&chars, j) == chars.len() {
                Some(v)
            } else {
                None
            }
        },
        None => None,
    }
}


/// The lowercase hex digit character for `d`.
pub open spec fn spec_hex_digit(d: int) -> char {
    if d < 10 {
        (48 + d) as char
    } else {
        (87 + d) as char
    }
}

/// How this crate escapes one character when printing a JSON string:
/// quote and backslash get a backslash, control characters a `\u` form,
/// and every other character stands for itself.
pub open spec fn spec_esc_seq(c: char) -> Seq<char> {
    if c == '"' {
        seq!['\\', '"']
    } else if c == '\\' {
        seq!['\\', '\\']
    } else if (c as u32) < 32 {
        seq![
            '\\',
            'u',
            '0',
            '0',
            spec_hex_digit((c as u32 / 16) as int),
            spec_hex_digit((c as u32 % 16) as int),
        ]
    } else {
        seq![c]
    }
}

/// The escaped form of a whole string body.
pub open spec fn spec_esc_string(x: Seq<char>) -> Seq<char>
    decreases x.len(),
{
    if x.len() == 0 {
        Seq::empty()
    } else {
        spec_esc_seq(x[0]) + spec_esc_string(x.drop_first())
    }
}

pub proof fn lemma_esc_snoc(x: Seq<char>, c: char)
    ensures
        spec_esc_string(x.push(c)) == spec_esc_string(x) + spec_esc_seq(c),
    decreases x.len(),
{
    if x.len() == 0 {
        assert(x.push(c)[0] == c);
        assert(x.push(c).drop_first() =~= Seq::<char>::empty());
        assert(spec_esc_string(x.push(c)) == spec_esc_seq(c) + spec_esc_string(
            Seq::<char>::empty(),
        ));
        assert(spec_esc_seq(c) + Seq::<char>::empty() =~= spec_esc_seq(c));
        assert(spec_esc_string(x) + spec_esc_seq(c) =~= spec_esc_seq(c));
    } else {
        assert(x.push(c)[0] == x[0]);
        assert(x.push(c).drop_first() =~= x.drop_first().push(c));
        lemma_esc_snoc(x.drop_first(), c);
        assert(spec_esc_string(x.push(c)) == spec_esc_seq(x[0]) + (spec_esc_string(x.drop_first())
            + spec_esc_seq(c)));
        assert(spec_esc_seq(x[0]) + (spec_esc_string(x.drop_first()) + spec_esc_seq(c)) =~= (
        spec_esc_seq(x[0]) + spec_esc_string(x.drop_first())) + spec_esc_seq(c));
    }
}

fn hex_digit(d: u32) -> (r: char)
    requires
        d < 16,
    ensures
        r == spec_hex_digit(d as int),
{
    if d < 10 {
        ((48 + d as u8) as char)
    } else {
        ((87 + d as u8) as char)
    }
}

/// Appends the escaped form of `x` to `out`.
pub fn esc_push(out: &mut Vec<char>, x: &str)
    ensures
        final(out)@ == old(out)@ + spec_esc_string(x@),
{
    let n = x.unicode_len();
    let mut i: usize = 0;
    proof {
        assert(x@.subrange(0, 0) =~= Seq::<char>::empty());
        assert(out@ =~= out@ + spec_esc_string(x@.subrange(0, 0)));
    }
    while i < n
        invariant
            n == x@.len(),
            i <= n,
            out@ == old(out)@ + spec_esc_string(x@.subrange(0, i as int)),
        decreases n - i,
    {
        let c = x.get_char(i);
        let ghost pre = out@;
        if c == '"' {
            out.push('\\');
            out.push('"');
            proof {
                assert(out@ =~= pre + spec_esc_seq(c));
            }
        } else if c == '\\' {
            out.push('\\');
            out.push('\\');
            proof {
                assert(out@ =~= pre + spec_esc_seq(c));
            }
        } else if (c as u32) < 32 {
            out.push('\\');
            out.push('u');
            out.push('0');
            out.push('0');
            out.push(hex_digit((c as u32) / 16));
            out.push(hex_digit((c as u32) % 16));
            proof {
                assert(out@ =~= pre + spec_esc_seq(c));
            }
        } else {
            out.push(c);
            proof {
                assert(out@ =~= pre + spec_esc_seq(c));
            }
        }
        proof {
            assert(x@.subrange(0, i + 1 as int).drop_last() =~= x@.subrange(0, i as int));
            assert(x@.subrange(0, i as int).push(x@[i as int]) =~= x@.subrange(0, i + 1 as int));
            lemma_esc_snoc(x@.subrange(0, i as int), x@[i as int]);
            assert(out@ =~= old(out)@ + spec_esc_string(x@.subrange(0, i + 1 as int)));
        }
        i += 1;
    }
    proof {
        assert(x@.subrange(0, n as int) =~= x@);
    }
}

proof fn lemma_char_u32(c: char)
    ensures
        (c as u32) as int == c as int,
{
}

/// Casting a char through `u32` keeps its code point.
pub proof fn lemma_char_u32_pub(c: char)
    ensures
        (c as u32) as int == c as int,
{
}

pub proof fn lemma_hex_digit_val(d: int)
    requires
        0 <= d < 16,
    ensures
        spec_hex_val(spec_hex_digit(d)) == d,
{
}

/// Parsing an escaped string body inverts escaping: at `i` the input holds
/// the escaped form of `x` and a closing quote, and the parser returns
/// exactly `x`.
pub proof fn lemma_parse_esc_string(s: Seq<char>, x: Seq<char>, i: int)
    requires
        0 <= i,
        spec_lit_at(s, i, spec_esc_string(x) + seq!['"']),
    ensures
        spec_parse_string_body(s, i) == Some((x, i + spec_esc_string(x).len() + 1)),
    decreases x.len(),
{
    let full = spec_esc_string(x) + seq!['"'];
    if x.len() == 0 {
        assert(s[i] == full[0]);
        assert(s[i] == '"');
        assert(spec_parse_string_body(s, i) == Some((Seq::<char>::empty(), i + 1)));
        assert(x =~= Seq::<char>::empty());
    } else {
        let c = x[0];
        let d = spec_esc_seq(c).len();
        let x2 = x.drop_first();
        assert(spec_esc_string(x) == spec_esc_seq(c) + spec_esc_string(x2));
        assert forall|t: int| 0 <= t < d implies s[i + t] == spec_esc_seq(c)[t] by {
            assert(full[t] == spec_esc_seq(c)[t]);
            assert(s.subrange(i, i + full.len() as int)[t] == s[i + t]);
        }
        assert(spec_lit_at(s, i + d, spec_esc_string(x2) + seq!['"'])) by {
            assert(s.subrange(i + d, i + d + (spec_esc_string(x2) + seq!['"']).len() as int) =~=
            spec_esc_string(x2) + seq!['"']) by {
                assert forall|t: int| 0 <= t < spec_esc_string(x2).len() + 1 implies s[i + d + t]
                    == (spec_esc_string(x2) + seq!['"'])[t] by {
                    assert(full[d + t] == (spec_esc_string(x2) + seq!['"'])[t]);
                    assert(s.subrange(i, i + full.len() as int)[d + t] == s[i + d + t]);
                }
            }
        }
        lemma_parse_esc_string(s, x2, i + d);
        if c == '"' {
            assert(s[i] == '\\');
            assert(s[i + 1] == '"');
            assert(spec_esc_char(s[i + 1]) == Some('"'));
            assert(seq!['"'] + x2 =~= x);
        } else if c == '\\' {
            assert(s[i] == '\\');
            assert(s[i + 1] == '\\');
            assert(spec_esc_char(s[i + 1]) == Some('\\'));
            assert(seq!['\\'] + x2 =~= x);
        } else if (c as u32) < 32 {
            assert(s[i] == '\\');
            assert(s[i + 1] == 'u');
            assert(s[i + 2] == '0');
            assert(s[i + 3] == '0');
            assert(s[i + 4] == spec_hex_digit((c as u32 / 16) as int));
            assert(s[i + 5] == spec_hex_digit((c as u32 % 16) as int));
            lemma_hex_digit_val((c as u32 / 16) as int);
            lemma_hex_digit_val((c as u32 % 16) as int);
            assert(spec_hex_val(s[i + 2]) == 0);
            assert(spec_hex_val(s[i + 3]) == 0);
            assert(i + 6 <= s.len());
            let cp = spec_hex4(s, i + 2)->Some_0;
            assert(cp == (c as u32 / 16) * 16 + (c as u32 % 16));
            lemma_char_u32(c);
            assert((c as u32) as int == c as int);
            assert(cp == c as int);
            assert(spec_is_scalar(cp));
            assert((cp as char) as int == cp);
            assert((cp as char) == c);
            assert(seq![c] + x2 =~= x);
        } else {
            assert(s[i + 0] == spec_esc_seq(c)[0]);
            assert(s[i] == c);
            assert(s[i] != '"' && s[i] != '\\');
            assert(seq![c] + x2 =~= x);
        }
    }
}

} // verus!
