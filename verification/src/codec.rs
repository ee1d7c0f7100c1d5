//! The cache file format: one JSON array of item records, printed in a
//! canonical form.  Encoding is defined character by character; decoding
//! goes through the JSON parser and a strict extraction.  The central fact,
//! proved in [`lemma_decode_encode`], is that decoding inverts encoding for
//! every item list.
use vstd::prelude::*;
use crate::item::{Field, FieldV, Item, ItemV};
use crate::json::{
    esc_push, json_arr_view, json_obj_view, json_view, lemma_arr_view, lemma_obj_view,
    lemma_parse_esc_string, parse_json, spec_esc_seq,
    spec_esc_string, spec_fuel, spec_json_ws, spec_lit_at, spec_parse_elems, spec_parse_json,
    spec_parse_members, spec_parse_string_body, spec_parse_value, spec_skip_ws, Json, JsonV,
};
use crate::text::chars_to_string;

verus! {

/// The printed form of a JSON string value.
pub open spec fn spec_enc_string(x: Seq<char>) -> Seq<char> {
    seq!['"'] + spec_esc_string(x) + seq!['"']
}

/// The printed form of one field tag.
pub open spec fn spec_enc_field(f: FieldV) -> Seq<char> {
    match f {
        FieldV::Username => spec_enc_string("Username"@),
        FieldV::Password => spec_enc_string("Password"@),
        FieldV::Totp => spec_enc_string("Totp"@),
        FieldV::Other(n) => seq!['{'] + spec_enc_string("Other"@) + seq![':'] + spec_enc_string(n)
            + seq!['}'],
    }
}

/// The comma-separated bodies of the field list.
pub open spec fn spec_enc_fields_body(fs: Seq<FieldV>) -> Seq<char>
    decreases fs.len(),
{
    if fs.len() == 0 {
        Seq::empty()
    } else if fs.len() == 1 {
        spec_enc_field(fs[0])
    } else {
        spec_enc_field(fs[0]) + seq![','] + spec_enc_fields_body(fs.drop_first())
    }
}

/// The printed form of the field list.
pub open spec fn spec_enc_fields(fs: Seq<FieldV>) -> Seq<char> {
    seq!['['] + spec_enc_fields_body(fs) + seq![']']
}

/// The printed form of one item record.
pub open spec fn spec_enc_item(it: ItemV) -> Seq<char> {
    seq!['{'] + spec_enc_string("id"@) + seq![':'] + spec_enc_string(it.id) + seq![',']
        + spec_enc_string("title"@) + seq![':'] + spec_enc_string(it.title) + seq![',']
        + spec_enc_string("fields"@) + seq![':'] + spec_enc_fields(it.fields) + seq!['}']
}

/// The comma-separated bodies of the item list.
pub open spec fn spec_enc_items_body(items: Seq<ItemV>) -> Seq<char>
    decreases items.len(),
{
    if items.len() == 0 {
        Seq::empty()
    } else if items.len() == 1 {
        spec_enc_item(items[0])
    } else {
        spec_enc_item(items[0]) + seq![','] + spec_enc_items_body(items.drop_first())
    }
}

/// The whole cache file: a JSON array of item records.
pub open spec fn spec_enc_items(items: Seq<ItemV>) -> Seq<char> {
    seq!['['] + spec_enc_items_body(items) + seq![']']
}

fn enc_push_string(out: &mut Vec<char>, x: &str)
    ensures
        final(out)@ == old(out)@ + spec_enc_string(x@),
{
    out.push('"');
    esc_push(out, x);
    out.push('"');
    proof {
        assert(out@ =~= old(out)@ + spec_enc_string(x@));
    }
}

fn enc_push_field(out: &mut Vec<char>, f: &Field)
    ensures
        final(out)@ == old(out)@ + spec_enc_field(f@),
{
    match f {
        Field::Username => {
            enc_push_string(out, "Username");
        },
        Field::Password => {
            enc_push_string(out, "Password");
        },
        Field::Totp => {
            enc_push_string(out, "Totp");
        },
        Field::Other(n) => {
            out.push('{');
            enc_push_string(out, "Other");
            out.push(':');
            enc_push_string(out, n.as_str());
            out.push('}');
            proof {
                assert(out@ =~= old(out)@ + spec_enc_field(f@));
            }
        },
    }
}

fn enc_push_fields_body(out: &mut Vec<char>, fs: &Vec<Field>, idx: usize)
    requires
        idx <= fs@.len(),
    ensures
        final(out)@ == old(out)@ + spec_enc_fields_body(fs.deep_view().skip(idx as int)),
    decreases fs@.len() - idx,
{
    let ghost suffix = fs.deep_view().skip(idx as int);
    if idx >= fs.len() {
        proof {
            assert(out@ =~= out@ + spec_enc_fields_body(suffix));
        }
        return ;
    }
    enc_push_field(out, &fs[idx]);
    proof {
        assert(suffix[0] == fs.deep_view()[idx as int]);
    }
    if idx + 1 < fs.len() {
        out.push(',');
        enc_push_fields_body(out, fs, idx + 1);
        proof {
            assert(suffix.drop_first() =~= fs.deep_view().skip(idx as int + 1));
            assert(out@ =~= old(out)@ + spec_enc_fields_body(suffix));
        }
    } else {
        proof {
            assert(suffix.len() == 1);
            assert(out@ =~= old(out)@ + spec_enc_fields_body(suffix));
        }
    }
}

fn enc_push_item(out: &mut Vec<char>, it: &Item)
    ensures
        final(out)@ == old(out)@ + spec_enc_item(it@),
{
    out.push('{');
    enc_push_string(out, "id");
    out.push(':');
    enc_push_string(out, it.id.as_str());
    out.push(',');
    enc_push_string(out, "title");
    out.push(':');
    enc_push_string(out, it.title.as_str());
    out.push(',');
    enc_push_string(out, "fields");
    out.push(':');
    out.push('[');
    enc_push_fields_body(out, &it.fields, 0);
    out.push(']');
    out.push('}');
    proof {
        assert(it.fields.deep_view().skip(0) =~= it@.fields);
        assert(out@ =~= old(out)@ + spec_enc_item(it@));
    }
}

fn enc_push_items_body(out: &mut Vec<char>, items: &Vec<Item>, idx: usize)
    requires
        idx <= items@.len(),
    ensures
        final(out)@ == old(out)@ + spec_enc_items_body(items.deep_view().skip(idx as int)),
    decreases items@.len() - idx,
{
    let ghost suffix = items.deep_view().skip(idx as int);
    if idx >= items.len() {
        proof {
            assert(out@ =~= out@ + spec_enc_items_body(suffix));
        }
        return ;
    }
    enc_push_item(out, &items[idx]);
    proof {
        assert(suffix[0] == items.deep_view()[idx as int]);
    }
    if idx + 1 < items.len() {
        out.push(',');
        enc_push_items_body(out, items, idx + 1);
        proof {
            assert(suffix.drop_first() =~= items.deep_view().skip(idx as int + 1));
            assert(out@ =~= old(out)@ + spec_enc_items_body(suffix));
        }
    } else {
        proof {
            assert(suffix.len() == 1);
            assert(out@ =~= old(out)@ + spec_enc_items_body(suffix));
        }
    }
}

/// Prints an item list in the cache file format.
pub fn encode_items(items: &Vec<Item>) -> (text: String)
    ensures
        text@ == spec_enc_items(items.deep_view()),
{
    let mut out: Vec<char> = Vec::new();
    out.push('[');
    enc_push_items_body(&mut out, items, 0);
    out.push(']');
    proof {
        assert(items.deep_view().skip(0) =~= items.deep_view());
        assert(out@ =~= spec_enc_items(items.deep_view()));
    }
    chars_to_string(out)
}


/// Characters that print as themselves inside a JSON string.
pub open spec fn spec_plain_char(c: char) -> bool {
    c != '"' && c != '\\' && (c as u32) >= 32
}

pub proof fn lemma_esc_plain(x: Seq<char>)
    requires
        forall|t: int| 0 <= t < x.len() ==> spec_plain_char(#[trigger] x[t]),
    ensures
        spec_esc_string(x) == x,
    decreases x.len(),
{
    if x.len() > 0 {
        assert(spec_plain_char(x[0]));
        assert(spec_esc_seq(x[0]) == seq![x[0]]);
        assert(forall|t: int|
            0 <= t < x.drop_first().len() ==> spec_plain_char(#[trigger] x.drop_first()[t]));
        lemma_esc_plain(x.drop_first());
        assert(seq![x[0]] + x.drop_first() =~= x);
    }
}

pub proof fn lemma_lit_split(s: Seq<char>, i: int, a: Seq<char>, b: Seq<char>)
    requires
        spec_lit_at(s, i, a + b),
    ensures
        spec_lit_at(s, i, a),
        spec_lit_at(s, i + a.len(), b),
{
    let ab = a + b;
    assert forall|t: int| 0 <= t < a.len() implies s[i + t] == a[t] by {
        assert(s.subrange(i, i + ab.len() as int)[t] == s[i + t]);
        assert(ab[t] == a[t]);
    }
    assert(s.subrange(i, i + a.len() as int) =~= a);
    assert forall|t: int| 0 <= t < b.len() implies s[i + a.len() + t] == b[t] by {
        assert(s.subrange(i, i + ab.len() as int)[a.len() + t] == s[i + a.len() + t]);
        assert(ab[a.len() + t] == b[t]);
    }
    assert(s.subrange(i + a.len(), i + a.len() + b.len() as int) =~= b);
}

pub proof fn lemma_lit_char(s: Seq<char>, i: int, c: char)
    requires
        spec_lit_at(s, i, seq![c]),
    ensures
        0 <= i < s.len(),
        s[i] == c,
{
    assert(s.subrange(i, i + 1)[0] == s[i]);
}

pub proof fn lemma_skip_ws_at(s: Seq<char>, i: int)
    requires
        0 <= i < s.len(),
        !spec_json_ws(s[i]),
    ensures
        spec_skip_ws(s, i) == i,
{
}

proof fn lemma_esc_lit_id()
    ensures
        spec_esc_string("id"@) == "id"@,
        "id"@.len() == 2,
{
    reveal_strlit("id");
    assert forall|t: int| 0 <= t < "id"@.len() implies spec_plain_char(#[trigger] "id"@[t]) by {
        if t == 0 {
            assert("id"@[0] == 'i');
        } else {
            assert("id"@[1] == 'd');
        }
    }
    lemma_esc_plain("id"@);
}

proof fn lemma_esc_lit_title()
    ensures
        spec_esc_string("title"@) == "title"@,
        "title"@.len() == 5,
{
    reveal_strlit("title");
    assert forall|t: int| 0 <= t < "title"@.len() implies spec_plain_char(
        #[trigger] "title"@[t],
    ) by {
        if t == 0 {
            assert("title"@[0] == 't');
        } else if t == 1 {
            assert("title"@[1] == 'i');
        } else if t == 2 {
            assert("title"@[2] == 't');
        } else if t == 3 {
            assert("title"@[3] == 'l');
        } else {
            assert("title"@[4] == 'e');
        }
    }
    lemma_esc_plain("title"@);
}

proof fn lemma_esc_lit_fields()
    ensures
        spec_esc_string("fields"@) == "fields"@,
        "fields"@.len() == 6,
{
    reveal_strlit("fields");
    assert forall|t: int| 0 <= t < "fields"@.len() implies spec_plain_char(
        #[trigger] "fields"@[t],
    ) by {
        if t == 0 {
            assert("fields"@[0] == 'f');
        } else if t == 1 {
            assert("fields"@[1] == 'i');
        } else if t == 2 {
            assert("fields"@[2] == 'e');
        } else if t == 3 {
            assert("fields"@[3] == 'l');
        } else if t == 4 {
            assert("fields"@[4] == 'd');
        } else {
            assert("fields"@[5] == 's');
        }
    }
    lemma_esc_plain("fields"@);
}

proof fn lemma_esc_lit_other()
    ensures
        spec_esc_string("Other"@) == "Other"@,
        "Other"@.len() == 5,
{
    reveal_strlit("Other");
    assert forall|t: int| 0 <= t < "Other"@.len() implies spec_plain_char(
        #[trigger] "Other"@[t],
    ) by {
        if t == 0 {
            assert("Other"@[0] == 'O');
        } else if t == 1 {
            assert("Other"@[1] == 't');
        } else if t == 2 {
            assert("Other"@[2] == 'h');
        } else if t == 3 {
            assert("Other"@[3] == 'e');
        } else {
            assert("Other"@[4] == 'r');
        }
    }
    lemma_esc_plain("Other"@);
}

proof fn lemma_esc_lit_username()
    ensures
        spec_esc_string("Username"@) == "Username"@,
        "Username"@.len() == 8,
{
    reveal_strlit("Username");
    assert forall|t: int| 0 <= t < "Username"@.len() implies spec_plain_char(
        #[trigger] "Username"@[t],
    ) by {
        if t == 0 {
            assert("Username"@[0] == 'U');
        } else if t == 1 {
            assert("Username"@[1] == 's');
        } else if t == 2 {
            assert("Username"@[2] == 'e');
        } else if t == 3 {
            assert("Username"@[3] == 'r');
        } else if t == 4 {
            assert("Username"@[4] == 'n');
        } else if t == 5 {
            assert("Username"@[5] == 'a');
        } else if t == 6 {
            assert("Username"@[6] == 'm');
        } else {
            assert("Username"@[7] == 'e');
        }
    }
    lemma_esc_plain("Username"@);
}

proof fn lemma_esc_lit_password()
    ensures
        spec_esc_string("Password"@) == "Password"@,
        "Password"@.len() == 8,
{
    reveal_strlit("Password");
    assert forall|t: int| 0 <= t < "Password"@.len() implies spec_plain_char(
        #[trigger] "Password"@[t],
    ) by {
        if t == 0 {
            assert("Password"@[0] == 'P');
        } else if t == 1 {
            assert("Password"@[1] == 'a');
        } else if t == 2 {
            assert("Password"@[2] == 's');
        } else if t == 3 {
            assert("Password"@[3] == 's');
        } else if t == 4 {
            assert("Password"@[4] == 'w');
        } else if t == 5 {
            assert("Password"@[5] == 'o');
        } else if t == 6 {
            assert("Password"@[6] == 'r');
        } else {
            assert("Password"@[7] == 'd');
        }
    }
    lemma_esc_plain("Password"@);
}

proof fn lemma_esc_lit_totp()
    ensures
        spec_esc_string("Totp"@) == "Totp"@,
        "Totp"@.len() == 4,
{
    reveal_strlit("Totp");
    assert forall|t: int| 0 <= t < "Totp"@.len() implies spec_plain_char(
        #[trigger] "Totp"@[t],
    ) by {
        if t == 0 {
            assert("Totp"@[0] == 'T');
        } else if t == 1 {
            assert("Totp"@[1] == 'o');
        } else if t == 2 {
            assert("Totp"@[2] == 't');
        } else {
            assert("Totp"@[3] == 'p');
        }
    }
    lemma_esc_plain("Totp"@);
}

/// The JSON value that one encoded field parses to.
pub open spec fn spec_field_json(f: FieldV) -> JsonV {
    match f {
        FieldV::Username => JsonV::Str("Username"@),
        FieldV::Password => JsonV::Str("Password"@),
        FieldV::Totp => JsonV::Str("Totp"@),
        FieldV::Other(n) => JsonV::Obj(seq![("Other"@, JsonV::Str(n))]),
    }
}

/// The JSON values that a field list parses to.
pub open spec fn spec_fields_json(fs: Seq<FieldV>) -> Seq<JsonV>
    decreases fs.len(),
{
    if fs.len() == 0 {
        Seq::empty()
    } else {
        seq![spec_field_json(fs[0])] + spec_fields_json(fs.drop_first())
    }
}

/// The JSON value that one encoded item parses to.
pub open spec fn spec_item_json(it: ItemV) -> JsonV {
    JsonV::Obj(
        seq![
            ("id"@, JsonV::Str(it.id)),
            ("title"@, JsonV::Str(it.title)),
            ("fields"@, JsonV::Arr(spec_fields_json(it.fields))),
        ],
    )
}

/// The JSON values that an item list parses to.
pub open spec fn spec_items_json(items: Seq<ItemV>) -> Seq<JsonV>
    decreases items.len(),
{
    if items.len() == 0 {
        Seq::empty()
    } else {
        seq![spec_item_json(items[0])] + spec_items_json(items.drop_first())
    }
}

pub proof fn lemma_parse_enc_string(s: Seq<char>, x: Seq<char>, i: int, fuel: nat)
    requires
        fuel >= 1,
        spec_lit_at(s, i, spec_enc_string(x)),
    ensures
        spec_parse_value(s, i, fuel) == Some((JsonV::Str(x), i + spec_enc_string(x).len())),
{
    let e = spec_enc_string(x);
    assert(e == seq!['"'] + (spec_esc_string(x) + seq!['"'])) by {
        assert(seq!['"'] + (spec_esc_string(x) + seq!['"']) =~= e);
    }
    lemma_lit_split(s, i, seq!['"'], spec_esc_string(x) + seq!['"']);
    lemma_lit_char(s, i, '"');
    lemma_parse_esc_string(s, x, i + 1);
}

proof fn lemma_enc_string_first(x: Seq<char>)
    ensures
        spec_enc_string(x).len() >= 2,
        spec_enc_string(x)[0] == '"',
{
}

proof fn lemma_enc_field_first(f: FieldV)
    ensures
        spec_enc_field(f).len() >= 2,
        spec_enc_field(f)[0] == '"' || spec_enc_field(f)[0] == '{',
        !spec_json_ws(spec_enc_field(f)[0]),
        spec_enc_field(f)[0] != ']',
{
    match f {
        FieldV::Username => lemma_enc_string_first("Username"@),
        FieldV::Password => lemma_enc_string_first("Password"@),
        FieldV::Totp => lemma_enc_string_first("Totp"@),
        FieldV::Other(n) => {},
    }
}

proof fn lemma_enc_item_first(it: ItemV)
    ensures
        spec_enc_item(it).len() >= 2,
        spec_enc_item(it)[0] == '{',
{
}

#[verifier::rlimit(80)]
#[verifier::spinoff_prover]
pub proof fn lemma_parse_enc_field(s: Seq<char>, f: FieldV, i: int, fuel: nat)
    requires
        0 <= i <= s.len(),
        fuel >= 2 * (s.len() - i) + 1,
        spec_lit_at(s, i, spec_enc_field(f)),
    ensures
        spec_parse_value(s, i, fuel) == Some((spec_field_json(f), i + spec_enc_field(f).len())),
{
    match f {
        FieldV::Username => {
            lemma_esc_lit_username();
            lemma_parse_enc_string(s, "Username"@, i, fuel);
        },
        FieldV::Password => {
            lemma_esc_lit_password();
            lemma_parse_enc_string(s, "Password"@, i, fuel);
        },
        FieldV::Totp => {
            lemma_esc_lit_totp();
            lemma_parse_enc_string(s, "Totp"@, i, fuel);
        },
        FieldV::Other(n) => {
            lemma_esc_lit_other();
            let ko = spec_enc_string("Other"@);
            let vn = spec_enc_string(n);
            let e = spec_enc_field(f);
            assert(e == seq!['{'] + (ko + (seq![':'] + (vn + seq!['}'])))) by {
                assert(seq!['{'] + (ko + (seq![':'] + (vn + seq!['}']))) =~= e);
            }
            lemma_lit_split(s, i, seq!['{'], ko + (seq![':'] + (vn + seq!['}'])));
            lemma_lit_char(s, i, '{');
            lemma_lit_split(s, i + 1, ko, seq![':'] + (vn + seq!['}']));
            let p1 = i + 1 + ko.len();
            lemma_lit_split(s, p1, seq![':'], vn + seq!['}']);
            lemma_lit_char(s, p1, ':');
            let p2 = p1 + 1;
            lemma_lit_split(s, p2, vn, seq!['}']);
            let p3 = p2 + vn.len();
            lemma_lit_char(s, p3, '}');
            // the object member list: key "Other", value the string
            lemma_enc_string_first("Other"@);
            assert(s[i + 1] == ko[0]) by {
                assert(s.subrange(i + 1, i + 1 + ko.len() as int)[0] == s[i + 1]);
            }
            assert(s[i + 1] == '"');
            lemma_skip_ws_at(s, i + 1);
            // key string body
            assert(ko == seq!['"'] + (spec_esc_string("Other"@) + seq!['"'])) by {
                assert(seq!['"'] + (spec_esc_string("Other"@) + seq!['"']) =~= ko);
            }
            lemma_lit_split(s, i + 1, seq!['"'], spec_esc_string("Other"@) + seq!['"']);
            lemma_parse_esc_string(s, "Other"@, i + 2);
            assert(spec_parse_string_body(s, i + 2) == Some(("Other"@, p1)));
            lemma_skip_ws_at(s, p1);
            lemma_enc_string_first(n);
            assert(s[p2] == vn[0]) by {
                assert(s.subrange(p2, p2 + vn.len() as int)[0] == s[p2]);
            }
            lemma_skip_ws_at(s, p2);
            assert(e.len() >= 4);
            assert(s.len() - i >= e.len());
            lemma_parse_enc_string(s, n, p2, (fuel - 2) as nat);
            assert(spec_parse_value(s, p2, (fuel - 2) as nat) == Some((JsonV::Str(n), p3)));
            lemma_skip_ws_at(s, p3);
            assert(s[p3] != ',');
            assert(spec_parse_members(s, i + 1, (fuel - 1) as nat) == Some(
                (seq![("Other"@, JsonV::Str(n))], p3 + 1),
            ));
            assert(s[i] != '"' && s[i] != '[');
            lemma_skip_ws_at(s, i + 1);
            assert(s[i + 1] != '}');
            assert(spec_parse_value(s, i, fuel) == Some(
                (JsonV::Obj(seq![("Other"@, JsonV::Str(n))]), p3 + 1),
            ));
            assert(p3 + 1 == i + e.len());
        },
    }
}

#[verifier::rlimit(80)]
#[verifier::spinoff_prover]
pub proof fn lemma_parse_enc_fields_body(s: Seq<char>, fs: Seq<FieldV>, i: int, fuel: nat)
    requires
        0 <= i <= s.len(),
        fs.len() >= 1,
        fuel >= 2 * (s.len() - i) + 2,
        spec_lit_at(s, i, spec_enc_fields_body(fs) + seq![']']),
    ensures
        spec_parse_elems(s, i, fuel) == Some(
            (spec_fields_json(fs), i + spec_enc_fields_body(fs).len() + 1),
        ),
    decreases fs.len(),
{
    let body = spec_enc_fields_body(fs);
    let e0 = spec_enc_field(fs[0]);
    if fs.len() == 1 {
        lemma_lit_split(s, i, e0, seq![']']);
        let p = i + e0.len();
        lemma_lit_char(s, p, ']');
        lemma_parse_enc_field(s, fs[0], i, (fuel - 1) as nat);
        lemma_skip_ws_at(s, p);
        assert(spec_fields_json(fs) =~= seq![spec_field_json(fs[0])]);
    } else {
        let rest = spec_enc_fields_body(fs.drop_first());
        assert(body + seq![']'] == e0 + (seq![','] + (rest + seq![']']))) by {
            assert(e0 + (seq![','] + (rest + seq![']'])) =~= body + seq![']']);
        }
        lemma_lit_split(s, i, e0, seq![','] + (rest + seq![']']));
        let p = i + e0.len();
        lemma_lit_split(s, p, seq![','], rest + seq![']']);
        lemma_lit_char(s, p, ',');
        lemma_parse_enc_field(s, fs[0], i, (fuel - 1) as nat);
        lemma_skip_ws_at(s, p);
        assert(s[p] != ']');
        let m = p + 1;
        lemma_enc_field_first(fs.drop_first()[0]);
        assert(rest.len() >= 2) by {
            assert(spec_enc_field(fs.drop_first()[0]).len() >= 2);
        }
        assert(s[m] == rest[0]) by {
            assert(s.subrange(m, m + (rest + seq![']']).len() as int)[0] == s[m]);
            assert((rest + seq![']'])[0] == rest[0]);
        }
        assert(rest[0] == spec_enc_fields_body(fs.drop_first())[0]);
        assert(rest[0] == spec_enc_field(fs.drop_first()[0])[0]) by {
            if fs.drop_first().len() == 1 {
            } else {
                assert(spec_enc_fields_body(fs.drop_first())[0] == spec_enc_field(
                    fs.drop_first()[0],
                )[0]);
            }
        }
        assert(!spec_json_ws(s[m]));
        lemma_skip_ws_at(s, m);
        lemma_parse_enc_fields_body(s, fs.drop_first(), m, (fuel - 1) as nat);
        assert(spec_fields_json(fs) == seq![spec_field_json(fs[0])] + spec_fields_json(
            fs.drop_first(),
        ));
        assert(spec_parse_elems(s, i, fuel) == Some(
            (spec_fields_json(fs), i + body.len() + 1),
        ));
    }
}

#[verifier::rlimit(100)]
#[verifier::spinoff_prover]
pub proof fn lemma_parse_enc_item(s: Seq<char>, it: ItemV, i: int, fuel: nat)
    requires
        0 <= i <= s.len(),
        fuel >= 2 * (s.len() - i) + 1,
        spec_lit_at(s, i, spec_enc_item(it)),
    ensures
        spec_parse_value(s, i, fuel) == Some((spec_item_json(it), i + spec_enc_item(it).len())),
{
    lemma_esc_lit_id();
    lemma_esc_lit_title();
    lemma_esc_lit_fields();
    let e = spec_enc_item(it);
    let k1 = spec_enc_string("id"@);
    let v1 = spec_enc_string(it.id);
    let k2 = spec_enc_string("title"@);
    let v2 = spec_enc_string(it.title);
    let k3 = spec_enc_string("fields"@);
    let v3 = spec_enc_fields(it.fields);
    let t9 = seq!['}'];
    let t8 = v3 + t9;
    let t7 = seq![':'] + t8;
    let t6 = k3 + t7;
    let t5 = seq![','] + t6;
    let t4 = v2 + t5;
    let t3 = seq![':'] + t4;
    let t2 = k2 + t3;
    let t1 = seq![','] + t2;
    let t0 = v1 + t1;
    let u2 = seq![':'] + t0;
    let u1 = k1 + u2;
    assert(e == seq!['{'] + u1) by {
        assert(seq!['{'] + u1 =~= e);
    }
    lemma_lit_split(s, i, seq!['{'], u1);
    lemma_lit_char(s, i, '{');
    let a1 = i + 1;
    lemma_lit_split(s, a1, k1, u2);
    let a2 = a1 + k1.len();
    lemma_lit_split(s, a2, seq![':'], t0);
    lemma_lit_char(s, a2, ':');
    let a3 = a2 + 1;
    lemma_lit_split(s, a3, v1, t1);
    let a4 = a3 + v1.len();
    lemma_lit_split(s, a4, seq![','], t2);
    lemma_lit_char(s, a4, ',');
    let a5 = a4 + 1;
    lemma_lit_split(s, a5, k2, t3);
    let a6 = a5 + k2.len();
    lemma_lit_split(s, a6, seq![':'], t4);
    lemma_lit_char(s, a6, ':');
    let a7 = a6 + 1;
    lemma_lit_split(s, a7, v2, t5);
    let a8 = a7 + v2.len();
    lemma_lit_split(s, a8, seq![','], t6);
    lemma_lit_char(s, a8, ',');
    let a9 = a8 + 1;
    lemma_lit_split(s, a9, k3, t7);
    let a10 = a9 + k3.len();
    lemma_lit_split(s, a10, seq![':'], t8);
    lemma_lit_char(s, a10, ':');
    let a11 = a10 + 1;
    lemma_lit_split(s, a11, v3, t9);
    let a12 = a11 + v3.len();
    lemma_lit_char(s, a12, '}');

    // keys parse as string bodies
    lemma_enc_string_first("id"@);
    assert(s[a1] == k1[0]) by {
        assert(s.subrange(a1, a1 + k1.len() as int)[0] == s[a1]);
    }
    lemma_skip_ws_at(s, a1);
    assert(k1 == seq!['"'] + (spec_esc_string("id"@) + seq!['"'])) by {
        assert(seq!['"'] + (spec_esc_string("id"@) + seq!['"']) =~= k1);
    }
    lemma_lit_split(s, a1, seq!['"'], spec_esc_string("id"@) + seq!['"']);
    lemma_parse_esc_string(s, "id"@, a1 + 1);
    assert(spec_parse_string_body(s, a1 + 1) == Some(("id"@, a2)));
    lemma_skip_ws_at(s, a2);

    lemma_enc_string_first(it.id);
    assert(s[a3] == v1[0]) by {
        assert(s.subrange(a3, a3 + v1.len() as int)[0] == s[a3]);
    }
    lemma_skip_ws_at(s, a3);
    lemma_parse_enc_string(s, it.id, a3, (fuel - 2) as nat);
    lemma_skip_ws_at(s, a4);
    assert(s[a4] != '}');

    lemma_enc_string_first("title"@);
    assert(s[a5] == k2[0]) by {
        assert(s.subrange(a5, a5 + k2.len() as int)[0] == s[a5]);
    }
    lemma_skip_ws_at(s, a5);
    assert(k2 == seq!['"'] + (spec_esc_string("title"@) + seq!['"'])) by {
        assert(seq!['"'] + (spec_esc_string("title"@) + seq!['"']) =~= k2);
    }
    lemma_lit_split(s, a5, seq!['"'], spec_esc_string("title"@) + seq!['"']);
    lemma_parse_esc_string(s, "title"@, a5 + 1);
    assert(spec_parse_string_body(s, a5 + 1) == Some(("title"@, a6)));
    lemma_skip_ws_at(s, a6);

    lemma_enc_string_first(it.title);
    assert(s[a7] == v2[0]) by {
        assert(s.subrange(a7, a7 + v2.len() as int)[0] == s[a7]);
    }
    lemma_skip_ws_at(s, a7);
    lemma_parse_enc_string(s, it.title, a7, (fuel - 3) as nat);
    lemma_skip_ws_at(s, a8);
    assert(s[a8] != '}');

    lemma_enc_string_first("fields"@);
    assert(s[a9] == k3[0]) by {
        assert(s.subrange(a9, a9 + k3.len() as int)[0] == s[a9]);
    }
    lemma_skip_ws_at(s, a9);
    assert(k3 == seq!['"'] + (spec_esc_string("fields"@) + seq!['"'])) by {
        assert(seq!['"'] + (spec_esc_string("fields"@) + seq!['"']) =~= k3);
    }
    lemma_lit_split(s, a9, seq!['"'], spec_esc_string("fields"@) + seq!['"']);
    lemma_parse_esc_string(s, "fields"@, a9 + 1);
    assert(spec_parse_string_body(s, a9 + 1) == Some(("fields"@, a10)));
    lemma_skip_ws_at(s, a10);

    // the fields array value
    assert(v3 == seq!['['] + (spec_enc_fields_body(it.fields) + seq![']'])) by {
        assert(seq!['['] + (spec_enc_fields_body(it.fields) + seq![']']) =~= v3);
    }
    lemma_lit_split(s, a11, seq!['['], spec_enc_fields_body(it.fields) + seq![']']);
    lemma_lit_char(s, a11, '[');
    lemma_skip_ws_at(s, a11);
    let fb = spec_enc_fields_body(it.fields);
    let af = a11 + 1;
    if it.fields.len() == 0 {
        assert(fb =~= Seq::<char>::empty());
        lemma_lit_char(s, af, ']');
        lemma_skip_ws_at(s, af);
        assert(spec_parse_value(s, a11, (fuel - 4) as nat) == Some(
            (JsonV::Arr(Seq::empty()), af + 1),
        ));
        assert(spec_fields_json(it.fields) =~= Seq::<JsonV>::empty());
    } else {
        lemma_enc_field_first(it.fields[0]);
        assert(s[af] == fb[0]) by {
            assert(s.subrange(af, af + (fb + seq![']']).len() as int)[0] == s[af]);
            assert((fb + seq![']'])[0] == fb[0]);
        }
        assert(fb[0] == spec_enc_field(it.fields[0])[0]) by {
            if it.fields.len() == 1 {
            } else {
                assert(spec_enc_fields_body(it.fields)[0] == spec_enc_field(it.fields[0])[0]);
            }
        }
        assert(!spec_json_ws(s[af]));
        assert(s[af] != ']');
        lemma_skip_ws_at(s, af);
        lemma_parse_enc_fields_body(s, it.fields, af, (fuel - 5) as nat);
        assert(spec_parse_value(s, a11, (fuel - 4) as nat) == Some(
            (JsonV::Arr(spec_fields_json(it.fields)), a12),
        ));
    }
    lemma_skip_ws_at(s, a12);
    assert(s[a12] != ',');

    // assemble the member chain from the back
    assert(spec_parse_members(s, a9, (fuel - 3) as nat) == Some(
        (seq![("fields"@, JsonV::Arr(spec_fields_json(it.fields)))], a12 + 1),
    ));
    assert(spec_parse_members(s, a5, (fuel - 2) as nat) == Some(
        (
            seq![("title"@, JsonV::Str(it.title))] + seq![
                ("fields"@, JsonV::Arr(spec_fields_json(it.fields))),
            ],
            a12 + 1,
        ),
    ));
    assert(spec_parse_members(s, a1, (fuel - 1) as nat) == Some(
        (
            seq![("id"@, JsonV::Str(it.id))] + (seq![("title"@, JsonV::Str(it.title))] + seq![
                ("fields"@, JsonV::Arr(spec_fields_json(it.fields))),
            ]),
            a12 + 1,
        ),
    ));
    assert(s[i] != '"' && s[i] != '[');
    assert(s[a1] != '}');
    lemma_skip_ws_at(s, a1);
    assert(seq![("id"@, JsonV::Str(it.id))] + (seq![("title"@, JsonV::Str(it.title))] + seq![
        ("fields"@, JsonV::Arr(spec_fields_json(it.fields))),
    ]) =~= seq![
        ("id"@, JsonV::Str(it.id)),
        ("title"@, JsonV::Str(it.title)),
        ("fields"@, JsonV::Arr(spec_fields_json(it.fields))),
    ]);
    assert(spec_parse_value(s, i, fuel) == Some((spec_item_json(it), a12 + 1)));
    assert(a12 + 1 == i + e.len());
}

#[verifier::rlimit(80)]
#[verifier::spinoff_prover]
pub proof fn lemma_parse_enc_items_body(s: Seq<char>, items: Seq<ItemV>, i: int, fuel: nat)
    requires
        0 <= i <= s.len(),
        items.len() >= 1,
        fuel >= 2 * (s.len() - i) + 2,
        spec_lit_at(s, i, spec_enc_items_body(items) + seq![']']),
    ensures
        spec_parse_elems(s, i, fuel) == Some(
            (spec_items_json(items), i + spec_enc_items_body(items).len() + 1),
        ),
    decreases items.len(),
{
    let body = spec_enc_items_body(items);
    let e0 = spec_enc_item(items[0]);
    if items.len() == 1 {
        lemma_lit_split(s, i, e0, seq![']']);
        let p = i + e0.len();
        lemma_lit_char(s, p, ']');
        lemma_parse_enc_item(s, items[0], i, (fuel - 1) as nat);
        lemma_skip_ws_at(s, p);
        assert(spec_items_json(items) =~= seq![spec_item_json(items[0])]);
    } else {
        let rest = spec_enc_items_body(items.drop_first());
        assert(body + seq![']'] == e0 + (seq![','] + (rest + seq![']']))) by {
            assert(e0 + (seq![','] + (rest + seq![']'])) =~= body + seq![']']);
        }
        lemma_lit_split(s, i, e0, seq![','] + (rest + seq![']']));
        let p = i + e0.len();
        lemma_lit_split(s, p, seq![','], rest + seq![']']);
        lemma_lit_char(s, p, ',');
        lemma_parse_enc_item(s, items[0], i, (fuel - 1) as nat);
        lemma_skip_ws_at(s, p);
        assert(s[p] != ']');
        let m = p + 1;
        lemma_enc_item_first(items.drop_first()[0]);
        assert(rest.len() >= 2) by {
            assert(spec_enc_item(items.drop_first()[0]).len() >= 2);
        }
        assert(s[m] == rest[0]) by {
            assert(s.subrange(m, m + (rest + seq![']']).len() as int)[0] == s[m]);
            assert((rest + seq![']'])[0] == rest[0]);
        }
        assert(rest[0] == spec_enc_item(items.drop_first()[0])[0]) by {
            if items.drop_first().len() == 1 {
            } else {
                assert(spec_enc_items_body(items.drop_first())[0] == spec_enc_item(
                    items.drop_first()[0],
                )[0]);
            }
        }
        assert(!spec_json_ws(s[m]));
        lemma_skip_ws_at(s, m);
        lemma_parse_enc_items_body(s, items.drop_first(), m, (fuel - 1) as nat);
        assert(spec_items_json(items) == seq![spec_item_json(items[0])] + spec_items_json(
            items.drop_first(),
        ));
        assert(spec_parse_elems(s, i, fuel) == Some(
            (spec_items_json(items), i + body.len() + 1),
        ));
    }
}

/// Parsing the printed cache file yields exactly the array of item values.
pub proof fn lemma_parse_enc_items(items: Seq<ItemV>)
    ensures
        spec_parse_json(spec_enc_items(items)) == Some(JsonV::Arr(spec_items_json(items))),
{
    let s = spec_enc_items(items);
    let body = spec_enc_items_body(items);
    assert(spec_lit_at(s, 0, s)) by {
        assert(s.subrange(0, s.len() as int) =~= s);
    }
    assert(s == seq!['['] + (body + seq![']'])) by {
        assert(seq!['['] + (body + seq![']']) =~= s);
    }
    lemma_lit_split(s, 0, seq!['['], body + seq![']']);
    lemma_lit_char(s, 0, '[');
    lemma_skip_ws_at(s, 0);
    let fuel = spec_fuel(s);
    if items.len() == 0 {
        assert(body =~= Seq::<char>::empty());
        lemma_lit_char(s, 1, ']');
        lemma_skip_ws_at(s, 1);
        assert(spec_parse_value(s, 0, fuel) == Some((JsonV::Arr(Seq::empty()), 2int)));
        assert(s.len() == 2);
        assert(spec_items_json(items) =~= Seq::<JsonV>::empty());
    } else {
        lemma_enc_item_first(items[0]);
        assert(s[1] == body[0]) by {
            assert(s.subrange(1, 1 + (body + seq![']']).len() as int)[0] == s[1]);
            assert((body + seq![']'])[0] == body[0]);
        }
        assert(body[0] == spec_enc_item(items[0])[0]) by {
            if items.len() == 1 {
            } else {
                assert(spec_enc_items_body(items)[0] == spec_enc_item(items[0])[0]);
            }
        }
        assert(!spec_json_ws(s[1]));
        assert(s[1] != ']');
        lemma_skip_ws_at(s, 1);
        lemma_parse_enc_items_body(s, items, 1, (fuel - 1) as nat);
        assert(spec_parse_value(s, 0, fuel) == Some(
            (JsonV::Arr(spec_items_json(items)), s.len() as int),
        ));
    }
}

/// The field a JSON value stands for, if any.
pub open spec fn spec_field_of_json(v: JsonV) -> Option<FieldV> {
    match v {
        JsonV::Str(x) => if x == "Username"@ {
            Some(FieldV::Username)
        } else if x == "Password"@ {
            Some(FieldV::Password)
        } else if x == "Totp"@ {
            Some(FieldV::Totp)
        } else {
            None
        },
        JsonV::Obj(ms) => if ms.len() == 1 && ms[0].0 == "Other"@ && ms[0].1 is Str {
            Some(FieldV::Other(ms[0].1->Str_0))
        } else {
            None
        },
        _ => None,
    }
}

/// The field list a JSON array stands for, if every element is a field.
pub open spec fn spec_fields_of_json(vs: Seq<JsonV>) -> Option<Seq<FieldV>>
    decreases vs.len(),
{
    if vs.len() == 0 {
        Some(Seq::empty())
    } else {
        match spec_field_of_json(vs[0]) {
            Some(f) => match spec_fields_of_json(vs.drop_first()) {
                Some(fs) => Some(seq![f] + fs),
                None => None,
            },
            None => None,
        }
    }
}

/// The first member of `ms` whose key is `key`, if any.
pub open spec fn spec_obj_get(ms: Seq<(Seq<char>, JsonV)>, key: Seq<char>) -> Option<JsonV>
    decreases ms.len(),
{
    if ms.len() == 0 {
        None
    } else if ms[0].0 == key {
        Some(ms[0].1)
    } else {
        spec_obj_get(ms.drop_first(), key)
    }
}

/// The item a JSON value stands for: an object whose `id` and `title`
/// members are strings and whose `fields` member is an array of fields.
pub open spec fn spec_item_of_json(v: JsonV) -> Option<ItemV> {
    match v {
        JsonV::Obj(ms) => {
            match (spec_obj_get(ms, "id"@), spec_obj_get(ms, "title"@), spec_obj_get(
                ms,
                "fields"@,
            )) {
                (Some(JsonV::Str(id)), Some(JsonV::Str(title)), Some(JsonV::Arr(fvs))) => {
                    match spec_fields_of_json(fvs) {
                        Some(fs) => Some(ItemV { id, title, fields: fs }),
                        None => None,
                    }
                },
                _ => None,
            }
        },
        _ => None,
    }
}

/// The item list a JSON array stands for, if every element is an item.
pub open spec fn spec_items_of_json(vs: Seq<JsonV>) -> Option<Seq<ItemV>>
    decreases vs.len(),
{
    if vs.len() == 0 {
        Some(Seq::empty())
    } else {
        match spec_item_of_json(vs[0]) {
            Some(it) => match spec_items_of_json(vs.drop_first()) {
                Some(its) => Some(seq![it] + its),
                None => None,
            },
            None => None,
        }
    }
}

/// What decoding a cache file yields: the item list of its JSON array, or
/// nothing when the text does not parse or does not have that shape.
pub open spec fn spec_decode_items(s: Seq<char>) -> Option<Seq<ItemV>> {
    match spec_parse_json(s) {
        Some(JsonV::Arr(vs)) => spec_items_of_json(vs),
        _ => None,
    }
}

proof fn lemma_extract_field(f: FieldV)
    ensures
        spec_field_of_json(spec_field_json(f)) == Some(f),
{
    reveal_strlit("Username");
    reveal_strlit("Password");
    reveal_strlit("Totp");
    match f {
        FieldV::Username => {},
        FieldV::Password => {
            assert("Password"@[0] == 'P' && "Username"@[0] == 'U');
        },
        FieldV::Totp => {
            assert("Totp"@.len() == 4 && "Username"@.len() == 8 && "Password"@.len() == 8);
        },
        FieldV::Other(n) => {},
    }
}

proof fn lemma_extract_fields(fs: Seq<FieldV>)
    ensures
        spec_fields_of_json(spec_fields_json(fs)) == Some(fs),
    decreases fs.len(),
{
    if fs.len() == 0 {
        assert(spec_fields_json(fs) =~= Seq::<JsonV>::empty());
    } else {
        let vs = spec_fields_json(fs);
        assert(vs[0] == spec_field_json(fs[0]));
        lemma_extract_field(fs[0]);
        assert(vs.drop_first() =~= spec_fields_json(fs.drop_first()));
        lemma_extract_fields(fs.drop_first());
        assert(seq![fs[0]] + fs.drop_first() =~= fs);
    }
}

#[verifier::rlimit(60)]
#[verifier::spinoff_prover]
proof fn lemma_extract_item(it: ItemV)
    ensures
        spec_item_of_json(spec_item_json(it)) == Some(it),
{
    reveal_strlit("id");
    reveal_strlit("title");
    reveal_strlit("fields");
    let ms = seq![
        ("id"@, JsonV::Str(it.id)),
        ("title"@, JsonV::Str(it.title)),
        ("fields"@, JsonV::Arr(spec_fields_json(it.fields))),
    ];
    assert("id"@.len() == 2 && "title"@.len() == 5 && "fields"@.len() == 6);
    assert("id"@ != "title"@ && "id"@ != "fields"@ && "title"@ != "fields"@);
    assert(spec_obj_get(ms, "id"@) == Some(JsonV::Str(it.id)));
    assert(ms.drop_first()[0] == ms[1]);
    assert(ms.drop_first().drop_first()[0] == ms[2]);
    assert(spec_obj_get(ms, "title"@) == spec_obj_get(ms.drop_first(), "title"@));
    assert(spec_obj_get(ms.drop_first(), "title"@) == Some(ms[1].1));
    assert(spec_obj_get(ms, "fields"@) == spec_obj_get(ms.drop_first(), "fields"@));
    assert(spec_obj_get(ms.drop_first(), "fields"@) == spec_obj_get(
        ms.drop_first().drop_first(),
        "fields"@,
    ));
    assert(spec_obj_get(ms.drop_first().drop_first(), "fields"@) == Some(ms[2].1));
    lemma_extract_fields(it.fields);
    assert(spec_item_of_json(spec_item_json(it)) == Some(ItemV { id: it.id, title: it.title, fields: it.fields }));
    assert(ItemV { id: it.id, title: it.title, fields: it.fields } == it);
}

proof fn lemma_extract_items(items: Seq<ItemV>)
    ensures
        spec_items_of_json(spec_items_json(items)) == Some(items),
    decreases items.len(),
{
    if items.len() == 0 {
        assert(spec_items_json(items) =~= Seq::<JsonV>::empty());
    } else {
        let vs = spec_items_json(items);
        assert(vs[0] == spec_item_json(items[0]));
        lemma_extract_item(items[0]);
        assert(vs.drop_first() =~= spec_items_json(items.drop_first()));
        lemma_extract_items(items.drop_first());
        assert(seq![items[0]] + items.drop_first() =~= items);
    }
}

/// Decoding inverts encoding: reading back a printed cache file yields the
/// item list that was printed, for every item list.
pub proof fn lemma_decode_encode(items: Seq<ItemV>)
    ensures
        spec_decode_items(spec_enc_items(items)) == Some(items),
{
    lemma_parse_enc_items(items);
    lemma_extract_items(items);
}

fn field_of_json(v: &Json) -> (r: Option<Field>)
    ensures
        match r {
            Some(f) => spec_field_of_json(v@) == Some(f@),
            None => spec_field_of_json(v@) is None,
        },
{
    match v {
        Json::Str(x) => {
            if crate::text::str_eq(x.as_str(), "Username") {
                Some(Field::Username)
            } else if crate::text::str_eq(x.as_str(), "Password") {
                Some(Field::Password)
            } else if crate::text::str_eq(x.as_str(), "Totp") {
                Some(Field::Totp)
            } else {
                None
            }
        },
        Json::Obj(ms) => {
            if ms.len() == 1 {
                proof {
                    lemma_obj_view(ms@);
                    assert(v@->Obj_0[0] == (ms@[0].0@, json_view(ms@[0].1)));
                }
                if crate::text::str_eq(ms[0].0.as_str(), "Other") {
                    match &ms[0].1 {
                        Json::Str(n) => Some(Field::Other(n.clone())),
                        _ => None,
                    }
                } else {
                    None
                }
            } else {
                proof {
                    lemma_obj_view(ms@);
                }
                None
            }
        },
        _ => None,
    }
}

fn fields_of_json(vs: &Vec<Json>) -> (r: Option<Vec<Field>>)
    ensures
        match r {
            Some(fs) => spec_fields_of_json(json_arr_view(vs@)) == Some(fs.deep_view()),
            None => spec_fields_of_json(json_arr_view(vs@)) is None,
        },
{
    let ghost whole = json_arr_view(vs@);
    proof {
        lemma_arr_view(vs@);
    }
    let n = vs.len();
    let mut out: Vec<Field> = Vec::new();
    let mut i: usize = 0;
    proof {
        assert(whole.skip(0) =~= whole);
    }
    while i < n
        invariant
            n == vs@.len(),
            whole == json_arr_view(vs@),
            whole.len() == n,
            forall|t: int| 0 <= t < n ==> whole[t] == json_view(vs@[t]),
            i <= n,
            match spec_fields_of_json(whole.skip(i as int)) {
                Some(rest) => spec_fields_of_json(whole) == Some(out.deep_view() + rest),
                None => spec_fields_of_json(whole) is None,
            },
        decreases n - i,
    {
        let ghost suffix = whole.skip(i as int);
        proof {
            assert(suffix[0] == whole[i as int]);
            assert(suffix.drop_first() =~= whole.skip(i as int + 1));
        }
        match field_of_json(&vs[i]) {
            Some(f) => {
                let ghost old_out = out.deep_view();
                let ghost fv = f@;
                out.push(f);
                proof {
                    assert(out.deep_view() =~= old_out.push(fv));
                    if spec_fields_of_json(whole.skip(i as int + 1)) is Some {
                        let rest2 = spec_fields_of_json(whole.skip(i as int + 1))->Some_0;
                        assert(spec_fields_of_json(suffix) == Some(seq![fv] + rest2));
                        assert(old_out.push(fv) + rest2 =~= old_out + (seq![fv] + rest2));
                    }
                }
            },
            None => {
                return None;
            },
        }
        i += 1;
    }
    proof {
        assert(whole.skip(n as int) =~= Seq::<JsonV>::empty());
        assert(spec_fields_of_json(whole) == Some(out.deep_view() + Seq::<FieldV>::empty()));
        assert(out.deep_view() + Seq::<FieldV>::empty() =~= out.deep_view());
    }
    Some(out)
}

pub(crate) fn obj_get<'a>(ms: &'a Vec<(String, Json)>, key: &str) -> (r: Option<&'a Json>)
    ensures
        match r {
            Some(v) => spec_obj_get(json_obj_view(ms@), key@) == Some(v@),
            None => spec_obj_get(json_obj_view(ms@), key@) is None,
        },
{
    let ghost whole = json_obj_view(ms@);
    proof {
        lemma_obj_view(ms@);
    }
    let n = ms.len();
    let mut i: usize = 0;
    proof {
        assert(whole.skip(0) =~= whole);
    }
    while i < n
        invariant
            n == ms@.len(),
            whole == json_obj_view(ms@),
            whole.len() == n,
            forall|t: int| 0 <= t < n ==> whole[t] == (ms@[t].0@, json_view(ms@[t].1)),
            i <= n,
            spec_obj_get(whole, key@) == spec_obj_get(whole.skip(i as int), key@),
        decreases n - i,
    {
        proof {
            assert(whole.skip(i as int)[0] == whole[i as int]);
            assert(whole.skip(i as int).drop_first() =~= whole.skip(i as int + 1));
        }
        if crate::text::str_eq(ms[i].0.as_str(), key) {
            return Some(&ms[i].1);
        }
        i += 1;
    }
    proof {
        assert(whole.skip(n as int) =~= Seq::<(Seq<char>, JsonV)>::empty());
    }
    None
}

fn item_of_json(v: &Json) -> (r: Option<Item>)
    ensures
        match r {
            Some(it) => spec_item_of_json(v@) == Some(it@),
            None => spec_item_of_json(v@) is None,
        },
{
    match v {
        Json::Obj(ms) => {
            let id = match obj_get(ms, "id") {
                Some(Json::Str(id)) => id.clone(),
                Some(_) => {
                    return None;
                },
                None => {
                    return None;
                },
            };
            let title = match obj_get(ms, "title") {
                Some(Json::Str(title)) => title.clone(),
                Some(_) => {
                    return None;
                },
                None => {
                    return None;
                },
            };
            match obj_get(ms, "fields") {
                Some(Json::Arr(fvs)) => {
                    match fields_of_json(fvs) {
                        Some(fields) => Some(Item { id, title, fields }),
                        None => None,
                    }
                },
                Some(_) => None,
                None => None,
            }
        },
        _ => None,
    }
}

/// Reads a cache file text back into an item list; `None` when the text is
/// not the JSON array of items this crate prints.
#[verifier::rlimit(60)]
pub fn decode_items(text: &str) -> (r: Option<Vec<Item>>)
    ensures
        match r {
            Some(items) => spec_decode_items(text@) == Some(items.deep_view()),
            None => spec_decode_items(text@) is None,
        },
{
    let parsed = match parse_json(text) {
        Some(v) => v,
        None => {
            return None;
        },
    };
    match &parsed {
        Json::Arr(vs) => {
            let ghost whole = json_arr_view(vs@);
            proof {
                assert(parsed@ == JsonV::Arr(json_arr_view(vs@)));
                lemma_arr_view(vs@);
            }
            let n = vs.len();
            let mut out: Vec<Item> = Vec::new();
            let mut i: usize = 0;
            proof {
                assert(whole.skip(0) =~= whole);
            }
            while i < n
                invariant
                    n == vs@.len(),
                    whole == json_arr_view(vs@),
                    whole.len() == n,
                    parsed@ == JsonV::Arr(whole),
                    spec_parse_json(text@) == Some(parsed@),
                    forall|t: int| 0 <= t < n ==> whole[t] == json_view(vs@[t]),
                    i <= n,
                    match spec_items_of_json(whole.skip(i as int)) {
                        Some(rest) => spec_items_of_json(whole) == Some(out.deep_view() + rest),
                        None => spec_items_of_json(whole) is None,
                    },
                decreases n - i,
            {
                let ghost suffix = whole.skip(i as int);
                proof {
                    assert(suffix[0] == whole[i as int]);
                    assert(suffix.drop_first() =~= whole.skip(i as int + 1));
                }
                match item_of_json(&vs[i]) {
                    Some(it) => {
                        let ghost old_out = out.deep_view();
                        let ghost itv = it@;
                        out.push(it);
                        proof {
                            assert(out.deep_view() =~= old_out.push(itv));
                            if spec_items_of_json(whole.skip(i as int + 1)) is Some {
                                let rest2 = spec_items_of_json(whole.skip(i as int + 1))->Some_0;
                                assert(spec_items_of_json(suffix) == Some(seq![itv] + rest2));
                                assert(old_out.push(itv) + rest2 =~= old_out + (seq![itv] + rest2));
                            }
                        }
                    },
                    None => {
                        proof {
                            assert(spec_items_of_json(suffix) is None);
                            assert(spec_items_of_json(whole) is None);
                            assert(parsed@ == JsonV::Arr(whole));
                        }
                        return None;
                    },
                }
                i += 1;
            }
            proof {
                assert(whole.skip(n as int) =~= Seq::<JsonV>::empty());
                assert(spec_items_of_json(whole) == Some(out.deep_view() + Seq::<ItemV>::empty()));
                assert(out.deep_view() + Seq::<ItemV>::empty() =~= out.deep_view());
            }
            Some(out)
        },
        _ => None,
    }
}

} // verus!
