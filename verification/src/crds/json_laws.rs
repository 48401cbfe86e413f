//! The canonical JSON form determines the spec: no two specs serialize to
//! the same annotation. This is what lets the drift check compare
//! serializations, and what makes decoding an annotation unambiguous.

use vstd::prelude::*;
use crate::crds::defs::{FunctionResourcesView, OpenFaasFunctionSpecView};
use crate::crds::json::{esc_char, hex_digit, json_escaped, json_list_items, json_map_entries,
    json_of_spec, json_opt_bool, json_opt_list, json_opt_map, json_opt_resources,
    json_opt_string, json_resources, json_string, json_tail_annotations, json_tail_constraints,
    json_tail_env_process, json_tail_env_vars, json_tail_image, json_tail_labels,
    json_tail_limits, json_tail_mount_path, json_tail_namespace, json_tail_read_only,
    json_tail_requests, json_tail_secrets};

verus! {

/// Characters the encoder writes in escaped form.
pub open spec fn is_escaped_char(c: char) -> bool {
    c == '"' || c == '\\' || (c as u32) < 0x20
}

proof fn lemma_cancel(p: Seq<char>, r1: Seq<char>, r2: Seq<char>)
    requires
        p + r1 == p + r2,
    ensures
        r1 == r2,
{
    assert(r1 =~= (p + r1).skip(p.len() as int));
    assert(r2 =~= (p + r2).skip(p.len() as int));
}

proof fn lemma_heads_tails<A>(a: Seq<A>, b: Seq<A>)
    requires
        a.len() > 0,
        b.len() > 0,
        a[0] == b[0],
        a.drop_first() == b.drop_first(),
    ensures
        a == b,
{
    assert(a.subrange(1, a.len() as int).len() == a.len() - 1);
    assert(b.subrange(1, b.len() as int).len() == b.len() - 1);
    assert(a.drop_first() == a.subrange(1, a.len() as int));
    assert(b.drop_first() == b.subrange(1, b.len() as int));
    assert(a.len() == b.len());
    assert forall|i: int| 0 <= i < a.len() implies a[i] == b[i] by {
        if i > 0 {
            assert(a.subrange(1, a.len() as int)[i - 1] == a[i]);
            assert(b.subrange(1, b.len() as int)[i - 1] == b[i]);
            assert(a.drop_first() == a.subrange(1, a.len() as int));
            assert(b.drop_first() == b.subrange(1, b.len() as int));
        }
    }
    assert(a =~= b);
}

proof fn lemma_esc_char_first(c: char)
    ensures
        esc_char(c).len() >= 1,
        esc_char(c)[0] != '"',
        !is_escaped_char(c) ==> esc_char(c) == seq![c],
        is_escaped_char(c) ==> esc_char(c)[0] == '\\' && esc_char(c).len() >= 2,
{
}

pub(crate) proof fn lemma_char_code_inj(a: char, b: char)
    requires
        (a as u32) == (b as u32),
    ensures
        a == b,
{
    vstd::utf8::char_u32_cast(a, a as u32);
    vstd::utf8::char_u32_cast(b, b as u32);
}

pub(crate) proof fn lemma_hex_digit_inj(a: int, b: int)
    requires
        0 <= a < 16,
        0 <= b < 16,
        hex_digit(a) == hex_digit(b),
    ensures
        a == b,
{
}

/// A string-literal body followed by its closing quote delimits itself: two
/// decompositions of the same text agree.
#[verifier::rlimit(80)]
proof fn lemma_escaped_token(x: Seq<char>, y: Seq<char>, r1: Seq<char>, r2: Seq<char>)
    requires
        json_escaped(x) + (seq!['"'] + r1) == json_escaped(y) + (seq!['"'] + r2),
    ensures
        x == y,
        r1 == r2,
    decreases x.len(),
{
    let t1 = json_escaped(x) + (seq!['"'] + r1);
    let t2 = json_escaped(y) + (seq!['"'] + r2);
    if x.len() == 0 {
        assert(json_escaped(x) =~= Seq::<char>::empty());
        assert(t1[0] == '"');
        if y.len() == 0 {
            assert(json_escaped(y) =~= Seq::<char>::empty());
            assert(r1 =~= t1.skip(1));
            assert(r2 =~= t2.skip(1));
            assert(x =~= y);
        } else {
            lemma_esc_char_first(y[0]);
            assert(t2[0] == esc_char(y[0])[0]);
            assert(false);
        }
    } else if y.len() == 0 {
        assert(json_escaped(y) =~= Seq::<char>::empty());
        assert(t2[0] == '"');
        lemma_esc_char_first(x[0]);
        assert(t1[0] == esc_char(x[0])[0]);
        assert(false);
    } else {
        let cx = x[0];
        let cy = y[0];
        lemma_esc_char_first(cx);
        lemma_esc_char_first(cy);
        assert(t1[0] == esc_char(cx)[0]);
        assert(t2[0] == esc_char(cy)[0]);
        if !is_escaped_char(cx) && !is_escaped_char(cy) {
            assert(cx == cy);
            assert(json_escaped(x.drop_first()) + (seq!['"'] + r1) =~= t1.skip(1));
            assert(json_escaped(y.drop_first()) + (seq!['"'] + r2) =~= t2.skip(1));
            lemma_escaped_token(x.drop_first(), y.drop_first(), r1, r2);
            lemma_heads_tails(x, y);
        } else if is_escaped_char(cx) && !is_escaped_char(cy) {
            assert(t2[0] == cy);
            assert(cy != '\\');
            assert(false);
        } else if !is_escaped_char(cx) && is_escaped_char(cy) {
            assert(t1[0] == cx);
            assert(cx != '\\');
            assert(false);
        } else {
            assert(t1[1] == esc_char(cx)[1]);
            assert(t2[1] == esc_char(cy)[1]);
            if cx == '"' || cx == '\\' {
                if cy == '"' || cy == '\\' {
                    assert(esc_char(cx)[1] == (if cx == '"' {
                        '"'
                    } else {
                        '\\'
                    }));
                    assert(esc_char(cy)[1] == (if cy == '"' {
                        '"'
                    } else {
                        '\\'
                    }));
                    assert(cx == cy);
                    assert(json_escaped(x.drop_first()) + (seq!['"'] + r1) =~= t1.skip(2));
                    assert(json_escaped(y.drop_first()) + (seq!['"'] + r2) =~= t2.skip(2));
                    lemma_escaped_token(x.drop_first(), y.drop_first(), r1, r2);
                    lemma_heads_tails(x, y);
                } else {
                    assert(esc_char(cy)[1] == 'u');
                    assert(false);
                }
            } else {
                if cy == '"' || cy == '\\' {
                    assert(esc_char(cx)[1] == 'u');
                    assert(false);
                } else {
                    let ux = (cx as u32) as int;
                    let uy = (cy as u32) as int;
                    assert(esc_char(cx).len() == 6);
                    assert(esc_char(cy).len() == 6);
                    assert(t1[4] == esc_char(cx)[4]);
                    assert(t1[5] == esc_char(cx)[5]);
                    assert(t2[4] == esc_char(cy)[4]);
                    assert(t2[5] == esc_char(cy)[5]);
                    assert(esc_char(cx)[4] == hex_digit(ux / 16));
                    assert(esc_char(cx)[5] == hex_digit(ux % 16));
                    assert(esc_char(cy)[4] == hex_digit(uy / 16));
                    assert(esc_char(cy)[5] == hex_digit(uy % 16));
                    lemma_hex_digit_inj(ux / 16, uy / 16);
                    lemma_hex_digit_inj(ux % 16, uy % 16);
                    vstd::arithmetic::div_mod::lemma_fundamental_div_mod(ux, 16);
                    vstd::arithmetic::div_mod::lemma_fundamental_div_mod(uy, 16);
                    assert(ux == uy);
                    lemma_char_code_inj(cx, cy);
                    assert(json_escaped(x.drop_first()) + (seq!['"'] + r1) =~= t1.skip(6));
                    assert(json_escaped(y.drop_first()) + (seq!['"'] + r2) =~= t2.skip(6));
                    lemma_escaped_token(x.drop_first(), y.drop_first(), r1, r2);
                    lemma_heads_tails(x, y);
                }
            }
        }
    }
}

/// A JSON string literal delimits itself.
pub(crate) proof fn lemma_string_token(x: Seq<char>, y: Seq<char>, r1: Seq<char>, r2: Seq<char>)
    requires
        json_string(x) + r1 == json_string(y) + r2,
    ensures
        x == y,
        r1 == r2,
{
    let t1 = json_string(x) + r1;
    let t2 = json_string(y) + r2;
    assert(json_escaped(x) + (seq!['"'] + r1) =~= t1.skip(1));
    assert(json_escaped(y) + (seq!['"'] + r2) =~= t2.skip(1));
    lemma_escaped_token(x, y, r1, r2);
}

/// A string-or-null value delimits itself.
pub(crate) proof fn lemma_opt_string_token(
    o1: Option<Seq<char>>,
    o2: Option<Seq<char>>,
    r1: Seq<char>,
    r2: Seq<char>,
)
    requires
        json_opt_string(o1) + r1 == json_opt_string(o2) + r2,
    ensures
        o1 == o2,
        r1 == r2,
{
    reveal_strlit("null");
    match (o1, o2) {
        (None, None) => {
            lemma_cancel("null"@, r1, r2);
        },
        (None, Some(s)) => {
            assert(("null"@ + r1)[0] == 'n');
            assert((json_string(s) + r2)[0] == '"');
            assert(false);
        },
        (Some(s), None) => {
            assert(("null"@ + r2)[0] == 'n');
            assert((json_string(s) + r1)[0] == '"');
            assert(false);
        },
        (Some(a), Some(b)) => {
            lemma_string_token(a, b, r1, r2);
        },
    }
}

/// A boolean-or-null value delimits itself.
pub(crate) proof fn lemma_opt_bool_token(o1: Option<bool>, o2: Option<bool>, r1: Seq<char>, r2: Seq<char>)
    requires
        json_opt_bool(o1) + r1 == json_opt_bool(o2) + r2,
    ensures
        o1 == o2,
        r1 == r2,
{
    reveal_strlit("null");
    reveal_strlit("true");
    reveal_strlit("false");
    let t1 = json_opt_bool(o1) + r1;
    let t2 = json_opt_bool(o2) + r2;
    if o1 == o2 {
        lemma_cancel(json_opt_bool(o1), r1, r2);
    } else {
        assert(t1[0] == (match o1 {
            None => 'n',
            Some(true) => 't',
            Some(false) => 'f',
        }));
        assert(t2[0] == (match o2 {
            None => 'n',
            Some(true) => 't',
            Some(false) => 'f',
        }));
        assert(false);
    }
}

/// The items of a string array, up to the closing bracket, delimit
/// themselves.
#[verifier::rlimit(80)]
pub(crate) proof fn lemma_list_items_token(
    l1: Seq<Seq<char>>,
    l2: Seq<Seq<char>>,
    r1: Seq<char>,
    r2: Seq<char>,
)
    requires
        json_list_items(l1) + (seq![']'] + r1) == json_list_items(l2) + (seq![']'] + r2),
    ensures
        l1 == l2,
        r1 == r2,
    decreases l1.len(),
{
    let t1 = json_list_items(l1) + (seq![']'] + r1);
    let t2 = json_list_items(l2) + (seq![']'] + r2);
    if l1.len() == 0 && l2.len() == 0 {
        assert(r1 =~= t1.skip(1));
        assert(r2 =~= t2.skip(1));
        assert(l1 =~= l2);
    } else if l1.len() == 0 {
        assert(t1[0] == ']');
        assert(t2[0] == '"');
        assert(false);
    } else if l2.len() == 0 {
        assert(t2[0] == ']');
        assert(t1[0] == '"');
        assert(false);
    } else {
        let rest1: Seq<char> = if l1.len() == 1 {
            seq![']'] + r1
        } else {
            seq![','] + (json_list_items(l1.drop_first()) + (seq![']'] + r1))
        };
        let rest2: Seq<char> = if l2.len() == 1 {
            seq![']'] + r2
        } else {
            seq![','] + (json_list_items(l2.drop_first()) + (seq![']'] + r2))
        };
        assert(t1 =~= json_string(l1[0]) + rest1);
        assert(t2 =~= json_string(l2[0]) + rest2);
        lemma_string_token(l1[0], l2[0], rest1, rest2);
        if l1.len() == 1 && l2.len() == 1 {
            assert(r1 =~= rest1.skip(1));
            assert(r2 =~= rest2.skip(1));
            assert(l1 =~= l2);
        } else if l1.len() == 1 {
            assert(rest1[0] == ']');
            assert(rest2[0] == ',');
            assert(false);
        } else if l2.len() == 1 {
            assert(rest2[0] == ']');
            assert(rest1[0] == ',');
            assert(false);
        } else {
            assert(json_list_items(l1.drop_first()) + (seq![']'] + r1) =~= rest1.skip(1));
            assert(json_list_items(l2.drop_first()) + (seq![']'] + r2) =~= rest2.skip(1));
            lemma_list_items_token(l1.drop_first(), l2.drop_first(), r1, r2);
            lemma_heads_tails(l1, l2);
        }
    }
}

/// An array-or-null value delimits itself.
pub(crate) proof fn lemma_opt_list_token(
    o1: Option<Seq<Seq<char>>>,
    o2: Option<Seq<Seq<char>>>,
    r1: Seq<char>,
    r2: Seq<char>,
)
    requires
        json_opt_list(o1) + r1 == json_opt_list(o2) + r2,
    ensures
        o1 == o2,
        r1 == r2,
{
    reveal_strlit("null");
    let t1 = json_opt_list(o1) + r1;
    let t2 = json_opt_list(o2) + r2;
    match (o1, o2) {
        (None, None) => {
            lemma_cancel("null"@, r1, r2);
        },
        (None, Some(l)) => {
            assert(t1[0] == 'n');
            assert(t2[0] == '[');
            assert(false);
        },
        (Some(l), None) => {
            assert(t2[0] == 'n');
            assert(t1[0] == '[');
            assert(false);
        },
        (Some(a), Some(b)) => {
            assert(json_list_items(a) + (seq![']'] + r1) =~= t1.skip(1));
            assert(json_list_items(b) + (seq![']'] + r2) =~= t2.skip(1));
            lemma_list_items_token(a, b, r1, r2);
        },
    }
}

/// The entries of a string object, up to the closing brace, delimit
/// themselves.
#[verifier::rlimit(80)]
pub(crate) proof fn lemma_map_entries_token(
    m1: Seq<(Seq<char>, Seq<char>)>,
    m2: Seq<(Seq<char>, Seq<char>)>,
    r1: Seq<char>,
    r2: Seq<char>,
)
    requires
        json_map_entries(m1) + (seq!['}'] + r1) == json_map_entries(m2) + (seq!['}'] + r2),
    ensures
        m1 == m2,
        r1 == r2,
    decreases m1.len(),
{
    let t1 = json_map_entries(m1) + (seq!['}'] + r1);
    let t2 = json_map_entries(m2) + (seq!['}'] + r2);
    if m1.len() == 0 && m2.len() == 0 {
        assert(r1 =~= t1.skip(1));
        assert(r2 =~= t2.skip(1));
        assert(m1 =~= m2);
    } else if m1.len() == 0 {
        assert(t1[0] == '}');
        assert(t2[0] == '"');
        assert(false);
    } else if m2.len() == 0 {
        assert(t2[0] == '}');
        assert(t1[0] == '"');
        assert(false);
    } else {
        let rest1: Seq<char> = if m1.len() == 1 {
            seq!['}'] + r1
        } else {
            seq![','] + (json_map_entries(m1.drop_first()) + (seq!['}'] + r1))
        };
        let rest2: Seq<char> = if m2.len() == 1 {
            seq!['}'] + r2
        } else {
            seq![','] + (json_map_entries(m2.drop_first()) + (seq!['}'] + r2))
        };
        assert(t1 =~= json_string(m1[0].0) + (seq![':'] + (json_string(m1[0].1) + rest1)));
        assert(t2 =~= json_string(m2[0].0) + (seq![':'] + (json_string(m2[0].1) + rest2)));
        lemma_string_token(
            m1[0].0,
            m2[0].0,
            seq![':'] + (json_string(m1[0].1) + rest1),
            seq![':'] + (json_string(m2[0].1) + rest2),
        );
        lemma_cancel(
            seq![':'],
            json_string(m1[0].1) + rest1,
            json_string(m2[0].1) + rest2,
        );
        lemma_string_token(m1[0].1, m2[0].1, rest1, rest2);
        if m1.len() == 1 && m2.len() == 1 {
            assert(r1 =~= rest1.skip(1));
            assert(r2 =~= rest2.skip(1));
            assert(m1[0] == m2[0]);
            assert(m1 =~= m2);
        } else if m1.len() == 1 {
            assert(rest1[0] == '}');
            assert(rest2[0] == ',');
            assert(false);
        } else if m2.len() == 1 {
            assert(rest2[0] == '}');
            assert(rest1[0] == ',');
            assert(false);
        } else {
            assert(json_map_entries(m1.drop_first()) + (seq!['}'] + r1) =~= rest1.skip(1));
            assert(json_map_entries(m2.drop_first()) + (seq!['}'] + r2) =~= rest2.skip(1));
            lemma_map_entries_token(m1.drop_first(), m2.drop_first(), r1, r2);
            assert(m1[0] == m2[0]);
            lemma_heads_tails(m1, m2);
        }
    }
}

/// An object-or-null value delimits itself.
pub(crate) proof fn lemma_opt_map_token(
    o1: Option<Seq<(Seq<char>, Seq<char>)>>,
    o2: Option<Seq<(Seq<char>, Seq<char>)>>,
    r1: Seq<char>,
    r2: Seq<char>,
)
    requires
        json_opt_map(o1) + r1 == json_opt_map(o2) + r2,
    ensures
        o1 == o2,
        r1 == r2,
{
    reveal_strlit("null");
    let t1 = json_opt_map(o1) + r1;
    let t2 = json_opt_map(o2) + r2;
    match (o1, o2) {
        (None, None) => {
            lemma_cancel("null"@, r1, r2);
        },
        (None, Some(m)) => {
            assert(t1[0] == 'n');
            assert(t2[0] == '{');
            assert(false);
        },
        (Some(m), None) => {
            assert(t2[0] == 'n');
            assert(t1[0] == '{');
            assert(false);
        },
        (Some(a), Some(b)) => {
            assert(json_map_entries(a) + (seq!['}'] + r1) =~= t1.skip(1));
            assert(json_map_entries(b) + (seq!['}'] + r2) =~= t2.skip(1));
            lemma_map_entries_token(a, b, r1, r2);
        },
    }
}

/// A resources object delimits itself.
#[verifier::rlimit(80)]
pub(crate) proof fn lemma_resources_token(
    f1: FunctionResourcesView,
    f2: FunctionResourcesView,
    r1: Seq<char>,
    r2: Seq<char>,
)
    requires
        json_resources(f1) + r1 == json_resources(f2) + r2,
    ensures
        f1 == f2,
        r1 == r2,
{
    let m1 = json_opt_string(f1.memory) + (",\"cpu\":"@ + (json_opt_string(f1.cpu) + (seq!['}']
        + r1)));
    let m2 = json_opt_string(f2.memory) + (",\"cpu\":"@ + (json_opt_string(f2.cpu) + (seq!['}']
        + r2)));
    assert(json_resources(f1) + r1 =~= "{\"memory\":"@ + m1);
    assert(json_resources(f2) + r2 =~= "{\"memory\":"@ + m2);
    lemma_cancel("{\"memory\":"@, m1, m2);
    lemma_opt_string_token(
        f1.memory,
        f2.memory,
        ",\"cpu\":"@ + (json_opt_string(f1.cpu) + (seq!['}'] + r1)),
        ",\"cpu\":"@ + (json_opt_string(f2.cpu) + (seq!['}'] + r2)),
    );
    lemma_cancel(
        ",\"cpu\":"@,
        json_opt_string(f1.cpu) + (seq!['}'] + r1),
        json_opt_string(f2.cpu) + (seq!['}'] + r2),
    );
    lemma_opt_string_token(f1.cpu, f2.cpu, seq!['}'] + r1, seq!['}'] + r2);
    lemma_cancel(seq!['}'], r1, r2);
    assert(f1 =~= f2);
}

/// A resources-or-null value delimits itself.
pub(crate) proof fn lemma_opt_resources_token(
    o1: Option<FunctionResourcesView>,
    o2: Option<FunctionResourcesView>,
    r1: Seq<char>,
    r2: Seq<char>,
)
    requires
        json_opt_resources(o1) + r1 == json_opt_resources(o2) + r2,
    ensures
        o1 == o2,
        r1 == r2,
{
    reveal_strlit("null");
    reveal_strlit("{\"memory\":");
    let t1 = json_opt_resources(o1) + r1;
    let t2 = json_opt_resources(o2) + r2;
    match (o1, o2) {
        (None, None) => {
            lemma_cancel("null"@, r1, r2);
        },
        (None, Some(f)) => {
            assert(t1[0] == 'n');
            assert(t2 =~= "{\"memory\":"@ + (json_opt_string(f.memory) + (",\"cpu\":"@ + (
            json_opt_string(f.cpu) + (seq!['}'] + r2)))));
            assert(t2[0] == '{');
            assert(false);
        },
        (Some(f), None) => {
            assert(t2[0] == 'n');
            assert(t1 =~= "{\"memory\":"@ + (json_opt_string(f.memory) + (",\"cpu\":"@ + (
            json_opt_string(f.cpu) + (seq!['}'] + r1)))));
            assert(t1[0] == '{');
            assert(false);
        },
        (Some(a), Some(b)) => {
            lemma_resources_token(a, b, r1, r2);
        },
    }
}

/// Law: the canonical serialization is injective. Two specs with the same
/// JSON are the same spec, so the last-applied annotation pins down exactly
/// which spec produced an owned Deployment.
#[verifier::rlimit(80)]
pub proof fn lemma_json_of_spec_injective(a: OpenFaasFunctionSpecView, b: OpenFaasFunctionSpecView)
    requires
        json_of_spec(a) == json_of_spec(b),
    ensures
        a == b,
{
    lemma_cancel(
        "{\"service\":"@,
        json_string(a.service) + json_tail_image(a),
        json_string(b.service) + json_tail_image(b),
    );
    lemma_string_token(a.service, b.service, json_tail_image(a), json_tail_image(b));
    lemma_cancel(
        ",\"image\":"@,
        json_string(a.image) + json_tail_namespace(a),
        json_string(b.image) + json_tail_namespace(b),
    );
    lemma_string_token(a.image, b.image, json_tail_namespace(a), json_tail_namespace(b));
    lemma_cancel(
        ",\"namespace\":"@,
        json_opt_string(a.namespace) + json_tail_env_process(a),
        json_opt_string(b.namespace) + json_tail_env_process(b),
    );
    lemma_opt_string_token(
        a.namespace,
        b.namespace,
        json_tail_env_process(a),
        json_tail_env_process(b),
    );
    lemma_cancel(
        ",\"envProcess\":"@,
        json_opt_string(a.env_process) + json_tail_env_vars(a),
        json_opt_string(b.env_process) + json_tail_env_vars(b),
    );
    lemma_opt_string_token(
        a.env_process,
        b.env_process,
        json_tail_env_vars(a),
        json_tail_env_vars(b),
    );
    lemma_cancel(
        ",\"envVars\":"@,
        json_opt_map(a.env_vars) + json_tail_constraints(a),
        json_opt_map(b.env_vars) + json_tail_constraints(b),
    );
    lemma_opt_map_token(
        a.env_vars,
        b.env_vars,
        json_tail_constraints(a),
        json_tail_constraints(b),
    );
    lemma_cancel(
        ",\"constraints\":"@,
        json_opt_list(a.constraints) + json_tail_secrets(a),
        json_opt_list(b.constraints) + json_tail_secrets(b),
    );
    lemma_opt_list_token(
        a.constraints,
        b.constraints,
        json_tail_secrets(a),
        json_tail_secrets(b),
    );
    lemma_cancel(
        ",\"secrets\":"@,
        json_opt_list(a.secrets) + json_tail_labels(a),
        json_opt_list(b.secrets) + json_tail_labels(b),
    );
    lemma_opt_list_token(a.secrets, b.secrets, json_tail_labels(a), json_tail_labels(b));
    lemma_cancel(
        ",\"labels\":"@,
        json_opt_map(a.labels) + json_tail_annotations(a),
        json_opt_map(b.labels) + json_tail_annotations(b),
    );
    lemma_opt_map_token(a.labels, b.labels, json_tail_annotations(a), json_tail_annotations(b));
    lemma_cancel(
        ",\"annotations\":"@,
        json_opt_map(a.annotations) + json_tail_limits(a),
        json_opt_map(b.annotations) + json_tail_limits(b),
    );
    lemma_opt_map_token(a.annotations, b.annotations, json_tail_limits(a), json_tail_limits(b));
    lemma_cancel(
        ",\"limits\":"@,
        json_opt_resources(a.limits) + json_tail_requests(a),
        json_opt_resources(b.limits) + json_tail_requests(b),
    );
    lemma_opt_resources_token(
        a.limits,
        b.limits,
        json_tail_requests(a),
        json_tail_requests(b),
    );
    lemma_cancel(
        ",\"requests\":"@,
        json_opt_resources(a.requests) + json_tail_read_only(a),
        json_opt_resources(b.requests) + json_tail_read_only(b),
    );
    lemma_opt_resources_token(
        a.requests,
        b.requests,
        json_tail_read_only(a),
        json_tail_read_only(b),
    );
    lemma_cancel(
        ",\"readOnlyRootFilesystem\":"@,
        json_opt_bool(a.read_only_root_filesystem) + json_tail_mount_path(a),
        json_opt_bool(b.read_only_root_filesystem) + json_tail_mount_path(b),
    );
    lemma_opt_bool_token(
        a.read_only_root_filesystem,
        b.read_only_root_filesystem,
        json_tail_mount_path(a),
        json_tail_mount_path(b),
    );
    lemma_cancel(
        ",\"secretsMountPath\":"@,
        json_opt_string(a.secrets_mount_path) + seq!['}'],
        json_opt_string(b.secrets_mount_path) + seq!['}'],
    );
    lemma_opt_string_token(
        a.secrets_mount_path,
        b.secrets_mount_path,
        seq!['}'],
        seq!['}'],
    );
    assert(a =~= b);
}

} // verus!
