//! The canonical JSON form of a spec, written into the last-applied
//! annotation of every owned Deployment.
//!
//! The encoder is deterministic: fields appear in declaration order under
//! their camelCase names, absent options are written as `null`, and mappings
//! are written in their canonical key order. The decoder accepts exactly the
//! encoder's output: whatever it returns re-encodes to its input, so an
//! annotation either yields the spec that produced it or is treated as
//! corrupted.

use vstd::prelude::*;
use vstd::string::*;
use crate::crds::defs::{FunctionResources, FunctionResourcesView, OpenFaasFunctionSpec,
    OpenFaasFunctionSpecView};
use crate::string_map::{chars_lt, sm_sorted, str_eq, StringMap};
use crate::utils::push_char;

verus! {

/// The lowercase hexadecimal digit for `n`.
pub open spec fn hex_digit(n: int) -> char {
    if n == 0 {
        '0'
    } else if n == 1 {
        '1'
    } else if n == 2 {
        '2'
    } else if n == 3 {
        '3'
    } else if n == 4 {
        '4'
    } else if n == 5 {
        '5'
    } else if n == 6 {
        '6'
    } else if n == 7 {
        '7'
    } else if n == 8 {
        '8'
    } else if n == 9 {
        '9'
    } else if n == 10 {
        'a'
    } else if n == 11 {
        'b'
    } else if n == 12 {
        'c'
    } else if n == 13 {
        'd'
    } else if n == 14 {
        'e'
    } else {
        'f'
    }
}

/// How one character appears inside a JSON string literal.
pub open spec fn esc_char(c: char) -> Seq<char> {
    if c == '"' {
        seq!['\\', '"']
    } else if c == '\\' {
        seq!['\\', '\\']
    } else if (c as u32) < 0x20 {
        seq!['\\', 'u', '0', '0', hex_digit((c as u32) as int / 16), hex_digit(
            (c as u32) as int % 16,
        )]
    } else {
        seq![c]
    }
}

/// The body of a JSON string literal, without the surrounding quotes.
pub open spec fn json_escaped(s: Seq<char>) -> Seq<char>
    decreases s.len(),
{
    if s.len() == 0 {
        Seq::empty()
    } else {
        esc_char(s[0]) + json_escaped(s.drop_first())
    }
}

pub open spec fn json_string(s: Seq<char>) -> Seq<char> {
    seq!['"'] + json_escaped(s) + seq!['"']
}

pub open spec fn json_opt_string(o: Option<Seq<char>>) -> Seq<char> {
    match o {
        None => "null"@,
        Some(s) => json_string(s),
    }
}

pub open spec fn json_bool(b: bool) -> Seq<char> {
    if b {
        "true"@
    } else {
        "false"@
    }
}

pub open spec fn json_opt_bool(o: Option<bool>) -> Seq<char> {
    match o {
        None => "null"@,
        Some(b) => json_bool(b),
    }
}

/// The comma-separated items of a JSON array of strings.
pub open spec fn json_list_items(l: Seq<Seq<char>>) -> Seq<char>
    decreases l.len(),
{
    if l.len() == 0 {
        Seq::empty()
    } else if l.len() == 1 {
        json_string(l[0])
    } else {
        json_string(l[0]) + seq![','] + json_list_items(l.drop_first())
    }
}

pub open spec fn json_opt_list(o: Option<Seq<Seq<char>>>) -> Seq<char> {
    match o {
        None => "null"@,
        Some(l) => seq!['['] + json_list_items(l) + seq![']'],
    }
}

/// The comma-separated entries of a JSON object of strings.
pub open spec fn json_map_entries(m: Seq<(Seq<char>, Seq<char>)>) -> Seq<char>
    decreases m.len(),
{
    if m.len() == 0 {
        Seq::empty()
    } else if m.len() == 1 {
        json_string(m[0].0) + seq![':'] + json_string(m[0].1)
    } else {
        json_string(m[0].0) + seq![':'] + json_string(m[0].1) + seq![','] + json_map_entries(
            m.drop_first(),
        )
    }
}

pub open spec fn json_opt_map(o: Option<Seq<(Seq<char>, Seq<char>)>>) -> Seq<char> {
    match o {
        None => "null"@,
        Some(m) => seq!['{'] + json_map_entries(m) + seq!['}'],
    }
}

pub open spec fn json_resources(fr: FunctionResourcesView) -> Seq<char> {
    "{\"memory\":"@ + (json_opt_string(fr.memory) + (",\"cpu\":"@ + (json_opt_string(fr.cpu)
        + seq!['}'])))
}

pub open spec fn json_opt_resources(o: Option<FunctionResourcesView>) -> Seq<char> {
    match o {
        None => "null"@,
        Some(fr) => json_resources(fr),
    }
}

/// The serialization from the `secretsMountPath` key on.
pub open spec fn json_tail_mount_path(v: OpenFaasFunctionSpecView) -> Seq<char> {
    ",\"secretsMountPath\":"@ + (json_opt_string(v.secrets_mount_path) + seq!['}'])
}

/// The serialization from the `readOnlyRootFilesystem` key on.
pub open spec fn json_tail_read_only(v: OpenFaasFunctionSpecView) -> Seq<char> {
    ",\"readOnlyRootFilesystem\":"@ + (json_opt_bool(v.read_only_root_filesystem)
        + json_tail_mount_path(v))
}

/// The serialization from the `requests` key on.
pub open spec fn json_tail_requests(v: OpenFaasFunctionSpecView) -> Seq<char> {
    ",\"requests\":"@ + (json_opt_resources(v.requests) + json_tail_read_only(v))
}

/// The serialization from the `limits` key on.
pub open spec fn json_tail_limits(v: OpenFaasFunctionSpecView) -> Seq<char> {
    ",\"limits\":"@ + (json_opt_resources(v.limits) + json_tail_requests(v))
}

/// The serialization from the `annotations` key on.
pub open spec fn json_tail_annotations(v: OpenFaasFunctionSpecView) -> Seq<char> {
    ",\"annotations\":"@ + (json_opt_map(v.annotations) + json_tail_limits(v))
}

/// The serialization from the `labels` key on.
pub open spec fn json_tail_labels(v: OpenFaasFunctionSpecView) -> Seq<char> {
    ",\"labels\":"@ + (json_opt_map(v.labels) + json_tail_annotations(v))
}

/// The serialization from the `secrets` key on.
pub open spec fn json_tail_secrets(v: OpenFaasFunctionSpecView) -> Seq<char> {
    ",\"secrets\":"@ + (json_opt_list(v.secrets) + json_tail_labels(v))
}

/// The serialization from the `constraints` key on.
pub open spec fn json_tail_constraints(v: OpenFaasFunctionSpecView) -> Seq<char> {
    ",\"constraints\":"@ + (json_opt_list(v.constraints) + json_tail_secrets(v))
}

/// The serialization from the `envVars` key on.
pub open spec fn json_tail_env_vars(v: OpenFaasFunctionSpecView) -> Seq<char> {
    ",\"envVars\":"@ + (json_opt_map(v.env_vars) + json_tail_constraints(v))
}

/// The serialization from the `envProcess` key on.
pub open spec fn json_tail_env_process(v: OpenFaasFunctionSpecView) -> Seq<char> {
    ",\"envProcess\":"@ + (json_opt_string(v.env_process) + json_tail_env_vars(v))
}

/// The serialization from the `namespace` key on.
pub open spec fn json_tail_namespace(v: OpenFaasFunctionSpecView) -> Seq<char> {
    ",\"namespace\":"@ + (json_opt_string(v.namespace) + json_tail_env_process(v))
}

/// The serialization from the `image` key on.
pub open spec fn json_tail_image(v: OpenFaasFunctionSpecView) -> Seq<char> {
    ",\"image\":"@ + (json_string(v.image) + json_tail_namespace(v))
}

/// The canonical JSON serialization of a spec.
pub open spec fn json_of_spec(v: OpenFaasFunctionSpecView) -> Seq<char> {
    "{\"service\":"@ + (json_string(v.service) + json_tail_image(v))
}

proof fn lemma_json_escaped_push(s: Seq<char>, c: char)
    ensures
        json_escaped(s.push(c)) == json_escaped(s) + esc_char(c),
    decreases s.len(),
{
    let sp = s.push(c);
    if s.len() == 0 {
        assert(sp[0] == c);
        assert(sp.drop_first() =~= Seq::<char>::empty());
        assert(json_escaped(Seq::<char>::empty()) =~= Seq::<char>::empty());
        assert(json_escaped(sp) =~= esc_char(c));
        assert(json_escaped(s) + esc_char(c) =~= esc_char(c));
    } else {
        assert(sp[0] == s[0]);
        assert(sp.drop_first() =~= s.drop_first().push(c));
        lemma_json_escaped_push(s.drop_first(), c);
        assert(esc_char(s[0]) + (json_escaped(s.drop_first()) + esc_char(c)) =~= esc_char(s[0])
            + json_escaped(s.drop_first()) + esc_char(c));
    }
}

fn hex_char(n: u32) -> (r: char)
    requires
        n < 16,
    ensures
        r == hex_digit(n as int),
{
    if n == 0 {
        '0'
    } else if n == 1 {
        '1'
    } else if n == 2 {
        '2'
    } else if n == 3 {
        '3'
    } else if n == 4 {
        '4'
    } else if n == 5 {
        '5'
    } else if n == 6 {
        '6'
    } else if n == 7 {
        '7'
    } else if n == 8 {
        '8'
    } else if n == 9 {
        '9'
    } else if n == 10 {
        'a'
    } else if n == 11 {
        'b'
    } else if n == 12 {
        'c'
    } else if n == 13 {
        'd'
    } else if n == 14 {
        'e'
    } else {
        'f'
    }
}

/// Appends one JSON string literal, quotes and escapes included.
fn write_json_string(out: &mut String, s: &str)
    ensures
        final(out)@ == old(out)@ + json_string(s@),
{
    let ghost base = old(out)@;
    push_char(out, '"');
    let n = s.unicode_len();
    let mut i: usize = 0;
    proof {
        assert(s@.take(0) =~= Seq::<char>::empty());
        assert(out@ =~= base + seq!['"'] + json_escaped(s@.take(0)));
    }
    while i < n
        invariant
            i <= n,
            n == s@.len(),
            out@ == base + seq!['"'] + json_escaped(s@.take(i as int)),
        decreases n - i,
    {
        let c = s.get_char(i);
        proof {
            assert(s@.take(i + 1) =~= s@.take(i as int).push(s@[i as int]));
            lemma_json_escaped_push(s@.take(i as int), s@[i as int]);
        }
        let u = c as u32;
        if c == '"' {
            push_char(out, '\\');
            push_char(out, '"');
        } else if c == '\\' {
            push_char(out, '\\');
            push_char(out, '\\');
        } else if u < 0x20 {
            push_char(out, '\\');
            push_char(out, 'u');
            push_char(out, '0');
            push_char(out, '0');
            push_char(out, hex_char(u / 16));
            push_char(out, hex_char(u % 16));
        } else {
            push_char(out, c);
        }
        proof {
            assert(out@ =~= base + seq!['"'] + (json_escaped(s@.take(i as int)) + esc_char(
                s@[i as int],
            )));
        }
        i = i + 1;
    }
    push_char(out, '"');
    proof {
        assert(s@.take(n as int) =~= s@);
        assert(out@ =~= base + json_string(s@));
    }
}

fn write_json_opt_string(out: &mut String, o: &Option<String>)
    ensures
        final(out)@ == old(out)@ + json_opt_string(o.deep_view()),
{
    match o {
        None => {
            out.append("null");
        },
        Some(s) => {
            write_json_string(out, s.as_str());
        },
    }
}

fn write_json_opt_bool(out: &mut String, o: &Option<bool>)
    ensures
        final(out)@ == old(out)@ + json_opt_bool(*o),
{
    match o {
        None => {
            out.append("null");
        },
        Some(b) => {
            if *b {
                out.append("true");
            } else {
                out.append("false");
            }
        },
    }
}

proof fn lemma_json_list_items_push(l: Seq<Seq<char>>, x: Seq<char>)
    ensures
        json_list_items(l.push(x)) == if l.len() == 0 {
            json_string(x)
        } else {
            json_list_items(l) + seq![','] + json_string(x)
        },
    decreases l.len(),
{
    let lp = l.push(x);
    if l.len() == 0 {
        assert(lp[0] == x);
        assert(json_list_items(lp) == json_string(x));
    } else {
        assert(lp[0] == l[0]);
        assert(lp.drop_first() =~= l.drop_first().push(x));
        lemma_json_list_items_push(l.drop_first(), x);
        if l.len() == 1 {
            assert(l.drop_first().len() == 0);
            assert(json_list_items(lp) == json_string(l[0]) + seq![','] + json_string(x));
        } else {
            assert(json_list_items(lp) == json_string(l[0]) + seq![','] + (json_list_items(
                l.drop_first(),
            ) + seq![','] + json_string(x)));
            assert(json_string(l[0]) + seq![','] + (json_list_items(l.drop_first()) + seq![',']
                + json_string(x)) =~= (json_string(l[0]) + seq![','] + json_list_items(
                l.drop_first(),
            )) + seq![','] + json_string(x));
        }
    }
}

fn write_json_list(out: &mut String, l: &Vec<String>)
    ensures
        final(out)@ == old(out)@ + seq!['['] + json_list_items(l.deep_view()) + seq![']'],
{
    let ghost base = old(out)@;
    push_char(out, '[');
    let n = l.len();
    proof {
        assert(l.deep_view().take(0) =~= Seq::<Seq<char>>::empty());
    }
    let mut i: usize = 0;
    while i < n
        invariant
            i <= n,
            n == l@.len(),
            n == l.deep_view().len(),
            out@ == base + seq!['['] + json_list_items(l.deep_view().take(i as int)),
        decreases n - i,
    {
        proof {
            assert(l.deep_view().take(i + 1) =~= l.deep_view().take(i as int).push(
                l.deep_view()[i as int],
            ));
            lemma_json_list_items_push(l.deep_view().take(i as int), l.deep_view()[i as int]);
        }
        if i > 0 {
            push_char(out, ',');
        }
        write_json_string(out, l[i].as_str());
        proof {
            assert(out@ =~= base + seq!['['] + json_list_items(l.deep_view().take(i + 1)));
        }
        i = i + 1;
    }
    push_char(out, ']');
    proof {
        assert(l.deep_view().take(n as int) =~= l.deep_view());
        assert(out@ =~= base + seq!['['] + json_list_items(l.deep_view()) + seq![']']);
    }
}

fn write_json_opt_list(out: &mut String, o: &Option<Vec<String>>)
    ensures
        final(out)@ == old(out)@ + json_opt_list(o.deep_view()),
{
    match o {
        None => {
            out.append("null");
        },
        Some(l) => {
            write_json_list(out, l);
        },
    }
}

proof fn lemma_json_map_entries_push(m: Seq<(Seq<char>, Seq<char>)>, p: (Seq<char>, Seq<char>))
    ensures
        json_map_entries(m.push(p)) == if m.len() == 0 {
            json_string(p.0) + seq![':'] + json_string(p.1)
        } else {
            json_map_entries(m) + seq![','] + json_string(p.0) + seq![':'] + json_string(p.1)
        },
    decreases m.len(),
{
    let mp = m.push(p);
    let entry = json_string(p.0) + seq![':'] + json_string(p.1);
    if m.len() == 0 {
        assert(mp[0] == p);
        assert(json_map_entries(mp) == entry);
    } else {
        assert(mp[0] == m[0]);
        assert(mp.drop_first() =~= m.drop_first().push(p));
        lemma_json_map_entries_push(m.drop_first(), p);
        let head = json_string(m[0].0) + seq![':'] + json_string(m[0].1);
        if m.len() == 1 {
            assert(m.drop_first().len() == 0);
            assert(json_map_entries(mp) == head + seq![','] + entry);
            assert(json_map_entries(m) == head);
        } else {
            assert(json_map_entries(mp) == head + seq![','] + (json_map_entries(m.drop_first())
                + seq![','] + entry));
            assert(head + seq![','] + (json_map_entries(m.drop_first()) + seq![','] + entry) =~= (
            head + seq![','] + json_map_entries(m.drop_first())) + seq![','] + json_string(p.0)
                + seq![':'] + json_string(p.1));
        }
    }
}

fn write_json_map(out: &mut String, m: &StringMap)
    ensures
        final(out)@ == old(out)@ + seq!['{'] + json_map_entries(m@) + seq!['}'],
{
    let ghost base = old(out)@;
    push_char(out, '{');
    let n = m.len();
    proof {
        assert(m@.take(0) =~= Seq::<(Seq<char>, Seq<char>)>::empty());
    }
    let mut i: usize = 0;
    while i < n
        invariant
            i <= n,
            n == m@.len(),
            out@ == base + seq!['{'] + json_map_entries(m@.take(i as int)),
        decreases n - i,
    {
        proof {
            assert(m@.take(i + 1) =~= m@.take(i as int).push(m@[i as int]));
            lemma_json_map_entries_push(m@.take(i as int), m@[i as int]);
        }
        if i > 0 {
            push_char(out, ',');
        }
        write_json_string(out, m.key_at(i).as_str());
        push_char(out, ':');
        write_json_string(out, m.value_at(i).as_str());
        proof {
            assert(out@ =~= base + seq!['{'] + json_map_entries(m@.take(i + 1)));
        }
        i = i + 1;
    }
    push_char(out, '}');
    proof {
        assert(m@.take(n as int) =~= m@);
        assert(out@ =~= base + seq!['{'] + json_map_entries(m@) + seq!['}']);
    }
}

fn write_json_opt_map(out: &mut String, o: &Option<StringMap>)
    ensures
        final(out)@ == old(out)@ + json_opt_map(o.deep_view()),
{
    match o {
        None => {
            out.append("null");
        },
        Some(m) => {
            write_json_map(out, m);
        },
    }
}

fn write_json_opt_resources(out: &mut String, o: &Option<FunctionResources>)
    ensures
        final(out)@ == old(out)@ + json_opt_resources(o.deep_view()),
{
    match o {
        None => {
            out.append("null");
        },
        Some(fr) => {
            out.append("{\"memory\":");
            write_json_opt_string(out, &fr.memory);
            out.append(",\"cpu\":");
            write_json_opt_string(out, &fr.cpu);
            push_char(out, '}');
            proof {
                assert(out@ =~= old(out)@ + json_resources(fr@));
            }
        },
    }
}

impl OpenFaasFunctionSpec {
    fn write_tail_mount_path(&self, out: &mut String)
        ensures
            final(out)@ == old(out)@ + json_tail_mount_path(self@),
    {
        out.append(",\"secretsMountPath\":");
        write_json_opt_string(out, &self.secrets_mount_path);
        push_char(out, '}');
        proof {
            assert(out@ =~= old(out)@ + json_tail_mount_path(self@));
        }
    }

    fn write_tail_read_only(&self, out: &mut String)
        ensures
            final(out)@ == old(out)@ + json_tail_read_only(self@),
    {
        out.append(",\"readOnlyRootFilesystem\":");
        write_json_opt_bool(out, &self.read_only_root_filesystem);
        self.write_tail_mount_path(out);
        proof {
            assert(out@ =~= old(out)@ + json_tail_read_only(self@));
        }
    }

    fn write_tail_requests(&self, out: &mut String)
        ensures
            final(out)@ == old(out)@ + json_tail_requests(self@),
    {
        out.append(",\"requests\":");
        write_json_opt_resources(out, &self.requests);
        self.write_tail_read_only(out);
        proof {
            assert(out@ =~= old(out)@ + json_tail_requests(self@));
        }
    }

    fn write_tail_limits(&self, out: &mut String)
        ensures
            final(out)@ == old(out)@ + json_tail_limits(self@),
    {
        out.append(",\"limits\":");
        write_json_opt_resources(out, &self.limits);
        self.write_tail_requests(out);
        proof {
            assert(out@ =~= old(out)@ + json_tail_limits(self@));
        }
    }

    fn write_tail_annotations(&self, out: &mut String)
        ensures
            final(out)@ == old(out)@ + json_tail_annotations(self@),
    {
        out.append(",\"annotations\":");
        write_json_opt_map(out, &self.annotations);
        self.write_tail_limits(out);
        proof {
            assert(out@ =~= old(out)@ + json_tail_annotations(self@));
        }
    }

    fn write_tail_labels(&self, out: &mut String)
        ensures
            final(out)@ == old(out)@ + json_tail_labels(self@),
    {
        out.append(",\"labels\":");
        write_json_opt_map(out, &self.labels);
        self.write_tail_annotations(out);
        proof {
            assert(out@ =~= old(out)@ + json_tail_labels(self@));
        }
    }

    fn write_tail_secrets(&self, out: &mut String)
        ensures
            final(out)@ == old(out)@ + json_tail_secrets(self@),
    {
        out.append(",\"secrets\":");
        write_json_opt_list(out, &self.secrets);
        self.write_tail_labels(out);
        proof {
            assert(out@ =~= old(out)@ + json_tail_secrets(self@));
        }
    }

    fn write_tail_constraints(&self, out: &mut String)
        ensures
            final(out)@ == old(out)@ + json_tail_constraints(self@),
    {
        out.append(",\"constraints\":");
        write_json_opt_list(out, &self.constraints);
        self.write_tail_secrets(out);
        proof {
            assert(out@ =~= old(out)@ + json_tail_constraints(self@));
        }
    }

    fn write_tail_env_vars(&self, out: &mut String)
        ensures
            final(out)@ == old(out)@ + json_tail_env_vars(self@),
    {
        out.append(",\"envVars\":");
        write_json_opt_map(out, &self.env_vars);
        self.write_tail_constraints(out);
        proof {
            assert(out@ =~= old(out)@ + json_tail_env_vars(self@));
        }
    }

    fn write_tail_env_process(&self, out: &mut String)
        ensures
            final(out)@ == old(out)@ + json_tail_env_process(self@),
    {
        out.append(",\"envProcess\":");
        write_json_opt_string(out, &self.env_process);
        self.write_tail_env_vars(out);
        proof {
            assert(out@ =~= old(out)@ + json_tail_env_process(self@));
        }
    }

    fn write_tail_namespace(&self, out: &mut String)
        ensures
            final(out)@ == old(out)@ + json_tail_namespace(self@),
    {
        out.append(",\"namespace\":");
        write_json_opt_string(out, &self.namespace);
        self.write_tail_env_process(out);
        proof {
            assert(out@ =~= old(out)@ + json_tail_namespace(self@));
        }
    }

    fn write_tail_image(&self, out: &mut String)
        ensures
            final(out)@ == old(out)@ + json_tail_image(self@),
    {
        out.append(",\"image\":");
        write_json_string(out, self.image.as_str());
        self.write_tail_namespace(out);
        proof {
            assert(out@ =~= old(out)@ + json_tail_image(self@));
        }
    }

    /// Serializes the spec into its canonical JSON form.
    pub fn to_json_string(&self) -> (r: String)
        ensures
            r@ == json_of_spec(self@),
    {
        let mut out = String::new();
        out.append("{\"service\":");
        write_json_string(&mut out, self.service.as_str());
        self.write_tail_image(&mut out);
        proof {
            assert(out@ =~= json_of_spec(self@));
        }
        out
    }
}

} // verus!

verus! {

/// Whether the text of `t` stands in `s` at position `i`.
pub open spec fn token_at(s: Seq<char>, i: int, t: Seq<char>) -> bool {
    0 <= i && i + t.len() <= s.len() && s.subrange(i, i + t.len()) == t
}

/// A JSON array of the given strings.
pub open spec fn json_list(l: Seq<Seq<char>>) -> Seq<char> {
    seq!['['] + json_list_items(l) + seq![']']
}

/// A JSON object of the given entries.
pub open spec fn json_map(m: Seq<(Seq<char>, Seq<char>)>) -> Seq<char> {
    seq!['{'] + json_map_entries(m) + seq!['}']
}

proof fn lemma_token_split(s: Seq<char>, i: int, a: Seq<char>, b: Seq<char>)
    requires
        token_at(s, i, a + b),
    ensures
        token_at(s, i, a),
        token_at(s, i + a.len(), b),
{
    assert forall|q: int| 0 <= q < a.len() implies s[i + q] == a[q] by {
        assert(s.subrange(i, i + (a + b).len())[q] == (a + b)[q]);
    }
    assert forall|q: int| 0 <= q < b.len() implies s[i + a.len() + q] == b[q] by {
        assert(s.subrange(i, i + (a + b).len())[a.len() + q] == (a + b)[a.len() + q]);
    }
    assert(s.subrange(i, i + a.len()) =~= a);
    assert(s.subrange(i + a.len(), i + a.len() + b.len()) =~= b);
}

proof fn lemma_token_skip(s: Seq<char>, i: int, t: Seq<char>)
    requires
        token_at(s, i, t),
    ensures
        s.skip(i) == t + s.skip(i + t.len()),
{
    assert(s.skip(i) =~= t + s.skip(i + t.len()));
}

proof fn lemma_json_escaped_concat(a: Seq<char>, b: Seq<char>)
    ensures
        json_escaped(a + b) == json_escaped(a) + json_escaped(b),
    decreases a.len(),
{
    if a.len() == 0 {
        assert(a + b =~= b);
        assert(json_escaped(a) =~= Seq::<char>::empty());
        assert(json_escaped(a) + json_escaped(b) =~= json_escaped(b));
    } else {
        assert((a + b)[0] == a[0]);
        assert((a + b).drop_first() =~= a.drop_first() + b);
        lemma_json_escaped_concat(a.drop_first(), b);
        assert(json_escaped(a + b) == esc_char(a[0]) + (json_escaped(a.drop_first())
            + json_escaped(b)));
        assert(esc_char(a[0]) + (json_escaped(a.drop_first()) + json_escaped(b)) =~= (esc_char(
            a[0],
        ) + json_escaped(a.drop_first())) + json_escaped(b));
    }
}

proof fn lemma_hex_digit_code(v: int)
    requires
        0 <= v < 16,
    ensures
        v < 10 ==> (hex_digit(v) as u32) == 0x30 + v,
        v >= 10 ==> (hex_digit(v) as u32) == 0x61 + (v - 10),
{
}

proof fn lemma_hex_digit_matches(c: char, v: int)
    requires
        0 <= v < 16,
        v < 10 ==> (c as u32) == 0x30 + v,
        v >= 10 ==> (c as u32) == 0x61 + (v - 10),
    ensures
        hex_digit(v) == c,
{
    lemma_hex_digit_code(v);
    crate::crds::json_laws::lemma_char_code_inj(hex_digit(v), c);
}

/// Relies on std's `char::from_u32`: a code point below the surrogate range
/// converts to the character with that code.
#[verifier::external_body]
fn char_from_code(u: u32) -> (c: char)
    requires
        u < 0xD800,
    ensures
        (c as u32) == u,
{
    match char::from_u32(u) {
        Some(c) => c,
        None => ' ',
    }
}

fn hex_value(c: char) -> (r: Option<u32>)
    ensures
        r matches Some(v) ==> v < 16 && hex_digit(v as int) == c,
        r is None ==> forall|v: int| 0 <= v < 16 ==> hex_digit(v) != c,
{
    let u = c as u32;
    if 0x30 <= u && u <= 0x39 {
        proof {
            lemma_hex_digit_matches(c, (u - 0x30) as int);
        }
        Some(u - 0x30)
    } else if 0x61 <= u && u <= 0x66 {
        proof {
            lemma_hex_digit_matches(c, (u - 0x61 + 10) as int);
        }
        Some(u - 0x61 + 10)
    } else {
        proof {
            assert forall|v: int| 0 <= v < 16 implies hex_digit(v) != c by {
                lemma_hex_digit_code(v);
            }
        }
        None
    }
}

/// Consumes `lit` at position `i`; succeeds exactly when the text is there.
fn expect_lit(s: &str, i: usize, lit: &str) -> (r: Option<usize>)
    ensures
        r matches Some(j) ==> j == i + lit@.len() && token_at(s@, i as int, lit@),
        token_at(s@, i as int, lit@) ==> r is Some,
{
    let n = s.unicode_len();
    let m = lit.unicode_len();
    if i > n || m > n - i {
        return None;
    }
    let mut k: usize = 0;
    while k < m
        invariant
            k <= m,
            i + m <= n,
            n == s@.len(),
            m == lit@.len(),
            forall|q: int| 0 <= q < k ==> s@[i + q] == lit@[q],
        decreases m - k,
    {
        if s.get_char(i + k) != lit.get_char(k) {
            proof {
                if token_at(s@, i as int, lit@) {
                    assert(s@.subrange(i as int, i + m)[k as int] == lit@[k as int]);
                }
            }
            return None;
        }
        k = k + 1;
    }
    proof {
        assert(s@.subrange(i as int, i + m) =~= lit@);
    }
    Some(i + m)
}

proof fn lemma_string_parse_progress(s: Seq<char>, i: int, gx: Seq<char>, outv: Seq<char>, k: int)
    requires
        token_at(s, i, json_string(gx)),
        k == i + 1 + json_escaped(outv).len(),
        outv.len() <= gx.len(),
        outv == gx.take(outv.len() as int),
    ensures
        outv.len() < gx.len() ==> k + esc_char(gx[outv.len() as int]).len() + 1 <= i
            + json_string(gx).len() && (forall|q: int|
            0 <= q < esc_char(gx[outv.len() as int]).len() ==> s[k + q] == esc_char(
                gx[outv.len() as int],
            )[q]),
        outv.len() == gx.len() ==> s[k] == '"' && k + 1 == i + json_string(gx).len(),
{
    let m = outv.len() as int;
    let tok = json_string(gx);
    let l = tok.len();
    lemma_json_escaped_concat(gx.take(m), gx.skip(m));
    assert(gx.take(m) + gx.skip(m) =~= gx);
    assert(json_escaped(gx) == json_escaped(outv) + json_escaped(gx.skip(m)));
    assert forall|t: int| 0 <= t < l implies s[i + t] == #[trigger] tok[t] by {
        assert(s.subrange(i, i + l)[t] == tok[t]);
    }
    if m < gx.len() {
        let e = esc_char(gx[m]);
        assert(gx.skip(m)[0] == gx[m]);
        assert(json_escaped(gx.skip(m)) == e + json_escaped(gx.skip(m).drop_first()));
        assert forall|q: int| 0 <= q < e.len() implies s[k + q] == e[q] by {
            let t = 1 + json_escaped(outv).len() + q;
            assert(json_escaped(gx)[t - 1] == e[q]);
            assert(tok[t] == json_escaped(gx)[t - 1]);
            assert(s[i + t] == tok[t]);
        }
    } else {
        assert(outv =~= gx);
        assert(json_escaped(gx.skip(m)) =~= Seq::<char>::empty());
        assert(json_escaped(gx) == json_escaped(outv));
        assert(tok[l - 1] == '"');
        assert(s[i + l - 1] == tok[l - 1]);
    }
}

/// Consumes one JSON string literal at `i`, undoing the escapes the encoder
/// writes; succeeds on exactly the encoder's string form.
fn parse_json_string(s: &str, i: usize) -> (r: Option<(String, usize)>)
    ensures
        r matches Some(p) ==> i < p.1 <= s@.len() && p.1 == i + json_string(p.0@).len()
            && token_at(s@, i as int, json_string(p.0@)),
        (exists|x: Seq<char>| token_at(s@, i as int, json_string(x))) ==> r is Some,
{
    let n = s.unicode_len();
    let ghost hw = exists|x: Seq<char>| token_at(s@, i as int, json_string(x));
    let ghost gx: Seq<char> = if hw {
        choose|x: Seq<char>| token_at(s@, i as int, json_string(x))
    } else {
        Seq::empty()
    };
    if i >= n || s.get_char(i) != '"' {
        proof {
            if hw {
                assert(json_string(gx)[0] == '"');
                assert(s@.subrange(i as int, i + json_string(gx).len())[0] == json_string(gx)[0]);
            }
        }
        return None;
    }
    let mut out = String::new();
    let mut k: usize = i + 1;
    proof {
        assert(s@.subrange(i + 1, i + 1) =~= json_escaped(out@));
    }
    loop
        invariant
            i < k <= n,
            n == s@.len(),
            s@[i as int] == '"',
            s@.subrange(i + 1, k as int) == json_escaped(out@),
            hw == exists|x: Seq<char>| token_at(s@, i as int, json_string(x)),
            hw ==> token_at(s@, i as int, json_string(gx)) && out@.len() <= gx.len() && out@
                == gx.take(out@.len() as int),
        decreases n - k,
    {
        proof {
            assert(k - i - 1 == json_escaped(out@).len());
            if hw {
                lemma_string_parse_progress(s@, i as int, gx, out@, k as int);
            }
        }
        let ghost m = out@.len() as int;
        if k >= n {
            proof {
                if hw {
                    if m < gx.len() {
                        assert(esc_char(gx[m]).len() >= 1);
                    }
                }
            }
            return None;
        }
        let c = s.get_char(k);
        if c == '"' {
            proof {
                assert(s@.subrange(i as int, k + 1) =~= seq!['"'] + json_escaped(out@)
                    + seq!['"']);
            }
            return Some((out, k + 1));
        }
        if c == '\\' {
            proof {
                if hw {
                    if m == gx.len() {
                        assert(s@[k as int] == '"');
                        assert(false);
                    }
                    assert(s@[k + 0] == esc_char(gx[m])[0]);
                    assert(gx[m] == '"' || gx[m] == '\\' || (gx[m] as u32) < 0x20);
                    assert(s@[k + 1] == esc_char(gx[m])[1]);
                }
            }
            if n - k < 2 {
                proof {
                    if hw {
                        assert(esc_char(gx[m]).len() >= 2);
                    }
                }
                return None;
            }
            let d = s.get_char(k + 1);
            let ghost consumed_old = s@.subrange(i + 1, k as int);
            if d == '"' {
                proof {
                    lemma_json_escaped_push(out@, '"');
                    if hw {
                        assert(esc_char(gx[m])[1] == '"');
                        assert(gx[m] == '"');
                        assert(out@.push('"') =~= gx.take(m + 1));
                    }
                    assert(s@.subrange(i + 1, k + 2) =~= consumed_old + esc_char('"'));
                }
                push_char(&mut out, '"');
                k = k + 2;
            } else if d == '\\' {
                proof {
                    lemma_json_escaped_push(out@, '\\');
                    if hw {
                        assert(esc_char(gx[m])[1] == '\\');
                        assert(gx[m] == '\\');
                        assert(out@.push('\\') =~= gx.take(m + 1));
                    }
                    assert(s@.subrange(i + 1, k + 2) =~= consumed_old + esc_char('\\'));
                }
                push_char(&mut out, '\\');
                k = k + 2;
            } else if d == 'u' {
                proof {
                    if hw {
                        assert((gx[m] as u32) < 0x20);
                        assert(esc_char(gx[m]).len() == 6);
                    }
                }
                if n - k < 6 {
                    return None;
                }
                if s.get_char(k + 2) != '0' || s.get_char(k + 3) != '0' {
                    proof {
                        if hw {
                            assert(esc_char(gx[m])[2] == '0' && esc_char(gx[m])[3] == '0');
                        }
                    }
                    return None;
                }
                let h1 = s.get_char(k + 4);
                let h2 = s.get_char(k + 5);
                let hi = match hex_value(h1) {
                    Some(v) => v,
                    None => {
                        proof {
                            if hw {
                                let cu = (gx[m] as u32) as int;
                                assert(esc_char(gx[m])[4] == hex_digit(cu / 16));
                            }
                        }
                        return None;
                    },
                };
                let lo = match hex_value(h2) {
                    Some(v) => v,
                    None => {
                        proof {
                            if hw {
                                let cu = (gx[m] as u32) as int;
                                assert(esc_char(gx[m])[5] == hex_digit(cu % 16));
                            }
                        }
                        return None;
                    },
                };
                let val = hi * 16 + lo;
                if val >= 0x20 {
                    proof {
                        if hw {
                            let cu = (gx[m] as u32) as int;
                            vstd::arithmetic::div_mod::lemma_fundamental_div_mod(cu, 16);
                            assert(esc_char(gx[m])[4] == hex_digit(cu / 16));
                            assert(esc_char(gx[m])[5] == hex_digit(cu % 16));
                            crate::crds::json_laws::lemma_hex_digit_inj(cu / 16, hi as int);
                            crate::crds::json_laws::lemma_hex_digit_inj(cu % 16, lo as int);
                        }
                    }
                    return None;
                }
                let ch = char_from_code(val);
                proof {
                    assert((ch as u32) == val && val < 0x20);
                    assert(esc_char(ch) =~= seq![
                        '\\',
                        'u',
                        '0',
                        '0',
                        hex_digit((val as int) / 16),
                        hex_digit((val as int) % 16),
                    ]);
                    vstd::arithmetic::div_mod::lemma_fundamental_div_mod(val as int, 16);
                    assert((val as int) / 16 == hi as int && (val as int) % 16 == lo as int) by {
                        if hi == 0 {
                        } else {
                            assert(hi == 1);
                        }
                    }
                    assert(s@.subrange(i + 1, k + 6) =~= consumed_old + esc_char(ch));
                    lemma_json_escaped_push(out@, ch);
                    if hw {
                        let cu = (gx[m] as u32) as int;
                        vstd::arithmetic::div_mod::lemma_fundamental_div_mod(cu, 16);
                        assert(esc_char(gx[m])[4] == hex_digit(cu / 16));
                        assert(esc_char(gx[m])[5] == hex_digit(cu % 16));
                        crate::crds::json_laws::lemma_hex_digit_inj(cu / 16, hi as int);
                        crate::crds::json_laws::lemma_hex_digit_inj(cu % 16, lo as int);
                        crate::crds::json_laws::lemma_char_code_inj(ch, gx[m]);
                        assert(out@.push(ch) =~= gx.take(m + 1));
                    }
                }
                push_char(&mut out, ch);
                k = k + 6;
            } else {
                proof {
                    if hw {
                        assert(esc_char(gx[m])[1] == '"' || esc_char(gx[m])[1] == '\\'
                            || esc_char(gx[m])[1] == 'u');
                    }
                }
                return None;
            }
        } else {
            let u = c as u32;
            if u < 0x20 {
                proof {
                    if hw {
                        if m == gx.len() {
                            assert(s@[k as int] == '"');
                            assert(false);
                        }
                        assert(s@[k + 0] == esc_char(gx[m])[0]);
                        if gx[m] == '"' || gx[m] == '\\' || (gx[m] as u32) < 0x20 {
                            assert(esc_char(gx[m])[0] == '\\');
                            assert(false);
                        }
                        assert(c == gx[m]);
                        assert(false);
                    }
                }
                return None;
            }
            let ghost consumed_old = s@.subrange(i + 1, k as int);
            proof {
                assert(esc_char(c) =~= seq![c]);
                lemma_json_escaped_push(out@, c);
                assert(s@.subrange(i + 1, k + 1) =~= consumed_old + esc_char(c));
                if hw {
                    if m == gx.len() {
                        assert(s@[k as int] == '"');
                        assert(false);
                    }
                    assert(s@[k + 0] == esc_char(gx[m])[0]);
                    if gx[m] == '"' || gx[m] == '\\' || (gx[m] as u32) < 0x20 {
                        assert(esc_char(gx[m])[0] == '\\');
                        assert(false);
                    }
                    assert(c == gx[m]);
                    assert(out@.push(c) =~= gx.take(m + 1));
                }
            }
            push_char(&mut out, c);
            k = k + 1;
        }
    }
}

proof fn lemma_token_join(s: Seq<char>, i: int, a: Seq<char>, b: Seq<char>)
    requires
        token_at(s, i, a),
        token_at(s, i + a.len(), b),
    ensures
        token_at(s, i, a + b),
{
    assert forall|q: int| 0 <= q < (a + b).len() implies s[i + q] == (a + b)[q] by {
        if q < a.len() {
            assert(s.subrange(i, i + a.len())[q] == a[q]);
        } else {
            assert(s.subrange(i + a.len(), i + a.len() + b.len())[q - a.len()] == b[q - a.len()]);
        }
    }
    assert(s.subrange(i, i + (a + b).len()) =~= a + b);
}

fn parse_json_opt_string(s: &str, i: usize) -> (r: Option<(Option<String>, usize)>)
    ensures
        r matches Some(p) ==> i < p.1 <= s@.len() && p.1 == i + json_opt_string(
            p.0.deep_view(),
        ).len() && token_at(s@, i as int, json_opt_string(p.0.deep_view())),
        (exists|o: Option<Seq<char>>| token_at(s@, i as int, json_opt_string(o))) ==> r is Some,
{
    proof {
        reveal_strlit("null");
    }
    match expect_lit(s, i, "null") {
        Some(j) => Some((None, j)),
        None => match parse_json_string(s, i) {
            Some((v, j)) => Some((Some(v), j)),
            None => {
                proof {
                    if exists|o: Option<Seq<char>>| token_at(
                        s@,
                        i as int,
                        json_opt_string(o),
                    ) {
                        let o = choose|o: Option<Seq<char>>| token_at(
                            s@,
                            i as int,
                            json_opt_string(o),
                        );
                        match o {
                            Option::None => {
                                assert(token_at(s@, i as int, "null"@));
                            },
                            Option::Some(x) => {
                                assert(token_at(s@, i as int, json_string(x)));
                            },
                        }
                    }
                }
                None
            },
        },
    }
}

fn parse_json_opt_bool(s: &str, i: usize) -> (r: Option<(Option<bool>, usize)>)
    ensures
        r matches Some(p) ==> i < p.1 <= s@.len() && p.1 == i + json_opt_bool(p.0).len()
            && token_at(s@, i as int, json_opt_bool(p.0)),
        (exists|o: Option<bool>| token_at(s@, i as int, json_opt_bool(o))) ==> r is Some,
{
    proof {
        reveal_strlit("null");
        reveal_strlit("true");
        reveal_strlit("false");
    }
    if let Some(j) = expect_lit(s, i, "null") {
        return Some((None, j));
    }
    if let Some(j) = expect_lit(s, i, "true") {
        return Some((Some(true), j));
    }
    if let Some(j) = expect_lit(s, i, "false") {
        return Some((Some(false), j));
    }
    proof {
        if exists|o: Option<bool>| token_at(s@, i as int, json_opt_bool(o)) {
            let o = choose|o: Option<bool>| token_at(s@, i as int, json_opt_bool(o));
            match o {
                Option::None => {
                    assert(token_at(s@, i as int, "null"@));
                },
                Option::Some(b) => {
                    if b {
                        assert(token_at(s@, i as int, "true"@));
                    } else {
                        assert(token_at(s@, i as int, "false"@));
                    }
                },
            }
        }
    }
    None
}

proof fn lemma_items_split(l: Seq<Seq<char>>, m: int)
    requires
        0 <= m < l.len(),
    ensures
        json_list_items(l) == (if m == 0 {
            Seq::<char>::empty()
        } else {
            json_list_items(l.take(m)) + seq![',']
        }) + json_list_items(l.skip(m)),
    decreases m,
{
    if m == 0 {
        assert(l.skip(0) =~= l);
        assert(Seq::<char>::empty() + json_list_items(l) =~= json_list_items(l));
    } else {
        let ld = l.drop_first();
        lemma_items_split(ld, m - 1);
        assert(ld.take(m - 1) =~= l.take(m).drop_first());
        assert(ld.skip(m - 1) =~= l.skip(m));
        assert(l.take(m)[0] == l[0]);
        if m == 1 {
            assert(l.take(1).len() == 1);
            assert(json_list_items(l.take(1)) == json_string(l[0]));
            assert(json_list_items(l) == json_string(l[0]) + seq![','] + json_list_items(ld));
            assert((json_list_items(l.take(1)) + seq![',']) + json_list_items(l.skip(1))
                =~= json_string(l[0]) + seq![','] + json_list_items(ld));
        } else {
            assert(json_list_items(l.take(m)) == json_string(l[0]) + seq![','] + json_list_items(
                l.take(m).drop_first(),
            ));
            assert(json_list_items(l) == json_string(l[0]) + seq![','] + json_list_items(ld));
            assert((json_list_items(l.take(m)) + seq![',']) + json_list_items(l.skip(m))
                =~= json_string(l[0]) + seq![','] + ((json_list_items(ld.take(m - 1)) + seq![','])
                + json_list_items(ld.skip(m - 1))));
        }
    }
}

proof fn lemma_list_parse_progress(s: Seq<char>, i: int, gls: Seq<Seq<char>>, m: int, k: int)
    requires
        token_at(s, i, json_list(gls)),
        0 <= m < gls.len(),
        k == i + 1 + (if m == 0 {
            0int
        } else {
            json_list_items(gls.take(m)).len() as int + 1
        }),
    ensures
        token_at(s, k, json_string(gls[m])),
        m + 1 < gls.len() ==> k + json_string(gls[m]).len() + 1 < i + json_list(gls).len()
            && s[k + json_string(gls[m]).len()] == ',',
        m + 1 == gls.len() ==> s[k + json_string(gls[m]).len()] == ']' && k + json_string(
            gls[m],
        ).len() + 1 == i + json_list(gls).len(),
{
    let tok = json_list(gls);
    let l = tok.len();
    lemma_items_split(gls, m);
    let prefix: Seq<char> = if m == 0 {
        Seq::<char>::empty()
    } else {
        json_list_items(gls.take(m)) + seq![',']
    };
    assert(json_list_items(gls) == prefix + json_list_items(gls.skip(m)));
    assert forall|t: int| 0 <= t < l implies s[i + t] == #[trigger] tok[t] by {
        assert(s.subrange(i, i + l)[t] == tok[t]);
    }
    let jm = json_string(gls[m]);
    assert(gls.skip(m)[0] == gls[m]);
    if m + 1 < gls.len() {
        assert(gls.skip(m).len() > 1);
        assert(json_list_items(gls.skip(m)) == jm + seq![','] + json_list_items(
            gls.skip(m).drop_first(),
        ));
    } else {
        assert(gls.skip(m).len() == 1);
        assert(json_list_items(gls.skip(m)) == jm);
    }
    assert forall|q: int| 0 <= q < jm.len() implies s[k + q] == jm[q] by {
        let t = 1 + prefix.len() as int + q;
        assert(json_list_items(gls)[t - 1] == jm[q]);
        assert(tok[t] == json_list_items(gls)[t - 1]);
        assert(s[i + t] == tok[t]);
    }
    assert(s.subrange(k, k + jm.len()) =~= jm);
    if m + 1 < gls.len() {
        let t = 1 + prefix.len() as int + jm.len() as int;
        assert(json_list_items(gls)[t - 1] == ',');
        assert(tok[t] == json_list_items(gls)[t - 1]);
        assert(s[i + t] == tok[t]);
    } else {
        let t = 1 + prefix.len() as int + jm.len() as int;
        assert(t == 1 + json_list_items(gls).len());
        assert(tok[t] == ']');
        assert(s[i + t] == tok[t]);
    }
}

/// Consumes one JSON array of strings at `i`; succeeds on exactly the
/// encoder's array form.
fn parse_json_list(s: &str, i: usize) -> (r: Option<(Vec<String>, usize)>)
    ensures
        r matches Some(p) ==> i < p.1 <= s@.len() && p.1 == i + json_list(p.0.deep_view()).len()
            && token_at(s@, i as int, json_list(p.0.deep_view())),
        (exists|ls: Seq<Seq<char>>| token_at(s@, i as int, json_list(ls))) ==> r is Some,
{
    let n = s.unicode_len();
    let ghost hw = exists|ls: Seq<Seq<char>>| token_at(s@, i as int, json_list(ls));
    let ghost gls: Seq<Seq<char>> = if hw {
        choose|ls: Seq<Seq<char>>| token_at(s@, i as int, json_list(ls))
    } else {
        Seq::empty()
    };
    if i >= n || s.get_char(i) != '[' {
        proof {
            if hw {
                assert(json_list(gls)[0] == '[');
                assert(s@.subrange(i as int, i + json_list(gls).len())[0] == json_list(gls)[0]);
            }
        }
        return None;
    }
    let mut out: Vec<String> = Vec::new();
    let k0 = i + 1;
    if k0 < n && s.get_char(k0) == ']' {
        proof {
            assert(out.deep_view() =~= Seq::<Seq<char>>::empty());
            assert(json_list_items(out.deep_view()) =~= Seq::<char>::empty());
            assert(s@.subrange(i as int, i + 2) =~= json_list(out.deep_view()));
        }
        return Some((out, k0 + 1));
    }
    proof {
        if hw {
            if gls.len() == 0 {
                assert(json_list(gls).len() == 2);
                assert(json_list(gls)[1] == ']');
                assert(s@.subrange(i as int, i + 2)[1] == json_list(gls)[1]);
                assert(false);
            }
        }
    }
    let mut k: usize = k0;
    loop
        invariant
            i < k <= n,
            n == s@.len(),
            s@[i as int] == '[',
            out.deep_view().len() == 0 ==> k == i + 1,
            out.deep_view().len() > 0 ==> s@.subrange(i + 1, k as int) == json_list_items(
                out.deep_view(),
            ) + seq![','],
            hw == exists|ls: Seq<Seq<char>>| token_at(s@, i as int, json_list(ls)),
            hw ==> token_at(s@, i as int, json_list(gls)) && out.deep_view().len() < gls.len()
                && out.deep_view() == gls.take(out.deep_view().len() as int),
        decreases n - k,
    {
        let ghost m = out.deep_view().len() as int;
        proof {
            if hw {
                if m > 0 {
                    assert(json_list_items(gls.take(m)) == json_list_items(out.deep_view()));
                }
                lemma_list_parse_progress(s@, i as int, gls, m, k as int);
            }
        }
        let parsed = match parse_json_string(s, k) {
            Some(p) => p,
            None => {
                proof {
                    if hw {
                        assert(false);
                    }
                }
                return None;
            },
        };
        let (v, j) = parsed;
        proof {
            if hw {
                lemma_token_skip(s@, k as int, json_string(v@));
                lemma_token_skip(s@, k as int, json_string(gls[m]));
                crate::crds::json_laws::lemma_string_token(
                    v@,
                    gls[m],
                    s@.skip(k + json_string(v@).len()),
                    s@.skip(k + json_string(gls[m]).len()),
                );
            }
        }
        if j >= n {
            proof {
                if hw {
                    assert(false);
                }
            }
            return None;
        }
        let c = s.get_char(j);
        let ghost old_out = out.deep_view();
        out.push(v);
        proof {
            assert(out.deep_view() =~= old_out.push(v@));
            lemma_json_list_items_push(old_out, v@);
            if old_out.len() == 0 {
                assert(s@.subrange(i + 1, j as int) =~= json_string(v@));
            } else {
                assert(s@.subrange(i + 1, j as int) =~= (json_list_items(old_out) + seq![','])
                    + json_string(v@));
            }
            assert(s@.subrange(i + 1, j as int) =~= json_list_items(out.deep_view()));
        }
        if c == ']' {
            proof {
                assert(s@.subrange(i as int, j + 1) =~= seq!['['] + json_list_items(
                    out.deep_view(),
                ) + seq![']']);
            }
            return Some((out, j + 1));
        }
        if c != ',' {
            proof {
                if hw {
                    assert(false);
                }
            }
            return None;
        }
        proof {
            if hw {
                assert(out.deep_view() =~= gls.take(m + 1));
            }
            assert(s@.subrange(i + 1, j + 1) =~= json_list_items(out.deep_view()) + seq![',']);
        }
        k = j + 1;
    }
}

proof fn lemma_entries_split(l: Seq<(Seq<char>, Seq<char>)>, m: int)
    requires
        0 <= m < l.len(),
    ensures
        json_map_entries(l) == (if m == 0 {
            Seq::<char>::empty()
        } else {
            json_map_entries(l.take(m)) + seq![',']
        }) + json_map_entries(l.skip(m)),
    decreases m,
{
    if m == 0 {
        assert(l.skip(0) =~= l);
        assert(Seq::<char>::empty() + json_map_entries(l) =~= json_map_entries(l));
    } else {
        let ld = l.drop_first();
        lemma_entries_split(ld, m - 1);
        assert(ld.take(m - 1) =~= l.take(m).drop_first());
        assert(ld.skip(m - 1) =~= l.skip(m));
        assert(l.take(m)[0] == l[0]);
        let head0 = json_string(l[0].0) + seq![':'] + json_string(l[0].1);
        if m == 1 {
            assert(l.take(1).len() == 1);
            assert(json_map_entries(l.take(1)) == head0);
            assert(json_map_entries(l) == head0 + seq![','] + json_map_entries(ld));
            assert((json_map_entries(l.take(1)) + seq![',']) + json_map_entries(l.skip(1))
                =~= head0 + seq![','] + json_map_entries(ld));
        } else {
            assert(json_map_entries(l.take(m)) == head0 + seq![','] + json_map_entries(
                l.take(m).drop_first(),
            ));
            assert(json_map_entries(l) == head0 + seq![','] + json_map_entries(ld));
            assert((json_map_entries(l.take(m)) + seq![',']) + json_map_entries(l.skip(m))
                =~= head0 + seq![','] + ((json_map_entries(ld.take(m - 1)) + seq![','])
                + json_map_entries(ld.skip(m - 1))));
        }
    }
}

proof fn lemma_map_parse_progress(
    s: Seq<char>,
    i: int,
    gm: Seq<(Seq<char>, Seq<char>)>,
    m: int,
    k: int,
)
    requires
        token_at(s, i, json_map(gm)),
        0 <= m < gm.len(),
        k == i + 1 + (if m == 0 {
            0int
        } else {
            json_map_entries(gm.take(m)).len() as int + 1
        }),
    ensures
        token_at(s, k, json_string(gm[m].0)),
        s[k + json_string(gm[m].0).len()] == ':',
        token_at(s, k + json_string(gm[m].0).len() + 1, json_string(gm[m].1)),
        m + 1 < gm.len() ==> k + json_string(gm[m].0).len() + 1 + json_string(gm[m].1).len() + 1
            < i + json_map(gm).len() && s[k + json_string(gm[m].0).len() + 1 + json_string(
            gm[m].1,
        ).len()] == ',',
        m + 1 == gm.len() ==> s[k + json_string(gm[m].0).len() + 1 + json_string(
            gm[m].1,
        ).len()] == '}' && k + json_string(gm[m].0).len() + 1 + json_string(gm[m].1).len() + 1
            == i + json_map(gm).len(),
{
    let tok = json_map(gm);
    let l = tok.len();
    lemma_entries_split(gm, m);
    let prefix: Seq<char> = if m == 0 {
        Seq::<char>::empty()
    } else {
        json_map_entries(gm.take(m)) + seq![',']
    };
    assert(json_map_entries(gm) == prefix + json_map_entries(gm.skip(m)));
    assert forall|t: int| 0 <= t < l implies s[i + t] == #[trigger] tok[t] by {
        assert(s.subrange(i, i + l)[t] == tok[t]);
    }
    let jk = json_string(gm[m].0);
    let jv = json_string(gm[m].1);
    let entry = jk + seq![':'] + jv;
    assert(gm.skip(m)[0] == gm[m]);
    if m + 1 < gm.len() {
        assert(gm.skip(m).len() > 1);
        assert(json_map_entries(gm.skip(m)) == entry + seq![','] + json_map_entries(
            gm.skip(m).drop_first(),
        ));
    } else {
        assert(gm.skip(m).len() == 1);
        assert(json_map_entries(gm.skip(m)) == entry);
    }
    assert forall|q: int| 0 <= q < jk.len() implies s[k + q] == jk[q] by {
        let t = 1 + prefix.len() as int + q;
        assert(json_map_entries(gm)[t - 1] == jk[q]);
        assert(tok[t] == json_map_entries(gm)[t - 1]);
        assert(s[i + t] == tok[t]);
    }
    assert(s.subrange(k, k + jk.len()) =~= jk);
    let tc = 1 + prefix.len() as int + jk.len() as int;
    assert(json_map_entries(gm)[tc - 1] == ':');
    assert(tok[tc] == json_map_entries(gm)[tc - 1]);
    assert(s[i + tc] == tok[tc]);
    assert forall|q: int| 0 <= q < jv.len() implies s[k + jk.len() + 1 + q] == jv[q] by {
        let t = 1 + prefix.len() as int + jk.len() as int + 1 + q;
        assert(json_map_entries(gm)[t - 1] == jv[q]);
        assert(tok[t] == json_map_entries(gm)[t - 1]);
        assert(s[i + t] == tok[t]);
    }
    assert(s.subrange(k + jk.len() + 1, k + jk.len() + 1 + jv.len()) =~= jv);
    let te = 1 + prefix.len() as int + entry.len() as int;
    if m + 1 < gm.len() {
        assert(json_map_entries(gm)[te - 1] == ',');
        assert(tok[te] == json_map_entries(gm)[te - 1]);
        assert(s[i + te] == tok[te]);
    } else {
        assert(te == 1 + json_map_entries(gm).len());
        assert(tok[te] == '}');
        assert(s[i + te] == tok[te]);
    }
}

/// Consumes one JSON object of strings at `i`, insisting on the canonical
/// key order; succeeds on exactly the encoder's object form.
#[verifier::rlimit(100)]
fn parse_json_map(s: &str, i: usize) -> (r: Option<(StringMap, usize)>)
    ensures
        r matches Some(p) ==> i < p.1 <= s@.len() && p.0.wf() && p.1 == i + json_map(p.0@).len()
            && token_at(s@, i as int, json_map(p.0@)),
        (exists|gm: Seq<(Seq<char>, Seq<char>)>| sm_sorted(gm) && token_at(
            s@,
            i as int,
            json_map(gm),
        )) ==> r is Some,
{
    let n = s.unicode_len();
    let ghost hw = exists|gm: Seq<(Seq<char>, Seq<char>)>| sm_sorted(gm) && token_at(
        s@,
        i as int,
        json_map(gm),
    );
    let ghost gm: Seq<(Seq<char>, Seq<char>)> = if hw {
        choose|gm: Seq<(Seq<char>, Seq<char>)>| sm_sorted(gm) && token_at(
            s@,
            i as int,
            json_map(gm),
        )
    } else {
        Seq::empty()
    };
    if i >= n || s.get_char(i) != '{' {
        proof {
            if hw {
                assert(json_map(gm)[0] == '{');
                assert(s@.subrange(i as int, i + json_map(gm).len())[0] == json_map(gm)[0]);
            }
        }
        return None;
    }
    let mut out = StringMap::new();
    let k0 = i + 1;
    if k0 < n && s.get_char(k0) == '}' {
        proof {
            assert(out@ =~= Seq::<(Seq<char>, Seq<char>)>::empty());
            assert(json_map_entries(out@) =~= Seq::<char>::empty());
            assert(s@.subrange(i as int, i + 2) =~= json_map(out@));
        }
        return Some((out, k0 + 1));
    }
    proof {
        if hw {
            if gm.len() == 0 {
                assert(json_map(gm).len() == 2);
                assert(json_map(gm)[1] == '}');
                assert(s@.subrange(i as int, i + 2)[1] == json_map(gm)[1]);
                assert(false);
            }
        }
    }
    let mut k: usize = k0;
    loop
        invariant
            i < k <= n,
            n == s@.len(),
            s@[i as int] == '{',
            out.wf(),
            out@.len() == 0 ==> k == i + 1,
            out@.len() > 0 ==> s@.subrange(i + 1, k as int) == json_map_entries(out@)
                + seq![','],
            hw == exists|w: Seq<(Seq<char>, Seq<char>)>| sm_sorted(w) && token_at(
                s@,
                i as int,
                json_map(w),
            ),
            hw ==> sm_sorted(gm) && token_at(s@, i as int, json_map(gm)) && out@.len()
                < gm.len() && out@ == gm.take(out@.len() as int),
        decreases n - k,
    {
        let ghost m = out@.len() as int;
        proof {
            if hw {
                if m > 0 {
                    assert(json_map_entries(gm.take(m)) == json_map_entries(out@));
                }
                lemma_map_parse_progress(s@, i as int, gm, m, k as int);
            }
        }
        let parsed_key = match parse_json_string(s, k) {
            Some(p) => p,
            None => {
                proof {
                    if hw {
                        assert(false);
                    }
                }
                return None;
            },
        };
        let (key, j1) = parsed_key;
        proof {
            if hw {
                lemma_token_skip(s@, k as int, json_string(key@));
                lemma_token_skip(s@, k as int, json_string(gm[m].0));
                crate::crds::json_laws::lemma_string_token(
                    key@,
                    gm[m].0,
                    s@.skip(k + json_string(key@).len()),
                    s@.skip(k + json_string(gm[m].0).len()),
                );
            }
        }
        if j1 >= n || s.get_char(j1) != ':' {
            proof {
                if hw {
                    assert(false);
                }
            }
            return None;
        }
        let parsed_value = match parse_json_string(s, j1 + 1) {
            Some(p) => p,
            None => {
                proof {
                    if hw {
                        assert(false);
                    }
                }
                return None;
            },
        };
        let (value, j2) = parsed_value;
        proof {
            if hw {
                lemma_token_skip(s@, j1 + 1, json_string(value@));
                lemma_token_skip(s@, j1 + 1, json_string(gm[m].1));
                crate::crds::json_laws::lemma_string_token(
                    value@,
                    gm[m].1,
                    s@.skip(j1 + 1 + json_string(value@).len()),
                    s@.skip(j1 + 1 + json_string(gm[m].1).len()),
                );
            }
        }
        let ghost gk = key@;
        let ghost gv = value@;
        if out.len() > 0 {
            let last = out.len() - 1;
            if !crate::string_map::str_lt(out.key_at(last).as_str(), key.as_str()) {
                proof {
                    if hw {
                        assert(out@[m - 1] == gm[m - 1]);
                        assert(chars_lt(gm[m - 1].0, gm[m].0));
                    }
                }
                return None;
            }
        }
        proof {
            assert forall|q: int| 0 <= q < out@.len() implies chars_lt(
                #[trigger] out@[q].0,
                key@,
            ) by {
                if q < out@.len() - 1 {
                    assert(chars_lt(out@[q].0, out@[out@.len() - 1].0));
                    crate::string_map::lemma_chars_lt_trans(
                        out@[q].0,
                        out@[out@.len() - 1].0,
                        key@,
                    );
                }
            }
            crate::string_map::lemma_sm_insert_append(out@, key@, value@);
        }
        let ghost old_out = out@;
        out.insert(key, value);
        proof {
            assert(out@ == old_out.push((gk, gv)));
        }
        if j2 >= n {
            proof {
                if hw {
                    assert(false);
                }
            }
            return None;
        }
        let c = s.get_char(j2);
        proof {
            lemma_json_map_entries_push(old_out, (gk, gv));
            if old_out.len() == 0 {
                assert(s@.subrange(i + 1, j2 as int) =~= json_string(gk) + seq![':']
                    + json_string(gv));
            } else {
                assert(s@.subrange(i + 1, j2 as int) =~= ((json_map_entries(old_out)
                    + seq![',']) + json_string(gk)) + seq![':'] + json_string(gv));
            }
            assert(s@.subrange(i + 1, j2 as int) =~= json_map_entries(out@));
        }
        if c == '}' {
            proof {
                assert(s@.subrange(i as int, j2 + 1) =~= seq!['{'] + json_map_entries(out@)
                    + seq!['}']);
            }
            return Some((out, j2 + 1));
        }
        if c != ',' {
            proof {
                if hw {
                    assert(false);
                }
            }
            return None;
        }
        proof {
            if hw {
                assert(out@ =~= gm.take(m + 1));
            }
            assert(s@.subrange(i + 1, j2 + 1) =~= json_map_entries(out@) + seq![',']);
        }
        k = j2 + 1;
    }
}

fn parse_json_opt_list(s: &str, i: usize) -> (r: Option<(Option<Vec<String>>, usize)>)
    ensures
        r matches Some(p) ==> i < p.1 <= s@.len() && p.1 == i + json_opt_list(
            p.0.deep_view(),
        ).len() && token_at(s@, i as int, json_opt_list(p.0.deep_view())),
        (exists|o: Option<Seq<Seq<char>>>| token_at(s@, i as int, json_opt_list(o))) ==> r
            is Some,
{
    proof {
        reveal_strlit("null");
    }
    match expect_lit(s, i, "null") {
        Some(j) => Some((None, j)),
        None => match parse_json_list(s, i) {
            Some((l, j)) => {
                proof {
                    assert(json_opt_list(Some(l.deep_view())) == json_list(l.deep_view()));
                }
                Some((Some(l), j))
            },
            None => {
                proof {
                    if exists|o: Option<Seq<Seq<char>>>| token_at(
                        s@,
                        i as int,
                        json_opt_list(o),
                    ) {
                        let o = choose|o: Option<Seq<Seq<char>>>| token_at(
                            s@,
                            i as int,
                            json_opt_list(o),
                        );
                        match o {
                            Option::None => {
                                assert(token_at(s@, i as int, "null"@));
                            },
                            Option::Some(ls) => {
                                assert(json_opt_list(Some(ls)) == json_list(ls));
                                assert(token_at(s@, i as int, json_list(ls)));
                            },
                        }
                    }
                }
                None
            },
        },
    }
}

fn parse_json_opt_map(s: &str, i: usize) -> (r: Option<(Option<StringMap>, usize)>)
    ensures
        r matches Some(p) ==> i < p.1 <= s@.len() && p.1 == i + json_opt_map(
            p.0.deep_view(),
        ).len() && token_at(s@, i as int, json_opt_map(p.0.deep_view())) && (p.0 matches Some(mm)
            ==> mm.wf()),
        (exists|o: Option<Seq<(Seq<char>, Seq<char>)>>|
            (o matches Some(w) ==> sm_sorted(w)) && token_at(s@, i as int, json_opt_map(o)))
            ==> r is Some,
{
    proof {
        reveal_strlit("null");
    }
    match expect_lit(s, i, "null") {
        Some(j) => Some((None, j)),
        None => match parse_json_map(s, i) {
            Some((m, j)) => {
                proof {
                    assert(json_opt_map(Some(m@)) == json_map(m@));
                }
                Some((Some(m), j))
            },
            None => {
                proof {
                    if exists|o: Option<Seq<(Seq<char>, Seq<char>)>>|
                        (o matches Some(w) ==> sm_sorted(w)) && token_at(
                        s@,
                        i as int,
                        json_opt_map(o),
                    ) {
                        let o = choose|o: Option<Seq<(Seq<char>, Seq<char>)>>|
                            (o matches Some(w) ==> sm_sorted(w)) && token_at(
                            s@,
                            i as int,
                            json_opt_map(o),
                        );
                        match o {
                            Option::None => {
                                assert(token_at(s@, i as int, "null"@));
                            },
                            Option::Some(w) => {
                                assert(json_opt_map(Some(w)) == json_map(w));
                                assert(sm_sorted(w) && token_at(s@, i as int, json_map(w)));
                            },
                        }
                    }
                }
                None
            },
        },
    }
}

fn parse_json_opt_resources(s: &str, i: usize) -> (r: Option<(Option<FunctionResources>, usize)>)
    ensures
        r matches Some(p) ==> i < p.1 <= s@.len() && p.1 == i + json_opt_resources(
            p.0.deep_view(),
        ).len() && token_at(s@, i as int, json_opt_resources(p.0.deep_view())),
        (exists|o: Option<FunctionResourcesView>| token_at(s@, i as int, json_opt_resources(o)))
            ==> r is Some,
{
    proof {
        reveal_strlit("null");
        reveal_strlit("{\"memory\":");
        reveal_strlit(",\"cpu\":");
    }
    if let Some(j) = expect_lit(s, i, "null") {
        return Some((None, j));
    }
    let ghost hw = exists|fr: FunctionResourcesView| token_at(s@, i as int, json_resources(fr));
    let ghost gfr: FunctionResourcesView = if hw {
        choose|fr: FunctionResourcesView| token_at(s@, i as int, json_resources(fr))
    } else {
        FunctionResourcesView { memory: None, cpu: None }
    };
    proof {
        if exists|o: Option<FunctionResourcesView>| token_at(
            s@,
            i as int,
            json_opt_resources(o),
        ) {
            let o = choose|o: Option<FunctionResourcesView>| token_at(
                s@,
                i as int,
                json_opt_resources(o),
            );
            match o {
                Option::None => {
                    assert(token_at(s@, i as int, "null"@));
                    assert(false);
                },
                Option::Some(fr) => {
                    assert(token_at(s@, i as int, json_resources(fr)));
                    assert(hw);
                },
            }
        }
        if hw {
            lemma_token_split(
                s@,
                i as int,
                "{\"memory\":"@,
                json_opt_string(gfr.memory) + (",\"cpu\":"@ + (json_opt_string(gfr.cpu)
                    + seq!['}'])),
            );
        }
    }
    let i1 = match expect_lit(s, i, "{\"memory\":") {
        Some(j) => j,
        None => {
            proof {
                if hw {
                    assert(false);
                }
            }
            return None;
        },
    };
    proof {
        if hw {
            lemma_token_split(
                s@,
                i1 as int,
                json_opt_string(gfr.memory),
                ",\"cpu\":"@ + (json_opt_string(gfr.cpu) + seq!['}']),
            );
        }
    }
    let (memory, i2) = match parse_json_opt_string(s, i1) {
        Some(p) => p,
        None => {
            proof {
                if hw {
                    assert(false);
                }
            }
            return None;
        },
    };
    proof {
        if hw {
            lemma_token_skip(s@, i1 as int, json_opt_string(memory.deep_view()));
            lemma_token_skip(s@, i1 as int, json_opt_string(gfr.memory));
            crate::crds::json_laws::lemma_opt_string_token(
                memory.deep_view(),
                gfr.memory,
                s@.skip(i1 + json_opt_string(memory.deep_view()).len()),
                s@.skip(i1 + json_opt_string(gfr.memory).len()),
            );
            lemma_token_split(
                s@,
                i2 as int,
                ",\"cpu\":"@,
                json_opt_string(gfr.cpu) + seq!['}'],
            );
        }
    }
    let i3 = match expect_lit(s, i2, ",\"cpu\":") {
        Some(j) => j,
        None => {
            proof {
                if hw {
                    assert(false);
                }
            }
            return None;
        },
    };
    proof {
        if hw {
            lemma_token_split(s@, i3 as int, json_opt_string(gfr.cpu), seq!['}']);
        }
    }
    let (cpu, i4) = match parse_json_opt_string(s, i3) {
        Some(p) => p,
        None => {
            proof {
                if hw {
                    assert(false);
                }
            }
            return None;
        },
    };
    proof {
        if hw {
            lemma_token_skip(s@, i3 as int, json_opt_string(cpu.deep_view()));
            lemma_token_skip(s@, i3 as int, json_opt_string(gfr.cpu));
            crate::crds::json_laws::lemma_opt_string_token(
                cpu.deep_view(),
                gfr.cpu,
                s@.skip(i3 + json_opt_string(cpu.deep_view()).len()),
                s@.skip(i3 + json_opt_string(gfr.cpu).len()),
            );
        }
    }
    let i5 = match expect_lit(s, i4, "}") {
        Some(j) => j,
        None => {
            proof {
                reveal_strlit("}");
                if hw {
                    assert(token_at(s@, i4 as int, seq!['}']));
                    assert(token_at(s@, i4 as int, "}"@)) by {
                        assert("}"@ =~= seq!['}']);
                    }
                    assert(false);
                }
            }
            return None;
        },
    };
    let fr = FunctionResources { memory, cpu };
    proof {
        reveal_strlit("}");
        assert("}"@ =~= seq!['}']);
        assert(token_at(s@, i4 as int, seq!['}']));
        lemma_token_join(s@, i3 as int, json_opt_string(fr@.cpu), seq!['}']);
        lemma_token_join(
            s@,
            i2 as int,
            ",\"cpu\":"@,
            json_opt_string(fr@.cpu) + seq!['}'],
        );
        lemma_token_join(
            s@,
            i1 as int,
            json_opt_string(fr@.memory),
            ",\"cpu\":"@ + (json_opt_string(fr@.cpu) + seq!['}']),
        );
        lemma_token_join(
            s@,
            i as int,
            "{\"memory\":"@,
            json_opt_string(fr@.memory) + (",\"cpu\":"@ + (json_opt_string(fr@.cpu)
                + seq!['}'])),
        );
        assert(token_at(s@, i as int, json_resources(fr@)));
    }
    Some((Some(fr), i5))
}

#[verifier::rlimit(100)]
fn parse_fields_head(
    s: &str,
    i: usize,
    Ghost(hw): Ghost<bool>,
    Ghost(gv): Ghost<OpenFaasFunctionSpecView>,
) -> (r: Option<(String, String, Option<String>, Option<String>, Option<StringMap>, usize)>)
    requires
        hw ==> token_at(s@, i as int, json_of_spec(gv)) && crate::crds::impls::spec_wf(gv),
    ensures
        r matches Some(t) ==> t.5 <= s@.len() && (t.4 matches Some(m) ==> m.wf()),
        hw ==> (r matches Some(t) && t.0@ == gv.service && t.1@ == gv.image && t.2.deep_view()
            == gv.namespace && t.3.deep_view() == gv.env_process && t.4.deep_view() == gv.env_vars
            && token_at(s@, t.5 as int, json_tail_constraints(gv)) && t.5 + json_tail_constraints(
            gv,
        ).len() == i + json_of_spec(gv).len()),
{
    proof {
        if hw {
            lemma_token_split(s@, i as int, "{\"service\":"@, json_string(gv.service) + (json_tail_image(gv)));
        }
    }
    let p0 = match expect_lit(s, i, "{\"service\":") {
        Some(j) => j,
        None => {
            proof {
                if hw {
                    assert(false);
                }
            }
            return None;
        },
    };
    proof {
        if hw {
            lemma_token_split(s@, p0 as int, json_string(gv.service), json_tail_image(gv));
        }
    }
    let (service, q0) = match parse_json_string(s, p0) {
        Some(p) => p,
        None => {
            proof {
                if hw {
                    assert(false);
                }
            }
            return None;
        },
    };
    proof {
        if hw {
            lemma_token_skip(s@, p0 as int, json_string(service@));
            lemma_token_skip(s@, p0 as int, json_string(gv.service));
            crate::crds::json_laws::lemma_string_token(
                service@,
                gv.service,
                s@.skip(p0 + json_string(service@).len()),
                s@.skip(p0 + json_string(gv.service).len()),
            );
        }
    }
    proof {
        if hw {
            lemma_token_split(s@, q0 as int, ",\"image\":"@, json_string(gv.image) + (json_tail_namespace(gv)));
        }
    }
    let p1 = match expect_lit(s, q0, ",\"image\":") {
        Some(j) => j,
        None => {
            proof {
                if hw {
                    assert(false);
                }
            }
            return None;
        },
    };
    proof {
        if hw {
            lemma_token_split(s@, p1 as int, json_string(gv.image), json_tail_namespace(gv));
        }
    }
    let (image, q1) = match parse_json_string(s, p1) {
        Some(p) => p,
        None => {
            proof {
                if hw {
                    assert(false);
                }
            }
            return None;
        },
    };
    proof {
        if hw {
            lemma_token_skip(s@, p1 as int, json_string(image@));
            lemma_token_skip(s@, p1 as int, json_string(gv.image));
            crate::crds::json_laws::lemma_string_token(
                image@,
                gv.image,
                s@.skip(p1 + json_string(image@).len()),
                s@.skip(p1 + json_string(gv.image).len()),
            );
        }
    }
    proof {
        if hw {
            lemma_token_split(s@, q1 as int, ",\"namespace\":"@, json_opt_string(gv.namespace) + (json_tail_env_process(gv)));
        }
    }
    let p2 = match expect_lit(s, q1, ",\"namespace\":") {
        Some(j) => j,
        None => {
            proof {
                if hw {
                    assert(false);
                }
            }
            return None;
        },
    };
    proof {
        if hw {
            lemma_token_split(s@, p2 as int, json_opt_string(gv.namespace), json_tail_env_process(gv));
        }
    }
    let (namespace, q2) = match parse_json_opt_string(s, p2) {
        Some(p) => p,
        None => {
            proof {
                if hw {
                    assert(false);
                }
            }
            return None;
        },
    };
    proof {
        if hw {
            lemma_token_skip(s@, p2 as int, json_opt_string(namespace.deep_view()));
            lemma_token_skip(s@, p2 as int, json_opt_string(gv.namespace));
            crate::crds::json_laws::lemma_opt_string_token(
                namespace.deep_view(),
                gv.namespace,
                s@.skip(p2 + json_opt_string(namespace.deep_view()).len()),
                s@.skip(p2 + json_opt_string(gv.namespace).len()),
            );
        }
    }
    proof {
        if hw {
            lemma_token_split(s@, q2 as int, ",\"envProcess\":"@, json_opt_string(gv.env_process) + (json_tail_env_vars(gv)));
        }
    }
    let p3 = match expect_lit(s, q2, ",\"envProcess\":") {
        Some(j) => j,
        None => {
            proof {
                if hw {
                    assert(false);
                }
            }
            return None;
        },
    };
    proof {
        if hw {
            lemma_token_split(s@, p3 as int, json_opt_string(gv.env_process), json_tail_env_vars(gv));
        }
    }
    let (env_process, q3) = match parse_json_opt_string(s, p3) {
        Some(p) => p,
        None => {
            proof {
                if hw {
                    assert(false);
                }
            }
            return None;
        },
    };
    proof {
        if hw {
            lemma_token_skip(s@, p3 as int, json_opt_string(env_process.deep_view()));
            lemma_token_skip(s@, p3 as int, json_opt_string(gv.env_process));
            crate::crds::json_laws::lemma_opt_string_token(
                env_process.deep_view(),
                gv.env_process,
                s@.skip(p3 + json_opt_string(env_process.deep_view()).len()),
                s@.skip(p3 + json_opt_string(gv.env_process).len()),
            );
        }
    }
    proof {
        if hw {
            lemma_token_split(s@, q3 as int, ",\"envVars\":"@, json_opt_map(gv.env_vars) + (json_tail_constraints(gv)));
        }
    }
    let p4 = match expect_lit(s, q3, ",\"envVars\":") {
        Some(j) => j,
        None => {
            proof {
                if hw {
                    assert(false);
                }
            }
            return None;
        },
    };
    proof {
        if hw {
            lemma_token_split(s@, p4 as int, json_opt_map(gv.env_vars), json_tail_constraints(gv));
        }
    }
    proof {
        if hw {
            assert((gv.env_vars matches Some(w) ==> crate::string_map::sm_sorted(w)) && token_at(
                s@,
                p4 as int,
                json_opt_map(gv.env_vars),
            ));
        }
    }
    let (env_vars, q4) = match parse_json_opt_map(s, p4) {
        Some(p) => p,
        None => {
            proof {
                if hw {
                    assert(false);
                }
            }
            return None;
        },
    };
    proof {
        if hw {
            lemma_token_skip(s@, p4 as int, json_opt_map(env_vars.deep_view()));
            lemma_token_skip(s@, p4 as int, json_opt_map(gv.env_vars));
            crate::crds::json_laws::lemma_opt_map_token(
                env_vars.deep_view(),
                gv.env_vars,
                s@.skip(p4 + json_opt_map(env_vars.deep_view()).len()),
                s@.skip(p4 + json_opt_map(gv.env_vars).len()),
            );
        }
    }
    Some((service, image, namespace, env_process, env_vars, q4))
}

#[verifier::rlimit(100)]
fn parse_fields_mid(
    s: &str,
    i: usize,
    Ghost(hw): Ghost<bool>,
    Ghost(gv): Ghost<OpenFaasFunctionSpecView>,
) -> (r: Option<
    (Option<Vec<String>>, Option<Vec<String>>, Option<StringMap>, Option<StringMap>, usize),
>)
    requires
        hw ==> token_at(s@, i as int, json_tail_constraints(gv)) && crate::crds::impls::spec_wf(
            gv,
        ),
    ensures
        r matches Some(t) ==> t.4 <= s@.len() && (t.2 matches Some(m) ==> m.wf()) && (
        t.3 matches Some(m) ==> m.wf()),
        hw ==> (r matches Some(t) && t.0.deep_view() == gv.constraints && t.1.deep_view()
            == gv.secrets && t.2.deep_view() == gv.labels && t.3.deep_view() == gv.annotations
            && token_at(s@, t.4 as int, json_tail_limits(gv)) && t.4 + json_tail_limits(gv).len()
            == i + json_tail_constraints(gv).len()),
{
    proof {
        if hw {
            lemma_token_split(s@, i as int, ",\"constraints\":"@, json_opt_list(gv.constraints) + (json_tail_secrets(gv)));
        }
    }
    let p0 = match expect_lit(s, i, ",\"constraints\":") {
        Some(j) => j,
        None => {
            proof {
                if hw {
                    assert(false);
                }
            }
            return None;
        },
    };
    proof {
        if hw {
            lemma_token_split(s@, p0 as int, json_opt_list(gv.constraints), json_tail_secrets(gv));
        }
    }
    let (constraints, q0) = match parse_json_opt_list(s, p0) {
        Some(p) => p,
        None => {
            proof {
                if hw {
                    assert(false);
                }
            }
            return None;
        },
    };
    proof {
        if hw {
            lemma_token_skip(s@, p0 as int, json_opt_list(constraints.deep_view()));
            lemma_token_skip(s@, p0 as int, json_opt_list(gv.constraints));
            crate::crds::json_laws::lemma_opt_list_token(
                constraints.deep_view(),
                gv.constraints,
                s@.skip(p0 + json_opt_list(constraints.deep_view()).len()),
                s@.skip(p0 + json_opt_list(gv.constraints).len()),
            );
        }
    }
    proof {
        if hw {
            lemma_token_split(s@, q0 as int, ",\"secrets\":"@, json_opt_list(gv.secrets) + (json_tail_labels(gv)));
        }
    }
    let p1 = match expect_lit(s, q0, ",\"secrets\":") {
        Some(j) => j,
        None => {
            proof {
                if hw {
                    assert(false);
                }
            }
            return None;
        },
    };
    proof {
        if hw {
            lemma_token_split(s@, p1 as int, json_opt_list(gv.secrets), json_tail_labels(gv));
        }
    }
    let (secrets, q1) = match parse_json_opt_list(s, p1) {
        Some(p) => p,
        None => {
            proof {
                if hw {
                    assert(false);
                }
            }
            return None;
        },
    };
    proof {
        if hw {
            lemma_token_skip(s@, p1 as int, json_opt_list(secrets.deep_view()));
            lemma_token_skip(s@, p1 as int, json_opt_list(gv.secrets));
            crate::crds::json_laws::lemma_opt_list_token(
                secrets.deep_view(),
                gv.secrets,
                s@.skip(p1 + json_opt_list(secrets.deep_view()).len()),
                s@.skip(p1 + json_opt_list(gv.secrets).len()),
            );
        }
    }
    proof {
        if hw {
            lemma_token_split(s@, q1 as int, ",\"labels\":"@, json_opt_map(gv.labels) + (json_tail_annotations(gv)));
        }
    }
    let p2 = match expect_lit(s, q1, ",\"labels\":") {
        Some(j) => j,
        None => {
            proof {
                if hw {
                    assert(false);
                }
            }
            return None;
        },
    };
    proof {
        if hw {
            lemma_token_split(s@, p2 as int, json_opt_map(gv.labels), json_tail_annotations(gv));
        }
    }
    proof {
        if hw {
            assert((gv.labels matches Some(w) ==> crate::string_map::sm_sorted(w)) && token_at(
                s@,
                p2 as int,
                json_opt_map(gv.labels),
            ));
        }
    }
    let (labels, q2) = match parse_json_opt_map(s, p2) {
        Some(p) => p,
        None => {
            proof {
                if hw {
                    assert(false);
                }
            }
            return None;
        },
    };
    proof {
        if hw {
            lemma_token_skip(s@, p2 as int, json_opt_map(labels.deep_view()));
            lemma_token_skip(s@, p2 as int, json_opt_map(gv.labels));
            crate::crds::json_laws::lemma_opt_map_token(
                labels.deep_view(),
                gv.labels,
                s@.skip(p2 + json_opt_map(labels.deep_view()).len()),
                s@.skip(p2 + json_opt_map(gv.labels).len()),
            );
        }
    }
    proof {
        if hw {
            lemma_token_split(s@, q2 as int, ",\"annotations\":"@, json_opt_map(gv.annotations) + (json_tail_limits(gv)));
        }
    }
    let p3 = match expect_lit(s, q2, ",\"annotations\":") {
        Some(j) => j,
        None => {
            proof {
                if hw {
                    assert(false);
                }
            }
            return None;
        },
    };
    proof {
        if hw {
            lemma_token_split(s@, p3 as int, json_opt_map(gv.annotations), json_tail_limits(gv));
        }
    }
    proof {
        if hw {
            assert((gv.annotations matches Some(w) ==> crate::string_map::sm_sorted(w)) && token_at(
                s@,
                p3 as int,
                json_opt_map(gv.annotations),
            ));
        }
    }
    let (annotations, q3) = match parse_json_opt_map(s, p3) {
        Some(p) => p,
        None => {
            proof {
                if hw {
                    assert(false);
                }
            }
            return None;
        },
    };
    proof {
        if hw {
            lemma_token_skip(s@, p3 as int, json_opt_map(annotations.deep_view()));
            lemma_token_skip(s@, p3 as int, json_opt_map(gv.annotations));
            crate::crds::json_laws::lemma_opt_map_token(
                annotations.deep_view(),
                gv.annotations,
                s@.skip(p3 + json_opt_map(annotations.deep_view()).len()),
                s@.skip(p3 + json_opt_map(gv.annotations).len()),
            );
        }
    }
    Some((constraints, secrets, labels, annotations, q3))
}

#[verifier::rlimit(100)]
fn parse_fields_tail(
    s: &str,
    i: usize,
    Ghost(hw): Ghost<bool>,
    Ghost(gv): Ghost<OpenFaasFunctionSpecView>,
) -> (r: Option<
    (Option<FunctionResources>, Option<FunctionResources>, Option<bool>, Option<String>, usize),
>)
    requires
        hw ==> token_at(s@, i as int, json_tail_limits(gv)),
    ensures
        r matches Some(t) ==> t.4 <= s@.len(),
        hw ==> (r matches Some(t) && t.0.deep_view() == gv.limits && t.1.deep_view()
            == gv.requests && t.2 == gv.read_only_root_filesystem && t.3.deep_view()
            == gv.secrets_mount_path && t.4 == i + json_tail_limits(gv).len()),
{
    proof {
        if hw {
            lemma_token_split(s@, i as int, ",\"limits\":"@, json_opt_resources(gv.limits) + (json_tail_requests(gv)));
        }
    }
    let p0 = match expect_lit(s, i, ",\"limits\":") {
        Some(j) => j,
        None => {
            proof {
                if hw {
                    assert(false);
                }
            }
            return None;
        },
    };
    proof {
        if hw {
            lemma_token_split(s@, p0 as int, json_opt_resources(gv.limits), json_tail_requests(gv));
        }
    }
    let (limits, q0) = match parse_json_opt_resources(s, p0) {
        Some(p) => p,
        None => {
            proof {
                if hw {
                    assert(false);
                }
            }
            return None;
        },
    };
    proof {
        if hw {
            lemma_token_skip(s@, p0 as int, json_opt_resources(limits.deep_view()));
            lemma_token_skip(s@, p0 as int, json_opt_resources(gv.limits));
            crate::crds::json_laws::lemma_opt_resources_token(
                limits.deep_view(),
                gv.limits,
                s@.skip(p0 + json_opt_resources(limits.deep_view()).len()),
                s@.skip(p0 + json_opt_resources(gv.limits).len()),
            );
        }
    }
    proof {
        if hw {
            lemma_token_split(s@, q0 as int, ",\"requests\":"@, json_opt_resources(gv.requests) + (json_tail_read_only(gv)));
        }
    }
    let p1 = match expect_lit(s, q0, ",\"requests\":") {
        Some(j) => j,
        None => {
            proof {
                if hw {
                    assert(false);
                }
            }
            return None;
        },
    };
    proof {
        if hw {
            lemma_token_split(s@, p1 as int, json_opt_resources(gv.requests), json_tail_read_only(gv));
        }
    }
    let (requests, q1) = match parse_json_opt_resources(s, p1) {
        Some(p) => p,
        None => {
            proof {
                if hw {
                    assert(false);
                }
            }
            return None;
        },
    };
    proof {
        if hw {
            lemma_token_skip(s@, p1 as int, json_opt_resources(requests.deep_view()));
            lemma_token_skip(s@, p1 as int, json_opt_resources(gv.requests));
            crate::crds::json_laws::lemma_opt_resources_token(
                requests.deep_view(),
                gv.requests,
                s@.skip(p1 + json_opt_resources(requests.deep_view()).len()),
                s@.skip(p1 + json_opt_resources(gv.requests).len()),
            );
        }
    }
    proof {
        if hw {
            lemma_token_split(s@, q1 as int, ",\"readOnlyRootFilesystem\":"@, json_opt_bool(gv.read_only_root_filesystem) + (json_tail_mount_path(gv)));
        }
    }
    let p2 = match expect_lit(s, q1, ",\"readOnlyRootFilesystem\":") {
        Some(j) => j,
        None => {
            proof {
                if hw {
                    assert(false);
                }
            }
            return None;
        },
    };
    proof {
        if hw {
            lemma_token_split(s@, p2 as int, json_opt_bool(gv.read_only_root_filesystem), json_tail_mount_path(gv));
        }
    }
    let (read_only_root_filesystem, q2) = match parse_json_opt_bool(s, p2) {
        Some(p) => p,
        None => {
            proof {
                if hw {
                    assert(false);
                }
            }
            return None;
        },
    };
    proof {
        if hw {
            lemma_token_skip(s@, p2 as int, json_opt_bool(read_only_root_filesystem));
            lemma_token_skip(s@, p2 as int, json_opt_bool(gv.read_only_root_filesystem));
            crate::crds::json_laws::lemma_opt_bool_token(
                read_only_root_filesystem,
                gv.read_only_root_filesystem,
                s@.skip(p2 + json_opt_bool(read_only_root_filesystem).len()),
                s@.skip(p2 + json_opt_bool(gv.read_only_root_filesystem).len()),
            );
        }
    }
    proof {
        if hw {
            lemma_token_split(s@, q2 as int, ",\"secretsMountPath\":"@, json_opt_string(gv.secrets_mount_path) + (seq!['}']));
        }
    }
    let p3 = match expect_lit(s, q2, ",\"secretsMountPath\":") {
        Some(j) => j,
        None => {
            proof {
                if hw {
                    assert(false);
                }
            }
            return None;
        },
    };
    proof {
        if hw {
            lemma_token_split(s@, p3 as int, json_opt_string(gv.secrets_mount_path), seq!['}']);
        }
    }
    let (secrets_mount_path, q3) = match parse_json_opt_string(s, p3) {
        Some(p) => p,
        None => {
            proof {
                if hw {
                    assert(false);
                }
            }
            return None;
        },
    };
    proof {
        if hw {
            lemma_token_skip(s@, p3 as int, json_opt_string(secrets_mount_path.deep_view()));
            lemma_token_skip(s@, p3 as int, json_opt_string(gv.secrets_mount_path));
            crate::crds::json_laws::lemma_opt_string_token(
                secrets_mount_path.deep_view(),
                gv.secrets_mount_path,
                s@.skip(p3 + json_opt_string(secrets_mount_path.deep_view()).len()),
                s@.skip(p3 + json_opt_string(gv.secrets_mount_path).len()),
            );
        }
    }
    let p_end = match expect_lit(s, q3, "}") {
        Some(j) => j,
        None => {
            proof {
                reveal_strlit("}");
                if hw {
                    assert(token_at(s@, q3 as int, seq!['}']));
                    assert("}"@ =~= seq!['}']);
                    assert(false);
                }
            }
            return None;
        },
    };
    proof {
        reveal_strlit("}");
    }
    Some((limits, requests, read_only_root_filesystem, secrets_mount_path, p_end))
}

impl OpenFaasFunctionSpec {
    /// Parses the canonical serialization; on any string that is the
    /// encoder's output for a well-formed spec, it returns that spec.
    fn parse_canonical(s: &str) -> (r: Option<OpenFaasFunctionSpec>)
        ensures
            r matches Some(sp) ==> crate::crds::impls::spec_wf(sp@),
            forall|v: OpenFaasFunctionSpecView|
                (crate::crds::impls::spec_wf(v) && json_of_spec(v) == s@) ==> (r matches Some(sp)
                    && sp@ == v),
    {
        let n = s.unicode_len();
        let ghost hw = exists|v: OpenFaasFunctionSpecView| crate::crds::impls::spec_wf(v)
            && json_of_spec(v) == s@;
        let ghost gv: OpenFaasFunctionSpecView = if hw {
            choose|v: OpenFaasFunctionSpecView| crate::crds::impls::spec_wf(v) && json_of_spec(v)
                == s@
        } else {
            arbitrary()
        };
        proof {
            if hw {
                assert(s@.subrange(0, s@.len() as int) =~= s@);
                assert(token_at(s@, 0, json_of_spec(gv)));
            }
        }
        let head = match parse_fields_head(s, 0, Ghost(hw), Ghost(gv)) {
            Some(t) => t,
            None => {
                proof {
                    if hw {
                        assert(false);
                    }
                }
                return None;
            },
        };
        let (service, image, namespace, env_process, env_vars, pos_a) = head;
        let mid = match parse_fields_mid(s, pos_a, Ghost(hw), Ghost(gv)) {
            Some(t) => t,
            None => {
                proof {
                    if hw {
                        assert(false);
                    }
                }
                return None;
            },
        };
        let (constraints, secrets, labels, annotations, pos_b) = mid;
        let fin = match parse_fields_tail(s, pos_b, Ghost(hw), Ghost(gv)) {
            Some(t) => t,
            None => {
                proof {
                    if hw {
                        assert(false);
                    }
                }
                return None;
            },
        };
        let (limits, requests, read_only_root_filesystem, secrets_mount_path, p_end) = fin;
        if p_end != n {
            proof {
                if hw {
                    assert(false);
                }
            }
            return None;
        }
        let sp = OpenFaasFunctionSpec {
            service,
            image,
            namespace,
            env_process,
            env_vars,
            constraints,
            secrets,
            labels,
            annotations,
            limits,
            requests,
            read_only_root_filesystem,
            secrets_mount_path,
        };
        proof {
            if hw {
                assert(sp@ =~~= gv);
            }
            assert forall|v: OpenFaasFunctionSpecView|
                crate::crds::impls::spec_wf(v) && json_of_spec(v) == s@ implies Some(sp) matches
                Some(sp2) && sp2@ == v by {
                crate::crds::json_laws::lemma_json_of_spec_injective(v, gv);
            }
            if hw {
                assert(crate::crds::impls::spec_wf(sp@));
            }
        }
        Some(sp)
    }

    /// Decodes a spec from its canonical JSON form: it succeeds on exactly
    /// the serializations the encoder writes, and returns the one spec that
    /// wrote them. A corrupted or foreign serialization is rejected rather
    /// than misread.
    pub fn from_json_str(s: &str) -> (r: Option<OpenFaasFunctionSpec>)
        ensures
            r matches Some(sp) ==> json_of_spec(sp@) == s@ && crate::crds::impls::spec_wf(sp@),
            (exists|v: OpenFaasFunctionSpecView| crate::crds::impls::spec_wf(v) && json_of_spec(v)
                == s@) ==> r is Some,
    {
        let parsed = Self::parse_canonical(s);
        match parsed {
            None => None,
            Some(sp) => {
                let encoded = sp.to_json_string();
                if str_eq(encoded.as_str(), s) {
                    Some(sp)
                } else {
                    proof {
                        if exists|v: OpenFaasFunctionSpecView| crate::crds::impls::spec_wf(v)
                            && json_of_spec(v) == s@ {
                            let v = choose|v: OpenFaasFunctionSpecView|
                                crate::crds::impls::spec_wf(v) && json_of_spec(v) == s@;
                            assert(sp@ == v);
                        }
                    }
                    None
                }
            },
        }
    }
}

} // verus!
