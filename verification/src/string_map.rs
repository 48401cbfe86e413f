//! An ordered string-to-string map.
//!
//! The operator's data model needs mappings (labels, annotations, environment
//! variables, node selectors) whose equality and serialization are
//! deterministic. `StringMap` keeps its entries as a vector of pairs sorted
//! strictly by key, so two maps hold the same entries exactly when they are
//! structurally equal, and iteration order is canonical.

use vstd::prelude::*;
use vstd::string::*;

verus! {

/// Strict lexicographic order on character sequences, by code point.
pub open spec fn chars_lt(a: Seq<char>, b: Seq<char>) -> bool
    decreases a.len() + b.len(),
{
    if b.len() == 0 {
        false
    } else if a.len() == 0 {
        true
    } else if a[0] != b[0] {
        (a[0] as u32) < (b[0] as u32)
    } else {
        chars_lt(a.drop_first(), b.drop_first())
    }
}

proof fn lemma_char_cast_inj(a: char, b: char)
    requires
        a != b,
    ensures
        (a as u32) != (b as u32),
{
    if a as u32 == b as u32 {
        vstd::utf8::char_u32_cast(a, a as u32);
        vstd::utf8::char_u32_cast(b, b as u32);
    }
}

pub proof fn lemma_chars_lt_trichotomy(a: Seq<char>, b: Seq<char>)
    ensures
        chars_lt(a, b) || chars_lt(b, a) || a == b,
    decreases a.len() + b.len(),
{
    if b.len() == 0 {
        if a.len() == 0 {
            assert(a =~= b);
        }
    } else if a.len() == 0 {
    } else if a[0] != b[0] {
        lemma_char_cast_inj(a[0], b[0]);
    } else {
        lemma_chars_lt_trichotomy(a.drop_first(), b.drop_first());
        if !chars_lt(a, b) && !chars_lt(b, a) {
            assert(a.drop_first() == b.drop_first());
            assert forall|i: int| 0 <= i < a.len() implies a[i] == b[i] by {
                if i > 0 {
                    assert(a.drop_first()[i - 1] == a[i]);
                    assert(b.drop_first()[i - 1] == b[i]);
                }
            }
            assert(a =~= b);
        }
    }
}

pub proof fn lemma_chars_lt_irrefl(a: Seq<char>)
    ensures
        !chars_lt(a, a),
    decreases a.len(),
{
    if a.len() > 0 {
        lemma_chars_lt_irrefl(a.drop_first());
    }
}

pub proof fn lemma_chars_lt_trans(a: Seq<char>, b: Seq<char>, c: Seq<char>)
    requires
        chars_lt(a, b),
        chars_lt(b, c),
    ensures
        chars_lt(a, c),
    decreases a.len() + b.len() + c.len(),
{
    if a.len() == 0 {
    } else if a[0] == b[0] {
        if b[0] == c[0] {
            lemma_chars_lt_trans(a.drop_first(), b.drop_first(), c.drop_first());
        }
    } else {
        if b[0] == c[0] {
        } else {
        }
    }
}

pub proof fn lemma_chars_lt_asym(a: Seq<char>, b: Seq<char>)
    requires
        chars_lt(a, b),
    ensures
        !chars_lt(b, a),
        a != b,
{
    if chars_lt(b, a) {
        lemma_chars_lt_trans(a, b, a);
        lemma_chars_lt_irrefl(a);
    }
    if a == b {
        lemma_chars_lt_irrefl(a);
    }
}

/// Whether two strings hold the same characters.
pub fn str_eq(a: &str, b: &str) -> (r: bool)
    ensures
        r == (a@ == b@),
{
    let a_len = a.unicode_len();
    let b_len = b.unicode_len();
    if a_len != b_len {
        return false;
    }
    let mut i: usize = 0;
    while i < a_len
        invariant
            i <= a_len,
            a_len == a@.len(),
            a_len == b@.len(),
            forall|k: int| 0 <= k < i ==> a@[k] == b@[k],
        decreases a_len - i,
    {
        if a.get_char(i) != b.get_char(i) {
            return false;
        }
        i = i + 1;
    }
    proof {
        assert(a@ =~= b@);
    }
    true
}

/// Whether `a` comes strictly before `b` in the canonical key order.
pub fn str_lt(a: &str, b: &str) -> (r: bool)
    ensures
        r == chars_lt(a@, b@),
{
    let a_len = a.unicode_len();
    let b_len = b.unicode_len();
    proof {
        assert(a@.skip(0) =~= a@);
        assert(b@.skip(0) =~= b@);
    }
    let mut i: usize = 0;
    loop
        invariant
            i <= a_len,
            i <= b_len,
            a_len == a@.len(),
            b_len == b@.len(),
            forall|k: int| 0 <= k < i ==> a@[k] == b@[k],
            chars_lt(a@, b@) == chars_lt(a@.skip(i as int), b@.skip(i as int)),
        decreases a_len - i,
    {
        if i >= b_len {
            return false;
        }
        if i >= a_len {
            return true;
        }
        let ca = a.get_char(i);
        let cb = b.get_char(i);
        proof {
            assert(a@.skip(i as int)[0] == a@[i as int]);
            assert(b@.skip(i as int)[0] == b@[i as int]);
        }
        if ca != cb {
            return (ca as u32) < (cb as u32);
        }
        proof {
            assert(a@.skip(i as int).drop_first() =~= a@.skip(i + 1));
            assert(b@.skip(i as int).drop_first() =~= b@.skip(i + 1));
        }
        i = i + 1;
    }
}

/// The value bound to `k` in the pair sequence, searching from the front.
pub open spec fn sm_get(s: Seq<(Seq<char>, Seq<char>)>, k: Seq<char>) -> Option<Seq<char>>
    decreases s.len(),
{
    if s.len() == 0 {
        None
    } else if s[0].0 == k {
        Some(s[0].1)
    } else {
        sm_get(s.drop_first(), k)
    }
}

/// The pair sequence with `k` bound to `v`, inserted at its ordered position.
pub open spec fn sm_insert(
    s: Seq<(Seq<char>, Seq<char>)>,
    k: Seq<char>,
    v: Seq<char>,
) -> Seq<(Seq<char>, Seq<char>)>
    decreases s.len(),
{
    if s.len() == 0 {
        seq![(k, v)]
    } else if chars_lt(k, s[0].0) {
        seq![(k, v)] + s
    } else if s[0].0 == k {
        s.update(0, (k, v))
    } else {
        seq![s[0]] + sm_insert(s.drop_first(), k, v)
    }
}

/// `s` extended by every pair of `t` in order; later pairs override.
pub open spec fn sm_extend(
    s: Seq<(Seq<char>, Seq<char>)>,
    t: Seq<(Seq<char>, Seq<char>)>,
) -> Seq<(Seq<char>, Seq<char>)>
    decreases t.len(),
{
    if t.len() == 0 {
        s
    } else {
        sm_extend(sm_insert(s, t[0].0, t[0].1), t.drop_first())
    }
}

proof fn lemma_sm_extend_push(
    s: Seq<(Seq<char>, Seq<char>)>,
    t: Seq<(Seq<char>, Seq<char>)>,
    p: (Seq<char>, Seq<char>),
)
    ensures
        sm_extend(s, t.push(p)) == sm_insert(sm_extend(s, t), p.0, p.1),
    decreases t.len(),
{
    let tp = t.push(p);
    if t.len() == 0 {
        assert(tp[0] == p);
        assert(tp.drop_first() =~= Seq::<(Seq<char>, Seq<char>)>::empty());
        assert(sm_extend(s, tp) == sm_extend(sm_insert(s, p.0, p.1), tp.drop_first()));
        assert(sm_extend(sm_insert(s, p.0, p.1), tp.drop_first()) == sm_insert(s, p.0, p.1));
        assert(sm_extend(s, t) == s);
    } else {
        assert(tp[0] == t[0]);
        assert(tp.drop_first() =~= t.drop_first().push(p));
        lemma_sm_extend_push(sm_insert(s, t[0].0, t[0].1), t.drop_first(), p);
        assert(sm_extend(s, tp) == sm_extend(sm_insert(s, t[0].0, t[0].1), tp.drop_first()));
        assert(sm_extend(s, t) == sm_extend(sm_insert(s, t[0].0, t[0].1), t.drop_first()));
    }
}

/// Looking up a key right after binding it yields the bound value.
pub proof fn lemma_sm_insert_get(s: Seq<(Seq<char>, Seq<char>)>, k: Seq<char>, v: Seq<char>)
    ensures
        sm_get(sm_insert(s, k, v), k) == Some(v),
    decreases s.len(),
{
    let r = sm_insert(s, k, v);
    if s.len() == 0 {
        assert(r[0] == (k, v));
    } else if chars_lt(k, s[0].0) {
        assert(r[0] == (k, v));
    } else if s[0].0 == k {
        assert(r[0] == (k, v));
    } else {
        lemma_sm_insert_get(s.drop_first(), k, v);
        assert(r[0] == s[0]);
        assert(r.drop_first() =~= sm_insert(s.drop_first(), k, v));
    }
}

/// Binding a key that comes after every existing key appends the pair.
pub proof fn lemma_sm_insert_append(s: Seq<(Seq<char>, Seq<char>)>, k: Seq<char>, v: Seq<char>)
    requires
        forall|j: int| 0 <= j < s.len() ==> chars_lt(#[trigger] s[j].0, k),
    ensures
        sm_insert(s, k, v) == s.push((k, v)),
    decreases s.len(),
{
    if s.len() == 0 {
        assert(sm_insert(s, k, v) =~= s.push((k, v)));
    } else {
        lemma_chars_lt_asym(s[0].0, k);
        let tail = s.drop_first();
        assert(forall|j: int| 0 <= j < tail.len() ==> chars_lt(#[trigger] tail[j].0, k))
            by {
            assert(forall|j: int|
                0 <= j < tail.len() ==> #[trigger] tail[j] == s[j + 1]);
        }
        lemma_sm_insert_append(tail, k, v);
        assert(sm_insert(s, k, v) == seq![s[0]] + tail.push((k, v)));
        assert(seq![s[0]] + tail.push((k, v)) =~= s.push((k, v)));
    }
}

/// Keys strictly ascend, so each key occurs at most once.
pub open spec fn sm_sorted(s: Seq<(Seq<char>, Seq<char>)>) -> bool {
    forall|i: int, j: int| 0 <= i < j < s.len() ==> chars_lt(s[i].0, s[j].0)
}

proof fn lemma_sm_insert_sorted(s: Seq<(Seq<char>, Seq<char>)>, k: Seq<char>, v: Seq<char>)
    requires
        sm_sorted(s),
    ensures
        sm_sorted(sm_insert(s, k, v)),
        forall|i: int|
            0 <= i < sm_insert(s, k, v).len() ==> (sm_insert(s, k, v)[i].0 == k || exists|j: int|
                0 <= j < s.len() && s[j].0 == #[trigger] sm_insert(s, k, v)[i].0),
    decreases s.len(),
{
    let r = sm_insert(s, k, v);
    if s.len() == 0 {
    } else if chars_lt(k, s[0].0) {
        assert forall|i: int, j: int| 0 <= i < j < r.len() implies chars_lt(r[i].0, r[j].0) by {
            if i == 0 {
                if j == 1 {
                } else {
                    lemma_chars_lt_trans(k, s[0].0, s[j - 1].0);
                }
            }
        }
        assert forall|i: int| 0 <= i < r.len() implies (r[i].0 == k || exists|j: int|
            0 <= j < s.len() && s[j].0 == #[trigger] r[i].0) by {
            if i > 0 {
                assert(s[i - 1].0 == r[i].0);
            }
        }
    } else if s[0].0 == k {
        assert forall|i: int| 0 <= i < r.len() implies (r[i].0 == k || exists|j: int|
            0 <= j < s.len() && s[j].0 == #[trigger] r[i].0) by {
            if i > 0 {
                assert(s[i].0 == r[i].0);
            }
        }
    } else {
        lemma_chars_lt_trichotomy(k, s[0].0);
        let tail = s.drop_first();
        assert(sm_sorted(tail)) by {
            assert forall|i: int, j: int| 0 <= i < j < tail.len() implies chars_lt(
                tail[i].0,
                tail[j].0,
            ) by {
                assert(tail[i] == s[i + 1]);
                assert(tail[j] == s[j + 1]);
            }
        }
        lemma_sm_insert_sorted(tail, k, v);
        let rt = sm_insert(tail, k, v);
        assert(r == seq![s[0]] + rt);
        assert forall|i: int, j: int| 0 <= i < j < r.len() implies chars_lt(r[i].0, r[j].0) by {
            if i == 0 {
                assert(r[j].0 == rt[j - 1].0);
                if rt[j - 1].0 == k {
                    assert(chars_lt(s[0].0, k));
                } else {
                    let jj = choose|jj: int| 0 <= jj < tail.len() && tail[jj].0 == rt[j - 1].0;
                    assert(tail[jj] == s[jj + 1]);
                    assert(chars_lt(s[0].0, s[jj + 1].0));
                }
            } else {
                assert(r[i].0 == rt[i - 1].0);
                assert(r[j].0 == rt[j - 1].0);
            }
        }
        assert forall|i: int| 0 <= i < r.len() implies (r[i].0 == k || exists|j: int|
            0 <= j < s.len() && s[j].0 == #[trigger] r[i].0) by {
            if i == 0 {
                assert(s[0].0 == r[0].0);
            } else {
                assert(r[i].0 == rt[i - 1].0);
                if rt[i - 1].0 != k {
                    let jj = choose|jj: int| 0 <= jj < tail.len() && tail[jj].0 == rt[i - 1].0;
                    assert(s[jj + 1].0 == r[i].0);
                }
            }
        }
    }
}

proof fn lemma_sm_insert_skip(
    s: Seq<(Seq<char>, Seq<char>)>,
    k: Seq<char>,
    v: Seq<char>,
    i: int,
)
    requires
        0 <= i <= s.len(),
        forall|j: int| 0 <= j < i ==> chars_lt(s[j].0, k),
    ensures
        sm_insert(s, k, v) == s.subrange(0, i) + sm_insert(s.skip(i), k, v),
    decreases i,
{
    if i == 0 {
        assert(s.skip(0) =~= s);
        assert(s.subrange(0, 0) + sm_insert(s, k, v) =~= sm_insert(s, k, v));
    } else {
        lemma_chars_lt_asym(s[0].0, k);
        let tail = s.drop_first();
        assert forall|j: int| 0 <= j < i - 1 implies chars_lt(#[trigger] tail[j].0, k) by {
            assert(tail[j] == s[j + 1]);
        }
        lemma_sm_insert_skip(tail, k, v, i - 1);
        assert(sm_insert(s, k, v) == seq![s[0]] + sm_insert(tail, k, v));
        assert(tail.subrange(0, i - 1) =~= s.subrange(1, i));
        assert(tail.skip(i - 1) =~= s.skip(i));
        assert(seq![s[0]] + (s.subrange(1, i) + sm_insert(s.skip(i), k, v)) =~= s.subrange(0, i)
            + sm_insert(s.skip(i), k, v));
    }
}

/// A string-to-string mapping with entries kept sorted strictly by key.
#[derive(Debug, Clone, PartialEq, Eq)]
pub struct StringMap {
    pairs: Vec<(String, String)>,
}

impl View for StringMap {
    type V = Seq<(Seq<char>, Seq<char>)>;

    closed spec fn view(&self) -> Seq<(Seq<char>, Seq<char>)> {
        Seq::new(self.pairs@.len(), |i: int| (self.pairs@[i].0@, self.pairs@[i].1@))
    }
}

impl DeepView for StringMap {
    type V = Seq<(Seq<char>, Seq<char>)>;

    open spec fn deep_view(&self) -> Seq<(Seq<char>, Seq<char>)> {
        self.view()
    }
}

impl StringMap {
    /// Entries ascend strictly in the canonical key order.
    pub open spec fn wf(&self) -> bool {
        sm_sorted(self@)
    }

    pub fn new() -> (r: StringMap)
        ensures
            r@ == Seq::<(Seq<char>, Seq<char>)>::empty(),
            r.wf(),
    {
        let r = StringMap { pairs: Vec::new() };
        proof {
            assert(r@ =~= Seq::<(Seq<char>, Seq<char>)>::empty());
        }
        r
    }

    pub fn len(&self) -> (n: usize)
        ensures
            n == self@.len(),
    {
        self.pairs.len()
    }

    pub fn is_empty(&self) -> (b: bool)
        ensures
            b == (self@.len() == 0),
    {
        self.pairs.len() == 0
    }

    pub fn key_at(&self, i: usize) -> (k: &String)
        requires
            i < self@.len(),
        ensures
            k@ == self@[i as int].0,
    {
        &self.pairs[i].0
    }

    pub fn value_at(&self, i: usize) -> (v: &String)
        requires
            i < self@.len(),
        ensures
            v@ == self@[i as int].1,
    {
        &self.pairs[i].1
    }

    /// Binds `key` to `value`, replacing any existing binding.
    pub fn insert(&mut self, key: String, value: String)
        requires
            old(self).wf(),
        ensures
            final(self)@ == sm_insert(old(self)@, key@, value@),
            final(self).wf(),
    {
        let ghost s = self@;
        let n = self.pairs.len();
        let mut i: usize = 0;
        while i < n && str_lt(self.pairs[i].0.as_str(), key.as_str())
            invariant
                i <= n,
                n == self@.len(),
                self@ == s,
                forall|j: int| 0 <= j < i ==> chars_lt(s[j].0, key@),
            decreases n - i,
        {
            i = i + 1;
        }
        proof {
            lemma_sm_insert_skip(s, key@, value@, i as int);
        }
        if i < n && str_eq(self.pairs[i].0.as_str(), key.as_str()) {
            proof {
                assert(s.skip(i as int)[0] == s[i as int]);
                assert(sm_insert(s.skip(i as int), key@, value@) =~= s.skip(i as int).update(
                    0,
                    (key@, value@),
                ));
            }
            self.pairs.set(i, (key, value));
            proof {
                assert(self@ =~= s.subrange(0, i as int) + sm_insert(
                    s.skip(i as int),
                    key@,
                    value@,
                ));
            }
        } else {
            proof {
                if i < n {
                    assert(s.skip(i as int)[0] == s[i as int]);
                    lemma_chars_lt_trichotomy(key@, s[i as int].0);
                    assert(chars_lt(key@, s[i as int].0));
                    assert(sm_insert(s.skip(i as int), key@, value@) =~= seq![(key@, value@)]
                        + s.skip(i as int));
                } else {
                    assert(s.skip(i as int) =~= Seq::<(Seq<char>, Seq<char>)>::empty());
                }
            }
            self.pairs.insert(i, (key, value));
            proof {
                assert(self@ =~= s.subrange(0, i as int) + sm_insert(
                    s.skip(i as int),
                    key@,
                    value@,
                ));
            }
        }
        proof {
            lemma_sm_insert_sorted(s, key@, value@);
        }
    }

    /// The value bound to `key`, if any.
    pub fn get<'a>(&'a self, key: &str) -> (r: Option<&'a String>)
        ensures
            match r {
                Some(v) => sm_get(self@, key@) == Some(v@),
                None => sm_get(self@, key@) is None,
            },
    {
        let n = self.pairs.len();
        proof {
            assert(self@.skip(0) =~= self@);
        }
        let mut i: usize = 0;
        while i < n
            invariant
                i <= n,
                n == self@.len(),
                sm_get(self@, key@) == sm_get(self@.skip(i as int), key@),
            decreases n - i,
        {
            proof {
                assert(self@.skip(i as int)[0] == self@[i as int]);
            }
            if str_eq(self.pairs[i].0.as_str(), key) {
                return Some(&self.pairs[i].1);
            }
            proof {
                assert(self@.skip(i as int).drop_first() =~= self@.skip(i + 1));
            }
            i = i + 1;
        }
        proof {
            assert(self@.skip(n as int) =~= Seq::<(Seq<char>, Seq<char>)>::empty());
        }
        None
    }

    pub fn contains_key(&self, key: &str) -> (b: bool)
        ensures
            b == (sm_get(self@, key@) is Some),
    {
        match self.get(key) {
            Some(_) => true,
            None => false,
        }
    }

    /// A structurally equal copy.
    pub fn duplicate(&self) -> (r: StringMap)
        ensures
            r@ == self@,
            r.wf() == self.wf(),
    {
        let n = self.pairs.len();
        let mut pairs: Vec<(String, String)> = Vec::new();
        let mut i: usize = 0;
        while i < n
            invariant
                i <= n,
                n == self@.len(),
                pairs@.len() == i,
                forall|j: int|
                    0 <= j < i ==> (#[trigger] pairs@[j].0@, pairs@[j].1@) == self@[j],
            decreases n - i,
        {
            let k = self.pairs[i].0.clone();
            let v = self.pairs[i].1.clone();
            pairs.push((k, v));
            i = i + 1;
        }
        let r = StringMap { pairs };
        proof {
            assert(r@ =~= self@);
        }
        r
    }

    /// Adds every entry of `other`, overriding existing bindings.
    pub fn extend(&mut self, other: &StringMap)
        requires
            old(self).wf(),
        ensures
            final(self)@ == sm_extend(old(self)@, other@),
            final(self).wf(),
    {
        let ghost s0 = self@;
        let n = other.len();
        let mut i: usize = 0;
        while i < n
            invariant
                i <= n,
                n == other@.len(),
                self.wf(),
                self@ == sm_extend(s0, other@.take(i as int)),
            decreases n - i,
        {
            proof {
                assert(other@.take(i as int).push(other@[i as int]) =~= other@.take(i + 1));
                lemma_sm_extend_push(s0, other@.take(i as int), other@[i as int]);
            }
            let k = other.key_at(i).clone();
            let v = other.value_at(i).clone();
            self.insert(k, v);
            i = i + 1;
        }
        proof {
            assert(other@.take(n as int) =~= other@);
        }
    }

    /// Whether the two maps hold the same entries.
    pub fn same_entries(&self, other: &StringMap) -> (b: bool)
        ensures
            b == (self@ == other@),
    {
        let n = self.pairs.len();
        if n != other.pairs.len() {
            proof {
                assert(self@.len() != other@.len());
            }
            return false;
        }
        let mut i: usize = 0;
        while i < n
            invariant
                i <= n,
                n == self@.len(),
                n == other@.len(),
                forall|j: int| 0 <= j < i ==> self@[j] == other@[j],
            decreases n - i,
        {
            if !str_eq(self.pairs[i].0.as_str(), other.pairs[i].0.as_str()) {
                proof {
                    assert(self@[i as int].0 != other@[i as int].0);
                    if self@ == other@ {
                        assert(self@[i as int] == other@[i as int]);
                    }
                }
                return false;
            }
            if !str_eq(self.pairs[i].1.as_str(), other.pairs[i].1.as_str()) {
                proof {
                    assert(self@[i as int].1 != other@[i as int].1);
                    if self@ == other@ {
                        assert(self@[i as int] == other@[i as int]);
                    }
                }
                return false;
            }
            i = i + 1;
        }
        proof {
            assert(self@ =~= other@);
        }
        true
    }
}

} // verus!
