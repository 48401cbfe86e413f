//! Comparison helpers over string collections.

use vstd::prelude::*;
use vstd::string::*;
use crate::string_map::{sm_get, str_eq, StringMap};

verus! {

/// Whether `c` has the Unicode `White_Space` property, the set that
/// `char::is_whitespace` recognizes.
pub open spec fn is_whitespace_char(c: char) -> bool {
    let u = c as u32;
    ||| (0x09 <= u && u <= 0x0D)
    ||| u == 0x20
    ||| u == 0x85
    ||| u == 0xA0
    ||| u == 0x1680
    ||| (0x2000 <= u && u <= 0x200A)
    ||| u == 0x2028
    ||| u == 0x2029
    ||| u == 0x202F
    ||| u == 0x205F
    ||| u == 0x3000
}

/// Decides `is_whitespace_char` for a concrete character.
pub fn check_whitespace_char(c: char) -> (r: bool)
    ensures
        r == is_whitespace_char(c),
{
    let u = c as u32;
    (0x09 <= u && u <= 0x0D) || u == 0x20 || u == 0x85 || u == 0xA0 || u == 0x1680 || (0x2000 <= u
        && u <= 0x200A) || u == 0x2028 || u == 0x2029 || u == 0x202F || u == 0x205F || u == 0x3000
}

/// Relies on std's `String::push`: appends the character to the string.
#[verifier::external_body]
pub fn push_char(s: &mut String, c: char)
    ensures
        final(s)@ == old(s)@.push(c),
{
    s.push(c);
}

/// `s` with every whitespace character removed.
pub open spec fn sans_whitespace(s: Seq<char>) -> Seq<char>
    decreases s.len(),
{
    if s.len() == 0 {
        s
    } else {
        let rest = sans_whitespace(s.drop_last());
        if is_whitespace_char(s.last()) {
            rest
        } else {
            rest.push(s.last())
        }
    }
}

/// Returns `s` with every whitespace character removed.
pub fn remove_whitespace(s: &str) -> (r: String)
    ensures
        r@ == sans_whitespace(s@),
{
    let n = s.unicode_len();
    let mut out = String::new();
    proof {
        assert(s@.take(0) =~= Seq::<char>::empty());
    }
    let mut i: usize = 0;
    while i < n
        invariant
            i <= n,
            n == s@.len(),
            out@ == sans_whitespace(s@.take(i as int)),
        decreases n - i,
    {
        let c = s.get_char(i);
        proof {
            assert(s@.take(i + 1).drop_last() =~= s@.take(i as int));
            assert(s@.take(i + 1).last() == s@[i as int]);
        }
        if !check_whitespace_char(c) {
            push_char(&mut out, c);
        }
        i = i + 1;
    }
    proof {
        assert(s@.take(n as int) =~= s@);
    }
    out
}

/// `s` without its leading whitespace.
pub open spec fn trim_front(s: Seq<char>) -> Seq<char>
    decreases s.len(),
{
    if s.len() > 0 && is_whitespace_char(s[0]) {
        trim_front(s.drop_first())
    } else {
        s
    }
}

/// `s` without its trailing whitespace.
pub open spec fn trim_back(s: Seq<char>) -> Seq<char>
    decreases s.len(),
{
    if s.len() > 0 && is_whitespace_char(s.last()) {
        trim_back(s.drop_last())
    } else {
        s
    }
}

/// `s` without its leading and trailing whitespace.
pub open spec fn trimmed(s: Seq<char>) -> Seq<char> {
    trim_back(trim_front(s))
}

/// Returns `s` stripped of whitespace at both ends, keeping the interior.
pub fn trim_whitespace(s: &str) -> (r: String)
    ensures
        r@ == trimmed(s@),
{
    let n = s.unicode_len();
    proof {
        assert(s@.skip(0) =~= s@);
    }
    let mut start: usize = 0;
    while start < n && check_whitespace_char(s.get_char(start))
        invariant
            start <= n,
            n == s@.len(),
            trim_front(s@) == trim_front(s@.skip(start as int)),
        decreases n - start,
    {
        proof {
            assert(s@.skip(start as int)[0] == s@[start as int]);
            assert(s@.skip(start as int).drop_first() =~= s@.skip(start + 1));
        }
        start = start + 1;
    }
    proof {
        if start < n {
            assert(s@.skip(start as int)[0] == s@[start as int]);
        }
        assert(trim_front(s@) == s@.skip(start as int));
    }
    let ghost t = s@.skip(start as int);
    let mut end: usize = n;
    proof {
        assert(t.take(n - start as int) =~= t);
    }
    while end > start && check_whitespace_char(s.get_char(end - 1))
        invariant
            start <= end <= n,
            n == s@.len(),
            t == s@.skip(start as int),
            trim_back(t) == trim_back(t.take(end - start as int)),
        decreases end,
    {
        proof {
            assert(t.take(end - start as int).last() == s@[end - 1]);
            assert(t.take(end - start as int).drop_last() =~= t.take(end - 1 - start as int));
        }
        end = end - 1;
    }
    proof {
        if end > start {
            assert(t.take(end - start as int).last() == s@[end - 1]);
        }
        assert(trim_back(t.take(end - start as int)) == t.take(end - start as int));
    }
    let r = s.substring_char(start, end).to_owned();
    proof {
        assert(r@ =~= t.take(end - start as int));
    }
    r
}

/// The keys of `a` whose key is absent from `b`, in `a`'s order.
pub open spec fn missing_keys(
    a: Seq<(Seq<char>, Seq<char>)>,
    b: Seq<(Seq<char>, Seq<char>)>,
) -> Seq<Seq<char>>
    decreases a.len(),
{
    if a.len() == 0 {
        Seq::empty()
    } else {
        let rest = missing_keys(a.drop_last(), b);
        if sm_get(b, a.last().0) is None {
            rest.push(a.last().0)
        } else {
            rest
        }
    }
}

/// Collects keys from the first map that are not present in the second map.
pub fn collect_missing_keys_btree(first: &StringMap, second: &StringMap) -> (r: Vec<String>)
    ensures
        r.deep_view() == missing_keys(first@, second@),
{
    let n = first.len();
    let mut out: Vec<String> = Vec::new();
    proof {
        assert(first@.take(0) =~= Seq::<(Seq<char>, Seq<char>)>::empty());
        assert(out.deep_view() =~= missing_keys(first@.take(0), second@));
    }
    let mut i: usize = 0;
    while i < n
        invariant
            i <= n,
            n == first@.len(),
            out.deep_view() == missing_keys(first@.take(i as int), second@),
        decreases n - i,
    {
        proof {
            assert(first@.take(i + 1).drop_last() =~= first@.take(i as int));
            assert(first@.take(i + 1).last() == first@[i as int]);
        }
        let key = first.key_at(i);
        if !second.contains_key(key.as_str()) {
            out.push(key.clone());
            proof {
                assert(out.deep_view() =~= missing_keys(first@.take(i + 1), second@));
            }
        }
        i = i + 1;
    }
    proof {
        assert(first@.take(n as int) =~= first@);
    }
    out
}

/// The items of `a` that `b` does not contain, in `a`'s order.
pub open spec fn missing_items(a: Seq<Seq<char>>, b: Seq<Seq<char>>) -> Seq<Seq<char>>
    decreases a.len(),
{
    if a.len() == 0 {
        Seq::empty()
    } else {
        let rest = missing_items(a.drop_last(), b);
        if !b.contains(a.last()) {
            rest.push(a.last())
        } else {
            rest
        }
    }
}

/// Whether some item of `items` holds the same characters as `target`.
pub fn contains_str(items: &Vec<String>, target: &str) -> (r: bool)
    ensures
        r == items.deep_view().contains(target@),
{
    let n = items.len();
    let mut i: usize = 0;
    while i < n
        invariant
            i <= n,
            n == items@.len(),
            forall|j: int| 0 <= j < i ==> items.deep_view()[j] != target@,
        decreases n - i,
    {
        if str_eq(items[i].as_str(), target) {
            proof {
                assert(items.deep_view()[i as int] == target@);
            }
            return true;
        }
        i = i + 1;
    }
    proof {
        if items.deep_view().contains(target@) {
            let j = choose|j: int| 0 <= j < items.deep_view().len()
                && items.deep_view()[j] == target@;
            assert(items.deep_view()[j] != target@);
        }
    }
    false
}

/// Whether some of the first `upto` items of `items` holds the same
/// characters as `target`.
pub fn contains_str_upto(items: &Vec<String>, upto: usize, target: &str) -> (r: bool)
    requires
        upto <= items@.len(),
    ensures
        r == items.deep_view().take(upto as int).contains(target@),
{
    let ghost t = items.deep_view().take(upto as int);
    let mut i: usize = 0;
    while i < upto
        invariant
            i <= upto,
            upto <= items@.len(),
            t == items.deep_view().take(upto as int),
            forall|j: int| 0 <= j < i ==> t[j] != target@,
        decreases upto - i,
    {
        if str_eq(items[i].as_str(), target) {
            proof {
                assert(t[i as int] == target@);
            }
            return true;
        }
        i = i + 1;
    }
    proof {
        if t.contains(target@) {
            let j = choose|j: int| 0 <= j < t.len() && t[j] == target@;
            assert(t[j] != target@);
        }
    }
    false
}

/// A copy of the vector holding the same strings.
pub fn clone_strings(items: &Vec<String>) -> (r: Vec<String>)
    ensures
        r.deep_view() == items.deep_view(),
{
    let n = items.len();
    let mut out: Vec<String> = Vec::new();
    let mut i: usize = 0;
    while i < n
        invariant
            i <= n,
            n == items@.len(),
            out@.len() == i,
            forall|j: int| 0 <= j < i ==> out.deep_view()[j] == items.deep_view()[j],
        decreases n - i,
    {
        out.push(items[i].clone());
        i = i + 1;
    }
    proof {
        assert(out.deep_view() =~= items.deep_view());
    }
    out
}

/// Collects items from the first vector that are not present in the second vector.
pub fn collect_missing_keys_vec(first: &Vec<String>, second: &Vec<String>) -> (r: Vec<String>)
    ensures
        r.deep_view() == missing_items(first.deep_view(), second.deep_view()),
{
    let n = first.len();
    let mut out: Vec<String> = Vec::new();
    proof {
        assert(first.deep_view().take(0) =~= Seq::<Seq<char>>::empty());
        assert(out.deep_view() =~= missing_items(first.deep_view().take(0), second.deep_view()));
    }
    let mut i: usize = 0;
    while i < n
        invariant
            i <= n,
            n == first@.len(),
            n == first.deep_view().len(),
            out.deep_view() == missing_items(first.deep_view().take(i as int), second.deep_view()),
        decreases n - i,
    {
        proof {
            assert(first.deep_view().take(i + 1).drop_last() =~= first.deep_view().take(i as int));
            assert(first.deep_view().take(i + 1).last() == first.deep_view()[i as int]);
        }
        if !contains_str(second, first[i].as_str()) {
            out.push(first[i].clone());
            proof {
                assert(out.deep_view() =~= missing_items(
                    first.deep_view().take(i + 1),
                    second.deep_view(),
                ));
            }
        }
        i = i + 1;
    }
    proof {
        assert(first.deep_view().take(n as int) =~= first.deep_view());
    }
    out
}

/// The first key of `a`, in order, whose binding is absent from `b` or bound
/// to a different value there.
pub open spec fn first_mismatched_key(
    a: Seq<(Seq<char>, Seq<char>)>,
    b: Seq<(Seq<char>, Seq<char>)>,
) -> Option<Seq<char>>
    decreases a.len(),
{
    if a.len() == 0 {
        None
    } else if sm_get(b, a[0].0) != Some(a[0].1) {
        Some(a[0].0)
    } else {
        first_mismatched_key(a.drop_first(), b)
    }
}

/// Returns the first key that is missing or different in the second map.
pub fn a_key_is_missing_or_diffirent_btree(first: &StringMap, second: &StringMap) -> (r: Option<
    String,
>)
    ensures
        match r {
            Some(k) => first_mismatched_key(first@, second@) == Some(k@),
            None => first_mismatched_key(first@, second@) is None,
        },
{
    let n = first.len();
    proof {
        assert(first@.skip(0) =~= first@);
    }
    let mut i: usize = 0;
    while i < n
        invariant
            i <= n,
            n == first@.len(),
            first_mismatched_key(first@, second@) == first_mismatched_key(
                first@.skip(i as int),
                second@,
            ),
        decreases n - i,
    {
        proof {
            assert(first@.skip(i as int)[0] == first@[i as int]);
        }
        let key = first.key_at(i);
        let value = first.value_at(i);
        let matched: bool = match second.get(key.as_str()) {
            Some(other) => str_eq(value.as_str(), other.as_str()),
            None => false,
        };
        if !matched {
            return Some(key.clone());
        }
        proof {
            assert(first@.skip(i as int).drop_first() =~= first@.skip(i + 1));
        }
        i = i + 1;
    }
    proof {
        assert(first@.skip(n as int) =~= Seq::<(Seq<char>, Seq<char>)>::empty());
    }
    None
}

} // verus!
