//! Character-level helpers for string slices.

use core::cmp::Ordering;
use vstd::prelude::*;
use vstd::string::*;
use vstd::utf8::*;

verus! {

/// Returns the characters of `s`, in order.
pub fn chars_of(s: &str) -> (chars: Vec<char>)
    ensures
        chars@ == s@,
{
    broadcast use vstd::string::group_string_axioms;

    let mut chars: Vec<char> = Vec::new();
    let it = s.chars();
    for c in iter: it
        invariant
            chars@ == iter.history(),
            iter.seq() == s@,
    {
        chars.push(c);
    }
    chars
}

/// Builds a string from `chars`; this is `String::from_iter` over the characters, which
/// yields the string made of exactly those characters in order.
#[verifier::external_body]
pub(crate) fn string_of(chars: &Vec<char>) -> (s: String)
    ensures
        s@ == chars@,
{
    String::from_iter(chars.iter())
}

/// Tells whether two string slices hold the same characters.
pub fn same_text(a: &str, b: &str) -> (same: bool)
    ensures
        same == (a@ == b@),
{
    let x = a.as_bytes();
    let y = b.as_bytes();
    proof {
        encode_utf8_decode_utf8(a@);
        encode_utf8_decode_utf8(b@);
    }
    if x.len() != y.len() {
        return false;
    }
    let mut i: usize = 0;
    while i < x.len()
        invariant
            i <= x.len(),
            x.len() == y.len(),
            x@.subrange(0, i as int) == y@.subrange(0, i as int),
            x@ == encode_utf8(a@),
            y@ == encode_utf8(b@),
        decreases x.len() - i,
    {
        if x[i] != y[i] {
            assert(x@ != y@);
            return false;
        }
        assert(x@.subrange(0, i + 1) == x@.subrange(0, i as int).push(x@[i as int]));
        assert(y@.subrange(0, i + 1) == y@.subrange(0, i as int).push(y@[i as int]));
        i += 1;
    }
    assert(x@ == x@.subrange(0, x.len() as int));
    assert(y@ == y@.subrange(0, y.len() as int));
    true
}

/// Tells whether `chars` begins with the characters of `prefix`.
pub fn has_prefix(chars: &Vec<char>, prefix: &Vec<char>) -> (found: bool)
    ensures
        found == prefix@.is_prefix_of(chars@),
{
    if chars.len() < prefix.len() {
        return false;
    }
    let mut i: usize = 0;
    while i < prefix.len()
        invariant
            i <= prefix.len(),
            prefix.len() <= chars.len(),
            forall|j: int| 0 <= j < i ==> chars@[j] == prefix@[j],
        decreases prefix.len() - i,
    {
        if chars[i] != prefix[i] {
            return false;
        }
        i += 1;
    }
    assert(chars@.subrange(0, prefix@.len() as int) =~= prefix@);
    true
}

/// Tells whether `s` begins with `prefix`.
pub fn starts_with(s: &str, prefix: &str) -> (found: bool)
    ensures
        found == prefix@.is_prefix_of(s@),
{
    let chars = chars_of(s);
    let head = chars_of(prefix);
    has_prefix(&chars, &head)
}

/// The number of characters at the start of `a` and `b` that are the same.
pub open spec fn common_prefix(a: Seq<char>, b: Seq<char>) -> int
    decreases a.len(),
{
    if a.len() == 0 || b.len() == 0 || a[0] != b[0] {
        0
    } else {
        1 + common_prefix(a.drop_first(), b.drop_first())
    }
}

/// The common prefix is the longest run from the start on which `a` and `b` agree.
pub proof fn lemma_common_prefix(a: Seq<char>, b: Seq<char>)
    ensures
        0 <= common_prefix(a, b) <= a.len(),
        common_prefix(a, b) <= b.len(),
        forall|j: int| 0 <= j < common_prefix(a, b) ==> a[j] == b[j],
        common_prefix(a, b) < a.len() && common_prefix(a, b) < b.len() ==> a[common_prefix(a, b)]
            != b[common_prefix(a, b)],
    decreases a.len(),
{
    if a.len() == 0 || b.len() == 0 || a[0] != b[0] {
    } else {
        let x = a.drop_first();
        let y = b.drop_first();
        lemma_common_prefix(x, y);
        assert forall|j: int| 0 <= j < common_prefix(a, b) implies a[j] == b[j] by {
            if j > 0 {
                assert(a[j] == x[j - 1] && b[j] == y[j - 1]);
            }
        }
        let k = common_prefix(x, y);
        if k < x.len() && k < y.len() {
            assert(a[k + 1] == x[k] && b[k + 1] == y[k]);
        }
    }
}

/// A run from the start on which `a` and `b` agree, and which ends where they differ
/// or where one of them ends, is their common prefix.
pub proof fn lemma_common_prefix_is(a: Seq<char>, b: Seq<char>, k: int)
    requires
        0 <= k <= a.len(),
        k <= b.len(),
        forall|j: int| 0 <= j < k ==> a[j] == b[j],
        k < a.len() && k < b.len() ==> a[k] != b[k],
    ensures
        common_prefix(a, b) == k,
{
    lemma_common_prefix(a, b);
    let c = common_prefix(a, b);
    if c < k {
        assert(a[c] == b[c]);
    } else if c > k {
        assert(a[k] == b[k]);
    }
}

/// Finds the first place at which `a` and `b` differ, or at which one of them ends.
pub fn first_difference(a: &Vec<char>, b: &Vec<char>) -> (k: usize)
    ensures
        k == common_prefix(a@, b@),
{
    let mut k: usize = 0;
    while k < a.len() && k < b.len() && a[k] == b[k]
        invariant
            k <= a.len(),
            k <= b.len(),
            forall|j: int| 0 <= j < k ==> a@[j] == b@[j],
        decreases a.len() - k,
    {
        k += 1;
    }
    proof {
        lemma_common_prefix_is(a@, b@, k as int);
    }
    k
}

/// The order of two texts: that of the first characters in which they differ; where
/// one is the beginning of the other, the shorter comes first.
pub open spec fn text_order(a: Seq<char>, b: Seq<char>) -> Ordering {
    let k = common_prefix(a, b);
    if k < a.len() && k < b.len() {
        if a[k] < b[k] {
            Ordering::Less
        } else {
            Ordering::Greater
        }
    } else if a.len() < b.len() {
        Ordering::Less
    } else if a.len() > b.len() {
        Ordering::Greater
    } else {
        Ordering::Equal
    }
}

/// Two texts are in equal order just when they are the same text.
pub proof fn lemma_text_order_equal(a: Seq<char>, b: Seq<char>)
    ensures
        text_order(a, b) == Ordering::Equal <==> a == b,
{
    lemma_common_prefix(a, b);
    if text_order(a, b) == Ordering::Equal {
        assert(a =~= b);
    }
}

/// Compares two texts character by character.
pub fn compare_text(a: &str, b: &str) -> (order: Ordering)
    ensures
        order == text_order(a@, b@),
{
    let x = chars_of(a);
    let y = chars_of(b);
    let k = first_difference(&x, &y);
    if k < x.len() && k < y.len() {
        if x[k] < y[k] {
            Ordering::Less
        } else {
            Ordering::Greater
        }
    } else if x.len() < y.len() {
        Ordering::Less
    } else if x.len() > y.len() {
        Ordering::Greater
    } else {
        Ordering::Equal
    }
}

} // verus!
