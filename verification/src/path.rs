//! The grammar of object paths: `/`-separated segments of letters, digits and underscores.

use vstd::prelude::*;
use vstd::string::*;
use crate::text::{chars_of, has_prefix};

verus! {

/// A character that may stand inside a path segment.
pub open spec fn is_segment_char(c: char) -> bool {
    ('a' <= c && c <= 'z') || ('A' <= c && c <= 'Z') || ('0' <= c && c <= '9') || c == '_'
}

/// A path segment: one or more segment characters.
pub open spec fn is_segment(s: Seq<char>) -> bool {
    &&& s.len() > 0
    &&& forall|i: int| 0 <= i < s.len() ==> is_segment_char(#[trigger] s[i])
}

/// A path below the root: every segment is non-empty and preceded by one `/`.
pub open spec fn is_object_path(s: Seq<char>) -> bool {
    &&& s.len() >= 2
    &&& s[0] == '/'
    &&& s.last() != '/'
    &&& forall|i: int| 0 <= i < s.len() ==> #[trigger] s[i] == '/' || is_segment_char(s[i])
    &&& forall|i: int| 0 <= i < s.len() - 1 ==> !(#[trigger] s[i] == '/' && s[i + 1] == '/')
}

/// The number of `/` in `s`; for an object path, the number of its segments.
pub open spec fn depth(s: Seq<char>) -> nat
    decreases s.len(),
{
    if s.len() == 0 {
        0
    } else {
        depth(s.drop_last()) + if s.last() == '/' { 1nat } else { 0nat }
    }
}

/// The index of the last `/` in `s`, or -1 where it holds none.
pub open spec fn last_slash(s: Seq<char>) -> int
    decreases s.len(),
{
    if s.len() == 0 {
        -1
    } else if s.last() == '/' {
        s.len() - 1
    } else {
        last_slash(s.drop_last())
    }
}

/// The path that contains `s`: all that stands before its last `/`.
pub open spec fn parent_of(s: Seq<char>) -> Seq<char> {
    s.subrange(0, last_slash(s))
}

/// The last segment of `s`: all that stands behind its last `/`.
pub open spec fn leaf_of(s: Seq<char>) -> Seq<char> {
    s.subrange(last_slash(s) + 1, s.len() as int)
}

/// The path of the object named `segment` inside `parent`.
pub open spec fn child_of(parent: Seq<char>, segment: Seq<char>) -> Seq<char> {
    parent + seq!['/'] + segment
}

/// `last_slash` is the one index that holds a `/` with none behind it.
pub proof fn lemma_last_slash(s: Seq<char>, k: int)
    requires
        0 <= k < s.len(),
        s[k] == '/',
        forall|j: int| k < j < s.len() ==> s[j] != '/',
    ensures
        last_slash(s) == k,
    decreases s.len(),
{
    if s.last() != '/' {
        lemma_last_slash(s.drop_last(), k);
    }
}

/// In a string that holds a `/`, `last_slash` points at one.
pub proof fn lemma_last_slash_found(s: Seq<char>)
    ensures
        -1 <= last_slash(s) < s.len(),
        last_slash(s) >= 0 ==> s[last_slash(s)] == '/',
        forall|j: int| last_slash(s) < j < s.len() ==> s[j] != '/',
        (exists|i: int| 0 <= i < s.len() && s[i] == '/') ==> last_slash(s) >= 0,
    decreases s.len(),
{
    if s.len() > 0 && s.last() != '/' {
        lemma_last_slash_found(s.drop_last());
        let t = s.drop_last();
        if exists|i: int| 0 <= i < s.len() && s[i] == '/' {
            let i = choose|i: int| 0 <= i < s.len() && s[i] == '/';
            assert(t[i] == '/');
        }
        assert forall|j: int| last_slash(s) < j < s.len() implies s[j] != '/' by {
            if j < t.len() {
                assert(t[j] != '/');
            }
        }
    }
}

/// The depth of a concatenation is the sum of the depths.
pub proof fn lemma_depth_concat(a: Seq<char>, b: Seq<char>)
    ensures
        depth(a + b) == depth(a) + depth(b),
    decreases b.len(),
{
    if b.len() == 0 {
        assert(a + b =~= a);
    } else {
        assert((a + b).drop_last() =~= a + b.drop_last());
        lemma_depth_concat(a, b.drop_last());
    }
}

/// A string without `/` has depth 0.
pub proof fn lemma_depth_of_segment(s: Seq<char>)
    requires
        forall|i: int| 0 <= i < s.len() ==> s[i] != '/',
    ensures
        depth(s) == 0,
    decreases s.len(),
{
    if s.len() > 0 {
        lemma_depth_of_segment(s.drop_last());
    }
}

/// An object path has one segment or more.
pub proof fn lemma_depth_positive(s: Seq<char>)
    requires
        is_object_path(s),
    ensures
        depth(s) >= 1,
{
    let rest = s.subrange(1, s.len() as int);
    assert(s =~= seq!['/'] + rest);
    lemma_depth_concat(seq!['/'], rest);
    assert(seq!['/'].drop_last() =~= Seq::<char>::empty());
    assert(depth(seq!['/']) == 1) by {
        reveal_with_fuel(depth, 2);
    }
}

/// A child path is an object path one level below its parent, and `parent_of` and
/// `leaf_of` take it apart again.
pub proof fn lemma_child(parent: Seq<char>, segment: Seq<char>)
    requires
        is_object_path(parent),
        is_segment(segment),
    ensures
        is_object_path(child_of(parent, segment)),
        depth(child_of(parent, segment)) == depth(parent) + 1,
        parent_of(child_of(parent, segment)) == parent,
        leaf_of(child_of(parent, segment)) == segment,
{
    let c = child_of(parent, segment);
    let k = parent.len() as int;
    assert(c[k] == '/');
    assert forall|j: int| k < j < c.len() implies c[j] != '/' by {
        assert(c[j] == segment[j - k - 1]);
    }
    lemma_last_slash(c, k);
    assert(c.subrange(0, k) =~= parent);
    assert(c.subrange(k + 1, c.len() as int) =~= segment);
    assert forall|i: int| 0 <= i < c.len() implies #[trigger] c[i] == '/' || is_segment_char(
        c[i],
    ) by {
        if i < k {
            assert(c[i] == parent[i]);
        } else if i > k {
            assert(c[i] == segment[i - k - 1]);
        }
    }
    assert forall|i: int| 0 <= i < c.len() - 1 implies !(#[trigger] c[i] == '/' && c[i + 1]
        == '/') by {
        if i < k - 1 {
            assert(c[i] == parent[i] && c[i + 1] == parent[i + 1]);
        } else if i == k - 1 {
            assert(c[i] == parent.last());
        } else {
            assert(c[i + 1] == segment[i - k]);
        }
    }
    assert(c.last() == segment.last());
    assert(c[0] == parent[0]);
    lemma_depth_concat(parent + seq!['/'], segment);
    lemma_depth_concat(parent, seq!['/']);
    assert(seq!['/'].drop_last() =~= Seq::<char>::empty());
    assert(depth(seq!['/']) == 1) by {
        reveal_with_fuel(depth, 2);
    }
    assert forall|i: int| 0 <= i < segment.len() implies segment[i] != '/' by {
        assert(is_segment_char(segment[i]));
    }
    lemma_depth_of_segment(segment);
}

/// An object path of two or more segments splits into an object path one level up
/// and a last segment.
pub proof fn lemma_parent(s: Seq<char>)
    requires
        is_object_path(s),
        depth(s) >= 2,
    ensures
        is_object_path(parent_of(s)),
        depth(parent_of(s)) == depth(s) - 1,
        is_segment(leaf_of(s)),
        child_of(parent_of(s), leaf_of(s)) == s,
{
    lemma_last_slash_found(s);
    let k = last_slash(s);
    assert(s[0] == '/');
    assert(k >= 0);
    let p = parent_of(s);
    let l = leaf_of(s);
    assert(s =~= p + seq!['/'] + l);
    assert forall|i: int| 0 <= i < l.len() implies is_segment_char(#[trigger] l[i]) by {
        assert(l[i] == s[k + 1 + i]);
        assert(s[k + 1 + i] == '/' || is_segment_char(s[k + 1 + i]));
    }
    assert(k < s.len() - 1);
    assert(is_segment(l));
    assert forall|i: int| 0 <= i < l.len() implies l[i] != '/' by {
        assert(l[i] == s[k + 1 + i]);
    }
    lemma_depth_of_segment(l);
    lemma_depth_concat(p + seq!['/'], l);
    lemma_depth_concat(p, seq!['/']);
    assert(seq!['/'].drop_last() =~= Seq::<char>::empty());
    assert(depth(seq!['/']) == 1) by {
        reveal_with_fuel(depth, 2);
    }
    assert(depth(p) == depth(s) - 1);
    if k == 0 {
        assert(p =~= Seq::<char>::empty());
        assert(false);
    }
    assert(p[0] == s[0]);
    assert(p.last() == s[k - 1]);
    assert(!(s[k - 1] == '/' && s[k - 1 + 1] == '/'));
    if p.len() < 2 {
        assert(p.len() == 1);
        assert(p[0] == '/');
        assert(false);
    }
    assert forall|i: int| 0 <= i < p.len() implies #[trigger] p[i] == '/' || is_segment_char(
        p[i],
    ) by {
        assert(p[i] == s[i]);
    }
    assert forall|i: int| 0 <= i < p.len() - 1 implies !(#[trigger] p[i] == '/' && p[i + 1]
        == '/') by {
        assert(p[i] == s[i] && p[i + 1] == s[i + 1]);
    }
}

/// Tells whether `c` may stand inside a path segment.
pub fn segment_char(c: char) -> (ok: bool)
    ensures
        ok == is_segment_char(c),
{
    ('a' <= c && c <= 'z') || ('A' <= c && c <= 'Z') || ('0' <= c && c <= '9') || c == '_'
}

/// Tells whether `name` is a path segment.
pub fn segment_text(name: &str) -> (ok: bool)
    ensures
        ok == is_segment(name@),
{
    let chars = chars_of(name);
    if chars.len() == 0 {
        return false;
    }
    let mut i: usize = 0;
    while i < chars.len()
        invariant
            i <= chars.len(),
            chars@ == name@,
            chars.len() > 0,
            forall|j: int| 0 <= j < i ==> is_segment_char(#[trigger] chars@[j]),
        decreases chars.len() - i,
    {
        if !segment_char(chars[i]) {
            return false;
        }
        i += 1;
    }
    true
}

/// Counts the segments of `text`, or returns `None` where it is no object path.
pub fn path_depth(text: &str) -> (found: Option<usize>)
    ensures
        found is Some <==> is_object_path(text@),
        found matches Some(d) ==> d == depth(text@),
{
    let chars = chars_of(text);
    let n = chars.len();
    if n < 2 || chars[0] != '/' || chars[n - 1] == '/' {
        return None;
    }
    let mut count: usize = 0;
    let mut i: usize = 0;
    while i < n
        invariant
            i <= n,
            n == chars.len(),
            chars@ == text@,
            n >= 2,
            chars@[0] == '/',
            chars@[n - 1] != '/',
            count <= i,
            count == depth(chars@.subrange(0, i as int)),
            forall|j: int| 0 <= j < i ==> #[trigger] chars@[j] == '/' || is_segment_char(chars@[j]),
            forall|j: int| 0 <= j < i - 1 ==> !(#[trigger] chars@[j] == '/' && chars@[j + 1] == '/'),
        decreases n - i,
    {
        let c = chars[i];
        proof {
            assert(chars@.subrange(0, i + 1).drop_last() =~= chars@.subrange(0, i as int));
        }
        if c == '/' {
            if i > 0 && chars[i - 1] == '/' {
                assert(chars@[i - 1] == '/' && chars@[i - 1 + 1] == '/');
                return None;
            }
            count += 1;
        } else if !segment_char(c) {
            assert(!(chars@[i as int] == '/' || is_segment_char(chars@[i as int])));
            return None;
        }
        i += 1;
    }
    assert(chars@.subrange(0, n as int) =~= chars@);
    Some(count)
}

/// Returns the path that contains `text`: all that stands before its last `/`.
pub fn parent_text(text: &str) -> (parent: String)
    requires
        is_object_path(text@),
        depth(text@) >= 2,
    ensures
        parent@ == parent_of(text@),
{
    let chars = chars_of(text);
    let mut k: usize = chars.len() - 1;
    proof {
        lemma_last_slash_found(text@);
        assert(text@[0] == '/');
    }
    while chars[k] != '/'
        invariant
            chars@ == text@,
            last_slash(text@) <= k < chars.len(),
            0 <= last_slash(text@),
            text@[last_slash(text@)] == '/',
        decreases k,
    {
        k -= 1;
    }
    proof {
        lemma_last_slash_found(text@);
    }
    String::from_str(text.substring_char(0, k))
}

/// Returns the path of the object named `segment` inside `parent`.
pub fn child_text(parent: &str, segment: &str) -> (child: String)
    ensures
        child@ == child_of(parent@, segment@),
{
    proof {
        reveal_strlit("/");
    }
    let child = String::from_str(parent).concat("/").concat(segment);
    assert("/"@ =~= seq!['/']);
    child
}

/// `path` lies in the subtree of `scope`: it is `scope` itself or runs on from it
/// with a `/`.
pub open spec fn is_within(path: Seq<char>, scope: Seq<char>) -> bool {
    path == scope || (scope + seq!['/']).is_prefix_of(path)
}

/// A subtree holds its root, and with an object every child of it.
pub proof fn lemma_within(scope: Seq<char>, parent: Seq<char>, segment: Seq<char>)
    ensures
        is_within(scope, scope),
        is_within(parent, scope) ==> is_within(child_of(parent, segment), scope),
{
    if is_within(parent, scope) {
        let child = child_of(parent, segment);
        let head = scope + seq!['/'];
        if parent == scope {
            assert(child.subrange(0, head.len() as int) =~= head);
        } else {
            assert(parent.subrange(0, head.len() as int) == head);
            assert(child.subrange(0, head.len() as int) =~= parent.subrange(
                0,
                head.len() as int,
            ));
        }
    }
}

/// Tells whether `path` lies in the subtree of `scope`.
pub fn within(path: &str, scope: &str) -> (inside: bool)
    ensures
        inside == is_within(path@, scope@),
{
    let p = chars_of(path);
    let mut s = chars_of(scope);
    if p.len() == s.len() {
        let same = has_prefix(&p, &s);
        proof {
            if same {
                assert(p@ =~= s@);
            }
            assert(!(scope@ + seq!['/']).is_prefix_of(path@));
        }
        same
    } else {
        s.push('/');
        assert(s@ =~= scope@ + seq!['/']);
        has_prefix(&p, &s)
    }
}

/// What `text` reads as without the leading `root`, or `None` where it does not
/// begin with it.
pub open spec fn stripped(text: Seq<char>, root: Seq<char>) -> Option<Seq<char>> {
    if root.is_prefix_of(text) {
        Some(text.subrange(root.len() as int, text.len() as int))
    } else {
        None
    }
}

/// Returns `text` without the leading `root`, or `None` where it does not begin
/// with it.
pub fn strip_root(text: &str, root: &str) -> (rest: Option<String>)
    ensures
        rest is Some <==> stripped(text@, root@) is Some,
        rest matches Some(r) ==> Some(r@) == stripped(text@, root@),
{
    let chars = chars_of(text);
    let head = chars_of(root);
    if has_prefix(&chars, &head) {
        Some(String::from_str(text.substring_char(head.len(), chars.len())))
    } else {
        None
    }
}

} // verus!
