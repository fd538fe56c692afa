//! Facts about membership in sequences.

use vstd::prelude::*;

verus! {

/// The members of a sequence with one more element are the element and the
/// members there were.
pub proof fn lemma_push_contains<A>(s: Seq<A>, x: A)
    ensures
        forall|y: A| s.push(x).contains(y) <==> (s.contains(y) || y == x),
{
    let t = s.push(x);
    assert forall|y: A| t.contains(y) <==> (s.contains(y) || y == x) by {
        if t.contains(y) {
            let i = choose|i: int| 0 <= i < t.len() && t[i] == y;
            if i < s.len() {
                assert(s[i] == y);
            }
        }
        if s.contains(y) {
            let i = choose|i: int| 0 <= i < s.len() && s[i] == y;
            assert(t[i] == y);
        }
        if y == x {
            assert(t[s.len() as int] == y);
        }
    }
}

/// The members of a sequence are its last element and the members of what
/// comes before it.
pub proof fn lemma_drop_last_contains<A>(s: Seq<A>)
    requires
        s.len() > 0,
    ensures
        forall|y: A| s.contains(y) <==> (s.drop_last().contains(y) || y == s.last()),
{
    assert(s =~= s.drop_last().push(s.last()));
    lemma_push_contains(s.drop_last(), s.last());
}

/// In a sequence without duplicates, what comes before the last element
/// has no duplicates and does not hold the last element.
pub proof fn lemma_drop_last_no_duplicates<A>(s: Seq<A>)
    requires
        s.len() > 0,
        s.no_duplicates(),
    ensures
        s.drop_last().no_duplicates(),
        !s.drop_last().contains(s.last()),
{
    let front = s.drop_last();
    assert forall|i: int, j: int|
        0 <= i < front.len() && 0 <= j < front.len() && i != j implies front[i] != front[j] by {
        assert(s[i] != s[j]);
    }
    if front.contains(s.last()) {
        let i = choose|i: int| 0 <= i < front.len() && front[i] == s.last();
        assert(s[i] == s[s.len() - 1]);
    }
}

/// The members of a sequence are its first element and the members of what
/// comes after it.
pub proof fn lemma_drop_first_contains<A>(s: Seq<A>)
    requires
        s.len() > 0,
    ensures
        forall|y: A| s.contains(y) <==> (s.drop_first().contains(y) || y == s.first()),
{
    let rest = s.drop_first();
    assert forall|y: A| s.contains(y) <==> (rest.contains(y) || y == s.first()) by {
        if s.contains(y) {
            let i = choose|i: int| 0 <= i < s.len() && s[i] == y;
            if i > 0 {
                assert(rest[i - 1] == y);
            }
        }
        if rest.contains(y) {
            let i = choose|i: int| 0 <= i < rest.len() && rest[i] == y;
            assert(s[i + 1] == y);
        }
        if y == s.first() {
            assert(s[0] == y);
        }
    }
}

/// In a sequence without duplicates, what comes after the first element
/// has no duplicates and does not hold the first element.
pub proof fn lemma_drop_first_no_duplicates<A>(s: Seq<A>)
    requires
        s.len() > 0,
        s.no_duplicates(),
    ensures
        s.drop_first().no_duplicates(),
        !s.drop_first().contains(s.first()),
{
    let rest = s.drop_first();
    assert forall|i: int, j: int|
        0 <= i < rest.len() && 0 <= j < rest.len() && i != j implies rest[i] != rest[j] by {
        assert(s[i + 1] != s[j + 1]);
    }
    if rest.contains(s.first()) {
        let i = choose|i: int| 0 <= i < rest.len() && rest[i] == s.first();
        assert(s[i + 1] == s[0]);
    }
}

/// A sequence without duplicates has none after an element that it did not
/// hold is added.
pub proof fn lemma_push_no_duplicates<A>(s: Seq<A>, x: A)
    requires
        s.no_duplicates(),
        !s.contains(x),
    ensures
        s.push(x).no_duplicates(),
{
    let t = s.push(x);
    assert forall|i: int, j: int| 0 <= i < t.len() && 0 <= j < t.len() && i != j implies t[i]
        != t[j] by {
        if i < s.len() {
            assert(s.contains(t[i]));
        }
        if j < s.len() {
            assert(s.contains(t[j]));
        }
    }
}

/// A sequence that has no member is empty.
pub proof fn lemma_no_member_is_empty<A>(s: Seq<A>)
    requires
        forall|y: A| !s.contains(y),
    ensures
        s.len() == 0,
{
    if s.len() > 0 {
        assert(s.contains(s[0]));
    }
}

} // verus!
