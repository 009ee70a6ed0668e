//! Where a value first stands in a sequence.

use vstd::prelude::*;

verus! {

/// Where `x` first stands in `s`: the length of `s` if it stands nowhere.
pub open spec fn first_index<T>(s: Seq<T>, x: T) -> int
    decreases s.len(),
{
    if s.len() == 0 || s[0] == x {
        0
    } else {
        1 + first_index(s.drop_first(), x)
    }
}

/// The first index of a value is within the sequence or at its end; the value
/// stands there if it is within, and nowhere before.
pub proof fn lemma_first_index<T>(s: Seq<T>, x: T)
    ensures
        0 <= first_index(s, x) <= s.len(),
        first_index(s, x) < s.len() ==> s[first_index(s, x)] == x,
        forall|i: int| 0 <= i < first_index(s, x) ==> s[i] != x,
    decreases s.len(),
{
    if s.len() > 0 && s[0] != x {
        let rest = s.drop_first();
        lemma_first_index(rest, x);
        assert forall|i: int| 0 <= i < first_index(s, x) implies s[i] != x by {
            if i > 0 {
                assert(rest[i - 1] == s[i]);
            }
        }
    }
}

/// A place that holds the value, with none before it that does, is its first
/// index; so is the end of a sequence that holds it nowhere.
pub proof fn lemma_first_index_found<T>(s: Seq<T>, at: int, x: T)
    requires
        0 <= at <= s.len(),
        at < s.len() ==> s[at] == x,
        forall|i: int| 0 <= i < at ==> s[i] != x,
    ensures
        first_index(s, x) == at,
    decreases s.len(),
{
    if s.len() > 0 && s[0] != x {
        let rest = s.drop_first();
        assert forall|i: int| 0 <= i < at - 1 implies rest[i] != x by {
            assert(rest[i] == s[i + 1]);
        }
        lemma_first_index_found(rest, at - 1, x);
    }
}

/// One more value at the end changes the first index of no value that stood
/// in the sequence, and is the first index of a value that did not.
pub proof fn lemma_first_index_push<T>(s: Seq<T>, last: T, x: T)
    ensures
        0 <= first_index(s, x) <= s.len(),
        first_index(s, x) < s.len() ==> first_index(s.push(last), x) == first_index(s, x),
        first_index(s, x) == s.len() && last == x ==> first_index(s.push(last), x) == s.len(),
        first_index(s, x) == s.len() && last != x ==> first_index(s.push(last), x) == s.len() + 1,
    decreases s.len(),
{
    if s.len() == 0 {
        assert(s.push(last).drop_first() =~= s);
    } else if s[0] != x {
        lemma_first_index_push(s.drop_first(), last, x);
        assert(s.push(last).drop_first() =~= s.drop_first().push(last));
    }
}

} // verus!
