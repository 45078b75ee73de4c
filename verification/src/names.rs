//! Helpers for vectors of names (peer identifiers, room names) treated as
//! ordered sets: membership, first-occurrence removal, and uniqueness.

use vstd::prelude::*;

verus! {

/// No element occurs twice.
pub open spec fn distinct(s: Seq<Seq<char>>) -> bool {
    forall|i: int, j: int| 0 <= i < j < s.len() ==> s[i] != s[j]
}

/// `s` with the first occurrence of `x` taken out; `s` itself when `x`
/// does not occur.
pub open spec fn remove_first(s: Seq<Seq<char>>, x: Seq<char>) -> Seq<Seq<char>>
    decreases s.len(),
{
    if s.len() == 0 {
        s
    } else if s[0] == x {
        s.skip(1)
    } else {
        seq![s[0]] + remove_first(s.skip(1), x)
    }
}

/// Removing an absent element changes nothing.
pub proof fn lemma_remove_first_absent(s: Seq<Seq<char>>, x: Seq<char>)
    requires
        !s.contains(x),
    ensures
        remove_first(s, x) == s,
    decreases s.len(),
{
    if s.len() > 0 {
        assert(s[0] != x);
        assert(forall|i: int| 0 <= i < s.skip(1).len() ==> s.skip(1)[i] == s[i + 1]);
        lemma_remove_first_absent(s.skip(1), x);
        assert(seq![s[0]] + s.skip(1) =~= s);
    }
}

/// When `x` first occurs at `i`, removing it is removing index `i`.
pub proof fn lemma_remove_first_at(s: Seq<Seq<char>>, x: Seq<char>, i: int)
    requires
        0 <= i < s.len(),
        s[i] == x,
        forall|j: int| 0 <= j < i ==> s[j] != x,
    ensures
        remove_first(s, x) == s.remove(i),
    decreases s.len(),
{
    if i == 0 {
        assert(remove_first(s, x) =~= s.remove(0));
    } else {
        assert(s[0] != x);
        assert(forall|j: int| 0 <= j < i - 1 ==> s.skip(1)[j] == s[j + 1]);
        lemma_remove_first_at(s.skip(1), x, i - 1);
        assert(seq![s[0]] + s.skip(1).remove(i - 1) =~= s.remove(i));
    }
}

/// On a distinct sequence, removing the first occurrence of `x` removes
/// every occurrence, keeps every other element, and keeps distinctness.
pub proof fn lemma_remove_first_props(s: Seq<Seq<char>>, x: Seq<char>)
    requires
        distinct(s),
    ensures
        distinct(remove_first(s, x)),
        !remove_first(s, x).contains(x),
        forall|y: Seq<char>| y != x ==> (remove_first(s, x).contains(y) <==> s.contains(y)),
        s.contains(x) ==> remove_first(s, x).len() == s.len() - 1,
        !s.contains(x) ==> remove_first(s, x) == s,
    decreases s.len(),
{
    if s.len() == 0 {
    } else if s[0] == x {
        let t = s.skip(1);
        assert(forall|j: int| 0 <= j < t.len() ==> t[j] == s[j + 1]);
        assert(s.contains(x)) by {
            assert(s[0] == x);
        }
        assert(!t.contains(x)) by {
            if t.contains(x) {
                let j = choose|j: int| 0 <= j < t.len() && t[j] == x;
                assert(s[j + 1] == s[0]);
            }
        }
        assert forall|y: Seq<char>| y != x && s.contains(y) implies t.contains(y) by {
            let j = choose|j: int| 0 <= j < s.len() && s[j] == y;
            assert(j != 0);
            assert(t[j - 1] == y);
        }
    } else {
        lemma_remove_first_props(s.skip(1), x);
        let t = s.skip(1);
        let rr = remove_first(t, x);
        let r = seq![s[0]] + rr;
        assert(forall|j: int| 0 <= j < t.len() ==> t[j] == s[j + 1]);
        assert(r[0] == s[0]);
        assert(forall|j: int| 0 <= j < rr.len() ==> r[j + 1] == rr[j]);
        // membership in the pieces of `r`
        assert forall|y: Seq<char>| r.contains(y) implies y == s[0] || rr.contains(y) by {
            let j = choose|j: int| 0 <= j < r.len() && r[j] == y;
            if j > 0 {
                assert(rr[j - 1] == y);
            }
        }
        assert forall|y: Seq<char>| y != x && s.contains(y) implies r.contains(y) by {
            let j = choose|j: int| 0 <= j < s.len() && s[j] == y;
            if j == 0 {
                assert(r[0] == y);
            } else {
                assert(t[j - 1] == y);
                assert(t.contains(y));
                assert(rr.contains(y));
                let k = choose|k: int| 0 <= k < rr.len() && rr[k] == y;
                assert(r[k + 1] == y);
            }
        }
        assert forall|y: Seq<char>| r.contains(y) implies s.contains(y) by {
            if y == s[0] {
                assert(s[0] == y);
            } else {
                let k = choose|k: int| 0 <= k < rr.len() && rr[k] == y;
                assert(rr.contains(y));
                assert(y != x || !rr.contains(x));
                assert(t.contains(y));
                let j = choose|j: int| 0 <= j < t.len() && t[j] == y;
                assert(s[j + 1] == y);
            }
        }
        assert(!t.contains(s[0])) by {
            if t.contains(s[0]) {
                let j = choose|j: int| 0 <= j < t.len() && t[j] == s[0];
                assert(s[j + 1] == s[0]);
            }
        }
        assert(distinct(r)) by {
            assert forall|i: int, j: int| 0 <= i < j < r.len() implies r[i] != r[j] by {
                if i == 0 {
                    assert(r[j] == rr[j - 1]);
                    assert(rr.contains(rr[j - 1]));
                    if r[0] == rr[j - 1] {
                        assert(t.contains(s[0]));
                    }
                } else {
                    assert(r[i] == rr[i - 1] && r[j] == rr[j - 1]);
                }
            }
        }
        if s.contains(x) {
            assert(t.contains(x)) by {
                let j = choose|j: int| 0 <= j < s.len() && s[j] == x;
                assert(j != 0);
                assert(t[j - 1] == x);
            }
        }
        if !s.contains(x) {
            assert(!t.contains(x)) by {
                if t.contains(x) {
                    let j = choose|j: int| 0 <= j < t.len() && t[j] == x;
                    assert(s[j + 1] == x);
                }
            }
            assert(r =~= s);
        }
    }
}

/// A distinct sequence whose elements all occur in another sequence is no
/// longer than it.
pub proof fn lemma_distinct_subset_len(a: Seq<Seq<char>>, b: Seq<Seq<char>>)
    requires
        distinct(a),
        forall|p: Seq<char>| a.contains(p) ==> b.contains(p),
    ensures
        a.len() <= b.len(),
{
    broadcast use vstd::seq_lib::seq_to_set_is_finite;

    assert(a.no_duplicates());
    a.unique_seq_to_set();
    b.lemma_cardinality_of_set();
    assert(a.to_set().subset_of(b.to_set()));
    vstd::set_lib::lemma_len_subset(a.to_set(), b.to_set());
}

/// What pushing an element does to membership.
pub proof fn lemma_push_contains(s: Seq<Seq<char>>, x: Seq<char>)
    ensures
        forall|y: Seq<char>| s.push(x).contains(y) <==> s.contains(y) || y == x,
{
    let t = s.push(x);
    assert(t[s.len() as int] == x);
    assert forall|y: Seq<char>| t.contains(y) implies s.contains(y) || y == x by {
        let j = choose|j: int| 0 <= j < t.len() && t[j] == y;
        if j < s.len() {
            assert(s[j] == y);
        }
    }
    assert forall|y: Seq<char>| s.contains(y) implies t.contains(y) by {
        let j = choose|j: int| 0 <= j < s.len() && s[j] == y;
        assert(t[j] == y);
    }
}

/// Pushing a fresh element keeps the elements distinct.
pub proof fn lemma_push_distinct(s: Seq<Seq<char>>, x: Seq<char>)
    requires
        distinct(s),
        !s.contains(x),
    ensures
        distinct(s.push(x)),
{
    let t = s.push(x);
    assert forall|i: int, j: int| 0 <= i < j < t.len() implies t[i] != t[j] by {
        if j == s.len() {
            assert(t[i] == s[i]);
            if s[i] == x {
                assert(s.contains(x));
            }
        }
    }
}

/// Whether `x` occurs among the names.
pub fn contains_name(v: &Vec<String>, x: &String) -> (r: bool)
    ensures
        r == v.deep_view().contains(x@),
{
    let n = v.len();
    let mut i: usize = 0;
    while i < n
        invariant
            i <= n,
            n == v@.len(),
            forall|j: int| 0 <= j < i ==> v.deep_view()[j] != x@,
        decreases n - i,
    {
        if v[i].eq(x) {
            proof {
                assert(v.deep_view()[i as int] == x@);
            }
            return true;
        }
        i = i + 1;
    }
    false
}

/// Takes out the first occurrence of `x`, when there is one.
pub fn remove_name(v: &mut Vec<String>, x: &String)
    ensures
        final(v).deep_view() == remove_first(old(v).deep_view(), x@),
{
    let n = v.len();
    let mut i: usize = 0;
    while i < n
        invariant
            i <= n,
            n == v@.len(),
            v@ == old(v)@,
            forall|j: int| 0 <= j < i ==> v.deep_view()[j] != x@,
        decreases n - i,
    {
        if v[i].eq(x) {
            proof {
                assert(v.deep_view()[i as int] == x@);
                lemma_remove_first_at(v.deep_view(), x@, i as int);
            }
            let ghost pre = v.deep_view();
            v.remove(i);
            proof {
                assert(v.deep_view() =~= pre.remove(i as int));
            }
            return ;
        }
        i = i + 1;
    }
    proof {
        lemma_remove_first_absent(v.deep_view(), x@);
    }
}

} // verus!
