//! Candidate bridge addresses gathered from a network search.

use crate::text::texts;
use vstd::prelude::*;

verus! {

/// The addresses of `responders`, each one once, in the order in which each
/// first answered.
pub open spec fn distinct_addresses(responders: Seq<Seq<char>>) -> Seq<Seq<char>>
    decreases responders.len(),
{
    if responders.len() == 0 {
        Seq::empty()
    } else {
        let earlier = distinct_addresses(responders.drop_last());
        if earlier.contains(responders.last()) {
            earlier
        } else {
            earlier.push(responders.last())
        }
    }
}

/// What [`distinct_addresses`] keeps: nothing twice, and exactly the
/// addresses that answered.
pub proof fn lemma_distinct_addresses(responders: Seq<Seq<char>>)
    ensures
        distinct_addresses(responders).no_duplicates(),
        forall|a: Seq<char>| distinct_addresses(responders).contains(a) <==> responders.contains(a),
        distinct_addresses(responders).len() <= responders.len(),
    decreases responders.len(),
{
    if responders.len() > 0 {
        let front = responders.drop_last();
        let last = responders.last();
        lemma_distinct_addresses(front);
        let earlier = distinct_addresses(front);
        let all = distinct_addresses(responders);
        assert forall|a: Seq<char>| all.contains(a) <==> responders.contains(a) by {
            if responders.contains(a) {
                let i = choose|i: int| 0 <= i < responders.len() && responders[i] == a;
                if i < front.len() {
                    assert(front[i] == a);
                    assert(front.contains(a));
                    assert(earlier.contains(a));
                    let k = choose|k: int| 0 <= k < earlier.len() && earlier[k] == a;
                    assert(all[k] == a);
                } else {
                    assert(a == last);
                    if !earlier.contains(last) {
                        assert(all[earlier.len() as int] == last);
                    }
                }
            }
            if all.contains(a) {
                let k = choose|k: int| 0 <= k < all.len() && all[k] == a;
                if k < earlier.len() {
                    assert(earlier[k] == a);
                    assert(earlier.contains(a));
                    assert(front.contains(a));
                    let i = choose|i: int| 0 <= i < front.len() && front[i] == a;
                    assert(responders[i] == a);
                } else {
                    assert(a == last);
                    assert(responders[responders.len() - 1] == a);
                }
            }
        }
    }
}

/// True where one of `known` is `address`.
fn holds(known: &Vec<String>, address: &String) -> (r: bool)
    ensures
        r == texts(known@).contains(address@),
{
    let mut i: usize = 0;
    while i < known.len()
        invariant
            i <= known.len(),
            forall|k: int| 0 <= k < i ==> known[k]@ != address@,
        decreases known.len() - i,
    {
        if known[i] == *address {
            assert(texts(known@)[i as int] == address@);
            return true;
        }
        i += 1;
    }
    false
}

/// Turns the source addresses of the answers to a search, in the order the
/// answers came, into the list of candidates: each address once, in the
/// order of its first answer. No answer gives no candidate, which is a valid
/// outcome and not an error.
pub fn discover(responders: Vec<String>) -> (r: Vec<String>)
    ensures
        texts(r@) == distinct_addresses(texts(responders@)),
        texts(r@).no_duplicates(),
        forall|a: Seq<char>| texts(r@).contains(a) <==> texts(responders@).contains(a),
        responders.len() == 0 ==> r.len() == 0,
{
    let ghost all = texts(responders@);
    let mut bridges: Vec<String> = Vec::new();
    let mut i: usize = 0;
    assert(all.take(0) =~= Seq::empty());
    assert(texts(bridges@) =~= Seq::empty());
    while i < responders.len()
        invariant
            i <= responders.len(),
            all == texts(responders@),
            texts(bridges@) == distinct_addresses(all.take(i as int)),
        decreases responders.len() - i,
    {
        let ghost before = texts(bridges@);
        assert(all.take(i + 1).drop_last() =~= all.take(i as int));
        assert(all.take(i + 1).last() == responders[i as int]@);
        if !holds(&bridges, &responders[i]) {
            bridges.push(responders[i].clone());
            assert(texts(bridges@) =~= before.push(responders[i as int]@));
        }
        i += 1;
    }
    proof {
        assert(all.take(i as int) =~= all);
        lemma_distinct_addresses(all);
    }
    bridges
}

} // verus!
