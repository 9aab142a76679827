//! Ordering values by a textual key, as the manifests list their entries.
use vstd::multiset::Multiset;
use vstd::prelude::*;

use crate::text::{lemma_lex_refl, lemma_lex_total, lemma_lex_trans, lex_le, str_le};

verus! {

broadcast use vstd::seq_lib::group_to_multiset_ensures;

/// A value with a textual sort key.
pub trait Keyed {
    spec fn sort_key(&self) -> Seq<char>;

    fn key_str(&self) -> (r: &str)
        ensures
            r@ == self.sort_key(),
    ;
}

/// Each element's key comes before or equals the keys of those after it.
pub open spec fn sorted_by_key<T: Keyed>(s: Seq<T>) -> bool {
    forall|i: int, j: int| 0 <= i < j < s.len() ==> lex_le(#[trigger] s[i].sort_key(), #[trigger] s[j].sort_key())
}

/// The elements of `v` ordered by key; elements with equal keys may come in
/// any order.
pub fn sort_by_key<T: Keyed>(v: Vec<T>) -> (r: Vec<T>)
    ensures
        r@.to_multiset() == v@.to_multiset(),
        sorted_by_key(r@),
{
    let ghost all = v@;
    let mut rest = v;
    let mut out: Vec<T> = Vec::new();
    assert(out@.to_multiset().add(rest@.to_multiset()) =~= all.to_multiset());
    while rest.len() > 0
        invariant
            sorted_by_key(out@),
            forall|i: int, j: int|
                0 <= i < out@.len() && 0 <= j < rest@.len() ==> lex_le(
                    #[trigger] out@[i].sort_key(),
                    #[trigger] rest@[j].sort_key(),
                ),
            out@.to_multiset().add(rest@.to_multiset()) == all.to_multiset(),
        decreases rest@.len(),
    {
        let mut m: usize = 0;
        let mut k: usize = 1;
        proof {
            lemma_lex_refl(rest@[0].sort_key());
        }
        while k < rest.len()
            invariant
                m < rest@.len(),
                k <= rest@.len(),
                forall|t: int| 0 <= t < k ==> lex_le(rest@[m as int].sort_key(), #[trigger] rest@[t].sort_key()),
            decreases rest@.len() - k,
        {
            if !str_le(rest[m].key_str(), rest[k].key_str()) {
                proof {
                    lemma_lex_total(rest@[m as int].sort_key(), rest@[k as int].sort_key());
                    assert forall|t: int| 0 <= t < k implies lex_le(
                        rest@[k as int].sort_key(),
                        #[trigger] rest@[t].sort_key(),
                    ) by {
                        lemma_lex_trans(
                            rest@[k as int].sort_key(),
                            rest@[m as int].sort_key(),
                            rest@[t].sort_key(),
                        );
                    }
                }
                proof {
                    lemma_lex_refl(rest@[k as int].sort_key());
                }
                m = k;
            }
            k = k + 1;
        }
        let ghost before = rest@;
        let x = rest.remove(m);
        assert(rest@ =~= before.remove(m as int));
        let ghost out_before = out@;
        out.push(x);
        assert forall|i: int, j: int|
            0 <= i < out@.len() && 0 <= j < rest@.len() implies lex_le(
            #[trigger] out@[i].sort_key(),
            #[trigger] rest@[j].sort_key(),
        ) by {
            let jj = if j < m { j } else { j + 1 };
            assert(rest@[j] == before[jj]);
            if i == out@.len() - 1 {
                assert(out@[i] == before[m as int]);
            } else {
                assert(out@[i] == out_before[i]);
            }
        }
        assert forall|i: int, j: int| 0 <= i < j < out@.len() implies lex_le(
            #[trigger] out@[i].sort_key(),
            #[trigger] out@[j].sort_key(),
        ) by {
            if j == out@.len() - 1 {
                assert(out@[i] == out_before[i]);
                assert(out@[j] == before[m as int]);
            } else {
                assert(out@[i] == out_before[i]);
                assert(out@[j] == out_before[j]);
            }
        }
        assert(out@.to_multiset().add(rest@.to_multiset()) =~= all.to_multiset());
    }
    assert(rest@.to_multiset() =~= Multiset::empty());
    assert(out@.to_multiset() =~= all.to_multiset());
    out
}

} // verus!
