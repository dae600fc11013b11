//! Lemmas relating the deep view of a vector to the deep views of its
//! elements, used when a vector is grown element by element.

use vstd::prelude::*;

verus! {

/// The element-wise deep view of a sequence.
pub open spec fn seq_deep_view<T: DeepView>(s: Seq<T>) -> Seq<T::V> {
    Seq::new(s.len(), |i: int| s[i].deep_view())
}

pub proof fn lemma_vec_deep_view<T: DeepView>(v: Vec<T>)
    ensures
        v.deep_view() == seq_deep_view(v@),
{
    assert(v.deep_view() =~= seq_deep_view(v@));
}

pub proof fn lemma_seq_deep_view_cons<T: DeepView>(x: T, tail: Seq<T>)
    ensures
        seq_deep_view(Seq::empty().push(x) + tail) =~= seq![x.deep_view()] + seq_deep_view(
            tail,
        ),
{
    let s = Seq::empty().push(x) + tail;
    assert forall|k: int| 0 <= k < s.len() implies seq_deep_view(s)[k] == (seq![x.deep_view()]
        + seq_deep_view(tail))[k] by {
        if k == 0 {
            assert(s[0] == x);
        } else {
            assert(s[k] == tail[k - 1]);
        }
    }
}

pub proof fn lemma_seq_deep_view_push<T: DeepView>(s: Seq<T>, x: T)
    ensures
        seq_deep_view(s.push(x)) =~= seq_deep_view(s).push(x.deep_view()),
{
    assert forall|k: int| 0 <= k < s.len() + 1 implies seq_deep_view(s.push(x))[k]
        == seq_deep_view(s).push(x.deep_view())[k] by {
        if k < s.len() {
            assert(s.push(x)[k] == s[k]);
        } else {
            assert(s.push(x)[k] == x);
        }
    }
}

} // verus!
