use vstd::prelude::*;

verus! {

/// The element-wise view of a sequence of viewable values.
pub open spec fn seq_views<T: View>(s: Seq<T>) -> Seq<T::V> {
    Seq::new(s.len(), |i: int| s[i]@)
}

/// Appending one value appends its view.
pub proof fn lemma_seq_views_push<T: View>(s: Seq<T>, t: T)
    ensures
        seq_views(s.push(t)) =~= seq_views(s) + seq![t@],
{
}

} // verus!
