//! The program tree: one type for each construct of the language, each with
//! the bytes of the source that it covers.
//!
//! Every tree type has a model, a plain value that says what the tree holds:
//! texts as sequences of characters, lists as sequences of models. The
//! contracts of the parser speak of models.
pub mod classes;
pub mod enums;
pub mod expressions;
pub mod fields;
pub mod imports_exports;
pub mod interfaces;
pub mod methods;
pub mod patterns;
pub mod publicity;
pub mod structs;
pub mod top_level;
pub mod types;

use vstd::prelude::*;

verus! {

/// The models of a list of trees.
pub open spec fn models_of<T: View>(v: Seq<T>) -> Seq<T::V> {
    Seq::new(v.len(), |i: int| v[i]@)
}

/// The models of an empty list are an empty list.
pub proof fn lemma_models_of_empty<T: View>()
    ensures
        models_of(Seq::<T>::empty()) == Seq::<T::V>::empty(),
{
    assert(models_of(Seq::<T>::empty()) =~= Seq::<T::V>::empty());
}

/// The models of a list with one more tree are the models with one more model.
pub proof fn lemma_models_of_push<T: View>(v: Seq<T>, x: T)
    ensures
        models_of(v.push(x)) == models_of(v).push(x@),
{
    assert(models_of(v.push(x)) =~= models_of(v).push(x@));
}

} // verus!
