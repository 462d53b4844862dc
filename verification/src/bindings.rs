//! Lists of names with values, in which a later binding of a name
//! overrides an earlier one.

use vstd::prelude::*;

verus! {

/// Names with their values.
pub type Bindings = Seq<(Seq<char>, Seq<char>)>;

/// The views of the bindings.
pub open spec fn bindings_of(environment: Seq<(String, String)>) -> Bindings {
    environment.map_values(|binding: (String, String)| (binding.0@, binding.1@))
}

/// Whether `bindings` give a value to `name`.
pub open spec fn is_set(bindings: Bindings, name: Seq<char>) -> bool {
    exists|k: int| 0 <= k < bindings.len() && (#[trigger] bindings[k]).0 == name
}

/// The value that `bindings` give to `name`: that of the last binding of
/// the name, and the empty string where the name is not set.
pub open spec fn value_of(bindings: Bindings, name: Seq<char>) -> Seq<char>
    decreases bindings.len(),
{
    if bindings.len() == 0 {
        Seq::empty()
    } else if bindings.last().0 == name {
        bindings.last().1
    } else {
        value_of(bindings.drop_last(), name)
    }
}

/// A name that is not set has the empty value.
pub proof fn lemma_unset_name_has_no_value(bindings: Bindings, name: Seq<char>)
    requires
        !is_set(bindings, name),
    ensures
        value_of(bindings, name) == Seq::<char>::empty(),
    decreases bindings.len(),
{
    if bindings.len() > 0 {
        assert(bindings[bindings.len() - 1].0 != name);
        assert forall|k: int| 0 <= k < bindings.drop_last().len() implies (
        #[trigger] bindings.drop_last()[k]).0 != name by {
            assert(bindings[k].0 != name);
        }
        lemma_unset_name_has_no_value(bindings.drop_last(), name);
    }
}

} // verus!
