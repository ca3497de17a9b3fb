//! States keyed by their id.
use crate::model::geo_id::State;
use std::collections::HashMap;
use vstd::prelude::*;

verus! {

broadcast use vstd::std_specs::hash::group_hash_axioms;

/// A copy of `s`.
fn copy_state(s: &State) -> (r: State)
    ensures
        r == *s,
{
    State { id: s.id, name: s.name.clone() }
}

/// No later state of `states` than position `j` has the id of state `j`.
pub open spec fn last_with_id(states: Seq<State>, j: int) -> bool {
    forall|k: int| j < k < states.len() ==> (#[trigger] states[k]).id != states[j].id
}

/// The states keyed by id; of states sharing an id, the last one is kept.
pub fn states_to_map(states: Vec<State>) -> (r: HashMap<i32, State>)
    ensures
        r@.dom() == states@.map_values(|s: State| s.id).to_set(),
        forall|j: int|
            0 <= j < states.len() && last_with_id(states@, j) ==> r@[(#[trigger] states@[j]).id]
                == states@[j],
{
    let mut r: HashMap<i32, State> = HashMap::new();
    let mut i: usize = 0;
    while i < states.len()
        invariant
            i <= states.len(),
            r@.dom() == states@.subrange(0, i as int).map_values(|s: State| s.id).to_set(),
            forall|j: int|
                0 <= j < i && (forall|k: int| j < k < i ==> (#[trigger] states@[k]).id
                    != states@[j].id) ==> r@[(#[trigger] states@[j]).id] == states@[j],
        decreases states.len() - i,
    {
        let s = copy_state(&states[i]);
        let ghost before = states@.subrange(0, i as int).map_values(|s: State| s.id);
        assert(states@.subrange(0, i + 1).map_values(|s: State| s.id) =~= before + seq![s.id]);
        proof {
            Seq::<i32>::lemma_to_set_insert_commutes(before, s.id);
        }
        r.insert(s.id, s);
        i = i + 1;
    }
    assert(states@.subrange(0, i as int) =~= states@);
    r
}

} // verus!
