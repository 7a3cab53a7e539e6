//! Narrow-width cascades: which particles decay.
use vstd::prelude::*;

use crate::graph::first_field_for;
use crate::lagrangian::{positive_bits, TheoreticalModel};
use crate::text::str_eq;

verus! {

/// The field `id` of the model is unstable: its first definition has a
/// positive width and a positive mass.
pub open spec fn unstable_spec(model: TheoreticalModel, id: Seq<char>) -> bool {
    match first_field_for(model.fields@, id, 0) {
        Some(i) => positive_bits(model.fields@[i].width_bits) && positive_bits(model.fields@[i].mass_bits),
        None => false,
    }
}

/// Whether a field of the model is unstable (positive width and mass);
/// unknown fields are stable.
pub fn is_unstable(model: &TheoreticalModel, field_id: &str) -> (r: bool)
    ensures
        r == unstable_spec(*model, field_id@),
{
    let mut i: usize = 0;
    while i < model.fields.len()
        invariant
            i <= model.fields@.len(),
            first_field_for(model.fields@, field_id@, 0) == first_field_for(model.fields@, field_id@, i as int),
        decreases model.fields@.len() - i,
    {
        if str_eq(model.fields[i].id.as_str(), field_id) {
            let f = &model.fields[i];
            return 0 < f.width_bits && f.width_bits <= 0x7FF0_0000_0000_0000
                && 0 < f.mass_bits && f.mass_bits <= 0x7FF0_0000_0000_0000;
        }
        i = i + 1;
    }
    false
}

} // verus!
