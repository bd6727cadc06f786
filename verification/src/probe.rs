use vstd::prelude::*;
use crate::meters::{lemma_vu_rise_time_convergence, spec_corrected, spec_vu_fold, spec_vu_weight};

verus! {

proof fn probe_rise_time() {
    let s = Seq::<i32>::new(14400nat, |i: int| 1000i32);
    lemma_vu_rise_time_convergence(48000, spec_vu_weight(48000), s, 1000i32);
    assert(10_000 * (spec_corrected(1000i32) - spec_vu_fold(0, spec_vu_weight(48000), s))
        <= 1087 * spec_corrected(1000i32));
}

} // verus!
