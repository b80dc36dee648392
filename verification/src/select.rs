//! Threshold-based selection of a curve name from an advanced speed map.

use vstd::prelude::*;
use crate::config::AdvancedSpeedMap;

verus! {

/// The row at index `i` is the one an advanced speed map selects at `temp`:
/// its threshold has been reached, no reached threshold is larger, and among
/// rows with the same threshold the selected one comes last.
pub open spec fn is_selected_at(entries: Seq<AdvancedSpeedMap>, temp: u8, i: int) -> bool {
    &&& 0 <= i < entries.len()
    &&& entries[i].refer <= temp
    &&& forall|j: int|
        0 <= j < entries.len() && #[trigger] entries[j].refer <= temp ==> entries[j].refer
            <= entries[i].refer
    &&& forall|j: int|
        i < j < entries.len() ==> !(#[trigger] entries[j].refer <= temp && entries[j].refer
            == entries[i].refer)
}

/// Picks the curve for the largest threshold the measured temperature has
/// reached; on equal thresholds the later row wins. Yields nothing when the
/// temperature is below every threshold.
#[verifier::loop_isolation(false)]
pub fn select(entries: &Vec<AdvancedSpeedMap>, temp: u8) -> (r: Option<String>)
    ensures
        match r {
            Some(name) => exists|i: int|
                #[trigger] is_selected_at(entries@, temp, i) && name@ == entries@[i].speed_map@,
            None => forall|j: int| 0 <= j < entries@.len() ==> #[trigger] entries@[j].refer > temp,
        },
{
    let mut best_thr: u8 = 0;
    let mut best: Option<String> = None;
    let ghost mut best_idx: int = 0;
    let n = entries.len();
    let mut k: usize = 0;
    while k < n
        invariant
            0 <= k <= n,
            best is None ==> best_thr == 0 && forall|j: int|
                0 <= j < k ==> #[trigger] entries@[j].refer > temp,
            best matches Some(nm) ==> {
                &&& 0 <= best_idx < k
                &&& entries@[best_idx].refer <= temp
                &&& entries@[best_idx].refer == best_thr
                &&& nm@ == entries@[best_idx].speed_map@
                &&& forall|j: int|
                    0 <= j < k && #[trigger] entries@[j].refer <= temp ==> entries@[j].refer
                        <= best_thr
                &&& forall|j: int|
                    best_idx < j < k ==> !(#[trigger] entries@[j].refer <= temp
                        && entries@[j].refer == best_thr)
            },
        decreases n - k,
    {
        if entries[k].refer >= best_thr && entries[k].refer <= temp {
            best_thr = entries[k].refer;
            best = Some(entries[k].speed_map.clone());
            proof {
                best_idx = k as int;
            }
        }
        k = k + 1;
    }
    proof {
        if best is Some {
            assert(is_selected_at(entries@, temp, best_idx));
        }
    }
    best
}

} // verus!
