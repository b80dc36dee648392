//! Per-fan policy resolution: what a fan's configuration row means for one
//! chip and one measured temperature.

use vstd::prelude::*;
use crate::config::FanMap;
use crate::select::{is_selected_at, select};

verus! {

/// What one fan's policy resolves to for one chip pass.
pub enum ResolvedAction {
    /// A fixed duty claims the row for the static pass; the dynamic pass
    /// emits nothing for it.
    Static(u8),
    /// Interpolate along the curve of this name.
    UseCurve(String),
    /// The row is claimed but yields no action for this chip pass: its
    /// dynamic policy is incomplete or scoped to another chip.
    Skip,
    /// No row matches the fan at all; the caller falls back to the curve
    /// named `default`.
    Unconfigured,
}

/// The first policy row carrying the given fan id, if any.
pub open spec fn first_with_id(rows: Seq<FanMap>, id: u8) -> Option<FanMap>
    decreases rows.len(),
{
    if rows.len() == 0 {
        None
    } else if rows[0].id == id {
        Some(rows[0])
    } else {
        first_with_id(rows.drop_first(), id)
    }
}

/// `r` is what the policy in `entry` resolves to against chip `chip` at
/// temperature `temp`: a fixed duty wins over everything; an incomplete or
/// otherwise-scoped dynamic policy yields nothing; a named curve wins over
/// the advanced map; the advanced map yields its selected curve, or the
/// empty (never-loadable) name when the temperature is below every
/// threshold.
pub open spec fn resolves_to(entry: Option<FanMap>, chip: Seq<char>, temp: u8, r: ResolvedAction) -> bool {
    match entry {
        None => r is Unconfigured,
        Some(e) => {
            if e.static_fan_map is Some {
                r matches ResolvedAction::Static(d) && d == e.static_fan_map->0
            } else if e.dynamic_cpu_chip is None || (e.dynamic_fan_speed_map is None
                && e.advanced_speed_map is None) {
                r is Skip
            } else if e.dynamic_cpu_chip->0@ != chip {
                r is Skip
            } else if e.dynamic_fan_speed_map is Some {
                r matches ResolvedAction::UseCurve(n) && n@ == e.dynamic_fan_speed_map->0@
            } else {
                let rows = e.advanced_speed_map->0@;
                r matches ResolvedAction::UseCurve(n) && if exists|i: int|
                    0 <= i < rows.len() && #[trigger] rows[i].refer <= temp {
                    exists|i: int|
                        #[trigger] is_selected_at(rows, temp, i) && n@ == rows[i].speed_map@
                } else {
                    n@ =~= Seq::<char>::empty()
                }
            }
        },
    }
}

/// Law: an absent policy row resolves to `Unconfigured`, whatever the chip
/// and temperature.
pub proof fn lemma_absent_entry_resolves_unconfigured(
    chip: Seq<char>,
    temp: u8,
    a: ResolvedAction,
)
    requires
        resolves_to(None, chip, temp, a),
    ensures
        a is Unconfigured,
{
}

/// Finds the first policy row for the given fan id.
#[verifier::loop_isolation(false)]
pub fn find_fan_map(rows: &Vec<FanMap>, id: u8) -> (r: Option<usize>)
    ensures
        match r {
            Some(i) => i < rows@.len() && first_with_id(rows@, id) == Some(rows@[i as int]),
            None => first_with_id(rows@, id) is None,
        },
{
    let n = rows.len();
    let mut i: usize = 0;
    proof {
        assert(rows@.skip(0) =~= rows@);
    }
    while i < n
        invariant
            0 <= i <= n,
            first_with_id(rows@, id) == first_with_id(rows@.skip(i as int), id),
        decreases n - i,
    {
        if rows[i].id == id {
            proof {
                assert(rows@.skip(i as int)[0] == rows@[i as int]);
            }
            return Some(i);
        }
        proof {
            assert(rows@.skip(i as int).drop_first() =~= rows@.skip(i + 1));
        }
        i = i + 1;
    }
    None
}

/// Resolves one fan's policy row (or its absence) for one chip pass, by the
/// configured precedence.
pub fn resolve(entry: Option<&FanMap>, chip_name: &String, temp: u8) -> (r: ResolvedAction)
    ensures
        resolves_to(
            match entry {
                Some(e) => Some(*e),
                None => None,
            },
            chip_name@,
            temp,
            r,
        ),
{
    let e = match entry {
        None => {
            return ResolvedAction::Unconfigured;
        },
        Some(e) => e,
    };
    if let Some(duty) = e.static_fan_map {
        return ResolvedAction::Static(duty);
    }
    let chip = match e.dynamic_cpu_chip.as_ref() {
        None => {
            return ResolvedAction::Skip;
        },
        Some(chip) => chip,
    };
    if e.dynamic_fan_speed_map.is_none() && e.advanced_speed_map.is_none() {
        return ResolvedAction::Skip;
    }
    if !(*chip == *chip_name) {
        return ResolvedAction::Skip;
    }
    if let Some(name) = e.dynamic_fan_speed_map.as_ref() {
        return ResolvedAction::UseCurve(name.clone());
    }
    let rows = match e.advanced_speed_map.as_ref() {
        None => {
            return ResolvedAction::Skip;
        },
        Some(rows) => rows,
    };
    match select(rows, temp) {
        Some(name) => ResolvedAction::UseCurve(name),
        None => ResolvedAction::UseCurve(String::new()),
    }
}

} // verus!
