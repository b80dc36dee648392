//! One monitoring cycle's decisions: the chip-scoped dynamic pass and the
//! static pass. Reading temperatures and driving the fans stay with the
//! caller; this module only decides.

use vstd::prelude::*;
use crate::config::{find_temp_fan_speed_map, lookup_curve, FanMap, TemperatureData};
use crate::interp::{interp, interpolate};
use crate::resolve::{find_fan_map, first_with_id, resolve, ResolvedAction};
use crate::select::is_selected_at;

verus! {

/// What the dynamic pass does for one fan on one chip.
pub enum FanDecision {
    /// Drive the fan at this duty.
    Duty(u8),
    /// Emit nothing: the row is claimed by the static pass, incomplete, or
    /// scoped to another chip.
    NoAction,
    /// The curve of this name could not be used (absent from the registry,
    /// or without breakpoints): report and skip the fan for this cycle.
    Failed(String),
}

/// A command for the actuation collaborator: drive fan `fan` at duty `duty`.
#[derive(Clone, Copy, PartialEq, Eq, Structural, Debug)]
pub struct FanCommand {
    pub fan: u8,
    pub duty: u8,
}

/// The policy row that governs the given fan: the first row with its id.
pub open spec fn spec_entry_for(data: TemperatureData, fan: u8) -> Option<FanMap> {
    match data.setting.fan_map {
        None => None,
        Some(rows) => first_with_id(rows@, fan),
    }
}

/// `r` is the right outcome of driving a fan along the curve named `name`:
/// the interpolated duty when the curve is loaded and has breakpoints, and
/// a reported failure carrying the name otherwise.
pub open spec fn curve_decision_ok(
    data: TemperatureData,
    name: Seq<char>,
    temp: u8,
    r: FanDecision,
) -> bool {
    match data.temperature_points {
        None => r matches FanDecision::Failed(n) && n@ == name,
        Some(maps) => match lookup_curve(maps@, name) {
            None => r matches FanDecision::Failed(n) && n@ == name,
            Some(m) => if m.map@.len() == 0 {
                r matches FanDecision::Failed(n) && n@ == name
            } else {
                r matches FanDecision::Duty(d) && d as int == interp(m.map@, temp)
            },
        },
    }
}

/// `r` is the right outcome of the dynamic pass for one fan on one chip:
/// no governing row falls back to the curve named `default`; a fixed duty,
/// an incomplete dynamic policy, or another chip's row yields nothing; a
/// named curve is interpolated; an advanced map first selects the curve of
/// the largest reached threshold (later rows win ties), or the empty name —
/// which no registry holds — when no threshold is reached.
pub open spec fn decision_ok(
    data: TemperatureData,
    fan: u8,
    chip: Seq<char>,
    temp: u8,
    r: FanDecision,
) -> bool {
    match spec_entry_for(data, fan) {
        None => curve_decision_ok(data, "default"@, temp, r),
        Some(e) => {
            if e.static_fan_map is Some {
                r is NoAction
            } else if e.dynamic_cpu_chip is None || (e.dynamic_fan_speed_map is None
                && e.advanced_speed_map is None) {
                r is NoAction
            } else if e.dynamic_cpu_chip->0@ != chip {
                r is NoAction
            } else if e.dynamic_fan_speed_map is Some {
                curve_decision_ok(data, e.dynamic_fan_speed_map->0@, temp, r)
            } else {
                let rows = e.advanced_speed_map->0@;
                if exists|i: int| 0 <= i < rows.len() && #[trigger] rows[i].refer <= temp {
                    exists|i: int|
                        #[trigger] is_selected_at(rows, temp, i) && curve_decision_ok(
                            data,
                            rows[i].speed_map@,
                            temp,
                            r,
                        )
                } else {
                    curve_decision_ok(data, Seq::<char>::empty(), temp, r)
                }
            }
        },
    }
}

/// Decides the dynamic pass for one fan on one chip: resolves the fan's
/// policy, looks the chosen curve up (the one named `default` when the fan
/// has no row), and interpolates the measured temperature along it. Curve
/// failures are returned, not raised: the caller reports them and goes on
/// with the other fans.
pub fn decide_fan(data: &TemperatureData, fan: u8, chip_name: &String, temp: u8) -> (r: FanDecision)
    ensures
        decision_ok(*data, fan, chip_name@, temp, r),
{
    let action: ResolvedAction = match data.setting.fan_map.as_ref() {
        None => ResolvedAction::Unconfigured,
        Some(rows) => match find_fan_map(rows, fan) {
            None => ResolvedAction::Unconfigured,
            Some(i) => resolve(Some(&rows[i]), chip_name, temp),
        },
    };
    let name: String = match action {
        ResolvedAction::Static(_) => {
            return FanDecision::NoAction;
        },
        ResolvedAction::Skip => {
            return FanDecision::NoAction;
        },
        ResolvedAction::Unconfigured => "default".to_owned(),
        ResolvedAction::UseCurve(n) => n,
    };
    match find_temp_fan_speed_map(data, &name) {
        Err(_) => FanDecision::Failed(name),
        Ok(points) => {
            if points.len() == 0 {
                FanDecision::Failed(name)
            } else {
                FanDecision::Duty(interpolate(points, temp))
            }
        },
    }
}

/// One fan's outcome in a chip pass.
pub struct FanOutcome {
    pub fan: u8,
    pub decision: FanDecision,
}

/// The dynamic pass for one chip: decides every configured fan index in
/// order against this chip's measured temperature.
#[verifier::loop_isolation(false)]
pub fn plan_chip_pass(data: &TemperatureData, chip_name: &String, temp: u8) -> (r: Vec<FanOutcome>)
    ensures
        r@.len() == data.setting.fan_num as int,
        forall|k: int|
            0 <= k < r@.len() ==> (#[trigger] r@[k]).fan == k as u8 && decision_ok(
                *data,
                k as u8,
                chip_name@,
                temp,
                r@[k].decision,
            ),
{
    let n = data.setting.fan_num;
    let mut out: Vec<FanOutcome> = Vec::new();
    let mut i: u8 = 0;
    while i < n
        invariant
            i <= n,
            out@.len() == i as int,
            forall|k: int|
                0 <= k < i as int ==> (#[trigger] out@[k]).fan == k as u8 && decision_ok(
                    *data,
                    k as u8,
                    chip_name@,
                    temp,
                    out@[k].decision,
                ),
        decreases n - i,
    {
        let d = decide_fan(data, i, chip_name, temp);
        out.push(FanOutcome { fan: i, decision: d });
        i = i + 1;
    }
    out
}

/// A policy row the static pass acts on: a fixed duty for this fan id with
/// no dynamic policy beside it.
pub open spec fn static_row_qualifies(e: FanMap, id: u8) -> bool {
    e.id == id && e.dynamic_cpu_chip is None && e.dynamic_fan_speed_map is None
        && e.static_fan_map is Some
}

/// The commands the static pass emits for one fan id: one per qualifying
/// row, in row order.
pub open spec fn static_cmds_for_fan(rows: Seq<FanMap>, id: u8) -> Seq<FanCommand>
    decreases rows.len(),
{
    if rows.len() == 0 {
        Seq::empty()
    } else {
        let init = static_cmds_for_fan(rows.drop_last(), id);
        if static_row_qualifies(rows.last(), id) {
            init.push(FanCommand { fan: id, duty: rows.last().static_fan_map->0 })
        } else {
            init
        }
    }
}

/// The whole static pass: the commands for every fan index below `fan_num`,
/// in fan order.
pub open spec fn static_plan(rows: Seq<FanMap>, fan_num: int) -> Seq<FanCommand>
    decreases fan_num,
{
    if fan_num <= 0 {
        Seq::empty()
    } else {
        static_plan(rows, fan_num - 1) + static_cmds_for_fan(rows, (fan_num - 1) as u8)
    }
}

/// The static pass, run once per cycle after the chip passes: emits a
/// command for every row that carries only a fixed duty for a configured
/// fan index.
#[verifier::loop_isolation(false)]
pub fn plan_static_pass(data: &TemperatureData) -> (r: Vec<FanCommand>)
    ensures
        match data.setting.fan_map {
            None => r@ == Seq::<FanCommand>::empty(),
            Some(rows) => r@ == static_plan(rows@, data.setting.fan_num as int),
        },
{
    let mut out: Vec<FanCommand> = Vec::new();
    let rows = match data.setting.fan_map.as_ref() {
        None => {
            proof {
                assert(out@ =~= Seq::<FanCommand>::empty());
            }
            return out;
        },
        Some(rows) => rows,
    };
    let fan_num = data.setting.fan_num;
    let nrows = rows.len();
    let mut i: u8 = 0;
    while i < fan_num
        invariant
            i <= fan_num,
            out@ == static_plan(rows@, i as int),
        decreases fan_num - i,
    {
        let mut j: usize = 0;
        proof {
            assert(static_cmds_for_fan(rows@.subrange(0, 0), i) =~= Seq::<FanCommand>::empty());
        }
        while j < nrows
            invariant
                j <= nrows,
                out@ == static_plan(rows@, i as int) + static_cmds_for_fan(
                    rows@.subrange(0, j as int),
                    i,
                ),
            decreases nrows - j,
        {
            let row = &rows[j];
            if row.id == i && row.dynamic_cpu_chip.is_none() && row.dynamic_fan_speed_map.is_none()
            {
                if let Some(duty) = row.static_fan_map {
                    out.push(FanCommand { fan: i, duty });
                }
            }
            proof {
                assert(rows@.subrange(0, j + 1).drop_last() =~= rows@.subrange(0, j as int));
                assert(rows@.subrange(0, j + 1).last() == rows@[j as int]);
            }
            j = j + 1;
        }
        proof {
            assert(rows@.subrange(0, nrows as int) =~= rows@);
        }
        i = i + 1;
    }
    out
}

proof fn lemma_static_cmds_for_fan_membership(rows: Seq<FanMap>, id: u8, c: FanCommand)
    ensures
        static_cmds_for_fan(rows, id).contains(c) <==> (c.fan == id && exists|j: int|
            0 <= j < rows.len() && #[trigger] static_row_qualifies(rows[j], id)
                && rows[j].static_fan_map->0 == c.duty),
    decreases rows.len(),
{
    if rows.len() == 0 {
    } else {
        let front = rows.drop_last();
        lemma_static_cmds_for_fan_membership(front, id, c);
        let init = static_cmds_for_fan(front, id);
        let full = static_cmds_for_fan(rows, id);
        let last = rows[rows.len() - 1];
        assert(forall|j: int| 0 <= j < front.len() ==> front[j] == rows[j]);
        if full.contains(c) {
            let k = choose|k: int| 0 <= k < full.len() && full[k] == c;
            if k < init.len() {
                assert(init[k] == c);
                assert(init.contains(c));
            } else {
                assert(static_row_qualifies(last, id) && last.static_fan_map->0 == c.duty);
            }
        }
        if c.fan == id && exists|j: int|
            0 <= j < rows.len() && #[trigger] static_row_qualifies(rows[j], id)
                && rows[j].static_fan_map->0 == c.duty {
            let j = choose|j: int|
                0 <= j < rows.len() && #[trigger] static_row_qualifies(rows[j], id)
                    && rows[j].static_fan_map->0 == c.duty;
            if j < rows.len() - 1 {
                assert(static_row_qualifies(front[j], id) && front[j].static_fan_map->0 == c.duty);
                let k = choose|k: int| 0 <= k < init.len() && init[k] == c;
                assert(full[k] == c);
            } else {
                assert(full[full.len() - 1] == c);
            }
            assert(full.contains(c));
        }
    }
}

/// Law: the static pass emits a command for a fan exactly when the fan's
/// index is configured and some policy row carries only a fixed duty for
/// it, and every emitted duty is such a row's.
pub proof fn lemma_static_plan_membership(rows: Seq<FanMap>, fan_num: int, c: FanCommand)
    requires
        fan_num <= 256,
    ensures
        static_plan(rows, fan_num).contains(c) <==> (c.fan < fan_num && exists|j: int|
            0 <= j < rows.len() && #[trigger] static_row_qualifies(rows[j], c.fan)
                && rows[j].static_fan_map->0 == c.duty),
    decreases fan_num,
{
    if fan_num <= 0 {
    } else {
        let id = (fan_num - 1) as u8;
        lemma_static_plan_membership(rows, fan_num - 1, c);
        lemma_static_cmds_for_fan_membership(rows, id, c);
        let a = static_plan(rows, fan_num - 1);
        let b = static_cmds_for_fan(rows, id);
        let full = static_plan(rows, fan_num);
        assert(full == a + b);
        if full.contains(c) {
            let k = choose|k: int| 0 <= k < full.len() && full[k] == c;
            if k < a.len() {
                assert(a[k] == c);
                assert(a.contains(c));
            } else {
                assert(b[k - a.len()] == c);
                assert(b.contains(c));
            }
        }
        if a.contains(c) {
            let k = choose|k: int| 0 <= k < a.len() && a[k] == c;
            assert(full[k] == c);
            assert(full.contains(c));
        }
        if b.contains(c) {
            let k = choose|k: int| 0 <= k < b.len() && b[k] == c;
            assert(full[a.len() + k] == c);
            assert(full.contains(c));
        }
    }
}

/// Law: with no fan table configured at all, the dynamic pass decides every
/// fan — whatever its id — along the curve named `default`.
pub proof fn lemma_absent_fan_table_uses_default(
    data: TemperatureData,
    fan: u8,
    chip: Seq<char>,
    temp: u8,
    r: FanDecision,
)
    requires
        data.setting.fan_map is None,
        decision_ok(data, fan, chip, temp, r),
    ensures
        curve_decision_ok(data, "default"@, temp, r),
{
}

} // verus!
