//! The configuration that drives the engine: curves of (temperature, duty)
//! breakpoints, per-fan policy rows, and the global settings. All of it is
//! loaded once and read-only afterwards.

use vstd::prelude::*;

verus! {

/// One breakpoint of a curve: at `temperature` degrees the fan should run
/// at `fan_speed` percent duty.
#[derive(Clone, Copy, PartialEq, Eq, Structural, Debug)]
pub struct TemperaturePoint {
    pub temperature: u8,
    pub fan_speed: u8,
}

/// A named curve: an ordered sequence of breakpoints, looked up by name.
pub struct TemperaturePointMap {
    pub name: String,
    pub map: Vec<TemperaturePoint>,
}

/// One row of an advanced speed map: when the measured temperature has
/// reached `refer`, the curve named `speed_map` applies.
pub struct AdvancedSpeedMap {
    pub speed_map: String,
    pub refer: u8,
}

/// One fan's configured policy. `static_fan_map` is a fixed duty;
/// `dynamic_cpu_chip` scopes the dynamic policy to one chip;
/// `dynamic_fan_speed_map` names a curve directly; `advanced_speed_map`
/// selects a curve by temperature threshold.
pub struct FanMap {
    pub id: u8,
    pub static_fan_map: Option<u8>,
    pub dynamic_cpu_chip: Option<String>,
    pub dynamic_fan_speed_map: Option<String>,
    pub advanced_speed_map: Option<Vec<AdvancedSpeedMap>>,
}

/// Global settings: how many fans to drive, how often to run a cycle, and
/// the per-fan policy table (absent means: default curve for every fan).
pub struct Setting {
    pub fan_num: u8,
    pub interval: u64,
    pub fan_map: Option<Vec<FanMap>>,
}

/// The whole loaded configuration: the curve registry and the settings.
pub struct TemperatureData {
    pub temperature_points: Option<Vec<TemperaturePointMap>>,
    pub setting: Setting,
}

/// The first curve in `maps` whose name is `name`, if any.
pub open spec fn lookup_curve(maps: Seq<TemperaturePointMap>, name: Seq<char>) -> Option<
    TemperaturePointMap,
>
    decreases maps.len(),
{
    if maps.len() == 0 {
        None
    } else if maps[0].name@ == name {
        Some(maps[0])
    } else {
        lookup_curve(maps.drop_first(), name)
    }
}

/// Looks a curve up by name in the loaded registry. Fails exactly when no
/// curve of that name was loaded (including when no curves were loaded at
/// all), and then reports the same error either way.
#[verifier::loop_isolation(false)]
pub fn find_temp_fan_speed_map<'a>(data: &'a TemperatureData, name: &String) -> (r: Result<
    &'a Vec<TemperaturePoint>,
    String,
>)
    ensures
        match data.temperature_points {
            None => r is Err,
            Some(maps) => match lookup_curve(maps@, name@) {
                None => r is Err,
                Some(m) => r matches Ok(v) && v@ == m.map@,
            },
        },
        r matches Err(e) ==> e@ == "No temperature point defined!"@,
{
    match data.temperature_points.as_ref() {
        None => Err("No temperature point defined!".to_owned()),
        Some(maps) => {
            let n = maps.len();
            let mut i: usize = 0;
            proof {
                assert(maps@.skip(0) =~= maps@);
            }
            while i < n
                invariant
                    0 <= i <= n,
                    n == maps@.len(),
                    lookup_curve(maps@, name@) == lookup_curve(maps@.skip(i as int), name@),
                decreases n - i,
            {
                if maps[i].name == *name {
                    proof {
                        assert(maps@.skip(i as int).len() > 0);
                        assert(maps@.skip(i as int)[0] == maps@[i as int]);
                        assert(lookup_curve(maps@.skip(i as int), name@) == Some(
                            maps@[i as int],
                        ));
                    }
                    return Ok(&maps[i].map);
                }
                proof {
                    assert(maps@.skip(i as int).drop_first() =~= maps@.skip(i + 1));
                }
                i = i + 1;
            }
            Err("No temperature point defined!".to_owned())
        },
    }
}

} // verus!
