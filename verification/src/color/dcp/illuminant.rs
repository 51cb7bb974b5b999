//! Which of a profile's two maps applies to a scene.
//!
//! A profile can carry one map for warm and one for cool light. Where both can be put to use they
//! are blended by the scene's colour temperature; that arithmetic is the application's, and what
//! is blended, between which temperatures, is decided here.

use super::parser::{Dcp, DcpView, HueSatMap, HueSatMapView, LIGHT_SOURCE_D65};
use vstd::prelude::*;

verus! {

/// The colour temperature of a light source that isn't known, in kelvins.
pub const DEFAULT_SCENE_TEMP_K: u32 = 5000;

/// The colour temperature of an EXIF light source, in kelvins.
pub open spec fn temp_of(code: u16) -> u32 {
    if code == 1 || code == 4 {
        5500
    } else if code == 2 {
        3500
    } else if code == 3 || code == 17 {
        2856
    } else if code == 9 {
        6000
    } else if code == 10 {
        6500
    } else if code == 11 {
        7500
    } else if code == 12 {
        6430
    } else if code == 13 {
        5000
    } else if code == 14 {
        4200
    } else if code == 15 {
        3450
    } else if code == 18 {
        4874
    } else if code == 19 {
        6774
    } else if code == 20 {
        7504
    } else if code == 21 {
        6504
    } else if code == 22 {
        5503
    } else if code == 23 {
        5003
    } else if code == 24 {
        3200
    } else {
        DEFAULT_SCENE_TEMP_K
    }
}

/// One of a profile's two maps.
#[derive(Debug, Clone, Copy, PartialEq, Eq, Structural)]
pub enum Slot {
    First,
    Second,
}

/// What to apply of a profile's maps.
#[derive(Debug, Clone, Copy, PartialEq, Eq, Structural)]
pub enum Blend {
    /// There's no map.
    Nothing,
    /// One map as it is.
    Single(Slot),
    /// Both, weighted by where the scene lies between two temperatures.
    Mix { low: Slot, low_k: u32, high: Slot, high_k: u32 },
}

/// Whether two maps can be blended entry by entry.
pub open spec fn same_shape(a: HueSatMapView, b: HueSatMapView) -> bool {
    &&& a.hue_divs == b.hue_divs
    &&& a.sat_divs == b.sat_divs
    &&& a.val_divs == b.val_divs
    &&& a.data.len() == b.data.len()
}

/// The map in a slot.
pub open spec fn in_slot(dcp: DcpView, slot: Slot) -> Option<HueSatMapView> {
    match slot {
        Slot::First => dcp.hue_sat_map_1,
        Slot::Second => dcp.hue_sat_map_2,
    }
}

/// Whether both maps can be put to use: they're for lights of different temperatures and have
/// the same shape.
pub open spec fn blendable(dcp: DcpView) -> bool {
    &&& dcp.hue_sat_map_1 is Some
    &&& dcp.hue_sat_map_2 is Some
    &&& dcp.calibration_illuminant_1 is Some
    &&& dcp.calibration_illuminant_2 is Some
    &&& temp_of(dcp.calibration_illuminant_1->0) != temp_of(dcp.calibration_illuminant_2->0)
    &&& same_shape(dcp.hue_sat_map_1->0, dcp.hue_sat_map_2->0)
}

/// What to apply of a profile's maps.
pub open spec fn blend_of(dcp: DcpView) -> Blend {
    if dcp.hue_sat_map_1 is None && dcp.hue_sat_map_2 is None {
        Blend::Nothing
    } else if dcp.hue_sat_map_2 is None {
        Blend::Single(Slot::First)
    } else if dcp.hue_sat_map_1 is None {
        Blend::Single(Slot::Second)
    } else if blendable(dcp) {
        let first = temp_of(dcp.calibration_illuminant_1->0);
        let second = temp_of(dcp.calibration_illuminant_2->0);
        if first < second {
            Blend::Mix { low: Slot::First, low_k: first, high: Slot::Second, high_k: second }
        } else {
            Blend::Mix { low: Slot::Second, low_k: second, high: Slot::First, high_k: first }
        }
    } else if dcp.calibration_illuminant_2 == Some(LIGHT_SOURCE_D65) {
        Blend::Single(Slot::Second)
    } else {
        Blend::Single(Slot::First)
    }
}

/// The colour temperature of an EXIF light source, in kelvins.
pub fn illuminant_temp_k(code: u16) -> (kelvins: u32)
    ensures
        kelvins == temp_of(code),
{
    match code {
        1 => 5500,  // Daylight
        2 => 3500,  // Fluorescent
        3 => 2856,  // Tungsten
        4 => 5500,  // Flash
        9 => 6000,  // Fine weather
        10 => 6500,  // Cloudy
        11 => 7500,  // Shade
        12 => 6430,  // Daylight fluorescent
        13 => 5000,  // Day white fluorescent
        14 => 4200,  // Cool white fluorescent
        15 => 3450,  // White fluorescent
        17 => 2856,  // Standard Light A
        18 => 4874,  // Standard Light B
        19 => 6774,  // Standard Light C
        20 => 7504,  // D75
        21 => 6504,  // D65
        22 => 5503,  // D55
        23 => 5003,  // D50
        24 => 3200,  // ISO studio tungsten
        _ => DEFAULT_SCENE_TEMP_K,
    }
}

impl HueSatMap {
    /// Whether two maps can be blended entry by entry.
    pub fn has_same_shape_as(&self, other: &HueSatMap) -> (yes: bool)
        ensures
            yes == same_shape(self@, other@),
    {
        self.hue_divs == other.hue_divs && self.sat_divs == other.sat_divs && self.val_divs
            == other.val_divs && self.data.len() == other.data.len()
    }
}

/// What to apply of a profile's maps.
pub fn blend_for(dcp: &Dcp) -> (blend: Blend)
    ensures
        blend == blend_of(dcp@),
{
    match (&dcp.hue_sat_map_1, &dcp.hue_sat_map_2) {
        (None, None) => Blend::Nothing,
        (Some(_), None) => Blend::Single(Slot::First),
        (None, Some(_)) => Blend::Single(Slot::Second),
        (Some(map_1), Some(map_2)) => {
            if let (Some(code_1), Some(code_2)) = (
                dcp.calibration_illuminant_1,
                dcp.calibration_illuminant_2,
            ) {
                let first: u32 = illuminant_temp_k(code_1);
                let second: u32 = illuminant_temp_k(code_2);
                if first != second && map_1.has_same_shape_as(map_2) {
                    if first < second {
                        return Blend::Mix {
                            low: Slot::First,
                            low_k: first,
                            high: Slot::Second,
                            high_k: second,
                        };
                    }
                    return Blend::Mix {
                        low: Slot::Second,
                        low_k: second,
                        high: Slot::First,
                        high_k: first,
                    };
                }
            }
            if dcp.calibration_illuminant_2 == Some(LIGHT_SOURCE_D65) {
                Blend::Single(Slot::Second)
            } else {
                Blend::Single(Slot::First)
            }
        },
    }
}

/// A profile with any map has something to apply, and every slot that is to be applied holds a
/// map.
pub proof fn what_is_applied_is_there(dcp: DcpView)
    ensures
        blend_of(dcp) == Blend::Nothing <==> dcp.picked() is None,
        blend_of(dcp) matches Blend::Single(slot) ==> in_slot(dcp, slot) is Some,
        blend_of(dcp) matches Blend::Mix { low, high, .. } ==> in_slot(dcp, low) is Some
            && in_slot(dcp, high) is Some,
{
}

/// Two maps are only blended where they have one shape and the temperatures between which the
/// scene is placed differ.
pub proof fn blending_is_well_defined(dcp: DcpView)
    ensures
        blend_of(dcp) matches Blend::Mix { low, low_k, high, high_k } ==> low != high && low_k
            < high_k && same_shape(in_slot(dcp, low)->0, in_slot(dcp, high)->0),
{
}

/// Where two maps can't be blended, the one applied is the one that is picked.
pub proof fn without_blending_the_picked_map_applies(dcp: DcpView)
    requires
        !blendable(dcp),
    ensures
        blend_of(dcp) matches Blend::Single(slot) ==> in_slot(dcp, slot) == dcp.picked(),
{
}

/// Light sources: a source that isn't listed counts as 5,000 kelvins, lamps with a filament stay
/// below 3,300, and a standard daylight has the temperature of its name, in hundreds.
pub proof fn light_sources_have_their_temperature(code: u16, kelvins: u32)
    requires
        call_ensures(illuminant_temp_k, (code,), kelvins),
    ensures
        2856 <= kelvins <= 7504,
        code == 0 || 5 <= code <= 8 || code == 16 || code > 24 ==> kelvins == 5000,
        code == 3 || code == 17 || code == 24 ==> kelvins < 3300,
        code == 3 || code == 17 ==> kelvins == 2856,
        20 <= code <= 23 ==> kelvins / 100 == if code == 20 {
            75int
        } else if code == 21 {
            65
        } else if code == 22 {
            55
        } else {
            50
        },
        code == 1 || code == 4 ==> kelvins == 5500,
        9 <= code <= 11 ==> 6000 <= kelvins <= 7500 && kelvins == 6000 + 500 * (code - 9) + if code
            == 11 {
            500int
        } else {
            0
        },
        12 <= code <= 15 ==> 3450 <= kelvins <= 6430,
{
}

/// Two maps of one shape for two lights of different temperatures are mixed, the cooler number
/// low, each with the temperature of its own light. With one map, that one applies; with none,
/// nothing does; and two that can't be mixed leave the one that's for daylight, or the first.
pub proof fn maps_go_with_their_lights(dcp: &Dcp, blend: Blend, first_k: u32, second_k: u32)
    requires
        call_ensures(blend_for, (dcp,), blend),
        dcp.calibration_illuminant_1 matches Some(code) ==> call_ensures(
            illuminant_temp_k,
            (code,),
            first_k,
        ),
        dcp.calibration_illuminant_2 matches Some(code) ==> call_ensures(
            illuminant_temp_k,
            (code,),
            second_k,
        ),
    ensures
        blend == Blend::Nothing <==> dcp.hue_sat_map_1 is None && dcp.hue_sat_map_2 is None,
        dcp.hue_sat_map_1 is Some && dcp.hue_sat_map_2 is None ==> blend == Blend::Single(
            Slot::First,
        ),
        dcp.hue_sat_map_1 is None && dcp.hue_sat_map_2 is Some ==> blend == Blend::Single(
            Slot::Second,
        ),
        dcp.hue_sat_map_1 is Some && dcp.hue_sat_map_2 is Some ==> {
            let (a, b) = (dcp.hue_sat_map_1->0, dcp.hue_sat_map_2->0);
            let mixes = dcp.calibration_illuminant_1 is Some && dcp.calibration_illuminant_2 is Some
                && first_k != second_k && a.hue_divs == b.hue_divs && a.sat_divs == b.sat_divs
                && a.val_divs == b.val_divs && a.data@.len() == b.data@.len();
            &&& mixes && first_k < second_k ==> blend == (Blend::Mix {
                low: Slot::First,
                low_k: first_k,
                high: Slot::Second,
                high_k: second_k,
            })
            &&& mixes && first_k > second_k ==> blend == (Blend::Mix {
                low: Slot::Second,
                low_k: second_k,
                high: Slot::First,
                high_k: first_k,
            })
            &&& !mixes && dcp.calibration_illuminant_2 == Some(21u16) ==> blend == Blend::Single(
                Slot::Second,
            )
            &&& !mixes && dcp.calibration_illuminant_2 != Some(21u16) ==> blend == Blend::Single(
                Slot::First,
            )
        },
{
}

/// Two maps have one shape exactly where they have as many hues, saturations and values, and as
/// many numbers.
pub proof fn shapes_are_the_same_on_every_axis(a: &HueSatMap, b: &HueSatMap, yes: bool)
    requires
        call_ensures(HueSatMap::has_same_shape_as, (a, b), yes),
    ensures
        yes <==> a.hue_divs == b.hue_divs && a.sat_divs == b.sat_divs && a.val_divs == b.val_divs
            && a.data@.len() == b.data@.len(),
{
}

} // verus!
