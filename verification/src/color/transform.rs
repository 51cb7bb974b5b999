//! Converting pixels between ICC profiles.
//!
//! `moxcms` parses profiles and converts pixels. Whether there's anything to convert is decided
//! here.

use super::display_profile::{
    icc_name, number_at, signature_at, spells, tag_entry_at, TAG_TABLE,
};
use crate::bytes::{be_u16, be_u32, read_be_u16, read_be_u32};
use crate::text::{
    amount, commas_stand_at_every_fourth_place, decimal, decimals_spell_their_number, grouped,
    with_separators,
};
use vstd::prelude::*;

verus! {

/// Whether `moxcms` can parse these bytes as an ICC profile.
pub uninterp spec fn icc_parses(bytes: Seq<u8>) -> bool;

/// Whether `moxcms` can build an in-place conversion of RGBA pixels from one profile to another.
pub uninterp spec fn icc_connects(source: Seq<u8>, target: Seq<u8>, relative: bool) -> bool;

/// Whether `moxcms` may make `after` of the RGBA pixels `before`, converting from one profile to
/// another. It may make more than one thing of them, because what it makes depends on the machine
/// that it runs on.
pub uninterp spec fn icc_may_give(
    source: Seq<u8>,
    target: Seq<u8>,
    relative: bool,
    before: Seq<u8>,
    after: Seq<u8>,
) -> bool;

// ----- curves that can be inverted -----

/// How many zeros a curve may begin with.
pub const LEADING_ZEROS: u32 = 32_769;

/// `curv`.
pub open spec fn curv_signature() -> Seq<u8> {
    seq![0x63u8, 0x75u8, 0x72u8, 0x76u8]
}

/// Whether entry `i` of the tag table is for a curve: `rTRC`, `gTRC`, `bTRC` or `kTRC`.
pub open spec fn is_curve_entry(icc: Seq<u8>, i: int) -> bool {
    let at = tag_entry_at(i);
    &&& icc[at] == 0x72 || icc[at] == 0x67 || icc[at] == 0x62 || icc[at] == 0x6b
    &&& icc[at + 1] == 0x54
    &&& icc[at + 2] == 0x52
    &&& icc[at + 3] == 0x43
}

/// Point `k` of the curve that starts at a byte offset.
pub open spec fn curve_point(icc: Seq<u8>, offset: int, k: int) -> u16 {
    be_u16(icc, offset + 12 + k * 2)
}

/// Whether inverting a curve of so many points, which starts at a byte offset, overflows: where it
/// begins with more zeros than can be scaled, or ends with a run of full levels that leaves more
/// points before it than can be.
pub open spec fn is_too_flat(icc: Seq<u8>, offset: int, count: int) -> bool {
    ||| count > LEADING_ZEROS && forall|k: int|
        0 <= k <= LEADING_ZEROS ==> #[trigger] curve_point(icc, offset, k) == 0
    ||| {
        &&& count >= 2
        &&& curve_point(icc, offset, count - 2) == 0xffff
        &&& curve_point(icc, offset, count - 1) == 0xffff
        &&& exists|k: int|
            LEADING_ZEROS <= k < count && #[trigger] curve_point(icc, offset, k) != 0xffff
    }
}

/// Whether a curve starts at a byte offset whose inversion overflows.
pub open spec fn is_flat(icc: Seq<u8>, offset: int) -> bool {
    &&& offset + 12 <= icc.len()
    &&& signature_at(icc, offset, curv_signature())
    &&& offset + 12 + be_u32(icc, offset + 8) * 2 <= icc.len()
    &&& is_too_flat(icc, offset, be_u32(icc, offset + 8) as int)
}

/// Whether entry `i` of the tag table is for a curve whose inversion overflows.
pub open spec fn is_flat_entry(icc: Seq<u8>, i: int) -> bool {
    is_curve_entry(icc, i) && is_flat(icc, be_u32(icc, tag_entry_at(i) + 4) as int)
}

/// `cicp`.
pub open spec fn cicp_signature() -> Seq<u8> {
    seq![0x63u8, 0x69u8, 0x63u8, 0x70u8]
}

/// The last of the first `n` entries of the tag table that names code points.
pub open spec fn last_code_points(icc: Seq<u8>, n: nat) -> Option<int>
    decreases n,
{
    if n == 0 {
        None
    } else if signature_at(icc, tag_entry_at(n - 1), cicp_signature()) {
        Some(n - 1)
    } else {
        last_code_points(icc, (n - 1) as nat)
    }
}

/// Whether a number names a transfer function: 0, 2, 3 and all from 19 on don't.
pub open spec fn is_transfer(number: u8) -> bool {
    number == 1 || 4 <= number <= 18
}

/// Whether code points at a byte offset name a transfer function.
pub open spec fn names_transfer(icc: Seq<u8>, offset: int, size: int) -> bool {
    &&& size >= 12
    &&& offset + size <= icc.len()
    &&& signature_at(icc, offset, cicp_signature())
    &&& is_transfer(icc[offset + 9])
}

/// Whether a profile is an RGB one of an input or a display (`scnr` or `mntr`).
pub open spec fn takes_code_points(icc: Seq<u8>) -> bool {
    &&& signature_at(icc, 12, seq![0x73u8, 0x63u8, 0x6eu8, 0x72u8]) || signature_at(
        icc,
        12,
        seq![0x6du8, 0x6eu8, 0x74u8, 0x72u8],
    )
    &&& signature_at(icc, 16, seq![0x52u8, 0x47u8, 0x42u8, 0x20u8])
}

/// Whether a profile with so many tags is such a one whose code points name a transfer function. That one counts then, and no curve is inverted.
pub open spec fn has_transfer(icc: Seq<u8>, count: int) -> bool {
    &&& takes_code_points(icc)
    &&& match last_code_points(icc, count as nat) {
        Some(i) => names_transfer(
            icc,
            be_u32(icc, tag_entry_at(i) + 4) as int,
            be_u32(icc, tag_entry_at(i) + 8) as int,
        ),
        None => false,
    }
}

/// Whether no curve of a profile overflows when it's inverted.
pub open spec fn invertible(icc: Seq<u8>) -> bool {
    match number_at(icc, TAG_TABLE as int) {
        Some(count) => tag_entry_at(count as int) <= icc.len() ==> has_transfer(icc, count as int)
            || forall|i: int| 0 <= i < count ==> !#[trigger] is_flat_entry(icc, i),
        None => true,
    }
}

/// Whether pixels can be converted from one profile to another.
pub open spec fn convertible(source: Seq<u8>, target: Seq<u8>, relative: bool) -> bool {
    invertible(target) && icc_connects(source, target, relative)
}

/// Whether the points `from..to` of the curve that starts at a byte offset are all at one level.
fn all_at(icc: &[u8], offset: usize, from: usize, to: usize, wanted: u16) -> (yes: bool)
    requires
        from <= to,
        offset + 12 + to * 2 <= icc.len(),
    ensures
        yes == forall|k: int|
            from <= k < to ==> #[trigger] curve_point(icc@, offset as int, k) == wanted,
{
    let mut k: usize = from;
    while k < to
        invariant
            from <= k <= to,
            offset + 12 + to * 2 <= icc.len(),
            forall|j: int| from <= j < k ==> #[trigger] curve_point(icc@, offset as int, j)
                == wanted,
        decreases to - k,
    {
        let point: u16 = read_be_u16(icc, offset + 12 + k * 2);
        assert(point == curve_point(icc@, offset as int, k as int));
        if point != wanted {
            return false;
        }
        k = k + 1;
    }
    true
}

/// Whether a curve starts at a byte offset whose inversion overflows.
fn flat(icc: &[u8], offset: u32) -> (yes: bool)
    ensures
        yes == is_flat(icc@, offset as int),
{
    if offset as u64 + 12 > icc.len() as u64 {
        return false;
    }
    let at: usize = offset as usize;
    if !spells(icc, at, &[0x63, 0x75, 0x72, 0x76]) {
        return false;
    }
    let count: u32 = read_be_u32(icc, at + 8);
    if offset as u64 + 12 + count as u64 * 2 > icc.len() as u64 || count <= LEADING_ZEROS {
        return false;
    }
    let count: usize = count as usize;
    if all_at(icc, at, 0, LEADING_ZEROS as usize + 1, 0) {
        assert(is_too_flat(icc@, offset as int, count as int));
        return true;
    }
    let ends_full: bool = all_at(icc, at, count - 2, count, 0xffff);
    assert(ends_full == (curve_point(icc@, offset as int, count - 2) == 0xffff && curve_point(
        icc@,
        offset as int,
        count - 1,
    ) == 0xffff));
    ends_full && !all_at(icc, at, LEADING_ZEROS as usize, count, 0xffff)
}

/// Whether a profile's code points name a transfer function.
fn transfer_named(icc: &[u8], count: usize) -> (yes: bool)
    requires
        tag_entry_at(count as int) <= icc.len(),
    ensures
        yes == has_transfer(icc@, count as int),
{
    if !(spells(icc, 12, &[0x73, 0x63, 0x6e, 0x72]) || spells(icc, 12, &[0x6d, 0x6e, 0x74, 0x72]))
        || !spells(icc, 16, &[0x52, 0x47, 0x42, 0x20]) {
        return false;
    }
    let mut left: usize = count;
    while left > 0
        invariant
            left <= count,
            tag_entry_at(count as int) <= icc.len(),
            last_code_points(icc@, left as nat) == last_code_points(icc@, count as nat),
            takes_code_points(icc@),
        decreases left,
    {
        let at: usize = 132 + (left - 1) * 12;
        assert(at == tag_entry_at(left - 1));
        if spells(icc, at, &[0x63, 0x69, 0x63, 0x70]) {
            let offset: u32 = read_be_u32(icc, at + 4);
            let size: u32 = read_be_u32(icc, at + 8);
            if size < 12 || offset as u64 + size as u64 > icc.len() as u64 {
                return false;
            }
            let from: usize = offset as usize;
            let number: u8 = icc[from + 9];
            return spells(icc, from, &[0x63, 0x69, 0x63, 0x70]) && (number == 1 || 4 <= number
                && number <= 18);
        }
        left = left - 1;
    }
    false
}

/// Whether no curve of a profile overflows when it's inverted.
pub fn can_invert(icc: &[u8]) -> (yes: bool)
    ensures
        yes == invertible(icc@),
{
    if icc.len() < 132 {
        return true;
    }
    let count: u32 = read_be_u32(icc, 128);
    if 132 + count as u64 * 12 > icc.len() as u64 {
        return true;
    }
    let count: usize = count as usize;
    if transfer_named(icc, count) {
        return true;
    }
    let mut i: usize = 0;
    while i < count
        invariant
            i <= count,
            number_at(icc@, TAG_TABLE as int) == Some(count as u32),
            count <= u32::MAX,
            tag_entry_at(count as int) <= icc.len(),
            !has_transfer(icc@, count as int),
            forall|j: int| 0 <= j < i ==> !#[trigger] is_flat_entry(icc@, j),
        decreases count - i,
    {
        let at: usize = 132 + i * 12;
        assert(at == tag_entry_at(i as int));
        if (icc[at] == 0x72 || icc[at] == 0x67 || icc[at] == 0x62 || icc[at] == 0x6b) && icc[at + 1]
            == 0x54 && icc[at + 2] == 0x52 && icc[at + 3] == 0x43 && flat(
            icc,
            read_be_u32(icc, at + 4),
        ) {
            assert(is_flat_entry(icc@, i as int));
            return false;
        }
        i = i + 1;
    }
    true
}

/// `moxcms::ColorProfile::new_from_slice`: whether it answers with a profile. That depends on the
/// bytes alone.
#[verifier::external_body]
pub(crate) fn parses(bytes: &[u8]) -> (yes: bool)
    ensures
        yes == icc_parses(bytes@),
{
    moxcms::ColorProfile::new_from_slice(bytes).is_ok()
}

/// `moxcms::ColorProfile::create_in_place_transform_8bit` for RGBA, and the conversion it builds:
/// whether it ran. It runs over whole pixels only, between profiles that parse and connect; it
/// keeps every alpha, and where it doesn't run it touches nothing. Which colours it writes is left
/// to a relation, since they come out of vector code that is chosen by the machine's instruction
/// set. Inverting the target's curves overflows where one is very long and flat at an end, so those
/// are left out.
#[verifier::external_body]
fn convert(rgba: &mut [u8], source: &[u8], target: &[u8], relative: bool) -> (ran: bool)
    requires
        invertible(target@),
    ensures
        ran == (icc_connects(source@, target@, relative) && old(rgba)@.len() % 4 == 0),
        ran ==> icc_parses(source@) && icc_parses(target@),
        ran ==> icc_may_give(source@, target@, relative, old(rgba)@, final(rgba)@),
        !ran ==> final(rgba)@ == old(rgba)@,
        final(rgba)@.len() == old(rgba)@.len(),
        forall|i: int|
            0 <= i < old(rgba)@.len() && i % 4 == 3 ==> #[trigger] final(rgba)@[i] == old(
                rgba,
            )@[i],
{
    let source = moxcms::ColorProfile::new_from_slice(source);
    let target = moxcms::ColorProfile::new_from_slice(target);
    let (Ok(source), Ok(target)) = (source, target) else {
        return false;
    };
    let rendering_intent = match relative {
        true => moxcms::RenderingIntent::RelativeColorimetric,
        false => moxcms::RenderingIntent::Perceptual,
    };
    let options = moxcms::TransformOptions { rendering_intent, ..Default::default() };
    match source.create_in_place_transform_8bit(moxcms::Layout::Rgba, &target, options) {
        Ok(transform) => transform.transform(rgba).is_ok(),
        Err(_) => false,
    }
}

/// An ICC profile as a file: its first four bytes count its bytes.
pub open spec fn is_icc_file(bytes: Seq<u8>) -> bool {
    bytes.len() > 128 && be_u32(bytes, 0) == bytes.len()
}

/// `moxcms::ColorProfile::new_srgb`, encoded: a profile file that `moxcms` parses, under the name
/// that it gives sRGB. Its primaries and curves are left unsaid: they're rounded from floating
/// point. Its bytes hold the time at which it was made, so two calls may differ.
#[verifier::external_body]
pub fn srgb_icc_bytes() -> (bytes: Vec<u8>)
    ensures
        is_icc_file(bytes@),
        icc_parses(bytes@),
        icc_name(bytes@) == Some("sRGB IEC61966-2.1"@),
{
    moxcms::ColorProfile::new_srgb().encode().expect("the sRGB profile encodes")
}

// ----- whether there's anything to convert -----

/// How far a conversion may move a channel of the lattice and still count as none.
pub const NEGLIGIBLE_DELTA: u8 = 1;

/// Levels per channel in the lattice, from 0 to 255.
pub const PROBE_STEPS: usize = 18;

/// How many bytes the lattice has.
pub const PROBE_BYTES: usize = 23_328;

/// The lattice: every combination of 18 evenly spaced levels of red, green and blue, opaque,
/// with blue changing fastest.
pub open spec fn lattice() -> Seq<u8> {
    Seq::new(PROBE_BYTES as nat, |k: int| lattice_byte(k / 4, k % 4))
}

/// A channel of a pixel of the lattice.
pub open spec fn lattice_byte(pixel: int, channel: int) -> u8 {
    if channel == 0 {
        (pixel / 324 * 15) as u8
    } else if channel == 1 {
        (pixel / 18 % 18 * 15) as u8
    } else if channel == 2 {
        (pixel % 18 * 15) as u8
    } else {
        255u8
    }
}

/// Whether two levels differ by no more than counts.
pub open spec fn close(a: u8, b: u8) -> bool {
    a - b <= NEGLIGIBLE_DELTA && b - a <= NEGLIGIBLE_DELTA
}

/// Whether a conversion that made `probe` of the lattice moved nothing that anyone could see.
pub open spec fn is_negligible(probe: Seq<u8>) -> bool {
    forall|i: int| 0 <= i < PROBE_BYTES ==> close(lattice()[i], #[trigger] probe[i])
}

/// The lattice of colours over which a conversion is tried before it's run.
pub fn probe_lattice() -> (out: Vec<u8>)
    ensures
        out@ == lattice(),
{
    let mut out: Vec<u8> = Vec::new();
    let mut pixel: usize = 0;
    while pixel < 5832
        invariant
            pixel <= 5832,
            out@ == Seq::new((pixel * 4) as nat, |k: int| lattice_byte(k / 4, k % 4)),
        decreases 5832 - pixel,
    {
        out.push((pixel / 324 * 15) as u8);
        out.push((pixel / 18 % 18 * 15) as u8);
        out.push((pixel % 18 * 15) as u8);
        out.push(255);
        pixel = pixel + 1;
        assert(out@ =~= Seq::new((pixel * 4) as nat, |k: int| lattice_byte(k / 4, k % 4)));
    }
    assert(out@ =~= lattice());
    out
}

/// Whether a conversion moves nothing that anyone could see, given whether it ran over the
/// lattice and what it made of it.
pub fn transform_is_negligible(ran: bool, probe: &Vec<u8>) -> (yes: bool)
    requires
        probe.len() == PROBE_BYTES,
    ensures
        yes == (ran && is_negligible(probe@)),
{
    if !ran {
        return false;
    }
    let reference: Vec<u8> = probe_lattice();
    let mut i: usize = 0;
    while i < probe.len()
        invariant
            i <= probe.len(),
            probe.len() == PROBE_BYTES,
            reference@ == lattice(),
            forall|j: int| 0 <= j < i ==> close(lattice()[j], #[trigger] probe@[j]),
        decreases probe.len() - i,
    {
        let a: u8 = reference[i];
        let b: u8 = probe[i];
        let delta: u8 = if a < b {
            b - a
        } else {
            a - b
        };
        if delta > NEGLIGIBLE_DELTA {
            assert(!close(lattice()[i as int], probe@[i as int]));
            return false;
        }
        i = i + 1;
    }
    true
}

/// Whether two profiles are the same bytes.
pub fn profiles_match(a: &[u8], b: &[u8]) -> (same: bool)
    ensures
        same == (a@ == b@),
{
    if a.len() != b.len() {
        return false;
    }
    let mut i: usize = 0;
    while i < a.len()
        invariant
            i <= a.len(),
            a.len() == b.len(),
            forall|j: int| 0 <= j < i ==> a[j] == b[j],
        decreases a.len() - i,
    {
        if a[i] != b[i] {
            assert(a@[i as int] != b@[i as int]);
            return false;
        }
        i = i + 1;
    }
    assert(a@ =~= b@);
    true
}

/// What became of pixels that were to be converted.
#[derive(Debug, Clone, Copy, PartialEq, Eq, Structural)]
pub enum Conversion {
    /// Colour management is off.
    Disabled,
    /// Source and target are the same profile.
    SameProfile,
    /// Source and target differ, and describe the same colours.
    Negligible,
    /// A profile doesn't parse, or the two don't connect, or a curve of the target's can't be
    /// inverted, or the buffer holds no whole pixels.
    Impossible,
    /// The pixels were converted.
    Converted,
}

/// What a conversion made of the lattice.
pub struct Trial {
    /// Whether it ran.
    pub ran: bool,
    /// The lattice afterwards.
    pub probe: Vec<u8>,
}

impl Trial {
    /// Whether the conversion moved nothing that anyone could see.
    pub open spec fn negligible(self) -> bool {
        self.ran && is_negligible(self.probe@)
    }
}

/// Tries a conversion on the lattice.
pub fn try_conversion(source_icc: &[u8], target_icc: &[u8], use_relative_colorimetric: bool) -> (
trial: Trial)
    ensures
        trial.ran == convertible(source_icc@, target_icc@, use_relative_colorimetric),
        trial.ran ==> icc_may_give(
            source_icc@,
            target_icc@,
            use_relative_colorimetric,
            lattice(),
            trial.probe@,
        ),
        trial.probe@.len() == PROBE_BYTES,
        !trial.ran ==> trial.probe@ == lattice(),
        forall|i: int| 0 <= i < PROBE_BYTES && i % 4 == 3 ==> #[trigger] trial.probe@[i] == 255,
{
    let mut probe: Vec<u8> = probe_lattice();
    let ran: bool = can_invert(target_icc) && convert(
        probe.as_mut_slice(),
        source_icc,
        target_icc,
        use_relative_colorimetric,
    );
    Trial { ran, probe }
}

/// Converts RGBA pixels from one profile to another, after a trial of that conversion. They stay
/// as they are when the trial moved nothing visible, and when it can't be done.
pub fn transform_tried(
    rgba: &mut [u8],
    source_icc: &[u8],
    target_icc: &[u8],
    use_relative_colorimetric: bool,
    trial: &Trial,
) -> (outcome: Conversion)
    requires
        trial.probe@.len() == PROBE_BYTES,
    ensures
        final(rgba)@.len() == old(rgba)@.len(),
        outcome == if trial.negligible() {
            Conversion::Negligible
        } else if convertible(source_icc@, target_icc@, use_relative_colorimetric) && old(
            rgba,
        )@.len() % 4 == 0 {
            Conversion::Converted
        } else {
            Conversion::Impossible
        },
        outcome != Conversion::Converted ==> final(rgba)@ == old(rgba)@,
        outcome == Conversion::Converted ==> icc_parses(source_icc@) && icc_parses(target_icc@)
            && icc_may_give(
            source_icc@,
            target_icc@,
            use_relative_colorimetric,
            old(rgba)@,
            final(rgba)@,
        ),
        forall|i: int|
            0 <= i < old(rgba)@.len() && i % 4 == 3 ==> #[trigger] final(rgba)@[i] == old(
                rgba,
            )@[i],
{
    if transform_is_negligible(trial.ran, &trial.probe) {
        return Conversion::Negligible;
    }
    if can_invert(target_icc) && convert(rgba, source_icc, target_icc, use_relative_colorimetric) {
        Conversion::Converted
    } else {
        Conversion::Impossible
    }
}

/// Whether a trial of a conversion may come out negligible, or not.
pub open spec fn may_pass_trial(
    source: Seq<u8>,
    target: Seq<u8>,
    relative: bool,
    negligible: bool,
) -> bool {
    exists|probe: Seq<u8>|
        #[trigger] icc_may_give(source, target, relative, lattice(), probe) && probe.len()
            == PROBE_BYTES && is_negligible(probe) == negligible
}

/// Converts RGBA pixels from one profile to another. They stay as they are when the target is
/// empty, when it's the source, when a trial moved nothing visible, and when the conversion can't
/// be done.
pub fn transform_icc(
    rgba: &mut [u8],
    source_icc: &[u8],
    target_icc: &[u8],
    use_relative_colorimetric: bool,
) -> (outcome: Conversion)
    ensures
        final(rgba)@.len() == old(rgba)@.len(),
        outcome == Conversion::Disabled <==> target_icc@.len() == 0,
        outcome == Conversion::SameProfile <==> target_icc@.len() > 0 && source_icc@
            == target_icc@,
        target_icc@.len() > 0 && source_icc@ != target_icc@ ==> {
            let connects = convertible(source_icc@, target_icc@, use_relative_colorimetric);
            let whole = old(rgba)@.len() % 4 == 0;
            &&& !connects ==> outcome == Conversion::Impossible
            &&& connects && whole ==> outcome == Conversion::Converted || outcome
                == Conversion::Negligible
            &&& connects && !whole ==> outcome == Conversion::Impossible || outcome
                == Conversion::Negligible
        },
        outcome == Conversion::Negligible ==> may_pass_trial(
            source_icc@,
            target_icc@,
            use_relative_colorimetric,
            true,
        ),
        outcome == Conversion::Converted ==> {
            &&& icc_parses(source_icc@) && icc_parses(target_icc@)
            &&& may_pass_trial(source_icc@, target_icc@, use_relative_colorimetric, false)
            &&& icc_may_give(
                source_icc@,
                target_icc@,
                use_relative_colorimetric,
                old(rgba)@,
                final(rgba)@,
            )
        },
        outcome != Conversion::Converted ==> final(rgba)@ == old(rgba)@,
        forall|i: int|
            0 <= i < old(rgba)@.len() && i % 4 == 3 ==> #[trigger] final(rgba)@[i] == old(
                rgba,
            )@[i],
{
    if target_icc.len() == 0 {
        return Conversion::Disabled;
    }
    if profiles_match(source_icc, target_icc) {
        return Conversion::SameProfile;
    }
    let trial: Trial = try_conversion(source_icc, target_icc, use_relative_colorimetric);
    transform_tried(rgba, source_icc, target_icc, use_relative_colorimetric, &trial)
}

// ----- for the log -----

/// A number with thousands separators, as in `24,000,000`.
pub fn format_with_separators(n: usize) -> (text: String)
    ensures
        text@ == grouped(decimal(n as nat)),
{
    with_separators(n as u64)
}

/// The description of a parsed profile, as far as a log line needs it.
#[derive(Debug, Clone, PartialEq, Eq)]
pub enum ProfileText {
    Plain(String),
    Description { unicode: String, ascii: String },
    Localizable(Vec<String>),
    Missing,
}

/// What a log line calls a profile.
pub open spec fn description_text(text: ProfileText) -> Seq<char> {
    match text {
        ProfileText::Plain(s) => s@,
        ProfileText::Description { unicode, ascii } => if unicode@.len() > 0 {
            unicode@
        } else {
            ascii@
        },
        ProfileText::Localizable(v) => if v.len() > 0 {
            v[0]@
        } else {
            "unknown"@
        },
        ProfileText::Missing => "unknown"@,
    }
}

/// What a log line calls a profile: its Unicode name before its ASCII one, the first of several
/// languages, `unknown` without any.
pub fn profile_description(text: &ProfileText) -> (name: String)
    ensures
        name@ == description_text(*text),
{
    match text {
        ProfileText::Plain(s) => s.clone(),
        ProfileText::Description { unicode, ascii } => {
            if crate::text::chars_of(unicode.as_str()).len() > 0 {
                unicode.clone()
            } else {
                ascii.clone()
            }
        },
        ProfileText::Localizable(v) => if v.len() > 0 {
            v[0].clone()
        } else {
            "unknown".to_owned()
        },
        ProfileText::Missing => "unknown".to_owned(),
    }
}

// ----- laws -----

/// The lattice holds the pixel of every combination of its levels, opaque.
pub proof fn the_lattice_holds_every_combination(r: int, g: int, b: int)
    requires
        0 <= r < PROBE_STEPS,
        0 <= g < PROBE_STEPS,
        0 <= b < PROBE_STEPS,
    ensures
        ({
            let at = ((r * 18 + g) * 18 + b) * 4;
            &&& 0 <= at
            &&& at + 4 <= lattice().len()
            &&& lattice()[at] == r * 15
            &&& lattice()[at + 1] == g * 15
            &&& lattice()[at + 2] == b * 15
            &&& lattice()[at + 3] == 255
        }),
{
    let pixel = (r * 18 + g) * 18 + b;
    assert(pixel / 324 == r);
    assert(pixel / 18 == r * 18 + g);
    assert((r * 18 + g) % 18 == g);
    assert(pixel % 18 == b);
}

/// The levels of the lattice reach from black to white.
pub proof fn the_lattice_reaches_black_and_white()
    ensures
        lattice()[0] == 0 && lattice()[1] == 0 && lattice()[2] == 0,
        lattice()[PROBE_BYTES - 4] == 255 && lattice()[PROBE_BYTES - 3] == 255
            && lattice()[PROBE_BYTES - 2] == 255,
{
    the_lattice_holds_every_combination(0, 0, 0);
    the_lattice_holds_every_combination(17, 17, 17);
}

/// A trial is negligible when no byte of all the lattice moved by more than one level, and only
/// then: one byte that moved by two is enough to convert.
pub proof fn one_visible_move_is_enough(ran: bool, probe: &Vec<u8>, answer: bool)
    requires
        probe@.len() == 23_328,
        call_ensures(transform_is_negligible, (ran, probe), answer),
    ensures
        answer ==> ran,
        forall|i: int|
            0 <= i < 23_328 && (lattice()[i] - #[trigger] probe@[i] > 1 || probe@[i] - lattice()[i]
                > 1) ==> !answer,
        ran && (forall|i: int|
            0 <= i < 23_328 ==> -1 <= lattice()[i] - #[trigger] probe@[i] <= 1) ==> answer,
{
}

/// A conversion that leaves the lattice alone is negligible.
pub proof fn leaving_everything_alone_is_negligible()
    ensures
        is_negligible(lattice()),
{
}

/// The same holds of a trial as a whole, and the lattice that it's held against has 5,832 pixels.
pub proof fn trials_are_judged_by_every_byte(trial: Trial)
    requires
        trial.probe@.len() == 23_328,
    ensures
        lattice().len() == 23_328,
        trial.negligible() <==> trial.ran && forall|i: int|
            0 <= i < 23_328 ==> -1 <= lattice()[i] - #[trigger] trial.probe@[i] <= 1,
        is_negligible(trial.probe@) <==> forall|i: int|
            0 <= i < 23_328 ==> -1 <= lattice()[i] - #[trigger] trial.probe@[i] <= 1,
{
}

/// No profile is kept from converting by its curves where none of them has more than 32,769
/// points, and two profiles match only where every byte does.
pub proof fn ordinary_curves_can_be_inverted(icc: &[u8], other: &[u8], yes: bool, same: bool)
    requires
        call_ensures(can_invert, (icc,), yes),
        call_ensures(profiles_match, (icc, other), same),
        icc@.len() >= 132,
        forall|i: int|
            0 <= i < be_u32(icc@, 128) ==> be_u32(
                icc@,
                #[trigger] be_u32(icc@, 132 + 12 * i + 4) + 8,
            ) <= 32_769,
    ensures
        yes,
        same <==> icc@.len() == other@.len() && forall|i: int|
            0 <= i < icc@.len() ==> #[trigger] icc@[i] == other@[i],
{
    assert(same ==> icc@ == other@);
    if icc@.len() == other@.len() && (forall|i: int|
        0 <= i < icc@.len() ==> #[trigger] icc@[i] == other@[i]) {
        assert(icc@ =~= other@);
    }
    let count = be_u32(icc@, 128) as int;
    if tag_entry_at(count) <= icc@.len() {
        assert forall|i: int| 0 <= i < count implies !#[trigger] is_flat_entry(icc@, i) by {
            let offset = be_u32(icc@, 132 + 12 * i + 4) as int;
            assert(tag_entry_at(i) + 4 == 132 + 12 * i + 4);
            assert(be_u32(icc@, offset + 8) <= 32_769);
        }
    }
}

/// A profile is called by its Unicode name before its ASCII one, and by the first of several.
pub proof fn profiles_are_called_by_their_text(text: &ProfileText, name: String)
    requires
        call_ensures(profile_description, (text,), name),
    ensures
        text matches ProfileText::Plain(s) ==> name@ == s@,
        text matches ProfileText::Description { unicode, ascii } ==> name@ == if unicode@.len() > 0 {
            unicode@
        } else {
            ascii@
        },
        text matches ProfileText::Localizable(v) ==> name@ == if v@.len() > 0 {
            v@[0]@
        } else {
            "unknown"@
        },
        text is Missing ==> name@ == "unknown"@,
{
}

/// A count of pixels reads as its number, with a comma at every fourth place from the end.
pub proof fn pixel_counts_read_as_their_number(n: usize, text: String)
    requires
        call_ensures(format_with_separators, (n,), text),
    ensures
        amount(text@) == n,
        forall|k: int|
            0 <= k < text@.len() && k % 4 == 3 ==> #[trigger] text@[text@.len() - 1 - k] == ',',
{
    decimals_spell_their_number(n as nat);
    commas_stand_at_every_fourth_place(decimal(n as nat));
}

/// Whether the four bytes at an offset spell a code point tag: `cicp`.
pub open spec fn spells_cicp(icc: Seq<u8>, at: int) -> bool {
    icc[at] == 99 && icc[at + 1] == 105 && icc[at + 2] == 99 && icc[at + 3] == 112
}

/// Whether a table's entry points at a curve with so many points, all of them inside the profile:
/// `rTRC`, `gTRC`, `bTRC` or `kTRC`, of the type `curv`.
pub open spec fn points_at_curve(icc: Seq<u8>, entry: int, offset: int, count: int) -> bool {
    &&& icc[entry] == 114 || icc[entry] == 103 || icc[entry] == 98 || icc[entry] == 107
    &&& icc[entry + 1] == 84
    &&& icc[entry + 2] == 82
    &&& icc[entry + 3] == 67
    &&& be_u32(icc, entry + 4) == offset
    &&& offset + 12 + 2 * count <= icc.len()
    &&& icc[offset] == 99 && icc[offset + 1] == 117 && icc[offset + 2] == 114 && icc[offset + 3]
        == 118
    &&& be_u32(icc, offset + 8) == count
}

proof fn lemma_spelled(icc: Seq<u8>, at: int, signature: Seq<u8>)
    requires
        0 <= at,
        at + 4 <= icc.len(),
        signature.len() == 4,
    ensures
        signature_at(icc, at, signature) == (icc[at] == signature[0] && icc[at + 1] == signature[1]
            && icc[at + 2] == signature[2] && icc[at + 3] == signature[3]),
{
    let four = icc.subrange(at, at + 4);
    assert(four[0] == icc[at] && four[1] == icc[at + 1] && four[2] == icc[at + 2] && four[3]
        == icc[at + 3]);
    if icc[at] == signature[0] && icc[at + 1] == signature[1] && icc[at + 2] == signature[2]
        && icc[at + 3] == signature[3] {
        assert(four =~= signature);
    }
}

proof fn lemma_no_code_points(icc: Seq<u8>, n: nat)
    requires
        132 + 12 * n <= icc.len(),
        forall|j: int| 0 <= j < n ==> !spells_cicp(icc, 132 + #[trigger] (12 * j)),
    ensures
        last_code_points(icc, n) is None,
    decreases n,
{
    if n > 0 {
        let last = n - 1;
        lemma_no_code_points(icc, last as nat);
        lemma_spelled(icc, tag_entry_at(last), cicp_signature());
        assert(!spells_cicp(icc, 132 + 12 * last));
    }
}

proof fn lemma_last_code_points(icc: Seq<u8>, n: nat, i: int)
    requires
        132 + 12 * n <= icc.len(),
        0 <= i < n,
        spells_cicp(icc, 132 + 12 * i),
        forall|j: int| i < j < n ==> !spells_cicp(icc, 132 + #[trigger] (12 * j)),
    ensures
        last_code_points(icc, n) == Some(i),
    decreases n,
{
    let last = n - 1;
    lemma_spelled(icc, tag_entry_at(last), cicp_signature());
    if i < last {
        assert(!spells_cicp(icc, 132 + 12 * last));
        lemma_last_code_points(icc, last as nat, i);
    }
}

/// A profile without code points can't be converted to where one of its curves begins with 32,770
/// zeros, or ends at full level and isn't there by point 32,769.
pub proof fn flat_curves_cannot_be_inverted(
    icc: &[u8],
    yes: bool,
    i: int,
    offset: int,
    count: int,
    late: int,
)
    requires
        call_ensures(can_invert, (icc,), yes),
        icc@.len() >= 132,
        132 + 12 * be_u32(icc@, 128) <= icc@.len(),
        0 <= i < be_u32(icc@, 128),
        forall|j: int|
            0 <= j < be_u32(icc@, 128) ==> !spells_cicp(icc@, 132 + #[trigger] (12 * j)),
        0 <= offset,
        points_at_curve(icc@, 132 + 12 * i, offset, count),
        ({
            ||| count >= 32_770 && forall|k: int|
                0 <= k < 32_770 ==> be_u16(icc@, offset + 12 + #[trigger] (k * 2)) == 0
            ||| 32_769 <= late < count && be_u16(icc@, offset + 12 + late * 2) != 65_535 && be_u16(
                icc@,
                offset + 12 + (count - 2) * 2,
            ) == 65_535 && be_u16(icc@, offset + 12 + (count - 1) * 2) == 65_535
        }),
    ensures
        !yes,
{
    let n = be_u32(icc@, 128) as int;
    lemma_no_code_points(icc@, n as nat);
    assert(tag_entry_at(i) == 132 + 12 * i);
    assert(tag_entry_at(n) == 132 + 12 * n);
    lemma_spelled(icc@, offset, curv_signature());
    if count >= 32_770 && forall|k: int|
        0 <= k < 32_770 ==> be_u16(icc@, offset + 12 + #[trigger] (k * 2)) == 0 {
        assert forall|k: int| 0 <= k <= LEADING_ZEROS implies #[trigger] curve_point(
            icc@,
            offset,
            k,
        ) == 0 by {
            assert(be_u16(icc@, offset + 12 + (k * 2)) == 0);
        }
    } else {
        assert(curve_point(icc@, offset, late) != 0xffff);
    }
    assert(is_too_flat(icc@, offset, count));
    assert(is_flat_entry(icc@, i));
}

/// The curves of an RGB profile of a display or an input don't count where its last code points
/// name a transfer function: 1, or 4 to 18.
pub proof fn named_transfers_need_no_curves(icc: &[u8], yes: bool, i: int, offset: int, size: int)
    requires
        call_ensures(can_invert, (icc,), yes),
        icc@.len() >= 132,
        132 + 12 * be_u32(icc@, 128) <= icc@.len(),
        0 <= i < be_u32(icc@, 128),
        spells_cicp(icc@, 132 + 12 * i),
        forall|j: int| i < j < be_u32(icc@, 128) ==> !spells_cicp(icc@, 132 + #[trigger] (12 * j)),
        be_u32(icc@, 132 + 12 * i + 4) == offset,
        be_u32(icc@, 132 + 12 * i + 8) == size,
        size >= 12,
        offset + size <= icc@.len(),
        spells_cicp(icc@, offset),
        icc@[offset + 9] == 1 || 4 <= icc@[offset + 9] <= 18,
        icc@[12] == 115 && icc@[13] == 99 && icc@[14] == 110 && icc@[15] == 114 || icc@[12] == 109
            && icc@[13] == 110 && icc@[14] == 116 && icc@[15] == 114,
        icc@[16] == 82 && icc@[17] == 71 && icc@[18] == 66 && icc@[19] == 32,
    ensures
        yes,
{
    let n = be_u32(icc@, 128) as int;
    lemma_last_code_points(icc@, n as nat, i);
    assert(tag_entry_at(i) == 132 + 12 * i);
    lemma_spelled(icc@, offset, cicp_signature());
    lemma_spelled(icc@, 12, seq![0x73u8, 0x63u8, 0x6eu8, 0x72u8]);
    lemma_spelled(icc@, 12, seq![0x6du8, 0x6eu8, 0x74u8, 0x72u8]);
    lemma_spelled(icc@, 16, seq![0x52u8, 0x47u8, 0x42u8, 0x20u8]);
    assert(has_transfer(icc@, n));
}

/// Pixels stay as they are where there's no profile to convert to, where it's the one they're in,
/// and wherever they weren't converted; alpha stays in any case.
pub proof fn pixels_stay_unless_converted(
    rgba: &mut [u8],
    source: &[u8],
    target: &[u8],
    relative: bool,
    outcome: Conversion,
)
    requires
        call_ensures(transform_icc, (rgba, source, target, relative), outcome),
    ensures
        target@.len() == 0 ==> outcome == Conversion::Disabled,
        target@.len() > 0 && source@ == target@ ==> outcome == Conversion::SameProfile,
        target@.len() > 0 && source@ != target@ ==> outcome != Conversion::Disabled && outcome
            != Conversion::SameProfile,
        outcome != Conversion::Converted ==> final(rgba)@ == old(rgba)@,
        final(rgba)@.len() == old(rgba)@.len(),
        forall|p: int|
            0 <= p && 4 * p + 3 < old(rgba)@.len() ==> #[trigger] final(rgba)@[4 * p + 3]
                == old(rgba)@[4 * p + 3],
{
}

/// After a trial that moved a byte of the lattice by two levels or more, whole pixels are
/// converted wherever the trial ran; after one that moved none so far they stay.
pub proof fn visible_trials_convert(
    rgba: &mut [u8],
    source: &[u8],
    target: &[u8],
    relative: bool,
    trial: &Trial,
    outcome: Conversion,
    i: int,
)
    requires
        call_ensures(try_conversion, (source, target, relative), *trial),
        call_ensures(transform_tried, (rgba, source, target, relative, trial), outcome),
        0 <= i < 23_328,
    ensures
        trial.probe@.len() == 23_328,
        trial.ran && (trial.probe@[i] - lattice()[i] >= 2 || lattice()[i] - trial.probe@[i] >= 2)
            && old(rgba)@.len() % 4 == 0 ==> outcome == Conversion::Converted,
        trial.ran && (forall|j: int|
            0 <= j < 23_328 ==> -1 <= lattice()[j] - #[trigger] trial.probe@[j] <= 1) ==> outcome
            == Conversion::Negligible,
        !trial.ran ==> outcome == Conversion::Impossible && trial.probe@ == lattice(),
        outcome != Conversion::Converted ==> final(rgba)@ == old(rgba)@,
{
    if trial.ran && (trial.probe@[i] - lattice()[i] >= 2 || lattice()[i] - trial.probe@[i] >= 2) {
        assert(!close(lattice()[i], trial.probe@[i]));
    }
}

/// The lattice that's tried holds every combination of 18 levels of red, green and blue, 15 apart,
/// each once and opaque, blue changing fastest.
pub proof fn the_lattice_is_what_is_tried(out: Vec<u8>, r: int, g: int, b: int)
    requires
        call_ensures(probe_lattice, (), out),
        0 <= r < 18,
        0 <= g < 18,
        0 <= b < 18,
    ensures
        out@.len() == 4 * 18 * 18 * 18,
        out@[4 * (324 * r + 18 * g + b)] == 15 * r,
        out@[4 * (324 * r + 18 * g + b) + 1] == 15 * g,
        out@[4 * (324 * r + 18 * g + b) + 2] == 15 * b,
        out@[4 * (324 * r + 18 * g + b) + 3] == 255,
{
    the_lattice_holds_every_combination(r, g, b);
}

} // verus!
