//! What a `CAMetalLayer` is told about the pixels that are rendered into it.
//!
//! Whether the layer wants extended dynamic range, its pixel format and its colour space have to
//! agree with each other and with the surface. They're decided here together.

use vstd::prelude::*;

verus! {

/// `MTLPixelFormatRGBA16Float` from Metal's `MTLPixelFormat` enum.
pub const MTL_PIXEL_FORMAT_RGBA16_FLOAT: u64 = 115;

/// `MTLPixelFormatBGRA8Unorm_sRGB`: the SDR default.
pub const MTL_PIXEL_FORMAT_BGRA8_UNORM_SRGB: u64 = 81;

/// Which layer of a view's is the Metal layer.
#[derive(Debug, Clone, Copy, PartialEq, Eq, Structural)]
pub enum MetalLayer {
    /// The view's own.
    Own,
    /// This one of its sublayers.
    Sublayer(usize),
    /// None of them.
    Missing,
}

/// Finds the Metal layer, which is the one that takes a colour space. `own` says whether the
/// view's layer does, and `sublayers` whether each of its sublayers does, where it has any.
pub fn find_metal_layer(own: bool, sublayers: Option<&[bool]>) -> (layer: MetalLayer)
    ensures
        own <==> layer == MetalLayer::Own,
        layer matches MetalLayer::Sublayer(i) ==> {
            &&& sublayers is Some
            &&& i < sublayers->0@.len()
            &&& sublayers->0@[i as int]
            &&& forall|j: int| 0 <= j < i ==> !#[trigger] sublayers->0@[j]
        },
        layer == MetalLayer::Missing ==> !own && (sublayers is Some ==> forall|j: int|
            0 <= j < sublayers->0@.len() ==> !#[trigger] sublayers->0@[j]),
{
    if own {
        return MetalLayer::Own;
    }
    match sublayers {
        Some(sublayers) => first_that_takes(sublayers),
        None => MetalLayer::Missing,
    }
}

/// The first sublayer that takes a colour space.
fn first_that_takes(sublayers: &[bool]) -> (layer: MetalLayer)
    ensures
        layer != MetalLayer::Own,
        layer matches MetalLayer::Sublayer(i) ==> {
            &&& i < sublayers@.len()
            &&& sublayers@[i as int]
            &&& forall|j: int| 0 <= j < i ==> !#[trigger] sublayers@[j]
        },
        layer == MetalLayer::Missing ==> forall|j: int|
            0 <= j < sublayers@.len() ==> !#[trigger] sublayers@[j],
{
    for i in 0..sublayers.len()
        invariant
            forall|j: int| 0 <= j < i ==> !#[trigger] sublayers@[j],
    {
        if sublayers[i] {
            return MetalLayer::Sublayer(i);
        }
    }
    MetalLayer::Missing
}

/// What colour space a layer gets.
#[derive(Debug, Clone, Copy, PartialEq, Eq, Structural)]
pub enum LayerColorSpace {
    /// Linear Display P3 with values above 1, which is what the HDR path renders.
    ExtendedLinearDisplayP3,
    /// The display's own ICC profile, which SDR pixels have been transformed into.
    DisplayIcc,
    /// Whatever it has.
    Unchanged,
}

/// What a layer is told.
#[derive(Debug, Clone, Copy, PartialEq, Eq, Structural)]
pub struct LayerState {
    /// Whether it wants extended dynamic range content.
    pub extended_range: bool,
    /// Its pixel format.
    pub pixel_format: u64,
    /// Its colour space.
    pub color_space: LayerColorSpace,
}

/// The colour space for a mode. Without a profile to restore, SDR leaves it alone.
pub open spec fn color_space_for(edr_active: bool, icc_for_sdr: Seq<u8>) -> LayerColorSpace {
    if edr_active {
        LayerColorSpace::ExtendedLinearDisplayP3
    } else if icc_for_sdr.len() > 0 {
        LayerColorSpace::DisplayIcc
    } else {
        LayerColorSpace::Unchanged
    }
}

/// The colour space that a layer gets.
pub fn layer_color_space(edr_active: bool, icc_for_sdr: &[u8]) -> (space: LayerColorSpace)
    ensures
        space == color_space_for(edr_active, icc_for_sdr@),
{
    if edr_active {
        LayerColorSpace::ExtendedLinearDisplayP3
    } else if icc_for_sdr.len() > 0 {
        LayerColorSpace::DisplayIcc
    } else {
        LayerColorSpace::Unchanged
    }
}

/// What a layer is told when EDR goes on or off. `icc_for_sdr` is only consulted when it goes
/// off, and is empty where there's nothing to restore.
pub fn edr_state(edr_active: bool, icc_for_sdr: &[u8]) -> (state: LayerState)
    ensures
        state.extended_range == edr_active,
        state.pixel_format == if edr_active {
            MTL_PIXEL_FORMAT_RGBA16_FLOAT
        } else {
            MTL_PIXEL_FORMAT_BGRA8_UNORM_SRGB
        },
        state.color_space == color_space_for(edr_active, icc_for_sdr@),
{
    LayerState {
        extended_range: edr_active,
        pixel_format: if edr_active {
            MTL_PIXEL_FORMAT_RGBA16_FLOAT
        } else {
            MTL_PIXEL_FORMAT_BGRA8_UNORM_SRGB
        },
        color_space: layer_color_space(edr_active, icc_for_sdr),
    }
}

// ----- laws -----

/// With extended range the layer takes 16-bit floats in linear Display P3. Without it, 8-bit sRGB
/// in the display's own profile, or in what it has where there's no profile.
pub proof fn layers_agree_with_themselves(edr: bool, icc: &[u8], state: LayerState)
    requires
        call_ensures(edr_state, (edr, icc), state),
    ensures
        state.extended_range <==> edr,
        edr ==> state.pixel_format == 115 && state.color_space
            == LayerColorSpace::ExtendedLinearDisplayP3,
        !edr ==> state.pixel_format == 81,
        !edr && icc@.len() > 0 ==> state.color_space == LayerColorSpace::DisplayIcc,
        !edr && icc@.len() == 0 ==> state.color_space == LayerColorSpace::Unchanged,
{
}

/// A layer has the colour space that it's told when extended range goes on or off.
pub proof fn the_colour_space_is_the_same_either_way(
    edr: bool,
    icc: &[u8],
    state: LayerState,
    space: LayerColorSpace,
)
    requires
        call_ensures(edr_state, (edr, icc), state),
        call_ensures(layer_color_space, (edr, icc), space),
    ensures
        space == state.color_space,
{
}

/// The Metal layer is the view's own, else the first sublayer that takes a colour space.
pub proof fn the_first_layer_that_takes_one(
    own: bool,
    sublayers: &[bool],
    layer: MetalLayer,
    alone: MetalLayer,
    i: usize,
)
    requires
        call_ensures(find_metal_layer, (own, Some(sublayers)), layer),
        call_ensures(find_metal_layer, (own, None::<&[bool]>), alone),
    ensures
        own ==> layer is Own && alone is Own,
        !own ==> alone is Missing,
        !own && i < sublayers@.len() && sublayers@[i as int] && (forall|j: int|
            0 <= j < i ==> !#[trigger] sublayers@[j]) ==> layer == MetalLayer::Sublayer(i),
        !own && (forall|j: int| 0 <= j < sublayers@.len() ==> !#[trigger] sublayers@[j])
            ==> layer is Missing,
{
    let given = Some(sublayers);
    assert(given->0@ == sublayers@);
    if !own && i < sublayers@.len() && sublayers@[i as int] && (forall|j: int|
        0 <= j < i ==> !#[trigger] sublayers@[j]) {
        assert(given->0@[i as int]);
        match layer {
            MetalLayer::Sublayer(k) => {
                assert(given->0@[k as int]);
                if k < i {
                    assert(!sublayers@[k as int]);
                }
            },
            MetalLayer::Missing => {},
            MetalLayer::Own => {},
        }
    }
}

} // verus!
