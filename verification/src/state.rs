//! The configuration snapshot that a render pass reads.
//!
//! Real-valued parameters (zoom, center, exponent, color transform) are
//! carried as IEEE-754 bit patterns: the engine's verified logic never
//! computes on them, it only snapshots them and hands them to the
//! caller's numeric kernel unchanged.

use vstd::prelude::*;

verus! {

/// Selects which of the five escape-time formulas drives the iteration.
#[derive(Clone, Copy, PartialEq, Eq, Structural, Debug)]
pub enum FractalType {
    Classic,
    Spiral,
    Flower,
    Phoenix,
    Butterfly,
}

/// The engine's only failure signal: a snapshot whose dimensions cannot
/// describe an image (a zero width or height).
#[derive(Clone, Copy, PartialEq, Eq, Structural, Debug)]
pub enum RenderError {
    InvalidConfiguration,
}

/// Bit pattern of the binary64 value one.
pub const BITS64_ONE: u64 = 0x3FF0000000000000;
/// Bit pattern of the binary64 value minus one half.
pub const BITS64_MINUS_HALF: u64 = 0xBFE0000000000000;
/// Bit pattern of the binary64 value zero.
pub const BITS64_ZERO: u64 = 0x0000000000000000;
/// Bit pattern of the binary64 value two.
pub const BITS64_TWO: u64 = 0x4000000000000000;
/// Bit pattern of the binary64 value one half.
pub const BITS64_HALF: u64 = 0x3FE0000000000000;
/// Bit pattern of the binary32 value zero.
pub const BITS32_ZERO: u32 = 0x00000000;
/// Bit pattern of the binary32 value one.
pub const BITS32_ONE: u32 = 0x3F800000;

/// Immutable-per-render configuration snapshot. Mutated only between
/// render calls; a render pass reads one consistent copy throughout.
#[derive(Clone, Copy, PartialEq, Eq, Structural, Debug)]
pub struct ViewportState {
    /// Which iteration formula to run.
    pub fractal_type: FractalType,
    /// Magnification, binary64 bits; the callers keep it positive.
    pub zoom_bits: u64,
    /// Real coordinate of the viewport center, binary64 bits.
    pub center_x_bits: u64,
    /// Imaginary coordinate of the viewport center, binary64 bits.
    pub center_y_bits: u64,
    /// Upper bound on iterations per pixel.
    pub max_iter: u32,
    /// Hue rotation in degrees, binary32 bits.
    pub hue_offset_bits: u32,
    /// HSV saturation, binary32 bits.
    pub saturation_bits: u32,
    /// HSV value, binary32 bits.
    pub value_bits: u32,
    /// Output image width in pixels.
    pub width: u32,
    /// Output image height in pixels.
    pub height: u32,
    /// Exponent applied to the running point, binary64 bits.
    pub power_bits: u64,
    /// Shape parameter of the Spiral, Flower, Phoenix and Butterfly
    /// formulas, binary64 bits.
    pub secondary_param_bits: u64,
}

impl ViewportState {
    /// A snapshot can describe an image only when both dimensions are
    /// at least one pixel.
    pub open spec fn dims_valid(self) -> bool {
        self.width >= 1 && self.height >= 1
    }

    /// The default snapshot: the Classic formula over the classical
    /// viewing window.
    pub open spec fn default_spec() -> ViewportState {
        ViewportState {
            fractal_type: FractalType::Classic,
            zoom_bits: BITS64_ONE,
            center_x_bits: BITS64_MINUS_HALF,
            center_y_bits: BITS64_ZERO,
            max_iter: 1000,
            hue_offset_bits: BITS32_ZERO,
            saturation_bits: BITS32_ONE,
            value_bits: BITS32_ONE,
            width: 800,
            height: 600,
            power_bits: BITS64_TWO,
            secondary_param_bits: BITS64_HALF,
        }
    }

    /// Fail fast on a snapshot that cannot be rendered, instead of
    /// letting a zero dimension reach a division.
    pub fn validate(&self) -> (r: Result<(), RenderError>)
        ensures
            r is Ok <==> self.dims_valid(),
            r is Err ==> r->Err_0 == RenderError::InvalidConfiguration,
    {
        if self.width >= 1 && self.height >= 1 {
            Ok(())
        } else {
            Err(RenderError::InvalidConfiguration)
        }
    }
}

impl Default for ViewportState {
    /// The configuration a fresh session starts from.
    fn default() -> (s: Self)
        ensures
            s == ViewportState::default_spec(),
            s.dims_valid(),
    {
        ViewportState {
            fractal_type: FractalType::Classic,
            zoom_bits: BITS64_ONE,
            center_x_bits: BITS64_MINUS_HALF,
            center_y_bits: BITS64_ZERO,
            max_iter: 1000,
            hue_offset_bits: BITS32_ZERO,
            saturation_bits: BITS32_ONE,
            value_bits: BITS32_ONE,
            width: 800,
            height: 600,
            power_bits: BITS64_TWO,
            secondary_param_bits: BITS64_HALF,
        }
    }
}

} // verus!
