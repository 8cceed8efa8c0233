//! Fixed-width colours with three (RGB) or four (RGBA) channels.
//!
//! Both colour types are generic over the channel type. The byte-channel
//! instances (`Rgb<u8>`, `Rgba<u8>`) are the ones stored in a texture.

use vstd::prelude::*;
use vstd::std_specs::convert::FromSpec;

verus! {

/// A colour of three channels: red, green, blue.
#[derive(Clone, Copy, Debug)]
pub struct Rgb<T>(pub [T; 3]);

/// A colour of four channels: red, green, blue, alpha.
#[derive(Clone, Copy, Debug)]
pub struct Rgba<T>(pub [T; 4]);

impl<T> Rgb<T> {
    /// The channels in order: red, green, blue.
    pub open spec fn view(&self) -> Seq<T> {
        self.0@
    }
}

impl<T> Rgba<T> {
    /// The channels in order: red, green, blue, alpha.
    pub open spec fn view(&self) -> Seq<T> {
        self.0@
    }
}

/// The named byte colours.
impl Rgb<u8> {
    /// Pure red.
    pub fn red() -> (result: Self)
        ensures
            result@ == seq![255u8, 0u8, 0u8],
    {
        Rgb([255, 0, 0])
    }

    /// Pure green.
    pub fn green() -> (result: Self)
        ensures
            result@ == seq![0u8, 255u8, 0u8],
    {
        Rgb([0, 255, 0])
    }

    /// Pure blue.
    pub fn blue() -> (result: Self)
        ensures
            result@ == seq![0u8, 0u8, 255u8],
    {
        Rgb([0, 0, 255])
    }

    /// Yellow: red and green.
    pub fn yellow() -> (result: Self)
        ensures
            result@ == seq![255u8, 255u8, 0u8],
    {
        Rgb([255, 255, 0])
    }

    /// Magenta: red and blue.
    pub fn magenta() -> (result: Self)
        ensures
            result@ == seq![255u8, 0u8, 255u8],
    {
        Rgb([255, 0, 255])
    }

    /// Cyan: green and blue.
    pub fn cyan() -> (result: Self)
        ensures
            result@ == seq![0u8, 255u8, 255u8],
    {
        Rgb([0, 255, 255])
    }

    /// White: every channel full.
    pub fn white() -> (result: Self)
        ensures
            result@ == seq![255u8, 255u8, 255u8],
    {
        Rgb([255, 255, 255])
    }

    /// Black: every channel zero.
    pub fn black() -> (result: Self)
        ensures
            result@ == seq![0u8, 0u8, 0u8],
    {
        Rgb([0, 0, 0])
    }

    /// Mid gray.
    pub fn gray() -> (result: Self)
        ensures
            result@ == seq![127u8, 127u8, 127u8],
    {
        Rgb([127, 127, 127])
    }
}

impl Default for Rgb<u8> {
    /// Black: every channel is zero.
    fn default() -> (result: Self)
        ensures
            result@ == seq![0u8, 0u8, 0u8],
    {
        Rgb([0, 0, 0])
    }
}

impl Default for Rgba<u8> {
    /// Transparent black: every channel, alpha included, is zero.
    fn default() -> (result: Self)
        ensures
            result@ == seq![0u8, 0u8, 0u8, 0u8],
    {
        Rgba([0, 0, 0, 0])
    }
}

impl<T: Copy> From<&Rgba<T>> for Rgb<T> {
    /// Drops the alpha channel of an RGBA colour.
    fn from(value: &Rgba<T>) -> (result: Self)
        ensures
            result@ == value@.subrange(0, 3),
    {
        Rgb([value.0[0], value.0[1], value.0[2]])
    }
}

impl<T: Copy> vstd::std_specs::convert::FromSpecImpl<&Rgba<T>> for Rgb<T> {
    open spec fn obeys_from_spec() -> bool {
        true
    }

    open spec fn from_spec(value: &Rgba<T>) -> Self {
        Rgb([value.0[0], value.0[1], value.0[2]])
    }
}

impl<T: Copy> Rgba<T> {
    /// Extends an RGB colour by the given alpha channel.
    pub fn from_rgb(value: &Rgb<T>, alpha: T) -> (result: Self)
        ensures
            result@ == value@.push(alpha),
    {
        Rgba([value.0[0], value.0[1], value.0[2], alpha])
    }
}

/// Converting an RGBA colour keeps its first three channels.
pub proof fn lemma_from_rgba<T: Copy>(value: &Rgba<T>)
    ensures
        Rgb::<T>::from_spec(value)@ == value@.subrange(0, 3),
{
    assert(Rgb::<T>::from_spec(value)@ =~= value@.subrange(0, 3));
}

/// Dropping the alpha channel undoes adding one, whatever the alpha was.
pub proof fn lemma_rgb_round_trip<T: Copy>(rgb: Rgb<T>, alpha: T, rgba: Rgba<T>)
    requires
        rgba@ == rgb@.push(alpha),
    ensures
        Rgb::<T>::from_spec(&rgba)@ == rgb@,
{
    lemma_from_rgba(&rgba);
    assert(rgb@.len() == 3);
    assert(rgba@.subrange(0, 3) =~= rgb@);
}

} // verus!
