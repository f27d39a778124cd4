//! Cell states and the colours they are shown in.

use vstd::prelude::*;
use rgb::{ComponentBytes, RGB8};

verus! {

/// What a cell of the grid holds. A block is inert: the simulation neither
/// creates nor removes one, and it never counts as a live neighbour.
#[derive(Clone, Copy, Debug, PartialEq, Eq, Structural)]
pub enum CellState {
    Dead,
    Alive,
    Block,
}

/// One pixel of the frame: red, green and blue.
#[derive(Clone, Copy, Debug, PartialEq, Eq, Structural)]
pub struct Rgb {
    pub r: u8,
    pub g: u8,
    pub b: u8,
}

/// Black.
#[verifier::allow_in_spec]
pub fn black() -> Rgb
    returns
        (Rgb { r: 0, g: 0, b: 0 }),
{
    Rgb { r: 0, g: 0, b: 0 }
}

/// Mid gray: the colour of a block cell and of the status labels.
#[verifier::allow_in_spec]
pub fn gray() -> Rgb
    returns
        (Rgb { r: 128, g: 128, b: 128 }),
{
    Rgb { r: 128, g: 128, b: 128 }
}

/// White: the colour of a live cell.
#[verifier::allow_in_spec]
pub fn white() -> Rgb
    returns
        (Rgb { r: 255, g: 255, b: 255 }),
{
    Rgb { r: 255, g: 255, b: 255 }
}

/// Red: the colour of the cursor.
#[verifier::allow_in_spec]
pub fn red() -> Rgb
    returns
        (Rgb { r: 255, g: 0, b: 0 }),
{
    Rgb { r: 255, g: 0, b: 0 }
}

/// Green.
#[verifier::allow_in_spec]
pub fn green() -> Rgb
    returns
        (Rgb { r: 0, g: 255, b: 0 }),
{
    Rgb { r: 0, g: 255, b: 0 }
}

/// Aqua: the colour of the selection marks and of the frame lines.
#[verifier::allow_in_spec]
pub fn aqua() -> Rgb
    returns
        (Rgb { r: 0, g: 255, b: 255 }),
{
    Rgb { r: 0, g: 255, b: 255 }
}

/// Azure: the colour of the swap icon.
#[verifier::allow_in_spec]
pub fn azure() -> Rgb
    returns
        (Rgb { r: 0, g: 128, b: 255 }),
{
    Rgb { r: 0, g: 128, b: 255 }
}

/// The colour a cell in state `state` is shown in.
pub open spec fn color_of(state: CellState) -> Rgb {
    match state {
        CellState::Dead => black(),
        CellState::Alive => white(),
        CellState::Block => gray(),
    }
}

/// The colour a cell in state `state` is shown in.
pub fn cell_color(state: CellState) -> (color: Rgb)
    ensures
        color == color_of(state),
{
    match state {
        CellState::Dead => black(),
        CellState::Alive => white(),
        CellState::Block => gray(),
    }
}

/// The channels of a frame as bytes: three for each pixel, red first, then
/// green, then blue.
pub open spec fn channel_bytes(pixels: Seq<Rgb>) -> Seq<u8> {
    Seq::new(
        3 * pixels.len(),
        |k: int|
            if k % 3 == 0 {
                pixels[k / 3].r
            } else if k % 3 == 1 {
                pixels[k / 3].g
            } else {
                pixels[k / 3].b
            },
    )
}

/// `rgb::ComponentBytes::as_bytes` on a slice of `rgb::RGB8`: the components
/// of the pixels as bytes, pixel by pixel, those of the red component first.
#[verifier::external_body]
pub(crate) fn component_bytes(pixels: &Vec<Rgb>) -> (bytes: Vec<u8>)
    ensures
        bytes@ == channel_bytes(pixels@),
{
    let frame: Vec<RGB8> = pixels.iter().map(|p| RGB8 { r: p.r, g: p.g, b: p.b }).collect();
    frame.as_bytes().to_vec()
}

} // verus!
