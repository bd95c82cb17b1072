//! The Gruvbox color palette.

use vstd::prelude::*;

use crate::style::CellColor;

verus! {

/// Provides access to the Gruvbox color palette.  Every entry is a fixed
/// 24-bit RGB triple.
#[derive(Debug, Clone, Copy)]
pub struct Gruvbox;

impl Gruvbox {
    /// The palette entry `dark0_hard`.
    pub fn dark0_hard() -> (c: CellColor)
        ensures
            c == CellColor::Rgb(0x1d, 0x20, 0x21),
    {
        CellColor::Rgb(0x1d, 0x20, 0x21)
    }

    /// The palette entry `dark0`.
    pub fn dark0() -> (c: CellColor)
        ensures
            c == CellColor::Rgb(0x28, 0x28, 0x28),
    {
        CellColor::Rgb(0x28, 0x28, 0x28)
    }

    /// The palette entry `dark0_soft`.
    pub fn dark0_soft() -> (c: CellColor)
        ensures
            c == CellColor::Rgb(0x32, 0x30, 0x2f),
    {
        CellColor::Rgb(0x32, 0x30, 0x2f)
    }

    /// The palette entry `dark1`.
    pub fn dark1() -> (c: CellColor)
        ensures
            c == CellColor::Rgb(0x3c, 0x38, 0x36),
    {
        CellColor::Rgb(0x3c, 0x38, 0x36)
    }

    /// The palette entry `dark2`.
    pub fn dark2() -> (c: CellColor)
        ensures
            c == CellColor::Rgb(0x50, 0x49, 0x45),
    {
        CellColor::Rgb(0x50, 0x49, 0x45)
    }

    /// The palette entry `dark3`.
    pub fn dark3() -> (c: CellColor)
        ensures
            c == CellColor::Rgb(0x66, 0x5c, 0x54),
    {
        CellColor::Rgb(0x66, 0x5c, 0x54)
    }

    /// The palette entry `dark4`.
    pub fn dark4() -> (c: CellColor)
        ensures
            c == CellColor::Rgb(0x7c, 0x6f, 0x64),
    {
        CellColor::Rgb(0x7c, 0x6f, 0x64)
    }

    /// The palette entry `gray245`.
    pub fn gray245() -> (c: CellColor)
        ensures
            c == CellColor::Rgb(0x92, 0x83, 0x74),
    {
        CellColor::Rgb(0x92, 0x83, 0x74)
    }

    /// The palette entry `gray244`.
    pub fn gray244() -> (c: CellColor)
        ensures
            c == CellColor::Rgb(0x92, 0x83, 0x74),
    {
        CellColor::Rgb(0x92, 0x83, 0x74)
    }

    /// The palette entry `light0_hard`.
    pub fn light0_hard() -> (c: CellColor)
        ensures
            c == CellColor::Rgb(0xf9, 0xf5, 0xd7),
    {
        CellColor::Rgb(0xf9, 0xf5, 0xd7)
    }

    /// The palette entry `light0`.
    pub fn light0() -> (c: CellColor)
        ensures
            c == CellColor::Rgb(0xfb, 0xf1, 0xc7),
    {
        CellColor::Rgb(0xfb, 0xf1, 0xc7)
    }

    /// The palette entry `light0_soft`.
    pub fn light0_soft() -> (c: CellColor)
        ensures
            c == CellColor::Rgb(0xf2, 0xe5, 0xbc),
    {
        CellColor::Rgb(0xf2, 0xe5, 0xbc)
    }

    /// The palette entry `light1`.
    pub fn light1() -> (c: CellColor)
        ensures
            c == CellColor::Rgb(0xeb, 0xdb, 0xb2),
    {
        CellColor::Rgb(0xeb, 0xdb, 0xb2)
    }

    /// The palette entry `light2`.
    pub fn light2() -> (c: CellColor)
        ensures
            c == CellColor::Rgb(0xd5, 0xc4, 0xa1),
    {
        CellColor::Rgb(0xd5, 0xc4, 0xa1)
    }

    /// The palette entry `light3`.
    pub fn light3() -> (c: CellColor)
        ensures
            c == CellColor::Rgb(0xbd, 0xae, 0x93),
    {
        CellColor::Rgb(0xbd, 0xae, 0x93)
    }

    /// The palette entry `light4`.
    pub fn light4() -> (c: CellColor)
        ensures
            c == CellColor::Rgb(0xa8, 0x99, 0x84),
    {
        CellColor::Rgb(0xa8, 0x99, 0x84)
    }

    /// The palette entry `red_bright`.
    pub fn red_bright() -> (c: CellColor)
        ensures
            c == CellColor::Rgb(0xfb, 0x49, 0x34),
    {
        CellColor::Rgb(0xfb, 0x49, 0x34)
    }

    /// The palette entry `green_bright`.
    pub fn green_bright() -> (c: CellColor)
        ensures
            c == CellColor::Rgb(0xb8, 0xbb, 0x26),
    {
        CellColor::Rgb(0xb8, 0xbb, 0x26)
    }

    /// The palette entry `yellow_bright`.
    pub fn yellow_bright() -> (c: CellColor)
        ensures
            c == CellColor::Rgb(0xfa, 0xbd, 0x2f),
    {
        CellColor::Rgb(0xfa, 0xbd, 0x2f)
    }

    /// The palette entry `blue_bright`.
    pub fn blue_bright() -> (c: CellColor)
        ensures
            c == CellColor::Rgb(0x83, 0xa5, 0x98),
    {
        CellColor::Rgb(0x83, 0xa5, 0x98)
    }

    /// The palette entry `purple_bright`.
    pub fn purple_bright() -> (c: CellColor)
        ensures
            c == CellColor::Rgb(0xd3, 0x86, 0x9b),
    {
        CellColor::Rgb(0xd3, 0x86, 0x9b)
    }

    /// The palette entry `aqua_bright`.
    pub fn aqua_bright() -> (c: CellColor)
        ensures
            c == CellColor::Rgb(0x8e, 0xc0, 0x7c),
    {
        CellColor::Rgb(0x8e, 0xc0, 0x7c)
    }

    /// The palette entry `orange_bright`.
    pub fn orange_bright() -> (c: CellColor)
        ensures
            c == CellColor::Rgb(0xfe, 0x80, 0x19),
    {
        CellColor::Rgb(0xfe, 0x80, 0x19)
    }

    /// The palette entry `red`.
    pub fn red() -> (c: CellColor)
        ensures
            c == CellColor::Rgb(0xcc, 0x24, 0x1d),
    {
        CellColor::Rgb(0xcc, 0x24, 0x1d)
    }

    /// The palette entry `green`.
    pub fn green() -> (c: CellColor)
        ensures
            c == CellColor::Rgb(0x98, 0x97, 0x1a),
    {
        CellColor::Rgb(0x98, 0x97, 0x1a)
    }

    /// The palette entry `yellow`.
    pub fn yellow() -> (c: CellColor)
        ensures
            c == CellColor::Rgb(0xd7, 0x99, 0x21),
    {
        CellColor::Rgb(0xd7, 0x99, 0x21)
    }

    /// The palette entry `blue`.
    pub fn blue() -> (c: CellColor)
        ensures
            c == CellColor::Rgb(0x45, 0x85, 0x88),
    {
        CellColor::Rgb(0x45, 0x85, 0x88)
    }

    /// The palette entry `purple`.
    pub fn purple() -> (c: CellColor)
        ensures
            c == CellColor::Rgb(0xb1, 0x62, 0x86),
    {
        CellColor::Rgb(0xb1, 0x62, 0x86)
    }

    /// The palette entry `aqua`.
    pub fn aqua() -> (c: CellColor)
        ensures
            c == CellColor::Rgb(0x68, 0x9d, 0x6a),
    {
        CellColor::Rgb(0x68, 0x9d, 0x6a)
    }

    /// The palette entry `orange`.
    pub fn orange() -> (c: CellColor)
        ensures
            c == CellColor::Rgb(0xd6, 0x5d, 0x0e),
    {
        CellColor::Rgb(0xd6, 0x5d, 0x0e)
    }

    /// The palette entry `red_dim`.
    pub fn red_dim() -> (c: CellColor)
        ensures
            c == CellColor::Rgb(0x9d, 0x00, 0x06),
    {
        CellColor::Rgb(0x9d, 0x00, 0x06)
    }

    /// The palette entry `green_dim`.
    pub fn green_dim() -> (c: CellColor)
        ensures
            c == CellColor::Rgb(0x79, 0x74, 0x0e),
    {
        CellColor::Rgb(0x79, 0x74, 0x0e)
    }

    /// The palette entry `yellow_dim`.
    pub fn yellow_dim() -> (c: CellColor)
        ensures
            c == CellColor::Rgb(0xb5, 0x76, 0x14),
    {
        CellColor::Rgb(0xb5, 0x76, 0x14)
    }

    /// The palette entry `blue_dim`.
    pub fn blue_dim() -> (c: CellColor)
        ensures
            c == CellColor::Rgb(0x07, 0x66, 0x78),
    {
        CellColor::Rgb(0x07, 0x66, 0x78)
    }

    /// The palette entry `purple_dim`.
    pub fn purple_dim() -> (c: CellColor)
        ensures
            c == CellColor::Rgb(0x8f, 0x3f, 0x71),
    {
        CellColor::Rgb(0x8f, 0x3f, 0x71)
    }

    /// The palette entry `aqua_dim`.
    pub fn aqua_dim() -> (c: CellColor)
        ensures
            c == CellColor::Rgb(0x42, 0x7b, 0x58),
    {
        CellColor::Rgb(0x42, 0x7b, 0x58)
    }

    /// The palette entry `orange_dim`.
    pub fn orange_dim() -> (c: CellColor)
        ensures
            c == CellColor::Rgb(0xaf, 0x3a, 0x03),
    {
        CellColor::Rgb(0xaf, 0x3a, 0x03)
    }

}

} // verus!