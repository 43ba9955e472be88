//! Pixel formats.

use crate::text::decimal::{append_number, digits_of};
use vstd::prelude::*;

verus! {

pub const RGBX4444: u32 = 842094674;

pub const BGRX4444: u32 = 842094658;

pub const RGB565: u32 = 909199186;

pub const BGR565: u32 = 909199170;

pub const XRGB1555: u32 = 892424792;

pub const RGBX5551: u32 = 892426322;

pub const BGRX5551: u32 = 892426306;

pub const XRGB2101010: u32 = 808669784;

pub const XBGR2101010: u32 = 808665688;

pub const XBGR16161616F: u32 = 1211384408;

pub const XBGR8888: u32 = 875709016;

pub const BGRX8888: u32 = 875714626;

pub const XRGB8888: u32 = 875713112;

/// A code of four characters is that of a pixel format of the kernel.
pub uninterp spec fn is_drm_format(code: u32) -> bool;

/// The code is that of a pixel format that can be processed.
pub open spec fn is_processed(code: u32) -> bool {
    ||| code == RGBX4444
    ||| code == BGRX4444
    ||| code == RGB565
    ||| code == BGR565
    ||| code == XRGB1555
    ||| code == RGBX5551
    ||| code == BGRX5551
    ||| code == XRGB2101010
    ||| code == XBGR2101010
    ||| code == XBGR16161616F
    ||| code == XBGR8888
    ||| code == BGRX8888
    ||| code == XRGB8888
}

/// `DrmFourcc::try_from`, which succeeds on the codes of the formats that the kernel has. Which
/// these are is left to the name `is_drm_format`, except that the formats that can be processed
/// are among them.
#[verifier::external_body]
fn is_known_format(code: u32) -> (r: bool)
    ensures
        r == is_drm_format(code),
        is_processed(code) ==> r,
{
    drm_fourcc::DrmFourcc::try_from(code).is_ok()
}

/// The byte at a place of a code, the lowest one first.
pub open spec fn code_byte(code: u32, place: int) -> int {
    if place == 0 {
        code as int % 256
    } else if place == 1 {
        code as int / 256 % 256
    } else if place == 2 {
        code as int / 65536 % 256
    } else {
        code as int / 16777216
    }
}

/// A byte is that of a letter or of a digit.
pub open spec fn is_alphanumeric(byte: int) -> bool {
    '0' <= byte <= '9' || 'A' <= byte <= 'Z' || 'a' <= byte <= 'z'
}

/// A byte is not the first one of a character.
pub open spec fn is_continuation(byte: int) -> bool {
    0x80 <= byte <= 0xbf
}

/// The four bytes of a code are one character in UTF-8.
pub open spec fn is_one_character(code: u32) -> bool {
    let first = code_byte(code, 0);
    let second = code_byte(code, 1);
    &&& 0xf0 <= first <= 0xf4
    &&& is_continuation(second)
    &&& first == 0xf0 ==> second >= 0x90
    &&& first == 0xf4 ==> second <= 0x8f
    &&& is_continuation(code_byte(code, 2))
    &&& is_continuation(code_byte(code, 3))
}

/// A byte as a character; a space stands for nothing.
pub open spec fn spaced(byte: int) -> char {
    if byte == 0 {
        ' '
    } else {
        byte as char
    }
}

/// The name that a code is: two letters or digits, and then two characters of one byte or one of
/// two bytes.
pub open spec fn code_name(code: u32) -> Option<Seq<char>> {
    let first = code_byte(code, 0);
    let second = code_byte(code, 1);
    let third = code_byte(code, 2);
    let fourth = code_byte(code, 3);
    if !is_alphanumeric(first) || !is_alphanumeric(second) {
        None
    } else if third < 0x80 && fourth < 0x80 {
        Some(seq![first as char, second as char, spaced(third), spaced(fourth)])
    } else if 0xc2 <= third <= 0xdf && is_continuation(fourth) {
        Some(
            seq![
                first as char,
                second as char,
                ((third - 0xc0) * 64 + (fourth - 0x80)) as char,
            ],
        )
    } else {
        None
    }
}

/// What is said of a code that is that of no pixel format.
pub open spec fn unrecognized_text(code: u32) -> Seq<char> {
    match code_name(code) {
        Some(name) => "UnrecognizedFourcc("@ + name + ", "@ + digits_of(code as nat) + ")"@,
        None => "UnrecognizedFourcc("@ + digits_of(code as nat) + ")"@,
    }
}

/// `<drm_fourcc::UnrecognizedFourcc as Display>::fmt`, which tells a code by its number, and before
/// it by its name where it has one. A code whose bytes are one character is left out: the crate
/// looks for a second character then, and panics.
#[verifier::external_body]
fn tell_unrecognized(code: u32) -> (r: String)
    requires
        !is_one_character(code),
    ensures
        r@ == unrecognized_text(code),
{
    drm_fourcc::UnrecognizedFourcc(code).to_string()
}

/// A pixel format as the graphics driver has it.
#[derive(Clone, Copy, Debug, PartialEq, Eq, Structural)]
pub enum Format {
    R4G4B4A4UnormPack16,
    B4G4R4A4UnormPack16,
    R5G6B5UnormPack16,
    B5G6R5UnormPack16,
    A1R5G5B5UnormPack16,
    R5G5B5A1UnormPack16,
    B5G5R5A1UnormPack16,
    A2R10G10B10UnormPack32,
    A2B10G10R10UnormPack32,
    R16G16B16A16Sfloat,
    R8G8B8A8Unorm,
    B8G8R8A8Unorm,
}

/// Why a frame with a pixel format cannot be processed.
#[derive(Clone, Copy, Debug, PartialEq, Eq, Structural)]
pub enum FormatError {
    /// The kernel has no such format.
    Unrecognized(u32),
    /// The format cannot be processed.
    Unsupported(u32),
}

/// What is said of a pixel format that cannot be processed.
pub open spec fn format_message(error: FormatError) -> Seq<char> {
    match error {
        FormatError::Unrecognized(code) => unrecognized_text(code),
        FormatError::Unsupported(code) => "Unsupported DRM format: "@ + digits_of(code as nat)
            + ". Please report on GitHub."@,
    }
}

/// A byte of a code.
fn byte_of(code: u32, place: u8) -> (r: u32)
    requires
        place < 4,
    ensures
        r == code_byte(code, place as int),
        r < 256,
{
    match place {
        0 => code % 256,
        1 => code / 256 % 256,
        2 => code / 65536 % 256,
        _ => code / 16777216,
    }
}

impl FormatError {
    /// There is something to say of the pixel format.
    pub open spec fn is_told(self) -> bool {
        self matches FormatError::Unrecognized(code) ==> !is_one_character(code)
    }

    /// Whether there is something to say of the pixel format.
    pub fn can_tell(&self) -> (r: bool)
        ensures
            r == self.is_told(),
            self is Unsupported ==> r,
            self matches FormatError::Unrecognized(code) ==> r == !is_one_character(*code),
    {
        match self {
            FormatError::Unrecognized(code) => {
                let first = byte_of(*code, 0);
                let second = byte_of(*code, 1);
                let third = byte_of(*code, 2);
                let fourth = byte_of(*code, 3);
                !(0xf0 <= first && first <= 0xf4 && 0x80 <= second && second <= 0xbf && (first
                    != 0xf0 || second >= 0x90) && (first != 0xf4 || second <= 0x8f) && 0x80 <= third
                    && third <= 0xbf && 0x80 <= fourth && fourth <= 0xbf)
            },
            FormatError::Unsupported(_) => true,
        }
    }

    /// What is said of a pixel format that cannot be processed.
    pub fn message(&self) -> (r: String)
        requires
            self.is_told(),
        ensures
            r@ == format_message(*self),
            self matches FormatError::Unsupported(code) ==> r@ == "Unsupported DRM format: "@
                + digits_of(*code as nat) + ". Please report on GitHub."@,
            self matches FormatError::Unrecognized(code) ==> r@ == unrecognized_text(*code),
    {
        match self {
            FormatError::Unrecognized(code) => tell_unrecognized(*code),
            FormatError::Unsupported(code) => {
                let mut r = "Unsupported DRM format: ".to_string();
                append_number(&mut r, *code as u64);
                r.append(". Please report on GitHub.");
                r
            },
        }
    }
}

/// What a pixel format is for the graphics driver.
pub open spec fn format_of(code: u32) -> Option<Format> {
    if code == RGBX4444 {
        Some(Format::R4G4B4A4UnormPack16)
    } else if code == BGRX4444 {
        Some(Format::B4G4R4A4UnormPack16)
    } else if code == RGB565 {
        Some(Format::R5G6B5UnormPack16)
    } else if code == BGR565 {
        Some(Format::B5G6R5UnormPack16)
    } else if code == XRGB1555 {
        Some(Format::A1R5G5B5UnormPack16)
    } else if code == RGBX5551 {
        Some(Format::R5G5B5A1UnormPack16)
    } else if code == BGRX5551 {
        Some(Format::B5G5R5A1UnormPack16)
    } else if code == XRGB2101010 {
        Some(Format::A2R10G10B10UnormPack32)
    } else if code == XBGR2101010 {
        Some(Format::A2B10G10R10UnormPack32)
    } else if code == XBGR16161616F {
        Some(Format::R16G16B16A16Sfloat)
    } else if code == XBGR8888 {
        Some(Format::R8G8B8A8Unorm)
    } else if code == BGRX8888 {
        Some(Format::B8G8R8A8Unorm)
    } else if code == XRGB8888 {
        Some(Format::B8G8R8A8Unorm)
    } else {
        None
    }
}

/// What a pixel format is for the graphics driver, by whether the kernel has it.
pub fn match_format(code: u32, known: bool) -> (r: Result<Format, FormatError>)
    ensures
        r == match format_of(code) {
            Some(format) => if known {
                Ok(format)
            } else {
                Err(FormatError::Unrecognized(code))
            },
            None => if known {
                Err(FormatError::Unsupported(code))
            } else {
                Err(FormatError::Unrecognized(code))
            },
        },
{
    if !known {
        return Err(FormatError::Unrecognized(code));
    }
    if code == RGBX4444 {
        Ok(Format::R4G4B4A4UnormPack16)
    } else if code == BGRX4444 {
        Ok(Format::B4G4R4A4UnormPack16)
    } else if code == RGB565 {
        Ok(Format::R5G6B5UnormPack16)
    } else if code == BGR565 {
        Ok(Format::B5G6R5UnormPack16)
    } else if code == XRGB1555 {
        Ok(Format::A1R5G5B5UnormPack16)
    } else if code == RGBX5551 {
        Ok(Format::R5G5B5A1UnormPack16)
    } else if code == BGRX5551 {
        Ok(Format::B5G5R5A1UnormPack16)
    } else if code == XRGB2101010 {
        Ok(Format::A2R10G10B10UnormPack32)
    } else if code == XBGR2101010 {
        Ok(Format::A2B10G10R10UnormPack32)
    } else if code == XBGR16161616F {
        Ok(Format::R16G16B16A16Sfloat)
    } else if code == XBGR8888 {
        Ok(Format::R8G8B8A8Unorm)
    } else if code == BGRX8888 {
        Ok(Format::B8G8R8A8Unorm)
    } else if code == XRGB8888 {
        Ok(Format::B8G8R8A8Unorm)
    } else {
        Err(FormatError::Unsupported(code))
    }
}

/// The outcome of looking a pixel format up.
pub open spec fn mapped_format(code: u32) -> Result<Format, FormatError> {
    match format_of(code) {
        Some(format) => Ok(format),
        None => if is_drm_format(code) {
            Err(FormatError::Unsupported(code))
        } else {
            Err(FormatError::Unrecognized(code))
        },
    }
}

/// What a pixel format is for the graphics driver.
pub fn map_drm_format(code: u32) -> (r: Result<Format, FormatError>)
    ensures
        r == mapped_format(code),
{
    match_format(code, is_known_format(code))
}

/// Each format of the driver is that of one code, except the last, which two codes have; no other code
/// has a format.
pub proof fn codes_have_their_formats(code: u32)
    ensures
        format_of(code) == Some(Format::R4G4B4A4UnormPack16) <==> code == 842094674,
        format_of(code) == Some(Format::B4G4R4A4UnormPack16) <==> code == 842094658,
        format_of(code) == Some(Format::R5G6B5UnormPack16) <==> code == 909199186,
        format_of(code) == Some(Format::B5G6R5UnormPack16) <==> code == 909199170,
        format_of(code) == Some(Format::A1R5G5B5UnormPack16) <==> code == 892424792,
        format_of(code) == Some(Format::R5G5B5A1UnormPack16) <==> code == 892426322,
        format_of(code) == Some(Format::B5G5R5A1UnormPack16) <==> code == 892426306,
        format_of(code) == Some(Format::A2R10G10B10UnormPack32) <==> code == 808669784,
        format_of(code) == Some(Format::A2B10G10R10UnormPack32) <==> code == 808665688,
        format_of(code) == Some(Format::R16G16B16A16Sfloat) <==> code == 1211384408,
        format_of(code) == Some(Format::R8G8B8A8Unorm) <==> code == 875709016,
        format_of(code) == Some(Format::B8G8R8A8Unorm) <==> code == 875714626 || code == 875713112,
{
}

/// A format that is found is that of the code; what is not found is told by its code.
pub proof fn code_is_mapped_or_told(code: u32)
    ensures
        mapped_format(code) matches Ok(format) ==> format_of(code) == Some(format),
        mapped_format(code) is Ok <==> format_of(code) is Some,
        mapped_format(code) matches Err(error) ==> error == if is_drm_format(code) {
            FormatError::Unsupported(code)
        } else {
            FormatError::Unrecognized(code)
        },
{
}

/// The bytes of a code are one character exactly when they are the four bytes that UTF-8 has for one:
/// those of the characters from `0x10000` on have four.
pub proof fn one_character_takes_four_bytes(code: u32, n: int)
    requires
        n == (code_byte(code, 0) - 0xf0) * 262144 + (code_byte(code, 1) - 0x80) * 4096 + (code_byte(
            code,
            2,
        ) - 0x80) * 64 + (code_byte(code, 3) - 0x80),
    ensures
        is_one_character(code) <==> 0x10000 <= n <= 0x10ffff && code_byte(code, 0) >= 0xf0 && 0x80
            <= code_byte(code, 1) < 0xc0 && 0x80 <= code_byte(code, 2) < 0xc0 && 0x80 <= code_byte(
            code,
            3,
        ) < 0xc0,
{
}

} // verus!
