//! Images in the memory of a graphics device.

use super::format::{format_message, map_drm_format, mapped_format, Format, FormatError};
use super::modifiers::{common_modifiers, common_of, has_modifier};
use super::object::Object;
use crate::text::decimal::{append_number, digits_of};
use crate::text::hex::{append_hex, hex_of};
use vstd::arithmetic::power2::{lemma2_to64, lemma_pow2_unfold, pow2};
use vstd::prelude::*;

verus! {

/// How many levels before the last one images are reduced to: what is left then is averaged more
/// precisely than a device does it.
pub const FINAL_MIP_LEVEL: u32 = 4;

/// How long a device may take, in nanoseconds.
pub const FENCES_TIMEOUT_NS: u64 = 1_000_000_000;

/// Memory of the device itself.
pub const MEMORY_DEVICE_LOCAL: u32 = 0x1;

/// Memory that the processor sees as it is.
pub const MEMORY_HOST_COHERENT_VISIBLE: u32 = 0x6;

/// How many types of memory a device can have.
pub const MAX_MEMORY_TYPES: usize = 32;

/// The bit of a type of memory is set.
pub open spec fn has_type(bits: u32, i: u32) -> bool {
    (1u32 << i) & bits != 0
}

/// The first type of memory that is allowed, where any is.
pub fn memory_type_index(memory_type_bits: u32) -> (r: Option<u32>)
    ensures
        r is Some <==> memory_type_bits != 0,
        r matches Some(i) ==> i < 32 && has_type(memory_type_bits, i) && forall|j: u32|
            j < i ==> !#[trigger] has_type(memory_type_bits, j),
        r matches Some(i) ==> (1u32 << i) & memory_type_bits != 0,
{
    if memory_type_bits == 0 {
        return None;
    }
    let mut i: u32 = 0;
    while i < 32
        invariant
            i <= 32,
            memory_type_bits != 0,
            forall|j: u32| j < i ==> !#[trigger] has_type(memory_type_bits, j),
        decreases 32 - i,
    {
        if (1u32 << i) & memory_type_bits != 0 {
            return Some(i);
        }
        i = i + 1;
    }
    proof {
        assert(memory_type_bits == 0) by {
            lemma_no_bits(memory_type_bits);
        }
    }
    None
}

/// A number none of whose bits is set is zero.
proof fn lemma_no_bits(bits: u32)
    requires
        forall|j: u32| j < 32 ==> !#[trigger] has_type(bits, j),
    ensures
        bits == 0,
{
    assert(forall|j: u32| j < 32 ==> (#[trigger] (1u32 << j)) & bits == 0) by {
        assert forall|j: u32| j < 32 implies (#[trigger] (1u32 << j)) & bits == 0 by {
            assert(!has_type(bits, j));
        }
    }
    assert((1u32 << 0) & bits == 0 && (1u32 << 1) & bits == 0 && (1u32 << 2) & bits == 0 && (1u32
        << 3) & bits == 0 && (1u32 << 4) & bits == 0 && (1u32 << 5) & bits == 0 && (1u32 << 6)
        & bits == 0 && (1u32 << 7) & bits == 0);
    assert((1u32 << 8) & bits == 0 && (1u32 << 9) & bits == 0 && (1u32 << 10) & bits == 0 && (1u32
        << 11) & bits == 0 && (1u32 << 12) & bits == 0 && (1u32 << 13) & bits == 0 && (1u32 << 14)
        & bits == 0 && (1u32 << 15) & bits == 0);
    assert((1u32 << 16) & bits == 0 && (1u32 << 17) & bits == 0 && (1u32 << 18) & bits == 0 && (
    1u32 << 19) & bits == 0 && (1u32 << 20) & bits == 0 && (1u32 << 21) & bits == 0 && (1u32 << 22)
        & bits == 0 && (1u32 << 23) & bits == 0);
    assert((1u32 << 24) & bits == 0 && (1u32 << 25) & bits == 0 && (1u32 << 26) & bits == 0 && (
    1u32 << 27) & bits == 0 && (1u32 << 28) & bits == 0 && (1u32 << 29) & bits == 0 && (1u32 << 30)
        & bits == 0 && (1u32 << 31) & bits == 0);
    assert(bits == 0) by (bit_vector)
        requires
            (1u32 << 0) & bits == 0 && (1u32 << 1) & bits == 0 && (1u32 << 2) & bits == 0 && (1u32
                << 3) & bits == 0 && (1u32 << 4) & bits == 0 && (1u32 << 5) & bits == 0 && (1u32
                << 6) & bits == 0 && (1u32 << 7) & bits == 0,
            (1u32 << 8) & bits == 0 && (1u32 << 9) & bits == 0 && (1u32 << 10) & bits == 0 && (1u32
                << 11) & bits == 0 && (1u32 << 12) & bits == 0 && (1u32 << 13) & bits == 0 && (1u32
                << 14) & bits == 0 && (1u32 << 15) & bits == 0,
            (1u32 << 16) & bits == 0 && (1u32 << 17) & bits == 0 && (1u32 << 18) & bits == 0 && (
            1u32 << 19) & bits == 0 && (1u32 << 20) & bits == 0 && (1u32 << 21) & bits == 0 && (1u32
                << 22) & bits == 0 && (1u32 << 23) & bits == 0,
            (1u32 << 24) & bits == 0 && (1u32 << 25) & bits == 0 && (1u32 << 26) & bits == 0 && (
            1u32 << 27) & bits == 0 && (1u32 << 28) & bits == 0 && (1u32 << 29) & bits == 0 && (1u32
                << 30) & bits == 0 && (1u32 << 31) & bits == 0,
    ;
}

/// The first type of memory, from the place `from` on, that is allowed and has the wanted
/// properties.
pub open spec fn type_with(bits: u32, types: Seq<u32>, flags: u32, from: int) -> Option<int>
    decreases types.len() - from,
{
    if from < 0 || from >= types.len() {
        None
    } else if has_type(bits, from as u32) && types[from] & flags == flags {
        Some(from)
    } else {
        type_with(bits, types, flags, from + 1)
    }
}

/// The first type of memory that is allowed and has the wanted properties.
pub fn find_memory_type_index(memory_type_bits: u32, types: &Vec<u32>, flags: u32) -> (r: Option<
    u32,
>)
    requires
        types@.len() <= MAX_MEMORY_TYPES,
    ensures
        r is Some <==> type_with(memory_type_bits, types@, flags, 0) is Some,
        r matches Some(i) ==> i < types@.len() && type_with(memory_type_bits, types@, flags, 0)
            == Some(i as int),
{
    let mut i: usize = 0;
    while i < types.len()
        invariant
            i <= types@.len(),
            types@.len() <= MAX_MEMORY_TYPES,
            type_with(memory_type_bits, types@, flags, 0) == type_with(
                memory_type_bits,
                types@,
                flags,
                i as int,
            ),
        decreases types.len() - i,
    {
        let index = i as u32;
        if (1u32 << index) & memory_type_bits != 0 && types[i] & flags == flags {
            return Some(index);
        }
        i = i + 1;
    }
    None
}

/// The type of memory for an image of the device: one of its own where there is one, or any that is
/// allowed.
pub fn image_memory_type(memory_type_bits: u32, types: &Vec<u32>) -> (r: Option<u32>)
    requires
        types@.len() <= MAX_MEMORY_TYPES,
    ensures
        r is None <==> memory_type_bits == 0 && type_with(
            memory_type_bits,
            types@,
            MEMORY_DEVICE_LOCAL,
            0,
        ) is None,
        r matches Some(i) ==> match type_with(memory_type_bits, types@, MEMORY_DEVICE_LOCAL, 0) {
            Some(own) => i == own,
            None => i < 32 && has_type(memory_type_bits, i) && forall|j: u32|
                j < i ==> !#[trigger] has_type(memory_type_bits, j),
        },
{
    match find_memory_type_index(memory_type_bits, types, MEMORY_DEVICE_LOCAL) {
        Some(i) => Some(i),
        None => memory_type_index(memory_type_bits),
    }
}

/// Whether memory is set aside for an image alone.
pub fn is_dedicated(required: bool, preferred: bool) -> (r: bool)
    ensures
        r == (required || preferred),
{
    required || preferred
}

/// Two to the power of `n`.
pub open spec fn power_of_two(n: nat) -> nat
    decreases n,
{
    if n == 0 {
        1
    } else {
        2 * power_of_two((n - 1) as nat)
    }
}

/// The larger of the two sides of an image.
pub open spec fn longer_side(width: u32, height: u32) -> u32 {
    if width < height {
        height
    } else {
        width
    }
}

/// How often a number can be halved before it is one.
pub open spec fn halvings(n: nat) -> nat
    decreases n,
{
    if n <= 1 {
        0
    } else {
        1 + halvings(n / 2)
    }
}

/// How often a number can be halved before it is one: the whole part of its binary logarithm.
fn count_halvings(n: u32) -> (r: u32)
    ensures
        r == halvings(n as nat),
        r < 32,
{
    let mut left = n;
    let mut count: u32 = 0;
    proof {
        assert(power_of_two(0) == 1);
    }
    while left > 1
        invariant
            count + halvings(left as nat) == halvings(n as nat),
            left * power_of_two(count as nat) <= n || count == 0,
            left <= n,
            power_of_two(count as nat) >= 1,
            count < 32,
        decreases left,
    {
        proof {
            let p = power_of_two(count as nat) as int;
            assert(power_of_two((count + 1) as nat) == 2 * p);
            let half = (left / 2) as int;
            let l = left as int;
            if count == 0 {
                assert(p == 1);
            }
            assert(l * p <= n) by {
                if count == 0 {
                    assert(l * p == l) by (nonlinear_arith)
                        requires
                            p == 1,
                    ;
                }
            }
            assert(half * (2 * p) <= l * p) by (nonlinear_arith)
                requires
                    2 * half <= l,
                    p >= 1,
                    half >= 0,
            ;
            assert(half >= 1);
            assert(2 * p <= half * (2 * p)) by (nonlinear_arith)
                requires
                    half >= 1,
                    p >= 1,
            ;
            if count == 31 {
                lemma_power_bound(31);
            }
        }
        left = left / 2;
        count = count + 1;
    }
    count
}

proof fn lemma_power_bound(n: nat)
    requires
        n == 31,
    ensures
        power_of_two(n) == 0x8000_0000,
{
    reveal_with_fuel(power_of_two, 32);
}

/// How many levels the internal image for frames of a size has.
pub open spec fn mip_levels_of(width: u32, height: u32) -> nat {
    halvings(longer_side(width, height) as nat)
}

/// What has to be made for frames of a size.
#[derive(Clone, Copy, Debug, PartialEq, Eq, Structural)]
pub struct ImagePlan {
    pub mip_levels: u32,
    pub buffer_size: u32,
}

/// The internal image that frames are reduced in.
#[derive(Clone, Copy, Debug)]
pub struct Internal {
    /// The size of the image, and how many levels it has.
    pub resolution: Option<(u32, u32, u32)>,
}

/// The image is already made for frames of this size.
pub open spec fn is_made(s: Internal, width: u32, height: u32) -> bool {
    s.resolution matches Some((w, h, _)) && w == width && h == height
}

impl Internal {
    pub fn new() -> (r: Internal)
        ensures
            r.resolution is None,
    {
        Internal { resolution: None }
    }

    /// What has to be made for frames of a size, unless that is made already. The buffer holds the
    /// pixels of the level that the image is reduced to. Frames must not be too small to be reduced.
    pub fn plan(&self, width: u32, height: u32) -> (r: Option<ImagePlan>)
        requires
            is_made(*self, width, height) || mip_levels_of(width, height) >= FINAL_MIP_LEVEL,
        ensures
            r is None <==> is_made(*self, width, height),
            r matches Some(plan) ==> {
                let shift = (plan.mip_levels - FINAL_MIP_LEVEL) as u32;
                &&& plan.mip_levels == mip_levels_of(width, height)
                &&& plan.buffer_size == 4 * (width >> shift) * (height >> shift)
            },
            r is None <==> (self.resolution matches Some((w, h, _)) && w == width && h == height),
            r matches Some(plan) ==> plan.mip_levels >= 4 && plan.buffer_size == 4 * (width >> (
            (plan.mip_levels - 4) as u32)) * (height >> ((plan.mip_levels - 4) as u32)),
    {
        if let Some((w, h, _)) = self.resolution {
            if w == width && h == height {
                return None;
            }
        }
        let side = if width < height {
            height
        } else {
            width
        };
        let mip_levels = count_halvings(side);
        let shift: u32 = mip_levels - FINAL_MIP_LEVEL;
        proof {
            lemma_reduced(side, mip_levels);
            lemma_shift_monotone(width, side, shift);
            lemma_shift_monotone(height, side, shift);
        }
        let a: u32 = width >> shift;
        let b: u32 = height >> shift;
        assert(a < 32 && b < 32);
        assert(0 <= 4 * a * b <= 4 * 31 * 31) by (nonlinear_arith)
            requires
                0 <= a < 32,
                0 <= b < 32,
        ;
        assert(0 <= 4 * a <= 4 * 31);
        Some(ImagePlan { mip_levels, buffer_size: 4 * a * b })
    }

    /// Takes note that what was planned is made.
    pub fn made(&mut self, width: u32, height: u32, plan: ImagePlan)
        ensures
            final(self).resolution == Some((width, height, plan.mip_levels)),
    {
        self.resolution = Some((width, height, plan.mip_levels));
    }
}

proof fn lemma_shift_monotone(a: u32, b: u32, shift: u32)
    requires
        a <= b,
        shift < 32,
    ensures
        a >> shift <= b >> shift,
{
    assert(a >> shift <= b >> shift) by (bit_vector)
        requires
            a <= b,
            shift < 32,
    ;
}

/// A side that is halved so often that only the last few levels are left is short.
proof fn lemma_reduced(side: u32, levels: u32)
    requires
        levels == halvings(side as nat),
        FINAL_MIP_LEVEL <= levels < 32,
    ensures
        side >> ((levels - FINAL_MIP_LEVEL) as u32) < 32,
    decreases side,
{
    let half = side / 2;
    if levels == FINAL_MIP_LEVEL {
        assert(side < 32) by {
            reveal_with_fuel(halvings, 7);
        }
        assert(side >> 0u32 == side) by (bit_vector);
    } else {
        assert(side > 1);
        assert(levels - 1 == halvings(half as nat));
        lemma_reduced(half, (levels - 1) as u32);
        let shift = (levels - FINAL_MIP_LEVEL) as u32;
        let less = (levels - 1 - FINAL_MIP_LEVEL) as u32;
        assert(side >> shift == (side / 2) >> less) by (bit_vector)
            requires
                shift == less + 1,
                shift < 32,
        ;
    }
}

/// The length of a side on a level: each level halves it, but it is never less than one.
pub open spec fn level_side(side: u32, level: nat) -> u32
    decreases level,
{
    if level == 0 {
        side
    } else {
        let above = level_side(side, (level - 1) as nat);
        if above > 1 {
            above / 2
        } else {
            1
        }
    }
}

/// A reduction of an image from one level to the next.
#[derive(Clone, Copy, Debug, PartialEq, Eq, Structural)]
pub struct Blit {
    pub src_width: u32,
    pub src_height: u32,
    pub src_mip_level: u32,
    pub dst_width: u32,
    pub dst_height: u32,
    pub dst_mip_level: u32,
}

/// The reduction to a level.
pub open spec fn blit_to(width: u32, height: u32, level: nat) -> Blit {
    Blit {
        src_width: level_side(width, (level - 1) as nat),
        src_height: level_side(height, (level - 1) as nat),
        src_mip_level: (level - 1) as u32,
        dst_width: level_side(width, level),
        dst_height: level_side(height, level),
        dst_mip_level: level as u32,
    }
}

/// How an image is reduced, and what is left of it.
#[derive(Debug)]
pub struct Reduction {
    pub blits: Vec<Blit>,
    pub target_mip_level: u32,
    pub width: u32,
    pub height: u32,
}

/// How an image with so many levels is reduced, level by level, until the last few are left.
pub fn generate_mipmaps(width: u32, height: u32, mip_levels: u32) -> (r: Reduction)
    requires
        FINAL_MIP_LEVEL <= mip_levels,
    ensures
        r.target_mip_level == mip_levels - FINAL_MIP_LEVEL,
        r.target_mip_level == mip_levels - 4,
        r.blits@ == Seq::new(
            r.target_mip_level as nat,
            |i: int| blit_to(width, height, (i + 1) as nat),
        ),
        r.width == level_side(width, r.target_mip_level as nat),
        r.height == level_side(height, r.target_mip_level as nat),
{
    let target_mip_level: u32 = mip_levels - FINAL_MIP_LEVEL;
    let mut blits: Vec<Blit> = Vec::new();
    let mut mip_width = width;
    let mut mip_height = height;
    let mut i: u32 = 0;
    while i < target_mip_level
        invariant
            i <= target_mip_level,
            mip_width == level_side(width, i as nat),
            mip_height == level_side(height, i as nat),
            blits@ =~= Seq::new(i as nat, |j: int| blit_to(width, height, (j + 1) as nat)),
        decreases target_mip_level - i,
    {
        let next_width = if mip_width > 1 {
            mip_width / 2
        } else {
            1
        };
        let next_height = if mip_height > 1 {
            mip_height / 2
        } else {
            1
        };
        let ghost before = blits@;
        blits.push(
            Blit {
                src_width: mip_width,
                src_height: mip_height,
                src_mip_level: i,
                dst_width: next_width,
                dst_height: next_height,
                dst_mip_level: i + 1,
            },
        );
        assert(level_side(width, (i + 1) as nat) == next_width);
        assert(level_side(height, (i + 1) as nat) == next_height);
        assert(blits@[i as int] == blit_to(width, height, (i + 1) as nat));
        mip_width = next_width;
        mip_height = next_height;
        i = i + 1;
    }
    Reduction { blits, target_mip_level, width: mip_width, height: mip_height }
}

/// The levels of an image follow each other without a gap: each is reduced from what the one before
/// has left.
pub proof fn levels_follow_each_other(width: u32, height: u32, level: nat)
    requires
        level >= 1,
    ensures
        blit_to(width, height, (level + 1) as nat).src_width == blit_to(
            width,
            height,
            level,
        ).dst_width,
        blit_to(width, height, (level + 1) as nat).src_height == blit_to(
            width,
            height,
            level,
        ).dst_height,
{
}

/// Halving a side and shifting it agree as long as something is left of it.
proof fn lemma_level_side(side: u32, level: u32)
    requires
        level < 32,
        side >> level >= 1,
    ensures
        level_side(side, level as nat) == side >> level,
    decreases level,
{
    if level == 0 {
        assert(side >> 0u32 == side) by (bit_vector);
    } else {
        let less = (level - 1) as u32;
        assert(side >> less >= 2 && side >> level == (side >> less) / 2) by (bit_vector)
            requires
                level == less + 1,
                level < 32,
                side >> level >= 1,
        ;
        lemma_level_side(side, less);
    }
}

/// The buffer holds exactly the pixels of the level that the image is reduced to, four bytes each,
/// as long as neither side of the image is shortened to nothing on the way.
pub proof fn buffer_holds_last_level(width: u32, height: u32, shift: u32)
    requires
        shift < 32,
        width >> shift >= 1,
        height >> shift >= 1,
    ensures
        4 * (width >> shift) * (height >> shift) == 4 * level_side(width, shift as nat)
            * level_side(height, shift as nat),
{
    lemma_level_side(width, shift);
    lemma_level_side(height, shift);
}

/// How a frame is laid out in memory.
#[derive(Clone, Copy, Debug, PartialEq, Eq, Structural)]
pub enum Tiling {
    Linear,
    Modifier { modifier: u64, offset: u32, stride: u32 },
}

/// How a frame is taken over.
#[derive(Clone, Copy, Debug, PartialEq, Eq, Structural)]
pub struct Import {
    pub format: Format,
    pub tiling: Tiling,
}

/// Why a frame cannot be processed.
#[derive(Clone, Copy, Debug, PartialEq, Eq, Structural)]
pub enum FrameError {
    /// The device does not know layouts by modifiers.
    NoModifiers,
    /// The device cannot take over frames with this format and modifier.
    NotImportable { format: u32, modifier: u64 },
    /// The device can give none of the modifiers that are allowed for this format.
    NotExportable { format: u32 },
    Format(FormatError),
    /// The memory of the frame is smaller than it has to be.
    TooSmall { size: u64, required: u64 },
    /// No type of memory fits the frame.
    NoMemoryType,
    /// The place of the plane cannot be told to the compositor.
    OffsetTooLarge(u64),
    StrideTooLarge(u64),
}

/// What is said of a frame that cannot be processed.
pub open spec fn frame_message(error: FrameError) -> Seq<char> {
    match error {
        FrameError::NoModifiers => "Vulkan device does not support DRM format modifiers"@,
        FrameError::NotImportable { format, modifier } => "Vulkan cannot import DRM format "@
            + digits_of(format as nat) + " with modifier 0x"@ + hex_of(modifier as nat, 16)
            + " as a transfer source"@,
        FrameError::NotExportable { format } => "No compositor-provided DRM modifier for format "@
            + digits_of(format as nat) + " can be exported by Vulkan"@,
        FrameError::Format(error) => format_message(error),
        FrameError::TooSmall { size, required } => "DMA-BUF is "@ + digits_of(size as nat)
            + " bytes, Vulkan requires at least "@ + digits_of(required as nat) + " bytes"@,
        FrameError::NoMemoryType => "No Vulkan memory type supports the imported frame image"@,
        FrameError::OffsetTooLarge(offset) => "Vulkan DMA-BUF plane offset "@ + digits_of(
            offset as nat,
        ) + " does not fit the Wayland protocol"@,
        FrameError::StrideTooLarge(stride) => "Vulkan DMA-BUF row pitch "@ + digits_of(
            stride as nat,
        ) + " does not fit the Wayland protocol"@,
    }
}

impl FrameError {
    /// There is something to say of the frame.
    pub open spec fn is_told(self) -> bool {
        self matches FrameError::Format(error) ==> error.is_told()
    }

    /// Whether there is something to say of the frame.
    pub fn can_tell(&self) -> (r: bool)
        ensures
            r == self.is_told(),
            self !is Format ==> r,
            self matches FrameError::Format(error) ==> r == error.is_told(),
    {
        match self {
            FrameError::Format(error) => error.can_tell(),
            _ => true,
        }
    }

    /// What is said of a frame that cannot be processed.
    pub fn message(&self) -> (r: String)
        requires
            self.is_told(),
        ensures
            r@ == frame_message(*self),
            match *self {
                FrameError::NotImportable { format, modifier } => r@
                    == "Vulkan cannot import DRM format "@ + digits_of(format as nat)
                    + " with modifier 0x"@ + hex_of(modifier as nat, 16) + " as a transfer source"@,
                FrameError::NotExportable { format } => r@
                    == "No compositor-provided DRM modifier for format "@ + digits_of(format as nat)
                    + " can be exported by Vulkan"@,
                FrameError::Format(error) => r@ == format_message(error),
                FrameError::TooSmall { size, required } => r@ == "DMA-BUF is "@ + digits_of(
                    size as nat,
                ) + " bytes, Vulkan requires at least "@ + digits_of(required as nat) + " bytes"@,
                FrameError::OffsetTooLarge(offset) => r@ == "Vulkan DMA-BUF plane offset "@
                    + digits_of(offset as nat) + " does not fit the Wayland protocol"@,
                FrameError::StrideTooLarge(stride) => r@ == "Vulkan DMA-BUF row pitch "@ + digits_of(
                    stride as nat,
                ) + " does not fit the Wayland protocol"@,
                FrameError::NoModifiers => r@
                    == "Vulkan device does not support DRM format modifiers"@,
                FrameError::NoMemoryType => r@
                    == "No Vulkan memory type supports the imported frame image"@,
            },
    {
        match self {
            FrameError::NoModifiers => {
                "Vulkan device does not support DRM format modifiers".to_string()
            },
            FrameError::NotImportable { format, modifier } => {
                let mut r = "Vulkan cannot import DRM format ".to_string();
                append_number(&mut r, *format as u64);
                r.append(" with modifier 0x");
                append_hex(&mut r, *modifier, 16);
                r.append(" as a transfer source");
                r
            },
            FrameError::NotExportable { format } => {
                let mut r = "No compositor-provided DRM modifier for format ".to_string();
                append_number(&mut r, *format as u64);
                r.append(" can be exported by Vulkan");
                r
            },
            FrameError::Format(error) => error.message(),
            FrameError::TooSmall { size, required } => {
                let mut r = "DMA-BUF is ".to_string();
                append_number(&mut r, *size);
                r.append(" bytes, Vulkan requires at least ");
                append_number(&mut r, *required);
                r.append(" bytes");
                r
            },
            FrameError::NoMemoryType => {
                "No Vulkan memory type supports the imported frame image".to_string()
            },
            FrameError::OffsetTooLarge(offset) => {
                let mut r = "Vulkan DMA-BUF plane offset ".to_string();
                append_number(&mut r, *offset);
                r.append(" does not fit the Wayland protocol");
                r
            },
            FrameError::StrideTooLarge(stride) => {
                let mut r = "Vulkan DMA-BUF row pitch ".to_string();
                append_number(&mut r, *stride);
                r.append(" does not fit the Wayland protocol");
                r
            },
        }
    }
}

/// The modifier of a layout, where there is one.
pub open spec fn modifier_of(layout: Option<(u64, u32, u32)>) -> u64 {
    match layout {
        Some((modifier, _, _)) => modifier,
        None => 0,
    }
}

/// How a frame is taken over by a device that can import the given modifiers.
pub open spec fn import_of(
    layout: Option<(u64, u32, u32)>,
    format: u32,
    supports_drm_modifier: bool,
    importable: Seq<u64>,
) -> Result<Import, FrameError> {
    if layout is Some && !supports_drm_modifier {
        Err(FrameError::NoModifiers)
    } else if layout is Some && !importable.contains(modifier_of(layout)) {
        Err(FrameError::NotImportable { format, modifier: modifier_of(layout) })
    } else {
        match mapped_format(format) {
            Err(error) => Err(FrameError::Format(error)),
            Ok(mapped) => Ok(
                Import {
                    format: mapped,
                    tiling: match layout {
                        Some((modifier, offset, stride)) => Tiling::Modifier {
                            modifier,
                            offset,
                            stride,
                        },
                        None => Tiling::Linear,
                    },
                },
            ),
        }
    }
}

/// How a frame is taken over by a device that can import the given modifiers. Frames of several
/// objects are not supported.
pub fn plan_import(frame: &Object, supports_drm_modifier: bool, importable: &Vec<u64>) -> (r: Result<
    Import,
    FrameError,
>)
    requires
        frame.num_objects == 1 || (frame.layout is Some && !supports_drm_modifier),
    ensures
        r == import_of(frame.layout, frame.format, supports_drm_modifier, importable@),
        r is Ok <==> (frame.layout matches Some((modifier, _, _)) ==> supports_drm_modifier
            && importable@.contains(modifier)) && mapped_format(frame.format) is Ok,
        r matches Ok(import) ==> mapped_format(frame.format) == Ok::<Format, FormatError>(
            import.format,
        ) && match frame.layout {
            Some((modifier, offset, stride)) => import.tiling == (Tiling::Modifier {
                modifier,
                offset,
                stride,
            }),
            None => import.tiling is Linear,
        },
        r == Err::<Import, FrameError>(FrameError::NoModifiers) <==> frame.layout is Some
            && !supports_drm_modifier,
        frame.layout matches Some((modifier, _, _)) ==> supports_drm_modifier && !importable@.contains(
            modifier,
        ) ==> r == Err::<Import, FrameError>(
            FrameError::NotImportable { format: frame.format, modifier },
        ),
{
    if frame.layout.is_some() && !supports_drm_modifier {
        return Err(FrameError::NoModifiers);
    }
    let tiling = match frame.layout {
        Some((modifier, offset, stride)) => {
            if !has_modifier(importable, modifier) {
                return Err(FrameError::NotImportable { format: frame.format, modifier });
            }
            Tiling::Modifier { modifier, offset, stride }
        },
        None => Tiling::Linear,
    };
    match map_drm_format(frame.format) {
        Ok(format) => Ok(Import { format, tiling }),
        Err(error) => Err(FrameError::Format(error)),
    }
}

/// The type of memory in which a frame is taken over: its memory has to be large enough, and both
/// the image and the memory have to allow the type.
pub fn import_memory_type(
    object_size: u64,
    required_size: u64,
    image_bits: u32,
    object_bits: u32,
) -> (r: Result<u32, FrameError>)
    ensures
        r matches Err(error) ==> error == if object_size < required_size {
            FrameError::TooSmall { size: object_size, required: required_size }
        } else {
            FrameError::NoMemoryType
        },
        r is Ok <==> object_size >= required_size && image_bits & object_bits != 0,
        r matches Ok(i) ==> i < 32 && has_type(image_bits & object_bits, i) && forall|j: u32|
            j < i ==> !#[trigger] has_type(image_bits & object_bits, j),
{
    if object_size < required_size {
        return Err(FrameError::TooSmall { size: object_size, required: required_size });
    }
    match memory_type_index(image_bits & object_bits) {
        Some(i) => Ok(i),
        None => Err(FrameError::NoMemoryType),
    }
}

/// How a frame is given.
#[derive(Debug)]
pub struct Export {
    pub format: Format,
    pub modifiers: Vec<u64>,
}

/// How a frame is given to a compositor that allows the given modifiers, by a device that can export
/// the given ones.
pub fn plan_export(frame: &Object, allowed: &Vec<u64>, exportable: &Vec<u64>) -> (r: Result<
    Export,
    FrameError,
>)
    requires
        frame.num_objects == 1,
    ensures
        ({
            let common = common_of(allowed@, exportable@);
            &&& r is Ok <==> common.len() > 0 && mapped_format(frame.format) is Ok
            &&& r matches Ok(export) ==> export.modifiers@ == common && mapped_format(frame.format)
                == Ok::<Format, FormatError>(export.format)
            &&& r matches Err(error) ==> if common.len() == 0 {
                error == (FrameError::NotExportable { format: frame.format })
            } else {
                error == FrameError::Format(mapped_format(frame.format)->Err_0)
            }
        }),
{
    let modifiers = common_modifiers(allowed, exportable);
    if modifiers.len() == 0 {
        return Err(FrameError::NotExportable { format: frame.format });
    }
    match map_drm_format(frame.format) {
        Ok(format) => Ok(Export { format, modifiers }),
        Err(error) => Err(FrameError::Format(error)),
    }
}

/// Where the only plane of a frame is, as it is told to a compositor.
pub fn plane_place(offset: u64, row_pitch: u64) -> (r: Result<(u32, u32), FrameError>)
    ensures
        r == if offset > u32::MAX {
            Err::<(u32, u32), FrameError>(FrameError::OffsetTooLarge(offset))
        } else if row_pitch > u32::MAX {
            Err(FrameError::StrideTooLarge(row_pitch))
        } else {
            Ok((offset as u32, row_pitch as u32))
        },
{
    if offset > u32::MAX as u64 {
        Err(FrameError::OffsetTooLarge(offset))
    } else if row_pitch > u32::MAX as u64 {
        Err(FrameError::StrideTooLarge(row_pitch))
    } else {
        Ok((offset as u32, row_pitch as u32))
    }
}

/// A type of memory that is found is allowed, has the wanted properties and is the first one of this
/// kind; none is found only where there is none.
pub proof fn first_fitting_type_is_found(bits: u32, types: Seq<u32>, flags: u32, from: int)
    requires
        0 <= from <= types.len(),
    ensures
        type_with(bits, types, flags, from) matches Some(i) ==> from <= i < types.len() && (1u32 << (
        i as u32)) & bits != 0 && types[i] & flags == flags && forall|j: int|
            from <= j < i ==> (1u32 << (j as u32)) & bits == 0 || (#[trigger] types[j]) & flags
                != flags,
        type_with(bits, types, flags, from) is None ==> forall|j: int|
            from <= j < types.len() ==> (1u32 << (j as u32)) & bits == 0 || (#[trigger] types[j])
                & flags != flags,
    decreases types.len() - from,
{
    if from < types.len() {
        first_fitting_type_is_found(bits, types, flags, from + 1);
    }
}

/// A number lies between two to the power of its halvings and the next power.
pub proof fn halvings_are_the_logarithm(n: nat)
    requires
        n >= 1,
    ensures
        pow2(halvings(n)) <= n < pow2(halvings(n) + 1),
    decreases n,
{
    lemma2_to64();
    if n > 1 {
        halvings_are_the_logarithm(n / 2);
        lemma_pow2_unfold(halvings(n));
        lemma_pow2_unfold(halvings(n) + 1);
    }
}

/// The longer side decides how many levels there are: halved so often, it is one pixel long.
pub proof fn longer_side_decides_levels(width: u32, height: u32)
    requires
        width >= 1 || height >= 1,
    ensures
        ({
            let levels = mip_levels_of(width, height);
            &&& pow2(levels) <= width || pow2(levels) <= height
            &&& width < pow2(levels + 1)
            &&& height < pow2(levels + 1)
        }),
{
    halvings_are_the_logarithm(longer_side(width, height) as nat);
}

/// Each level halves a side, the first one is as long as the side, and none is shorter than a pixel.
pub proof fn levels_halve_a_side(side: u32, level: u32)
    requires
        side >= 1,
        level < 32,
    ensures
        side >> level >= 1 ==> level_side(side, level as nat) == side >> level,
        side >> level == 0 ==> level_side(side, level as nat) == 1,
    decreases level,
{
    if side >> level >= 1 {
        lemma_level_side(side, level);
    } else if level == 0 {
        assert(side >> 0u32 == side) by (bit_vector);
    } else {
        let less = (level - 1) as u32;
        levels_halve_a_side(side, less);
        assert(side >> less <= 1) by (bit_vector)
            requires
                level == less + 1,
                level < 32,
                side >> level == 0,
        ;
    }
}

/// Each reduction leads from one level to the next, with the sides that these have.
pub proof fn reduction_leads_to_the_next_level(width: u32, height: u32, level: u32)
    requires
        1 <= level < 32,
        width >> level >= 1,
        height >> level >= 1,
    ensures
        ({
            let b = blit_to(width, height, level as nat);
            &&& b.dst_mip_level == level
            &&& b.src_mip_level == level - 1
            &&& b.dst_width == width >> level
            &&& b.dst_height == height >> level
            &&& b.src_width == width >> ((level - 1) as u32)
            &&& b.src_height == height >> ((level - 1) as u32)
        }),
{
    let less = (level - 1) as u32;
    assert(width >> less >= 1) by (bit_vector)
        requires
            level == less + 1,
            level < 32,
            width >> level >= 1,
    ;
    assert(height >> less >= 1) by (bit_vector)
        requires
            level == less + 1,
            level < 32,
            height >> level >= 1,
    ;
    lemma_level_side(width, level);
    lemma_level_side(height, level);
    lemma_level_side(width, less);
    lemma_level_side(height, less);
}

/// A type of memory is allowed exactly when its bit is set.
pub proof fn types_are_allowed_by_bits(bits: u32, i: u32)
    ensures
        has_type(bits, i) <==> (1u32 << i) & bits != 0,
{
}

/// The modifier of a frame is that of its layout.
pub proof fn frame_is_taken_over_as_it_is_laid_out(
    format: u32,
    supported: bool,
    importable: Seq<u64>,
    modifier: u64,
    offset: u32,
    stride: u32,
)
    ensures
        import_of(None, format, supported, importable) matches Ok(import) ==> import.tiling is Linear,
        ({
            let layout = Some((modifier, offset, stride));
            &&& modifier_of(layout) == modifier
            &&& !supported ==> import_of(layout, format, supported, importable) == Err::<
                Import,
                FrameError,
            >(FrameError::NoModifiers)
            &&& supported && !importable.contains(modifier) ==> import_of(
                layout,
                format,
                supported,
                importable,
            ) == Err::<Import, FrameError>(FrameError::NotImportable { format, modifier })
            &&& import_of(layout, format, supported, importable) matches Ok(import) ==> supported
                && importable.contains(modifier) && import.tiling == (Tiling::Modifier {
                modifier,
                offset,
                stride,
            })
        }),
{
}

} // verus!
