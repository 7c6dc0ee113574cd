//! The engine's enumerated constants: texture formats, filtering and
//! wrapping modes, blend modes, attachment kinds, and playback events.

use vstd::prelude::*;

verus! {

/// Pixel format a texture atlas page declares.
#[derive(Debug, Copy, Clone, PartialEq, Eq, Structural)]
pub enum AtlasFormat {
    Unknown,
    Alpha,
    Intensity,
    LuminanceAlpha,
    RGB565,
    RGBA4444,
    RGB888,
    RGBA8888,
}

/// Texture sampling filter an atlas page declares.
#[derive(Debug, Copy, Clone, PartialEq, Eq, Structural)]
pub enum AtlasFilter {
    Unknown,
    Nearest,
    Linear,
    Mipmap,
    MipmapNereastNearest,
    MipmapLinearNearest,
    MipmapNearestLinear,
    MipmapLinearLinear,
}

/// Texture wrapping mode an atlas page declares, per axis.
#[derive(Debug, Copy, Clone, PartialEq, Eq, Structural)]
pub enum AtlasWrap {
    MirroedRepeat,
    ClampToEdge,
    Repeat,
}

/// How a slot's geometry is blended over what is already drawn.
#[derive(Debug, Copy, Clone, PartialEq, Eq, Structural)]
pub enum BlendMode {
    Normal,
    Additive,
    Multiply,
    Screen,
}

/// The kind of visual content bound to a slot.
#[derive(Debug, Copy, Clone, PartialEq, Eq, Structural)]
pub enum AttachmentType {
    Region,
    BoundingBox,
    Mesh,
    LinkedMesh,
    Path,
    Point,
    Clipping,
}

/// Playback milestones an animation track can report.
#[derive(Debug, Copy, Clone, PartialEq, Eq, Structural)]
pub enum EventType {
    Start,
    Interrupt,
    End,
    Complete,
    Dispose,
    Event,
}

} // verus!
