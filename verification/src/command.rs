//! The command set: one decoded instruction per variant.
//!
//! A command is immutable once decoded; only the execution engine interprets
//! it. Geometry is device-space integer geometry. Text and file paths travel
//! as UTF-8 byte strings, exactly as they appear on the wire. Scale factors,
//! brightness and opacity are carried as the IEEE-754 bit patterns of the
//! controller's floating-point values: the engine never interprets them, it
//! hands them on to the renderer, which reconstitutes the number.
//!
//! Commands that carry lists or byte strings have a specification mirror
//! (`CommandV`) over `Seq`, reached through the `View` impl, so contracts
//! can speak about command values mathematically.

use vstd::prelude::*;

verus! {

/// A point in device coordinates.
#[derive(Clone, Copy, PartialEq, Eq, Structural, Debug)]
pub struct CanvasPoint {
    pub x: i32,
    pub y: i32,
}

/// A rectangle in device coordinates.
#[derive(Clone, Copy, PartialEq, Eq, Structural, Debug)]
pub struct Rectangle {
    pub x: i32,
    pub y: i32,
    pub width: u32,
    pub height: u32,
}

/// A target rectangle whose extent may be left to the rendered content:
/// an absent width or height means "use the natural size".
#[derive(Clone, Copy, PartialEq, Eq, Debug)]
pub struct OptionRectangle {
    pub x: i32,
    pub y: i32,
    pub width: Option<u32>,
    pub height: Option<u32>,
}

/// An RGBA color with 8-bit channels.
#[derive(Clone, Copy, PartialEq, Eq, Structural, Debug)]
pub struct CanvasColor {
    pub r: u8,
    pub g: u8,
    pub b: u8,
    pub a: u8,
}

/// The quality mode under which text is rasterized, with its color(s).
#[derive(Clone, Copy, PartialEq, Eq, Debug)]
pub enum FontFill {
    Solid { color: CanvasColor },
    Shaded { color: CanvasColor, background: CanvasColor },
    Blended { color: CanvasColor },
}

/// A font style applied before rasterizing text.
#[derive(Clone, Copy, PartialEq, Eq, Structural, Debug)]
pub enum FontStyle {
    Normal,
    Bold,
    Italic,
    Underline,
    Strikethrough,
}

pub open spec fn spec_style_bits(s: FontStyle) -> u8 {
    match s {
        FontStyle::Normal => 0,
        FontStyle::Bold => 1,
        FontStyle::Italic => 2,
        FontStyle::Underline => 4,
        FontStyle::Strikethrough => 8,
    }
}

impl FontStyle {
    /// The style's bit in the renderer's font-style mask.
    pub fn style_bits(self) -> (r: u8)
        ensures
            r == spec_style_bits(self),
    {
        match self {
            FontStyle::Normal => 0,
            FontStyle::Bold => 1,
            FontStyle::Italic => 2,
            FontStyle::Underline => 4,
            FontStyle::Strikethrough => 8,
        }
    }
}

/// One decoded instruction.
///
/// `index`, `surface` and `texture` fields are resource handles: unsigned
/// 32-bit keys chosen by the controller (see the resource table).
#[derive(Clone, PartialEq, Eq, Debug)]
pub enum Command {
    Present,
    SetDrawColor { color: CanvasColor },
    SetScale { x_bits: u32, y_bits: u32 },
    DrawPoint { point: CanvasPoint },
    DrawPoints { points: Vec<CanvasPoint> },
    DrawLine { p1: CanvasPoint, p2: CanvasPoint },
    DrawLines { points: Vec<CanvasPoint> },
    DrawRect { rect: Rectangle },
    DrawRects { rects: Vec<Rectangle> },
    FillRect { rect: Rectangle },
    FillRects { rects: Vec<Rectangle> },
    Clear,
    Quit,
    Nop,
    RenderFont {
        text: Vec<u8>,
        fill: FontFill,
        target: Option<OptionRectangle>,
        path: Vec<u8>,
        size: u16,
        style: Option<FontStyle>,
    },
    SetCursor { index: u32, path: Vec<u8> },
    OpenAudio { frequency: i32, format: u16, channels: i32, chunksize: i32 },
    PlayMusic { path: Vec<u8> },
    CreateSurface { width: u32, height: u32, format: u32, index: u32 },
    CreateSurfaceBitmap { path: Vec<u8>, index: u32 },
    LoadSurface { path: Vec<u8>, index: u32 },
    CreateTexture { format: Option<u32>, access: u32, width: u32, height: u32, index: u32 },
    CreateTextureSurface { surface: u32, index: u32 },
    LoadTexture { path: Vec<u8>, index: u32 },
    CopyRect { texture: u32, src: Rectangle, dst: Rectangle },
    SetDisplayMode { width: i32, height: i32, rate: i32, format: u32 },
    SetTitle { title: Vec<u8> },
    SetIcon { icon: Vec<u8> },
    SetPosition { x: i32, y: i32 },
    SetSize { width: u32, height: u32 },
    SetMinimumSize { width: u32, height: u32 },
    Show,
    Hide,
    Raise,
    Maximize,
    Minimize,
    Restore,
    SetBrightness { brightness_bits: u64 },
    SetOpacity { opacity_bits: u32 },
}

/// The specification mirror of `Command`: lists and byte strings as `Seq`.
pub enum CommandV {
    Present,
    SetDrawColor { color: CanvasColor },
    SetScale { x_bits: u32, y_bits: u32 },
    DrawPoint { point: CanvasPoint },
    DrawPoints { points: Seq<CanvasPoint> },
    DrawLine { p1: CanvasPoint, p2: CanvasPoint },
    DrawLines { points: Seq<CanvasPoint> },
    DrawRect { rect: Rectangle },
    DrawRects { rects: Seq<Rectangle> },
    FillRect { rect: Rectangle },
    FillRects { rects: Seq<Rectangle> },
    Clear,
    Quit,
    Nop,
    RenderFont {
        text: Seq<u8>,
        fill: FontFill,
        target: Option<OptionRectangle>,
        path: Seq<u8>,
        size: u16,
        style: Option<FontStyle>,
    },
    SetCursor { index: u32, path: Seq<u8> },
    OpenAudio { frequency: i32, format: u16, channels: i32, chunksize: i32 },
    PlayMusic { path: Seq<u8> },
    CreateSurface { width: u32, height: u32, format: u32, index: u32 },
    CreateSurfaceBitmap { path: Seq<u8>, index: u32 },
    LoadSurface { path: Seq<u8>, index: u32 },
    CreateTexture { format: Option<u32>, access: u32, width: u32, height: u32, index: u32 },
    CreateTextureSurface { surface: u32, index: u32 },
    LoadTexture { path: Seq<u8>, index: u32 },
    CopyRect { texture: u32, src: Rectangle, dst: Rectangle },
    SetDisplayMode { width: i32, height: i32, rate: i32, format: u32 },
    SetTitle { title: Seq<u8> },
    SetIcon { icon: Seq<u8> },
    SetPosition { x: i32, y: i32 },
    SetSize { width: u32, height: u32 },
    SetMinimumSize { width: u32, height: u32 },
    Show,
    Hide,
    Raise,
    Maximize,
    Minimize,
    Restore,
    SetBrightness { brightness_bits: u64 },
    SetOpacity { opacity_bits: u32 },
}

impl View for Command {
    type V = CommandV;

    open spec fn view(&self) -> CommandV {
        match self {
            Command::Present => CommandV::Present,
            Command::SetDrawColor { color } => CommandV::SetDrawColor { color: *color },
            Command::SetScale { x_bits, y_bits } => CommandV::SetScale {
                x_bits: *x_bits,
                y_bits: *y_bits,
            },
            Command::DrawPoint { point } => CommandV::DrawPoint { point: *point },
            Command::DrawPoints { points } => CommandV::DrawPoints { points: points@ },
            Command::DrawLine { p1, p2 } => CommandV::DrawLine { p1: *p1, p2: *p2 },
            Command::DrawLines { points } => CommandV::DrawLines { points: points@ },
            Command::DrawRect { rect } => CommandV::DrawRect { rect: *rect },
            Command::DrawRects { rects } => CommandV::DrawRects { rects: rects@ },
            Command::FillRect { rect } => CommandV::FillRect { rect: *rect },
            Command::FillRects { rects } => CommandV::FillRects { rects: rects@ },
            Command::Clear => CommandV::Clear,
            Command::Quit => CommandV::Quit,
            Command::Nop => CommandV::Nop,
            Command::RenderFont { text, fill, target, path, size, style } => CommandV::RenderFont {
                text: text@,
                fill: *fill,
                target: *target,
                path: path@,
                size: *size,
                style: *style,
            },
            Command::SetCursor { index, path } => CommandV::SetCursor {
                index: *index,
                path: path@,
            },
            Command::OpenAudio { frequency, format, channels, chunksize } => CommandV::OpenAudio {
                frequency: *frequency,
                format: *format,
                channels: *channels,
                chunksize: *chunksize,
            },
            Command::PlayMusic { path } => CommandV::PlayMusic { path: path@ },
            Command::CreateSurface { width, height, format, index } => CommandV::CreateSurface {
                width: *width,
                height: *height,
                format: *format,
                index: *index,
            },
            Command::CreateSurfaceBitmap { path, index } => CommandV::CreateSurfaceBitmap {
                path: path@,
                index: *index,
            },
            Command::LoadSurface { path, index } => CommandV::LoadSurface {
                path: path@,
                index: *index,
            },
            Command::CreateTexture { format, access, width, height, index } => {
                CommandV::CreateTexture {
                    format: *format,
                    access: *access,
                    width: *width,
                    height: *height,
                    index: *index,
                }
            },
            Command::CreateTextureSurface { surface, index } => CommandV::CreateTextureSurface {
                surface: *surface,
                index: *index,
            },
            Command::LoadTexture { path, index } => CommandV::LoadTexture {
                path: path@,
                index: *index,
            },
            Command::CopyRect { texture, src, dst } => CommandV::CopyRect {
                texture: *texture,
                src: *src,
                dst: *dst,
            },
            Command::SetDisplayMode { width, height, rate, format } => CommandV::SetDisplayMode {
                width: *width,
                height: *height,
                rate: *rate,
                format: *format,
            },
            Command::SetTitle { title } => CommandV::SetTitle { title: title@ },
            Command::SetIcon { icon } => CommandV::SetIcon { icon: icon@ },
            Command::SetPosition { x, y } => CommandV::SetPosition { x: *x, y: *y },
            Command::SetSize { width, height } => CommandV::SetSize {
                width: *width,
                height: *height,
            },
            Command::SetMinimumSize { width, height } => CommandV::SetMinimumSize {
                width: *width,
                height: *height,
            },
            Command::Show => CommandV::Show,
            Command::Hide => CommandV::Hide,
            Command::Raise => CommandV::Raise,
            Command::Maximize => CommandV::Maximize,
            Command::Minimize => CommandV::Minimize,
            Command::Restore => CommandV::Restore,
            Command::SetBrightness { brightness_bits } => CommandV::SetBrightness {
                brightness_bits: *brightness_bits,
            },
            Command::SetOpacity { opacity_bits } => CommandV::SetOpacity {
                opacity_bits: *opacity_bits,
            },
        }
    }
}

impl DeepView for Command {
    type V = CommandV;

    open spec fn deep_view(&self) -> CommandV {
        self.view()
    }
}

/// Lists and byte strings a command carries must fit their 32-bit wire
/// count; nothing else about a command is constrained.
pub open spec fn wf_cmd(c: CommandV) -> bool {
    match c {
        CommandV::DrawPoints { points } => points.len() < 0x1_0000_0000,
        CommandV::DrawLines { points } => points.len() < 0x1_0000_0000,
        CommandV::DrawRects { rects } => rects.len() < 0x1_0000_0000,
        CommandV::FillRects { rects } => rects.len() < 0x1_0000_0000,
        CommandV::RenderFont { text, path, .. } => text.len() < 0x1_0000_0000 && path.len()
            < 0x1_0000_0000,
        CommandV::SetCursor { path, .. } => path.len() < 0x1_0000_0000,
        CommandV::PlayMusic { path } => path.len() < 0x1_0000_0000,
        CommandV::CreateSurfaceBitmap { path, .. } => path.len() < 0x1_0000_0000,
        CommandV::LoadSurface { path, .. } => path.len() < 0x1_0000_0000,
        CommandV::LoadTexture { path, .. } => path.len() < 0x1_0000_0000,
        CommandV::SetTitle { title } => title.len() < 0x1_0000_0000,
        CommandV::SetIcon { icon } => icon.len() < 0x1_0000_0000,
        _ => true,
    }
}

/// A well-formed batch: its count and every member fit the wire format.
pub open spec fn wf_batch(cs: Seq<CommandV>) -> bool {
    cs.len() < 0x1_0000_0000 && forall|i: int| 0 <= i < cs.len() ==> wf_cmd(#[trigger] cs[i])
}

} // verus!
