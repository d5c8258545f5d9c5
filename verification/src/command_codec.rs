//! The command codec: a batch of commands to and from wire bytes.
//!
//! A batch travels as a 32-bit little-endian command count followed by each
//! command's encoding: one tag byte selecting the variant, followed by the
//! variant's fields in declaration order, each in the primitive shapes of
//! `codec`. Decoding is all-or-nothing: a payload decodes to a batch exactly
//! when it is, byte for byte, the encoding of that batch; trailing bytes,
//! an unknown tag or a truncated field reject the whole payload.
//!
//! `lemma_command_batch_round_trip` and `lemma_command_batch_canonical`
//! state the two directions of that exactness.

use crate::codec::{
    dec_bytes, dec_i32, dec_items, dec_list, dec_opt, dec_u16, dec_u32, dec_u64, dec_u8,
    enc_bytes, enc_i32, enc_items, enc_list, enc_opt, enc_u16, enc_u32, enc_u64, enc_u8,
};
use crate::command::{
    CanvasColor, CanvasPoint, Command, CommandV, FontFill, FontStyle, OptionRectangle, Rectangle,
    wf_batch, wf_cmd,
};
use vstd::prelude::*;

verus! {

// ---------------------------------------------------------------------------
// Sub-shapes: color, point, rectangle, target rectangle, fill, style
// ---------------------------------------------------------------------------
pub open spec fn enc_color(c: CanvasColor) -> Seq<u8> {
    seq![c.r, c.g, c.b, c.a]
}

pub open spec fn dec_color(b: Seq<u8>) -> Option<(CanvasColor, Seq<u8>)> {
    if b.len() >= 4 {
        Option::Some(
            (CanvasColor { r: b[0], g: b[1], b: b[2], a: b[3] }, b.skip(4)),
        )
    } else {
        Option::None
    }
}

pub open spec fn enc_point(p: CanvasPoint) -> Seq<u8> {
    enc_i32(p.x) + enc_i32(p.y)
}

pub open spec fn dec_point(b: Seq<u8>) -> Option<(CanvasPoint, Seq<u8>)> {
    match dec_i32(b) {
        Option::None => Option::None,
        Option::Some((x, b1)) => match dec_i32(b1) {
            Option::None => Option::None,
            Option::Some((y, b2)) => Option::Some((CanvasPoint { x, y }, b2)),
        },
    }
}

pub open spec fn enc_rect(r: Rectangle) -> Seq<u8> {
    enc_i32(r.x) + enc_i32(r.y) + enc_u32(r.width) + enc_u32(r.height)
}

pub open spec fn dec_rect(b: Seq<u8>) -> Option<(Rectangle, Seq<u8>)> {
    match dec_i32(b) {
        Option::None => Option::None,
        Option::Some((x, b1)) => match dec_i32(b1) {
            Option::None => Option::None,
            Option::Some((y, b2)) => match dec_u32(b2) {
                Option::None => Option::None,
                Option::Some((width, b3)) => match dec_u32(b3) {
                    Option::None => Option::None,
                    Option::Some((height, b4)) => Option::Some(
                        (Rectangle { x, y, width, height }, b4),
                    ),
                },
            },
        },
    }
}

pub open spec fn enc_u32_fn() -> spec_fn(u32) -> Seq<u8> {
    |w: u32| enc_u32(w)
}

pub open spec fn dec_u32_fn() -> spec_fn(Seq<u8>) -> Option<(u32, Seq<u8>)> {
    |bb: Seq<u8>| dec_u32(bb)
}

pub open spec fn enc_optrect(t: OptionRectangle) -> Seq<u8> {
    enc_i32(t.x) + enc_i32(t.y) + enc_opt(t.width, enc_u32_fn()) + enc_opt(t.height, enc_u32_fn())
}

pub open spec fn dec_optrect(b: Seq<u8>) -> Option<(OptionRectangle, Seq<u8>)> {
    match dec_i32(b) {
        Option::None => Option::None,
        Option::Some((x, b1)) => match dec_i32(b1) {
            Option::None => Option::None,
            Option::Some((y, b2)) => match dec_opt(b2, dec_u32_fn()) {
                Option::None => Option::None,
                Option::Some((width, b3)) => match dec_opt(b3, dec_u32_fn()) {
                    Option::None => Option::None,
                    Option::Some((height, b4)) => Option::Some(
                        (OptionRectangle { x, y, width, height }, b4),
                    ),
                },
            },
        },
    }
}

pub open spec fn enc_style(s: FontStyle) -> Seq<u8> {
    match s {
        FontStyle::Normal => seq![0u8],
        FontStyle::Bold => seq![1u8],
        FontStyle::Italic => seq![2u8],
        FontStyle::Underline => seq![3u8],
        FontStyle::Strikethrough => seq![4u8],
    }
}

pub open spec fn dec_style(b: Seq<u8>) -> Option<(FontStyle, Seq<u8>)> {
    if b.len() >= 1 {
        if b[0] == 0 {
            Option::Some((FontStyle::Normal, b.skip(1)))
        } else if b[0] == 1 {
            Option::Some((FontStyle::Bold, b.skip(1)))
        } else if b[0] == 2 {
            Option::Some((FontStyle::Italic, b.skip(1)))
        } else if b[0] == 3 {
            Option::Some((FontStyle::Underline, b.skip(1)))
        } else if b[0] == 4 {
            Option::Some((FontStyle::Strikethrough, b.skip(1)))
        } else {
            Option::None
        }
    } else {
        Option::None
    }
}

pub open spec fn enc_fill(f: FontFill) -> Seq<u8> {
    match f {
        FontFill::Solid { color } => seq![0u8] + enc_color(color),
        FontFill::Shaded { color, background } => seq![1u8] + enc_color(color) + enc_color(
            background,
        ),
        FontFill::Blended { color } => seq![2u8] + enc_color(color),
    }
}

pub open spec fn dec_fill(b: Seq<u8>) -> Option<(FontFill, Seq<u8>)> {
    if b.len() >= 1 {
        if b[0] == 0 {
            match dec_color(b.skip(1)) {
                Option::None => Option::None,
                Option::Some((color, b1)) => Option::Some((FontFill::Solid { color }, b1)),
            }
        } else if b[0] == 1 {
            match dec_color(b.skip(1)) {
                Option::None => Option::None,
                Option::Some((color, b1)) => match dec_color(b1) {
                    Option::None => Option::None,
                    Option::Some((background, b2)) => Option::Some(
                        (FontFill::Shaded { color, background }, b2),
                    ),
                },
            }
        } else if b[0] == 2 {
            match dec_color(b.skip(1)) {
                Option::None => Option::None,
                Option::Some((color, b1)) => Option::Some((FontFill::Blended { color }, b1)),
            }
        } else {
            Option::None
        }
    } else {
        Option::None
    }
}

pub open spec fn enc_point_fn() -> spec_fn(CanvasPoint) -> Seq<u8> {
    |p: CanvasPoint| enc_point(p)
}

pub open spec fn dec_point_fn() -> spec_fn(Seq<u8>) -> Option<(CanvasPoint, Seq<u8>)> {
    |bb: Seq<u8>| dec_point(bb)
}

pub open spec fn enc_rect_fn() -> spec_fn(Rectangle) -> Seq<u8> {
    |r: Rectangle| enc_rect(r)
}

pub open spec fn dec_rect_fn() -> spec_fn(Seq<u8>) -> Option<(Rectangle, Seq<u8>)> {
    |bb: Seq<u8>| dec_rect(bb)
}

pub open spec fn enc_optrect_fn() -> spec_fn(OptionRectangle) -> Seq<u8> {
    |t: OptionRectangle| enc_optrect(t)
}

pub open spec fn dec_optrect_fn() -> spec_fn(Seq<u8>) -> Option<(OptionRectangle, Seq<u8>)> {
    |bb: Seq<u8>| dec_optrect(bb)
}

pub open spec fn enc_style_fn() -> spec_fn(FontStyle) -> Seq<u8> {
    |s: FontStyle| enc_style(s)
}

pub open spec fn dec_style_fn() -> spec_fn(Seq<u8>) -> Option<(FontStyle, Seq<u8>)> {
    |bb: Seq<u8>| dec_style(bb)
}

// ---------------------------------------------------------------------------
// The command grammar
// ---------------------------------------------------------------------------
/// The wire tag selecting a command variant.
pub open spec fn cmd_tag(c: CommandV) -> u8 {
    match c {
        CommandV::Present => 0,
        CommandV::SetDrawColor { .. } => 1,
        CommandV::SetScale { .. } => 2,
        CommandV::DrawPoint { .. } => 3,
        CommandV::DrawPoints { .. } => 4,
        CommandV::DrawLine { .. } => 5,
        CommandV::DrawLines { .. } => 6,
        CommandV::DrawRect { .. } => 7,
        CommandV::DrawRects { .. } => 8,
        CommandV::FillRect { .. } => 9,
        CommandV::FillRects { .. } => 10,
        CommandV::Clear => 11,
        CommandV::Quit => 12,
        CommandV::Nop => 13,
        CommandV::RenderFont { .. } => 14,
        CommandV::SetCursor { .. } => 15,
        CommandV::OpenAudio { .. } => 16,
        CommandV::PlayMusic { .. } => 17,
        CommandV::CreateSurface { .. } => 18,
        CommandV::CreateSurfaceBitmap { .. } => 19,
        CommandV::LoadSurface { .. } => 20,
        CommandV::CreateTexture { .. } => 21,
        CommandV::CreateTextureSurface { .. } => 22,
        CommandV::LoadTexture { .. } => 23,
        CommandV::CopyRect { .. } => 24,
        CommandV::SetDisplayMode { .. } => 25,
        CommandV::SetTitle { .. } => 26,
        CommandV::SetIcon { .. } => 27,
        CommandV::SetPosition { .. } => 28,
        CommandV::SetSize { .. } => 29,
        CommandV::SetMinimumSize { .. } => 30,
        CommandV::Show => 31,
        CommandV::Hide => 32,
        CommandV::Raise => 33,
        CommandV::Maximize => 34,
        CommandV::Minimize => 35,
        CommandV::Restore => 36,
        CommandV::SetBrightness { .. } => 37,
        CommandV::SetOpacity { .. } => 38,
    }
}

/// The encoding of one command: tag byte, fields in declaration order.
pub open spec fn enc_cmd(c: CommandV) -> Seq<u8> {
    seq![cmd_tag(c)] + match c {
        CommandV::Present => Seq::<u8>::empty(),
        CommandV::SetDrawColor { color } => enc_color(color),
        CommandV::SetScale { x_bits, y_bits } => enc_u32(x_bits) + enc_u32(y_bits),
        CommandV::DrawPoint { point } => enc_point(point),
        CommandV::DrawPoints { points } => enc_list(points, enc_point_fn()),
        CommandV::DrawLine { p1, p2 } => enc_point(p1) + enc_point(p2),
        CommandV::DrawLines { points } => enc_list(points, enc_point_fn()),
        CommandV::DrawRect { rect } => enc_rect(rect),
        CommandV::DrawRects { rects } => enc_list(rects, enc_rect_fn()),
        CommandV::FillRect { rect } => enc_rect(rect),
        CommandV::FillRects { rects } => enc_list(rects, enc_rect_fn()),
        CommandV::Clear => Seq::<u8>::empty(),
        CommandV::Quit => Seq::<u8>::empty(),
        CommandV::Nop => Seq::<u8>::empty(),
        CommandV::RenderFont { text, fill, target, path, size, style } => enc_bytes(text)
            + enc_fill(fill) + enc_opt(target, enc_optrect_fn()) + enc_bytes(path) + enc_u16(size)
            + enc_opt(style, enc_style_fn()),
        CommandV::SetCursor { index, path } => enc_u32(index) + enc_bytes(path),
        CommandV::OpenAudio { frequency, format, channels, chunksize } => enc_i32(frequency)
            + enc_u16(format) + enc_i32(channels) + enc_i32(chunksize),
        CommandV::PlayMusic { path } => enc_bytes(path),
        CommandV::CreateSurface { width, height, format, index } => enc_u32(width) + enc_u32(
            height,
        ) + enc_u32(format) + enc_u32(index),
        CommandV::CreateSurfaceBitmap { path, index } => enc_bytes(path) + enc_u32(index),
        CommandV::LoadSurface { path, index } => enc_bytes(path) + enc_u32(index),
        CommandV::CreateTexture { format, access, width, height, index } => enc_opt(
            format,
            enc_u32_fn(),
        ) + enc_u32(access) + enc_u32(width) + enc_u32(height) + enc_u32(index),
        CommandV::CreateTextureSurface { surface, index } => enc_u32(surface) + enc_u32(index),
        CommandV::LoadTexture { path, index } => enc_bytes(path) + enc_u32(index),
        CommandV::CopyRect { texture, src, dst } => enc_u32(texture) + enc_rect(src) + enc_rect(
            dst,
        ),
        CommandV::SetDisplayMode { width, height, rate, format } => enc_i32(width) + enc_i32(
            height,
        ) + enc_i32(rate) + enc_u32(format),
        CommandV::SetTitle { title } => enc_bytes(title),
        CommandV::SetIcon { icon } => enc_bytes(icon),
        CommandV::SetPosition { x, y } => enc_i32(x) + enc_i32(y),
        CommandV::SetSize { width, height } => enc_u32(width) + enc_u32(height),
        CommandV::SetMinimumSize { width, height } => enc_u32(width) + enc_u32(height),
        CommandV::Show => Seq::<u8>::empty(),
        CommandV::Hide => Seq::<u8>::empty(),
        CommandV::Raise => Seq::<u8>::empty(),
        CommandV::Maximize => Seq::<u8>::empty(),
        CommandV::Minimize => Seq::<u8>::empty(),
        CommandV::Restore => Seq::<u8>::empty(),
        CommandV::SetBrightness { brightness_bits } => enc_u64(brightness_bits),
        CommandV::SetOpacity { opacity_bits } => enc_u32(opacity_bits),
    }
}

pub open spec fn enc_cmd_fn() -> spec_fn(CommandV) -> Seq<u8> {
    |c: CommandV| enc_cmd(c)
}

/// The encoding of a whole batch.
pub open spec fn enc_cmd_batch(cs: Seq<CommandV>) -> Seq<u8>
    recommends
        wf_batch(cs),
{
    enc_list(cs, enc_cmd_fn())
}

/// The field chain of a text-rendering command, after its tag byte.
pub open spec fn dec_renderfont_fields(b1: Seq<u8>) -> Option<(CommandV, Seq<u8>)> {
    match dec_bytes(b1) {
        Option::None => Option::None,
        Option::Some((text, b2)) => match dec_fill(b2) {
            Option::None => Option::None,
            Option::Some((fill, b3)) => match dec_opt(b3, dec_optrect_fn()) {
                Option::None => Option::None,
                Option::Some((target, b4)) => match dec_bytes(b4) {
                    Option::None => Option::None,
                    Option::Some((path, b5)) => match dec_u16(b5) {
                        Option::None => Option::None,
                        Option::Some((size, b6)) => match dec_opt(b6, dec_style_fn()) {
                            Option::None => Option::None,
                            Option::Some((style, b7)) => Option::Some(
                                (
                                    CommandV::RenderFont { text, fill, target, path, size, style },
                                    b7,
                                ),
                            ),
                        },
                    },
                },
            },
        },
    }
}

/// The decoding of one command: reads the tag byte, dispatches on it, and
/// parses the variant's fields; fails on an unknown tag or truncated field.
pub open spec fn dec_cmd(b: Seq<u8>) -> Option<(CommandV, Seq<u8>)> {
    match dec_u8(b) {
        Option::None => Option::None,
        Option::Some((tag, b1)) => {
            if tag == 0 {
                Option::Some((CommandV::Present, b1))
            } else if tag == 1 {
                match dec_color(b1) {
                    Option::None => Option::None,
                    Option::Some((color, b2)) => Option::Some(
                        (CommandV::SetDrawColor { color }, b2),
                    ),
                }
            } else if tag == 2 {
                match dec_u32(b1) {
                    Option::None => Option::None,
                    Option::Some((x_bits, b2)) => match dec_u32(b2) {
                        Option::None => Option::None,
                        Option::Some((y_bits, b3)) => Option::Some(
                            (CommandV::SetScale { x_bits, y_bits }, b3),
                        ),
                    },
                }
            } else if tag == 3 {
                match dec_point(b1) {
                    Option::None => Option::None,
                    Option::Some((point, b2)) => Option::Some((CommandV::DrawPoint { point }, b2)),
                }
            } else if tag == 4 {
                match dec_list(b1, dec_point_fn()) {
                    Option::None => Option::None,
                    Option::Some((points, b2)) => Option::Some(
                        (CommandV::DrawPoints { points }, b2),
                    ),
                }
            } else if tag == 5 {
                match dec_point(b1) {
                    Option::None => Option::None,
                    Option::Some((p1, b2)) => match dec_point(b2) {
                        Option::None => Option::None,
                        Option::Some((p2, b3)) => Option::Some((CommandV::DrawLine { p1, p2 }, b3)),
                    },
                }
            } else if tag == 6 {
                match dec_list(b1, dec_point_fn()) {
                    Option::None => Option::None,
                    Option::Some((points, b2)) => Option::Some(
                        (CommandV::DrawLines { points }, b2),
                    ),
                }
            } else if tag == 7 {
                match dec_rect(b1) {
                    Option::None => Option::None,
                    Option::Some((rect, b2)) => Option::Some((CommandV::DrawRect { rect }, b2)),
                }
            } else if tag == 8 {
                match dec_list(b1, dec_rect_fn()) {
                    Option::None => Option::None,
                    Option::Some((rects, b2)) => Option::Some((CommandV::DrawRects { rects }, b2)),
                }
            } else if tag == 9 {
                match dec_rect(b1) {
                    Option::None => Option::None,
                    Option::Some((rect, b2)) => Option::Some((CommandV::FillRect { rect }, b2)),
                }
            } else if tag == 10 {
                match dec_list(b1, dec_rect_fn()) {
                    Option::None => Option::None,
                    Option::Some((rects, b2)) => Option::Some((CommandV::FillRects { rects }, b2)),
                }
            } else if tag == 11 {
                Option::Some((CommandV::Clear, b1))
            } else if tag == 12 {
                Option::Some((CommandV::Quit, b1))
            } else if tag == 13 {
                Option::Some((CommandV::Nop, b1))
            } else if tag == 14 {
                dec_renderfont_fields(b1)
            } else if tag == 15 {
                match dec_u32(b1) {
                    Option::None => Option::None,
                    Option::Some((index, b2)) => match dec_bytes(b2) {
                        Option::None => Option::None,
                        Option::Some((path, b3)) => Option::Some(
                            (CommandV::SetCursor { index, path }, b3),
                        ),
                    },
                }
            } else if tag == 16 {
                match dec_i32(b1) {
                    Option::None => Option::None,
                    Option::Some((frequency, b2)) => match dec_u16(b2) {
                        Option::None => Option::None,
                        Option::Some((format, b3)) => match dec_i32(b3) {
                            Option::None => Option::None,
                            Option::Some((channels, b4)) => match dec_i32(b4) {
                                Option::None => Option::None,
                                Option::Some((chunksize, b5)) => Option::Some(
                                    (
                                        CommandV::OpenAudio {
                                            frequency,
                                            format,
                                            channels,
                                            chunksize,
                                        },
                                        b5,
                                    ),
                                ),
                            },
                        },
                    },
                }
            } else if tag == 17 {
                match dec_bytes(b1) {
                    Option::None => Option::None,
                    Option::Some((path, b2)) => Option::Some((CommandV::PlayMusic { path }, b2)),
                }
            } else if tag == 18 {
                match dec_u32(b1) {
                    Option::None => Option::None,
                    Option::Some((width, b2)) => match dec_u32(b2) {
                        Option::None => Option::None,
                        Option::Some((height, b3)) => match dec_u32(b3) {
                            Option::None => Option::None,
                            Option::Some((format, b4)) => match dec_u32(b4) {
                                Option::None => Option::None,
                                Option::Some((index, b5)) => Option::Some(
                                    (CommandV::CreateSurface { width, height, format, index }, b5),
                                ),
                            },
                        },
                    },
                }
            } else if tag == 19 {
                match dec_bytes(b1) {
                    Option::None => Option::None,
                    Option::Some((path, b2)) => match dec_u32(b2) {
                        Option::None => Option::None,
                        Option::Some((index, b3)) => Option::Some(
                            (CommandV::CreateSurfaceBitmap { path, index }, b3),
                        ),
                    },
                }
            } else if tag == 20 {
                match dec_bytes(b1) {
                    Option::None => Option::None,
                    Option::Some((path, b2)) => match dec_u32(b2) {
                        Option::None => Option::None,
                        Option::Some((index, b3)) => Option::Some(
                            (CommandV::LoadSurface { path, index }, b3),
                        ),
                    },
                }
            } else if tag == 21 {
                match dec_opt(b1, dec_u32_fn()) {
                    Option::None => Option::None,
                    Option::Some((format, b2)) => match dec_u32(b2) {
                        Option::None => Option::None,
                        Option::Some((access, b3)) => match dec_u32(b3) {
                            Option::None => Option::None,
                            Option::Some((width, b4)) => match dec_u32(b4) {
                                Option::None => Option::None,
                                Option::Some((height, b5)) => match dec_u32(b5) {
                                    Option::None => Option::None,
                                    Option::Some((index, b6)) => Option::Some(
                                        (
                                            CommandV::CreateTexture {
                                                format,
                                                access,
                                                width,
                                                height,
                                                index,
                                            },
                                            b6,
                                        ),
                                    ),
                                },
                            },
                        },
                    },
                }
            } else if tag == 22 {
                match dec_u32(b1) {
                    Option::None => Option::None,
                    Option::Some((surface, b2)) => match dec_u32(b2) {
                        Option::None => Option::None,
                        Option::Some((index, b3)) => Option::Some(
                            (CommandV::CreateTextureSurface { surface, index }, b3),
                        ),
                    },
                }
            } else if tag == 23 {
                match dec_bytes(b1) {
                    Option::None => Option::None,
                    Option::Some((path, b2)) => match dec_u32(b2) {
                        Option::None => Option::None,
                        Option::Some((index, b3)) => Option::Some(
                            (CommandV::LoadTexture { path, index }, b3),
                        ),
                    },
                }
            } else if tag == 24 {
                match dec_u32(b1) {
                    Option::None => Option::None,
                    Option::Some((texture, b2)) => match dec_rect(b2) {
                        Option::None => Option::None,
                        Option::Some((src, b3)) => match dec_rect(b3) {
                            Option::None => Option::None,
                            Option::Some((dst, b4)) => Option::Some(
                                (CommandV::CopyRect { texture, src, dst }, b4),
                            ),
                        },
                    },
                }
            } else if tag == 25 {
                match dec_i32(b1) {
                    Option::None => Option::None,
                    Option::Some((width, b2)) => match dec_i32(b2) {
                        Option::None => Option::None,
                        Option::Some((height, b3)) => match dec_i32(b3) {
                            Option::None => Option::None,
                            Option::Some((rate, b4)) => match dec_u32(b4) {
                                Option::None => Option::None,
                                Option::Some((format, b5)) => Option::Some(
                                    (CommandV::SetDisplayMode { width, height, rate, format }, b5),
                                ),
                            },
                        },
                    },
                }
            } else if tag == 26 {
                match dec_bytes(b1) {
                    Option::None => Option::None,
                    Option::Some((title, b2)) => Option::Some((CommandV::SetTitle { title }, b2)),
                }
            } else if tag == 27 {
                match dec_bytes(b1) {
                    Option::None => Option::None,
                    Option::Some((icon, b2)) => Option::Some((CommandV::SetIcon { icon }, b2)),
                }
            } else if tag == 28 {
                match dec_i32(b1) {
                    Option::None => Option::None,
                    Option::Some((x, b2)) => match dec_i32(b2) {
                        Option::None => Option::None,
                        Option::Some((y, b3)) => Option::Some((CommandV::SetPosition { x, y }, b3)),
                    },
                }
            } else if tag == 29 {
                match dec_u32(b1) {
                    Option::None => Option::None,
                    Option::Some((width, b2)) => match dec_u32(b2) {
                        Option::None => Option::None,
                        Option::Some((height, b3)) => Option::Some(
                            (CommandV::SetSize { width, height }, b3),
                        ),
                    },
                }
            } else if tag == 30 {
                match dec_u32(b1) {
                    Option::None => Option::None,
                    Option::Some((width, b2)) => match dec_u32(b2) {
                        Option::None => Option::None,
                        Option::Some((height, b3)) => Option::Some(
                            (CommandV::SetMinimumSize { width, height }, b3),
                        ),
                    },
                }
            } else if tag == 31 {
                Option::Some((CommandV::Show, b1))
            } else if tag == 32 {
                Option::Some((CommandV::Hide, b1))
            } else if tag == 33 {
                Option::Some((CommandV::Raise, b1))
            } else if tag == 34 {
                Option::Some((CommandV::Maximize, b1))
            } else if tag == 35 {
                Option::Some((CommandV::Minimize, b1))
            } else if tag == 36 {
                Option::Some((CommandV::Restore, b1))
            } else if tag == 37 {
                match dec_u64(b1) {
                    Option::None => Option::None,
                    Option::Some((brightness_bits, b2)) => Option::Some(
                        (CommandV::SetBrightness { brightness_bits }, b2),
                    ),
                }
            } else if tag == 38 {
                match dec_u32(b1) {
                    Option::None => Option::None,
                    Option::Some((opacity_bits, b2)) => Option::Some(
                        (CommandV::SetOpacity { opacity_bits }, b2),
                    ),
                }
            } else {
                Option::None
            }
        },
    }
}

pub open spec fn dec_cmd_fn() -> spec_fn(Seq<u8>) -> Option<(CommandV, Seq<u8>)> {
    |bb: Seq<u8>| dec_cmd(bb)
}

/// The decoding of a whole payload: the batch it encodes, if it encodes one
/// with no bytes left over.
pub open spec fn dec_cmd_batch(b: Seq<u8>) -> Option<Seq<CommandV>> {
    match dec_list(b, dec_cmd_fn()) {
        Option::None => Option::None,
        Option::Some((cs, rest)) => if rest.len() == 0 {
            Option::Some(cs)
        } else {
            Option::None
        },
    }
}

// ---------------------------------------------------------------------------
// Sub-shape laws
// ---------------------------------------------------------------------------
pub proof fn lemma_enc_dec_color(c: CanvasColor, rest: Seq<u8>)
    ensures
        dec_color(enc_color(c) + rest) == Option::Some((c, rest)),
{
    assert((enc_color(c) + rest).skip(4) =~= rest);
}

pub proof fn lemma_dec_enc_color(b: Seq<u8>)
    ensures
        dec_color(b) matches Option::Some(p) ==> b == enc_color(p.0) + p.1 && p.1.len() + 4
            == b.len(),
{
    if b.len() >= 4 {
        assert(b =~= seq![b[0], b[1], b[2], b[3]] + b.skip(4));
    }
}

pub proof fn lemma_enc_dec_point(p: CanvasPoint, rest: Seq<u8>)
    ensures
        dec_point(enc_point(p) + rest) == Option::Some((p, rest)),
{
    assert(enc_point(p) + rest =~= enc_i32(p.x) + (enc_i32(p.y) + rest));
    crate::codec::lemma_enc_dec_i32(p.x, enc_i32(p.y) + rest);
    crate::codec::lemma_enc_dec_i32(p.y, rest);
}

pub proof fn lemma_dec_enc_point(b: Seq<u8>)
    ensures
        dec_point(b) matches Option::Some(p) ==> b == enc_point(p.0) + p.1 && p.1.len() < b.len(),
{
    crate::codec::lemma_dec_enc_i32(b);
    if dec_i32(b) is Some {
        let (x, b1) = dec_i32(b)->Some_0;
        crate::codec::lemma_dec_enc_i32(b1);
        if dec_i32(b1) is Some {
            let (y, b2) = dec_i32(b1)->Some_0;
            assert(b =~= (enc_i32(x) + enc_i32(y)) + b2);
        }
    }
}

pub proof fn lemma_enc_dec_rect(r: Rectangle, rest: Seq<u8>)
    ensures
        dec_rect(enc_rect(r) + rest) == Option::Some((r, rest)),
{
    let e2 = enc_i32(r.y);
    let e3 = enc_u32(r.width);
    let e4 = enc_u32(r.height);
    assert(enc_rect(r) + rest =~= enc_i32(r.x) + (e2 + (e3 + (e4 + rest))));
    crate::codec::lemma_enc_dec_i32(r.x, e2 + (e3 + (e4 + rest)));
    crate::codec::lemma_enc_dec_i32(r.y, e3 + (e4 + rest));
    crate::codec::lemma_enc_dec_u32(r.width, e4 + rest);
    crate::codec::lemma_enc_dec_u32(r.height, rest);
}

pub proof fn lemma_dec_enc_rect(b: Seq<u8>)
    ensures
        dec_rect(b) matches Option::Some(p) ==> b == enc_rect(p.0) + p.1 && p.1.len() < b.len(),
{
    crate::codec::lemma_dec_enc_i32(b);
    if dec_i32(b) is Some {
        let (x, b1) = dec_i32(b)->Some_0;
        crate::codec::lemma_dec_enc_i32(b1);
        if dec_i32(b1) is Some {
            let (y, b2) = dec_i32(b1)->Some_0;
            crate::codec::lemma_dec_enc_u32(b2);
            if dec_u32(b2) is Some {
                let (w, b3) = dec_u32(b2)->Some_0;
                crate::codec::lemma_dec_enc_u32(b3);
                if dec_u32(b3) is Some {
                    let (h, b4) = dec_u32(b3)->Some_0;
                    assert(b =~= ((enc_i32(x) + enc_i32(y)) + enc_u32(w) + enc_u32(h)) + b4);
                }
            }
        }
    }
}

pub proof fn lemma_enc_dec_optrect(t: OptionRectangle, rest: Seq<u8>)
    ensures
        dec_optrect(enc_optrect(t) + rest) == Option::Some((t, rest)),
{
    let e2 = enc_i32(t.y);
    let e3 = enc_opt(t.width, enc_u32_fn());
    let e4 = enc_opt(t.height, enc_u32_fn());
    assert(enc_optrect(t) + rest =~= enc_i32(t.x) + (e2 + (e3 + (e4 + rest))));
    crate::codec::lemma_enc_dec_i32(t.x, e2 + (e3 + (e4 + rest)));
    crate::codec::lemma_enc_dec_i32(t.y, e3 + (e4 + rest));
    assert forall|v: u32, r: Seq<u8>| #[trigger] dec_u32_fn()(enc_u32_fn()(v) + r)
        == Option::Some((v, r)) by {
        crate::codec::lemma_enc_dec_u32(v, r);
    }
    crate::codec::lemma_enc_dec_opt(t.width, e4 + rest, enc_u32_fn(), dec_u32_fn());
    crate::codec::lemma_enc_dec_opt(t.height, rest, enc_u32_fn(), dec_u32_fn());
}

pub proof fn lemma_dec_enc_optrect(b: Seq<u8>)
    ensures
        dec_optrect(b) matches Option::Some(p) ==> b == enc_optrect(p.0) + p.1 && p.1.len()
            < b.len(),
{
    assert forall|bb: Seq<u8>|
        (#[trigger] dec_u32_fn()(bb)) matches Option::Some(p) ==> bb == enc_u32_fn()(p.0) + p.1
            && p.1.len() < bb.len() by {
        crate::codec::lemma_dec_enc_u32(bb);
    }
    crate::codec::lemma_dec_enc_i32(b);
    if dec_i32(b) is Some {
        let (x, b1) = dec_i32(b)->Some_0;
        crate::codec::lemma_dec_enc_i32(b1);
        if dec_i32(b1) is Some {
            let (y, b2) = dec_i32(b1)->Some_0;
            crate::codec::lemma_dec_enc_opt(b2, enc_u32_fn(), dec_u32_fn());
            if dec_opt(b2, dec_u32_fn()) is Some {
                let (w, b3) = dec_opt(b2, dec_u32_fn())->Some_0;
                crate::codec::lemma_dec_enc_opt(b3, enc_u32_fn(), dec_u32_fn());
                if dec_opt(b3, dec_u32_fn()) is Some {
                    let (h, b4) = dec_opt(b3, dec_u32_fn())->Some_0;
                    assert(b =~= ((enc_i32(x) + enc_i32(y)) + enc_opt(w, enc_u32_fn()) + enc_opt(
                        h,
                        enc_u32_fn(),
                    )) + b4);
                }
            }
        }
    }
}

pub proof fn lemma_enc_dec_style(s: FontStyle, rest: Seq<u8>)
    ensures
        dec_style(enc_style(s) + rest) == Option::Some((s, rest)),
{
    assert((enc_style(s) + rest).skip(1) =~= rest);
}

pub proof fn lemma_dec_enc_style(b: Seq<u8>)
    ensures
        dec_style(b) matches Option::Some(p) ==> b == enc_style(p.0) + p.1 && p.1.len() < b.len(),
{
    if b.len() >= 1 && b[0] <= 4 {
        assert(b =~= seq![b[0]] + b.skip(1));
    }
}

pub proof fn lemma_enc_dec_fill(f: FontFill, rest: Seq<u8>)
    ensures
        dec_fill(enc_fill(f) + rest) == Option::Some((f, rest)),
{
    match f {
        FontFill::Solid { color } => {
            assert((enc_fill(f) + rest).skip(1) =~= enc_color(color) + rest);
            lemma_enc_dec_color(color, rest);
        },
        FontFill::Shaded { color, background } => {
            assert((enc_fill(f) + rest).skip(1) =~= enc_color(color) + (enc_color(background)
                + rest));
            lemma_enc_dec_color(color, enc_color(background) + rest);
            lemma_enc_dec_color(background, rest);
        },
        FontFill::Blended { color } => {
            assert((enc_fill(f) + rest).skip(1) =~= enc_color(color) + rest);
            lemma_enc_dec_color(color, rest);
        },
    }
}

pub proof fn lemma_dec_enc_fill(b: Seq<u8>)
    ensures
        dec_fill(b) matches Option::Some(p) ==> b == enc_fill(p.0) + p.1 && p.1.len() < b.len(),
{
    if b.len() >= 1 {
        let b1 = b.skip(1);
        lemma_dec_enc_color(b1);
        if b[0] == 0 || b[0] == 2 {
            if dec_color(b1) is Some {
                let (color, b2) = dec_color(b1)->Some_0;
                assert(b =~= (seq![b[0]] + enc_color(color)) + b2);
            }
        } else if b[0] == 1 {
            if dec_color(b1) is Some {
                let (color, b2) = dec_color(b1)->Some_0;
                lemma_dec_enc_color(b2);
                if dec_color(b2) is Some {
                    let (background, b3) = dec_color(b2)->Some_0;
                    assert(b =~= ((seq![b[0]] + enc_color(color)) + enc_color(background)) + b3);
                }
            }
        }
    }
}

pub proof fn lemma_opt_u32_complete(o: Option<u32>, rest: Seq<u8>)
    ensures
        dec_opt(enc_opt(o, enc_u32_fn()) + rest, dec_u32_fn()) == Option::Some((o, rest)),
{
    if o is Some {
        let v = o->0;
        assert forall|r: Seq<u8>| #[trigger] dec_u32_fn()(enc_u32_fn()(v) + r) == Option::Some(
            (v, r),
        ) by {
            crate::codec::lemma_enc_dec_u32(v, r);
        }
    }
    crate::codec::lemma_enc_dec_opt(o, rest, enc_u32_fn(), dec_u32_fn());
}

pub proof fn lemma_opt_u32_canonical(b: Seq<u8>)
    ensures
        dec_opt(b, dec_u32_fn()) matches Option::Some(p) ==> b == enc_opt(p.0, enc_u32_fn()) + p.1
            && p.1.len() < b.len(),
{
    assert forall|bb: Seq<u8>|
        (#[trigger] dec_u32_fn()(bb)) matches Option::Some(p) ==> bb == enc_u32_fn()(p.0) + p.1
            && p.1.len() < bb.len() by {
        crate::codec::lemma_dec_enc_u32(bb);
    }
    crate::codec::lemma_dec_enc_opt(b, enc_u32_fn(), dec_u32_fn());
}

pub proof fn lemma_opt_style_complete(o: Option<FontStyle>, rest: Seq<u8>)
    ensures
        dec_opt(enc_opt(o, enc_style_fn()) + rest, dec_style_fn()) == Option::Some((o, rest)),
{
    if o is Some {
        let v = o->0;
        assert forall|r: Seq<u8>| #[trigger] dec_style_fn()(enc_style_fn()(v) + r) == Option::Some(
            (v, r),
        ) by {
            lemma_enc_dec_style(v, r);
        }
    }
    crate::codec::lemma_enc_dec_opt(o, rest, enc_style_fn(), dec_style_fn());
}

pub proof fn lemma_opt_style_canonical(b: Seq<u8>)
    ensures
        dec_opt(b, dec_style_fn()) matches Option::Some(p) ==> b == enc_opt(p.0, enc_style_fn())
            + p.1 && p.1.len() < b.len(),
{
    assert forall|bb: Seq<u8>|
        (#[trigger] dec_style_fn()(bb)) matches Option::Some(p) ==> bb == enc_style_fn()(p.0)
            + p.1 && p.1.len() < bb.len() by {
        lemma_dec_enc_style(bb);
    }
    crate::codec::lemma_dec_enc_opt(b, enc_style_fn(), dec_style_fn());
}

pub proof fn lemma_opt_optrect_complete(o: Option<OptionRectangle>, rest: Seq<u8>)
    ensures
        dec_opt(enc_opt(o, enc_optrect_fn()) + rest, dec_optrect_fn()) == Option::Some((o, rest)),
{
    if o is Some {
        let v = o->0;
        assert forall|r: Seq<u8>| #[trigger] dec_optrect_fn()(enc_optrect_fn()(v) + r)
            == Option::Some((v, r)) by {
            lemma_enc_dec_optrect(v, r);
        }
    }
    crate::codec::lemma_enc_dec_opt(o, rest, enc_optrect_fn(), dec_optrect_fn());
}

pub proof fn lemma_opt_optrect_canonical(b: Seq<u8>)
    ensures
        dec_opt(b, dec_optrect_fn()) matches Option::Some(p) ==> b == enc_opt(
            p.0,
            enc_optrect_fn(),
        ) + p.1 && p.1.len() < b.len(),
{
    assert forall|bb: Seq<u8>|
        (#[trigger] dec_optrect_fn()(bb)) matches Option::Some(p) ==> bb == enc_optrect_fn()(p.0)
            + p.1 && p.1.len() < bb.len() by {
        lemma_dec_enc_optrect(bb);
    }
    crate::codec::lemma_dec_enc_opt(b, enc_optrect_fn(), dec_optrect_fn());
}

pub proof fn lemma_list_points_complete(points: Seq<CanvasPoint>, rest: Seq<u8>)
    requires
        points.len() < 0x1_0000_0000,
    ensures
        dec_list(enc_list(points, enc_point_fn()) + rest, dec_point_fn()) == Option::Some(
            (points, rest),
        ),
{
    assert forall|i: int, r: Seq<u8>| 0 <= i < points.len() implies #[trigger] dec_point_fn()(
        enc_point_fn()(points[i]) + r,
    ) == Option::Some((points[i], r)) by {
        lemma_enc_dec_point(points[i], r);
    }
    crate::codec::lemma_enc_dec_list(points, rest, enc_point_fn(), dec_point_fn());
}

pub open spec fn true_point_fn() -> spec_fn(CanvasPoint) -> bool {
    |p: CanvasPoint| true
}

pub open spec fn true_rect_fn() -> spec_fn(Rectangle) -> bool {
    |r: Rectangle| true
}

pub proof fn lemma_list_points_canonical(b: Seq<u8>)
    ensures
        dec_list(b, dec_point_fn()) matches Option::Some(p) ==> p.0.len() < 0x1_0000_0000 && b
            == enc_list(p.0, enc_point_fn()) + p.1 && p.1.len() < b.len(),
{
    assert forall|bb: Seq<u8>|
        (#[trigger] dec_point_fn()(bb)) matches Option::Some(p) ==> bb == enc_point_fn()(p.0)
            + p.1 && p.1.len() < bb.len() && true_point_fn()(p.0) by {
        lemma_dec_enc_point(bb);
    }
    crate::codec::lemma_dec_enc_list(b, enc_point_fn(), dec_point_fn(), true_point_fn());
}

pub proof fn lemma_list_rects_complete(rects: Seq<Rectangle>, rest: Seq<u8>)
    requires
        rects.len() < 0x1_0000_0000,
    ensures
        dec_list(enc_list(rects, enc_rect_fn()) + rest, dec_rect_fn()) == Option::Some(
            (rects, rest),
        ),
{
    assert forall|i: int, r: Seq<u8>| 0 <= i < rects.len() implies #[trigger] dec_rect_fn()(
        enc_rect_fn()(rects[i]) + r,
    ) == Option::Some((rects[i], r)) by {
        lemma_enc_dec_rect(rects[i], r);
    }
    crate::codec::lemma_enc_dec_list(rects, rest, enc_rect_fn(), dec_rect_fn());
}

pub proof fn lemma_list_rects_canonical(b: Seq<u8>)
    ensures
        dec_list(b, dec_rect_fn()) matches Option::Some(p) ==> p.0.len() < 0x1_0000_0000 && b
            == enc_list(p.0, enc_rect_fn()) + p.1 && p.1.len() < b.len(),
{
    assert forall|bb: Seq<u8>|
        (#[trigger] dec_rect_fn()(bb)) matches Option::Some(p) ==> bb == enc_rect_fn()(p.0) + p.1
            && p.1.len() < bb.len() && true_rect_fn()(p.0) by {
        lemma_dec_enc_rect(bb);
    }
    crate::codec::lemma_dec_enc_list(b, enc_rect_fn(), dec_rect_fn(), true_rect_fn());
}

// ---------------------------------------------------------------------------
// Command laws: completeness, one variant at a time
// ---------------------------------------------------------------------------
proof fn lemma_ed_nofield(c: CommandV, rest: Seq<u8>)
    requires
        c matches CommandV::Present || c matches CommandV::Clear || c matches CommandV::Quit
            || c matches CommandV::Nop || c matches CommandV::Show || c matches CommandV::Hide
            || c matches CommandV::Raise || c matches CommandV::Maximize
            || c matches CommandV::Minimize || c matches CommandV::Restore,
    ensures
        dec_cmd(enc_cmd(c) + rest) == Option::Some((c, rest)),
{
    assert(enc_cmd(c) + rest =~= seq![cmd_tag(c)] + rest);
    crate::codec::lemma_enc_dec_u8(cmd_tag(c), rest);
}

proof fn lemma_ed_setdrawcolor(c: CommandV, rest: Seq<u8>)
    requires
        c matches CommandV::SetDrawColor { .. },
    ensures
        dec_cmd(enc_cmd(c) + rest) == Option::Some((c, rest)),
{
    match c {
        CommandV::SetDrawColor { color } => {
            let t0 = enc_color(color) + rest;
            assert(enc_cmd(c) + rest =~= seq![1u8] + t0);
            crate::codec::lemma_enc_dec_u8(1u8, t0);
            lemma_enc_dec_color(color, rest);
        },
        _ => {},
    }
}

proof fn lemma_ed_setscale(c: CommandV, rest: Seq<u8>)
    requires
        c matches CommandV::SetScale { .. },
    ensures
        dec_cmd(enc_cmd(c) + rest) == Option::Some((c, rest)),
{
    match c {
        CommandV::SetScale { x_bits, y_bits } => {
            let t1 = enc_u32(y_bits) + rest;
            let t0 = enc_u32(x_bits) + t1;
            assert(enc_cmd(c) + rest =~= seq![2u8] + t0);
            crate::codec::lemma_enc_dec_u8(2u8, t0);
            crate::codec::lemma_enc_dec_u32(x_bits, t1);
            crate::codec::lemma_enc_dec_u32(y_bits, rest);
        },
        _ => {},
    }
}

proof fn lemma_ed_drawpoint(c: CommandV, rest: Seq<u8>)
    requires
        c matches CommandV::DrawPoint { .. },
    ensures
        dec_cmd(enc_cmd(c) + rest) == Option::Some((c, rest)),
{
    match c {
        CommandV::DrawPoint { point } => {
            let t0 = enc_point(point) + rest;
            assert(enc_cmd(c) + rest =~= seq![3u8] + t0);
            crate::codec::lemma_enc_dec_u8(3u8, t0);
            lemma_enc_dec_point(point, rest);
        },
        _ => {},
    }
}

proof fn lemma_ed_pointlists(c: CommandV, rest: Seq<u8>)
    requires
        wf_cmd(c),
        c matches CommandV::DrawPoints { .. } || c matches CommandV::DrawLines { .. },
    ensures
        dec_cmd(enc_cmd(c) + rest) == Option::Some((c, rest)),
{
    match c {
        CommandV::DrawPoints { points } | CommandV::DrawLines { points } => {
            let t0 = enc_list(points, enc_point_fn()) + rest;
            assert(enc_cmd(c) + rest =~= seq![cmd_tag(c)] + t0);
            crate::codec::lemma_enc_dec_u8(cmd_tag(c), t0);
            lemma_list_points_complete(points, rest);
        },
        _ => {},
    }
}

proof fn lemma_ed_drawline(c: CommandV, rest: Seq<u8>)
    requires
        c matches CommandV::DrawLine { .. },
    ensures
        dec_cmd(enc_cmd(c) + rest) == Option::Some((c, rest)),
{
    match c {
        CommandV::DrawLine { p1, p2 } => {
            let t1 = enc_point(p2) + rest;
            let t0 = enc_point(p1) + t1;
            assert(enc_cmd(c) + rest =~= seq![5u8] + t0);
            crate::codec::lemma_enc_dec_u8(5u8, t0);
            lemma_enc_dec_point(p1, t1);
            lemma_enc_dec_point(p2, rest);
        },
        _ => {},
    }
}

proof fn lemma_ed_rects(c: CommandV, rest: Seq<u8>)
    requires
        c matches CommandV::DrawRect { .. } || c matches CommandV::FillRect { .. },
    ensures
        dec_cmd(enc_cmd(c) + rest) == Option::Some((c, rest)),
{
    match c {
        CommandV::DrawRect { rect } | CommandV::FillRect { rect } => {
            let t0 = enc_rect(rect) + rest;
            assert(enc_cmd(c) + rest =~= seq![cmd_tag(c)] + t0);
            crate::codec::lemma_enc_dec_u8(cmd_tag(c), t0);
            lemma_enc_dec_rect(rect, rest);
        },
        _ => {},
    }
}

proof fn lemma_ed_rectlists(c: CommandV, rest: Seq<u8>)
    requires
        wf_cmd(c),
        c matches CommandV::DrawRects { .. } || c matches CommandV::FillRects { .. },
    ensures
        dec_cmd(enc_cmd(c) + rest) == Option::Some((c, rest)),
{
    match c {
        CommandV::DrawRects { rects } | CommandV::FillRects { rects } => {
            let t0 = enc_list(rects, enc_rect_fn()) + rest;
            assert(enc_cmd(c) + rest =~= seq![cmd_tag(c)] + t0);
            crate::codec::lemma_enc_dec_u8(cmd_tag(c), t0);
            lemma_list_rects_complete(rects, rest);
        },
        _ => {},
    }
}

#[verifier::rlimit(100)]
proof fn lemma_ed_renderfont(c: CommandV, rest: Seq<u8>)
    requires
        wf_cmd(c),
        c matches CommandV::RenderFont { .. },
    ensures
        dec_cmd(enc_cmd(c) + rest) == Option::Some((c, rest)),
{
    match c {
        CommandV::RenderFont { text, fill, target, path, size, style } => {
            let t5 = enc_opt(style, enc_style_fn()) + rest;
            let t4 = enc_u16(size) + t5;
            let t3 = enc_bytes(path) + t4;
            let t2 = enc_opt(target, enc_optrect_fn()) + t3;
            let t1 = enc_fill(fill) + t2;
            let t0 = enc_bytes(text) + t1;
            assert(enc_cmd(c) + rest =~= seq![14u8] + t0);
            crate::codec::lemma_enc_dec_u8(14u8, t0);
            crate::codec::lemma_enc_dec_bytes(text, t1);
            lemma_enc_dec_fill(fill, t2);
            lemma_opt_optrect_complete(target, t3);
            crate::codec::lemma_enc_dec_bytes(path, t4);
            crate::codec::lemma_enc_dec_u16(size, t5);
            lemma_opt_style_complete(style, rest);
        },
        _ => {},
    }
}

proof fn lemma_ed_setcursor(c: CommandV, rest: Seq<u8>)
    requires
        wf_cmd(c),
        c matches CommandV::SetCursor { .. },
    ensures
        dec_cmd(enc_cmd(c) + rest) == Option::Some((c, rest)),
{
    match c {
        CommandV::SetCursor { index, path } => {
            let t1 = enc_bytes(path) + rest;
            let t0 = enc_u32(index) + t1;
            assert(enc_cmd(c) + rest =~= seq![15u8] + t0);
            crate::codec::lemma_enc_dec_u8(15u8, t0);
            crate::codec::lemma_enc_dec_u32(index, t1);
            crate::codec::lemma_enc_dec_bytes(path, rest);
        },
        _ => {},
    }
}

proof fn lemma_ed_openaudio(c: CommandV, rest: Seq<u8>)
    requires
        c matches CommandV::OpenAudio { .. },
    ensures
        dec_cmd(enc_cmd(c) + rest) == Option::Some((c, rest)),
{
    match c {
        CommandV::OpenAudio { frequency, format, channels, chunksize } => {
            let t3 = enc_i32(chunksize) + rest;
            let t2 = enc_i32(channels) + t3;
            let t1 = enc_u16(format) + t2;
            let t0 = enc_i32(frequency) + t1;
            assert(enc_cmd(c) + rest =~= seq![16u8] + t0);
            crate::codec::lemma_enc_dec_u8(16u8, t0);
            crate::codec::lemma_enc_dec_i32(frequency, t1);
            crate::codec::lemma_enc_dec_u16(format, t2);
            crate::codec::lemma_enc_dec_i32(channels, t3);
            crate::codec::lemma_enc_dec_i32(chunksize, rest);
        },
        _ => {},
    }
}

#[verifier::rlimit(100)]
proof fn lemma_ed_pathonly(c: CommandV, rest: Seq<u8>)
    requires
        wf_cmd(c),
        c matches CommandV::PlayMusic { .. } || c matches CommandV::SetTitle { .. }
            || c matches CommandV::SetIcon { .. },
    ensures
        dec_cmd(enc_cmd(c) + rest) == Option::Some((c, rest)),
{
    match c {
        CommandV::PlayMusic { path } => {
            let t0 = enc_bytes(path) + rest;
            assert(enc_cmd(c) + rest =~= seq![17u8] + t0);
            crate::codec::lemma_enc_dec_u8(17u8, t0);
            crate::codec::lemma_enc_dec_bytes(path, rest);
        },
        CommandV::SetTitle { title } => {
            let t0 = enc_bytes(title) + rest;
            assert(enc_cmd(c) + rest =~= seq![26u8] + t0);
            crate::codec::lemma_enc_dec_u8(26u8, t0);
            crate::codec::lemma_enc_dec_bytes(title, rest);
        },
        CommandV::SetIcon { icon } => {
            let t0 = enc_bytes(icon) + rest;
            assert(enc_cmd(c) + rest =~= seq![27u8] + t0);
            crate::codec::lemma_enc_dec_u8(27u8, t0);
            crate::codec::lemma_enc_dec_bytes(icon, rest);
        },
        _ => {},
    }
}

proof fn lemma_ed_createsurface(c: CommandV, rest: Seq<u8>)
    requires
        c matches CommandV::CreateSurface { .. },
    ensures
        dec_cmd(enc_cmd(c) + rest) == Option::Some((c, rest)),
{
    match c {
        CommandV::CreateSurface { width, height, format, index } => {
            let t3 = enc_u32(index) + rest;
            let t2 = enc_u32(format) + t3;
            let t1 = enc_u32(height) + t2;
            let t0 = enc_u32(width) + t1;
            assert(enc_cmd(c) + rest =~= seq![18u8] + t0);
            crate::codec::lemma_enc_dec_u8(18u8, t0);
            crate::codec::lemma_enc_dec_u32(width, t1);
            crate::codec::lemma_enc_dec_u32(height, t2);
            crate::codec::lemma_enc_dec_u32(format, t3);
            crate::codec::lemma_enc_dec_u32(index, rest);
        },
        _ => {},
    }
}

proof fn lemma_ed_pathindex(c: CommandV, rest: Seq<u8>)
    requires
        wf_cmd(c),
        c matches CommandV::CreateSurfaceBitmap { .. } || c matches CommandV::LoadSurface { .. }
            || c matches CommandV::LoadTexture { .. },
    ensures
        dec_cmd(enc_cmd(c) + rest) == Option::Some((c, rest)),
{
    match c {
        CommandV::CreateSurfaceBitmap { path, index } | CommandV::LoadSurface { path, index }
            | CommandV::LoadTexture { path, index } => {
            let t1 = enc_u32(index) + rest;
            let t0 = enc_bytes(path) + t1;
            assert(enc_cmd(c) + rest =~= seq![cmd_tag(c)] + t0);
            crate::codec::lemma_enc_dec_u8(cmd_tag(c), t0);
            crate::codec::lemma_enc_dec_bytes(path, t1);
            crate::codec::lemma_enc_dec_u32(index, rest);
        },
        _ => {},
    }
}

proof fn lemma_ed_createtexture(c: CommandV, rest: Seq<u8>)
    requires
        c matches CommandV::CreateTexture { .. },
    ensures
        dec_cmd(enc_cmd(c) + rest) == Option::Some((c, rest)),
{
    match c {
        CommandV::CreateTexture { format, access, width, height, index } => {
            let t4 = enc_u32(index) + rest;
            let t3 = enc_u32(height) + t4;
            let t2 = enc_u32(width) + t3;
            let t1 = enc_u32(access) + t2;
            let t0 = enc_opt(format, enc_u32_fn()) + t1;
            assert(enc_cmd(c) + rest =~= seq![21u8] + t0);
            crate::codec::lemma_enc_dec_u8(21u8, t0);
            lemma_opt_u32_complete(format, t1);
            crate::codec::lemma_enc_dec_u32(access, t2);
            crate::codec::lemma_enc_dec_u32(width, t3);
            crate::codec::lemma_enc_dec_u32(height, t4);
            crate::codec::lemma_enc_dec_u32(index, rest);
        },
        _ => {},
    }
}

proof fn lemma_ed_u32pair(c: CommandV, rest: Seq<u8>)
    requires
        c matches CommandV::CreateTextureSurface { .. } || c matches CommandV::SetSize { .. }
            || c matches CommandV::SetMinimumSize { .. },
    ensures
        dec_cmd(enc_cmd(c) + rest) == Option::Some((c, rest)),
{
    match c {
        CommandV::CreateTextureSurface { surface, index } => {
            let t1 = enc_u32(index) + rest;
            let t0 = enc_u32(surface) + t1;
            assert(enc_cmd(c) + rest =~= seq![22u8] + t0);
            crate::codec::lemma_enc_dec_u8(22u8, t0);
            crate::codec::lemma_enc_dec_u32(surface, t1);
            crate::codec::lemma_enc_dec_u32(index, rest);
        },
        CommandV::SetSize { width, height } | CommandV::SetMinimumSize { width, height } => {
            let t1 = enc_u32(height) + rest;
            let t0 = enc_u32(width) + t1;
            assert(enc_cmd(c) + rest =~= seq![cmd_tag(c)] + t0);
            crate::codec::lemma_enc_dec_u8(cmd_tag(c), t0);
            crate::codec::lemma_enc_dec_u32(width, t1);
            crate::codec::lemma_enc_dec_u32(height, rest);
        },
        _ => {},
    }
}

proof fn lemma_ed_copyrect(c: CommandV, rest: Seq<u8>)
    requires
        c matches CommandV::CopyRect { .. },
    ensures
        dec_cmd(enc_cmd(c) + rest) == Option::Some((c, rest)),
{
    match c {
        CommandV::CopyRect { texture, src, dst } => {
            let t2 = enc_rect(dst) + rest;
            let t1 = enc_rect(src) + t2;
            let t0 = enc_u32(texture) + t1;
            assert(enc_cmd(c) + rest =~= seq![24u8] + t0);
            crate::codec::lemma_enc_dec_u8(24u8, t0);
            crate::codec::lemma_enc_dec_u32(texture, t1);
            lemma_enc_dec_rect(src, t2);
            lemma_enc_dec_rect(dst, rest);
        },
        _ => {},
    }
}

proof fn lemma_ed_displaymode(c: CommandV, rest: Seq<u8>)
    requires
        c matches CommandV::SetDisplayMode { .. },
    ensures
        dec_cmd(enc_cmd(c) + rest) == Option::Some((c, rest)),
{
    match c {
        CommandV::SetDisplayMode { width, height, rate, format } => {
            let t3 = enc_u32(format) + rest;
            let t2 = enc_i32(rate) + t3;
            let t1 = enc_i32(height) + t2;
            let t0 = enc_i32(width) + t1;
            assert(enc_cmd(c) + rest =~= seq![25u8] + t0);
            crate::codec::lemma_enc_dec_u8(25u8, t0);
            crate::codec::lemma_enc_dec_i32(width, t1);
            crate::codec::lemma_enc_dec_i32(height, t2);
            crate::codec::lemma_enc_dec_i32(rate, t3);
            crate::codec::lemma_enc_dec_u32(format, rest);
        },
        _ => {},
    }
}

proof fn lemma_ed_setposition(c: CommandV, rest: Seq<u8>)
    requires
        c matches CommandV::SetPosition { .. },
    ensures
        dec_cmd(enc_cmd(c) + rest) == Option::Some((c, rest)),
{
    match c {
        CommandV::SetPosition { x, y } => {
            let t1 = enc_i32(y) + rest;
            let t0 = enc_i32(x) + t1;
            assert(enc_cmd(c) + rest =~= seq![28u8] + t0);
            crate::codec::lemma_enc_dec_u8(28u8, t0);
            crate::codec::lemma_enc_dec_i32(x, t1);
            crate::codec::lemma_enc_dec_i32(y, rest);
        },
        _ => {},
    }
}

proof fn lemma_ed_brightness_opacity(c: CommandV, rest: Seq<u8>)
    requires
        c matches CommandV::SetBrightness { .. } || c matches CommandV::SetOpacity { .. },
    ensures
        dec_cmd(enc_cmd(c) + rest) == Option::Some((c, rest)),
{
    match c {
        CommandV::SetBrightness { brightness_bits } => {
            let t0 = enc_u64(brightness_bits) + rest;
            assert(enc_cmd(c) + rest =~= seq![37u8] + t0);
            crate::codec::lemma_enc_dec_u8(37u8, t0);
            crate::codec::lemma_enc_dec_u64(brightness_bits, rest);
        },
        CommandV::SetOpacity { opacity_bits } => {
            let t0 = enc_u32(opacity_bits) + rest;
            assert(enc_cmd(c) + rest =~= seq![38u8] + t0);
            crate::codec::lemma_enc_dec_u8(38u8, t0);
            crate::codec::lemma_enc_dec_u32(opacity_bits, rest);
        },
        _ => {},
    }
}

/// Decoding the encoding of a well-formed command, with anything after it,
/// yields the command and leaves exactly the trailing part unread.
pub proof fn lemma_enc_dec_cmd(c: CommandV, rest: Seq<u8>)
    requires
        wf_cmd(c),
    ensures
        dec_cmd(enc_cmd(c) + rest) == Option::Some((c, rest)),
{
    match c {
        CommandV::Present | CommandV::Clear | CommandV::Quit | CommandV::Nop | CommandV::Show
            | CommandV::Hide | CommandV::Raise | CommandV::Maximize | CommandV::Minimize
            | CommandV::Restore => lemma_ed_nofield(c, rest),
        CommandV::SetDrawColor { .. } => lemma_ed_setdrawcolor(c, rest),
        CommandV::SetScale { .. } => lemma_ed_setscale(c, rest),
        CommandV::DrawPoint { .. } => lemma_ed_drawpoint(c, rest),
        CommandV::DrawPoints { .. } | CommandV::DrawLines { .. } => lemma_ed_pointlists(c, rest),
        CommandV::DrawLine { .. } => lemma_ed_drawline(c, rest),
        CommandV::DrawRect { .. } | CommandV::FillRect { .. } => lemma_ed_rects(c, rest),
        CommandV::DrawRects { .. } | CommandV::FillRects { .. } => lemma_ed_rectlists(c, rest),
        CommandV::RenderFont { .. } => lemma_ed_renderfont(c, rest),
        CommandV::SetCursor { .. } => lemma_ed_setcursor(c, rest),
        CommandV::OpenAudio { .. } => lemma_ed_openaudio(c, rest),
        CommandV::PlayMusic { .. } | CommandV::SetTitle { .. } | CommandV::SetIcon { .. } => {
            lemma_ed_pathonly(c, rest)
        },
        CommandV::CreateSurface { .. } => lemma_ed_createsurface(c, rest),
        CommandV::CreateSurfaceBitmap { .. } | CommandV::LoadSurface { .. }
            | CommandV::LoadTexture { .. } => lemma_ed_pathindex(c, rest),
        CommandV::CreateTexture { .. } => lemma_ed_createtexture(c, rest),
        CommandV::CreateTextureSurface { .. } | CommandV::SetSize { .. }
            | CommandV::SetMinimumSize { .. } => lemma_ed_u32pair(c, rest),
        CommandV::CopyRect { .. } => lemma_ed_copyrect(c, rest),
        CommandV::SetDisplayMode { .. } => lemma_ed_displaymode(c, rest),
        CommandV::SetPosition { .. } => lemma_ed_setposition(c, rest),
        CommandV::SetBrightness { .. } | CommandV::SetOpacity { .. } => {
            lemma_ed_brightness_opacity(c, rest)
        },
    }
}


// ---------------------------------------------------------------------------
// Command laws: canonicity, one tag at a time
// ---------------------------------------------------------------------------
proof fn lemma_de_nofield(b: Seq<u8>, tag: u8, b1: Seq<u8>)
    requires
        dec_u8(b) == Option::Some((tag, b1)),
        tag == 0 || tag == 11 || tag == 12 || tag == 13 || tag == 31 || tag == 32 || tag == 33
            || tag == 34 || tag == 35 || tag == 36,
    ensures
        dec_cmd(b) matches Option::Some(p) ==> wf_cmd(p.0) && b == enc_cmd(p.0) + p.1 && p.1.len()
            < b.len(),
{
    crate::codec::lemma_dec_enc_u8(b);
    if tag == 0 {
        assert(enc_cmd(CommandV::Present) + b1 =~= seq![tag] + b1);
    } else if tag == 11 {
        assert(enc_cmd(CommandV::Clear) + b1 =~= seq![tag] + b1);
    } else if tag == 12 {
        assert(enc_cmd(CommandV::Quit) + b1 =~= seq![tag] + b1);
    } else if tag == 13 {
        assert(enc_cmd(CommandV::Nop) + b1 =~= seq![tag] + b1);
    } else if tag == 31 {
        assert(enc_cmd(CommandV::Show) + b1 =~= seq![tag] + b1);
    } else if tag == 32 {
        assert(enc_cmd(CommandV::Hide) + b1 =~= seq![tag] + b1);
    } else if tag == 33 {
        assert(enc_cmd(CommandV::Raise) + b1 =~= seq![tag] + b1);
    } else if tag == 34 {
        assert(enc_cmd(CommandV::Maximize) + b1 =~= seq![tag] + b1);
    } else if tag == 35 {
        assert(enc_cmd(CommandV::Minimize) + b1 =~= seq![tag] + b1);
    } else {
        assert(enc_cmd(CommandV::Restore) + b1 =~= seq![tag] + b1);
    }
}

proof fn lemma_de_setdrawcolor(b: Seq<u8>, b1: Seq<u8>)
    requires
        dec_u8(b) == Option::Some((1u8, b1)),
    ensures
        dec_cmd(b) matches Option::Some(p) ==> wf_cmd(p.0) && b == enc_cmd(p.0) + p.1 && p.1.len()
            < b.len(),
{
    crate::codec::lemma_dec_enc_u8(b);
    lemma_dec_enc_color(b1);
    if dec_color(b1) is Some {
        let (color, b2) = dec_color(b1)->Some_0;
        assert(b =~= (seq![1u8] + enc_color(color)) + b2);
    }
}

proof fn lemma_de_u32pair(b: Seq<u8>, tag: u8, b1: Seq<u8>)
    requires
        dec_u8(b) == Option::Some((tag, b1)),
        tag == 2 || tag == 22 || tag == 29 || tag == 30,
    ensures
        dec_cmd(b) matches Option::Some(p) ==> wf_cmd(p.0) && b == enc_cmd(p.0) + p.1 && p.1.len()
            < b.len(),
{
    crate::codec::lemma_dec_enc_u8(b);
    crate::codec::lemma_dec_enc_u32(b1);
    if dec_u32(b1) is Some {
        let (x, b2) = dec_u32(b1)->Some_0;
        crate::codec::lemma_dec_enc_u32(b2);
        if dec_u32(b2) is Some {
            let (y, b3) = dec_u32(b2)->Some_0;
            assert(b =~= (seq![tag] + (enc_u32(x) + enc_u32(y))) + b3);
        }
    }
}

proof fn lemma_de_drawpoint(b: Seq<u8>, b1: Seq<u8>)
    requires
        dec_u8(b) == Option::Some((3u8, b1)),
    ensures
        dec_cmd(b) matches Option::Some(p) ==> wf_cmd(p.0) && b == enc_cmd(p.0) + p.1 && p.1.len()
            < b.len(),
{
    crate::codec::lemma_dec_enc_u8(b);
    lemma_dec_enc_point(b1);
    if dec_point(b1) is Some {
        let (point, b2) = dec_point(b1)->Some_0;
        assert(b =~= (seq![3u8] + enc_point(point)) + b2);
    }
}

proof fn lemma_de_pointlists(b: Seq<u8>, tag: u8, b1: Seq<u8>)
    requires
        dec_u8(b) == Option::Some((tag, b1)),
        tag == 4 || tag == 6,
    ensures
        dec_cmd(b) matches Option::Some(p) ==> wf_cmd(p.0) && b == enc_cmd(p.0) + p.1 && p.1.len()
            < b.len(),
{
    crate::codec::lemma_dec_enc_u8(b);
    lemma_list_points_canonical(b1);
    if dec_list(b1, dec_point_fn()) is Some {
        let (points, b2) = dec_list(b1, dec_point_fn())->Some_0;
        assert(b =~= (seq![tag] + enc_list(points, enc_point_fn())) + b2);
    }
}

proof fn lemma_de_drawline(b: Seq<u8>, b1: Seq<u8>)
    requires
        dec_u8(b) == Option::Some((5u8, b1)),
    ensures
        dec_cmd(b) matches Option::Some(p) ==> wf_cmd(p.0) && b == enc_cmd(p.0) + p.1 && p.1.len()
            < b.len(),
{
    crate::codec::lemma_dec_enc_u8(b);
    lemma_dec_enc_point(b1);
    if dec_point(b1) is Some {
        let (p1, b2) = dec_point(b1)->Some_0;
        lemma_dec_enc_point(b2);
        if dec_point(b2) is Some {
            let (p2, b3) = dec_point(b2)->Some_0;
            assert(b =~= (seq![5u8] + (enc_point(p1) + enc_point(p2))) + b3);
        }
    }
}

proof fn lemma_de_rects(b: Seq<u8>, tag: u8, b1: Seq<u8>)
    requires
        dec_u8(b) == Option::Some((tag, b1)),
        tag == 7 || tag == 9,
    ensures
        dec_cmd(b) matches Option::Some(p) ==> wf_cmd(p.0) && b == enc_cmd(p.0) + p.1 && p.1.len()
            < b.len(),
{
    crate::codec::lemma_dec_enc_u8(b);
    lemma_dec_enc_rect(b1);
    if dec_rect(b1) is Some {
        let (rect, b2) = dec_rect(b1)->Some_0;
        assert(b =~= (seq![tag] + enc_rect(rect)) + b2);
    }
}

proof fn lemma_de_rectlists(b: Seq<u8>, tag: u8, b1: Seq<u8>)
    requires
        dec_u8(b) == Option::Some((tag, b1)),
        tag == 8 || tag == 10,
    ensures
        dec_cmd(b) matches Option::Some(p) ==> wf_cmd(p.0) && b == enc_cmd(p.0) + p.1 && p.1.len()
            < b.len(),
{
    crate::codec::lemma_dec_enc_u8(b);
    lemma_list_rects_canonical(b1);
    if dec_list(b1, dec_rect_fn()) is Some {
        let (rects, b2) = dec_list(b1, dec_rect_fn())->Some_0;
        assert(b =~= (seq![tag] + enc_list(rects, enc_rect_fn())) + b2);
    }
}

proof fn lemma_assemble_renderfont(
    b1: Seq<u8>,
    b2: Seq<u8>,
    b3: Seq<u8>,
    b4: Seq<u8>,
    b5: Seq<u8>,
    b6: Seq<u8>,
    b7: Seq<u8>,
    text: Seq<u8>,
    fill: FontFill,
    target: Option<OptionRectangle>,
    path: Seq<u8>,
    size: u16,
    style: Option<FontStyle>,
)
    requires
        b1 == enc_bytes(text) + b2,
        b2 == enc_fill(fill) + b3,
        b3 == enc_opt(target, enc_optrect_fn()) + b4,
        b4 == enc_bytes(path) + b5,
        b5 == enc_u16(size) + b6,
        b6 == enc_opt(style, enc_style_fn()) + b7,
    ensures
        seq![14u8] + b1 == (seq![14u8] + (enc_bytes(text) + enc_fill(fill) + enc_opt(
            target,
            enc_optrect_fn(),
        ) + enc_bytes(path) + enc_u16(size) + enc_opt(style, enc_style_fn()))) + b7,
{
    let s6 = enc_opt(style, enc_style_fn());
    let s5 = enc_u16(size) + s6;
    assert(b5 =~= s5 + b7);
    let s4 = enc_bytes(path) + s5;
    assert(b4 =~= s4 + b7);
    let s3 = enc_opt(target, enc_optrect_fn()) + s4;
    assert(b3 =~= s3 + b7);
    let s2 = enc_fill(fill) + s3;
    assert(b2 =~= s2 + b7);
    let s1 = enc_bytes(text) + s2;
    assert(b1 =~= s1 + b7);
    let whole = enc_bytes(text) + enc_fill(fill) + enc_opt(target, enc_optrect_fn()) + enc_bytes(
        path,
    ) + enc_u16(size) + enc_opt(style, enc_style_fn());
    assert(whole =~= s1);
    assert(seq![14u8] + b1 =~= (seq![14u8] + whole) + b7);
}

#[verifier::rlimit(100)]
proof fn lemma_de_renderfont_fields(b1: Seq<u8>)
    ensures
        dec_renderfont_fields(b1) matches Option::Some(p) ==> wf_cmd(p.0) && seq![14u8] + b1
            == enc_cmd(p.0) + p.1 && p.1.len() < b1.len(),
{
    crate::codec::lemma_dec_enc_bytes(b1);
    if dec_bytes(b1) is Some {
        let (text, b2) = dec_bytes(b1)->Some_0;
        lemma_dec_enc_fill(b2);
        if dec_fill(b2) is Some {
            let (fill, b3) = dec_fill(b2)->Some_0;
            lemma_opt_optrect_canonical(b3);
            if dec_opt(b3, dec_optrect_fn()) is Some {
                let (target, b4) = dec_opt(b3, dec_optrect_fn())->Some_0;
                crate::codec::lemma_dec_enc_bytes(b4);
                if dec_bytes(b4) is Some {
                    let (path, b5) = dec_bytes(b4)->Some_0;
                    crate::codec::lemma_dec_enc_u16(b5);
                    if dec_u16(b5) is Some {
                        let (size, b6) = dec_u16(b5)->Some_0;
                        lemma_opt_style_canonical(b6);
                        if dec_opt(b6, dec_style_fn()) is Some {
                            let (style, b7) = dec_opt(b6, dec_style_fn())->Some_0;
                            lemma_assemble_renderfont(
                                b1,
                                b2,
                                b3,
                                b4,
                                b5,
                                b6,
                                b7,
                                text,
                                fill,
                                target,
                                path,
                                size,
                                style,
                            );
                        }
                    }
                }
            }
        }
    }
}

proof fn lemma_de_renderfont(b: Seq<u8>, b1: Seq<u8>)
    requires
        dec_u8(b) == Option::Some((14u8, b1)),
    ensures
        dec_cmd(b) matches Option::Some(p) ==> wf_cmd(p.0) && b == enc_cmd(p.0) + p.1 && p.1.len()
            < b.len(),
{
    crate::codec::lemma_dec_enc_u8(b);
    lemma_de_renderfont_fields(b1);
    assert(b =~= seq![14u8] + b1);
}

proof fn lemma_de_setcursor(b: Seq<u8>, b1: Seq<u8>)
    requires
        dec_u8(b) == Option::Some((15u8, b1)),
    ensures
        dec_cmd(b) matches Option::Some(p) ==> wf_cmd(p.0) && b == enc_cmd(p.0) + p.1 && p.1.len()
            < b.len(),
{
    crate::codec::lemma_dec_enc_u8(b);
    crate::codec::lemma_dec_enc_u32(b1);
    if dec_u32(b1) is Some {
        let (index, b2) = dec_u32(b1)->Some_0;
        crate::codec::lemma_dec_enc_bytes(b2);
        if dec_bytes(b2) is Some {
            let (path, b3) = dec_bytes(b2)->Some_0;
            assert(b =~= (seq![15u8] + (enc_u32(index) + enc_bytes(path))) + b3);
        }
    }
}

proof fn lemma_de_openaudio(b: Seq<u8>, b1: Seq<u8>)
    requires
        dec_u8(b) == Option::Some((16u8, b1)),
    ensures
        dec_cmd(b) matches Option::Some(p) ==> wf_cmd(p.0) && b == enc_cmd(p.0) + p.1 && p.1.len()
            < b.len(),
{
    crate::codec::lemma_dec_enc_u8(b);
    crate::codec::lemma_dec_enc_i32(b1);
    if dec_i32(b1) is Some {
        let (frequency, b2) = dec_i32(b1)->Some_0;
        crate::codec::lemma_dec_enc_u16(b2);
        if dec_u16(b2) is Some {
            let (format, b3) = dec_u16(b2)->Some_0;
            crate::codec::lemma_dec_enc_i32(b3);
            if dec_i32(b3) is Some {
                let (channels, b4) = dec_i32(b3)->Some_0;
                crate::codec::lemma_dec_enc_i32(b4);
                if dec_i32(b4) is Some {
                    let (chunksize, b5) = dec_i32(b4)->Some_0;
                    assert(b =~= (seq![16u8] + (enc_i32(frequency) + enc_u16(format) + enc_i32(
                        channels,
                    ) + enc_i32(chunksize))) + b5);
                }
            }
        }
    }
}

proof fn lemma_de_pathonly(b: Seq<u8>, tag: u8, b1: Seq<u8>)
    requires
        dec_u8(b) == Option::Some((tag, b1)),
        tag == 17 || tag == 26 || tag == 27,
    ensures
        dec_cmd(b) matches Option::Some(p) ==> wf_cmd(p.0) && b == enc_cmd(p.0) + p.1 && p.1.len()
            < b.len(),
{
    crate::codec::lemma_dec_enc_u8(b);
    crate::codec::lemma_dec_enc_bytes(b1);
    if dec_bytes(b1) is Some {
        let (path, b2) = dec_bytes(b1)->Some_0;
        assert(b =~= (seq![tag] + enc_bytes(path)) + b2);
    }
}

proof fn lemma_de_createsurface(b: Seq<u8>, b1: Seq<u8>)
    requires
        dec_u8(b) == Option::Some((18u8, b1)),
    ensures
        dec_cmd(b) matches Option::Some(p) ==> wf_cmd(p.0) && b == enc_cmd(p.0) + p.1 && p.1.len()
            < b.len(),
{
    crate::codec::lemma_dec_enc_u8(b);
    crate::codec::lemma_dec_enc_u32(b1);
    if dec_u32(b1) is Some {
        let (width, b2) = dec_u32(b1)->Some_0;
        crate::codec::lemma_dec_enc_u32(b2);
        if dec_u32(b2) is Some {
            let (height, b3) = dec_u32(b2)->Some_0;
            crate::codec::lemma_dec_enc_u32(b3);
            if dec_u32(b3) is Some {
                let (format, b4) = dec_u32(b3)->Some_0;
                crate::codec::lemma_dec_enc_u32(b4);
                if dec_u32(b4) is Some {
                    let (index, b5) = dec_u32(b4)->Some_0;
                    assert(b =~= (seq![18u8] + (enc_u32(width) + enc_u32(height) + enc_u32(format)
                        + enc_u32(index))) + b5);
                }
            }
        }
    }
}

proof fn lemma_de_pathindex(b: Seq<u8>, tag: u8, b1: Seq<u8>)
    requires
        dec_u8(b) == Option::Some((tag, b1)),
        tag == 19 || tag == 20 || tag == 23,
    ensures
        dec_cmd(b) matches Option::Some(p) ==> wf_cmd(p.0) && b == enc_cmd(p.0) + p.1 && p.1.len()
            < b.len(),
{
    crate::codec::lemma_dec_enc_u8(b);
    crate::codec::lemma_dec_enc_bytes(b1);
    if dec_bytes(b1) is Some {
        let (path, b2) = dec_bytes(b1)->Some_0;
        crate::codec::lemma_dec_enc_u32(b2);
        if dec_u32(b2) is Some {
            let (index, b3) = dec_u32(b2)->Some_0;
            assert(b =~= (seq![tag] + (enc_bytes(path) + enc_u32(index))) + b3);
        }
    }
}

proof fn lemma_de_createtexture(b: Seq<u8>, b1: Seq<u8>)
    requires
        dec_u8(b) == Option::Some((21u8, b1)),
    ensures
        dec_cmd(b) matches Option::Some(p) ==> wf_cmd(p.0) && b == enc_cmd(p.0) + p.1 && p.1.len()
            < b.len(),
{
    crate::codec::lemma_dec_enc_u8(b);
    lemma_opt_u32_canonical(b1);
    if dec_opt(b1, dec_u32_fn()) is Some {
        let (format, b2) = dec_opt(b1, dec_u32_fn())->Some_0;
        crate::codec::lemma_dec_enc_u32(b2);
        if dec_u32(b2) is Some {
            let (access, b3) = dec_u32(b2)->Some_0;
            crate::codec::lemma_dec_enc_u32(b3);
            if dec_u32(b3) is Some {
                let (width, b4) = dec_u32(b3)->Some_0;
                crate::codec::lemma_dec_enc_u32(b4);
                if dec_u32(b4) is Some {
                    let (height, b5) = dec_u32(b4)->Some_0;
                    crate::codec::lemma_dec_enc_u32(b5);
                    if dec_u32(b5) is Some {
                        let (index, b6) = dec_u32(b5)->Some_0;
                        assert(b =~= (seq![21u8] + (enc_opt(format, enc_u32_fn()) + enc_u32(access)
                            + enc_u32(width) + enc_u32(height) + enc_u32(index))) + b6);
                    }
                }
            }
        }
    }
}

proof fn lemma_de_copyrect(b: Seq<u8>, b1: Seq<u8>)
    requires
        dec_u8(b) == Option::Some((24u8, b1)),
    ensures
        dec_cmd(b) matches Option::Some(p) ==> wf_cmd(p.0) && b == enc_cmd(p.0) + p.1 && p.1.len()
            < b.len(),
{
    crate::codec::lemma_dec_enc_u8(b);
    crate::codec::lemma_dec_enc_u32(b1);
    if dec_u32(b1) is Some {
        let (texture, b2) = dec_u32(b1)->Some_0;
        lemma_dec_enc_rect(b2);
        if dec_rect(b2) is Some {
            let (src, b3) = dec_rect(b2)->Some_0;
            lemma_dec_enc_rect(b3);
            if dec_rect(b3) is Some {
                let (dst, b4) = dec_rect(b3)->Some_0;
                assert(b =~= (seq![24u8] + (enc_u32(texture) + enc_rect(src) + enc_rect(dst)))
                    + b4);
            }
        }
    }
}

proof fn lemma_de_displaymode(b: Seq<u8>, b1: Seq<u8>)
    requires
        dec_u8(b) == Option::Some((25u8, b1)),
    ensures
        dec_cmd(b) matches Option::Some(p) ==> wf_cmd(p.0) && b == enc_cmd(p.0) + p.1 && p.1.len()
            < b.len(),
{
    crate::codec::lemma_dec_enc_u8(b);
    crate::codec::lemma_dec_enc_i32(b1);
    if dec_i32(b1) is Some {
        let (width, b2) = dec_i32(b1)->Some_0;
        crate::codec::lemma_dec_enc_i32(b2);
        if dec_i32(b2) is Some {
            let (height, b3) = dec_i32(b2)->Some_0;
            crate::codec::lemma_dec_enc_i32(b3);
            if dec_i32(b3) is Some {
                let (rate, b4) = dec_i32(b3)->Some_0;
                crate::codec::lemma_dec_enc_u32(b4);
                if dec_u32(b4) is Some {
                    let (format, b5) = dec_u32(b4)->Some_0;
                    assert(b =~= (seq![25u8] + (enc_i32(width) + enc_i32(height) + enc_i32(rate)
                        + enc_u32(format))) + b5);
                }
            }
        }
    }
}

proof fn lemma_de_setposition(b: Seq<u8>, b1: Seq<u8>)
    requires
        dec_u8(b) == Option::Some((28u8, b1)),
    ensures
        dec_cmd(b) matches Option::Some(p) ==> wf_cmd(p.0) && b == enc_cmd(p.0) + p.1 && p.1.len()
            < b.len(),
{
    crate::codec::lemma_dec_enc_u8(b);
    crate::codec::lemma_dec_enc_i32(b1);
    if dec_i32(b1) is Some {
        let (x, b2) = dec_i32(b1)->Some_0;
        crate::codec::lemma_dec_enc_i32(b2);
        if dec_i32(b2) is Some {
            let (y, b3) = dec_i32(b2)->Some_0;
            assert(b =~= (seq![28u8] + (enc_i32(x) + enc_i32(y))) + b3);
        }
    }
}

proof fn lemma_de_brightness(b: Seq<u8>, b1: Seq<u8>)
    requires
        dec_u8(b) == Option::Some((37u8, b1)),
    ensures
        dec_cmd(b) matches Option::Some(p) ==> wf_cmd(p.0) && b == enc_cmd(p.0) + p.1 && p.1.len()
            < b.len(),
{
    crate::codec::lemma_dec_enc_u8(b);
    crate::codec::lemma_dec_enc_u64(b1);
    if dec_u64(b1) is Some {
        let (bits, b2) = dec_u64(b1)->Some_0;
        assert(b =~= (seq![37u8] + enc_u64(bits)) + b2);
    }
}

proof fn lemma_de_opacity(b: Seq<u8>, b1: Seq<u8>)
    requires
        dec_u8(b) == Option::Some((38u8, b1)),
    ensures
        dec_cmd(b) matches Option::Some(p) ==> wf_cmd(p.0) && b == enc_cmd(p.0) + p.1 && p.1.len()
            < b.len(),
{
    crate::codec::lemma_dec_enc_u8(b);
    crate::codec::lemma_dec_enc_u32(b1);
    if dec_u32(b1) is Some {
        let (bits, b2) = dec_u32(b1)->Some_0;
        assert(b =~= (seq![38u8] + enc_u32(bits)) + b2);
    }
}

/// A successful command decode consumed exactly the encoding of the
/// well-formed command it returned.
#[verifier::rlimit(100)]
pub proof fn lemma_dec_enc_cmd(b: Seq<u8>)
    ensures
        dec_cmd(b) matches Option::Some(p) ==> wf_cmd(p.0) && b == enc_cmd(p.0) + p.1 && p.1.len()
            < b.len(),
{
    if dec_u8(b) is Some {
        let (tag, b1) = dec_u8(b)->Some_0;
        if tag == 0 || tag == 11 || tag == 12 || tag == 13 || tag == 31 || tag == 32 || tag == 33
            || tag == 34 || tag == 35 || tag == 36 {
            lemma_de_nofield(b, tag, b1);
        } else if tag == 1 {
            lemma_de_setdrawcolor(b, b1);
        } else if tag == 2 || tag == 22 || tag == 29 || tag == 30 {
            lemma_de_u32pair(b, tag, b1);
        } else if tag == 3 {
            lemma_de_drawpoint(b, b1);
        } else if tag == 4 || tag == 6 {
            lemma_de_pointlists(b, tag, b1);
        } else if tag == 5 {
            lemma_de_drawline(b, b1);
        } else if tag == 7 || tag == 9 {
            lemma_de_rects(b, tag, b1);
        } else if tag == 8 || tag == 10 {
            lemma_de_rectlists(b, tag, b1);
        } else if tag == 14 {
            lemma_de_renderfont(b, b1);
        } else if tag == 15 {
            lemma_de_setcursor(b, b1);
        } else if tag == 16 {
            lemma_de_openaudio(b, b1);
        } else if tag == 17 || tag == 26 || tag == 27 {
            lemma_de_pathonly(b, tag, b1);
        } else if tag == 18 {
            lemma_de_createsurface(b, b1);
        } else if tag == 19 || tag == 20 || tag == 23 {
            lemma_de_pathindex(b, tag, b1);
        } else if tag == 21 {
            lemma_de_createtexture(b, b1);
        } else if tag == 24 {
            lemma_de_copyrect(b, b1);
        } else if tag == 25 {
            lemma_de_displaymode(b, b1);
        } else if tag == 28 {
            lemma_de_setposition(b, b1);
        } else if tag == 37 {
            lemma_de_brightness(b, b1);
        } else if tag == 38 {
            lemma_de_opacity(b, b1);
        }
    }
}


// ---------------------------------------------------------------------------
// Batch laws
// ---------------------------------------------------------------------------
pub open spec fn wf_cmd_fn() -> spec_fn(CommandV) -> bool {
    |c: CommandV| wf_cmd(c)
}

/// Decoding the encoding of a well-formed batch yields the batch back.
pub proof fn lemma_command_batch_round_trip(cs: Seq<CommandV>)
    requires
        wf_batch(cs),
    ensures
        dec_cmd_batch(enc_cmd_batch(cs)) == Option::Some(cs),
{
    assert forall|i: int, r: Seq<u8>| 0 <= i < cs.len() implies #[trigger] dec_cmd_fn()(
        enc_cmd_fn()(cs[i]) + r,
    ) == Option::Some((cs[i], r)) by {
        lemma_enc_dec_cmd(cs[i], r);
    }
    crate::codec::lemma_enc_dec_list(cs, Seq::<u8>::empty(), enc_cmd_fn(), dec_cmd_fn());
    assert(enc_cmd_batch(cs) + Seq::<u8>::empty() =~= enc_cmd_batch(cs));
}

/// A payload that decodes to a batch is, byte for byte, that batch's
/// encoding; so a payload that is no well-formed batch's encoding is
/// rejected, and two different payloads never decode to the same batch.
pub proof fn lemma_command_batch_canonical(b: Seq<u8>)
    ensures
        dec_cmd_batch(b) matches Option::Some(cs) ==> wf_batch(cs) && enc_cmd_batch(cs) == b,
{
    assert forall|bb: Seq<u8>|
        (#[trigger] dec_cmd_fn()(bb)) matches Option::Some(p) ==> bb == enc_cmd_fn()(p.0) + p.1
            && p.1.len() < bb.len() && wf_cmd_fn()(p.0) by {
        lemma_dec_enc_cmd(bb);
    }
    crate::codec::lemma_dec_enc_list(b, enc_cmd_fn(), dec_cmd_fn(), wf_cmd_fn());
    if dec_list(b, dec_cmd_fn()) is Some {
        let (cs, rest) = dec_list(b, dec_cmd_fn())->Some_0;
        if rest.len() == 0 {
            assert(enc_cmd_batch(cs) + rest =~= enc_cmd_batch(cs));
        }
    }
}

// ---------------------------------------------------------------------------
// Executable readers for the sub-shapes
// ---------------------------------------------------------------------------
use crate::codec::{
    read_byte_vec, read_i32, read_u16, read_u32, read_u64, read_u8, write_byte_vec, write_i32,
    write_u16, write_u32, write_u64, write_u8,
};

pub fn read_color(b: &[u8], pos: usize) -> (r: Option<(CanvasColor, usize)>)
    requires
        pos <= b@.len(),
    ensures
        match r {
            Option::Some(p) => pos < p.1 <= b@.len() && dec_color(b@.skip(pos as int))
                == Option::Some((p.0, b@.skip(p.1 as int))),
            Option::None => dec_color(b@.skip(pos as int)) is None,
        },
{
    if b.len() - pos >= 4 {
        let red: u8 = *vstd::slice::slice_index_get(b, pos);
        let green: u8 = *vstd::slice::slice_index_get(b, pos + 1);
        let blue: u8 = *vstd::slice::slice_index_get(b, pos + 2);
        let alpha: u8 = *vstd::slice::slice_index_get(b, pos + 3);
        proof {
            assert(b@.skip(pos as int).skip(4) =~= b@.skip(pos as int + 4));
        }
        Option::Some((CanvasColor { r: red, g: green, b: blue, a: alpha }, pos + 4))
    } else {
        Option::None
    }
}

pub fn read_point(b: &[u8], pos: usize) -> (r: Option<(CanvasPoint, usize)>)
    requires
        pos <= b@.len(),
    ensures
        match r {
            Option::Some(p) => pos < p.1 <= b@.len() && dec_point(b@.skip(pos as int))
                == Option::Some((p.0, b@.skip(p.1 as int))),
            Option::None => dec_point(b@.skip(pos as int)) is None,
        },
{
    match read_i32(b, pos) {
        Option::None => Option::None,
        Option::Some((x, p1)) => match read_i32(b, p1) {
            Option::None => Option::None,
            Option::Some((y, p2)) => Option::Some((CanvasPoint { x, y }, p2)),
        },
    }
}

pub fn read_rect(b: &[u8], pos: usize) -> (r: Option<(Rectangle, usize)>)
    requires
        pos <= b@.len(),
    ensures
        match r {
            Option::Some(p) => pos < p.1 <= b@.len() && dec_rect(b@.skip(pos as int))
                == Option::Some((p.0, b@.skip(p.1 as int))),
            Option::None => dec_rect(b@.skip(pos as int)) is None,
        },
{
    match read_i32(b, pos) {
        Option::None => Option::None,
        Option::Some((x, p1)) => match read_i32(b, p1) {
            Option::None => Option::None,
            Option::Some((y, p2)) => match read_u32(b, p2) {
                Option::None => Option::None,
                Option::Some((width, p3)) => match read_u32(b, p3) {
                    Option::None => Option::None,
                    Option::Some((height, p4)) => Option::Some(
                        (Rectangle { x, y, width, height }, p4),
                    ),
                },
            },
        },
    }
}

pub fn read_opt_u32(b: &[u8], pos: usize) -> (r: Option<(Option<u32>, usize)>)
    requires
        pos <= b@.len(),
    ensures
        match r {
            Option::Some(p) => pos < p.1 <= b@.len() && dec_opt(b@.skip(pos as int), dec_u32_fn())
                == Option::Some((p.0, b@.skip(p.1 as int))),
            Option::None => dec_opt(b@.skip(pos as int), dec_u32_fn()) is None,
        },
{
    if pos < b.len() {
        let t: u8 = *vstd::slice::slice_index_get(b, pos);
        proof {
            assert(b@.skip(pos as int)[0] == b@[pos as int]);
            assert(b@.skip(pos as int).skip(1) =~= b@.skip(pos as int + 1));
        }
        if t == 0 {
            Option::Some((Option::None, pos + 1))
        } else if t == 1 {
            match read_u32(b, pos + 1) {
                Option::None => Option::None,
                Option::Some((v, p2)) => Option::Some((Option::Some(v), p2)),
            }
        } else {
            Option::None
        }
    } else {
        Option::None
    }
}

pub fn read_optrect(b: &[u8], pos: usize) -> (r: Option<(OptionRectangle, usize)>)
    requires
        pos <= b@.len(),
    ensures
        match r {
            Option::Some(p) => pos < p.1 <= b@.len() && dec_optrect(b@.skip(pos as int))
                == Option::Some((p.0, b@.skip(p.1 as int))),
            Option::None => dec_optrect(b@.skip(pos as int)) is None,
        },
{
    match read_i32(b, pos) {
        Option::None => Option::None,
        Option::Some((x, p1)) => match read_i32(b, p1) {
            Option::None => Option::None,
            Option::Some((y, p2)) => match read_opt_u32(b, p2) {
                Option::None => Option::None,
                Option::Some((width, p3)) => match read_opt_u32(b, p3) {
                    Option::None => Option::None,
                    Option::Some((height, p4)) => Option::Some(
                        (OptionRectangle { x, y, width, height }, p4),
                    ),
                },
            },
        },
    }
}

pub fn read_style(b: &[u8], pos: usize) -> (r: Option<(FontStyle, usize)>)
    requires
        pos <= b@.len(),
    ensures
        match r {
            Option::Some(p) => pos < p.1 <= b@.len() && dec_style(b@.skip(pos as int))
                == Option::Some((p.0, b@.skip(p.1 as int))),
            Option::None => dec_style(b@.skip(pos as int)) is None,
        },
{
    if pos < b.len() {
        let t: u8 = *vstd::slice::slice_index_get(b, pos);
        proof {
            assert(b@.skip(pos as int)[0] == b@[pos as int]);
            assert(b@.skip(pos as int).skip(1) =~= b@.skip(pos as int + 1));
        }
        if t == 0 {
            Option::Some((FontStyle::Normal, pos + 1))
        } else if t == 1 {
            Option::Some((FontStyle::Bold, pos + 1))
        } else if t == 2 {
            Option::Some((FontStyle::Italic, pos + 1))
        } else if t == 3 {
            Option::Some((FontStyle::Underline, pos + 1))
        } else if t == 4 {
            Option::Some((FontStyle::Strikethrough, pos + 1))
        } else {
            Option::None
        }
    } else {
        Option::None
    }
}

pub fn read_opt_style(b: &[u8], pos: usize) -> (r: Option<(Option<FontStyle>, usize)>)
    requires
        pos <= b@.len(),
    ensures
        match r {
            Option::Some(p) => pos < p.1 <= b@.len() && dec_opt(
                b@.skip(pos as int),
                dec_style_fn(),
            ) == Option::Some((p.0, b@.skip(p.1 as int))),
            Option::None => dec_opt(b@.skip(pos as int), dec_style_fn()) is None,
        },
{
    if pos < b.len() {
        let t: u8 = *vstd::slice::slice_index_get(b, pos);
        proof {
            assert(b@.skip(pos as int)[0] == b@[pos as int]);
            assert(b@.skip(pos as int).skip(1) =~= b@.skip(pos as int + 1));
        }
        if t == 0 {
            Option::Some((Option::None, pos + 1))
        } else if t == 1 {
            match read_style(b, pos + 1) {
                Option::None => Option::None,
                Option::Some((v, p2)) => Option::Some((Option::Some(v), p2)),
            }
        } else {
            Option::None
        }
    } else {
        Option::None
    }
}

pub fn read_opt_optrect(b: &[u8], pos: usize) -> (r: Option<(Option<OptionRectangle>, usize)>)
    requires
        pos <= b@.len(),
    ensures
        match r {
            Option::Some(p) => pos < p.1 <= b@.len() && dec_opt(
                b@.skip(pos as int),
                dec_optrect_fn(),
            ) == Option::Some((p.0, b@.skip(p.1 as int))),
            Option::None => dec_opt(b@.skip(pos as int), dec_optrect_fn()) is None,
        },
{
    if pos < b.len() {
        let t: u8 = *vstd::slice::slice_index_get(b, pos);
        proof {
            assert(b@.skip(pos as int)[0] == b@[pos as int]);
            assert(b@.skip(pos as int).skip(1) =~= b@.skip(pos as int + 1));
        }
        if t == 0 {
            Option::Some((Option::None, pos + 1))
        } else if t == 1 {
            match read_optrect(b, pos + 1) {
                Option::None => Option::None,
                Option::Some((v, p2)) => Option::Some((Option::Some(v), p2)),
            }
        } else {
            Option::None
        }
    } else {
        Option::None
    }
}

pub fn read_fill(b: &[u8], pos: usize) -> (r: Option<(FontFill, usize)>)
    requires
        pos <= b@.len(),
    ensures
        match r {
            Option::Some(p) => pos < p.1 <= b@.len() && dec_fill(b@.skip(pos as int))
                == Option::Some((p.0, b@.skip(p.1 as int))),
            Option::None => dec_fill(b@.skip(pos as int)) is None,
        },
{
    if pos < b.len() {
        let t: u8 = *vstd::slice::slice_index_get(b, pos);
        proof {
            assert(b@.skip(pos as int)[0] == b@[pos as int]);
            assert(b@.skip(pos as int).skip(1) =~= b@.skip(pos as int + 1));
        }
        if t == 0 {
            match read_color(b, pos + 1) {
                Option::None => Option::None,
                Option::Some((color, p2)) => Option::Some((FontFill::Solid { color }, p2)),
            }
        } else if t == 1 {
            match read_color(b, pos + 1) {
                Option::None => Option::None,
                Option::Some((color, p2)) => match read_color(b, p2) {
                    Option::None => Option::None,
                    Option::Some((background, p3)) => Option::Some(
                        (FontFill::Shaded { color, background }, p3),
                    ),
                },
            }
        } else if t == 2 {
            match read_color(b, pos + 1) {
                Option::None => Option::None,
                Option::Some((color, p2)) => Option::Some((FontFill::Blended { color }, p2)),
            }
        } else {
            Option::None
        }
    } else {
        Option::None
    }
}


pub fn read_point_list(b: &[u8], pos: usize) -> (r: Option<(Vec<CanvasPoint>, usize)>)
    requires
        pos <= b@.len(),
    ensures
        match r {
            Option::Some(p) => pos < p.1 <= b@.len() && dec_list(
                b@.skip(pos as int),
                dec_point_fn(),
            ) == Option::Some((p.0@, b@.skip(p.1 as int))),
            Option::None => dec_list(b@.skip(pos as int), dec_point_fn()) is None,
        },
{
    match read_u32(b, pos) {
        Option::None => Option::None,
        Option::Some((n, p0)) => {
            let mut acc: Vec<CanvasPoint> = Vec::new();
            let mut cur: usize = p0;
            let mut i: u32 = 0;
            while i < n
                invariant
                    pos < p0 <= cur <= b@.len(),
                    i <= n,
                    dec_u32(b@.skip(pos as int)) == Option::Some((n, b@.skip(p0 as int))),
                    match dec_items(b@.skip(cur as int), (n - i) as nat, dec_point_fn()) {
                        Option::Some(p) => dec_items(
                            b@.skip(p0 as int),
                            n as nat,
                            dec_point_fn(),
                        ) == Option::Some((acc@ + p.0, p.1)),
                        Option::None => dec_items(
                            b@.skip(p0 as int),
                            n as nat,
                            dec_point_fn(),
                        ) is None,
                    },
                decreases n - i,
            {
                match read_point(b, cur) {
                    Option::None => {
                        return Option::None;
                    },
                    Option::Some((pt, p2)) => {
                        proof {
                            let tail = dec_items(
                                b@.skip(p2 as int),
                                (n - i - 1) as nat,
                                dec_point_fn(),
                            );
                            if tail is Some {
                                let q = tail->Some_0;
                                assert(acc@ + (seq![pt] + q.0) =~= acc@.push(pt) + q.0);
                            }
                        }
                        acc.push(pt);
                        cur = p2;
                        i = i + 1;
                    },
                }
            }
            proof {
                assert(dec_items(b@.skip(cur as int), 0, dec_point_fn()) == Option::Some(
                    (Seq::<CanvasPoint>::empty(), b@.skip(cur as int)),
                ));
                assert(acc@ + Seq::<CanvasPoint>::empty() =~= acc@);
            }
            Option::Some((acc, cur))
        },
    }
}

pub fn read_rect_list(b: &[u8], pos: usize) -> (r: Option<(Vec<Rectangle>, usize)>)
    requires
        pos <= b@.len(),
    ensures
        match r {
            Option::Some(p) => pos < p.1 <= b@.len() && dec_list(
                b@.skip(pos as int),
                dec_rect_fn(),
            ) == Option::Some((p.0@, b@.skip(p.1 as int))),
            Option::None => dec_list(b@.skip(pos as int), dec_rect_fn()) is None,
        },
{
    match read_u32(b, pos) {
        Option::None => Option::None,
        Option::Some((n, p0)) => {
            let mut acc: Vec<Rectangle> = Vec::new();
            let mut cur: usize = p0;
            let mut i: u32 = 0;
            while i < n
                invariant
                    pos < p0 <= cur <= b@.len(),
                    i <= n,
                    dec_u32(b@.skip(pos as int)) == Option::Some((n, b@.skip(p0 as int))),
                    match dec_items(b@.skip(cur as int), (n - i) as nat, dec_rect_fn()) {
                        Option::Some(p) => dec_items(
                            b@.skip(p0 as int),
                            n as nat,
                            dec_rect_fn(),
                        ) == Option::Some((acc@ + p.0, p.1)),
                        Option::None => dec_items(
                            b@.skip(p0 as int),
                            n as nat,
                            dec_rect_fn(),
                        ) is None,
                    },
                decreases n - i,
            {
                match read_rect(b, cur) {
                    Option::None => {
                        return Option::None;
                    },
                    Option::Some((rc, p2)) => {
                        proof {
                            let tail = dec_items(
                                b@.skip(p2 as int),
                                (n - i - 1) as nat,
                                dec_rect_fn(),
                            );
                            if tail is Some {
                                let q = tail->Some_0;
                                assert(acc@ + (seq![rc] + q.0) =~= acc@.push(rc) + q.0);
                            }
                        }
                        acc.push(rc);
                        cur = p2;
                        i = i + 1;
                    },
                }
            }
            proof {
                assert(dec_items(b@.skip(cur as int), 0, dec_rect_fn()) == Option::Some(
                    (Seq::<Rectangle>::empty(), b@.skip(cur as int)),
                ));
                assert(acc@ + Seq::<Rectangle>::empty() =~= acc@);
            }
            Option::Some((acc, cur))
        },
    }
}


/// Reads one command at a cursor position.
#[verifier::rlimit(100)]
pub fn read_cmd(b: &[u8], pos: usize) -> (r: Option<(Command, usize)>)
    requires
        pos <= b@.len(),
    ensures
        match r {
            Option::Some(p) => pos < p.1 <= b@.len() && dec_cmd(b@.skip(pos as int))
                == Option::Some((p.0@, b@.skip(p.1 as int))),
            Option::None => dec_cmd(b@.skip(pos as int)) is None,
        },
{
    match read_u8(b, pos) {
        Option::None => Option::None,
        Option::Some((tag, p1)) => {
            if tag == 0 {
                Option::Some((Command::Present, p1))
            } else if tag == 1 {
                match read_color(b, p1) {
                    Option::None => Option::None,
                    Option::Some((color, p2)) => Option::Some(
                        (Command::SetDrawColor { color }, p2),
                    ),
                }
            } else if tag == 2 {
                match read_u32(b, p1) {
                    Option::None => Option::None,
                    Option::Some((x_bits, p2)) => match read_u32(b, p2) {
                        Option::None => Option::None,
                        Option::Some((y_bits, p3)) => Option::Some(
                            (Command::SetScale { x_bits, y_bits }, p3),
                        ),
                    },
                }
            } else if tag == 3 {
                match read_point(b, p1) {
                    Option::None => Option::None,
                    Option::Some((point, p2)) => Option::Some((Command::DrawPoint { point }, p2)),
                }
            } else if tag == 4 {
                match read_point_list(b, p1) {
                    Option::None => Option::None,
                    Option::Some((points, p2)) => Option::Some(
                        (Command::DrawPoints { points }, p2),
                    ),
                }
            } else if tag == 5 {
                match read_point(b, p1) {
                    Option::None => Option::None,
                    Option::Some((p_1, p2)) => match read_point(b, p2) {
                        Option::None => Option::None,
                        Option::Some((p_2, p3)) => Option::Some(
                            (Command::DrawLine { p1: p_1, p2: p_2 }, p3),
                        ),
                    },
                }
            } else if tag == 6 {
                match read_point_list(b, p1) {
                    Option::None => Option::None,
                    Option::Some((points, p2)) => Option::Some((Command::DrawLines { points }, p2)),
                }
            } else if tag == 7 {
                match read_rect(b, p1) {
                    Option::None => Option::None,
                    Option::Some((rect, p2)) => Option::Some((Command::DrawRect { rect }, p2)),
                }
            } else if tag == 8 {
                match read_rect_list(b, p1) {
                    Option::None => Option::None,
                    Option::Some((rects, p2)) => Option::Some((Command::DrawRects { rects }, p2)),
                }
            } else if tag == 9 {
                match read_rect(b, p1) {
                    Option::None => Option::None,
                    Option::Some((rect, p2)) => Option::Some((Command::FillRect { rect }, p2)),
                }
            } else if tag == 10 {
                match read_rect_list(b, p1) {
                    Option::None => Option::None,
                    Option::Some((rects, p2)) => Option::Some((Command::FillRects { rects }, p2)),
                }
            } else if tag == 11 {
                Option::Some((Command::Clear, p1))
            } else if tag == 12 {
                Option::Some((Command::Quit, p1))
            } else if tag == 13 {
                Option::Some((Command::Nop, p1))
            } else if tag == 14 {
                match read_byte_vec(b, p1) {
                    Option::None => Option::None,
                    Option::Some((text, p2)) => match read_fill(b, p2) {
                        Option::None => Option::None,
                        Option::Some((fill, p3)) => match read_opt_optrect(b, p3) {
                            Option::None => Option::None,
                            Option::Some((target, p4)) => match read_byte_vec(b, p4) {
                                Option::None => Option::None,
                                Option::Some((path, p5)) => match read_u16(b, p5) {
                                    Option::None => Option::None,
                                    Option::Some((size, p6)) => match read_opt_style(b, p6) {
                                        Option::None => Option::None,
                                        Option::Some((style, p7)) => Option::Some(
                                            (
                                                Command::RenderFont {
                                                    text,
                                                    fill,
                                                    target,
                                                    path,
                                                    size,
                                                    style,
                                                },
                                                p7,
                                            ),
                                        ),
                                    },
                                },
                            },
                        },
                    },
                }
            } else if tag == 15 {
                match read_u32(b, p1) {
                    Option::None => Option::None,
                    Option::Some((index, p2)) => match read_byte_vec(b, p2) {
                        Option::None => Option::None,
                        Option::Some((path, p3)) => Option::Some(
                            (Command::SetCursor { index, path }, p3),
                        ),
                    },
                }
            } else if tag == 16 {
                match read_i32(b, p1) {
                    Option::None => Option::None,
                    Option::Some((frequency, p2)) => match read_u16(b, p2) {
                        Option::None => Option::None,
                        Option::Some((format, p3)) => match read_i32(b, p3) {
                            Option::None => Option::None,
                            Option::Some((channels, p4)) => match read_i32(b, p4) {
                                Option::None => Option::None,
                                Option::Some((chunksize, p5)) => Option::Some(
                                    (
                                        Command::OpenAudio {
                                            frequency,
                                            format,
                                            channels,
                                            chunksize,
                                        },
                                        p5,
                                    ),
                                ),
                            },
                        },
                    },
                }
            } else if tag == 17 {
                match read_byte_vec(b, p1) {
                    Option::None => Option::None,
                    Option::Some((path, p2)) => Option::Some((Command::PlayMusic { path }, p2)),
                }
            } else if tag == 18 {
                match read_u32(b, p1) {
                    Option::None => Option::None,
                    Option::Some((width, p2)) => match read_u32(b, p2) {
                        Option::None => Option::None,
                        Option::Some((height, p3)) => match read_u32(b, p3) {
                            Option::None => Option::None,
                            Option::Some((format, p4)) => match read_u32(b, p4) {
                                Option::None => Option::None,
                                Option::Some((index, p5)) => Option::Some(
                                    (Command::CreateSurface { width, height, format, index }, p5),
                                ),
                            },
                        },
                    },
                }
            } else if tag == 19 {
                match read_byte_vec(b, p1) {
                    Option::None => Option::None,
                    Option::Some((path, p2)) => match read_u32(b, p2) {
                        Option::None => Option::None,
                        Option::Some((index, p3)) => Option::Some(
                            (Command::CreateSurfaceBitmap { path, index }, p3),
                        ),
                    },
                }
            } else if tag == 20 {
                match read_byte_vec(b, p1) {
                    Option::None => Option::None,
                    Option::Some((path, p2)) => match read_u32(b, p2) {
                        Option::None => Option::None,
                        Option::Some((index, p3)) => Option::Some(
                            (Command::LoadSurface { path, index }, p3),
                        ),
                    },
                }
            } else if tag == 21 {
                match read_opt_u32(b, p1) {
                    Option::None => Option::None,
                    Option::Some((format, p2)) => match read_u32(b, p2) {
                        Option::None => Option::None,
                        Option::Some((access, p3)) => match read_u32(b, p3) {
                            Option::None => Option::None,
                            Option::Some((width, p4)) => match read_u32(b, p4) {
                                Option::None => Option::None,
                                Option::Some((height, p5)) => match read_u32(b, p5) {
                                    Option::None => Option::None,
                                    Option::Some((index, p6)) => Option::Some(
                                        (
                                            Command::CreateTexture {
                                                format,
                                                access,
                                                width,
                                                height,
                                                index,
                                            },
                                            p6,
                                        ),
                                    ),
                                },
                            },
                        },
                    },
                }
            } else if tag == 22 {
                match read_u32(b, p1) {
                    Option::None => Option::None,
                    Option::Some((surface, p2)) => match read_u32(b, p2) {
                        Option::None => Option::None,
                        Option::Some((index, p3)) => Option::Some(
                            (Command::CreateTextureSurface { surface, index }, p3),
                        ),
                    },
                }
            } else if tag == 23 {
                match read_byte_vec(b, p1) {
                    Option::None => Option::None,
                    Option::Some((path, p2)) => match read_u32(b, p2) {
                        Option::None => Option::None,
                        Option::Some((index, p3)) => Option::Some(
                            (Command::LoadTexture { path, index }, p3),
                        ),
                    },
                }
            } else if tag == 24 {
                match read_u32(b, p1) {
                    Option::None => Option::None,
                    Option::Some((texture, p2)) => match read_rect(b, p2) {
                        Option::None => Option::None,
                        Option::Some((src, p3)) => match read_rect(b, p3) {
                            Option::None => Option::None,
                            Option::Some((dst, p4)) => Option::Some(
                                (Command::CopyRect { texture, src, dst }, p4),
                            ),
                        },
                    },
                }
            } else if tag == 25 {
                match read_i32(b, p1) {
                    Option::None => Option::None,
                    Option::Some((width, p2)) => match read_i32(b, p2) {
                        Option::None => Option::None,
                        Option::Some((height, p3)) => match read_i32(b, p3) {
                            Option::None => Option::None,
                            Option::Some((rate, p4)) => match read_u32(b, p4) {
                                Option::None => Option::None,
                                Option::Some((format, p5)) => Option::Some(
                                    (Command::SetDisplayMode { width, height, rate, format }, p5),
                                ),
                            },
                        },
                    },
                }
            } else if tag == 26 {
                match read_byte_vec(b, p1) {
                    Option::None => Option::None,
                    Option::Some((title, p2)) => Option::Some((Command::SetTitle { title }, p2)),
                }
            } else if tag == 27 {
                match read_byte_vec(b, p1) {
                    Option::None => Option::None,
                    Option::Some((icon, p2)) => Option::Some((Command::SetIcon { icon }, p2)),
                }
            } else if tag == 28 {
                match read_i32(b, p1) {
                    Option::None => Option::None,
                    Option::Some((x, p2)) => match read_i32(b, p2) {
                        Option::None => Option::None,
                        Option::Some((y, p3)) => Option::Some((Command::SetPosition { x, y }, p3)),
                    },
                }
            } else if tag == 29 {
                match read_u32(b, p1) {
                    Option::None => Option::None,
                    Option::Some((width, p2)) => match read_u32(b, p2) {
                        Option::None => Option::None,
                        Option::Some((height, p3)) => Option::Some(
                            (Command::SetSize { width, height }, p3),
                        ),
                    },
                }
            } else if tag == 30 {
                match read_u32(b, p1) {
                    Option::None => Option::None,
                    Option::Some((width, p2)) => match read_u32(b, p2) {
                        Option::None => Option::None,
                        Option::Some((height, p3)) => Option::Some(
                            (Command::SetMinimumSize { width, height }, p3),
                        ),
                    },
                }
            } else if tag == 31 {
                Option::Some((Command::Show, p1))
            } else if tag == 32 {
                Option::Some((Command::Hide, p1))
            } else if tag == 33 {
                Option::Some((Command::Raise, p1))
            } else if tag == 34 {
                Option::Some((Command::Maximize, p1))
            } else if tag == 35 {
                Option::Some((Command::Minimize, p1))
            } else if tag == 36 {
                Option::Some((Command::Restore, p1))
            } else if tag == 37 {
                match read_u64(b, p1) {
                    Option::None => Option::None,
                    Option::Some((brightness_bits, p2)) => Option::Some(
                        (Command::SetBrightness { brightness_bits }, p2),
                    ),
                }
            } else if tag == 38 {
                match read_u32(b, p1) {
                    Option::None => Option::None,
                    Option::Some((opacity_bits, p2)) => Option::Some(
                        (Command::SetOpacity { opacity_bits }, p2),
                    ),
                }
            } else {
                Option::None
            }
        },
    }
}


/// Decodes a whole payload into a batch of commands.
///
/// Succeeds exactly when the payload is, byte for byte, the encoding of a
/// well-formed batch (see `lemma_command_batch_round_trip` and
/// `lemma_command_batch_canonical`); a malformed payload rejects the whole
/// batch, it is never partially applied.
pub fn decode_command_batch(payload: &[u8]) -> (r: Option<Vec<Command>>)
    ensures
        match r {
            Option::Some(cs) => dec_cmd_batch(payload@) == Option::Some(cs.deep_view()),
            Option::None => dec_cmd_batch(payload@) is None,
        },
{
    proof {
        assert(payload@.skip(0) =~= payload@);
    }
    match read_u32(payload, 0) {
        Option::None => Option::None,
        Option::Some((n, p0)) => {
            let mut acc: Vec<Command> = Vec::new();
            let mut cur: usize = p0;
            let mut i: u32 = 0;
            while i < n
                invariant
                    p0 <= cur <= payload@.len(),
                    i <= n,
                    dec_u32(payload@) == Option::Some((n, payload@.skip(p0 as int))),
                    match dec_items(payload@.skip(cur as int), (n - i) as nat, dec_cmd_fn()) {
                        Option::Some(p) => dec_items(
                            payload@.skip(p0 as int),
                            n as nat,
                            dec_cmd_fn(),
                        ) == Option::Some((acc.deep_view() + p.0, p.1)),
                        Option::None => dec_items(
                            payload@.skip(p0 as int),
                            n as nat,
                            dec_cmd_fn(),
                        ) is None,
                    },
                decreases n - i,
            {
                match read_cmd(payload, cur) {
                    Option::None => {
                        return Option::None;
                    },
                    Option::Some((c, p2)) => {
                        proof {
                            let tail = dec_items(
                                payload@.skip(p2 as int),
                                (n - i - 1) as nat,
                                dec_cmd_fn(),
                            );
                            if tail is Some {
                                let q = tail->Some_0;
                                assert(acc.deep_view() + (seq![c@] + q.0) =~= acc.deep_view().push(
                                    c@,
                                ) + q.0);
                            }
                        }
                        let ghost old_acc = acc;
                        acc.push(c);
                        proof {
                            assert(acc.deep_view() =~= old_acc.deep_view().push(c@));
                        }
                        cur = p2;
                        i = i + 1;
                    },
                }
            }
            proof {
                assert(dec_items(payload@.skip(cur as int), 0, dec_cmd_fn()) == Option::Some(
                    (Seq::<CommandV>::empty(), payload@.skip(cur as int)),
                ));
                assert(acc.deep_view() + Seq::<CommandV>::empty() =~= acc.deep_view());
            }
            if cur == payload.len() {
                proof {
                    assert(payload@.skip(cur as int).len() == 0);
                }
                Option::Some(acc)
            } else {
                proof {
                    assert(payload@.skip(cur as int).len() > 0);
                }
                Option::None
            }
        },
    }
}

// ---------------------------------------------------------------------------
// Executable writers for the sub-shapes
// ---------------------------------------------------------------------------
pub fn write_color(out: &mut Vec<u8>, c: CanvasColor)
    ensures
        final(out)@ == old(out)@ + enc_color(c),
{
    out.push(c.r);
    out.push(c.g);
    out.push(c.b);
    out.push(c.a);
    proof {
        assert(old(out)@.push(c.r).push(c.g).push(c.b).push(c.a) =~= old(out)@ + enc_color(c));
    }
}

pub fn write_point(out: &mut Vec<u8>, p: CanvasPoint)
    ensures
        final(out)@ == old(out)@ + enc_point(p),
{
    write_i32(out, p.x);
    write_i32(out, p.y);
    proof {
        assert(old(out)@ + enc_i32(p.x) + enc_i32(p.y) =~= old(out)@ + enc_point(p));
    }
}

pub fn write_rect(out: &mut Vec<u8>, r: Rectangle)
    ensures
        final(out)@ == old(out)@ + enc_rect(r),
{
    write_i32(out, r.x);
    write_i32(out, r.y);
    write_u32(out, r.width);
    write_u32(out, r.height);
    proof {
        assert(old(out)@ + enc_i32(r.x) + enc_i32(r.y) + enc_u32(r.width) + enc_u32(r.height) =~=
            old(out)@ + enc_rect(r));
    }
}

pub fn write_opt_u32(out: &mut Vec<u8>, o: Option<u32>)
    ensures
        final(out)@ == old(out)@ + enc_opt(o, enc_u32_fn()),
{
    match o {
        Option::None => {
            out.push(0);
            proof {
                assert(old(out)@.push(0u8) =~= old(out)@ + enc_opt(o, enc_u32_fn()));
            }
        },
        Option::Some(v) => {
            out.push(1);
            write_u32(out, v);
            proof {
                assert(old(out)@.push(1u8) + enc_u32(v) =~= old(out)@ + enc_opt(o, enc_u32_fn()));
            }
        },
    }
}

pub fn write_optrect(out: &mut Vec<u8>, t: OptionRectangle)
    ensures
        final(out)@ == old(out)@ + enc_optrect(t),
{
    write_i32(out, t.x);
    write_i32(out, t.y);
    write_opt_u32(out, t.width);
    write_opt_u32(out, t.height);
    proof {
        assert(old(out)@ + enc_i32(t.x) + enc_i32(t.y) + enc_opt(t.width, enc_u32_fn()) + enc_opt(
            t.height,
            enc_u32_fn(),
        ) =~= old(out)@ + enc_optrect(t));
    }
}

pub fn write_style(out: &mut Vec<u8>, s: FontStyle)
    ensures
        final(out)@ == old(out)@ + enc_style(s),
{
    match s {
        FontStyle::Normal => out.push(0),
        FontStyle::Bold => out.push(1),
        FontStyle::Italic => out.push(2),
        FontStyle::Underline => out.push(3),
        FontStyle::Strikethrough => out.push(4),
    }
    proof {
        assert(out@ =~= old(out)@ + enc_style(s));
    }
}

pub fn write_opt_style(out: &mut Vec<u8>, o: Option<FontStyle>)
    ensures
        final(out)@ == old(out)@ + enc_opt(o, enc_style_fn()),
{
    match o {
        Option::None => {
            out.push(0);
            proof {
                assert(old(out)@.push(0u8) =~= old(out)@ + enc_opt(o, enc_style_fn()));
            }
        },
        Option::Some(v) => {
            out.push(1);
            write_style(out, v);
            proof {
                assert(old(out)@.push(1u8) + enc_style(v) =~= old(out)@ + enc_opt(
                    o,
                    enc_style_fn(),
                ));
            }
        },
    }
}

pub fn write_opt_optrect(out: &mut Vec<u8>, o: Option<OptionRectangle>)
    ensures
        final(out)@ == old(out)@ + enc_opt(o, enc_optrect_fn()),
{
    match o {
        Option::None => {
            out.push(0);
            proof {
                assert(old(out)@.push(0u8) =~= old(out)@ + enc_opt(o, enc_optrect_fn()));
            }
        },
        Option::Some(v) => {
            out.push(1);
            write_optrect(out, v);
            proof {
                assert(old(out)@.push(1u8) + enc_optrect(v) =~= old(out)@ + enc_opt(
                    o,
                    enc_optrect_fn(),
                ));
            }
        },
    }
}

pub fn write_fill(out: &mut Vec<u8>, f: FontFill)
    ensures
        final(out)@ == old(out)@ + enc_fill(f),
{
    match f {
        FontFill::Solid { color } => {
            out.push(0);
            write_color(out, color);
            proof {
                assert(old(out)@.push(0u8) + enc_color(color) =~= old(out)@ + enc_fill(f));
            }
        },
        FontFill::Shaded { color, background } => {
            out.push(1);
            write_color(out, color);
            write_color(out, background);
            proof {
                assert(old(out)@.push(1u8) + enc_color(color) + enc_color(background) =~= old(
                    out,
                )@ + enc_fill(f));
            }
        },
        FontFill::Blended { color } => {
            out.push(2);
            write_color(out, color);
            proof {
                assert(old(out)@.push(2u8) + enc_color(color) =~= old(out)@ + enc_fill(f));
            }
        },
    }
}

pub fn write_point_list(out: &mut Vec<u8>, points: &Vec<CanvasPoint>)
    requires
        points@.len() < 0x1_0000_0000,
    ensures
        final(out)@ == old(out)@ + enc_list(points@, enc_point_fn()),
{
    write_u32(out, points.len() as u32);
    let ghost mid = out@;
    let mut i: usize = 0;
    while i < points.len()
        invariant
            i <= points@.len(),
            out@ == mid + enc_items(points@.take(i as int), enc_point_fn()),
        decreases points@.len() - i,
    {
        write_point(out, points[i]);
        proof {
            crate::codec::lemma_enc_items_push(points@.take(i as int), points@[i as int],
                enc_point_fn());
            assert(points@.take(i as int + 1) =~= points@.take(i as int).push(points@[i as int]));
            assert(mid + enc_items(points@.take(i as int), enc_point_fn()) + enc_point(
                points@[i as int],
            ) =~= mid + enc_items(points@.take(i as int + 1), enc_point_fn()));
        }
        i = i + 1;
    }
    proof {
        assert(points@.take(points@.len() as int) =~= points@);
        assert(mid + enc_items(points@, enc_point_fn()) =~= old(out)@ + enc_list(
            points@,
            enc_point_fn(),
        ));
    }
}

pub fn write_rect_list(out: &mut Vec<u8>, rects: &Vec<Rectangle>)
    requires
        rects@.len() < 0x1_0000_0000,
    ensures
        final(out)@ == old(out)@ + enc_list(rects@, enc_rect_fn()),
{
    write_u32(out, rects.len() as u32);
    let ghost mid = out@;
    let mut i: usize = 0;
    while i < rects.len()
        invariant
            i <= rects@.len(),
            out@ == mid + enc_items(rects@.take(i as int), enc_rect_fn()),
        decreases rects@.len() - i,
    {
        write_rect(out, rects[i]);
        proof {
            crate::codec::lemma_enc_items_push(rects@.take(i as int), rects@[i as int],
                enc_rect_fn());
            assert(rects@.take(i as int + 1) =~= rects@.take(i as int).push(rects@[i as int]));
            assert(mid + enc_items(rects@.take(i as int), enc_rect_fn()) + enc_rect(
                rects@[i as int],
            ) =~= mid + enc_items(rects@.take(i as int + 1), enc_rect_fn()));
        }
        i = i + 1;
    }
    proof {
        assert(rects@.take(rects@.len() as int) =~= rects@);
        assert(mid + enc_items(rects@, enc_rect_fn()) =~= old(out)@ + enc_list(
            rects@,
            enc_rect_fn(),
        ));
    }
}


/// Appends one well-formed command's encoding to an output buffer.
#[verifier::rlimit(100)]
pub fn write_cmd(out: &mut Vec<u8>, c: &Command)
    requires
        wf_cmd(c@),
    ensures
        final(out)@ == old(out)@ + enc_cmd(c@),
{
    match c {
        Command::Present => {
            write_u8(out, 0);
            proof {
                assert(old(out)@ + enc_u8(0) =~= old(out)@ + enc_cmd(c@));
            }
        },
        Command::SetDrawColor { color } => {
            write_u8(out, 1);
            write_color(out, *color);
            proof {
                assert(old(out)@ + enc_u8(1) + enc_color(*color) =~= old(out)@ + enc_cmd(c@));
            }
        },
        Command::SetScale { x_bits, y_bits } => {
            write_u8(out, 2);
            write_u32(out, *x_bits);
            write_u32(out, *y_bits);
            proof {
                assert(old(out)@ + enc_u8(2) + enc_u32(*x_bits) + enc_u32(*y_bits) =~= old(out)@
                    + enc_cmd(c@));
            }
        },
        Command::DrawPoint { point } => {
            write_u8(out, 3);
            write_point(out, *point);
            proof {
                assert(old(out)@ + enc_u8(3) + enc_point(*point) =~= old(out)@ + enc_cmd(c@));
            }
        },
        Command::DrawPoints { points } => {
            write_u8(out, 4);
            write_point_list(out, points);
            proof {
                assert(old(out)@ + enc_u8(4) + enc_list(points@, enc_point_fn()) =~= old(out)@
                    + enc_cmd(c@));
            }
        },
        Command::DrawLine { p1, p2 } => {
            write_u8(out, 5);
            write_point(out, *p1);
            write_point(out, *p2);
            proof {
                assert(old(out)@ + enc_u8(5) + enc_point(*p1) + enc_point(*p2) =~= old(out)@
                    + enc_cmd(c@));
            }
        },
        Command::DrawLines { points } => {
            write_u8(out, 6);
            write_point_list(out, points);
            proof {
                assert(old(out)@ + enc_u8(6) + enc_list(points@, enc_point_fn()) =~= old(out)@
                    + enc_cmd(c@));
            }
        },
        Command::DrawRect { rect } => {
            write_u8(out, 7);
            write_rect(out, *rect);
            proof {
                assert(old(out)@ + enc_u8(7) + enc_rect(*rect) =~= old(out)@ + enc_cmd(c@));
            }
        },
        Command::DrawRects { rects } => {
            write_u8(out, 8);
            write_rect_list(out, rects);
            proof {
                assert(old(out)@ + enc_u8(8) + enc_list(rects@, enc_rect_fn()) =~= old(out)@
                    + enc_cmd(c@));
            }
        },
        Command::FillRect { rect } => {
            write_u8(out, 9);
            write_rect(out, *rect);
            proof {
                assert(old(out)@ + enc_u8(9) + enc_rect(*rect) =~= old(out)@ + enc_cmd(c@));
            }
        },
        Command::FillRects { rects } => {
            write_u8(out, 10);
            write_rect_list(out, rects);
            proof {
                assert(old(out)@ + enc_u8(10) + enc_list(rects@, enc_rect_fn()) =~= old(out)@
                    + enc_cmd(c@));
            }
        },
        Command::Clear => {
            write_u8(out, 11);
            proof {
                assert(old(out)@ + enc_u8(11) =~= old(out)@ + enc_cmd(c@));
            }
        },
        Command::Quit => {
            write_u8(out, 12);
            proof {
                assert(old(out)@ + enc_u8(12) =~= old(out)@ + enc_cmd(c@));
            }
        },
        Command::Nop => {
            write_u8(out, 13);
            proof {
                assert(old(out)@ + enc_u8(13) =~= old(out)@ + enc_cmd(c@));
            }
        },
        Command::RenderFont { text, fill, target, path, size, style } => {
            write_u8(out, 14);
            write_byte_vec(out, text);
            write_fill(out, *fill);
            write_opt_optrect(out, *target);
            write_byte_vec(out, path);
            write_u16(out, *size);
            write_opt_style(out, *style);
            proof {
                assert(old(out)@ + enc_u8(14) + enc_bytes(text@) + enc_fill(*fill) + enc_opt(
                    *target,
                    enc_optrect_fn(),
                ) + enc_bytes(path@) + enc_u16(*size) + enc_opt(*style, enc_style_fn()) =~= old(
                    out,
                )@ + enc_cmd(c@));
            }
        },
        Command::SetCursor { index, path } => {
            write_u8(out, 15);
            write_u32(out, *index);
            write_byte_vec(out, path);
            proof {
                assert(old(out)@ + enc_u8(15) + enc_u32(*index) + enc_bytes(path@) =~= old(out)@
                    + enc_cmd(c@));
            }
        },
        Command::OpenAudio { frequency, format, channels, chunksize } => {
            write_u8(out, 16);
            write_i32(out, *frequency);
            write_u16(out, *format);
            write_i32(out, *channels);
            write_i32(out, *chunksize);
            proof {
                assert(old(out)@ + enc_u8(16) + enc_i32(*frequency) + enc_u16(*format) + enc_i32(
                    *channels,
                ) + enc_i32(*chunksize) =~= old(out)@ + enc_cmd(c@));
            }
        },
        Command::PlayMusic { path } => {
            write_u8(out, 17);
            write_byte_vec(out, path);
            proof {
                assert(old(out)@ + enc_u8(17) + enc_bytes(path@) =~= old(out)@ + enc_cmd(c@));
            }
        },
        Command::CreateSurface { width, height, format, index } => {
            write_u8(out, 18);
            write_u32(out, *width);
            write_u32(out, *height);
            write_u32(out, *format);
            write_u32(out, *index);
            proof {
                assert(old(out)@ + enc_u8(18) + enc_u32(*width) + enc_u32(*height) + enc_u32(
                    *format,
                ) + enc_u32(*index) =~= old(out)@ + enc_cmd(c@));
            }
        },
        Command::CreateSurfaceBitmap { path, index } => {
            write_u8(out, 19);
            write_byte_vec(out, path);
            write_u32(out, *index);
            proof {
                assert(old(out)@ + enc_u8(19) + enc_bytes(path@) + enc_u32(*index) =~= old(out)@
                    + enc_cmd(c@));
            }
        },
        Command::LoadSurface { path, index } => {
            write_u8(out, 20);
            write_byte_vec(out, path);
            write_u32(out, *index);
            proof {
                assert(old(out)@ + enc_u8(20) + enc_bytes(path@) + enc_u32(*index) =~= old(out)@
                    + enc_cmd(c@));
            }
        },
        Command::CreateTexture { format, access, width, height, index } => {
            write_u8(out, 21);
            write_opt_u32(out, *format);
            write_u32(out, *access);
            write_u32(out, *width);
            write_u32(out, *height);
            write_u32(out, *index);
            proof {
                assert(old(out)@ + enc_u8(21) + enc_opt(*format, enc_u32_fn()) + enc_u32(*access)
                    + enc_u32(*width) + enc_u32(*height) + enc_u32(*index) =~= old(out)@ + enc_cmd(
                    c@,
                ));
            }
        },
        Command::CreateTextureSurface { surface, index } => {
            write_u8(out, 22);
            write_u32(out, *surface);
            write_u32(out, *index);
            proof {
                assert(old(out)@ + enc_u8(22) + enc_u32(*surface) + enc_u32(*index) =~= old(out)@
                    + enc_cmd(c@));
            }
        },
        Command::LoadTexture { path, index } => {
            write_u8(out, 23);
            write_byte_vec(out, path);
            write_u32(out, *index);
            proof {
                assert(old(out)@ + enc_u8(23) + enc_bytes(path@) + enc_u32(*index) =~= old(out)@
                    + enc_cmd(c@));
            }
        },
        Command::CopyRect { texture, src, dst } => {
            write_u8(out, 24);
            write_u32(out, *texture);
            write_rect(out, *src);
            write_rect(out, *dst);
            proof {
                assert(old(out)@ + enc_u8(24) + enc_u32(*texture) + enc_rect(*src) + enc_rect(
                    *dst,
                ) =~= old(out)@ + enc_cmd(c@));
            }
        },
        Command::SetDisplayMode { width, height, rate, format } => {
            write_u8(out, 25);
            write_i32(out, *width);
            write_i32(out, *height);
            write_i32(out, *rate);
            write_u32(out, *format);
            proof {
                assert(old(out)@ + enc_u8(25) + enc_i32(*width) + enc_i32(*height) + enc_i32(
                    *rate,
                ) + enc_u32(*format) =~= old(out)@ + enc_cmd(c@));
            }
        },
        Command::SetTitle { title } => {
            write_u8(out, 26);
            write_byte_vec(out, title);
            proof {
                assert(old(out)@ + enc_u8(26) + enc_bytes(title@) =~= old(out)@ + enc_cmd(c@));
            }
        },
        Command::SetIcon { icon } => {
            write_u8(out, 27);
            write_byte_vec(out, icon);
            proof {
                assert(old(out)@ + enc_u8(27) + enc_bytes(icon@) =~= old(out)@ + enc_cmd(c@));
            }
        },
        Command::SetPosition { x, y } => {
            write_u8(out, 28);
            write_i32(out, *x);
            write_i32(out, *y);
            proof {
                assert(old(out)@ + enc_u8(28) + enc_i32(*x) + enc_i32(*y) =~= old(out)@ + enc_cmd(
                    c@,
                ));
            }
        },
        Command::SetSize { width, height } => {
            write_u8(out, 29);
            write_u32(out, *width);
            write_u32(out, *height);
            proof {
                assert(old(out)@ + enc_u8(29) + enc_u32(*width) + enc_u32(*height) =~= old(out)@
                    + enc_cmd(c@));
            }
        },
        Command::SetMinimumSize { width, height } => {
            write_u8(out, 30);
            write_u32(out, *width);
            write_u32(out, *height);
            proof {
                assert(old(out)@ + enc_u8(30) + enc_u32(*width) + enc_u32(*height) =~= old(out)@
                    + enc_cmd(c@));
            }
        },
        Command::Show => {
            write_u8(out, 31);
            proof {
                assert(old(out)@ + enc_u8(31) =~= old(out)@ + enc_cmd(c@));
            }
        },
        Command::Hide => {
            write_u8(out, 32);
            proof {
                assert(old(out)@ + enc_u8(32) =~= old(out)@ + enc_cmd(c@));
            }
        },
        Command::Raise => {
            write_u8(out, 33);
            proof {
                assert(old(out)@ + enc_u8(33) =~= old(out)@ + enc_cmd(c@));
            }
        },
        Command::Maximize => {
            write_u8(out, 34);
            proof {
                assert(old(out)@ + enc_u8(34) =~= old(out)@ + enc_cmd(c@));
            }
        },
        Command::Minimize => {
            write_u8(out, 35);
            proof {
                assert(old(out)@ + enc_u8(35) =~= old(out)@ + enc_cmd(c@));
            }
        },
        Command::Restore => {
            write_u8(out, 36);
            proof {
                assert(old(out)@ + enc_u8(36) =~= old(out)@ + enc_cmd(c@));
            }
        },
        Command::SetBrightness { brightness_bits } => {
            write_u8(out, 37);
            write_u64(out, *brightness_bits);
            proof {
                assert(old(out)@ + enc_u8(37) + enc_u64(*brightness_bits) =~= old(out)@ + enc_cmd(
                    c@,
                ));
            }
        },
        Command::SetOpacity { opacity_bits } => {
            write_u8(out, 38);
            write_u32(out, *opacity_bits);
            proof {
                assert(old(out)@ + enc_u8(38) + enc_u32(*opacity_bits) =~= old(out)@ + enc_cmd(
                    c@,
                ));
            }
        },
    }
}

/// Encodes a whole batch of commands into a payload.
pub fn encode_command_batch(cmds: &Vec<Command>) -> (r: Vec<u8>)
    requires
        wf_batch(cmds.deep_view()),
    ensures
        r@ == enc_cmd_batch(cmds.deep_view()),
{
    let ghost dv = cmds.deep_view();
    let mut out: Vec<u8> = Vec::new();
    write_u32(&mut out, cmds.len() as u32);
    let ghost mid = out@;
    let mut i: usize = 0;
    while i < cmds.len()
        invariant
            i <= cmds@.len(),
            dv == cmds.deep_view(),
            wf_batch(dv),
            cmds@.len() == dv.len(),
            mid == enc_u32(dv.len() as u32),
            out@ == mid + enc_items(dv.take(i as int), enc_cmd_fn()),
        decreases cmds@.len() - i,
    {
        proof {
            assert(cmds@[i as int]@ == dv[i as int]);
        }
        write_cmd(&mut out, &cmds[i]);
        proof {
            crate::codec::lemma_enc_items_push(dv.take(i as int), dv[i as int], enc_cmd_fn());
            assert(dv.take(i as int + 1) =~= dv.take(i as int).push(dv[i as int]));
            assert(mid + enc_items(dv.take(i as int), enc_cmd_fn()) + enc_cmd(dv[i as int]) =~= mid
                + enc_items(dv.take(i as int + 1), enc_cmd_fn()));
        }
        i = i + 1;
    }
    proof {
        assert(dv.take(dv.len() as int) =~= dv);
        assert(mid + enc_items(dv, enc_cmd_fn()) =~= enc_cmd_batch(dv));
    }
    out
}

} // verus!

