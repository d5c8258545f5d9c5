//! Configuration objects exchanged during the session handshake.
//!
//! The controller sends a window configuration, and after the window is
//! built, a canvas configuration. Each travels as one framed payload in
//! the primitive shapes of `codec`: the title as a length-prefixed UTF-8
//! byte string, sizes as 32-bit little-endian values, the optional flag
//! mask and position behind presence bytes, and the six boolean window
//! flags as single bytes, in declaration order.
//!
//! `window_build_steps` turns a decoded window configuration into the
//! ordered sequence of builder calls the renderer must make.

use crate::codec::{
    dec_bool, dec_bytes, dec_i32, dec_opt, dec_u32, enc_bool, enc_bytes, enc_i32, enc_opt,
    enc_u32, read_bool, read_byte_vec, read_i32, read_u32, write_bool, write_byte_vec, write_i32,
    write_u32,
};
use crate::command_codec::{dec_u32_fn, enc_u32_fn, read_opt_u32, write_opt_u32};
use vstd::prelude::*;

verus! {

/// An absolute window position, in screen coordinates.
#[derive(Clone, Copy, PartialEq, Eq, Structural, Debug)]
pub struct WindowPosition {
    pub x: i32,
    pub y: i32,
}

/// The window configuration: title, size, and builder flags.
#[derive(Clone, PartialEq, Eq, Debug)]
pub struct WindowConfig {
    pub title: Vec<u8>,
    pub width: u32,
    pub height: u32,
    pub flags: Option<u32>,
    pub position: Option<WindowPosition>,
    pub centered: bool,
    pub fullscreen: bool,
    pub hidden: bool,
    pub resizable: bool,
    pub minimized: bool,
    pub maximized: bool,
}

/// The specification mirror of `WindowConfig`: the title as a `Seq`.
pub struct WindowConfigV {
    pub title: Seq<u8>,
    pub width: u32,
    pub height: u32,
    pub flags: Option<u32>,
    pub position: Option<WindowPosition>,
    pub centered: bool,
    pub fullscreen: bool,
    pub hidden: bool,
    pub resizable: bool,
    pub minimized: bool,
    pub maximized: bool,
}

impl View for WindowConfig {
    type V = WindowConfigV;

    open spec fn view(&self) -> WindowConfigV {
        WindowConfigV {
            title: self.title@,
            width: self.width,
            height: self.height,
            flags: self.flags,
            position: self.position,
            centered: self.centered,
            fullscreen: self.fullscreen,
            hidden: self.hidden,
            resizable: self.resizable,
            minimized: self.minimized,
            maximized: self.maximized,
        }
    }
}

/// The canvas configuration: whether to force software rendering.
#[derive(Clone, Copy, PartialEq, Eq, Structural, Debug)]
pub struct CanvasConfig {
    pub software: bool,
}

pub open spec fn wf_window_config(c: WindowConfigV) -> bool {
    c.title.len() < 0x1_0000_0000
}

pub open spec fn enc_pos_fn() -> spec_fn(WindowPosition) -> Seq<u8> {
    |p: WindowPosition| enc_i32(p.x) + enc_i32(p.y)
}

pub open spec fn dec_pos_fn() -> spec_fn(Seq<u8>) -> Option<(WindowPosition, Seq<u8>)> {
    |bb: Seq<u8>|
        match dec_i32(bb) {
            Option::None => Option::None::<(WindowPosition, Seq<u8>)>,
            Option::Some((x, b1)) => match dec_i32(b1) {
                Option::None => Option::None,
                Option::Some((y, b2)) => Option::Some((WindowPosition { x, y }, b2)),
            },
        }
}

/// The six boolean window flags, in declaration order.
pub open spec fn enc_window_flags(c: WindowConfigV) -> Seq<u8> {
    enc_bool(c.centered) + enc_bool(c.fullscreen) + enc_bool(c.hidden) + enc_bool(c.resizable)
        + enc_bool(c.minimized) + enc_bool(c.maximized)
}

pub open spec fn dec_window_flags(b: Seq<u8>) -> Option<
    ((bool, bool, bool, bool, bool, bool), Seq<u8>),
> {
    match dec_bool(b) {
        Option::None => Option::None,
        Option::Some((centered, b1)) => match dec_bool(b1) {
            Option::None => Option::None,
            Option::Some((fullscreen, b2)) => match dec_bool(b2) {
                Option::None => Option::None,
                Option::Some((hidden, b3)) => match dec_bool(b3) {
                    Option::None => Option::None,
                    Option::Some((resizable, b4)) => match dec_bool(b4) {
                        Option::None => Option::None,
                        Option::Some((minimized, b5)) => match dec_bool(b5) {
                            Option::None => Option::None,
                            Option::Some((maximized, b6)) => Option::Some(
                                (
                                    (centered, fullscreen, hidden, resizable, minimized, maximized),
                                    b6,
                                ),
                            ),
                        },
                    },
                },
            },
        },
    }
}

/// The encoding of a window configuration.
pub open spec fn enc_window_config(c: WindowConfigV) -> Seq<u8>
    recommends
        wf_window_config(c),
{
    enc_bytes(c.title) + enc_u32(c.width) + enc_u32(c.height) + enc_opt(c.flags, enc_u32_fn())
        + enc_opt(c.position, enc_pos_fn()) + enc_window_flags(c)
}

/// The decoding of a whole payload into a window configuration.
pub open spec fn dec_window_config(b: Seq<u8>) -> Option<WindowConfigV> {
    match dec_bytes(b) {
        Option::None => Option::None,
        Option::Some((title, b1)) => match dec_u32(b1) {
            Option::None => Option::None,
            Option::Some((width, b2)) => match dec_u32(b2) {
                Option::None => Option::None,
                Option::Some((height, b3)) => match dec_opt(b3, dec_u32_fn()) {
                    Option::None => Option::None,
                    Option::Some((flags, b4)) => match dec_opt(b4, dec_pos_fn()) {
                        Option::None => Option::None,
                        Option::Some((position, b5)) => match dec_window_flags(b5) {
                            Option::None => Option::None,
                            Option::Some(
                                ((centered, fullscreen, hidden, resizable, minimized, maximized), b6),
                            ) => if b6.len() == 0 {
                                Option::Some(
                                    WindowConfigV {
                                        title,
                                        width,
                                        height,
                                        flags,
                                        position,
                                        centered,
                                        fullscreen,
                                        hidden,
                                        resizable,
                                        minimized,
                                        maximized,
                                    },
                                )
                            } else {
                                Option::None
                            },
                        },
                    },
                },
            },
        },
    }
}

/// The encoding of a canvas configuration.
pub open spec fn enc_canvas_config(c: CanvasConfig) -> Seq<u8> {
    enc_bool(c.software)
}

/// The decoding of a whole payload into a canvas configuration.
pub open spec fn dec_canvas_config(b: Seq<u8>) -> Option<CanvasConfig> {
    match dec_bool(b) {
        Option::None => Option::None,
        Option::Some((software, b1)) => if b1.len() == 0 {
            Option::Some(CanvasConfig { software })
        } else {
            Option::None
        },
    }
}


// ---------------------------------------------------------------------------
// Configuration laws
// ---------------------------------------------------------------------------
proof fn lemma_opt_pos_complete(o: Option<WindowPosition>, rest: Seq<u8>)
    ensures
        dec_opt(enc_opt(o, enc_pos_fn()) + rest, dec_pos_fn()) == Option::Some((o, rest)),
{
    if o is Some {
        let v = o->0;
        assert forall|r: Seq<u8>| #[trigger] dec_pos_fn()(enc_pos_fn()(v) + r) == Option::Some(
            (v, r),
        ) by {
            assert(enc_pos_fn()(v) + r =~= enc_i32(v.x) + (enc_i32(v.y) + r));
            crate::codec::lemma_enc_dec_i32(v.x, enc_i32(v.y) + r);
            crate::codec::lemma_enc_dec_i32(v.y, r);
        }
    }
    crate::codec::lemma_enc_dec_opt(o, rest, enc_pos_fn(), dec_pos_fn());
}

proof fn lemma_opt_pos_canonical(b: Seq<u8>)
    ensures
        dec_opt(b, dec_pos_fn()) matches Option::Some(p) ==> b == enc_opt(p.0, enc_pos_fn()) + p.1
            && p.1.len() < b.len(),
{
    assert forall|bb: Seq<u8>|
        (#[trigger] dec_pos_fn()(bb)) matches Option::Some(p) ==> bb == enc_pos_fn()(p.0) + p.1
            && p.1.len() < bb.len() by {
        crate::codec::lemma_dec_enc_i32(bb);
        if dec_i32(bb) is Some {
            let (x, b1) = dec_i32(bb)->Some_0;
            crate::codec::lemma_dec_enc_i32(b1);
            if dec_i32(b1) is Some {
                let (y, b2) = dec_i32(b1)->Some_0;
                assert(bb =~= (enc_i32(x) + enc_i32(y)) + b2);
            }
        }
    }
    crate::codec::lemma_dec_enc_opt(b, enc_pos_fn(), dec_pos_fn());
}

#[verifier::rlimit(100)]
proof fn lemma_flags_complete(c: WindowConfigV, rest: Seq<u8>)
    ensures
        dec_window_flags(enc_window_flags(c) + rest) == Option::Some(
            ((c.centered, c.fullscreen, c.hidden, c.resizable, c.minimized, c.maximized), rest),
        ),
{
    let t4 = enc_bool(c.maximized) + rest;
    let t3 = enc_bool(c.minimized) + t4;
    let t2 = enc_bool(c.resizable) + t3;
    let t1 = enc_bool(c.hidden) + t2;
    let t0 = enc_bool(c.fullscreen) + t1;
    assert(enc_window_flags(c) + rest =~= enc_bool(c.centered) + t0);
    crate::codec::lemma_enc_dec_bool(c.centered, t0);
    crate::codec::lemma_enc_dec_bool(c.fullscreen, t1);
    crate::codec::lemma_enc_dec_bool(c.hidden, t2);
    crate::codec::lemma_enc_dec_bool(c.resizable, t3);
    crate::codec::lemma_enc_dec_bool(c.minimized, t4);
    crate::codec::lemma_enc_dec_bool(c.maximized, rest);
}

#[verifier::rlimit(100)]
proof fn lemma_flags_canonical(b: Seq<u8>)
    ensures
        dec_window_flags(b) matches Option::Some(p) ==> b == (enc_bool(p.0.0) + enc_bool(p.0.1)
            + enc_bool(p.0.2) + enc_bool(p.0.3) + enc_bool(p.0.4) + enc_bool(p.0.5)) + p.1
            && p.1.len() + 6 == b.len(),
{
    crate::codec::lemma_dec_enc_bool(b);
    if dec_bool(b) is Some {
        let (centered, b1) = dec_bool(b)->Some_0;
        crate::codec::lemma_dec_enc_bool(b1);
        if dec_bool(b1) is Some {
            let (fullscreen, b2) = dec_bool(b1)->Some_0;
            crate::codec::lemma_dec_enc_bool(b2);
            if dec_bool(b2) is Some {
                let (hidden, b3) = dec_bool(b2)->Some_0;
                crate::codec::lemma_dec_enc_bool(b3);
                if dec_bool(b3) is Some {
                    let (resizable, b4) = dec_bool(b3)->Some_0;
                    crate::codec::lemma_dec_enc_bool(b4);
                    if dec_bool(b4) is Some {
                        let (minimized, b5) = dec_bool(b4)->Some_0;
                        crate::codec::lemma_dec_enc_bool(b5);
                        if dec_bool(b5) is Some {
                            let (maximized, b6) = dec_bool(b5)->Some_0;
                            assert(b =~= (enc_bool(centered) + enc_bool(fullscreen) + enc_bool(
                                hidden,
                            ) + enc_bool(resizable) + enc_bool(minimized) + enc_bool(maximized))
                                + b6);
                        }
                    }
                }
            }
        }
    }
}

/// Decoding the encoding of a well-formed window configuration yields it
/// back.
#[verifier::rlimit(100)]
pub proof fn lemma_window_config_round_trip(c: WindowConfigV)
    requires
        wf_window_config(c),
    ensures
        dec_window_config(enc_window_config(c)) == Option::Some(c),
{
    let t4 = enc_window_flags(c) + Seq::<u8>::empty();
    let t3 = enc_opt(c.position, enc_pos_fn()) + t4;
    let t2 = enc_opt(c.flags, enc_u32_fn()) + t3;
    let t1 = enc_u32(c.height) + t2;
    let t0 = enc_u32(c.width) + t1;
    assert(enc_window_config(c) =~= enc_bytes(c.title) + t0);
    crate::codec::lemma_enc_dec_bytes(c.title, t0);
    crate::codec::lemma_enc_dec_u32(c.width, t1);
    crate::codec::lemma_enc_dec_u32(c.height, t2);
    crate::command_codec::lemma_opt_u32_complete(c.flags, t3);
    lemma_opt_pos_complete(c.position, t4);
    lemma_flags_complete(c, Seq::<u8>::empty());
    assert(enc_window_flags(c) + Seq::<u8>::empty() =~= enc_window_flags(c));
    assert(dec_window_flags(t4) == Option::Some(
        ((c.centered, c.fullscreen, c.hidden, c.resizable, c.minimized, c.maximized),
        Seq::<u8>::empty()),
    ));
}

/// A payload that decodes to a window configuration is, byte for byte,
/// that configuration's encoding.
proof fn lemma_assemble_window_config(
    b: Seq<u8>,
    b1: Seq<u8>,
    b2: Seq<u8>,
    b3: Seq<u8>,
    b4: Seq<u8>,
    b5: Seq<u8>,
    c: WindowConfigV,
)
    requires
        b == enc_bytes(c.title) + b1,
        b1 == enc_u32(c.width) + b2,
        b2 == enc_u32(c.height) + b3,
        b3 == enc_opt(c.flags, enc_u32_fn()) + b4,
        b4 == enc_opt(c.position, enc_pos_fn()) + b5,
        b5 == enc_window_flags(c),
    ensures
        b == enc_window_config(c),
{
    let s4 = enc_opt(c.position, enc_pos_fn()) + b5;
    let s3 = enc_opt(c.flags, enc_u32_fn()) + s4;
    assert(b3 =~= s3);
    let s2 = enc_u32(c.height) + s3;
    assert(b2 =~= s2);
    let s1 = enc_u32(c.width) + s2;
    assert(b1 =~= s1);
    assert(b =~= enc_bytes(c.title) + s1);
    assert(enc_window_config(c) =~= enc_bytes(c.title) + s1);
}

/// A payload that decodes to a window configuration is, byte for byte,
/// that configuration's encoding.
#[verifier::rlimit(100)]
pub proof fn lemma_window_config_canonical(b: Seq<u8>)
    ensures
        dec_window_config(b) matches Option::Some(c) ==> wf_window_config(c)
            && enc_window_config(c) == b,
{
    crate::codec::lemma_dec_enc_bytes(b);
    if dec_bytes(b) is Some {
        let (title, b1) = dec_bytes(b)->Some_0;
        crate::codec::lemma_dec_enc_u32(b1);
        if dec_u32(b1) is Some {
            let (width, b2) = dec_u32(b1)->Some_0;
            crate::codec::lemma_dec_enc_u32(b2);
            if dec_u32(b2) is Some {
                let (height, b3) = dec_u32(b2)->Some_0;
                crate::command_codec::lemma_opt_u32_canonical(b3);
                if dec_opt(b3, dec_u32_fn()) is Some {
                    let (flags, b4) = dec_opt(b3, dec_u32_fn())->Some_0;
                    lemma_opt_pos_canonical(b4);
                    if dec_opt(b4, dec_pos_fn()) is Some {
                        let (position, b5) = dec_opt(b4, dec_pos_fn())->Some_0;
                        lemma_flags_canonical(b5);
                        if dec_window_flags(b5) is Some {
                            let (fl, b6) = dec_window_flags(b5)->Some_0;
                            if b6.len() == 0 {
                                let c = dec_window_config(b)->0;
                                assert(b5 =~= enc_window_flags(c));
                                lemma_assemble_window_config(b, b1, b2, b3, b4, b5, c);
                            }
                        }
                    }
                }
            }
        }
    }
}

/// Decoding the encoding of a canvas configuration yields it back.
pub proof fn lemma_canvas_config_round_trip(c: CanvasConfig)
    ensures
        dec_canvas_config(enc_canvas_config(c)) == Option::Some(c),
{
    assert(enc_canvas_config(c).skip(1) =~= Seq::<u8>::empty());
}

/// A payload that decodes to a canvas configuration is its encoding.
pub proof fn lemma_canvas_config_canonical(b: Seq<u8>)
    ensures
        dec_canvas_config(b) matches Option::Some(c) ==> enc_canvas_config(c) == b,
{
    crate::codec::lemma_dec_enc_bool(b);
    if dec_bool(b) is Some {
        let (software, b1) = dec_bool(b)->Some_0;
        if b1.len() == 0 {
            assert(b =~= enc_bool(software) + b1);
            assert(enc_bool(software) + b1 =~= enc_bool(software));
        }
    }
}

// ---------------------------------------------------------------------------
// Executable configuration codec
// ---------------------------------------------------------------------------
/// Encodes a window configuration into a payload.
fn write_opt_pos(out: &mut Vec<u8>, o: Option<WindowPosition>)
    ensures
        final(out)@ == old(out)@ + enc_opt(o, enc_pos_fn()),
{
    match o {
        Option::None => {
            out.push(0);
            proof {
                assert(old(out)@.push(0u8) =~= old(out)@ + enc_opt(o, enc_pos_fn()));
            }
        },
        Option::Some(p) => {
            out.push(1);
            write_i32(out, p.x);
            write_i32(out, p.y);
            proof {
                assert(old(out)@.push(1u8) + enc_i32(p.x) + enc_i32(p.y) =~= old(out)@ + enc_opt(
                    o,
                    enc_pos_fn(),
                ));
            }
        },
    }
}

/// Encodes a window configuration into a payload.
#[verifier::rlimit(100)]
pub fn encode_window_config(c: &WindowConfig) -> (r: Vec<u8>)
    requires
        wf_window_config(c@),
    ensures
        r@ == enc_window_config(c@),
{
    let mut out: Vec<u8> = Vec::new();
    write_byte_vec(&mut out, &c.title);
    write_u32(&mut out, c.width);
    write_u32(&mut out, c.height);
    write_opt_u32(&mut out, c.flags);
    write_opt_pos(&mut out, c.position);
    proof {
        assert(out@ =~= enc_bytes(c@.title) + enc_u32(c@.width) + enc_u32(c@.height) + enc_opt(
            c@.flags,
            enc_u32_fn(),
        ) + enc_opt(c@.position, enc_pos_fn()));
    }
    let ghost mid = out@;
    write_bool(&mut out, c.centered);
    write_bool(&mut out, c.fullscreen);
    write_bool(&mut out, c.hidden);
    write_bool(&mut out, c.resizable);
    write_bool(&mut out, c.minimized);
    write_bool(&mut out, c.maximized);
    proof {
        assert(out@ =~= mid + enc_window_flags(c@));
    }
    out
}

/// Decodes a whole payload into a window configuration; succeeds exactly
/// when the payload is one configuration's encoding.
#[verifier::rlimit(100)]
pub fn decode_window_config(payload: &[u8]) -> (r: Option<WindowConfig>)
    ensures
        match r {
            Option::Some(c) => dec_window_config(payload@) == Option::Some(c@),
            Option::None => dec_window_config(payload@) is None,
        },
{
    proof {
        assert(payload@.skip(0) =~= payload@);
    }
    match read_byte_vec(payload, 0) {
        Option::None => Option::None,
        Option::Some((title, p1)) => match read_u32(payload, p1) {
            Option::None => Option::None,
            Option::Some((width, p2)) => match read_u32(payload, p2) {
                Option::None => Option::None,
                Option::Some((height, p3)) => match read_opt_u32(payload, p3) {
                    Option::None => Option::None,
                    Option::Some((flags, p4)) => match read_opt_pos(payload, p4) {
                        Option::None => Option::None,
                        Option::Some((position, p5)) => match read_bool(payload, p5) {
                            Option::None => Option::None,
                            Option::Some((centered, p6)) => match read_bool(payload, p6) {
                                Option::None => Option::None,
                                Option::Some((fullscreen, p7)) => match read_bool(payload, p7) {
                                    Option::None => Option::None,
                                    Option::Some((hidden, p8)) => match read_bool(payload, p8) {
                                        Option::None => Option::None,
                                        Option::Some((resizable, p9)) => match read_bool(
                                            payload,
                                            p9,
                                        ) {
                                            Option::None => Option::None,
                                            Option::Some((minimized, p10)) => match read_bool(
                                                payload,
                                                p10,
                                            ) {
                                                Option::None => Option::None,
                                                Option::Some((maximized, p11)) => {
                                                    if p11 == payload.len() {
                                                        proof {
                                                            assert(payload@.skip(
                                                                p11 as int,
                                                            ).len() == 0);
                                                        }
                                                        Option::Some(
                                                            WindowConfig {
                                                                title,
                                                                width,
                                                                height,
                                                                flags,
                                                                position,
                                                                centered,
                                                                fullscreen,
                                                                hidden,
                                                                resizable,
                                                                minimized,
                                                                maximized,
                                                            },
                                                        )
                                                    } else {
                                                        proof {
                                                            assert(payload@.skip(
                                                                p11 as int,
                                                            ).len() > 0);
                                                        }
                                                        Option::None
                                                    }
                                                },
                                            },
                                        },
                                    },
                                },
                            },
                        },
                    },
                },
            },
        },
    }
}

fn read_opt_pos(b: &[u8], pos: usize) -> (r: Option<(Option<WindowPosition>, usize)>)
    requires
        pos <= b@.len(),
    ensures
        match r {
            Option::Some(p) => pos < p.1 <= b@.len() && dec_opt(b@.skip(pos as int), dec_pos_fn())
                == Option::Some((p.0, b@.skip(p.1 as int))),
            Option::None => dec_opt(b@.skip(pos as int), dec_pos_fn()) is None,
        },
{
    if pos < b.len() {
        let t: u8 = *vstd::slice::slice_index_get(b, pos);
        proof {
            assert(b@.skip(pos as int)[0] == b@[pos as int]);
            assert(b@.skip(pos as int).skip(1) =~= b@.skip(pos as int + 1));
        }
        if t == 0 {
            Option::Some((Option::None, pos + 1))
        } else if t == 1 {
            match read_i32(b, pos + 1) {
                Option::None => Option::None,
                Option::Some((x, p2)) => match read_i32(b, p2) {
                    Option::None => Option::None,
                    Option::Some((y, p3)) => Option::Some(
                        (Option::Some(WindowPosition { x, y }), p3),
                    ),
                },
            }
        } else {
            Option::None
        }
    } else {
        Option::None
    }
}

/// Encodes a canvas configuration into a payload.
pub fn encode_canvas_config(c: &CanvasConfig) -> (r: Vec<u8>)
    ensures
        r@ == enc_canvas_config(*c),
{
    let mut out: Vec<u8> = Vec::new();
    write_bool(&mut out, c.software);
    proof {
        assert(Seq::<u8>::empty() + enc_bool(c.software) =~= enc_canvas_config(*c));
    }
    out
}

/// Decodes a whole payload into a canvas configuration.
pub fn decode_canvas_config(payload: &[u8]) -> (r: Option<CanvasConfig>)
    ensures
        match r {
            Option::Some(c) => dec_canvas_config(payload@) == Option::Some(c),
            Option::None => dec_canvas_config(payload@) is None,
        },
{
    proof {
        assert(payload@.skip(0) =~= payload@);
    }
    match read_bool(payload, 0) {
        Option::None => Option::None,
        Option::Some((software, p1)) => {
            if p1 == payload.len() {
                proof {
                    assert(payload@.skip(p1 as int).len() == 0);
                }
                Option::Some(CanvasConfig { software })
            } else {
                proof {
                    assert(payload@.skip(p1 as int).len() > 0);
                }
                Option::None
            }
        },
    }
}

// ---------------------------------------------------------------------------
// Window build steps
// ---------------------------------------------------------------------------
/// One builder call the renderer makes while constructing the window.
#[derive(Clone, Copy, PartialEq, Eq, Structural, Debug)]
pub enum WindowBuildStep {
    SetFlags { flags: u32 },
    SetWindowPosition { x: i32, y: i32 },
    Centered,
    Fullscreen,
    Hidden,
    Minimized,
    Maximized,
    Resizable,
}

/// The ordered builder calls a window configuration asks for: the raw flag
/// mask and absolute position when present, followed by each set boolean
/// flag, in this fixed order.
pub open spec fn spec_build_steps(c: WindowConfigV) -> Seq<WindowBuildStep> {
    (match c.flags {
        Option::Some(flags) => seq![WindowBuildStep::SetFlags { flags }],
        Option::None => Seq::<WindowBuildStep>::empty(),
    }) + (match c.position {
        Option::Some(p) => seq![WindowBuildStep::SetWindowPosition { x: p.x, y: p.y }],
        Option::None => Seq::<WindowBuildStep>::empty(),
    }) + (if c.centered {
        seq![WindowBuildStep::Centered]
    } else {
        Seq::<WindowBuildStep>::empty()
    }) + (if c.fullscreen {
        seq![WindowBuildStep::Fullscreen]
    } else {
        Seq::<WindowBuildStep>::empty()
    }) + (if c.hidden {
        seq![WindowBuildStep::Hidden]
    } else {
        Seq::<WindowBuildStep>::empty()
    }) + (if c.minimized {
        seq![WindowBuildStep::Minimized]
    } else {
        Seq::<WindowBuildStep>::empty()
    }) + (if c.maximized {
        seq![WindowBuildStep::Maximized]
    } else {
        Seq::<WindowBuildStep>::empty()
    }) + (if c.resizable {
        seq![WindowBuildStep::Resizable]
    } else {
        Seq::<WindowBuildStep>::empty()
    })
}

/// The ordered builder calls for a window configuration.
/// The ordered builder calls for a window configuration.
#[verifier::rlimit(100)]
pub fn window_build_steps(c: &WindowConfig) -> (r: Vec<WindowBuildStep>)
    ensures
        r@ == spec_build_steps(c@),
{
    let mut out: Vec<WindowBuildStep> = Vec::new();
    let ghost t1 = (match c@.flags {
        Option::Some(flags) => seq![WindowBuildStep::SetFlags { flags }],
        Option::None => Seq::<WindowBuildStep>::empty(),
    });
    match c.flags {
        Option::Some(flags) => out.push(WindowBuildStep::SetFlags { flags }),
        Option::None => {},
    }
    proof {
        assert(out@ =~= t1);
    }
    let ghost t2 = t1 + (match c@.position {
        Option::Some(p) => seq![WindowBuildStep::SetWindowPosition { x: p.x, y: p.y }],
        Option::None => Seq::<WindowBuildStep>::empty(),
    });
    match c.position {
        Option::Some(p) => out.push(WindowBuildStep::SetWindowPosition { x: p.x, y: p.y }),
        Option::None => {},
    }
    proof {
        assert(out@ =~= t2);
    }
    let ghost t3 = t2 + (if c@.centered {
        seq![WindowBuildStep::Centered]
    } else {
        Seq::<WindowBuildStep>::empty()
    });
    if c.centered {
        out.push(WindowBuildStep::Centered);
    }
    proof {
        assert(out@ =~= t3);
    }
    let ghost t4 = t3 + (if c@.fullscreen {
        seq![WindowBuildStep::Fullscreen]
    } else {
        Seq::<WindowBuildStep>::empty()
    });
    if c.fullscreen {
        out.push(WindowBuildStep::Fullscreen);
    }
    proof {
        assert(out@ =~= t4);
    }
    let ghost t5 = t4 + (if c@.hidden {
        seq![WindowBuildStep::Hidden]
    } else {
        Seq::<WindowBuildStep>::empty()
    });
    if c.hidden {
        out.push(WindowBuildStep::Hidden);
    }
    proof {
        assert(out@ =~= t5);
    }
    let ghost t6 = t5 + (if c@.minimized {
        seq![WindowBuildStep::Minimized]
    } else {
        Seq::<WindowBuildStep>::empty()
    });
    if c.minimized {
        out.push(WindowBuildStep::Minimized);
    }
    proof {
        assert(out@ =~= t6);
    }
    let ghost t7 = t6 + (if c@.maximized {
        seq![WindowBuildStep::Maximized]
    } else {
        Seq::<WindowBuildStep>::empty()
    });
    if c.maximized {
        out.push(WindowBuildStep::Maximized);
    }
    proof {
        assert(out@ =~= t7);
    }
    let ghost t8 = t7 + (if c@.resizable {
        seq![WindowBuildStep::Resizable]
    } else {
        Seq::<WindowBuildStep>::empty()
    });
    if c.resizable {
        out.push(WindowBuildStep::Resizable);
    }
    proof {
        assert(out@ =~= t8);
        assert(t8 == spec_build_steps(c@));
    }
    out
}

} // verus!
