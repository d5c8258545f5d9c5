//! The event set and its codec: native occurrences translated to the wire.
//!
//! An event is one translated native occurrence — input or app lifecycle —
//! sent from the renderer to the controller. Events carry no identity
//! beyond their content. A native event kind outside this set is still
//! emitted, under the `Unknown` catch-all, never dropped silently.
//!
//! A batch of events travels as a 32-bit little-endian count followed by
//! each event's encoding: one tag byte, fields in declaration order.
//! `lemma_event_batch_round_trip` and `lemma_event_batch_canonical` state
//! that decoding is exactly the inverse of encoding.

use crate::codec::{
    dec_bool, dec_i32, dec_items, dec_list, dec_opt, dec_u16, dec_u32, dec_u8, enc_bool, enc_i32,
    enc_items, enc_list, enc_opt, enc_u16, enc_u32, enc_u8, read_bool, read_i32, read_u16,
    read_u32, read_u8, write_bool, write_i32, write_u16, write_u32, write_u8,
};
use vstd::prelude::*;

verus! {

/// One translated native occurrence.
///
/// `modifiers` is the keyboard modifier mask; `state` is the mouse button
/// state mask; `which` is the input device id; `direction` is the scroll
/// direction code.
#[derive(Clone, Copy, PartialEq, Eq, Debug)]
pub enum Event {
    Quit,
    AppTerminating,
    AppLowMemory,
    AppWillEnterBackground,
    AppDidEnterBackground,
    AppWillEnterForeground,
    KeyUp { keycode: Option<i32>, scancode: Option<i32>, modifiers: u16, repeat: bool },
    KeyDown { keycode: Option<i32>, scancode: Option<i32>, modifiers: u16, repeat: bool },
    MouseMotion { which: u32, x: i32, y: i32, xrel: i32, yrel: i32, state: u32 },
    MouseButtonUp { x: i32, y: i32, clicks: u8, which: u32, button: u8 },
    MouseButtonDown { x: i32, y: i32, clicks: u8, which: u32, button: u8 },
    MouseWheel { x: i32, y: i32, which: u32, direction: u32 },
    Unknown,
}

pub open spec fn enc_i32_fn() -> spec_fn(i32) -> Seq<u8> {
    |v: i32| enc_i32(v)
}

pub open spec fn dec_i32_fn() -> spec_fn(Seq<u8>) -> Option<(i32, Seq<u8>)> {
    |bb: Seq<u8>| dec_i32(bb)
}

/// The wire tag selecting an event variant.
pub open spec fn event_tag(e: Event) -> u8 {
    match e {
        Event::Quit => 0,
        Event::AppTerminating => 1,
        Event::AppLowMemory => 2,
        Event::AppWillEnterBackground => 3,
        Event::AppDidEnterBackground => 4,
        Event::AppWillEnterForeground => 5,
        Event::KeyUp { .. } => 6,
        Event::KeyDown { .. } => 7,
        Event::MouseMotion { .. } => 8,
        Event::MouseButtonUp { .. } => 9,
        Event::MouseButtonDown { .. } => 10,
        Event::MouseWheel { .. } => 11,
        Event::Unknown => 12,
    }
}

/// The encoding of one event: tag byte, fields in declaration order.
pub open spec fn enc_event(e: Event) -> Seq<u8> {
    seq![event_tag(e)] + match e {
        Event::Quit | Event::AppTerminating | Event::AppLowMemory | Event::AppWillEnterBackground
            | Event::AppDidEnterBackground | Event::AppWillEnterForeground | Event::Unknown => {
            Seq::<u8>::empty()
        },
        Event::KeyUp { keycode, scancode, modifiers, repeat }
            | Event::KeyDown { keycode, scancode, modifiers, repeat } => {
            enc_opt(keycode, enc_i32_fn()) + enc_opt(scancode, enc_i32_fn()) + enc_u16(modifiers)
                + enc_bool(repeat)
        },
        Event::MouseMotion { which, x, y, xrel, yrel, state } => {
            enc_u32(which) + enc_i32(x) + enc_i32(y) + enc_i32(xrel) + enc_i32(yrel) + enc_u32(
                state,
            )
        },
        Event::MouseButtonUp { x, y, clicks, which, button }
            | Event::MouseButtonDown { x, y, clicks, which, button } => {
            enc_i32(x) + enc_i32(y) + enc_u8(clicks) + enc_u32(which) + enc_u8(button)
        },
        Event::MouseWheel { x, y, which, direction } => {
            enc_i32(x) + enc_i32(y) + enc_u32(which) + enc_u32(direction)
        },
    }
}

/// The key-event field chain, after the tag byte.
pub open spec fn dec_key_fields(b1: Seq<u8>, down: bool) -> Option<(Event, Seq<u8>)> {
    match dec_opt(b1, dec_i32_fn()) {
        Option::None => Option::None,
        Option::Some((keycode, b2)) => match dec_opt(b2, dec_i32_fn()) {
            Option::None => Option::None,
            Option::Some((scancode, b3)) => match dec_u16(b3) {
                Option::None => Option::None,
                Option::Some((modifiers, b4)) => match dec_bool(b4) {
                    Option::None => Option::None,
                    Option::Some((repeat, b5)) => Option::Some(
                        (
                            if down {
                                Event::KeyDown { keycode, scancode, modifiers, repeat }
                            } else {
                                Event::KeyUp { keycode, scancode, modifiers, repeat }
                            },
                            b5,
                        ),
                    ),
                },
            },
        },
    }
}

/// The mouse-button field chain, after the tag byte.
pub open spec fn dec_button_fields(b1: Seq<u8>, down: bool) -> Option<(Event, Seq<u8>)> {
    match dec_i32(b1) {
        Option::None => Option::None,
        Option::Some((x, b2)) => match dec_i32(b2) {
            Option::None => Option::None,
            Option::Some((y, b3)) => match dec_u8(b3) {
                Option::None => Option::None,
                Option::Some((clicks, b4)) => match dec_u32(b4) {
                    Option::None => Option::None,
                    Option::Some((which, b5)) => match dec_u8(b5) {
                        Option::None => Option::None,
                        Option::Some((button, b6)) => Option::Some(
                            (
                                if down {
                                    Event::MouseButtonDown { x, y, clicks, which, button }
                                } else {
                                    Event::MouseButtonUp { x, y, clicks, which, button }
                                },
                                b6,
                            ),
                        ),
                    },
                },
            },
        },
    }
}

/// The mouse-motion field chain, after the tag byte.
pub open spec fn dec_motion_fields(b1: Seq<u8>) -> Option<(Event, Seq<u8>)> {
    match dec_u32(b1) {
        Option::None => Option::None,
        Option::Some((which, b2)) => match dec_i32(b2) {
            Option::None => Option::None,
            Option::Some((x, b3)) => match dec_i32(b3) {
                Option::None => Option::None,
                Option::Some((y, b4)) => match dec_i32(b4) {
                    Option::None => Option::None,
                    Option::Some((xrel, b5)) => match dec_i32(b5) {
                        Option::None => Option::None,
                        Option::Some((yrel, b6)) => match dec_u32(b6) {
                            Option::None => Option::None,
                            Option::Some((state, b7)) => Option::Some(
                                (Event::MouseMotion { which, x, y, xrel, yrel, state }, b7),
                            ),
                        },
                    },
                },
            },
        },
    }
}

/// The mouse-wheel field chain, after the tag byte.
pub open spec fn dec_wheel_fields(b1: Seq<u8>) -> Option<(Event, Seq<u8>)> {
    match dec_i32(b1) {
        Option::None => Option::None,
        Option::Some((x, b2)) => match dec_i32(b2) {
            Option::None => Option::None,
            Option::Some((y, b3)) => match dec_u32(b3) {
                Option::None => Option::None,
                Option::Some((which, b4)) => match dec_u32(b4) {
                    Option::None => Option::None,
                    Option::Some((direction, b5)) => Option::Some(
                        (Event::MouseWheel { x, y, which, direction }, b5),
                    ),
                },
            },
        },
    }
}

/// The decoding of one event.
pub open spec fn dec_event(b: Seq<u8>) -> Option<(Event, Seq<u8>)> {
    match dec_u8(b) {
        Option::None => Option::None,
        Option::Some((tag, b1)) => {
            if tag == 0 {
                Option::Some((Event::Quit, b1))
            } else if tag == 1 {
                Option::Some((Event::AppTerminating, b1))
            } else if tag == 2 {
                Option::Some((Event::AppLowMemory, b1))
            } else if tag == 3 {
                Option::Some((Event::AppWillEnterBackground, b1))
            } else if tag == 4 {
                Option::Some((Event::AppDidEnterBackground, b1))
            } else if tag == 5 {
                Option::Some((Event::AppWillEnterForeground, b1))
            } else if tag == 6 {
                dec_key_fields(b1, false)
            } else if tag == 7 {
                dec_key_fields(b1, true)
            } else if tag == 8 {
                dec_motion_fields(b1)
            } else if tag == 9 {
                dec_button_fields(b1, false)
            } else if tag == 10 {
                dec_button_fields(b1, true)
            } else if tag == 11 {
                dec_wheel_fields(b1)
            } else if tag == 12 {
                Option::Some((Event::Unknown, b1))
            } else {
                Option::None
            }
        },
    }
}

pub open spec fn enc_event_fn() -> spec_fn(Event) -> Seq<u8> {
    |e: Event| enc_event(e)
}

pub open spec fn dec_event_fn() -> spec_fn(Seq<u8>) -> Option<(Event, Seq<u8>)> {
    |bb: Seq<u8>| dec_event(bb)
}

/// The encoding of a whole event batch.
pub open spec fn enc_event_batch(es: Seq<Event>) -> Seq<u8>
    recommends
        es.len() < 0x1_0000_0000,
{
    enc_list(es, enc_event_fn())
}

/// The decoding of a whole payload into an event batch.
pub open spec fn dec_event_batch(b: Seq<u8>) -> Option<Seq<Event>> {
    match dec_list(b, dec_event_fn()) {
        Option::None => Option::None,
        Option::Some((es, rest)) => if rest.len() == 0 {
            Option::Some(es)
        } else {
            Option::None
        },
    }
}


// ---------------------------------------------------------------------------
// Event laws
// ---------------------------------------------------------------------------
proof fn lemma_opt_i32_complete(o: Option<i32>, rest: Seq<u8>)
    ensures
        dec_opt(enc_opt(o, enc_i32_fn()) + rest, dec_i32_fn()) == Option::Some((o, rest)),
{
    if o is Some {
        let v = o->0;
        assert forall|r: Seq<u8>| #[trigger] dec_i32_fn()(enc_i32_fn()(v) + r) == Option::Some(
            (v, r),
        ) by {
            crate::codec::lemma_enc_dec_i32(v, r);
        }
    }
    crate::codec::lemma_enc_dec_opt(o, rest, enc_i32_fn(), dec_i32_fn());
}

proof fn lemma_opt_i32_canonical(b: Seq<u8>)
    ensures
        dec_opt(b, dec_i32_fn()) matches Option::Some(p) ==> b == enc_opt(p.0, enc_i32_fn()) + p.1
            && p.1.len() < b.len(),
{
    assert forall|bb: Seq<u8>|
        (#[trigger] dec_i32_fn()(bb)) matches Option::Some(p) ==> bb == enc_i32_fn()(p.0) + p.1
            && p.1.len() < bb.len() by {
        crate::codec::lemma_dec_enc_i32(bb);
    }
    crate::codec::lemma_dec_enc_opt(b, enc_i32_fn(), dec_i32_fn());
}

#[verifier::rlimit(100)]
proof fn lemma_ed_event_key(e: Event, rest: Seq<u8>)
    requires
        e matches Event::KeyUp { .. } || e matches Event::KeyDown { .. },
    ensures
        dec_event(enc_event(e) + rest) == Option::Some((e, rest)),
{
    match e {
        Event::KeyUp { keycode, scancode, modifiers, repeat }
            | Event::KeyDown { keycode, scancode, modifiers, repeat } => {
            let t3 = enc_bool(repeat) + rest;
            let t2 = enc_u16(modifiers) + t3;
            let t1 = enc_opt(scancode, enc_i32_fn()) + t2;
            let t0 = enc_opt(keycode, enc_i32_fn()) + t1;
            assert(enc_event(e) + rest =~= seq![event_tag(e)] + t0);
            crate::codec::lemma_enc_dec_u8(event_tag(e), t0);
            lemma_opt_i32_complete(keycode, t1);
            lemma_opt_i32_complete(scancode, t2);
            crate::codec::lemma_enc_dec_u16(modifiers, t3);
            crate::codec::lemma_enc_dec_bool(repeat, rest);
        },
        _ => {},
    }
}

#[verifier::rlimit(100)]
proof fn lemma_ed_event_motion(e: Event, rest: Seq<u8>)
    requires
        e matches Event::MouseMotion { .. },
    ensures
        dec_event(enc_event(e) + rest) == Option::Some((e, rest)),
{
    match e {
        Event::MouseMotion { which, x, y, xrel, yrel, state } => {
            let t5 = enc_u32(state) + rest;
            let t4 = enc_i32(yrel) + t5;
            let t3 = enc_i32(xrel) + t4;
            let t2 = enc_i32(y) + t3;
            let t1 = enc_i32(x) + t2;
            let t0 = enc_u32(which) + t1;
            assert(enc_event(e) + rest =~= seq![8u8] + t0);
            crate::codec::lemma_enc_dec_u8(8u8, t0);
            crate::codec::lemma_enc_dec_u32(which, t1);
            crate::codec::lemma_enc_dec_i32(x, t2);
            crate::codec::lemma_enc_dec_i32(y, t3);
            crate::codec::lemma_enc_dec_i32(xrel, t4);
            crate::codec::lemma_enc_dec_i32(yrel, t5);
            crate::codec::lemma_enc_dec_u32(state, rest);
        },
        _ => {},
    }
}

#[verifier::rlimit(100)]
proof fn lemma_ed_event_button(e: Event, rest: Seq<u8>)
    requires
        e matches Event::MouseButtonUp { .. } || e matches Event::MouseButtonDown { .. },
    ensures
        dec_event(enc_event(e) + rest) == Option::Some((e, rest)),
{
    match e {
        Event::MouseButtonUp { x, y, clicks, which, button }
            | Event::MouseButtonDown { x, y, clicks, which, button } => {
            let t4 = enc_u8(button) + rest;
            let t3 = enc_u32(which) + t4;
            let t2 = enc_u8(clicks) + t3;
            let t1 = enc_i32(y) + t2;
            let t0 = enc_i32(x) + t1;
            assert(enc_event(e) + rest =~= seq![event_tag(e)] + t0);
            crate::codec::lemma_enc_dec_u8(event_tag(e), t0);
            crate::codec::lemma_enc_dec_i32(x, t1);
            crate::codec::lemma_enc_dec_i32(y, t2);
            crate::codec::lemma_enc_dec_u8(clicks, t3);
            crate::codec::lemma_enc_dec_u32(which, t4);
            crate::codec::lemma_enc_dec_u8(button, rest);
        },
        _ => {},
    }
}

#[verifier::rlimit(100)]
proof fn lemma_ed_event_wheel(e: Event, rest: Seq<u8>)
    requires
        e matches Event::MouseWheel { .. },
    ensures
        dec_event(enc_event(e) + rest) == Option::Some((e, rest)),
{
    match e {
        Event::MouseWheel { x, y, which, direction } => {
            let t3 = enc_u32(direction) + rest;
            let t2 = enc_u32(which) + t3;
            let t1 = enc_i32(y) + t2;
            let t0 = enc_i32(x) + t1;
            assert(enc_event(e) + rest =~= seq![11u8] + t0);
            crate::codec::lemma_enc_dec_u8(11u8, t0);
            crate::codec::lemma_enc_dec_i32(x, t1);
            crate::codec::lemma_enc_dec_i32(y, t2);
            crate::codec::lemma_enc_dec_u32(which, t3);
            crate::codec::lemma_enc_dec_u32(direction, rest);
        },
        _ => {},
    }
}

/// Decoding the encoding of an event, with anything after it, yields the
/// event and leaves exactly the trailing part unread.
pub proof fn lemma_enc_dec_event(e: Event, rest: Seq<u8>)
    ensures
        dec_event(enc_event(e) + rest) == Option::Some((e, rest)),
{
    match e {
        Event::Quit | Event::AppTerminating | Event::AppLowMemory | Event::AppWillEnterBackground
            | Event::AppDidEnterBackground | Event::AppWillEnterForeground | Event::Unknown => {
            assert(enc_event(e) + rest =~= seq![event_tag(e)] + rest);
            crate::codec::lemma_enc_dec_u8(event_tag(e), rest);
        },
        Event::KeyUp { .. } | Event::KeyDown { .. } => lemma_ed_event_key(e, rest),
        Event::MouseMotion { .. } => lemma_ed_event_motion(e, rest),
        Event::MouseButtonUp { .. } | Event::MouseButtonDown { .. } => lemma_ed_event_button(
            e,
            rest,
        ),
        Event::MouseWheel { .. } => lemma_ed_event_wheel(e, rest),
    }
}

#[verifier::rlimit(100)]
proof fn lemma_de_event_key(b: Seq<u8>, tag: u8, b1: Seq<u8>)
    requires
        dec_u8(b) == Option::Some((tag, b1)),
        tag == 6 || tag == 7,
    ensures
        dec_event(b) matches Option::Some(p) ==> b == enc_event(p.0) + p.1 && p.1.len() < b.len(),
{
    crate::codec::lemma_dec_enc_u8(b);
    lemma_opt_i32_canonical(b1);
    if dec_opt(b1, dec_i32_fn()) is Some {
        let (keycode, b2) = dec_opt(b1, dec_i32_fn())->Some_0;
        lemma_opt_i32_canonical(b2);
        if dec_opt(b2, dec_i32_fn()) is Some {
            let (scancode, b3) = dec_opt(b2, dec_i32_fn())->Some_0;
            crate::codec::lemma_dec_enc_u16(b3);
            if dec_u16(b3) is Some {
                let (modifiers, b4) = dec_u16(b3)->Some_0;
                crate::codec::lemma_dec_enc_bool(b4);
                if dec_bool(b4) is Some {
                    let (repeat, b5) = dec_bool(b4)->Some_0;
                    assert(b =~= (seq![tag] + (enc_opt(keycode, enc_i32_fn()) + enc_opt(
                        scancode,
                        enc_i32_fn(),
                    ) + enc_u16(modifiers) + enc_bool(repeat))) + b5);
                }
            }
        }
    }
}

#[verifier::rlimit(100)]
proof fn lemma_de_event_motion(b: Seq<u8>, b1: Seq<u8>)
    requires
        dec_u8(b) == Option::Some((8u8, b1)),
    ensures
        dec_event(b) matches Option::Some(p) ==> b == enc_event(p.0) + p.1 && p.1.len() < b.len(),
{
    crate::codec::lemma_dec_enc_u8(b);
    crate::codec::lemma_dec_enc_u32(b1);
    if dec_u32(b1) is Some {
        let (which, b2) = dec_u32(b1)->Some_0;
        crate::codec::lemma_dec_enc_i32(b2);
        if dec_i32(b2) is Some {
            let (x, b3) = dec_i32(b2)->Some_0;
            crate::codec::lemma_dec_enc_i32(b3);
            if dec_i32(b3) is Some {
                let (y, b4) = dec_i32(b3)->Some_0;
                crate::codec::lemma_dec_enc_i32(b4);
                if dec_i32(b4) is Some {
                    let (xrel, b5) = dec_i32(b4)->Some_0;
                    crate::codec::lemma_dec_enc_i32(b5);
                    if dec_i32(b5) is Some {
                        let (yrel, b6) = dec_i32(b5)->Some_0;
                        crate::codec::lemma_dec_enc_u32(b6);
                        if dec_u32(b6) is Some {
                            let (state, b7) = dec_u32(b6)->Some_0;
                            assert(b =~= (seq![8u8] + (enc_u32(which) + enc_i32(x) + enc_i32(y)
                                + enc_i32(xrel) + enc_i32(yrel) + enc_u32(state))) + b7);
                        }
                    }
                }
            }
        }
    }
}

#[verifier::rlimit(100)]
proof fn lemma_de_event_button(b: Seq<u8>, tag: u8, b1: Seq<u8>)
    requires
        dec_u8(b) == Option::Some((tag, b1)),
        tag == 9 || tag == 10,
    ensures
        dec_event(b) matches Option::Some(p) ==> b == enc_event(p.0) + p.1 && p.1.len() < b.len(),
{
    crate::codec::lemma_dec_enc_u8(b);
    crate::codec::lemma_dec_enc_i32(b1);
    if dec_i32(b1) is Some {
        let (x, b2) = dec_i32(b1)->Some_0;
        crate::codec::lemma_dec_enc_i32(b2);
        if dec_i32(b2) is Some {
            let (y, b3) = dec_i32(b2)->Some_0;
            crate::codec::lemma_dec_enc_u8(b3);
            if dec_u8(b3) is Some {
                let (clicks, b4) = dec_u8(b3)->Some_0;
                crate::codec::lemma_dec_enc_u32(b4);
                if dec_u32(b4) is Some {
                    let (which, b5) = dec_u32(b4)->Some_0;
                    crate::codec::lemma_dec_enc_u8(b5);
                    if dec_u8(b5) is Some {
                        let (button, b6) = dec_u8(b5)->Some_0;
                        assert(b =~= (seq![tag] + (enc_i32(x) + enc_i32(y) + enc_u8(clicks)
                            + enc_u32(which) + enc_u8(button))) + b6);
                    }
                }
            }
        }
    }
}

#[verifier::rlimit(100)]
proof fn lemma_de_event_wheel(b: Seq<u8>, b1: Seq<u8>)
    requires
        dec_u8(b) == Option::Some((11u8, b1)),
    ensures
        dec_event(b) matches Option::Some(p) ==> b == enc_event(p.0) + p.1 && p.1.len() < b.len(),
{
    crate::codec::lemma_dec_enc_u8(b);
    crate::codec::lemma_dec_enc_i32(b1);
    if dec_i32(b1) is Some {
        let (x, b2) = dec_i32(b1)->Some_0;
        crate::codec::lemma_dec_enc_i32(b2);
        if dec_i32(b2) is Some {
            let (y, b3) = dec_i32(b2)->Some_0;
            crate::codec::lemma_dec_enc_u32(b3);
            if dec_u32(b3) is Some {
                let (which, b4) = dec_u32(b3)->Some_0;
                crate::codec::lemma_dec_enc_u32(b4);
                if dec_u32(b4) is Some {
                    let (direction, b5) = dec_u32(b4)->Some_0;
                    assert(b =~= (seq![11u8] + (enc_i32(x) + enc_i32(y) + enc_u32(which) + enc_u32(
                        direction,
                    ))) + b5);
                }
            }
        }
    }
}

/// A successful event decode consumed exactly the encoding of the event it
/// returned.
pub proof fn lemma_dec_enc_event(b: Seq<u8>)
    ensures
        dec_event(b) matches Option::Some(p) ==> b == enc_event(p.0) + p.1 && p.1.len() < b.len(),
{
    if dec_u8(b) is Some {
        let (tag, b1) = dec_u8(b)->Some_0;
        crate::codec::lemma_dec_enc_u8(b);
        if tag == 0 {
            assert(enc_event(Event::Quit) + b1 =~= seq![tag] + b1);
        } else if tag == 1 {
            assert(enc_event(Event::AppTerminating) + b1 =~= seq![tag] + b1);
        } else if tag == 2 {
            assert(enc_event(Event::AppLowMemory) + b1 =~= seq![tag] + b1);
        } else if tag == 3 {
            assert(enc_event(Event::AppWillEnterBackground) + b1 =~= seq![tag] + b1);
        } else if tag == 4 {
            assert(enc_event(Event::AppDidEnterBackground) + b1 =~= seq![tag] + b1);
        } else if tag == 5 {
            assert(enc_event(Event::AppWillEnterForeground) + b1 =~= seq![tag] + b1);
        } else if tag == 6 || tag == 7 {
            lemma_de_event_key(b, tag, b1);
        } else if tag == 8 {
            lemma_de_event_motion(b, b1);
        } else if tag == 9 || tag == 10 {
            lemma_de_event_button(b, tag, b1);
        } else if tag == 11 {
            lemma_de_event_wheel(b, b1);
        } else if tag == 12 {
            assert(enc_event(Event::Unknown) + b1 =~= seq![tag] + b1);
        }
    }
}

pub open spec fn true_event_fn() -> spec_fn(Event) -> bool {
    |e: Event| true
}

/// Decoding the encoding of an event batch yields the batch back.
pub proof fn lemma_event_batch_round_trip(es: Seq<Event>)
    requires
        es.len() < 0x1_0000_0000,
    ensures
        dec_event_batch(enc_event_batch(es)) == Option::Some(es),
{
    assert forall|i: int, r: Seq<u8>| 0 <= i < es.len() implies #[trigger] dec_event_fn()(
        enc_event_fn()(es[i]) + r,
    ) == Option::Some((es[i], r)) by {
        lemma_enc_dec_event(es[i], r);
    }
    crate::codec::lemma_enc_dec_list(es, Seq::<u8>::empty(), enc_event_fn(), dec_event_fn());
    assert(enc_event_batch(es) + Seq::<u8>::empty() =~= enc_event_batch(es));
}

/// A payload that decodes to an event batch is, byte for byte, that
/// batch's encoding.
pub proof fn lemma_event_batch_canonical(b: Seq<u8>)
    ensures
        dec_event_batch(b) matches Option::Some(es) ==> es.len() < 0x1_0000_0000
            && enc_event_batch(es) == b,
{
    assert forall|bb: Seq<u8>|
        (#[trigger] dec_event_fn()(bb)) matches Option::Some(p) ==> bb == enc_event_fn()(p.0)
            + p.1 && p.1.len() < bb.len() && true_event_fn()(p.0) by {
        lemma_dec_enc_event(bb);
    }
    crate::codec::lemma_dec_enc_list(b, enc_event_fn(), dec_event_fn(), true_event_fn());
    if dec_list(b, dec_event_fn()) is Some {
        let (es, rest) = dec_list(b, dec_event_fn())->Some_0;
        if rest.len() == 0 {
            assert(enc_event_batch(es) + rest =~= enc_event_batch(es));
        }
    }
}


// ---------------------------------------------------------------------------
// Executable event codec
// ---------------------------------------------------------------------------
fn write_opt_i32(out: &mut Vec<u8>, o: Option<i32>)
    ensures
        final(out)@ == old(out)@ + enc_opt(o, enc_i32_fn()),
{
    match o {
        Option::None => {
            out.push(0);
            proof {
                assert(old(out)@.push(0u8) =~= old(out)@ + enc_opt(o, enc_i32_fn()));
            }
        },
        Option::Some(v) => {
            out.push(1);
            write_i32(out, v);
            proof {
                assert(old(out)@.push(1u8) + enc_i32(v) =~= old(out)@ + enc_opt(o, enc_i32_fn()));
            }
        },
    }
}

fn read_opt_i32(b: &[u8], pos: usize) -> (r: Option<(Option<i32>, usize)>)
    requires
        pos <= b@.len(),
    ensures
        match r {
            Option::Some(p) => pos < p.1 <= b@.len() && dec_opt(b@.skip(pos as int), dec_i32_fn())
                == Option::Some((p.0, b@.skip(p.1 as int))),
            Option::None => dec_opt(b@.skip(pos as int), dec_i32_fn()) is None,
        },
{
    if pos < b.len() {
        let t: u8 = *vstd::slice::slice_index_get(b, pos);
        proof {
            assert(b@.skip(pos as int)[0] == b@[pos as int]);
            assert(b@.skip(pos as int).skip(1) =~= b@.skip(pos as int + 1));
        }
        if t == 0 {
            Option::Some((Option::None, pos + 1))
        } else if t == 1 {
            match read_i32(b, pos + 1) {
                Option::None => Option::None,
                Option::Some((v, p2)) => Option::Some((Option::Some(v), p2)),
            }
        } else {
            Option::None
        }
    } else {
        Option::None
    }
}

/// Appends one event's encoding to an output buffer.
#[verifier::rlimit(100)]
pub fn write_event(out: &mut Vec<u8>, e: &Event)
    ensures
        final(out)@ == old(out)@ + enc_event(*e),
{
    match e {
        Event::Quit => {
            write_u8(out, 0);
            proof {
                assert(old(out)@ + enc_u8(0) =~= old(out)@ + enc_event(*e));
            }
        },
        Event::AppTerminating => {
            write_u8(out, 1);
            proof {
                assert(old(out)@ + enc_u8(1) =~= old(out)@ + enc_event(*e));
            }
        },
        Event::AppLowMemory => {
            write_u8(out, 2);
            proof {
                assert(old(out)@ + enc_u8(2) =~= old(out)@ + enc_event(*e));
            }
        },
        Event::AppWillEnterBackground => {
            write_u8(out, 3);
            proof {
                assert(old(out)@ + enc_u8(3) =~= old(out)@ + enc_event(*e));
            }
        },
        Event::AppDidEnterBackground => {
            write_u8(out, 4);
            proof {
                assert(old(out)@ + enc_u8(4) =~= old(out)@ + enc_event(*e));
            }
        },
        Event::AppWillEnterForeground => {
            write_u8(out, 5);
            proof {
                assert(old(out)@ + enc_u8(5) =~= old(out)@ + enc_event(*e));
            }
        },
        Event::KeyUp { keycode, scancode, modifiers, repeat } => {
            write_u8(out, 6);
            write_opt_i32(out, *keycode);
            write_opt_i32(out, *scancode);
            write_u16(out, *modifiers);
            write_bool(out, *repeat);
            proof {
                assert(old(out)@ + enc_u8(6) + enc_opt(*keycode, enc_i32_fn()) + enc_opt(
                    *scancode,
                    enc_i32_fn(),
                ) + enc_u16(*modifiers) + enc_bool(*repeat) =~= old(out)@ + enc_event(*e));
            }
        },
        Event::KeyDown { keycode, scancode, modifiers, repeat } => {
            write_u8(out, 7);
            write_opt_i32(out, *keycode);
            write_opt_i32(out, *scancode);
            write_u16(out, *modifiers);
            write_bool(out, *repeat);
            proof {
                assert(old(out)@ + enc_u8(7) + enc_opt(*keycode, enc_i32_fn()) + enc_opt(
                    *scancode,
                    enc_i32_fn(),
                ) + enc_u16(*modifiers) + enc_bool(*repeat) =~= old(out)@ + enc_event(*e));
            }
        },
        Event::MouseMotion { which, x, y, xrel, yrel, state } => {
            write_u8(out, 8);
            write_u32(out, *which);
            write_i32(out, *x);
            write_i32(out, *y);
            write_i32(out, *xrel);
            write_i32(out, *yrel);
            write_u32(out, *state);
            proof {
                assert(old(out)@ + enc_u8(8) + enc_u32(*which) + enc_i32(*x) + enc_i32(*y)
                    + enc_i32(*xrel) + enc_i32(*yrel) + enc_u32(*state) =~= old(out)@ + enc_event(
                    *e,
                ));
            }
        },
        Event::MouseButtonUp { x, y, clicks, which, button } => {
            write_u8(out, 9);
            write_i32(out, *x);
            write_i32(out, *y);
            write_u8(out, *clicks);
            write_u32(out, *which);
            write_u8(out, *button);
            proof {
                assert(old(out)@ + enc_u8(9) + enc_i32(*x) + enc_i32(*y) + enc_u8(*clicks)
                    + enc_u32(*which) + enc_u8(*button) =~= old(out)@ + enc_event(*e));
            }
        },
        Event::MouseButtonDown { x, y, clicks, which, button } => {
            write_u8(out, 10);
            write_i32(out, *x);
            write_i32(out, *y);
            write_u8(out, *clicks);
            write_u32(out, *which);
            write_u8(out, *button);
            proof {
                assert(old(out)@ + enc_u8(10) + enc_i32(*x) + enc_i32(*y) + enc_u8(*clicks)
                    + enc_u32(*which) + enc_u8(*button) =~= old(out)@ + enc_event(*e));
            }
        },
        Event::MouseWheel { x, y, which, direction } => {
            write_u8(out, 11);
            write_i32(out, *x);
            write_i32(out, *y);
            write_u32(out, *which);
            write_u32(out, *direction);
            proof {
                assert(old(out)@ + enc_u8(11) + enc_i32(*x) + enc_i32(*y) + enc_u32(*which)
                    + enc_u32(*direction) =~= old(out)@ + enc_event(*e));
            }
        },
        Event::Unknown => {
            write_u8(out, 12);
            proof {
                assert(old(out)@ + enc_u8(12) =~= old(out)@ + enc_event(*e));
            }
        },
    }
}

/// Encodes a whole batch of events into a payload.
pub fn encode_event_batch(events: &Vec<Event>) -> (r: Vec<u8>)
    requires
        events@.len() < 0x1_0000_0000,
    ensures
        r@ == enc_event_batch(events@),
{
    let mut out: Vec<u8> = Vec::new();
    write_u32(&mut out, events.len() as u32);
    let ghost mid = out@;
    let mut i: usize = 0;
    while i < events.len()
        invariant
            i <= events@.len(),
            mid == enc_u32(events@.len() as u32),
            events@.len() < 0x1_0000_0000,
            out@ == mid + enc_items(events@.take(i as int), enc_event_fn()),
        decreases events@.len() - i,
    {
        write_event(&mut out, &events[i]);
        proof {
            crate::codec::lemma_enc_items_push(events@.take(i as int), events@[i as int],
                enc_event_fn());
            assert(events@.take(i as int + 1) =~= events@.take(i as int).push(events@[i as int]));
            assert(mid + enc_items(events@.take(i as int), enc_event_fn()) + enc_event(
                events@[i as int],
            ) =~= mid + enc_items(events@.take(i as int + 1), enc_event_fn()));
        }
        i = i + 1;
    }
    proof {
        assert(events@.take(events@.len() as int) =~= events@);
        assert(mid + enc_items(events@, enc_event_fn()) =~= enc_event_batch(events@));
    }
    out
}

/// Reads one event at a cursor position.
#[verifier::rlimit(100)]
pub fn read_event(b: &[u8], pos: usize) -> (r: Option<(Event, usize)>)
    requires
        pos <= b@.len(),
    ensures
        match r {
            Option::Some(p) => pos < p.1 <= b@.len() && dec_event(b@.skip(pos as int))
                == Option::Some((p.0, b@.skip(p.1 as int))),
            Option::None => dec_event(b@.skip(pos as int)) is None,
        },
{
    match read_u8(b, pos) {
        Option::None => Option::None,
        Option::Some((tag, p1)) => {
            if tag == 0 {
                Option::Some((Event::Quit, p1))
            } else if tag == 1 {
                Option::Some((Event::AppTerminating, p1))
            } else if tag == 2 {
                Option::Some((Event::AppLowMemory, p1))
            } else if tag == 3 {
                Option::Some((Event::AppWillEnterBackground, p1))
            } else if tag == 4 {
                Option::Some((Event::AppDidEnterBackground, p1))
            } else if tag == 5 {
                Option::Some((Event::AppWillEnterForeground, p1))
            } else if tag == 6 || tag == 7 {
                match read_opt_i32(b, p1) {
                    Option::None => Option::None,
                    Option::Some((keycode, p2)) => match read_opt_i32(b, p2) {
                        Option::None => Option::None,
                        Option::Some((scancode, p3)) => match read_u16(b, p3) {
                            Option::None => Option::None,
                            Option::Some((modifiers, p4)) => match read_bool(b, p4) {
                                Option::None => Option::None,
                                Option::Some((repeat, p5)) => {
                                    if tag == 6 {
                                        Option::Some(
                                            (
                                                Event::KeyUp {
                                                    keycode,
                                                    scancode,
                                                    modifiers,
                                                    repeat,
                                                },
                                                p5,
                                            ),
                                        )
                                    } else {
                                        Option::Some(
                                            (
                                                Event::KeyDown {
                                                    keycode,
                                                    scancode,
                                                    modifiers,
                                                    repeat,
                                                },
                                                p5,
                                            ),
                                        )
                                    }
                                },
                            },
                        },
                    },
                }
            } else if tag == 8 {
                match read_u32(b, p1) {
                    Option::None => Option::None,
                    Option::Some((which, p2)) => match read_i32(b, p2) {
                        Option::None => Option::None,
                        Option::Some((x, p3)) => match read_i32(b, p3) {
                            Option::None => Option::None,
                            Option::Some((y, p4)) => match read_i32(b, p4) {
                                Option::None => Option::None,
                                Option::Some((xrel, p5)) => match read_i32(b, p5) {
                                    Option::None => Option::None,
                                    Option::Some((yrel, p6)) => match read_u32(b, p6) {
                                        Option::None => Option::None,
                                        Option::Some((state, p7)) => Option::Some(
                                            (
                                                Event::MouseMotion {
                                                    which,
                                                    x,
                                                    y,
                                                    xrel,
                                                    yrel,
                                                    state,
                                                },
                                                p7,
                                            ),
                                        ),
                                    },
                                },
                            },
                        },
                    },
                }
            } else if tag == 9 || tag == 10 {
                match read_i32(b, p1) {
                    Option::None => Option::None,
                    Option::Some((x, p2)) => match read_i32(b, p2) {
                        Option::None => Option::None,
                        Option::Some((y, p3)) => match read_u8(b, p3) {
                            Option::None => Option::None,
                            Option::Some((clicks, p4)) => match read_u32(b, p4) {
                                Option::None => Option::None,
                                Option::Some((which, p5)) => match read_u8(b, p5) {
                                    Option::None => Option::None,
                                    Option::Some((button, p6)) => {
                                        if tag == 9 {
                                            Option::Some(
                                                (
                                                    Event::MouseButtonUp {
                                                        x,
                                                        y,
                                                        clicks,
                                                        which,
                                                        button,
                                                    },
                                                    p6,
                                                ),
                                            )
                                        } else {
                                            Option::Some(
                                                (
                                                    Event::MouseButtonDown {
                                                        x,
                                                        y,
                                                        clicks,
                                                        which,
                                                        button,
                                                    },
                                                    p6,
                                                ),
                                            )
                                        }
                                    },
                                },
                            },
                        },
                    },
                }
            } else if tag == 11 {
                match read_i32(b, p1) {
                    Option::None => Option::None,
                    Option::Some((x, p2)) => match read_i32(b, p2) {
                        Option::None => Option::None,
                        Option::Some((y, p3)) => match read_u32(b, p3) {
                            Option::None => Option::None,
                            Option::Some((which, p4)) => match read_u32(b, p4) {
                                Option::None => Option::None,
                                Option::Some((direction, p5)) => Option::Some(
                                    (Event::MouseWheel { x, y, which, direction }, p5),
                                ),
                            },
                        },
                    },
                }
            } else if tag == 12 {
                Option::Some((Event::Unknown, p1))
            } else {
                Option::None
            }
        },
    }
}

/// Decodes a whole payload into an event batch; succeeds exactly when the
/// payload is, byte for byte, the encoding of a batch.
pub fn decode_event_batch(payload: &[u8]) -> (r: Option<Vec<Event>>)
    ensures
        match r {
            Option::Some(es) => dec_event_batch(payload@) == Option::Some(es@),
            Option::None => dec_event_batch(payload@) is None,
        },
{
    proof {
        assert(payload@.skip(0) =~= payload@);
    }
    match read_u32(payload, 0) {
        Option::None => Option::None,
        Option::Some((n, p0)) => {
            let mut acc: Vec<Event> = Vec::new();
            let mut cur: usize = p0;
            let mut i: u32 = 0;
            while i < n
                invariant
                    p0 <= cur <= payload@.len(),
                    i <= n,
                    dec_u32(payload@) == Option::Some((n, payload@.skip(p0 as int))),
                    match dec_items(payload@.skip(cur as int), (n - i) as nat, dec_event_fn()) {
                        Option::Some(p) => dec_items(
                            payload@.skip(p0 as int),
                            n as nat,
                            dec_event_fn(),
                        ) == Option::Some((acc@ + p.0, p.1)),
                        Option::None => dec_items(
                            payload@.skip(p0 as int),
                            n as nat,
                            dec_event_fn(),
                        ) is None,
                    },
                decreases n - i,
            {
                match read_event(payload, cur) {
                    Option::None => {
                        return Option::None;
                    },
                    Option::Some((e, p2)) => {
                        proof {
                            let tail = dec_items(
                                payload@.skip(p2 as int),
                                (n - i - 1) as nat,
                                dec_event_fn(),
                            );
                            if tail is Some {
                                let q = tail->Some_0;
                                assert(acc@ + (seq![e] + q.0) =~= acc@.push(e) + q.0);
                            }
                        }
                        acc.push(e);
                        cur = p2;
                        i = i + 1;
                    },
                }
            }
            proof {
                assert(dec_items(payload@.skip(cur as int), 0, dec_event_fn()) == Option::Some(
                    (Seq::<Event>::empty(), payload@.skip(cur as int)),
                ));
                assert(acc@ + Seq::<Event>::empty() =~= acc@);
            }
            if cur == payload.len() {
                proof {
                    assert(payload@.skip(cur as int).len() == 0);
                }
                Option::Some(acc)
            } else {
                proof {
                    assert(payload@.skip(cur as int).len() > 0);
                }
                Option::None
            }
        },
    }
}

} // verus!
