//! The session protocol: handshake, steady-state loop, and framing.
//!
//! One session is one controller-to-renderer connection. Every message on
//! the wire is a 4-byte little-endian length prefix followed by that many
//! payload bytes; the renderer announces protocol phases with one leading
//! tag byte (`READY_FOR_WINDOW_CONFIG`, `READY_FOR_COMMANDS`,
//! `EVENTS_FOLLOW`), the controller's messages are bare frames.
//!
//! The handshake runs `Connecting`, then `AwaitWindowConfig`,
//! `AwaitCanvasConfig`, and `Looping`. In `Looping`, each cycle sends the
//! pending input events (only when there are any — the policy here, fixed
//! and documented: an empty cycle sends no event frame), signals
//! readiness, and takes one unified command batch — window-management and
//! drawing commands together, applied in issue order — which the engine
//! applies in order. A malformed
//! configuration ends the session: the window cannot be built without it.
//! A malformed command batch fails only that batch: the session stays in
//! `Looping` and the engine is untouched. A transport error at any point
//! tears the session down at once; partially read frames are fatal. The
//! session ends when the engine executes `Quit` or the transport is lost.

use crate::codec::{enc_u32, write_u32};
use crate::command::Command;
use crate::command_codec::dec_cmd_batch;
use crate::config::{
    dec_canvas_config, dec_window_config, decode_canvas_config, decode_window_config,
    CanvasConfig, WindowConfig,
};
use crate::engine::{Engine, EngineState};
use crate::codec::enc_items;
use crate::event::{enc_event, enc_event_batch, encode_event_batch, Event};
use crate::table::{distinct_handles, map_of, Resource};
use vstd::bytes::{lemma_auto_spec_u32_to_from_le_bytes, u32_from_le_bytes};
use vstd::prelude::*;

verus! {

/// The renderer is ready for the window configuration.
pub const READY_FOR_WINDOW_CONFIG: u8 = 0;

/// The renderer is ready for the canvas configuration, or, once looping,
/// for the next command batch.
pub const READY_FOR_COMMANDS: u8 = 1;

/// An event frame follows this tag byte.
pub const EVENTS_FOLLOW: u8 = 2;

/// A payload failed to decode.
#[derive(Clone, Copy, PartialEq, Eq, Structural, Debug)]
pub struct DecodeError;

/// The session's protocol phase.
#[derive(Clone, Copy, PartialEq, Eq, Structural, Debug)]
pub enum SessionState {
    Connecting,
    AwaitWindowConfig,
    AwaitCanvasConfig,
    Looping,
    Closed,
}

// ---------------------------------------------------------------------------
// Framing
// ---------------------------------------------------------------------------
/// A framed message: 4-byte little-endian payload length, then the payload.
pub open spec fn enc_frame(payload: Seq<u8>) -> Seq<u8>
    recommends
        payload.len() < 0x1_0000_0000,
{
    enc_u32(payload.len() as u32) + payload
}

/// Wraps a payload in its length-prefixed frame.
pub fn frame_message(payload: &Vec<u8>) -> (r: Vec<u8>)
    requires
        payload@.len() < 0x1_0000_0000,
    ensures
        r@ == enc_frame(payload@),
{
    let mut out: Vec<u8> = Vec::new();
    write_u32(&mut out, payload.len() as u32);
    let mut i: usize = 0;
    while i < payload.len()
        invariant
            i <= payload@.len(),
            out@ == enc_u32(payload@.len() as u32) + payload@.take(i as int),
        decreases payload@.len() - i,
    {
        out.push(payload[i]);
        proof {
            assert(enc_u32(payload@.len() as u32) + payload@.take(i as int + 1) =~= (enc_u32(
                payload@.len() as u32,
            ) + payload@.take(i as int)).push(payload@[i as int]));
        }
        i = i + 1;
    }
    proof {
        assert(payload@.take(payload@.len() as int) =~= payload@);
    }
    out
}

/// Reads the payload length out of a frame header. The header is exactly
/// the length's encoding: after reading that many payload bytes, the
/// frame is consumed; a transport that cannot deliver them has lost the
/// frame boundary, which is fatal to the session.
pub fn frame_payload_len(header: &[u8]) -> (n: u32)
    requires
        header@.len() == 4,
    ensures
        enc_u32(n) == header@,
{
    proof {
        lemma_auto_spec_u32_to_from_le_bytes();
    }
    u32_from_le_bytes(header)
}

// ---------------------------------------------------------------------------
// The session
// ---------------------------------------------------------------------------
/// One controller-to-renderer session: the protocol phase and the engine
/// that executes its batches.
pub struct Session {
    pub state: SessionState,
    pub engine: Engine,
}

impl Session {
    /// The engine's own invariant, plus the tie between the protocol phase
    /// and the engine's lifecycle: before the loop the engine is untouched,
    /// and inside the loop it has not been closed yet — only `end_batch`
    /// and `on_transport_lost` close it, and they close the session too.
    pub open spec fn inv(&self) -> bool {
        &&& self.engine.inv()
        &&& (self.state == SessionState::Connecting || self.state
            == SessionState::AwaitWindowConfig || self.state == SessionState::AwaitCanvasConfig)
            ==> self.engine.state == EngineState::Idle
        &&& self.state == SessionState::Looping ==> self.engine.state != EngineState::Closed
    }

    /// A fresh session, about to connect.
    pub fn new() -> (r: Session)
        ensures
            r.inv(),
            r.state == SessionState::Connecting,
            r.engine.state == EngineState::Idle,
            r.engine.table@ == Map::<u32, Resource>::empty(),
    {
        Session { state: SessionState::Connecting, engine: Engine::new() }
    }

    /// The transport is up: announce readiness for the window
    /// configuration.
    pub fn begin(&mut self) -> (signal: u8)
        requires
            old(self).inv(),
            old(self).state == SessionState::Connecting,
        ensures
            final(self).inv(),
            final(self).state == SessionState::AwaitWindowConfig,
            final(self).engine == old(self).engine,
            signal == READY_FOR_WINDOW_CONFIG,
    {
        self.state = SessionState::AwaitWindowConfig;
        READY_FOR_WINDOW_CONFIG
    }

    /// Takes the window-configuration payload. On success the caller gets
    /// the configuration to build the window from, and the signal byte to
    /// send once it is built; a malformed payload closes the session.
    pub fn on_window_config(&mut self, payload: &[u8]) -> (r: Result<(WindowConfig, u8), DecodeError>)
        requires
            old(self).inv(),
            old(self).state == SessionState::AwaitWindowConfig,
        ensures
            final(self).inv(),
            final(self).engine == old(self).engine,
            match r {
                Result::Ok(p) => dec_window_config(payload@) == Option::Some(p.0@) && p.1
                    == READY_FOR_COMMANDS && final(self).state == SessionState::AwaitCanvasConfig,
                Result::Err(_) => dec_window_config(payload@) is None && final(self).state
                    == SessionState::Closed,
            },
    {
        match decode_window_config(payload) {
            Option::Some(cfg) => {
                self.state = SessionState::AwaitCanvasConfig;
                Result::Ok((cfg, READY_FOR_COMMANDS))
            },
            Option::None => {
                self.state = SessionState::Closed;
                Result::Err(DecodeError)
            },
        }
    }

    /// Takes the canvas-configuration payload. On success the session
    /// enters the steady-state loop; a malformed payload closes it.
    pub fn on_canvas_config(&mut self, payload: &[u8]) -> (r: Result<CanvasConfig, DecodeError>)
        requires
            old(self).inv(),
            old(self).state == SessionState::AwaitCanvasConfig,
        ensures
            final(self).inv(),
            final(self).engine == old(self).engine,
            match r {
                Result::Ok(cfg) => dec_canvas_config(payload@) == Option::Some(cfg)
                    && final(self).state == SessionState::Looping,
                Result::Err(_) => dec_canvas_config(payload@) is None && final(self).state
                    == SessionState::Closed,
            },
    {
        match decode_canvas_config(payload) {
            Option::Some(cfg) => {
                self.state = SessionState::Looping;
                Result::Ok(cfg)
            },
            Option::None => {
                self.state = SessionState::Closed;
                Result::Err(DecodeError)
            },
        }
    }

    /// Takes one command-batch payload. On success the caller receives the
    /// decoded batch, to be fed to the engine one command at a time; a
    /// malformed payload fails only this batch — nothing was applied, the
    /// session stays in the loop, and the controller may resend.
    pub fn on_command_batch(&mut self, payload: &[u8]) -> (r: Result<Vec<Command>, DecodeError>)
        requires
            old(self).inv(),
            old(self).state == SessionState::Looping,
        ensures
            final(self).inv(),
            final(self).engine == old(self).engine,
            final(self).state == SessionState::Looping,
            match r {
                Result::Ok(cmds) => dec_cmd_batch(payload@) == Option::Some(cmds.deep_view()),
                Result::Err(_) => dec_cmd_batch(payload@) is None,
            },
    {
        match crate::command_codec::decode_command_batch(payload) {
            Option::Some(cmds) => Result::Ok(cmds),
            Option::None => Result::Err(DecodeError),
        }
    }

    /// Ends the cycle's batch. If the engine saw `Quit`, it finishes
    /// draining — the returned resources are for the caller to release,
    /// each handed back exactly once — and the session closes.
    pub fn end_batch(&mut self) -> (released: Vec<(u32, Resource)>)
        requires
            old(self).inv(),
            old(self).state == SessionState::Looping,
        ensures
            final(self).inv(),
            old(self).engine.state == EngineState::Draining ==> final(self).state
                == SessionState::Closed && final(self).engine.state == EngineState::Closed
                && final(self).engine.table@ == Map::<u32, Resource>::empty()
                && map_of(released@) == old(self).engine.table@ && distinct_handles(released@),
            old(self).engine.state != EngineState::Draining ==> final(self).state
                == SessionState::Looping && final(self).engine == old(self).engine
                && released@.len() == 0,
    {
        let released = self.engine.end_batch();
        match self.engine.state {
            EngineState::Closed => {
                self.state = SessionState::Closed;
            },
            _ => {},
        }
        released
    }

    /// The transport failed or the peer closed: tear the session down at
    /// once. The returned resources are for the caller to release, each
    /// handed back exactly once. No reconnection is attempted.
    pub fn on_transport_lost(&mut self) -> (released: Vec<(u32, Resource)>)
        requires
            old(self).inv(),
        ensures
            final(self).inv(),
            final(self).state == SessionState::Closed,
            final(self).engine.state == EngineState::Closed,
            final(self).engine.table@ == Map::<u32, Resource>::empty(),
            map_of(released@) == old(self).engine.table@,
            distinct_handles(released@),
    {
        self.state = SessionState::Closed;
        self.engine.close()
    }
}

// ---------------------------------------------------------------------------
// The event message
// ---------------------------------------------------------------------------
proof fn lemma_enc_event_len(e: Event)
    ensures
        enc_event(e).len() <= 25,
{
    vstd::bytes::lemma_auto_spec_u16_to_from_le_bytes();
    lemma_auto_spec_u32_to_from_le_bytes();
    match e {
        Event::KeyUp { keycode, scancode, .. } | Event::KeyDown { keycode, scancode, .. } => {
            assert(crate::codec::enc_opt(keycode, crate::event::enc_i32_fn()).len() <= 5);
            assert(crate::codec::enc_opt(scancode, crate::event::enc_i32_fn()).len() <= 5);
        },
        _ => {},
    }
}

proof fn lemma_enc_event_items_len(es: Seq<Event>)
    ensures
        enc_items(es, crate::event::enc_event_fn()).len() <= 25 * es.len(),
    decreases es.len(),
{
    if es.len() > 0 {
        lemma_enc_event_len(es[0]);
        lemma_enc_event_items_len(es.skip(1));
    }
}

/// The cycle's outbound event message: nothing when no events are
/// pending — this implementation sends event frames only when non-empty —
/// else the event tag byte followed by the framed encoded batch.
pub fn events_message(events: &Vec<Event>) -> (r: Option<Vec<u8>>)
    requires
        events@.len() < 0x0100_0000,
    ensures
        events@.len() == 0 ==> r is None,
        events@.len() > 0 ==> (r matches Option::Some(msg) && msg@ == seq![EVENTS_FOLLOW]
            + enc_frame(enc_event_batch(events@))),
{
    if events.len() == 0 {
        return Option::None;
    }
    proof {
        lemma_enc_event_items_len(events@);
        lemma_auto_spec_u32_to_from_le_bytes();
    }
    let payload = encode_event_batch(events);
    proof {
        assert(payload@.len() <= 4 + 25 * events@.len());
    }
    let framed = frame_message(&payload);
    let mut msg: Vec<u8> = Vec::new();
    msg.push(EVENTS_FOLLOW);
    let ghost tagged = msg@;
    let mut i: usize = 0;
    while i < framed.len()
        invariant
            i <= framed@.len(),
            tagged == seq![EVENTS_FOLLOW],
            msg@ == tagged + framed@.take(i as int),
        decreases framed@.len() - i,
    {
        msg.push(framed[i]);
        proof {
            assert(tagged + framed@.take(i as int + 1) =~= (tagged + framed@.take(
                i as int,
            )).push(framed@[i as int]));
        }
        i = i + 1;
    }
    proof {
        assert(framed@.take(framed@.len() as int) =~= framed@);
        assert(Seq::<u8>::empty().push(EVENTS_FOLLOW) =~= seq![EVENTS_FOLLOW]);
    }
    Option::Some(msg)
}

} // verus!
