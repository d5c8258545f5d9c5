//! The execution engine: a state machine that applies decoded commands in
//! order against the resource table and the external renderer.
//!
//! The engine decides; the renderer acts. For each command, `step` updates
//! the engine's lifecycle state and returns the commands the renderer must
//! now perform — the command itself for draw, window and audio work, and
//! for the handle-dependent commands only after the handle resolved to a
//! resource of the right kind, so a bad reference skips that one command
//! and never aborts the batch. Commands that create a resource come back
//! through `complete_creation` once the renderer succeeded: only that call
//! stores a handle, so a creation the renderer failed never populates its
//! destination, and a displaced resource is handed back for release
//! exactly once.
//!
//! States: `Idle` before the first command, `Running` while applying
//! batches, `Draining` once `Quit` was seen — the rest of the batch is
//! ignored — and `Closed` after teardown, which empties the table.

use crate::command::{Command, CommandV, OptionRectangle, Rectangle};
use crate::table::{
    holds_serial, map_of, spec_lookup, LookupError, Resource, ResourceKind, ResourceTable,
    distinct_handles,
};
use vstd::prelude::*;

verus! {

/// The engine's lifecycle state.
#[derive(Clone, Copy, PartialEq, Eq, Structural, Debug)]
pub enum EngineState {
    Idle,
    Running,
    Draining,
    Closed,
}

/// The state after one command: `Quit` starts draining, any other command
/// leaves a live engine running; a draining or closed engine stays as it
/// is.
pub open spec fn spec_state_after(s: EngineState, c: CommandV) -> EngineState {
    match s {
        EngineState::Closed => EngineState::Closed,
        EngineState::Draining => EngineState::Draining,
        _ => if c is Quit {
            EngineState::Draining
        } else {
            EngineState::Running
        },
    }
}

/// The commands the renderer must perform for one decoded command.
///
/// A draining or closed engine forwards nothing. `Quit` and the no-op
/// forward nothing; the icon command is accepted and ignored. The two
/// handle-dependent commands are forwarded only when their handle resolves
/// to a resource of the expected kind; on `NotFound` or `WrongKind` the
/// command is a no-op. Everything else is forwarded as it stands.
pub open spec fn spec_forwards(s: EngineState, m: Map<u32, Resource>, c: CommandV) -> Seq<
    CommandV,
> {
    if s is Idle || s is Running {
        match c {
            CommandV::Quit => Seq::empty(),
            CommandV::Nop => Seq::empty(),
            CommandV::SetIcon { .. } => Seq::empty(),
            CommandV::CreateTextureSurface { surface, index } => match spec_lookup(
                m,
                surface,
                ResourceKind::Surface,
            ) {
                Result::Ok(_) => seq![c],
                Result::Err(_) => Seq::empty(),
            },
            CommandV::CopyRect { texture, .. } => match spec_lookup(
                m,
                texture,
                ResourceKind::Texture,
            ) {
                Result::Ok(_) => seq![c],
                Result::Err(_) => Seq::empty(),
            },
            _ => seq![c],
        }
    } else {
        Seq::empty()
    }
}

/// The execution engine. It owns the resource table; the serial counter
/// and the ghost record of released serials instrument the resource
/// lifecycle: every created resource is identified by a fresh serial, and
/// `inv` says each one is live in the table or was released, never both
/// and never twice.
pub struct Engine {
    pub state: EngineState,
    pub table: ResourceTable,
    pub next_serial: u64,
    pub released: Ghost<Seq<u64>>,
}

impl Engine {
    /// The resource-lifecycle invariant: the table is well formed, every
    /// serial in it is distinct and below the counter, and the released
    /// serials are distinct, below the counter, and held by no handle.
    pub open spec fn inv(&self) -> bool {
        &&& self.table.wf()
        &&& forall|h: u32|
            self.table@.contains_key(h) ==> (#[trigger] self.table@[h]).serial < self.next_serial
        &&& forall|h1: u32, h2: u32|
            self.table@.contains_key(h1) && self.table@.contains_key(h2) && (#[trigger] self.table@[
                h1
            ]).serial == (#[trigger] self.table@[h2]).serial ==> h1 == h2
        &&& forall|i: int|
            0 <= i < self.released@.len() ==> (#[trigger] self.released@[i]) < self.next_serial
        &&& forall|i: int, j: int|
            0 <= i < j < self.released@.len() ==> (#[trigger] self.released@[i]) != (
            #[trigger] self.released@[j])
        &&& forall|i: int|
            0 <= i < self.released@.len() ==> !holds_serial(
                self.table@,
                #[trigger] self.released@[i],
            )
    }

    /// A fresh engine: idle, with an empty table.
    pub fn new() -> (r: Engine)
        ensures
            r.inv(),
            r.state == EngineState::Idle,
            r.table@ == Map::<u32, Resource>::empty(),
            r.released@ == Seq::<u64>::empty(),
    {
        Engine {
            state: EngineState::Idle,
            table: ResourceTable::new(),
            next_serial: 0,
            released: Ghost(Seq::empty()),
        }
    }

    /// Applies one decoded command: updates the lifecycle state and
    /// returns the commands the renderer must perform now, in order. The
    /// table itself never changes here — only `complete_creation` stores
    /// handles — so a failed lookup skips one command and nothing else.
    pub fn step(&mut self, cmd: Command) -> (fwd: Vec<Command>)
        requires
            old(self).inv(),
        ensures
            final(self).inv(),
            final(self).table@ == old(self).table@,
            final(self).next_serial == old(self).next_serial,
            final(self).released@ == old(self).released@,
            final(self).state == spec_state_after(old(self).state, cmd@),
            fwd.deep_view() == spec_forwards(old(self).state, old(self).table@, cmd@),
    {
        let live = match self.state {
            EngineState::Idle => true,
            EngineState::Running => true,
            _ => false,
        };
        if !live {
            let fwd: Vec<Command> = Vec::new();
            proof {
                assert(fwd.deep_view() =~= spec_forwards(old(self).state, old(self).table@, cmd@));
            }
            return fwd;
        }
        match cmd {
            Command::Quit => {
                self.state = EngineState::Draining;
                let fwd: Vec<Command> = Vec::new();
                proof {
                    assert(fwd.deep_view() =~= spec_forwards(
                        old(self).state,
                        old(self).table@,
                        cmd@,
                    ));
                }
                fwd
            },
            Command::Nop => {
                self.state = EngineState::Running;
                let fwd: Vec<Command> = Vec::new();
                proof {
                    assert(fwd.deep_view() =~= spec_forwards(
                        old(self).state,
                        old(self).table@,
                        cmd@,
                    ));
                }
                fwd
            },
            Command::SetIcon { .. } => {
                self.state = EngineState::Running;
                let fwd: Vec<Command> = Vec::new();
                proof {
                    assert(fwd.deep_view() =~= spec_forwards(
                        old(self).state,
                        old(self).table@,
                        cmd@,
                    ));
                }
                fwd
            },
            Command::CreateTextureSurface { surface, index } => {
                self.state = EngineState::Running;
                let mut fwd: Vec<Command> = Vec::new();
                match self.table.get(surface, ResourceKind::Surface) {
                    Result::Ok(_) => {
                        fwd.push(Command::CreateTextureSurface { surface, index });
                        proof {
                            assert(fwd.deep_view() =~= seq![cmd@]);
                        }
                    },
                    Result::Err(_) => {
                        proof {
                            assert(fwd.deep_view() =~= Seq::<CommandV>::empty());
                        }
                    },
                }
                fwd
            },
            Command::CopyRect { texture, src, dst } => {
                self.state = EngineState::Running;
                let mut fwd: Vec<Command> = Vec::new();
                match self.table.get(texture, ResourceKind::Texture) {
                    Result::Ok(_) => {
                        fwd.push(Command::CopyRect { texture, src, dst });
                        proof {
                            assert(fwd.deep_view() =~= seq![cmd@]);
                        }
                    },
                    Result::Err(_) => {
                        proof {
                            assert(fwd.deep_view() =~= Seq::<CommandV>::empty());
                        }
                    },
                }
                fwd
            },
            other => {
                self.state = EngineState::Running;
                let mut fwd: Vec<Command> = Vec::new();
                fwd.push(other);
                proof {
                    assert(fwd.deep_view() =~= seq![cmd@]);
                }
                fwd
            },
        }
    }

    /// Records that the renderer completed a forwarded creation command:
    /// stores a fresh resource stand-in of the given kind at the handle
    /// and hands back the displaced occupant, if any, for release. Called
    /// only after the renderer succeeded — a failed creation never
    /// populates its destination handle.
    pub fn complete_creation(&mut self, index: u32, kind: ResourceKind) -> (prev: Option<
        Resource,
    >)
        requires
            old(self).inv(),
            old(self).state == EngineState::Idle || old(self).state == EngineState::Running,
            old(self).next_serial < 0xffff_ffff_ffff_ffff,
        ensures
            final(self).inv(),
            final(self).state == old(self).state,
            final(self).next_serial == old(self).next_serial + 1,
            final(self).table@ == old(self).table@.insert(
                index,
                Resource { kind, serial: old(self).next_serial },
            ),
            prev == if old(self).table@.contains_key(index) {
                Option::Some(old(self).table@[index])
            } else {
                Option::None::<Resource>
            },
            final(self).released@ == match prev {
                Option::Some(r) => old(self).released@.push(r.serial),
                Option::None => old(self).released@,
            },
    {
        let fresh = Resource { kind, serial: self.next_serial };
        self.next_serial = self.next_serial + 1;
        let prev = self.table.put(index, fresh);
        proof {
            match prev {
                Option::Some(r) => {
                    self.released@ = self.released@.push(r.serial);
                },
                Option::None => {},
            }
            let m0 = old(self).table@;
            let m1 = self.table@;
            assert forall|i: int| 0 <= i < self.released@.len() implies !holds_serial(
                m1,
                #[trigger] self.released@[i],
            ) by {
                let s0 = self.released@[i];
                if holds_serial(m1, s0) {
                    let h = choose|h: u32| m1.contains_key(h) && (#[trigger] m1[h]).serial == s0;
                    if h == index {
                        assert(m1[h] == fresh);
                        if i < old(self).released@.len() {
                            assert(s0 < old(self).next_serial);
                        } else {
                            assert(prev is Some && s0 == prev->0.serial);
                            assert(m0.contains_key(index));
                            assert(s0 < old(self).next_serial);
                        }
                    } else {
                        assert(m0.contains_key(h) && m0[h] == m1[h]);
                        if i < old(self).released@.len() {
                            assert(!holds_serial(m0, s0));
                        } else {
                            assert(prev is Some && s0 == prev->0.serial);
                            assert(m0.contains_key(index) && m0[index].serial == s0);
                            assert(h != index);
                        }
                    }
                }
            }
        }
        prev
    }

    /// Ends the current batch. If `Quit` was seen, finishes draining:
    /// clears the table, hands every resource back exactly once for
    /// release, and closes the engine; otherwise nothing changes.
    pub fn end_batch(&mut self) -> (released: Vec<(u32, Resource)>)
        requires
            old(self).inv(),
        ensures
            final(self).inv(),
            old(self).state == EngineState::Draining ==> final(self).state == EngineState::Closed
                && final(self).table@ == Map::<u32, Resource>::empty() && map_of(released@) == old(
                self,
            ).table@ && distinct_handles(released@),
            old(self).state != EngineState::Draining ==> *final(self) == *old(self)
                && released@.len() == 0,
    {
        match self.state {
            EngineState::Draining => {
                self.state = EngineState::Closed;
                self.table.clear()
            },
            _ => Vec::new(),
        }
    }

    /// Immediate teardown, for transport loss: clears the table, hands
    /// every resource back exactly once for release, and closes the
    /// engine.
    pub fn close(&mut self) -> (released: Vec<(u32, Resource)>)
        requires
            old(self).inv(),
        ensures
            final(self).inv(),
            final(self).state == EngineState::Closed,
            final(self).table@ == Map::<u32, Resource>::empty(),
            map_of(released@) == old(self).table@,
            distinct_handles(released@),
    {
        self.state = EngineState::Closed;
        self.table.clear()
    }
}

/// The target rectangle a text rasterization is composited into: an
/// explicit width or height when given, else the rendered texture's
/// natural extent, each axis independently; no target means the whole
/// canvas.
pub open spec fn spec_resolve_target(
    target: Option<OptionRectangle>,
    natural_width: u32,
    natural_height: u32,
) -> Option<Rectangle> {
    match target {
        Option::None => Option::None,
        Option::Some(t) => Option::Some(
            Rectangle {
                x: t.x,
                y: t.y,
                width: match t.width {
                    Option::Some(w) => w,
                    Option::None => natural_width,
                },
                height: match t.height {
                    Option::Some(h) => h,
                    Option::None => natural_height,
                },
            },
        ),
    }
}

/// Resolves a text command's optional target rectangle against the
/// rasterized texture's natural size.
pub fn resolve_target(
    target: &Option<OptionRectangle>,
    natural_width: u32,
    natural_height: u32,
) -> (r: Option<Rectangle>)
    ensures
        r == spec_resolve_target(*target, natural_width, natural_height),
{
    match target {
        Option::None => Option::None,
        Option::Some(t) => {
            let width: u32 = match t.width {
                Option::Some(w) => w,
                Option::None => natural_width,
            };
            let height: u32 = match t.height {
                Option::Some(h) => h,
                Option::None => natural_height,
            };
            Option::Some(Rectangle { x: t.x, y: t.y, width, height })
        },
    }
}

// ---------------------------------------------------------------------------
// Engine laws
// ---------------------------------------------------------------------------
/// The lifecycle state after a whole command sequence, in order.
pub open spec fn state_after_seq(s: EngineState, cs: Seq<CommandV>) -> EngineState
    decreases cs.len(),
{
    if cs.len() == 0 {
        s
    } else {
        state_after_seq(spec_state_after(s, cs[0]), cs.skip(1))
    }
}

proof fn lemma_state_seq_concat(s: EngineState, a: Seq<CommandV>, b: Seq<CommandV>)
    ensures
        state_after_seq(s, a + b) == state_after_seq(state_after_seq(s, a), b),
    decreases a.len(),
{
    if a.len() == 0 {
        assert(a + b =~= b);
    } else {
        assert((a + b)[0] == a[0]);
        assert((a + b).skip(1) =~= a.skip(1) + b);
        lemma_state_seq_concat(spec_state_after(s, a[0]), a.skip(1), b);
    }
}

proof fn lemma_draining_stays(s: EngineState, cs: Seq<CommandV>)
    requires
        s == EngineState::Draining,
    ensures
        state_after_seq(s, cs) == EngineState::Draining,
    decreases cs.len(),
{
    if cs.len() > 0 {
        lemma_draining_stays(spec_state_after(s, cs[0]), cs.skip(1));
    }
}

/// Once a batch reaches `Quit`, every later command of the batch arrives
/// at a draining engine: it is forwarded nowhere — observably skipped —
/// and the table is untouched, whatever the command and whatever the
/// table hold.
pub proof fn lemma_quit_skips_rest(
    s: EngineState,
    m: Map<u32, Resource>,
    cs: Seq<CommandV>,
    k: int,
)
    requires
        s == EngineState::Idle || s == EngineState::Running,
        0 <= k < cs.len(),
        cs[k] == CommandV::Quit,
    ensures
        forall|j: int|
            k < j <= cs.len() ==> state_after_seq(s, #[trigger] cs.take(j)) == EngineState::Draining,
        forall|j: int|
            k < j < cs.len() ==> spec_forwards(state_after_seq(s, #[trigger] cs.take(j)), m, cs[j])
                == Seq::<CommandV>::empty(),
{
    assert forall|j: int| k < j <= cs.len() implies state_after_seq(s, #[trigger] cs.take(j))
        == EngineState::Draining by {
        let upto = cs.take(k + 1);
        assert(cs.take(j) =~= upto + cs.subrange(k + 1, j));
        lemma_state_seq_concat(s, upto, cs.subrange(k + 1, j));
        let before = cs.take(k);
        assert(upto =~= before + seq![cs[k]]);
        lemma_state_seq_concat(s, before, seq![cs[k]]);
        lemma_live_stays(s, before);
        let sk = state_after_seq(s, before);
        let single = seq![cs[k]];
        assert(single[0] == cs[k]);
        assert(single.skip(1) =~= Seq::<CommandV>::empty());
        assert(state_after_seq(sk, single) == state_after_seq(
            spec_state_after(sk, cs[k]),
            single.skip(1),
        ));
        assert(state_after_seq(spec_state_after(sk, cs[k]), Seq::<CommandV>::empty())
            == spec_state_after(sk, cs[k]));
        lemma_draining_stays(state_after_seq(s, upto), cs.subrange(k + 1, j));
    }
}

proof fn lemma_live_stays(s: EngineState, cs: Seq<CommandV>)
    requires
        s == EngineState::Idle || s == EngineState::Running,
    ensures
        state_after_seq(s, cs) == EngineState::Draining || state_after_seq(s, cs)
            == EngineState::Idle || state_after_seq(s, cs) == EngineState::Running,
        state_after_seq(s, cs) == EngineState::Draining ==> exists|i: int|
            0 <= i < cs.len() && #[trigger] cs[i] == CommandV::Quit,
    decreases cs.len(),
{
    if cs.len() > 0 {
        let s1 = spec_state_after(s, cs[0]);
        if s1 == EngineState::Draining {
            assert(cs[0] == CommandV::Quit);
            lemma_draining_stays(s1, cs.skip(1));
        } else {
            lemma_live_stays(s1, cs.skip(1));
            if state_after_seq(s, cs) == EngineState::Draining {
                let i = choose|i: int|
                    0 <= i < cs.skip(1).len() && #[trigger] cs.skip(1)[i] == CommandV::Quit;
                assert(cs[i + 1] == CommandV::Quit);
            }
        }
    }
}

/// A creation command whose source handle is missing, or of the wrong
/// kind, is forwarded nowhere: the renderer never runs it, so the
/// destination handle is never populated.
pub proof fn lemma_missing_source_no_store(m: Map<u32, Resource>, surface: u32, index: u32)
    requires
        spec_lookup(m, surface, ResourceKind::Surface) is Err,
    ensures
        spec_forwards(
            EngineState::Running,
            m,
            CommandV::CreateTextureSurface { surface, index },
        ) == Seq::<CommandV>::empty(),
        spec_forwards(EngineState::Idle, m, CommandV::CreateTextureSurface { surface, index })
            == Seq::<CommandV>::empty(),
{
}

} // verus!
