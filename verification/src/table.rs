//! The resource table: caller-chosen handles mapped to graphics resources.
//!
//! A handle is an unsigned 32-bit key chosen by the controller. The table
//! owns every resource it holds; the execution engine never keeps one
//! outside it. Inserting at an occupied handle replaces the prior occupant
//! and hands it back to the caller, exactly once, so its native state can
//! be released — never leaked, never released twice. Lookup takes the kind
//! the caller expects and fails with `NotFound` or, distinctly, `WrongKind`.
//!
//! Resources here are stand-ins: the kind plus a serial the engine assigns
//! at creation, standing for one particular native object. The native
//! state lives with the renderer, keyed by the same handle.

use vstd::prelude::*;

verus! {

/// The kind of a graphics resource.
#[derive(Clone, Copy, PartialEq, Eq, Structural, Debug)]
pub enum ResourceKind {
    Cursor,
    Surface,
    Texture,
}

/// A resource stand-in: its kind, and the serial of the particular native
/// object it stands for.
#[derive(Clone, Copy, PartialEq, Eq, Structural, Debug)]
pub struct Resource {
    pub kind: ResourceKind,
    pub serial: u64,
}

/// Why a lookup failed: no entry at the handle, or an entry of another
/// kind. Callers treat both as non-fatal: the dependent command is
/// skipped, the batch goes on.
#[derive(Clone, Copy, PartialEq, Eq, Structural, Debug)]
pub enum LookupError {
    NotFound,
    WrongKind,
}

/// The mapping a sequence of entries represents: later entries win.
pub open spec fn map_of(s: Seq<(u32, Resource)>) -> Map<u32, Resource>
    decreases s.len(),
{
    if s.len() == 0 {
        Map::empty()
    } else {
        map_of(s.drop_last()).insert(s.last().0, s.last().1)
    }
}

/// No handle occurs twice among the entries.
pub open spec fn distinct_handles(s: Seq<(u32, Resource)>) -> bool {
    forall|i: int, j: int| 0 <= i < j < s.len() ==> (#[trigger] s[i]).0 != (#[trigger] s[j]).0
}

/// What `get` returns, as a function of the table's mapping.
pub open spec fn spec_lookup(m: Map<u32, Resource>, handle: u32, expected: ResourceKind) -> Result<
    Resource,
    LookupError,
> {
    if !m.contains_key(handle) {
        Result::Err(LookupError::NotFound)
    } else if m[handle].kind != expected {
        Result::Err(LookupError::WrongKind)
    } else {
        Result::Ok(m[handle])
    }
}

/// Some handle in the mapping holds a resource with this serial.
pub open spec fn holds_serial(m: Map<u32, Resource>, serial: u64) -> bool {
    exists|h: u32| m.contains_key(h) && (#[trigger] m[h]).serial == serial
}

proof fn lemma_map_of_key(s: Seq<(u32, Resource)>, h: u32)
    ensures
        map_of(s).contains_key(h) <==> (exists|i: int|
            0 <= i < s.len() && (#[trigger] s[i]).0 == h),
    decreases s.len(),
{
    if s.len() > 0 {
        lemma_map_of_key(s.drop_last(), h);
        if s.last().0 == h {
            assert(s[s.len() - 1].0 == h);
        } else if map_of(s).contains_key(h) {
            let i = choose|i: int| 0 <= i < s.drop_last().len() && (#[trigger] s.drop_last()[
                i
            ]).0 == h;
            assert(s[i].0 == h);
        } else {
            if exists|i: int| 0 <= i < s.len() && (#[trigger] s[i]).0 == h {
                let i = choose|i: int| 0 <= i < s.len() && (#[trigger] s[i]).0 == h;
                assert(s.drop_last()[i].0 == h);
            }
        }
    }
}

proof fn lemma_map_of_val(s: Seq<(u32, Resource)>, i: int)
    requires
        distinct_handles(s),
        0 <= i < s.len(),
    ensures
        map_of(s).contains_key(s[i].0),
        map_of(s)[s[i].0] == s[i].1,
    decreases s.len(),
{
    if i == s.len() - 1 {
    } else {
        assert(distinct_handles(s.drop_last())) by {
            assert(forall|a: int, b: int|
                0 <= a < b < s.drop_last().len() ==> (#[trigger] s.drop_last()[a]).0 != (
                #[trigger] s.drop_last()[b]).0) by {
                assert(forall|a: int, b: int|
                    0 <= a < b < s.len() - 1 ==> (#[trigger] s[a]).0 != (#[trigger] s[b]).0);
            }
        }
        lemma_map_of_val(s.drop_last(), i);
        assert(s.drop_last()[i] == s[i]);
        assert(s[i].0 != s.last().0);
    }
}

proof fn lemma_map_of_update(s: Seq<(u32, Resource)>, i: int, r: Resource)
    requires
        distinct_handles(s),
        0 <= i < s.len(),
    ensures
        map_of(s.update(i, (s[i].0, r))) =~= map_of(s).insert(s[i].0, r),
        distinct_handles(s.update(i, (s[i].0, r))),
    decreases s.len(),
{
    let h = s[i].0;
    let t = s.update(i, (h, r));
    assert(distinct_handles(t)) by {
        assert(forall|a: int|
            0 <= a < t.len() ==> (#[trigger] t[a]).0 == s[a].0);
    }
    if i == s.len() - 1 {
        assert(t.drop_last() =~= s.drop_last());
        assert(t.last() == (h, r));
    } else {
        assert(distinct_handles(s.drop_last())) by {
            assert(forall|a: int, b: int|
                0 <= a < b < s.len() - 1 ==> (#[trigger] s[a]).0 != (#[trigger] s[b]).0);
        }
        assert(s.drop_last()[i] == s[i]);
        lemma_map_of_update(s.drop_last(), i, r);
        assert(t.drop_last() =~= s.drop_last().update(i, (h, r)));
        assert(t.last() == s.last());
        assert(h != s.last().0);
    }
}

/// The handle table. Internally a vector of entries with distinct
/// handles; its view is the mapping those entries represent.
pub struct ResourceTable {
    entries: Vec<(u32, Resource)>,
}

impl View for ResourceTable {
    type V = Map<u32, Resource>;

    closed spec fn view(&self) -> Map<u32, Resource> {
        map_of(self.entries@)
    }
}

impl ResourceTable {
    /// The internal entries never repeat a handle.
    pub closed spec fn wf(&self) -> bool {
        distinct_handles(self.entries@)
    }

    /// An empty table.
    pub fn new() -> (r: ResourceTable)
        ensures
            r@ == Map::<u32, Resource>::empty(),
            r.wf(),
    {
        ResourceTable { entries: Vec::new() }
    }

    fn find(&self, handle: u32) -> (r: Option<usize>)
        ensures
            match r {
                Option::Some(i) => i < self.entries@.len() && self.entries@[i as int].0 == handle,
                Option::None => forall|j: int|
                    0 <= j < self.entries@.len() ==> (#[trigger] self.entries@[j]).0 != handle,
            },
    {
        let mut i: usize = 0;
        while i < self.entries.len()
            invariant
                i <= self.entries@.len(),
                forall|j: int| 0 <= j < i ==> (#[trigger] self.entries@[j]).0 != handle,
            decreases self.entries@.len() - i,
        {
            if self.entries[i].0 == handle {
                return Option::Some(i);
            }
            i = i + 1;
        }
        Option::None
    }

    /// Insert-or-replace: stores the resource at the handle and hands back
    /// the prior occupant, if there was one, for release. Always succeeds.
    pub fn put(&mut self, handle: u32, resource: Resource) -> (prev: Option<Resource>)
        requires
            old(self).wf(),
        ensures
            final(self).wf(),
            final(self)@ == old(self)@.insert(handle, resource),
            prev == if old(self)@.contains_key(handle) {
                Option::Some(old(self)@[handle])
            } else {
                Option::None::<Resource>
            },
    {
        proof {
            lemma_map_of_key(self.entries@, handle);
        }
        match self.find(handle) {
            Option::Some(i) => {
                proof {
                    lemma_map_of_val(self.entries@, i as int);
                    lemma_map_of_update(self.entries@, i as int, resource);
                }
                let prior = self.entries[i].1;
                self.entries.set(i, (handle, resource));
                Option::Some(prior)
            },
            Option::None => {
                proof {
                    let s = self.entries@.push((handle, resource));
                    assert(s.drop_last() =~= self.entries@);
                    assert(forall|a: int|
                        0 <= a < self.entries@.len() ==> (#[trigger] s[a]) == self.entries@[a]);
                }
                self.entries.push((handle, resource));
                Option::None
            },
        }
    }

    /// Lookup by handle and expected kind; `NotFound` and `WrongKind` are
    /// distinct failures, and both leave the table untouched.
    pub fn get(&self, handle: u32, expected: ResourceKind) -> (r: Result<Resource, LookupError>)
        requires
            self.wf(),
        ensures
            r == spec_lookup(self@, handle, expected),
    {
        proof {
            lemma_map_of_key(self.entries@, handle);
        }
        match self.find(handle) {
            Option::None => Result::Err(LookupError::NotFound),
            Option::Some(i) => {
                proof {
                    lemma_map_of_val(self.entries@, i as int);
                }
                let entry = self.entries[i];
                if entry.1.kind_eq(expected) {
                    Result::Ok(entry.1)
                } else {
                    Result::Err(LookupError::WrongKind)
                }
            },
        }
    }

    /// Bulk teardown: empties the table and hands every entry back, each
    /// exactly once, for release. Called once, at session end.
    pub fn clear(&mut self) -> (all: Vec<(u32, Resource)>)
        requires
            old(self).wf(),
        ensures
            final(self).wf(),
            final(self)@ == Map::<u32, Resource>::empty(),
            map_of(all@) == old(self)@,
            distinct_handles(all@),
    {
        let mut out: Vec<(u32, Resource)> = Vec::new();
        core::mem::swap(&mut self.entries, &mut out);
        out
    }
}

impl Resource {
    /// Whether this resource is of the given kind.
    pub fn kind_eq(&self, expected: ResourceKind) -> (r: bool)
        ensures
            r == (self.kind == expected),
    {
        match (self.kind, expected) {
            (ResourceKind::Cursor, ResourceKind::Cursor) => true,
            (ResourceKind::Surface, ResourceKind::Surface) => true,
            (ResourceKind::Texture, ResourceKind::Texture) => true,
            _ => false,
        }
    }
}

// ---------------------------------------------------------------------------
// Table laws
// ---------------------------------------------------------------------------
/// After `put(h, r)`, a `get(h, kind_of(r))` returns exactly `r`.
pub proof fn lemma_put_then_get(m: Map<u32, Resource>, handle: u32, r: Resource)
    ensures
        spec_lookup(m.insert(handle, r), handle, r.kind) == Result::<
            Resource,
            LookupError,
        >::Ok(r),
{
}

/// A handle never touched answers `NotFound`.
pub proof fn lemma_get_untouched(m: Map<u32, Resource>, handle: u32, expected: ResourceKind)
    requires
        !m.contains_key(handle),
    ensures
        spec_lookup(m, handle, expected) == Result::<Resource, LookupError>::Err(
            LookupError::NotFound,
        ),
{
}

/// A handle holding a resource of another kind answers `WrongKind` —
/// never `NotFound`.
pub proof fn lemma_get_wrong_kind(m: Map<u32, Resource>, handle: u32, expected: ResourceKind)
    requires
        m.contains_key(handle),
        m[handle].kind != expected,
    ensures
        spec_lookup(m, handle, expected) == Result::<Resource, LookupError>::Err(
            LookupError::WrongKind,
        ),
{
}

/// A derived resource is independent of its source: once stored, its
/// entry is untouched by any later store at the source's handle, so
/// replacing the source never retroactively changes the derived entry.
pub proof fn lemma_derived_entry_independent(
    m: Map<u32, Resource>,
    source: u32,
    dest: u32,
    replacement: Resource,
)
    requires
        dest != source,
        m.contains_key(dest),
    ensures
        m.insert(source, replacement).contains_key(dest),
        m.insert(source, replacement)[dest] == m[dest],
{
}

/// Replacing a handle releases the previous resource exactly once: the
/// first store at a fresh handle displaces nothing; the replacement
/// displaces exactly the first resource; and afterwards no handle in the
/// table holds it any more — handed back once, gone from the table.
pub proof fn lemma_replace_releases_once(
    m: Map<u32, Resource>,
    handle: u32,
    r1: Resource,
    r2: Resource,
)
    requires
        !m.contains_key(handle),
        !holds_serial(m, r1.serial),
        r2.serial != r1.serial,
    ensures
        ({
            let m1 = m.insert(handle, r1);
            let m2 = m1.insert(handle, r2);
            &&& spec_lookup(m1, handle, r1.kind) == Result::<Resource, LookupError>::Ok(r1)
            &&& m1.contains_key(handle) && m1[handle] == r1
            &&& m2[handle] == r2
            &&& !holds_serial(m2, r1.serial)
        }),
{
    let m1 = m.insert(handle, r1);
    let m2 = m1.insert(handle, r2);
    assert forall|h: u32| m2.contains_key(h) implies (#[trigger] m2[h]).serial != r1.serial by {
        if h != handle {
            assert(m.contains_key(h) && m[h] == m2[h]);
        }
    }
}

} // verus!
