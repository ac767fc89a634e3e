//! Per-thread bookkeeping of the safe API: active invocations, live
//! workspace borrows, destruction deferred while MATLAB memory is borrowed,
//! and the generation-checked registry of persistent arrays.
//!
//! The registry stores native handles of type `H`; the native calls that
//! destroy or persist them are made by the caller with the handles that
//! these operations hand back.
use vstd::prelude::*;
use core::marker::PhantomData;
use std::rc::Rc;
use crate::error::{Error, ErrorKind, Result};

verus! {

struct Entry<H> {
    raw: H,
    generation: u64,
}

/// Abstract state of a [`Runtime`].
pub struct RuntimeView<H> {
    /// Number of MEX invocations in progress on this thread.
    pub depth: nat,
    /// Number of live workspace borrows.
    pub borrows: nat,
    /// Arrays whose destruction waits for the last borrow to end.
    pub deferred: Seq<H>,
    /// Persistent slots: a handle with its generation, or vacant.
    pub slots: Seq<Option<(H, u64)>>,
    /// The generation most recently handed out.
    pub next_generation: u64,
    /// Whether the MEX exit hook has been registered.
    pub exit_registered: bool,
}

/// Per-thread runtime state of the safe API.
pub struct Runtime<H> {
    invocation_depth: usize,
    active_external_borrows: usize,
    deferred_destroy: Vec<H>,
    persistent: Vec<Option<Entry<H>>>,
    next_generation: u64,
    exit_registered: bool,
}

spec fn entry_view<H>(e: Option<Entry<H>>) -> Option<(H, u64)> {
    match e {
        Some(en) => Some((en.raw, en.generation)),
        None => None,
    }
}

impl<H> View for Runtime<H> {
    type V = RuntimeView<H>;

    closed spec fn view(&self) -> RuntimeView<H> {
        RuntimeView {
            depth: self.invocation_depth as nat,
            borrows: self.active_external_borrows as nat,
            deferred: self.deferred_destroy@,
            slots: self.persistent@.map_values(|e: Option<Entry<H>>| entry_view(e)),
            next_generation: self.next_generation,
            exit_registered: self.exit_registered,
        }
    }
}

/// The handle stored under a key, when the key's slot holds its generation.
pub open spec fn resolve<H>(v: RuntimeView<H>, slot: int, generation: u64) -> Option<H> {
    if 0 <= slot < v.slots.len() {
        match v.slots[slot] {
            Some(entry) => if entry.1 == generation {
                Some(entry.0)
            } else {
                None
            },
            None => None,
        }
    } else {
        None
    }
}

/// Every live generation is nonzero, at most the last one handed out, and
/// held by one slot only.
pub open spec fn registry_wf<H>(v: RuntimeView<H>) -> bool {
    &&& forall|i: int|
        0 <= i < v.slots.len() && (#[trigger] v.slots[i]) is Some ==> 1 <= (v.slots[i]->0).1
            <= v.next_generation
    &&& forall|i: int, j: int|
        0 <= i < v.slots.len() && 0 <= j < v.slots.len() && i != j && (#[trigger] v.slots[i])
            is Some && (#[trigger] v.slots[j]) is Some ==> (v.slots[i]->0).1 != (v.slots[j]->0).1
}

/// The first vacant slot, or the end of the slot list when all are taken.
pub open spec fn first_vacant<H>(slots: Seq<Option<(H, u64)>>, from: int) -> int
    decreases slots.len() - from,
{
    if from < 0 || from >= slots.len() {
        slots.len() as int
    } else if slots[from] is None {
        from
    } else {
        first_vacant(slots, from + 1)
    }
}

/// The generation handed out after `g`: one more, wrapping to one.
pub open spec fn following_generation(g: u64) -> u64 {
    if g == u64::MAX {
        1
    } else {
        (g + 1) as u64
    }
}

/// The slot and generation under which a new persistent array is stored.
pub open spec fn persist_key<H>(v: RuntimeView<H>) -> (usize, u64) {
    (first_vacant(v.slots, 0) as usize, following_generation(v.next_generation))
}

/// The state after storing `raw` as a persistent array.
pub open spec fn persist_spec<H>(v: RuntimeView<H>, raw: H) -> RuntimeView<H> {
    let slot = first_vacant(v.slots, 0);
    let generation = following_generation(v.next_generation);
    RuntimeView {
        slots: if slot < v.slots.len() {
            v.slots.update(slot, Some((raw, generation)))
        } else {
            v.slots.push(Some((raw, generation)))
        },
        next_generation: generation,
        ..v
    }
}

/// The state after releasing the persistent array stored under a key.
pub open spec fn release_spec<H>(v: RuntimeView<H>, slot: int) -> RuntimeView<H> {
    RuntimeView { slots: v.slots.update(slot, None), ..v }
}

/// The handles of every live persistent array, in slot order.
pub open spec fn live_handles<H>(slots: Seq<Option<(H, u64)>>) -> Seq<H>
    decreases slots.len(),
{
    if slots.len() == 0 {
        seq![]
    } else {
        let rest = live_handles(slots.drop_first());
        match slots[0] {
            Some(entry) => seq![entry.0] + rest,
            None => rest,
        }
    }
}

/// The state after one more workspace borrow begins.
pub open spec fn begin_borrow_spec<H>(v: RuntimeView<H>) -> RuntimeView<H> {
    RuntimeView { borrows: v.borrows + 1, ..v }
}

/// The state after a workspace borrow ends, with the arrays released then.
pub open spec fn end_borrow_spec<H>(v: RuntimeView<H>) -> (RuntimeView<H>, Seq<H>) {
    if v.borrows == 1 {
        (RuntimeView { borrows: 0, deferred: Seq::<H>::empty(), ..v }, v.deferred)
    } else {
        (RuntimeView { borrows: (v.borrows - 1) as nat, ..v }, Seq::<H>::empty())
    }
}

/// The state after an owned array is released, with the handle to destroy
/// at once (none while a borrow is live).
pub open spec fn release_array_spec<H>(v: RuntimeView<H>, raw: H) -> (RuntimeView<H>, Option<H>) {
    if v.borrows == 0 {
        (v, Some(raw))
    } else {
        (RuntimeView { deferred: v.deferred.push(raw), ..v }, None)
    }
}

/// The state after the MEX module is cleared: no persistent or deferred
/// array is left and the exit hook counts as unregistered.
pub open spec fn exit_spec<H>(v: RuntimeView<H>) -> RuntimeView<H> {
    RuntimeView {
        deferred: Seq::<H>::empty(),
        slots: Seq::<Option<(H, u64)>>::empty(),
        exit_registered: false,
        ..v
    }
}

proof fn lemma_live_handles_push<H>(s: Seq<Option<(H, u64)>>, o: Option<(H, u64)>)
    ensures
        live_handles(s.push(o)) == match o {
            Some(e) => live_handles(s).push(e.0),
            None => live_handles(s),
        },
    decreases s.len(),
{
    if s.len() == 0 {
        assert(s.push(o).drop_first() =~= Seq::<Option<(H, u64)>>::empty());
        assert(live_handles(Seq::<Option<(H, u64)>>::empty()) =~= Seq::<H>::empty());
    } else {
        assert(s.push(o).drop_first() =~= s.drop_first().push(o));
        lemma_live_handles_push(s.drop_first(), o);
        match s[0] {
            Some(e) => {
                match o {
                    Some(w) => {
                        assert(seq![e.0] + live_handles(s.drop_first()).push(w.0) =~= (seq![e.0]
                            + live_handles(s.drop_first())).push(w.0));
                    },
                    None => {},
                }
            },
            None => {},
        }
    }
}

proof fn lemma_first_vacant_bounds<H>(slots: Seq<Option<(H, u64)>>, from: int)
    requires
        0 <= from <= slots.len(),
    ensures
        from <= first_vacant(slots, from) <= slots.len(),
        first_vacant(slots, from) < slots.len() ==> slots[first_vacant(slots, from)] is None,
        forall|i: int| from <= i < first_vacant(slots, from) ==> (#[trigger] slots[i]) is Some,
    decreases slots.len() - from,
{
    if from < slots.len() && slots[from] is Some {
        lemma_first_vacant_bounds(slots, from + 1);
    }
}

impl<H: Copy> Runtime<H> {
    /// A runtime with no invocation, borrow, deferred array or persistent array.
    pub fn new() -> (r: Runtime<H>)
        ensures
            r@.depth == 0,
            r@.borrows == 0,
            r@.deferred == Seq::<H>::empty(),
            r@.slots == Seq::<Option<(H, u64)>>::empty(),
            r@.next_generation == 0,
            !r@.exit_registered,
            registry_wf(r@),
    {
        let r = Runtime {
            invocation_depth: 0,
            active_external_borrows: 0,
            deferred_destroy: Vec::new(),
            persistent: Vec::new(),
            next_generation: 0,
            exit_registered: false,
        };
        assert(r@.slots =~= Seq::<Option<(H, u64)>>::empty());
        r
    }

    /// Enter a MEX invocation. Nested invocations are refused while MATLAB
    /// memory is borrowed.
    ///
    /// # Errors
    ///
    /// Returns `Busy` while a workspace borrow is live; the state is then
    /// unchanged.
    pub fn begin_invocation(&mut self) -> (r: Result<()>)
        requires
            old(self)@.depth < usize::MAX,
        ensures
            r matches Err(e) ==> e.is_plain(),
            r is Ok <==> old(self)@.borrows == 0,
            r is Ok ==> final(self)@ == (RuntimeView { depth: old(self)@.depth + 1, ..old(self)@ }),
            r is Err ==> final(self)@ == old(self)@,
            r matches Err(e) ==> e.kind == ErrorKind::Busy && e.operation == "enter MEX function"
                && e.detail@
                == "a nested invocation attempted to run while MATLAB-owned data was borrowed"@,
    {
        if self.active_external_borrows != 0 {
            return Err(
                Error::new(
                    ErrorKind::Busy,
                    "enter MEX function",
                    "a nested invocation attempted to run while MATLAB-owned data was borrowed",
                ),
            );
        }
        self.invocation_depth = self.invocation_depth + 1;
        Ok(())
    }

    /// Leave a MEX invocation. When the outermost invocation ends with no
    /// live borrow, every deferred array is handed back to be destroyed.
    pub fn end_invocation(&mut self) -> (released: Vec<H>)
        requires
            old(self)@.depth > 0,
        ensures
            final(self)@.depth == old(self)@.depth - 1,
            final(self)@.borrows == old(self)@.borrows,
            final(self)@.slots == old(self)@.slots,
            final(self)@.next_generation == old(self)@.next_generation,
            final(self)@.exit_registered == old(self)@.exit_registered,
            final(self)@.depth == 0 && old(self)@.borrows == 0 ==> released@ == old(self)@.deferred && final(self)@.deferred == Seq::<H>::empty(),
            !(final(self)@.depth == 0 && old(self)@.borrows == 0) ==> released@ == Seq::<H>::empty() && final(self)@.deferred == old(self)@.deferred,
    {
        self.invocation_depth = self.invocation_depth - 1;
        if self.invocation_depth == 0 && self.active_external_borrows == 0 {
            self.take_deferred()
        } else {
            Vec::new()
        }
    }

    fn take_deferred(&mut self) -> (released: Vec<H>)
        ensures
            released@ == old(self)@.deferred,
            final(self)@ == (RuntimeView { deferred: Seq::<H>::empty(), ..old(self)@ }),
    {
        let mut released = Vec::new();
        std::mem::swap(&mut released, &mut self.deferred_destroy);
        assert(self@.deferred =~= Seq::<H>::empty());
        released
    }

    /// Register one more live workspace borrow.
    pub fn begin_external_borrow(&mut self)
        requires
            old(self)@.borrows < usize::MAX,
        ensures
            final(self)@ == begin_borrow_spec(old(self)@),
    {
        self.active_external_borrows = self.active_external_borrows + 1;
    }

    /// End one workspace borrow. When it was the last one, every deferred
    /// array is handed back to be destroyed.
    pub fn end_external_borrow(&mut self) -> (released: Vec<H>)
        requires
            old(self)@.borrows > 0,
        ensures
            final(self)@.borrows == old(self)@.borrows - 1,
            final(self)@.depth == old(self)@.depth,
            final(self)@.slots == old(self)@.slots,
            final(self)@.next_generation == old(self)@.next_generation,
            final(self)@.exit_registered == old(self)@.exit_registered,
            final(self)@.borrows == 0 ==> released@ == old(self)@.deferred && final(self)@.deferred == Seq::<H>::empty(),
            final(self)@.borrows > 0 ==> released@ == Seq::<H>::empty() && final(self)@.deferred
                == old(self)@.deferred,
            (final(self)@, released@) == end_borrow_spec(old(self)@),
    {
        self.active_external_borrows = self.active_external_borrows - 1;
        if self.active_external_borrows == 0 {
            self.take_deferred()
        } else {
            Vec::new()
        }
    }

    /// Number of MEX invocations in progress.
    pub fn depth(&self) -> (r: usize)
        ensures
            r == self@.depth,
    {
        self.invocation_depth
    }

    /// Number of live workspace borrows.
    pub fn borrows(&self) -> (r: usize)
        ensures
            r == self@.borrows,
    {
        self.active_external_borrows
    }

    /// Test whether any workspace borrow is live.
    pub fn is_borrowed(&self) -> (r: bool)
        ensures
            r == (self@.borrows > 0),
    {
        self.active_external_borrows != 0
    }

    /// Refuse an operation that can run MATLAB code while MATLAB memory is
    /// borrowed.
    ///
    /// # Errors
    ///
    /// Returns `Busy` while a workspace borrow is live.
    pub fn require_unborrowed(&self, operation: &'static str) -> (r: Result<()>)
        ensures
            r matches Err(e) ==> e.is_plain(),
            r is Ok <==> self@.borrows == 0,
            r matches Err(e) ==> e.kind == ErrorKind::Busy && e.operation == operation && e.detail@
                == "MATLAB-owned data is currently borrowed"@,
    {
        if self.active_external_borrows == 0 {
            Ok(())
        } else {
            Err(Error::new(ErrorKind::Busy, operation, "MATLAB-owned data is currently borrowed"))
        }
    }

    /// Release an owned array: handed back to be destroyed now when no
    /// borrow is live, otherwise kept until the last borrow ends.
    pub fn destroy_or_defer(&mut self, raw: H) -> (now: Option<H>)
        ensures
            (final(self)@, now) == release_array_spec(old(self)@, raw),
            old(self)@.borrows == 0 ==> now == Some(raw) && final(self)@ == old(self)@,
            old(self)@.borrows > 0 ==> now is None && final(self)@ == (RuntimeView {
                deferred: old(self)@.deferred.push(raw),
                ..old(self)@
            }),
    {
        if self.active_external_borrows == 0 {
            Some(raw)
        } else {
            self.deferred_destroy.push(raw);
            None
        }
    }

    /// First step of making an array persistent: refused while borrowed;
    /// otherwise tells whether the MEX exit hook still has to be registered.
    ///
    /// # Errors
    ///
    /// Returns `Busy` while a workspace borrow is live.
    pub fn begin_persist(&self) -> (r: Result<bool>)
        ensures
            r matches Err(e) ==> e.is_plain(),
            r is Ok <==> self@.borrows == 0,
            r matches Ok(b) ==> b == !self@.exit_registered,
            r matches Err(e) ==> e.kind == ErrorKind::Busy && e.operation == "persist array"
                && e.detail@ == "MATLAB-owned data is currently borrowed"@,
    {
        self.require_unborrowed("persist array")?;
        Ok(!self.exit_registered)
    }

    /// Record the status of registering the MEX exit hook.
    ///
    /// # Errors
    ///
    /// Returns a native error for a nonzero status; the hook then counts as
    /// unregistered.
    pub fn record_exit_hook(&mut self, status: i32) -> (r: Result<()>)
        ensures
            r matches Err(e) ==> e.custom_id() is None && e.mat_error is None,
            r is Ok <==> status == 0,
            r is Ok ==> final(self)@ == (RuntimeView { exit_registered: true, ..old(self)@ }),
            r is Err ==> final(self)@ == old(self)@,
            r matches Err(e) ==> e.kind == ErrorKind::Native && e.operation
                == "register MEX cleanup" && e.status == Some(status) && e.detail@
                == "native operation failed"@,
    {
        if status != 0 {
            return Err(Error::native_status("register MEX cleanup", status));
        }
        self.exit_registered = true;
        Ok(())
    }

    /// Store a handle that MATLAB now keeps across invocations, in the first
    /// vacant slot under a fresh generation, and return its key.
    pub fn insert_persistent<'mex>(&mut self, raw: H) -> (key: PersistentArray<'mex>)
        ensures
            (key.slot(), key.generation()) == persist_key(old(self)@),
            final(self)@ == persist_spec(old(self)@, raw),
            resolve(final(self)@, key.slot() as int, key.generation()) == Some(raw),
            registry_wf(old(self)@) && old(self)@.next_generation < u64::MAX ==> registry_wf(
                final(self)@,
            ),
    {
        let generation = if self.next_generation == u64::MAX {
            1
        } else {
            self.next_generation + 1
        };
        self.next_generation = generation;
        let ghost old_slots = old(self)@.slots;
        proof {
            lemma_first_vacant_bounds(old_slots, 0);
        }
        let mut slot: usize = 0;
        while slot < self.persistent.len() && self.persistent[slot].is_some()
            invariant
                self.persistent@.len() == old_slots.len(),
                old_slots == self.persistent@.map_values(|e: Option<Entry<H>>| entry_view(e)),
                slot <= first_vacant(old_slots, 0),
                first_vacant(old_slots, 0) <= old_slots.len(),
                first_vacant(old_slots, 0) < old_slots.len() ==> old_slots[first_vacant(
                    old_slots,
                    0,
                )] is None,
                forall|i: int| 0 <= i < first_vacant(old_slots, 0) ==> (#[trigger] old_slots[i]) is Some,
            decreases self.persistent@.len() - slot,
        {
            slot = slot + 1;
        }
        proof {
            if slot < old_slots.len() {
                assert(old_slots[slot as int] is None);
            }
            assert(slot == first_vacant(old_slots, 0));
        }
        if slot < self.persistent.len() {
            self.persistent.set(slot, Some(Entry { raw, generation }));
        } else {
            self.persistent.push(Some(Entry { raw, generation }));
        }
        proof {
            let expected = persist_spec(old(self)@, raw);
            assert(self@.slots =~= expected.slots);
            if registry_wf(old(self)@) && old(self)@.next_generation < u64::MAX {
                law_persist_keeps_registry_wf(old(self)@, raw);
            }
        }
        PersistentArray { slot, generation, _brand: PhantomData, _thread: PhantomData }
    }

    /// The handle stored under a key.
    ///
    /// # Errors
    ///
    /// Returns an input error for a stale key.
    pub fn lookup(&self, slot: usize, generation: u64) -> (r: Result<H>)
        ensures
            r matches Err(e) ==> e.is_plain(),
            r is Ok <==> resolve(self@, slot as int, generation) is Some,
            r matches Ok(raw) ==> resolve(self@, slot as int, generation) == Some(raw),
            r matches Err(e) ==> e.kind == ErrorKind::InvalidInput && e.operation
                == "persistent array" && e.detail@ == "stale key"@,
    {
        if slot < self.persistent.len() {
            match &self.persistent[slot] {
                Some(entry) => {
                    if entry.generation == generation {
                        return Ok(entry.raw);
                    }
                },
                None => {},
            }
        }
        Err(Error::new(ErrorKind::InvalidInput, "persistent array", "stale key"))
    }

    /// Release the persistent array stored under a key and hand back its
    /// handle to be destroyed.
    ///
    /// # Errors
    ///
    /// Returns `Busy` while a workspace borrow is live and an input error for
    /// a stale key; the state is then unchanged.
    pub fn remove_persistent(&mut self, slot: usize, generation: u64) -> (r: Result<H>)
        ensures
            r matches Err(e) ==> e.is_plain(),
            r is Ok <==> old(self)@.borrows == 0 && resolve(old(self)@, slot as int, generation) is Some,
            r matches Ok(raw) ==> resolve(old(self)@, slot as int, generation) == Some(raw)
                && final(self)@ == release_spec(old(self)@, slot as int),
            r is Err ==> final(self)@ == old(self)@,
            r matches Err(e) ==> old(self)@.borrows > 0 ==> e.kind == ErrorKind::Busy
                && e.operation == "remove persistent array" && e.detail@
                == "MATLAB-owned data is currently borrowed"@,
            r matches Err(e) ==> old(self)@.borrows == 0 ==> e.kind == ErrorKind::InvalidInput
                && e.operation == "persistent array" && e.detail@ == "stale key"@,
            registry_wf(old(self)@) ==> registry_wf(final(self)@),
    {
        self.require_unborrowed("remove persistent array")?;
        let raw = self.lookup(slot, generation)?;
        self.persistent.set(slot, None);
        proof {
            assert(self@.slots =~= release_spec(old(self)@, slot as int).slots);
            if registry_wf(old(self)@) {
                law_release_keeps_registry_wf(old(self)@, slot as int);
            }
        }
        Ok(raw)
    }

    /// The MEX module is being cleared: hand back every persistent array and
    /// every deferred array to be destroyed, and forget the exit hook.
    pub fn at_exit(&mut self) -> (released: Vec<H>)
        ensures
            released@ == live_handles(old(self)@.slots) + old(self)@.deferred,
            final(self)@ == exit_spec(old(self)@),
    {
        let mut slots: Vec<Option<Entry<H>>> = Vec::new();
        std::mem::swap(&mut slots, &mut self.persistent);
        let ghost all = old(self)@.slots;
        let mut released: Vec<H> = Vec::new();
        let mut i: usize = 0;
        while i < slots.len()
            invariant
                all == slots@.map_values(|e: Option<Entry<H>>| entry_view(e)),
                i <= slots@.len(),
                released@ == live_handles(all.take(i as int)),
            decreases slots@.len() - i,
        {
            proof {
                assert(all.take(i + 1) =~= all.take(i as int).push(all[i as int]));
                lemma_live_handles_push(all.take(i as int), all[i as int]);
            }
            match &slots[i] {
                Some(entry) => {
                    released.push(entry.raw);
                },
                None => {},
            }
            i = i + 1;
        }
        assert(all.take(slots@.len() as int) =~= all);
        let mut deferred = self.take_deferred();
        released.append(&mut deferred);
        self.exit_registered = false;
        assert(self@.slots =~= Seq::<Option<(H, u64)>>::empty());
        released
    }
}

/// A key handed out when an array is made persistent resolves to that array.
pub proof fn law_lookup_after_persist<H>(v: RuntimeView<H>, raw: H)
    requires
        v.slots.len() < usize::MAX,
    ensures
        resolve(persist_spec(v, raw), persist_key(v).0 as int, persist_key(v).1) == Some(raw),
{
    lemma_first_vacant_bounds(v.slots, 0);
    let k = first_vacant(v.slots, 0);
    let g = following_generation(v.next_generation);
    let p = persist_spec(v, raw);
    if k < v.slots.len() {
        assert(p.slots == v.slots.update(k, Some((raw, g))));
    } else {
        assert(p.slots == v.slots.push(Some((raw, g))));
    }
    assert(p.slots[k] == Some((raw, g)));
    assert(persist_key(v).0 as int == k);
}

/// Making an array persistent leaves every key that resolved before
/// resolving to the same array.
pub proof fn law_persist_keeps_other_keys<H>(v: RuntimeView<H>, raw: H, slot: int, generation: u64)
    requires
        resolve(v, slot, generation) is Some,
    ensures
        resolve(persist_spec(v, raw), slot, generation) == resolve(v, slot, generation),
{
    lemma_first_vacant_bounds(v.slots, 0);
    let k = first_vacant(v.slots, 0);
    assert(slot != k);
    let p = persist_spec(v, raw);
    if k < v.slots.len() {
        assert(p.slots == v.slots.update(k, Some((raw, following_generation(v.next_generation)))));
    } else {
        assert(p.slots == v.slots.push(Some((raw, following_generation(v.next_generation)))));
    }
    assert(p.slots[slot] == v.slots[slot]);
}

/// Removing a persistent array leaves every other key resolving as before.
pub proof fn law_remove_keeps_other_keys<H>(v: RuntimeView<H>, removed: int, slot: int, generation: u64)
    requires
        0 <= removed < v.slots.len(),
        slot != removed,
    ensures
        resolve(release_spec(v, removed), slot, generation) == resolve(v, slot, generation),
{
}

/// The state after the arrays `raws` are made persistent, in order.
pub open spec fn persist_all<H>(v: RuntimeView<H>, raws: Seq<H>) -> RuntimeView<H>
    decreases raws.len(),
{
    if raws.len() == 0 {
        v
    } else {
        persist_all(persist_spec(v, raws[0]), raws.drop_first())
    }
}

/// No entry of `slot` can carry `generation` again: the slot is vacant or
/// holds a later generation, and the counter is past `generation`.
spec fn stale_at<H>(v: RuntimeView<H>, slot: int, generation: u64) -> bool {
    &&& generation <= v.next_generation
    &&& 0 <= slot < v.slots.len() ==> (v.slots[slot] is None || (v.slots[slot]->0).1 > generation)
}

proof fn lemma_stale_persist_all<H>(v: RuntimeView<H>, slot: int, generation: u64, raws: Seq<H>)
    requires
        stale_at(v, slot, generation),
        v.next_generation + raws.len() < u64::MAX,
    ensures
        stale_at(persist_all(v, raws), slot, generation),
        persist_all(v, raws).next_generation == v.next_generation + raws.len(),
    decreases raws.len(),
{
    if raws.len() > 0 {
        lemma_first_vacant_bounds(v.slots, 0);
        let p = persist_spec(v, raws[0]);
        let k = first_vacant(v.slots, 0);
        let g = following_generation(v.next_generation);
        if k < v.slots.len() {
            assert(p.slots == v.slots.update(k, Some((raws[0], g))));
        } else {
            assert(p.slots == v.slots.push(Some((raws[0], g))));
        }
        if 0 <= slot < p.slots.len() && slot != k {
            assert(p.slots[slot] == v.slots[slot]);
        }
        assert(stale_at(p, slot, generation));
        lemma_stale_persist_all(p, slot, generation, raws.drop_first());
    }
}

/// Once a persistent array is removed its key never resolves again, however
/// many arrays are made persistent afterwards, as long as the generation
/// counter does not wrap around.
pub proof fn law_removed_key_stays_stale<H>(v: RuntimeView<H>, slot: int, generation: u64, raws: Seq<H>)
    requires
        registry_wf(v),
        resolve(v, slot, generation) is Some,
        v.next_generation + raws.len() < u64::MAX,
    ensures
        resolve(release_spec(v, slot), slot, generation) is None,
        resolve(persist_all(release_spec(v, slot), raws), slot, generation) is None,
{
    let r = release_spec(v, slot);
    assert(v.slots[slot] is Some);
    assert(stale_at(r, slot, generation));
    lemma_stale_persist_all(r, slot, generation, raws);
}

/// Making an array persistent keeps the registry well-formed: live
/// generations stay nonzero, bounded by the counter, and distinct, until the
/// generation counter wraps around.
pub proof fn law_persist_keeps_registry_wf<H>(v: RuntimeView<H>, raw: H)
    requires
        registry_wf(v),
        v.next_generation < u64::MAX,
    ensures
        registry_wf(persist_spec(v, raw)),
{
    lemma_first_vacant_bounds(v.slots, 0);
    let p = persist_spec(v, raw);
    let k = first_vacant(v.slots, 0);
    let g = following_generation(v.next_generation);
    if k < v.slots.len() {
        assert(p.slots == v.slots.update(k, Some((raw, g))));
    } else {
        assert(p.slots == v.slots.push(Some((raw, g))));
    }
    assert forall|i: int| 0 <= i < p.slots.len() && (#[trigger] p.slots[i]) is Some implies 1
        <= (p.slots[i]->0).1 <= p.next_generation by {
        if i != k {
            assert(p.slots[i] == v.slots[i]);
        }
    }
    assert forall|i: int, j: int|
        0 <= i < p.slots.len() && 0 <= j < p.slots.len() && i != j && (#[trigger] p.slots[i])
            is Some && (#[trigger] p.slots[j]) is Some implies (p.slots[i]->0).1 != (
    p.slots[j]->0).1 by {
        if i != k && j != k {
            assert(p.slots[i] == v.slots[i]);
            assert(p.slots[j] == v.slots[j]);
        } else if i == k {
            assert(p.slots[j] == v.slots[j]);
        } else {
            assert(p.slots[i] == v.slots[i]);
        }
    }
}

/// Removing a persistent array keeps the registry well-formed.
pub proof fn law_release_keeps_registry_wf<H>(v: RuntimeView<H>, slot: int)
    requires
        registry_wf(v),
        0 <= slot < v.slots.len(),
    ensures
        registry_wf(release_spec(v, slot)),
{
    let q = release_spec(v, slot);
    assert forall|i: int| 0 <= i < q.slots.len() && (#[trigger] q.slots[i]) is Some implies 1 <= (
    q.slots[i]->0).1 <= q.next_generation by {
        assert(q.slots[i] == v.slots[i]);
    }
    assert forall|i: int, j: int|
        0 <= i < q.slots.len() && 0 <= j < q.slots.len() && i != j && (#[trigger] q.slots[i]) is Some
            && (#[trigger] q.slots[j]) is Some implies (q.slots[i]->0).1 != (q.slots[j]->0).1 by {
        assert(q.slots[i] == v.slots[i]);
        assert(q.slots[j] == v.slots[j]);
    }
}

/// An owned array released while the last workspace borrow is live is not
/// destroyed at once, and is handed back for destruction, after the arrays
/// deferred before it, when that borrow ends.
pub proof fn law_deferred_until_last_borrow<H>(v: RuntimeView<H>, raw: H)
    requires
        v.borrows == 1,
    ensures
        release_array_spec(v, raw).1 is None,
        end_borrow_spec(release_array_spec(v, raw).0).1 == v.deferred.push(raw),
        end_borrow_spec(release_array_spec(v, raw).0).0.deferred == Seq::<H>::empty(),
        end_borrow_spec(release_array_spec(v, raw).0).0.borrows == 0,
{
}

/// Beginning and then ending a workspace borrow with none live before
/// restores the state and releases every deferred array.
pub proof fn law_borrow_round_trip<H>(v: RuntimeView<H>)
    requires
        v.borrows == 0,
    ensures
        end_borrow_spec(begin_borrow_spec(v)).0 == (RuntimeView { deferred: Seq::<H>::empty(), ..v }),
        end_borrow_spec(begin_borrow_spec(v)).1 == v.deferred,
{
}

/// Once the MEX module is cleared no key resolves any more, and the next
/// array made persistent registers the exit hook again.
pub proof fn law_no_key_after_exit<H>(v: RuntimeView<H>, slot: int, generation: u64)
    ensures
        resolve(exit_spec(v), slot, generation) is None,
        !exit_spec(v).exit_registered,
        registry_wf(exit_spec(v)),
{
}

/// A MATLAB-persistent array handle: a slot of the [`Runtime`] registry and
/// the generation it was stored under. The key stays valid until the array
/// is removed or the MEX module is cleared.
pub struct PersistentArray<'mex> {
    slot: usize,
    generation: u64,
    _brand: PhantomData<&'mex mut &'mex ()>,
    _thread: PhantomData<Rc<()>>,
}

impl<'mex> PersistentArray<'mex> {
    /// The registry slot of this key.
    pub closed spec fn slot(&self) -> usize {
        self.slot
    }

    /// The generation of this key.
    pub closed spec fn generation(&self) -> u64 {
        self.generation
    }

    /// Borrow the persistent array's handle if its generation is still live.
    ///
    /// # Errors
    ///
    /// Returns an input error for a stale key.
    pub fn as_ref<H: Copy>(&self, runtime: &Runtime<H>) -> (r: Result<H>)
        ensures
            r matches Err(e) ==> e.is_plain(),
            r is Ok <==> resolve(runtime@, self.slot() as int, self.generation()) is Some,
            r matches Ok(raw) ==> resolve(runtime@, self.slot() as int, self.generation()) == Some(
                raw,
            ),
            r matches Err(e) ==> e.kind == ErrorKind::InvalidInput && e.operation
                == "persistent array" && e.detail@ == "stale key"@,
    {
        runtime.lookup(self.slot, self.generation)
    }

    /// Explicitly remove the persistent array and hand back its handle to be
    /// destroyed.
    ///
    /// # Errors
    ///
    /// Returns `Busy` while a workspace borrow is live and an input error for
    /// a stale key; the registry is then unchanged.
    pub fn remove<H: Copy>(self, runtime: &mut Runtime<H>) -> (r: Result<H>)
        ensures
            r matches Err(e) ==> e.is_plain(),
            r is Ok <==> old(runtime)@.borrows == 0 && resolve(
                old(runtime)@,
                self.slot() as int,
                self.generation(),
            ) is Some,
            r matches Ok(raw) ==> resolve(old(runtime)@, self.slot() as int, self.generation())
                == Some(raw) && final(runtime)@ == release_spec(old(runtime)@, self.slot() as int),
            r is Err ==> final(runtime)@ == old(runtime)@,
            r matches Err(e) ==> old(runtime)@.borrows > 0 ==> e.kind == ErrorKind::Busy
                && e.operation == "remove persistent array",
            r matches Err(e) ==> old(runtime)@.borrows == 0 ==> e.kind == ErrorKind::InvalidInput
                && e.operation == "persistent array" && e.detail@ == "stale key"@,
            registry_wf(old(runtime)@) ==> registry_wf(final(runtime)@),
    {
        runtime.remove_persistent(self.slot, self.generation)
    }
}

} // verus!
