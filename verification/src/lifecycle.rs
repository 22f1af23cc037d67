use vstd::prelude::*;

use crate::algorithm::{BasicTemplateAlgorithm, QCAlgorithm};
use crate::batch::{decode_batch, decoded_batch, lemma_decoded_count, Record};
use crate::errors::InteropError;

verus! {

/// The lifecycle state of a live instance. A destroyed instance has no state:
/// its slot is gone.
#[derive(Clone, Copy, Debug, PartialEq, Eq, Structural)]
pub enum InstanceState {
    Uninitialized,
    Initialized,
}

/// One live instance: its lifecycle state and its behavior object.
#[derive(Clone, Copy)]
struct Slot {
    state: InstanceState,
    algo: BasicTemplateAlgorithm,
}

/// The model of one live instance: whether its one-time setup has run, and
/// how many records it has consumed.
pub ghost struct SlotModel {
    pub initialized: bool,
    pub points: int,
}

spec fn slot_model(o: Option<Slot>) -> Option<SlotModel> {
    match o {
        Some(s) => Some(
            SlotModel { initialized: s.state is Initialized, points: s.algo.points() as int },
        ),
        None => None,
    }
}

/// Whether handle `h` names a live instance of table model `s`.
pub open spec fn live_at(s: Seq<Option<SlotModel>>, h: int) -> bool {
    0 <= h < s.len() && s[h] is Some
}

/// Whether handle `h` names a live, initialized instance of table model `s`.
pub open spec fn initialized_at(s: Seq<Option<SlotModel>>, h: int) -> bool {
    live_at(s, h) && match s[h] {
        Some(m) => m.initialized,
        None => false,
    }
}

/// The record counter of the instance that handle `h` names, zero for a dead
/// handle.
pub open spec fn points_at(s: Seq<Option<SlotModel>>, h: int) -> int {
    if live_at(s, h) {
        match s[h] {
            Some(m) => m.points,
            None => 0,
        }
    } else {
        0
    }
}

/// The number of live instances in table model `s`.
pub open spec fn count_live(s: Seq<Option<SlotModel>>) -> nat
    decreases s.len(),
{
    if s.len() == 0 {
        0
    } else {
        count_live(s.drop_last()) + (if s.last() is Some {
            1nat
        } else {
            0nat
        })
    }
}

/// The model of creating an instance: a fresh uninitialized slot at a handle
/// never handed out before.
pub open spec fn model_create(s: Seq<Option<SlotModel>>) -> Seq<Option<SlotModel>> {
    s.push(Some(SlotModel { initialized: false, points: 0 }))
}

/// The model of initializing: marks a live instance initialized, leaving its
/// counter alone; any other request leaves the table as it is.
pub open spec fn model_initialize(s: Seq<Option<SlotModel>>, h: int) -> Seq<Option<SlotModel>> {
    if live_at(s, h) {
        match s[h] {
            Some(m) => s.update(h, Some(SlotModel { initialized: true, points: m.points })),
            None => s,
        }
    } else {
        s
    }
}

/// The model of delivering a batch of `n` records: adds `n` to the counter of
/// a live, initialized instance; any other request leaves the table as it is.
pub open spec fn model_deliver(s: Seq<Option<SlotModel>>, h: int, n: nat) -> Seq<
    Option<SlotModel>,
> {
    if initialized_at(s, h) {
        match s[h] {
            Some(m) => s.update(h, Some(SlotModel { initialized: true, points: m.points + n })),
            None => s,
        }
    } else {
        s
    }
}

/// The model of destroying: releases a live instance; any other request
/// leaves the table as it is.
pub open spec fn model_destroy(s: Seq<Option<SlotModel>>, h: int) -> Seq<Option<SlotModel>> {
    if live_at(s, h) {
        s.update(h, None)
    } else {
        s
    }
}

/// Appending a slot adds one live instance when the slot is live.
proof fn lemma_count_live_push(s: Seq<Option<SlotModel>>, v: Option<SlotModel>)
    ensures
        count_live(s.push(v)) == count_live(s) + (if v is Some {
            1nat
        } else {
            0nat
        }),
{
    assert(s.push(v).drop_last() =~= s);
    assert(s.push(v).last() == v);
}

/// Replacing one slot changes the live count by the difference the
/// replacement makes.
proof fn lemma_count_live_update(s: Seq<Option<SlotModel>>, i: int, v: Option<SlotModel>)
    requires
        0 <= i < s.len(),
    ensures
        count_live(s.update(i, v)) + (if s[i] is Some {
            1nat
        } else {
            0nat
        }) == count_live(s) + (if v is Some {
            1nat
        } else {
            0nat
        }),
    decreases s.len(),
{
    let t = s.update(i, v);
    if i == s.len() - 1 {
        assert(t.drop_last() =~= s.drop_last());
        assert(t.last() == v);
        assert(s.last() == s[i]);
    } else {
        assert(t.drop_last() =~= s.drop_last().update(i, v));
        assert(t.last() == s.last());
        lemma_count_live_update(s.drop_last(), i, v);
    }
}

/// The handle table: the explicit ownership-token pattern for the boundary.
/// Each handle is an opaque index; destroying an instance burns its slot, so
/// presenting the handle again is a checked failure, never a dangling access.
pub struct HandleTable {
    slots: Vec<Option<Slot>>,
}

impl View for HandleTable {
    type V = Seq<Option<SlotModel>>;

    closed spec fn view(&self) -> Seq<Option<SlotModel>> {
        self.slots@.map_values(|o: Option<Slot>| slot_model(o))
    }
}

impl HandleTable {
    /// An empty table: no instance has ever been created.
    pub fn new() -> (t: HandleTable)
        ensures
            t@ =~= Seq::<Option<SlotModel>>::empty(),
            count_live(t@) == 0,
    {
        let t = HandleTable { slots: Vec::new() };
        proof {
            assert(t@ =~= Seq::<Option<SlotModel>>::empty());
        }
        t
    }

    /// Creates a new instance in state `Uninitialized` and hands back its
    /// handle, a handle never handed out before.
    pub fn init(&mut self) -> (h: usize)
        ensures
            final(self)@ == model_create(old(self)@),
            h as int == old(self)@.len(),
            !live_at(old(self)@, h as int),
            live_at(final(self)@, h as int),
            !initialized_at(final(self)@, h as int),
            points_at(final(self)@, h as int) == 0,
            count_live(final(self)@) == count_live(old(self)@) + 1,
    {
        let h = self.slots.len();
        let slot = Slot { state: InstanceState::Uninitialized, algo: BasicTemplateAlgorithm::new() };
        self.slots.push(Some(slot));
        proof {
            assert(self@ =~= model_create(old(self)@));
            lemma_count_live_push(old(self)@, Some(SlotModel { initialized: false, points: 0 }));
        }
        h
    }

    /// Runs the one-time setup of the instance that `h` names and marks it
    /// initialized; initializing an already initialized instance is accepted
    /// and harmless. Only a dead handle is rejected. The caller owes the
    /// environment a readiness signal on success.
    pub fn Initialize(&mut self, h: usize) -> (r: Result<usize, InteropError>)
        ensures
            final(self)@ == model_initialize(old(self)@, h as int),
            live_at(old(self)@, h as int) ==> r == Ok::<usize, InteropError>(h),
            !live_at(old(self)@, h as int) ==> r == Err::<usize, InteropError>(
                InteropError::InvalidHandleState,
            ),
            count_live(final(self)@) == count_live(old(self)@),
    {
        if h >= self.slots.len() {
            return Err(InteropError::InvalidHandleState);
        }
        let cur: Option<Slot> = self.slots[h];
        match cur {
            None => Err(InteropError::InvalidHandleState),
            Some(slot) => {
                let mut s = slot;
                s.algo.Initialize();
                s.state = InstanceState::Initialized;
                self.slots[h] = Some(s);
                proof {
                    assert(self@ =~= model_initialize(old(self)@, h as int));
                    lemma_count_live_update(old(self)@, h as int, self@[h as int]);
                }
                Ok(h)
            },
        }
    }

    /// Delivers one batch to the instance that `h` names: decodes the buffer,
    /// then hands each record, in transmission order, to the per-record
    /// behavior. All or nothing: a malformed buffer applies no record. Only a
    /// live, initialized instance accepts a batch.
    pub fn OnData(&mut self, h: usize, buffer: &[u8]) -> (r: Result<usize, InteropError>)
        requires
            initialized_at(old(self)@, h as int) ==> points_at(old(self)@, h as int)
                + buffer@.len() <= u64::MAX,
        ensures
            !initialized_at(old(self)@, h as int) ==> r == Err::<usize, InteropError>(
                InteropError::InvalidHandleState,
            ) && final(self)@ == old(self)@,
            initialized_at(old(self)@, h as int) ==> match decoded_batch(buffer@) {
                Some(ps) => r == Ok::<usize, InteropError>(h) && final(self)@ == model_deliver(
                    old(self)@,
                    h as int,
                    ps.len(),
                ),
                None => r == Err::<usize, InteropError>(InteropError::MalformedBatch)
                    && final(self)@ == old(self)@,
            },
            count_live(final(self)@) == count_live(old(self)@),
    {
        if h >= self.slots.len() {
            return Err(InteropError::InvalidHandleState);
        }
        let cur: Option<Slot> = self.slots[h];
        match cur {
            None => Err(InteropError::InvalidHandleState),
            Some(slot) => {
                match slot.state {
                    InstanceState::Uninitialized => Err(InteropError::InvalidHandleState),
                    InstanceState::Initialized => {
                        match decode_batch(buffer) {
                            Err(e) => Err(e),
                            Ok(records) => {
                                proof {
                                    lemma_decoded_count(buffer@, 0);
                                }
                                let mut s = slot;
                                s.algo.OnData(records.as_slice());
                                self.slots[h] = Some(s);
                                proof {
                                    let ps = decoded_batch(buffer@).unwrap();
                                    assert(self@ =~= model_deliver(
                                        old(self)@,
                                        h as int,
                                        ps.len(),
                                    ));
                                    lemma_count_live_update(old(self)@, h as int, self@[h as int]);
                                }
                                Ok(h)
                            },
                        }
                    },
                }
            },
        }
    }

    /// Destroys the instance that `h` names and burns the handle: the slot is
    /// emptied, never reused, so presenting the handle again is rejected.
    pub fn finalize(&mut self, h: usize) -> (r: Result<(), InteropError>)
        ensures
            final(self)@ == model_destroy(old(self)@, h as int),
            live_at(old(self)@, h as int) ==> r == Ok::<(), InteropError>(()) && count_live(
                final(self)@,
            ) + 1 == count_live(old(self)@),
            !live_at(old(self)@, h as int) ==> r == Err::<(), InteropError>(
                InteropError::InvalidHandleState,
            ) && final(self)@ == old(self)@,
    {
        if h >= self.slots.len() {
            return Err(InteropError::InvalidHandleState);
        }
        let cur: Option<Slot> = self.slots[h];
        match cur {
            None => Err(InteropError::InvalidHandleState),
            Some(_) => {
                self.slots[h] = None;
                proof {
                    assert(self@ =~= model_destroy(old(self)@, h as int));
                    lemma_count_live_update(old(self)@, h as int, None);
                }
                Ok(())
            },
        }
    }

    /// The number of instances currently live in the table.
    pub fn live_instances(&self) -> (n: usize)
        ensures
            n == count_live(self@),
    {
        let mut n: usize = 0;
        let mut i: usize = 0;
        proof {
            assert(self@.subrange(0, 0) =~= Seq::<Option<SlotModel>>::empty());
        }
        while i < self.slots.len()
            invariant
                i <= self.slots@.len(),
                self@.len() == self.slots@.len(),
                n == count_live(self@.subrange(0, i as int)),
                n <= i,
            decreases self.slots@.len() - i,
        {
            let cur: Option<Slot> = self.slots[i];
            proof {
                assert(self@.subrange(0, i as int + 1).drop_last() =~= self@.subrange(
                    0,
                    i as int,
                ));
                assert(self@.subrange(0, i as int + 1).last() == self@[i as int]);
            }
            if cur.is_some() {
                n = n + 1;
            }
            i = i + 1;
        }
        proof {
            assert(self@.subrange(0, self@.len() as int) =~= self@);
        }
        n
    }

    /// The record counter of the instance that `h` names, or nothing for a
    /// dead handle.
    pub fn points_of(&self, h: usize) -> (r: Option<u64>)
        ensures
            live_at(self@, h as int) ==> r == Some(points_at(self@, h as int) as u64),
            !live_at(self@, h as int) ==> r is None,
    {
        if h >= self.slots.len() {
            return None;
        }
        let cur: Option<Slot> = self.slots[h];
        match cur {
            None => None,
            Some(slot) => Some(slot.algo.points_value()),
        }
    }
}

/// One lifecycle operation between create and destroy: initializing an
/// instance, or delivering a batch that decodes to some number of records.
pub ghost enum MidOp {
    Initialize { handle: int },
    Deliver { handle: int, records: nat },
}

/// The model of one mid-lifecycle operation.
pub open spec fn apply_mid_op(s: Seq<Option<SlotModel>>, op: MidOp) -> Seq<Option<SlotModel>> {
    match op {
        MidOp::Initialize { handle } => model_initialize(s, handle),
        MidOp::Deliver { handle, records } => model_deliver(s, handle, records),
    }
}

/// The model of a sequence of mid-lifecycle operations, applied in order.
pub open spec fn apply_mid_ops(s: Seq<Option<SlotModel>>, ops: Seq<MidOp>) -> Seq<
    Option<SlotModel>,
>
    decreases ops.len(),
{
    if ops.len() == 0 {
        s
    } else {
        apply_mid_ops(apply_mid_op(s, ops[0]), ops.drop_first())
    }
}

/// A mid-lifecycle operation neither creates nor destroys: every live handle
/// stays live and the live count stays put.
proof fn lemma_mid_op_preserves(s: Seq<Option<SlotModel>>, op: MidOp, h: int)
    requires
        live_at(s, h),
    ensures
        live_at(apply_mid_op(s, op), h),
        count_live(apply_mid_op(s, op)) == count_live(s),
{
    match op {
        MidOp::Initialize { handle } => {
            if live_at(s, handle) {
                lemma_count_live_update(s, handle, apply_mid_op(s, op)[handle]);
            }
        },
        MidOp::Deliver { handle, records } => {
            if initialized_at(s, handle) {
                lemma_count_live_update(s, handle, apply_mid_op(s, op)[handle]);
            }
        },
    }
}

/// What one mid-lifecycle operation preserves, a whole sequence of them
/// preserves.
proof fn lemma_mid_ops_preserve(s: Seq<Option<SlotModel>>, ops: Seq<MidOp>, h: int)
    requires
        live_at(s, h),
    ensures
        live_at(apply_mid_ops(s, ops), h),
        count_live(apply_mid_ops(s, ops)) == count_live(s),
    decreases ops.len(),
{
    if ops.len() > 0 {
        lemma_mid_op_preserves(s, ops[0], h);
        lemma_mid_ops_preserve(apply_mid_op(s, ops[0]), ops.drop_first(), h);
    }
}

/// Allocation balance: from any table, create an instance, run any sequence
/// of initialize and deliver operations, then destroy the created handle; the
/// number of live instances returns to what it was before the create.
pub proof fn lemma_allocation_balance(s: Seq<Option<SlotModel>>, ops: Seq<MidOp>)
    ensures
        count_live(model_destroy(apply_mid_ops(model_create(s), ops), s.len() as int))
            == count_live(s),
{
    let h = s.len() as int;
    let created = model_create(s);
    lemma_count_live_push(s, Some(SlotModel { initialized: false, points: 0 }));
    lemma_mid_ops_preserve(created, ops, h);
    let t = apply_mid_ops(created, ops);
    lemma_count_live_update(t, h, None);
}

} // verus!
