//! The completion-queue backend: a ring of send slots with a free list, and
//! a ring of receive slots that are handed to the kernel in groups.

use crate::net::{NetError, MAX_DATAGRAM};
use std::collections::VecDeque;
use vstd::prelude::*;
use vstd::seq_lib::lemma_multiset_commutative;

verus! {

/// The size of one receive buffer.
pub const RECV_BUF_SIZE: usize = 1532;

/// The number of receive slots in one group.
pub const RECV_BUF_GROUP_SIZE: u32 = 16;

/// The number of receive slots in one group, as a count of slots.
pub const RECV_GROUP_SLOTS: usize = 16;

/// Receive slots are numbered through all groups.
pub struct GroupIndex;

impl GroupIndex {
    /// The number of the slot with index `index` in group `group`.
    pub fn to_u32(group: u16, index: u16) -> (idx: u32)
        ensures
            idx == group * RECV_BUF_GROUP_SIZE + index,
    {
        group as u32 * RECV_BUF_GROUP_SIZE + index as u32
    }

    /// The index within its group of the slot with number `idx`.
    pub fn index(idx: u32) -> (index: u16)
        ensures
            index == idx % RECV_BUF_GROUP_SIZE,
    {
        (idx % RECV_BUF_GROUP_SIZE) as u16
    }
}

/// What a submission was for; it comes back with the completion.
#[derive(Clone, Copy, Debug, PartialEq, Eq, Structural)]
pub enum UserData {
    /// A send from this send slot.
    Send(u32),
    /// A receive into the slots of this group.
    Recv(u16),
    /// This receive slot was handed to the kernel.
    ProvideBuffers(u32),
}

/// The tag of a receive in the high half of a user-data word.
pub const TAG_RECV: u64 = 0x01_0000_0000;

/// The tag of a provided buffer in the high half of a user-data word.
pub const TAG_PROVIDE_BUFFERS: u64 = 0x02_0000_0000;

impl UserData {
    /// The user-data word for `self`: the role in the high half, the index
    /// in the low half.
    pub open spec fn spec_encode(self) -> u64 {
        match self {
            UserData::Send(idx) => idx as u64,
            UserData::Recv(idx) => TAG_RECV | (idx as u64),
            UserData::ProvideBuffers(idx) => TAG_PROVIDE_BUFFERS | (idx as u64),
        }
    }

    /// What the user-data word `data` stands for. A word with an unknown
    /// tag is read as a send.
    pub open spec fn spec_decode(data: u64) -> UserData {
        if data >> 32 == 1 {
            UserData::Recv((data & 0xffff) as u16)
        } else if data >> 32 == 2 {
            UserData::ProvideBuffers((data & 0xffff_ffff) as u32)
        } else {
            UserData::Send((data & 0xffff_ffff) as u32)
        }
    }

    /// Reading the user-data word of a submission gives back what the
    /// submission was for, whichever of the three roles it has.
    pub proof fn decode_encode(self)
        ensures
            Self::spec_decode(self.spec_encode()) == self,
    {
        match self {
            UserData::Send(idx) => {
                let data = idx as u64;
                assert(data >> 32 == 0 && (data & 0xffff_ffff) as u32 == idx) by (bit_vector)
                    requires
                        data == idx as u64,
                ;
            },
            UserData::Recv(idx) => {
                let data = TAG_RECV | (idx as u64);
                assert(data >> 32 == 1 && (data & 0xffff) as u16 == idx) by (bit_vector)
                    requires
                        data == 0x01_0000_0000u64 | (idx as u64),
                ;
            },
            UserData::ProvideBuffers(idx) => {
                let data = TAG_PROVIDE_BUFFERS | (idx as u64);
                assert(data >> 32 == 2 && (data & 0xffff_ffff) as u32 == idx) by (bit_vector)
                    requires
                        data == 0x02_0000_0000u64 | (idx as u64),
                ;
            },
        }
    }
}

impl From<UserData> for u64 {
    fn from(user_data: UserData) -> (data: u64) {
        match user_data {
            UserData::Send(idx) => idx as u64,
            UserData::Recv(idx) => TAG_RECV | (idx as u64),
            UserData::ProvideBuffers(idx) => TAG_PROVIDE_BUFFERS | (idx as u64),
        }
    }
}

impl vstd::std_specs::convert::FromSpecImpl<UserData> for u64 {
    open spec fn obeys_from_spec() -> bool {
        true
    }

    open spec fn from_spec(user_data: UserData) -> u64 {
        user_data.spec_encode()
    }
}

impl From<u64> for UserData {
    fn from(data: u64) -> (user_data: UserData) {
        let tag = data >> 32;
        if tag == 1 {
            UserData::Recv((data & 0xffff) as u16)
        } else if tag == 2 {
            UserData::ProvideBuffers((data & 0xffff_ffff) as u32)
        } else {
            UserData::Send((data & 0xffff_ffff) as u32)
        }
    }
}

impl vstd::std_specs::convert::FromSpecImpl<u64> for UserData {
    open spec fn obeys_from_spec() -> bool {
        true
    }

    open spec fn from_spec(data: u64) -> UserData {
        UserData::spec_decode(data)
    }
}

/// One entry of the plan that arms a group of receive slots: hand the
/// buffer of slot `slot` to the kernel as buffer `buffer_id` of the
/// group, under the user-data word `user_data`.
#[derive(Clone, Copy, Debug, PartialEq, Eq, Structural)]
pub struct ProvideBuffer {
    pub slot: u32,
    pub buffer_id: u16,
    pub user_data: u64,
}

/// What has to be submitted to arm one group of receive slots.
pub struct ReadPlan {
    pub group: u16,
    /// One entry for each slot of the group, in their order.
    pub buffers: Vec<ProvideBuffer>,
    /// The user-data word of the receive on the group.
    pub recv_user_data: u64,
}

/// Whether `plan` arms group `group`: each slot of the group, and no other,
/// goes to the kernel as a buffer of the group under its own user-data word,
/// in the order of the slots, and one receive is posted on the group.
pub open spec fn is_read_plan(plan: ReadPlan, group: u16) -> bool {
    &&& plan.group == group
    &&& plan.recv_user_data == UserData::Recv(group).spec_encode()
    &&& plan.buffers@.len() == RECV_BUF_GROUP_SIZE
    &&& forall|i: int|
        0 <= i < RECV_BUF_GROUP_SIZE ==> (#[trigger] plan.buffers@[i]) == (ProvideBuffer {
            slot: (group * RECV_BUF_GROUP_SIZE + i) as u32,
            buffer_id: i as u16,
            user_data: UserData::ProvideBuffers(
                (group * RECV_BUF_GROUP_SIZE + i) as u32,
            ).spec_encode(),
        })
}

/// One completion as the ring reports it.
#[derive(Clone, Copy, Debug, PartialEq, Eq, Structural)]
pub struct Completion {
    pub user_data: u64,
    /// Whether more completions follow for the same submission.
    pub more: bool,
    /// The buffer that the kernel chose, where it chose one.
    pub buffer_id: Option<u16>,
}

/// The bookkeeping of the completion-queue backend, with `SEND_QUEUE` send
/// slots and `RECV_QUEUE` receive slots.
pub struct UdpSocket2IoUring<const SEND_QUEUE: usize, const RECV_QUEUE: usize> {
    send_free_queue: VecDeque<u32>,
    read_wait_queue: VecDeque<u32>,
    read_wait_free_groups: VecDeque<u16>,
    ring_queue_changed: bool,
}

/// The mathematical value of the backend's bookkeeping.
pub struct RingView {
    /// The free send slots, the next to be used first.
    pub free: Seq<u32>,
    /// The receive slots that hold a datagram, oldest first.
    pub ready: Seq<u32>,
    /// The groups whose receive has ended and that wait to be armed again.
    pub idle_groups: Seq<u16>,
    /// Whether something was queued on the ring since the last submit.
    pub changed: bool,
}

impl<const SEND_QUEUE: usize, const RECV_QUEUE: usize> View for UdpSocket2IoUring<
    SEND_QUEUE,
    RECV_QUEUE,
> {
    type V = RingView;

    closed spec fn view(&self) -> RingView {
        RingView {
            free: self.send_free_queue@,
            ready: self.read_wait_queue@,
            idle_groups: self.read_wait_free_groups@,
            changed: self.ring_queue_changed,
        }
    }
}

/// The ring after the completion of a submission for `user_data`. The last
/// completion of a send frees its slot. A completion of a receive that
/// names a buffer makes the slot of that buffer ready; the last completion
/// of a receive leaves its group idle. Nothing else changes the ring.
pub open spec fn completed(ring: RingView, completion: Completion) -> RingView {
    match UserData::spec_decode(completion.user_data) {
        UserData::Send(slot) => if completion.more {
            ring
        } else {
            RingView { free: ring.free.push(slot), ..ring }
        },
        UserData::Recv(group) => if completion.more {
            match completion.buffer_id {
                Some(buffer_id) => RingView {
                    ready: ring.ready.push(
                        (group * RECV_BUF_GROUP_SIZE + buffer_id) as u32,
                    ),
                    ..ring
                },
                None => ring,
            }
        } else {
            RingView { idle_groups: ring.idle_groups.push(group), ..ring }
        },
        UserData::ProvideBuffers(_) => ring,
    }
}

/// The ring after the completions `completions`, one after the other.
pub open spec fn completed_all(ring: RingView, completions: Seq<Completion>) -> RingView
    decreases completions.len(),
{
    if completions.len() == 0 {
        ring
    } else {
        completed(completed_all(ring, completions.drop_last()), completions.last())
    }
}

/// The ring after `count` sends have taken a slot each.
pub open spec fn sent(ring: RingView, count: nat) -> RingView
    recommends
        count <= ring.free.len(),
{
    if count == 0 {
        ring
    } else {
        RingView { free: ring.free.skip(count as int), changed: true, ..ring }
    }
}

/// What asking for a send slot for a datagram of `len` bytes gives on the
/// ring `ring`, and the ring that it leaves. A ring without a free slot
/// answers `WouldBlock`, whatever the length. Otherwise a datagram of more
/// than `MAX_DATAGRAM` bytes is refused as too large, and any other takes the
/// next free slot.
pub open spec fn send_added(ring: RingView, len: usize) -> (
    RingView,
    Result<(u32, u64), NetError>,
) {
    if ring.free.len() == 0 {
        (ring, Err(NetError::WouldBlock))
    } else if len > MAX_DATAGRAM {
        (ring, Err(NetError::TooLarge))
    } else {
        (sent(ring, 1), Ok((ring.free[0], UserData::Send(ring.free[0]).spec_encode())))
    }
}

/// What reading gives on the ring `ring`, and the ring that it leaves: the
/// oldest ready slot, or `WouldBlock` where no datagram is ready.
pub open spec fn received(ring: RingView) -> (RingView, Result<u32, NetError>) {
    if ring.ready.len() > 0 {
        (RingView { ready: ring.ready.skip(1), ..ring }, Ok(ring.ready[0]))
    } else {
        (ring, Err(NetError::WouldBlock))
    }
}

/// The group that the end of a read arms again on the ring `ring`, and the
/// ring that it leaves: once no datagram is ready any more, the group that
/// has been idle longest.
pub open spec fn read_finished(ring: RingView) -> (RingView, Option<u16>) {
    if ring.ready.len() == 0 && ring.idle_groups.len() > 0 {
        (RingView { idle_groups: ring.idle_groups.skip(1), ..ring }, Some(ring.idle_groups[0]))
    } else {
        (ring, None)
    }
}

/// The last completion of a send from `slot`.
pub open spec fn send_done(slot: u32) -> Completion {
    Completion { user_data: UserData::Send(slot).spec_encode(), more: false, buffer_id: None }
}

impl<const SEND_QUEUE: usize, const RECV_QUEUE: usize> UdpSocket2IoUring<SEND_QUEUE, RECV_QUEUE> {
    /// All send slots free, no datagram ready, no group idle.
    pub fn new() -> (ring: Self)
        requires
            SEND_QUEUE <= u32::MAX,
            RECV_QUEUE % RECV_GROUP_SLOTS == 0,
        ensures
            ring@.free == Seq::new(SEND_QUEUE as nat, |i: int| i as u32),
            ring@.ready == Seq::<u32>::empty(),
            ring@.idle_groups == Seq::<u16>::empty(),
            !ring@.changed,
    {
        let mut send_free_queue: VecDeque<u32> = VecDeque::new();
        let mut slot: usize = 0;
        while slot < SEND_QUEUE
            invariant
                slot <= SEND_QUEUE <= u32::MAX,
                send_free_queue@ == Seq::new(slot as nat, |i: int| i as u32),
            decreases SEND_QUEUE - slot,
        {
            send_free_queue.push_back(slot as u32);
            assert(send_free_queue@ =~= Seq::new((slot + 1) as nat, |i: int| i as u32));
            slot = slot + 1;
        }
        UdpSocket2IoUring {
            send_free_queue,
            read_wait_queue: VecDeque::new(),
            read_wait_free_groups: VecDeque::new(),
            ring_queue_changed: false,
        }
    }

    /// The number of groups of receive slots.
    pub fn groups() -> (groups: usize)
        ensures
            groups == RECV_QUEUE / RECV_GROUP_SLOTS,
    {
        RECV_QUEUE / RECV_GROUP_SLOTS
    }

    /// What has to be submitted to arm group `group`: each slot of the
    /// group, and no other, goes to the kernel as a buffer, and one receive
    /// is posted on the group.
    pub fn prepare_read(group: u16) -> (plan: ReadPlan)
        requires
            (group + 1) * RECV_BUF_GROUP_SIZE <= RECV_QUEUE,
        ensures
            is_read_plan(plan, group),
    {
        let begin_idx = GroupIndex::to_u32(group, 0);
        let mut buffers: Vec<ProvideBuffer> = Vec::new();
        let mut i: u32 = 0;
        while i < RECV_BUF_GROUP_SIZE
            invariant
                i <= RECV_BUF_GROUP_SIZE,
                begin_idx == group * RECV_BUF_GROUP_SIZE,
                buffers@.len() == i,
                forall|j: int|
                    0 <= j < i ==> (#[trigger] buffers@[j]) == (ProvideBuffer {
                        slot: (group * RECV_BUF_GROUP_SIZE + j) as u32,
                        buffer_id: j as u16,
                        user_data: UserData::ProvideBuffers(
                            (group * RECV_BUF_GROUP_SIZE + j) as u32,
                        ).spec_encode(),
                    }),
            decreases RECV_BUF_GROUP_SIZE - i,
        {
            let index = begin_idx + i;
            let buffer_id = GroupIndex::index(index);
            assert(buffer_id == i) by (nonlinear_arith)
                requires
                    buffer_id == (group * 16 + i) % 16,
                    0 <= i < 16,
            ;
            buffers.push(
                ProvideBuffer {
                    slot: index,
                    buffer_id,
                    user_data: u64::from(UserData::ProvideBuffers(index)),
                },
            );
            i = i + 1;
        }
        ReadPlan { group, buffers, recv_user_data: u64::from(UserData::Recv(group)) }
    }

    /// Takes one completion off the ring's hands.
    pub fn poll_completion(&mut self, completion: Completion)
        ensures
            final(self)@ == completed(old(self)@, completion),
    {
        match UserData::from(completion.user_data) {
            UserData::Recv(group) => {
                if completion.more {
                    match completion.buffer_id {
                        Some(buffer_id) => {
                            self.read_wait_queue.push_back(GroupIndex::to_u32(group, buffer_id));
                        },
                        None => {},
                    }
                } else {
                    self.read_wait_free_groups.push_back(group);
                }
            },
            UserData::Send(slot) => {
                if !completion.more {
                    self.send_free_queue.push_back(slot);
                }
            },
            UserData::ProvideBuffers(_) => {},
        }
    }

    /// Takes the completions that the ring has reported, in their order.
    pub fn poll_completions(&mut self, completions: &Vec<Completion>)
        ensures
            final(self)@ == completed_all(old(self)@, completions@),
    {
        let mut i: usize = 0;
        assert(completions@.take(0) =~= Seq::<Completion>::empty());
        while i < completions.len()
            invariant
                i <= completions@.len(),
                self@ == completed_all(old(self)@, completions@.take(i as int)),
            decreases completions@.len() - i,
        {
            self.poll_completion(completions[i]);
            proof {
                let next = completions@.take(i + 1);
                assert(next.drop_last() =~= completions@.take(i as int));
                assert(next.last() == completions@[i as int]);
            }
            i = i + 1;
        }
        assert(completions@.take(i as int) =~= completions@);
    }

    /// Takes a free send slot for a datagram of `len` bytes. The slot and
    /// the user-data word of the send come back. With no slot free the
    /// answer is `WouldBlock`, whatever the length; a datagram that is too
    /// large takes no slot. Either way nothing changes.
    pub fn add_send_to(&mut self, len: usize) -> (taken: Result<(u32, u64), NetError>)
        ensures
            (final(self)@, taken) == send_added(old(self)@, len),
    {
        if self.send_free_queue.len() == 0 {
            return Err(NetError::WouldBlock);
        }
        if len > MAX_DATAGRAM {
            return Err(NetError::TooLarge);
        }
        match self.send_free_queue.pop_front() {
            Some(slot) => {
                self.ring_queue_changed = true;
                Ok((slot, u64::from(UserData::Send(slot))))
            },
            None => Err(NetError::WouldBlock),
        }
    }

    /// Whether a commit has anything to submit.
    pub fn needs_submit(&self) -> (needed: bool)
        ensures
            needed == self@.changed,
    {
        self.ring_queue_changed
    }

    /// Records that everything queued on the ring was submitted.
    pub fn commit_send_to(&mut self)
        ensures
            final(self)@ == (RingView { changed: false, ..old(self)@ }),
    {
        self.ring_queue_changed = false;
    }

    /// The receive slot of the oldest datagram that waits to be read;
    /// `WouldBlock` where none waits.
    pub fn recv_from(&mut self) -> (slot: Result<u32, NetError>)
        ensures
            (final(self)@, slot) == received(old(self)@),
    {
        match self.read_wait_queue.pop_front() {
            Some(slot) => Ok(slot),
            None => Err(NetError::WouldBlock),
        }
    }

    /// The group to arm again, once every ready datagram was read: the one
    /// that has been idle longest. Nothing where a datagram still waits or
    /// no group is idle.
    pub fn finish_read_from(&mut self) -> (group: Option<u16>)
        ensures
            (final(self)@, group) == read_finished(old(self)@),
    {
        if self.read_wait_queue.len() == 0 {
            self.read_wait_free_groups.pop_front()
        } else {
            None
        }
    }
}

impl<const SEND_QUEUE: usize, const RECV_QUEUE: usize> UdpSocket2IoUring<SEND_QUEUE, RECV_QUEUE> {
    /// What has to be submitted to arm every group of receive slots, one
    /// plan for each group in their order.
    pub fn prepare() -> (plans: Vec<ReadPlan>)
        requires
            RECV_QUEUE % RECV_GROUP_SLOTS == 0,
            RECV_QUEUE / RECV_GROUP_SLOTS <= u16::MAX,
        ensures
            plans@.len() == RECV_QUEUE / RECV_GROUP_SLOTS,
            forall|group: int|
                0 <= group < plans@.len() ==> is_read_plan(#[trigger] plans@[group], group as u16),
    {
        let groups = Self::groups();
        let mut plans: Vec<ReadPlan> = Vec::new();
        let mut group: usize = 0;
        while group < groups
            invariant
                group <= groups,
                groups == RECV_QUEUE / RECV_GROUP_SLOTS,
                groups <= u16::MAX,
                RECV_QUEUE % RECV_GROUP_SLOTS == 0,
                plans@.len() == group,
                forall|g: int| 0 <= g < plans@.len() ==> is_read_plan(#[trigger] plans@[g], g as u16),
            decreases groups - group,
        {
            assert((group + 1) * 16 <= RECV_QUEUE) by (nonlinear_arith)
                requires
                    group < RECV_QUEUE / 16,
                    RECV_QUEUE % 16 == 0,
            ;
            plans.push(Self::prepare_read(group as u16));
            group = group + 1;
        }
        plans
    }
}

/// The last completions of the sends from `slots`.
pub open spec fn sends_done(slots: Seq<u32>) -> Seq<Completion> {
    slots.map_values(|slot: u32| send_done(slot))
}

/// The last completions of sends put their slots at the end of the free
/// list, in the order of the completions, and touch nothing else.
pub proof fn lemma_sends_done(ring: RingView, slots: Seq<u32>)
    ensures
        completed_all(ring, sends_done(slots)) == (RingView {
            free: ring.free + slots,
            ..ring
        }),
    decreases slots.len(),
{
    let completions = sends_done(slots);
    if slots.len() == 0 {
        assert(ring.free + slots =~= ring.free);
    } else {
        let front = slots.drop_last();
        lemma_sends_done(ring, front);
        assert(completions.drop_last() =~= sends_done(front));
        assert(completions.last() == send_done(slots.last()));
        UserData::Send(slots.last()).decode_encode();
        assert((ring.free + front).push(slots.last()) =~= ring.free + slots);
    }
}

/// Every send slot comes back: after any number of sends that were taken,
/// once the last completion of each has come in, in whatever order, the
/// free list holds the slots that it held before, and nothing else of the
/// ring has changed but that a submit is due.
pub proof fn send_slots_return(ring: RingView, count: nat, done: Seq<u32>)
    requires
        0 < count <= ring.free.len(),
        done.to_multiset() == ring.free.take(count as int).to_multiset(),
    ensures
        completed_all(sent(ring, count), sends_done(done)).free.to_multiset()
            == ring.free.to_multiset(),
        completed_all(sent(ring, count), sends_done(done)).ready == ring.ready,
        completed_all(sent(ring, count), sends_done(done)).idle_groups == ring.idle_groups,
{
    let taken = ring.free.take(count as int);
    let rest = ring.free.skip(count as int);
    lemma_sends_done(sent(ring, count), done);
    lemma_multiset_commutative(rest, done);
    lemma_multiset_commutative(taken, rest);
    assert(taken + rest =~= ring.free);
    assert(rest.to_multiset().add(done.to_multiset()) =~= taken.to_multiset().add(
        rest.to_multiset(),
    ));
}

/// Taking `count` slots one by one is taking `count` slots.
pub proof fn sends_add_up(ring: RingView, count: nat)
    requires
        count < ring.free.len(),
    ensures
        sent(sent(ring, count), 1) == sent(ring, count + 1),
{
    assert(ring.free.skip(count as int).skip(1) =~= ring.free.skip(count as int + 1));
}

/// A ring whose send slots are all taken refuses the next send: the free
/// list is empty, so `add_send_to` answers `WouldBlock`, and the sends in
/// flight are not touched.
pub proof fn full_ring_blocks(ring: RingView, len: usize)
    requires
        ring.free.len() > 0,
    ensures
        sent(ring, ring.free.len()).free.len() == 0,
        sent(ring, ring.free.len()).ready == ring.ready,
        sent(ring, ring.free.len()).idle_groups == ring.idle_groups,
        send_added(sent(ring, ring.free.len()), len) == (
            sent(ring, ring.free.len()),
            Err::<(u32, u64), NetError>(NetError::WouldBlock),
        ),
{
}

/// A slot that a completion makes ready is a slot of the group on which
/// the receive was posted, so arming that group again hands exactly the
/// slots back that its receive has used up.
pub proof fn ready_slot_is_in_its_group(group: u16, buffer_id: u16)
    requires
        buffer_id < RECV_BUF_GROUP_SIZE,
    ensures
        (group * RECV_BUF_GROUP_SIZE + buffer_id) / (RECV_BUF_GROUP_SIZE as int) == group,
        (group * RECV_BUF_GROUP_SIZE + buffer_id) % (RECV_BUF_GROUP_SIZE as int) == buffer_id,
{
    assert((group * 16 + buffer_id) / 16 == group && (group * 16 + buffer_id) % 16
        == buffer_id) by (nonlinear_arith)
        requires
            0 <= buffer_id < 16,
            0 <= group,
    ;
}

/// A completion of the receive on `group` that names the buffer `buffer_id`.
pub open spec fn recv_done(group: u16, buffer_id: u16) -> Completion {
    Completion {
        user_data: UserData::Recv(group).spec_encode(),
        more: true,
        buffer_id: Some(buffer_id),
    }
}

/// The last completion of the receive on `group`.
pub open spec fn recv_ended(group: u16) -> Completion {
    Completion { user_data: UserData::Recv(group).spec_encode(), more: false, buffer_id: None }
}

/// Reading gives `WouldBlock` exactly when no datagram is ready, and then
/// leaves the ring as it is. A datagram that a completion makes ready on a
/// ring with nothing ready is the next to be read, from the slot that the
/// completion names.
pub proof fn read_follows_completion(ring: RingView, group: u16, buffer_id: u16)
    requires
        ring.ready.len() == 0,
    ensures
        received(ring) == (ring, Err::<u32, NetError>(NetError::WouldBlock)),
        received(completed(ring, recv_done(group, buffer_id))) == (
            ring,
            Ok::<u32, NetError>((group * RECV_BUF_GROUP_SIZE + buffer_id) as u32),
        ),
{
    UserData::Recv(group).decode_encode();
    let after = completed(ring, recv_done(group, buffer_id));
    assert(after.ready.skip(1) =~= ring.ready);
}

/// The end of a read arms exactly the group again whose receive has ended:
/// on a ring with nothing ready and no group idle, once the receive on
/// `group` has ended, `finish_read_from` names `group` and leaves the ring as
/// it was before.
pub proof fn ended_group_is_armed_again(ring: RingView, group: u16)
    requires
        ring.ready.len() == 0,
        ring.idle_groups.len() == 0,
    ensures
        read_finished(ring) == (ring, None::<u16>),
        read_finished(completed(ring, recv_ended(group))) == (ring, Some(group)),
{
    UserData::Recv(group).decode_encode();
    let after = completed(ring, recv_ended(group));
    assert(after.idle_groups.skip(1) =~= ring.idle_groups);
}

} // verus!
