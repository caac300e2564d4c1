//! The worker's tables as mathematical values: what is well formed, how the
//! outputs of the sessions change the tables, and what is left of a session
//! once it is removed.

use crate::io::NetAddr;
use crate::tasks::WebrtcTaskOutput;
use crate::worker::lists::{lemma_with_member, lemma_without_member, with_member, without_member};
use vstd::prelude::*;

verus! {

/// The mathematical value of a `BusChannelContainer`.
pub struct Channel {
    pub sources: Seq<usize>,
    pub consumers: Seq<usize>,
}

/// What the worker's tables depend on in a session.
pub struct TaskEntry {
    pub ufrag: Seq<char>,
    pub ended: bool,
    pub remotes: Seq<NetAddr>,
    pub sub_channels: Seq<u64>,
    pub pub_channels: Seq<u64>,
}

/// The tables of a worker.
pub struct WorkerView {
    /// The id that the next session gets.
    pub seed: usize,
    /// The sessions by id.
    pub tasks: Map<usize, TaskEntry>,
    /// The ids of the sessions, oldest first.
    pub order: Seq<usize>,
    /// The owner of each known remote address.
    pub remotes: Map<NetAddr, usize>,
    /// The session behind each ICE username fragment.
    pub ufrags: Map<Seq<char>, usize>,
    /// The local publishers and consumers of each track.
    pub channels: Map<u64, Channel>,
    /// The sessions that have ended and wait to be removed.
    pub ended: Seq<usize>,
}

/// Whether the channel `channel` of track `track` names only sessions of
/// `tasks`, each of which has recorded the track, names none twice, and
/// names at least one.
pub open spec fn channel_wf(tasks: Map<usize, TaskEntry>, track: u64, channel: Channel) -> bool {
    &&& channel.sources.len() + channel.consumers.len() > 0
    &&& channel.sources.no_duplicates()
    &&& channel.consumers.no_duplicates()
    &&& forall|i: int|
        0 <= i < channel.sources.len() ==> tasks.contains_key(#[trigger] channel.sources[i])
            && tasks[channel.sources[i]].pub_channels.contains(track)
    &&& forall|i: int|
        0 <= i < channel.consumers.len() ==> tasks.contains_key(#[trigger] channel.consumers[i])
            && tasks[channel.consumers[i]].sub_channels.contains(track)
}

impl WorkerView {
    /// Every session is listed once in `order`, and nothing else is.
    pub open spec fn order_wf(self) -> bool {
        &&& self.order.no_duplicates()
        &&& forall|id: usize| self.order.contains(id) <==> self.tasks.contains_key(id)
    }

    /// Every id in use lies below the seed, so no id is handed out twice.
    pub open spec fn ids_wf(self) -> bool {
        forall|id: usize| self.tasks.contains_key(id) ==> id < self.seed
    }

    /// Every remote address in the table belongs to a session that has
    /// recorded it, and every address that a session has recorded is its own
    /// in the table.
    pub open spec fn remotes_wf(self) -> bool {
        &&& forall|remote: NetAddr| #[trigger]
            self.remotes.contains_key(remote) ==> self.tasks.contains_key(self.remotes[remote])
                && self.tasks[self.remotes[remote]].remotes.contains(remote)
        &&& forall|id: usize, i: int|
            self.tasks.contains_key(id) && 0 <= i < self.tasks[id].remotes.len()
                ==> self.remotes.contains_key(#[trigger] self.tasks[id].remotes[i])
                && self.remotes[self.tasks[id].remotes[i]] == id
    }

    /// Every username fragment in the table is that of the session it names.
    pub open spec fn ufrags_wf(self) -> bool {
        forall|ufrag: Seq<char>| #[trigger]
            self.ufrags.contains_key(ufrag) ==> self.tasks.contains_key(self.ufrags[ufrag])
                && self.tasks[self.ufrags[ufrag]].ufrag == ufrag
    }

    /// Every channel is well formed.
    pub open spec fn channels_wf(self) -> bool {
        forall|track: u64| #[trigger]
            self.channels.contains_key(track) ==> channel_wf(
                self.tasks,
                track,
                self.channels[track],
            )
    }

    /// The ended sessions are listed once each for removal, and no others.
    pub open spec fn ended_wf(self) -> bool {
        &&& self.ended.no_duplicates()
        &&& forall|id: usize|
            self.ended.contains(id) <==> self.tasks.contains_key(id) && self.tasks[id].ended
    }

    /// What holds of the tables between any two steps of a worker.
    pub open spec fn wf(self) -> bool {
        &&& self.order_wf()
        &&& self.ids_wf()
        &&& self.remotes_wf()
        &&& self.ufrags_wf()
        &&& self.channels_wf()
        &&& self.ended_wf()
    }
}

/// The channel of `track` in `channels`, empty where there is none yet.
pub open spec fn channel_or_empty(channels: Map<u64, Channel>, track: u64) -> Channel {
    if channels.contains_key(track) {
        channels[track]
    } else {
        Channel { sources: Seq::empty(), consumers: Seq::empty() }
    }
}

/// The tables after session `id` has handed `output` to the worker. A
/// published or subscribed track is recorded with the track's channel and
/// with the session, once; an ended session is listed for removal. No other
/// output touches the tables.
pub open spec fn route(w: WorkerView, id: usize, output: WebrtcTaskOutput) -> WorkerView {
    match output {
        WebrtcTaskOutput::TaskEnded => WorkerView {
            tasks: w.tasks.insert(id, TaskEntry { ended: true, ..w.tasks[id] }),
            ended: with_member(w.ended, id),
            ..w
        },
        WebrtcTaskOutput::PublishTrack { track_id } => WorkerView {
            tasks: w.tasks.insert(
                id,
                TaskEntry {
                    pub_channels: with_member(w.tasks[id].pub_channels, track_id),
                    ..w.tasks[id]
                },
            ),
            channels: w.channels.insert(
                track_id,
                Channel {
                    sources: with_member(channel_or_empty(w.channels, track_id).sources, id),
                    ..channel_or_empty(w.channels, track_id)
                },
            ),
            ..w
        },
        WebrtcTaskOutput::SubscribeTrack { track_id } => WorkerView {
            tasks: w.tasks.insert(
                id,
                TaskEntry {
                    sub_channels: with_member(w.tasks[id].sub_channels, track_id),
                    ..w.tasks[id]
                },
            ),
            channels: w.channels.insert(
                track_id,
                Channel {
                    consumers: with_member(channel_or_empty(w.channels, track_id).consumers, id),
                    ..channel_or_empty(w.channels, track_id)
                },
            ),
            ..w
        },
        _ => w,
    }
}

/// The tables after session `id` has handed the outputs `outputs` to the
/// worker, one after the other.
pub open spec fn route_all(w: WorkerView, id: usize, outputs: Seq<WebrtcTaskOutput>) -> WorkerView
    decreases outputs.len(),
{
    if outputs.len() == 0 {
        w
    } else {
        route(route_all(w, id, outputs.drop_last()), id, outputs.last())
    }
}

/// The channel `channel` without session `id`.
pub open spec fn channel_without(channel: Channel, id: usize) -> Channel {
    Channel {
        sources: without_member(channel.sources, id),
        consumers: without_member(channel.consumers, id),
    }
}

/// The tables without session `id`: the session is gone, and so is every
/// entry that names it. A channel that it leaves empty is gone too.
pub open spec fn without_task(w: WorkerView, id: usize) -> WorkerView {
    WorkerView {
        seed: w.seed,
        tasks: w.tasks.remove(id),
        order: without_member(w.order, id),
        remotes: w.remotes.remove_keys(w.tasks[id].remotes.to_set()),
        ufrags: w.ufrags.remove(w.tasks[id].ufrag),
        channels: Map::new(
            |track: u64|
                w.channels.contains_key(track) && channel_without(
                    w.channels[track],
                    id,
                ).sources.len() + channel_without(w.channels[track], id).consumers.len() > 0,
            |track: u64| channel_without(w.channels[track], id),
        ),
        ended: without_member(w.ended, id),
    }
}

/// The tables without the sessions `ids`, removed one after the other.
pub open spec fn without_tasks(w: WorkerView, ids: Seq<usize>) -> WorkerView
    decreases ids.len(),
{
    if ids.len() == 0 {
        w
    } else {
        without_task(without_tasks(w, ids.drop_last()), ids.last())
    }
}

/// Whether nothing in the tables `w` names session `id`.
pub open spec fn unreferenced(w: WorkerView, id: usize) -> bool {
    &&& !w.tasks.contains_key(id)
    &&& !w.order.contains(id)
    &&& !w.ended.contains(id)
    &&& forall|remote: NetAddr| #[trigger] w.remotes.contains_key(remote) ==> w.remotes[remote] != id
    &&& forall|ufrag: Seq<char>| #[trigger] w.ufrags.contains_key(ufrag) ==> w.ufrags[ufrag] != id
    &&& forall|track: u64| #[trigger]
        w.channels.contains_key(track) ==> !w.channels[track].sources.contains(id)
            && !w.channels[track].consumers.contains(id)
}

/// The channels `channels` after session `id` has left the channels of
/// `tracks`; a channel that it leaves empty is gone.
pub open spec fn channels_left(channels: Map<u64, Channel>, tracks: Seq<u64>, id: usize) -> Map<
    u64,
    Channel,
> {
    Map::new(
        |track: u64|
            channels.contains_key(track) && (tracks.contains(track) ==> channel_without(
                channels[track],
                id,
            ).sources.len() + channel_without(channels[track], id).consumers.len() > 0),
        |track: u64|
            if tracks.contains(track) {
                channel_without(channels[track], id)
            } else {
                channels[track]
            },
    )
}

/// The tables `w` with a new session whose username fragment is `ufrag`:
/// it takes the seed as its id, comes last in the order, and owns its
/// username fragment.
pub open spec fn with_task(w: WorkerView, ufrag: Seq<char>) -> WorkerView {
    WorkerView {
        seed: (w.seed + 1) as usize,
        tasks: w.tasks.insert(
            w.seed,
            TaskEntry {
                ufrag,
                ended: false,
                remotes: Seq::empty(),
                sub_channels: Seq::empty(),
                pub_channels: Seq::empty(),
            },
        ),
        order: w.order.push(w.seed),
        ufrags: w.ufrags.insert(ufrag, w.seed),
        ..w
    }
}

/// The session that a datagram from `remote` belongs to, where `ufrag` is
/// the username fragment that the datagram names as a STUN message: the
/// owner of `remote` where it has one, else the session behind `ufrag`.
pub open spec fn owner_of(w: WorkerView, remote: NetAddr, ufrag: Option<Seq<char>>) -> Option<
    usize,
> {
    if w.remotes.contains_key(remote) {
        Some(w.remotes[remote])
    } else {
        match ufrag {
            Some(ufrag) => if w.ufrags.contains_key(ufrag) {
                Some(w.ufrags[ufrag])
            } else {
                None
            },
            None => None,
        }
    }
}

/// The tables `w` with `remote` owned by session `id`, unless it has an
/// owner already.
pub open spec fn bound(w: WorkerView, remote: NetAddr, id: usize) -> WorkerView {
    if w.remotes.contains_key(remote) {
        w
    } else {
        WorkerView {
            remotes: w.remotes.insert(remote, id),
            tasks: w.tasks.insert(
                id,
                TaskEntry { remotes: w.tasks[id].remotes.push(remote), ..w.tasks[id] },
            ),
            ..w
        }
    }
}

/// Routing an output of a session keeps the tables well formed.
pub proof fn lemma_route_wf(w: WorkerView, id: usize, output: WebrtcTaskOutput)
    requires
        w.wf(),
        w.tasks.contains_key(id),
    ensures
        route(w, id, output).wf(),
        route(w, id, output).tasks.dom() == w.tasks.dom(),
        route(w, id, output).remotes == w.remotes,
        route(w, id, output).ufrags == w.ufrags,
        route(w, id, output).order == w.order,
        route(w, id, output).seed == w.seed,
{
    let after = route(w, id, output);
    assert(after.tasks.dom() =~= w.tasks.dom());
    match output {
        WebrtcTaskOutput::TaskEnded => {
            assert(after.remotes_wf());
            assert(after.channels_wf()) by {
                assert forall|track: u64| #[trigger]
                    after.channels.contains_key(track) implies channel_wf(
                    after.tasks,
                    track,
                    after.channels[track],
                ) by {
                    assert(channel_wf(w.tasks, track, w.channels[track]));
                }
            }
            assert(after.ended_wf()) by {
                if !w.ended.contains(id) {
                    assert forall|a: int, b: int|
                        0 <= a < after.ended.len() && 0 <= b < after.ended.len() && a
                            != b implies after.ended[a] != after.ended[b] by {
                        if a == w.ended.len() {
                            assert(w.ended.contains(after.ended[b]));
                        }
                        if b == w.ended.len() {
                            assert(w.ended.contains(after.ended[a]));
                        }
                    }
                    assert forall|other: usize|
                        after.ended.contains(other) <==> after.tasks.contains_key(other)
                            && after.tasks[other].ended by {
                        if after.ended.contains(other) {
                            let i = choose|i: int|
                                0 <= i < after.ended.len() && after.ended[i] == other;
                            if i < w.ended.len() {
                                assert(w.ended.contains(other));
                            }
                        }
                        if after.tasks.contains_key(other) && after.tasks[other].ended {
                            if other == id {
                                assert(after.ended[w.ended.len() as int] == id);
                            } else {
                                assert(w.ended.contains(other));
                                let i = choose|i: int|
                                    0 <= i < w.ended.len() && w.ended[i] == other;
                                assert(after.ended[i] == other);
                            }
                        }
                    }
                }
            }
        },
        WebrtcTaskOutput::PublishTrack { track_id } => {
            lemma_with_member(w.tasks[id].pub_channels, track_id);
            lemma_with_member(channel_or_empty(w.channels, track_id).sources, id);
            assert(after.remotes_wf());
            assert(after.channels_wf()) by {
                assert forall|track: u64| #[trigger]
                    after.channels.contains_key(track) implies channel_wf(
                    after.tasks,
                    track,
                    after.channels[track],
                ) by {
                    if track != track_id || w.channels.contains_key(track) {
                        assert(channel_wf(w.tasks, track, w.channels[track]));
                    }
                    let channel = after.channels[track];
                    assert forall|i: int| 0 <= i < channel.sources.len() implies after.tasks.contains_key(
                        #[trigger] channel.sources[i],
                    ) && after.tasks[channel.sources[i]].pub_channels.contains(track) by {
                        if track == track_id {
                            assert(channel.sources.contains(channel.sources[i]));
                        }
                    }
                }
            }
        },
        WebrtcTaskOutput::SubscribeTrack { track_id } => {
            lemma_with_member(w.tasks[id].sub_channels, track_id);
            lemma_with_member(channel_or_empty(w.channels, track_id).consumers, id);
            assert(after.remotes_wf());
            assert(after.channels_wf()) by {
                assert forall|track: u64| #[trigger]
                    after.channels.contains_key(track) implies channel_wf(
                    after.tasks,
                    track,
                    after.channels[track],
                ) by {
                    if track != track_id || w.channels.contains_key(track) {
                        assert(channel_wf(w.tasks, track, w.channels[track]));
                    }
                    let channel = after.channels[track];
                    assert forall|i: int|
                        0 <= i < channel.consumers.len() implies after.tasks.contains_key(
                        #[trigger] channel.consumers[i],
                    ) && after.tasks[channel.consumers[i]].sub_channels.contains(track) by {
                        if track == track_id {
                            assert(channel.consumers.contains(channel.consumers[i]));
                        }
                    }
                }
            }
        },
        _ => {},
    }
}

/// Routing the outputs of a session keeps the tables well formed; it
/// touches neither the set of sessions and their order, nor the owners of
/// remote addresses and username fragments, nor the seed.
pub proof fn lemma_route_all(w: WorkerView, id: usize, outputs: Seq<WebrtcTaskOutput>)
    requires
        w.wf(),
        w.tasks.contains_key(id),
    ensures
        route_all(w, id, outputs).wf(),
        route_all(w, id, outputs).tasks.dom() == w.tasks.dom(),
        route_all(w, id, outputs).remotes == w.remotes,
        route_all(w, id, outputs).ufrags == w.ufrags,
        route_all(w, id, outputs).order == w.order,
        route_all(w, id, outputs).seed == w.seed,
    decreases outputs.len(),
{
    if outputs.len() > 0 {
        lemma_route_all(w, id, outputs.drop_last());
        lemma_route_wf(route_all(w, id, outputs.drop_last()), id, outputs.last());
    }
}

/// Once a session is removed, nothing in the tables names it any more, and
/// the tables are well formed as before.
pub proof fn lemma_without_task(w: WorkerView, id: usize)
    requires
        w.wf(),
        w.tasks.contains_key(id),
    ensures
        without_task(w, id).wf(),
        unreferenced(without_task(w, id), id),
        without_task(w, id).tasks.dom() == w.tasks.dom().remove(id),
{
    let after = without_task(w, id);
    let gone = w.tasks[id];
    lemma_without_member(w.order, id);
    lemma_without_member(w.ended, id);
    assert(after.tasks.dom() =~= w.tasks.dom().remove(id));
    assert(after.order_wf());
    assert(after.ended_wf());
    assert forall|remote: NetAddr| #[trigger] after.remotes.contains_key(remote) implies {
        &&& after.remotes[remote] != id
        &&& after.tasks.contains_key(after.remotes[remote])
        &&& after.tasks[after.remotes[remote]].remotes.contains(remote)
    } by {
        assert(w.remotes.contains_key(remote));
        if w.remotes[remote] == id {
            assert(gone.remotes.contains(remote));
            assert(gone.remotes.to_set().contains(remote));
        }
    }
    assert forall|other: usize, i: int|
        after.tasks.contains_key(other) && 0 <= i < after.tasks[other].remotes.len() implies {
        &&& after.remotes.contains_key(#[trigger] after.tasks[other].remotes[i])
        &&& after.remotes[after.tasks[other].remotes[i]] == other
    } by {
        let remote = w.tasks[other].remotes[i];
        assert(w.remotes.contains_key(remote) && w.remotes[remote] == other);
        if gone.remotes.to_set().contains(remote) {
            let j = choose|j: int| 0 <= j < gone.remotes.len() && gone.remotes[j] == remote;
            assert(w.remotes[gone.remotes[j]] == id);
        }
    }
    assert(after.remotes_wf());
    assert forall|ufrag: Seq<char>| #[trigger] after.ufrags.contains_key(ufrag) implies {
        &&& after.ufrags[ufrag] != id
        &&& after.tasks.contains_key(after.ufrags[ufrag])
        &&& after.tasks[after.ufrags[ufrag]].ufrag == ufrag
    } by {
        assert(w.ufrags.contains_key(ufrag));
    }
    assert(after.ufrags_wf());
    assert forall|track: u64| #[trigger] after.channels.contains_key(track) implies {
        &&& channel_wf(after.tasks, track, after.channels[track])
        &&& !after.channels[track].sources.contains(id)
        &&& !after.channels[track].consumers.contains(id)
    } by {
        let before = w.channels[track];
        let channel = after.channels[track];
        assert(channel_wf(w.tasks, track, before));
        lemma_without_member(before.sources, id);
        lemma_without_member(before.consumers, id);
        assert forall|i: int| 0 <= i < channel.sources.len() implies after.tasks.contains_key(
            #[trigger] channel.sources[i],
        ) && after.tasks[channel.sources[i]].pub_channels.contains(track) by {
            let member = channel.sources[i];
            assert(channel.sources.contains(member));
            assert(before.sources.contains(member));
            let j = choose|j: int| 0 <= j < before.sources.len() && before.sources[j] == member;
            assert(w.tasks.contains_key(before.sources[j]));
        }
        assert forall|i: int| 0 <= i < channel.consumers.len() implies after.tasks.contains_key(
            #[trigger] channel.consumers[i],
        ) && after.tasks[channel.consumers[i]].sub_channels.contains(track) by {
            let member = channel.consumers[i];
            assert(channel.consumers.contains(member));
            assert(before.consumers.contains(member));
            let j = choose|j: int|
                0 <= j < before.consumers.len() && before.consumers[j] == member;
            assert(w.tasks.contains_key(before.consumers[j]));
        }
    }
    assert(after.channels_wf());
}

/// A session that nothing names stays so when another session is removed.
pub proof fn lemma_unreferenced_stays(w: WorkerView, id: usize, gone: usize)
    requires
        unreferenced(w, gone),
    ensures
        unreferenced(without_task(w, id), gone),
{
    let after = without_task(w, id);
    lemma_without_member(w.order, id);
    lemma_without_member(w.ended, id);
    assert forall|track: u64| #[trigger] after.channels.contains_key(track) implies !after.channels[track].sources.contains(
        gone,
    ) && !after.channels[track].consumers.contains(gone) by {
        lemma_without_member(w.channels[track].sources, id);
        lemma_without_member(w.channels[track].consumers, id);
    }
}

/// A new session keeps the tables well formed.
pub proof fn lemma_with_task_wf(w: WorkerView, ufrag: Seq<char>)
    requires
        w.wf(),
        w.seed < usize::MAX,
    ensures
        with_task(w, ufrag).wf(),
{
    let after = with_task(w, ufrag);
    let id = w.seed;
    assert(!w.tasks.contains_key(id));
    assert(!w.order.contains(id));
    assert(after.order_wf()) by {
        assert forall|a: int, b: int|
            0 <= a < after.order.len() && 0 <= b < after.order.len() && a != b implies after.order[a]
            != after.order[b] by {
            if a == w.order.len() {
                assert(w.order.contains(after.order[b]));
            }
            if b == w.order.len() {
                assert(w.order.contains(after.order[a]));
            }
        }
        assert forall|other: usize|
            after.order.contains(other) <==> after.tasks.contains_key(other) by {
            if after.order.contains(other) {
                let i = choose|i: int| 0 <= i < after.order.len() && after.order[i] == other;
                if i < w.order.len() {
                    assert(w.order.contains(other));
                }
            }
            if after.tasks.contains_key(other) {
                if other == id {
                    assert(after.order[w.order.len() as int] == id);
                } else {
                    assert(w.order.contains(other));
                    let i = choose|i: int| 0 <= i < w.order.len() && w.order[i] == other;
                    assert(after.order[i] == other);
                }
            }
        }
    }
    assert(after.remotes_wf());
    assert(after.ufrags_wf());
    assert(after.channels_wf()) by {
        assert forall|track: u64| #[trigger]
            after.channels.contains_key(track) implies channel_wf(
            after.tasks,
            track,
            after.channels[track],
        ) by {
            assert(channel_wf(w.tasks, track, w.channels[track]));
        }
    }
    assert(after.ended_wf());
}

/// Binding a remote address to a session keeps the tables well formed.
pub proof fn lemma_bound_wf(w: WorkerView, remote: NetAddr, id: usize)
    requires
        w.wf(),
        w.tasks.contains_key(id),
    ensures
        bound(w, remote, id).wf(),
        bound(w, remote, id).tasks.dom() == w.tasks.dom(),
{
    let after = bound(w, remote, id);
    assert(after.tasks.dom() =~= w.tasks.dom());
    if !w.remotes.contains_key(remote) {
        let grown = w.tasks[id].remotes.push(remote);
        assert(grown[w.tasks[id].remotes.len() as int] == remote);
        assert forall|r: NetAddr| #[trigger] after.remotes.contains_key(r) implies after.tasks.contains_key(
            after.remotes[r],
        ) && after.tasks[after.remotes[r]].remotes.contains(r) by {
            if r != remote {
                assert(w.remotes.contains_key(r));
                let owner = w.remotes[r];
                assert(w.tasks[owner].remotes.contains(r));
                if owner == id {
                    let j = choose|j: int|
                        0 <= j < w.tasks[id].remotes.len() && w.tasks[id].remotes[j] == r;
                    assert(grown[j] == r);
                }
            }
        }
        assert forall|other: usize, i: int|
            after.tasks.contains_key(other) && 0 <= i < after.tasks[other].remotes.len() implies after.remotes.contains_key(
            #[trigger] after.tasks[other].remotes[i],
        ) && after.remotes[after.tasks[other].remotes[i]] == other by {
            if other == id && i < w.tasks[id].remotes.len() {
                assert(grown[i] == w.tasks[id].remotes[i]);
            }
            if other != id {
                assert(after.tasks[other].remotes[i] == w.tasks[other].remotes[i]);
            }
        }
        assert(after.ufrags_wf());
        assert(after.channels_wf()) by {
            assert forall|track: u64| #[trigger]
                after.channels.contains_key(track) implies channel_wf(
                after.tasks,
                track,
                after.channels[track],
            ) by {
                assert(channel_wf(w.tasks, track, w.channels[track]));
            }
        }
    }
}

/// Whether the tables list session `id` as a publisher of `track`, with the
/// channel and with the session.
pub open spec fn is_source(w: WorkerView, track: u64, id: usize) -> bool {
    &&& w.channels.contains_key(track)
    &&& w.channels[track].sources.contains(id)
    &&& w.tasks.contains_key(id)
    &&& w.tasks[id].pub_channels.contains(track)
}

/// Whether the tables list session `id` as a consumer of `track`, with the
/// channel and with the session.
pub open spec fn is_consumer(w: WorkerView, track: u64, id: usize) -> bool {
    &&& w.channels.contains_key(track)
    &&& w.channels[track].consumers.contains(id)
    &&& w.tasks.contains_key(id)
    &&& w.tasks[id].sub_channels.contains(track)
}

/// Routing an output takes no publisher and no consumer off a channel, and
/// routing a track notice lists the session that gave it.
pub proof fn lemma_route_lists(
    w: WorkerView,
    id: usize,
    output: WebrtcTaskOutput,
    track: u64,
    member: usize,
)
    requires
        w.tasks.contains_key(id),
    ensures
        is_source(w, track, member) ==> is_source(route(w, id, output), track, member),
        is_consumer(w, track, member) ==> is_consumer(route(w, id, output), track, member),
        output == (WebrtcTaskOutput::PublishTrack { track_id: track }) ==> is_source(
            route(w, id, output),
            track,
            id,
        ),
        output == (WebrtcTaskOutput::SubscribeTrack { track_id: track }) ==> is_consumer(
            route(w, id, output),
            track,
            id,
        ),
{
    match output {
        WebrtcTaskOutput::PublishTrack { track_id } => {
            lemma_with_member(w.tasks[id].pub_channels, track_id);
            lemma_with_member(channel_or_empty(w.channels, track_id).sources, id);
        },
        WebrtcTaskOutput::SubscribeTrack { track_id } => {
            lemma_with_member(w.tasks[id].sub_channels, track_id);
            lemma_with_member(channel_or_empty(w.channels, track_id).consumers, id);
        },
        _ => {},
    }
}

/// Routing the outputs of a session lists it with every track of which a
/// notice is among them.
pub proof fn lemma_route_all_lists(
    w: WorkerView,
    id: usize,
    outputs: Seq<WebrtcTaskOutput>,
    at: int,
    track: u64,
)
    requires
        w.tasks.contains_key(id),
        0 <= at < outputs.len(),
    ensures
        route_all(w, id, outputs).tasks.contains_key(id),
        outputs[at] == (WebrtcTaskOutput::PublishTrack { track_id: track }) ==> is_source(
            route_all(w, id, outputs),
            track,
            id,
        ),
        outputs[at] == (WebrtcTaskOutput::SubscribeTrack { track_id: track }) ==> is_consumer(
            route_all(w, id, outputs),
            track,
            id,
        ),
    decreases outputs.len(),
{
    let front = outputs.drop_last();
    lemma_route_all_keeps_tasks(w, id, front);
    let earlier = route_all(w, id, front);
    if at < front.len() {
        assert(front[at] == outputs[at]);
        lemma_route_all_lists(w, id, front, at, track);
    }
    lemma_route_lists(earlier, id, outputs.last(), track, id);
    lemma_route_all_keeps_tasks(w, id, outputs);
}

/// Routing the outputs of a session takes no session away.
pub proof fn lemma_route_all_keeps_tasks(w: WorkerView, id: usize, outputs: Seq<WebrtcTaskOutput>)
    requires
        w.tasks.contains_key(id),
    ensures
        route_all(w, id, outputs).tasks.dom() == w.tasks.dom(),
    decreases outputs.len(),
{
    if outputs.len() > 0 {
        lemma_route_all_keeps_tasks(w, id, outputs.drop_last());
        let earlier = route_all(w, id, outputs.drop_last());
        assert(route(earlier, id, outputs.last()).tasks.dom() =~= earlier.tasks.dom());
    }
}

/// Every remote address in the table belongs to a session that exists and
/// that has recorded the address.
pub proof fn remote_owner_is_recorded(w: WorkerView, remote: NetAddr)
    requires
        w.wf(),
        w.remotes.contains_key(remote),
    ensures
        w.tasks.contains_key(w.remotes[remote]),
        w.tasks[w.remotes[remote]].remotes.contains(remote),
{
}

/// Every username fragment in the table is that of the session it names,
/// and that session exists.
pub proof fn ufrag_owner_has_the_ufrag(w: WorkerView, ufrag: Seq<char>)
    requires
        w.wf(),
        w.ufrags.contains_key(ufrag),
    ensures
        w.tasks.contains_key(w.ufrags[ufrag]),
        w.tasks[w.ufrags[ufrag]].ufrag == ufrag,
{
}

/// Every publisher and every consumer that a channel lists is a session
/// that exists, and no channel is empty.
pub proof fn channel_members_exist(w: WorkerView, track: u64)
    requires
        w.wf(),
        w.channels.contains_key(track),
    ensures
        w.channels[track].sources.len() + w.channels[track].consumers.len() > 0,
        forall|id: usize| w.channels[track].sources.contains(id) ==> w.tasks.contains_key(id),
        forall|id: usize| w.channels[track].consumers.contains(id) ==> w.tasks.contains_key(id),
{
    let channel = w.channels[track];
    assert(channel_wf(w.tasks, track, channel));
    assert forall|id: usize| channel.sources.contains(id) implies w.tasks.contains_key(id) by {
        let i = choose|i: int| 0 <= i < channel.sources.len() && channel.sources[i] == id;
        assert(w.tasks.contains_key(channel.sources[i]));
    }
    assert forall|id: usize| channel.consumers.contains(id) implies w.tasks.contains_key(id) by {
        let i = choose|i: int| 0 <= i < channel.consumers.len() && channel.consumers[i] == id;
        assert(w.tasks.contains_key(channel.consumers[i]));
    }
}

/// No id is handed out twice: the id of a new session is that of no
/// session in the tables, and the seed only grows.
pub proof fn new_task_id_is_fresh(w: WorkerView, ufrag: Seq<char>)
    requires
        w.wf(),
        w.seed < usize::MAX,
    ensures
        !w.tasks.contains_key(w.seed),
        with_task(w, ufrag).seed == w.seed + 1,
        forall|id: usize| with_task(w, ufrag).tasks.contains_key(id) ==> id <= w.seed,
{
}

} // verus!
