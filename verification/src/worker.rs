//! The worker: the sessions of one thread and the tables that say which
//! datagram, which media and which keyframe request goes to which of them.

use crate::http::http_auth;
use crate::io::{Headers, HttpRequest, HttpResponse, IoAction, IoEvent, NetAddr};
use crate::remotes::RemoteTable;
use crate::stun::{get_stun_username, stun_ufrag};
use crate::tasks::engine::{Certificate, EngineOutput};
use crate::tasks::whep::{whep_input_post, whep_location, whep_step, WhepServerTask};
use crate::tasks::whip::{is_http, whip_input_post, whip_location, whip_step, WhipServerTask};
use crate::tasks::{
    drain_takes_the_queue, is_bad_request, is_response, is_sdp_answer, lemma_pop_keeps_task_ok,
    lemma_step_keeps_task_ok, pop_post, popped, popped_through, same_media, session_drained, step,
    task_ok, tick_post, ComposeTask, KeyframeRequestKind, TaskCore, TaskView, TrackMedia,
    WebrtcTaskInput, WebrtcTaskOutput, DRAIN_LIMIT,
};
use crate::worker::lists::{
    add_member, add_track, drop_member, lemma_take_grows, lemma_without_first, lemma_without_member,
    with_member,
};
use crate::worker::tables::{
    bound, channel_or_empty, channel_wf, channel_without, channels_left, is_consumer, is_source,
    lemma_bound_wf, lemma_route_all, lemma_route_all_lists, lemma_route_wf,
    lemma_unreferenced_stays, lemma_with_task_wf, lemma_without_task, owner_of, route, route_all,
    unreferenced, with_task, without_task, without_tasks, Channel, TaskEntry, WorkerView,
};
use std::collections::HashMap;
use vstd::hash_map::StringHashMap;
use vstd::prelude::*;
use vstd::string::{StrSliceExecFns, StringSliceAdditionalSpecFns};

pub mod lists;
pub mod tables;

verus! {

/// What the workers tell each other over the bus.
pub enum BusEvent {
    TrackMedia(TrackMedia),
    TrackKeyframeRequest(u64, KeyframeRequestKind),
}

/// What a worker asks its surroundings to do.
pub enum WorkerAction {
    /// Send a datagram, or hand an HTTP response to the controller.
    Io(IoAction),
    /// Broadcast an event on the bus.
    Bus(BusEvent),
}

/// The local sessions that publish and that consume one track.
pub struct BusChannelContainer {
    pub sources: Vec<usize>,
    pub consumers: Vec<usize>,
}

impl View for BusChannelContainer {
    type V = Channel;

    open spec fn view(&self) -> Channel {
        Channel { sources: self.sources@, consumers: self.consumers@ }
    }
}

/// A session and what the worker has recorded of it.
pub struct TaskContainer {
    pub task: ComposeTask,
    pub remotes: Vec<NetAddr>,
    pub sub_channels: Vec<u64>,
    pub pub_channels: Vec<u64>,
}

impl View for TaskContainer {
    type V = TaskEntry;

    open spec fn view(&self) -> TaskEntry {
        TaskEntry {
            ufrag: self.task@.ice_ufrag,
            ended: self.task@.ended,
            remotes: self.remotes@,
            sub_channels: self.sub_channels@,
            pub_channels: self.pub_channels@,
        }
    }
}

impl TaskContainer {
    /// A session of which the worker has recorded nothing yet.
    pub fn from(task: ComposeTask) -> (container: TaskContainer)
        ensures
            container.task == task,
            container.remotes@ == Seq::<NetAddr>::empty(),
            container.sub_channels@ == Seq::<u64>::empty(),
            container.pub_channels@ == Seq::<u64>::empty(),
    {
        TaskContainer {
            task,
            remotes: Vec::new(),
            sub_channels: Vec::new(),
            pub_channels: Vec::new(),
        }
    }
}

/// What the worker asks its surroundings to do with `output`: datagrams and
/// HTTP responses go out as they are, media and keyframe requests go on the
/// bus, and the rest stays with the worker.
pub open spec fn action_of(output: WebrtcTaskOutput) -> Option<WorkerAction> {
    match output {
        WebrtcTaskOutput::Io(action) => Some(WorkerAction::Io(action)),
        WebrtcTaskOutput::TrackMedia(media) => Some(WorkerAction::Bus(BusEvent::TrackMedia(media))),
        WebrtcTaskOutput::RequestKeyframeTrack { track_id, kind } => Some(
            WorkerAction::Bus(BusEvent::TrackKeyframeRequest(track_id, kind)),
        ),
        _ => None,
    }
}

/// The actions that the outputs `outputs` ask for, in their order.
pub open spec fn actions_of(outputs: Seq<WebrtcTaskOutput>) -> Seq<WorkerAction>
    decreases outputs.len(),
{
    if outputs.len() == 0 {
        Seq::empty()
    } else {
        match action_of(outputs.last()) {
            Some(action) => actions_of(outputs.drop_last()).push(action),
            None => actions_of(outputs.drop_last()),
        }
    }
}

/// Whether `action` hands an HTTP response to the controller.
pub open spec fn is_response_action(action: WorkerAction) -> bool {
    action matches WorkerAction::Io(IoAction::HttpResponse(_))
}

/// Outputs that hold no HTTP response ask for no HTTP response.
pub proof fn lemma_actions_without_response(outputs: Seq<WebrtcTaskOutput>)
    requires
        forall|i: int| 0 <= i < outputs.len() ==> !is_response(#[trigger] outputs[i]),
    ensures
        forall|i: int|
            0 <= i < actions_of(outputs).len() ==> !is_response_action(
                #[trigger] actions_of(outputs)[i],
            ),
    decreases outputs.len(),
{
    if outputs.len() > 0 {
        let front = outputs.drop_last();
        assert forall|i: int| 0 <= i < front.len() implies !is_response(#[trigger] front[i]) by {
            assert(front[i] == outputs[i]);
        }
        lemma_actions_without_response(front);
        let last = outputs[outputs.len() - 1];
        assert(!is_response(last));
        assert(outputs.last() == last);
        let earlier = actions_of(front);
        let all = actions_of(outputs);
        assert forall|i: int| 0 <= i < all.len() implies !is_response_action(#[trigger] all[i]) by {
            if i < earlier.len() {
                assert(all[i] == earlier[i]);
            } else {
                assert(action_of(last) == Some(all[i]));
            }
        }
    }
}

/// The datagram `buf` from `from` to `to` as an input of a session.
pub open spec fn datagram_input<'a>(from: NetAddr, to: NetAddr, buf: &'a [u8]) -> WebrtcTaskInput<
    'a,
> {
    WebrtcTaskInput::Io(IoEvent::UdpSocketRecv { from, to, buf })
}

/// Whether a session in state `before` tells the worker, once it has taken
/// `event`, that it may have more to pop.
pub open spec fn input_more(publisher: bool, before: TaskView, event: WebrtcTaskInput) -> bool {
    if publisher {
        !(before.ended || is_http(event) || event is TrackMedia)
    } else {
        !(before.ended || is_http(event) || event is RequestKeyframeTrack)
    }
}

/// Whether `after` is the session `before` once it has taken `event`.
pub open spec fn took_input(before: ComposeTask, event: WebrtcTaskInput, after: ComposeTask) -> bool {
    &&& after.is_publisher() == before.is_publisher()
    &&& before.is_publisher() ==> whip_input_post(
        before@,
        event,
        after@,
        input_more(true, before@, event),
        after.engine() == before.engine(),
    )
    &&& !before.is_publisher() ==> whep_input_post(
        before@,
        event,
        after@,
        input_more(false, before@, event),
        after.engine() == before.engine(),
    )
}

/// A session that takes an input keeps its username fragment, its queue and
/// whether it has ended.
pub proof fn lemma_input_keeps(before: ComposeTask, event: WebrtcTaskInput, after: ComposeTask)
    requires
        took_input(before, event, after),
    ensures
        after@.ice_ufrag == before@.ice_ufrag,
        after@.ended == before@.ended,
        after@.outputs == before@.outputs,
{
}

/// Whether session `id` is among the local receivers of the bus event
/// `event`: the consumers of the track for media, its publishers for a
/// keyframe request.
pub open spec fn receives(w: WorkerView, event: BusEvent, id: usize) -> bool {
    match event {
        BusEvent::TrackMedia(media) => w.channels.contains_key(media.track_id)
            && w.channels[media.track_id].consumers.contains(id),
        BusEvent::TrackKeyframeRequest(track_id, _) => w.channels.contains_key(track_id)
            && w.channels[track_id].sources.contains(id),
    }
}

/// Whether `after` is the session `before` once it has taken a copy of `media`.
pub open spec fn media_delivered(before: ComposeTask, media: TrackMedia, after: ComposeTask) -> bool {
    exists|copy: TrackMedia|
        #[trigger] same_media(copy, media) && took_input(
            before,
            WebrtcTaskInput::TrackMedia(copy),
            after,
        )
}

/// Whether `after` is the session `before` once the bus event `event` was
/// delivered to it: a copy of the media, or the keyframe request.
pub open spec fn bus_delivered(before: ComposeTask, event: BusEvent, after: ComposeTask) -> bool {
    match event {
        BusEvent::TrackMedia(media) => media_delivered(before, media, after),
        BusEvent::TrackKeyframeRequest(track_id, kind) => took_input(
            before,
            WebrtcTaskInput::RequestKeyframeTrack { track_id, kind },
            after,
        ),
    }
}

/// Whether `after` is the session `before` once it was ticked at `now`.
pub open spec fn ticked(before: ComposeTask, now: u64, after: ComposeTask) -> bool {
    &&& after.is_publisher() == before.is_publisher()
    &&& tick_post(
        before@,
        now,
        after@,
        TaskCore::spec_due(before@, now),
        after.engine() == before.engine(),
    )
}

/// Whether the outputs `outputs`, handed over by session `id` one after the
/// other, lead from the tables `before` to the tables `after` and ask for
/// the actions `actions`.
pub open spec fn drained(
    before: WorkerView,
    id: usize,
    outputs: Seq<WebrtcTaskOutput>,
    after: WorkerView,
    actions: Seq<WorkerAction>,
) -> bool {
    &&& outputs.len() <= DRAIN_LIMIT
    &&& forall|i: int| 0 <= i < outputs.len() ==> !is_response(#[trigger] outputs[i])
    &&& after == route_all(before, id, outputs)
    &&& actions == actions_of(outputs)
}

/// The tables after each session of `ids` has handed its outputs in
/// `outputs` to the worker, the sessions one after the other.
pub open spec fn route_each(
    w: WorkerView,
    ids: Seq<usize>,
    outputs: Seq<Seq<WebrtcTaskOutput>>,
) -> WorkerView
    decreases ids.len(),
{
    if ids.len() == 0 || outputs.len() != ids.len() {
        w
    } else {
        route_all(route_each(w, ids.drop_last(), outputs.drop_last()), ids.last(), outputs.last())
    }
}

/// The actions that the outputs `outputs` of several sessions ask for, the
/// sessions one after the other.
pub open spec fn actions_each(outputs: Seq<Seq<WebrtcTaskOutput>>) -> Seq<WorkerAction>
    decreases outputs.len(),
{
    if outputs.len() == 0 {
        Seq::empty()
    } else {
        actions_each(outputs.drop_last()) + actions_of(outputs.last())
    }
}

/// Whether the outputs `outputs`, one list for each session of `ids`, lead
/// from the tables `before` to the tables `after` and ask for the actions
/// `actions`.
pub open spec fn drained_each(
    before: WorkerView,
    ids: Seq<usize>,
    outputs: Seq<Seq<WebrtcTaskOutput>>,
    after: WorkerView,
    actions: Seq<WorkerAction>,
) -> bool {
    &&& outputs.len() == ids.len()
    &&& forall|k: int| 0 <= k < outputs.len() ==> (#[trigger] outputs[k]).len() <= DRAIN_LIMIT
    &&& forall|k: int, i: int|
        0 <= k < outputs.len() && 0 <= i < outputs[k].len() ==> !is_response(
            #[trigger] outputs[k][i],
        )
    &&& after == route_each(before, ids, outputs)
    &&& actions == actions_each(outputs)
}

/// The two endpoints at which sessions are set up.
#[derive(Clone, Copy, Debug, PartialEq, Eq, Structural)]
pub enum Endpoint {
    Whip,
    Whep,
}

/// The endpoint that the request path `path` names, if it names one.
pub open spec fn endpoint_of(path: Seq<char>) -> Option<Endpoint> {
    if path == "/whip/endpoint"@ {
        Some(Endpoint::Whip)
    } else if path == "/whep/endpoint"@ {
        Some(Endpoint::Whep)
    } else {
        None
    }
}

/// Where the answer says that a session set up at `endpoint` lives.
pub open spec fn location_of(endpoint: Endpoint) -> Seq<char> {
    match endpoint {
        Endpoint::Whip => whip_location(),
        Endpoint::Whep => whep_location(),
    }
}

/// Whether `res` tells the sender of request `req_id` that its path names
/// no endpoint.
pub open spec fn is_not_found(res: HttpResponse, req_id: u64) -> bool {
    &&& res.req_id == req_id
    &&& res.status == 404
    &&& res.headers@ == Map::<Seq<char>, Seq<char>>::empty()
    &&& res.body@ == "Not Found".spec_bytes()
}

/// Whether `res` tells the sender of request `req_id` that the worker can
/// take no more sessions.
pub open spec fn is_unavailable(res: HttpResponse, req_id: u64) -> bool {
    &&& res.req_id == req_id
    &&& res.status == 503
    &&& res.headers@ == Map::<Seq<char>, Seq<char>>::empty()
    &&& res.body@ == "Service Unavailable".spec_bytes()
}

/// The response that tells the sender of request `req_id` that the worker
/// can take no more sessions.
pub fn unavailable(req_id: u64) -> (res: HttpResponse)
    ensures
        is_unavailable(res, req_id),
{
    HttpResponse {
        req_id,
        status: 503,
        headers: Headers::new(),
        body: "Service Unavailable".as_bytes_vec(),
    }
}

/// The ids of the requests that the responses among `actions` answer, in
/// the order of the responses.
pub open spec fn response_ids(actions: Seq<WorkerAction>) -> Seq<u64>
    decreases actions.len(),
{
    if actions.len() == 0 {
        Seq::empty()
    } else {
        match actions.last() {
            WorkerAction::Io(IoAction::HttpResponse(res)) => response_ids(
                actions.drop_last(),
            ).push(res.req_id),
            _ => response_ids(actions.drop_last()),
        }
    }
}

/// The actions of `batches`, one batch after the other.
pub open spec fn all_actions(batches: Seq<Seq<WorkerAction>>) -> Seq<WorkerAction>
    decreases batches.len(),
{
    if batches.len() == 0 {
        Seq::empty()
    } else {
        all_actions(batches.drop_last()) + batches.last()
    }
}

/// The responses among two lists of actions, one after the other, are those
/// of the first followed by those of the second.
pub proof fn lemma_response_ids_add(first: Seq<WorkerAction>, second: Seq<WorkerAction>)
    ensures
        response_ids(first + second) == response_ids(first) + response_ids(second),
    decreases second.len(),
{
    if second.len() == 0 {
        assert(first + second =~= first);
        assert(response_ids(first) + response_ids(second) =~= response_ids(first));
    } else {
        lemma_response_ids_add(first, second.drop_last());
        assert((first + second).drop_last() =~= first + second.drop_last());
        assert((first + second).last() == second.last());
        match second.last() {
            WorkerAction::Io(IoAction::HttpResponse(res)) => {
                assert((response_ids(first) + response_ids(second.drop_last())).push(res.req_id)
                    =~= response_ids(first) + response_ids(second));
            },
            _ => {},
        }
    }
}

/// Actions among which there is no response answer no request.
pub proof fn lemma_no_response_ids(actions: Seq<WorkerAction>)
    requires
        forall|i: int| 0 <= i < actions.len() ==> !is_response_action(#[trigger] actions[i]),
    ensures
        response_ids(actions) == Seq::<u64>::empty(),
    decreases actions.len(),
{
    if actions.len() > 0 {
        let front = actions.drop_last();
        assert forall|i: int| 0 <= i < front.len() implies !is_response_action(
            #[trigger] front[i],
        ) by {
            assert(front[i] == actions[i]);
        }
        lemma_no_response_ids(front);
        assert(!is_response_action(actions[actions.len() - 1]));
    }
}

/// Actions that begin with the response to request `req_id` and hold no
/// other response answer that request, once, and no other.
pub proof fn lemma_one_response_id(actions: Seq<WorkerAction>, req_id: u64)
    requires
        actions.len() >= 1,
        actions[0] matches WorkerAction::Io(IoAction::HttpResponse(res)) && res.req_id == req_id,
        forall|i: int| 1 <= i < actions.len() ==> !is_response_action(#[trigger] actions[i]),
    ensures
        response_ids(actions) == seq![req_id],
{
    let head = actions.take(1);
    let rest = actions.skip(1);
    assert(head + rest =~= actions);
    lemma_response_ids_add(head, rest);
    assert forall|i: int| 0 <= i < rest.len() implies !is_response_action(#[trigger] rest[i]) by {
        assert(rest[i] == actions[i + 1]);
    }
    lemma_no_response_ids(rest);
    assert(head.drop_last() =~= Seq::<WorkerAction>::empty());
    assert(head.last() == actions[0]);
    assert(response_ids(head.drop_last()) =~= Seq::<u64>::empty());
    assert(response_ids(head) =~= seq![req_id]);
    assert(response_ids(head) + response_ids(rest) =~= seq![req_id]);
}

/// Every request is answered exactly once: where each batch of actions
/// answers one request, as the actions of `process_http` do, all batches
/// together answer each of the requests once, in the order of the requests,
/// and no other.
pub proof fn each_request_is_answered_once(batches: Seq<Seq<WorkerAction>>, ids: Seq<u64>)
    requires
        batches.len() == ids.len(),
        forall|k: int| 0 <= k < batches.len() ==> response_ids(#[trigger] batches[k]) == seq![ids[k]],
    ensures
        response_ids(all_actions(batches)) == ids,
    decreases batches.len(),
{
    if batches.len() == 0 {
        assert(ids =~= Seq::<u64>::empty());
    } else {
        let front = batches.drop_last();
        assert forall|k: int| 0 <= k < front.len() implies response_ids(#[trigger] front[k])
            == seq![ids.drop_last()[k]] by {
            assert(front[k] == batches[k]);
        }
        each_request_is_answered_once(front, ids.drop_last());
        lemma_response_ids_add(all_actions(front), batches.last());
        assert(response_ids(batches[batches.len() - 1]) == seq![ids[ids.len() - 1]]);
        assert(ids.drop_last() + seq![ids.last()] =~= ids);
    }
}

/// The response that tells the sender of request `req_id` that its path
/// names no endpoint.
pub fn not_found(req_id: u64) -> (res: HttpResponse)
    ensures
        is_not_found(res, req_id),
{
    HttpResponse { req_id, status: 404, headers: Headers::new(), body: "Not Found".as_bytes_vec() }
}

/// What `process_http` at `now` answers and does for a request to
/// `endpoint`, where `made` is the session with the seed of `before` as its
/// id afterwards. Where the worker has handed out every id that there is,
/// nothing changes and the one action says that the service is unavailable.
/// Where the engine refuses the offer, nothing changes and the one action is
/// the refusal. Otherwise a session of the kind that
/// belongs to the endpoint is set up for the channel that the request names,
/// its answer is the first action, and the session is drained at once.
pub open spec fn session_made(
    before: WorkerView,
    now: u64,
    req: HttpRequest,
    endpoint: Endpoint,
    after: WorkerView,
    made: ComposeTask,
    actions: Seq<WorkerAction>,
) -> bool {
    if before.seed == usize::MAX {
        &&& after == before
        &&& actions.len() == 1
        &&& actions[0] matches WorkerAction::Io(IoAction::HttpResponse(res))
        &&& is_unavailable(res, req.req_id)
    } else {
        session_made_or_refused(before, now, req, endpoint, after, made, actions)
    }
}

/// What `process_http` answers and does for a request to `endpoint` where
/// the worker has an id left for the session.
pub open spec fn session_made_or_refused(
    before: WorkerView,
    now: u64,
    req: HttpRequest,
    endpoint: Endpoint,
    after: WorkerView,
    made: ComposeTask,
    actions: Seq<WorkerAction>,
) -> bool {
    ||| {
        &&& after == before
        &&& actions.len() == 1
        &&& actions[0] matches WorkerAction::Io(IoAction::HttpResponse(res))
        &&& is_bad_request(res, req.req_id)
    }
    ||| {
        &&& actions.len() >= 1
        &&& actions[0] matches WorkerAction::Io(IoAction::HttpResponse(res))
        &&& is_sdp_answer(res, req.req_id, location_of(endpoint), res.body@)
        &&& made.is_publisher() == (endpoint == Endpoint::Whip)
        &&& exists|fresh: TaskView, outputs: Seq<WebrtcTaskOutput>|
            #![trigger
                TaskCore::is_fresh(fresh, res, http_auth(req.headers@)),
                drained(with_task(before, fresh.ice_ufrag), before.seed, outputs, after, actions.skip(1)),
            ]
            {
                &&& TaskCore::is_fresh(fresh, res, http_auth(req.headers@))
                &&& drained(
                    with_task(before, fresh.ice_ufrag),
                    before.seed,
                    outputs,
                    after,
                    actions.skip(1),
                )
                &&& session_drained(
                    made.is_publisher(),
                    TaskView { outputs: Seq::empty(), ..fresh },
                    now,
                    outputs,
                    made@,
                )
            }
    }
}

/// The shortest time that a cycle of the worker takes, in nanoseconds.
pub const CYCLE_NS: u64 = 1_000_000;

/// One worker: its sessions and its routing tables.
pub struct Worker {
    task_id_seed: usize,
    local_addr: NetAddr,
    epoch: std::time::Instant,
    dtls_cert: Certificate,
    bus_channels: HashMap<u64, BusChannelContainer>,
    tasks: HashMap<usize, TaskContainer>,
    task_order: Vec<usize>,
    task_remotes: RemoteTable,
    task_ufrags: StringHashMap<usize>,
    ended_tasks: Vec<usize>,
}

impl View for Worker {
    type V = WorkerView;

    closed spec fn view(&self) -> WorkerView {
        WorkerView {
            seed: self.task_id_seed,
            tasks: Map::new(
                |id: usize| self.tasks@.contains_key(id),
                |id: usize| self.tasks@[id]@,
            ),
            order: self.task_order@,
            remotes: self.task_remotes@,
            ufrags: self.task_ufrags@,
            channels: Map::new(
                |track: u64| self.bus_channels@.contains_key(track),
                |track: u64| self.bus_channels@[track]@,
            ),
            ended: self.ended_tasks@,
        }
    }
}

impl Worker {
    /// The session with id `id`.
    pub closed spec fn task(&self, id: usize) -> ComposeTask {
        self.tasks@[id].task
    }

    /// The address of the worker's UDP socket.
    pub closed spec fn spec_local_addr(&self) -> NetAddr {
        self.local_addr
    }

    /// The instant from which the worker and its sessions count time.
    pub closed spec fn spec_epoch(&self) -> std::time::Instant {
        self.epoch
    }

    /// What holds of a worker between any two calls: its tables are well
    /// formed, only track notices wait in the queues of its sessions, and
    /// every session counts time from the worker's epoch.
    pub open spec fn wf(&self) -> bool {
        &&& self@.wf()
        &&& forall|id: usize|
            self@.tasks.contains_key(id) ==> task_ok(#[trigger] self.task(id)@)
        &&& forall|id: usize|
            self@.tasks.contains_key(id) ==> (#[trigger] self.task(id).engine()).epoch()
                == self.spec_epoch()
    }

    /// The tables record of each session its own username fragment and
    /// whether it has ended.
    pub proof fn entry_records_the_session(&self, id: usize)
        requires
            self@.tasks.contains_key(id),
        ensures
            self@.tasks[id].ufrag == self.task(id)@.ice_ufrag,
            self@.tasks[id].ended == self.task(id)@.ended,
    {
    }

    /// A worker without sessions whose socket is bound to `local_addr` and
    /// whose sessions count time from `epoch`. Nothing comes back where no
    /// DTLS certificate can be made.
    pub fn new(local_addr: NetAddr, epoch: std::time::Instant) -> (made: Option<Worker>)
        ensures
            made matches Some(worker) ==> {
                &&& worker.wf()
                &&& worker@.seed == 0
                &&& worker@.tasks == Map::<usize, TaskEntry>::empty()
                &&& worker@.order.len() == 0
                &&& worker@.remotes == Map::<NetAddr, usize>::empty()
                &&& worker@.ufrags == Map::<Seq<char>, usize>::empty()
                &&& worker@.channels == Map::<u64, Channel>::empty()
                &&& worker@.ended.len() == 0
                &&& worker.spec_local_addr() == local_addr
                &&& worker.spec_epoch() == epoch
            },
    {
        match Certificate::generate() {
            Some(dtls_cert) => Some(Worker::with_cert(local_addr, epoch, dtls_cert)),
            None => None,
        }
    }

    /// A worker without sessions whose socket is bound to `local_addr`,
    /// whose sessions count time from `epoch` and identify themselves with
    /// the certificate `dtls_cert`.
    pub fn with_cert(
        local_addr: NetAddr,
        epoch: std::time::Instant,
        dtls_cert: Certificate,
    ) -> (worker: Worker)
        ensures
            worker.wf(),
            worker@.seed == 0,
            worker@.tasks == Map::<usize, TaskEntry>::empty(),
            worker@.order == Seq::<usize>::empty(),
            worker@.remotes == Map::<NetAddr, usize>::empty(),
            worker@.ufrags == Map::<Seq<char>, usize>::empty(),
            worker@.channels == Map::<u64, Channel>::empty(),
            worker@.ended == Seq::<usize>::empty(),
            worker.spec_local_addr() == local_addr,
            worker.spec_epoch() == epoch,
    {
        let worker = Worker {
            task_id_seed: 0,
            local_addr,
            epoch,
            dtls_cert,
            bus_channels: HashMap::new(),
            tasks: HashMap::new(),
            task_order: Vec::new(),
            task_remotes: RemoteTable::new(),
            task_ufrags: StringHashMap::new(),
            ended_tasks: Vec::new(),
        };
        assert(worker@.tasks =~= Map::<usize, TaskEntry>::empty());
        assert(worker@.channels =~= Map::<u64, Channel>::empty());
        worker
    }

    /// The address of the worker's UDP socket.
    pub fn local_addr(&self) -> (addr: NetAddr)
        ensures
            addr == self.spec_local_addr(),
    {
        self.local_addr
    }

    /// The id that the next session gets.
    pub fn task_id_seed(&self) -> (seed: usize)
        ensures
            seed == self@.seed,
    {
        self.task_id_seed
    }

    /// The ids of the sessions, oldest first.
    pub fn task_ids(&self) -> (ids: Vec<usize>)
        ensures
            ids@ == self@.order,
    {
        self.task_order.clone()
    }

    /// The ids of the sessions that have ended and wait to be removed.
    pub fn ended_tasks(&self) -> (ids: Vec<usize>)
        ensures
            ids@ == self@.ended,
    {
        self.ended_tasks.clone()
    }

    /// The session with id `id`, if there is one.
    pub fn get_task(&self, id: usize) -> (found: Option<&TaskContainer>)
        ensures
            match found {
                Some(container) => self@.tasks.contains_key(id) && container@ == self@.tasks[id]
                    && container.task == self.task(id),
                None => !self@.tasks.contains_key(id),
            },
    {
        self.tasks.get(&id)
    }

    /// The session that owns the remote address `remote`, if one does.
    pub fn remote_owner(&self, remote: NetAddr) -> (owner: Option<usize>)
        ensures
            match owner {
                Some(id) => self@.remotes.contains_key(remote) && self@.remotes[remote] == id,
                None => !self@.remotes.contains_key(remote),
            },
    {
        self.task_remotes.get(remote)
    }

    /// The session behind the ICE username fragment `ufrag`, if there is one.
    pub fn ufrag_owner(&self, ufrag: &str) -> (owner: Option<usize>)
        ensures
            match owner {
                Some(id) => self@.ufrags.contains_key(ufrag@) && self@.ufrags[ufrag@] == id,
                None => !self@.ufrags.contains_key(ufrag@),
            },
    {
        match self.task_ufrags.get(ufrag) {
            Some(id) => Some(*id),
            None => None,
        }
    }

    /// The channel of track `track`, if it has one.
    pub fn get_channel(&self, track: u64) -> (found: Option<&BusChannelContainer>)
        ensures
            match found {
                Some(channel) => self@.channels.contains_key(track) && channel@
                    == self@.channels[track],
                None => !self@.channels.contains_key(track),
            },
    {
        self.bus_channels.get(&track)
    }

    /// Records session `id` as a publisher of `track`.
    fn add_source(&mut self, track: u64, id: usize)
        ensures
            final(self)@ == (WorkerView {
                channels: old(self)@.channels.insert(
                    track,
                    Channel {
                        sources: with_member(channel_or_empty(old(self)@.channels, track).sources, id),
                        ..channel_or_empty(old(self)@.channels, track)
                    },
                ),
                ..old(self)@
            }),
            final(self).tasks == old(self).tasks,
            final(self).spec_local_addr() == old(self).spec_local_addr(),
            final(self).spec_epoch() == old(self).spec_epoch(),
    {
        let mut channel = match self.bus_channels.remove(&track) {
            Some(channel) => channel,
            None => BusChannelContainer { sources: Vec::new(), consumers: Vec::new() },
        };
        add_member(&mut channel.sources, id);
        self.bus_channels.insert(track, channel);
        assert(self@.channels =~= old(self)@.channels.insert(
            track,
            Channel {
                sources: with_member(channel_or_empty(old(self)@.channels, track).sources, id),
                ..channel_or_empty(old(self)@.channels, track)
            },
        ));
    }

    /// Records session `id` as a consumer of `track`.
    fn add_consumer(&mut self, track: u64, id: usize)
        ensures
            final(self)@ == (WorkerView {
                channels: old(self)@.channels.insert(
                    track,
                    Channel {
                        consumers: with_member(
                            channel_or_empty(old(self)@.channels, track).consumers,
                            id,
                        ),
                        ..channel_or_empty(old(self)@.channels, track)
                    },
                ),
                ..old(self)@
            }),
            final(self).tasks == old(self).tasks,
            final(self).spec_local_addr() == old(self).spec_local_addr(),
            final(self).spec_epoch() == old(self).spec_epoch(),
    {
        let mut channel = match self.bus_channels.remove(&track) {
            Some(channel) => channel,
            None => BusChannelContainer { sources: Vec::new(), consumers: Vec::new() },
        };
        add_member(&mut channel.consumers, id);
        self.bus_channels.insert(track, channel);
        assert(self@.channels =~= old(self)@.channels.insert(
            track,
            Channel {
                consumers: with_member(channel_or_empty(old(self)@.channels, track).consumers, id),
                ..channel_or_empty(old(self)@.channels, track)
            },
        ));
    }

    /// Lets session `id` take one step and routes what it hands over: the
    /// step that belongs to `fed` where the engine's output is given, a pop
    /// otherwise. Says whether the session handed anything over, and gives
    /// the action that it asks for.
    fn step_task(&mut self, now: u64, id: usize, fed: Option<EngineOutput>) -> (popped: (
        bool,
        Option<WorkerAction>,
        Ghost<Option<WebrtcTaskOutput>>,
    ))
        requires
            old(self).wf(),
            old(self)@.tasks.contains_key(id),
        ensures
            final(self).wf(),
            final(self).spec_local_addr() == old(self).spec_local_addr(),
            final(self).spec_epoch() == old(self).spec_epoch(),
            forall|other: usize| other != id ==> final(self).task(other) == old(self).task(other),
            final(self).task(id).is_publisher() == old(self).task(id).is_publisher(),
            final(self).task(id).engine() == old(self).task(id).engine() || fed is None,
            match fed {
                Some(out) => (final(self).task(id)@, popped.2@) == step(
                    old(self).task(id).is_publisher(),
                    old(self).task(id)@,
                    out,
                ),
                None => pop_post(
                    old(self).task(id).is_publisher(),
                    old(self).task(id)@,
                    now,
                    final(self).task(id)@,
                    popped.2@,
                    final(self).task(id).engine() == old(self).task(id).engine(),
                ),
            },
            match popped.2@ {
                None => !popped.0 && popped.1 is None && final(self)@ == old(self)@,
                Some(output) => {
                    &&& popped.0
                    &&& !is_response(output)
                    &&& final(self)@ == route(old(self)@, id, output)
                    &&& popped.1 == action_of(output)
                },
            },
    {
        let taken = self.tasks.remove(&id);
        let mut container = taken.unwrap();
        let ghost before = container.task;
        let output = match fed {
            Some(out) => {
                proof {
                    lemma_step_keeps_task_ok(before.is_publisher(), before@, out);
                }
                container.task.dispatch(out)
            },
            None => {
                let output = container.task.pop_action(now);
                proof {
                    lemma_pop_keeps_task_ok(
                        before.is_publisher(),
                        before@,
                        now,
                        container.task@,
                        output,
                        container.task.engine() == before.engine(),
                    );
                }
                output
            },
        };
        let ghost out = output;
        let popped = output.is_some();
        let action = match output {
            None => None,
            Some(WebrtcTaskOutput::Io(action)) => Some(WorkerAction::Io(action)),
            Some(WebrtcTaskOutput::TrackMedia(media)) => Some(
                WorkerAction::Bus(BusEvent::TrackMedia(media)),
            ),
            Some(WebrtcTaskOutput::RequestKeyframeTrack { track_id, kind }) => Some(
                WorkerAction::Bus(BusEvent::TrackKeyframeRequest(track_id, kind)),
            ),
            Some(WebrtcTaskOutput::TaskEnded) => {
                add_member(&mut self.ended_tasks, id);
                None
            },
            Some(WebrtcTaskOutput::PublishTrack { track_id }) => {
                add_track(&mut container.pub_channels, track_id);
                self.add_source(track_id, id);
                None
            },
            Some(WebrtcTaskOutput::SubscribeTrack { track_id }) => {
                add_track(&mut container.sub_channels, track_id);
                self.add_consumer(track_id, id);
                None
            },
        };
        self.tasks.insert(id, container);
        proof {
            match out {
                None => {
                    assert(self@.tasks =~= old(self)@.tasks);
                    assert(self@ == old(self)@);
                },
                Some(o) => {
                    assert(self@.tasks =~= route(old(self)@, id, o).tasks);
                    assert(self@ == route(old(self)@, id, o));
                    lemma_route_wf(old(self)@, id, o);
                },
            }
            assert forall|other: usize| self@.tasks.contains_key(other) implies task_ok(
                #[trigger] self.task(other)@,
            ) by {
                if other != id {
                    assert(self.task(other) == old(self).task(other));
                    assert(old(self)@.tasks.contains_key(other));
                }
            }
            assert forall|other: usize| self@.tasks.contains_key(other) implies (
            #[trigger] self.task(other).engine()).epoch() == self.spec_epoch() by {
                if other != id {
                    assert(self.task(other) == old(self).task(other));
                    assert(old(self)@.tasks.contains_key(other));
                }
            }
        }
        (popped, action, Ghost(out))
    }

    /// Lets session `id` take the step that belongs to the output `out` of
    /// its engine, as a pop does with what a poll hands back, and routes
    /// what the session hands over. Gives the action that it asks for.
    pub fn dispatch(&mut self, id: usize, out: EngineOutput) -> (action: Option<WorkerAction>)
        requires
            old(self).wf(),
            old(self)@.tasks.contains_key(id),
        ensures
            final(self).wf(),
            final(self).spec_local_addr() == old(self).spec_local_addr(),
            final(self).spec_epoch() == old(self).spec_epoch(),
            forall|other: usize| other != id ==> final(self).task(other) == old(self).task(other),
            final(self).task(id).is_publisher() == old(self).task(id).is_publisher(),
            final(self).task(id).engine() == old(self).task(id).engine(),
            final(self).task(id)@ == step(
                old(self).task(id).is_publisher(),
                old(self).task(id)@,
                out,
            ).0,
            match step(old(self).task(id).is_publisher(), old(self).task(id)@, out).1 {
                None => action is None && final(self)@ == old(self)@,
                Some(output) => {
                    &&& !is_response(output)
                    &&& final(self)@ == route(old(self)@, id, output)
                    &&& action == action_of(output)
                },
            },
    {
        let (_, action, _) = self.step_task(0, id, Some(out));
        action
    }

    /// Drains session `id`: pops its outputs until it has none left, or the
    /// drain limit is reached, and routes each. Gives the actions that the
    /// outputs ask for, in their order.
    pub fn pop_task(&mut self, now: u64, id: usize) -> (actions: Vec<WorkerAction>)
        requires
            old(self).wf(),
            old(self)@.tasks.contains_key(id),
        ensures
            final(self).wf(),
            final(self).spec_local_addr() == old(self).spec_local_addr(),
            final(self).spec_epoch() == old(self).spec_epoch(),
            forall|other: usize| other != id ==> final(self).task(other) == old(self).task(other),
            final(self).task(id).is_publisher() == old(self).task(id).is_publisher(),
            exists|outputs: Seq<WebrtcTaskOutput>| #[trigger]
                drained(old(self)@, id, outputs, final(self)@, actions@) && session_drained(
                    old(self).task(id).is_publisher(),
                    old(self).task(id)@,
                    now,
                    outputs,
                    final(self).task(id)@,
                ),
            forall|i: int| 0 <= i < actions@.len() ==> !is_response_action(#[trigger] actions@[i]),
            response_ids(actions@) == Seq::<u64>::empty(),
            old(self).task(id)@.ended ==> actions@.len() == 0 && final(self)@ == old(self)@
                && final(self).task(id)@ == old(self).task(id)@,
    {
        let mut actions: Vec<WorkerAction> = Vec::new();
        let ghost mut outputs: Seq<WebrtcTaskOutput> = Seq::empty();
        let ghost mut states: Seq<TaskView> = seq![self.task(id)@];
        let ghost publisher = self.task(id).is_publisher();
        let mut budget: usize = DRAIN_LIMIT;
        while budget > 0
            invariant_except_break
                popped_through(publisher, now, states, outputs),
                states[0] == old(self).task(id)@,
                states.last() == self.task(id)@,
            invariant
                self.wf(),
                self@.tasks.contains_key(id),
                self.spec_local_addr() == old(self).spec_local_addr(),
                self.spec_epoch() == old(self).spec_epoch(),
                forall|other: usize| other != id ==> self.task(other) == old(self).task(other),
                outputs.len() + budget == DRAIN_LIMIT,
                forall|i: int| 0 <= i < outputs.len() ==> !is_response(#[trigger] outputs[i]),
                self@ == route_all(old(self)@, id, outputs),
                actions@ == actions_of(outputs),
                publisher == old(self).task(id).is_publisher(),
                self.task(id).is_publisher() == publisher,
                old(self).task(id)@.ended ==> outputs.len() == 0 && self.task(id)@ == old(self).task(id)@,
            ensures
                session_drained(publisher, old(self).task(id)@, now, outputs, self.task(id)@),
            decreases budget,
        {
            let ghost earlier = self@;
            let ghost earlier_task = self.task(id)@;
            let (handed, action, Ghost(output)) = self.step_task(now, id, None);
            if !handed {
                proof {
                    assert(popped(publisher, states.last(), now, self.task(id)@, None));
                }
                break ;
            }
            proof {
                let o = output.unwrap();
                lemma_route_wf(earlier, id, o);
                let grown = outputs.push(o);
                assert(grown.drop_last() =~= outputs);
                assert(grown.last() == o);
                let longer = states.push(self.task(id)@);
                assert forall|i: int| 0 <= i < grown.len() implies popped(
                    publisher,
                    longer[i],
                    now,
                    longer[i + 1],
                    Some(#[trigger] grown[i]),
                ) by {
                    if i < outputs.len() {
                        assert(popped(publisher, states[i], now, states[i + 1], Some(outputs[i])));
                    } else {
                        assert(longer[i] == earlier_task);
                    }
                }
                outputs = grown;
                states = longer;
            }
            match action {
                Some(action) => {
                    actions.push(action);
                },
                None => {},
            }
            budget = budget - 1;
        }
        proof {
            assert(drained(old(self)@, id, outputs, self@, actions@));
            lemma_actions_without_response(outputs);
            lemma_no_response_ids(actions@);
        }
        actions
    }

    /// Drains every session, oldest first. Gives the actions that their
    /// outputs ask for; no HTTP response is among them.
    pub fn pop_tasks(&mut self, now: u64) -> (actions: Vec<WorkerAction>)
        requires
            old(self).wf(),
        ensures
            final(self).wf(),
            final(self).spec_local_addr() == old(self).spec_local_addr(),
            final(self).spec_epoch() == old(self).spec_epoch(),
            exists|outputs: Seq<Seq<WebrtcTaskOutput>>|
                {
                    &&& #[trigger] drained_each(
                        old(self)@,
                        old(self)@.order,
                        outputs,
                        final(self)@,
                        actions@,
                    )
                    &&& forall|k: int|
                        0 <= k < outputs.len() ==> session_drained(
                            old(self).task(old(self)@.order[k]).is_publisher(),
                            old(self).task(old(self)@.order[k])@,
                            now,
                            #[trigger] outputs[k],
                            final(self).task(old(self)@.order[k])@,
                        )
                },
            forall|i: int| 0 <= i < actions@.len() ==> !is_response_action(#[trigger] actions@[i]),
            response_ids(actions@) == Seq::<u64>::empty(),
    {
        let ids = self.task_order.clone();
        let mut actions: Vec<WorkerAction> = Vec::new();
        let ghost mut outputs: Seq<Seq<WebrtcTaskOutput>> = Seq::empty();
        let mut i: usize = 0;
        assert(ids@ == old(self)@.order);
        assert(ids@.take(0) =~= Seq::<usize>::empty());
        while i < ids.len()
            invariant
                i <= ids@.len(),
                ids@ == old(self)@.order,
                ids@.no_duplicates(),
                self.wf(),
                self@.order == ids@,
                self.spec_local_addr() == old(self).spec_local_addr(),
                self.spec_epoch() == old(self).spec_epoch(),
                drained_each(old(self)@, ids@.take(i as int), outputs, self@, actions@),
                forall|k: int| 0 <= k < actions@.len() ==> !is_response_action(#[trigger] actions@[k]),
                forall|k: int|
                    0 <= k < i ==> session_drained(
                        old(self).task(ids@[k]).is_publisher(),
                        old(self).task(ids@[k])@,
                        now,
                        #[trigger] outputs[k],
                        self.task(ids@[k])@,
                    ),
                forall|k: int| i <= k < ids@.len() ==> self.task(#[trigger] ids@[k]) == old(self).task(ids@[k]),
            decreases ids@.len() - i,
        {
            let id = ids[i];
            let ghost earlier = *self;
            proof {
                assert(self@.order.contains(id));
                assert(self.task(ids@[i as int]) == old(self).task(ids@[i as int]));
            }
            let mut more = self.pop_task(now, id);
            proof {
                let popped = choose|popped: Seq<WebrtcTaskOutput>| #[trigger]
                    drained(earlier@, id, popped, self@, more@) && session_drained(
                        earlier.task(id).is_publisher(),
                        earlier.task(id)@,
                        now,
                        popped,
                        self.task(id)@,
                    );
                lemma_route_all(earlier@, id, popped);
                lemma_actions_without_response(popped);
                let grown = outputs.push(popped);
                let done = ids@.take(i as int);
                let next = ids@.take(i + 1);
                assert(next.drop_last() =~= done);
                assert(next.last() == id);
                assert(grown.drop_last() =~= outputs);
                assert(grown.last() == popped);
                assert forall|k: int, j: int|
                    0 <= k < grown.len() && 0 <= j < grown[k].len() implies !is_response(
                    #[trigger] grown[k][j],
                ) by {
                    if k < outputs.len() {
                        assert(grown[k] == outputs[k]);
                    }
                }
                assert forall|k: int| 0 <= k < i + 1 implies session_drained(
                    old(self).task(ids@[k]).is_publisher(),
                    old(self).task(ids@[k])@,
                    now,
                    #[trigger] grown[k],
                    self.task(ids@[k])@,
                ) by {
                    if k < i {
                        assert(grown[k] == outputs[k]);
                        assert(ids@[k] != id);
                        assert(self.task(ids@[k]) == earlier.task(ids@[k]));
                        assert(session_drained(
                            old(self).task(ids@[k]).is_publisher(),
                            old(self).task(ids@[k])@,
                            now,
                            outputs[k],
                            earlier.task(ids@[k])@,
                        ));
                    } else {
                        assert(grown[k] == popped);
                        assert(ids@[k] == id);
                        assert(earlier.task(id) == old(self).task(id));
                    }
                }
                assert forall|k: int| i + 1 <= k < ids@.len() implies self.task(
                    #[trigger] ids@[k],
                ) == old(self).task(ids@[k]) by {
                    assert(ids@[k] != id);
                    assert(self.task(ids@[k]) == earlier.task(ids@[k]));
                }
                outputs = grown;
            }
            actions.append(&mut more);
            i = i + 1;
        }
        proof {
            assert(ids@.take(i as int) =~= ids@);
            lemma_no_response_ids(actions@);
        }
        actions
    }

    /// How long the worker sleeps at the end of a cycle that began at
    /// `started` and whose work was done at `finished`, in nanoseconds: what
    /// is left of the shortest time that a cycle takes.
    pub fn cycle_sleep(started: u64, finished: u64) -> (sleep: u64)
        ensures
            sleep == if finished >= started && finished - started < CYCLE_NS {
                CYCLE_NS - (finished - started)
            } else {
                0
            },
    {
        if finished >= started && finished - started < CYCLE_NS {
            CYCLE_NS - (finished - started)
        } else {
            0
        }
    }

    /// Takes one HTTP request. A request to one of the two endpoints sets a
    /// session up, unless every id is handed out or the engine refuses the
    /// offer, and every request is answered exactly once in the actions that
    /// come back.
    pub fn process_http(&mut self, now: u64, req: HttpRequest) -> (actions: Vec<WorkerAction>)
        requires
            old(self).wf(),
        ensures
            final(self).wf(),
            final(self).spec_local_addr() == old(self).spec_local_addr(),
            final(self).spec_epoch() == old(self).spec_epoch(),
            forall|id: usize|
                old(self)@.tasks.contains_key(id) ==> final(self).task(id) == old(self).task(id),
            response_ids(actions@) == seq![req.req_id],
            actions@.len() >= 1,
            actions@[0] matches WorkerAction::Io(IoAction::HttpResponse(res)) && res.req_id
                == req.req_id,
            forall|i: int| 1 <= i < actions@.len() ==> !is_response_action(#[trigger] actions@[i]),
            match endpoint_of(req.path@) {
                None => {
                    &&& final(self)@ == old(self)@
                    &&& actions@.len() == 1
                    &&& actions@[0] matches WorkerAction::Io(IoAction::HttpResponse(res))
                    &&& is_not_found(res, req.req_id)
                },
                Some(endpoint) => session_made(
                    old(self)@,
                    now,
                    req,
                    endpoint,
                    final(self)@,
                    final(self).task(old(self)@.seed),
                    actions@,
                ),
            },
    {
        let mut actions: Vec<WorkerAction> = Vec::new();
        let whip_path = "/whip/endpoint".to_owned();
        let whep_path = "/whep/endpoint".to_owned();
        let endpoint = if req.path == whip_path {
            Endpoint::Whip
        } else if req.path == whep_path {
            Endpoint::Whep
        } else {
            actions.push(WorkerAction::Io(IoAction::HttpResponse(not_found(req.req_id))));
            proof {
                lemma_one_response_id(actions@, req.req_id);
            }
            return actions;
        };
        if self.task_id_seed == usize::MAX {
            actions.push(WorkerAction::Io(IoAction::HttpResponse(unavailable(req.req_id))));
            proof {
                lemma_one_response_id(actions@, req.req_id);
            }
            return actions;
        }
        let id = self.task_id_seed;
        let cert = self.dtls_cert.duplicate();
        let mut local_addrs: Vec<NetAddr> = Vec::new();
        local_addrs.push(self.local_addr);
        let made = match endpoint {
            Endpoint::Whip => match WhipServerTask::new(cert, req, local_addrs, self.epoch, now) {
                Ok(task) => Ok(ComposeTask::Whip(task)),
                Err(res) => Err(res),
            },
            Endpoint::Whep => match WhepServerTask::new(cert, req, local_addrs, self.epoch, now) {
                Ok(task) => Ok(ComposeTask::Whep(task)),
                Err(res) => Err(res),
            },
        };
        let mut task = match made {
            Ok(task) => task,
            Err(res) => {
                actions.push(WorkerAction::Io(IoAction::HttpResponse(res)));
                proof {
                    assert(session_made_or_refused(
                        old(self)@,
                        now,
                        req,
                        endpoint,
                        self@,
                        self.task(old(self)@.seed),
                        actions@,
                    ));
                    lemma_one_response_id(actions@, req.req_id);
                }
                return actions;
            },
        };
        assert(exists|res: HttpResponse|
            {
                &&& #[trigger] TaskCore::is_fresh(task@, res, http_auth(req.headers@))
                &&& is_sdp_answer(res, req.req_id, location_of(endpoint), res.body@)
            }) by {
            match task {
                ComposeTask::Whip(inner) => {
                    let res = choose|res: HttpResponse|
                        {
                            &&& #[trigger] TaskCore::is_fresh(
                                inner@,
                                res,
                                http_auth(req.headers@),
                            )
                            &&& is_sdp_answer(res, req.req_id, whip_location(), res.body@)
                        };
                    assert(TaskCore::is_fresh(task@, res, http_auth(req.headers@)));
                },
                ComposeTask::Whep(inner) => {
                    let res = choose|res: HttpResponse|
                        {
                            &&& #[trigger] TaskCore::is_fresh(
                                inner@,
                                res,
                                http_auth(req.headers@),
                            )
                            &&& is_sdp_answer(res, req.req_id, whep_location(), res.body@)
                        };
                    assert(TaskCore::is_fresh(task@, res, http_auth(req.headers@)));
                },
            }
        }
        let ghost res = choose|res: HttpResponse|
            {
                &&& #[trigger] TaskCore::is_fresh(task@, res, http_auth(req.headers@))
                &&& is_sdp_answer(res, req.req_id, location_of(endpoint), res.body@)
            };
        let ghost fresh = task@;
        assert(fresh.outputs.len() == 1 && !fresh.ended);
        match task.pop_action(now) {
            Some(WebrtcTaskOutput::Io(action)) => {
                actions.push(WorkerAction::Io(action));
            },
            _ => {},
        }
        assert(actions@ =~= seq![WorkerAction::Io(IoAction::HttpResponse(res))]);
        assert(task@.outputs =~= Seq::<WebrtcTaskOutput>::empty());
        assert(!task@.ended);
        let ufrag = task.ufrag();
        let container = TaskContainer::from(task);
        assert(container@ == (TaskEntry {
            ufrag: ufrag@,
            ended: false,
            remotes: Seq::empty(),
            sub_channels: Seq::empty(),
            pub_channels: Seq::empty(),
        }));
        self.task_id_seed = id + 1;
        self.task_ufrags.insert(ufrag, id);
        self.tasks.insert(id, container);
        self.task_order.push(id);
        proof {
            let made = with_task(old(self)@, ufrag@);
            assert(self@.tasks =~= made.tasks);
            assert(self@ == made);
            lemma_with_task_wf(old(self)@, ufrag@);
            assert forall|other: usize| self@.tasks.contains_key(other) implies task_ok(
                #[trigger] self.task(other)@,
            ) by {
                if other != id {
                    assert(old(self)@.tasks.contains_key(other));
                    assert(self.task(other) == old(self).task(other));
                }
            }
            assert forall|other: usize| self@.tasks.contains_key(other) implies (
            #[trigger] self.task(other).engine()).epoch() == self.spec_epoch() by {
                if other != id {
                    assert(old(self)@.tasks.contains_key(other));
                    assert(self.task(other) == old(self).task(other));
                }
            }
        }
        let ghost created = self@;
        let ghost start = self.task(id)@;
        assert(start == (TaskView { outputs: Seq::empty(), ..fresh }));
        assert(self.task(id).is_publisher() == (endpoint == Endpoint::Whip));
        let mut more = self.pop_task(now, id);
        let ghost rest = more@;
        actions.append(&mut more);
        proof {
            let outputs = choose|outputs: Seq<WebrtcTaskOutput>| #[trigger]
                drained(created, id, outputs, self@, rest) && session_drained(
                    self.task(id).is_publisher(),
                    start,
                    now,
                    outputs,
                    self.task(id)@,
                );
            assert(actions@.skip(1) =~= rest);
            assert(TaskCore::is_fresh(fresh, res, http_auth(req.headers@)));
            assert(drained(
                with_task(old(self)@, fresh.ice_ufrag),
                old(self)@.seed,
                outputs,
                self@,
                actions@.skip(1),
            ));
            assert(session_made_or_refused(
                old(self)@,
                now,
                req,
                endpoint,
                self@,
                self.task(old(self)@.seed),
                actions@,
            ));
            lemma_one_response_id(actions@, req.req_id);
        }
        actions
    }

    /// Hands session `id` the input `event`.
    fn input_task<'b>(&mut self, now: u64, id: usize, event: WebrtcTaskInput<'b>)
        requires
            old(self).wf(),
            old(self)@.tasks.contains_key(id),
        ensures
            final(self).wf(),
            final(self)@ == old(self)@,
            final(self).spec_local_addr() == old(self).spec_local_addr(),
            final(self).spec_epoch() == old(self).spec_epoch(),
            forall|other: usize| other != id ==> final(self).task(other) == old(self).task(other),
            took_input(old(self).task(id), event, final(self).task(id)),
    {
        let mut container = self.tasks.remove(&id).unwrap();
        let ghost before = container.task;
        let more = container.task.input(now, event);
        proof {
            assert(more == input_more(before.is_publisher(), before@, event));
            assert(took_input(before, event, container.task));
            lemma_input_keeps(before, event, container.task);
        }
        self.tasks.insert(id, container);
        proof {
            assert(self@.tasks =~= old(self)@.tasks);
            assert forall|other: usize| self@.tasks.contains_key(other) implies task_ok(
                #[trigger] self.task(other)@,
            ) by {
                assert(old(self)@.tasks.contains_key(other));
                if other != id {
                    assert(self.task(other) == old(self).task(other));
                }
            }
            assert forall|other: usize| self@.tasks.contains_key(other) implies (
            #[trigger] self.task(other).engine()).epoch() == self.spec_epoch() by {
                assert(old(self)@.tasks.contains_key(other));
                if other != id {
                    assert(self.task(other) == old(self).task(other));
                }
            }
        }
    }

    /// Records `remote` as an address of session `id`, which owns it from now on.
    fn bind_remote(&mut self, remote: NetAddr, id: usize)
        requires
            old(self).wf(),
            old(self)@.tasks.contains_key(id),
            !old(self)@.remotes.contains_key(remote),
        ensures
            final(self).wf(),
            final(self)@ == bound(old(self)@, remote, id),
            final(self).spec_local_addr() == old(self).spec_local_addr(),
            final(self).spec_epoch() == old(self).spec_epoch(),
            forall|other: usize| final(self).task(other) == old(self).task(other),
    {
        self.task_remotes.insert(remote, id);
        let mut container = self.tasks.remove(&id).unwrap();
        container.remotes.push(remote);
        self.tasks.insert(id, container);
        proof {
            assert(self@.tasks =~= bound(old(self)@, remote, id).tasks);
            lemma_bound_wf(old(self)@, remote, id);
            assert forall|other: usize| self@.tasks.contains_key(other) implies task_ok(
                #[trigger] self.task(other)@,
            ) by {
                assert(old(self)@.tasks.contains_key(other));
                assert(self.task(other) == old(self).task(other));
            }
            assert forall|other: usize| self@.tasks.contains_key(other) implies (
            #[trigger] self.task(other).engine()).epoch() == self.spec_epoch() by {
                assert(old(self)@.tasks.contains_key(other));
                assert(self.task(other) == old(self).task(other));
            }
        }
    }

    /// The ICE username fragment that the datagram `buf` is addressed to, where
    /// `buf` is a STUN message that names one.
    pub fn get_stun_username(buf: &[u8]) -> (ufrag: Option<String>)
        ensures
            match ufrag {
                Some(text) => stun_ufrag(buf@) == Some(text@),
                None => stun_ufrag(buf@) is None,
            },
    {
        get_stun_username(buf)
    }

    /// Takes one datagram that came from `remote`. The owner of `remote`
    /// gets it; where `remote` has no owner, the datagram has to be a STUN
    /// message that names the username fragment of a session, which then
    /// owns `remote`. The session is drained at once. Any other datagram is
    /// dropped and nothing changes.
    pub fn process_udp(&mut self, now: u64, remote: NetAddr, buf: &[u8]) -> (actions: Vec<
        WorkerAction,
    >)
        requires
            old(self).wf(),
        ensures
            final(self).wf(),
            final(self).spec_local_addr() == old(self).spec_local_addr(),
            final(self).spec_epoch() == old(self).spec_epoch(),
            match owner_of(old(self)@, remote, stun_ufrag(buf@)) {
                None => {
                    &&& final(self)@ == old(self)@
                    &&& actions@.len() == 0
                    &&& forall|id: usize| final(self).task(id) == old(self).task(id)
                },
                Some(id) => {
                    &&& old(self)@.tasks.contains_key(id)
                    &&& forall|other: usize|
                        other != id ==> final(self).task(other) == old(self).task(other)
                    &&& exists|fed: ComposeTask, outputs: Seq<WebrtcTaskOutput>|
                        #![trigger
                            fed.is_publisher(),
                            drained(bound(old(self)@, remote, id), id, outputs, final(self)@, actions@),
                        ]
                        {
                            &&& took_input(
                                old(self).task(id),
                                datagram_input(remote, old(self).spec_local_addr(), buf),
                                fed,
                            )
                            &&& drained(
                                bound(old(self)@, remote, id),
                                id,
                                outputs,
                                final(self)@,
                                actions@,
                            )
                            &&& session_drained(
                                fed.is_publisher(),
                                fed@,
                                now,
                                outputs,
                                final(self).task(id)@,
                            )
                        }
                },
            },
            forall|i: int| 0 <= i < actions@.len() ==> !is_response_action(#[trigger] actions@[i]),
            response_ids(actions@) == Seq::<u64>::empty(),
    {
        let owner = match self.task_remotes.get(remote) {
            Some(id) => Some(id),
            None => match get_stun_username(buf) {
                Some(ufrag) => match self.task_ufrags.get(ufrag.as_str()) {
                    Some(id) => {
                        let id = *id;
                        self.bind_remote(remote, id);
                        Some(id)
                    },
                    None => None,
                },
                None => None,
            },
        };
        assert(owner == owner_of(old(self)@, remote, stun_ufrag(buf@)));
        match owner {
            Some(id) => {
                assert(old(self)@.tasks.contains_key(id));
                assert(self@ == bound(old(self)@, remote, id));
                let event = WebrtcTaskInput::Io(
                    IoEvent::UdpSocketRecv { from: remote, to: self.local_addr, buf },
                );
                self.input_task(now, id, event);
                let ghost fed = self.task(id);
                let ghost fed_tables = self@;
                let actions = self.pop_task(now, id);
                proof {
                    let outputs = choose|outputs: Seq<WebrtcTaskOutput>| #[trigger]
                        drained(fed_tables, id, outputs, self@, actions@) && session_drained(
                            fed.is_publisher(),
                            fed@,
                            now,
                            outputs,
                            self.task(id)@,
                        );
                    assert(took_input(
                        old(self).task(id),
                        datagram_input(remote, old(self).spec_local_addr(), buf),
                        fed,
                    ));
                    assert(drained(bound(old(self)@, remote, id), id, outputs, self@, actions@));
                    assert(fed.is_publisher() == fed.is_publisher());
                }
                actions
            },
            None => {
                assert(self@ == old(self)@);
                Vec::new()
            },
        }
    }

    /// Takes one event from the bus and delivers it to each local session
    /// that receives it: media to the consumers of its track, a keyframe
    /// request to the publishers of its track. The tables stay as they are.
    pub fn process_bus_recv(&mut self, now: u64, event: BusEvent)
        requires
            old(self).wf(),
        ensures
            final(self).wf(),
            final(self)@ == old(self)@,
            final(self).spec_local_addr() == old(self).spec_local_addr(),
            final(self).spec_epoch() == old(self).spec_epoch(),
            forall|id: usize|
                if receives(old(self)@, event, id) {
                    bus_delivered(old(self).task(id), event, #[trigger] final(self).task(id))
                } else {
                    final(self).task(id) == old(self).task(id)
                },
    {
        match event {
            BusEvent::TrackMedia(media) => {
                let receivers = match self.bus_channels.get(&media.track_id) {
                    Some(channel) => channel.consumers.clone(),
                    None => {
                        return ;
                    },
                };
                assert(old(self)@.channels.contains_key(media.track_id));
                assert(receivers@ == old(self)@.channels[media.track_id].consumers);
                assert(channel_wf(
                    old(self)@.tasks,
                    media.track_id,
                    old(self)@.channels[media.track_id],
                ));
                let mut i: usize = 0;
                while i < receivers.len()
                    invariant
                        i <= receivers@.len(),
                        receivers@.no_duplicates(),
                        event == BusEvent::TrackMedia(media),
                        forall|j: int|
                            0 <= j < receivers@.len() ==> old(self)@.tasks.contains_key(
                                #[trigger] receivers@[j],
                            ),
                        self.wf(),
                        self@ == old(self)@,
                        self.spec_local_addr() == old(self).spec_local_addr(),
                        self.spec_epoch() == old(self).spec_epoch(),
                        forall|id: usize|
                            if receivers@.take(i as int).contains(id) {
                                bus_delivered(old(self).task(id), event, #[trigger] self.task(id))
                            } else {
                                self.task(id) == old(self).task(id)
                            },
                    decreases receivers@.len() - i,
                {
                    let id = receivers[i];
                    let copy = media.duplicate();
                    proof {
                        lemma_take_grows(receivers@, i as int);
                        assert(!receivers@.take(i as int).contains(id));
                        assert(self.task(id) == old(self).task(id));
                    }
                    self.input_task(now, id, WebrtcTaskInput::TrackMedia(copy));
                    proof {
                        assert(same_media(copy, media));
                        assert(took_input(
                            old(self).task(id),
                            WebrtcTaskInput::TrackMedia(copy),
                            self.task(id),
                        ));
                        assert(exists|c: TrackMedia|
                            #[trigger] same_media(c, media) && took_input(
                                old(self).task(id),
                                WebrtcTaskInput::TrackMedia(c),
                                self.task(id),
                            ));
                        assert(media_delivered(old(self).task(id), media, self.task(id)));
                        assert(bus_delivered(old(self).task(id), event, self.task(id)));
                    }
                    i = i + 1;
                }
                assert(receivers@.take(i as int) =~= receivers@);
            },
            BusEvent::TrackKeyframeRequest(track_id, kind) => {
                let receivers = match self.bus_channels.get(&track_id) {
                    Some(channel) => channel.sources.clone(),
                    None => {
                        return ;
                    },
                };
                assert(old(self)@.channels.contains_key(track_id));
                assert(receivers@ == old(self)@.channels[track_id].sources);
                assert(channel_wf(old(self)@.tasks, track_id, old(self)@.channels[track_id]));
                let mut i: usize = 0;
                while i < receivers.len()
                    invariant
                        i <= receivers@.len(),
                        receivers@.no_duplicates(),
                        event == BusEvent::TrackKeyframeRequest(track_id, kind),
                        forall|j: int|
                            0 <= j < receivers@.len() ==> old(self)@.tasks.contains_key(
                                #[trigger] receivers@[j],
                            ),
                        self.wf(),
                        self@ == old(self)@,
                        self.spec_local_addr() == old(self).spec_local_addr(),
                        self.spec_epoch() == old(self).spec_epoch(),
                        forall|id: usize|
                            if receivers@.take(i as int).contains(id) {
                                bus_delivered(old(self).task(id), event, #[trigger] self.task(id))
                            } else {
                                self.task(id) == old(self).task(id)
                            },
                    decreases receivers@.len() - i,
                {
                    let id = receivers[i];
                    proof {
                        lemma_take_grows(receivers@, i as int);
                        assert(!receivers@.take(i as int).contains(id));
                        assert(self.task(id) == old(self).task(id));
                    }
                    self.input_task(
                        now,
                        id,
                        WebrtcTaskInput::RequestKeyframeTrack { track_id, kind },
                    );
                    proof {
                        assert(bus_delivered(old(self).task(id), event, self.task(id)));
                    }
                    i = i + 1;
                }
                assert(receivers@.take(i as int) =~= receivers@);
            },
        }
    }

    /// Ticks every session at `now`. The tables stay as they are.
    pub fn process_tick(&mut self, now: u64)
        requires
            old(self).wf(),
        ensures
            final(self).wf(),
            final(self)@ == old(self)@,
            final(self).spec_local_addr() == old(self).spec_local_addr(),
            final(self).spec_epoch() == old(self).spec_epoch(),
            forall|id: usize|
                if old(self)@.tasks.contains_key(id) {
                    ticked(old(self).task(id), now, #[trigger] final(self).task(id))
                } else {
                    final(self).task(id) == old(self).task(id)
                },
    {
        let ids = self.task_order.clone();
        let mut i: usize = 0;
        assert(ids@ == old(self)@.order);
        while i < ids.len()
            invariant
                i <= ids@.len(),
                ids@ == old(self)@.order,
                self.wf(),
                self@ == old(self)@,
                self.spec_local_addr() == old(self).spec_local_addr(),
                self.spec_epoch() == old(self).spec_epoch(),
                forall|id: usize|
                    if ids@.take(i as int).contains(id) {
                        ticked(old(self).task(id), now, #[trigger] self.task(id))
                    } else {
                        self.task(id) == old(self).task(id)
                    },
            decreases ids@.len() - i,
        {
            let id = ids[i];
            let ghost earlier = *self;
            proof {
                lemma_take_grows(ids@, i as int);
                assert(ids@.contains(id));
                assert(self@.order.no_duplicates());
                assert(!ids@.take(i as int).contains(id));
                assert(self.task(id) == old(self).task(id));
                assert(self@.tasks.contains_key(id));
                assert(task_ok(self.task(id)@));
            }
            let mut container = self.tasks.remove(&id).unwrap();
            let ghost before = container.task;
            container.task.tick(now);
            self.tasks.insert(id, container);
            proof {
                assert(before == old(self).task(id));
                assert(ticked(before, now, self.task(id)));
                assert(self@.tasks =~= old(self)@.tasks);
                assert forall|other: usize| self@.tasks.contains_key(other) implies task_ok(
                    #[trigger] self.task(other)@,
                ) by {
                    if other != id {
                        assert(self.task(other) == earlier.task(other));
                        assert(earlier@.tasks.contains_key(other));
                    }
                }
                assert forall|other: usize| self@.tasks.contains_key(other) implies (
                #[trigger] self.task(other).engine()).epoch() == self.spec_epoch() by {
                    if other != id {
                        assert(self.task(other) == earlier.task(other));
                        assert(earlier@.tasks.contains_key(other));
                    }
                }
                assert forall|other: usize|
                    if ids@.take(i + 1).contains(other) {
                        ticked(old(self).task(other), now, #[trigger] self.task(other))
                    } else {
                        self.task(other) == old(self).task(other)
                    } by {
                    if other != id {
                        assert(self.task(other) == earlier.task(other));
                    }
                }
            }
            i = i + 1;
        }
        proof {
            assert(ids@.take(i as int) =~= ids@);
        }
    }

    /// Takes session `id` out of the channel of each of `tracks`.
    fn leave_channels(&mut self, tracks: &Vec<u64>, id: usize)
        ensures
            final(self)@ == (WorkerView {
                channels: channels_left(old(self)@.channels, tracks@, id),
                ..old(self)@
            }),
            final(self).tasks == old(self).tasks,
            final(self).spec_local_addr() == old(self).spec_local_addr(),
            final(self).spec_epoch() == old(self).spec_epoch(),
    {
        let mut i: usize = 0;
        assert(tracks@.take(0) =~= Seq::<u64>::empty());
        assert(self@.channels =~= channels_left(old(self)@.channels, tracks@.take(0), id));
        while i < tracks.len()
            invariant
                i <= tracks@.len(),
                self@ == (WorkerView {
                    channels: channels_left(old(self)@.channels, tracks@.take(i as int), id),
                    ..old(self)@
                }),
                self.tasks == old(self).tasks,
                self.spec_local_addr() == old(self).spec_local_addr(),
                self.spec_epoch() == old(self).spec_epoch(),
            decreases tracks@.len() - i,
        {
            let track = tracks[i];
            let ghost earlier = self@.channels;
            match self.bus_channels.remove(&track) {
                Some(channel) => {
                    let mut channel = channel;
                    drop_member(&mut channel.sources, id);
                    drop_member(&mut channel.consumers, id);
                    assert(channel@ == channel_without(earlier[track], id));
                    if channel.sources.len() > 0 || channel.consumers.len() > 0 {
                        self.bus_channels.insert(track, channel);
                        assert(self@.channels =~= earlier.insert(
                            track,
                            channel_without(earlier[track], id),
                        ));
                    } else {
                        assert(self@.channels =~= earlier.remove(track));
                    }
                },
                None => {
                    assert(self@.channels =~= earlier);
                },
            }
            let ghost kept = earlier.contains_key(track) && channel_without(
                earlier[track],
                id,
            ).sources.len() + channel_without(earlier[track], id).consumers.len() > 0;
            assert(self@.channels == if kept {
                earlier.insert(track, channel_without(earlier[track], id))
            } else {
                earlier.remove(track)
            });
            proof {
                let done = tracks@.take(i as int);
                let more = tracks@.take(i + 1);
                assert(more =~= done.push(track));
                assert forall|t: u64| more.contains(t) <==> (t == track || done.contains(t)) by {
                    if more.contains(t) {
                        let j = choose|j: int| 0 <= j < more.len() && more[j] == t;
                        if j < done.len() {
                            assert(done[j] == t);
                        }
                    }
                    if done.contains(t) {
                        let j = choose|j: int| 0 <= j < done.len() && done[j] == t;
                        assert(more[j] == t);
                    }
                    if t == track {
                        assert(more[i as int] == t);
                    }
                }
                let origin = old(self)@.channels;
                if origin.contains_key(track) {
                    let once = channel_without(origin[track], id);
                    lemma_without_member(origin[track].sources, id);
                    lemma_without_member(origin[track].consumers, id);
                    lemma_without_member(once.sources, id);
                    lemma_without_member(once.consumers, id);
                }
                let target = channels_left(origin, more, id);
                assert(earlier == channels_left(origin, done, id));
                assert forall|t: u64| #[trigger]
                    self@.channels.contains_key(t) <==> target.contains_key(t) by {
                    if t != track {
                        assert(self@.channels.contains_key(t) <==> earlier.contains_key(t));
                        assert(more.contains(t) <==> done.contains(t));
                    } else {
                        assert(more.contains(track));
                    }
                }
                assert forall|t: u64| #[trigger]
                    self@.channels.contains_key(t) implies self@.channels[t] == target[t] by {
                    if t != track {
                        assert(self@.channels[t] == earlier[t]);
                        assert(more.contains(t) <==> done.contains(t));
                    } else {
                        assert(more.contains(track));
                    }
                }
                assert(self@.channels =~= target);
            }
            i = i + 1;
        }
        assert(tracks@.take(i as int) =~= tracks@);
    }

    /// Forgets the owner of each of `remotes`.
    fn forget_remotes(&mut self, remotes: &Vec<NetAddr>)
        ensures
            final(self)@ == (WorkerView {
                remotes: old(self)@.remotes.remove_keys(remotes@.to_set()),
                ..old(self)@
            }),
            final(self).tasks == old(self).tasks,
            final(self).spec_local_addr() == old(self).spec_local_addr(),
            final(self).spec_epoch() == old(self).spec_epoch(),
    {
        let mut i: usize = 0;
        assert(self@.remotes =~= old(self)@.remotes.remove_keys(remotes@.take(0).to_set()));
        while i < remotes.len()
            invariant
                i <= remotes@.len(),
                self@ == (WorkerView {
                    remotes: old(self)@.remotes.remove_keys(remotes@.take(i as int).to_set()),
                    ..old(self)@
                }),
                self.tasks == old(self).tasks,
                self.spec_local_addr() == old(self).spec_local_addr(),
                self.spec_epoch() == old(self).spec_epoch(),
            decreases remotes@.len() - i,
        {
            self.task_remotes.remove(remotes[i]);
            proof {
                let done = remotes@.take(i as int);
                let more = remotes@.take(i + 1);
                assert(more =~= done.push(remotes@[i as int]));
                assert(more.to_set() =~= done.to_set().insert(remotes@[i as int])) by {
                    assert forall|r: NetAddr| more.contains(r) <==> (r == remotes@[i as int]
                        || done.contains(r)) by {
                        if more.contains(r) {
                            let j = choose|j: int| 0 <= j < more.len() && more[j] == r;
                            if j < done.len() {
                                assert(done[j] == r);
                            }
                        }
                        if done.contains(r) {
                            let j = choose|j: int| 0 <= j < done.len() && done[j] == r;
                            assert(more[j] == r);
                        }
                        if r == remotes@[i as int] {
                            assert(more[i as int] == r);
                        }
                    }
                }
                assert(self@.remotes =~= old(self)@.remotes.remove_keys(more.to_set()));
            }
            i = i + 1;
        }
        assert(remotes@.take(i as int) =~= remotes@);
    }

    /// Removes session `id` and every entry that names it.
    fn remove_task(&mut self, id: usize)
        requires
            old(self).wf(),
            old(self)@.tasks.contains_key(id),
        ensures
            final(self).wf(),
            final(self)@ == without_task(old(self)@, id),
            final(self).spec_local_addr() == old(self).spec_local_addr(),
            final(self).spec_epoch() == old(self).spec_epoch(),
            forall|other: usize| other != id ==> final(self).task(other) == old(self).task(other),
    {
        let container = self.tasks.remove(&id).unwrap();
        drop_member(&mut self.task_order, id);
        drop_member(&mut self.ended_tasks, id);
        self.forget_remotes(&container.remotes);
        let ufrag = container.task.ufrag();
        self.task_ufrags.remove(ufrag.as_str());
        self.leave_channels(&container.sub_channels, id);
        self.leave_channels(&container.pub_channels, id);
        proof {
            let w = old(self)@;
            let after = without_task(w, id);
            lemma_without_task(w, id);
            assert(self@.tasks =~= after.tasks);
            assert(self@.channels =~= after.channels) by {
                assert forall|track: u64| w.channels.contains_key(track) implies {
                    let once = channel_without(w.channels[track], id);
                    &&& channel_without(once, id) == once
                    &&& !container.sub_channels@.contains(track)
                        && !container.pub_channels@.contains(track) ==> once == w.channels[track]
                    &&& w.channels[track].sources.len() + w.channels[track].consumers.len() > 0
                } by {
                    let channel = w.channels[track];
                    let once = channel_without(channel, id);
                    assert(channel_wf(w.tasks, track, channel));
                    lemma_without_member(channel.sources, id);
                    lemma_without_member(channel.consumers, id);
                    lemma_without_member(once.sources, id);
                    lemma_without_member(once.consumers, id);
                    if channel.sources.contains(id) {
                        let j = choose|j: int|
                            0 <= j < channel.sources.len() && channel.sources[j] == id;
                        assert(w.tasks[channel.sources[j]].pub_channels.contains(track));
                    }
                    if channel.consumers.contains(id) {
                        let j = choose|j: int|
                            0 <= j < channel.consumers.len() && channel.consumers[j] == id;
                        assert(w.tasks[channel.consumers[j]].sub_channels.contains(track));
                    }
                }
            }
            assert(self@ == after);
            assert forall|other: usize| self@.tasks.contains_key(other) implies task_ok(
                #[trigger] self.task(other)@,
            ) by {
                assert(other != id);
                assert(old(self)@.tasks.contains_key(other));
                assert(self.task(other) == old(self).task(other));
            }
            assert forall|other: usize| self@.tasks.contains_key(other) implies (
            #[trigger] self.task(other).engine()).epoch() == self.spec_epoch() by {
                assert(other != id);
                assert(old(self)@.tasks.contains_key(other));
                assert(self.task(other) == old(self).task(other));
            }
        }
    }

    /// Removes the sessions that have ended, in the order in which they
    /// ended, with every entry that names one of them.
    pub fn pop_ended_tasks(&mut self)
        requires
            old(self).wf(),
        ensures
            final(self).wf(),
            final(self)@ == without_tasks(old(self)@, old(self)@.ended),
            final(self)@.ended.len() == 0,
            final(self).spec_local_addr() == old(self).spec_local_addr(),
            final(self).spec_epoch() == old(self).spec_epoch(),
            forall|id: usize|
                final(self)@.tasks.contains_key(id) ==> old(self)@.tasks.contains_key(id)
                    && final(self).task(id) == old(self).task(id),
            forall|id: usize|
                old(self)@.ended.contains(id) ==> unreferenced(final(self)@, id),
    {
        let ids = self.ended_tasks.clone();
        let mut i: usize = 0;
        assert(ids@ == old(self)@.ended);
        assert(ids@.take(0) =~= Seq::<usize>::empty());
        while i < ids.len()
            invariant
                i <= ids@.len(),
                ids@ == old(self)@.ended,
                ids@.no_duplicates(),
                self.wf(),
                self@ == without_tasks(old(self)@, ids@.take(i as int)),
                self@.ended == ids@.skip(i as int),
                self.spec_local_addr() == old(self).spec_local_addr(),
                self.spec_epoch() == old(self).spec_epoch(),
                forall|id: usize|
                    self@.tasks.contains_key(id) ==> old(self)@.tasks.contains_key(id)
                        && self.task(id) == old(self).task(id),
                forall|j: int| 0 <= j < i ==> unreferenced(self@, #[trigger] ids@[j]),
            decreases ids@.len() - i,
        {
            let id = ids[i];
            let ghost earlier = self@;
            proof {
                assert(self@.ended[0] == id);
                assert(self@.ended.contains(id));
                lemma_without_task(self@, id);
            }
            self.remove_task(id);
            proof {
                let done = ids@.take(i as int);
                let more = ids@.take(i + 1);
                assert(more.drop_last() =~= done);
                assert(more.last() == id);
                lemma_without_member(earlier.ended, id);
                assert(self@.ended =~= ids@.skip(i + 1)) by {
                    lemma_without_first(earlier.ended);
                    assert(earlier.ended.skip(1) =~= ids@.skip(i + 1));
                }
                assert forall|j: int| 0 <= j < i + 1 implies unreferenced(
                    self@,
                    #[trigger] ids@[j],
                ) by {
                    if j < i {
                        lemma_unreferenced_stays(earlier, id, ids@[j]);
                    }
                }
            }
            i = i + 1;
        }
        assert(ids@.take(i as int) =~= ids@);
        assert forall|id: usize| old(self)@.ended.contains(id) implies unreferenced(self@, id) by {
            let j = choose|j: int| 0 <= j < ids@.len() && ids@[j] == id;
            assert(unreferenced(self@, ids@[j]));
        }
    }
}

/// A drain records what waits: where a notice of a published track waits in
/// the queue of a live session, within the first `DRAIN_LIMIT` outputs, the
/// drain lists the session as a publisher of the track, once, with the
/// channel and with the session.
pub proof fn waiting_publish_is_recorded(
    before: WorkerView,
    id: usize,
    publisher: bool,
    task: TaskView,
    now: u64,
    outputs: Seq<WebrtcTaskOutput>,
    after: WorkerView,
    after_task: TaskView,
    actions: Seq<WorkerAction>,
    at: int,
    track: u64,
)
    requires
        before.wf(),
        before.tasks.contains_key(id),
        !task.ended,
        0 <= at < task.outputs.len(),
        at < DRAIN_LIMIT,
        task.outputs[at] == (WebrtcTaskOutput::PublishTrack { track_id: track }),
        drained(before, id, outputs, after, actions),
        session_drained(publisher, task, now, outputs, after_task),
    ensures
        after.wf(),
        is_source(after, track, id),
        after.channels[track].sources.no_duplicates(),
{
    drain_takes_the_queue(publisher, task, now, outputs, after_task);
    assert(outputs[at] == task.outputs[at]);
    lemma_route_all(before, id, outputs);
    lemma_route_all_lists(before, id, outputs, at, track);
    assert(channel_wf(after.tasks, track, after.channels[track]));
}

/// A drain records what waits: where a notice of a subscribed track waits
/// in the queue of a live session, within the first `DRAIN_LIMIT` outputs,
/// the drain lists the session as a consumer of the track, once, with the
/// channel and with the session.
pub proof fn waiting_subscribe_is_recorded(
    before: WorkerView,
    id: usize,
    publisher: bool,
    task: TaskView,
    now: u64,
    outputs: Seq<WebrtcTaskOutput>,
    after: WorkerView,
    after_task: TaskView,
    actions: Seq<WorkerAction>,
    at: int,
    track: u64,
)
    requires
        before.wf(),
        before.tasks.contains_key(id),
        !task.ended,
        0 <= at < task.outputs.len(),
        at < DRAIN_LIMIT,
        task.outputs[at] == (WebrtcTaskOutput::SubscribeTrack { track_id: track }),
        drained(before, id, outputs, after, actions),
        session_drained(publisher, task, now, outputs, after_task),
    ensures
        after.wf(),
        is_consumer(after, track, id),
        after.channels[track].consumers.no_duplicates(),
{
    drain_takes_the_queue(publisher, task, now, outputs, after_task);
    assert(outputs[at] == task.outputs[at]);
    lemma_route_all(before, id, outputs);
    lemma_route_all_lists(before, id, outputs, at, track);
    assert(channel_wf(after.tasks, track, after.channels[track]));
}

} // verus!
