//! The bookkeeping of a multiplexed download.
//!
//! One loop drives every transfer. The loop itself, with its sockets, belongs
//! to the caller; it reports what happened as events, and the engine keeps
//! the state of each transfer under the token it was registered with. When a
//! transfer ends, its state leaves the engine in one move, as a completion.

use vstd::prelude::*;
use crate::models::{AlbumInfo, AlbumInfoView, Track, TrackView};
use crate::utils::{join_path, joined_path};

verus! {

/// A track to download and where to put it.
#[derive(Debug, PartialEq, Eq)]
pub struct TransferRequest {
    pub track: Track,
    /// The release that the track belongs to.
    pub album: AlbumInfo,
    /// The directory that receives the file.
    pub root: String,
}

/// What a [`TransferRequest`] holds, as mathematical values.
pub struct TransferRequestView {
    pub track: TrackView,
    pub album: AlbumInfoView,
    pub root: Seq<char>,
}

impl View for TransferRequest {
    type V = TransferRequestView;

    open spec fn view(&self) -> TransferRequestView {
        TransferRequestView { track: self.track@, album: self.album@, root: self.root@ }
    }
}

impl TransferRequestView {
    /// The words under which the progress of the transfer is shown: artist,
    /// album and track as a path.
    pub open spec fn label(self) -> Seq<char> {
        joined_path(joined_path(self.album.artist, self.album.album), self.track.name)
    }
}

impl TransferRequest {
    /// The words under which the progress of the transfer is shown.
    pub fn label(&self) -> (label: String)
        ensures
            label@ == self@.label(),
    {
        let release = join_path(self.album.artist.as_str(), self.album.album.as_str());
        join_path(release.as_str(), self.track.name.as_str())
    }
}

impl Clone for TransferRequest {
    fn clone(&self) -> (copy: Self)
        ensures
            copy@ == self@,
    {
        TransferRequest {
            track: self.track.clone(),
            album: self.album.clone(),
            root: self.root.clone(),
        }
    }
}

/// How far a registered transfer has come.
#[derive(Clone, Copy, Debug, PartialEq, Eq, Structural)]
pub enum TransferState {
    /// Registered, nothing received yet.
    Registered,
    /// Data or progress has been reported.
    Transferring,
}

/// The state of a transfer in flight.
#[derive(Debug, PartialEq, Eq)]
pub struct Transfer {
    pub request: TransferRequest,
    pub state: TransferState,
    /// The payload received so far.
    pub buffer: Vec<u8>,
    /// The number of bytes received, as the transport last reported it.
    pub received: u64,
    /// The number of bytes expected, as the transport last reported it; zero
    /// while unknown.
    pub total: u64,
}

/// What a [`Transfer`] holds, as mathematical values.
pub struct TransferView {
    pub request: TransferRequestView,
    pub state: TransferState,
    pub buffer: Seq<u8>,
    pub received: u64,
    pub total: u64,
}

impl View for Transfer {
    type V = TransferView;

    open spec fn view(&self) -> TransferView {
        TransferView {
            request: self.request@,
            state: self.state,
            buffer: self.buffer@,
            received: self.received,
            total: self.total,
        }
    }
}

/// What the loop reports to the engine.
#[derive(Debug, PartialEq, Eq)]
pub enum Event {
    /// Bytes of the payload arrived.
    Data { token: usize, bytes: Vec<u8> },
    /// The transport reported its progress.
    Progress { token: usize, total: u64, received: u64 },
    /// The transfer ended, well or with the words of a transport error.
    Finished { token: usize, result: Result<(), String> },
}

/// What an [`Event`] holds, as mathematical values.
pub enum EventView {
    Data { token: usize, bytes: Seq<u8> },
    Progress { token: usize, total: u64, received: u64 },
    Finished { token: usize, result: Result<(), Seq<char>> },
}

impl View for Event {
    type V = EventView;

    open spec fn view(&self) -> EventView {
        match self {
            Event::Data { token, bytes } => EventView::Data { token: *token, bytes: bytes@ },
            Event::Progress { token, total, received } => EventView::Progress {
                token: *token,
                total: *total,
                received: *received,
            },
            Event::Finished { token, result } => EventView::Finished {
                token: *token,
                result: match result {
                    Ok(_) => Ok(()),
                    Err(words) => Err(words@),
                },
            },
        }
    }
}

impl EventView {
    /// The token of the transfer that the event is about.
    pub open spec fn token(self) -> usize {
        match self {
            EventView::Data { token, .. } => token,
            EventView::Progress { token, .. } => token,
            EventView::Finished { token, .. } => token,
        }
    }
}

/// A transfer that has ended, with all that the engine held of it.
#[derive(Debug, PartialEq, Eq)]
pub struct Completion {
    pub token: usize,
    /// The request as it was registered.
    pub request: TransferRequest,
    /// The payload, or the words of the transport error.
    pub result: Result<Vec<u8>, String>,
}

/// What a [`Completion`] holds, as mathematical values.
pub struct CompletionView {
    pub token: usize,
    pub request: TransferRequestView,
    pub result: Result<Seq<u8>, Seq<char>>,
}

impl View for Completion {
    type V = CompletionView;

    open spec fn view(&self) -> CompletionView {
        CompletionView {
            token: self.token,
            request: self.request@,
            result: match self.result {
                Ok(bytes) => Ok(bytes@),
                Err(words) => Err(words@),
            },
        }
    }
}

/// The view of an optional transfer.
pub open spec fn slot_view(slot: Option<Transfer>) -> Option<TransferView> {
    match slot {
        Some(transfer) => Some(transfer@),
        None => None,
    }
}

/// The view of an optional completion.
pub open spec fn completion_view(completion: Option<Completion>) -> Option<CompletionView> {
    match completion {
        Some(value) => Some(value@),
        None => None,
    }
}

/// The views of a sequence of requests, in order.
pub open spec fn requests_view(requests: Seq<TransferRequest>) -> Seq<TransferRequestView> {
    requests.map_values(|request: TransferRequest| request@)
}

/// The views of a sequence of events, in order.
pub open spec fn events_view(events: Seq<Event>) -> Seq<EventView> {
    events.map_values(|event: Event| event@)
}

/// The views of a sequence of completions, in order.
pub open spec fn completions_view(completions: Seq<Completion>) -> Seq<CompletionView> {
    completions.map_values(|completion: Completion| completion@)
}

/// The table of an engine: at each token that was given out, the transfer in
/// flight, or nothing once it has ended.
pub type Slots = Seq<Option<TransferView>>;

/// The state of a transfer that has just been registered.
pub open spec fn fresh(request: TransferRequestView) -> TransferView {
    TransferView {
        request,
        state: TransferState::Registered,
        buffer: Seq::empty(),
        received: 0,
        total: 0,
    }
}

/// Whether the transfer with this token is in flight.
pub open spec fn in_flight(slots: Slots, token: int) -> bool {
    0 <= token < slots.len() && slots[token] is Some
}

/// The table after an event. Data is added to the buffer of its transfer and
/// progress replaces the numbers of its transfer; the end of a transfer
/// empties its slot. An event for a token that is not in flight changes
/// nothing.
pub open spec fn after(slots: Slots, event: EventView) -> Slots {
    let token = event.token() as int;
    if !in_flight(slots, token) {
        slots
    } else {
        let transfer = slots[token]->0;
        match event {
            EventView::Data { bytes, .. } => slots.update(
                token,
                Some(
                    TransferView {
                        state: TransferState::Transferring,
                        buffer: transfer.buffer + bytes,
                        ..transfer
                    },
                ),
            ),
            EventView::Progress { total, received, .. } => slots.update(
                token,
                Some(
                    TransferView { state: TransferState::Transferring, total, received, ..transfer },
                ),
            ),
            EventView::Finished { .. } => slots.update(token, None),
        }
    }
}

/// The completion that an event brings: the end of a transfer in flight hands
/// out its request and, where it ended well, its buffer. No other event
/// completes anything.
pub open spec fn completion_of(slots: Slots, event: EventView) -> Option<CompletionView> {
    match event {
        EventView::Finished { token, result } => if in_flight(slots, token as int) {
            let transfer = slots[token as int]->0;
            Some(
                CompletionView {
                    token,
                    request: transfer.request,
                    result: match result {
                        Ok(_) => Ok(transfer.buffer),
                        Err(words) => Err(words),
                    },
                },
            )
        } else {
            None
        },
        _ => None,
    }
}

/// The number of transfers in flight.
pub open spec fn live_count(slots: Slots) -> nat
    decreases slots.len(),
{
    if slots.len() == 0 {
        0
    } else {
        live_count(slots.drop_last()) + if slots.last() is Some {
            1nat
        } else {
            0nat
        }
    }
}

/// Whether no transfer is in flight.
pub open spec fn idle(slots: Slots) -> bool {
    forall|token: int| 0 <= token < slots.len() ==> (#[trigger] slots[token]) is None
}

/// How long the loop waits before its next round, in seconds; `None` where
/// it ends: no transfer is in flight, or the transport drives none.
pub open spec fn wait_of(slots: Slots, running: u32) -> Option<u64> {
    if idle(slots) || running == 0 {
        None
    } else {
        Some(1u64)
    }
}

/// The bytes that the events brought for a token, in the order of the
/// events.
pub open spec fn data_of(events: Seq<EventView>, token: int) -> Seq<u8>
    decreases events.len(),
{
    if events.len() == 0 {
        Seq::empty()
    } else {
        match events.last() {
            EventView::Data { token: about, bytes } => if about == token {
                data_of(events.drop_last(), token) + bytes
            } else {
                data_of(events.drop_last(), token)
            },
            _ => data_of(events.drop_last(), token),
        }
    }
}

/// The table of an engine on which these requests were registered, in
/// order, and nothing has happened yet: the token of a request is its index.
pub open spec fn fresh_slots(requests: Seq<TransferRequestView>) -> Slots {
    Seq::new(requests.len(), |token: int| Some(fresh(requests[token])))
}

/// The table after a sequence of events, and the completions that they
/// brought, in order.
pub open spec fn run_from(slots: Slots, events: Seq<EventView>) -> (Slots, Seq<CompletionView>)
    decreases events.len(),
{
    if events.len() == 0 {
        (slots, Seq::empty())
    } else {
        let (before, done) = run_from(slots, events.drop_last());
        (
            after(before, events.last()),
            match completion_of(before, events.last()) {
                Some(completion) => done.push(completion),
                None => done,
            },
        )
    }
}

/// The completions of a run: the requests are registered in order, then the
/// events are taken in.
pub open spec fn run_of(requests: Seq<TransferRequestView>, events: Seq<EventView>) -> Seq<
    CompletionView,
> {
    run_from(fresh_slots(requests), events).1
}

/// Every request is accounted for: it is in flight, with its request as it
/// was registered, or it has completed, once and with that request.
pub open spec fn accounted(
    requests: Seq<TransferRequestView>,
    slots: Slots,
    done: Seq<CompletionView>,
) -> bool {
    &&& slots.len() == requests.len()
    &&& forall|token: int|
        0 <= token < slots.len() && (#[trigger] slots[token]) is Some ==> slots[token]->0.request
            == requests[token]
    &&& forall|i: int|
        0 <= i < done.len() ==> {
            &&& 0 <= (#[trigger] done[i]).token < requests.len()
            &&& done[i].request == requests[done[i].token as int]
            &&& slots[done[i].token as int] is None
        }
    &&& forall|i: int, j: int|
        0 <= i < j < done.len() ==> (#[trigger] done[i]).token != (#[trigger] done[j]).token
    &&& forall|token: int|
        0 <= token < slots.len() && (#[trigger] slots[token]) is None ==> exists|i: int|
            0 <= i < done.len() && (#[trigger] done[i]).token == token
    &&& done.len() + live_count(slots) == requests.len()
}

/// Whether one of the completions is that of `token`, and carries `request`.
pub open spec fn completed_with(
    done: Seq<CompletionView>,
    token: int,
    request: TransferRequestView,
) -> bool {
    exists|i: int|
        0 <= i < done.len() && (#[trigger] done[i]).token == token && done[i].request == request
}

/// Adds the bytes to the end of the buffer.
pub fn append_bytes(buffer: &mut Vec<u8>, bytes: &Vec<u8>)
    ensures
        final(buffer)@ == old(buffer)@ + bytes@,
{
    let mut i: usize = 0;
    assert(bytes@.take(0) =~= Seq::<u8>::empty());
    while i < bytes.len()
        invariant
            i <= bytes.len(),
            buffer@ == old(buffer)@ + bytes@.take(i as int),
        decreases bytes.len() - i,
    {
        buffer.push(bytes[i]);
        assert(bytes@.take(i + 1) =~= bytes@.take(i as int).push(bytes[i as int]));
        i += 1;
    }
    assert(bytes@.take(bytes.len() as int) =~= bytes@);
}

/// The engine: the transfers in flight, each under its token.
#[derive(Debug)]
pub struct Downloader {
    slots: Vec<Option<Transfer>>,
}

impl View for Downloader {
    type V = Slots;

    closed spec fn view(&self) -> Slots {
        self.slots@.map_values(|slot: Option<Transfer>| slot_view(slot))
    }
}

impl Downloader {
    /// An engine without transfers.
    pub fn new() -> (engine: Self)
        ensures
            engine@ == Seq::<Option<TransferView>>::empty(),
    {
        let engine = Downloader { slots: Vec::new() };
        assert(engine@ =~= Seq::<Option<TransferView>>::empty());
        engine
    }

    /// Registers a transfer and gives out its token: the number of transfers
    /// registered before it, so that no token is given out twice.
    pub fn register(&mut self, request: TransferRequest) -> (token: usize)
        ensures
            token == old(self)@.len(),
            final(self)@ == old(self)@.push(Some(fresh(request@))),
            !in_flight(old(self)@, token as int),
            in_flight(final(self)@, token as int),
    {
        let token: usize = self.slots.len();
        let transfer = Transfer {
            request,
            state: TransferState::Registered,
            buffer: Vec::new(),
            received: 0,
            total: 0,
        };
        self.slots.push(Some(transfer));
        assert(self@ =~= old(self)@.push(Some(fresh(request@))));
        token
    }

    /// The number of tokens given out so far.
    pub fn registered(&self) -> (count: usize)
        ensures
            count == self@.len(),
    {
        self.slots.len()
    }

    /// Whether the transfer with this token is in flight.
    pub fn is_in_flight(&self, token: usize) -> (live: bool)
        ensures
            live == in_flight(self@, token as int),
    {
        token < self.slots.len() && self.slots[token].is_some()
    }

    /// The number of transfers in flight.
    pub fn active(&self) -> (count: usize)
        ensures
            count == live_count(self@),
    {
        let mut count: usize = 0;
        let mut i: usize = 0;
        while i < self.slots.len()
            invariant
                i <= self.slots.len(),
                count <= i,
                count == live_count(self@.take(i as int)),
            decreases self.slots.len() - i,
        {
            assert(self@.take(i + 1).drop_last() =~= self@.take(i as int));
            if self.slots[i].is_some() {
                count += 1;
            }
            i += 1;
        }
        assert(self@.take(self.slots.len() as int) =~= self@);
        count
    }

    /// Whether no transfer is in flight, so that the loop may end.
    pub fn is_idle(&self) -> (done: bool)
        ensures
            done == idle(self@),
    {
        let count: usize = self.active();
        proof {
            lemma_idle_is_no_live(self@);
        }
        count == 0
    }

    /// What the loop does after it has driven the transfers and taken in
    /// what they reported: `running` is the number of transfers that the
    /// transport still drives. The loop ends, and the answer is `None`, once
    /// the engine is idle or the transport drives nothing any more. Else it
    /// waits for the sockets, one second at most so that it stays
    /// responsive, and the answer is that number of seconds.
    pub fn pause(&self, running: u32) -> (seconds: Option<u64>)
        ensures
            seconds == wait_of(self@, running),
    {
        if running == 0 || self.is_idle() {
            None
        } else {
            Some(1)
        }
    }

    /// Takes in one event. The end of a transfer in flight moves its state
    /// out of the engine as a completion; the token is not in flight after
    /// that, so that a second report of its end completes nothing.
    pub fn handle(&mut self, event: &Event) -> (completion: Option<Completion>)
        ensures
            final(self)@ == after(old(self)@, event@),
            completion_view(completion) == completion_of(old(self)@, event@),
    {
        match event {
            Event::Data { token, bytes } => {
                if *token < self.slots.len() {
                    if let Some(mut transfer) = self.take(*token) {
                        append_bytes(&mut transfer.buffer, bytes);
                        transfer.state = TransferState::Transferring;
                        self.put(*token, transfer);
                    }
                }
                assert(self@ =~= after(old(self)@, event@));
                None
            },
            Event::Progress { token, total, received } => {
                if *token < self.slots.len() {
                    if let Some(mut transfer) = self.take(*token) {
                        transfer.state = TransferState::Transferring;
                        transfer.total = *total;
                        transfer.received = *received;
                        self.put(*token, transfer);
                    }
                }
                assert(self@ =~= after(old(self)@, event@));
                None
            },
            Event::Finished { token, result } => {
                let slot = if *token < self.slots.len() {
                    self.take(*token)
                } else {
                    None
                };
                assert(self@ =~= after(old(self)@, event@));
                match slot {
                    Some(transfer) => {
                        let result = match result {
                            Ok(_) => Ok(transfer.buffer),
                            Err(words) => Err(words.clone()),
                        };
                        Some(Completion { token: *token, request: transfer.request, result })
                    },
                    None => None,
                }
            },
        }
    }

    /// Replays a download: registers the requests in order, so that the
    /// token of each is its index, takes in the events in order, and returns
    /// the completions in the order in which they came about.
    pub fn run(requests: &Vec<TransferRequest>, events: &Vec<Event>) -> (done: Vec<Completion>)
        ensures
            completions_view(done@) == run_of(requests_view(requests@), events_view(events@)),
    {
        let mut engine = Downloader::new();
        let ghost wanted = requests_view(requests@);
        let mut i: usize = 0;
        assert(engine@ =~= fresh_slots(wanted.take(0)));
        while i < requests.len()
            invariant
                i <= requests.len(),
                wanted == requests_view(requests@),
                engine@ == fresh_slots(wanted.take(i as int)),
            decreases requests.len() - i,
        {
            let token: usize = engine.register(requests[i].clone());
            assert(engine@ =~= fresh_slots(wanted.take(i + 1)));
            i += 1;
        }
        assert(wanted.take(requests.len() as int) =~= wanted);
        let ghost start = engine@;
        let ghost all = events_view(events@);
        let mut done: Vec<Completion> = Vec::new();
        let mut k: usize = 0;
        assert(completions_view(done@) =~= Seq::<CompletionView>::empty());
        while k < events.len()
            invariant
                k <= events.len(),
                all == events_view(events@),
                (engine@, completions_view(done@)) == run_from(start, all.take(k as int)),
            decreases events.len() - k,
        {
            assert(all.take(k + 1).drop_last() =~= all.take(k as int));
            assert(all.take(k + 1).last() == events[k as int]@);
            let ghost before = completions_view(done@);
            if let Some(completion) = engine.handle(&events[k]) {
                done.push(completion);
                assert(completions_view(done@) =~= before.push(completion@));
            }
            k += 1;
        }
        assert(all.take(events.len() as int) =~= all);
        done
    }

    /// Moves the transfer out of its slot.
    fn take(&mut self, token: usize) -> (transfer: Option<Transfer>)
        requires
            token < old(self)@.len(),
        ensures
            slot_view(transfer) == old(self)@[token as int],
            final(self)@ == old(self)@.update(token as int, None),
    {
        self.slots.push(None);
        let transfer = self.slots.swap_remove(token);
        assert(self@ =~= old(self)@.update(token as int, None));
        transfer
    }

    /// Puts a transfer into a slot.
    fn put(&mut self, token: usize, transfer: Transfer)
        requires
            token < old(self)@.len(),
        ensures
            final(self)@ == old(self)@.update(token as int, Some(transfer@)),
    {
        self.slots.push(Some(transfer));
        let _ = self.slots.swap_remove(token);
        assert(self@ =~= old(self)@.update(token as int, Some(transfer@)));
    }
}

/// Putting a value into a slot changes the number of transfers in flight by
/// what the slot gains or loses.
pub proof fn lemma_live_count_update(slots: Slots, token: int, value: Option<TransferView>)
    requires
        0 <= token < slots.len(),
    ensures
        live_count(slots.update(token, value)) + (if slots[token] is Some {
            1nat
        } else {
            0nat
        }) == live_count(slots) + (if value is Some {
            1nat
        } else {
            0nat
        }),
    decreases slots.len(),
{
    let changed = slots.update(token, value);
    if token == slots.len() - 1 {
        assert(changed.drop_last() =~= slots.drop_last());
    } else {
        assert(changed.drop_last() =~= slots.drop_last().update(token, value));
        lemma_live_count_update(slots.drop_last(), token, value);
    }
}

/// An engine is idle exactly when it counts no transfer in flight.
pub proof fn lemma_idle_is_no_live(slots: Slots)
    ensures
        idle(slots) <==> live_count(slots) == 0,
    decreases slots.len(),
{
    if slots.len() > 0 {
        lemma_idle_is_no_live(slots.drop_last());
        if idle(slots) {
            assert forall|token: int| 0 <= token < slots.drop_last().len() implies (
            #[trigger] slots.drop_last()[token]) is None by {
                assert(slots[token] is None);
            }
        }
        if live_count(slots) == 0 {
            assert forall|token: int| 0 <= token < slots.len() implies (#[trigger] slots[token])
                is None by {
                if token < slots.len() - 1 {
                    assert(slots.drop_last()[token] is None);
                }
            }
        }
    }
}

/// An event touches the transfer that it names and no other, and it never
/// changes the request of a transfer that stays in flight.
pub proof fn lemma_event_touches_one_transfer(slots: Slots, event: EventView)
    ensures
        after(slots, event).len() == slots.len(),
        forall|token: int|
            0 <= token < slots.len() && token != event.token() ==> #[trigger] after(
                slots,
                event,
            )[token] == slots[token],
        in_flight(after(slots, event), event.token() as int) ==> in_flight(
            slots,
            event.token() as int,
        ) && after(slots, event)[event.token() as int]->0.request
            == slots[event.token() as int]->0.request,
{
}

/// Where every slot is taken, as many transfers are in flight as there are
/// slots.
proof fn lemma_fresh_slots_are_live(requests: Seq<TransferRequestView>)
    ensures
        live_count(fresh_slots(requests)) == requests.len(),
    decreases requests.len(),
{
    if requests.len() > 0 {
        assert(fresh_slots(requests).drop_last() =~= fresh_slots(requests.drop_last()));
        lemma_fresh_slots_are_live(requests.drop_last());
    }
}

/// One event keeps every request accounted for.
proof fn lemma_event_keeps_account(
    requests: Seq<TransferRequestView>,
    slots: Slots,
    done: Seq<CompletionView>,
    event: EventView,
)
    requires
        accounted(requests, slots, done),
    ensures
        accounted(
            requests,
            after(slots, event),
            match completion_of(slots, event) {
                Some(completion) => done.push(completion),
                None => done,
            },
        ),
{
    let token = event.token() as int;
    let next = after(slots, event);
    if in_flight(slots, token) {
        lemma_live_count_update(slots, token, next[token]);
        match event {
            EventView::Finished { .. } => {
                let completion = completion_of(slots, event)->0;
                let more = done.push(completion);
                assert forall|i: int, j: int| 0 <= i < j < more.len() implies (#[trigger] more[i]).token
                    != (#[trigger] more[j]).token by {
                    if j == done.len() {
                        assert(slots[done[i].token as int] is None);
                    } else {
                        assert(done[i].token != done[j].token);
                    }
                }
                assert forall|other: int|
                    0 <= other < next.len() && (#[trigger] next[other]) is None implies exists|
                    i: int,
                |
                    0 <= i < more.len() && (#[trigger] more[i]).token == other by {
                    if other == token {
                        assert(more[done.len() as int].token == other);
                    } else {
                        assert(slots[other] is None);
                        let i = choose|i: int|
                            0 <= i < done.len() && (#[trigger] done[i]).token == other;
                        assert(more[i].token == other);
                    }
                }
                assert forall|i: int| 0 <= i < more.len() implies {
                    &&& 0 <= (#[trigger] more[i]).token < requests.len()
                    &&& more[i].request == requests[more[i].token as int]
                    &&& next[more[i].token as int] is None
                } by {
                    if i < done.len() {
                        assert(more[i] == done[i]);
                    }
                }
                assert(accounted(requests, next, more));
            },
            _ => {
                assert forall|other: int|
                    0 <= other < next.len() && (#[trigger] next[other]) is None implies exists|
                    i: int,
                |
                    0 <= i < done.len() && (#[trigger] done[i]).token == other by {
                    assert(slots[other] is None);
                }
                assert forall|i: int| 0 <= i < done.len() implies {
                    &&& 0 <= (#[trigger] done[i]).token < requests.len()
                    &&& done[i].request == requests[done[i].token as int]
                    &&& next[done[i].token as int] is None
                } by {
                    assert(slots[done[i].token as int] is None);
                }
                assert(accounted(requests, next, done));
            },
        }
    }
}

/// A run keeps every request accounted for.
proof fn lemma_run_keeps_account(requests: Seq<TransferRequestView>, events: Seq<EventView>)
    ensures
        accounted(
            requests,
            run_from(fresh_slots(requests), events).0,
            run_from(fresh_slots(requests), events).1,
        ),
    decreases events.len(),
{
    if events.len() == 0 {
        lemma_fresh_slots_are_live(requests);
    } else {
        lemma_run_keeps_account(requests, events.drop_last());
        let (before, done) = run_from(fresh_slots(requests), events.drop_last());
        lemma_event_keeps_account(requests, before, done, events.last());
    }
}

/// The buffer of a transfer in flight holds the bytes that the events
/// brought for its token, in their order, and no others.
pub proof fn lemma_buffer_is_own_data(
    requests: Seq<TransferRequestView>,
    events: Seq<EventView>,
    token: int,
)
    requires
        in_flight(run_from(fresh_slots(requests), events).0, token),
    ensures
        0 <= token < requests.len(),
        run_from(fresh_slots(requests), events).0[token]->0.buffer == data_of(events, token),
    decreases events.len(),
{
    lemma_run_keeps_account(requests, events);
    if events.len() > 0 {
        let before = run_from(fresh_slots(requests), events.drop_last()).0;
        let last = events.last();
        lemma_run_keeps_account(requests, events.drop_last());
        lemma_event_touches_one_transfer(before, last);
        assert(in_flight(before, token));
        lemma_buffer_is_own_data(requests, events.drop_last(), token);
        if last.token() == token {
            match last {
                EventView::Data { bytes, .. } => {
                    assert(after(before, last)[token]->0.buffer == before[token]->0.buffer
                        + bytes);
                },
                EventView::Progress { .. } => {},
                EventView::Finished { .. } => {},
            }
        }
    } else {
        assert(data_of(events, token) =~= Seq::<u8>::empty());
    }
}

/// The payload of a transfer that ended well is the data that the events
/// before its end brought for its token, in their order, and no other
/// transfer's.
pub proof fn lemma_payload_is_own_data(
    requests: Seq<TransferRequestView>,
    events: Seq<EventView>,
    completion: CompletionView,
)
    requires
        events.len() > 0,
        completion_of(run_from(fresh_slots(requests), events.drop_last()).0, events.last())
            == Some(completion),
        completion.result is Ok,
    ensures
        completion.result == Ok::<Seq<u8>, Seq<char>>(
            data_of(events.drop_last(), completion.token as int),
        ),
{
    lemma_buffer_is_own_data(requests, events.drop_last(), completion.token as int);
}

/// Whatever the events, no request completes twice, and each completion
/// carries the request that was registered under its token.
pub proof fn lemma_completes_at_most_once(
    requests: Seq<TransferRequestView>,
    events: Seq<EventView>,
)
    ensures
        forall|i: int|
            0 <= i < run_of(requests, events).len() ==> {
                &&& 0 <= (#[trigger] run_of(requests, events)[i]).token < requests.len()
                &&& run_of(requests, events)[i].request == requests[run_of(
                    requests,
                    events,
                )[i].token as int]
            },
        forall|i: int, j: int|
            0 <= i < j < run_of(requests, events).len() ==> (#[trigger] run_of(
                requests,
                events,
            )[i]).token != (#[trigger] run_of(requests, events)[j]).token,
        run_of(requests, events).len() + live_count(run_from(fresh_slots(requests), events).0)
            == requests.len(),
{
    lemma_run_keeps_account(requests, events);
}

/// When the engine is idle after a run on N requests, there were exactly N
/// completions: one for each token, with the request registered under it.
pub proof fn lemma_each_request_completes_once(
    requests: Seq<TransferRequestView>,
    events: Seq<EventView>,
)
    requires
        idle(run_from(fresh_slots(requests), events).0),
    ensures
        run_of(requests, events).len() == requests.len(),
        forall|token: int|
            0 <= token < requests.len() ==> #[trigger] completed_with(
                run_of(requests, events),
                token,
                requests[token],
            ),
        forall|i: int, j: int|
            0 <= i < j < run_of(requests, events).len() ==> (#[trigger] run_of(
                requests,
                events,
            )[i]).token != (#[trigger] run_of(requests, events)[j]).token,
{
    lemma_run_keeps_account(requests, events);
    let slots = run_from(fresh_slots(requests), events).0;
    let done = run_of(requests, events);
    lemma_idle_is_no_live(slots);
    assert forall|token: int| 0 <= token < requests.len() implies #[trigger] completed_with(
        done,
        token,
        requests[token],
    ) by {
        assert(slots[token] is None);
        let i = choose|i: int| 0 <= i < done.len() && (#[trigger] done[i]).token == token;
        assert(done[i].request == requests[done[i].token as int]);
    }
}

} // verus!
