//! The watcher: its configuration, and the loop that turns what arrives on the event
//! stream into pongs, state queries and published snapshots.

use crate::json::{descend, json_at, json_parse, json_text, parse_document, path_keys, text};
use crate::pool::{refreshed, spec_query_url, PoolData, PoolManager, PoolState, QueryReply};
use crate::snapshot::PoolStateMap;
use vstd::prelude::*;

verus! {

/// The request, sent once when the stream is opened, that subscribes to new block headers.
pub const SUBSCRIBE_MSG: &'static str =
    "{\"jsonrpc\":\"2.0\",\"method\":\"subscribe\",\"id\":0,\"params\":{\"query\":\"tm.event='NewBlockHeader'\"}}";

/// What the watcher publishes to its consumer.
#[derive(Debug)]
pub enum PoolEvent {
    /// The snapshot of one complete refresh cycle.
    UpdatedPool(PoolStateMap),
}

impl View for PoolEvent {
    type V = Map<Seq<char>, PoolState>;

    open spec fn view(&self) -> Map<Seq<char>, PoolState> {
        match self {
            PoolEvent::UpdatedPool(pools) => pools@,
        }
    }
}

/// One frame of the event stream.
#[derive(Debug, Clone, PartialEq)]
pub enum Frame {
    Text(String),
    Binary(Vec<u8>),
    Ping(Vec<u8>),
    Pong(Vec<u8>),
    Close,
}

/// What the loop is told after each thing it asked for.
#[derive(Debug, Clone, PartialEq)]
pub enum LoopEvent {
    /// A frame arrived on the stream.
    Frame(Frame),
    /// The stream failed to deliver a frame.
    ReceiveFailed,
    /// A pong could not be sent.
    PongFailed,
    /// The reply to the state query that the loop asked for.
    Reply(QueryReply),
}

/// Where the loop stands.
#[derive(Debug)]
pub enum LoopState {
    /// The loop waits for the next frame.
    WaitingForMessage,
    /// A refresh cycle is under way: the query for the address at `next` is out, and
    /// `pools` holds what the addresses before it gave.
    Dispatching { next: usize, pools: PoolStateMap },
    /// The loop has ended.
    Closed,
}

/// A `LoopState`, with the snapshot as a mapping.
pub enum LoopStateView {
    WaitingForMessage,
    Dispatching { next: nat, pools: Map<Seq<char>, PoolState> },
    Closed,
}

impl View for LoopState {
    type V = LoopStateView;

    open spec fn view(&self) -> LoopStateView {
        match self {
            LoopState::WaitingForMessage => LoopStateView::WaitingForMessage,
            LoopState::Dispatching { next, pools } => LoopStateView::Dispatching {
                next: *next as nat,
                pools: pools@,
            },
            LoopState::Closed => LoopStateView::Closed,
        }
    }
}

/// What the loop asks of its driver before the next event.
#[derive(Debug)]
pub enum Action {
    /// Nothing.
    Wait,
    /// Send one pong frame with this payload.
    SendPong(Vec<u8>),
    /// Send the state query at this URL, and hand its reply back.
    Query(String),
    /// Put this event on the channel.
    Publish(PoolEvent),
    /// Leave the loop and close the channel.
    Stop,
}

/// An `Action`, with its payload as a sequence or a mapping.
pub enum ActionView {
    Wait,
    SendPong(Seq<u8>),
    Query(Seq<char>),
    Publish(Map<Seq<char>, PoolState>),
    Stop,
}

impl View for Action {
    type V = ActionView;

    open spec fn view(&self) -> ActionView {
        match self {
            Action::Wait => ActionView::Wait,
            Action::SendPong(payload) => ActionView::SendPong(payload@),
            Action::Query(url) => ActionView::Query(url@),
            Action::Publish(event) => ActionView::Publish(event@),
            Action::Stop => ActionView::Stop,
        }
    }
}

/// The path from a notification to the height of the block that it announces.
pub open spec fn height_path() -> Seq<Seq<char>> {
    seq!["result"@, "data"@, "value"@, "header"@, "height"@]
}

/// The block height that a document announces: the string at the end of `height_path`.
pub open spec fn height_in_document(doc: serde_json::Value) -> Option<Seq<char>> {
    match json_at(doc, height_path()) {
        Some(height) => json_text(height),
        None => None,
    }
}

/// The block height that a text frame announces.
pub open spec fn notified_height(frame: Seq<char>) -> Option<Seq<char>> {
    match json_parse(frame) {
        Some(doc) => height_in_document(doc),
        None => None,
    }
}

/// Reads the announced block height out of a document.
pub fn block_height_in(doc: &serde_json::Value) -> (r: Option<String>)
    ensures
        match r {
            Some(height) => height_in_document(*doc) == Some(height@),
            None => height_in_document(*doc) is None,
        },
{
    let path: [&str; 5] = ["result", "data", "value", "header", "height"];
    proof {
        assert(path_keys(path@) =~= height_path());
    }
    match descend(doc, path.as_slice()) {
        Some(height) => text(height),
        None => None,
    }
}

/// Reads the announced block height out of a text frame.
pub fn block_height(frame: &str) -> (r: Option<String>)
    ensures
        match r {
            Some(height) => notified_height(frame@) == Some(height@),
            None => notified_height(frame@) is None,
        },
{
    match parse_document(frame) {
        Ok(doc) => block_height_in(&doc),
        Err(_) => None,
    }
}

/// A watcher: the address of the event stream, the query endpoint, and the contracts
/// whose state it keeps fresh.
#[derive(Debug)]
pub struct PoolWatcher {
    websocket_address: String,
    pool_manager: PoolManager,
    pools: Vec<String>,
}

impl PoolWatcher {
    /// The address of the event stream.
    pub closed spec fn stream_address(self) -> Seq<char> {
        self.websocket_address@
    }

    /// The base URL of the query endpoint.
    pub closed spec fn chain_url(self) -> Seq<char> {
        self.pool_manager.chain_url@
    }

    /// The contract addresses, in the order in which they are queried.
    pub closed spec fn addresses(self) -> Seq<String> {
        self.pools@
    }

    /// The URL of the state query for the address at position `i`.
    pub open spec fn url_at(self, i: int) -> Seq<char> {
        spec_query_url(self.chain_url(), self.addresses()[i]@)
    }

    /// Returns a PoolWatcher
    ///
    /// # Arguments
    ///
    /// * `websocket_address` - websocket url to the terra node (ex: ws://172.16.0.1:26657/websocket)
    /// * `chain_url` - URL to the terra LCD (ex: http://lcd.terra.dev)
    /// * `pools` - String list that represent the pools contract to keep updated ex (&["terraXXX","terraYYY"])
    pub fn new(websocket_address: &str, chain_url: &str, pools: &[String]) -> (watcher: Self)
        ensures
            watcher.stream_address() == websocket_address@,
            watcher.chain_url() == chain_url@,
            watcher.addresses() == pools@,
    {
        let mut contracts: Vec<String> = Vec::new();
        let mut i: usize = 0;
        while i < pools.len()
            invariant
                i <= pools@.len(),
                contracts@ == pools@.take(i as int),
            decreases pools@.len() - i,
        {
            contracts.push(pools[i].clone());
            proof {
                assert(contracts@ =~= pools@.take(i + 1));
            }
            i += 1;
        }
        proof {
            assert(pools@.take(i as int) =~= pools@);
        }
        PoolWatcher {
            websocket_address: websocket_address.to_owned(),
            pool_manager: PoolManager { chain_url: chain_url.to_owned() },
            pools: contracts,
        }
    }

    /// What the loop does, in `WaitingForMessage`, with a text frame: a frame that
    /// announces a block starts a refresh cycle, which with no address to query is
    /// complete at once; any other text is passed over.
    pub open spec fn after_text(self, notified: bool) -> (LoopStateView, ActionView) {
        if !notified {
            (LoopStateView::WaitingForMessage, ActionView::Wait)
        } else if self.addresses().len() == 0 {
            (LoopStateView::WaitingForMessage, ActionView::Publish(Map::empty()))
        } else {
            (
                LoopStateView::Dispatching { next: 0, pools: Map::empty() },
                ActionView::Query(self.url_at(0)),
            )
        }
    }

    /// What the loop does, in `Dispatching`, with what the reply for the address at
    /// `next` gave: a state is recorded under that address, and nothing for a reply that
    /// gave none; then the next address is queried, or, after the last one, the snapshot
    /// is published.
    pub open spec fn after_reply(
        self,
        next: nat,
        pools: Map<Seq<char>, PoolState>,
        pool: Option<PoolState>,
    ) -> (LoopStateView, ActionView) {
        let recorded = if next < self.addresses().len() && pool is Some {
            pools.insert(self.addresses()[next as int]@, pool->Some_0)
        } else {
            pools
        };
        if next + 1 < self.addresses().len() {
            (
                LoopStateView::Dispatching { next: next + 1, pools: recorded },
                ActionView::Query(self.url_at((next + 1) as int)),
            )
        } else {
            (LoopStateView::WaitingForMessage, ActionView::Publish(recorded))
        }
    }

    /// One step of the loop: the state after an event, and what the driver is asked to
    /// do. A closed loop stays closed. While the loop waits for a message, a frame that
    /// is neither a text, a ping nor a close is passed over, and so is a failure to
    /// receive: the loop waits on. A pong that could not be sent ends the loop. While a
    /// cycle is under way the loop takes nothing but replies.
    pub open spec fn spec_step(self, state: LoopStateView, event: LoopEvent) -> (
        LoopStateView,
        ActionView,
    ) {
        match state {
            LoopStateView::Closed => (LoopStateView::Closed, ActionView::Stop),
            LoopStateView::WaitingForMessage => match event {
                LoopEvent::Frame(Frame::Text(frame)) => self.after_text(
                    notified_height(frame@) is Some,
                ),
                LoopEvent::Frame(Frame::Ping(payload)) => (
                    LoopStateView::WaitingForMessage,
                    ActionView::SendPong(payload@),
                ),
                LoopEvent::Frame(Frame::Close) => (LoopStateView::Closed, ActionView::Stop),
                LoopEvent::PongFailed => (LoopStateView::Closed, ActionView::Stop),
                _ => (LoopStateView::WaitingForMessage, ActionView::Wait),
            },
            LoopStateView::Dispatching { next, pools } => match event {
                LoopEvent::Reply(reply) => self.after_reply(next, pools, reply.spec_pool()),
                _ => (state, ActionView::Wait),
            },
        }
    }

    /// The address of the event stream.
    pub fn websocket_address(&self) -> (address: &str)
        ensures
            address@ == self.stream_address(),
    {
        self.websocket_address.as_str()
    }

    /// The query endpoint.
    pub fn pool_manager(&self) -> (manager: &PoolManager)
        ensures
            manager.chain_url@ == self.chain_url(),
    {
        &self.pool_manager
    }

    /// The contract addresses, in the order in which they are queried.
    pub fn pools(&self) -> (pools: &[String])
        ensures
            pools@ == self.addresses(),
    {
        self.pools.as_slice()
    }

    /// The state in which the loop starts.
    pub fn initial_state() -> (state: LoopState)
        ensures
            state@ == LoopStateView::WaitingForMessage,
    {
        LoopState::WaitingForMessage
    }

    /// Carries on, in `WaitingForMessage`, from a text frame of which the announced
    /// block height, if any, has been read.
    pub fn on_text(&self, height: Option<String>) -> (r: (LoopState, Action))
        ensures
            (r.0@, r.1@) == self.after_text(height is Some),
    {
        if height.is_none() {
            (LoopState::WaitingForMessage, Action::Wait)
        } else if self.pools.len() == 0 {
            (LoopState::WaitingForMessage, Action::Publish(PoolEvent::UpdatedPool(PoolStateMap::new())))
        } else {
            let url = self.pool_manager.query_url(self.pools[0].as_str());
            (LoopState::Dispatching { next: 0, pools: PoolStateMap::new() }, Action::Query(url))
        }
    }

    /// Carries on, in `Dispatching`, from the reply for the address at `next`, of which
    /// the pool state, if any, has been read.
    pub fn on_reply(&self, next: usize, pools: PoolStateMap, pool: Option<PoolData>) -> (r: (
        LoopState,
        Action,
    ))
        ensures
            (r.0@, r.1@) == self.after_reply(
                next as nat,
                pools@,
                match pool {
                    Some(p) => Some(p@),
                    None => None,
                },
            ),
    {
        let mut pools = pools;
        if next < self.pools.len() {
            match pool {
                Some(p) => {
                    pools.insert(self.pools[next].clone(), p);
                },
                None => {},
            }
        }
        if next < self.pools.len() && next + 1 < self.pools.len() {
            let url = self.pool_manager.query_url(self.pools[next + 1].as_str());
            (LoopState::Dispatching { next: next + 1, pools }, Action::Query(url))
        } else {
            (LoopState::WaitingForMessage, Action::Publish(PoolEvent::UpdatedPool(pools)))
        }
    }

    /// Takes one step of the loop.
    pub fn step(&self, state: LoopState, event: LoopEvent) -> (r: (LoopState, Action))
        ensures
            (r.0@, r.1@) == self.spec_step(state@, event),
    {
        match state {
            LoopState::Closed => (LoopState::Closed, Action::Stop),
            LoopState::WaitingForMessage => match event {
                LoopEvent::Frame(Frame::Text(frame)) => {
                    let height = block_height(frame.as_str());
                    self.on_text(height)
                },
                LoopEvent::Frame(Frame::Ping(payload)) => (
                    LoopState::WaitingForMessage,
                    Action::SendPong(payload),
                ),
                LoopEvent::Frame(Frame::Close) => (LoopState::Closed, Action::Stop),
                LoopEvent::PongFailed => (LoopState::Closed, Action::Stop),
                _ => (LoopState::WaitingForMessage, Action::Wait),
            },
            LoopState::Dispatching { next, pools } => match event {
                LoopEvent::Reply(reply) => {
                    let pool = reply.pool();
                    self.on_reply(next, pools, pool)
                },
                _ => (LoopState::Dispatching { next, pools }, Action::Wait),
            },
        }
    }
}

impl PoolWatcher {
    /// The loop run over a sequence of events: the state that it ends in, and what it
    /// asked of its driver after each event.
    pub open spec fn run(self, state: LoopStateView, events: Seq<LoopEvent>) -> (
        LoopStateView,
        Seq<ActionView>,
    )
        decreases events.len(),
    {
        if events.len() == 0 {
            (state, Seq::empty())
        } else {
            let (before, actions) = self.run(state, events.drop_last());
            let (after, action) = self.spec_step(before, events.last());
            (after, actions.push(action))
        }
    }

    /// The events of one refresh cycle: the text frame that announces the block, then
    /// the reply for each address in turn.
    pub open spec fn cycle_events(frame: String, replies: Seq<QueryReply>) -> Seq<LoopEvent> {
        seq![LoopEvent::Frame(Frame::Text(frame))] + replies.map_values(
            |reply: QueryReply| LoopEvent::Reply(reply),
        )
    }

    /// A run asks something of its driver once for each event.
    pub proof fn lemma_run_len(self, state: LoopStateView, events: Seq<LoopEvent>)
        ensures
            self.run(state, events).1.len() == events.len(),
        decreases events.len(),
    {
        if events.len() > 0 {
            self.lemma_run_len(state, events.drop_last());
        }
    }

    /// A run over two sequences of events, one after the other, is the run over the first
    /// followed by the run over the second from the state in which the first ended.
    pub proof fn lemma_run_concat(
        self,
        state: LoopStateView,
        first: Seq<LoopEvent>,
        second: Seq<LoopEvent>,
    )
        ensures
            self.run(state, first + second).0 == self.run(self.run(state, first).0, second).0,
            self.run(state, first + second).1 == self.run(state, first).1 + self.run(
                self.run(state, first).0,
                second,
            ).1,
        decreases second.len(),
    {
        let middle = self.run(state, first).0;
        if second.len() == 0 {
            assert(first + second =~= first);
            assert(self.run(state, first).1 + self.run(middle, second).1 =~= self.run(
                state,
                first,
            ).1);
        } else {
            self.lemma_run_concat(state, first, second.drop_last());
            assert((first + second).drop_last() =~= first + second.drop_last());
            assert((first + second).last() == second.last());
            assert(self.run(state, first + second).1 =~= self.run(state, first).1 + self.run(
                middle,
                second,
            ).1);
        }
    }

    /// A ping frame, received while the loop waits for a message, is answered by one
    /// pong with the same payload, and the loop waits for the next message.
    pub proof fn lemma_ping_is_answered(self, payload: Vec<u8>)
        ensures
            self.spec_step(
                LoopStateView::WaitingForMessage,
                LoopEvent::Frame(Frame::Ping(payload)),
            ) == (LoopStateView::WaitingForMessage, ActionView::SendPong(payload@)),
    {
    }

    /// A close frame, received while the loop waits for a message, ends the loop.
    pub proof fn lemma_close_ends_loop(self)
        ensures
            self.spec_step(LoopStateView::WaitingForMessage, LoopEvent::Frame(Frame::Close)) == (
                LoopStateView::Closed,
                ActionView::Stop,
            ),
    {
    }

    /// A loop that has ended stays ended whatever arrives, and asks for nothing but to
    /// stop: it publishes no further event.
    pub proof fn lemma_closed_is_final(self, events: Seq<LoopEvent>)
        ensures
            self.run(LoopStateView::Closed, events).0 == LoopStateView::Closed,
            self.run(LoopStateView::Closed, events).1.len() == events.len(),
            forall|i: int|
                0 <= i < events.len() ==> #[trigger] self.run(LoopStateView::Closed, events).1[i]
                    == ActionView::Stop,
        decreases events.len(),
    {
        if events.len() > 0 {
            self.lemma_closed_is_final(events.drop_last());
        }
    }

    /// Once a close frame has been received while the loop waited for a message, nothing
    /// that arrives afterwards makes the loop publish, query or send: the close frame
    /// and every later event are answered by `Stop`.
    pub proof fn lemma_nothing_after_close(
        self,
        state: LoopStateView,
        events: Seq<LoopEvent>,
        at: int,
    )
        requires
            0 <= at < events.len(),
            self.run(state, events.take(at)).0 == LoopStateView::WaitingForMessage,
            events[at] == LoopEvent::Frame(Frame::Close),
        ensures
            self.run(state, events).0 == LoopStateView::Closed,
            self.run(state, events).1.len() == events.len(),
            forall|i: int|
                at <= i < events.len() ==> #[trigger] self.run(state, events).1[i]
                    == ActionView::Stop,
        decreases events.len(),
    {
        let front = events.drop_last();
        self.lemma_run_len(state, events);
        self.lemma_run_len(state, front);
        if at == events.len() - 1 {
            assert(events.take(at) =~= front);
        } else {
            assert(front.take(at) =~= events.take(at));
            self.lemma_nothing_after_close(state, front, at);
        }
    }

    /// The first part of a refresh cycle: after the announcing frame and the replies for
    /// the first `k` addresses, the loop has asked for the query of each address up to
    /// position `k`, in order, and holds what those replies gave.
    pub proof fn lemma_cycle_progress(self, frame: String, replies: Seq<QueryReply>, k: int)
        requires
            notified_height(frame@) is Some,
            0 <= k < self.addresses().len(),
            k <= replies.len(),
        ensures
            self.run(
                LoopStateView::WaitingForMessage,
                Self::cycle_events(frame, replies.take(k)),
            ).0 == (LoopStateView::Dispatching {
                next: k as nat,
                pools: refreshed(self.addresses().take(k), replies),
            }),
            self.run(
                LoopStateView::WaitingForMessage,
                Self::cycle_events(frame, replies.take(k)),
            ).1.len() == k + 1,
            forall|i: int|
                0 <= i <= k ==> #[trigger] self.run(
                    LoopStateView::WaitingForMessage,
                    Self::cycle_events(frame, replies.take(k)),
                ).1[i] == ActionView::Query(self.url_at(i)),
        decreases k,
    {
        let start = LoopStateView::WaitingForMessage;
        let events = Self::cycle_events(frame, replies.take(k));
        if k == 0 {
            assert(events.drop_last() =~= Seq::<LoopEvent>::empty());
            assert(events.last() == LoopEvent::Frame(Frame::Text(frame)));
            assert(self.run(start, events.drop_last()) == (start, Seq::<ActionView>::empty()));
            assert(self.addresses().take(0) =~= Seq::<String>::empty());
        } else {
            self.lemma_cycle_progress(frame, replies, k - 1);
            let front = Self::cycle_events(frame, replies.take(k - 1));
            assert(events.drop_last() =~= front);
            assert(events.last() == LoopEvent::Reply(replies[k - 1]));
            assert(self.addresses().take(k).drop_last() =~= self.addresses().take(k - 1));
        }
    }

    /// One refresh cycle, whole: from the frame that announces a block and the reply for
    /// each address in turn, the loop asks for the query of each address in order, then
    /// publishes, once and after the last reply, the snapshot that the replies give, and
    /// waits for the next message.
    pub proof fn lemma_cycle_publishes_snapshot(self, frame: String, replies: Seq<QueryReply>)
        requires
            notified_height(frame@) is Some,
            replies.len() == self.addresses().len(),
        ensures
            self.run(LoopStateView::WaitingForMessage, Self::cycle_events(frame, replies)).0
                == LoopStateView::WaitingForMessage,
            self.run(LoopStateView::WaitingForMessage, Self::cycle_events(frame, replies)).1.len()
                == replies.len() + 1,
            forall|i: int|
                0 <= i < replies.len() ==> #[trigger] self.run(
                    LoopStateView::WaitingForMessage,
                    Self::cycle_events(frame, replies),
                ).1[i] == ActionView::Query(self.url_at(i)),
            self.run(LoopStateView::WaitingForMessage, Self::cycle_events(frame, replies)).1.last()
                == ActionView::Publish(refreshed(self.addresses(), replies)),
    {
        let start = LoopStateView::WaitingForMessage;
        let events = Self::cycle_events(frame, replies);
        let n = replies.len() as int;
        if n == 0 {
            assert(events.drop_last() =~= Seq::<LoopEvent>::empty());
            assert(events.last() == LoopEvent::Frame(Frame::Text(frame)));
            assert(self.run(start, events.drop_last()) == (start, Seq::<ActionView>::empty()));
        } else {
            self.lemma_cycle_progress(frame, replies, n - 1);
            let front = Self::cycle_events(frame, replies.take(n - 1));
            assert(events.drop_last() =~= front);
            assert(events.last() == LoopEvent::Reply(replies[n - 1]));
            assert(self.addresses().drop_last() =~= self.addresses().take(n - 1));
        }
    }

    /// Two refresh cycles, one after the other: the loop asks for the queries of the
    /// first cycle and publishes its snapshot before it asks for any query of the second,
    /// and the two snapshots are published in the order in which the blocks were
    /// announced.
    pub proof fn lemma_cycles_follow_in_order(
        self,
        first_frame: String,
        first_replies: Seq<QueryReply>,
        second_frame: String,
        second_replies: Seq<QueryReply>,
    )
        requires
            notified_height(first_frame@) is Some,
            notified_height(second_frame@) is Some,
            first_replies.len() == self.addresses().len(),
            second_replies.len() == self.addresses().len(),
        ensures
            self.run(
                LoopStateView::WaitingForMessage,
                Self::cycle_events(first_frame, first_replies) + Self::cycle_events(
                    second_frame,
                    second_replies,
                ),
            ) == (
                LoopStateView::WaitingForMessage,
                self.run(
                    LoopStateView::WaitingForMessage,
                    Self::cycle_events(first_frame, first_replies),
                ).1 + self.run(
                    LoopStateView::WaitingForMessage,
                    Self::cycle_events(second_frame, second_replies),
                ).1,
            ),
    {
        self.lemma_cycle_publishes_snapshot(first_frame, first_replies);
        self.lemma_cycle_publishes_snapshot(second_frame, second_replies);
        self.lemma_run_concat(
            LoopStateView::WaitingForMessage,
            Self::cycle_events(first_frame, first_replies),
            Self::cycle_events(second_frame, second_replies),
        );
    }
}

} // verus!
