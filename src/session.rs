use vstd::prelude::*;
use crate::command::Command;
use crate::config::Config;
use crate::error::SmuxError;
use crate::frame::{Frame, FrameView};
use crate::stream_id::{lemma_local_ids_distinct, local_id, peer_id_ok, StreamIdGenerator};

verus! {

#[verifier::external_type_specification]
#[verifier::external_body]
#[verifier::reject_recursive_types(T)]
pub struct ExSender<T>(flume::Sender<T>);

#[verifier::external_type_specification]
#[verifier::external_body]
#[verifier::reject_recursive_types(T)]
pub struct ExReceiver<T>(flume::Receiver<T>);

#[verifier::external_type_specification]
#[verifier::external_body]
#[verifier::reject_recursive_types(K)]
#[verifier::reject_recursive_types(V)]
#[verifier::reject_recursive_types(S)]
pub struct ExDashMap<K, V, S>(dashmap::DashMap<K, V, S>);

/// The sending half of a stream's inbound payload queue.
pub type DataSender = flume::Sender<Vec<u8>>;

/// The receiving half of a stream's inbound payload queue.
pub type DataReceiver = flume::Receiver<Vec<u8>>;

/// The stream registry: for each registered stream id, the sender of that
/// stream's inbound payload queue.
pub type Registry = dashmap::DashMap<u32, flume::Sender<Vec<u8>>>;

/// The ids that hold an entry in a registry.
pub uninterp spec fn registry_ids(m: dashmap::DashMap<u32, flume::Sender<Vec<u8>>>) -> Set<u32>;

/// Relies on `DashMap::new`: the new map holds no entry.
#[verifier::external_body]
fn registry_new() -> (r: Registry)
    ensures
        registry_ids(r) == Set::<u32>::empty(),
{
    dashmap::DashMap::new()
}

/// Relies on `DashMap::contains_key`: whether `id` holds an entry.
#[verifier::external_body]
fn registry_contains(m: &Registry, id: u32) -> (r: bool)
    ensures
        r == registry_ids(*m).contains(id),
{
    m.contains_key(&id)
}

/// Relies on `DashMap::insert`: afterwards `id` holds an entry, whose value
/// is `tx`, and no other id changes.
#[verifier::external_body]
fn registry_insert(m: &mut Registry, id: u32, tx: DataSender)
    ensures
        registry_ids(*final(m)) == registry_ids(*old(m)).insert(id),
{
    m.insert(id, tx);
}

/// Relies on `DashMap::remove`: afterwards `id` holds no entry; the removed
/// value comes back exactly when there was one.
#[verifier::external_body]
fn registry_remove(m: &mut Registry, id: u32) -> (r: Option<DataSender>)
    ensures
        registry_ids(*final(m)) == registry_ids(*old(m)).remove(id),
        r.is_some() == registry_ids(*old(m)).contains(id),
{
    m.remove(&id).map(|(_, tx)| tx)
}

/// Relies on `DashMap::get`: a handle on the sender registered for `id`,
/// exactly when `id` holds an entry.
#[verifier::external_body]
fn registry_get(m: &Registry, id: u32) -> (r: Option<DataSender>)
    ensures
        r.is_some() == registry_ids(*m).contains(id),
{
    m.get(&id).map(|e| e.value().clone())
}

/// Relies on `flume::unbounded`: a new inbound payload queue.
#[verifier::external_body]
fn data_channel() -> (r: (DataSender, DataReceiver)) {
    flume::unbounded()
}

/// The capacity that an accept queue was made with.
pub uninterp spec fn accept_queue_bound(rx: flume::Receiver<AcceptedStream>) -> usize;

/// Relies on `flume::bounded`: a new accept queue that holds at most `cap`
/// streams.
#[verifier::external_body]
fn accept_channel(cap: usize) -> (r: (flume::Sender<AcceptedStream>, flume::Receiver<AcceptedStream>))
    ensures
        accept_queue_bound(r.1) == cap,
{
    flume::bounded(cap)
}

/// Relies on `flume::Sender::try_send`: queues `msg` without waiting; false
/// when the queue is full or its receivers have gone away.
#[verifier::external_body]
fn chan_try_send<T>(tx: &flume::Sender<T>, msg: T) -> (r: bool) {
    tx.try_send(msg).is_ok()
}

/// Relies on `flume::Receiver::try_recv`: the oldest queued item, if one is
/// there, taken without waiting.
#[verifier::external_body]
fn chan_try_recv<T>(rx: &flume::Receiver<T>) -> (r: Option<T>) {
    rx.try_recv().ok()
}

/// Relies on `flume::Receiver`'s `Clone`: another handle on the same queue.
#[verifier::external_body]
fn chan_receiver<T>(rx: &flume::Receiver<T>) -> (r: flume::Receiver<T>) {
    rx.clone()
}

/// How many streams opened by the peer may wait to be accepted.
pub const ACCEPT_BACKLOG: usize = 16;

/// Every id in `ids` is nonzero, and one of the local parity was among the
/// first `issued` local ids.
pub open spec fn registry_ok(ids: Set<u32>, is_client: bool, issued: nat) -> bool {
    forall|id: u32| #[trigger]
        ids.contains(id) ==> id != 0 && (peer_id_ok(is_client, id) || id < local_id(is_client, issued))
}

/// A registry that gains at most the id `id`, which meets the rule itself,
/// and loses any others, keeps meeting the rule while more ids are issued.
proof fn lemma_registry_ok_step(
    before: Set<u32>,
    after: Set<u32>,
    is_client: bool,
    issued: nat,
    issued_after: nat,
    id: u32,
)
    requires
        registry_ok(before, is_client, issued),
        issued <= issued_after,
        after.subset_of(before.insert(id)),
        after.contains(id) ==> id != 0 && (peer_id_ok(is_client, id) || id < local_id(
            is_client,
            issued_after,
        )),
    ensures
        registry_ok(after, is_client, issued_after),
{
    assert forall|x: u32| #[trigger] after.contains(x) implies x != 0 && (peer_id_ok(is_client, x)
        || x < local_id(is_client, issued_after)) by {
        if x != id {
            assert(before.contains(x));
        }
    }
}

/// A stream opened locally: its id, the SYN frame that announces it to the
/// peer, and the receiving half of its inbound queue.
pub struct OpenedStream {
    pub id: u32,
    pub syn: Frame,
    pub data_rx: DataReceiver,
}

/// A stream opened by the peer and registered, waiting to be accepted: its
/// id and the receiving half of its inbound queue.
pub struct AcceptedStream {
    pub id: u32,
    pub data_rx: DataReceiver,
}

/// The state of one multiplexing session: the stream registry, the id
/// generator and the closed flag. Every change of registry or flag goes
/// through the methods below.
pub struct Session {
    config: Config,
    streams: Registry,
    id_gen: StreamIdGenerator,
    closed: bool,
    accept_tx: flume::Sender<AcceptedStream>,
    accept_rx: flume::Receiver<AcceptedStream>,
}

impl Session {
    /// The ids of the registered streams.
    pub closed spec fn stream_ids(&self) -> Set<u32> {
        registry_ids(self.streams)
    }

    /// Whether the session is closed.
    pub closed spec fn closed_flag(&self) -> bool {
        self.closed
    }

    /// Whether the session acts as the client (odd local ids).
    pub closed spec fn role_is_client(&self) -> bool {
        self.id_gen.role_is_client()
    }

    /// How many stream ids the session has allocated locally.
    pub closed spec fn issued(&self) -> nat {
        self.id_gen.issued()
    }

    /// Whether one more local stream id is available.
    pub open spec fn has_next_id(&self) -> bool {
        local_id(self.role_is_client(), self.issued()) + 2 <= u32::MAX
    }

    /// The capacity of the accept queue.
    pub closed spec fn accept_bound(&self) -> usize {
        accept_queue_bound(self.accept_rx)
    }

    /// The session's limits.
    pub closed spec fn config_spec(&self) -> Config {
        self.config
    }

    /// Every registered id is nonzero, and one of the local parity was
    /// allocated already.
    pub closed spec fn wf(&self) -> bool {
        &&& self.id_gen.wf()
        &&& registry_ok(
            registry_ids(self.streams),
            self.id_gen.role_is_client(),
            self.id_gen.issued(),
        )
    }

    /// Everything but the registry is as in `other`.
    pub open spec fn same_but_registry(&self, other: &Session) -> bool {
        &&& self.closed_flag() == other.closed_flag()
        &&& self.role_is_client() == other.role_is_client()
        &&& self.issued() == other.issued()
        &&& self.has_next_id() == other.has_next_id()
        &&& self.config_spec() == other.config_spec()
        &&& self.accept_bound() == other.accept_bound()
    }

    fn new(config: Config, is_client: bool) -> (r: Session)
        ensures
            r.wf(),
            r.stream_ids() == Set::<u32>::empty(),
            !r.closed_flag(),
            r.role_is_client() == is_client,
            r.issued() == 0,
            r.has_next_id(),
            r.config_spec() == config,
            r.accept_bound() == ACCEPT_BACKLOG,
    {
        let (accept_tx, accept_rx) = accept_channel(ACCEPT_BACKLOG);
        Session {
            config,
            streams: registry_new(),
            id_gen: StreamIdGenerator::new(is_client),
            closed: false,
            accept_tx,
            accept_rx,
        }
    }

    /// A session that acts as the client: its streams get odd ids.
    pub fn client(config: Config) -> (r: Session)
        ensures
            r.wf(),
            r.stream_ids() == Set::<u32>::empty(),
            !r.closed_flag(),
            r.role_is_client(),
            r.issued() == 0,
            r.has_next_id(),
            r.config_spec() == config,
            r.accept_bound() == ACCEPT_BACKLOG,
    {
        Session::new(config, true)
    }

    /// A session that acts as the server: its streams get even ids.
    pub fn server(config: Config) -> (r: Session)
        ensures
            r.wf(),
            r.stream_ids() == Set::<u32>::empty(),
            !r.closed_flag(),
            !r.role_is_client(),
            r.issued() == 0,
            r.has_next_id(),
            r.config_spec() == config,
            r.accept_bound() == ACCEPT_BACKLOG,
    {
        Session::new(config, false)
    }

    /// The session's limits.
    pub fn config(&self) -> (r: Config)
        ensures
            r == self.config_spec(),
    {
        self.config
    }

    /// Whether the session is closed.
    pub fn is_closed(&self) -> (r: bool)
        ensures
            r == self.closed_flag(),
    {
        self.closed
    }

    /// Whether stream `id` is registered.
    pub fn has_stream(&self, id: u32) -> (r: bool)
        ensures
            r == self.stream_ids().contains(id),
    {
        registry_contains(&self.streams, id)
    }

    /// Marks the session closed, for good; calling it again changes nothing.
    pub fn close(&mut self)
        requires
            old(self).wf(),
        ensures
            final(self).wf(),
            final(self).closed_flag(),
            final(self).stream_ids() == old(self).stream_ids(),
            final(self).role_is_client() == old(self).role_is_client(),
            final(self).issued() == old(self).issued(),
            final(self).has_next_id() == old(self).has_next_id(),
            final(self).config_spec() == old(self).config_spec(),
            final(self).accept_bound() == old(self).accept_bound(),
    {
        self.closed = true;
    }

    /// Opens a stream: allocates the next local id, registers the stream's
    /// inbound queue, and returns the SYN frame to send. Fails with
    /// `SessionClosed` on a closed session and with `IdExhausted` when no id
    /// is left; a failure changes nothing.
    pub fn open_stream(&mut self) -> (r: Result<OpenedStream, SmuxError>)
        requires
            old(self).wf(),
        ensures
            final(self).wf(),
            final(self).closed_flag() == old(self).closed_flag(),
            final(self).role_is_client() == old(self).role_is_client(),
            final(self).config_spec() == old(self).config_spec(),
            final(self).accept_bound() == old(self).accept_bound(),
            old(self).closed_flag() ==> r == Err::<OpenedStream, SmuxError>(
                SmuxError::SessionClosed,
            ),
            !old(self).closed_flag() && !old(self).has_next_id() ==> r == Err::<
                OpenedStream,
                SmuxError,
            >(SmuxError::IdExhausted),
            r.is_err() ==> *final(self) == *old(self),
            r.is_ok() <==> !old(self).closed_flag() && old(self).has_next_id(),
            match r {
                Ok(s) => {
                    &&& s.id as int == local_id(old(self).role_is_client(), old(self).issued())
                    &&& !old(self).stream_ids().contains(s.id)
                    &&& final(self).stream_ids() == old(self).stream_ids().insert(s.id)
                    &&& final(self).issued() == old(self).issued() + 1
                    &&& s.syn@ == (FrameView {
                        version: old(self).config_spec().version,
                        cmd: Command::Syn,
                        stream_id: s.id,
                        data: Seq::empty(),
                    })
                },
                Err(_) => true,
            },
    {
        if self.closed {
            return Err(SmuxError::SessionClosed);
        }
        let ghost before = self.stream_ids();
        let ghost issued_before = self.issued();
        let id = match self.id_gen.next() {
            Ok(id) => id,
            Err(e) => {
                return Err(e);
            },
        };
        let (data_tx, data_rx) = data_channel();
        registry_insert(&mut self.streams, id, data_tx);
        proof {
            lemma_registry_ok_step(
                before,
                self.stream_ids(),
                self.role_is_client(),
                issued_before,
                self.issued(),
                id,
            );
        }
        let syn = Frame::new_syn(self.config.version, id);
        Ok(OpenedStream { id, syn, data_rx })
    }

    /// Takes stream `id` out of the registry, dropping its inbound sender so
    /// that the stream's reader sees end of input. Returns whether it was
    /// registered; an unknown id is left alone.
    pub fn remove_stream(&mut self, id: u32) -> (r: bool)
        requires
            old(self).wf(),
        ensures
            final(self).wf(),
            final(self).same_but_registry(old(self)),
            final(self).stream_ids() == old(self).stream_ids().remove(id),
            r == old(self).stream_ids().contains(id),
            !r ==> *final(self) == *old(self),
    {
        if !registry_contains(&self.streams, id) {
            return false;
        }
        let ghost before = self.stream_ids();
        let ghost issued_before = self.issued();
        let removed = registry_remove(&mut self.streams, id);
        proof {
            lemma_registry_ok_step(
                before,
                self.stream_ids(),
                self.role_is_client(),
                issued_before,
                self.issued(),
                id,
            );
        }
        removed.is_some()
    }

    /// What follows an attempt to queue stream `id`, just registered, for
    /// acceptance: when it could not be queued (the accept queue is full or
    /// gone) the registration is undone, as if the stream had never existed,
    /// and the result is `SessionClosed`.
    pub fn settle_admission(&mut self, id: u32, queued: bool) -> (r: Result<(), SmuxError>)
        requires
            old(self).wf(),
        ensures
            final(self).wf(),
            final(self).same_but_registry(old(self)),
            queued ==> r == Ok::<(), SmuxError>(()) && *final(self) == *old(self),
            !queued ==> r == Err::<(), SmuxError>(SmuxError::SessionClosed) && final(
                self).stream_ids() == old(self).stream_ids().remove(id),
    {
        if queued {
            Ok(())
        } else {
            self.remove_stream(id);
            Err(SmuxError::SessionClosed)
        }
    }

    /// Registers stream `id`, opened by the peer, with a new inbound queue,
    /// and returns the handle to offer for acceptance: that id and the
    /// queue's receiving half. An id that the peer may not use is refused
    /// with `InvalidPeerStreamId`, an id already registered with
    /// `StreamAlreadyExists`, and a refusal changes nothing.
    pub fn register_peer_stream(&mut self, id: u32) -> (r: Result<AcceptedStream, SmuxError>)
        requires
            old(self).wf(),
        ensures
            final(self).wf(),
            final(self).same_but_registry(old(self)),
            !peer_id_ok(old(self).role_is_client(), id) ==> r == Err::<AcceptedStream, SmuxError>(
                SmuxError::InvalidPeerStreamId(id),
            ),
            peer_id_ok(old(self).role_is_client(), id) && old(self).stream_ids().contains(id) ==> r
                == Err::<AcceptedStream, SmuxError>(SmuxError::StreamAlreadyExists(id)),
            r.is_err() ==> *final(self) == *old(self),
            peer_id_ok(old(self).role_is_client(), id) && !old(self).stream_ids().contains(id) ==> {
                &&& r.is_ok()
                &&& r->Ok_0.id == id
                &&& final(self).stream_ids() == old(self).stream_ids().insert(id)
            },
    {
        match self.id_gen.validate_peer_stream_id(id) {
            Ok(()) => {},
            Err(e) => {
                return Err(e);
            },
        }
        if registry_contains(&self.streams, id) {
            return Err(SmuxError::StreamAlreadyExists(id));
        }
        let ghost before = self.stream_ids();
        let ghost issued_before = self.issued();
        let (data_tx, data_rx) = data_channel();
        registry_insert(&mut self.streams, id, data_tx);
        proof {
            lemma_registry_ok_step(
                before,
                self.stream_ids(),
                self.role_is_client(),
                issued_before,
                self.issued(),
                id,
            );
        }
        Ok(AcceptedStream { id, data_rx })
    }

    /// A SYN from the peer: registers stream `id` and offers the handle that
    /// `register_peer_stream` returns, without waiting, on the accept queue; when the queue does not take it, the
    /// registration is undone and the result is `SessionClosed`. An id that
    /// the peer may not use is refused with `InvalidPeerStreamId`, an id
    /// already registered with `StreamAlreadyExists`, and then nothing
    /// changes: the registered stream stays as it was.
    pub fn handle_syn_frame(&mut self, frame: Frame) -> (r: Result<(), SmuxError>)
        requires
            old(self).wf(),
        ensures
            final(self).wf(),
            final(self).same_but_registry(old(self)),
            !peer_id_ok(old(self).role_is_client(), frame.stream_id) ==> r == Err::<(), SmuxError>(
                SmuxError::InvalidPeerStreamId(frame.stream_id),
            ) && *final(self) == *old(self),
            peer_id_ok(old(self).role_is_client(), frame.stream_id) && old(self).stream_ids().contains(
                frame.stream_id,
            ) ==> r == Err::<(), SmuxError>(SmuxError::StreamAlreadyExists(frame.stream_id)) && *final(
                self) == *old(self),
            peer_id_ok(old(self).role_is_client(), frame.stream_id) && !old(self).stream_ids().contains(
                frame.stream_id,
            ) ==> {
                ||| r == Ok::<(), SmuxError>(()) && final(self).stream_ids() == old(
                    self).stream_ids().insert(frame.stream_id)
                ||| r == Err::<(), SmuxError>(SmuxError::SessionClosed) && final(self).stream_ids()
                    == old(self).stream_ids()
            },
    {
        let id = frame.stream_id;
        let ghost before = self.stream_ids();
        match self.register_peer_stream(id) {
            Ok(accepted) => {
                let queued = chan_try_send(&self.accept_tx, accepted);
                let r = self.settle_admission(id, queued);
                assert(before.insert(id).remove(id) =~= before);
                r
            },
            Err(e) => Err(e),
        }
    }

    /// The next stream opened by the peer, taken without waiting: none on a
    /// closed session, nor while the accept queue is empty.
    pub fn accept_stream(&self) -> (r: Option<AcceptedStream>)
        ensures
            self.closed_flag() ==> r.is_none(),
    {
        if self.closed {
            return None;
        }
        chan_try_recv(&self.accept_rx)
    }

    /// A handle on the accept queue, for a caller that waits for streams.
    pub fn accept_queue(&self) -> (r: flume::Receiver<AcceptedStream>) {
        chan_receiver(&self.accept_rx)
    }

    /// A FIN from the peer: the stream leaves the registry and its reader
    /// sees end of input. An id with no entry is a no-op.
    pub fn handle_fin_frame(&mut self, frame: Frame)
        requires
            old(self).wf(),
        ensures
            final(self).wf(),
            final(self).same_but_registry(old(self)),
            final(self).stream_ids() == old(self).stream_ids().remove(frame.stream_id),
            !old(self).stream_ids().contains(frame.stream_id) ==> *final(self) == *old(self),
    {
        self.remove_stream(frame.stream_id);
    }

    /// What follows an attempt to queue a payload for stream `id`: when the
    /// stream's reader had gone away the stream leaves the registry, as if
    /// closed; otherwise nothing changes.
    pub fn settle_delivery(&mut self, id: u32, delivered: bool)
        requires
            old(self).wf(),
        ensures
            final(self).wf(),
            final(self).same_but_registry(old(self)),
            delivered ==> *final(self) == *old(self),
            !delivered ==> final(self).stream_ids() == old(self).stream_ids().remove(id),
    {
        if !delivered {
            self.remove_stream(id);
        }
    }

    /// What a PSH frame hands on: for a registered stream and a nonempty
    /// payload, the sender of that stream's inbound queue together with the
    /// payload, unchanged; otherwise nothing.
    pub fn psh_delivery(&self, frame: Frame) -> (r: Option<(DataSender, Vec<u8>)>)
        ensures
            r.is_some() <==> self.stream_ids().contains(frame.stream_id) && frame.data@.len() > 0,
            r.is_some() ==> r->Some_0.1@ == frame.data@,
    {
        if frame.data.len() == 0 {
            return None;
        }
        match registry_get(&self.streams, frame.stream_id) {
            Some(tx) => Some((tx, frame.data)),
            None => None,
        }
    }

    /// A PSH from the peer: what `psh_delivery` hands on goes, without
    /// waiting, onto the inbound queue of its stream. A frame for an unregistered stream,
    /// or with an empty payload, changes nothing; a stream whose reader has
    /// gone away is deregistered.
    pub fn handle_psh_frame(&mut self, frame: Frame)
        requires
            old(self).wf(),
        ensures
            final(self).wf(),
            final(self).same_but_registry(old(self)),
            !old(self).stream_ids().contains(frame.stream_id) || frame.data@.len() == 0 ==> *final(self) == *old(self),
            final(self).stream_ids() == old(self).stream_ids() || final(self).stream_ids() == old(self).stream_ids().remove(frame.stream_id),
    {
        let id = frame.stream_id;
        match self.psh_delivery(frame) {
            Some((tx, data)) => {
                let delivered = chan_try_send(&tx, data);
                self.settle_delivery(id, delivered);
            },
            None => {},
        }
    }

    /// An UPD from the peer: its fields were read by the codec; in this
    /// protocol it changes nothing.
    pub fn handle_upd_frame(&mut self, frame: Frame)
        ensures
            *final(self) == *old(self),
    {
    }

    /// Dispatches one frame from the peer by its command; see each handler
    /// for its effect. Only a SYN can fail, and a failure concerns that one
    /// stream, never the session.
    pub fn handle_frame(&mut self, frame: Frame) -> (r: Result<(), SmuxError>)
        requires
            old(self).wf(),
        ensures
            final(self).wf(),
            final(self).same_but_registry(old(self)),
            match frame.cmd {
                Command::Syn => {
                    &&& !peer_id_ok(old(self).role_is_client(), frame.stream_id) ==> r == Err::<
                        (),
                        SmuxError,
                    >(SmuxError::InvalidPeerStreamId(frame.stream_id)) && *final(self) == *old(self)
                    &&& peer_id_ok(old(self).role_is_client(), frame.stream_id) && old(
                        self).stream_ids().contains(frame.stream_id) ==> r == Err::<(), SmuxError>(
                        SmuxError::StreamAlreadyExists(frame.stream_id),
                    ) && *final(self) == *old(self)
                    &&& peer_id_ok(old(self).role_is_client(), frame.stream_id) && !old(
                        self).stream_ids().contains(frame.stream_id) ==> {
                        ||| r == Ok::<(), SmuxError>(()) && final(self).stream_ids() == old(
                            self).stream_ids().insert(frame.stream_id)
                        ||| r == Err::<(), SmuxError>(SmuxError::SessionClosed) && final(
                            self).stream_ids() == old(self).stream_ids()
                    }
                },
                Command::Fin => {
                    &&& r == Ok::<(), SmuxError>(())
                    &&& final(self).stream_ids() == old(self).stream_ids().remove(frame.stream_id)
                    &&& !old(self).stream_ids().contains(frame.stream_id) ==> *final(self) == *old(self)
                },
                Command::Psh => {
                    &&& r == Ok::<(), SmuxError>(())
                    &&& !old(self).stream_ids().contains(frame.stream_id) || frame.data@.len() == 0
                        ==> *final(self) == *old(self)
                    &&& final(self).stream_ids() == old(self).stream_ids() || final(self).stream_ids()
                        == old(self).stream_ids().remove(frame.stream_id)
                },
                _ => {
                    &&& r == Ok::<(), SmuxError>(())
                    &&& *final(self) == *old(self)
                },
            },
    {
        match frame.cmd {
            Command::Syn => self.handle_syn_frame(frame),
            Command::Fin => {
                self.handle_fin_frame(frame);
                Ok(())
            },
            Command::Psh => {
                self.handle_psh_frame(frame);
                Ok(())
            },
            Command::Upd { .. } => {
                self.handle_upd_frame(frame);
                Ok(())
            },
            Command::Nop => Ok(()),
        }
    }
}

/// One successful `open_stream` from state `a` to state `b` returning `id`,
/// as that function's contract states it.
pub open spec fn opened_one(a: Session, b: Session, id: u32) -> bool {
    &&& b.role_is_client() == a.role_is_client()
    &&& id as int == local_id(a.role_is_client(), a.issued())
    &&& !a.stream_ids().contains(id)
    &&& b.stream_ids() == a.stream_ids().insert(id)
    &&& b.issued() == a.issued() + 1
}

/// Any number of successful `open_stream` calls on one session, in any
/// order among the callers (each call sees the state the previous one
/// left), yield pairwise distinct nonzero ids of the session's parity, the
/// next ids of its sequence; the registry gains exactly those ids, one entry
/// each, and keeps every entry it had.
pub proof fn lemma_successive_opens(states: Seq<Session>, ids: Seq<u32>)
    requires
        states.len() == ids.len() + 1,
        forall|i: int| 0 <= i < ids.len() ==> #[trigger] opened_one(states[i], states[i + 1], ids[i]),
    ensures
        forall|i: int| 0 <= i < ids.len() ==> {
            &&& ids[i] as int == local_id(states[0].role_is_client(), states[0].issued() + i as nat)
            &&& ids[i] != 0
            &&& (ids[i] % 2 == 1) == states[0].role_is_client()
            &&& !states[0].stream_ids().contains(ids[i])
        },
        forall|i: int, j: int| 0 <= i < j < ids.len() ==> ids[i] != ids[j],
        states.last().stream_ids() == states[0].stream_ids().union(ids.to_set()),
        states.last().role_is_client() == states[0].role_is_client(),
        states.last().issued() == states[0].issued() + ids.len(),
        states[0].stream_ids().finite() ==> states.last().stream_ids().len() == states[0].stream_ids().len()
            + ids.len(),
    decreases ids.len(),
{
    let n = ids.len() as int;
    if n == 0 {
        assert(ids.to_set() =~= Set::<u32>::empty());
        assert(states[0].stream_ids().union(ids.to_set()) =~= states[0].stream_ids());
    } else {
        let ps = states.drop_last();
        let pi = ids.drop_last();
        assert forall|i: int| 0 <= i < pi.len() implies #[trigger] opened_one(ps[i], ps[i + 1], pi[i]) by {
            assert(opened_one(states[i], states[i + 1], ids[i]));
        }
        lemma_successive_opens(ps, pi);
        let a = states[n - 1];
        let id = ids[n - 1];
        assert(opened_one(states[n - 1], states[n], ids[n - 1]));
        assert(ps.last() == a);
        assert(ps[0] == states[0]);
        assert(states.last() == states[n]);
        assert forall|i: int| 0 <= i < n implies {
            &&& ids[i] as int == local_id(states[0].role_is_client(), states[0].issued() + i as nat)
            &&& ids[i] != 0
            &&& (ids[i] % 2 == 1) == states[0].role_is_client()
            &&& !states[0].stream_ids().contains(ids[i])
        } by {
            if i < n - 1 {
                assert(pi[i] == ids[i]);
            } else {
                assert(a.stream_ids() == states[0].stream_ids().union(pi.to_set()));
                assert(a.role_is_client() == states[0].role_is_client());
            }
        }
        assert forall|i: int, j: int| 0 <= i < j < n implies ids[i] != ids[j] by {
            lemma_local_ids_distinct(states[0].role_is_client(), states[0].issued() + i as nat,
                states[0].issued() + j as nat);
        }
        assert(ids.to_set() =~= pi.to_set().insert(id)) by {
            assert(ids =~= pi.push(id));
            pi.lemma_push_to_set_commute(id);
        }
        assert(states.last() == states[n]);
        assert(states[n].stream_ids() =~= states[0].stream_ids().union(ids.to_set()));
        if states[0].stream_ids().finite() {
            vstd::seq_lib::seq_to_set_is_finite(pi);
            assert(a.stream_ids().finite());
        }
    }
}

/// A step from `a` to `b` keeps a set closed flag; the contract of every
/// method that changes a session says so.
pub open spec fn keeps_closed(a: Session, b: Session) -> bool {
    a.closed_flag() ==> b.closed_flag()
}

proof fn lemma_closed_at(states: Seq<Session>, k: int)
    requires
        0 <= k < states.len(),
        states[0].closed_flag(),
        forall|i: int| 0 <= i < states.len() - 1 ==> #[trigger] keeps_closed(states[i], states[i + 1]),
    ensures
        states[k].closed_flag(),
    decreases k,
{
    if k > 0 {
        let j = k - 1;
        lemma_closed_at(states, j);
        assert(keeps_closed(states[j], states[j + 1]));
    }
}

/// Once a session is closed it stays closed, whatever calls follow: along
/// any sequence of states that starts closed, where each step keeps a set
/// flag (as the contract of every method that changes a session says),
/// every state is closed. In each such state the contracts of `is_closed`,
/// `open_stream` and `accept_stream` then give true, `SessionClosed` and no
/// stream.
pub proof fn lemma_closed_is_final(states: Seq<Session>)
    requires
        states.len() > 0,
        states[0].closed_flag(),
        forall|i: int| 0 <= i < states.len() - 1 ==> #[trigger] keeps_closed(states[i], states[i + 1]),
    ensures
        forall|i: int| 0 <= i < states.len() ==> #[trigger] states[i].closed_flag(),
{
    assert forall|i: int| 0 <= i < states.len() implies #[trigger] states[i].closed_flag() by {
        lemma_closed_at(states, i);
    }
}

} // verus!
