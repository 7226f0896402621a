//! The bookkeeping of a bus: its receive filters, whether its worker thread was started and
//! its socket opened, and which requests the bus accepts in each state. The bus also keeps,
//! as a ghost record, the requests that changed whether it is open.
use vstd::prelude::*;
use crate::error::JcanError;
use crate::filter::{IdFilter, filters_accept, filters_for_ids, id_list_filters, lemma_id_list_admits_allowed};

verus! {

/// The bus state that decides which requests are accepted.
pub struct JBus {
    filters: Option<Vec<IdFilter>>,
    state: BusFlags,
}

/// Whether the worker thread was started and its socket is open, with the requests that
/// led there.
struct BusFlags {
    spin_started: bool,
    socket_opened: bool,
    history: Ghost<Seq<BusEvent>>,
}

/// The filter setting held in `o`: `None` when no filters were set, else the set list.
pub open spec fn setting_view(o: Option<Vec<IdFilter>>) -> Option<Seq<IdFilter>> {
    match o {
        None => None,
        Some(v) => Some(v@),
    }
}

impl JBus {
    /// The worker and socket flags are those that the recorded requests lead to.
    #[verifier::type_invariant]
    spec fn flags_follow_requests(self) -> bool {
        (self.state.spin_started, self.state.socket_opened) == bus_run(self.state.history@)
    }

    /// The requests, since the bus was made, that changed or could have changed whether it
    /// is open, in order.
    pub closed spec fn requests(&self) -> Seq<BusEvent> {
        self.state.history@
    }
}

impl View for JBus {
    type V = (Option<Seq<IdFilter>>, bool, bool);

    /// The filter setting (`None` when no filters were set), whether the worker thread was
    /// started, and whether its socket is open.
    closed spec fn view(&self) -> (Option<Seq<IdFilter>>, bool, bool) {
        (setting_view(self.filters), self.state.spin_started, self.state.socket_opened)
    }
}

/// A bus is open when its worker thread was started and the socket is open.
pub open spec fn bus_open(spin_started: bool, socket_opened: bool) -> bool {
    spin_started && socket_opened
}

/// The answer to a request that needs an open bus: accepted when open, else `refusal`.
pub open spec fn open_guard(spin_started: bool, socket_opened: bool, refusal: JcanError) -> Result<(), JcanError> {
    if bus_open(spin_started, socket_opened) {
        Ok(())
    } else {
        Err(refusal)
    }
}

/// The answer to `close`: accepted for an open bus (which then is closed), else refused.
pub open spec fn close_result(spin_started: bool, socket_opened: bool) -> Result<(), JcanError> {
    if bus_open(spin_started, socket_opened) {
        Ok(())
    } else {
        Err(JcanError::CloseNotOpen)
    }
}

/// The answer to `open`: the filter setting to install for a bus that is not open, else the
/// refusal.
pub open spec fn open_result(setting: Option<Seq<IdFilter>>, spin_started: bool, socket_opened: bool) -> Result<Option<Seq<IdFilter>>, JcanError> {
    if bus_open(spin_started, socket_opened) {
        Err(JcanError::BusAlreadyOpen)
    } else {
        Ok(setting)
    }
}

/// What a send that was accepted ends in: success when the frame was delivered to the
/// outbound worker; when the worker is gone, the bus is closed as by `close`.
pub open spec fn send_outcome(spin_started: bool, socket_opened: bool, delivered: bool) -> Result<(), JcanError> {
    if delivered {
        Ok(())
    } else {
        close_result(spin_started, socket_opened)
    }
}

/// One look at the two flags of the worker while waiting for it to open the socket: `None`
/// to keep waiting while neither is set; then success when the socket opened, and
/// `BusOpenFailed` when only the error flag is set.
pub open spec fn wait_outcome(socket_opened: bool, socket_error: bool) -> Option<Result<(), JcanError>> {
    if !socket_opened && !socket_error {
        None
    } else if socket_opened {
        Some(Ok(()))
    } else {
        Some(Err(JcanError::BusOpenFailed))
    }
}

/// A new bus: no filter setting (every frame passes), no worker thread, no requests yet.
/// It never fails.
pub fn new_jbus() -> (r: Result<Box<JBus>, JcanError>)
    ensures
        r matches Ok(bus) && bus@ == (None::<Seq<IdFilter>>, false, false) && bus.requests() == Seq::<BusEvent>::empty(),
{
    let bus = JBus {
        filters: None,
        state: BusFlags { spin_started: false, socket_opened: false, history: Ghost(Seq::empty()) },
    };
    Ok(Box::new(bus))
}

impl JBus {
    /// Whether the bus is open: exactly when some `open` succeeded and, since the latest such
    /// success, neither `close` nor a failed `open` nor a send that found the outbound
    /// worker gone came.
    pub fn is_open(&self) -> (open: bool)
        ensures
            open == bus_open(self@.1, self@.2),
            open <==> exists|i: int| #[trigger] opened_at(self.requests(), i),
    {
        proof {
            use_type_invariant(self);
            let h = self.state.history@;
            lemma_open_over_requests(h);
            assert(bus_run(h).0 == self.state.spin_started && bus_run(h).1 == self.state.socket_opened);
            assert(self.requests() == h);
        }
        self.state.spin_started && self.state.socket_opened
    }

    /// Whether the bus may be opened: refused while it is open. On success, the filter
    /// setting that the worker thread installs on the socket (`None`: leave the socket
    /// accepting every frame). The bus itself is unchanged until the worker reports.
    pub fn open(&self) -> (r: Result<Option<Vec<IdFilter>>, JcanError>)
        ensures
            match r {
                Ok(fs) => open_result(self@.0, self@.1, self@.2) == Ok::<Option<Seq<IdFilter>>, JcanError>(setting_view(fs)),
                Err(e) => open_result(self@.0, self@.1, self@.2) == Err::<Option<Seq<IdFilter>>, JcanError>(e),
            },
    {
        if self.is_open() {
            return Err(JcanError::BusAlreadyOpen);
        }
        match &self.filters {
            None => Ok(None),
            Some(v) => {
                let fs = v.clone();
                assert(fs@ =~= v@);
                Ok(Some(fs))
            },
        }
    }

    /// One look at the worker's flags after it was started, as `wait_outcome` states it.
    /// Once the worker has reported, the bus records it: started, with the socket open on
    /// success and closed on failure.
    pub fn open_wait_step(&mut self, socket_opened: bool, socket_error: bool) -> (r: Option<Result<(), JcanError>>)
        ensures
            r == wait_outcome(socket_opened, socket_error),
            r is None ==> final(self)@ == old(self)@ && final(self).requests() == old(self).requests(),
            r == Some(Ok::<(), JcanError>(())) ==> final(self)@ == (old(self)@.0, true, true)
                && final(self).requests() == old(self).requests().push(BusEvent::OpenSucceeded),
            r == Some(Err::<(), JcanError>(JcanError::BusOpenFailed)) ==> final(self)@ == (old(self)@.0, true, false)
                && final(self).requests() == old(self).requests().push(BusEvent::OpenFailed),
    {
        if !socket_opened && !socket_error {
            return None;
        }
        proof {
            use_type_invariant(&*self);
        }
        let event = if socket_opened { BusEvent::OpenSucceeded } else { BusEvent::OpenFailed };
        let ghost h = self.state.history@.push(event);
        assert(h.drop_last() =~= self.state.history@);
        self.state = BusFlags { spin_started: true, socket_opened, history: Ghost(h) };
        if socket_opened {
            Some(Ok(()))
        } else {
            Some(Err(JcanError::BusOpenFailed))
        }
    }

    /// Closing: refused when the bus is not open; otherwise the bus is closed.
    pub fn close(&mut self) -> (r: Result<(), JcanError>)
        ensures
            r == close_result(old(self)@.1, old(self)@.2),
            final(self)@ == (old(self)@.0, old(self)@.1, if r is Ok { false } else { old(self)@.2 }),
            final(self).requests() == old(self).requests().push(BusEvent::CloseCalled),
    {
        proof {
            use_type_invariant(&*self);
        }
        let open = self.state.spin_started && self.state.socket_opened;
        let ghost h = self.state.history@.push(BusEvent::CloseCalled);
        assert(h.drop_last() =~= self.state.history@);
        let socket_opened = if open { false } else { self.state.socket_opened };
        self.state = BusFlags { spin_started: self.state.spin_started, socket_opened, history: Ghost(h) };
        if open {
            Ok(())
        } else {
            Err(JcanError::CloseNotOpen)
        }
    }

    /// Whether a blocking receive may go ahead: only on an open bus.
    pub fn receive(&self) -> (r: Result<(), JcanError>)
        ensures
            r == open_guard(self@.1, self@.2, JcanError::ReceiveNotOpen),
    {
        if !self.is_open() {
            return Err(JcanError::ReceiveNotOpen);
        }
        Ok(())
    }

    /// Whether a frame may be handed to the outbound worker: only on an open bus.
    pub fn send(&self) -> (r: Result<(), JcanError>)
        ensures
            r == open_guard(self@.1, self@.2, JcanError::SendNotOpen),
    {
        if !self.is_open() {
            return Err(JcanError::SendNotOpen);
        }
        Ok(())
    }

    /// The end of an accepted send, as `send_outcome` states it: nothing changes when the
    /// frame was delivered to the outbound worker; otherwise the bus closes as by `close`.
    pub fn after_send(&mut self, delivered: bool) -> (r: Result<(), JcanError>)
        ensures
            r == send_outcome(old(self)@.1, old(self)@.2, delivered),
            delivered ==> final(self)@ == old(self)@ && final(self).requests() == old(self).requests(),
            !delivered ==> final(self)@ == (old(self)@.0, old(self)@.1, if r is Ok { false } else { old(self)@.2 })
                && final(self).requests() == old(self).requests().push(BusEvent::SendWorkerGone),
    {
        if delivered {
            return Ok(());
        }
        proof {
            use_type_invariant(&*self);
        }
        let open = self.state.spin_started && self.state.socket_opened;
        let ghost h = self.state.history@.push(BusEvent::SendWorkerGone);
        assert(h.drop_last() =~= self.state.history@);
        let socket_opened = if open { false } else { self.state.socket_opened };
        self.state = BusFlags { spin_started: self.state.spin_started, socket_opened, history: Ghost(h) };
        if open {
            Ok(())
        } else {
            Err(JcanError::CloseNotOpen)
        }
    }

    /// Whether the buffered frames may be drained: only on an open bus.
    pub fn receive_from_thread_buffer(&self) -> (r: Result<(), JcanError>)
        ensures
            r == open_guard(self@.1, self@.2, JcanError::BufferNotOpen),
    {
        if !self.is_open() {
            return Err(JcanError::BufferNotOpen);
        }
        Ok(())
    }

    /// Sets the list of ids that will be received: one standard-id filter (mask `0x7FF`) for
    /// each allowed id; an empty list receives no frame. Refused while the bus is open, and
    /// then the setting stays as it was.
    pub fn set_id_filter(&mut self, allowed: Vec<u32>) -> (r: Result<(), JcanError>)
        ensures
            bus_open(old(self)@.1, old(self)@.2) ==> r == Err::<(), JcanError>(JcanError::FilterWhileOpen)
                && final(self)@ == old(self)@,
            !bus_open(old(self)@.1, old(self)@.2) ==> r is Ok
                && final(self)@ == (Some(id_list_filters(allowed@)), old(self)@.1, old(self)@.2),
            final(self).requests() == old(self).requests(),
    {
        proof {
            use_type_invariant(&*self);
        }
        if self.is_open() {
            return Err(JcanError::FilterWhileOpen);
        }
        self.filters = Some(filters_for_ids(&allowed));
        Ok(())
    }

    /// Sets the single filter of id `allowed` and mask `allowed_mask`.
    /// Refused while the bus is open, and then the setting stays as it was.
    pub fn set_id_filter_mask(&mut self, allowed: u32, allowed_mask: u32) -> (r: Result<(), JcanError>)
        ensures
            bus_open(old(self)@.1, old(self)@.2) ==> r == Err::<(), JcanError>(JcanError::FilterWhileOpen)
                && final(self)@ == old(self)@,
            !bus_open(old(self)@.1, old(self)@.2) ==> r is Ok
                && final(self)@ == (Some(seq![IdFilter { id: allowed, mask: allowed_mask }]), old(self)@.1, old(self)@.2),
            final(self).requests() == old(self).requests(),
    {
        proof {
            use_type_invariant(&*self);
        }
        if self.is_open() {
            return Err(JcanError::FilterWhileOpen);
        }
        let mut filters: Vec<IdFilter> = Vec::new();
        filters.push(IdFilter { id: allowed, mask: allowed_mask });
        assert(filters@ =~= seq![IdFilter { id: allowed, mask: allowed_mask }]);
        self.filters = Some(filters);
        Ok(())
    }

    /// The filter setting that opening the bus installs (`None`: no filters were set).
    pub fn filters(&self) -> (fs: &Option<Vec<IdFilter>>)
        ensures
            setting_view(*fs) == self@.0,
    {
        &self.filters
    }
}

/// What a worker loop does after a failed socket read or write.
#[derive(Debug, Clone, Copy, PartialEq, Eq, Structural)]
pub enum WorkerStep {
    /// Keep serving the socket.
    Continue,
    /// Leave the loop: the interface is gone.
    Stop,
}

/// The OS error codes that mean the interface is gone: no such device or address (6),
/// no such device (19), network is down (100).
pub open spec fn interface_gone(os_error: Option<i32>) -> bool {
    os_error == Some(6i32) || os_error == Some(19i32) || os_error == Some(100i32)
}

fn is_interface_gone(os_error: Option<i32>) -> (gone: bool)
    ensures
        gone == interface_gone(os_error),
{
    match os_error {
        Some(code) => code == 6 || code == 19 || code == 100,
        None => false,
    }
}

/// After a failed read: a would-block error is retried; otherwise the reader stops exactly
/// when the interface is gone.
pub fn recv_error_step(would_block: bool, os_error: Option<i32>) -> (step: WorkerStep)
    ensures
        step == (if !would_block && interface_gone(os_error) { WorkerStep::Stop } else { WorkerStep::Continue }),
{
    if would_block {
        WorkerStep::Continue
    } else if is_interface_gone(os_error) {
        WorkerStep::Stop
    } else {
        WorkerStep::Continue
    }
}

/// After a failed write: the sender stops exactly when the interface is gone.
pub fn send_error_step(os_error: Option<i32>) -> (step: WorkerStep)
    ensures
        step == (if interface_gone(os_error) { WorkerStep::Stop } else { WorkerStep::Continue }),
{
    if is_interface_gone(os_error) {
        WorkerStep::Stop
    } else {
        WorkerStep::Continue
    }
}

/// A request that changes whether the bus is open.
#[derive(Debug, Clone, Copy, PartialEq, Eq, Structural)]
pub enum BusEvent {
    /// `open` succeeded: the worker thread was started and reported the socket open.
    OpenSucceeded,
    /// `open` started the worker thread but it reported that the socket did not open.
    OpenFailed,
    /// `close` was called.
    CloseCalled,
    /// A send was accepted but the outbound worker was gone.
    SendWorkerGone,
    /// Any other request: setting filters, receiving, draining, a delivered send, a refused
    /// `open`, reading `is_open`.
    Other,
}

/// The worker and socket flags after `e`, from `(spin_started, socket_opened)`.
pub open spec fn bus_step(state: (bool, bool), e: BusEvent) -> (bool, bool) {
    match e {
        BusEvent::OpenSucceeded => (true, true),
        BusEvent::OpenFailed => (true, false),
        BusEvent::CloseCalled => if close_result(state.0, state.1) is Ok {
            (state.0, false)
        } else {
            state
        },
        BusEvent::SendWorkerGone => if send_outcome(state.0, state.1, false) is Ok {
            (state.0, false)
        } else {
            state
        },
        BusEvent::Other => state,
    }
}

/// The worker and socket flags after the events `events`, from a new bus.
pub open spec fn bus_run(events: Seq<BusEvent>) -> (bool, bool)
    decreases events.len(),
{
    if events.len() == 0 {
        (false, false)
    } else {
        bus_step(bus_run(events.drop_last()), events.last())
    }
}

/// The latest event other than `Other` is a successful `open`.
pub open spec fn opened_since(events: Seq<BusEvent>) -> bool
    decreases events.len(),
{
    if events.len() == 0 {
        false
    } else if events.last() == BusEvent::OpenSucceeded {
        true
    } else if events.last() == BusEvent::Other {
        opened_since(events.drop_last())
    } else {
        false
    }
}

proof fn lemma_run_open(events: Seq<BusEvent>)
    ensures
        bus_open(bus_run(events).0, bus_run(events).1) == opened_since(events),
    decreases events.len(),
{
    if events.len() > 0 {
        lemma_run_open(events.drop_last());
    }
}

/// Event `i` is a successful `open` and every later event is `Other`.
pub open spec fn opened_at(events: Seq<BusEvent>, i: int) -> bool {
    &&& 0 <= i < events.len()
    &&& events[i] == BusEvent::OpenSucceeded
    &&& forall|j: int| i < j < events.len() ==> #[trigger] events[j] == BusEvent::Other
}

proof fn lemma_opened_at_extend(events: Seq<BusEvent>, i: int)
    requires
        events.len() > 0,
        events.last() == BusEvent::Other,
    ensures
        opened_at(events.drop_last(), i) <==> opened_at(events, i),
{
    let prev = events.drop_last();
    if opened_at(prev, i) {
        assert forall|j: int| i < j < events.len() implies #[trigger] events[j] == BusEvent::Other by {
            if j < events.len() - 1 {
                assert(events[j] == prev[j]);
            }
        }
    }
    if opened_at(events, i) {
        assert(i != events.len() - 1);
        assert forall|j: int| i < j < prev.len() implies #[trigger] prev[j] == BusEvent::Other by {
            assert(events[j] == prev[j]);
        }
    }
}

proof fn lemma_opened_since_exists(events: Seq<BusEvent>)
    ensures
        opened_since(events) <==> exists|i: int| #[trigger] opened_at(events, i),
    decreases events.len(),
{
    if events.len() > 0 {
        let prev = events.drop_last();
        let n = events.len() - 1;
        lemma_opened_since_exists(prev);
        if events.last() == BusEvent::OpenSucceeded {
            assert(opened_at(events, n));
        } else if events.last() == BusEvent::Other {
            if opened_since(prev) {
                let i = choose|i: int| #[trigger] opened_at(prev, i);
                lemma_opened_at_extend(events, i);
            }
            if exists|i: int| #[trigger] opened_at(events, i) {
                let i = choose|i: int| #[trigger] opened_at(events, i);
                lemma_opened_at_extend(events, i);
            }
        } else {
            if exists|i: int| #[trigger] opened_at(events, i) {
                let i = choose|i: int| #[trigger] opened_at(events, i);
                if i < n {
                    assert(events[n] == BusEvent::Other);
                }
            }
        }
    }
}

/// Over any sequence of requests on a new bus, the bus is open exactly when some `open`
/// succeeded and, since the latest such success, no `close`, no failed `open` and no send
/// that found the outbound worker gone came (`opened_at`). In particular a new bus is not
/// open.
pub proof fn lemma_open_over_requests(events: Seq<BusEvent>)
    ensures
        bus_open(bus_run(events).0, bus_run(events).1) <==> exists|i: int| #[trigger] opened_at(events, i),
        !bus_open(bus_run(Seq::empty()).0, bus_run(Seq::empty()).1),
{
    lemma_run_open(events);
    lemma_opened_since_exists(events);
}

/// Closing an open bus leaves it closed: afterwards it refuses to receive, send and drain
/// its buffer, accepts new filters, and may be opened again with its filters.
pub proof fn lemma_closed_bus(filters: Option<Seq<IdFilter>>, spin_started: bool, socket_opened: bool)
    requires
        bus_open(spin_started, socket_opened),
    ensures
        close_result(spin_started, socket_opened) is Ok,
        !bus_open(spin_started, false),
        open_guard(spin_started, false, JcanError::ReceiveNotOpen) == Err::<(), JcanError>(JcanError::ReceiveNotOpen),
        open_guard(spin_started, false, JcanError::SendNotOpen) == Err::<(), JcanError>(JcanError::SendNotOpen),
        open_guard(spin_started, false, JcanError::BufferNotOpen) == Err::<(), JcanError>(JcanError::BufferNotOpen),
        close_result(spin_started, false) == Err::<(), JcanError>(JcanError::CloseNotOpen),
        open_result(filters, spin_started, false) == Ok::<Option<Seq<IdFilter>>, JcanError>(filters),
{
}

/// A bus becomes open once its worker thread was started and the socket opened; then
/// it refuses a second `open` and accepts receive, send and draining.
pub proof fn lemma_opened_bus(filters: Option<Seq<IdFilter>>)
    ensures
        bus_open(true, true),
        open_result(filters, true, true) == Err::<Option<Seq<IdFilter>>, JcanError>(JcanError::BusAlreadyOpen),
        open_guard(true, true, JcanError::ReceiveNotOpen) == Ok::<(), JcanError>(()),
        open_guard(true, true, JcanError::SendNotOpen) == Ok::<(), JcanError>(()),
        open_guard(true, true, JcanError::BufferNotOpen) == Ok::<(), JcanError>(()),
{
}

/// Ids set with `set_id_filter` on a closed bus are received once it opens: the filters
/// that `open` hands to the worker let every allowed id through.
pub proof fn lemma_allowed_ids_received(allowed: Seq<u32>, spin_started: bool, socket_opened: bool, can_id: u32)
    requires
        !bus_open(spin_started, socket_opened),
        allowed.contains(can_id),
    ensures
        open_result(Some(id_list_filters(allowed)), spin_started, socket_opened) matches Ok(fs)
            && filters_accept(fs, can_id),
{
    lemma_id_list_admits_allowed(allowed, can_id);
}

/// An empty id list set with `set_id_filter` on a closed bus receives nothing once the
/// bus opens, while a bus on which no filters were set receives every frame.
pub proof fn lemma_empty_id_list_receives_nothing(spin_started: bool, socket_opened: bool, can_id: u32)
    requires
        !bus_open(spin_started, socket_opened),
    ensures
        open_result(Some(id_list_filters(Seq::<u32>::empty())), spin_started, socket_opened) matches Ok(fs)
            && !filters_accept(fs, can_id),
        open_result(None, spin_started, socket_opened) matches Ok(fs) && filters_accept(fs, can_id),
{
    assert(id_list_filters(Seq::<u32>::empty()) =~= Seq::<IdFilter>::empty());
}

/// Until the worker thread was started the bus is closed.
pub proof fn lemma_unstarted_bus_closed(socket_opened: bool)
    ensures
        !bus_open(false, socket_opened),
{
}

} // verus!
