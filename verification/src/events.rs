//! Events the ledger emits while executing blocks, and the scans the
//! message correlator runs over them.
//!
//! Events accumulate in emission order in a log that is only cleared on
//! demand; every scan walks the log front to back, so ties between events of
//! one block are broken by emission order.

use vstd::prelude::*;
use crate::ids::ActorId32;
use crate::ids::MessageId32;
use crate::ids::copy_bytes;

verus! {

/// The terminal status the ledger reports for a dispatched message.
#[derive(Clone, Copy, Debug, PartialEq, Eq, Structural)]
pub enum DispatchStatus {
    Success,
    Failed,
    NotExecuted,
}

/// The code a reply message carries: a plain reply or an error reply.
#[derive(Clone, Copy, Debug, PartialEq, Eq, Structural)]
pub enum ReplyCode {
    Success,
    ErrorUserspacePanic,
    ErrorOther,
}

/// An immutable record emitted during block execution.
pub enum Event {
    /// A message was accepted into the queue.
    MessageQueued { id: MessageId32, source: ActorId32, destination: ActorId32 },
    /// A program sent a message to a user; replies carry a code.
    UserMessageSent {
        source: ActorId32,
        destination: ActorId32,
        payload: Vec<u8>,
        code: Option<ReplyCode>,
    },
    /// Queued messages were executed, each with its status.
    MessagesDispatched { statuses: Vec<(MessageId32, DispatchStatus)> },
    /// A message was parked on the wait-list.
    MessageWaited { id: MessageId32 },
    /// The block's execution allowance ran out before the queue was drained.
    QueueNotProcessed,
}

/// The mathematical shape of an event: identifiers and payloads as
/// sequences.
#[verifier::ext_equal]
pub ghost enum EventView {
    MessageQueued { id: Seq<u8>, source: Seq<u8>, destination: Seq<u8> },
    UserMessageSent { source: Seq<u8>, destination: Seq<u8>, payload: Seq<u8>, code: Option<ReplyCode> },
    MessagesDispatched { statuses: Seq<(Seq<u8>, DispatchStatus)> },
    MessageWaited { id: Seq<u8> },
    QueueNotProcessed,
}

impl View for Event {
    type V = EventView;

    open spec fn view(&self) -> EventView {
        match *self {
            Event::MessageQueued { id, source, destination } => EventView::MessageQueued {
                id: id@,
                source: source@,
                destination: destination@,
            },
            Event::UserMessageSent { source, destination, payload, code } => (
            EventView::UserMessageSent {
                source: source@,
                destination: destination@,
                payload: payload@,
                code,
            }),
            Event::MessagesDispatched { statuses } => EventView::MessagesDispatched {
                statuses: statuses@.map_values(|p: (MessageId32, DispatchStatus)| (p.0@, p.1)),
            },
            Event::MessageWaited { id } => EventView::MessageWaited { id: id@ },
            Event::QueueNotProcessed => EventView::QueueNotProcessed,
        }
    }
}

/// The view of an event log.
pub open spec fn events_view(v: Seq<Event>) -> Seq<EventView> {
    v.map_values(|e: Event| e@)
}

/// Copies one event.
pub fn copy_event(e: &Event) -> (r: Event)
    ensures
        r@ == e@,
{
    match e {
        Event::MessageQueued { id, source, destination } => Event::MessageQueued {
            id: *id,
            source: *source,
            destination: *destination,
        },
        Event::UserMessageSent { source, destination, payload, code } => {
            let r = Event::UserMessageSent {
                source: *source,
                destination: *destination,
                payload: copy_bytes(payload),
                code: *code,
            };
            r
        },
        Event::MessagesDispatched { statuses } => {
            let mut s: Vec<(MessageId32, DispatchStatus)> = Vec::new();
            let mut i: usize = 0;
            while i < statuses.len()
                invariant
                    i <= statuses.len(),
                    s@ == statuses@.subrange(0, i as int),
                decreases statuses.len() - i,
            {
                s.push(statuses[i]);
                proof {
                    assert(s@ =~= statuses@.subrange(0, i + 1));
                }
                i = i + 1;
            }
            proof {
                assert(s@ =~= statuses@);
            }
            Event::MessagesDispatched { statuses: s }
        },
        Event::MessageWaited { id } => Event::MessageWaited { id: *id },
        Event::QueueNotProcessed => Event::QueueNotProcessed,
    }
}

/// Copies an event log.
pub fn copy_events(v: &Vec<Event>) -> (r: Vec<Event>)
    ensures
        events_view(r@) == events_view(v@),
        r@.len() == v@.len(),
{
    let mut r: Vec<Event> = Vec::new();
    let mut i: usize = 0;
    while i < v.len()
        invariant
            i <= v.len(),
            r@.len() == i,
            forall|j: int| 0 <= j < i ==> r@[j]@ == v@[j]@,
        decreases v.len() - i,
    {
        let e = copy_event(&v[i]);
        r.push(e);
        i = i + 1;
    }
    proof {
        assert(events_view(r@) =~= events_view(v@));
    }
    r
}

/// The first status recorded for `msg` in a dispatch event's status list.
pub open spec fn spec_status_of(statuses: Seq<(Seq<u8>, DispatchStatus)>, msg: Seq<u8>) -> Option<
    DispatchStatus,
>
    decreases statuses.len(),
{
    if statuses.len() == 0 {
        None
    } else if statuses[0].0 == msg {
        Some(statuses[0].1)
    } else {
        spec_status_of(statuses.drop_first(), msg)
    }
}

/// Looks up the first status recorded for `msg`.
pub fn status_of(statuses: &Vec<(MessageId32, DispatchStatus)>, msg: &MessageId32) -> (r: Option<
    DispatchStatus,
>)
    ensures
        r == spec_status_of(statuses@.map_values(|p: (MessageId32, DispatchStatus)| (p.0@, p.1)), msg@),
{
    let ghost sv = statuses@.map_values(|p: (MessageId32, DispatchStatus)| (p.0@, p.1));
    proof {
        assert(sv.skip(0) =~= sv);
    }
    let mut i: usize = 0;
    while i < statuses.len()
        invariant
            i <= statuses.len(),
            sv == statuses@.map_values(|p: (MessageId32, DispatchStatus)| (p.0@, p.1)),
            spec_status_of(sv, msg@) == spec_status_of(sv.skip(i as int), msg@),
        decreases statuses.len() - i,
    {
        proof {
            assert(sv.skip(i as int).len() > 0);
            assert(sv.skip(i as int)[0] == sv[i as int]);
        }
        if statuses[i].0.equals(msg) {
            return Some(statuses[i].1);
        }
        proof {
            assert(sv.skip(i as int).drop_first() =~= sv.skip(i + 1));
        }
        i = i + 1;
    }
    proof {
        assert(sv.skip(statuses@.len() as int) =~= Seq::<(Seq<u8>, DispatchStatus)>::empty());
    }
    None
}

/// What a single event resolves for the correlator watching message `msg`
/// sent by `signer` to `contract`: a reply payload, a dispatch status, a
/// wait-list note (only when the caller opted in), or nothing.
#[verifier::ext_equal]
pub ghost enum ScanHitView {
    Reply { payload: Seq<u8>, code: Option<ReplyCode> },
    Dispatched { status: DispatchStatus },
    Waited,
}

/// The hit a single event yields, if any.
pub open spec fn spec_event_hit(
    e: EventView,
    signer: Seq<u8>,
    contract: Seq<u8>,
    msg: Seq<u8>,
    get_waited: bool,
) -> Option<ScanHitView> {
    match e {
        EventView::UserMessageSent { source, destination, payload, code } => {
            if destination == signer && source == contract {
                Some(ScanHitView::Reply { payload, code })
            } else {
                None
            }
        },
        EventView::MessagesDispatched { statuses } => {
            match spec_status_of(statuses, msg) {
                Some(status) => Some(ScanHitView::Dispatched { status }),
                None => None,
            }
        },
        EventView::MessageWaited { id } => {
            if id == msg && get_waited {
                Some(ScanHitView::Waited)
            } else {
                None
            }
        },
        _ => None,
    }
}

/// The first hit in an event log, scanning in emission order.
pub open spec fn spec_scan(
    events: Seq<EventView>,
    signer: Seq<u8>,
    contract: Seq<u8>,
    msg: Seq<u8>,
    get_waited: bool,
) -> Option<ScanHitView>
    decreases events.len(),
{
    if events.len() == 0 {
        None
    } else {
        match spec_event_hit(events[0], signer, contract, msg, get_waited) {
            Some(h) => Some(h),
            None => spec_scan(events.drop_first(), signer, contract, msg, get_waited),
        }
    }
}

/// The exec counterpart of a scan hit.
pub enum ScanHit {
    Reply { payload: Vec<u8>, code: Option<ReplyCode> },
    Dispatched { status: DispatchStatus },
    Waited,
}

impl View for ScanHit {
    type V = ScanHitView;

    open spec fn view(&self) -> ScanHitView {
        match *self {
            ScanHit::Reply { payload, code } => ScanHitView::Reply { payload: payload@, code },
            ScanHit::Dispatched { status } => ScanHitView::Dispatched { status },
            ScanHit::Waited => ScanHitView::Waited,
        }
    }
}

/// The view of an optional scan hit.
pub open spec fn opt_hit_view(r: Option<ScanHit>) -> Option<ScanHitView> {
    match r {
        Some(h) => Some(h@),
        None => None,
    }
}

/// Scans an event log in emission order for the first event that resolves
/// the watched message: a reply from `contract` to `signer`, a dispatch
/// status for `msg`, or (when `get_waited` is set) a wait-list note for
/// `msg`.
pub fn scan_events(
    events: &Vec<Event>,
    signer: &ActorId32,
    contract: &ActorId32,
    msg: &MessageId32,
    get_waited: bool,
) -> (r: Option<ScanHit>)
    ensures
        opt_hit_view(r) == spec_scan(events_view(events@), signer@, contract@, msg@, get_waited),
{
    let ghost ev = events_view(events@);
    proof {
        assert(ev.skip(0) =~= ev);
    }
    let mut i: usize = 0;
    while i < events.len()
        invariant
            i <= events.len(),
            ev == events_view(events@),
            spec_scan(ev, signer@, contract@, msg@, get_waited) == spec_scan(
                ev.skip(i as int),
                signer@,
                contract@,
                msg@,
                get_waited,
            ),
        decreases events.len() - i,
    {
        proof {
            assert(ev.skip(i as int).len() > 0);
            assert(ev.skip(i as int)[0] == ev[i as int]);
            assert(ev.skip(i as int).drop_first() =~= ev.skip(i + 1));
        }
        let hit: Option<ScanHit> = match &events[i] {
            Event::UserMessageSent { source, destination, payload, code } => {
                if destination.equals(signer) && source.equals(contract) {
                    Some(ScanHit::Reply { payload: copy_bytes(payload), code: *code })
                } else {
                    None
                }
            },
            Event::MessagesDispatched { statuses } => {
                match status_of(statuses, msg) {
                    Some(status) => Some(ScanHit::Dispatched { status }),
                    None => None,
                }
            },
            Event::MessageWaited { id } => {
                if id.equals(msg) && get_waited {
                    Some(ScanHit::Waited)
                } else {
                    None
                }
            },
            _ => None,
        };
        proof {
            assert(opt_hit_view(hit) == spec_event_hit(
                ev[i as int],
                signer@,
                contract@,
                msg@,
                get_waited,
            ));
        }
        if hit.is_some() {
            return hit;
        }
        i = i + 1;
    }
    proof {
        assert(ev.skip(events@.len() as int) =~= Seq::<EventView>::empty());
    }
    None
}

/// The identifier in the last queued-message event whose source is `signer`
/// and whose destination is `contract`.
pub open spec fn spec_find_queued(events: Seq<EventView>, signer: Seq<u8>, contract: Seq<u8>) -> Option<
    Seq<u8>,
>
    decreases events.len(),
{
    if events.len() == 0 {
        None
    } else {
        match events.last() {
            EventView::MessageQueued { id, source, destination } => {
                if source == signer && destination == contract {
                    Some(id)
                } else {
                    spec_find_queued(events.drop_last(), signer, contract)
                }
            },
            _ => spec_find_queued(events.drop_last(), signer, contract),
        }
    }
}

/// Finds the message identifier of the last queued-message event sent by
/// `signer` to `contract`, scanning the whole log.
pub fn message_id_from_queued(
    events: &Vec<Event>,
    signer: &ActorId32,
    contract: &ActorId32,
) -> (r: Option<MessageId32>)
    ensures
        (r matches Some(id) ==> spec_find_queued(events_view(events@), signer@, contract@)
            == Some(id@)),
        (r is None ==> spec_find_queued(events_view(events@), signer@, contract@) is None),
{
    let ghost ev = events_view(events@);
    let mut found: Option<MessageId32> = None;
    let mut i: usize = 0;
    while i < events.len()
        invariant
            i <= events.len(),
            ev == events_view(events@),
            match found {
                Some(id) => spec_find_queued(ev.take(i as int), signer@, contract@) == Some(id@),
                None => spec_find_queued(ev.take(i as int), signer@, contract@) is None,
            },
        decreases events.len() - i,
    {
        proof {
            assert(ev.take(i + 1).last() == ev[i as int]);
            assert(ev.take(i + 1).drop_last() =~= ev.take(i as int));
        }
        match &events[i] {
            Event::MessageQueued { id, source, destination } => {
                if source.equals(signer) && destination.equals(contract) {
                    found = Some(*id);
                }
            },
            _ => {},
        }
        i = i + 1;
    }
    proof {
        assert(ev.take(events@.len() as int) =~= ev);
    }
    found
}

/// Whether the log records that a block's queue was not fully processed.
pub open spec fn spec_queue_failed(events: Seq<EventView>) -> bool {
    exists|i: int| 0 <= i < events.len() && events[i] is QueueNotProcessed
}

/// True when the log records that a block's queue was not fully processed.
pub fn queue_not_processed(events: &Vec<Event>) -> (r: bool)
    ensures
        r == spec_queue_failed(events_view(events@)),
{
    let ghost ev = events_view(events@);
    let mut i: usize = 0;
    while i < events.len()
        invariant
            i <= events.len(),
            ev == events_view(events@),
            forall|j: int| 0 <= j < i ==> !(ev[j] is QueueNotProcessed),
        decreases events.len() - i,
    {
        match &events[i] {
            Event::QueueNotProcessed => {
                proof {
                    assert(ev[i as int] is QueueNotProcessed);
                }
                return true;
            },
            _ => {},
        }
        i = i + 1;
    }
    false
}

/// Whether the log holds an error reply: a user message whose code reports a
/// panic in the contract.
pub open spec fn spec_error_reply_present(events: Seq<EventView>) -> bool {
    exists|i: int|
        0 <= i < events.len() && (#[trigger] events[i]) matches EventView::UserMessageSent {
            code: Some(ReplyCode::ErrorUserspacePanic),
            ..
        }
}

/// True when the log holds a reply whose code reports a panic in the
/// contract.
pub fn error_reply_present(events: &Vec<Event>) -> (r: bool)
    ensures
        r == spec_error_reply_present(events_view(events@)),
{
    let ghost ev = events_view(events@);
    let mut i: usize = 0;
    while i < events.len()
        invariant
            i <= events.len(),
            ev == events_view(events@),
            forall|j: int|
                0 <= j < i ==> !((#[trigger] ev[j]) matches EventView::UserMessageSent {
                    code: Some(ReplyCode::ErrorUserspacePanic),
                    ..
                }),
        decreases events.len() - i,
    {
        match &events[i] {
            Event::UserMessageSent { code: Some(ReplyCode::ErrorUserspacePanic), .. } => {
                proof {
                    assert(ev[i as int] matches EventView::UserMessageSent {
                        code: Some(ReplyCode::ErrorUserspacePanic),
                        ..
                    });
                }
                return true;
            },
            _ => {},
        }
        i = i + 1;
    }
    false
}

/// Whether some user message in the log carries `needle` inside its payload.
pub open spec fn spec_payload_contains(events: Seq<EventView>, needle: Seq<u8>) -> bool {
    exists|i: int|
        0 <= i < events.len() && match #[trigger] events[i] {
            EventView::UserMessageSent { payload, .. } => crate::codec::contains_subrange(
                payload,
                needle,
            ),
            _ => false,
        }
}

/// True when some user message in the log carries `needle` inside its
/// payload.
pub fn payload_contains(events: &Vec<Event>, needle: &Vec<u8>) -> (r: bool)
    ensures
        r == spec_payload_contains(events_view(events@), needle@),
{
    let ghost ev = events_view(events@);
    let mut i: usize = 0;
    while i < events.len()
        invariant
            i <= events.len(),
            ev == events_view(events@),
            forall|j: int|
                0 <= j < i ==> !(match #[trigger] ev[j] {
                    EventView::UserMessageSent { payload, .. } => crate::codec::contains_subrange(
                        payload,
                        needle@,
                    ),
                    _ => false,
                }),
        decreases events.len() - i,
    {
        match &events[i] {
            Event::UserMessageSent { payload, .. } => {
                if crate::codec::bytes_contain(payload, needle) {
                    proof {
                        assert(match ev[i as int] {
                            EventView::UserMessageSent { payload, .. } => {
                                crate::codec::contains_subrange(payload, needle@)
                            },
                            _ => false,
                        });
                    }
                    return true;
                }
            },
            _ => {},
        }
        i = i + 1;
    }
    false
}

} // verus!
