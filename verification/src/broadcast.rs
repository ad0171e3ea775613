//! The broadcaster: keeps the list of registered services and decides who
//! receives each message.
use vstd::prelude::*;
use crossbeam_queue::SegQueue;
use crate::common::types::{BroadcastMessage, MessageContent, ServiceSender, Services};

verus! {

#[verifier::external_type_specification]
#[verifier::external_body]
#[verifier::reject_recursive_types(T)]
pub struct ExSegQueue<T>(SegQueue<T>);

/// The messages a broadcast queue holds, from the oldest to the newest.
pub uninterp spec fn queued_messages(q: SegQueue<BroadcastMessage>) -> Seq<BroadcastMessage>;

/// Calls `SegQueue::new`, which makes an empty queue.
#[verifier::external_body]
fn new_queue() -> (q: SegQueue<BroadcastMessage>)
    ensures
        queued_messages(q) == Seq::<BroadcastMessage>::empty(),
{
    SegQueue::new()
}

/// Calls `SegQueue::push`, which adds `m` at the tail of the queue. With the
/// queue borrowed exclusively nothing else is pushed or popped meanwhile.
#[verifier::external_body]
fn queue_push(q: &mut SegQueue<BroadcastMessage>, m: BroadcastMessage)
    ensures
        queued_messages(*final(q)) == queued_messages(*old(q)).push(m),
{
    q.push(m)
}

/// Calls `SegQueue::len`, the number of messages in the queue.
#[verifier::external_body]
fn queue_len(q: &SegQueue<BroadcastMessage>) -> (n: usize)
    ensures
        n == queued_messages(*q).len(),
{
    q.len()
}

/// The channels that receive a message sent by `from`: the channel of every
/// registration of another service, in the order of registration.
pub open spec fn route(registry: Seq<ServiceSender>, from: Services) -> Seq<u64>
    decreases registry.len(),
{
    if registry.len() == 0 {
        Seq::empty()
    } else {
        let earlier = route(registry.drop_last(), from);
        if registry.last().service != from {
            earlier.push(registry.last().sender)
        } else {
            earlier
        }
    }
}

/// The registry after the broadcaster takes `m`: a registration is added at
/// the end, any other message leaves it as it is.
pub open spec fn registry_after(registry: Seq<ServiceSender>, m: BroadcastMessage) -> Seq<ServiceSender> {
    match m.raw_message {
        MessageContent::AddService(s) => registry.push(s),
        _ => registry,
    }
}

/// The channels the broadcaster sends `m` to, with `registry` registered: none
/// for a registration, `route(registry, m.sender)` for any other message.
pub open spec fn targets_of(registry: Seq<ServiceSender>, m: BroadcastMessage) -> Seq<u64> {
    match m.raw_message {
        MessageContent::AddService(_) => Seq::empty(),
        _ => route(registry, m.sender),
    }
}

/// The registry of a broadcaster that started empty and took `ms`, in order.
pub open spec fn registrations(ms: Seq<BroadcastMessage>) -> Seq<ServiceSender>
    decreases ms.len(),
{
    if ms.len() == 0 {
        Seq::empty()
    } else {
        registry_after(registrations(ms.drop_last()), ms.last())
    }
}

/// The channels that `ms[j]` is sent to by a broadcaster that started empty
/// and took `ms` in order.
pub open spec fn delivered(ms: Seq<BroadcastMessage>, j: int) -> Seq<u64> {
    targets_of(registrations(ms.take(j)), ms[j])
}

/// Whether a registration is for another service than `from`.
pub open spec fn not_from(from: Services) -> spec_fn(ServiceSender) -> bool {
    |r: ServiceSender| r.service != from
}

/// The channel of a registration.
pub open spec fn channel() -> spec_fn(ServiceSender) -> u64 {
    |r: ServiceSender| r.sender
}

/// `route` keeps exactly the registrations of other services, each once, in
/// order of registration, and takes their channels.
pub proof fn lemma_route_is_filter(registry: Seq<ServiceSender>, from: Services)
    ensures
        route(registry, from) == registry.filter(not_from(from)).map_values(channel()),
    decreases registry.len(),
{
    reveal_with_fuel(Seq::filter, 1);
    if registry.len() > 0 {
        let earlier = registry.drop_last();
        lemma_route_is_filter(earlier, from);
        let kept = earlier.filter(not_from(from));
        if registry.last().service != from {
            assert(kept.push(registry.last()).map_values(channel()) =~= kept.map_values(
                channel(),
            ).push(registry.last().sender));
        }
    } else {
        assert(registry.filter(not_from(from)).map_values(channel()) =~= Seq::<u64>::empty());
    }
}

/// Taking one more message: a broadcaster whose registry is that of a run
/// `ms` and that takes `m` ends with the registry of `ms` followed by `m`, and
/// sends `m` where `delivered` says.
pub proof fn lemma_run_step(ms: Seq<BroadcastMessage>, m: BroadcastMessage)
    ensures
        registrations(ms.push(m)) == registry_after(registrations(ms), m),
        delivered(ms.push(m), ms.len() as int) == targets_of(registrations(ms), m),
{
    assert(ms.push(m).drop_last() == ms);
    assert(ms.push(m).take(ms.len() as int) == ms);
}

/// Every registration in the registry of a run was carried by one of its
/// messages.
pub proof fn lemma_registrations_come_from_messages(ms: Seq<BroadcastMessage>)
    ensures
        forall|k: int|
            0 <= k < registrations(ms).len() ==> exists|i: int|
                0 <= i < ms.len() && ms[i].raw_message == MessageContent::AddService(
                    #[trigger] registrations(ms)[k],
                ),
    decreases ms.len(),
{
    if ms.len() > 0 {
        let earlier = ms.drop_last();
        lemma_registrations_come_from_messages(earlier);
        assert forall|k: int| 0 <= k < registrations(ms).len() implies exists|i: int|
            0 <= i < ms.len() && ms[i].raw_message == MessageContent::AddService(
                #[trigger] registrations(ms)[k],
            ) by {
            if k < registrations(earlier).len() {
                assert(registrations(ms)[k] == registrations(earlier)[k]);
                let i = choose|i: int|
                    0 <= i < earlier.len() && earlier[i].raw_message == MessageContent::AddService(
                        #[trigger] registrations(earlier)[k],
                    );
                assert(ms[i] == earlier[i]);
            } else {
                assert(ms[ms.len() - 1] == ms.last());
            }
        }
    }
}

/// In a run of the broadcaster, a registration is sent nowhere, and any other
/// message is sent once to the channel of each registration of another
/// service taken before it, in order of registration, and to nothing else.
pub proof fn lemma_run_delivers_to_earlier_other_services(ms: Seq<BroadcastMessage>, j: int)
    requires
        0 <= j < ms.len(),
    ensures
        ms[j].raw_message is AddService ==> delivered(ms, j) == Seq::<u64>::empty(),
        !(ms[j].raw_message is AddService) ==> delivered(ms, j) == registrations(ms.take(j)).filter(
            not_from(ms[j].sender),
        ).map_values(channel()),
{
    lemma_route_is_filter(registrations(ms.take(j)), ms[j].sender);
}

/// No replay: a message is only ever sent to channels registered, by a
/// registration taken before it, for another service than its sender. A
/// channel registered later never receives it.
pub proof fn lemma_run_sends_only_to_earlier_registrations(ms: Seq<BroadcastMessage>, j: int, t: u64)
    requires
        0 <= j < ms.len(),
        delivered(ms, j).contains(t),
    ensures
        exists|i: int, s: ServiceSender|
            0 <= i < j && ms[i].raw_message == MessageContent::AddService(s) && s.sender == t
                && s.service != ms[j].sender,
{
    let before = ms.take(j);
    let registry = registrations(before);
    let from = ms[j].sender;
    let k = choose|k: int| 0 <= k < delivered(ms, j).len() && delivered(ms, j)[k] == t;
    lemma_route_never_echoes(registry, from);
    assert(registered_elsewhere(registry, from, route(registry, from)[k]));
    let r = choose|r: int| 0 <= r < registry.len() && #[trigger] registry[r].sender == t && registry[r].service != from;
    lemma_registrations_come_from_messages(before);
    let i = choose|i: int|
        0 <= i < before.len() && before[i].raw_message == MessageContent::AddService(
            #[trigger] registrations(before)[r],
        );
    assert(before[i] == ms[i]);
}

/// Routing looks only at each message's sender and content: two runs whose
/// messages differ only in `to` and `timestamp` register the same services
/// and send every message to the same channels in the same order.
pub proof fn lemma_routing_ignores_destination_and_time(
    ms1: Seq<BroadcastMessage>,
    ms2: Seq<BroadcastMessage>,
)
    requires
        ms1.len() == ms2.len(),
        forall|i: int|
            0 <= i < ms1.len() ==> #[trigger] ms1[i].sender == ms2[i].sender && ms1[i].raw_message
                == ms2[i].raw_message,
    ensures
        registrations(ms1) == registrations(ms2),
        forall|j: int| 0 <= j < ms1.len() ==> #[trigger] delivered(ms1, j) == delivered(ms2, j),
    decreases ms1.len(),
{
    if ms1.len() > 0 {
        let n = ms1.len() - 1;
        lemma_routing_ignores_destination_and_time(ms1.drop_last(), ms2.drop_last());
        assert(ms1[n].sender == ms2[n].sender);
        assert forall|j: int| 0 <= j < ms1.len() implies #[trigger] delivered(ms1, j) == delivered(
            ms2,
            j,
        ) by {
            assert(ms1[j].sender == ms2[j].sender);
            if j < n {
                assert(ms1.take(j) == ms1.drop_last().take(j));
                assert(ms2.take(j) == ms2.drop_last().take(j));
                assert(ms1[j] == ms1.drop_last()[j]);
                assert(ms2[j] == ms2.drop_last()[j]);
                assert(delivered(ms1.drop_last(), j) == delivered(ms2.drop_last(), j));
            } else {
                assert(ms1.take(j) == ms1.drop_last());
                assert(ms2.take(j) == ms2.drop_last());
            }
        }
    }
}

/// `id` is the channel of a registration of another service than `from`.
pub open spec fn registered_elsewhere(registry: Seq<ServiceSender>, from: Services, id: u64) -> bool {
    exists|j: int| 0 <= j < registry.len() && #[trigger] registry[j].sender == id && registry[j].service != from
}

/// A message never goes back to the kind of service that sent it: every
/// channel it is sent to belongs to a registration of another service.
pub proof fn lemma_route_never_echoes(registry: Seq<ServiceSender>, from: Services)
    ensures
        forall|k: int| 0 <= k < route(registry, from).len() ==> registered_elsewhere(
            registry,
            from,
            #[trigger] route(registry, from)[k],
        ),
    decreases registry.len(),
{
    if registry.len() > 0 {
        let earlier = registry.drop_last();
        lemma_route_never_echoes(earlier, from);
        assert forall|k: int| 0 <= k < route(registry, from).len() implies registered_elsewhere(
            registry,
            from,
            #[trigger] route(registry, from)[k],
        ) by {
            let id = route(registry, from)[k];
            if k < route(earlier, from).len() {
                assert(id == route(earlier, from)[k]);
                assert(registered_elsewhere(earlier, from, id));
                let j = choose|j: int|
                    0 <= j < earlier.len() && #[trigger] earlier[j].sender == id
                        && earlier[j].service != from;
                assert(registry[j] == earlier[j]);
            } else {
                let j = registry.len() - 1;
                assert(registry[j].sender == id);
            }
        }
    }
}

/// Every service registered as another service than the sender receives the
/// message.
pub proof fn lemma_route_reaches_every_other_service(registry: Seq<ServiceSender>, from: Services)
    ensures
        forall|j: int|
            0 <= j < registry.len() && (#[trigger] registry[j]).service != from ==> route(
                registry,
                from,
            ).contains(registry[j].sender),
    decreases registry.len(),
{
    if registry.len() > 0 {
        let earlier = registry.drop_last();
        lemma_route_reaches_every_other_service(earlier, from);
        assert forall|j: int|
            0 <= j < registry.len() && (#[trigger] registry[j]).service != from implies route(
                registry,
                from,
            ).contains(registry[j].sender) by {
            if j < earlier.len() {
                assert(registry[j] == earlier[j]);
                let k = choose|k: int|
                    0 <= k < route(earlier, from).len() && route(earlier, from)[k]
                        == earlier[j].sender;
                assert(route(registry, from)[k] == route(earlier, from)[k]);
            } else {
                let r = route(registry, from);
                assert(r[r.len() - 1] == registry.last().sender);
            }
        }
    }
}

/// A new registration changes nothing for the services registered before it:
/// they keep receiving what they received, in the same order, and the new
/// service's channel comes last when it is another service than the sender.
pub proof fn lemma_route_after_registration(
    registry: Seq<ServiceSender>,
    added: ServiceSender,
    from: Services,
)
    ensures
        added.service != from ==> route(registry.push(added), from) == route(registry, from).push(
            added.sender,
        ),
        added.service == from ==> route(registry.push(added), from) == route(registry, from),
{
    assert(registry.push(added).drop_last() == registry);
}

/// The broadcaster's state: the registered services and every message it has
/// passed on.
pub struct BroadcastHub {
    services: Vec<ServiceSender>,
    queue: SegQueue<BroadcastMessage>,
}

impl BroadcastHub {
    /// The registered services, in order of registration.
    pub closed spec fn registry(&self) -> Seq<ServiceSender> {
        self.services@
    }

    /// The messages passed on so far, in order of arrival.
    pub closed spec fn history(&self) -> Seq<BroadcastMessage> {
        queued_messages(self.queue)
    }

    /// A broadcaster with no registered service and no message.
    pub fn new() -> (h: BroadcastHub)
        ensures
            h.registry() == Seq::<ServiceSender>::empty(),
            h.history() == Seq::<BroadcastMessage>::empty(),
    {
        BroadcastHub { services: Vec::new(), queue: new_queue() }
    }

    /// The number of messages passed on so far.
    pub fn passed_on(&self) -> (n: usize)
        ensures
            n == self.history().len(),
    {
        queue_len(&self.queue)
    }

    /// Takes one message. A registration is added to the registry and goes no
    /// further. Any other message is recorded, and the result lists the
    /// channels to send it to: those of all services registered as another
    /// service than its sender.
    pub fn receive(&mut self, data: BroadcastMessage) -> (targets: Vec<u64>)
        ensures
            final(self).registry() == registry_after(old(self).registry(), data),
            targets@ == targets_of(old(self).registry(), data),
            match data.raw_message {
                MessageContent::AddService(s) => {
                    &&& final(self).registry() == old(self).registry().push(s)
                    &&& final(self).history() == old(self).history()
                    &&& targets@ == Seq::<u64>::empty()
                },
                _ => {
                    &&& final(self).registry() == old(self).registry()
                    &&& final(self).history() == old(self).history().push(data)
                    &&& targets@ == route(old(self).registry(), data.sender)
                },
            },
    {
        if let MessageContent::AddService(s) = &data.raw_message {
            let registration = *s;
            self.services.push(registration);
            return Vec::new();
        }
        let from = data.sender;
        let mut targets: Vec<u64> = Vec::new();
        let n = self.services.len();
        let mut i: usize = 0;
        while i < n
            invariant
                n == self.services@.len(),
                i <= n,
                targets@ == route(self.services@.take(i as int), from),
            decreases n - i,
        {
            let registration = self.services[i];
            proof {
                assert(self.services@.take(i + 1).drop_last() == self.services@.take(i as int));
            }
            if registration.service != from {
                targets.push(registration.sender);
            }
            i = i + 1;
        }
        proof {
            assert(self.services@.take(n as int) == self.services@);
        }
        queue_push(&mut self.queue, data);
        targets
    }
}

} // verus!
