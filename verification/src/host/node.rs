//! A node of a cluster whose nodes exchange bytes: commands to it, what it hands to the
//! transport, and how a newcomer is introduced.
use vstd::prelude::*;

use crate::codec;
use crate::engine;
use crate::engine::{ActionContent, DistributedStateEngine, EngineAction, WireContent, WireMessage};
use crate::engine::model;
use crate::engine::model::EngineModel;
use crate::node_map::NodeMap;
use crate::replica::shard_core;
use crate::sim::cluster_model;
use crate::sim::transport;
use crate::test_support::test_state::TestState;
use crate::traits::clock::Clock;
use crate::traits::state::SyncUrgency;
use crate::types::config::{PushMode, StateConfig};
use crate::types::envelope::StateViewObject;
use crate::types::errors::DeserializeError;
use crate::types::node::NodeId;
use crate::types::sync_message::FeedContent;
use crate::types::time::Duration;

verus! {

/// Bytes that a node hands to the transport.
#[derive(Debug)]
pub enum Dispatch {
    /// To every other node.
    Broadcast(Vec<u8>),
    /// To one node.
    Send { to: NodeId, bytes: Vec<u8> },
    /// To every other node, after a delay.
    BroadcastLater { delay: Duration, bytes: Vec<u8> },
}

/// What a [`Dispatch`] says.
pub enum Sending {
    Broadcast(Seq<u8>),
    Send { to: NodeId, bytes: Seq<u8> },
    BroadcastLater { delay: Duration, bytes: Seq<u8> },
}

impl View for Dispatch {
    type V = Sending;

    open spec fn view(&self) -> Sending {
        match *self {
            Dispatch::Broadcast(bytes) => Sending::Broadcast(bytes@),
            Dispatch::Send { to, bytes } => Sending::Send { to, bytes: bytes@ },
            Dispatch::BroadcastLater { delay, bytes } => Sending::BroadcastLater {
                delay,
                bytes: bytes@,
            },
        }
    }
}

/// What a list of [`Dispatch`]es says, in order.
pub open spec fn sendings(list: Seq<Dispatch>) -> Seq<Sending> {
    Seq::new(list.len(), |i: int| list[i]@)
}

/// The bytes that an action puts on the transport.
pub open spec fn sending_of(action: ActionContent) -> Sending {
    match action {
        ActionContent::BroadcastSync(message) => Sending::Broadcast(
            codec::wire_bytes(WireContent::Sync(message)),
        ),
        ActionContent::SendSync { target, message } => Sending::Send {
            to: target,
            bytes: codec::wire_bytes(WireContent::Sync(message)),
        },
        ActionContent::ScheduleDelayed { delay, message } => Sending::BroadcastLater {
            delay,
            bytes: codec::wire_bytes(WireContent::Sync(message)),
        },
    }
}

/// The bytes that actions put on the transport, in order.
pub open spec fn sendings_of(actions: Seq<ActionContent>) -> Seq<Sending> {
    Seq::new(actions.len(), |i: int| sending_of(actions[i]))
}

/// Turns engine actions into bytes for the transport.
pub fn route_actions(actions: &Vec<EngineAction>) -> (out: Vec<Dispatch>)
    ensures
        sendings(out@) == sendings_of(engine::action_contents(actions@)),
{
    let mut out: Vec<Dispatch> = Vec::new();
    let mut i: usize = 0;
    while i < actions.len()
        invariant
            i <= actions@.len(),
            out@.len() == i,
            forall|j: int| 0 <= j < i ==> (#[trigger] out@[j])@ == sending_of(actions@[j]@),
        decreases actions@.len() - i,
    {
        let dispatch = match &actions[i] {
            EngineAction::BroadcastSync(message) => Dispatch::Broadcast(
                codec::encode_wire(&WireMessage::Sync(message.clone())),
            ),
            EngineAction::SendSync { target, message } => Dispatch::Send {
                to: *target,
                bytes: codec::encode_wire(&WireMessage::Sync(message.clone())),
            },
            EngineAction::ScheduleDelayed { delay, message } => Dispatch::BroadcastLater {
                delay: *delay,
                bytes: codec::encode_wire(&WireMessage::Sync(message.clone())),
            },
        };
        assert(dispatch@ == sending_of(actions@[i as int]@));
        out.push(dispatch);
        i = i + 1;
    }
    assert(sendings(out@) =~= sendings_of(engine::action_contents(actions@)));
    out
}

/// A command to a node that changes its engine or makes it send.
#[derive(Debug)]
pub enum NodeCommand<V> {
    /// Bytes have arrived.
    HandleInbound { wire_bytes: Vec<u8> },
    /// A node has joined; until its state is known, `default_view` stands for it.
    OnNodeJoined { node_id: NodeId, default_view: V },
    /// A node has left.
    OnNodeLeft { node_id: NodeId },
    /// It is time for a periodic snapshot.
    PeriodicSync,
    /// It is time to announce changes.
    FlushChangeFeed,
}

/// The counters that performing `command` may move can grow.
pub open spec fn can_perform<S, V>(m: EngineModel<S, V>, command: NodeCommand<V>) -> bool {
    match command {
        NodeCommand::HandleInbound { wire_bytes } => transport::holds_message(wire_bytes@)
            ==> m.can_handle(transport::message_in(wire_bytes@)),
        NodeCommand::OnNodeJoined { .. } => m.diagnostics.can_push(),
        NodeCommand::PeriodicSync => m.strategy.periodic_full_sync is Some
            ==> m.diagnostics.can_push(),
        NodeCommand::OnNodeLeft { .. } | NodeCommand::FlushChangeFeed => true,
    }
}

/// Whether the counters that performing `command` may move can grow.
pub fn has_room_for<S, V, C, SV, DV, DA>(
    engine: &DistributedStateEngine<S, V, C, SV, DV, DA>,
    command: &NodeCommand<V>,
) -> (b: bool) where
    C: Clock,
    SV: Fn(&V) -> Vec<u8>,
    DV: Fn(&[u8], u32) -> Result<V, DeserializeError>,
    DA: Fn(&[u8], u32, &V) -> Result<V, DeserializeError>,

    requires
        engine.wf(),
    ensures
        b == can_perform(engine@, *command),
{
    match command {
        NodeCommand::HandleInbound { wire_bytes } => {
            let size = wire_bytes.len();
            assert(wire_bytes@.len() == size);
            match codec::decode_wire(wire_bytes.as_slice()) {
                Ok(message) => {
                    proof {
                        assert(transport::holds_message(wire_bytes@));
                        codec::wire_message_is_unique(
                            message@,
                            transport::message_in(wire_bytes@),
                            wire_bytes@,
                        );
                    }
                    engine.can_handle(&message)
                },
                Err(_) => {
                    assert(!transport::holds_message(wire_bytes@));
                    true
                },
            }
        },
        NodeCommand::OnNodeJoined { .. } => engine.can_push(),
        NodeCommand::PeriodicSync => engine.sync_strategy().periodic_full_sync.is_none()
            || engine.can_push(),
        NodeCommand::OnNodeLeft { .. } | NodeCommand::FlushChangeFeed => true,
    }
}

/// What a command does to an engine and puts on the transport.
pub open spec fn command_step<S, V, SV, DV, DA>(
    m0: EngineModel<S, V>,
    m1: EngineModel<S, V>,
    codec: (SV, DV, Option<DA>),
    command: NodeCommand<V>,
    out: Seq<Sending>,
) -> bool where
    SV: Fn(&V) -> Vec<u8>,
    DV: Fn(&[u8], u32) -> Result<V, DeserializeError>,
    DA: Fn(&[u8], u32, &V) -> Result<V, DeserializeError>,
 {
    match command {
        NodeCommand::HandleInbound { wire_bytes } => if transport::holds_message(wire_bytes@) {
            exists|sent: Seq<ActionContent>| #[trigger]
                model::inbound_step(
                    m0,
                    m1,
                    codec,
                    transport::message_in(wire_bytes@),
                    sent,
                ) && out == sendings_of(sent)
        } else {
            m1 == m0 && out == Seq::<Sending>::empty()
        },
        NodeCommand::OnNodeJoined { node_id, default_view } => exists|sent: Seq<ActionContent>|
         #[trigger]
            cluster_model::join_step(m0, m1, codec.0, node_id, default_view, sent) && out
                == sendings_of(sent),
        NodeCommand::OnNodeLeft { node_id } => m1 == m0.after_leave(node_id) && out == Seq::<
            Sending,
        >::empty(),
        NodeCommand::PeriodicSync => exists|sent: Seq<ActionContent>| #[trigger]
            model::periodic_step(m0, m1, codec.0, sent) && out == sendings_of(sent),
        NodeCommand::FlushChangeFeed => {
            &&& m1 == (EngineModel { feed: Seq::empty(), ..m0 })
            &&& out == if m0.feed.len() == 0 {
                Seq::empty()
            } else {
                seq![
                    Sending::Broadcast(
                        codec::wire_bytes(
                            WireContent::Feed(
                                FeedContent {
                                    source_node: m0.shard.node_id,
                                    notifications: m0.feed,
                                },
                            ),
                        ),
                    ),
                ]
            }
        },
    }
}

/// Performs a command on a node's engine. Returns what goes on the transport.
pub fn handle<S, V, C, SV, DV, DA>(
    engine: &mut DistributedStateEngine<S, V, C, SV, DV, DA>,
    command: NodeCommand<V>,
) -> (out: Vec<Dispatch>) where
    C: Clock,
    SV: Fn(&V) -> Vec<u8>,
    DV: Fn(&[u8], u32) -> Result<V, DeserializeError>,
    DA: Fn(&[u8], u32, &V) -> Result<V, DeserializeError>,

    requires
        old(engine).wf(),
        can_perform(old(engine)@, command),
    ensures
        final(engine).wf(),
        final(engine).codec() == old(engine).codec(),
        command_step(
            old(engine)@,
            final(engine)@,
            old(engine).codec(),
            command,
            sendings(out@),
        ),
{
    let none: Vec<Dispatch> = Vec::new();
    assert(sendings(none@) =~= Seq::<Sending>::empty());
    match command {
        NodeCommand::HandleInbound { wire_bytes } => {
            let size = wire_bytes.len();
            assert(wire_bytes@.len() == size);
            match codec::decode_wire(wire_bytes.as_slice()) {
                Ok(message) => {
                    let ghost content = message@;
                    proof {
                        assert(transport::holds_message(wire_bytes@));
                        codec::wire_message_is_unique(
                            content,
                            transport::message_in(wire_bytes@),
                            wire_bytes@,
                        );
                    }
                    let actions = engine.handle_inbound(message);
                    assert(model::inbound_step(
                        old(engine)@,
                        engine@,
                        old(engine).codec(),
                        transport::message_in(wire_bytes@),
                        engine::action_contents(actions@),
                    ));
                    route_actions(&actions)
                },
                Err(_) => {
                    assert(!transport::holds_message(wire_bytes@));
                    none
                },
            }
        },
        NodeCommand::OnNodeJoined { node_id, default_view } => {
            let actions = engine.on_node_joined(node_id, default_view);
            assert(cluster_model::join_step(
                old(engine)@,
                engine@,
                old(engine).codec().0,
                node_id,
                default_view,
                engine::action_contents(actions@),
            ));
            route_actions(&actions)
        },
        NodeCommand::OnNodeLeft { node_id } => {
            engine.on_node_left(node_id);
            none
        },
        NodeCommand::PeriodicSync => {
            let actions = engine.periodic_sync();
            assert(model::periodic_step(
                old(engine)@,
                engine@,
                old(engine).codec().0,
                engine::action_contents(actions@),
            ));
            route_actions(&actions)
        },
        NodeCommand::FlushChangeFeed => {
            match engine.flush_change_feed() {
                Some(feed) => {
                    let mut out: Vec<Dispatch> = Vec::new();
                    let ghost content = feed@;
                    let bytes = codec::encode_wire(&WireMessage::Feed(feed));
                    out.push(Dispatch::Broadcast(bytes));
                    assert(sendings(out@) =~= seq![
                        Sending::Broadcast(codec::wire_bytes(WireContent::Feed(content))),
                    ]);
                    out
                },
                None => none,
            }
        },
    }
}

/// Performs a mutation on a node's engine. Returns what goes on the transport.
pub fn mutate<S, V: Clone, C, SV, DV, DA, F, P>(
    engine: &mut DistributedStateEngine<S, V, C, SV, DV, DA>,
    mutate_fn: F,
    project_fn: P,
    urgency: SyncUrgency,
) -> (out: Vec<Dispatch>) where
    C: Clock,
    SV: Fn(&V) -> Vec<u8>,
    DV: Fn(&[u8], u32) -> Result<V, DeserializeError>,
    DA: Fn(&[u8], u32, &V) -> Result<V, DeserializeError>,
    F: FnOnce(&mut S),
    P: FnOnce(&S) -> V,

    requires
        old(engine).wf(),
        old(engine)@.diagnostics.can_mutate(),
        old(engine)@.shard.state.generation.age < u64::MAX,
        shard_core::may_mutate(mutate_fn, old(engine)@.shard.state.value),
        forall|place: &mut S| *place == old(engine)@.shard.state.value && #[trigger] call_ensures(
            mutate_fn,
            (place,),
            (),
        ) ==> call_requires(project_fn, (final(place),)),
    ensures
        final(engine).wf(),
        final(engine).codec() == old(engine).codec(),
        exists|place: &mut S| *place == old(engine)@.shard.state.value && *final(place)
            == final(engine)@.shard.state.value && #[trigger] call_ensures(
            mutate_fn,
            (place,),
            (),
        ),
        exists|view: V, sent: Seq<ActionContent>|
            shard_core::mutation_step(
                old(engine)@.shard,
                final(engine)@.shard,
                project_fn,
                view,
            ) && #[trigger] engine::mutate_sends(
                old(engine)@,
                final(engine)@,
                old(engine).codec().0,
                view,
                urgency,
                sent,
            ) && sendings(out@) == sendings_of(sent),
{
    let result = engine.mutate(mutate_fn, project_fn, urgency);
    route_actions(&result.actions)
}

/// How often the background tasks of a node run.
#[derive(Debug, Clone, Copy, PartialEq, Eq, Structural)]
pub struct BackgroundTasks {
    /// Between periodic snapshots, if there are any.
    pub periodic_sync: Option<Duration>,
    /// Between flushes of the change feed, if it is used.
    pub feed_flush: Option<Duration>,
}

/// The background tasks of a node with the given configuration: periodic snapshots where an
/// interval is set, and flushes of the change feed where changes are announced by it.
pub fn background_tasks(config: &StateConfig) -> (tasks: BackgroundTasks)
    ensures
        tasks.periodic_sync == config.sync_strategy.periodic_full_sync,
        tasks.feed_flush == if config.sync_strategy.push_mode == Some(PushMode::ActiveFeedLazyPull) {
            Some(config.sync_strategy.change_feed.batch_interval)
        } else {
            None
        },
{
    let feed_flush = match config.sync_strategy.push_mode {
        Some(PushMode::ActiveFeedLazyPull) => Some(config.sync_strategy.change_feed.batch_interval),
        _ => None,
    };
    BackgroundTasks { periodic_sync: config.sync_strategy.periodic_full_sync, feed_flush }
}

/// The node `told` is to be told that the node `about` has joined.
#[derive(Debug, Clone, Copy, PartialEq, Eq, Structural)]
pub struct Introduction {
    pub told: NodeId,
    pub about: NodeId,
}

/// How `newcomer` is introduced to the nodes `existing`: first it is told of each of them, then
/// each of them is told of it.
pub open spec fn introduced(existing: Seq<NodeId>, newcomer: NodeId) -> Seq<Introduction> {
    Seq::new(existing.len(), |i: int| Introduction { told: newcomer, about: existing[i] })
        + Seq::new(existing.len(), |i: int| Introduction { told: existing[i], about: newcomer })
}

/// Who is to be told of whom, and in which order, when `newcomer` joins `existing`.
pub fn introductions(existing: &Vec<NodeId>, newcomer: NodeId) -> (list: Vec<Introduction>)
    ensures
        list@ == introduced(existing@, newcomer),
{
    let mut list: Vec<Introduction> = Vec::new();
    let mut i: usize = 0;
    while i < existing.len()
        invariant
            i <= existing@.len(),
            list@ =~= introduced(existing@, newcomer).take(i as int),
        decreases existing@.len() - i,
    {
        list.push(Introduction { told: newcomer, about: existing[i] });
        i = i + 1;
    }
    let mut j: usize = 0;
    while j < existing.len()
        invariant
            j <= existing@.len(),
            list@ =~= introduced(existing@, newcomer).take(existing@.len() + j),
        decreases existing@.len() - j,
    {
        list.push(Introduction { told: existing[j], about: newcomer });
        j = j + 1;
    }
    assert(list@ =~= introduced(existing@, newcomer));
    list
}

/// An introduction is mutual: the newcomer is told of exactly those who are told of it, and of
/// each of them before any is told.
pub proof fn introduction_is_mutual(existing: Seq<NodeId>, newcomer: NodeId, id: NodeId)
    requires
        id != newcomer,
    ensures
        introduced(existing, newcomer).contains(Introduction { told: newcomer, about: id })
            <==> existing.contains(id),
        introduced(existing, newcomer).contains(Introduction { told: id, about: newcomer })
            <==> existing.contains(id),
        forall|i: int|
            0 <= i < introduced(existing, newcomer).len() ==> (
            #[trigger] introduced(existing, newcomer)[i]).told == newcomer || i >= existing.len(),
{
    let all = introduced(existing, newcomer);
    let n = existing.len();
    let to_new = Introduction { told: newcomer, about: id };
    let to_old = Introduction { told: id, about: newcomer };
    if existing.contains(id) {
        let k = existing.index_of(id);
        assert(all[k] == to_new);
        assert(all[n + k] == to_old);
    }
    if all.contains(to_new) {
        let k = all.index_of(to_new);
        if k < n {
            assert(existing[k] == id);
        } else {
            assert(all[k] == Introduction { told: existing[k - n], about: newcomer });
        }
    }
    if all.contains(to_old) {
        let k = all.index_of(to_old);
        if k < n {
            assert(all[k] == Introduction { told: newcomer, about: existing[k] });
        } else {
            assert(existing[k - n] == id);
        }
    }
}

/// Whether the views `snapshot` show the counter of `target` as `expected`.
pub fn shows_counter(
    snapshot: &NodeMap<StateViewObject<TestState>>,
    target: NodeId,
    expected: u64,
) -> (b: bool)
    requires
        snapshot.wf(),
    ensures
        b == (snapshot@.contains_key(target) && snapshot@[target].value.counter == expected),
{
    match snapshot.get(&target) {
        Some(view) => view.value.counter == expected,
        None => false,
    }
}

/// What the bytes of an action carry is the action's message, to whom and when the action says.
pub proof fn bytes_carry_the_message(action: ActionContent)
    ensures
        match action {
            ActionContent::BroadcastSync(message) => {
                &&& sending_of(action) is Broadcast
                &&& sending_of(action)->Broadcast_0 == codec::wire_bytes(WireContent::Sync(message))
            },
            ActionContent::SendSync { target, message } => {
                &&& sending_of(action) is Send
                &&& sending_of(action)->to == target
                &&& sending_of(action)->Send_bytes == codec::wire_bytes(WireContent::Sync(message))
            },
            ActionContent::ScheduleDelayed { delay, message } => {
                &&& sending_of(action) is BroadcastLater
                &&& sending_of(action)->delay == delay
                &&& sending_of(action)->BroadcastLater_bytes == codec::wire_bytes(
                    WireContent::Sync(message),
                )
            },
        },
{
}

/// What a command does to a node. Bytes that hold no message change nothing and are not answered;
/// those that do are handled as the message that they hold. A node that has left is only
/// forgotten. Flushing sends every pending change in one batch to everyone, leaves none pending,
/// and changes nothing else.
pub proof fn commands_do_what_they_say<S, V, SV, DV, DA>(
    m0: EngineModel<S, V>,
    m1: EngineModel<S, V>,
    codec: (SV, DV, Option<DA>),
    command: NodeCommand<V>,
    out: Seq<Sending>,
    message: WireContent,
) where
    SV: Fn(&V) -> Vec<u8>,
    DV: Fn(&[u8], u32) -> Result<V, DeserializeError>,
    DA: Fn(&[u8], u32, &V) -> Result<V, DeserializeError>,

    requires
        command_step(m0, m1, codec, command, out),
    ensures
        command matches NodeCommand::HandleInbound { wire_bytes } ==> {
            &&& (forall|other: WireContent|
                !(#[trigger] codec::wire_bytes(other)).is_prefix_of(wire_bytes@)) ==> m1 == m0
                && out.len() == 0
            &&& wire_bytes@ == codec::wire_bytes(message) && wire_bytes@.len() <= u64::MAX
                ==> exists|sent: Seq<ActionContent>| #[trigger]
                model::inbound_step(m0, m1, codec, message, sent) && out.len() == sent.len()
                    && forall|i: int|
                    0 <= i < sent.len() ==> #[trigger] out[i] == sending_of(sent[i])
        },
        command matches NodeCommand::OnNodeLeft { node_id } ==> out.len() == 0 && m1.shard.state
            == m0.shard.state && m1.departed.contains(node_id) && (node_id != m0.shard.node_id
            ==> !m1.shard.views.contains_key(node_id)),
        command is FlushChangeFeed ==> {
            &&& m1.feed.len() == 0
            &&& m1 == (EngineModel { feed: m1.feed, ..m0 })
            &&& m0.feed.len() == 0 ==> out.len() == 0
            &&& m0.feed.len() > 0 ==> {
                &&& out.len() == 1
                &&& out[0] is Broadcast
                &&& out[0]->Broadcast_0 == codec::wire_bytes(
                    WireContent::Feed(
                        FeedContent { source_node: m0.shard.node_id, notifications: m0.feed },
                    ),
                )
            }
        },
{
    if let NodeCommand::HandleInbound { wire_bytes } = command {
        if wire_bytes@ == codec::wire_bytes(message) && wire_bytes@.len() <= u64::MAX {
            crate::sim::transport_laws::message_survives_the_wire(message);
            let sent = choose|sent: Seq<ActionContent>| #[trigger]
                model::inbound_step(m0, m1, codec, message, sent) && out == sendings_of(sent);
            assert(model::inbound_step(m0, m1, codec, message, sent));
        }
    }
}

} // verus!
