//! How engine actions become messages to peers.
use vstd::prelude::*;

use crate::engine;
use crate::engine::{ActionContent, EngineAction, WireContent, WireMessage};
use crate::types::node::NodeId;
use crate::types::sync_message::{
    BatchedChangeFeed, ChangeContent, FeedContent, SyncContent, SyncMessage,
};
use crate::types::time::Duration;

verus! {

/// A peer that messages can be sent to, and whether the network can deliver to it.
#[derive(Debug, Clone, Copy, PartialEq, Eq, Structural)]
pub struct Link {
    pub node: NodeId,
    pub up: bool,
}

/// Something that an actor sends, now or later.
#[allow(inconsistent_fields)]
#[derive(Debug)]
pub enum Outgoing {
    /// A synchronization message to one peer.
    Sync { to: NodeId, message: SyncMessage },
    /// A wire message to one peer.
    Wire { to: NodeId, message: WireMessage },
    /// A synchronization message to whoever is a peer after the delay.
    Later { delay: Duration, message: SyncMessage },
}

/// What an [`Outgoing`] says.
#[allow(inconsistent_fields)]
pub enum Parcel {
    Sync { to: NodeId, message: SyncContent },
    Wire { to: NodeId, message: WireContent },
    Later { delay: Duration, message: SyncContent },
}

impl View for Outgoing {
    type V = Parcel;

    open spec fn view(&self) -> Parcel {
        match *self {
            Outgoing::Sync { to, message } => Parcel::Sync { to, message: message@ },
            Outgoing::Wire { to, message } => Parcel::Wire { to, message: message@ },
            Outgoing::Later { delay, message } => Parcel::Later { delay, message: message@ },
        }
    }
}

/// What a list of [`Outgoing`]s says, in order.
pub open spec fn parcels(list: Seq<Outgoing>) -> Seq<Parcel> {
    Seq::new(list.len(), |i: int| list[i]@)
}

/// The nodes of `links` other than `own` that can be delivered to, in order.
pub open spec fn reachable(own: NodeId, links: Seq<Link>) -> Seq<NodeId>
    decreases links.len(),
{
    if links.len() == 0 {
        Seq::empty()
    } else {
        let rest = reachable(own, links.drop_last());
        if links.last().node != own && links.last().up {
            rest.push(links.last().node)
        } else {
            rest
        }
    }
}

/// `message` to each of `targets`.
pub open spec fn sync_to_each(targets: Seq<NodeId>, message: SyncContent) -> Seq<Parcel> {
    Seq::new(targets.len(), |i: int| Parcel::Sync { to: targets[i], message })
}

/// `message` to each of `targets`.
pub open spec fn wire_to_each(targets: Seq<NodeId>, message: WireContent) -> Seq<Parcel> {
    Seq::new(targets.len(), |i: int| Parcel::Wire { to: targets[i], message })
}

/// What the node `own` with the peers `links` sends for one action: a broadcast goes to every
/// reachable peer but itself, a message to one peer only if that peer is there and reachable.
pub open spec fn routed_one(own: NodeId, action: ActionContent, links: Seq<Link>) -> Seq<Parcel> {
    match action {
        ActionContent::BroadcastSync(message) => sync_to_each(reachable(own, links), message),
        ActionContent::SendSync { target, message } => if links.contains(
            Link { node: target, up: true },
        ) {
            seq![Parcel::Sync { to: target, message }]
        } else {
            Seq::empty()
        },
        ActionContent::ScheduleDelayed { delay, message } => seq![
            Parcel::Later { delay, message },
        ],
    }
}

/// What the node `own` with the peers `links` sends for actions, in order.
pub open spec fn routed(own: NodeId, actions: Seq<ActionContent>, links: Seq<Link>) -> Seq<Parcel>
    decreases actions.len(),
{
    if actions.len() == 0 {
        Seq::empty()
    } else {
        routed(own, actions.drop_last(), links) + routed_one(own, actions.last(), links)
    }
}

/// What the node `own` with the peers `links` sends when the changes `feed` are flushed.
pub open spec fn routed_feed(own: NodeId, feed: Seq<ChangeContent>, links: Seq<Link>) -> Seq<
    Parcel,
> {
    if feed.len() == 0 {
        Seq::empty()
    } else {
        let batch = FeedContent { source_node: own, notifications: feed };
        wire_to_each(reachable(own, links), WireContent::Feed(batch))
    }
}

/// The peers other than `own_id` that can be delivered to.
pub fn reachable_peers(own_id: NodeId, links: &Vec<Link>) -> (targets: Vec<NodeId>)
    ensures
        targets@ == reachable(own_id, links@),
{
    let mut targets: Vec<NodeId> = Vec::new();
    let mut i: usize = 0;
    assert(targets@ =~= reachable(own_id, links@.take(0)));
    while i < links.len()
        invariant
            i <= links@.len(),
            targets@ == reachable(own_id, links@.take(i as int)),
        decreases links@.len() - i,
    {
        proof {
            assert(links@.take(i + 1).drop_last() =~= links@.take(i as int));
            assert(links@.take(i + 1).last() == links@[i as int]);
        }
        let link = links[i];
        if link.node != own_id && link.up {
            targets.push(link.node);
        }
        i = i + 1;
    }
    assert(links@.take(links@.len() as int) =~= links@);
    targets
}

/// Whether `target` is a peer that can be delivered to.
pub fn can_reach(target: NodeId, links: &Vec<Link>) -> (b: bool)
    ensures
        b == links@.contains(Link { node: target, up: true }),
{
    let mut i: usize = 0;
    while i < links.len()
        invariant
            i <= links@.len(),
            forall|j: int| 0 <= j < i ==> links@[j] != (Link { node: target, up: true }),
        decreases links@.len() - i,
    {
        if links[i].node == target && links[i].up {
            assert(links@[i as int] == Link { node: target, up: true });
            return true;
        }
        i = i + 1;
    }
    false
}

/// What is sent when `message` is broadcast: one copy to every reachable peer.
pub fn broadcast_sync(own_id: NodeId, message: &SyncMessage, links: &Vec<Link>) -> (out: Vec<
    Outgoing,
>)
    ensures
        parcels(out@) == sync_to_each(reachable(own_id, links@), message@),
{
    let targets = reachable_peers(own_id, links);
    let mut out: Vec<Outgoing> = Vec::new();
    let mut i: usize = 0;
    while i < targets.len()
        invariant
            i <= targets@.len(),
            parcels(out@) =~= sync_to_each(targets@.take(i as int), message@),
        decreases targets@.len() - i,
    {
        let ghost before = parcels(out@);
        out.push(Outgoing::Sync { to: targets[i], message: message.clone() });
        assert(parcels(out@) =~= before.push(
            Parcel::Sync { to: targets@[i as int], message: message@ },
        ));
        i = i + 1;
    }
    assert(targets@.take(targets@.len() as int) =~= targets@);
    out
}

/// What is sent when a change feed batch is broadcast: one copy to every reachable peer.
pub fn broadcast_feed(own_id: NodeId, feed: &BatchedChangeFeed, links: &Vec<Link>) -> (out: Vec<
    Outgoing,
>)
    ensures
        parcels(out@) == wire_to_each(reachable(own_id, links@), WireContent::Feed(feed@)),
{
    let targets = reachable_peers(own_id, links);
    let mut out: Vec<Outgoing> = Vec::new();
    let mut i: usize = 0;
    while i < targets.len()
        invariant
            i <= targets@.len(),
            parcels(out@) =~= wire_to_each(targets@.take(i as int), WireContent::Feed(feed@)),
        decreases targets@.len() - i,
    {
        let ghost before = parcels(out@);
        let message = WireMessage::Feed(feed.clone());
        out.push(Outgoing::Wire { to: targets[i], message });
        assert(parcels(out@) =~= before.push(
            Parcel::Wire { to: targets@[i as int], message: WireContent::Feed(feed@) },
        ));
        i = i + 1;
    }
    assert(targets@.take(targets@.len() as int) =~= targets@);
    out
}

/// Route engine actions to peers: what is sent, in order.
pub fn route_actions(own_id: NodeId, actions: &Vec<EngineAction>, links: &Vec<Link>) -> (out: Vec<
    Outgoing,
>)
    ensures
        parcels(out@) == routed(own_id, engine::action_contents(actions@), links@),
{
    let ghost all = engine::action_contents(actions@);
    let mut out: Vec<Outgoing> = Vec::new();
    let mut i: usize = 0;
    assert(parcels(out@) =~= routed(own_id, all.take(0), links@));
    while i < actions.len()
        invariant
            i <= actions@.len(),
            all == engine::action_contents(actions@),
            parcels(out@) == routed(own_id, all.take(i as int), links@),
        decreases actions@.len() - i,
    {
        let ghost before = parcels(out@);
        proof {
            assert(all.take(i + 1).drop_last() =~= all.take(i as int));
            assert(all.take(i + 1).last() == actions@[i as int]@);
        }
        let ghost added = routed_one(own_id, actions@[i as int]@, links@);
        match &actions[i] {
            EngineAction::BroadcastSync(message) => {
                let mut copies = broadcast_sync(own_id, message, links);
                let ghost sent = copies@;
                assert(parcels(sent) == added);
                out.append(&mut copies);
                assert(parcels(out@) =~= before + added);
            },
            EngineAction::SendSync { target, message } => {
                if can_reach(*target, links) {
                    out.push(Outgoing::Sync { to: *target, message: message.clone() });
                }
                assert(parcels(out@) =~= before + added);
            },
            EngineAction::ScheduleDelayed { delay, message } => {
                out.push(Outgoing::Later { delay: *delay, message: message.clone() });
                assert(parcels(out@) =~= before + added);
            },
        }
        i = i + 1;
    }
    assert(all.take(all.len() as int) =~= all);
    out
}

/// A reachable peer is no other than one of the links that is up, and not the node itself.
pub proof fn reachable_peers_are_up(own: NodeId, links: Seq<Link>)
    ensures
        forall|node: NodeId| #[trigger]
            reachable(own, links).contains(node) <==> node != own && links.contains(
                Link { node, up: true },
            ),
    decreases links.len(),
{
    let all = reachable(own, links);
    if links.len() > 0 {
        let rest = links.drop_last();
        let last = links.last();
        reachable_peers_are_up(own, rest);
        assert forall|node: NodeId| #[trigger] all.contains(node) <==> node != own
            && links.contains(Link { node, up: true }) by {
            let link = Link { node, up: true };
            if all.contains(node) {
                let i = all.index_of(node);
                if i < reachable(own, rest).len() {
                    assert(reachable(own, rest)[i] == node);
                    assert(reachable(own, rest).contains(node));
                    let k = rest.index_of(link);
                    assert(links[k] == link);
                } else {
                    assert(links[links.len() - 1] == link);
                }
            }
            if node != own && links.contains(link) {
                let k = links.index_of(link);
                if k < rest.len() {
                    assert(rest[k] == link);
                    assert(reachable(own, rest).contains(node));
                    let i = reachable(own, rest).index_of(node);
                    assert(all[i] == node);
                } else {
                    assert(all[all.len() - 1] == node);
                }
            }
        }
    }
}

/// A node sends nothing to itself and nothing across a broken link, except what waits for its
/// delay.
pub proof fn nothing_crosses_a_broken_link(
    own: NodeId,
    actions: Seq<ActionContent>,
    links: Seq<Link>,
)
    ensures
        forall|i: int|
            0 <= i < routed(own, actions, links).len() ==> match #[trigger] routed(
                own,
                actions,
                links,
            )[i] {
                Parcel::Sync { to, message } => links.contains(Link { node: to, up: true }),
                Parcel::Wire { to, message } => false,
                Parcel::Later { delay, message } => true,
            },
    decreases actions.len(),
{
    if actions.len() > 0 {
        nothing_crosses_a_broken_link(own, actions.drop_last(), links);
        reachable_peers_are_up(own, links);
        let rest = routed(own, actions.drop_last(), links);
        let one = routed_one(own, actions.last(), links);
        let all = routed(own, actions, links);
        assert forall|i: int| 0 <= i < all.len() implies match #[trigger] all[i] {
            Parcel::Sync { to, message } => links.contains(Link { node: to, up: true }),
            Parcel::Wire { to, message } => false,
            Parcel::Later { delay, message } => true,
        } by {
            if i < rest.len() {
                assert(all[i] == rest[i]);
            } else {
                let k = i - rest.len();
                assert(all[i] == one[k]);
                if let ActionContent::BroadcastSync(message) = actions.last() {
                    assert(reachable(own, links).contains(reachable(own, links)[k]));
                }
            }
        }
    }
}

/// Whoever can be delivered to, other than the node itself, gets a broadcast, once for each link
/// and in the order of the links.
pub proof fn reachable_peers_are_those_up(own: NodeId, links: Seq<Link>)
    ensures
        ({
            let up = links.filter(|link: Link| link.up && link.node != own);
            &&& reachable(own, links).len() == up.len()
            &&& forall|i: int|
                0 <= i < up.len() ==> #[trigger] reachable(own, links)[i] == up[i].node
        }),
    decreases links.len(),
{
    reveal(Seq::filter);
    if links.len() > 0 {
        reachable_peers_are_those_up(own, links.drop_last());
    }
}

/// What one action becomes. A broadcast is one copy of the message for each link that is up to
/// another node, in order. A message to one node is sent if there is such a link to it, and lost
/// otherwise. What is delayed waits, with its delay.
pub proof fn action_reaches_its_targets(own: NodeId, action: ActionContent, links: Seq<Link>)
    ensures
        ({
            let out = routed_one(own, action, links);
            match action {
                ActionContent::BroadcastSync(message) => {
                    let up = links.filter(|link: Link| link.up && link.node != own);
                    &&& out.len() == up.len()
                    &&& forall|i: int|
                        0 <= i < up.len() ==> #[trigger] out[i] == (Parcel::Sync {
                            to: up[i].node,
                            message,
                        })
                },
                ActionContent::SendSync { target, message } => {
                    let there = exists|i: int|
                        0 <= i < links.len() && (#[trigger] links[i]).node == target
                            && links[i].up;
                    &&& there ==> out.len() == 1 && out[0] == (Parcel::Sync { to: target, message })
                    &&& !there ==> out.len() == 0
                },
                ActionContent::ScheduleDelayed { delay, message } => out.len() == 1 && out[0] == (
                Parcel::Later { delay, message }),
            }
        }),
{
    reachable_peers_are_those_up(own, links);
    if let ActionContent::SendSync { target, message } = action {
        let link = Link { node: target, up: true };
        if links.contains(link) {
            let i = links.index_of(link);
            assert(links[i].node == target && links[i].up);
        }
        if exists|i: int|
            0 <= i < links.len() && (#[trigger] links[i]).node == target && links[i].up {
            let i = choose|i: int|
                0 <= i < links.len() && (#[trigger] links[i]).node == target && links[i].up;
            assert(links[i] == link);
        }
    }
}

/// Actions are performed one after the other: what several become is what the first ones become,
/// and behind it what the last becomes.
pub proof fn actions_are_routed_in_order(
    own: NodeId,
    first: Seq<ActionContent>,
    second: Seq<ActionContent>,
    links: Seq<Link>,
)
    ensures
        routed(own, first + second, links) == routed(own, first, links) + routed(
            own,
            second,
            links,
        ),
        second.len() == 1 ==> routed(own, second, links) == routed_one(own, second[0], links),
    decreases second.len(),
{
    if second.len() == 0 {
        assert(first + second =~= first);
        assert(routed(own, first, links) + routed(own, second, links) =~= routed(
            own,
            first,
            links,
        ));
    } else {
        let rest = second.drop_last();
        actions_are_routed_in_order(own, first, rest, links);
        assert((first + second).drop_last() =~= first + rest);
        assert((first + second).last() == second.last());
        assert(routed(own, first + second, links) =~= routed(own, first, links) + routed(
            own,
            second,
            links,
        ));
        if second.len() == 1 {
            assert(rest =~= Seq::<ActionContent>::empty());
            assert(routed(own, second, links) =~= routed_one(own, second[0], links));
        }
    }
}

/// What is flushed goes as one batch, with every pending change in order, to each link that is up
/// to another node; nothing pending is nothing sent.
pub proof fn flushed_changes_reach_the_peers(
    own: NodeId,
    feed: Seq<ChangeContent>,
    links: Seq<Link>,
)
    ensures
        ({
            let out = routed_feed(own, feed, links);
            let up = links.filter(|link: Link| link.up && link.node != own);
            &&& feed.len() == 0 ==> out.len() == 0
            &&& feed.len() > 0 ==> {
                &&& out.len() == up.len()
                &&& forall|i: int|
                    0 <= i < up.len() ==> #[trigger] out[i] == (Parcel::Wire {
                        to: up[i].node,
                        message: WireContent::Feed(
                            FeedContent { source_node: own, notifications: feed },
                        ),
                    })
            }
        }),
{
    reachable_peers_are_those_up(own, links);
}

} // verus!
