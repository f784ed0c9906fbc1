//! The bookkeeping of the scheduler that runs all its nodes on one thread: which
//! nodes are registered, which calls wait for an answer, who subscribed to which
//! topic, and which broadcasts wait for delivery.
//!
//! The scheduler decides; whoever drives it calls the nodes and the callbacks it
//! names, and hands back what the nodes answered.
use vstd::prelude::*;
use std::collections::VecDeque;
use crate::core_node::{AsyncCallID, Error, MethodName, NodeID, Result, TopicName};
use crate::payload::RawPayload;
use crate::registry::{kept_in, lemma_kept_in, lemma_kept_in_step, names, subscribed, subscribers_of, unsubscribed};
use crate::registry::{Named, Registry, SubscriberTable};
use crate::queue::{queue_step, QueueOp};

verus! {

/// What a node answered when it was polled: done with a value, or not yet.
pub enum Polled<T> {
    Ready(T),
    Pending,
}

/// A call whose node has not answered yet, with the callback that takes the answer.
pub struct AsyncQueueElement<C> {
    pub to: NodeID,
    pub call_id: AsyncCallID,
    pub method_name: MethodName,
    pub payload: RawPayload,
    pub callback_once: C,
}

/// Draws a fresh call id with `uuid::Uuid::new_v4`. The id is random, so nothing is
/// stated of it.
#[verifier::external_body]
fn new_call_id() -> AsyncCallID {
    AsyncCallID(uuid::Uuid::new_v4())
}

/// The ids of a list of pairs of an id and a node.
pub open spec fn ids_of<N>(s: Seq<(NodeID, N)>) -> Seq<Seq<char>> {
    s.map_values(|e: (NodeID, N)| e.0@)
}

/// The scheduler's state, with nodes of type `N` and callbacks of type `C`.
pub struct Scheduler<N, C> {
    node_registry: Registry<NodeID, N>,
    async_queue: VecDeque<AsyncQueueElement<C>>,
    topic_subscriber_registry: SubscriberTable<TopicName, NodeID>,
    topic_queue: VecDeque<(TopicName, RawPayload)>,
}

impl<N, C> Scheduler<N, C> {
    /// The tables are well formed: no id is registered twice, no topic has two entries,
    /// no node is subscribed twice to one topic, and every waiting call goes to a
    /// registered node.
    pub closed spec fn wf(&self) -> bool {
        &&& self.node_registry.wf()
        &&& self.topic_subscriber_registry.wf()
        &&& forall|i: int|
            #![trigger self.async_queue@[i]]
            0 <= i < self.async_queue@.len() ==> self.node_registry.entries_map().contains_key(
                self.async_queue@[i].to@,
            )
    }

    /// The node registered under each id.
    pub closed spec fn nodes(&self) -> Map<Seq<char>, N> {
        self.node_registry.entries_map()
    }

    /// The registered ids, in the order of their first registration.
    pub closed spec fn node_order(&self) -> Seq<Seq<char>> {
        self.node_registry.keys()
    }

    /// The ids subscribed to each topic that has an entry, in subscription order.
    pub closed spec fn subscribers(&self) -> Map<Seq<char>, Seq<Seq<char>>> {
        self.topic_subscriber_registry.table()
    }

    /// The calls that wait for an answer, oldest first.
    pub closed spec fn pending_calls(&self) -> Seq<AsyncQueueElement<C>> {
        self.async_queue@
    }

    /// The broadcasts that wait for delivery, oldest first.
    pub closed spec fn pending_topics(&self) -> Seq<(TopicName, RawPayload)> {
        self.topic_queue@
    }

    /// In a well-formed state the ids of `nodes` are those of `node_order`, each once, no
    /// topic lists a subscriber twice, and every waiting call goes to a registered node
    /// (nodes are never removed), so none is dropped for want of its node.
    pub proof fn lemma_wf(&self)
        requires
            self.wf(),
        ensures
            forall|k: Seq<char>| #[trigger] self.nodes().contains_key(k) <==> self.node_order().contains(k),
            self.node_order().no_duplicates(),
            crate::registry::lists_distinct(self.subscribers()),
            forall|i: int|
                0 <= i < self.pending_calls().len() ==> self.nodes().contains_key(
                    (#[trigger] self.pending_calls()[i]).to@,
                ),
    {
        self.node_registry.lemma_dom();
        self.topic_subscriber_registry.lemma_lists_distinct();
    }

    /// A broadcast on `topic` goes to each registered subscriber of the topic once, and
    /// to no other node.
    pub proof fn lemma_delivery_reaches_each_once(&self, topic: Seq<char>)
        requires
            self.wf(),
        ensures
            kept_in(subscribers_of(self.subscribers(), topic), self.nodes().dom()).no_duplicates(),
            forall|x: Seq<char>| #[trigger]
                kept_in(subscribers_of(self.subscribers(), topic), self.nodes().dom()).contains(x) <==> (
                subscribers_of(self.subscribers(), topic).contains(x) && self.nodes().contains_key(x)),
    {
        self.lemma_wf();
        let s = subscribers_of(self.subscribers(), topic);
        assert(s.no_duplicates());
        lemma_kept_in(s, self.nodes().dom());
    }

    /// A scheduler with no node, no subscription and nothing queued.
    pub fn new() -> (s: Self)
        ensures
            s.wf(),
            s.nodes() == Map::<Seq<char>, N>::empty(),
            s.node_order() == Seq::<Seq<char>>::empty(),
            s.subscribers() == Map::<Seq<char>, Seq<Seq<char>>>::empty(),
            s.pending_calls() == Seq::<AsyncQueueElement<C>>::empty(),
            s.pending_topics() == Seq::<(TopicName, RawPayload)>::empty(),
    {
        Scheduler {
            node_registry: Registry::new(),
            async_queue: VecDeque::new(),
            topic_subscriber_registry: SubscriberTable::new(),
            topic_queue: VecDeque::new(),
        }
    }

    /// Registers `node` under `node_id`, in place of a node registered under it before.
    pub fn register_node(&mut self, node_id: NodeID, node: N)
        requires
            old(self).wf(),
        ensures
            final(self).wf(),
            final(self).nodes() == old(self).nodes().insert(node_id@, node),
            old(self).node_order().contains(node_id@) ==> final(self).node_order() == old(
                self,
            ).node_order(),
            !old(self).node_order().contains(node_id@) ==> final(self).node_order() == old(
                self,
            ).node_order().push(node_id@),
            final(self).subscribers() == old(self).subscribers(),
            final(self).pending_calls() == old(self).pending_calls(),
            final(self).pending_topics() == old(self).pending_topics(),
    {
        self.node_registry.insert(node_id, node);
    }

    /// The node registered under `node_id`, if any.
    pub fn node(&self, node_id: &NodeID) -> (r: Option<&N>)
        requires
            self.wf(),
        ensures
            self.nodes().contains_key(node_id@) ==> r == Some(&self.nodes()[node_id@]),
            !self.nodes().contains_key(node_id@) ==> r is None,
    {
        self.node_registry.get(node_id)
    }

    /// The registered ids, in the order of their first registration: the order in
    /// which `init` visits the nodes.
    pub fn node_ids(&self) -> (ids: Vec<NodeID>)
        requires
            self.wf(),
        ensures
            names(ids@) == self.node_order(),
    {
        self.node_registry.keys_copy()
    }

    /// Queues a broadcast of `payload` on `topic`, behind those queued before.
    pub fn broadcast_topic(&mut self, topic: TopicName, payload: RawPayload) -> (r: Result<()>)
        requires
            old(self).wf(),
        ensures
            r is Ok,
            final(self).wf(),
            final(self).pending_topics() == queue_step(
                old(self).pending_topics(),
                QueueOp::Push((topic, payload)),
            ).0,
            final(self).pending_topics() == old(self).pending_topics().push((topic, payload)),
            final(self).nodes() == old(self).nodes(),
            final(self).node_order() == old(self).node_order(),
            final(self).subscribers() == old(self).subscribers(),
            final(self).pending_calls() == old(self).pending_calls(),
    {
        self.topic_queue.push_back((topic, payload));
        Ok(())
    }

    /// Subscribes the node `node_id` to `topic`; subscribing twice changes nothing.
    pub fn subscribe_topic(&mut self, node_id: &NodeID, topic: TopicName) -> (r: Result<()>)
        requires
            old(self).wf(),
        ensures
            r is Ok,
            final(self).wf(),
            final(self).subscribers() == subscribed(old(self).subscribers(), topic@, node_id@),
            final(self).nodes() == old(self).nodes(),
            final(self).node_order() == old(self).node_order(),
            final(self).pending_calls() == old(self).pending_calls(),
            final(self).pending_topics() == old(self).pending_topics(),
    {
        self.topic_subscriber_registry.subscribe(topic, node_id);
        Ok(())
    }

    /// Unsubscribes the node `node_id` from `topic`.
    pub fn unsubscribe_topic(&mut self, node_id: &NodeID, topic: TopicName) -> (r: Result<()>)
        requires
            old(self).wf(),
        ensures
            r is Ok,
            final(self).wf(),
            final(self).subscribers() == unsubscribed(old(self).subscribers(), topic@, node_id@),
            subscribers_of(final(self).subscribers(), topic@) == subscribers_of(
                old(self).subscribers(),
                topic@,
            ).filter(|x: Seq<char>| x != node_id@),
            final(self).nodes() == old(self).nodes(),
            final(self).node_order() == old(self).node_order(),
            final(self).pending_calls() == old(self).pending_calls(),
            final(self).pending_topics() == old(self).pending_topics(),
    {
        self.topic_subscriber_registry.unsubscribe(&topic, node_id);
        Ok(())
    }

    /// The first half of a call to the node `node_id`: the error `NodeNotFound` where no
    /// node is registered under the id, else a fresh call id and the node, which the
    /// caller polls and whose answer it hands to `settle_async_call`.
    pub fn prepare_async_call(&self, node_id: &NodeID) -> (r: Result<(AsyncCallID, &N)>)
        requires
            self.wf(),
        ensures
            self.nodes().contains_key(node_id@) <==> r is Ok,
            r matches Ok((_, node)) ==> *node == self.nodes()[node_id@],
            !self.nodes().contains_key(node_id@) ==> r == Err::<(AsyncCallID, &N), Error>(
                Error::NodeNotFound(*node_id),
            ),
    {
        match self.node_registry.get(node_id) {
            Some(node) => Ok((new_call_id(), node)),
            None => Err(Error::NodeNotFound(node_id.clone())),
        }
    }

    /// The second half of a call, given what the node answered when it was first polled:
    /// an error answer is the call's error; a value goes to the callback, which the
    /// caller then invokes; a call not answered yet waits at the end of the queue.
    pub fn settle_async_call(
        &mut self,
        node_id: NodeID,
        call_id: AsyncCallID,
        method_name: MethodName,
        payload: RawPayload,
        callback: C,
        polled: Polled<Result<RawPayload>>,
    ) -> (r: Result<Option<(C, RawPayload)>>)
        requires
            old(self).wf(),
            old(self).nodes().contains_key(node_id@),
        ensures
            final(self).wf(),
            final(self).nodes() == old(self).nodes(),
            final(self).node_order() == old(self).node_order(),
            final(self).subscribers() == old(self).subscribers(),
            final(self).pending_topics() == old(self).pending_topics(),
            match polled {
                Polled::Ready(Ok(v)) => r == Ok::<Option<(C, RawPayload)>, Error>(Some((callback, v)))
                    && final(self).pending_calls() == old(self).pending_calls(),
                Polled::Ready(Err(e)) => r == Err::<Option<(C, RawPayload)>, Error>(e)
                    && final(self).pending_calls() == old(self).pending_calls(),
                Polled::Pending => r == Ok::<Option<(C, RawPayload)>, Error>(None)
                    && final(self).pending_calls() == old(self).pending_calls().push(
                    AsyncQueueElement { to: node_id, call_id, method_name, payload, callback_once: callback },
                ),
            },
    {
        match polled {
            Polled::Ready(Ok(v)) => Ok(Some((callback, v))),
            Polled::Ready(Err(e)) => Err(e),
            Polled::Pending => {
                self.async_queue.push_back(
                    AsyncQueueElement { to: node_id, call_id, method_name, payload, callback_once: callback },
                );
                Ok(None)
            },
        }
    }

    /// Takes the oldest waiting call off the queue and hands it back with its node, to be
    /// polled.
    pub fn take_async_work(&mut self) -> (r: Option<(AsyncQueueElement<C>, &N)>)
        requires
            old(self).wf(),
        ensures
            queue_step(old(self).pending_calls(), QueueOp::Take) == (
                final(self).pending_calls(),
                match r {
                    Some((element, _)) => Some(element),
                    None => None::<AsyncQueueElement<C>>,
                },
            ),
            final(self).wf(),
            final(self).nodes() == old(self).nodes(),
            final(self).node_order() == old(self).node_order(),
            final(self).subscribers() == old(self).subscribers(),
            final(self).pending_topics() == old(self).pending_topics(),
            old(self).pending_calls().len() == 0 ==> r is None && final(self).pending_calls() == old(
                self,
            ).pending_calls(),
            old(self).pending_calls().len() > 0 ==> {
                &&& final(self).pending_calls() == old(self).pending_calls().drop_first()
                &&& r matches Some((element, node))
                &&& element == old(self).pending_calls()[0]
                &&& *node == old(self).nodes()[element.to@]
            },
    {
        match self.async_queue.pop_front() {
            None => None,
            Some(element) => {
                assert(self.async_queue@ =~= old(self).async_queue@.drop_first());
                assert(old(self).async_queue@[0] == element);
                match self.node_registry.get(&element.to) {
                    Some(node) => Some((element, node)),
                    None => None,
                }
            },
        }
    }

    /// Settles a waiting call after its node was polled again: an answer goes to the
    /// call's callback, which the caller then invokes; a call not answered yet goes
    /// back to the end of the queue.
    pub fn settle_polled(&mut self, element: AsyncQueueElement<C>, polled: Polled<Result<RawPayload>>) -> (r:
        Option<(C, Result<RawPayload>)>)
        requires
            old(self).wf(),
            old(self).nodes().contains_key(element.to@),
        ensures
            polled is Pending ==> final(self).pending_calls() == queue_step(
                old(self).pending_calls(),
                QueueOp::Push(element),
            ).0,
            final(self).wf(),
            final(self).nodes() == old(self).nodes(),
            final(self).node_order() == old(self).node_order(),
            final(self).subscribers() == old(self).subscribers(),
            final(self).pending_topics() == old(self).pending_topics(),
            match polled {
                Polled::Ready(answer) => r == Some((element.callback_once, answer))
                    && final(self).pending_calls() == old(self).pending_calls(),
                Polled::Pending => r is None && final(self).pending_calls() == old(
                    self,
                ).pending_calls().push(element),
            },
    {
        match polled {
            Polled::Ready(answer) => Some((element.callback_once, answer)),
            Polled::Pending => {
                self.async_queue.push_back(element);
                None
            },
        }
    }

    /// Takes the oldest waiting broadcast off the queue, with the nodes it goes to: the
    /// topic's subscribers that are registered, in the order of their subscription, each
    /// with its id.
    pub fn take_topic_delivery(&mut self) -> (r: Option<(TopicName, RawPayload, Vec<(NodeID, &N)>)>)
        requires
            old(self).wf(),
        ensures
            queue_step(old(self).pending_topics(), QueueOp::Take) == (
                final(self).pending_topics(),
                match r {
                    Some((topic, payload, _)) => Some((topic, payload)),
                    None => None::<(TopicName, RawPayload)>,
                },
            ),
            final(self).wf(),
            final(self).nodes() == old(self).nodes(),
            final(self).node_order() == old(self).node_order(),
            final(self).subscribers() == old(self).subscribers(),
            final(self).pending_calls() == old(self).pending_calls(),
            old(self).pending_topics().len() == 0 ==> r is None && final(self).pending_topics() == old(
                self,
            ).pending_topics(),
            old(self).pending_topics().len() > 0 ==> {
                &&& final(self).pending_topics() == old(self).pending_topics().drop_first()
                &&& r matches Some((topic, payload, recipients)) && topic == old(
                    self,
                ).pending_topics()[0].0 && payload == old(self).pending_topics()[0].1 && ids_of(
                    recipients@,
                ) == kept_in(
                    subscribers_of(old(self).subscribers(), topic@),
                    old(self).nodes().dom(),
                ) && forall|i: int|
                    0 <= i < recipients@.len() ==> *(#[trigger] recipients@[i]).1 == old(
                        self,
                    ).nodes()[recipients@[i].0@]
            },
    {
        match self.topic_queue.pop_front() {
            None => None,
            Some((topic, payload)) => {
                assert(self.topic_queue@ =~= old(self).topic_queue@.drop_first());
                let subscribers = self.topic_subscriber_registry.subscribers(&topic);
                let ghost subs = names(subscribers@);
                let ghost dom = self.nodes().dom();
                let mut recipients: Vec<(NodeID, &N)> = Vec::new();
                let n = subscribers.len();
                let mut j: usize = 0;
                while j < n
                    invariant
                        n == subscribers@.len(),
                        j <= n,
                        subs == names(subscribers@),
                        self.wf(),
                        dom == self.nodes().dom(),
                        ids_of(recipients@) == kept_in(subs.take(j as int), dom),
                        forall|i: int|
                            0 <= i < recipients@.len() ==> *(#[trigger] recipients@[i]).1 == self.nodes()[recipients@[i].0@],
                    decreases n - j,
                {
                    proof {
                        lemma_kept_in_step(subs, dom, j as int);
                    }
                    match self.node_registry.get(&subscribers[j]) {
                        Some(node) => {
                            let k = subscribers[j].copy_name();
                            assert(ids_of(recipients@.push((k, node))) =~= ids_of(recipients@).push(k.name()));
                            recipients.push((k, node));
                        },
                        None => {},
                    }
                    j = j + 1;
                }
                assert(subs.take(n as int) =~= subs);
                Some((topic, payload, recipients))
            },
        }
    }
}

} // verus!
