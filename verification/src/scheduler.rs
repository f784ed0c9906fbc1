//! The bookkeeping of the component scheduler: which components are registered, which
//! calls wait for an answer, and the counter that numbers the calls.
//!
//! The scheduler decides; whoever drives it calls the components and the callbacks it
//! names, and hands back what the components answered.
use vstd::prelude::*;
use std::collections::VecDeque;
use crate::component::{ComponentType, Error, Result};
use crate::local_single_scheduler::Polled;
use crate::payload::RawPayload;
use crate::queue::{queue_step, QueueOp};
use crate::registry::Registry;

verus! {

/// The counter that numbers the messages of asynchronous calls to components.
pub struct MsgSeqCounter {
    count: usize,
}

impl MsgSeqCounter {
    /// The number of the last message; zero before the first.
    pub closed spec fn value(&self) -> usize {
        self.count
    }

    /// A counter before the first message.
    pub fn new() -> (c: Self)
        ensures
            c.value() == 0,
    {
        MsgSeqCounter { count: 0 }
    }
}

/// The number of the next message: one more than the last, wrapping to zero after the
/// largest `usize`.
pub fn gen_msg_seq(counter: &mut MsgSeqCounter) -> (seq: usize)
    ensures
        old(counter).value() < usize::MAX ==> seq == old(counter).value() + 1,
        old(counter).value() == usize::MAX ==> seq == 0,
        final(counter).value() == seq,
{
    if counter.count == usize::MAX {
        counter.count = 0;
    } else {
        counter.count = counter.count + 1;
    }
    counter.count
}

/// A call whose component has not answered yet, with the callback that takes the answer.
pub struct AsyncQueueElement<C> {
    pub to: ComponentType,
    pub seq: usize,
    pub callback_once: C,
}

/// The scheduler's state, with components of type `N` and callbacks of type `C`.
pub struct Scheduler<N, C> {
    components: Registry<ComponentType, N>,
    async_queue: VecDeque<AsyncQueueElement<C>>,
}

impl<N, C> Scheduler<N, C> {
    /// The tables are well formed: no component type is registered twice, and every
    /// waiting call goes to a registered component.
    pub closed spec fn wf(&self) -> bool {
        &&& self.components.wf()
        &&& forall|i: int|
            #![trigger self.async_queue@[i]]
            0 <= i < self.async_queue@.len() ==> self.components.entries_map().contains_key(
                self.async_queue@[i].to@,
            )
    }

    /// The component registered under each component type.
    pub closed spec fn components(&self) -> Map<Seq<char>, N> {
        self.components.entries_map()
    }

    /// The registered component types, in the order of their first registration.
    pub closed spec fn component_order(&self) -> Seq<Seq<char>> {
        self.components.keys()
    }

    /// The calls that wait for an answer, oldest first.
    pub closed spec fn pending_calls(&self) -> Seq<AsyncQueueElement<C>> {
        self.async_queue@
    }

    /// In a well-formed state the types of `components` are those of `component_order`,
    /// each once, and every waiting call goes to a registered component (components are
    /// never removed), so none is dropped for want of its component.
    pub proof fn lemma_wf(&self)
        requires
            self.wf(),
        ensures
            forall|k: Seq<char>| #[trigger] self.components().contains_key(k) <==> self.component_order().contains(k),
            self.component_order().no_duplicates(),
            forall|i: int|
                0 <= i < self.pending_calls().len() ==> self.components().contains_key(
                    (#[trigger] self.pending_calls()[i]).to@,
                ),
    {
        self.components.lemma_dom();
    }

    /// A scheduler with no component and nothing queued.
    pub fn new() -> (s: Self)
        ensures
            s.wf(),
            s.components() == Map::<Seq<char>, N>::empty(),
            s.component_order() == Seq::<Seq<char>>::empty(),
            s.pending_calls() == Seq::<AsyncQueueElement<C>>::empty(),
    {
        Scheduler {
            components: Registry::new(),
            async_queue: VecDeque::new(),
        }
    }

    /// Registers `component` under `component_type`, in place of a component registered
    /// under it before.
    pub fn register(&mut self, component_type: ComponentType, component: N)
        requires
            old(self).wf(),
        ensures
            final(self).wf(),
            final(self).components() == old(self).components().insert(component_type@, component),
            old(self).component_order().contains(component_type@) ==> final(self).component_order() == old(
                self,
            ).component_order(),
            !old(self).component_order().contains(component_type@) ==> final(self).component_order() == old(
                self,
            ).component_order().push(component_type@),
            final(self).pending_calls() == old(self).pending_calls(),
    {
        self.components.insert(component_type, component);
    }

    /// The component registered under `component_type`, if any.
    pub fn component(&self, component_type: &ComponentType) -> (r: Option<&N>)
        requires
            self.wf(),
        ensures
            self.components().contains_key(component_type@) ==> r == Some(&self.components()[component_type@]),
            !self.components().contains_key(component_type@) ==> r is None,
    {
        self.components.get(component_type)
    }

    /// The component that a synchronous call to `component_type` goes to: the error
    /// `ComponentNotFound` where no component of that type is registered.
    pub fn sync_call_target(&self, component_type: &ComponentType) -> (r: Result<&N>)
        requires
            self.wf(),
        ensures
            self.components().contains_key(component_type@) ==> r == Ok::<&N, Error>(&self.components()[component_type@]),
            !self.components().contains_key(component_type@) ==> r == Err::<&N, Error>(
                Error::ComponentNotFound(*component_type),
            ),
    {
        match self.components.get(component_type) {
            Some(component) => Ok(component),
            None => Err(Error::ComponentNotFound(component_type.clone())),
        }
    }

    /// The first half of an asynchronous call to `component_type`: the error
    /// `ComponentNotFound` where no component of that type is registered; else the number that
    /// `counter` gives the new message, and the component, to which the caller hands the call,
    /// and whose verdict it hands to `settle_async_call`. One counter numbers the
    /// messages of every scheduler that shares it.
    pub fn prepare_async_call(&self, component_type: &ComponentType, counter: &mut MsgSeqCounter) -> (r: Result<
        (usize, &N),
    >)
        requires
            self.wf(),
        ensures
            !self.components().contains_key(component_type@) ==> r == Err::<(usize, &N), Error>(
                Error::ComponentNotFound(*component_type),
            ) && final(counter).value() == old(counter).value(),
            self.components().contains_key(component_type@) ==> (r matches Ok((seq, component)) && seq
                == final(counter).value() && *component == self.components()[component_type@])
                && (old(counter).value() < usize::MAX ==> final(counter).value() == old(counter).value() + 1)
                && (old(counter).value() == usize::MAX ==> final(counter).value() == 0),
    {
        match self.components.get(component_type) {
            Some(component) => Ok((gen_msg_seq(counter), component)),
            None => Err(Error::ComponentNotFound(component_type.clone())),
        }
    }

    /// The second half of an asynchronous call, given whether the component accepted it: an
    /// accepted call waits at the end of the queue, a refusal is the call's error.
    pub fn settle_async_call(&mut self, component_type: ComponentType, seq: usize, callback: C, accepted: Result<()>) -> (r:
        Result<()>)
        requires
            old(self).wf(),
            old(self).components().contains_key(component_type@),
        ensures
            final(self).wf(),
            final(self).components() == old(self).components(),
            final(self).component_order() == old(self).component_order(),
            match accepted {
                Ok(_) => r is Ok && final(self).pending_calls() == old(self).pending_calls().push(
                    AsyncQueueElement { to: component_type, seq, callback_once: callback },
                ),
                Err(e) => r == Err::<(), Error>(e) && final(self).pending_calls() == old(
                    self,
                ).pending_calls(),
            },
    {
        match accepted {
            Ok(()) => {
                self.async_queue.push_back(AsyncQueueElement { to: component_type, seq, callback_once: callback });
                Ok(())
            },
            Err(e) => Err(e),
        }
    }

    /// Takes the oldest waiting call off the queue and hands it back with its component, to be
    /// polled.
    pub fn take_async_work(&mut self) -> (r: Option<(AsyncQueueElement<C>, &N)>)
        requires
            old(self).wf(),
        ensures
            queue_step(old(self).pending_calls(), QueueOp::Take) == (
                final(self).pending_calls(),
                match r {
                    Some((element, _)) => Some(element),
                    None => None::<AsyncQueueElement<C>>,
                },
            ),
            final(self).wf(),
            final(self).components() == old(self).components(),
            final(self).component_order() == old(self).component_order(),
            old(self).pending_calls().len() == 0 ==> r is None && final(self).pending_calls() == old(
                self,
            ).pending_calls(),
            old(self).pending_calls().len() > 0 ==> {
                &&& final(self).pending_calls() == old(self).pending_calls().drop_first()
                &&& r matches Some((element, component))
                &&& element == old(self).pending_calls()[0]
                &&& *component == old(self).components()[element.to@]
            },
    {
        match self.async_queue.pop_front() {
            None => None,
            Some(element) => {
                assert(self.async_queue@ =~= old(self).async_queue@.drop_first());
                assert(old(self).async_queue@[0] == element);
                match self.components.get(&element.to) {
                    Some(component) => Some((element, component)),
                    None => None,
                }
            },
        }
    }

    /// Settles a waiting call after its component was polled again: an answer goes to the
    /// call's callback, which the caller then invokes; a call not answered yet goes
    /// back to the end of the queue; a call whose poll failed is dropped.
    pub fn settle_polled(&mut self, element: AsyncQueueElement<C>, polled: Result<Polled<RawPayload>>) -> (r:
        Option<(C, RawPayload)>)
        requires
            old(self).wf(),
            old(self).components().contains_key(element.to@),
        ensures
            polled matches Ok(Polled::Pending) ==> final(self).pending_calls() == queue_step(
                old(self).pending_calls(),
                QueueOp::Push(element),
            ).0,
            final(self).wf(),
            final(self).components() == old(self).components(),
            final(self).component_order() == old(self).component_order(),
            match polled {
                Ok(Polled::Ready(answer)) => r == Some((element.callback_once, answer))
                    && final(self).pending_calls() == old(self).pending_calls(),
                Ok(Polled::Pending) => r is None && final(self).pending_calls() == old(
                    self,
                ).pending_calls().push(element),
                Err(_) => r is None && final(self).pending_calls() == old(self).pending_calls(),
            },
    {
        match polled {
            Ok(Polled::Ready(answer)) => Some((element.callback_once, answer)),
            Ok(Polled::Pending) => {
                self.async_queue.push_back(element);
                None
            },
            Err(_) => None,
        }
    }

}

} // verus!
