//! Buffer access: reading and draining the inputs a set of buffer nodes
//! holds for one session. A gate over several buffers can fire as many
//! times as the least-stocked buffer allows, pulling one input from every
//! buffer each time.

use vstd::prelude::*;

use crate::NodeId;
use crate::SessionId;
use crate::cancel::OperationError;
use crate::engine::Engine;
use crate::operation::first_input_index;
use crate::operation::session_input_count;

verus! {

broadcast use vstd::std_specs::hash::group_hash_axioms;

impl<V> Engine<V> {
    /// How many inputs one buffer node holds for the session. A missing
    /// buffer is a broken link.
    pub fn buffered_count(&self, buffer: NodeId, session: SessionId) -> (r: Result<
        usize,
        OperationError,
    >)
        ensures
            r is Ok <==> self.nodes@.contains_key(buffer),
            r matches Ok(count) ==> count == session_input_count(
                self.nodes@[buffer].inputs@,
                session,
            ),
    {
        match self.nodes.get(&buffer) {
            Some(node) => Ok(node.session_input_total(session)),
            None => Err(OperationError::Broken(None)),
        }
    }

    /// Pull the oldest input the buffer holds for the session.
    pub fn pull_from_buffer(&mut self, buffer: NodeId, session: SessionId) -> (r: Result<
        V,
        OperationError,
    >)
        ensures
            !old(self).nodes@.contains_key(buffer) ==> r is Err && *final(self) == *old(self),
            old(self).nodes@.contains_key(buffer) ==> {
                let idx = first_input_index(old(self).nodes@[buffer].inputs@, session);
                &&& idx == -1 ==> r is Err && final(self).nodes@ == old(self).nodes@
                &&& idx >= 0 ==> r == Ok::<V, OperationError>(
                    old(self).nodes@[buffer].inputs@[idx].data,
                ) && final(self).nodes@[buffer].inputs@ == old(
                    self,
                ).nodes@[buffer].inputs@.remove(idx) && final(self).nodes@ == old(
                    self,
                ).nodes@.insert(buffer, final(self).nodes@[buffer])
            },
    {
        if !self.nodes.contains_key(&buffer) {
            return Err(OperationError::Broken(None));
        }
        match self.nodes.remove(&buffer) {
            Some(mut node) => {
                let taken = node.take_input(session);
                self.nodes.insert(buffer, node);
                proof {
                    assert(self.nodes@ =~= old(self).nodes@.insert(buffer, self.nodes@[buffer]));
                    if first_input_index(old(self).nodes@[buffer].inputs@, session) == -1 {
                        assert(self.nodes@ =~= old(self).nodes@);
                    }
                }
                match taken {
                    Some(data) => Ok(data),
                    None => Err(OperationError::NotReady),
                }
            }
            None => Err(OperationError::Broken(None)),
        }
    }

    /// The joint count of a set of buffers for the session: the least
    /// count among them, which is how many complete pulls the set can
    /// still supply. An empty set counts zero; a missing buffer is a
    /// broken link.
    pub fn buffered_count_all(&self, buffers: &Vec<NodeId>, session: SessionId) -> (r: Result<
        usize,
        OperationError,
    >)
        ensures
            r is Ok ==> forall|j: int|
                0 <= j < buffers@.len() ==> self.nodes@.contains_key(#[trigger] buffers@[j]),
            r matches Ok(count) ==> {
                &&& buffers@.len() == 0 ==> count == 0
                &&& buffers@.len() > 0 ==> (forall|j: int|
                    0 <= j < buffers@.len() ==> count <= session_input_count(
                        self.nodes@[#[trigger] buffers@[j]].inputs@,
                        session,
                    )) && (exists|j: int|
                    0 <= j < buffers@.len() && count == session_input_count(
                        self.nodes@[#[trigger] buffers@[j]].inputs@,
                        session,
                    ))
            },
    {
        let n = buffers.len();
        let mut i: usize = 0;
        let mut least: Option<usize> = None;
        while i < n
            invariant
                i <= n,
                n == buffers@.len(),
                forall|j: int| 0 <= j < i ==> self.nodes@.contains_key(#[trigger] buffers@[j]),
                i == 0 ==> least is None,
                i > 0 ==> (least matches Some(m) && (forall|j: int|
                    0 <= j < i ==> m <= session_input_count(
                        self.nodes@[#[trigger] buffers@[j]].inputs@,
                        session,
                    )) && (exists|j: int|
                    0 <= j < i && m == session_input_count(
                        self.nodes@[#[trigger] buffers@[j]].inputs@,
                        session,
                    ))),
            decreases n - i,
        {
            let count = match self.buffered_count(buffers[i], session) {
                Ok(count) => count,
                Err(error) => {
                    return Err(error);
                }
            };
            least = match least {
                Some(m) => if count < m {
                    Some(count)
                } else {
                    Some(m)
                },
                None => Some(count),
            };
            i = i + 1;
        }
        match least {
            Some(m) => Ok(m),
            None => Ok(0),
        }
    }

    /// Pull one input for the session from every buffer of the set, in
    /// order: for distinct buffers, the pull succeeds exactly when every
    /// buffer holds input for the session, and then yields each buffer's
    /// oldest such input. When any buffer cannot supply one the pull
    /// fails; callers check the joint count first.
    pub fn pull_all(&mut self, buffers: &Vec<NodeId>, session: SessionId) -> (r: Result<
        Vec<V>,
        OperationError,
    >)
        ensures
            r matches Ok(items) ==> items@.len() == buffers@.len(),
            (forall|j: int, k: int|
                0 <= j < k < buffers@.len() ==> (#[trigger] buffers@[j]) != (#[trigger] buffers@[
                    k
                ])) ==> (
            r matches Ok(items) ==> (forall|j: int|
                0 <= j < buffers@.len() ==> ({
                    let b = #[trigger] buffers@[j];
                    let idx = first_input_index(old(self).nodes@[b].inputs@, session);
                    &&& old(self).nodes@.contains_key(b)
                    &&& idx >= 0
                    &&& items@[j] == old(self).nodes@[b].inputs@[idx].data
                }))),
    {
        let ghost distinct = forall|j: int, k: int|
            0 <= j < k < buffers@.len() ==> (#[trigger] buffers@[j]) != (#[trigger] buffers@[k]);
        let mut items: Vec<V> = Vec::new();
        let n = buffers.len();
        let mut i: usize = 0;
        while i < n
            invariant
                i <= n,
                n == buffers@.len(),
                items@.len() == i,
                distinct == (forall|j: int, k: int|
                    0 <= j < k < buffers@.len() ==> (#[trigger] buffers@[j]) != (#[trigger] buffers@[k])),
                distinct ==> forall|k: int|
                    i <= k < n ==> ({
                        let b = #[trigger] buffers@[k];
                        &&& self.nodes@.contains_key(b) == old(self).nodes@.contains_key(b)
                        &&& old(self).nodes@.contains_key(b) ==> self.nodes@[b] == old(
                            self,
                        ).nodes@[b]
                    }),
                distinct ==> forall|j: int|
                    0 <= j < i ==> ({
                        let b = #[trigger] buffers@[j];
                        let idx = first_input_index(old(self).nodes@[b].inputs@, session);
                        &&& old(self).nodes@.contains_key(b)
                        &&& idx >= 0
                        &&& items@[j] == old(self).nodes@[b].inputs@[idx].data
                    }),
            decreases n - i,
        {
            let ghost snap = self.nodes@;
            match self.pull_from_buffer(buffers[i], session) {
                Ok(data) => items.push(data),
                Err(error) => {
                    return Err(error);
                }
            }
            proof {
                if distinct {
                    let b_here = buffers@[i as int];
                    assert(forall|j2: int, k2: int|
                        0 <= j2 < k2 < buffers@.len() ==> (#[trigger] buffers@[j2]) != (
                        #[trigger] buffers@[k2]));
                    assert(snap.contains_key(b_here) == old(self).nodes@.contains_key(b_here));
                    assert(old(self).nodes@.contains_key(b_here) ==> snap[b_here] == old(
                        self,
                    ).nodes@[b_here]);
                    crate::operation::lemma_first_input_index(snap[b_here].inputs@, session);
                    assert(snap.contains_key(b_here));
                    assert(first_input_index(snap[b_here].inputs@, session) >= 0);
                    assert(old(self).nodes@.contains_key(b_here));
                    assert(snap[b_here] == old(self).nodes@[b_here]);
                    assert(items@[i as int] == old(self).nodes@[b_here].inputs@[first_input_index(
                        old(self).nodes@[b_here].inputs@,
                        session,
                    )].data);
                    assert forall|k: int| i + 1 <= k < n implies ({
                        let b = #[trigger] buffers@[k];
                        &&& self.nodes@.contains_key(b) == old(self).nodes@.contains_key(b)
                        &&& old(self).nodes@.contains_key(b) ==> self.nodes@[b] == old(
                            self,
                        ).nodes@[b]
                    }) by {
                        assert(0 <= i < k < buffers@.len());
                        assert(buffers@[i as int] != buffers@[k]);
                    }
                }
            }
            i = i + 1;
        }
        Ok(items)
    }
}

} // verus!
