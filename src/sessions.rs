//! The set of TLS session ids currently live in the enclave.

use vstd::prelude::*;

verus! {

/// Why a session id was refused.
#[derive(Clone, Copy, Debug, PartialEq, Eq, Structural)]
pub enum SessionError {
    /// Zero is reserved: it asks for a new session.
    ReservedSessionId,
    /// The enclave handed out an id that is already live.
    SessionIdInUse(u32),
}

/// Live session ids: positive and pairwise distinct.
pub struct SessionTable {
    live: Vec<u32>,
}

impl SessionTable {
    pub closed spec fn spec_live(&self) -> Seq<u32> {
        self.live@
    }

    /// The ids of the live sessions.
    pub open spec fn live_set(&self) -> Set<u32> {
        self.spec_live().to_set()
    }

    pub open spec fn wf(&self) -> bool {
        &&& self.spec_live().no_duplicates()
        &&& forall|i: int| 0 <= i < self.spec_live().len() ==> #[trigger] self.spec_live()[i] > 0
    }

    pub fn new() -> (r: SessionTable)
        ensures
            r.wf(),
            r.live_set() == Set::<u32>::empty(),
    {
        let t = SessionTable { live: Vec::new() };
        assert(t.live_set() =~= Set::<u32>::empty());
        t
    }

    fn position(&self, id: u32) -> (r: Option<usize>)
        ensures
            match r {
                Some(i) => i < self.spec_live().len() && self.spec_live()[i as int] == id,
                None => !self.spec_live().contains(id),
            },
    {
        let mut i: usize = 0;
        while i < self.live.len()
            invariant
                i <= self.spec_live().len(),
                forall|k: int| 0 <= k < i ==> self.spec_live()[k] != id,
            decreases self.spec_live().len() - i,
        {
            if self.live[i] == id {
                return Some(i);
            }
            i = i + 1;
        }
        None
    }

    /// Whether session `id` is live.
    pub fn is_live(&self, id: u32) -> (r: bool)
        ensures
            r == self.live_set().contains(id),
    {
        self.position(id).is_some()
    }

    /// Number of live sessions.
    pub fn len(&self) -> (r: usize)
        requires
            self.wf(),
        ensures
            r == self.live_set().len(),
    {
        proof {
            self.spec_live().unique_seq_to_set();
        }
        self.live.len()
    }

    /// Records a session id that the enclave has just allocated. The id must
    /// be positive and distinct from every live one; otherwise the table is
    /// left as it was.
    pub fn register(&mut self, id: u32) -> (r: Result<(), SessionError>)
        requires
            old(self).wf(),
        ensures
            final(self).wf(),
            id == 0 ==> r == Err::<(), SessionError>(SessionError::ReservedSessionId),
            id != 0 && old(self).live_set().contains(id) ==> r == Err::<(), SessionError>(
                SessionError::SessionIdInUse(id),
            ),
            id != 0 && !old(self).live_set().contains(id) ==> r is Ok,
            r is Ok ==> final(self).live_set() == old(self).live_set().insert(id),
            r is Err ==> final(self).live_set() == old(self).live_set(),
    {
        if id == 0 {
            return Err(SessionError::ReservedSessionId);
        }
        if self.position(id).is_some() {
            return Err(SessionError::SessionIdInUse(id));
        }
        let ghost before = self.spec_live();
        self.live.push(id);
        assert(self.spec_live() == before.push(id));
        assert(self.live_set() =~= before.to_set().insert(id)) by {
            assert forall|x: u32| self.live_set().contains(x) <==> before.to_set().insert(id).contains(x) by {
                if self.live_set().contains(x) {
                    let k = choose|k: int| 0 <= k < self.spec_live().len() && self.spec_live()[k] == x;
                    if k < before.len() {
                        assert(before[k] == x);
                    }
                }
                if before.to_set().contains(x) {
                    let k = choose|k: int| 0 <= k < before.len() && before[k] == x;
                    assert(self.spec_live()[k] == x);
                }
                if x == id {
                    assert(self.spec_live()[before.len() as int] == x);
                }
            }
        }
        Ok(())
    }

    /// Forgets session `id`, whose close the enclave has acknowledged.
    pub fn release(&mut self, id: u32)
        requires
            old(self).wf(),
        ensures
            final(self).wf(),
            final(self).live_set() == old(self).live_set().remove(id),
    {
        match self.position(id) {
            None => {
                assert(self.live_set() =~= old(self).live_set().remove(id));
            },
            Some(i) => {
                let ghost before = self.spec_live();
                self.live.remove(i);
                assert(self.spec_live() == before.remove(i as int));
                assert forall|x: u32| self.live_set().contains(x) <==> before.to_set().remove(id).contains(x) by {
                    if self.live_set().contains(x) {
                        let k = choose|k: int| 0 <= k < self.spec_live().len() && self.spec_live()[k] == x;
                        if k < i {
                            assert(before[k] == x);
                        } else {
                            assert(before[k + 1] == x);
                        }
                    }
                    if before.to_set().remove(id).contains(x) {
                        let k = choose|k: int| 0 <= k < before.len() && before[k] == x;
                        if k < i {
                            assert(self.spec_live()[k] == x);
                        } else if k > i {
                            assert(self.spec_live()[k - 1] == x);
                        }
                    }
                }
                assert(self.live_set() =~= before.to_set().remove(id));
            },
        }
    }
}

} // verus!
