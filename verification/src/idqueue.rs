//! A first-in, first-out queue of instance identifiers in which no
//! identifier stands twice.

use vstd::prelude::*;

verus! {

/// A queue of distinct identifiers, oldest first.
#[derive(Debug)]
pub struct IdQueue {
    ids: Vec<u128>,
}

impl View for IdQueue {
    type V = Seq<u128>;

    closed spec fn view(&self) -> Seq<u128> {
        self.ids@
    }
}

impl IdQueue {
    /// No identifier stands twice.
    pub open spec fn wf(&self) -> bool {
        self@.no_duplicates()
    }

    /// An empty queue.
    pub fn new() -> (queue: IdQueue)
        ensures
            queue.wf(),
            queue@ == Seq::<u128>::empty(),
    {
        IdQueue { ids: Vec::new() }
    }

    /// The number of identifiers queued.
    pub fn len(&self) -> (n: usize)
        ensures
            n == self@.len(),
    {
        self.ids.len()
    }

    /// The oldest identifier, which stays queued.
    pub fn front(&self) -> (front: Option<u128>)
        ensures
            match front {
                Some(id) => self@.len() > 0 && id == self@[0],
                None => self@.len() == 0,
            },
    {
        if self.ids.len() == 0 {
            None
        } else {
            Some(self.ids[0])
        }
    }

    /// The position of `id` in the queue.
    pub fn position(&self, id: u128) -> (at: Option<usize>)
        ensures
            match at {
                Some(i) => i < self@.len() && self@[i as int] == id,
                None => !self@.contains(id),
            },
            self.wf() ==> (at matches Some(i) ==> self@.index_of(id) == i),
    {
        let mut i: usize = 0;
        while i < self.ids.len()
            invariant
                i <= self.ids@.len(),
                forall|j: int| 0 <= j < i ==> self.ids@[j] != id,
            decreases self.ids@.len() - i,
        {
            if self.ids[i] == id {
                proof {
                    if self.wf() {
                        assert(self@.contains(id));
                        let j = self@.index_of(id);
                        assert(0 <= j < self@.len() && self@[j] == id);
                    }
                }
                return Some(i);
            }
            i += 1;
        }
        None
    }

    /// Whether `id` is queued.
    pub fn contains(&self, id: u128) -> (found: bool)
        ensures
            found == self@.contains(id),
    {
        self.position(id).is_some()
    }

    /// Queues `id` behind every other identifier.
    pub fn push(&mut self, id: u128)
        requires
            old(self).wf(),
            !old(self)@.contains(id),
        ensures
            final(self).wf(),
            final(self)@ == old(self)@.push(id),
            forall|x: u128| final(self)@.contains(x) <==> (old(self)@.contains(x) || x == id),
    {
        let ghost before = self@;
        self.ids.push(id);
        proof {
            let after = self@;
            assert forall|i: int, j: int| 0 <= i < after.len() && 0 <= j < after.len() && i
                != j implies after[i] != after[j] by {
                if i < before.len() && j < before.len() {
                    assert(before[i] != before[j]);
                } else if i < before.len() {
                    assert(before.contains(before[i]));
                } else {
                    assert(before.contains(before[j]));
                }
            }
            assert forall|x: u128| after.contains(x) <==> (before.contains(x) || x == id) by {
                if after.contains(x) {
                    let i = choose|i: int| 0 <= i < after.len() && after[i] == x;
                    if i < before.len() {
                        assert(before[i] == x);
                    }
                }
                if before.contains(x) {
                    let i = choose|i: int| 0 <= i < before.len() && before[i] == x;
                    assert(after[i] == x);
                }
                assert(after[before.len() as int] == id);
            }
        }
    }

    /// Takes the identifier at position `at` out of the queue.
    fn take_at(&mut self, at: usize) -> (id: u128)
        requires
            old(self).wf(),
            at < old(self)@.len(),
        ensures
            final(self).wf(),
            id == old(self)@[at as int],
            final(self)@ == old(self)@.remove(at as int),
            forall|x: u128| final(self)@.contains(x) <==> (old(self)@.contains(x) && x != id),
    {
        let ghost before = self@;
        let id = self.ids.remove(at);
        proof {
            let after = self@;
            assert forall|a: int| 0 <= a < after.len() implies after[a] == before[if a < at {
                a
            } else {
                a + 1
            }] by {}
            assert(after.no_duplicates());
            assert forall|x: u128| after.contains(x) <==> (before.contains(x) && x != id) by {
                if after.contains(x) {
                    let a = choose|a: int| 0 <= a < after.len() && after[a] == x;
                    let b = if a < at {
                        a
                    } else {
                        a + 1
                    };
                    assert(before[b] == x);
                }
                if before.contains(x) && x != id {
                    let b = choose|b: int| 0 <= b < before.len() && before[b] == x;
                    let a = if b < at {
                        b
                    } else {
                        b - 1
                    };
                    assert(after[a] == x);
                }
            }
        }
        id
    }

    /// Takes the oldest identifier out of the queue.
    pub fn pop_front(&mut self) -> (front: Option<u128>)
        requires
            old(self).wf(),
        ensures
            final(self).wf(),
            match front {
                Some(id) => {
                    &&& old(self)@.len() > 0
                    &&& id == old(self)@[0]
                    &&& final(self)@ == old(self)@.remove(0)
                    &&& forall|x: u128|
                        final(self)@.contains(x) <==> (old(self)@.contains(x) && x != id)
                },
                None => old(self)@.len() == 0 && final(self)@ == old(self)@,
            },
    {
        if self.ids.len() == 0 {
            None
        } else {
            Some(self.take_at(0))
        }
    }

    /// Takes `id` out of the queue, wherever it stands, and says whether it
    /// was there. The others keep their order.
    pub fn remove(&mut self, id: u128) -> (removed: bool)
        requires
            old(self).wf(),
        ensures
            final(self).wf(),
            removed == old(self)@.contains(id),
            final(self)@ == if removed {
                old(self)@.remove(old(self)@.index_of(id))
            } else {
                old(self)@
            },
            forall|x: u128| final(self)@.contains(x) <==> (old(self)@.contains(x) && x != id),
    {
        match self.position(id) {
            Some(at) => {
                let _ = self.take_at(at);
                true
            },
            None => false,
        }
    }
}

} // verus!
