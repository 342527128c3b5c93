//! A singly linked list of `i32` values with a dummy head node and a tail
//! pointer, so that appending at the back and removing at the front both take
//! constant time.
//!
//! The nodes live in an arena (`nodes`) and refer to their successor by slot
//! index. The slot of a node that leaves the list is kept on a free stack and
//! reused by the next `add`, so the arena never holds more than one slot per
//! element plus the dummy head.
use vstd::prelude::*;

verus! {

/// One node of the list: its value and the slot of the node after it.
struct Node {
    val: i32,
    next: Option<usize>,
}

/// Why an operation on a `List` was refused.
#[derive(Debug, Clone, Copy, PartialEq, Eq, Structural)]
pub enum ListError {
    /// The list holds no element.
    Empty,
}

impl ListError {
    /// The text that describes the error.
    pub fn message(&self) -> (s: &'static str)
        ensures
            s@ == "链表为空，删除头节点失败"@,
    {
        match self {
            ListError::Empty => "链表为空，删除头节点失败",
        }
    }
}

/// A FIFO list of `i32` values: `add` appends at the back, `remove_first`
/// takes the front away, `to_vec` lists the values from front to back.
pub struct List {
    /// The arena of nodes.
    nodes: Vec<Node>,
    /// Slots of `nodes` that belong to no node of the list.
    free: Vec<usize>,
    /// Slot of the dummy head node; its value is not part of the list.
    head: usize,
    /// Slot of the last node (the dummy head when the list is empty).
    tail: usize,
    /// Number of elements.
    len: u8,
    /// The slots of the nodes in list order, the dummy head first.
    chain: Ghost<Seq<usize>>,
}

impl View for List {
    type V = Seq<i32>;

    /// The values of the list from front to back.
    closed spec fn view(&self) -> Seq<i32> {
        Seq::new(
            (self.chain@.len() - 1) as nat,
            |i: int| self.nodes@[self.chain@[i + 1] as int].val,
        )
    }
}

impl List {
    /// The chain of slots starts at the dummy head, ends at the tail, and each
    /// node of it links to the next one; the last links to nothing.
    closed spec fn chain_linked(&self) -> bool {
        let c = self.chain@;
        &&& c.len() >= 1
        &&& c[0] == self.head
        &&& c[c.len() - 1] == self.tail
        &&& forall|i: int| 0 <= i < c.len() ==> #[trigger] c[i] < self.nodes@.len()
        &&& forall|i: int|
            0 <= i < c.len() - 1 ==> #[trigger] self.nodes@[c[i] as int].next == Some(c[i + 1])
        &&& self.nodes@[self.tail as int].next is None
    }

    /// No slot is used twice, neither within the chain, within the free stack,
    /// nor across the two.
    closed spec fn slots_distinct(&self) -> bool {
        let c = self.chain@;
        let f = self.free@;
        &&& forall|i: int, j: int| 0 <= i < j < c.len() ==> c[i] != c[j]
        &&& forall|i: int, j: int| 0 <= i < j < f.len() ==> f[i] != f[j]
        &&& forall|i: int, j: int| 0 <= i < f.len() && 0 <= j < c.len() ==> f[i] != c[j]
        &&& forall|i: int| 0 <= i < f.len() ==> #[trigger] f[i] < self.nodes@.len()
    }

    /// The well-formedness of a list.
    pub closed spec fn wf(&self) -> bool {
        &&& self.chain_linked()
        &&& self.slots_distinct()
        &&& self.len as int == self.chain@.len() - 1
        &&& self.nodes@.len() == self.chain@.len() + self.free@.len()
    }

    /// Creates an empty list.
    pub fn new() -> (list: List)
        ensures
            list.wf(),
            list@ == Seq::<i32>::empty(),
    {
        let mut nodes: Vec<Node> = Vec::new();
        nodes.push(Node { val: 0, next: None });
        let list = List {
            nodes,
            free: Vec::new(),
            head: 0,
            tail: 0,
            len: 0,
            chain: Ghost(Seq::empty().push(0usize)),
        };
        assert(list@ =~= Seq::<i32>::empty());
        list
    }

    /// Appends `val` at the back of the list.
    pub fn add(&mut self, val: i32)
        requires
            old(self).wf(),
            old(self)@.len() < 255,
        ensures
            final(self).wf(),
            final(self)@ == old(self)@.push(val),
    {
        let ghost c = self.chain@;
        let k: usize;
        if self.free.len() > 0 {
            let popped = self.free.pop();
            k = popped.unwrap();
            assert(k == old(self).free@[old(self).free@.len() - 1]);
            self.nodes.set(k, Node { val, next: None });
        } else {
            k = self.nodes.len();
            self.nodes.push(Node { val, next: None });
        }
        // The new slot is not in the chain.
        assert forall|j: int| 0 <= j < c.len() implies c[j] != k by {
            if old(self).free@.len() > 0 {
                assert(old(self).free@[old(self).free@.len() - 1] != c[j]);
            }
        }
        let t = self.tail;
        let tv = self.nodes[t].val;
        self.nodes.set(t, Node { val: tv, next: Some(k) });
        self.tail = k;
        self.len = self.len + 1;
        self.chain = Ghost(c.push(k));
        proof {
            let nc = self.chain@;
            assert forall|i: int| 0 <= i < nc.len() - 1 implies #[trigger] self.nodes@[nc[i] as int].next
                == Some(nc[i + 1]) by {
                if i < c.len() - 1 {
                    assert(nc[i] == c[i]);
                    assert(c[i] != t);
                }
            }
            assert forall|i: int, j: int| 0 <= i < j < nc.len() implies nc[i] != nc[j] by {
                if j == nc.len() - 1 {
                    assert(c[i] != k);
                }
            }
            let f = self.free@;
            assert forall|i: int, j: int| 0 <= i < f.len() && 0 <= j < nc.len() implies f[i]
                != nc[j] by {
                assert(f[i] == old(self).free@[i]);
                if j == nc.len() - 1 {
                    assert(old(self).free@[i] != old(self).free@[old(self).free@.len() - 1]);
                } else {
                    assert(old(self).free@[i] != c[j]);
                }
            }
            assert forall|i: int, j: int| 0 <= i < j < f.len() implies f[i] != f[j] by {
                assert(old(self).free@[i] != old(self).free@[j]);
            }
            assert(self@ =~= old(self)@.push(val)) by {
                assert forall|i: int| 0 <= i < old(self)@.len() implies self@[i] == old(self)@[i] by {
                    assert(nc[i + 1] == c[i + 1]);
                    assert(c[i + 1] != k);
                    assert(c[i + 1] != t || i + 1 == c.len() - 1);
                }
            }
        }
    }

    /// Removes the value at the front of the list; fails on an empty list and
    /// leaves it as it was.
    pub fn remove_first(&mut self) -> (r: Result<(), ListError>)
        requires
            old(self).wf(),
        ensures
            final(self).wf(),
            r is Ok <==> old(self)@.len() > 0,
            r is Ok ==> final(self)@ == old(self)@.drop_first(),
            r is Err ==> r == Err::<(), ListError>(ListError::Empty) && final(self)@ == old(self)@,
    {
        if self.get_len() == 0 {
            return Err(ListError::Empty);
        }
        let ghost c = self.chain@;
        let d = self.head;
        assert(self.nodes@[c[0] as int].next == Some(c[1]));
        let n = self.nodes[d].next.unwrap();
        self.head = n;
        self.free.push(d);
        self.len = self.len - 1;
        self.chain = Ghost(c.drop_first());
        proof {
            let nc = self.chain@;
            let f = self.free@;
            assert forall|i: int| 0 <= i < nc.len() - 1 implies #[trigger] self.nodes@[nc[i] as int].next
                == Some(nc[i + 1]) by {
                assert(nc[i] == c[i + 1]);
            }
            assert forall|i: int| 0 <= i < nc.len() implies #[trigger] nc[i] < self.nodes@.len() by {
                assert(nc[i] == c[i + 1]);
            }
            assert forall|i: int, j: int| 0 <= i < j < nc.len() implies nc[i] != nc[j] by {
                assert(c[i + 1] != c[j + 1]);
            }
            assert forall|i: int, j: int| 0 <= i < f.len() && 0 <= j < nc.len() implies f[i]
                != nc[j] by {
                if i == f.len() - 1 {
                    assert(c[0] != c[j + 1]);
                } else {
                    assert(old(self).free@[i] != c[j + 1]);
                }
            }
            assert forall|i: int, j: int| 0 <= i < j < f.len() implies f[i] != f[j] by {
                if j == f.len() - 1 {
                    assert(old(self).free@[i] != c[0]);
                } else {
                    assert(old(self).free@[i] != old(self).free@[j]);
                }
            }
            assert forall|i: int| 0 <= i < f.len() implies #[trigger] f[i] < self.nodes@.len() by {
                if i < f.len() - 1 {
                    assert(f[i] == old(self).free@[i]);
                }
            }
            assert(self@ =~= old(self)@.drop_first());
        }
        Ok(())
    }

    /// The values of the list from front to back.
    pub fn to_vec(&self) -> (res: Vec<i32>)
        requires
            self.wf(),
        ensures
            res@ == self@,
    {
        let mut res: Vec<i32> = Vec::new();
        if self.len == 0 {
            assert(self@ =~= Seq::<i32>::empty());
            return res;
        }
        let mut p = self.head;
        let ghost mut i: int = 0;
        loop
            invariant
                self.wf(),
                0 <= i < self.chain@.len(),
                p == self.chain@[i],
                res@ == self@.take(i),
            ensures
                res@ == self@,
            decreases self.chain@.len() - i,
        {
            match self.nodes[p].next {
                None => {
                    assert(i == self.chain@.len() - 1) by {
                        if i < self.chain@.len() - 1 {
                            assert(self.nodes@[self.chain@[i] as int].next == Some(self.chain@[i + 1]));
                        }
                    }
                    assert(self@.take(i) =~= self@);
                    break;
                },
                Some(n) => {
                    assert(i < self.chain@.len() - 1) by {
                        if i == self.chain@.len() - 1 {
                            assert(self.nodes@[self.tail as int].next is None);
                        }
                    }
                    assert(self.nodes@[self.chain@[i] as int].next == Some(self.chain@[i + 1]));
                    res.push(self.nodes[n].val);
                    p = n;
                    proof {
                        assert(self@.take(i + 1) =~= self@.take(i).push(self@[i]));
                        i = i + 1;
                    }
                },
            }
        }
        res
    }

    /// The number of values in the list.
    pub fn get_len(&self) -> (n: u8)
        requires
            self.wf(),
        ensures
            n == self@.len(),
    {
        self.len
    }
}


/// `s` after its front value was removed `k` times.
pub open spec fn removed_front(s: Seq<i32>, k: nat) -> Seq<i32>
    decreases k,
{
    if k == 0 {
        s
    } else {
        removed_front(s.drop_first(), (k - 1) as nat)
    }
}

/// Removing the front value `k` times leaves all but the first `k` values.
pub proof fn lemma_removed_front_skips(s: Seq<i32>, k: nat)
    requires
        k <= s.len(),
    ensures
        removed_front(s, k) == s.skip(k as int),
    decreases k,
{
    if k > 0 {
        lemma_removed_front_skips(s.drop_first(), (k - 1) as nat);
        assert(s.drop_first().skip(k - 1) =~= s.skip(k as int));
    }
}

/// The list is first in, first out: a value added to a list of `n` values
/// comes to the front once the `n` values before it have been removed.
pub proof fn lemma_first_in_first_out(s: Seq<i32>, v: i32)
    ensures
        removed_front(s.push(v), s.len()) == seq![v],
{
    lemma_removed_front_skips(s.push(v), s.len());
    assert(s.push(v).skip(s.len() as int) =~= seq![v]);
}

/// On a non-empty list, adding a value and then removing the front leaves the
/// same values as removing the front and then adding the value.
pub proof fn lemma_add_remove_commute(s: Seq<i32>, v: i32)
    requires
        s.len() > 0,
    ensures
        s.push(v).drop_first() == s.drop_first().push(v),
{
    assert(s.push(v).drop_first() =~= s.drop_first().push(v));
}

/// Adding a value to an empty list and removing the front empties it again.
pub proof fn lemma_add_remove_empty(v: i32)
    ensures
        Seq::<i32>::empty().push(v).drop_first() == Seq::<i32>::empty(),
{
    assert(Seq::<i32>::empty().push(v).drop_first() =~= Seq::<i32>::empty());
}

} // verus!
