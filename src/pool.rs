//! The connection pool: the registry of connected clients, each with the
//! queue that feeds its transport, and the allocator of their identifiers.
use vstd::prelude::*;
use tokio::sync::mpsc::UnboundedSender;
use crate::envelope::WsMessage;
use crate::outside::enqueue;

verus! {

broadcast use vstd::seq_lib::group_seq_properties;

/// A registered client: its identifier and its outbound queue.
pub struct Member {
    id: u64,
    outbox: UnboundedSender<WsMessage>,
}

/// The registered clients, kept in ascending order of identifier, and the
/// next identifier to hand out.
pub struct Pool {
    next_id: u64,
    members: Vec<Member>,
}

/// Strictly ascending: each identifier appears once.
pub open spec fn ascending(s: Seq<u64>) -> bool {
    forall|i: int, j: int| 0 <= i < j < s.len() ==> s[i] < s[j]
}

/// `s` without the occurrences of `x`.
pub open spec fn omit(s: Seq<u64>, x: u64) -> Seq<u64> {
    s.filter(differs(x))
}

/// The test of being other than `x`.
pub open spec fn differs(x: u64) -> spec_fn(u64) -> bool {
    |y: u64| y != x
}

/// `s` with the occurrences of `exclude` left out, if there is one.
pub open spec fn omit_opt(s: Seq<u64>, exclude: Option<u64>) -> Seq<u64> {
    match exclude {
        Some(x) => omit(s, x),
        None => s,
    }
}

pub proof fn lemma_omit_absent(s: Seq<u64>, x: u64)
    requires
        !s.contains(x),
    ensures
        omit(s, x) == s,
    decreases s.len(),
{
    reveal(Seq::filter);
    if s.len() > 0 {
        assert(!s.drop_last().contains(x)) by {
            if s.drop_last().contains(x) {
                let k = choose|k: int| 0 <= k < s.drop_last().len() && s.drop_last()[k] == x;
                assert(s[k] == x);
            }
        }
        lemma_omit_absent(s.drop_last(), x);
        assert(s.drop_last().push(s.last()) =~= s);
    }
}

#[allow(deprecated)]
pub proof fn lemma_omit_ascending(s: Seq<u64>, x: u64)
    requires
        ascending(s),
    ensures
        ascending(omit(s, x)),
        forall|y: u64| omit(s, x).contains(y) <==> s.contains(y) && y != x,
    decreases s.len(),
{
    reveal(Seq::filter);
    broadcast use vstd::seq_lib::group_filter_ensures;

    assert forall|y: u64| omit(s, x).contains(y) <==> s.contains(y) && y != x by {
        if s.contains(y) && y != x {
            let k = choose|k: int| 0 <= k < s.len() && s[k] == y;
            s.lemma_filter_contains(differs(x), k);
        }
        if omit(s, x).contains(y) {
            let k = choose|k: int| 0 <= k < omit(s, x).len() && omit(s, x)[k] == y;
            s.lemma_filter_pred(differs(x), k);
            s.lemma_filter_contains_rev(differs(x), y);
        }
    }
    if s.len() > 0 {
        let p = s.drop_last();
        lemma_omit_ascending(p, x);
        assert forall|y: u64| #[trigger] omit(p, x).contains(y) implies y < s.last() by {
            assert(p.contains(y));
            let k = choose|k: int| 0 <= k < p.len() && p[k] == y;
            assert(s[k] == p[k]);
        }
        if s.last() != x {
            let o = omit(p, x);
            assert(omit(s, x) == o.push(s.last()));
            assert forall|i: int, j: int| 0 <= i < j < o.push(s.last()).len()
                implies o.push(s.last())[i] < o.push(s.last())[j] by {
                if j == o.len() {
                    assert(o.contains(o[i]));
                }
            }
        }
    }
}

pub proof fn lemma_omit_at(s: Seq<u64>, i: int)
    requires
        ascending(s),
        0 <= i < s.len(),
    ensures
        omit(s, s[i]) == s.remove(i),
    decreases s.len(),
{
    reveal(Seq::filter);
    let x = s[i];
    let p = s.drop_last();
    if i == s.len() - 1 {
        assert(!p.contains(x)) by {
            if p.contains(x) {
                let k = choose|k: int| 0 <= k < p.len() && p[k] == x;
                assert(s[k] < s[i]);
            }
        }
        lemma_omit_absent(p, x);
        assert(s.remove(i) =~= p);
    } else {
        assert(s.last() > x);
        lemma_omit_at(p, i);
        assert(s.remove(i) =~= p.remove(i).push(s.last()));
    }
}

impl Pool {
    /// The identifiers of the registered clients, in ascending order.
    pub closed spec fn ids(&self) -> Seq<u64> {
        self.members@.map_values(|m: Member| m.id)
    }

    /// The identifier that the next allocation hands out.
    pub closed spec fn next(&self) -> u64 {
        self.next_id
    }

    /// Registered identifiers are ascending and all lie below the next one to
    /// be handed out, which is never zero.
    pub open spec fn wf(&self) -> bool {
        &&& ascending(self.ids())
        &&& forall|i: int| 0 <= i < self.ids().len() ==> #[trigger] self.ids()[i] < self.next()
        &&& self.next() >= 1
    }

    /// An empty pool whose first identifier is 1.
    pub fn new() -> (r: Self)
        ensures
            r.wf(),
            r.ids() == Seq::<u64>::empty(),
            r.next() == 1,
    {
        Pool { next_id: 1, members: Vec::new() }
    }

    /// Hands out the next identifier, or `None` once the range of `u64` is
    /// used up. The registered clients do not change.
    pub fn allocate(&mut self) -> (r: Option<u64>)
        requires
            old(self).wf(),
        ensures
            final(self).wf(),
            final(self).ids() == old(self).ids(),
            old(self).next() < u64::MAX ==> r == Some(old(self).next())
                && final(self).next() == old(self).next() + 1,
            old(self).next() == u64::MAX ==> r.is_none() && final(self).next() == old(self).next(),
    {
        if self.next_id < u64::MAX {
            let id = self.next_id;
            self.next_id = self.next_id + 1;
            Some(id)
        } else {
            None
        }
    }

    /// Whether `id` is registered.
    pub fn contains(&self, id: u64) -> (r: bool)
        ensures
            r == self.ids().contains(id),
    {
        let mut i: usize = 0;
        while i < self.members.len()
            invariant
                0 <= i <= self.members.len(),
                forall|k: int| 0 <= k < i ==> self.ids()[k] != id,
            decreases self.members.len() - i,
        {
            if self.members[i].id == id {
                assert(self.ids()[i as int] == id);
                return true;
            }
            i = i + 1;
        }
        false
    }

    /// Registers client `id` with its outbound queue. `id` must be a
    /// handed-out identifier that is not registered.
    pub fn insert(&mut self, id: u64, outbox: UnboundedSender<WsMessage>)
        requires
            old(self).wf(),
            id < old(self).next(),
            !old(self).ids().contains(id),
        ensures
            final(self).wf(),
            final(self).next() == old(self).next(),
            final(self).ids().to_set() == old(self).ids().to_set().insert(id),
            (forall|k: int| 0 <= k < old(self).ids().len() ==> #[trigger] old(self).ids()[k] < id)
                ==> final(self).ids() == old(self).ids().push(id),
    {
        let ghost before = self.ids();
        let mut i: usize = self.members.len();
        while i > 0 && self.members[i - 1].id > id
            invariant
                0 <= i <= self.members.len(),
                self.members@ == old(self).members@,
                before == self.ids(),
                forall|k: int| i <= k < before.len() ==> before[k] > id,
            decreases i,
        {
            assert(before[i - 1] == self.members@[i - 1].id);
            i = i - 1;
        }
        assert(forall|k: int| 0 <= k < i ==> before[k] < id) by {
            assert forall|k: int| 0 <= k < i implies before[k] < id by {
                if i > 0 {
                    assert(before[i - 1] <= id);
                    assert(before[i - 1] != id) by {
                        assert(before.contains(before[i - 1]));
                    }
                }
                if k < i - 1 {
                    assert(before[k] < before[i - 1]);
                }
            }
        }
        self.members.insert(i, Member { id, outbox });
        let ghost after = self.ids();
        assert(after =~= before.insert(i as int, id));
        assert forall|a: int, b: int| 0 <= a < b < after.len() implies after[a] < after[b] by {
            if a < i && b > i {
                assert(after[b] == before[b - 1]);
            }
            if a > i {
                assert(after[a] == before[a - 1]);
                assert(after[b] == before[b - 1]);
            }
        }
        assert(after.to_set() =~= before.to_set().insert(id)) by {
            assert forall|y: u64| after.to_set().contains(y) implies before.to_set().insert(id).contains(y) by {
                assert(after.contains(y));
                let k = choose|k: int| 0 <= k < after.len() && after[k] == y;
                if k > i {
                    assert(before[k - 1] == y);
                }
                if k < i {
                    assert(before[k] == y);
                }
            }
            assert forall|y: u64| before.to_set().insert(id).contains(y) implies after.to_set().contains(y) by {
                if y == id {
                    assert(after[i as int] == id);
                } else {
                    assert(before.contains(y));
                    let k = choose|k: int| 0 <= k < before.len() && before[k] == y;
                    if k < i {
                        assert(after[k] == y);
                    } else {
                        assert(after[k + 1] == y);
                    }
                }
            }
        }
        proof {
            if forall|k: int| 0 <= k < before.len() ==> #[trigger] before[k] < id {
                if i < before.len() {
                    assert(before[i as int] < id);
                }
                assert(after =~= before.push(id));
            }
        }
    }

    /// Unregisters client `id`; when it is not registered, nothing changes.
    pub fn remove(&mut self, id: u64)
        requires
            old(self).wf(),
        ensures
            final(self).wf(),
            final(self).next() == old(self).next(),
            final(self).ids() == omit(old(self).ids(), id),
    {
        let ghost before = self.ids();
        let mut i: usize = 0;
        while i < self.members.len()
            invariant
                0 <= i <= self.members.len(),
                before == self.ids(),
                self.wf(),
                self.next() == old(self).next(),
                before == old(self).ids(),
                forall|k: int| 0 <= k < i ==> before[k] != id,
            decreases self.members.len() - i,
        {
            assert(before[i as int] == self.members@[i as int].id);
            if self.members[i].id == id {
                let _gone = self.members.remove(i);
                proof {
                    lemma_omit_at(before, i as int);
                    assert(self.ids() =~= before.remove(i as int));
                    lemma_omit_ascending(before, id);
                    assert forall|k: int| 0 <= k < self.ids().len() implies #[trigger] self.ids()[k]
                        < self.next() by {
                        if k < i {
                            assert(self.ids()[k] == before[k]);
                        } else {
                            assert(self.ids()[k] == before[k + 1]);
                        }
                    }
                }
                return;
            }
            i = i + 1;
        }
        proof {
            assert(!before.contains(id));
            lemma_omit_absent(before, id);
        }
    }

    /// The registered identifiers, in ascending order.
    pub fn snapshot(&self) -> (r: Vec<u64>)
        ensures
            r@ == self.ids(),
    {
        self.others(None)
    }

    /// The registered identifiers but `exclude`, in ascending order.
    pub fn others(&self, exclude: Option<u64>) -> (r: Vec<u64>)
        ensures
            r@ == omit_opt(self.ids(), exclude),
    {
        let mut r: Vec<u64> = Vec::new();
        let mut i: usize = 0;
        while i < self.members.len()
            invariant
                0 <= i <= self.members.len(),
                r@ == omit_opt(self.ids().take(i as int), exclude),
            decreases self.members.len() - i,
        {
            let id = self.members[i].id;
            proof {
                assert(self.ids().take(i + 1) =~= self.ids().take(i as int).push(id));
                if let Some(x) = exclude {
                    self.ids().take(i as int).lemma_filter_push(id, differs(x));
                }
            }
            match exclude {
                Some(x) => {
                    if id != x {
                        r.push(id);
                    }
                },
                None => r.push(id),
            }
            i = i + 1;
        }
        assert(self.ids().take(i as int) =~= self.ids());
        r
    }

    /// Queues a copy of `msg` for every registered client but `exclude`, and
    /// returns the identifiers it was handed to, in ascending order. A
    /// client whose queue is closed loses the message; the others still
    /// receive it.
    pub fn broadcast(&self, msg: &WsMessage, exclude: Option<u64>) -> (r: Vec<u64>)
        ensures
            r@ == omit_opt(self.ids(), exclude),
    {
        let mut r: Vec<u64> = Vec::new();
        let mut i: usize = 0;
        while i < self.members.len()
            invariant
                0 <= i <= self.members.len(),
                r@ == omit_opt(self.ids().take(i as int), exclude),
            decreases self.members.len() - i,
        {
            let member = &self.members[i];
            let id = member.id;
            proof {
                assert(self.ids().take(i + 1) =~= self.ids().take(i as int).push(id));
                if let Some(x) = exclude {
                    self.ids().take(i as int).lemma_filter_push(id, differs(x));
                }
            }
            let skip = match exclude {
                Some(x) => id == x,
                None => false,
            };
            if !skip {
                let _queued = enqueue(&member.outbox, msg.duplicate());
                r.push(id);
            }
            i = i + 1;
        }
        assert(self.ids().take(i as int) =~= self.ids());
        r
    }

    /// Queues `msg` for client `id` alone; returns false when `id` is not
    /// registered or its queue is closed.
    pub fn send_to(&self, id: u64, msg: WsMessage) -> (queued: bool)
        ensures
            queued ==> self.ids().contains(id),
    {
        let mut i: usize = 0;
        while i < self.members.len()
            invariant
                0 <= i <= self.members.len(),
            decreases self.members.len() - i,
        {
            if self.members[i].id == id {
                assert(self.ids()[i as int] == id);
                return enqueue(&self.members[i].outbox, msg);
            }
            i = i + 1;
        }
        false
    }
}

} // verus!
