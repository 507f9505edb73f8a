//! Client bookkeeping of the broadcasting TCP server: which client sockets
//! stay after a fan-out write, and which are removed for good.
//!
//! The sockets, the listener and its accept task live with the caller, which
//! names each accepted socket by the identifier this state hands out; the
//! state decides retention from the outcome the caller observed per client.

use vstd::prelude::*;

verus! {

/// Outcome of one write or flush to one client socket.
#[derive(Clone, Copy)]
pub enum WriteOutcome {
    /// The call succeeded.
    Completed,
    /// The call failed only because the non-blocking socket would have had
    /// to wait; such backpressure is no reason to drop the client.
    WouldBlock,
    /// Any other failure: peer reset, broken pipe, and the like.
    Fatal,
}

/// Whether a client answering with this outcome stays in the client list.
pub open spec fn retains(o: WriteOutcome) -> bool {
    !(o is Fatal)
}

/// The clients kept after a fan-out step: those whose outcome retains them,
/// in their original order.
pub open spec fn spec_retained(cs: Seq<u64>, os: Seq<WriteOutcome>) -> Seq<u64>
    decreases cs.len(),
{
    if cs.len() == 0 || os.len() == 0 {
        Seq::empty()
    } else {
        let rest = spec_retained(cs.drop_last(), os.drop_last());
        if retains(os.last()) {
            rest.push(cs.last())
        } else {
            rest
        }
    }
}

/// The writer-side state of the broadcast server: the identifiers of the
/// currently live client sockets, the next identifier to hand out, and the
/// ghost of every identifier ever removed.
pub struct TcpServer {
    pub connections: Vec<u64>,
    pub next_id: u64,
    pub removed: Ghost<Set<u64>>,
}

impl TcpServer {
    /// Well-formedness: live and removed identifiers were all handed out,
    /// the live ones are distinct, and no live one was ever removed.
    pub open spec fn inv(self) -> bool {
        &&& forall|i: int, j: int|
            0 <= i < j < self.connections@.len() ==> self.connections@[i] != self.connections@[j]
        &&& forall|i: int|
            0 <= i < self.connections@.len() ==> self.connections@[i] < self.next_id
                && !self.removed@.contains(self.connections@[i])
        &&& forall|x: u64| self.removed@.contains(x) ==> x < self.next_id
    }

    /// A server with no clients yet.
    pub fn new() -> (r: TcpServer)
        ensures
            r.inv(),
            r.connections@ == Seq::<u64>::empty(),
            r.next_id == 0,
            r.removed@ == Set::<u64>::empty(),
    {
        TcpServer { connections: Vec::new(), next_id: 0, removed: Ghost(Set::empty()) }
    }

    /// Admits one newly accepted client socket, which the caller has already
    /// put into non-blocking mode, and hands back the identifier that names
    /// it from now on.
    pub fn add_new_connection(&mut self) -> (id: u64)
        requires
            old(self).inv(),
            old(self).next_id < u64::MAX,
        ensures
            final(self).inv(),
            id == old(self).next_id,
            final(self).connections@ == old(self).connections@.push(id),
            final(self).next_id == old(self).next_id + 1,
            final(self).removed@ == old(self).removed@,
    {
        let id = self.next_id;
        self.connections.push(id);
        self.next_id = self.next_id + 1;
        id
    }

    /// Applies the outcomes of one fan-out step, outcome `k` belonging to
    /// client `k` of the list: clients whose call completed or merely would
    /// have blocked stay, all others leave for good.
    pub fn apply_outcomes(&mut self, outcomes: &Vec<WriteOutcome>)
        requires
            old(self).inv(),
            outcomes@.len() == old(self).connections@.len(),
        ensures
            final(self).inv(),
            final(self).connections@ == spec_retained(old(self).connections@, outcomes@),
            final(self).next_id == old(self).next_id,
            old(self).removed@.subset_of(final(self).removed@),
            forall|i: int|
                0 <= i < outcomes@.len() && !retains(outcomes@[i])
                    ==> final(self).removed@.contains(old(self).connections@[i]),
    {
        let ghost cs = self.connections@;
        let ghost os = outcomes@;
        let mut kept: Vec<u64> = Vec::new();
        let ghost mut gone = self.removed@;
        let mut k: usize = 0;
        proof {
            assert(spec_retained(cs.take(0), os.take(0)) =~= Seq::<u64>::empty());
        }
        while k < self.connections.len()
            invariant
                self.connections@ == cs,
                outcomes@ == os,
                os.len() == cs.len(),
                k <= cs.len(),
                kept@ == spec_retained(cs.take(k as int), os.take(k as int)),
                gone == self.removed@.union(
                    Set::new(
                        |x: u64|
                            exists|i: int|
                                0 <= i < k && cs[i] == x && !retains(os[i]),
                    ),
                ),
            decreases cs.len() - k,
        {
            let keep = match outcomes[k] {
                WriteOutcome::Completed => true,
                WriteOutcome::WouldBlock => true,
                WriteOutcome::Fatal => false,
            };
            let c = self.connections[k];
            if keep {
                kept.push(c);
            } else {
                proof {
                    gone = gone.insert(c);
                }
            }
            k = k + 1;
            proof {
                assert(cs.take(k as int).drop_last() =~= cs.take(k as int - 1));
                assert(os.take(k as int).drop_last() =~= os.take(k as int - 1));
                assert(gone =~= self.removed@.union(
                    Set::new(
                        |x: u64|
                            exists|i: int|
                                0 <= i < k && cs[i] == x && !retains(os[i]),
                    ),
                ));
            }
        }
        proof {
            assert(cs.take(cs.len() as int) =~= cs);
            assert(os.take(os.len() as int) =~= os);
        }
        self.connections = kept;
        self.removed = Ghost(gone);
        proof {
            lemma_retained_sub(cs, os);
            lemma_retained_distinct(cs, os);
            assert forall|j: int| 0 <= j < self.connections@.len() implies self.connections@[j]
                < self.next_id && !self.removed@.contains(self.connections@[j]) by {
                let x = self.connections@[j];
                let i = choose|i: int| 0 <= i < cs.len() && cs[i] == x && retains(os[i]);
                assert(x < old(self).next_id && !old(self).removed@.contains(x));
                if gone.contains(x) {
                    assert(exists|i2: int| 0 <= i2 < cs.len() && cs[i2] == x && !retains(os[i2]));
                    let i2 = choose|i2: int| 0 <= i2 < cs.len() && cs[i2] == x && !retains(os[i2]);
                    assert(i != i2);
                    assert(false);
                }
            }
        }
    }
}

/// Pruning a list of distinct clients leaves distinct clients.
pub proof fn lemma_retained_distinct(cs: Seq<u64>, os: Seq<WriteOutcome>)
    requires
        cs.len() == os.len(),
        forall|p: int, q: int| 0 <= p < q < cs.len() ==> cs[p] != cs[q],
    ensures
        forall|p: int, q: int|
            0 <= p < q < spec_retained(cs, os).len() ==> spec_retained(cs, os)[p] != spec_retained(
                cs,
                os,
            )[q],
    decreases cs.len(),
{
    if cs.len() != 0 {
        lemma_retained_distinct(cs.drop_last(), os.drop_last());
        lemma_retained_sub(cs.drop_last(), os.drop_last());
        let rest = spec_retained(cs.drop_last(), os.drop_last());
        if retains(os.last()) {
            assert forall|p: int| 0 <= p < rest.len() implies rest[p] != cs.last() by {
                let i = choose|i: int|
                    0 <= i < cs.drop_last().len() && cs.drop_last()[i] == rest[p] && retains(
                        os.drop_last()[i],
                    );
                assert(cs[i] == rest[p]);
            }
        }
    }
}

/// Every retained client stood in the original list, with an outcome that
/// retains it.
pub proof fn lemma_retained_sub(cs: Seq<u64>, os: Seq<WriteOutcome>)
    requires
        cs.len() == os.len(),
    ensures
        forall|j: int|
            0 <= j < spec_retained(cs, os).len() ==> exists|i: int|
                0 <= i < cs.len() && cs[i] == #[trigger] spec_retained(cs, os)[j] && retains(
                    os[i],
                ),
    decreases cs.len(),
{
    if cs.len() != 0 {
        lemma_retained_sub(cs.drop_last(), os.drop_last());
        let rest = spec_retained(cs.drop_last(), os.drop_last());
        let full = spec_retained(cs, os);
        assert forall|j: int| 0 <= j < full.len() implies exists|i: int|
            0 <= i < cs.len() && cs[i] == #[trigger] full[j] && retains(os[i]) by {
            if retains(os.last()) && j == full.len() - 1 {
                assert(full[j] == cs.last());
                assert(cs[cs.len() - 1] == full[j] && retains(os[cs.len() - 1]));
            } else {
                assert(full[j] == rest[j]);
                let i = choose|i: int|
                    0 <= i < cs.drop_last().len() && cs.drop_last()[i] == rest[j] && retains(
                        os.drop_last()[i],
                    );
                assert(cs[i] == full[j] && retains(os[i]));
            }
        }
    }
}

/// A client whose call merely would have blocked is retained across the step.
pub proof fn lemma_would_block_retained(cs: Seq<u64>, os: Seq<WriteOutcome>, i: int)
    requires
        cs.len() == os.len(),
        0 <= i < cs.len(),
        retains(os[i]),
    ensures
        spec_retained(cs, os).contains(cs[i]),
    decreases cs.len(),
{
    if i == cs.len() - 1 {
        assert(spec_retained(cs, os).last() == cs[i]);
    } else {
        lemma_would_block_retained(cs.drop_last(), os.drop_last(), i);
        let sub = spec_retained(cs.drop_last(), os.drop_last());
        let j = choose|j: int| 0 <= j < sub.len() && sub[j] == cs[i];
        assert(spec_retained(cs, os)[j] == cs[i]);
    }
}

/// A client whose call failed fatally leaves the list at once.
pub proof fn lemma_fatal_removed(cs: Seq<u64>, os: Seq<WriteOutcome>, i: int)
    requires
        cs.len() == os.len(),
        forall|p: int, q: int| 0 <= p < q < cs.len() ==> cs[p] != cs[q],
        0 <= i < cs.len(),
        !retains(os[i]),
    ensures
        !spec_retained(cs, os).contains(cs[i]),
    decreases cs.len(),
{
    lemma_retained_sub(cs, os);
}

/// Removal is permanent: an identifier in the removed set is never among the
/// live clients of a well-formed server, so it receives no later write.
pub proof fn lemma_removed_stays_out(s: TcpServer, x: u64)
    requires
        s.inv(),
        s.removed@.contains(x),
    ensures
        forall|i: int| 0 <= i < s.connections@.len() ==> s.connections@[i] != x,
{
}

} // verus!
