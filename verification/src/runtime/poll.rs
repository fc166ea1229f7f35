//! The portable poll backend without its system call: the descriptor
//! array that `poll` is handed, kept compact, and the index that finds a
//! descriptor in it.

use super::backend::BackendError;
use super::types::Interest;
use super::types::Ready;
use std::collections::HashMap;
use vstd::prelude::*;

verus! {

broadcast use vstd::std_specs::hash::group_hash_axioms;

pub const POLLIN: i16 = 0x0001;

pub const POLLOUT: i16 = 0x0004;

pub const POLLERR: i16 = 0x0008;

pub const POLLHUP: i16 = 0x0010;

/// One entry of the array handed to `poll`.
#[derive(Debug, Clone, Copy, PartialEq, Eq, Structural)]
pub struct PollFd {
    pub fd: i32,
    pub events: i16,
    pub revents: i16,
}

/// The requested-events word for an interest.
pub open spec fn interest_events(interest: Interest) -> i16 {
    match interest {
        Interest::Readable => POLLIN,
        Interest::Writable => POLLOUT,
        Interest::ReadWrite => POLLIN | POLLOUT,
    }
}

/// The readiness that a returned-events word reports.
pub open spec fn ready_of(revents: i16) -> Ready {
    Ready {
        readable: revents & POLLIN != 0,
        writable: revents & POLLOUT != 0,
        error: revents & POLLERR != 0,
        hup: revents & POLLHUP != 0,
    }
}

/// The report for one entry: its descriptor with the readiness that its
/// returned-events word reports, if that word holds at least one of the
/// readable, writable, error and hang-up bits; none otherwise, whatever
/// other bits the word holds.
pub open spec fn report(p: PollFd) -> Option<(i32, Ready)> {
    if ready_of(p.revents).any() {
        Some((p.fd, ready_of(p.revents)))
    } else {
        None
    }
}

/// The reports of an array, in array order.
pub open spec fn reports(s: Seq<PollFd>) -> Seq<(i32, Ready)> {
    s.filter_map(|p: PollFd| report(p))
}

/// Every report has at least one of its four flags set and names a
/// descriptor of the array; and where no descriptor has two entries, no
/// descriptor has two reports.
pub proof fn lemma_reports(s: Seq<PollFd>)
    ensures
        reports(s).len() <= s.len(),
        forall|k: int|
            0 <= k < reports(s).len() ==> (#[trigger] reports(s)[k]).1.any() && knows(
                s,
                reports(s)[k].0,
            ),
        distinct(s) ==> forall|a: int, b: int|
            0 <= a < b < reports(s).len() ==> (#[trigger] reports(s)[a]).0 != (
            #[trigger] reports(s)[b]).0,
    decreases s.len(),
{
    if s.len() > 0 {
        let front = s.drop_last();
        let f = |p: PollFd| report(p);
        lemma_reports(front);
        let r = reports(s);
        let q = reports(front);
        assert(r == q + (match f(s.last()) {
            Some(x) => seq![x],
            None => Seq::empty(),
        }));
        assert forall|k: int| 0 <= k < q.len() implies knows(s, (#[trigger] q[k]).0) by {
            let i = choose|i: int| 0 <= i < front.len() && (#[trigger] front[i]).fd == q[k].0;
            assert(s[i].fd == q[k].0);
        }
        assert forall|k: int| 0 <= k < r.len() implies (#[trigger] r[k]).1.any() && knows(
            s,
            r[k].0,
        ) by {
            if k < q.len() {
                assert(r[k] == q[k]);
            } else {
                assert(s[s.len() - 1].fd == r[k].0);
            }
        }
        if distinct(s) {
            assert(distinct(front)) by {
                assert forall|i: int, j: int|
                    0 <= i < front.len() && 0 <= j < front.len() && i != j implies (
                #[trigger] front[i]).fd != (#[trigger] front[j]).fd by {
                    assert(front[i] == s[i] && front[j] == s[j]);
                }
            }
            assert forall|a: int, b: int| 0 <= a < b < r.len() implies (#[trigger] r[a]).0 != (
            #[trigger] r[b]).0 by {
                assert(r[a] == q[a]);
                if b < q.len() {
                    assert(r[b] == q[b]);
                } else {
                    let i = choose|i: int|
                        0 <= i < front.len() && (#[trigger] front[i]).fd == q[a].0;
                    assert(s[i] == front[i]);
                    assert(s[i].fd != s[s.len() - 1].fd);
                }
            }
        }
    }
}

/// Whether the array has an entry for `fd`.
pub open spec fn knows(s: Seq<PollFd>, fd: i32) -> bool {
    exists|i: int| 0 <= i < s.len() && (#[trigger] s[i]).fd == fd
}

/// The position of the entry for `fd`.
pub open spec fn position(s: Seq<PollFd>, fd: i32) -> int {
    choose|i: int| 0 <= i < s.len() && (#[trigger] s[i]).fd == fd
}

/// No descriptor has two entries.
pub open spec fn distinct(s: Seq<PollFd>) -> bool {
    forall|i: int, j: int|
        0 <= i < s.len() && 0 <= j < s.len() && i != j ==> (#[trigger] s[i]).fd != (
        #[trigger] s[j]).fd
}

/// The array with every returned-events word set to zero.
pub open spec fn cleared(s: Seq<PollFd>) -> Seq<PollFd> {
    s.map_values(|p: PollFd| PollFd { revents: 0, ..p })
}

/// The array after the system call wrote `revents`: entry `i` takes
/// `revents[i]`; an entry beyond the end of `revents` is left as it was.
pub open spec fn polled(s: Seq<PollFd>, revents: Seq<i16>) -> Seq<PollFd> {
    Seq::new(
        s.len(),
        |i: int|
            if i < revents.len() {
                PollFd { revents: revents[i], ..s[i] }
            } else {
                s[i]
            },
    )
}

/// The array after the entry at `i` was removed by moving the last entry
/// into its place.
pub open spec fn swap_removed(s: Seq<PollFd>, i: int) -> Seq<PollFd> {
    s.update(i, s.last()).drop_last()
}

/// The descriptor array of the poll backend.
pub struct PollBackend {
    fds: Vec<PollFd>,
    index: HashMap<i32, usize>,
}

impl View for PollBackend {
    type V = Seq<PollFd>;

    closed spec fn view(&self) -> Seq<PollFd> {
        self.fds@
    }
}

impl PollBackend {
    /// The index finds exactly the entries of the array.
    pub closed spec fn wf(&self) -> bool {
        &&& forall|i: int|
            0 <= i < self.fds@.len() ==> self.index@.contains_key((#[trigger] self.fds@[i]).fd)
                && self.index@[self.fds@[i].fd] == i
        &&& forall|fd: i32| #[trigger]
            self.index@.contains_key(fd) ==> self.index@[fd] < self.fds@.len()
                && self.fds@[self.index@[fd] as int].fd == fd
    }

    /// In a well-formed backend no descriptor has two entries.
    pub proof fn lemma_distinct(&self)
        requires
            self.wf(),
        ensures
            distinct(self@),
    {
    }

    /// A backend that watches nothing.
    pub fn new() -> (b: Self)
        ensures
            b.wf(),
            b@.len() == 0,
    {
        PollBackend { fds: Vec::new(), index: HashMap::new() }
    }

    /// Number of descriptors watched.
    pub fn len(&self) -> (n: usize)
        ensures
            n == self@.len(),
    {
        self.fds.len()
    }

    /// The array to hand to the system call.
    pub fn fds(&self) -> (v: &Vec<PollFd>)
        ensures
            v@ == self@,
    {
        &self.fds
    }

    /// Whether `fd` is watched.
    pub fn is_registered(&self, fd: i32) -> (b: bool)
        requires
            self.wf(),
        ensures
            b == knows(self@, fd),
    {
        let b = self.index.contains_key(&fd);
        proof {
            if b {
                assert(self.fds@[self.index@[fd] as int].fd == fd);
            }
        }
        b
    }

    /// Starts watching `fd`. A descriptor that is already watched keeps
    /// its entry as it is.
    pub fn register(&mut self, fd: i32, interest: Interest)
        requires
            old(self).wf(),
        ensures
            final(self).wf(),
            knows(old(self)@, fd) ==> final(self)@ == old(self)@,
            !knows(old(self)@, fd) ==> final(self)@ == old(self)@.push(
                PollFd { fd, events: interest_events(interest), revents: 0 },
            ),
    {
        if self.is_registered(fd) {
            return ;
        }
        let events = match interest {
            Interest::Readable => POLLIN,
            Interest::Writable => POLLOUT,
            Interest::ReadWrite => POLLIN | POLLOUT,
        };
        let idx = self.fds.len();
        self.fds.push(PollFd { fd, events, revents: 0 });
        self.index.insert(fd, idx);
        proof {
            assert forall|i: int| 0 <= i < self.fds@.len() implies self.index@.contains_key(
                (#[trigger] self.fds@[i]).fd,
            ) && self.index@[self.fds@[i].fd] == i by {
                if i < idx {
                    assert(self.fds@[i] == old(self).fds@[i]);
                }
            }
            assert forall|k: i32| #[trigger] self.index@.contains_key(k) implies self.index@[k]
                < self.fds@.len() && self.fds@[self.index@[k] as int].fd == k by {
                if k != fd {
                    assert(old(self).index@.contains_key(k));
                    assert(self.fds@[self.index@[k] as int] == old(self).fds@[old(self).index@[k] as int]);
                }
            }
        }
    }

    /// Stops watching `fd`: the last entry of the array takes the place
    /// of the removed one. An unknown descriptor changes nothing.
    pub fn deregister(&mut self, fd: i32)
        requires
            old(self).wf(),
        ensures
            final(self).wf(),
            !knows(old(self)@, fd) ==> final(self)@ == old(self)@,
            knows(old(self)@, fd) ==> final(self)@ == swap_removed(
                old(self)@,
                position(old(self)@, fd),
            ),
            !knows(final(self)@, fd),
    {
        let ghost s = self.fds@;
        let ghost m = self.index@;
        let idx = match self.index.remove(&fd) {
            Some(idx) => idx,
            None => {
                proof {
                    if knows(s, fd) {
                        let i = choose|i: int| 0 <= i < s.len() && (#[trigger] s[i]).fd == fd;
                        assert(m.contains_key(s[i].fd));
                    }
                }
                return ;
            },
        };
        proof {
            assert(m.contains_key(fd));
            assert(s[idx as int].fd == fd);
            let p = position(s, fd);
            assert(m.contains_key(s[p].fd) && m[s[p].fd] == p);
            assert(p == idx);
        }
        let last = self.fds.len() - 1;
        let moved_fd = self.fds[last].fd;
        let _ = self.fds.swap_remove(idx);
        if idx != last {
            self.index.insert(moved_fd, idx);
        }
        proof {
            let t = self.fds@;
            let n = self.index@;
            assert(m.contains_key(s[last as int].fd) && m[s[last as int].fd] == last);
            assert forall|i: int| 0 <= i < t.len() implies n.contains_key((#[trigger] t[i]).fd)
                && n[t[i].fd] == i by {
                if i == idx {
                    assert(t[i] == s[last as int]);
                } else {
                    assert(t[i] == s[i]);
                    assert(m.contains_key(s[i].fd) && m[s[i].fd] == i);
                }
            }
            assert forall|k: i32| #[trigger] n.contains_key(k) implies n[k] < t.len() && t[n[k] as int].fd
                == k by {
                if idx != last && k == moved_fd {
                } else {
                    assert(m.contains_key(k));
                    assert(m[k] != idx);
                    assert(m[k] != last) by {
                        if m[k] == last {
                            assert(s[last as int].fd == k);
                        }
                    }
                    assert(t[m[k] as int] == s[m[k] as int]);
                }
            }
            if knows(t, fd) {
                let i = choose|i: int| 0 <= i < t.len() && (#[trigger] t[i]).fd == fd;
                assert(n.contains_key(t[i].fd));
            }
        }
    }

    /// Sets every returned-events word to zero, as must be done before
    /// each wait.
    pub fn clear_revents(&mut self)
        requires
            old(self).wf(),
        ensures
            final(self).wf(),
            final(self)@ == cleared(old(self)@),
    {
        let ghost s = self.fds@;
        let mut i: usize = 0;
        while i < self.fds.len()
            invariant
                i <= self.fds@.len(),
                self.fds@.len() == s.len(),
                self.index@ == old(self).index@,
                forall|k: int| 0 <= k < i ==> self.fds@[k] == (PollFd { revents: 0, ..s[k] }),
                forall|k: int| i <= k < s.len() ==> self.fds@[k] == s[k],
            decreases self.fds@.len() - i,
        {
            let p = self.fds[i];
            self.fds.set(i, PollFd { fd: p.fd, events: p.events, revents: 0 });
            i += 1;
        }
        proof {
            assert(self.fds@ == cleared(s));
            assert forall|k: int| 0 <= k < self.fds@.len() implies self.index@.contains_key(
                (#[trigger] self.fds@[k]).fd,
            ) && self.index@[self.fds@[k].fd] == k by {
                assert(self.fds@[k].fd == s[k].fd);
            }
            assert forall|fd: i32| #[trigger] self.index@.contains_key(fd) implies self.index@[fd]
                < self.fds@.len() && self.fds@[self.index@[fd] as int].fd == fd by {
                assert(self.fds@[self.index@[fd] as int].fd == s[self.index@[fd] as int].fd);
            }
        }
    }

    /// Reads what `poll` returned: `rc` is its return code and `revents`
    /// the returned-events words it wrote, one per entry of the array. A
    /// negative `rc` is failure and leaves the array alone. Else the words
    /// are stored; with `rc` zero nothing is reported, else one report
    /// per entry whose word holds a readable, writable, error or hang-up
    /// bit, in array order.
    pub fn wait(&mut self, rc: i32, revents: &Vec<i16>) -> (r: Result<
        Vec<(i32, Ready)>,
        BackendError,
    >)
        requires
            old(self).wf(),
        ensures
            final(self).wf(),
            rc < 0 ==> r == Err::<Vec<(i32, Ready)>, BackendError>(BackendError::Os)
                && final(self)@ == old(self)@,
            rc >= 0 ==> final(self)@ == polled(old(self)@, revents@),
            rc == 0 ==> (r matches Ok(out) && out@.len() == 0),
            rc > 0 ==> (r matches Ok(out) && out@ == reports(final(self)@)),
    {
        if rc < 0 {
            return Err(BackendError::Os);
        }
        self.store_revents(revents);
        let mut out: Vec<(i32, Ready)> = Vec::new();
        if rc == 0 {
            return Ok(out);
        }
        let mut i: usize = 0;
        while i < self.fds.len()
            invariant
                i <= self.fds@.len(),
                out@ == reports(self.fds@.take(i as int)),
            decreases self.fds@.len() - i,
        {
            let p = self.fds[i];
            proof {
                self.fds@.lemma_filter_map_take_succ(|p: PollFd| report(p), i as int);
            }
            let ready = Ready {
                readable: (p.revents & POLLIN) != 0,
                writable: (p.revents & POLLOUT) != 0,
                error: (p.revents & POLLERR) != 0,
                hup: (p.revents & POLLHUP) != 0,
            };
            if ready.readable || ready.writable || ready.error || ready.hup {
                out.push((p.fd, ready));
            }
            i += 1;
        }
        proof {
            assert(self.fds@.take(self.fds@.len() as int) == self.fds@);
        }
        Ok(out)
    }

    fn store_revents(&mut self, revents: &Vec<i16>)
        requires
            old(self).wf(),
        ensures
            final(self).wf(),
            final(self)@ == polled(old(self)@, revents@),
    {
        let ghost s = self.fds@;
        let mut i: usize = 0;
        while i < self.fds.len() && i < revents.len()
            invariant
                i <= self.fds@.len(),
                i <= revents@.len(),
                self.fds@.len() == s.len(),
                self.index@ == old(self).index@,
                forall|k: int| 0 <= k < i ==> self.fds@[k] == (PollFd { revents: revents@[k], ..s[k] }),
                forall|k: int| i <= k < s.len() ==> self.fds@[k] == s[k],
            decreases self.fds@.len() - i,
        {
            let p = self.fds[i];
            self.fds.set(i, PollFd { fd: p.fd, events: p.events, revents: revents[i] });
            i += 1;
        }
        proof {
            assert(self.fds@ == polled(s, revents@));
            assert forall|k: int| 0 <= k < self.fds@.len() implies self.index@.contains_key(
                (#[trigger] self.fds@[k]).fd,
            ) && self.index@[self.fds@[k].fd] == k by {
                assert(self.fds@[k].fd == s[k].fd);
            }
            assert forall|fd: i32| #[trigger] self.index@.contains_key(fd) implies self.index@[fd]
                < self.fds@.len() && self.fds@[self.index@[fd] as int].fd == fd by {
                assert(self.fds@[self.index@[fd] as int].fd == s[self.index@[fd] as int].fd);
            }
        }
    }
}

} // verus!
