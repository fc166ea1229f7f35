//! Joining a spawned computation, aborting it, and combining several.

use super::executor::Task;
use super::executor::TaskState;
use super::types::Poll;
use vstd::prelude::*;

verus! {

/// Why a join yields no value.
#[derive(Debug, Clone, Copy, PartialEq, Eq, Structural)]
pub enum JoinError {
    /// The computation was aborted before its result was observed.
    Cancelled,
}

/// The join record as a mathematical value.
pub struct JoinState<T, W> {
    /// The result, from completion until the joiner takes it.
    pub result: Option<T>,
    /// The computation completed, or its result was taken.
    pub done: bool,
    /// Abort was called.
    pub cancelled: bool,
    /// The waker of the joiner that waits.
    pub waker: Option<W>,
}

impl<T, W> JoinState<T, W> {
    /// A record nobody has written to.
    pub open spec fn fresh() -> Self {
        JoinState { result: None, done: false, cancelled: false, waker: None }
    }

    /// After the computation returned `value`: discarded if abort came
    /// first, else stored, with the waiting joiner's waker taken out.
    pub open spec fn completed(self, value: T) -> Self {
        if self.cancelled {
            self
        } else {
            JoinState { result: Some(value), done: true, waker: None, ..self }
        }
    }

    /// After abort.
    pub open spec fn aborted(self) -> Self {
        JoinState { cancelled: true, waker: None, ..self }
    }

    /// What a joiner's poll yields.
    pub open spec fn outcome(self) -> Poll<Result<T, JoinError>> {
        if self.cancelled {
            Poll::Ready(Err(JoinError::Cancelled))
        } else if self.result is Some {
            Poll::Ready(Ok(self.result->0))
        } else {
            Poll::Pending
        }
    }

    /// After a joiner's poll with `waker`.
    pub open spec fn polled(self, waker: W) -> Self {
        if self.cancelled {
            self
        } else if self.result is Some {
            JoinState { result: None, done: true, ..self }
        } else {
            JoinState { waker: Some(waker), ..self }
        }
    }
}

/// What the caller of `abort` must do.
pub struct Abort<W> {
    /// Post a poll of the task, so that its future is dropped soon.
    pub post: bool,
    /// Wake this waker: the joiner that waits.
    pub wake: Option<W>,
}

/// The record shared by a spawned computation and the holder of its join
/// handle. `T` is the type of the result, `W` of a waker.
///
/// Nothing here reacts to the holder going away: a computation whose
/// handle was dropped runs on and completes into the record.
pub struct JoinHandle<T, W> {
    result: Option<T>,
    done: bool,
    cancelled: bool,
    waker: Option<W>,
}

impl<T, W> View for JoinHandle<T, W> {
    type V = JoinState<T, W>;

    closed spec fn view(&self) -> JoinState<T, W> {
        JoinState {
            result: self.result,
            done: self.done,
            cancelled: self.cancelled,
            waker: self.waker,
        }
    }
}

impl<T, W> JoinHandle<T, W> {
    /// A record for a computation that has not completed.
    pub fn new() -> (h: Self)
        ensures
            h@ == JoinState::<T, W>::fresh(),
    {
        JoinHandle { result: None, done: false, cancelled: false, waker: None }
    }

    /// The computation returned `value`. If abort came first the value is
    /// dropped and nobody is woken. Else the value is stored, the record
    /// marked done, and the waiting joiner's waker returned for the
    /// caller to wake.
    pub fn complete(&mut self, value: T) -> (wake: Option<W>)
        ensures
            final(self)@ == old(self)@.completed(value),
            wake == (if old(self)@.cancelled {
                None
            } else {
                old(self)@.waker
            }),
    {
        if self.cancelled {
            return None;
        }
        self.result = Some(value);
        self.done = true;
        self.waker.take()
    }

    /// Requests cancellation: marks the record and the task cancelled,
    /// asks for a poll of the task so that its future is dropped at the
    /// next visit, and releases the waiting joiner.
    pub fn abort<F>(&mut self, task: &mut Task<F>) -> (effects: Abort<W>)
        requires
            old(task).wf(),
        ensures
            final(task).wf(),
            final(self)@ == old(self)@.aborted(),
            final(task)@ == old(task)@.cancelling().requested(),
            effects.post == old(task)@.must_post(),
            effects.wake == old(self)@.waker,
    {
        self.cancelled = true;
        task.cancel();
        let post = task.schedule();
        let wake = self.waker.take();
        Abort { post, wake }
    }

    /// Whether the computation completed or its result was taken.
    pub fn is_finished(&self) -> (b: bool)
        ensures
            b == self@.done,
    {
        self.done
    }

    /// A joiner's poll. After abort it yields `Cancelled`, also when a
    /// result is stored. Else a stored result is taken and yielded.
    /// Else `waker` replaces the stored waker and the joiner waits.
    pub fn poll(&mut self, waker: W) -> (r: Poll<Result<T, JoinError>>)
        ensures
            r == old(self)@.outcome(),
            final(self)@ == old(self)@.polled(waker),
    {
        if self.cancelled {
            return Poll::Ready(Err(JoinError::Cancelled));
        }
        match self.result.take() {
            Some(v) => {
                self.done = true;
                Poll::Ready(Ok(v))
            },
            None => {
                self.waker = Some(waker);
                Poll::Pending
            },
        }
    }
}

/// Which of two computations finished first, with its result.
pub enum Select2<T> {
    A(Result<T, JoinError>),
    B(Result<T, JoinError>),
}

/// The first computation of several to finish: its position among the
/// handles given, its result, and the other handles in their order.
pub struct SelectAny<H, T> {
    pub index: usize,
    pub result: Result<T, JoinError>,
    pub remaining: Vec<H>,
}

/// Waits for all of several handles, one after the other.
pub struct JoinAll<H, T> {
    handles: Vec<H>,
    out: Vec<Result<T, JoinError>>,
}

/// Waits for the first of several handles.
pub struct SelectAnyFuture<H> {
    handles: Vec<H>,
}

/// Waits for the first of two handles.
pub struct Select2Future<H> {
    a: H,
    b: H,
}

/// Begins to join all of `handles`, in their order.
pub fn join_all<H, T>(handles: Vec<H>) -> (f: JoinAll<H, T>)
    ensures
        f.wf(),
        f.handles() == handles@,
        f.results().len() == 0,
{
    JoinAll { handles, out: Vec::new() }
}

/// Begins to wait for the first of `handles` to finish. There must be at
/// least one.
pub fn select_any<H>(handles: Vec<H>) -> (f: SelectAnyFuture<H>)
    requires
        handles@.len() > 0,
    ensures
        f@ == handles@,
{
    SelectAnyFuture { handles }
}

/// Begins to wait for the first of `a` and `b` to finish.
pub fn select2<H>(a: H, b: H) -> (f: Select2Future<H>)
    ensures
        f@ == (a, b),
{
    Select2Future { a, b }
}

impl<H, T> JoinAll<H, T> {
    /// The handles being joined.
    pub closed spec fn handles(&self) -> Seq<H> {
        self.handles@
    }

    /// The results collected so far: those of the first handles.
    pub closed spec fn results(&self) -> Seq<Result<T, JoinError>> {
        self.out@
    }

    /// Never more results than handles.
    pub closed spec fn wf(&self) -> bool {
        self.out@.len() <= self.handles@.len()
    }

    /// Polls the handles from the first one without a result on, with
    /// `poll`, and stops at the first that is not ready. Each result is
    /// stored at the position of its handle. Once every handle has a
    /// result they are yielded together, in the order of the handles; a
    /// failed join is a result like any other.
    pub fn poll<P: Fn(&H) -> Poll<Result<T, JoinError>>>(&mut self, poll: P) -> (r: Poll<
        Vec<Result<T, JoinError>>,
    >)
        requires
            old(self).wf(),
            forall|h: &H| poll.requires((h,)),
        ensures
            final(self).wf(),
            final(self).handles() == old(self).handles(),
            match r {
                Poll::Ready(all) => {
                    &&& all@.len() == old(self).handles().len()
                    &&& all@.take(old(self).results().len() as int) == old(self).results()
                    &&& forall|j: int|
                        old(self).results().len() <= j < all@.len() ==> poll.ensures(
                            (&old(self).handles()[j],),
                            Poll::Ready(#[trigger] all@[j]),
                        )
                    &&& final(self).results().len() == 0
                },
                Poll::Pending => {
                    &&& final(self).results().len() < old(self).handles().len()
                    &&& old(self).results().len() <= final(self).results().len()
                    &&& final(self).results().take(old(self).results().len() as int) == old(self).results()
                    &&& forall|j: int|
                        old(self).results().len() <= j < final(self).results().len()
                            ==> poll.ensures(
                            (&old(self).handles()[j],),
                            Poll::Ready(#[trigger] final(self).results()[j]),
                        )
                    &&& poll.ensures(
                        (&old(self).handles()[final(self).results().len() as int],),
                        Poll::Pending,
                    )
                },
            },
    {
        let ghost before = self.out@;
        while self.out.len() < self.handles.len()
            invariant
                self.handles@ == old(self).handles@,
                before == old(self).out@,
                before.len() <= self.out@.len() <= self.handles@.len(),
                self.out@.take(before.len() as int) == before,
                forall|h: &H| poll.requires((h,)),
                forall|j: int|
                    before.len() <= j < self.out@.len() ==> poll.ensures(
                        (&self.handles@[j],),
                        Poll::Ready(#[trigger] self.out@[j]),
                    ),
            decreases self.handles@.len() - self.out@.len(),
        {
            let ghost sofar = self.out@;
            let next = self.out.len();
            match poll(&self.handles[next]) {
                Poll::Ready(result) => {
                    self.out.push(result);
                    proof {
                        assert(self.out@.take(before.len() as int) == sofar.take(
                            before.len() as int,
                        ));
                        assert forall|j: int|
                            before.len() <= j < self.out@.len() implies poll.ensures(
                            (&self.handles@[j],),
                            Poll::Ready(#[trigger] self.out@[j]),
                        ) by {
                            if j < sofar.len() {
                                assert(self.out@[j] == sofar[j]);
                            }
                        }
                    }
                },
                Poll::Pending => {
                    return Poll::Pending;
                },
            }
        }
        let mut all: Vec<Result<T, JoinError>> = Vec::new();
        std::mem::swap(&mut all, &mut self.out);
        Poll::Ready(all)
    }
}

impl<H> View for SelectAnyFuture<H> {
    type V = Seq<H>;

    closed spec fn view(&self) -> Seq<H> {
        self.handles@
    }
}

impl<H> SelectAnyFuture<H> {
    /// Polls the handles in order with `poll` and stops at the first that
    /// is ready: its index, its result and the other handles, in their
    /// order, are yielded, and the future is left without handles. When
    /// several are ready the one with the lowest index wins. When none is
    /// ready every handle has been polled, and so holds the waker, and
    /// all of them stay.
    pub fn poll<T, P: Fn(&H) -> Poll<Result<T, JoinError>>>(&mut self, poll: P) -> (r: Poll<
        SelectAny<H, T>,
    >)
        requires
            forall|h: &H| poll.requires((h,)),
        ensures
            match r {
                Poll::Ready(sel) => {
                    &&& sel.index < old(self)@.len()
                    &&& poll.ensures((&old(self)@[sel.index as int],), Poll::Ready(sel.result))
                    &&& forall|j: int|
                        0 <= j < sel.index ==> poll.ensures(
                            (&#[trigger] old(self)@[j],),
                            Poll::Pending,
                        )
                    &&& sel.remaining@ == old(self)@.remove(sel.index as int)
                    &&& final(self)@.len() == 0
                },
                Poll::Pending => {
                    &&& final(self)@ == old(self)@
                    &&& forall|j: int|
                        0 <= j < old(self)@.len() ==> poll.ensures(
                            (&#[trigger] old(self)@[j],),
                            Poll::Pending,
                        )
                },
            },
    {
        let mut i: usize = 0;
        while i < self.handles.len()
            invariant
                self.handles@ == old(self).handles@,
                i <= self.handles@.len(),
                forall|h: &H| poll.requires((h,)),
                forall|j: int|
                    0 <= j < i ==> poll.ensures((&#[trigger] self.handles@[j],), Poll::Pending),
            decreases self.handles@.len() - i,
        {
            match poll(&self.handles[i]) {
                Poll::Ready(result) => {
                    let mut remaining: Vec<H> = Vec::new();
                    std::mem::swap(&mut remaining, &mut self.handles);
                    let _ = remaining.remove(i);
                    return Poll::Ready(SelectAny { index: i, result, remaining });
                },
                Poll::Pending => {},
            }
            i += 1;
        }
        Poll::Pending
    }
}

impl<H> View for Select2Future<H> {
    type V = (H, H);

    closed spec fn view(&self) -> (H, H) {
        (self.a, self.b)
    }
}

impl<H> Select2Future<H> {
    /// Polls the first handle, then the second, with `poll`, and yields
    /// the result of the first that is ready, saying which side it was.
    pub fn poll<T, P: Fn(&H) -> Poll<Result<T, JoinError>>>(&mut self, poll: P) -> (r: Poll<
        Select2<T>,
    >)
        requires
            forall|h: &H| poll.requires((h,)),
        ensures
            final(self)@ == old(self)@,
            match r {
                Poll::Ready(Select2::A(res)) => poll.ensures((&old(self)@.0,), Poll::Ready(res)),
                Poll::Ready(Select2::B(res)) => poll.ensures((&old(self)@.0,), Poll::Pending)
                    && poll.ensures((&old(self)@.1,), Poll::Ready(res)),
                Poll::Pending => poll.ensures((&old(self)@.0,), Poll::Pending) && poll.ensures(
                    (&old(self)@.1,),
                    Poll::Pending,
                ),
            },
    {
        match poll(&self.a) {
            Poll::Ready(res) => {
                return Poll::Ready(Select2::A(res));
            },
            Poll::Pending => {},
        }
        match poll(&self.b) {
            Poll::Ready(res) => Poll::Ready(Select2::B(res)),
            Poll::Pending => Poll::Pending,
        }
    }
}

/// Nothing but `abort` cancels. No visit, no settling and no schedule
/// request sets a task's cancelled flag, and no completion and no poll
/// sets a record's. So a computation whose handle went away, and was
/// never aborted, runs on: its task is polled like any other, and its
/// result is stored and the record marked done whether or not anybody
/// will look.
pub proof fn lemma_only_abort_cancels<F, T, W>(
    task: TaskState<F>,
    record: JoinState<T, W>,
    fut: F,
    finished: bool,
    value: T,
    waker: W,
)
    ensures
        task.requested().cancelled == task.cancelled,
        task.visited().cancelled == task.cancelled,
        task.settled(fut, finished).cancelled == task.cancelled,
        record.completed(value).cancelled == record.cancelled,
        record.polled(waker).cancelled == record.cancelled,
        !record.cancelled ==> record.completed(value).result == Some(value)
            && record.completed(value).done,
        !task.cancelled && !task.done && !task.polling && task.fut is Some
            ==> task.visited().polling,
{
}

/// After abort the joiner is released at once: its waker is handed out
/// for waking, and its next poll yields `Cancelled`, whether or not the
/// computation has noticed, and whether or not a result was stored.
pub proof fn lemma_abort_releases_joiner<T, W>(record: JoinState<T, W>, waker: W)
    ensures
        record.aborted().outcome() == Poll::<Result<T, JoinError>>::Ready(
            Err(JoinError::Cancelled),
        ),
        record.aborted().waker is None,
        record.aborted().polled(waker) == record.aborted(),
{
}

/// On a tie the lower index wins: whatever index `SelectAnyFuture::poll`
/// yields, every handle before it was polled and found pending, so a
/// handle that can only be found ready does not stand before it.
pub proof fn lemma_select_any_prefers_lower_index<
    H,
    T,
    P: Fn(&H) -> Poll<Result<T, JoinError>>,
>(poll: P, handles: Seq<H>, index: int, i: int)
    requires
        0 <= i < handles.len(),
        forall|j: int|
            0 <= j < index ==> poll.ensures((&#[trigger] handles[j],), Poll::Pending),
        forall|r: Poll<Result<T, JoinError>>| poll.ensures((&handles[i],), r) ==> r is Ready,
    ensures
        index <= i,
{
    if i < index {
        assert(poll.ensures((&handles[i],), Poll::Pending));
    }
}

} // verus!
