//! The windowing state machine of the mean-deviation indicator.
//!
//! An `MD` is warming while it holds fewer than `period` samples and warm
//! once it holds `period` of them; from then on every sample evicts the
//! oldest one, and each step reports the full window, oldest first, over
//! which the deviation from the window's mean is taken.
use vstd::prelude::*;

use crate::fixed_queue::FixedQueue;

verus! {

/// The window after one more sample: `x` joins as the newest sample, and
/// the oldest one leaves when `period` samples were already held.
pub open spec fn step<T>(period: nat, held: Seq<T>, x: T) -> Seq<T> {
    if held.len() < period {
        held.push(x)
    } else {
        held.drop_first().push(x)
    }
}

/// The window after feeding the samples `xs`, in order, to a window that
/// held `held`.
pub open spec fn feed<T>(period: nat, held: Seq<T>, xs: Seq<T>) -> Seq<T>
    decreases xs.len(),
{
    if xs.len() == 0 {
        held
    } else {
        step(period, feed(period, held, xs.drop_last()), xs.last())
    }
}

/// What a step reports about the window it leaves behind: the window
/// itself once it holds `period` samples, nothing while it is warming.
pub open spec fn report<T>(period: nat, window: Seq<T>) -> Option<Seq<T>> {
    if window.len() == period {
        Some(window)
    } else {
        None
    }
}

/// The report on the sample `xs[i]` when the samples `xs` are fed, in
/// order, to a window that held `held`.
pub open spec fn response<T>(period: nat, held: Seq<T>, xs: Seq<T>, i: int) -> Option<Seq<T>> {
    report(period, feed(period, held, xs.take(i + 1)))
}

/// Fed from an empty window, the window holds the latest `period` samples
/// of `xs`, oldest first, or all of them while there are fewer.
pub proof fn lemma_window_is_latest<T>(period: nat, xs: Seq<T>)
    requires
        period > 0,
    ensures
        feed(period, Seq::<T>::empty(), xs) == (if xs.len() < period {
            xs
        } else {
            xs.subrange(xs.len() - period, xs.len() as int)
        }),
    decreases xs.len(),
{
    let n = xs.len() as int;
    if n == 0 {
        assert(xs =~= Seq::<T>::empty());
    } else {
        let init = xs.drop_last();
        lemma_window_is_latest(period, init);
        if init.len() < period {
            assert(init.push(xs.last()) =~= xs);
            assert(xs.subrange(0, n) =~= xs);
        } else {
            let w = init.subrange(n - 1 - period, n - 1);
            assert(w.drop_first().push(xs.last()) =~= xs.subrange(n - period, n));
        }
    }
}

/// Warm-up: fed to a new instance, the first `period - 1` samples get no
/// report, and every sample from the `period`-th on gets one.
pub proof fn lemma_warm_up<T>(period: nat, xs: Seq<T>)
    requires
        period > 0,
    ensures
        forall|i: int|
            0 <= i < xs.len() ==> (#[trigger] response(period, Seq::<T>::empty(), xs, i) is None
                <==> i + 1 < period),
{
    assert forall|i: int| 0 <= i < xs.len() implies (#[trigger] response(
        period,
        Seq::<T>::empty(),
        xs,
        i,
    ) is None <==> i + 1 < period) by {
        lemma_window_is_latest(period, xs.take(i + 1));
    }
}

/// Windowing: once a new instance is warm, the window that each sample gets
/// reported is exactly the latest `period` samples, ending with that one,
/// oldest first.
pub proof fn lemma_warm_window<T>(period: nat, xs: Seq<T>)
    requires
        period > 0,
    ensures
        forall|i: int|
            0 <= i < xs.len() && i + 1 >= period ==> #[trigger] response(
                period,
                Seq::<T>::empty(),
                xs,
                i,
            ) == Some(xs.subrange(i + 1 - period, i + 1)),
{
    assert forall|i: int| 0 <= i < xs.len() && i + 1 >= period implies #[trigger] response(
        period,
        Seq::<T>::empty(),
        xs,
        i,
    ) == Some(xs.subrange(i + 1 - period, i + 1)) by {
        lemma_window_is_latest(period, xs.take(i + 1));
        assert(xs.take(i + 1).subrange(i + 1 - period, i + 1) =~= xs.subrange(i + 1 - period, i + 1));
    }
}

/// Why an `MD` could not be built.
#[derive(Debug, Clone, Copy, PartialEq, Eq, Structural)]
pub enum MdError {
    /// A window of zero samples has no mean to deviate from.
    InvalidPeriod,
}

/// The window of a mean-deviation indicator over its last `period` samples.
pub struct MD<T> {
    period: u32,
    history: FixedQueue<T>,
}

impl<T: Copy> View for MD<T> {
    type V = Seq<T>;

    /// The retained samples, oldest first.
    closed spec fn view(&self) -> Seq<T> {
        self.history@
    }
}

impl<T: Copy> MD<T> {
    /// The number of samples in a full window.
    pub closed spec fn period_spec(&self) -> nat {
        self.period as nat
    }

    pub closed spec fn wf(&self) -> bool {
        &&& self.history.wf()
        &&& self.history.capacity_spec() == self.period
    }

    /// An indicator over windows of `period` samples, warming and empty;
    /// a period of zero is refused.
    pub fn new(period: u32) -> (r: Result<MD<T>, MdError>)
        ensures
            r is Err <==> period == 0,
            r matches Err(e) ==> e == MdError::InvalidPeriod,
            r matches Ok(md) ==> {
                &&& md.wf()
                &&& md.period_spec() == period
                &&& md@ == Seq::<T>::empty()
            },
    {
        match FixedQueue::new(period) {
            Some(history) => Ok(MD { period, history }),
            None => Err(MdError::InvalidPeriod),
        }
    }

    /// Records `input` as the newest sample, evicting the oldest one when
    /// the window was full, and returns the window, oldest first, once it
    /// holds `period` samples.
    pub fn next(&mut self, input: T) -> (r: Option<Vec<T>>)
        requires
            old(self).wf(),
        ensures
            final(self).wf(),
            final(self).period_spec() == old(self).period_spec(),
            final(self)@ == step(old(self).period_spec(), old(self)@, input),
            (match r {
                Some(w) => Some(w@),
                None => None,
            }) == report(final(self).period_spec(), final(self)@),
    {
        self.history.add(input);
        if self.history.is_full() {
            let n = self.history.size();
            let mut window: Vec<T> = Vec::new();
            let mut i: usize = 0;
            while i < n
                invariant
                    self.wf(),
                    n == self@.len(),
                    i <= n,
                    window@ == self@.take(i as int),
                decreases n - i,
            {
                let x = self.history.at(i).unwrap();
                window.push(x);
                i = i + 1;
                assert(window@ =~= self@.take(i as int));
            }
            assert(window@ =~= self@);
            Some(window)
        } else {
            None
        }
    }

    /// Empties the window, so that warm-up starts afresh; the period is
    /// kept. The instance then answers as a newly built one does.
    pub fn reset(&mut self)
        requires
            old(self).wf(),
        ensures
            final(self).wf(),
            final(self).period_spec() == old(self).period_spec(),
            final(self)@ == Seq::<T>::empty(),
    {
        proof {
            self.history.lemma_bounds();
        }
        match FixedQueue::new(self.period) {
            Some(history) => {
                self.history = history;
            },
            None => {},
        }
    }

    /// The number of samples in a full window.
    pub fn period(&self) -> (r: u32)
        ensures
            r == self.period_spec(),
    {
        self.period
    }
}

} // verus!
