use crate::frame::{Frame, FrameView};
use vstd::prelude::*;

verus! {

/// A consumer of dispatched frames. It gets its own handle onto each frame's
/// shared, read-only buffer.
pub trait FrameSink {
    fn on_frame(&self, frame: Frame);
}

/// `s` has been called with a handle onto a frame with view `f`.
pub open spec fn called<S: FrameSink>(s: S, f: FrameView) -> bool {
    exists|h: Frame| h@ == f && #[trigger] call_ensures(S::on_frame, (&s, h), ())
}

/// One call of a sink: its position in registration order and the frame it
/// was handed.
pub struct Delivery {
    pub sink: nat,
    pub frame: FrameView,
}

/// The calls that hand `f` to each of `n` sinks, in registration order.
pub open spec fn deliveries(n: nat, f: FrameView) -> Seq<Delivery> {
    Seq::new(n, |i: int| Delivery { sink: i as nat, frame: f })
}

/// Handing a frame to the sinks calls each registered sink exactly once, and
/// nothing else, each time with the same frame.
pub proof fn lemma_each_sink_once(n: nat, f: FrameView)
    ensures
        deliveries(n, f).len() == n,
        forall|s: nat|
            s < n ==> (#[trigger] deliveries(n, f)[s as int]).sink == s && deliveries(n, f)[s as int].frame
                == f,
        forall|i: int, j: int|
            0 <= i < n && 0 <= j < n && #[trigger] deliveries(n, f)[i].sink == #[trigger] deliveries(
                n,
                f,
            )[j].sink ==> i == j,
{
}

/// The registered sinks, in registration order.
pub struct SinkSet<S> {
    sinks: Vec<S>,
}

impl<S: FrameSink> SinkSet<S> {
    /// The registered sinks, in registration order.
    pub closed spec fn spec_sinks(&self) -> Seq<S> {
        self.sinks@
    }

    pub open spec fn spec_len(&self) -> nat {
        self.spec_sinks().len()
    }

    pub fn new() -> (r: Self)
        ensures
            r.spec_sinks() == Seq::<S>::empty(),
    {
        SinkSet { sinks: Vec::new() }
    }

    pub fn len(&self) -> (r: usize)
        ensures
            r == self.spec_len(),
    {
        self.sinks.len()
    }

    /// Registers a sink after those already there.
    pub fn add(&mut self, sink: S)
        ensures
            final(self).spec_sinks() == old(self).spec_sinks().push(sink),
    {
        self.sinks.push(sink);
    }

    /// Calls every sink once, in registration order, each with its own handle
    /// onto the frame; the result records those calls.
    pub fn deliver(&self, frame: &Frame) -> (log: Ghost<Seq<Delivery>>)
        ensures
            log@ == deliveries(self.spec_len(), frame@),
            forall|i: int| 0 <= i < self.spec_len() ==> called(#[trigger] self.spec_sinks()[i], frame@),
    {
        let n = self.sinks.len();
        let ghost mut calls: Seq<Delivery> = Seq::empty();
        let mut i: usize = 0;
        while i < n
            invariant
                n == self.sinks@.len(),
                i <= n,
                calls =~= deliveries(i as nat, frame@),
                forall|j: int| 0 <= j < i ==> called(#[trigger] self.sinks@[j], frame@),
            decreases n - i,
        {
            let handle = frame.clone();
            let ghost h = handle;
            proof {
                calls = calls.push(Delivery { sink: i as nat, frame: handle@ });
            }
            self.sinks[i].on_frame(handle);
            assert(call_ensures(S::on_frame, (&self.sinks@[i as int], h), ()));
            assert(called(self.sinks@[i as int], frame@));
            i = i + 1;
        }
        Ghost(calls)
    }
}

} // verus!
