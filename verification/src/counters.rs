//! What the agent counts.
use crate::plugin::reload;
use crate::plugin::reload::Failure;
use vstd::prelude::*;

verus! {

/// One thing that is counted.
#[derive(Debug, PartialEq, Eq)]
pub enum Count {
    /// A plugin could not be loaded, initialised, started or stopped.
    LoadFailure { plugin: String },
    /// A plugin was called.
    Invocation { plugin: String, engine: &'static str, ok: bool },
    /// The execution of a plugin was interrupted.
    Trap { plugin: String, reason: &'static str },
    /// One subscriber of changes more.
    WatchSubscribed,
    /// One subscriber of changes less.
    WatchUnsubscribed,
}

/// Contents of [`Count`].
pub enum CountView {
    LoadFailure { plugin: Seq<char> },
    Invocation { plugin: Seq<char>, engine: Seq<char>, ok: bool },
    Trap { plugin: Seq<char>, reason: Seq<char> },
    WatchSubscribed,
    WatchUnsubscribed,
}

impl View for Count {
    type V = CountView;

    open spec fn view(&self) -> CountView {
        match *self {
            Count::LoadFailure { plugin } => CountView::LoadFailure { plugin: plugin@ },
            Count::Invocation { plugin, engine, ok } => CountView::Invocation {
                plugin: plugin@,
                engine: engine@,
                ok,
            },
            Count::Trap { plugin, reason } => CountView::Trap { plugin: plugin@, reason: reason@ },
            Count::WatchSubscribed => CountView::WatchSubscribed,
            Count::WatchUnsubscribed => CountView::WatchUnsubscribed,
        }
    }
}

/// Contents of counts.
pub open spec fn count_views(counts: Seq<Count>) -> Seq<CountView> {
    Seq::new(counts.len(), |i: int| counts[i]@)
}

/// What failures count for: each for one failure of its plugin, in their order.
pub open spec fn failure_counts(failures: Seq<Failure>) -> Seq<CountView> {
    Seq::new(failures.len(), |i: int| CountView::LoadFailure { plugin: failures[i].0 })
}

/// What failures of plugins count for.
pub fn load_failures(failures: &[(String, String)]) -> (r: Vec<Count>)
    ensures
        count_views(r@) == failure_counts(reload::failure_views(failures@)),
{
    let mut out: Vec<Count> = Vec::new();
    let mut i: usize = 0;
    while i < failures.len()
        invariant
            i <= failures@.len(),
            out@.len() == i,
            forall|k: int|
                0 <= k < i ==> (#[trigger] out@[k])@ == (CountView::LoadFailure {
                    plugin: failures@[k].0@,
                }),
        decreases failures@.len() - i,
    {
        out.push(Count::LoadFailure { plugin: failures[i].0.clone() });
        i += 1;
    }
    assert(count_views(out@) =~= failure_counts(reload::failure_views(failures@)));
    out
}

/// Every failure counts for one failure of its plugin, in order, and nothing else is counted.
pub proof fn law_every_failure_is_counted(failures: &[(String, String)], r: Vec<Count>)
    requires
        call_ensures(load_failures, (failures,), r),
    ensures
        r@.len() == failures@.len(),
        forall|i: int|
            0 <= i < failures@.len() ==> ((#[trigger] r@[i]) matches Count::LoadFailure { plugin }
                && plugin@ == failures@[i].0@),
{
    assert(count_views(r@).len() == r@.len());
    assert(failure_counts(reload::failure_views(failures@)).len() == failures@.len());
    assert forall|i: int| 0 <= i < failures@.len() implies ((#[trigger] r@[i]) matches
        Count::LoadFailure { plugin } && plugin@ == failures@[i].0@) by {
        assert(count_views(r@)[i] == r@[i]@);
        assert(failure_counts(reload::failure_views(failures@))[i] == (CountView::LoadFailure {
            plugin: failures@[i].0@,
        }));
    }
}

} // verus!
