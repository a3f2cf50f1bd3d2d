//! The status of a push, and how the statuses of several output paths make
//! the one status that is reported upstream.
//!
//! Each path keeps the status of the last push on it. A status that stops
//! the stream (flushing, not negotiated, error, not supported) on any path
//! is the status of the whole. Without one, the whole is not linked only if
//! every path is not linked, at its end only if every linked path is at its
//! end, and in order otherwise: one path that is not linked, or at its end,
//! does not stop the others.

use vstd::prelude::*;

verus! {

/// The outcome of pushing a unit downstream.
#[derive(Clone, Copy, Debug, PartialEq, Eq, Structural)]
pub enum FlowStatus {
    Success,
    NotLinked,
    Flushing,
    Eos,
    NotNegotiated,
    Error,
    NotSupported,
}

/// Whether the status stops the stream whatever the other paths say.
pub open spec fn spec_is_fatal(s: FlowStatus) -> bool {
    s == FlowStatus::Flushing || s == FlowStatus::NotNegotiated || s == FlowStatus::Error || s
        == FlowStatus::NotSupported
}

/// Whether the status stops the stream whatever the other paths say.
#[verifier::when_used_as_spec(spec_is_fatal)]
pub fn is_fatal(s: FlowStatus) -> (b: bool)
    ensures
        b == spec_is_fatal(s),
{
    match s {
        FlowStatus::Flushing
        | FlowStatus::NotNegotiated
        | FlowStatus::Error
        | FlowStatus::NotSupported => true,
        _ => false,
    }
}

/// The place of the first fatal status among `paths`, or their number if
/// there is none.
pub open spec fn first_fatal(paths: Seq<FlowStatus>) -> int
    decreases paths.len(),
{
    if paths.len() == 0 {
        0
    } else if spec_is_fatal(paths[0]) {
        0
    } else {
        1 + first_fatal(paths.drop_first())
    }
}

/// The status of the whole, from the last status of each path.
pub open spec fn combined(paths: Seq<FlowStatus>) -> FlowStatus {
    if exists|i: int| 0 <= i < paths.len() && spec_is_fatal(#[trigger] paths[i]) {
        paths[first_fatal(paths)]
    } else if forall|i: int| 0 <= i < paths.len() ==> #[trigger] paths[i] == FlowStatus::NotLinked {
        FlowStatus::NotLinked
    } else if forall|i: int|
        0 <= i < paths.len() ==> #[trigger] paths[i] == FlowStatus::NotLinked || paths[i]
            == FlowStatus::Eos {
        FlowStatus::Eos
    } else {
        FlowStatus::Success
    }
}

/// The status that is reported after a push on one path has returned
/// `latest` and the paths stand at `paths`: a fatal `latest` itself, else
/// the status of the whole.
pub open spec fn reported(latest: FlowStatus, paths: Seq<FlowStatus>) -> FlowStatus {
    if spec_is_fatal(latest) {
        latest
    } else {
        combined(paths)
    }
}

/// The first fatal status stands where `first_fatal` says, if there is one.
pub proof fn lemma_first_fatal(paths: Seq<FlowStatus>)
    ensures
        0 <= first_fatal(paths) <= paths.len(),
        forall|i: int| 0 <= i < first_fatal(paths) ==> !spec_is_fatal(#[trigger] paths[i]),
        first_fatal(paths) < paths.len() ==> spec_is_fatal(paths[first_fatal(paths)]),
    decreases paths.len(),
{
    if paths.len() > 0 && !spec_is_fatal(paths[0]) {
        let rest = paths.drop_first();
        lemma_first_fatal(rest);
        assert forall|i: int| 0 <= i < first_fatal(paths) implies !spec_is_fatal(
            #[trigger] paths[i],
        ) by {
            if i > 0 {
                assert(paths[i] == rest[i - 1]);
            }
        }
    }
}

/// The last status of each of a number of output paths.
pub struct FlowCombiner {
    paths: Vec<FlowStatus>,
}

impl View for FlowCombiner {
    type V = Seq<FlowStatus>;

    closed spec fn view(&self) -> Seq<FlowStatus> {
        self.paths@
    }
}

impl FlowCombiner {
    /// A combiner without paths.
    pub fn new() -> (c: FlowCombiner)
        ensures
            c@ == Seq::<FlowStatus>::empty(),
    {
        FlowCombiner { paths: Vec::new() }
    }

    /// The number of paths.
    pub fn len(&self) -> (n: usize)
        ensures
            n == self@.len(),
    {
        self.paths.len()
    }

    /// Adds a path, in order so far, and returns its number.
    pub fn add_path(&mut self) -> (id: usize)
        ensures
            id == old(self)@.len(),
            final(self)@ == old(self)@.push(FlowStatus::Success),
    {
        let id = self.paths.len();
        self.paths.push(FlowStatus::Success);
        id
    }

    /// The status of the whole.
    pub fn status(&self) -> (s: FlowStatus)
        ensures
            s == combined(self@),
    {
        let n = self.paths.len();
        let mut all_not_linked = true;
        let mut all_ended = true;
        let mut i: usize = 0;
        proof {
            lemma_first_fatal(self.paths@);
        }
        while i < n
            invariant
                n == self.paths@.len(),
                i <= n,
                forall|j: int| 0 <= j < i ==> !spec_is_fatal(#[trigger] self.paths@[j]),
                all_not_linked <==> forall|j: int|
                    0 <= j < i ==> #[trigger] self.paths@[j] == FlowStatus::NotLinked,
                all_ended <==> forall|j: int|
                    0 <= j < i ==> #[trigger] self.paths@[j] == FlowStatus::NotLinked
                        || self.paths@[j] == FlowStatus::Eos,
                0 <= first_fatal(self.paths@) <= n,
                forall|j: int|
                    0 <= j < first_fatal(self.paths@) ==> !spec_is_fatal(#[trigger] self.paths@[j]),
                first_fatal(self.paths@) < n ==> spec_is_fatal(
                    self.paths@[first_fatal(self.paths@)],
                ),
            decreases n - i,
        {
            let s = self.paths[i];
            if is_fatal(s) {
                assert(first_fatal(self.paths@) == i) by {
                    if first_fatal(self.paths@) > i {
                        assert(!spec_is_fatal(self.paths@[i as int]));
                    }
                }
                return s;
            }
            if s != FlowStatus::NotLinked {
                all_not_linked = false;
                if s != FlowStatus::Eos {
                    all_ended = false;
                }
            }
            i += 1;
        }
        if all_not_linked {
            FlowStatus::NotLinked
        } else if all_ended {
            FlowStatus::Eos
        } else {
            FlowStatus::Success
        }
    }

    /// Records that the last push on path `id` returned `latest`, and returns
    /// the status to report. A path that was never added changes nothing.
    pub fn update(&mut self, id: usize, latest: FlowStatus) -> (s: FlowStatus)
        ensures
            id < old(self)@.len() ==> final(self)@ == old(self)@.update(id as int, latest),
            id >= old(self)@.len() ==> final(self)@ == old(self)@,
            s == reported(latest, final(self)@),
    {
        if id < self.paths.len() {
            self.paths[id] = latest;
        }
        if is_fatal(latest) {
            latest
        } else {
            self.status()
        }
    }
}

/// A fatal status on a path is reported until that path is pushed on again,
/// and the whole is in order only if no path is fatal and one of them is in
/// order.
pub proof fn law_combined(paths: Seq<FlowStatus>, i: int)
    requires
        0 <= i < paths.len(),
    ensures
        spec_is_fatal(paths[i]) ==> spec_is_fatal(combined(paths)),
        combined(paths) == FlowStatus::Success ==> !spec_is_fatal(paths[i]),
        combined(paths) == FlowStatus::Success ==> exists|j: int|
            0 <= j < paths.len() && #[trigger] paths[j] == FlowStatus::Success,
{
    lemma_first_fatal(paths);
    if combined(paths) == FlowStatus::Success {
        let j = choose|j: int|
            0 <= j < paths.len() && !(#[trigger] paths[j] == FlowStatus::NotLinked || paths[j]
                == FlowStatus::Eos);
        assert(paths[j] == FlowStatus::Success);
    }
}

} // verus!
