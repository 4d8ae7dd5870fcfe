//! The steps that the coordinator hands to the store and the queue.

use vstd::prelude::*;
use crate::graph::{CollectionView, Link, StepView};
use crate::model::{music_views, Collection, DbEntry, DbMusic, Music};
use crate::table::Rel;

verus! {

/// One change of the store, or one job for the download queue.
#[derive(Debug)]
pub enum Step {
    CreateCollection(Collection),
    DeleteCollection { name: String },
    RenameCollection { from: String, to: String },
    SetExclude { collection: String, exclude: Vec<Music> },
    InsertEntry(DbEntry),
    PatchEntry { name: String, avg_db: Option<i32>, path: String },
    RefreshAverage { name: String },
    InsertMusic(DbMusic),
    UpdateMusic(DbMusic),
    DeleteMusic { path: String },
    Relate { kind: Rel, from: String, to: String },
    Unrelate { kind: Rel, from: String, to: String },
    Enqueue(crate::pipeline::Entry),
}

impl View for Collection {
    type V = CollectionView;

    open spec fn view(&self) -> CollectionView {
        CollectionView { name: self.name@, exclude: music_views(self.exclude@) }
    }
}

/// What a step does to the graph. The job of `Enqueue` does nothing to
/// it and is told by `jobs`; the identity of a row is told by `keyed`.
impl View for Step {
    type V = StepView;

    open spec fn view(&self) -> StepView {
        match *self {
            Step::CreateCollection(c) => StepView::CreateCollection(c@),
            Step::DeleteCollection { name } => StepView::DeleteCollection { name: name@ },
            Step::RenameCollection { from, to } => StepView::RenameCollection {
                from: from@,
                to: to@,
            },
            Step::SetExclude { collection, exclude } => StepView::SetExclude {
                collection: collection@,
                exclude: music_views(exclude@),
            },
            Step::InsertEntry(r) => StepView::InsertEntry(r.row()),
            Step::PatchEntry { name, avg_db, path } => StepView::PatchEntry {
                name: name@,
                avg_db,
                path: path@,
            },
            Step::RefreshAverage { name } => StepView::RefreshAverage { name: name@ },
            Step::InsertMusic(m) => StepView::InsertMusic(m.music()),
            Step::UpdateMusic(m) => StepView::UpdateMusic(m.music()),
            Step::DeleteMusic { path } => StepView::DeleteMusic { path: path@ },
            Step::Relate { kind, from, to } => StepView::Relate {
                kind,
                link: Link { from: from@, to: to@ },
            },
            Step::Unrelate { kind, from, to } => StepView::Unrelate {
                kind,
                link: Link { from: from@, to: to@ },
            },
            Step::Enqueue(_) => StepView::Enqueue,
        }
    }
}

impl Step {
    /// The row that the step writes carries the identity derived from its
    /// key: an entry from its name, a music from its path.
    pub open spec fn keyed(self) -> bool {
        match self {
            Step::InsertEntry(r) => r.keyed(),
            Step::InsertMusic(m) => m.keyed(),
            Step::UpdateMusic(m) => m.keyed(),
            _ => true,
        }
    }

    /// Whether the row that the step writes carries the identity derived
    /// from its key.
    pub fn is_keyed(&self) -> (b: bool)
        ensures
            b == self.keyed(),
    {
        match self {
            Step::InsertEntry(r) => r.is_keyed(),
            Step::InsertMusic(m) => m.is_keyed(),
            Step::UpdateMusic(m) => m.is_keyed(),
            _ => true,
        }
    }
}

/// Whether every row that the steps write carries the identity derived
/// from its key.
pub fn all_keyed(plan: &Vec<Step>) -> (b: bool)
    ensures
        b == rows_keyed(plan@),
{
    let mut i: usize = 0;
    while i < plan.len()
        invariant
            i <= plan.len(),
            forall|j: int| 0 <= j < i ==> (#[trigger] plan@[j]).keyed(),
        decreases plan.len() - i,
    {
        if !plan[i].is_keyed() {
            assert(!plan@[i as int].keyed());
            return false;
        }
        i += 1;
    }
    true
}

/// The views of a sequence of steps.
pub open spec fn step_views(s: Seq<Step>) -> Seq<StepView> {
    Seq::new(s.len(), |i: int| s[i]@)
}

/// The jobs that a sequence of steps hands to the queue, in order.
pub open spec fn jobs(s: Seq<Step>, n: int) -> Seq<crate::pipeline::Entry>
    decreases n,
{
    if n <= 0 {
        Seq::empty()
    } else {
        match s[n - 1] {
            Step::Enqueue(e) => jobs(s, n - 1).push(e),
            _ => jobs(s, n - 1),
        }
    }
}

/// Every row that the steps write carries the identity derived from its
/// key: an entry from its name, a music from its path.
pub open spec fn rows_keyed(s: Seq<Step>) -> bool {
    forall|i: int| 0 <= i < s.len() ==> (#[trigger] s[i]).keyed()
}

} // verus!
