//! Which image is measured, so that the status bar can say how big it is.
//!
//! One request supersedes the previous. Arrowing through a folder fires a request per cell, and
//! only the file the user settles on is worth a header read.

use vstd::prelude::*;

verus! {

/// The requests that are waiting for the worker.
pub struct SelectionMeasurer {
    waiting: Vec<String>,
}

impl View for SelectionMeasurer {
    type V = Seq<String>;

    closed spec fn view(&self) -> Seq<String> {
        self.waiting@
    }
}

impl SelectionMeasurer {
    /// A queue with nothing in it.
    pub fn new() -> (measurer: Self)
        ensures
            measurer@.len() == 0,
    {
        SelectionMeasurer { waiting: Vec::new() }
    }

    /// Asks for an image's pixel size.
    pub fn measure(&mut self, path: String)
        ensures
            final(self)@ == old(self)@.push(path),
    {
        self.waiting.push(path);
    }

    /// What the worker measures next: the newest request. All the others are dropped.
    pub fn take_newest(&mut self) -> (path: Option<String>)
        ensures
            final(self)@.len() == 0,
            path == if old(self)@.len() > 0 {
                Some(old(self)@.last())
            } else {
                None
            },
    {
        let path: Option<String> = self.waiting.pop();
        self.waiting.clear();
        path
    }
}

// ----- laws -----

/// Of two requests the worker measures the later, and the earlier is gone.
pub proof fn the_last_request_wins(
    first: &mut SelectionMeasurer,
    earlier: String,
    second: &mut SelectionMeasurer,
    later: String,
    third: &mut SelectionMeasurer,
    taken: Option<String>,
    fourth: &mut SelectionMeasurer,
    left: Option<String>,
)
    requires
        call_ensures(SelectionMeasurer::measure, (first, earlier), ()),
        *second == *final(first),
        call_ensures(SelectionMeasurer::measure, (second, later), ()),
        *third == *final(second),
        call_ensures(SelectionMeasurer::take_newest, (third,), taken),
        *fourth == *final(third),
        call_ensures(SelectionMeasurer::take_newest, (fourth,), left),
    ensures
        taken == Some(later),
        left is None,
{
}

/// A new queue has nothing to measure.
pub proof fn a_new_queue_is_empty(
    made: SelectionMeasurer,
    first: &mut SelectionMeasurer,
    taken: Option<String>,
)
    requires
        call_ensures(SelectionMeasurer::new, (), made),
        *first == made,
        call_ensures(SelectionMeasurer::take_newest, (first,), taken),
    ensures
        taken is None,
{
}

} // verus!
