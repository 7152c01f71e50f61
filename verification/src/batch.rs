use crate::record::FunctionCommentStatus;
use crate::text::same_text;
use vstd::prelude::*;

verus! {

/// The results collected for the package that is worked on. They are written out when
/// the work turns to another package and at the end of the run.
#[derive(Debug)]
pub struct Batch {
    /// The package that is worked on; empty before the first.
    pub crate_name: String,
    /// The results collected for it since they were last written out.
    pub results: Vec<FunctionCommentStatus>,
}

impl Batch {
    /// The batch before the first record: no package, no results.
    pub fn new() -> (batch: Batch)
        ensures
            batch.crate_name@ == Seq::<char>::empty(),
            batch.results@ == Seq::<FunctionCommentStatus>::empty(),
    {
        Batch { crate_name: String::new(), results: Vec::new() }
    }

    /// Decides whether `crate_name` is the package that is worked on.
    pub fn belongs(&self, crate_name: &str) -> (yes: bool)
        ensures
            yes == (crate_name@ == self.crate_name@),
    {
        same_text(crate_name, self.crate_name.as_str())
    }

    /// Adds a result for the package that is worked on.
    pub fn push(&mut self, status: FunctionCommentStatus)
        ensures
            final(self).results@ == old(self).results@.push(status),
            final(self).crate_name == old(self).crate_name,
    {
        self.results.push(status);
    }

    /// Hands over what has to be written out before the work turns to `crate_name`:
    /// the results collected so far, where that is another package and there are any.
    /// The batch is empty after that.
    pub fn turn_to(&mut self, crate_name: &str) -> (due: Option<Vec<FunctionCommentStatus>>)
        ensures
            due is Some <==> crate_name@ != old(self).crate_name@ && old(self).results.len() > 0,
            due matches Some(results) ==> results@ == old(self).results@ && final(self).results@
                == Seq::<FunctionCommentStatus>::empty(),
            due is None ==> final(self).results@ == old(self).results@,
            final(self).crate_name == old(self).crate_name,
    {
        if self.results.len() > 0 && !self.belongs(crate_name) {
            let mut results: Vec<FunctionCommentStatus> = Vec::new();
            std::mem::swap(&mut self.results, &mut results);
            Some(results)
        } else {
            None
        }
    }

    /// Makes `crate_name` the package that is worked on.
    pub fn enter(&mut self, crate_name: String)
        ensures
            final(self).crate_name == crate_name,
            final(self).results@ == old(self).results@,
    {
        self.crate_name = crate_name;
    }

    /// Ends the run: hands over the last package and its results, which are written
    /// out even where there are none.
    pub fn finish(self) -> (last: (String, Vec<FunctionCommentStatus>))
        ensures
            last.0 == self.crate_name,
            last.1@ == self.results@,
    {
        (self.crate_name, self.results)
    }
}

} // verus!
