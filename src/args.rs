//! The options of the command that shows a job's log.
use vstd::prelude::*;
use vstd::string::StringExecFns;

verus! {

/// Which job (or every job of which pipeline) to show, and how.
#[derive(Clone, Debug)]
pub struct ShowJobArgs {
    pub job: Option<usize>,
    pub pipeline: Option<usize>,
    pub status: bool,
    pub _follow: Option<bool>,
    pub tail: Option<usize>,
    pub prefix: bool,
    pub plain: bool,
}

impl ShowJobArgs {
    /// Checks the options: a job or a pipeline must be named.  With a
    /// pipeline the status summary is off.
    pub fn validate(&mut self) -> (r: Result<(), String>)
        ensures
            old(self).job is None && old(self).pipeline is None ==> r is Err && r->Err_0@
                == "Must specify either job or pipeline."@ && *final(self) == *old(self),
            old(self).job is Some || old(self).pipeline is Some ==> r is Ok,
            old(self).pipeline is Some ==> *final(self) == (ShowJobArgs { status: false, ..*old(self) }),
            old(self).pipeline is None ==> *final(self) == *old(self),
    {
        if self.job.is_none() && self.pipeline.is_none() {
            proof {
                reveal_strlit("Must specify either job or pipeline.");
            }
            return Err(String::from_str("Must specify either job or pipeline."));
        }
        if self.pipeline.is_some() {
            self.status = false;
        }
        Ok(())
    }
}

} // verus!
