use crate::database::{upload, upload_plan, ResetPolicy, Statement};
use crate::fetch::{download_url, download_url_spec, read_response, spec_response};
use crate::models::{PipelineError, VersionDownload};
use vstd::prelude::*;

verus! {

/// When a run loads what it has read.
#[derive(Clone, Copy, Debug, PartialEq, Eq, Structural)]
pub enum LoadSchedule {
    /// Load each package's records as soon as its response is read, before
    /// the next fetch; nothing is carried from one package to the next.
    PerPackage,
    /// Load the records of all packages once, after every response is read,
    /// so a failed fetch leaves storage untouched.
    Batched,
}

/// A run over a list of packages: each package's downloads are fetched,
/// decoded and loaded in the order the schedule gives, stopping at the first
/// error.
pub struct Run {
    /// The URL to fetch for each package, in the packages' order.
    pub urls: Vec<String>,
    /// How many responses have been read.
    pub next: usize,
    /// The records read and not yet loaded, in order.
    pub collected: Vec<VersionDownload>,
    /// When the run loads.
    pub schedule: LoadSchedule,
    /// Whether a load is owed before anything else.
    pub load_due: bool,
}

/// What the run asks for next.
pub enum Action {
    /// Fetch this URL and hand the response to `on_response`.
    Fetch(String),
    /// Load the collected records (see `load_plan`), then call `on_loaded`.
    Load,
    /// Every package has been fetched and loaded.
    Finished,
}

impl Run {
    /// Whether the run's state is consistent.
    pub open spec fn wf(&self) -> bool {
        &&& self.next <= self.urls.len()
        &&& self.load_due ==> self.next > 0
        &&& self.schedule == LoadSchedule::Batched && self.load_due ==> self.next == self.urls.len()
        &&& self.schedule == LoadSchedule::PerPackage && !self.load_due ==> self.collected@.len() == 0
    }

    /// Starts a run over `packages`, with one cache-busting timestamp for all
    /// of its requests: fails with `Argument`, before any request, exactly
    /// where no package is named.
    pub fn start(packages: &Vec<String>, timestamp: i64, schedule: LoadSchedule) -> (r: Result<Run, PipelineError>)
        ensures
            packages.len() == 0 ==> r == Err::<Run, PipelineError>(PipelineError::Argument),
            packages.len() > 0 ==> r is Ok,
            r is Ok ==> {
                let run = r->Ok_0;
                &&& run.wf()
                &&& run.next == 0
                &&& !run.load_due
                &&& run.schedule == schedule
                &&& run.collected@.len() == 0
                &&& run.urls@.len() == packages@.len()
                &&& forall|i: int| 0 <= i < packages@.len() ==> (#[trigger] run.urls@[i])@ == download_url_spec(packages@[i]@, timestamp as int)
            },
    {
        if packages.len() == 0 {
            return Err(PipelineError::Argument);
        }
        let mut urls: Vec<String> = Vec::new();
        let mut i: usize = 0;
        while i < packages.len()
            invariant
                0 <= i <= packages.len(),
                urls@.len() == i,
                forall|k: int| 0 <= k < i ==> (#[trigger] urls@[k])@ == download_url_spec(packages@[k]@, timestamp as int),
            decreases packages.len() - i,
        {
            let u = download_url(packages[i].as_str(), timestamp);
            urls.push(u);
            i = i + 1;
        }
        Ok(Run { urls, next: 0, collected: Vec::new(), schedule, load_due: false })
    }

    /// The next step: a load where one is due, else a fetch of the next
    /// package's URL, else the end of the run.
    pub fn next_action(&self) -> (r: Action)
        requires
            self.wf(),
        ensures
            self.load_due ==> r is Load,
            !self.load_due && self.next < self.urls.len() ==> (r matches Action::Fetch(u) && u@ == self.urls@[self.next as int]@),
            !self.load_due && self.next == self.urls.len() ==> r is Finished,
    {
        if self.load_due {
            Action::Load
        } else if self.next < self.urls.len() {
            Action::Fetch(self.urls[self.next].clone())
        } else {
            Action::Finished
        }
    }

    /// Reads the response to the pending fetch. Where status, encoding or
    /// payload is wrong, the run stops with that error and is left as it was;
    /// else the response's records are added and the run moves on. A load is
    /// then due after every package under `PerPackage`, after the last one
    /// under `Batched`.
    pub fn on_response(&mut self, status: u32, body: Vec<u8>) -> (r: Result<(), PipelineError>)
        requires
            old(self).wf(),
            !old(self).load_due,
            old(self).next < old(self).urls.len(),
        ensures
            final(self).wf(),
            final(self).urls@ == old(self).urls@,
            final(self).schedule == old(self).schedule,
            match spec_response(status, body@) {
                Ok(m) => {
                    &&& r is Ok
                    &&& final(self).next == old(self).next + 1
                    &&& final(self).collected@ == old(self).collected@ + m.versions
                    &&& final(self).load_due == (old(self).schedule == LoadSchedule::PerPackage
                        || final(self).next == final(self).urls.len())
                },
                Err(e) => {
                    &&& r == Err::<(), PipelineError>(e)
                    &&& final(self).next == old(self).next
                    &&& final(self).collected@ == old(self).collected@
                    &&& final(self).load_due == old(self).load_due
                },
            },
    {
        let info = read_response(status, body)?;
        let mut versions = info.version_downloads;
        self.collected.append(&mut versions);
        self.next = self.next + 1;
        self.load_due = match self.schedule {
            LoadSchedule::PerPackage => true,
            LoadSchedule::Batched => self.next == self.urls.len(),
        };
        Ok(())
    }

    /// Plans the load that is due: one reset, then one insert per collected
    /// record.
    pub fn load_plan(&self, policy: ResetPolicy) -> (r: Vec<Statement>)
        requires
            self.wf(),
            self.load_due,
        ensures
            r@ == upload_plan(self.collected@, policy),
    {
        upload(self.collected.clone(), policy)
    }

    /// Records that the due load has been carried out: the loaded records are
    /// let go, and the run moves on.
    pub fn on_loaded(&mut self)
        requires
            old(self).wf(),
            old(self).load_due,
        ensures
            final(self).wf(),
            !final(self).load_due,
            final(self).collected@.len() == 0,
            final(self).next == old(self).next,
            final(self).urls@ == old(self).urls@,
            final(self).schedule == old(self).schedule,
    {
        self.collected = Vec::new();
        self.load_due = false;
    }
}

} // verus!
