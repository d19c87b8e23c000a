//! The work on one region, stage by stage.
//!
//! First the local copy of the extract is made current, then the cache is
//! looked at, and only where the entry is to be rebuilt is the extract read
//! and the region stored. A failure at one stage ends the work on this region
//! and on no other: each region has a machine of its own.

use crate::cache::{plan, plan_of, CacheError, CachePlan, RegionCache};
use crate::fetch::FetchError;
use crate::layout::{
    cache_path_of, checksum_url_of, group_index, local_path_of, source_url_of, Config,
};
use vstd::prelude::*;

verus! {

/// Why an extract could not be read.
#[derive(Debug, Clone, Copy, PartialEq, Eq, Structural)]
pub enum ExtractError {
    /// The primitive stream could not be decoded.
    SourceFormat,
    /// The extract's file could not be opened or read.
    Io,
}

/// Why the work on a region has failed.
#[derive(Debug, Clone, Copy, PartialEq, Eq, Structural)]
pub enum PipelineError {
    Fetch(FetchError),
    Extract(ExtractError),
    Cache(CacheError),
}

/// Where the work on a region stands.
#[derive(Debug, Clone, Copy, PartialEq, Eq, Structural)]
pub enum Stage {
    /// The local copy of the extract is being made current.
    Fetching,
    /// The cache is being asked whether the entry exists.
    ProbingCache,
    /// The region is being cut out of the extract.
    Extracting,
    /// The region is being written to its cache entry.
    Storing,
    /// The cache entry is there.
    Done,
    /// The work has been given up.
    Failed(PipelineError),
}

/// What the caller reports of the stage that it has carried out.
#[derive(Debug, Clone, Copy)]
pub enum StageEvent {
    /// The local copy is current, or could not be made so.
    Fetched(Result<(), FetchError>),
    /// Whether the cache entry exists.
    CacheProbed(bool),
    /// The region was cut out, or the extract could not be read.
    Extracted(Result<(), ExtractError>),
    /// The region was written, or could not be.
    Stored(Result<(), CacheError>),
}

/// What the caller is to do next.
#[derive(Debug, Clone, Copy, PartialEq, Eq, Structural)]
pub enum StageAction {
    /// See whether the cache entry exists.
    ProbeCache,
    /// Cut the region out of the local extract.
    Extract,
    /// Put the region into bytes and write them to the cache entry.
    Store,
    /// Nothing more: the cache entry is there.
    Finish,
    /// Nothing more: the work has failed.
    Fail(PipelineError),
    /// The event was not expected at this stage, and nothing has changed.
    Refuse,
}

/// The stage after `event`, and what the caller is to do.
pub open spec fn stage_after(stage: Stage, force: bool, event: StageEvent) -> (Stage, StageAction) {
    match (stage, event) {
        (Stage::Fetching, StageEvent::Fetched(Ok(_))) => (
            Stage::ProbingCache,
            StageAction::ProbeCache,
        ),
        (Stage::Fetching, StageEvent::Fetched(Err(e))) => (
            Stage::Failed(PipelineError::Fetch(e)),
            StageAction::Fail(PipelineError::Fetch(e)),
        ),
        (Stage::ProbingCache, StageEvent::CacheProbed(entry_exists)) => match plan_of(
            entry_exists,
            force,
        ) {
            CachePlan::Reuse => (Stage::Done, StageAction::Finish),
            CachePlan::Rebuild => (Stage::Extracting, StageAction::Extract),
        },
        (Stage::Extracting, StageEvent::Extracted(Ok(_))) => (Stage::Storing, StageAction::Store),
        (Stage::Extracting, StageEvent::Extracted(Err(e))) => (
            Stage::Failed(PipelineError::Extract(e)),
            StageAction::Fail(PipelineError::Extract(e)),
        ),
        (Stage::Storing, StageEvent::Stored(Ok(_))) => (Stage::Done, StageAction::Finish),
        (Stage::Storing, StageEvent::Stored(Err(e))) => (
            Stage::Failed(PipelineError::Cache(e)),
            StageAction::Fail(PipelineError::Cache(e)),
        ),
        _ => (stage, StageAction::Refuse),
    }
}

/// The work on one region.
#[derive(Debug)]
pub struct RegionJob {
    stage: Stage,
    force: bool,
    region: String,
    source_url: String,
    checksum_url: String,
    local_path: String,
}

/// What a [`RegionJob`] holds.
pub struct RegionJobView {
    pub stage: Stage,
    pub force: bool,
    pub region: Seq<char>,
    pub source_url: Seq<char>,
    pub checksum_url: Seq<char>,
    pub local_path: Seq<char>,
}

impl View for RegionJob {
    type V = RegionJobView;

    closed spec fn view(&self) -> RegionJobView {
        RegionJobView {
            stage: self.stage,
            force: self.force,
            region: self.region@,
            source_url: self.source_url@,
            checksum_url: self.checksum_url@,
            local_path: self.local_path@,
        }
    }
}

impl RegionJob {
    /// The work on `region` of `area`, which starts with making the local copy
    /// current.
    pub fn new(config: &Config, area: &str, region: &str, force: bool) -> (job: RegionJob)
        ensures
            is_fresh_job(job@, *config, area@, region@, force),
    {
        RegionJob {
            stage: Stage::Fetching,
            force,
            region: String::from_str(region),
            source_url: config.source_url(area, region),
            checksum_url: config.checksum_url(area, region),
            local_path: config.local_path(region),
        }
    }

    /// Where the work stands.
    pub fn stage(&self) -> (s: Stage)
        ensures
            s == self@.stage,
    {
        self.stage
    }

    /// The name of the region.
    pub fn region(&self) -> (s: &str)
        ensures
            s@ == self@.region,
    {
        self.region.as_str()
    }

    /// The address of the extract.
    pub fn source_url(&self) -> (s: &str)
        ensures
            s@ == self@.source_url,
    {
        self.source_url.as_str()
    }

    /// The address of the checksum manifest.
    pub fn checksum_url(&self) -> (s: &str)
        ensures
            s@ == self@.checksum_url,
    {
        self.checksum_url.as_str()
    }

    /// The local file of the extract.
    pub fn local_path(&self) -> (s: &str)
        ensures
            s@ == self@.local_path,
    {
        self.local_path.as_str()
    }

    /// Takes what the caller reports of a stage and says what to do next.
    pub fn step(&mut self, event: StageEvent) -> (action: StageAction)
        ensures
            (final(self)@.stage, action) == stage_after(old(self)@.stage, old(self)@.force, event),
            final(self)@ == (RegionJobView { stage: final(self)@.stage, ..old(self)@ }),
    {
        let (next, action) = match (self.stage, event) {
            (Stage::Fetching, StageEvent::Fetched(Ok(_))) => (
                Stage::ProbingCache,
                StageAction::ProbeCache,
            ),
            (Stage::Fetching, StageEvent::Fetched(Err(e))) => (
                Stage::Failed(PipelineError::Fetch(e)),
                StageAction::Fail(PipelineError::Fetch(e)),
            ),
            (Stage::ProbingCache, StageEvent::CacheProbed(entry_exists)) => match plan(
                entry_exists,
                self.force,
            ) {
                CachePlan::Reuse => (Stage::Done, StageAction::Finish),
                CachePlan::Rebuild => (Stage::Extracting, StageAction::Extract),
            },
            (Stage::Extracting, StageEvent::Extracted(Ok(_))) => (
                Stage::Storing,
                StageAction::Store,
            ),
            (Stage::Extracting, StageEvent::Extracted(Err(e))) => (
                Stage::Failed(PipelineError::Extract(e)),
                StageAction::Fail(PipelineError::Extract(e)),
            ),
            (Stage::Storing, StageEvent::Stored(Ok(_))) => (Stage::Done, StageAction::Finish),
            (Stage::Storing, StageEvent::Stored(Err(e))) => (
                Stage::Failed(PipelineError::Cache(e)),
                StageAction::Fail(PipelineError::Cache(e)),
            ),
            _ => (self.stage, StageAction::Refuse),
        };
        self.stage = next;
        action
    }

    /// What has come of the work: nothing yet, the cache entry, or the
    /// failure.
    pub fn outcome(&self) -> (r: Option<Result<RegionCache, PipelineError>>)
        ensures
            match self@.stage {
                Stage::Done => (r matches Some(Ok(handle)) && handle.spec_path() == cache_path_of(
                    self@.region,
                )),
                Stage::Failed(e) => r == Some(Err::<RegionCache, PipelineError>(e)),
                _ => r is None,
            },
    {
        match self.stage {
            Stage::Done => Some(Ok(RegionCache::for_region(self.region.as_str()))),
            Stage::Failed(e) => Some(Err(e)),
            _ => None,
        }
    }
}

/// Whether `job` is the work on `region` of `area` before its first stage.
pub open spec fn is_fresh_job(
    job: RegionJobView,
    config: Config,
    area: Seq<char>,
    region: Seq<char>,
    force: bool,
) -> bool {
    &&& job.stage == Stage::Fetching
    &&& job.force == force
    &&& job.region == region
    &&& job.source_url == source_url_of(config.server_url@, area, region, config.suffix@)
    &&& job.checksum_url == checksum_url_of(job.source_url)
    &&& job.local_path == local_path_of(region, config.suffix@)
}

/// The work to do for the group `area`: one machine for each of its regions,
/// in the order of the configuration; nothing where the configuration has no
/// such group.
pub fn jobs_for(config: &Config, area: &String, force: bool) -> (r: Option<Vec<RegionJob>>)
    ensures
        r is Some <==> group_index(config.regions@, area@) < config.regions.len(),
        r matches Some(jobs) ==> {
            let regions = config.regions@[group_index(config.regions@, area@)].regions;
            &&& jobs.len() == regions.len()
            &&& forall|i: int|
                0 <= i < jobs.len() ==> is_fresh_job(
                    (#[trigger] jobs@[i])@,
                    *config,
                    area@,
                    regions@[i]@,
                    force,
                )
        },
{
    let regions = match config.group(area) {
        Some(regions) => regions,
        None => {
            return None;
        },
    };
    let mut jobs: Vec<RegionJob> = Vec::new();
    let mut i: usize = 0;
    while i < regions.len()
        invariant
            i <= regions.len(),
            jobs.len() == i,
            forall|k: int|
                0 <= k < i ==> is_fresh_job(
                    (#[trigger] jobs@[k])@,
                    *config,
                    area@,
                    regions@[k]@,
                    force,
                ),
        decreases regions.len() - i,
    {
        jobs.push(RegionJob::new(config, area.as_str(), regions[i].as_str(), force));
        i = i + 1;
    }
    Some(jobs)
}

/// A failure ends the work: whatever is reported afterwards is refused, and
/// so is whatever is reported after the work is done.
pub proof fn lemma_ended_work_is_final(stage: Stage, force: bool, event: StageEvent)
    requires
        stage is Failed || stage is Done,
    ensures
        stage_after(stage, force, event) == (stage, StageAction::Refuse),
{
}

/// The extract is read in one case only: the cache was asked, and the entry
/// does not exist or a rebuild is forced. An entry that exists is reused
/// without a look at the extract, whatever has become of the source.
pub proof fn lemma_extract_only_to_rebuild(stage: Stage, force: bool, event: StageEvent)
    ensures
        stage_after(stage, force, event).1 == StageAction::Extract <==> stage
            == Stage::ProbingCache && event is CacheProbed && (force || !event->CacheProbed_0),
        stage == Stage::ProbingCache && event == StageEvent::CacheProbed(true) && !force
            ==> stage_after(stage, force, event) == (Stage::Done, StageAction::Finish),
{
}

/// Nothing is written before the region was cut out, and nothing is cut out
/// before the local copy was made current.
pub proof fn lemma_stages_in_order(stage: Stage, force: bool, event: StageEvent)
    ensures
        stage_after(stage, force, event).1 == StageAction::Store ==> stage == Stage::Extracting
            && event matches StageEvent::Extracted(Ok(_)),
        stage_after(stage, force, event).1 == StageAction::ProbeCache ==> stage == Stage::Fetching
            && event matches StageEvent::Fetched(Ok(_)),
{
}

} // verus!
