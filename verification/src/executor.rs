//! Configuration of the optional cold-page worker pool.

use vstd::prelude::*;
use crate::error::{CfrError, Result};
use std::ops::Range;

verus! {

/// Configuration for optional cold-page worker threads.
#[derive(Debug, Clone, Copy, PartialEq, Eq)]
pub struct ThreadPoolConfig {
    /// Maximum number of worker threads used by one batch.
    pub threads: usize,
}

impl ThreadPoolConfig {
    /// Creates a thread configuration; the thread count must be non-zero.
    pub fn new(threads: usize) -> (res: Result<Self>)
        ensures
            threads == 0 ==> res == Err::<Self, CfrError>(
                CfrError::InvalidConfig("thread count must be non-zero"),
            ),
            threads != 0 ==> res == Ok::<Self, CfrError>(ThreadPoolConfig { threads }),
    {
        if threads == 0 {
            return Err(CfrError::InvalidConfig("thread count must be non-zero"));
        }
        Ok(Self { threads })
    }
}

/// Small dependency-free batch executor description: jobs run in batches of
/// at most `config.threads` and their outputs keep the job order.
#[derive(Debug, Clone, Copy, PartialEq, Eq)]
pub struct ThreadPoolExecutor {
    config: ThreadPoolConfig,
}

impl ThreadPoolExecutor {
    /// Configuration held by an executor.
    pub closed spec fn spec_config(self) -> ThreadPoolConfig {
        self.config
    }

    /// Creates a new executor.
    pub fn new(config: ThreadPoolConfig) -> (e: Self)
        ensures
            e.spec_config() == config,
    {
        Self { config }
    }

    /// The batches that jobs `0..job_count` run in, in order: consecutive
    /// ranges of `threads` jobs that cover all jobs, the last one possibly
    /// shorter. With no threads configured no batch runs.
    pub fn batches(&self, job_count: usize) -> (b: Vec<Range<usize>>)
        ensures
            self.spec_config().threads == 0 || job_count == 0 <==> b@.len() == 0,
            b@.len() > 0 ==> b@[0].start == 0 && b@.last().end == job_count,
            forall|i: int| 0 <= i < b@.len() - 1 ==> #[trigger] b@[i].end == b@[i + 1].start,
            forall|i: int|
                0 <= i < b@.len() - 1 ==> #[trigger] b@[i].end - b@[i].start
                    == self.spec_config().threads,
            b@.len() > 0 ==> 0 < b@.last().end - b@.last().start <= self.spec_config().threads,
    {
        let threads = self.config.threads;
        let mut batches: Vec<Range<usize>> = Vec::new();
        if threads == 0 {
            return batches;
        }
        let mut start: usize = 0;
        while start < job_count
            invariant
                threads == self.spec_config().threads,
                threads > 0,
                start <= job_count,
                batches@.len() == 0 <==> start == 0,
                batches@.len() > 0 ==> batches@[0].start == 0 && batches@.last().end == start,
                batches@.len() > 0 ==> batches@.last().end - batches@.last().start == threads || (
                    batches@.last().end == job_count && 0 < batches@.last().end
                        - batches@.last().start <= threads),
                forall|i: int|
                    0 <= i < batches@.len() - 1 ==> #[trigger] batches@[i].end == batches@[i
                        + 1].start,
                forall|i: int|
                    0 <= i < batches@.len() - 1 ==> #[trigger] batches@[i].end - batches@[i].start
                        == threads,
            decreases job_count - start,
        {
            let end = if job_count - start > threads {
                start + threads
            } else {
                job_count
            };
            let ghost before = batches@;
            batches.push(start..end);
            proof {
                assert forall|i: int| 0 <= i < batches@.len() - 1 implies #[trigger] batches@[i].end
                    == batches@[i + 1].start by {
                    if i + 1 < before.len() {
                        assert(batches@[i] == before[i] && batches@[i + 1] == before[i + 1]);
                    } else {
                        assert(batches@[i] == before.last());
                    }
                }
                assert forall|i: int| 0 <= i < batches@.len() - 1 implies #[trigger] batches@[i].end
                    - batches@[i].start == threads by {
                    assert(batches@[i] == before[i]);
                    if i + 1 == before.len() {
                        assert(before.last().end == start);
                        assert(start < job_count);
                    }
                }
            }
            start = end;
        }
        batches
    }

    /// Returns the executor configuration.
    pub fn config(&self) -> (c: ThreadPoolConfig)
        ensures
            c == self.spec_config(),
    {
        self.config
    }
}

} // verus!
