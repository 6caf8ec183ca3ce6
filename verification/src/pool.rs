//! The width of the worker pool.
//!
//! The pool itself, its threads and its lock are the caller's. The library
//! keeps the record of the width that is installed and decides what happens
//! to the pool: on first use a pool of the default width is to be installed,
//! and a request for a width asks for a new pool of that width in place of
//! the installed one. Building a pool can fail. The caller reports whether it
//! did, and only a pool that was built is recorded: after a failure the
//! record is as before, and so is the pool.

use vstd::prelude::*;

verus! {

/// The default width for a machine with the given hardware parallelism:
/// half of it, and at least one.
pub open spec fn default_width_for(parallelism: nat) -> nat {
    if parallelism / 2 >= 1 {
        parallelism / 2
    } else {
        1
    }
}

/// The default width for a machine with the given hardware parallelism.
pub fn default_width(parallelism: usize) -> (width: usize)
    ensures
        width == default_width_for(parallelism as nat),
        width >= 1,
{
    let half = parallelism / 2;
    if half >= 1 {
        half
    } else {
        1
    }
}

/// The number of processors that `num_cpus::get` reports for this machine.
/// The number depends on the machine and on the limits set for the process:
/// nothing is claimed of it.
#[verifier::external_body]
fn detected_parallelism() -> (count: usize) {
    num_cpus::get()
}

/// What is to be done with the pool.
#[derive(Clone, Copy, Debug, PartialEq, Eq, Structural)]
pub enum PoolAction {
    /// The installed pool stays.
    Keep,
    /// A new pool of this width takes the place of the installed one. Work
    /// that runs on the old pool is left to finish there.
    Install { width: usize },
}

/// The record of the pool: the width that is installed, if any is.
#[derive(Clone, Copy, Debug, PartialEq, Eq, Structural)]
pub struct PoolRecord {
    pub installed: Option<usize>,
}

impl PoolRecord {
    /// The record before the first use: nothing is installed.
    pub fn new() -> (record: PoolRecord)
        ensures
            record.installed is None,
    {
        PoolRecord { installed: None }
    }

    /// A batch is about to use the pool, on a machine of the given hardware
    /// parallelism. On first use the pool of the default width is to be
    /// installed; after that the installed pool stays.
    pub fn on_use_with(&self, parallelism: usize) -> (action: PoolAction)
        ensures
            action == match self.installed {
                Some(_) => PoolAction::Keep,
                None => PoolAction::Install {
                    width: default_width_for(parallelism as nat) as usize,
                },
            },
            action matches PoolAction::Install { width } ==> width >= 1,
    {
        match self.installed {
            Some(_) => PoolAction::Keep,
            None => PoolAction::Install { width: default_width(parallelism) },
        }
    }

    /// A batch is about to use the pool, on this machine. The width that a
    /// first use asks for is the default width for the number of processors
    /// that the machine reports: at least one, whatever that number is.
    pub fn on_use(&self) -> (action: PoolAction)
        ensures
            match self.installed {
                Some(_) => action == PoolAction::Keep,
                None => exists|parallelism: usize|
                    action == (PoolAction::Install {
                        width: default_width_for(parallelism as nat) as usize,
                    }),
            },
            action matches PoolAction::Install { width } ==> width >= 1,
    {
        match self.installed {
            Some(_) => PoolAction::Keep,
            None => {
                let parallelism = detected_parallelism();
                self.on_use_with(parallelism)
            },
        }
    }

    /// A width is requested. A pool of exactly this width is to be installed,
    /// whatever is installed now.
    pub fn on_set_width(&self, width: usize) -> (action: PoolAction)
        ensures
            action == (PoolAction::Install { width }),
    {
        PoolAction::Install { width }
    }

    /// The caller has tried to build the pool of the requested width, and
    /// reports whether the pool was built. A pool that was built is installed
    /// and recorded. If building failed, nothing is swapped in: the record
    /// stays as it was.
    pub fn on_build_result(self, requested: usize, built: bool) -> (after: PoolRecord)
        ensures
            after == if built {
                PoolRecord { installed: Some(requested) }
            } else {
                self
            },
    {
        if built {
            PoolRecord { installed: Some(requested) }
        } else {
            self
        }
    }
}

} // verus!
