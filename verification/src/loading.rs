//! The filling of the cache from disk: what is done with each file that
//! the walk of the root directory comes upon, and when the walk ends.

use vstd::prelude::*;
use crate::cache_model::FileCacheView;
use crate::paths::is_skipped_name;

verus! {

/// What is done with a file that the walk of the root directory came upon.
#[derive(Debug, Clone, Copy, PartialEq, Eq)]
pub enum LoadStep {
    /// The file is passed over and not counted: its name marks it as hidden
    /// or temporary.
    Skip,
    /// The file is counted but not read: it is too large or would exceed the
    /// budget.
    Refuse,
    /// The file is to be read and stored.
    Read,
}

/// The decision for a file named `name` that holds `size` bytes.
pub open spec fn load_plan(cache: FileCacheView, name: Seq<char>, size: u64) -> LoadStep {
    if is_skipped_name(name) {
        LoadStep::Skip
    } else if cache.admits(size as nat) {
        LoadStep::Read
    } else {
        LoadStep::Refuse
    }
}

/// The count kept while the cache is filled from disk.
#[derive(Debug, Clone, Copy, PartialEq, Eq)]
pub struct LoadProgress {
    /// Files that were counted, stored or refused.
    pub loaded_count: u64,
    /// Bytes that were stored.
    pub total_size: u64,
    /// The budget of the cache that is filled.
    pub max_size: u64,
}

impl LoadProgress {
    /// The count before the first file.
    pub open spec fn start(max_size: u64) -> LoadProgress {
        LoadProgress { loaded_count: 0, total_size: 0, max_size }
    }

    /// The count after one more file, of which `loaded` bytes were stored.
    /// Both numbers stop at the largest value they can hold.
    pub open spec fn recorded(self, loaded: u64) -> LoadProgress {
        LoadProgress {
            loaded_count: if self.loaded_count == u64::MAX {
                u64::MAX
            } else {
                (self.loaded_count + 1) as u64
            },
            total_size: if self.total_size + loaded > u64::MAX {
                u64::MAX
            } else {
                (self.total_size + loaded) as u64
            },
            ..self
        }
    }

    /// Filling goes on while the bytes stored do not exceed the budget.
    pub open spec fn within_budget(self) -> bool {
        self.total_size <= self.max_size
    }

    /// Counts one more file, of which `loaded` bytes were stored, and says
    /// whether filling goes on.
    pub fn record(&mut self, loaded: u64) -> (go_on: bool)
        ensures
            *final(self) == old(self).recorded(loaded),
            go_on == final(self).within_budget(),
    {
        self.loaded_count = self.loaded_count.saturating_add(1);
        self.total_size = self.total_size.saturating_add(loaded);
        self.total_size <= self.max_size
    }
}

} // verus!
