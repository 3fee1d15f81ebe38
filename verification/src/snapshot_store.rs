//! The store of the snapshots of the meta service's state machine: where
//! the snapshot files lie, how they are named, and the errors of reading
//! and writing them.

use vstd::prelude::*;
use vstd::string::*;

verus! {

/// The version of the data that the meta service keeps on disk.
#[derive(Debug, Clone, Copy, PartialEq, Eq, Structural)]
pub enum DataVersion {
    V0,
    V001,
    V002,
    V003,
}

impl DataVersion {
    /// The version as it stands in paths.
    pub open spec fn name(self) -> Seq<char> {
        match self {
            DataVersion::V0 => "V0"@,
            DataVersion::V001 => "V001"@,
            DataVersion::V002 => "V002"@,
            DataVersion::V003 => "V003"@,
        }
    }

    /// The version as it stands in paths.
    pub fn as_str(&self) -> (r: &'static str)
        ensures
            r@ == self.name(),
    {
        match self {
            DataVersion::V0 => "V0",
            DataVersion::V001 => "V001",
            DataVersion::V002 => "V002",
            DataVersion::V003 => "V003",
        }
    }
}

/// The settings of the raft store.
#[derive(Debug, Clone, PartialEq, Eq)]
pub struct RaftConfig {
    /// The directory in which the store keeps its data.
    pub raft_dir: String,
    /// The number of the node.
    pub id: u64,
}

/// The settings of a snapshot store: the version of the data, and the
/// settings of the raft store.
#[derive(Debug, Clone, PartialEq, Eq)]
pub struct SnapshotConfig {
    data_version: DataVersion,
    config: RaftConfig,
}

impl SnapshotConfig {
    /// The settings of a store of snapshots of version `data_version`.
    pub fn new(data_version: DataVersion, config: RaftConfig) -> (r: Self)
        ensures
            r.version() == data_version,
            r.raft() == config,
    {
        SnapshotConfig { data_version, config }
    }

    /// The version of the data.
    pub closed spec fn version(&self) -> DataVersion {
        self.data_version
    }

    /// The settings of the raft store.
    pub closed spec fn raft(&self) -> RaftConfig {
        self.config
    }

    /// The version of the data.
    pub fn data_version(&self) -> (r: DataVersion)
        ensures
            r == self.version(),
    {
        self.data_version
    }

    /// The settings of the raft store.
    pub fn raft_config(&self) -> (r: &RaftConfig)
        ensures
            *r == self.raft(),
    {
        &self.config
    }

    /// The directory of the snapshots.
    pub open spec fn snapshot_dir_view(&self) -> Seq<char> {
        self.raft().raft_dir@ + "/df_meta/"@ + self.version().name() + "/snapshot"@
    }

    /// The directory of the snapshots: under the directory of the raft
    /// store, by the version of the data.
    pub fn snapshot_dir(&self) -> (r: String)
        ensures
            r@ == self.snapshot_dir_view(),
    {
        let mut r = self.config.raft_dir.clone();
        r.append("/df_meta/");
        r.append(self.data_version.as_str());
        r.append("/snapshot");
        r
    }

    /// The name of the file of the snapshot `snapshot_id`.
    pub fn snapshot_fn(snapshot_id: &str) -> (r: String)
        ensures
            r@ == snapshot_id@ + ".snap"@,
    {
        let mut r = String::from_str(snapshot_id);
        r.append(".snap");
        r
    }

    /// The path of the file of the snapshot `snapshot_id`.
    pub fn snapshot_path(&self, snapshot_id: &str) -> (r: String)
        ensures
            r@ == self.snapshot_dir_view() + "/"@ + snapshot_id@ + ".snap"@,
    {
        let mut r = self.snapshot_dir();
        r.append("/");
        r.append(Self::snapshot_fn(snapshot_id).as_str());
        r
    }
}

/// What was being done when an error came up.
#[derive(Debug, Clone, Copy, PartialEq, Eq, Structural)]
pub enum ErrorVerb {
    Read,
    Write,
}

/// Errors that occur when accessing snapshot store
#[derive(Debug, Clone, PartialEq, Eq)]
pub struct SnapshotStoreError {
    verb: ErrorVerb,
    /// The error of the file system, in words.
    source: String,
    context: String,
}

impl SnapshotStoreError {
    /// What was being done.
    pub closed spec fn verb_view(&self) -> ErrorVerb {
        self.verb
    }

    /// The error of the file system, in words.
    pub closed spec fn source_view(&self) -> Seq<char> {
        self.source@
    }

    /// What the store was about.
    pub closed spec fn context_view(&self) -> Seq<char> {
        self.context@
    }

    /// An error of reading, without context.
    pub fn read(error: &str) -> (r: Self)
        ensures
            r.verb_view() == ErrorVerb::Read,
            r.source_view() == error@,
            r.context_view().len() == 0,
    {
        proof {
            reveal_strlit("");
        }
        Self { verb: ErrorVerb::Read, source: String::from_str(error), context: String::from_str("") }
    }

    /// An error of writing, without context.
    pub fn write(error: &str) -> (r: Self)
        ensures
            r.verb_view() == ErrorVerb::Write,
            r.source_view() == error@,
            r.context_view().len() == 0,
    {
        proof {
            reveal_strlit("");
        }
        Self {
            verb: ErrorVerb::Write,
            source: String::from_str(error),
            context: String::from_str(""),
        }
    }

    /// The context with `context` added: alone where there was none, else
    /// behind the old one and `; while `.
    pub open spec fn with_added(old_context: Seq<char>, context: Seq<char>) -> Seq<char> {
        if old_context.len() == 0 {
            context
        } else {
            old_context + "; while "@ + context
        }
    }

    /// Adds to what the store was about.
    pub fn add_context(&mut self, context: &str)
        ensures
            final(self).verb_view() == old(self).verb_view(),
            final(self).source_view() == old(self).source_view(),
            final(self).context_view() == Self::with_added(old(self).context_view(), context@),
    {
        if self.context.as_str().unicode_len() == 0 {
            self.context = String::from_str(context);
        } else {
            self.context.append("; while ");
            self.context.append(context);
        }
    }

    /// The error with more of what the store was about.
    pub fn with_context(self, context: &str) -> (r: Self)
        ensures
            r.verb_view() == self.verb_view(),
            r.source_view() == self.source_view(),
            r.context_view() == Self::with_added(self.context_view(), context@),
    {
        let mut r = self;
        r.add_context(context);
        r
    }

    /// Add meta and context info to the error.
    ///
    /// meta is anything that can be put in words.
    pub fn with_meta(self, context: &str, meta: &str) -> (r: Self)
        ensures
            r.verb_view() == self.verb_view(),
            r.source_view() == self.source_view(),
            r.context_view() == Self::with_added(
                self.context_view(),
                context@ + ": "@ + meta@,
            ),
    {
        let mut both = String::from_str(context);
        both.append(": ");
        both.append(meta);
        self.with_context(both.as_str())
    }

    /// What was being done.
    pub fn verb(&self) -> (r: ErrorVerb)
        ensures
            r == self.verb_view(),
    {
        self.verb
    }

    /// What the store was about.
    pub fn context(&self) -> (r: &str)
        ensures
            r@ == self.context_view(),
    {
        self.context.as_str()
    }

    /// The error of the file system, in words.
    pub fn source(&self) -> (r: &str)
        ensures
            r@ == self.source_view(),
    {
        self.source.as_str()
    }
}

/// The store of snapshots of version two.
#[derive(Debug)]
pub struct SnapshotStoreV002 {
    snapshot_config: SnapshotConfig,
}

/// Whether `name` ends in `.snap`.
pub open spec fn is_snapshot_file_name(name: Seq<char>) -> bool {
    name.len() >= 5 && name.subrange(name.len() - 5, name.len() as int) == ".snap"@
}

impl SnapshotStoreV002 {
    /// The settings of the store.
    pub closed spec fn config_view(&self) -> SnapshotConfig {
        self.snapshot_config
    }

    /// A store of snapshots of version two with the settings `config`.
    pub fn new(config: RaftConfig) -> (r: Self)
        ensures
            r.config_view().version() == DataVersion::V002,
            r.config_view().raft() == config,
    {
        SnapshotStoreV002 { snapshot_config: SnapshotConfig::new(DataVersion::V002, config) }
    }

    /// The version of the data.
    pub fn data_version(&self) -> (r: DataVersion)
        ensures
            r == self.config_view().version(),
    {
        self.snapshot_config.data_version()
    }

    /// The settings of the store.
    pub fn snapshot_config(&self) -> (r: &SnapshotConfig)
        ensures
            *r == self.config_view(),
    {
        &self.snapshot_config
    }

    /// The settings of the raft store.
    pub fn config(&self) -> (r: &RaftConfig)
        ensures
            *r == self.config_view().raft(),
    {
        self.snapshot_config.raft_config()
    }

    /// The snapshot id in the name of a snapshot file: the name without
    /// `.snap` at its end. `None` for the name of any other file.
    pub fn extract_snapshot_id_from_fn(filename: &str) -> (r: Option<&str>)
        ensures
            match r {
                Some(id) => is_snapshot_file_name(filename@) && id@ == filename@.subrange(
                    0,
                    filename@.len() - 5,
                ),
                None => !is_snapshot_file_name(filename@),
            },
    {
        proof {
            reveal_strlit(".snap");
        }
        let n = filename.unicode_len();
        if n < 5 {
            return None;
        }
        let tail = filename.substring_char(n - 5, n);
        if crate::text::str_eq(tail, ".snap") {
            Some(filename.substring_char(0, n - 5))
        } else {
            None
        }
    }

    /// Build a [`SnapshotStoreError`] from an error of the file system, in
    /// words, with context.
    pub fn make_err(e: &str, context: &str) -> (r: SnapshotStoreError)
        ensures
            r.verb_view() == ErrorVerb::Read,
            r.source_view() == e@,
            r.context_view() == context@,
    {
        SnapshotStoreError::read(e).with_context(context)
    }

    /// The snapshot to load of those found: the last one, if there is one.
    pub fn choose_last_snapshot<T: Copy>(snapshot_ids: &Vec<T>) -> (r: Option<T>)
        ensures
            r == (if snapshot_ids@.len() == 0 {
                None
            } else {
                Some(snapshot_ids@.last())
            }),
    {
        if snapshot_ids.len() == 0 {
            None
        } else {
            Some(snapshot_ids[snapshot_ids.len() - 1])
        }
    }
}

} // verus!
