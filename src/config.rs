//! Node configuration: defaults, command-line overrides, and the bootstrap decision for the log.

use vstd::prelude::*;

verus! {

pub fn default_r_quorum() -> (r: usize)
    ensures
        r == 1,
{
    1
}

pub fn default_w_quorum() -> (r: usize)
    ensures
        r == 1,
{
    1
}

pub fn default_http_port() -> (r: u16)
    ensures
        r == 3000,
{
    3000
}

pub fn default_grpc_port() -> (r: u16)
    ensures
        r == 50071,
{
    50071
}

pub fn default_aof_flush_interval() -> (r: u64)
    ensures
        r == 100,
{
    100
}

/// Options given on the command line; each one that is present overrides the configuration file.
pub struct CliArgs {
    pub config: Option<String>,
    pub fresh: Option<bool>,
    pub replay_log: Option<String>,
    pub seed_node: Option<String>,
    pub http_port: Option<u16>,
    pub grpc_port: Option<u16>,
    pub read_quorum: Option<usize>,
    pub write_quorum: Option<usize>,
    pub aof_flush_interval: Option<u64>,
}

/// The settings of one node.
pub struct Config {
    pub fresh: bool,
    pub replay_log: Option<String>,
    pub seed_node: Option<String>,
    pub http_port: u16,
    pub grpc_port: u16,
    pub read_quorum: usize,
    pub write_quorum: usize,
    pub aof_storage_path: String,
    pub aof_flush_interval: u64,
}

/// Why a configuration cannot start a node.
#[derive(Clone, Copy, Debug, PartialEq, Eq, Structural)]
pub enum ConfigError {
    /// A fresh start and a replay log were both asked for.
    FreshWithReplayLog,
    /// A read or write quorum of zero: the local node's own vote always counts.
    ZeroQuorum,
}

/// What to do with the log file before the store replays it.
pub enum LogBootstrap {
    /// Empty the log: the node starts with an empty store.
    Truncate,
    /// Copy this log over the node's own, then replay it.
    CopyFrom(String),
    /// Replay the node's own log as it is.
    Keep,
}

fn copy_text(s: &Option<String>) -> (r: Option<String>)
    ensures
        r matches Some(x) ==> (*s matches Some(y) && x@ == y@),
        r is None <==> s is None,
{
    match s {
        Some(x) => Some(x.clone()),
        None => None,
    }
}

fn as_text(s: &Option<String>) -> (r: Option<&str>)
    ensures
        r matches Some(x) ==> (*s matches Some(y) && x@ == y@),
        r is None <==> s is None,
{
    match s {
        Some(x) => Some(x.as_str()),
        None => None,
    }
}

impl Default for Config {
    fn default() -> (r: Config)
        ensures
            !r.fresh,
            r.replay_log is None,
            r.seed_node is None,
            r.http_port == 3000,
            r.grpc_port == 50071,
            r.read_quorum == 1,
            r.write_quorum == 1,
            r.aof_storage_path@ == Seq::<char>::empty(),
            r.aof_flush_interval == 100,
    {
        Config {
            fresh: false,
            replay_log: None,
            seed_node: None,
            http_port: default_http_port(),
            grpc_port: default_grpc_port(),
            read_quorum: default_r_quorum(),
            write_quorum: default_w_quorum(),
            aof_storage_path: String::new(),
            aof_flush_interval: default_aof_flush_interval(),
        }
    }
}

impl Config {
    /// Lays the command-line options that are present over the current settings.
    pub fn apply_cli(&mut self, args: &CliArgs)
        ensures
            final(self).fresh == match args.fresh {
                Some(f) => f,
                None => old(self).fresh,
            },
            final(self).replay_log is Some <==> (args.replay_log is Some || old(self).replay_log is Some),
            args.replay_log matches Some(p) ==> (final(self).replay_log matches Some(q) && q@ == p@),
            args.replay_log is None ==> final(self).replay_log == old(self).replay_log,
            final(self).seed_node is Some <==> (args.seed_node is Some || old(self).seed_node is Some),
            args.seed_node matches Some(p) ==> (final(self).seed_node matches Some(q) && q@ == p@),
            args.seed_node is None ==> final(self).seed_node == old(self).seed_node,
            final(self).http_port == match args.http_port {
                Some(p) => p,
                None => old(self).http_port,
            },
            final(self).grpc_port == match args.grpc_port {
                Some(p) => p,
                None => old(self).grpc_port,
            },
            final(self).read_quorum == match args.read_quorum {
                Some(q) => q,
                None => old(self).read_quorum,
            },
            final(self).write_quorum == match args.write_quorum {
                Some(q) => q,
                None => old(self).write_quorum,
            },
            final(self).aof_flush_interval == match args.aof_flush_interval {
                Some(i) => i,
                None => old(self).aof_flush_interval,
            },
            final(self).aof_storage_path == old(self).aof_storage_path,
    {
        if let Some(f) = args.fresh {
            self.fresh = f;
        }
        if args.replay_log.is_some() {
            self.replay_log = copy_text(&args.replay_log);
        }
        if args.seed_node.is_some() {
            self.seed_node = copy_text(&args.seed_node);
        }
        if let Some(p) = args.http_port {
            self.http_port = p;
        }
        if let Some(i) = args.aof_flush_interval {
            self.aof_flush_interval = i;
        }
        if let Some(p) = args.grpc_port {
            self.grpc_port = p;
        }
        if let Some(q) = args.read_quorum {
            self.read_quorum = q;
        }
        if let Some(q) = args.write_quorum {
            self.write_quorum = q;
        }
    }

    /// Accepts read and write quorums of at least one.
    pub fn check_quorums(&self) -> (r: Result<(), ConfigError>)
        ensures
            r is Ok <==> (self.read_quorum >= 1 && self.write_quorum >= 1),
            r matches Err(e) ==> e == ConfigError::ZeroQuorum,
    {
        if self.read_quorum == 0 || self.write_quorum == 0 {
            Err(ConfigError::ZeroQuorum)
        } else {
            Ok(())
        }
    }

    /// Sets where the node keeps its log.
    pub fn set_aof_file(&mut self, path: String)
        ensures
            final(self).aof_storage_path@ == path@,
            final(self).fresh == old(self).fresh,
            final(self).replay_log == old(self).replay_log,
            final(self).seed_node == old(self).seed_node,
            final(self).http_port == old(self).http_port,
            final(self).grpc_port == old(self).grpc_port,
            final(self).read_quorum == old(self).read_quorum,
            final(self).write_quorum == old(self).write_quorum,
            final(self).aof_flush_interval == old(self).aof_flush_interval,
    {
        self.aof_storage_path = path;
    }

    /// What to do with the log before replay: a fresh start empties it, a replay log is copied
    /// over it, otherwise it is kept. Asking for both a fresh start and a replay log is refused.
    pub fn log_bootstrap(&self) -> (r: Result<LogBootstrap, ConfigError>)
        ensures
            (self.fresh && self.replay_log is Some) <==> r == Err::<LogBootstrap, ConfigError>(
                ConfigError::FreshWithReplayLog,
            ),
            (self.fresh && self.replay_log is None) <==> r matches Ok(LogBootstrap::Truncate),
            (!self.fresh && self.replay_log is Some) <==> r matches Ok(LogBootstrap::CopyFrom(_)),
            r matches Ok(LogBootstrap::CopyFrom(p)) ==> (self.replay_log matches Some(q) && p@ == q@),
            (!self.fresh && self.replay_log is None) <==> r matches Ok(LogBootstrap::Keep),
    {
        if self.fresh && self.replay_log.is_some() {
            return Err(ConfigError::FreshWithReplayLog);
        }
        if self.fresh {
            return Ok(LogBootstrap::Truncate);
        }
        match &self.replay_log {
            Some(p) => Ok(LogBootstrap::CopyFrom(p.clone())),
            None => Ok(LogBootstrap::Keep),
        }
    }

    pub fn seed_node(&self) -> (r: Option<&str>)
        ensures
            r matches Some(x) ==> (self.seed_node matches Some(y) && x@ == y@),
            r is None <==> self.seed_node is None,
    {
        as_text(&self.seed_node)
    }

    pub fn http_port(&self) -> (r: u16)
        ensures
            r == self.http_port,
    {
        self.http_port
    }

    pub fn grpc_port(&self) -> (r: u16)
        ensures
            r == self.grpc_port,
    {
        self.grpc_port
    }

    pub fn read_quorum(&self) -> (r: usize)
        ensures
            r == self.read_quorum,
    {
        self.read_quorum
    }

    pub fn write_quorum(&self) -> (r: usize)
        ensures
            r == self.write_quorum,
    {
        self.write_quorum
    }

    pub fn aof_file(&self) -> (r: &str)
        ensures
            r@ == self.aof_storage_path@,
    {
        self.aof_storage_path.as_str()
    }

    pub fn aof_flush_interval(&self) -> (r: u64)
        ensures
            r == self.aof_flush_interval,
    {
        self.aof_flush_interval
    }
}

} // verus!
