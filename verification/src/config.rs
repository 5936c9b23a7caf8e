//! Node configuration: its shape, its defaults, and the rules that a
//! configuration has to meet.

use vstd::prelude::*;

use crate::codec::texts;
use crate::text::{chars_of, range_is, same_text};

verus! {

#[derive(Debug)]
pub enum ConfigError {
    ValidationError(String),
}

#[derive(Debug, Clone)]
pub struct Config {
    pub cluster: ClusterConfig,
    pub node: NodeConfig,
    pub storage: StorageConfig,
    /// Enables dangerous operations like purge. Must never be true in production.
    pub test_mode: bool,
    /// Maximum upload size in bytes
    pub max_upload_size: u64,
}

#[derive(Debug, Clone)]
pub struct NodeConfig {
    pub bind_address: String,
    pub data_dir: String,
    pub id: String,
}

#[derive(Debug, Clone)]
pub struct ClusterConfig {
    /// TCP port for inter-node cluster communication
    pub cluster_port: u16,
    pub discovery: DiscoveryConfig,
    pub election_timeout_ms: u64,
    pub heartbeat_interval_ms: u64,
    pub peers: Vec<String>,
}

#[derive(Debug, Clone)]
pub struct DiscoveryConfig {
    /// DNS name to resolve for peer discovery (e.g., a Kubernetes headless service).
    pub dns_name: Option<String>,
    /// How often to poll for peer changes (seconds)
    pub poll_interval_seconds: u64,
}

#[derive(Debug, Clone, Copy, PartialEq, Eq, Structural)]
pub enum StorageBackend {
    Gcs,
    Local,
}

#[derive(Debug, Clone)]
pub struct StorageConfig {
    pub backend: StorageBackend,
    /// Directory for local storage backend
    pub local_storage_path: String,
    /// GCS bucket name (required when backend is gcs)
    pub gcs_bucket: Option<String>,
    /// Path to GCS service account JSON (optional, defaults to ADC)
    pub gcs_credentials_file: Option<String>,
}

impl Default for DiscoveryConfig {
    fn default() -> (r: Self)
        ensures
            r.dns_name is None,
            r.poll_interval_seconds == 5,
    {
        Self { dns_name: None, poll_interval_seconds: 5 }
    }
}

impl Default for ClusterConfig {
    fn default() -> (r: Self)
        ensures
            r.cluster_port == 9993,
            r.discovery.dns_name is None,
            r.discovery.poll_interval_seconds == 5,
            r.election_timeout_ms == 3000,
            r.heartbeat_interval_ms == 300,
            r.peers@.len() == 0,
    {
        Self {
            cluster_port: 9993,
            discovery: DiscoveryConfig::default(),
            election_timeout_ms: 3000,
            heartbeat_interval_ms: 300,
            peers: Vec::new(),
        }
    }
}

impl Default for StorageConfig {
    fn default() -> (r: Self)
        ensures
            r.backend == StorageBackend::Local,
            r.local_storage_path@ == "./files"@,
            r.gcs_bucket is None,
            r.gcs_credentials_file is None,
    {
        Self {
            backend: StorageBackend::Local,
            local_storage_path: "./files".to_owned(),
            gcs_bucket: None,
            gcs_credentials_file: None,
        }
    }
}

/// What the environment says, each value absent or present, numbers already
/// read and the list of peers already split into trimmed entries.
pub struct Settings {
    pub node_id: String,
    pub bind_address: Option<String>,
    pub data_dir: Option<String>,
    pub peers: Vec<String>,
    pub discovery_dns_name: Option<String>,
    pub discovery_poll_interval: Option<u64>,
    pub cluster_port: Option<u16>,
    pub test_mode: bool,
    pub max_upload_size: Option<u64>,
    pub storage_backend: StorageBackend,
    pub local_storage_path: Option<String>,
    pub gcs_bucket: Option<String>,
    pub gcs_credentials_file: Option<String>,
}

/// Whether a listed peer is a peer at all: a non-empty entry that does not
/// name the node itself, bare or followed by `:` and a port.
pub open spec fn is_peer(entry: Seq<char>, node_id: Seq<char>) -> bool {
    &&& entry.len() > 0
    &&& entry != node_id
    &&& !(node_id + seq![':']).is_prefix_of(entry)
}

fn peer_check(entry: &str, node_id: &str) -> (r: bool)
    ensures
        r == is_peer(entry@, node_id@),
{
    let e = chars_of(entry);
    let n = chars_of(node_id);
    if e.len() == 0 {
        return false;
    }
    if same_text(entry, node_id) {
        return false;
    }
    let ghost marked = node_id@ + seq![':'];
    if e.len() <= n.len() {
        return true;
    }
    if !range_is(&e, 0, n.len(), node_id) {
        assert(!marked.is_prefix_of(entry@)) by {
            if marked.is_prefix_of(entry@) {
                assert(e@.subrange(0, n.len() as int) =~= node_id@);
            }
        }
        return true;
    }
    let colon = e[n.len()] == ':';
    proof {
        if colon {
            assert(entry@.subrange(0, marked.len() as int) =~= marked);
        } else {
            if marked.is_prefix_of(entry@) {
                assert(entry@.subrange(0, marked.len() as int)[n.len() as int] == ':');
            }
        }
    }
    !colon
}

fn or_text(value: Option<String>, default: &str) -> (r: String)
    ensures
        r@ == (match value {
            Some(v) => v@,
            None => default@,
        }),
{
    match value {
        Some(v) => v,
        None => default.to_owned(),
    }
}

impl Config {
    /// What is wrong with a configuration, if anything: the node has no id,
    /// or the cloud backend has no bucket.
    pub open spec fn fault(self) -> Option<Seq<char>> {
        if self.node.id@.len() == 0 {
            Some("NODE_ID cannot be empty"@)
        } else if self.storage.backend == StorageBackend::Gcs && self.storage.gcs_bucket is None {
            Some("GCS_BUCKET is required when STORAGE_BACKEND=gcs"@)
        } else {
            None
        }
    }

    /// Build a configuration from settings, with the default for each absent
    /// value, and validate it. Entries of the peer list that are empty or
    /// name the node itself are left out.
    pub fn assemble(settings: Settings) -> (r: Result<Config, ConfigError>)
        ensures
            r matches Ok(c) ==> {
                &&& c.fault() is None
                &&& c.node.id@ == settings.node_id@
                &&& c.node.bind_address@ == (match settings.bind_address {
                    Some(v) => v@,
                    None => "0.0.0.0:8080"@,
                })
                &&& c.node.data_dir@ == (match settings.data_dir {
                    Some(v) => v@,
                    None => "./data"@,
                })
                &&& texts(c.cluster.peers@) == texts(settings.peers@).filter(
                    |e: Seq<char>| is_peer(e, settings.node_id@),
                )
                &&& c.cluster.discovery.dns_name == settings.discovery_dns_name
                &&& c.cluster.discovery.poll_interval_seconds == (match settings.discovery_poll_interval {
                    Some(v) => v,
                    None => 5,
                })
                &&& c.cluster.cluster_port == (match settings.cluster_port {
                    Some(v) => v,
                    None => 9993,
                })
                &&& c.cluster.election_timeout_ms == 3000
                &&& c.cluster.heartbeat_interval_ms == 300
                &&& c.test_mode == settings.test_mode
                &&& c.max_upload_size == (match settings.max_upload_size {
                    Some(v) => v,
                    None => 52428800,
                })
                &&& c.storage.backend == settings.storage_backend
                &&& c.storage.local_storage_path@ == (match settings.local_storage_path {
                    Some(v) => v@,
                    None => "./files"@,
                })
                &&& c.storage.gcs_bucket == settings.gcs_bucket
                &&& c.storage.gcs_credentials_file == settings.gcs_credentials_file
            },
            r matches Err(ConfigError::ValidationError(m)) ==> {
                ||| settings.node_id@.len() == 0 && m@ == "NODE_ID cannot be empty"@
                ||| settings.node_id@.len() > 0 && settings.storage_backend == StorageBackend::Gcs
                    && settings.gcs_bucket is None && m@
                    == "GCS_BUCKET is required when STORAGE_BACKEND=gcs"@
            },
            r is Ok <==> settings.node_id@.len() > 0 && !(settings.storage_backend == StorageBackend::Gcs
                && settings.gcs_bucket is None),
    {
        let ghost listed = texts(settings.peers@);
        let ghost keep = |e: Seq<char>| is_peer(e, settings.node_id@);
        let mut peers: Vec<String> = Vec::new();
        let mut i: usize = 0;
        proof {
            reveal(Seq::filter);
            assert(listed.take(0) =~= Seq::<Seq<char>>::empty());
            assert(texts(peers@) =~= listed.take(0).filter(keep));
        }
        while i < settings.peers.len()
            invariant
                i <= settings.peers.len(),
                listed == texts(settings.peers@),
                keep == |e: Seq<char>| is_peer(e, settings.node_id@),
                texts(peers@) == listed.take(i as int).filter(keep),
            decreases settings.peers.len() - i,
        {
            let ghost before = peers@;
            proof {
                let t = listed.take(i + 1);
                assert(t.drop_last() =~= listed.take(i as int));
                assert(t.last() == settings.peers@[i as int]@);
                reveal(Seq::filter);
            }
            if peer_check(settings.peers[i].as_str(), settings.node_id.as_str()) {
                peers.push(settings.peers[i].clone());
                assert(texts(peers@) =~= texts(before).push(settings.peers@[i as int]@));
            }
            i += 1;
        }
        proof {
            assert(listed.take(settings.peers.len() as int) =~= listed);
        }
        let config = Config {
            node: NodeConfig {
                id: settings.node_id,
                bind_address: or_text(settings.bind_address, "0.0.0.0:8080"),
                data_dir: or_text(settings.data_dir, "./data"),
            },
            cluster: ClusterConfig {
                cluster_port: match settings.cluster_port {
                    Some(v) => v,
                    None => 9993,
                },
                peers,
                discovery: DiscoveryConfig {
                    dns_name: settings.discovery_dns_name,
                    poll_interval_seconds: match settings.discovery_poll_interval {
                        Some(v) => v,
                        None => 5,
                    },
                },
                election_timeout_ms: 3000,
                heartbeat_interval_ms: 300,
            },
            storage: StorageConfig {
                backend: settings.storage_backend,
                local_storage_path: or_text(settings.local_storage_path, "./files"),
                gcs_bucket: settings.gcs_bucket,
                gcs_credentials_file: settings.gcs_credentials_file,
            },
            test_mode: settings.test_mode,
            max_upload_size: match settings.max_upload_size {
                Some(v) => v,
                None => 50 * 1024 * 1024,
            },
        };
        match config.validate() {
            Ok(()) => Ok(config),
            Err(e) => Err(e),
        }
    }

    /// Check the rules that a configuration has to meet.
    pub fn validate(&self) -> (r: Result<(), ConfigError>)
        ensures
            r is Ok <==> self.fault() is None,
            r matches Err(ConfigError::ValidationError(m)) ==> self.fault() == Some(m@),
    {
        if self.node.id.as_str().is_empty() {
            return Err(ConfigError::ValidationError("NODE_ID cannot be empty".to_owned()));
        }
        if self.storage.backend == StorageBackend::Gcs && self.storage.gcs_bucket.is_none() {
            return Err(
                ConfigError::ValidationError(
                    "GCS_BUCKET is required when STORAGE_BACKEND=gcs".to_owned(),
                ),
            );
        }
        Ok(())
    }

    /// Whether the cluster that the configuration lists, the node and its
    /// peers, has an even size above one: such a cluster can split its vote.
    pub fn has_even_cluster(&self) -> (r: bool)
        ensures
            r == ((self.cluster.peers@.len() + 1) % 2 == 0),
    {
        self.cluster.peers.len() % 2 == 1
    }

    /// Check if running in single-node mode.
    pub fn is_single_node(&self) -> (r: bool)
        ensures
            r == (self.cluster.peers@.len() == 0 && self.cluster.discovery.dns_name is None),
    {
        self.cluster.peers.len() == 0 && self.cluster.discovery.dns_name.is_none()
    }
}

} // verus!
