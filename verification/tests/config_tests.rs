use file_manager::config::{
    ClusterConfig, Config, ConfigError, DiscoveryConfig, Settings, StorageBackend, StorageConfig,
};
use file_manager::models::FileType;

fn settings(node_id: &str) -> Settings {
    Settings {
        node_id: node_id.to_string(),
        bind_address: None,
        data_dir: None,
        peers: Vec::new(),
        discovery_dns_name: None,
        discovery_poll_interval: None,
        cluster_port: None,
        test_mode: false,
        max_upload_size: None,
        storage_backend: StorageBackend::Local,
        local_storage_path: None,
        gcs_bucket: None,
        gcs_credentials_file: None,
    }
}

#[test]
fn absent_settings_take_their_defaults() {
    let config = Config::assemble(settings("n1")).unwrap();
    assert_eq!(config.node.id, "n1");
    assert_eq!(config.node.bind_address, "0.0.0.0:8080");
    assert_eq!(config.node.data_dir, "./data");
    assert_eq!(config.cluster.cluster_port, 9993);
    assert_eq!(config.cluster.election_timeout_ms, 3000);
    assert_eq!(config.cluster.heartbeat_interval_ms, 300);
    assert_eq!(config.cluster.discovery.poll_interval_seconds, 5);
    assert_eq!(config.cluster.discovery.dns_name, None);
    assert!(config.cluster.peers.is_empty());
    assert!(!config.test_mode);
    assert_eq!(config.max_upload_size, 50 * 1024 * 1024);
    assert_eq!(config.storage.backend, StorageBackend::Local);
    assert_eq!(config.storage.local_storage_path, "./files");
    assert_eq!(config.storage.gcs_bucket, None);
    assert!(config.is_single_node());
}

#[test]
fn present_settings_are_taken_as_they_are() {
    let mut s = settings("n1");
    s.bind_address = Some("127.0.0.1:1".to_string());
    s.data_dir = Some("/d".to_string());
    s.discovery_dns_name = Some("peers.local".to_string());
    s.discovery_poll_interval = Some(9);
    s.cluster_port = Some(7);
    s.test_mode = true;
    s.max_upload_size = Some(1);
    s.storage_backend = StorageBackend::Gcs;
    s.local_storage_path = Some("/f".to_string());
    s.gcs_bucket = Some("b".to_string());
    s.gcs_credentials_file = Some("/k.json".to_string());
    let config = Config::assemble(s).unwrap();
    assert_eq!(config.node.bind_address, "127.0.0.1:1");
    assert_eq!(config.node.data_dir, "/d");
    assert_eq!(config.cluster.discovery.dns_name, Some("peers.local".to_string()));
    assert_eq!(config.cluster.discovery.poll_interval_seconds, 9);
    assert_eq!(config.cluster.cluster_port, 7);
    assert!(config.test_mode);
    assert_eq!(config.max_upload_size, 1);
    assert_eq!(config.storage.backend, StorageBackend::Gcs);
    assert_eq!(config.storage.local_storage_path, "/f");
    assert_eq!(config.storage.gcs_bucket, Some("b".to_string()));
    assert_eq!(config.storage.gcs_credentials_file, Some("/k.json".to_string()));
    assert!(!config.is_single_node());
}

#[test]
fn peers_that_name_the_node_are_left_out() {
    let mut s = settings("n1");
    s.peers = ["n2:9993", "", "n1", "n1:9993", "n10:9993", "n1x", "n3", "n1:"]
        .iter()
        .map(|p| p.to_string())
        .collect();
    let config = Config::assemble(s).unwrap();
    assert_eq!(config.cluster.peers, vec!["n2:9993", "n10:9993", "n1x", "n3"]);
    assert!(!config.is_single_node());
    assert!(config.has_even_cluster() == false);
}

#[test]
fn even_clusters_are_noticed() {
    let mut s = settings("n1");
    s.peers = vec!["n2".to_string()];
    assert!(Config::assemble(s).unwrap().has_even_cluster());
    let mut s = settings("n1");
    s.peers = vec!["n2".to_string(), "n3".to_string()];
    assert!(!Config::assemble(s).unwrap().has_even_cluster());
    assert!(!Config::assemble(settings("n1")).unwrap().has_even_cluster());
}

#[test]
fn a_node_needs_an_id() {
    match Config::assemble(settings("")) {
        Err(ConfigError::ValidationError(m)) => assert_eq!(m, "NODE_ID cannot be empty"),
        Ok(_) => panic!("accepted"),
    }
}

#[test]
fn the_cloud_backend_needs_a_bucket() {
    let mut s = settings("n1");
    s.storage_backend = StorageBackend::Gcs;
    match Config::assemble(s) {
        Err(ConfigError::ValidationError(m)) => {
            assert_eq!(m, "GCS_BUCKET is required when STORAGE_BACKEND=gcs")
        }
        Ok(_) => panic!("accepted"),
    }
    let mut config = Config::assemble(settings("n1")).unwrap();
    assert!(config.validate().is_ok());
    config.storage.backend = StorageBackend::Gcs;
    assert!(config.validate().is_err());
    config.storage.gcs_bucket = Some("b".to_string());
    assert!(config.validate().is_ok());
    config.node.id = String::new();
    assert!(config.validate().is_err());
}

#[test]
fn defaults_of_the_parts() {
    let discovery = DiscoveryConfig::default();
    assert_eq!(discovery.dns_name, None);
    assert_eq!(discovery.poll_interval_seconds, 5);
    let cluster = ClusterConfig::default();
    assert_eq!(cluster.cluster_port, 9993);
    assert_eq!(cluster.election_timeout_ms, 3000);
    assert_eq!(cluster.heartbeat_interval_ms, 300);
    assert!(cluster.peers.is_empty());
    let storage = StorageConfig::default();
    assert_eq!(storage.backend, StorageBackend::Local);
    assert_eq!(storage.local_storage_path, "./files");
    assert_eq!(storage.gcs_bucket, None);
    assert_eq!(storage.gcs_credentials_file, None);
}

#[test]
fn file_types_by_mime_type() {
    for (mime, expected) in [
        ("audio/ogg", FileType::Audio),
        ("audio", FileType::Audio),
        ("audio/", FileType::Audio),
        ("image/svg+xml", FileType::Image),
        ("video/webm/extra", FileType::Video),
        ("text", FileType::Document),
        ("text/", FileType::Document),
        ("text/anything", FileType::Document),
        ("application", FileType::Binary),
        ("application/", FileType::Binary),
        ("application/pdf", FileType::Document),
        ("application/pdf/x", FileType::Document),
        ("application/pdfx", FileType::Binary),
        ("application/msword", FileType::Document),
        ("application/rtf", FileType::Document),
        ("application/csv", FileType::Document),
        ("application/vnd.ms-excel", FileType::Document),
        ("application/vnd.ms-powerpoint", FileType::Document),
        (
            "application/vnd.openxmlformats-officedocument.wordprocessingml.document",
            FileType::Document,
        ),
        (
            "application/vnd.openxmlformats-officedocument.spreadsheetml.sheet",
            FileType::Document,
        ),
        (
            "application/vnd.openxmlformats-officedocument.presentationml.presentation",
            FileType::Document,
        ),
        ("application/zip", FileType::Binary),
        ("Image/png", FileType::Binary),
        ("", FileType::Binary),
        ("/", FileType::Binary),
        ("/pdf", FileType::Binary),
        ("imagé/png", FileType::Binary),
    ] {
        assert_eq!(FileType::from_mime(mime), expected, "{mime}");
    }
}

#[test]
fn file_types_by_stored_name() {
    for t in [FileType::Audio, FileType::Binary, FileType::Document, FileType::Image, FileType::Video] {
        assert_eq!(FileType::from_name(t.as_str()), Some(t));
    }
    assert_eq!(FileType::Audio.as_str(), "audio");
    assert_eq!(FileType::Binary.as_str(), "binary");
    assert_eq!(FileType::Document.as_str(), "document");
    assert_eq!(FileType::Image.as_str(), "image");
    assert_eq!(FileType::Video.as_str(), "video");
    assert_eq!(FileType::from_name("Audio"), None);
    assert_eq!(FileType::from_name(""), None);
}
