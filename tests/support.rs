use pegasus::config::Config;
use pegasus::error::PegasusError;
use pegasus::event::{decimal_text, Stage};
use pegasus::metadata::{title_from_metadata, title_from_parsed};
use pegasus::paths::{join, target_directory};
use pegasus::transfer::transfer_file;

#[test]
fn config_load_defaults() {
    let c = Config::load();
    assert_eq!(c.media_server_path, "/path/to/media/server");
    assert_eq!(c.download_dir, "/tmp/pegasus/downloads");
    assert_eq!(c.processed_dir, "/tmp/pegasus/processed");
}

#[test]
fn transfer_file_succeeds() {
    assert_eq!(transfer_file("/tmp/a.mp4", "server:/media"), Ok(()));
}

#[test]
fn error_texts() {
    assert_eq!(PegasusError::IoError("disk full".to_string()).describe(), "I/O error: disk full");
    assert_eq!(
        PegasusError::ExternalCommandError("x".to_string()).describe(),
        "External command error: x"
    );
    assert_eq!(PegasusError::ConfigError("c".to_string()).describe(), "Configuration error: c");
    assert_eq!(PegasusError::Unknown("u".to_string()).describe(), "Unknown error: u");
}

#[test]
fn stage_labels() {
    assert_eq!(Stage::Starting.label(), "starting");
    assert_eq!(Stage::Failed.label(), "error");
    assert_eq!(Stage::Completed.label(), "completed");
}

#[test]
fn decimal_text_values() {
    assert_eq!(decimal_text(0), "0");
    assert_eq!(decimal_text(42), "42");
    assert_eq!(decimal_text(u64::MAX), u64::MAX.to_string());
}

#[test]
fn path_joining() {
    assert_eq!(join("/a/b", "c.mp4"), "/a/b/c.mp4");
    assert_eq!(join("/a/b/", "c.mp4"), "/a/b/c.mp4");
    assert_eq!(join("/a/b", "/abs"), "/abs");
    assert_eq!(join("", "c"), "c");
    assert_eq!(target_directory(&None), "/tmp/pegasus_downloads/default");
    assert_eq!(target_directory(&Some("x/y".to_string())), "/tmp/pegasus_downloads/x/y");
}

#[test]
fn metadata_titles() {
    assert_eq!(title_from_metadata("{\"title\": \"Hello\"}").unwrap(), "Hello");
    assert_eq!(title_from_metadata("{\"title\": 5}").unwrap(), "unknown_title");
    assert_eq!(title_from_metadata("[]").unwrap(), "unknown_title");
    match title_from_metadata("{") {
        Err(PegasusError::ExternalCommandError(m)) => {
            assert!(m.starts_with("Failed to parse yt-dlp JSON output: "));
        }
        other => panic!("unexpected {:?}", other),
    }
    assert_eq!(title_from_parsed(Ok(None)).unwrap(), "unknown_title");
}
