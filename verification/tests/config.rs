use transcode_watch::config::{get_env, get_int_env, Config, ConfigError, Lookups};
use transcode_watch::worker::Ownership;

fn some(text: &str) -> Option<String> {
    Some(text.to_string())
}

#[test]
fn get_env_prefers_what_was_found() {
    assert_eq!(get_env(some("/srv/in"), "/data/watch"), "/srv/in");
    assert_eq!(get_env(some(""), "/data/watch"), "");
}

#[test]
fn get_env_falls_back_to_the_default() {
    assert_eq!(get_env(None, "/data/watch"), "/data/watch");
    assert_eq!(get_env(None, ""), "");
}

#[test]
fn get_int_env_reads_the_value_or_the_default() {
    assert_eq!(get_int_env(some("42"), "1000"), 42);
    assert_eq!(get_int_env(None, "1000"), 1000);
    assert_eq!(get_int_env(some("+0"), "1000"), 0);
    assert_eq!(get_int_env(some("4294967295"), "1000"), u32::MAX);
}

#[test]
fn resolve_uses_the_defaults() {
    let config = Config::resolve(Lookups::default(), vec![]).unwrap();
    assert_eq!(config.transcode.directories.watch, "/data/watch");
    assert_eq!(config.transcode.directories.staging, "/data/transcoding");
    assert_eq!(config.transcode.directories.completion, "/data/complete");
    assert_eq!(config.transcode.hwaccel, "auto");
    assert_eq!(config.transcode.owner, Ownership { uid: 1000, gid: 1000 });
    assert!(config.transcode.pass_through.is_empty());
    for ext in ["mkv", "mp4", "avi", "mov", "flv"] {
        assert!(config.allowed.contains(ext));
    }
    assert!(!config.allowed.contains("txt"));
    assert!(!config.allowed.contains(""));
}

#[test]
fn resolve_takes_what_was_found() {
    let lookups = Lookups {
        watch_dir: some("/in"),
        complete_dir: some("/out"),
        transcoding_dir: some("/tmp/work"),
        allowed_extensions: some("webm,ts"),
        hwaccel: some("cuda"),
        uid: some("501"),
        gid: some("20"),
    };
    let args = vec!["-c:v".to_string(), "hevc".to_string()];
    let config = Config::resolve(lookups, args.clone()).unwrap();
    assert_eq!(config.transcode.directories.watch, "/in");
    assert_eq!(config.transcode.directories.staging, "/tmp/work");
    assert_eq!(config.transcode.directories.completion, "/out");
    assert_eq!(config.transcode.hwaccel, "cuda");
    assert_eq!(config.transcode.owner, Ownership { uid: 501, gid: 20 });
    assert_eq!(config.transcode.pass_through, args);
    assert!(config.allowed.contains("webm"));
    assert!(config.allowed.contains("ts"));
    assert!(!config.allowed.contains("mkv"));
}

#[test]
fn resolve_keeps_user_and_group_apart() {
    let lookups = Lookups { uid: some("1"), gid: some("2"), ..Lookups::default() };
    let config = Config::resolve(lookups, vec![]).unwrap();
    assert_eq!(config.transcode.owner.uid, 1);
    assert_eq!(config.transcode.owner.gid, 2);
}

#[test]
fn resolve_rejects_a_bad_user_identifier() {
    let lookups = Lookups { uid: some("root"), ..Lookups::default() };
    assert_eq!(Config::resolve(lookups, vec![]).err(), Some(ConfigError::InvalidUid));
    let lookups = Lookups { uid: some(""), gid: some("nobody"), ..Lookups::default() };
    assert_eq!(Config::resolve(lookups, vec![]).err(), Some(ConfigError::InvalidUid));
}

#[test]
fn resolve_rejects_a_bad_group_identifier() {
    let lookups = Lookups { gid: some("-1"), ..Lookups::default() };
    assert_eq!(Config::resolve(lookups, vec![]).err(), Some(ConfigError::InvalidGid));
    let lookups = Lookups { uid: some("0"), gid: some("4294967296"), ..Lookups::default() };
    assert_eq!(Config::resolve(lookups, vec![]).err(), Some(ConfigError::InvalidGid));
}
