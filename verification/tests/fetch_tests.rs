use rail_extract::digest::{has_digest, same_digest};
use rail_extract::fetch::{FetchAction, FetchError, FetchEvent, FetchState, Fetcher, Progress};
use rail_extract::manifest::{file_name_of, parse_manifest};

const HELLO_MD5: &str = "5d41402abc4b2a76b9719d911017c592";

#[test]
fn manifest_has_a_digest_and_a_name() {
    let m = parse_manifest("5d41402abc4b2a76b9719d911017c592  berlin-latest.osm.pbf\n").unwrap();
    assert_eq!(m.digest, HELLO_MD5);
    assert_eq!(m.file_name, "berlin-latest.osm.pbf");
}

#[test]
fn manifest_is_split_at_the_first_run_of_white_space() {
    let m = parse_manifest("abc \t  my file.pbf  ").unwrap();
    assert_eq!(m.digest, "abc");
    assert_eq!(m.file_name, "my file.pbf");
}

#[test]
fn manifest_without_a_name_is_refused() {
    assert!(parse_manifest("5d41402abc4b2a76b9719d911017c592").is_none());
    assert!(parse_manifest("5d41402abc4b2a76b9719d911017c592   \n").is_none());
    assert!(parse_manifest("").is_none());
    assert!(parse_manifest("   ").is_none());
}

#[test]
fn manifest_without_a_digest_is_refused() {
    assert!(parse_manifest(" berlin-latest.osm.pbf").is_none());
}

#[test]
fn file_name_is_what_follows_the_last_slash() {
    assert_eq!(file_name_of("./assets/berlin-latest.osm.pbf"), "berlin-latest.osm.pbf");
    assert_eq!(file_name_of("berlin.osm.pbf"), "berlin.osm.pbf");
    assert_eq!(file_name_of("/a/b/"), "");
    assert_eq!(file_name_of(""), "");
}

#[test]
fn digests_are_compared_without_regard_to_case() {
    assert!(same_digest("5D41402ABC4B2A76B9719D911017C592", HELLO_MD5));
    assert!(same_digest(HELLO_MD5, HELLO_MD5));
    assert!(!same_digest("5d41402abc4b2a76b9719d911017c593", HELLO_MD5));
    assert!(!same_digest("", HELLO_MD5));
}

#[test]
fn has_digest_takes_the_md5_of_the_contents() {
    assert!(has_digest(b"hello", HELLO_MD5));
    assert!(has_digest(b"hello", "5D41402ABC4B2A76B9719D911017C592"));
    assert!(has_digest(b"", "d41d8cd98f00b204e9800998ecf8427e"));
    assert!(has_digest(b"abc", "900150983cd24fb0d6963f7d28e17f72"));
    assert!(!has_digest(b"hello!", HELLO_MD5));
    assert!(!has_digest(b"hello", "hello"));
}

#[test]
fn an_absent_file_is_downloaded() {
    let mut f = Fetcher::new("./assets/berlin.osm.pbf");
    assert_eq!(f.state(), FetchState::Probing);
    assert_eq!(f.outcome(), None);
    assert_eq!(f.step(FetchEvent::Local(false)), FetchAction::Download);
    assert_eq!(f.state(), FetchState::Downloading);
    assert_eq!(f.step(FetchEvent::Downloaded), FetchAction::Finish);
    assert_eq!(f.state(), FetchState::Downloaded);
    assert_eq!(f.outcome(), Some(Ok(())));
}

#[test]
fn a_file_with_the_digest_of_the_manifest_is_not_downloaded() {
    let mut f = Fetcher::new("./assets/berlin.osm.pbf");
    assert_eq!(f.step(FetchEvent::Local(true)), FetchAction::FetchManifest);
    let manifest = format!("{}  berlin.osm.pbf\n", HELLO_MD5);
    assert_eq!(f.step(FetchEvent::Manifest(manifest)), FetchAction::ReadLocal);
    assert_eq!(f.step(FetchEvent::Contents(b"hello".to_vec())), FetchAction::Finish);
    assert_eq!(f.state(), FetchState::UpToDate);
    assert_eq!(f.outcome(), Some(Ok(())));
    assert_eq!(f.step(FetchEvent::Downloaded), FetchAction::Refuse);
}

#[test]
fn a_digest_in_capitals_is_the_same_digest() {
    let mut f = Fetcher::new("berlin.osm.pbf");
    f.step(FetchEvent::Local(true));
    f.step(FetchEvent::Manifest("5D41402ABC4B2A76B9719D911017C592 berlin.osm.pbf".to_string()));
    assert_eq!(f.step(FetchEvent::Contents(b"hello".to_vec())), FetchAction::Finish);
}

#[test]
fn a_file_with_another_digest_is_downloaded() {
    let mut f = Fetcher::new("./assets/berlin.osm.pbf");
    f.step(FetchEvent::Local(true));
    let manifest = format!("{}  berlin.osm.pbf\n", HELLO_MD5);
    assert_eq!(f.step(FetchEvent::Manifest(manifest)), FetchAction::ReadLocal);
    assert_eq!(f.step(FetchEvent::Contents(b"stale".to_vec())), FetchAction::Download);
    assert_eq!(f.state(), FetchState::Downloading);
    assert_eq!(f.step(FetchEvent::Downloaded), FetchAction::Finish);
    assert_eq!(f.outcome(), Some(Ok(())));
}

#[test]
fn a_manifest_without_a_name_fails_before_the_file_is_read() {
    let mut f = Fetcher::new("./assets/berlin.osm.pbf");
    f.step(FetchEvent::Local(true));
    assert_eq!(
        f.step(FetchEvent::Manifest(HELLO_MD5.to_string())),
        FetchAction::Fail(FetchError::ChecksumFormat)
    );
    assert_eq!(f.state(), FetchState::Failed(FetchError::ChecksumFormat));
    assert_eq!(f.outcome(), Some(Err(FetchError::ChecksumFormat)));
    assert_eq!(f.step(FetchEvent::Contents(b"hello".to_vec())), FetchAction::Refuse);
    assert_eq!(f.state(), FetchState::Failed(FetchError::ChecksumFormat));
}

#[test]
fn a_manifest_for_another_file_fails() {
    let mut f = Fetcher::new("./assets/berlin.osm.pbf");
    f.step(FetchEvent::Local(true));
    let manifest = format!("{}  hamburg.osm.pbf\n", HELLO_MD5);
    assert_eq!(
        f.step(FetchEvent::Manifest(manifest)),
        FetchAction::Fail(FetchError::FileNameMismatch)
    );
    assert_eq!(f.outcome(), Some(Err(FetchError::FileNameMismatch)));
}

#[test]
fn the_name_is_compared_exactly() {
    let mut f = Fetcher::new("./assets/berlin.osm.pbf");
    f.step(FetchEvent::Local(true));
    let manifest = format!("{}  Berlin.osm.pbf\n", HELLO_MD5);
    assert_eq!(
        f.step(FetchEvent::Manifest(manifest)),
        FetchAction::Fail(FetchError::FileNameMismatch)
    );
}

#[test]
fn a_network_failure_ends_the_run() {
    let mut f = Fetcher::new("berlin.osm.pbf");
    f.step(FetchEvent::Local(true));
    assert_eq!(f.step(FetchEvent::NetworkFailed), FetchAction::Fail(FetchError::Network));
    assert_eq!(f.outcome(), Some(Err(FetchError::Network)));
    assert_eq!(f.step(FetchEvent::NetworkFailed), FetchAction::Refuse);
    let mut g = Fetcher::new("berlin.osm.pbf");
    g.step(FetchEvent::Local(false));
    assert_eq!(g.step(FetchEvent::NetworkFailed), FetchAction::Fail(FetchError::Network));
}

#[test]
fn an_io_failure_ends_the_run() {
    let mut f = Fetcher::new("berlin.osm.pbf");
    f.step(FetchEvent::Local(true));
    f.step(FetchEvent::Manifest(format!("{} berlin.osm.pbf", HELLO_MD5)));
    assert_eq!(f.step(FetchEvent::IoFailed), FetchAction::Fail(FetchError::Io));
    assert_eq!(f.outcome(), Some(Err(FetchError::Io)));
}

#[test]
fn events_out_of_turn_are_refused() {
    let mut f = Fetcher::new("berlin.osm.pbf");
    assert_eq!(f.step(FetchEvent::Manifest("a b".to_string())), FetchAction::Refuse);
    assert_eq!(f.step(FetchEvent::Contents(Vec::new())), FetchAction::Refuse);
    assert_eq!(f.step(FetchEvent::Downloaded), FetchAction::Refuse);
    assert_eq!(f.state(), FetchState::Probing);
    f.step(FetchEvent::Local(true));
    assert_eq!(f.step(FetchEvent::Local(false)), FetchAction::Refuse);
    assert_eq!(f.state(), FetchState::AwaitingManifest);
}

#[test]
fn progress_counts_the_bytes() {
    let mut p = Progress::new(Some(10));
    assert_eq!(p.is_complete(), Some(false));
    p.record(4);
    p.record(6);
    assert_eq!(p.transferred, 10);
    assert_eq!(p.total, Some(10));
    assert_eq!(p.is_complete(), Some(true));
    let q = Progress::new(None);
    assert_eq!(q.is_complete(), None);
}

#[test]
fn progress_stops_at_the_largest_count() {
    let mut p = Progress::new(None);
    p.record(u64::MAX - 1);
    p.record(1);
    assert_eq!(p.transferred, u64::MAX);
    p.record(5);
    assert_eq!(p.transferred, u64::MAX);
}

#[test]
fn compare_takes_the_digest_of_the_local_file() {
    let mut f = Fetcher::new("berlin.osm.pbf");
    assert_eq!(f.compare(HELLO_MD5), FetchAction::Refuse);
    f.step(FetchEvent::Local(true));
    f.step(FetchEvent::Manifest(format!("{} berlin.osm.pbf", HELLO_MD5)));
    assert_eq!(f.compare("5D41402ABC4B2A76B9719D911017C592"), FetchAction::Finish);
    assert_eq!(f.state(), FetchState::UpToDate);
    let mut g = Fetcher::new("berlin.osm.pbf");
    g.step(FetchEvent::Local(true));
    g.step(FetchEvent::Manifest(format!("{} berlin.osm.pbf", HELLO_MD5)));
    assert_eq!(g.compare("d41d8cd98f00b204e9800998ecf8427e"), FetchAction::Download);
    assert_eq!(g.state(), FetchState::Downloading);
}
