use sealed_relay::error::{ConfigError, SourceError, WorkerExit};
use sealed_relay::sources::file::{qualifies, queued_paths, CloseMode, FileEvent};
use sealed_relay::sources::ssh::{
    parse_connection_string, poll, split2, Poll, RemoteParameters, POLL_INTERVAL_SECONDS,
};
use sealed_relay::sources::{from_string, Arrival, Source, SourceSpec, SourceState};

fn item(name: &str, contents: &[u8]) -> Arrival {
    Arrival::Item { name: Some(name.to_string()), contents: contents.to_vec() }
}

fn ready() -> Source {
    let mut source = Source::new();
    source.connected(true);
    source
}

fn remote(username: Option<&str>, hostname: &str, path: &str) -> RemoteParameters {
    RemoteParameters {
        username: username.map(|name| name.to_string()),
        hostname: hostname.to_string(),
        path: path.to_string(),
    }
}

#[test]
fn split2_splits_around_the_only_separator() {
    assert_eq!(split2("host:/path", ':').unwrap(), ("host".to_string(), "/path".to_string()));
    assert_eq!(split2("a@b", '@').unwrap(), ("a".to_string(), "b".to_string()));
}

#[test]
fn split2_keeps_empty_parts() {
    assert_eq!(split2(":", ':').unwrap(), (String::new(), String::new()));
    assert_eq!(split2(":b", ':').unwrap(), (String::new(), "b".to_string()));
    assert_eq!(split2("a:", ':').unwrap(), ("a".to_string(), String::new()));
}

#[test]
fn split2_refuses_no_separator() {
    assert_eq!(split2("", ':').unwrap_err(), ConfigError::UnexpectedSplit { pattern: ':' });
    assert_eq!(split2("host", ':').unwrap_err(), ConfigError::UnexpectedSplit { pattern: ':' });
}

#[test]
fn split2_refuses_two_separators() {
    assert_eq!(split2("a:b:c", ':').unwrap_err(), ConfigError::UnexpectedSplit { pattern: ':' });
    assert_eq!(split2("::", ':').unwrap_err(), ConfigError::UnexpectedSplit { pattern: ':' });
    assert_eq!(split2("a@b@c", '@').unwrap_err(), ConfigError::UnexpectedSplit { pattern: '@' });
}

#[test]
fn split2_counts_characters_not_bytes() {
    assert_eq!(
        split2("h\u{f6}st\u{2603}:/p\u{e4}th", ':').unwrap(),
        ("h\u{f6}st\u{2603}".to_string(), "/p\u{e4}th".to_string())
    );
    assert_eq!(split2("a\u{2603}b", '\u{2603}').unwrap(), ("a".to_string(), "b".to_string()));
}

#[test]
fn connection_with_a_user() {
    assert_eq!(
        parse_connection_string("alice@example.org:/srv/inbox").unwrap(),
        remote(Some("alice"), "example.org", "/srv/inbox")
    );
}

#[test]
fn connection_without_a_user() {
    assert_eq!(
        parse_connection_string("example.org:inbox").unwrap(),
        remote(None, "example.org", "inbox")
    );
}

#[test]
fn connection_may_hold_an_at_sign_in_its_path() {
    assert_eq!(
        parse_connection_string("example.org:/srv/a@b").unwrap(),
        remote(None, "example.org", "/srv/a@b")
    );
    assert_eq!(
        parse_connection_string("u@example.org:/srv/a@b").unwrap(),
        remote(Some("u"), "example.org", "/srv/a@b")
    );
}

#[test]
fn connection_without_a_colon_is_refused() {
    assert_eq!(
        parse_connection_string("alice@example.org").unwrap_err(),
        ConfigError::UnexpectedSplit { pattern: ':' }
    );
}

#[test]
fn connection_with_two_colons_is_refused() {
    assert_eq!(
        parse_connection_string("example.org:22:/srv").unwrap_err(),
        ConfigError::UnexpectedSplit { pattern: ':' }
    );
}

#[test]
fn connection_with_two_users_is_refused() {
    assert_eq!(
        parse_connection_string("a@b@example.org:/srv").unwrap_err(),
        ConfigError::UnexpectedSplit { pattern: '@' }
    );
}

#[test]
fn connection_keeps_empty_parts() {
    assert_eq!(parse_connection_string(":").unwrap(), remote(None, "", ""));
    assert_eq!(parse_connection_string("@:").unwrap(), remote(Some(""), "", ""));
}

#[test]
fn an_absolute_path_selects_the_directory() {
    assert_eq!(from_string("/var/spool/in").unwrap(), SourceSpec::Directory("/var/spool/in".to_string()));
    assert_eq!(from_string("/").unwrap(), SourceSpec::Directory("/".to_string()));
}

#[test]
fn an_absolute_path_with_a_colon_is_still_a_directory() {
    assert_eq!(from_string("/var/a:b").unwrap(), SourceSpec::Directory("/var/a:b".to_string()));
}

#[test]
fn a_connection_string_selects_the_remote_directory() {
    assert_eq!(
        from_string("alice@example.org:/srv/inbox").unwrap(),
        SourceSpec::Remote(remote(Some("alice"), "example.org", "/srv/inbox"))
    );
    assert_eq!(from_string("host:dir").unwrap(), SourceSpec::Remote(remote(None, "host", "dir")));
}

#[test]
fn anything_else_is_no_source() {
    assert_eq!(from_string("").unwrap_err(), ConfigError::InvalidSourceSpec);
    assert_eq!(from_string("relative/path").unwrap_err(), ConfigError::InvalidSourceSpec);
    assert_eq!(from_string("alice@example.org").unwrap_err(), ConfigError::InvalidSourceSpec);
}

#[test]
fn a_malformed_connection_is_no_source() {
    assert_eq!(from_string("a:b:c").unwrap_err(), ConfigError::UnexpectedSplit { pattern: ':' });
    assert_eq!(from_string("a@b@c:d").unwrap_err(), ConfigError::UnexpectedSplit { pattern: '@' });
}

#[test]
fn address_is_host_and_port() {
    assert_eq!(remote(None, "example.org", "/srv").address(), "example.org:22");
}

#[test]
fn login_is_the_named_user_or_the_current_one() {
    assert_eq!(remote(Some("alice"), "h", "p").login("carol"), "alice");
    assert_eq!(remote(None, "h", "p").login("carol"), "carol");
}

#[test]
fn poll_downloads_the_last_entry() {
    assert_eq!(
        poll(vec!["/srv/a".to_string(), "/srv/b".to_string()]),
        Poll::Download("/srv/b".to_string())
    );
    assert_eq!(poll(vec!["/srv/a".to_string()]), Poll::Download("/srv/a".to_string()));
}

#[test]
fn poll_of_an_empty_directory_waits_five_seconds() {
    assert_eq!(POLL_INTERVAL_SECONDS, 5);
    assert_eq!(poll(vec![]), Poll::Wait(5));
}

#[test]
fn only_a_close_after_write_brings_an_item() {
    assert!(qualifies(FileEvent::Closed(CloseMode::Write)));
    assert!(!qualifies(FileEvent::Closed(CloseMode::Read)));
    assert!(!qualifies(FileEvent::Closed(CloseMode::Other)));
    assert!(!qualifies(FileEvent::Other));
}

#[test]
fn paths_are_queued_for_a_close_after_write_only() {
    let paths = vec!["/in/a".to_string(), "/in/b".to_string()];
    assert_eq!(queued_paths(FileEvent::Closed(CloseMode::Write), paths.clone()), paths);
    assert!(queued_paths(FileEvent::Closed(CloseMode::Read), paths.clone()).is_empty());
    assert!(queued_paths(FileEvent::Other, paths).is_empty());
}

#[test]
fn a_new_source_is_idle() {
    let mut source = Source::new();
    assert_eq!(source.state(), SourceState::Idle);
    assert_eq!(source.next(item("report.txt", b"x")).unwrap_err(), SourceError::NotReady);
    assert_eq!(source.confirm("report.txt").unwrap_err(), SourceError::NotReady);
    assert_eq!(source.state(), SourceState::Idle);
}

#[test]
fn a_source_that_reached_its_backend_is_ready() {
    let mut source = Source::new();
    source.connected(true);
    assert_eq!(source.state(), SourceState::Ready);
    source.connected(false);
    assert_eq!(source.state(), SourceState::Ready);
}

#[test]
fn a_source_that_did_not_reach_its_backend_has_failed() {
    let mut source = Source::new();
    source.connected(false);
    assert_eq!(source.state(), SourceState::Failed);
    source.connected(true);
    assert_eq!(source.state(), SourceState::Failed);
    assert_eq!(source.next(item("a", b"")).unwrap_err(), SourceError::Unavailable);
    assert_eq!(source.confirm("a").unwrap_err(), SourceError::Unavailable);
}

#[test]
fn next_hands_out_what_arrived() {
    let mut source = ready();
    let data = source.next(item("report.txt", b"hello world")).unwrap();
    assert_eq!(data.id, "report.txt");
    assert_eq!(data.contents, b"hello world".to_vec());
    assert_eq!(source.state(), SourceState::Ready);
}

#[test]
fn an_item_is_confirmed_once() {
    let mut source = ready();
    source.next(item("report.txt", b"hello world")).unwrap();
    assert_eq!(source.confirm("report.txt"), Ok(()));
    assert_eq!(source.confirm("report.txt"), Err(SourceError::UnknownId));
}

#[test]
fn an_id_that_was_never_handed_out_is_not_confirmed() {
    let mut source = ready();
    assert_eq!(source.confirm("report.txt"), Err(SourceError::UnknownId));
    source.next(item("report.txt", b"x")).unwrap();
    assert_eq!(source.confirm("other.txt"), Err(SourceError::UnknownId));
    assert_eq!(source.confirm(""), Err(SourceError::UnknownId));
    assert_eq!(source.confirm("report.txt"), Ok(()));
}

#[test]
fn a_refused_confirmation_changes_nothing() {
    let mut source = ready();
    source.next(item("a", b"1")).unwrap();
    assert_eq!(source.confirm("b"), Err(SourceError::UnknownId));
    assert_eq!(source.state(), SourceState::Ready);
    assert_eq!(source.confirm("a"), Ok(()));
}

#[test]
fn items_are_confirmed_in_any_order() {
    let mut source = ready();
    source.next(item("a", b"1")).unwrap();
    source.next(item("b", b"2")).unwrap();
    source.next(item("c", b"3")).unwrap();
    assert_eq!(source.confirm("b"), Ok(()));
    assert_eq!(source.confirm("c"), Ok(()));
    assert_eq!(source.confirm("a"), Ok(()));
    assert_eq!(source.confirm("a"), Err(SourceError::UnknownId));
    assert_eq!(source.confirm("b"), Err(SourceError::UnknownId));
    assert_eq!(source.confirm("c"), Err(SourceError::UnknownId));
}

#[test]
fn an_unconfirmed_item_that_arrives_again_is_handed_out_again() {
    let mut source = ready();
    source.next(item("a", b"1")).unwrap();
    let again = source.next(item("a", b"1")).unwrap();
    assert_eq!(again.id, "a");
    assert_eq!(source.confirm("a"), Ok(()));
    assert_eq!(source.confirm("a"), Err(SourceError::UnknownId));
}

#[test]
fn a_confirmed_item_that_arrives_again_can_be_confirmed_again() {
    let mut source = ready();
    source.next(item("a", b"1")).unwrap();
    assert_eq!(source.confirm("a"), Ok(()));
    source.next(item("a", b"2")).unwrap();
    assert_eq!(source.confirm("a"), Ok(()));
}

#[test]
fn an_item_without_a_name_is_refused() {
    let mut source = ready();
    let arrival = Arrival::Item { name: None, contents: vec![1] };
    assert_eq!(source.next(arrival).unwrap_err(), SourceError::MissingName);
    assert_eq!(source.state(), SourceState::Ready);
    assert!(source.next(item("a", b"1")).is_ok());
}

#[test]
fn a_worker_that_ended_is_reported_with_its_cause() {
    for exit in [WorkerExit::Panicked, WorkerExit::Finished, WorkerExit::Failed] {
        let mut source = ready();
        assert_eq!(
            source.next(Arrival::WorkerEnded(exit)).unwrap_err(),
            SourceError::WorkerEnded(exit)
        );
        assert_eq!(source.state(), SourceState::Degraded);
    }
}

#[test]
fn a_backend_that_cannot_be_read_degrades_the_source() {
    let mut source = ready();
    assert_eq!(source.next(Arrival::Unreachable).unwrap_err(), SourceError::Unreachable);
    assert_eq!(source.state(), SourceState::Degraded);
}

#[test]
fn a_degraded_source_still_takes_confirmations() {
    let mut source = ready();
    source.next(item("a", b"1")).unwrap();
    source.next(Arrival::WorkerEnded(WorkerExit::Panicked)).unwrap_err();
    assert_eq!(source.confirm("b"), Err(SourceError::UnknownId));
    assert_eq!(source.confirm("a"), Ok(()));
    assert_eq!(source.confirm("a"), Err(SourceError::UnknownId));
    assert_eq!(source.state(), SourceState::Degraded);
}

#[test]
fn a_degraded_source_yields_nothing_and_fails_for_good() {
    let mut source = ready();
    source.next(item("a", b"1")).unwrap();
    source.next(Arrival::Unreachable).unwrap_err();
    assert_eq!(source.next(item("b", b"2")).unwrap_err(), SourceError::Unavailable);
    assert_eq!(source.state(), SourceState::Failed);
    assert_eq!(source.confirm("a"), Err(SourceError::Unavailable));
    assert_eq!(source.next(item("c", b"3")).unwrap_err(), SourceError::Unavailable);
    assert_eq!(source.state(), SourceState::Failed);
}

#[test]
fn one_arrival_is_one_item() {
    let mut source = ready();
    let first = source.next(item("report.txt", b"hello world")).unwrap();
    assert_eq!(first.contents, b"hello world".to_vec());
    assert_eq!(source.confirm(&first.id), Ok(()));
    assert_eq!(source.confirm(&first.id), Err(SourceError::UnknownId));
    assert_eq!(poll(vec![]), Poll::Wait(POLL_INTERVAL_SECONDS));
}
