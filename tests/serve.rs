use pyserver::archive::{ArchiveProducer, EntryEvent, ProducerAction, TraversalPolicy};
use pyserver::serve::{
    content_disposition, dispatch, file_content_type, parse_path_name, request_route, route_path,
    sent_bytes_msg, zip_file_name, PathKind, Reply, Route,
};
use pyserver::logger::StatsMsg;

#[test]
fn routes_of_paths() {
    assert_eq!(route_path("/"), Route::Path(".".to_string()));
    assert_eq!(route_path(""), Route::Path(".".to_string()));
    assert_eq!(route_path("/a.txt"), Route::Path("a.txt".to_string()));
    assert_eq!(route_path("/sub/b.txt"), Route::Path("sub/b.txt".to_string()));
    assert_eq!(route_path("/*"), Route::Archive(".".to_string()));
    assert_eq!(route_path("/*/"), Route::Archive(".".to_string()));
    assert_eq!(route_path("/*/sub/dir"), Route::Archive("sub/dir".to_string()));
}

#[test]
fn routes_decode_escapes() {
    assert_eq!(request_route("/my%20file.txt"), Route::Path("my file.txt".to_string()));
    assert_eq!(request_route("/%2A/docs"), Route::Archive("docs".to_string()));
    assert_eq!(request_route("/plain"), Route::Path("plain".to_string()));
}

#[test]
fn missing_path_is_not_found_in_both_modes() {
    assert_eq!(dispatch(route_path("/nope"), PathKind::Missing), Reply::NotFound);
    assert_eq!(dispatch(route_path("/*/nope"), PathKind::Missing), Reply::NotFound);
}

#[test]
fn dispatch_replies() {
    assert_eq!(
        dispatch(route_path("/a.txt"), PathKind::File(3)),
        Reply::File("a.txt".to_string(), 3)
    );
    assert_eq!(dispatch(route_path("/sub"), PathKind::Dir), Reply::Directory("sub".to_string()));
    assert_eq!(dispatch(route_path("/*/sub"), PathKind::Dir), Reply::Archive("sub".to_string()));
    assert_eq!(dispatch(route_path("/*/a.txt"), PathKind::File(3)), Reply::NotFound);
}

#[test]
fn archive_names() {
    assert_eq!(zip_file_name("."), "result.zip");
    assert_eq!(zip_file_name("a/b/c"), "a_b_c.zip");
    assert_eq!(content_disposition("docs/x"), "attachment; filename=docs_x.zip");
    assert_eq!(content_disposition("."), "attachment; filename=result.zip");
}

#[test]
fn entry_names_use_forward_slashes() {
    assert_eq!(parse_path_name("sub\\b.txt", '\\'), "sub/b.txt");
    assert_eq!(parse_path_name("sub/b.txt", '/'), "sub/b.txt");
    assert_eq!(parse_path_name("a.txt", '\\'), "a.txt");
}

#[test]
fn archive_of_small_tree() {
    // root, a.txt, sub, sub/b.txt
    let mut p = ArchiveProducer::new(TraversalPolicy::ContinueOnError);
    for ev in [EntryEvent::Directory, EntryEvent::Appended, EntryEvent::Directory, EntryEvent::Appended] {
        assert_eq!(p.step(ev), ProducerAction::Next);
    }
    assert_eq!(p.appended, 2);
    assert_eq!(p.skipped, 0);
    assert!(p.should_finalize());
}

#[test]
fn unreadable_entry_is_skipped() {
    let mut p = ArchiveProducer::new(TraversalPolicy::ContinueOnError);
    assert_eq!(p.step(EntryEvent::Appended), ProducerAction::Next);
    assert_eq!(p.step(EntryEvent::OpenFailed), ProducerAction::Next);
    assert_eq!(p.step(EntryEvent::WalkFailed), ProducerAction::Next);
    assert_eq!(p.step(EntryEvent::Appended), ProducerAction::Next);
    assert_eq!(p.appended, 2);
    assert_eq!(p.skipped, 2);
    assert!(p.should_finalize());
}

#[test]
fn abort_policy_stops_on_failure() {
    let mut p = ArchiveProducer::new(TraversalPolicy::AbortOnError);
    assert_eq!(p.step(EntryEvent::Appended), ProducerAction::Next);
    assert_eq!(p.step(EntryEvent::AppendFailed), ProducerAction::Stop);
    assert_eq!(p.step(EntryEvent::Appended), ProducerAction::Stop);
    assert!(!p.should_finalize());
    assert!(!p.consumer_gone);
}

#[test]
fn consumer_gone_stops_producer() {
    let mut p = ArchiveProducer::new(TraversalPolicy::ContinueOnError);
    assert_eq!(p.step(EntryEvent::Appended), ProducerAction::Next);
    assert_eq!(p.step(EntryEvent::ConsumerGone), ProducerAction::Stop);
    assert!(p.consumer_gone);
    assert_eq!(p.step(EntryEvent::Appended), ProducerAction::Stop);
    assert_eq!(p.step(EntryEvent::OpenFailed), ProducerAction::Stop);
    assert_eq!(p.appended, 1);
    assert!(!p.should_finalize());
}

#[test]
fn chunk_telemetry() {
    assert_eq!(sent_bytes_msg(32 * 1024), StatsMsg::SendedBytes(32768));
    assert_eq!(sent_bytes_msg(0), StatsMsg::SendedBytes(0));
}

#[test]
fn content_types() {
    assert_eq!(file_content_type(false, "index.html"), "application/octet-stream");
    assert_eq!(file_content_type(true, "index.html"), "text/html");
    assert_eq!(file_content_type(true, "README"), "text/plain");
}
