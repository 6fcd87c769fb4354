use akrond::checkpoint::{
    anchors_file_name, prune_point, snapshot_file_name, ChainAnchor, CheckpointProgress,
    LoadError, RootAnchor,
};
use akrond::loader::{LoadAction, LoadEvent, LoadPhase, Loader};

fn anchor(first: u8, height: u32) -> RootAnchor {
    let mut hash = [0u8; 32];
    hash[0] = first;
    RootAnchor { spaces_root: [7u8; 32], block: ChainAnchor { hash, height } }
}

fn failed(cause: &str) -> LoadEvent {
    LoadEvent::Failed { cause: cause.to_string() }
}

/// A loader that has taken a response of `total` bytes and created its file.
fn receiving(observed: bool, total: u64) -> Loader {
    let mut loader = Loader::new(observed);
    assert_eq!(loader.phase(), LoadPhase::Preparing);
    assert_eq!(loader.step(LoadEvent::Completed), LoadAction::SendRequest);
    assert_eq!(
        loader.step(LoadEvent::Response { status: 200, content_length: Some(total) }),
        LoadAction::CreateFile
    );
    assert_eq!(loader.progress(), CheckpointProgress { downloaded: 0, total });
    assert_eq!(loader.step(LoadEvent::Completed), LoadAction::ReadChunk);
    assert_eq!(loader.phase(), LoadPhase::Receiving);
    loader
}

/// A loader whose body of `lens` has been written and flushed.
fn extracting(lens: &[usize], total: u64) -> Loader {
    let mut loader = receiving(false, total);
    for len in lens {
        assert_eq!(loader.step(LoadEvent::Chunk { len: *len }), LoadAction::WriteChunk);
        assert_eq!(loader.step(LoadEvent::Completed), LoadAction::ReadChunk);
    }
    assert_eq!(loader.step(LoadEvent::BodyEnded), LoadAction::Flush);
    assert_eq!(loader.step(LoadEvent::Completed), LoadAction::Extract);
    assert_eq!(loader.phase(), LoadPhase::Extracting);
    loader
}

#[test]
fn a_status_that_is_no_success_is_refused() {
    for status in [100u16, 199, 300, 301, 404, 500, 0, 65535] {
        let mut loader = Loader::new(false);
        loader.step(LoadEvent::Completed);
        assert_eq!(
            loader.step(LoadEvent::Response { status, content_length: Some(10) }),
            LoadAction::Finish(Err(LoadError::Status(status)))
        );
        assert_eq!(loader.phase(), LoadPhase::Done);
    }
}

#[test]
fn the_status_is_checked_before_the_length() {
    let mut loader = Loader::new(false);
    loader.step(LoadEvent::Completed);
    assert_eq!(
        loader.step(LoadEvent::Response { status: 404, content_length: None }),
        LoadAction::Finish(Err(LoadError::Status(404)))
    );
}

#[test]
fn a_response_without_length_is_refused() {
    for status in [200u16, 204, 299] {
        let mut loader = Loader::new(false);
        loader.step(LoadEvent::Completed);
        assert_eq!(
            loader.step(LoadEvent::Response { status, content_length: None }),
            LoadAction::Finish(Err(LoadError::MissingLength))
        );
    }
}

#[test]
fn progress_is_reported_after_every_written_chunk() {
    let mut loader = receiving(true, 10);
    let mut written = 0u64;
    let mut last = 0u64;
    for len in [3usize, 0, 5, 2] {
        assert_eq!(loader.step(LoadEvent::Chunk { len }), LoadAction::WriteChunk);
        // nothing is counted before the chunk is written
        assert_eq!(loader.progress().downloaded, written);
        assert_eq!(loader.phase(), LoadPhase::Writing { len });
        written += len as u64;
        let action = loader.step(LoadEvent::Completed);
        assert_eq!(action, LoadAction::Report(CheckpointProgress { downloaded: written, total: 10 }));
        assert!(written >= last);
        last = written;
        assert_eq!(loader.progress(), CheckpointProgress { downloaded: written, total: 10 });
    }
    assert_eq!(last, 10);
    assert_eq!(loader.step(LoadEvent::BodyEnded), LoadAction::Flush);
}

#[test]
fn without_an_observer_nothing_is_reported() {
    let mut loader = receiving(false, 4);
    assert_eq!(loader.step(LoadEvent::Chunk { len: 4 }), LoadAction::WriteChunk);
    assert_eq!(loader.step(LoadEvent::Completed), LoadAction::ReadChunk);
    assert_eq!(loader.progress(), CheckpointProgress { downloaded: 4, total: 4 });
}

#[test]
fn a_whole_load_ends_in_the_first_anchor() {
    let mut loader = extracting(&[6, 4], 10);
    assert_eq!(loader.progress(), CheckpointProgress { downloaded: 10, total: 10 });
    assert_eq!(
        loader.step(LoadEvent::Extracted { anchors: vec![anchor(1, 10), anchor(2, 20)] }),
        LoadAction::RemoveTemp
    );
    assert_eq!(loader.phase(), LoadPhase::Cleaning);
    assert_eq!(loader.step(LoadEvent::Completed), LoadAction::Finish(Ok(anchor(1, 10))));
    assert_eq!(loader.phase(), LoadPhase::Done);
    assert_eq!(loader.step(LoadEvent::Completed), LoadAction::Refuse);
}

#[test]
fn no_anchors_is_an_error_of_its_own() {
    let mut loader = extracting(&[1], 1);
    assert_eq!(loader.step(LoadEvent::Extracted { anchors: Vec::new() }), LoadAction::RemoveTemp);
    assert_eq!(loader.step(LoadEvent::Completed), LoadAction::Finish(Err(LoadError::NoAnchors)));
}

#[test]
fn a_failure_of_the_store_is_passed_on_after_the_cleanup() {
    let mut loader = extracting(&[1], 1);
    assert_eq!(loader.step(failed("corrupt snapshot")), LoadAction::RemoveTemp);
    assert_eq!(
        loader.step(LoadEvent::Completed),
        LoadAction::Finish(Err(LoadError::Store("corrupt snapshot".to_string())))
    );
}

#[test]
fn a_failed_cleanup_does_not_change_the_outcome() {
    let mut loader = extracting(&[1], 1);
    loader.step(LoadEvent::Extracted { anchors: vec![anchor(9, 9)] });
    assert_eq!(loader.step(failed("no such file")), LoadAction::Finish(Ok(anchor(9, 9))));
}

#[test]
fn every_failure_before_the_extraction_ends_the_load() {
    let mut loader = Loader::new(false);
    assert_eq!(
        loader.step(failed("denied")),
        LoadAction::Finish(Err(LoadError::DataDir("denied".to_string())))
    );
    assert_eq!(loader.phase(), LoadPhase::Done);

    let mut loader = Loader::new(false);
    loader.step(LoadEvent::Completed);
    assert_eq!(
        loader.step(failed("dns")),
        LoadAction::Finish(Err(LoadError::Request("dns".to_string())))
    );

    let mut loader = Loader::new(false);
    loader.step(LoadEvent::Completed);
    loader.step(LoadEvent::Response { status: 200, content_length: Some(1) });
    assert_eq!(
        loader.step(failed("disk")),
        LoadAction::Finish(Err(LoadError::CreateFile("disk".to_string())))
    );

    let mut loader = receiving(true, 5);
    assert_eq!(
        loader.step(failed("reset")),
        LoadAction::Finish(Err(LoadError::ReadChunk("reset".to_string())))
    );

    let mut loader = receiving(true, 5);
    loader.step(LoadEvent::Chunk { len: 2 });
    assert_eq!(
        loader.step(failed("full")),
        LoadAction::Finish(Err(LoadError::WriteChunk("full".to_string())))
    );
    assert_eq!(loader.progress().downloaded, 0);

    let mut loader = receiving(true, 5);
    loader.step(LoadEvent::BodyEnded);
    assert_eq!(
        loader.step(failed("io")),
        LoadAction::Finish(Err(LoadError::Flush("io".to_string())))
    );
}

#[test]
fn events_out_of_turn_are_refused() {
    let mut loader = Loader::new(true);
    assert_eq!(loader.step(LoadEvent::BodyEnded), LoadAction::Refuse);
    assert_eq!(loader.step(LoadEvent::Chunk { len: 1 }), LoadAction::Refuse);
    assert_eq!(
        loader.step(LoadEvent::Response { status: 200, content_length: Some(1) }),
        LoadAction::Refuse
    );
    assert_eq!(loader.step(LoadEvent::Extracted { anchors: Vec::new() }), LoadAction::Refuse);
    assert_eq!(loader.phase(), LoadPhase::Preparing);
    let mut loader = receiving(true, 5);
    assert_eq!(loader.step(LoadEvent::Completed), LoadAction::Refuse);
    assert_eq!(loader.phase(), LoadPhase::Receiving);
    let mut loader = extracting(&[], 0);
    assert_eq!(loader.step(LoadEvent::Completed), LoadAction::Refuse);
    assert_eq!(loader.step(LoadEvent::BodyEnded), LoadAction::Refuse);
    assert_eq!(loader.phase(), LoadPhase::Extracting);
}

#[test]
fn a_short_body_is_counted_as_it_is() {
    let loader = extracting(&[3], 5);
    assert_eq!(loader.progress(), CheckpointProgress { downloaded: 3, total: 5 });
}

#[test]
fn prune_point_is_hash_colon_height() {
    let mut hash = [0u8; 32];
    for (i, byte) in hash.iter_mut().enumerate() {
        *byte = (i as u8) * 8 + 7;
    }
    let anchor = RootAnchor { spaces_root: [0u8; 32], block: ChainAnchor { hash, height: 871234 } };
    assert_eq!(
        prune_point(&anchor),
        "070f171f272f373f474f575f676f777f878f979fa7afb7bfc7cfd7dfe7eff7ff:871234"
    );
}

#[test]
fn prune_point_of_the_first_block() {
    let anchor = RootAnchor { spaces_root: [0u8; 32], block: ChainAnchor { hash: [0u8; 32], height: 0 } };
    assert_eq!(
        prune_point(&anchor),
        "0000000000000000000000000000000000000000000000000000000000000000:0"
    );
    let anchor =
        RootAnchor { spaces_root: [0u8; 32], block: ChainAnchor { hash: [0xab; 32], height: u32::MAX } };
    assert_eq!(
        prune_point(&anchor),
        "abababababababababababababababababababababababababababababababab:4294967295"
    );
}

#[test]
fn errors_say_what_went_wrong() {
    assert_eq!(LoadError::DataDir("denied".to_string()).describe(), "denied");
    assert_eq!(LoadError::Request("x".to_string()).describe(), "Failed to send HTTP request");
    assert_eq!(LoadError::Status(404).describe(), "HTTP request failed with status: 404");
    assert_eq!(
        LoadError::MissingLength.describe(),
        "Failed to get content length, does the path exist?"
    );
    assert_eq!(
        LoadError::CreateFile("x".to_string()).describe(),
        "Could not create spaces db file for checkpoint"
    );
    assert_eq!(LoadError::ReadChunk("x".to_string()).describe(), "Failed to read chunk");
    assert_eq!(LoadError::WriteChunk("x".to_string()).describe(), "Failed to write chunk to file");
    assert_eq!(LoadError::Flush("x".to_string()).describe(), "Failed to flush file");
    assert_eq!(LoadError::Store("bad page".to_string()).describe(), "bad page");
    assert_eq!(LoadError::NoAnchors.describe(), "No Anchors found");
}

#[test]
fn file_names() {
    assert_eq!(snapshot_file_name(), "protocol.sdb");
    assert_eq!(anchors_file_name(), "anchors");
}
