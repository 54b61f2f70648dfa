use maps_dispatcher::chunker::Chunker;
use maps_dispatcher::errors::UploadError;
use maps_dispatcher::session::{
    should_put_directly, EmptyStreamMode, UploadConfig, UploadSession, DEFAULT_CHUNK_SIZE,
};

#[test]
fn parts_are_exactly_chunk_size_except_the_last() {
    let mut c = Chunker::new(3);
    let mut all: Vec<Vec<u8>> = Vec::new();
    all.extend(c.push(&[1, 2, 3, 4, 5, 6, 7]));
    if let Some(last) = c.finish() {
        all.push(last);
    }
    assert_eq!(all.len(), 3);
    assert_eq!(all[0], vec![1, 2, 3]);
    assert_eq!(all[1], vec![4, 5, 6]);
    assert_eq!(all[2], vec![7]);
}

#[test]
fn reassembled_parts_reproduce_the_stream() {
    // Chunk boundaries of the incoming stream have no bearing on part
    // boundaries: feed ragged chunks and reassemble.
    let stream: Vec<u8> = (0..=255u8).collect();
    let mut c = Chunker::new(7);
    let mut parts: Vec<Vec<u8>> = Vec::new();
    for piece in stream.chunks(11) {
        parts.extend(c.push(piece));
    }
    if let Some(last) = c.finish() {
        parts.push(last);
    }
    for (i, p) in parts.iter().enumerate() {
        if i + 1 < parts.len() {
            assert_eq!(p.len(), 7);
        } else {
            assert!(p.len() > 0 && p.len() <= 7);
        }
    }
    let rejoined: Vec<u8> = parts.concat();
    assert_eq!(rejoined, stream);
}

#[test]
fn stream_of_exactly_one_chunk_yields_one_part_and_no_empty_tail() {
    let mut c = Chunker::new(4);
    let parts = c.push(&[9, 9, 9, 9]);
    assert_eq!(parts.len(), 1);
    assert_eq!(parts[0].len(), 4);
    assert!(c.finish().is_none());
}

#[test]
fn empty_stream_yields_no_parts() {
    let mut c = Chunker::new(4);
    let parts = c.push(&[]);
    assert!(parts.is_empty());
    assert!(c.finish().is_none());
}

#[test]
fn upload_config_requires_a_key() {
    match UploadConfig::new("bucket".to_string(), None, Some(8), EmptyStreamMode::DirectPut) {
        Err(UploadError::MissingParameter { name }) => assert_eq!(name, "key"),
        _ => panic!("a missing key must be rejected"),
    }
}

#[test]
fn upload_config_rejects_zero_chunk_size() {
    match UploadConfig::new(
        "bucket".to_string(),
        Some("k".to_string()),
        Some(0),
        EmptyStreamMode::DirectPut,
    ) {
        Err(UploadError::InvalidChunkSize) => {}
        _ => panic!("a zero part size must be rejected"),
    }
}

#[test]
fn upload_config_defaults_the_chunk_size() {
    let c = UploadConfig::new(
        "bucket".to_string(),
        Some("k".to_string()),
        None,
        EmptyStreamMode::DirectPut,
    )
    .expect("a keyed configuration must build");
    assert_eq!(c.chunk_size, DEFAULT_CHUNK_SIZE);
    assert_eq!(c.chunk_size, 5 * 1024 * 1024);
    assert_eq!(c.bucket, "bucket");
    assert_eq!(c.key, "k");
}

fn keyed_config(chunk: usize, mode: EmptyStreamMode) -> UploadConfig {
    UploadConfig::new("bucket".to_string(), Some("object".to_string()), Some(chunk), mode)
        .expect("a keyed configuration must build")
}

#[test]
fn session_numbers_parts_from_one_without_gaps() {
    let cfg = keyed_config(4, EmptyStreamMode::DirectPut);
    let mut s = UploadSession::new(&cfg, "upload-1".to_string());
    s.feed(&[1, 2, 3, 4, 5, 6, 7, 8, 9]);
    s.end_stream();
    let mut numbers = Vec::new();
    let mut payloads: Vec<Vec<u8>> = Vec::new();
    loop {
        match s.next_part().expect("the part cap is far away") {
            Some(req) => {
                numbers.push(req.part_number);
                payloads.push(req.data);
                s.record_etag(format!("etag-{}", numbers.len()));
            }
            None => break,
        }
    }
    assert_eq!(numbers, vec![1, 2, 3]);
    assert_eq!(payloads[0], vec![1, 2, 3, 4]);
    assert_eq!(payloads[1], vec![5, 6, 7, 8]);
    assert_eq!(payloads[2], vec![9]);
    let completed = s.completion_parts();
    assert_eq!(completed.len(), 3);
    for (i, part) in completed.iter().enumerate() {
        assert_eq!(part.part_number, i + 1);
        assert_eq!(part.etag, format!("etag-{}", i + 1));
    }
    s.start_completing();
    s.mark_completed();
}

#[test]
fn session_exact_chunk_stream_uploads_one_part_only() {
    let cfg = keyed_config(4, EmptyStreamMode::DirectPut);
    let mut s = UploadSession::new(&cfg, "upload-2".to_string());
    s.feed(&[7, 7, 7, 7]);
    s.end_stream();
    let first = s.next_part().unwrap().expect("one part must be planned");
    assert_eq!(first.part_number, 1);
    assert_eq!(first.data, vec![7, 7, 7, 7]);
    s.record_etag("e1".to_string());
    assert!(s.next_part().unwrap().is_none());
    assert_eq!(s.completion_parts().len(), 1);
}

#[test]
fn empty_stream_direct_put_plans_no_parts() {
    let cfg = keyed_config(4, EmptyStreamMode::DirectPut);
    let mut s = UploadSession::new(&cfg, "upload-3".to_string());
    s.feed(&[]);
    s.end_stream();
    assert!(s.needs_direct_put());
    assert!(s.next_part().unwrap().is_none());
}

#[test]
fn empty_stream_single_empty_part_mode_plans_one_part() {
    let cfg = keyed_config(4, EmptyStreamMode::SingleEmptyPart);
    let mut s = UploadSession::new(&cfg, "upload-4".to_string());
    s.end_stream();
    assert!(!s.needs_direct_put());
    let req = s.next_part().unwrap().expect("one empty part must be planned");
    assert_eq!(req.part_number, 1);
    assert!(req.data.is_empty());
    s.record_etag("e1".to_string());
    assert_eq!(s.completion_parts().len(), 1);
}

#[test]
fn aborted_session_reports_its_phase() {
    let cfg = keyed_config(4, EmptyStreamMode::DirectPut);
    let mut s = UploadSession::new(&cfg, "upload-5".to_string());
    s.feed(&[1, 2]);
    s.abort();
    assert_eq!(s.key(), "object");
    assert_eq!(s.upload_id(), "upload-5");
}

#[test]
fn the_part_cap_is_enforced_at_issue_time() {
    // 10001 one-byte parts: the 10001st exceeds the protocol's cap.
    let cfg = keyed_config(1, EmptyStreamMode::DirectPut);
    let mut s = UploadSession::new(&cfg, "upload-6".to_string());
    s.feed(&vec![0u8; 10001]);
    s.end_stream();
    let mut issued = 0usize;
    loop {
        match s.next_part() {
            Ok(Some(req)) => {
                issued += 1;
                assert_eq!(req.part_number, issued);
                s.record_etag(format!("e{}", issued));
            }
            Ok(None) => panic!("the cap must strike before the parts run out"),
            Err(UploadError::TooManyParts) => break,
            Err(_) => panic!("only the part cap may fail here"),
        }
    }
    assert_eq!(issued, 10000);
    s.abort();
}

#[test]
fn small_files_go_through_a_direct_put() {
    assert!(should_put_directly(Some(10), 100));
    assert!(!should_put_directly(Some(100), 100));
    assert!(!should_put_directly(None, 100));
}
