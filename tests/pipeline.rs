use drop_downloads::pipeline::{CopyStep, DropDownloadPipeline, DropWriter, COPY_BUF_SIZE};
use drop_downloads::types::{DownloadThreadControlFlag, GameDownloadError, RemoteAccessError};

fn pipeline(size: u64) -> DropDownloadPipeline<Vec<u8>, Vec<u8>> {
    DropDownloadPipeline::new(Vec::new(), DropWriter::new(Vec::new()), size)
}

#[test]
fn stop_before_copy_copies_nothing() {
    let p = pipeline(1000);
    assert_eq!(p.next_step(DownloadThreadControlFlag::Stop), CopyStep::Abandon);
    assert_eq!(p.copied(), 0);
    assert!(!p.is_complete());
}

#[test]
fn copy_stops_at_declared_length() {
    let mut p = pipeline(1000);
    let data = vec![7u8; 1000];
    assert_eq!(p.next_step(DownloadThreadControlFlag::Go), CopyStep::Read(COPY_BUF_SIZE));
    assert_eq!(p.record(&data[..512]).unwrap(), 512);
    assert_eq!(p.next_step(DownloadThreadControlFlag::Go), CopyStep::Read(488));
    assert_eq!(p.record(&data[512..]).unwrap(), 488);
    assert_eq!(p.copied(), 1000);
    assert!(p.is_complete());
    assert_eq!(p.next_step(DownloadThreadControlFlag::Go), CopyStep::Finished);
    assert_eq!(p.size(), 1000);
}

#[test]
fn stop_mid_copy_abandons() {
    let mut p = pipeline(2000);
    p.record(&[1u8; 100]).unwrap();
    assert_eq!(p.next_step(DownloadThreadControlFlag::Stop), CopyStep::Abandon);
    assert_eq!(p.next_step(DownloadThreadControlFlag::Pause), CopyStep::Read(512));
}

#[test]
fn short_read_is_an_error() {
    let mut p = pipeline(10);
    p.record(&[1u8; 4]).unwrap();
    assert_eq!(
        p.record(&[]),
        Err(GameDownloadError::Communication(RemoteAccessError::InvalidResponse))
    );
    assert_eq!(p.copied(), 4);
}

#[test]
fn full_copy_is_finished_even_if_stopped() {
    let mut p = pipeline(600);
    p.record(&[3u8; 512]).unwrap();
    p.record(&[3u8; 88]).unwrap();
    assert_eq!(p.next_step(DownloadThreadControlFlag::Stop), CopyStep::Finished);
}

#[test]
fn stop_before_copy_abandons_empty_body() {
    let p = pipeline(0);
    assert_eq!(p.next_step(DownloadThreadControlFlag::Stop), CopyStep::Abandon);
    assert_eq!(p.copied(), 0);
}

#[test]
fn empty_body_is_finished_at_once() {
    let p = pipeline(0);
    assert_eq!(p.next_step(DownloadThreadControlFlag::Go), CopyStep::Finished);
    assert!(p.is_complete());
}

#[test]
fn writer_hashes_written_bytes() {
    let mut w = DropWriter::new(Vec::<u8>::new());
    w.hash(b"ab");
    w.hash(b"c");
    let d = w.finish();
    let hex: String = d.iter().map(|b| format!("{:02x}", b)).collect();
    assert_eq!(hex, "900150983cd24fb0d6963f7d28e17f72");
}

#[test]
fn pipeline_digest_covers_copied_bytes() {
    let mut p = pipeline(0);
    assert_eq!(p.record(&[]).unwrap(), 0);
    let d = p.finish();
    let hex: String = d.iter().map(|b| format!("{:02x}", b)).collect();
    assert_eq!(hex, "d41d8cd98f00b204e9800998ecf8427e");
}
