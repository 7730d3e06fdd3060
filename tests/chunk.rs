use drop_downloads::chunk::{check_checksum, check_response, checksum_matches, chunk_url, should_start, DropDownloadContext};
use drop_downloads::types::{DownloadThreadControlFlag, GameDownloadError, RemoteAccessError};

fn ctx(index: usize) -> DropDownloadContext {
    DropDownloadContext {
        game_id: "g1".to_string(),
        version: "1.0 beta".to_string(),
        file_name: "bin/game&data.pak".to_string(),
        index,
        path: "/tmp/game.pak".to_string(),
        offset: 0,
        permissions: 0o755,
        checksum: String::new(),
    }
}

#[test]
fn chunk_url_encodes_untrusted_parts() {
    let u = chunk_url("https://drop.example.com", &ctx(12)).unwrap();
    assert_eq!(
        u,
        "https://drop.example.com/api/v1/client/chunk?id=g1&version=1.0%20beta&name=bin%2Fgame%26data.pak&chunk=12"
    );
    let u = chunk_url("https://drop.example.com/some/path", &ctx(0)).unwrap();
    assert!(u.ends_with("&chunk=0"));
    assert!(u.starts_with("https://drop.example.com/api/v1/client/chunk?"));
}

#[test]
fn chunk_url_rejects_bad_base() {
    match chunk_url("not a url", &ctx(1)) {
        Err(GameDownloadError::Communication(RemoteAccessError::ParsingError(_))) => {}
        other => panic!("unexpected {:?}", other),
    }
}

#[test]
fn response_status_and_length_are_checked() {
    assert_eq!(
        check_response(404, Some(5), "missing".to_string()),
        Err(GameDownloadError::Communication(RemoteAccessError::InvalidCodeError(404, "missing".to_string())))
    );
    assert_eq!(
        check_response(200, None, String::new()),
        Err(GameDownloadError::Communication(RemoteAccessError::InvalidResponse))
    );
    assert_eq!(check_response(200, Some(42), String::new()), Ok(42));
}

#[test]
fn stopped_chunk_is_not_started() {
    assert!(!should_start(DownloadThreadControlFlag::Stop));
    assert!(should_start(DownloadThreadControlFlag::Go));
}

#[test]
fn checksum_is_compared_as_lowercase_hex() {
    let d: [u8; 16] = [
        0x90, 0x01, 0x50, 0x98, 0x3c, 0xd2, 0x4f, 0xb0, 0xd6, 0x96, 0x3f, 0x7d, 0x28, 0xe1, 0x7f, 0x72,
    ];
    assert!(checksum_matches(&d, "900150983cd24fb0d6963f7d28e17f72"));
    assert!(!checksum_matches(&d, "900150983CD24FB0D6963F7D28E17F72"));
    assert!(!checksum_matches(&d, "900150983cd24fb0d6963f7d28e17f7"));
    assert_eq!(check_checksum(&d, "900150983cd24fb0d6963f7d28e17f72"), Ok(()));
    assert_eq!(check_checksum(&d, "00"), Err(GameDownloadError::Checksum));
}
