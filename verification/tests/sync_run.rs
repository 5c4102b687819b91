use assetsync::digest::hex_of;
use assetsync::json::parse_manifest;
use assetsync::sync::{check_transfer_status, handle_manifest_response, SyncError, SyncRun, SyncStep};
use sha2::Digest;

fn manifest_text_for_four_zero_bytes() -> String {
    let digest = hex_of(&sha2::Sha256::digest(&[0u8; 4]).to_vec());
    format!(
        r#"{{"version":"1","assets":[{{"url":"http://x/a.bin","path":"a.bin","size":4,"checksum":"sha256:{}"}}]}}"#,
        digest
    )
}

/// Drives one full run in memory, returning the written files and events.
fn drive(
    manifest_text: &str,
    fetch: impl Fn(&str) -> Vec<u8>,
) -> Result<(Vec<(String, Vec<u8>)>, Vec<(u64, u64, u64, String)>), SyncError> {
    let mut events: Vec<(u64, u64, u64, String)> = Vec::new();
    let note = |events: &mut Vec<(u64, u64, u64, String)>, e: assetsync::progress::ProgressEvent| {
        events.push((e.bytes_done, e.bytes_total, e.percentage, e.status_message));
    };
    note(&mut events, SyncRun::initial_event());
    let manifest = handle_manifest_response("http://x/assets-list", 200, manifest_text)?;
    let mut run = SyncRun::try_new(manifest).expect("total fits");
    note(&mut events, run.announce_event());
    let mut written: Vec<(String, Vec<u8>)> = Vec::new();
    loop {
        match run.next_step()? {
            SyncStep::Done { event } => {
                note(&mut events, event);
                return Ok((written, events));
            }
            SyncStep::Fetch { url, path, event, .. } => {
                note(&mut events, event);
                let data = fetch(&url);
                // overwrite any earlier content for this path
                written.retain(|w| w.0 != path);
                written.push((path, data.clone()));
                run.complete_asset(&data)?;
            }
        }
    }
}

#[test]
fn scenario_single_asset_success() {
    let text = manifest_text_for_four_zero_bytes();
    let (written, events) = drive(&text, |_| vec![0u8; 4]).expect("run succeeds");
    assert_eq!(written.len(), 1);
    assert_eq!(written[0].0, "a.bin");
    assert_eq!(written[0].1, vec![0u8; 4]);
    let last = events.last().unwrap();
    assert_eq!(last.0, 4);
    assert_eq!(last.1, 4);
    assert_eq!(last.2, 100);
    assert_eq!(last.3, "Download complete!");
}

#[test]
fn scenario_checksum_mismatch_fails_and_names_digests() {
    let text = manifest_text_for_four_zero_bytes();
    let err = drive(&text, |_| vec![9u8; 4]).unwrap_err();
    match err {
        SyncError::ChecksumMismatch { path, expected, actual } => {
            assert_eq!(path, "a.bin");
            assert_eq!(expected, hex_of(&sha2::Sha256::digest(&[0u8; 4]).to_vec()));
            assert_eq!(actual, hex_of(&sha2::Sha256::digest(&[9u8; 4]).to_vec()));
        }
        other => panic!("wrong error: {:?}", other),
    }
}

#[test]
fn mismatch_downloads_no_further_assets() {
    let digest_b = hex_of(&sha2::Sha256::digest(b"B").to_vec());
    let text = format!(
        r#"{{"version":"1","assets":[
            {{"url":"http://x/a","path":"a","size":1,"checksum":"{}"}},
            {{"url":"http://x/b","path":"b","size":1}}
        ]}}"#,
        digest_b
    );
    // the first asset's body does not match its checksum
    let result = drive(&text, |_| b"A".to_vec());
    assert!(matches!(result, Err(SyncError::ChecksumMismatch { .. })));
    // re-drive, counting fetches: the failing asset is fetched, the rest never
    let fetched = std::cell::RefCell::new(Vec::<String>::new());
    let _ = drive(&text, |url| {
        fetched.borrow_mut().push(url.to_string());
        b"A".to_vec()
    });
    assert_eq!(fetched.borrow().as_slice(), &["http://x/a".to_string()]);
}

#[test]
fn scenario_manifest_fetch_http_error() {
    let r = handle_manifest_response("http://x/assets-list", 404, "");
    match r {
        Err(SyncError::ManifestFetchFailed { url, cause }) => {
            assert_eq!(url, "http://x/assets-list");
            assert_eq!(cause, "HTTP 404");
        }
        other => panic!("wrong outcome: {:?}", other),
    }
}

#[test]
fn manifest_parse_failure_is_its_own_error() {
    let r = handle_manifest_response("http://x/m", 200, "not json");
    assert!(matches!(r, Err(SyncError::ManifestParseFailed { .. })));
    let ok = handle_manifest_response("http://x/m", 299, r#"{"version":"1","assets":[]}"#);
    assert!(ok.is_ok());
}

#[test]
fn scenario_escaping_path_is_refused_without_any_fetch() {
    let text = r#"{"version":"1","assets":[{"url":"http://x/p","path":"../../etc/passwd","size":1}]}"#;
    let fetched = std::cell::RefCell::new(0u32);
    let err = drive(text, |_| {
        *fetched.borrow_mut() += 1;
        Vec::new()
    })
    .unwrap_err();
    match err {
        SyncError::InvalidPath { path } => assert_eq!(path, "../../etc/passwd"),
        other => panic!("wrong error: {:?}", other),
    }
    assert_eq!(*fetched.borrow(), 0);
}

#[test]
fn backslash_path_is_refused_without_any_fetch() {
    let text = r#"{"version":"1","assets":[{"url":"http://x/p","path":"a\\b/../../x","size":1}]}"#;
    let fetched = std::cell::RefCell::new(0u32);
    let err = drive(text, |_| {
        *fetched.borrow_mut() += 1;
        Vec::new()
    })
    .unwrap_err();
    match err {
        SyncError::InvalidPath { path } => assert_eq!(path, "a\\b/../../x"),
        other => panic!("wrong error: {:?}", other),
    }
    assert_eq!(*fetched.borrow(), 0);
}

#[test]
fn progress_is_monotone_and_ends_at_the_total() {
    let text = r#"{"version":"1","assets":[
        {"url":"u1","path":"p1","size":1},
        {"url":"u2","path":"p2","size":3},
        {"url":"u3","path":"p3","size":4}
    ]}"#;
    let (_, events) = drive(text, |_| Vec::new()).expect("run succeeds");
    // initial, announce, one per asset, final
    assert_eq!(events.len(), 6);
    for w in events.windows(2) {
        assert!(w[0].0 <= w[1].0);
    }
    assert_eq!(events[1].3, "Downloading 3 assets...");
    assert_eq!(events[2], (0, 8, 0, "Downloading p1 (1/3)...".to_string()));
    assert_eq!(events[3], (1, 8, 12, "Downloading p2 (2/3)...".to_string()));
    assert_eq!(events[4], (4, 8, 50, "Downloading p3 (3/3)...".to_string()));
    assert_eq!(events[5].0, 8);
    assert_eq!(events[5].2, 100);
}

#[test]
fn empty_manifest_still_completes_at_one_hundred_percent() {
    let text = r#"{"version":"1","assets":[]}"#;
    let (written, events) = drive(text, |_| Vec::new()).expect("run succeeds");
    assert!(written.is_empty());
    let last = events.last().unwrap();
    assert_eq!((last.0, last.1, last.2), (0, 0, 100));
}

#[test]
fn running_twice_gives_identical_results() {
    let text = manifest_text_for_four_zero_bytes();
    let first = drive(&text, |_| vec![0u8; 4]).expect("first run");
    let second = drive(&text, |_| vec![0u8; 4]).expect("second run");
    assert_eq!(first.0, second.0);
    assert_eq!(first.1, second.1);
}

#[test]
fn oversized_totals_are_refused_at_construction() {
    let text = format!(
        r#"{{"version":"1","assets":[
            {{"url":"u1","path":"p1","size":{}}},
            {{"url":"u2","path":"p2","size":1}}
        ]}}"#,
        u64::MAX
    );
    let manifest = parse_manifest(&text).expect("parses");
    assert!(SyncRun::try_new(manifest).is_none());
}

#[test]
fn transfer_status_decides_success_range() {
    assert!(check_transfer_status("u", 200).is_ok());
    assert!(check_transfer_status("u", 299).is_ok());
    match check_transfer_status("http://x/a", 500) {
        Err(SyncError::TransferFailed { url, cause }) => {
            assert_eq!(url, "http://x/a");
            assert_eq!(cause, "HTTP 500");
        }
        other => panic!("wrong outcome: {:?}", other),
    }
    assert!(check_transfer_status("u", 199).is_err());
    assert!(check_transfer_status("u", 300).is_err());
}
