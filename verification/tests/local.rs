use tonemate::local::{
    binary_asset, binary_size, binary_url, download_end, download_start, endpoint, is_downloading,
    model_error, model_state, model_urls, port, resume_offset, server_args, server_binary,
    server_check, state_after, state_string, DownloadStart, DownloadState, Platform, MODEL_SIZE,
    MODEL_URL_CANONICAL, MODEL_URL_MIRROR,
};

#[test]
fn resume_continues_only_when_the_server_honours_range() {
    assert_eq!(resume_offset(100, true), 100);
    assert_eq!(resume_offset(100, false), 0);
}

#[test]
fn state_string_distinguishes_the_download_moments() {
    assert_eq!(state_string(0, false), "missing");
    assert_eq!(state_string(MODEL_SIZE, false), "downloaded");
    assert_eq!(state_string(0, true), "downloading");
    assert_eq!(state_string(MODEL_SIZE - 1, false), "missing");
}

#[test]
fn a_failed_download_reads_as_an_error_until_the_next_one() {
    let failed = state_after(&Err("boom".to_string()));
    assert_eq!(model_state(&failed, MODEL_SIZE), "error");
    assert_eq!(model_error(&failed), Some("boom".to_string()));
    assert!(!is_downloading(&failed));

    let done = state_after(&Ok(()));
    assert_eq!(model_state(&done, MODEL_SIZE), "downloaded");
    assert_eq!(model_error(&done), None);
    assert_eq!(model_state(&DownloadState::Downloading, 0), "downloading");
    assert!(is_downloading(&DownloadState::Downloading));
    assert!(matches!(DownloadState::default(), DownloadState::Idle));
}

#[test]
fn a_download_asks_for_the_rest_of_the_file() {
    match download_start(1234, MODEL_SIZE) {
        DownloadStart::Fetch(range) => assert_eq!(range, "bytes=1234-"),
        DownloadStart::Complete => panic!("expected a fetch"),
    }
    match download_start(0, 10) {
        DownloadStart::Fetch(range) => assert_eq!(range, "bytes=0-"),
        DownloadStart::Complete => panic!("expected a fetch"),
    }
    assert!(matches!(download_start(MODEL_SIZE, MODEL_SIZE), DownloadStart::Complete));
    assert!(matches!(download_start(MODEL_SIZE + 1, MODEL_SIZE), DownloadStart::Complete));
}

#[test]
fn a_short_download_is_reported_with_both_sizes() {
    assert_eq!(download_end(10, 10), Ok(()));
    assert_eq!(download_end(9, 10), Err("下载不完整：9/10 字节".to_string()));
    assert_eq!(
        download_end(0, 18446744073709551615),
        Err("下载不完整：0/18446744073709551615 字节".to_string())
    );
}

#[test]
fn the_port_takes_a_valid_override_only() {
    assert_eq!(port(None), 8931);
    assert_eq!(port(Some(String::new())), 8931);
    assert_eq!(port(Some("9000".to_string())), 9000);
    assert_eq!(port(Some("65535".to_string())), 65535);
    assert_eq!(port(Some("65536".to_string())), 8931);
    assert_eq!(port(Some("x1".to_string())), 8931);
    assert_eq!(port(Some("-1".to_string())), 8931);
    assert_eq!(port(Some("0".to_string())), 0);
    assert_eq!(port(Some("+80".to_string())), 80);
}

#[test]
fn the_local_endpoint_is_on_loopback() {
    let e = endpoint(8931);
    assert_eq!(e.base_url, "http://127.0.0.1:8931/v1");
    assert_eq!(e.model, "local");
    assert_eq!(e.api_key, "");
    assert_eq!(endpoint(0).base_url, "http://127.0.0.1:0/v1");
}

#[test]
fn gpu_offload_is_asked_for_only_when_configured() {
    assert_eq!(
        server_args(8931, None),
        vec!["--host", "127.0.0.1", "--port", "8931", "--ctx-size", "8192"]
    );
    assert_eq!(server_args(8931, Some("0".to_string())).len(), 6);
    assert_eq!(
        server_args(1, Some("99".to_string())),
        vec!["--host", "127.0.0.1", "--port", "1", "--ctx-size", "8192", "--n-gpu-layers", "99"]
    );
}

#[test]
fn the_download_urls_put_an_override_first() {
    assert_eq!(model_urls(None), vec![MODEL_URL_MIRROR, MODEL_URL_CANONICAL]);
    assert_eq!(model_urls(Some(String::new())).len(), 2);
    assert_eq!(
        model_urls(Some("http://x".to_string())),
        vec!["http://x", MODEL_URL_MIRROR, MODEL_URL_CANONICAL]
    );
}

#[test]
fn the_release_archive_is_pinned_per_platform() {
    assert_eq!(
        binary_url(None, Platform::MacArm64),
        "https://github.com/ggml-org/llama.cpp/releases/download/b10936/llama-b10936-bin-macos-arm64.tar.gz"
    );
    assert_eq!(binary_url(Some("http://y".to_string()), Platform::WindowsX64), "http://y");
    assert_eq!(binary_asset(Platform::WindowsX64), "llama-b10936-bin-win-cpu-x64.zip");
    assert_eq!(binary_size(Platform::MacX64), 11_194_813);
    assert_eq!(server_binary(Platform::WindowsX64), "llama-server.exe");
    assert_eq!(server_binary(Platform::MacArm64), "llama-server");
}

#[test]
fn the_server_starts_only_with_the_model_on_disk() {
    assert!(server_check(true).is_ok());
    assert!(server_check(false).is_err());
}
