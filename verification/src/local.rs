//! Local translation through a downloaded GGUF model running under llama.cpp's
//! `llama-server`: where both come from, how a download is resumed and judged,
//! what the settings window is told about it, and how the server is started.
use vstd::prelude::*;
use crate::decimal::{decimal, parse_u16, parse_u16_of, push_decimal};
use crate::json::Json;
use crate::provider::{env_or, opt_text, or_fallback, Endpoint};
use crate::text::{push_str, same_text, string_of};

verus! {

/// The model weights' file name.
pub const MODEL_FILE: &'static str = "Hy-MT2-1.8B-1.25Bit.gguf";

/// The model's size in bytes; a file of any other size is not the model.
pub const MODEL_SIZE: u64 = 461_860_800;

/// Where the model is fetched from: a mirror first, since the canonical host
/// is not reachable from everywhere.
pub const MODEL_URL_MIRROR: &'static str = "https://hf-mirror.com/tencent/Hy-MT2-1.8B-1.25Bit-GGUF/resolve/main/Hy-MT2-1.8B-1.25Bit.gguf";

pub const MODEL_URL_CANONICAL: &'static str = "https://huggingface.co/tencent/Hy-MT2-1.8B-1.25Bit-GGUF/resolve/main/Hy-MT2-1.8B-1.25Bit.gguf";

/// The llama.cpp release this build pins: recent enough for the
/// `hunyuan-dense` architecture and 1.25-bit quantization.
pub const LLAMA_CPP_TAG: &'static str = "b10936";

/// The platforms a llama.cpp build is published for and pinned here.
#[derive(Debug, Clone, Copy, PartialEq, Eq, Structural)]
pub enum Platform {
    WindowsX64,
    MacArm64,
    MacX64,
}

/// The archive holding llama.cpp for a platform.
pub open spec fn binary_asset_of(p: Platform) -> Seq<char> {
    match p {
        Platform::WindowsX64 => "llama-b10936-bin-win-cpu-x64.zip"@,
        Platform::MacArm64 => "llama-b10936-bin-macos-arm64.tar.gz"@,
        Platform::MacX64 => "llama-b10936-bin-macos-x64.tar.gz"@,
    }
}

pub fn binary_asset(p: Platform) -> (r: &'static str)
    ensures
        r@ == binary_asset_of(p),
{
    match p {
        Platform::WindowsX64 => "llama-b10936-bin-win-cpu-x64.zip",
        Platform::MacArm64 => "llama-b10936-bin-macos-arm64.tar.gz",
        Platform::MacX64 => "llama-b10936-bin-macos-x64.tar.gz",
    }
}

/// The archive's expected size in bytes.
pub fn binary_size(p: Platform) -> (r: u64)
    ensures
        r == match p {
            Platform::WindowsX64 => 18_426_326u64,
            Platform::MacArm64 => 11_146_651u64,
            Platform::MacX64 => 11_194_813u64,
        },
{
    match p {
        Platform::WindowsX64 => 18_426_326,
        Platform::MacArm64 => 11_146_651,
        Platform::MacX64 => 11_194_813,
    }
}

/// The `llama-server` executable's name after extraction.
pub fn server_binary(p: Platform) -> (r: &'static str)
    ensures
        r@ == if p == Platform::WindowsX64 {
            "llama-server.exe"@
        } else {
            "llama-server"@
        },
{
    match p {
        Platform::WindowsX64 => "llama-server.exe",
        _ => "llama-server",
    }
}

/// Where the llama.cpp archive is fetched from: the override when one is set
/// and non-empty, the pinned release otherwise.
pub fn binary_url(override_url: Option<String>, p: Platform) -> (r: String)
    ensures
        r@ == or_fallback(
            opt_text(override_url),
            "https://github.com/ggml-org/llama.cpp/releases/download/"@ + LLAMA_CPP_TAG@ + "/"@
                + binary_asset_of(p),
        ),
{
    let mut release: Vec<char> = Vec::new();
    push_str(&mut release, "https://github.com/ggml-org/llama.cpp/releases/download/");
    push_str(&mut release, LLAMA_CPP_TAG);
    push_str(&mut release, "/");
    push_str(&mut release, binary_asset(p));
    let release = string_of(&release);
    env_or(override_url, release.as_str())
}

/// The URLs a model download tries, in order: the override when it is set and
/// non-empty, then the mirror, then the canonical host.
pub open spec fn model_urls_of(override_url: Option<Seq<char>>) -> Seq<Seq<char>> {
    let pinned = seq![MODEL_URL_MIRROR@, MODEL_URL_CANONICAL@];
    match override_url {
        Some(u) => if u.len() > 0 {
            seq![u] + pinned
        } else {
            pinned
        },
        None => pinned,
    }
}

pub fn model_urls(override_url: Option<String>) -> (r: Vec<String>)
    ensures
        r@.map_values(|s: String| s@) == model_urls_of(opt_text(override_url)),
{
    let mut urls: Vec<String> = Vec::new();
    if let Some(u) = override_url {
        if !u.as_str().is_empty() {
            urls.push(u);
        }
    }
    urls.push(MODEL_URL_MIRROR.to_owned());
    urls.push(MODEL_URL_CANONICAL.to_owned());
    assert(urls@.map_values(|s: String| s@) =~= model_urls_of(opt_text(override_url)));
    urls
}

/// What a download is doing, if anything. The filesystem is the source of
/// truth for "downloaded"; this only distinguishes the transient moments.
pub enum DownloadState {
    Idle,
    Downloading,
    Error(String),
}

impl Default for DownloadState {
    fn default() -> (s: Self)
        ensures
            s is Idle,
    {
        DownloadState::Idle
    }
}

pub fn is_downloading(state: &DownloadState) -> (r: bool)
    ensures
        r == (*state is Downloading),
{
    matches!(state, DownloadState::Downloading)
}

/// The state once a download has ended.
pub fn state_after(result: &Result<(), String>) -> (s: DownloadState)
    ensures
        match result {
            Ok(()) => s is Idle,
            Err(e) => s matches DownloadState::Error(m) && m@ == e@,
        },
{
    match result {
        Ok(()) => DownloadState::Idle,
        Err(e) => DownloadState::Error(e.clone()),
    }
}

/// The state string the settings window renders, from the size on disk and
/// whether a download is running.
pub open spec fn state_string_of(size_on_disk: u64, downloading: bool) -> Seq<char> {
    if downloading {
        "downloading"@
    } else if size_on_disk == MODEL_SIZE {
        "downloaded"@
    } else {
        "missing"@
    }
}

pub fn state_string(size_on_disk: u64, downloading: bool) -> (r: String)
    ensures
        r@ == state_string_of(size_on_disk, downloading),
{
    if downloading {
        "downloading".to_owned()
    } else if size_on_disk == MODEL_SIZE {
        "downloaded".to_owned()
    } else {
        "missing".to_owned()
    }
}

/// The model's state: `error` after a failed download, otherwise as
/// [`state_string`] says.
pub fn model_state(state: &DownloadState, size_on_disk: u64) -> (r: String)
    ensures
        r@ == if *state is Error {
            "error"@
        } else {
            state_string_of(size_on_disk, *state is Downloading)
        },
{
    match state {
        DownloadState::Error(_) => "error".to_owned(),
        _ => state_string(size_on_disk, is_downloading(state)),
    }
}

/// The message of a failed download, if the last one failed.
pub fn model_error(state: &DownloadState) -> (r: Option<String>)
    ensures
        match state {
            DownloadState::Error(m) => r matches Some(s) && s@ == m@,
            _ => r is None,
        },
{
    match state {
        DownloadState::Error(message) => Some(message.clone()),
        _ => None,
    }
}

/// Where a resumed download continues from. `status_206` says the server
/// honoured the `Range` header; a 200 means it ignored it and the file must be
/// restarted from zero.
pub fn resume_offset(existing: u64, status_206: bool) -> (r: u64)
    ensures
        r == (if status_206 { existing } else { 0 }),
{
    if status_206 {
        existing
    } else {
        0
    }
}

/// How a download begins, given what a `.part` file already holds.
pub enum DownloadStart {
    /// Fully downloaded but never renamed (a crash at the very end).
    Complete,
    /// Ask for the rest with this `Range` header value.
    Fetch(String),
}

pub fn download_start(existing: u64, total: u64) -> (r: DownloadStart)
    ensures
        existing >= total ==> r is Complete,
        existing < total ==> (r matches DownloadStart::Fetch(range) && range@ == "bytes="@ + decimal(
            existing as nat,
        ) + "-"@),
{
    if existing >= total {
        DownloadStart::Complete
    } else {
        let mut range: Vec<char> = Vec::new();
        push_str(&mut range, "bytes=");
        push_decimal(&mut range, existing);
        push_str(&mut range, "-");
        DownloadStart::Fetch(string_of(&range))
    }
}

/// A finished transfer is good only if it holds exactly the expected bytes.
pub fn download_end(downloaded: u64, total: u64) -> (r: Result<(), String>)
    ensures
        downloaded == total ==> r is Ok,
        downloaded != total ==> (r matches Err(m) && m@ == "下载不完整："@ + decimal(downloaded as nat)
            + "/"@ + decimal(total as nat) + " 字节"@),
{
    if downloaded == total {
        Ok(())
    } else {
        let mut m: Vec<char> = Vec::new();
        push_str(&mut m, "下载不完整：");
        push_decimal(&mut m, downloaded);
        push_str(&mut m, "/");
        push_decimal(&mut m, total);
        push_str(&mut m, " 字节");
        Err(string_of(&m))
    }
}

/// The port `llama-server` listens on: the override when it is set, non-empty
/// and a valid port number, 8931 otherwise.
pub open spec fn port_of(value: Option<Seq<char>>) -> u16 {
    match parse_u16_of(or_fallback(value, "8931"@)) {
        Some(p) => p,
        None => 8931,
    }
}

pub fn port(value: Option<String>) -> (r: u16)
    ensures
        r == port_of(opt_text(value)),
{
    let text = env_or(value, "8931");
    match parse_u16(text.as_str()) {
        Some(p) => p,
        None => 8931,
    }
}

/// The OpenAI-compatible endpoint the local server offers on `port`.
pub fn endpoint(port: u16) -> (e: Endpoint)
    ensures
        e.base_url@ == "http://127.0.0.1:"@ + decimal(port as nat) + "/v1"@,
        e.model@ == "local"@,
        e.api_key@ == ""@,
        e.max_tokens_field@ == "max_tokens"@,
        e.extra matches Json::Object(members) && members@.len() == 0,
{
    let mut url: Vec<char> = Vec::new();
    push_str(&mut url, "http://127.0.0.1:");
    push_decimal(&mut url, port as u64);
    push_str(&mut url, "/v1");
    Endpoint {
        base_url: string_of(&url),
        model: "local".to_owned(),
        api_key: "".to_owned(),
        max_tokens_field: "max_tokens",
        extra: Json::Object(Vec::new()),
    }
}

/// The server's arguments after `--model <path>`: loopback only, the port, an
/// 8192-token context, and GPU offload only when a layer count other than `0`
/// is configured.
pub open spec fn server_args_of(port: u16, n_gpu_layers: Option<Seq<char>>) -> Seq<Seq<char>> {
    let base = seq!["--host"@, "127.0.0.1"@, "--port"@, decimal(port as nat), "--ctx-size"@, "8192"@];
    let ngl = or_fallback(n_gpu_layers, "0"@);
    if ngl == "0"@ {
        base
    } else {
        base + seq!["--n-gpu-layers"@, ngl]
    }
}

pub fn server_args(port: u16, n_gpu_layers: Option<String>) -> (r: Vec<String>)
    ensures
        r@.map_values(|s: String| s@) == server_args_of(port, opt_text(n_gpu_layers)),
{
    let mut port_text: Vec<char> = Vec::new();
    push_decimal(&mut port_text, port as u64);
    let mut args: Vec<String> = Vec::new();
    args.push("--host".to_owned());
    args.push("127.0.0.1".to_owned());
    args.push("--port".to_owned());
    args.push(string_of(&port_text));
    args.push("--ctx-size".to_owned());
    args.push("8192".to_owned());
    let ngl = env_or(n_gpu_layers, "0");
    if !same_text(ngl.as_str(), "0") {
        args.push("--n-gpu-layers".to_owned());
        args.push(ngl);
    }
    assert(args@.map_values(|s: String| s@) =~= server_args_of(port, opt_text(n_gpu_layers)));
    args
}

/// The server is only started once the model is on disk.
pub fn server_check(model_exists: bool) -> (r: Result<(), String>)
    ensures
        model_exists ==> r is Ok,
        !model_exists ==> (r matches Err(m) && m@ == "本地模型尚未下载，请先在设置中选择「本地模型」触发下载"@),
{
    if model_exists {
        Ok(())
    } else {
        Err("本地模型尚未下载，请先在设置中选择「本地模型」触发下载".to_owned())
    }
}

} // verus!
