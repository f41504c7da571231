//! Arguments and names for the supporting tools the repository installs or
//! runs: the NATS server release, the k6 baseline run, vulnerability scans,
//! software bills of materials and image signing.
use vstd::prelude::*;

use crate::gate::string_views;
use crate::text::{chars_of, push_str, string_of, trim, trim_chars};

verus! {

/// The NATS server release that is installed.
pub const NATS_VERSION: &'static str = "2.10.22";

/// The operating systems a NATS release is published for.
#[derive(Debug, Clone, Copy, PartialEq, Eq, Structural)]
pub enum HostOs {
    Darwin,
    Linux,
    Windows,
}

/// The name of an operating system in release file names.
pub open spec fn host_os_label(os: HostOs) -> Seq<char> {
    match os {
        HostOs::Darwin => "darwin"@,
        HostOs::Linux => "linux"@,
        HostOs::Windows => "windows"@,
    }
}

impl HostOs {
    /// The name of the operating system in release file names.
    pub fn label(self) -> (r: &'static str)
        ensures
            r@ == host_os_label(self),
    {
        match self {
            HostOs::Darwin => "darwin",
            HostOs::Linux => "linux",
            HostOs::Windows => "windows",
        }
    }
}

/// The architecture name of a release: `arm64` on aarch64, `amd64` on any
/// other processor.
pub open spec fn arch_label_spec(aarch64: bool) -> Seq<char> {
    if aarch64 {
        "arm64"@
    } else {
        "amd64"@
    }
}

/// The architecture name of a release.
pub fn arch_label(aarch64: bool) -> (r: &'static str)
    ensures
        r@ == arch_label_spec(aarch64),
{
    if aarch64 {
        "arm64"
    } else {
        "amd64"
    }
}

/// The file name of the installed server binary.
pub open spec fn nats_binary_spec(os: HostOs) -> Seq<char> {
    if os == HostOs::Windows {
        "nats-server.exe"@
    } else {
        "nats-server"@
    }
}

/// The file name of the installed server binary.
pub fn nats_binary_name(os: HostOs) -> (r: &'static str)
    ensures
        r@ == nats_binary_spec(os),
{
    match os {
        HostOs::Windows => "nats-server.exe",
        _ => "nats-server",
    }
}

/// The release archive: a zip on Windows, a gzipped tarball elsewhere.
pub open spec fn nats_archive_spec(os: HostOs, arch: Seq<char>) -> Seq<char> {
    "nats-server-v"@ + NATS_VERSION@ + "-"@ + host_os_label(os) + "-"@ + arch + if os
        == HostOs::Windows {
        ".zip"@
    } else {
        ".tar.gz"@
    }
}

/// The release archive's file name.
pub fn nats_archive_name(os: HostOs, arch: &str) -> (r: String)
    ensures
        r@ == nats_archive_spec(os, arch@),
{
    let mut out: Vec<char> = Vec::new();
    push_str(&mut out, "nats-server-v");
    push_str(&mut out, NATS_VERSION);
    push_str(&mut out, "-");
    push_str(&mut out, os.label());
    push_str(&mut out, "-");
    push_str(&mut out, arch);
    match os {
        HostOs::Windows => push_str(&mut out, ".zip"),
        _ => push_str(&mut out, ".tar.gz"),
    }
    string_of(&out)
}

/// Where a release archive is downloaded from.
pub open spec fn nats_url_spec(file_name: Seq<char>) -> Seq<char> {
    "https://github.com/nats-io/nats-server/releases/download/v"@ + NATS_VERSION@ + "/"@
        + file_name
}

/// Where a release archive is downloaded from.
pub fn nats_download_url(file_name: &str) -> (r: String)
    ensures
        r@ == nats_url_spec(file_name@),
{
    let mut out: Vec<char> = Vec::new();
    push_str(&mut out, "https://github.com/nats-io/nats-server/releases/download/v");
    push_str(&mut out, NATS_VERSION);
    push_str(&mut out, "/");
    push_str(&mut out, file_name);
    string_of(&out)
}

/// `prefix` followed by `value`.
fn prefixed(prefix: &str, value: &str) -> (r: String)
    ensures
        r@ == prefix@ + value@,
{
    let mut out: Vec<char> = Vec::new();
    push_str(&mut out, prefix);
    push_str(&mut out, value);
    string_of(&out)
}

/// The arguments of the k6 baseline run: the base address, duration and
/// virtual users as environment values, then the script.
pub open spec fn k6_args_spec(
    base_url: Seq<char>,
    duration: Seq<char>,
    vus: Seq<char>,
    script: Seq<char>,
) -> Seq<Seq<char>> {
    seq![
        "run"@,
        "-e"@,
        "BASE_URL="@ + base_url,
        "-e"@,
        "TEST_DURATION="@ + duration,
        "-e"@,
        "TEST_VUS="@ + vus,
        script,
    ]
}

/// The arguments of the k6 baseline run.
pub fn k6_run_args(base_url: &str, duration: &str, vus: &str, script: &str) -> (r: Vec<String>)
    ensures
        string_views(r@) == k6_args_spec(base_url@, duration@, vus@, script@),
{
    let mut out: Vec<String> = Vec::new();
    out.push("run".to_string());
    out.push("-e".to_string());
    out.push(prefixed("BASE_URL=", base_url));
    out.push("-e".to_string());
    out.push(prefixed("TEST_DURATION=", duration));
    out.push("-e".to_string());
    out.push(prefixed("TEST_VUS=", vus));
    out.push(script.to_string());
    assert(string_views(out@) =~= k6_args_spec(base_url@, duration@, vus@, script@));
    out
}

/// The trivy arguments: a filesystem scan of the workspace when no image is
/// named (a blank name counts as none), else a scan of the image; high and
/// critical findings only, with the given exit code.
pub open spec fn vuln_scan_spec(image: Seq<char>, exit_code: Seq<char>, root: Seq<char>) -> Seq<
    Seq<char>,
> {
    if trim(image).len() == 0 {
        seq!["fs"@, "--severity"@, "HIGH,CRITICAL"@, "--exit-code"@, exit_code, root]
    } else {
        seq!["image"@, "--severity"@, "HIGH,CRITICAL"@, "--exit-code"@, exit_code, image]
    }
}

/// Whether a named image is blank.
fn is_blank(s: &str) -> (r: bool)
    ensures
        r == (trim(s@).len() == 0),
{
    trim_chars(&chars_of(s)).len() == 0
}

/// The trivy arguments of a scan.
pub fn vuln_scan_args(image: &str, exit_code: &str, root: &str) -> (r: Vec<String>)
    ensures
        string_views(r@) == vuln_scan_spec(image@, exit_code@, root@),
{
    let blank = is_blank(image);
    let mut out: Vec<String> = Vec::new();
    if blank {
        out.push("fs".to_string());
    } else {
        out.push("image".to_string());
    }
    out.push("--severity".to_string());
    out.push("HIGH,CRITICAL".to_string());
    out.push("--exit-code".to_string());
    out.push(exit_code.to_string());
    if blank {
        out.push(root.to_string());
    } else {
        out.push(image.to_string());
    }
    assert(string_views(out@) =~= vuln_scan_spec(image@, exit_code@, root@));
    out
}

/// The syft arguments: the workspace directory when no image is named (a
/// blank name counts as none), else the image; then the output format, with
/// `=file` unless the output is `-`.
pub open spec fn sbom_spec(image: Seq<char>, root: Seq<char>, format: Seq<char>, output: Seq<char>) -> Seq<
    Seq<char>,
> {
    seq![
        if trim(image).len() == 0 {
            "dir:"@ + root
        } else {
            image
        },
        "-o"@,
        if output == "-"@ {
            format
        } else {
            format + "="@ + output
        },
    ]
}

/// The syft arguments of a bill of materials.
pub fn sbom_args(image: &str, root: &str, format: &str, output: &str) -> (r: Vec<String>)
    ensures
        string_views(r@) == sbom_spec(image@, root@, format@, output@),
{
    let target = if is_blank(image) {
        prefixed("dir:", root)
    } else {
        image.to_string()
    };
    let out_chars = chars_of(output);
    let to_stdout = out_chars.len() == 1 && out_chars[0] == '-';
    proof {
        reveal_strlit("-");
        if to_stdout {
            assert(output@ =~= "-"@);
        }
    }
    let output_format = if to_stdout {
        format.to_string()
    } else {
        let mut cs: Vec<char> = Vec::new();
        push_str(&mut cs, format);
        push_str(&mut cs, "=");
        push_str(&mut cs, output);
        string_of(&cs)
    };
    let mut out: Vec<String> = Vec::new();
    out.push(target);
    out.push("-o".to_string());
    out.push(output_format);
    assert(string_views(out@) =~= sbom_spec(image@, root@, format@, output@));
    out
}

/// The cosign arguments that sign an image, or verify its signature.
pub open spec fn cosign_spec(verify: bool, image: Seq<char>) -> Seq<Seq<char>> {
    seq![if verify { "verify"@ } else { "sign"@ }, image]
}

/// The cosign arguments of a signing or a verification.
pub fn cosign_args(verify: bool, image: &str) -> (r: Vec<String>)
    ensures
        string_views(r@) == cosign_spec(verify, image@),
{
    let mut out: Vec<String> = Vec::new();
    if verify {
        out.push("verify".to_string());
    } else {
        out.push("sign".to_string());
    }
    out.push(image.to_string());
    assert(string_views(out@) =~= cosign_spec(verify, image@));
    out
}

} // verus!
