use axum_harness::toolchain::{
    arch_label, cosign_args, k6_run_args, nats_archive_name, nats_binary_name, nats_download_url,
    sbom_args, vuln_scan_args, HostOs,
};

#[test]
fn nats_archive_per_platform() {
    assert_eq!(nats_archive_name(HostOs::Linux, arch_label(false)), "nats-server-v2.10.22-linux-amd64.tar.gz");
    assert_eq!(nats_archive_name(HostOs::Darwin, arch_label(true)), "nats-server-v2.10.22-darwin-arm64.tar.gz");
    assert_eq!(nats_archive_name(HostOs::Windows, "amd64"), "nats-server-v2.10.22-windows-amd64.zip");
    assert_eq!(nats_binary_name(HostOs::Windows), "nats-server.exe");
    assert_eq!(nats_binary_name(HostOs::Linux), "nats-server");
}

#[test]
fn nats_url_names_release_and_file() {
    assert_eq!(
        nats_download_url("nats-server-v2.10.22-linux-amd64.tar.gz"),
        "https://github.com/nats-io/nats-server/releases/download/v2.10.22/nats-server-v2.10.22-linux-amd64.tar.gz"
    );
}

#[test]
fn k6_args_pass_settings_as_environment() {
    assert_eq!(
        k6_run_args("http://localhost:3010", "30s", "5", "/tmp/k6-baseline.js"),
        vec![
            "run", "-e", "BASE_URL=http://localhost:3010", "-e", "TEST_DURATION=30s", "-e", "TEST_VUS=5",
            "/tmp/k6-baseline.js"
        ]
    );
}

#[test]
fn vuln_scan_of_workspace_or_image() {
    assert_eq!(
        vuln_scan_args("  ", "1", "/repo"),
        vec!["fs", "--severity", "HIGH,CRITICAL", "--exit-code", "1", "/repo"]
    );
    assert_eq!(
        vuln_scan_args("ghcr.io/x/api:1", "0", "/repo"),
        vec!["image", "--severity", "HIGH,CRITICAL", "--exit-code", "0", "ghcr.io/x/api:1"]
    );
}

#[test]
fn sbom_target_and_output_format() {
    assert_eq!(sbom_args("", "/repo", "spdx-json", "-"), vec!["dir:/repo", "-o", "spdx-json"]);
    assert_eq!(
        sbom_args("api:1", "/repo", "cyclonedx-json", "sbom.json"),
        vec!["api:1", "-o", "cyclonedx-json=sbom.json"]
    );
}

#[test]
fn cosign_sign_or_verify() {
    assert_eq!(cosign_args(false, "api:1"), vec!["sign", "api:1"]);
    assert_eq!(cosign_args(true, "api:1"), vec!["verify", "api:1"]);
}
