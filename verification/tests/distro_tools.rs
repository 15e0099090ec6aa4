use tuff_radical::distro::{
    count_render_nodes, parse_package_lines, parse_physical_devices, probe_after_failed_run,
    probe_from_summary, probe_without_vulkaninfo, shell_quote, vulkan_state_content,
    vulkan_report_line, vulkan_status, bool_as_int,
};
use tuff_radical::release::{
    groups_or_default, merge_packages, package_manifest, release_manifest, render_package_list,
    sha256_hex, sha256sums_line, OutputFormat,
};
use tuff_radical::text::{push_decimal, to_hex_lower};

#[test]
fn strips_comments_and_blanks() {
    let parsed = parse_package_lines("\n  foo  \nbar # keep\n# comment only\nbaz#inline\n\n");
    assert_eq!(parsed, vec!["foo", "bar", "baz"]);
}

#[test]
fn shell_quotes_single_quotes() {
    assert_eq!(shell_quote("a'b"), "'a'\"'\"'b'");
}

#[test]
fn keeps_only_physical_vulkan_devices() {
    let devices = parse_physical_devices(
        "GPU0:\n    deviceType = PHYSICAL_DEVICE_TYPE_INTEGRATED_GPU\n    deviceName = AMD Radeon Graphics\nGPU1:\n    deviceType = PHYSICAL_DEVICE_TYPE_CPU\n    deviceName = llvmpipe\n",
    );
    assert_eq!(devices.len(), 1);
    assert_eq!(devices[0].name, "AMD Radeon Graphics");
}

#[test]
fn unnamed_discrete_gpu_gets_placeholder_name() {
    let devices = parse_physical_devices("GPU0:\n deviceType = PHYSICAL_DEVICE_TYPE_DISCRETE_GPU\n");
    assert_eq!(devices.len(), 1);
    assert_eq!(devices[0].name, "unnamed-vulkan-device");
}

#[test]
fn plain_shell_words_are_only_wrapped() {
    assert_eq!(shell_quote("ready"), "'ready'");
    assert_eq!(shell_quote(""), "''");
}

#[test]
fn bool_as_int_maps_to_one_and_zero() {
    assert_eq!(bool_as_int(true), 1);
    assert_eq!(bool_as_int(false), 0);
}

#[test]
fn vulkan_status_follows_counts() {
    assert_eq!(vulkan_status(0, 3).as_str(), "no-vulkan-device");
    assert_eq!(vulkan_status(2, 0).as_str(), "no-render-node");
    assert_eq!(vulkan_status(1, 1).as_str(), "ready");
}

#[test]
fn ready_probe_writes_full_state_file() {
    let probe = probe_from_summary(
        "GPU0:\n    deviceType = PHYSICAL_DEVICE_TYPE_INTEGRATED_GPU\n    deviceName = AMD Radeon Graphics\n",
        2,
    );
    assert!(probe.offload_enabled);
    assert_eq!(probe.status.as_str(), "ready");
    assert_eq!(vulkan_report_line(&probe), "[SUCCESS] Vulkan ACTIVE. devices=1 render-nodes=2 names=AMD Radeon Graphics");
    assert_eq!(probe.device_count, 1);
    assert_eq!(
        vulkan_state_content(&probe),
        "TUFF_VULKAN_OFFLOAD=1\nTUFF_INTEL_COMPUTE_ACTIVE=1\nTUFF_VULKAN_STATUS='ready'\nTUFF_VULKAN_DEVICE_COUNT=1\nTUFF_VULKAN_RENDER_NODE_COUNT=2\nTUFF_VULKAN_DEVICE_NAMES='AMD Radeon Graphics'\nRADV_PERFTEST='aco,nv_ms'\n"
    );
}

#[test]
fn missing_vulkaninfo_state_lists_no_devices() {
    let probe = probe_without_vulkaninfo(0);
    assert_eq!(
        vulkan_state_content(&probe),
        "TUFF_VULKAN_OFFLOAD=0\nTUFF_INTEL_COMPUTE_ACTIVE=0\nTUFF_VULKAN_STATUS='missing-vulkaninfo'\nTUFF_VULKAN_DEVICE_COUNT=0\nTUFF_VULKAN_RENDER_NODE_COUNT=0\nTUFF_VULKAN_DEVICE_NAMES='none'\nRADV_PERFTEST='aco,nv_ms'\n"
    );
    let failed = probe_after_failed_run(4);
    assert_eq!(failed.status.as_str(), "vulkaninfo-failed");
    assert_eq!(vulkan_report_line(&failed), "[WARN] vulkaninfo failed after detecting 4 render node(s). GPU offload disabled.");
    assert_eq!(vulkan_report_line(&probe), "[WARN] vulkaninfo is missing. render-nodes=0 GPU offload disabled.");
    assert_eq!(failed.render_node_count, 4);
    assert!(!failed.offload_enabled);
}

#[test]
fn two_gpus_are_joined_with_semicolons_and_gpus_without_nodes_stay_off() {
    let probe = probe_from_summary(
        "GPU0:\n deviceType = PHYSICAL_DEVICE_TYPE_DISCRETE_GPU\n deviceName = A\nGPU1:\n deviceType = PHYSICAL_DEVICE_TYPE_INTEGRATED_GPU\n deviceName = B\n",
        0,
    );
    assert_eq!(probe.status.as_str(), "no-render-node");
    assert_eq!(vulkan_report_line(&probe), "[WARN] Vulkan reported 2 device(s), but /dev/dri/renderD* is missing.");
    let none = probe_from_summary("", 3);
    assert_eq!(vulkan_report_line(&none), "[INFO] No Vulkan-compatible GPU detected. render-nodes=3 CPU fallback remains active.");
    assert!(!probe.offload_enabled);
    let text = vulkan_state_content(&probe);
    assert!(text.contains("TUFF_VULKAN_DEVICE_NAMES='A;B'\n"));
    assert!(text.contains("TUFF_VULKAN_DEVICE_COUNT=2\n"));
}

#[test]
fn render_nodes_are_counted_by_prefix() {
    let entries = vec![
        "card0".to_string(),
        "renderD128".to_string(),
        "by-path".to_string(),
        "renderD129".to_string(),
        "render".to_string(),
    ];
    assert_eq!(count_render_nodes(&entries), 2);
}

#[test]
fn default_group_is_tuff_base() {
    assert_eq!(groups_or_default(vec![]), vec!["tuff-base"]);
    assert_eq!(groups_or_default(vec!["extra".to_string()]), vec!["extra"]);
}

#[test]
fn merged_package_lists_keep_first_occurrences() {
    let mut packages = vec!["a".to_string(), "b".to_string()];
    merge_packages(&mut packages, vec!["b".to_string(), "c".to_string(), "a".to_string(), "c".to_string(), "d".to_string()]);
    assert_eq!(packages, vec!["a", "b", "c", "d"]);
}

#[test]
fn package_list_renders_as_lines_or_commas() {
    let packages = vec!["foo".to_string(), "bar".to_string()];
    assert_eq!(render_package_list(&packages, OutputFormat::Lines), "foo\nbar\n");
    assert_eq!(render_package_list(&packages, OutputFormat::Comma), "foo,bar\n");
    assert_eq!(render_package_list(&vec![], OutputFormat::Comma), "\n");
    assert_eq!(package_manifest(&packages), "foo\nbar\n");
}

#[test]
fn sha256_of_known_inputs() {
    assert_eq!(sha256_hex(b"abc"), "ba7816bf8f01cfea414140de5dae2223b00361a396177a9cb410ff61f20015ad");
    assert_eq!(sha256_hex(b""), "e3b0c44298fc1c149afbf4c8996fb92427ae41e4649b934ca495991b7852b855");
}

#[test]
fn checksum_line_and_manifest() {
    assert_eq!(sha256sums_line("abcd", "image.raw"), "abcd  image.raw\n");
    let m = release_manifest(
        "v1-bootstrap".to_string(),
        "20240101T000000Z".to_string(),
        "bootstrap".to_string(),
        "image.raw".to_string(),
        "abcd".to_string(),
        "Debian 13 (Trixie)".to_string(),
    );
    assert_eq!(m.project, "TUFF-RADICAL");
    assert_eq!(m.component, "distro-bootstrap");
    assert_eq!(m.artifacts.len(), 1);
    assert_eq!(m.artifacts[0].artifact_type, "raw-vm-image");
    assert_eq!(m.artifacts[0].arch, "amd64");
    assert_eq!(m.artifacts[0].name, "image.raw");
}

#[test]
fn decimal_and_hex_text() {
    let mut s = String::from("n=");
    push_decimal(&mut s, 0);
    assert_eq!(s, "n=0");
    let mut t = String::new();
    push_decimal(&mut t, 18446744073709551615);
    assert_eq!(t, "18446744073709551615");
    assert_eq!(to_hex_lower(&[0x00, 0xff, 0x1a]), "00ff1a");
}
