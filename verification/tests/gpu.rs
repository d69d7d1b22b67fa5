use finupdate::gpu::{has_nvidia_gpu, parse_lspci_mm_for_nvidia, probe_command};

#[test]
fn parses_vga_controller_with_nvidia_vendor() {
    let stdout = "01:00.0 \"VGA compatible controller\" \"NVIDIA Corporation\" \"GA106 [GeForce RTX 3060]\" -ra1 \"ASUSTeK Computer Inc.\" \"Device 9d23\"\n";
    assert!(parse_lspci_mm_for_nvidia(stdout));
}

#[test]
fn parses_3d_controller_for_laptop_nvidia() {
    // Discrete-only NVIDIA laptops show the dGPU as a 3D controller
    // (no VGA) since the iGPU drives the display.
    let stdout = "01:00.0 \"3D controller\" \"NVIDIA Corporation\" \"GA107M [GeForce RTX 3050 Mobile]\" -rb1 \"Dell\" \"Device 0a91\"\n";
    assert!(parse_lspci_mm_for_nvidia(stdout));
}

#[test]
fn returns_false_for_intel_only_system() {
    let stdout = "00:02.0 \"VGA compatible controller\" \"Intel Corporation\" \"Alder Lake-S GT1 [UHD Graphics 730]\" -r0c \"Intel Corporation\" \"Device 7d50\"\n";
    assert!(!parse_lspci_mm_for_nvidia(stdout));
}

#[test]
fn returns_false_for_amd_system() {
    let stdout = "03:00.0 \"VGA compatible controller\" \"Advanced Micro Devices, Inc. [AMD/ATI]\" \"Navi 33 [Radeon RX 7700S]\" -r0c \"Framework Computer\" \"Device 0030\"\n";
    assert!(!parse_lspci_mm_for_nvidia(stdout));
}

#[test]
fn ignores_non_display_devices_named_nvidia() {
    // A weird edge case: an audio device on an NVIDIA card is itself
    // not the GPU. Class string disambiguates.
    let stdout = "01:00.1 \"Audio device\" \"NVIDIA Corporation\" \"GA106 High Definition Audio Controller\"\n";
    assert!(!parse_lspci_mm_for_nvidia(stdout));
}

#[test]
fn handles_empty_output() {
    assert!(!parse_lspci_mm_for_nvidia(""));
}

#[test]
fn finds_nvidia_among_multiple_gpus() {
    // Hybrid graphics laptop: Intel iGPU + NVIDIA dGPU. Should match.
    let stdout = "\
00:02.0 \"VGA compatible controller\" \"Intel Corporation\" \"Iris Xe Graphics\" -r0c\n\
01:00.0 \"3D controller\" \"NVIDIA Corporation\" \"GA107M [GeForce RTX 3050 Mobile]\" -rb1\n";
    assert!(parse_lspci_mm_for_nvidia(stdout));
}

#[test]
fn absent_probe_output_means_no_nvidia() {
    assert!(!has_nvidia_gpu(None));
    assert!(has_nvidia_gpu(Some(
        "01:00.0 \"3D controller\" \"NVIDIA Corporation\" \"GA107M\"\n"
    )));
}

#[test]
fn probe_goes_through_the_host_when_sandboxed() {
    assert_eq!(probe_command(false), vec!["lspci", "-mm"]);
    assert_eq!(
        probe_command(true),
        vec!["flatpak-spawn", "--host", "lspci", "-mm"]
    );
}

#[test]
fn only_the_vendor_field_counts() {
    assert!(!parse_lspci_mm_for_nvidia(
        "00:02.0 \"VGA compatible controller\" \"Intel Corporation\" \"UHD Graphics\" -r0c \"NVIDIA Corporation\" \"Device 0001\"\n"
    ));
    assert!(parse_lspci_mm_for_nvidia(
        "01:00.0 \"Display controller\" \"Nvidia Corporation\" \"GA106\"\r\n"
    ));
    assert!(!parse_lspci_mm_for_nvidia(
        "01:00.0 \"Audio device\" \"NVIDIA Corporation\" \"3D controller\"\n"
    ));
}

#[test]
fn lines_are_judged_alone() {
    let nvidia = "01:00.0 \"3D controller\" \"NVIDIA Corporation\" \"GA107M\"";
    let class = "01:00.0 \"3D controller\" \"Intel Corporation\" \"x\"";
    let vendor = "01:00.1 \"Audio device\" \"NVIDIA Corporation\" \"y\"";
    assert!(parse_lspci_mm_for_nvidia(&format!("{class}\n{nvidia}")));
    assert!(parse_lspci_mm_for_nvidia(&format!("{nvidia}\r\n{class}")));
    assert!(!parse_lspci_mm_for_nvidia(&format!("{class}\n{vendor}")));
}
