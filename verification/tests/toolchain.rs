use std::io::Write;

use zig_build::BuildError;
use zig_build::toolchain::ProvisionAction;
use zig_build::toolchain::Triple;
use zig_build::toolchain::archive_file_name;
use zig_build::toolchain::bin_path;
use zig_build::toolchain::exe_name;
use zig_build::toolchain::provision_action;
use zig_build::toolchain::release_name;
use zig_build::toolchain::select_triple;
use zig_build::toolchain::str_eq;
use zig_build::toolchain::zig_bin;

/// A tiny xz-compressed tar archive holding one file at `entry_path`.
fn small_archive(entry_path: &str, contents: &[u8]) -> Vec<u8> {
    let mut builder = tar::Builder::new(Vec::new());
    let mut header = tar::Header::new_gnu();
    header.set_size(contents.len() as u64);
    header.set_mode(0o755);
    header.set_cksum();
    builder
        .append_data(&mut header, entry_path, contents)
        .expect("appending archive entry");
    let tar_bytes = builder.into_inner().expect("finishing archive");
    let mut encoder = xz2::write::XzEncoder::new(Vec::new(), 6);
    encoder.write_all(&tar_bytes).expect("compressing archive");
    encoder.finish().expect("finishing compression")
}

#[test]
fn platform_dispatch_selects_each_variant() {
    assert_eq!(
        select_triple("x86_64-unknown-linux-gnu").unwrap(),
        Triple::LinuxX8664
    );
    assert_eq!(
        select_triple("x86_64-pc-windows-msvc").unwrap(),
        Triple::WindowsX8664
    );
    assert_eq!(
        select_triple("x86_64-apple-darwin").unwrap(),
        Triple::MacosX8664
    );
}

#[test]
fn platform_dispatch_rejects_unsupported_triple() {
    let err = select_triple("sparc64-sun-solaris").unwrap_err();
    match &err {
        BuildError::ToolchainUnavailable(m) => {
            assert_eq!(m.as_str(), "unsupported host triple: sparc64-sun-solaris");
        }
        other => panic!("unexpected error: {:?}", other),
    }
}

#[test]
fn each_triple_pins_its_own_release_and_archive() {
    assert_eq!(release_name(Triple::LinuxX8664).as_str(), "linux-x86_64-0.5.0");
    assert_eq!(
        release_name(Triple::WindowsX8664).as_str(),
        "windows-x86_64-0.5.0+80ff549e2"
    );
    assert_eq!(release_name(Triple::MacosX8664).as_str(), "macos-x86_64-0.5.0");
    assert_eq!(
        archive_file_name(Triple::LinuxX8664).as_str(),
        "zig-linux-x86_64-0.5.0.tar.xz"
    );
    assert_eq!(
        archive_file_name(Triple::WindowsX8664).as_str(),
        "zig-windows-x86_64-0.5.0+80ff549e2.tar.xz"
    );
    assert_eq!(
        archive_file_name(Triple::MacosX8664).as_str(),
        "zig-macos-x86_64-0.5.0.tar.xz"
    );
    assert_eq!(exe_name(Triple::WindowsX8664).as_str(), "zig.exe");
    assert_eq!(exe_name(Triple::LinuxX8664).as_str(), "zig");
}

#[test]
fn resolved_binary_path_is_deterministic() {
    let p1 = bin_path(Triple::LinuxX8664, "scratch");
    let p2 = bin_path(Triple::LinuxX8664, "scratch");
    assert_eq!(p1, p2);
    assert_eq!(
        p1.as_str(),
        "scratch/zig-toolchain/zig-linux-x86_64-0.5.0/zig"
    );
}

#[test]
fn provisioning_skips_extraction_when_binary_present() {
    assert_eq!(provision_action(true), ProvisionAction::UseExisting);
    assert_eq!(provision_action(false), ProvisionAction::Extract);
}

#[test]
fn provisioning_is_idempotent_on_one_scratch_directory() {
    let archive = small_archive("zig-linux-x86_64-0.5.0/zig", b"#!/bin/sh\n");
    let scratch = "/tmp/zig-build-test/provision-idempotence";
    let first = zig_bin(Triple::LinuxX8664, scratch, &archive).expect("first provisioning");
    let second = zig_bin(Triple::LinuxX8664, scratch, &archive).expect("second provisioning");
    assert_eq!(first, second);
    assert_eq!(
        first.as_str(),
        "/tmp/zig-build-test/provision-idempotence/zig-toolchain/zig-linux-x86_64-0.5.0/zig"
    );
}

#[test]
fn corrupt_archive_fails_with_toolchain_unavailable() {
    let garbage: Vec<u8> = vec![0, 1, 2, 3, 4, 5, 6, 7];
    let err = zig_bin(
        Triple::LinuxX8664,
        "/tmp/zig-build-test/provision-corrupt",
        &garbage,
    )
    .unwrap_err();
    assert!(matches!(err, BuildError::ToolchainUnavailable(_)));
}

#[test]
fn string_equality_is_by_characters() {
    assert!(str_eq("zig", "zig"));
    assert!(!str_eq("zig", "zag"));
    assert!(!str_eq("zig", "zig "));
    assert!(str_eq("", ""));
}

#[test]
fn descriptor_carries_the_pinned_values() {
    let d = zig_build::toolchain::describe_toolchain(Triple::LinuxX8664, "scratch");
    assert_eq!(d.triple, Triple::LinuxX8664);
    assert_eq!(d.release.as_str(), "linux-x86_64-0.5.0");
    assert_eq!(d.archive_file.as_str(), "zig-linux-x86_64-0.5.0.tar.xz");
    assert_eq!(d.extract_root.as_str(), "scratch/zig-toolchain");
    assert_eq!(
        d.bin_path.as_str(),
        "scratch/zig-toolchain/zig-linux-x86_64-0.5.0/zig"
    );
}
