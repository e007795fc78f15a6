use handy_core::llama_server::{
    archive_kind, auto_pick_server, build_releases, download_notification, find_release_download_url,
    parse_asset_name, preferred_backend, server_binary_name, server_display_name, server_id, split_server_folder,
    ArchiveKind, DownloadedServer, GpuProbe, Platform, RawAsset, RawRelease,
};
use handy_core::model_hub::{HubNotificationKind, TransportOutcome};

fn raw(name: &str) -> RawAsset {
    RawAsset { name: name.to_string(), download_url: format!("https://x/{name}"), size: 1 }
}

#[test]
fn asset_names_say_backend_os_and_arch() {
    assert_eq!(
        parse_asset_name("llama-b9601-bin-win-cuda-12.4-x64.zip"),
        Some(("cuda-12.4".to_string(), "windows", "x64"))
    );
    assert_eq!(parse_asset_name("llama-b9601-bin-ubuntu-vulkan-x64.tar.gz"), Some(("vulkan".to_string(), "linux", "x64")));
    assert_eq!(parse_asset_name("llama-b9601-bin-macos-arm64.tar.gz"), Some(("cpu".to_string(), "macos", "arm64")));
    assert_eq!(parse_asset_name("llama-b9601-bin-win-CUDA-x64.zip"), Some(("cuda-x64.zip".to_string(), "windows", "x64")));
    assert_eq!(parse_asset_name("cudart-llama-bin-win-cuda-12.4-x64.zip"), None);
    assert_eq!(parse_asset_name("llama-b9601-xcframework.zip"), None);
    assert_eq!(parse_asset_name("llama-cudart-linux.tgz"), Some(("cuda-13".to_string(), "linux", "x64")));
}

#[test]
fn releases_keep_one_asset_per_backend_for_this_platform() {
    let releases = vec![
        RawRelease {
            tag: "b2".to_string(),
            name: None,
            assets: vec![
                raw("llama-b2-bin-win-cuda-13.1-x64.zip"),
                raw("llama-b2-bin-win-cuda-13.1-x64-extra.zip"),
                raw("llama-b2-bin-win-vulkan-x64.zip"),
                raw("llama-b2-bin-ubuntu-x64.tar.gz"),
            ],
        },
        RawRelease { tag: "b1".to_string(), name: Some("Release 1".to_string()), assets: vec![raw("llama-b1-bin-macos-arm64.zip")] },
    ];
    let built = build_releases(&releases, "windows", "x64");
    assert_eq!(built.len(), 1);
    assert_eq!(built[0].name, "b2");
    let backends: Vec<&str> = built[0].assets.iter().map(|a| a.backend.as_str()).collect();
    assert_eq!(backends, vec!["cuda-13.1", "vulkan"]);
    assert_eq!(built[0].assets[0].download_url, "https://x/llama-b2-bin-win-cuda-13.1-x64.zip");

    assert_eq!(
        find_release_download_url(&built, "vulkan", "b2"),
        Ok("https://x/llama-b2-bin-win-vulkan-x64.zip".to_string())
    );
    assert_eq!(
        find_release_download_url(&built, "cpu", "b2"),
        Err("No release asset found for backend 'cpu' tag 'b2'".to_string())
    );
}

#[test]
fn archives_are_recognised_by_their_suffix() {
    assert_eq!(archive_kind("https://x/a.zip"), Ok(ArchiveKind::Zip));
    assert_eq!(archive_kind("https://x/a.tar.gz"), Ok(ArchiveKind::TarGz));
    assert_eq!(archive_kind("https://x/a.tgz"), Ok(ArchiveKind::TarGz));
    assert_eq!(archive_kind("https://x/a.7z"), Err("Unsupported archive format: https://x/a.7z".to_string()));
}

#[test]
fn install_names_and_folders() {
    assert_eq!(server_id("cuda-13.3", "b9741"), "cuda-13.3-b9741");
    assert_eq!(server_display_name("vulkan", "b1"), "llama.cpp vulkan b1");
    assert_eq!(split_server_folder("cuda-13.3-b9741"), ("cuda-13.3".to_string(), "b9741".to_string()));
    assert_eq!(split_server_folder("custom"), ("custom".to_string(), String::new()));
    assert_eq!(server_binary_name(true), "llama-server.exe");
    assert_eq!(server_binary_name(false), "llama-server");
}

#[test]
fn the_automatic_pick_prefers_cuda_then_vulkan_then_cpu() {
    let server = |backend: &str| DownloadedServer {
        backend: backend.to_string(),
        release_tag: "b1".to_string(),
        path: format!("/s/{backend}-b1"),
        size_bytes: 0,
    };
    let installed = vec![server("cpu"), server("vulkan"), server("cuda-12.4")];
    assert_eq!(auto_pick_server(&installed, &vec![true, true, true]), Some(2));
    assert_eq!(auto_pick_server(&installed, &vec![true, true, false]), Some(1));
    assert_eq!(auto_pick_server(&installed, &vec![true, false, false]), Some(0));
    assert_eq!(auto_pick_server(&installed, &vec![false, false, false]), None);
}

#[test]
fn a_finished_download_notifies_its_outcome() {
    assert_eq!(download_notification(&Ok(TransportOutcome::Completed)), HubNotificationKind::Completed);
    assert_eq!(download_notification(&Ok(TransportOutcome::Cancelled)), HubNotificationKind::Cancelled);
    assert_eq!(download_notification(&Err("x".to_string())), HubNotificationKind::Failed);
}

#[test]
fn the_preferred_backend_follows_the_probes() {
    let none = GpuProbe { nvidia_smi: false, cuda_path: false, vulkan_sdk: false, usr_local_cuda: false };
    assert_eq!(preferred_backend(Platform::Windows, &none), "cpu");
    assert_eq!(preferred_backend(Platform::Windows, &GpuProbe { vulkan_sdk: true, ..none }), "vulkan");
    assert_eq!(preferred_backend(Platform::Windows, &GpuProbe { cuda_path: true, vulkan_sdk: true, ..none }), "cuda");
    assert_eq!(preferred_backend(Platform::Linux, &GpuProbe { usr_local_cuda: true, ..none }), "cuda");
    assert_eq!(preferred_backend(Platform::Linux, &GpuProbe { vulkan_sdk: true, ..none }), "cpu");
    assert_eq!(preferred_backend(Platform::MacOs, &GpuProbe { nvidia_smi: true, ..none }), "cpu");
}
