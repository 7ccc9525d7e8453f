use neuroclip::commands::updater::{
    is_newer_version, offline_update_result, pick_asset_for_platform, release_update_result,
    version_numbers_of, GitHubAsset, GitHubRelease,
};
use neuroclip::platform::TargetOs;

#[test]
fn test_version_comparison_logic() {
    // 补丁版本升级
    assert!(is_newer_version("0.3.1", "0.3.2"));
    assert!(is_newer_version("v0.3.1", "v0.3.2"));
    assert!(is_newer_version("0.3.1", "v0.3.2"));

    // 次版本升级
    assert!(is_newer_version("0.3.1", "0.4.0"));
    assert!(is_newer_version("v0.3.1", "v1.0.0"));

    // 相同版本或更低版本
    assert!(!is_newer_version("0.3.1", "0.3.1"));
    assert!(!is_newer_version("v0.3.1", "0.3.1"));
    assert!(!is_newer_version("0.3.2", "0.3.1"));
    assert!(!is_newer_version("1.0.0", "0.9.9"));
}

#[test]
fn version_numbers_parse_leading_digits() {
    assert_eq!(version_numbers_of("  V2.10rc1.x.007 "), vec![2, 10, 7]);
    assert_eq!(version_numbers_of("vvV1.2"), vec![1, 2]);
    assert_eq!(version_numbers_of("1.99999999999999999999999.3"), vec![1, 3]);
    assert_eq!(version_numbers_of(""), Vec::<u64>::new());
}

#[test]
fn longer_version_with_equal_prefix_is_newer() {
    assert!(is_newer_version("1.2", "1.2.0"));
    assert!(!is_newer_version("1.2.0", "1.2"));
}

#[test]
fn version_order_is_transitive_on_examples() {
    assert!(is_newer_version("0.9.9", "1.0.0"));
    assert!(is_newer_version("1.0.0", "1.0.1"));
    assert!(is_newer_version("0.9.9", "1.0.1"));
}

fn asset(name: &str, size: u64) -> GitHubAsset {
    GitHubAsset {
        name: name.to_string(),
        browser_download_url: format!("https://example.com/{}", name),
        size,
    }
}

#[test]
fn pick_asset_prefers_non_cli_installer() {
    let assets = vec![
        asset("tool-cli.exe", 1),
        asset("Installer.msi", 2),
        asset("Setup.EXE", 3),
    ];
    let picked = pick_asset_for_platform(&assets, TargetOs::Windows).unwrap();
    assert_eq!(picked.1, "Setup.EXE");
    assert_eq!(picked.2, 3);

    // "neuroclip" itself contains "cli", so such names only match in the second pass
    let named = vec![asset("NeuroClip-cli.exe", 1), asset("NeuroClip_Setup.EXE", 3)];
    assert_eq!(pick_asset_for_platform(&named, TargetOs::Windows).unwrap().1, "NeuroClip-cli.exe");

    let only_cli = vec![asset("neuroclip-cli.dmg", 5)];
    let picked = pick_asset_for_platform(&only_cli, TargetOs::MacOs).unwrap();
    assert_eq!(picked.0, "https://example.com/neuroclip-cli.dmg");

    assert!(pick_asset_for_platform(&assets, TargetOs::MacOs).is_none());
    // name and suffix are both compared in lower case
    assert_eq!(pick_asset_for_platform(&vec![asset("a.AppImage", 1)], TargetOs::Other).unwrap().1, "a.AppImage");
    let deb = vec![asset("a.AppImage", 1), asset("b.deb", 9)];
    assert_eq!(pick_asset_for_platform(&deb, TargetOs::Other).unwrap().1, "a.AppImage");
    assert_eq!(pick_asset_for_platform(&vec![asset("b.deb", 9)], TargetOs::Other).unwrap().1, "b.deb");
}

#[test]
fn pick_asset_takes_the_highest_priority_suffix_wherever_it_stands() {
    let assets = vec![
        GitHubAsset {
            name: "app_0.3.2_amd64.deb".to_string(),
            browser_download_url: "u1".to_string(),
            size: 1,
        },
        GitHubAsset {
            name: "app_0.3.2_amd64.AppImage".to_string(),
            browser_download_url: "u2".to_string(),
            size: 2,
        },
    ];
    assert_eq!(
        pick_asset_for_platform(&assets, TargetOs::Other),
        Some(("u2".to_string(), "app_0.3.2_amd64.AppImage".to_string(), 2))
    );
}

#[test]
fn release_result_uses_defaults() {
    let release = GitHubRelease {
        tag_name: "v0.4.0".to_string(),
        name: None,
        body: None,
        published_at: Some("2026-01-01".to_string()),
        assets: Some(vec![asset("notes.txt", 1)]),
    };
    let r = release_update_result("0.3.1", &release, TargetOs::Windows);
    assert!(r.has_update);
    assert_eq!(r.latest_version, "0.4.0");
    assert_eq!(r.release_title, "NeuroClip vv0.4.0");
    assert_eq!(r.release_notes, "包含核心性能优化与体验增强。");
    assert_eq!(r.published_at, "2026-01-01");
    assert_eq!(r.file_name, "NeuroClip_0.4.0_x64.exe");
    assert_eq!(
        r.download_url,
        "https://github.com/NovaMindLab/NeuroClip/releases/download/v0.4.0/NeuroClip_0.4.0_x64.exe"
    );
    assert_eq!(r.file_size, 78_000_000);

    let no_assets = GitHubRelease { assets: None, ..release };
    let r = release_update_result("0.4.0", &no_assets, TargetOs::MacOs);
    assert!(!r.has_update);
    assert_eq!(r.download_url, "");
    assert_eq!(r.file_size, 0);
}

#[test]
fn offline_result_offers_0_3_2() {
    let r = offline_update_result("0.3.1", TargetOs::MacOs);
    assert!(r.has_update);
    assert_eq!(r.file_name, "NeuroClip_0.3.2_x64.dmg");
    assert_eq!(
        r.download_url,
        "https://github.com/NovaMindLab/NeuroClip/releases/download/v0.3.2/NeuroClip_0.3.2_x64.dmg"
    );
    assert_eq!(r.file_size, 85_600_000);
    assert!(!offline_update_result("0.3.2", TargetOs::Other).has_update);
}
