use neuroclip::commands::scanner::{library_db_path, scan_targets, system_scan_dirs, ScanProgressEvent};
use neuroclip::db::{DatabaseManager, StoredTransportFile};
use neuroclip::platform::TargetOs;
use neuroclip::scanner::engine::{DiscoveredAsset, ScanBatcher, SCAN_BATCH_SIZE};
use neuroclip::scanner::filter::{file_name_of, ExtensionClass, FileSample};
use neuroclip::scanner::probe::{ProbeReport, ProbeStream};
use neuroclip::scanner::{LightProbeEngine, ScanFilter, VideoScanEngine};

const OS: TargetOs = TargetOs::Other;

fn sample(bytes: &[u8]) -> FileSample {
    FileSample { size: bytes.len() as u64, head: bytes.to_vec() }
}

fn ts_packet_bytes() -> Vec<u8> {
    let mut ts_bytes = vec![0u8; 564];
    ts_bytes[0] = 0x47;
    ts_bytes[188] = 0x47;
    ts_bytes[376] = 0x47;
    ts_bytes
}

#[test]
fn test_scanner_filter_pruning_and_whitelist() {
    // pruning
    assert!(ScanFilter::is_blacklisted_directory("/Users/dev/project/.git"));
    assert!(ScanFilter::is_blacklisted_directory("/Users/dev/project/node_modules"));
    assert!(ScanFilter::is_blacklisted_directory("/Users/dev/project/target"));
    assert!(ScanFilter::is_blacklisted_directory("/Users/user/Library/Caches"));
    assert!(ScanFilter::is_blacklisted_directory("/Users/user/.Trash"));
    assert!(ScanFilter::is_blacklisted_directory("C:\\Windows\\System Volume Information"));

    // ordinary folders are walked
    assert!(!ScanFilter::is_blacklisted_directory("/Users/user/Movies"));
    assert!(!ScanFilter::is_blacklisted_directory("/Users/user/Downloads/Videos"));

    // format whitelist
    assert!(ScanFilter::is_supported_video_format("game.mp4", OS, None));
    assert!(ScanFilter::is_supported_video_format("movie.mkv", OS, None));
    assert!(ScanFilter::is_supported_video_format("clip.MOV", OS, None));
    assert!(ScanFilter::is_supported_video_format("stream.flv", OS, None));
    assert!(ScanFilter::is_supported_video_format("raw.webm", OS, None));
    assert!(!ScanFilter::is_supported_video_format("photo.jpg", OS, None));
    assert!(!ScanFilter::is_supported_video_format("music.mp3", OS, None));
    assert!(!ScanFilter::is_supported_video_format("document.pdf", OS, None));

    // TypeScript sources are never taken for videos (these files do not exist)
    assert!(!ScanFilter::is_supported_video_format("index.ts", OS, None));
    assert!(!ScanFilter::is_supported_video_format("types.d.ts", OS, None));
    assert!(!ScanFilter::is_supported_video_format("vite.config.ts", OS, None));
    assert!(!ScanFilter::is_supported_video_format("App.test.ts", OS, None));

    // content check of a TypeScript source file
    let src = sample(b"import React from 'react';\nexport const Api = () => {};");
    assert!(!ScanFilter::is_supported_video_format("/tmp/scan/service.ts", OS, Some(&src)));

    // a real MPEG-TS packet sequence with 0x47 sync bytes
    let ts = sample(&ts_packet_bytes());
    assert!(ScanFilter::is_supported_video_format("/tmp/scan/broadcast.ts", OS, Some(&ts)));
}

#[test]
fn transport_stream_checks() {
    let ts = sample(&ts_packet_bytes());
    assert!(ScanFilter::is_valid_mpeg_ts("a/b/broadcast.m2ts", OS, Some(&ts)));
    // declaration file names are refused before reading
    assert!(!ScanFilter::is_valid_mpeg_ts("a/types.d.ts", OS, Some(&ts)));
    // too short
    assert!(!ScanFilter::is_valid_mpeg_ts("x.ts", OS, Some(&sample(&[0x47; 100]))));
    // no sync byte at the second packet
    let mut broken = ts_packet_bytes();
    broken[188] = 0;
    assert!(!ScanFilter::is_valid_mpeg_ts("x.ts", OS, Some(&sample(&broken))));
    // 192-byte packets
    let mut m2ts = vec![0u8; 400];
    m2ts[0] = 0x47;
    m2ts[192] = 0x47;
    assert!(ScanFilter::is_valid_mpeg_ts("x.mts", OS, Some(&sample(&m2ts))));
    assert_eq!(ScanFilter::extension_class("x.TS", OS), ExtensionClass::TransportStream);
    assert_eq!(ScanFilter::extension_class("x.Mp4", OS), ExtensionClass::Video);
    assert_eq!(ScanFilter::extension_class(".mp4", OS), ExtensionClass::Other);
    assert_eq!(ScanFilter::extension_class("C:\\v\\a.mkv", TargetOs::Windows), ExtensionClass::Video);
}

#[test]
fn walk_prunes_only_blacklisted_directories() {
    assert!(!VideoScanEngine::walk_admits_entry("/home/u/node_modules", true));
    assert!(VideoScanEngine::walk_admits_entry("/home/u/node_modules", false));
    assert!(VideoScanEngine::walk_admits_entry("/home/u/Videos", true));
    assert!(!VideoScanEngine::walk_admits_entry("/home/u/.cache", true));
}

#[test]
fn discovered_rows() {
    let a = VideoScanEngine::discover_file("/v/Match.Final.MKV", OS, None, 1024, Some(5), None, 99).unwrap();
    assert_eq!(a.file_path, "/v/Match.Final.MKV");
    assert_eq!(a.file_name, "Match.Final.MKV");
    assert_eq!(a.format, "mkv");
    assert_eq!(a.file_size, 1024);
    assert_eq!((a.created_at, a.modified_at, a.scanned_at), (5, 99, 99));
    assert_eq!(a.status, "discovered");
    // empty files and non-videos are passed over
    assert!(VideoScanEngine::discover_file("/v/a.mp4", OS, None, 0, None, None, 1).is_none());
    assert!(VideoScanEngine::discover_file("/v/a.txt", OS, None, 10, None, None, 1).is_none());
    // a transport stream needs its content
    let ts = sample(&ts_packet_bytes());
    assert!(VideoScanEngine::discover_file("/v/live.ts", OS, None, 564, None, None, 1).is_none());
    assert_eq!(VideoScanEngine::discover_file("/v/live.ts", OS, Some(&ts), 564, None, None, 1).unwrap().format, "ts");
}

fn row(i: usize) -> DiscoveredAsset {
    DiscoveredAsset {
        file_path: format!("/v/{}.mp4", i),
        file_name: format!("{}.mp4", i),
        file_size: 1,
        format: "mp4".to_string(),
        created_at: 0,
        modified_at: 0,
        scanned_at: 0,
        status: "discovered".to_string(),
    }
}

#[test]
fn batches_of_five_hundred() {
    let mut b = ScanBatcher::new();
    let mut batches: Vec<Vec<DiscoveredAsset>> = Vec::new();
    for i in 0..1203 {
        if let Some(batch) = b.push(row(i)) {
            batches.push(batch);
        }
    }
    assert_eq!(batches.len(), 2);
    assert!(batches.iter().all(|x| x.len() == SCAN_BATCH_SIZE));
    assert_eq!(batches[1][0].file_path, "/v/500.mp4");
    let rest = b.finish().unwrap();
    assert_eq!(rest.len(), 203);
    assert_eq!(rest[202].file_path, "/v/1202.mp4");
    assert_eq!(b.total_found(), 1203);
    assert!(b.finish().is_none());
}

#[test]
fn scan_engine_cancel_is_shared_by_clones() {
    let engine = VideoScanEngine::new(DatabaseManager::new("/tmp/lib.db"));
    let clone = engine.clone();
    assert!(!engine.is_cancelled());
    clone.cancel();
    assert!(engine.is_cancelled());
    engine.clear_cancel();
    assert!(!clone.is_cancelled());
    assert_eq!(engine.db().db_path(), "/tmp/lib.db");
}

#[test]
fn probe_summary_defaults() {
    let args = LightProbeEngine::probe_args("/v/a.mp4");
    assert_eq!(args[5], "stream=width,height,duration:format=duration");
    assert_eq!(args.last().unwrap(), "/v/a.mp4");

    let empty = ProbeReport { streams: None, format_duration: None };
    let s = LightProbeEngine::summarize(&empty);
    assert_eq!((s.width, s.height, s.duration_text.as_str()), (1920, 1080, "0.0"));

    let r = ProbeReport {
        streams: Some(vec![ProbeStream { width: Some(720), height: None, duration: None }]),
        format_duration: Some("12.5".to_string()),
    };
    let s = LightProbeEngine::summarize(&r);
    assert_eq!((s.width, s.height, s.duration_text.as_str()), (720, 1080, "12.5"));

    let r = ProbeReport {
        streams: Some(vec![ProbeStream { width: None, height: Some(1920), duration: Some("3.0".to_string()) }]),
        format_duration: Some("9.0".to_string()),
    };
    assert_eq!(LightProbeEngine::summarize(&r).duration_text, "3.0");
}

#[test]
fn query_plans() {
    let p = DatabaseManager::plan_query(1, 10, None, None, None);
    assert_eq!(p.count_sql, "SELECT COUNT(*) FROM video_assets ");
    assert!(p.query_sql.ends_with("FROM video_assets  ORDER BY created_at DESC LIMIT ? OFFSET ?"));
    assert!(p.filter_params.is_empty());
    assert_eq!((p.limit, p.offset), (10, 0));

    let p = DatabaseManager::plan_query(3, 20, Some("  csgo "), Some(" MKV "), Some("size_desc"));
    assert_eq!(p.count_sql, "SELECT COUNT(*) FROM video_assets WHERE file_name LIKE ? AND format = ?");
    assert!(p.query_sql.contains("WHERE file_name LIKE ? AND format = ? ORDER BY file_size DESC LIMIT ? OFFSET ?"));
    assert_eq!(p.filter_params, vec!["%csgo%".to_string(), "mkv".to_string()]);
    assert_eq!((p.limit, p.offset), (20, 40));

    let p = DatabaseManager::plan_query(0, 5, Some("   "), Some("All"), Some("name_asc"));
    assert_eq!(p.count_sql, "SELECT COUNT(*) FROM video_assets ");
    assert!(p.query_sql.ends_with("ORDER BY file_name ASC LIMIT ? OFFSET ?"));
    assert_eq!(p.offset, 0);

    let p = DatabaseManager::plan_query(2, 5, None, Some("mov"), Some("bogus"));
    assert_eq!(p.count_sql, "SELECT COUNT(*) FROM video_assets WHERE format = ?");
    assert!(p.query_sql.contains("ORDER BY created_at DESC"));
    assert_eq!(p.filter_params, vec!["mov".to_string()]);
}

#[test]
fn transport_rows_to_drop() {
    let rows = vec![
        StoredTransportFile { id: 1, file_path: "/src/index.ts".to_string(), sample: Some(sample(b"import { useState } from 'react';")) },
        StoredTransportFile { id: 2, file_path: "/v/live.ts".to_string(), sample: Some(sample(&ts_packet_bytes())) },
        StoredTransportFile { id: 3, file_path: "/v/gone.ts".to_string(), sample: None },
    ];
    assert_eq!(DatabaseManager::invalid_transport_rows(&rows, OS), vec![1, 3]);
}

#[test]
fn scan_targets_and_events() {
    let sys = vec!["/home/u/Videos".to_string()];
    assert_eq!(scan_targets(Some(vec!["/x".to_string()]), sys.clone()).unwrap(), vec!["/x".to_string()]);
    assert_eq!(scan_targets(Some(vec![]), sys.clone()).unwrap(), sys);
    assert_eq!(scan_targets(None, vec![]).unwrap_err(), "未指定有效的扫描目录");
    assert_eq!(
        system_scan_dirs(None, Some("/d".to_string()), Some("/k".to_string())),
        vec!["/d".to_string(), "/k".to_string()]
    );
    let e = ScanProgressEvent::batch("/home/u/Videos", 500, 1000);
    assert!(!e.is_finished);
    assert_eq!(e.batch_count, 500);
    let f = ScanProgressEvent::finished(1203);
    assert_eq!((f.current_directory.as_str(), f.batch_count, f.total_discovered, f.is_finished), ("完成", 0, 1203, true));
    assert_eq!(library_db_path(Some("/home/u"), OS), "/home/u/.neuroclip/neuroclip_assets.db");
    assert_eq!(library_db_path(None, OS), "./.neuroclip/neuroclip_assets.db");
    assert_eq!(library_db_path(Some("C:\\Users\\u\\"), TargetOs::Windows), "C:\\Users\\u\\.neuroclip\\neuroclip_assets.db");
}

fn name_of(p: &str, os: TargetOs) -> Option<String> {
    file_name_of(&p.chars().collect(), os).map(|v| v.into_iter().collect())
}

#[test]
fn windows_drive_prefix_is_no_part_of_the_name() {
    let w = TargetOs::Windows;
    assert_eq!(name_of("C:.x.ts", w), Some(".x.ts".to_string()));
    assert_eq!(name_of("d:clip.mp4", w), Some("clip.mp4".to_string()));
    assert_eq!(name_of("C:\\Videos\\match.mkv", w), Some("match.mkv".to_string()));
    assert_eq!(name_of("C:", w), None);
    assert_eq!(name_of("C:..", w), None);
    assert_eq!(name_of("1:a.ts", w), Some("1:a.ts".to_string()));
    assert_eq!(name_of("C:.x.ts", TargetOs::Other), Some("C:.x.ts".to_string()));
    // a dot name after the drive prefix is never a transport stream
    let ts = ts_packet_bytes();
    assert!(!ScanFilter::is_valid_mpeg_ts("C:.x.ts", w, Some(&sample(&ts))));
    assert!(ScanFilter::is_valid_mpeg_ts("C:x.ts", w, Some(&sample(&ts))));
}
