use vstd::prelude::*;

use crate::ffmpeg::{join_file, join_path};
use crate::platform::TargetOs;
use crate::text::{string_of, string_views};

verus! {

/// A progress report of a library scan.
#[derive(Debug, Clone)]
pub struct ScanProgressEvent {
    pub current_directory: String,
    pub batch_count: usize,
    pub total_discovered: usize,
    pub is_finished: bool,
}

pub open spec fn no_scan_dirs_message() -> Seq<char> {
    "未指定有效的扫描目录"@
}

/// The folders a scan walks: the caller's folders when it names any, else the system's
/// media folders.
pub open spec fn scan_target_choice(custom: Option<Seq<Seq<char>>>, system: Seq<Seq<char>>) -> Seq<Seq<char>> {
    match custom {
        Some(c) => if c.len() > 0 {
            c
        } else {
            system
        },
        None => system,
    }
}

/// The system's media folders that exist, in the order videos, downloads, desktop.
pub open spec fn present_dirs(videos: Option<Seq<char>>, downloads: Option<Seq<char>>, desktop: Option<Seq<char>>) -> Seq<Seq<char>> {
    (match videos {
        Some(v) => seq![v],
        None => Seq::empty(),
    }) + (match downloads {
        Some(d) => seq![d],
        None => Seq::empty(),
    }) + (match desktop {
        Some(d) => seq![d],
        None => Seq::empty(),
    })
}

/// The library database file under the home folder `home` (the current folder when there
/// is none).
pub open spec fn library_db_file(home: Option<Seq<char>>, os: TargetOs) -> Seq<char> {
    join_path(join_path(match home {
        Some(h) => h,
        None => "."@,
    }, ".neuroclip"@, os), "neuroclip_assets.db"@, os)
}

pub open spec fn owned_view(o: Option<String>) -> Option<Seq<char>> {
    match o {
        Some(s) => Some(s@),
        None => None,
    }
}

impl ScanProgressEvent {
    /// A batch of `batch_count` files was stored while walking `directory`.
    pub fn batch(directory: &str, batch_count: usize, total_discovered: usize) -> (r: Self)
        ensures
            r.current_directory@ == directory@,
            r.batch_count == batch_count,
            r.total_discovered == total_discovered,
            !r.is_finished,
    {
        ScanProgressEvent {
            current_directory: string_of(directory),
            batch_count,
            total_discovered,
            is_finished: false,
        }
    }

    /// The scan ended after discovering `total_discovered` files.
    pub fn finished(total_discovered: usize) -> (r: Self)
        ensures
            r.current_directory@ == "完成"@,
            r.batch_count == 0,
            r.total_discovered == total_discovered,
            r.is_finished,
    {
        ScanProgressEvent {
            current_directory: string_of("完成"),
            batch_count: 0,
            total_discovered,
            is_finished: true,
        }
    }
}

/// The folders to scan; an error when there are none.
pub fn scan_targets(custom_dirs: Option<Vec<String>>, system_dirs: Vec<String>) -> (r: Result<Vec<String>, String>)
    ensures
        ({
            let chosen = scan_target_choice(
                match custom_dirs {
                    Some(c) => Some(string_views(c@)),
                    None => None,
                },
                string_views(system_dirs@),
            );
            match r {
                Ok(v) => chosen.len() > 0 && string_views(v@) == chosen,
                Err(e) => chosen.len() == 0 && e@ == no_scan_dirs_message(),
            }
        }),
{
    let chosen = match custom_dirs {
        Some(c) => if c.len() > 0 {
            c
        } else {
            system_dirs
        },
        None => system_dirs,
    };
    if chosen.len() == 0 {
        Err(string_of("未指定有效的扫描目录"))
    } else {
        Ok(chosen)
    }
}

/// The existing system media folders, in the order videos, downloads, desktop.
pub fn system_scan_dirs(videos: Option<String>, downloads: Option<String>, desktop: Option<String>) -> (r: Vec<String>)
    ensures
        string_views(r@) == present_dirs(
            owned_view(videos),
            owned_view(downloads),
            owned_view(desktop),
        ),
{
    let ghost pv = present_dirs(
        owned_view(videos),
        owned_view(downloads),
        owned_view(desktop),
    );
    let mut r: Vec<String> = Vec::new();
    match videos {
        Some(v) => r.push(v),
        None => {},
    }
    match downloads {
        Some(v) => r.push(v),
        None => {},
    }
    match desktop {
        Some(v) => r.push(v),
        None => {},
    }
    assert(string_views(r@) =~= pv);
    r
}

/// The library database file under the home folder `home`.
pub fn library_db_path(home: Option<&str>, os: TargetOs) -> (r: String)
    ensures
        r@ == library_db_file(
            match home {
                Some(h) => Some(h@),
                None => None,
            },
            os,
        ),
{
    let base = match home {
        Some(h) => h,
        None => ".",
    };
    let app_dir = join_file(base, ".neuroclip", os);
    join_file(app_dir.as_str(), "neuroclip_assets.db", os)
}

} // verus!
