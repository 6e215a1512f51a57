//! The rows the store keeps and the shapes its listings return.
//!
//! Identifiers are opaque strings (fresh ones are rendered from 128-bit
//! random values). Timestamps are Unix seconds. `sync_status`, `vjtools_id`
//! and `remote` concerns are placeholders for a future sync subsystem: the
//! store writes their defaults and never interprets them.

use vstd::prelude::*;

verus! {

/// An artist, keyed by `id`.
#[derive(Debug)]
pub struct Artist {
    pub id: String,
    pub name: String,
    pub vjtools_id: Option<String>,
    pub created_at: u64,
    pub updated_at: u64,
    pub sync_status: String,
}

/// A logo, keyed by `id`; `file_path` is unique across all logos.
#[derive(Debug)]
pub struct Logo {
    pub id: String,
    pub name: String,
    pub file_path: String,
    pub thumbnail_path: Option<String>,
    pub vjtools_id: Option<String>,
    pub created_at: u64,
    pub updated_at: u64,
    pub sync_status: String,
}

/// A many-to-many association row; the pair `(artist_id, logo_id)` is unique.
#[derive(Debug)]
pub struct ArtistLogoLink {
    pub artist_id: String,
    pub logo_id: String,
    pub is_local_override: bool,
}

/// A timed event, keyed by `id`. `event_time` is a raw `"HH:MM"` string and
/// ordered lexicographically; `linked_logo_id`, when present, names an
/// existing logo and is nulled out when that logo is deleted.
#[derive(Debug)]
pub struct ScheduleEvent {
    pub id: String,
    pub event_time: String,
    pub name: String,
    pub event_type: String,
    pub duration_seconds: Option<u32>,
    pub linked_logo_id: Option<String>,
    pub created_at: u64,
    pub updated_at: u64,
}

/// One slot of the playback cycle, keyed by `logo_id`; `order_index` defines
/// the playback order and is unique across the cycle.
#[derive(Debug)]
pub struct CycleEntry {
    pub logo_id: String,
    pub order_index: u32,
    pub status: String,
}

/// A logo as a catalog listing returns it: the stored row together with the
/// names of the artists linked to it, computed at read time and never stored.
#[derive(Debug)]
pub struct LogoListing {
    pub logo: Logo,
    pub linked_artist_names: Vec<String>,
}

/// A schedule event as a listing returns it (creation timestamps omitted).
#[derive(Debug)]
pub struct ScheduleItem {
    pub id: String,
    pub time: String,
    pub name: String,
    pub event_type: String,
    pub duration_seconds: Option<u32>,
    pub linked_logo_id: Option<String>,
}

/// One slot of the cycle as a listing returns it, joined with the logo name.
#[derive(Debug)]
pub struct CycleItem {
    pub id: String,
    pub logo_id: String,
    pub name: String,
    pub status: String,
    pub order_index: u32,
}

/// An entry of a directory listing, tagged as a file or a directory.
#[derive(Debug)]
pub struct FileItem {
    pub name: String,
    pub path: String,
    pub item_type: String,
}

/// The single-key preference holding the logo library path.
#[derive(Debug)]
pub struct LogoLibraryConfig {
    pub path: String,
}

/// Clones an optional string, keeping its value.
pub fn clone_opt_string(s: &Option<String>) -> (r: Option<String>)
    ensures
        r == *s,
{
    match s {
        Some(v) => Some(v.clone()),
        None => None,
    }
}

impl Clone for Artist {
    fn clone(&self) -> (r: Self)
        ensures
            r == *self,
    {
        Artist {
            id: self.id.clone(),
            name: self.name.clone(),
            vjtools_id: clone_opt_string(&self.vjtools_id),
            created_at: self.created_at,
            updated_at: self.updated_at,
            sync_status: self.sync_status.clone(),
        }
    }
}

impl Clone for Logo {
    fn clone(&self) -> (r: Self)
        ensures
            r == *self,
    {
        Logo {
            id: self.id.clone(),
            name: self.name.clone(),
            file_path: self.file_path.clone(),
            thumbnail_path: clone_opt_string(&self.thumbnail_path),
            vjtools_id: clone_opt_string(&self.vjtools_id),
            created_at: self.created_at,
            updated_at: self.updated_at,
            sync_status: self.sync_status.clone(),
        }
    }
}

impl Clone for ArtistLogoLink {
    fn clone(&self) -> (r: Self)
        ensures
            r == *self,
    {
        ArtistLogoLink {
            artist_id: self.artist_id.clone(),
            logo_id: self.logo_id.clone(),
            is_local_override: self.is_local_override,
        }
    }
}

impl Clone for ScheduleEvent {
    fn clone(&self) -> (r: Self)
        ensures
            r == *self,
    {
        ScheduleEvent {
            id: self.id.clone(),
            event_time: self.event_time.clone(),
            name: self.name.clone(),
            event_type: self.event_type.clone(),
            duration_seconds: self.duration_seconds,
            linked_logo_id: clone_opt_string(&self.linked_logo_id),
            created_at: self.created_at,
            updated_at: self.updated_at,
        }
    }
}

impl Clone for CycleEntry {
    fn clone(&self) -> (r: Self)
        ensures
            r == *self,
    {
        CycleEntry {
            logo_id: self.logo_id.clone(),
            order_index: self.order_index,
            status: self.status.clone(),
        }
    }
}

impl FileItem {
    /// Builds a directory entry; the tag is `"directory"` or `"file"`.
    pub fn new(name: String, path: String, is_dir: bool) -> (r: FileItem)
        ensures
            r.name == name,
            r.path == path,
            r.item_type@ == (if is_dir {
                "directory"@
            } else {
                "file"@
            }),
    {
        let item_type = if is_dir {
            "directory".to_owned()
        } else {
            "file".to_owned()
        };
        FileItem { name, path, item_type }
    }
}

impl Default for LogoLibraryConfig {
    /// The preference before any path was saved: an empty path.
    fn default() -> (r: Self)
        ensures
            r.path@ == Seq::<char>::empty(),
    {
        LogoLibraryConfig { path: String::new() }
    }
}

impl LogoLibraryConfig {
    /// Wraps a chosen library path.
    pub fn new(path: String) -> (r: Self)
        ensures
            r.path == path,
    {
        LogoLibraryConfig { path }
    }
}

} // verus!
