//! The metadata store: five in-memory tables with a verified integrity
//! invariant. An application owns one store for its lifetime, funnels every
//! operation through it, and mirrors committed changes to its own durable
//! backing file.
//!
//! The invariant `wf` carries: unique identifiers per table, a globally
//! unique logo file path, referential integrity of links, cycle entries and
//! schedule references, listing order (names, event times, cycle positions),
//! and per-row timestamp monotonicity.

use vstd::prelude::*;

use vstd::utf8::encode_utf8;

use crate::order::{lemma_bytes_le_total, lemma_bytes_le_trans, lemma_filter_all_true,
    lemma_filter_pairwise, lemma_insert_pairwise, pairwise, str_le, str_le_exec};
use crate::records::{clone_opt_string, Artist, ArtistLogoLink, CycleEntry, CycleItem, Logo,
    LogoListing, ScheduleEvent, ScheduleItem};
use crate::StoreError;

verus! {

/// Two artist rows in listing order: distinct ids, names nondecreasing.
pub open spec fn artist_rel() -> spec_fn(Artist, Artist) -> bool {
    |a: Artist, b: Artist| a.id@ != b.id@ && str_le(a.name@, b.name@)
}

/// Two logo rows in listing order: distinct ids, distinct file paths, names
/// nondecreasing.
pub open spec fn logo_rel() -> spec_fn(Logo, Logo) -> bool {
    |a: Logo, b: Logo| a.id@ != b.id@ && a.file_path@ != b.file_path@ && str_le(a.name@, b.name@)
}

/// Two link rows: the `(artist_id, logo_id)` pairs differ.
pub open spec fn link_rel() -> spec_fn(ArtistLogoLink, ArtistLogoLink) -> bool {
    |a: ArtistLogoLink, b: ArtistLogoLink|
        !(a.artist_id@ == b.artist_id@ && a.logo_id@ == b.logo_id@)
}

/// Two schedule rows in listing order: distinct ids, event times
/// nondecreasing.
pub open spec fn event_rel() -> spec_fn(ScheduleEvent, ScheduleEvent) -> bool {
    |a: ScheduleEvent, b: ScheduleEvent| a.id@ != b.id@ && str_le(a.event_time@, b.event_time@)
}

/// Two cycle rows in playback order: positions strictly increasing, logos
/// distinct.
pub open spec fn cycle_rel() -> spec_fn(CycleEntry, CycleEntry) -> bool {
    |a: CycleEntry, b: CycleEntry| a.order_index < b.order_index && a.logo_id@ != b.logo_id@
}

/// Some artist row carries this id.
pub open spec fn has_artist(s: Seq<Artist>, id: Seq<char>) -> bool {
    exists|i: int| 0 <= i < s.len() && #[trigger] s[i].id@ == id
}

/// Some logo row carries this id.
pub open spec fn has_logo(s: Seq<Logo>, id: Seq<char>) -> bool {
    exists|i: int| 0 <= i < s.len() && #[trigger] s[i].id@ == id
}

/// Some logo row carries this file path.
pub open spec fn has_file_path(s: Seq<Logo>, path: Seq<char>) -> bool {
    exists|i: int| 0 <= i < s.len() && #[trigger] s[i].file_path@ == path
}

/// Some link row carries this `(artist_id, logo_id)` pair.
pub open spec fn has_link(s: Seq<ArtistLogoLink>, aid: Seq<char>, lid: Seq<char>) -> bool {
    exists|i: int|
        0 <= i < s.len() && (#[trigger] s[i]).artist_id@ == aid && s[i].logo_id@ == lid
}

/// Some schedule row carries this id.
pub open spec fn has_event(s: Seq<ScheduleEvent>, id: Seq<char>) -> bool {
    exists|i: int| 0 <= i < s.len() && #[trigger] s[i].id@ == id
}

/// The artists table is well formed: pairwise ordered and with monotonic
/// timestamps.
pub open spec fn artists_wf(s: Seq<Artist>) -> bool {
    &&& pairwise(s, artist_rel())
    &&& forall|i: int|
        0 <= i < s.len() ==> (#[trigger] s[i]).created_at <= s[i].updated_at
}

/// The logos table is well formed.
pub open spec fn logos_wf(s: Seq<Logo>) -> bool {
    &&& pairwise(s, logo_rel())
    &&& forall|i: int|
        0 <= i < s.len() ==> (#[trigger] s[i]).created_at <= s[i].updated_at
}

/// The link table is well formed: unique pairs, both endpoints exist.
pub open spec fn links_wf(s: Seq<ArtistLogoLink>, artists: Seq<Artist>, logos: Seq<Logo>) -> bool {
    &&& pairwise(s, link_rel())
    &&& forall|i: int|
        0 <= i < s.len() ==> has_artist(artists, (#[trigger] s[i]).artist_id@) && has_logo(
            logos,
            s[i].logo_id@,
        )
}

/// The schedule table is well formed: pairwise ordered, monotonic
/// timestamps, and every present logo reference names an existing logo.
pub open spec fn schedule_wf(s: Seq<ScheduleEvent>, logos: Seq<Logo>) -> bool {
    &&& pairwise(s, event_rel())
    &&& forall|i: int|
        0 <= i < s.len() ==> (#[trigger] s[i]).created_at <= s[i].updated_at
    &&& forall|i: int|
        0 <= i < s.len() ==> ((#[trigger] s[i]).linked_logo_id matches Some(l) ==> has_logo(
            logos,
            l@,
        ))
}

/// The cycle table is well formed: strictly increasing positions, distinct
/// logos, every entry names an existing logo.
pub open spec fn cycle_wf(s: Seq<CycleEntry>, logos: Seq<Logo>) -> bool {
    &&& pairwise(s, cycle_rel())
    &&& forall|i: int| 0 <= i < s.len() ==> has_logo(logos, (#[trigger] s[i]).logo_id@)
}

/// A fresh artist row stands somewhere in `s_new`, which is otherwise
/// `s_old`: the row carries the given id, name and creation time, and the
/// defaults of a new row (no sync key, sync status `"new"`).
pub open spec fn artist_inserted(
    s_old: Seq<Artist>,
    s_new: Seq<Artist>,
    id: String,
    name: String,
    now: u64,
) -> bool {
    exists|p: int, row: Artist|
        0 <= p <= s_old.len() && row.id == id && row.name == name && row.vjtools_id is None
            && row.created_at == now && row.updated_at == now && row.sync_status@ == "new"@
            && s_new == s_old.insert(p, row)
}

/// A fresh logo row stands somewhere in `s_new`, which is otherwise `s_old`.
pub open spec fn logo_inserted(
    s_old: Seq<Logo>,
    s_new: Seq<Logo>,
    id: String,
    name: String,
    file_path: String,
    thumbnail_path: Option<String>,
    now: u64,
) -> bool {
    exists|p: int, row: Logo|
        0 <= p <= s_old.len() && row.id == id && row.name == name && row.file_path == file_path
            && row.thumbnail_path == thumbnail_path && row.vjtools_id is None && row.created_at
            == now && row.updated_at == now && row.sync_status@ == "new"@ && s_new == s_old.insert(
            p,
            row,
        )
}

/// A fresh schedule row stands somewhere in `s_new`, which is otherwise
/// `s_old`.
pub open spec fn event_inserted(
    s_old: Seq<ScheduleEvent>,
    s_new: Seq<ScheduleEvent>,
    id: String,
    event_time: String,
    name: String,
    event_type: String,
    duration_seconds: Option<u32>,
    linked_logo_id: Option<String>,
    now: u64,
) -> bool {
    exists|p: int, row: ScheduleEvent|
        0 <= p <= s_old.len() && row.id == id && row.event_time == event_time && row.name == name
            && row.event_type == event_type && row.duration_seconds == duration_seconds
            && row.linked_logo_id == linked_logo_id && row.created_at == now && row.updated_at
            == now && s_new == s_old.insert(p, row)
}

/// What linking leaves in the link table: unchanged when the pair is
/// already present, else the table with one fresh row appended.
pub open spec fn link_rows(
    links: Seq<ArtistLogoLink>,
    aid: String,
    lid: String,
    ov: bool,
) -> Seq<ArtistLogoLink> {
    if has_link(links, aid@, lid@) {
        links
    } else {
        links.push(ArtistLogoLink { artist_id: aid, logo_id: lid, is_local_override: ov })
    }
}

/// The stored override flag: absent means "synced from remote", not locally
/// overridden.
pub open spec fn override_flag(o: Option<bool>) -> bool {
    match o {
        Some(b) => b,
        None => false,
    }
}

/// Keeps the link rows whose pair is not the given one.
pub open spec fn not_pair(aid: Seq<char>, lid: Seq<char>) -> spec_fn(ArtistLogoLink) -> bool {
    |l: ArtistLogoLink| !(l.artist_id@ == aid && l.logo_id@ == lid)
}

/// Keeps the link rows whose pair is exactly the given one.
pub open spec fn is_pair(aid: Seq<char>, lid: Seq<char>) -> spec_fn(ArtistLogoLink) -> bool {
    |l: ArtistLogoLink| l.artist_id@ == aid && l.logo_id@ == lid
}

/// Keeps the artist rows whose id is not the given one.
pub open spec fn not_artist_id(aid: Seq<char>) -> spec_fn(Artist) -> bool {
    |a: Artist| a.id@ != aid
}

/// Keeps the link rows that do not point at the given artist.
pub open spec fn not_artist_link(aid: Seq<char>) -> spec_fn(ArtistLogoLink) -> bool {
    |l: ArtistLogoLink| l.artist_id@ != aid
}

/// Keeps the logo rows whose id is not the given one.
pub open spec fn not_logo_id(lid: Seq<char>) -> spec_fn(Logo) -> bool {
    |l: Logo| l.id@ != lid
}

/// Keeps the link rows that do not point at the given logo.
pub open spec fn not_logo_link(lid: Seq<char>) -> spec_fn(ArtistLogoLink) -> bool {
    |l: ArtistLogoLink| l.logo_id@ != lid
}

/// Keeps the cycle rows that do not point at the given logo.
pub open spec fn not_cycle_logo(lid: Seq<char>) -> spec_fn(CycleEntry) -> bool {
    |c: CycleEntry| c.logo_id@ != lid
}

/// A schedule row after a logo was deleted: a reference to that logo is
/// nulled out, anything else is untouched.
pub open spec fn clear_logo_ref(e: ScheduleEvent, lid: Seq<char>) -> ScheduleEvent {
    match e.linked_logo_id {
        Some(l) => if l@ == lid {
            ScheduleEvent {
                id: e.id,
                event_time: e.event_time,
                name: e.name,
                event_type: e.event_type,
                duration_seconds: e.duration_seconds,
                linked_logo_id: None,
                created_at: e.created_at,
                updated_at: e.updated_at,
            }
        } else {
            e
        },
        None => e,
    }
}

/// `clear_logo_ref` as a mapping over the schedule table.
pub open spec fn cleared(lid: Seq<char>) -> spec_fn(ScheduleEvent) -> ScheduleEvent {
    |e: ScheduleEvent| clear_logo_ref(e, lid)
}

/// As `artist_inserted`, for a row whose id and creation time were drawn
/// fresh at the call: the clock value is not pinned, only that creation
/// and update time start out equal.
pub open spec fn artist_added(s_old: Seq<Artist>, s_new: Seq<Artist>, id: String, name: String) -> bool {
    exists|p: int, row: Artist|
        0 <= p <= s_old.len() && row.id == id && row.name == name && row.vjtools_id is None
            && row.created_at == row.updated_at && row.sync_status@ == "new"@ && s_new
            == s_old.insert(p, row)
}

/// As `logo_inserted`, for a row whose id and creation time were drawn
/// fresh at the call.
pub open spec fn logo_added(
    s_old: Seq<Logo>,
    s_new: Seq<Logo>,
    id: String,
    name: String,
    file_path: String,
    thumbnail_path: Option<String>,
) -> bool {
    exists|p: int, row: Logo|
        0 <= p <= s_old.len() && row.id == id && row.name == name && row.file_path == file_path
            && row.thumbnail_path == thumbnail_path && row.vjtools_id is None && row.created_at
            == row.updated_at && row.sync_status@ == "new"@ && s_new == s_old.insert(p, row)
}

/// As `event_inserted`, for a row whose id and creation time were drawn
/// fresh at the call.
pub open spec fn event_added(
    s_old: Seq<ScheduleEvent>,
    s_new: Seq<ScheduleEvent>,
    id: String,
    event_time: String,
    name: String,
    event_type: String,
    duration_seconds: Option<u32>,
    linked_logo_id: Option<String>,
) -> bool {
    exists|p: int, row: ScheduleEvent|
        0 <= p <= s_old.len() && row.id == id && row.event_time == event_time && row.name == name
            && row.event_type == event_type && row.duration_seconds == duration_seconds
            && row.linked_logo_id == linked_logo_id && row.created_at == row.updated_at && s_new
            == s_old.insert(p, row)
}

/// An optional logo reference is in order: absent, or naming an existing
/// logo.
pub open spec fn logo_ref_ok(linked: Option<String>, logos: Seq<Logo>) -> bool {
    match linked {
        Some(l) => has_logo(logos, l@),
        None => true,
    }
}

/// Every requested id names an existing logo.
pub open spec fn all_ids_exist(ids: Seq<String>, logos: Seq<Logo>) -> bool {
    forall|i: int| 0 <= i < ids.len() ==> has_logo(logos, (#[trigger] ids[i])@)
}

/// No id is requested twice.
pub open spec fn ids_distinct(ids: Seq<String>) -> bool {
    forall|i: int, j: int|
        #![trigger ids[i], ids[j]]
        0 <= i < j < ids.len() ==> ids[i]@ != ids[j]@
}

/// The cycle table mirrors the requested order exactly: entry `i` plays the
/// `i`-th requested logo at position `i`, with the default status.
pub open spec fn cycle_matches(c: Seq<CycleEntry>, ids: Seq<String>) -> bool {
    &&& c.len() == ids.len()
    &&& forall|i: int|
        0 <= i < c.len() ==> (#[trigger] c[i]).logo_id == ids[i] && c[i].order_index == i as u32
            && c[i].status@ == "cycle"@
}

/// The name on the first artist row carrying this id.
pub open spec fn artist_name_of(s: Seq<Artist>, id: Seq<char>) -> Option<String>
    decreases s.len(),
{
    if s.len() == 0 {
        None
    } else if s[0].id@ == id {
        Some(s[0].name)
    } else {
        artist_name_of(s.drop_first(), id)
    }
}

/// The name on the first logo row carrying this id.
pub open spec fn logo_name_of(s: Seq<Logo>, id: Seq<char>) -> Option<String>
    decreases s.len(),
{
    if s.len() == 0 {
        None
    } else if s[0].id@ == id {
        Some(s[0].name)
    } else {
        logo_name_of(s.drop_first(), id)
    }
}

/// The artist names joined onto a logo at read time: one name per link row
/// pointing at the logo, in the order the link table holds them.
pub open spec fn linked_names(
    links: Seq<ArtistLogoLink>,
    artists: Seq<Artist>,
    lid: Seq<char>,
) -> Seq<String>
    decreases links.len(),
{
    if links.len() == 0 {
        Seq::empty()
    } else {
        let rest = linked_names(links.drop_last(), artists, lid);
        if links.last().logo_id@ == lid {
            rest.push(artist_name_of(artists, links.last().artist_id@)->Some_0)
        } else {
            rest
        }
    }
}

/// Keeps the logo rows linked to the given artist.
pub open spec fn logo_linked_to(links: Seq<ArtistLogoLink>, aid: Seq<char>) -> spec_fn(
    Logo,
) -> bool {
    |lg: Logo| has_link(links, aid, lg.id@)
}

/// A schedule row as a listing returns it.
pub open spec fn event_item(e: ScheduleEvent) -> ScheduleItem {
    ScheduleItem {
        id: e.id,
        time: e.event_time,
        name: e.name,
        event_type: e.event_type,
        duration_seconds: e.duration_seconds,
        linked_logo_id: e.linked_logo_id,
    }
}

/// Looks up the name of an existing artist.
fn artist_name_by_id(artists: &Vec<Artist>, id: &String) -> (r: String)
    requires
        has_artist(artists@, id@),
    ensures
        Some(r) == artist_name_of(artists@, id@),
{
    let n = artists.len();
    let mut i: usize = 0;
    proof {
        assert(artists@.skip(0) =~= artists@);
    }
    while i < n
        invariant
            n == artists@.len(),
            i <= n,
            has_artist(artists@.skip(i as int), id@),
            artist_name_of(artists@.skip(i as int), id@) == artist_name_of(artists@, id@),
        decreases n - i,
    {
        if artists[i].id == *id {
            proof {
                assert(artists@.skip(i as int)[0] == artists@[i as int]);
            }
            return artists[i].name.clone();
        }
        proof {
            let s = artists@.skip(i as int);
            assert(s.drop_first() =~= artists@.skip(i as int + 1));
            let j = choose|j: int| 0 <= j < s.len() && #[trigger] s[j].id@ == id@;
            assert(s.drop_first()[j - 1] == s[j]);
        }
        i += 1;
    }
    proof {
        assert(artists@.skip(n as int) =~= Seq::<Artist>::empty());
        assert(false);
    }
    vstd::pervasive::unreached()
}

/// Looks up the name of an existing logo.
fn logo_name_by_id(logos: &Vec<Logo>, id: &String) -> (r: String)
    requires
        has_logo(logos@, id@),
    ensures
        Some(r) == logo_name_of(logos@, id@),
{
    let n = logos.len();
    let mut i: usize = 0;
    proof {
        assert(logos@.skip(0) =~= logos@);
    }
    while i < n
        invariant
            n == logos@.len(),
            i <= n,
            has_logo(logos@.skip(i as int), id@),
            logo_name_of(logos@.skip(i as int), id@) == logo_name_of(logos@, id@),
        decreases n - i,
    {
        if logos[i].id == *id {
            proof {
                assert(logos@.skip(i as int)[0] == logos@[i as int]);
            }
            return logos[i].name.clone();
        }
        proof {
            let s = logos@.skip(i as int);
            assert(s.drop_first() =~= logos@.skip(i as int + 1));
            let j = choose|j: int| 0 <= j < s.len() && #[trigger] s[j].id@ == id@;
            assert(s.drop_first()[j - 1] == s[j]);
        }
        i += 1;
    }
    proof {
        assert(logos@.skip(n as int) =~= Seq::<Logo>::empty());
        assert(false);
    }
    vstd::pervasive::unreached()
}

/// An artist row that the filter keeps still answers for its id.
proof fn lemma_has_artist_filter(s: Seq<Artist>, pred: spec_fn(Artist) -> bool, j: int)
    requires
        0 <= j < s.len(),
        pred(s[j]),
    ensures
        has_artist(s.filter(pred), s[j].id@),
{
    Seq::lemma_filter_contains(s, pred, j);
    let f = s.filter(pred);
    let m = choose|m: int| 0 <= m < f.len() && f[m] == s[j];
    assert(f[m].id@ == s[j].id@);
}

/// A logo row that the filter keeps still answers for its id.
pub proof fn lemma_has_logo_filter(s: Seq<Logo>, pred: spec_fn(Logo) -> bool, j: int)
    requires
        0 <= j < s.len(),
        pred(s[j]),
    ensures
        has_logo(s.filter(pred), s[j].id@),
{
    Seq::lemma_filter_contains(s, pred, j);
    let f = s.filter(pred);
    let m = choose|m: int| 0 <= m < f.len() && f[m] == s[j];
    assert(f[m].id@ == s[j].id@);
}

/// An existing artist id survives an insertion elsewhere in the table.
proof fn lemma_has_artist_insert(s: Seq<Artist>, p: int, x: Artist, id: Seq<char>)
    requires
        0 <= p <= s.len(),
        has_artist(s, id),
    ensures
        has_artist(s.insert(p, x), id),
{
    s.insert_ensures(p, x);
    let j = choose|j: int| 0 <= j < s.len() && #[trigger] s[j].id@ == id;
    if j < p {
        assert(s.insert(p, x)[j] == s[j]);
    } else {
        assert(s.insert(p, x)[j + 1] == s[j]);
    }
}

/// An existing logo id survives an insertion elsewhere in the table.
proof fn lemma_has_logo_insert(s: Seq<Logo>, p: int, x: Logo, id: Seq<char>)
    requires
        0 <= p <= s.len(),
        has_logo(s, id),
    ensures
        has_logo(s.insert(p, x), id),
{
    s.insert_ensures(p, x);
    let j = choose|j: int| 0 <= j < s.len() && #[trigger] s[j].id@ == id;
    if j < p {
        assert(s.insert(p, x)[j] == s[j]);
    } else {
        assert(s.insert(p, x)[j + 1] == s[j]);
    }
}

/// The position where a row with this name belongs: after every row whose
/// name is `str_le` the new one, before the rest.
fn artist_insert_pos(artists: &Vec<Artist>, name: &String) -> (p: usize)
    ensures
        p <= artists@.len(),
        forall|j: int| 0 <= j < p ==> str_le((#[trigger] artists@[j]).name@, name@),
        p < artists@.len() ==> !str_le(artists@[p as int].name@, name@),
{
    let n = artists.len();
    let mut p: usize = 0;
    while p < n && str_le_exec(artists[p].name.as_str(), name.as_str())
        invariant
            n == artists@.len(),
            p <= n,
            forall|j: int| 0 <= j < p ==> str_le((#[trigger] artists@[j]).name@, name@),
        decreases n - p,
    {
        p += 1;
    }
    p
}

/// As `artist_insert_pos`, for the logos table.
fn logo_insert_pos(logos: &Vec<Logo>, name: &String) -> (p: usize)
    ensures
        p <= logos@.len(),
        forall|j: int| 0 <= j < p ==> str_le((#[trigger] logos@[j]).name@, name@),
        p < logos@.len() ==> !str_le(logos@[p as int].name@, name@),
{
    let n = logos.len();
    let mut p: usize = 0;
    while p < n && str_le_exec(logos[p].name.as_str(), name.as_str())
        invariant
            n == logos@.len(),
            p <= n,
            forall|j: int| 0 <= j < p ==> str_le((#[trigger] logos@[j]).name@, name@),
        decreases n - p,
    {
        p += 1;
    }
    p
}

/// As `artist_insert_pos`, for the schedule table, keyed by event time.
fn event_insert_pos(schedule: &Vec<ScheduleEvent>, event_time: &String) -> (p: usize)
    ensures
        p <= schedule@.len(),
        forall|j: int| 0 <= j < p ==> str_le((#[trigger] schedule@[j]).event_time@, event_time@),
        p < schedule@.len() ==> !str_le(schedule@[p as int].event_time@, event_time@),
{
    let n = schedule.len();
    let mut p: usize = 0;
    while p < n && str_le_exec(schedule[p].event_time.as_str(), event_time.as_str())
        invariant
            n == schedule@.len(),
            p <= n,
            forall|j: int|
                0 <= j < p ==> str_le((#[trigger] schedule@[j]).event_time@, event_time@),
        decreases n - p,
    {
        p += 1;
    }
    p
}

/// The metadata store. An application opens one at startup and keeps it for
/// its lifetime; every operation requires and preserves `wf`.
pub struct MetadataStore {
    pub artists: Vec<Artist>,
    pub logos: Vec<Logo>,
    pub links: Vec<ArtistLogoLink>,
    pub schedule: Vec<ScheduleEvent>,
    pub cycle: Vec<CycleEntry>,
}

impl MetadataStore {
    /// The store's integrity invariant.
    pub open spec fn wf(&self) -> bool {
        &&& artists_wf(self.artists@)
        &&& logos_wf(self.logos@)
        &&& links_wf(self.links@, self.artists@, self.logos@)
        &&& schedule_wf(self.schedule@, self.logos@)
        &&& cycle_wf(self.cycle@, self.logos@)
    }

    /// An empty store: what a fresh backing file holds after the idempotent
    /// schema statements ran.
    pub fn new() -> (r: MetadataStore)
        ensures
            r.wf(),
            r.artists@ == Seq::<Artist>::empty(),
            r.logos@ == Seq::<Logo>::empty(),
            r.links@ == Seq::<ArtistLogoLink>::empty(),
            r.schedule@ == Seq::<ScheduleEvent>::empty(),
            r.cycle@ == Seq::<CycleEntry>::empty(),
    {
        MetadataStore {
            artists: Vec::new(),
            logos: Vec::new(),
            links: Vec::new(),
            schedule: Vec::new(),
            cycle: Vec::new(),
        }
    }

    /// Whether an artist with this id exists.
    pub fn contains_artist(&self, id: &String) -> (r: bool)
        ensures
            r == has_artist(self.artists@, id@),
    {
        let n = self.artists.len();
        let mut i: usize = 0;
        while i < n
            invariant
                n == self.artists@.len(),
                i <= n,
                forall|j: int| 0 <= j < i ==> #[trigger] self.artists@[j].id@ != id@,
            decreases n - i,
        {
            if self.artists[i].id == *id {
                return true;
            }
            i += 1;
        }
        false
    }

    /// Whether a logo with this id exists.
    pub fn contains_logo(&self, id: &String) -> (r: bool)
        ensures
            r == has_logo(self.logos@, id@),
    {
        let n = self.logos.len();
        let mut i: usize = 0;
        while i < n
            invariant
                n == self.logos@.len(),
                i <= n,
                forall|j: int| 0 <= j < i ==> #[trigger] self.logos@[j].id@ != id@,
            decreases n - i,
        {
            if self.logos[i].id == *id {
                return true;
            }
            i += 1;
        }
        false
    }

    /// Whether a logo with this file path exists.
    pub fn contains_file_path(&self, path: &String) -> (r: bool)
        ensures
            r == has_file_path(self.logos@, path@),
    {
        let n = self.logos.len();
        let mut i: usize = 0;
        while i < n
            invariant
                n == self.logos@.len(),
                i <= n,
                forall|j: int| 0 <= j < i ==> #[trigger] self.logos@[j].file_path@ != path@,
            decreases n - i,
        {
            if self.logos[i].file_path == *path {
                return true;
            }
            i += 1;
        }
        false
    }

    /// Whether a link row with this `(artist_id, logo_id)` pair exists.
    pub fn contains_link(&self, artist_id: &String, logo_id: &String) -> (r: bool)
        ensures
            r == has_link(self.links@, artist_id@, logo_id@),
    {
        let n = self.links.len();
        let mut i: usize = 0;
        while i < n
            invariant
                n == self.links@.len(),
                i <= n,
                forall|j: int|
                    0 <= j < i ==> !((#[trigger] self.links@[j]).artist_id@ == artist_id@
                        && self.links@[j].logo_id@ == logo_id@),
            decreases n - i,
        {
            if self.links[i].artist_id == *artist_id && self.links[i].logo_id == *logo_id {
                return true;
            }
            i += 1;
        }
        false
    }


    /// Whether a schedule event with this id exists.
    pub fn contains_event(&self, id: &String) -> (r: bool)
        ensures
            r == has_event(self.schedule@, id@),
    {
        let n = self.schedule.len();
        let mut i: usize = 0;
        while i < n
            invariant
                n == self.schedule@.len(),
                i <= n,
                forall|j: int| 0 <= j < i ==> #[trigger] self.schedule@[j].id@ != id@,
            decreases n - i,
        {
            if self.schedule[i].id == *id {
                return true;
            }
            i += 1;
        }
        false
    }

    /// Checks the artists table against `artists_wf`.
    fn artists_table_ok(&self) -> (r: bool)
        ensures
            r == artists_wf(self.artists@),
    {
        let n = self.artists.len();
        let mut i: usize = 0;
        while i < n
            invariant
                n == self.artists@.len(),
                i <= n,
                forall|a: int, b: int|
                    0 <= a < b < n && a < i ==> #[trigger] artist_rel()(
                        self.artists@[a],
                        self.artists@[b],
                    ),
                forall|a: int|
                    0 <= a < i ==> (#[trigger] self.artists@[a]).created_at
                        <= self.artists@[a].updated_at,
            decreases n - i,
        {
            if self.artists[i].created_at > self.artists[i].updated_at {
                return false;
            }
            let mut j: usize = i + 1;
            while j < n
                invariant
                    n == self.artists@.len(),
                    i < j <= n,
                    forall|b: int|
                        i < b < n && b < j ==> #[trigger] artist_rel()(
                            self.artists@[i as int],
                            self.artists@[b],
                        ),
                decreases n - j,
            {
                if self.artists[i].id == self.artists[j].id {
                    proof {
                        assert(!artist_rel()(self.artists@[i as int], self.artists@[j as int]));
                    }
                    return false;
                }
                if !str_le_exec(self.artists[i].name.as_str(), self.artists[j].name.as_str()) {
                    proof {
                        assert(!artist_rel()(self.artists@[i as int], self.artists@[j as int]));
                    }
                    return false;
                }
                j += 1;
            }
            i += 1;
        }
        true
    }

    /// Checks the logos table against `logos_wf`.
    fn logos_table_ok(&self) -> (r: bool)
        ensures
            r == logos_wf(self.logos@),
    {
        let n = self.logos.len();
        let mut i: usize = 0;
        while i < n
            invariant
                n == self.logos@.len(),
                i <= n,
                forall|a: int, b: int|
                    0 <= a < b < n && a < i ==> #[trigger] logo_rel()(
                        self.logos@[a],
                        self.logos@[b],
                    ),
                forall|a: int|
                    0 <= a < i ==> (#[trigger] self.logos@[a]).created_at
                        <= self.logos@[a].updated_at,
            decreases n - i,
        {
            if self.logos[i].created_at > self.logos[i].updated_at {
                return false;
            }
            let mut j: usize = i + 1;
            while j < n
                invariant
                    n == self.logos@.len(),
                    i < j <= n,
                    forall|b: int|
                        i < b < n && b < j ==> #[trigger] logo_rel()(
                            self.logos@[i as int],
                            self.logos@[b],
                        ),
                decreases n - j,
            {
                if self.logos[i].id == self.logos[j].id {
                    proof {
                        assert(!logo_rel()(self.logos@[i as int], self.logos@[j as int]));
                    }
                    return false;
                }
                if self.logos[i].file_path == self.logos[j].file_path {
                    proof {
                        assert(!logo_rel()(self.logos@[i as int], self.logos@[j as int]));
                    }
                    return false;
                }
                if !str_le_exec(self.logos[i].name.as_str(), self.logos[j].name.as_str()) {
                    proof {
                        assert(!logo_rel()(self.logos@[i as int], self.logos@[j as int]));
                    }
                    return false;
                }
                j += 1;
            }
            i += 1;
        }
        true
    }

    /// Checks the link table against `links_wf`.
    fn links_table_ok(&self) -> (r: bool)
        ensures
            r == links_wf(self.links@, self.artists@, self.logos@),
    {
        let n = self.links.len();
        let mut i: usize = 0;
        while i < n
            invariant
                n == self.links@.len(),
                i <= n,
                forall|a: int, b: int|
                    0 <= a < b < n && a < i ==> #[trigger] link_rel()(
                        self.links@[a],
                        self.links@[b],
                    ),
                forall|a: int|
                    0 <= a < i ==> has_artist(self.artists@, (#[trigger] self.links@[a]).artist_id@)
                        && has_logo(self.logos@, self.links@[a].logo_id@),
            decreases n - i,
        {
            if !self.contains_artist(&self.links[i].artist_id) {
                return false;
            }
            if !self.contains_logo(&self.links[i].logo_id) {
                return false;
            }
            let mut j: usize = i + 1;
            while j < n
                invariant
                    n == self.links@.len(),
                    i < j <= n,
                    forall|b: int|
                        i < b < n && b < j ==> #[trigger] link_rel()(
                            self.links@[i as int],
                            self.links@[b],
                        ),
                decreases n - j,
            {
                if self.links[i].artist_id == self.links[j].artist_id && self.links[i].logo_id
                    == self.links[j].logo_id {
                    proof {
                        assert(!link_rel()(self.links@[i as int], self.links@[j as int]));
                    }
                    return false;
                }
                j += 1;
            }
            i += 1;
        }
        true
    }

    /// Checks the schedule table against `schedule_wf`.
    fn schedule_table_ok(&self) -> (r: bool)
        ensures
            r == schedule_wf(self.schedule@, self.logos@),
    {
        let n = self.schedule.len();
        let mut i: usize = 0;
        while i < n
            invariant
                n == self.schedule@.len(),
                i <= n,
                forall|a: int, b: int|
                    0 <= a < b < n && a < i ==> #[trigger] event_rel()(
                        self.schedule@[a],
                        self.schedule@[b],
                    ),
                forall|a: int|
                    0 <= a < i ==> (#[trigger] self.schedule@[a]).created_at
                        <= self.schedule@[a].updated_at,
                forall|a: int|
                    0 <= a < i ==> ((#[trigger] self.schedule@[a]).linked_logo_id matches Some(l)
                        ==> has_logo(self.logos@, l@)),
            decreases n - i,
        {
            if self.schedule[i].created_at > self.schedule[i].updated_at {
                return false;
            }
            match &self.schedule[i].linked_logo_id {
                Some(l) => {
                    if !self.contains_logo(l) {
                        return false;
                    }
                },
                None => {},
            }
            let mut j: usize = i + 1;
            while j < n
                invariant
                    n == self.schedule@.len(),
                    i < j <= n,
                    forall|b: int|
                        i < b < n && b < j ==> #[trigger] event_rel()(
                            self.schedule@[i as int],
                            self.schedule@[b],
                        ),
                decreases n - j,
            {
                if self.schedule[i].id == self.schedule[j].id {
                    proof {
                        assert(!event_rel()(self.schedule@[i as int], self.schedule@[j as int]));
                    }
                    return false;
                }
                if !str_le_exec(
                    self.schedule[i].event_time.as_str(),
                    self.schedule[j].event_time.as_str(),
                ) {
                    proof {
                        assert(!event_rel()(self.schedule@[i as int], self.schedule@[j as int]));
                    }
                    return false;
                }
                j += 1;
            }
            i += 1;
        }
        true
    }

    /// Checks the cycle table against `cycle_wf`.
    fn cycle_table_ok(&self) -> (r: bool)
        ensures
            r == cycle_wf(self.cycle@, self.logos@),
    {
        let n = self.cycle.len();
        let mut i: usize = 0;
        while i < n
            invariant
                n == self.cycle@.len(),
                i <= n,
                forall|a: int, b: int|
                    0 <= a < b < n && a < i ==> #[trigger] cycle_rel()(
                        self.cycle@[a],
                        self.cycle@[b],
                    ),
                forall|a: int|
                    0 <= a < i ==> has_logo(self.logos@, (#[trigger] self.cycle@[a]).logo_id@),
            decreases n - i,
        {
            if !self.contains_logo(&self.cycle[i].logo_id) {
                return false;
            }
            let mut j: usize = i + 1;
            while j < n
                invariant
                    n == self.cycle@.len(),
                    i < j <= n,
                    forall|b: int|
                        i < b < n && b < j ==> #[trigger] cycle_rel()(
                            self.cycle@[i as int],
                            self.cycle@[b],
                        ),
                decreases n - j,
            {
                if self.cycle[i].order_index >= self.cycle[j].order_index {
                    proof {
                        assert(!cycle_rel()(self.cycle@[i as int], self.cycle@[j as int]));
                    }
                    return false;
                }
                if self.cycle[i].logo_id == self.cycle[j].logo_id {
                    proof {
                        assert(!cycle_rel()(self.cycle@[i as int], self.cycle@[j as int]));
                    }
                    return false;
                }
                j += 1;
            }
            i += 1;
        }
        true
    }

    /// Decides the invariant at run time: returns exactly `wf`. An
    /// application that rebuilds a store from an outside source — a backing
    /// file another writer may have touched — calls this before trusting
    /// the result.
    pub fn check_wf(&self) -> (r: bool)
        ensures
            r == self.wf(),
    {
        self.artists_table_ok() && self.logos_table_ok() && self.links_table_ok()
            && self.schedule_table_ok() && self.cycle_table_ok()
    }

    /// Adds an artist under a caller-supplied fresh id and creation time.
    /// Succeeds exactly when the id is not yet taken; a taken id is refused
    /// as the underlying engine would refuse a duplicate key.
    pub fn add_artist_with_id(&mut self, id: String, name: String, now: u64) -> (r: Result<
        (),
        StoreError,
    >)
        requires
            old(self).wf(),
        ensures
            final(self).wf(),
            r is Ok <==> !has_artist(old(self).artists@, id@),
            r is Ok ==> artist_inserted(old(self).artists@, final(self).artists@, id, name, now),
            r is Err ==> final(self).artists@ == old(self).artists@ && r == Err::<
                (),
                StoreError,
            >(StoreError::QueryFailure),
            final(self).logos@ == old(self).logos@,
            final(self).links@ == old(self).links@,
            final(self).schedule@ == old(self).schedule@,
            final(self).cycle@ == old(self).cycle@,
    {
        if self.contains_artist(&id) {
            return Err(StoreError::QueryFailure);
        }
        let p = artist_insert_pos(&self.artists, &name);
        let row = Artist {
            id,
            name,
            vjtools_id: None,
            created_at: now,
            updated_at: now,
            sync_status: "new".to_owned(),
        };
        let ghost s_old = self.artists@;
        let ghost grow = row;
        proof {
            assert forall|i: int| 0 <= i < p as int implies artist_rel()(s_old[i], grow) by {
                assert(s_old[i].id@ != grow.id@);
                assert(str_le(s_old[i].name@, grow.name@));
            }
            assert forall|i: int| p as int <= i < s_old.len() implies artist_rel()(
                grow,
                s_old[i],
            ) by {
                assert(s_old[i].id@ != grow.id@);
                lemma_bytes_le_total(encode_utf8(grow.name@), encode_utf8(s_old[p as int].name@));
                if i > p as int {
                    assert(artist_rel()(s_old[p as int], s_old[i]));
                    lemma_bytes_le_trans(
                        encode_utf8(grow.name@),
                        encode_utf8(s_old[p as int].name@),
                        encode_utf8(s_old[i].name@),
                    );
                }
            }
            lemma_insert_pairwise(s_old, artist_rel(), p as int, grow);
            s_old.insert_ensures(p as int, grow);
        }
        self.artists.insert(p, row);
        proof {
            assert forall|i: int| 0 <= i < self.links@.len() implies has_artist(
                self.artists@,
                (#[trigger] self.links@[i]).artist_id@,
            ) && has_logo(self.logos@, self.links@[i].logo_id@) by {
                lemma_has_artist_insert(s_old, p as int, grow, self.links@[i].artist_id@);
            }
        }
        Ok(())
    }

    /// Adds an artist under a freshly drawn random id, timestamped with the
    /// wall clock, and returns the new id. The one failure is a drawn id
    /// that is already taken, reported as the engine would report a
    /// duplicate key; since every drawn id is 36 characters long, the call
    /// is owed success whenever no stored id has that length — in
    /// particular on an empty store.
    pub fn add_artist(&mut self, name: String) -> (r: Result<String, StoreError>)
        requires
            old(self).wf(),
        ensures
            final(self).wf(),
            (forall|i: int|
                0 <= i < old(self).artists@.len() ==> (#[trigger] old(self).artists@[i]).id@.len()
                    != 36) ==> r is Ok,
            r is Ok ==> artist_added(old(self).artists@, final(self).artists@, r->Ok_0, name),
            r is Err ==> final(self).artists@ == old(self).artists@ && r == Err::<
                String,
                StoreError,
            >(StoreError::QueryFailure),
            final(self).logos@ == old(self).logos@,
            final(self).links@ == old(self).links@,
            final(self).schedule@ == old(self).schedule@,
            final(self).cycle@ == old(self).cycle@,
    {
        let id = crate::idgen::random_uuid_string();
        let now = crate::idgen::current_timestamp();
        let returned = id.clone();
        let ghost gname = name;
        match self.add_artist_with_id(id, name, now) {
            Ok(()) => {
                proof {
                    assert(artist_inserted(
                        old(self).artists@,
                        self.artists@,
                        returned,
                        gname,
                        now,
                    ));
                    let (p, row) = choose|p: int, row: Artist|
                        0 <= p <= old(self).artists@.len() && row.id == returned && row.name
                            == gname && row.vjtools_id is None && row.created_at == now
                            && row.updated_at == now && row.sync_status@ == "new"@
                            && self.artists@ == old(self).artists@.insert(p, row);
                    assert(self.artists@ == old(self).artists@.insert(p, row));
                    assert(artist_added(old(self).artists@, self.artists@, returned, gname));
                }
                Ok(returned)
            },
            Err(e) => {
                proof {
                    let i = choose|i: int|
                        0 <= i < old(self).artists@.len() && #[trigger] old(
                            self,
                        ).artists@[i].id@ == returned@;
                    assert(old(self).artists@[i].id@.len() == 36);
                }
                Err(e)
            },
        }
    }

    /// Adds a logo under a freshly drawn random id, timestamped with the
    /// wall clock, and returns the new id. A file path that is already
    /// catalogued is refused as `DuplicatePath` and the catalog is left
    /// unchanged; since every drawn id is 36 characters long, the call is
    /// owed success whenever the file path is free and no stored logo id
    /// has that length — in particular on an empty catalog.
    pub fn add_logo(
        &mut self,
        name: String,
        file_path: String,
        thumbnail_path: Option<String>,
    ) -> (r: Result<String, StoreError>)
        requires
            old(self).wf(),
        ensures
            final(self).wf(),
            !has_file_path(old(self).logos@, file_path@) && (forall|i: int|
                0 <= i < old(self).logos@.len() ==> (#[trigger] old(self).logos@[i]).id@.len()
                    != 36) ==> r is Ok,
            r is Ok ==> logo_added(
                old(self).logos@,
                final(self).logos@,
                r->Ok_0,
                name,
                file_path,
                thumbnail_path,
            ),
            r == Err::<String, StoreError>(StoreError::DuplicatePath) <==> has_file_path(
                old(self).logos@,
                file_path@,
            ),
            r is Err ==> final(self).logos@ == old(self).logos@,
            final(self).artists@ == old(self).artists@,
            final(self).links@ == old(self).links@,
            final(self).schedule@ == old(self).schedule@,
            final(self).cycle@ == old(self).cycle@,
    {
        let id = crate::idgen::random_uuid_string();
        let now = crate::idgen::current_timestamp();
        let returned = id.clone();
        let ghost gname = name;
        let ghost gpath = file_path;
        let ghost gthumb = thumbnail_path;
        match self.add_logo_with_id(id, name, file_path, thumbnail_path, now) {
            Ok(()) => {
                proof {
                    assert(logo_inserted(
                        old(self).logos@,
                        self.logos@,
                        returned,
                        gname,
                        gpath,
                        gthumb,
                        now,
                    ));
                    let (p, row) = choose|p: int, row: Logo|
                        0 <= p <= old(self).logos@.len() && row.id == returned && row.name == gname
                            && row.file_path == gpath && row.thumbnail_path == gthumb
                            && row.vjtools_id is None && row.created_at == now && row.updated_at
                            == now && row.sync_status@ == "new"@ && self.logos@
                            == old(self).logos@.insert(p, row);
                    assert(self.logos@ == old(self).logos@.insert(p, row));
                    assert(logo_added(
                        old(self).logos@,
                        self.logos@,
                        returned,
                        gname,
                        gpath,
                        gthumb,
                    ));
                }
                Ok(returned)
            },
            Err(e) => {
                proof {
                    if has_logo(old(self).logos@, returned@) {
                        let i = choose|i: int|
                            0 <= i < old(self).logos@.len() && #[trigger] old(
                                self,
                            ).logos@[i].id@ == returned@;
                        assert(old(self).logos@[i].id@.len() == 36);
                    }
                }
                Err(e)
            },
        }
    }

    /// Adds a schedule event under a freshly drawn random id, timestamped
    /// with the wall clock, and returns the new id. A present logo
    /// reference must name an existing logo, else `InvalidReference`;
    /// since every drawn id is 36 characters long, the call is owed
    /// success whenever the reference is in order and no stored event id
    /// has that length — in particular on an empty schedule.
    pub fn add_schedule_event(
        &mut self,
        event_time: String,
        name: String,
        event_type: String,
        duration_seconds: Option<u32>,
        linked_logo_id: Option<String>,
    ) -> (r: Result<String, StoreError>)
        requires
            old(self).wf(),
        ensures
            final(self).wf(),
            logo_ref_ok(linked_logo_id, old(self).logos@) && (forall|i: int|
                0 <= i < old(self).schedule@.len() ==> (#[trigger] old(
                    self,
                ).schedule@[i]).id@.len() != 36) ==> r is Ok,
            r is Ok ==> event_added(
                old(self).schedule@,
                final(self).schedule@,
                r->Ok_0,
                event_time,
                name,
                event_type,
                duration_seconds,
                linked_logo_id,
            ),
            r == Err::<String, StoreError>(StoreError::InvalidReference) <==> !logo_ref_ok(
                linked_logo_id,
                old(self).logos@,
            ),
            r is Err ==> final(self).schedule@ == old(self).schedule@,
            final(self).artists@ == old(self).artists@,
            final(self).logos@ == old(self).logos@,
            final(self).links@ == old(self).links@,
            final(self).cycle@ == old(self).cycle@,
    {
        let id = crate::idgen::random_uuid_string();
        let now = crate::idgen::current_timestamp();
        let returned = id.clone();
        let ghost gtime = event_time;
        let ghost gname = name;
        let ghost gtype = event_type;
        let ghost glinked = linked_logo_id;
        match self.add_schedule_event_with_id(
            id,
            event_time,
            name,
            event_type,
            duration_seconds,
            linked_logo_id,
            now,
        ) {
            Ok(()) => {
                proof {
                    assert(event_inserted(
                        old(self).schedule@,
                        self.schedule@,
                        returned,
                        gtime,
                        gname,
                        gtype,
                        duration_seconds,
                        glinked,
                        now,
                    ));
                    let (p, row) = choose|p: int, row: ScheduleEvent|
                        0 <= p <= old(self).schedule@.len() && row.id == returned && row.event_time
                            == gtime && row.name == gname && row.event_type == gtype
                            && row.duration_seconds == duration_seconds && row.linked_logo_id
                            == glinked && row.created_at == now && row.updated_at == now
                            && self.schedule@ == old(self).schedule@.insert(p, row);
                    assert(self.schedule@ == old(self).schedule@.insert(p, row));
                    assert(event_added(
                        old(self).schedule@,
                        self.schedule@,
                        returned,
                        gtime,
                        gname,
                        gtype,
                        duration_seconds,
                        glinked,
                    ));
                }
                Ok(returned)
            },
            Err(e) => {
                proof {
                    if has_event(old(self).schedule@, returned@) {
                        let i = choose|i: int|
                            0 <= i < old(self).schedule@.len() && #[trigger] old(
                                self,
                            ).schedule@[i].id@ == returned@;
                        assert(old(self).schedule@[i].id@.len() == 36);
                    }
                }
                Err(e)
            },
        }
    }

    /// Adds a logo under a caller-supplied fresh id and creation time.
    /// A file path that is already catalogued is refused as `DuplicatePath`;
    /// a taken id as the engine would refuse a duplicate key.
    pub fn add_logo_with_id(
        &mut self,
        id: String,
        name: String,
        file_path: String,
        thumbnail_path: Option<String>,
        now: u64,
    ) -> (r: Result<(), StoreError>)
        requires
            old(self).wf(),
        ensures
            final(self).wf(),
            r is Ok <==> !has_file_path(old(self).logos@, file_path@) && !has_logo(
                old(self).logos@,
                id@,
            ),
            r == Err::<(), StoreError>(StoreError::DuplicatePath) <==> has_file_path(
                old(self).logos@,
                file_path@,
            ),
            r == Err::<(), StoreError>(StoreError::QueryFailure) <==> !has_file_path(
                old(self).logos@,
                file_path@,
            ) && has_logo(old(self).logos@, id@),
            r is Ok ==> logo_inserted(
                old(self).logos@,
                final(self).logos@,
                id,
                name,
                file_path,
                thumbnail_path,
                now,
            ),
            r is Err ==> final(self).logos@ == old(self).logos@,
            final(self).artists@ == old(self).artists@,
            final(self).links@ == old(self).links@,
            final(self).schedule@ == old(self).schedule@,
            final(self).cycle@ == old(self).cycle@,
    {
        if self.contains_file_path(&file_path) {
            return Err(StoreError::DuplicatePath);
        }
        if self.contains_logo(&id) {
            return Err(StoreError::QueryFailure);
        }
        let p = logo_insert_pos(&self.logos, &name);
        let row = Logo {
            id,
            name,
            file_path,
            thumbnail_path,
            vjtools_id: None,
            created_at: now,
            updated_at: now,
            sync_status: "new".to_owned(),
        };
        let ghost s_old = self.logos@;
        let ghost grow = row;
        proof {
            assert forall|i: int| 0 <= i < p as int implies logo_rel()(s_old[i], grow) by {
                assert(s_old[i].id@ != grow.id@);
                assert(s_old[i].file_path@ != grow.file_path@);
                assert(str_le(s_old[i].name@, grow.name@));
            }
            assert forall|i: int| p as int <= i < s_old.len() implies logo_rel()(
                grow,
                s_old[i],
            ) by {
                assert(s_old[i].id@ != grow.id@);
                assert(s_old[i].file_path@ != grow.file_path@);
                lemma_bytes_le_total(encode_utf8(grow.name@), encode_utf8(s_old[p as int].name@));
                if i > p as int {
                    assert(logo_rel()(s_old[p as int], s_old[i]));
                    lemma_bytes_le_trans(
                        encode_utf8(grow.name@),
                        encode_utf8(s_old[p as int].name@),
                        encode_utf8(s_old[i].name@),
                    );
                }
            }
            lemma_insert_pairwise(s_old, logo_rel(), p as int, grow);
            s_old.insert_ensures(p as int, grow);
        }
        self.logos.insert(p, row);
        proof {
            assert forall|i: int| 0 <= i < self.links@.len() implies has_artist(
                self.artists@,
                (#[trigger] self.links@[i]).artist_id@,
            ) && has_logo(self.logos@, self.links@[i].logo_id@) by {
                lemma_has_logo_insert(s_old, p as int, grow, self.links@[i].logo_id@);
            }
            assert forall|i: int|
                0 <= i < self.schedule@.len() implies ((#[trigger] self.schedule@[i]).linked_logo_id
                matches Some(l) ==> has_logo(self.logos@, l@)) by {
                if self.schedule@[i].linked_logo_id is Some {
                    lemma_has_logo_insert(
                        s_old,
                        p as int,
                        grow,
                        self.schedule@[i].linked_logo_id->Some_0@,
                    );
                }
            }
            assert forall|i: int| 0 <= i < self.cycle@.len() implies has_logo(
                self.logos@,
                (#[trigger] self.cycle@[i]).logo_id@,
            ) by {
                lemma_has_logo_insert(s_old, p as int, grow, self.cycle@[i].logo_id@);
            }
        }
        Ok(())
    }

    /// Adds a schedule event under a caller-supplied fresh id and creation
    /// time. The event time string is stored as given (callers zero-pad
    /// `"HH:MM"` for chronological order); a present logo reference must
    /// name an existing logo, else `InvalidReference`.
    pub fn add_schedule_event_with_id(
        &mut self,
        id: String,
        event_time: String,
        name: String,
        event_type: String,
        duration_seconds: Option<u32>,
        linked_logo_id: Option<String>,
        now: u64,
    ) -> (r: Result<(), StoreError>)
        requires
            old(self).wf(),
        ensures
            final(self).wf(),
            r is Ok <==> logo_ref_ok(linked_logo_id, old(self).logos@) && !has_event(
                old(self).schedule@,
                id@,
            ),
            r == Err::<(), StoreError>(StoreError::InvalidReference) <==> !logo_ref_ok(
                linked_logo_id,
                old(self).logos@,
            ),
            r == Err::<(), StoreError>(StoreError::QueryFailure) <==> logo_ref_ok(
                linked_logo_id,
                old(self).logos@,
            ) && has_event(old(self).schedule@, id@),
            r is Ok ==> event_inserted(
                old(self).schedule@,
                final(self).schedule@,
                id,
                event_time,
                name,
                event_type,
                duration_seconds,
                linked_logo_id,
                now,
            ),
            r is Err ==> final(self).schedule@ == old(self).schedule@,
            final(self).artists@ == old(self).artists@,
            final(self).logos@ == old(self).logos@,
            final(self).links@ == old(self).links@,
            final(self).cycle@ == old(self).cycle@,
    {
        match &linked_logo_id {
            Some(l) => {
                if !self.contains_logo(l) {
                    return Err(StoreError::InvalidReference);
                }
            },
            None => {},
        }
        if self.contains_event(&id) {
            return Err(StoreError::QueryFailure);
        }
        let p = event_insert_pos(&self.schedule, &event_time);
        let row = ScheduleEvent {
            id,
            event_time,
            name,
            event_type,
            duration_seconds,
            linked_logo_id,
            created_at: now,
            updated_at: now,
        };
        let ghost s_old = self.schedule@;
        let ghost grow = row;
        proof {
            assert forall|i: int| 0 <= i < p as int implies event_rel()(s_old[i], grow) by {
                assert(s_old[i].id@ != grow.id@);
                assert(str_le(s_old[i].event_time@, grow.event_time@));
            }
            assert forall|i: int| p as int <= i < s_old.len() implies event_rel()(
                grow,
                s_old[i],
            ) by {
                assert(s_old[i].id@ != grow.id@);
                lemma_bytes_le_total(
                    encode_utf8(grow.event_time@),
                    encode_utf8(s_old[p as int].event_time@),
                );
                if i > p as int {
                    assert(event_rel()(s_old[p as int], s_old[i]));
                    lemma_bytes_le_trans(
                        encode_utf8(grow.event_time@),
                        encode_utf8(s_old[p as int].event_time@),
                        encode_utf8(s_old[i].event_time@),
                    );
                }
            }
            lemma_insert_pairwise(s_old, event_rel(), p as int, grow);
            s_old.insert_ensures(p as int, grow);
        }
        self.schedule.insert(p, row);
        proof {
            assert forall|i: int|
                0 <= i < self.schedule@.len() implies ((#[trigger] self.schedule@[i]).linked_logo_id
                matches Some(l) ==> has_logo(self.logos@, l@)) by {
                if i < p as int {
                    assert(self.schedule@[i] == s_old[i]);
                } else if i > p as int {
                    assert(self.schedule@[i] == s_old[i - 1]);
                }
            }
        }
        Ok(())
    }

    /// Links a logo to an artist. The insert is idempotent: an existing
    /// link is left as it is and the call still succeeds. Both endpoints
    /// must exist, else `InvalidReference`.
    pub fn link_logo_to_artist(
        &mut self,
        artist_id: String,
        logo_id: String,
        is_override: Option<bool>,
    ) -> (r: Result<(), StoreError>)
        requires
            old(self).wf(),
        ensures
            final(self).wf(),
            r is Ok <==> has_artist(old(self).artists@, artist_id@) && has_logo(
                old(self).logos@,
                logo_id@,
            ),
            r is Ok ==> final(self).links@ == link_rows(
                old(self).links@,
                artist_id,
                logo_id,
                override_flag(is_override),
            ),
            r is Err ==> final(self).links@ == old(self).links@ && r == Err::<
                (),
                StoreError,
            >(StoreError::InvalidReference),
            final(self).artists@ == old(self).artists@,
            final(self).logos@ == old(self).logos@,
            final(self).schedule@ == old(self).schedule@,
            final(self).cycle@ == old(self).cycle@,
    {
        if !self.contains_artist(&artist_id) {
            return Err(StoreError::InvalidReference);
        }
        if !self.contains_logo(&logo_id) {
            return Err(StoreError::InvalidReference);
        }
        if self.contains_link(&artist_id, &logo_id) {
            return Ok(());
        }
        let ov = match is_override {
            Some(b) => b,
            None => false,
        };
        let row = ArtistLogoLink { artist_id, logo_id, is_local_override: ov };
        let ghost s_old = self.links@;
        let ghost grow = row;
        proof {
            assert forall|i: int, j: int|
                0 <= i < j < s_old.push(grow).len() implies #[trigger] link_rel()(
                s_old.push(grow)[i],
                s_old.push(grow)[j],
            ) by {
                if j < s_old.len() {
                    assert(link_rel()(s_old[i], s_old[j]));
                } else {
                    assert(s_old.push(grow)[i] == s_old[i]);
                }
            }
        }
        self.links.push(row);
        Ok(())
    }

    /// Unlinks a logo from an artist. Removing an absent link is a no-op
    /// that still succeeds.
    pub fn unlink_logo_from_artist(&mut self, artist_id: String, logo_id: String) -> (r: Result<
        (),
        StoreError,
    >)
        requires
            old(self).wf(),
        ensures
            final(self).wf(),
            r is Ok,
            final(self).links@ == old(self).links@.filter(not_pair(artist_id@, logo_id@)),
            !has_link(old(self).links@, artist_id@, logo_id@) ==> final(self).links@ == old(
                self,
            ).links@,
            final(self).artists@ == old(self).artists@,
            final(self).logos@ == old(self).logos@,
            final(self).schedule@ == old(self).schedule@,
            final(self).cycle@ == old(self).cycle@,
    {
        let ghost s_old = self.links@;
        let ghost pred = not_pair(artist_id@, logo_id@);
        let n = self.links.len();
        let mut kept: Vec<ArtistLogoLink> = Vec::new();
        let mut i: usize = 0;
        while i < n
            invariant
                n == s_old.len(),
                i <= n,
                self.links@ == s_old,
                kept@ == s_old.take(i as int).filter(pred),
                pred == not_pair(artist_id@, logo_id@),
            decreases n - i,
        {
            proof {
                s_old.lemma_take_succ_push(i as int);
                Seq::lemma_filter_push(s_old.take(i as int), s_old[i as int], pred);
            }
            let l = &self.links[i];
            if !(l.artist_id == artist_id && l.logo_id == logo_id) {
                kept.push(l.clone());
            }
            i += 1;
        }
        proof {
            assert(s_old.take(n as int) =~= s_old);
            lemma_filter_pairwise(s_old, pred, link_rel());
            let f = s_old.filter(pred);
            assert forall|k: int| 0 <= k < f.len() implies has_artist(
                self.artists@,
                (#[trigger] f[k]).artist_id@,
            ) && has_logo(self.logos@, f[k].logo_id@) by {
                assert(f.contains(f[k]));
                Seq::lemma_filter_contains_rev(s_old, pred, f[k]);
                let j = choose|j: int| 0 <= j < s_old.len() && s_old[j] == f[k];
                assert(has_artist(self.artists@, s_old[j].artist_id@));
            }
            if !has_link(s_old, artist_id@, logo_id@) {
                lemma_filter_all_true(s_old, pred);
            }
        }
        self.links = kept;
        Ok(())
    }

    /// Deletes an artist. The delete cascades: every link row pointing at
    /// the artist goes with it. Deleting an absent artist is a no-op.
    pub fn delete_artist(&mut self, artist_id: &String)
        requires
            old(self).wf(),
        ensures
            final(self).wf(),
            final(self).artists@ == old(self).artists@.filter(not_artist_id(artist_id@)),
            final(self).links@ == old(self).links@.filter(not_artist_link(artist_id@)),
            final(self).logos@ == old(self).logos@,
            final(self).schedule@ == old(self).schedule@,
            final(self).cycle@ == old(self).cycle@,
    {
        let ghost a_old = self.artists@;
        let ghost l_old = self.links@;
        let ghost apred = not_artist_id(artist_id@);
        let ghost lpred = not_artist_link(artist_id@);
        let n = self.artists.len();
        let mut kept: Vec<Artist> = Vec::new();
        let mut i: usize = 0;
        while i < n
            invariant
                n == a_old.len(),
                i <= n,
                self.artists@ == a_old,
                kept@ == a_old.take(i as int).filter(apred),
                apred == not_artist_id(artist_id@),
            decreases n - i,
        {
            proof {
                a_old.lemma_take_succ_push(i as int);
                Seq::lemma_filter_push(a_old.take(i as int), a_old[i as int], apred);
            }
            let a = &self.artists[i];
            if !(a.id == *artist_id) {
                kept.push(a.clone());
            }
            i += 1;
        }
        self.artists = kept;
        let m = self.links.len();
        let mut kept_links: Vec<ArtistLogoLink> = Vec::new();
        let mut k: usize = 0;
        while k < m
            invariant
                m == l_old.len(),
                k <= m,
                self.links@ == l_old,
                kept_links@ == l_old.take(k as int).filter(lpred),
                lpred == not_artist_link(artist_id@),
            decreases m - k,
        {
            proof {
                l_old.lemma_take_succ_push(k as int);
                Seq::lemma_filter_push(l_old.take(k as int), l_old[k as int], lpred);
            }
            let l = &self.links[k];
            if !(l.artist_id == *artist_id) {
                kept_links.push(l.clone());
            }
            k += 1;
        }
        self.links = kept_links;
        proof {
            assert(a_old.take(n as int) =~= a_old);
            assert(l_old.take(m as int) =~= l_old);
            lemma_filter_pairwise(a_old, apred, artist_rel());
            lemma_filter_pairwise(l_old, lpred, link_rel());
            let fa = a_old.filter(apred);
            assert forall|j: int|
                0 <= j < fa.len() implies (#[trigger] fa[j]).created_at <= fa[j].updated_at by {
                assert(fa.contains(fa[j]));
                Seq::lemma_filter_contains_rev(a_old, apred, fa[j]);
                let x = choose|x: int| 0 <= x < a_old.len() && a_old[x] == fa[j];
                assert(a_old[x].created_at <= a_old[x].updated_at);
            }
            let fl = l_old.filter(lpred);
            assert forall|j: int| 0 <= j < fl.len() implies has_artist(
                self.artists@,
                (#[trigger] fl[j]).artist_id@,
            ) && has_logo(self.logos@, fl[j].logo_id@) by {
                assert(fl.contains(fl[j]));
                Seq::lemma_filter_contains_rev(l_old, lpred, fl[j]);
                let x = choose|x: int| 0 <= x < l_old.len() && l_old[x] == fl[j];
                assert(has_artist(a_old, l_old[x].artist_id@));
                let y = choose|y: int| 0 <= y < a_old.len() && #[trigger] a_old[y].id@ == l_old[x].artist_id@;
                assert(apred(a_old[y]));
                lemma_has_artist_filter(a_old, apred, y);
            }
        }
    }

    /// Deletes a logo. The delete cascades: link rows and the cycle entry
    /// pointing at the logo go with it, and a schedule event referencing it
    /// has its reference nulled out rather than being deleted. Deleting an
    /// absent logo is a no-op.
    pub fn delete_logo(&mut self, logo_id: &String)
        requires
            old(self).wf(),
        ensures
            final(self).wf(),
            final(self).logos@ == old(self).logos@.filter(not_logo_id(logo_id@)),
            final(self).links@ == old(self).links@.filter(not_logo_link(logo_id@)),
            final(self).cycle@ == old(self).cycle@.filter(not_cycle_logo(logo_id@)),
            final(self).schedule@ == old(self).schedule@.map_values(cleared(logo_id@)),
            final(self).artists@ == old(self).artists@,
    {
        let ghost g_old = self.logos@;
        let ghost l_old = self.links@;
        let ghost c_old = self.cycle@;
        let ghost s_old = self.schedule@;
        let ghost gpred = not_logo_id(logo_id@);
        let ghost lpred = not_logo_link(logo_id@);
        let ghost cpred = not_cycle_logo(logo_id@);
        let ghost smap = cleared(logo_id@);
        let n = self.logos.len();
        let mut kept: Vec<Logo> = Vec::new();
        let mut i: usize = 0;
        while i < n
            invariant
                n == g_old.len(),
                i <= n,
                self.logos@ == g_old,
                kept@ == g_old.take(i as int).filter(gpred),
                gpred == not_logo_id(logo_id@),
            decreases n - i,
        {
            proof {
                g_old.lemma_take_succ_push(i as int);
                Seq::lemma_filter_push(g_old.take(i as int), g_old[i as int], gpred);
            }
            let g = &self.logos[i];
            if !(g.id == *logo_id) {
                kept.push(g.clone());
            }
            i += 1;
        }
        self.logos = kept;
        let m = self.links.len();
        let mut kept_links: Vec<ArtistLogoLink> = Vec::new();
        let mut k: usize = 0;
        while k < m
            invariant
                m == l_old.len(),
                k <= m,
                self.links@ == l_old,
                kept_links@ == l_old.take(k as int).filter(lpred),
                lpred == not_logo_link(logo_id@),
            decreases m - k,
        {
            proof {
                l_old.lemma_take_succ_push(k as int);
                Seq::lemma_filter_push(l_old.take(k as int), l_old[k as int], lpred);
            }
            let l = &self.links[k];
            if !(l.logo_id == *logo_id) {
                kept_links.push(l.clone());
            }
            k += 1;
        }
        self.links = kept_links;
        let c = self.cycle.len();
        let mut kept_cycle: Vec<CycleEntry> = Vec::new();
        let mut u: usize = 0;
        while u < c
            invariant
                c == c_old.len(),
                u <= c,
                self.cycle@ == c_old,
                kept_cycle@ == c_old.take(u as int).filter(cpred),
                cpred == not_cycle_logo(logo_id@),
            decreases c - u,
        {
            proof {
                c_old.lemma_take_succ_push(u as int);
                Seq::lemma_filter_push(c_old.take(u as int), c_old[u as int], cpred);
            }
            let e = &self.cycle[u];
            if !(e.logo_id == *logo_id) {
                kept_cycle.push(e.clone());
            }
            u += 1;
        }
        self.cycle = kept_cycle;
        let t = self.schedule.len();
        let mut cleared_schedule: Vec<ScheduleEvent> = Vec::new();
        let mut w: usize = 0;
        while w < t
            invariant
                t == s_old.len(),
                w <= t,
                self.schedule@ == s_old,
                cleared_schedule@ == s_old.take(w as int).map_values(smap),
                smap == cleared(logo_id@),
            decreases t - w,
        {
            proof {
                s_old.lemma_take_succ_push(w as int);
                Seq::lemma_push_map_commute(s_old.take(w as int), smap, s_old[w as int]);
            }
            let e = &self.schedule[w];
            let hit = match &e.linked_logo_id {
                Some(l) => *l == *logo_id,
                None => false,
            };
            let mut e2 = e.clone();
            if hit {
                e2.linked_logo_id = None;
            }
            proof {
                assert(e2 == clear_logo_ref(s_old[w as int], logo_id@));
            }
            cleared_schedule.push(e2);
            w += 1;
        }
        self.schedule = cleared_schedule;
        proof {
            assert(g_old.take(n as int) =~= g_old);
            assert(l_old.take(m as int) =~= l_old);
            assert(c_old.take(c as int) =~= c_old);
            assert(s_old.take(t as int) =~= s_old);
            lemma_filter_pairwise(g_old, gpred, logo_rel());
            lemma_filter_pairwise(l_old, lpred, link_rel());
            lemma_filter_pairwise(c_old, cpred, cycle_rel());
            let fg = g_old.filter(gpred);
            assert forall|j: int|
                0 <= j < fg.len() implies (#[trigger] fg[j]).created_at <= fg[j].updated_at by {
                assert(fg.contains(fg[j]));
                Seq::lemma_filter_contains_rev(g_old, gpred, fg[j]);
                let x = choose|x: int| 0 <= x < g_old.len() && g_old[x] == fg[j];
                assert(g_old[x].created_at <= g_old[x].updated_at);
            }
            let fl = l_old.filter(lpred);
            assert forall|j: int| 0 <= j < fl.len() implies has_artist(
                self.artists@,
                (#[trigger] fl[j]).artist_id@,
            ) && has_logo(self.logos@, fl[j].logo_id@) by {
                assert(fl.contains(fl[j]));
                Seq::lemma_filter_contains_rev(l_old, lpred, fl[j]);
                let x = choose|x: int| 0 <= x < l_old.len() && l_old[x] == fl[j];
                assert(has_logo(g_old, l_old[x].logo_id@));
                let y = choose|y: int| 0 <= y < g_old.len() && #[trigger] g_old[y].id@ == l_old[x].logo_id@;
                assert(gpred(g_old[y]));
                lemma_has_logo_filter(g_old, gpred, y);
            }
            let fc = c_old.filter(cpred);
            assert forall|j: int| 0 <= j < fc.len() implies has_logo(
                self.logos@,
                (#[trigger] fc[j]).logo_id@,
            ) by {
                assert(fc.contains(fc[j]));
                Seq::lemma_filter_contains_rev(c_old, cpred, fc[j]);
                let x = choose|x: int| 0 <= x < c_old.len() && c_old[x] == fc[j];
                assert(has_logo(g_old, c_old[x].logo_id@));
                let y = choose|y: int| 0 <= y < g_old.len() && #[trigger] g_old[y].id@ == c_old[x].logo_id@;
                assert(gpred(g_old[y]));
                lemma_has_logo_filter(g_old, gpred, y);
            }
            let fs = s_old.map_values(smap);
            assert forall|i: int, j: int|
                0 <= i < j < fs.len() implies #[trigger] event_rel()(fs[i], fs[j]) by {
                assert(event_rel()(s_old[i], s_old[j]));
                assert(fs[i] == clear_logo_ref(s_old[i], logo_id@));
                assert(fs[j] == clear_logo_ref(s_old[j], logo_id@));
            }
            assert forall|j: int|
                0 <= j < fs.len() implies (#[trigger] fs[j]).created_at <= fs[j].updated_at
                && (fs[j].linked_logo_id matches Some(l) ==> has_logo(self.logos@, l@)) by {
                assert(fs[j] == clear_logo_ref(s_old[j], logo_id@));
                assert(s_old[j].created_at <= s_old[j].updated_at);
                if fs[j].linked_logo_id is Some {
                    let lv = fs[j].linked_logo_id->Some_0;
                    assert(s_old[j].linked_logo_id is Some);
                    assert(lv == s_old[j].linked_logo_id->Some_0);
                    assert(lv@ != logo_id@);
                    assert(has_logo(g_old, lv@));
                    let y = choose|y: int| 0 <= y < g_old.len() && #[trigger] g_old[y].id@ == lv@;
                    assert(gpred(g_old[y]));
                    lemma_has_logo_filter(g_old, gpred, y);
                }
            }
        }
    }

    /// Atomically replaces the whole cycle: every existing entry goes, one
    /// entry per requested logo comes, at the position the request gives
    /// it. On any failure nothing changes — a caller never observes a
    /// partial cycle. Unknown logos are refused as `InvalidReference`, a
    /// logo requested twice as the engine would refuse its duplicate key.
    pub fn set_cycle_config(&mut self, logo_ids: Vec<String>) -> (r: Result<(), StoreError>)
        requires
            old(self).wf(),
            logo_ids@.len() <= 0xffff_ffff,
        ensures
            final(self).wf(),
            r is Ok <==> all_ids_exist(logo_ids@, old(self).logos@) && ids_distinct(logo_ids@),
            r == Err::<(), StoreError>(StoreError::InvalidReference) <==> !all_ids_exist(
                logo_ids@,
                old(self).logos@,
            ),
            r == Err::<(), StoreError>(StoreError::QueryFailure) <==> all_ids_exist(
                logo_ids@,
                old(self).logos@,
            ) && !ids_distinct(logo_ids@),
            r is Ok ==> cycle_matches(final(self).cycle@, logo_ids@),
            r is Err ==> final(self).cycle@ == old(self).cycle@,
            final(self).artists@ == old(self).artists@,
            final(self).logos@ == old(self).logos@,
            final(self).links@ == old(self).links@,
            final(self).schedule@ == old(self).schedule@,
    {
        let n = logo_ids.len();
        let mut i: usize = 0;
        while i < n
            invariant
                *self == *old(self),
                old(self).wf(),
                n == logo_ids@.len(),
                i <= n,
                forall|j: int| 0 <= j < i ==> has_logo(self.logos@, (#[trigger] logo_ids@[j])@),
            decreases n - i,
        {
            if !self.contains_logo(&logo_ids[i]) {
                return Err(StoreError::InvalidReference);
            }
            i += 1;
        }
        i = 0;
        while i < n
            invariant
                *self == *old(self),
                old(self).wf(),
                n == logo_ids@.len(),
                i <= n,
                all_ids_exist(logo_ids@, self.logos@),
                forall|a: int, b: int|
                    #![trigger logo_ids@[a], logo_ids@[b]]
                    0 <= a < b < i ==> logo_ids@[a]@ != logo_ids@[b]@,
            decreases n - i,
        {
            let mut j: usize = 0;
            while j < i
                invariant
                    *self == *old(self),
                    old(self).wf(),
                    i < n,
                    n == logo_ids@.len(),
                    j <= i,
                    all_ids_exist(logo_ids@, self.logos@),
                    forall|a: int| 0 <= a < j ==> (#[trigger] logo_ids@[a])@ != logo_ids@[i as int]@,
                decreases i - j,
            {
                if logo_ids[j] == logo_ids[i] {
                    return Err(StoreError::QueryFailure);
                }
                j += 1;
            }
            i += 1;
        }
        let mut entries: Vec<CycleEntry> = Vec::new();
        i = 0;
        while i < n
            invariant
                *self == *old(self),
                old(self).wf(),
                all_ids_exist(logo_ids@, self.logos@),
                n == logo_ids@.len(),
                n <= 0xffff_ffff,
                i <= n,
                entries@.len() == i,
                forall|k: int|
                    0 <= k < i ==> (#[trigger] entries@[k]).logo_id == logo_ids@[k]
                        && entries@[k].order_index == k as u32 && entries@[k].status@ == "cycle"@,
            decreases n - i,
        {
            entries.push(
                CycleEntry {
                    logo_id: logo_ids[i].clone(),
                    order_index: i as u32,
                    status: "cycle".to_owned(),
                },
            );
            i += 1;
        }
        proof {
            assert forall|a: int, b: int|
                0 <= a < b < entries@.len() implies #[trigger] cycle_rel()(
                entries@[a],
                entries@[b],
            ) by {
                assert(entries@[a].logo_id == logo_ids@[a]);
                assert(entries@[b].logo_id == logo_ids@[b]);
            }
            assert forall|k: int| 0 <= k < entries@.len() implies has_logo(
                self.logos@,
                (#[trigger] entries@[k]).logo_id@,
            ) by {
                assert(entries@[k].logo_id == logo_ids@[k]);
                assert(has_logo(self.logos@, logo_ids@[k]@));
            }
        }
        self.cycle = entries;
        Ok(())
    }

    /// All artists; `wf` keeps them ordered by name.
    pub fn get_artists(&self) -> (r: Vec<Artist>)
        ensures
            r@ == self.artists@,
    {
        let n = self.artists.len();
        let mut out: Vec<Artist> = Vec::new();
        let mut i: usize = 0;
        while i < n
            invariant
                n == self.artists@.len(),
                i <= n,
                out@ == self.artists@.take(i as int),
            decreases n - i,
        {
            proof {
                self.artists@.lemma_take_succ_push(i as int);
            }
            out.push(self.artists[i].clone());
            i += 1;
        }
        proof {
            assert(self.artists@.take(n as int) =~= self.artists@);
        }
        out
    }

    /// The artist names joined onto one logo at read time.
    fn names_for_logo(&self, lid: &String) -> (r: Vec<String>)
        requires
            self.wf(),
        ensures
            r@ == linked_names(self.links@, self.artists@, lid@),
    {
        let m = self.links.len();
        let mut names: Vec<String> = Vec::new();
        let mut k: usize = 0;
        proof {
            assert(self.links@.take(0) =~= Seq::<ArtistLogoLink>::empty());
        }
        while k < m
            invariant
                self.wf(),
                m == self.links@.len(),
                k <= m,
                names@ == linked_names(self.links@.take(k as int), self.artists@, lid@),
            decreases m - k,
        {
            proof {
                let tk1 = self.links@.take(k as int + 1);
                assert(tk1.drop_last() =~= self.links@.take(k as int));
                assert(tk1.last() == self.links@[k as int]);
            }
            let l = &self.links[k];
            if l.logo_id == *lid {
                proof {
                    assert(has_artist(self.artists@, (self.links@[k as int]).artist_id@));
                }
                let nm = artist_name_by_id(&self.artists, &l.artist_id);
                names.push(nm);
            }
            k += 1;
        }
        proof {
            assert(self.links@.take(m as int) =~= self.links@);
        }
        names
    }

    /// All logos ordered by name (through `wf`), each carrying the names of
    /// the artists linked to it — a read-time projection, never stored.
    pub fn get_logos(&self) -> (r: Vec<LogoListing>)
        requires
            self.wf(),
        ensures
            r@.len() == self.logos@.len(),
            forall|i: int|
                0 <= i < r@.len() ==> (#[trigger] r@[i]).logo == self.logos@[i]
                    && r@[i].linked_artist_names@ == linked_names(
                    self.links@,
                    self.artists@,
                    self.logos@[i].id@,
                ),
    {
        let n = self.logos.len();
        let mut out: Vec<LogoListing> = Vec::new();
        let mut i: usize = 0;
        while i < n
            invariant
                self.wf(),
                n == self.logos@.len(),
                i <= n,
                out@.len() == i,
                forall|k: int|
                    0 <= k < i ==> (#[trigger] out@[k]).logo == self.logos@[k]
                        && out@[k].linked_artist_names@ == linked_names(
                        self.links@,
                        self.artists@,
                        self.logos@[k].id@,
                    ),
            decreases n - i,
        {
            let logo = self.logos[i].clone();
            let names = self.names_for_logo(&logo.id);
            out.push(LogoListing { logo, linked_artist_names: names });
            i += 1;
        }
        out
    }

    /// The logos linked to one artist, ordered by name (through `wf`). An
    /// artist without links — or an unknown artist — gets the empty list,
    /// not an error.
    pub fn get_logos_for_artist(&self, artist_id: &String) -> (r: Vec<Logo>)
        ensures
            r@ == self.logos@.filter(logo_linked_to(self.links@, artist_id@)),
    {
        let ghost pred = logo_linked_to(self.links@, artist_id@);
        let n = self.logos.len();
        let mut out: Vec<Logo> = Vec::new();
        let mut i: usize = 0;
        while i < n
            invariant
                n == self.logos@.len(),
                i <= n,
                out@ == self.logos@.take(i as int).filter(pred),
                pred == logo_linked_to(self.links@, artist_id@),
            decreases n - i,
        {
            proof {
                self.logos@.lemma_take_succ_push(i as int);
                Seq::lemma_filter_push(self.logos@.take(i as int), self.logos@[i as int], pred);
            }
            let g = &self.logos[i];
            if self.contains_link(artist_id, &g.id) {
                out.push(g.clone());
            }
            i += 1;
        }
        proof {
            assert(self.logos@.take(n as int) =~= self.logos@);
        }
        out
    }

    /// All schedule events, ordered by their raw event-time string (through
    /// `wf`): chronological whenever callers zero-pad `"HH:MM"`.
    pub fn get_schedule_items(&self) -> (r: Vec<ScheduleItem>)
        ensures
            r@.len() == self.schedule@.len(),
            forall|i: int| 0 <= i < r@.len() ==> #[trigger] r@[i] == event_item(self.schedule@[i]),
    {
        let n = self.schedule.len();
        let mut out: Vec<ScheduleItem> = Vec::new();
        let mut i: usize = 0;
        while i < n
            invariant
                n == self.schedule@.len(),
                i <= n,
                out@.len() == i,
                forall|k: int| 0 <= k < i ==> #[trigger] out@[k] == event_item(self.schedule@[k]),
            decreases n - i,
        {
            let e = &self.schedule[i];
            out.push(
                ScheduleItem {
                    id: e.id.clone(),
                    time: e.event_time.clone(),
                    name: e.name.clone(),
                    event_type: e.event_type.clone(),
                    duration_seconds: e.duration_seconds,
                    linked_logo_id: clone_opt_string(&e.linked_logo_id),
                },
            );
            i += 1;
        }
        out
    }

    /// The cycle in playback order (through `wf`), each entry joined with
    /// its logo's name.
    pub fn get_cycle_items(&self) -> (r: Vec<CycleItem>)
        requires
            self.wf(),
        ensures
            r@.len() == self.cycle@.len(),
            forall|i: int|
                0 <= i < r@.len() ==> (#[trigger] r@[i]).id == self.cycle@[i].logo_id
                    && r@[i].logo_id == self.cycle@[i].logo_id && r@[i].status
                    == self.cycle@[i].status && r@[i].order_index == self.cycle@[i].order_index
                    && Some(r@[i].name) == logo_name_of(self.logos@, self.cycle@[i].logo_id@),
    {
        let n = self.cycle.len();
        let mut out: Vec<CycleItem> = Vec::new();
        let mut i: usize = 0;
        while i < n
            invariant
                self.wf(),
                n == self.cycle@.len(),
                i <= n,
                out@.len() == i,
                forall|k: int|
                    0 <= k < i ==> (#[trigger] out@[k]).id == self.cycle@[k].logo_id
                        && out@[k].logo_id == self.cycle@[k].logo_id && out@[k].status
                        == self.cycle@[k].status && out@[k].order_index
                        == self.cycle@[k].order_index && Some(out@[k].name) == logo_name_of(
                        self.logos@,
                        self.cycle@[k].logo_id@,
                    ),
            decreases n - i,
        {
            let e = &self.cycle[i];
            proof {
                assert(has_logo(self.logos@, (self.cycle@[i as int]).logo_id@));
            }
            let nm = logo_name_by_id(&self.logos, &e.logo_id);
            out.push(
                CycleItem {
                    id: e.logo_id.clone(),
                    logo_id: e.logo_id.clone(),
                    name: nm,
                    status: e.status.clone(),
                    order_index: e.order_index,
                },
            );
            i += 1;
        }
        out
    }

}

} // verus!
