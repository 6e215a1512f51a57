use vj_store::records::{FileItem, LogoLibraryConfig};
use vj_store::store::MetadataStore;
use vj_store::StoreError;

#[test]
fn fresh_store_is_empty() {
    let store = MetadataStore::new();
    assert_eq!(store.get_artists().len(), 0);
    assert_eq!(store.get_logos().len(), 0);
    assert_eq!(store.get_schedule_items().len(), 0);
    assert_eq!(store.get_cycle_items().len(), 0);
}

#[test]
fn add_artist_returns_fresh_id_and_defaults() {
    let mut store = MetadataStore::new();
    let id = store.add_artist("DJ Echo".to_string()).unwrap();
    assert_eq!(id.len(), 36);
    let artists = store.get_artists();
    assert_eq!(artists.len(), 1);
    assert_eq!(artists[0].id, id);
    assert_eq!(artists[0].name, "DJ Echo");
    assert_eq!(artists[0].sync_status, "new");
    assert!(artists[0].vjtools_id.is_none());
    assert_eq!(artists[0].created_at, artists[0].updated_at);
}

#[test]
fn add_artist_with_taken_id_fails_and_changes_nothing() {
    let mut store = MetadataStore::new();
    store
        .add_artist_with_id("a-1".to_string(), "One".to_string(), 10)
        .unwrap();
    let err = store
        .add_artist_with_id("a-1".to_string(), "Two".to_string(), 20)
        .unwrap_err();
    assert_eq!(err, StoreError::QueryFailure);
    let artists = store.get_artists();
    assert_eq!(artists.len(), 1);
    assert_eq!(artists[0].name, "One");
}

#[test]
fn artists_are_listed_in_name_order() {
    let mut store = MetadataStore::new();
    store.add_artist("Zeta".to_string()).unwrap();
    store.add_artist("Alpha".to_string()).unwrap();
    store.add_artist("Mid".to_string()).unwrap();
    let names: Vec<String> = store.get_artists().into_iter().map(|a| a.name).collect();
    assert_eq!(names, vec!["Alpha".to_string(), "Mid".to_string(), "Zeta".to_string()]);
}

#[test]
fn duplicate_file_path_is_refused_and_catalog_unchanged() {
    let mut store = MetadataStore::new();
    let first = store
        .add_logo("First".to_string(), "/x/same.png".to_string(), None)
        .unwrap();
    let err = store
        .add_logo("Second".to_string(), "/x/same.png".to_string(), None)
        .unwrap_err();
    assert_eq!(err, StoreError::DuplicatePath);
    let logos = store.get_logos();
    assert_eq!(logos.len(), 1);
    assert_eq!(logos[0].logo.id, first);
    assert_eq!(logos[0].logo.name, "First");
}

#[test]
fn logos_keep_thumbnail_and_defaults() {
    let mut store = MetadataStore::new();
    store
        .add_logo(
            "Art".to_string(),
            "/x/art.png".to_string(),
            Some("/x/art_thumb.png".to_string()),
        )
        .unwrap();
    let logos = store.get_logos();
    assert_eq!(logos.len(), 1);
    assert_eq!(logos[0].logo.file_path, "/x/art.png");
    assert_eq!(
        logos[0].logo.thumbnail_path.as_deref(),
        Some("/x/art_thumb.png")
    );
    assert_eq!(logos[0].logo.sync_status, "new");
    assert_eq!(logos[0].linked_artist_names.len(), 0);
}

#[test]
fn link_is_idempotent_and_listing_contains_logo_once() {
    let mut store = MetadataStore::new();
    let a = store.add_artist("DJ Twice".to_string()).unwrap();
    let l = store
        .add_logo("Twice Logo".to_string(), "/x/twice.png".to_string(), None)
        .unwrap();
    store
        .link_logo_to_artist(a.clone(), l.clone(), None)
        .unwrap();
    store
        .link_logo_to_artist(a.clone(), l.clone(), Some(true))
        .unwrap();
    let linked = store.get_logos_for_artist(&a);
    assert_eq!(linked.len(), 1);
    assert_eq!(linked[0].id, l);
    let listings = store.get_logos();
    assert_eq!(listings.len(), 1);
    assert_eq!(listings[0].linked_artist_names, vec!["DJ Twice".to_string()]);
}

#[test]
fn link_with_missing_endpoint_is_refused() {
    let mut store = MetadataStore::new();
    let a = store.add_artist("DJ Alone".to_string()).unwrap();
    let l = store
        .add_logo("Lone".to_string(), "/x/lone.png".to_string(), None)
        .unwrap();
    assert_eq!(
        store.link_logo_to_artist("missing".to_string(), l, None),
        Err(StoreError::InvalidReference)
    );
    assert_eq!(
        store.link_logo_to_artist(a, "missing".to_string(), None),
        Err(StoreError::InvalidReference)
    );
}

#[test]
fn unlink_without_link_is_a_no_op_success() {
    let mut store = MetadataStore::new();
    let a = store.add_artist("DJ Calm".to_string()).unwrap();
    let l = store
        .add_logo("Calm".to_string(), "/x/calm.png".to_string(), None)
        .unwrap();
    store
        .link_logo_to_artist(a.clone(), l.clone(), None)
        .unwrap();
    store
        .unlink_logo_from_artist("other".to_string(), l.clone())
        .unwrap();
    assert_eq!(store.get_logos_for_artist(&a).len(), 1);
    store
        .unlink_logo_from_artist(a.clone(), l.clone())
        .unwrap();
    assert_eq!(store.get_logos_for_artist(&a).len(), 0);
    store.unlink_logo_from_artist(a.clone(), l).unwrap();
    assert_eq!(store.get_logos_for_artist(&a).len(), 0);
}

#[test]
fn deleting_an_artist_cascades_to_its_links() {
    let mut store = MetadataStore::new();
    let a = store.add_artist("DJ Gone".to_string()).unwrap();
    let b = store.add_artist("DJ Stays".to_string()).unwrap();
    let l = store
        .add_logo("Shared".to_string(), "/x/shared.png".to_string(), None)
        .unwrap();
    store
        .link_logo_to_artist(a.clone(), l.clone(), None)
        .unwrap();
    store
        .link_logo_to_artist(b.clone(), l.clone(), None)
        .unwrap();
    store.delete_artist(&a);
    let artists = store.get_artists();
    assert_eq!(artists.len(), 1);
    assert_eq!(artists[0].name, "DJ Stays");
    let listings = store.get_logos();
    assert_eq!(listings[0].linked_artist_names, vec!["DJ Stays".to_string()]);
    assert_eq!(store.get_logos_for_artist(&a).len(), 0);
}

#[test]
fn deleting_a_logo_cascades_and_nulls_schedule_references() {
    let mut store = MetadataStore::new();
    let a = store.add_artist("DJ Ref".to_string()).unwrap();
    let l = store
        .add_logo("Doomed".to_string(), "/x/doomed.png".to_string(), None)
        .unwrap();
    let keep = store
        .add_logo("Kept".to_string(), "/x/kept.png".to_string(), None)
        .unwrap();
    store
        .link_logo_to_artist(a.clone(), l.clone(), None)
        .unwrap();
    store
        .set_cycle_config(vec![l.clone(), keep.clone()])
        .unwrap();
    let e = store
        .add_schedule_event(
            "20:00".to_string(),
            "Doomed slot".to_string(),
            "intro".to_string(),
            Some(30),
            Some(l.clone()),
        )
        .unwrap();
    store.delete_logo(&l);
    let listings = store.get_logos();
    assert_eq!(listings.len(), 1);
    assert_eq!(listings[0].logo.id, keep);
    assert_eq!(store.get_logos_for_artist(&a).len(), 0);
    let cycle = store.get_cycle_items();
    assert_eq!(cycle.len(), 1);
    assert_eq!(cycle[0].logo_id, keep);
    let schedule = store.get_schedule_items();
    assert_eq!(schedule.len(), 1);
    assert_eq!(schedule[0].id, e);
    assert!(schedule[0].linked_logo_id.is_none());
    assert_eq!(schedule[0].duration_seconds, Some(30));
}

#[test]
fn cycle_replacement_keeps_exact_requested_order() {
    let mut store = MetadataStore::new();
    let l1 = store
        .add_logo("One".to_string(), "/x/1.png".to_string(), None)
        .unwrap();
    let l2 = store
        .add_logo("Two".to_string(), "/x/2.png".to_string(), None)
        .unwrap();
    let l3 = store
        .add_logo("Three".to_string(), "/x/3.png".to_string(), None)
        .unwrap();
    store
        .set_cycle_config(vec![l3.clone(), l1.clone(), l2.clone()])
        .unwrap();
    let items = store.get_cycle_items();
    assert_eq!(items.len(), 3);
    assert_eq!(items[0].logo_id, l3);
    assert_eq!(items[1].logo_id, l1);
    assert_eq!(items[2].logo_id, l2);
    assert_eq!(items[0].order_index, 0);
    assert_eq!(items[1].order_index, 1);
    assert_eq!(items[2].order_index, 2);
    assert_eq!(items[0].name, "Three");
    assert_eq!(items[0].status, "cycle");
    store.set_cycle_config(vec![l2.clone()]).unwrap();
    let replaced = store.get_cycle_items();
    assert_eq!(replaced.len(), 1);
    assert_eq!(replaced[0].logo_id, l2);
    assert_eq!(replaced[0].order_index, 0);
}

#[test]
fn cycle_with_unknown_logo_is_rolled_back() {
    let mut store = MetadataStore::new();
    let l1 = store
        .add_logo("Solo".to_string(), "/x/solo.png".to_string(), None)
        .unwrap();
    store.set_cycle_config(vec![l1.clone()]).unwrap();
    let before: Vec<(String, u32)> = store
        .get_cycle_items()
        .into_iter()
        .map(|c| (c.logo_id, c.order_index))
        .collect();
    let err = store
        .set_cycle_config(vec![l1.clone(), "missing".to_string()])
        .unwrap_err();
    assert_eq!(err, StoreError::InvalidReference);
    let after: Vec<(String, u32)> = store
        .get_cycle_items()
        .into_iter()
        .map(|c| (c.logo_id, c.order_index))
        .collect();
    assert_eq!(before, after);
}

#[test]
fn cycle_with_repeated_logo_is_refused_unchanged() {
    let mut store = MetadataStore::new();
    let l1 = store
        .add_logo("Dup".to_string(), "/x/dup.png".to_string(), None)
        .unwrap();
    store.set_cycle_config(vec![l1.clone()]).unwrap();
    let err = store
        .set_cycle_config(vec![l1.clone(), l1.clone()])
        .unwrap_err();
    assert_eq!(err, StoreError::QueryFailure);
    assert_eq!(store.get_cycle_items().len(), 1);
}

#[test]
fn end_to_end_nova_scenario() {
    let mut store = MetadataStore::new();
    let a1 = store.add_artist("DJ Nova".to_string()).unwrap();
    let l1 = store
        .add_logo("Nova Logo".to_string(), "/x/nova.png".to_string(), None)
        .unwrap();
    store.link_logo_to_artist(a1, l1, None).unwrap();
    let listings = store.get_logos();
    assert_eq!(listings.len(), 1);
    assert_eq!(listings[0].logo.name, "Nova Logo");
    assert_eq!(listings[0].linked_artist_names, vec!["DJ Nova".to_string()]);
}

#[test]
fn end_to_end_schedule_scenario() {
    let mut store = MetadataStore::new();
    let l1 = store
        .add_logo("Opener".to_string(), "/x/open.png".to_string(), None)
        .unwrap();
    let later = store
        .add_schedule_event(
            "21:00".to_string(),
            "Main".to_string(),
            "set".to_string(),
            None,
            None,
        )
        .unwrap();
    let opening = store
        .add_schedule_event(
            "20:00".to_string(),
            "Opening".to_string(),
            "intro".to_string(),
            Some(30),
            Some(l1.clone()),
        )
        .unwrap();
    let items = store.get_schedule_items();
    assert_eq!(items.len(), 2);
    assert_eq!(items[0].id, opening);
    assert_eq!(items[0].time, "20:00");
    assert_eq!(items[0].name, "Opening");
    assert_eq!(items[0].event_type, "intro");
    assert_eq!(items[0].duration_seconds, Some(30));
    assert_eq!(items[0].linked_logo_id.as_deref(), Some(l1.as_str()));
    assert_eq!(items[1].id, later);
    assert_eq!(items[1].time, "21:00");
}

#[test]
fn schedule_event_with_unknown_logo_is_refused() {
    let mut store = MetadataStore::new();
    let err = store
        .add_schedule_event(
            "20:00".to_string(),
            "Ghost".to_string(),
            "intro".to_string(),
            None,
            Some("missing".to_string()),
        )
        .unwrap_err();
    assert_eq!(err, StoreError::InvalidReference);
    assert_eq!(store.get_schedule_items().len(), 0);
}

#[test]
fn schedule_event_with_taken_id_is_refused() {
    let mut store = MetadataStore::new();
    store
        .add_schedule_event_with_id(
            "e-1".to_string(),
            "10:00".to_string(),
            "First".to_string(),
            "set".to_string(),
            None,
            None,
            5,
        )
        .unwrap();
    let err = store
        .add_schedule_event_with_id(
            "e-1".to_string(),
            "11:00".to_string(),
            "Second".to_string(),
            "set".to_string(),
            None,
            None,
            6,
        )
        .unwrap_err();
    assert_eq!(err, StoreError::QueryFailure);
    assert_eq!(store.get_schedule_items().len(), 1);
}

#[test]
fn logos_for_unknown_artist_is_empty_not_an_error() {
    let store = MetadataStore::new();
    assert_eq!(store.get_logos_for_artist(&"nobody".to_string()).len(), 0);
}

#[test]
fn logos_are_listed_in_name_order() {
    let mut store = MetadataStore::new();
    store
        .add_logo("Zed".to_string(), "/x/z.png".to_string(), None)
        .unwrap();
    store
        .add_logo("Ace".to_string(), "/x/a.png".to_string(), None)
        .unwrap();
    let names: Vec<String> = store
        .get_logos()
        .into_iter()
        .map(|l| l.logo.name)
        .collect();
    assert_eq!(names, vec!["Ace".to_string(), "Zed".to_string()]);
}

#[test]
fn duplicate_path_takes_precedence_over_taken_id() {
    let mut store = MetadataStore::new();
    store
        .add_logo_with_id(
            "l-1".to_string(),
            "One".to_string(),
            "/x/one.png".to_string(),
            None,
            5,
        )
        .unwrap();
    let err = store
        .add_logo_with_id(
            "l-1".to_string(),
            "Two".to_string(),
            "/x/one.png".to_string(),
            None,
            6,
        )
        .unwrap_err();
    assert_eq!(err, StoreError::DuplicatePath);
}

#[test]
fn current_timestamp_is_positive() {
    assert!(vj_store::idgen::current_timestamp() > 0);
}

#[test]
fn file_items_are_tagged_by_kind() {
    let dir = FileItem::new("clips".to_string(), "/media/clips".to_string(), true);
    assert_eq!(dir.item_type, "directory");
    assert_eq!(dir.name, "clips");
    assert_eq!(dir.path, "/media/clips");
    let file = FileItem::new("a.png".to_string(), "/media/a.png".to_string(), false);
    assert_eq!(file.item_type, "file");
}

#[test]
fn logo_library_config_defaults_to_empty_path() {
    let config = LogoLibraryConfig::default();
    assert_eq!(config.path, "");
    let chosen = LogoLibraryConfig::new("/media/logos".to_string());
    assert_eq!(chosen.path, "/media/logos");
}

fn plain_artist(id: &str, name: &str) -> vj_store::records::Artist {
    vj_store::records::Artist {
        id: id.to_string(),
        name: name.to_string(),
        vjtools_id: None,
        created_at: 10,
        updated_at: 10,
        sync_status: "new".to_string(),
    }
}

fn plain_logo(id: &str, name: &str, file_path: &str) -> vj_store::records::Logo {
    vj_store::records::Logo {
        id: id.to_string(),
        name: name.to_string(),
        file_path: file_path.to_string(),
        thumbnail_path: None,
        vjtools_id: None,
        created_at: 10,
        updated_at: 10,
        sync_status: "new".to_string(),
    }
}

#[test]
fn check_wf_accepts_a_store_built_through_operations() {
    let mut store = MetadataStore::new();
    assert!(store.check_wf());
    let a = store.add_artist("DJ Sound".to_string()).unwrap();
    let l = store
        .add_logo("Sound".to_string(), "/x/sound.png".to_string(), None)
        .unwrap();
    store
        .link_logo_to_artist(a.clone(), l.clone(), Some(true))
        .unwrap();
    store.set_cycle_config(vec![l.clone()]).unwrap();
    store
        .add_schedule_event(
            "20:00".to_string(),
            "Set".to_string(),
            "set".to_string(),
            Some(60),
            Some(l),
        )
        .unwrap();
    assert!(store.check_wf());
}

#[test]
fn check_wf_refuses_artists_out_of_name_order() {
    let mut store = MetadataStore::new();
    store.artists = vec![plain_artist("a-1", "Zeta"), plain_artist("a-2", "Alpha")];
    assert!(!store.check_wf());
}

#[test]
fn check_wf_refuses_a_duplicated_file_path() {
    let mut store = MetadataStore::new();
    store.logos = vec![
        plain_logo("l-1", "Ace", "/x/same.png"),
        plain_logo("l-2", "Bee", "/x/same.png"),
    ];
    assert!(!store.check_wf());
}

#[test]
fn check_wf_refuses_a_dangling_link() {
    let mut store = MetadataStore::new();
    store.links = vec![vj_store::records::ArtistLogoLink {
        artist_id: "nobody".to_string(),
        logo_id: "nothing".to_string(),
        is_local_override: false,
    }];
    assert!(!store.check_wf());
}

#[test]
fn check_wf_refuses_cycle_positions_out_of_order() {
    let mut store = MetadataStore::new();
    store.logos = vec![plain_logo("l-1", "Ace", "/x/a.png"), plain_logo("l-2", "Bee", "/x/b.png")];
    store.cycle = vec![
        vj_store::records::CycleEntry {
            logo_id: "l-1".to_string(),
            order_index: 1,
            status: "cycle".to_string(),
        },
        vj_store::records::CycleEntry {
            logo_id: "l-2".to_string(),
            order_index: 0,
            status: "cycle".to_string(),
        },
    ];
    assert!(!store.check_wf());
}

#[test]
fn check_wf_refuses_a_backdated_update_time() {
    let mut store = MetadataStore::new();
    let mut artist = plain_artist("a-1", "Early");
    artist.updated_at = 5;
    store.artists = vec![artist];
    assert!(!store.check_wf());
}
