//! The store's laws, stated and proved over the same spec functions its
//! operations promise: idempotent linking, cascading deletes, and the exact
//! replacement of the cycle order.

use vstd::prelude::*;

use crate::order::{lemma_filter_pairwise, lemma_filter_single, pairwise, str_le};
use crate::store::{artist_rel, cycle_rel, event_rel, MetadataStore};
use crate::records::{ArtistLogoLink, CycleEntry, CycleItem, Logo, ScheduleEvent};
use crate::store::{cleared, clear_logo_ref, cycle_matches, has_link, has_logo, is_pair,
    lemma_has_logo_filter, link_rel, link_rows, logo_linked_to, logo_rel, not_artist_link,
    not_cycle_logo, not_logo_link};

verus! {

/// Linking twice is linking once: repeating `link` under the same pair
/// leaves the link table exactly as the first call left it.
pub proof fn lemma_link_idempotent(links: Seq<ArtistLogoLink>, aid: String, lid: String, ov: bool)
    ensures
        link_rows(link_rows(links, aid, lid, ov), aid, lid, ov) == link_rows(links, aid, lid, ov),
{
    if !has_link(links, aid@, lid@) {
        let row = ArtistLogoLink { artist_id: aid, logo_id: lid, is_local_override: ov };
        let l2 = links.push(row);
        assert(l2[links.len() as int] == row);
        assert(has_link(l2, aid@, lid@));
    }
}

/// After a `link` under a pair of existing endpoints, the link table holds
/// exactly one row with that pair, however many times `link` already ran.
pub proof fn lemma_link_exactly_one_row(
    links: Seq<ArtistLogoLink>,
    aid: String,
    lid: String,
    ov: bool,
)
    requires
        pairwise(links, link_rel()),
    ensures
        link_rows(links, aid, lid, ov).filter(is_pair(aid@, lid@)).len() == 1,
{
    let pred = is_pair(aid@, lid@);
    if has_link(links, aid@, lid@) {
        let j = choose|j: int|
            0 <= j < links.len() && (#[trigger] links[j]).artist_id@ == aid@ && links[j].logo_id@
                == lid@;
        assert forall|k: int| 0 <= k < links.len() && k != j implies !pred(
            #[trigger] links[k],
        ) by {
            if k < j {
                assert(link_rel()(links[k], links[j]));
            } else {
                assert(link_rel()(links[j], links[k]));
            }
        }
        lemma_filter_single(links, pred, j);
    } else {
        let row = ArtistLogoLink { artist_id: aid, logo_id: lid, is_local_override: ov };
        let l2 = links.push(row);
        assert(l2[links.len() as int] == row);
        assert forall|k: int| 0 <= k < l2.len() && k != links.len() implies !pred(
            #[trigger] l2[k],
        ) by {
            assert(l2[k] == links[k]);
        }
        lemma_filter_single(l2, pred, links.len() as int);
    }
}

/// A logo linked to an artist turns up in that artist's logo listing, and
/// turns up once: the listing still has pairwise distinct ids.
pub proof fn lemma_artist_listing_contains_once(
    logos: Seq<Logo>,
    links: Seq<ArtistLogoLink>,
    aid: Seq<char>,
    lid: Seq<char>,
)
    requires
        pairwise(logos, logo_rel()),
        has_logo(logos, lid),
        has_link(links, aid, lid),
    ensures
        has_logo(logos.filter(logo_linked_to(links, aid)), lid),
        pairwise(logos.filter(logo_linked_to(links, aid)), logo_rel()),
{
    let pred = logo_linked_to(links, aid);
    lemma_filter_pairwise(logos, pred, logo_rel());
    let j = choose|j: int| 0 <= j < logos.len() && #[trigger] logos[j].id@ == lid;
    assert(pred(logos[j]));
    lemma_has_logo_filter(logos, pred, j);
}

/// Deleting an artist removes every link row that pointed at it: none of
/// the rows the cascade keeps carries the artist's id.
pub proof fn lemma_delete_artist_cascades(links: Seq<ArtistLogoLink>, aid: Seq<char>)
    ensures
        forall|i: int|
            0 <= i < links.filter(not_artist_link(aid)).len() ==> (#[trigger] links.filter(
                not_artist_link(aid),
            )[i]).artist_id@ != aid,
{
    assert forall|i: int|
        0 <= i < links.filter(not_artist_link(aid)).len() implies (#[trigger] links.filter(
        not_artist_link(aid),
    )[i]).artist_id@ != aid by {
        Seq::lemma_filter_pred(links, not_artist_link(aid), i);
    }
}

/// Deleting a logo removes every link row and cycle entry that pointed at
/// it, and nulls out — without dropping — every schedule event that
/// referenced it.
pub proof fn lemma_delete_logo_cascades(
    links: Seq<ArtistLogoLink>,
    cycle: Seq<CycleEntry>,
    schedule: Seq<ScheduleEvent>,
    lid: Seq<char>,
)
    ensures
        forall|i: int|
            0 <= i < links.filter(not_logo_link(lid)).len() ==> (#[trigger] links.filter(
                not_logo_link(lid),
            )[i]).logo_id@ != lid,
        forall|i: int|
            0 <= i < cycle.filter(not_cycle_logo(lid)).len() ==> (#[trigger] cycle.filter(
                not_cycle_logo(lid),
            )[i]).logo_id@ != lid,
        schedule.map_values(cleared(lid)).len() == schedule.len(),
        forall|i: int|
            0 <= i < schedule.len() ==> ((#[trigger] schedule.map_values(cleared(lid))[i])
                .linked_logo_id matches Some(l) ==> l@ != lid),
{
    assert forall|i: int|
        0 <= i < links.filter(not_logo_link(lid)).len() implies (#[trigger] links.filter(
        not_logo_link(lid),
    )[i]).logo_id@ != lid by {
        Seq::lemma_filter_pred(links, not_logo_link(lid), i);
    }
    assert forall|i: int|
        0 <= i < cycle.filter(not_cycle_logo(lid)).len() implies (#[trigger] cycle.filter(
        not_cycle_logo(lid),
    )[i]).logo_id@ != lid by {
        Seq::lemma_filter_pred(cycle, not_cycle_logo(lid), i);
    }
    assert forall|i: int|
        0 <= i < schedule.len() implies ((#[trigger] schedule.map_values(cleared(lid))[i])
        .linked_logo_id matches Some(l) ==> l@ != lid) by {
        assert(schedule.map_values(cleared(lid))[i] == clear_logo_ref(schedule[i], lid));
    }
}

/// A well-formed store hands its listings out in order: artists and logos
/// by name, schedule events by their event-time string, the cycle by
/// strictly increasing position.
pub proof fn lemma_listings_ordered(s: &MetadataStore)
    requires
        s.wf(),
    ensures
        forall|i: int, j: int|
            #![trigger s.artists@[i], s.artists@[j]]
            0 <= i < j < s.artists@.len() ==> str_le(s.artists@[i].name@, s.artists@[j].name@),
        forall|i: int, j: int|
            #![trigger s.logos@[i], s.logos@[j]]
            0 <= i < j < s.logos@.len() ==> str_le(s.logos@[i].name@, s.logos@[j].name@)
                && s.logos@[i].file_path@ != s.logos@[j].file_path@,
        forall|i: int, j: int|
            #![trigger s.schedule@[i], s.schedule@[j]]
            0 <= i < j < s.schedule@.len() ==> str_le(
                s.schedule@[i].event_time@,
                s.schedule@[j].event_time@,
            ),
        forall|i: int, j: int|
            #![trigger s.cycle@[i], s.cycle@[j]]
            0 <= i < j < s.cycle@.len() ==> s.cycle@[i].order_index < s.cycle@[j].order_index,
{
    assert forall|i: int, j: int|
        #![trigger s.artists@[i], s.artists@[j]]
        0 <= i < j < s.artists@.len() implies str_le(
        s.artists@[i].name@,
        s.artists@[j].name@,
    ) by {
        assert(artist_rel()(s.artists@[i], s.artists@[j]));
    }
    assert forall|i: int, j: int|
        #![trigger s.logos@[i], s.logos@[j]]
        0 <= i < j < s.logos@.len() implies str_le(s.logos@[i].name@, s.logos@[j].name@)
        && s.logos@[i].file_path@ != s.logos@[j].file_path@ by {
        assert(logo_rel()(s.logos@[i], s.logos@[j]));
    }
    assert forall|i: int, j: int|
        #![trigger s.schedule@[i], s.schedule@[j]]
        0 <= i < j < s.schedule@.len() implies str_le(
        s.schedule@[i].event_time@,
        s.schedule@[j].event_time@,
    ) by {
        assert(event_rel()(s.schedule@[i], s.schedule@[j]));
    }
    assert forall|i: int, j: int|
        #![trigger s.cycle@[i], s.cycle@[j]]
        0 <= i < j < s.cycle@.len() implies s.cycle@[i].order_index
        < s.cycle@[j].order_index by {
        assert(cycle_rel()(s.cycle@[i], s.cycle@[j]));
    }
}

/// A replaced cycle is listed back exactly as requested: entry `i` of the
/// listing plays the `i`-th requested logo at position `i`, and nothing
/// else is listed — no entry of an earlier cycle survives the replacement.
pub proof fn lemma_cycle_listing_order(c: Seq<CycleEntry>, ids: Seq<String>, items: Seq<CycleItem>)
    requires
        cycle_matches(c, ids),
        items.len() == c.len(),
        forall|i: int|
            0 <= i < items.len() ==> (#[trigger] items[i]).logo_id == c[i].logo_id
                && items[i].order_index == c[i].order_index,
    ensures
        items.len() == ids.len(),
        forall|i: int|
            0 <= i < items.len() ==> (#[trigger] items[i]).logo_id == ids[i]
                && items[i].order_index == i as u32,
{
}

} // verus!
