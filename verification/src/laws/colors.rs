//! Colours: which identity has which colour after an operation.

use crate::color::Color;
use crate::solid::Solid;
use std::collections::HashMap;
use vstd::prelude::*;

verus! {

/// Flat pairs of identities, result first.
pub open spec fn pairs(history: Seq<u64>) -> Seq<(u64, u64)> {
    Seq::new((history.len() / 2) as nat, |i: int| (history[2 * i], history[2 * i + 1]))
}

/// Link `i` is the last to its result that leads from a coloured source.
pub open spec fn is_last_colored(
    links: Seq<(u64, u64)>,
    before: Map<u64, Color>,
    i: int,
) -> bool {
    &&& 0 <= i < links.len()
    &&& before.contains_key(links[i].1)
    &&& forall|j: int|
        i < j < links.len() && (#[trigger] links[j]).0 == links[i].0 ==> !before.contains_key(
            links[j].1,
        )
}

/// `after` are the colours that `before` comes to over the links: the new identity as a whole
/// has the colour of the old one, every other result has the colour of its last coloured
/// source, and nothing else is coloured.
pub open spec fn follow(
    after: Map<u64, Color>,
    before: Map<u64, Color>,
    links: Seq<(u64, u64)>,
    old_id: u64,
    new_id: u64,
) -> bool {
    &&& before.contains_key(old_id) ==> after.contains_key(new_id) && after[new_id]
        == before[old_id]
    &&& forall|i: int| #[trigger]
        is_last_colored(links, before, i) && !(links[i].0 == new_id && before.contains_key(old_id))
            ==> after.contains_key(links[i].0) && after[links[i].0] == before[links[i].1]
    &&& forall|id: u64| #[trigger]
        after.contains_key(id) ==> (id == new_id && before.contains_key(old_id)) || exists|i: int|
            0 <= i < links.len() && (#[trigger] links[i]).0 == id && before.contains_key(
                links[i].1,
            )
}

proof fn carried_colors_follow(links: Seq<(u64, u64)>, before: Map<u64, Color>)
    ensures
        forall|i: int| #[trigger]
            is_last_colored(links, before, i) ==> crate::color::handed_on(
                links,
                before,
            ).contains_key(links[i].0) && crate::color::handed_on(links, before)[links[i].0]
                == before[links[i].1],
        forall|id: u64| #[trigger]
            crate::color::handed_on(links, before).contains_key(id) ==> exists|i: int|
                0 <= i < links.len() && (#[trigger] links[i]).0 == id && before.contains_key(
                    links[i].1,
                ),
    decreases links.len(),
{
    if links.len() > 0 {
        let rest = links.drop_last();
        let last = links.len() - 1;
        carried_colors_follow(rest, before);
        assert forall|i: int| #[trigger] is_last_colored(links, before, i) implies {
            &&& crate::color::handed_on(links, before).contains_key(links[i].0)
            &&& crate::color::handed_on(links, before)[links[i].0] == before[links[i].1]
        } by {
            if i < last {
                assert(rest[i] == links[i]);
                assert forall|j: int|
                    i < j < rest.len() && (#[trigger] rest[j]).0
                        == rest[i].0 implies !before.contains_key(rest[j].1) by {
                    assert(links[j] == rest[j]);
                }
                assert(is_last_colored(rest, before, i));
                assert(links[last].0 == links[i].0 ==> !before.contains_key(links[last].1));
            }
        }
        assert forall|id: u64| #[trigger]
            crate::color::handed_on(links, before).contains_key(id) implies exists|i: int|
            0 <= i < links.len() && (#[trigger] links[i]).0 == id && before.contains_key(
                links[i].1,
            ) by {
            if crate::color::handed_on(rest, before).contains_key(id) {
                let i = choose|i: int|
                    0 <= i < rest.len() && (#[trigger] rest[i]).0 == id && before.contains_key(
                        rest[i].1,
                    );
                assert(links[i] == rest[i]);
            } else {
                assert(links[last].0 == id && before.contains_key(links[last].1));
            }
        }
    }
}

pub(crate) proof fn colors_do_follow(
    before: Map<u64, Color>,
    links: Seq<(u64, u64)>,
    old_id: u64,
    new_id: u64,
)
    ensures
        follow(
            crate::color::with_own_color(
                crate::color::handed_on(links, before),
                before,
                old_id,
                new_id,
            ),
            before,
            links,
            old_id,
            new_id,
        ),
{
    carried_colors_follow(links, before);
}

/// Colours go over the pairs of a face derivation.
pub proof fn colors_follow_the_derivation(
    old_id: u64,
    new_id: u64,
    history: &[u64],
    before: HashMap<u64, Color>,
    after: HashMap<u64, Color>,
)
    requires
        call_ensures(crate::color::remap_colormap, (old_id, new_id, history, &before), after),
    ensures
        follow(after@, before@, pairs(history@), old_id, new_id),
{
    assert(crate::color::pair_links(history@) =~= pairs(history@));
    colors_do_follow(before@, pairs(history@), old_id, new_id);
}

/// Each new face, and the old face at the same place.
pub open spec fn places(old_faces: Seq<u64>, new_faces: Seq<u64>, links: Seq<(u64, u64)>) -> bool {
    &&& links.len() <= old_faces.len()
    &&& links.len() <= new_faces.len()
    &&& links.len() == old_faces.len() || links.len() == new_faces.len()
    &&& forall|i: int|
        0 <= i < links.len() ==> (#[trigger] links[i]).0 == new_faces[i] && links[i].1
            == old_faces[i]
}

/// Without a derivation, colours go from each face to the one at the same place.
pub proof fn colors_follow_the_places(
    old_id: u64,
    old_faces: &[u64],
    new_id: u64,
    new_faces: &[u64],
    before: HashMap<u64, Color>,
    after: HashMap<u64, Color>,
    links: Seq<(u64, u64)>,
)
    requires
        call_ensures(
            crate::color::remap_colormap_by_order,
            (old_id, old_faces, new_id, new_faces, &before),
            after,
        ),
        places(old_faces@, new_faces@, links),
    ensures
        follow(after@, before@, links, old_id, new_id),
{
    assert(crate::color::place_links(old_faces@, new_faces@) =~= links);
    colors_do_follow(before@, links, old_id, new_id);
}

// ==================== Several operands ====================

/// Map `m` is the first that colours the identity.
pub open spec fn is_first_map(maps: Seq<Map<u64, Color>>, id: u64, m: int) -> bool {
    &&& 0 <= m < maps.len()
    &&& maps[m].contains_key(id)
    &&& forall|k: int| 0 <= k < m ==> !(#[trigger] maps[k]).contains_key(id)
}

/// Some map colours the identity.
pub open spec fn is_colored(maps: Seq<Map<u64, Color>>, id: u64) -> bool {
    exists|m: int| 0 <= m < maps.len() && (#[trigger] maps[m]).contains_key(id)
}

/// Link `i` is the first to its result that leads from a coloured source.
pub open spec fn is_first_colored(
    links: Seq<(u64, u64)>,
    maps: Seq<Map<u64, Color>>,
    i: int,
) -> bool {
    &&& 0 <= i < links.len()
    &&& is_colored(maps, links[i].1)
    &&& forall|j: int|
        0 <= j < i && (#[trigger] links[j]).0 == links[i].0 ==> !is_colored(maps, links[j].1)
}

/// `after` are the colours that several operands come to: each result has the colour of its
/// first coloured source, as the first operand that colours it has it, and nothing else is
/// coloured.
pub open spec fn inherit(
    after: Map<u64, Color>,
    maps: Seq<Map<u64, Color>>,
    links: Seq<(u64, u64)>,
) -> bool {
    &&& forall|i: int, m: int|
        #![trigger is_first_colored(links, maps, i), is_first_map(maps, links[i].1, m)]
        is_first_colored(links, maps, i) && is_first_map(maps, links[i].1, m)
            ==> after.contains_key(links[i].0) && after[links[i].0] == maps[m][links[i].1]
    &&& forall|id: u64| #[trigger]
        after.contains_key(id) ==> exists|i: int|
            0 <= i < links.len() && (#[trigger] links[i]).0 == id && is_colored(maps, links[i].1)
}

proof fn first_maps_color(maps: Seq<Map<u64, Color>>, id: u64)
    ensures
        crate::color::first_color(maps, id) is Some <==> is_colored(maps, id),
        forall|m: int| #[trigger]
            is_first_map(maps, id, m) ==> crate::color::first_color(maps, id) == Some(
                maps[m][id],
            ),
    decreases maps.len(),
{
    if maps.len() > 0 {
        let rest = maps.drop_first();
        first_maps_color(rest, id);
        if maps[0].contains_key(id) {
            assert(is_colored(maps, id));
        } else {
            if is_colored(rest, id) {
                let m = choose|m: int| 0 <= m < rest.len() && (#[trigger] rest[m]).contains_key(id);
                assert(maps[m + 1].contains_key(id));
            }
            if is_colored(maps, id) {
                let m = choose|m: int| 0 <= m < maps.len() && (#[trigger] maps[m]).contains_key(id);
                assert(rest[m - 1].contains_key(id));
            }
            assert forall|m: int| #[trigger]
                is_first_map(maps, id, m) implies crate::color::first_color(maps, id) == Some(
                maps[m][id],
            ) by {
                assert(m > 0);
                assert(rest[m - 1] == maps[m]);
                assert forall|k: int| 0 <= k < m - 1 implies !(#[trigger] rest[k]).contains_key(
                    id,
                ) by {
                    assert(rest[k] == maps[k + 1]);
                }
                assert(is_first_map(rest, id, m - 1));
            }
        }
    }
}

pub(crate) proof fn colors_are_inherited(links: Seq<(u64, u64)>, maps: Seq<Map<u64, Color>>)
    ensures
        inherit(crate::color::inherited(links, maps), maps, links),
    decreases links.len(),
{
    let all = crate::color::inherited(links, maps);
    if links.len() > 0 {
        let rest = links.drop_last();
        let last = links.len() - 1;
        let before = crate::color::inherited(rest, maps);
        colors_are_inherited(rest, maps);
        first_maps_color(maps, links[last].1);
        assert forall|i: int, m: int|
            #![trigger is_first_colored(links, maps, i), is_first_map(maps, links[i].1, m)]
            is_first_colored(links, maps, i) && is_first_map(
                maps,
                links[i].1,
                m,
            ) implies all.contains_key(links[i].0) && all[links[i].0] == maps[m][links[i].1] by {
            if i < last {
                assert(rest[i] == links[i]);
                assert forall|j: int|
                    0 <= j < i && (#[trigger] rest[j]).0 == rest[i].0 implies !is_colored(
                    maps,
                    rest[j].1,
                ) by {
                    assert(links[j] == rest[j]);
                }
                assert(is_first_colored(rest, maps, i));
                assert(is_first_map(maps, rest[i].1, m));
                assert(before.contains_key(links[i].0));
            } else {
                if before.contains_key(links[i].0) {
                    let j = choose|j: int|
                        0 <= j < rest.len() && (#[trigger] rest[j]).0 == links[i].0 && is_colored(
                            maps,
                            rest[j].1,
                        );
                    assert(links[j] == rest[j]);
                }
            }
        }
        assert forall|id: u64| #[trigger] all.contains_key(id) implies exists|i: int|
            0 <= i < links.len() && (#[trigger] links[i]).0 == id && is_colored(
                maps,
                links[i].1,
            ) by {
            if before.contains_key(id) {
                let i = choose|i: int|
                    0 <= i < rest.len() && (#[trigger] rest[i]).0 == id && is_colored(
                        maps,
                        rest[i].1,
                    );
                assert(links[i] == rest[i]);
            } else {
                assert(links[last].0 == id && is_colored(maps, links[last].1));
            }
        }
    }
}

/// The colours of the solids, solid by solid.
pub open spec fn color_maps<H>(solids: Seq<Solid<H>>) -> Seq<Map<u64, Color>> {
    Seq::new(solids.len(), |i: int| solids[i]@.colormap)
}

/// A combination has its colours from all its operands, the first one winning.
pub proof fn operands_hand_on_their_colors<H>(
    history: Vec<u64>,
    solids: Vec<Solid<H>>,
    colors: HashMap<u64, Color>,
)
    requires
        call_ensures(crate::boolean::inherited_colors::<H>, (&history, &solids), colors),
    ensures
        inherit(colors@, color_maps(solids@), pairs(history@)),
{
    assert(crate::color::pair_links(history@) =~= pairs(history@));
    assert(crate::boolean::solid_colors(crate::boolean::solid_views(solids@)) =~= color_maps(
        solids@,
    ));
    colors_are_inherited(pairs(history@), color_maps(solids@));
}

// ==================== Lists ====================

/// Place `i` of the lists gives the identity the colour: its channels stand at three times
/// the place.
pub open spec fn lists_at(ids: Seq<u64>, channels: Seq<u32>, i: int, id: u64, color: Color) -> bool {
    &&& 0 <= i < ids.len()
    &&& 3 * i + 2 < channels.len()
    &&& ids[i] == id
    &&& channels[3 * i] == color.r
    &&& channels[3 * i + 1] == color.g
    &&& channels[3 * i + 2] == color.b
}

/// The identity occurs at no later place that has whole channels.
pub open spec fn is_last_place(ids: Seq<u64>, channels: Seq<u32>, i: int) -> bool {
    forall|j: int|
        i < j < ids.len() && 3 * j + 2 < channels.len() ==> #[trigger] ids[j] != ids[i]
}

proof fn listed_places(ids: Seq<u64>, channels: Seq<u32>, count: nat, id: u64)
    requires
        count <= ids.len(),
        3 * count <= channels.len(),
    ensures
        crate::color::listed_colors(ids, channels, count).contains_key(id) <==> exists|i: int|
            0 <= i < count && #[trigger] ids[i] == id,
        forall|i: int|
            0 <= i < count && #[trigger] ids[i] == id && (forall|j: int|
                i < j < count ==> #[trigger] ids[j] != id) ==> {
                let color = crate::color::listed_colors(ids, channels, count)[id];
                &&& color.r == channels[3 * i]
                &&& color.g == channels[3 * i + 1]
                &&& color.b == channels[3 * i + 2]
            },
    decreases count,
{
    if count > 0 {
        let less = (count - 1) as nat;
        listed_places(ids, channels, less, id);
        if ids[less as int] != id {
            assert forall|i: int|
                0 <= i < count && #[trigger] ids[i] == id && (forall|j: int|
                    i < j < count ==> #[trigger] ids[j] != id) implies {
                let color = crate::color::listed_colors(ids, channels, count)[id];
                &&& color.r == channels[3 * i]
                &&& color.g == channels[3 * i + 1]
                &&& color.b == channels[3 * i + 2]
            } by {
                assert(i < less);
            }
        }
    }
}

/// The colours are those of the lists: every identity with whole channels is coloured, by the
/// last place where it stands, and no other is.
pub open spec fn are_listed(colors: Map<u64, Color>, ids: Seq<u64>, channels: Seq<u32>) -> bool {
    &&& forall|i: int|
        0 <= i < ids.len() && 3 * i + 2 < channels.len() && #[trigger] is_last_place(
            ids,
            channels,
            i,
        ) ==> colors.contains_key(ids[i]) && lists_at(ids, channels, i, ids[i], colors[ids[i]])
    &&& forall|id: u64| #[trigger]
        colors.contains_key(id) ==> exists|j: int|
            0 <= j < ids.len() && 3 * j + 2 < channels.len() && #[trigger] ids[j] == id
}

pub(crate) proof fn listed_colors_are_listed(ids: Seq<u64>, channels: Seq<u32>)
    ensures
        are_listed(
            crate::color::listed_colors(
                ids,
                channels,
                crate::color::listed_count(ids, channels),
            ),
            ids,
            channels,
        ),
{
    let count = crate::color::listed_count(ids, channels);
    let colors = crate::color::listed_colors(ids, channels, count);
    assert forall|i: int|
        0 <= i < ids.len() && 3 * i + 2 < channels.len() && #[trigger] is_last_place(
            ids,
            channels,
            i,
        ) implies colors.contains_key(ids[i]) && lists_at(
        ids,
        channels,
        i,
        ids[i],
        colors[ids[i]],
    ) by {
        listed_places(ids, channels, count, ids[i]);
    }
    assert forall|id: u64| #[trigger] colors.contains_key(id) implies exists|j: int|
        0 <= j < ids.len() && 3 * j + 2 < channels.len() && #[trigger] ids[j] == id by {
        listed_places(ids, channels, count, id);
    }
}

/// Listed colours are read by identity: every identity with whole channels is coloured, by
/// the last place where it stands, and no other is.
pub proof fn lists_are_read_by_identity(
    ids: &[u64],
    channels: &[u32],
    colors: HashMap<u64, Color>,
)
    requires
        call_ensures(crate::color::colors_from_lists, (ids, channels), colors),
    ensures
        are_listed(colors@, ids@, channels@),
{
    listed_colors_are_listed(ids@, channels@);
}

/// The lists name every colour once, with its channels in order, and nothing else.
pub open spec fn list_once(ids: Seq<u64>, channels: Seq<u32>, colors: Map<u64, Color>) -> bool {
    &&& channels.len() == 3 * ids.len()
    &&& forall|i: int|
        0 <= i < ids.len() ==> colors.contains_key(#[trigger] ids[i]) && lists_at(
            ids,
            channels,
            i,
            ids[i],
            colors[ids[i]],
        )
    &&& forall|id: u64| #[trigger]
        colors.contains_key(id) ==> exists|i: int| 0 <= i < ids.len() && #[trigger] ids[i] == id
    &&& forall|i: int, j: int|
        0 <= i < j < ids.len() ==> #[trigger] ids[i] != #[trigger] ids[j]
}

pub(crate) proof fn lists_do_list_once(ids: Seq<u64>, channels: Seq<u32>, colors: Map<u64, Color>)
    requires
        crate::color::lists_colors(ids, channels, colors),
    ensures
        list_once(ids, channels, colors),
{
    assert forall|i: int| 0 <= i < ids.len() implies colors.contains_key(#[trigger] ids[i])
        && lists_at(ids, channels, i, ids[i], colors[ids[i]]) by {
        assert(ids.contains(ids[i]));
        assert(crate::color::flat_color(channels, i) == colors[ids[i]]);
    }
    assert forall|id: u64| #[trigger] colors.contains_key(id) implies exists|i: int|
        0 <= i < ids.len() && #[trigger] ids[i] == id by {
        assert(ids.contains(id));
    }
}

/// Colours are listed in full: each once, with its channels in order, and nothing else.
pub proof fn colors_are_listed_once(colors: HashMap<u64, Color>, lists: (Vec<u64>, Vec<u32>))
    requires
        call_ensures(crate::color::colors_to_lists, (&colors,), lists),
    ensures
        list_once(lists.0@, lists.1@, colors@),
{
    lists_do_list_once(lists.0@, lists.1@, colors@);
}

/// Copied colours are the same, and a colour is found by its identity.
pub proof fn colors_are_found_by_identity(
    colors: HashMap<u64, Color>,
    copy: HashMap<u64, Color>,
    id: u64,
    color: Option<Color>,
)
    requires
        call_ensures(crate::color::copied_colors, (&colors,), copy),
        call_ensures(crate::color::color_of, (&copy, id), color),
    ensures
        colors@.contains_key(id) ==> color == Some(colors@[id]),
        !colors@.contains_key(id) ==> color is None,
{
}

} // verus!
