//! Colours of faces and solids, and how they follow a shape.
//!
//! Colours are keyed by identity: that of a face, or that of a solid for the solid as a
//! whole. A face colour wins over the colour of its solid.

use std::collections::HashMap;
use vstd::prelude::*;

verus! {

/// A colour: three single-precision channels by their bits.
#[derive(Clone, Copy, Debug, PartialEq, Eq, Hash, Structural)]
pub struct Color {
    pub r: u32,
    pub g: u32,
    pub b: u32,
}

/// Add the colours of `more`, which win over those already there.
pub fn extend_colors(colors: &mut HashMap<u64, Color>, more: &HashMap<u64, Color>)
    ensures
        final(colors)@ == old(colors)@.union_prefer_right(more@),
{
    broadcast use vstd::std_specs::hash::group_hash_axioms;

    let ghost before = colors@;
    for entry in it: more.iter()
        invariant
            it.seq() == vstd::std_specs::iter::IteratorSpec::remaining(&more.iter()),
            forall|id: u64| #[trigger]
                colors@.contains_key(id) <==> before.contains_key(id) || exists|i: int|
                    0 <= i < it.index() && *(#[trigger] it.seq()[i]).0 == id,
            forall|id: u64| #[trigger]
                colors@.contains_key(id) ==> colors@[id] == (if exists|i: int|
                    0 <= i < it.index() && *(#[trigger] it.seq()[i]).0 == id {
                    more@[id]
                } else {
                    before[id]
                }),
    {
        colors.insert(*entry.0, *entry.1);
    }
    assert(colors@ =~= before.union_prefer_right(more@));
}

/// The same colours.
pub fn copied_colors(colors: &HashMap<u64, Color>) -> (copy: HashMap<u64, Color>)
    ensures
        copy@ == colors@,
{
    let mut copy: HashMap<u64, Color> = HashMap::new();
    extend_colors(&mut copy, colors);
    assert(copy@ =~= colors@);
    copy
}

/// The colour of `id`, if it has one.
pub fn color_of(colors: &HashMap<u64, Color>, id: u64) -> (color: Option<Color>)
    ensures
        color == (if colors@.contains_key(id) {
            Some(colors@[id])
        } else {
            None
        }),
{
    broadcast use vstd::std_specs::hash::group_hash_axioms;

    match colors.get(&id) {
        Some(color) => Some(*color),
        None => None,
    }
}

// ==================== Colours across an operation ====================

/// Links from a result to its source, as flat pairs of identities give them.
pub open spec fn pair_links(pairs: Seq<u64>) -> Seq<(u64, u64)> {
    Seq::new((pairs.len() / 2) as nat, |i: int| (pairs[2 * i], pairs[2 * i + 1]))
}

/// Links from each new face to the old face of the same place.
pub open spec fn place_links(old_faces: Seq<u64>, new_faces: Seq<u64>) -> Seq<(u64, u64)> {
    Seq::new(
        if old_faces.len() <= new_faces.len() {
            old_faces.len()
        } else {
            new_faces.len()
        },
        |i: int| (new_faces[i], old_faces[i]),
    )
}

/// The colours that `colors` hands on over the links: each result gets the colour of its
/// source, of the last coloured one where it has several.
pub open spec fn handed_on(links: Seq<(u64, u64)>, colors: Map<u64, Color>) -> Map<u64, Color>
    decreases links.len(),
{
    if links.len() == 0 {
        Map::empty()
    } else {
        let rest = handed_on(links.drop_last(), colors);
        let (result, source) = links.last();
        if colors.contains_key(source) {
            rest.insert(result, colors[source])
        } else {
            rest
        }
    }
}

/// `carried` with the colour of the solid as a whole, which moves from one identity to the
/// other.
pub open spec fn with_own_color(
    carried: Map<u64, Color>,
    colors: Map<u64, Color>,
    old_id: u64,
    new_id: u64,
) -> Map<u64, Color> {
    if colors.contains_key(old_id) {
        carried.insert(new_id, colors[old_id])
    } else {
        carried
    }
}

fn hand_on(
    carried: &mut HashMap<u64, Color>,
    colors: &HashMap<u64, Color>,
    result: u64,
    source: u64,
)
    ensures
        final(carried)@ == (if colors@.contains_key(source) {
            old(carried)@.insert(result, colors@[source])
        } else {
            old(carried)@
        }),
{
    broadcast use vstd::std_specs::hash::group_hash_axioms;

    if let Some(color) = color_of(colors, source) {
        carried.insert(result, color);
    }
}

/// Carry colours to a shape whose faces stand in the same order, and the solid's own colour
/// to its new identity.
pub fn remap_colormap_by_order(
    old_id: u64,
    old_faces: &[u64],
    new_id: u64,
    new_faces: &[u64],
    old_colormap: &HashMap<u64, Color>,
) -> (colormap: HashMap<u64, Color>)
    ensures
        colormap@ == with_own_color(
            handed_on(place_links(old_faces@, new_faces@), old_colormap@),
            old_colormap@,
            old_id,
            new_id,
        ),
{
    let ghost links = place_links(old_faces@, new_faces@);
    let mut colormap: HashMap<u64, Color> = HashMap::new();
    let mut next: usize = 0;
    assert(links.take(0) =~= seq![]);
    while next < old_faces.len() && next < new_faces.len()
        invariant
            next <= old_faces@.len(),
            next <= new_faces@.len(),
            links == place_links(old_faces@, new_faces@),
            colormap@ == handed_on(links.take(next as int), old_colormap@),
        decreases old_faces@.len() - next,
    {
        assert(links.take(next + 1).drop_last() =~= links.take(next as int));
        hand_on(&mut colormap, old_colormap, new_faces[next], old_faces[next]);
        next += 1;
    }
    assert(links.take(next as int) =~= links);
    hand_on(&mut colormap, old_colormap, new_id, old_id);
    colormap
}

/// Carry face colours across flat `[result, source]` pairs, and the solid's own colour to
/// its new identity.
pub fn remap_colormap(
    old_id: u64,
    new_id: u64,
    history: &[u64],
    old_colormap: &HashMap<u64, Color>,
) -> (colormap: HashMap<u64, Color>)
    ensures
        colormap@ == with_own_color(
            handed_on(pair_links(history@), old_colormap@),
            old_colormap@,
            old_id,
            new_id,
        ),
{
    let ghost links = pair_links(history@);
    let count: usize = history.len() / 2;
    let mut colormap: HashMap<u64, Color> = HashMap::new();
    let mut next: usize = 0;
    assert(links.take(0) =~= seq![]);
    while next < count
        invariant
            next <= count == history.len() / 2,
            links == pair_links(history@),
            colormap@ == handed_on(links.take(next as int), old_colormap@),
        decreases count - next,
    {
        assert(links.take(next + 1).drop_last() =~= links.take(next as int));
        hand_on(&mut colormap, old_colormap, history[2 * next], history[2 * next + 1]);
        next += 1;
    }
    assert(links.take(next as int) =~= links);
    hand_on(&mut colormap, old_colormap, new_id, old_id);
    colormap
}

/// Colours are only handed on: every colour after an operation is a colour that a source of
/// the same place in the links, or the solid itself, had before.
pub proof fn colors_are_handed_on(
    links: Seq<(u64, u64)>,
    colors: Map<u64, Color>,
    old_id: u64,
    new_id: u64,
    id: u64,
) -> (source: u64)
    requires
        with_own_color(handed_on(links, colors), colors, old_id, new_id).contains_key(id),
    ensures
        colors.contains_key(source),
        with_own_color(handed_on(links, colors), colors, old_id, new_id)[id] == colors[source],
        links.contains((id, source)) || (id == new_id && source == old_id),
{
    if id == new_id && colors.contains_key(old_id) {
        old_id
    } else {
        source_of_color(links, colors, id)
    }
}

proof fn source_of_color(links: Seq<(u64, u64)>, colors: Map<u64, Color>, id: u64) -> (source: u64)
    requires
        handed_on(links, colors).contains_key(id),
    ensures
        colors.contains_key(source),
        handed_on(links, colors)[id] == colors[source],
        links.contains((id, source)),
    decreases links.len(),
{
    let (result, source) = links.last();
    if result == id && colors.contains_key(source) {
        assert(links[links.len() - 1] == (id, source));
        source
    } else {
        let found = source_of_color(links.drop_last(), colors, id);
        let i = choose|i: int|
            0 <= i < links.drop_last().len() && links.drop_last()[i] == (id, found);
        assert(links[i] == (id, found));
        found
    }
}

/// No colour is lost: a result that is linked to a coloured source is coloured, and so is
/// the solid as a whole if it was.
pub proof fn linked_results_are_colored(
    links: Seq<(u64, u64)>,
    colors: Map<u64, Color>,
    old_id: u64,
    new_id: u64,
    i: int,
)
    requires
        0 <= i < links.len(),
    ensures
        colors.contains_key(links[i].1) ==> with_own_color(
            handed_on(links, colors),
            colors,
            old_id,
            new_id,
        ).contains_key(links[i].0),
        colors.contains_key(old_id) ==> with_own_color(
            handed_on(links, colors),
            colors,
            old_id,
            new_id,
        )[new_id] == colors[old_id],
    decreases links.len(),
{
    if i < links.len() - 1 {
        linked_results_are_colored(links.drop_last(), colors, old_id, new_id, i);
        assert(links.drop_last()[i] == links[i]);
    }
}

// ==================== Colours of several operands ====================

/// The colour of `source` in the first of the maps that has one.
pub open spec fn first_color(maps: Seq<Map<u64, Color>>, source: u64) -> Option<Color>
    decreases maps.len(),
{
    if maps.len() == 0 {
        None
    } else if maps[0].contains_key(source) {
        Some(maps[0][source])
    } else {
        first_color(maps.drop_first(), source)
    }
}

/// The colours that several operands hand on over the links: each result gets the colour of
/// its first coloured source.
pub open spec fn inherited(links: Seq<(u64, u64)>, maps: Seq<Map<u64, Color>>) -> Map<u64, Color>
    decreases links.len(),
{
    if links.len() == 0 {
        Map::empty()
    } else {
        let rest = inherited(links.drop_last(), maps);
        let (result, source) = links.last();
        match first_color(maps, source) {
            Some(color) => if rest.contains_key(result) {
                rest
            } else {
                rest.insert(result, color)
            },
            None => rest,
        }
    }
}

/// Every colour that operands hand on was a colour of one of them, at a linked source.
pub proof fn inherited_colors_have_a_source(
    links: Seq<(u64, u64)>,
    maps: Seq<Map<u64, Color>>,
    id: u64,
) -> (source: u64)
    requires
        inherited(links, maps).contains_key(id),
    ensures
        links.contains((id, source)),
        first_color(maps, source) == Some(inherited(links, maps)[id]),
    decreases links.len(),
{
    let rest = links.drop_last();
    let (result, source) = links.last();
    if inherited(rest, maps).contains_key(id) {
        let found = inherited_colors_have_a_source(rest, maps, id);
        let i = choose|i: int| 0 <= i < rest.len() && rest[i] == (id, found);
        assert(links[i] == (id, found));
        found
    } else {
        assert(links[links.len() - 1] == (id, source));
        source
    }
}

// ==================== Flat colours ====================

/// The colour at place `i` of flat channels.
pub open spec fn flat_color(channels: Seq<u32>, i: int) -> Color {
    Color { r: channels[3 * i], g: channels[3 * i + 1], b: channels[3 * i + 2] }
}

/// The colours of the first `count` identities, the last one winning where an identity
/// occurs several times.
pub open spec fn listed_colors(ids: Seq<u64>, channels: Seq<u32>, count: nat) -> Map<u64, Color>
    decreases count,
{
    if count == 0 {
        Map::empty()
    } else {
        listed_colors(ids, channels, (count - 1) as nat).insert(
            ids[count - 1],
            flat_color(channels, count - 1),
        )
    }
}

/// How many identities have whole colours.
pub open spec fn listed_count(ids: Seq<u64>, channels: Seq<u32>) -> nat {
    if ids.len() <= channels.len() / 3 {
        ids.len()
    } else {
        (channels.len() / 3) as nat
    }
}

/// Read identities with flat channels.
pub fn colors_from_lists(ids: &[u64], channels: &[u32]) -> (colors: HashMap<u64, Color>)
    ensures
        colors@ == listed_colors(ids@, channels@, listed_count(ids@, channels@)),
{
    broadcast use vstd::std_specs::hash::group_hash_axioms;

    let count: usize = if ids.len() <= channels.len() / 3 {
        ids.len()
    } else {
        channels.len() / 3
    };
    let mut colors: HashMap<u64, Color> = HashMap::new();
    let mut next: usize = 0;
    while next < count
        invariant
            next <= count <= ids.len(),
            count <= channels.len() / 3,
            colors@ == listed_colors(ids@, channels@, next as nat),
        decreases count - next,
    {
        let at: usize = 3 * next;
        colors.insert(
            ids[next],
            Color { r: channels[at], g: channels[at + 1], b: channels[at + 2] },
        );
        next += 1;
    }
    colors
}

/// The lists name every colour once.
pub open spec fn lists_colors(ids: Seq<u64>, channels: Seq<u32>, colors: Map<u64, Color>) -> bool {
    &&& ids.no_duplicates()
    &&& channels.len() == 3 * ids.len()
    &&& forall|id: u64| #[trigger] ids.contains(id) <==> colors.contains_key(id)
    &&& forall|i: int| 0 <= i < ids.len() ==> flat_color(channels, i) == colors[#[trigger] ids[i]]
}

/// Write colours as identities with flat channels. The order is open.
pub fn colors_to_lists(colors: &HashMap<u64, Color>) -> (lists: (Vec<u64>, Vec<u32>))
    ensures
        lists_colors(lists.0@, lists.1@, colors@),
{
    broadcast use vstd::std_specs::hash::group_hash_axioms;

    let ghost entries = vstd::std_specs::iter::IteratorSpec::remaining(&colors.iter());
    let mut ids: Vec<u64> = Vec::new();
    let mut channels: Vec<u32> = Vec::new();
    for entry in it: colors.iter()
        invariant
            entries == vstd::std_specs::iter::IteratorSpec::remaining(&colors.iter()),
            it.seq() == entries,
            entries.no_duplicates(),
            ids@.len() == it.index(),
            channels@.len() == 3 * it.index(),
            forall|i: int| 0 <= i < ids@.len() ==> #[trigger] ids@[i] == *it.seq()[i].0,
            forall|i: int|
                0 <= i < ids@.len() ==> flat_color(channels@, i) == colors@[#[trigger] ids@[i]],
    {
        let ghost before = channels@;
        ids.push(*entry.0);
        channels.push(entry.1.r);
        channels.push(entry.1.g);
        channels.push(entry.1.b);
        proof {
            assert forall|i: int| 0 <= i < ids@.len() implies flat_color(channels@, i)
                == colors@[#[trigger] ids@[i]] by {
                if i < ids@.len() - 1 {
                    assert(flat_color(channels@, i) == flat_color(before, i));
                }
            }
        }
    }
    proof {
        assert(ids@.len() == entries.len());
        assert forall|i: int, j: int|
            0 <= i < ids@.len() && 0 <= j < ids@.len() && i != j implies ids@[i] != ids@[j] by {
            assert(colors@.contains_key(*entries[i].0) && colors@[*entries[i].0]
                == *entries[i].1);
            assert(colors@.contains_key(*entries[j].0) && colors@[*entries[j].0]
                == *entries[j].1);
            assert(entries[i] != entries[j]);
        }
        assert forall|id: u64| #[trigger] ids@.contains(id) <==> colors@.contains_key(id) by {
            if ids@.contains(id) {
                let i = choose|i: int| 0 <= i < ids@.len() && ids@[i] == id;
                assert(colors@.contains_key(*entries[i].0));
            }
            if colors@.contains_key(id) {
                assert(entries.contains((&id, &colors@[id])));
                let i = choose|i: int|
                    0 <= i < entries.len() && entries[i] == (&id, &colors@[id]);
                assert(ids@[i] == id);
            }
        }
    }
    (ids, channels)
}

proof fn distinct_listed_colors(ids: Seq<u64>, channels: Seq<u32>, count: nat)
    requires
        ids.no_duplicates(),
        count <= ids.len(),
    ensures
        forall|id: u64| #[trigger]
            listed_colors(ids, channels, count).contains_key(id) <==> ids.take(
                count as int,
            ).contains(id),
        forall|i: int|
            0 <= i < count ==> listed_colors(ids, channels, count)[#[trigger] ids[i]]
                == flat_color(channels, i),
    decreases count,
{
    if count > 0 {
        let less = (count - 1) as nat;
        distinct_listed_colors(ids, channels, less);
        let shorter = ids.take(less as int);
        let longer = ids.take(count as int);
        assert(longer =~= shorter.push(ids[less as int]));
        assert forall|id: u64| #[trigger]
            listed_colors(ids, channels, count).contains_key(id) <==> longer.contains(id) by {
            if shorter.contains(id) {
                let i = choose|i: int| 0 <= i < shorter.len() && shorter[i] == id;
                assert(longer[i] == id);
            }
            if id == ids[less as int] {
                assert(longer[less as int] == id);
            }
            if longer.contains(id) && id != ids[less as int] {
                let i = choose|i: int| 0 <= i < longer.len() && longer[i] == id;
                assert(shorter[i] == id);
            }
            assert(listed_colors(ids, channels, less).contains_key(id) <==> shorter.contains(id));
        }
    } else {
        assert(ids.take(0) =~= seq![]);
    }
}

/// What was listed is read back: reading the lists of some colours gives these colours.
pub proof fn listed_colors_are_read_back(ids: Seq<u64>, channels: Seq<u32>, colors: Map<u64, Color>)
    requires
        lists_colors(ids, channels, colors),
    ensures
        listed_colors(ids, channels, listed_count(ids, channels)) == colors,
{
    assert(listed_count(ids, channels) == ids.len());
    distinct_listed_colors(ids, channels, ids.len());
    assert(ids.take(ids.len() as int) =~= ids);
    let read = listed_colors(ids, channels, ids.len());
    assert forall|id: u64| #[trigger] read.contains_key(id) <==> colors.contains_key(id) by {
        assert(ids.contains(id) <==> colors.contains_key(id));
    }
    assert forall|id: u64| #[trigger] read.contains_key(id) implies read[id] == colors[id] by {
        assert(ids.contains(id));
        let i = choose|i: int| 0 <= i < ids.len() && ids[i] == id;
        assert(read[ids[i]] == flat_color(channels, i));
    }
    assert(read =~= colors);
}

} // verus!
