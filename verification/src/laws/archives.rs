//! Colour trailers: which byte stands where, and what comes back.

use crate::color::Color;
use std::collections::HashMap;
use vstd::prelude::*;

verus! {

/// The number of the four bytes at `at`, the least first.
pub open spec fn number(bytes: Seq<u8>, at: int) -> int {
    bytes[at] + 0x100 * bytes[at + 1] + 0x1_0000 * bytes[at + 2] + 0x100_0000 * bytes[at + 3]
}

/// The bytes spell `CDCL`, a count, and as many entries of sixteen bytes.
pub open spec fn is_trailer(bytes: Seq<u8>) -> bool {
    &&& bytes.len() >= 8
    &&& bytes[0] == 'C' as u8
    &&& bytes[1] == 'D' as u8
    &&& bytes[2] == 'C' as u8
    &&& bytes[3] == 'L' as u8
    &&& bytes.len() >= 8 + 16 * number(bytes, 4)
}

/// The index of entry `i` of a trailer.
pub open spec fn index_of(bytes: Seq<u8>, i: int) -> int {
    number(bytes, 8 + 16 * i)
}

/// Entry `i` of a trailer is this index with this colour.
pub open spec fn is_entry(bytes: Seq<u8>, i: int, index: int, color: Color) -> bool {
    &&& index_of(bytes, i) == index
    &&& number(bytes, 12 + 16 * i) == color.r
    &&& number(bytes, 16 + 16 * i) == color.g
    &&& number(bytes, 20 + 16 * i) == color.b
}

proof fn trailers_are_trailers(bytes: Seq<u8>)
    ensures
        crate::trailer::holds_trailer(bytes) <==> is_trailer(bytes),
{
    if bytes.len() >= 8 {
        assert(number(bytes, 4) == crate::trailer::number_at(bytes, 4));
        let start = bytes.take(4);
        assert(start[0] == bytes[0] && start[1] == bytes[1] && start[2] == bytes[2] && start[3]
            == bytes[3]);
        if is_trailer(bytes) {
            assert(start =~= crate::trailer::magic());
        }
        if crate::trailer::holds_trailer(bytes) {
            let magic = crate::trailer::magic();
            assert(start == magic);
            assert(magic[0] == 67 && magic[1] == 68 && magic[2] == 67 && magic[3] == 76);
        }
    }
}

proof fn numbers_fit(bytes: Seq<u8>, at: int)
    ensures
        0 <= number(bytes, at) <= u32::MAX,
        number(bytes, at) == crate::trailer::number_at(bytes, at),
{
}

/// No later entry has the index of entry `i`.
pub open spec fn is_last_entry(entries: Seq<(u32, Color)>, i: int) -> bool {
    &&& 0 <= i < entries.len()
    &&& forall|j: int| i < j < entries.len() ==> (#[trigger] entries[j]).0 != entries[i].0
}

proof fn last_entries_win(entries: Seq<(u32, Color)>)
    ensures
        forall|index: u32| #[trigger]
            crate::trailer::indexed_colors(entries).contains_key(index) ==> exists|i: int|
                0 <= i < entries.len() && (#[trigger] entries[i]).0 == index,
        forall|i: int| #[trigger]
            is_last_entry(entries, i) ==> crate::trailer::indexed_colors(entries).contains_key(
                entries[i].0,
            ) && crate::trailer::indexed_colors(entries)[entries[i].0] == entries[i].1,
    decreases entries.len(),
{
    if entries.len() > 0 {
        let rest = entries.drop_last();
        let last = entries.len() - 1;
        last_entries_win(rest);
        let all = crate::trailer::indexed_colors(entries);
        let fewer = crate::trailer::indexed_colors(rest);
        assert forall|index: u32| #[trigger] all.contains_key(index) implies exists|i: int|
            0 <= i < entries.len() && (#[trigger] entries[i]).0 == index by {
            if entries[last].0 != index {
                assert(fewer.contains_key(index));
                let i = choose|i: int| 0 <= i < rest.len() && (#[trigger] rest[i]).0 == index;
                assert(entries[i].0 == index);
            }
        }
        assert forall|i: int| #[trigger] is_last_entry(entries, i) implies all.contains_key(
            entries[i].0,
        ) && all[entries[i].0] == entries[i].1 by {
            if i < last {
                assert(entries[last].0 != entries[i].0);
                assert forall|j: int| i < j < rest.len() implies (#[trigger] rest[j]).0
                    != rest[i].0 by {
                    assert(rest[j] == entries[j]);
                }
                assert(is_last_entry(rest, i));
            }
        }
    }
}

/// No later entry of the trailer has the index of entry `i`.
pub open spec fn is_last_index(bytes: Seq<u8>, i: int) -> bool {
    &&& 0 <= i < number(bytes, 4)
    &&& forall|j: int|
        i < j < number(bytes, 4) ==> #[trigger] index_of(bytes, j) != index_of(bytes, i)
}

/// The colours are those of the bytes, if they are a trailer: the last entry of an index gives
/// it its colour, and no other index is coloured. Other bytes colour nothing.
pub open spec fn is_read_off(colors: Map<u32, Color>, bytes: Seq<u8>) -> bool {
    &&& !is_trailer(bytes) ==> forall|index: u32| !#[trigger] colors.contains_key(index)
    &&& is_trailer(bytes) ==> forall|i: int| #[trigger]
        is_last_index(bytes, i) ==> {
            let index = index_of(bytes, i) as u32;
            &&& index == index_of(bytes, i)
            &&& colors.contains_key(index)
            &&& is_entry(bytes, i, index as int, colors[index])
        }
    &&& forall|index: u32| #[trigger]
        colors.contains_key(index) ==> exists|j: int|
            0 <= j < number(bytes, 4) && #[trigger] index_of(bytes, j) == index
}

pub(crate) proof fn held_colors_are_read_off(bytes: Seq<u8>)
    ensures
        is_read_off(
            crate::trailer::indexed_colors(crate::trailer::held_entries(bytes)),
            bytes,
        ),
{
    trailers_are_trailers(bytes);
    let entries = crate::trailer::held_entries(bytes);
    let colors = crate::trailer::indexed_colors(entries);
    last_entries_win(entries);
    if is_trailer(bytes) {
        numbers_fit(bytes, 4);
        assert forall|j: int| 0 <= j < entries.len() implies (#[trigger] entries[j]).0 == index_of(
            bytes,
            j,
        ) && is_entry(bytes, j, entries[j].0 as int, entries[j].1) by {
            numbers_fit(bytes, 8 + 16 * j);
            numbers_fit(bytes, 12 + 16 * j);
            numbers_fit(bytes, 16 + 16 * j);
            numbers_fit(bytes, 20 + 16 * j);
        }
        assert forall|i: int| #[trigger] is_last_index(bytes, i) implies {
            let index = index_of(bytes, i) as u32;
            &&& index == index_of(bytes, i)
            &&& colors.contains_key(index)
            &&& is_entry(bytes, i, index as int, colors[index])
        } by {
            assert(entries[i].0 == index_of(bytes, i));
            assert forall|j: int| i < j < entries.len() implies (#[trigger] entries[j]).0
                != entries[i].0 by {
                assert(index_of(bytes, j) != index_of(bytes, i));
            }
            assert(is_last_entry(entries, i));
        }
        assert forall|index: u32| #[trigger] colors.contains_key(index) implies exists|j: int|
            0 <= j < number(bytes, 4) && #[trigger] index_of(bytes, j) == index by {
            let j = choose|j: int| 0 <= j < entries.len() && (#[trigger] entries[j]).0 == index;
            assert(index_of(bytes, j) == index);
        }
    }
}

/// A trailer is read entry by entry: the last entry of an index gives it its colour, and no
/// other index is coloured. Bytes that are no trailer colour nothing.
pub proof fn trailers_are_read_entry_by_entry(tail: &[u8], colors: HashMap<u32, Color>)
    requires
        call_ensures(crate::trailer::read_color_trailer, (tail,), colors),
    ensures
        is_read_off(colors@, tail@),
{
    held_colors_are_read_off(tail@);
}

/// Place `i` has a colour, and its identity stands at no later place.
pub open spec fn is_colored_place(ids: Seq<u64>, colors: Map<u64, Color>, i: int) -> bool {
    &&& 0 <= i < ids.len()
    &&& colors.contains_key(ids[i])
    &&& forall|j: int| i < j < ids.len() ==> #[trigger] ids[j] != ids[i]
}

proof fn entries_are_colored_places(ids: Seq<u64>, colors: Map<u64, Color>, count: nat)
    requires
        count <= ids.len() <= u32::MAX,
    ensures
        ({
            let entries = crate::trailer::places(count).filter_map(
                |i: int| crate::trailer::entry_of(ids, colors, i),
            );
            &&& forall|k: int|
                0 <= k < entries.len() ==> (#[trigger] entries[k]).0 < count && is_colored_place(
                    ids,
                    colors,
                    entries[k].0 as int,
                ) && entries[k].1 == colors[ids[entries[k].0 as int]]
            &&& forall|k: int, l: int|
                0 <= k < l < entries.len() ==> (#[trigger] entries[k]).0 < (
                #[trigger] entries[l]).0
            &&& forall|i: int|
                0 <= i < count && #[trigger] is_colored_place(ids, colors, i) ==> exists|k: int|
                    0 <= k < entries.len() && (#[trigger] entries[k]).0 == i
        }),
    decreases count,
{
    let f = |i: int| crate::trailer::entry_of(ids, colors, i);
    let places = crate::trailer::places(count);
    let entries = places.filter_map(f);
    if count > 0 {
        let last = count - 1;
        entries_are_colored_places(ids, colors, last as nat);
        assert(places.drop_last() =~= crate::trailer::places(last as nat));
        let before = crate::trailer::places(last as nat).filter_map(f);
        assert(places.last() == last);
        assert(crate::trailer::stands_last(ids, last) <==> (forall|j: int|
            last < j < ids.len() ==> #[trigger] ids[j] != ids[last]));
        match f(last) {
            Some(entry) => {
                assert(entries =~= before.push(entry));
                assert(is_colored_place(ids, colors, last));
                assert forall|i: int|
                    0 <= i < count && #[trigger] is_colored_place(ids, colors, i) implies exists|
                    k: int,
                |
                    0 <= k < entries.len() && (#[trigger] entries[k]).0 == i by {
                    if i < last {
                        let k = choose|k: int|
                            0 <= k < before.len() && (#[trigger] before[k]).0 == i;
                        assert(entries[k].0 == i);
                    } else {
                        assert(entries[entries.len() - 1].0 == i);
                    }
                }
            },
            None => {
                assert(entries =~= before);
                assert(!is_colored_place(ids, colors, last));
            },
        }
    } else {
        assert(entries.len() == 0);
    }
}

proof fn written_entries_stand_in_place(bytes: Seq<u8>, entries: Seq<(u32, Color)>)
    requires
        0 < entries.len() <= u32::MAX,
        bytes == crate::trailer::trailer_bytes(entries),
    ensures
        is_trailer(bytes),
        bytes.len() == 8 + 16 * entries.len(),
        number(bytes, 4) == entries.len(),
        forall|k: int|
            0 <= k < entries.len() ==> #[trigger] index_of(bytes, k) == entries[k].0 && is_entry(
                bytes,
                k,
                entries[k].0 as int,
                entries[k].1,
            ),
{
    crate::trailer::trailers_are_read_back(entries, seq![]);
    assert(bytes + seq![] =~= bytes);
    trailers_are_trailers(bytes);
    numbers_fit(bytes, 4);
    let held = crate::trailer::held_entries(bytes);
    assert(held.len() == entries.len());
    crate::trailer::entries_stand_in_place(entries, 0);
    assert forall|k: int| 0 <= k < entries.len() implies #[trigger] index_of(bytes, k)
        == entries[k].0 && is_entry(bytes, k, entries[k].0 as int, entries[k].1) by {
        numbers_fit(bytes, 8 + 16 * k);
        numbers_fit(bytes, 12 + 16 * k);
        numbers_fit(bytes, 16 + 16 * k);
        numbers_fit(bytes, 20 + 16 * k);
        assert(held[k] == crate::trailer::entry_at(bytes, 8 + 16 * k));
    }
}

/// The bytes are the trailer of the colours: one entry for each coloured identity, at its
/// last place, in the order of the places, and nothing else. Without a coloured identity
/// there are no bytes.
pub open spec fn lists_places(bytes: Seq<u8>, ids: Seq<u64>, colors: Map<u64, Color>) -> bool {
    &&& bytes.len() == 0 ==> forall|i: int| !#[trigger] is_colored_place(ids, colors, i)
    &&& bytes.len() > 0 ==> {
        &&& is_trailer(bytes)
        &&& bytes.len() == 8 + 16 * number(bytes, 4)
        &&& number(bytes, 4) > 0
        &&& forall|k: int|
            0 <= k < number(bytes, 4) ==> {
                let place = #[trigger] index_of(bytes, k);
                &&& is_colored_place(ids, colors, place)
                &&& is_entry(bytes, k, place, colors[ids[place]])
            }
        &&& forall|k: int, l: int|
            0 <= k < l < number(bytes, 4) ==> #[trigger] index_of(bytes, k) < #[trigger] index_of(
                bytes,
                l,
            )
        &&& forall|i: int| #[trigger]
            is_colored_place(ids, colors, i) ==> exists|k: int|
                0 <= k < number(bytes, 4) && #[trigger] index_of(bytes, k) == i
    }
}

pub(crate) proof fn written_trailers_list_places(ids: Seq<u64>, colors: Map<u64, Color>)
    requires
        ids.len() <= u32::MAX,
    ensures
        lists_places(
            crate::trailer::trailer_bytes(crate::trailer::entries_of(ids, colors)),
            ids,
            colors,
        ),
{
    let entries = crate::trailer::entries_of(ids, colors);
    let bytes = crate::trailer::trailer_bytes(entries);
    entries_are_colored_places(ids, colors, ids.len());
    crate::trailer::few_entries(ids, colors, ids.len());
    if entries.len() > 0 {
        written_entries_stand_in_place(bytes, entries);
        assert forall|k: int| 0 <= k < number(bytes, 4) implies {
            let place = #[trigger] index_of(bytes, k);
            &&& is_colored_place(ids, colors, place)
            &&& is_entry(bytes, k, place, colors[ids[place]])
        } by {
            assert(index_of(bytes, k) == entries[k].0);
        }
        assert forall|k: int, l: int| 0 <= k < l < number(bytes, 4) implies #[trigger] index_of(
            bytes,
            k,
        ) < #[trigger] index_of(bytes, l) by {
            assert(entries[k].0 < entries[l].0);
        }
        assert forall|i: int| #[trigger] is_colored_place(ids, colors, i) implies exists|k: int|
            0 <= k < number(bytes, 4) && #[trigger] index_of(bytes, k) == i by {
            let k = choose|k: int| 0 <= k < entries.len() && (#[trigger] entries[k]).0 == i;
            assert(index_of(bytes, k) == i);
        }
    } else {
        assert forall|i: int| !#[trigger] is_colored_place(ids, colors, i) by {
            if is_colored_place(ids, colors, i) {
                let k = choose|k: int| 0 <= k < entries.len() && (#[trigger] entries[k]).0 == i;
            }
        }
    }
}

/// A trailer is written with one entry for each coloured identity, at its last place, in the
/// order of the places, and with nothing else. Without a coloured identity nothing is
/// written.
pub proof fn trailers_list_every_colored_place(
    ids: &[u64],
    colors: HashMap<u64, Color>,
    bytes: Vec<u8>,
)
    requires
        call_ensures(crate::trailer::write_color_trailer, (ids, &colors), bytes),
        ids@.len() <= u32::MAX,
    ensures
        lists_places(bytes@, ids@, colors@),
{
    written_trailers_list_places(ids@, colors@);
}

/// The colours are the indexed ones at their places: every identity at a coloured place is
/// coloured, each by one of its places, and no others are.
pub open spec fn are_placed(
    colors: Map<u64, Color>,
    indexed: Map<u32, Color>,
    ids: Seq<u64>,
) -> bool {
    &&& forall|i: u32|
        i < ids.len() && #[trigger] indexed.contains_key(i) ==> colors.contains_key(ids[i as int])
    &&& forall|id: u64| #[trigger]
        colors.contains_key(id) ==> exists|i: u32|
            i < ids.len() && ids[i as int] == id && #[trigger] indexed.contains_key(i)
                && indexed[i] == colors[id]
}

/// Indexed colours go to the identities at their places, and to no others.
pub proof fn indexed_colors_go_to_their_places(
    indexed: HashMap<u32, Color>,
    ids: &[u64],
    colors: HashMap<u64, Color>,
)
    requires
        call_ensures(crate::trailer::place_colors, (&indexed, ids), colors),
    ensures
        are_placed(colors@, indexed@, ids@),
{
}

/// What is written is read back. A shape is written with its colours, and its bytes are read
/// for a shape whose identities stand at the same places and are shared alike. Then the
/// identity at each place has the colour that the one written there had, or none if that had
/// none.
pub proof fn colors_survive_the_archive(
    ids: &[u64],
    colors: HashMap<u64, Color>,
    bytes: Vec<u8>,
    tail: &[u8],
    indexed: HashMap<u32, Color>,
    new_ids: &[u64],
    read: HashMap<u64, Color>,
    i: int,
)
    requires
        call_ensures(crate::trailer::write_color_trailer, (ids, &colors), bytes),
        tail@ == bytes@,
        call_ensures(crate::trailer::read_color_trailer, (tail,), indexed),
        call_ensures(crate::trailer::place_colors, (&indexed, new_ids), read),
        ids@.len() <= u32::MAX,
        new_ids@.len() == ids@.len(),
        forall|j: int, k: int|
            0 <= j < ids@.len() && 0 <= k < ids@.len() ==> (#[trigger] ids@[j]
                == #[trigger] ids@[k] <==> new_ids@[j] == new_ids@[k]),
        0 <= i < ids@.len(),
    ensures
        colors@.contains_key(ids@[i]) ==> read@.contains_key(new_ids@[i]) && read@[new_ids@[i]]
            == colors@[ids@[i]],
        !colors@.contains_key(ids@[i]) ==> !read@.contains_key(new_ids@[i]),
{
    crate::trailer::archived_colors_are_read_back(ids@, colors@, new_ids@, read@, i);
}

/// A trailer counts the solids first, and then the faces.
pub proof fn solids_are_counted_before_faces(solids: &[u64], faces: &[u64], ids: Vec<u64>, i: int)
    requires
        call_ensures(crate::trailer::trailer_ids, (solids, faces), ids),
    ensures
        ids@.len() == solids@.len() + faces@.len(),
        0 <= i < solids@.len() ==> ids@[i] == solids@[i],
        0 <= i < faces@.len() ==> ids@[solids@.len() + i] == faces@[i],
{
}

} // verus!
