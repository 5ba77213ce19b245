//! The colour trailer that follows the payload of a B-rep archive.
//!
//! The payload's own reader stops at its end and ignores what follows:
//! `[b"CDCL"][u32 count][count x (u32 index, r, g, b)]`, all numbers little-endian. An index
//! counts the solids of the archive, then its faces.

use crate::color::color_of;
use crate::color::Color;
use std::collections::HashMap;
use vstd::prelude::*;

verus! {

/// The bytes that open a trailer.
pub open spec fn magic() -> Seq<u8> {
    seq![67u8, 68u8, 67u8, 76u8]
}

/// The number whose little-endian bytes stand at `at`.
pub open spec fn number_at(bytes: Seq<u8>, at: int) -> int {
    bytes[at] + 256 * bytes[at + 1] + 65536 * bytes[at + 2] + 16777216 * bytes[at + 3]
}

/// The little-endian bytes of `number`.
pub open spec fn number_bytes(number: u32) -> Seq<u8> {
    seq![
        (number % 256) as u8,
        (number / 256 % 256) as u8,
        (number / 65536 % 256) as u8,
        (number / 16777216) as u8,
    ]
}

/// A colour at an index of the archive.
pub type Entry = (u32, Color);

/// The entry whose bytes stand at `at`.
pub open spec fn entry_at(bytes: Seq<u8>, at: int) -> Entry {
    (
        number_at(bytes, at) as u32,
        Color {
            r: number_at(bytes, at + 4) as u32,
            g: number_at(bytes, at + 8) as u32,
            b: number_at(bytes, at + 12) as u32,
        },
    )
}

/// The bytes of an entry.
pub open spec fn entry_bytes(entry: Entry) -> Seq<u8> {
    number_bytes(entry.0) + number_bytes(entry.1.r) + number_bytes(entry.1.g) + number_bytes(
        entry.1.b,
    )
}

/// The bytes of entries, one after the other.
pub open spec fn entries_bytes(entries: Seq<Entry>) -> Seq<u8>
    decreases entries.len(),
{
    if entries.len() == 0 {
        seq![]
    } else {
        entries_bytes(entries.drop_last()) + entry_bytes(entries.last())
    }
}

/// The trailer of some entries; there is none without an entry.
pub open spec fn trailer_bytes(entries: Seq<Entry>) -> Seq<u8> {
    if entries.len() == 0 {
        seq![]
    } else {
        magic() + number_bytes(entries.len() as u32) + entries_bytes(entries)
    }
}

/// The bytes begin with a whole trailer. The count delimits it: what follows it is no
/// concern.
pub open spec fn holds_trailer(tail: Seq<u8>) -> bool {
    &&& tail.len() >= 8
    &&& tail.take(4) == magic()
    &&& tail.len() >= 8 + 16 * number_at(tail, 4)
}

/// The entries that bytes hold; none if they do not begin with a trailer.
pub open spec fn held_entries(tail: Seq<u8>) -> Seq<Entry> {
    if holds_trailer(tail) {
        Seq::new(number_at(tail, 4) as nat, |i: int| entry_at(tail, 8 + 16 * i))
    } else {
        seq![]
    }
}

/// The colours of entries by index, the last one winning where an index occurs twice.
pub open spec fn indexed_colors(entries: Seq<Entry>) -> Map<u32, Color>
    decreases entries.len(),
{
    if entries.len() == 0 {
        Map::empty()
    } else {
        indexed_colors(entries.drop_last()).insert(entries.last().0, entries.last().1)
    }
}

fn read_number(bytes: &[u8], at: usize) -> (number: u32)
    requires
        at + 4 <= bytes@.len(),
    ensures
        number == number_at(bytes@, at as int),
{
    bytes[at] as u32 + 256 * (bytes[at + 1] as u32) + 65536 * (bytes[at + 2] as u32) + 16777216 * (
    bytes[at + 3] as u32)
}

/// Read the colours that follow a payload: `tail` is what the payload's reader did not take.
/// Anything that is no trailer yields no colours; the geometry is valid either way.
pub fn read_color_trailer(tail: &[u8]) -> (colors: HashMap<u32, Color>)
    ensures
        colors@ == indexed_colors(held_entries(tail@)),
{
    broadcast use vstd::std_specs::hash::group_hash_axioms;

    let mut colors: HashMap<u32, Color> = HashMap::new();
    if tail.len() < 8 {
        return colors;
    }
    if tail[0] != 67 || tail[1] != 68 || tail[2] != 67 || tail[3] != 76 {
        proof {
            if tail@.take(4) == magic() {
                assert(tail@.take(4)[0] == 67 && tail@.take(4)[1] == 68 && tail@.take(4)[2] == 67
                    && tail@.take(4)[3] == 76);
            }
        }
        return colors;
    }
    assert(tail@.take(4) =~= magic());
    let count: u32 = read_number(tail, 4);
    // The count comes from the file, and 16 * count need not fit a machine word.
    if (tail.len() - 8) / 16 < count as usize {
        return colors;
    }
    let ghost entries = held_entries(tail@);
    assert(entries.take(0) =~= seq![]);
    let mut next: u32 = 0;
    while next < count
        invariant
            next <= count == number_at(tail@, 4),
            tail.len() >= 8 + 16 * count,
            entries == held_entries(tail@),
            entries.len() == count,
            holds_trailer(tail@),
            colors@ == indexed_colors(entries.take(next as int)),
        decreases count - next,
    {
        let at: usize = 8 + 16 * (next as usize);
        let index: u32 = read_number(tail, at);
        let color = Color {
            r: read_number(tail, at + 4),
            g: read_number(tail, at + 8),
            b: read_number(tail, at + 12),
        };
        proof {
            assert(entries[next as int] == (index, color));
            assert(entries.take(next + 1).drop_last() =~= entries.take(next as int));
        }
        colors.insert(index, color);
        next += 1;
    }
    assert(entries.take(next as int) =~= entries);
    colors
}

/// The identities that a trailer counts: the solids of a shape, then its faces.
pub fn trailer_ids(solids: &[u64], faces: &[u64]) -> (ids: Vec<u64>)
    ensures
        ids@ == solids@ + faces@,
{
    let mut ids: Vec<u64> = Vec::new();
    let mut next: usize = 0;
    while next < solids.len()
        invariant
            next <= solids@.len(),
            ids@ == solids@.take(next as int),
        decreases solids@.len() - next,
    {
        ids.push(solids[next]);
        next += 1;
    }
    assert(solids@.take(next as int) =~= solids@);
    let mut place: usize = 0;
    while place < faces.len()
        invariant
            place <= faces@.len(),
            ids@ == solids@ + faces@.take(place as int),
        decreases faces@.len() - place,
    {
        ids.push(faces[place]);
        place += 1;
    }
    assert(faces@.take(place as int) =~= faces@);
    ids
}

/// The identity at place `i` stands at no later place.
pub open spec fn stands_last(ids: Seq<u64>, i: int) -> bool {
    forall|j: int| i < j < ids.len() ==> ids[j] != ids[i]
}

/// The entry of place `i`: its colour, if it has one and the identity stands at no later
/// place.
pub open spec fn entry_of(ids: Seq<u64>, colors: Map<u64, Color>, i: int) -> Option<Entry> {
    if colors.contains_key(ids[i]) && stands_last(ids, i) {
        Some((i as u32, colors[ids[i]]))
    } else {
        None
    }
}

/// The first `count` places.
pub open spec fn places(count: nat) -> Seq<int> {
    Seq::new(count, |i: int| i)
}

/// The entries of a shape with the given identities: its coloured identities in the order of
/// their places. Colours of other shapes have no place and drop out.
pub open spec fn entries_of(ids: Seq<u64>, colors: Map<u64, Color>) -> Seq<Entry> {
    places(ids.len()).filter_map(|i: int| entry_of(ids, colors, i))
}

fn push_number(bytes: &mut Vec<u8>, number: u32)
    ensures
        final(bytes)@ == old(bytes)@ + number_bytes(number),
{
    bytes.push((number % 256) as u8);
    bytes.push((number / 256 % 256) as u8);
    bytes.push((number / 65536 % 256) as u8);
    bytes.push((number / 16777216) as u8);
    assert(bytes@ =~= old(bytes)@ + number_bytes(number));
}

/// The last place of every identity.
fn last_places(ids: &[u64]) -> (last: HashMap<u64, u32>)
    requires
        ids@.len() <= u32::MAX,
    ensures
        forall|i: int|
            0 <= i < ids@.len() ==> last@.contains_key(#[trigger] ids@[i]) && (last@[ids@[i]] == i
                <==> stands_last(ids@, i)),
{
    broadcast use vstd::std_specs::hash::group_hash_axioms;

    let mut last: HashMap<u64, u32> = HashMap::new();
    let mut next: usize = 0;
    while next < ids.len()
        invariant
            next <= ids@.len() <= u32::MAX,
            forall|i: int|
                0 <= i < next ==> {
                    &&& last@.contains_key(#[trigger] ids@[i])
                    &&& i <= last@[ids@[i]] < next
                    &&& ids@[last@[ids@[i]] as int] == ids@[i]
                    &&& forall|j: int| last@[ids@[i]] < j < next ==> ids@[j] != ids@[i]
                },
        decreases ids@.len() - next,
    {
        last.insert(ids[next], next as u32);
        next += 1;
    }
    proof {
        assert forall|i: int| 0 <= i < ids@.len() implies last@.contains_key(#[trigger] ids@[i])
            && (last@[ids@[i]] == i <==> stands_last(ids@, i)) by {
            let at = last@[ids@[i]];
            if at != i {
                assert(ids@[at as int] == ids@[i]);
            }
        }
    }
    last
}

/// The coloured identities of a shape, in the order of their places.
fn collect_entries(ids: &[u64], colors: &HashMap<u64, Color>) -> (entries: Vec<Entry>)
    requires
        ids@.len() <= u32::MAX,
    ensures
        entries@ == entries_of(ids@, colors@),
        entries@.len() <= ids@.len(),
{
    broadcast use vstd::std_specs::hash::group_hash_axioms;

    let last = last_places(ids);
    let ghost all = places(ids@.len());
    let ghost entry = |i: int| entry_of(ids@, colors@, i);
    let mut entries: Vec<Entry> = Vec::new();
    let mut next: usize = 0;
    while next < ids.len()
        invariant
            next <= ids@.len() <= u32::MAX,
            forall|i: int|
                0 <= i < ids@.len() ==> last@.contains_key(#[trigger] ids@[i]) && (
                last@[ids@[i]] == i <==> stands_last(ids@, i)),
            all == places(ids@.len()),
            entry == (|i: int| entry_of(ids@, colors@, i)),
            entries@ == all.take(next as int).filter_map(entry),
            entries@.len() <= next,
        decreases ids@.len() - next,
    {
        proof {
            all.lemma_filter_map_take_succ(entry, next as int);
        }
        let id: u64 = ids[next];
        let is_last: bool = match last.get(&id) {
            Some(place) => *place as usize == next,
            None => false,
        };
        if is_last {
            if let Some(color) = color_of(colors, id) {
                entries.push((next as u32, color));
            }
        }
        next += 1;
    }
    assert(all.take(next as int) =~= all);
    entries
}

/// Write the colours of a shape as a trailer; `ids` are the identities that a trailer counts.
/// Every place must fit the 32 bits of an index.
pub fn write_color_trailer(ids: &[u64], colors: &HashMap<u64, Color>) -> (bytes: Vec<u8>)
    requires
        ids@.len() <= u32::MAX,
    ensures
        bytes@ == trailer_bytes(entries_of(ids@, colors@)),
{
    let entries = collect_entries(ids, colors);
    let mut bytes: Vec<u8> = Vec::new();
    if entries.len() == 0 {
        return bytes;
    }
    bytes.push(67);
    bytes.push(68);
    bytes.push(67);
    bytes.push(76);
    assert(bytes@ =~= magic());
    push_number(&mut bytes, entries.len() as u32);
    let ghost head = bytes@;
    let mut next: usize = 0;
    assert(entries@.take(0) =~= seq![]);
    assert(head + entries_bytes(entries@.take(0)) =~= head);
    while next < entries.len()
        invariant
            next <= entries@.len(),
            bytes@ == head + entries_bytes(entries@.take(next as int)),
        decreases entries@.len() - next,
    {
        let entry: Entry = entries[next];
        push_number(&mut bytes, entry.0);
        push_number(&mut bytes, entry.1.r);
        push_number(&mut bytes, entry.1.g);
        push_number(&mut bytes, entry.1.b);
        proof {
            let done = entries@.take(next as int);
            let more = entries@.take(next + 1);
            assert(more.drop_last() =~= done);
            assert(bytes@ =~= head + (entries_bytes(done) + entry_bytes(entry)));
        }
        next += 1;
    }
    assert(entries@.take(next as int) =~= entries@);
    bytes
}

/// The colours that indexed colours give to a shape with the given identities. Where an
/// identity stands at several coloured places, it has the colour of one of them.
pub open spec fn colors_at_places(
    colors: Map<u64, Color>,
    indexed: Map<u32, Color>,
    ids: Seq<u64>,
) -> bool {
    &&& forall|i: u32|
        i < ids.len() && #[trigger] indexed.contains_key(i) ==> colors.contains_key(ids[i as int])
    &&& forall|id: u64| #[trigger]
        colors.contains_key(id) ==> exists|i: u32|
            i < ids.len() && ids[i as int] == id && #[trigger] indexed.contains_key(i)
                && indexed[i] == colors[id]
}

/// Give indexed colours to a shape with the given identities. Indices beyond them drop out.
pub fn place_colors(indexed: &HashMap<u32, Color>, ids: &[u64]) -> (colors: HashMap<u64, Color>)
    ensures
        colors_at_places(colors@, indexed@, ids@),
{
    broadcast use vstd::std_specs::hash::group_hash_axioms;

    let mut colors: HashMap<u64, Color> = HashMap::new();
    let mut next: usize = 0;
    while next < ids.len() && next <= u32::MAX as usize
        invariant
            next <= ids@.len(),
            next <= u32::MAX + 1,
            forall|i: u32|
                i < next && #[trigger] indexed@.contains_key(i) ==> colors@.contains_key(
                    ids@[i as int],
                ),
            forall|id: u64| #[trigger]
                colors@.contains_key(id) ==> exists|i: u32|
                    i < next && ids@[i as int] == id && #[trigger] indexed@.contains_key(i)
                        && indexed@[i] == colors@[id],
        decreases ids@.len() - next,
    {
        let index: u32 = next as u32;
        let ghost before = colors@;
        if let Some(color) = indexed.get(&index) {
            colors.insert(ids[next], *color);
            proof {
                assert forall|id: u64| #[trigger] colors@.contains_key(id) implies exists|i: u32|
                    i < next + 1 && ids@[i as int] == id && #[trigger] indexed@.contains_key(i)
                        && indexed@[i] == colors@[id] by {
                    if id == ids@[next as int] {
                        assert(indexed@.contains_key(index));
                    } else {
                        assert(before.contains_key(id));
                        let i = choose|i: u32|
                            i < next && ids@[i as int] == id && #[trigger] indexed@.contains_key(i)
                                && indexed@[i] == before[id];
                        assert(indexed@.contains_key(i));
                    }
                }
            }
        }
        next += 1;
    }
    colors
}

// ==================== Reading what was written ====================

proof fn number_is_read_back(bytes: Seq<u8>, at: int, number: u32)
    requires
        0 <= at,
        at + 4 <= bytes.len(),
        bytes.subrange(at, at + 4) == number_bytes(number),
    ensures
        number_at(bytes, at) == number,
{
    let stored = bytes.subrange(at, at + 4);
    assert(stored[0] == bytes[at] && stored[1] == bytes[at + 1] && stored[2] == bytes[at + 2]
        && stored[3] == bytes[at + 3]);
}

proof fn entry_is_read_back(bytes: Seq<u8>, at: int, entry: Entry)
    requires
        0 <= at,
        at + 16 <= bytes.len(),
        bytes.subrange(at, at + 16) == entry_bytes(entry),
    ensures
        entry_at(bytes, at) == entry,
{
    let stored = bytes.subrange(at, at + 16);
    assert(bytes.subrange(at, at + 4) =~= stored.subrange(0, 4));
    assert(bytes.subrange(at + 4, at + 8) =~= stored.subrange(4, 8));
    assert(bytes.subrange(at + 8, at + 12) =~= stored.subrange(8, 12));
    assert(bytes.subrange(at + 12, at + 16) =~= stored.subrange(12, 16));
    assert(stored.subrange(0, 4) =~= number_bytes(entry.0));
    assert(stored.subrange(4, 8) =~= number_bytes(entry.1.r));
    assert(stored.subrange(8, 12) =~= number_bytes(entry.1.g));
    assert(stored.subrange(12, 16) =~= number_bytes(entry.1.b));
    number_is_read_back(bytes, at, entry.0);
    number_is_read_back(bytes, at + 4, entry.1.r);
    number_is_read_back(bytes, at + 8, entry.1.g);
    number_is_read_back(bytes, at + 12, entry.1.b);
}

pub(crate) proof fn entries_stand_in_place(entries: Seq<Entry>, i: int)
    ensures
        entries_bytes(entries).len() == 16 * entries.len(),
        0 <= i < entries.len() ==> entries_bytes(entries).subrange(16 * i, 16 * i + 16)
            == entry_bytes(entries[i]),
    decreases entries.len(),
{
    if entries.len() > 0 {
        let rest = entries.drop_last();
        entries_stand_in_place(rest, i);
        if 0 <= i < entries.len() - 1 {
            assert(entries_bytes(entries).subrange(16 * i, 16 * i + 16) =~= entries_bytes(
                rest,
            ).subrange(16 * i, 16 * i + 16));
        } else if i == entries.len() - 1 {
            assert(entries_bytes(entries).subrange(16 * i, 16 * i + 16) =~= entry_bytes(
                entries[i],
            ));
        }
    }
}

/// A trailer gives its entries back, whatever is appended to it.
pub proof fn trailers_are_read_back(entries: Seq<Entry>, appended: Seq<u8>)
    requires
        0 < entries.len() <= u32::MAX,
    ensures
        held_entries(trailer_bytes(entries) + appended) == entries,
{
    let count = entries.len() as u32;
    let head = magic() + number_bytes(count);
    let tail = trailer_bytes(entries) + appended;
    entries_stand_in_place(entries, 0);
    assert(tail.take(4) =~= magic());
    assert(tail.subrange(4, 8) =~= number_bytes(count));
    number_is_read_back(tail, 4, count);
    assert(holds_trailer(tail));
    let held = held_entries(tail);
    assert forall|i: int| 0 <= i < entries.len() implies held[i] == entries[i] by {
        entries_stand_in_place(entries, i);
        assert(tail.subrange(8 + 16 * i, 8 + 16 * i + 16) =~= entries_bytes(entries).subrange(
            16 * i,
            16 * i + 16,
        ));
        entry_is_read_back(tail, 8 + 16 * i, entries[i]);
    }
    assert(held =~= entries);
}

proof fn entries_by_index(ids: Seq<u64>, colors: Map<u64, Color>, count: nat)
    requires
        count <= ids.len() <= u32::MAX,
    ensures
        ({
            let indexed = indexed_colors(
                places(count).filter_map(|i: int| entry_of(ids, colors, i)),
            );
            &&& forall|i: u32| #[trigger]
                indexed.contains_key(i) <==> i < count && entry_of(ids, colors, i as int) is Some
            &&& forall|i: u32| #[trigger]
                indexed.contains_key(i) ==> indexed[i] == colors[ids[i as int]]
        }),
    decreases count,
{
    let entry = |i: int| entry_of(ids, colors, i);
    if count > 0 {
        let less = (count - 1) as nat;
        entries_by_index(ids, colors, less);
        assert(places(count).drop_last() =~= places(less));
        let all = places(count).filter_map(entry);
        let rest = places(less).filter_map(entry);
        let indexed = indexed_colors(all);
        let fewer = indexed_colors(rest);
        if entry(less as int) is Some {
            assert(all == rest + seq![entry(less as int).unwrap()]);
            assert(all.drop_last() =~= rest);
            assert(all.last() == (less as u32, colors[ids[less as int]]));
            assert(indexed == fewer.insert(less as u32, colors[ids[less as int]]));
        } else {
            assert(all == rest);
        }
        assert forall|i: u32| #[trigger] indexed.contains_key(i) <==> i < count && entry_of(
            ids,
            colors,
            i as int,
        ) is Some by {
            assert(fewer.contains_key(i) <==> i < less && entry_of(ids, colors, i as int) is Some);
        }
        assert forall|i: u32| #[trigger] indexed.contains_key(i) implies indexed[i]
            == colors[ids[i as int]] by {
            if i < less {
                assert(fewer.contains_key(i));
            }
        }
    } else {
        assert(places(0).filter_map(entry) =~= seq![]);
    }
}

pub(crate) proof fn few_entries(ids: Seq<u64>, colors: Map<u64, Color>, count: nat)
    ensures
        places(count).filter_map(|i: int| entry_of(ids, colors, i)).len() <= count,
    decreases count,
{
    if count > 0 {
        few_entries(ids, colors, (count - 1) as nat);
        assert(places(count).drop_last() =~= places((count - 1) as nat));
    }
}

/// Two shapes share alike: where one has an identity at two places, so has the other.
pub open spec fn shares_alike(ids: Seq<u64>, new_ids: Seq<u64>) -> bool {
    &&& ids.len() == new_ids.len()
    &&& forall|i: int, j: int|
        0 <= i < ids.len() && 0 <= j < ids.len() ==> (#[trigger] ids[i] == #[trigger] ids[j]
            <==> new_ids[i] == new_ids[j])
}

proof fn last_place(ids: Seq<u64>, i: int) -> (last: int)
    requires
        0 <= i < ids.len(),
    ensures
        i <= last < ids.len(),
        ids[last] == ids[i],
        stands_last(ids, last),
    decreases ids.len() - i,
{
    if stands_last(ids, i) {
        i
    } else {
        let j = choose|j: int| i < j < ids.len() && ids[j] == ids[i];
        last_place(ids, j)
    }
}

/// Colours survive an archive. A shape with the identities `ids` is written with its
/// colours; read back, it has new identities at the same places, shared alike. Then the
/// identity at a place is coloured exactly if the identity that was written there was, and
/// it has the same colour.
pub proof fn archived_colors_are_read_back(
    ids: Seq<u64>,
    colors: Map<u64, Color>,
    new_ids: Seq<u64>,
    read: Map<u64, Color>,
    i: int,
)
    requires
        ids.len() <= u32::MAX,
        shares_alike(ids, new_ids),
        colors_at_places(
            read,
            indexed_colors(held_entries(trailer_bytes(entries_of(ids, colors)))),
            new_ids,
        ),
        0 <= i < ids.len(),
    ensures
        read.contains_key(new_ids[i]) <==> colors.contains_key(ids[i]),
        read.contains_key(new_ids[i]) ==> read[new_ids[i]] == colors[ids[i]],
{
    let entries = entries_of(ids, colors);
    let held = held_entries(trailer_bytes(entries));
    few_entries(ids, colors, ids.len());
    if entries.len() > 0 {
        trailers_are_read_back(entries, seq![]);
        assert(trailer_bytes(entries) + seq![] =~= trailer_bytes(entries));
    } else {
        assert(held =~= entries);
    }
    let indexed = indexed_colors(held);
    entries_by_index(ids, colors, ids.len());
    if colors.contains_key(ids[i]) {
        let last = last_place(ids, i);
        let index = last as u32;
        assert(entry_of(ids, colors, index as int) is Some);
        assert(indexed.contains_key(index));
        assert(read.contains_key(new_ids[index as int]));
        assert(ids[last] == ids[i] <==> new_ids[last] == new_ids[i]);
    }
    if read.contains_key(new_ids[i]) {
        let k = choose|k: u32|
            k < new_ids.len() && new_ids[k as int] == new_ids[i] && #[trigger]
                indexed.contains_key(k) && indexed[k] == read[new_ids[i]];
        assert(ids[k as int] == ids[i] <==> new_ids[k as int] == new_ids[i]);
        assert(entry_of(ids, colors, k as int) is Some);
    }
}

/// Bytes that do not begin with a whole trailer color nothing.
pub proof fn other_bytes_hold_no_colors(tail: Seq<u8>)
    requires
        !holds_trailer(tail),
    ensures
        indexed_colors(held_entries(tail)) == Map::<u32, Color>::empty(),
{
}

} // verus!
