//! How labels and chunks are laid out in bytes.
use crate::storage::codec::{self, ChunkPartsView, LabelPartsView};
use crate::types::{self, BlockRefView, ChunkView, DatasetLabelView, TableId};
use vstd::prelude::*;

verus! {

/// A label is its kind, and then the height and the hash of its finalized head, if it
/// has one; and is made of these again.
pub proof fn law_the_parts_of_a_label(label: DatasetLabelView, parts: LabelPartsView)
    ensures
        codec::parts_of_label(label).0 == label.kind,
        codec::parts_of_label(label).1 is Some <==> label.finalized_head is Some,
        label.finalized_head matches Some(head) ==> codec::parts_of_label(label).1 == Some((head.number, head.hash)),
        codec::label_with(codec::parts_of_label(label)) == label,
        codec::label_with(parts).kind == parts.0,
        codec::label_with(parts).finalized_head is Some <==> parts.1 is Some,
        parts.1 matches Some(head) ==> codec::label_with(parts).finalized_head == Some(
            BlockRefView { number: head.0, hash: head.1 },
        ),
{
}

/// A chunk is its first and its last height, the hash of its last block, that of its
/// parent, the time of its last block, and the names and ids of its tables in their
/// order.
pub proof fn law_the_parts_of_a_chunk(chunk: ChunkView, i: int)
    ensures
        codec::parts_of_chunk(chunk).0 == chunk.first_block,
        codec::parts_of_chunk(chunk).1 == chunk.last_block,
        codec::parts_of_chunk(chunk).2 == chunk.last_block_hash,
        codec::parts_of_chunk(chunk).3 == chunk.parent_block_hash,
        codec::parts_of_chunk(chunk).4 == chunk.last_block_time,
        codec::parts_of_chunk(chunk).5.len() == chunk.tables.len(),
        0 <= i < chunk.tables.len() ==> codec::parts_of_chunk(chunk).5[i] == (
            chunk.tables[i].0,
            chunk.tables[i].1.0,
        ),
{
}

/// A chunk made of parts has them in the same order; of its tables, no two have the
/// same name, and each name that was given stands for the id that it was given last.
pub proof fn law_a_chunk_made_of_parts(parts: ChunkPartsView, i: int)
    requires
        0 <= i < parts.5.len(),
        forall|j: int| i < j < parts.5.len() ==> (#[trigger] parts.5[j]).0 != parts.5[i].0,
    ensures
        codec::chunk_with(parts).first_block == parts.0,
        codec::chunk_with(parts).last_block == parts.1,
        codec::chunk_with(parts).last_block_hash == parts.2,
        codec::chunk_with(parts).parent_block_hash == parts.3,
        codec::chunk_with(parts).last_block_time == parts.4,
        codec::chunk_with(parts).tables.contains((parts.5[i].0, TableId(parts.5[i].1))),
        forall|j: int, k: int|
            0 <= j < k < codec::chunk_with(parts).tables.len() ==> (#[trigger] codec::chunk_with(parts).tables[j]).0 != (
            #[trigger] codec::chunk_with(parts).tables[k]).0,
{
    lemma_put_distinct(parts.5);
    lemma_put_last(parts.5, i);
}

/// A chunk is made of its own parts again, where no two of its tables have the same
/// name.
pub proof fn law_a_chunk_is_made_of_its_parts(chunk: ChunkView)
    requires
        forall|j: int, k: int|
            0 <= j < k < chunk.tables.len() ==> (#[trigger] chunk.tables[j]).0 != (#[trigger] chunk.tables[k]).0,
    ensures
        codec::chunk_with(codec::parts_of_chunk(chunk)) == chunk,
{
    lemma_put_as_given(chunk.tables);
}

proof fn lemma_put_as_given(tables: Seq<(Seq<char>, TableId)>)
    requires
        forall|j: int, k: int| 0 <= j < k < tables.len() ==> (#[trigger] tables[j]).0 != (#[trigger] tables[k]).0,
    ensures
        codec::tables_put(tables.map_values(|t: (Seq<char>, TableId)| (t.0, t.1.0))) == tables,
    decreases tables.len(),
{
    let pairs = tables.map_values(|t: (Seq<char>, TableId)| (t.0, t.1.0));
    if tables.len() == 0 {
        assert(tables =~= Seq::empty());
    } else {
        let init = tables.drop_last();
        let n = tables.len() - 1;
        assert forall|j: int, k: int| 0 <= j < k < init.len() implies (#[trigger] init[j]).0 != (#[trigger] init[k]).0 by {
            assert(tables[j].0 != tables[k].0);
        }
        lemma_put_as_given(init);
        assert(pairs.drop_last() =~= init.map_values(|t: (Seq<char>, TableId)| (t.0, t.1.0)));
        assert forall|j: int| 0 <= j < init.len() implies (#[trigger] init[j]).0 != tables[n].0 by {
            assert(tables[j].0 != tables[n].0);
        }
        assert(init.push((tables[n].0, TableId(tables[n].1.0))) =~= tables);
    }
}

proof fn lemma_put_distinct(pairs: Seq<(Seq<char>, u128)>)
    ensures
        forall|j: int, k: int|
            0 <= j < k < codec::tables_put(pairs).len() ==> (#[trigger] codec::tables_put(pairs)[j]).0 != (
            #[trigger] codec::tables_put(pairs)[k]).0,
    decreases pairs.len(),
{
    if pairs.len() > 0 {
        let before = codec::tables_put(pairs.drop_last());
        let next = codec::tables_put(pairs);
        let name = pairs.last().0;
        lemma_put_distinct(pairs.drop_last());
        assert forall|j: int, k: int| 0 <= j < k < next.len() implies (#[trigger] next[j]).0 != (#[trigger] next[k]).0 by {
            if types::table_named(before, name) is Some || k < before.len() {
                assert(next[j].0 == before[j].0 && next[k].0 == before[k].0);
                assert(before[j].0 != before[k].0);
            } else {
                assert(before[j].0 != name);
            }
        }
    }
}

proof fn lemma_put_last(pairs: Seq<(Seq<char>, u128)>, i: int)
    requires
        0 <= i < pairs.len(),
        forall|j: int| i < j < pairs.len() ==> (#[trigger] pairs[j]).0 != pairs[i].0,
    ensures
        codec::tables_put(pairs).contains((pairs[i].0, TableId(pairs[i].1))),
    decreases pairs.len(),
{
    let n = pairs.len() - 1;
    let init = pairs.drop_last();
    let before = codec::tables_put(init);
    let next = codec::tables_put(pairs);
    let name = pairs[n].0;
    let id = TableId(pairs[n].1);
    if i == n {
        if types::table_named(before, name) is Some {
            let k = choose|k: int| 0 <= k < before.len() && (#[trigger] before[k]).0 == name;
            assert(next[k] == (name, id));
        } else {
            assert(next[before.len() as int] == (name, id));
        }
    } else {
        assert(init[i] == pairs[i]);
        assert(pairs[n].0 != pairs[i].0);
        assert forall|j: int| i < j < init.len() implies (#[trigger] init[j]).0 != init[i].0 by {
            assert(init[j] == pairs[j]);
        }
        lemma_put_last(init, i);
        let entry = (pairs[i].0, TableId(pairs[i].1));
        let k = choose|k: int| 0 <= k < before.len() && before[k] == entry;
        assert(next[k] == entry);
    }
}

/// A text is laid out as the number of its bytes, in four bytes with the lowest first,
/// and then its bytes.
pub proof fn law_the_layout_of_a_text(text: Seq<char>)
    requires
        vstd::utf8::encode_utf8(text).len() <= u32::MAX,
    ensures
        codec::text_fits(text),
        codec::text_bytes(text).len() == 4 + vstd::utf8::encode_utf8(text).len(),
        codec::text_bytes(text).take(4) == vstd::bytes::spec_u32_to_le_bytes(
            vstd::utf8::encode_utf8(text).len() as u32,
        ),
        codec::text_bytes(text).skip(4) == vstd::utf8::encode_utf8(text),
{
    vstd::bytes::lemma_auto_spec_u32_to_from_le_bytes();
    let n = vstd::bytes::spec_u32_to_le_bytes(vstd::utf8::encode_utf8(text).len() as u32);
    assert(n.len() == 4);
    assert(codec::text_bytes(text).take(4) =~= n);
    assert(codec::text_bytes(text).skip(4) =~= vstd::utf8::encode_utf8(text));
}

} // verus!
