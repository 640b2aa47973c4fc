//! What lists of blocks, chunks and tables hold.
use crate::types::{self, BlockRef, BlockRefView, Chunk, DatasetLabel, TableId};
use vstd::prelude::*;

verus! {

/// What lists of blocks and chunks say, one by one.
pub proof fn law_blocks_and_chunks_are_told_one_by_one(blocks: Seq<BlockRef>, chunks: Seq<Chunk>, i: int)
    ensures
        types::block_refs(blocks).len() == blocks.len(),
        0 <= i < blocks.len() ==> types::block_refs(blocks)[i] == (BlockRefView {
            number: blocks[i].number,
            hash: blocks[i].hash@,
        }),
        types::chunk_views(chunks).len() == chunks.len(),
        0 <= i < chunks.len() ==> types::chunk_views(chunks)[i] == chunks[i]@,
{
}

/// What an optional block or text says: nothing exactly if there is none.
pub proof fn law_what_is_there_is_told(head: Option<BlockRef>, text: Option<String>, label: DatasetLabel)
    ensures
        types::block_ref_view(head) is Some <==> head is Some,
        head matches Some(block) ==> types::block_ref_view(head) == Some(
            BlockRefView { number: block.number, hash: block.hash@ },
        ),
        types::text_view(text) is Some <==> text is Some,
        text matches Some(t) ==> types::text_view(text) == Some(t@),
        label@.kind == label.kind@,
        label@.finalized_head is Some <==> label.finalized_head is Some,
        label.finalized_head matches Some(block) ==> label@.finalized_head == Some(
            BlockRefView { number: block.number, hash: block.hash@ },
        ),
{
}

/// A table is found under a name exactly if one has it; then, as names are distinct,
/// it is that one.
pub proof fn law_a_table_is_found_by_its_name(tables: Seq<(Seq<char>, TableId)>, name: Seq<char>, id: TableId)
    requires
        forall|j: int, k: int| 0 <= j < k < tables.len() ==> (#[trigger] tables[j]).0 != (#[trigger] tables[k]).0,
    ensures
        types::table_named(tables, name) == Some(id) <==> tables.contains((name, id)),
        types::table_named(tables, name) is None <==> forall|i: int|
            0 <= i < tables.len() ==> (#[trigger] tables[i]).0 != name,
        types::names_distinct(tables),
{
    if types::table_named(tables, name) is Some {
        let k = choose|i: int| 0 <= i < tables.len() && (#[trigger] tables[i]).0 == name;
        assert(tables[k] == (name, tables[k].1));
        if tables.contains((name, id)) {
            let i = choose|i: int| 0 <= i < tables.len() && tables[i] == (name, id);
            assert(i == k) by {
                if i < k {
                    assert(tables[i].0 != tables[k].0);
                } else if k < i {
                    assert(tables[k].0 != tables[i].0);
                }
            }
        }
    }
    if tables.contains((name, id)) {
        let i = choose|i: int| 0 <= i < tables.len() && tables[i] == (name, id);
        assert(tables[i].0 == name);
    }
}

/// Putting a table under a name takes the place of the one that had it, and comes last
/// if none had; every other table stays where it is, and what is found under the name
/// is the new one.
pub proof fn law_a_table_is_put_in_place(tables: Seq<(Seq<char>, TableId)>, name: Seq<char>, id: TableId, i: int)
    requires
        forall|j: int, k: int| 0 <= j < k < tables.len() ==> (#[trigger] tables[j]).0 != (#[trigger] tables[k]).0,
        0 <= i <= tables.len(),
        i < tables.len() ==> tables[i].0 == name,
        i == tables.len() ==> forall|j: int| 0 <= j < tables.len() ==> (#[trigger] tables[j]).0 != name,
    ensures
        ({
            let next = types::table_put(tables, name, id);
            &&& next.len() == if i < tables.len() {
                tables.len()
            } else {
                tables.len() + 1
            }
            &&& next[i] == (name, id)
            &&& forall|j: int| 0 <= j < tables.len() && j != i ==> #[trigger] next[j] == tables[j]
            &&& types::table_named(next, name) == Some(id)
        }),
{
    let next = types::table_put(tables, name, id);
    assert(next[i] == (name, id));
    assert forall|j: int| 0 <= j < tables.len() && j != i implies #[trigger] next[j] == tables[j] by {
        if j < i {
            if i < tables.len() {
                assert(tables[j].0 != tables[i].0);
            }
        } else {
            assert(tables[i].0 != tables[j].0);
        }
    }
    assert forall|j: int, k: int| 0 <= j < k < next.len() implies (#[trigger] next[j]).0 != (#[trigger] next[k]).0 by {
        if j != i && k != i {
            assert(tables[j].0 != tables[k].0);
        } else if j == i {
            assert(tables[j].0 != tables[k].0);
        } else if i < tables.len() {
            assert(tables[j].0 != tables[k].0);
        } else {
            assert(tables[j].0 != name);
        }
    }
    assert(next.contains((name, id)));
    law_a_table_is_found_by_its_name(next, name, id);
}

} // verus!
