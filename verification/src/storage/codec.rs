//! Labels and chunks as bytes.
//!
//! The bytes are those of `borsh`: the fields one after the other, numbers with the
//! lowest byte first, and lists and texts behind their lengths.
use crate::types::{self, BlockRef, Chunk, ChunkView, DatasetKind, DatasetLabel, DatasetLabelView, TableId};
use vstd::prelude::*;

verus! {

/// An error of `borsh`, which it takes from the standard library.
#[verifier::external_type_specification]
#[verifier::external_body]
pub struct ExIoError(std::io::Error);

/// A kind, and the height and hash of a finalized head.
pub type LabelParts = (String, Option<(u64, String)>);

/// What [`LabelParts`] say.
pub type LabelPartsView = (Seq<char>, Option<(u64, Seq<char>)>);

/// First and last height, hash of the last block and of the parent, time of the last
/// block, names and ids of the tables.
pub type ChunkParts = (u64, u64, String, String, Option<i64>, Vec<(String, u128)>);

/// What [`ChunkParts`] say.
pub type ChunkPartsView = (u64, u64, Seq<char>, Seq<char>, Option<i64>, Seq<(Seq<char>, u128)>);

/// What the parts of a label say.
pub open spec fn label_parts(parts: LabelParts) -> LabelPartsView {
    (
        parts.0@,
        match parts.1 {
            Some(head) => Some((head.0, head.1@)),
            None => None,
        },
    )
}

/// What the parts of a chunk say.
pub open spec fn chunk_parts(parts: ChunkParts) -> ChunkPartsView {
    (
        parts.0,
        parts.1,
        parts.2@,
        parts.3@,
        parts.4,
        parts.5@.map_values(|t: (String, u128)| (t.0@, t.1)),
    )
}

/// A text as bytes: how many bytes of UTF-8 it has, in 32 bits with the lowest byte
/// first, and then those.
pub open spec fn text_bytes(text: Seq<char>) -> Seq<u8> {
    vstd::bytes::spec_u32_to_le_bytes(vstd::utf8::encode_utf8(text).len() as u32) + vstd::utf8::encode_utf8(text)
}

/// Whether the bytes of a text can be counted in 32 bits.
pub open spec fn text_fits(text: Seq<char>) -> bool {
    vstd::utf8::encode_utf8(text).len() <= u32::MAX
}

/// The parts of a label as bytes, one after the other. In front of a head stands a
/// one, and a zero where there is none.
pub open spec fn label_bytes(parts: LabelPartsView) -> Seq<u8> {
    text_bytes(parts.0) + match parts.1 {
        Some(head) => seq![1u8] + (vstd::bytes::spec_u64_to_le_bytes(head.0) + text_bytes(head.1)),
        None => seq![0u8],
    }
}

/// Whether no text in the parts of a label is too long.
pub open spec fn label_fits(parts: LabelPartsView) -> bool {
    text_fits(parts.0) && (parts.1 matches Some(head) ==> text_fits(head.1))
}

/// Names and ids of tables as bytes, one after the other.
pub open spec fn table_bytes(tables: Seq<(Seq<char>, u128)>) -> Seq<u8>
    decreases tables.len(),
{
    if tables.len() == 0 {
        Seq::empty()
    } else {
        text_bytes(tables[0].0) + (vstd::bytes::spec_u128_to_le_bytes(tables[0].1) + table_bytes(tables.skip(1)))
    }
}

/// The time of a block as bytes, those of the same bits without a sign. In front of
/// it stands a one, and a zero where there is none.
pub open spec fn time_bytes(time: Option<i64>) -> Seq<u8> {
    match time {
        Some(t) => seq![1u8] + vstd::bytes::spec_u64_to_le_bytes(t as u64),
        None => seq![0u8],
    }
}

/// The parts of a chunk as bytes, one after the other. In front of the tables stands
/// how many they are, in 32 bits.
pub open spec fn chunk_bytes(parts: ChunkPartsView) -> Seq<u8> {
    vstd::bytes::spec_u64_to_le_bytes(parts.0) + (vstd::bytes::spec_u64_to_le_bytes(parts.1) + (text_bytes(parts.2) + (
    text_bytes(parts.3) + (time_bytes(parts.4) + (vstd::bytes::spec_u32_to_le_bytes(parts.5.len() as u32)
        + table_bytes(parts.5))))))
}

/// Whether no text or list in the parts of a chunk is too long.
pub open spec fn chunk_fits(parts: ChunkPartsView) -> bool {
    &&& text_fits(parts.2)
    &&& text_fits(parts.3)
    &&& parts.5.len() <= u32::MAX
    &&& forall|i: int| 0 <= i < parts.5.len() ==> text_fits((#[trigger] parts.5[i]).0)
}

/// Whether these are the bytes of the parts of some label.
pub open spec fn is_label(bytes: Seq<u8>) -> bool {
    exists|parts: LabelPartsView| label_fits(parts) && bytes == #[trigger] label_bytes(parts)
}

/// Whether these are the bytes of the parts of some chunk.
pub open spec fn is_chunk(bytes: Seq<u8>) -> bool {
    exists|parts: ChunkPartsView| chunk_fits(parts) && bytes == #[trigger] chunk_bytes(parts)
}

/// Calls `borsh::to_vec`, which writes the fields of a tuple one after the other. It
/// fails only on a text of which the bytes cannot be counted in 32 bits.
#[verifier::external_body]
fn write_label_parts(parts: &LabelParts) -> (r: Result<Vec<u8>, std::io::Error>)
    ensures
        r is Ok == label_fits(label_parts(*parts)),
        r matches Ok(bytes) ==> bytes@ == label_bytes(label_parts(*parts)),
{
    borsh::to_vec(parts)
}

/// Calls `borsh::from_slice`, which reads what `borsh::to_vec` has written, and fails
/// on all other bytes.
#[verifier::external_body]
fn read_label_parts(bytes: &Vec<u8>) -> (r: Result<LabelParts, std::io::Error>)
    ensures
        r is Ok == is_label(bytes@),
        r matches Ok(parts) ==> label_fits(label_parts(parts)) && bytes@ == label_bytes(label_parts(parts)),
{
    borsh::from_slice(bytes)
}

/// Calls `borsh::to_vec`, which writes the fields of a tuple, and the items of a list,
/// one after the other. It fails only on a text or list of which the length cannot be
/// counted in 32 bits.
#[verifier::external_body]
fn write_chunk_parts(parts: &ChunkParts) -> (r: Result<Vec<u8>, std::io::Error>)
    ensures
        r is Ok == chunk_fits(chunk_parts(*parts)),
        r matches Ok(bytes) ==> bytes@ == chunk_bytes(chunk_parts(*parts)),
{
    borsh::to_vec(parts)
}

/// Calls `borsh::from_slice`, which reads what `borsh::to_vec` has written, and fails
/// on all other bytes.
#[verifier::external_body]
fn read_chunk_parts(bytes: &Vec<u8>) -> (r: Result<ChunkParts, std::io::Error>)
    ensures
        r is Ok == is_chunk(bytes@),
        r matches Ok(parts) ==> chunk_fits(chunk_parts(parts)) && bytes@ == chunk_bytes(chunk_parts(parts)),
{
    borsh::from_slice(bytes)
}

/// Bytes that are equal as a whole, and of which the first parts are equally long.
proof fn lemma_parts_equal(a: Seq<u8>, x: Seq<u8>, b: Seq<u8>, y: Seq<u8>)
    requires
        a.len() == b.len(),
        a + x == b + y,
    ensures
        a == b,
        x == y,
{
    assert((a + x).take(a.len() as int) =~= a);
    assert((b + y).take(b.len() as int) =~= b);
    assert((a + x).skip(a.len() as int) =~= x);
    assert((b + y).skip(b.len() as int) =~= y);
}

/// A text in front tells itself and what follows.
proof fn lemma_text_first(a: Seq<char>, x: Seq<u8>, b: Seq<char>, y: Seq<u8>)
    requires
        text_fits(a),
        text_fits(b),
        text_bytes(a) + x == text_bytes(b) + y,
    ensures
        a == b,
        x == y,
{
    let (p, q) = (vstd::utf8::encode_utf8(a), vstd::utf8::encode_utf8(b));
    let (m, n) = (
        vstd::bytes::spec_u32_to_le_bytes(p.len() as u32),
        vstd::bytes::spec_u32_to_le_bytes(q.len() as u32),
    );
    vstd::bytes::lemma_auto_spec_u32_to_from_le_bytes();
    assert(text_bytes(a) + x =~= m + (p + x));
    assert(text_bytes(b) + y =~= n + (q + y));
    lemma_parts_equal(m, p + x, n, q + y);
    assert(p.len() == vstd::bytes::spec_u32_from_le_bytes(m));
    assert(q.len() == vstd::bytes::spec_u32_from_le_bytes(n));
    lemma_parts_equal(p, x, q, y);
    vstd::utf8::encode_utf8_decode_utf8(a);
    vstd::utf8::encode_utf8_decode_utf8(b);
}

/// A 64-bit number in front tells itself and what follows.
proof fn lemma_u64_first(a: u64, x: Seq<u8>, b: u64, y: Seq<u8>)
    requires
        vstd::bytes::spec_u64_to_le_bytes(a) + x == vstd::bytes::spec_u64_to_le_bytes(b) + y,
    ensures
        a == b,
        x == y,
{
    let (m, n) = (vstd::bytes::spec_u64_to_le_bytes(a), vstd::bytes::spec_u64_to_le_bytes(b));
    vstd::bytes::lemma_auto_spec_u64_to_from_le_bytes();
    lemma_parts_equal(m, x, n, y);
    assert(vstd::bytes::spec_u64_from_le_bytes(m) == a);
    assert(vstd::bytes::spec_u64_from_le_bytes(n) == b);
}

/// Different labels have different bytes.
pub proof fn law_label_bytes_tell_the_label(a: LabelPartsView, b: LabelPartsView)
    requires
        label_fits(a),
        label_fits(b),
        label_bytes(a) == label_bytes(b),
    ensures
        a == b,
{
    let rest = |parts: LabelPartsView|
        match parts.1 {
            Some(head) => seq![1u8] + (vstd::bytes::spec_u64_to_le_bytes(head.0) + text_bytes(head.1)),
            None => seq![0u8],
        };
    lemma_text_first(a.0, rest(a), b.0, rest(b));
    assert(rest(a)[0] == rest(b)[0]);
    if a.1 is Some {
        let (h, k) = (a.1.unwrap(), b.1.unwrap());
        lemma_parts_equal(
            seq![1u8],
            vstd::bytes::spec_u64_to_le_bytes(h.0) + text_bytes(h.1),
            seq![1u8],
            vstd::bytes::spec_u64_to_le_bytes(k.0) + text_bytes(k.1),
        );
        lemma_u64_first(h.0, text_bytes(h.1), k.0, text_bytes(k.1));
        assert(text_bytes(h.1) + Seq::<u8>::empty() =~= text_bytes(h.1));
        assert(text_bytes(k.1) + Seq::<u8>::empty() =~= text_bytes(k.1));
        lemma_text_first(h.1, Seq::empty(), k.1, Seq::empty());
    }
}

/// Different tables, as many of them, have different bytes.
proof fn lemma_table_bytes(a: Seq<(Seq<char>, u128)>, b: Seq<(Seq<char>, u128)>)
    requires
        a.len() == b.len(),
        forall|i: int| 0 <= i < a.len() ==> text_fits((#[trigger] a[i]).0),
        forall|i: int| 0 <= i < b.len() ==> text_fits((#[trigger] b[i]).0),
        table_bytes(a) == table_bytes(b),
    ensures
        a == b,
    decreases a.len(),
{
    if a.len() == 0 {
        assert(a =~= b);
    } else {
        let (m, n) = (vstd::bytes::spec_u128_to_le_bytes(a[0].1), vstd::bytes::spec_u128_to_le_bytes(b[0].1));
        lemma_text_first(a[0].0, m + table_bytes(a.skip(1)), b[0].0, n + table_bytes(b.skip(1)));
        vstd::bytes::lemma_auto_spec_u128_to_from_le_bytes();
        lemma_parts_equal(m, table_bytes(a.skip(1)), n, table_bytes(b.skip(1)));
        assert(vstd::bytes::spec_u128_from_le_bytes(m) == a[0].1);
        assert(vstd::bytes::spec_u128_from_le_bytes(n) == b[0].1);
        assert(forall|i: int| 0 <= i < a.skip(1).len() ==> #[trigger] a.skip(1)[i] == a[i + 1]);
        assert(forall|i: int| 0 <= i < b.skip(1).len() ==> #[trigger] b.skip(1)[i] == b[i + 1]);
        lemma_table_bytes(a.skip(1), b.skip(1));
        assert(a =~= seq![a[0]] + a.skip(1));
        assert(b =~= seq![b[0]] + b.skip(1));
    }
}

/// A time in front tells itself and what follows.
proof fn lemma_time_first(a: Option<i64>, x: Seq<u8>, b: Option<i64>, y: Seq<u8>)
    requires
        time_bytes(a) + x == time_bytes(b) + y,
    ensures
        a == b,
        x == y,
{
    assert((time_bytes(a) + x)[0] == time_bytes(a)[0]);
    assert((time_bytes(b) + y)[0] == time_bytes(b)[0]);
    vstd::bytes::lemma_auto_spec_u64_to_from_le_bytes();
    lemma_parts_equal(time_bytes(a), x, time_bytes(b), y);
    if a is Some {
        let (t, u) = (a.unwrap(), b.unwrap());
        lemma_parts_equal(
            seq![1u8],
            vstd::bytes::spec_u64_to_le_bytes(t as u64),
            seq![1u8],
            vstd::bytes::spec_u64_to_le_bytes(u as u64),
        );
        assert(vstd::bytes::spec_u64_from_le_bytes(vstd::bytes::spec_u64_to_le_bytes(t as u64)) == t as u64);
        assert(vstd::bytes::spec_u64_from_le_bytes(vstd::bytes::spec_u64_to_le_bytes(u as u64)) == u as u64);
        assert(t as u64 == u as u64 ==> t == u) by (bit_vector);
    }
}

/// Different chunks have different bytes.
pub proof fn law_chunk_bytes_tell_the_chunk(a: ChunkPartsView, b: ChunkPartsView)
    requires
        chunk_fits(a),
        chunk_fits(b),
        chunk_bytes(a) == chunk_bytes(b),
    ensures
        a == b,
{
    let (m, n) = (
        vstd::bytes::spec_u32_to_le_bytes(a.5.len() as u32),
        vstd::bytes::spec_u32_to_le_bytes(b.5.len() as u32),
    );
    let (a5, b5) = (m + table_bytes(a.5), n + table_bytes(b.5));
    let (a4, b4) = (time_bytes(a.4) + a5, time_bytes(b.4) + b5);
    let (a3, b3) = (text_bytes(a.3) + a4, text_bytes(b.3) + b4);
    let (a2, b2) = (text_bytes(a.2) + a3, text_bytes(b.2) + b3);
    lemma_u64_first(
        a.0,
        vstd::bytes::spec_u64_to_le_bytes(a.1) + a2,
        b.0,
        vstd::bytes::spec_u64_to_le_bytes(b.1) + b2,
    );
    lemma_u64_first(a.1, a2, b.1, b2);
    lemma_text_first(a.2, a3, b.2, b3);
    lemma_text_first(a.3, a4, b.3, b4);
    lemma_time_first(a.4, a5, b.4, b5);
    vstd::bytes::lemma_auto_spec_u32_to_from_le_bytes();
    lemma_parts_equal(m, table_bytes(a.5), n, table_bytes(b.5));
    assert(vstd::bytes::spec_u32_from_le_bytes(m) == a.5.len());
    assert(vstd::bytes::spec_u32_from_le_bytes(n) == b.5.len());
    lemma_table_bytes(a.5, b.5);
}

/// A text is too long to be written.
#[derive(Clone, Copy, Debug, PartialEq, Eq, Structural)]
pub struct TooLong {}

/// The bytes are not those of what was to be read.
#[derive(Clone, Copy, Debug, PartialEq, Eq, Structural)]
pub struct Corrupt {}

/// The parts of a label.
pub open spec fn parts_of_label(label: DatasetLabelView) -> LabelPartsView {
    (
        label.kind,
        match label.finalized_head {
            Some(head) => Some((head.number, head.hash)),
            None => None,
        },
    )
}

/// The label with these parts.
pub open spec fn label_with(parts: LabelPartsView) -> DatasetLabelView {
    DatasetLabelView {
        kind: parts.0,
        finalized_head: match parts.1 {
            Some(head) => Some(types::BlockRefView { number: head.0, hash: head.1 }),
            None => None,
        },
    }
}

/// The label that bytes stand for.
pub open spec fn label_in(bytes: Seq<u8>) -> Option<DatasetLabelView> {
    if is_label(bytes) {
        Some(label_with(choose|parts: LabelPartsView| label_fits(parts) && bytes == #[trigger] label_bytes(parts)))
    } else {
        None
    }
}

/// The parts of a chunk.
pub open spec fn parts_of_chunk(chunk: ChunkView) -> ChunkPartsView {
    (
        chunk.first_block,
        chunk.last_block,
        chunk.last_block_hash,
        chunk.parent_block_hash,
        chunk.last_block_time,
        chunk.tables.map_values(|t: (Seq<char>, TableId)| (t.0, t.1.0)),
    )
}

/// Tables put in one after the other.
pub open spec fn tables_put(tables: Seq<(Seq<char>, u128)>) -> Seq<(Seq<char>, TableId)>
    decreases tables.len(),
{
    if tables.len() == 0 {
        Seq::empty()
    } else {
        types::table_put(tables_put(tables.drop_last()), tables.last().0, TableId(tables.last().1))
    }
}

/// The chunk with these parts.
pub open spec fn chunk_with(parts: ChunkPartsView) -> ChunkView {
    ChunkView {
        first_block: parts.0,
        last_block: parts.1,
        last_block_hash: parts.2,
        parent_block_hash: parts.3,
        last_block_time: parts.4,
        tables: tables_put(parts.5),
    }
}

/// The chunk that bytes stand for.
pub open spec fn chunk_in(bytes: Seq<u8>) -> Option<ChunkView> {
    if is_chunk(bytes) {
        Some(chunk_with(choose|parts: ChunkPartsView| chunk_fits(parts) && bytes == #[trigger] chunk_bytes(parts)))
    } else {
        None
    }
}

/// The bytes of the parts of a label stand for that label.
pub proof fn law_labels_read_back(parts: LabelPartsView)
    requires
        label_fits(parts),
    ensures
        label_in(label_bytes(parts)) == Some(label_with(parts)),
{
    let bytes = label_bytes(parts);
    let read = choose|p: LabelPartsView| label_fits(p) && bytes == #[trigger] label_bytes(p);
    assert(is_label(bytes));
    law_label_bytes_tell_the_label(parts, read);
}

/// A label as bytes. They read back as the label.
pub fn encode_label(label: &DatasetLabel) -> (r: Result<Vec<u8>, TooLong>)
    ensures
        r is Ok == label_fits(parts_of_label(label@)),
        r matches Ok(bytes) ==> bytes@ == label_bytes(parts_of_label(label@)),
        r matches Ok(bytes) ==> label_in(bytes@) == Some(label@),
{
    let head: Option<(u64, String)> = match &label.finalized_head {
        Some(head) => Some((head.number, head.hash.clone())),
        None => None,
    };
    let parts: LabelParts = (label.kind.as_str().to_owned(), head);
    assert(label_parts(parts) == parts_of_label(label@));
    proof {
        if label_fits(parts_of_label(label@)) {
            law_labels_read_back(parts_of_label(label@));
        }
    }
    match write_label_parts(&parts) {
        Ok(bytes) => Ok(bytes),
        Err(_) => Err(TooLong {  }),
    }
}

/// The label that bytes stand for.
pub fn decode_label(bytes: &Vec<u8>) -> (r: Result<DatasetLabel, Corrupt>)
    ensures
        r is Ok == label_in(bytes@) is Some,
        r matches Ok(label) ==> label_in(bytes@) == Some(label@),
{
    match read_label_parts(bytes) {
        Ok((kind, head)) => {
            proof {
                law_labels_read_back(label_parts((kind, head)));
            }
            let finalized_head: Option<BlockRef> = match head {
                Some((number, hash)) => Some(BlockRef { number, hash }),
                None => None,
            };
            Ok(DatasetLabel { kind: DatasetKind::from_str(kind.as_str()), finalized_head })
        },
        Err(_) => Err(Corrupt {  }),
    }
}

/// Distinct tables, put in one after the other, are just those.
proof fn lemma_tables_put(tables: Seq<(Seq<char>, TableId)>)
    requires
        types::names_distinct(tables),
    ensures
        tables_put(tables.map_values(|t: (Seq<char>, TableId)| (t.0, t.1.0))) == tables,
    decreases tables.len(),
{
    let pairs = tables.map_values(|t: (Seq<char>, TableId)| (t.0, t.1.0));
    if tables.len() == 0 {
        assert(tables =~= Seq::empty());
    } else {
        let init = tables.drop_last();
        assert(forall|i: int| 0 <= i < init.len() ==> init[i] == tables[i]);
        lemma_tables_put(init);
        assert(pairs.drop_last() =~= init.map_values(|t: (Seq<char>, TableId)| (t.0, t.1.0)));
        assert(tables.last() == tables[tables.len() - 1]);
        assert(types::table_named(init, tables.last().0) is None) by {
            assert forall|i: int| 0 <= i < init.len() implies (#[trigger] init[i]).0 != tables.last().0 by {
                assert(tables[i].0 != tables[tables.len() - 1].0);
            }
        }
        assert(init.push((tables.last().0, TableId(tables.last().1.0))) =~= tables);
    }
}

/// The bytes of the parts of a chunk stand for that chunk.
pub proof fn law_chunks_read_back(parts: ChunkPartsView)
    requires
        chunk_fits(parts),
    ensures
        chunk_in(chunk_bytes(parts)) == Some(chunk_with(parts)),
{
    let bytes = chunk_bytes(parts);
    let read = choose|p: ChunkPartsView| chunk_fits(p) && bytes == #[trigger] chunk_bytes(p);
    assert(is_chunk(bytes));
    law_chunk_bytes_tell_the_chunk(parts, read);
}

/// A chunk as bytes. They read back as the chunk.
pub fn encode_chunk(chunk: &Chunk) -> (r: Result<Vec<u8>, TooLong>)
    ensures
        r is Ok == chunk_fits(parts_of_chunk(chunk@)),
        r matches Ok(bytes) ==> bytes@ == chunk_bytes(parts_of_chunk(chunk@)),
        r matches Ok(bytes) ==> chunk_in(bytes@) == Some(chunk@),
{
    let mut tables: Vec<(String, u128)> = Vec::new();
    let count: usize = chunk.table_count();
    let mut i: usize = 0;
    while i < count
        invariant
            i <= count,
            count == chunk@.tables.len(),
            tables.len() == i,
            forall|j: int|
                0 <= j < i ==> (#[trigger] tables@[j]).0@ == chunk@.tables[j].0 && tables@[j].1 == chunk@.tables[j].1.0,
        decreases count - i,
    {
        tables.push((chunk.table_name_at(i).clone(), chunk.table_at(i).0));
        i += 1;
    }
    let parts: ChunkParts = (
        chunk.first_block(),
        chunk.last_block(),
        chunk.last_block_hash().clone(),
        chunk.parent_block_hash().clone(),
        chunk.last_block_time(),
        tables,
    );
    assert(chunk_parts(parts).5 =~= parts_of_chunk(chunk@).5);
    proof {
        lemma_tables_put(chunk@.tables);
        if chunk_fits(parts_of_chunk(chunk@)) {
            law_chunks_read_back(parts_of_chunk(chunk@));
        }
    }
    match write_chunk_parts(&parts) {
        Ok(bytes) => Ok(bytes),
        Err(_) => Err(TooLong {  }),
    }
}

/// The chunk that bytes stand for.
pub fn decode_chunk(bytes: &Vec<u8>) -> (r: Result<Chunk, Corrupt>)
    ensures
        r is Ok == chunk_in(bytes@) is Some,
        r matches Ok(chunk) ==> chunk_in(bytes@) == Some(chunk@),
{
    match read_chunk_parts(bytes) {
        Ok((first, last, last_hash, parent_hash, time, tables)) => {
            let ghost pairs = tables@.map_values(|t: (String, u128)| (t.0@, t.1));
            proof {
                law_chunks_read_back(chunk_parts((first, last, last_hash, parent_hash, time, tables)));
            }
            let mut chunk: Chunk = Chunk::new(first, last, last_hash, parent_hash, time);
            let ghost bare = chunk@;
            let mut i: usize = 0;
            assert(pairs.take(0) =~= Seq::empty());
            while i < tables.len()
                invariant
                    i <= tables.len(),
                    pairs == tables@.map_values(|t: (String, u128)| (t.0@, t.1)),
                    chunk@ == (ChunkView { tables: tables_put(pairs.take(i as int)), ..bare }),
                decreases tables.len() - i,
            {
                assert(pairs.take(i + 1).drop_last() =~= pairs.take(i as int));
                assert(pairs.take(i + 1).last() == (tables@[i as int].0@, tables@[i as int].1));
                chunk = chunk.with_table(tables[i].0.as_str(), TableId(tables[i].1));
                i += 1;
            }
            assert(pairs.take(pairs.len() as int) =~= pairs);
            Ok(chunk)
        },
        Err(_) => Err(Corrupt {  }),
    }
}

} // verus!
