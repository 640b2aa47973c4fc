//! Blocks, chunks of blocks and the datasets that hold them.
use crate::text::same_text;
use vstd::prelude::*;

verus! {

/// The height of a block.
pub type BlockNumber = u64;

/// The position of an item within its block.
pub type ItemIndex = u32;

/// A block named by its height and hash.
#[derive(Debug, PartialEq, Eq)]
pub struct BlockRef {
    pub number: BlockNumber,
    pub hash: String,
}

/// What a [`BlockRef`] says.
pub struct BlockRefView {
    pub number: BlockNumber,
    pub hash: Seq<char>,
}

impl View for BlockRef {
    type V = BlockRefView;

    open spec fn view(&self) -> BlockRefView {
        BlockRefView { number: self.number, hash: self.hash@ }
    }
}

impl Clone for BlockRef {
    fn clone(&self) -> (copy: Self)
        ensures
            copy == *self,
    {
        BlockRef { number: self.number, hash: self.hash.clone() }
    }
}

/// What an optional [`BlockRef`] says.
pub open spec fn block_ref_view(head: Option<BlockRef>) -> Option<BlockRefView> {
    match head {
        Some(b) => Some(b@),
        None => None,
    }
}

/// What a list of [`BlockRef`]s says.
pub open spec fn block_refs(blocks: Seq<BlockRef>) -> Seq<BlockRefView> {
    blocks.map_values(|b: BlockRef| b@)
}

/// What an optional text says.
pub open spec fn text_view(text: Option<String>) -> Option<Seq<char>> {
    match text {
        Some(t) => Some(t@),
        None => None,
    }
}

/// The name of a dataset.
#[derive(Debug, PartialEq, Eq, PartialOrd, Ord, Hash)]
pub struct DatasetId {
    name: String,
}

impl View for DatasetId {
    type V = Seq<char>;

    closed spec fn view(&self) -> Seq<char> {
        self.name@
    }
}

impl Clone for DatasetId {
    fn clone(&self) -> (copy: Self)
        ensures
            copy == *self,
    {
        DatasetId { name: self.name.clone() }
    }
}

impl DatasetId {
    /// The dataset called `name`.
    pub fn from_str(name: &str) -> (id: Self)
        ensures
            id@ == name@,
    {
        DatasetId { name: name.to_owned() }
    }

    /// The name of the dataset.
    pub fn as_str(&self) -> (name: &str)
        ensures
            name@ == self@,
    {
        self.name.as_str()
    }

    /// Whether two ids name the same dataset.
    pub fn same(&self, other: &Self) -> (same: bool)
        ensures
            same == (self@ == other@),
    {
        self.name == other.name
    }
}

/// The kind of chain a dataset follows.
#[derive(Debug, PartialEq, Eq, PartialOrd, Ord, Hash)]
pub struct DatasetKind {
    name: String,
}

impl View for DatasetKind {
    type V = Seq<char>;

    closed spec fn view(&self) -> Seq<char> {
        self.name@
    }
}

impl Clone for DatasetKind {
    fn clone(&self) -> (copy: Self)
        ensures
            copy == *self,
    {
        DatasetKind { name: self.name.clone() }
    }
}

impl DatasetKind {
    /// The kind called `name`.
    pub fn from_str(name: &str) -> (kind: Self)
        ensures
            kind@ == name@,
    {
        DatasetKind { name: name.to_owned() }
    }

    /// The name of the kind.
    pub fn as_str(&self) -> (name: &str)
        ensures
            name@ == self@,
    {
        self.name.as_str()
    }

    /// Whether two kinds are the same.
    pub fn same(&self, other: &Self) -> (same: bool)
        ensures
            same == (self@ == other@),
    {
        self.name == other.name
    }
}

/// What the store remembers of a dataset as a whole.
#[derive(Debug, PartialEq, Eq)]
pub struct DatasetLabel {
    pub kind: DatasetKind,
    pub finalized_head: Option<BlockRef>,
}

/// What a [`DatasetLabel`] says.
pub struct DatasetLabelView {
    pub kind: Seq<char>,
    pub finalized_head: Option<BlockRefView>,
}

impl View for DatasetLabel {
    type V = DatasetLabelView;

    open spec fn view(&self) -> DatasetLabelView {
        DatasetLabelView {
            kind: self.kind@,
            finalized_head: block_ref_view(self.finalized_head),
        }
    }
}

impl Clone for DatasetLabel {
    fn clone(&self) -> (copy: Self)
        ensures
            copy == *self,
    {
        let finalized_head: Option<BlockRef> = match &self.finalized_head {
            Some(head) => Some(head.clone()),
            None => None,
        };
        DatasetLabel { kind: self.kind.clone(), finalized_head }
    }
}

/// The identity of a stored table.
#[derive(Clone, Copy, Debug, PartialEq, Eq, Structural, PartialOrd, Ord, Hash)]
pub struct TableId(pub u128);

/// A run of consecutive heights of one dataset, stored as named tables.
///
/// No two of its tables have the same name.
#[derive(Debug, PartialEq, Eq)]
pub struct Chunk {
    first_block: BlockNumber,
    last_block: BlockNumber,
    last_block_hash: String,
    parent_block_hash: String,
    last_block_time: Option<i64>,
    tables: Vec<(String, TableId)>,
}

/// What a [`Chunk`] says.
pub struct ChunkView {
    pub first_block: BlockNumber,
    pub last_block: BlockNumber,
    pub last_block_hash: Seq<char>,
    pub parent_block_hash: Seq<char>,
    pub last_block_time: Option<i64>,
    pub tables: Seq<(Seq<char>, TableId)>,
}

/// Names and ids of a list of tables.
pub open spec fn table_names(tables: Seq<(String, TableId)>) -> Seq<(Seq<char>, TableId)> {
    tables.map_values(|t: (String, TableId)| (t.0@, t.1))
}

/// No name occurs twice.
pub open spec fn names_distinct(tables: Seq<(Seq<char>, TableId)>) -> bool {
    forall|i: int, j: int| 0 <= i < j < tables.len() ==> (#[trigger] tables[i]).0 != (#[trigger] tables[j]).0
}

/// The table called `name`, if there is one.
pub open spec fn table_named(tables: Seq<(Seq<char>, TableId)>, name: Seq<char>) -> Option<TableId> {
    if exists|i: int| 0 <= i < tables.len() && (#[trigger] tables[i]).0 == name {
        Some(tables[choose|i: int| 0 <= i < tables.len() && (#[trigger] tables[i]).0 == name].1)
    } else {
        None
    }
}

/// The tables with `name` standing for `id`: in its old place if the name was
/// taken, at the end otherwise.
pub open spec fn table_put(
    tables: Seq<(Seq<char>, TableId)>,
    name: Seq<char>,
    id: TableId,
) -> Seq<(Seq<char>, TableId)> {
    if table_named(tables, name) is Some {
        tables.map_values(|t: (Seq<char>, TableId)| if t.0 == name { (t.0, id) } else { t })
    } else {
        tables.push((name, id))
    }
}

impl View for Chunk {
    type V = ChunkView;

    closed spec fn view(&self) -> ChunkView {
        ChunkView {
            first_block: self.first_block,
            last_block: self.last_block,
            last_block_hash: self.last_block_hash@,
            parent_block_hash: self.parent_block_hash@,
            last_block_time: self.last_block_time,
            tables: table_names(self.tables@),
        }
    }
}

/// What a list of chunks says.
pub open spec fn chunk_views(chunks: Seq<Chunk>) -> Seq<ChunkView> {
    chunks.map_values(|c: Chunk| c@)
}

impl Chunk {
    #[verifier::type_invariant]
    closed spec fn tables_distinct(self) -> bool {
        names_distinct(table_names(self.tables@))
    }

    /// A chunk of the blocks from `first_block` to `last_block`, with no tables yet.
    pub fn new(
        first_block: BlockNumber,
        last_block: BlockNumber,
        last_block_hash: String,
        parent_block_hash: String,
        last_block_time: Option<i64>,
    ) -> (chunk: Self)
        ensures
            chunk@ == (ChunkView {
                first_block,
                last_block,
                last_block_hash: last_block_hash@,
                parent_block_hash: parent_block_hash@,
                last_block_time,
                tables: Seq::empty(),
            }),
    {
        let tables: Vec<(String, TableId)> = Vec::new();
        assert(table_names(tables@) =~= Seq::empty());
        Chunk { first_block, last_block, last_block_hash, parent_block_hash, last_block_time, tables }
    }

    /// The chunk with one more table, or with another table of that name.
    pub fn with_table(self, name: &str, id: TableId) -> (chunk: Self)
        ensures
            chunk@ == (ChunkView { tables: table_put(self@.tables, name@, id), ..self@ }),
    {
        proof {
            use_type_invariant(&self);
        }
        let Chunk { first_block, last_block, last_block_hash, parent_block_hash, last_block_time, tables: old_tables } =
            self;
        let ghost before = table_names(old_tables@);
        let mut tables: Vec<(String, TableId)> = Vec::new();
        let mut found: bool = false;
        let mut i: usize = 0;
        while i < old_tables.len()
            invariant
                i <= old_tables.len(),
                before == table_names(old_tables@),
                tables.len() == i,
                forall|j: int|
                    0 <= j < i ==> (#[trigger] tables@[j]).0@ == old_tables@[j].0@ && tables@[j].1 == (
                    if old_tables@[j].0@ == name@ {
                        id
                    } else {
                        old_tables@[j].1
                    }),
                found == exists|j: int| 0 <= j < i && (#[trigger] before[j]).0 == name@,
            decreases old_tables.len() - i,
        {
            assert(before[i as int].0 == old_tables@[i as int].0@);
            if same_text(old_tables[i].0.as_str(), name) {
                tables.push((old_tables[i].0.clone(), id));
                found = true;
            } else {
                tables.push((old_tables[i].0.clone(), old_tables[i].1));
            }
            i += 1;
        }
        proof {
            let after = before.map_values(
                |t: (Seq<char>, TableId)|
                    if t.0 == name@ {
                        (t.0, id)
                    } else {
                        t
                    },
            );
            assert(table_names(tables@) =~= after);
            if !found {
                assert(after =~= before);
            }
        }
        if !found {
            let ghost kept = tables@;
            tables.push((name.to_owned(), id));
            assert(table_names(tables@) =~= table_names(kept).push((name@, id)));
        }
        assert(names_distinct(table_names(tables@)));
        Chunk { first_block, last_block, last_block_hash, parent_block_hash, last_block_time, tables }
    }

    /// The height of the first block.
    pub fn first_block(&self) -> (number: BlockNumber)
        ensures
            number == self@.first_block,
    {
        self.first_block
    }

    /// The height of the last block.
    pub fn last_block(&self) -> (number: BlockNumber)
        ensures
            number == self@.last_block,
    {
        self.last_block
    }

    /// The hash of the last block.
    pub fn last_block_hash(&self) -> (hash: &String)
        ensures
            hash@ == self@.last_block_hash,
    {
        &self.last_block_hash
    }

    /// The hash of the block before the first one.
    pub fn parent_block_hash(&self) -> (hash: &String)
        ensures
            hash@ == self@.parent_block_hash,
    {
        &self.parent_block_hash
    }

    /// The timestamp of the last block, where it is known.
    pub fn last_block_time(&self) -> (time: Option<i64>)
        ensures
            time == self@.last_block_time,
    {
        self.last_block_time
    }

    /// The number of tables.
    pub fn table_count(&self) -> (n: usize)
        ensures
            n == self@.tables.len(),
            names_distinct(self@.tables),
    {
        proof {
            use_type_invariant(self);
        }
        self.tables.len()
    }

    /// The id of the table at position `i`.
    pub fn table_at(&self, i: usize) -> (id: TableId)
        requires
            i < self@.tables.len(),
        ensures
            id == self@.tables[i as int].1,
    {
        self.tables[i].1
    }

    /// The name of the table at position `i`.
    pub fn table_name_at(&self, i: usize) -> (name: &String)
        requires
            i < self@.tables.len(),
        ensures
            name@ == self@.tables[i as int].0,
    {
        &self.tables[i].0
    }

    /// The table called `name`, if there is one.
    pub fn table(&self, name: &str) -> (id: Option<TableId>)
        ensures
            id == table_named(self@.tables, name@),
    {
        proof {
            use_type_invariant(self);
        }
        let mut i: usize = 0;
        while i < self.tables.len()
            invariant
                i <= self.tables.len(),
                names_distinct(self@.tables),
                self@.tables == table_names(self.tables@),
                forall|j: int| 0 <= j < i ==> (#[trigger] self@.tables[j]).0 != name@,
            decreases self.tables.len() - i,
        {
            if same_text(self.tables[i].0.as_str(), name) {
                assert(self@.tables[i as int].0 == name@);
                return Some(self.tables[i].1);
            }
            i += 1;
        }
        None
    }
}

impl Clone for Chunk {
    fn clone(&self) -> (copy: Self)
        ensures
            copy@ == self@,
    {
        proof {
            use_type_invariant(self);
        }
        let mut tables: Vec<(String, TableId)> = Vec::new();
        let mut i: usize = 0;
        while i < self.tables.len()
            invariant
                i <= self.tables.len(),
                tables.len() == i,
                forall|j: int|
                    0 <= j < i ==> (#[trigger] tables@[j]).0@ == self.tables@[j].0@ && tables@[j].1 == self.tables@[j].1,
            decreases self.tables.len() - i,
        {
            tables.push((self.tables[i].0.clone(), self.tables[i].1));
            i += 1;
        }
        assert(table_names(tables@) =~= table_names(self.tables@));
        Chunk {
            first_block: self.first_block,
            last_block: self.last_block,
            last_block_hash: self.last_block_hash.clone(),
            parent_block_hash: self.parent_block_hash.clone(),
            last_block_time: self.last_block_time,
            tables,
        }
    }
}

} // verus!
