//! Introspected schema facts.
//!
//! A [`SchemaSnapshot`] is the structural catalog of one database at one
//! moment: its tables (name, creation DDL and ordered column names), its user
//! indices (name and creation DDL; auto-indices without stored DDL are never
//! included) and the `user_version` pragma.  Snapshots are plain values: the
//! surrounding application fills them from the engine catalog and the library
//! reasons about them.

use vstd::prelude::*;

verus! {

/// Creation DDL of one table, as stored by the engine catalog.
pub struct TableInfo {
    pub sql: String,
}

/// Creation DDL of one user index, as stored by the engine catalog.
pub struct IndexInfo {
    pub sql: String,
}

/// One column of a table.
pub struct ColumnInfo {
    pub name: String,
}

/// Everything introspected about one table.
pub struct TableState {
    pub name: String,
    pub info: TableInfo,
    pub columns: Vec<ColumnInfo>,
}

/// Everything introspected about one user index.
pub struct IndexState {
    pub name: String,
    pub info: IndexInfo,
}

/// The structural catalog of a database at one moment.
pub struct SchemaSnapshot {
    pub tables: Vec<TableState>,
    pub indices: Vec<IndexState>,
    pub user_version: i64,
}

/// The names of a sequence of columns, in order.
pub open spec fn col_name_seq(cols: Seq<ColumnInfo>) -> Seq<Seq<char>> {
    cols.map_values(|c: ColumnInfo| c.name@)
}

/// No two entries of the sequence are equal.
pub open spec fn distinct_seq(s: Seq<Seq<char>>) -> bool {
    forall|i: int, j: int| 0 <= i < j < s.len() ==> s[i] != s[j]
}

impl SchemaSnapshot {
    /// The table names, in catalog order.
    pub open spec fn table_name_seq(&self) -> Seq<Seq<char>> {
        self.tables@.map_values(|t: TableState| t.name@)
    }

    /// The index names, in catalog order.
    pub open spec fn index_name_seq(&self) -> Seq<Seq<char>> {
        self.indices@.map_values(|x: IndexState| x.name@)
    }

    pub open spec fn has_table(&self, n: Seq<char>) -> bool {
        exists|i: int| 0 <= i < self.tables@.len() && self.tables@[i].name@ == n
    }

    pub open spec fn has_index(&self, n: Seq<char>) -> bool {
        exists|i: int| 0 <= i < self.indices@.len() && self.indices@[i].name@ == n
    }

    /// The set of table names.
    pub open spec fn table_name_set(&self) -> Set<Seq<char>> {
        Set::new(|n: Seq<char>| self.has_table(n))
    }

    /// The set of index names.
    pub open spec fn index_name_set(&self) -> Set<Seq<char>> {
        Set::new(|n: Seq<char>| self.has_index(n))
    }

    /// The position of the table named `n` (meaningful when `has_table(n)`).
    pub open spec fn table_idx(&self, n: Seq<char>) -> int {
        choose|i: int| 0 <= i < self.tables@.len() && self.tables@[i].name@ == n
    }

    /// The position of the index named `n` (meaningful when `has_index(n)`).
    pub open spec fn index_idx(&self, n: Seq<char>) -> int {
        choose|i: int| 0 <= i < self.indices@.len() && self.indices@[i].name@ == n
    }

    /// The stored DDL of the table named `n`.
    pub open spec fn table_sql(&self, n: Seq<char>) -> Seq<char> {
        self.tables@[self.table_idx(n)].info.sql@
    }

    /// The stored DDL of the index named `n`.
    pub open spec fn index_sql(&self, n: Seq<char>) -> Seq<char> {
        self.indices@[self.index_idx(n)].info.sql@
    }

    /// The ordered column names of the table named `n`.
    pub open spec fn table_cols(&self, n: Seq<char>) -> Seq<Seq<char>> {
        col_name_seq(self.tables@[self.table_idx(n)].columns@)
    }

    /// The set of column names of the table named `n`.
    pub open spec fn table_col_set(&self, n: Seq<char>) -> Set<Seq<char>> {
        self.table_cols(n).to_set()
    }

    /// A snapshot is well formed when table names, index names and the column
    /// names within each table are pairwise distinct.
    pub open spec fn wf(&self) -> bool {
        &&& distinct_seq(self.table_name_seq())
        &&& distinct_seq(self.index_name_seq())
        &&& forall|i: int|
            0 <= i < self.tables@.len() ==> distinct_seq(
                col_name_seq(#[trigger] self.tables@[i].columns@),
            )
    }

    /// In a well-formed snapshot any position holding the name `n` is the
    /// position `table_idx(n)` speaks of.
    pub proof fn lemma_table_idx_unique(&self, i: int)
        requires
            self.wf(),
            0 <= i < self.tables@.len(),
        ensures
            self.table_idx(self.tables@[i].name@) == i,
    {
        let n = self.tables@[i].name@;
        assert(self.has_table(n));
        let j = self.table_idx(n);
        assert(self.table_name_seq()[i] == n);
        assert(self.table_name_seq()[j] == n);
    }

    /// Index counterpart of `lemma_table_idx_unique`.
    pub proof fn lemma_index_idx_unique(&self, i: int)
        requires
            self.wf(),
            0 <= i < self.indices@.len(),
        ensures
            self.index_idx(self.indices@[i].name@) == i,
    {
        let n = self.indices@[i].name@;
        assert(self.has_index(n));
        let j = self.index_idx(n);
        assert(self.index_name_seq()[i] == n);
        assert(self.index_name_seq()[j] == n);
    }

    /// Looks a table up by name.
    pub fn find_table(&self, name: &String) -> (r: Option<usize>)
        ensures
            match r {
                Some(i) => i < self.tables@.len() && self.tables@[i as int].name@ == name@,
                None => !self.has_table(name@),
            },
    {
        let mut i: usize = 0;
        while i < self.tables.len()
            invariant
                i <= self.tables@.len(),
                forall|j: int| 0 <= j < i ==> self.tables@[j].name@ != name@,
            decreases self.tables@.len() - i,
        {
            if self.tables[i].name == *name {
                return Some(i);
            }
            i = i + 1;
        }
        None
    }

    /// Looks an index up by name.
    pub fn find_index(&self, name: &String) -> (r: Option<usize>)
        ensures
            match r {
                Some(i) => i < self.indices@.len() && self.indices@[i as int].name@ == name@,
                None => !self.has_index(name@),
            },
    {
        let mut i: usize = 0;
        while i < self.indices.len()
            invariant
                i <= self.indices@.len(),
                forall|j: int| 0 <= j < i ==> self.indices@[j].name@ != name@,
            decreases self.indices@.len() - i,
        {
            if self.indices[i].name == *name {
                return Some(i);
            }
            i = i + 1;
        }
        None
    }

    /// Decides well-formedness at run time, so that callers outside the
    /// library can establish `wf` before planning a migration.
    pub fn check_wf(&self) -> (b: bool)
        ensures
            b == self.wf(),
    {
        let mut i: usize = 0;
        while i < self.tables.len()
            invariant
                i <= self.tables@.len(),
                forall|a: int, b: int|
                    0 <= a < b < i ==> self.table_name_seq()[a] != self.table_name_seq()[b],
                forall|a: int|
                    0 <= a < i ==> distinct_seq(col_name_seq(#[trigger] self.tables@[a].columns@)),
            decreases self.tables@.len() - i,
        {
            let mut j: usize = 0;
            while j < i
                invariant
                    j <= i < self.tables@.len(),
                    forall|b: int|
                        0 <= b < j ==> self.table_name_seq()[b] != self.table_name_seq()[i as int],
                decreases i - j,
            {
                if self.tables[j].name == self.tables[i].name {
                    proof {
                        assert(self.table_name_seq()[j as int] == self.table_name_seq()[i as int]);
                        assert(!distinct_seq(self.table_name_seq()));
                    }
                    return false;
                }
                j = j + 1;
            }
            if !check_distinct_cols(&self.tables[i].columns) {
                return false;
            }
            i = i + 1;
        }
        let mut i: usize = 0;
        while i < self.indices.len()
            invariant
                i <= self.indices@.len(),
                forall|a: int, b: int|
                    0 <= a < b < i ==> self.index_name_seq()[a] != self.index_name_seq()[b],
            decreases self.indices@.len() - i,
        {
            let mut j: usize = 0;
            while j < i
                invariant
                    j <= i < self.indices@.len(),
                    forall|b: int|
                        0 <= b < j ==> self.index_name_seq()[b] != self.index_name_seq()[i as int],
                decreases i - j,
            {
                if self.indices[j].name == self.indices[i].name {
                    proof {
                        assert(self.index_name_seq()[j as int] == self.index_name_seq()[i as int]);
                        assert(!distinct_seq(self.index_name_seq()));
                    }
                    return false;
                }
                j = j + 1;
            }
            i = i + 1;
        }
        true
    }
}

/// Decides whether the column names of one table are pairwise distinct.
fn check_distinct_cols(cols: &Vec<ColumnInfo>) -> (b: bool)
    ensures
        b == distinct_seq(col_name_seq(cols@)),
{
    let mut i: usize = 0;
    while i < cols.len()
        invariant
            i <= cols@.len(),
            forall|a: int, b: int|
                0 <= a < b < i ==> col_name_seq(cols@)[a] != col_name_seq(cols@)[b],
        decreases cols@.len() - i,
    {
        let mut j: usize = 0;
        while j < i
            invariant
                j <= i < cols@.len(),
                forall|b: int| 0 <= b < j ==> col_name_seq(cols@)[b] != col_name_seq(cols@)[i as int],
            decreases i - j,
        {
            if cols[j].name == cols[i].name {
                proof {
                    assert(col_name_seq(cols@)[j as int] == col_name_seq(cols@)[i as int]);
                    assert(!distinct_seq(col_name_seq(cols@)));
                }
                return false;
            }
            j = j + 1;
        }
        i = i + 1;
    }
    true
}

} // verus!
