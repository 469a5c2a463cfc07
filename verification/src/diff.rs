//! The diff engine.
//!
//! [`analyze_changes`] compares two snapshots (current and pristine) and
//! produces a [`ChangesNeeded`] plan: new, removed and modified tables (with
//! per-table column additions and removals), new, removed and modified
//! indices, and whether the `user_version` pragma changes.  A table or index
//! present on both sides counts as modified exactly when its normalized DDL
//! differs.  The plan is a pure function of the two snapshots; nothing here
//! touches a database.

use vstd::prelude::*;

verus! {

use crate::normalize::{normalize_spec, normalize_sql};
use crate::schema::{col_name_seq, ColumnInfo, SchemaSnapshot};

/// The set of (views of) a vector of names.
pub open spec fn name_set(v: Seq<String>) -> Set<Seq<char>> {
    Set::new(|n: Seq<char>| exists|i: int| 0 <= i < v.len() && v[i]@ == n)
}

/// No two names of the vector are equal.
pub open spec fn distinct_strings(v: Seq<String>) -> bool {
    forall|i: int, j: int| 0 <= i < j < v.len() ==> v[i]@ != v[j]@
}

/// Table names present in the target and absent from the current schema.
pub open spec fn spec_new_tables(c: &SchemaSnapshot, t: &SchemaSnapshot) -> Set<Seq<char>> {
    t.table_name_set().difference(c.table_name_set())
}

/// Table names present in the current schema and absent from the target.
pub open spec fn spec_removed_tables(c: &SchemaSnapshot, t: &SchemaSnapshot) -> Set<Seq<char>> {
    c.table_name_set().difference(t.table_name_set())
}

/// A table on both sides whose normalized DDL differs.
pub open spec fn table_modified(c: &SchemaSnapshot, t: &SchemaSnapshot, n: Seq<char>) -> bool {
    c.has_table(n) && t.has_table(n) && normalize_spec(c.table_sql(n)) != normalize_spec(
        t.table_sql(n),
    )
}

/// The names of all modified tables.
pub open spec fn spec_modified_tables(c: &SchemaSnapshot, t: &SchemaSnapshot) -> Set<Seq<char>> {
    Set::new(|n: Seq<char>| table_modified(c, t, n))
}

/// Columns of table `n` that the target drops.
pub open spec fn spec_removed_columns(c: &SchemaSnapshot, t: &SchemaSnapshot, n: Seq<char>) -> Set<
    Seq<char>,
> {
    c.table_col_set(n).difference(t.table_col_set(n))
}

/// Columns of table `n` that the target adds.
pub open spec fn spec_new_columns(c: &SchemaSnapshot, t: &SchemaSnapshot, n: Seq<char>) -> Set<
    Seq<char>,
> {
    t.table_col_set(n).difference(c.table_col_set(n))
}

/// Index names present in the target and absent from the current schema.
pub open spec fn spec_new_indices(c: &SchemaSnapshot, t: &SchemaSnapshot) -> Set<Seq<char>> {
    t.index_name_set().difference(c.index_name_set())
}

/// Index names present in the current schema and absent from the target.
pub open spec fn spec_removed_indices(c: &SchemaSnapshot, t: &SchemaSnapshot) -> Set<Seq<char>> {
    c.index_name_set().difference(t.index_name_set())
}

/// An index on both sides whose normalized DDL differs.
pub open spec fn index_modified(c: &SchemaSnapshot, t: &SchemaSnapshot, n: Seq<char>) -> bool {
    c.has_index(n) && t.has_index(n) && normalize_spec(c.index_sql(n)) != normalize_spec(
        t.index_sql(n),
    )
}

/// The names of all modified indices.
pub open spec fn spec_modified_indices(c: &SchemaSnapshot, t: &SchemaSnapshot) -> Set<Seq<char>> {
    Set::new(|n: Seq<char>| index_modified(c, t, n))
}

/// Whether the `user_version` pragma differs between the two snapshots.
pub open spec fn spec_pragma_change(c: &SchemaSnapshot, t: &SchemaSnapshot) -> bool {
    c.user_version != t.user_version
}

/// Whether the two snapshots differ at all.
pub open spec fn spec_has_changes(c: &SchemaSnapshot, t: &SchemaSnapshot) -> bool {
    !spec_new_tables(c, t).is_empty() || !spec_removed_tables(c, t).is_empty()
        || !spec_modified_tables(c, t).is_empty() || !spec_new_indices(c, t).is_empty()
        || !spec_removed_indices(c, t).is_empty() || !spec_modified_indices(c, t).is_empty()
        || spec_pragma_change(c, t)
}

/// Whether reconciling the two snapshots removes a table, an index or a
/// column from the current schema.
pub open spec fn spec_destructive(c: &SchemaSnapshot, t: &SchemaSnapshot) -> bool {
    !spec_removed_tables(c, t).is_empty() || !spec_removed_indices(c, t).is_empty() || exists|
        n: Seq<char>,
    |
        #[trigger] spec_modified_tables(c, t).contains(n) && !spec_removed_columns(
            c,
            t,
            n,
        ).is_empty()
}

/// One table whose shape changes: the columns the target drops and adds.
#[derive(Debug)]
pub struct ModifiedTable {
    pub name: String,
    pub removed_columns: Vec<String>,
    pub new_columns: Vec<String>,
}

/// The plan produced by the diff engine.
#[derive(Debug)]
pub struct ChangesNeeded {
    pub new_tables: Vec<String>,
    pub removed_tables: Vec<String>,
    pub modified_tables: Vec<ModifiedTable>,
    pub new_indices: Vec<String>,
    pub removed_indices: Vec<String>,
    pub modified_indices: Vec<String>,
    pub pragma_changes: bool,
}

/// One entry of `modified_tables` is faithful to the two snapshots.
pub open spec fn modified_entry_ok(m: ModifiedTable, c: &SchemaSnapshot, t: &SchemaSnapshot) -> bool {
    &&& table_modified(c, t, m.name@)
    &&& name_set(m.removed_columns@) == spec_removed_columns(c, t, m.name@)
    &&& distinct_strings(m.removed_columns@)
    &&& name_set(m.new_columns@) == spec_new_columns(c, t, m.name@)
    &&& distinct_strings(m.new_columns@)
}

/// The plan `ch` is exactly the diff of `c` against `t`.
pub open spec fn is_diff_of(ch: &ChangesNeeded, c: &SchemaSnapshot, t: &SchemaSnapshot) -> bool {
    &&& name_set(ch.new_tables@) == spec_new_tables(c, t)
    &&& distinct_strings(ch.new_tables@)
    &&& name_set(ch.removed_tables@) == spec_removed_tables(c, t)
    &&& distinct_strings(ch.removed_tables@)
    &&& name_set(ch.new_indices@) == spec_new_indices(c, t)
    &&& distinct_strings(ch.new_indices@)
    &&& name_set(ch.removed_indices@) == spec_removed_indices(c, t)
    &&& distinct_strings(ch.removed_indices@)
    &&& name_set(ch.modified_indices@) == spec_modified_indices(c, t)
    &&& distinct_strings(ch.modified_indices@)
    &&& forall|i: int|
        0 <= i < ch.modified_tables@.len() ==> modified_entry_ok(
            #[trigger] ch.modified_tables@[i],
            c,
            t,
        )
    &&& forall|n: Seq<char>|
        #[trigger] spec_modified_tables(c, t).contains(n) ==> exists|i: int|
            0 <= i < ch.modified_tables@.len() && ch.modified_tables@[i].name@ == n
    &&& forall|i: int, j: int|
        0 <= i < j < ch.modified_tables@.len() ==> ch.modified_tables@[i].name@
            != ch.modified_tables@[j].name@
    &&& ch.pragma_changes == spec_pragma_change(c, t)
}

impl ChangesNeeded {
    /// Whether any list of the plan is non-empty or the pragma changes.
    pub open spec fn spec_has_any_changes(&self) -> bool {
        self.new_tables@.len() > 0 || self.removed_tables@.len() > 0
            || self.modified_tables@.len() > 0 || self.new_indices@.len() > 0
            || self.removed_indices@.len() > 0 || self.modified_indices@.len() > 0
            || self.pragma_changes
    }

    /// Whether the plan removes a table, an index, or a column of a modified
    /// table.
    pub open spec fn spec_has_destructive_changes(&self) -> bool {
        self.removed_tables@.len() > 0 || self.removed_indices@.len() > 0 || exists|i: int|
            0 <= i < self.modified_tables@.len()
                && #[trigger] self.modified_tables@[i].removed_columns@.len() > 0
    }

    /// Whether the plan calls for any work at all.
    pub fn has_any_changes(&self) -> (b: bool)
        ensures
            b == self.spec_has_any_changes(),
    {
        self.new_tables.len() > 0 || self.removed_tables.len() > 0 || self.modified_tables.len()
            > 0 || self.new_indices.len() > 0 || self.removed_indices.len() > 0
            || self.modified_indices.len() > 0 || self.pragma_changes
    }

    /// Whether the plan is destructive.
    pub fn has_destructive_changes(&self) -> (b: bool)
        ensures
            b == self.spec_has_destructive_changes(),
    {
        if self.removed_tables.len() > 0 || self.removed_indices.len() > 0 {
            return true;
        }
        let mut i: usize = 0;
        while i < self.modified_tables.len()
            invariant
                i <= self.modified_tables@.len(),
                forall|j: int|
                    0 <= j < i ==> #[trigger] self.modified_tables@[j].removed_columns@.len() == 0,
                self.removed_tables@.len() == 0,
                self.removed_indices@.len() == 0,
            decreases self.modified_tables@.len() - i,
        {
            if self.modified_tables[i].removed_columns.len() > 0 {
                return true;
            }
            i = i + 1;
        }
        false
    }
}

/// Decides membership of a name in a vector of names.
pub(crate) fn names_contains(v: &Vec<String>, n: &String) -> (b: bool)
    ensures
        b == name_set(v@).contains(n@),
{
    let mut i: usize = 0;
    while i < v.len()
        invariant
            i <= v@.len(),
            forall|j: int| 0 <= j < i ==> v@[j]@ != n@,
        decreases v@.len() - i,
    {
        if v[i] == *n {
            return true;
        }
        i = i + 1;
    }
    false
}

/// Adding a name to a vector adds exactly that name to its name set.
pub proof fn lemma_name_set_push(s: Seq<String>, x: String)
    ensures
        name_set(s.push(x)) == name_set(s).insert(x@),
{
    assert forall|n: Seq<char>| name_set(s.push(x)).contains(n) implies name_set(s).insert(
        x@,
    ).contains(n) by {
        let i = choose|i: int| 0 <= i < s.push(x).len() && s.push(x)[i]@ == n;
        if i < s.len() {
            assert(s[i]@ == n);
        }
    };
    assert forall|n: Seq<char>| name_set(s).insert(x@).contains(n) implies name_set(
        s.push(x),
    ).contains(n) by {
        if n == x@ {
            assert(s.push(x)[s.len() as int]@ == n);
        } else {
            let i = choose|i: int| 0 <= i < s.len() && s[i]@ == n;
            assert(s.push(x)[i]@ == n);
        }
    };
    assert(name_set(s.push(x)) =~= name_set(s).insert(x@));
}

/// Every entry of a name vector is in its name set.
pub proof fn lemma_name_set_index(s: Seq<String>, i: int)
    requires
        0 <= i < s.len(),
    ensures
        name_set(s).contains(s[i]@),
{
}

/// The entries of `a` whose names do not occur in `b`, in the order of `a`.
pub open spec fn spec_diff_seq(a: Seq<String>, b: Seq<String>) -> Seq<String>
    decreases a.len(),
{
    if a.len() == 0 {
        Seq::empty()
    } else {
        let rest = spec_diff_seq(a.drop_last(), b);
        if !name_set(b).contains(a.last()@) {
            rest.push(a.last())
        } else {
            rest
        }
    }
}

/// What `spec_diff_seq` computes: a duplicate-free vector whose name set is
/// the set difference.
pub proof fn lemma_spec_diff_seq(a: Seq<String>, b: Seq<String>)
    requires
        distinct_strings(a),
    ensures
        distinct_strings(spec_diff_seq(a, b)),
        name_set(spec_diff_seq(a, b)) == name_set(a).difference(name_set(b)),
    decreases a.len(),
{
    if a.len() == 0 {
        assert(name_set(spec_diff_seq(a, b)) =~= name_set(a).difference(name_set(b)));
    } else {
        let fore = a.drop_last();
        let x = a.last();
        assert(distinct_strings(fore));
        lemma_spec_diff_seq(fore, b);
        assert(fore.push(x) =~= a);
        lemma_name_set_push(fore, x);
        let rest = spec_diff_seq(fore, b);
        if !name_set(b).contains(x@) {
            // distinctness: x differs from every earlier entry
            assert(forall|i: int| 0 <= i < fore.len() ==> #[trigger] fore[i]@ != x@);
            assert forall|k: int| 0 <= k < rest.len() implies rest[k]@ != x@ by {
                lemma_name_set_index(rest, k);
                assert(name_set(fore).contains(rest[k]@));
                if rest[k]@ == x@ {
                    let i = choose|i: int| 0 <= i < fore.len() && fore[i]@ == x@;
                }
            };
            assert(distinct_strings(rest.push(x)));
            lemma_name_set_push(rest, x);
            assert(name_set(spec_diff_seq(a, b)) =~= name_set(a).difference(name_set(b)));
        } else {
            assert(name_set(spec_diff_seq(a, b)) =~= name_set(a).difference(name_set(b)));
        }
    }
}

/// The names of `a` that do not occur in `b`, in the order of `a`.
fn names_difference(a: &Vec<String>, b: &Vec<String>) -> (r: Vec<String>)
    requires
        distinct_strings(a@),
    ensures
        r@ == spec_diff_seq(a@, b@),
        distinct_strings(r@),
        name_set(r@) == name_set(a@).difference(name_set(b@)),
{
    let mut r: Vec<String> = Vec::new();
    let mut i: usize = 0;
    proof {
        assert(a@.take(0) =~= Seq::<String>::empty());
    }
    while i < a.len()
        invariant
            i <= a@.len(),
            r@ == spec_diff_seq(a@.take(i as int), b@),
        decreases a@.len() - i,
    {
        let ghost pre = a@.take(i as int);
        proof {
            assert(a@.take(i + 1).drop_last() =~= pre);
            assert(a@.take(i + 1).last() == a@[i as int]);
        }
        if !names_contains(b, &a[i]) {
            r.push(a[i].clone());
        }
        i = i + 1;
    }
    proof {
        assert(a@.take(a@.len() as int) =~= a@);
        lemma_spec_diff_seq(a@, b@);
    }
    r
}

/// The entries of `names` whose views satisfy `p`, in order.
pub open spec fn filter_names(names: Seq<String>, p: spec_fn(Seq<char>) -> bool) -> Seq<String>
    decreases names.len(),
{
    if names.len() == 0 {
        Seq::empty()
    } else {
        let rest = filter_names(names.drop_last(), p);
        if p(names.last()@) {
            rest.push(names.last())
        } else {
            rest
        }
    }
}

/// What `filter_names` computes: a duplicate-free vector whose name set is
/// the filtered name set.
pub proof fn lemma_filter_names(names: Seq<String>, p: spec_fn(Seq<char>) -> bool)
    requires
        distinct_strings(names),
    ensures
        distinct_strings(filter_names(names, p)),
        name_set(filter_names(names, p)) == name_set(names).filter(p),
    decreases names.len(),
{
    if names.len() == 0 {
        assert(name_set(filter_names(names, p)) =~= name_set(names).filter(p));
    } else {
        let fore = names.drop_last();
        let x = names.last();
        assert(distinct_strings(fore));
        lemma_filter_names(fore, p);
        assert(fore.push(x) =~= names);
        lemma_name_set_push(fore, x);
        let rest = filter_names(fore, p);
        if p(x@) {
            assert(forall|i: int| 0 <= i < fore.len() ==> #[trigger] fore[i]@ != x@);
            assert forall|k: int| 0 <= k < rest.len() implies rest[k]@ != x@ by {
                lemma_name_set_index(rest, k);
                assert(name_set(fore).contains(rest[k]@));
                if rest[k]@ == x@ {
                    let i = choose|i: int| 0 <= i < fore.len() && fore[i]@ == x@;
                }
            };
            assert(distinct_strings(rest.push(x)));
            lemma_name_set_push(rest, x);
            assert(name_set(filter_names(names, p)) =~= name_set(names).filter(p));
        } else {
            assert(name_set(filter_names(names, p)) =~= name_set(names).filter(p));
        }
    }
}

/// The table names of a snapshot, in catalog order.
fn table_names_vec(s: &SchemaSnapshot) -> (r: Vec<String>)
    ensures
        r@.len() == s.tables@.len(),
        forall|k: int| 0 <= k < r@.len() ==> r@[k] == #[trigger] s.tables@[k].name,
        name_set(r@) == s.table_name_set(),
        s.wf() ==> distinct_strings(r@),
{
    let mut r: Vec<String> = Vec::new();
    let mut i: usize = 0;
    while i < s.tables.len()
        invariant
            i <= s.tables@.len(),
            r@.len() == i,
            forall|k: int| 0 <= k < i ==> r@[k] == #[trigger] s.tables@[k].name,
        decreases s.tables@.len() - i,
    {
        r.push(s.tables[i].name.clone());
        i = i + 1;
    }
    proof {
        assert forall|n: Seq<char>| name_set(r@).contains(n) implies s.table_name_set().contains(
            n,
        ) by {
            let k = choose|k: int| 0 <= k < r@.len() && r@[k]@ == n;
            assert(s.tables@[k].name@ == n);
        };
        assert forall|n: Seq<char>| s.table_name_set().contains(n) implies name_set(r@).contains(
            n,
        ) by {
            let k = choose|k: int| 0 <= k < s.tables@.len() && s.tables@[k].name@ == n;
            assert(r@[k]@ == n);
        };
        assert(name_set(r@) =~= s.table_name_set());
        if s.wf() {
            assert forall|x: int, y: int| 0 <= x < y < r@.len() implies r@[x]@ != r@[y]@ by {
                assert(s.table_name_seq()[x] != s.table_name_seq()[y]);
            };
        }
    }
    r
}

/// The index names of a snapshot, in catalog order.
fn index_names_vec(s: &SchemaSnapshot) -> (r: Vec<String>)
    ensures
        r@.len() == s.indices@.len(),
        forall|k: int| 0 <= k < r@.len() ==> r@[k] == #[trigger] s.indices@[k].name,
        name_set(r@) == s.index_name_set(),
        s.wf() ==> distinct_strings(r@),
{
    let mut r: Vec<String> = Vec::new();
    let mut i: usize = 0;
    while i < s.indices.len()
        invariant
            i <= s.indices@.len(),
            r@.len() == i,
            forall|k: int| 0 <= k < i ==> r@[k] == #[trigger] s.indices@[k].name,
        decreases s.indices@.len() - i,
    {
        r.push(s.indices[i].name.clone());
        i = i + 1;
    }
    proof {
        assert forall|n: Seq<char>| name_set(r@).contains(n) implies s.index_name_set().contains(
            n,
        ) by {
            let k = choose|k: int| 0 <= k < r@.len() && r@[k]@ == n;
            assert(s.indices@[k].name@ == n);
        };
        assert forall|n: Seq<char>| s.index_name_set().contains(n) implies name_set(r@).contains(
            n,
        ) by {
            let k = choose|k: int| 0 <= k < s.indices@.len() && s.indices@[k].name@ == n;
            assert(r@[k]@ == n);
        };
        assert(name_set(r@) =~= s.index_name_set());
        if s.wf() {
            assert forall|x: int, y: int| 0 <= x < y < r@.len() implies r@[x]@ != r@[y]@ by {
                assert(s.index_name_seq()[x] != s.index_name_seq()[y]);
            };
        }
    }
    r
}

/// The column names of one table, in declaration order.
pub fn col_names_vec(cols: &Vec<ColumnInfo>) -> (r: Vec<String>)
    ensures
        r@.len() == cols@.len(),
        forall|k: int| 0 <= k < r@.len() ==> r@[k] == #[trigger] cols@[k].name,
        forall|k: int| 0 <= k < r@.len() ==> r@[k]@ == col_name_seq(cols@)[k],
        name_set(r@) == col_name_seq(cols@).to_set(),
        distinct_seq_strings_iff(r@, col_name_seq(cols@)),
{
    let mut r: Vec<String> = Vec::new();
    let mut i: usize = 0;
    while i < cols.len()
        invariant
            i <= cols@.len(),
            r@.len() == i,
            forall|k: int| 0 <= k < i ==> r@[k] == #[trigger] cols@[k].name,
        decreases cols@.len() - i,
    {
        r.push(cols[i].name.clone());
        i = i + 1;
    }
    proof {
        assert forall|n: Seq<char>| name_set(r@).contains(n) implies col_name_seq(
            cols@,
        ).to_set().contains(n) by {
            let k = choose|k: int| 0 <= k < r@.len() && r@[k]@ == n;
            assert(col_name_seq(cols@)[k] == n);
        };
        assert forall|n: Seq<char>| col_name_seq(cols@).to_set().contains(n) implies name_set(
            r@,
        ).contains(n) by {
            let k = choose|k: int| 0 <= k < col_name_seq(cols@).len() && col_name_seq(cols@)[k]
                == n;
            assert(r@[k]@ == n);
        };
        assert(name_set(r@) =~= col_name_seq(cols@).to_set());
        if crate::schema::distinct_seq(col_name_seq(cols@)) {
            assert forall|x: int, y: int| 0 <= x < y < r@.len() implies r@[x]@ != r@[y]@ by {
                assert(col_name_seq(cols@)[x] != col_name_seq(cols@)[y]);
            };
        }
        if distinct_strings(r@) {
            assert forall|x: int, y: int|
                0 <= x < y < col_name_seq(cols@).len() implies col_name_seq(cols@)[x]
                != col_name_seq(cols@)[y] by {
                assert(r@[x]@ != r@[y]@);
            };
        }
    }
    r
}

/// `a` is duplicate-free exactly when `b` is; used to carry distinctness from
/// a snapshot's column list to its extracted name vector.
pub open spec fn distinct_seq_strings_iff(a: Seq<String>, b: Seq<Seq<char>>) -> bool {
    distinct_strings(a) <==> crate::schema::distinct_seq(b)
}


/// Compares the current snapshot with the pristine target snapshot and
/// produces the plan of changes.  Pure: the plan is a function of the two
/// snapshots alone; ordering within each list is unspecified.
pub fn analyze_changes(current: &SchemaSnapshot, target: &SchemaSnapshot) -> (r: ChangesNeeded)
    requires
        current.wf(),
        target.wf(),
    ensures
        is_diff_of(&r, current, target),
{
    let current_tables = table_names_vec(current);
    let target_tables = table_names_vec(target);
    let new_tables = names_difference(&target_tables, &current_tables);
    let removed_tables = names_difference(&current_tables, &target_tables);

    let current_indices = index_names_vec(current);
    let target_indices = index_names_vec(target);
    let new_indices = names_difference(&target_indices, &current_indices);
    let removed_indices = names_difference(&current_indices, &target_indices);

    let ghost tmod = |n: Seq<char>| table_modified(current, target, n);
    let mut modified_tables: Vec<ModifiedTable> = Vec::new();
    let mut i: usize = 0;
    proof {
        assert(current_tables@.take(0) =~= Seq::<String>::empty());
        assert(modified_tables@.map_values(|m: ModifiedTable| m.name) =~= Seq::<String>::empty());
    }
    while i < current.tables.len()
        invariant
            i <= current.tables@.len(),
            current.wf(),
            target.wf(),
            current_tables@.len() == current.tables@.len(),
            forall|k: int|
                0 <= k < current_tables@.len() ==> current_tables@[k] == #[trigger] current.tables@[
                    k
                ].name,
            modified_tables@.map_values(|m: ModifiedTable| m.name) == filter_names(
                current_tables@.take(i as int),
                tmod,
            ),
            tmod == |n: Seq<char>| table_modified(current, target, n),
            forall|k: int|
                0 <= k < modified_tables@.len() ==> modified_entry_ok(
                    #[trigger] modified_tables@[k],
                    current,
                    target,
                ),
        decreases current.tables@.len() - i,
    {
        let ghost pre = current_tables@.take(i as int);
        let ghost names0 = modified_tables@.map_values(|m: ModifiedTable| m.name);
        proof {
            assert(current_tables@.take(i + 1).drop_last() =~= pre);
            assert(current_tables@.take(i + 1).last() == current_tables@[i as int]);
        }
        let name = &current.tables[i].name;
        match target.find_table(name) {
            Some(ti) => {
                proof {
                    current.lemma_table_idx_unique(i as int);
                    target.lemma_table_idx_unique(ti as int);
                }
                let cn = normalize_sql(current.tables[i].info.sql.as_str());
                let tn = normalize_sql(target.tables[ti].info.sql.as_str());
                if cn == tn {
                    proof {
                        assert(!table_modified(current, target, name@));
                        assert(modified_tables@.map_values(|m: ModifiedTable| m.name)
                            == filter_names(current_tables@.take(i + 1), tmod));
                    }
                } else {
                    proof {
                        assert(table_modified(current, target, name@));
                        assert(crate::schema::distinct_seq(
                            col_name_seq(current.tables@[i as int].columns@),
                        ));
                        assert(crate::schema::distinct_seq(
                            col_name_seq(target.tables@[ti as int].columns@),
                        ));
                    }
                    let cur_cols = col_names_vec(&current.tables[i].columns);
                    let tgt_cols = col_names_vec(&target.tables[ti].columns);
                    let removed_columns = names_difference(&cur_cols, &tgt_cols);
                    let new_columns = names_difference(&tgt_cols, &cur_cols);
                    let entry = ModifiedTable { name: name.clone(), removed_columns, new_columns };
                    proof {
                        assert(name_set(cur_cols@) =~= current.table_col_set(name@));
                        assert(name_set(tgt_cols@) =~= target.table_col_set(name@));
                        assert(modified_entry_ok(entry, current, target));
                    }
                    modified_tables.push(entry);
                    proof {
                        assert(modified_tables@.map_values(|m: ModifiedTable| m.name)
                            =~= names0.push(current_tables@[i as int]));
                    }
                }
            },
            None => {
                proof {
                    assert(!table_modified(current, target, name@));
                    assert(modified_tables@.map_values(|m: ModifiedTable| m.name) == filter_names(
                        current_tables@.take(i + 1),
                        tmod,
                    ));
                }
            },
        }
        i = i + 1;
    }
    let ghost mt_names = modified_tables@.map_values(|m: ModifiedTable| m.name);
    proof {
        assert(current_tables@.take(current_tables@.len() as int) =~= current_tables@);
        lemma_filter_names(current_tables@, tmod);
        assert forall|n: Seq<char>| #[trigger] spec_modified_tables(current, target).contains(
            n,
        ) implies exists|k: int|
            0 <= k < modified_tables@.len() && modified_tables@[k].name@ == n by {
            assert(table_modified(current, target, n));
            assert(tmod(n));
            assert(current.has_table(n));
            assert(name_set(current_tables@).contains(n));
            assert(name_set(current_tables@).filter(tmod).contains(n));
            assert(mt_names == filter_names(current_tables@, tmod));
            assert(name_set(mt_names).contains(n));
            let k = choose|k: int| 0 <= k < mt_names.len() && mt_names[k]@ == n;
            assert(modified_tables@[k].name@ == n);
        };
        assert forall|x: int, y: int| 0 <= x < y < modified_tables@.len() implies modified_tables@[
            x
        ].name@ != modified_tables@[y].name@ by {
            assert(mt_names[x]@ != mt_names[y]@);
        };
    }

    let ghost imod = |n: Seq<char>| index_modified(current, target, n);
    let mut modified_indices: Vec<String> = Vec::new();
    let mut i: usize = 0;
    proof {
        assert(current_indices@.take(0) =~= Seq::<String>::empty());
    }
    while i < current.indices.len()
        invariant
            i <= current.indices@.len(),
            current.wf(),
            target.wf(),
            current_indices@.len() == current.indices@.len(),
            forall|k: int|
                0 <= k < current_indices@.len() ==> current_indices@[k]
                    == #[trigger] current.indices@[k].name,
            modified_indices@ == filter_names(current_indices@.take(i as int), imod),
            imod == |n: Seq<char>| index_modified(current, target, n),
        decreases current.indices@.len() - i,
    {
        let ghost pre = current_indices@.take(i as int);
        proof {
            assert(current_indices@.take(i + 1).drop_last() =~= pre);
            assert(current_indices@.take(i + 1).last() == current_indices@[i as int]);
        }
        let name = &current.indices[i].name;
        match target.find_index(name) {
            Some(ti) => {
                proof {
                    current.lemma_index_idx_unique(i as int);
                    target.lemma_index_idx_unique(ti as int);
                }
                let cn = normalize_sql(current.indices[i].info.sql.as_str());
                let tn = normalize_sql(target.indices[ti].info.sql.as_str());
                if cn == tn {
                    proof {
                        assert(!index_modified(current, target, name@));
                    }
                } else {
                    proof {
                        assert(index_modified(current, target, name@));
                    }
                    modified_indices.push(name.clone());
                }
            },
            None => {
                proof {
                    assert(!index_modified(current, target, name@));
                }
            },
        }
        i = i + 1;
    }
    proof {
        assert(current_indices@.take(current_indices@.len() as int) =~= current_indices@);
        lemma_filter_names(current_indices@, imod);
        assert forall|n: Seq<char>| name_set(modified_indices@).contains(n) implies
            spec_modified_indices(current, target).contains(n) by {};
        assert forall|n: Seq<char>| spec_modified_indices(current, target).contains(n) implies
            name_set(modified_indices@).contains(n) by {
            assert(index_modified(current, target, n));
            assert(current.has_index(n));
            assert(name_set(current_indices@).contains(n));
        };
        assert(name_set(modified_indices@) =~= spec_modified_indices(current, target));
    }

    let pragma_changes = current.user_version != target.user_version;
    let r = ChangesNeeded {
        new_tables,
        removed_tables,
        modified_tables,
        new_indices,
        removed_indices,
        modified_indices,
        pragma_changes,
    };
    proof {
        assert forall|n: Seq<char>| #[trigger] spec_modified_tables(current, target).contains(
            n,
        ) implies exists|k: int|
            0 <= k < r.modified_tables@.len() && r.modified_tables@[k].name@ == n by {
            assert(name_set(mt_names).contains(n));
            let k = choose|k: int| 0 <= k < mt_names.len() && mt_names[k]@ == n;
            assert(r.modified_tables@[k].name@ == n);
        };
    }
    r
}


/// The two snapshots agree: same table and index names, equal normalized DDL
/// for every shared name, and the same `user_version`.
pub open spec fn snapshots_converged(c: &SchemaSnapshot, t: &SchemaSnapshot) -> bool {
    &&& c.table_name_set() == t.table_name_set()
    &&& forall|n: Seq<char>|
        #[trigger] c.has_table(n) && t.has_table(n) ==> normalize_spec(c.table_sql(n))
            == normalize_spec(t.table_sql(n))
    &&& c.index_name_set() == t.index_name_set()
    &&& forall|n: Seq<char>|
        #[trigger] c.has_index(n) && t.has_index(n) ==> normalize_spec(c.index_sql(n))
            == normalize_spec(t.index_sql(n))
    &&& c.user_version == t.user_version
}

/// Convergence: the diff engine reports no changes exactly when the two
/// snapshots agree.  In particular, after a migration has made the live
/// schema match the target, planning the same target again reports nothing
/// to do.
pub proof fn lemma_no_changes_iff_converged(c: &SchemaSnapshot, t: &SchemaSnapshot)
    ensures
        spec_has_changes(c, t) <==> !snapshots_converged(c, t),
{
    if snapshots_converged(c, t) {
        assert(spec_new_tables(c, t) =~= Set::<Seq<char>>::empty());
        assert(spec_removed_tables(c, t) =~= Set::<Seq<char>>::empty());
        assert forall|n: Seq<char>| !(#[trigger] spec_modified_tables(c, t).contains(n)) by {
            if table_modified(c, t, n) {
                assert(c.has_table(n) && t.has_table(n));
            }
        };
        assert(spec_modified_tables(c, t) =~= Set::<Seq<char>>::empty());
        assert(spec_new_indices(c, t) =~= Set::<Seq<char>>::empty());
        assert(spec_removed_indices(c, t) =~= Set::<Seq<char>>::empty());
        assert forall|n: Seq<char>| !(#[trigger] spec_modified_indices(c, t).contains(n)) by {
            if index_modified(c, t, n) {
                assert(c.has_index(n) && t.has_index(n));
            }
        };
        assert(spec_modified_indices(c, t) =~= Set::<Seq<char>>::empty());
        assert(!spec_has_changes(c, t));
    }
    if !snapshots_converged(c, t) {
        if c.table_name_set() != t.table_name_set() {
            assert(!(c.table_name_set() =~= t.table_name_set()));
            let n = choose|n: Seq<char>|
                c.table_name_set().contains(n) != t.table_name_set().contains(n);
            if t.table_name_set().contains(n) {
                assert(spec_new_tables(c, t).contains(n));
            } else {
                assert(spec_removed_tables(c, t).contains(n));
            }
            assert(spec_has_changes(c, t));
        } else if exists|n: Seq<char>|
            #[trigger] c.has_table(n) && t.has_table(n) && normalize_spec(c.table_sql(n))
                != normalize_spec(t.table_sql(n)) {
            let n = choose|n: Seq<char>|
                #[trigger] c.has_table(n) && t.has_table(n) && normalize_spec(c.table_sql(n))
                    != normalize_spec(t.table_sql(n));
            assert(spec_modified_tables(c, t).contains(n));
            assert(spec_has_changes(c, t));
        } else if c.index_name_set() != t.index_name_set() {
            assert(!(c.index_name_set() =~= t.index_name_set()));
            let n = choose|n: Seq<char>|
                c.index_name_set().contains(n) != t.index_name_set().contains(n);
            if t.index_name_set().contains(n) {
                assert(spec_new_indices(c, t).contains(n));
            } else {
                assert(spec_removed_indices(c, t).contains(n));
            }
            assert(spec_has_changes(c, t));
        } else if exists|n: Seq<char>|
            #[trigger] c.has_index(n) && t.has_index(n) && normalize_spec(c.index_sql(n))
                != normalize_spec(t.index_sql(n)) {
            let n = choose|n: Seq<char>|
                #[trigger] c.has_index(n) && t.has_index(n) && normalize_spec(c.index_sql(n))
                    != normalize_spec(t.index_sql(n));
            assert(spec_modified_indices(c, t).contains(n));
            assert(spec_has_changes(c, t));
        } else {
            assert(c.user_version != t.user_version);
            assert(spec_has_changes(c, t));
        }
    }
}

/// Idempotence at the model level: a snapshot diffed against itself yields
/// no changes.
pub proof fn lemma_self_diff_no_changes(s: &SchemaSnapshot)
    ensures
        !spec_has_changes(s, s),
{
    lemma_no_changes_iff_converged(s, s);
}

/// Normalization soundness for tables: two DDL texts with equal normalized
/// forms are treated as equivalent, so the table is not reported modified.
pub proof fn lemma_normalized_equal_table_unchanged(
    c: &SchemaSnapshot,
    t: &SchemaSnapshot,
    n: Seq<char>,
)
    requires
        normalize_spec(c.table_sql(n)) == normalize_spec(t.table_sql(n)),
    ensures
        !spec_modified_tables(c, t).contains(n),
{
}

/// Normalization soundness for indices.
pub proof fn lemma_normalized_equal_index_unchanged(
    c: &SchemaSnapshot,
    t: &SchemaSnapshot,
    n: Seq<char>,
)
    requires
        normalize_spec(c.index_sql(n)) == normalize_spec(t.index_sql(n)),
    ensures
        !spec_modified_indices(c, t).contains(n),
{
}

/// Convergence: once the live schema matches the target -- which is what a
/// successful migration leaves behind -- planning the same target again
/// finds nothing to do, so a second run reports no change.
pub proof fn lemma_converged_plan_reports_no_change(c: &SchemaSnapshot, t: &SchemaSnapshot)
    requires
        snapshots_converged(c, t),
    ensures
        !spec_has_changes(c, t),
{
    lemma_no_changes_iff_converged(c, t);
}

/// A faithful plan reports changes exactly when the snapshots differ, and a
/// destructive plan exactly when reconciling them removes something.
pub proof fn lemma_changes_iff(ch: &ChangesNeeded, c: &SchemaSnapshot, t: &SchemaSnapshot)
    requires
        is_diff_of(ch, c, t),
    ensures
        ch.spec_has_any_changes() <==> spec_has_changes(c, t),
        ch.spec_has_destructive_changes() <==> spec_destructive(c, t),
{
    lemma_vec_set_nonempty_iff(ch.new_tables@, spec_new_tables(c, t));
    lemma_vec_set_nonempty_iff(ch.removed_tables@, spec_removed_tables(c, t));
    lemma_vec_set_nonempty_iff(ch.new_indices@, spec_new_indices(c, t));
    lemma_vec_set_nonempty_iff(ch.removed_indices@, spec_removed_indices(c, t));
    lemma_vec_set_nonempty_iff(ch.modified_indices@, spec_modified_indices(c, t));
    // modified tables: vector non-empty iff the modified set is non-empty
    if ch.modified_tables@.len() > 0 {
        assert(modified_entry_ok(ch.modified_tables@[0], c, t));
        assert(spec_modified_tables(c, t).contains(ch.modified_tables@[0].name@));
        assert(!spec_modified_tables(c, t).is_empty());
    }
    if !spec_modified_tables(c, t).is_empty() {
        let n = spec_modified_tables(c, t).choose();
        assert(spec_modified_tables(c, t).contains(n));
        assert(ch.modified_tables@.len() > 0);
    }
    // destructive: some entry with removed columns iff some modified name
    // with a non-empty removed set
    if exists|i: int|
        0 <= i < ch.modified_tables@.len()
            && #[trigger] ch.modified_tables@[i].removed_columns@.len() > 0 {
        let i = choose|i: int|
            0 <= i < ch.modified_tables@.len()
                && #[trigger] ch.modified_tables@[i].removed_columns@.len() > 0;
        let m = ch.modified_tables@[i];
        assert(modified_entry_ok(m, c, t));
        lemma_name_set_index(m.removed_columns@, 0);
        assert(spec_removed_columns(c, t, m.name@).contains(m.removed_columns@[0]@));
        assert(spec_modified_tables(c, t).contains(m.name@) && !spec_removed_columns(
            c,
            t,
            m.name@,
        ).is_empty());
    }
    if exists|n: Seq<char>|
        #[trigger] spec_modified_tables(c, t).contains(n) && !spec_removed_columns(
            c,
            t,
            n,
        ).is_empty() {
        let n = choose|n: Seq<char>|
            #[trigger] spec_modified_tables(c, t).contains(n) && !spec_removed_columns(
                c,
                t,
                n,
            ).is_empty();
        let i = choose|i: int|
            0 <= i < ch.modified_tables@.len() && ch.modified_tables@[i].name@ == n;
        let m = ch.modified_tables@[i];
        assert(modified_entry_ok(m, c, t));
        let col = spec_removed_columns(c, t, n).choose();
        assert(spec_removed_columns(c, t, n).contains(col));
        assert(name_set(m.removed_columns@).contains(col));
        assert(m.removed_columns@.len() > 0);
    }
}

/// A vector faithful to a set is non-empty exactly when the set is.
proof fn lemma_vec_set_nonempty_iff(v: Seq<String>, s: Set<Seq<char>>)
    requires
        name_set(v) == s,
    ensures
        v.len() > 0 <==> !s.is_empty(),
{
    if v.len() > 0 {
        lemma_name_set_index(v, 0);
        assert(s.contains(v[0]@));
        assert(!s.is_empty());
    }
    if !s.is_empty() {
        let n = s.choose();
        assert(s.contains(n));
        assert(v.len() > 0);
    }
}

/// The plan's lists partition cleanly: a table name appears in at most one
/// of new, removed and modified, and an index name in at most one of new,
/// removed and modified.
pub proof fn lemma_plan_lists_disjoint(ch: &ChangesNeeded, c: &SchemaSnapshot, t: &SchemaSnapshot)
    requires
        is_diff_of(ch, c, t),
    ensures
        forall|n: Seq<char>|
            !(name_set(ch.new_tables@).contains(n) && name_set(ch.removed_tables@).contains(n)),
        forall|i: int|
            0 <= i < ch.modified_tables@.len() ==> !name_set(ch.new_tables@).contains(
                #[trigger] ch.modified_tables@[i].name@,
            ) && !name_set(ch.removed_tables@).contains(ch.modified_tables@[i].name@),
        forall|n: Seq<char>|
            !(name_set(ch.new_indices@).contains(n) && name_set(ch.removed_indices@).contains(n)),
        forall|n: Seq<char>|
            !(name_set(ch.modified_indices@).contains(n) && (name_set(
                ch.new_indices@,
            ).contains(n) || name_set(ch.removed_indices@).contains(n))),
{
    assert forall|i: int| 0 <= i < ch.modified_tables@.len() implies !name_set(
        ch.new_tables@,
    ).contains(#[trigger] ch.modified_tables@[i].name@) && !name_set(
        ch.removed_tables@,
    ).contains(ch.modified_tables@[i].name@) by {
        assert(modified_entry_ok(ch.modified_tables@[i], c, t));
    };
}

/// A destructive reconciliation is in particular a change.
pub proof fn lemma_destructive_implies_changes(c: &SchemaSnapshot, t: &SchemaSnapshot)
    requires
        spec_destructive(c, t),
    ensures
        spec_has_changes(c, t),
{
    if !spec_removed_tables(c, t).is_empty() || !spec_removed_indices(c, t).is_empty() {
    } else {
        let n = choose|n: Seq<char>|
            #[trigger] spec_modified_tables(c, t).contains(n) && !spec_removed_columns(
                c,
                t,
                n,
            ).is_empty();
        assert(spec_modified_tables(c, t).contains(n));
        assert(!spec_modified_tables(c, t).is_empty());
    }
}

} // verus!
