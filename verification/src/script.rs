//! The executor's script.
//!
//! An approved plan is turned into the ordered list of SQL statements that
//! the application executes inside one transaction: new tables first, then
//! modified-table rebuilds (create a temporary table from the rewritten
//! target DDL, copy the common columns, drop the old table, rename the
//! temporary one into place), then table drops, index reconciliation, and
//! the `user_version` pragma.  The step order is mandatory: it keeps
//! foreign-key relationships resolvable by commit time.

use vstd::prelude::*;

verus! {

use vstd::string::{StringExecFns, StrSliceExecFns};
use crate::diff::{
    is_diff_of, lemma_name_set_index, name_set, ChangesNeeded, col_names_vec, modified_entry_ok,
    spec_new_tables, spec_new_indices, spec_modified_indices, table_modified, index_modified,
};
use crate::error::{MigrationError, MigrationErrorKind};
use crate::schema::SchemaSnapshot;
use crate::text::{chars_string, i64_string, join_names, spec_i64_str, spec_join, str_chars, str_views};

/// One schema statement of the script: what it does, and its SQL text.
#[derive(Debug)]
pub struct SchemaStatement {
    pub description: String,
    pub sql: String,
}

/// The (description, sql) views of a script.
pub open spec fn stmt_views(s: Seq<SchemaStatement>) -> Seq<(Seq<char>, Seq<char>)> {
    s.map_values(|st: SchemaStatement| (st.description@, st.sql@))
}

/// The temporary name a table is rebuilt under.
pub open spec fn temp_table_name(n: Seq<char>) -> Seq<char> {
    n + "_migration_new"@
}

/// `DROP TABLE <n>`.
pub open spec fn drop_table_sql(n: Seq<char>) -> Seq<char> {
    "DROP TABLE "@ + n
}

/// `DROP INDEX <n>`.
pub open spec fn drop_index_sql(n: Seq<char>) -> Seq<char> {
    "DROP INDEX "@ + n
}

/// `ALTER TABLE <temp> RENAME TO <n>`.
pub open spec fn rename_table_sql(n: Seq<char>) -> Seq<char> {
    "ALTER TABLE "@ + temp_table_name(n) + " RENAME TO "@ + n
}

/// `INSERT INTO <temp> (<cols>) SELECT <cols> FROM <n>`; the insert list and
/// the select list are the same columns in the same order.
pub open spec fn copy_sql(n: Seq<char>, cols: Seq<Seq<char>>) -> Seq<char> {
    "INSERT INTO "@ + temp_table_name(n) + " ("@ + spec_join(cols, ", "@) + ") SELECT "@
        + spec_join(cols, ", "@) + " FROM "@ + n
}

/// `PRAGMA user_version = <v>`.
pub open spec fn pragma_sql(v: int) -> Seq<char> {
    "PRAGMA user_version = "@ + spec_i64_str(v)
}

/// The target DDL of table `n` with the leading `CREATE TABLE <n>` rewritten
/// to the temporary name.  Only the leading token is substituted; a DDL that
/// does not start with that exact text is left unchanged.
pub open spec fn rewrite_create_spec(n: Seq<char>, sql: Seq<char>) -> Seq<char> {
    let prefix = "CREATE TABLE "@ + n;
    if sql.len() >= prefix.len() && sql.subrange(0, prefix.len() as int) == prefix {
        "CREATE TABLE "@ + temp_table_name(n) + sql.skip(prefix.len() as int)
    } else {
        sql
    }
}

/// The entries of `cols` that belong to `keep`, in order.
pub open spec fn filter_cols(cols: Seq<Seq<char>>, keep: Set<Seq<char>>) -> Seq<Seq<char>>
    decreases cols.len(),
{
    if cols.len() == 0 {
        Seq::empty()
    } else {
        let rest = filter_cols(cols.drop_last(), keep);
        if keep.contains(cols.last()) {
            rest.push(cols.last())
        } else {
            rest
        }
    }
}

/// The columns present on both sides of a rebuild, in the current table's
/// column order.  Rows keep exactly these columns.
pub open spec fn spec_common_columns(c: &SchemaSnapshot, t: &SchemaSnapshot, n: Seq<char>) -> Seq<
    Seq<char>,
> {
    filter_cols(c.table_cols(n), t.table_col_set(n))
}

/// Membership in a filtered column list.
proof fn lemma_filter_cols_membership(cols: Seq<Seq<char>>, keep: Set<Seq<char>>, x: Seq<char>)
    ensures
        filter_cols(cols, keep).contains(x) <==> (cols.contains(x) && keep.contains(x)),
    decreases cols.len(),
{
    if cols.len() == 0 {
    } else {
        let fore = cols.drop_last();
        lemma_filter_cols_membership(fore, keep, x);
        assert(fore.push(cols.last()) =~= cols);
        let rest = filter_cols(fore, keep);
        if keep.contains(cols.last()) {
            assert(filter_cols(cols, keep) == rest.push(cols.last()));
            assert(forall|i: int| 0 <= i < fore.len() ==> fore[i] == cols[i]);
            if rest.push(cols.last()).contains(x) {
                let i = choose|i: int| 0 <= i < rest.push(cols.last()).len() && rest.push(
                    cols.last(),
                )[i] == x;
                if i < rest.len() {
                    assert(rest.contains(x));
                } else {
                    assert(x == cols.last());
                    assert(cols[cols.len() - 1] == x);
                }
            }
            if cols.contains(x) && keep.contains(x) {
                let i = choose|i: int| 0 <= i < cols.len() && cols[i] == x;
                if i < fore.len() {
                    assert(fore[i] == x);
                    assert(fore.contains(x));
                    let j = choose|j: int| 0 <= j < rest.len() && rest[j] == x;
                    assert(rest.push(cols.last())[j] == x);
                } else {
                    assert(rest.push(cols.last()).last() == x);
                }
            }
        } else {
            assert(filter_cols(cols, keep) == rest);
            if rest.contains(x) {
                let j = choose|j: int| 0 <= j < rest.len() && rest[j] == x;
                assert(fore.contains(x));
                let i = choose|i: int| 0 <= i < fore.len() && fore[i] == x;
                assert(cols[i] == x);
            }
            if cols.contains(x) && keep.contains(x) {
                let i = choose|i: int| 0 <= i < cols.len() && cols[i] == x;
                assert(i < fore.len());
                assert(fore[i] == x);
                assert(fore.contains(x));
            }
        }
    }
}

/// Data preservation on common columns: the rebuild copies exactly the
/// columns present in both the old and the new shape of the table -- the
/// copy statement lists them once, in the old table's order, identically in
/// its insert and select lists -- so every surviving row keeps its value in
/// every column present on both sides.
pub proof fn lemma_common_columns_membership(
    c: &SchemaSnapshot,
    t: &SchemaSnapshot,
    n: Seq<char>,
    col: Seq<char>,
)
    ensures
        spec_common_columns(c, t, n).contains(col) <==> (c.table_cols(n).contains(col)
            && t.table_col_set(n).contains(col)),
{
    lemma_filter_cols_membership(c.table_cols(n), t.table_col_set(n), col);
}

/// The statements creating the plan's new tables, from the target DDL.
pub open spec fn new_table_stmts(t: &SchemaSnapshot, names: Seq<String>) -> Seq<
    (Seq<char>, Seq<char>),
>
    decreases names.len(),
{
    if names.len() == 0 {
        Seq::empty()
    } else {
        new_table_stmts(t, names.drop_last()).push(
            ("Create new table "@ + names.last()@, t.table_sql(names.last()@)),
        )
    }
}

/// The rebuild of one modified table: create the temporary table, copy the
/// common columns (when any), drop the old table, rename the new one.
pub open spec fn rebuild_stmts(c: &SchemaSnapshot, t: &SchemaSnapshot, n: Seq<char>) -> Seq<
    (Seq<char>, Seq<char>),
> {
    let cols = spec_common_columns(c, t, n);
    seq![("Create temporary table for "@ + n, rewrite_create_spec(n, t.table_sql(n)))] + (if cols.len()
        > 0 {
        seq![("Copy data to new "@ + n, copy_sql(n, cols))]
    } else {
        Seq::empty()
    }) + seq![
        ("Drop old table "@ + n, drop_table_sql(n)),
        ("Rename new table to "@ + n, rename_table_sql(n)),
    ]
}

/// The rebuilds of all modified tables, in plan order.
pub open spec fn modified_table_stmts(
    c: &SchemaSnapshot,
    t: &SchemaSnapshot,
    mods: Seq<crate::diff::ModifiedTable>,
) -> Seq<(Seq<char>, Seq<char>)>
    decreases mods.len(),
{
    if mods.len() == 0 {
        Seq::empty()
    } else {
        modified_table_stmts(c, t, mods.drop_last()) + rebuild_stmts(c, t, mods.last().name@)
    }
}

/// The statements dropping the plan's removed tables.
pub open spec fn removed_table_stmts(names: Seq<String>) -> Seq<(Seq<char>, Seq<char>)>
    decreases names.len(),
{
    if names.len() == 0 {
        Seq::empty()
    } else {
        removed_table_stmts(names.drop_last()).push(
            ("Drop table "@ + names.last()@, drop_table_sql(names.last()@)),
        )
    }
}

/// The statements dropping the plan's removed indices.
pub open spec fn removed_index_stmts(names: Seq<String>) -> Seq<(Seq<char>, Seq<char>)>
    decreases names.len(),
{
    if names.len() == 0 {
        Seq::empty()
    } else {
        removed_index_stmts(names.drop_last()).push(
            ("Drop obsolete index "@ + names.last()@, drop_index_sql(names.last()@)),
        )
    }
}

/// Drop and recreate each modified index from the target DDL.
pub open spec fn modified_index_stmts(t: &SchemaSnapshot, names: Seq<String>) -> Seq<
    (Seq<char>, Seq<char>),
>
    decreases names.len(),
{
    if names.len() == 0 {
        Seq::empty()
    } else {
        modified_index_stmts(t, names.drop_last()) + seq![
            ("Drop changed index "@ + names.last()@, drop_index_sql(names.last()@)),
            ("Recreate index "@ + names.last()@, t.index_sql(names.last()@)),
        ]
    }
}

/// The statements creating the plan's new indices, from the target DDL.
pub open spec fn new_index_stmts(t: &SchemaSnapshot, names: Seq<String>) -> Seq<
    (Seq<char>, Seq<char>),
>
    decreases names.len(),
{
    if names.len() == 0 {
        Seq::empty()
    } else {
        new_index_stmts(t, names.drop_last()).push(
            ("Create new index "@ + names.last()@, t.index_sql(names.last()@)),
        )
    }
}

/// The pragma update: only when the plan calls for it and the target version
/// is not zero (the engine default needs no explicit reset).
pub open spec fn pragma_stmts(t: &SchemaSnapshot, ch: &ChangesNeeded) -> Seq<
    (Seq<char>, Seq<char>),
> {
    if ch.pragma_changes && t.user_version != 0 {
        seq![
            ("Set user_version to "@ + spec_i64_str(t.user_version as int), pragma_sql(
                t.user_version as int,
            )),
        ]
    } else {
        Seq::empty()
    }
}

/// The whole script of an approved plan, in mandatory order: new tables,
/// rebuilds, table drops, index reconciliation, pragma update.
pub open spec fn spec_script(c: &SchemaSnapshot, t: &SchemaSnapshot, ch: &ChangesNeeded) -> Seq<
    (Seq<char>, Seq<char>),
> {
    new_table_stmts(t, ch.new_tables@) + modified_table_stmts(c, t, ch.modified_tables@)
        + removed_table_stmts(ch.removed_tables@) + removed_index_stmts(ch.removed_indices@)
        + modified_index_stmts(t, ch.modified_indices@) + new_index_stmts(t, ch.new_indices@)
        + pragma_stmts(t, ch)
}

/// Concatenates two strings.
fn concat2(a: &str, b: &str) -> (r: String)
    ensures
        r@ == a@ + b@,
{
    let mut r = String::new();
    r.append(a);
    r.append(b);
    r
}

/// Rewrites the leading `CREATE TABLE <name>` of `sql` to the temporary
/// rebuild name; anything else is returned unchanged.
pub fn rewrite_create_table(name: &String, sql: &String) -> (r: String)
    ensures
        r@ == rewrite_create_spec(name@, sql@),
{
    let prefix = concat2("CREATE TABLE ", name.as_str());
    let prefix_chars = str_chars(prefix.as_str());
    let sql_chars = str_chars(sql.as_str());
    if sql_chars.len() < prefix_chars.len() {
        return sql.clone();
    }
    let mut i: usize = 0;
    while i < prefix_chars.len()
        invariant
            i <= prefix_chars@.len(),
            prefix_chars@.len() <= sql_chars@.len(),
            prefix_chars@ == prefix@,
            sql_chars@ == sql@,
            prefix@ == "CREATE TABLE "@ + name@,
            forall|j: int| 0 <= j < i ==> sql_chars@[j] == prefix_chars@[j],
        decreases prefix_chars@.len() - i,
    {
        if sql_chars[i] != prefix_chars[i] {
            proof {
                assert(sql@.subrange(0, prefix@.len() as int)[i as int] != prefix@[i as int]);
            }
            return sql.clone();
        }
        i = i + 1;
    }
    proof {
        assert(sql@.subrange(0, prefix@.len() as int) =~= prefix@);
    }
    let mut rest: Vec<char> = Vec::new();
    let mut j: usize = prefix_chars.len();
    while j < sql_chars.len()
        invariant
            prefix_chars@.len() <= j <= sql_chars@.len(),
            prefix_chars@ == prefix@,
            sql_chars@ == sql@,
            rest@ == sql_chars@.subrange(prefix_chars@.len() as int, j as int),
        decreases sql_chars@.len() - j,
    {
        rest.push(sql_chars[j]);
        j = j + 1;
        proof {
            assert(rest@ =~= sql_chars@.subrange(prefix_chars@.len() as int, j as int));
        }
    }
    let rest_str = chars_string(&rest);
    let mut r = String::new();
    r.append("CREATE TABLE ");
    r.append(name.as_str());
    r.append("_migration_new");
    r.append(rest_str.as_str());
    proof {
        assert(rest@ =~= sql@.skip(prefix@.len() as int));
        assert(r@ =~= "CREATE TABLE "@ + temp_table_name(name@) + sql@.skip(prefix@.len() as int));
    }
    r
}

/// The columns of `cur` that also occur in `tgt`, in the order of `cur`.
fn common_columns_exec(cur: &Vec<String>, tgt: &Vec<String>) -> (r: Vec<String>)
    ensures
        str_views(r@) == filter_cols(str_views(cur@), name_set(tgt@)),
{
    let mut r: Vec<String> = Vec::new();
    let mut i: usize = 0;
    proof {
        assert(str_views(cur@).take(0) =~= Seq::<Seq<char>>::empty());
        assert(str_views(r@) =~= filter_cols(str_views(cur@).take(0), name_set(tgt@)));
    }
    while i < cur.len()
        invariant
            i <= cur@.len(),
            str_views(r@) == filter_cols(str_views(cur@).take(i as int), name_set(tgt@)),
        decreases cur@.len() - i,
    {
        proof {
            assert(str_views(cur@).take(i + 1).drop_last() =~= str_views(cur@).take(i as int));
            assert(str_views(cur@).take(i + 1).last() == cur@[i as int]@);
        }
        if crate::diff::names_contains(tgt, &cur[i]) {
            let ghost r0 = str_views(r@);
            r.push(cur[i].clone());
            proof {
                assert(str_views(r@) =~= r0.push(cur@[i as int]@));
            }
        }
        i = i + 1;
    }
    proof {
        assert(str_views(cur@).take(cur@.len() as int) =~= str_views(cur@));
    }
    r
}


/// Builds the statements creating the plan's new tables.
fn build_new_table_stmts(target: &SchemaSnapshot, names: &Vec<String>) -> (r: Vec<SchemaStatement>)
    requires
        target.wf(),
        forall|k: int| 0 <= k < names@.len() ==> target.has_table(#[trigger] names@[k]@),
    ensures
        stmt_views(r@) == new_table_stmts(target, names@),
{
    let mut r: Vec<SchemaStatement> = Vec::new();
    let mut i: usize = 0;
    proof {
        assert(names@.take(0) =~= Seq::<String>::empty());
        assert(stmt_views(r@) =~= new_table_stmts(target, names@.take(0)));
    }
    while i < names.len()
        invariant
            i <= names@.len(),
            target.wf(),
            forall|k: int| 0 <= k < names@.len() ==> target.has_table(#[trigger] names@[k]@),
            stmt_views(r@) == new_table_stmts(target, names@.take(i as int)),
        decreases names@.len() - i,
    {
        proof {
            assert(names@.take(i + 1).drop_last() =~= names@.take(i as int));
            assert(names@.take(i + 1).last() == names@[i as int]);
        }
        let name = &names[i];
        match target.find_table(name) {
            Some(ti) => {
                proof {
                    target.lemma_table_idx_unique(ti as int);
                }
                let description = concat2("Create new table ", name.as_str());
                let sql = target.tables[ti].info.sql.clone();
                let ghost r0 = stmt_views(r@);
                r.push(SchemaStatement { description, sql });
                proof {
                    assert(stmt_views(r@) =~= r0.push(
                        ("Create new table "@ + name@, target.table_sql(name@)),
                    ));
                }
            },
            None => {
                proof {
                    assert(false);
                }
            },
        }
        i = i + 1;
    }
    proof {
        assert(names@.take(names@.len() as int) =~= names@);
    }
    r
}

/// Builds the rebuild of one modified table.
fn build_rebuild_stmts(
    current: &SchemaSnapshot,
    target: &SchemaSnapshot,
    name: &String,
) -> (r: Vec<SchemaStatement>)
    requires
        current.wf(),
        target.wf(),
        current.has_table(name@),
        target.has_table(name@),
    ensures
        stmt_views(r@) == rebuild_stmts(current, target, name@),
{
    let mut r: Vec<SchemaStatement> = Vec::new();
    let ci_opt = current.find_table(name);
    let ti_opt = target.find_table(name);
    if ci_opt.is_none() || ti_opt.is_none() {
        proof {
            assert(false);
        }
        return r;
    }
    let ci = ci_opt.unwrap();
    let ti = ti_opt.unwrap();
    proof {
        current.lemma_table_idx_unique(ci as int);
        target.lemma_table_idx_unique(ti as int);
    }
    let temp_sql = rewrite_create_table(name, &target.tables[ti].info.sql);
    let description = concat2("Create temporary table for ", name.as_str());
    r.push(SchemaStatement { description, sql: temp_sql });

    let cur_cols = col_names_vec(&current.tables[ci].columns);
    let tgt_cols = col_names_vec(&target.tables[ti].columns);
    proof {
        assert(str_views(cur_cols@) =~= current.table_cols(name@));
        assert(name_set(tgt_cols@) =~= target.table_col_set(name@));
    }
    let common = common_columns_exec(&cur_cols, &tgt_cols);
    let ghost cols = spec_common_columns(current, target, name@);
    proof {
        assert(str_views(common@) == cols);
    }
    if common.len() > 0 {
        let joined = join_names(&common, ", ");
        let mut sql = String::new();
        sql.append("INSERT INTO ");
        sql.append(name.as_str());
        sql.append("_migration_new");
        sql.append(" (");
        sql.append(joined.as_str());
        sql.append(") SELECT ");
        sql.append(joined.as_str());
        sql.append(" FROM ");
        sql.append(name.as_str());
        proof {
            assert(sql@ =~= copy_sql(name@, cols));
        }
        let description = concat2("Copy data to new ", name.as_str());
        r.push(SchemaStatement { description, sql });
    }
    let description = concat2("Drop old table ", name.as_str());
    let sql = concat2("DROP TABLE ", name.as_str());
    r.push(SchemaStatement { description, sql });

    let mut rename = String::new();
    rename.append("ALTER TABLE ");
    rename.append(name.as_str());
    rename.append("_migration_new");
    rename.append(" RENAME TO ");
    rename.append(name.as_str());
    proof {
        assert(rename@ =~= rename_table_sql(name@));
    }
    let description = concat2("Rename new table to ", name.as_str());
    r.push(SchemaStatement { description, sql: rename });
    proof {
        assert(stmt_views(r@) =~= rebuild_stmts(current, target, name@));
    }
    r
}

/// Builds the rebuilds of all modified tables, in plan order.
fn build_modified_table_stmts(
    current: &SchemaSnapshot,
    target: &SchemaSnapshot,
    mods: &Vec<crate::diff::ModifiedTable>,
) -> (r: Vec<SchemaStatement>)
    requires
        current.wf(),
        target.wf(),
        forall|k: int|
            0 <= k < mods@.len() ==> table_modified(current, target, #[trigger] mods@[k].name@),
    ensures
        stmt_views(r@) == modified_table_stmts(current, target, mods@),
{
    let mut r: Vec<SchemaStatement> = Vec::new();
    let mut i: usize = 0;
    proof {
        assert(mods@.take(0) =~= Seq::<crate::diff::ModifiedTable>::empty());
        assert(stmt_views(r@) =~= modified_table_stmts(current, target, mods@.take(0)));
    }
    while i < mods.len()
        invariant
            i <= mods@.len(),
            current.wf(),
            target.wf(),
            forall|k: int|
                0 <= k < mods@.len() ==> table_modified(
                    current,
                    target,
                    #[trigger] mods@[k].name@,
                ),
            stmt_views(r@) == modified_table_stmts(current, target, mods@.take(i as int)),
        decreases mods@.len() - i,
    {
        proof {
            assert(mods@.take(i + 1).drop_last() =~= mods@.take(i as int));
            assert(mods@.take(i + 1).last() == mods@[i as int]);
        }
        let mut part = build_rebuild_stmts(current, target, &mods[i].name);
        let ghost r0 = stmt_views(r@);
        let ghost p0 = stmt_views(part@);
        r.append(&mut part);
        proof {
            assert(stmt_views(r@) =~= r0 + p0);
        }
        i = i + 1;
    }
    proof {
        assert(mods@.take(mods@.len() as int) =~= mods@);
    }
    r
}

/// Builds the statements dropping the plan's removed tables.
fn build_removed_table_stmts(names: &Vec<String>) -> (r: Vec<SchemaStatement>)
    ensures
        stmt_views(r@) == removed_table_stmts(names@),
{
    let mut r: Vec<SchemaStatement> = Vec::new();
    let mut i: usize = 0;
    proof {
        assert(names@.take(0) =~= Seq::<String>::empty());
        assert(stmt_views(r@) =~= removed_table_stmts(names@.take(0)));
    }
    while i < names.len()
        invariant
            i <= names@.len(),
            stmt_views(r@) == removed_table_stmts(names@.take(i as int)),
        decreases names@.len() - i,
    {
        proof {
            assert(names@.take(i + 1).drop_last() =~= names@.take(i as int));
            assert(names@.take(i + 1).last() == names@[i as int]);
        }
        let name = &names[i];
        let description = concat2("Drop table ", name.as_str());
        let sql = concat2("DROP TABLE ", name.as_str());
        let ghost r0 = stmt_views(r@);
        r.push(SchemaStatement { description, sql });
        proof {
            assert(stmt_views(r@) =~= r0.push(
                ("Drop table "@ + name@, drop_table_sql(name@)),
            ));
        }
        i = i + 1;
    }
    proof {
        assert(names@.take(names@.len() as int) =~= names@);
    }
    r
}

/// Builds the statements dropping the plan's removed indices.
fn build_removed_index_stmts(names: &Vec<String>) -> (r: Vec<SchemaStatement>)
    ensures
        stmt_views(r@) == removed_index_stmts(names@),
{
    let mut r: Vec<SchemaStatement> = Vec::new();
    let mut i: usize = 0;
    proof {
        assert(names@.take(0) =~= Seq::<String>::empty());
        assert(stmt_views(r@) =~= removed_index_stmts(names@.take(0)));
    }
    while i < names.len()
        invariant
            i <= names@.len(),
            stmt_views(r@) == removed_index_stmts(names@.take(i as int)),
        decreases names@.len() - i,
    {
        proof {
            assert(names@.take(i + 1).drop_last() =~= names@.take(i as int));
            assert(names@.take(i + 1).last() == names@[i as int]);
        }
        let name = &names[i];
        let description = concat2("Drop obsolete index ", name.as_str());
        let sql = concat2("DROP INDEX ", name.as_str());
        let ghost r0 = stmt_views(r@);
        r.push(SchemaStatement { description, sql });
        proof {
            assert(stmt_views(r@) =~= r0.push(
                ("Drop obsolete index "@ + name@, drop_index_sql(name@)),
            ));
        }
        i = i + 1;
    }
    proof {
        assert(names@.take(names@.len() as int) =~= names@);
    }
    r
}

/// Builds the drop-and-recreate statements of the plan's modified indices.
fn build_modified_index_stmts(target: &SchemaSnapshot, names: &Vec<String>) -> (r: Vec<
    SchemaStatement,
>)
    requires
        target.wf(),
        forall|k: int| 0 <= k < names@.len() ==> target.has_index(#[trigger] names@[k]@),
    ensures
        stmt_views(r@) == modified_index_stmts(target, names@),
{
    let mut r: Vec<SchemaStatement> = Vec::new();
    let mut i: usize = 0;
    proof {
        assert(names@.take(0) =~= Seq::<String>::empty());
        assert(stmt_views(r@) =~= modified_index_stmts(target, names@.take(0)));
    }
    while i < names.len()
        invariant
            i <= names@.len(),
            target.wf(),
            forall|k: int| 0 <= k < names@.len() ==> target.has_index(#[trigger] names@[k]@),
            stmt_views(r@) == modified_index_stmts(target, names@.take(i as int)),
        decreases names@.len() - i,
    {
        proof {
            assert(names@.take(i + 1).drop_last() =~= names@.take(i as int));
            assert(names@.take(i + 1).last() == names@[i as int]);
        }
        let name = &names[i];
        match target.find_index(name) {
            Some(ti) => {
                proof {
                    target.lemma_index_idx_unique(ti as int);
                }
                let description = concat2("Drop changed index ", name.as_str());
                let sql = concat2("DROP INDEX ", name.as_str());
                let ghost r0 = stmt_views(r@);
                r.push(SchemaStatement { description, sql });
                let description = concat2("Recreate index ", name.as_str());
                let sql = target.indices[ti].info.sql.clone();
                r.push(SchemaStatement { description, sql });
                proof {
                    assert(stmt_views(r@) =~= r0 + seq![
                        ("Drop changed index "@ + name@, drop_index_sql(name@)),
                        ("Recreate index "@ + name@, target.index_sql(name@)),
                    ]);
                }
            },
            None => {
                proof {
                    assert(false);
                }
            },
        }
        i = i + 1;
    }
    proof {
        assert(names@.take(names@.len() as int) =~= names@);
    }
    r
}

/// Builds the statements creating the plan's new indices.
fn build_new_index_stmts(target: &SchemaSnapshot, names: &Vec<String>) -> (r: Vec<SchemaStatement>)
    requires
        target.wf(),
        forall|k: int| 0 <= k < names@.len() ==> target.has_index(#[trigger] names@[k]@),
    ensures
        stmt_views(r@) == new_index_stmts(target, names@),
{
    let mut r: Vec<SchemaStatement> = Vec::new();
    let mut i: usize = 0;
    proof {
        assert(names@.take(0) =~= Seq::<String>::empty());
        assert(stmt_views(r@) =~= new_index_stmts(target, names@.take(0)));
    }
    while i < names.len()
        invariant
            i <= names@.len(),
            target.wf(),
            forall|k: int| 0 <= k < names@.len() ==> target.has_index(#[trigger] names@[k]@),
            stmt_views(r@) == new_index_stmts(target, names@.take(i as int)),
        decreases names@.len() - i,
    {
        proof {
            assert(names@.take(i + 1).drop_last() =~= names@.take(i as int));
            assert(names@.take(i + 1).last() == names@[i as int]);
        }
        let name = &names[i];
        match target.find_index(name) {
            Some(ti) => {
                proof {
                    target.lemma_index_idx_unique(ti as int);
                }
                let description = concat2("Create new index ", name.as_str());
                let sql = target.indices[ti].info.sql.clone();
                let ghost r0 = stmt_views(r@);
                r.push(SchemaStatement { description, sql });
                proof {
                    assert(stmt_views(r@) =~= r0.push(
                        ("Create new index "@ + name@, target.index_sql(name@)),
                    ));
                }
            },
            None => {
                proof {
                    assert(false);
                }
            },
        }
        i = i + 1;
    }
    proof {
        assert(names@.take(names@.len() as int) =~= names@);
    }
    r
}

/// Turns an approved plan into the full ordered statement script.  As a
/// defense in depth the deletion policy is re-checked here: asking for a
/// destructive script without allowing deletions is a bug in the caller and
/// yields an internal error, never a statement.
pub fn build_migration_script(
    current: &SchemaSnapshot,
    target: &SchemaSnapshot,
    changes: &ChangesNeeded,
    allow_deletions: bool,
) -> (r: Result<Vec<SchemaStatement>, MigrationError>)
    requires
        current.wf(),
        target.wf(),
        is_diff_of(changes, current, target),
    ensures
        (allow_deletions || !changes.spec_has_destructive_changes()) ==> (r matches Ok(v)
            && stmt_views(v@) == spec_script(current, target, changes)),
        !allow_deletions && changes.spec_has_destructive_changes() ==> (r matches Err(e)
            && e.kind == MigrationErrorKind::Internal),
{
    if !allow_deletions && changes.has_destructive_changes() {
        let message = String::from_str(
            "destructive plan reached the executor without authorization",
        );
        return Err(MigrationError::internal(message));
    }
    proof {
        assert forall|k: int| 0 <= k < changes.new_tables@.len() implies target.has_table(
            #[trigger] changes.new_tables@[k]@,
        ) by {
            lemma_name_set_index(changes.new_tables@, k);
            assert(spec_new_tables(current, target).contains(changes.new_tables@[k]@));
        };
        assert forall|k: int| 0 <= k < changes.modified_tables@.len() implies table_modified(
            current,
            target,
            #[trigger] changes.modified_tables@[k].name@,
        ) by {
            assert(modified_entry_ok(changes.modified_tables@[k], current, target));
        };
        assert forall|k: int| 0 <= k < changes.modified_indices@.len() implies target.has_index(
            #[trigger] changes.modified_indices@[k]@,
        ) by {
            lemma_name_set_index(changes.modified_indices@, k);
            assert(spec_modified_indices(current, target).contains(changes.modified_indices@[k]@));
            assert(index_modified(current, target, changes.modified_indices@[k]@));
        };
        assert forall|k: int| 0 <= k < changes.new_indices@.len() implies target.has_index(
            #[trigger] changes.new_indices@[k]@,
        ) by {
            lemma_name_set_index(changes.new_indices@, k);
            assert(spec_new_indices(current, target).contains(changes.new_indices@[k]@));
        };
    }
    let mut script = build_new_table_stmts(target, &changes.new_tables);
    let mut part = build_modified_table_stmts(current, target, &changes.modified_tables);
    let ghost v1 = stmt_views(script@);
    let ghost v2 = stmt_views(part@);
    script.append(&mut part);
    proof {
        assert(stmt_views(script@) =~= v1 + v2);
    }
    let mut part = build_removed_table_stmts(&changes.removed_tables);
    let ghost v12 = stmt_views(script@);
    let ghost v3 = stmt_views(part@);
    script.append(&mut part);
    proof {
        assert(stmt_views(script@) =~= v12 + v3);
    }
    let mut part = build_removed_index_stmts(&changes.removed_indices);
    let ghost v123 = stmt_views(script@);
    let ghost v4 = stmt_views(part@);
    script.append(&mut part);
    proof {
        assert(stmt_views(script@) =~= v123 + v4);
    }
    let mut part = build_modified_index_stmts(target, &changes.modified_indices);
    let ghost v1234 = stmt_views(script@);
    let ghost v5 = stmt_views(part@);
    script.append(&mut part);
    proof {
        assert(stmt_views(script@) =~= v1234 + v5);
    }
    let mut part = build_new_index_stmts(target, &changes.new_indices);
    let ghost v12345 = stmt_views(script@);
    let ghost v6 = stmt_views(part@);
    script.append(&mut part);
    proof {
        assert(stmt_views(script@) =~= v12345 + v6);
    }
    if changes.pragma_changes && target.user_version != 0 {
        let rendered = i64_string(target.user_version);
        let description = concat2("Set user_version to ", rendered.as_str());
        let sql = concat2("PRAGMA user_version = ", rendered.as_str());
        let ghost before = stmt_views(script@);
        script.push(SchemaStatement { description, sql });
        proof {
            assert(stmt_views(script@) =~= before + pragma_stmts(target, changes));
        }
    } else {
        proof {
            assert(pragma_stmts(target, changes) =~= Seq::<(Seq<char>, Seq<char>)>::empty());
            assert(stmt_views(script@) =~= stmt_views(script@) + pragma_stmts(target, changes));
        }
    }
    proof {
        assert(stmt_views(script@) =~= spec_script(current, target, changes));
    }
    Ok(script)
}

} // verus!
