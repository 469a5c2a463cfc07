//! The deletion policy.
//!
//! A destructive plan (one that removes tables, indices or columns) is
//! rejected unless deletions are explicitly allowed.  The policy runs
//! before any mutation; a rejection enumerates every removal in one message
//! so a caller can present the full list at once.

use vstd::prelude::*;

verus! {

use vstd::string::{StringExecFns, StrSliceExecFns};
use crate::diff::{ChangesNeeded, ModifiedTable};
use crate::text::{join_names, spec_join, str_views};
use crate::error::{MigrationError, MigrationErrorKind};

/// The refusal segment for the removed tables.
pub open spec fn tables_segment(ch: &ChangesNeeded) -> Seq<char> {
    "removing tables ["@ + spec_join(str_views(ch.removed_tables@), ", "@) + "]"@
}

/// The refusal segment for the removed indices.
pub open spec fn indices_segment(ch: &ChangesNeeded) -> Seq<char> {
    "removing indices ["@ + spec_join(str_views(ch.removed_indices@), ", "@) + "]"@
}

/// The refusal segment for the removed columns of one modified table.
pub open spec fn column_segment(m: ModifiedTable) -> Seq<char> {
    "removing columns ["@ + spec_join(str_views(m.removed_columns@), ", "@) + "] from table "@
        + m.name@
}

/// The refusal segments of all modified tables with removed columns.
pub open spec fn column_segments(mods: Seq<ModifiedTable>) -> Seq<Seq<char>>
    decreases mods.len(),
{
    if mods.len() == 0 {
        Seq::empty()
    } else {
        let rest = column_segments(mods.drop_last());
        if mods.last().removed_columns@.len() > 0 {
            rest.push(column_segment(mods.last()))
        } else {
            rest
        }
    }
}

/// All refusal segments of a plan, in report order.
pub open spec fn refusal_segments(ch: &ChangesNeeded) -> Seq<Seq<char>> {
    (if ch.removed_tables@.len() > 0 {
        seq![tables_segment(ch)]
    } else {
        Seq::empty()
    }) + (if ch.removed_indices@.len() > 0 {
        seq![indices_segment(ch)]
    } else {
        Seq::empty()
    }) + column_segments(ch.modified_tables@)
}

/// The message of a policy rejection: every removal the plan calls for, in
/// one message.
pub open spec fn refusal_message(ch: &ChangesNeeded) -> Seq<char> {
    "Refusing to apply destructive schema changes with allow_deletions=false: "@ + spec_join(
        refusal_segments(ch),
        "; "@,
    ) + ". Set allow_deletions=true to permit this."@
}

/// Builds the refusal message of a destructive plan.
fn build_refusal_message(ch: &ChangesNeeded) -> (r: String)
    ensures
        r@ == refusal_message(ch),
{
    let mut segments: Vec<String> = Vec::new();
    if ch.removed_tables.len() > 0 {
        let mut seg = String::new();
        seg.append("removing tables [");
        let joined = join_names(&ch.removed_tables, ", ");
        seg.append(joined.as_str());
        seg.append("]");
        segments.push(seg);
    }
    if ch.removed_indices.len() > 0 {
        let mut seg = String::new();
        seg.append("removing indices [");
        let joined = join_names(&ch.removed_indices, ", ");
        seg.append(joined.as_str());
        seg.append("]");
        segments.push(seg);
    }
    let ghost base = str_views(segments@);
    proof {
        assert(base + column_segments(ch.modified_tables@.take(0)) =~= base);
        assert(ch.modified_tables@.take(ch.modified_tables@.len() as int)
            =~= ch.modified_tables@);
    }
    let mut i: usize = 0;
    while i < ch.modified_tables.len()
        invariant
            i <= ch.modified_tables@.len(),
            str_views(segments@) == base + column_segments(ch.modified_tables@.take(i as int)),
        decreases ch.modified_tables@.len() - i,
    {
        proof {
            assert(ch.modified_tables@.take(i + 1).drop_last() =~= ch.modified_tables@.take(
                i as int,
            ));
            assert(ch.modified_tables@.take(i + 1).last() == ch.modified_tables@[i as int]);
        }
        if ch.modified_tables[i].removed_columns.len() > 0 {
            let mut seg = String::new();
            seg.append("removing columns [");
            let joined = join_names(&ch.modified_tables[i].removed_columns, ", ");
            seg.append(joined.as_str());
            seg.append("] from table ");
            seg.append(ch.modified_tables[i].name.as_str());
            proof {
                assert(seg@ == column_segment(ch.modified_tables@[i as int]));
            }
            let ghost segs0 = str_views(segments@);
            segments.push(seg);
            proof {
                assert(str_views(segments@) =~= segs0.push(
                    column_segment(ch.modified_tables@[i as int]),
                ));
                assert(segs0.push(column_segment(ch.modified_tables@[i as int])) =~= base
                    + column_segments(ch.modified_tables@.take(i + 1)));
            }
        }
        i = i + 1;
    }
    proof {
        assert(str_views(segments@) =~= refusal_segments(ch));
    }
    let mut r = String::new();
    r.append("Refusing to apply destructive schema changes with allow_deletions=false: ");
    let joined = join_names(&segments, "; ");
    r.append(joined.as_str());
    r.append(". Set allow_deletions=true to permit this.");
    r
}

/// Authorizes a plan against the deletion policy: every plan passes when
/// deletions are allowed; otherwise exactly the non-destructive plans pass,
/// and a rejection carries the full list of removals.
pub fn authorize(changes: &ChangesNeeded, allow_deletions: bool) -> (r: Result<
    (),
    MigrationError,
>)
    ensures
        r is Ok <==> (allow_deletions || !changes.spec_has_destructive_changes()),
        r matches Err(e) ==> e.kind == MigrationErrorKind::Refused && e.message@
            == refusal_message(changes),
{
    if allow_deletions {
        Ok(())
    } else if changes.has_destructive_changes() {
        let message = build_refusal_message(changes);
        Err(MigrationError { kind: MigrationErrorKind::Refused, message })
    } else {
        Ok(())
    }
}

} // verus!
