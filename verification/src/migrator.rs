//! The orchestrator's decision.
//!
//! [`plan_migration`] makes every decision of one migration attempt from the
//! two snapshots alone: it diffs them, applies the deletion policy, and builds
//! the statement script.  The surrounding application introspects the live
//! and pristine databases inside one transaction, hands the snapshots here,
//! executes the returned statements in order, commits, and runs `VACUUM`
//! exactly when the decision says so.

use vstd::prelude::*;

verus! {

use crate::diff::{
    analyze_changes, is_diff_of, lemma_changes_iff, lemma_destructive_implies_changes,
    spec_destructive, spec_has_changes, ChangesNeeded,
};
use crate::error::{MigrationError, MigrationErrorKind};
use crate::policy::{authorize, refusal_message};
use crate::schema::SchemaSnapshot;
use crate::script::{build_migration_script, spec_script, stmt_views, SchemaStatement};

/// Everything one migration attempt does after planning: the statements to
/// execute in order inside the transaction, whether the attempt counts as a
/// change, and whether `VACUUM` runs after commit.  The plan itself is kept
/// for reporting.
#[derive(Debug)]
pub struct MigrationScript {
    pub changes: ChangesNeeded,
    pub statements: Vec<SchemaStatement>,
    pub changed: bool,
    pub run_vacuum: bool,
}

/// Plans one migration attempt.
///
/// Outcomes, exactly:
/// - equal snapshots: an empty script reporting no change;
/// - a destructive reconciliation without `allow_deletions`: a refusal, and
///   nothing to execute;
/// - otherwise: the full statement script, which counts as a change and
///   triggers `VACUUM` exactly when it holds at least one statement.
pub fn plan_migration(
    current: &SchemaSnapshot,
    target: &SchemaSnapshot,
    allow_deletions: bool,
) -> (r: Result<MigrationScript, MigrationError>)
    requires
        current.wf(),
        target.wf(),
    ensures
        r is Err <==> (!allow_deletions && spec_destructive(current, target)),
        r matches Err(e) ==> e.kind == MigrationErrorKind::Refused && (exists|
            ch: ChangesNeeded,
        |
            is_diff_of(&ch, current, target) && e.message@ == refusal_message(&ch)),
        r matches Ok(s) ==> {
            &&& is_diff_of(&s.changes, current, target)
            &&& s.changed == (s.statements@.len() > 0)
            &&& s.run_vacuum == s.changed
        },
        !spec_has_changes(current, target) ==> (r matches Ok(s) && s.statements@.len() == 0
            && !s.changed && !s.run_vacuum),
        (spec_has_changes(current, target) && (allow_deletions || !spec_destructive(
            current,
            target,
        ))) ==> (r matches Ok(s) && stmt_views(s.statements@) == spec_script(
            current,
            target,
            &s.changes,
        )),
{
    let changes = analyze_changes(current, target);
    proof {
        lemma_changes_iff(&changes, current, target);
    }
    if !changes.has_any_changes() {
        return Ok(
            MigrationScript { changes, statements: Vec::new(), changed: false, run_vacuum: false },
        );
    }
    proof {
        if spec_destructive(current, target) {
            lemma_destructive_implies_changes(current, target);
        }
    }
    match authorize(&changes, allow_deletions) {
        Err(e) => Err(e),
        Ok(()) => {
            match build_migration_script(current, target, &changes, allow_deletions) {
                Ok(statements) => {
                    let changed = statements.len() > 0;
                    Ok(MigrationScript { changes, statements, changed, run_vacuum: changed })
                },
                Err(e) => {
                    proof {
                        assert(false);
                    }
                    Err(e)
                },
            }
        },
    }
}

/// The deletion flag as the host's environment hands it over: exactly the
/// text `true` allows deletions, anything else (including absence and any
/// other spelling) keeps the safe default.
pub fn parse_allow_deletions(s: &str) -> (b: bool)
    ensures
        b == (s@ == "true"@),
{
    crate::text::str_eq(s, "true")
}

} // verus!

