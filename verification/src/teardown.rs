//! Teardown statement generation.
//!
//! After a run, every row the run created is deleted so the next run starts
//! from a clean baseline.  The statements are a pure function of the mode
//! and unit count, scoped strictly to the relations that mode writes:
//! baseline teardown touches only the shared relation, unit-based teardown
//! touches one relation per unit.  Row deletion is idempotent at the
//! statement level, so running the same teardown twice cannot fail on an
//! already-empty target.

use vstd::prelude::*;
use vstd::string::StringExecFns;
use crate::resolver::Mode;
use crate::resolver::spec_relation_name;
use crate::text::u32_to_dec;

verus! {

/// The row-deletion statement for one relation of a mode.
pub open spec fn spec_delete_sql(mode: Mode, unit: int) -> Seq<char> {
    "DELETE FROM "@ + spec_relation_name(mode, unit)
}

/// Renders the row-deletion statement for one relation.
pub fn delete_sql(mode: Mode, unit: u32) -> (s: String)
    ensures
        s@ == spec_delete_sql(mode, unit as int),
{
    let target = crate::resolver::HierarchyTarget { mode, unit };
    let mut s = "DELETE FROM ".to_owned();
    s.append(target.relation_name().as_str());
    s
}

/// Every statement a run's teardown must execute: one for the shared
/// relation in baseline mode, one per unit otherwise.
pub fn teardown_statements(mode: Mode, unit_count: u32) -> (v: Vec<String>)
    ensures
        mode == Mode::Baseline ==> v@.len() == 1 && v@[0]@ == spec_delete_sql(mode, 0),
        mode != Mode::Baseline ==> v@.len() == unit_count && forall|i: int|
            0 <= i < unit_count ==> v@[i]@ == spec_delete_sql(mode, i),
{
    let mut v: Vec<String> = Vec::new();
    match mode {
        Mode::Baseline => {
            v.push(delete_sql(mode, 0));
        },
        _ => {
            let mut u: u32 = 0;
            while u < unit_count
                invariant
                    u <= unit_count,
                    v@.len() == u,
                    forall|i: int| 0 <= i < u ==> v@[i]@ == spec_delete_sql(mode, i),
                decreases unit_count - u,
            {
                v.push(delete_sql(mode, u));
                u = u + 1;
            }
        },
    }
    v
}

} // verus!
