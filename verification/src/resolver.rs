//! Relation-target resolution over the four hierarchy modes.
//!
//! `Baseline` always names the one shared relation; the other modes pick one
//! unit out of `unit_count` provisioned units, once per worker, and name the
//! unit-qualified relation.  A worker keeps its resolved target for all its
//! iterations.

use vstd::prelude::*;
use vstd::string::StringExecFns;
use crate::errors::BenchError;
use crate::rng::RandomSource;
use crate::text::spec_dec;
use crate::text::u32_to_dec;

verus! {

/// The physical data-layout strategy under test.
#[derive(Clone, Copy, Debug, PartialEq, Eq, Structural)]
pub enum Mode {
    /// One shared relation for every worker.
    Baseline,
    /// One relation per database unit, named by a unit suffix.
    Database,
    /// One schema per unit, holding a relation of the canonical name.
    Schema,
    /// One relation per table unit, named by a unit suffix.
    Table,
}

/// The fully-qualified name of the relation a target stands for.
pub open spec fn spec_relation_name(mode: Mode, unit: int) -> Seq<char> {
    match mode {
        Mode::Baseline => "manta_bucket_object"@,
        Mode::Database => "manta_bucket_object_"@ + spec_dec(unit),
        Mode::Table => "manta_bucket_object_"@ + spec_dec(unit),
        Mode::Schema => "manta_bucket_"@ + spec_dec(unit) + ".manta_bucket_object"@,
    }
}

/// Law: the baseline relation name never depends on the unit index, so
/// baseline resolution names one constant relation on every call.
pub proof fn lemma_baseline_name_ignores_unit(u1: int, u2: int)
    ensures
        spec_relation_name(Mode::Baseline, u1) == spec_relation_name(Mode::Baseline, u2),
{
}

/// A resolved relation target: the mode it was resolved under and the chosen
/// unit.  Baseline targets carry unit zero, which the name ignores.
#[derive(Clone, Copy, Debug, PartialEq, Eq, Structural)]
pub struct HierarchyTarget {
    pub mode: Mode,
    pub unit: u32,
}

impl HierarchyTarget {
    /// The name of the relation this target stands for.
    pub open spec fn spec_name(&self) -> Seq<char> {
        spec_relation_name(self.mode, self.unit as int)
    }

    /// Renders the fully-qualified relation name.
    pub fn relation_name(&self) -> (r: String)
        ensures
            r@ == self.spec_name(),
    {
        match self.mode {
            Mode::Baseline => "manta_bucket_object".to_owned(),
            Mode::Database | Mode::Table => {
                let mut s = "manta_bucket_object_".to_owned();
                s.append(u32_to_dec(self.unit).as_str());
                s
            },
            Mode::Schema => {
                let mut s = "manta_bucket_".to_owned();
                s.append(u32_to_dec(self.unit).as_str());
                s.append(".manta_bucket_object");
                s
            },
        }
    }
}

/// Resolves the relation a worker operates against.  Baseline mode always
/// yields the constant target; the unit-based modes draw one unit uniformly
/// from `[0, unit_count)`, and reject a zero unit count before any worker
/// could start.
pub fn resolve(mode: Mode, unit_count: u32, rng: &mut RandomSource) -> (r: Result<
    HierarchyTarget,
    BenchError,
>)
    ensures
        mode == Mode::Baseline ==> r == Ok::<HierarchyTarget, BenchError>(
            HierarchyTarget { mode: Mode::Baseline, unit: 0 },
        ),
        mode != Mode::Baseline && unit_count == 0 ==> r == Err::<HierarchyTarget, BenchError>(
            BenchError::InvalidConfiguration,
        ),
        mode != Mode::Baseline && unit_count > 0 ==> (r matches Ok(t) && t.mode == mode
            && t.unit < unit_count),
{
    match mode {
        Mode::Baseline => Ok(HierarchyTarget { mode: Mode::Baseline, unit: 0 }),
        _ => {
            if unit_count == 0 {
                Err(BenchError::InvalidConfiguration)
            } else {
                let unit = rng.next_below(unit_count);
                Ok(HierarchyTarget { mode, unit })
            }
        },
    }
}

/// Parses a mode name as given on the command line.
pub fn parse_mode(s: &str) -> (r: Result<Mode, BenchError>)
    ensures
        s@ == "baseline"@ ==> r == Ok::<Mode, BenchError>(Mode::Baseline),
        s@ == "database"@ ==> r == Ok::<Mode, BenchError>(Mode::Database),
        s@ == "schema"@ ==> r == Ok::<Mode, BenchError>(Mode::Schema),
        s@ == "table"@ ==> r == Ok::<Mode, BenchError>(Mode::Table),
        s@ != "baseline"@ && s@ != "database"@ && s@ != "schema"@ && s@ != "table"@ ==> r
            == Err::<Mode, BenchError>(BenchError::InvalidConfiguration),
{
    proof {
        reveal_strlit("baseline");
        reveal_strlit("database");
        reveal_strlit("schema");
        reveal_strlit("table");
        // The four names differ in their first character.
        assert("baseline"@[0] == 'b');
        assert("database"@[0] == 'd');
        assert("schema"@[0] == 's');
        assert("table"@[0] == 't');
    }
    let t = s.to_owned();
    if t == "baseline".to_owned() {
        Ok(Mode::Baseline)
    } else if t == "database".to_owned() {
        Ok(Mode::Database)
    } else if t == "schema".to_owned() {
        Ok(Mode::Schema)
    } else if t == "table".to_owned() {
        Ok(Mode::Table)
    } else {
        Err(BenchError::InvalidConfiguration)
    }
}

impl std::str::FromStr for Mode {
    type Err = &'static str;

    fn from_str(s: &str) -> Result<Mode, &'static str> {
        match parse_mode(s) {
            Ok(m) => Ok(m),
            Err(_) => Err("invalid mode"),
        }
    }
}

} // verus!
