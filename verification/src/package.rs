//! Package metadata and the per-candidate staged entry.

use vstd::prelude::*;
use crate::action::DedepAction;
use crate::action::action_char;

verus! {

/// Why a package is installed, as recorded by the package database.
#[derive(Clone, Copy, Debug, PartialEq, Eq, Structural)]
pub enum InstallReason {
    /// The operator asked for the package itself.
    Explicit,
    /// The package was pulled in only to satisfy another package's dependency.
    Dependency,
}

/// The metadata of one installed package, read once from the database and
/// never mutated for the lifetime of a run.
pub struct PackageMeta {
    /// The package's identity.
    pub name: String,
    /// Why the package is installed.
    pub reason: InstallReason,
    /// How many installed packages require this one.
    pub required_by: u64,
    /// How many installed packages optionally want this one.
    pub optional_for: u64,
}

impl PackageMeta {
    /// Bundle the four facts the database reports about one installed package.
    pub fn new(name: String, reason: InstallReason, required_by: u64, optional_for: u64) -> (p:
        PackageMeta)
        ensures
            p.name == name,
            p.reason == reason,
            p.required_by == required_by,
            p.optional_for == optional_for,
    {
        PackageMeta { name, reason, required_by, optional_for }
    }
}

/// One orphan candidate together with the operator's staged intent for it.
pub struct DedepPackage {
    /// The candidate's metadata.
    pub meta: PackageMeta,
    /// The most recent intent the operator directed at this candidate.
    pub action: DedepAction,
}

/// The value of an entry after an action has been staged on it: the action is
/// replaced, the package itself is untouched.
pub open spec fn staged(e: DedepPackage, a: DedepAction) -> DedepPackage {
    DedepPackage { meta: e.meta, action: a }
}

/// The display line of an entry: `[`, the action's tag, `] `, then the name.
pub open spec fn display_of(e: DedepPackage) -> Seq<char> {
    seq!['[', action_char(e.action), ']', ' '] + e.meta.name@
}

impl DedepPackage {
    /// Wrap one candidate package; every candidate starts with no change
    /// requested.
    pub fn new(meta: PackageMeta) -> (e: DedepPackage)
        ensures
            e.meta == meta,
            e.action is Nothing,
            e == (DedepPackage { meta, action: DedepAction::Nothing }),
    {
        DedepPackage { meta, action: DedepAction::Nothing }
    }

    /// Unconditionally overwrite the staged action. Any action may replace any
    /// prior action; no transition is rejected.
    pub fn stage_action(&mut self, action: DedepAction)
        ensures
            *final(self) == staged(*old(self), action),
            final(self).action == action,
            final(self).meta == old(self).meta,
    {
        self.action = action;
    }

    /// The canonical short display form, e.g. `"[E] foo"`.
    pub fn display_line(&self) -> (line: String)
        ensures
            line@ == display_of(*self),
    {
        let mut line = "[".to_owned();
        let tag: &str = match self.action {
            DedepAction::Explicit => "E",
            DedepAction::Nothing => " ",
            DedepAction::Remove => "R",
        };
        line.append(tag);
        line.append("] ");
        line.append(self.name_str());
        proof {
            reveal_strlit("[");
            reveal_strlit("E");
            reveal_strlit(" ");
            reveal_strlit("R");
            reveal_strlit("] ");
            assert(line@ =~= display_of(*self));
        }
        line
    }

    /// The underlying package's display identity.
    pub fn name_str(&self) -> (name: &str)
        ensures
            name@ == self.meta.name@,
    {
        self.meta.name.as_str()
    }
}

/// Law: staging is idempotent. Staging the same action twice in a row leaves
/// the entry exactly as it is after the first staging.
pub proof fn lemma_stage_idempotent(e: DedepPackage, a: DedepAction)
    ensures
        staged(staged(e, a), a) == staged(e, a),
{
}

/// Law: staging overwrites. After staging `b`, the entry's action is `b`
/// whatever action was staged before; earlier stagings leave no trace.
pub proof fn lemma_stage_overwrite(e: DedepPackage, a: DedepAction, b: DedepAction)
    ensures
        staged(staged(e, a), b) == staged(e, b),
        staged(staged(e, a), b).action == b,
{
}

} // verus!
