//! Atomic switching of the "current" version of a candidate.
//!
//! A global switch persists the new default through the registry and
//! is visible to every resolution that reads the registry after its
//! atomic commit. A session switch touches only the calling session's
//! override and hands back a descriptor of what the shell must export:
//! the core never mutates a live shell's environment itself.

use vstd::prelude::*;
use vstd::string::StringExecFns;

use crate::registry::Registry;
use crate::ErrorKind;

verus! {

/// The scope of a switch: the persisted global default, or one shell
/// session's transient override.
#[derive(Clone, Copy, PartialEq, Eq, Structural, Debug)]
pub enum Scope {
    Global,
    Session(u64),
}

/// What the shell-integration layer must apply after a session-scoped
/// switch: export `var` with `value` (the install path of the chosen
/// version) in the calling session.
pub struct EnvExport {
    pub var: String,
    pub value: String,
}

/// The observable effect of a successful switch.
pub enum SwitchEffect {
    /// The global default was persisted; nothing to export.
    Persisted,
    /// The calling session must source this export to see the change.
    Export(EnvExport),
}

/// The environment variable a candidate's install path is exported
/// under.
pub open spec fn spec_env_var(c: Seq<char>) -> Seq<char> {
    c + "_HOME"@
}

/// Changes the current version of `candidate` to `version` in the
/// given scope. Fails with `NotInstalled` unless the pair is
/// installed. A global switch updates only the candidate's global
/// default; a session switch updates only that session's override and
/// returns the export descriptor for the shell to apply.
pub fn switch(reg: &mut Registry, candidate: &String, version: &String, scope: Scope) -> (r:
    Result<SwitchEffect, ErrorKind>)
    requires
        old(reg).wf(),
    ensures
        final(reg).wf(),
        !old(reg).is_installed(candidate@, version@) ==> r == Err::<SwitchEffect, ErrorKind>(
            ErrorKind::NotInstalled,
        ) && *final(reg) == *old(reg),
        old(reg).is_installed(candidate@, version@) && scope == Scope::Global ==> {
            &&& r matches Ok(SwitchEffect::Persisted)
            &&& final(reg).global_of(candidate@) == Some(version@)
            &&& forall|c2: Seq<char>|
                c2 != candidate@ ==> #[trigger] final(reg).global_of(c2) == old(reg).global_of(c2)
            &&& final(reg).entries@ == old(reg).entries@
            &&& final(reg).overrides@ == old(reg).overrides@
        },
        forall|sid: u64|
            old(reg).is_installed(candidate@, version@) && scope == Scope::Session(sid) ==> {
                &&& r matches Ok(SwitchEffect::Export(e)) && e.var@ == spec_env_var(candidate@)
                    && e.value@ == old(reg).entry_of(candidate@, version@)->Some_0.install_path
                &&& final(reg).override_of(sid, candidate@) == Some(version@)
                &&& forall|s2: u64, c2: Seq<char>|
                    !(s2 == sid && c2 == candidate@) ==> #[trigger] final(reg).override_of(s2, c2)
                        == old(reg).override_of(s2, c2)
                &&& final(reg).entries@ == old(reg).entries@
                &&& final(reg).globals@ == old(reg).globals@
            },
{
    match scope {
        Scope::Global => {
            match reg.set_global_default(candidate, version) {
                Ok(_) => Ok(SwitchEffect::Persisted),
                Err(e) => Err(e),
            }
        },
        Scope::Session(sid) => {
            let record = match reg.get_installed(candidate, version) {
                Some(record) => record,
                None => {
                    return Err(ErrorKind::NotInstalled);
                },
            };
            match reg.set_session_override(sid, candidate, version) {
                Ok(_) => Ok(
                    SwitchEffect::Export(
                        EnvExport {
                            var: candidate.clone().concat("_HOME"),
                            value: record.install_path,
                        },
                    ),
                ),
                Err(e) => Err(e),
            }
        },
    }
}

/// A global switch is what a fresh session sees: a session with no
/// override of its own resolves the candidate to the global default,
/// so right after a successful global switch to `v` it resolves `v`.
pub proof fn lemma_global_switch_visible(r: Registry, session: u64, c: Seq<char>, v: Seq<char>)
    requires
        r.global_of(c) == Some(v),
        r.override_of(session, c) is None,
    ensures
        r.current_of(session, c) == Some(v),
{
}

/// A session that pinned an installed version resolves that version,
/// whatever the global default is or becomes: a session switch is
/// immediately visible to the same session's `get_current`, and a
/// later global switch does not disturb a session that holds an
/// override.
pub proof fn lemma_override_decides_resolution(r: Registry, session: u64, c: Seq<char>, v: Seq<char>)
    requires
        r.override_of(session, c) == Some(v),
        r.is_installed(c, v),
    ensures
        r.current_of(session, c) == Some(v),
{
}

/// Session overrides never leak: two registry states that agree on
/// installed versions and global defaults, and on every override
/// outside one session, resolve identically for every other session,
/// whatever that one session's overrides were set to.
pub proof fn lemma_session_isolation(r1: Registry, r2: Registry, touched: u64)
    requires
        r1.entries@ == r2.entries@,
        forall|c2: Seq<char>| #[trigger] r1.global_of(c2) == r2.global_of(c2),
        forall|s2: u64, c2: Seq<char>|
            s2 != touched ==> #[trigger] r1.override_of(s2, c2) == r2.override_of(s2, c2),
    ensures
        forall|s2: u64, c2: Seq<char>|
            s2 != touched ==> #[trigger] r1.current_of(s2, c2) == r2.current_of(s2, c2),
{
}

} // verus!
