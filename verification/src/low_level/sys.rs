//! Process status files, read by coreshift-core.

use vstd::prelude::*;

verus! {

/// coreshift-core's error type.
#[verifier::external_type_specification]
#[verifier::external_body]
pub struct ExCoreError(coreshift_core::CoreError);

/// The command name and real uid coreshift-core reads from the text of a
/// `/proc/<pid>/status` file, if it finds both.
pub uninterp spec fn proc_status_of(content: Seq<char>) -> Option<(Seq<char>, u32)>;

/// A process's command name and real uid.
pub struct ProcStatus {
    pub name: String,
    pub uid: u32,
}

/// Why a status file could not be read.
#[derive(Debug, Clone, Copy, PartialEq, Eq, Structural)]
pub enum ProcStatusError {
    /// The text lacks the name or the uid.
    Malformed,
}

/// `coreshift_core::proc::parse_proc_status`: the name and uid of the
/// status text, as named by `proc_status_of`; its error when either is
/// missing.
#[verifier::external_body]
fn core_parse_proc_status(content: &str) -> (r: Result<(String, u32), coreshift_core::CoreError>)
    ensures
        match r {
            Ok(p) => proc_status_of(content@) == Some((p.0@, p.1)),
            Err(_) => proc_status_of(content@) is None,
        },
{
    match coreshift_core::proc::parse_proc_status(content) {
        Ok(s) => Ok((s.name, s.uid)),
        Err(e) => Err(e),
    }
}

/// Reads the command name and real uid of a process status file.
pub fn parse_proc_status(content: &str) -> (r: Result<ProcStatus, ProcStatusError>)
    ensures
        match r {
            Ok(s) => proc_status_of(content@) == Some((s.name@, s.uid)),
            Err(e) => proc_status_of(content@) is None && e == ProcStatusError::Malformed,
        },
{
    match core_parse_proc_status(content) {
        Ok((name, uid)) => Ok(ProcStatus { name, uid }),
        Err(_) => Err(ProcStatusError::Malformed),
    }
}

} // verus!
