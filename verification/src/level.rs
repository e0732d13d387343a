//! Severity levels: their order, their printed names, and the threshold
//! below which a record is not captured.

use vstd::prelude::*;

verus! {

/// `log::Level`, declared so that the verifier reads its five variants
/// from the `log` crate itself. Nothing is assumed about it here.
#[verifier::external_type_specification]
pub struct ExLevel(log::Level);

/// Position of a level in the order of severities. The most severe level
/// comes first, as the variants are declared in `log`.
pub open spec fn rank(level: log::Level) -> nat {
    match level {
        log::Level::Error => 1,
        log::Level::Warn => 2,
        log::Level::Info => 3,
        log::Level::Debug => 4,
        log::Level::Trace => 5,
    }
}

/// The name under which a level is printed.
pub open spec fn label(level: log::Level) -> Seq<char> {
    match level {
        log::Level::Error => seq!['E', 'R', 'R', 'O', 'R'],
        log::Level::Warn => seq!['W', 'A', 'R', 'N'],
        log::Level::Info => seq!['I', 'N', 'F', 'O'],
        log::Level::Debug => seq!['D', 'E', 'B', 'U', 'G'],
        log::Level::Trace => seq!['T', 'R', 'A', 'C', 'E'],
    }
}

/// Whether records of this level are captured: errors, warnings and
/// informational records are, debug and trace records are not.
pub open spec fn passes(level: log::Level) -> bool {
    rank(level) <= rank(log::Level::Info)
}

/// Trusted: `<=` on `log::Level`, which `log` derives from the order of the
/// variants. The contract claims that it compares the levels by `rank`.
#[verifier::external_body]
pub(crate) fn at_least(level: log::Level, threshold: log::Level) -> (r: bool)
    ensures
        r == (rank(level) <= rank(threshold)),
{
    level <= threshold
}

/// Trusted: `log::Level::as_str`. The contract claims that it returns the
/// upper-case name of the level, the same text that `log` prints for it.
#[verifier::external_body]
pub(crate) fn name(level: log::Level) -> (text: &'static str)
    ensures
        text@ == label(level),
{
    level.as_str()
}

} // verus!
