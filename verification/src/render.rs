//! Human-facing labels and terminal-safe text.

use vstd::prelude::*;
use crate::outcome::{CommandOutcomeClass, DiagnosticSeverity};
use crate::filesystem::ReclaimabilityReasonCode;
use crate::text::{chars_of, escape_all, escape_chars, string_of};

verus! {

/// Escapes every character so that text from diagnostics can neither start a
/// new line nor carry a terminal control sequence.
pub fn escape_terminal_text(value: &str) -> (escaped: String)
    ensures
        escaped@ == escape_all(value@),
{
    string_of(&escape_chars(&chars_of(value)))
}

pub open spec fn spec_severity_label(severity: DiagnosticSeverity) -> Seq<char> {
    match severity {
        DiagnosticSeverity::Information => "info"@,
        DiagnosticSeverity::Warning => "warning"@,
        DiagnosticSeverity::Error => "error"@,
        DiagnosticSeverity::Fatal => "fatal"@,
    }
}

pub fn severity_label(severity: DiagnosticSeverity) -> (label: &'static str)
    ensures
        label@ == spec_severity_label(severity),
{
    match severity {
        DiagnosticSeverity::Information => "info",
        DiagnosticSeverity::Warning => "warning",
        DiagnosticSeverity::Error => "error",
        DiagnosticSeverity::Fatal => "fatal",
    }
}

pub open spec fn spec_outcome_label(class: CommandOutcomeClass) -> Seq<char> {
    match class {
        CommandOutcomeClass::Success => "success"@,
        CommandOutcomeClass::InternalFailure => "internal failure"@,
        CommandOutcomeClass::InvalidInput => "invalid input"@,
        CommandOutcomeClass::PartialSuccess => "partial success"@,
        CommandOutcomeClass::CapabilityUnavailable => "capability unavailable"@,
        CommandOutcomeClass::StaleState => "stale state"@,
        CommandOutcomeClass::Interrupted => "interrupted"@,
        CommandOutcomeClass::Terminated => "terminated"@,
    }
}

pub fn outcome_label(class: CommandOutcomeClass) -> (label: &'static str)
    ensures
        label@ == spec_outcome_label(class),
{
    match class {
        CommandOutcomeClass::Success => "success",
        CommandOutcomeClass::InternalFailure => "internal failure",
        CommandOutcomeClass::InvalidInput => "invalid input",
        CommandOutcomeClass::PartialSuccess => "partial success",
        CommandOutcomeClass::CapabilityUnavailable => "capability unavailable",
        CommandOutcomeClass::StaleState => "stale state",
        CommandOutcomeClass::Interrupted => "interrupted",
        CommandOutcomeClass::Terminated => "terminated",
    }
}

pub open spec fn spec_reason_code_label(code: ReclaimabilityReasonCode) -> Seq<char> {
    match code {
        ReclaimabilityReasonCode::FilesystemIdentityUnavailable => "filesystem_identity_unavailable"@,
        ReclaimabilityReasonCode::AllocationMetadataUnavailable => "allocation_metadata_unavailable"@,
        ReclaimabilityReasonCode::UnobservedHardLinks => "unobserved_hard_links"@,
        ReclaimabilityReasonCode::ExtentSharingUnknown => "extent_sharing_unknown"@,
        ReclaimabilityReasonCode::ArithmeticOverflow => "arithmetic_overflow"@,
        ReclaimabilityReasonCode::PlatformMetadataUnsupported => "platform_metadata_unsupported"@,
    }
}

pub fn reason_code_label(code: ReclaimabilityReasonCode) -> (label: &'static str)
    ensures
        label@ == spec_reason_code_label(code),
{
    match code {
        ReclaimabilityReasonCode::FilesystemIdentityUnavailable => "filesystem_identity_unavailable",
        ReclaimabilityReasonCode::AllocationMetadataUnavailable => "allocation_metadata_unavailable",
        ReclaimabilityReasonCode::UnobservedHardLinks => "unobserved_hard_links",
        ReclaimabilityReasonCode::ExtentSharingUnknown => "extent_sharing_unknown",
        ReclaimabilityReasonCode::ArithmeticOverflow => "arithmetic_overflow",
        ReclaimabilityReasonCode::PlatformMetadataUnsupported => "platform_metadata_unsupported",
    }
}

} // verus!
