//! Diagnostics for package, resource and adapter failures, in the shared
//! diagnostic vocabulary.
//!
//! Each failure keeps a stable code; what varies (the package, the command,
//! the underlying error text) goes in the details, listed in key order as
//! the JSON object writes them. Adapter diagnostics all record that the
//! adapter was disabled at runtime.
use vstd::prelude::*;

use crate::doctor::{
    diag_view, DetailValue, DetailView, DiagView, DiagnosticSource, DoctorDiagnostic, Severity,
};
use crate::text::{chars_of, string_of};

verus! {

/// A diagnostic with the given details and no action.
pub open spec fn bridged(
    severity: Severity,
    code: Seq<char>,
    source: DiagnosticSource,
    message: Seq<char>,
    details: Seq<(Seq<char>, DetailView)>,
) -> DiagView {
    DiagView { severity, code, source, message, details, action: None }
}

/// A text detail.
pub open spec fn text_entry(key: Seq<char>, value: Seq<char>) -> (Seq<char>, DetailView) {
    (key, DetailView::Text(value))
}

/// The detail recording that an adapter was disabled at runtime.
pub open spec fn disabled_entry() -> (Seq<char>, DetailView) {
    ("disabled_at_runtime"@, DetailView::Flag(true))
}

/// A text detail.
fn text_detail(key: &str, value: &str) -> (r: (String, DetailValue))
    ensures
        r.0@ == key@,
        r.1 matches DetailValue::Text(v) && v@ == value@,
{
    (string_of(&chars_of(key)), DetailValue::Text(string_of(&chars_of(value))))
}

/// The detail recording that an adapter was disabled at runtime.
fn disabled_detail() -> (r: (String, DetailValue))
    ensures
        r.0@ == "disabled_at_runtime"@,
        r.1 matches DetailValue::Flag(b) && b,
{
    (string_of(&chars_of("disabled_at_runtime")), DetailValue::Flag(true))
}

/// A diagnostic with the given details and no action.
fn bridge(
    severity: Severity,
    code: &str,
    source: DiagnosticSource,
    message: &str,
    details: Vec<(String, DetailValue)>,
) -> (r: DoctorDiagnostic)
    ensures
        r.severity == severity,
        r.code@ == code@,
        r.source == source,
        r.message@ == message@,
        r.details@ == details@,
        r.action is None,
{
    DoctorDiagnostic {
        severity,
        code: string_of(&chars_of(code)),
        source,
        message: string_of(&chars_of(message)),
        details,
        action: None,
    }
}

/// A fatal installed-package resolution error.
pub fn diagnostic_from_package_resolution_error(error: &str) -> (r: DoctorDiagnostic)
    ensures
        diag_view(r) == bridged(
            Severity::Error,
            "package_resolution_failed"@,
            DiagnosticSource::Package,
            "installed package resolution failed"@,
            seq![text_entry("package_error"@, error@)],
        ),
{
    let mut details: Vec<(String, DetailValue)> = Vec::new();
    details.push(text_detail("package_error", error));
    let r = bridge(
        Severity::Error,
        "package_resolution_failed",
        DiagnosticSource::Package,
        "installed package resolution failed",
        details,
    );
    assert(diag_view(r).details =~= seq![text_entry("package_error"@, error@)]);
    r
}

/// A failed package discovery.
pub fn diagnostic_for_package_discovery_error(error: &str) -> (r: DoctorDiagnostic)
    ensures
        diag_view(r) == bridged(
            Severity::Error,
            "package_diagnostic"@,
            DiagnosticSource::Package,
            "package discovery failed"@,
            seq![text_entry("package_error"@, error@)],
        ),
{
    let mut details: Vec<(String, DetailValue)> = Vec::new();
    details.push(text_detail("package_error", error));
    let r = bridge(
        Severity::Error,
        "package_diagnostic",
        DiagnosticSource::Package,
        "package discovery failed",
        details,
    );
    assert(diag_view(r).details =~= seq![text_entry("package_error"@, error@)]);
    r
}

/// A failed discovery of one kind of resource.
pub fn diagnostic_for_resource_discovery_error(resource_kind: &str, error: &str) -> (r:
    DoctorDiagnostic)
    ensures
        diag_view(r) == bridged(
            Severity::Error,
            "package_diagnostic"@,
            DiagnosticSource::Package,
            "resource discovery failed"@,
            seq![text_entry("package_error"@, error@), text_entry("resource_kind"@, resource_kind@)],
        ),
{
    let mut details: Vec<(String, DetailValue)> = Vec::new();
    details.push(text_detail("package_error", error));
    details.push(text_detail("resource_kind", resource_kind));
    let r = bridge(
        Severity::Error,
        "package_diagnostic",
        DiagnosticSource::Package,
        "resource discovery failed",
        details,
    );
    assert(diag_view(r).details =~= seq![
        text_entry("package_error"@, error@),
        text_entry("resource_kind"@, resource_kind@),
    ]);
    r
}

/// A warning from composing package resources into layers.
pub fn diagnostic_for_resource_layer_message(message: &str) -> (r: DoctorDiagnostic)
    ensures
        diag_view(r) == bridged(
            Severity::Warning,
            "package_diagnostic"@,
            DiagnosticSource::Package,
            "package resource composition diagnostic"@,
            seq![text_entry("package_message"@, message@)],
        ),
{
    let mut details: Vec<(String, DetailValue)> = Vec::new();
    details.push(text_detail("package_message", message));
    let r = bridge(
        Severity::Warning,
        "package_diagnostic",
        DiagnosticSource::Package,
        "package resource composition diagnostic",
        details,
    );
    assert(diag_view(r).details =~= seq![text_entry("package_message"@, message@)]);
    r
}

/// A warning from building the model registry.
pub fn diagnostic_for_model_registry_error(message: &str) -> (r: DoctorDiagnostic)
    ensures
        diag_view(r) == bridged(
            Severity::Warning,
            "package_diagnostic"@,
            DiagnosticSource::Package,
            "model registry diagnostic"@,
            seq![text_entry("package_message"@, message@)],
        ),
{
    let mut details: Vec<(String, DetailValue)> = Vec::new();
    details.push(text_detail("package_message", message));
    let r = bridge(
        Severity::Warning,
        "package_diagnostic",
        DiagnosticSource::Package,
        "model registry diagnostic",
        details,
    );
    assert(diag_view(r).details =~= seq![text_entry("package_message"@, message@)]);
    r
}

/// An adapter that names a protocol other than the one the host speaks.
pub open spec fn protocol_unsupported_diag(
    package_name: Seq<char>,
    actual_protocol: Seq<char>,
    adapter_command: Seq<char>,
) -> DiagView {
    bridged(
        Severity::Error,
        "adapter_protocol_unsupported"@,
        DiagnosticSource::Adapter,
        "unsupported adapter protocol"@,
        seq![
            text_entry("actual_protocol"@, actual_protocol),
            text_entry("adapter_command"@, adapter_command),
            disabled_entry(),
            text_entry("expected_protocol"@, "opi-extension-jsonl-v1"@),
            text_entry("package_name"@, package_name),
        ],
    )
}

/// An adapter that names a protocol other than the one the host speaks.
pub fn diagnostic_for_unsupported_adapter_protocol(
    package_name: &str,
    actual_protocol: &str,
    adapter_command: &str,
) -> (r: DoctorDiagnostic)
    ensures
        diag_view(r) == protocol_unsupported_diag(package_name@, actual_protocol@, adapter_command@),
{
    let mut details: Vec<(String, DetailValue)> = Vec::new();
    details.push(text_detail("actual_protocol", actual_protocol));
    details.push(text_detail("adapter_command", adapter_command));
    details.push(disabled_detail());
    details.push(text_detail("expected_protocol", "opi-extension-jsonl-v1"));
    details.push(text_detail("package_name", package_name));
    let r = bridge(
        Severity::Error,
        "adapter_protocol_unsupported",
        DiagnosticSource::Adapter,
        "unsupported adapter protocol",
        details,
    );
    assert(diag_view(r).details =~= seq![
        text_entry("actual_protocol"@, actual_protocol@),
        text_entry("adapter_command"@, adapter_command@),
        disabled_entry(),
        text_entry("expected_protocol"@, "opi-extension-jsonl-v1"@),
        text_entry("package_name"@, package_name@),
    ]);
    r
}

/// An adapter of a kind other than `process-jsonl`.
pub open spec fn kind_unsupported_diag(
    package_name: Seq<char>,
    actual_kind: Seq<char>,
    adapter_command: Seq<char>,
) -> DiagView {
    bridged(
        Severity::Error,
        "adapter_kind_unsupported"@,
        DiagnosticSource::Adapter,
        "unsupported adapter kind"@,
        seq![
            text_entry("actual_kind"@, actual_kind),
            text_entry("adapter_command"@, adapter_command),
            disabled_entry(),
            text_entry("expected_kind"@, "process-jsonl"@),
            text_entry("package_name"@, package_name),
        ],
    )
}

/// An adapter of a kind other than `process-jsonl`.
pub fn diagnostic_for_unsupported_adapter_kind(
    package_name: &str,
    actual_kind: &str,
    adapter_command: &str,
) -> (r: DoctorDiagnostic)
    ensures
        diag_view(r) == kind_unsupported_diag(package_name@, actual_kind@, adapter_command@),
{
    let mut details: Vec<(String, DetailValue)> = Vec::new();
    details.push(text_detail("actual_kind", actual_kind));
    details.push(text_detail("adapter_command", adapter_command));
    details.push(disabled_detail());
    details.push(text_detail("expected_kind", "process-jsonl"));
    details.push(text_detail("package_name", package_name));
    let r = bridge(
        Severity::Error,
        "adapter_kind_unsupported",
        DiagnosticSource::Adapter,
        "unsupported adapter kind",
        details,
    );
    assert(diag_view(r).details =~= seq![
        text_entry("actual_kind"@, actual_kind@),
        text_entry("adapter_command"@, adapter_command@),
        disabled_entry(),
        text_entry("expected_kind"@, "process-jsonl"@),
        text_entry("package_name"@, package_name@),
    ]);
    r
}

/// The details shared by the adapter failures that carry an error text.
pub open spec fn adapter_error_entries(
    package_name: Seq<char>,
    adapter_command: Seq<char>,
    error: Seq<char>,
) -> Seq<(Seq<char>, DetailView)> {
    seq![
        text_entry("adapter_command"@, adapter_command),
        text_entry("adapter_error"@, error),
        disabled_entry(),
        text_entry("package_name"@, package_name),
    ]
}

/// The details shared by the adapter failures that carry an error text.
fn adapter_error_details(package_name: &str, adapter_command: &str, error: &str) -> (r: Vec<
    (String, DetailValue),
>)
    ensures
        r@.map_values(|e: (String, DetailValue)| (e.0@, crate::doctor::detail_view(e.1)))
            == adapter_error_entries(package_name@, adapter_command@, error@),
{
    let mut details: Vec<(String, DetailValue)> = Vec::new();
    details.push(text_detail("adapter_command", adapter_command));
    details.push(text_detail("adapter_error", error));
    details.push(disabled_detail());
    details.push(text_detail("package_name", package_name));
    assert(details@.map_values(|e: (String, DetailValue)| (e.0@, crate::doctor::detail_view(e.1)))
        =~= adapter_error_entries(package_name@, adapter_command@, error@));
    details
}

/// An adapter command that could not be resolved safely.
pub open spec fn command_invalid_diag(
    package_name: Seq<char>,
    adapter_command: Seq<char>,
    error: Seq<char>,
) -> DiagView {
    bridged(
        Severity::Error,
        "adapter_command_invalid"@,
        DiagnosticSource::Adapter,
        "adapter command invalid"@,
        adapter_error_entries(package_name, adapter_command, error),
    )
}

/// An adapter command that could not be resolved safely.
pub fn diagnostic_for_adapter_command_invalid(
    package_name: &str,
    adapter_command: &str,
    error: &str,
) -> (r: DoctorDiagnostic)
    ensures
        diag_view(r) == command_invalid_diag(package_name@, adapter_command@, error@),
{
    let details = adapter_error_details(package_name, adapter_command, error);
    bridge(
        Severity::Error,
        "adapter_command_invalid",
        DiagnosticSource::Adapter,
        "adapter command invalid",
        details,
    )
}

/// An adapter process that failed to start or to complete its handshake.
pub open spec fn startup_failed_diag(
    package_name: Seq<char>,
    adapter_command: Seq<char>,
    error: Seq<char>,
) -> DiagView {
    bridged(
        Severity::Error,
        "adapter_startup_failed"@,
        DiagnosticSource::Adapter,
        "adapter startup failed"@,
        adapter_error_entries(package_name, adapter_command, error),
    )
}

/// An adapter process that failed to start or to complete its handshake.
pub fn diagnostic_for_adapter_startup_failed(
    package_name: &str,
    adapter_command: &str,
    error: &str,
) -> (r: DoctorDiagnostic)
    ensures
        diag_view(r) == startup_failed_diag(package_name@, adapter_command@, error@),
{
    let details = adapter_error_details(package_name, adapter_command, error);
    bridge(
        Severity::Error,
        "adapter_startup_failed",
        DiagnosticSource::Adapter,
        "adapter startup failed",
        details,
    )
}

/// A started adapter that the extension registry refused.
pub fn diagnostic_for_adapter_registration_failed(package_name: &str, error: &str) -> (r:
    DoctorDiagnostic)
    ensures
        diag_view(r) == bridged(
            Severity::Error,
            "adapter_registration_failed"@,
            DiagnosticSource::Adapter,
            "adapter registration failed"@,
            seq![
                text_entry("adapter_error"@, error@),
                disabled_entry(),
                text_entry("package_name"@, package_name@),
            ],
        ),
{
    let mut details: Vec<(String, DetailValue)> = Vec::new();
    details.push(text_detail("adapter_error", error));
    details.push(disabled_detail());
    details.push(text_detail("package_name", package_name));
    let r = bridge(
        Severity::Error,
        "adapter_registration_failed",
        DiagnosticSource::Adapter,
        "adapter registration failed",
        details,
    );
    assert(diag_view(r).details =~= seq![
        text_entry("adapter_error"@, error@),
        disabled_entry(),
        text_entry("package_name"@, package_name@),
    ]);
    r
}

/// A warning the adapter host recorded for a running adapter.
pub fn diagnostic_for_adapter_host_message(package_name: &str, message: &str) -> (r:
    DoctorDiagnostic)
    ensures
        diag_view(r) == bridged(
            Severity::Warning,
            "adapter_host_diagnostic"@,
            DiagnosticSource::Adapter,
            "adapter host diagnostic"@,
            seq![text_entry("adapter_error"@, message@), text_entry("package_name"@, package_name@)],
        ),
{
    let mut details: Vec<(String, DetailValue)> = Vec::new();
    details.push(text_detail("adapter_error", message));
    details.push(text_detail("package_name", package_name));
    let r = bridge(
        Severity::Warning,
        "adapter_host_diagnostic",
        DiagnosticSource::Adapter,
        "adapter host diagnostic",
        details,
    );
    assert(diag_view(r).details =~= seq![
        text_entry("adapter_error"@, message@),
        text_entry("package_name"@, package_name@),
    ]);
    r
}

} // verus!
