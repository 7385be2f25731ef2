//! Complete slice reports.

use vstd::prelude::*;

use crate::hashing::uuid_v5_of;
use crate::json::byte_array;
use crate::json::json_bytes;
use crate::json::json_of;
use crate::json::JsonView;
use crate::plan::ExecutablePlan;
use crate::plan::ExecutablePlanView;
use crate::plan::PlanDiagnostic;
use crate::plan::PlanDiagnosticView;
use crate::plan::PlannedOperation;
use crate::plan::PlannedOperationView;
use crate::slice::DesiredSlice;
use crate::slice::DesiredSliceView;
use crate::text::Plus as _;

verus! {

broadcast use crate::model::group_model;

/// The values that one component publishes.
#[derive(Debug, PartialEq, Eq)]
pub struct ComponentOutputs {
    /// Producer spec hash.
    pub component_spec_hash: Vec<u8>,
    /// Canonical JSON object bytes.
    pub values_json: Vec<u8>,
}

/// What a [`ComponentOutputs`] holds.
#[verifier::ext_equal]
pub struct ComponentOutputsView {
    pub component_spec_hash: Seq<u8>,
    pub values_json: Seq<u8>,
}

impl DeepView for ComponentOutputs {
    type V = ComponentOutputsView;

    open spec fn deep_view(&self) -> ComponentOutputsView {
        ComponentOutputsView {
            component_spec_hash: self.component_spec_hash@,
            values_json: self.values_json@,
        }
    }
}

impl View for ComponentOutputs {
    type V = ComponentOutputsView;

    open spec fn view(&self) -> ComponentOutputsView {
        self.deep_view()
    }
}

impl Clone for ComponentOutputs {
    fn clone(&self) -> (r: Self)
        ensures
            r@ == self@,
    {
        ComponentOutputs {
            component_spec_hash: crate::model::copy_bytes(&self.component_spec_hash),
            values_json: crate::model::copy_bytes(&self.values_json),
        }
    }
}

/// How serious a diagnostic is.
#[derive(Clone, Copy, Debug, PartialEq, Eq, Structural)]
pub enum DiagnosticSeverity {
    /// The level cannot be reached as it is.
    Error,
    /// The level is being worked on.
    Info,
}

/// One canonical finding about a level.
#[derive(Debug, PartialEq, Eq)]
pub struct Diagnostic {
    /// Stable code.
    pub code: String,
    /// Canonical safe detail.
    pub message: String,
    /// How serious the finding is.
    pub severity: DiagnosticSeverity,
    /// The component that the finding is about.
    pub component_spec_hash: Option<Vec<u8>>,
    /// Actionable guidance.
    pub help: Option<String>,
    /// RFC 6901 connector-context pointer.
    pub pointer: Option<String>,
}

/// What a [`Diagnostic`] holds.
#[verifier::ext_equal]
pub struct DiagnosticView {
    pub code: Seq<char>,
    pub message: Seq<char>,
    pub severity: DiagnosticSeverity,
    pub component_spec_hash: Option<Seq<u8>>,
    pub help: Option<Seq<char>>,
    pub pointer: Option<Seq<char>>,
}

impl DeepView for Diagnostic {
    type V = DiagnosticView;

    open spec fn deep_view(&self) -> DiagnosticView {
        DiagnosticView {
            code: self.code@,
            message: self.message@,
            severity: self.severity,
            component_spec_hash: match self.component_spec_hash {
                Some(value) => Some(value@),
                None => None,
            },
            help: match self.help {
                Some(value) => Some(value@),
                None => None,
            },
            pointer: match self.pointer {
                Some(value) => Some(value@),
                None => None,
            },
        }
    }
}

impl View for Diagnostic {
    type V = DiagnosticView;

    open spec fn view(&self) -> DiagnosticView {
        self.deep_view()
    }
}

impl Clone for Diagnostic {
    fn clone(&self) -> (r: Self)
        ensures
            r@ == self@,
    {
        Diagnostic {
            code: self.code.clone(),
            message: self.message.clone(),
            severity: self.severity,
            component_spec_hash: match &self.component_spec_hash {
                Some(value) => Some(crate::model::copy_bytes(value)),
                None => None,
            },
            help: match &self.help {
                Some(value) => Some(value.clone()),
                None => None,
            },
            pointer: match &self.pointer {
                Some(value) => Some(value.clone()),
                None => None,
            },
        }
    }
}

/// Where a component stands.
#[derive(Clone, Copy, Debug, PartialEq, Eq, Structural)]
pub enum ComponentDispositionKind {
    /// The component cannot be reconciled as it is.
    Failed,
    /// The component is being reconciled.
    Reconciling,
    /// The component is as desired.
    Ready,
}

/// Where one component stands.
#[derive(Debug, PartialEq, Eq)]
pub struct ComponentDisposition {
    /// Component spec hash.
    pub component_spec_hash: Vec<u8>,
    /// Where the component stands.
    pub kind: ComponentDispositionKind,
}

/// What a [`ComponentDisposition`] holds.
#[verifier::ext_equal]
pub struct ComponentDispositionView {
    pub component_spec_hash: Seq<u8>,
    pub kind: ComponentDispositionKind,
}

impl DeepView for ComponentDisposition {
    type V = ComponentDispositionView;

    open spec fn deep_view(&self) -> ComponentDispositionView {
        ComponentDispositionView {
            component_spec_hash: self.component_spec_hash@,
            kind: self.kind,
        }
    }
}

impl View for ComponentDisposition {
    type V = ComponentDispositionView;

    open spec fn view(&self) -> ComponentDispositionView {
        self.deep_view()
    }
}

impl Clone for ComponentDisposition {
    fn clone(&self) -> (r: Self)
        ensures
            r@ == self@,
    {
        ComponentDisposition {
            component_spec_hash: crate::model::copy_bytes(&self.component_spec_hash),
            kind: self.kind,
        }
    }
}

/// What a publication rests on.
#[derive(Debug, PartialEq, Eq)]
pub struct PublicationEvidence {
    /// The observed target revision.
    pub revision: String,
    /// The journal position.
    pub uri: String,
}

/// What a [`PublicationEvidence`] holds.
#[verifier::ext_equal]
pub struct PublicationEvidenceView {
    pub revision: Seq<char>,
    pub uri: Seq<char>,
}

impl DeepView for PublicationEvidence {
    type V = PublicationEvidenceView;

    open spec fn deep_view(&self) -> PublicationEvidenceView {
        PublicationEvidenceView {
            revision: self.revision@,
            uri: self.uri@,
        }
    }
}

impl View for PublicationEvidence {
    type V = PublicationEvidenceView;

    open spec fn view(&self) -> PublicationEvidenceView {
        self.deep_view()
    }
}

impl Clone for PublicationEvidence {
    fn clone(&self) -> (r: Self)
        ensures
            r@ == self@,
    {
        PublicationEvidence {
            revision: self.revision.clone(),
            uri: self.uri.clone(),
        }
    }
}

/// One atomic report of a complete slice level.
#[derive(Debug, PartialEq, Eq)]
pub struct SliceReport {
    /// Raw graph UUID bytes.
    pub graph_id: Vec<u8>,
    /// Desired generation.
    pub generation: u64,
    /// Connector registry key.
    pub connector: String,
    /// Where every component stands.
    pub dispositions: Vec<ComponentDisposition>,
    /// The published outputs.
    pub outputs: Vec<ComponentOutputs>,
    /// The findings.
    pub diagnostics: Vec<Diagnostic>,
    /// Exact slice sequence.
    pub sequence: u64,
    /// What the publication rests on.
    pub publication: Option<PublicationEvidence>,
}

/// What a [`SliceReport`] holds.
#[verifier::ext_equal]
pub struct SliceReportView {
    pub graph_id: Seq<u8>,
    pub generation: u64,
    pub connector: Seq<char>,
    pub dispositions: Seq<ComponentDispositionView>,
    pub outputs: Seq<ComponentOutputsView>,
    pub diagnostics: Seq<DiagnosticView>,
    pub sequence: u64,
    pub publication: Option<PublicationEvidenceView>,
}

impl DeepView for SliceReport {
    type V = SliceReportView;

    open spec fn deep_view(&self) -> SliceReportView {
        SliceReportView {
            graph_id: self.graph_id@,
            generation: self.generation,
            connector: self.connector@,
            dispositions: self.dispositions.deep_view(),
            outputs: self.outputs.deep_view(),
            diagnostics: self.diagnostics.deep_view(),
            sequence: self.sequence,
            publication: match self.publication {
                Some(value) => Some(value@),
                None => None,
            },
        }
    }
}

impl View for SliceReport {
    type V = SliceReportView;

    open spec fn view(&self) -> SliceReportView {
        self.deep_view()
    }
}

impl Clone for SliceReport {
    fn clone(&self) -> (r: Self)
        ensures
            r@ == self@,
    {
        let r = SliceReport {
            graph_id: crate::model::copy_bytes(&self.graph_id),
            generation: self.generation,
            connector: self.connector.clone(),
            dispositions: self.dispositions.clone(),
            outputs: self.outputs.clone(),
            diagnostics: self.diagnostics.clone(),
            sequence: self.sequence,
            publication: match &self.publication {
                Some(value) => Some(value.clone()),
                None => None,
            },
        };
        assert(r.dispositions.deep_view() =~= self.dispositions.deep_view());
        assert(r.outputs.deep_view() =~= self.outputs.deep_view());
        assert(r.diagnostics.deep_view() =~= self.diagnostics.deep_view());
        r
    }
}

/// A report as it is delivered and kept.
#[derive(Debug, PartialEq, Eq)]
pub struct ReportSnapshot {
    /// Stable delivery identity.
    pub request_id: Vec<u8>,
    /// Stable identity of the published outputs.
    pub publication_id: Option<Vec<u8>>,
    /// The report.
    pub report: SliceReport,
}

/// What a [`ReportSnapshot`] holds.
#[verifier::ext_equal]
pub struct ReportSnapshotView {
    pub request_id: Seq<u8>,
    pub publication_id: Option<Seq<u8>>,
    pub report: SliceReportView,
}

impl DeepView for ReportSnapshot {
    type V = ReportSnapshotView;

    open spec fn deep_view(&self) -> ReportSnapshotView {
        ReportSnapshotView {
            request_id: self.request_id@,
            publication_id: match self.publication_id {
                Some(value) => Some(value@),
                None => None,
            },
            report: self.report@,
        }
    }
}

impl View for ReportSnapshot {
    type V = ReportSnapshotView;

    open spec fn view(&self) -> ReportSnapshotView {
        self.deep_view()
    }
}

impl Clone for ReportSnapshot {
    fn clone(&self) -> (r: Self)
        ensures
            r@ == self@,
    {
        ReportSnapshot {
            request_id: crate::model::copy_bytes(&self.request_id),
            publication_id: match &self.publication_id {
                Some(value) => Some(crate::model::copy_bytes(value)),
                None => None,
            },
            report: self.report.clone(),
        }
    }
}

// ---------------------------------------------------------------------------
// Diagnostics
// ---------------------------------------------------------------------------

/// A finding of the given severity.
pub open spec fn finding(
    severity: DiagnosticSeverity,
    code: Seq<char>,
    message: Seq<char>,
    component_spec_hash: Option<Seq<u8>>,
    help: Option<Seq<char>>,
    pointer: Option<Seq<char>>,
) -> DiagnosticView {
    DiagnosticView { code, message, severity, component_spec_hash, help, pointer }
}

/// A plan-phase failure as a finding.
pub open spec fn plan_finding(item: PlanDiagnosticView) -> DiagnosticView {
    finding(
        DiagnosticSeverity::Error,
        item.code,
        item.message,
        Some(item.component_spec_hash),
        Some(item.help),
        Some(item.pointer),
    )
}

/// Plan-phase failures as findings.
pub open spec fn plan_findings(items: Seq<PlanDiagnosticView>) -> Seq<DiagnosticView> {
    Seq::new(items.len(), |i: int| plan_finding(items[i]))
}

fn optional_text(value: Option<&str>) -> (r: Option<String>)
    ensures
        r.deep_view() == value.deep_view(),
{
    match value {
        Some(text) => Some(text.to_owned()),
        None => None,
    }
}

/// An error finding.
pub fn diagnostic(
    code: &str,
    message: &str,
    component_spec_hash: Option<Vec<u8>>,
    help: Option<&str>,
    pointer: Option<&str>,
) -> (r: Diagnostic)
    ensures
        r@ == finding(
            DiagnosticSeverity::Error,
            code@,
            message@,
            match component_spec_hash {
                Some(hash) => Some(hash@),
                None => None,
            },
            help.deep_view(),
            pointer.deep_view(),
        ),
{
    Diagnostic {
        code: code.to_owned(),
        message: message.to_owned(),
        severity: DiagnosticSeverity::Error,
        component_spec_hash,
        help: optional_text(help),
        pointer: optional_text(pointer),
    }
}

/// Plan-phase failures as findings.
pub fn plan_diagnostics(items: &Vec<PlanDiagnostic>) -> (r: Vec<Diagnostic>)
    ensures
        r.deep_view() == plan_findings(items.deep_view()),
{
    let ghost all = items.deep_view();
    let mut findings: Vec<Diagnostic> = Vec::new();
    let mut i: usize = 0;
    while i < items.len()
        invariant
            i <= items@.len(),
            all == items.deep_view(),
            findings@.len() == i,
            forall|j: int| 0 <= j < i ==> (#[trigger] findings@[j])@ == plan_finding(all[j]),
        decreases items.len() - i,
    {
        let item = &items[i];
        assert(all[i as int] == item@);
        let hash = vstd::slice::slice_to_vec(&item.component_spec_hash);
        findings.push(
            diagnostic(
                item.code.as_str(),
                item.message.as_str(),
                Some(hash),
                Some(item.help.as_str()),
                Some(item.pointer.as_str()),
            ),
        );
        i += 1;
    }
    assert(findings.deep_view() =~= plan_findings(all));
    findings
}

// ---------------------------------------------------------------------------
// Reports
// ---------------------------------------------------------------------------

/// Every component of the level stands at the same point.
pub open spec fn standing(
    desired: DesiredSliceView,
    kind: ComponentDispositionKind,
) -> Seq<ComponentDispositionView> {
    Seq::new(
        desired.components.len(),
        |i: int|
            ComponentDispositionView {
                component_spec_hash: desired.components[i].spec_hash,
                kind,
            },
    )
}

/// The report of a complete level.
pub open spec fn report_of(
    desired: DesiredSliceView,
    kind: ComponentDispositionKind,
    outputs: Seq<ComponentOutputsView>,
    diagnostics: Seq<DiagnosticView>,
    publication: Option<PublicationEvidenceView>,
) -> SliceReportView {
    SliceReportView {
        graph_id: desired.graph_id,
        generation: desired.generation,
        connector: crate::CONNECTOR_NAME@,
        dispositions: standing(desired, kind),
        outputs,
        diagnostics,
        sequence: desired.sequence,
        publication,
    }
}

/// The level cannot be reached as it is.
pub open spec fn failed_level(
    desired: DesiredSliceView,
    diagnostics: Seq<DiagnosticView>,
) -> SliceReportView {
    report_of(desired, ComponentDispositionKind::Failed, seq![], diagnostics, None)
}

/// The level is being worked on.
pub open spec fn reconciling_level(
    desired: DesiredSliceView,
    code: Seq<char>,
    message: Seq<char>,
    help: Seq<char>,
) -> SliceReportView {
    report_of(
        desired,
        ComponentDispositionKind::Reconciling,
        seq![],
        seq![finding(DiagnosticSeverity::Info, code, message, None, Some(help), None)],
        None,
    )
}

/// One operation of the level is done.
pub open spec fn operation_level(
    desired: DesiredSliceView,
    operation: PlannedOperationView,
    plan: ExecutablePlanView,
) -> SliceReportView {
    reconciling_level(
        desired,
        "supabase.apply.operation-complete"@,
        "operation "@ + operation.id + " ("@ + operation.address + ") from plan "@ + plan.plan_id
            + " reached its postcondition"@,
        "The next pass re-observes and replans the remaining level."@,
    )
}

/// The level is as desired.
pub open spec fn ready_level(
    desired: DesiredSliceView,
    outputs: Seq<ComponentOutputsView>,
    publication: PublicationEvidenceView,
) -> SliceReportView {
    report_of(
        desired,
        ComponentDispositionKind::Ready,
        outputs,
        seq![],
        Some(publication),
    )
}

fn dispositions(desired: &DesiredSlice, kind: ComponentDispositionKind) -> (r: Vec<
    ComponentDisposition,
>)
    ensures
        r.deep_view() == standing(desired@, kind),
{
    let pins = crate::slice::pins(&desired.components);
    let ghost all = desired@.components;
    let mut dispositions: Vec<ComponentDisposition> = Vec::new();
    let mut i: usize = 0;
    while i < pins.len()
        invariant
            i <= pins@.len(),
            all == pins.deep_view(),
            all == desired@.components,
            dispositions@.len() == i,
            forall|j: int|
                0 <= j < i ==> (#[trigger] dispositions@[j])@ == standing(desired@, kind)[j],
        decreases pins.len() - i,
    {
        assert(all[i as int] == pins@[i as int]@);
        dispositions.push(
            ComponentDisposition {
                component_spec_hash: vstd::slice::slice_to_vec(&pins[i].spec_hash),
                kind,
            },
        );
        i += 1;
    }
    assert(dispositions.deep_view() =~= standing(desired@, kind));
    dispositions
}

/// The report of a complete level.
pub fn report_for(
    desired: &DesiredSlice,
    kind: ComponentDispositionKind,
    outputs: Vec<ComponentOutputs>,
    diagnostics: Vec<Diagnostic>,
    publication: Option<PublicationEvidence>,
) -> (r: SliceReport)
    ensures
        r@ == report_of(
            desired@,
            kind,
            outputs.deep_view(),
            diagnostics.deep_view(),
            match publication {
                Some(value) => Some(value@),
                None => None,
            },
        ),
{
    SliceReport {
        graph_id: vstd::slice::slice_to_vec(&desired.graph_id),
        generation: desired.generation,
        connector: crate::CONNECTOR_NAME.to_owned(),
        dispositions: dispositions(desired, kind),
        outputs,
        diagnostics,
        sequence: desired.sequence,
        publication,
    }
}

fn no_outputs() -> (r: Vec<ComponentOutputs>)
    ensures
        r.deep_view() == Seq::<ComponentOutputsView>::empty(),
{
    let r: Vec<ComponentOutputs> = Vec::new();
    assert(r.deep_view() =~= Seq::<ComponentOutputsView>::empty());
    r
}

/// Reports that the level cannot be reached as it is.
pub fn failed_report(desired: &DesiredSlice, diagnostics: Vec<Diagnostic>) -> (r: SliceReport)
    ensures
        r@ == failed_level(desired@, diagnostics.deep_view()),
{
    report_for(desired, ComponentDispositionKind::Failed, no_outputs(), diagnostics, None)
}

/// Reports that the level is being worked on.
pub fn reconciling_report(desired: &DesiredSlice, code: &str, message: &str, help: &str) -> (r:
    SliceReport)
    ensures
        r@ == reconciling_level(desired@, code@, message@, help@),
{
    let mut progress = diagnostic(code, message, None, Some(help), None);
    progress.severity = DiagnosticSeverity::Info;
    let mut diagnostics: Vec<Diagnostic> = Vec::new();
    diagnostics.push(progress);
    assert(diagnostics.deep_view() =~= seq![
        finding(DiagnosticSeverity::Info, code@, message@, None, Some(help@), None),
    ]);
    report_for(desired, ComponentDispositionKind::Reconciling, no_outputs(), diagnostics, None)
}

/// Reports that one operation of the level is done.
pub fn operation_report(
    desired: &DesiredSlice,
    operation: &PlannedOperation,
    plan: &ExecutablePlan,
) -> (r: SliceReport)
    ensures
        r@ == operation_level(desired@, operation@, plan@),
{
    let message = "operation ".to_owned().plus(operation.id.as_str()).plus(" (").plus(
        operation.address.as_str(),
    ).plus(") from plan ").plus(plan.plan_id.as_str()).plus(" reached its postcondition");
    reconciling_report(
        desired,
        "supabase.apply.operation-complete",
        message.as_str(),
        "The next pass re-observes and replans the remaining level.",
    )
}

/// Reports that the level is as desired.
pub fn ready_report(
    desired: &DesiredSlice,
    outputs: Vec<ComponentOutputs>,
    publication: PublicationEvidence,
) -> (r: SliceReport)
    ensures
        r@ == ready_level(desired@, outputs.deep_view(), publication@),
{
    let diagnostics: Vec<Diagnostic> = Vec::new();
    assert(diagnostics.deep_view() =~= Seq::<DiagnosticView>::empty());
    report_for(
        desired,
        ComponentDispositionKind::Ready,
        outputs,
        diagnostics,
        Some(publication),
    )
}

// ---------------------------------------------------------------------------
// Publication identity
// ---------------------------------------------------------------------------

/// The namespace of publication identities.
pub open spec fn publication_namespace() -> Seq<u8> {
    seq![
        0xbcu8,
        0xd8,
        0x7a,
        0x63,
        0xca,
        0xd4,
        0x56,
        0x14,
        0x88,
        0x26,
        0x38,
        0xdb,
        0x23,
        0x78,
        0xe9,
        0x27,
    ]
}

fn namespace() -> (r: [u8; 16])
    ensures
        r@ == publication_namespace(),
{
    let r = [
        0xbcu8,
        0xd8,
        0x7a,
        0x63,
        0xca,
        0xd4,
        0x56,
        0x14,
        0x88,
        0x26,
        0x38,
        0xdb,
        0x23,
        0x78,
        0xe9,
        0x27,
    ];
    assert(r@ =~= publication_namespace());
    r
}

/// The outputs as a document: for each the producer's hash and the values, as arrays of bytes.
pub open spec fn publication_document(outputs: Seq<ComponentOutputsView>) -> JsonView {
    JsonView::Array(
        Seq::new(
            outputs.len(),
            |i: int|
                JsonView::Array(
                    seq![
                        byte_array(outputs[i].component_spec_hash),
                        byte_array(outputs[i].values_json),
                    ],
                ),
        ),
    )
}

/// The identity of published outputs: equal outputs have equal identities.
pub open spec fn publication_identity(outputs: Seq<ComponentOutputsView>) -> Option<Seq<u8>> {
    if outputs.len() == 0 {
        None
    } else {
        Some(
            uuid_v5_of(publication_namespace(), json_bytes(publication_document(outputs))),
        )
    }
}

fn pair(first: serde_json::Value, second: serde_json::Value) -> (r: serde_json::Value)
    ensures
        json_of(r) == JsonView::Array(seq![json_of(first), json_of(second)]),
{
    let mut items: Vec<serde_json::Value> = Vec::new();
    items.push(first);
    items.push(second);
    assert(crate::json::json_all(items@) =~= seq![json_of(first), json_of(second)]);
    crate::json::array(items)
}

/// The identity of a report's published outputs.
pub fn stable_publication_id(report: &SliceReport) -> (r: Option<Vec<u8>>)
    ensures
        match r {
            Some(id) => publication_identity(report@.outputs) == Some(id@),
            None => publication_identity(report@.outputs) is None,
        },
{
    if report.outputs.len() == 0 {
        return None;
    }
    let ghost all = report@.outputs;
    let mut items: Vec<serde_json::Value> = Vec::new();
    let mut i: usize = 0;
    while i < report.outputs.len()
        invariant
            i <= report.outputs@.len(),
            all == report.outputs.deep_view(),
            items@.len() == i,
            forall|j: int|
                0 <= j < i ==> json_of(#[trigger] items@[j]) == JsonView::Array(
                    seq![
                        byte_array(all[j].component_spec_hash),
                        byte_array(all[j].values_json),
                    ],
                ),
        decreases report.outputs.len() - i,
    {
        let output = &report.outputs[i];
        assert(all[i as int] == output@);
        items.push(
            pair(
                crate::json::bytes(&output.component_spec_hash),
                crate::json::bytes(&output.values_json),
            ),
        );
        i += 1;
    }
    assert(crate::json::json_all(items@) =~= Seq::new(
        all.len(),
        |i: int|
            JsonView::Array(
                seq![byte_array(all[i].component_spec_hash), byte_array(all[i].values_json)],
            ),
    ));
    let bytes = crate::json::to_bytes(&crate::json::array(items));
    let id = crate::hashing::uuid_v5(namespace(), &bytes);
    Some(vstd::slice::slice_to_vec(&id))
}

}
