//! The pass that runs after every start that follows a replacement: validate,
//! clean, then measure.

use crate::cleanup::{cleaned, doomed_keys, run_cleanup, CleanupReport};
use crate::stats::{anomalies_spec, detect_anomalies, get_storage_stats, Anomaly, StorageStats};
use crate::store::{Collection, Store};
use crate::validation::{
    count_orphans, findings_view, is_report_of, orphan_count, run_integrity_validation, Finding,
};
use vstd::prelude::*;

verus! {

/// What the start-up pass found and did.
#[derive(Debug, Clone)]
pub struct StartupReport {
    /// What the validator found, before anything was removed.
    pub findings: Vec<Finding>,
    /// What the cleaner removed.
    pub cleanup: CleanupReport,
    /// The statistics of the cleaned store.
    pub stats: StorageStats,
    /// The anomalies of the cleaned store.
    pub anomalies: Vec<Anomaly>,
}

/// Validates the store, cleans it, and evaluates the anomaly rules over what
/// is left. Nothing that is found stops the pass.
pub fn run_startup_checks(store: &mut Store) -> (report: StartupReport)
    requires
        old(store).wf(),
    ensures
        final(store).wf(),
        is_report_of(findings_view(report.findings@), *old(store)),
        forall|c: Collection| #[trigger]
            final(store).contents(c) == cleaned(c, old(store).contents(c)),
        report.cleanup.count_removed == report.cleanup.removed_keys@.len(),
        report.cleanup.ordered(),
        report.cleanup.distinct(),
        forall|c: Collection, k: Seq<u8>| #[trigger]
            report.cleanup.names(c, k) <==> doomed_keys(c, old(store).contents(c)).contains(k),
        report.stats.document_count == final(store).contents(Collection::Documents).dom().len(),
        report.stats.institution_count == final(store).contents(
            Collection::Institutions,
        ).dom().len(),
        report.stats.user_profile_count == final(store).contents(
            Collection::UserProfiles,
        ).dom().len(),
        report.anomalies@ == anomalies_spec(
            report.stats,
            orphan_count(findings_view(report.findings@)) as u64,
        ),
{
    let findings = run_integrity_validation(store);
    let cleanup = run_cleanup(store);
    let stats = get_storage_stats(store);
    let orphaned = count_orphans(&findings);
    let anomalies = detect_anomalies(&stats, orphaned);
    StartupReport { findings, cleanup, stats, anomalies }
}

} // verus!
