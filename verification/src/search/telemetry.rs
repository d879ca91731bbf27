//! Counters gathered during a search.
use vstd::prelude::*;

verus! {

#[derive(Clone, Copy, Debug, Default, PartialEq, Eq)]
pub struct SearchTelemetry {
    pub main_nodes: u64,
    pub q_nodes: u64,
    pub eval_calls: u64,
    pub tt_hits: u64,
    pub tt_cutoffs: u64,
    pub tt_static_eval_reuses: u64,
    pub razor_cutoffs: u64,
    pub rfp_cutoffs: u64,
    pub null_attempts: u64,
    pub null_cutoffs: u64,
    pub probcut_attempts: u64,
    pub probcut_qsearch_passes: u64,
    pub probcut_cutoffs: u64,
    pub futility_skips: u64,
    pub late_quiet_skips: u64,
    pub lmr_attempts: u64,
    pub lmr_cutoffs: u64,
    pub lmr_researches: u64,
}

/// Adding the two sets of counters overflows none of them.
pub open spec fn telemetry_sum_fits(a: SearchTelemetry, b: SearchTelemetry) -> bool {
    &&& a.main_nodes + b.main_nodes <= u64::MAX
    &&& a.q_nodes + b.q_nodes <= u64::MAX
    &&& a.eval_calls + b.eval_calls <= u64::MAX
    &&& a.tt_hits + b.tt_hits <= u64::MAX
    &&& a.tt_cutoffs + b.tt_cutoffs <= u64::MAX
    &&& a.tt_static_eval_reuses + b.tt_static_eval_reuses <= u64::MAX
    &&& a.razor_cutoffs + b.razor_cutoffs <= u64::MAX
    &&& a.rfp_cutoffs + b.rfp_cutoffs <= u64::MAX
    &&& a.null_attempts + b.null_attempts <= u64::MAX
    &&& a.null_cutoffs + b.null_cutoffs <= u64::MAX
    &&& a.probcut_attempts + b.probcut_attempts <= u64::MAX
    &&& a.probcut_qsearch_passes + b.probcut_qsearch_passes <= u64::MAX
    &&& a.probcut_cutoffs + b.probcut_cutoffs <= u64::MAX
    &&& a.futility_skips + b.futility_skips <= u64::MAX
    &&& a.late_quiet_skips + b.late_quiet_skips <= u64::MAX
    &&& a.lmr_attempts + b.lmr_attempts <= u64::MAX
    &&& a.lmr_cutoffs + b.lmr_cutoffs <= u64::MAX
    &&& a.lmr_researches + b.lmr_researches <= u64::MAX
}

/// Every counter of `r` is the sum of the counters of `a` and `b`.
pub open spec fn telemetry_is_sum(r: SearchTelemetry, a: SearchTelemetry, b: SearchTelemetry) -> bool {
    &&& r.main_nodes == a.main_nodes + b.main_nodes
    &&& r.q_nodes == a.q_nodes + b.q_nodes
    &&& r.eval_calls == a.eval_calls + b.eval_calls
    &&& r.tt_hits == a.tt_hits + b.tt_hits
    &&& r.tt_cutoffs == a.tt_cutoffs + b.tt_cutoffs
    &&& r.tt_static_eval_reuses == a.tt_static_eval_reuses + b.tt_static_eval_reuses
    &&& r.razor_cutoffs == a.razor_cutoffs + b.razor_cutoffs
    &&& r.rfp_cutoffs == a.rfp_cutoffs + b.rfp_cutoffs
    &&& r.null_attempts == a.null_attempts + b.null_attempts
    &&& r.null_cutoffs == a.null_cutoffs + b.null_cutoffs
    &&& r.probcut_attempts == a.probcut_attempts + b.probcut_attempts
    &&& r.probcut_qsearch_passes == a.probcut_qsearch_passes + b.probcut_qsearch_passes
    &&& r.probcut_cutoffs == a.probcut_cutoffs + b.probcut_cutoffs
    &&& r.futility_skips == a.futility_skips + b.futility_skips
    &&& r.late_quiet_skips == a.late_quiet_skips + b.late_quiet_skips
    &&& r.lmr_attempts == a.lmr_attempts + b.lmr_attempts
    &&& r.lmr_cutoffs == a.lmr_cutoffs + b.lmr_cutoffs
    &&& r.lmr_researches == a.lmr_researches + b.lmr_researches
}

impl SearchTelemetry {
    /// Adds `other`'s counters to these.
    pub fn add(&mut self, other: Self)
        requires
            telemetry_sum_fits(*old(self), other),
        ensures
            telemetry_is_sum(*final(self), *old(self), other),
    {
        self.main_nodes = self.main_nodes + other.main_nodes;
        self.q_nodes = self.q_nodes + other.q_nodes;
        self.eval_calls = self.eval_calls + other.eval_calls;
        self.tt_hits = self.tt_hits + other.tt_hits;
        self.tt_cutoffs = self.tt_cutoffs + other.tt_cutoffs;
        self.tt_static_eval_reuses = self.tt_static_eval_reuses + other.tt_static_eval_reuses;
        self.razor_cutoffs = self.razor_cutoffs + other.razor_cutoffs;
        self.rfp_cutoffs = self.rfp_cutoffs + other.rfp_cutoffs;
        self.null_attempts = self.null_attempts + other.null_attempts;
        self.null_cutoffs = self.null_cutoffs + other.null_cutoffs;
        self.probcut_attempts = self.probcut_attempts + other.probcut_attempts;
        self.probcut_qsearch_passes = self.probcut_qsearch_passes + other.probcut_qsearch_passes;
        self.probcut_cutoffs = self.probcut_cutoffs + other.probcut_cutoffs;
        self.futility_skips = self.futility_skips + other.futility_skips;
        self.late_quiet_skips = self.late_quiet_skips + other.late_quiet_skips;
        self.lmr_attempts = self.lmr_attempts + other.lmr_attempts;
        self.lmr_cutoffs = self.lmr_cutoffs + other.lmr_cutoffs;
        self.lmr_researches = self.lmr_researches + other.lmr_researches;
    }
}

} // verus!
