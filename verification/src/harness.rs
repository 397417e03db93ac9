//! The benchmark session state machine.
//!
//! One session per backend walks the fixed phase order: environment
//! setup, model load, one fully instrumented "verbose" inference call
//! whose classification is *the* reported result, then the requested
//! number of silent repeat calls measured only in aggregate, and finally
//! the report.  Failures during setup or load are fatal to the session;
//! a failure of the verbose call or of any repeat is recorded (or
//! discarded, for repeats) and the session still runs to its report.
//! The driver around the library performs the timed outside work —
//! engine initialization, the inference calls, the clock — and feeds the
//! outcomes and durations in; every transition and the final report are
//! verified here.

use vstd::prelude::*;

use crate::errors::{error_code, get_error_code, ErrorType};

verus! {

/// Where a session stands.
#[derive(Clone, Copy, Debug, PartialEq, Eq, Structural)]
pub enum SessionPhase {
    Uninitialized,
    EnvironmentReady,
    ModelLoaded,
    FirstRunComplete,
    RepeatsComplete,
    Reported,
}

/// A classification: the winning score's bits and its class index.
pub type Classification = (u32, i32);

/// What a finished session reports: the exit code, the one retained
/// classification (absent on any failure), the per-phase durations of
/// the verbose path, and the aggregate duration of the repeats.
pub struct SessionReport {
    pub exit_code: i32,
    pub classification: Option<Classification>,
    pub env_nanos: u64,
    pub load_nanos: u64,
    pub first_nanos: u64,
    pub repeat_nanos: u64,
    pub repeats: u32,
}

/// One benchmark session over one backend.
pub struct BenchmarkHarness {
    pub phase: SessionPhase,
    pub repeats_requested: u32,
    pub repeats_done: u32,
    pub env_nanos: u64,
    pub load_nanos: u64,
    pub first_nanos: u64,
    pub repeat_nanos: u64,
    pub first_result: Option<Result<Classification, ErrorType>>,
    pub fatal: Option<ErrorType>,
}

impl BenchmarkHarness {
    /// The session invariant: what each phase guarantees about the
    /// recorded state.
    pub open spec fn wf(&self) -> bool {
        &&& self.repeats_done <= self.repeats_requested
        &&& match self.phase {
            SessionPhase::Uninitialized => {
                &&& self.first_result is None
                &&& self.fatal is None
                &&& self.repeats_done == 0
            },
            SessionPhase::EnvironmentReady => {
                &&& self.first_result is None
                &&& self.fatal is None
                &&& self.repeats_done == 0
            },
            SessionPhase::ModelLoaded => {
                &&& self.first_result is None
                &&& self.fatal is None
                &&& self.repeats_done == 0
            },
            SessionPhase::FirstRunComplete => {
                &&& self.first_result is Some
                &&& self.fatal is None
            },
            SessionPhase::RepeatsComplete => {
                &&& self.first_result is Some
                &&& self.fatal is None
                &&& self.repeats_done == self.repeats_requested
            },
            SessionPhase::Reported => {
                self.fatal is Some <==> self.first_result is None
            },
        }
    }

    /// Opens a session that will run one verbose call and `repeats`
    /// silent repeats.
    pub fn new(repeats: u32) -> (h: Self)
        ensures
            h.wf(),
            h.phase == SessionPhase::Uninitialized,
            h.repeats_requested == repeats,
            h.repeats_done == 0,
            h.first_result is None,
            h.fatal is None,
    {
        BenchmarkHarness {
            phase: SessionPhase::Uninitialized,
            repeats_requested: repeats,
            repeats_done: 0,
            env_nanos: 0,
            load_nanos: 0,
            first_nanos: 0,
            repeat_nanos: 0,
            first_result: None,
            fatal: None,
        }
    }

    /// Environment setup succeeded, taking `nanos`.
    pub fn env_ready(&mut self, nanos: u64)
        requires
            old(self).wf(),
            old(self).phase == SessionPhase::Uninitialized,
        ensures
            final(self).wf(),
            final(self).phase == SessionPhase::EnvironmentReady,
            final(self).env_nanos == nanos,
            *final(self) == (BenchmarkHarness {
                phase: SessionPhase::EnvironmentReady,
                env_nanos: nanos,
                ..*old(self)
            }),
    {
        self.phase = SessionPhase::EnvironmentReady;
        self.env_nanos = nanos;
    }

    /// Environment setup failed: fatal, the session aborts to its report
    /// and the documented code is the exit status.
    pub fn env_failed(&mut self, error: ErrorType) -> (code: i32)
        requires
            old(self).wf(),
            old(self).phase == SessionPhase::Uninitialized,
        ensures
            final(self).wf(),
            final(self).phase == SessionPhase::Reported,
            final(self).fatal == Some(error),
            final(self).first_result is None,
            code == error_code(error),
    {
        self.phase = SessionPhase::Reported;
        self.fatal = Some(error);
        get_error_code(error)
    }

    /// The model (or guest module and its entry point) loaded, taking
    /// `nanos`.
    pub fn model_loaded(&mut self, nanos: u64)
        requires
            old(self).wf(),
            old(self).phase == SessionPhase::EnvironmentReady,
        ensures
            final(self).wf(),
            final(self).phase == SessionPhase::ModelLoaded,
            final(self).load_nanos == nanos,
            *final(self) == (BenchmarkHarness {
                phase: SessionPhase::ModelLoaded,
                load_nanos: nanos,
                ..*old(self)
            }),
    {
        self.phase = SessionPhase::ModelLoaded;
        self.load_nanos = nanos;
    }

    /// Model load failed: fatal, as with `env_failed`.
    pub fn model_failed(&mut self, error: ErrorType) -> (code: i32)
        requires
            old(self).wf(),
            old(self).phase == SessionPhase::EnvironmentReady,
        ensures
            final(self).wf(),
            final(self).phase == SessionPhase::Reported,
            final(self).fatal == Some(error),
            final(self).first_result is None,
            code == error_code(error),
    {
        self.phase = SessionPhase::Reported;
        self.fatal = Some(error);
        get_error_code(error)
    }

    /// The verbose call finished, taking `nanos`; its outcome — success
    /// or per-call error — is retained as the session's one result and
    /// does not abort the session.
    pub fn first_run(&mut self, outcome: Result<Classification, ErrorType>, nanos: u64)
        requires
            old(self).wf(),
            old(self).phase == SessionPhase::ModelLoaded,
        ensures
            final(self).wf(),
            final(self).phase == SessionPhase::FirstRunComplete,
            final(self).first_result == Some(outcome),
            final(self).first_nanos == nanos,
            *final(self) == (BenchmarkHarness {
                phase: SessionPhase::FirstRunComplete,
                first_result: Some(outcome),
                first_nanos: nanos,
                ..*old(self)
            }),
    {
        self.phase = SessionPhase::FirstRunComplete;
        self.first_result = Some(outcome);
        self.first_nanos = nanos;
    }

    /// One silent repeat finished.  Its outcome is deliberately not
    /// recorded — repeats are measured only in aggregate — and an error
    /// in one repeat does not stop the remaining ones.
    pub fn repeat_done(&mut self)
        requires
            old(self).wf(),
            old(self).phase == SessionPhase::FirstRunComplete,
            old(self).repeats_done < old(self).repeats_requested,
        ensures
            final(self).wf(),
            final(self).phase == SessionPhase::FirstRunComplete,
            final(self).repeats_done == old(self).repeats_done + 1,
            *final(self) == (BenchmarkHarness {
                repeats_done: (old(self).repeats_done + 1) as u32,
                ..*old(self)
            }),
    {
        self.repeats_done = self.repeats_done + 1;
    }

    /// All requested repeats ran; their aggregate duration is `nanos`.
    pub fn repeats_finished(&mut self, nanos: u64)
        requires
            old(self).wf(),
            old(self).phase == SessionPhase::FirstRunComplete,
            old(self).repeats_done == old(self).repeats_requested,
        ensures
            final(self).wf(),
            final(self).phase == SessionPhase::RepeatsComplete,
            final(self).repeat_nanos == nanos,
            *final(self) == (BenchmarkHarness {
                phase: SessionPhase::RepeatsComplete,
                repeat_nanos: nanos,
                ..*old(self)
            }),
    {
        self.phase = SessionPhase::RepeatsComplete;
        self.repeat_nanos = nanos;
    }

    /// What the report of a completed session holds, as a function of
    /// the session state.
    pub open spec fn report_spec(self) -> SessionReport {
        SessionReport {
            exit_code: match self.first_result {
                Option::Some(Result::Ok(_)) => 0,
                Option::Some(Result::Err(e)) => error_code(e) as i32,
                Option::None => 0,
            },
            classification: match self.first_result {
                Option::Some(Result::Ok(classification)) => Some(classification),
                _ => None,
            },
            env_nanos: self.env_nanos,
            load_nanos: self.load_nanos,
            first_nanos: self.first_nanos,
            repeat_nanos: self.repeat_nanos,
            repeats: self.repeats_requested,
        }
    }

    /// Closes the session and reports: exit code 0 and the one retained
    /// classification on success; on a failed verbose call, that error's
    /// code and no classification.
    pub fn report(&mut self) -> (rep: SessionReport)
        requires
            old(self).wf(),
            old(self).phase == SessionPhase::RepeatsComplete,
        ensures
            final(self).wf(),
            final(self).phase == SessionPhase::Reported,
            rep == old(self).report_spec(),
            rep.exit_code == 0 <==> old(self).first_result matches Some(Result::Ok(_)),
            rep.classification is Some <==> old(self).first_result matches Some(Result::Ok(_)),
    {
        self.phase = SessionPhase::Reported;
        let rep = match &self.first_result {
            Option::Some(Result::Ok(classification)) => SessionReport {
                exit_code: 0,
                classification: Some(*classification),
                env_nanos: self.env_nanos,
                load_nanos: self.load_nanos,
                first_nanos: self.first_nanos,
                repeat_nanos: self.repeat_nanos,
                repeats: self.repeats_requested,
            },
            Option::Some(Result::Err(e)) => SessionReport {
                exit_code: get_error_code(*e),
                classification: None,
                env_nanos: self.env_nanos,
                load_nanos: self.load_nanos,
                first_nanos: self.first_nanos,
                repeat_nanos: self.repeat_nanos,
                repeats: self.repeats_requested,
            },
            Option::None => SessionReport {
                exit_code: 0,
                classification: None,
                env_nanos: self.env_nanos,
                load_nanos: self.load_nanos,
                first_nanos: self.first_nanos,
                repeat_nanos: self.repeat_nanos,
                repeats: self.repeats_requested,
            },
        };
        rep
    }
}

/// Law: a session that completes its repeats reports exactly one
/// classification — the verbose call's — with exit code 0, and one
/// aggregate repeat duration, for exactly the requested repeats.
pub proof fn lemma_successful_session(h: BenchmarkHarness, classification: Classification)
    requires
        h.wf(),
        h.phase == SessionPhase::RepeatsComplete,
        h.first_result == Some(Result::<Classification, ErrorType>::Ok(classification)),
    ensures
        h.report_spec().exit_code == 0,
        h.report_spec().classification == Some(classification),
        h.report_spec().repeat_nanos == h.repeat_nanos,
        h.report_spec().repeats == h.repeats_requested,
        h.repeats_done == h.repeats_requested,
{
}

/// Law: a session whose verbose call failed still completes, reports the
/// failure's documented exit code, and prints no classification.
pub proof fn lemma_failed_run_session(h: BenchmarkHarness, error: ErrorType)
    requires
        h.wf(),
        h.phase == SessionPhase::RepeatsComplete,
        h.first_result == Some(Result::<Classification, ErrorType>::Err(error)),
    ensures
        h.report_spec().exit_code == error_code(error),
        h.report_spec().classification is None,
{
}

} // verus!
