use vstd::prelude::*;

use crate::errors::EngineError;
use crate::host::{InstanceIdentity, SpecIdentity};
use crate::marker::{
    parse_completion_payload, parse_session_start, spec_completion_fields, spec_session_id,
};
use crate::paths::{derive_name, get_log_path, spec_derive_name, spec_log_path};
use crate::strutil::{spec_split_spaces, str_eq};
use crate::timing::{get_build_time, spec_build_time};

verus! {

/// One entry read from the event log: the producer's tag, the free-form
/// message payload (absent when the entry carries none), and the entry's
/// recorded wall-clock timestamp in microseconds since the epoch.
pub struct LogEntry {
    pub tag: String,
    pub payload: Option<String>,
    pub timestamp_usec: u64,
}

/// The spec-level image of a `LogEntry`.
pub ghost struct SpecEntry {
    pub tag: Seq<char>,
    pub payload: Option<Seq<char>>,
    pub timestamp_usec: u64,
}

impl View for LogEntry {
    type V = SpecEntry;

    open spec fn view(&self) -> SpecEntry {
        SpecEntry {
            tag: self.tag@,
            payload: crate::host::opt_str_view(self.payload),
            timestamp_usec: self.timestamp_usec,
        }
    }
}

/// The correlation state: the most recently observed session id, if any.
/// Once set it persists until overwritten by a later session-start marker.
pub struct CorrelationState {
    pub current_session_id: Option<i64>,
}

impl CorrelationState {
    /// The state before any session-start marker has been observed.
    pub fn new() -> (r: CorrelationState)
        ensures
            r.current_session_id is None,
    {
        CorrelationState { current_session_id: None }
    }
}

/// One fully correlated build, the unit handed to the sink.
#[derive(Debug)]
pub struct BuildRecord {
    pub name: String,
    pub drv_path: String,
    pub out_paths: Vec<String>,
    pub timestamp_usec: u64,
    pub build_elapsed_usec: u64,
    pub instance_type: String,
    pub instance_id: String,
    pub pull_request_number: i64,
}

/// The spec-level image of a `BuildRecord`.
pub ghost struct SpecBuildRecord {
    pub name: Seq<char>,
    pub drv_path: Seq<char>,
    pub out_paths: Seq<Seq<char>>,
    pub timestamp_usec: u64,
    pub build_elapsed_usec: u64,
    pub instance_type: Seq<char>,
    pub instance_id: Seq<char>,
    pub pull_request_number: i64,
}

impl View for BuildRecord {
    type V = SpecBuildRecord;

    open spec fn view(&self) -> SpecBuildRecord {
        SpecBuildRecord {
            name: self.name@,
            drv_path: self.drv_path@,
            out_paths: self.out_paths.deep_view(),
            timestamp_usec: self.timestamp_usec,
            build_elapsed_usec: self.build_elapsed_usec,
            instance_type: self.instance_type@,
            instance_id: self.instance_id@,
            pull_request_number: self.pull_request_number,
        }
    }
}

/// A completion marker that parsed and whose name and log path derived,
/// waiting for the log file's timestamps before it can become a record.
pub struct PendingBuild {
    pub name: String,
    pub drv_path: String,
    pub out_paths: Vec<String>,
    pub log_path: String,
    pub timestamp_usec: u64,
}

/// The spec-level image of a `PendingBuild` (the log path is derived data
/// and carries no meaning of its own).
pub ghost struct SpecPending {
    pub name: Seq<char>,
    pub drv_path: Seq<char>,
    pub out_paths: Seq<Seq<char>>,
    pub timestamp_usec: u64,
}

impl View for PendingBuild {
    type V = SpecPending;

    open spec fn view(&self) -> SpecPending {
        SpecPending {
            name: self.name@,
            drv_path: self.drv_path@,
            out_paths: self.out_paths.deep_view(),
            timestamp_usec: self.timestamp_usec,
        }
    }
}

/// What one log entry asks of the engine's driver.
pub enum StepOutcome {
    /// Yield this result to the consumer.
    Emit(Result<BuildRecord, EngineError>),
    /// Nothing to yield for this entry; read the next one.
    Advance,
    /// Stat the pending build's log file, then finish the record with
    /// `finish_build`.
    NeedTiming(PendingBuild),
}

/// The tag of the completion-marker producer.
pub open spec fn spec_completion_tag() -> Seq<char> {
    "post-build-hook"@
}

/// The tag of the session-start producer.
pub open spec fn spec_session_tag() -> Seq<char> {
    "nixpkgs-review-start"@
}

/// The spec-level image of a step's yielded result.
pub open spec fn res_view(r: Result<BuildRecord, EngineError>) -> Result<
    SpecBuildRecord,
    EngineError,
> {
    match r {
        Ok(b) => Ok(b@),
        Err(e) => Err(e),
    }
}

/// Finishing a pending build once the log file's timestamps are known:
/// the duration must resolve, and a session must have been observed.
pub open spec fn spec_finish(
    session: Option<i64>,
    p: SpecPending,
    created_usec: Option<u64>,
    modified_usec: Option<u64>,
    host: SpecIdentity,
) -> Result<SpecBuildRecord, EngineError> {
    match spec_build_time(created_usec, modified_usec) {
        None => Err(EngineError::TimingUnavailable),
        Some(d) => match session {
            None => Err(EngineError::MissingSessionContext),
            Some(pr) => Ok(
                SpecBuildRecord {
                    name: p.name,
                    drv_path: p.drv_path,
                    out_paths: p.out_paths,
                    timestamp_usec: p.timestamp_usec,
                    build_elapsed_usec: d,
                    instance_type: host.instance_type,
                    instance_id: host.instance_id,
                    pull_request_number: pr,
                },
            ),
        },
    }
}

/// The result synthesized for one completion entry, given the correlation
/// state, the log file's timestamps and the host identity. The first
/// failure in the order payload, name, log path, duration, session decides
/// the error.
pub open spec fn spec_complete(
    session: Option<i64>,
    payload: Option<Seq<char>>,
    timestamp_usec: u64,
    created_usec: Option<u64>,
    modified_usec: Option<u64>,
    host: SpecIdentity,
) -> Result<SpecBuildRecord, EngineError> {
    match payload {
        None => Err(EngineError::PayloadParseError),
        Some(p) => match spec_completion_fields(p) {
            None => Err(EngineError::PayloadParseError),
            Some(f) => match spec_derive_name(f.0) {
                None => Err(EngineError::MalformedPath),
                Some(name) => match spec_log_path(f.0) {
                    None => Err(EngineError::TimingUnavailable),
                    Some(_) => spec_finish(
                        session,
                        SpecPending {
                            name,
                            drv_path: f.0,
                            out_paths: spec_split_spaces(f.1),
                            timestamp_usec,
                        },
                        created_usec,
                        modified_usec,
                        host,
                    ),
                },
            },
        },
    }
}

/// One engine step on one log entry: the new correlation state, and the
/// result yielded for this entry, if any. A completion entry always yields
/// a result and never changes the state; a session-start entry that parses
/// updates the state and yields nothing; one that does not parse yields
/// `PayloadParseError` and leaves the state unchanged; an entry with any
/// other tag yields `UnrecognizedEntry`.
pub open spec fn spec_step(
    session: Option<i64>,
    e: SpecEntry,
    created_usec: Option<u64>,
    modified_usec: Option<u64>,
    host: SpecIdentity,
) -> (Option<i64>, Option<Result<SpecBuildRecord, EngineError>>) {
    if e.tag == spec_completion_tag() {
        (
            session,
            Some(
                spec_complete(session, e.payload, e.timestamp_usec, created_usec, modified_usec, host),
            ),
        )
    } else if e.tag == spec_session_tag() {
        match e.payload {
            Some(p) => match spec_session_id(p) {
                Some(pr) => (Some(pr), None),
                None => (session, Some(Err(EngineError::PayloadParseError))),
            },
            None => (session, Some(Err(EngineError::PayloadParseError))),
        }
    } else {
        (session, Some(Err(EngineError::UnrecognizedEntry)))
    }
}

/// Processes one log entry against the correlation state. For a completion
/// entry whose marker parses and whose name and log path derive, the log
/// file's timestamps are still missing: the caller stats the returned
/// pending build's log path and calls `finish_build`. In every other case
/// the entry is fully decided here, and the state and the yielded result
/// are exactly those of `spec_step`, whatever timestamps and host identity
/// would have been supplied.
pub fn step_entry(state: &mut CorrelationState, entry: &LogEntry) -> (r: StepOutcome)
    ensures
        forall|c: Option<u64>, m: Option<u64>, h: SpecIdentity|
            (#[trigger] spec_step(old(state).current_session_id, entry@, c, m, h)).0
                == final(state).current_session_id,
        match r {
            StepOutcome::Advance => forall|c: Option<u64>, m: Option<u64>, h: SpecIdentity|
                (#[trigger] spec_step(old(state).current_session_id, entry@, c, m, h)).1 is None,
            StepOutcome::Emit(res) => forall|c: Option<u64>, m: Option<u64>, h: SpecIdentity|
                (#[trigger] spec_step(old(state).current_session_id, entry@, c, m, h)).1 == Some(
                    res_view(res),
                ),
            StepOutcome::NeedTiming(p) => {
                &&& entry@.tag == spec_completion_tag()
                &&& entry@.payload matches Some(pl)
                &&& spec_completion_fields(pl) matches Some(f)
                &&& p@.drv_path == f.0
                &&& p@.out_paths == spec_split_spaces(f.1)
                &&& spec_derive_name(f.0) == Some(p@.name)
                &&& spec_log_path(f.0) == Some(p.log_path@)
                &&& p@.timestamp_usec == entry@.timestamp_usec
                &&& forall|c: Option<u64>, m: Option<u64>, h: SpecIdentity|
                    (#[trigger] spec_step(old(state).current_session_id, entry@, c, m, h)).1
                        == Some(spec_finish(old(state).current_session_id, p@, c, m, h))
            },
        },
{
    if str_eq(entry.tag.as_str(), "post-build-hook") {
        let payload = match &entry.payload {
            None => {
                return StepOutcome::Emit(Err(EngineError::PayloadParseError));
            },
            Some(p) => p,
        };
        let marker = match parse_completion_payload(payload.as_str()) {
            Err(e) => {
                return StepOutcome::Emit(Err(e));
            },
            Ok(m) => m,
        };
        let name = match derive_name(marker.drv_path.as_str()) {
            Err(e) => {
                return StepOutcome::Emit(Err(e));
            },
            Ok(n) => n,
        };
        let log_path = match get_log_path(marker.drv_path.as_str()) {
            Err(_) => {
                return StepOutcome::Emit(Err(EngineError::TimingUnavailable));
            },
            Ok(p) => p,
        };
        StepOutcome::NeedTiming(
            PendingBuild {
                name,
                drv_path: marker.drv_path,
                out_paths: marker.out_paths,
                log_path,
                timestamp_usec: entry.timestamp_usec,
            },
        )
    } else if str_eq(entry.tag.as_str(), "nixpkgs-review-start") {
        let payload = match &entry.payload {
            None => {
                return StepOutcome::Emit(Err(EngineError::PayloadParseError));
            },
            Some(p) => p,
        };
        match parse_session_start(payload.as_str()) {
            Ok(pr) => {
                state.current_session_id = Some(pr);
                StepOutcome::Advance
            },
            Err(e) => StepOutcome::Emit(Err(e)),
        }
    } else {
        StepOutcome::Emit(Err(EngineError::UnrecognizedEntry))
    }
}

/// Finishes a pending build once its log file's timestamps are known,
/// attaching the build duration, the cached host identity and the current
/// session id.
pub fn finish_build(
    state: &CorrelationState,
    pending: PendingBuild,
    created_usec: Option<u64>,
    modified_usec: Option<u64>,
    host: &InstanceIdentity,
) -> (r: Result<BuildRecord, EngineError>)
    ensures
        res_view(r) == spec_finish(
            state.current_session_id,
            pending@,
            created_usec,
            modified_usec,
            host@,
        ),
{
    let elapsed = match get_build_time(created_usec, modified_usec) {
        Err(e) => {
            return Err(e);
        },
        Ok(d) => d,
    };
    let pr = match state.current_session_id {
        None => {
            return Err(EngineError::MissingSessionContext);
        },
        Some(pr) => pr,
    };
    Ok(
        BuildRecord {
            name: pending.name,
            drv_path: pending.drv_path,
            out_paths: pending.out_paths,
            timestamp_usec: pending.timestamp_usec,
            build_elapsed_usec: elapsed,
            instance_type: host.instance_type.clone(),
            instance_id: host.instance_id.clone(),
            pull_request_number: pr,
        },
    )
}

/// One input to a run of the engine: a log entry, together with the log
/// file timestamps that the entry's completion marker, if it is one, would
/// resolve to.
pub ghost struct StepInput {
    pub entry: SpecEntry,
    pub created_usec: Option<u64>,
    pub modified_usec: Option<u64>,
}

/// A step's yielded result as a (possibly empty) piece of the output
/// stream.
pub open spec fn opt_out(o: Option<Result<SpecBuildRecord, EngineError>>) -> Seq<
    Result<SpecBuildRecord, EngineError>,
> {
    match o {
        None => Seq::empty(),
        Some(x) => seq![x],
    }
}

/// A run of the engine: the state after stepping through all inputs in
/// order, and the concatenation of all yielded results.
pub open spec fn spec_run(session: Option<i64>, inputs: Seq<StepInput>, host: SpecIdentity) -> (
    Option<i64>,
    Seq<Result<SpecBuildRecord, EngineError>>,
)
    decreases inputs.len(),
{
    if inputs.len() == 0 {
        (session, Seq::empty())
    } else {
        let first = spec_step(
            session,
            inputs[0].entry,
            inputs[0].created_usec,
            inputs[0].modified_usec,
            host,
        );
        let rest = spec_run(first.0, inputs.drop_first(), host);
        (rest.0, opt_out(first.1) + rest.1)
    }
}

/// A session-start entry that parses: the only kind of step that changes
/// the correlation state.
pub open spec fn is_valid_session_start(i: StepInput) -> bool {
    &&& i.entry.tag == spec_session_tag()
    &&& i.entry.payload matches Some(p)
    &&& spec_session_id(p) is Some
}

/// A completion entry for which every resolver succeeds: the payload
/// parses, the name and the log path derive, and the duration resolves.
/// Only the session id can still be missing.
pub open spec fn spec_completion_resolves(i: StepInput) -> bool {
    &&& i.entry.tag == spec_completion_tag()
    &&& i.entry.payload matches Some(p)
    &&& spec_completion_fields(p) matches Some(f)
    &&& spec_derive_name(f.0) is Some
    &&& spec_log_path(f.0) is Some
    &&& spec_build_time(i.created_usec, i.modified_usec) is Some
}

/// A step that is not a parsing session-start leaves the correlation state
/// unchanged.
pub proof fn lemma_step_session_unchanged(
    session: Option<i64>,
    i: StepInput,
    host: SpecIdentity,
)
    requires
        !is_valid_session_start(i),
    ensures
        spec_step(session, i.entry, i.created_usec, i.modified_usec, host).0 == session,
{
}

/// The session id persists across any stretch of steps that holds no
/// parsing session-start entry.
pub proof fn lemma_session_persists(session: Option<i64>, inputs: Seq<StepInput>, host: SpecIdentity)
    requires
        forall|k: int| 0 <= k < inputs.len() ==> !is_valid_session_start(inputs[k]),
    ensures
        spec_run(session, inputs, host).0 == session,
    decreases inputs.len(),
{
    if inputs.len() > 0 {
        lemma_step_session_unchanged(session, inputs[0], host);
        assert(forall|k: int|
            0 <= k < inputs.drop_first().len() ==> inputs.drop_first()[k] == inputs[k + 1]);
        lemma_session_persists(session, inputs.drop_first(), host);
    }
}

/// A run over `inputs.push(last)` is the run over `inputs` followed by one
/// step on `last` from the reached state.
pub proof fn lemma_run_snoc(
    session: Option<i64>,
    inputs: Seq<StepInput>,
    last: StepInput,
    host: SpecIdentity,
)
    ensures
        ({
            let mid = spec_run(session, inputs, host);
            let step = spec_step(mid.0, last.entry, last.created_usec, last.modified_usec, host);
            spec_run(session, inputs.push(last), host) == (step.0, mid.1 + opt_out(step.1))
        }),
    decreases inputs.len(),
{
    if inputs.len() == 0 {
        let whole = inputs.push(last);
        assert(whole[0] == last);
        assert(whole.drop_first() =~= Seq::<StepInput>::empty());
        let step = spec_step(session, last.entry, last.created_usec, last.modified_usec, host);
        assert(spec_run(step.0, whole.drop_first(), host) == (
            step.0,
            Seq::<Result<SpecBuildRecord, EngineError>>::empty(),
        ));
        assert(spec_run(session, whole, host).1 =~= opt_out(step.1));
        assert(spec_run(session, inputs, host).1 + opt_out(step.1) =~= opt_out(step.1));
    } else {
        let whole = inputs.push(last);
        assert(whole[0] == inputs[0]);
        assert(whole.drop_first() =~= inputs.drop_first().push(last));
        let first = spec_step(
            session,
            inputs[0].entry,
            inputs[0].created_usec,
            inputs[0].modified_usec,
            host,
        );
        lemma_run_snoc(first.0, inputs.drop_first(), last, host);
        let mid = spec_run(session, inputs, host);
        let step = spec_step(mid.0, last.entry, last.created_usec, last.modified_usec, host);
        assert(spec_run(session, whole, host).1 =~= mid.1 + opt_out(step.1));
    }
}

/// A record yielded by one step carries the timestamp of the entry it was
/// synthesized from, never the clock of the moment it was read.
pub proof fn lemma_step_ok_timestamp(
    session: Option<i64>,
    i: StepInput,
    host: SpecIdentity,
    rec: SpecBuildRecord,
)
    requires
        spec_step(session, i.entry, i.created_usec, i.modified_usec, host).1 == Some(
            Ok::<SpecBuildRecord, EngineError>(rec),
        ),
    ensures
        rec.timestamp_usec == i.entry.timestamp_usec,
{
}

/// Resuming from a time bound: when every entry handed to the engine is at
/// or after `t` — as entries are after the cursor seeks to `t` — every
/// record the run yields is at or after `t`.
pub proof fn lemma_resume_bound(
    session: Option<i64>,
    inputs: Seq<StepInput>,
    host: SpecIdentity,
    t: u64,
)
    requires
        forall|k: int| 0 <= k < inputs.len() ==> inputs[k].entry.timestamp_usec >= t,
    ensures
        forall|k: int|
            0 <= k < spec_run(session, inputs, host).1.len() ==> ((#[trigger] spec_run(
                session,
                inputs,
                host,
            ).1[k]) matches Ok(rec) ==> rec.timestamp_usec >= t),
    decreases inputs.len(),
{
    if inputs.len() > 0 {
        let first = spec_step(
            session,
            inputs[0].entry,
            inputs[0].created_usec,
            inputs[0].modified_usec,
            host,
        );
        assert(forall|k: int|
            0 <= k < inputs.drop_first().len() ==> inputs.drop_first()[k] == inputs[k + 1]);
        lemma_resume_bound(first.0, inputs.drop_first(), host, t);
        let head = opt_out(first.1);
        let rest = spec_run(first.0, inputs.drop_first(), host).1;
        assert forall|k: int|
            0 <= k < spec_run(session, inputs, host).1.len() implies ((#[trigger] spec_run(
            session,
            inputs,
            host,
        ).1[k]) matches Ok(rec) ==> rec.timestamp_usec >= t) by {
            let out = spec_run(session, inputs, host).1;
            assert(out == head + rest);
            if k < head.len() {
                match out[k] {
                    Ok(rec) => {
                        lemma_step_ok_timestamp(session, inputs[0], host, rec);
                    },
                    _ => {},
                }
            } else {
                assert(out[k] == rest[k - head.len()]);
            }
        }
    }
}

/// Session correlation: a completion observed after a session-start with id
/// `n`, with no later session-start in between, is stamped with session id
/// `n`.
pub proof fn lemma_session_correlation(
    s0: Option<i64>,
    start: StepInput,
    middle: Seq<StepInput>,
    comp: StepInput,
    n: i64,
    host: SpecIdentity,
)
    requires
        start.entry.tag == spec_session_tag(),
        start.entry.payload matches Some(p) && spec_session_id(p) == Some(n),
        forall|k: int| 0 <= k < middle.len() ==> !is_valid_session_start(middle[k]),
        spec_completion_resolves(comp),
    ensures
        ({
            let out = spec_run(s0, seq![start] + middle + seq![comp], host).1;
            &&& out.len() >= 1
            &&& out.last() matches Ok(rec) && rec.pull_request_number == n
        }),
{
    reveal_strlit("post-build-hook");
    reveal_strlit("nixpkgs-review-start");
    assert(spec_completion_tag().len() == 15);
    assert(spec_session_tag().len() == 20);
    let all = seq![start] + middle + seq![comp];
    assert(all[0] == start);
    assert(all.drop_first() =~= middle.push(comp));
    let first = spec_step(s0, start.entry, start.created_usec, start.modified_usec, host);
    assert(first == (Some(n), Option::<Result<SpecBuildRecord, EngineError>>::None));
    lemma_run_snoc(Some(n), middle, comp, host);
    lemma_session_persists(Some(n), middle, host);
    let step = spec_step(Some(n), comp.entry, comp.created_usec, comp.modified_usec, host);
    assert(step.1 matches Some(res) && res matches Ok(rec) && rec.pull_request_number == n);
    let out = spec_run(s0, all, host).1;
    let mid_out = spec_run(Some(n), middle, host).1;
    assert(out =~= mid_out + opt_out(step.1));
    assert(out.last() == opt_out(step.1)[0]);
}

/// A completion observed before any session-start has ever been observed
/// yields `MissingSessionContext`, even when every resolver succeeds.
pub proof fn lemma_completion_without_session(
    pre: Seq<StepInput>,
    comp: StepInput,
    host: SpecIdentity,
)
    requires
        forall|k: int| 0 <= k < pre.len() ==> !is_valid_session_start(pre[k]),
        spec_completion_resolves(comp),
    ensures
        ({
            let out = spec_run(None, pre.push(comp), host).1;
            out.len() >= 1 && out.last() == Err::<SpecBuildRecord, EngineError>(
                EngineError::MissingSessionContext,
            )
        }),
{
    lemma_run_snoc(None, pre, comp, host);
    lemma_session_persists(None, pre, host);
    let step = spec_step(None, comp.entry, comp.created_usec, comp.modified_usec, host);
    assert(step.1 == Some(Err::<SpecBuildRecord, EngineError>(EngineError::MissingSessionContext)));
    let out = spec_run(None, pre.push(comp), host).1;
    assert(out =~= spec_run(None, pre, host).1 + opt_out(step.1));
    assert(out.last() == opt_out(step.1)[0]);
}

/// Last-write-wins session correlation: after one session-start and then
/// another, a completed build carries the later session id, not the first.
pub proof fn lemma_session_overwrite(
    s0: Option<i64>,
    a: StepInput,
    b: StepInput,
    comp: StepInput,
    na: i64,
    nb: i64,
    host: SpecIdentity,
)
    requires
        a.entry.tag == spec_session_tag(),
        a.entry.payload matches Some(p) && spec_session_id(p) == Some(na),
        b.entry.tag == spec_session_tag(),
        b.entry.payload matches Some(q) && spec_session_id(q) == Some(nb),
        spec_completion_resolves(comp),
    ensures
        ({
            let out = spec_run(s0, seq![a, b, comp], host).1;
            &&& out.len() >= 1
            &&& out.last() matches Ok(rec) && rec.pull_request_number == nb
        }),
{
    reveal_strlit("post-build-hook");
    reveal_strlit("nixpkgs-review-start");
    assert(spec_completion_tag().len() == 15);
    assert(spec_session_tag().len() == 20);
    let all = seq![a, b, comp];
    assert(all[0] == a);
    assert(all.drop_first() =~= seq![b] + Seq::<StepInput>::empty() + seq![comp]);
    let first = spec_step(s0, a.entry, a.created_usec, a.modified_usec, host);
    assert(first == (Some(na), Option::<Result<SpecBuildRecord, EngineError>>::None));
    lemma_session_correlation(Some(na), b, Seq::<StepInput>::empty(), comp, nb, host);
    let tail_out = spec_run(Some(na), all.drop_first(), host).1;
    let out = spec_run(s0, all, host).1;
    assert(out =~= tail_out);
}

/// An entry that matched the tag filter but whose payload does not parse as
/// its marker yields `PayloadParseError` for that one step and leaves the
/// correlation state untouched: the following step proceeds from the same
/// state.
pub proof fn lemma_malformed_payload_step(
    session: Option<i64>,
    e: SpecEntry,
    created_usec: Option<u64>,
    modified_usec: Option<u64>,
    host: SpecIdentity,
)
    requires
        (e.tag == spec_completion_tag() && match e.payload {
            None => true,
            Some(p) => spec_completion_fields(p) is None,
        }) || (e.tag == spec_session_tag() && match e.payload {
            None => true,
            Some(p) => spec_session_id(p) is None,
        }),
    ensures
        spec_step(session, e, created_usec, modified_usec, host) == (
            session,
            Some(Err::<SpecBuildRecord, EngineError>(EngineError::PayloadParseError)),
        ),
{
    reveal_strlit("post-build-hook");
    reveal_strlit("nixpkgs-review-start");
    assert(spec_completion_tag().len() == 15);
    assert(spec_session_tag().len() == 20);
}

/// What the cursor reported for one step of the outer loop.
#[derive(Clone, Copy, Debug, PartialEq, Eq, Structural)]
pub enum CursorStatus {
    /// An entry matching the tag filter is available.
    EntryReady,
    /// No new entry is available right now.
    NothingNew,
    /// The cursor itself failed irrecoverably.
    Fault,
}

/// What the engine's driver does next.
#[derive(Clone, Copy, Debug, PartialEq, Eq, Structural)]
pub enum CursorDirective {
    /// Read the entry and process it.
    ProcessEntry,
    /// Block until the log signals new content, then retry; never a
    /// failure and never the end of the stream.
    WaitForMore,
    /// Yield one terminal `CursorFault` and end the stream.
    StopWithFault,
}

/// Decides the outer loop's next move. A transient "no new entries"
/// condition always waits and retries: the stream never ends on it; only a
/// cursor fault stops the stream.
pub fn plan_cursor_step(status: &CursorStatus) -> (r: CursorDirective)
    ensures
        r is ProcessEntry <==> *status is EntryReady,
        r is WaitForMore <==> *status is NothingNew,
        r is StopWithFault <==> *status is Fault,
{
    match status {
        CursorStatus::EntryReady => CursorDirective::ProcessEntry,
        CursorStatus::NothingNew => CursorDirective::WaitForMore,
        CursorStatus::Fault => CursorDirective::StopWithFault,
    }
}

} // verus!
