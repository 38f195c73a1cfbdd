//! The checker's configuration and the pipeline of probes it runs.
//!
//! A run of the pipeline starts on a tick and takes the probes one by one, in
//! the configured order. The pipeline itself performs nothing: it says which
//! probe is to run next, and is told when that probe is done.

use url::ParseError;
use url::Url;
use vstd::prelude::*;

verus! {

/// `url::Url`, a parsed absolute URL. It is carried through; nothing is
/// known of what it holds.
#[verifier::external_type_specification]
#[verifier::external_body]
pub struct ExUrl(Url);

/// `url::ParseError`, the reason why a text is no URL. It is carried
/// through; nothing is known of what it holds.
#[verifier::external_type_specification]
#[verifier::external_body]
pub struct ExParseError(ParseError);

/// Whether `Url::parse` accepts the text as an absolute URL.
pub uninterp spec fn parses_as_url(input: Seq<char>) -> bool;

/// `Url::parse`: parses an absolute URL. Whether it succeeds depends on the
/// text alone; nothing is claimed of the URL or of the error.
#[verifier::external_body]
fn parse_url(input: &str) -> (r: Result<Url, ParseError>)
    ensures
        r is Ok <==> parses_as_url(input@),
{
    Url::parse(input)
}

/// The interval between two runs of the pipeline, unless configured.
pub const DEFAULT_RUN_EVERY_SECS: u64 = 60;

/// The time an endpoint has for its answer, unless configured.
pub const DEFAULT_TIMEOUT_SECS: u64 = 10;

/// The API calls that are cross-checked.
#[derive(Clone, Copy, Debug, PartialEq, Eq, Structural)]
pub enum ProbeKind {
    Validators,
    Balances,
    Block,
    FinalityCheckpoints,
    StateRoot,
}

/// A configuration that the checker cannot start with.
#[derive(Clone, Copy, Debug, PartialEq, Eq, Structural)]
pub enum ConfigError {
    /// No endpoint was given.
    EmptyEndpointList,
    /// The endpoint at this position is not an absolute URL.
    InvalidUrl(usize),
}

/// Every probe kind once, in the order in which the checker runs them.
pub open spec fn standard_pipeline() -> Seq<ProbeKind> {
    seq![
        ProbeKind::Validators,
        ProbeKind::Balances,
        ProbeKind::Block,
        ProbeKind::FinalityCheckpoints,
        ProbeKind::StateRoot,
    ]
}

/// Every probe kind once, in the order in which the checker runs them.
pub fn default_pipeline() -> (fns: Vec<ProbeKind>)
    ensures
        fns@ == standard_pipeline(),
{
    let mut fns: Vec<ProbeKind> = Vec::new();
    fns.push(ProbeKind::Validators);
    fns.push(ProbeKind::Balances);
    fns.push(ProbeKind::Block);
    fns.push(ProbeKind::FinalityCheckpoints);
    fns.push(ProbeKind::StateRoot);
    fns
}

/// `r` is what a list of parsed endpoints comes to: the URLs when there is
/// at least one and all were parsed, else the first fault.
pub open spec fn is_endpoint_list(
    parsed: Seq<Result<Url, ParseError>>,
    r: Result<Vec<Url>, ConfigError>,
) -> bool {
    match r {
        Ok(urls) => {
            &&& parsed.len() > 0
            &&& urls@.len() == parsed.len()
            &&& forall|i: int| 0 <= i < parsed.len() ==> parsed[i] == Ok::<Url, ParseError>(urls@[i])
        },
        Err(ConfigError::EmptyEndpointList) => parsed.len() == 0,
        Err(ConfigError::InvalidUrl(at)) => {
            &&& at < parsed.len()
            &&& parsed[at as int] is Err
            &&& forall|i: int| 0 <= i < at ==> parsed[i] is Ok
        },
    }
}

/// The endpoints of a configuration, from the outcome of parsing each of
/// them: the list must not be empty, and every entry must be a URL.
pub fn endpoints_from(parsed: Vec<Result<Url, ParseError>>) -> (r: Result<Vec<Url>, ConfigError>)
    ensures
        is_endpoint_list(parsed@, r),
{
    let ghost orig = parsed@;
    let total: usize = parsed.len();
    if total == 0 {
        return Err(ConfigError::EmptyEndpointList);
    }
    let mut rest = parsed;
    let mut urls: Vec<Url> = Vec::new();
    proof {
        assert(orig.skip(0) =~= orig);
    }
    while rest.len() > 0
        invariant
            orig == parsed@,
            orig.len() == total,
            urls@.len() + rest@.len() == total,
            rest@ == orig.skip(urls@.len() as int),
            forall|i: int| 0 <= i < urls@.len() ==> orig[i] == Ok::<Url, ParseError>(urls@[i]),
        decreases rest@.len(),
    {
        let ghost done = urls@.len() as int;
        let at: usize = urls.len();
        let next = rest.remove(0);
        proof {
            assert(next == orig[done]);
            assert(rest@ =~= orig.skip(done + 1));
        }
        match next {
            Ok(url) => {
                urls.push(url);
            },
            Err(_) => {
                assert forall|i: int| 0 <= i < at implies orig[i] is Ok by {
                    assert(orig[i] == Ok::<Url, ParseError>(urls@[i]));
                }
                return Err(ConfigError::InvalidUrl(at));
            },
        }
    }
    Ok(urls)
}

/// Parses the endpoints of a configuration. The list must not be empty, and
/// every entry must be an absolute URL: the first that is not is reported by
/// its position.
pub fn parse_endpoints(raw: &Vec<String>) -> (r: Result<Vec<Url>, ConfigError>)
    ensures
        match r {
            Ok(urls) => {
                &&& raw@.len() > 0
                &&& urls@.len() == raw@.len()
                &&& forall|i: int| 0 <= i < raw@.len() ==> parses_as_url(raw@[i]@)
            },
            Err(ConfigError::EmptyEndpointList) => raw@.len() == 0,
            Err(ConfigError::InvalidUrl(at)) => {
                &&& at < raw@.len()
                &&& !parses_as_url(raw@[at as int]@)
                &&& forall|i: int| 0 <= i < at ==> parses_as_url(raw@[i]@)
            },
        },
{
    let mut parsed: Vec<Result<Url, ParseError>> = Vec::new();
    let mut i: usize = 0;
    while i < raw.len()
        invariant
            i <= raw@.len(),
            parsed@.len() == i,
            forall|k: int| 0 <= k < i ==> (parsed@[k] is Ok <==> parses_as_url(raw@[k]@)),
        decreases raw@.len() - i,
    {
        let next = parse_url(raw[i].as_str());
        parsed.push(next);
        i += 1;
    }
    let r = endpoints_from(parsed);
    proof {
        if r is Ok {
            assert forall|k: int| 0 <= k < raw@.len() implies parses_as_url(raw@[k]@) by {
                assert(parsed@[k] == Ok::<Url, ParseError>(r->Ok_0@[k]));
            }
        } else if r->Err_0 is InvalidUrl {
            assert forall|k: int| 0 <= k < r->Err_0->InvalidUrl_0 implies parses_as_url(
                raw@[k]@,
            ) by {
                assert(parsed@[k] is Ok);
            }
        }
    }
    r
}

/// A checker of beacon API endpoints: how often it runs, which endpoints it
/// asks, how long each may take, and which probes it runs, in order.
pub struct ApiChecker {
    /// Seconds between two runs of the pipeline.
    pub run_every: u64,
    /// The endpoints to ask.
    pub endpoints: Vec<Url>,
    /// Seconds an endpoint has for its answer.
    pub timeout: u64,
    /// The probes to run, in this order.
    pub fns: Vec<ProbeKind>,
}

impl Default for ApiChecker {
    fn default() -> (c: Self)
        ensures
            c.run_every == DEFAULT_RUN_EVERY_SECS,
            c.timeout == DEFAULT_TIMEOUT_SECS,
            c.endpoints@.len() == 0,
            c.fns@.len() == 0,
    {
        ApiChecker {
            run_every: DEFAULT_RUN_EVERY_SECS,
            endpoints: Vec::new(),
            fns: Vec::new(),
            timeout: DEFAULT_TIMEOUT_SECS,
        }
    }
}

/// Where a pipeline stands.
#[derive(Clone, Copy, Debug, PartialEq, Eq, Structural)]
pub enum PipelineState {
    /// No run is under way.
    Idle,
    /// The probe at this position of the pipeline is running.
    Running(usize),
}

/// What a pipeline is told.
#[derive(Clone, Copy, Debug, PartialEq, Eq, Structural)]
pub enum PipelineEvent {
    /// The interval has passed.
    Tick,
    /// The running probe has ended with an outcome.
    ProbeFinished,
    /// The running probe has ended in a failure of its own.
    ProbeFailed,
}

/// What a pipeline asks for.
#[derive(Clone, Copy, Debug, PartialEq, Eq, Structural)]
pub enum PipelineAction {
    /// Run this probe, then report that it ended.
    Run(ProbeKind),
    /// A run is still under way: leave this tick out, with a warning.
    SkipTick,
    /// Nothing to do until the next tick.
    Wait,
}

/// The probe to run at position `at`, or the end of the run.
pub open spec fn start_at(fns: Seq<ProbeKind>, at: int) -> (PipelineState, PipelineAction) {
    if 0 <= at < fns.len() {
        (PipelineState::Running(at as usize), PipelineAction::Run(fns[at]))
    } else {
        (PipelineState::Idle, PipelineAction::Wait)
    }
}

/// The state after an event, and what is to be done.
///
/// A tick starts a run with the first probe, unless a run is under way: then
/// the tick is left out. A probe that ended, with an outcome or in failure,
/// is followed by the next one; after the last the pipeline is idle again.
pub open spec fn next_step(fns: Seq<ProbeKind>, state: PipelineState, event: PipelineEvent) -> (
    PipelineState,
    PipelineAction,
) {
    match (state, event) {
        (PipelineState::Idle, PipelineEvent::Tick) => start_at(fns, 0),
        (PipelineState::Idle, _) => (PipelineState::Idle, PipelineAction::Wait),
        (PipelineState::Running(_), PipelineEvent::Tick) => (state, PipelineAction::SkipTick),
        (PipelineState::Running(at), _) => start_at(fns, at + 1),
    }
}

/// The states of a pipeline: idle, or running one of its probes.
pub open spec fn is_state_of(fns: Seq<ProbeKind>, state: PipelineState) -> bool {
    match state {
        PipelineState::Idle => true,
        PipelineState::Running(at) => at < fns.len(),
    }
}

/// From idle, a tick and then `done` probes that ended lead to the probe at
/// position `done`: the probes run one by one in the configured order, and
/// after the last the pipeline is idle.
pub open spec fn state_after(fns: Seq<ProbeKind>, done: int) -> (PipelineState, PipelineAction)
    decreases done,
{
    if done <= 0 {
        next_step(fns, PipelineState::Idle, PipelineEvent::Tick)
    } else {
        next_step(fns, state_after(fns, done - 1).0, PipelineEvent::ProbeFinished)
    }
}

/// A run visits the probes in the configured order, each once, and ends idle.
pub proof fn lemma_run_visits_in_order(fns: Seq<ProbeKind>, done: int)
    requires
        0 <= done <= fns.len(),
        fns.len() <= usize::MAX,
    ensures
        done < fns.len() ==> state_after(fns, done) == (
            PipelineState::Running(done as usize),
            PipelineAction::Run(fns[done]),
        ),
        done == fns.len() ==> state_after(fns, done) == (
            PipelineState::Idle,
            PipelineAction::Wait,
        ),
    decreases done,
{
    if done > 0 {
        lemma_run_visits_in_order(fns, done - 1);
    }
}

/// Every step leads to a state of the pipeline; a tick never ends or
/// restarts a run that is under way.
pub proof fn lemma_step_keeps_state(
    fns: Seq<ProbeKind>,
    state: PipelineState,
    event: PipelineEvent,
)
    requires
        is_state_of(fns, state),
        fns.len() <= usize::MAX,
    ensures
        is_state_of(fns, next_step(fns, state, event).0),
        state is Running && event is Tick ==> next_step(fns, state, event) == (
            state,
            PipelineAction::SkipTick,
        ),
{
}

impl ApiChecker {
    /// A checker with the default interval and timeout, and with no
    /// endpoints and no probes yet.
    pub fn new() -> (c: ApiChecker)
        ensures
            c.run_every == DEFAULT_RUN_EVERY_SECS,
            c.timeout == DEFAULT_TIMEOUT_SECS,
            c.endpoints@.len() == 0,
            c.fns@.len() == 0,
    {
        ApiChecker::default()
    }

    /// Sets the seconds between two runs.
    pub fn run_every(self, seconds: u64) -> (c: ApiChecker)
        ensures
            c.run_every == seconds,
            c.endpoints == self.endpoints,
            c.timeout == self.timeout,
            c.fns == self.fns,
    {
        let mut c = self;
        c.run_every = seconds;
        c
    }

    /// Sets the endpoints to ask.
    pub fn endpoints(self, items: Vec<Url>) -> (c: ApiChecker)
        ensures
            c.endpoints == items,
            c.run_every == self.run_every,
            c.timeout == self.timeout,
            c.fns == self.fns,
    {
        let mut c = self;
        c.endpoints = items;
        c
    }

    /// Sets the seconds an endpoint has for its answer.
    pub fn timeout(self, seconds: u64) -> (c: ApiChecker)
        ensures
            c.timeout == seconds,
            c.run_every == self.run_every,
            c.endpoints == self.endpoints,
            c.fns == self.fns,
    {
        let mut c = self;
        c.timeout = seconds;
        c
    }

    /// Sets the probes to run, in this order.
    pub fn pipeline(self, fns: Vec<ProbeKind>) -> (c: ApiChecker)
        ensures
            c.fns == fns,
            c.run_every == self.run_every,
            c.endpoints == self.endpoints,
            c.timeout == self.timeout,
    {
        let mut c = self;
        c.fns = fns;
        c
    }

    /// Ends the configuration. A checker without endpoints is refused;
    /// any other is returned as it is.
    pub fn build(self) -> (r: Result<ApiChecker, ConfigError>)
        ensures
            self.endpoints@.len() == 0 ==> r == Err::<ApiChecker, ConfigError>(
                ConfigError::EmptyEndpointList,
            ),
            self.endpoints@.len() > 0 ==> r == Ok::<ApiChecker, ConfigError>(self),
    {
        if self.endpoints.len() == 0 {
            Err(ConfigError::EmptyEndpointList)
        } else {
            Ok(self)
        }
    }

    /// Advances the pipeline by one event: returns the state after it and
    /// what is to be done.
    pub fn run_pipeline(&self, state: PipelineState, event: PipelineEvent) -> (r: (
        PipelineState,
        PipelineAction,
    ))
        ensures
            r == next_step(self.fns@, state, event),
    {
        match state {
            PipelineState::Idle => match event {
                PipelineEvent::Tick => self.start(0),
                _ => (PipelineState::Idle, PipelineAction::Wait),
            },
            PipelineState::Running(at) => match event {
                PipelineEvent::Tick => (state, PipelineAction::SkipTick),
                _ => {
                    if at < self.fns.len() {
                        self.start(at + 1)
                    } else {
                        (PipelineState::Idle, PipelineAction::Wait)
                    }
                },
            },
        }
    }

    /// Starts the probe at position `at`, or ends the run when there is none.
    fn start(&self, at: usize) -> (r: (PipelineState, PipelineAction))
        ensures
            r == start_at(self.fns@, at as int),
    {
        if at < self.fns.len() {
            (PipelineState::Running(at), PipelineAction::Run(self.fns[at]))
        } else {
            (PipelineState::Idle, PipelineAction::Wait)
        }
    }
}

} // verus!
