use beacon_api_checker::api_checker::{
    default_pipeline, endpoints_from, parse_endpoints, ApiChecker, ConfigError, PipelineAction,
    PipelineEvent, PipelineState, ProbeKind, DEFAULT_RUN_EVERY_SECS, DEFAULT_TIMEOUT_SECS,
};
use url::Url;

fn urls(n: usize) -> Vec<Url> {
    (0..n).map(|i| Url::parse(&format!("http://node{}.example:5052", i)).unwrap()).collect()
}

#[test]
fn new_checker_has_defaults() {
    let c = ApiChecker::new();
    assert_eq!(c.run_every, 60);
    assert_eq!(c.timeout, 10);
    assert_eq!(DEFAULT_RUN_EVERY_SECS, 60);
    assert_eq!(DEFAULT_TIMEOUT_SECS, 10);
    assert!(c.endpoints.is_empty());
    assert!(c.fns.is_empty());
    let d = ApiChecker::default();
    assert_eq!(d.run_every, 60);
    assert_eq!(d.timeout, 10);
}

#[test]
fn builder_sets_each_field() {
    let c = ApiChecker::new()
        .endpoints(urls(2))
        .pipeline(default_pipeline())
        .timeout(3)
        .run_every(15)
        .build()
        .unwrap();
    assert_eq!(c.run_every, 15);
    assert_eq!(c.timeout, 3);
    assert_eq!(c.endpoints, urls(2));
    assert_eq!(c.fns, default_pipeline());
}

#[test]
fn build_refuses_no_endpoints() {
    let r = ApiChecker::new().pipeline(default_pipeline()).build();
    assert!(matches!(r, Err(ConfigError::EmptyEndpointList)));
}

#[test]
fn default_pipeline_has_every_kind_in_order() {
    assert_eq!(
        default_pipeline(),
        vec![
            ProbeKind::Validators,
            ProbeKind::Balances,
            ProbeKind::Block,
            ProbeKind::FinalityCheckpoints,
            ProbeKind::StateRoot,
        ]
    );
}

#[test]
fn parse_endpoints_accepts_urls() {
    let raw = vec!["http://localhost:5052".to_string(), "https://node.example/".to_string()];
    let parsed = parse_endpoints(&raw).unwrap();
    assert_eq!(parsed.len(), 2);
    assert_eq!(parsed[0].as_str(), "http://localhost:5052/");
    assert_eq!(parsed[1].as_str(), "https://node.example/");
    assert_eq!(parsed[0].port(), Some(5052));
}

#[test]
fn parse_endpoints_refuses_empty_list() {
    assert_eq!(parse_endpoints(&vec![]).unwrap_err(), ConfigError::EmptyEndpointList);
}

#[test]
fn parse_endpoints_reports_first_invalid() {
    let raw = vec![
        "http://localhost:5052".to_string(),
        "not a url".to_string(),
        "http://ok.example".to_string(),
        "".to_string(),
    ];
    assert_eq!(parse_endpoints(&raw).unwrap_err(), ConfigError::InvalidUrl(1));
    let first = vec!["/relative/path".to_string()];
    assert_eq!(parse_endpoints(&first).unwrap_err(), ConfigError::InvalidUrl(0));
}

#[test]
fn endpoints_from_keeps_urls_in_order() {
    let a = Url::parse("http://a.example").unwrap();
    let b = Url::parse("http://b.example").unwrap();
    let got = endpoints_from(vec![Ok(a.clone()), Ok(b.clone())]).unwrap();
    assert_eq!(got, vec![a.clone(), b]);
    let err = endpoints_from(vec![Ok(a), Err(url::ParseError::EmptyHost), Err(url::ParseError::InvalidPort)]);
    assert_eq!(err.unwrap_err(), ConfigError::InvalidUrl(1));
    assert_eq!(endpoints_from(vec![]).unwrap_err(), ConfigError::EmptyEndpointList);
}

#[test]
fn pipeline_runs_probes_in_order() {
    let c = ApiChecker::new().endpoints(urls(1)).pipeline(default_pipeline()).build().unwrap();
    let kinds = default_pipeline();
    let (mut state, mut action) = c.run_pipeline(PipelineState::Idle, PipelineEvent::Tick);
    for (i, kind) in kinds.iter().enumerate() {
        assert_eq!(state, PipelineState::Running(i));
        assert_eq!(action, PipelineAction::Run(*kind));
        let next = c.run_pipeline(state, PipelineEvent::ProbeFinished);
        state = next.0;
        action = next.1;
    }
    assert_eq!(state, PipelineState::Idle);
    assert_eq!(action, PipelineAction::Wait);
}

#[test]
fn tick_during_run_is_skipped() {
    let c = ApiChecker::new().endpoints(urls(1)).pipeline(default_pipeline()).build().unwrap();
    let r = c.run_pipeline(PipelineState::Running(2), PipelineEvent::Tick);
    assert_eq!(r, (PipelineState::Running(2), PipelineAction::SkipTick));
}

#[test]
fn failed_probe_does_not_end_the_run() {
    let c = ApiChecker::new().endpoints(urls(1)).pipeline(default_pipeline()).build().unwrap();
    let r = c.run_pipeline(PipelineState::Running(0), PipelineEvent::ProbeFailed);
    assert_eq!(r, (PipelineState::Running(1), PipelineAction::Run(ProbeKind::Balances)));
    let last = c.run_pipeline(PipelineState::Running(4), PipelineEvent::ProbeFailed);
    assert_eq!(last, (PipelineState::Idle, PipelineAction::Wait));
}

#[test]
fn idle_pipeline_ignores_probe_events() {
    let c = ApiChecker::new().endpoints(urls(1)).pipeline(default_pipeline()).build().unwrap();
    let r = c.run_pipeline(PipelineState::Idle, PipelineEvent::ProbeFinished);
    assert_eq!(r, (PipelineState::Idle, PipelineAction::Wait));
}

#[test]
fn empty_pipeline_stays_idle() {
    let c = ApiChecker::new().endpoints(urls(1)).build().unwrap();
    let r = c.run_pipeline(PipelineState::Idle, PipelineEvent::Tick);
    assert_eq!(r, (PipelineState::Idle, PipelineAction::Wait));
    let stale = c.run_pipeline(PipelineState::Running(7), PipelineEvent::ProbeFinished);
    assert_eq!(stale, (PipelineState::Idle, PipelineAction::Wait));
}
