use coord_agent::saga::{
    default_retry_backoff, default_retry_max, Backoff, SagaAction, SagaConfig, SagaContext,
    SagaError, SagaRun, SagaService, SagaState, SagaStep, StepResult, StepWork,
};
use std::sync::Arc;
use std::sync::Mutex;

struct Work<F>(F);

impl<F> StepWork for Work<F>
where
    F: Fn(&mut SagaContext) -> Result<(), String> + Send + Sync,
{
    fn run(&self, ctx: &mut SagaContext) -> Result<(), String> {
        (self.0)(ctx)
    }
}

fn work<F>(f: F) -> Box<dyn StepWork>
where
    F: Fn(&mut SagaContext) -> Result<(), String> + Send + Sync + 'static,
{
    Box::new(Work(f))
}

struct Pauses(Mutex<Vec<u64>>);

impl Backoff for Pauses {
    fn pause(&self, _step: usize, _attempt: u32, millis: u64) {
        self.0.lock().unwrap().push(millis);
    }
}

fn pauses() -> Pauses {
    Pauses(Mutex::new(Vec::new()))
}

#[test]
fn test_simple_saga_success() {
    let mut svc = SagaService::new(SagaConfig::default());
    let id = "test-1";
    svc.add_step(
        id,
        SagaStep {
            name: "s1".into(),
            action: work(|_| Ok(())),
            compensation: work(|_| Ok(())),
        },
    );
    let mut ctx = SagaContext::new(id);
    let r = svc.execute(id, &mut ctx, &pauses()).unwrap();
    assert!(matches!(r, StepResult::Completed));
    assert!(matches!(svc.get_state(id), Ok(SagaState::Completed)));
}

#[test]
fn test_saga_compensation() {
    let mut svc = SagaService::new(SagaConfig::default());
    let id = "test-2";
    svc.add_step(
        id,
        SagaStep {
            name: "s1".into(),
            action: work(|ctx| {
                ctx.set("s1", "ok");
                Ok(())
            }),
            compensation: work(|ctx| {
                ctx.set("s1", "comp");
                Ok(())
            }),
        },
    );
    svc.add_step(
        id,
        SagaStep {
            name: "s2".into(),
            action: work(|_| Err("fail".into())),
            compensation: work(|_| Ok(())),
        },
    );
    let mut ctx = SagaContext::new(id);
    let waited = pauses();
    let r = svc.execute(id, &mut ctx, &waited).unwrap();
    match r {
        StepResult::Failed { step_name, error } => {
            assert_eq!(step_name, "s2");
            assert_eq!(error, "fail");
        }
        _ => panic!("the saga must fail"),
    }
    assert_eq!(ctx.get("s1"), Some(&"comp".to_string()));
    assert!(matches!(svc.get_state(id), Ok(SagaState::Failed)));
    let config = SagaConfig::default();
    assert_eq!(
        waited.0.lock().unwrap().len() as u32,
        config.retry_max_attempts - 1
    );
    assert!(waited
        .0
        .lock()
        .unwrap()
        .iter()
        .all(|ms| *ms == config.retry_backoff_ms));
}

#[test]
fn steps_are_undone_backwards() {
    let log = Arc::new(Mutex::new(Vec::new()));
    let mut svc = SagaService::new(SagaConfig { retry_max_attempts: 1, retry_backoff_ms: 5 });
    for name in ["a", "b", "c"] {
        let done = Arc::clone(&log);
        let undone = Arc::clone(&log);
        svc.add_step(
            "s",
            SagaStep {
                name: name.into(),
                action: work(move |_| {
                    done.lock().unwrap().push(format!("+{name}"));
                    if name == "c" {
                        Err("stop".into())
                    } else {
                        Ok(())
                    }
                }),
                compensation: work(move |_| {
                    undone.lock().unwrap().push(format!("-{name}"));
                    Err("ignored".into())
                }),
            },
        );
    }
    assert_eq!(svc.step_count("s"), Some(3));
    let mut ctx = SagaContext::new("s");
    let r = svc.execute("s", &mut ctx, &pauses()).unwrap();
    assert!(matches!(r, StepResult::Failed { .. }));
    assert_eq!(*log.lock().unwrap(), vec!["+a", "+b", "+c", "-b", "-a"]);
}

#[test]
fn unknown_sagas_are_reported() {
    let mut svc = SagaService::new(SagaConfig::default());
    let mut ctx = SagaContext::new("none");
    assert_eq!(ctx.saga_id(), "none");
    match svc.execute("none", &mut ctx, &pauses()) {
        Err(SagaError::NotFound(id)) => assert_eq!(id, "none"),
        Ok(_) => panic!("nothing to run"),
    }
    let e = svc.get_state("none").err().unwrap();
    assert_eq!(e.to_text(), "saga not found: none");
    assert_eq!(svc.step_count("none"), None);
}

#[test]
fn retry_defaults() {
    let config = SagaConfig::default();
    assert_eq!(config.retry_max_attempts, default_retry_max());
    assert_eq!(config.retry_backoff_ms, default_retry_backoff());
}

#[test]
fn a_retry_may_still_succeed() {
    let mut run = SagaRun::new(1, 2);
    assert!(matches!(run.action(), SagaAction::Attempt { step: 0, attempt: 0 }));
    run = run.on_attempt(Err("once".into()));
    assert!(matches!(run.action(), SagaAction::Attempt { step: 0, attempt: 1 }));
    run = run.on_attempt(Ok(()));
    assert!(matches!(run.action(), SagaAction::Finished));
    assert!(matches!(run.state(), SagaState::Completed));
    assert_eq!(run.failed_step(), None);
}

#[test]
fn a_first_step_that_fails_leaves_nothing_to_undo() {
    let log = Arc::new(Mutex::new(Vec::new()));
    let mut svc = SagaService::new(SagaConfig { retry_max_attempts: 2, retry_backoff_ms: 7 });
    let done = Arc::clone(&log);
    let undone = Arc::clone(&log);
    svc.add_step(
        "s",
        SagaStep {
            name: "a".into(),
            action: work(move |_| {
                let mut log = done.lock().unwrap();
                log.push("+a".to_string());
                Err(format!("attempt {}", log.len()))
            }),
            compensation: work(move |_| {
                undone.lock().unwrap().push("-a".to_string());
                Ok(())
            }),
        },
    );
    let mut ctx = SagaContext::new("s");
    let waited = pauses();
    match svc.execute("s", &mut ctx, &waited).unwrap() {
        StepResult::Failed { step_name, error } => {
            assert_eq!(step_name, "a");
            assert_eq!(error, "attempt 2");
        }
        _ => panic!("the saga must fail"),
    }
    assert_eq!(*log.lock().unwrap(), vec!["+a", "+a"]);
    assert_eq!(*waited.0.lock().unwrap(), vec![7]);
    assert!(matches!(svc.get_state("s"), Ok(SagaState::Failed)));
}

#[test]
fn without_attempts_the_first_step_fails_at_once() {
    let mut svc = SagaService::new(SagaConfig { retry_max_attempts: 0, retry_backoff_ms: 7 });
    svc.add_step(
        "s",
        SagaStep {
            name: "a".into(),
            action: work(|ctx| {
                ctx.set("a", "done");
                Ok(())
            }),
            compensation: work(|_| Ok(())),
        },
    );
    let mut ctx = SagaContext::new("s");
    match svc.execute("s", &mut ctx, &pauses()).unwrap() {
        StepResult::Failed { step_name, error } => {
            assert_eq!(step_name, "a");
            assert_eq!(error, "");
        }
        _ => panic!("the saga must fail"),
    }
    assert_eq!(ctx.get("a"), None);
}
