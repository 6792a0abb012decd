use es_runtime::esruntimewrapperbuilder::{EsRuntimeWrapperBuilder, DEFAULT_MODULE_CACHE_SIZE};
use es_runtime::esruntimewrapperinner::{EngineJob, EsRuntimeWrapperInner, Task};
use es_runtime::session::OpTable;
use es_runtime::task_queue::{QueueClosed, TaskQueue, WorkerStep};
use std::time::Duration;

type Loader = Box<dyn Fn(&str) -> String + Send + Sync>;
type Inner = EsRuntimeWrapperInner<Loader, i32, fn(i32) -> i32, &'static str>;

fn run(step: WorkerStep<Task<i32, fn(i32) -> i32, &'static str>>) -> Task<i32, fn(i32) -> i32, &'static str> {
    match step {
        WorkerStep::Run(t) => t,
        _ => panic!("expected a task"),
    }
}

#[test]
fn queue_is_fifo_and_refuses_after_close() {
    let mut q: TaskQueue<u32> = TaskQueue::new();
    assert!(matches!(q.next_step(), WorkerStep::Wait));
    for t in [3, 1, 2] {
        assert_eq!(q.submit(t), Ok(()));
    }
    assert_eq!(q.len(), 3);
    q.close();
    assert_eq!(q.submit(9), Err(QueueClosed::Closed));
    let mut seen = Vec::new();
    loop {
        match q.next_step() {
            WorkerStep::Run(t) => seen.push(t),
            WorkerStep::Wait => panic!("a closed queue does not wait"),
            WorkerStep::Exit => break,
        }
    }
    assert_eq!(seen, vec![3, 1, 2]);
    assert!(q.is_closed());
}

#[test]
fn submissions_of_several_threads_keep_each_threads_order() {
    // four producers whose submissions reach the queue's lock interleaved
    let mut q = TaskQueue::<(u32, u32)>::new();
    let mut next = [0u32; 4];
    for k in 0..200u32 {
        let thread = (k * 7 + k / 3) % 4;
        q.submit((thread, next[thread as usize])).unwrap();
        next[thread as usize] += 1;
        if k % 5 == 0 {
            assert!(matches!(q.next_step(), WorkerStep::Run(_)));
            next[thread as usize] += 0;
        }
    }
    let mut last = [None::<u32>; 4];
    q.close();
    while let WorkerStep::Run((thread, i)) = q.next_step() {
        if let Some(prev) = last[thread as usize] {
            assert!(prev < i);
        }
        last[thread as usize] = Some(i);
    }
}

#[test]
fn promise_job_runs_after_the_task_that_scheduled_it() {
    let mut inner: Inner = EsRuntimeWrapperInner::new();
    let waiting = inner.eval_sync("Promise.resolve(1).then(f)", "p.es").unwrap();
    let other = inner.eval("later()", "l.es").unwrap();
    let mut log: Vec<String> = Vec::new();
    // the worker takes the synchronous task; while it runs, the engine schedules a reaction job
    let task = run(inner.next_step());
    assert_eq!(task.ticket, waiting);
    assert!(task.reply);
    let job = inner.do_in_es_runtime_thread("reaction").unwrap();
    // the task completes and its result is delivered before anything else runs
    log.push(format!("reply {}", task.ticket));
    let next = run(inner.next_step());
    assert_eq!(next.ticket, other);
    log.push(format!("run {}", next.ticket));
    let reaction = run(inner.next_step());
    assert_eq!(reaction.ticket, job);
    assert!(matches!(reaction.job, EngineJob::Host("reaction")));
    log.push(format!("run {}", reaction.ticket));
    assert_eq!(log, vec!["reply 0", "run 1", "run 2"]);
    assert!(matches!(inner.next_step(), WorkerStep::Wait));
}

#[test]
fn jobs_carry_what_was_asked() {
    let mut inner: Inner = EsRuntimeWrapperInner::new_with_module_code_loader(Box::new(|name: &str| format!("export default '{}';", name)));
    let loader = inner.module_source_loader().unwrap();
    assert_eq!(loader("m"), "export default 'm';");
    assert_eq!(inner.eval_void_sync("1+1", "a.es"), Ok(0));
    assert_eq!(inner.load_module_sync("export {}", "m.mjs"), Ok(1));
    assert_eq!(inner.call_sync(vec!["myobj", "sub"], "test_func_1", vec![1, 2]), Ok(2));
    assert_eq!(inner.register_op("double", |x| 2 * x), Ok(3));
    assert_eq!(inner.cleanup_sync(), Ok(4));
    match run(inner.next_step()).job {
        EngineJob::Eval { code, file_name, keep_result } => {
            assert_eq!((code.as_str(), file_name.as_str(), keep_result), ("1+1", "a.es", false));
        },
        _ => panic!("expected an evaluation"),
    }
    match run(inner.next_step()).job {
        EngineJob::LoadModule { source, file_name } => assert_eq!((source.as_str(), file_name.as_str()), ("export {}", "m.mjs")),
        _ => panic!("expected a module"),
    }
    match run(inner.next_step()).job {
        EngineJob::Call { obj_names, function_name, args } => {
            assert_eq!(obj_names, vec!["myobj".to_string(), "sub".to_string()]);
            assert_eq!(function_name, "test_func_1");
            assert_eq!(args, vec![1, 2]);
        },
        _ => panic!("expected a call"),
    }
    match run(inner.next_step()).job {
        EngineJob::RegisterOp { name, op } => {
            assert_eq!(name, "double");
            assert_eq!(op(21), 42);
        },
        _ => panic!("expected a registration"),
    }
    assert!(matches!(run(inner.next_step()).job, EngineJob::Cleanup));
}

#[test]
fn shutdown_runs_pending_work_then_teardown_and_refuses_more() {
    let mut inner: Inner = EsRuntimeWrapperInner::new();
    inner.eval("a()", "a.es").unwrap();
    let teardown = inner.shutdown().unwrap();
    assert_eq!(inner.eval_sync("b()", "b.es"), Err(QueueClosed::Closed));
    assert_eq!(inner.shutdown(), Err(QueueClosed::Closed));
    assert!(matches!(run(inner.next_step()).job, EngineJob::Eval { .. }));
    let last = run(inner.next_step());
    assert_eq!(last.ticket, teardown);
    assert!(matches!(last.job, EngineJob::Teardown));
    assert!(matches!(inner.next_step(), WorkerStep::Exit));
}

#[test]
fn op_table_finds_registered_ops() {
    let mut ops: OpTable<fn(i32) -> i32> = OpTable::new();
    ops.register_op("inc", |x| x + 1);
    ops.register_op("dec", |x| x - 1);
    assert_eq!((ops.find_op("inc").unwrap())(1), 2);
    ops.register_op("inc", |x| x + 10);
    assert_eq!((ops.find_op("inc").unwrap())(1), 11);
    assert_eq!((ops.find_op("dec").unwrap())(1), 0);
    match ops.find_op("mul") {
        Err(m) => assert_eq!(m, "unknown operation: mul"),
        Ok(_) => panic!("mul was never registered"),
    }
}

#[test]
fn builder_settings() {
    let mut b: EsRuntimeWrapperBuilder<Loader> = EsRuntimeWrapperBuilder::new();
    assert!(!b.is_built());
    b.gc_interval(Duration::from_secs(5)).module_cache_size(7).module_code_loader(Box::new(|_| String::new()));
    let s = b.build();
    assert!(b.is_built());
    assert_eq!(s.gc_interval, Some(Duration::from_secs(5)));
    assert_eq!(s.module_cache_size, 7);
    assert!(s.module_code_loader.is_some());
    let mut d: EsRuntimeWrapperBuilder<Loader> = EsRuntimeWrapperBuilder::new();
    let t = d.build();
    assert_eq!(t.gc_interval, None);
    assert_eq!(t.module_cache_size, DEFAULT_MODULE_CACHE_SIZE);
    assert_eq!(t.module_cache_size, 50);
    assert!(t.module_code_loader.is_none());
}
