//! The handle through which host threads hand engine work to the worker thread.
//!
//! Every request becomes a task on one FIFO queue; a task carries a ticket, and where the
//! caller waits for the outcome (`*_sync`) it asks for a reply, which the worker delivers under
//! that ticket. Waiting itself is the host's part.
use vstd::prelude::*;
use crate::task_queue::{QueueClosed, TaskQueue, WorkerStep};

verus! {

/// Work for the worker thread, carried out against the engine session. `V` is a script value,
/// `O` a host operation, `J` any other host job (a closure, or a promise job of the engine).
pub enum EngineJob<V, O, J> {
    /// Evaluate `code` as the script `file_name`; `keep_result` asks for the value.
    Eval { code: String, file_name: String, keep_result: bool },
    /// Compile `source` as the module `file_name`.
    LoadModule { source: String, file_name: String },
    /// Call the function `function_name` on the object reached by `obj_names` from the global scope.
    Call { obj_names: Vec<String>, function_name: String, args: Vec<V> },
    /// Run the script-side cleanup hook, then collect garbage.
    Cleanup,
    /// Register `op` under `name` in the session.
    RegisterOp { name: String, op: O },
    /// Run a host job against the session.
    Host(J),
    /// The last task of a runtime that is shutting down.
    Teardown,
}

/// A queued piece of work and how its outcome is handled.
pub struct Task<V, O, J> {
    pub ticket: u64,
    /// Whether a caller waits for the outcome under `ticket` (else errors are only logged).
    pub reply: bool,
    pub job: EngineJob<V, O, J>,
}

/// The shared side of a runtime: its task queue and its module loader.
pub struct EsRuntimeWrapperInner<L, V, O, J> {
    tasks: TaskQueue<Task<V, O, J>>,
    next_ticket: u64,
    module_source_loader: Option<L>,
}

/// The ticket after `t`, wrapping at the end of the range.
pub open spec fn ticket_after(t: u64) -> u64 {
    if t == u64::MAX {
        0
    } else {
        (t + 1) as u64
    }
}

impl<L, V, O, J> EsRuntimeWrapperInner<L, V, O, J> {
    /// The tasks waiting for the worker, oldest first.
    pub closed spec fn pending(&self) -> Seq<Task<V, O, J>> {
        self.tasks@
    }

    pub closed spec fn spec_is_closed(&self) -> bool {
        self.tasks.spec_is_closed()
    }

    /// The closure that supplies the source text of imported modules, if one was given.
    pub closed spec fn loader(&self) -> Option<L> {
        self.module_source_loader
    }

    /// The ticket the next accepted task gets.
    pub closed spec fn spec_next_ticket(&self) -> u64 {
        self.next_ticket
    }

    /// `new` is `old` after one submission answered by `r`: refused once shutdown has begun;
    /// otherwise one task with the next ticket and the given `reply` is queued behind the others,
    /// and its ticket returned.
    pub open spec fn enqueued(old: &Self, new: &Self, r: Result<u64, QueueClosed>, reply: bool) -> bool {
        &&& new.spec_is_closed() == old.spec_is_closed()
        &&& old.spec_is_closed() ==> {
            &&& r == Err::<u64, QueueClosed>(QueueClosed::Closed)
            &&& new.pending() == old.pending()
            &&& new.spec_next_ticket() == old.spec_next_ticket()
        }
        &&& !old.spec_is_closed() ==> {
            &&& r == Ok::<u64, QueueClosed>(old.spec_next_ticket())
            &&& new.pending().len() == old.pending().len() + 1
            &&& new.pending().drop_last() == old.pending()
            &&& new.pending().last().ticket == old.spec_next_ticket()
            &&& new.pending().last().reply == reply
            &&& new.spec_next_ticket() == ticket_after(old.spec_next_ticket())
        }
    }

    /// A runtime handle without a module loader.
    pub fn new() -> (r: Self)
        ensures
            r.pending() == Seq::<Task<V, O, J>>::empty(),
            !r.spec_is_closed(),
            r.loader() is None,
    {
        EsRuntimeWrapperInner { tasks: TaskQueue::new(), next_ticket: 0, module_source_loader: None }
    }

    /// A runtime handle whose imports are served by `loader`.
    pub fn new_with_module_code_loader(loader: L) -> (r: Self)
        ensures
            r.pending() == Seq::<Task<V, O, J>>::empty(),
            !r.spec_is_closed(),
            r.loader() == Some(loader),
    {
        EsRuntimeWrapperInner { tasks: TaskQueue::new(), next_ticket: 0, module_source_loader: Some(loader) }
    }

    /// The module loader, for the worker to call when the engine resolves an import.
    pub fn module_source_loader(&self) -> (r: Option<&L>)
        ensures
            match r {
                Some(l) => self.loader() == Some(*l),
                None => self.loader() is None,
            },
    {
        match &self.module_source_loader {
            Some(l) => Some(l),
            None => None,
        }
    }

    fn submit(&mut self, job: EngineJob<V, O, J>, reply: bool) -> (r: Result<u64, QueueClosed>)
        ensures
            Self::enqueued(old(self), final(self), r, reply),
            !old(self).spec_is_closed() ==> final(self).pending().last().job == job,
            final(self).loader() == old(self).loader(),
    {
        let ticket = self.next_ticket;
        let task = Task { ticket, reply, job };
        let ghost t = task;
        match self.tasks.submit(task) {
            Ok(()) => {
                self.next_ticket = if ticket == u64::MAX {
                    0
                } else {
                    ticket + 1
                };
                proof {
                    assert(self.pending().drop_last() =~= old(self).pending());
                }
                Ok(ticket)
            },
            Err(e) => Err(e),
        }
    }

    /// Queues the evaluation of `eval_code` as `file_name`; its outcome is only logged.
    pub fn eval(&mut self, eval_code: &str, file_name: &str) -> (r: Result<u64, QueueClosed>)
        ensures
            Self::enqueued(old(self), final(self), r, false),
            !old(self).spec_is_closed() ==> (final(self).pending().last().job matches EngineJob::Eval { code, file_name: f, keep_result }
                && code@ == eval_code@ && f@ == file_name@ && !keep_result),
            final(self).loader() == old(self).loader(),
    {
        self.submit(EngineJob::Eval { code: eval_code.to_owned(), file_name: file_name.to_owned(), keep_result: false }, false)
    }

    /// Queues the evaluation of `code` as `file_name`; the caller waits for its value under the
    /// returned ticket.
    pub fn eval_sync(&mut self, code: &str, file_name: &str) -> (r: Result<u64, QueueClosed>)
        ensures
            Self::enqueued(old(self), final(self), r, true),
            !old(self).spec_is_closed() ==> (final(self).pending().last().job matches EngineJob::Eval { code: c, file_name: f, keep_result }
                && c@ == code@ && f@ == file_name@ && keep_result),
            final(self).loader() == old(self).loader(),
    {
        self.submit(EngineJob::Eval { code: code.to_owned(), file_name: file_name.to_owned(), keep_result: true }, true)
    }

    /// Queues the evaluation of `code` as `file_name`, dropping its value; the caller waits for
    /// success or the engine error under the returned ticket.
    pub fn eval_void_sync(&mut self, code: &str, file_name: &str) -> (r: Result<u64, QueueClosed>)
        ensures
            Self::enqueued(old(self), final(self), r, true),
            !old(self).spec_is_closed() ==> (final(self).pending().last().job matches EngineJob::Eval { code: c, file_name: f, keep_result }
                && c@ == code@ && f@ == file_name@ && !keep_result),
            final(self).loader() == old(self).loader(),
    {
        self.submit(EngineJob::Eval { code: code.to_owned(), file_name: file_name.to_owned(), keep_result: false }, true)
    }

    /// Queues the compilation of `module_src` as the module `module_file_name`; the caller waits
    /// under the returned ticket.
    pub fn load_module_sync(&mut self, module_src: &str, module_file_name: &str) -> (r: Result<u64, QueueClosed>)
        ensures
            Self::enqueued(old(self), final(self), r, true),
            !old(self).spec_is_closed() ==> (final(self).pending().last().job matches EngineJob::LoadModule { source, file_name }
                && source@ == module_src@ && file_name@ == module_file_name@),
            final(self).loader() == old(self).loader(),
    {
        self.submit(EngineJob::LoadModule { source: module_src.to_owned(), file_name: module_file_name.to_owned() }, true)
    }

    /// Queues the session cleanup; the caller waits until it has run.
    pub fn cleanup_sync(&mut self) -> (r: Result<u64, QueueClosed>)
        ensures
            Self::enqueued(old(self), final(self), r, true),
            !old(self).spec_is_closed() ==> final(self).pending().last().job is Cleanup,
            final(self).loader() == old(self).loader(),
    {
        self.submit(EngineJob::Cleanup, true)
    }

    /// Queues the registration of `op` under `name`; the caller waits until it is registered.
    pub fn register_op(&mut self, name: &str, op: O) -> (r: Result<u64, QueueClosed>)
        ensures
            Self::enqueued(old(self), final(self), r, true),
            !old(self).spec_is_closed() ==> (final(self).pending().last().job matches EngineJob::RegisterOp { name: n, op: o }
                && n@ == name@ && o == op),
            final(self).loader() == old(self).loader(),
    {
        self.submit(EngineJob::RegisterOp { name: name.to_owned(), op }, true)
    }

    fn submit_call(&mut self, obj_names: Vec<&str>, function_name: &str, args: Vec<V>, reply: bool) -> (r: Result<u64, QueueClosed>)
        ensures
            Self::enqueued(old(self), final(self), r, reply),
            !old(self).spec_is_closed() ==> (final(self).pending().last().job matches EngineJob::Call { obj_names: p, function_name: f, args: a }
                && p@.len() == obj_names@.len() && (forall|i: int| 0 <= i < p@.len() ==> #[trigger] p@[i]@ == obj_names@[i]@)
                && f@ == function_name@ && a@ == args@),
            final(self).loader() == old(self).loader(),
    {
        let mut path: Vec<String> = Vec::new();
        let mut i: usize = 0;
        while i < obj_names.len()
            invariant
                i <= obj_names@.len(),
                path@.len() == i,
                forall|j: int| 0 <= j < i ==> #[trigger] path@[j]@ == obj_names@[j]@,
            decreases obj_names@.len() - i,
        {
            path.push(obj_names[i].to_owned());
            i += 1;
        }
        self.submit(EngineJob::Call { obj_names: path, function_name: function_name.to_owned(), args }, reply)
    }

    /// Queues a call of `function_name` on the object reached by `obj_names` from the global
    /// scope; failures are only logged.
    pub fn call(&mut self, obj_names: Vec<&str>, function_name: &str, args: Vec<V>) -> (r: Result<u64, QueueClosed>)
        ensures
            Self::enqueued(old(self), final(self), r, false),
            !old(self).spec_is_closed() ==> (final(self).pending().last().job matches EngineJob::Call { obj_names: p, function_name: f, args: a }
                && p@.len() == obj_names@.len() && (forall|i: int| 0 <= i < p@.len() ==> #[trigger] p@[i]@ == obj_names@[i]@)
                && f@ == function_name@ && a@ == args@),
            final(self).loader() == old(self).loader(),
    {
        self.submit_call(obj_names, function_name, args, false)
    }

    /// Queues a call of `function_name` on the object reached by `obj_names` from the global
    /// scope; the caller waits for the returned value under the returned ticket.
    pub fn call_sync(&mut self, obj_names: Vec<&str>, function_name: &str, args: Vec<V>) -> (r: Result<u64, QueueClosed>)
        ensures
            Self::enqueued(old(self), final(self), r, true),
            !old(self).spec_is_closed() ==> (final(self).pending().last().job matches EngineJob::Call { obj_names: p, function_name: f, args: a }
                && p@.len() == obj_names@.len() && (forall|i: int| 0 <= i < p@.len() ==> #[trigger] p@[i]@ == obj_names@[i]@)
                && f@ == function_name@ && a@ == args@),
            final(self).loader() == old(self).loader(),
    {
        self.submit_call(obj_names, function_name, args, true)
    }

    /// Queues a host job, such as a promise job the engine scheduled; it does not wait, so the
    /// worker itself may call it.
    pub fn do_in_es_runtime_thread(&mut self, job: J) -> (r: Result<u64, QueueClosed>)
        ensures
            Self::enqueued(old(self), final(self), r, false),
            !old(self).spec_is_closed() ==> final(self).pending().last().job == EngineJob::<V, O, J>::Host(job),
            final(self).loader() == old(self).loader(),
    {
        self.submit(EngineJob::Host(job), false)
    }

    /// Queues a host job whose outcome the caller waits for under the returned ticket.
    pub fn do_in_es_runtime_thread_sync(&mut self, job: J) -> (r: Result<u64, QueueClosed>)
        ensures
            Self::enqueued(old(self), final(self), r, true),
            !old(self).spec_is_closed() ==> final(self).pending().last().job == EngineJob::<V, O, J>::Host(job),
            final(self).loader() == old(self).loader(),
    {
        self.submit(EngineJob::Host(job), true)
    }

    /// Begins shutdown: queues the teardown task, which the caller waits for, and refuses every
    /// later submission. Tasks already queued still run, before the teardown.
    pub fn shutdown(&mut self) -> (r: Result<u64, QueueClosed>)
        ensures
            final(self).spec_is_closed(),
            old(self).spec_is_closed() ==> r == Err::<u64, QueueClosed>(QueueClosed::Closed) && final(self).pending() == old(self).pending(),
            !old(self).spec_is_closed() ==> r == Ok::<u64, QueueClosed>(old(self).spec_next_ticket()) && final(self).pending()
                == old(self).pending().push(Task { ticket: old(self).spec_next_ticket(), reply: true, job: EngineJob::Teardown }),
            final(self).loader() == old(self).loader(),
    {
        let r = self.submit(EngineJob::Teardown, true);
        proof {
            if !old(self).spec_is_closed() {
                assert(self.pending() =~= old(self).pending().push(Task { ticket: old(self).spec_next_ticket(), reply: true, job: EngineJob::Teardown }));
            }
        }
        self.tasks.close();
        r
    }

    /// The worker's next move: the oldest task, a wait, or the end once shut down and drained.
    pub fn next_step(&mut self) -> (r: WorkerStep<Task<V, O, J>>)
        ensures
            final(self).spec_is_closed() == old(self).spec_is_closed(),
            final(self).spec_next_ticket() == old(self).spec_next_ticket(),
            final(self).loader() == old(self).loader(),
            old(self).pending().len() > 0 ==> r == WorkerStep::Run(old(self).pending()[0]) && final(self).pending()
                == old(self).pending().drop_first(),
            old(self).pending().len() == 0 ==> final(self).pending() == old(self).pending() && (if old(self).spec_is_closed() {
                r is Exit
            } else {
                r is Wait
            }),
    {
        self.tasks.next_step()
    }
}

} // verus!
