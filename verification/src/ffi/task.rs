//! Tasks of the C interface.

use std::task::{Context, Waker};

use vstd::prelude::*;

use crate::error::{Error, Result};
use crate::ffi::body::hyper_buf;
use crate::ffi::client::hyper_clientconn;
use crate::ffi::http_types::hyper_response;
use crate::outside::std_sync::{context_waker, waker_clone};

verus! {

/// A poll of a callback is done.
pub const HYPER_POLL_READY: i32 = 0;

/// A poll of a callback has to wait.
pub const HYPER_POLL_PENDING: i32 = 1;

/// A poll of a callback failed.
pub const HYPER_POLL_ERROR: i32 = 3;

// ----- executor -----

/// Tasks that wait to be taken up by the executor.
#[derive(Debug)]
pub struct SpawnQueue<T> {
    tasks: Vec<T>,
}

impl<T> SpawnQueue<T> {
    /// The tasks that wait, the first first.
    pub closed spec fn waiting(&self) -> Seq<T> {
        self.tasks@
    }

    /// No tasks.
    pub fn new() -> (r: SpawnQueue<T>)
        ensures
            r.waiting() == Seq::<T>::empty(),
    {
        SpawnQueue { tasks: Vec::new() }
    }

    /// Adds a task behind those that wait.
    pub fn spawn(&mut self, task: T)
        ensures
            final(self).waiting() == old(self).waiting().push(task),
    {
        self.tasks.push(task);
    }

    /// Takes all tasks out that wait.
    pub fn drain(&mut self) -> (tasks: Vec<T>)
        ensures
            tasks@ == old(self).waiting(),
            final(self).waiting() == Seq::<T>::empty(),
    {
        let mut tasks: Vec<T> = Vec::new();
        std::mem::swap(&mut self.tasks, &mut tasks);
        tasks
    }
}

/// What the executor does next while it looks for a finished task.
#[derive(Debug, Clone, Copy, PartialEq, Eq, Structural)]
pub enum ExecStep {
    /// Takes up the tasks that wait, before anything else.
    Start,
    /// Polls its tasks: is one finished, or are there none?
    Poll,
    /// Takes up the tasks that wait: were there any?
    Drain,
    /// Takes the mark that a task was woken meanwhile: was it set?
    TakeWoken,
    /// Is done.
    Finish,
}

impl ExecStep {
    /// What follows a step, given the answer to its question.
    pub open spec fn spec_next(self, answer: bool) -> ExecStep {
        match self {
            ExecStep::Start => ExecStep::Poll,
            ExecStep::Poll => if answer {
                ExecStep::Finish
            } else {
                ExecStep::Drain
            },
            ExecStep::Drain => if answer {
                ExecStep::Poll
            } else {
                ExecStep::TakeWoken
            },
            ExecStep::TakeWoken => if answer {
                ExecStep::Poll
            } else {
                ExecStep::Finish
            },
            ExecStep::Finish => ExecStep::Finish,
        }
    }

    /// What follows a step, given the answer to its question.
    pub fn next(self, answer: bool) -> (r: ExecStep)
        ensures
            r == self.spec_next(answer),
    {
        match self {
            ExecStep::Start => ExecStep::Poll,
            ExecStep::Poll => {
                if answer {
                    ExecStep::Finish
                } else {
                    ExecStep::Drain
                }
            },
            ExecStep::Drain => {
                if answer {
                    ExecStep::Poll
                } else {
                    ExecStep::TakeWoken
                }
            },
            ExecStep::TakeWoken => {
                if answer {
                    ExecStep::Poll
                } else {
                    ExecStep::Finish
                }
            },
            ExecStep::Finish => ExecStep::Finish,
        }
    }
}

/// Where a run of the executor stands after some answers.
pub open spec fn exec_run(answers: Seq<bool>) -> ExecStep
    decreases answers.len(),
{
    if answers.len() == 0 {
        ExecStep::Start
    } else {
        exec_run(answers.drop_last()).spec_next(answers.last())
    }
}

/// The executor gives up without a finished task only when a poll found none, no
/// task was waiting to be taken up after it, and none was woken meanwhile.
pub proof fn law_executor_gives_up_only_when_idle(answers: Seq<bool>)
    requires
        answers.len() > 0,
        exec_run(answers) == ExecStep::Finish,
        exec_run(answers.drop_last()) != ExecStep::Finish,
    ensures
        ({
            let n = answers.len() as int;
            ||| exec_run(answers.take(n - 1)) == ExecStep::Poll && answers[n - 1]
            ||| n >= 3 && exec_run(answers.take(n - 3)) == ExecStep::Poll && !answers[n - 3]
                && !answers[n - 2] && !answers[n - 1]
        }),
{
    let n = answers.len() as int;
    let a = answers.drop_last();
    assert(answers.take(n - 1) =~= a);
    if exec_run(a) != ExecStep::Poll {
        assert(exec_run(a) == ExecStep::TakeWoken && !answers[n - 1]);
        assert(a.len() > 0);
        let b = a.drop_last();
        assert(a.last() == answers[n - 2]);
        assert(exec_run(b) == ExecStep::Drain && !answers[n - 2]);
        assert(b.len() > 0);
        let c = b.drop_last();
        assert(b.last() == answers[n - 3]);
        assert(answers.take(n - 3) =~= c);
        assert(exec_run(c) == ExecStep::Poll && !answers[n - 3]);
    }
}

// ----- values -----

/// What kind of value a task has.
#[derive(Debug, Clone, Copy, PartialEq, Eq, Structural)]
pub enum hyper_task_return_type {
    /// None.
    HYPER_TASK_EMPTY,
    /// An error.
    HYPER_TASK_ERROR,
    /// A connection.
    HYPER_TASK_CLIENTCONN,
    /// A response.
    HYPER_TASK_RESPONSE,
    /// A buffer.
    HYPER_TASK_BUF,
}

/// The value of a task.
pub enum TaskValue {
    Empty,
    Error(Error),
    ClientConn(hyper_clientconn),
    Response(hyper_response),
    Buf(hyper_buf),
}

impl TaskValue {
    /// What kind of value it is.
    pub open spec fn spec_type(&self) -> hyper_task_return_type {
        match self {
            TaskValue::Empty => hyper_task_return_type::HYPER_TASK_EMPTY,
            TaskValue::Error(_) => hyper_task_return_type::HYPER_TASK_ERROR,
            TaskValue::ClientConn(_) => hyper_task_return_type::HYPER_TASK_CLIENTCONN,
            TaskValue::Response(_) => hyper_task_return_type::HYPER_TASK_RESPONSE,
            TaskValue::Buf(_) => hyper_task_return_type::HYPER_TASK_BUF,
        }
    }

    /// What kind of value it is.
    pub fn as_task_type(&self) -> (r: hyper_task_return_type)
        ensures
            r == self.spec_type(),
    {
        match self {
            TaskValue::Empty => hyper_task_return_type::HYPER_TASK_EMPTY,
            TaskValue::Error(_) => hyper_task_return_type::HYPER_TASK_ERROR,
            TaskValue::ClientConn(_) => hyper_task_return_type::HYPER_TASK_CLIENTCONN,
            TaskValue::Response(_) => hyper_task_return_type::HYPER_TASK_RESPONSE,
            TaskValue::Buf(_) => hyper_task_return_type::HYPER_TASK_BUF,
        }
    }
}

/// What can become the value of a task.
pub trait IntoDynTaskType: Sized {
    /// The value that it becomes.
    spec fn value(self) -> TaskValue;

    /// The value that it becomes.
    fn into_dyn_task_type(self) -> (r: TaskValue)
        ensures
            r == self.value(),
    ;
}

impl IntoDynTaskType for () {
    open spec fn value(self) -> TaskValue {
        TaskValue::Empty
    }

    fn into_dyn_task_type(self) -> (r: TaskValue) {
        TaskValue::Empty
    }
}

impl IntoDynTaskType for Error {
    open spec fn value(self) -> TaskValue {
        TaskValue::Error(self)
    }

    fn into_dyn_task_type(self) -> (r: TaskValue) {
        TaskValue::Error(self)
    }
}

impl IntoDynTaskType for hyper_clientconn {
    open spec fn value(self) -> TaskValue {
        TaskValue::ClientConn(self)
    }

    fn into_dyn_task_type(self) -> (r: TaskValue) {
        TaskValue::ClientConn(self)
    }
}

impl IntoDynTaskType for hyper_response {
    open spec fn value(self) -> TaskValue {
        TaskValue::Response(self)
    }

    fn into_dyn_task_type(self) -> (r: TaskValue) {
        TaskValue::Response(self)
    }
}

impl IntoDynTaskType for hyper_buf {
    open spec fn value(self) -> TaskValue {
        TaskValue::Buf(self)
    }

    fn into_dyn_task_type(self) -> (r: TaskValue) {
        TaskValue::Buf(self)
    }
}

impl<T: IntoDynTaskType> IntoDynTaskType for Result<T> {
    open spec fn value(self) -> TaskValue {
        match self {
            Ok(val) => val.value(),
            Err(err) => TaskValue::Error(err),
        }
    }

    fn into_dyn_task_type(self) -> (r: TaskValue) {
        match self {
            Ok(val) => val.into_dyn_task_type(),
            Err(err) => TaskValue::Error(err),
        }
    }
}

impl<T: IntoDynTaskType> IntoDynTaskType for Option<T> {
    open spec fn value(self) -> TaskValue {
        match self {
            Some(val) => val.value(),
            None => TaskValue::Empty,
        }
    }

    fn into_dyn_task_type(self) -> (r: TaskValue) {
        match self {
            Some(val) => val.into_dyn_task_type(),
            None => TaskValue::Empty,
        }
    }
}

/// What kind of value a task shows.
pub open spec fn spec_output_type(output: Option<TaskValue>) -> hyper_task_return_type {
    match output {
        None => hyper_task_return_type::HYPER_TASK_EMPTY,
        Some(val) => val.spec_type(),
    }
}

/// The value that can be taken out of a task: one that is not empty.
pub open spec fn value_to_take(output: Option<TaskValue>) -> Option<TaskValue> {
    match output {
        Some(TaskValue::Empty) => None,
        other => other,
    }
}

/// What the application sees of a task.
pub struct hyper_task {
    /// The value, once the task is finished and until it is taken.
    pub output: Option<TaskValue>,
    /// An address of the application's own.
    pub userdata: usize,
}

impl hyper_task {
    /// A task that is not finished.
    pub fn new() -> (r: hyper_task)
        ensures
            r.output is None,
            r.userdata == 0,
    {
        hyper_task { output: None, userdata: 0 }
    }

    /// Finishes the task.
    pub fn finish(&mut self, val: TaskValue)
        ensures
            *final(self) == (hyper_task { output: Some(val), userdata: old(self).userdata }),
    {
        self.output = Some(val);
    }

    /// What kind of value the task has.
    pub fn output_type(&self) -> (r: hyper_task_return_type)
        ensures
            r == spec_output_type(self.output),
    {
        match &self.output {
            None => hyper_task_return_type::HYPER_TASK_EMPTY,
            Some(val) => val.as_task_type(),
        }
    }

    /// Takes the value out, where there is one that is not empty.
    pub fn take_value(&mut self) -> (r: Option<TaskValue>)
        ensures
            r == value_to_take(old(self).output),
            *final(self) == (hyper_task { output: None, userdata: old(self).userdata }),
    {
        match self.output.take() {
            Some(TaskValue::Empty) => None,
            other => other,
        }
    }
}

// ----- wakers -----

/// The context of a task, which a callback gets its waker from.
#[derive(Debug)]
pub struct hyper_context<'a>(pub &'a Waker);

/// Wakes a task.
#[derive(Debug)]
pub struct hyper_waker {
    pub waker: Waker,
}

impl<'a> hyper_context<'a> {
    /// It stands for a context: it holds the waker that the context gives.
    pub closed spec fn stands_for(&self, cx: &Context<'_>) -> bool {
        call_ensures(context_waker, (cx,), self.0)
    }

    /// A waker is one that cloning its own gives.
    pub closed spec fn gives(&self, waker: hyper_waker) -> bool {
        call_ensures(waker_clone, (self.0,), waker.waker)
    }

    /// The context for a callback.
    pub fn wrap(cx: &'a Context<'_>) -> (r: hyper_context<'a>)
        ensures
            r.stands_for(cx),
    {
        hyper_context(context_waker(cx))
    }

    /// A waker of the task.
    pub fn waker(&self) -> (r: hyper_waker)
        ensures
            self.gives(r),
    {
        hyper_waker { waker: waker_clone(self.0) }
    }
}

impl hyper_waker {
    /// Wakes the task.
    pub fn wake(self)
        ensures
            call_ensures(Waker::wake, (self.waker,), ()),
    {
        self.waker.wake();
    }
}

/// The executor takes up the tasks that wait before it polls. It stops as soon as a poll
/// finds a finished task, polls again whenever it took up a task or one was woken, and
/// stays stopped.
pub proof fn law_executor_steps(step: ExecStep, answer: bool)
    ensures
        step == ExecStep::Start ==> step.spec_next(answer) == ExecStep::Poll,
        step == ExecStep::Poll ==> (step.spec_next(answer) == ExecStep::Finish <==> answer),
        step == ExecStep::Poll && !answer ==> step.spec_next(answer) == ExecStep::Drain,
        step == ExecStep::Drain ==> (step.spec_next(answer) == ExecStep::Poll <==> answer),
        step == ExecStep::Drain && !answer ==> step.spec_next(answer) == ExecStep::TakeWoken,
        step == ExecStep::TakeWoken ==> (step.spec_next(answer) == ExecStep::Poll <==> answer),
        step == ExecStep::TakeWoken && !answer ==> step.spec_next(answer) == ExecStep::Finish,
        step == ExecStep::Finish ==> step.spec_next(answer) == ExecStep::Finish,
{
}

/// Each kind of value is shown as its own, and a failed task as an error, whatever it was
/// to give.
pub proof fn law_kinds_of_values<T: IntoDynTaskType>(val: TaskValue, err: Error, ok: T)
    ensures
        val.spec_type() == hyper_task_return_type::HYPER_TASK_EMPTY <==> val is Empty,
        val.spec_type() == hyper_task_return_type::HYPER_TASK_ERROR <==> val is Error,
        val.spec_type() == hyper_task_return_type::HYPER_TASK_CLIENTCONN <==> val is ClientConn,
        val.spec_type() == hyper_task_return_type::HYPER_TASK_RESPONSE <==> val is Response,
        val.spec_type() == hyper_task_return_type::HYPER_TASK_BUF <==> val is Buf,
        Err::<T, Error>(err).value() == TaskValue::Error(err),
        Ok::<T, Error>(ok).value() == ok.value(),
        None::<T>.value() is Empty,
        Some(ok).value() == ok.value(),
{
}

// What a context stands for, and what it gives, is said of the calls that are made.
proof fn law_calls(context: hyper_context<'_>, cx: &Context<'_>, waker: hyper_waker)
    ensures
        context.stands_for(cx) ==> call_ensures(context_waker, (cx,), context.0),
        context.gives(waker) ==> call_ensures(waker_clone, (context.0,), waker.waker),
{
}

/// A value is taken out as it is, and only an empty one, or none, is not; a task without
/// one shows that it is empty, and any other shows the kind of its value.
pub proof fn law_values_of_tasks(val: TaskValue)
    ensures
        value_to_take(None) is None,
        val is Empty ==> value_to_take(Some(val)) is None,
        !(val is Empty) ==> value_to_take(Some(val)) == Some(val),
        spec_output_type(None) == hyper_task_return_type::HYPER_TASK_EMPTY,
        spec_output_type(Some(val)) == val.spec_type(),
{
}

} // verus!
