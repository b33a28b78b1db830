//! The worker's decisions. The worker alone calls into the engine: it starts
//! it, takes one command at a time and turns it into one engine call, and
//! after `Stop` takes no more.

use vstd::prelude::*;
use vstd::string::*;
use crate::context::{CompleteContext, NextContext};
use crate::decimal::{signed_decimal, signed_decimal_text};
use crate::protocol::{CommandModel, ServiceCommand};

verus! {

/// Where the worker is in its life.
#[derive(Clone, Copy, Debug, PartialEq, Eq, Structural)]
pub enum WorkerPhase {
    Created,
    Running,
    Stopped,
}

/// A call into the engine.
#[derive(Debug, PartialEq, Eq)]
pub enum EngineCall {
    StartService { use_default_profile: bool },
    StopService,
    ParseQuery { query: String },
    DiscardQuery { query_id: i32 },
    Subscribe {
        query_id: i32,
        operation_name: String,
        variables: String,
        next_context: NextContext,
        complete_context: CompleteContext,
    },
    Unsubscribe { subscription_id: i32 },
}

/// The mathematical value of an engine call.
pub enum CallModel {
    StartService { use_default_profile: bool },
    StopService,
    ParseQuery { query: Seq<char> },
    DiscardQuery { query_id: i32 },
    Subscribe {
        query_id: i32,
        operation_name: Seq<char>,
        variables: Seq<char>,
        next_wake: u32,
        complete_wake: u32,
    },
    Unsubscribe { subscription_id: i32 },
}

impl View for EngineCall {
    type V = CallModel;

    open spec fn view(&self) -> CallModel {
        match self {
            EngineCall::StartService { use_default_profile } => CallModel::StartService {
                use_default_profile: *use_default_profile,
            },
            EngineCall::StopService => CallModel::StopService,
            EngineCall::ParseQuery { query } => CallModel::ParseQuery { query: query@ },
            EngineCall::DiscardQuery { query_id } => CallModel::DiscardQuery {
                query_id: *query_id,
            },
            EngineCall::Subscribe {
                query_id,
                operation_name,
                variables,
                next_context,
                complete_context,
            } => CallModel::Subscribe {
                query_id: *query_id,
                operation_name: operation_name@,
                variables: variables@,
                next_wake: next_context.thread_id,
                complete_wake: complete_context.thread_id,
            },
            EngineCall::Unsubscribe { subscription_id } => CallModel::Unsubscribe {
                subscription_id: *subscription_id,
            },
        }
    }
}

impl EngineCall {
    /// Whether the caller waits for an answer: it does for a parsed query
    /// and for a subscription, which both come back as an identifier.
    pub fn answers(&self) -> (yes: bool)
        ensures
            yes == (self@ is ParseQuery || self@ is Subscribe),
    {
        match self {
            EngineCall::ParseQuery { .. } => true,
            EngineCall::Subscribe { .. } => true,
            _ => false,
        }
    }
}

/// The engine call that a command asks for, from a worker on this thread:
/// both callbacks of a subscription wake that thread.
pub open spec fn call_of(command: CommandModel, thread_id: u32) -> CallModel {
    match command {
        CommandModel::Stop => CallModel::StopService,
        CommandModel::ParsedQuery { query } => CallModel::ParseQuery { query },
        CommandModel::DiscardQuery { query_id } => CallModel::DiscardQuery { query_id },
        CommandModel::Subscribe { query_id, operation_name, variables } => CallModel::Subscribe {
            query_id,
            operation_name,
            variables,
            next_wake: thread_id,
            complete_wake: thread_id,
        },
        CommandModel::Unsubscribe { subscription_id } => CallModel::Unsubscribe {
            subscription_id,
        },
    }
}

/// The worker: its phase, the thread it runs on, and how the engine is to
/// be started.
#[derive(Clone, Copy, Debug, PartialEq, Eq, Structural)]
pub struct Worker {
    pub phase: WorkerPhase,
    pub use_default_profile: bool,
    pub thread_id: u32,
}

impl Worker {
    /// The call that the worker makes for a command, if it makes one: a
    /// running worker makes one for every command, any other worker none.
    pub open spec fn call_for(self, command: CommandModel) -> Option<CallModel> {
        if self.phase == WorkerPhase::Running {
            Some(call_of(command, self.thread_id))
        } else {
            None
        }
    }

    /// The worker after a command: `Stop` stops a running worker, and
    /// nothing else changes it.
    pub open spec fn after(self, command: CommandModel) -> Worker {
        if self.phase == WorkerPhase::Running && command is Stop {
            Worker { phase: WorkerPhase::Stopped, ..self }
        } else {
            self
        }
    }

    /// A worker that has not started the engine yet.
    pub fn new(use_default_profile: bool, thread_id: u32) -> (worker: Worker)
        ensures
            worker == (Worker { phase: WorkerPhase::Created, use_default_profile, thread_id }),
    {
        Worker { phase: WorkerPhase::Created, use_default_profile, thread_id }
    }

    /// Whether the worker takes commands.
    pub fn is_running(&self) -> (yes: bool)
        ensures
            yes == (self.phase == WorkerPhase::Running),
    {
        match self.phase {
            WorkerPhase::Running => true,
            _ => false,
        }
    }

    /// Starts the worker: a worker that was just created becomes a running
    /// one and asks for the engine to be started; any other stays as it is
    /// and asks for nothing.
    pub fn start(&mut self) -> (call: Option<EngineCall>)
        ensures
            old(self).phase == WorkerPhase::Created ==> call == Some(
                EngineCall::StartService { use_default_profile: old(self).use_default_profile },
            ) && *final(self) == (Worker { phase: WorkerPhase::Running, ..*old(self) }),
            old(self).phase != WorkerPhase::Created ==> call is None && *final(self) == *old(self),
    {
        match self.phase {
            WorkerPhase::Created => {
                self.phase = WorkerPhase::Running;
                Some(EngineCall::StartService { use_default_profile: self.use_default_profile })
            },
            _ => None,
        }
    }

    /// Takes note of whether an answer reached its caller. A caller that
    /// has gone is no reason to stop: whether the worker goes on depends on
    /// its phase alone.
    pub fn reply_sent(&self, delivered: bool) -> (goes_on: bool)
        ensures
            goes_on == (self.phase == WorkerPhase::Running),
    {
        self.is_running()
    }

    /// Takes one command. A running worker answers every command with the
    /// one engine call that it asks for, and `Stop` is its last; a worker
    /// that is not running drops the command.
    pub fn handle(&mut self, command: ServiceCommand) -> (call: Option<EngineCall>)
        ensures
            *final(self) == old(self).after(command@),
            match call {
                Some(call) => old(self).call_for(command@) == Some(call@),
                None => old(self).call_for(command@) is None,
            },
    {
        if !self.is_running() {
            return None;
        }
        let thread_id = self.thread_id;
        Some(
            match command {
                ServiceCommand::Stop => {
                    self.phase = WorkerPhase::Stopped;
                    EngineCall::StopService
                },
                ServiceCommand::ParsedQuery { query } => EngineCall::ParseQuery { query },
                ServiceCommand::DiscardQuery { query_id } => EngineCall::DiscardQuery { query_id },
                ServiceCommand::Subscribe {
                    query_id,
                    operation_name,
                    variables,
                } => EngineCall::Subscribe {
                    query_id,
                    operation_name,
                    variables,
                    next_context: NextContext { thread_id },
                    complete_context: CompleteContext { thread_id },
                },
                ServiceCommand::Unsubscribe { subscription_id } => EngineCall::Unsubscribe {
                    subscription_id,
                },
            },
        )
    }
}

/// The engine calls that a run of commands leads to, in order.
pub open spec fn calls(worker: Worker, commands: Seq<CommandModel>) -> Seq<CallModel>
    decreases commands.len(),
{
    if commands.len() == 0 {
        Seq::empty()
    } else {
        let rest = calls(worker.after(commands.first()), commands.drop_first());
        match worker.call_for(commands.first()) {
            Some(call) => seq![call] + rest,
            None => rest,
        }
    }
}

/// A worker that is not running makes no engine call, whatever comes.
pub proof fn lemma_idle_worker_makes_no_call(worker: Worker, commands: Seq<CommandModel>)
    requires
        worker.phase != WorkerPhase::Running,
    ensures
        calls(worker, commands) == Seq::<CallModel>::empty(),
    decreases commands.len(),
{
    if commands.len() > 0 {
        lemma_idle_worker_makes_no_call(worker.after(commands.first()), commands.drop_first());
    }
}

/// A running worker makes one engine call for each command up to the first
/// `Stop`, in the order of the commands, stops the engine for that `Stop`,
/// and makes no call for anything behind it.
pub proof fn lemma_calls_end_with_stop(worker: Worker, commands: Seq<CommandModel>, stop: int)
    requires
        worker.phase == WorkerPhase::Running,
        0 <= stop < commands.len(),
        commands[stop] is Stop,
        forall|i: int| 0 <= i < stop ==> !(#[trigger] commands[i] is Stop),
    ensures
        calls(worker, commands).len() == stop + 1,
        forall|i: int|
            0 <= i <= stop ==> #[trigger] calls(worker, commands)[i] == call_of(
                commands[i],
                worker.thread_id,
            ),
        calls(worker, commands)[stop] == CallModel::StopService,
    decreases commands.len(),
{
    let rest = commands.drop_first();
    if stop == 0 {
        lemma_idle_worker_makes_no_call(worker.after(commands.first()), rest);
    } else {
        assert(!(commands[0] is Stop));
        assert(rest[stop - 1] == commands[stop]);
        assert forall|i: int| 0 <= i < stop - 1 implies !(#[trigger] rest[i] is Stop) by {
            assert(rest[i] == commands[i + 1]);
        }
        lemma_calls_end_with_stop(worker, rest, stop - 1);
        assert forall|i: int| 0 <= i <= stop implies #[trigger] calls(worker, commands)[i]
            == call_of(commands[i], worker.thread_id) by {
            if i > 0 {
                assert(calls(worker, commands)[i] == calls(worker, rest)[i - 1]);
                assert(rest[i - 1] == commands[i]);
            }
        }
    }
}

/// Without a `Stop` among them, a running worker makes one engine call for
/// each command, in the order of the commands, and none of them stops the
/// engine.
pub proof fn lemma_calls_without_stop(worker: Worker, commands: Seq<CommandModel>)
    requires
        worker.phase == WorkerPhase::Running,
        forall|i: int| 0 <= i < commands.len() ==> !(#[trigger] commands[i] is Stop),
    ensures
        calls(worker, commands).len() == commands.len(),
        forall|i: int|
            0 <= i < commands.len() ==> #[trigger] calls(worker, commands)[i] == call_of(
                commands[i],
                worker.thread_id,
            ),
        forall|i: int|
            0 <= i < commands.len() ==> !(#[trigger] calls(worker, commands)[i] is StopService),
    decreases commands.len(),
{
    if commands.len() > 0 {
        let rest = commands.drop_first();
        assert(!(commands[0] is Stop));
        assert forall|i: int| 0 <= i < rest.len() implies !(#[trigger] rest[i] is Stop) by {
            assert(rest[i] == commands[i + 1]);
        }
        lemma_calls_without_stop(worker, rest);
        assert forall|i: int| 0 <= i < commands.len() implies #[trigger] calls(worker, commands)[i]
            == call_of(commands[i], worker.thread_id) by {
            if i > 0 {
                assert(calls(worker, commands)[i] == calls(worker, rest)[i - 1]);
                assert(rest[i - 1] == commands[i]);
            }
        }
        assert forall|i: int| 0 <= i < commands.len() implies !(#[trigger] calls(
            worker,
            commands,
        )[i] is StopService) by {
            assert(calls(worker, commands)[i] == call_of(commands[i], worker.thread_id));
            assert(!(commands[i] is Stop));
        }
    }
}

/// What the worker woke up to: a command from the queue, or a message of
/// the platform's pump with its status and, for a failure, the error code.
#[derive(Debug, PartialEq, Eq)]
pub enum PumpEvent<T> {
    Command(T),
    Message { status: i32, error_code: i32 },
}

/// What the worker does next.
#[derive(Debug, PartialEq, Eq)]
pub enum PumpStep<T> {
    /// Hand the command on.
    Deliver(T),
    /// Dispatch the one message, then wait again.
    Dispatch,
    /// Give up waiting, with this error text.
    Fail(String),
}

/// The error text for a pump that failed with this code.
pub open spec fn pump_error_text(error_code: i32) -> Seq<char> {
    "GetMessageA error: "@ + signed_decimal_text(error_code as int)
}

/// One step of waiting for a command while serving the platform's message
/// pump. A command is handed on. A message with status `-1` is a failure of
/// the pump and ends the wait with its error code, one with status `0` is
/// the request to quit and ends it as cancelled, and any other message is
/// dispatched before the wait goes on.
pub fn wait_with_pump<T>(event: PumpEvent<T>) -> (step: PumpStep<T>)
    ensures
        match event {
            PumpEvent::Command(command) => step == PumpStep::Deliver(command),
            PumpEvent::Message { status, error_code } => if status == -1 {
                step matches PumpStep::Fail(text) && text@ == pump_error_text(error_code)
            } else if status == 0 {
                step matches PumpStep::Fail(text) && text@ == "Cancelled"@
            } else {
                step == PumpStep::<T>::Dispatch
            },
        },
{
    match event {
        PumpEvent::Command(command) => PumpStep::Deliver(command),
        PumpEvent::Message { status, error_code } => {
            if status == -1 {
                PumpStep::Fail(
                    String::from_str("GetMessageA error: ").concat(
                        signed_decimal(error_code).as_str(),
                    ),
                )
            } else if status == 0 {
                PumpStep::Fail(String::from_str("Cancelled"))
            } else {
                PumpStep::Dispatch
            }
        },
    }
}

} // verus!
