//! The caller's side: the service and the handles on parsed queries and
//! subscriptions. A handle never calls the engine: it names the command to
//! send, and takes note of what became of it.

use vstd::prelude::*;
use vstd::string::*;
use crate::protocol::{CommandModel, Request, RoundTrip, ServiceCommand, Submission};

verus! {

/// How the worker's thread ended.
#[derive(Debug, PartialEq, Eq)]
pub enum JoinOutcome {
    /// The thread panicked.
    Panicked,
    /// The thread returned, with an error text where it gave up.
    Finished(Result<(), String>),
}

/// The caller's record of the service: the worker's thread, and whether
/// the worker is still to be waited for.
#[derive(Debug, PartialEq, Eq)]
pub struct Service {
    pub thread_id: u32,
    pub worker_attached: bool,
}

/// The error text for a worker that panicked.
pub open spec fn join_error_text() -> Seq<char> {
    "Error joining the worker"@
}

impl Service {
    /// The record of a service whose worker runs on the given thread.
    pub fn new(thread_id: u32) -> (service: Service)
        ensures
            service == (Service { thread_id, worker_attached: true }),
    {
        Service { thread_id, worker_attached: true }
    }

    /// The thread to wake after a command has been put on the queue.
    pub fn kick_pump(&self) -> (wake: u32)
        ensures
            wake == self.thread_id,
    {
        self.thread_id
    }

    /// The request that stops the worker.
    pub fn stop(&self) -> (request: Request)
        ensures
            request.command == ServiceCommand::Stop,
            request.wake == self.thread_id,
    {
        Request { command: ServiceCommand::Stop, wake: self.thread_id }
    }

    /// Takes note of what became of the `Stop`. Where it failed on its way,
    /// the error text comes back and the record stays. Where it was sent, the
    /// answer says whether the worker is to be waited for, which it is once
    /// only.
    pub fn stop_sent(&mut self, submission: &Submission) -> (result: Result<bool, String>)
        ensures
            final(self).thread_id == old(self).thread_id,
            match result {
                Ok(wait) => submission.failure() is None && wait == old(self).worker_attached
                    && !final(self).worker_attached,
                Err(message) => submission.failure() == Some(message@)
                    && *final(self) == *old(self),
            },
    {
        match submission.result() {
            Ok(()) => {
                let wait = self.worker_attached;
                self.worker_attached = false;
                Ok(wait)
            },
            Err(message) => Err(message),
        }
    }

    /// The result of stopping, from how the worker's thread ended: its own
    /// result where it returned, an error where it panicked.
    pub fn worker_joined(outcome: JoinOutcome) -> (result: Result<(), String>)
        ensures
            match outcome {
                JoinOutcome::Panicked => result matches Err(message) && message@
                    == join_error_text(),
                JoinOutcome::Finished(finished) => result == finished,
            },
    {
        match outcome {
            JoinOutcome::Panicked => Err(String::from_str("Error joining the worker")),
            JoinOutcome::Finished(finished) => finished,
        }
    }
}

/// The service as callers use it.
#[derive(Debug, PartialEq, Eq)]
pub struct MAPIGraphQL {
    pub service: Service,
}

/// A query that the engine has parsed. The identifier `0` says that the
/// query is not registered, or has been discarded.
#[derive(Debug, PartialEq, Eq)]
pub struct ParsedQuery {
    pub thread_id: u32,
    pub query_id: i32,
}

/// A subscription to an operation of a parsed query. The identifier `0`
/// says that it is not listening.
#[derive(Debug, PartialEq, Eq)]
pub struct Subscription {
    pub subscription_id: i32,
    pub thread_id: u32,
    pub query_id: i32,
    pub operation_name: String,
    pub variables: String,
}

/// The next thing to send for a subscription that is to listen.
#[derive(Debug, PartialEq, Eq)]
pub enum ListenStep {
    /// The subscription is still listening: it is to be unsubscribed first.
    Unsubscribe(Request),
    /// The subscription is free: it is to be subscribed.
    Subscribe(Request),
}

impl MAPIGraphQL {
    /// The service whose worker runs on the given thread.
    pub fn new(thread_id: u32) -> (service: MAPIGraphQL)
        ensures
            service.service == (Service { thread_id, worker_attached: true }),
    {
        MAPIGraphQL { service: Service::new(thread_id) }
    }

    /// The request that has the engine parse a query.
    pub fn parse_query(&self, query: &str) -> (request: Request)
        ensures
            request.command@ == (CommandModel::ParsedQuery { query: query@ }),
            request.wake == self.service.thread_id,
    {
        Request {
            command: ServiceCommand::ParsedQuery { query: String::from_str(query) },
            wake: self.service.thread_id,
        }
    }

    /// The handle on a parsed query, from what became of the request. There
    /// is a handle where the engine answered with an identifier, and no other
    /// way: a request that failed on its way or that the engine refused gives
    /// the error text and no handle.
    pub fn query_parsed(&self, trip: &RoundTrip) -> (result: Result<ParsedQuery, String>)
        ensures
            match result {
                Ok(query) => trip.outcome() == Ok::<i32, Seq<char>>(query.query_id)
                    && query.thread_id == self.service.thread_id,
                Err(message) => trip.outcome() == Err::<i32, Seq<char>>(message@),
            },
    {
        match trip.result() {
            Ok(query_id) => Ok(ParsedQuery { thread_id: self.service.thread_id, query_id }),
            Err(message) => Err(message),
        }
    }

    /// A subscription to an operation of a parsed query, with the variables
    /// as JSON text, the empty text for none. It is not listening yet.
    pub fn subscribe(&self, query: &ParsedQuery, operation_name: &str, variables: &str) -> (
        subscription: Subscription
    )
        ensures
            subscription.subscription_id == 0,
            subscription.thread_id == query.thread_id,
            subscription.query_id == query.query_id,
            subscription.operation_name@ == operation_name@,
            subscription.variables@ == variables@,
    {
        Subscription {
            subscription_id: 0,
            thread_id: query.thread_id,
            query_id: query.query_id,
            operation_name: String::from_str(operation_name),
            variables: String::from_str(variables),
        }
    }
}

impl ParsedQuery {
    /// The request that discards the query: one for a registered query, none
    /// for the identifier `0`.
    pub open spec fn discard_request(self) -> Option<Request> {
        if self.query_id != 0 {
            Some(
                Request {
                    command: ServiceCommand::DiscardQuery { query_id: self.query_id },
                    wake: self.thread_id,
                },
            )
        } else {
            None
        }
    }

    /// The handle after a request to discard: unregistered where the
    /// request was sent, unchanged where it failed.
    pub open spec fn after_discard(self, submission: Submission) -> ParsedQuery {
        if submission.failure() is None {
            ParsedQuery { query_id: 0, ..self }
        } else {
            self
        }
    }

    /// The request that discards the query, if it is registered.
    pub fn discard_query(&self) -> (request: Option<Request>)
        ensures
            request == self.discard_request(),
    {
        if self.query_id != 0 {
            Some(
                Request {
                    command: ServiceCommand::DiscardQuery { query_id: self.query_id },
                    wake: self.thread_id,
                },
            )
        } else {
            None
        }
    }

    /// Takes note of what became of the request to discard. Once it was
    /// sent the query is no longer registered; where it failed the handle
    /// stays and the error text comes back.
    pub fn query_discarded(&mut self, submission: &Submission) -> (result: Result<(), String>)
        ensures
            *final(self) == old(self).after_discard(*submission),
            match result {
                Ok(_) => submission.failure() is None,
                Err(message) => submission.failure() == Some(message@),
            },
    {
        match submission.result() {
            Ok(()) => {
                self.query_id = 0;
                Ok(())
            },
            Err(message) => Err(message),
        }
    }
}

impl Subscription {
    /// The request that ends the subscription: one for a subscription that
    /// listens, none for the identifier `0`.
    pub open spec fn unsubscribe_request(self) -> Option<Request> {
        if self.subscription_id != 0 {
            Some(
                Request {
                    command: ServiceCommand::Unsubscribe { subscription_id: self.subscription_id },
                    wake: self.thread_id,
                },
            )
        } else {
            None
        }
    }

    /// The handle after a request to unsubscribe: no longer listening where
    /// the request was sent, unchanged where it failed.
    pub open spec fn after_unsubscribe(self, submission: Submission) -> Subscription {
        if submission.failure() is None {
            Subscription { subscription_id: 0, ..self }
        } else {
            self
        }
    }

    /// The request that ends the subscription, if it is listening.
    pub fn unsubscribe(&self) -> (request: Option<Request>)
        ensures
            request == self.unsubscribe_request(),
    {
        if self.subscription_id != 0 {
            Some(
                Request {
                    command: ServiceCommand::Unsubscribe { subscription_id: self.subscription_id },
                    wake: self.thread_id,
                },
            )
        } else {
            None
        }
    }

    /// Takes note of what became of the request to unsubscribe. Once it was
    /// sent the subscription is no longer listening; where it failed the
    /// handle stays and the error text comes back.
    pub fn unsubscribed(&mut self, submission: &Submission) -> (result: Result<(), String>)
        ensures
            *final(self) == old(self).after_unsubscribe(*submission),
            match result {
                Ok(_) => submission.failure() is None,
                Err(message) => submission.failure() == Some(message@),
            },
    {
        match submission.result() {
            Ok(()) => {
                self.subscription_id = 0;
                Ok(())
            },
            Err(message) => Err(message),
        }
    }

    /// The next thing to send so that the subscription listens. One that is
    /// still listening is unsubscribed first, so that the earlier
    /// registration does not leak; a free one is subscribed, with the query,
    /// the operation and the variables it was made with.
    pub fn listen(&self) -> (step: ListenStep)
        ensures
            match step {
                ListenStep::Unsubscribe(request) => self.subscription_id != 0 && Some(request)
                    == self.unsubscribe_request(),
                ListenStep::Subscribe(request) => self.subscription_id == 0 && request.wake
                    == self.thread_id && request.command@ == (CommandModel::Subscribe {
                    query_id: self.query_id,
                    operation_name: self.operation_name@,
                    variables: self.variables@,
                }),
            },
    {
        match self.unsubscribe() {
            Some(request) => ListenStep::Unsubscribe(request),
            None => ListenStep::Subscribe(
                Request {
                    command: ServiceCommand::Subscribe {
                        query_id: self.query_id,
                        operation_name: self.operation_name.clone(),
                        variables: self.variables.clone(),
                    },
                    wake: self.thread_id,
                },
            ),
        }
    }

    /// Takes note of what became of the request to subscribe. Where the
    /// engine answered with an identifier the subscription listens under it;
    /// where the request failed on its way or the engine refused, the
    /// subscription stays as it was and the error text comes back.
    pub fn subscribed(&mut self, trip: &RoundTrip) -> (result: Result<(), String>)
        ensures
            final(self).thread_id == old(self).thread_id,
            final(self).query_id == old(self).query_id,
            final(self).operation_name == old(self).operation_name,
            final(self).variables == old(self).variables,
            match result {
                Ok(_) => trip.outcome() == Ok::<i32, Seq<char>>(final(self).subscription_id),
                Err(message) => trip.outcome() == Err::<i32, Seq<char>>(message@)
                    && final(self).subscription_id == old(self).subscription_id,
            },
    {
        match trip.result() {
            Ok(subscription_id) => {
                self.subscription_id = subscription_id;
                Ok(())
            },
            Err(message) => Err(message),
        }
    }
}

/// A parsed query is discarded once at most: a query that is not
/// registered asks for nothing, and after a request to discard was sent, the
/// handle asks for no other.
pub proof fn lemma_discard_once(query: ParsedQuery, sent: Submission)
    requires
        sent.failure() is None,
    ensures
        query.query_id == 0 ==> query.discard_request() is None,
        query.after_discard(sent).discard_request() is None,
        query.after_discard(sent).after_discard(sent) == query.after_discard(sent),
{
}

/// A subscription is unsubscribed once at most: one that is not listening
/// asks for nothing, and after a request to unsubscribe was sent, the handle
/// asks for no other.
pub proof fn lemma_unsubscribe_once(subscription: Subscription, sent: Submission)
    requires
        sent.failure() is None,
    ensures
        subscription.subscription_id == 0 ==> subscription.unsubscribe_request() is None,
        subscription.after_unsubscribe(sent).unsubscribe_request() is None,
        subscription.after_unsubscribe(sent).after_unsubscribe(sent)
            == subscription.after_unsubscribe(sent),
{
}

} // verus!
