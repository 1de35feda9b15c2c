//! Command definitions: a wrapped operation, an optional fallback, an
//! optional configuration — and the delivery rule that applies a fallback to
//! a failed or rejected call.

use core::marker::PhantomData;

use vstd::prelude::*;

use crate::config::Config;

verus! {

/// Why a finished invocation carries an error: either the wrapped operation
/// itself failed, or the circuit breaker declined to run the call.
#[derive(Debug, PartialEq, Eq)]
pub enum CommandError<E> {
    /// The wrapped operation ran and returned this error.
    Operation(E),
    /// The breaker shed this call; the wrapped operation never ran.
    Rejected,
}

impl<E> CommandError<E> {
    /// Did the breaker shed the call, as opposed to the operation failing?
    pub fn is_rejected(&self) -> (r: bool)
        ensures
            r == (self is Rejected),
    {
        match self {
            CommandError::Rejected => true,
            CommandError::Operation(_) => false,
        }
    }
}

/// A wrapped operation with an optional configuration.
pub struct Command<P, T, CMD> {
    pub config: Option<Config>,
    pub cmd: CMD,
    pub phantom_data: PhantomData<(P, T)>,
}

/// A wrapped operation together with a fallback that converts an error into
/// a substitute success value.
pub struct CommandWithFallback<P, T, CMD, FB> {
    pub fb: FB,
    pub config: Option<Config>,
    pub cmd: CMD,
    pub phantom_data: PhantomData<(P, T)>,
}

impl<P, T, CMD> Command<P, T, CMD> {
    /// Wraps an operation, with no fallback and no configuration yet.
    pub fn define(cmd: CMD) -> (c: Command<P, T, CMD>)
        ensures
            c.cmd == cmd,
            c.config is None,
    {
        Command { cmd, config: None, phantom_data: PhantomData }
    }

    /// Wraps an operation together with a fallback.
    pub fn define_with_fallback<FB>(cmd: CMD, fallback: FB) -> (c: CommandWithFallback<
        P,
        T,
        CMD,
        FB,
    >)
        ensures
            c.cmd == cmd,
            c.fb == fallback,
            c.config is None,
    {
        CommandWithFallback { cmd, fb: fallback, config: None, phantom_data: PhantomData }
    }

    /// Attaches a configuration.
    pub fn config(self, config: Config) -> (c: Self)
        ensures
            c.cmd == self.cmd,
            c.config == Some(config),
    {
        Command { cmd: self.cmd, config: Some(config), phantom_data: PhantomData }
    }
}

impl<P, T, CMD, FB> CommandWithFallback<P, T, CMD, FB> {
    /// Attaches a configuration.
    pub fn config(self, config: Config) -> (c: Self)
        ensures
            c.cmd == self.cmd,
            c.fb == self.fb,
            c.config == Some(config),
    {
        CommandWithFallback {
            cmd: self.cmd,
            fb: self.fb,
            config: Some(config),
            phantom_data: PhantomData,
        }
    }
}

/// Applies the fallback, if one is configured, to a failed or rejected call:
/// an error handed to a configured fallback yields `Ok` of the fallback's
/// value — never an error — while a success, or the absence of a fallback,
/// passes the result through unchanged.
pub fn deliver<T, E, FB: Fn(CommandError<E>) -> T>(
    res: Result<T, CommandError<E>>,
    fb: Option<&FB>,
) -> (out: Result<T, CommandError<E>>)
    requires
        res is Err && fb is Some ==> call_requires(*fb->0, (res->Err_0,)),
    ensures
        res is Ok ==> out == res,
        fb is None ==> out == res,
        res is Err && fb is Some ==> out is Ok && call_ensures(*fb->0, (res->Err_0,), out->Ok_0),
{
    match (res, fb) {
        (Err(e), Some(f)) => Ok(f(e)),
        (other, _) => other,
    }
}

} // verus!
