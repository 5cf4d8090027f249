//! Turning the failure of a step into an error that says what was being done.

use vstd::prelude::*;
use core::convert::Infallible;

verus! {

/// Auxiliary help text that an error can offer on request.
pub struct Help {
    msg: String,
}

impl View for Help {
    type V = Seq<char>;

    closed spec fn view(&self) -> Seq<char> {
        self.msg@
    }
}

impl Help {
    /// Wraps `msg` as help text.
    pub fn new(msg: String) -> (help: Self)
        ensures
            help@ == msg@,
    {
        Self { msg }
    }

    /// The help text as it is displayed.
    pub fn to_string(&self) -> (out: String)
        ensures
            out@ == self@,
    {
        self.msg.clone()
    }
}

/// A value that can be bound to what is left of a failed step (`Src`) to make
/// an error (`Dst`).
pub trait With<Src, Dst>: Sized {
    /// `dst` is an error that binding `self` to `residual` may make. An impl that
    /// says nothing allows every error.
    open spec fn binds(self, residual: Src, dst: Dst) -> bool {
        true
    }

    /// Makes the error for the failure `residual`.
    fn bind(self, residual: Src) -> (dst: Dst)
        ensures
            self.binds(residual, dst),
    ;
}

/// The outcome of a step that may fail, to which a context can be bound.
pub trait Context<T, Src>: Sized {
    /// The step's value, or what is left of its failure.
    spec fn outcome(self) -> Result<T, Src>;

    /// Hands a success on; binds `ctx` to a failure.
    fn context<W: With<Src, Dst>, Dst>(self, ctx: W) -> (r: Result<T, Dst>)
        ensures
            match self.outcome() {
                Ok(v) => r == Ok::<T, Dst>(v),
                Err(residual) => r is Err && ctx.binds(residual, r->Err_0),
            },
    ;

    /// Hands a success on; binds what `ctx` makes to a failure. `ctx` is not
    /// called on a success.
    fn with_context<W: With<Src, Dst>, Dst, F: FnMut() -> W>(self, ctx: F) -> (r: Result<T, Dst>)
        requires
            ctx.requires(()),
        ensures
            match self.outcome() {
                Ok(v) => r == Ok::<T, Dst>(v),
                Err(residual) => r is Err && exists|w: W| #[trigger]
                    ctx.ensures((), w) && w.binds(residual, r->Err_0),
            },
    ;
}

impl<T, E> Context<T, Result<Infallible, E>> for Result<T, E> {
    open spec fn outcome(self) -> Result<T, Result<Infallible, E>> {
        match self {
            Ok(v) => Ok(v),
            Err(e) => Err(Err(e)),
        }
    }

    fn context<W: With<Result<Infallible, E>, Dst>, Dst>(self, ctx: W) -> (r: Result<T, Dst>) {
        match self {
            Ok(v) => Ok(v),
            Err(cause) => Err(ctx.bind(Err(cause))),
        }
    }

    fn with_context<W: With<Result<Infallible, E>, Dst>, Dst, F: FnMut() -> W>(
        self,
        mut ctx: F,
    ) -> (r: Result<T, Dst>) {
        match self {
            Ok(v) => Ok(v),
            Err(cause) => Err(ctx().bind(Err(cause))),
        }
    }
}

impl<T> Context<T, Option<Infallible>> for Option<T> {
    open spec fn outcome(self) -> Result<T, Option<Infallible>> {
        match self {
            Some(v) => Ok(v),
            None => Err(None),
        }
    }

    fn context<W: With<Option<Infallible>, Dst>, Dst>(self, ctx: W) -> (r: Result<T, Dst>) {
        match self {
            Some(v) => Ok(v),
            None => Err(ctx.bind(None)),
        }
    }

    fn with_context<W: With<Option<Infallible>, Dst>, Dst, F: FnMut() -> W>(
        self,
        mut ctx: F,
    ) -> (r: Result<T, Dst>) {
        match self {
            Some(v) => Ok(v),
            None => Err(ctx().bind(None)),
        }
    }
}

} // verus!
