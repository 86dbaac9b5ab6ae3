//! Requests that a command makes of the shell, and how the shell answers
//! them.

use std::rc::Rc;
use vstd::cell::invcell::InvCell;
use vstd::predicate::Predicate;
use vstd::prelude::*;

verus! {

/// An operation that the shell carries out for the core, and the type of
/// the answer it gives.
pub trait Operation: 'static {
    type Output: 'static;
}

/// Why a request could not be resolved.
#[derive(Debug, Clone, Copy, PartialEq, Eq, Structural)]
pub enum ResolveError {
    /// The request takes no answer (any more): it was a notification, or a
    /// one-shot request that was already answered.
    Never,
}

/// The predicate of a mailbox: any list of answers.
pub struct AnyValue;

impl<T> Predicate<T> for AnyValue {
    open spec fn predicate(&self, v: T) -> bool {
        true
    }
}

/// A shared queue through which the shell's answers reach the command that
/// waits for them. The queue lives in a cell that several handles share; the
/// specifications see which cell a handle reaches, not what it holds, so
/// what `put` and `take_all` do to the contents is their code alone, with no
/// contract.
pub struct Mailbox<T> {
    cell: Rc<InvCell<Vec<T>, AnyValue>>,
}

impl<T> Mailbox<T> {
    /// A handle on a new, empty queue (no contract: see above).
    pub(crate) fn new() -> (r: Self) {
        Mailbox { cell: Rc::new(InvCell::new(Vec::new(), Ghost(AnyValue))) }
    }

    /// The two handles reach the same queue: what is put through one is
    /// taken through the other.
    pub(crate) closed spec fn same_queue(&self, other: &Self) -> bool {
        self.cell == other.cell
    }

    /// Another handle on the same queue.
    pub(crate) fn share(&self) -> (r: Self)
        ensures
            r.same_queue(self),
    {
        Mailbox { cell: self.cell.clone() }
    }

    /// Appends an answer to the queue (no contract: see above).
    pub(crate) fn put(&self, x: T) {
        let mut v = self.cell.replace(Vec::new());
        v.push(x);
        let _ = self.cell.replace(v);
    }

    /// Takes every answer queued so far, in the order they came, and leaves
    /// the queue empty (no contract: see above).
    pub(crate) fn take_all(&self) -> (r: Vec<T>) {
        self.cell.replace(Vec::new())
    }
}

/// How a request can be answered.
#[derive(Debug, Clone, Copy, PartialEq, Eq, Structural)]
pub enum ResolveKind {
    /// It takes no answer.
    Never,
    /// It takes exactly one answer.
    Once,
    /// It takes any number of answers.
    Many,
}

/// Whether a request of this kind accepts an answer.
pub open spec fn accepts_answer(k: ResolveKind) -> bool {
    k != ResolveKind::Never
}

/// How a request of kind `k` can be answered after it has been answered once.
pub open spec fn kind_after_answer(k: ResolveKind) -> ResolveKind {
    match k {
        ResolveKind::Many => ResolveKind::Many,
        _ => ResolveKind::Never,
    }
}

enum Resolve<T> {
    Never,
    Once(Mailbox<T>),
    Many(Mailbox<T>),
}

/// A request of the core to the shell: the operation to carry out, and the
/// means to send the answer back.
pub struct Request<Op: Operation> {
    pub operation: Op,
    resolve: Resolve<Op::Output>,
}

impl<Op: Operation> Request<Op> {
    /// How this request can be answered.
    pub closed spec fn kind(&self) -> ResolveKind {
        match self.resolve {
            Resolve::Never => ResolveKind::Never,
            Resolve::Once(_) => ResolveKind::Once,
            Resolve::Many(_) => ResolveKind::Many,
        }
    }

    /// The operation the request is for.
    pub closed spec fn requested(&self) -> Op {
        self.operation
    }

    /// A request that takes no answer.
    pub(crate) fn notify(operation: Op) -> (r: Self)
        ensures
            r.requested() == operation,
            r.kind() == ResolveKind::Never,
    {
        Request { operation, resolve: Resolve::Never }
    }

    /// A request whose one answer goes to `mailbox`.
    pub(crate) fn once(operation: Op, mailbox: Mailbox<Op::Output>) -> (r: Self)
        ensures
            r.requested() == operation,
            r.kind() == ResolveKind::Once,
    {
        Request { operation, resolve: Resolve::Once(mailbox) }
    }

    /// A request whose answers, any number of them, go to `mailbox`.
    pub(crate) fn many(operation: Op, mailbox: Mailbox<Op::Output>) -> (r: Self)
        ensures
            r.requested() == operation,
            r.kind() == ResolveKind::Many,
    {
        Request { operation, resolve: Resolve::Many(mailbox) }
    }

    /// Sends `output` back to the command that made the request. A one-shot
    /// request takes one answer and no more; a stream request takes any
    /// number; a notification takes none.
    pub fn resolve(&mut self, output: Op::Output) -> (r: Result<(), ResolveError>)
        ensures
            final(self).requested() == old(self).requested(),
            r is Ok <==> accepts_answer(old(self).kind()),
            final(self).kind() == if r is Ok {
                kind_after_answer(old(self).kind())
            } else {
                old(self).kind()
            },
    {
        match &self.resolve {
            Resolve::Never => Err(ResolveError::Never),
            Resolve::Once(mailbox) => {
                mailbox.put(output);
                self.resolve = Resolve::Never;
                Ok(())
            },
            Resolve::Many(mailbox) => {
                mailbox.put(output);
                Ok(())
            },
        }
    }
}

} // verus!
