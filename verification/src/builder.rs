//! Builders of commands: chains of requests and streams whose answers are
//! finally turned into events.

use std::marker::PhantomData;
use vstd::prelude::*;

use crate::command::{send_command, Command};
use crate::request::{Mailbox, Operation, Request, ResolveKind};

verus! {

/// Something that, moved on step by step, asks the shell for things (by
/// emitting effects) and produces values from the answers.
pub trait Source<Effect> {
    type Item;

    /// The source's internal invariant.
    spec fn inv(&self) -> bool;

    /// The source will produce nothing more.
    spec fn finished(&self) -> bool;

    /// The number of requests the source sends on its next step before it
    /// hears any answer.
    spec fn fresh(&self) -> nat;

    /// The source may send further requests in answer to what it hears.
    spec fn chains(&self) -> bool;

    /// Going from `self` to `after` in one step may produce `values`.
    spec fn produces(&self, after: &Self, values: Seq<Self::Item>) -> bool;

    /// `es` are the effects the source emits on its next step before it
    /// hears any answer, in order.
    spec fn announces(&self, es: Seq<Effect>) -> bool;

    /// Moves the source on as far as the answers received so far allow:
    /// appends the effects it emits to `effects`, and returns the values it
    /// produced, in order, and whether it is finished. Every request that
    /// was ready is sent; a source that does not chain sends nothing else.
    fn advance(&mut self, effects: &mut Vec<Effect>) -> (r: (Vec<Self::Item>, bool))
        requires
            old(self).inv(),
        ensures
            final(self).inv(),
            r.1 == final(self).finished(),
            old(effects)@.is_prefix_of(final(effects)@),
            old(self).finished() ==> final(self).finished() && r.0@.len() == 0 && final(effects)@
                == old(effects)@,
            final(effects)@.len() >= old(effects)@.len() + old(self).fresh(),
            !old(self).chains() ==> final(effects)@.len() == old(effects)@.len() + old(self).fresh(),
            final(self).fresh() == 0,
            old(self).produces(final(self), r.0@),
            !old(self).chains() ==> old(self).announces(final(effects)@.skip(old(effects)@.len() as int)),
    ;
}

/// `e` is what `Effect::from` makes of a request for `op` that is
/// answered as `kind` says.
pub open spec fn is_request_effect<Effect, Op: Operation>(e: Effect, op: Op, kind: ResolveKind) -> bool where
    Effect: From<Request<Op>>,
 {
    exists|q: Request<Op>|
        {
            &&& q.requested() == op
            &&& q.kind() == kind
            &&& call_ensures(Effect::from, (q,), e)
        }
}

enum RequestState<Op: Operation> {
    Unsent(Op),
    Waiting(Mailbox<Op::Output>),
    Answered,
}

/// A one-shot request: on its first step it asks the shell to carry out
/// the operation, and it produces the one answer.
pub struct RequestSource<Op: Operation> {
    state: RequestState<Op>,
}

impl<Op: Operation> RequestSource<Op> {
    /// The request has not been sent to the shell yet.
    pub closed spec fn unsent(&self) -> bool {
        self.state is Unsent
    }

    /// The request has been answered.
    pub closed spec fn answered(&self) -> bool {
        self.state is Answered
    }

    /// The operation still to be sent to the shell, if any.
    pub closed spec fn pending_op(&self) -> Option<Op> {
        match self.state {
            RequestState::Unsent(op) => Some(op),
            _ => None,
        }
    }
}

impl<Effect, Op: Operation> Source<Effect> for RequestSource<Op> where
    Effect: From<Request<Op>>,
 {
    type Item = Op::Output;

    open spec fn inv(&self) -> bool {
        true
    }

    open spec fn finished(&self) -> bool {
        self.answered()
    }

    open spec fn fresh(&self) -> nat {
        if self.unsent() {
            1
        } else {
            0
        }
    }

    open spec fn chains(&self) -> bool {
        false
    }

    /// At most one value, and one exactly when the answer arrives.
    open spec fn produces(&self, after: &Self, values: Seq<Op::Output>) -> bool {
        &&& values.len() <= 1
        &&& values.len() == 1 <==> (!self.answered() && after.answered())
    }

    /// While unsent, the one effect of a one-shot request for the
    /// operation; after that, nothing.
    open spec fn announces(&self, es: Seq<Effect>) -> bool {
        match self.pending_op() {
            Some(op) => es.len() == 1 && is_request_effect::<Effect, Op>(es[0], op, ResolveKind::Once),
            None => es.len() == 0,
        }
    }

    fn advance(&mut self, effects: &mut Vec<Effect>) -> (r: (Vec<Op::Output>, bool))
        ensures
            final(effects)@.len() == old(effects)@.len() + if old(self).unsent() {
                1int
            } else {
                0int
            },
            !final(self).unsent(),
            r.0@.len() <= 1,
            r.0@.len() == 1 <==> (!old(self).answered() && final(self).answered()),
    {
        let mut state = RequestState::Answered;
        std::mem::swap(&mut state, &mut self.state);
        let mailbox = match state {
            RequestState::Unsent(op) => {
                let mailbox = Mailbox::new();
                let request = Request::once(op, mailbox.share());
                let ghost q = request;
                let e = Effect::from(request);
                assert(call_ensures(Effect::from, (q,), e));
                effects.push(e);
                assert(effects@.skip(old(effects)@.len() as int) =~= seq![e]);
                mailbox
            },
            RequestState::Waiting(mailbox) => mailbox,
            RequestState::Answered => {
                return (Vec::new(), true);
            },
        };
        let mut answers = mailbox.take_all();
        if answers.len() > 0 {
            let answer = answers.remove(0);
            let mut out = Vec::new();
            out.push(answer);
            (out, true)
        } else {
            self.state = RequestState::Waiting(mailbox);
            (Vec::new(), false)
        }
    }
}

enum StreamState<Op: Operation> {
    Unsent(Op),
    Listening(Mailbox<Op::Output>),
}

/// A stream request: on its first step it asks the shell to carry out the
/// operation, and it produces every answer the shell sends, in order. It
/// never finishes.
pub struct StreamSource<Op: Operation> {
    state: StreamState<Op>,
}

impl<Op: Operation> StreamSource<Op> {
    /// The request has not been sent to the shell yet.
    pub closed spec fn unsent(&self) -> bool {
        self.state is Unsent
    }

    /// The operation still to be sent to the shell, if any.
    pub closed spec fn pending_op(&self) -> Option<Op> {
        match self.state {
            StreamState::Unsent(op) => Some(op),
            _ => None,
        }
    }
}

impl<Effect, Op: Operation> Source<Effect> for StreamSource<Op> where Effect: From<Request<Op>> {
    type Item = Op::Output;

    open spec fn inv(&self) -> bool {
        true
    }

    open spec fn finished(&self) -> bool {
        false
    }

    open spec fn fresh(&self) -> nat {
        if self.unsent() {
            1
        } else {
            0
        }
    }

    open spec fn chains(&self) -> bool {
        false
    }

    /// Any values: they are the answers taken from a queue shared with the
    /// shell, whose contents the specifications do not see.
    open spec fn produces(&self, after: &Self, values: Seq<Op::Output>) -> bool {
        true
    }

    /// While unsent, the one effect of a stream request for the operation;
    /// after that, nothing.
    open spec fn announces(&self, es: Seq<Effect>) -> bool {
        match self.pending_op() {
            Some(op) => es.len() == 1 && is_request_effect::<Effect, Op>(es[0], op, ResolveKind::Many),
            None => es.len() == 0,
        }
    }

    fn advance(&mut self, effects: &mut Vec<Effect>) -> (r: (Vec<Op::Output>, bool))
        ensures
            final(effects)@.len() == old(effects)@.len() + if old(self).unsent() {
                1int
            } else {
                0int
            },
            !final(self).unsent(),
    {
        let mut state = StreamState::Listening(Mailbox::new());
        std::mem::swap(&mut state, &mut self.state);
        let mailbox = match state {
            StreamState::Unsent(op) => {
                let mailbox = Mailbox::new();
                let request = Request::many(op, mailbox.share());
                let ghost q = request;
                let e = Effect::from(request);
                assert(call_ensures(Effect::from, (q,), e));
                effects.push(e);
                assert(effects@.skip(old(effects)@.len() as int) =~= seq![e]);
                mailbox
            },
            StreamState::Listening(mailbox) => mailbox,
        };
        let answers = mailbox.take_all();
        self.state = StreamState::Listening(mailbox);
        (answers, false)
    }
}

/// For each value of `outer`, in order, the values of the builder that
/// `make` gives for it, run to its end before the next value is taken.
pub struct ThenSource<Effect, Event, S: Source<Effect>, G, S2> {
    outer: S,
    make: G,
    inner: Option<S2>,
    pending: Vec<S::Item>,
    outer_done: bool,
    /// Every value the outer source has produced, in order.
    received: Ghost<Seq<S::Item>>,
    /// The values handed to `make`, in order.
    fed: Ghost<Seq<S::Item>>,
    marker: PhantomData<(Effect, Event)>,
}

/// Going from `a` to `b`, the values received from an outer source went
/// from `before` to `after`: unchanged, as the source was not moved on, or
/// followed by what one step of it produced.
pub open spec fn received_from<Effect, S: Source<Effect>>(
    a: S,
    b: S,
    before: Seq<S::Item>,
    after: Seq<S::Item>,
) -> bool {
    ||| a == b && after == before
    ||| exists|vs: Seq<S::Item>| a.produces(&b, vs) && after == before + vs
}

/// The values of a list of runs of chained sources, one run after the
/// other; a run goes from `.0` to `.1` and produces `.2`.
pub open spec fn run_values<A, T>(runs: Seq<(T, T, Seq<A>)>) -> Seq<A> {
    runs.map_values(|t: (T, T, Seq<A>)| t.2).flatten()
}

/// Adding a run adds its values at the end.
proof fn lemma_run_values_push<A, T>(runs: Seq<(T, T, Seq<A>)>, t: (T, T, Seq<A>))
    ensures
        run_values(runs.push(t)) == run_values(runs) + t.2,
{
    let f = |t: (T, T, Seq<A>)| t.2;
    assert(runs.push(t).map_values(f) =~= runs.map_values(f).push(t.2));
    runs.map_values(f).lemma_flatten_push(t.2);
}

/// `s` is the source of a builder that `make` gave for `x`.
pub open spec fn made_from<A, Effect, Event, S2: Source<Effect>, G: Fn(A) -> Builder<Effect, Event, S2>>(
    make: G,
    x: A,
    s: S2,
) -> bool {
    exists|b: Builder<Effect, Event, S2>| call_ensures(make, (x,), b) && b.source_of() == s
}

/// `make` has been called on `x` and returned a builder.
pub open spec fn has_built<A, B, G: Fn(A) -> B>(make: G, x: A) -> bool {
    exists|b: B| call_ensures(make, (x,), b)
}

impl<Effect, Event, S: Source<Effect>, G, S2> ThenSource<Effect, Event, S, G, S2> {
    /// The source whose values start the chained builders.
    pub closed spec fn outer_of(&self) -> S {
        self.outer
    }

    /// The function that makes a builder of each value.
    pub closed spec fn make_of(&self) -> G {
        self.make
    }

    /// Nothing has been taken from the outer source yet.
    pub closed spec fn unstarted(&self) -> bool {
        &&& self.inner is None
        &&& self.pending@.len() == 0
        &&& !self.outer_done
        &&& self.received@.len() == 0
    }

    /// Every value the outer source has produced so far, in order.
    pub closed spec fn received(&self) -> Seq<S::Item> {
        self.received@
    }

    /// The values handed to `make` so far, in order.
    pub closed spec fn fed(&self) -> Seq<S::Item> {
        self.fed@
    }

    /// `runs` are the runs of chained sources that one step from `self` to
    /// `after` made: one for the inner source that was running, then one
    /// for each value handed to `make`, in order.
    pub closed spec fn runs_between(&self, after: &Self, runs: Seq<(S2, S2, Seq<S2::Item>)>) -> bool where
        S2: Source<Effect>,
        G: Fn(S::Item) -> Builder<Effect, Event, S2>,
     {
        let off: int = if self.inner is Some {
            1
        } else {
            0
        };
        let f0 = self.fed@.len() as int;
        &&& runs.len() == off + after.fed@.len() - f0
        &&& forall|i: int| 0 <= i < runs.len() ==> (#[trigger] runs[i]).0.produces(&runs[i].1, runs[i].2)
        &&& self.inner matches Some(i0) ==> runs[0].0 == i0
        &&& forall|i: int|
            off <= i < runs.len() ==> made_from::<S::Item, Effect, Event, S2, G>(
                self.make,
                after.fed@[f0 + i - off],
                (#[trigger] runs[i]).0,
            )
        &&& forall|i: int|
            0 <= i < runs.len() && (i < runs.len() - 1 || after.inner is None) ==> (
            #[trigger] runs[i]).1.finished()
        &&& after.inner matches Some(iz) ==> runs.len() > 0 && runs.last().1 == iz
    }

    /// The values taken from the outer source and not yet handed to `make`.
    pub closed spec fn waiting(&self) -> Seq<S::Item> {
        self.pending@
    }

    /// The source of the builder made from the last value handed to
    /// `make`, while it still runs.
    pub closed spec fn running(&self) -> Option<S2> {
        self.inner
    }
}

impl<Effect, Event, S, G, S2> Source<Effect> for ThenSource<Effect, Event, S, G, S2> where
    S: Source<Effect>,
    S2: Source<Effect>,
    G: Fn(S::Item) -> Builder<Effect, Event, S2>,
 {
    type Item = S2::Item;

    closed spec fn inv(&self) -> bool {
        &&& self.outer.inv()
        &&& self.outer_done ==> self.outer.finished()
        &&& (self.inner matches Some(i) ==> i.inv())
        &&& forall|x: S::Item| call_requires(self.make, (x,))
        &&& self.pending@.len() > 0 ==> self.outer.fresh() == 0
        &&& self.received@ == self.fed@ + self.pending@
        &&& forall|i: int|
            0 <= i < self.fed@.len() ==> has_built::<S::Item, Builder<Effect, Event, S2>, G>(
                self.make,
                #[trigger] self.fed@[i],
            )
        &&& self.inner is Some ==> self.fed@.len() > 0
    }

    closed spec fn finished(&self) -> bool {
        &&& self.outer_done
        &&& self.pending@.len() == 0
        &&& self.inner is None
    }

    /// The outer source's ready requests, when it is due to be moved on,
    /// and those of the running inner source.
    closed spec fn fresh(&self) -> nat {
        (if !self.outer_done && self.pending@.len() == 0 {
            self.outer.fresh()
        } else {
            0
        }) + match self.inner {
            Some(i) => i.fresh(),
            None => 0,
        }
    }

    open spec fn chains(&self) -> bool {
        true
    }

    /// The values that the chained sources produced, in order, run after
    /// run: first the inner source that was running, then the source of
    /// each builder that `make` gave for a value handed to it in the step.
    /// Every run but the last one ends finished; the last one is the inner
    /// source still running, if any. Meanwhile the values received from the
    /// outer source, and those handed to `make`, only grow.
    closed spec fn produces(&self, after: &Self, values: Seq<S2::Item>) -> bool {
        &&& self.received@.is_prefix_of(after.received@)
        &&& self.fed@.is_prefix_of(after.fed@)
        &&& exists|runs: Seq<(S2, S2, Seq<S2::Item>)>|
            #[trigger] self.runs_between(after, runs) && values == run_values(runs)
    }

    /// The outer source's ready effects, when it is due to be moved on,
    /// then those of the running inner source.
    closed spec fn announces(&self, es: Seq<Effect>) -> bool {
        let due = !self.outer_done && self.pending@.len() == 0;
        let k: int = if due {
            self.outer.fresh() as int
        } else {
            0
        };
        &&& es.len() == self.fresh()
        &&& due ==> self.outer.announces(es.take(k))
        &&& self.inner matches Some(i) ==> i.announces(es.skip(k))
    }

    /// Moves the outer source on when every value it gave has been used,
    /// then hands each waiting value to `make`, in order, and runs the
    /// builder it gives until that builder waits for an answer or ends;
    /// only then is the next value taken.
    fn advance(&mut self, effects: &mut Vec<Effect>) -> (r: (Vec<S2::Item>, bool))
        ensures
            final(self).make_of() == old(self).make_of(),
            old(self).fed().is_prefix_of(final(self).fed()),
            received_from::<Effect, S>(
                old(self).outer_of(),
                final(self).outer_of(),
                old(self).received(),
                final(self).received(),
            ),
            final(self).received() == final(self).fed() + final(self).waiting(),
            forall|i: int|
                0 <= i < final(self).fed().len() ==> has_built::<S::Item, Builder<Effect, Event, S2>, G>(
                    final(self).make_of(),
                    #[trigger] final(self).fed()[i],
                ),
            final(self).waiting().len() == 0 || final(self).running() is Some,
            final(self).running() matches Some(i) ==> !i.finished() && i.fresh() == 0,
    {
        let ghost start = effects@;
        let ghost want = old(self).fresh();
        let ghost mut inner_owed: nat = match old(self).inner {
            Some(i) => i.fresh(),
            None => 0,
        };
        if !self.outer_done && self.pending.len() == 0 {
            let (values, done) = self.outer.advance(effects);
            proof {
                assert(self.fed@ + values@ =~= self.received@ + values@) by {
                    assert(self.pending@.len() == 0);
                    assert(self.received@ =~= self.fed@);
                }
            }
            let ghost vs = values@;
            self.received = Ghost(self.received@ + values@);
            self.pending = values;
            self.outer_done = done;
            assert(old(self).outer.produces(&self.outer, vs));
        }
        let mut out: Vec<S2::Item> = Vec::new();
        let ghost off: int = if old(self).inner is Some {
            1
        } else {
            0
        };
        let ghost f0 = old(self).fed@.len() as int;
        let ghost mut runs: Seq<(S2, S2, Seq<S2::Item>)> = Seq::empty();
        proof {
            assert(out@ =~= run_values(runs)) by {
                assert(runs.map_values(|t: (S2, S2, Seq<S2::Item>)| t.2) =~= Seq::<Seq<S2::Item>>::empty());
            }
        }
        loop
            invariant
                self.outer.inv(),
                self.outer_done ==> self.outer.finished(),
                self.inner matches Some(i) ==> i.inv(),
                forall|x: S::Item| call_requires(self.make, (x,)),
                start == old(effects)@,
                start.is_prefix_of(effects@),
                old(self).finished() ==> self.finished() && out@.len() == 0 && effects@ == start,
                self.pending@.len() > 0 ==> self.outer.fresh() == 0,
                !self.outer_done ==> self.outer.fresh() == 0,
                want == old(self).fresh(),
                effects@.len() + inner_owed >= start.len() + want,
                inner_owed > 0 ==> (self.inner matches Some(i) && i.fresh() == inner_owed),
                self.make == old(self).make,
                self.received@ == self.fed@ + self.pending@,
                forall|i: int|
                    0 <= i < self.fed@.len() ==> has_built::<S::Item, Builder<Effect, Event, S2>, G>(
                        self.make,
                        #[trigger] self.fed@[i],
                    ),
                self.inner is Some ==> self.fed@.len() > 0,
                old(self).fed@.is_prefix_of(self.fed@),
                old(self).received@.is_prefix_of(self.received@),
                received_from::<Effect, S>(old(self).outer, self.outer, old(self).received@, self.received@),
                off == (if old(self).inner is Some {
                    1int
                } else {
                    0int
                }),
                f0 == old(self).fed@.len(),
                out@ == run_values(runs),
                forall|i: int| 0 <= i < runs.len() ==> (#[trigger] runs[i]).0.produces(&runs[i].1, runs[i].2),
                forall|i: int| 0 <= i < runs.len() ==> (#[trigger] runs[i]).1.finished(),
                old(self).inner matches Some(i0) ==> if runs.len() == 0 {
                    self.inner == Some(i0)
                } else {
                    runs[0].0 == i0
                },
                forall|i: int|
                    off <= i < runs.len() ==> made_from::<S::Item, Effect, Event, S2, G>(
                        self.make,
                        self.fed@[f0 + i - off],
                        (#[trigger] runs[i]).0,
                    ),
                runs.len() + (if self.inner is Some {
                    1int
                } else {
                    0int
                }) == off + self.fed@.len() - f0,
                self.inner matches Some(s) ==> (runs.len() >= off ==> made_from::<
                    S::Item,
                    Effect,
                    Event,
                    S2,
                    G,
                >(self.make, self.fed@[f0 + runs.len() - off], s)),
            decreases 2 * self.pending@.len() + if self.inner is Some {
                1int
            } else {
                0int
            },
        {
            let mut current: Option<S2> = None;
            std::mem::swap(&mut current, &mut self.inner);
            match current {
                Some(mut inner) => {
                    let ghost before = effects@;
                    let ghost start_inner = inner;
                    let (mut values, done) = inner.advance(effects);
                    assert(before.is_prefix_of(effects@));
                    proof {
                        inner_owed = 0;
                    }
                    let ghost run = (start_inner, inner, values@);
                    let ghost old_runs = runs;
                    proof {
                        lemma_run_values_push(runs, run);
                        runs = runs.push(run);
                        assert forall|i: int| 0 <= i < runs.len() implies (#[trigger] runs[i]).0.produces(
                            &runs[i].1,
                            runs[i].2,
                        ) by {
                            if i < old_runs.len() {
                                assert(runs[i] == old_runs[i]);
                            }
                        }
                        assert forall|i: int|
                            off <= i < runs.len() implies made_from::<S::Item, Effect, Event, S2, G>(
                            self.make,
                            self.fed@[f0 + i - off],
                            (#[trigger] runs[i]).0,
                        ) by {
                            if i < old_runs.len() {
                                assert(runs[i] == old_runs[i]);
                            }
                        }
                    }
                    out.append(&mut values);
                    if !done {
                        self.inner = Some(inner);
                        proof {
                            assert(old(self).runs_between(self, runs));
                            assert(old(self).produces(self, out@));
                        }
                        return (out, false);
                    }
                    proof {
                        assert forall|i: int| 0 <= i < runs.len() implies (#[trigger] runs[i]).1.finished() by {
                            if i < old_runs.len() {
                                assert(runs[i] == old_runs[i]);
                            }
                        }
                    }
                },
                None => {
                    if self.pending.len() == 0 {
                        proof {
                            assert(old(self).runs_between(self, runs));
                            assert(old(self).produces(self, out@));
                        }
                        return (out, self.outer_done);
                    }
                    let ghost before_fed = self.fed@;
                    let ghost before_pending = self.pending@;
                    let value = self.pending.remove(0);
                    let ghost v = value;
                    let builder = (self.make)(value);
                    proof {
                        use_type_invariant(&builder);
                        assert(call_ensures(self.make, (v,), builder));
                        assert(v == before_pending[0]);
                        assert(before_fed.push(v) + self.pending@ =~= before_fed + before_pending);
                    }
                    self.fed = Ghost(self.fed@.push(v));
                    proof {
                        assert(self.fed@[f0 + runs.len() - off] == v);
                        assert(made_from::<S::Item, Effect, Event, S2, G>(self.make, v, builder.source_of()));
                        assert forall|i: int|
                            off <= i < runs.len() implies made_from::<S::Item, Effect, Event, S2, G>(
                            self.make,
                            self.fed@[f0 + i - off],
                            (#[trigger] runs[i]).0,
                        ) by {
                            assert(self.fed@[f0 + i - off] == before_fed[f0 + i - off]);
                        }
                        assert forall|i: int| 0 <= i < self.fed@.len() implies has_built::<
                            S::Item,
                            Builder<Effect, Event, S2>,
                            G,
                        >(self.make, #[trigger] self.fed@[i]) by {
                            if i < before_fed.len() {
                                assert(self.fed@[i] == before_fed[i]);
                            }
                        }
                    }
                    self.inner = Some(builder.source);
                },
            }
        }
    }
}

/// A command under construction: a request or a stream, possibly chained
/// with further ones, whose values are not yet turned into events.
pub struct Builder<Effect, Event, S: Source<Effect>> {
    pub(crate) source: S,
    marker: PhantomData<(Effect, Event)>,
}

impl<Effect, Event, S: Source<Effect>> Builder<Effect, Event, S> {
    #[verifier::type_invariant]
    spec fn wf(self) -> bool {
        self.source.inv()
    }

    pub(crate) fn new(source: S) -> (r: Self)
        requires
            source.inv(),
        ensures
            r.source_of() == source,
    {
        Builder { source, marker: PhantomData }
    }

    /// The builder's source.
    pub closed spec fn source_of(self) -> S {
        self.source
    }

    /// Chains a further builder to every value of this one: for each value,
    /// in order, `make` gives the builder whose values come next.
    pub fn then<G, S2>(self, make: G) -> (r: Builder<Effect, Event, ThenSource<Effect, Event, S, G, S2>>) where
        S2: Source<Effect>,
        G: Fn(S::Item) -> Builder<Effect, Event, S2>,

        requires
            forall|x: S::Item| call_requires(make, (x,)),
        ensures
            r.source_of().outer_of() == self.source_of(),
            r.source_of().make_of() == make,
            r.source_of().unstarted(),
            r.source_of().fresh() == self.source_of().fresh(),
            r.source_of().chains(),
    {
        proof {
            use_type_invariant(&self);
        }
        let source = ThenSource {
            outer: self.source,
            make,
            inner: None,
            pending: Vec::new(),
            outer_done: false,
            received: Ghost(Seq::empty()),
            fed: Ghost(Seq::empty()),
            marker: PhantomData,
        };
        Builder::new(source)
    }
}

impl<Effect, Event, S: Source<Effect> + 'static> Builder<Effect, Event, S> {
    /// Finishes the builder: every value it produces is turned into an
    /// event by `send`.
    pub fn then_send<F>(self, send: F) -> (r: Command<Effect, Event>) where
        F: Fn(S::Item) -> Event + 'static,

        requires
            forall|x: S::Item| call_requires(send, (x,)),
        ensures
            r.task_count() == 1,
            r.queued_effects().len() == 0,
            r.queued_events().len() == 0,
            r.pending_sends() == self.source_of().fresh(),
            r.ready_events() == 0,
            r.all_fixed() == !self.source_of().chains(),
            forall|es: Seq<Effect>|
                r.announced(es) <==> (es.len() == self.source_of().fresh() && self.source_of().announces(es)),
            forall|es: Seq<Effect>|
                r.leads(es) <==> if self.source_of().chains() {
                    es.len() == 0
                } else {
                    es.len() == self.source_of().fresh() && self.source_of().announces(es)
                },
    {
        proof {
            use_type_invariant(&self);
        }
        send_command(self.source, send)
    }
}

/// Starts a builder on a one-shot request for `operation`.
pub fn request_builder<Effect, Event, Op: Operation>(operation: Op) -> (r: Builder<
    Effect,
    Event,
    RequestSource<Op>,
>) where Effect: From<Request<Op>>
    ensures
        r.source_of().unsent(),
        r.source_of().pending_op() == Some(operation),
{
    Builder::new(RequestSource { state: RequestState::Unsent(operation) })
}

/// Starts a builder on a stream request for `operation`.
pub fn stream_builder<Effect, Event, Op: Operation>(operation: Op) -> (r: Builder<
    Effect,
    Event,
    StreamSource<Op>,
>) where Effect: From<Request<Op>>
    ensures
        r.source_of().unsent(),
        r.source_of().pending_op() == Some(operation),
{
    Builder::new(StreamSource { state: StreamState::Unsent(operation) })
}

} // verus!
