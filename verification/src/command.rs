//! Commands: what the core asks the shell to do, and the events that the
//! shell's answers turn into.

use vstd::prelude::*;

use crate::builder::{request_builder, stream_builder, Builder, RequestSource, Source, StreamSource};
use crate::request::{Operation, Request, ResolveKind};

verus! {

/// A unit of work inside a command, moved on one step at a time.
pub(crate) trait Task<Effect, Event> {
    /// The task's internal invariant.
    spec fn inv(&self) -> bool;

    /// The task has finished: it will emit nothing more.
    spec fn done(&self) -> bool;

    /// The number of effects the task emits on its next step before it
    /// hears any answer.
    spec fn fresh(&self) -> nat;

    /// The number of events the task emits on its next step before it
    /// hears any answer.
    spec fn ready_events(&self) -> nat;

    /// The task emits no effect but those counted by `fresh`: it sends no
    /// request in answer to what it hears.
    spec fn fixed(&self) -> bool;

    /// `es` are the effects the task emits on its next step before it
    /// hears any answer, in order.
    spec fn announces(&self, es: Seq<Effect>) -> bool;

    /// `e` is an event the task can emit.
    spec fn makes_event(&self, e: Event) -> bool;

    /// `es` may be what the task's next step emits before any other
    /// effect.
    spec fn leads(&self, es: Seq<Effect>) -> bool;

    /// For a task that runs one command and then another: the command
    /// running now, and the one still to come, as their views.
    spec fn sequence(&self) -> Option<(CommandView<Effect, Event>, Option<CommandView<Effect, Event>>)>;

    /// Moves the task on as far as the answers received so far allow:
    /// appends the effects and events it emits, and tells whether it is
    /// finished. A finished task stays finished and emits nothing. Every
    /// effect and event that was ready goes out.
    fn step(&mut self, effects: &mut Vec<Effect>, events: &mut Vec<Event>) -> (finished: bool)
        requires
            old(self).inv(),
        ensures
            final(self).inv(),
            finished == final(self).done(),
            old(effects)@.is_prefix_of(final(effects)@),
            old(events)@.is_prefix_of(final(events)@),
            old(self).done() ==> final(self).done() && final(effects)@ == old(effects)@
                && final(events)@ == old(events)@,
            final(effects)@.len() >= old(effects)@.len() + old(self).fresh(),
            old(self).fixed() ==> final(effects)@.len() == old(effects)@.len() + old(self).fresh(),
            final(self).fresh() == 0,
            final(events)@.len() >= old(events)@.len() + old(self).ready_events(),
            final(self).ready_events() == 0,
            old(self).fixed() ==> old(self).announces(final(effects)@.skip(old(effects)@.len() as int)),
            exists|es: Seq<Effect>| #[trigger] old(self).leads(es) && es.is_prefix_of(final(effects)@.skip(old(effects)@.len() as int)),
    ;
}

/// A task of any kind.
#[verifier::reject_recursive_types(Effect)]
#[verifier::reject_recursive_types(Event)]
pub struct TaskBox<Effect, Event> {
    task: Box<dyn Task<Effect, Event>>,
}

impl<Effect, Event> TaskBox<Effect, Event> {
    pub closed spec fn inv(&self) -> bool {
        self.task.inv()
    }

    /// The task has finished.
    pub closed spec fn done(&self) -> bool {
        self.task.done()
    }

    /// The effects the task emits on its next step before hearing any
    /// answer.
    pub closed spec fn fresh(&self) -> nat {
        self.task.fresh()
    }

    /// The events the task emits on its next step before hearing any
    /// answer.
    pub closed spec fn ready_events(&self) -> nat {
        self.task.ready_events()
    }

    /// The task sends no request in answer to what it hears.
    pub closed spec fn fixed(&self) -> bool {
        self.task.fixed()
    }

    /// `es` are the effects the task emits on its next step before it
    /// hears any answer, in order (as many as `fresh`).
    pub closed spec fn announces(&self, es: Seq<Effect>) -> bool {
        es.len() == self.fresh() && self.task.announces(es)
    }

    /// `e` is an event the task can emit.
    pub closed spec fn makes_event(&self, e: Event) -> bool {
        self.task.makes_event(e)
    }

    /// `es` may be what the task's next step emits before any other
    /// effect.
    pub closed spec fn leads(&self, es: Seq<Effect>) -> bool {
        self.task.leads(es)
    }

    /// For a task that runs one command and then another: the command
    /// running now, and the one still to come.
    pub closed spec fn sequence(&self) -> Option<(CommandView<Effect, Event>, Option<CommandView<Effect, Event>>)> {
        self.task.sequence()
    }

    fn step(&mut self, effects: &mut Vec<Effect>, events: &mut Vec<Event>) -> (finished: bool)
        requires
            old(self).inv(),
        ensures
            final(self).inv(),
            finished == final(self).done(),
            old(effects)@.is_prefix_of(final(effects)@),
            old(events)@.is_prefix_of(final(events)@),
            old(self).done() ==> final(self).done() && final(effects)@ == old(effects)@
                && final(events)@ == old(events)@,
            final(effects)@.len() >= old(effects)@.len() + old(self).fresh(),
            old(self).fixed() ==> final(effects)@.len() == old(effects)@.len() + old(self).fresh(),
            final(self).fresh() == 0,
            final(events)@.len() >= old(events)@.len() + old(self).ready_events(),
            final(self).ready_events() == 0,
            old(self).fixed() ==> old(self).announces(final(effects)@.skip(old(effects)@.len() as int)),
            exists|es: Seq<Effect>| #[trigger] old(self).leads(es) && es.is_prefix_of(final(effects)@.skip(old(effects)@.len() as int)),
    {
        let r = self.task.step(effects, events);
        proof {
            let w = choose|es: Seq<Effect>| #[trigger] old(self).task.leads(es) && es.is_prefix_of(
                effects@.skip(old(effects)@.len() as int),
            );
            assert(old(self).leads(w));
        }
        r
    }
}

/// A prefix of what follows the first `n` items stays one when the list
/// grows.
proof fn lemma_prefix_skip<A>(w: Seq<A>, a: Seq<A>, b: Seq<A>, n: int)
    requires
        0 <= n <= a.len(),
        w.is_prefix_of(a.skip(n)),
        a.is_prefix_of(b),
    ensures
        w.is_prefix_of(b.skip(n)),
{
    assert(w =~= b.skip(n).subrange(0, w.len() as int)) by {
        assert forall|i: int| 0 <= i < w.len() implies w[i] == b.skip(n)[i] by {
            assert(w[i] == a.skip(n)[i]);
            assert(a[n + i] == b[n + i]);
        }
    }
}

/// The sum of `fresh` over `ts`.
pub open spec fn tasks_fresh<Effect, Event>(ts: Seq<TaskBox<Effect, Event>>) -> nat
    decreases ts.len(),
{
    if ts.len() == 0 {
        0
    } else {
        tasks_fresh(ts.drop_last()) + ts.last().fresh()
    }
}

/// The sum of `ready_events` over `ts`.
pub open spec fn tasks_ready<Effect, Event>(ts: Seq<TaskBox<Effect, Event>>) -> nat
    decreases ts.len(),
{
    if ts.len() == 0 {
        0
    } else {
        tasks_ready(ts.drop_last()) + ts.last().ready_events()
    }
}

/// `es` are the effects the tasks `ts` announce, one task after the other.
pub open spec fn tasks_announce<Effect, Event>(ts: Seq<TaskBox<Effect, Event>>, es: Seq<Effect>) -> bool
    decreases ts.len(),
{
    if ts.len() == 0 {
        es.len() == 0
    } else {
        let n = ts.last().fresh() as int;
        &&& n <= es.len()
        &&& tasks_announce(ts.drop_last(), es.take(es.len() - n))
        &&& ts.last().announces(es.skip(es.len() - n))
    }
}

/// Announcements of two lists of tasks, put one after the other.
pub proof fn lemma_announce_append<Effect, Event>(
    a: Seq<TaskBox<Effect, Event>>,
    b: Seq<TaskBox<Effect, Event>>,
    x: Seq<Effect>,
    y: Seq<Effect>,
)
    requires
        tasks_announce(a, x),
        tasks_announce(b, y),
    ensures
        tasks_announce(a + b, x + y),
    decreases b.len(),
{
    if b.len() == 0 {
        assert(a + b =~= a);
        assert(x + y =~= x);
    } else {
        let n = b.last().fresh() as int;
        let y1 = y.take(y.len() - n);
        lemma_announce_append(a, b.drop_last(), x, y1);
        assert((a + b).drop_last() =~= a + b.drop_last());
        assert((a + b).last() == b.last());
        assert((x + y).take((x + y).len() - n) =~= x + y1);
        assert((x + y).skip((x + y).len() - n) =~= y.skip(y.len() - n));
    }
}

/// Both sums over the first `k + 1` tasks add the `k`th task's count.
proof fn lemma_sums_step<Effect, Event>(ts: Seq<TaskBox<Effect, Event>>, k: int)
    requires
        0 <= k < ts.len(),
    ensures
        tasks_fresh(ts.take(k + 1)) == tasks_fresh(ts.take(k)) + ts[k].fresh(),
        tasks_ready(ts.take(k + 1)) == tasks_ready(ts.take(k)) + ts[k].ready_events(),
{
    assert(ts.take(k + 1).drop_last() =~= ts.take(k));
}

/// Tasks with nothing ready add up to nothing.
proof fn lemma_sums_zero<Effect, Event>(ts: Seq<TaskBox<Effect, Event>>)
    requires
        forall|i: int| 0 <= i < ts.len() ==> (#[trigger] ts[i]).fresh() == 0 && ts[i].ready_events() == 0,
    ensures
        tasks_fresh(ts) == 0,
        tasks_ready(ts) == 0,
    decreases ts.len(),
{
    if ts.len() > 0 {
        assert forall|i: int| 0 <= i < ts.drop_last().len() implies (#[trigger] ts.drop_last()[i]).fresh() == 0
            && ts.drop_last()[i].ready_events() == 0 by {
            assert(ts.drop_last()[i] == ts[i]);
        }
        lemma_sums_zero(ts.drop_last());
        assert(ts.last() == ts[ts.len() - 1]);
    }
}

/// The sums over two lists put one after the other.
pub proof fn lemma_sums_append<Effect, Event>(a: Seq<TaskBox<Effect, Event>>, b: Seq<TaskBox<Effect, Event>>)
    ensures
        tasks_fresh(a + b) == tasks_fresh(a) + tasks_fresh(b),
        tasks_ready(a + b) == tasks_ready(a) + tasks_ready(b),
    decreases b.len(),
{
    if b.len() == 0 {
        assert(a + b =~= a);
    } else {
        assert((a + b).drop_last() =~= a + b.drop_last());
        assert((a + b).last() == b.last());
        lemma_sums_append(a, b.drop_last());
    }
}

/// Turns every value of a source into an event.
pub(crate) struct SendTask<S, F> {
    pub(crate) source: S,
    pub(crate) send: F,
}

impl<Effect, Event, S, F> Task<Effect, Event> for SendTask<S, F> where
    S: Source<Effect>,
    F: Fn(S::Item) -> Event,
 {
    closed spec fn inv(&self) -> bool {
        &&& self.source.inv()
        &&& forall|x: S::Item| call_requires(self.send, (x,))
    }

    closed spec fn done(&self) -> bool {
        self.source.finished()
    }

    closed spec fn fresh(&self) -> nat {
        self.source.fresh()
    }

    closed spec fn ready_events(&self) -> nat {
        0
    }

    closed spec fn fixed(&self) -> bool {
        !self.source.chains()
    }

    closed spec fn announces(&self, es: Seq<Effect>) -> bool {
        self.source.announces(es)
    }

    /// An event that `send` makes of some value.
    closed spec fn makes_event(&self, e: Event) -> bool {
        exists|x: S::Item| call_ensures(self.send, (x,), e)
    }

    /// What the source announces, when it sends nothing in answer to what
    /// it hears; otherwise nothing is promised first.
    closed spec fn leads(&self, es: Seq<Effect>) -> bool {
        if self.source.chains() {
            es.len() == 0
        } else {
            es.len() == self.source.fresh() && self.source.announces(es)
        }
    }

    closed spec fn sequence(&self) -> Option<(CommandView<Effect, Event>, Option<CommandView<Effect, Event>>)> {
        None
    }

    /// Advances the source, and appends, for each value it produced, in
    /// order, the event that `send` makes of it.
    fn step(&mut self, effects: &mut Vec<Effect>, events: &mut Vec<Event>) -> (finished: bool)
        ensures
            final(self).send == old(self).send,
            exists|vs: Seq<S::Item>|
                #![trigger old(self).source.produces(&final(self).source, vs)]
                {
                    &&& old(self).source.produces(&final(self).source, vs)
                    &&& final(events)@.len() == old(events)@.len() + vs.len()
                    &&& forall|i: int|
                        0 <= i < vs.len() ==> call_ensures(
                            old(self).send,
                            (vs[i],),
                            #[trigger] final(events)@[old(events)@.len() + i],
                        )
                },
    {
        let (mut values, done) = self.source.advance(effects);
        proof {
            let new = effects@.skip(old(effects)@.len() as int);
            if old(self).source.chains() {
                assert(Seq::<Effect>::empty().is_prefix_of(new));
                assert(old(self).leads(Seq::<Effect>::empty()));
            } else {
                assert(new.is_prefix_of(new));
                assert(old(self).leads(new));
            }
        }
        let ghost start = events@;
        let ghost vs = values@;
        let ghost mut k: int = 0;
        while values.len() > 0
            invariant
                forall|x: S::Item| call_requires(self.send, (x,)),
                self.send == old(self).send,
                start == old(events)@,
                start.is_prefix_of(events@),
                0 <= k <= vs.len(),
                values@ == vs.skip(k),
                events@.len() == start.len() + k,
                forall|i: int|
                    0 <= i < k ==> call_ensures(self.send, (vs[i],), #[trigger] events@[start.len() + i]),
            decreases values.len(),
        {
            let ghost before = events@;
            assert(values@[0] == vs[k]);
            let value = values.remove(0);
            let event = (self.send)(value);
            events.push(event);
            proof {
                assert(values@ =~= vs.skip(k + 1));
                assert forall|i: int| 0 <= i < k + 1 implies call_ensures(
                    self.send,
                    (vs[i],),
                    #[trigger] events@[start.len() + i],
                ) by {
                    if i < k {
                        assert(events@[start.len() + i] == before[start.len() + i]);
                    }
                }
                k = k + 1;
            }
        }
        assert(k == vs.len());
        assert(old(self).source.produces(&self.source, vs));
        done
    }
}

/// Runs one command to its end, then another.
#[verifier::reject_recursive_types(Effect)]
#[verifier::reject_recursive_types(Event)]
pub(crate) struct SequenceTask<Effect, Event> {
    pub(crate) current: Command<Effect, Event>,
    pub(crate) next: Option<Command<Effect, Event>>,
}

impl<Effect, Event> Task<Effect, Event> for SequenceTask<Effect, Event> {
    open spec fn inv(&self) -> bool {
        true
    }

    open spec fn done(&self) -> bool {
        self.current.is_idle() && self.next is None
    }

    /// The current command's queued and ready effects, and, when it has no
    /// task left, those of the next command too.
    open spec fn fresh(&self) -> nat {
        self.current.queued_effects().len() + self.current.pending_sends() + if self.current.task_count()
            == 0 {
            match self.next {
                Some(n) => n.queued_effects().len() + n.pending_sends(),
                None => 0,
            }
        } else {
            0
        }
    }

    /// The same count for events.
    open spec fn ready_events(&self) -> nat {
        self.current.queued_events().len() + self.current.ready_events() + if self.current.task_count()
            == 0 {
            match self.next {
                Some(n) => n.queued_events().len() + n.ready_events(),
                None => 0,
            }
        } else {
            0
        }
    }

    open spec fn fixed(&self) -> bool {
        false
    }

    /// As many effects as `fresh`, the current command's queued ones first.
    open spec fn announces(&self, es: Seq<Effect>) -> bool {
        &&& es.len() == self.fresh()
        &&& es.take(self.current.queued_effects().len() as int) == self.current.queued_effects()
    }

    /// What the current command emits first.
    open spec fn leads(&self, es: Seq<Effect>) -> bool {
        self.current.leads(es)
    }

    /// An event the current or the next command has queued, or one of
    /// their tasks can emit.
    open spec fn makes_event(&self, e: Event) -> bool {
        view_makes_event(self.current@, e) || (self.next matches Some(n) && view_makes_event(n@, e))
    }

    open spec fn sequence(&self) -> Option<(CommandView<Effect, Event>, Option<CommandView<Effect, Event>>)> {
        Some((
            self.current@,
            match self.next {
                Some(n) => Some(n@),
                None => None,
            },
        ))
    }

    /// Runs the current command and passes on what it emits; once it has
    /// no task left, starts the next one and runs it too. The next command
    /// waits, untouched, while the current one has tasks.
    fn step(&mut self, effects: &mut Vec<Effect>, events: &mut Vec<Event>) -> (finished: bool)
        ensures
            (old(effects)@ + old(self).current.queued_effects()).is_prefix_of(final(effects)@),
            (old(events)@ + old(self).current.queued_events()).is_prefix_of(final(events)@),
            final(self).next is Some ==> final(self).next == old(self).next
                && final(self).current.task_count() > 0,
            final(self).next is None && old(self).next is Some ==> final(self).current.task_count()
                <= old(self).next.unwrap().task_count(),
    {
        self.current.flush_into(effects, events);
        let ghost n = old(effects)@.len() as int;
        let ghost w = choose|es: Seq<Effect>| #[trigger] old(self).current.leads(es) && es.is_prefix_of(
            effects@.skip(n),
        );
        proof {
            assert(old(self).leads(w));
        }
        if self.current.tasks.len() > 0 {
            return false;
        }
        let mut next: Option<Command<Effect, Event>> = None;
        std::mem::swap(&mut next, &mut self.next);
        match next {
            Some(command) => {
                self.current = command;
                let ghost mid = effects@;
                self.current.flush_into(effects, events);
                proof {
                    lemma_prefix_skip(w, mid, effects@, n);
                }
                self.current.tasks.len() == 0
            },
            None => true,
        }
    }
}

/// What can be said of a task from outside.
#[verifier::reject_recursive_types(Effect)]
#[verifier::reject_recursive_types(Event)]
pub struct TaskView<Effect, Event> {
    pub done: bool,
    pub fresh: nat,
    pub ready_events: nat,
    pub fixed: bool,
    /// The effects it emits on its next step before hearing any answer.
    pub announces: spec_fn(Seq<Effect>) -> bool,
    /// The events it can emit.
    pub makes_event: spec_fn(Event) -> bool,
    /// What its next step may emit before any other effect.
    pub leads: spec_fn(Seq<Effect>) -> bool,
    /// For a task that runs one command and then another, the two.
    pub sequence: Option<(CommandView<Effect, Event>, Option<CommandView<Effect, Event>>)>,
}

impl<Effect, Event> View for TaskBox<Effect, Event> {
    type V = TaskView<Effect, Event>;

    closed spec fn view(&self) -> TaskView<Effect, Event> {
        TaskView {
            done: self.done(),
            fresh: self.fresh(),
            ready_events: self.ready_events(),
            fixed: self.fixed(),
            announces: |es: Seq<Effect>| self.announces(es),
            makes_event: |e: Event| self.makes_event(e),
            leads: |es: Seq<Effect>| self.leads(es),
            sequence: self.sequence(),
        }
    }
}

/// `e` is queued in the command, or one of its tasks can emit it.
pub open spec fn view_makes_event<Effect, Event>(v: CommandView<Effect, Event>, e: Event) -> bool {
    v.queued_events.contains(e) || exists|i: int| 0 <= i < v.tasks.len() && (v.tasks[i].makes_event)(e)
}

/// What can be said of a command from outside: its tasks in the order they
/// are stepped, the effects and events it has queued, and what its tasks
/// have ready.
#[verifier::reject_recursive_types(Effect)]
#[verifier::reject_recursive_types(Event)]
pub struct CommandView<Effect, Event> {
    pub tasks: Seq<TaskView<Effect, Event>>,
    pub task_count: nat,
    pub queued_effects: Seq<Effect>,
    pub queued_events: Seq<Event>,
    pub pending_sends: nat,
    pub ready_events: nat,
    pub all_fixed: bool,
}

impl<Effect, Event> View for Command<Effect, Event> {
    type V = CommandView<Effect, Event>;

    open spec fn view(&self) -> CommandView<Effect, Event> {
        CommandView {
            tasks: self.tasks().map_values(|t: TaskBox<Effect, Event>| t@),
            task_count: self.task_count(),
            queued_effects: self.queued_effects(),
            queued_events: self.queued_events(),
            pending_sends: self.pending_sends(),
            ready_events: self.ready_events(),
            all_fixed: self.all_fixed(),
        }
    }
}

/// A command: work for the shell (effects) and news for the app (events),
/// produced as the shell answers the requests the command makes.
#[verifier::reject_recursive_types(Effect)]
#[verifier::reject_recursive_types(Event)]
pub struct Command<Effect, Event> {
    tasks: Vec<TaskBox<Effect, Event>>,
    effects: Vec<Effect>,
    events: Vec<Event>,
}

impl<Effect, Event> Command<Effect, Event> {
    #[verifier::type_invariant]
    spec fn wf(self) -> bool {
        forall|i: int| 0 <= i < self.tasks@.len() ==> (#[trigger] self.tasks@[i]).inv()
    }

    /// The running tasks, in the order they are stepped.
    pub closed spec fn tasks(&self) -> Seq<TaskBox<Effect, Event>> {
        self.tasks@
    }

    /// The effects the tasks emit on their next steps before hearing any
    /// answer: one for each request ready to go.
    pub closed spec fn pending_sends(&self) -> nat {
        tasks_fresh(self.tasks@)
    }

    /// The events the tasks emit on their next steps before hearing any
    /// answer.
    pub closed spec fn ready_events(&self) -> nat {
        tasks_ready(self.tasks@)
    }

    /// `es` are the effects the tasks emit on their next steps before
    /// hearing any answer, task after task, in order.
    pub closed spec fn announced(&self, es: Seq<Effect>) -> bool {
        tasks_announce(self.tasks@, es)
    }

    /// `es` may be what the command's next run emits before any other
    /// effect: its queued effects, then what its first task emits first.
    pub closed spec fn leads(&self, es: Seq<Effect>) -> bool {
        &&& self.effects@.is_prefix_of(es)
        &&& if self.tasks@.len() == 0 {
            es.len() == self.effects@.len()
        } else {
            self.tasks@[0].leads(es.skip(self.effects@.len() as int))
        }
    }

    /// No task sends a request in answer to what it hears.
    pub closed spec fn all_fixed(&self) -> bool {
        forall|i: int| 0 <= i < self.tasks@.len() ==> (#[trigger] self.tasks@[i]).fixed()
    }

    /// How the counts of a command relate: `task_count` is the length of
    /// `tasks`, and a command with no task has nothing ready and sends no
    /// request in answer to anything.
    pub proof fn lemma_counts(&self)
        ensures
            self.task_count() == self.tasks().len(),
            self.task_count() == 0 ==> self.pending_sends() == 0 && self.ready_events() == 0
                && self.all_fixed(),
    {
    }

    /// The number of tasks still running.
    pub closed spec fn task_count(&self) -> nat {
        self.tasks@.len()
    }

    /// The effects emitted and not yet taken.
    pub closed spec fn queued_effects(&self) -> Seq<Effect> {
        self.effects@
    }

    /// The events emitted and not yet taken.
    pub closed spec fn queued_events(&self) -> Seq<Event> {
        self.events@
    }

    /// Nothing runs any more and nothing waits to be taken.
    pub open spec fn is_idle(&self) -> bool {
        &&& self.task_count() == 0
        &&& self.queued_effects().len() == 0
        &&& self.queued_events().len() == 0
    }

    /// No task of the command has finished.
    pub(crate) closed spec fn all_running(&self) -> bool {
        forall|i: int| 0 <= i < self.tasks@.len() ==> !(#[trigger] self.tasks@[i]).done()
    }

    /// Steps every task once, in order, and keeps those that are not
    /// finished.
    fn run(&mut self)
        ensures
            final(self).all_running(),
            final(self).task_count() <= old(self).task_count(),
            old(self).queued_effects().is_prefix_of(final(self).queued_effects()),
            old(self).queued_events().is_prefix_of(final(self).queued_events()),
            old(self).task_count() == 0 ==> final(self).queued_effects() == old(self).queued_effects() && final(self).queued_events() == old(self).queued_events()
                && final(self).task_count() == 0,
            final(self).queued_effects().len() >= old(self).queued_effects().len() + old(self).pending_sends(),
            old(self).all_fixed() ==> final(self).queued_effects().len() == old(self).queued_effects().len()
                + old(self).pending_sends(),
            final(self).pending_sends() == 0,
            final(self).queued_events().len() >= old(self).queued_events().len() + old(self).ready_events(),
            final(self).ready_events() == 0,
            old(self).all_fixed() ==> old(self).announced(
                final(self).queued_effects().skip(old(self).queued_effects().len() as int),
            ),
            exists|es: Seq<Effect>| #[trigger] old(self).leads(es) && es.is_prefix_of(final(self).queued_effects()),
    {
        proof {
            use_type_invariant(&*self);
        }
        let mut tasks: Vec<TaskBox<Effect, Event>> = Vec::new();
        std::mem::swap(&mut tasks, &mut self.tasks);
        let mut effects: Vec<Effect> = Vec::new();
        std::mem::swap(&mut effects, &mut self.effects);
        let mut events: Vec<Event> = Vec::new();
        std::mem::swap(&mut events, &mut self.events);
        let ghost n = tasks@.len();
        let ghost all = tasks@;
        let ghost mut k: int = 0;
        let mut kept: Vec<TaskBox<Effect, Event>> = Vec::new();
        while tasks.len() > 0
            invariant
                all == old(self).tasks@,
                0 <= k <= n,
                tasks@ == all.skip(k),
                effects@.len() >= old(self).queued_effects().len() + tasks_fresh(all.take(k)),
                old(self).all_fixed() ==> effects@.len() == old(self).queued_effects().len()
                    + tasks_fresh(all.take(k)),
                events@.len() >= old(self).queued_events().len() + tasks_ready(all.take(k)),
                forall|i: int| 0 <= i < kept@.len() ==> (#[trigger] kept@[i]).fresh() == 0
                    && kept@[i].ready_events() == 0,
                effects@.len() >= old(self).queued_effects().len(),
                old(self).all_fixed() ==> tasks_announce(
                    all.take(k),
                    effects@.skip(old(self).queued_effects().len() as int),
                ),
                forall|i: int| 0 <= i < tasks@.len() ==> (#[trigger] tasks@[i]).inv(),
                forall|i: int| 0 <= i < kept@.len() ==> (#[trigger] kept@[i]).inv(),
                forall|i: int| 0 <= i < kept@.len() ==> !(#[trigger] kept@[i]).done(),
                kept@.len() + tasks@.len() <= n,
                n == old(self).task_count(),
                old(self).queued_effects().is_prefix_of(effects@),
                old(self).queued_events().is_prefix_of(events@),
                n == 0 ==> effects@ == old(self).queued_effects() && events@ == old(self).queued_events() && kept@.len() == 0,
                k == 0 ==> effects@ == old(self).queued_effects(),
                k > 0 ==> exists|es: Seq<Effect>| #[trigger] old(self).leads(es) && es.is_prefix_of(effects@),
            decreases tasks.len(),
        {
            proof {
                assert(tasks@[0] == all[k]);
                lemma_sums_step(all, k);
            }
            let ghost before = effects@;
            let mut task = tasks.remove(0);
            let finished = task.step(&mut effects, &mut events);
            proof {
                let q = old(self).queued_effects().len() as int;
                if k == 0 {
                    let a = choose|a: Seq<Effect>| #[trigger] all[0].leads(a) && a.is_prefix_of(
                        effects@.skip(before.len() as int),
                    );
                    let es = before + a;
                    assert(es.skip(q) =~= a);
                    assert(before.is_prefix_of(es));
                    assert(old(self).tasks@[0] == all[0]);
                    assert(old(self).leads(es));
                    assert(es.is_prefix_of(effects@)) by {
                        assert(es =~= effects@.subrange(0, es.len() as int));
                    }
                } else {
                    let es = choose|es: Seq<Effect>| #[trigger] old(self).leads(es) && es.is_prefix_of(before);
                    assert(es.is_prefix_of(effects@)) by {
                        assert(es =~= effects@.subrange(0, es.len() as int));
                    }
                }
                if old(self).all_fixed() {
                    assert(all[k].fixed());
                    let t = all.take(k + 1);
                    let es = effects@.skip(q);
                    let n = all[k].fresh() as int;
                    assert(t.drop_last() =~= all.take(k));
                    assert(t.last() == all[k]);
                    assert(es.take(es.len() - n) =~= before.skip(q));
                    assert(es.skip(es.len() - n) =~= effects@.skip(before.len() as int));
                }
            }
            if !finished {
                kept.push(task);
            }
            proof {
                assert(tasks@ =~= all.skip(k + 1));
                k = k + 1;
            }
        }
        proof {
            assert(all.take(k) =~= all);
            lemma_sums_zero(kept@);
            if n == 0 {
                assert(old(self).leads(effects@));
                assert(effects@.is_prefix_of(effects@));
            }
        }
        self.tasks = kept;
        self.effects = effects;
        self.events = events;
    }

    /// Runs the command, then moves its queued effects and events to the end
    /// of `effects` and `events`.
    fn flush_into(&mut self, effects: &mut Vec<Effect>, events: &mut Vec<Event>)
        ensures
            final(self).task_count() <= old(self).task_count(),
            final(self).queued_effects().len() == 0,
            final(self).queued_events().len() == 0,
            old(effects)@.is_prefix_of(final(effects)@),
            old(events)@.is_prefix_of(final(events)@),
            (old(effects)@ + old(self).queued_effects()).is_prefix_of(final(effects)@),
            (old(events)@ + old(self).queued_events()).is_prefix_of(final(events)@),
            old(self).task_count() == 0 ==> final(effects)@ == old(effects)@
                + old(self).queued_effects() && final(events)@ == old(events)@
                + old(self).queued_events(),
            final(effects)@.len() >= old(effects)@.len() + old(self).queued_effects().len()
                + old(self).pending_sends(),
            final(events)@.len() >= old(events)@.len() + old(self).queued_events().len()
                + old(self).ready_events(),
            final(self).pending_sends() == 0,
            final(self).ready_events() == 0,
            exists|es: Seq<Effect>| #[trigger] old(self).leads(es) && es.is_prefix_of(final(effects)@.skip(old(effects)@.len() as int)),
    {
        let ghost start = effects@;
        self.run();
        proof {
            use_type_invariant(&*self);
        }
        let ghost queued = self.effects@;
        let mut mine: Vec<Effect> = Vec::new();
        std::mem::swap(&mut mine, &mut self.effects);
        effects.append(&mut mine);
        let mut news: Vec<Event> = Vec::new();
        std::mem::swap(&mut news, &mut self.events);
        events.append(&mut news);
        proof {
            assert(effects@.skip(start.len() as int) =~= queued);
        }
    }

    /// A command that does nothing.
    pub fn done() -> (r: Self)
        ensures
            r.is_idle(),
            r.tasks().len() == 0,
            r.pending_sends() == 0,
            r.ready_events() == 0,
            r.all_fixed(),
            forall|es: Seq<Effect>| r.announced(es) <==> es.len() == 0,
    {
        Command { tasks: Vec::new(), effects: Vec::new(), events: Vec::new() }
    }

    /// A command that only emits `event`.
    pub fn event(event: Event) -> (r: Self)
        ensures
            r.task_count() == 0,
            r.queued_effects().len() == 0,
            r.queued_events() == seq![event],
            r.tasks().len() == 0,
            r.pending_sends() == 0,
            r.ready_events() == 0,
            r.all_fixed(),
            forall|es: Seq<Effect>| r.announced(es) <==> es.len() == 0,
    {
        let mut events = Vec::new();
        events.push(event);
        Command { tasks: Vec::new(), effects: Vec::new(), events }
    }

    /// A command that tells the shell to carry out `operation`, and expects
    /// no answer.
    pub fn notify_shell<Op: Operation>(operation: Op) -> (r: Self) where
        Effect: From<Request<Op>>,

        ensures
            r.task_count() == 0,
            r.queued_effects().len() == 1,
            r.queued_events().len() == 0,
            r.tasks().len() == 0,
            r.pending_sends() == 0,
            r.ready_events() == 0,
            r.all_fixed(),
            forall|es: Seq<Effect>| r.announced(es) <==> es.len() == 0,
            exists|q: Request<Op>|
                {
                    &&& q.requested() == operation
                    &&& q.kind() == ResolveKind::Never
                    &&& call_ensures(Effect::from, (q,), #[trigger] r.queued_effects()[0])
                },
    {
        let q = Request::notify(operation);
        let ghost gq = q;
        let e = Effect::from(q);
        assert(call_ensures(Effect::from, (gq,), e));
        let mut effects = Vec::new();
        effects.push(e);
        Command { tasks: Vec::new(), effects, events: Vec::new() }
    }

    /// A builder that asks the shell to carry out `operation`, once, and
    /// produces its answer.
    pub fn request_from_shell<Op: Operation>(operation: Op) -> (r: Builder<
        Effect,
        Event,
        RequestSource<Op>,
    >) where Effect: From<Request<Op>>
        ensures
            r.source_of().unsent(),
            r.source_of().pending_op() == Some(operation),
    {
        request_builder(operation)
    }

    /// A builder that asks the shell to carry out `operation` and produces
    /// every answer the shell sends.
    pub fn stream_from_shell<Op: Operation>(operation: Op) -> (r: Builder<
        Effect,
        Event,
        StreamSource<Op>,
    >) where Effect: From<Request<Op>>
        ensures
            r.source_of().unsent(),
            r.source_of().pending_op() == Some(operation),
    {
        stream_builder(operation)
    }

    /// The command with the single task `task`.
    pub(crate) fn from_task(task: TaskBox<Effect, Event>) -> (r: Self)
        requires
            task.inv(),
        ensures
            r.task_count() == 1,
            r.tasks() == seq![task],
            r.tasks()[0] == task,
            r.queued_effects().len() == 0,
            r.queued_events().len() == 0,
            r.pending_sends() == task.fresh(),
            r.ready_events() == task.ready_events(),
            r.all_fixed() == task.fixed(),
            forall|es: Seq<Effect>| r.announced(es) <==> task.announces(es),
            forall|es: Seq<Effect>| r.leads(es) <==> task.leads(es),
    {
        let mut tasks = Vec::new();
        tasks.push(task);
        proof {
            assert forall|es: Seq<Effect>| tasks_announce(tasks@, es) <==> task.announces(es) by {
                assert(tasks@.drop_last() =~= Seq::<TaskBox<Effect, Event>>::empty());
                assert(tasks@.len() == 1);
                assert(tasks@[0] == task);
                assert(tasks@.last() == task);
                let n = task.fresh() as int;
                reveal_with_fuel(tasks_announce, 2);
                if tasks_announce(tasks@, es) {
                    assert(es.take(es.len() - n).len() == 0);
                    assert(es.len() == n);
                    assert(es.skip(0) =~= es);
                }
                if task.announces(es) {
                    assert(es.take(0) =~= Seq::<Effect>::empty());
                    assert(es.skip(0) =~= es);
                }
            }
            assert(tasks@.drop_last() =~= Seq::<TaskBox<Effect, Event>>::empty());
            assert(tasks_fresh(tasks@.drop_last()) == 0);
            assert(tasks_ready(tasks@.drop_last()) == 0);
            assert(tasks@.last() == task);
        }
        let r = Command { tasks, effects: Vec::new(), events: Vec::new() };
        proof {
            assert forall|es: Seq<Effect>| r.leads(es) <==> task.leads(es) by {
                assert(es.skip(0) =~= es);
                assert(r.effects@.is_prefix_of(es));
            }
        }
        r
    }

    /// Runs both commands side by side: the tasks, effects and events of
    /// `self` come before those of `other`.
    pub fn and(self, other: Self) -> (r: Self)
        ensures
            r.task_count() == self.task_count() + other.task_count(),
            r.tasks() == self.tasks() + other.tasks(),
            r.queued_effects() == self.queued_effects() + other.queued_effects(),
            r.queued_events() == self.queued_events() + other.queued_events(),
            r.pending_sends() == self.pending_sends() + other.pending_sends(),
            r.ready_events() == self.ready_events() + other.ready_events(),
            r.all_fixed() == (self.all_fixed() && other.all_fixed()),
            forall|a: Seq<Effect>, b: Seq<Effect>|
                self.announced(a) && other.announced(b) ==> #[trigger] r.announced(a + b),
    {
        proof {
            use_type_invariant(&self);
            use_type_invariant(&other);
        }
        let Command { tasks: mut tasks, effects: mut effects, events: mut events } = self;
        let Command { tasks: mut tasks2, effects: mut effects2, events: mut events2 } = other;
        let ghost t1 = tasks@;
        let ghost t2 = tasks2@;
        tasks.append(&mut tasks2);
        effects.append(&mut effects2);
        events.append(&mut events2);
        assert forall|i: int| 0 <= i < tasks@.len() implies (#[trigger] tasks@[i]).inv() by {
            if i < t1.len() {
                assert(tasks@[i] == t1[i]);
            } else {
                assert(tasks@[i] == t2[i - t1.len()]);
            }
        }
        proof {
            assert forall|a: Seq<Effect>, b: Seq<Effect>|
                tasks_announce(t1, a) && tasks_announce(t2, b) implies #[trigger] tasks_announce(
                t1 + t2,
                a + b,
            ) by {
                lemma_announce_append(t1, t2, a, b);
            }
            lemma_sums_append(t1, t2);
            assert(tasks@ =~= t1 + t2);
            let all1 = forall|i: int| 0 <= i < t1.len() ==> (#[trigger] t1[i]).fixed();
            let all2 = forall|i: int| 0 <= i < t2.len() ==> (#[trigger] t2[i]).fixed();
            let all = forall|i: int| 0 <= i < tasks@.len() ==> (#[trigger] tasks@[i]).fixed();
            assert(all1 && all2 ==> all) by {
                if all1 && all2 {
                    assert forall|i: int| 0 <= i < tasks@.len() implies (#[trigger] tasks@[i]).fixed() by {
                        if i < t1.len() {
                            assert(tasks@[i] == t1[i]);
                        } else {
                            assert(tasks@[i] == t2[i - t1.len()]);
                        }
                    }
                }
            }
            assert(all ==> all1 && all2) by {
                if all {
                    assert forall|i: int| 0 <= i < t1.len() implies (#[trigger] t1[i]).fixed() by {
                        assert(tasks@[i] == t1[i]);
                    }
                    assert forall|i: int| 0 <= i < t2.len() implies (#[trigger] t2[i]).fixed() by {
                        assert(tasks@[t1.len() + i] == t2[i]);
                    }
                }
            }
            assert(self.all_fixed() == all1);
            assert(other.all_fixed() == all2);
        }
        let r = Command { tasks, effects, events };
        assert(r.all_fixed() == (forall|i: int| 0 <= i < r.tasks@.len() ==> (#[trigger] r.tasks@[i]).fixed()));
        r
    }

    /// Runs all the commands side by side, in order.
    pub fn all_of(commands: Vec<Self>) -> (r: Self)
        ensures
            r.task_count() == commands@.fold_left(0nat, |n: nat, c: Self| n + c.task_count()),
            r.queued_effects() == commands@.fold_left(
                Seq::<Effect>::empty(),
                |s: Seq<Effect>, c: Self| s + c.queued_effects(),
            ),
            r.queued_events() == commands@.fold_left(
                Seq::<Event>::empty(),
                |s: Seq<Event>, c: Self| s + c.queued_events(),
            ),
            r.pending_sends() == commands@.fold_left(0nat, |n: nat, c: Self| n + c.pending_sends()),
            r.ready_events() == commands@.fold_left(0nat, |n: nat, c: Self| n + c.ready_events()),
            r.tasks() == commands@.fold_left(
                Seq::<TaskBox<Effect, Event>>::empty(),
                |s: Seq<TaskBox<Effect, Event>>, c: Self| s + c.tasks(),
            ),
            r.all_fixed() == commands@.fold_left(true, |b: bool, c: Self| b && c.all_fixed()),
            forall|parts: Seq<Seq<Effect>>|
                parts.len() == commands@.len() && (forall|j: int|
                    0 <= j < parts.len() ==> #[trigger] commands@[j].announced(parts[j]))
                    ==> #[trigger] r.announced(parts.flatten()),
    {
        let ghost all = commands@;
        let total = commands.len();
        assert(all.len() == total);
        let mut commands = commands;
        let mut r = Command::done();
        let mut i: usize = 0;
        proof {
            assert forall|parts: Seq<Seq<Effect>>|
                parts.len() == 0 && (forall|j: int|
                    0 <= j < parts.len() ==> #[trigger] all[j].announced(parts[j]))
                    implies #[trigger] r.announced(parts.flatten()) by {
                assert(parts.flatten() =~= Seq::<Effect>::empty());
            }
        }
        while commands.len() > 0
            invariant
                i + commands@.len() == all.len(),
                all.len() <= usize::MAX,
                commands@ == all.skip(i as int),
                r.task_count() == all.take(i as int).fold_left(
                    0nat,
                    |n: nat, c: Self| n + c.task_count(),
                ),
                r.queued_effects() == all.take(i as int).fold_left(
                    Seq::<Effect>::empty(),
                    |s: Seq<Effect>, c: Self| s + c.queued_effects(),
                ),
                r.queued_events() == all.take(i as int).fold_left(
                    Seq::<Event>::empty(),
                    |s: Seq<Event>, c: Self| s + c.queued_events(),
                ),
                r.pending_sends() == all.take(i as int).fold_left(
                    0nat,
                    |n: nat, c: Self| n + c.pending_sends(),
                ),
                r.ready_events() == all.take(i as int).fold_left(
                    0nat,
                    |n: nat, c: Self| n + c.ready_events(),
                ),
                r.tasks() == all.take(i as int).fold_left(
                    Seq::<TaskBox<Effect, Event>>::empty(),
                    |s: Seq<TaskBox<Effect, Event>>, c: Self| s + c.tasks(),
                ),
                r.all_fixed() == all.take(i as int).fold_left(true, |b: bool, c: Self| b && c.all_fixed()),
                forall|parts: Seq<Seq<Effect>>|
                    parts.len() == i && (forall|j: int|
                        0 <= j < parts.len() ==> #[trigger] all[j].announced(parts[j]))
                        ==> #[trigger] r.announced(parts.flatten()),
            decreases commands.len(),
        {
            let c = commands.remove(0);
            proof {
                assert(all.take(i + 1).drop_last() =~= all.take(i as int));
                assert(all.take(i + 1).last() == c);
            }
            let ghost r0 = r;
            let ghost c0 = c;
            r = r.and(c);
            proof {
                assert(c0 == all[i as int]);
                assert forall|parts: Seq<Seq<Effect>>|
                    parts.len() == i + 1 && (forall|j: int|
                        0 <= j < parts.len() ==> #[trigger] all[j].announced(parts[j]))
                        implies #[trigger] r.announced(parts.flatten()) by {
                    let p0 = parts.drop_last();
                    assert forall|j: int| 0 <= j < p0.len() implies #[trigger] all[j].announced(p0[j]) by {
                        assert(p0[j] == parts[j]);
                    }
                    assert(r0.announced(p0.flatten()));
                    assert(c0.announced(parts[i as int]));
                    assert(r.announced(p0.flatten() + parts[i as int]));
                    p0.lemma_flatten_push(parts[i as int]);
                    assert(p0.push(parts[i as int]) =~= parts);
                }
            }
            i = i + 1;
            proof {
                assert(commands@ =~= all.skip(i as int));
            }
        }
        assert(all.take(i as int) =~= all);
        r
    }

    /// Runs all the commands side by side, in order.
    pub fn all<const N: usize>(commands: [Self; N]) -> (r: Self)
        ensures
            r.task_count() == commands@.fold_left(0nat, |n: nat, c: Self| n + c.task_count()),
            r.queued_effects() == commands@.fold_left(
                Seq::<Effect>::empty(),
                |s: Seq<Effect>, c: Self| s + c.queued_effects(),
            ),
            r.queued_events() == commands@.fold_left(
                Seq::<Event>::empty(),
                |s: Seq<Event>, c: Self| s + c.queued_events(),
            ),
            r.pending_sends() == commands@.fold_left(0nat, |n: nat, c: Self| n + c.pending_sends()),
            r.ready_events() == commands@.fold_left(0nat, |n: nat, c: Self| n + c.ready_events()),
            r.tasks() == commands@.fold_left(
                Seq::<TaskBox<Effect, Event>>::empty(),
                |s: Seq<TaskBox<Effect, Event>>, c: Self| s + c.tasks(),
            ),
            r.all_fixed() == commands@.fold_left(true, |b: bool, c: Self| b && c.all_fixed()),
            forall|parts: Seq<Seq<Effect>>|
                parts.len() == commands@.len() && (forall|j: int|
                    0 <= j < parts.len() ==> #[trigger] commands@[j].announced(parts[j]))
                    ==> #[trigger] r.announced(parts.flatten()),
    {
        Self::all_of(array_to_vec(commands))
    }

    /// Runs the commands one after the other: `other` starts when `self` is
    /// done. The result has a single task, which runs `self` and keeps
    /// `other` for later, as its `sequence` shows (by the views of the two
    /// commands, tasks included). Its first run emits first what `self`
    /// emits first; in all, what `self` has queued and ready, and, when
    /// `self` has no task left, what `other` has too.
    pub fn then(self, other: Self) -> (r: Self) where Effect: 'static, Event: 'static
        ensures
            r.task_count() == 1,
            r.queued_effects().len() == 0,
            r.queued_events().len() == 0,
            r.pending_sends() == self.queued_effects().len() + self.pending_sends() + if self.task_count()
                == 0 {
                other.queued_effects().len() + other.pending_sends()
            } else {
                0
            },
            r.ready_events() == self.queued_events().len() + self.ready_events() + if self.task_count()
                == 0 {
                other.queued_events().len() + other.ready_events()
            } else {
                0
            },
            r.tasks().len() == 1,
            r.tasks()[0].sequence() == Some((self@, Some(other@))),
            forall|es: Seq<Effect>| r.leads(es) <==> self.leads(es),
    {
        let task = SequenceTask { current: self, next: Some(other) };
        let ghost t = task;
        let boxed = TaskBox { task: Box::new(task) };
        assert(boxed.sequence() == t.sequence());
        assert(forall|es: Seq<Effect>| boxed.leads(es) <==> t.leads(es));
        Command::from_task(boxed)
    }

    /// Runs the command and takes the effects it has emitted, in order:
    /// first those emitted before, then those of this run. Every request
    /// that was ready goes out: at least `pending_sends` new effects, and
    /// exactly that many when no task sends requests in answer to others.
    pub fn effects(&mut self) -> (r: Vec<Effect>)
        ensures
            old(self).queued_effects().is_prefix_of(r@),
            final(self).queued_effects().len() == 0,
            old(self).queued_events().is_prefix_of(final(self).queued_events()),
            final(self).task_count() <= old(self).task_count(),
            old(self).task_count() == 0 ==> r@ == old(self).queued_effects() && final(self).queued_events() == old(self).queued_events() && final(self).task_count() == 0,
            r@.len() >= old(self).queued_effects().len() + old(self).pending_sends(),
            old(self).all_fixed() ==> r@.len() == old(self).queued_effects().len() + old(self).pending_sends(),
            old(self).all_fixed() ==> old(self).announced(r@.skip(old(self).queued_effects().len() as int)),
            exists|es: Seq<Effect>| #[trigger] old(self).leads(es) && es.is_prefix_of(r@),
            final(self).pending_sends() == 0,
            final(self).queued_events().len() >= old(self).queued_events().len() + old(self).ready_events(),
            final(self).ready_events() == 0,
    {
        self.run();
        proof {
            use_type_invariant(&*self);
        }
        let mut r = Vec::new();
        std::mem::swap(&mut r, &mut self.effects);
        r
    }

    /// Runs the command and takes the events it has emitted, in order:
    /// first those emitted before, then those of this run, at least
    /// `ready_events` of them. The effects of the run are queued.
    pub fn events(&mut self) -> (r: Vec<Event>)
        ensures
            old(self).queued_events().is_prefix_of(r@),
            final(self).queued_events().len() == 0,
            old(self).queued_effects().is_prefix_of(final(self).queued_effects()),
            final(self).task_count() <= old(self).task_count(),
            old(self).task_count() == 0 ==> r@ == old(self).queued_events() && final(self).queued_effects() == old(self).queued_effects() && final(self).task_count() == 0,
            r@.len() >= old(self).queued_events().len() + old(self).ready_events(),
            final(self).ready_events() == 0,
            final(self).queued_effects().len() >= old(self).queued_effects().len() + old(self).pending_sends(),
            old(self).all_fixed() ==> final(self).queued_effects().len() == old(self).queued_effects().len()
                + old(self).pending_sends(),
            old(self).all_fixed() ==> old(self).announced(
                final(self).queued_effects().skip(old(self).queued_effects().len() as int),
            ),
            exists|es: Seq<Effect>| #[trigger] old(self).leads(es) && es.is_prefix_of(final(self).queued_effects()),
            final(self).pending_sends() == 0,
    {
        self.run();
        proof {
            use_type_invariant(&*self);
        }
        let mut r = Vec::new();
        std::mem::swap(&mut r, &mut self.events);
        r
    }

    /// Whether the command is done: no task runs any more, and no effect
    /// or event waits to be taken.
    pub fn is_done(&self) -> (r: bool)
        ensures
            r == self.is_idle(),
    {
        self.tasks.len() == 0 && self.effects.len() == 0 && self.events.len() == 0
    }
}

/// The command that turns every value of `source` into an event by `send`.
pub(crate) fn send_command<Effect, Event, S, F>(source: S, send: F) -> (r: Command<Effect, Event>) where
    S: Source<Effect> + 'static,
    F: Fn(S::Item) -> Event + 'static,

    requires
        source.inv(),
        forall|x: S::Item| call_requires(send, (x,)),
    ensures
        r.task_count() == 1,
        r.queued_effects().len() == 0,
        r.queued_events().len() == 0,
        r.pending_sends() == source.fresh(),
        r.ready_events() == 0,
        r.all_fixed() == !source.chains(),
        forall|es: Seq<Effect>| r.announced(es) <==> (es.len() == source.fresh() && source.announces(es)),
        forall|es: Seq<Effect>|
            r.leads(es) <==> if source.chains() {
                es.len() == 0
            } else {
                es.len() == source.fresh() && source.announces(es)
            },
{
    let task = SendTask { source, send };
    let ghost t = task;
    let boxed = TaskBox { task: Box::new(task) };
    assert(forall|es: Seq<Effect>| boxed.announces(es) <==> (es.len() == t.fresh() && t.announces(es)));
    assert(forall|es: Seq<Effect>| boxed.leads(es) <==> t.leads(es));
    Command::from_task(boxed)
}

/// `<Vec<T> as From<[T; N]>>::from` (std): moves the array's items into a
/// new vector, in order.
#[verifier::external_body]
fn array_to_vec<T, const N: usize>(items: [T; N]) -> (r: Vec<T>)
    ensures
        r@ == items@,
{
    Vec::from(items)
}

} // verus!
