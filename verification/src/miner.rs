//! The mining loop as a state machine.
//!
//! The loop waits for templates from the pool and for attempts to end. The
//! first template starts the kernels, one per thread; a later one cancels the
//! attempts that run, which are then started again on the new template. An
//! attempt that has ended is judged, and its kernel set to work again.
//!
//! [`Miner`] holds what the loop decides by. Its caller starts kernels, runs
//! attempts and submits solutions, and reports what happens.

use vstd::prelude::*;

use crate::candidate::{draw_element, mine, CuedTemplate, CuedTemplateView, MineError};
use crate::candidate::{candidate_for, candidate_noun, is_random_candidate, nonce_noun, result_noun};
use crate::effect::{attempt_outcome, MISS};
use crate::effect::{judge, Outcome, OutcomeView};
use crate::noun::{cell, has_tag, Noun};
use crate::noun::NounSlab;
use crate::threads::num_threads;
use crate::threads::thread_count;

verus! {

/// What the user sets.
#[derive(Clone, Copy, Debug, PartialEq, Eq)]
pub struct Config {
    /// The most threads that may run.
    pub max_threads: Option<u32>,
    /// Whether proofs that hit the pool target only are dropped.
    pub network_only: bool,
}

/// The state of the mining loop. `C` is the type of the handles by which a
/// kernel's running attempt is cancelled.
pub struct Miner<C> {
    num_threads: u64,
    network_only: bool,
    template: Option<CuedTemplate>,
    running: u64,
    starting: u64,
    in_use: Vec<u64>,
    cancel_tokens: Vec<C>,
}

/// The value of a [`Miner`].
pub struct MinerView<C> {
    /// How many kernels are started.
    pub num_threads: nat,
    /// Whether proofs that hit the pool target only are dropped.
    pub network_only: bool,
    /// The newest template.
    pub template: Option<CuedTemplateView>,
    /// How many attempts run.
    pub running: nat,
    /// How many kernels have been started and have not reported yet.
    pub starting: nat,
    /// The numbers of the threads in use. Each attempt that runs has its number
    /// here. An attempt that is lost does not say which thread it was on, so
    /// its number stays until kernels are started anew.
    pub in_use: Seq<u64>,
    /// The handles of all kernels that were ever ready, oldest first.
    pub cancel_tokens: Seq<C>,
}

/// What the caller of a [`Miner`] reports.
pub enum Event<C> {
    /// The pool sent a template.
    Template { template: CuedTemplateView },
    /// The kernel of this thread is ready; its attempts are cancelled by this
    /// handle.
    KernelReady { thread: u64, cancel_token: C },
    /// A kernel could not be started.
    KernelFailed,
    /// The attempt on this thread has ended with this answer, or with an error.
    AttemptEnded { thread: u64, answer: Option<Noun> },
    /// The attempt on this thread is gone, and its kernel with it. The miner is
    /// not told the thread.
    AttemptLost { thread: u64 },
}

/// What a new template leads to.
#[derive(Clone, Copy, Debug, PartialEq, Eq)]
pub enum TemplateAction {
    /// Start a kernel for each of the threads below `count`.
    StartKernels { count: u64 },
    /// Cancel by every handle; each attempt then ends and is started again.
    CancelAttempts,
}

/// The next attempt on a thread: its candidate, or why there is none. Without
/// a candidate the thread's kernel is given up.
#[derive(Debug)]
pub struct Launch {
    pub thread: u64,
    pub candidate: Result<NounSlab, MineError>,
}

/// There is a candidate for the template, whatever the nonce.
pub open spec fn can_mine(template: Option<CuedTemplateView>) -> bool {
    match template {
        Some(t) => t.commit is Some && t.network_target is Some && t.pool_target is Some,
        None => false,
    }
}

/// The numbers without `thread`.
pub open spec fn without(threads: Seq<u64>, thread: u64) -> Seq<u64> {
    threads.remove(threads.index_of(thread))
}

/// `threads` are different numbers below `bound`.
pub open spec fn distinct_below(threads: Seq<u64>, bound: nat) -> bool {
    &&& threads.no_duplicates()
    &&& forall|i: int| 0 <= i < threads.len() ==> #[trigger] threads[i] < bound
}

/// Where the numbers are different, taking one away leaves the others.
proof fn lemma_without(threads: Seq<u64>, thread: u64, bound: nat)
    requires
        distinct_below(threads, bound),
        threads.contains(thread),
    ensures
        distinct_below(without(threads, thread), bound),
        without(threads, thread).len() == threads.len() - 1,
        forall|t: u64| #[trigger]
            without(threads, thread).contains(t) <==> threads.contains(t) && t != thread,
{
    let k = threads.index_of(thread);
    let rest = without(threads, thread);
    assert(0 <= k < threads.len() && threads[k] == thread);
    assert forall|i: int| 0 <= i < rest.len() implies #[trigger] rest[i] == threads[if i < k {
        i
    } else {
        i + 1
    }] by {}
    assert forall|t: u64| #[trigger] rest.contains(t) implies threads.contains(t) && t
        != thread by {
        let i = choose|i: int| 0 <= i < rest.len() && rest[i] == t;
        assert(rest[i] == threads[if i < k { i } else { i + 1 }]);
    }
    assert forall|t: u64| threads.contains(t) && t != thread implies #[trigger] rest.contains(
        t,
    ) by {
        let j = choose|j: int| 0 <= j < threads.len() && threads[j] == t;
        assert(rest[if j < k { j } else { j - 1 }] == t);
    }
}

/// There are no more different numbers below a bound than the bound says.
pub(crate) proof fn lemma_distinct_below_len(threads: Seq<u64>, bound: nat)
    requires
        distinct_below(threads, bound),
    ensures
        threads.len() <= bound,
    decreases bound,
{
    if threads.len() > 0 {
        assert(threads[0] < bound);
        let top = (bound - 1) as u64;
        if bound - 1 <= u64::MAX && threads.contains(top) {
            lemma_without(threads, top, bound);
            let rest = without(threads, top);
            assert forall|i: int| 0 <= i < rest.len() implies #[trigger] rest[i] < bound - 1 by {
                assert(rest.contains(rest[i]));
                assert(threads.contains(rest[i]));
            }
            lemma_distinct_below_len(rest, (bound - 1) as nat);
        } else {
            assert forall|i: int| 0 <= i < threads.len() implies #[trigger] threads[i] < bound
                - 1 by {
                assert(threads.contains(threads[i]));
            }
            lemma_distinct_below_len(threads, (bound - 1) as nat);
        }
    }
}

impl<C> MinerView<C> {
    /// The state at the start of the loop.
    pub open spec fn initial(num_threads: nat, network_only: bool) -> MinerView<C> {
        MinerView {
            num_threads,
            network_only,
            template: None,
            running: 0,
            starting: 0,
            in_use: Seq::empty(),
            cancel_tokens: Seq::empty(),
        }
    }

    /// What holds of every state: the attempts that run and the kernels that
    /// are starting are no more than the threads, there are no fewer handles
    /// than attempts that run, and the numbers in use are different numbers of
    /// threads and enough for the attempts that run.
    pub open spec fn valid(self) -> bool {
        &&& self.running + self.starting <= self.num_threads
        &&& self.running <= self.cancel_tokens.len()
        &&& self.running <= self.in_use.len()
        &&& distinct_below(self.in_use, self.num_threads)
    }

    /// The state in which `event` can happen. Templates wait until all kernels
    /// have reported.
    pub open spec fn enabled(self, event: Event<C>) -> bool {
        match event {
            Event::Template { .. } => self.starting == 0,
            Event::KernelReady { thread, .. } => {
                &&& self.starting > 0
                &&& thread < self.num_threads
                &&& !self.in_use.contains(thread)
            },
            Event::KernelFailed => self.starting > 0,
            Event::AttemptEnded { thread, .. } => {
                &&& self.running > 0
                &&& self.in_use.contains(thread)
            },
            Event::AttemptLost { .. } => self.running > 0,
        }
    }

    /// The state after `event`.
    pub open spec fn after(self, event: Event<C>) -> MinerView<C> {
        match event {
            Event::Template { template } => MinerView {
                template: Some(template),
                starting: if self.running == 0 {
                    self.num_threads
                } else {
                    self.starting
                },
                in_use: if self.running == 0 {
                    Seq::empty()
                } else {
                    self.in_use
                },
                ..self
            },
            Event::KernelReady { thread, cancel_token } => MinerView {
                starting: (self.starting - 1) as nat,
                running: if can_mine(self.template) {
                    self.running + 1
                } else {
                    self.running
                },
                in_use: if can_mine(self.template) {
                    self.in_use.push(thread)
                } else {
                    self.in_use
                },
                cancel_tokens: self.cancel_tokens.push(cancel_token),
                ..self
            },
            Event::KernelFailed => MinerView { starting: (self.starting - 1) as nat, ..self },
            Event::AttemptEnded { thread, .. } => MinerView {
                running: if can_mine(self.template) {
                    self.running
                } else {
                    (self.running - 1) as nat
                },
                in_use: if can_mine(self.template) {
                    self.in_use
                } else {
                    without(self.in_use, thread)
                },
                ..self
            },
            Event::AttemptLost { .. } => MinerView { running: (self.running - 1) as nat, ..self },
        }
    }

    /// The state after a series of events.
    pub open spec fn after_all(self, events: Seq<Event<C>>) -> MinerView<C>
        decreases events.len(),
    {
        if events.len() == 0 {
            self
        } else {
            self.after_all(events.drop_last()).after(events.last())
        }
    }

    /// Each event of the series can happen when its turn comes.
    pub open spec fn all_enabled(self, events: Seq<Event<C>>) -> bool
        decreases events.len(),
    {
        if events.len() == 0 {
            true
        } else {
            &&& self.all_enabled(events.drop_last())
            &&& self.after_all(events.drop_last()).enabled(events.last())
        }
    }

    /// The threads of the attempts that run after a series of events, where
    /// none ran before it: an attempt runs on a thread from the time when its
    /// kernel is ready until it is lost or ends without a successor.
    pub open spec fn in_flight(self, events: Seq<Event<C>>) -> Seq<u64>
        decreases events.len(),
    {
        if events.len() == 0 {
            Seq::empty()
        } else {
            let before = self.in_flight(events.drop_last());
            let mined_on = can_mine(self.after_all(events.drop_last()).template);
            match events.last() {
                Event::KernelReady { thread, .. } => if mined_on {
                    before.push(thread)
                } else {
                    before
                },
                Event::AttemptEnded { thread, .. } => if mined_on {
                    before
                } else {
                    without(before, thread)
                },
                Event::AttemptLost { thread } => without(before, thread),
                _ => before,
            }
        }
    }

    /// The series can happen: each event when its turn comes, and no attempt
    /// ends or is lost that does not run.
    pub open spec fn possible(self, events: Seq<Event<C>>) -> bool
        decreases events.len(),
    {
        if events.len() == 0 {
            true
        } else {
            &&& self.possible(events.drop_last())
            &&& self.after_all(events.drop_last()).enabled(events.last())
            &&& match events.last() {
                Event::AttemptEnded { thread, .. } => self.in_flight(
                    events.drop_last(),
                ).contains(thread),
                Event::AttemptLost { thread } => self.in_flight(events.drop_last()).contains(
                    thread,
                ),
                _ => true,
            }
        }
    }
}

impl<C> View for Miner<C> {
    type V = MinerView<C>;

    closed spec fn view(&self) -> MinerView<C> {
        MinerView {
            num_threads: self.num_threads as nat,
            network_only: self.network_only,
            template: match self.template {
                Some(t) => Some(t@),
                None => None,
            },
            running: self.running as nat,
            starting: self.starting as nat,
            in_use: self.in_use@,
            cancel_tokens: self.cancel_tokens@,
        }
    }
}

/// `candidate` is what the miner goes on with after an attempt with this
/// outcome: the nonce of a miss is taken over, and otherwise a random one is
/// drawn.
pub open spec fn follows(
    template: Option<CuedTemplateView>,
    outcome: OutcomeView,
    candidate: Result<Noun, MineError>,
) -> bool {
    match outcome {
        OutcomeView::Miss { nonce } => candidate == candidate_for(template, nonce),
        _ => is_random_candidate(template, candidate),
    }
}

/// The mining loop of a machine with this many logical cores and bytes of
/// memory, before the first event.
pub fn start<C>(config: &Config, logical_cores: usize, total_memory: u64) -> (r: Miner<C>)
    ensures
        r@ == MinerView::<C>::initial(
            thread_count(config.max_threads, logical_cores as int, total_memory as int) as nat,
            config.network_only,
        ),
        r@.valid(),
{
    let miner = Miner {
        num_threads: num_threads(config.max_threads, logical_cores, total_memory),
        network_only: config.network_only,
        template: None,
        running: 0,
        starting: 0,
        in_use: Vec::new(),
        cancel_tokens: Vec::new(),
    };
    assert(miner.in_use@ =~= Seq::<u64>::empty());
    assert(miner.cancel_tokens@ =~= Seq::<C>::empty());
    miner
}

impl<C> Miner<C> {
    /// How many kernels are started.
    pub fn num_threads(&self) -> (r: u64)
        ensures
            r == self@.num_threads,
    {
        self.num_threads
    }

    /// Whether proofs that hit the pool target only are dropped.
    pub fn network_only(&self) -> (r: bool)
        ensures
            r == self@.network_only,
    {
        self.network_only
    }

    /// How many attempts run.
    pub fn running(&self) -> (r: u64)
        ensures
            r == self@.running,
    {
        self.running
    }

    /// How many kernels have been started and have not reported yet.
    pub fn starting(&self) -> (r: u64)
        ensures
            r == self@.starting,
    {
        self.starting
    }

    /// The position of a number among those in use.
    fn find(&self, thread: u64) -> (r: Option<usize>)
        ensures
            r is Some <==> self@.in_use.contains(thread),
            r matches Some(i) ==> i < self@.in_use.len() && self@.in_use[i as int] == thread,
    {
        let mut i: usize = 0;
        while i < self.in_use.len()
            invariant
                i <= self.in_use@.len(),
                forall|j: int| 0 <= j < i ==> self.in_use@[j] != thread,
            decreases self.in_use@.len() - i,
        {
            if self.in_use[i] == thread {
                return Some(i);
            }
            i += 1;
        }
        None
    }

    /// Whether the thread with this number is in use.
    pub fn is_in_use(&self, thread: u64) -> (r: bool)
        ensures
            r == self@.in_use.contains(thread),
    {
        self.find(thread).is_some()
    }

    /// The handles of all kernels that were ever ready, oldest first.
    pub fn cancel_tokens(&self) -> (r: &Vec<C>)
        ensures
            r@ == self@.cancel_tokens,
    {
        &self.cancel_tokens
    }

    /// The pool sent a template.
    pub fn on_template(&mut self, template: CuedTemplate) -> (r: TemplateAction)
        requires
            old(self)@.valid(),
            old(self)@.enabled(Event::Template { template: template@ }),
        ensures
            final(self)@ == old(self)@.after(Event::Template { template: template@ }),
            final(self)@.valid(),
            r == (if old(self)@.running == 0 {
                TemplateAction::StartKernels { count: old(self)@.num_threads as u64 }
            } else {
                TemplateAction::CancelAttempts
            }),
    {
        self.template = Some(template);
        if self.running == 0 {
            self.starting = self.num_threads;
            self.in_use = Vec::new();
            assert(self.in_use@ =~= Seq::<u64>::empty());
            TemplateAction::StartKernels { count: self.num_threads }
        } else {
            TemplateAction::CancelAttempts
        }
    }

    /// The kernel of this thread is ready, and its attempts are cancelled by
    /// `cancel_token`. Its first attempt is due.
    pub fn on_kernel_ready(&mut self, thread: u64, cancel_token: C) -> (r: Launch)
        requires
            old(self)@.valid(),
            old(self)@.enabled(Event::KernelReady { thread, cancel_token }),
        ensures
            final(self)@ == old(self)@.after(Event::KernelReady { thread, cancel_token }),
            final(self)@.valid(),
            r.thread == thread,
            r.candidate is Ok <==> can_mine(old(self)@.template),
            is_random_candidate(old(self)@.template, result_noun(r.candidate)),
    {
        self.cancel_tokens.push(cancel_token);
        self.starting = self.starting - 1;
        let candidate = mine(self.template.as_ref(), None);
        if candidate.is_ok() {
            self.running = self.running + 1;
            self.in_use.push(thread);
        }
        Launch { thread, candidate }
    }

    /// A kernel could not be started.
    pub fn on_kernel_failed(&mut self)
        requires
            old(self)@.valid(),
            old(self)@.enabled(Event::KernelFailed),
        ensures
            final(self)@ == old(self)@.after(Event::KernelFailed),
            final(self)@.valid(),
    {
        self.starting = self.starting - 1;
    }

    /// An attempt on this thread has ended with this answer, or with an error.
    /// Says what came of it, and what the thread's kernel does next.
    pub fn on_attempt_ended(&mut self, thread: u64, answer: Option<&NounSlab>) -> (r: (
        Outcome,
        Launch,
    ))
        requires
            old(self)@.valid(),
            old(self)@.running > 0,
            old(self)@.in_use.contains(thread),
        ensures
            ({
                let answer = match answer {
                    Some(slab) => Some(slab@),
                    None => None,
                };
                &&& final(self)@ == old(self)@.after(Event::AttemptEnded { thread, answer })
                &&& r.0@ == attempt_outcome(answer, old(self)@.network_only)
            }),
            final(self)@.valid(),
            r.1.thread == thread,
            r.1.candidate is Ok <==> can_mine(old(self)@.template),
            follows(old(self)@.template, r.0@, result_noun(r.1.candidate)),
    {
        let outcome = judge(answer, self.network_only);
        let nonce = match &outcome {
            Outcome::Miss { nonce } => Some(nonce),
            _ => None,
        };
        let candidate = mine(self.template.as_ref(), nonce);
        if candidate.is_err() {
            self.running = self.running - 1;
            if let Some(i) = self.find(thread) {
                proof {
                    lemma_without(self.in_use@, thread, self.num_threads as nat);
                    assert(self.in_use@.index_of(thread) == i);
                }
                self.in_use.remove(i);
            }
        }
        (outcome, Launch { thread, candidate })
    }

    /// An attempt is gone, and its kernel with it.
    pub fn on_attempt_lost(&mut self)
        requires
            old(self)@.valid(),
            old(self)@.running > 0,
        ensures
            forall|thread: u64|
                final(self)@ == #[trigger] old(self)@.after(Event::AttemptLost { thread }),
            final(self)@.valid(),
    {
        self.running = self.running - 1;
    }
}

/// In every run of the loop, the attempts that run and the kernels that are
/// starting are never more than the threads, there are no fewer handles than
/// attempts that run, the numbers in use are different numbers of threads and
/// at least as many as the attempts that run, and neither the number of threads
/// nor the choice of targets changes.
pub proof fn law_every_run_stays_valid<C>(
    num_threads: nat,
    network_only: bool,
    events: Seq<Event<C>>,
)
    requires
        MinerView::<C>::initial(num_threads, network_only).all_enabled(events),
    ensures
        ({
            let state = MinerView::<C>::initial(num_threads, network_only).after_all(events);
            &&& state.valid()
            &&& state.num_threads == num_threads
            &&& state.network_only == network_only
        }),
    decreases events.len(),
{
    if events.len() > 0 {
        law_every_run_stays_valid(num_threads, network_only, events.drop_last());
        let before = MinerView::<C>::initial(num_threads, network_only).after_all(
            events.drop_last(),
        );
        if let Event::AttemptEnded { thread, .. } = events.last() {
            lemma_without(before.in_use, thread, num_threads);
        }
    }
}

/// In every run of the loop, the attempts that run are as many as the miner
/// counts and no more than the threads, and they are on different threads,
/// whose numbers are below the number of threads and known to be in use.
pub proof fn law_attempts_are_on_different_threads<C>(
    num_threads: nat,
    network_only: bool,
    events: Seq<Event<C>>,
)
    requires
        MinerView::<C>::initial(num_threads, network_only).possible(events),
    ensures
        ({
            let first = MinerView::<C>::initial(num_threads, network_only);
            let state = first.after_all(events);
            let flight = first.in_flight(events);
            &&& first.all_enabled(events)
            &&& distinct_below(flight, num_threads)
            &&& flight.len() == state.running
            &&& flight.len() <= num_threads
            &&& forall|t: u64| #[trigger] flight.contains(t) ==> state.in_use.contains(t)
        }),
    decreases events.len(),
{
    let first = MinerView::<C>::initial(num_threads, network_only);
    if events.len() > 0 {
        law_attempts_are_on_different_threads(num_threads, network_only, events.drop_last());
        law_every_run_stays_valid(num_threads, network_only, events.drop_last());
        let before = first.after_all(events.drop_last());
        let flight = first.in_flight(events.drop_last());
        let mined_on = can_mine(before.template);
        match events.last() {
            Event::Template { .. } => {
                if before.running == 0 {
                    assert(flight =~= Seq::empty());
                }
            },
            Event::KernelReady { thread, .. } => {
                if mined_on {
                    assert(!flight.contains(thread));
                    let now = flight.push(thread);
                    assert forall|i: int, j: int|
                        0 <= i < now.len() && 0 <= j < now.len() && i != j implies now[i]
                        != now[j] by {
                        assert(i < flight.len() ==> flight.contains(now[i]));
                        assert(j < flight.len() ==> flight.contains(now[j]));
                    }
                    assert forall|t: u64| #[trigger] now.contains(t) implies before.in_use.push(
                        thread,
                    ).contains(t) by {
                        let known = before.in_use.push(thread);
                        if t == thread {
                            assert(known[before.in_use.len() as int] == t);
                        } else {
                            let i = choose|i: int| 0 <= i < now.len() && now[i] == t;
                            assert(flight.contains(t));
                            let k = choose|k: int|
                                0 <= k < before.in_use.len() && before.in_use[k] == t;
                            assert(known[k] == t);
                        }
                    }
                }
            },
            Event::AttemptEnded { thread, .. } => {
                if !mined_on {
                    lemma_without(flight, thread, num_threads);
                    lemma_without(before.in_use, thread, num_threads);
                }
            },
            Event::AttemptLost { thread } => {
                lemma_without(flight, thread, num_threads);
            },
            Event::KernelFailed => {},
        }
    }
    lemma_distinct_below_len(first.in_flight(events), num_threads);
}

/// Before the first template nothing happens: no kernel is started, and no
/// attempt runs.
pub proof fn law_nothing_happens_before_a_template<C>(
    num_threads: nat,
    network_only: bool,
    events: Seq<Event<C>>,
)
    requires
        MinerView::<C>::initial(num_threads, network_only).all_enabled(events),
        events.len() > 0,
    ensures
        events[0] is Template,
    decreases events.len(),
{
    let first = MinerView::<C>::initial(num_threads, network_only);
    if events.len() == 1 {
        assert(first.after_all(events.drop_last()) == first);
    } else {
        law_nothing_happens_before_a_template(num_threads, network_only, events.drop_last());
        assert(events.drop_last()[0] == events[0]);
    }
}

/// A handle, once known, is never dropped or moved: every later template
/// cancels by it.
pub proof fn law_cancel_tokens_are_kept<C>(state: MinerView<C>, events: Seq<Event<C>>)
    ensures
        state.cancel_tokens.is_prefix_of(state.after_all(events).cancel_tokens),
    decreases events.len(),
{
    if events.len() > 0 {
        law_cancel_tokens_are_kept(state, events.drop_last());
    }
}

/// The miner knows the handle of every kernel that has been ready.
pub proof fn law_ready_kernels_can_be_cancelled<C>(state: MinerView<C>, events: Seq<Event<C>>)
    ensures
        forall|i: int|
            0 <= i < events.len() ==> (#[trigger] events[i] matches Event::KernelReady {
                cancel_token,
                ..
            } ==> state.after_all(events).cancel_tokens.contains(cancel_token)),
    decreases events.len(),
{
    if events.len() > 0 {
        law_ready_kernels_can_be_cancelled(state, events.drop_last());
        let before = state.after_all(events.drop_last()).cancel_tokens;
        let now = state.after_all(events).cancel_tokens;
        assert forall|i: int| 0 <= i < events.len() implies (
        #[trigger] events[i] matches Event::KernelReady { cancel_token, .. } ==> now.contains(
            cancel_token,
        )) by {
            if let Event::KernelReady { cancel_token, .. } = events[i] {
                if i < events.len() - 1 {
                    assert(events.drop_last()[i] == events[i]);
                    let k = choose|k: int| 0 <= k < before.len() && before[k] == cancel_token;
                    assert(now[k] == cancel_token);
                } else {
                    assert(now[before.len() as int] == cancel_token);
                }
            }
        }
    }
}

/// `i` is the position of an event that says that the kernel of `thread` is
/// ready, and `tokens` has the handle that it brought.
pub open spec fn brought_handle<C>(
    events: Seq<Event<C>>,
    i: int,
    thread: u64,
    tokens: Seq<C>,
) -> bool {
    &&& 0 <= i < events.len()
    &&& events[i] matches Event::KernelReady { thread: t, cancel_token } && t == thread
        && tokens.contains(cancel_token)
}

/// Every attempt that runs can be cancelled: the miner knows the handle that
/// came with its thread's kernel.
pub proof fn law_running_attempts_can_be_cancelled<C>(
    num_threads: nat,
    network_only: bool,
    events: Seq<Event<C>>,
)
    requires
        MinerView::<C>::initial(num_threads, network_only).possible(events),
    ensures
        ({
            let first = MinerView::<C>::initial(num_threads, network_only);
            let tokens = first.after_all(events).cancel_tokens;
            forall|t: u64| #[trigger]
                first.in_flight(events).contains(t) ==> exists|i: int|
                    brought_handle(events, i, t, tokens)
        }),
    decreases events.len(),
{
    let first = MinerView::<C>::initial(num_threads, network_only);
    law_ready_kernels_can_be_cancelled(first, events);
    if events.len() > 0 {
        let fewer = events.drop_last();
        law_running_attempts_can_be_cancelled(num_threads, network_only, fewer);
        law_attempts_are_on_different_threads(num_threads, network_only, fewer);
        let before = first.in_flight(fewer);
        let old_tokens = first.after_all(fewer).cancel_tokens;
        let tokens = first.after_all(events).cancel_tokens;
        assert forall|t: u64| #[trigger] first.in_flight(events).contains(t) implies exists|i: int|
            brought_handle(events, i, t, tokens) by {
            match events.last() {
                Event::AttemptEnded { thread, .. } => {
                    lemma_without(before, thread, num_threads);
                },
                Event::AttemptLost { thread } => {
                    lemma_without(before, thread, num_threads);
                },
                _ => {},
            }
            if before.contains(t) {
                let i = choose|i: int| brought_handle(fewer, i, t, old_tokens);
                assert(fewer[i] == events[i]);
                assert(brought_handle(events, i, t, tokens));
            } else {
                let k = events.len() - 1;
                assert(events[k] == events.last());
                assert(brought_handle(events, k, t, tokens));
            }
        }
    }
}

/// Attempts are always made on the newest template: no event but a template
/// changes the one that is mined on.
pub proof fn law_newest_template_is_mined_on<C>(
    state: MinerView<C>,
    before: Seq<Event<C>>,
    template: CuedTemplateView,
    later: Seq<Event<C>>,
)
    requires
        forall|i: int| 0 <= i < later.len() ==> !(#[trigger] later[i] is Template),
    ensures
        state.after_all(before.push(Event::Template { template }) + later).template == Some(
            template,
        ),
    decreases later.len(),
{
    let first = before.push(Event::Template { template });
    let events = first + later;
    if later.len() == 0 {
        assert(events =~= first);
        assert(events.drop_last() =~= before);
    } else {
        assert forall|i: int| 0 <= i < later.drop_last().len() implies !(
        #[trigger] later.drop_last()[i] is Template) by {
            assert(later.drop_last()[i] == later[i]);
        }
        law_newest_template_is_mined_on(state, before, template, later.drop_last());
        assert(events.drop_last() =~= first + later.drop_last());
        assert(events.last() == later.last());
        assert(!(later[later.len() - 1] is Template));
    }
}

/// After a miss the thread goes on with the nonce that the kernel handed back,
/// on the newest template.
pub proof fn law_miss_hands_its_nonce_on(
    template: CuedTemplateView,
    tag: Noun,
    nonce: Noun,
    rest: Noun,
    network_only: bool,
    candidate: Result<Noun, MineError>,
)
    requires
        can_mine(Some(template)),
        has_tag(tag, MISS@),
        follows(
            Some(template),
            attempt_outcome(Some(cell(cell(tag, nonce), rest)), network_only),
            candidate,
        ),
    ensures
        candidate == Ok::<Noun, MineError>(
            candidate_noun(
                template.version,
                template.commit->0,
                nonce,
                template.network_target->0,
                template.pool_target->0,
                template.pow_len,
            ),
        ),
{
}

/// After a miss, and after a miss alone, the thread goes on with a nonce that
/// it was handed; where the template cannot be mined on, the reason does not
/// depend on the nonce.
pub proof fn law_miss_alone_hands_a_nonce_on(
    template: Option<CuedTemplateView>,
    nonce: Noun,
    candidate: Result<Noun, MineError>,
)
    ensures
        follows(template, OutcomeView::Miss { nonce }, candidate) <==> candidate == candidate_for(
            template,
            nonce,
        ),
{
}

/// After anything but a miss the thread goes on with a nonce that is drawn for
/// it: five elements of the field, each of which a call for its position came
/// back with. Nothing of the outcome goes into the next candidate.
pub proof fn law_other_outcomes_draw_a_nonce(
    template: Option<CuedTemplateView>,
    outcome: OutcomeView,
    candidate: Result<Noun, MineError>,
)
    requires
        !(outcome is Miss),
        follows(template, outcome, candidate),
    ensures
        is_random_candidate(template, candidate),
        exists|words: Seq<u64>|
            {
                &&& words.len() == 5
                &&& forall|i: int|
                    0 <= i < 5 ==> {
                        &&& call_ensures(draw_element, (i as usize,), #[trigger] words[i])
                        &&& words[i] < 18446744069414584321
                    }
                &&& candidate == #[trigger] candidate_for(template, nonce_noun(words))
            },
{
    crate::candidate::law_random_nonces_are_drawn(template, candidate);
    let words = choose|words: Seq<u64>|
        {
            &&& words.len() == 5
            &&& forall|i: int|
                0 <= i < 5 ==> {
                    &&& call_ensures(draw_element, (i as usize,), #[trigger] words[i])
                    &&& words[i] < 18446744069414584321
                    &&& exists|draw: u64|
                        #[trigger] crate::candidate::is_draw(draw) && words[i] == draw
                            % 18446744069414584321
                }
            &&& candidate == #[trigger] candidate_for(template, nonce_noun(words))
        };
    assert(candidate == candidate_for(template, nonce_noun(words)));
}

/// After two attempts with outcomes other than a miss, what may follow the one
/// may follow the other.
pub proof fn law_other_outcomes_are_followed_alike(
    template: Option<CuedTemplateView>,
    outcome: OutcomeView,
    other: OutcomeView,
    candidate: Result<Noun, MineError>,
)
    requires
        !(outcome is Miss),
        !(other is Miss),
    ensures
        follows(template, outcome, candidate) <==> follows(template, other, candidate),
{
}

/// A template can be mined on exactly when there is a candidate for it with any
/// nonce, which is when its commitment and both targets are nouns.
pub proof fn law_mineable_templates_have_candidates(
    template: Option<CuedTemplateView>,
    nonce: Noun,
)
    ensures
        can_mine(template) <==> candidate_for(template, nonce) is Ok,
        can_mine(template) <==> template is Some && template->0.commit is Some
            && template->0.network_target is Some && template->0.pool_target is Some,
{
}

/// At first there is no template, nothing runs, and nothing is known of any
/// thread or kernel.
pub proof fn law_initial_state<C>(num_threads: nat, network_only: bool)
    ensures
        ({
            let first = MinerView::<C>::initial(num_threads, network_only);
            &&& first.num_threads == num_threads
            &&& first.network_only == network_only
            &&& first.template is None
            &&& first.running == 0
            &&& first.starting == 0
            &&& first.in_use.len() == 0
            &&& first.cancel_tokens.len() == 0
        }),
{
}

/// A template replaces the one before. While attempts run, nothing else
/// changes; while none runs, kernels start for all threads, and no thread is in
/// use any more.
pub proof fn law_template_event<C>(state: MinerView<C>, template: CuedTemplateView)
    ensures
        ({
            let now = state.after(Event::Template { template });
            &&& now.template == Some(template)
            &&& now.num_threads == state.num_threads
            &&& now.network_only == state.network_only
            &&& now.running == state.running
            &&& now.cancel_tokens == state.cancel_tokens
            &&& state.running == 0 ==> now.starting == state.num_threads
            &&& state.running == 0 ==> now.in_use.len() == 0
            &&& state.running != 0 ==> now.starting == state.starting
            &&& state.running != 0 ==> now.in_use == state.in_use
        }),
{
}

/// A kernel that is ready is no longer starting, and its handle is kept behind
/// the others. It adds an attempt on its thread, unless the template cannot be
/// mined on.
pub proof fn law_kernel_ready_event<C>(state: MinerView<C>, thread: u64, cancel_token: C)
    requires
        state.enabled(Event::KernelReady { thread, cancel_token }),
    ensures
        ({
            let now = state.after(Event::KernelReady { thread, cancel_token });
            &&& now.num_threads == state.num_threads
            &&& now.network_only == state.network_only
            &&& now.template == state.template
            &&& now.starting + 1 == state.starting
            &&& now.cancel_tokens == state.cancel_tokens.push(cancel_token)
            &&& can_mine(state.template) ==> now.running == state.running + 1
            &&& can_mine(state.template) ==> now.in_use == state.in_use.push(thread)
            &&& !can_mine(state.template) ==> now.running == state.running
            &&& !can_mine(state.template) ==> now.in_use == state.in_use
        }),
{
}

/// A kernel that could not be started is no longer starting, and nothing else
/// changes.
pub proof fn law_kernel_failed_event<C>(state: MinerView<C>)
    requires
        state.enabled(Event::KernelFailed),
    ensures
        ({
            let now = state.after(Event::KernelFailed);
            &&& now.num_threads == state.num_threads
            &&& now.network_only == state.network_only
            &&& now.template == state.template
            &&& now.running == state.running
            &&& now.starting + 1 == state.starting
            &&& now.in_use == state.in_use
            &&& now.cancel_tokens == state.cancel_tokens
        }),
{
}

/// Where the template cannot be mined on, an attempt that ends has no
/// successor: one attempt less runs, its thread is free, and nothing else
/// changes.
pub proof fn law_attempt_ended_event<C>(
    state: MinerView<C>,
    thread: u64,
    answer: Option<Noun>,
)
    requires
        state.valid(),
        state.enabled(Event::AttemptEnded { thread, answer }),
        !can_mine(state.template),
    ensures
        ({
            let now = state.after(Event::AttemptEnded { thread, answer });
            &&& now.num_threads == state.num_threads
            &&& now.network_only == state.network_only
            &&& now.template == state.template
            &&& now.running + 1 == state.running
            &&& now.starting == state.starting
            &&& now.cancel_tokens == state.cancel_tokens
            &&& now.in_use.len() + 1 == state.in_use.len()
            &&& forall|t: u64| #[trigger]
                now.in_use.contains(t) <==> state.in_use.contains(t) && t != thread
        }),
{
    lemma_without(state.in_use, thread, state.num_threads);
}

/// An attempt that is lost runs no longer, and nothing else changes; its thread
/// stays in use.
pub proof fn law_attempt_lost_event<C>(state: MinerView<C>, thread: u64)
    requires
        state.enabled(Event::AttemptLost { thread }),
    ensures
        ({
            let now = state.after(Event::AttemptLost { thread });
            &&& now.num_threads == state.num_threads
            &&& now.network_only == state.network_only
            &&& now.template == state.template
            &&& now.running + 1 == state.running
            &&& now.starting == state.starting
            &&& now.in_use == state.in_use
            &&& now.cancel_tokens == state.cancel_tokens
        }),
{
}

/// A state is valid exactly when its counts agree with the threads, the handles
/// and the numbers in use, which are different and below the number of threads.
pub proof fn law_valid_states<C>(state: MinerView<C>)
    ensures
        state.valid() <==> {
            &&& state.running + state.starting <= state.num_threads
            &&& state.running <= state.cancel_tokens.len()
            &&& state.running <= state.in_use.len()
            &&& state.in_use.no_duplicates()
            &&& forall|i: int|
                0 <= i < state.in_use.len() ==> #[trigger] state.in_use[i] < state.num_threads
        },
{
}

/// Kernels report only while some are starting, each for a thread that is free;
/// templates wait for them. Attempts end and are lost only while some run.
pub proof fn law_enabled_events<C>(
    state: MinerView<C>,
    template: CuedTemplateView,
    thread: u64,
    cancel_token: C,
    answer: Option<Noun>,
)
    ensures
        state.enabled(Event::Template { template }) <==> state.starting == 0,
        state.enabled(Event::KernelReady { thread, cancel_token }) <==> state.starting > 0 && thread
            < state.num_threads && !state.in_use.contains(thread),
        state.enabled(Event::KernelFailed) <==> state.starting > 0,
        state.enabled(Event::AttemptEnded { thread, answer }) <==> state.running > 0
            && state.in_use.contains(thread),
        state.enabled(Event::AttemptLost { thread }) <==> state.running > 0,
{
}

/// An attempt that ends is always replaced, whatever came of it, as long as
/// the newest template can be mined on.
pub proof fn law_ended_attempts_are_replaced<C>(
    state: MinerView<C>,
    thread: u64,
    answer: Option<Noun>,
)
    requires
        state.enabled(Event::AttemptEnded { thread, answer }),
        can_mine(state.template),
    ensures
        state.after(Event::AttemptEnded { thread, answer }) == state,
{
}

/// What became of a kernel that was started: its thread and handle, or `None`
/// if it could not be started.
pub type Report<C> = Option<(u64, C)>;

/// The threads whose kernels came up, in the order of the reports.
pub open spec fn ready_threads<C>(reports: Seq<Report<C>>) -> Seq<u64>
    decreases reports.len(),
{
    if reports.len() == 0 {
        Seq::empty()
    } else {
        let before = ready_threads(reports.drop_last());
        match reports.last() {
            Some((thread, _)) => before.push(thread),
            None => before,
        }
    }
}

/// The handles of the kernels that came up, in the order of the reports.
pub open spec fn ready_tokens<C>(reports: Seq<Report<C>>) -> Seq<C>
    decreases reports.len(),
{
    if reports.len() == 0 {
        Seq::empty()
    } else {
        let before = ready_tokens(reports.drop_last());
        match reports.last() {
            Some((_, cancel_token)) => before.push(cancel_token),
            None => before,
        }
    }
}

/// The event of a report.
pub open spec fn report_event<C>(report: Report<C>) -> Event<C> {
    match report {
        Some((thread, cancel_token)) => Event::KernelReady { thread, cancel_token },
        None => Event::KernelFailed,
    }
}

/// The events of a template and of the reports of the kernels that it starts.
pub open spec fn startup<C>(template: CuedTemplateView, reports: Seq<Report<C>>) -> Seq<Event<C>> {
    Seq::new(
        reports.len() + 1,
        |i: int|
            if i == 0 {
                Event::Template { template }
            } else {
                report_event(reports[i - 1])
            },
    )
}

/// The threads on which attempts run after the reports: those whose kernels
/// came up, or none if the template cannot be mined on.
pub open spec fn mining_threads<C>(
    template: CuedTemplateView,
    reports: Seq<Report<C>>,
) -> Seq<u64> {
    if can_mine(Some(template)) {
        ready_threads(reports)
    } else {
        Seq::empty()
    }
}

/// The state after a template has come while no attempt ran, and after some of
/// the kernels that it starts have reported.
pub open spec fn started<C>(
    state: MinerView<C>,
    template: CuedTemplateView,
    reports: Seq<Report<C>>,
) -> MinerView<C> {
    MinerView {
        template: Some(template),
        running: mining_threads(template, reports).len(),
        starting: (state.num_threads - reports.len()) as nat,
        in_use: mining_threads(template, reports),
        cancel_tokens: state.cancel_tokens + ready_tokens(reports),
        ..state
    }
}

/// A template that comes while no attempt runs, the first one or a later one,
/// starts the kernels of all threads. They report in any order, and attempts
/// run on exactly the threads whose kernels came up; those that failed do not
/// hold up the others. On a template that cannot be mined on no attempt runs.
#[verifier::spinoff_prover]
pub proof fn law_every_ready_kernel_mines<C>(
    state: MinerView<C>,
    template: CuedTemplateView,
    reports: Seq<Report<C>>,
)
    requires
        state.running == 0,
        state.starting == 0,
        reports.len() <= state.num_threads,
        distinct_below(ready_threads(reports), state.num_threads),
    ensures
        state.possible(startup(template, reports)),
        state.in_flight(startup(template, reports)) == mining_threads(template, reports),
        state.after_all(startup(template, reports)) == started(state, template, reports),
    decreases reports.len(),
{
    let events = startup(template, reports);
    if reports.len() == 0 {
        assert(events.drop_last() =~= Seq::empty());
        assert(state.after_all(events.drop_last()) == state);
        assert(state.possible(events.drop_last()));
        assert(state.in_flight(events.drop_last()) =~= mining_threads(template, reports));
        assert(state.after_all(events).in_use =~= mining_threads(template, reports));
        assert(state.after_all(events).cancel_tokens =~= state.cancel_tokens + ready_tokens(
            reports,
        ));
    } else {
        let fewer = reports.drop_last();
        let before = ready_threads(fewer);
        let now = ready_threads(reports);
        assert(forall|i: int| 0 <= i < before.len() ==> #[trigger] before[i] == now[i]);
        assert(distinct_below(before, state.num_threads));
        law_every_ready_kernel_mines(state, template, fewer);
        assert(events.drop_last() =~= startup(template, fewer));
        assert(events.last() == report_event(reports.last()));
        if let Some((thread, cancel_token)) = reports.last() {
            assert(now[before.len() as int] == thread);
            assert(!before.contains(thread));
        }
        assert(state.after_all(events).cancel_tokens =~= state.cancel_tokens + ready_tokens(
            reports,
        ));
    }
}

/// If no kernel came up, or the template could not be mined on, the next
/// template starts the kernels of all threads again.
pub proof fn law_failed_startup_is_repeated<C>(
    state: MinerView<C>,
    template: CuedTemplateView,
    reports: Seq<Report<C>>,
    next: CuedTemplateView,
)
    requires
        state.running == 0,
        state.starting == 0,
        reports.len() == state.num_threads,
        distinct_below(ready_threads(reports), state.num_threads),
        mining_threads(template, reports).len() == 0,
    ensures
        ({
            let failed = state.after_all(startup(template, reports));
            &&& failed.enabled(Event::Template { template: next })
            &&& failed.after(Event::Template { template: next }) == (MinerView {
                template: Some(next),
                running: 0,
                starting: state.num_threads,
                in_use: Seq::empty(),
                ..failed
            })
        }),
{
    law_every_ready_kernel_mines(state, template, reports);
}

} // verus!
