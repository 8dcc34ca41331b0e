//! The benchmark: every thread makes a number of proofs on a fixed template,
//! and the times are summarised.
//!
//! Times are in nanoseconds. None is longer than [`MAX_DURATION`], the longest
//! time that `std::time::Duration` holds.

use vstd::prelude::*;
use vstd::string::*;

use crate::candidate::{mine, CuedTemplate, Template};
use crate::candidate::{is_random_candidate, result_noun};
use crate::hexadecimal::{decode, HexError};
use crate::hexadecimal::{decodes_to, hex_fault, is_digit, is_lower_digit, lower_hex, valid_hex};
use crate::miner::{can_mine, distinct_below, lemma_distinct_below_len};
use crate::miner::Launch;

verus! {

/// The longest duration, in nanoseconds: `2^64` seconds less one nanosecond.
pub const MAX_DURATION: u128 = 18446744073709551615999999999;

/// The part of a template that is no hexadecimal text, and why.
#[derive(Clone, Copy, Debug, PartialEq, Eq)]
pub enum TemplateError {
    Version(HexError),
    Commit(HexError),
    NetworkTarget(HexError),
    PoolTarget(HexError),
    PowLen(HexError),
}

/// `r` is what comes of decoding a template's parts in turn: the template, or
/// what is wrong with the first part that is no hexadecimal text.
pub open spec fn decoded_template(
    version: Seq<u8>,
    commit: Seq<u8>,
    network_target: Seq<u8>,
    pool_target: Seq<u8>,
    pow_len: Seq<u8>,
    r: Result<Template, TemplateError>,
) -> bool {
    match r {
        Ok(t) => {
            &&& decodes_to(version, t.version@)
            &&& decodes_to(commit, t.commit@)
            &&& decodes_to(network_target, t.network_target@)
            &&& decodes_to(pool_target, t.pool_target@)
            &&& decodes_to(pow_len, t.pow_len@)
        },
        Err(TemplateError::Version(e)) => hex_fault(version, e),
        Err(TemplateError::Commit(e)) => valid_hex(version) && hex_fault(commit, e),
        Err(TemplateError::NetworkTarget(e)) => {
            &&& valid_hex(version)
            &&& valid_hex(commit)
            &&& hex_fault(network_target, e)
        },
        Err(TemplateError::PoolTarget(e)) => {
            &&& valid_hex(version)
            &&& valid_hex(commit)
            &&& valid_hex(network_target)
            &&& hex_fault(pool_target, e)
        },
        Err(TemplateError::PowLen(e)) => {
            &&& valid_hex(version)
            &&& valid_hex(commit)
            &&& valid_hex(network_target)
            &&& valid_hex(pool_target)
            &&& hex_fault(pow_len, e)
        },
    }
}

/// Decodes the parts of a template from hexadecimal text.
pub fn decode_template(
    version: &str,
    commit: &str,
    network_target: &str,
    pool_target: &str,
    pow_len: &str,
) -> (r: Result<Template, TemplateError>)
    ensures
        decoded_template(
            version.spec_bytes(),
            commit.spec_bytes(),
            network_target.spec_bytes(),
            pool_target.spec_bytes(),
            pow_len.spec_bytes(),
            r,
        ),
{
    let version = match decode(version) {
        Ok(bytes) => bytes,
        Err(e) => return Err(TemplateError::Version(e)),
    };
    let commit = match decode(commit) {
        Ok(bytes) => bytes,
        Err(e) => return Err(TemplateError::Commit(e)),
    };
    let network_target = match decode(network_target) {
        Ok(bytes) => bytes,
        Err(e) => return Err(TemplateError::NetworkTarget(e)),
    };
    let pool_target = match decode(pool_target) {
        Ok(bytes) => bytes,
        Err(e) => return Err(TemplateError::PoolTarget(e)),
    };
    let pow_len = match decode(pow_len) {
        Ok(bytes) => bytes,
        Err(e) => return Err(TemplateError::PowLen(e)),
    };
    Ok(Template { version, commit, network_target, pool_target, pow_len })
}

/// The template that the benchmark mines on.
pub open spec fn is_benchmark_template(t: Template) -> bool {
    &&& lower_hex(t.version@) == "0200000000000000"@
    &&& lower_hex(t.commit@)
        == "017ee86437eac9dbae690081199671e25cb54ce700ff8cdb259db500063b409e2aa64f968ec7ed801e75db735d82443707"@
    &&& lower_hex(t.network_target@)
        == "81177307ec6aacb01ef04b58dbf601823db967ef80ed5256e50304ab9031bb015f1c808d1d2058623e470ce8cdf54174c07f08c49a068e8f02"@
    &&& lower_hex(t.pool_target@)
        == "81177307ec6aacb01ef04b58dbf601823db967ef80ed5256e50304ab9031bb015f1c808d1d2058623e470ce8cdf54174c07f08c49a068e8f02"@
    &&& lower_hex(t.pow_len@) == "4000000000000000"@
}

/// The characters from position `from` up to `to` are lower-case digits.
spec fn digits_between(text: Seq<char>, from: int, to: int) -> bool
    decreases to - from,
{
    if to <= from {
        true
    } else if to == from + 1 {
        is_lower_digit(text[from])
    } else {
        let middle = (from + to) / 2;
        digits_between(text, from, middle) && digits_between(text, middle, to)
    }
}

/// Digits between two positions are digits at each position.
proof fn lemma_digits_between(text: Seq<char>, from: int, to: int)
    requires
        digits_between(text, from, to),
    ensures
        forall|i: int| from <= i < to ==> is_lower_digit(#[trigger] text[i]),
    decreases to - from,
{
    if to > from + 1 {
        let middle = (from + to) / 2;
        lemma_digits_between(text, from, middle);
        lemma_digits_between(text, middle, to);
    }
}

/// The text consists of pairs of lower-case digits.
spec fn is_lower_text(text: Seq<char>) -> bool {
    &&& text.len() % 2 == 0
    &&& digits_between(text, 0, text.len() as int)
}

/// A text of pairs of lower-case digits is the lower-case form of what it
/// decodes to, and nothing is wrong with it.
proof fn lemma_lower_digits(text: &str)
    requires
        is_lower_text(text@),
    ensures
        valid_hex(text.spec_bytes()),
        forall|error: HexError| !hex_fault(text.spec_bytes(), error),
        forall|bytes: Seq<u8>|
            decodes_to(text.spec_bytes(), bytes) ==> #[trigger] lower_hex(bytes) == text@,
{
    lemma_digits_between(text@, 0, text@.len() as int);
    assert(is_ascii(text));
    let ascii = Seq::new(text@.len(), |i: int| text@[i] as u8);
    assert(text.spec_bytes() =~= ascii);
    assert forall|i: int| 0 <= i < ascii.len() implies is_digit(#[trigger] ascii[i]) by {
        assert(is_lower_digit(text@[i]));
    }
    assert forall|bytes: Seq<u8>| decodes_to(text.spec_bytes(), bytes) implies #[trigger] lower_hex(
        bytes,
    ) == text@ by {
        crate::hexadecimal::law_decoded_text_is_lower_hex(text@, bytes);
    }
}

/// The version is written in lower-case digits.
#[verifier::spinoff_prover]
proof fn lemma_version_text()
    ensures
        is_lower_text(
            "0200000000000000"@,
        ),
{
    reveal_strlit(
        "0200000000000000",
    );
    reveal_with_fuel(digits_between, 5);
}

/// The proof-of-work length is written in lower-case digits.
#[verifier::spinoff_prover]
proof fn lemma_pow_len_text()
    ensures
        is_lower_text(
            "4000000000000000"@,
        ),
{
    reveal_strlit(
        "4000000000000000",
    );
    reveal_with_fuel(digits_between, 5);
}

/// The commitment is written in lower-case digits.
#[verifier::spinoff_prover]
proof fn lemma_commit_text()
    ensures
        is_lower_text(
            "017ee86437eac9dbae690081199671e25cb54ce700ff8cdb259db500063b409e2aa64f968ec7ed801e75db735d82443707"@,
        ),
{
    reveal_strlit(
        "017ee86437eac9dbae690081199671e25cb54ce700ff8cdb259db500063b409e2aa64f968ec7ed801e75db735d82443707",
    );
    reveal_with_fuel(digits_between, 8);
}

/// The targets are written in lower-case digits.
#[verifier::spinoff_prover]
proof fn lemma_target_text()
    ensures
        is_lower_text(
            "81177307ec6aacb01ef04b58dbf601823db967ef80ed5256e50304ab9031bb015f1c808d1d2058623e470ce8cdf54174c07f08c49a068e8f02"@,
        ),
{
    reveal_strlit(
        "81177307ec6aacb01ef04b58dbf601823db967ef80ed5256e50304ab9031bb015f1c808d1d2058623e470ce8cdf54174c07f08c49a068e8f02",
    );
    reveal_with_fuel(digits_between, 8);
}

/// The template that the benchmark mines on.
pub fn benchmark_template() -> (r: Result<Template, TemplateError>)
    ensures
        r matches Ok(t) && is_benchmark_template(t),
{
    proof {
        lemma_version_text();
        lemma_lower_digits("0200000000000000");
        lemma_commit_text();
        lemma_lower_digits(
            "017ee86437eac9dbae690081199671e25cb54ce700ff8cdb259db500063b409e2aa64f968ec7ed801e75db735d82443707",
        );
        lemma_target_text();
        lemma_lower_digits(
            "81177307ec6aacb01ef04b58dbf601823db967ef80ed5256e50304ab9031bb015f1c808d1d2058623e470ce8cdf54174c07f08c49a068e8f02",
        );
        lemma_pow_len_text();
        lemma_lower_digits("4000000000000000");
    }
    decode_template(
        "0200000000000000",
        "017ee86437eac9dbae690081199671e25cb54ce700ff8cdb259db500063b409e2aa64f968ec7ed801e75db735d82443707",
        "81177307ec6aacb01ef04b58dbf601823db967ef80ed5256e50304ab9031bb015f1c808d1d2058623e470ce8cdf54174c07f08c49a068e8f02",
        "81177307ec6aacb01ef04b58dbf601823db967ef80ed5256e50304ab9031bb015f1c808d1d2058623e470ce8cdf54174c07f08c49a068e8f02",
        "4000000000000000",
    )
}

/// The sum of some durations.
pub open spec fn total_of(times: Seq<u128>) -> nat
    decreases times.len(),
{
    if times.len() == 0 {
        0
    } else {
        total_of(times.drop_last()) + times.last() as nat
    }
}

/// `time` is the shortest of the durations.
pub open spec fn is_shortest(times: Seq<u128>, time: u128) -> bool {
    &&& times.contains(time)
    &&& forall|i: int| 0 <= i < times.len() ==> time <= times[i]
}

/// `time` is the longest of the durations.
pub open spec fn is_longest(times: Seq<u128>, time: u128) -> bool {
    &&& times.contains(time)
    &&& forall|i: int| 0 <= i < times.len() ==> times[i] <= time
}

/// A part of the durations is no longer than all of them.
proof fn lemma_prefix_total(times: Seq<u128>, n: int)
    requires
        0 <= n <= times.len(),
    ensures
        total_of(times.take(n)) <= total_of(times),
    decreases times.len(),
{
    if n == times.len() {
        assert(times.take(n) =~= times);
    } else {
        lemma_prefix_total(times.drop_last(), n);
        assert(times.drop_last().take(n) =~= times.take(n));
    }
}

/// Whether the sum of some durations is a duration.
pub fn durations_fit(times: &Vec<u128>) -> (r: bool)
    ensures
        r == (total_of(times@) <= MAX_DURATION),
{
    let mut sum: u128 = 0;
    let mut i: usize = 0;
    while i < times.len()
        invariant
            i <= times@.len(),
            sum == total_of(times@.take(i as int)),
            sum <= MAX_DURATION,
        decreases times@.len() - i,
    {
        assert(times@.take(i + 1).drop_last() =~= times@.take(i as int));
        proof {
            lemma_prefix_total(times@, i + 1);
        }
        if times[i] > MAX_DURATION - sum {
            return false;
        }
        sum = sum + times[i];
        i += 1;
    }
    assert(times@.take(i as int) =~= times@);
    true
}

/// The sum of some durations.
pub fn total_time(times: &Vec<u128>) -> (r: u128)
    requires
        total_of(times@) <= MAX_DURATION,
    ensures
        r == total_of(times@),
{
    let mut sum: u128 = 0;
    let mut i: usize = 0;
    while i < times.len()
        invariant
            i <= times@.len(),
            sum == total_of(times@.take(i as int)),
            total_of(times@) <= MAX_DURATION,
        decreases times@.len() - i,
    {
        assert(times@.take(i + 1).drop_last() =~= times@.take(i as int));
        proof {
            lemma_prefix_total(times@, i + 1);
        }
        sum = sum + times[i];
        i += 1;
    }
    assert(times@.take(i as int) =~= times@);
    sum
}

/// The shortest and the longest of some durations.
pub fn extreme_times(times: &Vec<u128>) -> (r: (u128, u128))
    requires
        times@.len() > 0,
    ensures
        is_shortest(times@, r.0),
        is_longest(times@, r.1),
{
    let mut shortest: u128 = times[0];
    let mut longest: u128 = times[0];
    let mut i: usize = 1;
    while i < times.len()
        invariant
            1 <= i <= times@.len(),
            times@.contains(shortest),
            times@.contains(longest),
            forall|j: int| 0 <= j < i ==> shortest <= #[trigger] times@[j] <= longest,
        decreases times@.len() - i,
    {
        let time: u128 = times[i];
        assert(times@.contains(time));
        if time < shortest {
            shortest = time;
        }
        if time > longest {
            longest = time;
        }
        i += 1;
    }
    (shortest, longest)
}

/// The work of one thread: a number of proofs, one after another.
#[derive(Debug)]
pub struct ThreadRun {
    thread: u64,
    proofs: u32,
    times: Vec<u128>,
}

/// The value of a [`ThreadRun`].
pub struct ThreadRunView {
    /// The number of the thread.
    pub thread: u64,
    /// How many proofs the thread is to make.
    pub proofs: nat,
    /// How long each proof so far took.
    pub times: Seq<u128>,
}

impl ThreadRunView {
    /// No more proofs have been made than were to be made.
    pub open spec fn valid(self) -> bool {
        self.times.len() <= self.proofs
    }

    /// All proofs are made.
    pub open spec fn done(self) -> bool {
        self.times.len() == self.proofs
    }
}

impl View for ThreadRun {
    type V = ThreadRunView;

    closed spec fn view(&self) -> ThreadRunView {
        ThreadRunView { thread: self.thread, proofs: self.proofs as nat, times: self.times@ }
    }
}

impl ThreadRun {
    /// The next attempt, on a random nonce; `None` when all proofs are made.
    pub fn next_attempt(&self, template: Option<&CuedTemplate>) -> (r: Option<Launch>)
        requires
            self@.valid(),
        ensures
            r is None <==> self@.done(),
            r matches Some(launch) ==> {
                let template = match template {
                    Some(t) => Some(t@),
                    None => None,
                };
                &&& launch.thread == self@.thread
                &&& launch.candidate is Ok <==> can_mine(template)
                &&& is_random_candidate(template, result_noun(launch.candidate))
            },
    {
        if self.times.len() == self.proofs as usize {
            None
        } else {
            Some(Launch { thread: self.thread, candidate: mine(template, None) })
        }
    }

    /// A proof took this long. Returns its number, counted from one.
    pub fn on_proof(&mut self, elapsed: u128) -> (r: u32)
        requires
            old(self)@.valid(),
            !old(self)@.done(),
        ensures
            final(self)@ == (ThreadRunView {
                times: old(self)@.times.push(elapsed),
                ..old(self)@
            }),
            final(self)@.valid(),
            r == final(self)@.times.len(),
    {
        self.times.push(elapsed);
        self.times.len() as u32
    }

    /// The time that the thread took for all its proofs.
    pub fn total(&self) -> (r: u128)
        requires
            self@.done(),
            total_of(self@.times) <= MAX_DURATION,
        ensures
            r == total_of(self@.times),
    {
        total_time(&self.times)
    }

    /// How long each proof so far took.
    pub fn times(&self) -> (r: &Vec<u128>)
        ensures
            r@ == self@.times,
    {
        &self.times
    }
}

/// The state of a benchmark.
#[derive(Debug)]
pub struct Benchmark {
    num_threads: u32,
    proofs: u32,
    template: Template,
    finished: Vec<u64>,
    thread_times: Vec<u128>,
}

/// The value of a [`Benchmark`].
pub struct BenchmarkView {
    /// How many threads are started.
    pub num_threads: nat,
    /// How many proofs each thread makes.
    pub proofs: nat,
    /// What the threads mine on.
    pub template: Template,
    /// The numbers of the threads that have finished, in the order in which
    /// they did.
    pub finished: Seq<u64>,
    /// The time that each thread took for its proofs, in the order in which
    /// the threads finished.
    pub thread_times: Seq<u128>,
}

impl BenchmarkView {
    /// What holds of every state: different threads have finished, and there
    /// is a time for each.
    pub open spec fn valid(self) -> bool {
        &&& distinct_below(self.finished, self.num_threads)
        &&& self.thread_times.len() == self.finished.len()
    }

    /// `run` is the work of a thread of this benchmark that is not recorded
    /// yet. All its proofs are made, and the sum of their times is a duration.
    pub open spec fn can_record(self, run: ThreadRunView) -> bool {
        &&& run.done()
        &&& run.proofs == self.proofs
        &&& run.thread < self.num_threads
        &&& !self.finished.contains(run.thread)
        &&& total_of(run.times) <= MAX_DURATION
    }

    /// The state after a thread has done this work.
    pub open spec fn after(self, run: ThreadRunView) -> BenchmarkView {
        BenchmarkView {
            finished: self.finished.push(run.thread),
            thread_times: self.thread_times.push(total_of(run.times) as u128),
            ..self
        }
    }

    /// The state after some threads have done their work, one after another.
    pub open spec fn after_all(self, runs: Seq<ThreadRunView>) -> BenchmarkView
        decreases runs.len(),
    {
        if runs.len() == 0 {
            self
        } else {
            self.after_all(runs.drop_last()).after(runs.last())
        }
    }

    /// Each of the works can be recorded when its turn comes.
    pub open spec fn all_recordable(self, runs: Seq<ThreadRunView>) -> bool
        decreases runs.len(),
    {
        if runs.len() == 0 {
            true
        } else {
            &&& self.all_recordable(runs.drop_last())
            &&& self.after_all(runs.drop_last()).can_record(runs.last())
        }
    }

    /// The proofs that the threads that finished have made.
    pub open spec fn total_proofs(self) -> nat {
        self.thread_times.len() * self.proofs
    }

    /// The numbers of a summary exist: the proofs can be counted in 32 bits,
    /// there is one to divide by, and the sum of the times is a duration.
    pub open spec fn can_summarize(self) -> bool {
        self.thread_times.len() > 0 ==> {
            &&& 0 < self.total_proofs() <= u32::MAX
            &&& total_of(self.thread_times) <= MAX_DURATION
        }
    }
}

/// What a benchmark found.
#[derive(Clone, Copy, Debug, PartialEq, Eq)]
pub struct Summary {
    pub threads: u32,
    pub proofs_per_thread: u32,
    pub total_proofs: u32,
    /// The time on the clock, divided by the proofs.
    pub average_time_per_proof: u128,
    /// The time that a thread took for all its proofs, on average.
    pub average_time_per_thread: u128,
    pub min_thread_time: u128,
    pub max_thread_time: u128,
    pub total_time_all_threads: u128,
    pub total_benchmark_time: u128,
}

/// `summary` is the summary of a benchmark that took `wall_time` on the clock.
/// Averages are rounded down to the nanosecond.
pub open spec fn summarizes(state: BenchmarkView, wall_time: u128, summary: Summary) -> bool {
    &&& summary.threads == state.num_threads
    &&& summary.proofs_per_thread == state.proofs
    &&& summary.total_proofs == state.total_proofs()
    &&& summary.average_time_per_proof == wall_time as nat / state.total_proofs()
    &&& summary.average_time_per_thread == total_of(state.thread_times) / state.thread_times.len()
    &&& is_shortest(state.thread_times, summary.min_thread_time)
    &&& is_longest(state.thread_times, summary.max_thread_time)
    &&& summary.total_time_all_threads == total_of(state.thread_times)
    &&& summary.total_benchmark_time == wall_time
}

/// A benchmark before its first thread starts. There is one thread, unless
/// another number is given.
pub fn benchmark(max_threads: Option<u32>, benchmark_proofs: u32) -> (r: Result<
    Benchmark,
    TemplateError,
>)
    ensures
        r matches Ok(state) && {
            &&& state@.num_threads == (match max_threads {
                Some(n) => n,
                None => 1u32,
            })
            &&& state@.proofs == benchmark_proofs
            &&& is_benchmark_template(state@.template)
            &&& state@.finished == Seq::<u64>::empty()
            &&& state@.thread_times == Seq::<u128>::empty()
            &&& state@.valid()
        },
{
    let template = match benchmark_template() {
        Ok(template) => template,
        Err(e) => return Err(e),
    };
    let num_threads: u32 = match max_threads {
        Some(n) => n,
        None => 1,
    };
    Ok(
        Benchmark {
            num_threads,
            proofs: benchmark_proofs,
            template,
            finished: Vec::new(),
            thread_times: Vec::new(),
        },
    )
}

impl View for Benchmark {
    type V = BenchmarkView;

    closed spec fn view(&self) -> BenchmarkView {
        BenchmarkView {
            num_threads: self.num_threads as nat,
            proofs: self.proofs as nat,
            template: self.template,
            finished: self.finished@,
            thread_times: self.thread_times@,
        }
    }
}

impl Benchmark {
    /// How many threads are started.
    pub fn num_threads(&self) -> (r: u32)
        ensures
            r == self@.num_threads,
    {
        self.num_threads
    }

    /// What the threads mine on.
    pub fn template(&self) -> (r: &Template)
        ensures
            *r == self@.template,
    {
        &self.template
    }

    /// The kernel of this thread is ready to work.
    pub fn on_kernel_ready(&self, thread: u32) -> (r: ThreadRun)
        requires
            thread < self@.num_threads,
        ensures
            r@ == (ThreadRunView {
                thread: thread as u64,
                proofs: self@.proofs,
                times: Seq::empty(),
            }),
            r@.valid(),
    {
        let run = ThreadRun { thread: thread as u64, proofs: self.proofs, times: Vec::new() };
        assert(run.times@ =~= Seq::empty());
        run
    }

    /// Whether the work of a thread can be recorded.
    pub fn can_record(&self, run: &ThreadRun) -> (r: bool)
        requires
            run@.valid(),
        ensures
            r == self@.can_record(run@),
    {
        if run.times.len() != run.proofs as usize || run.proofs != self.proofs || run.thread
            >= self.num_threads as u64 {
            return false;
        }
        let mut i: usize = 0;
        while i < self.finished.len()
            invariant
                i <= self.finished@.len(),
                forall|j: int| 0 <= j < i ==> self.finished@[j] != run.thread,
            decreases self.finished@.len() - i,
        {
            if self.finished[i] == run.thread {
                return false;
            }
            i += 1;
        }
        durations_fit(&run.times)
    }

    /// A thread has made all its proofs.
    pub fn on_thread_done(&mut self, run: &ThreadRun)
        requires
            old(self)@.valid(),
            old(self)@.can_record(run@),
        ensures
            final(self)@ == old(self)@.after(run@),
            final(self)@.valid(),
    {
        let elapsed = run.total();
        self.finished.push(run.thread);
        self.thread_times.push(elapsed);
    }

    /// Whether the numbers of a summary exist.
    pub fn can_summarize(&self) -> (r: bool)
        ensures
            r == self@.can_summarize(),
    {
        if self.thread_times.len() == 0 {
            return true;
        }
        if self.proofs == 0 {
            assert(self@.total_proofs() == 0) by (nonlinear_arith)
                requires
                    self@.proofs == 0,
                    self@.total_proofs() == self@.thread_times.len() * self@.proofs,
            ;
            return false;
        }
        if self.thread_times.len() > (u32::MAX / self.proofs) as usize {
            proof {
                lemma_count_fits(self@.thread_times.len(), self@.proofs);
            }
            return false;
        }
        proof {
            lemma_count_fits(self@.thread_times.len(), self@.proofs);
        }
        durations_fit(&self.thread_times)
    }

    /// The summary of a benchmark that took this long on the clock; `None` if
    /// no thread has finished.
    pub fn summary(&self, wall_time: u128) -> (r: Option<Summary>)
        requires
            self@.can_summarize(),
        ensures
            r is None <==> self@.thread_times.len() == 0,
            r matches Some(summary) ==> summarizes(self@, wall_time, summary),
    {
        if self.thread_times.len() == 0 {
            return None;
        }
        proof {
            lemma_count_fits(self@.thread_times.len(), self@.proofs);
        }
        let finished: u32 = self.thread_times.len() as u32;
        let total_proofs: u32 = finished * self.proofs;
        let total_time_all_threads = total_time(&self.thread_times);
        let (min_thread_time, max_thread_time) = extreme_times(&self.thread_times);
        Some(
            Summary {
                threads: self.num_threads,
                proofs_per_thread: self.proofs,
                total_proofs,
                average_time_per_proof: wall_time / total_proofs as u128,
                average_time_per_thread: total_time_all_threads / finished as u128,
                min_thread_time,
                max_thread_time,
                total_time_all_threads,
                total_benchmark_time: wall_time,
            },
        )
    }
}

/// The proofs that were made in some works.
pub open spec fn proofs_in(runs: Seq<ThreadRunView>) -> nat
    decreases runs.len(),
{
    if runs.len() == 0 {
        0
    } else {
        proofs_in(runs.drop_last()) + runs.last().times.len()
    }
}

/// After the works of some threads are recorded, the proofs that the benchmark
/// counts are the proofs that were made in them, the times are the sums of
/// their proofs' times, and no more threads have finished than were started.
#[verifier::spinoff_prover]
pub proof fn law_recorded_runs_are_counted(first: BenchmarkView, runs: Seq<ThreadRunView>)
    requires
        first.finished == Seq::<u64>::empty(),
        first.thread_times == Seq::<u128>::empty(),
        first.all_recordable(runs),
    ensures
        ({
            let state = first.after_all(runs);
            &&& state.valid()
            &&& state.num_threads == first.num_threads
            &&& state.proofs == first.proofs
            &&& state.template == first.template
            &&& state.thread_times.len() == runs.len()
            &&& forall|i: int|
                0 <= i < runs.len() ==> {
                    &&& #[trigger] state.thread_times[i] == total_of(runs[i].times)
                    &&& state.finished[i] == runs[i].thread
                }
            &&& state.total_proofs() == proofs_in(runs)
            &&& runs.len() <= first.num_threads
        }),
    decreases runs.len(),
{
    let state = first.after_all(runs);
    if runs.len() == 0 {
        assert(state.total_proofs() == 0) by (nonlinear_arith)
            requires
                state.total_proofs() == state.thread_times.len() * state.proofs,
                state.thread_times.len() == 0,
        ;
    } else {
        law_recorded_runs_are_counted(first, runs.drop_last());
        let before = first.after_all(runs.drop_last());
        assert forall|i: int| 0 <= i < runs.len() implies {
            &&& #[trigger] state.thread_times[i] == total_of(runs[i].times)
            &&& state.finished[i] == runs[i].thread
        } by {
            if i < runs.len() - 1 {
                assert(runs.drop_last()[i] == runs[i]);
                assert(before.thread_times[i] == total_of(runs[i].times));
            }
        }
        let n = before.thread_times.len();
        let proofs = first.proofs;
        assert((n + 1) * proofs == n * proofs + proofs) by (nonlinear_arith);
        assert(before.total_proofs() == n * proofs);
        assert(state.total_proofs() == (n + 1) * proofs);
        assert(distinct_below(state.finished, first.num_threads));
    }
    lemma_distinct_below_len(state.finished, first.num_threads);
}

/// A product fits in 32 bits exactly when one factor is at most the quotient
/// of the largest number by the other.
proof fn lemma_count_fits(count: nat, proofs: nat)
    ensures
        proofs > 0 ==> (count * proofs <= u32::MAX <==> count <= u32::MAX as nat / proofs),
        count > 0 && proofs > 0 ==> count * proofs > 0,
        count * proofs > 0 ==> proofs > 0,
        count > 0 && 0 < count * proofs <= u32::MAX ==> count <= u32::MAX,
{
    if proofs > 0 {
        let q = u32::MAX as nat / proofs;
        assert(count <= q ==> count * proofs <= u32::MAX) by (nonlinear_arith)
            requires
                proofs > 0,
                q == u32::MAX as nat / proofs,
        ;
        assert(count > q ==> count * proofs > u32::MAX) by (nonlinear_arith)
            requires
                proofs > 0,
                q == u32::MAX as nat / proofs,
        ;
        assert(count > 0 ==> count * proofs >= count) by (nonlinear_arith)
            requires
                proofs > 0,
        ;
    } else {
        assert(count * proofs == 0) by (nonlinear_arith)
            requires
                proofs == 0,
        ;
    }
}

/// The sum lies between the shortest time and the longest one, each taken as
/// often as there are times.
proof fn lemma_total_bounds(times: Seq<u128>, low: u128, high: u128)
    requires
        forall|i: int| 0 <= i < times.len() ==> low <= #[trigger] times[i] <= high,
    ensures
        times.len() * low <= total_of(times) <= times.len() * high,
    decreases times.len(),
{
    if times.len() > 0 {
        lemma_total_bounds(times.drop_last(), low, high);
        let n = times.len();
        assert(n * low == (n - 1) * low + low) by (nonlinear_arith);
        assert(n * high == (n - 1) * high + high) by (nonlinear_arith);
    }
}

/// The average time per thread lies between the shortest and the longest, and
/// the longest is no longer than all of them together.
pub proof fn law_average_lies_between_extremes(
    state: BenchmarkView,
    wall_time: u128,
    summary: Summary,
)
    requires
        state.thread_times.len() > 0,
        summarizes(state, wall_time, summary),
    ensures
        summary.min_thread_time <= summary.average_time_per_thread <= summary.max_thread_time,
        summary.max_thread_time <= summary.total_time_all_threads,
{
    let n = state.thread_times.len();
    let total = total_of(state.thread_times);
    let low = summary.min_thread_time as nat;
    let high = summary.max_thread_time as nat;
    lemma_total_bounds(state.thread_times, summary.min_thread_time, summary.max_thread_time);
    assert(low <= total / n <= high) by (nonlinear_arith)
        requires
            n > 0,
            n * low <= total <= n * high,
    ;
    let k = choose|k: int| 0 <= k < n && state.thread_times[k] == summary.max_thread_time;
    assert(state.thread_times.take(k + 1).last() == state.thread_times[k]);
    lemma_prefix_total(state.thread_times, k + 1);
}

/// The average times, taken as often as there are proofs or threads, fall
/// short of the whole by less than a nanosecond each.
pub proof fn law_averages_make_up_the_whole(
    state: BenchmarkView,
    wall_time: u128,
    summary: Summary,
)
    requires
        state.thread_times.len() > 0,
        state.can_summarize(),
        summarizes(state, wall_time, summary),
    ensures
        summary.average_time_per_proof * summary.total_proofs <= wall_time
            < (summary.average_time_per_proof + 1) * summary.total_proofs,
        summary.average_time_per_thread * state.thread_times.len() <= summary.total_time_all_threads
            < (summary.average_time_per_thread + 1) * state.thread_times.len(),
{
    lemma_quotient(wall_time as nat, state.total_proofs());
    lemma_quotient(total_of(state.thread_times), state.thread_times.len());
}

/// A quotient rounded down, taken as often as the divisor says.
proof fn lemma_quotient(a: nat, b: nat)
    requires
        b > 0,
    ensures
        (a / b) * b <= a < (a / b + 1) * b,
{
    assert((a / b) * b <= a < (a / b + 1) * b) by (nonlinear_arith)
        requires
            b > 0,
    ;
}

/// A template is decoded exactly when all its parts are, each from its own
/// text. Otherwise the first part with a fault is named, with its fault.
pub proof fn law_parts_are_decoded_in_turn(
    version: Seq<u8>,
    commit: Seq<u8>,
    network_target: Seq<u8>,
    pool_target: Seq<u8>,
    pow_len: Seq<u8>,
    t: Template,
    e: HexError,
)
    ensures
        ({
            let decoded = |r: Result<Template, TemplateError>|
                decoded_template(version, commit, network_target, pool_target, pow_len, r);
            &&& decoded(Ok(t)) <==> decodes_to(version, t.version@) && decodes_to(
                commit,
                t.commit@,
            ) && decodes_to(network_target, t.network_target@) && decodes_to(
                pool_target,
                t.pool_target@,
            ) && decodes_to(pow_len, t.pow_len@)
            &&& decoded(Err(TemplateError::Version(e))) <==> hex_fault(version, e)
            &&& decoded(Err(TemplateError::Commit(e))) <==> valid_hex(version) && hex_fault(
                commit,
                e,
            )
            &&& decoded(Err(TemplateError::NetworkTarget(e))) <==> valid_hex(version) && valid_hex(
                commit,
            ) && hex_fault(network_target, e)
            &&& decoded(Err(TemplateError::PoolTarget(e))) <==> valid_hex(version) && valid_hex(
                commit,
            ) && valid_hex(network_target) && hex_fault(pool_target, e)
            &&& decoded(Err(TemplateError::PowLen(e))) <==> valid_hex(version) && valid_hex(commit)
                && valid_hex(network_target) && valid_hex(pool_target) && hex_fault(pow_len, e)
        }),
{
}

/// The sum of no times is zero, and each further time adds itself, wherever it
/// stands.
pub proof fn law_total_counts_every_time(times: Seq<u128>, time: u128, more: Seq<u128>)
    ensures
        total_of(Seq::<u128>::empty()) == 0,
        total_of(times.push(time)) == total_of(times) + time,
        total_of(times + more) == total_of(times) + total_of(more),
    decreases more.len(),
{
    assert(times.push(time).drop_last() =~= times);
    if more.len() == 0 {
        assert(times + more =~= times);
    } else {
        law_total_counts_every_time(times, time, more.drop_last());
        assert((times + more).drop_last() =~= times + more.drop_last());
    }
}

/// The shortest time is one of the times and at most each of them, and the
/// longest is one of them and at least each.
pub proof fn law_extremes_are_times(times: Seq<u128>, time: u128)
    ensures
        is_shortest(times, time) <==> times.contains(time) && forall|i: int|
            0 <= i < times.len() ==> time <= #[trigger] times[i],
        is_longest(times, time) <==> times.contains(time) && forall|i: int|
            0 <= i < times.len() ==> #[trigger] times[i] <= time,
{
    if forall|i: int| 0 <= i < times.len() ==> time <= #[trigger] times[i] {
        assert forall|i: int| 0 <= i < times.len() implies time <= times[i] by {}
    }
    if forall|i: int| 0 <= i < times.len() ==> #[trigger] times[i] <= time {
        assert forall|i: int| 0 <= i < times.len() implies times[i] <= time by {}
    }
}

/// A thread is done when it has made as many proofs as it was to make. Its work
/// can then be recorded once, for a thread of the benchmark, if its times add
/// up to a duration.
pub proof fn law_finished_threads_are_recorded_once(state: BenchmarkView, run: ThreadRunView)
    ensures
        run.valid() <==> run.times.len() <= run.proofs,
        run.done() <==> run.times.len() == run.proofs,
        state.can_record(run) <==> {
            &&& run.times.len() == run.proofs
            &&& run.proofs == state.proofs
            &&& run.thread < state.num_threads
            &&& !state.finished.contains(run.thread)
            &&& total_of(run.times) <= 18446744073709551615999999999
        },
        !state.after(run).can_record(run),
{
    let now = state.after(run);
    assert(now.finished[state.finished.len() as int] == run.thread);
    assert(now.finished.contains(run.thread));
}

/// Recording the work of a thread adds its number and the sum of its times
/// behind the others, and changes nothing else.
pub proof fn law_recording_adds_one_thread(state: BenchmarkView, run: ThreadRunView)
    requires
        total_of(run.times) <= MAX_DURATION,
    ensures
        ({
            let now = state.after(run);
            let n = state.thread_times.len() as int;
            &&& now.num_threads == state.num_threads
            &&& now.proofs == state.proofs
            &&& now.template == state.template
            &&& now.finished == state.finished.push(run.thread)
            &&& now.thread_times.len() == n + 1
            &&& now.thread_times.drop_last() == state.thread_times
            &&& now.thread_times[n] == total_of(run.times)
        }),
{
    assert(state.after(run).thread_times.drop_last() =~= state.thread_times);
}

/// The proofs are counted for the threads that have finished. A summary exists
/// exactly when they can be counted in 32 bits and divided by and the times
/// add up to a duration, or when no thread has finished.
pub proof fn law_summaries_that_exist(state: BenchmarkView)
    ensures
        state.total_proofs() == state.thread_times.len() * state.proofs,
        state.can_summarize() <==> state.thread_times.len() == 0 || {
            &&& 0 < state.thread_times.len() * state.proofs <= 4294967295
            &&& total_of(state.thread_times) <= 18446744073709551615999999999
        },
        state.valid() <==> {
            &&& state.finished.no_duplicates()
            &&& forall|i: int|
                0 <= i < state.finished.len() ==> #[trigger] state.finished[i] < state.num_threads
            &&& state.thread_times.len() == state.finished.len()
        },
{
}

/// What each number of a summary is: the threads that were started and the
/// proofs that each was to make, the proofs of the threads that finished, the
/// time on the clock for each of these proofs, the threads' times on average,
/// at least, at most and together, and the time on the clock.
pub proof fn law_summary_numbers(state: BenchmarkView, wall_time: u128, summary: Summary)
    requires
        summarizes(state, wall_time, summary),
    ensures
        summary.threads == state.num_threads,
        summary.proofs_per_thread == state.proofs,
        summary.total_proofs == state.thread_times.len() * state.proofs,
        summary.average_time_per_proof == wall_time as nat / (state.thread_times.len()
            * state.proofs),
        summary.average_time_per_thread == total_of(state.thread_times) / state.thread_times.len(),
        state.thread_times.contains(summary.min_thread_time),
        state.thread_times.contains(summary.max_thread_time),
        forall|i: int|
            0 <= i < state.thread_times.len() ==> summary.min_thread_time
                <= #[trigger] state.thread_times[i] <= summary.max_thread_time,
        summary.total_time_all_threads == total_of(state.thread_times),
        summary.total_benchmark_time == wall_time,
{
}

/// There is only one summary of a benchmark.
pub proof fn law_summary_is_determined(
    state: BenchmarkView,
    wall_time: u128,
    summary: Summary,
    other: Summary,
)
    requires
        summarizes(state, wall_time, summary),
        summarizes(state, wall_time, other),
    ensures
        summary == other,
{
}

} // verus!
