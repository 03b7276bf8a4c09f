//! The benchmark's run procedure: for each round, for each proxy in turn,
//! start the proxy, then for each concurrency level run the warmup requests
//! (when there are any) and the measured requests, then stop the proxy; and
//! the checks between the steps.

use vstd::prelude::*;

use crate::config::{proxy_list, Config, ConfigView};

verus! {

/// One step of the benchmark.
#[derive(Debug, Clone, Copy, PartialEq, Eq, Structural)]
pub enum BenchStep {
    /// Start the proxy with this index in `Config::proxies` and wait until
    /// it accepts connections.
    StartProxy { proxy: usize },
    /// Run the warmup requests at this concurrency through the running proxy.
    Warmup { round: usize, proxy: usize, concurrency: usize },
    /// Run the measured requests at this concurrency and record the result.
    Measure { round: usize, proxy: usize, concurrency: usize },
    /// Stop the proxy with this index.
    StopProxy { proxy: usize },
}

/// What the poll of a starting proxy decides.
#[derive(Debug, Clone, Copy, PartialEq, Eq, Structural)]
pub enum ProbeStep {
    /// The proxy process has exited: give up.
    Exited,
    /// The proxy accepts connections: go on.
    Ready,
    /// The wait has lasted the whole timeout: give up.
    TimedOut,
    /// Wait a little and poll again.
    Retry,
}

/// The steps for one concurrency level.
pub open spec fn level_steps(warmup: usize, round: usize, proxy: usize, concurrency: usize) -> Seq<
    BenchStep,
> {
    let measure = BenchStep::Measure { round, proxy, concurrency };
    if warmup > 0 {
        seq![BenchStep::Warmup { round, proxy, concurrency }, measure]
    } else {
        seq![measure]
    }
}

/// The steps for the concurrency levels `levels`, in order.
pub open spec fn levels_steps(warmup: usize, round: usize, proxy: usize, levels: Seq<usize>) -> Seq<
    BenchStep,
>
    decreases levels.len(),
{
    if levels.len() == 0 {
        seq![]
    } else {
        levels_steps(warmup, round, proxy, levels.drop_last()) + level_steps(
            warmup,
            round,
            proxy,
            levels.last(),
        )
    }
}

/// The steps for one proxy in one round: start it, every level, stop it.
pub open spec fn proxy_steps(c: ConfigView, round: usize, proxy: usize) -> Seq<BenchStep> {
    seq![BenchStep::StartProxy { proxy }] + levels_steps(c.warmup, round, proxy, c.concurrency)
        + seq![BenchStep::StopProxy { proxy }]
}

/// The steps of one round for the first `n` proxies, in order.
pub open spec fn round_steps(c: ConfigView, round: usize, n: nat) -> Seq<BenchStep>
    decreases n,
{
    if n == 0 {
        seq![]
    } else {
        round_steps(c, round, (n - 1) as nat) + proxy_steps(c, round, (n - 1) as usize)
    }
}

/// The steps of rounds `1` to `r`, in order.
pub open spec fn rounds_steps(c: ConfigView, r: nat) -> Seq<BenchStep>
    decreases r,
{
    if r == 0 {
        seq![]
    } else {
        rounds_steps(c, (r - 1) as nat) + round_steps(c, r as usize, proxy_list(c).len())
    }
}

/// The whole benchmark: rounds `1` to `rounds`; in each, the proxies of
/// `proxy_list` in order; for each, the concurrency levels in order.
pub open spec fn bench_plan(c: ConfigView) -> Seq<BenchStep> {
    rounds_steps(c, c.rounds as nat)
}

/// What a poll decides: an exited proxy first, then a proxy that accepted
/// the connection, then the timeout.
pub open spec fn probe_result(exited: bool, connected: bool, elapsed: u128, timeout: u128) -> ProbeStep {
    if exited {
        ProbeStep::Exited
    } else if connected {
        ProbeStep::Ready
    } else if elapsed >= timeout {
        ProbeStep::TimedOut
    } else {
        ProbeStep::Retry
    }
}

fn push_levels(
    steps: &mut Vec<BenchStep>,
    warmup: usize,
    round: usize,
    proxy: usize,
    levels: &Vec<usize>,
)
    ensures
        final(steps)@ == old(steps)@ + levels_steps(warmup, round, proxy, levels@),
{
    let ghost start = steps@;
    let mut i: usize = 0;
    assert(levels@.subrange(0, 0) =~= seq![]);
    assert(steps@ =~= start + levels_steps(warmup, round, proxy, levels@.subrange(0, 0)));
    while i < levels.len()
        invariant
            0 <= i <= levels.len(),
            steps@ == start + levels_steps(warmup, round, proxy, levels@.subrange(0, i as int)),
        decreases levels.len() - i,
    {
        let concurrency = levels[i];
        let ghost prefix = levels@.subrange(0, i + 1);
        assert(prefix.drop_last() =~= levels@.subrange(0, i as int));
        assert(prefix.last() == concurrency);
        if warmup > 0 {
            steps.push(BenchStep::Warmup { round, proxy, concurrency });
        }
        steps.push(BenchStep::Measure { round, proxy, concurrency });
        i = i + 1;
        assert(steps@ =~= start + levels_steps(warmup, round, proxy, levels@.subrange(0, i as int)));
    }
    assert(levels@.subrange(0, levels@.len() as int) =~= levels@);
}

/// Every step of the benchmark for `config`, in the order to take them.
/// A `proxy` in a step is an index into `config.proxies()`.
pub fn bench_steps(config: &Config) -> (steps: Vec<BenchStep>)
    ensures
        steps@ == bench_plan(config@),
{
    let proxies = config.proxies();
    let proxy_count = proxies.len();
    proof {
        assert(proxies@.map_values(|p: crate::config::ProxyConfig| p@).len() == proxies@.len());
    }
    let mut steps: Vec<BenchStep> = Vec::new();
    let mut round: usize = 0;
    assert(steps@ =~= rounds_steps(config@, 0));
    while round < config.rounds
        invariant
            round <= config.rounds,
            proxy_count == proxy_list(config@).len(),
            steps@ == rounds_steps(config@, round as nat),
        decreases config.rounds - round,
    {
        round = round + 1;
        let ghost before = steps@;
        let mut proxy: usize = 0;
        assert(steps@ =~= before + round_steps(config@, round, 0));
        while proxy < proxy_count
            invariant
                1 <= round <= config.rounds,
                proxy <= proxy_count,
                before == rounds_steps(config@, (round - 1) as nat),
                steps@ == before + round_steps(config@, round, proxy as nat),
            decreases proxy_count - proxy,
        {
            let ghost inner = steps@;
            steps.push(BenchStep::StartProxy { proxy });
            push_levels(&mut steps, config.warmup, round, proxy, &config.concurrency);
            steps.push(BenchStep::StopProxy { proxy });
            assert(steps@ =~= inner + proxy_steps(config@, round, proxy));
            proxy = proxy + 1;
            assert(steps@ =~= before + round_steps(config@, round, proxy as nat));
        }
        assert(steps@ == rounds_steps(config@, round as nat));
    }
    steps
}

/// Whether the measured run may follow the warmup: there was no warmup, or
/// none of its requests failed.
pub fn warmup_passed(warmup: usize, warmup_errors: usize) -> (go_on: bool)
    ensures
        go_on == (warmup == 0 || warmup_errors == 0),
{
    warmup == 0 || warmup_errors == 0
}

/// Decides what to do after one poll of a starting proxy, given whether the
/// process has exited, whether a connection to it succeeded, and how long the
/// wait has lasted against the timeout (both in nanoseconds).
pub fn probe_step(exited: bool, connected: bool, elapsed_nanos: u128, timeout_nanos: u128) -> (step:
    ProbeStep)
    ensures
        step == probe_result(exited, connected, elapsed_nanos, timeout_nanos),
{
    if exited {
        ProbeStep::Exited
    } else if connected {
        ProbeStep::Ready
    } else if elapsed_nanos >= timeout_nanos {
        ProbeStep::TimedOut
    } else {
        ProbeStep::Retry
    }
}

} // verus!
