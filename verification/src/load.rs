//! The tally of one load run: what the benchmark keeps of each request's
//! outcome as the outcomes arrive.

use vstd::prelude::*;

verus! {

/// How many failures' messages a run keeps for its report.
pub const KEPT_ERRORS: usize = 3;

/// The outcomes of a load run so far.
#[derive(Debug)]
pub struct LoadTally {
    /// The latency of each successful request, in nanoseconds, in arrival order.
    pub latencies: Vec<u128>,
    /// The response bytes read by the successful requests.
    pub bytes: usize,
    /// How many requests failed.
    pub errors: usize,
    /// The messages of the first failures.
    pub first_errors: Vec<String>,
}

pub struct LoadTallyView {
    pub latencies: Seq<u128>,
    pub bytes: nat,
    pub errors: nat,
    pub first_errors: Seq<Seq<char>>,
}

impl View for LoadTally {
    type V = LoadTallyView;

    open spec fn view(&self) -> LoadTallyView {
        LoadTallyView {
            latencies: self.latencies@,
            bytes: self.bytes as nat,
            errors: self.errors as nat,
            first_errors: self.first_errors@.map_values(|s: String| s@),
        }
    }
}

/// The tally after one more outcome: a failure is counted and its message
/// kept while fewer than `KEPT_ERRORS` are; a success adds its latency and
/// its bytes.
pub open spec fn tally_after(
    t: LoadTallyView,
    latency: u128,
    bytes: nat,
    error: Option<Seq<char>>,
) -> LoadTallyView {
    match error {
        Some(e) => LoadTallyView {
            errors: t.errors + 1,
            first_errors: if t.first_errors.len() < KEPT_ERRORS {
                t.first_errors.push(e)
            } else {
                t.first_errors
            },
            ..t
        },
        None => LoadTallyView {
            latencies: t.latencies.push(latency),
            bytes: t.bytes + bytes,
            ..t
        },
    }
}

impl LoadTally {
    /// An empty tally.
    pub fn new() -> (t: LoadTally)
        ensures
            t@.latencies == Seq::<u128>::empty(),
            t@.bytes == 0,
            t@.errors == 0,
            t@.first_errors == Seq::<Seq<char>>::empty(),
    {
        let t = LoadTally {
            latencies: Vec::new(),
            bytes: 0,
            errors: 0,
            first_errors: Vec::new(),
        };
        assert(t@.first_errors =~= Seq::<Seq<char>>::empty());
        t
    }

    /// Records one request's outcome: its latency, the bytes it read, and
    /// its failure message if it failed. The counters must not overflow.
    pub fn record(&mut self, latency_nanos: u128, bytes: usize, error: Option<String>)
        requires
            error is Some ==> old(self)@.errors < usize::MAX,
            error is None ==> old(self)@.bytes + bytes <= usize::MAX,
        ensures
            final(self)@ == tally_after(
                old(self)@,
                latency_nanos,
                bytes as nat,
                match error {
                    Some(e) => Some(e@),
                    None => None,
                },
            ),
    {
        match error {
            Some(e) => {
                self.errors = self.errors + 1;
                if self.first_errors.len() < KEPT_ERRORS {
                    self.first_errors.push(e);
                }
            },
            None => {
                self.latencies.push(latency_nanos);
                self.bytes = self.bytes + bytes;
            },
        }
        assert(self@.first_errors =~= tally_after(
            old(self)@,
            latency_nanos,
            bytes as nat,
            match error {
                Some(e) => Some(e@),
                None => None,
            },
        ).first_errors);
    }
}

} // verus!
