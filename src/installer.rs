//! Decisions of the concurrent installer.
//!
//! The driver owns one `Installer` for a run. It asks `next_task` for work
//! while permits are free, resolves each task's (name, spec) pair, reports the
//! resolved version through `claim`, fetches when told to, and reports the end
//! of each task through `finish` or `abandon`. The installer records which
//! install keys were processed, so that a version reached through several
//! dependents is fetched at most once, and never hands out more tasks than
//! the concurrency limit.
use vstd::prelude::*;
use vstd::string::*;

verus! {

/// The install key of a resolved version: `name@version`.
pub open spec fn key_text(name: Seq<char>, version: Seq<char>) -> Seq<char> {
    name + seq!['@'] + version
}

/// Builds the install key `name@version`.
pub fn install_key(name: &str, version: &str) -> (r: String)
    ensures
        r@ == key_text(name@, version@),
{
    let mut key = String::from_str(name);
    key.append("@");
    key.append(version);
    proof {
        reveal_strlit("@");
    }
    key
}

/// Number of tasks allowed in flight: the detected parallelism (8 when it
/// cannot be detected), and never fewer than 4.
pub fn concurrency_limit(parallelism: Option<usize>) -> (r: usize)
    ensures
        r == (match parallelism {
            Some(p) => if p > 4 { p } else { 4 },
            None => 8,
        }),
        r >= 4,
{
    match parallelism {
        Some(p) => if p > 4 { p } else { 4 },
        None => 8,
    }
}

/// What a task does once its version is resolved.
#[derive(Clone, Copy, Debug, PartialEq, Eq, Structural)]
pub enum Step {
    /// The install key was already processed in this run: the task ends and
    /// reports no dependencies.
    Duplicate,
    /// The destination already exists: no fetch; dependencies are reported.
    AlreadyInstalled,
    /// The archive is fetched and extracted; dependencies are reported.
    Fetch,
}

/// State of one installer run.
pub struct Installer {
    processed: Vec<String>,
    frontier: Vec<(String, String)>,
    in_flight: usize,
    limit: usize,
    failed: Vec<(String, String)>,
    fetched: Ghost<Seq<Seq<char>>>,
}

pub open spec fn pair_view(p: (String, String)) -> (Seq<char>, Seq<char>) {
    (p.0@, p.1@)
}

impl Installer {
    /// Install keys processed so far in this run.
    pub closed spec fn processed_keys(&self) -> Seq<Seq<char>> {
        self.processed@.map_values(|s: String| s@)
    }

    /// (name, spec) pairs waiting for a permit, oldest first.
    pub closed spec fn pending(&self) -> Seq<(Seq<char>, Seq<char>)> {
        self.frontier@.map_values(|p: (String, String)| pair_view(p))
    }

    /// Tasks handed out and not yet finished or abandoned.
    pub closed spec fn in_flight(&self) -> nat {
        self.in_flight as nat
    }

    /// Most tasks that may be in flight at once.
    pub closed spec fn limit(&self) -> nat {
        self.limit as nat
    }

    /// (name, spec) pairs whose task failed, in order of failure.
    pub closed spec fn failures(&self) -> Seq<(Seq<char>, Seq<char>)> {
        self.failed@.map_values(|p: (String, String)| pair_view(p))
    }

    /// Install keys for which a fetch was ordered, in order.
    pub closed spec fn fetch_log(&self) -> Seq<Seq<char>> {
        self.fetched@
    }

    pub closed spec fn wf(&self) -> bool {
        &&& 1 <= self.limit
        &&& self.in_flight <= self.limit
        &&& self.processed_keys().no_duplicates()
        &&& self.fetched@.no_duplicates()
        &&& forall|k: Seq<char>| #[trigger] self.fetched@.contains(k) ==> self.processed_keys().contains(k)
    }

    /// Starts a run from the root (name, spec) pairs.
    pub fn new(limit: usize, roots: Vec<(String, String)>) -> (r: Installer)
        requires
            limit >= 1,
        ensures
            r.wf(),
            r.limit() == limit,
            r.in_flight() == 0,
            r.pending() == roots@.map_values(|p: (String, String)| pair_view(p)),
            r.processed_keys().len() == 0,
            r.fetch_log().len() == 0,
            r.failures().len() == 0,
    {
        let r = Installer {
            processed: Vec::new(),
            frontier: roots,
            in_flight: 0,
            limit,
            failed: Vec::new(),
            fetched: Ghost(Seq::empty()),
        };
        assert(r.processed_keys() =~= Seq::<Seq<char>>::empty());
        assert(r.failures() =~= Seq::<(Seq<char>, Seq<char>)>::empty());
        r
    }

    /// Hands out the oldest pending pair when a permit is free.
    pub fn next_task(&mut self) -> (r: Option<(String, String)>)
        requires
            old(self).wf(),
        ensures
            final(self).wf(),
            final(self).limit() == old(self).limit(),
            final(self).processed_keys() == old(self).processed_keys(),
            final(self).fetch_log() == old(self).fetch_log(),
            final(self).failures() == old(self).failures(),
            r is None <==> (old(self).in_flight() >= old(self).limit()
                || old(self).pending().len() == 0),
            r is None ==> *final(self) == *old(self),
            r is Some ==> pair_view(r->0) == old(self).pending()[0]
                && final(self).pending() == old(self).pending().drop_first()
                && final(self).in_flight() == old(self).in_flight() + 1,
    {
        if self.in_flight >= self.limit || self.frontier.len() == 0 {
            return None;
        }
        let ghost before = self.frontier@;
        let t = self.frontier.remove(0);
        self.in_flight = self.in_flight + 1;
        assert(self.pending() =~= old(self).pending().drop_first());
        assert(pair_view(before[0]) == old(self).pending()[0]);
        Some(t)
    }

    /// Whether an install key was processed in this run.
    fn seen(&self, key: &String) -> (r: bool)
        ensures
            r == self.processed_keys().contains(key@),
    {
        let n = self.processed.len();
        let mut i: usize = 0;
        while i < n
            invariant
                n == self.processed@.len(),
                i <= n,
                forall|k: int| 0 <= k < i ==> self.processed@[k]@ != key@,
            decreases n - i,
        {
            if self.processed[i] == *key {
                assert(self.processed_keys()[i as int] == key@);
                return true;
            }
            i = i + 1;
        }
        assert forall|k: int| 0 <= k < self.processed_keys().len() implies self.processed_keys()[k]
            != key@ by {}
        false
    }

    /// Records a task's resolved version and decides what the task does.
    ///
    /// The test of the processed set and the insertion of the key are one
    /// step: a second task that resolves to the same name and version gets
    /// `Duplicate`.
    pub fn claim(&mut self, name: &str, version: &str, dest_exists: bool) -> (r: Step)
        requires
            old(self).wf(),
        ensures
            final(self).wf(),
            final(self).limit() == old(self).limit(),
            final(self).in_flight() == old(self).in_flight(),
            final(self).pending() == old(self).pending(),
            final(self).failures() == old(self).failures(),
            old(self).processed_keys().contains(key_text(name@, version@)) ==> r == Step::Duplicate
                && final(self).processed_keys() == old(self).processed_keys()
                && final(self).fetch_log() == old(self).fetch_log(),
            !old(self).processed_keys().contains(key_text(name@, version@))
                ==> final(self).processed_keys() == old(self).processed_keys().push(
                key_text(name@, version@),
            ),
            !old(self).processed_keys().contains(key_text(name@, version@)) && dest_exists ==> r
                == Step::AlreadyInstalled && final(self).fetch_log() == old(self).fetch_log(),
            !old(self).processed_keys().contains(key_text(name@, version@)) && !dest_exists ==> r
                == Step::Fetch && final(self).fetch_log() == old(self).fetch_log().push(
                key_text(name@, version@),
            ),
    {
        let key = install_key(name, version);
        if self.seen(&key) {
            return Step::Duplicate;
        }
        let ghost k = key@;
        self.processed.push(key);
        assert(self.processed_keys() =~= old(self).processed_keys().push(k));
        proof {
            assert forall|x: Seq<char>| #[trigger]
                self.processed_keys().contains(x) implies old(self).processed_keys().contains(x)
                || x == k by {
                let j = choose|j: int| 0 <= j < self.processed_keys().len() && self.processed_keys()[j] == x;
                if j < old(self).processed_keys().len() {
                    assert(old(self).processed_keys()[j] == x);
                }
            }
            assert(self.processed_keys().contains(k)) by {
                assert(self.processed_keys()[self.processed_keys().len() - 1] == k);
            }
            assert forall|x: Seq<char>| #[trigger] old(self).processed_keys().contains(x)
                implies self.processed_keys().contains(x) by {
                let j = choose|j: int| 0 <= j < old(self).processed_keys().len() && old(self).processed_keys()[j] == x;
                assert(self.processed_keys()[j] == x);
            }
        }
        if dest_exists {
            Step::AlreadyInstalled
        } else {
            let ghost log = self.fetched@;
            self.fetched = Ghost(log.push(k));
            proof {
                assert(!log.contains(k));
                assert forall|x: Seq<char>| #[trigger] self.fetched@.contains(x) implies x == k
                    || log.contains(x) by {
                    let j = choose|j: int| 0 <= j < self.fetched@.len() && self.fetched@[j] == x;
                    if j < log.len() {
                        assert(log[j] == x);
                    }
                }
                assert(self.fetched@[log.len() as int] == k);
            }
            Step::Fetch
        }
    }

    /// Ends a task that completed: its permit is released and the
    /// dependencies it reported join the pending pairs.
    pub fn finish(&mut self, deps: Vec<(String, String)>)
        requires
            old(self).wf(),
            old(self).in_flight() > 0,
        ensures
            final(self).wf(),
            final(self).limit() == old(self).limit(),
            final(self).in_flight() == old(self).in_flight() - 1,
            final(self).processed_keys() == old(self).processed_keys(),
            final(self).fetch_log() == old(self).fetch_log(),
            final(self).failures() == old(self).failures(),
            final(self).pending() == old(self).pending() + deps@.map_values(
                |p: (String, String)| pair_view(p),
            ),
    {
        let mut deps = deps;
        let ghost added = deps@;
        self.frontier.append(&mut deps);
        self.in_flight = self.in_flight - 1;
        assert(self.pending() =~= old(self).pending() + added.map_values(
            |p: (String, String)| pair_view(p),
        ));
    }

    /// Ends a task that failed: its permit is released and its (name, spec)
    /// pair is recorded as failed; the run goes on.
    pub fn abandon(&mut self, name: String, spec: String)
        requires
            old(self).wf(),
            old(self).in_flight() > 0,
        ensures
            final(self).wf(),
            final(self).limit() == old(self).limit(),
            final(self).in_flight() == old(self).in_flight() - 1,
            final(self).processed_keys() == old(self).processed_keys(),
            final(self).fetch_log() == old(self).fetch_log(),
            final(self).pending() == old(self).pending(),
            final(self).failures() == old(self).failures().push((name@, spec@)),
    {
        let ghost item = (name, spec);
        self.failed.push((name, spec));
        self.in_flight = self.in_flight - 1;
        assert(self.failures() =~= old(self).failures().push(pair_view(item)));
    }

    /// The (name, spec) pairs whose task failed.
    pub fn failed(&self) -> (r: &Vec<(String, String)>)
        ensures
            r@.map_values(|p: (String, String)| pair_view(p)) == self.failures(),
    {
        &self.failed
    }

    /// The run is over: nothing pending and nothing in flight.
    pub fn is_done(&self) -> (r: bool)
        ensures
            r == (self.pending().len() == 0 && self.in_flight() == 0),
    {
        self.frontier.len() == 0 && self.in_flight == 0
    }

    /// Whether a task is in flight.
    pub fn has_in_flight(&self) -> (r: bool)
        ensures
            r == (self.in_flight() > 0),
    {
        self.in_flight > 0
    }
}

/// Within one run, a fetch is ordered at most once for each install key,
/// however many dependents lead to it.
pub proof fn lemma_fetch_at_most_once(inst: &Installer, key: Seq<char>)
    requires
        inst.wf(),
    ensures
        forall|i: int, j: int|
            0 <= i < j < inst.fetch_log().len() && inst.fetch_log()[i] == key ==> inst.fetch_log()[j]
                != key,
{
}

/// No more tasks are in flight than the limit allows.
pub proof fn lemma_in_flight_bounded(inst: &Installer)
    requires
        inst.wf(),
    ensures
        inst.in_flight() <= inst.limit(),
{
}

} // verus!
