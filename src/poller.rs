//! The polling actor's decisions: the watch list it owns, what each command
//! does to it, and which snapshots a tick emits.
use vstd::prelude::*;

use crate::fetcher::{FetchError, Pr};

verus! {

/// A command to the polling actor.
#[derive(Debug, Clone, Copy, PartialEq, Eq)]
pub enum Command {
    AddPr(u64),
    RemovePr(u64),
    ClearPrs,
    Tick,
}

/// What the actor's loop does after a command.
#[derive(Debug)]
pub enum PollerAction {
    /// Queue a tick, so that the display soon reflects the change.
    ScheduleTick,
    /// Fetch the status of each of these pull requests, then emit the snapshots.
    FetchAll(Vec<u64>),
}

/// Keeps every number but `n`.
pub open spec fn other_than(n: u64) -> spec_fn(u64) -> bool {
    |x: u64| x != n
}

/// The watch list after `cmd`. Numbers are unique: adding one already watched
/// changes nothing, and removing one removes it wherever it stands.
pub open spec fn watch_after(watched: Seq<u64>, cmd: Command) -> Seq<u64> {
    match cmd {
        Command::AddPr(n) => if watched.contains(n) {
            watched
        } else {
            watched.push(n)
        },
        Command::RemovePr(n) => watched.filter(other_than(n)),
        Command::ClearPrs => Seq::empty(),
        Command::Tick => watched,
    }
}

/// The pull requests whose status `cmd` fetches: all watched ones on a tick,
/// none otherwise.
pub open spec fn fetch_targets(watched: Seq<u64>, cmd: Command) -> Option<Seq<u64>> {
    match cmd {
        Command::Tick => Some(watched),
        _ => None,
    }
}

/// The snapshots that a tick emits: those of the fetches that succeeded, in
/// the order their results came; a failed fetch leaves no trace.
pub open spec fn snapshots_of(results: Seq<Result<Pr, FetchError>>) -> Seq<Pr>
    decreases results.len(),
{
    if results.len() == 0 {
        Seq::empty()
    } else {
        let rest = snapshots_of(results.drop_last());
        match results.last() {
            Ok(pr) => rest.push(pr),
            Err(_) => rest,
        }
    }
}

/// The state the polling actor owns: the numbers of the watched pull requests.
pub struct Poller {
    prs: Vec<u64>,
}

impl View for Poller {
    type V = Seq<u64>;

    closed spec fn view(&self) -> Seq<u64> {
        self.prs@
    }
}

proof fn lemma_filter_keeps_unique(s: Seq<u64>, n: u64)
    requires
        s.no_duplicates(),
    ensures
        s.filter(other_than(n)).no_duplicates(),
        forall|x: u64| s.filter(other_than(n)).contains(x) ==> s.contains(x),
    decreases s.len(),
{
    reveal(Seq::filter);
    if s.len() > 0 {
        let rest = s.drop_last();
        assert forall|i: int, j: int| 0 <= i < rest.len() && 0 <= j < rest.len() && i != j implies rest[i]
            != rest[j] by {
            assert(rest[i] == s[i] && rest[j] == s[j]);
        }
        lemma_filter_keeps_unique(rest, n);
        let kept = rest.filter(other_than(n));
        if other_than(n)(s.last()) {
            assert forall|x: u64| kept.contains(x) implies x != s.last() by {
                assert(rest.contains(x));
                let k = choose|k: int| 0 <= k < rest.len() && rest[k] == x;
                assert(s[k] == x);
                assert(s[s.len() - 1] == s.last());
            }
            let out = kept.push(s.last());
            assert forall|i: int, j: int| 0 <= i < out.len() && 0 <= j < out.len() && i != j implies out[i]
                != out[j] by {
                if i < kept.len() && j < kept.len() {
                    assert(out[i] == kept[i] && out[j] == kept[j]);
                } else if i < kept.len() {
                    assert(out[i] == kept[i]);
                    assert(kept.contains(kept[i]));
                } else {
                    assert(out[j] == kept[j]);
                    assert(kept.contains(kept[j]));
                }
            }
        }
        assert forall|x: u64| s.filter(other_than(n)).contains(x) implies s.contains(x) by {
            if kept.contains(x) {
                assert(rest.contains(x));
                let k = choose|k: int| 0 <= k < rest.len() && rest[k] == x;
                assert(s[k] == x);
            } else {
                assert(x == s.last());
                assert(s[s.len() - 1] == x);
            }
        }
    }
}

/// Filtering out a number that a list does not hold leaves the list as it is.
proof fn lemma_filter_absent(s: Seq<u64>, n: u64)
    requires
        !s.contains(n),
    ensures
        s.filter(other_than(n)) == s,
    decreases s.len(),
{
    reveal(Seq::filter);
    if s.len() > 0 {
        let rest = s.drop_last();
        assert(!rest.contains(n)) by {
            if rest.contains(n) {
                let k = choose|k: int| 0 <= k < rest.len() && rest[k] == n;
                assert(s[k] == n);
            }
        }
        lemma_filter_absent(rest, n);
        assert(s.last() == s[s.len() - 1]);
        assert(rest.push(s.last()) =~= s);
    }
}

impl Poller {
    #[verifier::type_invariant]
    spec fn unique(&self) -> bool {
        self.prs@.no_duplicates()
    }

    /// An actor that watches nothing yet.
    pub fn new() -> (r: Poller)
        ensures
            r@ == Seq::<u64>::empty(),
    {
        Poller { prs: Vec::new() }
    }

    /// The numbers of the watched pull requests, in the order they were added.
    pub fn prs(&self) -> (r: &Vec<u64>)
        ensures
            r@ == self@,
            r@.no_duplicates(),
    {
        proof {
            use_type_invariant(self);
        }
        &self.prs
    }

    /// Applies `cmd` to the watch list and says what the actor does next: a
    /// change schedules a tick, and a tick fetches every watched pull request.
    pub fn handle_command(&mut self, cmd: Command) -> (a: PollerAction)
        ensures
            final(self)@ == watch_after(old(self)@, cmd),
            match fetch_targets(old(self)@, cmd) {
                Some(targets) => a matches PollerAction::FetchAll(v) && v@ == targets,
                None => a is ScheduleTick,
            },
    {
        proof {
            use_type_invariant(&*self);
        }
        match cmd {
            Command::AddPr(number) => {
                let mut found = false;
                let mut i: usize = 0;
                while i < self.prs.len()
                    invariant
                        i <= self.prs@.len(),
                        found == self.prs@.take(i as int).contains(number),
                    decreases self.prs@.len() - i,
                {
                    proof {
                        let prefix = self.prs@.take(i + 1);
                        assert(prefix.drop_last() =~= self.prs@.take(i as int));
                        assert(prefix[i as int] == self.prs@[i as int]);
                        if prefix.contains(number) && !self.prs@.take(i as int).contains(number) {
                            let k = choose|k: int| 0 <= k < prefix.len() && prefix[k] == number;
                            if k < i {
                                assert(self.prs@.take(i as int)[k] == number);
                            }
                        }
                    }
                    if self.prs[i] == number {
                        found = true;
                    }
                    i = i + 1;
                }
                assert(self.prs@.take(i as int) =~= self.prs@);
                if !found {
                    let mut prs = Vec::new();
                    std::mem::swap(&mut prs, &mut self.prs);
                    prs.push(number);
                    *self = Poller { prs };
                }
                PollerAction::ScheduleTick
            },
            Command::RemovePr(number) => {
                let mut kept: Vec<u64> = Vec::new();
                let mut i: usize = 0;
                while i < self.prs.len()
                    invariant
                        i <= self.prs@.len(),
                        kept@ == self.prs@.take(i as int).filter(other_than(number)),
                    decreases self.prs@.len() - i,
                {
                    proof {
                        reveal(Seq::filter);
                        assert(self.prs@.take(i + 1).drop_last() =~= self.prs@.take(i as int));
                    }
                    if self.prs[i] != number {
                        kept.push(self.prs[i]);
                    }
                    i = i + 1;
                }
                assert(self.prs@.take(i as int) =~= self.prs@);
                proof {
                    lemma_filter_keeps_unique(self.prs@, number);
                }
                *self = Poller { prs: kept };
                PollerAction::ScheduleTick
            },
            Command::ClearPrs => {
                *self = Poller { prs: Vec::new() };
                PollerAction::ScheduleTick
            },
            Command::Tick => PollerAction::FetchAll(self.prs.clone()),
        }
    }
}

/// Gathers the snapshots of one tick from the results of its fetches.
pub fn collect_snapshots(results: Vec<Result<Pr, FetchError>>) -> (r: Vec<Pr>)
    ensures
        r@ == snapshots_of(results@),
{
    let mut pending = results;
    let ghost all = pending@;
    let count = pending.len();
    let mut reversed: Vec<Result<Pr, FetchError>> = Vec::new();
    while pending.len() > 0
        invariant
            all == pending@ + reversed@.reverse(),
        decreases pending@.len(),
    {
        let ghost before = pending@;
        let last = pending.pop().unwrap();
        assert(before == pending@.push(last));
        let ghost rev_before = reversed@;
        reversed.push(last);
        assert(reversed@.reverse() =~= seq![last] + rev_before.reverse());
        assert(all =~= pending@ + reversed@.reverse());
    }
    let mut out: Vec<Pr> = Vec::new();
    let ghost ordered = reversed@.reverse();
    assert(ordered =~= all);
    let mut n: usize = 0;
    while reversed.len() > 0
        invariant
            n + reversed@.len() == all.len(),
            all.len() == count,
            reversed@.reverse() =~= all.subrange(n as int, all.len() as int),
            out@ == snapshots_of(all.take(n as int)),
        decreases reversed@.len(),
    {
        let ghost before = reversed@;
        let next = reversed.pop().unwrap();
        proof {
            assert(before == reversed@.push(next));
            assert(before.reverse()[0] == next);
            assert(all[n as int] == all.subrange(n as int, all.len() as int)[0]);
            assert(all.take(n + 1).drop_last() =~= all.take(n as int));
            assert(all.take(n + 1).last() == all[n as int]);
            assert(reversed@.reverse() =~= before.reverse().subrange(1, before.len() as int));
        }
        match next {
            Ok(pr) => out.push(pr),
            Err(_) => {},
        }
        n = n + 1;
    }
    assert(all.take(n as int) =~= all);
    out
}

/// Adding a pull request and removing it again before any tick leaves the
/// watch list as it was, provided it was not watched before.
pub proof fn lemma_add_then_remove(watched: Seq<u64>, n: u64)
    requires
        !watched.contains(n),
    ensures
        watch_after(watch_after(watched, Command::AddPr(n)), Command::RemovePr(n)) == watched,
{
    reveal(Seq::filter);
    let added = watched.push(n);
    assert(added.drop_last() =~= watched);
    lemma_filter_absent(watched, n);
}

/// After a clear nothing is watched, and the next tick, which yields one
/// result per pull request it fetches, fetches nothing and emits no snapshot.
pub proof fn lemma_clear_then_tick(watched: Seq<u64>, results: Seq<Result<Pr, FetchError>>)
    requires
        results.len() == watch_after(watched, Command::ClearPrs).len(),
    ensures
        watch_after(watched, Command::ClearPrs) == Seq::<u64>::empty(),
        fetch_targets(watch_after(watched, Command::ClearPrs), Command::Tick) == Some(
            Seq::<u64>::empty(),
        ),
        snapshots_of(results) == Seq::<Pr>::empty(),
{
}

/// A tick's snapshots are exactly the successful results: each success is
/// emitted unchanged, and nothing is emitted that no fetch returned.
pub proof fn lemma_tick_isolation(results: Seq<Result<Pr, FetchError>>)
    ensures
        forall|i: int|
            0 <= i < results.len() && (#[trigger] results[i]) is Ok ==> snapshots_of(results).contains(
                results[i]->Ok_0,
            ),
        forall|k: int|
            0 <= k < snapshots_of(results).len() ==> exists|i: int|
                0 <= i < results.len() && #[trigger] results[i] == Ok::<Pr, FetchError>(
                    #[trigger] snapshots_of(results)[k],
                ),
    decreases results.len(),
{
    if results.len() > 0 {
        let rest = results.drop_last();
        lemma_tick_isolation(rest);
        let before = snapshots_of(rest);
        let after = snapshots_of(results);
        assert forall|i: int| 0 <= i < results.len() && (#[trigger] results[i]) is Ok implies after.contains(
            results[i]->Ok_0,
        ) by {
            if i < results.len() - 1 {
                assert(rest[i] == results[i]);
                let k = choose|k: int| 0 <= k < before.len() && before[k] == results[i]->Ok_0;
                assert(after[k] == before[k]);
            } else {
                assert(results.last() == results[i]);
                assert(after[after.len() - 1] == results[i]->Ok_0);
            }
        }
        assert forall|k: int| 0 <= k < after.len() implies exists|i: int|
            0 <= i < results.len() && #[trigger] results[i] == Ok::<Pr, FetchError>(
                #[trigger] after[k],
            ) by {
            if k < before.len() {
                assert(after[k] == before[k]);
                let i = choose|i: int| 0 <= i < rest.len() && rest[i] == Ok::<Pr, FetchError>(before[k]);
                assert(results[i] == rest[i]);
            } else {
                assert(results[results.len() - 1] == results.last());
            }
        }
    }
}

} // verus!
