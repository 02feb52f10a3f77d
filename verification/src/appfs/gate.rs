//! When a file that an agent writes is taken as a submission: once it has kept
//! still for a while, and never twice for the same contents.

use crate::strmap::StrMap;
use crate::text;
use vstd::prelude::*;

verus! {

/// How long a file has to keep still, in nanoseconds.
pub const SUBMIT_STABLE_NS: u64 = 1_100_000_000;

/// How long a file is closed to writers after a submission, in nanoseconds.
pub const ACTION_COOLDOWN_NS: u64 = 1_500_000_000;

/// What tells one state of a file from another: its length and when it was
/// last written.
#[derive(Debug, Clone, Copy, PartialEq, Eq, Structural)]
pub struct ActionFingerprint {
    pub len: u64,
    pub modified_ns: u128,
}

/// A state of a file that is waiting to keep still, and since when.
#[derive(Debug, Clone, Copy, PartialEq, Eq, Structural)]
pub struct PendingSubmit {
    pub fingerprint: ActionFingerprint,
    pub first_seen_ns: u64,
}

/// The barrier in front of the action files. Times are nanoseconds of a clock that
/// never goes back.
pub struct SubmitGate {
    last: StrMap<ActionFingerprint>,
    pending: StrMap<PendingSubmit>,
    blocked: StrMap<u64>,
}

/// What the barrier remembers: the state of each file that was last dealt with,
/// the states that are waiting, and until when files are closed.
#[verifier::ext_equal]
pub struct GateView {
    pub last: Map<Seq<char>, ActionFingerprint>,
    pub pending: Map<Seq<char>, PendingSubmit>,
    pub blocked: Map<Seq<char>, u64>,
}

/// What an observation of a file calls for.
#[derive(Debug, Clone, Copy, PartialEq, Eq, Structural)]
pub enum Observation {
    Unchanged,
    Waiting,
    Ready,
}

/// How a file in the state `fp` stands at `now`.
pub open spec fn standing(
    gate: GateView,
    path: Seq<char>,
    fp: ActionFingerprint,
    now: u64,
) -> Observation {
    if gate.last.contains_pair(path, fp) {
        Observation::Unchanged
    } else if gate.pending.contains_key(path) && gate.pending[path].fingerprint == fp && now
        - gate.pending[path].first_seen_ns >= SUBMIT_STABLE_NS {
        Observation::Ready
    } else {
        Observation::Waiting
    }
}

/// The barrier once a file has been seen in the state `fp`.
pub open spec fn observed(
    gate: GateView,
    path: Seq<char>,
    fp: ActionFingerprint,
    now: u64,
) -> GateView {
    match standing(gate, path, fp, now) {
        Observation::Waiting => if gate.pending.contains_key(path)
            && gate.pending[path].fingerprint == fp {
            gate
        } else {
            GateView {
                pending: gate.pending.insert(
                    path,
                    PendingSubmit { fingerprint: fp, first_seen_ns: now },
                ),
                ..gate
            }
        },
        _ => GateView { pending: gate.pending.remove(path), ..gate },
    }
}

/// The barrier once the state `fp` of a file has been dealt with.
pub open spec fn remembered(gate: GateView, path: Seq<char>, fp: ActionFingerprint) -> GateView {
    GateView { last: gate.last.insert(path, fp), ..gate }
}

/// The barrier once only the files in `seen` are left.
pub open spec fn only_seen(gate: GateView, seen: Set<Seq<char>>) -> GateView {
    GateView {
        last: gate.last.restrict(seen),
        pending: gate.pending.restrict(seen),
        blocked: gate.blocked,
    }
}

/// The files whose time is up at `now`.
pub open spec fn due(gate: GateView, path: Seq<char>, now: u64) -> bool {
    gate.blocked.contains_key(path) && now >= gate.blocked[path]
}

impl View for SubmitGate {
    type V = GateView;

    closed spec fn view(&self) -> GateView {
        GateView { last: self.last@, pending: self.pending@, blocked: self.blocked@ }
    }
}

impl SubmitGate {
    /// A barrier that has seen nothing.
    pub fn new() -> (r: Self)
        ensures
            r@ == (GateView {
                last: Map::empty(),
                pending: Map::empty(),
                blocked: Map::empty(),
            }),
    {
        SubmitGate { last: StrMap::new(), pending: StrMap::new(), blocked: StrMap::new() }
    }

    /// Takes note that the file at `path` is in the state `fp`, and says whether
    /// it is ready to be submitted.
    pub fn observe(&mut self, path: &str, fp: ActionFingerprint, now: u64) -> (r: Observation)
        ensures
            r == standing(old(self)@, path@, fp, now),
            final(self)@ == observed(old(self)@, path@, fp, now),
    {
        let unchanged = match self.last.get(path) {
            Some(l) => *l == fp,
            None => false,
        };
        if unchanged {
            let _ = self.pending.take(path);
            return Observation::Unchanged;
        }
        let waiting_since: Option<u64> = match self.pending.get(path) {
            Some(p) => if p.fingerprint == fp {
                Some(p.first_seen_ns)
            } else {
                None
            },
            None => None,
        };
        match waiting_since {
            Some(first) => if now >= first && now - first >= SUBMIT_STABLE_NS {
                let _ = self.pending.take(path);
                Observation::Ready
            } else {
                Observation::Waiting
            },
            None => {
                self.pending.insert(
                    path.to_owned(),
                    PendingSubmit { fingerprint: fp, first_seen_ns: now },
                );
                Observation::Waiting
            },
        }
    }

    /// Takes note that the state `fp` of the file at `path` has been dealt with.
    pub fn remember(&mut self, path: &str, fp: ActionFingerprint)
        ensures
            final(self)@ == remembered(old(self)@, path@, fp),
    {
        self.last.insert(path.to_owned(), fp);
    }

    /// Forgets the files that are not in `seen`.
    pub fn retain_seen(&mut self, seen: &Vec<String>)
        ensures
            final(self)@ == only_seen(old(self)@, text::views(seen@).to_set()),
    {
        self.last.retain_keys(seen);
        self.pending.retain_keys(seen);
    }

    /// Closes the file at `path` to writers for a while.
    pub fn enforce_submit_cooldown(&mut self, path: &str, now: u64)
        requires
            now <= u64::MAX - ACTION_COOLDOWN_NS,
        ensures
            final(self)@ == (GateView {
                blocked: old(self)@.blocked.insert(path@, (now + ACTION_COOLDOWN_NS) as u64),
                ..old(self)@
            }),
    {
        self.blocked.insert(path.to_owned(), now + ACTION_COOLDOWN_NS);
    }

    /// Opens the files whose time is up, and says which these are.
    pub fn restore_blocked_actions(&mut self, now: u64) -> (r: Vec<String>)
        ensures
            forall|path: Seq<char>|
                #[trigger] text::views(r@).contains(path) <==> due(old(self)@, path, now),
            text::views(r@).no_duplicates(),
            final(self)@ == (GateView {
                blocked: old(self)@.blocked.remove_keys(text::views(r@).to_set()),
                ..old(self)@
            }),
    {
        let ghost start = self@;
        let keys = self.blocked.keys();
        let ghost kv = text::views(keys@);
        let mut out: Vec<String> = Vec::new();
        let mut i: usize = 0;
        proof {
            assert(text::views(out@).to_set() =~= Set::<Seq<char>>::empty());
            assert(start.blocked.remove_keys(Set::<Seq<char>>::empty()) =~= start.blocked);
        }
        while i < keys.len()
            invariant
                i <= keys@.len(),
                kv == text::views(keys@),
                kv.no_duplicates(),
                forall|k: Seq<char>| start.blocked.contains_key(k) <==> #[trigger] kv.contains(k),
                forall|p: Seq<char>|
                    #[trigger] text::views(out@).contains(p) <==> (due(start, p, now)
                        && kv.take(i as int).contains(p)),
                text::views(out@).no_duplicates(),
                self@.last == start.last,
                self@.pending == start.pending,
                self@.blocked == start.blocked.remove_keys(text::views(out@).to_set()),
            decreases keys@.len() - i,
        {
            let key = keys[i].as_str();
            let ghost before = text::views(out@);
            proof {
                assert(kv[i as int] == key@);
                assert(kv.contains(key@));
                assert(kv.take(i + 1) =~= kv.take(i as int).push(key@));
                assert(!kv.take(i as int).contains(key@)) by {
                    if kv.take(i as int).contains(key@) {
                        let j = choose|j: int|
                            0 <= j < kv.take(i as int).len() && kv.take(i as int)[j] == key@;
                        assert(kv[j] == kv[i as int]);
                    }
                }
                assert forall|p: Seq<char>| kv.take(i + 1).contains(p) == (kv.take(
                    i as int,
                ).contains(p) || p == key@) by {
                    let t = kv.take(i as int);
                    if t.contains(p) {
                        let j = choose|j: int| 0 <= j < t.len() && t[j] == p;
                        assert(t.push(key@)[j] == p);
                    }
                    assert(t.push(key@)[t.len() as int] == key@);
                    if t.push(key@).contains(p) && p != key@ {
                        let j = choose|j: int| 0 <= j < t.push(key@).len() && t.push(key@)[j] == p;
                        assert(t[j] == p);
                    }
                }
                assert(!before.contains(key@));
                assert(!before.to_set().contains(key@));
            }
            let up = match self.blocked.get(key) {
                Some(until) => now >= *until,
                None => false,
            };
            assert(up == due(start, key@, now));
            if up {
                let _ = self.blocked.take(key);
                out.push(keys[i].clone());
                proof {
                    let after = text::views(out@);
                    assert(after =~= before.push(key@));
                    assert forall|p: Seq<char>| #[trigger] after.contains(p) == (before.contains(p)
                        || p == key@) by {
                        if before.contains(p) {
                            let j = choose|j: int| 0 <= j < before.len() && before[j] == p;
                            assert(after[j] == p);
                        }
                        assert(after[before.len() as int] == key@);
                        if after.contains(p) && p != key@ {
                            let j = choose|j: int| 0 <= j < after.len() && after[j] == p;
                            assert(before[j] == p);
                        }
                    }
                    assert(after.to_set() =~= before.to_set().insert(key@));
                    assert(start.blocked.remove_keys(before.to_set()).remove(key@)
                        =~= start.blocked.remove_keys(after.to_set()));
                }
            }
            i = i + 1;
        }
        assert(kv.take(i as int) =~= kv);
        out
    }
}

/// A state of a file that has been dealt with is never submitted again.
pub proof fn law_no_second_submission(
    gate: GateView,
    path: Seq<char>,
    fp: ActionFingerprint,
    now: u64,
)
    ensures
        standing(remembered(gate, path, fp), path, fp, now) == Observation::Unchanged,
{
}

/// A file that is submitted has kept still for the whole waiting time.
pub proof fn law_submission_was_stable(
    gate: GateView,
    path: Seq<char>,
    fp: ActionFingerprint,
    now: u64,
)
    requires
        standing(gate, path, fp, now) == Observation::Ready,
    ensures
        gate.pending.contains_key(path),
        gate.pending[path].fingerprint == fp,
        gate.pending[path].first_seen_ns + SUBMIT_STABLE_NS <= now,
{
}

/// A file in a new state is submitted once it has kept still long enough.
pub proof fn law_stable_file_is_submitted(
    gate: GateView,
    path: Seq<char>,
    fp: ActionFingerprint,
    seen: u64,
    now: u64,
)
    requires
        !gate.last.contains_pair(path, fp),
        !(gate.pending.contains_key(path) && gate.pending[path].fingerprint == fp),
        now - seen >= SUBMIT_STABLE_NS,
    ensures
        standing(observed(gate, path, fp, seen), path, fp, now) == Observation::Ready,
{
}

/// A file that changes while it waits starts waiting anew.
pub proof fn law_change_restarts_the_wait(
    gate: GateView,
    path: Seq<char>,
    fp: ActionFingerprint,
    now: u64,
)
    requires
        !gate.last.contains_pair(path, fp),
        gate.pending.contains_key(path),
        gate.pending[path].fingerprint != fp,
    ensures
        standing(gate, path, fp, now) == Observation::Waiting,
        observed(gate, path, fp, now).pending[path] == (PendingSubmit {
            fingerprint: fp,
            first_seen_ns: now,
        }),
{
}

} // verus!
