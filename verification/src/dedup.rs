//! The set of content fingerprints of one document, and the cache that the
//! page workers of that document share.
//!
//! A fingerprint is the payload of an image itself, byte for byte: two
//! fingerprints are equal exactly when the payloads are.

use vstd::prelude::*;
use vstd::rwlock::RwLock;
use vstd::rwlock::RwLockPredicate;
use vstd::slice::slice_to_vec;

verus! {

/// Whether two byte strings are equal.
pub fn same_bytes(left: &Vec<u8>, right: &Vec<u8>) -> (same: bool)
    ensures
        same == (left@ == right@),
{
    if left.len() != right.len() {
        return false;
    }
    let mut at: usize = 0;
    while at < left.len()
        invariant
            left.len() == right.len(),
            at <= left.len(),
            forall|k: int| 0 <= k < at ==> left@[k] == right@[k],
        decreases left.len() - at,
    {
        if left[at] != right[at] {
            return false;
        }
        at = at + 1;
    }
    assert(left@ =~= right@);
    true
}

/// A set of fingerprints, held by one owner. No fingerprint is stored twice.
pub struct FingerprintSet {
    entries: Vec<Vec<u8>>,
}

impl FingerprintSet {
    /// The stored payloads, in the order in which they came.
    pub closed spec fn payloads(&self) -> Seq<Seq<u8>> {
        Seq::new(self.entries@.len(), |k: int| self.entries@[k]@)
    }

    #[verifier::type_invariant]
    spec fn distinct(&self) -> bool {
        self.payloads().no_duplicates()
    }

    /// A set without fingerprints.
    pub fn new() -> (set: FingerprintSet)
        ensures
            set@ == Set::<Seq<u8>>::empty(),
    {
        FingerprintSet { entries: Vec::new() }
    }

    /// Number of fingerprints in the set.
    pub fn len(&self) -> (count: usize)
        ensures
            count == self@.len(),
            self@.finite(),
    {
        proof {
            use_type_invariant(self);
            self.payloads().unique_seq_to_set();
            vstd::seq_lib::seq_to_set_is_finite(self.payloads());
        }
        self.entries.len()
    }

    /// Whether the payload's fingerprint is in the set.
    pub fn contains(&self, payload: &Vec<u8>) -> (present: bool)
        ensures
            present == self@.contains(payload@),
    {
        let mut at: usize = 0;
        while at < self.entries.len()
            invariant
                at <= self.entries.len(),
                forall|k: int| 0 <= k < at ==> self.payloads()[k] != payload@,
            decreases self.entries.len() - at,
        {
            if same_bytes(&self.entries[at], payload) {
                assert(self.payloads()[at as int] == payload@);
                return true;
            }
            at = at + 1;
        }
        false
    }

    /// Puts the payload's fingerprint into the set unless it is there, and
    /// says whether it was new.
    pub fn insert_if_absent(&mut self, payload: &Vec<u8>) -> (fresh: bool)
        ensures
            fresh == !old(self)@.contains(payload@),
            final(self)@ == old(self)@.insert(payload@),
    {
        if self.contains(payload) {
            return false;
        }
        let ghost before = self.payloads();
        proof {
            use_type_invariant(&*self);
        }
        let copy = slice_to_vec(payload.as_slice());
        let mut held = FingerprintSet::new();
        std::mem::swap(self, &mut held);
        let mut entries = held.entries;
        entries.push(copy);
        proof {
            let grown = Seq::new(entries@.len(), |k: int| entries@[k]@);
            assert(grown =~= before.push(payload@));
            before.lemma_push_to_set_commute(payload@);
        }
        *self = FingerprintSet { entries };
        true
    }
}

/// What may stand behind the lock of a cache: any fingerprint set. That no
/// fingerprint is stored twice is the set's own invariant.
struct AnyFingerprints;

impl RwLockPredicate<FingerprintSet> for AnyFingerprints {
    open spec fn inv(self, set: FingerprintSet) -> bool {
        true
    }
}

/// The fingerprints of one document, shared by the page workers of that
/// document. Insertion if absent is the only way to change it.
///
/// What a call answers depends on what the other workers did before it, so
/// the methods promise nothing about their results: each runs the method of
/// the same name of [`FingerprintSet`] on the set as it stands behind the
/// lock, and that method's contract says what the answer is.
pub struct DedupCache {
    lock: RwLock<FingerprintSet, AnyFingerprints>,
}

impl DedupCache {
    /// A cache without fingerprints.
    pub fn new() -> (cache: DedupCache) {
        DedupCache { lock: RwLock::new(FingerprintSet::new(), Ghost(AnyFingerprints)) }
    }

    /// Whether the payload's fingerprint is in the cache, read under the
    /// shared lock.
    pub fn contains(&self, payload: &Vec<u8>) -> (present: bool) {
        let reader = self.lock.acquire_read();
        let present: bool = reader.borrow().contains(payload);
        reader.release_read();
        present
    }

    /// Number of fingerprints in the cache, read under the shared lock.
    pub fn len(&self) -> (count: usize) {
        let reader = self.lock.acquire_read();
        let count: usize = reader.borrow().len();
        reader.release_read();
        count
    }

    /// Puts the payload's fingerprint into the cache unless it is there, and
    /// says whether this call put it there.
    ///
    /// The fingerprint is looked up under the shared lock first. Only when it
    /// is missing there is the exclusive lock taken, and the lookup repeated
    /// under it together with the insertion: another worker may have inserted
    /// the fingerprint between the two locks.
    pub fn insert_if_absent(&self, payload: &Vec<u8>) -> (fresh: bool) {
        if self.contains(payload) {
            return false;
        }
        let (mut set, writer) = self.lock.acquire_write();
        let fresh = set.insert_if_absent(payload);
        writer.release_write(set);
        fresh
    }
}

/// How far a worker has come with its claim on a fingerprint: it still has
/// to look under the shared lock, it found nothing there and goes for the
/// exclusive lock, it inserted the fingerprint, or it found it present.
pub enum ClaimPhase {
    Probing,
    Claiming,
    Won,
    Lost,
}

/// Workers that race for fingerprints: the set behind the lock, and the
/// phase of each worker.
pub struct Race {
    pub seen: Set<Seq<u8>>,
    pub phases: Seq<ClaimPhase>,
}

/// The race before any worker has moved.
pub open spec fn spec_race_start(seen: Set<Seq<u8>>, workers: nat) -> Race {
    Race { seen, phases: Seq::new(workers, |t: int| ClaimPhase::Probing) }
}

/// One step of one worker. A step is what happens under one lock, so no
/// other worker moves within it: the lookup of [`DedupCache::contains`], or
/// the lookup and insertion of [`FingerprintSet::insert_if_absent`].
pub open spec fn spec_race_step(race: Race, payloads: Seq<Seq<u8>>, worker: int) -> Race {
    if 0 <= worker < race.phases.len() && worker < payloads.len() {
        let present = race.seen.contains(payloads[worker]);
        match race.phases[worker] {
            ClaimPhase::Probing => Race {
                seen: race.seen,
                phases: race.phases.update(
                    worker,
                    if present {
                        ClaimPhase::Lost
                    } else {
                        ClaimPhase::Claiming
                    },
                ),
            },
            ClaimPhase::Claiming => Race {
                seen: race.seen.insert(payloads[worker]),
                phases: race.phases.update(
                    worker,
                    if present {
                        ClaimPhase::Lost
                    } else {
                        ClaimPhase::Won
                    },
                ),
            },
            _ => race,
        }
    } else {
        race
    }
}

/// The race after the workers have moved in the order of `schedule`.
pub open spec fn spec_race_run(start: Race, payloads: Seq<Seq<u8>>, schedule: Seq<int>) -> Race
    decreases schedule.len(),
{
    if schedule.len() == 0 {
        start
    } else {
        spec_race_step(
            spec_race_run(start, payloads, schedule.drop_last()),
            payloads,
            schedule.last(),
        )
    }
}

/// What holds of a race at every moment, whatever the order of the steps:
/// winners hold distinct fingerprints that were not there at the start, the
/// set holds what it held at the start and what the winners brought, and a
/// worker that lost has its fingerprint in the set.
spec fn spec_race_sound(race: Race, seen: Set<Seq<u8>>, payloads: Seq<Seq<u8>>) -> bool {
    &&& race.phases.len() == payloads.len()
    &&& forall|t: int, u: int|
        0 <= t < u < payloads.len() && race.phases[t] is Won && race.phases[u] is Won
            ==> payloads[t] != payloads[u]
    &&& forall|t: int|
        0 <= t < payloads.len() && race.phases[t] is Won ==> !seen.contains(#[trigger] payloads[t])
    &&& forall|t: int|
        0 <= t < payloads.len() && (race.phases[t] is Won || race.phases[t] is Lost)
            ==> race.seen.contains(#[trigger] payloads[t])
    &&& forall|p: Seq<u8>| #[trigger]
        race.seen.contains(p) ==> seen.contains(p) || exists|u: int|
            0 <= u < payloads.len() && race.phases[u] is Won && payloads[u] == p
    &&& forall|p: Seq<u8>| seen.contains(p) ==> #[trigger] race.seen.contains(p)
}

/// A step keeps a sound race sound.
proof fn lemma_race_step_sound(
    race: Race,
    seen: Set<Seq<u8>>,
    payloads: Seq<Seq<u8>>,
    worker: int,
)
    requires
        spec_race_sound(race, seen, payloads),
    ensures
        spec_race_sound(spec_race_step(race, payloads, worker), seen, payloads),
{
}

/// Race-freedom of insertion if absent. Let any number of workers race for
/// fingerprints, each by the two steps of [`DedupCache::insert_if_absent`],
/// and let their steps interleave in any order. Then at every moment no two
/// winners hold the same fingerprint, no winner holds one that was in the
/// set at the start, and every worker that lost on a fingerprint that was
/// not in the set at the start lost to a winner with that fingerprint. So of
/// the workers that race for one new fingerprint exactly one wins, once any
/// of them is through.
pub proof fn lemma_one_winner_per_fingerprint(
    seen: Set<Seq<u8>>,
    payloads: Seq<Seq<u8>>,
    schedule: Seq<int>,
)
    ensures
        ({
            let end = spec_race_run(spec_race_start(seen, payloads.len()), payloads, schedule);
            &&& end.phases.len() == payloads.len()
            &&& forall|t: int, u: int|
                0 <= t < u < payloads.len() && end.phases[t] is Won && end.phases[u] is Won
                    ==> payloads[t] != payloads[u]
            &&& forall|t: int|
                0 <= t < payloads.len() && end.phases[t] is Won ==> !seen.contains(
                    #[trigger] payloads[t],
                )
            &&& forall|t: int|
                0 <= t < payloads.len() && end.phases[t] is Lost && !seen.contains(
                    #[trigger] payloads[t],
                ) ==> exists|u: int|
                    0 <= u < payloads.len() && end.phases[u] is Won && payloads[u] == payloads[t]
        }),
{
    lemma_race_run_sound(seen, payloads, schedule);
}

/// A race that starts with every worker before its first step is sound
/// after any schedule.
proof fn lemma_race_run_sound(seen: Set<Seq<u8>>, payloads: Seq<Seq<u8>>, schedule: Seq<int>)
    ensures
        spec_race_sound(
            spec_race_run(spec_race_start(seen, payloads.len()), payloads, schedule),
            seen,
            payloads,
        ),
    decreases schedule.len(),
{
    if schedule.len() > 0 {
        lemma_race_run_sound(seen, payloads, schedule.drop_last());
        lemma_race_step_sound(
            spec_race_run(spec_race_start(seen, payloads.len()), payloads, schedule.drop_last()),
            seen,
            payloads,
            schedule.last(),
        );
    }
}

impl View for FingerprintSet {
    type V = Set<Seq<u8>>;

    closed spec fn view(&self) -> Set<Seq<u8>> {
        self.payloads().to_set()
    }
}

} // verus!
