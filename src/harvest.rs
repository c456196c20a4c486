//! Hash records, the per-derivation hash data, and the deduplicating aggregator
//! that turns completed batches into newly seen records and progress events.
use vstd::prelude::*;

verus! {

/// The mathematical form of a hash record: its value and its declared algorithm.
pub type RecordKey = (Seq<char>, Option<Seq<char>>);

/// One extracted hash with its declared algorithm, if any.
pub struct HashRecord {
    pub hash: String,
    pub algo: Option<String>,
}

/// The text of an optional string.
pub open spec fn opt_view(o: Option<String>) -> Option<Seq<char>> {
    match o {
        Some(s) => Some(s@),
        None => None,
    }
}

/// One line of the persisted output: the quoted value, a comma and a space, then
/// the quoted algorithm or the bare token `null`.
pub open spec fn csv_record(k: RecordKey) -> Seq<char> {
    let algo = match k.1 {
        Some(a) => seq!['"'] + a + seq!['"'],
        None => seq!['n', 'u', 'l', 'l'],
    };
    seq!['"'] + k.0 + seq!['"', ',', ' '] + algo
}

impl HashRecord {
    pub open spec fn key(&self) -> RecordKey {
        (self.hash@, opt_view(self.algo))
    }

    /// A record with a declared algorithm.
    pub fn with_algo(hash: String, algo: String) -> (r: Self)
        ensures
            r.hash == hash,
            r.algo == Some(algo),
    {
        HashRecord { hash, algo: Some(algo) }
    }

    /// The record's line in the persisted output, without the line break.
    pub fn to_csv_record(&self) -> (r: String)
        ensures
            r@ == csv_record(self.key()),
    {
        let mut r = String::new();
        r.append("\"");
        r.append(self.hash.as_str());
        r.append("\", ");
        match &self.algo {
            Some(a) => {
                r.append("\"");
                r.append(a.as_str());
                r.append("\"");
            },
            None => {
                r.append("null");
            },
        }
        proof {
            reveal_strlit("\"");
            reveal_strlit("\", ");
            reveal_strlit("null");
        }
        assert(r@ =~= csv_record(self.key()));
        r
    }
}

impl Clone for HashRecord {
    fn clone(&self) -> (r: Self)
        ensures
            r == *self,
    {
        let algo = match &self.algo {
            Some(a) => Some(a.clone()),
            None => None,
        };
        HashRecord { hash: self.hash.clone(), algo }
    }
}

/// The hash data of one derivation: the fixed-output hash of its build
/// environment, if declared, and the declared hashes of its outputs, by name.
pub struct DerivationHashes {
    pub env: Option<HashRecord>,
    pub outputs: Vec<(String, HashRecord)>,
}

/// The records of one derivation, the fixed-output hash first.
pub open spec fn derivation_records(d: DerivationHashes) -> Seq<RecordKey> {
    let env = match d.env {
        Some(h) => seq![h.key()],
        None => Seq::empty(),
    };
    env + d.outputs@.map_values(|p: (String, HashRecord)| p.1.key())
}

/// The records of a batch, in derivation order.
pub open spec fn batch_records(b: Seq<(String, DerivationHashes)>) -> Seq<RecordKey>
    decreases b.len(),
{
    if b.len() == 0 {
        Seq::empty()
    } else {
        batch_records(b.drop_last()) + derivation_records(b.last().1)
    }
}

/// The records of `s` that are neither in `seen` nor earlier in `s`, in order of
/// first appearance.
pub open spec fn new_records(seen: Set<RecordKey>, s: Seq<RecordKey>) -> Seq<RecordKey>
    decreases s.len(),
{
    if s.len() == 0 {
        Seq::empty()
    } else {
        let before = s.drop_last();
        let tail = if seen.union(before.to_set()).contains(s.last()) {
            Seq::empty()
        } else {
            seq![s.last()]
        };
        new_records(seen, before) + tail
    }
}

/// The record set that deduplicates a whole run.
///
/// It holds a `std::collections::HashSet` of (value, algorithm) pairs, whose
/// equality is that of their text.
#[verifier::external_body]
pub struct SeenHashes {
    set: std::collections::HashSet<(String, Option<String>)>,
}

/// The records held by a record set.
pub uninterp spec fn seen_of(s: SeenHashes) -> Set<RecordKey>;

/// Relies on `HashSet::new`: the new set is empty.
#[verifier::external_body]
fn seen_new() -> (r: SeenHashes)
    ensures
        seen_of(r) == Set::<RecordKey>::empty(),
{
    SeenHashes { set: std::collections::HashSet::new() }
}

/// Relies on `HashSet::insert`: the pair is added, and the result tells whether
/// it was absent before.
#[verifier::external_body]
fn seen_insert(s: &mut SeenHashes, h: &HashRecord) -> (r: bool)
    ensures
        r == !seen_of(*old(s)).contains(h.key()),
        seen_of(*final(s)) == seen_of(*old(s)).insert(h.key()),
{
    s.set.insert((h.hash.clone(), h.algo.clone()))
}

/// Relies on `HashSet::len`: the number of distinct pairs held.
#[verifier::external_body]
fn seen_len(s: &SeenHashes) -> (r: usize)
    ensures
        r == seen_of(*s).len(),
{
    s.set.len()
}

/// A summary of one aggregated batch.
pub enum Statistic {
    Progress { drvs: usize, hashes: usize, total_unique: usize },
}

/// The single owner of the run's record set.
pub struct Aggregator {
    pub unique: SeenHashes,
}

impl Aggregator {
    /// The records seen so far in the run.
    pub open spec fn seen(&self) -> Set<RecordKey> {
        seen_of(self.unique)
    }

    /// An aggregator that has seen nothing.
    pub fn new() -> (r: Self)
        ensures
            r.seen() == Set::<RecordKey>::empty(),
    {
        Aggregator { unique: seen_new() }
    }

    /// The number of distinct records seen so far.
    pub fn unique_count(&self) -> (r: usize)
        ensures
            r == self.seen().len(),
    {
        seen_len(&self.unique)
    }

    /// Adds one record; returns whether it had not been seen before.
    pub fn observe(&mut self, h: &HashRecord) -> (r: bool)
        ensures
            r == !old(self).seen().contains(h.key()),
            final(self).seen() == old(self).seen().insert(h.key()),
    {
        seen_insert(&mut self.unique, h)
    }

    /// Adds every record of a batch in order, and returns the records not seen
    /// before (each once, in order of first appearance) with the batch's summary.
    pub fn absorb_batch(&mut self, batch: &Vec<(String, DerivationHashes)>) -> (r: (
        Vec<HashRecord>,
        Statistic,
    ))
        requires
            batch_records(batch@).len() <= usize::MAX,
        ensures
            r.0@.map_values(|h: HashRecord| h.key()) == new_records(
                old(self).seen(),
                batch_records(batch@),
            ),
            final(self).seen() == old(self).seen().union(batch_records(batch@).to_set()),
            r.1 == (Statistic::Progress {
                drvs: batch.len(),
                hashes: batch_records(batch@).len() as usize,
                total_unique: final(self).seen().len() as usize,
            }),
    {
        let ghost seen0 = self.seen();
        let ghost mut done: Seq<RecordKey> = Seq::empty();
        let mut fresh: Vec<HashRecord> = Vec::new();
        let mut hash_count: usize = 0;
        let mut i: usize = 0;
        while i < batch.len()
            invariant
                0 <= i <= batch.len(),
                batch_records(batch@).len() <= usize::MAX,
                done == batch_records(batch@.take(i as int)),
                hash_count == done.len(),
                self.seen() == seen0.union(done.to_set()),
                fresh@.map_values(|h: HashRecord| h.key()) == new_records(seen0, done),
            decreases batch.len() - i,
        {
            proof {
                lemma_batch_records_prefix(batch@, i as int + 1);
            }
            let d = &batch[i].1;
            let ghost start = done;
            match &d.env {
                Some(h) => {
                    self.absorb_one(h, &mut fresh, Ghost(seen0), Ghost(done));
                    proof {
                        done = done.push(h.key());
                    }
                    hash_count = hash_count + 1;
                },
                None => {},
            }
            let mut j: usize = 0;
            while j < d.outputs.len()
                invariant
                    0 <= j <= d.outputs.len(),
                    d == batch@[i as int].1,
                    i < batch.len(),
                    batch_records(batch@.take(i as int + 1)).len() <= usize::MAX,
                    batch_records(batch@.take(i as int + 1)) == start + derivation_records(*d),
                    done == start + derivation_records(*d).take(
                        (derivation_records(*d).len() - d.outputs.len() + j) as int,
                    ),
                    hash_count == done.len(),
                    self.seen() == seen0.union(done.to_set()),
                    fresh@.map_values(|h: HashRecord| h.key()) == new_records(seen0, done),
                decreases d.outputs.len() - j,
            {
                let h = &d.outputs[j].1;
                self.absorb_one(h, &mut fresh, Ghost(seen0), Ghost(done));
                proof {
                    let n = (derivation_records(*d).len() - d.outputs.len() + j) as int;
                    assert(derivation_records(*d)[n] == h.key());
                    assert(derivation_records(*d).take(n + 1) =~= derivation_records(*d).take(
                        n,
                    ).push(h.key()));
                    done = done.push(h.key());
                }
                hash_count = hash_count + 1;
                j = j + 1;
            }
            proof {
                assert(derivation_records(*d).take(derivation_records(*d).len() as int)
                    =~= derivation_records(*d));
            }
            i = i + 1;
        }
        proof {
            assert(batch@.take(batch.len() as int) =~= batch@);
        }
        let total_unique = self.unique_count();
        (fresh, Statistic::Progress { drvs: batch.len(), hashes: hash_count, total_unique })
    }

    /// One step of `absorb_batch`: records `h` after the records `done`.
    fn absorb_one(
        &mut self,
        h: &HashRecord,
        fresh: &mut Vec<HashRecord>,
        seen0: Ghost<Set<RecordKey>>,
        done: Ghost<Seq<RecordKey>>,
    )
        requires
            old(self).seen() == seen0@.union(done@.to_set()),
            old(fresh)@.map_values(|x: HashRecord| x.key()) == new_records(seen0@, done@),
        ensures
            final(self).seen() == seen0@.union(done@.push(h.key()).to_set()),
            final(fresh)@.map_values(|x: HashRecord| x.key()) == new_records(
                seen0@,
                done@.push(h.key()),
            ),
    {
        let ghost after = done@.push(h.key());
        proof {
            assert(after.drop_last() =~= done@);
            assert(after.to_set() =~= done@.to_set().insert(h.key())) by {
                lemma_push_to_set(done@, h.key());
            }
        }
        if self.observe(h) {
            fresh.push(h.clone());
            assert(fresh@.map_values(|x: HashRecord| x.key()) =~= old(fresh)@.map_values(
                |x: HashRecord| x.key(),
            ).push(h.key()));
        } else {
            assert(fresh@.map_values(|x: HashRecord| x.key()) =~= old(fresh)@.map_values(
                |x: HashRecord| x.key(),
            ) + Seq::<RecordKey>::empty());
        }
        assert(self.seen() =~= seen0@.union(after.to_set()));
    }
}

/// A record fed twice in a row is kept once if it had not been seen before, and
/// not at all if it had.
pub proof fn lemma_repeated_record_kept_once(seen: Set<RecordKey>, k: RecordKey)
    ensures
        new_records(seen, seq![k, k]) == if seen.contains(k) {
            Seq::<RecordKey>::empty()
        } else {
            seq![k]
        },
{
    let one = seq![k];
    let two = seq![k, k];
    assert(two.drop_last() =~= one);
    assert(one.drop_last() =~= Seq::<RecordKey>::empty());
    lemma_push_to_set(Seq::<RecordKey>::empty(), k);
    assert(Seq::<RecordKey>::empty().push(k) =~= one);
    assert(Seq::<RecordKey>::empty().to_set() =~= Set::<RecordKey>::empty());
    assert(seen.union(one.to_set()).contains(k));
    assert(new_records(seen, Seq::<RecordKey>::empty()) =~= Seq::<RecordKey>::empty());
    if seen.contains(k) {
        assert(seen.union(Seq::<RecordKey>::empty().to_set()).contains(k));
        assert(new_records(seen, one) =~= Seq::<RecordKey>::empty());
        assert(new_records(seen, two) =~= Seq::<RecordKey>::empty());
    } else {
        assert(new_records(seen, one) =~= seq![k]);
        assert(new_records(seen, two) =~= seq![k]);
    }
}

/// Two records with one value but different algorithms (one of them possibly
/// absent) are distinct: both are kept when neither was seen before.
pub proof fn lemma_algorithm_distinguishes_records(seen: Set<RecordKey>, a: HashRecord, b: HashRecord)
    requires
        a.hash@ == b.hash@,
        opt_view(a.algo) != opt_view(b.algo),
        !seen.contains(a.key()),
        !seen.contains(b.key()),
    ensures
        new_records(seen, seq![a.key(), b.key()]) == seq![a.key(), b.key()],
{
    let one = seq![a.key()];
    let two = seq![a.key(), b.key()];
    assert(two.drop_last() =~= one);
    assert(one.drop_last() =~= Seq::<RecordKey>::empty());
    lemma_push_to_set(Seq::<RecordKey>::empty(), a.key());
    assert(Seq::<RecordKey>::empty().push(a.key()) =~= one);
    assert(Seq::<RecordKey>::empty().to_set() =~= Set::<RecordKey>::empty());
    assert(a.key() != b.key());
    assert(!seen.union(one.to_set()).contains(b.key()));
    assert(new_records(seen, Seq::<RecordKey>::empty()) =~= Seq::<RecordKey>::empty());
    assert(new_records(seen, one) =~= one);
    assert(new_records(seen, two) =~= two);
}

proof fn lemma_push_to_set(s: Seq<RecordKey>, k: RecordKey)
    ensures
        s.push(k).to_set() =~= s.to_set().insert(k),
{
    assert forall|x| s.push(k).to_set().contains(x) <==> s.to_set().insert(k).contains(x) by {
        if s.push(k).to_set().contains(x) {
            let n = choose|n: int| 0 <= n < s.push(k).len() && s.push(k)[n] == x;
            if n < s.len() {
                assert(s[n] == x);
            }
        }
        if s.to_set().contains(x) && x != k {
            let n = choose|n: int| 0 <= n < s.len() && s[n] == x;
            assert(s.push(k)[n] == x);
        }
        if x == k {
            assert(s.push(k)[s.len() as int] == x);
        }
    }
}

/// The records of a prefix of a batch are a prefix of the batch's records.
proof fn lemma_batch_records_prefix(b: Seq<(String, DerivationHashes)>, i: int)
    requires
        0 < i <= b.len(),
    ensures
        batch_records(b.take(i)) == batch_records(b.take(i - 1)) + derivation_records(b[i - 1].1),
        batch_records(b.take(i)).len() <= batch_records(b).len(),
    decreases b.len() - i,
{
    assert(b.take(i).drop_last() =~= b.take(i - 1));
    if i < b.len() {
        lemma_batch_records_prefix(b, i + 1);
    } else {
        assert(b.take(i) =~= b);
    }
}

} // verus!
