//! The elapsed-time handshake between the pre-command and post-command
//! invocations.
//!
//! The pre-command side records the current monotonic clock reading as one
//! 8-byte big-endian record keyed by the shell's process id; the
//! post-command side consumes (reads and deletes) that record and turns it
//! into an elapsed tick count. A tick count carries whole seconds in its
//! upper 32 bits and the fraction of a second in its lower 32 bits.

use vstd::prelude::*;
use crate::ElapsedError;

verus! {

/// The 8-byte big-endian encoding of a tick count.
pub open spec fn be64(t: u64) -> Seq<u8> {
    seq![
        ((t >> 56) & 0xff) as u8,
        ((t >> 48) & 0xff) as u8,
        ((t >> 40) & 0xff) as u8,
        ((t >> 32) & 0xff) as u8,
        ((t >> 24) & 0xff) as u8,
        ((t >> 16) & 0xff) as u8,
        ((t >> 8) & 0xff) as u8,
        (t & 0xff) as u8,
    ]
}

/// The tick count read back from 8 big-endian bytes.
pub open spec fn be64_decode(s: Seq<u8>) -> u64
    recommends
        s.len() == 8,
{
    (s[0] as u64) << 56 | (s[1] as u64) << 48 | (s[2] as u64) << 40 | (s[3] as u64) << 32
        | (s[4] as u64) << 24 | (s[5] as u64) << 16 | (s[6] as u64) << 8 | s[7] as u64
}

/// Decoding inverts encoding: a recorded tick count is read back exactly.
pub proof fn lemma_be64_round_trip(t: u64)
    ensures
        be64_decode(be64(t)) == t,
{
    assert(((t >> 56 & 0xff) as u8 as u64) << 56 | ((t >> 48 & 0xff) as u8 as u64) << 48
        | ((t >> 40 & 0xff) as u8 as u64) << 40 | ((t >> 32 & 0xff) as u8 as u64) << 32
        | ((t >> 24 & 0xff) as u8 as u64) << 24 | ((t >> 16 & 0xff) as u8 as u64) << 16
        | ((t >> 8 & 0xff) as u8 as u64) << 8 | (t & 0xff) as u8 as u64 == t) by (bit_vector);
}

/// Encode a tick count as the 8-byte record the store persists.
pub fn encode_ticks(t: u64) -> (r: Vec<u8>)
    ensures
        r@ == be64(t),
{
    proof {
        assert((t >> 56) & 0xff <= 0xff && (t >> 48) & 0xff <= 0xff && (t >> 40) & 0xff <= 0xff
            && (t >> 32) & 0xff <= 0xff && (t >> 24) & 0xff <= 0xff && (t >> 16) & 0xff <= 0xff && (
        t >> 8) & 0xff <= 0xff && t & 0xff <= 0xff) by (bit_vector);
    }
    let mut v: Vec<u8> = Vec::new();
    v.push(((t >> 56) & 0xff) as u8);
    v.push(((t >> 48) & 0xff) as u8);
    v.push(((t >> 40) & 0xff) as u8);
    v.push(((t >> 32) & 0xff) as u8);
    v.push(((t >> 24) & 0xff) as u8);
    v.push(((t >> 16) & 0xff) as u8);
    v.push(((t >> 8) & 0xff) as u8);
    v.push((t & 0xff) as u8);
    proof {
        assert(v@ =~= be64(t));
    }
    v
}

/// Parse a stored record: the first 8 bytes as a big-endian tick count, or
/// `CorruptRecord` when the record is shorter than the fixed width.
pub fn parse_record(bytes: &Vec<u8>) -> (r: Result<u64, ElapsedError>)
    ensures
        bytes@.len() >= 8 ==> r == Ok::<u64, ElapsedError>(be64_decode(bytes@.subrange(0, 8))),
        bytes@.len() < 8 ==> r == Err::<u64, ElapsedError>(ElapsedError::CorruptRecord),
{
    if bytes.len() < 8 {
        return Err(ElapsedError::CorruptRecord);
    }
    let t: u64 = (bytes[0] as u64) << 56 | (bytes[1] as u64) << 48 | (bytes[2] as u64) << 40
        | (bytes[3] as u64) << 32 | (bytes[4] as u64) << 24 | (bytes[5] as u64) << 16
        | (bytes[6] as u64) << 8 | bytes[7] as u64;
    proof {
        let s = bytes@.subrange(0, 8);
        assert(s[0] == bytes@[0] && s[1] == bytes@[1] && s[2] == bytes@[2] && s[3] == bytes@[3]
            && s[4] == bytes@[4] && s[5] == bytes@[5] && s[6] == bytes@[6] && s[7] == bytes@[7]);
    }
    Ok(t)
}

/// Elapsed ticks from a stored reading to the current one, clamped at zero
/// so a record from a later reading (possible only through a corrupted or
/// foreign record, never through the monotonic clock itself) cannot wrap.
pub open spec fn spec_elapsed_ticks(stored: u64, now: u64) -> u64 {
    if now >= stored {
        (now - stored) as u64
    } else {
        0u64
    }
}

/// What consuming a record yields: `NotFound` when no record was there,
/// `CorruptRecord` when it cannot be parsed, and otherwise the elapsed
/// ticks from the recorded reading to `now`.
pub open spec fn spec_consume(taken: Option<Seq<u8>>, now: u64) -> Result<u64, ElapsedError> {
    match taken {
        Option::None => Err(ElapsedError::NotFound),
        Option::Some(b) => if b.len() < 8 {
            Err(ElapsedError::CorruptRecord)
        } else {
            Ok(spec_elapsed_ticks(be64_decode(b.subrange(0, 8)), now))
        },
    }
}

/// Turn the record taken from the store (if any) into an elapsed tick
/// count, against the clock reading `now`.
pub fn consume_decision(taken: Option<Vec<u8>>, now: u64) -> (r: Result<u64, ElapsedError>)
    ensures
        taken is None ==> r == spec_consume(Option::<Seq<u8>>::None, now),
        taken matches Some(b) ==> r == spec_consume(Some(b@), now),
{
    match taken {
        None => Err(ElapsedError::NotFound),
        Some(bytes) => {
            let stored = match parse_record(&bytes) {
                Ok(t) => t,
                Err(e) => {
                    return Err(e);
                },
            };
            if now >= stored {
                Ok(now - stored)
            } else {
                Ok(0)
            }
        },
    }
}

/// Relies on coarsetime::Instant::now and Instant::as_ticks: one reading
/// of a coarse monotonic clock as a tick count, whole seconds in the upper
/// 32 bits and the fraction of a second in the lower 32. Nothing can be
/// promised of the value itself.
#[verifier::external_body]
fn now_ticks() -> u64 {
    coarsetime::Instant::now().as_ticks()
}

/// The record the pre-command invocation persists: the current clock
/// reading, as the fixed-width 8-byte big-endian format.
pub fn record_payload() -> (r: Vec<u8>)
    ensures
        r@.len() == 8,
{
    let now = now_ticks();
    encode_ticks(now)
}

/// Consume a record taken from the durable store against the clock as it
/// reads now. A missing record yields `NotFound` and a short one
/// `CorruptRecord` — both soft failures the caller renders as an absent
/// elapsed segment — while every well-formed record yields an elapsed tick
/// count.
pub fn consume_elapsed_from(taken: Option<Vec<u8>>) -> (r: Result<u64, ElapsedError>)
    ensures
        taken is None ==> r == Err::<u64, ElapsedError>(ElapsedError::NotFound),
        (taken matches Some(b) && b@.len() < 8) ==> r == Err::<u64, ElapsedError>(
            ElapsedError::CorruptRecord,
        ),
        (taken matches Some(b) && b@.len() >= 8) ==> r is Ok,
{
    let now = now_ticks();
    consume_decision(taken, now)
}

/// The fixed prefix of a record's storage name.
pub open spec fn record_name_prefix() -> Seq<u8> {
    seq![78u8, 85u8, 80u8, 82u8, 79u8, 77u8, 80u8, 84u8, 95u8]
}

/// The fixed suffix of a record's storage name.
pub open spec fn record_name_suffix() -> Seq<u8> {
    seq![95u8, 112u8, 114u8, 101u8, 118u8, 95u8, 115u8, 116u8, 97u8, 114u8, 116u8]
}

/// The storage name for a pid's record: the fixed prefix, the pid bytes,
/// and the fixed suffix, so each pid maps to one deterministic location.
pub open spec fn record_name_bytes(pid: Seq<u8>) -> Seq<u8> {
    record_name_prefix() + pid + record_name_suffix()
}

/// Derive the storage name for a pid's record.
pub fn prev_start_file_name(pid: &Vec<u8>) -> (r: Vec<u8>)
    ensures
        r@ == record_name_bytes(pid@),
{
    let mut v: Vec<u8> = Vec::new();
    v.push(78);
    v.push(85);
    v.push(80);
    v.push(82);
    v.push(79);
    v.push(77);
    v.push(80);
    v.push(84);
    v.push(95);
    crate::bytes::extend_bytes(&mut v, pid);
    v.push(95);
    v.push(112);
    v.push(114);
    v.push(101);
    v.push(118);
    v.push(95);
    v.push(115);
    v.push(116);
    v.push(97);
    v.push(114);
    v.push(116);
    proof {
        assert(v@ =~= record_name_bytes(pid@));
    }
    v
}

/// What a sequence of keyed records denotes: the map in which the latest
/// record for each key wins.
pub open spec fn map_of(s: Seq<(u64, Vec<u8>)>) -> Map<u64, Seq<u8>>
    decreases s.len(),
{
    if s.len() == 0 {
        Map::<u64, Seq<u8>>::empty()
    } else {
        map_of(s.drop_last()).insert(s.last().0, s.last().1@)
    }
}

/// No two records carry the same key.
pub open spec fn distinct_keys(s: Seq<(u64, Vec<u8>)>) -> bool {
    forall|i: int, j: int| 0 <= i < j < s.len() ==> s[i].0 != s[j].0
}

/// A key is in the denoted map exactly when some record carries it.
proof fn lemma_map_of_dom(s: Seq<(u64, Vec<u8>)>, k: u64)
    ensures
        map_of(s).dom().contains(k) <==> exists|i: int| 0 <= i < s.len() && s[i].0 == k,
    decreases s.len(),
{
    if s.len() > 0 {
        lemma_map_of_dom(s.drop_last(), k);
        if s.last().0 == k {
            assert(s[s.len() - 1].0 == k);
        } else if exists|i: int| 0 <= i < s.len() && s[i].0 == k {
            let i = choose|i: int| 0 <= i < s.len() && s[i].0 == k;
            assert(s.drop_last()[i].0 == k);
        }
    }
}

/// Removing the record at index `i` of a distinctly keyed sequence removes
/// exactly its key from the denoted map, whose value was that record's.
proof fn lemma_map_of_remove(s: Seq<(u64, Vec<u8>)>, i: int)
    requires
        distinct_keys(s),
        0 <= i < s.len(),
    ensures
        map_of(s).dom().contains(s[i].0),
        map_of(s)[s[i].0] == s[i].1@,
        map_of(s.remove(i)) == map_of(s).remove(s[i].0),
        distinct_keys(s.remove(i)),
    decreases s.len(),
{
    let k = s[i].0;
    assert forall|a: int, b: int| 0 <= a < b < s.remove(i).len() implies s.remove(i)[a].0
        != s.remove(i)[b].0 by {
        assert(s.remove(i)[a] == if a < i {
            s[a]
        } else {
            s[a + 1]
        });
        assert(s.remove(i)[b] == if b < i {
            s[b]
        } else {
            s[b + 1]
        });
    }
    if i == s.len() - 1 {
        assert(s.remove(i) =~= s.drop_last());
        lemma_map_of_dom(s.drop_last(), k);
        assert(!map_of(s.drop_last()).dom().contains(k));
        assert(map_of(s.drop_last()) =~= map_of(s.drop_last()).insert(k, s[i].1@).remove(k));
    } else {
        lemma_map_of_remove(s.drop_last(), i);
        assert(s.remove(i).drop_last() =~= s.drop_last().remove(i));
        assert(s.remove(i).last() == s.last());
        assert(s.drop_last()[i] == s[i]);
        assert(s.last().0 != k);
        assert(map_of(s.drop_last()).remove(k).insert(s.last().0, s.last().1@) =~= map_of(
            s.drop_last(),
        ).insert(s.last().0, s.last().1@).remove(k));
        assert(map_of(s.remove(i)) == map_of(s.remove(i).drop_last()).insert(
            s.remove(i).last().0,
            s.remove(i).last().1@,
        ));
    }
}

/// The reference backend of the elapsed-time store: a pid-keyed collection
/// of records, each at most one live record per pid. The durable backend
/// used between invocations behaves the same way over files.
pub struct TickStore {
    entries: Vec<(u64, Vec<u8>)>,
}

impl View for TickStore {
    type V = Map<u64, Seq<u8>>;

    closed spec fn view(&self) -> Map<u64, Seq<u8>> {
        map_of(self.entries@)
    }
}

impl TickStore {
    /// The store's records carry pairwise distinct pids.
    pub closed spec fn wf(&self) -> bool {
        distinct_keys(self.entries@)
    }

    /// An empty store.
    pub fn new() -> (r: TickStore)
        ensures
            r.wf(),
            r@ == Map::<u64, Seq<u8>>::empty(),
    {
        TickStore { entries: Vec::new() }
    }

    /// Read and delete the record for `pid`: at-most-once consumption.
    pub fn take(&mut self, pid: u64) -> (r: Option<Vec<u8>>)
        requires
            old(self).wf(),
        ensures
            final(self).wf(),
            final(self)@ == old(self)@.remove(pid),
            old(self)@.dom().contains(pid) ==> (r matches Some(v) && v@ == old(self)@[pid]),
            !old(self)@.dom().contains(pid) ==> r is None,
    {
        let n = self.entries.len();
        let mut i: usize = 0;
        while i < n
            invariant
                0 <= i <= n,
                n == self.entries@.len(),
                self == old(self),
                self.wf(),
                forall|j: int| 0 <= j < i ==> self.entries@[j].0 != pid,
            decreases n - i,
        {
            if self.entries[i].0 == pid {
                proof {
                    lemma_map_of_remove(self.entries@, i as int);
                }
                let (_, v) = self.entries.remove(i);
                return Some(v);
            }
            i += 1;
        }
        proof {
            lemma_map_of_dom(self.entries@, pid);
            assert(self@ =~= self@.remove(pid));
        }
        None
    }

    /// Persist `payload` as the record for `pid`, overwriting any prior one.
    pub fn put(&mut self, pid: u64, payload: Vec<u8>)
        requires
            old(self).wf(),
        ensures
            final(self).wf(),
            final(self)@ == old(self)@.insert(pid, payload@),
    {
        let _ = self.take(pid);
        proof {
            lemma_map_of_dom(self.entries@, pid);
        }
        let ghost pre = self.entries@;
        self.entries.push((pid, payload));
        proof {
            assert(self.entries@.drop_last() =~= pre);
            assert(self@ =~= old(self)@.insert(pid, payload@));
        }
    }

    /// The pre-command side: record the clock reading `now` under `pid`.
    pub fn record_start(&mut self, pid: u64, now: u64)
        requires
            old(self).wf(),
        ensures
            final(self).wf(),
            final(self)@ == old(self)@.insert(pid, be64(now)),
    {
        let payload = encode_ticks(now);
        self.put(pid, payload);
    }

    /// The post-command side: consume the record for `pid` against the
    /// clock reading `now`. A pid never recorded yields `NotFound`; the
    /// failure never disturbs the rest of the store.
    pub fn consume_elapsed(&mut self, pid: u64, now: u64) -> (r: Result<u64, ElapsedError>)
        requires
            old(self).wf(),
        ensures
            final(self).wf(),
            final(self)@ == old(self)@.remove(pid),
            !old(self)@.dom().contains(pid) ==> r == Err::<u64, ElapsedError>(
                ElapsedError::NotFound,
            ),
            old(self)@.dom().contains(pid) ==> r == spec_consume(Some(old(self)@[pid]), now),
    {
        let taken = self.take(pid);
        consume_decision(taken, now)
    }
}

/// The handshake law: after recording a start reading `now0` for a pid,
/// consuming that pid yields exactly the elapsed ticks from `now0` to the
/// later reading `now1` — `now1 - now0` whenever the monotonic clock did
/// not step backwards, and in no case a wrapped-around value — and a second
/// consumption with no intervening record finds nothing.
pub proof fn lemma_handshake(m: Map<u64, Seq<u8>>, pid: u64, now0: u64, now1: u64)
    ensures
        m.insert(pid, be64(now0)).dom().contains(pid),
        spec_consume(Some(m.insert(pid, be64(now0))[pid]), now1) == Ok::<u64, ElapsedError>(
            spec_elapsed_ticks(now0, now1),
        ),
        now1 >= now0 ==> spec_elapsed_ticks(now0, now1) == now1 - now0,
        !m.insert(pid, be64(now0)).remove(pid).dom().contains(pid),
{
    lemma_be64_round_trip(now0);
    assert(be64(now0).subrange(0, 8) =~= be64(now0));
}

/// A pid never recorded is not found: consuming it reports `NotFound` and
/// leaves the store as it was, so the prompt simply shows no elapsed time.
pub proof fn lemma_consume_absent(m: Map<u64, Seq<u8>>, pid: u64, now: u64)
    requires
        !m.dom().contains(pid),
    ensures
        spec_consume(Option::<Seq<u8>>::None, now) == Err::<u64, ElapsedError>(
            ElapsedError::NotFound,
        ),
        m.remove(pid) == m,
{
    assert(m.remove(pid) =~= m);
}

} // verus!
