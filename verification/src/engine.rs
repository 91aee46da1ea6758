//! Batch-search bookkeeping: the shared monotonic counters, the accounting
//! law they obey across a run, and the one-line record format for confirmed
//! hits.

use vstd::prelude::*;
use vstd::string::StringExecFns;

use crate::hybrid::CpuGenerator;
use crate::hybrid::MatchRecord;
use crate::hybrid::record_repr;
use crate::hybrid::spec_batch_matches;
use crate::pattern::PatternChecker;

verus! {

/// The lowercase hexadecimal digit of a value below sixteen.
pub open spec fn hex_digit(n: u8) -> char {
    if n == 0 {
        '0'
    } else if n == 1 {
        '1'
    } else if n == 2 {
        '2'
    } else if n == 3 {
        '3'
    } else if n == 4 {
        '4'
    } else if n == 5 {
        '5'
    } else if n == 6 {
        '6'
    } else if n == 7 {
        '7'
    } else if n == 8 {
        '8'
    } else if n == 9 {
        '9'
    } else if n == 10 {
        'a'
    } else if n == 11 {
        'b'
    } else if n == 12 {
        'c'
    } else if n == 13 {
        'd'
    } else if n == 14 {
        'e'
    } else {
        'f'
    }
}

/// Lowercase hexadecimal rendering of a byte sequence, two digits per byte,
/// high nibble first.
pub open spec fn spec_to_hex(data: Seq<u8>) -> Seq<char>
    decreases data.len(),
{
    if data.len() == 0 {
        Seq::empty()
    } else {
        seq![hex_digit(data.first() / 16), hex_digit(data.first() % 16)] + spec_to_hex(
            data.drop_first(),
        )
    }
}

/// Relies on hex::encode: each byte becomes two lowercase hexadecimal digits,
/// high nibble first.
#[verifier::external_body]
fn hex_encode(data: &[u8]) -> (r: String)
    ensures
        r@ == spec_to_hex(data@),
{
    hex::encode(data)
}

/// The persisted line for one confirmed hit.
pub open spec fn spec_record_line(addr: Seq<char>, label: Seq<char>, sk: Seq<u8>) -> Seq<char> {
    addr + seq![' ', '|', ' '] + label + seq![' ', '|', ' '] + spec_to_hex(sk) + seq!['\n']
}

/// Format one record for the result file: address, label and the scalar in
/// hexadecimal, separated by pipes, with a trailing newline.
pub fn format_record_line(m: &MatchRecord) -> (r: String)
    ensures
        r@ == spec_record_line(m.address@, m.label@, m.secret_key@),
{
    let sk_hex = hex_encode(m.secret_key.as_slice());
    let line = m.address.clone().concat(" | ").concat(m.label.as_str()).concat(" | ").concat(
        sk_hex.as_str(),
    ).concat("\n");
    proof {
        reveal_strlit(" | ");
        reveal_strlit("\n");
        assert(line@ =~= spec_record_line(m.address@, m.label@, m.secret_key@));
    }
    line
}

/// The two shared monotonic counters of a run: draws requested and hits
/// confirmed.
pub struct Counters {
    pub total_attempts: u64,
    pub found_count: u64,
}

/// Counter values after a sequence of batches, each accounted with the full
/// requested size `b` — discarded invalid draws included — and its own number
/// of confirmed hits.
pub open spec fn spec_counters_after(b: nat, found_per_batch: Seq<nat>) -> (nat, nat)
    decreases found_per_batch.len(),
{
    if found_per_batch.len() == 0 {
        (0, 0)
    } else {
        let prev = spec_counters_after(b, found_per_batch.drop_last());
        ((prev.0 + b) as nat, (prev.1 + found_per_batch.last()) as nat)
    }
}

/// The sum of the hits of every batch.
pub open spec fn spec_found_sum(found_per_batch: Seq<nat>) -> nat
    decreases found_per_batch.len(),
{
    if found_per_batch.len() == 0 {
        0
    } else {
        spec_found_sum(found_per_batch.drop_last()) + found_per_batch.last()
    }
}

/// Law: after any number of batches of requested size `b`, the attempt
/// counter reads exactly the batch count times `b` — requested work, not
/// valid keys — and the hit counter reads exactly the sum of the per-batch
/// hits.
pub proof fn lemma_counters_after_batches(b: nat, found_per_batch: Seq<nat>)
    ensures
        spec_counters_after(b, found_per_batch).0 == found_per_batch.len() * b,
        spec_counters_after(b, found_per_batch).1 == spec_found_sum(found_per_batch),
    decreases found_per_batch.len(),
{
    if found_per_batch.len() > 0 {
        lemma_counters_after_batches(b, found_per_batch.drop_last());
        assert(found_per_batch.drop_last().len() * b + b == found_per_batch.len() * b)
            by (nonlinear_arith)
            requires
                found_per_batch.len() >= 1,
                found_per_batch.drop_last().len() == found_per_batch.len() - 1,
        ;
    }
}

impl Counters {
    /// Both counters start at zero.
    pub fn new() -> (r: Self)
        ensures
            r.total_attempts == 0,
            r.found_count == 0,
    {
        Counters { total_attempts: 0, found_count: 0 }
    }

    /// Account one completed batch: the full requested size is added to the
    /// attempt counter, and the batch's confirmed hits to the hit counter.
    /// Both counters only ever grow.
    pub fn record_batch(&mut self, requested: u64, found: u64)
        requires
            old(self).total_attempts + requested <= u64::MAX,
            old(self).found_count + found <= u64::MAX,
        ensures
            final(self).total_attempts == old(self).total_attempts + requested,
            final(self).found_count == old(self).found_count + found,
    {
        self.total_attempts = self.total_attempts + requested;
        self.found_count = self.found_count + found;
    }
}

/// A batch yields at most one record per keypair.
pub proof fn lemma_batch_matches_len(c: PatternChecker, kps: Seq<([u8; 32], Vec<u8>)>)
    ensures
        spec_batch_matches(c, kps).len() <= kps.len(),
    decreases kps.len(),
{
    if kps.len() > 0 {
        lemma_batch_matches_len(c, kps.drop_last());
    }
}

/// One step of the engine loop, taken at a batch boundary with the
/// cancellation flag as it was last observed. While the flag reads running, a
/// non-empty batch is fully processed and accounted — the full requested size
/// toward the attempt counter, every confirmed hit toward the hit counter —
/// and its records are handed back for persistence; an empty batch is skipped
/// without being counted. Once the flag reads stopped, nothing is processed
/// and the counters keep the values they had when the last batch completed.
pub fn run_batch_step(
    generator: &CpuGenerator,
    running: bool,
    keypairs: &Vec<([u8; 32], Vec<u8>)>,
    requested: u64,
    counters: &mut Counters,
) -> (r: Option<Vec<MatchRecord>>)
    requires
        generator.wf(),
        forall|i: int| 0 <= i < keypairs@.len() ==> (#[trigger] keypairs@[i]).1@.len() == 65,
        old(counters).total_attempts + requested <= u64::MAX,
        old(counters).found_count + keypairs@.len() <= u64::MAX,
    ensures
        !running ==> r is None && *final(counters) == *old(counters),
        running && keypairs@.len() == 0 ==> (r matches Some(v) && v@.len() == 0 && *final(counters)
            == *old(counters)),
        running && keypairs@.len() > 0 ==> (r matches Some(v) && v@.map_values(
            |m: MatchRecord| record_repr(m),
        ) == spec_batch_matches(generator.checker, keypairs@) && final(counters).total_attempts
            == old(counters).total_attempts + requested && final(counters).found_count == old(
            counters,
        ).found_count + v@.len()),
{
    if !running {
        return None;
    }
    if keypairs.len() == 0 {
        return Some(Vec::new());
    }
    let matches = generator.process_batch(keypairs);
    proof {
        lemma_batch_matches_len(generator.checker, keypairs@);
    }
    counters.record_batch(requested, matches.len() as u64);
    Some(matches)
}

} // verus!
