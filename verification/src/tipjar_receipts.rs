//! The receipt ledger: durable, idempotent records keyed by a donation
//! commitment. A receipt is created at most once per commitment and never
//! modified afterwards; a repeated write gets the designed idempotence answer,
//! not an error.
//!
//! On the ledger runtime each record lives at the derived address of the
//! `receipt` domain tag and the commitment (see `crate::address`), and the
//! substrate's atomic create-if-absent at that address is the admission
//! primitive. This module models the resulting store keyed by the commitment
//! itself, which the deterministic, collision-resistant derivation keeps in
//! one-to-one correspondence with the addresses.

use vstd::prelude::*;

use crate::address::derive_address;
use crate::address::pda_of;
use crate::bytes::bytes32_eq;

verus! {

/// A misbehaving caller on the ledger's write path.
#[derive(Clone, Copy, PartialEq, Eq, Structural, Debug)]
pub enum TipjarError {
    /// The write was not invoked by the expected callback program.
    InvalidInvoker,
}

/// Verdict of an admitted ledger write.
#[derive(Clone, Copy, PartialEq, Eq, Structural, Debug)]
pub enum WriteOutcome {
    /// The record was created and durably persisted.
    Created,
    /// A record for this commitment already existed; nothing was touched.
    AlreadyExists,
}

/// The terminal record of the protocol: one per commitment, immutable, 41
/// bytes as persisted (one tier byte, the 32-byte commitment, an 8-byte
/// timestamp).
#[derive(Clone, Copy, Debug)]
pub struct Receipt {
    pub amount_tier: u8,
    pub commitment: [u8; 32],
    pub ts: i64,
}

/// The public event of a ledger write: the commitment, the disclosed tier and
/// the timestamp of the durable record.
#[derive(Clone, Copy, Debug)]
pub struct DonationVerified {
    pub commitment: [u8; 32],
    pub tier: u8,
    pub ts: i64,
}

/// Each commitment names at most one receipt.
pub open spec fn unique_commitments(s: Seq<Receipt>) -> bool {
    forall|i: int, j: int| 0 <= i < j < s.len() ==> s[i].commitment@ != s[j].commitment@
}

/// The receipt recorded for `commitment`, `None` where none exists.
pub open spec fn spec_find_receipt(s: Seq<Receipt>, commitment: Seq<u8>) -> Option<Receipt>
    decreases s.len(),
{
    if s.len() == 0 {
        None
    } else if s[0].commitment@ == commitment {
        Some(s[0])
    } else {
        spec_find_receipt(s.drop_first(), commitment)
    }
}

/// Whether the invoker gate admits a caller: a disabled gate admits everyone,
/// an enabled one only the expected program.
pub open spec fn gate_admits(gate: Option<[u8; 32]>, invoker: Seq<u8>) -> bool {
    match gate {
        None => true,
        Some(expected) => invoker == expected@,
    }
}

/// What a ledger write does: the records afterwards, and the verdict. An
/// unexpected invoker changes nothing; an existing record is never touched; only
/// a commitment without a record gets one, carrying exactly the written tier
/// and timestamp.
pub open spec fn spec_complete(
    s: Seq<Receipt>,
    amount_tier: u8,
    commitment: [u8; 32],
    now: i64,
    gate_ok: bool,
) -> (Seq<Receipt>, Result<WriteOutcome, TipjarError>) {
    if !gate_ok {
        (s, Err(TipjarError::InvalidInvoker))
    } else if spec_find_receipt(s, commitment@) is Some {
        (s, Ok(WriteOutcome::AlreadyExists))
    } else {
        ((s.push(Receipt { amount_tier, commitment, ts: now })), Ok(WriteOutcome::Created))
    }
}

/// A failed lookup means no record names the commitment, and a successful one
/// agrees with the unique record that does.
pub proof fn lemma_find_receipt_char(s: Seq<Receipt>, commitment: Seq<u8>)
    ensures
        (spec_find_receipt(s, commitment) is None) <==> (forall|k: int|
            0 <= k < s.len() ==> s[k].commitment@ != commitment),
        unique_commitments(s) ==> (forall|k: int|
            0 <= k < s.len() && s[k].commitment@ == commitment ==> spec_find_receipt(s, commitment)
                == Some(s[k])),
        spec_find_receipt(s, commitment) matches Some(rec) ==> rec.commitment@ == commitment,
    decreases s.len(),
{
    if s.len() > 0 {
        let df = s.drop_first();
        lemma_find_receipt_char(df, commitment);
        assert(forall|k: int| 0 <= k < df.len() ==> df[k] == s[k + 1]);
        if s[0].commitment@ == commitment {
            assert(spec_find_receipt(s, commitment) == Some(s[0]));
            if unique_commitments(s) {
                assert forall|k: int|
                    0 <= k < s.len() && s[k].commitment@ == commitment implies spec_find_receipt(
                    s,
                    commitment,
                ) == Some(s[k]) by {
                    if k > 0 {
                        assert(s[0].commitment@ != s[k].commitment@);
                    }
                }
            }
        } else {
            assert(spec_find_receipt(s, commitment) == spec_find_receipt(df, commitment));
            if spec_find_receipt(s, commitment) is None {
                assert forall|k: int| 0 <= k < s.len() implies s[k].commitment@ != commitment by {
                    if k > 0 {
                        assert(df[k - 1] == s[k]);
                        assert(df[k - 1].commitment@ != commitment);
                    }
                }
            }
            if forall|k: int| 0 <= k < s.len() ==> s[k].commitment@ != commitment {
                assert forall|k: int| 0 <= k < df.len() implies df[k].commitment@ != commitment by {
                    assert(df[k] == s[k + 1]);
                    assert(s[k + 1].commitment@ != commitment);
                }
                assert(spec_find_receipt(df, commitment) is None);
            }
            if unique_commitments(s) {
                assert forall|i: int, j: int|
                    0 <= i < j < df.len() implies df[i].commitment@ != df[j].commitment@ by {
                    assert(df[i] == s[i + 1]);
                    assert(df[j] == s[j + 1]);
                }
                assert(unique_commitments(df));
                assert forall|k: int|
                    0 <= k < s.len() && s[k].commitment@ == commitment implies spec_find_receipt(
                    s,
                    commitment,
                ) == Some(s[k]) by {
                    assert(k > 0);
                    assert(df[k - 1] == s[k]);
                    assert(spec_find_receipt(df, commitment) == Some(df[k - 1]));
                }
            }
        }
    }
}

/// Decide the invoker gate: whether the program that invoked the write path
/// is the expected callback program. The driver reads the invoking program's
/// identity from its execution environment and hands it in as plain bytes.
pub fn invoked_by_expected_program(invoker: &[u8; 32], expected: &[u8; 32]) -> (r: bool)
    ensures
        r <==> invoker@ == expected@,
{
    bytes32_eq(invoker, expected)
}

/// The durable, idempotent receipt store. Its view is the sequence of
/// receipts, each commitment recorded at most once.
pub struct ReceiptLedger {
    records: Vec<Receipt>,
    expected_invoker: Option<[u8; 32]>,
}

impl View for ReceiptLedger {
    type V = Seq<Receipt>;

    closed spec fn view(&self) -> Seq<Receipt> {
        self.records@
    }
}

impl ReceiptLedger {
    /// Each commitment names at most one receipt.
    pub open spec fn wf(&self) -> bool {
        unique_commitments(self@)
    }

    /// The invoker restriction: `None` admits every caller, `Some` restricts
    /// the write path to one expected upstream program.
    pub closed spec fn gate(&self) -> Option<[u8; 32]> {
        self.expected_invoker
    }

    /// An empty ledger with the given invoker gate.
    pub fn new(expected_invoker: Option<[u8; 32]>) -> (l: ReceiptLedger)
        ensures
            l@ == Seq::<Receipt>::empty(),
            l.wf(),
            l.gate() == expected_invoker,
    {
        ReceiptLedger { records: Vec::new(), expected_invoker }
    }

    /// Pure lookup of the receipt for a commitment; no side effects.
    pub fn get_receipt(&self, commitment: &[u8; 32]) -> (r: Option<Receipt>)
        ensures
            r == spec_find_receipt(self@, commitment@),
    {
        let mut i: usize = 0;
        proof {
            assert(self@.skip(0) =~= self@);
        }
        while i < self.records.len()
            invariant
                i <= self.records.len(),
                spec_find_receipt(self@, commitment@) == spec_find_receipt(
                    self@.skip(i as int),
                    commitment@,
                ),
            decreases self.records.len() - i,
        {
            if bytes32_eq(&self.records[i].commitment, commitment) {
                proof {
                    assert(self@.skip(i as int)[0] == self@[i as int]);
                }
                return Some(self.records[i]);
            }
            proof {
                assert(self@.skip(i as int)[0] == self@[i as int]);
                assert(self@.skip(i as int).drop_first() =~= self@.skip(i as int + 1));
            }
            i += 1;
        }
        proof {
            assert(self@.skip(i as int) =~= Seq::<Receipt>::empty());
        }
        None
    }

    /// Record the disclosed tier for a commitment, once, and produce the
    /// public event describing the durable record.
    ///
    /// An unexpected invoker is turned away without touching storage. A
    /// commitment that already has a receipt gets `AlreadyExists`, the
    /// existing record's tier and timestamp stay untouched, and the event
    /// carries them. Otherwise the receipt is durably recorded with the given
    /// tier and timestamp and the write returns `Created`.
    pub fn complete_receipt(
        &mut self,
        amount_tier: u8,
        commitment: [u8; 32],
        invoker: &[u8; 32],
        now: i64,
    ) -> (r: Result<(WriteOutcome, DonationVerified), TipjarError>)
        requires
            old(self).wf(),
        ensures
            final(self).wf(),
            final(self).gate() == old(self).gate(),
            final(self)@ == spec_complete(
                old(self)@,
                amount_tier,
                commitment,
                now,
                gate_admits(old(self).gate(), invoker@),
            ).0,
            r matches Ok(out) ==> spec_complete(
                old(self)@,
                amount_tier,
                commitment,
                now,
                gate_admits(old(self).gate(), invoker@),
            ).1 == Ok::<WriteOutcome, TipjarError>(out.0) && out.1.commitment@ == commitment@
                && spec_find_receipt(final(self)@, commitment@) == Some(
                (Receipt { amount_tier: out.1.tier, commitment: out.1.commitment, ts: out.1.ts }),
            ),
            r matches Err(e) ==> spec_complete(
                old(self)@,
                amount_tier,
                commitment,
                now,
                gate_admits(old(self).gate(), invoker@),
            ).1 == Err::<WriteOutcome, TipjarError>(e) && final(self)@ == old(self)@,
    {
        let gate_ok = match self.expected_invoker {
            None => true,
            Some(expected) => invoked_by_expected_program(invoker, &expected),
        };
        if !gate_ok {
            return Err(TipjarError::InvalidInvoker);
        }
        match self.get_receipt(&commitment) {
            Some(existing) => {
                proof {
                    lemma_find_receipt_char(self@, commitment@);
                }
                Ok(
                    (
                        WriteOutcome::AlreadyExists,
                        DonationVerified {
                            commitment: existing.commitment,
                            tier: existing.amount_tier,
                            ts: existing.ts,
                        },
                    ),
                )
            },
            None => {
                proof {
                    lemma_find_receipt_char(self@, commitment@);
                    receipt_round_trip(self@, amount_tier, commitment, now, true);
                }
                self.records.push(Receipt { amount_tier, commitment, ts: now });
                Ok(
                    (
                        WriteOutcome::Created,
                        DonationVerified { commitment, tier: amount_tier, ts: now },
                    ),
                )
            },
        }
    }
}

/// Writing the same commitment twice leaves exactly one record, the first
/// write's: the second write — whatever tier or timestamp it carries — returns
/// `AlreadyExists` and changes nothing.
pub proof fn ledger_idempotence(
    s: Seq<Receipt>,
    tier_1: u8,
    now_1: i64,
    tier_2: u8,
    now_2: i64,
    commitment: [u8; 32],
)
    requires
        unique_commitments(s),
        spec_find_receipt(s, commitment@) is None,
    ensures
        spec_complete(s, tier_1, commitment, now_1, true).1 == Ok::<
            WriteOutcome,
            TipjarError,
        >(WriteOutcome::Created),
        spec_complete(
            spec_complete(s, tier_1, commitment, now_1, true).0,
            tier_2,
            commitment,
            now_2,
            true,
        ).1 == Ok::<WriteOutcome, TipjarError>(WriteOutcome::AlreadyExists),
        spec_complete(
            spec_complete(s, tier_1, commitment, now_1, true).0,
            tier_2,
            commitment,
            now_2,
            true,
        ).0 == spec_complete(s, tier_1, commitment, now_1, true).0,
        spec_find_receipt(spec_complete(s, tier_1, commitment, now_1, true).0, commitment@)
            == Some((Receipt { amount_tier: tier_1, commitment, ts: now_1 })),
{
    let written = Receipt { amount_tier: tier_1, commitment, ts: now_1 };
    let s1 = spec_complete(s, tier_1, commitment, now_1, true).0;
    assert(s1 == s.push(written));
    lemma_find_receipt_char(s, commitment@);
    assert(s1[s.len() as int] == written);
    lemma_find_receipt_char(s1, commitment@);
}

/// A `Created` write is durable and exact: reading the commitment afterwards
/// returns a receipt whose tier, commitment and timestamp are exactly what was
/// written.
pub proof fn receipt_round_trip(
    s: Seq<Receipt>,
    amount_tier: u8,
    commitment: [u8; 32],
    now: i64,
    gate_ok: bool,
)
    requires
        unique_commitments(s),
        spec_complete(s, amount_tier, commitment, now, gate_ok).1 == Ok::<
            WriteOutcome,
            TipjarError,
        >(WriteOutcome::Created),
    ensures
        spec_find_receipt(spec_complete(s, amount_tier, commitment, now, gate_ok).0, commitment@)
            == Some((Receipt { amount_tier, commitment, ts: now })),
        unique_commitments(spec_complete(s, amount_tier, commitment, now, gate_ok).0),
{
    let written = Receipt { amount_tier, commitment, ts: now };
    let s1 = spec_complete(s, amount_tier, commitment, now, gate_ok).0;
    assert(s1 == s.push(written));
    lemma_find_receipt_char(s, commitment@);
    assert(s1[s.len() as int] == written);
    lemma_find_receipt_char(s1, commitment@);
}

/// The byte form of the `receipt` domain tag.
pub open spec fn receipt_tag() -> Seq<u8> {
    seq![114u8, 101u8, 99u8, 101u8, 105u8, 112u8, 116u8]
}

/// Build the `receipt` domain tag ("receipt" in ASCII).
pub fn receipt_tag_bytes() -> (v: Vec<u8>)
    ensures
        v@ == receipt_tag(),
{
    let mut v: Vec<u8> = Vec::new();
    v.push(114u8);
    v.push(101u8);
    v.push(99u8);
    v.push(101u8);
    v.push(105u8);
    v.push(112u8);
    v.push(116u8);
    proof {
        assert(v@ =~= receipt_tag());
    }
    v
}

/// The derived storage address of the receipt for `commitment` under the
/// ledger program `program_id`, with the bump seed that proves the
/// derivation. Caller and ledger can both compute it, so neither can spoof
/// the record's location.
pub fn derive_receipt_address(commitment: &[u8; 32], program_id: &[u8; 32]) -> (r: Option<
    ([u8; 32], u8),
>)
    ensures
        r matches Some(p) ==> pda_of(receipt_tag(), commitment@, program_id@) == Some((p.0@, p.1)),
        r is None ==> pda_of(receipt_tag(), commitment@, program_id@) is None,
{
    let tag = receipt_tag_bytes();
    derive_address(tag.as_slice(), commitment.as_slice(), program_id)
}

} // verus!
