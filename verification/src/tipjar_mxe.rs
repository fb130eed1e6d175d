//! The computation coordinator: admits each computation slot at most once,
//! hands the encrypted request to the confidential executor, and consumes the
//! executor's asynchronous verdict exactly once per admitted slot.
//!
//! The driver around the library performs the actual enqueue and delivers the
//! callback; every decision — admission, the argument list, the per-slot state
//! machine — is taken here.

use vstd::prelude::*;

verus! {

/// Why the coordinator refuses a submission or a callback.
#[derive(Clone, Copy, PartialEq, Eq, Structural, Debug)]
pub enum ErrorCode {
    /// The computation was aborted by the executor.
    AbortedComputation,
    /// The executor cluster is not configured.
    ClusterNotSet,
    /// A computation with this slot is already in flight or finished.
    SlotInFlight,
    /// The ciphertext or the encryption key has the wrong size.
    InvalidArgument,
    /// The execution environment refused to enqueue the computation.
    QueueRejected,
    /// A callback arrived for a slot that is not pending.
    DuplicateCallback,
    /// The executor reported a tier outside the allowed range.
    InvalidTier,
}

/// The per-slot state machine. `Pending` is the only non-terminal state;
/// `Completed` and `Aborted` are terminal and a slot reaches one of them at
/// most once.
#[derive(Clone, Copy, PartialEq, Eq, Structural, Debug)]
pub enum SlotState {
    Pending,
    Completed(u8),
    Aborted,
}

/// The executor's verdict for one computation, delivered through the callback.
#[derive(Clone, Copy, PartialEq, Eq, Structural, Debug)]
pub enum ComputationOutputs {
    Success(u8),
    Aborted,
}

/// One argument handed to the confidential executor with a queued computation.
#[derive(Debug)]
pub enum Argument {
    ArcisPubkey(Vec<u8>),
    PlaintextU128(u128),
    EncryptedU8(Vec<u8>),
}

/// The public tier-disclosure event: it carries only the tier, never the
/// amount.
#[derive(Clone, Copy, PartialEq, Eq, Structural, Debug)]
pub struct DonationVerifiedEvent {
    pub tier: u8,
}

/// Each slot names at most one record.
pub open spec fn unique_slots(s: Seq<(u64, SlotState)>) -> bool {
    forall|i: int, j: int| 0 <= i < j < s.len() ==> s[i].0 != s[j].0
}

/// The state recorded for `slot`, `None` where no record exists.
pub open spec fn spec_find_slot(s: Seq<(u64, SlotState)>, slot: u64) -> Option<SlotState>
    decreases s.len(),
{
    if s.len() == 0 {
        None
    } else if s[0].0 == slot {
        Some(s[0].1)
    } else {
        spec_find_slot(s.drop_first(), slot)
    }
}

/// Rewrite the state of `slot` wherever a record names it.
pub open spec fn spec_mark(s: Seq<(u64, SlotState)>, slot: u64, st: SlotState) -> Seq<
    (u64, SlotState),
> {
    s.map(
        |k: int, p: (u64, SlotState)|
            if p.0 == slot {
                (slot, st)
            } else {
                p
            },
    )
}

/// What a submission does: the slot records afterwards, and the verdict.
/// A colliding slot, a malformed payload and a refused enqueue change nothing;
/// an admitted request records its slot as `Pending`.
pub open spec fn spec_submit(
    s: Seq<(u64, SlotState)>,
    slot: u64,
    ciphertext: Seq<u8>,
    pub_key: Seq<u8>,
    queue_accepted: bool,
) -> (Seq<(u64, SlotState)>, Result<(), ErrorCode>) {
    if spec_find_slot(s, slot) is Some {
        (s, Err(ErrorCode::SlotInFlight))
    } else if ciphertext.len() != 32 || pub_key.len() != 32 {
        (s, Err(ErrorCode::InvalidArgument))
    } else if !queue_accepted {
        (s, Err(ErrorCode::QueueRejected))
    } else {
        (s.push((slot, SlotState::Pending)), Ok(()))
    }
}

/// What a callback does: the slot records afterwards, and either the disclosed
/// tier or the error. Only a pending slot moves, and only once: a success with
/// a valid tier completes it, an abort closes it without a tier, anything else
/// is refused as a replay and changes nothing.
pub open spec fn spec_callback(
    s: Seq<(u64, SlotState)>,
    slot: u64,
    output: ComputationOutputs,
) -> (Seq<(u64, SlotState)>, Result<u8, ErrorCode>) {
    match spec_find_slot(s, slot) {
        Some(SlotState::Pending) => match output {
            ComputationOutputs::Success(tier) => if tier <= 4 {
                (spec_mark(s, slot, SlotState::Completed(tier)), Ok(tier))
            } else {
                (s, Err(ErrorCode::InvalidTier))
            },
            ComputationOutputs::Aborted => (
                spec_mark(s, slot, SlotState::Aborted),
                Err(ErrorCode::AbortedComputation),
            ),
        },
        _ => (s, Err(ErrorCode::DuplicateCallback)),
    }
}

/// A failed lookup means no record names the slot, and a successful one agrees
/// with the unique record that does.
pub proof fn lemma_find_slot_char(s: Seq<(u64, SlotState)>, slot: u64)
    ensures
        (spec_find_slot(s, slot) is None) <==> (forall|k: int|
            0 <= k < s.len() ==> s[k].0 != slot),
        unique_slots(s) ==> (forall|k: int|
            0 <= k < s.len() && s[k].0 == slot ==> spec_find_slot(s, slot) == Some(s[k].1)),
    decreases s.len(),
{
    if s.len() > 0 {
        let df = s.drop_first();
        lemma_find_slot_char(df, slot);
        assert(forall|k: int| 0 <= k < df.len() ==> df[k] == s[k + 1]);
        if s[0].0 == slot {
            assert(spec_find_slot(s, slot) == Some(s[0].1));
            assert(s[0].0 == slot);
            if unique_slots(s) {
                assert forall|k: int|
                    0 <= k < s.len() && s[k].0 == slot implies spec_find_slot(s, slot) == Some(
                    s[k].1,
                ) by {
                    if k > 0 {
                        assert(s[0].0 != s[k].0);
                    }
                }
            }
        } else {
            assert(spec_find_slot(s, slot) == spec_find_slot(df, slot));
            if spec_find_slot(s, slot) is None {
                assert forall|k: int| 0 <= k < s.len() implies s[k].0 != slot by {
                    if k > 0 {
                        assert(df[k - 1] == s[k]);
                        assert(df[k - 1].0 != slot);
                    }
                }
            }
            if forall|k: int| 0 <= k < s.len() ==> s[k].0 != slot {
                assert forall|k: int| 0 <= k < df.len() implies df[k].0 != slot by {
                    assert(df[k] == s[k + 1]);
                    assert(s[k + 1].0 != slot);
                }
                assert(spec_find_slot(df, slot) is None);
            }
            if unique_slots(s) {
                assert forall|i: int, j: int| 0 <= i < j < df.len() implies df[i].0 != df[j].0 by {
                    assert(df[i] == s[i + 1]);
                    assert(df[j] == s[j + 1]);
                }
                assert(unique_slots(df));
                assert forall|k: int|
                    0 <= k < s.len() && s[k].0 == slot implies spec_find_slot(s, slot) == Some(
                    s[k].1,
                ) by {
                    assert(k > 0);
                    assert(df[k - 1] == s[k]);
                    assert(spec_find_slot(df, slot) == Some(df[k - 1].1));
                }
            }
        }
    }
}

/// Owns the lifecycle of confidential-computation requests. Its view is the
/// sequence of slot records, each slot recorded at most once.
pub struct ComputationCoordinator {
    slots: Vec<(u64, SlotState)>,
}

impl View for ComputationCoordinator {
    type V = Seq<(u64, SlotState)>;

    closed spec fn view(&self) -> Seq<(u64, SlotState)> {
        self.slots@
    }
}

impl ComputationCoordinator {
    /// Every slot names at most one record.
    pub open spec fn wf(&self) -> bool {
        unique_slots(self@)
    }

    /// A coordinator with no slot records.
    pub fn new() -> (c: ComputationCoordinator)
        ensures
            c@ == Seq::<(u64, SlotState)>::empty(),
            c.wf(),
    {
        ComputationCoordinator { slots: Vec::new() }
    }

    /// The state recorded for `slot`: `None` while nothing was admitted under
    /// it, `Pending` from admission to verdict, terminal afterwards.
    pub fn slot_state(&self, slot: u64) -> (r: Option<SlotState>)
        ensures
            r == spec_find_slot(self@, slot),
    {
        let mut i: usize = 0;
        proof {
            assert(self@.skip(0) =~= self@);
        }
        while i < self.slots.len()
            invariant
                i <= self.slots.len(),
                spec_find_slot(self@, slot) == spec_find_slot(self@.skip(i as int), slot),
            decreases self.slots.len() - i,
        {
            if self.slots[i].0 == slot {
                proof {
                    assert(self@.skip(i as int)[0] == self@[i as int]);
                }
                return Some(self.slots[i].1);
            }
            proof {
                assert(self@.skip(i as int)[0] == self@[i as int]);
                assert(self@.skip(i as int).drop_first() =~= self@.skip(i as int + 1));
            }
            i += 1;
        }
        proof {
            assert(self@.skip(i as int) =~= Seq::<(u64, SlotState)>::empty());
        }
        None
    }

    /// Rewrite the state of `slot`. Private: the public paths are admission
    /// and the callback.
    fn mark_slot(&mut self, slot: u64, st: SlotState)
        requires
            old(self).wf(),
        ensures
            final(self).wf(),
            final(self)@ == spec_mark(old(self)@, slot, st),
    {
        let n = self.slots.len();
        let mut i: usize = 0;
        while i < n
            invariant
                i <= n,
                n == self.slots.len(),
                self@.len() == old(self)@.len(),
                forall|k: int|
                    0 <= k < i ==> self@[k] == (if old(self)@[k].0 == slot {
                        (slot, st)
                    } else {
                        old(self)@[k]
                    }),
                forall|k: int| i <= k < self@.len() ==> self@[k] == old(self)@[k],
            decreases n - i,
        {
            if self.slots[i].0 == slot {
                self.slots[i] = (slot, st);
            }
            i += 1;
        }
        proof {
            assert(self@ =~= spec_mark(old(self)@, slot, st));
        }
    }

    /// Admit one confidential-computation request.
    ///
    /// The slot must not collide with any existing record; the ciphertext and
    /// the recipient key must be 32-byte blobs; `queue_accepted` is the
    /// execution environment's enqueue verdict, supplied by the driver. A
    /// refused request changes nothing. An admitted one records its slot
    /// `Pending` and yields the executor's argument list: the recipient key,
    /// the plaintext nonce and the first ciphertext block — the second block
    /// is never queued.
    pub fn verify_donation(
        &mut self,
        computation_offset: u64,
        ciphertext_0: &Vec<u8>,
        ciphertext_1: &Vec<u8>,
        pub_key: &Vec<u8>,
        nonce: u128,
        queue_accepted: bool,
    ) -> (r: Result<Vec<Argument>, ErrorCode>)
        requires
            old(self).wf(),
        ensures
            final(self).wf(),
            final(self)@ == spec_submit(
                old(self)@,
                computation_offset,
                ciphertext_0@,
                pub_key@,
                queue_accepted,
            ).0,
            (r is Ok) <==> (spec_submit(
                old(self)@,
                computation_offset,
                ciphertext_0@,
                pub_key@,
                queue_accepted,
            ).1 is Ok),
            r matches Err(e) ==> spec_submit(
                old(self)@,
                computation_offset,
                ciphertext_0@,
                pub_key@,
                queue_accepted,
            ).1 == Err::<(), ErrorCode>(e),
            r matches Ok(args) ==> args@.len() == 3 && (args@[0] matches Argument::ArcisPubkey(k)
                && k@ == pub_key@) && args@[1] == Argument::PlaintextU128(nonce) && (args@[2]
                matches Argument::EncryptedU8(c) && c@ == ciphertext_0@),
    {
        match self.slot_state(computation_offset) {
            Some(_) => Err(ErrorCode::SlotInFlight),
            None => {
                if ciphertext_0.len() != 32 || pub_key.len() != 32 {
                    Err(ErrorCode::InvalidArgument)
                } else if !queue_accepted {
                    Err(ErrorCode::QueueRejected)
                } else {
                    proof {
                        lemma_find_slot_char(self@, computation_offset);
                    }
                    self.slots.push((computation_offset, SlotState::Pending));
                    let mut args: Vec<Argument> = Vec::new();
                    args.push(Argument::ArcisPubkey(pub_key.clone()));
                    args.push(Argument::PlaintextU128(nonce));
                    args.push(Argument::EncryptedU8(ciphertext_0.clone()));
                    Ok(args)
                }
            },
        }
    }

    /// Consume the executor's verdict for one slot.
    ///
    /// A pending slot moves to its terminal state exactly once: an abort
    /// surfaces as `AbortedComputation`, a success with a valid tier yields
    /// the tier-disclosure event. A callback for any other slot — unknown or
    /// already terminal — is refused as a replay and changes nothing.
    pub fn verify_donation_v2_callback(
        &mut self,
        computation_offset: u64,
        output: ComputationOutputs,
    ) -> (r: Result<DonationVerifiedEvent, ErrorCode>)
        requires
            old(self).wf(),
        ensures
            final(self).wf(),
            final(self)@ == spec_callback(old(self)@, computation_offset, output).0,
            r matches Ok(ev) ==> spec_callback(old(self)@, computation_offset, output).1
                == Ok::<u8, ErrorCode>(ev.tier),
            r matches Err(e) ==> spec_callback(old(self)@, computation_offset, output).1
                == Err::<u8, ErrorCode>(e),
    {
        match self.slot_state(computation_offset) {
            Some(SlotState::Pending) => match output {
                ComputationOutputs::Success(tier) => {
                    if tier <= 4 {
                        self.mark_slot(computation_offset, SlotState::Completed(tier));
                        Ok(DonationVerifiedEvent { tier })
                    } else {
                        Err(ErrorCode::InvalidTier)
                    }
                },
                ComputationOutputs::Aborted => {
                    self.mark_slot(computation_offset, SlotState::Aborted);
                    Err(ErrorCode::AbortedComputation)
                },
            },
            _ => Err(ErrorCode::DuplicateCallback),
        }
    }
}

/// Two submissions with the same computation slot cannot both be admitted:
/// once the first is accepted, the second — whatever its payload or arrival
/// order — is refused as a slot collision and changes nothing.
pub proof fn slot_exclusivity(
    s: Seq<(u64, SlotState)>,
    slot: u64,
    ct_a: Seq<u8>,
    key_a: Seq<u8>,
    queue_a: bool,
    ct_b: Seq<u8>,
    key_b: Seq<u8>,
    queue_b: bool,
)
    requires
        unique_slots(s),
        spec_submit(s, slot, ct_a, key_a, queue_a).1 is Ok,
    ensures
        spec_find_slot(spec_submit(s, slot, ct_a, key_a, queue_a).0, slot) == Some(
            SlotState::Pending,
        ),
        spec_submit(spec_submit(s, slot, ct_a, key_a, queue_a).0, slot, ct_b, key_b, queue_b).1
            == Err::<(), ErrorCode>(ErrorCode::SlotInFlight),
        spec_submit(spec_submit(s, slot, ct_a, key_a, queue_a).0, slot, ct_b, key_b, queue_b).0
            == spec_submit(s, slot, ct_a, key_a, queue_a).0,
{
    let s1 = spec_submit(s, slot, ct_a, key_a, queue_a).0;
    assert(s1 == s.push((slot, SlotState::Pending)));
    lemma_find_slot_char(s, slot);
    assert(unique_slots(s1));
    lemma_find_slot_char(s1, slot);
    assert(s1[s.len() as int].0 == slot);
    assert(spec_find_slot(s1, slot) == Some(s1[s.len() as int].1));
}

} // verus!
