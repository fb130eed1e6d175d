//! The composed protocol: one coordinator, one receipt ledger, and the
//! callback path that connects them — the only path that ever writes the
//! ledger. The ledger's invoker gate is set to the callback handler's own
//! identity, so the composed write can never be turned away.

use vstd::prelude::*;

use crate::tipjar_mxe::spec_callback;
use crate::tipjar_mxe::spec_find_slot;
use crate::tipjar_mxe::ComputationCoordinator;
use crate::tipjar_mxe::ComputationOutputs;
use crate::tipjar_mxe::DonationVerifiedEvent;
use crate::tipjar_mxe::ErrorCode;
use crate::tipjar_mxe::SlotState;
use crate::tipjar_receipts::gate_admits;
use crate::tipjar_receipts::spec_complete;
use crate::tipjar_receipts::spec_find_receipt;
use crate::tipjar_receipts::DonationVerified;
use crate::tipjar_receipts::Receipt;
use crate::tipjar_receipts::ReceiptLedger;
use crate::tipjar_receipts::TipjarError;
use crate::tipjar_receipts::WriteOutcome;

verus! {

/// What one callback delivery does to the whole protocol: the slot records,
/// the ledger records, and either the disclosed tier or the error. Only a
/// successful callback for a pending slot reaches the ledger.
pub open spec fn spec_deliver(
    slots: Seq<(u64, SlotState)>,
    records: Seq<Receipt>,
    slot: u64,
    output: ComputationOutputs,
    commitment: [u8; 32],
    now: i64,
) -> (Seq<(u64, SlotState)>, Seq<Receipt>, Result<u8, ErrorCode>) {
    let stepped = spec_callback(slots, slot, output);
    match stepped.1 {
        Err(e) => (stepped.0, records, Err(e)),
        Ok(tier) => (
            stepped.0,
            spec_complete(records, tier, commitment, now, true).0,
            Ok(tier),
        ),
    }
}

/// The whole coordination protocol: the slot state machines, the receipt
/// ledger, and the identity under which the callback handler writes.
pub struct DonationProtocol {
    pub coordinator: ComputationCoordinator,
    pub ledger: ReceiptLedger,
    pub handler_identity: [u8; 32],
}

impl DonationProtocol {
    /// Both components are well formed and the ledger's gate admits the
    /// handler.
    pub open spec fn wf(&self) -> bool {
        &&& self.coordinator.wf()
        &&& self.ledger.wf()
        &&& gate_admits(self.ledger.gate(), self.handler_identity@)
    }

    /// A fresh protocol: no slots, no receipts, and the ledger's write path
    /// gated to the handler's identity.
    pub fn new(handler_identity: [u8; 32]) -> (p: DonationProtocol)
        ensures
            p.wf(),
            p.coordinator@ == Seq::<(u64, SlotState)>::empty(),
            p.ledger@ == Seq::<Receipt>::empty(),
            p.handler_identity@ == handler_identity@,
    {
        DonationProtocol {
            coordinator: ComputationCoordinator::new(),
            ledger: ReceiptLedger::new(Some(handler_identity)),
            handler_identity,
        }
    }

    /// Deliver one executor verdict and, on success, record the receipt.
    ///
    /// A refused callback — replayed, unknown slot, aborted, or a tier out of
    /// range — leaves the ledger exactly as it was. A successful one disclosed
    /// as tier `t` hands `(commitment, t)` to the ledger; the returned event
    /// always describes the durable record for the commitment.
    pub fn deliver_callback(
        &mut self,
        computation_offset: u64,
        output: ComputationOutputs,
        commitment: [u8; 32],
        now: i64,
    ) -> (r: Result<(DonationVerifiedEvent, WriteOutcome, DonationVerified), ErrorCode>)
        requires
            old(self).wf(),
        ensures
            final(self).wf(),
            final(self).handler_identity@ == old(self).handler_identity@,
            final(self).ledger.gate() == old(self).ledger.gate(),
            final(self).coordinator@ == spec_deliver(
                old(self).coordinator@,
                old(self).ledger@,
                computation_offset,
                output,
                commitment,
                now,
            ).0,
            final(self).ledger@ == spec_deliver(
                old(self).coordinator@,
                old(self).ledger@,
                computation_offset,
                output,
                commitment,
                now,
            ).1,
            r matches Err(e) ==> spec_deliver(
                old(self).coordinator@,
                old(self).ledger@,
                computation_offset,
                output,
                commitment,
                now,
            ).2 == Err::<u8, ErrorCode>(e) && final(self).ledger@ == old(self).ledger@,
            r matches Ok(out) ==> spec_deliver(
                old(self).coordinator@,
                old(self).ledger@,
                computation_offset,
                output,
                commitment,
                now,
            ).2 == Ok::<u8, ErrorCode>(out.0.tier) && Ok::<WriteOutcome, TipjarError>(out.1)
                == spec_complete(old(self).ledger@, out.0.tier, commitment, now, true).1
                && out.2.commitment@ == commitment@ && spec_find_receipt(
                final(self).ledger@,
                commitment@,
            ) == Some(
                (Receipt { amount_tier: out.2.tier, commitment: out.2.commitment, ts: out.2.ts }),
            ),
    {
        match self.coordinator.verify_donation_v2_callback(computation_offset, output) {
            Err(e) => Err(e),
            Ok(event) => {
                let invoker = self.handler_identity;
                match self.ledger.complete_receipt(event.tier, commitment, &invoker, now) {
                    Ok((outcome, record)) => Ok((event, outcome, record)),
                    Err(_) => {
                        // unreachable: by the protocol invariant the handler
                        // is an admitted invoker
                        proof {
                            assert(false);
                        }
                        Err(ErrorCode::DuplicateCallback)
                    },
                }
            },
        }
    }
}

/// A callback for a slot already in a terminal state is always refused as a
/// duplicate: neither the slot records nor the ledger move, whatever the
/// verdict or the commitment offered with it.
pub proof fn at_most_one_callback(
    slots: Seq<(u64, SlotState)>,
    records: Seq<Receipt>,
    slot: u64,
    output: ComputationOutputs,
    commitment: [u8; 32],
    now: i64,
)
    requires
        spec_find_slot(slots, slot) matches Some(st) && st != SlotState::Pending,
    ensures
        spec_deliver(slots, records, slot, output, commitment, now).2 == Err::<
            u8,
            ErrorCode,
        >(ErrorCode::DuplicateCallback),
        spec_deliver(slots, records, slot, output, commitment, now).0 == slots,
        spec_deliver(slots, records, slot, output, commitment, now).1 == records,
{
}

/// An aborted computation never writes the ledger: whatever slot it names and
/// whatever commitment is offered, every receipt stays exactly as it was and
/// no new one appears.
pub proof fn abort_never_writes(
    slots: Seq<(u64, SlotState)>,
    records: Seq<Receipt>,
    slot: u64,
    commitment: [u8; 32],
    now: i64,
)
    ensures
        spec_deliver(slots, records, slot, ComputationOutputs::Aborted, commitment, now).1
            == records,
        spec_find_receipt(
            spec_deliver(slots, records, slot, ComputationOutputs::Aborted, commitment, now).1,
            commitment@,
        ) == spec_find_receipt(records, commitment@),
{
}

} // verus!
