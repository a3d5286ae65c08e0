//! The on-chain scheduling state machine around the singleton record.
//!
//! `init_global` creates the record and arms the first randomness request;
//! `trigger_update` validates a callback, derives the new parameters, and
//! describes the fee change and the re-armed request.  `trigger_update`
//! never touches the record itself: the runtime performs the external
//! sub-calls first and commits the returned record value with
//! `apply_update` only when every one of them succeeded, so a failing
//! sub-call leaves no partial state behind.

use vstd::prelude::*;
use crate::codec::{encode, spec_encoded, ContainerParams, ParamsModel};
use crate::derivation::{
    spec_due_at, spec_new_fee_bp, spec_next_delay_hours, HOURLY_SLOTS, MAX_RAND_VALUE,
};
use crate::errors::RandomnessRequestError;
use crate::identity::{identity_eq, Identity};

verus! {

/// Slots between initialization and the first update window.
pub const INIT_DELAY_SLOTS: u64 = 5;

/// The transfer fee the schedule starts at: the maximum, in basis points.
pub const INIT_FEE_BP: u16 = 6000;

/// The singleton schedule record: update timing, the governed token, the
/// attestation bindings, the outstanding request and the current fee.
#[derive(Clone, Copy, Debug)]
pub struct Global {
    /// Hours from the accepted update until the next one is due.
    pub hour_to_next_update: u8,
    /// The slot at and after which the next callback is acceptable.
    pub next_update_slot: u64,
    /// The governed token; immutable after initialization.
    pub mint: Identity,
    /// The attested-compute binding authorized to answer requests.
    pub switchboard_function: Identity,
    /// Attestation infrastructure binding; immutable after initialization.
    pub attestation_program_state: Identity,
    /// Attestation infrastructure binding; immutable after initialization.
    pub attestation_queue: Identity,
    /// The one outstanding randomness request, if any.
    pub switchboard_request: Option<Identity>,
    /// The current transfer fee in basis points.
    pub current_transfer_fee_bp: u16,
}

/// What arming a randomness request hands to the attestation queue: the
/// encoded parameters, the payload-size hint, and the slot at which the
/// callback becomes valid.
pub struct OutboundRequest {
    pub params: Vec<u8>,
    pub max_params_len: u32,
    pub valid_after_slot: u64,
}

/// Everything an accepted callback asks of the runtime: the new record
/// value to commit, the fee change to submit to the token-fee service, and
/// the re-armed request for the next cycle.
#[derive(Clone, Copy, Debug)]
pub struct UpdateOutcome {
    /// The record as it must read after the commit.
    pub updated: Global,
    /// The token whose fee changes.
    pub fee_mint: Identity,
    /// The new transfer fee in basis points.
    pub new_fee_bp: u16,
    /// The maximum absolute fee handed to the fee service; always zero.
    pub fee_max_amount: u64,
    /// The slot after which the re-armed request may execute.
    pub rearm_valid_after_slot: u64,
}

/// The callback time-gate: a callback is acceptable only at or after the
/// scheduled due slot.
pub open spec fn time_gate_open(g: Global, now_slot: u64) -> bool {
    now_slot >= g.next_update_slot
}

/// The reported result, truncated to 8 bits, must lie below
/// `MAX_RAND_VALUE`.
pub open spec fn result_in_bounds(result: u64) -> bool {
    (result as u8) < MAX_RAND_VALUE
}

/// The callback must come from the bound attested worker and name exactly
/// the outstanding request.
pub open spec fn callback_authentic(g: Global, caller_function: Identity, request: Identity) -> bool {
    &&& caller_function.bytes@ == g.switchboard_function.bytes@
    &&& (g.switchboard_request matches Some(req) && req.bytes@ == request.bytes@)
}

/// Creates the schedule record and describes the first randomness request.
///
/// Initialization happens once: when a record already exists, the call is
/// an idempotent no-op that returns that record unchanged and arms
/// nothing, so re-use can neither reset the fee nor silently re-arm or
/// replace the outstanding request.  On first use the record starts at
/// the maximum fee, owes its first update a small fixed delay ahead, and
/// is armed with the given request identity; the outbound request carries
/// the canonical encoding of this program's parameters with the full
/// result range.
pub fn init_global(
    existing: Option<&Global>,
    hour_to_next_update: u8,
    now_slot: u64,
    program_id: Identity,
    global_id: Identity,
    mint: Identity,
    switchboard_function: Identity,
    attestation_program_state: Identity,
    attestation_queue: Identity,
    switchboard_request: Identity,
) -> (r: (Global, Option<OutboundRequest>))
    requires
        now_slot + INIT_DELAY_SLOTS <= u64::MAX,
    ensures
        existing matches Some(g) ==> r.0 == *g && r.1 is None,
        existing is None ==> r.0 == (Global {
            hour_to_next_update,
            next_update_slot: (now_slot + INIT_DELAY_SLOTS) as u64,
            mint,
            switchboard_function,
            attestation_program_state,
            attestation_queue,
            switchboard_request: Some(switchboard_request),
            current_transfer_fee_bp: INIT_FEE_BP,
        }),
        existing is None ==> (r.1 matches Some(o) && {
            &&& o.params@ == spec_encoded(
                (ParamsModel {
                    program_id: program_id.bytes@,
                    max_value: MAX_RAND_VALUE,
                    global: global_id.bytes@,
                    mint: mint.bytes@,
                }),
            )
            &&& o.max_params_len == o.params@.len()
            &&& o.valid_after_slot == now_slot + INIT_DELAY_SLOTS
        }),
{
    if let Some(g) = existing {
        return (*g, None);
    }
    let params = encode(
        &ContainerParams { program_id, max_value: MAX_RAND_VALUE, global: global_id, mint },
    );
    let max_params_len = params.len() as u32;
    let valid_after_slot = now_slot + INIT_DELAY_SLOTS;
    let record = Global {
        hour_to_next_update,
        next_update_slot: valid_after_slot,
        mint,
        switchboard_function,
        attestation_program_state,
        attestation_queue,
        switchboard_request: Some(switchboard_request),
        current_transfer_fee_bp: INIT_FEE_BP,
    };
    (record, Some(OutboundRequest { params, max_params_len, valid_after_slot }))
}

/// Validates a callback against the record and, when it is acceptable,
/// derives the record's next value together with the fee change and the
/// re-armed request.
///
/// The checks run in a fixed order — time-gate, result bounds,
/// authenticity — and each rejection names its own error while the record
/// is left untouched (the record is only read here; `apply_update`
/// commits).  Acceptance is owed exactly when all three checks pass.
pub fn trigger_update(
    g: &Global,
    now_slot: u64,
    result: u64,
    caller_function: Identity,
    request: Identity,
    new_request: Identity,
) -> (r: Result<UpdateOutcome, RandomnessRequestError>)
    requires
        now_slot + HOURLY_SLOTS * 24 <= u64::MAX,
    ensures
        r matches Err(e) && e == RandomnessRequestError::RequestNotReady <==> !time_gate_open(
            *g,
            now_slot,
        ),
        r matches Err(e) && e == RandomnessRequestError::RandomResultOutOfBounds <==> (
        time_gate_open(*g, now_slot) && !result_in_bounds(result)),
        r matches Err(e) && e == RandomnessRequestError::AuthenticityMismatch <==> (
        time_gate_open(*g, now_slot) && result_in_bounds(result) && !callback_authentic(
            *g,
            caller_function,
            request,
        )),
        r matches Ok(o) <==> (time_gate_open(*g, now_slot) && result_in_bounds(result)
            && callback_authentic(*g, caller_function, request)),
        r matches Ok(o) ==> {
            &&& o.updated.hour_to_next_update == spec_next_delay_hours(now_slot, result as u8)
            &&& o.updated.next_update_slot == spec_due_at(now_slot, result as u8)
            &&& o.updated.current_transfer_fee_bp == spec_new_fee_bp(result as u8)
            &&& o.updated.mint == g.mint
            &&& o.updated.switchboard_function == g.switchboard_function
            &&& o.updated.attestation_program_state == g.attestation_program_state
            &&& o.updated.attestation_queue == g.attestation_queue
            &&& o.updated.switchboard_request == Some(new_request)
            &&& o.fee_mint == g.mint
            &&& o.new_fee_bp == spec_new_fee_bp(result as u8)
            &&& o.fee_max_amount == 0
            &&& o.rearm_valid_after_slot == o.updated.next_update_slot
            &&& 1 <= o.updated.hour_to_next_update <= 24
            &&& o.updated.current_transfer_fee_bp <= 6000
            &&& o.updated.current_transfer_fee_bp % 1000 == 0
        },
{
    if now_slot < g.next_update_slot {
        return Err(RandomnessRequestError::RequestNotReady);
    }
    let raw = result as u8;
    if raw >= MAX_RAND_VALUE {
        return Err(RandomnessRequestError::RandomResultOutOfBounds);
    }
    let authentic = identity_eq(&caller_function, &g.switchboard_function) && (match &g
        .switchboard_request {
        Some(req) => identity_eq(req, &request),
        None => false,
    });
    if !authentic {
        return Err(RandomnessRequestError::AuthenticityMismatch);
    }
    let d = crate::derivation::derive(now_slot, raw);
    let updated = Global {
        hour_to_next_update: d.next_delay_hours,
        next_update_slot: d.due_at,
        mint: g.mint,
        switchboard_function: g.switchboard_function,
        attestation_program_state: g.attestation_program_state,
        attestation_queue: g.attestation_queue,
        switchboard_request: Some(new_request),
        current_transfer_fee_bp: d.new_fee_bp,
    };
    Ok(
        UpdateOutcome {
            updated,
            fee_mint: g.mint,
            new_fee_bp: d.new_fee_bp,
            fee_max_amount: 0,
            rearm_valid_after_slot: d.due_at,
        },
    )
}

/// Replay rejection: whenever the record is armed with a request other
/// than some previously consumed one, the consumed identity can no longer
/// authenticate a callback, whoever presents it — so once an accepted
/// update re-arms the record with a fresh request, submitting the old
/// identity a second time is rejected.
pub proof fn lemma_consumed_request_rejected(g: Global, consumed: Identity)
    requires
        g.switchboard_request matches Some(armed) && armed.bytes@ != consumed.bytes@,
    ensures
        forall|caller: Identity| !callback_authentic(g, caller, consumed),
{
}

/// Commits an accepted update to the record.  The runtime calls this only
/// after the fee sub-call and the re-arm both succeeded; before that the
/// record still holds its prior value, so a failing sub-call retains the
/// pre-call state in full.
pub fn apply_update(g: &mut Global, outcome: &UpdateOutcome)
    ensures
        *final(g) == outcome.updated,
{
    *g = outcome.updated;
}

} // verus!
