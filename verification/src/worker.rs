//! The off-chain worker: decode the request, sample, and build the exact
//! callback instruction the scheduling state machine expects.

use vstd::prelude::*;
use crate::codec::{spec_decode, ContainerParams};
use crate::errors::Error;
use crate::identity::Identity;
use crate::sampler::{generate_randomness, spec_sample};

verus! {

/// The token program of the ledger, `TokenkegQfeZyiNwAJbNbGKPFXCWuBvf9Ss623VQ5DA`.
pub const TOKEN_PROGRAM_ID: [u8; 32] = [
    6, 221, 246, 225, 215, 101, 161, 147, 217, 203, 225, 70, 206, 235, 121, 172, 28, 180, 133,
    237, 95, 91, 55, 145, 58, 140, 245, 133, 126, 255, 0, 169,
];

/// The extended token program, `TokenzQdBNbLqP5VEhdkAS6EPFLC1PHnBqCXEpPxuEb`.
pub const TOKEN_2022_PROGRAM_ID: [u8; 32] = [
    6, 221, 246, 225, 238, 117, 143, 222, 24, 66, 93, 188, 228, 108, 205, 218, 182, 26, 252, 77,
    131, 185, 13, 39, 254, 189, 249, 40, 216, 161, 139, 252,
];

/// The associated-token program, `ATokenGPvbdGVxr1b2hvZbsiqW5xWH25efTNsLJA8knL`.
pub const ASSOCIATED_TOKEN_PROGRAM_ID: [u8; 32] = [
    140, 151, 37, 143, 78, 36, 137, 241, 187, 61, 16, 41, 20, 142, 13, 131, 11, 90, 19, 153, 218,
    255, 16, 132, 4, 142, 123, 216, 219, 233, 248, 89,
];

/// The native mint, `So11111111111111111111111111111111111111112`.
pub const NATIVE_MINT_ID: [u8; 32] = [
    6, 155, 136, 87, 254, 171, 129, 132, 251, 104, 127, 99, 70, 24, 192, 53, 218, 196, 57, 220,
    26, 235, 59, 85, 152, 160, 240, 0, 0, 0, 0, 1,
];

/// The system program, `11111111111111111111111111111111` (all zero bytes).
pub const SYSTEM_PROGRAM_ID: [u8; 32] = [
    0, 0, 0, 0, 0, 0, 0, 0, 0, 0, 0, 0, 0, 0, 0, 0, 0, 0, 0, 0, 0, 0, 0, 0, 0, 0, 0, 0, 0, 0, 0,
    0,
];

/// The SHA-256 digest of the given bytes.
pub uninterp spec fn sha256_of(b: Seq<u8>) -> Seq<u8>;

/// Computes the SHA-256 digest.
///
/// Relies on `solana_sha256_hasher::hash`: the 32-byte SHA-256 digest of
/// the input, a function of the input alone.
#[verifier::external_body]
fn sha256(input: &Vec<u8>) -> (r: [u8; 32])
    ensures
        r@ == sha256_of(input@),
{
    solana_sha256_hasher::hash(input.as_slice()).to_bytes()
}

/// The namespaced instruction name `global:trigger_update`, whose digest
/// prefix tags the callback's instruction data.
pub open spec fn trigger_update_preimage() -> Seq<u8> {
    seq![
        0x67u8, 0x6cu8, 0x6fu8, 0x62u8, 0x61u8, 0x6cu8, 0x3au8, 0x74u8, 0x72u8, 0x69u8, 0x67u8,
        0x67u8, 0x65u8, 0x72u8, 0x5fu8, 0x75u8, 0x70u8, 0x64u8, 0x61u8, 0x74u8, 0x65u8,
    ]
}

/// The callback's instruction data: the 8-byte operation tag, then the
/// sampled result as four little-endian bytes.
pub open spec fn spec_callback_data(raw: u8) -> Seq<u8> {
    sha256_of(trigger_update_preimage()).take(8) + seq![raw, 0u8, 0u8, 0u8]
}

/// Builds the callback's instruction data for a sampled result.
pub fn callback_data(raw: u8) -> (r: Vec<u8>)
    ensures
        r@ == spec_callback_data(raw),
{
    let mut preimage: Vec<u8> = Vec::new();
    preimage.push(0x67);
    preimage.push(0x6c);
    preimage.push(0x6f);
    preimage.push(0x62);
    preimage.push(0x61);
    preimage.push(0x6c);
    preimage.push(0x3a);
    preimage.push(0x74);
    preimage.push(0x72);
    preimage.push(0x69);
    preimage.push(0x67);
    preimage.push(0x67);
    preimage.push(0x65);
    preimage.push(0x72);
    preimage.push(0x5f);
    preimage.push(0x75);
    preimage.push(0x70);
    preimage.push(0x64);
    preimage.push(0x61);
    preimage.push(0x74);
    preimage.push(0x65);
    proof {
        assert(preimage@ =~= trigger_update_preimage());
    }
    let digest = sha256(&preimage);
    let mut out: Vec<u8> = Vec::new();
    let mut i: usize = 0;
    while i < 8
        invariant
            0 <= i <= 8,
            digest@ == sha256_of(trigger_update_preimage()),
            out@ == digest@.subrange(0, i as int),
        decreases 8 - i,
    {
        out.push(digest[i]);
        proof {
            assert(digest@.subrange(0, i + 1) =~= digest@.subrange(0, i as int).push(
                digest@[i as int],
            ));
        }
        i += 1;
    }
    out.push(raw);
    out.push(0);
    out.push(0);
    out.push(0);
    proof {
        assert(digest@.subrange(0, 8) =~= sha256_of(trigger_update_preimage()).take(8));
        assert(out@ =~= spec_callback_data(raw));
    }
    out
}

/// One entry of a callback's account list.
#[derive(Clone, Copy, Debug)]
pub struct AccountRef {
    pub id: Identity,
    pub is_writable: bool,
    pub is_signer: bool,
}

/// What the hosting attested runtime knows about the request being
/// served: the enclave's signing identity, the attestation infrastructure
/// bindings, and the request and escrow accounts.
#[derive(Clone, Copy, Debug)]
pub struct WorkerContext {
    pub signer: Identity,
    pub switchboard: Identity,
    pub switchboard_state: Identity,
    pub attestation_queue: Identity,
    pub function: Identity,
    pub request: Identity,
    pub escrow: Identity,
}

/// The one outbound instruction a serviced request produces.
#[derive(Debug)]
pub struct CallbackInstruction {
    pub program_id: Identity,
    pub data: Vec<u8>,
    pub accounts: Vec<AccountRef>,
}

/// The fixed account list of the callback, in the exact order the
/// receiving state machine validates: the schedule record, the token, the
/// enclave signer, the attestation and escrow infrastructure, and the
/// token-service programs.
pub open spec fn spec_callback_accounts(data: ContainerParams, ctx: WorkerContext) -> Seq<
    AccountRef,
> {
    seq![
        AccountRef { id: data.global, is_writable: true, is_signer: false },
        AccountRef { id: data.mint, is_writable: true, is_signer: false },
        AccountRef { id: ctx.signer, is_writable: false, is_signer: true },
        AccountRef { id: ctx.switchboard, is_writable: false, is_signer: false },
        AccountRef { id: ctx.switchboard_state, is_writable: false, is_signer: false },
        AccountRef { id: ctx.attestation_queue, is_writable: false, is_signer: false },
        AccountRef { id: ctx.function, is_writable: false, is_signer: false },
        AccountRef { id: ctx.request, is_writable: false, is_signer: false },
        AccountRef { id: ctx.escrow, is_writable: true, is_signer: false },
        AccountRef {
            id: Identity { bytes: NATIVE_MINT_ID },
            is_writable: false,
            is_signer: false,
        },
        AccountRef {
            id: Identity { bytes: TOKEN_PROGRAM_ID },
            is_writable: false,
            is_signer: false,
        },
        AccountRef {
            id: Identity { bytes: TOKEN_2022_PROGRAM_ID },
            is_writable: false,
            is_signer: false,
        },
        AccountRef {
            id: Identity { bytes: ASSOCIATED_TOKEN_PROGRAM_ID },
            is_writable: false,
            is_signer: false,
        },
        AccountRef {
            id: Identity { bytes: SYSTEM_PROGRAM_ID },
            is_writable: false,
            is_signer: false,
        },
    ]
}

/// Builds the exact callback instruction for the decoded parameters, the
/// runtime context and a sampled result.
pub fn build_callback(data: &ContainerParams, ctx: &WorkerContext, raw: u8) -> (ix:
    CallbackInstruction)
    ensures
        ix.program_id == data.program_id,
        ix.data@ == spec_callback_data(raw),
        ix.accounts@ == spec_callback_accounts(*data, *ctx),
{
    let payload = callback_data(raw);
    let mut accounts: Vec<AccountRef> = Vec::new();
    accounts.push(AccountRef { id: data.global, is_writable: true, is_signer: false });
    accounts.push(AccountRef { id: data.mint, is_writable: true, is_signer: false });
    accounts.push(AccountRef { id: ctx.signer, is_writable: false, is_signer: true });
    accounts.push(AccountRef { id: ctx.switchboard, is_writable: false, is_signer: false });
    accounts.push(AccountRef { id: ctx.switchboard_state, is_writable: false, is_signer: false });
    accounts.push(AccountRef { id: ctx.attestation_queue, is_writable: false, is_signer: false });
    accounts.push(AccountRef { id: ctx.function, is_writable: false, is_signer: false });
    accounts.push(AccountRef { id: ctx.request, is_writable: false, is_signer: false });
    accounts.push(AccountRef { id: ctx.escrow, is_writable: true, is_signer: false });
    accounts.push(
        AccountRef { id: Identity { bytes: NATIVE_MINT_ID }, is_writable: false, is_signer: false },
    );
    accounts.push(
        AccountRef {
            id: Identity { bytes: TOKEN_PROGRAM_ID },
            is_writable: false,
            is_signer: false,
        },
    );
    accounts.push(
        AccountRef {
            id: Identity { bytes: TOKEN_2022_PROGRAM_ID },
            is_writable: false,
            is_signer: false,
        },
    );
    accounts.push(
        AccountRef {
            id: Identity { bytes: ASSOCIATED_TOKEN_PROGRAM_ID },
            is_writable: false,
            is_signer: false,
        },
    );
    accounts.push(
        AccountRef {
            id: Identity { bytes: SYSTEM_PROGRAM_ID },
            is_writable: false,
            is_signer: false,
        },
    );
    proof {
        assert(accounts@ =~= spec_callback_accounts(*data, *ctx));
    }
    CallbackInstruction { program_id: data.program_id, data: payload, accounts }
}

/// Services one request: decodes its parameters, samples a value in
/// `[1, max_value]`, and builds the callback instruction.
///
/// The parameters come back decoded exactly when the payload decodes; the
/// only other failure is the entropy source's, and that cannot happen on a
/// degenerate range (`max_value` of 1), where the sampler returns without
/// reading entropy.  On success the instruction is the canonical callback
/// for the decoded parameters and some sampled value in range.
pub fn sb_function(ctx: &WorkerContext, params: &Vec<u8>) -> (r: Result<CallbackInstruction, Error>)
    ensures
        r matches Err(e) && e == Error::ArgParseFail <==> spec_decode(params@) is None,
        spec_decode(params@) matches Some(m) && m.max_value == 1 ==> r is Ok,
        r matches Ok(ix) ==> exists|data: ContainerParams, b: u8|
            {
                &&& spec_decode(params@) == Some(data@)
                &&& ix.program_id == data.program_id
                &&& ix.data@ == spec_callback_data(spec_sample(1, data.max_value, b))
                &&& ix.accounts@ == spec_callback_accounts(data, *ctx)
            },
{
    let data = match ContainerParams::decode(params) {
        Ok(d) => d,
        Err(e) => {
            return Err(e);
        },
    };
    let raw = match generate_randomness(1, data.max_value) {
        Ok(v) => v,
        Err(e) => {
            return Err(e);
        },
    };
    let ix = build_callback(&data, ctx, raw);
    proof {
        let b = choose|b: u8| raw == spec_sample(1, data.max_value, b);
        assert({
            &&& spec_decode(params@) == Some(data@)
            &&& ix.program_id == data.program_id
            &&& ix.data@ == spec_callback_data(spec_sample(1, data.max_value, b))
            &&& ix.accounts@ == spec_callback_accounts(data, *ctx)
        });
    }
    Ok(ix)
}

} // verus!
