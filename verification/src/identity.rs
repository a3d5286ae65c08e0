//! Plain 32-byte identities and their canonical base58 text form.

use vstd::prelude::*;

verus! {

/// A 32-byte account or program identity.  The all-zero value is reserved
/// as "unset" and is rejected wherever a real identity is required.
#[derive(Clone, Copy, Debug)]
pub struct Identity {
    pub bytes: [u8; 32],
}

/// Byte-for-byte equality of two identities.
pub fn identity_eq(a: &Identity, b: &Identity) -> (r: bool)
    ensures
        r == (a.bytes@ == b.bytes@),
{
    let mut i: usize = 0;
    while i < 32
        invariant
            0 <= i <= 32,
            forall|j: int| 0 <= j < i ==> a.bytes[j] == b.bytes[j],
        decreases 32 - i,
    {
        if a.bytes[i] != b.bytes[i] {
            proof {
                assert(a.bytes@ != b.bytes@);
            }
            return false;
        }
        i += 1;
    }
    proof {
        assert(a.bytes@ =~= b.bytes@);
    }
    true
}

impl Identity {
    /// True when every byte is zero: the "unset" identity.
    pub open spec fn spec_is_zero(self) -> bool {
        forall|i: int| 0 <= i < 32 ==> self.bytes[i] == 0
    }

    /// The all-zero identity.
    pub fn zero() -> (r: Identity)
        ensures
            r.spec_is_zero(),
    {
        Identity { bytes: [0u8; 32] }
    }

    /// Tests whether this is the all-zero identity.
    pub fn is_zero(&self) -> (r: bool)
        ensures
            r == self.spec_is_zero(),
    {
        let mut i: usize = 0;
        while i < 32
            invariant
                0 <= i <= 32,
                forall|j: int| 0 <= j < i ==> self.bytes[j] == 0,
            decreases 32 - i,
        {
            if self.bytes[i] != 0 {
                return false;
            }
            i += 1;
        }
        true
    }
}

/// True for the ASCII codes of the base58 alphabet: digits `1`-`9` and the
/// letters without `0`, `O`, `I` and `l`.
pub open spec fn is_base58_byte(c: u8) -> bool {
    ||| (0x31 <= c <= 0x39)
    ||| (0x41 <= c <= 0x5a && c != 0x49 && c != 0x4f)
    ||| (0x61 <= c <= 0x7a && c != 0x6c)
}

/// The canonical base58 rendering, as ASCII bytes, of a 32-byte identity.
pub uninterp spec fn base58_of(b: Seq<u8>) -> Seq<u8>;

/// What parsing the given bytes as a base58 identity yields: the 32 decoded
/// bytes, or `None` when the input is not the canonical base58 form of any
/// 32-byte value.
pub uninterp spec fn base58_decode(s: Seq<u8>) -> Option<Seq<u8>>;

/// Renders an identity in its canonical base58 text form.
///
/// Relies on `solana_address::Address`'s `Display` impl (`five8::encode_32`):
/// it prints the canonical base58 rendering of the 32 bytes — between 32 and
/// 44 characters of the base58 alphabet — and `five8::decode_32` parses that
/// rendering back to the same 32 bytes.
#[verifier::external_body]
pub(crate) fn identity_to_base58(id: &Identity) -> (r: Vec<u8>)
    ensures
        r@ == base58_of(id.bytes@),
        32 <= r@.len() <= 44,
        forall|i: int| 0 <= i < r@.len() ==> is_base58_byte(#[trigger] r@[i]),
        base58_decode(r@) == Some(id.bytes@),
{
    anchor_lang::prelude::Pubkey::new_from_array(id.bytes).to_string().into_bytes()
}

/// Parses ASCII text as a base58 identity.
///
/// Relies on `Pubkey::from_str` (`five8::decode_32`): it succeeds exactly on
/// the canonical base58 rendering of a 32-byte value — `five8` checks that
/// the count of leading `1` digits matches the count of leading zero bytes,
/// so every accepted string is the canonical rendering of its result.
#[verifier::external_body]
pub(crate) fn identity_from_base58(s: &[u8]) -> (r: Option<Identity>)
    ensures
        r matches Some(id) ==> base58_decode(s@) == Some(id.bytes@) && base58_of(id.bytes@)
            == s@,
        r is None ==> base58_decode(s@) is None,
{
    match core::str::from_utf8(s) {
        Ok(text) => {
            match <anchor_lang::prelude::Pubkey as core::str::FromStr>::from_str(text) {
                Ok(pk) => Some(Identity { bytes: pk.to_bytes() }),
                Err(_) => None,
            }
        },
        Err(_) => None,
    }
}

/// The domain tag from which the schedule record's address and authority
/// are derived: the ASCII bytes of `global`.
pub open spec fn global_seed() -> Seq<u8> {
    seq![0x67u8, 0x6cu8, 0x6fu8, 0x62u8, 0x61u8, 0x6cu8]
}

/// The address derived from a seed under a program, with its bump, or
/// `None` when no bump yields a derivable address.
pub uninterp spec fn pda_of(seed: Seq<u8>, program: Seq<u8>) -> Option<(Seq<u8>, u8)>;

/// Derives the program address for one seed.
///
/// Relies on `Pubkey::try_find_program_address`: the result is a function
/// of the seed and the program identity alone, and the derived address is
/// 32 bytes.
#[verifier::external_body]
fn derive_program_address(seed: &[u8], program: &Identity) -> (r: Option<(Identity, u8)>)
    ensures
        r matches Some(p) ==> pda_of(seed@, program.bytes@) matches Some(q) && q.0 == p.0.bytes@
            && q.1 == p.1,
        r is None ==> pda_of(seed@, program.bytes@) is None,
{
    let program_key = anchor_lang::prelude::Pubkey::new_from_array(program.bytes);
    anchor_lang::prelude::Pubkey::try_find_program_address(&[seed], &program_key).map(
        |(address, bump)| (Identity { bytes: address.to_bytes() }, bump),
    )
}

/// The deterministic, non-signing authority of the schedule record under a
/// program: the address derived from the fixed domain tag.
pub fn schedule_authority(program: &Identity) -> (r: Option<(Identity, u8)>)
    ensures
        r matches Some(p) ==> pda_of(global_seed(), program.bytes@) matches Some(q) && q.0
            == p.0.bytes@ && q.1 == p.1,
        r is None ==> pda_of(global_seed(), program.bytes@) is None,
{
    let mut seed: Vec<u8> = Vec::new();
    seed.push(0x67);
    seed.push(0x6c);
    seed.push(0x6f);
    seed.push(0x62);
    seed.push(0x61);
    seed.push(0x6c);
    proof {
        assert(seed@ =~= global_seed());
    }
    derive_program_address(seed.as_slice(), program)
}

/// Checks a claimed authority by re-deriving it from the domain tag and
/// comparing, as every privileged sub-call must: holding the record's
/// authority is a matter of derivation, never of a key.
pub fn is_schedule_authority(candidate: &Identity, program: &Identity) -> (r: bool)
    ensures
        r == (pda_of(global_seed(), program.bytes@) matches Some(q) && q.0
            == candidate.bytes@),
{
    match schedule_authority(program) {
        Some((derived, _bump)) => identity_eq(&derived, candidate),
        None => false,
    }
}

} // verus!
