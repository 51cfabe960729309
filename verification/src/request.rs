//! Requests: signed calls of a function.
//!
//! A request is bound to its signer by a signature of the form of Schnorr's:
//! a challenge, which is the digest of a commitment to a nonce, of the
//! signer's address and of the message, and a response that answers the
//! challenge with the secret scalar. Commitments are taken in the additive
//! group of the field, where the scalar that belongs to a commitment is easy
//! to find: the scheme fixes what a request holds and how it is verified, and
//! does not keep the key from one who sees a signature.

use vstd::prelude::*;
use crate::error::VmError;
use crate::program::copy_vec;
use crate::rng::Randomness;
use crate::types::{
    field_add,
    field_mul,
    field_sub,
    spec_field_add,
    spec_field_mul,
    spec_field_sub,
    FIELD_MODULUS,
    Identifier,
    ProgramId,
    Value,
    ValueType,
};

verus! {

/// The generator by which keys and nonces are committed.
pub const GENERATOR: u64 = 7;

/// The base of the digest.
pub const DIGEST_BASE: u64 = 1099511628211;

/// The digest after one more word: the digest so far times the base, plus the
/// word, in the field.
pub open spec fn spec_absorb(digest: u64, word: u64) -> u64 {
    spec_field_add(spec_field_mul(digest, DIGEST_BASE), word)
}

pub fn absorb(digest: u64, word: u64) -> (d: u64)
    ensures
        d == spec_absorb(digest, word),
{
    field_add(field_mul(digest, DIGEST_BASE), word)
}

/// The digest after the types from `from` on were absorbed, each by its tag.
pub open spec fn spec_absorb_types(types: Seq<ValueType>, from: int, digest: u64) -> u64
    decreases types.len() - from,
{
    if from < 0 || from >= types.len() {
        digest
    } else {
        spec_absorb_types(types, from + 1, spec_absorb(digest, types[from].spec_tag()))
    }
}

/// The digest after the values from `from` on were absorbed, each by the tag of
/// its type and then by its content.
pub open spec fn spec_absorb_values(values: Seq<Value>, from: int, digest: u64) -> u64
    decreases values.len() - from,
{
    if from < 0 || from >= values.len() {
        digest
    } else {
        spec_absorb_values(
            values,
            from + 1,
            spec_absorb(
                spec_absorb(digest, values[from].spec_type_of().spec_tag()),
                values[from].spec_bits(),
            ),
        )
    }
}

/// The commitment to the input types of a function.
pub open spec fn spec_types_commitment(types: Seq<ValueType>) -> u64 {
    spec_absorb_types(types, 0, 0)
}

/// The digest of what a request signs: the program, the function, the
/// commitment to the input types, and the inputs.
pub open spec fn spec_message(
    program_id: ProgramId,
    function_name: Identifier,
    inputs: Seq<Value>,
    types: Seq<ValueType>,
) -> u64 {
    spec_absorb_values(
        inputs,
        0,
        spec_absorb(
            spec_absorb(spec_absorb(0, program_id.code), function_name.code),
            spec_types_commitment(types),
        ),
    )
}

pub fn types_commitment(types: &Vec<ValueType>) -> (d: u64)
    ensures
        d == spec_types_commitment(types@),
{
    let mut digest: u64 = 0;
    let mut i: usize = 0;
    while i < types.len()
        invariant
            i <= types.len(),
            spec_absorb_types(types@, 0, 0) == spec_absorb_types(types@, i as int, digest),
        decreases types.len() - i,
    {
        digest = absorb(digest, types[i].tag());
        i += 1;
    }
    digest
}

pub fn message(
    program_id: ProgramId,
    function_name: Identifier,
    inputs: &Vec<Value>,
    types: &Vec<ValueType>,
) -> (d: u64)
    ensures
        d == spec_message(program_id, function_name, inputs@, types@),
{
    let start = absorb(
        absorb(absorb(0, program_id.code), function_name.code),
        types_commitment(types),
    );
    let mut digest: u64 = start;
    let mut i: usize = 0;
    while i < inputs.len()
        invariant
            i <= inputs.len(),
            spec_absorb_values(inputs@, 0, start) == spec_absorb_values(inputs@, i as int, digest),
        decreases inputs.len() - i,
    {
        digest = absorb(absorb(digest, inputs[i].type_of().tag()), inputs[i].bits());
        i += 1;
    }
    digest
}

/// A signing key. It has no printable form: no diagnostic can hold it.
#[derive(Clone, Copy, PartialEq, Eq, Structural)]
pub struct PrivateKey {
    sk_sig: u64,
    r_sig: u64,
}

impl PrivateKey {
    /// The secret scalar.
    pub closed spec fn spec_sk_sig(self) -> u64 {
        self.sk_sig
    }

    /// The randomizer that is added to every nonce.
    pub closed spec fn spec_r_sig(self) -> u64 {
        self.r_sig
    }

    /// The address of the key: the generator times the secret scalar.
    pub open spec fn spec_address(self) -> u64 {
        spec_field_mul(GENERATOR, self.spec_sk_sig())
    }

    pub fn new(sk_sig: u64, r_sig: u64) -> (key: PrivateKey)
        ensures
            key.spec_sk_sig() == sk_sig,
            key.spec_r_sig() == r_sig,
    {
        PrivateKey { sk_sig, r_sig }
    }

    pub fn address(&self) -> (a: u64)
        ensures
            a == self.spec_address(),
    {
        field_mul(GENERATOR, self.sk_sig)
    }

    /// Signs a digest with a nonce word.
    pub fn sign(&self, digest: u64, word: u64) -> (s: Signature)
        ensures
            s == spec_signature(*self, digest, word),
    {
        let nonce = field_add(word, self.r_sig);
        let commitment = field_mul(GENERATOR, nonce);
        let challenge = absorb(absorb(absorb(0, commitment), self.address()), digest);
        Signature { challenge, response: field_add(nonce, field_mul(challenge, self.sk_sig)) }
    }
}

/// A signature: the challenge, and the response to it.
#[derive(Clone, Copy, Debug, PartialEq, Eq, Structural)]
pub struct Signature {
    pub challenge: u64,
    pub response: u64,
}

/// The signature of a key on a digest, with a nonce word.
///
/// The nonce is the word plus the key's randomizer. The challenge is the digest
/// of the nonce's commitment, of the signer's address and of the message. The
/// response is the nonce plus the challenge times the secret scalar.
pub open spec fn spec_signature(key: PrivateKey, digest: u64, word: u64) -> Signature {
    let nonce = spec_field_add(word, key.spec_r_sig());
    let commitment = spec_field_mul(GENERATOR, nonce);
    let challenge = spec_absorb(
        spec_absorb(spec_absorb(0, commitment), key.spec_address()),
        digest,
    );
    Signature {
        challenge,
        response: spec_field_add(nonce, spec_field_mul(challenge, key.spec_sk_sig())),
    }
}

/// A signed call of a function.
#[derive(Debug, PartialEq, Eq)]
pub struct Request {
    pub program_id: ProgramId,
    pub function_name: Identifier,
    pub inputs: Vec<Value>,
    /// The address of the signer.
    pub signer: u64,
    /// The commitment to the input types of the function.
    pub types_commitment: u64,
    pub signature: Signature,
}

pub struct RequestView {
    pub program_id: ProgramId,
    pub function_name: Identifier,
    pub inputs: Seq<Value>,
    pub signer: u64,
    pub types_commitment: u64,
    pub signature: Signature,
}

impl View for Request {
    type V = RequestView;

    open spec fn view(&self) -> RequestView {
        RequestView {
            program_id: self.program_id,
            function_name: self.function_name,
            inputs: self.inputs@,
            signer: self.signer,
            types_commitment: self.types_commitment,
            signature: self.signature,
        }
    }
}

/// The index of the first input from `from` on that does not belong to its
/// type.
pub open spec fn spec_first_mismatch(types: Seq<ValueType>, inputs: Seq<Value>, from: int) -> Option<
    int,
>
    decreases inputs.len() - from,
{
    if from < 0 || from >= inputs.len() {
        None
    } else if !inputs[from].spec_has_type(types[from]) {
        Some(from)
    } else {
        spec_first_mismatch(types, inputs, from + 1)
    }
}

/// The inputs of a call against the input types of its function: as many as
/// the types, and each of its type.
pub open spec fn spec_validate_inputs(
    program_id: ProgramId,
    function_name: Identifier,
    inputs: Seq<Value>,
    types: Seq<ValueType>,
) -> Result<(), VmError> {
    if inputs.len() != types.len() {
        Err(
            VmError::InputCountMismatch {
                program_id,
                function_name,
                expected: types.len() as usize,
                found: inputs.len() as usize,
            },
        )
    } else {
        match spec_first_mismatch(types, inputs, 0) {
            Some(index) => Err(
                VmError::InputTypeMismatch { program_id, function_name, index: index as usize },
            ),
            None => Ok(()),
        }
    }
}

/// What signing yields, and the random words that are left after it.
pub struct Signed {
    pub result: Result<RequestView, VmError>,
    pub rng: Seq<u64>,
}

/// The request that a key signs for a call, with the next random word. Inputs
/// that do not fit the function are refused before a word is drawn.
pub open spec fn spec_sign(
    key: PrivateKey,
    program_id: ProgramId,
    function_name: Identifier,
    inputs: Seq<Value>,
    types: Seq<ValueType>,
    rng: Seq<u64>,
) -> Signed {
    match spec_validate_inputs(program_id, function_name, inputs, types) {
        Err(e) => Signed { result: Err(e), rng },
        Ok(_) => if rng.len() == 0 {
            Signed { result: Err(VmError::RandomnessExhausted), rng }
        } else {
            Signed {
                result: Ok(
                    RequestView {
                        program_id,
                        function_name,
                        inputs,
                        signer: key.spec_address(),
                        types_commitment: spec_types_commitment(types),
                        signature: spec_signature(
                            key,
                            spec_message(program_id, function_name, inputs, types),
                            rng[0],
                        ),
                    },
                ),
                rng: rng.drop_first(),
            }
        },
    }
}

/// The commitment to the nonce that a signature answers for, recovered from
/// the signature and the signer's address: the generator times the response,
/// minus the challenge times the address.
pub open spec fn spec_recovered_commitment(signature: Signature, signer: u64) -> u64 {
    spec_field_sub(
        spec_field_mul(GENERATOR, signature.response),
        spec_field_mul(signature.challenge, signer),
    )
}

/// Whether a signature is one of the signer on the digest: its challenge is
/// the digest of the recovered commitment, of the signer's address and of the
/// message.
pub open spec fn spec_signature_verifies(signature: Signature, signer: u64, digest: u64) -> bool {
    signature.challenge == spec_absorb(
        spec_absorb(spec_absorb(0, spec_recovered_commitment(signature, signer)), signer),
        digest,
    )
}

/// Whether a request is signed by its signer for its call, for a function of
/// the given input types.
pub open spec fn spec_verifies(request: RequestView, types: Seq<ValueType>) -> bool {
    &&& request.types_commitment == spec_types_commitment(types)
    &&& spec_signature_verifies(
        request.signature,
        request.signer,
        spec_message(request.program_id, request.function_name, request.inputs, types),
    )
}

/// The commitment that a signature is recovered to is the commitment to the
/// nonce that it was made with.
proof fn lemma_commitment_is_recovered(nonce: u64, challenge: u64, secret: u64)
    ensures
        spec_field_sub(
            spec_field_mul(GENERATOR, spec_field_add(nonce, spec_field_mul(challenge, secret))),
            spec_field_mul(challenge, spec_field_mul(GENERATOR, secret)),
        ) == spec_field_mul(GENERATOR, nonce),
{
    let p = FIELD_MODULUS as int;
    let g = GENERATOR as int;
    let k = nonce as int;
    let c = challenge as int;
    let s = secret as int;
    let response = (k + (c * s) % p) % p;
    let address = (g * s) % p;
    // The generator times the response.
    assert((g * response) % p == (g * k + g * (c * s)) % p) by {
        vstd::arithmetic::div_mod::lemma_mul_mod_noop_right(g, k + (c * s) % p, p);
        assert(g * (k + (c * s) % p) == g * k + g * ((c * s) % p)) by (nonlinear_arith);
        vstd::arithmetic::div_mod::lemma_add_mod_noop(g * k, g * ((c * s) % p), p);
        vstd::arithmetic::div_mod::lemma_mul_mod_noop_right(g, c * s, p);
        vstd::arithmetic::div_mod::lemma_add_mod_noop(g * k, g * (c * s), p);
    }
    // The challenge times the address.
    assert((c * address) % p == (g * (c * s)) % p) by {
        vstd::arithmetic::div_mod::lemma_mul_mod_noop_right(c, g * s, p);
        assert(c * (g * s) == g * (c * s)) by (nonlinear_arith);
    }
    assert(((g * response) % p - (c * address) % p) % p == (g * k) % p) by {
        vstd::arithmetic::div_mod::lemma_sub_mod_noop(g * response, c * address, p);
        vstd::arithmetic::div_mod::lemma_sub_mod_noop(g * k + g * (c * s), g * (c * s), p);
    }
}

/// What a key signs, verifies.
///
/// The signature of a key on a digest, whatever nonce word it was made with,
/// is one of the key's address on that digest.
pub proof fn lemma_signature_verifies(key: PrivateKey, digest: u64, word: u64)
    ensures
        spec_signature_verifies(spec_signature(key, digest, word), key.spec_address(), digest),
{
    let nonce = spec_field_add(word, key.spec_r_sig());
    let signature = spec_signature(key, digest, word);
    lemma_commitment_is_recovered(nonce, signature.challenge, key.spec_sk_sig());
}

/// A request that was signed verifies.
pub proof fn lemma_signed_request_verifies(
    key: PrivateKey,
    program_id: ProgramId,
    function_name: Identifier,
    inputs: Seq<Value>,
    types: Seq<ValueType>,
    rng: Seq<u64>,
)
    requires
        spec_sign(key, program_id, function_name, inputs, types, rng).result is Ok,
    ensures
        spec_verifies(
            spec_sign(key, program_id, function_name, inputs, types, rng).result->Ok_0,
            types,
        ),
{
    lemma_signature_verifies(
        key,
        spec_message(program_id, function_name, inputs, types),
        rng[0],
    );
}

impl Signature {
    /// Whether the signature is one of the signer on the digest.
    pub fn verify(&self, signer: u64, digest: u64) -> (b: bool)
        ensures
            b == spec_signature_verifies(*self, signer, digest),
    {
        let commitment = field_sub(
            field_mul(GENERATOR, self.response),
            field_mul(self.challenge, signer),
        );
        self.challenge == absorb(absorb(absorb(0, commitment), signer), digest)
    }
}

/// Holds the inputs of a call against the input types of its function.
pub fn validate_inputs(
    program_id: ProgramId,
    function_name: Identifier,
    inputs: &Vec<Value>,
    types: &Vec<ValueType>,
) -> (r: Result<(), VmError>)
    ensures
        r == spec_validate_inputs(program_id, function_name, inputs@, types@),
{
    if inputs.len() != types.len() {
        return Err(
            VmError::InputCountMismatch {
                program_id,
                function_name,
                expected: types.len(),
                found: inputs.len(),
            },
        );
    }
    let mut i: usize = 0;
    while i < inputs.len()
        invariant
            i <= inputs.len(),
            inputs.len() == types.len(),
            spec_first_mismatch(types@, inputs@, 0) == spec_first_mismatch(
                types@,
                inputs@,
                i as int,
            ),
        decreases inputs.len() - i,
    {
        if !inputs[i].has_type(types[i]) {
            return Err(VmError::InputTypeMismatch { program_id, function_name, index: i });
        }
        i += 1;
    }
    Ok(())
}

impl Request {
    pub fn copy(&self) -> (r: Request)
        ensures
            r@ == self@,
    {
        Request {
            program_id: self.program_id,
            function_name: self.function_name,
            inputs: copy_vec(&self.inputs),
            signer: self.signer,
            types_commitment: self.types_commitment,
            signature: self.signature,
        }
    }

    /// Whether the request is signed by its signer for its call, for a function
    /// of the given input types.
    pub fn verify(&self, input_types: &Vec<ValueType>) -> (b: bool)
        ensures
            b == spec_verifies(self@, input_types@),
    {
        self.types_commitment == types_commitment(input_types) && self.signature.verify(
            self.signer,
            message(self.program_id, self.function_name, &self.inputs, input_types),
        )
    }

    /// Signs a call of a function on the given inputs, with the next random
    /// word.
    pub fn sign(
        private_key: &PrivateKey,
        program_id: ProgramId,
        function_name: Identifier,
        inputs: Vec<Value>,
        input_types: &Vec<ValueType>,
        rng: &mut Randomness,
    ) -> (r: Result<Request, VmError>)
        ensures
            final(rng)@ == spec_sign(
                *private_key,
                program_id,
                function_name,
                inputs@,
                input_types@,
                old(rng)@,
            ).rng,
            match r {
                Ok(request) => spec_sign(
                    *private_key,
                    program_id,
                    function_name,
                    inputs@,
                    input_types@,
                    old(rng)@,
                ).result == Ok::<RequestView, VmError>(request@),
                Err(e) => spec_sign(
                    *private_key,
                    program_id,
                    function_name,
                    inputs@,
                    input_types@,
                    old(rng)@,
                ).result == Err::<RequestView, VmError>(e),
            },
    {
        match validate_inputs(program_id, function_name, &inputs, input_types) {
            Ok(_) => {},
            Err(e) => return Err(e),
        }
        let word = match rng.next_u64() {
            Some(word) => word,
            None => return Err(VmError::RandomnessExhausted),
        };
        let digest = message(program_id, function_name, &inputs, input_types);
        let signature = private_key.sign(digest, word);
        Ok(
            Request {
                program_id,
                function_name,
                inputs,
                signer: private_key.address(),
                types_commitment: types_commitment(input_types),
                signature,
            },
        )
    }
}

} // verus!
