//! The mathematical model of the lifecycle artifacts.
//!
//! Artifacts are structured byte sequences. A verification key encodes the
//! circuit reference, the setup reference and the on-chain mode flag. A proof
//! encodes the same binding data, the inputs it was generated for, and a seal
//! over its body. The spec functions here define those formats, a total
//! parser for proofs, and the exact result of each lifecycle operation; the
//! executable code in the other modules is proved equal to them.
use vstd::prelude::*;

use crate::errors::LifecycleError;
use vstd::utf8::encode_utf8;

verus! {

/// First byte of every verification key.
pub const KEY_TAG: u8 = 75;

/// First byte of every proof artifact.
pub const PROOF_TAG: u8 = 80;

/// Longest circuit or setup reference, in bytes, the model resolves.
pub const MAX_REF_LEN: usize = 65535;

/// Longest input value, in bytes, that can satisfy a circuit.
pub const MAX_INPUT_LEN: usize = 65535;

/// Widest input signature a circuit of the model can declare.
pub const MAX_ARITY: usize = 64;

/// The byte sequence of a reference or input string: its UTF-8 encoding.
pub open spec fn str_bytes(s: Seq<char>) -> Seq<u8> {
    encode_utf8(s)
}

/// ASCII decimal digit.
pub open spec fn is_digit(b: u8) -> bool {
    48 <= b && b <= 57
}

pub open spec fn all_digits(s: Seq<u8>) -> bool {
    forall|i: int| 0 <= i < s.len() ==> is_digit(#[trigger] s[i])
}

/// Length of the maximal run of digits at the end of `s`.
pub open spec fn digit_suffix_len(s: Seq<u8>) -> nat
    decreases s.len(),
{
    if s.len() == 0 {
        0
    } else if is_digit(s.last()) {
        digit_suffix_len(s.drop_last()) + 1
    } else {
        0
    }
}

/// Value of a digit string, most significant digit first.
pub open spec fn digits_val(s: Seq<u8>) -> nat
    decreases s.len(),
{
    if s.len() == 0 {
        0
    } else {
        digits_val(s.drop_last()) * 10 + (if is_digit(s.last()) {
            (s.last() - 48) as nat
        } else {
            0
        })
    }
}

/// A circuit reference names a JSON artifact: it ends in `.json`.
pub open spec fn has_json_ext(b: Seq<u8>) -> bool {
    &&& b.len() >= 5
    &&& b[b.len() - 5] == 46
    &&& b[b.len() - 4] == 106
    &&& b[b.len() - 3] == 115
    &&& b[b.len() - 2] == 111
    &&& b[b.len() - 1] == 110
}

/// The reference without its `.json` extension.
pub open spec fn circuit_stem(b: Seq<u8>) -> Seq<u8> {
    b.take(b.len() - 5)
}

/// The digit run at the end of the stem, which declares the input arity.
pub open spec fn arity_digits(b: Seq<u8>) -> Seq<u8> {
    let stem = circuit_stem(b);
    stem.subrange(stem.len() - digit_suffix_len(stem), stem.len() as int)
}

/// Declared input arity of the circuit named by `b`.
pub open spec fn circuit_arity(b: Seq<u8>) -> nat {
    digits_val(arity_digits(b))
}

/// A resolvable circuit reference: bounded, a JSON artifact, and its stem
/// ends in a digit run declaring an arity between 1 and `MAX_ARITY`.
pub open spec fn circuit_ref_ok(b: Seq<u8>) -> bool {
    &&& b.len() <= MAX_REF_LEN
    &&& has_json_ext(b)
    &&& digit_suffix_len(circuit_stem(b)) >= 1
    &&& 1 <= circuit_arity(b) <= MAX_ARITY
}

/// A usable setup-parameter reference: non-empty and bounded.
pub open spec fn setup_ref_ok(b: Seq<u8>) -> bool {
    1 <= b.len() <= MAX_REF_LEN
}

/// An input that satisfies a circuit constraint: a non-empty, bounded
/// decimal numeral.
pub open spec fn input_wf(b: Seq<u8>) -> bool {
    &&& 1 <= b.len() <= MAX_INPUT_LEN
    &&& all_digits(b)
}

/// Four-byte little-endian encoding of `n` (meaningful for `0 <= n < 2^32`).
pub open spec fn le4(n: int) -> Seq<u8> {
    seq![
        (n % 256) as u8,
        ((n / 256) % 256) as u8,
        ((n / 65536) % 256) as u8,
        ((n / 16777216) % 256) as u8,
    ]
}

/// Value of a four-byte little-endian field.
pub open spec fn le4_val(b: Seq<u8>) -> int {
    b[0] + 256 * b[1] + 65536 * b[2] + 16777216 * b[3]
}

/// Eight-byte little-endian encoding of `n` (meaningful for `0 <= n < 2^64`).
pub open spec fn le8(n: int) -> Seq<u8> {
    le4(n % 0x100000000) + le4(n / 0x100000000)
}

/// Value of an eight-byte little-endian field.
pub open spec fn le8_val(b: Seq<u8>) -> int {
    le4_val(b.take(4)) + 0x100000000 * le4_val(b.skip(4))
}

/// The seal the model backend computes over a proof body: a 64-bit
/// Fowler–Noll–Vo-style fold over the bytes.
pub open spec fn fnv_seal(s: Seq<u8>) -> u64
    decreases s.len(),
{
    if s.len() == 0 {
        0xcbf29ce484222325u64
    } else {
        (((fnv_seal(s.drop_last()) ^ (s.last() as u64)) * 0x100000001b3) % 0x10000000000000000) as u64
    }
}

pub open spec fn flag_byte(f: bool) -> u8 {
    if f {
        1
    } else {
        0
    }
}

/// Canonical verification key bytes for a circuit reference, setup reference
/// and on-chain mode flag. Key derivation is deterministic: these bytes are
/// the one key of the triple.
pub open spec fn vk_encoding(c: Seq<u8>, s: Seq<u8>, on_chain: bool) -> Seq<u8> {
    seq![KEY_TAG, flag_byte(on_chain)] + le4(c.len() as int) + c + le4(s.len() as int) + s
}

/// Concatenation of length-prefixed input values, first input first.
pub open spec fn inputs_encoding(ins: Seq<Seq<u8>>) -> Seq<u8>
    decreases ins.len(),
{
    if ins.len() == 0 {
        Seq::<u8>::empty()
    } else {
        le4(ins[0].len() as int) + ins[0] + inputs_encoding(ins.drop_first())
    }
}

/// Appending one input extends the input encoding at its end.
pub proof fn lemma_inputs_encoding_push(ins: Seq<Seq<u8>>, x: Seq<u8>)
    ensures
        inputs_encoding(ins.push(x)) == inputs_encoding(ins) + le4(x.len() as int) + x,
    decreases ins.len(),
{
    if ins.len() == 0 {
        assert(ins.push(x).drop_first() =~= ins);
        assert(ins.push(x)[0] == x);
        assert(inputs_encoding(ins) == Seq::<u8>::empty());
        assert(inputs_encoding(ins.push(x)) == le4(x.len() as int) + x + inputs_encoding(ins));
        assert(le4(x.len() as int) + x + inputs_encoding(ins) =~= inputs_encoding(ins) + le4(
            x.len() as int,
        ) + x);
    } else {
        let h = ins[0];
        assert(ins.push(x).drop_first() =~= ins.drop_first().push(x));
        assert(ins.push(x)[0] == ins[0]);
        lemma_inputs_encoding_push(ins.drop_first(), x);
        assert(inputs_encoding(ins.push(x)) == le4(h.len() as int) + h + inputs_encoding(
            ins.drop_first().push(x),
        ));
        assert(inputs_encoding(ins) == le4(h.len() as int) + h + inputs_encoding(ins.drop_first()));
        assert(le4(h.len() as int) + h + (inputs_encoding(ins.drop_first()) + le4(x.len() as int)
            + x) =~= (le4(h.len() as int) + h + inputs_encoding(ins.drop_first())) + le4(
            x.len() as int,
        ) + x);
    }
}

/// The sealed part of a proof: tag, flag, circuit reference, setup
/// reference, input count and inputs, each length-prefixed.
pub open spec fn proof_body(c: Seq<u8>, s: Seq<u8>, ins: Seq<Seq<u8>>, on_chain: bool) -> Seq<u8> {
    seq![PROOF_TAG, flag_byte(on_chain)] + le4(c.len() as int) + c + le4(s.len() as int) + s + le4(
        ins.len() as int,
    ) + inputs_encoding(ins)
}

/// A complete proof artifact: its body followed by the eight-byte seal.
pub open spec fn proof_encoding(c: Seq<u8>, s: Seq<u8>, ins: Seq<Seq<u8>>, on_chain: bool) -> Seq<
    u8,
> {
    proof_body(c, s, ins, on_chain) + le8(fnv_seal(proof_body(c, s, ins, on_chain)) as int)
}

/// The fields a well-formed proof artifact decomposes into.
pub struct ProofParts {
    pub on_chain: bool,
    pub circuit: Seq<u8>,
    pub setup: Seq<u8>,
    pub inputs: Seq<Seq<u8>>,
    pub body: Seq<u8>,
    pub seal: int,
}

/// Parses exactly `n` length-prefixed input values filling all of `s`.
pub open spec fn parse_inputs(s: Seq<u8>, n: nat) -> Option<Seq<Seq<u8>>>
    decreases n,
{
    if n == 0 {
        if s.len() == 0 {
            Some(Seq::<Seq<u8>>::empty())
        } else {
            None
        }
    } else if s.len() < 4 {
        None
    } else {
        let l = le4_val(s.take(4));
        if s.len() < 4 + l {
            None
        } else {
            match parse_inputs(s.skip(4 + l), (n - 1) as nat) {
                Some(rest) => Some(seq![s.subrange(4, 4 + l)] + rest),
                None => None,
            }
        }
    }
}

/// Prepends already-parsed inputs to the outcome of parsing the rest.
pub open spec fn prepend_parsed(pre: Seq<Seq<u8>>, r: Option<Seq<Seq<u8>>>) -> Option<
    Seq<Seq<u8>>,
> {
    match r {
        Some(rest) => Some(pre + rest),
        None => None,
    }
}

/// Structural parse of a proof artifact. `None` means the artifact is
/// malformed; a parsed proof may still be invalid.
pub open spec fn parse_proof(p: Seq<u8>) -> Option<ProofParts> {
    if p.len() < 22 {
        None
    } else {
        let body = p.take(p.len() - 8);
        let seal = le8_val(p.skip(p.len() - 8));
        if body[0] != PROOF_TAG || (body[1] != 0 && body[1] != 1) {
            None
        } else {
            let clen = le4_val(body.subrange(2, 6));
            if body.len() < 14 + clen {
                None
            } else {
                let c = body.subrange(6, 6 + clen);
                let slen = le4_val(body.subrange(6 + clen, 10 + clen));
                if body.len() < 14 + clen + slen {
                    None
                } else {
                    let s = body.subrange(10 + clen, 10 + clen + slen);
                    let n = le4_val(body.subrange(10 + clen + slen, 14 + clen + slen));
                    match parse_inputs(body.skip(14 + clen + slen), n as nat) {
                        Some(ins) => Some(
                            ProofParts {
                                on_chain: body[1] == 1,
                                circuit: c,
                                setup: s,
                                inputs: ins,
                                body: body,
                                seal: seal,
                            },
                        ),
                        None => None,
                    }
                }
            }
        }
    }
}

/// A well-formed proof is valid for a circuit of arity `arity` when it
/// carries `arity` well-formed inputs and its seal matches its body.
pub open spec fn proof_valid(pp: ProofParts, arity: nat) -> bool {
    &&& pp.inputs.len() == arity
    &&& (forall|i: int| 0 <= i < pp.inputs.len() ==> input_wf(#[trigger] pp.inputs[i]))
    &&& pp.seal == fnv_seal(pp.body) as int
}

/// Exact result of verification-key derivation.
pub open spec fn vk_result(c: Seq<char>, s: Option<Seq<char>>, on_chain: bool) -> Result<
    Seq<u8>,
    LifecycleError,
> {
    let cb = str_bytes(c);
    if !circuit_ref_ok(cb) {
        Err(LifecycleError::CircuitLoadError)
    } else {
        match s {
            None => Err(LifecycleError::SetupMismatchError),
            Some(sref) => {
                let sb = str_bytes(sref);
                if !setup_ref_ok(sb) {
                    Err(LifecycleError::SetupMismatchError)
                } else {
                    Ok(vk_encoding(cb, sb, on_chain))
                }
            },
        }
    }
}

/// The byte sequences of a sequence of input strings.
pub open spec fn inputs_bytes(ins: Seq<Seq<char>>) -> Seq<Seq<u8>> {
    ins.map_values(|x: Seq<char>| str_bytes(x))
}

/// All inputs satisfy the circuit constraints of the model.
pub open spec fn inputs_satisfy(ins: Seq<Seq<u8>>) -> bool {
    forall|i: int| 0 <= i < ins.len() ==> input_wf(#[trigger] ins[i])
}

/// Exact result of proof generation.
pub open spec fn gen_result(
    c: Seq<char>,
    s: Option<Seq<char>>,
    inputs: Seq<Seq<char>>,
    on_chain: bool,
    vk: Seq<u8>,
) -> Result<Seq<u8>, LifecycleError> {
    let cb = str_bytes(c);
    if !circuit_ref_ok(cb) {
        Err(LifecycleError::CircuitLoadError)
    } else {
        match s {
            None => Err(LifecycleError::SetupMismatchError),
            Some(sref) => {
                let sb = str_bytes(sref);
                if !setup_ref_ok(sb) {
                    Err(LifecycleError::SetupMismatchError)
                } else if vk != vk_encoding(cb, sb, on_chain) {
                    Err(LifecycleError::KeyMismatchError)
                } else if inputs.len() != circuit_arity(cb) {
                    Err(LifecycleError::InputArityError)
                } else if !inputs_satisfy(inputs_bytes(inputs)) {
                    Err(LifecycleError::ConstraintUnsatisfiedError)
                } else {
                    Ok(proof_encoding(cb, sb, inputs_bytes(inputs), on_chain))
                }
            },
        }
    }
}

/// Exact result of proof verification.
pub open spec fn verify_result(c: Seq<char>, proof: Seq<u8>, on_chain: bool, vk: Seq<u8>) -> Result<
    bool,
    LifecycleError,
> {
    let cb = str_bytes(c);
    if !circuit_ref_ok(cb) {
        Err(LifecycleError::CircuitLoadError)
    } else {
        match parse_proof(proof) {
            None => Err(LifecycleError::ProofFormatError),
            Some(pp) => {
                if pp.circuit != cb {
                    Err(LifecycleError::KeyMismatchError)
                } else if vk != vk_encoding(pp.circuit, pp.setup, pp.on_chain) {
                    Err(LifecycleError::KeyMismatchError)
                } else if pp.on_chain != on_chain {
                    Err(LifecycleError::KeyMismatchError)
                } else {
                    Ok(proof_valid(pp, circuit_arity(cb)))
                }
            },
        }
    }
}

/// View of an optional reference string.
pub open spec fn opt_view(s: Option<String>) -> Option<Seq<char>> {
    match s {
        Some(x) => Some(x@),
        None => None,
    }
}

/// View of a byte-artifact result.
pub open spec fn bytes_result_view(r: Result<Vec<u8>, LifecycleError>) -> Result<
    Seq<u8>,
    LifecycleError,
> {
    match r {
        Ok(v) => Ok(v@),
        Err(e) => Err(e),
    }
}

} // verus!
