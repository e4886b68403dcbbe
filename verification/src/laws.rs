//! The laws of the proof lifecycle, proved from the exact contracts in
//! `model`: a generated proof verifies; a key derived from another circuit
//! is rejected as a key mismatch, never silently reported as `false`; key
//! derivation is deterministic and derived keys are interchangeable; a key
//! loaded from storage behaves exactly like a freshly derived one; and a
//! proof generated under one on-chain mode is rejected under the other.
use vstd::prelude::*;

use crate::codec::{lemma_le4_roundtrip, lemma_le8_roundtrip};
use crate::errors::LifecycleError;
use crate::model::{
    circuit_arity, circuit_ref_ok, flag_byte, fnv_seal, gen_result, inputs_bytes, inputs_encoding,
    inputs_satisfy, input_wf, le4, le4_val, le8, parse_inputs, parse_proof, proof_body,
    proof_encoding, proof_valid, setup_ref_ok, str_bytes, verify_result, vk_encoding, vk_result,
    ProofParts, MAX_ARITY, MAX_INPUT_LEN, MAX_REF_LEN, PROOF_TAG,
};

verus! {

/// Parsing inverts the input encoding.
pub proof fn lemma_parse_inputs_roundtrip(ins: Seq<Seq<u8>>)
    requires
        forall|i: int| 0 <= i < ins.len() ==> #[trigger] ins[i].len() <= MAX_INPUT_LEN,
    ensures
        parse_inputs(inputs_encoding(ins), ins.len()) == Some(ins),
    decreases ins.len(),
{
    if ins.len() == 0 {
        assert(inputs_encoding(ins) =~= Seq::<u8>::empty());
        assert(Seq::<Seq<u8>>::empty() =~= ins);
    } else {
        let h = ins[0];
        let l0 = h.len() as int;
        let enc = inputs_encoding(ins);
        let rest = inputs_encoding(ins.drop_first());
        assert(enc == le4(l0) + h + rest);
        assert(enc.take(4) =~= le4(l0));
        lemma_le4_roundtrip(l0);
        assert(le4_val(enc.take(4)) == l0);
        assert(enc.len() >= 4 + l0);
        assert(enc.subrange(4, 4 + l0) =~= h);
        assert(enc.skip(4 + l0) =~= rest);
        assert(forall|i: int|
            0 <= i < ins.drop_first().len() ==> #[trigger] ins.drop_first()[i].len()
                <= MAX_INPUT_LEN);
        lemma_parse_inputs_roundtrip(ins.drop_first());
        assert(parse_inputs(rest, (ins.len() - 1) as nat) == Some(ins.drop_first()));
        assert(seq![h] + ins.drop_first() =~= ins);
    }
}

/// Parsing inverts the proof encoding: a generated artifact decomposes into
/// exactly the fields it was built from.
#[verifier::rlimit(100)]
pub proof fn lemma_parse_proof_roundtrip(c: Seq<u8>, s: Seq<u8>, ins: Seq<Seq<u8>>, f: bool)
    requires
        c.len() <= MAX_REF_LEN,
        s.len() <= MAX_REF_LEN,
        ins.len() <= MAX_ARITY,
        forall|i: int| 0 <= i < ins.len() ==> #[trigger] ins[i].len() <= MAX_INPUT_LEN,
    ensures
        parse_proof(proof_encoding(c, s, ins, f)) == Some(
            ProofParts {
                on_chain: f,
                circuit: c,
                setup: s,
                inputs: ins,
                body: proof_body(c, s, ins, f),
                seal: fnv_seal(proof_body(c, s, ins, f)) as int,
            },
        ),
{
    let body = proof_body(c, s, ins, f);
    let seal = fnv_seal(body);
    let p = proof_encoding(c, s, ins, f);
    let clen = c.len() as int;
    let slen = s.len() as int;
    assert(p.len() == body.len() + 8);
    assert(body.len() == 14 + clen + slen + inputs_encoding(ins).len());
    assert(p.take(p.len() - 8) =~= body);
    assert(p.skip(p.len() - 8) =~= le8(seal as int));
    lemma_le8_roundtrip(seal as int);
    assert(body[0] == PROOF_TAG);
    assert(body[1] == flag_byte(f));
    assert(body.subrange(2, 6) =~= le4(clen));
    lemma_le4_roundtrip(clen);
    assert(body.subrange(6, 6 + clen) =~= c);
    assert(body.subrange(6 + clen, 10 + clen) =~= le4(slen));
    lemma_le4_roundtrip(slen);
    assert(body.subrange(10 + clen, 10 + clen + slen) =~= s);
    assert(body.subrange(10 + clen + slen, 14 + clen + slen) =~= le4(ins.len() as int));
    lemma_le4_roundtrip(ins.len() as int);
    assert(body.skip(14 + clen + slen) =~= inputs_encoding(ins));
    lemma_parse_inputs_roundtrip(ins);
}

/// Verification keys are injective: equal keys come from equal circuits,
/// setups and modes.
pub proof fn lemma_vk_encoding_injective(
    c1: Seq<u8>,
    s1: Seq<u8>,
    f1: bool,
    c2: Seq<u8>,
    s2: Seq<u8>,
    f2: bool,
)
    requires
        c1.len() < 0x100000000,
        c2.len() < 0x100000000,
        s1.len() < 0x100000000,
        s2.len() < 0x100000000,
        vk_encoding(c1, s1, f1) == vk_encoding(c2, s2, f2),
    ensures
        c1 == c2,
        s1 == s2,
        f1 == f2,
{
    let v = vk_encoding(c1, s1, f1);
    assert(v[1] == flag_byte(f1) && v[1] == flag_byte(f2));
    assert(f1 == f2);
    assert(v.subrange(2, 6) =~= le4(c1.len() as int));
    assert(v.subrange(2, 6) =~= le4(c2.len() as int));
    lemma_le4_roundtrip(c1.len() as int);
    lemma_le4_roundtrip(c2.len() as int);
    assert(c1.len() == c2.len());
    let clen = c1.len() as int;
    assert(c1 =~= v.subrange(6, 6 + clen));
    assert(c2 =~= v.subrange(6, 6 + clen));
    assert(s1.len() == s2.len()) by {
        assert(v.len() == 10 + clen + s1.len());
        assert(v.len() == 10 + clen + s2.len());
    }
    let slen = s1.len() as int;
    assert(s1 =~= v.subrange(10 + clen, 10 + clen + slen));
    assert(s2 =~= v.subrange(10 + clen, 10 + clen + slen));
}

/// Every proof generated under the key derived for its circuit, setup and
/// mode verifies as valid under that same key and mode.
pub proof fn lemma_generated_proof_verifies(
    c: Seq<char>,
    s: Seq<char>,
    ins: Seq<Seq<char>>,
    on_chain: bool,
    vk: Seq<u8>,
    proof: Seq<u8>,
)
    requires
        vk_result(c, Some(s), on_chain) == Ok::<Seq<u8>, LifecycleError>(vk),
        gen_result(c, Some(s), ins, on_chain, vk) == Ok::<Seq<u8>, LifecycleError>(proof),
    ensures
        verify_result(c, proof, on_chain, vk) == Ok::<bool, LifecycleError>(true),
{
    let cb = str_bytes(c);
    let sb = str_bytes(s);
    let iv = inputs_bytes(ins);
    assert(circuit_ref_ok(cb));
    assert(vk == vk_encoding(cb, sb, on_chain));
    assert(inputs_satisfy(iv));
    assert(proof == proof_encoding(cb, sb, iv, on_chain));
    assert(forall|i: int| 0 <= i < iv.len() ==> #[trigger] iv[i].len() <= MAX_INPUT_LEN);
    lemma_parse_proof_roundtrip(cb, sb, iv, on_chain);
}

/// A proof generated under one circuit's key is rejected with
/// `KeyMismatchError` when verified with a key derived from a different
/// circuit; it is never silently reported as `false`.
pub proof fn lemma_foreign_key_rejected(
    c: Seq<char>,
    s: Seq<char>,
    ins: Seq<Seq<char>>,
    on_chain: bool,
    vk: Seq<u8>,
    proof: Seq<u8>,
    c2: Seq<char>,
    s2: Option<Seq<char>>,
    f2: bool,
    vk2: Seq<u8>,
)
    requires
        vk_result(c, Some(s), on_chain) == Ok::<Seq<u8>, LifecycleError>(vk),
        gen_result(c, Some(s), ins, on_chain, vk) == Ok::<Seq<u8>, LifecycleError>(proof),
        vk_result(c2, s2, f2) == Ok::<Seq<u8>, LifecycleError>(vk2),
        str_bytes(c2) != str_bytes(c),
    ensures
        verify_result(c, proof, on_chain, vk2) == Err::<bool, LifecycleError>(
            LifecycleError::KeyMismatchError,
        ),
{
    let cb = str_bytes(c);
    let sb = str_bytes(s);
    let iv = inputs_bytes(ins);
    lemma_parse_proof_roundtrip(cb, sb, iv, on_chain);
    let s2b = match s2 {
        Some(x) => str_bytes(x),
        None => Seq::<u8>::empty(),
    };
    assert(vk2 == vk_encoding(str_bytes(c2), s2b, f2));
    if vk2 == vk_encoding(cb, sb, on_chain) {
        lemma_vk_encoding_injective(str_bytes(c2), s2b, f2, cb, sb, on_chain);
    }
}

/// Key derivation is deterministic: identical inputs yield identical keys,
/// and the keys are interchangeable in every verification.
pub proof fn lemma_key_derivation_deterministic(
    c: Seq<char>,
    s: Option<Seq<char>>,
    on_chain: bool,
    k1: Seq<u8>,
    k2: Seq<u8>,
)
    requires
        vk_result(c, s, on_chain) == Ok::<Seq<u8>, LifecycleError>(k1),
        vk_result(c, s, on_chain) == Ok::<Seq<u8>, LifecycleError>(k2),
    ensures
        k1 == k2,
        forall|p: Seq<u8>, f: bool| verify_result(c, p, f, k1) == verify_result(c, p, f, k2),
{
}

/// A verification key loaded from storage — any byte sequence equal to the
/// derived key — generates and verifies exactly as a freshly derived key
/// does.
pub proof fn lemma_stored_key_equivalent(
    c: Seq<char>,
    s: Seq<char>,
    on_chain: bool,
    stored: Seq<u8>,
    fresh: Seq<u8>,
)
    requires
        vk_result(c, Some(s), on_chain) == Ok::<Seq<u8>, LifecycleError>(stored),
        vk_result(c, Some(s), on_chain) == Ok::<Seq<u8>, LifecycleError>(fresh),
    ensures
        forall|ins: Seq<Seq<char>>|
            gen_result(c, Some(s), ins, on_chain, stored) == gen_result(
                c,
                Some(s),
                ins,
                on_chain,
                fresh,
            ),
        forall|p: Seq<u8>, f: bool|
            verify_result(c, p, f, stored) == verify_result(c, p, f, fresh),
{
}

/// A proof generated under one on-chain mode is rejected with
/// `KeyMismatchError` when verified under the other mode, even with the
/// matching key: the mode flags must agree across the whole lifecycle.
pub proof fn lemma_mode_flag_mismatch_rejected(
    c: Seq<char>,
    s: Seq<char>,
    ins: Seq<Seq<char>>,
    gen_mode: bool,
    verify_mode: bool,
    vk: Seq<u8>,
    proof: Seq<u8>,
)
    requires
        vk_result(c, Some(s), gen_mode) == Ok::<Seq<u8>, LifecycleError>(vk),
        gen_result(c, Some(s), ins, gen_mode, vk) == Ok::<Seq<u8>, LifecycleError>(proof),
        verify_mode != gen_mode,
    ensures
        verify_result(c, proof, verify_mode, vk) == Err::<bool, LifecycleError>(
            LifecycleError::KeyMismatchError,
        ),
{
    let cb = str_bytes(c);
    let sb = str_bytes(s);
    let iv = inputs_bytes(ins);
    lemma_parse_proof_roundtrip(cb, sb, iv, gen_mode);
}

} // verus!
