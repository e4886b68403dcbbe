//! The proof lifecycle over the Noir-style model backend: verification-key
//! derivation, proof generation and proof verification. Each function's
//! result is proved equal to the corresponding spec-level result in `model`,
//! for every input.
//!
//! Key derivation is deterministic, generation checks the circuit
//! constraints (so every generated proof verifies), and verification is pure:
//! `Ok(false)` means a well-formed but invalid proof, while a malformed
//! artifact or a key from another circuit, setup or mode is an error.
//! `low_memory_mode` trades time for memory in a real backend and never
//! changes any artifact; the model takes and ignores it.
use vstd::prelude::*;

use crate::circuit::load_circuit;
use crate::codec::{
    bytes_eq, copy_range, fnv_range, lemma_le4_val_bound, push_bytes, push_le4, push_le8,
    range_eq, read_le4, read_le8,
};
use crate::errors::LifecycleError;
use crate::model::{
    bytes_result_view, circuit_arity, flag_byte, gen_result, inputs_bytes, inputs_encoding,
    inputs_satisfy, input_wf, is_digit, le4, opt_view, parse_inputs, parse_proof, prepend_parsed,
    proof_body, proof_encoding, proof_valid, setup_ref_ok, str_bytes, vk_encoding, vk_result,
    verify_result, ProofParts, KEY_TAG, MAX_INPUT_LEN, MAX_REF_LEN, PROOF_TAG,
};
use vstd::string::StrSliceExecFns;

verus! {

/// Checks the optional setup-parameter reference and hands back its bytes.
fn setup_bytes(srs: &Option<String>) -> (r: Result<Vec<u8>, LifecycleError>)
    ensures
        match r {
            Ok(sb) => {
                &&& opt_view(*srs) matches Some(s) && sb@ == str_bytes(s)
                &&& setup_ref_ok(sb@)
            },
            Err(e) => {
                &&& e == LifecycleError::SetupMismatchError
                &&& match opt_view(*srs) {
                    None => true,
                    Some(s) => !setup_ref_ok(str_bytes(s)),
                }
            },
        },
{
    match srs {
        None => Err(LifecycleError::SetupMismatchError),
        Some(sp) => {
            let sb = sp.as_str().as_bytes_vec();
            if sb.len() < 1 || sb.len() > MAX_REF_LEN {
                Err(LifecycleError::SetupMismatchError)
            } else {
                Ok(sb)
            }
        },
    }
}

/// Builds the canonical verification key of a circuit, setup and mode.
fn encode_vk(c: &Vec<u8>, s: &Vec<u8>, on_chain: bool) -> (r: Vec<u8>)
    requires
        c@.len() < 0x100000000,
        s@.len() < 0x100000000,
    ensures
        r@ == vk_encoding(c@, s@, on_chain),
{
    let mut v: Vec<u8> = Vec::new();
    v.push(KEY_TAG);
    v.push(if on_chain {
        1
    } else {
        0
    });
    push_le4(&mut v, c.len() as u32);
    push_bytes(&mut v, c);
    push_le4(&mut v, s.len() as u32);
    push_bytes(&mut v, s);
    proof {
        assert(v@ =~= vk_encoding(c@, s@, on_chain));
    }
    v
}

/// Derives the verification key for a circuit, setup and on-chain mode.
///
/// The result is deterministic: identical inputs yield identical keys.
pub fn get_noir_verification_key(
    circuit_path: String,
    srs_path: Option<String>,
    on_chain: bool,
    low_memory_mode: bool,
) -> (r: Result<Vec<u8>, LifecycleError>)
    ensures
        bytes_result_view(r) == vk_result(circuit_path@, opt_view(srs_path), on_chain),
{
    let circuit = match load_circuit(circuit_path.as_str()) {
        Ok(c) => c,
        Err(e) => {
            return Err(e);
        },
    };
    let sb = match setup_bytes(&srs_path) {
        Ok(sb) => sb,
        Err(e) => {
            return Err(e);
        },
    };
    Ok(encode_vk(&circuit.id, &sb, on_chain))
}

/// Generates a proof for `inputs` under the given circuit, setup, mode and
/// verification key.
///
/// The key must be the one derived for exactly this circuit, setup and mode;
/// the input count must match the circuit's declared arity; and the inputs
/// must satisfy the circuit's constraints (checked here, at generation time,
/// so every proof this function returns verifies as valid).
#[verifier::loop_isolation(false)]
pub fn generate_noir_proof(
    circuit_path: String,
    srs_path: Option<String>,
    inputs: Vec<String>,
    on_chain: bool,
    vk: Vec<u8>,
    low_memory_mode: bool,
) -> (r: Result<Vec<u8>, LifecycleError>)
    ensures
        bytes_result_view(r) == gen_result(
            circuit_path@,
            opt_view(srs_path),
            inputs.deep_view(),
            on_chain,
            vk@,
        ),
{
    let circuit = match load_circuit(circuit_path.as_str()) {
        Ok(c) => c,
        Err(e) => {
            return Err(e);
        },
    };
    let sb = match setup_bytes(&srs_path) {
        Ok(sb) => sb,
        Err(e) => {
            return Err(e);
        },
    };
    let ghost cb = circuit.id@;
    let ghost sbv = sb@;
    let expected = encode_vk(&circuit.id, &sb, on_chain);
    if !bytes_eq(&vk, &expected) {
        return Err(LifecycleError::KeyMismatchError);
    }
    let ghost dv = inputs.deep_view();
    let ghost iv = inputs_bytes(dv);
    proof {
        assert(iv.len() == inputs@.len());
    }
    if inputs.len() != circuit.arity {
        return Err(LifecycleError::InputArityError);
    }
    // Check the circuit constraints: every input is a bounded decimal
    // numeral, and collect the input byte strings.
    let mut ibs: Vec<Vec<u8>> = Vec::new();
    let mut i: usize = 0;
    while i < inputs.len()
        invariant
            i <= inputs@.len(),
            ibs@.len() == i,
            forall|t: int| 0 <= t < i ==> #[trigger] ibs@[t]@ == iv[t],
            forall|t: int| 0 <= t < i ==> input_wf(#[trigger] iv[t]),
        decreases inputs@.len() - i,
    {
        let ib = inputs[i].as_str().as_bytes_vec();
        proof {
            assert(dv[i as int] == inputs@[i as int]@);
            assert(iv[i as int] == str_bytes(dv[i as int]));
            assert(ib@ == iv[i as int]);
        }
        if ib.len() < 1 || ib.len() > MAX_INPUT_LEN {
            return Err(LifecycleError::ConstraintUnsatisfiedError);
        }
        let mut d: usize = 0;
        while d < ib.len()
            invariant
                d <= ib@.len(),
                forall|t: int| 0 <= t < d ==> is_digit(#[trigger] ib@[t]),
            decreases ib@.len() - d,
        {
            let c = ib[d];
            if !(48 <= c && c <= 57) {
                return Err(LifecycleError::ConstraintUnsatisfiedError);
            }
            d = d + 1;
        }
        ibs.push(ib);
        i = i + 1;
    }
    proof {
        assert(inputs_satisfy(iv));
    }
    // Encode the proof body and seal it.
    let mut body: Vec<u8> = Vec::new();
    body.push(PROOF_TAG);
    body.push(if on_chain {
        1
    } else {
        0
    });
    push_le4(&mut body, circuit.id.len() as u32);
    push_bytes(&mut body, &circuit.id);
    push_le4(&mut body, sb.len() as u32);
    push_bytes(&mut body, &sb);
    push_le4(&mut body, ibs.len() as u32);
    let ghost header = body@;
    proof {
        assert(header =~= seq![PROOF_TAG, flag_byte(on_chain)] + le4(cb.len() as int) + cb + le4(
            sbv.len() as int,
        ) + sbv + le4(iv.len() as int));
        assert(iv.take(0) =~= Seq::<Seq<u8>>::empty());
        assert(body@ =~= header + inputs_encoding(iv.take(0)));
    }
    let mut k: usize = 0;
    while k < ibs.len()
        invariant
            k <= ibs@.len(),
            body@ == header + inputs_encoding(iv.take(k as int)),
        decreases ibs@.len() - k,
    {
        proof {
            assert(ibs@[k as int]@ == iv[k as int]);
        }
        push_le4(&mut body, ibs[k].len() as u32);
        push_bytes(&mut body, &ibs[k]);
        proof {
            assert(iv.take(k + 1) =~= iv.take(k as int).push(iv[k as int]));
            crate::model::lemma_inputs_encoding_push(iv.take(k as int), iv[k as int]);
            assert(body@ =~= header + inputs_encoding(iv.take(k + 1)));
        }
        k = k + 1;
    }
    proof {
        assert(iv.take(iv.len() as int) =~= iv);
        assert(body@ =~= proof_body(cb, sbv, iv, on_chain));
    }
    let seal = fnv_range(&body, body.len());
    proof {
        assert(body@.take(body@.len() as int) =~= body@);
    }
    push_le8(&mut body, seal);
    proof {
        assert(body@ =~= proof_encoding(cb, sbv, iv, on_chain));
    }
    Ok(body)
}

/// Verifies a proof against a circuit, verification key and on-chain mode.
///
/// Pure and deterministic. `Ok(true)` exactly when the artifact is
/// well-formed, bound to this circuit, key and mode, and valid; `Ok(false)`
/// for a well-formed but invalid proof; a malformed artifact is a
/// `ProofFormatError`, and a key or mode that is not the one the proof was
/// generated under is a `KeyMismatchError`.
#[verifier::loop_isolation(false)]
#[verifier::rlimit(100)]
pub fn verify_noir_proof(
    circuit_path: String,
    proof: Vec<u8>,
    on_chain: bool,
    vk: Vec<u8>,
    low_memory_mode: bool,
) -> (r: Result<bool, LifecycleError>)
    ensures
        r == verify_result(circuit_path@, proof@, on_chain, vk@),
{
    let circuit = match load_circuit(circuit_path.as_str()) {
        Ok(c) => c,
        Err(e) => {
            return Err(e);
        },
    };
    let ghost cb = circuit.id@;
    let plen = proof.len();
    if plen < 22 {
        return Err(LifecycleError::ProofFormatError);
    }
    let blen = plen - 8;
    let ghost bodyseq = proof@.take(blen as int);
    let seal_val = read_le8(&proof, blen);
    proof {
        assert(proof@.subrange(blen as int, blen + 8) =~= proof@.skip(blen as int));
    }
    if proof[0] != PROOF_TAG {
        return Err(LifecycleError::ProofFormatError);
    }
    let fb = proof[1];
    if fb != 0 && fb != 1 {
        return Err(LifecycleError::ProofFormatError);
    }
    let pflag = fb == 1;
    let clen32 = read_le4(&proof, 2);
    let clen = clen32 as usize;
    proof {
        assert(proof@.subrange(2, 6) =~= bodyseq.subrange(2, 6));
    }
    if clen > blen - 14 {
        return Err(LifecycleError::ProofFormatError);
    }
    let slen32 = read_le4(&proof, 6 + clen);
    let slen = slen32 as usize;
    proof {
        assert(proof@.subrange(6 + clen, 10 + clen) =~= bodyseq.subrange(6 + clen, 10 + clen));
    }
    if slen > blen - 14 - clen {
        return Err(LifecycleError::ProofFormatError);
    }
    let n32 = read_le4(&proof, 10 + clen + slen);
    let n = n32 as usize;
    proof {
        assert(proof@.subrange(10 + clen + slen, 14 + clen + slen) =~= bodyseq.subrange(
            10 + clen + slen,
            14 + clen + slen,
        ));
    }
    let base = 14 + clen + slen;
    let ghost region = bodyseq.skip(base as int);
    // Walk the length-prefixed inputs, mirroring the spec parser.
    let mut off: usize = base;
    let mut k: usize = 0;
    let mut all_wf: bool = true;
    let ghost mut collected = Seq::<Seq<u8>>::empty();
    proof {
        match parse_inputs(region, n as nat) {
            Some(rest) => {
                assert(collected + rest =~= rest);
            },
            None => {},
        }
    }
    while k < n
        invariant
            base <= off <= blen,
            k <= n,
            collected.len() == k,
            parse_inputs(region, n as nat) == prepend_parsed(
                collected,
                parse_inputs(bodyseq.skip(off as int), (n - k) as nat),
            ),
            all_wf <==> (forall|t: int| 0 <= t < k ==> input_wf(#[trigger] collected[t])),
        decreases n - k,
    {
        let ghost cur = bodyseq.skip(off as int);
        proof {
            assert(cur.len() == blen - off);
        }
        if blen - off < 4 {
            return Err(LifecycleError::ProofFormatError);
        }
        let l32 = read_le4(&proof, off);
        let l = l32 as usize;
        proof {
            assert(proof@.subrange(off as int, off + 4) =~= cur.take(4));
        }
        if l > blen - off - 4 {
            return Err(LifecycleError::ProofFormatError);
        }
        let ghost item = cur.subrange(4, 4 + l);
        proof {
            assert(item =~= proof@.subrange(off + 4, off + 4 + l));
        }
        let lwf = 1 <= l && l <= MAX_INPUT_LEN;
        let mut digits_ok = true;
        let mut d: usize = 0;
        while d < l
            invariant
                d <= l,
                off + 4 + l <= blen,
                digits_ok <==> (forall|t: int| 0 <= t < d ==> is_digit(#[trigger] item[t])),
            decreases l - d,
        {
            let c = proof[off + 4 + d];
            proof {
                assert(item[d as int] == proof@[off + 4 + d]);
            }
            if !(48 <= c && c <= 57) {
                digits_ok = false;
            }
            d = d + 1;
        }
        proof {
            assert((lwf && digits_ok) <==> input_wf(item));
            let nxt = bodyseq.skip(off + 4 + l);
            assert(nxt =~= cur.skip(4 + l));
            match parse_inputs(nxt, (n - k - 1) as nat) {
                Some(rest) => {
                    assert(parse_inputs(cur, (n - k) as nat) == Some(seq![item] + rest));
                    assert(collected + (seq![item] + rest) =~= collected.push(item) + rest);
                },
                None => {
                    assert(parse_inputs(cur, (n - k) as nat) is None);
                },
            }
            let newc = collected.push(item);
            assert(newc[k as int] == item);
            assert(forall|t: int| 0 <= t < k ==> newc[t] == collected[t]);
            collected = newc;
        }
        all_wf = all_wf && lwf && digits_ok;
        off = off + 4 + l;
        k = k + 1;
    }
    if off != blen {
        proof {
            assert(bodyseq.skip(off as int).len() != 0);
        }
        return Err(LifecycleError::ProofFormatError);
    }
    proof {
        assert(bodyseq.skip(off as int).len() == 0);
        assert(parse_inputs(bodyseq.skip(off as int), 0) == Some(Seq::<Seq<u8>>::empty()));
        assert(collected + Seq::<Seq<u8>>::empty() =~= collected);
        assert(parse_inputs(region, n as nat) == Some(collected));
    }
    let ghost pp = ProofParts {
        on_chain: pflag,
        circuit: bodyseq.subrange(6, 6 + clen as int),
        setup: bodyseq.subrange(10 + clen, 10 + clen + slen as int),
        inputs: collected,
        body: bodyseq,
        seal: seal_val as int,
    };
    proof {
        assert(bodyseq[0] == proof@[0] && bodyseq[1] == proof@[1]);
        assert(parse_proof(proof@) == Some(pp));
    }
    // Binding checks: the proof must be bound to this circuit, and the key
    // and mode must be the ones it was generated under.
    let c_ok = range_eq(&proof, 6, clen, &circuit.id);
    proof {
        assert(proof@.subrange(6, 6 + clen as int) =~= pp.circuit);
    }
    let pcv = copy_range(&proof, 6, clen);
    let psv = copy_range(&proof, 10 + clen, slen);
    proof {
        assert(psv@ =~= pp.setup);
        assert(pcv@ =~= pp.circuit);
        lemma_le4_val_bound(bodyseq.subrange(2, 6));
        lemma_le4_val_bound(bodyseq.subrange(6 + clen, 10 + clen));
    }
    let expected = encode_vk(&pcv, &psv, pflag);
    let vk_ok = bytes_eq(&vk, &expected);
    if !c_ok {
        return Err(LifecycleError::KeyMismatchError);
    }
    if !vk_ok {
        return Err(LifecycleError::KeyMismatchError);
    }
    if pflag != on_chain {
        return Err(LifecycleError::KeyMismatchError);
    }
    // Validity: declared arity, well-formed inputs, and a seal that matches
    // the body.
    let computed = fnv_range(&proof, blen);
    proof {
        assert(proof@.take(blen as int) == pp.body);
    }
    let valid = n == circuit.arity && all_wf && seal_val == computed;
    proof {
        assert(valid == proof_valid(pp, circuit_arity(cb)));
    }
    Ok(valid)
}

} // verus!
