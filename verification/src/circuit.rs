//! Resolving a circuit artifact reference.
//!
//! A reference names a JSON artifact whose stem ends in a digit run
//! declaring the circuit's input arity (a two-input multiplier ends in `2`).
//! Resolution is the verified parser of that format; an unresolvable
//! reference is a `CircuitLoadError`.
use vstd::prelude::*;

use crate::errors::LifecycleError;
use crate::model::{
    arity_digits, circuit_arity, circuit_ref_ok, circuit_stem, digit_suffix_len, digits_val,
    is_digit, str_bytes, MAX_ARITY, MAX_REF_LEN,
};
use vstd::string::StrSliceExecFns;

verus! {

/// A resolved circuit: its reference bytes and its declared input arity.
pub struct Circuit {
    pub id: Vec<u8>,
    pub arity: usize,
}

/// A scan that stopped at `j` pins the digit-suffix length down.
proof fn lemma_digit_suffix_from_scan(s: Seq<u8>, j: int)
    requires
        0 <= j <= s.len(),
        forall|i: int| j <= i < s.len() ==> is_digit(#[trigger] s[i]),
        j > 0 ==> !is_digit(s[j - 1]),
    ensures
        digit_suffix_len(s) == s.len() - j,
    decreases s.len(),
{
    if s.len() == 0 {
    } else if j == s.len() {
        assert(!is_digit(s.last()));
    } else {
        assert(is_digit(s[s.len() - 1]));
        lemma_digit_suffix_from_scan(s.drop_last(), j);
    }
}

/// The value of a digit string only grows as digits are appended.
proof fn lemma_digits_val_take_le(s: Seq<u8>, k: int)
    requires
        0 <= k <= s.len(),
    ensures
        digits_val(s.take(k)) <= digits_val(s),
    decreases s.len() - k,
{
    if k == s.len() {
        assert(s.take(k) =~= s);
    } else {
        assert(s.take(k + 1).drop_last() =~= s.take(k));
        assert(digits_val(s.take(k)) <= digits_val(s.take(k + 1)));
        lemma_digits_val_take_le(s, k + 1);
    }
}

/// Resolves a circuit reference, or reports exactly why it cannot be.
pub fn load_circuit(path: &str) -> (r: Result<Circuit, LifecycleError>)
    ensures
        match r {
            Ok(c) => {
                &&& circuit_ref_ok(str_bytes(path@))
                &&& c.id@ == str_bytes(path@)
                &&& c.arity as nat == circuit_arity(str_bytes(path@))
            },
            Err(e) => e == LifecycleError::CircuitLoadError && !circuit_ref_ok(str_bytes(path@)),
        },
{
    let b = path.as_bytes_vec();
    let n = b.len();
    if n > MAX_REF_LEN || n < 5 {
        return Err(LifecycleError::CircuitLoadError);
    }
    if !(b[n - 5] == 46 && b[n - 4] == 106 && b[n - 3] == 115 && b[n - 2] == 111 && b[n - 1]
        == 110) {
        return Err(LifecycleError::CircuitLoadError);
    }
    let stem_len = n - 5;
    let ghost stem = b@.take(stem_len as int);
    proof {
        assert(stem =~= circuit_stem(b@));
    }
    let mut j: usize = stem_len;
    let mut stop: bool = false;
    while j > 0 && !stop
        invariant
            j <= stem_len,
            stem_len + 5 == b@.len(),
            stem == b@.take(stem_len as int),
            forall|i: int| j <= i < stem_len ==> is_digit(#[trigger] stem[i]),
            stop ==> j > 0 && !is_digit(stem[j - 1]),
        decreases j, (if stop { 0int } else { 1int }),
    {
        let c = b[j - 1];
        if 48 <= c && c <= 57 {
            j = j - 1;
        } else {
            stop = true;
        }
    }
    proof {
        lemma_digit_suffix_from_scan(stem, j as int);
    }
    if j == stem_len {
        // No digit run: the reference declares no arity.
        return Err(LifecycleError::CircuitLoadError);
    }
    let ghost run = stem.subrange(j as int, stem_len as int);
    proof {
        assert(run =~= arity_digits(b@));
    }
    let mut val: usize = 0;
    let mut k: usize = j;
    proof {
        assert(run.take(0) =~= stem.subrange(j as int, j as int));
        assert(digits_val(run.take(0)) == 0);
    }
    while k < stem_len
        invariant
            j <= k <= stem_len <= b@.len(),
            b@ == str_bytes(path@),
            stem == b@.take(stem_len as int),
            run == stem.subrange(j as int, stem_len as int),
            run == arity_digits(b@),
            forall|i: int| j <= i < stem_len ==> is_digit(#[trigger] stem[i]),
            val == digits_val(run.take(k - j)),
            val <= MAX_ARITY,
        decreases stem_len - k,
    {
        let c = b[k];
        proof {
            assert(stem[k as int] == b@[k as int]);
            assert(run.take(k - j + 1).drop_last() =~= run.take(k - j));
            assert(run.take(k - j + 1).last() == stem[k as int]);
        }
        val = val * 10 + ((c - 48) as usize);
        proof {
            assert(val == digits_val(run.take(k - j + 1)));
        }
        if val > MAX_ARITY {
            proof {
                lemma_digits_val_take_le(run, k - j + 1);
                assert(digits_val(run) > MAX_ARITY);
            }
            // The declared arity exceeds what the model supports.
            return Err(LifecycleError::CircuitLoadError);
        }
        k = k + 1;
    }
    proof {
        assert(run.take(stem_len - j) =~= run);
    }
    if val == 0 {
        // A zero arity declares no inputs at all; no such circuit exists.
        return Err(LifecycleError::CircuitLoadError);
    }
    Ok(Circuit { id: b, arity: val })
}

} // verus!
