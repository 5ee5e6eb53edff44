//! The properties that make the protocol work, proved once and for all.
//!
//! The central fact is the collapse of the sender's per-item secret at the
//! chosen index: `b·(i·V + (a·G − i·V)) = b·a·G = a·V`, so sender and
//! receiver derive the same key there — and only the modular arithmetic of
//! the exponents is needed to see it.

use vstd::prelude::*;

use vstd::arithmetic::div_mod::{
    lemma_add_mod_noop_right, lemma_mod_add_multiples_vanish, lemma_mod_bound, lemma_mod_self_0,
    lemma_small_mod,
};
use vstd::arithmetic::mul::lemma_mul_is_commutative;

use crate::ec_handler::{
    cbc_enc_of, cbc_len, decrypts_to, derived_key, enc_of, encryption_of, group_order, modn,
    point_dlog,
};
use crate::errors::OtError;
use crate::ot::{hidden_choice_dlog, item_key, item_secret_dlog, receiver_key};

verus! {

/// Correctness of the choice-hiding algebra, on the exponents: when the
/// sender's item index equals the index the receiver hid, the sender's
/// per-item secret `b·(i·V + U)` has the same discrete logarithm as the
/// receiver's `a·V`, namely `a·b` reduced into the scalar range.
pub proof fn lemma_chosen_index_collapses(a: nat, i: nat, b: nat)
    requires
        a < group_order(),
        b < group_order(),
    ensures
        item_secret_dlog(i, b, hidden_choice_dlog(a, i, b)) == modn((a as int) * (b as int)),
{
    let n = group_order() as int;
    let ib = (i as int) * (b as int);
    lemma_mod_bound(ib, n);
    let t = ib % n;
    let g = (n - t) % n;
    if t == 0 {
        lemma_mod_self_0(n);
        assert(g == 0);
    } else {
        lemma_small_mod((n - t) as nat, group_order());
        assert(g == n - t);
    }
    let hidden = ((a as int) + g) % n;
    assert(hidden_choice_dlog(a, i, b) == hidden);
    lemma_add_mod_noop_right(t, (a as int) + g, n);
    assert((t + hidden) % n == (t + (a as int) + g) % n);
    lemma_small_mod(a, group_order());
    if t == 0 {
        assert((t + (a as int) + g) % n == a);
    } else {
        assert(t + (a as int) + g == (a as int) + n);
        lemma_mod_add_multiples_vanish(a as int, n);
        assert(((a as int) + n) % n == a);
    }
    assert(modn((modn(ib) as int) + (hidden_choice_dlog(a, i, b) as int)) == a);
    lemma_mul_is_commutative(b as int, a as int);
}

/// Correctness of the protocol's key agreement: for any receiver scalar
/// `a`, any chosen index `i`, and any ephemeral public encoding `v`, the
/// key the sender derives for index `i` against the receiver's hidden
/// choice equals the receiver's decryption key, bit for bit.
pub proof fn lemma_chosen_item_key_matches(a: nat, i: nat, v: Seq<u8>)
    requires
        a < group_order(),
        point_dlog(v) < group_order(),
    ensures
        item_key(i, v, hidden_choice_dlog(a, i, point_dlog(v))) == receiver_key(a, v),
{
    lemma_chosen_index_collapses(a, i, point_dlog(v));
}

/// The symmetric round trip: any result that `dec_data` may report for a
/// blob produced by `enc_data` under the same key is the original payload.
pub proof fn lemma_decrypt_inverts_encrypt(
    key: Seq<u8>,
    msg: Seq<u8>,
    ct: Seq<u8>,
    r: Result<Vec<u8>, OtError>,
)
    requires
        encryption_of(key, msg, ct),
        decrypts_to(key, ct, r),
    ensures
        r matches Ok(p) && p@ == msg,
{
    assert(cbc_len(msg.len()) >= 16);
    assert(ct.len() >= 16);
    assert(ct.subrange(16, ct.len() as int) == cbc_enc_of(key, ct.subrange(0, 16), msg));
}

/// Batch integrity end to end: if a batch of ciphertexts was produced by
/// the sender against the hidden choice for the index at position
/// `chosen`, and every ciphertext was decrypted with the receiver's key,
/// then the result at `chosen` is exactly the message that was put there.
pub proof fn lemma_batch_recovers_chosen_item(
    a: nat,
    v: Seq<u8>,
    indexes: Seq<u8>,
    msgs: Seq<Vec<u8>>,
    cts: Seq<Vec<u8>>,
    results: Seq<Result<Vec<u8>, OtError>>,
    chosen: int,
)
    requires
        a < group_order(),
        point_dlog(v) < group_order(),
        0 <= chosen < indexes.len(),
        cts.len() == indexes.len(),
        msgs.len() == indexes.len(),
        results.len() == cts.len(),
        forall|j: int|
            0 <= j < cts.len() ==> encryption_of(
                item_key(
                    indexes[j] as nat,
                    v,
                    hidden_choice_dlog(a, indexes[chosen] as nat, point_dlog(v)),
                ),
                msgs[j]@,
                (#[trigger] cts[j])@,
            ),
        forall|j: int|
            0 <= j < results.len() ==> decrypts_to(receiver_key(a, v), cts[j]@, #[trigger] results[j]),
    ensures
        results[chosen] matches Ok(p) && p@ == msgs[chosen]@,
{
    lemma_chosen_item_key_matches(a, indexes[chosen] as nat, v);
    assert(encryption_of(receiver_key(a, v), msgs[chosen]@, cts[chosen]@));
    lemma_decrypt_inverts_encrypt(receiver_key(a, v), msgs[chosen]@, cts[chosen]@, results[chosen]);
}

/// Determinism of key derivation: the derived key is a function of its two
/// inputs and of nothing else.
pub proof fn lemma_derive_key_deterministic(v1: Seq<u8>, w1: Seq<u8>, v2: Seq<u8>, w2: Seq<u8>)
    requires
        v1 == v2,
        w1 == w2,
    ensures
        derived_key(v1, w1) == derived_key(v2, w2),
{
}

} // verus!
