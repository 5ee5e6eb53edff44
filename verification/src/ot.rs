//! The two protocol roles.
//!
//! A run works on discrete logarithms: the receiver holds a long-term scalar
//! `a`, the sender a fresh ephemeral scalar `b` with public element `V = b·G`.
//! To choose index `i` the receiver sends `U = a·G − i·V`; for each offered
//! index `j` the sender encrypts under a key derived from `b·(j·V + U)`,
//! which collapses to the receiver's own `a·V` exactly when `j == i`. The
//! spec functions below state each step's result so that `laws` can prove
//! that collapse.

use vstd::prelude::*;

use crate::ec_handler::{
    EcHandler, KeyPair, Point, decrypts_to, derived_key, enc_of, encryption_of, group_order, modn,
    point_dlog,
};
use crate::errors::OtError;

verus! {

/// The discrete logarithm of the receiver's hidden choice `U = a·G − i·V`,
/// for receiver scalar `a`, chosen index `i`, and sender ephemeral public
/// element of discrete logarithm `b`.
pub open spec fn hidden_choice_dlog(a: nat, i: nat, b: nat) -> nat {
    modn((a as int) + (modn(group_order() - modn((i as int) * (b as int))) as int))
}

/// The discrete logarithm of the sender's per-item secret `W_j = b·(j·V + U)`
/// for item index `j`, ephemeral scalar `b`, and a hidden choice of discrete
/// logarithm `u`.
pub open spec fn item_secret_dlog(j: nat, b: nat, u: nat) -> nat {
    modn((b as int) * (modn((modn((j as int) * (b as int)) as int) + (u as int)) as int))
}

/// The key the sender derives for item index `j` against the ephemeral
/// public encoding `v` and a hidden choice of discrete logarithm `u`.
pub open spec fn item_key(j: nat, v: Seq<u8>, u: nat) -> Seq<u8> {
    derived_key(v, enc_of(item_secret_dlog(j, point_dlog(v), u)))
}

/// The key the receiver with scalar `a` derives from the ephemeral public
/// encoding `v`: the key of `W = a·V`.
pub open spec fn receiver_key(a: nat, v: Seq<u8>) -> Seq<u8> {
    derived_key(v, enc_of(modn((a as int) * (point_dlog(v) as int))))
}

/// The receiver's role: a long-term key pair and the curve engine.
pub struct Receiver {
    pub ec_handler: EcHandler,
    key: KeyPair,
}

impl Receiver {
    /// The key pair is as `gen_key` made it.
    pub closed spec fn wf(&self) -> bool {
        self.key.wf()
    }

    /// The receiver's secret scalar `a`.
    pub closed spec fn secret_dlog(&self) -> nat {
        self.key.dlog()
    }

    /// The canonical encoding of the receiver's public element `a·G`.
    pub closed spec fn pubkey_bytes(&self) -> Seq<u8> {
        self.key@
    }

    /// The receiver's long-term key pair, as a value.
    pub closed spec fn key_pair(&self) -> KeyPair {
        self.key
    }

    /// What well-formedness gives a caller: the public encoding is the
    /// canonical encoding of the secret scalar, which is in range.
    pub proof fn lemma_wf(&self)
        requires
            self.wf(),
        ensures
            self.pubkey_bytes() == enc_of(self.secret_dlog()),
            self.secret_dlog() < group_order(),
    {
    }

    /// A fresh receiver with a newly generated long-term key pair. Fails
    /// only when the random source does.
    pub fn new() -> (r: Result<Receiver, OtError>)
        ensures
            r matches Ok(rec) ==> rec.wf(),
            r matches Err(e) ==> e == OtError::RandomnessUnavailable,
    {
        let handler = EcHandler::new();
        let key = match handler.gen_key() {
            Ok(k) => k,
            Err(e) => return Err(e),
        };
        Ok(Receiver { ec_handler: handler, key })
    }

    /// The receiver's public element `a·G`.
    pub fn get_pubkey(&self) -> (r: Point)
        requires
            self.wf(),
        ensures
            r.wf(),
            r@ == self.pubkey_bytes(),
            r.dlog() == self.secret_dlog(),
    {
        self.key.public_point()
    }

    /// The receiver's long-term key pair, private scalar included.
    pub fn get_privkey(&self) -> (r: &KeyPair)
        ensures
            *r == self.key_pair(),
            self.wf() ==> r.wf(),
    {
        &self.key
    }

    /// Hides the chosen index inside a single group element:
    /// `U = a·G − choice·V`, where `V` is the sender's ephemeral public
    /// element. `U` reveals nothing about `choice` to a party that cannot
    /// take discrete logarithms.
    pub fn hide_choice(&self, choice: u32, sender_pubkey: &Point) -> (r: Point)
        requires
            self.wf(),
            sender_pubkey.wf(),
        ensures
            r.wf(),
            r.dlog() == hidden_choice_dlog(
                self.secret_dlog(),
                choice as nat,
                sender_pubkey.dlog(),
            ),
    {
        let v = self.ec_handler.ec_mul(sender_pubkey, choice);
        let v_neg = self.ec_handler.ec_invert(&v);
        let own_pub = self.get_pubkey();
        let u = self.ec_handler.ec_add(&own_pub, &v_neg);
        u
    }

    /// Derives the one decryption key this receiver can build: the key of
    /// `W = a·V`. It equals the sender's item key exactly for the index the
    /// receiver chose against the same ephemeral key (proved in `laws`).
    pub fn get_dec_key(&self, sender_pubkey: &Point) -> (r: Vec<u8>)
        requires
            self.wf(),
            sender_pubkey.wf(),
        ensures
            r@ == receiver_key(self.secret_dlog(), sender_pubkey@),
            r@.len() == 16,
    {
        let w = self.ec_handler.ec_mul_key(sender_pubkey, &self.key);
        let w_bytes = self.ec_handler.pubkey_to_bytes(&w);
        let v_bytes = self.ec_handler.pubkey_to_bytes(sender_pubkey);
        EcHandler::derive_key(&v_bytes, &w_bytes)
    }

    /// Decrypts every ciphertext of a batch under the receiver's one
    /// decryption key, reporting one result per item. By the protocol's
    /// design only the position of the chosen index yields the original
    /// message; other positions yield garbage or a typed failure, and the
    /// caller can tell the two apart.
    pub fn dec_items(&self, ciphertexts: &Vec<Vec<u8>>, sender_pubkey: &Point) -> (r: Vec<
        Result<Vec<u8>, OtError>,
    >)
        requires
            self.wf(),
            sender_pubkey.wf(),
        ensures
            r@.len() == ciphertexts@.len(),
            forall|j: int|
                0 <= j < r@.len() ==> decrypts_to(
                    receiver_key(self.secret_dlog(), sender_pubkey@),
                    ciphertexts@[j]@,
                    #[trigger] r@[j],
                ),
    {
        let key = self.get_dec_key(sender_pubkey);
        let mut out: Vec<Result<Vec<u8>, OtError>> = Vec::new();
        let mut i: usize = 0;
        while i < ciphertexts.len()
            invariant
                i <= ciphertexts@.len(),
                out@.len() == i,
                key@ == receiver_key(self.secret_dlog(), sender_pubkey@),
                key@.len() == 16,
                self.wf(),
                forall|j: int|
                    0 <= j < i ==> decrypts_to(
                        receiver_key(self.secret_dlog(), sender_pubkey@),
                        ciphertexts@[j]@,
                        #[trigger] out@[j],
                    ),
            decreases ciphertexts@.len() - i,
        {
            let item = self.ec_handler.dec_data(key.as_slice(), ciphertexts[i].as_slice());
            out.push(item);
            i = i + 1;
        }
        out
    }
}

/// The sender's role: stateless across runs but for the curve engine.
pub struct Sender {
    pub ec_handler: EcHandler,
}

impl Sender {
    /// A fresh sender.
    pub fn new() -> (r: Sender)
    {
        Sender { ec_handler: EcHandler::new() }
    }

    /// Derives the encryption key for one item: `V_j = j·V`,
    /// `U_j = V_j + U`, `W_j = b·U_j`, then the key of `W_j` against the
    /// ephemeral public encoding. At the receiver's chosen index this equals
    /// the receiver's decryption key bit for bit (proved in `laws`).
    pub fn get_item_key(&self, item_index: u32, sender_ephk: &KeyPair, receiver_km: &Point) -> (r:
        Vec<u8>)
        requires
            sender_ephk.wf(),
            receiver_km.wf(),
        ensures
            r@ == item_key(item_index as nat, sender_ephk@, receiver_km.dlog()),
            r@.len() == 16,
    {
        let eph_pub = sender_ephk.public_point();
        let v_j = self.ec_handler.ec_mul(&eph_pub, item_index);
        let u_j = self.ec_handler.ec_add(&v_j, receiver_km);
        let w_j = self.ec_handler.ec_mul_key(&u_j, sender_ephk);
        let w_bytes = self.ec_handler.pubkey_to_bytes(&w_j);
        let v_bytes = sender_ephk.public_bytes();
        EcHandler::derive_key(&v_bytes, &w_bytes)
    }

    /// Derives the encryption key for every offered index, in order.
    pub fn gen_items_enc_key(&self, indexes: &[u8], sender_ephk: &KeyPair, receiver_km: &Point)
        -> (r: Vec<Vec<u8>>)
        requires
            sender_ephk.wf(),
            receiver_km.wf(),
        ensures
            r@.len() == indexes@.len(),
            forall|j: int|
                0 <= j < r@.len() ==> (#[trigger] r@[j])@ == item_key(
                    indexes@[j] as nat,
                    sender_ephk@,
                    receiver_km.dlog(),
                ) && r@[j]@.len() == 16,
    {
        let mut keys: Vec<Vec<u8>> = Vec::new();
        let mut i: usize = 0;
        while i < indexes.len()
            invariant
                i <= indexes@.len(),
                keys@.len() == i,
                sender_ephk.wf(),
                receiver_km.wf(),
                forall|j: int|
                    0 <= j < i ==> (#[trigger] keys@[j])@ == item_key(
                        indexes@[j] as nat,
                        sender_ephk@,
                        receiver_km.dlog(),
                    ) && keys@[j]@.len() == 16,
            decreases indexes@.len() - i,
        {
            let key = self.get_item_key(indexes[i] as u32, sender_ephk, receiver_km);
            keys.push(key);
            i = i + 1;
        }
        keys
    }

    /// Encrypts one message per offered index, each under its own item key,
    /// preserving the pairing by position. Rejects a batch whose index and
    /// message counts differ; otherwise fails only when the random source
    /// does.
    pub fn enc_items(
        &self,
        indexes: &[u8],
        data: &Vec<Vec<u8>>,
        sender_ephk: &KeyPair,
        receiver_km: &Point,
    ) -> (r: Result<Vec<Vec<u8>>, OtError>)
        requires
            sender_ephk.wf(),
            receiver_km.wf(),
        ensures
            r matches Ok(cts) ==> cts@.len() == indexes@.len() && forall|j: int|
                0 <= j < cts@.len() ==> encryption_of(
                    item_key(indexes@[j] as nat, sender_ephk@, receiver_km.dlog()),
                    data@[j]@,
                    (#[trigger] cts@[j])@,
                ),
            r matches Err(e) ==> e == OtError::LengthMismatch || e
                == OtError::RandomnessUnavailable,
            indexes@.len() != data@.len() <==> (r matches Err(e) && e == OtError::LengthMismatch),
            indexes@.len() == 0 && data@.len() == 0 ==> r is Ok,
    {
        if indexes.len() != data.len() {
            return Err(OtError::LengthMismatch);
        }
        let keys = self.gen_items_enc_key(indexes, sender_ephk, receiver_km);
        let mut cts: Vec<Vec<u8>> = Vec::new();
        let mut i: usize = 0;
        while i < data.len()
            invariant
                i <= data@.len(),
                cts@.len() == i,
                keys@.len() == data@.len(),
                indexes@.len() == data@.len(),
                sender_ephk.wf(),
                receiver_km.wf(),
                forall|j: int|
                    0 <= j < keys@.len() ==> (#[trigger] keys@[j])@ == item_key(
                        indexes@[j] as nat,
                        sender_ephk@,
                        receiver_km.dlog(),
                    ) && keys@[j]@.len() == 16,
                forall|j: int|
                    0 <= j < i ==> encryption_of(
                        item_key(indexes@[j] as nat, sender_ephk@, receiver_km.dlog()),
                        data@[j]@,
                        (#[trigger] cts@[j])@,
                    ),
            decreases data@.len() - i,
        {
            let ct = match self.ec_handler.enc_data(keys[i].as_slice(), data[i].as_slice()) {
                Ok(c) => c,
                Err(e) => return Err(e),
            };
            cts.push(ct);
            i = i + 1;
        }
        Ok(cts)
    }
}

} // verus!
