//! Wire framing for a batch of ciphertexts, and for the sender's offer.
//!
//! A ciphertext can contain any byte, so no delimiter is safe; each item
//! therefore travels behind an explicit 4-byte little-endian length prefix.
//! `parse_frames` is the specification of the decoder, and
//! `lemma_parse_inverts_frame` proves that it inverts the encoder on every
//! batch whose items fit the prefix.

use vstd::prelude::*;

use vstd::arithmetic::div_mod::{
    lemma_div_denominator, lemma_fundamental_div_mod, lemma_multiply_divide_lt, lemma_small_mod,
};

use crate::ec_handler::{EcHandler, Point, enc_of, group_order, point_dlog};
use crate::errors::OtError;

verus! {

/// The 4-byte little-endian encoding of a length below 2^32.
pub open spec fn le32(n: nat) -> Seq<u8> {
    seq![
        (n % 256) as u8,
        ((n / 256) % 256) as u8,
        ((n / 65536) % 256) as u8,
        ((n / 16777216) % 256) as u8,
    ]
}

/// The value of a 4-byte little-endian length prefix.
pub open spec fn le32_val(b: Seq<u8>) -> nat
    recommends
        b.len() == 4,
{
    (b[0] as nat) + 256 * (b[1] as nat) + 65536 * (b[2] as nat) + 16777216 * (b[3] as nat)
}

/// One framed item: its length prefix followed by its bytes.
pub open spec fn frame_one(ct: Seq<u8>) -> Seq<u8> {
    le32(ct.len()) + ct
}

/// A whole batch, framed in order.
pub open spec fn frame_all(cts: Seq<Seq<u8>>) -> Seq<u8>
    decreases cts.len(),
{
    if cts.len() == 0 {
        Seq::empty()
    } else {
        frame_one(cts[0]) + frame_all(cts.drop_first())
    }
}

/// Every item's length fits a 4-byte prefix.
pub open spec fn fits_frame(cts: Seq<Seq<u8>>) -> bool {
    forall|j: int| 0 <= j < cts.len() ==> (#[trigger] cts[j]).len() < 4294967296
}

/// The byte sequences a vector of byte vectors holds.
pub open spec fn views_of(cts: Seq<Vec<u8>>) -> Seq<Seq<u8>> {
    cts.map_values(|v: Vec<u8>| v@)
}

/// The decoder, as a specification: reads one length prefix and one item at
/// a time; a buffer that ends inside a prefix or inside an item is rejected.
pub open spec fn parse_frames(buf: Seq<u8>) -> Option<Seq<Seq<u8>>>
    decreases buf.len(),
{
    if buf.len() == 0 {
        Option::Some(Seq::empty())
    } else if buf.len() < 4 {
        Option::None
    } else {
        let len = le32_val(buf.subrange(0, 4));
        if buf.len() - 4 < len {
            Option::None
        } else {
            match parse_frames(buf.subrange(4 + len as int, buf.len() as int)) {
                Option::None => Option::None,
                Option::Some(tail) => Option::Some(
                    seq![buf.subrange(4, 4 + len as int)] + tail,
                ),
            }
        }
    }
}

/// Reading a length prefix back gives the length it was made from.
proof fn lemma_le32_val_inverts(n: nat)
    requires
        n < 4294967296,
    ensures
        le32_val(le32(n)) == n,
{
    let x = n as int;
    lemma_fundamental_div_mod(x, 256);
    lemma_fundamental_div_mod(x / 256, 256);
    lemma_fundamental_div_mod(x / 65536, 256);
    lemma_div_denominator(x, 256, 256);
    lemma_div_denominator(x, 65536, 256);
    lemma_multiply_divide_lt(x, 16777216, 256);
    lemma_small_mod((x / 16777216) as nat, 256);
}

/// Framing a batch and then one more item appends that item's frame.
proof fn lemma_frame_all_push(s: Seq<Seq<u8>>, x: Seq<u8>)
    ensures
        frame_all(s.push(x)) == frame_all(s) + frame_one(x),
    decreases s.len(),
{
    if s.len() == 0 {
        assert(s.push(x).drop_first() =~= Seq::<Seq<u8>>::empty());
        assert(s.push(x)[0] == x);
        assert(frame_all(Seq::<Seq<u8>>::empty()) == Seq::<u8>::empty());
        assert(frame_all(s.push(x)) == frame_one(x) + Seq::<u8>::empty());
        assert(frame_all(s.push(x)) =~= frame_all(s) + frame_one(x));
    } else {
        lemma_frame_all_push(s.drop_first(), x);
        assert(s.push(x).drop_first() =~= s.drop_first().push(x));
        assert(s.push(x)[0] == s[0]);
        assert(frame_all(s.push(x)) == frame_one(s[0]) + (frame_all(s.drop_first()) + frame_one(
            x,
        )));
        assert(frame_all(s) == frame_one(s[0]) + frame_all(s.drop_first()));
        assert(frame_one(s[0]) + (frame_all(s.drop_first()) + frame_one(x)) =~= (frame_one(s[0])
            + frame_all(s.drop_first())) + frame_one(x));
    }
}

/// The round trip of the wire encoding: decoding a framed batch yields
/// exactly the batch, whenever every item's length fits its prefix.
pub proof fn lemma_parse_inverts_frame(cts: Seq<Seq<u8>>)
    requires
        fits_frame(cts),
    ensures
        parse_frames(frame_all(cts)) == Option::Some(cts),
    decreases cts.len(),
{
    if cts.len() == 0 {
        assert(parse_frames(frame_all(cts)) =~= Option::Some(cts));
    } else {
        let h = cts[0];
        let len = h.len();
        let buf = frame_all(cts);
        let rest = frame_all(cts.drop_first());
        assert(buf =~= le32(len) + h + rest);
        lemma_le32_val_inverts(len);
        assert(buf.subrange(0, 4) =~= le32(len));
        assert(le32_val(buf.subrange(0, 4)) == len);
        assert(buf.len() == 4 + len + rest.len());
        assert(buf.subrange(4, 4 + len as int) =~= h);
        assert(buf.subrange(4 + len as int, buf.len() as int) =~= rest);
        assert(fits_frame(cts.drop_first())) by {
            assert(forall|j: int|
                0 <= j < cts.drop_first().len() ==> (#[trigger] cts.drop_first()[j]) == cts[j
                    + 1]);
        }
        lemma_parse_inverts_frame(cts.drop_first());
        assert(seq![h] + cts.drop_first() =~= cts);
    }
}

/// The decoder's progress, as the loop in `parse_ciphertexts` sees it:
/// the whole buffer decodes exactly when the part after `pos` does, and
/// then to the items gathered so far followed by the rest.
pub open spec fn parse_state_ok(full: Seq<u8>, pos: int, acc: Seq<Seq<u8>>) -> bool {
    parse_frames(full) == (match parse_frames(full.subrange(pos, full.len() as int)) {
        Option::None => Option::<Seq<Seq<u8>>>::None,
        Option::Some(tail) => Option::Some(acc + tail),
    })
}

/// Frames a batch of ciphertexts for the wire, each behind its own 4-byte
/// little-endian length prefix. Rejects an item too long for its prefix.
pub fn frame_ciphertexts(cts: &Vec<Vec<u8>>) -> (r: Result<Vec<u8>, OtError>)
    ensures
        r matches Ok(buf) ==> fits_frame(views_of(cts@)) && buf@ == frame_all(views_of(cts@)),
        r matches Err(e) ==> e == OtError::LengthMismatch && !fits_frame(views_of(cts@)),
{
    let mut out: Vec<u8> = Vec::new();
    let mut i: usize = 0;
    while i < cts.len()
        invariant
            i <= cts@.len(),
            out@ == frame_all(views_of(cts@.subrange(0, i as int))),
            forall|j: int| 0 <= j < i ==> (#[trigger] views_of(cts@)[j]).len() < 4294967296,
        decreases cts@.len() - i,
    {
        let ghost prefix_frames = frame_all(views_of(cts@.subrange(0, i as int)));
        let ct: &Vec<u8> = &cts[i];
        let n: usize = ct.len();
        if (n as u64) >= 4294967296u64 {
            proof {
                assert(views_of(cts@)[i as int] == cts@[i as int]@);
                assert(!fits_frame(views_of(cts@)));
            }
            return Err(OtError::LengthMismatch);
        }
        out.push((n % 256) as u8);
        out.push(((n / 256) % 256) as u8);
        out.push(((n / 65536) % 256) as u8);
        out.push(((n / 16777216) % 256) as u8);
        proof {
            assert(out@ =~= prefix_frames + le32(ct@.len()));
        }
        let mut k: usize = 0;
        while k < ct.len()
            invariant
                i < cts@.len(),
                k <= ct@.len(),
                ct@ == cts@[i as int]@,
                out@ == prefix_frames + le32(ct@.len()) + ct@.subrange(0, k as int),
            decreases ct@.len() - k,
        {
            out.push(ct[k]);
            k = k + 1;
            proof {
                assert(out@ =~= prefix_frames + le32(ct@.len()) + ct@.subrange(0, k as int));
            }
        }
        i = i + 1;
        proof {
            assert(views_of(cts@)[i - 1] == cts@[i - 1]@);
            let prev = views_of(cts@.subrange(0, i - 1));
            assert(views_of(cts@.subrange(0, i as int)) =~= prev.push(ct@));
            lemma_frame_all_push(prev, ct@);
            assert(ct@.subrange(0, ct@.len() as int) =~= ct@);
            assert(prefix_frames + le32(ct@.len()) + ct@ =~= prefix_frames + frame_one(ct@));
            assert(out@ =~= frame_all(views_of(cts@.subrange(0, i as int))));
        }
    }
    proof {
        assert(cts@.subrange(0, cts@.len() as int) =~= cts@);
    }
    Ok(out)
}

/// Splits a wire buffer back into its framed items. Rejects a buffer that
/// ends inside a length prefix or inside an item.
pub fn parse_ciphertexts(buf: &[u8]) -> (r: Result<Vec<Vec<u8>>, OtError>)
    ensures
        r matches Ok(cts) ==> parse_frames(buf@) == Option::Some(views_of(cts@)),
        r matches Err(e) ==> e == OtError::LengthMismatch && parse_frames(buf@) is None,
{
    let mut acc: Vec<Vec<u8>> = Vec::new();
    let mut pos: usize = 0;
    proof {
        assert(buf@.subrange(0, buf@.len() as int) =~= buf@);
        assert(views_of(acc@) =~= Seq::<Seq<u8>>::empty());
        match parse_frames(buf@) {
            Option::Some(tail) => {
                assert(Seq::<Seq<u8>>::empty() + tail =~= tail);
            },
            Option::None => {},
        }
    }
    while pos < buf.len()
        invariant
            pos <= buf@.len(),
            parse_state_ok(buf@, pos as int, views_of(acc@)),
        decreases buf@.len() - pos,
    {
        let remaining: usize = buf.len() - pos;
        if remaining < 4 {
            proof {
                assert(parse_frames(buf@.subrange(pos as int, buf@.len() as int)) is None);
            }
            return Err(OtError::LengthMismatch);
        }
        let b0 = buf[pos];
        let b1 = buf[pos + 1];
        let b2 = buf[pos + 2];
        let b3 = buf[pos + 3];
        let item_len: usize = (b0 as usize) + 256 * (b1 as usize) + 65536 * (b2 as usize)
            + 16777216 * (b3 as usize);
        proof {
            let sfx = buf@.subrange(pos as int, buf@.len() as int);
            assert(sfx.subrange(0, 4) =~= buf@.subrange(pos as int, pos as int + 4));
            assert(le32_val(sfx.subrange(0, 4)) == item_len);
        }
        if item_len > remaining - 4 {
            proof {
                assert(parse_frames(buf@.subrange(pos as int, buf@.len() as int)) is None);
            }
            return Err(OtError::LengthMismatch);
        }
        let item_slice = vstd::slice::slice_subrange(buf, pos + 4, pos + 4 + item_len);
        let item = vstd::slice::slice_to_vec(item_slice);
        let ghost old_acc = acc@;
        let ghost old_pos = pos as int;
        acc.push(item);
        pos = pos + 4 + item_len;
        proof {
            let sfx = buf@.subrange(old_pos, buf@.len() as int);
            assert(sfx.subrange(4, 4 + item_len as int) =~= item@);
            assert(sfx.subrange(4 + item_len as int, sfx.len() as int) =~= buf@.subrange(
                pos as int,
                buf@.len() as int,
            ));
            assert(views_of(acc@) =~= views_of(old_acc).push(item@));
            match parse_frames(buf@.subrange(pos as int, buf@.len() as int)) {
                Option::Some(tail) => {
                    assert(parse_frames(sfx) == Option::Some(seq![item@] + tail));
                    assert(views_of(old_acc) + (seq![item@] + tail) =~= views_of(acc@) + tail);
                },
                Option::None => {},
            }
        }
    }
    proof {
        assert(buf@.subrange(pos as int, buf@.len() as int) =~= Seq::<u8>::empty());
        assert(views_of(acc@) + Seq::<Seq<u8>>::empty() =~= views_of(acc@));
    }
    Ok(acc)
}

/// The sender's offer for the wire: the 33-byte compressed ephemeral public
/// key followed by one byte per offered index.
pub fn encode_offer(eph_pubkey: &Point, indexes: &[u8], handler: &EcHandler) -> (r: Vec<u8>)
    requires
        eph_pubkey.wf(),
        eph_pubkey@.len() == 33,
    ensures
        r@ == eph_pubkey@ + indexes@,
{
    let mut out = handler.pubkey_to_bytes(eph_pubkey);
    let mut k: usize = 0;
    while k < indexes.len()
        invariant
            k <= indexes@.len(),
            out@ == eph_pubkey@ + indexes@.subrange(0, k as int),
        decreases indexes@.len() - k,
    {
        out.push(indexes[k]);
        k = k + 1;
        proof {
            assert(out@ =~= eph_pubkey@ + indexes@.subrange(0, k as int));
        }
    }
    proof {
        assert(out@ =~= eph_pubkey@ + indexes@);
    }
    out
}

/// Splits an offer back into the ephemeral public key and the offered
/// indexes, validating the point. Inverts `encode_offer`.
pub fn parse_offer(buf: &[u8], handler: &EcHandler) -> (r: Result<(Point, Vec<u8>), OtError>)
    ensures
        r matches Ok(pair) ==> pair.0.wf() && pair.1@ == buf@.subrange(33, buf@.len() as int)
            && (buf@.subrange(0, 33) == enc_of(point_dlog(buf@.subrange(0, 33)))
                ==> pair.0@ == buf@.subrange(0, 33)),
        r matches Err(e) ==> e == OtError::LengthMismatch || e == OtError::InvalidEncoding,
        r matches Err(e) && e == OtError::InvalidEncoding ==> !(buf@.subrange(0, 33) == enc_of(
            point_dlog(buf@.subrange(0, 33)),
        ) && point_dlog(buf@.subrange(0, 33)) < group_order()),
        buf@.len() < 33 <==> (r matches Err(e) && e == OtError::LengthMismatch),
{
    if buf.len() < 33 {
        return Err(OtError::LengthMismatch);
    }
    let key_part = vstd::slice::slice_subrange(buf, 0, 33);
    let point = match handler.bytes_to_pubkey(key_part) {
        Ok(p) => p,
        Err(_) => return Err(OtError::InvalidEncoding),
    };
    let idx_slice = vstd::slice::slice_subrange(buf, 33, buf.len());
    let indexes = vstd::slice::slice_to_vec(idx_slice);
    Ok((point, indexes))
}

} // verus!
