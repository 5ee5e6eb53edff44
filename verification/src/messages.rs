//! The demo payload: numbered messages for the sender to offer.

use vstd::prelude::*;

verus! {

/// The decimal digits of `n`, as ASCII bytes, most significant first.
pub open spec fn dec_digits(n: nat) -> Seq<u8>
    decreases n,
{
    if n < 10 {
        seq![(48 + n) as u8]
    } else {
        dec_digits(n / 10) + seq![(48 + n % 10) as u8]
    }
}

/// The text of the item numbered `i`: `"Message "` followed by `i` in
/// decimal.
pub open spec fn message_text(i: nat) -> Seq<u8> {
    seq![0x4du8, 0x65, 0x73, 0x73, 0x61, 0x67, 0x65, 0x20] + dec_digits(i)
}

/// Appends the decimal digits of `x` to `out`.
fn push_dec_digits(out: &mut Vec<u8>, x: u32)
    ensures
        final(out)@ == old(out)@ + dec_digits(x as nat),
    decreases x,
{
    if x < 10 {
        out.push(48 + (x as u8));
        proof {
            assert(out@ =~= old(out)@ + dec_digits(x as nat));
        }
    } else {
        push_dec_digits(out, x / 10);
        out.push(48 + ((x % 10) as u8));
        proof {
            assert(48 + ((x % 10) as u8) == (48 + (x as nat) % 10) as u8);
            assert(out@ =~= old(out)@ + dec_digits(x as nat));
        }
    }
}

/// The `n` demo messages `"Message 1"` through `"Message n"`, in order.
pub fn gen_messages(n: u32) -> (r: Vec<Vec<u8>>)
    ensures
        r@.len() == n,
        forall|j: int| 0 <= j < n ==> (#[trigger] r@[j])@ == message_text((j + 1) as nat),
{
    let mut messages: Vec<Vec<u8>> = Vec::new();
    let mut i: u32 = 0;
    while i < n
        invariant
            i <= n,
            messages@.len() == i,
            forall|j: int| 0 <= j < i ==> (#[trigger] messages@[j])@ == message_text((j + 1) as nat),
        decreases n - i,
    {
        let mut m: Vec<u8> = Vec::new();
        m.push(0x4d); m.push(0x65); m.push(0x73); m.push(0x73);
        m.push(0x61); m.push(0x67); m.push(0x65); m.push(0x20);
        proof {
            assert(m@ =~= seq![0x4du8, 0x65, 0x73, 0x73, 0x61, 0x67, 0x65, 0x20]);
        }
        push_dec_digits(&mut m, i + 1);
        messages.push(m);
        i = i + 1;
        proof {
            assert(messages@[i - 1]@ == message_text(i as nat));
        }
    }
    messages
}

} // verus!
