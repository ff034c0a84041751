use vstd::prelude::*;

verus! {

/// The two bytes of `s` in little-endian order.
pub open spec fn le_bytes_of(s: i16) -> Seq<u8> {
    seq![((s as u16) % 256) as u8, ((s as u16) / 256) as u8]
}

/// The sample that two bytes spell in little-endian order.
pub open spec fn sample_of_le(lo: u8, hi: u8) -> i16 {
    ((lo as int + 256 * hi as int) as u16) as i16
}

/// The little-endian encoding of every sample of `samples`, in order.
pub open spec fn pcm_bytes(samples: Seq<i16>) -> Seq<u8>
    decreases samples.len(),
{
    if samples.len() == 0 {
        Seq::empty()
    } else {
        pcm_bytes(samples.drop_last()) + le_bytes_of(samples.last())
    }
}

/// Serialises captured samples into one datagram payload: each sample as
/// two little-endian bytes, in input order. An empty buffer gives `None`:
/// there is nothing to send.
pub fn encode_pcm(samples: &[i16]) -> (r: Option<Vec<u8>>)
    requires
        samples@.len() * 2 <= usize::MAX,
    ensures
        samples@.len() == 0 ==> r is None,
        samples@.len() > 0 ==> (r matches Some(b) && b@ == pcm_bytes(samples@)),
{
    if samples.len() == 0 {
        return None;
    }
    let mut out: Vec<u8> = Vec::with_capacity(samples.len() * 2);
    let mut i: usize = 0;
    while i < samples.len()
        invariant
            0 <= i <= samples@.len(),
            out@ == pcm_bytes(samples@.subrange(0, i as int)),
        decreases samples@.len() - i,
    {
        let u: u16 = samples[i] as u16;
        out.push((u % 256) as u8);
        out.push((u / 256) as u8);
        proof {
            let pre = samples@.subrange(0, i as int);
            let post = samples@.subrange(0, i + 1);
            assert(post.drop_last() == pre);
            assert(post.last() == samples@[i as int]);
        }
        i = i + 1;
    }
    proof {
        assert(samples@.subrange(0, samples@.len() as int) == samples@);
    }
    Some(out)
}


/// Each sample's two bytes spell that sample again.
proof fn lemma_le_bytes_round_trip(x: i16)
    ensures
        sample_of_le(le_bytes_of(x)[0], le_bytes_of(x)[1]) == x,
{
    let u = x as u16;
    let lo = (u % 256) as u8;
    let hi = (u / 256) as u8;
    assert(lo as int + 256 * hi as int == u as int);
    assert((u as u16) as i16 == x) by (bit_vector)
        requires u == x as u16;
}

/// Decoding an encoded buffer gives back the samples: the buffer holds two
/// bytes per sample, and the pair at `2 * i` spells sample `i`.
pub proof fn lemma_pcm_round_trip(samples: Seq<i16>)
    ensures
        pcm_bytes(samples).len() == 2 * samples.len(),
        forall|i: int|
            0 <= i < samples.len() ==> sample_of_le(
                #[trigger] pcm_bytes(samples)[2 * i],
                pcm_bytes(samples)[2 * i + 1],
            ) == samples[i],
    decreases samples.len(),
{
    if samples.len() > 0 {
        let pre = samples.drop_last();
        lemma_pcm_round_trip(pre);
        lemma_le_bytes_round_trip(samples.last());
        let b = pcm_bytes(samples);
        assert forall|i: int| 0 <= i < samples.len() implies sample_of_le(
            #[trigger] b[2 * i],
            b[2 * i + 1],
        ) == samples[i] by {
            if i < pre.len() {
                assert(b[2 * i] == pcm_bytes(pre)[2 * i]);
                assert(b[2 * i + 1] == pcm_bytes(pre)[2 * i + 1]);
                assert(pre[i] == samples[i]);
            }
        }
    }
}

} // verus!
