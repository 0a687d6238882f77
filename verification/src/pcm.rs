//! Reading encoder input frames out of the caller's PCM buffer: pairs of
//! bytes become signed 16-bit samples, least-significant byte first.

use vstd::prelude::*;

verus! {

/// The signed 16-bit sample spelled by a little-endian byte pair.
pub open spec fn spec_pcm_sample(lo: u8, hi: u8) -> i16 {
    (((hi as u16) << 8) | (lo as u16)) as i16
}

/// Copy `samples` 16-bit samples out of `pcm`, starting at byte offset
/// `offset`, into a fresh encoder input buffer.
pub fn read_pcm_frame(pcm: &[u8], offset: usize, samples: usize) -> (out: Vec<i16>)
    requires
        offset + 2 * samples <= pcm@.len(),
    ensures
        out@.len() == samples,
        forall|j: int|
            0 <= j < samples ==> out@[j] == spec_pcm_sample(
                pcm@[offset + 2 * j],
                pcm@[offset + 2 * j + 1],
            ),
{
    let pcm_len = pcm.len();
    let mut out: Vec<i16> = Vec::new();
    let mut j: usize = 0;
    while j < samples
        invariant
            pcm_len == pcm@.len(),
            offset + 2 * samples <= pcm_len,
            j <= samples,
            out@.len() == j,
            forall|k: int|
                0 <= k < j ==> out@[k] == spec_pcm_sample(
                    pcm@[offset + 2 * k],
                    pcm@[offset + 2 * k + 1],
                ),
        decreases samples - j,
    {
        let lo = pcm[offset + 2 * j];
        let hi = pcm[offset + 2 * j + 1];
        let sample = #[verifier::truncate] ((((hi as u16) << 8) | (lo as u16)) as i16);
        out.push(sample);
        j = j + 1;
    }
    out
}

} // verus!
