use vstd::prelude::*;

verus! {

/// Bits below the sample in the 32-bit word that the microphone delivers:
/// the SPH0645 sends 18-bit signed samples aligned to the most significant bit.
pub const SAMPLE_SHIFT: u32 = 14;

/// The 32-bit word `raw` read as a two's complement signed integer.
pub open spec fn signed_word(raw: u32) -> int {
    if raw < 0x8000_0000 {
        raw as int
    } else {
        raw - 0x1_0000_0000
    }
}

/// The 18-bit signed sample held in the top bits of the microphone word
/// `raw`: the signed word divided by 2^14, rounded towards minus infinity, as
/// an arithmetic right shift does.
pub fn raw_sample_value(raw: u32) -> (sample: i32)
    ensures
        sample == signed_word(raw) / 0x4000,
        -0x2_0000 <= sample < 0x2_0000,
{
    let signed_sample = raw as i32;
    let sample = signed_sample >> SAMPLE_SHIFT;
    proof {
        assert(raw < 0x8000_0000 ==> signed_sample == raw) by (bit_vector)
            requires
                signed_sample == raw as i32,
        ;
        assert(raw >= 0x8000_0000 ==> signed_sample == raw - 0x1_0000_0000) by (bit_vector)
            requires
                signed_sample == raw as i32,
        ;
        assert(sample * 0x4000 <= signed_sample && signed_sample < sample * 0x4000 + 0x4000
            && -0x2_0000 <= sample < 0x2_0000) by (bit_vector)
            requires
                sample == signed_sample >> 14u32,
        ;
        let s = signed_word(raw);
        assert(sample == s / 0x4000) by (nonlinear_arith)
            requires
                sample * 0x4000 <= s < sample * 0x4000 + 0x4000,
        ;
    }
    sample
}

} // verus!
