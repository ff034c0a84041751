use vstd::prelude::*;

verus! {

/// The IEEE-754 single with bit pattern `bits` lies in `[0.0, 1.0]`: `+0.0`
/// (all zero) up to `1.0` (`0x3F80_0000`), as positive singles order like
/// their bit patterns, or `-0.0`, which compares equal to `0.0`. Every NaN
/// and every other pattern lies outside.
pub open spec fn f32_bits_in_unit(bits: u32) -> bool {
    bits <= 0x3F80_0000 || bits == 0x8000_0000
}

/// The volume shared between the capture path and the control listener,
/// held as the bit pattern of an `f32`. Its value is in `[0.0, 1.0]` at all
/// times.
pub struct Volume {
    bits: u32,
}

impl View for Volume {
    type V = u32;

    closed spec fn view(&self) -> u32 {
        self.bits
    }
}

impl Volume {
    #[verifier::type_invariant]
    spec fn inv(&self) -> bool {
        f32_bits_in_unit(self.bits)
    }

    /// A volume holding `bits`, or `None` where that single lies outside
    /// `[0.0, 1.0]`.
    pub fn new(bits: u32) -> (r: Option<Volume>)
        ensures
            r is Some <==> f32_bits_in_unit(bits),
            r matches Some(v) ==> v@ == bits,
    {
        if bits <= 0x3F80_0000 || bits == 0x8000_0000 {
            Some(Volume { bits })
        } else {
            None
        }
    }

    /// Commits `bits` where that single lies in `[0.0, 1.0]` and returns
    /// true; otherwise leaves the volume as it was and returns false.
    pub fn set(&mut self, bits: u32) -> (r: bool)
        ensures
            r == f32_bits_in_unit(bits),
            r ==> final(self)@ == bits,
            !r ==> final(self)@ == old(self)@,
    {
        if bits <= 0x3F80_0000 || bits == 0x8000_0000 {
            *self = Volume { bits };
            true
        } else {
            false
        }
    }

    /// The bit pattern of the current volume, a single in `[0.0, 1.0]`.
    pub fn get(&self) -> (r: u32)
        ensures
            r == self@,
            f32_bits_in_unit(r),
    {
        proof {
            use_type_invariant(self);
        }
        self.bits
    }
}

} // verus!
