use vstd::prelude::*;

verus! {

/// The kinds of scattering a BxDF models, one bit each.
pub type BxDFFlag = u8;

pub const REFLECTION: BxDFFlag = 1 << 0;

pub const TRANSMISSION: BxDFFlag = 1 << 1;

pub const DIFFUSE: BxDFFlag = 1 << 2;

pub const GLOSSY: BxDFFlag = 1 << 3;

pub const SPECULAR: BxDFFlag = 1 << 4;

pub const ALL: BxDFFlag = REFLECTION | TRANSMISSION | DIFFUSE | GLOSSY | SPECULAR;

/// Bit `i` of a flag.
pub open spec fn flag_bit(f: BxDFFlag, i: u8) -> bool {
    (f >> i) & 1 == 1
}

/// Every kind named in `t` is among the kinds of `flag`.
pub open spec fn flag_includes(flag: BxDFFlag, t: BxDFFlag) -> bool {
    forall|i: u8| i < 8 ==> #[trigger] flag_bit(t, i) ==> flag_bit(flag, i)
}

/// Whether a BxDF of kinds `flag` has every kind asked for in `t`.
pub fn has_flag(flag: BxDFFlag, t: BxDFFlag) -> (r: bool)
    ensures
        r == flag_includes(flag, t),
{
    let r = (t & flag) == t;
    assert forall|i: u8| i < 8 && r && flag_bit(t, i) implies flag_bit(flag, i) by {
        assert((flag >> i) & 1 == 1) by (bit_vector)
            requires
                (t & flag) == t,
                i < 8,
                (t >> i) & 1 == 1,
        ;
    }
    if !r {
        assert(!flag_includes(flag, t)) by {
            if flag_includes(flag, t) {
                assert(flag_bit(t, 0) ==> flag_bit(flag, 0));
                assert(flag_bit(t, 1) ==> flag_bit(flag, 1));
                assert(flag_bit(t, 2) ==> flag_bit(flag, 2));
                assert(flag_bit(t, 3) ==> flag_bit(flag, 3));
                assert(flag_bit(t, 4) ==> flag_bit(flag, 4));
                assert(flag_bit(t, 5) ==> flag_bit(flag, 5));
                assert(flag_bit(t, 6) ==> flag_bit(flag, 6));
                assert(flag_bit(t, 7) ==> flag_bit(flag, 7));
                assert((t & flag) == t) by (bit_vector)
                    requires
                        (t >> 0u8) & 1 == 1 ==> (flag >> 0u8) & 1 == 1,
                        (t >> 1u8) & 1 == 1 ==> (flag >> 1u8) & 1 == 1,
                        (t >> 2u8) & 1 == 1 ==> (flag >> 2u8) & 1 == 1,
                        (t >> 3u8) & 1 == 1 ==> (flag >> 3u8) & 1 == 1,
                        (t >> 4u8) & 1 == 1 ==> (flag >> 4u8) & 1 == 1,
                        (t >> 5u8) & 1 == 1 ==> (flag >> 5u8) & 1 == 1,
                        (t >> 6u8) & 1 == 1 ==> (flag >> 6u8) & 1 == 1,
                        (t >> 7u8) & 1 == 1 ==> (flag >> 7u8) & 1 == 1,
                ;
            }
        }
    }
    r
}

} // verus!
