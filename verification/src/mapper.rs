use vstd::prelude::*;
use crate::ratio::Ratio;
use crate::signal::GameSignal;

verus! {

/// How a raw hitstop value becomes an intensity.
#[derive(Clone, Copy, Debug, PartialEq, Eq, Structural)]
pub struct MappingPolicy {
    /// The raw value at which the intensity reaches one.
    pub ceiling: u8,
    /// Whether a hit that was blocked is rendered at half strength.
    pub contextual: bool,
}

/// `raw / ceiling`, cut off at one.
pub open spec fn linear_clamp(raw: u8, ceiling: u8) -> Ratio {
    Ratio { num: (if raw <= ceiling { raw } else { ceiling }) as u64, den: ceiling as u64 }
}

/// Half of `base`.
pub open spec fn attenuated(base: Ratio) -> Ratio {
    Ratio { num: base.num, den: (base.den * 2) as u64 }
}

impl MappingPolicy {
    /// A policy is usable when its ceiling is not zero.
    pub open spec fn wf(&self) -> bool {
        self.ceiling > 0
    }

    /// The intensity that the policy gives a raw value, before any
    /// attenuation.
    pub open spec fn base(&self, raw: u8) -> Ratio {
        linear_clamp(raw, self.ceiling)
    }

    /// The intensity that the policy gives a whole signal.
    pub open spec fn intensity(&self, signal: GameSignal) -> Ratio {
        if self.contextual && !signal.either_player_in_hitstun {
            attenuated(self.base(signal.hitstop))
        } else {
            self.base(signal.hitstop)
        }
    }

    /// A policy with the given ceiling, or nothing when the ceiling is zero.
    pub fn new(ceiling: u8, contextual: bool) -> (result: Option<MappingPolicy>)
        ensures
            ceiling == 0 <==> result.is_none(),
            ceiling != 0 ==> result == Some(MappingPolicy { ceiling, contextual }),
    {
        if ceiling == 0 {
            None
        } else {
            Some(MappingPolicy { ceiling, contextual })
        }
    }

    /// Maps a raw hitstop value to an intensity between zero and one.
    pub fn map(&self, raw: u8) -> (result: Ratio)
        requires
            self.wf(),
        ensures
            result == self.base(raw),
            result.wf(),
            result.in_unit(),
            raw == 0 ==> result.is_zero(),
            raw >= self.ceiling ==> result.is_one(),
            raw < self.ceiling ==> result.num == raw && result.den == self.ceiling,
    {
        let num: u8 = if raw <= self.ceiling {
            raw
        } else {
            self.ceiling
        };
        Ratio { num: num as u64, den: self.ceiling as u64 }
    }

    /// The intensity of one tick: the base mapping of the hitstop, halved
    /// under a contextual policy when neither player was actually hit.
    pub fn intensity_of(&self, signal: GameSignal) -> (result: Ratio)
        requires
            self.wf(),
        ensures
            result == self.intensity(signal),
            result.wf(),
            result.in_unit(),
            result.num <= 255,
            result.den <= 510,
            signal.hitstop == 0 ==> result.is_zero(),
    {
        let base = self.map(signal.hitstop);
        if self.contextual && !signal.either_player_in_hitstun {
            attenuate(base)
        } else {
            base
        }
    }
}

/// Halves an intensity, exactly.
pub fn attenuate(base: Ratio) -> (result: Ratio)
    requires
        base.wf(),
        base.den * 2 <= u64::MAX,
    ensures
        result == attenuated(base),
        result.wf(),
        result.num * base.den * 2 == base.num * result.den,
        base.in_unit() ==> result.in_unit(),
{
    proof {
        crate::ratio::lemma_half_is_exact(base);
    }
    base.halved()
}

/// The base mapping never decreases as the raw value grows.
pub proof fn lemma_map_monotone(policy: MappingPolicy, low: u8, high: u8)
    requires
        policy.wf(),
        low <= high,
    ensures
        policy.base(low).at_most(policy.base(high)),
        policy.base(low).num <= policy.base(high).num,
        policy.base(low).den == policy.base(high).den,
{
    let a = policy.base(low);
    let b = policy.base(high);
    assert(a.num * b.den <= b.num * a.den) by (nonlinear_arith)
        requires
            a.num <= b.num,
            a.den == b.den,
    ;
}

/// The base mapping stays between zero and one, is zero at zero, and is one
/// from the ceiling upwards.
pub proof fn lemma_map_range(policy: MappingPolicy, raw: u8)
    requires
        policy.wf(),
    ensures
        policy.base(raw).wf(),
        policy.base(raw).in_unit(),
        policy.base(0).is_zero(),
        raw >= policy.ceiling ==> policy.base(raw).is_one(),
        raw < policy.ceiling ==> !policy.base(raw).is_one(),
{
}

/// The attenuated value of any intensity is exactly its half: doubling it
/// gives the intensity back.
pub proof fn lemma_attenuation_is_half(base: Ratio)
    requires
        base.wf(),
        base.den * 2 <= u64::MAX,
    ensures
        attenuated(base).wf(),
        attenuated(base).num * base.den * 2 == base.num * attenuated(base).den,
{
    crate::ratio::lemma_half_is_exact(base);
}

/// Whatever the mapping gives, its attenuated value is exactly half of it
/// and again lies between zero and one.
pub proof fn lemma_attenuated_mapping_is_half(policy: MappingPolicy, raw: u8)
    requires
        policy.wf(),
    ensures
        attenuated(policy.base(raw)).wf(),
        attenuated(policy.base(raw)).num * policy.base(raw).den * 2 == policy.base(raw).num
            * attenuated(policy.base(raw)).den,
        attenuated(policy.base(raw)).in_unit(),
        attenuated(policy.base(raw)).at_most(policy.base(raw)),
{
    crate::ratio::lemma_half_is_exact(policy.base(raw));
}

} // verus!
