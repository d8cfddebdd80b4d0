use vstd::prelude::*;

verus! {

/// Truncating division by 100, rounding toward zero as Rust's integer `/` does.
pub open spec fn trunc_div_100(x: int) -> int {
    if x >= 0 {
        x / 100
    } else {
        -((-x) / 100)
    }
}

/// Saturates a value into the range of a 16-bit sample.
pub open spec fn clamp_sample(x: int) -> i16 {
    if x > i16::MAX {
        i16::MAX
    } else if x < i16::MIN {
        i16::MIN
    } else {
        x as i16
    }
}

/// The sample `s` scaled by the gain `volume / 100`, saturated.
pub open spec fn gain_applied(s: i16, volume: i32) -> i16 {
    clamp_sample(trunc_div_100(s * volume))
}

/// A buffer with the gain of `volume` percent applied to every sample.
pub open spec fn gain_spec(samples: Seq<i16>, volume: i32) -> Seq<i16> {
    Seq::new(samples.len(), |i: int| gain_applied(samples[i], volume))
}

/// Scales one sample by `volume` percent and saturates the result.
pub fn scale_sample(s: i16, volume: i32) -> (r: i16)
    ensures
        r == gain_applied(s, volume),
{
    proof {
        let a = s as int;
        let b = volume as int;
        assert(-0x4000_0000_0000 <= a * b <= 0x4000_0000_0000) by (nonlinear_arith)
            requires
                -0x8000 <= a <= 0x7fff,
                -0x8000_0000 <= b <= 0x7fff_ffff,
        ;
    }
    let p: i64 = s as i64 * volume as i64;
    let q: i64 = if p >= 0 {
        p / 100
    } else {
        -((-p) / 100)
    };
    if q > i16::MAX as i64 {
        i16::MAX
    } else if q < i16::MIN as i64 {
        i16::MIN
    } else {
        q as i16
    }
}

/// Applies the capture gain (`volume` percent) to every sample of a buffer.
pub fn apply_gain(samples: &[i16], volume: i32) -> (r: Vec<i16>)
    ensures
        r@ == gain_spec(samples@, volume),
{
    let mut out: Vec<i16> = Vec::with_capacity(samples.len());
    let mut i: usize = 0;
    while i < samples.len()
        invariant
            i <= samples@.len(),
            out@.len() == i,
            forall|j: int| 0 <= j < i ==> out@[j] == gain_applied(samples@[j], volume),
        decreases samples@.len() - i,
    {
        out.push(scale_sample(samples[i], volume));
        i = i + 1;
    }
    assert(out@ =~= gain_spec(samples@, volume));
    out
}

} // verus!
