//! Zoom snapping: a continuous scale snaps to a zoom level whose numerator
//! or denominator is one, and the rest is applied as a residual scale.
use vstd::arithmetic::div_mod::lemma_fundamental_div_mod;
use vstd::prelude::*;

verus! {

/// A non-negative rational number.
#[derive(Clone, Copy, Debug, PartialEq, Eq, Hash, Structural)]
pub struct Ratio {
    pub numerator: u64,
    pub denominator: u64,
}

impl Ratio {
    pub fn new(numerator: u64, denominator: u64) -> (r: Ratio)
        ensures
            r.numerator == numerator && r.denominator == denominator,
    {
        Ratio { numerator, denominator }
    }

    pub fn numerator(&self) -> (r: u64)
        ensures
            r == self.numerator,
    {
        self.numerator
    }

    pub fn denominator(&self) -> (r: u64)
        ensures
            r == self.denominator,
    {
        self.denominator
    }
}

/// The smallest whole number not below `a / b`.
pub open spec fn ceil_div(a: int, b: int) -> int {
    (a + b - 1) / b
}

/// A requested scale together with the direction in which it snaps.
#[derive(Clone, Copy, Debug, PartialEq, Eq, Hash, Structural)]
pub enum TiledLayerScaleFactor {
    /// Snaps to the zoom level at or below the scale.
    ScaleIn(Ratio),
    /// Snaps to the zoom level at or above the scale.
    ScaleOut(Ratio),
}

impl TiledLayerScaleFactor {
    /// The scale is positive, and its numerator and denominator fit in 32 bits.
    pub open spec fn valid(self) -> bool {
        let v = self.value_spec();
        &&& 1 <= v.numerator <= u32::MAX
        &&& 1 <= v.denominator <= u32::MAX
    }

    pub open spec fn value_spec(self) -> Ratio {
        match self {
            TiledLayerScaleFactor::ScaleIn(v) => v,
            TiledLayerScaleFactor::ScaleOut(v) => v,
        }
    }

    /// The zoom level as numerator and denominator. Scaling in, a scale
    /// `s >= 1` snaps down to `floor(s)` and a smaller one to
    /// `1 / ceil(1 / s)`; scaling out, `s >= 1` snaps up to `ceil(s)` and a
    /// smaller one to `1 / floor(1 / s)`.
    pub open spec fn zoom_level_spec(self) -> (int, int) {
        let n = self.value_spec().numerator as int;
        let d = self.value_spec().denominator as int;
        match self {
            TiledLayerScaleFactor::ScaleIn(_) => if n >= d {
                (n / d, 1)
            } else {
                (1, ceil_div(d, n))
            },
            TiledLayerScaleFactor::ScaleOut(_) => if n >= d {
                (ceil_div(n, d), 1)
            } else {
                (1, d / n)
            },
        }
    }

    /// The scale divided by the zoom level, as numerator and denominator.
    pub open spec fn tile_scale_factor_spec(self) -> (int, int) {
        let v = self.value_spec();
        let z = self.zoom_level_spec();
        (v.numerator * z.1, v.denominator * z.0)
    }

    /// Tells whether the scale is valid.
    pub fn is_valid(&self) -> (r: bool)
        ensures
            r == self.valid(),
    {
        let v = self.value();
        1 <= v.numerator && v.numerator <= u32::MAX as u64 && 1 <= v.denominator
            && v.denominator <= u32::MAX as u64
    }

    /// Snaps in the scale `numerator / denominator`.
    pub fn scale_in(numerator: u32, denominator: u32) -> (r: Self)
        ensures
            r == TiledLayerScaleFactor::ScaleIn(
                Ratio { numerator: numerator as u64, denominator: denominator as u64 },
            ),
    {
        TiledLayerScaleFactor::ScaleIn(Ratio::new(numerator as u64, denominator as u64))
    }

    /// Snaps out the scale `numerator / denominator`.
    pub fn scale_out(numerator: u32, denominator: u32) -> (r: Self)
        ensures
            r == TiledLayerScaleFactor::ScaleOut(
                Ratio { numerator: numerator as u64, denominator: denominator as u64 },
            ),
    {
        TiledLayerScaleFactor::ScaleOut(Ratio::new(numerator as u64, denominator as u64))
    }

    pub fn value(&self) -> (r: Ratio)
        ensures
            r == self.value_spec(),
    {
        match self {
            TiledLayerScaleFactor::ScaleIn(scale) => *scale,
            TiledLayerScaleFactor::ScaleOut(scale) => *scale,
        }
    }

    /// The zoom level that the scale snaps to: a whole number, or one over a
    /// whole number.
    pub fn zoom_level(&self) -> (r: Ratio)
        requires
            self.valid(),
        ensures
            r.numerator == self.zoom_level_spec().0,
            r.denominator == self.zoom_level_spec().1,
            r.numerator == 1 || r.denominator == 1,
            1 <= r.numerator <= self.value_spec().numerator,
            1 <= r.denominator <= self.value_spec().denominator,
    {
        let v = self.value();
        let n = v.numerator;
        let d = v.denominator;
        proof {
            lemma_zoom_bounds(n as int, d as int);
        }
        match self {
            TiledLayerScaleFactor::ScaleIn(_) => {
                if n >= d {
                    Ratio::new(n / d, 1)
                } else {
                    Ratio::new(1, (d + n - 1) / n)
                }
            },
            TiledLayerScaleFactor::ScaleOut(_) => {
                if n >= d {
                    Ratio::new((n + d - 1) / d, 1)
                } else {
                    Ratio::new(1, d / n)
                }
            },
        }
    }

    /// How much a tile rasterized at the zoom level is scaled to show the
    /// requested scale: the scale divided by the zoom level. It lies between
    /// one half and two.
    pub fn tile_scale_factor(&self) -> (r: Ratio)
        requires
            self.valid(),
        ensures
            r.numerator == self.tile_scale_factor_spec().0,
            r.denominator == self.tile_scale_factor_spec().1,
            r.numerator >= 1,
            r.denominator >= 1,
            r.denominator <= 2 * r.numerator,
            r.numerator <= 2 * r.denominator,
            self is ScaleIn ==> r.denominator <= r.numerator < 2 * r.denominator,
            self is ScaleOut ==> r.numerator <= r.denominator < 2 * r.numerator,
    {
        let v = self.value();
        let z = self.zoom_level();
        proof {
            lemma_tile_scale_factor_bounds(*self);
        }
        assert(v.numerator * z.denominator <= u32::MAX * u32::MAX) by (nonlinear_arith)
            requires
                v.numerator <= u32::MAX,
                z.denominator <= u32::MAX,
        ;
        assert(v.denominator * z.numerator <= u32::MAX * u32::MAX) by (nonlinear_arith)
            requires
                v.denominator <= u32::MAX,
                z.numerator <= u32::MAX,
        ;
        Ratio::new(v.numerator * z.denominator, v.denominator * z.numerator)
    }
}

proof fn lemma_zoom_bounds(n: int, d: int)
    requires
        n >= 1,
        d >= 1,
    ensures
        n >= d ==> 1 <= n / d <= n,
        n >= d ==> 1 <= ceil_div(n, d) <= n,
        n < d ==> 1 <= ceil_div(d, n) <= d,
        n < d ==> 1 <= d / n <= d,
{
    if n >= d {
        lemma_fundamental_div_mod(n, d);
        lemma_fundamental_div_mod(n + d - 1, d);
        assert(n / d <= n) by (nonlinear_arith)
            requires
                d >= 1,
                n >= 0,
                n == d * (n / d) + n % d,
                0 <= n % d,
        ;
        assert(n / d >= 1) by (nonlinear_arith)
            requires
                n >= d,
                d >= 1,
                n == d * (n / d) + n % d,
                n % d < d,
        ;
        assert(ceil_div(n, d) <= n) by (nonlinear_arith)
            requires
                d >= 1,
                n >= d,
                n + d - 1 == d * ((n + d - 1) / d) + (n + d - 1) % d,
                0 <= (n + d - 1) % d,
        ;
        assert(ceil_div(n, d) >= 1) by (nonlinear_arith)
            requires
                n >= d,
                d >= 1,
                n + d - 1 == d * ((n + d - 1) / d) + (n + d - 1) % d,
                (n + d - 1) % d < d,
        ;
    } else {
        lemma_fundamental_div_mod(d, n);
        lemma_fundamental_div_mod(d + n - 1, n);
        assert(d / n <= d) by (nonlinear_arith)
            requires
                n >= 1,
                d >= 0,
                d == n * (d / n) + d % n,
                0 <= d % n,
        ;
        assert(d / n >= 1) by (nonlinear_arith)
            requires
                d > n,
                n >= 1,
                d == n * (d / n) + d % n,
                d % n < n,
        ;
        assert(ceil_div(d, n) <= d) by (nonlinear_arith)
            requires
                n >= 1,
                d > n,
                d + n - 1 == n * ((d + n - 1) / n) + (d + n - 1) % n,
                0 <= (d + n - 1) % n,
        ;
        assert(ceil_div(d, n) >= 1) by (nonlinear_arith)
            requires
                d > n,
                n >= 1,
                d + n - 1 == n * ((d + n - 1) / n) + (d + n - 1) % n,
                (d + n - 1) % n < n,
        ;
    }
}

/// The residual scale lies between one half and two: scaling in, from one
/// up to but not including two; scaling out, above one half up to one.
pub proof fn lemma_tile_scale_factor_bounds(f: TiledLayerScaleFactor)
    requires
        f.valid(),
    ensures
        f.tile_scale_factor_spec().0 >= 1,
        f.tile_scale_factor_spec().1 >= 1,
        f.tile_scale_factor_spec().1 <= 2 * f.tile_scale_factor_spec().0,
        f.tile_scale_factor_spec().0 <= 2 * f.tile_scale_factor_spec().1,
        f is ScaleIn ==> f.tile_scale_factor_spec().1 <= f.tile_scale_factor_spec().0 < 2
            * f.tile_scale_factor_spec().1,
        f is ScaleOut ==> f.tile_scale_factor_spec().0 <= f.tile_scale_factor_spec().1 < 2
            * f.tile_scale_factor_spec().0,
{
    let n = f.value_spec().numerator as int;
    let d = f.value_spec().denominator as int;
    lemma_zoom_bounds(n, d);
    let z = f.zoom_level_spec();
    let (a, b) = f.tile_scale_factor_spec();
    assert(a == n * z.1 && b == d * z.0);
    assert(a >= 1 && b >= 1) by (nonlinear_arith)
        requires
            a == n * z.1,
            b == d * z.0,
            n >= 1,
            d >= 1,
            z.0 >= 1,
            z.1 >= 1,
    ;
    if n >= d {
        if f is ScaleIn {
            lemma_fundamental_div_mod(n, d);
            let q = n / d;
            assert(b <= a < 2 * b) by (nonlinear_arith)
                requires
                    a == n,
                    b == d * q,
                    n == d * q + n % d,
                    0 <= n % d < d,
                    q >= 1,
            ;
        } else {
            lemma_fundamental_div_mod(n + d - 1, d);
            let q = (n + d - 1) / d;
            assert(a <= b < 2 * a) by (nonlinear_arith)
                requires
                    a == n,
                    b == d * q,
                    n + d - 1 == d * q + (n + d - 1) % d,
                    0 <= (n + d - 1) % d < d,
                    n >= d,
                    q >= 1,
            ;
        }
    } else {
        if f is ScaleIn {
            lemma_fundamental_div_mod(d + n - 1, n);
            let q = (d + n - 1) / n;
            assert(b <= a < 2 * b) by (nonlinear_arith)
                requires
                    a == n * q,
                    b == d,
                    d + n - 1 == n * q + (d + n - 1) % n,
                    0 <= (d + n - 1) % n < n,
                    d > n,
            ;
        } else {
            lemma_fundamental_div_mod(d, n);
            let q = d / n;
            assert(a <= b < 2 * a) by (nonlinear_arith)
                requires
                    a == n * q,
                    b == d,
                    d == n * q + d % n,
                    0 <= d % n < n,
                    q >= 1,
            ;
        }
    }
}

} // verus!
