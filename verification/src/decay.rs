//! Multiplicative zoom, notch by notch, against the exact power of the decay.

use vstd::prelude::*;
use vstd::arithmetic::power::{lemma_pow_positive, pow};
use crate::config::{valid_settings, OrbitSettings, ZoomMode, MILLION};
use crate::orbit::{grown, scaled, shrunk};

verus! {

/// Any number of notches of multiplicative zoom leaves a radius that was
/// within the configured bounds within them.
pub proof fn lemma_scaled_in_bounds(r: int, c: OrbitSettings, n: int)
    requires
        valid_settings(c),
        c.radius_min <= r <= c.radius_max,
    ensures
        c.radius_min <= scaled(r, c, n) <= c.radius_max,
    decreases (if n >= 0 { n } else { -n }),
{
    if n > 0 {
        lemma_scaled_in_bounds(shrunk(r, c), c, n - 1);
    } else if n < 0 {
        lemma_scaled_in_bounds(grown(r, c), c, n + 1);
    }
}

/// A notch of multiplicative zoom never stalls: it moves the radius unless
/// the radius already sits at the bound in that direction.
pub proof fn lemma_notch_moves_radius(r: int, c: OrbitSettings)
    requires
        valid_settings(c),
        c.zoom_mode == ZoomMode::Multiplicative,
        c.radius_min <= r <= c.radius_max,
    ensures
        c.radius_min <= shrunk(r, c) <= r,
        r <= grown(r, c) <= c.radius_max,
        shrunk(r, c) == r <==> r == c.radius_min,
        grown(r, c) == r <==> r == c.radius_max,
{
    let d: int = c.zoom_sensitivity as int;
    let m: int = MILLION as int;
    // Rounded down, r * d / m stays below r.
    assert(r * d <= (r - 1) * m + (m - 1)) by (nonlinear_arith)
        requires
            r >= 1,
            0 < d < m,
    ;
    vstd::arithmetic::div_mod::lemma_div_is_ordered(r * d, (r - 1) * m + (m - 1), m);
    vstd::arithmetic::div_mod::lemma_fundamental_div_mod_converse(
        (r - 1) * m + (m - 1),
        m,
        r - 1,
        m - 1,
    );
    // Rounded up, r * m / d comes out above r.
    assert(-(r * m) <= (-(r + 1)) * d + (d - 1)) by (nonlinear_arith)
        requires
            r >= 1,
            0 < d < m,
    ;
    vstd::arithmetic::div_mod::lemma_div_is_ordered(-(r * m), (-(r + 1)) * d + (d - 1), d);
    vstd::arithmetic::div_mod::lemma_fundamental_div_mod_converse(
        (-(r + 1)) * d + (d - 1),
        d,
        -(r + 1),
        d - 1,
    );
}

/// Scrolling in far enough reaches the nearest radius, and scrolling out
/// far enough reaches the farthest.
pub proof fn lemma_enough_notches_reach_bound(r: int, c: OrbitSettings, n: int)
    requires
        valid_settings(c),
        c.zoom_mode == ZoomMode::Multiplicative,
        c.radius_min <= r <= c.radius_max,
    ensures
        n >= r - c.radius_min ==> scaled(r, c, n) == c.radius_min,
        -n >= c.radius_max - r ==> scaled(r, c, n) == c.radius_max,
        n >= 0 ==> scaled(r, c, n) <= r,
        n <= 0 ==> scaled(r, c, n) >= r,
    decreases (if n >= 0 { n } else { -n }),
{
    lemma_notch_moves_radius(r, c);
    if n > 0 {
        lemma_enough_notches_reach_bound(shrunk(r, c), c, n - 1);
    } else if n < 0 {
        lemma_enough_notches_reach_bound(grown(r, c), c, n + 1);
    }
}

/// One more factor in a power.
proof fn lemma_pow_step(b: int, n: nat)
    requires
        n > 0,
        b > 0,
    ensures
        pow(b, n) == b * pow(b, (n - 1) as nat),
        pow(b, (n - 1) as nat) > 0,
{
    reveal(pow);
    lemma_pow_positive(b, (n - 1) as nat);
}

/// What one notch closer loses to rounding: less than one length unit,
/// unless the nearest radius holds the camera back.
proof fn lemma_shrunk_remainder(r: int, c: OrbitSettings)
    requires
        valid_settings(c),
        c.zoom_mode == ZoomMode::Multiplicative,
        c.radius_min <= r <= c.radius_max,
    ensures
        r * c.zoom_sensitivity - shrunk(r, c) * MILLION <= MILLION - 1,
        shrunk(r, c) == c.radius_min || shrunk(r, c) * MILLION <= r * c.zoom_sensitivity,
{
    let d: int = c.zoom_sensitivity as int;
    let m: int = MILLION as int;
    lemma_notch_moves_radius(r, c);
    vstd::arithmetic::div_mod::lemma_fundamental_div_mod(r * d, m);
    let f: int = (r * d) / m;
    assert(m * f <= r * d <= m * f + (m - 1));
    assert(f * m == m * f) by (nonlinear_arith);
    assert(f < r) by (nonlinear_arith)
        requires
            f * m <= r * d,
            0 < d < m,
            r >= 1,
    ;
    if shrunk(r, c) != f {
        assert(shrunk(r, c) == c.radius_min && f < c.radius_min);
        assert(shrunk(r, c) * m >= f * m) by (nonlinear_arith)
            requires
                shrunk(r, c) >= f,
                m > 0,
        ;
    }
}

/// What one notch farther gains from rounding: less than one length unit
/// times the decay, and nothing where the farthest radius holds the camera
/// back.
proof fn lemma_grown_remainder(r: int, c: OrbitSettings)
    requires
        valid_settings(c),
        c.zoom_mode == ZoomMode::Multiplicative,
        c.radius_min <= r <= c.radius_max,
    ensures
        grown(r, c) * c.zoom_sensitivity - r * MILLION <= c.zoom_sensitivity - 1,
        grown(r, c) == c.radius_max || grown(r, c) * c.zoom_sensitivity >= r * MILLION,
{
    let d: int = c.zoom_sensitivity as int;
    let m: int = MILLION as int;
    lemma_notch_moves_radius(r, c);
    vstd::arithmetic::div_mod::lemma_fundamental_div_mod(-(r * m), d);
    let q: int = (-(r * m)) / d;
    let g: int = -q;
    assert(d * q <= -(r * m) <= d * q + (d - 1));
    assert(g * d == -(d * q)) by (nonlinear_arith)
        requires
            g == -q,
    ;
    assert(g > r) by (nonlinear_arith)
        requires
            g * d >= r * m,
            0 < d < m,
            r >= 1,
    ;
    if grown(r, c) != g {
        assert(grown(r, c) == c.radius_max && g > c.radius_max);
        assert(grown(r, c) * d <= g * d) by (nonlinear_arith)
            requires
                grown(r, c) <= g,
                d > 0,
        ;
    }
}

/// Zooming in tracks the power of the decay. After `n` notches closer the
/// radius is never above `r * decay^n` unless the nearest radius holds it,
/// and it is below `r * decay^n` by no more than the rounding of each notch
/// adds up to: `(1 - decay^n) / (1 - decay)` length units. Stated without
/// fractions, with the decay as `d / m`.
pub proof fn lemma_zoom_in_tracks_power(r: int, c: OrbitSettings, n: nat)
    requires
        valid_settings(c),
        c.zoom_mode == ZoomMode::Multiplicative,
        c.radius_min <= r <= c.radius_max,
    ensures
        ({
            let s = scaled(r, c, n as int);
            let d = c.zoom_sensitivity as int;
            let m = MILLION as int;
            &&& s == c.radius_min || s * pow(m, n) <= r * pow(d, n)
            &&& (m - d) * (r * pow(d, n) - s * pow(m, n)) <= m * (pow(m, n) - pow(d, n))
        }),
    decreases n,
{
    let d: int = c.zoom_sensitivity as int;
    let m: int = MILLION as int;
    if n == 0 {
        reveal(pow);
        assert((m - d) * (r * 1 - r * 1) == 0) by (nonlinear_arith);
    } else {
        let k: nat = (n - 1) as nat;
        let r1: int = shrunk(r, c);
        let s: int = scaled(r, c, n as int);
        lemma_notch_moves_radius(r, c);
        lemma_shrunk_remainder(r, c);
        lemma_zoom_in_tracks_power(r1, c, k);
        lemma_pow_step(m, n);
        lemma_pow_step(d, n);
        let pm: int = pow(m, k);
        let pd: int = pow(d, k);
        assert(s == scaled(r1, c, k as int));
        // Never above the power, unless held.
        if r1 == c.radius_min {
            lemma_enough_notches_reach_bound(r1, c, k as int);
        } else if s != c.radius_min {
            assert(s * (m * pm) <= r * (d * pd)) by (nonlinear_arith)
                requires
                    s * pm <= r1 * pd,
                    r1 * m <= r * d,
                    pd > 0,
                    m > 0,
            ;
        }
        // Below it by no more than the roundings add up to.
        let e: int = r * d - r1 * m;
        let rest: int = r1 * pd - s * pm;
        assert(r * (d * pd) - s * (m * pm) == pd * e + m * rest) by {
            assert(r * (d * pd) == pd * (r * d)) by (nonlinear_arith);
            assert(s * (m * pm) == m * (s * pm)) by (nonlinear_arith);
            assert(pd * (r1 * m) == m * (r1 * pd)) by (nonlinear_arith);
            assert(pd * e == pd * (r * d) - pd * (r1 * m)) by (nonlinear_arith)
                requires
                    e == r * d - r1 * m,
            ;
            assert(m * rest == m * (r1 * pd) - m * (s * pm)) by (nonlinear_arith)
                requires
                    rest == r1 * pd - s * pm,
            ;
        }
        assert((m - d) * (pd * e + m * rest) <= m * (m * pm - d * pd)) by (nonlinear_arith)
            requires
                (m - d) * rest <= m * (pm - pd),
                e <= m - 1,
                pd > 0,
                0 < d < m,
        ;
    }
}

/// Zooming out tracks the inverse power of the decay. After `n` notches
/// farther the radius is never below `r / decay^n` unless the farthest
/// radius holds it, and it is above `r / decay^n` by no more than the
/// rounding of each notch adds up to. Stated without fractions, with the
/// decay as `d / m`.
pub proof fn lemma_zoom_out_tracks_power(r: int, c: OrbitSettings, n: nat)
    requires
        valid_settings(c),
        c.zoom_mode == ZoomMode::Multiplicative,
        c.radius_min <= r <= c.radius_max,
    ensures
        ({
            let s = scaled(r, c, -(n as int));
            let d = c.zoom_sensitivity as int;
            let m = MILLION as int;
            &&& s == c.radius_max || s * pow(d, n) >= r * pow(m, n)
            &&& (m - d) * (s * pow(d, n) - r * pow(m, n)) <= d * (pow(m, n) - pow(d, n))
        }),
    decreases n,
{
    let d: int = c.zoom_sensitivity as int;
    let m: int = MILLION as int;
    if n == 0 {
        reveal(pow);
        assert((m - d) * (r * 1 - r * 1) == 0) by (nonlinear_arith);
    } else {
        let k: nat = (n - 1) as nat;
        let r1: int = grown(r, c);
        let s: int = scaled(r, c, -(n as int));
        lemma_notch_moves_radius(r, c);
        lemma_grown_remainder(r, c);
        lemma_zoom_out_tracks_power(r1, c, k);
        lemma_pow_step(m, n);
        lemma_pow_step(d, n);
        let pm: int = pow(m, k);
        let pd: int = pow(d, k);
        assert(s == scaled(r1, c, -(k as int)));
        // Never below the inverse power, unless held.
        if r1 == c.radius_max {
            lemma_enough_notches_reach_bound(r1, c, -(k as int));
        } else if s != c.radius_max {
            assert(s * (d * pd) >= r * (m * pm)) by (nonlinear_arith)
                requires
                    s * pd >= r1 * pm,
                    r1 * d >= r * m,
                    pm > 0,
                    d > 0,
            ;
        }
        // Above it by no more than the roundings add up to.
        let e: int = r1 * d - r * m;
        let rest: int = s * pd - r1 * pm;
        assert(s * (d * pd) - r * (m * pm) == d * rest + pm * e) by {
            assert(s * (d * pd) == d * (s * pd)) by (nonlinear_arith);
            assert(r * (m * pm) == pm * (r * m)) by (nonlinear_arith);
            assert(pm * (r1 * d) == d * (r1 * pm)) by (nonlinear_arith);
            assert(pm * e == pm * (r1 * d) - pm * (r * m)) by (nonlinear_arith)
                requires
                    e == r1 * d - r * m,
            ;
            assert(d * rest == d * (s * pd) - d * (r1 * pm)) by (nonlinear_arith)
                requires
                    rest == s * pd - r1 * pm,
            ;
        }
        assert((m - d) * (d * rest + pm * e) <= d * (m * pm - d * pd)) by (nonlinear_arith)
            requires
                (m - d) * rest <= d * (pm - pd),
                e <= d - 1,
                pm > 0,
                0 < d < m,
        ;
    }
}

} // verus!
