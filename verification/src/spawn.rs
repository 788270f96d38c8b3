//! Startup placement: the population is created once, uniformly inside the
//! current bounds, with a random non-degenerate heading and a speed drawn
//! so that the realised speed provably lies in `[SPEED_MIN, SPEED_MAX]`.
//!
//! The heading is drawn as a y component in (-1, 1) (milli-units), the x
//! component is `1 - |y|` with a random sign — never zero, so the heading
//! never degenerates — and the pair is scaled to the drawn speed through an
//! integer square-root normalisation. Truncation can shift the realised
//! speed by a few milli-units, so the raw draw comes from a band narrowed
//! by exactly that slack.

use crate::agent::{agent_ok, agents_ok, Agent, AgentStore, coord_ok, Vec2};
use crate::bounds::Bounds;
use crate::math::{abs_i, div_t, div_trunc, isqrt, lemma_div_t_bound, lemma_div_t_neg};
use crate::params::{MAX_AGENTS, POS_LIMIT, SPEED_MAX, SPEED_MIN, VEL_TICK_LIMIT};
use vstd::arithmetic::div_mod::{lemma_div_pos_is_pos, lemma_fundamental_div_mod};
use vstd::prelude::*;

verus! {

/// Relies on `rand::Rng::gen_range` on the thread-local generator: for a
/// non-empty half-open range it returns a sample within `[lo, hi)` (and
/// panics only on an empty range, which the precondition rules out).
#[verifier::external_body]
fn sample_range(lo: i64, hi: i64) -> (r: i64)
    requires
        lo < hi,
    ensures
        lo <= r < hi,
{
    rand::Rng::gen_range(&mut rand::thread_rng(), lo..hi)
}

/// Relies on `rand::random` for a coin flip; nothing is assumed of the
/// outcome.
#[verifier::external_body]
fn sample_bool() -> bool {
    rand::random::<bool>()
}

/// What `spawn_squirrels` guarantees of the agent spawned at index `i`:
/// its stable id, placement inside the bounds, and a speed that is neither
/// zero nor outside the configured band.
pub open spec fn spawned_ok(a: Agent, i: int, b: Bounds) -> bool {
    &&& a.id == i
    &&& -b.half_width <= a.position.x <= b.half_width
    &&& -b.half_height <= a.position.y <= b.half_height
    &&& SPEED_MIN * SPEED_MIN <= a.velocity.x * a.velocity.x + a.velocity.y * a.velocity.y
    &&& a.velocity.x * a.velocity.x + a.velocity.y * a.velocity.y <= SPEED_MAX * SPEED_MAX
    &&& !(a.velocity.x == 0 && a.velocity.y == 0)
}

/// For `t = nn * q + r` with `0 <= r < nn`, the scaled square `nn^2 * q^2`
/// sits within `2 * t * nn` below `t^2`.
proof fn lemma_component_sq_bounds(t: int, nn: int)
    requires
        t >= 0,
        nn >= 1,
    ensures
        nn * nn * ((t / nn) * (t / nn)) <= t * t,
        nn * nn * ((t / nn) * (t / nn)) >= t * t - 2 * t * nn,
{
    let q = t / nn;
    let r = t % nn;
    lemma_fundamental_div_mod(t, nn);
    lemma_div_pos_is_pos(t, nn);
    assert(nn * nn * (q * q) <= t * t && nn * nn * (q * q) >= t * t - 2 * t * nn)
        by (nonlinear_arith)
        requires
            t == nn * q + r,
            0 <= r < nn,
            q >= 0,
            t >= 0,
    ;
}

/// Squared magnitude of the normalised, speed-scaled heading: at most a
/// few milli-units below the drawn speed `s` and at most 848 above it, so
/// it stays inside the configured band.
proof fn lemma_velocity_band(s: int, hx: int, hy: int, nn: int)
    requires
        SPEED_MIN + 3 <= s <= SPEED_MAX - 848,
        abs_i(hx) + abs_i(hy) == 1000,
        nn * nn <= hx * hx + hy * hy < (nn + 1) * (nn + 1),
        707 <= nn <= 1000,
    ensures
        SPEED_MIN * SPEED_MIN <= div_t(s * hx, nn) * div_t(s * hx, nn) + div_t(s * hy, nn)
            * div_t(s * hy, nn),
        div_t(s * hx, nn) * div_t(s * hx, nn) + div_t(s * hy, nn) * div_t(s * hy, nn)
            <= SPEED_MAX * SPEED_MAX,
{
    let a = s * abs_i(hx);
    let b = s * abs_i(hy);
    assert(a >= 0 && b >= 0 && a * a == (s * s) * (hx * hx) && b * b == (s * s) * (hy * hy)
        && a + b == 1000 * s) by (nonlinear_arith)
        requires
            s > 0,
            a == s * abs_i(hx),
            b == s * abs_i(hy),
            abs_i(hx) + abs_i(hy) == 1000,
            abs_i(hx) == if hx >= 0 { hx as int } else { -hx },
            abs_i(hy) == if hy >= 0 { hy as int } else { -hy },
    ;
    let qa = a / nn;
    let qb = b / nn;
    // the truncated components square to qa^2 and qb^2 whatever the signs
    assert(div_t(s * hx, nn) * div_t(s * hx, nn) == qa * qa) by {
        if hx >= 0 {
            assert(s * hx == a) by (nonlinear_arith)
                requires
                    a == s * abs_i(hx),
                    hx >= 0,
                    abs_i(hx) == hx as int,
            ;
            lemma_div_pos_is_pos(a, nn);
        } else {
            assert(s * hx == -a) by (nonlinear_arith)
                requires
                    a == s * abs_i(hx),
                    hx < 0,
                    abs_i(hx) == -hx,
            ;
            lemma_div_t_neg(a, nn);
            assert(div_t(s * hx, nn) == -qa);
            assert((-qa) * (-qa) == qa * qa) by (nonlinear_arith);
        }
    }
    assert(div_t(s * hy, nn) * div_t(s * hy, nn) == qb * qb) by {
        if hy >= 0 {
            assert(s * hy == b) by (nonlinear_arith)
                requires
                    b == s * abs_i(hy),
                    hy >= 0,
                    abs_i(hy) == hy as int,
            ;
            lemma_div_pos_is_pos(b, nn);
        } else {
            assert(s * hy == -b) by (nonlinear_arith)
                requires
                    b == s * abs_i(hy),
                    hy < 0,
                    abs_i(hy) == -hy,
            ;
            lemma_div_t_neg(b, nn);
            assert(div_t(s * hy, nn) == -qb);
            assert((-qb) * (-qb) == qb * qb) by (nonlinear_arith);
        }
    }
    lemma_component_sq_bounds(a, nn);
    lemma_component_sq_bounds(b, nn);
    let m = hx * hx + hy * hy;
    let qq = qa * qa + qb * qb;
    assert(nn * nn * qq == nn * nn * (qa * qa) + nn * nn * (qb * qb)) by (nonlinear_arith)
        requires
            qq == qa * qa + qb * qb,
    ;
    assert(a * a + b * b == (s * s) * m) by (nonlinear_arith)
        requires
            a * a == (s * s) * (hx * hx),
            b * b == (s * s) * (hy * hy),
            m == hx * hx + hy * hy,
    ;
    // lower bound: nn^2 qq >= s^2 m - 2000 s nn >= nn^2 (s - 3)^2
    assert((s * s) * m >= (s * s) * (nn * nn)) by (nonlinear_arith)
        requires
            m >= nn * nn,
            s * s >= 0,
    ;
    assert(2 * nn * (a + b) == 2000 * s * nn) by (nonlinear_arith)
        requires
            a + b == 1000 * s,
    ;
    assert(nn * nn * qq >= (s * s) * (nn * nn) - 2000 * s * nn) by (nonlinear_arith)
        requires
            nn * nn * qq == nn * nn * (qa * qa) + nn * nn * (qb * qb),
            nn * nn * (qa * qa) >= a * a - 2 * a * nn,
            nn * nn * (qb * qb) >= b * b - 2 * b * nn,
            a * a + b * b >= (s * s) * (nn * nn),
            2 * nn * (a + b) == 2000 * s * nn,
    ;
    assert(nn * (6 * s - 9) >= 2000 * s) by (nonlinear_arith)
        requires
            nn >= 707,
            s >= 200_003,
    ;
    assert((s * s) * (nn * nn) - 2000 * s * nn >= nn * nn * ((s - 3) * (s - 3)))
        by (nonlinear_arith)
        requires
            nn * (6 * s - 9) >= 2000 * s,
            nn >= 1,
    ;
    assert(qq >= (s - 3) * (s - 3)) by (nonlinear_arith)
        requires
            nn * nn * qq >= nn * nn * ((s - 3) * (s - 3)),
            nn >= 707,
    ;
    assert((s - 3) * (s - 3) >= 200_000 * 200_000) by (nonlinear_arith)
        requires
            s - 3 >= 200_000,
    ;
    // upper bound: nn^2 qq <= s^2 m <= s^2 (nn + 1)^2 <= nn^2 (s + 848)^2
    assert(nn * nn * qq <= (s * s) * m) by (nonlinear_arith)
        requires
            nn * nn * qq == nn * nn * (qa * qa) + nn * nn * (qb * qb),
            nn * nn * (qa * qa) <= a * a,
            nn * nn * (qb * qb) <= b * b,
            a * a + b * b == (s * s) * m,
    ;
    assert((s * s) * m <= (s * s) * ((nn + 1) * (nn + 1))) by (nonlinear_arith)
        requires
            m <= (nn + 1) * (nn + 1),
            s * s >= 0,
    ;
    assert(s <= 848 * nn) by (nonlinear_arith)
        requires
            nn >= 707,
            s <= 599_152,
    ;
    assert(0 <= s * (nn + 1) && s * (nn + 1) <= nn * (s + 848)) by (nonlinear_arith)
        requires
            s <= 848 * nn,
            s > 0,
            nn > 0,
    ;
    assert((s * s) * ((nn + 1) * (nn + 1)) <= nn * nn * ((s + 848) * (s + 848)))
        by (nonlinear_arith)
        requires
            0 <= s * (nn + 1),
            s * (nn + 1) <= nn * (s + 848),
            s > 0,
            nn > 0,
    ;
    assert(qq <= (s + 848) * (s + 848)) by (nonlinear_arith)
        requires
            nn * nn * qq <= nn * nn * ((s + 848) * (s + 848)),
            nn >= 707,
    ;
    assert((s + 848) * (s + 848) <= 600_000 * 600_000) by (nonlinear_arith)
        requires
            0 <= s + 848 <= 600_000,
    ;
}

/// Velocity for a freshly spawned agent: heading `(1000 - |heading_y|)`
/// (signed by `x_positive`) and `heading_y`, normalised by the integer
/// square root of its squared magnitude and scaled to `speed`.
fn initial_velocity(heading_y: i64, x_positive: bool, speed: i64) -> (v: Vec2)
    requires
        -999 <= heading_y <= 999,
        SPEED_MIN + 3 <= speed <= SPEED_MAX - 848,
    ensures
        SPEED_MIN * SPEED_MIN <= v.x * v.x + v.y * v.y <= SPEED_MAX * SPEED_MAX,
        !(v.x == 0 && v.y == 0),
        coord_ok(v, VEL_TICK_LIMIT as int),
{
    let ya: i64 = if heading_y >= 0 {
        heading_y
    } else {
        -heading_y
    };
    let hx: i64 = if x_positive {
        1000 - ya
    } else {
        -(1000 - ya)
    };
    proof {
        assert(abs_i(hx as int) + abs_i(heading_y as int) == 1000);
        assert(0 <= hx * hx <= 1_000_000) by (nonlinear_arith)
            requires
                -1000 <= hx <= 1000,
        ;
        assert(0 <= heading_y * heading_y <= 1_000_000) by (nonlinear_arith)
            requires
                -1000 <= heading_y <= 1000,
        ;
        assert(500_000 <= hx * hx + heading_y * heading_y <= 1_000_000) by (nonlinear_arith)
            requires
                0 <= ya <= 999,
                hx == 1000 - ya || hx == -(1000 - ya),
                heading_y == ya || heading_y == -ya,
        ;
    }
    let m: i64 = hx * hx + heading_y * heading_y;
    let nn: u64 = isqrt(m as u64);
    proof {
        assert(nn >= 707) by (nonlinear_arith)
            requires
                m >= 500_000,
                (nn + 1) * (nn + 1) > m,
                nn >= 0,
        ;
        assert(-599_152_000 <= speed * hx <= 599_152_000) by (nonlinear_arith)
            requires
                0 < speed <= 599_152,
                -1000 <= hx <= 1000,
        ;
        assert(-599_152_000 <= speed * heading_y <= 599_152_000) by (nonlinear_arith)
            requires
                0 < speed <= 599_152,
                -1000 <= heading_y <= 1000,
        ;
        assert(848_000 * nn >= 599_152_000) by (nonlinear_arith)
            requires
                nn >= 707,
        ;
        lemma_div_t_bound(speed * hx, nn as int, 848_000);
        lemma_div_t_bound(speed * heading_y, nn as int, 848_000);
        lemma_velocity_band(speed as int, hx as int, heading_y as int, nn as int);
    }
    let vx: i64 = div_trunc(speed * hx, nn as i64);
    let vy: i64 = div_trunc(speed * heading_y, nn as i64);
    Vec2 { x: vx, y: vy }
}

/// Place `count` agents uniformly inside the bounds, ids `0..count`, each
/// with a non-degenerate heading and an in-band speed. A zero extent on an
/// axis puts every agent at 0 on that axis.
pub fn spawn_squirrels(count: usize, bounds: &Bounds) -> (store: AgentStore)
    requires
        count <= MAX_AGENTS,
        0 <= bounds.half_width <= POS_LIMIT,
        0 <= bounds.half_height <= POS_LIMIT,
    ensures
        store.agents@.len() == count,
        forall|i: int| 0 <= i < count ==> spawned_ok(#[trigger] store.agents@[i], i, *bounds),
        agents_ok(store.agents@, POS_LIMIT as int, VEL_TICK_LIMIT as int),
{
    let mut store = AgentStore::new();
    let mut i: usize = 0;
    while i < count
        invariant
            count <= MAX_AGENTS,
            0 <= bounds.half_width <= POS_LIMIT,
            0 <= bounds.half_height <= POS_LIMIT,
            i <= count,
            store.agents@.len() == i,
            forall|k: int| 0 <= k < i ==> spawned_ok(#[trigger] store.agents@[k], k, *bounds),
            forall|k: int| 0 <= k < i ==> agent_ok(
                #[trigger] store.agents@[k],
                POS_LIMIT as int,
                VEL_TICK_LIMIT as int,
            ),
        decreases count - i,
    {
        let px: i64 = if bounds.half_width > 0 {
            sample_range(-bounds.half_width, bounds.half_width)
        } else {
            0
        };
        let py: i64 = if bounds.half_height > 0 {
            sample_range(-bounds.half_height, bounds.half_height)
        } else {
            0
        };
        let heading_y: i64 = sample_range(-999, 1000);
        let x_positive: bool = sample_bool();
        let speed: i64 = sample_range(SPEED_MIN + 3, SPEED_MAX - 847);
        let velocity: Vec2 = initial_velocity(heading_y, x_positive, speed);
        let agent = Agent { position: Vec2 { x: px, y: py }, velocity, id: i as u32 };
        store.push(agent);
        i = i + 1;
    }
    store
}

} // verus!
