//! Coherent noise in fixed point: seeded pseudo-random samples on a square
//! grid, bilinearly interpolated to one value per unit cell.
use vstd::prelude::*;

verus! {

/// Edge length of a noise map.
pub const MAP_SIZE: usize = 16;

/// Number of cells of a noise map.
pub const MAP_CELLS: usize = 256;

/// Modulus of the grid hash (a Mersenne prime).
pub const NOISE_PRIME: u64 = 2147483647;

/// Largest grid step.
pub const MAX_STEP: usize = 4096;

/// Largest value a noise layer may reach.
pub const MAX_VALUE: i64 = 0x10_0000;

/// Bound on the magnitude of a world coordinate given to the noise.
pub const WORLD_LIMIT: i64 = 0x1000_0000_0000_0000;

/// Bound on the values of a noise map that is written to.
pub const MAP_LIMIT: i64 = 0x1_0000_0000_0000;

/// Multiplier of the x coordinate in the grid hash.
pub const MIX_X: u64 = 1103515245;

/// Multiplier of the z coordinate in the grid hash.
pub const MIX_Z: u64 = 12345679;

/// Output multiplier of the grid hash.
pub const MIX_OUT: u64 = 48271;

/// Offset of the seed derivation between layers.
pub const SEED_STEP: u64 = 463857393;

/// `x` modulo `n`, never negative.
pub fn mod_signed(x: i64, n: usize) -> (r: i64)
    requires
        0 < n <= i64::MAX,
    ensures
        r == (x as int) % (n as int),
        0 <= r < n,
{
    let m = n as u64;
    if x >= 0 {
        proof {
            vstd::arithmetic::div_mod::lemma_mod_bound(x as int, n as int);
        }
        ((x as u64) % m) as i64
    } else {
        let k = (-(x + 1)) as u64;
        let t = k % m;
        proof {
            vstd::arithmetic::div_mod::lemma_fundamental_div_mod(k as int, n as int);
            vstd::arithmetic::div_mod::lemma_mod_bound(k as int, n as int);
            let q = k as int / n as int;
            assert(x as int == -(q + 1) * n + (n - 1 - t)) by (nonlinear_arith)
                requires
                    k as int == n * q + t,
                    x as int == -(k + 1),
            ;
            vstd::arithmetic::div_mod::lemma_fundamental_div_mod_converse(x as int, n as int, -(q + 1), n - 1 - t);
        }
        (m - 1 - t) as i64
    }
}

/// `x` divided by `n`, rounded down.
pub fn div_signed(x: i64, n: usize) -> (r: i64)
    requires
        0 < n <= i64::MAX,
    ensures
        r == (x as int) / (n as int),
{
    let m = n as u64;
    if x >= 0 {
        proof {
            vstd::arithmetic::div_mod::lemma_div_pos_is_pos(x as int, n as int);
            vstd::arithmetic::div_mod::lemma_div_is_ordered_by_denominator(x as int, 1, n as int);
        }
        ((x as u64) / m) as i64
    } else {
        let k = (-(x + 1)) as u64;
        let q = k / m;
        proof {
            vstd::arithmetic::div_mod::lemma_fundamental_div_mod(k as int, n as int);
            vstd::arithmetic::div_mod::lemma_mod_bound(k as int, n as int);
            vstd::arithmetic::div_mod::lemma_div_is_ordered_by_denominator(k as int, 1, n as int);
            let t = k as int % n as int;
            assert(x as int == -(q + 1) * n + (n - 1 - t)) by (nonlinear_arith)
                requires
                    k as int == n * q + t,
                    x as int == -(k + 1),
            ;
            vstd::arithmetic::div_mod::lemma_fundamental_div_mod_converse(x as int, n as int, -(q + 1), n - 1 - t);
        }
        -(q as i64) - 1
    }
}

/// The pseudo-random value in `[0, NOISE_PRIME)` of grid point `(gx, gz)`
/// under `seed`.
pub open spec fn grid_random(seed: u64, gx: int, gz: int) -> int {
    let p = NOISE_PRIME as int;
    let a = seed as int % p;
    let x = gx % p;
    let z = gz % p;
    let h1 = (x * MIX_X + z * MIX_Z + a) % p;
    let h2 = (h1 * h1 + x) % p;
    (h2 * MIX_OUT + z) % p
}

fn grid_random_of(seed: u64, gx: i64, gz: i64) -> (r: u64)
    ensures
        r == grid_random(seed, gx as int, gz as int),
        r < NOISE_PRIME,
{
    let p = NOISE_PRIME;
    let a = seed % p;
    let x = mod_signed(gx, p as usize) as u64;
    let z = mod_signed(gz, p as usize) as u64;
    assert(x * MIX_X + z * MIX_Z + a < 0x8000_0000_0000_0000) by (nonlinear_arith)
        requires
            x < 2147483647,
            z < 2147483647,
            a < 2147483647,
    ;
    let h1 = (x * MIX_X + z * MIX_Z + a) % p;
    assert(h1 * h1 + x < 0x8000_0000_0000_0000) by (nonlinear_arith)
        requires
            h1 < 2147483647,
            x < 2147483647,
    ;
    let h2 = (h1 * h1 + x) % p;
    assert(h2 * MIX_OUT + z < 0x8000_0000_0000_0000) by (nonlinear_arith)
        requires
            h2 < 2147483647,
            z < 2147483647,
    ;
    (h2 * MIX_OUT + z) % p
}

/// The sample of grid point `(gx, gz)` in the value range `[low, high]`.
pub open spec fn grid_sample(seed: u64, gx: int, gz: int, low: int, high: int) -> int {
    low + grid_random(seed, gx, gz) % (high - low + 1)
}

fn grid_sample_of(seed: u64, gx: i64, gz: i64, low: i64, high: i64) -> (r: i64)
    requires
        0 <= low <= high <= MAX_VALUE,
    ensures
        r == grid_sample(seed, gx as int, gz as int, low as int, high as int),
        low <= r <= high,
{
    let g = grid_random_of(seed, gx, gz);
    let span = (high - low + 1) as u64;
    proof {
        vstd::arithmetic::div_mod::lemma_mod_bound(g as int, span as int);
    }
    low + (g % span) as i64
}

pub open spec fn range_ok(step: int, low: int, high: int) -> bool {
    1 <= step <= MAX_STEP && 0 <= low <= high <= MAX_VALUE
}

/// The samples of row `gz` interpolated along x to world column `wx`,
/// scaled by `step`.
pub open spec fn row_value(seed: u64, step: int, low: int, high: int, wx: int, gz: int) -> int {
    let gx = wx / step;
    let fx = wx % step;
    grid_sample(seed, gx, gz, low, high) * (step - fx) + grid_sample(seed, gx + 1, gz, low, high) * fx
}

/// The noise value of the unit cell at world column `(wx, wz)`: the four
/// enclosing grid samples, bilinearly interpolated and rounded down.
#[verifier::opaque]
pub open spec fn noise_at(seed: u64, step: int, low: int, high: int, wx: int, wz: int) -> int {
    let gz = wz / step;
    let fz = wz % step;
    (row_value(seed, step, low, high, wx, gz) * (step - fz) + row_value(seed, step, low, high, wx, gz + 1) * fz) / (step * step)
}

pub open spec fn coord_ok(v: int) -> bool {
    -WORLD_LIMIT <= v <= WORLD_LIMIT
}

pub open spec fn near_ok(v: int) -> bool {
    -WORLD_LIMIT - 16 <= v <= WORLD_LIMIT + 16
}

pub open spec fn grid_ok(v: int) -> bool {
    -2 * WORLD_LIMIT <= v <= 2 * WORLD_LIMIT
}

/// Fills `line` with the interpolated values of grid row `gz` along the 16
/// world columns from `x_start`, scaled by `step`.
pub fn write_line(line: &mut Vec<i64>, seed: u64, gz: i64, x_start: i64, step: usize, low: i64, high: i64)
    requires
        range_ok(step as int, low as int, high as int),
        coord_ok(x_start as int),
        grid_ok(gz as int),
    ensures
        final(line)@.len() == MAP_SIZE,
        forall|i: int|
            0 <= i < MAP_SIZE ==> #[trigger] final(line)@[i] == row_value(seed, step as int, low as int, high as int, x_start + i, gz as int),
{
    line.clear();
    let mut i: usize = 0;
    while i < MAP_SIZE
        invariant
            range_ok(step as int, low as int, high as int),
            coord_ok(x_start as int),
            grid_ok(gz as int),
            i <= MAP_SIZE,
            line@.len() == i,
            forall|j: int|
                0 <= j < i ==> #[trigger] line@[j] == row_value(seed, step as int, low as int, high as int, x_start + j, gz as int),
        decreases MAP_SIZE - i,
    {
        let v = row_value_of(seed, x_start + i as i64, gz, step, low, high);
        line.push(v);
        i += 1;
    }
}

fn row_value_of(seed: u64, wx: i64, gz: i64, step: usize, low: i64, high: i64) -> (r: i64)
    requires
        range_ok(step as int, low as int, high as int),
        grid_ok(wx as int),
        grid_ok(gz as int),
    ensures
        r == row_value(seed, step as int, low as int, high as int, wx as int, gz as int),
        0 <= r <= MAX_VALUE * MAX_STEP,
{
    let gx = div_signed(wx, step);
    let fx = mod_signed(wx, step);
    proof {
        vstd::arithmetic::div_mod::lemma_fundamental_div_mod(wx as int, step as int);
        assert(-2 * WORLD_LIMIT <= gx <= 2 * WORLD_LIMIT) by (nonlinear_arith)
            requires
                wx == step * gx + fx,
                0 <= fx < step,
                1 <= step,
                -2 * WORLD_LIMIT <= wx <= 2 * WORLD_LIMIT,
        ;
    }
    let s0 = grid_sample_of(seed, gx, gz, low, high);
    let s1 = grid_sample_of(seed, gx + 1, gz, low, high);
    let sz = step as i64;
    assert(0 <= s0 * (sz - fx) + s1 * fx <= MAX_VALUE * MAX_STEP) by (nonlinear_arith)
        requires
            0 <= s0 <= MAX_VALUE,
            0 <= s1 <= MAX_VALUE,
            0 <= fx < sz,
            sz <= MAX_STEP,
    ;
    s0 * (sz - fx) + s1 * fx
}

fn noise_value_of(seed: u64, wx: i64, wz: i64, step: usize, low: i64, high: i64) -> (r: i64)
    requires
        range_ok(step as int, low as int, high as int),
        near_ok(wx as int),
        near_ok(wz as int),
    ensures
        r == noise_at(seed, step as int, low as int, high as int, wx as int, wz as int),
        low <= r <= high,
{
    let gz = div_signed(wz, step);
    let fz = mod_signed(wz, step);
    proof {
        reveal(noise_at);
        lemma_grid_index_bound(wz as int, step as int);
        lemma_noise_bounded(seed, step as int, low as int, high as int, wx as int, wz as int);
    }
    let a = row_value_of(seed, wx, gz, step, low, high);
    let b = row_value_of(seed, wx, gz + 1, step, low, high);
    let sz = step as i64;
    proof {
        lemma_interpolation_bound(a as int, b as int, fz as int, sz as int);
    }
    let num = a * (sz - fz) + b * fz;
    let den = sz * sz;
    num / den
}

proof fn lemma_grid_index_bound(wz: int, step: int)
    requires
        1 <= step,
        -WORLD_LIMIT - 16 <= wz <= WORLD_LIMIT + 16,
    ensures
        -WORLD_LIMIT - 16 <= wz / step <= WORLD_LIMIT + 16,
{
    vstd::arithmetic::div_mod::lemma_fundamental_div_mod(wz, step);
    vstd::arithmetic::div_mod::lemma_mod_bound(wz, step);
    let gz = wz / step;
    let fz = wz % step;
    assert(-WORLD_LIMIT - 16 <= gz <= WORLD_LIMIT + 16) by (nonlinear_arith)
        requires
            wz == step * gz + fz,
            0 <= fz < step,
            1 <= step,
            -WORLD_LIMIT - 16 <= wz <= WORLD_LIMIT + 16,
    ;
}

proof fn lemma_interpolation_bound(a: int, b: int, fz: int, sz: int)
    requires
        0 <= a <= MAX_VALUE * MAX_STEP,
        0 <= b <= MAX_VALUE * MAX_STEP,
        0 <= fz < sz,
        sz <= MAX_STEP,
    ensures
        0 <= a * (sz - fz) + b * fz <= MAX_VALUE * MAX_STEP * MAX_STEP,
        0 < sz * sz <= MAX_STEP * MAX_STEP,
{
    assert(0 <= a * (sz - fz) + b * fz <= MAX_VALUE * MAX_STEP * MAX_STEP) by (nonlinear_arith)
        requires
            0 <= a <= MAX_VALUE * MAX_STEP,
            0 <= b <= MAX_VALUE * MAX_STEP,
            0 <= fz < sz,
            sz <= MAX_STEP,
    ;
    assert(0 < sz * sz <= MAX_STEP * MAX_STEP) by (nonlinear_arith)
        requires
            0 < sz <= MAX_STEP,
    ;
}

/// Adds to `data` one layer of noise with grid step `step` and values in
/// `[low, high]`; cell `x * 16 + z` is world column `(x_start + x,
/// z_start + z)`.
pub fn write_perlin_noise(data: &mut Vec<i64>, seed: u64, x_start: i64, z_start: i64, step: usize, low: i64, high: i64)
    requires
        old(data)@.len() == MAP_CELLS,
        forall|i: int| 0 <= i < MAP_CELLS ==> 0 <= #[trigger] old(data)@[i] <= MAP_LIMIT,
        range_ok(step as int, low as int, high as int),
        coord_ok(x_start as int),
        coord_ok(z_start as int),
    ensures
        final(data)@.len() == MAP_CELLS,
        forall|i: int|
            0 <= i < MAP_CELLS ==> #[trigger] final(data)@[i] == old(data)@[i] + noise_at(
                seed,
                step as int,
                low as int,
                high as int,
                x_start + i / 16,
                z_start + i % 16,
            ),
        forall|i: int|
            0 <= i < MAP_CELLS ==> old(data)@[i] <= #[trigger] final(data)@[i] <= old(data)@[i] + high,
{
    let mut idx: usize = 0;
    while idx < MAP_CELLS
        invariant
            range_ok(step as int, low as int, high as int),
            coord_ok(x_start as int),
            coord_ok(z_start as int),
            idx <= MAP_CELLS,
            data@.len() == MAP_CELLS,
            forall|i: int| 0 <= i < MAP_CELLS ==> 0 <= #[trigger] old(data)@[i] <= MAP_LIMIT,
            forall|i: int|
                0 <= i < idx ==> #[trigger] data@[i] == old(data)@[i] + noise_at(
                    seed,
                    step as int,
                    low as int,
                    high as int,
                    x_start + i / 16,
                    z_start + i % 16,
                ),
            forall|i: int|
                0 <= i < idx ==> old(data)@[i] <= #[trigger] data@[i] <= old(data)@[i] + high,
            forall|i: int| idx <= i < MAP_CELLS ==> #[trigger] data@[i] == old(data)@[i],
        decreases MAP_CELLS - idx,
    {
        let wx = x_start + (idx / 16) as i64;
        let wz = z_start + (idx % 16) as i64;
        let value = noise_value_of(seed, wx, wz, step, low, high);
        let cur = data[idx];
        data.set(idx, cur + value);
        idx += 1;
    }
}

/// The noise value lies in the value range.
pub proof fn lemma_noise_bounded(seed: u64, step: int, low: int, high: int, wx: int, wz: int)
    requires
        range_ok(step, low, high),
    ensures
        low <= noise_at(seed, step, low, high, wx, wz) <= high,
{
    reveal(noise_at);
    let fx = wx % step;
    let fz = wz % step;
    vstd::arithmetic::div_mod::lemma_mod_bound(wx, step);
    vstd::arithmetic::div_mod::lemma_mod_bound(wz, step);
    let gx = wx / step;
    let gz = wz / step;
    let s00 = grid_sample(seed, gx, gz, low, high);
    let s10 = grid_sample(seed, gx + 1, gz, low, high);
    let s01 = grid_sample(seed, gx, gz + 1, low, high);
    let s11 = grid_sample(seed, gx + 1, gz + 1, low, high);
    assert forall|a: int, b: int| low <= #[trigger] grid_sample(seed, a, b, low, high) <= high by {
        vstd::arithmetic::div_mod::lemma_mod_bound(grid_random(seed, a, b), high - low + 1);
    }
    let r0 = row_value(seed, step, low, high, wx, gz);
    let r1 = row_value(seed, step, low, high, wx, gz + 1);
    assert(low * step <= r0 <= high * step) by (nonlinear_arith)
        requires
            r0 == s00 * (step - fx) + s10 * fx,
            low <= s00 <= high,
            low <= s10 <= high,
            0 <= fx < step,
    ;
    assert(low * step <= r1 <= high * step) by (nonlinear_arith)
        requires
            r1 == s01 * (step - fx) + s11 * fx,
            low <= s01 <= high,
            low <= s11 <= high,
            0 <= fx < step,
    ;
    let num = r0 * (step - fz) + r1 * fz;
    assert(low * (step * step) <= num <= high * (step * step)) by (nonlinear_arith)
        requires
            num == r0 * (step - fz) + r1 * fz,
            low * step <= r0 <= high * step,
            low * step <= r1 <= high * step,
            0 <= fz < step,
    ;
    assert(step * step > 0) by (nonlinear_arith)
        requires
            step >= 1,
    ;
    vstd::arithmetic::div_mod::lemma_div_is_ordered(low * (step * step), num, step * step);
    vstd::arithmetic::div_mod::lemma_div_is_ordered(num, high * (step * step), step * step);
    vstd::arithmetic::div_mod::lemma_div_by_multiple(low, step * step);
    vstd::arithmetic::div_mod::lemma_div_by_multiple(high, step * step);
}


/// The seed of the next layer of an octave stack.
pub open spec fn next_seed(seed: u64) -> u64 {
    (((seed % NOISE_PRIME) * (seed % NOISE_PRIME) + SEED_STEP) as u64) ^ seed
}

/// The seed of the next layer of an octave stack.
pub fn next_seed_of(seed: u64) -> (r: u64)
    ensures
        r == next_seed(seed),
{
    let a = seed % NOISE_PRIME;
    assert(a * a + SEED_STEP < 0x8000_0000_0000_0000) by (nonlinear_arith)
        requires
            a < 2147483647,
    ;
    (a * a + SEED_STEP) ^ seed
}

/// The layers of an octave stack after the first: each halves the step and
/// the value span of the one before and takes the next seed, down to a
/// step of one.
pub open spec fn octaves_after(seed: u64, step: int, low: int, add: int, wx: int, wz: int) -> int
    decreases step,
{
    if step <= 1 {
        0
    } else {
        let s = next_seed(seed);
        noise_at(s, step / 2, low, low + add / 2, wx, wz) + octaves_after(s, step / 2, low, add / 2, wx, wz)
    }
}

/// The whole octave stack: a base layer over `[low, low + (high - low) / 2
/// + 1]` with step `step`, then the halving layers.
pub open spec fn octaves_at(seed: u64, step: int, low: int, high: int, wx: int, wz: int) -> int {
    let add = (high - low) / 2;
    noise_at(seed, step, low, low + add + 1, wx, wz) + octaves_after(seed, step, low, add, wx, wz)
}

/// Bound on the values of a map that an octave stack is written to.
pub const OCTAVE_INPUT_LIMIT: i64 = 0x8000_0000_0000;

/// Adds to `data` a stack of noise layers (see `octaves_at`).
pub fn write_perlin_noise_oktaves(data: &mut Vec<i64>, seed: u64, x_start: i64, z_start: i64, step: usize, low: i64, high: i64)
    requires
        old(data)@.len() == MAP_CELLS,
        forall|i: int| 0 <= i < MAP_CELLS ==> 0 <= #[trigger] old(data)@[i] <= OCTAVE_INPUT_LIMIT,
        range_ok(step as int, low as int, high as int),
        high < MAX_VALUE,
        coord_ok(x_start as int),
        coord_ok(z_start as int),
    ensures
        final(data)@.len() == MAP_CELLS,
        forall|i: int|
            0 <= i < MAP_CELLS ==> #[trigger] final(data)@[i] == old(data)@[i] + octaves_at(
                seed,
                step as int,
                low as int,
                high as int,
                x_start + i / 16,
                z_start + i % 16,
            ),
{
    let mut add = (high - low) / 2;
    write_perlin_noise(data, seed, x_start, z_start, step, low, low + add + 1);
    let ghost base = data@;
    let ghost add0 = add as int;
    let mut seed_now = seed;
    let mut step_now = step;
    let mut layers: usize = 1;
    while step_now > 1
        invariant
            1 <= step_now <= step,
            range_ok(step as int, low as int, high as int),
            0 <= add <= add0,
            add0 == (high - low) / 2,
            low + add < MAX_VALUE,
            coord_ok(x_start as int),
            coord_ok(z_start as int),
            1 <= layers <= 4097,
            (layers - 1) * step_now <= step,
            data@.len() == MAP_CELLS,
            forall|i: int| 0 <= i < MAP_CELLS ==> 0 <= #[trigger] data@[i] <= old(data)@[i] + layers * MAX_VALUE,
            forall|i: int| 0 <= i < MAP_CELLS ==> 0 <= #[trigger] old(data)@[i] <= OCTAVE_INPUT_LIMIT,
            forall|i: int|
                0 <= i < MAP_CELLS ==> #[trigger] data@[i] + octaves_after(
                    seed_now,
                    step_now as int,
                    low as int,
                    add as int,
                    x_start + i / 16,
                    z_start + i % 16,
                ) == base[i] + octaves_after(seed, step as int, low as int, add0, x_start + i / 16, z_start + i % 16),
            forall|i: int|
                0 <= i < MAP_CELLS ==> #[trigger] base[i] == old(data)@[i] + noise_at(
                    seed,
                    step as int,
                    low as int,
                    low + add0 + 1,
                    x_start + i / 16,
                    z_start + i % 16,
                ),
        decreases step_now,
    {
        let ghost before = data@;
        let ghost prev_seed = seed_now;
        let ghost prev_step = step_now as int;
        let ghost prev_add = add as int;
        seed_now = next_seed_of(seed_now);
        add = add / 2;
        step_now = step_now / 2;
        proof {
            assert(layers * step_now <= step) by (nonlinear_arith)
                requires
                    (layers - 1) * prev_step <= step,
                    2 <= prev_step <= step,
                    step_now * 2 <= prev_step,
            ;
            assert(layers <= 4096) by (nonlinear_arith)
                requires
                    (layers - 1) * prev_step <= step,
                    2 <= prev_step,
                    step <= 4096,
            ;
            assert forall|i: int| 0 <= i < MAP_CELLS implies #[trigger] before[i] <= MAP_LIMIT by {
                assert(before[i] <= old(data)@[i] + layers * MAX_VALUE);
            }
        }
        write_perlin_noise(data, seed_now, x_start, z_start, step_now, low, low + add);
        layers += 1;
    }
}

/// A map holding one layer of noise.
pub fn create_perlin_noise(seed: u64, x_start: i64, z_start: i64, step: usize, low: i64, high: i64) -> (r: Vec<i64>)
    requires
        range_ok(step as int, low as int, high as int),
        coord_ok(x_start as int),
        coord_ok(z_start as int),
    ensures
        r@.len() == MAP_CELLS,
        forall|i: int|
            0 <= i < MAP_CELLS ==> #[trigger] r@[i] == noise_at(seed, step as int, low as int, high as int, x_start + i / 16, z_start + i % 16),
        forall|i: int| 0 <= i < MAP_CELLS ==> 0 <= #[trigger] r@[i] <= high,
{
    let mut data = zero_map();
    write_perlin_noise(&mut data, seed, x_start, z_start, step, low, high);
    data
}

/// A map holding a stack of noise layers (see `octaves_at`).
pub fn create_perlin_noise_oktaves(seed: u64, x_start: i64, z_start: i64, step: usize, low: i64, high: i64) -> (r: Vec<i64>)
    requires
        range_ok(step as int, low as int, high as int),
        high < MAX_VALUE,
        coord_ok(x_start as int),
        coord_ok(z_start as int),
    ensures
        r@.len() == MAP_CELLS,
        forall|i: int|
            0 <= i < MAP_CELLS ==> #[trigger] r@[i] == octaves_at(seed, step as int, low as int, high as int, x_start + i / 16, z_start + i % 16),
{
    let mut data = zero_map();
    write_perlin_noise_oktaves(&mut data, seed, x_start, z_start, step, low, high);
    data
}

/// A map of zeros.
pub fn zero_map() -> (r: Vec<i64>)
    ensures
        r@.len() == MAP_CELLS,
        forall|i: int| 0 <= i < MAP_CELLS ==> #[trigger] r@[i] == 0,
{
    let mut data: Vec<i64> = Vec::new();
    let mut i: usize = 0;
    while i < MAP_CELLS
        invariant
            i <= MAP_CELLS,
            data@.len() == i,
            forall|j: int| 0 <= j < i ==> #[trigger] data@[j] == 0,
        decreases MAP_CELLS - i,
    {
        data.push(0);
        i += 1;
    }
    data
}

} // verus!
