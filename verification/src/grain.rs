//! A faint grain over large surfaces, the same in every frame.

use vstd::prelude::*;

verus! {

/// One speck of the grain: its cell and its shade of gray.
#[derive(Debug, Clone, Copy, PartialEq, Eq, Structural)]
pub struct Speck {
    pub cx: u32,
    pub cy: u32,
    pub gray: u8,
}

/// The seed for a surface's left edge.
pub open spec fn left_seed(left: i64) -> u32 {
    #[verifier::truncate]
    (left.wrapping_mul(2654435761i64) as u32)
}

/// The seed for a surface's top edge.
pub open spec fn top_seed(top: i64) -> u32 {
    #[verifier::truncate]
    (top.wrapping_mul(40503i64) as u32)
}

/// The number that a cell's noise comes from, by the cell and the seeds of the surface.
pub open spec fn cell_noise(cx: u32, cy: u32, seed_x: u32, seed_y: u32) -> u32 {
    let mixed = cx ^ seed_x ^ (cy ^ seed_y);
    let h = mixed.wrapping_mul(22695477u32);
    (((h << 7u32) | (h >> 25u32)) ^ 0xa3a3_a3a3u32) >> 16u32
}

/// The speck in a cell, where it has one.
pub open spec fn speck_at(cx: u32, cy: u32, seed_x: u32, seed_y: u32) -> Option<Speck> {
    let v = cell_noise(cx, cy, seed_x, seed_y);
    if v & 0xffu32 > 0xc0u32 {
        Some(Speck { cx, cy, gray: (#[verifier::truncate] (((v >> 8u32) & 0xffu32) as u8)) })
    } else {
        None
    }
}

/// The specks of the first `n` cells, row by row, of a surface `w` cells wide.
pub open spec fn specks(w: u32, seed_x: u32, seed_y: u32, n: nat) -> Seq<Speck>
    decreases n,
{
    if n == 0 || w == 0 {
        Seq::empty()
    } else {
        let k = (n - 1) as nat;
        let front = specks(w, seed_x, seed_y, k);
        match speck_at((k % w as nat) as u32, (k / w as nat) as u32, seed_x, seed_y) {
            Some(s) => front.push(s),
            None => front,
        }
    }
}

fn noise(cx: u32, cy: u32, seed_x: u32, seed_y: u32) -> (r: Option<Speck>)
    ensures
        r == speck_at(cx, cy, seed_x, seed_y),
{
    let mixed: u32 = cx ^ seed_x ^ (cy ^ seed_y);
    let h: u32 = mixed.wrapping_mul(22695477);
    let v: u32 = (((h << 7) | (h >> 25)) ^ 0xa3a3_a3a3) >> 16;
    if v & 0xff > 0xc0 {
        Some(Speck { cx, cy, gray: #[verifier::truncate] (((v >> 8) & 0xff) as u8) })
    } else {
        None
    }
}

/// Computes the seeds for a surface at a position.
pub fn grain_seeds(left: i64, top: i64) -> (r: (u32, u32))
    ensures
        r.0 == left_seed(left),
        r.1 == top_seed(top),
{
    let x: i64 = left.wrapping_mul(2654435761);
    let y: i64 = top.wrapping_mul(40503);
    (#[verifier::truncate] (x as u32), #[verifier::truncate] (y as u32))
}

/// Computes the specks of a surface of `w` by `h` cells, row by row. A surface
/// without opacity has none.
pub fn grain(w: u32, h: u32, seed_x: u32, seed_y: u32, alpha: u8) -> (r: Vec<Speck>)
    ensures
        r@ == if alpha == 0 {
            Seq::empty()
        } else {
            specks(w, seed_x, seed_y, (w * h) as nat)
        },
{
    let mut out: Vec<Speck> = Vec::new();
    if alpha == 0 || w == 0 || h == 0 {
        assert(w * h == 0 || alpha == 0) by (nonlinear_arith)
            requires
                w == 0 || h == 0 || alpha == 0,
        ;
        return out;
    }
    let mut cy: u32 = 0;
    while cy < h
        invariant
            w > 0,
            cy <= h,
            out@ == specks(w, seed_x, seed_y, (w * cy) as nat),
        decreases h - cy,
    {
        let mut cx: u32 = 0;
        assert(w * cy + 0 == w * cy);
        while cx < w
            invariant
                w > 0,
                cx <= w,
                cy < h,
                0 <= w * cy,
                out@ == specks(w, seed_x, seed_y, (w * cy + cx) as nat),
            decreases w - cx,
        {
            let ghost k = (w * cy + cx) as nat;
            assert(k % w as nat == cx && k / w as nat == cy) by {
                assert(w * cy == cy * w) by (nonlinear_arith);
                vstd::arithmetic::div_mod::lemma_fundamental_div_mod_converse(
                    k as int,
                    w as int,
                    cy as int,
                    cx as int,
                );
            }
            assert(w * cy + (cx + 1) == k + 1);
            match noise(cx, cy, seed_x, seed_y) {
                Some(s) => {
                    out.push(s);
                },
                None => {},
            }
            cx += 1;
        }
        assert(w * (cy + 1) == w * cy + w) by (nonlinear_arith);
        assert(0 <= w * (cy + 1)) by (nonlinear_arith);
        cy += 1;
    }
    out
}

/// Where a cell has a speck: the low byte of its noise is above 192, and the high byte is
/// the shade.
pub proof fn specks_come_from_noise(cx: u32, cy: u32, seed_x: u32, seed_y: u32)
    ensures
        ({
            let v = cell_noise(cx, cy, seed_x, seed_y);
            &&& v < 65536
            &&& v % 256 > 192 <==> speck_at(cx, cy, seed_x, seed_y) is Some
            &&& speck_at(cx, cy, seed_x, seed_y) matches Some(s) ==> s.cx == cx && s.cy == cy
                && s.gray == v / 256
        }),
{
    let mixed = cx ^ seed_x ^ (cy ^ seed_y);
    let h = mixed.wrapping_mul(22695477u32);
    let v = cell_noise(cx, cy, seed_x, seed_y);
    assert((((h << 7u32) | (h >> 25u32)) ^ 0xa3a3_a3a3u32) >> 16u32 < 65536) by (bit_vector);
    assert(v & 0xffu32 == v % 256) by (bit_vector);
    assert(v < 65536 ==> (v >> 8u32) & 0xffu32 == v / 256) by (bit_vector);
    assert(v < 65536 ==> ((v >> 8u32) & 0xffu32) as u8 == v / 256) by (bit_vector);
}

/// The noise of a cell: the cell and the seeds are mixed into one number, which is
/// multiplied, turned by seven bits, masked, and cut to its upper half. A cell and a seed
/// can change places.
pub proof fn noise_is_mixed(cx: u32, cy: u32, seed_x: u32, seed_y: u32)
    ensures
        cell_noise(cx, cy, seed_x, seed_y) == cell_noise(cy, cx, seed_y, seed_x),
        cell_noise(cx, cy, seed_x, seed_y) == cell_noise(seed_x, cy, cx, seed_y),
        ({
            let mixed = cx ^ cy ^ seed_x ^ seed_y;
            let h = (mixed * 22695477) % 0x1_0000_0000;
            let turned = ((h * 128) % 0x1_0000_0000 + h / 0x200_0000) as u32;
            cell_noise(cx, cy, seed_x, seed_y) == (turned ^ 0xa3a3_a3a3u32) / 65536
        }),
{
    let mixed = cx ^ seed_x ^ (cy ^ seed_y);
    assert(cx ^ seed_x ^ (cy ^ seed_y) == cy ^ seed_y ^ (cx ^ seed_x)) by (bit_vector);
    assert(cx ^ seed_x ^ (cy ^ seed_y) == seed_x ^ cx ^ (cy ^ seed_y)) by (bit_vector);
    assert(cx ^ seed_x ^ (cy ^ seed_y) == cx ^ cy ^ seed_x ^ seed_y) by (bit_vector);
    let h = mixed.wrapping_mul(22695477u32);
    assert(h == (mixed * 22695477) % 0x1_0000_0000);
    assert((h << 7u32) | (h >> 25u32) == (h * 128) % 0x1_0000_0000 + h / 0x200_0000)
        by (bit_vector);
    let turned = (h << 7u32) | (h >> 25u32);
    assert((turned ^ 0xa3a3_a3a3u32) >> 16u32 == (turned ^ 0xa3a3_a3a3u32) / 65536) by (bit_vector);
}

/// Every speck of a surface is that of its cell, within the surface, and every cell that
/// has a speck shows it; the specks come row by row.
pub proof fn specks_are_those_of_the_cells(w: u32, seed_x: u32, seed_y: u32, n: nat)
    requires
        w > 0,
        n <= w * 0x1_0000_0000,
    ensures
        forall|i: int|
            0 <= i < specks(w, seed_x, seed_y, n).len() ==> is_speck_of(
                #[trigger] specks(w, seed_x, seed_y, n)[i],
                w,
                seed_x,
                seed_y,
                n,
            ),
        forall|k: int| 0 <= k < n ==> #[trigger] shows_cell(w, seed_x, seed_y, n, k),
        forall|i: int, j: int|
            0 <= i < j < specks(w, seed_x, seed_y, n).len() ==> place(
                #[trigger] specks(w, seed_x, seed_y, n)[i],
                w,
            ) < place(#[trigger] specks(w, seed_x, seed_y, n)[j], w),
    decreases n,
{
    if n > 0 {
        let m = (n - 1) as nat;
        specks_are_those_of_the_cells(w, seed_x, seed_y, m);
        let r = specks(w, seed_x, seed_y, n);
        let u = specks(w, seed_x, seed_y, m);
        cell_of_number(w, m as int);
        assert forall|i: int| 0 <= i < r.len() implies is_speck_of(
            #[trigger] r[i],
            w,
            seed_x,
            seed_y,
            n,
        ) by {
            if i < u.len() {
                assert(r[i] == u[i]);
                assert(is_speck_of(u[i], w, seed_x, seed_y, m));
            }
        }
        assert forall|k: int| 0 <= k < n implies #[trigger] shows_cell(
            w,
            seed_x,
            seed_y,
            n,
            k,
        ) by {
            match speck_at((k % w as int) as u32, (k / w as int) as u32, seed_x, seed_y) {
                Some(s) => {
                    if k < m {
                        assert(shows_cell(w, seed_x, seed_y, m, k));
                        let i = choose|i: int| 0 <= i < u.len() && u[i] == s;
                        assert(r[i] == s);
                    } else {
                        assert(r[r.len() - 1] == s);
                    }
                },
                None => {},
            }
        }
        assert forall|i: int, j: int| 0 <= i < j < r.len() implies place(#[trigger] r[i], w)
            < place(#[trigger] r[j], w) by {
            assert(r[i] == u[i]);
            assert(is_speck_of(u[i], w, seed_x, seed_y, m));
            if j < u.len() {
                assert(r[j] == u[j]);
            }
        }
    }
}

/// The number of a speck's cell, counted row by row.
pub open spec fn place(s: Speck, w: u32) -> int {
    s.cy * w + s.cx
}

/// A speck is that of one of the first `n` cells.
pub open spec fn is_speck_of(s: Speck, w: u32, seed_x: u32, seed_y: u32, n: nat) -> bool {
    &&& s.cx < w
    &&& place(s, w) < n
    &&& speck_at(s.cx, s.cy, seed_x, seed_y) == Some(s)
}

/// A cell's speck, where it has one, is among those of the first `n` cells.
pub open spec fn shows_cell(w: u32, seed_x: u32, seed_y: u32, n: nat, k: int) -> bool {
    match speck_at((k % w as int) as u32, (k / w as int) as u32, seed_x, seed_y) {
        Some(s) => specks(w, seed_x, seed_y, n).contains(s),
        None => true,
    }
}

proof fn cell_of_number(w: u32, k: int)
    requires
        w > 0,
        0 <= k < w * 0x1_0000_0000,
    ensures
        0 <= k % w as int <= u32::MAX,
        k % (w as int) < w,
        0 <= k / w as int <= u32::MAX,
        (k / w as int) * w + k % w as int == k,
{
    vstd::arithmetic::div_mod::lemma_fundamental_div_mod(k, w as int);
    let q = k / w as int;
    let r = k % w as int;
    assert(0 <= r < w) by (nonlinear_arith)
        requires
            w > 0,
            r == k % w as int,
    ;
    assert(q * w == w * q) by (nonlinear_arith);
    assert(0 <= q < 0x1_0000_0000) by (nonlinear_arith)
        requires
            0 <= k < w * 0x1_0000_0000,
            k == w * q + r,
            0 <= r < w,
            w > 0,
    ;
}

proof fn low_half(x: i64, a: int)
    requires
        x == {
            let m = a % 0x1_0000_0000_0000_0000;
            if m > i64::MAX {
                m - 0x1_0000_0000_0000_0000
            } else {
                m
            }
        },
    ensures
        x % 0x1_0000_0000i64 == a % 0x1_0000_0000,
{
}

proof fn cut_to_half(x: i64)
    ensures
        (#[verifier::truncate] (x as u32)) == x % 0x1_0000_0000i64,
{
    assert(x as u32 == x % 0x1_0000_0000i64) by (bit_vector);
}

/// The seeds are the position times a large number each, in thirty-two bits.
pub proof fn seeds_come_from_the_position(left: i64, top: i64)
    ensures
        left_seed(left) == (left * 2654435761) % 0x1_0000_0000,
        top_seed(top) == (top * 40503) % 0x1_0000_0000,
{
    let x = left.wrapping_mul(2654435761i64);
    let y = top.wrapping_mul(40503i64);
    cut_to_half(x);
    cut_to_half(y);
    low_half(x, left * 2654435761);
    low_half(y, top * 40503);
}

} // verus!
