use vstd::prelude::*;

verus! {

use vstd::arithmetic::div_mod::{
    lemma_fundamental_div_mod,
    lemma_mod_division_less_than_divisor,
};

/// Display width in cells.
pub const WIDTH: usize = 64;

/// Display height in cells.
pub const HEIGHT: usize = 32;

/// Cells in the display buffer, stored row-major.
pub const DISPLAY_CELLS: usize = WIDTH * HEIGHT;

/// A sprite is at most fifteen rows of eight bits. The bit count stays
/// under 128, so sprite rows stay under 16 and cannot collide modulo the
/// display height.
pub const MAX_SPRITE_BITS: usize = 128;

/// The display cell, in row-major order, that sprite bit `j` lands on.
/// Bit `j` sits in sprite row `j / 8` at horizontal offset `j % 8`; both
/// screen coordinates wrap around the display edges.
pub open spec fn draw_target(vx: u8, vy: u8, j: int) -> int {
    ((vy + j / 8) % 32) * 64 + ((vx + j % 8) % 64)
}

/// Whether sprite bit `j` is set: sprite rows are read from `address` on,
/// one byte per row, most significant bit leftmost.
pub open spec fn sprite_bit(mem: Seq<u8>, address: u16, j: int) -> bool {
    (mem[address + j / 8] >> ((7 - j % 8) as u8)) & 1 == 1
}

/// Whether one of the first `k` sprite bits is set and lands on `cell`.
pub open spec fn hit_upto(mem: Seq<u8>, address: u16, vx: u8, vy: u8, k: int, cell: int) -> bool {
    exists|j: int|
        0 <= j < k && (#[trigger] draw_target(vx, vy, j)) == cell && sprite_bit(mem, address, j)
}

/// The display after the XOR draw of the `n`-row sprite at `address` with
/// origin (`vx`, `vy`): a cell is toggled exactly when a set sprite bit
/// lands on it. Distinct sprite bits land on distinct cells, so this
/// pointwise description and the bit-by-bit XOR walk agree.
pub open spec fn spec_draw_vram(
    vram: Seq<bool>,
    mem: Seq<u8>,
    address: u16,
    vx: u8,
    vy: u8,
    n: int,
) -> Seq<bool> {
    Seq::new(
        vram.len(),
        |cell: int|
            if hit_upto(mem, address, vx, vy, 8 * n, cell) {
                !vram[cell]
            } else {
                vram[cell]
            },
    )
}

/// Whether the draw collides: some set sprite bit lands on an already-lit
/// cell. The draw stores this flag, as 0 or 1, in register 15.
pub open spec fn spec_draw_collision(
    vram: Seq<bool>,
    mem: Seq<u8>,
    address: u16,
    vx: u8,
    vy: u8,
    n: int,
) -> bool {
    exists|j: int|
        0 <= j < 8 * n && sprite_bit(mem, address, j) && vram[#[trigger] draw_target(vx, vy, j)]
}

/// Every sprite bit lands inside the display buffer.
pub proof fn lemma_draw_target_bounds(vx: u8, vy: u8, j: int)
    requires
        0 <= j,
    ensures
        0 <= draw_target(vx, vy, j) < 2048,
{
    lemma_fundamental_div_mod(j, 8);
    lemma_mod_division_less_than_divisor(j, 8);
    lemma_mod_division_less_than_divisor(vy + j / 8, 32);
    lemma_mod_division_less_than_divisor(vx + j % 8, 64);
    vstd::arithmetic::div_mod::lemma_div_pos_is_pos(j, 8);
}

/// Distinct bits of one sprite land on distinct display cells: sprite rows
/// stay below 16, half the display height, and bit offsets below 8, an
/// eighth of the width, so neither coordinate can wrap onto another bit's.
pub proof fn lemma_draw_target_injective(vx: u8, vy: u8, j1: int, j2: int)
    requires
        0 <= j1 < 128,
        0 <= j2 < 128,
        draw_target(vx, vy, j1) == draw_target(vx, vy, j2),
    ensures
        j1 == j2,
{
    let r1 = j1 / 8;
    let c1 = j1 % 8;
    let r2 = j2 / 8;
    let c2 = j2 % 8;
    lemma_fundamental_div_mod(j1, 8);
    lemma_mod_division_less_than_divisor(j1, 8);
    lemma_fundamental_div_mod(j2, 8);
    lemma_mod_division_less_than_divisor(j2, 8);
    assert(0 <= r1 < 16 && 0 <= r2 < 16);
    let y1 = (vy + r1) % 32;
    let x1 = (vx + c1) % 64;
    let y2 = (vy + r2) % 32;
    let x2 = (vx + c2) % 64;
    lemma_fundamental_div_mod(vy + r1, 32);
    lemma_mod_division_less_than_divisor(vy + r1, 32);
    lemma_fundamental_div_mod(vy + r2, 32);
    lemma_mod_division_less_than_divisor(vy + r2, 32);
    lemma_fundamental_div_mod(vx + c1, 64);
    lemma_mod_division_less_than_divisor(vx + c1, 64);
    lemma_fundamental_div_mod(vx + c2, 64);
    lemma_mod_division_less_than_divisor(vx + c2, 64);
    assert(y1 * 64 + x1 == y2 * 64 + x2);
    assert(y1 == y2 && x1 == x2);
    assert(r1 == r2);
    assert(c1 == c2);
}

/// Drawing a sprite twice at the same origin restores the display exactly:
/// each draw toggles the same set of cells, and toggling twice is the
/// identity.
pub proof fn lemma_draw_twice_restores(
    vram: Seq<bool>,
    mem: Seq<u8>,
    address: u16,
    vx: u8,
    vy: u8,
    n: int,
)
    ensures
        spec_draw_vram(
            spec_draw_vram(vram, mem, address, vx, vy, n),
            mem,
            address,
            vx,
            vy,
            n,
        ) == vram,
{
    let v1 = spec_draw_vram(vram, mem, address, vx, vy, n);
    let v2 = spec_draw_vram(v1, mem, address, vx, vy, n);
    assert(v2 =~= vram);
}

/// The collision flag of the second of two identical draws, exactly: it
/// fires precisely when the first draw turned some cell from dark to lit,
/// that is, when some set sprite bit landed on a dark cell.
pub proof fn lemma_second_draw_collision(
    vram: Seq<bool>,
    mem: Seq<u8>,
    address: u16,
    vx: u8,
    vy: u8,
    n: int,
)
    requires
        vram.len() == 2048,
    ensures
        spec_draw_collision(
            spec_draw_vram(vram, mem, address, vx, vy, n),
            mem,
            address,
            vx,
            vy,
            n,
        ) <==> (exists|j: int|
            0 <= j < 8 * n && sprite_bit(mem, address, j) && !vram[#[trigger] draw_target(
                vx,
                vy,
                j,
            )]),
{
    let v1 = spec_draw_vram(vram, mem, address, vx, vy, n);
    assert forall|j: int|
        0 <= j < 8 * n && sprite_bit(mem, address, j) implies v1[#[trigger] draw_target(
        vx,
        vy,
        j,
    )] == !vram[draw_target(vx, vy, j)] by {
        lemma_draw_target_bounds(vx, vy, j);
        assert(hit_upto(mem, address, vx, vy, 8 * n, draw_target(vx, vy, j)));
    }
}

/// When every set bit of the sprite lands on a lit cell, the second of two
/// identical draws reports no collision: the first draw turned exactly
/// those cells off.
pub proof fn lemma_draw_twice_collision_free(
    vram: Seq<bool>,
    mem: Seq<u8>,
    address: u16,
    vx: u8,
    vy: u8,
    n: int,
)
    requires
        vram.len() == 2048,
        forall|j: int|
            0 <= j < 8 * n && sprite_bit(mem, address, j) ==> vram[#[trigger] draw_target(
                vx,
                vy,
                j,
            )],
    ensures
        !spec_draw_collision(
            spec_draw_vram(vram, mem, address, vx, vy, n),
            mem,
            address,
            vx,
            vy,
            n,
        ),
{
    lemma_second_draw_collision(vram, mem, address, vx, vy, n);
}

/// The RGBA projection of the display: four bytes per cell, row-major,
/// fully opaque, bright white for a lit cell and black for a dark one.
pub open spec fn spec_pixels(vram: Seq<bool>) -> Seq<u8> {
    Seq::new(
        4 * vram.len(),
        |j: int|
            if j % 4 == 3 {
                255u8
            } else if vram[j / 4] {
                255u8
            } else {
                0u8
            },
    )
}

} // verus!
