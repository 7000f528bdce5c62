use vstd::prelude::*;

verus! {

/// Whether bit `bit` (counted from the most significant, so bit 0 is
/// the leftmost pixel) of a sprite row byte is set.
pub open spec fn sprite_bit(b: u8, bit: int) -> bool
    recommends
        0 <= bit < 8,
{
    (b >> ((7 - bit) as u8)) & 1 == 1
}

/// Whether screen cell (px, py) receives a pixel of an `n`-row sprite
/// drawn at (vx, vy): the cell lies in the sprite's 8-wide window and
/// inside the 64x32 screen.  Cells at or past the screen boundary are
/// clipped, never wrapped.
pub open spec fn in_sprite(vx: int, vy: int, n: int, px: int, py: int) -> bool {
    &&& vx <= px < vx + 8
    &&& px < 64
    &&& vy <= py < vy + n
    &&& py < 32
}

/// Whether screen cell (px, py) receives a pixel of the part of a
/// sprite drawn so far: the first `rows` whole rows, plus the first
/// `bits` pixels of row `rows`.
pub open spec fn in_sprite_prefix(
    vx: int,
    vy: int,
    rows: int,
    bits: int,
    px: int,
    py: int,
) -> bool {
    &&& vx <= px < vx + 8
    &&& px < 64
    &&& vy <= py
    &&& py < 32
    &&& (py < vy + rows || (py == vy + rows && px < vx + bits))
}

/// Whether the sprite pixel aimed at screen cell (px, py) is set and
/// lands on an already-set framebuffer cell.
pub open spec fn collides_at(
    gfx: Seq<bool>,
    mem: Seq<u8>,
    i: int,
    vx: int,
    vy: int,
    px: int,
    py: int,
) -> bool {
    &&& sprite_bit(mem[i + (py - vy)], px - vx)
    &&& gfx[py * 64 + px]
}

/// The framebuffer after XOR-drawing the `n`-row sprite stored at
/// `mem[i..i+n]` at coordinates (vx, vy): every covered cell whose
/// sprite bit is set is toggled, every other cell is untouched.
pub open spec fn draw_gfx(
    gfx: Seq<bool>,
    mem: Seq<u8>,
    i: int,
    vx: int,
    vy: int,
    n: int,
) -> Seq<bool> {
    Seq::new(
        gfx.len(),
        |idx: int|
            {
                let px = idx % 64;
                let py = idx / 64;
                if in_sprite(vx, vy, n, px, py) && sprite_bit(mem[i + (py - vy)], px - vx) {
                    !gfx[idx]
                } else {
                    gfx[idx]
                }
            },
    )
}

/// Whether drawing the sprite toggles at least one already-set cell.
pub open spec fn draw_collision(
    gfx: Seq<bool>,
    mem: Seq<u8>,
    i: int,
    vx: int,
    vy: int,
    n: int,
) -> bool {
    exists|px: int, py: int|
        in_sprite(vx, vy, n, px, py) && collides_at(gfx, mem, i, vx, vy, px, py)
}

/// Whether the prefix of the sprite drawn so far toggles at least one
/// already-set cell.
pub open spec fn draw_collision_prefix(
    gfx: Seq<bool>,
    mem: Seq<u8>,
    i: int,
    vx: int,
    vy: int,
    rows: int,
    bits: int,
) -> bool {
    exists|px: int, py: int|
        in_sprite_prefix(vx, vy, rows, bits, px, py) && collides_at(gfx, mem, i, vx, vy, px, py)
}

/// The value of cell (px, py) after the prefix of the sprite
/// described by `in_sprite_prefix` has been drawn.
pub open spec fn drawn_pixel_prefix(
    gfx: Seq<bool>,
    mem: Seq<u8>,
    i: int,
    vx: int,
    vy: int,
    rows: int,
    bits: int,
    px: int,
    py: int,
) -> bool {
    if in_sprite_prefix(vx, vy, rows, bits, px, py) && sprite_bit(mem[i + (py - vy)], px - vx) {
        !gfx[py * 64 + px]
    } else {
        gfx[py * 64 + px]
    }
}

/// Two sprite prefixes covering the same cells report the same
/// collision.
pub proof fn lemma_collision_prefix_same_region(
    gfx: Seq<bool>,
    mem: Seq<u8>,
    i: int,
    vx: int,
    vy: int,
    r1: int,
    b1: int,
    r2: int,
    b2: int,
)
    requires
        forall|a: int, b: int|
            in_sprite_prefix(vx, vy, r1, b1, a, b) == in_sprite_prefix(vx, vy, r2, b2, a, b),
    ensures
        draw_collision_prefix(gfx, mem, i, vx, vy, r1, b1) == draw_collision_prefix(
            gfx,
            mem,
            i,
            vx,
            vy,
            r2,
            b2,
        ),
{
    if draw_collision_prefix(gfx, mem, i, vx, vy, r1, b1) {
        let (a, b) = choose|a: int, b: int|
            in_sprite_prefix(vx, vy, r1, b1, a, b) && collides_at(gfx, mem, i, vx, vy, a, b);
        assert(in_sprite_prefix(vx, vy, r2, b2, a, b) && collides_at(gfx, mem, i, vx, vy, a, b));
    }
    if draw_collision_prefix(gfx, mem, i, vx, vy, r2, b2) {
        let (a, b) = choose|a: int, b: int|
            in_sprite_prefix(vx, vy, r2, b2, a, b) && collides_at(gfx, mem, i, vx, vy, a, b);
        assert(in_sprite_prefix(vx, vy, r1, b1, a, b) && collides_at(gfx, mem, i, vx, vy, a, b));
    }
}

/// A whole sprite's collision is its full prefix's collision.
pub proof fn lemma_collision_prefix_full(
    gfx: Seq<bool>,
    mem: Seq<u8>,
    i: int,
    vx: int,
    vy: int,
    n: int,
)
    ensures
        draw_collision_prefix(gfx, mem, i, vx, vy, n, 0) == draw_collision(gfx, mem, i, vx, vy, n),
{
    if draw_collision_prefix(gfx, mem, i, vx, vy, n, 0) {
        let (a, b) = choose|a: int, b: int|
            in_sprite_prefix(vx, vy, n, 0, a, b) && collides_at(gfx, mem, i, vx, vy, a, b);
        assert(in_sprite(vx, vy, n, a, b) && collides_at(gfx, mem, i, vx, vy, a, b));
    }
    if draw_collision(gfx, mem, i, vx, vy, n) {
        let (a, b) = choose|a: int, b: int|
            in_sprite(vx, vy, n, a, b) && collides_at(gfx, mem, i, vx, vy, a, b);
        assert(in_sprite_prefix(vx, vy, n, 0, a, b) && collides_at(gfx, mem, i, vx, vy, a, b));
    }
}

/// Extending a prefix by one unclipped pixel either keeps its
/// collision or adds exactly that pixel's overlap.
pub proof fn lemma_collision_prefix_add_pixel(
    gfx: Seq<bool>,
    mem: Seq<u8>,
    i: int,
    vx: int,
    vy: int,
    rows: int,
    bits: int,
)
    requires
        0 <= bits < 8,
        0 <= rows,
        0 <= vx,
        0 <= vy,
        vx + bits < 64,
        vy + rows < 32,
    ensures
        draw_collision_prefix(gfx, mem, i, vx, vy, rows, bits + 1) == (draw_collision_prefix(
            gfx,
            mem,
            i,
            vx,
            vy,
            rows,
            bits,
        ) || (sprite_bit(mem[i + rows], bits) && gfx[(vy + rows) * 64 + (vx + bits)])),
{
    let px0 = vx + bits;
    let py0 = vy + rows;
    if draw_collision_prefix(gfx, mem, i, vx, vy, rows, bits) {
        let (a, b) = choose|a: int, b: int|
            in_sprite_prefix(vx, vy, rows, bits, a, b) && collides_at(gfx, mem, i, vx, vy, a, b);
        assert(in_sprite_prefix(vx, vy, rows, bits + 1, a, b) && collides_at(
            gfx,
            mem,
            i,
            vx,
            vy,
            a,
            b,
        ));
    }
    if sprite_bit(mem[i + rows], bits) && gfx[py0 * 64 + px0] {
        assert(in_sprite_prefix(vx, vy, rows, bits + 1, px0, py0) && collides_at(
            gfx,
            mem,
            i,
            vx,
            vy,
            px0,
            py0,
        ));
    }
    if draw_collision_prefix(gfx, mem, i, vx, vy, rows, bits + 1) {
        let (a, b) = choose|a: int, b: int|
            in_sprite_prefix(vx, vy, rows, bits + 1, a, b) && collides_at(gfx, mem, i, vx, vy, a, b);
        if a == px0 && b == py0 {
            assert(sprite_bit(mem[i + rows], bits) && gfx[py0 * 64 + px0]);
        } else {
            assert(in_sprite_prefix(vx, vy, rows, bits, a, b) && collides_at(
                gfx,
                mem,
                i,
                vx,
                vy,
                a,
                b,
            ));
        }
    }
}

/// Sprite drawing is an involution: drawing the same sprite at the
/// same coordinates twice in succession restores the framebuffer to
/// its original contents.
pub proof fn lemma_draw_twice(gfx: Seq<bool>, mem: Seq<u8>, i: int, vx: int, vy: int, n: int)
    ensures
        draw_gfx(draw_gfx(gfx, mem, i, vx, vy, n), mem, i, vx, vy, n) == gfx,
{
    let g1 = draw_gfx(gfx, mem, i, vx, vy, n);
    let g2 = draw_gfx(g1, mem, i, vx, vy, n);
    assert(g2 =~= gfx);
}

/// Drawing any sprite over an all-unset framebuffer reports no
/// collision.
pub proof fn lemma_draw_clear_no_collision(
    gfx: Seq<bool>,
    mem: Seq<u8>,
    i: int,
    vx: int,
    vy: int,
    n: int,
)
    requires
        gfx.len() == 2048,
        0 <= vx,
        0 <= vy,
        forall|idx: int| 0 <= idx < gfx.len() ==> !gfx[idx],
    ensures
        !draw_collision(gfx, mem, i, vx, vy, n),
{
    assert forall|px: int, py: int| in_sprite(vx, vy, n, px, py) implies !collides_at(
        gfx,
        mem,
        i,
        vx,
        vy,
        px,
        py,
    ) by {
        assert(0 <= py * 64 + px < 2048) by (nonlinear_arith)
            requires
                0 <= px < 64,
                0 <= py < 32,
        ;
        assert(!gfx[py * 64 + px]);
    }
}

/// Drawing a sprite one of whose set bits lands on an already-set
/// cell reports a collision.
pub proof fn lemma_draw_overlap_collision(
    gfx: Seq<bool>,
    mem: Seq<u8>,
    i: int,
    vx: int,
    vy: int,
    n: int,
    px: int,
    py: int,
)
    requires
        in_sprite(vx, vy, n, px, py),
        collides_at(gfx, mem, i, vx, vy, px, py),
    ensures
        draw_collision(gfx, mem, i, vx, vy, n),
{
}

} // verus!
