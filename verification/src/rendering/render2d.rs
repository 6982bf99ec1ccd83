use vstd::prelude::*;

verus! {

/// The 16-bit index of the first corner of sprite `i`: `4i`, truncated to 16 bits.
pub open spec fn sprite_base(i: int) -> u16 {
    ((4 * i) % 0x1_0000) as u16
}

/// The index buffer that draws `max_sprites` sprites as quads: sprite `i` is the triangles
/// `(b, b+1, b+2)` and `(b+2, b+3, b)` with `b` its first corner's index.
pub open spec fn sprite_indices(n: nat) -> Seq<u16>
    decreases n,
{
    if n == 0 {
        Seq::empty()
    } else {
        let b = sprite_base(n - 1);
        sprite_indices((n - 1) as nat) + seq![
            b,
            (b + 1) as u16,
            (b + 2) as u16,
            (b + 2) as u16,
            (b + 3) as u16,
            b,
        ]
    }
}

/// Builds the index buffer of the 2D renderer for `max_sprites` sprites.
pub fn sprite_index_buffer(max_sprites: usize) -> (r: Vec<u16>)
    requires
        max_sprites <= usize::MAX / 6,
    ensures
        r@ == sprite_indices(max_sprites as nat),
{
    let mut indices: Vec<u16> = Vec::new();
    let mut i: usize = 0;
    while i < max_sprites
        invariant
            i <= max_sprites,
            max_sprites <= usize::MAX / 6,
            indices@ == sprite_indices(i as nat),
        decreases max_sprites - i,
    {
        let base = (i * 4) as u16;
        proof {
            let w = (i * 4) as usize;
            assert(w as u16 == w % 0x1_0000) by (bit_vector);
            assert(w % 0x1_0000 % 4 == 0) by (nonlinear_arith)
                requires
                    w == i * 4,
            ;
        }
        indices.push(base);
        indices.push(base + 1);
        indices.push(base + 2);
        indices.push(base + 2);
        indices.push(base + 3);
        indices.push(base + 0);
        proof {
            assert(indices@ =~= sprite_indices((i + 1) as nat));
        }
        i += 1;
    }
    indices
}

/// The number of indices that draw the sprites of `num_verts` staged vertices: six per whole
/// group of four vertices.
pub fn sprite_index_count(num_verts: usize) -> (r: u32)
    requires
        num_verts <= u32::MAX,
        (num_verts / 4) * 6 <= u32::MAX,
    ensures
        r == (num_verts / 4) * 6,
{
    (num_verts as u32 / 4) * 6
}

/// The 2D index buffer has six indices per sprite, and while the corners fit in 16 bits
/// (at most 16384 sprites) every index names one of the `4 * max_sprites` corners: sprite `i`'s
/// indices lie in `4i .. 4i + 4`.
pub proof fn law_sprite_indices_in_range(n: nat)
    requires
        n <= 0x4000,
    ensures
        sprite_indices(n).len() == 6 * n,
        forall|i: int| 0 <= i < 6 * n ==> 4 * (i / 6) <= #[trigger] sprite_indices(n)[i] < 4 * (i / 6) + 4,
    decreases n,
{
    if n > 0 {
        law_sprite_indices_in_range((n - 1) as nat);
        let prev = sprite_indices((n - 1) as nat);
        assert(sprite_base(n - 1) == 4 * (n - 1));
        assert forall|i: int| 0 <= i < 6 * n implies 4 * (i / 6) <= #[trigger] sprite_indices(n)[i] < 4
            * (i / 6) + 4 by {
            if i < 6 * (n - 1) {
                assert(sprite_indices(n)[i] == prev[i]);
            } else {
                assert(i / 6 == n - 1);
            }
        }
    }
}

} // verus!
