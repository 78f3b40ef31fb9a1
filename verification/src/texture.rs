//! Texture data as the engine ingests it: raw RGBA8 pixel rectangles.
//!
//! Decoding image files is the caller's business; the engine only sizes,
//! places and uploads pixel rectangles, and falls back to a tiny
//! placeholder wherever a real texture is missing.

use vstd::prelude::*;

verus! {

/// One texture: `width * height` RGBA8 pixels, four bytes each, rows
/// top to bottom.
pub struct TextureData {
    pub pixels: Vec<u8>,
    pub width: u32,
    pub height: u32,
}

/// Largest edge a texture-array layer may have; larger sources are
/// scaled down to fit.
pub const MAX_TEXTURE_SIZE: u32 = 512;

/// Most layers a texture array will carry.
pub const MAX_TEXTURE_LAYERS: usize = 256;

impl TextureData {
    pub fn new(pixels: Vec<u8>, width: u32, height: u32) -> (r: TextureData)
        ensures
            r.pixels@ == pixels@,
            r.width == width,
            r.height == height,
    {
        TextureData { pixels, width, height }
    }

    /// The universal fallback: a 2-by-2 purple/magenta checker, loud on
    /// purpose wherever a real texture is missing.
    pub fn placeholder() -> (r: TextureData)
        ensures
            r.width == 2,
            r.height == 2,
            r.pixels@.len() == 16,
            r.pixels@ == seq![
                128u8, 0u8, 128u8, 255u8,
                255u8, 0u8, 255u8, 255u8,
                255u8, 0u8, 255u8, 255u8,
                128u8, 0u8, 128u8, 255u8,
            ],
    {
        let pixels: Vec<u8> = vec![
            128, 0, 128, 255,
            255, 0, 255, 255,
            255, 0, 255, 255,
            128, 0, 128, 255,
        ];
        proof {
            assert(pixels@ =~= seq![
                128u8, 0u8, 128u8, 255u8,
                255u8, 0u8, 255u8, 255u8,
                255u8, 0u8, 255u8, 255u8,
                128u8, 0u8, 128u8, 255u8,
            ]);
        }
        TextureData { pixels, width: 2, height: 2 }
    }
}

proof fn lemma_mul_mono(a: int, b: int, c: int)
    requires
        a <= b,
        c >= 0,
    ensures
        a * c <= b * c,
{
    assert(a * c <= b * c) by (nonlinear_arith)
        requires
            a <= b,
            c >= 0,
    ;
}

/// The source row a destination row reads from when a texture is
/// placed into a taller layer: its own row while one exists, else the
/// last source row repeated downward.
pub open spec fn spec_source_row(y: int, src_height: int) -> int {
    if y < src_height {
        y
    } else {
        src_height - 1
    }
}

/// One destination row of a packed layer: the source row's bytes
/// followed by zero padding out to the destination pitch.
pub open spec fn spec_layer_row(
    pix: Seq<u8>,
    src_pitch: int,
    dst_pitch: int,
    src_height: int,
    y: int,
) -> Seq<u8> {
    pix.subrange(
        spec_source_row(y, src_height) * src_pitch,
        spec_source_row(y, src_height) * src_pitch + src_pitch,
    ) + Seq::new((dst_pitch - src_pitch) as nat, |i: int| 0u8)
}

/// The first `rows` destination rows of a packed layer, concatenated.
pub open spec fn spec_packed_layer(
    pix: Seq<u8>,
    src_pitch: int,
    dst_pitch: int,
    src_height: int,
    rows: int,
) -> Seq<u8>
    decreases rows
{
    if rows <= 0 {
        Seq::empty()
    } else {
        spec_packed_layer(pix, src_pitch, dst_pitch, src_height, rows - 1) + spec_layer_row(
            pix,
            src_pitch,
            dst_pitch,
            src_height,
            rows - 1,
        )
    }
}

pub proof fn lemma_packed_layer_len(
    pix: Seq<u8>,
    src_pitch: int,
    dst_pitch: int,
    src_height: int,
    rows: int,
)
    requires
        0 <= src_pitch <= dst_pitch,
        rows >= 0,
        src_height >= 1,
        pix.len() >= src_height * src_pitch,
    ensures
        spec_packed_layer(pix, src_pitch, dst_pitch, src_height, rows).len() == rows * dst_pitch,
    decreases rows
{
    if rows > 0 {
        lemma_packed_layer_len(pix, src_pitch, dst_pitch, src_height, rows - 1);
        let sr = spec_source_row(rows - 1, src_height);
        assert((sr + 1) * src_pitch <= src_height * src_pitch) by (nonlinear_arith)
            requires
                sr + 1 <= src_height,
                src_pitch >= 0,
        ;
        assert((sr + 1) * src_pitch == sr * src_pitch + src_pitch) by (nonlinear_arith);
        assert(spec_layer_row(pix, src_pitch, dst_pitch, src_height, rows - 1).len()
            == dst_pitch);
        assert(rows * dst_pitch == (rows - 1) * dst_pitch + dst_pitch) by (nonlinear_arith);
    } else {
        assert(rows * dst_pitch == 0) by (nonlinear_arith)
            requires
                rows == 0,
        ;
    }
}

/// Place a texture into one layer of a texture array whose common
/// extent is at least the texture's own.  Each destination row holds
/// the matching source row's bytes followed by zero padding, and rows
/// below the texture repeat its last row.  Sources that do not fit go
/// through `scale_texture_layer` instead; `resize_texture_layer`
/// dispatches between the two.
pub fn pack_texture_layer(texture: &TextureData, width: u32, height: u32) -> (r: Vec<u8>)
    requires
        1 <= texture.width <= width,
        1 <= texture.height <= height,
        texture.pixels@.len() >= texture.width * texture.height * 4,
        width * height * 4 <= usize::MAX,
    ensures
        r@ == spec_packed_layer(
            texture.pixels@,
            texture.width * 4,
            width * 4,
            texture.height as int,
            height as int,
        ),
        r@.len() == width * height * 4,
{
    proof {
        assert(texture.width * 4 <= width * height * 4) by (nonlinear_arith)
            requires
                texture.width <= width,
                height >= 1,
        ;
        assert(width * 4 <= width * height * 4) by (nonlinear_arith)
            requires
                height >= 1,
        ;
    }
    let src_pitch: usize = (texture.width as usize) * 4;
    let dst_pitch: usize = (width as usize) * 4;
    let ghost sh = texture.height as int;
    let ghost pix = texture.pixels@;
    let pixel_count = texture.pixels.len();
    let mut out: Vec<u8> = Vec::new();
    let mut y: usize = 0;
    while y < height as usize
        invariant
            1 <= texture.width <= width,
            1 <= texture.height <= height,
            pix == texture.pixels@,
            pix.len() >= texture.width * texture.height * 4,
            pix.len() == pixel_count,
            width * height * 4 <= usize::MAX,
            src_pitch == texture.width * 4,
            dst_pitch == width * 4,
            sh == texture.height as int,
            0 <= y <= height,
            out@ == spec_packed_layer(pix, src_pitch as int, dst_pitch as int, sh, y as int),
            out@.len() == y * dst_pitch,
        decreases height - y,
    {
        let sy: usize = if y < texture.height as usize {
            y
        } else {
            (texture.height as usize) - 1
        };
        proof {
            assert(sy == spec_source_row(y as int, sh));
            lemma_mul_mono(sy as int + 1, texture.height as int, src_pitch as int);
            assert(texture.height * src_pitch == texture.width * texture.height * 4)
                by (nonlinear_arith)
                requires
                    src_pitch == texture.width * 4,
            ;
            lemma_mul_mono(y as int + 1, height as int, dst_pitch as int);
            assert(height * dst_pitch == width * height * 4) by (nonlinear_arith)
                requires
                    dst_pitch == width * 4,
            ;
            assert((y + 1) * dst_pitch == y * dst_pitch + dst_pitch) by (nonlinear_arith);
            assert((sy + 1) * src_pitch == sy * src_pitch + src_pitch) by (nonlinear_arith);
        }
        let row_base: usize = sy * src_pitch;
        let ghost row_prefix = out@;
        let mut b: usize = 0;
        while b < src_pitch
            invariant
                0 <= b <= src_pitch,
                pix == texture.pixels@,
                row_base + src_pitch <= pix.len(),
                pix.len() <= usize::MAX,
                row_prefix.len() + dst_pitch <= usize::MAX,
                src_pitch <= dst_pitch,
                out@ == row_prefix + pix.subrange(row_base as int, row_base as int + b as int),
            decreases src_pitch - b,
        {
            out.push(texture.pixels[row_base + b]);
            proof {
                assert(out@ =~= row_prefix + pix.subrange(
                    row_base as int,
                    row_base as int + b as int + 1,
                ));
            }
            b = b + 1;
        }
        let mut p: usize = src_pitch;
        while p < dst_pitch
            invariant
                src_pitch <= p <= dst_pitch,
                pix == texture.pixels@,
                row_base + src_pitch <= pix.len(),
                row_prefix.len() + dst_pitch <= usize::MAX,
                out@ == row_prefix + pix.subrange(row_base as int, row_base as int + src_pitch)
                    + Seq::new((p - src_pitch) as nat, |i: int| 0u8),
            decreases dst_pitch - p,
        {
            out.push(0);
            proof {
                assert(out@ =~= row_prefix + pix.subrange(
                    row_base as int,
                    row_base as int + src_pitch,
                ) + Seq::new((p - src_pitch + 1) as nat, |i: int| 0u8));
            }
            p = p + 1;
        }
        proof {
            assert(out@ =~= row_prefix + spec_layer_row(
                pix,
                src_pitch as int,
                dst_pitch as int,
                sh,
                y as int,
            ));
        }
        y = y + 1;
    }
    proof {
        assert(height * dst_pitch == width * height * 4) by (nonlinear_arith)
            requires
                dst_pitch == width * 4,
        ;
    }
    out
}

/// The source coordinate a scaled destination coordinate samples:
/// nearest-neighbour, `x * src / dst` clamped to the last source index.
pub open spec fn spec_source_coord(x: int, src: int, dst: int) -> int {
    let s = x * src / dst;
    if s <= src - 1 {
        s
    } else {
        src - 1
    }
}

/// The four bytes one scaled destination pixel copies from the source.
pub open spec fn spec_scaled_pixel(
    pix: Seq<u8>,
    src_w: int,
    src_h: int,
    dst_w: int,
    dst_h: int,
    x: int,
    y: int,
) -> Seq<u8> {
    let sx = spec_source_coord(x, src_w, dst_w);
    let sy = spec_source_coord(y, src_h, dst_h);
    pix.subrange((sy * src_w + sx) * 4, (sy * src_w + sx) * 4 + 4)
}

/// The first `cols` pixels of scaled destination row `y`, concatenated.
pub open spec fn spec_scaled_row(
    pix: Seq<u8>,
    src_w: int,
    src_h: int,
    dst_w: int,
    dst_h: int,
    y: int,
    cols: int,
) -> Seq<u8>
    decreases cols
{
    if cols <= 0 {
        Seq::empty()
    } else {
        spec_scaled_row(pix, src_w, src_h, dst_w, dst_h, y, cols - 1) + spec_scaled_pixel(
            pix,
            src_w,
            src_h,
            dst_w,
            dst_h,
            cols - 1,
            y,
        )
    }
}

/// The first `rows` rows of the nearest-neighbour-scaled layer.
pub open spec fn spec_scaled_layer(
    pix: Seq<u8>,
    src_w: int,
    src_h: int,
    dst_w: int,
    dst_h: int,
    rows: int,
) -> Seq<u8>
    decreases rows
{
    if rows <= 0 {
        Seq::empty()
    } else {
        spec_scaled_layer(pix, src_w, src_h, dst_w, dst_h, rows - 1) + spec_scaled_row(
            pix,
            src_w,
            src_h,
            dst_w,
            dst_h,
            rows - 1,
            dst_w,
        )
    }
}

/// Scale a texture to a layer extent by nearest-neighbour sampling:
/// each destination pixel copies the source pixel at the proportional
/// coordinate.  This is the ingestion path for sources larger than the
/// array's common extent (and it handles a mixed case, shrinking one
/// axis while stretching the other).
pub fn scale_texture_layer(texture: &TextureData, width: u32, height: u32) -> (r: Vec<u8>)
    requires
        1 <= texture.width,
        1 <= texture.height,
        1 <= width,
        1 <= height,
        texture.pixels@.len() >= texture.width * texture.height * 4,
        width * height * 4 <= usize::MAX,
    ensures
        r@ == spec_scaled_layer(
            texture.pixels@,
            texture.width as int,
            texture.height as int,
            width as int,
            height as int,
            height as int,
        ),
        r@.len() == width * height * 4,
{
    let ghost pix = texture.pixels@;
    let ghost sw = texture.width as int;
    let ghost sh = texture.height as int;
    let ghost dw = width as int;
    let ghost dh = height as int;
    proof {
        assert(width * 4 <= width * height * 4) by (nonlinear_arith)
            requires
                height >= 1,
        ;
    }
    let dst_pitch: usize = (width as usize) * 4;
    let pixel_count = texture.pixels.len();
    let mut out: Vec<u8> = Vec::new();
    let mut y: usize = 0;
    while y < height as usize
        invariant
            1 <= texture.width,
            1 <= texture.height,
            1 <= width,
            1 <= height,
            pix == texture.pixels@,
            pix.len() >= texture.width * texture.height * 4,
            pix.len() == pixel_count,
            width * height * 4 <= usize::MAX,
            dst_pitch == width * 4,
            sw == texture.width as int,
            sh == texture.height as int,
            dw == width as int,
            dh == height as int,
            0 <= y <= height,
            out@ == spec_scaled_layer(pix, sw, sh, dw, dh, y as int),
            out@.len() == y * dst_pitch,
        decreases height - y,
    {
        proof {
            assert((y as int) * (texture.height as int) < 0x1_0000_0000 * 0x1_0000_0000)
                by (nonlinear_arith)
                requires
                    0 <= y < 0x1_0000_0000,
                    0 <= texture.height < 0x1_0000_0000,
            ;
        }
        let sy64 = (y as u64) * (texture.height as u64) / (height as u64);
        let sy: usize = if sy64 <= (texture.height - 1) as u64 {
            sy64 as usize
        } else {
            (texture.height as usize) - 1
        };
        proof {
            assert(sy == spec_source_coord(y as int, sh, dh));
            assert((y + 1) * dst_pitch <= height * dst_pitch) by (nonlinear_arith)
                requires
                    y + 1 <= height,
                    dst_pitch >= 0,
            ;
            assert(height * dst_pitch == width * height * 4) by (nonlinear_arith)
                requires
                    dst_pitch == width * 4,
            ;
            assert((y + 1) * dst_pitch == y * dst_pitch + dst_pitch) by (nonlinear_arith);
        }
        let ghost row_prefix = out@;
        let mut x: usize = 0;
        while x < width as usize
            invariant
                1 <= texture.width,
                1 <= texture.height,
                1 <= width,
                1 <= height,
                pix == texture.pixels@,
                pix.len() >= texture.width * texture.height * 4,
                pix.len() == pixel_count,
                sw == texture.width as int,
                sh == texture.height as int,
                dw == width as int,
                dh == height as int,
                dst_pitch == width * 4,
                0 <= x <= width,
                sy == spec_source_coord(y as int, sh, dh),
                sy < texture.height,
                row_prefix.len() + dst_pitch <= usize::MAX,
                out@ == row_prefix + spec_scaled_row(pix, sw, sh, dw, dh, y as int, x as int),
                out@.len() == row_prefix.len() + x * 4,
            decreases width - x,
        {
            proof {
                assert((x as int) * (texture.width as int) < 0x1_0000_0000 * 0x1_0000_0000)
                    by (nonlinear_arith)
                    requires
                        0 <= x < 0x1_0000_0000,
                        0 <= texture.width < 0x1_0000_0000,
                ;
            }
            let sx64 = (x as u64) * (texture.width as u64) / (width as u64);
            let sx: usize = if sx64 <= (texture.width - 1) as u64 {
                sx64 as usize
            } else {
                (texture.width as usize) - 1
            };
            proof {
                assert(sx == spec_source_coord(x as int, sw, dw));
                assert(sy * sw + sx + 1 <= sh * sw) by (nonlinear_arith)
                    requires
                        0 <= sx < sw,
                        0 <= sy,
                        sy + 1 <= sh,
                ;
                assert(sh * sw * 4 == texture.width * texture.height * 4) by (nonlinear_arith)
                    requires
                        sw == texture.width as int,
                        sh == texture.height as int,
                ;
                assert((sy * sw + sx) * 4 + 4 <= sh * sw * 4) by (nonlinear_arith)
                    requires
                        sy * sw + sx + 1 <= sh * sw,
                ;
            }
            let base: usize = (sy * (texture.width as usize) + sx) * 4;
            let ghost before_pixel = out@;
            out.push(texture.pixels[base]);
            out.push(texture.pixels[base + 1]);
            out.push(texture.pixels[base + 2]);
            out.push(texture.pixels[base + 3]);
            proof {
                assert(out@ =~= before_pixel + pix.subrange(base as int, base as int + 4));
                assert(out@ =~= row_prefix + spec_scaled_row(
                    pix,
                    sw,
                    sh,
                    dw,
                    dh,
                    y as int,
                    x as int + 1,
                ));
            }
            x = x + 1;
        }
        proof {
            assert(out@ =~= spec_scaled_layer(pix, sw, sh, dw, dh, y as int + 1));
        }
        y = y + 1;
    }
    proof {
        assert(height * dst_pitch == width * height * 4) by (nonlinear_arith)
            requires
                dst_pitch == width * 4,
        ;
    }
    out
}

/// Bring one source texture to the array's common layer extent, as
/// ingestion requires of every layer: copied with zero padding and
/// edge-row repetition when it fits, nearest-neighbour scaled when it
/// does not.
pub fn resize_texture_layer(texture: &TextureData, width: u32, height: u32) -> (r: Vec<u8>)
    requires
        1 <= texture.width,
        1 <= texture.height,
        1 <= width,
        1 <= height,
        texture.pixels@.len() >= texture.width * texture.height * 4,
        width * height * 4 <= usize::MAX,
    ensures
        texture.width <= width && texture.height <= height ==> r@ == spec_packed_layer(
            texture.pixels@,
            texture.width * 4,
            width * 4,
            texture.height as int,
            height as int,
        ),
        !(texture.width <= width && texture.height <= height) ==> r@ == spec_scaled_layer(
            texture.pixels@,
            texture.width as int,
            texture.height as int,
            width as int,
            height as int,
            height as int,
        ),
        r@.len() == width * height * 4,
{
    if texture.width <= width && texture.height <= height {
        pack_texture_layer(texture, width, height)
    } else {
        scale_texture_layer(texture, width, height)
    }
}

/// A layer edge clamped to the array's maximum.
pub open spec fn spec_clamped(x: u32) -> int {
    if x <= MAX_TEXTURE_SIZE {
        x as int
    } else {
        MAX_TEXTURE_SIZE as int
    }
}

/// The common extent every layer of a texture array is resized to
/// before upload: the maximum clamped width and height over all layers
/// (1 by 1 when there are none), and the layer count capped at
/// `MAX_TEXTURE_LAYERS`.
pub fn texture_array_extent(textures: &Vec<TextureData>) -> (r: (u32, u32, u32))
    ensures
        textures@.len() == 0 ==> r.0 == 1 && r.1 == 1,
        forall|i: int|
            0 <= i < textures@.len() ==> r.0 >= spec_clamped(#[trigger] textures@[i].width) && r.1
                >= spec_clamped(textures@[i].height),
        textures@.len() > 0 ==> exists|i: int|
            0 <= i < textures@.len() && r.0 == spec_clamped(#[trigger] textures@[i].width),
        textures@.len() > 0 ==> exists|i: int|
            0 <= i < textures@.len() && r.1 == spec_clamped(#[trigger] textures@[i].height),
        r.2 == if textures@.len() <= MAX_TEXTURE_LAYERS {
            textures@.len() as int
        } else {
            MAX_TEXTURE_LAYERS as int
        },
{
    let mut max_width: u32 = 1;
    let mut max_height: u32 = 1;
    let mut i: usize = 0;
    while i < textures.len()
        invariant
            0 <= i <= textures@.len(),
            i == 0 ==> max_width == 1 && max_height == 1,
            forall|j: int|
                0 <= j < i ==> max_width >= spec_clamped(#[trigger] textures@[j].width)
                    && max_height >= spec_clamped(textures@[j].height),
            i > 0 ==> exists|j: int|
                0 <= j < i && max_width == spec_clamped(#[trigger] textures@[j].width),
            i > 0 ==> exists|j: int|
                0 <= j < i && max_height == spec_clamped(#[trigger] textures@[j].height),
        decreases textures@.len() - i,
    {
        let t = &textures[i];
        let w = if t.width <= MAX_TEXTURE_SIZE {
            t.width
        } else {
            MAX_TEXTURE_SIZE
        };
        let h = if t.height <= MAX_TEXTURE_SIZE {
            t.height
        } else {
            MAX_TEXTURE_SIZE
        };
        if i == 0 || w > max_width {
            max_width = w;
            proof {
                assert(max_width == spec_clamped(textures@[i as int].width));
            }
        }
        if i == 0 || h > max_height {
            max_height = h;
            proof {
                assert(max_height == spec_clamped(textures@[i as int].height));
            }
        }
        proof {
            assert(w == spec_clamped(textures@[i as int].width));
            assert(h == spec_clamped(textures@[i as int].height));
            assert forall|j: int|
                0 <= j < i + 1 implies max_width >= spec_clamped(#[trigger] textures@[j].width)
                && max_height >= spec_clamped(textures@[j].height) by {
                if j < i {
                    assert(max_width >= spec_clamped(textures@[j].width));
                    assert(max_height >= spec_clamped(textures@[j].height));
                } else {
                    assert(max_width >= w);
                    assert(max_height >= h);
                }
            }
        }
        i = i + 1;
    }
    let layer_count = if textures.len() <= MAX_TEXTURE_LAYERS {
        textures.len() as u32
    } else {
        MAX_TEXTURE_LAYERS as u32
    };
    (max_width, max_height, layer_count)
}

} // verus!
