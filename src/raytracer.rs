//! Scene configuration, per-ray hit selection, flat shading and the RGBA8
//! image buffer that a render produces.
use vstd::prelude::*;

verus! {

/// Scene file read when none is given.
pub const DEFAULT_FILENAME: &'static str = "scene.obj";

/// The scene file that a render reads: the one given, else the default.
pub open spec fn config_filename(option: Option<Seq<char>>) -> Seq<char> {
    match option {
        Some(f) => f,
        None => DEFAULT_FILENAME@,
    }
}

/// Picks the scene file to read from what the user supplied.
pub fn process_config(option: Option<&str>) -> (r: &str)
    ensures
        r@ == config_filename(
            match option {
                Some(f) => Some(f@),
                None => None,
            },
        ),
{
    match option {
        Some(filename) => filename,
        None => DEFAULT_FILENAME,
    }
}

/// A sphere's flat surface colour, one byte per channel.
#[derive(Clone, Copy, Debug, PartialEq, Eq, Structural)]
pub struct Color {
    pub r: u8,
    pub g: u8,
    pub b: u8,
}

/// One output pixel: red, green, blue and alpha, one byte each.
#[derive(Clone, Copy, Debug, PartialEq, Eq, Structural)]
pub struct Rgba8 {
    pub r: u8,
    pub g: u8,
    pub b: u8,
    pub a: u8,
}

/// Channel value of the white background, seen where a ray strikes nothing.
pub const WHITE: u8 = 255;

/// Fully opaque alpha.
pub const OPAQUE: u8 = 255;

/// `r` is the sphere a ray is taken to hit, given which spheres of the scene
/// lie at a distance in range along it: the last such sphere in scene order,
/// or none when no sphere does.
pub open spec fn is_last_hit(in_range: Seq<bool>, r: Option<usize>) -> bool {
    match r {
        Some(i) => i < in_range.len() && in_range[i as int] && forall|j: int|
            i < j < in_range.len() ==> !in_range[j],
        None => forall|j: int| 0 <= j < in_range.len() ==> !in_range[j],
    }
}

/// Chooses the sphere that a ray hits: the last one in scene order whose
/// distance along the ray is in range (not the nearest).
pub fn select_hit(in_range: &Vec<bool>) -> (r: Option<usize>)
    ensures
        is_last_hit(in_range@, r),
{
    let mut id: Option<usize> = None;
    let n = in_range.len();
    let mut i: usize = 0;
    while i < n
        invariant
            n == in_range@.len(),
            i <= n,
            is_last_hit(in_range@.take(i as int), id),
        decreases n - i,
    {
        if in_range[i] {
            id = Some(i);
        }
        i = i + 1;
    }
    assert(in_range@.take(n as int) =~= in_range@);
    id
}

/// A hit refers to a sphere of a scene with `n` spheres.
pub open spec fn hit_in_scene(hit: Option<usize>, n: nat) -> bool {
    match hit {
        Some(i) => i < n,
        None => true,
    }
}

/// The pixel for a ray: the hit sphere's colour, else the background, always
/// opaque.
pub open spec fn shade_spec(hit: Option<usize>, colors: Seq<Color>) -> Rgba8 {
    let c = match hit {
        Some(i) => colors[i as int],
        None => Color { r: WHITE, g: WHITE, b: WHITE },
    };
    Rgba8 { r: c.r, g: c.g, b: c.b, a: OPAQUE }
}

/// Colours a pixel from the sphere its ray hits, if any.
pub fn shade(hit: Option<usize>, colors: &Vec<Color>) -> (r: Rgba8)
    requires
        hit_in_scene(hit, colors@.len()),
    ensures
        r == shade_spec(hit, colors@),
{
    let c = match hit {
        Some(i) => colors[i],
        None => Color { r: WHITE, g: WHITE, b: WHITE },
    };
    Rgba8 { r: c.r, g: c.g, b: c.b, a: OPAQUE }
}

/// The four bytes of a pixel in RGBA order.
pub open spec fn pixel_bytes(p: Rgba8) -> Seq<u8> {
    seq![p.r, p.g, p.b, p.a]
}

/// Byte offset of pixel `(x, y)` in a row-major RGBA8 image `width` pixels wide.
pub open spec fn pixel_offset(x: int, y: int, width: int) -> int {
    (y * width + x) * 4
}

/// Byte `k` of the image whose pixels, in row-major order, have the given
/// hits: byte `k % 4` of pixel `k / 4`.
pub open spec fn image_byte(hits: Seq<Option<usize>>, colors: Seq<Color>, k: int) -> u8 {
    pixel_bytes(shade_spec(hits[k / 4], colors))[k % 4]
}

/// The RGBA8 image that a render produces from the hit of each pixel's ray:
/// pixel `p` fills bytes `4p` to `4p + 3`.
pub open spec fn image_spec(hits: Seq<Option<usize>>, colors: Seq<Color>) -> Seq<u8> {
    Seq::new(4 * hits.len(), |k: int| image_byte(hits, colors, k))
}

/// Every hit refers to a sphere of the scene.
pub open spec fn hits_in_scene(hits: Seq<Option<usize>>, n: nat) -> bool {
    forall|p: int| 0 <= p < hits.len() ==> #[trigger] hit_in_scene(hits[p], n)
}

/// Builds the `width` by `height` RGBA8 image, rows top to bottom, from the
/// hit of each pixel's ray in the same order.
pub fn render_image(width: u32, height: u32, hits: &Vec<Option<usize>>, colors: &Vec<Color>) -> (r:
    Vec<u8>)
    requires
        hits@.len() == width * height,
        width * height * 4 <= usize::MAX,
        hits_in_scene(hits@, colors@.len()),
    ensures
        r@ == image_spec(hits@, colors@),
        r@.len() == width * height * 4,
{
    let n = hits.len();
    let mut out: Vec<u8> = Vec::with_capacity(n * 4);
    let mut p: usize = 0;
    while p < n
        invariant
            n == hits@.len(),
            n * 4 <= usize::MAX,
            p <= n,
            hits_in_scene(hits@, colors@.len()),
            out@.len() == 4 * p,
            forall|k: int| 0 <= k < 4 * p ==> out@[k] == image_byte(hits@, colors@, k),
        decreases n - p,
    {
        assert(hit_in_scene(hits@[p as int], colors@.len()));
        let px = shade(hits[p], colors);
        out.push(px.r);
        out.push(px.g);
        out.push(px.b);
        out.push(px.a);
        proof {
            assert forall|k: int| 4 * p <= k < 4 * p + 4 implies out@[k] == image_byte(
                hits@,
                colors@,
                k,
            ) by {
                assert(k / 4 == p && k % 4 == k - 4 * p) by (nonlinear_arith)
                    requires
                        4 * p <= k < 4 * p + 4,
                ;
            }
        }
        p = p + 1;
    }
    assert(out@ =~= image_spec(hits@, colors@));
    out
}

/// Of two spheres that both lie in range along one ray, the earlier in scene
/// order is never the one hit: the hit is the later one or one after it.
pub proof fn lemma_later_sphere_wins(in_range: Seq<bool>, i: int, j: int, r: Option<usize>)
    requires
        0 <= i < j < in_range.len(),
        in_range[i],
        in_range[j],
        is_last_hit(in_range, r),
    ensures
        r matches Some(k) && j <= k,
{
}

/// Which sphere a ray hits is determined by which spheres lie in range along it.
pub proof fn lemma_last_hit_unique(in_range: Seq<bool>, r1: Option<usize>, r2: Option<usize>)
    requires
        is_last_hit(in_range, r1),
        is_last_hit(in_range, r2),
    ensures
        r1 == r2,
{
    match (r1, r2) {
        (Some(a), Some(b)) => {
            if a < b {
                assert(!in_range[b as int]);
            } else if b < a {
                assert(!in_range[a as int]);
            }
        },
        (Some(a), None) => {
            assert(!in_range[a as int]);
        },
        (None, Some(b)) => {
            assert(!in_range[b as int]);
        },
        (None, None) => {},
    }
}

/// Rendering a fixed scene twice gives the same image: when the spheres in range
/// along each pixel's ray are the same, the chosen hits and so every byte agree.
pub proof fn lemma_render_idempotent(
    rows: Seq<Seq<bool>>,
    colors: Seq<Color>,
    hits1: Seq<Option<usize>>,
    hits2: Seq<Option<usize>>,
)
    requires
        hits1.len() == rows.len(),
        hits2.len() == rows.len(),
        forall|p: int| 0 <= p < rows.len() ==> is_last_hit(rows[p], #[trigger] hits1[p]),
        forall|p: int| 0 <= p < rows.len() ==> is_last_hit(rows[p], #[trigger] hits2[p]),
    ensures
        image_spec(hits1, colors) == image_spec(hits2, colors),
{
    assert forall|p: int| 0 <= p < rows.len() implies hits1[p] == hits2[p] by {
        lemma_last_hit_unique(rows[p], hits1[p], hits2[p]);
    }
    assert(hits1 =~= hits2);
}

/// A `width` by `height` image holds `width * height * 4` bytes, and pixel
/// `(x, y)` holds exactly the four bytes at `pixel_offset(x, y, width)`, shaded
/// from that pixel's own hit.
pub proof fn lemma_pixel_layout(
    width: nat,
    height: nat,
    hits: Seq<Option<usize>>,
    colors: Seq<Color>,
    x: nat,
    y: nat,
)
    requires
        hits.len() == width * height,
        x < width,
        y < height,
    ensures
        image_spec(hits, colors).len() == width * height * 4,
        0 <= y * width + x < hits.len(),
        image_spec(hits, colors).subrange(
            pixel_offset(x as int, y as int, width as int),
            pixel_offset(x as int, y as int, width as int) + 4,
        ) == pixel_bytes(shade_spec(hits[(y * width + x) as int], colors)),
{
    let p = y * width + x;
    assert(0 <= p < width * height) by (nonlinear_arith)
        requires
            x < width,
            y < height,
            p == y * width + x,
    ;
    assert(width * height * 4 == 4 * (width * height)) by (nonlinear_arith);
    let img = image_spec(hits, colors);
    assert forall|j: int| 0 <= j < 4 implies img[4 * p + j] == pixel_bytes(
        shade_spec(hits[p as int], colors),
    )[j] by {
        assert((4 * p + j) / 4 == p && (4 * p + j) % 4 == j) by (nonlinear_arith)
            requires
                0 <= j < 4,
                p >= 0,
        ;
    }
    assert(img.subrange(4 * p as int, 4 * p as int + 4) =~= pixel_bytes(shade_spec(hits[p as int], colors)));
}

/// Every pixel of a rendered image is fully opaque.
pub proof fn lemma_image_opaque(hits: Seq<Option<usize>>, colors: Seq<Color>)
    ensures
        image_spec(hits, colors).len() == 4 * hits.len(),
        forall|p: int|
            0 <= p < hits.len() ==> #[trigger] image_spec(hits, colors)[4 * p + 3] == OPAQUE,
{
    assert forall|p: int| 0 <= p < hits.len() implies #[trigger] image_spec(hits, colors)[4 * p
        + 3] == OPAQUE by {
        assert((4 * p + 3) / 4 == p && (4 * p + 3) % 4 == 3) by (nonlinear_arith)
            requires
                p >= 0,
        ;
    }
}

/// With no spheres in the scene no ray hits anything, and every byte of the
/// image is 255: white, fully opaque.
pub proof fn lemma_empty_scene_white(rows: Seq<Seq<bool>>, hits: Seq<Option<usize>>, colors: Seq<Color>)
    requires
        colors.len() == 0,
        hits.len() == rows.len(),
        forall|p: int| 0 <= p < rows.len() ==> (#[trigger] rows[p]).len() == colors.len(),
        forall|p: int| 0 <= p < rows.len() ==> is_last_hit(rows[p], #[trigger] hits[p]),
    ensures
        image_spec(hits, colors).len() == 4 * rows.len(),
        forall|k: int| 0 <= k < image_spec(hits, colors).len() ==> #[trigger] image_spec(hits, colors)[k] == 255,
{
    assert forall|k: int| 0 <= k < image_spec(hits, colors).len() implies #[trigger] image_spec(
        hits,
        colors,
    )[k] == 255 by {
        let p = k / 4;
        assert(0 <= p < hits.len() && 0 <= k % 4 < 4) by (nonlinear_arith)
            requires
                0 <= k < 4 * hits.len(),
                p == k / 4,
        ;
        assert(is_last_hit(rows[p], hits[p]));
        assert(hits[p] is None);
    }
}

} // verus!
