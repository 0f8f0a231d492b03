use crate::monos_gfx::draw::image_drawn;
use crate::monos_gfx::framebuffer::Framebuffer;
use crate::monos_gfx::image::{Image, ImageFormat};
use crate::monos_gfx::types::{Color, Position};
use rand::rngs::SmallRng;
use rand::seq::IteratorRandom;
use rand::SeedableRng;
use vstd::prelude::*;

verus! {

/// The seed of one paint splash; each splash takes the next.
#[derive(Debug, Clone, Copy, PartialEq, Eq, Structural)]
pub struct SplatSeed(pub u64);

/// The seed the first splash gets.
pub const FIRST_SPLAT_SEED: u64 = 100;

impl SplatSeed {
    /// Gives the current seed and moves on to the next one, wrapping around.
    pub fn next(&mut self) -> (r: SplatSeed)
        ensures
            r == *old(self),
            final(self).0 == (if old(self).0 == u64::MAX {
                0
            } else {
                old(self).0 + 1
            }),
    {
        let seed = self.0;
        self.0 = seed.wrapping_add(1);
        SplatSeed(seed)
    }
}

/// rand's small, fast generator.
#[verifier::external_type_specification]
#[verifier::external_body]
pub struct ExSmallRng(SmallRng);

/// `SeedableRng::seed_from_u64` for `SmallRng`: a generator seeded by `seed`. Its state is
/// not modelled.
#[verifier::external_body]
fn seeded_rng(seed: u64) -> (r: SmallRng) {
    SmallRng::seed_from_u64(seed)
}

/// `IteratorRandom::choose` on the range `0..len`: for a range it picks the index
/// `gen_index(rng, len)`, the same one `SliceRandom::choose_mut` picks on a slice of `len`
/// items; nothing for an empty range. Which index comes out depends on the generator's
/// algorithm, which rand leaves to the platform, so only that it is one of the indices is
/// stated.
#[verifier::external_body]
fn choose_index(rng: &mut SmallRng, len: usize) -> (r: Option<usize>)
    ensures
        match r {
            Some(i) => i < len,
            None => len == 0,
        },
{
    (0..len).choose(rng)
}

/// A bitmap splash takes `color` for its set pixels; an RGB image stays as it is.
pub open spec fn recolored(img: Image, color: Color) -> Image {
    match img.data {
        ImageFormat::Bitmap { data, .. } => Image {
            dimensions: img.dimensions,
            data: ImageFormat::Bitmap { data, color },
        },
        ImageFormat::RGB { .. } => img,
    }
}

/// A framebuffer that paint splashes land on: the splash images and the next seed.
pub struct PaintFramebuffer {
    pub fb: Framebuffer,
    pub splashes: Vec<Image>,
    pub seed: SplatSeed,
}

impl PaintFramebuffer {
    /// Paints on `fb` with the given splash images, starting from the first seed.
    pub fn new(fb: Framebuffer, splashes: Vec<Image>) -> (r: PaintFramebuffer)
        ensures
            r.fb == fb,
            r.splashes@ == splashes@,
            r.seed.0 == FIRST_SPLAT_SEED,
    {
        PaintFramebuffer { fb, splashes, seed: SplatSeed(FIRST_SPLAT_SEED) }
    }

    /// The framebuffer painted on.
    pub fn framebuffer(&self) -> (r: &Framebuffer)
        ensures
            *r == self.fb,
    {
        &self.fb
    }

    /// Lands a splash with the next seed and gives that seed.
    pub fn splat(&mut self, position: Position, color: Color) -> (r: SplatSeed)
        requires
            old(self).fb.wf(),
            old(self).splashes@.len() > 0,
        ensures
            r == old(self).seed,
            final(self).seed.0 == (if old(self).seed.0 == u64::MAX {
                0
            } else {
                old(self).seed.0 + 1
            }),
            exists|i: int|
                0 <= i < old(self).splashes@.len() && final(self).splashes@ == old(
                    self,
                ).splashes@.update(i, recolored(old(self).splashes@[i], color))
                    && final(self).fb.buffer@ == image_drawn(
                    old(self).fb,
                    recolored(old(self).splashes@[i], color),
                    position,
                ),
            final(self).fb.dimensions == old(self).fb.dimensions,
            final(self).fb.format == old(self).fb.format,
    {
        let seed = self.seed.next();
        self.splat_seeded(position, color, seed);
        seed
    }

    /// Lands the splash that `seed` picks: it takes `color` and is drawn at `position`.
    pub fn splat_seeded(&mut self, position: Position, color: Color, seed: SplatSeed)
        requires
            old(self).fb.wf(),
            old(self).splashes@.len() > 0,
        ensures
            final(self).seed == old(self).seed,
            exists|i: int|
                0 <= i < old(self).splashes@.len() && final(self).splashes@ == old(
                    self,
                ).splashes@.update(i, recolored(old(self).splashes@[i], color))
                    && final(self).fb.buffer@ == image_drawn(
                    old(self).fb,
                    recolored(old(self).splashes@[i], color),
                    position,
                ),
            final(self).fb.dimensions == old(self).fb.dimensions,
            final(self).fb.format == old(self).fb.format,
    {
        let mut rng = seeded_rng(seed.0);
        let i = match choose_index(&mut rng, self.splashes.len()) {
            Some(i) => i,
            None => {
                return;
            },
        };
        let mut splash = self.splashes.remove(i);
        splash.set_opaque_color(color);
        self.fb.draw_img(&splash, &position);
        proof {
            assert(splash == recolored(old(self).splashes@[i as int], color));
        }
        self.splashes.insert(i, splash);
        proof {
            assert(self.splashes@ =~= old(self).splashes@.update(
                i as int,
                recolored(old(self).splashes@[i as int], color),
            ));
        }
    }
}

} // verus!
