//! Stamping a badge onto an icon: where the badge goes, and which pixels of
//! the result are the badge's.

use crate::raster::{
    lemma_pixels_of_bytes_of, lemma_place, lemma_row_and_column, read_pixels, Pixel, Raster,
    RasterView,
};
use crate::resample::{can_resample, resample_is_supported, resize_rgba8};
use vstd::prelude::*;
use vstd::string::*;

verus! {

/// The corner of the icon at which the badge is placed.
#[derive(Clone, Copy, Debug, PartialEq, Eq, Structural)]
pub enum OverlayPosition {
    TopRight,
    TopLeft,
    BottomRight,
    BottomLeft,
}

/// Why an icon could not be made.
#[derive(Clone, Copy, Debug, PartialEq, Eq, Structural)]
pub enum ImageError {
    /// The badge, at its place, would reach beyond the icon.
    OverlayExceedsBounds,
    /// The badge cannot be scaled: it has no pixels, or one of its sides or
    /// the side it is scaled to is longer than the scaling supports.
    BadgeNotScalable,
}

impl ImageError {
    /// The sentence that tells of the error.
    pub open spec fn message(self) -> Seq<char> {
        match self {
            ImageError::OverlayExceedsBounds => "The overlay does not fit within the base image"@,
            ImageError::BadgeNotScalable => "The overlay image cannot be resized"@,
        }
    }

    /// The sentence that tells of the error.
    pub fn describe(&self) -> (text: String)
        ensures
            text@ == self.message(),
    {
        match self {
            ImageError::OverlayExceedsBounds => String::from_str(
                "The overlay does not fit within the base image",
            ),
            ImageError::BadgeNotScalable => String::from_str("The overlay image cannot be resized"),
        }
    }
}

/// A fraction of a length: `numerator / denominator`, the denominator not 0.
#[derive(Clone, Copy, Debug, PartialEq, Eq)]
pub struct Ratio {
    numerator: u32,
    denominator: u32,
}

impl Ratio {
    #[verifier::type_invariant]
    spec fn denominator_is_positive(self) -> bool {
        self.denominator > 0
    }

    /// The numerator.
    pub closed spec fn num(self) -> nat {
        self.numerator as nat
    }

    /// The denominator.
    pub closed spec fn den(self) -> nat {
        self.denominator as nat
    }

    /// This fraction of `length`, rounded down.
    pub open spec fn of(self, length: nat) -> nat {
        (length * self.num()) / self.den()
    }

    /// The fraction `numerator / denominator`; none where the denominator is 0.
    pub fn new(numerator: u32, denominator: u32) -> (ratio: Option<Ratio>)
        ensures
            ratio is Some <==> denominator != 0,
            ratio matches Some(r) ==> r.num() == numerator && r.den() == denominator,
    {
        if denominator == 0 {
            None
        } else {
            Some(Ratio { numerator, denominator })
        }
    }

    /// The numerator.
    pub fn numerator(&self) -> (n: u32)
        ensures
            n == self.num(),
    {
        self.numerator
    }

    /// The denominator.
    pub fn denominator(&self) -> (d: u32)
        ensures
            d == self.den(),
            d > 0,
    {
        proof {
            use_type_invariant(self);
        }
        self.denominator
    }

    /// This fraction of `length`, rounded down.
    pub fn apply(&self, length: u32) -> (part: u64)
        ensures
            part == self.of(length as nat),
    {
        proof {
            use_type_invariant(self);
            assert(0 <= length * self.numerator <= 0xffff_ffff * 0xffff_ffff) by (nonlinear_arith)
                requires
                    0 <= length <= 0xffff_ffff,
                    0 <= self.numerator <= 0xffff_ffff,
            ;
        }
        ((length as u64) * (self.numerator as u64)) / (self.denominator as u64)
    }
}

/// Where the badge goes on an icon: the column and row of its top left
/// corner, and the length of its sides.
#[derive(Clone, Copy, Debug, PartialEq, Eq, Structural)]
pub struct Placement {
    pub x: u32,
    pub y: u32,
    pub size: u32,
}

/// How a badge is stamped onto an icon.
#[derive(Clone, Copy, Debug)]
pub struct IconOverlay {
    pub overlay_position: OverlayPosition,
    pub padding_percent: Ratio,
}

/// The length of the sides of the badge on an icon of the given size: a
/// quarter of the icon's shorter side.
pub open spec fn badge_side(width: nat, height: nat) -> nat {
    if width <= height {
        width / 4
    } else {
        height / 4
    }
}

impl IconOverlay {
    /// The space left between the badge and the icon's left or right edge.
    pub open spec fn padding_x(self, width: nat) -> nat {
        self.padding_percent.of(width)
    }

    /// The space left between the badge and the icon's top or bottom edge.
    pub open spec fn padding_y(self, height: nat) -> nat {
        self.padding_percent.of(height)
    }

    /// Whether the badge with its padding lies within an icon of this size.
    pub open spec fn fits(self, width: nat, height: nat) -> bool {
        &&& self.padding_x(width) + badge_side(width, height) <= width
        &&& self.padding_y(height) + badge_side(width, height) <= height
    }

    /// The column of the badge's left edge.
    pub open spec fn left(self, width: nat, height: nat) -> int {
        match self.overlay_position {
            OverlayPosition::TopLeft | OverlayPosition::BottomLeft => self.padding_x(width) as int,
            OverlayPosition::TopRight | OverlayPosition::BottomRight => width - badge_side(
                width,
                height,
            ) - self.padding_x(width),
        }
    }

    /// The row of the badge's top edge.
    pub open spec fn top(self, width: nat, height: nat) -> int {
        match self.overlay_position {
            OverlayPosition::TopLeft | OverlayPosition::TopRight => self.padding_y(height) as int,
            OverlayPosition::BottomLeft | OverlayPosition::BottomRight => height - badge_side(
                width,
                height,
            ) - self.padding_y(height),
        }
    }

    /// The usual way: the badge in the bottom right corner, five hundredths
    /// of the icon's size away from its edges.
    pub fn new() -> (settings: IconOverlay)
        ensures
            settings.overlay_position == OverlayPosition::BottomRight,
            settings.padding_percent.num() == 5,
            settings.padding_percent.den() == 100,
    {
        IconOverlay::default()
    }

    /// The same settings with another corner.
    pub fn clone_with_overlay_position(&self, value: OverlayPosition) -> (settings: IconOverlay)
        ensures
            settings.overlay_position == value,
            settings.padding_percent == self.padding_percent,
    {
        IconOverlay { overlay_position: value, padding_percent: self.padding_percent }
    }

    /// The same settings with another padding.
    pub fn clone_with_padding_percent(&self, value: Ratio) -> (settings: IconOverlay)
        ensures
            settings.overlay_position == self.overlay_position,
            settings.padding_percent == value,
    {
        IconOverlay { overlay_position: self.overlay_position, padding_percent: value }
    }

    /// Where the badge goes on an icon of the given size.
    pub fn placement(&self, width: u32, height: u32) -> (outcome: Result<Placement, ImageError>)
        ensures
            match outcome {
                Ok(place) => {
                    &&& self.fits(width as nat, height as nat)
                    &&& place.x == self.left(width as nat, height as nat)
                    &&& place.y == self.top(width as nat, height as nat)
                    &&& place.size == badge_side(width as nat, height as nat)
                },
                Err(error) => error == ImageError::OverlayExceedsBounds && !self.fits(
                    width as nat,
                    height as nat,
                ),
            },
    {
        let side: u32 = if width <= height {
            width / 4
        } else {
            height / 4
        };
        let padding_x: u64 = self.padding_percent.apply(width);
        let padding_y: u64 = self.padding_percent.apply(height);
        if padding_x > (width - side) as u64 || padding_y > (height - side) as u64 {
            return Err(ImageError::OverlayExceedsBounds);
        }
        let near_x: u32 = padding_x as u32;
        let near_y: u32 = padding_y as u32;
        let far_x: u32 = width - side - near_x;
        let far_y: u32 = height - side - near_y;
        let place = match self.overlay_position {
            OverlayPosition::TopRight => Placement { x: far_x, y: near_y, size: side },
            OverlayPosition::TopLeft => Placement { x: near_x, y: near_y, size: side },
            OverlayPosition::BottomRight => Placement { x: far_x, y: far_y, size: side },
            OverlayPosition::BottomLeft => Placement { x: near_x, y: far_y, size: side },
        };
        Ok(place)
    }

    /// The corner of the badge on this icon, and whether the badge lies
    /// within the icon there.
    pub open spec fn reaches(self, base: RasterView, scaled: RasterView) -> bool {
        &&& self.fits(base.width, base.height)
        &&& within(
            base,
            scaled,
            self.left(base.width, base.height),
            self.top(base.width, base.height),
        )
    }

    /// The icon with this badge, as it is, stamped into its corner.
    pub open spec fn stamped(self, base: RasterView, scaled: RasterView) -> RasterView {
        composed(
            base,
            scaled,
            self.left(base.width, base.height),
            self.top(base.width, base.height),
        )
    }

    /// Stamps a badge that has its final size into its corner of the icon.
    pub fn stamp(&self, base: &Raster, scaled: &Raster) -> (outcome: Result<Raster, ImageError>)
        ensures
            match outcome {
                Ok(image) => self.reaches(base@, scaled@) && image@ == self.stamped(base@, scaled@)
                    && image@.wf(),
                Err(error) => error == ImageError::OverlayExceedsBounds && !self.reaches(
                    base@,
                    scaled@,
                ),
            },
    {
        match self.placement(base.width(), base.height()) {
            Ok(place) => composite(base, scaled, place.x, place.y),
            Err(error) => Err(error),
        }
    }

    /// What keeps the badge from being stamped onto the icon, if anything.
    pub open spec fn overlay_error(self, base: RasterView, badge: RasterView) -> Option<
        ImageError,
    > {
        let side = badge_side(base.width, base.height);
        if !self.fits(base.width, base.height) {
            Some(ImageError::OverlayExceedsBounds)
        } else if side == 0 {
            None
        } else if !can_resample(badge.width, badge.height, side) {
            Some(ImageError::BadgeNotScalable)
        } else {
            None
        }
    }

    /// The badge has the size at which it is stamped onto this icon.
    pub open spec fn has_final_size(self, base: RasterView, badge: RasterView) -> bool {
        &&& badge.width == badge_side(base.width, base.height)
        &&& badge.height == badge_side(base.width, base.height)
    }

    /// `image` is the icon with some badge of the right size stamped into
    /// its corner.
    pub open spec fn is_overlay(self, base: RasterView, scaled: RasterView, image: RasterView) -> bool {
        &&& scaled.width == badge_side(base.width, base.height)
        &&& scaled.height == badge_side(base.width, base.height)
        &&& scaled.wf()
        &&& image == self.stamped(base, scaled)
    }

    /// Scales the badge to a quarter of the icon's shorter side and stamps it
    /// into its corner of the icon. A badge that has that size already is
    /// stamped as it is. Otherwise the scaled badge is whatever the scaling
    /// gave, a square of the right size whose pixels may differ from one
    /// platform to another: `stamp` says what becomes of each of them.
    pub fn overlay(&self, base: &Raster, badge: &Raster) -> (outcome: Result<Raster, ImageError>)
        ensures
            match outcome {
                Ok(image) => {
                    &&& self.overlay_error(base@, badge@) is None
                    &&& image@.wf()
                    &&& exists|scaled: RasterView| self.is_overlay(base@, scaled, image@)
                    &&& self.has_final_size(base@, badge@) ==> image@ == self.stamped(base@, badge@)
                },
                Err(error) => self.overlay_error(base@, badge@) == Some(error),
            },
    {
        let place = match self.placement(base.width(), base.height()) {
            Ok(place) => place,
            Err(error) => {
                return Err(error);
            },
        };
        let side = place.size;
        let badge_width = badge.width();
        let badge_height = badge.height();
        let scaled = if side == 0 {
            let nothing = Raster::assemble(0, 0, Vec::new());
            proof {
                if self.has_final_size(base@, badge@) {
                    assert(nothing@.pixels =~= badge@.pixels);
                }
            }
            nothing
        } else {
            if !resample_is_supported(badge_width, badge_height, side) {
                return Err(ImageError::BadgeNotScalable);
            }
            let bytes = resize_rgba8(badge.to_rgba8(), badge_width, badge_height, side);
            proof {
                assert(4 * side * side == 4 * (side * side)) by (nonlinear_arith);
                lemma_pixels_of_bytes_of(badge@.pixels);
            }
            Raster::assemble(side, side, read_pixels(&bytes))
        };
        assert(self.has_final_size(base@, badge@) ==> scaled@ == badge@);
        let outcome = composite(base, &scaled, place.x, place.y);
        proof {
            assert(self.is_overlay(base@, scaled@, self.stamped(base@, scaled@)));
        }
        outcome
    }
}

/// The pixel of the result in column `x` of row `y`, for a badge whose top
/// left corner lies in column `left` of row `top`: the badge's pixel where
/// the badge covers the place and its pixel there is not fully transparent,
/// else the icon's pixel. Nothing is blended.
pub open spec fn composed_pixel(
    base: RasterView,
    overlay: RasterView,
    left: int,
    top: int,
    x: int,
    y: int,
) -> Pixel {
    if overlay.has(x - left, y - top) && overlay.at(x - left, y - top).alpha != 0 {
        overlay.at(x - left, y - top)
    } else {
        base.at(x, y)
    }
}

/// The icon with the badge stamped onto it.
pub open spec fn composed(base: RasterView, overlay: RasterView, left: int, top: int) -> RasterView {
    RasterView {
        width: base.width,
        height: base.height,
        pixels: Seq::new(
            base.pixels.len(),
            |i: int|
                composed_pixel(base, overlay, left, top, i % (base.width as int), i / (base.width as int)),
        ),
    }
}

/// Whether a badge of this size, at this place, lies within the icon.
pub open spec fn within(base: RasterView, overlay: RasterView, left: int, top: int) -> bool {
    left + overlay.width <= base.width && top + overlay.height <= base.height
}

/// The result has the icon's size, and each of its pixels is the one that
/// `composed_pixel` names for its column and row.
pub proof fn lemma_composed(base: RasterView, overlay: RasterView, left: int, top: int)
    requires
        base.wf(),
    ensures
        composed(base, overlay, left, top).wf(),
        forall|x: int, y: int| #[trigger]
            base.has(x, y) ==> composed(base, overlay, left, top).at(x, y) == composed_pixel(
                base,
                overlay,
                left,
                top,
                x,
                y,
            ),
{
    let result = composed(base, overlay, left, top);
    assert forall|x: int, y: int| #[trigger] base.has(x, y) implies result.at(x, y)
        == composed_pixel(base, overlay, left, top, x, y) by {
        lemma_place(base.width as int, base.height as int, x, y);
    }
}

/// The rule of the stamp. Where a pixel of the badge is fully transparent,
/// the result shows the icon's pixel; where it is not, the result shows the
/// badge's pixel, unchanged. Outside the badge the result is the icon.
pub proof fn lemma_alpha_rule(
    base: RasterView,
    overlay: RasterView,
    left: int,
    top: int,
    u: int,
    v: int,
)
    requires
        base.wf(),
        0 <= left,
        0 <= top,
        within(base, overlay, left, top),
        overlay.has(u, v),
    ensures
        base.has(left + u, top + v),
        overlay.at(u, v).alpha == 0 ==> composed(base, overlay, left, top).at(left + u, top + v)
            == base.at(left + u, top + v),
        overlay.at(u, v).alpha != 0 ==> composed(base, overlay, left, top).at(left + u, top + v)
            == overlay.at(u, v),
        forall|x: int, y: int|
            base.has(x, y) && !overlay.has(x - left, y - top) ==> composed(
                base,
                overlay,
                left,
                top,
            ).at(x, y) == #[trigger] base.at(x, y),
{
    lemma_composed(base, overlay, left, top);
    assert(base.has(left + u, top + v));
    assert(left + u - left == u && top + v - top == v);
    assert forall|x: int, y: int|
        base.has(x, y) && !overlay.has(x - left, y - top) implies composed(
        base,
        overlay,
        left,
        top,
    ).at(x, y) == #[trigger] base.at(x, y) by {
        assert(base.has(x, y));
    }
}

/// Stamps `overlay` onto `base` with its top left corner in column `left` of
/// row `top`. The badge must lie within the icon.
pub fn composite(base: &Raster, overlay: &Raster, left: u32, top: u32) -> (outcome: Result<
    Raster,
    ImageError,
>)
    ensures
        match outcome {
            Ok(image) => {
                &&& within(base@, overlay@, left as int, top as int)
                &&& image@ == composed(base@, overlay@, left as int, top as int)
                &&& image@.wf()
            },
            Err(error) => error == ImageError::OverlayExceedsBounds && !within(
                base@,
                overlay@,
                left as int,
                top as int,
            ),
        },
{
    let width = base.width();
    let height = base.height();
    let badge_width = overlay.width();
    let badge_height = overlay.height();
    if left as u64 + badge_width as u64 > width as u64 || top as u64 + badge_height as u64
        > height as u64 {
        return Err(ImageError::OverlayExceedsBounds);
    }
    let ghost goal = composed(base@, overlay@, left as int, top as int);
    let base_pixels = base.pixels();
    let badge_pixels = overlay.pixels();
    let count = base_pixels.len();
    let mut pixels: Vec<Pixel> = Vec::new();
    let mut i: usize = 0;
    while i < count
        invariant
            i <= count,
            count == base_pixels@.len(),
            base@.wf(),
            overlay@.wf(),
            base@.pixels == base_pixels@,
            overlay@.pixels == badge_pixels@,
            width == base@.width,
            height == base@.height,
            badge_width == overlay@.width,
            badge_height == overlay@.height,
            goal == composed(base@, overlay@, left as int, top as int),
            pixels@ == goal.pixels.take(i as int),
        decreases count - i,
    {
        proof {
            lemma_row_and_column(width as int, height as int, i as int);
        }
        let x: u32 = (i % (width as usize)) as u32;
        let y: u32 = (i / (width as usize)) as u32;
        let mut pixel = base_pixels[i];
        if x >= left && x - left < badge_width && y >= top && y - top < badge_height {
            let u: u32 = x - left;
            let v: u32 = y - top;
            let badge_count = badge_pixels.len();
            proof {
                lemma_place(badge_width as int, badge_height as int, u as int, v as int);
                assert(0 <= v * badge_width) by (nonlinear_arith)
                    requires
                        0 <= v,
                        0 <= badge_width,
                ;
                assert(v * badge_width + u < badge_count);
            }
            let candidate = badge_pixels[(v as usize) * (badge_width as usize) + (u as usize)];
            if candidate.alpha != 0 {
                pixel = candidate;
            }
        }
        pixels.push(pixel);
        assert(pixels@ =~= goal.pixels.take(i + 1));
        i += 1;
    }
    assert(pixels@ =~= goal.pixels);
    Ok(Raster::assemble(width, height, pixels))
}

impl Default for IconOverlay {
    fn default() -> (settings: IconOverlay)
        ensures
            settings.overlay_position == OverlayPosition::BottomRight,
            settings.padding_percent.num() == 5,
            settings.padding_percent.den() == 100,
    {
        IconOverlay {
            overlay_position: OverlayPosition::BottomRight,
            padding_percent: Ratio { numerator: 5, denominator: 100 },
        }
    }
}

} // verus!
