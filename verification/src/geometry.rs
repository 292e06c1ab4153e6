//! Rectangles on the screen and the configuration of a monitor.
use vstd::prelude::*;

verus! {

/// Largest value of an `i32`, as an integer.
pub open spec fn i32_max() -> int {
    0x7fff_ffff
}

/// An axis-aligned rectangle: position of the top left corner and size.
#[derive(Copy, Clone, PartialEq, Eq, Structural, Debug)]
pub struct Dimensions {
    pub x: i32,
    pub y: i32,
    pub w: u32,
    pub h: u32,
}

impl Dimensions {
    /// The right edge (`x + w`), as an integer.
    pub open spec fn spec_right(self) -> int {
        self.x + self.w
    }

    /// The bottom edge (`y + h`), as an integer.
    pub open spec fn spec_bottom(self) -> int {
        self.y + self.h
    }

    /// The center point, rounded towards the top left corner.
    pub open spec fn spec_center(self) -> (int, int) {
        (self.x + self.w / 2, self.y + self.h / 2)
    }

    /// The center fits into an `i32` pair.
    pub open spec fn center_fits(self) -> bool {
        self.x + self.w / 2 <= i32_max() && self.y + self.h / 2 <= i32_max()
    }

    /// The right edge can be computed in `i32` arithmetic.
    pub open spec fn right_fits(self) -> bool {
        self.w <= i32_max() && self.spec_right() <= i32_max()
    }

    /// The bottom edge can be computed in `i32` arithmetic.
    pub open spec fn bottom_fits(self) -> bool {
        self.h <= i32_max() && self.spec_bottom() <= i32_max()
    }

    /// The point lies inside the rectangle (left and top edges included).
    pub open spec fn spec_contains_point(self, point: (i32, i32)) -> bool {
        &&& self.x <= point.0
        &&& point.0 < self.spec_right()
        &&& self.y <= point.1
        &&& point.1 < self.spec_bottom()
    }

    pub fn new(x: i32, y: i32, w: u32, h: u32) -> (d: Dimensions)
        ensures
            d == (Dimensions { x, y, w, h }),
    {
        Dimensions { x, y, w, h }
    }

    pub fn as_tuple(&self) -> (t: (i32, i32, u32, u32))
        ensures
            t == (self.x, self.y, self.w, self.h),
    {
        (self.x, self.y, self.w, self.h)
    }

    /// Whether `point` lies inside the rectangle.
    pub fn contains_point(&self, point: (i32, i32)) -> (b: bool)
        requires
            self.right_fits(),
            self.bottom_fits(),
        ensures
            b == self.spec_contains_point(point),
    {
        point.0 >= self.x && point.0 < self.x + self.w as i32 && point.1 >= self.y && point.1 < self.y
            + self.h as i32
    }
}

/// Something that occupies a rectangle on the screen.
pub trait Dimensioned {
    /// The rectangle this value currently occupies.
    spec fn spec_dimensions(&self) -> Dimensions;

    /// The setters below can be applied (they do not overflow).
    spec fn settable(&self) -> bool;

    /// Get x coordinate
    fn x(&self) -> (r: i32)
        ensures
            r == self.spec_dimensions().x,
    ;

    /// Get y coordinate
    fn y(&self) -> (r: i32)
        ensures
            r == self.spec_dimensions().y,
    ;

    /// Get width
    fn w(&self) -> (r: u32)
        ensures
            r == self.spec_dimensions().w,
    ;

    /// Get height
    fn h(&self) -> (r: u32)
        ensures
            r == self.spec_dimensions().h,
    ;

    /// Get position
    fn pos(&self) -> (r: (i32, i32))
        ensures
            r == (self.spec_dimensions().x, self.spec_dimensions().y),
    ;

    /// Get size
    fn size(&self) -> (r: (u32, u32))
        ensures
            r == (self.spec_dimensions().w, self.spec_dimensions().h),
    ;

    /// Set x coordinate
    fn set_x(&mut self, x: i32)
        requires
            old(self).settable(),
    ;

    /// Set y coordinate
    fn set_y(&mut self, y: i32)
        requires
            old(self).settable(),
    ;

    /// Set width
    fn set_w(&mut self, w: u32)
        requires
            old(self).settable(),
    ;

    /// Set height
    fn set_h(&mut self, h: u32)
        requires
            old(self).settable(),
    ;

    /// Set position
    fn set_pos(&mut self, pos: (i32, i32))
        requires
            old(self).settable(),
    ;

    /// Set size
    fn set_size(&mut self, size: (u32, u32))
        requires
            old(self).settable(),
    ;

    /// Get [Dimensions]
    fn dimensions(&self) -> (r: Dimensions)
        ensures
            r == self.spec_dimensions(),
    ;

    /// The center point (half the size added to the position, rounded down).
    fn center(&self) -> (r: (i32, i32))
        requires
            self.spec_dimensions().center_fits(),
        ensures
            r.0 == self.spec_dimensions().spec_center().0,
            r.1 == self.spec_dimensions().spec_center().1,
    {
        let center_x = self.x() + (self.w() / 2) as i32;
        let center_y = self.y() + (self.h() / 2) as i32;
        (center_x, center_y)
    }

    /// The bottom edge (`y + h`).
    fn bottom(&self) -> (r: i32)
        requires
            self.spec_dimensions().bottom_fits(),
        ensures
            r == self.spec_dimensions().spec_bottom(),
    {
        self.y() + self.h() as i32
    }

    /// The right edge (`x + w`).
    fn right(&self) -> (r: i32)
        requires
            self.spec_dimensions().right_fits(),
        ensures
            r == self.spec_dimensions().spec_right(),
    {
        self.x() + self.w() as i32
    }
}

impl Dimensioned for Dimensions {
    open spec fn spec_dimensions(&self) -> Dimensions {
        *self
    }

    open spec fn settable(&self) -> bool {
        true
    }

    fn x(&self) -> (r: i32) {
        self.x
    }

    fn y(&self) -> (r: i32) {
        self.y
    }

    fn w(&self) -> (r: u32) {
        self.w
    }

    fn h(&self) -> (r: u32) {
        self.h
    }

    fn pos(&self) -> (r: (i32, i32)) {
        (self.x, self.y)
    }

    fn size(&self) -> (r: (u32, u32)) {
        (self.w, self.h)
    }

    fn set_x(&mut self, x: i32)
        ensures
            *final(self) == (Dimensions { x, ..*old(self) }),
    {
        self.x = x;
    }

    fn set_y(&mut self, y: i32)
        ensures
            *final(self) == (Dimensions { y, ..*old(self) }),
    {
        self.y = y;
    }

    fn set_w(&mut self, w: u32)
        ensures
            *final(self) == (Dimensions { w, ..*old(self) }),
    {
        self.w = w;
    }

    fn set_h(&mut self, h: u32)
        ensures
            *final(self) == (Dimensions { h, ..*old(self) }),
    {
        self.h = h;
    }

    fn set_pos(&mut self, pos: (i32, i32))
        ensures
            *final(self) == (Dimensions { x: pos.0, y: pos.1, ..*old(self) }),
    {
        self.x = pos.0;
        self.y = pos.1;
    }

    fn set_size(&mut self, size: (u32, u32))
        ensures
            *final(self) == (Dimensions { w: size.0, h: size.1, ..*old(self) }),
    {
        self.w = size.0;
        self.h = size.1;
    }

    fn dimensions(&self) -> (r: Dimensions) {
        *self
    }
}

/// The top edge of the window area after an inset of `inset` pixels at the top: it moves down by
/// the inset, unless that would leave the `i32` range.
pub open spec fn inset_top_y(y: i32, inset: u32) -> int {
    if y + inset <= i32_max() {
        y + inset
    } else {
        y as int
    }
}

/// The height of the window area after an inset of `inset` pixels: it shrinks by the inset,
/// unless the inset is larger than the height.
pub open spec fn inset_height(h: u32, inset: u32) -> int {
    if inset <= h {
        h - inset
    } else {
        h as int
    }
}

/// A monitor: its name, the area it covers and the part of it that windows may occupy (the area
/// without docks such as status bars).
#[derive(Clone, PartialEq, Debug)]
pub struct MonitorConfig {
    pub name: String,
    pub dims: Dimensions,
    pub win_area: Dimensions,
}

impl MonitorConfig {
    /// The window area spans the monitor's width and lies within its height.
    pub open spec fn area_inside(self) -> bool {
        &&& self.win_area.x == self.dims.x
        &&& self.win_area.w == self.dims.w
        &&& self.win_area.y >= self.dims.y
        &&& self.win_area.spec_bottom() <= self.dims.spec_bottom()
    }

    pub fn new(name: String, dimensions: Dimensions, win_area: Dimensions) -> (m: MonitorConfig)
        ensures
            m.name@ == name@,
            m.dims == dimensions,
            m.win_area == win_area,
            win_area == dimensions ==> m.area_inside(),
    {
        MonitorConfig { name, dims: dimensions, win_area }
    }

    /// Reserve `inset` pixels at the top of the window area.
    pub fn add_inset_top(&mut self, inset: u32)
        ensures
            final(self).name == old(self).name,
            final(self).dims == old(self).dims,
            final(self).win_area.x == old(self).win_area.x,
            final(self).win_area.w == old(self).win_area.w,
            final(self).win_area.y == inset_top_y(old(self).win_area.y, inset),
            final(self).win_area.h == inset_height(old(self).win_area.h, inset),
            old(self).area_inside() && inset <= old(self).win_area.h ==> final(self).area_inside(),
    {
        let y = self.win_area.y;
        let new_y = match y.checked_add_unsigned(inset) {
            Some(moved) => moved,
            None => y,
        };
        self.win_area.set_y(new_y);
        let h = self.win_area.h;
        let new_h = if inset <= h {
            h - inset
        } else {
            h
        };
        self.win_area.set_h(new_h);
    }

    /// Reserve `inset` pixels at the bottom of the window area.
    pub fn add_inset_bottom(&mut self, inset: u32)
        ensures
            final(self).name == old(self).name,
            final(self).dims == old(self).dims,
            final(self).win_area.x == old(self).win_area.x,
            final(self).win_area.y == old(self).win_area.y,
            final(self).win_area.w == old(self).win_area.w,
            final(self).win_area.h == inset_height(old(self).win_area.h, inset),
            old(self).area_inside() ==> final(self).area_inside(),
    {
        let h = self.win_area.h;
        let new_h = if inset <= h {
            h - inset
        } else {
            h
        };
        self.win_area.set_h(new_h);
    }

    /// Whether `point` lies on this monitor.
    pub fn contains_point(&self, point: (i32, i32)) -> (b: bool)
        requires
            self.dims.right_fits(),
            self.dims.bottom_fits(),
        ensures
            b == self.dims.spec_contains_point(point),
    {
        self.dims.contains_point(point)
    }

    pub fn dimensions(&self) -> (d: Dimensions)
        ensures
            d == self.dims,
    {
        self.dims
    }

    pub fn name(&self) -> (n: &str)
        ensures
            n@ == self.name@,
    {
        self.name.as_str()
    }

    /// Give the whole monitor back to windows.
    pub fn remove_insets(&mut self)
        ensures
            final(self).name == old(self).name,
            final(self).dims == old(self).dims,
            final(self).win_area == old(self).dims,
            final(self).area_inside(),
    {
        self.win_area = self.dims;
    }

    pub fn window_area(&self) -> (d: Dimensions)
        ensures
            d == self.win_area,
    {
        self.win_area
    }
}

} // verus!
