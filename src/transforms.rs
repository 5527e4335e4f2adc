use vstd::prelude::*;

use crate::op::Op;
use crate::stdlib::{TreeVec2, TreeVec3, ZERO_BITS};
use crate::node::Term;
use crate::tree::{substitute, Tree, TreeFloat};

verus! {

/// Bit pattern of the `f32` one.
pub const ONE_BITS: u32 = 0x3f80_0000;

/// Bit pattern of the `f32` two.
pub const TWO_BITS: u32 = 0x4000_0000;

pub open spec fn un(op: Op, a: Term) -> Term {
    Term::Unary(op, Box::new(a))
}

pub open spec fn bin(op: Op, a: Term, b: Term) -> Term {
    Term::Binary(op, Box::new(a), Box::new(b))
}

/// `t` moved by the offset `(ox, oy, oz)`.
pub open spec fn moved(t: Term, ox: Term, oy: Term, oz: Term) -> Term {
    substitute(t, bin(Op::Sub, Term::X, ox), bin(Op::Sub, Term::Y, oy), bin(Op::Sub, Term::Z, oz))
}

/// The coordinate `c` mirrored across the plane at `c0`: `2 * c0 - c`.
pub open spec fn mirrored(c: Term, c0: Term) -> Term {
    bin(Op::Sub, bin(Op::Mul, Term::Const(TWO_BITS), c0), c)
}

/// The coordinate `c` scaled by `s` about `c0`: `c0 + (c - c0) / s`.
pub open spec fn scaled(c: Term, s: Term, c0: Term) -> Term {
    bin(Op::Add, c0, bin(Op::Div, bin(Op::Sub, c, c0), s))
}

/// `cos(a) * u + sin(a) * v`.
pub open spec fn turned(a: Term, u: Term, v: Term) -> Term {
    bin(Op::Add, bin(Op::Mul, un(Op::Cos, a), u), bin(Op::Mul, un(Op::Sin, a), v))
}

/// `-sin(a) * u + cos(a) * v`.
pub open spec fn turned_back(a: Term, u: Term, v: Term) -> Term {
    bin(Op::Add, bin(Op::Mul, un(Op::Neg, un(Op::Sin, a)), u), bin(Op::Mul, un(Op::Cos, a), v))
}

/// `t` rotated by the substitution `(x, y, z)` about the centre `(cx, cy, cz)`.
pub open spec fn rotated(t: Term, x: Term, y: Term, z: Term, cx: Term, cy: Term, cz: Term) -> Term {
    moved(
        substitute(moved(t, un(Op::Neg, cx), un(Op::Neg, cy), un(Op::Neg, cz)), x, y, z),
        cx,
        cy,
        cz,
    )
}

/// The taper factor along `y`: `h / (scale * y + base_scale * (h - y))`.
pub open spec fn taper_factor_y(h: Term, scale: Term, base_scale: Term) -> Term {
    bin(
        Op::Div,
        h,
        bin(Op::Add, bin(Op::Mul, scale, Term::Y), bin(Op::Mul, base_scale, bin(Op::Sub, h, Term::Y))),
    )
}

/// The taper factor along `z` from `z0`:
/// `h / (scale * (z - z0) + base_scale * ((z0 + h) - z))`.
pub open spec fn taper_factor_z(z0: Term, h: Term, scale: Term, base_scale: Term) -> Term {
    bin(
        Op::Div,
        h,
        bin(
            Op::Add,
            bin(Op::Mul, scale, bin(Op::Sub, Term::Z, z0)),
            bin(Op::Mul, base_scale, bin(Op::Sub, bin(Op::Add, z0, h), Term::Z)),
        ),
    )
}

/// The sheared `x`: `x - base_offset * (1 - f) - offset * f`, with `f = (y - y0) / h`.
pub open spec fn sheared_x(y0: Term, h: Term, offset: Term, base_offset: Term) -> Term {
    let f = bin(Op::Div, bin(Op::Sub, Term::Y, y0), h);
    bin(
        Op::Sub,
        bin(Op::Sub, Term::X, bin(Op::Mul, base_offset, bin(Op::Sub, Term::Const(ONE_BITS), f))),
        bin(Op::Mul, offset, f),
    )
}

/// Transforms: each substitutes the coordinates of the subject, which it consumes.
impl Tree {
    /// The shape moved by `offset`.
    pub fn moveit(self, offset: TreeVec3) -> (r: Tree)
        ensures
            r@ == moved(self@, offset.x@, offset.y@, offset.z@),
    {
        let x = Tree::x().sub(offset.x);
        let y = Tree::y().sub(offset.y);
        let z = Tree::z().sub(offset.z);
        self.remap(&x, &y, &z)
    }

    /// The shape mirrored across the plane `x = x0`.
    pub fn reflect_x(self, x0: TreeFloat) -> (r: Tree)
        ensures
            r@ == substitute(self@, mirrored(Term::X, x0@), Term::Y, Term::Z),
    {
        let x = Tree::from_bits(TWO_BITS).mul(x0).sub(Tree::x());
        self.remap(&x, &Tree::y(), &Tree::z())
    }

    /// The shape mirrored across the plane `y = y0`.
    pub fn reflect_y(self, y0: TreeFloat) -> (r: Tree)
        ensures
            r@ == substitute(self@, Term::X, mirrored(Term::Y, y0@), Term::Z),
    {
        let y = Tree::from_bits(TWO_BITS).mul(y0).sub(Tree::y());
        self.remap(&Tree::x(), &y, &Tree::z())
    }

    /// The shape mirrored across the plane `z = z0`.
    pub fn reflect_z(self, z0: TreeFloat) -> (r: Tree)
        ensures
            r@ == substitute(self@, Term::X, Term::Y, mirrored(Term::Z, z0@)),
    {
        let z = Tree::from_bits(TWO_BITS).mul(z0).sub(Tree::z());
        self.remap(&Tree::x(), &Tree::y(), &z)
    }

    /// The shape mirrored across the plane `x = y`.
    pub fn reflect_xy(self) -> (r: Tree)
        ensures
            r@ == substitute(self@, Term::Y, Term::X, Term::Z),
    {
        self.remap(&Tree::y(), &Tree::x(), &Tree::z())
    }

    /// The shape mirrored across the plane `y = z`.
    pub fn reflect_yz(self) -> (r: Tree)
        ensures
            r@ == substitute(self@, Term::X, Term::Z, Term::Y),
    {
        self.remap(&Tree::x(), &Tree::z(), &Tree::y())
    }

    /// The shape mirrored across the plane `x = z`.
    pub fn reflect_xz(self) -> (r: Tree)
        ensures
            r@ == substitute(self@, Term::Z, Term::Y, Term::X),
    {
        self.remap(&Tree::z(), &Tree::y(), &Tree::x())
    }

    /// The half at positive `x`, mirrored onto negative `x`.
    pub fn symmetric_x(self) -> (r: Tree)
        ensures
            r@ == substitute(self@, un(Op::Abs, Term::X), Term::Y, Term::Z),
    {
        self.remap(&Tree::x().abs(), &Tree::y(), &Tree::z())
    }

    /// The half at positive `y`, mirrored onto negative `y`.
    pub fn symmetric_y(self) -> (r: Tree)
        ensures
            r@ == substitute(self@, Term::X, un(Op::Abs, Term::Y), Term::Z),
    {
        self.remap(&Tree::x(), &Tree::y().abs(), &Tree::z())
    }

    /// The half at positive `z`, mirrored onto negative `z`.
    pub fn symmetric_z(self) -> (r: Tree)
        ensures
            r@ == substitute(self@, Term::X, Term::Y, un(Op::Abs, Term::Z)),
    {
        self.remap(&Tree::x(), &Tree::y(), &Tree::z().abs())
    }

    /// The shape scaled by `sx` along `x`, about `x = x0`.
    pub fn scale_x(self, sx: TreeFloat, x0: TreeFloat) -> (r: Tree)
        ensures
            r@ == substitute(self@, scaled(Term::X, sx@, x0@), Term::Y, Term::Z),
    {
        let x = x0.clone().add(Tree::x().sub(x0).div(sx));
        self.remap(&x, &Tree::y(), &Tree::z())
    }

    /// The shape scaled by `sy` along `y`, about `y = y0`.
    pub fn scale_y(self, sy: TreeFloat, y0: TreeFloat) -> (r: Tree)
        ensures
            r@ == substitute(self@, Term::X, scaled(Term::Y, sy@, y0@), Term::Z),
    {
        let y = y0.clone().add(Tree::y().sub(y0).div(sy));
        self.remap(&Tree::x(), &y, &Tree::z())
    }

    /// The shape scaled by `sz` along `z`, about `z = z0`.
    pub fn scale_z(self, sz: TreeFloat, z0: TreeFloat) -> (r: Tree)
        ensures
            r@ == substitute(self@, Term::X, Term::Y, scaled(Term::Z, sz@, z0@)),
    {
        let z = z0.clone().add(Tree::z().sub(z0).div(sz));
        self.remap(&Tree::x(), &Tree::y(), &z)
    }

    /// The shape scaled by `s` about `center`.
    pub fn scale_xyz(self, s: TreeVec3, center: TreeVec3) -> (r: Tree)
        ensures
            r@ == substitute(
                self@,
                scaled(Term::X, s.x@, center.x@),
                scaled(Term::Y, s.y@, center.y@),
                scaled(Term::Z, s.z@, center.z@),
            ),
    {
        let x = center.x.clone().add(Tree::x().sub(center.x).div(s.x));
        let y = center.y.clone().add(Tree::y().sub(center.y).div(s.y));
        let z = center.z.clone().add(Tree::z().sub(center.z).div(s.z));
        self.remap(&x, &y, &z)
    }

    /// The shape's `x` extent tapered along `y`: scaled by `base_scale` at `base` and by
    /// `scale` at `h` above it.
    pub fn taper_x_y(self, base: TreeVec2, h: TreeFloat, scale: TreeFloat, base_scale: TreeFloat) -> (r: Tree)
        ensures
            r@ == moved(
                substitute(
                    moved(self@, un(Op::Neg, base.x@), un(Op::Neg, base.y@), Term::Const(ZERO_BITS)),
                    bin(Op::Mul, Term::X, taper_factor_y(h@, scale@, base_scale@)),
                    Term::Y,
                    Term::Z,
                ),
                base.x@,
                base.y@,
                Term::Const(ZERO_BITS),
            ),
    {
        let back = TreeVec3 { x: base.x.neg(), y: base.y.neg(), z: Tree::from_bits(ZERO_BITS) };
        let s = h.clone().div(scale.mul(Tree::y()).add(base_scale.mul(h.sub(Tree::y()))));
        let forth = TreeVec3 { x: base.x, y: base.y, z: Tree::from_bits(ZERO_BITS) };
        self.moveit(back).remap(&Tree::x().mul(s), &Tree::y(), &Tree::z()).moveit(forth)
    }

    /// The shape's `xy` extent tapered along `z`: scaled about `base` by `base_scale` at
    /// `base.z` and by `scale` at `height` above it.
    pub fn taper_xy_z(
        self,
        base: TreeVec3,
        height: TreeFloat,
        scale: TreeFloat,
        base_scale: TreeFloat,
    ) -> (r: Tree)
        ensures
            ({
                let s = taper_factor_z(base.z@, height@, scale@, base_scale@);
                r@ == substitute(
                    self@,
                    bin(Op::Add, base.x@, bin(Op::Mul, bin(Op::Sub, Term::X, base.x@), s)),
                    bin(Op::Add, base.y@, bin(Op::Mul, bin(Op::Sub, Term::Y, base.y@), s)),
                    Term::Z,
                )
            }),
    {
        let top = base.z.clone().add(height.clone());
        let s = height.div(
            scale.mul(Tree::z().sub(base.z)).add(base_scale.mul(top.sub(Tree::z()))),
        );
        let x = base.x.clone().add(Tree::x().sub(base.x).mul(s.clone()));
        let y = base.y.clone().add(Tree::y().sub(base.y).mul(s));
        self.remap(&x, &y, &Tree::z())
    }

    /// The shape sheared along `x` as a function of `y`: moved by `base_offset` at
    /// `base.y` and by `offset` at `height` above it.
    pub fn shear_x_y(
        self,
        base: TreeVec2,
        height: TreeFloat,
        offset: TreeFloat,
        base_offset: TreeFloat,
    ) -> (r: Tree)
        ensures
            r@ == substitute(self@, sheared_x(base.y@, height@, offset@, base_offset@), Term::Y, Term::Z),
    {
        let f = Tree::y().sub(base.y).div(height);
        let x = Tree::x().sub(base_offset.mul(Tree::from_bits(ONE_BITS).sub(f.clone()))).sub(
            offset.mul(f),
        );
        self.remap(&x, &Tree::y(), &Tree::z())
    }

    /// Moves `center` to the origin, substitutes `(x, y, z)`, and moves back.
    fn rotate_about(self, x: Tree, y: Tree, z: Tree, center: TreeVec3) -> (r: Tree)
        ensures
            r@ == rotated(self@, x@, y@, z@, center.x@, center.y@, center.z@),
    {
        let back = TreeVec3 { x: center.x.neg(), y: center.y.neg(), z: center.z.neg() };
        self.moveit(back).remap(&x, &y, &z).moveit(center)
    }

    /// The shape rotated by `angle` (radians) about the `x` axis through `center`.
    pub fn rotate_x(self, angle: TreeFloat, center: TreeVec3) -> (r: Tree)
        ensures
            r@ == rotated(
                self@,
                Term::X,
                turned(angle@, Term::Y, Term::Z),
                turned_back(angle@, Term::Y, Term::Z),
                center.x@,
                center.y@,
                center.z@,
            ),
    {
        let y = angle.cos().mul(Tree::y()).add(angle.sin().mul(Tree::z()));
        let z = angle.sin().neg().mul(Tree::y()).add(angle.cos().mul(Tree::z()));
        self.rotate_about(Tree::x(), y, z, center)
    }

    /// The shape rotated by `angle` (radians) about the `y` axis through `center`.
    pub fn rotate_y(self, angle: TreeFloat, center: TreeVec3) -> (r: Tree)
        ensures
            r@ == rotated(
                self@,
                turned(angle@, Term::X, Term::Z),
                Term::Y,
                turned_back(angle@, Term::X, Term::Z),
                center.x@,
                center.y@,
                center.z@,
            ),
    {
        let x = angle.cos().mul(Tree::x()).add(angle.sin().mul(Tree::z()));
        let z = angle.sin().neg().mul(Tree::x()).add(angle.cos().mul(Tree::z()));
        self.rotate_about(x, Tree::y(), z, center)
    }

    /// The shape rotated by `angle` (radians) about the `z` axis through `center`.
    pub fn rotate_z(self, angle: TreeFloat, center: TreeVec3) -> (r: Tree)
        ensures
            r@ == rotated(
                self@,
                turned(angle@, Term::X, Term::Y),
                turned_back(angle@, Term::X, Term::Y),
                Term::Z,
                center.x@,
                center.y@,
                center.z@,
            ),
    {
        let x = angle.cos().mul(Tree::x()).add(angle.sin().mul(Tree::y()));
        let y = angle.sin().neg().mul(Tree::x()).add(angle.cos().mul(Tree::y()));
        self.rotate_about(x, y, Tree::z(), center)
    }
}

} // verus!
