//! Binary tree rectangle packing.
//!
//! A packer node is either a leaf (free space) or a branch holding one
//! packed rectangle and exactly two children that partition the remaining
//! free area: one below the packed rectangle at the full original width,
//! and one to its right at the packed height.  Packing recurses into the
//! right child first, and only on failure into the left child, so the
//! layout is deterministic in insertion order.

use vstd::prelude::*;
use vstd::multiset::Multiset;

verus! {

broadcast use vstd::multiset::group_multiset_axioms;

/// A pixel rectangle: origin and extent, in pixel units.
#[derive(Clone, Copy, Debug, PartialEq, Eq, Structural)]
pub struct Rect {
    pub x: u16,
    pub y: u16,
    pub w: u16,
    pub h: u16,
}

/// The rectangle's extent stays within the 16-bit pixel coordinate space.
pub open spec fn rect_fits_u16(r: Rect) -> bool {
    r.x + r.w <= 0xffff && r.y + r.h <= 0xffff
}

/// `a` lies entirely inside `b`.
pub open spec fn rect_inside(a: Rect, b: Rect) -> bool {
    b.x <= a.x && a.x + a.w <= b.x + b.w && b.y <= a.y && a.y + a.h <= b.y + b.h
}

/// `a` and `b` share no pixel.
pub open spec fn rect_disjoint(a: Rect, b: Rect) -> bool {
    a.x + a.w <= b.x || b.x + b.w <= a.x || a.y + a.h <= b.y || b.y + b.h <= a.y
}

/// The pixel at column `px`, row `py` lies inside `r`.
pub open spec fn rect_covers(r: Rect, px: int, py: int) -> bool {
    r.x <= px < r.x + r.w && r.y <= py < r.y + r.h
}

/// The free space left below a rectangle of height `h` packed at the top
/// left corner of `dom`: the full width of `dom` at the remaining height.
pub open spec fn below_rect(dom: Rect, w: u16, h: u16) -> Rect {
    Rect { x: dom.x, y: (dom.y + h) as u16, w: dom.w, h: (dom.h - h) as u16 }
}

/// The free space left to the right of a rectangle of width `w` packed at
/// the top left corner of `dom`: the remaining width at the packed height.
pub open spec fn right_rect(dom: Rect, w: u16, h: u16) -> Rect {
    Rect { x: (dom.x + w) as u16, y: dom.y, w: (dom.w - w) as u16, h: h }
}

/// Failure of a packing request.
#[derive(Clone, Copy, Debug, PartialEq, Eq, Structural)]
pub enum PackRectError {
    /// The free space in the node is too small for the rectangle being
    /// packed into it.
    SpaceTooSmall,
}

/// A binary tree bin packing node.
pub struct BinPackNode {
    l_child: Option<Box<BinPackNode>>,
    r_child: Option<Box<BinPackNode>>,
    /// The space contained in this node as a pixel rect: for a leaf the
    /// whole free region, for a branch the packed rectangle.
    space: Rect,
    pub is_leaf: bool,
    /// The free region this node governed when it was created; a branch
    /// partitions it into the packed rectangle and its children's domains.
    dom: Ghost<Rect>,
}

impl BinPackNode {
    /// The original free region governed by this subtree.
    pub closed spec fn dom(self) -> Rect {
        self.dom@
    }

    /// Structural invariant: a leaf's space is exactly its domain; a branch
    /// holds a non-empty packed rectangle at the domain's origin and two
    /// children whose domains are the below and right remainders.
    pub closed spec fn wf(self) -> bool
        decreases self,
    {
        &&& rect_fits_u16(self.dom@)
        &&& if self.is_leaf {
            &&& self.l_child is None
            &&& self.r_child is None
            &&& self.space == self.dom@
        } else {
            match (self.l_child, self.r_child) {
                (Some(l), Some(r)) => {
                    &&& self.space.x == self.dom@.x
                    &&& self.space.y == self.dom@.y
                    &&& 0 < self.space.w <= self.dom@.w
                    &&& 0 < self.space.h <= self.dom@.h
                    &&& l.dom@ == below_rect(self.dom@, self.space.w, self.space.h)
                    &&& r.dom@ == right_rect(self.dom@, self.space.w, self.space.h)
                    &&& l.wf()
                    &&& r.wf()
                },
                _ => false,
            }
        }
    }

    /// All rectangles packed in this subtree.
    pub closed spec fn packed_ms(self) -> Multiset<Rect>
        decreases self,
    {
        if self.is_leaf {
            Multiset::empty()
        } else {
            match (self.l_child, self.r_child) {
                (Some(l), Some(r)) => l.packed_ms().add(r.packed_ms()).insert(self.space),
                _ => Multiset::empty().insert(self.space),
            }
        }
    }

    /// The total area of the rectangles packed in this subtree.
    pub closed spec fn packed_area(self) -> int
        decreases self,
    {
        if self.is_leaf {
            0
        } else {
            match (self.l_child, self.r_child) {
                (Some(l), Some(r)) => self.space.w * self.space.h + l.packed_area()
                    + r.packed_area(),
                _ => self.space.w * self.space.h,
            }
        }
    }

    /// Whether a `w` by `h` rectangle fits in some free leaf of this
    /// subtree.
    pub closed spec fn fits(self, w: u16, h: u16) -> bool
        decreases self,
    {
        if self.is_leaf {
            w <= self.space.w && h <= self.space.h
        } else {
            match (self.l_child, self.r_child) {
                (Some(l), Some(r)) => r.fits(w, h) || l.fits(w, h),
                _ => false,
            }
        }
    }

    /// The rectangle a fitting `w` by `h` request is placed at: the origin
    /// of the first fitting leaf, trying right children before left
    /// children.  Meaningful only when `fits` holds.
    pub closed spec fn placed(self, w: u16, h: u16) -> Rect
        decreases self,
    {
        if self.is_leaf {
            Rect { x: self.space.x, y: self.space.y, w, h }
        } else {
            match (self.l_child, self.r_child) {
                (Some(l), Some(r)) => if r.fits(w, h) {
                    r.placed(w, h)
                } else {
                    l.placed(w, h)
                },
                _ => Rect { x: 0, y: 0, w, h },
            }
        }
    }

    /// The tree after a `w` by `h` request: the first fitting leaf (right
    /// children before left children) becomes a branch holding the packed
    /// rectangle and its two remainder children; an unfitting request
    /// leaves the tree unchanged.  This mirrors `pack_rect` exactly, so
    /// callers can compute the packer's future behaviour.
    pub closed spec fn spec_pack(self, w: u16, h: u16) -> BinPackNode
        decreases self,
    {
        if !self.is_leaf {
            match (self.l_child, self.r_child) {
                (Some(l), Some(r)) => if r.fits(w, h) {
                    BinPackNode { r_child: Some(Box::new(r.spec_pack(w, h))), ..self }
                } else if l.fits(w, h) {
                    BinPackNode { l_child: Some(Box::new(l.spec_pack(w, h))), ..self }
                } else {
                    self
                },
                _ => self,
            }
        } else if w <= self.space.w && h <= self.space.h {
            let below = below_rect(self.dom@, w, h);
            let right = right_rect(self.dom@, w, h);
            BinPackNode {
                l_child: Some(
                    Box::new(
                        BinPackNode {
                            l_child: None,
                            r_child: None,
                            space: below,
                            is_leaf: true,
                            dom: Ghost(below),
                        },
                    ),
                ),
                r_child: Some(
                    Box::new(
                        BinPackNode {
                            l_child: None,
                            r_child: None,
                            space: right,
                            is_leaf: true,
                            dom: Ghost(right),
                        },
                    ),
                ),
                space: Rect { x: self.space.x, y: self.space.y, w, h },
                is_leaf: false,
                dom: self.dom,
            }
        } else {
            self
        }
    }

    /// A fresh leaf covering `space`, as a specification value.
    pub closed spec fn leaf_node(space: Rect) -> BinPackNode {
        BinPackNode {
            l_child: None,
            r_child: None,
            space,
            is_leaf: true,
            dom: Ghost(space),
        }
    }

    /// Create a new binary tree node with the given pixel rect as free
    /// space.
    pub fn new(space: Rect) -> (n: BinPackNode)
        requires
            rect_fits_u16(space),
        ensures
            n == BinPackNode::leaf_node(space),
            n.wf(),
            n.dom() == space,
            n.packed_ms() == Multiset::<Rect>::empty(),
            n.packed_area() == 0,
            forall|w: u16, h: u16| #[trigger] n.fits(w, h) <==> (w <= space.w && h <= space.h),
            forall|w: u16, h: u16| #[trigger]
                n.placed(w, h) == (Rect { x: space.x, y: space.y, w, h }),
    {
        BinPackNode {
            l_child: None,
            r_child: None,
            space,
            is_leaf: true,
            dom: Ghost(space),
        }
    }

    /// Pack a rect into this space.  On success the chosen leaf becomes a
    /// branch holding the packed rectangle at the leaf's origin, with a
    /// child below it (full original width, remaining height) and a child
    /// to its right (remaining width, packed height); the returned
    /// rectangle is never moved afterwards.  On failure the tree is
    /// unchanged.
    pub fn pack_rect(&mut self, w: u16, h: u16) -> (res: Result<Rect, PackRectError>)
        requires
            old(self).wf(),
            0 < w,
            0 < h,
        ensures
            final(self).wf(),
            final(self).dom() == old(self).dom(),
            *final(self) == old(self).spec_pack(w, h),
            res is Ok <==> old(self).fits(w, h),
            res is Err ==> *final(self) == *old(self) && res == Err::<Rect, PackRectError>(
                PackRectError::SpaceTooSmall,
            ),
            res matches Ok(rect) ==> rect == old(self).placed(w, h) && rect.w == w && rect.h
                == h && final(self).packed_ms() == old(self).packed_ms().insert(rect)
                && final(self).packed_area() == old(self).packed_area() + w * h,
        decreases *old(self),
    {
        if !self.is_leaf {
            let ghost old_l = self.l_child;
            let ghost old_r = self.r_child;
            match self.r_child.take() {
                Some(mut rbox) => {
                    let res = (&mut *rbox).pack_rect(w, h);
                    self.r_child = Some(rbox);
                    match res {
                        Ok(rect) => {
                            proof {
                                lemma_ms_insert_assoc(
                                    old(self).l_child.unwrap().packed_ms(),
                                    old(self).r_child.unwrap().packed_ms(),
                                    rect,
                                    old(self).space,
                                );
                            }
                            return Ok(rect);
                        },
                        Err(_) => {
                            match self.l_child.take() {
                                Some(mut lbox) => {
                                    let res2 = (&mut *lbox).pack_rect(w, h);
                                    self.l_child = Some(lbox);
                                    match res2 {
                                        Ok(rect) => {
                                            proof {
                                                lemma_ms_insert_assoc_left(
                                                    old(self).l_child.unwrap().packed_ms(),
                                                    old(self).r_child.unwrap().packed_ms(),
                                                    rect,
                                                    old(self).space,
                                                );
                                            }
                                            return Ok(rect);
                                        },
                                        Err(e) => {
                                            return Err(e);
                                        },
                                    }
                                },
                                None => {
                                    // a branch always has both children
                                    assert(false);
                                    return Err(PackRectError::SpaceTooSmall);
                                },
                            }
                        },
                    }
                },
                None => {
                    // a branch always has both children
                    assert(false);
                    return Err(PackRectError::SpaceTooSmall);
                },
            }
        }
        // Check the given w/h is small enough to fit.
        if w > self.space.w || h > self.space.h {
            return Err(PackRectError::SpaceTooSmall);
        }

        // Calculate the space below and to the right once the rectangle
        // has been packed.
        let space_below = Rect {
            x: self.space.x,
            y: self.space.y + h,
            w: self.space.w,
            h: self.space.h - h,
        };
        let space_right = Rect {
            x: self.space.x + w,
            y: self.space.y,
            w: self.space.w - w,
            h,
        };

        // Create the child nodes.
        self.l_child = Some(
            Box::new(
                BinPackNode {
                    l_child: None,
                    r_child: None,
                    space: space_below,
                    is_leaf: true,
                    dom: Ghost(space_below),
                },
            ),
        );
        self.r_child = Some(
            Box::new(
                BinPackNode {
                    l_child: None,
                    r_child: None,
                    space: space_right,
                    is_leaf: true,
                    dom: Ghost(space_right),
                },
            ),
        );

        // Set this node's space to the given rect.
        let packed = Rect { x: self.space.x, y: self.space.y, w, h };
        self.space = packed;
        self.is_leaf = false;

        proof {
            assert(self.l_child.unwrap().wf());
            assert(self.r_child.unwrap().wf());
            assert(self.wf());
            assert(self.l_child.unwrap().packed_area() == 0);
            assert(self.r_child.unwrap().packed_area() == 0);
            assert(self.l_child.unwrap().packed_ms() =~= Multiset::<Rect>::empty());
            assert(self.r_child.unwrap().packed_ms() =~= Multiset::<Rect>::empty());
            assert(self.packed_ms() =~= old(self).packed_ms().insert(packed));
            assert(space_below == below_rect(old(self).dom@, w, h));
            assert(space_right == right_rect(old(self).dom@, w, h));
            assert(*self == old(self).spec_pack(w, h));
        }
        Ok(packed)
    }
}

/// Inserting into the right part of a multiset union commutes with
/// inserting into the union.
proof fn lemma_ms_insert_assoc(l: Multiset<Rect>, r: Multiset<Rect>, rect: Rect, sp: Rect)
    ensures
        l.add(r.insert(rect)).insert(sp) == l.add(r).insert(sp).insert(rect),
{
    assert(l.add(r.insert(rect)).insert(sp) =~= l.add(r).insert(sp).insert(rect));
}

/// Inserting into the left part of a multiset union commutes with
/// inserting into the union.
proof fn lemma_ms_insert_assoc_left(l: Multiset<Rect>, r: Multiset<Rect>, rect: Rect, sp: Rect)
    ensures
        l.insert(rect).add(r).insert(sp) == l.add(r).insert(sp).insert(rect),
{
    assert(l.insert(rect).add(r).insert(sp) =~= l.add(r).insert(sp).insert(rect));
}

/// Bin-packer soundness: every packed rectangle is non-empty and lies
/// inside the packer's domain, no rectangle is packed twice, distinct
/// packed rectangles share no pixel, and the packed area never exceeds the
/// domain's area.
pub proof fn lemma_packed_rects_sound(n: BinPackNode)
    requires
        n.wf(),
    ensures
        forall|a: Rect| #[trigger]
            n.packed_ms().count(a) > 0 ==> rect_inside(a, n.dom()) && 0 < a.w && 0 < a.h,
        forall|a: Rect| #[trigger] n.packed_ms().count(a) > 0 ==> n.packed_ms().count(a) == 1,
        forall|a: Rect, b: Rect|
            n.packed_ms().count(a) > 0 && n.packed_ms().count(b) > 0 && a != b
                ==> rect_disjoint(a, b),
        n.packed_area() <= n.dom().w * n.dom().h,
    decreases n,
{
    if !n.is_leaf {
        let l = *n.l_child.unwrap();
        let r = *n.r_child.unwrap();
        lemma_packed_rects_sound(l);
        lemma_packed_rects_sound(r);
        let dom = n.dom();
        let sp = n.space;
        let bl = below_rect(dom, sp.w, sp.h);
        let rr = right_rect(dom, sp.w, sp.h);
        // The three regions partition the domain: the packed rectangle is
        // disjoint from both remainders, and the remainders from each
        // other.
        assert(rect_inside(sp, dom));
        assert(rect_disjoint(sp, bl));
        assert(rect_disjoint(sp, rr));
        assert(rect_disjoint(bl, rr));
        // Everything inside a child's domain inherits its disjointness.
        assert forall|a: Rect| #[trigger] n.packed_ms().count(a) > 0 implies rect_inside(
            a,
            n.dom(),
        ) && 0 < a.w && 0 < a.h by {
            if a != sp {
                assert(l.packed_ms().count(a) > 0 || r.packed_ms().count(a) > 0);
            }
        }
        assert forall|a: Rect, b: Rect|
            n.packed_ms().count(a) > 0 && n.packed_ms().count(b) > 0 && a != b implies
            rect_disjoint(a, b) by {
            if a != sp {
                assert(l.packed_ms().count(a) > 0 || r.packed_ms().count(a) > 0);
            }
            if b != sp {
                assert(l.packed_ms().count(b) > 0 || r.packed_ms().count(b) > 0);
            }
        }
        // The packed rectangle cannot also occur in a child, and nothing
        // occurs in both children, so counts stay at one.
        assert forall|a: Rect| #[trigger] n.packed_ms().count(a) > 0 implies n.packed_ms().count(
            a,
        ) == 1 by {
            if l.packed_ms().count(a) > 0 {
                assert(rect_inside(a, bl) && 0 < a.w && 0 < a.h);
            }
            if r.packed_ms().count(a) > 0 {
                assert(rect_inside(a, rr) && 0 < a.w && 0 < a.h);
            }
        }
        // Exact area split of the domain.
        assert(sp.w * sp.h + dom.w * (dom.h - sp.h) + (dom.w - sp.w) * sp.h == dom.w * dom.h)
            by (nonlinear_arith);
        assert(bl.w * bl.h == dom.w * (dom.h - sp.h));
        assert(rr.w * rr.h == (dom.w - sp.w) * sp.h);
    }
}

/// No pixel is covered by two different packed rectangles.
pub proof fn lemma_packed_rects_no_shared_pixel(
    n: BinPackNode,
    a: Rect,
    b: Rect,
    px: int,
    py: int,
)
    requires
        n.wf(),
        n.packed_ms().count(a) > 0,
        n.packed_ms().count(b) > 0,
        a != b,
        rect_covers(a, px, py),
    ensures
        !rect_covers(b, px, py),
{
    lemma_packed_rects_sound(n);
    assert(rect_disjoint(a, b));
}


} // verus!
