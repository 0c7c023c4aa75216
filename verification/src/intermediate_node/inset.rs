//! Offsets of an absolutely positioned node from the edges of its parent.
use crate::css_properties::{
    absolute_bounding_box, decimal_difference, decimal_sum, spec_absolute_bounding_box,
};
use crate::decimal::{clamp_micros, decimal_text, half_towards_zero, Decimal};
use crate::schema::{
    LayoutConstraint, LayoutConstraintHorizontal, LayoutConstraintVertical, LayoutPositioning, Node, Rectangle,
};
use crate::text::push_text;
use vstd::prelude::*;

verus! {

/// The offset of one edge of a node from the same edge of its parent.
#[derive(Clone, Copy, Debug, PartialEq, Eq, Structural)]
pub enum Inset {
    /// The edge is not tied to the parent's.
    Auto,
    /// `calc(100% * dy / dx + c px)`.
    Linear { dy: Decimal, dx: Decimal, c: Decimal },
}

/// How the position of a node along one axis follows its parent.
#[derive(Clone, Copy, Debug, PartialEq, Eq, Structural)]
pub enum AxisConstraint {
    /// Tied to the near edge: top or left.
    Near,
    /// Tied to the far edge: bottom or right.
    Far,
    /// Centred.
    Center,
    /// Tied to both edges.
    Both,
    /// Scales with the parent.
    Scale,
}

/// A vertical constraint as a constraint along an axis.
pub open spec fn vertical_constraint(c: LayoutConstraintVertical) -> AxisConstraint {
    match c {
        LayoutConstraintVertical::Top => AxisConstraint::Near,
        LayoutConstraintVertical::Bottom => AxisConstraint::Far,
        LayoutConstraintVertical::Center => AxisConstraint::Center,
        LayoutConstraintVertical::TopBottom => AxisConstraint::Both,
        LayoutConstraintVertical::Scale => AxisConstraint::Scale,
    }
}

/// A horizontal constraint as a constraint along an axis.
pub open spec fn horizontal_constraint(c: LayoutConstraintHorizontal) -> AxisConstraint {
    match c {
        LayoutConstraintHorizontal::Left => AxisConstraint::Near,
        LayoutConstraintHorizontal::Right => AxisConstraint::Far,
        LayoutConstraintHorizontal::Center => AxisConstraint::Center,
        LayoutConstraintHorizontal::LeftRight => AxisConstraint::Both,
        LayoutConstraintHorizontal::Scale => AxisConstraint::Scale,
    }
}

/// A plain offset of `c` pixels.
pub open spec fn pixels(c: Decimal) -> Inset {
    Inset::Linear { dy: Decimal { micros: 0 }, dx: Decimal { micros: 1_000_000 }, c }
}

/// The negation of a decimal, kept inside the representable range.
pub open spec fn decimal_negation(a: Decimal) -> Decimal {
    Decimal { micros: clamp_micros(-a.micros) as i64 }
}

/// Half of a decimal, rounded towards zero.
pub open spec fn decimal_half(a: Decimal) -> Decimal {
    Decimal { micros: half_towards_zero(a.micros as int) as i64 }
}

/// The inset of the near edge (top or left), given the distance between the
/// near edges of node and parent and the extent of the parent along the axis.
pub open spec fn near_inset(constraint: AxisConstraint, distance: Decimal, extent: Decimal) -> Inset {
    match constraint {
        AxisConstraint::Near | AxisConstraint::Both => pixels(distance),
        AxisConstraint::Far => Inset::Auto,
        AxisConstraint::Center => Inset::Linear {
            dy: Decimal { micros: 1_000_000 },
            dx: Decimal { micros: 2_000_000 },
            c: decimal_difference(distance, decimal_half(extent)),
        },
        AxisConstraint::Scale => Inset::Linear {
            dy: distance,
            dx: extent,
            c: Decimal { micros: 0 },
        },
    }
}

/// The inset of the far edge (bottom or right), given the distance between
/// the far edges of node and parent.
pub open spec fn far_inset(constraint: AxisConstraint, distance: Decimal) -> Inset {
    match constraint {
        AxisConstraint::Far | AxisConstraint::Both => pixels(decimal_negation(distance)),
        _ => Inset::Auto,
    }
}

/// Whether `node` is laid out by `parent` in a row or a column, and so has no
/// insets.
pub open spec fn in_normal_flow(node: Node, parent: Node) -> bool {
    parent.spec_is_auto_layout() && node.layout_positioning != Some(LayoutPositioning::Absolute)
}

/// The four insets of `node` in `parent`, from the top clockwise, where both
/// boxes are fully known and the node has constraints.
pub open spec fn insets_in(node: Node, parent: Node) -> Option<Seq<Inset>> {
    match (spec_absolute_bounding_box(parent), spec_absolute_bounding_box(node), node.constraints) {
        (
            Some(Rectangle { x: Some(px), y: Some(py), width: Some(pw), height: Some(ph) }),
            Some(Rectangle { x: Some(nx), y: Some(ny), width: Some(nw), height: Some(nh) }),
            Some(constraints),
        ) => {
            let top = decimal_difference(ny, py);
            let right = decimal_difference(decimal_difference(decimal_sum(px, pw), nx), nw);
            let bottom = decimal_difference(decimal_difference(decimal_sum(py, ph), ny), nh);
            let left = decimal_difference(nx, px);
            let vertical = vertical_constraint(constraints.vertical);
            let horizontal = horizontal_constraint(constraints.horizontal);
            Some(
                seq![
                    near_inset(vertical, top, ph),
                    far_inset(horizontal, right),
                    far_inset(vertical, bottom),
                    near_inset(horizontal, left, pw),
                ],
            )
        },
        _ => None,
    }
}

/// The insets of `node`: none in normal flow or without a parent.
pub open spec fn spec_insets(node: Node, parent: Option<Node>) -> Option<Seq<Inset>> {
    match parent {
        None => None,
        Some(parent) => if in_normal_flow(node, parent) {
            None
        } else {
            insets_in(node, parent)
        },
    }
}

/// The insets as a sequence, from the top clockwise.
pub open spec fn insets_view(insets: Option<[Inset; 4]>) -> Option<Seq<Inset>> {
    match insets {
        Some(a) => Some(a@),
        None => None,
    }
}

/// How an inset is written in CSS.
pub open spec fn inset_text(inset: Inset) -> Seq<char> {
    match inset {
        Inset::Auto => "auto"@,
        Inset::Linear { dy, dx, c } => "calc(100% * "@ + decimal_text(dy.micros as int) + " / "@
            + decimal_text(dx.micros as int) + " + "@ + decimal_text(c.micros as int) + "px)"@,
    }
}

/// A node that covers its parent exactly, is not laid out by it and is tied
/// to the top and to the left has no offset from the top and from the left,
/// and is not tied to the bottom or to the right.
pub proof fn lemma_covering_child_insets(node: Node, parent: Node, place: Rectangle)
    requires
        spec_absolute_bounding_box(node) == Some(place),
        spec_absolute_bounding_box(parent) == Some(place),
        place.x.is_some() && place.y.is_some() && place.width.is_some() && place.height.is_some(),
        !in_normal_flow(node, parent),
        node.constraints == Some(
            LayoutConstraint {
                vertical: LayoutConstraintVertical::Top,
                horizontal: LayoutConstraintHorizontal::Left,
            },
        ),
    ensures
        spec_insets(node, Some(parent)) == Some(
            seq![
                pixels(Decimal { micros: 0 }),
                Inset::Auto,
                Inset::Auto,
                pixels(Decimal { micros: 0 }),
            ],
        ),
{
    assert(insets_in(node, parent).unwrap() =~= seq![
        pixels(Decimal { micros: 0 }),
        Inset::Auto,
        Inset::Auto,
        pixels(Decimal { micros: 0 }),
    ]);
}

fn near_inset_exec(constraint: AxisConstraint, distance: Decimal, extent: Decimal) -> (r: Inset)
    ensures
        r == near_inset(constraint, distance, extent),
{
    match constraint {
        AxisConstraint::Near => Inset::Linear {
            dy: Decimal::zero(),
            dx: Decimal::one(),
            c: distance,
        },
        AxisConstraint::Both => Inset::Linear {
            dy: Decimal::zero(),
            dx: Decimal::one(),
            c: distance,
        },
        AxisConstraint::Far => Inset::Auto,
        AxisConstraint::Center => Inset::Linear {
            dy: Decimal::one(),
            dx: Decimal::from_int(2),
            c: distance.sub(extent.half()),
        },
        AxisConstraint::Scale => Inset::Linear { dy: distance, dx: extent, c: Decimal::zero() },
    }
}

fn far_inset_exec(constraint: AxisConstraint, distance: Decimal) -> (r: Inset)
    ensures
        r == far_inset(constraint, distance),
{
    match constraint {
        AxisConstraint::Far => Inset::Linear {
            dy: Decimal::zero(),
            dx: Decimal::one(),
            c: distance.neg(),
        },
        AxisConstraint::Both => Inset::Linear {
            dy: Decimal::zero(),
            dx: Decimal::one(),
            c: distance.neg(),
        },
        _ => Inset::Auto,
    }
}

fn vertical_constraint_exec(c: LayoutConstraintVertical) -> (r: AxisConstraint)
    ensures
        r == vertical_constraint(c),
{
    match c {
        LayoutConstraintVertical::Top => AxisConstraint::Near,
        LayoutConstraintVertical::Bottom => AxisConstraint::Far,
        LayoutConstraintVertical::Center => AxisConstraint::Center,
        LayoutConstraintVertical::TopBottom => AxisConstraint::Both,
        LayoutConstraintVertical::Scale => AxisConstraint::Scale,
    }
}

fn horizontal_constraint_exec(c: LayoutConstraintHorizontal) -> (r: AxisConstraint)
    ensures
        r == horizontal_constraint(c),
{
    match c {
        LayoutConstraintHorizontal::Left => AxisConstraint::Near,
        LayoutConstraintHorizontal::Right => AxisConstraint::Far,
        LayoutConstraintHorizontal::Center => AxisConstraint::Center,
        LayoutConstraintHorizontal::LeftRight => AxisConstraint::Both,
        LayoutConstraintHorizontal::Scale => AxisConstraint::Scale,
    }
}

impl Inset {
    /// Adds the inset, as it is written in CSS, at the end of `s`.
    pub fn write_to(&self, s: &mut String)
        ensures
            final(s)@ == old(s)@ + inset_text(*self),
    {
        match self {
            Inset::Auto => {
                push_text(s, "auto");
            },
            Inset::Linear { dy, dx, c } => {
                push_text(s, "calc(100% * ");
                dy.write_to(s);
                push_text(s, " / ");
                dx.write_to(s);
                push_text(s, " + ");
                c.write_to(s);
                push_text(s, "px)");
                proof {
                    assert(s@ =~= old(s)@ + inset_text(*self));
                }
            },
        }
    }

    /// The inset as it is written in CSS.
    pub fn to_css_string(&self) -> (r: String)
        ensures
            r@ == inset_text(*self),
    {
        let mut s = String::new();
        self.write_to(&mut s);
        s
    }

    /// The four insets of `node`, from the top clockwise: none where `node`
    /// has no parent, is laid out by its parent in a row or a column without
    /// being taken out of it, or where a box or the constraints are not known.
    pub fn from_figma_node(node: &Node, parent: Option<&Node>) -> (r: Option<[Inset; 4]>)
        ensures
            insets_view(r) == spec_insets(
                *node,
                match parent {
                    Some(p) => Some(*p),
                    None => None,
                },
            ),
    {
        let parent = match parent {
            Some(p) => p,
            None => {
                return None;
            },
        };
        let absolute = match node.layout_positioning {
            Some(LayoutPositioning::Absolute) => true,
            _ => false,
        };
        if parent.is_auto_layout() && !absolute {
            return None;
        }
        let parent_box = absolute_bounding_box(parent);
        let node_box = absolute_bounding_box(node);
        match (parent_box, node_box, node.constraints) {
            (
                Some(Rectangle { x: Some(px), y: Some(py), width: Some(pw), height: Some(ph) }),
                Some(Rectangle { x: Some(nx), y: Some(ny), width: Some(nw), height: Some(nh) }),
                Some(constraints),
            ) => {
                let top = ny.sub(py);
                let right = px.add(pw).sub(nx).sub(nw);
                let bottom = py.add(ph).sub(ny).sub(nh);
                let left = nx.sub(px);
                let vertical = vertical_constraint_exec(constraints.vertical);
                let horizontal = horizontal_constraint_exec(constraints.horizontal);
                let insets = [
                    near_inset_exec(vertical, top, ph),
                    far_inset_exec(horizontal, right),
                    far_inset_exec(vertical, bottom),
                    near_inset_exec(horizontal, left, pw),
                ];
                proof {
                    assert(insets@ =~= insets_in(*node, *parent).unwrap());
                }
                Some(insets)
            },
            _ => None,
        }
    }
}

} // verus!
