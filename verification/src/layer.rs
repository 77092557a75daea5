//! Collision layers. The root part of a body is even; every part attached
//! to it is odd, then even, then odd again. Even parts collide only with even
//! parts and the ground, odd parts only with odd parts and the ground, so a
//! part never collides with the part it is jointed to.
use vstd::prelude::*;

verus! {

/// The physics layers of the simulation.
#[derive(Clone, Copy, Debug, PartialEq, Eq, Structural)]
pub enum Layer {
    Ground,
    Part,
    PartEven,
    PartOdd,
}

impl Default for Layer {
    fn default() -> (layer: Layer)
        ensures
            layer == Layer::Part,
    {
        Layer::Part
    }
}

/// The layer of a part at the given depth below the root of its body.
pub open spec fn spec_part_layer(depth: nat) -> Layer {
    if depth % 2 == 0 {
        Layer::PartEven
    } else {
        Layer::PartOdd
    }
}

/// The layer of a part at the given depth below the root of its body.
pub fn part_layer(depth: usize) -> (layer: Layer)
    ensures
        layer == spec_part_layer(depth as nat),
        depth % 2 == 0 ==> layer == Layer::PartEven,
        depth % 2 == 1 ==> layer == Layer::PartOdd,
{
    if depth % 2 == 0 {
        Layer::PartEven
    } else {
        Layer::PartOdd
    }
}


/// The layers an object belongs to and the layers it accepts contacts from.
#[derive(Debug)]
pub struct CollisionGroups {
    pub memberships: Vec<Layer>,
    pub filters: Vec<Layer>,
}

/// The mathematical content of [`CollisionGroups`].
pub struct CollisionModel {
    pub memberships: Seq<Layer>,
    pub filters: Seq<Layer>,
}

impl View for CollisionGroups {
    type V = CollisionModel;

    open spec fn view(&self) -> CollisionModel {
        CollisionModel { memberships: self.memberships@, filters: self.filters@ }
    }
}

/// Whether `a` lists, among the layers it accepts, a layer that `b` belongs to.
pub open spec fn accepts(a: CollisionModel, b: CollisionModel) -> bool {
    exists|l: Layer| #[trigger] a.filters.contains(l) && b.memberships.contains(l)
}

/// The collision groups of a part at the given depth below the root.
pub open spec fn spec_part_groups(depth: nat) -> CollisionModel {
    CollisionModel {
        memberships: seq![spec_part_layer(depth)],
        filters: seq![Layer::Ground, spec_part_layer(depth)],
    }
}

/// The collision groups of the ground.
pub open spec fn spec_ground_groups() -> CollisionModel {
    CollisionModel {
        memberships: seq![Layer::Ground],
        filters: seq![Layer::Part, Layer::PartEven, Layer::PartOdd],
    }
}

/// The collision groups of a part at the given depth below the root: it
/// belongs to its parity layer and accepts the ground and its parity layer.
pub fn part_collision_groups(depth: usize) -> (groups: CollisionGroups)
    ensures
        groups@ == spec_part_groups(depth as nat),
        groups.memberships@.len() == 1,
        groups.memberships@[0] == (if depth % 2 == 0 {
            Layer::PartEven
        } else {
            Layer::PartOdd
        }),
        groups.filters@.len() == 2,
        groups.filters@[0] == Layer::Ground,
        groups.filters@[1] == (if depth % 2 == 0 {
            Layer::PartEven
        } else {
            Layer::PartOdd
        }),
        forall|l: Layer|
            groups.filters@.contains(l) <==> (l == Layer::Ground || l == (if depth % 2 == 0 {
                Layer::PartEven
            } else {
                Layer::PartOdd
            })),
        forall|l: Layer|
            groups.memberships@.contains(l) <==> l == (if depth % 2 == 0 {
                Layer::PartEven
            } else {
                Layer::PartOdd
            }),
{
    let layer = part_layer(depth);
    let groups = CollisionGroups { memberships: vec![layer], filters: vec![Layer::Ground, layer] };
    assert(groups.memberships@ =~= seq![layer]);
    assert(groups.filters@ =~= seq![Layer::Ground, layer]);
    proof {
        lemma_part_groups_contents(depth as nat);
    }
    groups
}

/// The collision groups of the ground: it belongs to the ground layer and
/// accepts every part layer.
pub fn ground_collision_groups() -> (groups: CollisionGroups)
    ensures
        groups@ == spec_ground_groups(),
        groups.memberships@ == seq![Layer::Ground],
        groups.filters@ == seq![Layer::Part, Layer::PartEven, Layer::PartOdd],
{
    let groups = CollisionGroups {
        memberships: vec![Layer::Ground],
        filters: vec![Layer::Part, Layer::PartEven, Layer::PartOdd],
    };
    assert(groups.memberships@ =~= seq![Layer::Ground]);
    assert(groups.filters@ =~= seq![Layer::Part, Layer::PartEven, Layer::PartOdd]);
    groups
}

/// A part belongs to exactly one layer, its parity layer (even at even
/// depths, odd at odd depths), and accepts contacts from exactly two layers:
/// the ground and its parity layer. In particular it never accepts the default
/// part layer, nor the layer of the other parity.
pub proof fn lemma_part_groups_contents(depth: nat)
    ensures
        spec_part_groups(depth).memberships.len() == 1,
        spec_part_groups(depth).filters.len() == 2,
        spec_part_groups(depth).filters[0] == Layer::Ground,
        forall|l: Layer|
            #[trigger] spec_part_groups(depth).filters.contains(l) <==> (l == Layer::Ground || l == (
            if depth % 2 == 0 {
                Layer::PartEven
            } else {
                Layer::PartOdd
            })),
        forall|l: Layer|
            #[trigger] spec_part_groups(depth).memberships.contains(l) <==> l == (if depth % 2
                == 0 {
                Layer::PartEven
            } else {
                Layer::PartOdd
            }),
        !spec_part_groups(depth).filters.contains(Layer::Part),
{
    let g = spec_part_groups(depth);
    let p = if depth % 2 == 0 {
        Layer::PartEven
    } else {
        Layer::PartOdd
    };
    assert(g.filters[0] == Layer::Ground && g.filters[1] == p);
    assert(g.memberships[0] == p);
    assert forall|l: Layer| g.filters.contains(l) <==> (l == Layer::Ground || l == p) by {
        if l == Layer::Ground {
            assert(g.filters[0] == l);
        }
        if l == p {
            assert(g.filters[1] == l);
        }
    }
    assert forall|l: Layer| g.memberships.contains(l) <==> l == p by {
        if l == p {
            assert(g.memberships[0] == l);
        }
    }
}

/// The ground belongs to the ground layer only, and accepts contacts from
/// every part layer but not from the ground.
pub proof fn lemma_ground_groups_contents()
    ensures
        spec_ground_groups().memberships == seq![Layer::Ground],
        forall|l: Layer|
            #[trigger] spec_ground_groups().filters.contains(l) <==> l != Layer::Ground,
{
    let g = spec_ground_groups();
    assert forall|l: Layer| g.filters.contains(l) <==> l != Layer::Ground by {
        match l {
            Layer::Part => assert(g.filters[0] == l),
            Layer::PartEven => assert(g.filters[1] == l),
            Layer::PartOdd => assert(g.filters[2] == l),
            Layer::Ground => {},
        }
    }
}

/// A part and a part attached directly to it lie on different layers, and
/// neither accepts contacts from the other.
pub proof fn lemma_adjacent_parts_do_not_collide(depth: nat)
    ensures
        spec_part_layer(depth) != spec_part_layer(depth + 1),
        !accepts(spec_part_groups(depth), spec_part_groups(depth + 1)),
        !accepts(spec_part_groups(depth + 1), spec_part_groups(depth)),
{
    let a = spec_part_groups(depth);
    let b = spec_part_groups(depth + 1);
    assert forall|l: Layer| a.filters.contains(l) implies !b.memberships.contains(l) by {
        if b.memberships.contains(l) {
            let i = choose|i: int| 0 <= i < b.memberships.len() && b.memberships[i] == l;
            let j = choose|j: int| 0 <= j < a.filters.len() && a.filters[j] == l;
            assert(i == 0);
        }
    }
    assert forall|l: Layer| b.filters.contains(l) implies !a.memberships.contains(l) by {
        if a.memberships.contains(l) {
            let i = choose|i: int| 0 <= i < a.memberships.len() && a.memberships[i] == l;
            let j = choose|j: int| 0 <= j < b.filters.len() && b.filters[j] == l;
            assert(i == 0);
        }
    }
}

/// Two parts whose depths have the same parity accept contacts from each other.
pub proof fn lemma_same_parity_parts_collide(d1: nat, d2: nat)
    requires
        d1 % 2 == d2 % 2,
    ensures
        spec_part_layer(d1) == spec_part_layer(d2),
        accepts(spec_part_groups(d1), spec_part_groups(d2)),
        accepts(spec_part_groups(d2), spec_part_groups(d1)),
{
    let l = spec_part_layer(d1);
    let a = spec_part_groups(d1);
    let b = spec_part_groups(d2);
    assert(a.filters[1] == l && a.filters.contains(l));
    assert(b.memberships[0] == l && b.memberships.contains(l));
    assert(b.filters[1] == l && b.filters.contains(l));
    assert(a.memberships[0] == l && a.memberships.contains(l));
}

/// The ground and every part accept contacts from each other.
pub proof fn lemma_ground_and_parts_collide(depth: nat)
    ensures
        accepts(spec_ground_groups(), spec_part_groups(depth)),
        accepts(spec_part_groups(depth), spec_ground_groups()),
{
    let p = spec_part_groups(depth);
    let g = spec_ground_groups();
    let l = spec_part_layer(depth);
    assert(p.memberships[0] == l && p.memberships.contains(l));
    if depth % 2 == 0 {
        assert(g.filters[1] == l);
    } else {
        assert(g.filters[2] == l);
    }
    assert(g.filters.contains(l));
    assert(p.filters[0] == Layer::Ground && p.filters.contains(Layer::Ground));
    assert(g.memberships[0] == Layer::Ground && g.memberships.contains(Layer::Ground));
}

} // verus!
