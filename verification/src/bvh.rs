use vstd::prelude::*;

use crate::bounds::{lemma_slab_complete, union_spec, Bounds3};
use crate::domain::{Axis, Intersection, Ray};
use crate::rat::{frac_le, lemma_frac_le_trans, Rat};
use crate::triangle::{lemma_tri_hit_in_box, mt_det, mt_tnum, tri_hits, valid_tri_sample,
    Triangle};

verus! {

/// Largest primitive count a BVH accepts; keeps the total area within
/// the exact rational denominators.
pub const MAX_PRIMS: usize = 1_200_000;

pub open spec fn all_wf(tris: Seq<Triangle>) -> bool {
    forall|i: int| 0 <= i < tris.len() ==> (#[trigger] tris[i]).wf()
}

/// Each primitive records its own arena index as its identity.
pub open spec fn indexed(tris: Seq<Triangle>) -> bool {
    forall|i: int| 0 <= i < tris.len() ==> (#[trigger] tris[i]).id == i
}

/// The sort key of a primitive along an axis: twice the centre
/// coordinate of its box (the sum of the box corners).
pub open spec fn ckey(tris: Seq<Triangle>, id: int, axis: Axis) -> int {
    crate::domain::axis_of(tris[id].bounds_spec().p_min@, axis) + crate::domain::axis_of(
        tris[id].bounds_spec().p_max@, axis)
}

/// The listed primitives appear in nondecreasing key order.
pub open spec fn sorted_by_center(tris: Seq<Triangle>, ids: Seq<usize>, axis: Axis) -> bool {
    forall|a: int, b: int|
        0 <= a < b < ids.len() ==> ckey(tris, #[trigger] ids[a] as int, axis) <= ckey(tris,
            #[trigger] ids[b] as int, axis)
}

/// Left fold of the primitives' boxes, starting from the empty box:
/// the enclosing bounds the splitter measures.
pub open spec fn fold_bounds(tris: Seq<Triangle>, ids: Seq<usize>, k: int) -> Bounds3
    decreases k,
{
    if k <= 0 {
        Bounds3::empty_spec()
    } else {
        union_spec(fold_bounds(tris, ids, k - 1), tris[ids[k - 1] as int].bounds_spec())
    }
}

/// Sum of the (doubled) areas of the listed primitives.
pub open spec fn sum_area2(tris: Seq<Triangle>, ids: Seq<usize>) -> int
    decreases ids.len(),
{
    if ids.len() == 0 {
        0
    } else {
        tris[ids[0] as int].area2 + sum_area2(tris, ids.drop_first())
    }
}

proof fn lemma_sum_concat(tris: Seq<Triangle>, a: Seq<usize>, b: Seq<usize>)
    ensures
        sum_area2(tris, a + b) == sum_area2(tris, a) + sum_area2(tris, b),
    decreases a.len(),
{
    if a.len() == 0 {
        assert(a + b =~= b);
    } else {
        assert((a + b).drop_first() =~= a.drop_first() + b);
        lemma_sum_concat(tris, a.drop_first(), b);
    }
}


/// A node of the hierarchy: either a leaf owning one primitive or an
/// interior node with two children.  Every node carries the box and the
/// total (doubled) area of its subtree.
pub enum BVHNode {
    Leaf { bounds: Bounds3, area2: u128, prim: usize },
    Node {
        bounds: Bounds3,
        area2: u128,
        split_axis: Axis,
        left: Box<BVHNode>,
        right: Box<BVHNode>,
    },
}

impl BVHNode {
    pub open spec fn bounds(self) -> Bounds3 {
        match self {
            BVHNode::Leaf { bounds, .. } => bounds,
            BVHNode::Node { bounds, .. } => bounds,
        }
    }

    pub open spec fn area2(self) -> int {
        match self {
            BVHNode::Leaf { area2, .. } => area2 as int,
            BVHNode::Node { area2, .. } => area2 as int,
        }
    }

    /// The primitive indices of the subtree, left to right.
    pub open spec fn ids(self) -> Seq<usize>
        decreases self,
    {
        match self {
            BVHNode::Leaf { prim, .. } => seq![prim],
            BVHNode::Node { left, right, .. } => left.ids() + right.ids(),
        }
    }

    /// Structural invariant: leaves hold their primitive's exact box and
    /// doubled area; interior boxes are the union of the children's and
    /// interior areas their sum.
    pub open spec fn wf(self, tris: Seq<Triangle>) -> bool
        decreases self,
    {
        match self {
            BVHNode::Leaf { bounds, area2, prim } => {
                &&& prim < tris.len()
                &&& bounds.wf()
                &&& bounds == tris[prim as int].bounds_spec()
                &&& area2 == tris[prim as int].area2
            },
            BVHNode::Node { bounds, area2, left, right, .. } => {
                &&& left.wf(tris)
                &&& right.wf(tris)
                &&& bounds.wf()
                &&& bounds == union_spec(left.bounds(), right.bounds())
                &&& area2 == left.area2() + right.area2()
            },
        }
    }
}

/// The node's box contains the three vertices of every primitive of its
/// subtree: the heart of why pruning by bounds is safe.
pub proof fn lemma_node_contains(node: BVHNode, tris: Seq<Triangle>, j: int)
    requires
        node.wf(tris),
        all_wf(tris),
        0 <= j < node.ids().len(),
    ensures
        node.ids()[j] < tris.len(),
        node.bounds().contains_point(tris[node.ids()[j] as int].v0@),
        node.bounds().contains_point(tris[node.ids()[j] as int].v1@),
        node.bounds().contains_point(tris[node.ids()[j] as int].v2@),
        node.area2() == sum_area2(tris, node.ids()),
    decreases node,
{
    match node {
        BVHNode::Leaf { bounds, prim, .. } => {
            assert(node.ids() =~= seq![prim]);
            assert(node.ids()[0] == prim);
            assert(node.ids().drop_first() =~= Seq::<usize>::empty());
            assert(sum_area2(tris, Seq::<usize>::empty()) == 0);
        },
        BVHNode::Node { bounds, left, right, .. } => {
            let n = left.ids().len() as int;
            if 0 < left.ids().len() {
                lemma_node_contains(*left, tris, 0);
            } else {
                lemma_node_sum(*left, tris);
            }
            if 0 < right.ids().len() {
                lemma_node_contains(*right, tris, 0);
            } else {
                lemma_node_sum(*right, tris);
            }
            if j < n {
                lemma_node_contains(*left, tris, j);
            } else {
                lemma_node_contains(*right, tris, j - n);
            }
            lemma_sum_concat(tris, left.ids(), right.ids());
        },
    }
}

/// A well-formed node's area is the sum over its subtree.
pub proof fn lemma_node_sum(node: BVHNode, tris: Seq<Triangle>)
    requires
        node.wf(tris),
    ensures
        node.area2() == sum_area2(tris, node.ids()),
    decreases node,
{
    match node {
        BVHNode::Leaf { prim, .. } => {
            assert(node.ids() =~= seq![prim]);
            assert(node.ids()[0] == prim);
            assert(node.ids().drop_first() =~= Seq::<usize>::empty());
            assert(sum_area2(tris, Seq::<usize>::empty()) == 0);
        },
        BVHNode::Node { left, right, .. } => {
            lemma_node_sum(*left, tris);
            lemma_node_sum(*right, tris);
            lemma_sum_concat(tris, left.ids(), right.ids());
        },
    }
}

/// Bounding-volume hierarchy over a list of triangle primitives, built
/// top-down by median split along the widest axis.
pub struct BVH {
    pub primitives: Vec<Triangle>,
    pub root: Option<Box<BVHNode>>,
}

impl BVH {
    /// The structural invariant of a built hierarchy: the root covers
    /// exactly the primitive indices, its box bounds every primitive and
    /// its area is the exact sum of primitive areas.
    pub open spec fn wf(self) -> bool {
        &&& all_wf(self.primitives@)
        &&& indexed(self.primitives@)
        &&& self.primitives@.len() <= MAX_PRIMS
        &&& match self.root {
            Some(r) => {
                &&& r.wf(self.primitives@)
                &&& r.area2() <= 6_000_000_000_000_000_000
                &&& forall|id: usize| r.ids().contains(id) <==> id < self.primitives@.len()
            },
            None => true,
        }
    }

    pub open spec fn built(self) -> bool {
        self.root is Some
    }

    pub open spec fn root_spec(self) -> BVHNode
        recommends
            self.built(),
    {
        match self.root {
            Some(r) => *r,
            None => BVHNode::Leaf {
                bounds: Bounds3::empty_spec(),
                area2: 0,
                prim: 0,
            },
        }
    }

    pub fn new(primitives: Vec<Triangle>) -> (b: BVH)
        requires
            all_wf(primitives@),
            indexed(primitives@),
            primitives@.len() <= MAX_PRIMS,
        ensures
            b.wf(),
            !b.built(),
            b.primitives == primitives,
    {
        BVH { root: None, primitives }
    }

    /// Build the hierarchy.  Afterwards the root box bounds every
    /// primitive's box and the root area is exactly the sum of all
    /// primitive areas.
    pub fn build(&mut self)
        requires
            old(self).wf(),
            old(self).primitives@.len() >= 1,
        ensures
            final(self).wf(),
            final(self).built(),
            final(self).primitives == old(self).primitives,
            final(self).root_spec().area2() == sum_area2(final(self).primitives@,
                final(self).root_spec().ids()),
    {
        let n = self.primitives.len();
        let mut ids: Vec<usize> = Vec::new();
        let mut i: usize = 0;
        while i < n
            invariant
                i <= n,
                ids@.len() == i,
                forall|k: int| 0 <= k < i ==> ids@[k] == k,
            decreases n - i,
        {
            ids.push(i);
            i = i + 1;
        }
        let ghost built_ids = ids@;
        let root = Self::build_recursively(&self.primitives, ids);
        proof {
            broadcast use vstd::seq_lib::group_to_multiset_ensures;

            let tris = self.primitives@;
            assert forall|id: usize| root.ids().contains(id) <==> id < tris.len() by {
                if root.ids().contains(id) {
                    assert(root.ids().to_multiset().count(id) > 0);
                    assert(built_ids.to_multiset().count(id) > 0);
                    assert(built_ids.contains(id));
                    let k = choose|k: int| 0 <= k < built_ids.len() && built_ids[k] == id;
                    assert(built_ids[k] == k);
                }
                if id < tris.len() {
                    assert(built_ids[id as int] == id);
                    assert(built_ids.contains(id));
                    assert(built_ids.to_multiset().count(id) > 0);
                    assert(root.ids().to_multiset().count(id) > 0);
                }
            }
            lemma_node_sum(*root, tris);
            lemma_area_cap(root.area2() as int, built_ids.len() as int);
        }
        self.root = Some(root);
    }

    fn build_recursively(tris: &Vec<Triangle>, ids: Vec<usize>) -> (n: Box<BVHNode>)
        requires
            all_wf(tris@),
            tris@.len() <= MAX_PRIMS,
            ids@.len() >= 1,
            forall|i: int| 0 <= i < ids@.len() ==> (#[trigger] ids@[i]) < tris@.len(),
        ensures
            n.wf(tris@),
            n.ids().to_multiset() == ids@.to_multiset(),
            n.area2() <= 5_000_000_000_000 * ids@.len(),
            ids@.len() > 2 ==> (*n matches BVHNode::Node { split_axis, left, right, .. }
                && split_axis == fold_bounds(tris@, ids@,
                ids@.len() as int).max_extent_axis_spec() && (exists|srt: Seq<usize>|
                srt.to_multiset() == ids@.to_multiset() && srt.len() == ids@.len()
                    && sorted_by_center(tris@, srt, split_axis) && left.ids().to_multiset()
                    == srt.subrange(0, (ids@.len() / 2) as int).to_multiset()
                    && right.ids().to_multiset() == srt.subrange((ids@.len() / 2) as int,
                    srt.len() as int).to_multiset())),
        decreases ids@.len(),
    {
        proof {
            broadcast use vstd::seq_lib::group_to_multiset_ensures;
        }
        let n_objs = ids.len();
        if n_objs == 1 {
            let id = ids[0];
            let t = &tris[id];
            let node = Box::new(BVHNode::Leaf {
                bounds: t.get_bounds(),
                area2: t.get_area() as u128,
                prim: id,
            });
            proof {
                assert(node.ids() =~= seq![id]);
                assert(ids@ =~= seq![id]);
            }
            node
        } else {
            let mut sorted = ids;
            let mut axis = Axis::X;
            let ghost had_sort = n_objs > 2;
            if n_objs > 2 {
                let mut max_bounds = Bounds3::zero();
                let mut k: usize = 0;
                while k < sorted.len()
                    invariant
                        all_wf(tris@),
                        forall|i: int| 0 <= i < sorted@.len() ==> (#[trigger] sorted@[i])
                            < tris@.len(),
                        k <= sorted@.len(),
                        max_bounds.wf(),
                        max_bounds == fold_bounds(tris@, sorted@, k as int),
                    decreases sorted@.len() - k,
                {
                    let b = tris[sorted[k]].get_bounds();
                    max_bounds.union(&b);
                    k = k + 1;
                }
                axis = max_bounds.max_extent_axis();
                sorted = Self::sort_by_center(tris, sorted, axis);
            }
            let ghost split_axis_g = axis;
            let ghost sorted_g = sorted@;
            let middle = sorted.len() / 2;
            let mut left_ids: Vec<usize> = Vec::new();
            let mut right_ids: Vec<usize> = Vec::new();
            let mut k: usize = 0;
            while k < middle
                invariant
                    k <= middle,
                    middle < sorted@.len(),
                    left_ids@ =~= sorted@.subrange(0, k as int),
                    forall|i: int| 0 <= i < sorted@.len() ==> (#[trigger] sorted@[i])
                        < tris@.len(),
                decreases middle - k,
            {
                left_ids.push(sorted[k]);
                k = k + 1;
            }
            while k < sorted.len()
                invariant
                    middle <= k <= sorted@.len(),
                    left_ids@ =~= sorted@.subrange(0, middle as int),
                    right_ids@ =~= sorted@.subrange(middle as int, k as int),
                    forall|i: int| 0 <= i < sorted@.len() ==> (#[trigger] sorted@[i])
                        < tris@.len(),
                decreases sorted@.len() - k,
            {
                right_ids.push(sorted[k]);
                k = k + 1;
            }
            proof {
                assert(sorted@ =~= left_ids@ + right_ids@);
            }
            let ghost sorted_seq = sorted@;
            let left = Self::build_recursively(tris, left_ids);
            let right = Self::build_recursively(tris, right_ids);
            let bounds = Bounds3::union2(left.bounds_exec(), right.bounds_exec());
            let area2 = left.area2_exec() + right.area2_exec();
            let node = Box::new(BVHNode::Node { bounds, area2, split_axis: axis, left, right });
            proof {
                let m = (sorted_seq.len() / 2) as int;
                let sl = sorted_seq.subrange(0, m);
                let sr = sorted_seq.subrange(m, sorted_seq.len() as int);
                assert(node.ids() =~= left.ids() + right.ids());
                lemma_concat_multisets(left.ids(), right.ids(), sl, sr);
                assert(sl + sr =~= sorted_seq);
                assert(node.ids().to_multiset() == ids@.to_multiset());
                if had_sort {
                    assert(sorted_g.to_multiset() == ids@.to_multiset() && sorted_g.len()
                        == ids@.len() && sorted_by_center(tris@, sorted_g, split_axis_g)
                        && left.ids().to_multiset() == sorted_g.subrange(0,
                        (ids@.len() / 2) as int).to_multiset() && right.ids().to_multiset()
                        == sorted_g.subrange((ids@.len() / 2) as int,
                        sorted_g.len() as int).to_multiset());
                }
            }
            node
        }
    }

    /// Selection sort of the primitive indices by the centre of their
    /// boxes along an axis; the result is the same collection of indices.
    fn sort_by_center(tris: &Vec<Triangle>, ids: Vec<usize>, axis: Axis) -> (out: Vec<usize>)
        requires
            all_wf(tris@),
            forall|i: int| 0 <= i < ids@.len() ==> (#[trigger] ids@[i]) < tris@.len(),
        ensures
            out@.to_multiset() == ids@.to_multiset(),
            out@.len() == ids@.len(),
            forall|i: int| 0 <= i < out@.len() ==> (#[trigger] out@[i]) < tris@.len(),
            sorted_by_center(tris@, out@, axis),
    {
        proof {
            broadcast use vstd::seq_lib::group_to_multiset_ensures;
        }
        let mut remaining = ids;
        let mut out: Vec<usize> = Vec::new();
        let ghost orig = remaining@;
        while remaining.len() > 0
            invariant
                all_wf(tris@),
                forall|i: int| 0 <= i < remaining@.len() ==> (#[trigger] remaining@[i])
                    < tris@.len(),
                forall|i: int| 0 <= i < out@.len() ==> (#[trigger] out@[i]) < tris@.len(),
                out@.to_multiset().add(remaining@.to_multiset()) == orig.to_multiset(),
                out@.len() + remaining@.len() == orig.len(),
                sorted_by_center(tris@, out@, axis),
                forall|a: int, r: int|
                    0 <= a < out@.len() && 0 <= r < remaining@.len() ==> ckey(tris@,
                        #[trigger] out@[a] as int, axis) <= ckey(tris@,
                        #[trigger] remaining@[r] as int, axis),
            decreases remaining@.len(),
        {
            proof {
                broadcast use vstd::seq_lib::group_to_multiset_ensures;
            }
            let mut m: usize = 0;
            let mut j: usize = 1;
            let mkey = Self::center_key(tris, remaining[0], axis);
            let mut best = mkey;
            while j < remaining.len()
                invariant
                    forall|i: int| 0 <= i < remaining@.len() ==> (#[trigger] remaining@[i])
                        < tris@.len(),
                    all_wf(tris@),
                    remaining@.len() > 0,
                    m < remaining@.len(),
                    j <= remaining@.len(),
                    best == ckey(tris@, remaining@[m as int] as int, axis),
                    forall|r: int| 0 <= r < j ==> best <= ckey(tris@,
                        #[trigger] remaining@[r] as int, axis),
                decreases remaining@.len() - j,
            {
                let key = Self::center_key(tris, remaining[j], axis);
                if key < best {
                    best = key;
                    m = j;
                }
                j = j + 1;
            }
            let ghost pre = remaining@;
            let ghost mm = m as int;
            let v = remaining.remove(m);
            out.push(v);
            proof {
                broadcast use vstd::seq_lib::group_to_multiset_ensures;

                assert(out@.to_multiset().add(remaining@.to_multiset()) == orig.to_multiset());
                assert forall|a: int, r: int|
                    0 <= a < out@.len() && 0 <= r < remaining@.len() implies ckey(tris@,
                    #[trigger] out@[a] as int, axis) <= ckey(tris@,
                    #[trigger] remaining@[r] as int, axis) by {
                    if r < mm {
                        assert(remaining@[r] == pre[r]);
                    } else {
                        assert(remaining@[r] == pre[r + 1]);
                    }
                    if a < out@.len() - 1 {
                    } else {
                        assert(out@[a] == pre[mm]);
                    }
                }
            }
        }
        out
    }

    /// Twice the centre coordinate of a primitive's box along an axis.
    fn center_key(tris: &Vec<Triangle>, id: usize, axis: Axis) -> (k: i64)
        requires
            all_wf(tris@),
            id < tris@.len(),
        ensures
            k == ckey(tris@, id as int, axis),
    {
        let b = tris[id].get_bounds();
        match axis {
            Axis::X => b.p_min.x + b.p_max.x,
            Axis::Y => b.p_min.y + b.p_max.y,
            Axis::Z => b.p_min.z + b.p_max.z,
            Axis::Nil => 0,
        }
    }

    /// Closest-hit query.  Exactly the linear-scan semantics: a hit is
    /// returned iff some primitive is hit, the returned record belongs to
    /// a genuinely hit primitive, and its exact distance is a lower bound
    /// of every hit primitive's distance.
    pub fn intersect(&self, ray: &Ray) -> (res: Intersection)
        requires
            self.wf(),
            ray.wf(),
        ensures
            res.wf(),
            !self.built() ==> !res.hit && res.distance is None && res.obj is None
                && res.material is None,
            res.hit ==> res.coords.bounded(601_000) && res.normal.bounded(3_000_000_000_000)
                && (res.obj matches Some(id) && res.material == Some(
            self.primitives@[id as int].material)),
            self.built() ==> {
                &&& (res.hit <==> exists|i: int|
                    0 <= i < self.primitives@.len() && tri_hits(self.primitives@[i], *ray))
                &&& res.hit ==> (res.obj matches Some(id) && id < self.primitives@.len()
                    && tri_hits(self.primitives@[id as int], *ray) && (res.distance matches Some(
                d) && d.wf() && d.num == mt_tnum(self.primitives@[id as int], *ray) && d.den
                    == mt_det(self.primitives@[id as int], *ray) && forall|i: int|
                    0 <= i < self.primitives@.len() && tri_hits(self.primitives@[i], *ray)
                        ==> frac_le(d.num as int, d.den as int, mt_tnum(self.primitives@[i],
                        *ray), mt_det(self.primitives@[i], *ray))))
            },
    {
        match &self.root {
            None => Intersection::new(),
            Some(r) => {
                let res = Self::intersect_internal(&self.primitives, r, ray);
                proof {
                    let tris = self.primitives@;
                    let rids = r.ids();
                    assert forall|i: int|
                        0 <= i < tris.len() && tri_hits(tris[i], *ray) implies exists|j: int|
                        0 <= j < rids.len() && tri_hits(tris[(#[trigger] rids[j]) as int],
                            *ray) by {
                        assert(rids.contains(i as usize));
                        let j = choose|j: int| 0 <= j < rids.len() && rids[j] == i as usize;
                        assert(tri_hits(tris[rids[j] as int], *ray));
                    }
                    if res.hit {
                        let d = res.distance->Some_0;
                        assert forall|i: int|
                            0 <= i < tris.len() && tri_hits(tris[i], *ray) implies frac_le(
                            d.num as int, d.den as int, mt_tnum(tris[i], *ray), mt_det(tris[i],
                                *ray)) by {
                            assert(rids.contains(i as usize));
                            let j = choose|j: int| 0 <= j < rids.len() && rids[j] == i as usize;
                            assert(tri_hits(tris[rids[j] as int], *ray));
                        }
                    }
                }
                res
            },
        }
    }

    fn intersect_internal(tris: &Vec<Triangle>, node: &BVHNode, ray: &Ray) -> (res: Intersection)
        requires
            all_wf(tris@),
            indexed(tris@),
            node.wf(tris@),
            ray.wf(),
        ensures
            res.wf(),
            node_result(tris@, node.ids(), *ray, res),
        decreases *node,
    {
        let bounds = match node {
            BVHNode::Leaf { bounds, .. } => bounds,
            BVHNode::Node { bounds, .. } => bounds,
        };
        if !bounds.intersect(ray) {
            proof {
                assert forall|j: int|
                    0 <= j < node.ids().len() implies !tri_hits(tris@[node.ids()[j] as int],
                    *ray) by {
                    lemma_node_contains(*node, tris@, j);
                    let t = tris@[node.ids()[j] as int];
                    if tri_hits(t, *ray) {
                        lemma_tri_hit_in_box(t, *ray, node.bounds());
                        lemma_slab_complete(node.bounds(), *ray, mt_tnum(t, *ray), mt_det(t,
                            *ray));
                    }
                }
            }
            return Intersection::new();
        }
        match node {
            BVHNode::Leaf { prim, .. } => {
                let res = tris[*prim].intersect(ray);
                proof {
                    assert(node.ids() =~= seq![*prim]);
                    assert(node.ids()[0] == *prim);
                    assert(node.ids().contains(*prim));
                    if res.hit {
                        assert(tri_hits(tris@[node.ids()[0] as int], *ray));
                        assert(res.obj == Some(*prim));
                        let d = res.distance->Some_0;
                        assert forall|j: int|
                            0 <= j < node.ids().len() && tri_hits(tris@[node.ids()[j] as int],
                                *ray) implies frac_le(d.num as int, d.den as int, mt_tnum(
                            tris@[node.ids()[j] as int], *ray), mt_det(
                            tris@[node.ids()[j] as int], *ray)) by {
                            assert(node.ids()[j] == *prim);
                        }
                    } else {
                        assert forall|j: int|
                            0 <= j < node.ids().len() implies !tri_hits(
                            tris@[node.ids()[j] as int], *ray) by {
                            assert(node.ids()[j] == *prim);
                        }
                    }
                }
                res
            },
            BVHNode::Node { left, right, .. } => {
                let l = Self::intersect_internal(tris, left, ray);
                let r = Self::intersect_internal(tris, right, ray);
                proof {
                    assert(node.ids() =~= left.ids() + right.ids());
                }
                let res = match (&l.distance, &r.distance) {
                    (None, None) => r,
                    (Some(_), None) => l,
                    (None, Some(_)) => r,
                    (Some(a), Some(b)) => {
                        if a.lt(b) {
                            l
                        } else {
                            r
                        }
                    },
                };
                proof {
                    lemma_combine(tris@, *ray, left.ids(), right.ids(), l, r, res);
                }
                res
            },
        }
    }

    /// Area-weighted sample of one primitive: the returned point is a
    /// uniform-area sample of some primitive of the tree, and the pdf is
    /// exactly one over the total area (`2 / area2` of the root).
    pub fn sample(&self) -> (res: (Intersection, Rat))
        requires
            self.wf(),
            self.built(),
            self.root_spec().area2() >= 1,
        ensures
            res.0.hit,
            res.0.wf(),
            sample_from(self.primitives@, self.root_spec().ids(), res.0),
            res.1.num == 2 && res.1.den == self.root_spec().area2(),
    {
        let root = self.root.as_ref().unwrap();
        let total = root.area2_exec();
        let u = crate::random::sample_unit();
        proof {
            assert((u as u128) * total <= 6_000_000_000_000_000_000_000u128) by (nonlinear_arith)
                requires
                    0 <= u <= 1000,
                    total <= 6_000_000_000_000_000_000u128,
            ;
        }
        let scaled = (u as u128) * total / 1000;
        proof {
            assert(scaled <= total) by (nonlinear_arith)
                requires
                    scaled == (u as u128) * total / 1000,
                    0 <= u <= 1000,
            ;
            assert(scaled * total < 0x4000_0000_0000_0000_0000_0000_0000_0000u128)
                by (nonlinear_arith)
                requires
                    scaled <= total,
                    total <= 6_000_000_000_000_000_000u128,
            ;
        }
        let p = crate::math::Math::isqrt(scaled * total);
        let inter = Self::get_sample(&self.primitives, root, p);
        let pdf = Rat::new(2, total as i128);
        (inter, pdf)
    }

    #[verifier::rlimit(100)]
    fn get_sample(tris: &Vec<Triangle>, node: &BVHNode, p: u128) -> (inter: Intersection)
        requires
            all_wf(tris@),
            node.wf(tris@),
        ensures
            inter.hit,
            inter.wf(),
            sample_from(tris@, node.ids(), inter),
        decreases *node,
    {
        match node {
            BVHNode::Leaf { prim, .. } => {
                let (inter, _pdf) = tris[*prim].sample();
                proof {
                    assert(node.ids() =~= seq![*prim]);
                    assert(node.ids()[0] == *prim);
                }
                inter
            },
            BVHNode::Node { left, right, .. } => {
                let la = left.area2_exec();
                let inter = if p < la {
                    let inter = Self::get_sample(tris, left, p);
                    proof {
                        assert(node.ids() =~= left.ids() + right.ids());
                        lemma_sample_lift_left(tris@, left.ids(), right.ids(), inter);
                    }
                    inter
                } else {
                    let inter = Self::get_sample(tris, right, p - la);
                    proof {
                        assert(node.ids() =~= left.ids() + right.ids());
                        lemma_sample_lift_right(tris@, left.ids(), right.ids(), inter);
                    }
                    inter
                };
                inter
            },
        }
    }
}

impl BVHNode {
    fn bounds_exec(&self) -> (b: &Bounds3)
        ensures
            *b == self.bounds(),
    {
        match self {
            BVHNode::Leaf { bounds, .. } => bounds,
            BVHNode::Node { bounds, .. } => bounds,
        }
    }

    fn area2_exec(&self) -> (a: u128)
        ensures
            a as int == self.area2(),
    {
        match self {
            BVHNode::Leaf { area2, .. } => *area2,
            BVHNode::Node { area2, .. } => *area2,
        }
    }
}

/// Adding equal multisets of two concatenations.
proof fn lemma_concat_multisets(a: Seq<usize>, b: Seq<usize>, c: Seq<usize>, d: Seq<usize>)
    requires
        a.to_multiset() == c.to_multiset(),
        b.to_multiset() == d.to_multiset(),
    ensures
        (a + b).to_multiset() == (c + d).to_multiset(),
{
    vstd::seq_lib::lemma_multiset_commutative(a, b);
    vstd::seq_lib::lemma_multiset_commutative(c, d);
}

/// Combining two subtree results: if the kept side has a hit no farther
/// than the other side's (or the other side missed), the kept hit is a
/// lower bound over the union.
proof fn lemma_combine_min(
    tris: Seq<Triangle>,
    keep: Seq<usize>,
    other: Seq<usize>,
    ray: Ray,
    kept: Intersection,
    o: Intersection,
)
    requires
        kept.hit,
        kept.distance matches Some(d) && d.wf() && forall|j: int|
            0 <= j < keep.len() && tri_hits(tris[keep[j] as int], ray) ==> frac_le(d.num as int,
                d.den as int, mt_tnum(tris[keep[j] as int], ray), mt_det(tris[keep[j] as int],
                    ray)),
        o.hit ==> (o.distance matches Some(e) && e.wf() && (kept.distance matches Some(d)
            && frac_le(d.num as int, d.den as int, e.num as int, e.den as int)) && forall|j: int|
            0 <= j < other.len() && tri_hits(tris[other[j] as int], ray) ==> frac_le(
                e.num as int, e.den as int, mt_tnum(tris[other[j] as int], ray), mt_det(
                    tris[other[j] as int], ray))),
        !o.hit ==> forall|j: int|
            0 <= j < other.len() ==> !tri_hits(tris[other[j] as int], ray),
        forall|j: int|
            0 <= j < other.len() && tri_hits(tris[other[j] as int], ray) ==> mt_det(
                tris[other[j] as int], ray) >= 1,
    ensures
        forall|j: int|
            0 <= j < (keep + other).len() && tri_hits(tris[(keep + other)[j] as int], ray)
                ==> (kept.distance matches Some(d) && frac_le(d.num as int, d.den as int,
                mt_tnum(tris[(keep + other)[j] as int], ray), mt_det(
                    tris[(keep + other)[j] as int], ray))),
{
    let d = kept.distance->Some_0;
    assert forall|j: int|
        0 <= j < (keep + other).len() && tri_hits(tris[(keep + other)[j] as int], ray) implies (
    kept.distance matches Some(dd) && frac_le(dd.num as int, dd.den as int, mt_tnum(
        tris[(keep + other)[j] as int], ray), mt_det(tris[(keep + other)[j] as int], ray))) by {
        if j < keep.len() {
            assert((keep + other)[j] == keep[j]);
        } else {
            let jj = j - keep.len();
            assert((keep + other)[j] == other[jj]);
            if o.hit {
                let e = o.distance->Some_0;
                lemma_frac_le_trans(d.num as int, d.den as int, e.num as int, e.den as int,
                    mt_tnum(tris[other[jj] as int], ray), mt_det(tris[other[jj] as int], ray));
            }
        }
    }
}

/// The contract of a closest-hit query over the listed primitives:
/// a hit is reported iff one of them is hit; the record then identifies
/// a genuinely hit primitive whose exact distance is a lower bound of
/// every listed hit.
pub open spec fn node_result(tris: Seq<Triangle>, ids: Seq<usize>, ray: Ray,
    res: Intersection) -> bool {
    &&& (res.hit <==> exists|j: int|
        0 <= j < ids.len() && tri_hits(tris[(#[trigger] ids[j]) as int], ray))
    &&& res.hit ==> (res.obj matches Some(id) && ids.contains(id) && id < tris.len()
        && tri_hits(tris[id as int], ray) && res.coords.bounded(601_000) && res.normal.bounded(
        3_000_000_000_000) && res.material == Some(tris[id as int].material) && (res.distance
        matches Some(d) && d.wf() && d.num == mt_tnum(tris[id as int], ray) && d.den == mt_det(
        tris[id as int], ray) && forall|j: int|
        0 <= j < ids.len() && tri_hits(tris[(#[trigger] ids[j]) as int], ray) ==> frac_le(
            d.num as int, d.den as int, mt_tnum(tris[ids[j] as int], ray), mt_det(
                tris[ids[j] as int], ray))))
}

/// Combining the closest hits of two disjoint primitive lists: keeping
/// the nearer of the two (or the one that hit) answers the query for the
/// concatenation.
proof fn lemma_combine(
    tris: Seq<Triangle>,
    ray: Ray,
    la: Seq<usize>,
    rb: Seq<usize>,
    l: Intersection,
    r: Intersection,
    res: Intersection,
)
    requires
        node_result(tris, la, ray, l),
        node_result(tris, rb, ray, r),
        res == l || res == r,
        !l.hit && !r.hit ==> res == r,
        l.hit && !r.hit ==> res == l,
        !l.hit && r.hit ==> res == r,
        l.hit && r.hit ==> (l.distance matches Some(dl) && r.distance matches Some(dr) && ((res
            == l && frac_le(dl.num as int, dl.den as int, dr.num as int, dr.den as int)) || (res
            == r && frac_le(dr.num as int, dr.den as int, dl.num as int, dl.den as int)))),
    ensures
        node_result(tris, la + rb, ray, res),
{
    let ids = la + rb;
    let n = la.len() as int;
    assert forall|j: int| 0 <= j < ids.len() implies #[trigger] ids[j] == (if j < n {
        la[j]
    } else {
        rb[j - n]
    }) by {}
    if res.hit {
        let id = res.obj->Some_0;
        if res == l {
            let k = choose|k: int| 0 <= k < la.len() && la[k] == id;
            assert(ids[k] == id);
            assert(ids.contains(id));
        } else {
            let k = choose|k: int| 0 <= k < rb.len() && rb[k] == id;
            assert(ids[n + k] == id);
            assert(ids.contains(id));
        }
        let d = res.distance->Some_0;
        assert forall|j: int|
            0 <= j < ids.len() && tri_hits(tris[(#[trigger] ids[j]) as int], ray) implies
            frac_le(d.num as int, d.den as int, mt_tnum(tris[ids[j] as int], ray), mt_det(
                tris[ids[j] as int], ray)) by {
            let t = tris[ids[j] as int];
            if j < n {
                assert(ids[j] == la[j]);
                if !l.hit {
                } else {
                    let dl = l.distance->Some_0;
                    if res == l {
                    } else {
                        let dr = r.distance->Some_0;
                        lemma_frac_le_trans(dr.num as int, dr.den as int, dl.num as int,
                            dl.den as int, mt_tnum(t, ray), mt_det(t, ray));
                    }
                }
            } else {
                assert(ids[j] == rb[j - n]);
                if !r.hit {
                } else {
                    let dr = r.distance->Some_0;
                    if res == r {
                    } else {
                        let dl = l.distance->Some_0;
                        lemma_frac_le_trans(dl.num as int, dl.den as int, dr.num as int,
                            dr.den as int, mt_tnum(t, ray), mt_det(t, ray));
                    }
                }
            }
        }
        if res == l {
            let j = choose|j: int| 0 <= j < la.len() && tri_hits(tris[(#[trigger] la[j]) as int],
                ray);
            assert(ids[j] == la[j]);
            assert(tri_hits(tris[(ids[j]) as int], ray));
        } else {
            let j = choose|j: int| 0 <= j < rb.len() && tri_hits(tris[(#[trigger] rb[j]) as int],
                ray);
            assert(ids[n + j] == rb[j]);
            assert(tri_hits(tris[(ids[n + j]) as int], ray));
        }
    } else {
        assert forall|j: int|
            0 <= j < ids.len() implies !tri_hits(tris[(#[trigger] ids[j]) as int], ray) by {
            if j < n {
                assert(ids[j] == la[j]);
            } else {
                assert(ids[j] == rb[j - n]);
            }
        }
    }
}

/// The intersection record is a uniform-area sample of one of the listed
/// primitives.
pub open spec fn sample_from(tris: Seq<Triangle>, ids: Seq<usize>, inter: Intersection) -> bool {
    exists|k: int|
        0 <= k < ids.len() && (#[trigger] ids[k]) < tris.len() && valid_tri_sample(
            tris[ids[k] as int], inter.coords) && inter.normal == tris[ids[k] as int].normal
}

proof fn lemma_sample_lift_left(
    tris: Seq<Triangle>,
    a: Seq<usize>,
    b: Seq<usize>,
    inter: Intersection,
)
    requires
        sample_from(tris, a, inter),
    ensures
        sample_from(tris, a + b, inter),
{
    let k = choose|k: int|
        0 <= k < a.len() && (#[trigger] a[k]) < tris.len() && valid_tri_sample(tris[a[k] as int],
            inter.coords) && inter.normal == tris[a[k] as int].normal;
    assert((a + b)[k] == a[k]);
}

proof fn lemma_sample_lift_right(
    tris: Seq<Triangle>,
    a: Seq<usize>,
    b: Seq<usize>,
    inter: Intersection,
)
    requires
        sample_from(tris, b, inter),
    ensures
        sample_from(tris, a + b, inter),
{
    let k = choose|k: int|
        0 <= k < b.len() && (#[trigger] b[k]) < tris.len() && valid_tri_sample(tris[b[k] as int],
            inter.coords) && inter.normal == tris[b[k] as int].normal;
    assert((a + b)[a.len() + k] == b[k]);
}

/// The total area of a bounded set of bounded primitives fits the exact
/// rational denominators.
proof fn lemma_area_cap(a: int, len: int) by (nonlinear_arith)
    requires
        len <= MAX_PRIMS,
        a <= 5_000_000_000_000 * len,
    ensures
        a <= 6_000_000_000_000_000_000,
{
}

} // verus!
