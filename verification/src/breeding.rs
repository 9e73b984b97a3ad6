use vstd::prelude::*;

verus! {

/// Where a member of the next generation comes from.
#[derive(Clone, Copy, PartialEq, Eq, Structural, Debug)]
pub enum Offspring {
    /// A mutated child of the candidate at this index.
    Child(usize),
    /// The candidate at this index itself, kept alive.
    Parent(usize),
}

/// `count` children of the candidate at `parent`, then the parent itself.
pub open spec fn family(parent: usize, count: nat) -> Seq<Offspring> {
    Seq::new(count, |k: int| Offspring::Child(parent)).push(Offspring::Parent(parent))
}

/// The next generation bred from the first `survivors` entries of `order`
/// (candidate indices, best first): each survivor in turn adds its children,
/// then itself.
pub open spec fn plan_of(order: Seq<usize>, survivors: nat, children: nat) -> Seq<Offspring>
    decreases survivors,
{
    if survivors == 0 {
        Seq::empty()
    } else {
        plan_of(order, (survivors - 1) as nat, children) + family(
            order[survivors - 1],
            children,
        )
    }
}

/// Where, in a generation bred with `children` children per survivor, the
/// `k`-th member of the `j`-th survivor's family stands.
pub open spec fn slot(j: int, k: int, children: nat) -> int {
    j * (children + 1) + k
}

/// The plan, by position: the `j`-th survivor (the `j`-th best candidate) owns
/// the block of `children + 1` places starting at `j * (children + 1)`; its
/// first `children` places hold children of that candidate, its last the
/// candidate itself.
pub proof fn lemma_plan_by_position(order: Seq<usize>, survivors: nat, children: nat)
    requires
        survivors <= order.len(),
    ensures
        plan_of(order, survivors, children).len() == survivors * (children + 1),
        forall|j: int, k: int|
            0 <= j < survivors && 0 <= k < children ==> #[trigger] plan_of(
                order,
                survivors,
                children,
            )[slot(j, k, children)] == Offspring::Child(order[j]),
        forall|j: int|
            0 <= j < survivors ==> #[trigger] plan_of(order, survivors, children)[slot(
                j,
                children as int,
                children,
            )] == Offspring::Parent(order[j]),
    decreases survivors,
{
    if survivors == 0 {
        assert(survivors * (children + 1) == 0) by (nonlinear_arith)
            requires
                survivors == 0,
        ;
    } else {
        let s1 = (survivors - 1) as nat;
        lemma_plan_by_position(order, s1, children);
        let prev = plan_of(order, s1, children);
        let fam = family(order[s1 as int], children);
        let plan = plan_of(order, survivors, children);
        assert(plan == prev + fam);
        assert(fam.len() == children + 1);
        assert(survivors * (children + 1) == s1 * (children + 1) + children + 1) by (
        nonlinear_arith)
            requires
                s1 + 1 == survivors,
        ;
        assert forall|j: int, k: int| 0 <= j < survivors && 0 <= k <= children implies {
            &&& 0 <= #[trigger] slot(j, k, children) < plan.len()
            &&& (j < s1 ==> slot(j, k, children) < prev.len())
            &&& (j == s1 ==> slot(j, k, children) == prev.len() + k)
        } by {
            assert(0 <= j * (children + 1)) by (nonlinear_arith)
                requires
                    0 <= j,
            ;
            if j < s1 {
                assert((j + 1) * (children + 1) <= s1 * (children + 1)) by (nonlinear_arith)
                    requires
                        j + 1 <= s1,
                ;
                assert((j + 1) * (children + 1) == j * (children + 1) + children + 1) by (
                nonlinear_arith);
            }
        }
        assert forall|j: int, k: int| 0 <= j < survivors && 0 <= k < children implies #[trigger] plan[slot(
            j,
            k,
            children,
        )] == Offspring::Child(order[j]) by {
            assert(0 <= slot(j, k, children) < plan.len());
            if j < s1 {
                assert(prev[slot(j, k, children)] == Offspring::Child(order[j]));
            } else {
                assert(fam[k] == Offspring::Child(order[j]));
            }
        }
        assert forall|j: int| 0 <= j < survivors implies #[trigger] plan[slot(
            j,
            children as int,
            children,
        )] == Offspring::Parent(order[j]) by {
            assert(0 <= slot(j, children as int, children) < plan.len());
            if j < s1 {
                assert(prev[slot(j, children as int, children)] == Offspring::Parent(order[j]));
            } else {
                assert(fam[children as int] == Offspring::Parent(order[j]));
            }
        }
    }
}

/// Lays out the next generation: for each of the first `survivors` indices of
/// `order` (best first), `children` mutated children of that candidate, then
/// the candidate itself.
pub fn breeding_plan(order: &Vec<usize>, survivors: usize, children: usize) -> (result: Vec<
    Offspring,
>)
    requires
        survivors <= order@.len(),
        survivors * (children + 1) <= usize::MAX,
    ensures
        result@ == plan_of(order@, survivors as nat, children as nat),
        result@.len() == survivors * (children + 1),
        forall|j: int, k: int|
            0 <= j < survivors && 0 <= k < children ==> #[trigger] result@[slot(
                j,
                k,
                children as nat,
            )] == Offspring::Child(order@[j]),
        forall|j: int|
            0 <= j < survivors ==> #[trigger] result@[slot(j, children as int, children as nat)]
                == Offspring::Parent(order@[j]),
{
    let mut plan: Vec<Offspring> = Vec::new();
    let mut j: usize = 0;
    while j < survivors
        invariant
            j <= survivors,
            survivors <= order@.len(),
            survivors * (children + 1) <= usize::MAX,
            plan@ == plan_of(order@, j as nat, children as nat),
            plan@.len() == j * (children + 1),
        decreases survivors - j,
    {
        let parent = order[j];
        let ghost start = plan@;
        proof {
            assert((j + 1) * (children + 1) <= survivors * (children + 1)) by (nonlinear_arith)
                requires
                    j < survivors,
            ;
            assert((j + 1) * (children + 1) == j * (children + 1) + children + 1) by (
            nonlinear_arith);
        }
        let mut k: usize = 0;
        while k < children
            invariant
                k <= children,
                plan@ == start + Seq::new(k as nat, |i: int| Offspring::Child(parent)),
                start.len() + children + 1 <= usize::MAX,
            decreases children - k,
        {
            plan.push(Offspring::Child(parent));
            k = k + 1;
            proof {
                assert(plan@ =~= start + Seq::new(k as nat, |i: int| Offspring::Child(parent)));
            }
        }
        plan.push(Offspring::Parent(parent));
        proof {
            assert(plan@ =~= start + family(parent, children as nat));
        }
        j = j + 1;
    }
    proof {
        lemma_plan_by_position(order@, survivors as nat, children as nat);
    }
    plan
}

} // verus!
