//! Endgame keys and repair resources.
use crate::constants::EMERGENCY_REPAIR_COST;
use crate::state::PolicyKind;
use vstd::prelude::*;

verus! {

/// Resource order for automatic field repairs.
#[derive(Debug, Clone, Copy, PartialEq, Eq, Structural)]
pub enum ResourceKind {
    MatchingSpare,
    AnySpare,
    Emergency,
}

pub open spec fn policy_key_spec(policy: Option<PolicyKind>) -> Option<Seq<char>> {
    match policy {
        Some(PolicyKind::Balanced) => Some("deep_balanced"@),
        Some(PolicyKind::Aggressive) => Some("deep_aggressive"@),
        Some(PolicyKind::Conservative) => Some("deep_conservative"@),
        Some(PolicyKind::ResourceManager) => Some("deep_resource_manager"@),
        None => None,
    }
}

/// Configuration key of the endgame tuning for a policy.
pub fn policy_key_for_mode(policy: Option<PolicyKind>) -> (r: Option<&'static str>)
    ensures
        match r {
            Some(k) => policy_key_spec(policy) == Some(k@),
            None => policy_key_spec(policy) is None,
        },
{
    match policy {
        Some(PolicyKind::Balanced) => Some("deep_balanced"),
        Some(PolicyKind::Aggressive) => Some("deep_aggressive"),
        Some(PolicyKind::Conservative) => Some("deep_conservative"),
        Some(PolicyKind::ResourceManager) => Some("deep_resource_manager"),
        None => None,
    }
}

/// The order a field repair tries resources in: the policy's order, or
/// matching spare, any spare, emergency when the policy gives none.
pub open spec fn repair_order(priority: Seq<ResourceKind>) -> Seq<ResourceKind> {
    if priority.len() == 0 {
        seq![ResourceKind::MatchingSpare, ResourceKind::AnySpare, ResourceKind::Emergency]
    } else {
        priority
    }
}

/// Whether a resource can pay for the repair: a spare of the broken part, any
/// spare, or an emergency repair the budget covers.
pub open spec fn resource_available(
    kind: ResourceKind,
    has_matching_spare: bool,
    has_any_spare: bool,
    budget_cents: i64,
) -> bool {
    match kind {
        ResourceKind::MatchingSpare => has_matching_spare,
        ResourceKind::AnySpare => has_any_spare,
        ResourceKind::Emergency => budget_cents >= EMERGENCY_REPAIR_COST,
    }
}

/// The first available resource of `order`, if any.
pub open spec fn first_available(
    order: Seq<ResourceKind>,
    has_matching_spare: bool,
    has_any_spare: bool,
    budget_cents: i64,
) -> Option<ResourceKind>
    decreases order.len(),
{
    if order.len() == 0 {
        None
    } else if resource_available(order[0], has_matching_spare, has_any_spare, budget_cents) {
        Some(order[0])
    } else {
        first_available(order.drop_first(), has_matching_spare, has_any_spare, budget_cents)
    }
}

fn is_available(kind: ResourceKind, has_matching_spare: bool, has_any_spare: bool, budget_cents: i64) -> (r: bool)
    ensures
        r == resource_available(kind, has_matching_spare, has_any_spare, budget_cents),
{
    match kind {
        ResourceKind::MatchingSpare => has_matching_spare,
        ResourceKind::AnySpare => has_any_spare,
        ResourceKind::Emergency => budget_cents >= EMERGENCY_REPAIR_COST,
    }
}

/// The resource a field repair uses: the first available one in the repair
/// order followed by an emergency repair; `None` when nothing can pay.
pub fn field_repair_resource(
    priority: &Vec<ResourceKind>,
    has_matching_spare: bool,
    has_any_spare: bool,
    budget_cents: i64,
) -> (r: Option<ResourceKind>)
    ensures
        r == first_available(
            repair_order(priority@).push(ResourceKind::Emergency),
            has_matching_spare,
            has_any_spare,
            budget_cents,
        ),
{
    let mut order: Vec<ResourceKind> = if priority.len() == 0 {
        vec![ResourceKind::MatchingSpare, ResourceKind::AnySpare, ResourceKind::Emergency]
    } else {
        let mut copy: Vec<ResourceKind> = Vec::new();
        let mut j: usize = 0;
        while j < priority.len()
            invariant
                j <= priority@.len(),
                copy@ == priority@.take(j as int),
            decreases priority@.len() - j,
        {
            copy.push(priority[j]);
            j = j + 1;
        }
        assert(priority@.take(priority@.len() as int) =~= priority@);
        copy
    };
    order.push(ResourceKind::Emergency);
    let ghost full = order@;
    assert(full == repair_order(priority@).push(ResourceKind::Emergency));
    let mut i: usize = 0;
    assert(full.skip(0) =~= full);
    while i < order.len()
        invariant
            i <= order@.len(),
            order@ == full,
            full == repair_order(priority@).push(ResourceKind::Emergency),
            first_available(full, has_matching_spare, has_any_spare, budget_cents) == first_available(
                full.skip(i as int),
                has_matching_spare,
                has_any_spare,
                budget_cents,
            ),
        decreases order@.len() - i,
    {
        assert(full.skip(i as int).drop_first() =~= full.skip(i + 1));
        assert(full.skip(i as int)[0] == full[i as int]);
        assert(full.skip(i as int).len() > 0);
        let kind = order[i];
        if is_available(kind, has_matching_spare, has_any_spare, budget_cents) {
            assert(first_available(full.skip(i as int), has_matching_spare, has_any_spare, budget_cents) == Some(kind));
            return Some(kind);
        }
        i = i + 1;
    }
    assert(full.skip(i as int).len() == 0);
    None
}

/// An emergency repair always closes the order, so a budget that covers it
/// means a repair is always found.
pub proof fn lemma_repair_found_with_budget(
    priority: Seq<ResourceKind>,
    has_matching_spare: bool,
    has_any_spare: bool,
    budget_cents: i64,
)
    requires
        budget_cents >= EMERGENCY_REPAIR_COST,
    ensures
        first_available(repair_order(priority).push(ResourceKind::Emergency), has_matching_spare, has_any_spare, budget_cents)
            is Some,
{
    lemma_found_when_last_available(
        repair_order(priority).push(ResourceKind::Emergency),
        has_matching_spare,
        has_any_spare,
        budget_cents,
    );
}

proof fn lemma_found_when_last_available(order: Seq<ResourceKind>, has_matching_spare: bool, has_any_spare: bool, budget_cents: i64)
    requires
        order.len() > 0,
        resource_available(order.last(), has_matching_spare, has_any_spare, budget_cents),
    ensures
        first_available(order, has_matching_spare, has_any_spare, budget_cents) is Some,
    decreases order.len(),
{
    if order.len() > 1 && !resource_available(order[0], has_matching_spare, has_any_spare, budget_cents) {
        assert(order.drop_first().last() == order.last());
        lemma_found_when_last_available(order.drop_first(), has_matching_spare, has_any_spare, budget_cents);
    }
}

} // verus!
