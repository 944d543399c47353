use vstd::prelude::*;
use crate::actor::Actor;
use crate::item::Item;
use crate::item_effects::{acts_on_actor, item_effect_on, use_on_actor};

verus! {

/// The effect of taking an item, where coins count for nothing: true when
/// the item acted on the agent.
pub fn item_effect(actor: &mut Actor, item: &Item) -> (r: bool)
    requires
        old(actor).wf(),
    ensures
        final(actor).wf(),
        r == (acts_on_actor(item.kind) && item.kind != 2 && item.kind != 3),
        item_effect_on(*final(actor), *old(actor), item.kind),
{
    if item.kind == 2 || item.kind == 3 {
        return false;
    }
    use_on_actor(actor, item.kind)
}

} // verus!
