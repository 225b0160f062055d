//! Who is told of a message that was answered.
//!
//! A listener subscribes to the messages of one method and gets a handle.
//! When a message of a method has been answered, the handles of its
//! listeners are given out in the order in which they subscribed; whoever
//! holds the listeners calls them in that order.

use vstd::prelude::*;

verus! {

/// The subscriptions: for each, the method and the handle.
pub struct HookRegistry {
    pub hooks: Vec<(String, u64)>,
}

/// A subscription, as mathematical values.
pub type HookView = (Seq<char>, u64);

impl View for HookRegistry {
    type V = Seq<HookView>;

    open spec fn view(&self) -> Seq<HookView> {
        Seq::new(self.hooks@.len(), |i: int| (self.hooks@[i].0@, self.hooks@[i].1))
    }
}

/// The handles of the subscriptions to `method`, in order.
pub open spec fn listeners(hooks: Seq<HookView>, method: Seq<char>) -> Seq<u64>
    decreases hooks.len(),
{
    if hooks.len() == 0 {
        Seq::empty()
    } else if hooks.last().0 == method {
        listeners(hooks.drop_last(), method).push(hooks.last().1)
    } else {
        listeners(hooks.drop_last(), method)
    }
}

/// Whether the handles are the positions of their subscriptions, so that
/// no two subscriptions share one.
pub open spec fn handles_in_order(hooks: Seq<HookView>) -> bool {
    forall|i: int| 0 <= i < hooks.len() ==> (#[trigger] hooks[i]).1 == i
}

impl HookRegistry {
    /// No subscriptions.
    pub fn new() -> (registry: HookRegistry)
        ensures
            registry@ == Seq::<HookView>::empty(),
            handles_in_order(registry@),
    {
        let registry = HookRegistry { hooks: Vec::new() };
        registry
    }
}

/// Subscribes a listener to the messages of `method`, after all that have
/// subscribed before, and gives out its handle: the number of subscriptions
/// before it.
pub fn add(registry: &mut HookRegistry, method: &str) -> (handle: u64)
    ensures
        handle == old(registry)@.len(),
        final(registry)@ == old(registry)@.push((method@, handle)),
        handles_in_order(old(registry)@) ==> handles_in_order(final(registry)@),
{
    let handle = registry.hooks.len() as u64;
    registry.hooks.push((method.to_owned(), handle));
    handle
}

/// The handles of the listeners to tell of an answered message of
/// `method`, in the order in which they subscribed.
pub fn trigger_hook(registry: &HookRegistry, method: &str) -> (handles: Vec<u64>)
    ensures
        handles@ == listeners(registry@, method@),
{
    let ghost hooks = registry@;
    let wanted: String = method.to_owned();
    let mut handles: Vec<u64> = Vec::new();
    let mut index: usize = 0;
    assert(hooks.take(0) =~= Seq::<HookView>::empty());
    while index < registry.hooks.len()
        invariant
            index <= registry.hooks@.len(),
            hooks == registry@,
            wanted@ == method@,
            handles@ == listeners(hooks.take(index as int), method@),
        decreases registry.hooks@.len() - index,
    {
        proof {
            assert(hooks.take(index + 1).drop_last() =~= hooks.take(index as int));
            assert(hooks.take(index + 1).last() == hooks[index as int]);
        }
        if registry.hooks[index].0 == wanted {
            handles.push(registry.hooks[index].1);
        }
        index += 1;
    }
    assert(hooks.take(index as int) =~= hooks);
    handles
}

} // verus!
