//! The searches that both engines share, written once over what a cursor
//! has to offer.
use crate::common::item::{spec_node_names, ItemView};
use crate::error::DevTreeError;
use vstd::prelude::*;
use vstd::string::StringSliceAdditionalSpecFns;

verus! {

/// An item that is either a node or a property, and can be taken apart.
pub trait UnwrappableDevTreeItem: Sized {
    type TreeNode;

    type TreeProp;

    /// The node that the item is, if it is one.
    spec fn spec_node(&self) -> Option<Self::TreeNode>;

    /// The property that the item is, if it is one.
    spec fn spec_prop(&self) -> Option<Self::TreeProp>;

    /// Both sides at once: one of them is `None`.
    fn consume(self) -> (r: (Option<Self::TreeNode>, Option<Self::TreeProp>))
        ensures
            r.0 == self.spec_node(),
            r.1 == self.spec_prop(),
            r.0 is Some != r.1 is Some,
    ;

    /// The node that the item is, if it is one.
    fn node(self) -> (r: Option<Self::TreeNode>)
        ensures
            r == self.spec_node(),
    ;

    /// The property that the item is, if it is one.
    fn prop(self) -> (r: Option<Self::TreeProp>)
        ensures
            r == self.spec_prop(),
    ;
}

/// What an engine has to say of its cursor over the items of a tree: what
/// state the cursor is in, what the next state is, and what the cursor
/// yields on the way.
pub trait TreeCursor: Sized + Copy {
    type Item: UnwrappableDevTreeItem;

    /// The cursor is valid.
    spec fn spec_ok(&self) -> bool;

    /// The stream has ended: the cursor yields nothing more.
    spec fn spec_ended(&self) -> bool;

    /// The cursor after its next item; for a stream that has ended, the
    /// cursor after a step that yields nothing.
    spec fn spec_next_state(&self) -> Self;

    /// A bound on the number of items still to come.
    spec fn spec_budget(&self) -> int;

    /// The items still to come, as plain values.
    spec fn spec_items(&self) -> Seq<ItemView>;

    /// A node handle as a plain value.
    spec fn spec_node_view(node: <Self::Item as UnwrappableDevTreeItem>::TreeNode) -> ItemView;

    /// A property handle as a plain value.
    spec fn spec_prop_view(prop: <Self::Item as UnwrappableDevTreeItem>::TreeProp) -> ItemView;

    /// Whether the next item is a node.
    spec fn spec_at_node(&self) -> bool;

    /// Whether the next item is a property.
    spec fn spec_at_prop(&self) -> bool;

    /// Whether the next item is a property named `compatible` whose value
    /// starts with the string `target`.
    spec fn spec_at_compatible(&self, target: Seq<u8>) -> bool;

    /// Whether `node` is the node that the cursor yields next.
    spec fn spec_gives_node(&self, node: <Self::Item as UnwrappableDevTreeItem>::TreeNode) -> bool;

    /// Whether `prop` is the property that the cursor yields next.
    spec fn spec_gives_prop(&self, prop: <Self::Item as UnwrappableDevTreeItem>::TreeProp) -> bool;

    /// Whether `node` is the node that owns the property that the cursor
    /// yields next.
    spec fn spec_gives_owner(
        &self,
        node: <Self::Item as UnwrappableDevTreeItem>::TreeNode,
    ) -> bool;

    /// A step keeps the cursor valid, uses up its budget, and takes the
    /// first item off the stream, which is what the cursor yields.
    proof fn lemma_advance(&self)
        requires
            self.spec_ok(),
        ensures
            self.spec_next_state().spec_ok(),
            self.spec_ended() <==> self.spec_items().len() == 0,
            !self.spec_ended() ==> self.spec_next_state().spec_items() == self.spec_items().skip(
                1,
            ),
            !self.spec_ended() ==> (self.spec_at_node() <==> self.spec_items()[0] is Node),
            forall|node: <Self::Item as UnwrappableDevTreeItem>::TreeNode| #[trigger]
                self.spec_gives_node(node) ==> Self::spec_node_view(node) is Node
                    && self.spec_items().len() > 0 && Self::spec_node_view(node)
                    == self.spec_items()[0],
            forall|prop: <Self::Item as UnwrappableDevTreeItem>::TreeProp| #[trigger]
                self.spec_gives_prop(prop) ==> Self::spec_prop_view(prop) is Prop
                    && self.spec_items().len() > 0 && Self::spec_prop_view(prop)
                    == self.spec_items()[0],
            !self.spec_ended() ==> 0 <= self.spec_next_state().spec_budget() < self.spec_budget(),
            !self.spec_ended() ==> (self.spec_at_node() != self.spec_at_prop()),
            self.spec_ended() ==> !self.spec_at_node() && !self.spec_at_prop()
                && self.spec_next_state().spec_ended(),
            forall|target: Seq<u8>| #[trigger]
                self.spec_at_compatible(target) ==> self.spec_at_prop(),
    ;

    /// The next item, or `None` where the stream has ended.
    fn next_item(&mut self) -> (r: Option<Self::Item>)
        requires
            old(self).spec_ok(),
        ensures
            final(self).spec_ok(),
            *final(self) == old(self).spec_next_state(),
            r is None <==> old(self).spec_ended(),
            r matches Some(item) ==> match (item.spec_node(), item.spec_prop()) {
                (Some(node), None) => old(self).spec_at_node() && old(self).spec_gives_node(node),
                (None, Some(prop)) => old(self).spec_at_prop() && old(self).spec_gives_prop(prop),
                _ => false,
            },
    ;

    /// Whether `prop`, which the cursor yields next, is named `compatible`
    /// and has a value that starts with `string`.
    fn matches_compatible(
        &self,
        prop: &<Self::Item as UnwrappableDevTreeItem>::TreeProp,
        string: &str,
    ) -> (r: bool)
        requires
            self.spec_ok(),
            self.spec_gives_prop(*prop),
        ensures
            r == self.spec_at_compatible(string.spec_bytes()),
    ;

    /// The node that owns `prop`, which the cursor yields next.
    fn owner_of(&self, prop: &<Self::Item as UnwrappableDevTreeItem>::TreeProp) -> (r: <
        Self::Item as UnwrappableDevTreeItem
    >::TreeNode)
        requires
            self.spec_ok(),
            self.spec_gives_prop(*prop),
        ensures
            self.spec_gives_owner(r),
    ;

}

/// A cursor over the items of a tree, with the searches that can be made
/// with it. They are the same for every engine.
pub trait TreeIterator: TreeCursor {
    /// The next node, whatever properties stand before it.
    fn next_node(&mut self) -> (r: Option<<Self::Item as UnwrappableDevTreeItem>::TreeNode>)
        requires
            old(self).spec_ok(),
        ensures
            final(self).spec_ok(),
            *final(self) == spec_until_node(*old(self)).spec_next_state(),
            r is None <==> spec_until_node(*old(self)).spec_ended(),
            r matches Some(node) ==> spec_until_node(*old(self)).spec_gives_node(node),
    {
        loop
            invariant
                self.spec_ok(),
                spec_until_node(*self) == spec_until_node(*old(self)),
            decreases self.spec_budget(),
        {
            proof {
                self.lemma_advance();
            }
            match self.next_item() {
                Some(item) => {
                    if let Some(node) = item.node() {
                        return Some(node);
                    }
                },
                None => {
                    return None;
                },
            }
        }
    }

    /// The next property, whatever nodes open before it.
    fn next_prop(&mut self) -> (r: Option<<Self::Item as UnwrappableDevTreeItem>::TreeProp>)
        requires
            old(self).spec_ok(),
        ensures
            final(self).spec_ok(),
            *final(self) == spec_until_prop(*old(self)).spec_next_state(),
            r is None <==> spec_until_prop(*old(self)).spec_ended(),
            r matches Some(prop) ==> spec_until_prop(*old(self)).spec_gives_prop(prop),
    {
        loop
            invariant
                self.spec_ok(),
                spec_until_prop(*self) == spec_until_prop(*old(self)),
            decreases self.spec_budget(),
        {
            proof {
                self.lemma_advance();
            }
            match self.next_item() {
                Some(item) => {
                    if let Some(prop) = item.prop() {
                        return Some(prop);
                    }
                },
                None => {
                    return None;
                },
            }
        }
    }

    /// The next item if it is a property, which then belongs to the node
    /// that the cursor is in. Otherwise nothing is yielded and the cursor
    /// stays as it is.
    fn next_node_prop(&mut self) -> (r: Option<<Self::Item as UnwrappableDevTreeItem>::TreeProp>)
        requires
            old(self).spec_ok(),
        ensures
            final(self).spec_ok(),
            r is Some <==> old(self).spec_at_prop(),
            r matches Some(prop) ==> old(self).spec_gives_prop(prop) && *final(self) == old(self).spec_next_state(),
            r is None ==> *final(self) == *old(self),
    {
        proof {
            self.lemma_advance();
        }
        let mut ahead = *self;
        match ahead.next_item() {
            Some(item) => match item.prop() {
                Some(prop) => {
                    *self = ahead;
                    Some(prop)
                },
                None => None,
            },
            None => None,
        }
    }

    /// Looks at every property from here on, in any node, for one named
    /// `compatible` whose value starts with `string`, and yields the node
    /// that owns it, leaving the cursor after that property.
    fn scan_compatible(&mut self, string: &str) -> (r: Option<
        <Self::Item as UnwrappableDevTreeItem>::TreeNode,
    >)
        requires
            old(self).spec_ok(),
        ensures
            final(self).spec_ok(),
            *final(self) == spec_until_compatible(
                *old(self),
                string.spec_bytes(),
            ).spec_next_state(),
            r is None <==> spec_until_compatible(*old(self), string.spec_bytes()).spec_ended(),
            r matches Some(node) ==> spec_until_compatible(
                *old(self),
                string.spec_bytes(),
            ).spec_gives_owner(node),
    {
        loop
            invariant
                self.spec_ok(),
                spec_until_compatible(*self, string.spec_bytes()) == spec_until_compatible(
                    *old(self),
                    string.spec_bytes(),
                ),
            decreases self.spec_budget(),
        {
            let before = *self;
            proof {
                before.lemma_advance();
            }
            match self.next_item() {
                Some(item) => {
                    if let Some(prop) = item.prop() {
                        if before.matches_compatible(&prop, string) {
                            return Some(before.owner_of(&prop));
                        }
                    }
                },
                None => {
                    return None;
                },
            }
        }
    }

    /// Passes one node, then looks at every property that follows, in any
    /// node, for one named `compatible` whose value starts with `string`, and
    /// yields the node that owns it. The cursor is left after that property,
    /// so that the next call finds the next such node.
    fn next_compatible_node(&mut self, string: &str) -> (r: Option<
        <Self::Item as UnwrappableDevTreeItem>::TreeNode,
    >)
        requires
            old(self).spec_ok(),
        ensures
            final(self).spec_ok(),
            *final(self) == spec_compatible_search(
                *old(self),
                string.spec_bytes(),
            ).spec_next_state(),
            r is None <==> spec_compatible_search(*old(self), string.spec_bytes()).spec_ended(),
            r matches Some(node) ==> spec_compatible_search(
                *old(self),
                string.spec_bytes(),
            ).spec_gives_owner(node),
    {
        proof {
            lemma_until_node_ok(*self);
            spec_until_node(*self).lemma_advance();
        }
        if self.next_node().is_none() {
            return None;
        }
        self.scan_compatible(string)
    }

    /// The next item that `predicate` says `Ok(true)` of; the cursor is left
    /// after it. An item that the predicate fails on is passed over like one
    /// that it says `Ok(false)` of.
    fn find_item<F>(&mut self, predicate: F) -> (r: Option<Self::Item>) where
        F: Fn(&Self::Item) -> Result<bool, DevTreeError>,

        requires
            old(self).spec_ok(),
            forall|item: Self::Item| call_requires(predicate, (&item,)),
        ensures
            final(self).spec_ok(),
            spec_found_item(*old(self), predicate, r, *final(self)),
    {
        let ghost mut k: nat = 0;
        loop
            invariant
                self.spec_ok(),
                forall|item: Self::Item| call_requires(predicate, (&item,)),
                *self == spec_nth(*old(self), k),
                forall|j: nat| j < k ==> #[trigger] spec_passed_item(*old(self), predicate, j),
            decreases self.spec_budget(),
        {
            proof {
                self.lemma_advance();
            }
            match self.next_item() {
                None => {
                    return None;
                },
                Some(item) => {
                    let said = predicate(&item);
                    match said {
                        Ok(true) => {
                            return Some(item);
                        },
                        _ => {
                            proof {
                                assert(spec_gives(spec_nth(*old(self), k), item));
                                assert(call_ensures(predicate, (&item,), said));
                                assert(spec_passed_item(*old(self), predicate, k));
                                k = k + 1;
                            }
                        },
                    }
                },
            }
        }
    }

    /// The next node that `predicate` says `Ok(true)` of; the cursor is left
    /// after it. A node that the predicate fails on is passed over like one
    /// that it says `Ok(false)` of.
    fn find_node<F>(&mut self, predicate: F) -> (r: Option<
        <Self::Item as UnwrappableDevTreeItem>::TreeNode,
    >) where F: Fn(&<Self::Item as UnwrappableDevTreeItem>::TreeNode) -> Result<bool, DevTreeError>

        requires
            old(self).spec_ok(),
            forall|node: <Self::Item as UnwrappableDevTreeItem>::TreeNode|
                call_requires(predicate, (&node,)),
        ensures
            final(self).spec_ok(),
            spec_found_node(*old(self), predicate, r, *final(self)),
    {
        let ghost mut k: nat = 0;
        loop
            invariant
                self.spec_ok(),
                forall|node: <Self::Item as UnwrappableDevTreeItem>::TreeNode|
                    call_requires(predicate, (&node,)),
                *self == spec_nth_node(*old(self), k),
                forall|j: nat| j < k ==> #[trigger] spec_passed_node(*old(self), predicate, j),
            decreases self.spec_budget(),
        {
            proof {
                lemma_until_node_ok(*self);
                spec_until_node(*self).lemma_advance();
            }
            match self.next_node() {
                None => {
                    return None;
                },
                Some(node) => {
                    let said = predicate(&node);
                    match said {
                        Ok(true) => {
                            return Some(node);
                        },
                        _ => {
                            proof {
                                assert(call_ensures(predicate, (&node,), said));
                                assert(spec_passed_node(*old(self), predicate, k));
                                k = k + 1;
                            }
                        },
                    }
                },
            }
        }
    }

    /// The next property that `predicate` says `Ok(true)` of; the cursor is
    /// left after it. A property that the predicate fails on is passed over
    /// like one that it says `Ok(false)` of.
    fn find_prop<F>(&mut self, predicate: F) -> (r: Option<
        <Self::Item as UnwrappableDevTreeItem>::TreeProp,
    >) where F: Fn(&<Self::Item as UnwrappableDevTreeItem>::TreeProp) -> Result<bool, DevTreeError>

        requires
            old(self).spec_ok(),
            forall|prop: <Self::Item as UnwrappableDevTreeItem>::TreeProp|
                call_requires(predicate, (&prop,)),
        ensures
            final(self).spec_ok(),
            spec_found_prop(*old(self), predicate, r, *final(self)),
    {
        let ghost mut k: nat = 0;
        loop
            invariant
                self.spec_ok(),
                forall|prop: <Self::Item as UnwrappableDevTreeItem>::TreeProp|
                    call_requires(predicate, (&prop,)),
                *self == spec_nth_prop(*old(self), k),
                forall|j: nat| j < k ==> #[trigger] spec_passed_prop(*old(self), predicate, j),
            decreases self.spec_budget(),
        {
            proof {
                lemma_until_prop_ok(*self);
                spec_until_prop(*self).lemma_advance();
            }
            match self.next_prop() {
                None => {
                    return None;
                },
                Some(prop) => {
                    let said = predicate(&prop);
                    match said {
                        Ok(true) => {
                            return Some(prop);
                        },
                        _ => {
                            proof {
                                assert(call_ensures(predicate, (&prop,), said));
                                assert(spec_passed_prop(*old(self), predicate, k));
                                k = k + 1;
                            }
                        },
                    }
                },
            }
        }
    }
}

/// The cursor moved on until its next item is a node or its stream has
/// ended.
pub open spec fn spec_until_node<I: TreeCursor>(it: I) -> I
    decreases it.spec_budget(),
{
    if !it.spec_ok() || it.spec_ended() || it.spec_at_node() {
        it
    } else {
        proof {
            it.lemma_advance();
        }
        spec_until_node(it.spec_next_state())
    }
}

/// The cursor moved on until its next item is a property or its stream has
/// ended.
pub open spec fn spec_until_prop<I: TreeCursor>(it: I) -> I
    decreases it.spec_budget(),
{
    if !it.spec_ok() || it.spec_ended() || it.spec_at_prop() {
        it
    } else {
        proof {
            it.lemma_advance();
        }
        spec_until_prop(it.spec_next_state())
    }
}

/// The cursor moved on until its next item is a property named `compatible`
/// whose value starts with `target`, or its stream has ended.
pub open spec fn spec_until_compatible<I: TreeCursor>(it: I, target: Seq<u8>) -> I
    decreases it.spec_budget(),
{
    if !it.spec_ok() || it.spec_ended() || it.spec_at_compatible(target) {
        it
    } else {
        proof {
            it.lemma_advance();
        }
        spec_until_compatible(it.spec_next_state(), target)
    }
}

/// The cursor after `k` steps.
pub open spec fn spec_nth<I: TreeCursor>(it: I, k: nat) -> I
    decreases k,
{
    if k == 0 {
        it
    } else {
        spec_nth(it, (k - 1) as nat).spec_next_state()
    }
}

/// Whether `item` is what the cursor yields next.
pub open spec fn spec_gives<I: TreeCursor>(it: I, item: I::Item) -> bool {
    match (item.spec_node(), item.spec_prop()) {
        (Some(node), None) => it.spec_gives_node(node),
        (None, Some(prop)) => it.spec_gives_prop(prop),
        _ => false,
    }
}

/// Whether `predicate` was asked of the item that the cursor yields after
/// `j` steps and did not say `Ok(true)`.
pub open spec fn spec_passed_item<I: TreeCursor, F: Fn(&I::Item) -> Result<bool, DevTreeError>>(
    it: I,
    predicate: F,
    j: nat,
) -> bool {
    exists|item: I::Item, said: Result<bool, DevTreeError>|
        spec_gives(spec_nth(it, j), item) && #[trigger] call_ensures(predicate, (&item,), said)
            && !(said matches Ok(true))
}

/// What a search with a predicate over the items comes to: some number of
/// items is passed because the predicate did not say `Ok(true)` of them;
/// then the item found is yielded, of which it did, or the stream has ended.
/// `end` is the cursor after the item found or after the end.
pub open spec fn spec_found_item<I: TreeCursor, F: Fn(&I::Item) -> Result<bool, DevTreeError>>(
    start: I,
    predicate: F,
    r: Option<I::Item>,
    end: I,
) -> bool {
    exists|k: nat|
        {
            &&& end == (#[trigger] spec_nth(start, k)).spec_next_state()
            &&& forall|j: nat| j < k ==> #[trigger] spec_passed_item(start, predicate, j)
            &&& match r {
                Some(item) => spec_gives(spec_nth(start, k), item) && call_ensures(
                    predicate,
                    (&item,),
                    Ok(true),
                ),
                None => spec_nth(start, k).spec_ended(),
            }
        }
}

/// The cursor after `k` nodes have been found and passed.
pub open spec fn spec_nth_node<I: TreeCursor>(it: I, k: nat) -> I
    decreases k,
{
    if k == 0 {
        it
    } else {
        spec_until_node(spec_nth_node(it, (k - 1) as nat)).spec_next_state()
    }
}

/// Whether `predicate` was asked of the node that the cursor finds after `j`
/// nodes and did not say `Ok(true)`.
pub open spec fn spec_passed_node<
    I: TreeCursor,
    F: Fn(&<I::Item as UnwrappableDevTreeItem>::TreeNode) -> Result<bool, DevTreeError>,
>(it: I, predicate: F, j: nat) -> bool {
    exists|node: <I::Item as UnwrappableDevTreeItem>::TreeNode, said: Result<bool, DevTreeError>|
        spec_until_node(spec_nth_node(it, j)).spec_gives_node(node) && #[trigger] call_ensures(
            predicate,
            (&node,),
            said,
        ) && !(said matches Ok(true))
}

/// What a search with a predicate over the nodes comes to.
pub open spec fn spec_found_node<
    I: TreeCursor,
    F: Fn(&<I::Item as UnwrappableDevTreeItem>::TreeNode) -> Result<bool, DevTreeError>,
>(start: I, predicate: F, r: Option<<I::Item as UnwrappableDevTreeItem>::TreeNode>, end: I) -> bool {
    exists|k: nat|
        {
            &&& end == spec_until_node(#[trigger] spec_nth_node(start, k)).spec_next_state()
            &&& forall|j: nat| j < k ==> #[trigger] spec_passed_node(start, predicate, j)
            &&& match r {
                Some(node) => spec_until_node(spec_nth_node(start, k)).spec_gives_node(node)
                    && call_ensures(predicate, (&node,), Ok(true)),
                None => spec_until_node(spec_nth_node(start, k)).spec_ended(),
            }
        }
}

/// The cursor after `k` properties have been found and passed.
pub open spec fn spec_nth_prop<I: TreeCursor>(it: I, k: nat) -> I
    decreases k,
{
    if k == 0 {
        it
    } else {
        spec_until_prop(spec_nth_prop(it, (k - 1) as nat)).spec_next_state()
    }
}

/// Whether `predicate` was asked of the property that the cursor finds after
/// `j` properties and did not say `Ok(true)`.
pub open spec fn spec_passed_prop<
    I: TreeCursor,
    F: Fn(&<I::Item as UnwrappableDevTreeItem>::TreeProp) -> Result<bool, DevTreeError>,
>(it: I, predicate: F, j: nat) -> bool {
    exists|prop: <I::Item as UnwrappableDevTreeItem>::TreeProp, said: Result<bool, DevTreeError>|
        spec_until_prop(spec_nth_prop(it, j)).spec_gives_prop(prop) && #[trigger] call_ensures(
            predicate,
            (&prop,),
            said,
        ) && !(said matches Ok(true))
}

/// What a search with a predicate over the properties comes to.
pub open spec fn spec_found_prop<
    I: TreeCursor,
    F: Fn(&<I::Item as UnwrappableDevTreeItem>::TreeProp) -> Result<bool, DevTreeError>,
>(start: I, predicate: F, r: Option<<I::Item as UnwrappableDevTreeItem>::TreeProp>, end: I) -> bool {
    exists|k: nat|
        {
            &&& end == spec_until_prop(#[trigger] spec_nth_prop(start, k)).spec_next_state()
            &&& forall|j: nat| j < k ==> #[trigger] spec_passed_prop(start, predicate, j)
            &&& match r {
                Some(prop) => spec_until_prop(spec_nth_prop(start, k)).spec_gives_prop(prop)
                    && call_ensures(predicate, (&prop,), Ok(true)),
                None => spec_until_prop(spec_nth_prop(start, k)).spec_ended(),
            }
        }
}

/// Where a search for a compatible node stops: the cursor first passes one
/// node, then moves on until its next item is a matching property, whose
/// owner is what the search finds; or until its stream has ended.
pub open spec fn spec_compatible_search<I: TreeCursor>(it: I, target: Seq<u8>) -> I {
    let first = spec_until_node(it);
    if first.spec_ended() {
        first
    } else {
        spec_until_compatible(first.spec_next_state(), target)
    }
}

/// Moving on to the next node keeps the cursor valid and stops at a node or
/// at the end of the stream.
pub proof fn lemma_until_node_ok<I: TreeCursor>(it: I)
    requires
        it.spec_ok(),
    ensures
        spec_until_node(it).spec_ok(),
        spec_until_node(it).spec_ended() || spec_until_node(it).spec_at_node(),
        spec_until_node(it).spec_budget() <= it.spec_budget(),
    decreases it.spec_budget(),
{
    if !(it.spec_ended() || it.spec_at_node()) {
        it.lemma_advance();
        lemma_until_node_ok(it.spec_next_state());
    }
}

/// Moving on to the next property keeps the cursor valid and stops at a
/// property or at the end of the stream.
pub proof fn lemma_until_prop_ok<I: TreeCursor>(it: I)
    requires
        it.spec_ok(),
    ensures
        spec_until_prop(it).spec_ok(),
        spec_until_prop(it).spec_ended() || spec_until_prop(it).spec_at_prop(),
        spec_until_prop(it).spec_budget() <= it.spec_budget(),
    decreases it.spec_budget(),
{
    if !(it.spec_ended() || it.spec_at_prop()) {
        it.lemma_advance();
        lemma_until_prop_ok(it.spec_next_state());
    }
}

/// Moving on to the next matching property keeps the cursor valid and stops
/// at such a property or at the end of the stream.
pub proof fn lemma_until_compatible_ok<I: TreeCursor>(it: I, target: Seq<u8>)
    requires
        it.spec_ok(),
    ensures
        spec_until_compatible(it, target).spec_ok(),
        spec_until_compatible(it, target).spec_ended() || spec_until_compatible(
            it,
            target,
        ).spec_at_compatible(target),
    decreases it.spec_budget(),
{
    if !(it.spec_ended() || it.spec_at_compatible(target)) {
        it.lemma_advance();
        lemma_until_compatible_ok(it.spec_next_state(), target);
    }
}

/// A cursor that has ended stays ended: once a step has yielded nothing,
/// every further step and every search yields nothing and leaves the cursor
/// where that step left it.
pub proof fn lemma_ended_for_good<I: TreeCursor>(it: I, target: Seq<u8>)
    requires
        it.spec_ok(),
        it.spec_ended(),
    ensures
        it.spec_next_state().spec_ok(),
        it.spec_next_state().spec_ended(),
        spec_until_node(it) == it,
        spec_until_prop(it) == it,
        spec_until_compatible(it, target) == it,
        spec_compatible_search(it, target) == it,
        !it.spec_at_prop(),
{
    it.lemma_advance();
}

/// A search that finds nothing leaves the cursor ended.
pub proof fn lemma_failed_search_ends<I: TreeCursor>(it: I, target: Seq<u8>)
    requires
        it.spec_ok(),
    ensures
        spec_until_node(it).spec_ended() ==> spec_until_node(it).spec_next_state().spec_ended(),
        spec_until_prop(it).spec_ended() ==> spec_until_prop(it).spec_next_state().spec_ended(),
        spec_compatible_search(it, target).spec_ok(),
        spec_compatible_search(it, target).spec_ended() ==> spec_compatible_search(
            it,
            target,
        ).spec_next_state().spec_ended(),
{
    lemma_until_node_ok(it);
    lemma_until_prop_ok(it);
    spec_until_node(it).lemma_advance();
    spec_until_prop(it).lemma_advance();
    if !spec_until_node(it).spec_ended() {
        lemma_until_compatible_ok(spec_until_node(it).spec_next_state(), target);
    }
    spec_compatible_search(it, target).lemma_advance();
}

/// The nodes that a cursor finds one after the other are the nodes of its
/// stream, in their order: where the search for the next node stops, the
/// nodes still to come are all the nodes of the stream; the node found there
/// has the first of their names, and the others remain.
pub proof fn lemma_nodes_in_order<I: TreeCursor>(it: I)
    requires
        it.spec_ok(),
    ensures
        spec_node_names(spec_until_node(it).spec_items()) == spec_node_names(it.spec_items()),
        spec_until_node(it).spec_ended() <==> spec_node_names(it.spec_items()).len() == 0,
        !spec_until_node(it).spec_ended() ==> {
            &&& spec_until_node(it).spec_items().len() > 0
            &&& spec_until_node(it).spec_items()[0] == (ItemView::Node {
                name: spec_node_names(it.spec_items())[0],
            })
            &&& spec_node_names(spec_until_node(it).spec_next_state().spec_items())
                == spec_node_names(it.spec_items()).skip(1)
        },
    decreases it.spec_budget(),
{
    it.lemma_advance();
    if !(it.spec_ended() || it.spec_at_node()) {
        lemma_nodes_in_order(it.spec_next_state());
    } else if !it.spec_ended() {
        let names = spec_node_names(it.spec_items());
        assert(names.skip(1) =~= spec_node_names(it.spec_items().skip(1)));
    }
}

/// A cursor over the nodes that a cursor over items passes.
pub struct TreeNodeIter<II: TreeIterator>(pub II);

impl<II: TreeIterator> TreeNodeIter<II> {
    /// The next node.
    pub fn next(&mut self) -> (r: Option<<II::Item as UnwrappableDevTreeItem>::TreeNode>)
        requires
            old(self).0.spec_ok(),
        ensures
            final(self).0.spec_ok(),
            final(self).0 == spec_until_node(old(self).0).spec_next_state(),
            r is None <==> spec_until_node(old(self).0).spec_ended(),
            r matches Some(node) ==> spec_until_node(old(self).0).spec_gives_node(node),
    {
        self.0.next_node()
    }
}

/// A cursor over the properties that a cursor over items passes.
pub struct TreePropIter<II: TreeIterator>(pub II);

impl<II: TreeIterator> TreePropIter<II> {
    /// The next property.
    pub fn next(&mut self) -> (r: Option<<II::Item as UnwrappableDevTreeItem>::TreeProp>)
        requires
            old(self).0.spec_ok(),
        ensures
            final(self).0.spec_ok(),
            final(self).0 == spec_until_prop(old(self).0).spec_next_state(),
            r is None <==> spec_until_prop(old(self).0).spec_ended(),
            r matches Some(prop) ==> spec_until_prop(old(self).0).spec_gives_prop(prop),
    {
        self.0.next_prop()
    }
}

/// A cursor over the properties of the node that a cursor over items is in.
pub struct TreeNodePropIter<II: TreeIterator>(pub II);

impl<II: TreeIterator> TreeNodePropIter<II> {
    /// The next property of the node, or `None` for good once an item that
    /// is no property comes next.
    pub fn next(&mut self) -> (r: Option<<II::Item as UnwrappableDevTreeItem>::TreeProp>)
        requires
            old(self).0.spec_ok(),
        ensures
            final(self).0.spec_ok(),
            r is Some <==> old(self).0.spec_at_prop(),
            r matches Some(prop) ==> old(self).0.spec_gives_prop(prop) && final(self).0 == old(self).0.spec_next_state(),
            r is None ==> *final(self) == *old(self),
    {
        self.0.next_node_prop()
    }
}

/// A cursor over the nodes that are compatible with a given string.
pub struct TreeCompatibleNodeIter<'s, II: TreeIterator>(pub II, pub &'s str);

impl<'s, II: TreeIterator> TreeCompatibleNodeIter<'s, II> {
    /// A search for `string` from `iter` on.
    pub fn new(iter: II, string: &'s str) -> (r: Self)
        ensures
            r.0 == iter,
            r.1 == string,
    {
        Self(iter, string)
    }

    /// The next compatible node.
    pub fn next(&mut self) -> (r: Option<<II::Item as UnwrappableDevTreeItem>::TreeNode>)
        requires
            old(self).0.spec_ok(),
        ensures
            final(self).0.spec_ok(),
            final(self).1 == old(self).1,
            final(self).0 == spec_compatible_search(
                old(self).0,
                old(self).1.spec_bytes(),
            ).spec_next_state(),
            r is None <==> spec_compatible_search(
                old(self).0,
                old(self).1.spec_bytes(),
            ).spec_ended(),
            r matches Some(node) ==> spec_compatible_search(
                old(self).0,
                old(self).1.spec_bytes(),
            ).spec_gives_owner(node),
    {
        self.0.next_compatible_node(self.1)
    }
}

/// A tree that can be walked: it offers a cursor over its items, and with
/// that cursors over its nodes and its properties, its root, and the search
/// for compatible nodes.
pub trait IterableDevTree<'a, 'dt> {
    type TreeIter: TreeIterator;

    /// The tree is valid.
    spec fn spec_walkable(&self) -> bool;

    /// The bytes of the tree.
    spec fn spec_tree_bytes(&self) -> Seq<u8>;

    /// The cursor at the start of the tree.
    spec fn spec_first(&'a self) -> Self::TreeIter;

    /// A cursor over all nodes and properties of the tree, in its order.
    fn items(&'a self) -> (r: Self::TreeIter)
        requires
            self.spec_walkable(),
        ensures
            r.spec_ok(),
            r == self.spec_first(),
    ;

    /// The bytes of the tree.
    fn buf(&'a self) -> (r: &'dt [u8])
        ensures
            r@ == self.spec_tree_bytes(),
    ;

    /// A cursor over the nodes of the tree.
    fn nodes(&'a self) -> (r: TreeNodeIter<Self::TreeIter>)
        requires
            self.spec_walkable(),
        ensures
            r.0.spec_ok(),
            r.0 == self.spec_first(),
    {
        TreeNodeIter(self.items())
    }

    /// A cursor over the properties of the tree, whatever node they belong
    /// to.
    fn props(&'a self) -> (r: TreePropIter<Self::TreeIter>)
        requires
            self.spec_walkable(),
        ensures
            r.0.spec_ok(),
            r.0 == self.spec_first(),
    {
        TreePropIter(self.items())
    }

    /// A cursor over the nodes that have a property `compatible` whose first
    /// string is `string`.
    fn compatible_nodes<'s>(&'a self, string: &'s str) -> (r: TreeCompatibleNodeIter<
        's,
        Self::TreeIter,
    >)
        requires
            self.spec_walkable(),
        ensures
            r.0.spec_ok(),
            r.0 == self.spec_first(),
            r.1 == string,
    {
        TreeCompatibleNodeIter::new(self.items(), string)
    }

    /// The root: the first node of the tree, if it has one.
    fn root(&'a self) -> (r: Option<
        <<Self::TreeIter as TreeCursor>::Item as UnwrappableDevTreeItem>::TreeNode,
    >)
        requires
            self.spec_walkable(),
        ensures
            r is None <==> spec_until_node(self.spec_first()).spec_ended(),
            r matches Some(node) ==> spec_until_node(self.spec_first()).spec_gives_node(node),
    {
        let mut iter = self.items();
        iter.next_node()
    }

    /// The first node of the tree that has a property `compatible` whose
    /// first string is `string`.
    fn find_first_compatible_node(&'a self, string: &str) -> (r: Option<
        <<Self::TreeIter as TreeCursor>::Item as UnwrappableDevTreeItem>::TreeNode,
    >)
        requires
            self.spec_walkable(),
        ensures
            r is None <==> spec_compatible_search(
                self.spec_first(),
                string.spec_bytes(),
            ).spec_ended(),
            r matches Some(node) ==> spec_compatible_search(
                self.spec_first(),
                string.spec_bytes(),
            ).spec_gives_owner(node),
    {
        let mut iter = self.items();
        iter.next_compatible_node(string)
    }
}

} // verus!
