//! What holds of every rule, record and context.

use crate::condition::{
    all_pass, any_passes, filtered, lemma_all_pass_decided, lemma_any_passes_decided, Logic, Node,
};
use crate::error::Error;
use crate::value::{items_view, Json, Value};
use vstd::prelude::*;

verus! {

/// A wildcard comparand makes the predicate of a node pass on every record,
/// whether or not the record has the property.
pub proof fn lemma_wildcard_comparand_passes(node: Node, item: Json, context: Json)
    requires
        node.property is Some,
        node.comparand(context) matches Ok(comparand) && comparand.wildcard(),
    ensures
        node.leaf(item, context) == Ok::<bool, Error>(true),
{
}

/// A wildcard under the property in the record makes the predicate of a
/// node pass, whatever the comparand and the operator are, as long as the
/// node has a comparand.
pub proof fn lemma_wildcard_field_passes(node: Node, item: Json, context: Json)
    requires
        node.property matches Some(property) && item.member(property) matches Some(found)
            && found.wildcard(),
        node.comparand(context) is Ok,
    ensures
        node.leaf(item, context) == Ok::<bool, Error>(true),
{
}

/// A node that reads no property and has no children passes on every
/// record.
pub proof fn lemma_unconstrained_passes(node: Node, item: Json, context: Json)
    requires
        node.property is None,
        node.conditions matches Some(children) ==> children.len() == 0,
    ensures
        node.verdict(item, context) == Ok::<bool, Error>(true),
{
}

/// A record without the property fails the node: that is a verdict, no
/// error. The comparand comes first, so it must be there and be no
/// wildcard.
pub proof fn lemma_missing_field_fails(node: Node, item: Json, context: Json)
    requires
        node.property matches Some(property) && item.member(property) is None,
        node.comparand(context) matches Ok(comparand) && !comparand.wildcard(),
    ensures
        node.verdict(item, context) == Ok::<bool, Error>(false),
{
}

/// `And` stops at the first child that fails: where the children before
/// child `k` pass and child `k` fails, the children together fail, whatever
/// the later children are and even if one of them is malformed.
pub proof fn lemma_and_short_circuits(children: Seq<Node>, item: Json, context: Json, k: int)
    requires
        0 <= k < children.len(),
        forall|j: int|
            0 <= j < k ==> (#[trigger] children[j]).verdict(item, context) == Ok::<bool, Error>(
                true,
            ),
        children[k].verdict(item, context) == Ok::<bool, Error>(false),
    ensures
        all_pass(children, item, context, children.len()) == Ok::<bool, Error>(false),
{
    lemma_all_pass_prefix(children, item, context, k as nat);
    lemma_all_pass_decided(children, item, context, (k + 1) as nat, children.len());
}

/// `Or` stops at the first child that passes: where the children before
/// child `k` fail and child `k` passes, the children together pass,
/// whatever the later children are and even if one of them is malformed.
pub proof fn lemma_or_short_circuits(children: Seq<Node>, item: Json, context: Json, k: int)
    requires
        0 <= k < children.len(),
        forall|j: int|
            0 <= j < k ==> (#[trigger] children[j]).verdict(item, context) == Ok::<bool, Error>(
                false,
            ),
        children[k].verdict(item, context) == Ok::<bool, Error>(true),
    ensures
        any_passes(children, item, context, children.len()) == Ok::<bool, Error>(true),
{
    lemma_any_passes_prefix(children, item, context, k as nat);
    lemma_any_passes_decided(children, item, context, (k + 1) as nat, children.len());
}

/// A node whose own predicate passes and whose children are combined by
/// `And`, by name or by default, fails where `lemma_and_short_circuits`
/// says that its children fail.
pub proof fn lemma_and_node_short_circuits(node: Node, item: Json, context: Json, k: int)
    requires
        node.leaf(item, context) == Ok::<bool, Error>(true),
        node.logic != Some(Logic::Or),
        node.conditions matches Some(children) && 0 <= k < children.len() && children[k].verdict(
            item,
            context,
        ) == Ok::<bool, Error>(false) && forall|j: int|
            0 <= j < k ==> (#[trigger] children[j]).verdict(item, context) == Ok::<bool, Error>(
                true,
            ),
    ensures
        node.verdict(item, context) == Ok::<bool, Error>(false),
{
    lemma_and_short_circuits(node.conditions->Some_0, item, context, k);
}

/// A node whose own predicate passes and whose children are combined by
/// `Or` passes where `lemma_or_short_circuits` says that its children pass.
pub proof fn lemma_or_node_short_circuits(node: Node, item: Json, context: Json, k: int)
    requires
        node.leaf(item, context) == Ok::<bool, Error>(true),
        node.logic == Some(Logic::Or),
        node.conditions matches Some(children) && 0 <= k < children.len() && children[k].verdict(
            item,
            context,
        ) == Ok::<bool, Error>(true) && forall|j: int|
            0 <= j < k ==> (#[trigger] children[j]).verdict(item, context) == Ok::<bool, Error>(
                false,
            ),
    ensures
        node.verdict(item, context) == Ok::<bool, Error>(true),
{
    lemma_or_short_circuits(node.conditions->Some_0, item, context, k);
}

/// Children that all pass pass together.
proof fn lemma_all_pass_prefix(children: Seq<Node>, item: Json, context: Json, n: nat)
    requires
        n <= children.len(),
        forall|j: int|
            0 <= j < n ==> (#[trigger] children[j]).verdict(item, context) == Ok::<bool, Error>(
                true,
            ),
    ensures
        all_pass(children, item, context, n) == Ok::<bool, Error>(true),
    decreases n,
{
    if n > 0 {
        lemma_all_pass_prefix(children, item, context, (n - 1) as nat);
    }
}

/// Children that all fail fail together.
proof fn lemma_any_passes_prefix(children: Seq<Node>, item: Json, context: Json, n: nat)
    requires
        n <= children.len(),
        forall|j: int|
            0 <= j < n ==> (#[trigger] children[j]).verdict(item, context) == Ok::<bool, Error>(
                false,
            ),
    ensures
        any_passes(children, item, context, n) == Ok::<bool, Error>(false),
    decreases n,
{
    if n > 0 {
        lemma_any_passes_prefix(children, item, context, (n - 1) as nat);
    }
}

/// Two results are one outcome: the same records in the same order, or the
/// same error.
pub open spec fn same_outcome(
    first: Result<Vec<&Value>, Error>,
    second: Result<Vec<&Value>, Error>,
) -> bool {
    match first {
        Ok(kept) => second matches Ok(others) && kept@.len() == others@.len() && forall|i: int|
            0 <= i < kept@.len() ==> *(#[trigger] kept@[i]) == *others@[i],
        Err(e) => second matches Err(f) && e == f,
    }
}

/// The sequential, the parallel and the adaptive filter come to one outcome
/// on one rule, one collection and one context, whatever the threshold is:
/// each of them returns what `Node::passing` describes, and any two results
/// of that description are one outcome.
pub proof fn lemma_filters_agree(
    node: Node,
    items: Seq<Value>,
    context: Json,
    first: Result<Vec<&Value>, Error>,
    second: Result<Vec<&Value>, Error>,
)
    requires
        filtered(first, items, node.passing(items_view(items), context, items.len())),
        filtered(second, items, node.passing(items_view(items), context, items.len())),
    ensures
        same_outcome(first, second),
{
    if let Ok(kept) = first {
        let others = second->Ok_0;
        let at = node.passing(items_view(items), context, items.len())->Ok_0;
        assert forall|i: int| 0 <= i < kept@.len() implies *(#[trigger] kept@[i]) == *others@[i] by {
            assert(*others@[i] == items[at[i]]);
        }
    }
}

} // verus!
