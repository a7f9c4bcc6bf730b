//! What holds of the name checks in general, proved from the definitions
//! that the contracts of the checking functions use.

use vstd::prelude::*;
use crate::analyzer::{
    analysis_messages, architectures_messages, context_clause_messages, library_name_messages,
    missing_library_text, std_name, work_name,
};
use crate::ast::{ArchitectureBody, Declaration, DesignUnit, DesignatorView, Ident};
use crate::items::declarative_part_items;
use crate::library::DesignRoot;
use crate::message::{message_views, Message, MessageView, Severity};
use crate::region::{
    accepts, add_messages, collides, duplicate_message, items_messages, lemma_items_concat,
    lemma_items_single, region_after_add, region_after_items, ItemView,
};
use crate::scopes::{declarative_part_messages, nested_messages};

verus! {

/// No two of the items have the same name.
pub open spec fn pairwise_distinct(items: Seq<ItemView>) -> bool {
    forall|i: int, j: int|
        0 <= i < j < items.len() ==> (#[trigger] items[i]).designator != (
        #[trigger] items[j]).designator
}

/// One of the items has the name `designator`.
pub open spec fn declares(items: Seq<ItemView>, designator: DesignatorView) -> bool {
    exists|i: int| 0 <= i < items.len() && (#[trigger] items[i]).designator == designator
}

/// Items whose names differ from one another and from every name of the
/// region are all entered, and nothing is reported: afterwards the region
/// holds its old names and the new ones, each new name stands for its own
/// item, and each old name for the entry it had.
pub proof fn lemma_new_names_report_nothing(
    region: Map<DesignatorView, ItemView>,
    items: Seq<ItemView>,
)
    requires
        pairwise_distinct(items),
        forall|i: int| 0 <= i < items.len() ==> !region.contains_key((#[trigger] items[i]).designator),
    ensures
        items_messages(region, items) == Seq::<MessageView>::empty(),
        forall|d: DesignatorView|
            #[trigger] region_after_items(region, items).contains_key(d) <==> (region.contains_key(d)
                || declares(items, d)),
        forall|i: int|
            0 <= i < items.len() ==> region_after_items(region, items)[(
            #[trigger] items[i]).designator] == items[i],
        forall|d: DesignatorView|
            region.contains_key(d) ==> #[trigger] region_after_items(region, items)[d] == region[d],
    decreases items.len(),
{
    if items.len() > 0 {
        let front = items.drop_last();
        let last = items.last();
        lemma_new_names_report_nothing(region, front);
        let mid = region_after_items(region, front);
        assert forall|i: int| 0 <= i < items.len() implies region_after_items(region, items)[(
        #[trigger] items[i]).designator] == items[i] by {
            if i < items.len() - 1 {
                assert(front[i] == items[i]);
                assert(items[i].designator != items[items.len() - 1].designator);
            }
        }
        assert forall|d: DesignatorView| region.contains_key(d) implies #[trigger] region_after_items(
            region,
            items,
        )[d] == region[d] by {
            assert(!region.contains_key(items[items.len() - 1].designator));
        }
        assert(!mid.contains_key(last.designator)) by {
            if declares(front, last.designator) {
                let i = choose|i: int|
                    0 <= i < front.len() && (#[trigger] front[i]).designator == last.designator;
                assert(items[i].designator == items[items.len() - 1].designator);
            }
        }
        assert(!collides(mid, last));
        assert(items_messages(region, items) =~= Seq::<MessageView>::empty());
        assert forall|d: DesignatorView|
            #[trigger] region_after_items(region, items).contains_key(d) <==> (region.contains_key(d)
                || declares(items, d)) by {
            if declares(items, d) {
                let i = choose|i: int|
                    0 <= i < items.len() && (#[trigger] items[i]).designator == d;
                if i < items.len() - 1 {
                    assert(front[i].designator == d);
                }
            }
            if declares(front, d) {
                let i = choose|i: int|
                    0 <= i < front.len() && (#[trigger] front[i]).designator == d;
                assert(items[i].designator == d);
            }
            if d == last.designator {
                assert(items[items.len() - 1].designator == d);
            }
        }
    } else {
        assert forall|d: DesignatorView|
            #[trigger] region_after_items(region, items).contains_key(d) <==> (region.contains_key(d)
                || declares(items, d)) by {
            assert(!declares(items, d));
        }
    }
}

/// A declarative part whose names differ from one another reports no
/// duplicate among them. Where the scopes nested in its declarations
/// report nothing either, the declarative part reports nothing at all.
pub proof fn lemma_distinct_names_report_nothing(declarations: Seq<Declaration>)
    requires
        pairwise_distinct(declarative_part_items(declarations)),
        nested_messages(declarations) == Seq::<MessageView>::empty(),
    ensures
        items_messages(Map::empty(), declarative_part_items(declarations)) == Seq::<
            MessageView,
        >::empty(),
        declarative_part_messages(declarations) == Seq::<MessageView>::empty(),
{
    lemma_new_names_report_nothing(Map::empty(), declarative_part_items(declarations));
    assert(declarative_part_messages(declarations) =~= Seq::<MessageView>::empty());
}

/// What two items declared one after the other report, and the region
/// they leave.
pub proof fn lemma_two_items(region: Map<DesignatorView, ItemView>, first: ItemView, second: ItemView)
    ensures
        items_messages(region, seq![first, second]) == add_messages(region, first) + add_messages(
            region_after_add(region, first),
            second,
        ),
        region_after_items(region, seq![first, second]) == region_after_add(
            region_after_add(region, first),
            second,
        ),
{
    assert(seq![first] + seq![second] =~= seq![first, second]);
    lemma_items_concat(region, seq![first], seq![second]);
    lemma_items_single(region, first);
    lemma_items_single(region_after_add(region, first), second);
}

/// A name declared twice in a scope that did not hold it, where the second
/// declaration may not take the place of the first: the second is
/// reported at its own place, with the first as the related place, and the
/// first goes on standing for the name.
pub proof fn lemma_redeclaration_is_reported(first: ItemView, second: ItemView)
    requires
        first.designator == second.designator,
        !accepts(first, second),
    ensures
        items_messages(Map::empty(), seq![first, second]) == seq![duplicate_message(first, second)],
        region_after_items(Map::empty(), seq![first, second]) == Map::<
            DesignatorView,
            ItemView,
        >::empty().insert(first.designator, first),
{
    lemma_two_items(Map::empty(), first, second);
    assert(items_messages(Map::empty(), seq![first, second]) =~= seq![
        duplicate_message(first, second),
    ]);
}

/// A deferred declaration followed by a complete declaration of the same
/// name, in a scope that did not hold the name: nothing is reported, and
/// the complete declaration stands for the name.
pub proof fn lemma_deferred_then_complete(deferred: ItemView, complete: ItemView)
    requires
        deferred.designator == complete.designator,
        deferred.is_deferred,
        !complete.is_deferred,
    ensures
        items_messages(Map::empty(), seq![deferred, complete]) == Seq::<MessageView>::empty(),
        region_after_items(Map::empty(), seq![deferred, complete])[complete.designator] == complete,
{
    lemma_two_items(Map::empty(), deferred, complete);
    assert(items_messages(Map::empty(), seq![deferred, complete]) =~= Seq::<MessageView>::empty());
}

/// A complete declaration followed by a deferred declaration of the same
/// name: the deferred one is a duplicate, reported at its own place with
/// the complete one as the related place. Unless both may be overloaded,
/// a declaration that is not complete never replaces one of its name.
pub proof fn lemma_complete_then_deferred(complete: ItemView, deferred: ItemView)
    requires
        deferred.designator == complete.designator,
        deferred.is_deferred,
        !(complete.may_overload && deferred.may_overload),
    ensures
        items_messages(Map::empty(), seq![complete, deferred]) == seq![
            duplicate_message(complete, deferred),
        ],
        region_after_items(Map::empty(), seq![complete, deferred])[complete.designator] == complete,
{
    lemma_two_items(Map::empty(), complete, deferred);
    assert(items_messages(Map::empty(), seq![complete, deferred]) =~= seq![
        duplicate_message(complete, deferred),
    ]);
}

/// A deferred declaration completed once and then declared once more:
/// one duplicate, that of the third declaration against the second.
pub proof fn lemma_completed_only_once(deferred: ItemView, second: ItemView, third: ItemView)
    requires
        deferred.designator == second.designator,
        second.designator == third.designator,
        deferred.is_deferred,
        !second.is_deferred,
        !third.is_deferred,
        !(second.may_overload && third.may_overload),
    ensures
        items_messages(Map::empty(), seq![deferred, second, third]) == seq![
            duplicate_message(second, third),
        ],
{
    let empty = Map::<DesignatorView, ItemView>::empty();
    assert(seq![deferred, second] + seq![third] =~= seq![deferred, second, third]);
    lemma_items_concat(empty, seq![deferred, second], seq![third]);
    lemma_two_items(empty, deferred, second);
    lemma_items_single(region_after_items(empty, seq![deferred, second]), third);
    assert(items_messages(empty, seq![deferred, second, third]) =~= seq![
        duplicate_message(second, third),
    ]);
}

/// Two declarations of one name that may both be overloaded: nothing is
/// reported, and the later one stands for the name.
pub proof fn lemma_overloads_are_legal(
    region: Map<DesignatorView, ItemView>,
    first: ItemView,
    second: ItemView,
)
    requires
        first.designator == second.designator,
        first.may_overload,
        second.may_overload,
        !collides(region, first),
    ensures
        items_messages(region, seq![first, second]) == Seq::<MessageView>::empty(),
        region_after_items(region, seq![first, second])[second.designator] == second,
{
    lemma_two_items(region, first, second);
    assert(items_messages(region, seq![first, second]) =~= Seq::<MessageView>::empty());
}

/// A name declared once so that it may be overloaded and once so that it
/// may not, in either order, neither of them a completion of the other:
/// the second declaration is a duplicate of the first.
pub proof fn lemma_overload_mismatch(first: ItemView, second: ItemView)
    requires
        first.designator == second.designator,
        first.may_overload != second.may_overload,
        !(first.is_deferred && !second.is_deferred),
    ensures
        items_messages(Map::empty(), seq![first, second]) == seq![
            duplicate_message(first, second),
        ],
{
    lemma_two_items(Map::empty(), first, second);
    assert(items_messages(Map::empty(), seq![first, second]) =~= seq![
        duplicate_message(first, second),
    ]);
}

/// A duplicate leaves the region as it was, and its message points at the
/// new declaration and, as the related place, at the entry of the region.
pub proof fn lemma_duplicate_keeps_region(region: Map<DesignatorView, ItemView>, item: ItemView)
    requires
        collides(region, item),
    ensures
        region_after_add(region, item) == region,
        add_messages(region, item).len() == 1,
        add_messages(region, item)[0].pos == item.pos,
        add_messages(region, item)[0].severity == Severity::Error,
        add_messages(region, item)[0].related == Some(
            (region[item.designator].pos, "Previously defined here"@),
        ),
{
}

/// The architectures of an entity do not see one another: what two of
/// them report is what each reports alone against the region of the
/// entity, the first before the second.
pub proof fn lemma_architectures_are_independent(
    root: DesignRoot,
    region: Map<DesignatorView, ItemView>,
    first: DesignUnit<ArchitectureBody>,
    second: DesignUnit<ArchitectureBody>,
)
    ensures
        architectures_messages(root, region, seq![first, second]) == architectures_messages(
            root,
            region,
            seq![first],
        ) + architectures_messages(root, region, seq![second]),
        architectures_messages(root, region, seq![second]) == context_clause_messages(
            root,
            second.context_clause@,
        ) + second.unit.messages(region),
{
    let both = seq![first, second];
    assert(both.drop_last() =~= seq![first]);
    assert(both.last() == second);
    let one = seq![second];
    assert(one.drop_last() =~= Seq::<DesignUnit<ArchitectureBody>>::empty());
    assert(one.last() == second);
    assert(architectures_messages(root, region, one.drop_last()) =~= Seq::<MessageView>::empty());
    assert(architectures_messages(root, region, one) =~= context_clause_messages(
        root,
        second.context_clause@,
    ) + second.unit.messages(region));
    assert(architectures_messages(root, region, both) =~= architectures_messages(
        root,
        region,
        seq![first],
    ) + architectures_messages(root, region, one));
}

/// A library clause for a library that the design does not hold, other
/// than `work` and `std`: one error at the name.
pub proof fn lemma_missing_library_is_an_error(root: DesignRoot, name: Ident)
    requires
        name.item@ != std_name(),
        name.item@ != work_name(),
        !root.holds_library(name.item@),
    ensures
        library_name_messages(root, name) == seq![
            MessageView {
                pos: name.pos,
                message: missing_library_text(name.item@),
                severity: Severity::Error,
                related: None,
            },
        ],
{
}

/// A library clause for `work`: one hint and no error, whatever libraries
/// the design holds.
pub proof fn lemma_work_library_is_a_hint(root: DesignRoot, name: Ident)
    requires
        name.item@ == work_name(),
    ensures
        library_name_messages(root, name).len() == 1,
        library_name_messages(root, name)[0].severity == Severity::Hint,
        library_name_messages(root, name)[0].pos == name.pos,
{
    assert(work_name()[0] != std_name()[0]);
}

/// A library clause for `std` reports nothing, whatever libraries the
/// design holds.
pub proof fn lemma_std_library_is_predefined(root: DesignRoot, name: Ident)
    requires
        name.item@ == std_name(),
    ensures
        library_name_messages(root, name) == Seq::<MessageView>::empty(),
{
}

/// Analysis is repeatable: two runs on the same design, each into a list
/// of messages that was empty, leave the same diagnostics in the same
/// order.
pub proof fn lemma_analysis_is_repeatable(root: DesignRoot, first: Seq<Message>, second: Seq<Message>)
    requires
        message_views(first) == message_views(Seq::<Message>::empty()) + analysis_messages(root),
        message_views(second) == message_views(Seq::<Message>::empty()) + analysis_messages(root),
    ensures
        message_views(first) == message_views(second),
        message_views(first) == analysis_messages(root),
{
    assert(message_views(Seq::<Message>::empty()) + analysis_messages(root) =~= analysis_messages(
        root,
    ));
}

} // verus!
