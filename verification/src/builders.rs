//! Filling a region from the lists of the parsed design.

use vstd::prelude::*;
use crate::ast::{Declaration, ElementDeclaration, InterfaceDeclaration};
use crate::items::{
    declarative_part_items, element_items, interface_list_items, item_views,
};
use crate::message::{message_views, Message};
use crate::region::{
    items_messages, lemma_items_concat, region_after_items, DeclarativeItem, DeclarativeRegion,
    ItemView,
};

verus! {

impl DeclarativeRegion {
    /// Declares the items in the region, one after the other.
    fn add_items(&mut self, items: Vec<DeclarativeItem>, messages: &mut Vec<Message>)
        requires
            old(self).wf(),
        ensures
            final(self).wf(),
            final(self)@ == region_after_items(old(self)@, item_views(items@)),
            message_views(final(messages)@) == message_views(old(messages)@) + items_messages(
                old(self)@,
                item_views(items@),
            ),
    {
        let ghost all = item_views(items@);
        let ghost start = self@;
        let ghost reported = message_views(messages@);
        assert(all.take(0) =~= Seq::<ItemView>::empty());
        assert(reported + items_messages(start, all.take(0)) =~= reported);
        for item in it: items
            invariant
                self.wf(),
                it.seq().len() == all.len(),
                forall|j: int| 0 <= j < all.len() ==> it.seq()[j]@ == all[j],
                self@ == region_after_items(start, all.take(it.index() as int)),
                message_views(messages@) == reported + items_messages(
                    start,
                    all.take(it.index() as int),
                ),
        {
            let ghost done = all.take(it.index() as int);
            let ghost view = item@;
            self.add(item, messages);
            proof {
                let next = all.take(it.index() + 1);
                assert(next.drop_last() =~= done);
                assert(next.last() == view);
                assert(message_views(messages@) =~= reported + items_messages(start, next));
            }
        }
        assert(all.take(all.len() as int) =~= all);
    }

    /// Declares the names of an interface list in the region, in source
    /// order.
    pub fn add_interface_list(
        &mut self,
        declarations: &Vec<InterfaceDeclaration>,
        messages: &mut Vec<Message>,
    )
        requires
            old(self).wf(),
        ensures
            final(self).wf(),
            final(self)@ == region_after_items(old(self)@, interface_list_items(declarations@)),
            message_views(final(messages)@) == message_views(old(messages)@) + items_messages(
                old(self)@,
                interface_list_items(declarations@),
            ),
    {
        let ghost start = self@;
        let ghost reported = message_views(messages@);
        let mut i: usize = 0;
        assert(interface_list_items(declarations@.take(0)) =~= Seq::<ItemView>::empty());
        assert(reported + items_messages(start, Seq::<ItemView>::empty()) =~= reported);
        while i < declarations.len()
            invariant
                i <= declarations.len(),
                self.wf(),
                self@ == region_after_items(start, interface_list_items(declarations@.take(i as int))),
                message_views(messages@) == reported + items_messages(
                    start,
                    interface_list_items(declarations@.take(i as int)),
                ),
            decreases declarations.len() - i,
        {
            let ghost done = interface_list_items(declarations@.take(i as int));
            let items = declarations[i].declarative_items();
            self.add_items(items, messages);
            proof {
                let one = seq![declarations@[i as int].item()];
                assert(interface_list_items(declarations@.take(i + 1)) =~= done + one);
                lemma_items_concat(start, done, one);
                assert(message_views(messages@) =~= reported + items_messages(start, done + one));
            }
            i += 1;
        }
        assert(declarations@.take(i as int) =~= declarations@);
    }

    /// Declares the names of a declarative part in the region, in source
    /// order.
    pub fn add_declarative_part(
        &mut self,
        declarations: &Vec<Declaration>,
        messages: &mut Vec<Message>,
    )
        requires
            old(self).wf(),
        ensures
            final(self).wf(),
            final(self)@ == region_after_items(old(self)@, declarative_part_items(declarations@)),
            message_views(final(messages)@) == message_views(old(messages)@) + items_messages(
                old(self)@,
                declarative_part_items(declarations@),
            ),
    {
        let ghost start = self@;
        let ghost reported = message_views(messages@);
        let mut i: usize = 0;
        assert(reported + items_messages(start, Seq::<ItemView>::empty()) =~= reported);
        while i < declarations.len()
            invariant
                i <= declarations.len(),
                self.wf(),
                self@ == region_after_items(
                    start,
                    declarative_part_items(declarations@.take(i as int)),
                ),
                message_views(messages@) == reported + items_messages(
                    start,
                    declarative_part_items(declarations@.take(i as int)),
                ),
            decreases declarations.len() - i,
        {
            let ghost done = declarative_part_items(declarations@.take(i as int));
            let items = declarations[i].declarative_items();
            self.add_items(items, messages);
            proof {
                let more = declarations@[i as int].items();
                assert(declarations@.take(i + 1).drop_last() =~= declarations@.take(i as int));
                assert(declarative_part_items(declarations@.take(i + 1)) == done + more);
                lemma_items_concat(start, done, more);
                assert(message_views(messages@) =~= reported + items_messages(start, done + more));
            }
            i += 1;
        }
        assert(declarations@.take(i as int) =~= declarations@);
    }

    /// Declares the names of the elements of a record type in the region,
    /// in source order.
    pub fn add_element_declarations(
        &mut self,
        declarations: &Vec<ElementDeclaration>,
        messages: &mut Vec<Message>,
    )
        requires
            old(self).wf(),
        ensures
            final(self).wf(),
            final(self)@ == region_after_items(old(self)@, element_items(declarations@)),
            message_views(final(messages)@) == message_views(old(messages)@) + items_messages(
                old(self)@,
                element_items(declarations@),
            ),
    {
        let ghost start = self@;
        let ghost reported = message_views(messages@);
        let mut i: usize = 0;
        assert(element_items(declarations@.take(0)) =~= Seq::<ItemView>::empty());
        assert(reported + items_messages(start, Seq::<ItemView>::empty()) =~= reported);
        while i < declarations.len()
            invariant
                i <= declarations.len(),
                self.wf(),
                self@ == region_after_items(start, element_items(declarations@.take(i as int))),
                message_views(messages@) == reported + items_messages(
                    start,
                    element_items(declarations@.take(i as int)),
                ),
            decreases declarations.len() - i,
        {
            let ghost done = element_items(declarations@.take(i as int));
            let item = DeclarativeItem::from_ident(&declarations[i].ident);
            let ghost view = item@;
            self.add(item, messages);
            proof {
                let next = element_items(declarations@.take(i + 1));
                assert(next.drop_last() =~= done);
                assert(next.last() == view);
                assert(message_views(messages@) =~= reported + items_messages(start, next));
            }
            i += 1;
        }
        assert(declarations@.take(i as int) =~= declarations@);
    }
}

} // verus!
