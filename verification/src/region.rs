//! Declarative regions: the scopes in which names are declared, and the
//! rule that decides whether a further declaration of a name is legal.

use vstd::prelude::*;
use vstd::string::*;
use fnv::FnvHashMap;
use crate::ast::{Designator, DesignatorView, Ident};
use crate::message::{lemma_message_views_push, message_views, Message, MessageView, Severity};
use crate::source::{SrcPos, WithPos};

verus! {

/// `fnv::FnvHasher`, the hasher state of the FNV hash function. It starts
/// from a fixed value and hashes by the bytes written alone, so equal keys
/// hash alike in every table.
#[verifier::external_type_specification]
#[verifier::external_body]
pub struct ExFnvHasher(fnv::FnvHasher);

/// `std::hash::BuildHasherDefault`, the hasher builder that starts every
/// hasher from its default state; `fnv::FnvHashMap` is the hash map of std
/// with this builder over `FnvHasher`.
#[verifier::external_type_specification]
#[verifier::external_body]
#[verifier::reject_recursive_types(H)]
pub struct ExBuildHasherDefault<H>(std::hash::BuildHasherDefault<H>);

/// One declaration of a name, as the homograph rule sees it.
#[derive(Debug)]
pub struct DeclarativeItem {
    pub designator: WithPos<Designator>,
    pub may_overload: bool,
    pub is_deferred: bool,
}

/// A declarative item as a mathematical value.
pub struct ItemView {
    pub designator: DesignatorView,
    pub pos: SrcPos,
    pub may_overload: bool,
    pub is_deferred: bool,
}

impl View for DeclarativeItem {
    type V = ItemView;

    open spec fn view(&self) -> ItemView {
        ItemView {
            designator: self.designator.item@,
            pos: self.designator.pos,
            may_overload: self.may_overload,
            is_deferred: self.is_deferred,
        }
    }
}

impl Clone for DeclarativeItem {
    fn clone(&self) -> (res: Self)
        ensures
            res@ == self@,
    {
        DeclarativeItem {
            designator: WithPos { item: self.designator.item.clone(), pos: self.designator.pos },
            may_overload: self.may_overload,
            is_deferred: self.is_deferred,
        }
    }
}

impl DeclarativeItem {
    /// An item that may neither be overloaded nor completed later.
    pub fn new(designator: WithPos<Designator>) -> (item: DeclarativeItem)
        ensures
            item@ == (ItemView {
                designator: designator.item@,
                pos: designator.pos,
                may_overload: false,
                is_deferred: false,
            }),
    {
        DeclarativeItem { designator, may_overload: false, is_deferred: false }
    }

    /// The item of an identifier, at the place where it is written.
    pub fn from_ident(ident: &Ident) -> (item: DeclarativeItem)
        ensures
            item@ == (ItemView {
                designator: DesignatorView::Identifier(ident.item@),
                pos: ident.pos,
                may_overload: false,
                is_deferred: false,
            }),
    {
        DeclarativeItem::new(
            WithPos { item: Designator::Identifier(ident.item.clone()), pos: ident.pos },
        )
    }

    /// The same item, with `value` for whether it may be overloaded.
    pub fn with_overload(self, value: bool) -> (item: DeclarativeItem)
        ensures
            item@ == (ItemView { may_overload: value, ..self@ }),
    {
        DeclarativeItem {
            designator: self.designator,
            may_overload: value,
            is_deferred: self.is_deferred,
        }
    }

    /// The same item, with `value` for whether it is a deferred
    /// declaration.
    pub fn with_deferred(self, value: bool) -> (item: DeclarativeItem)
        ensures
            item@ == (ItemView { is_deferred: value, ..self@ }),
    {
        DeclarativeItem {
            designator: self.designator,
            may_overload: self.may_overload,
            is_deferred: value,
        }
    }
}

/// Whether `item` may take the place of `old`, an item of the same name
/// that the region already holds: both may be overloaded, or `old` is a
/// deferred declaration and `item` completes it.
pub open spec fn accepts(old: ItemView, item: ItemView) -> bool {
    (item.may_overload && old.may_overload) || (old.is_deferred && !item.is_deferred)
}

/// Whether declaring `item` in `region` is a duplicate declaration.
pub open spec fn collides(region: Map<DesignatorView, ItemView>, item: ItemView) -> bool {
    region.contains_key(item.designator) && !accepts(region[item.designator], item)
}

/// The region after `item` was declared in it: the item becomes the entry
/// of its name, unless it is a duplicate, which leaves the region as it
/// was.
pub open spec fn region_after_add(
    region: Map<DesignatorView, ItemView>,
    item: ItemView,
) -> Map<DesignatorView, ItemView> {
    if collides(region, item) {
        region
    } else {
        region.insert(item.designator, item)
    }
}

/// The text of the error for a duplicate declaration of `designator`.
pub open spec fn duplicate_text(designator: DesignatorView) -> Seq<char> {
    "Duplicate declaration of '"@ + designator.text() + "'"@
}

/// The error for `item`, a duplicate of `old`.
pub open spec fn duplicate_message(old: ItemView, item: ItemView) -> MessageView {
    MessageView {
        pos: item.pos,
        message: duplicate_text(item.designator),
        severity: Severity::Error,
        related: Some((old.pos, "Previously defined here"@)),
    }
}

/// What declaring `item` in `region` reports: one error if it is a
/// duplicate, else nothing.
pub open spec fn add_messages(region: Map<DesignatorView, ItemView>, item: ItemView) -> Seq<
    MessageView,
> {
    if collides(region, item) {
        seq![duplicate_message(region[item.designator], item)]
    } else {
        Seq::empty()
    }
}

/// The region after the items were declared in it, one after the other.
pub open spec fn region_after_items(
    region: Map<DesignatorView, ItemView>,
    items: Seq<ItemView>,
) -> Map<DesignatorView, ItemView>
    decreases items.len(),
{
    if items.len() == 0 {
        region
    } else {
        region_after_add(region_after_items(region, items.drop_last()), items.last())
    }
}

/// What declaring the items in `region`, one after the other, reports.
pub open spec fn items_messages(region: Map<DesignatorView, ItemView>, items: Seq<ItemView>) -> Seq<
    MessageView,
>
    decreases items.len(),
{
    if items.len() == 0 {
        Seq::empty()
    } else {
        items_messages(region, items.drop_last()) + add_messages(
            region_after_items(region, items.drop_last()),
            items.last(),
        )
    }
}

/// Every entry of the region is filed under its own name.
pub open spec fn filed_by_name(region: Map<DesignatorView, ItemView>) -> bool {
    forall|d: DesignatorView| #[trigger] region.contains_key(d) ==> region[d].designator == d
}

/// Declaring two lists of items one after the other is declaring their
/// concatenation.
pub proof fn lemma_items_concat(
    region: Map<DesignatorView, ItemView>,
    first: Seq<ItemView>,
    second: Seq<ItemView>,
)
    ensures
        region_after_items(region, first + second) == region_after_items(
            region_after_items(region, first),
            second,
        ),
        items_messages(region, first + second) == items_messages(region, first) + items_messages(
            region_after_items(region, first),
            second,
        ),
    decreases second.len(),
{
    if second.len() == 0 {
        assert(first + second =~= first);
        assert(items_messages(region, first) + Seq::<MessageView>::empty() =~= items_messages(
            region,
            first,
        ));
    } else {
        assert((first + second).drop_last() =~= first + second.drop_last());
        assert((first + second).last() == second.last());
        lemma_items_concat(region, first, second.drop_last());
        let mid = region_after_items(region, first);
        assert(items_messages(region, first + second) =~= items_messages(region, first)
            + items_messages(mid, second));
    }
}

/// Declaring a list of one item is declaring the item.
pub proof fn lemma_items_single(region: Map<DesignatorView, ItemView>, item: ItemView)
    ensures
        region_after_items(region, seq![item]) == region_after_add(region, item),
        items_messages(region, seq![item]) == add_messages(region, item),
{
    let items = seq![item];
    assert(items.drop_last() =~= Seq::<ItemView>::empty());
    assert(items.last() == item);
    assert(region_after_items(region, items.drop_last()) == region);
    assert(items_messages(region, items.drop_last()) =~= Seq::<MessageView>::empty());
    assert(items_messages(region, items) =~= add_messages(region, item));
}

/// Declaring items keeps every entry of a region under its own name.
pub proof fn lemma_filed_by_name_kept(region: Map<DesignatorView, ItemView>, items: Seq<ItemView>)
    requires
        filed_by_name(region),
    ensures
        filed_by_name(region_after_items(region, items)),
    decreases items.len(),
{
    if items.len() > 0 {
        lemma_filed_by_name_kept(region, items.drop_last());
    }
}

/// The key under which a designator is filed in the hash table: the
/// number of its kind and the bytes of its text.
pub type DesignatorKey = (u8, Vec<u8>);

impl DesignatorView {
    /// The kind of the designator as a number, and its text.
    pub open spec fn key(self) -> (u8, Seq<u8>) {
        match self {
            DesignatorView::Identifier(name) => (0u8, name),
            DesignatorView::OperatorSymbol(text) => (1u8, text),
            DesignatorView::Character(byte) => (2u8, seq![byte]),
        }
    }
}

/// Designators with the same key are the same designator.
pub proof fn lemma_key_injective(a: DesignatorView, b: DesignatorView)
    requires
        a.key() == b.key(),
    ensures
        a == b,
{
    match (a, b) {
        (DesignatorView::Character(x), DesignatorView::Character(y)) => {
            assert(seq![x][0] == seq![y][0]);
        },
        _ => {},
    }
}

impl Designator {
    /// The key under which the designator is filed.
    pub fn key(&self) -> (key: DesignatorKey)
        ensures
            (key.0, key.1@) == self@.key(),
    {
        match self {
            Designator::Identifier(sym) => (0u8, sym.name().clone().bytes),
            Designator::OperatorSymbol(text) => (1u8, text.clone().bytes),
            Designator::Character(byte) => {
                let mut bytes: Vec<u8> = Vec::new();
                bytes.push(*byte);
                assert(bytes@ =~= seq![*byte]);
                (2u8, bytes)
            },
        }
    }
}

/// What an `fnv::FnvHashMap` of declarative items holds: the view of each
/// item, under the kind and the text of the key it was filed with.
pub uninterp spec fn table_entries(table: FnvHashMap<DesignatorKey, DeclarativeItem>) -> Map<
    (u8, Seq<u8>),
    ItemView,
>;

/// `FnvHashMap::default()`, that is `HashMap::default` of std with the
/// FNV hasher: a table that holds nothing.
#[verifier::external_body]
fn table_new() -> (table: FnvHashMap<DesignatorKey, DeclarativeItem>)
    ensures
        forall|key: (u8, Seq<u8>)| !table_entries(table).contains_key(key),
{
    FnvHashMap::default()
}

/// `HashMap::get` of std on an `FnvHashMap`: the item filed under a key
/// equal to `key`, if there is one, and `None` if there is none. Keys are
/// equal when their kinds are equal and their bytes are.
#[verifier::external_body]
fn table_get<'a>(table: &'a FnvHashMap<DesignatorKey, DeclarativeItem>, key: &DesignatorKey) -> (found:
    Option<&'a DeclarativeItem>)
    ensures
        found is Some <==> table_entries(*table).contains_key((key.0, key.1@)),
        found matches Some(item) ==> item@ == table_entries(*table)[(key.0, key.1@)],
{
    table.get(key)
}

/// `HashMap::insert` of std on an `FnvHashMap`: `item` is filed under
/// `key`, in place of what was filed under an equal key; nothing else
/// changes. What was filed there before is dropped.
#[verifier::external_body]
fn table_insert(
    table: &mut FnvHashMap<DesignatorKey, DeclarativeItem>,
    key: DesignatorKey,
    item: DeclarativeItem,
)
    ensures
        table_entries(*final(table)) == table_entries(*old(table)).insert((key.0, key.1@), item@),
{
    table.insert(key, item);
}

/// `HashMap::clone` of std on an `FnvHashMap`: a table of its own that
/// holds a clone of each key and of each item. A key is cloned byte by
/// byte, and `DeclarativeItem::clone` keeps the view of the item, so the
/// copy holds what the table holds.
#[verifier::external_body]
fn table_clone(table: &FnvHashMap<DesignatorKey, DeclarativeItem>) -> (copy: FnvHashMap<
    DesignatorKey,
    DeclarativeItem,
>)
    ensures
        table_entries(copy) == table_entries(*table),
{
    table.clone()
}

/// A scope: for each name declared in it, the declaration that stands for
/// the name. Its view maps each declared designator to that declaration.
pub struct DeclarativeRegion {
    decls: FnvHashMap<DesignatorKey, DeclarativeItem>,
}

impl View for DeclarativeRegion {
    type V = Map<DesignatorView, ItemView>;

    closed spec fn view(&self) -> Map<DesignatorView, ItemView> {
        Map::new(
            |d: DesignatorView| table_entries(self.decls).contains_key(d.key()),
            |d: DesignatorView| table_entries(self.decls)[d.key()],
        )
    }
}

impl Clone for DeclarativeRegion {
    /// A region of its own with the same entries: what is declared in the
    /// copy later does not show in `self`.
    fn clone(&self) -> (region: Self)
        ensures
            region@ == self@,
            self.wf() ==> region.wf(),
    {
        DeclarativeRegion { decls: table_clone(&self.decls) }
    }
}

impl DeclarativeRegion {
    /// The table holds each item under the key of the item's own name.
    pub closed spec fn wf(&self) -> bool {
        forall|k: (u8, Seq<u8>)| #[trigger]
            table_entries(self.decls).contains_key(k) ==> table_entries(
                self.decls,
            )[k].designator.key() == k
    }

    /// In a well-formed region every entry stands under its own name.
    pub proof fn lemma_wf_filed_by_name(&self)
        requires
            self.wf(),
        ensures
            filed_by_name(self@),
    {
        assert forall|d: DesignatorView| #[trigger] self@.contains_key(d) implies self@[d].designator
            == d by {
            lemma_key_injective(self@[d].designator, d);
        }
    }

    /// A region in which nothing is declared.
    pub fn new() -> (region: DeclarativeRegion)
        ensures
            region.wf(),
            region@ == Map::<DesignatorView, ItemView>::empty(),
    {
        let region = DeclarativeRegion { decls: table_new() };
        assert(region@ =~= Map::<DesignatorView, ItemView>::empty());
        region
    }

    /// The declaration that stands for `designator` in this region.
    pub fn lookup(&self, designator: &Designator) -> (found: Option<&DeclarativeItem>)
        ensures
            found is Some <==> self@.contains_key(designator@),
            found matches Some(item) ==> item@ == self@[designator@],
    {
        let key = designator.key();
        table_get(&self.decls, &key)
    }

    /// Declares `decl` in the region. A name that is new to the region is
    /// entered. A name that the region holds is replaced where that is
    /// legal; otherwise the region stays as it is and an error is reported
    /// at `decl`, with the earlier declaration as the related place.
    pub fn add(&mut self, decl: DeclarativeItem, messages: &mut Vec<Message>)
        requires
            old(self).wf(),
        ensures
            final(self).wf(),
            final(self)@ == region_after_add(old(self)@, decl@),
            message_views(final(messages)@) == message_views(old(messages)@) + add_messages(
                old(self)@,
                decl@,
            ),
    {
        let key = decl.designator.item.key();
        let ghost before = self@;
        let mut duplicate: Option<Message> = None;
        match table_get(&self.decls, &key) {
            Some(old_decl) => {
                let overloads = decl.may_overload && old_decl.may_overload;
                let completes = old_decl.is_deferred && !decl.is_deferred;
                if !overloads && !completes {
                    let mut text = String::from_str("Duplicate declaration of '");
                    decl.designator.item.append_to(&mut text);
                    text.append("'");
                    let msg = Message::new(&decl.designator.pos, text, Severity::Error).related(
                        &old_decl.designator.pos,
                        "Previously defined here",
                    );
                    assert(msg@ == duplicate_message(before[decl@.designator], decl@));
                    duplicate = Some(msg);
                }
            },
            None => {},
        }
        assert(duplicate is Some <==> collides(before, decl@));
        match duplicate {
            Some(msg) => {
                proof {
                    lemma_message_views_push(messages@, msg);
                }
                messages.push(msg);
                assert(message_views(messages@) =~= message_views(old(messages)@) + add_messages(
                    before,
                    decl@,
                ));
            },
            None => {
                let ghost item = decl@;
                table_insert(&mut self.decls, key, decl);
                proof {
                    assert forall|d: DesignatorView|
                        table_entries(self.decls).contains_key(d.key()) <==> #[trigger] before.insert(
                            item.designator,
                            item,
                        ).contains_key(d) by {
                        if d.key() == item.designator.key() {
                            lemma_key_injective(d, item.designator);
                        }
                    }
                    assert forall|d: DesignatorView| #[trigger]
                        before.insert(item.designator, item).contains_key(d) implies table_entries(
                        self.decls,
                    )[d.key()] == before.insert(item.designator, item)[d] by {
                        if d.key() == item.designator.key() {
                            lemma_key_injective(d, item.designator);
                        }
                    }
                    assert(self@ =~= before.insert(item.designator, item));
                    assert(message_views(messages@) =~= message_views(old(messages)@)
                        + add_messages(before, item));
                }
            },
        }
    }
}

} // verus!
