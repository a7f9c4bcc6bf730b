//! The checks of the four kinds of design unit. An entity and a package
//! each build a region; an architecture and a package body go on from a
//! copy of the region of the unit they belong to, and leave that region
//! as it was.

use vstd::prelude::*;
use crate::ast::{
    ArchitectureBody, DesignatorView, EntityDeclaration, InterfaceDeclaration, PackageBody,
    PackageDeclaration,
};
use crate::items::{declarative_part_items, interface_list_items};
use crate::message::{message_views, Message, MessageView};
use crate::region::{
    items_messages, lemma_items_concat, region_after_items, DeclarativeRegion, ItemView,
};
use crate::scopes::{
    check_concurrent_part, check_declarative_part_unique_ident_inner, concurrent_part_messages,
    nested_messages,
};

verus! {

/// The items of a generic clause or a port clause that may be absent.
pub open spec fn optional_interface_items(clause: Option<Vec<InterfaceDeclaration>>) -> Seq<
    ItemView,
> {
    match clause {
        Some(list) => interface_list_items(list@),
        None => Seq::empty(),
    }
}

impl EntityDeclaration {
    /// The items of the entity's region: the generics, then the ports,
    /// then the declarative part.
    pub open spec fn items(&self) -> Seq<ItemView> {
        optional_interface_items(self.generic_clause) + optional_interface_items(self.port_clause)
            + declarative_part_items(self.decl@)
    }

    /// The region that the entity hands on to its architectures.
    pub open spec fn region(&self) -> Map<DesignatorView, ItemView> {
        region_after_items(Map::empty(), self.items())
    }

    /// What the entity reports: the duplicates among the names of its
    /// region, then the scopes nested in its declarations, then its
    /// concurrent statements.
    pub open spec fn messages(&self) -> Seq<MessageView> {
        items_messages(Map::empty(), self.items()) + nested_messages(self.decl@)
            + concurrent_part_messages(self.statements@)
    }
}

impl ArchitectureBody {
    /// What the architecture reports when its names are declared in
    /// `region`: the duplicates, among them those of names of the entity,
    /// then the scopes nested in its declarations, then its concurrent
    /// statements.
    pub open spec fn messages(&self, region: Map<DesignatorView, ItemView>) -> Seq<MessageView> {
        items_messages(region, declarative_part_items(self.decl@)) + nested_messages(self.decl@)
            + concurrent_part_messages(self.statements@)
    }
}

impl PackageDeclaration {
    /// The items of the package's region: the generics, then the
    /// declarative part.
    pub open spec fn items(&self) -> Seq<ItemView> {
        optional_interface_items(self.generic_clause) + declarative_part_items(self.decl@)
    }

    /// The region that the package hands on to its body.
    pub open spec fn region(&self) -> Map<DesignatorView, ItemView> {
        region_after_items(Map::empty(), self.items())
    }

    /// What the package reports: the duplicates among the names of its
    /// region, then the scopes nested in its declarations.
    pub open spec fn messages(&self) -> Seq<MessageView> {
        items_messages(Map::empty(), self.items()) + nested_messages(self.decl@)
    }
}

impl PackageBody {
    /// What the body reports when its names are declared in `region`:
    /// the duplicates, among them those of names of the package, then the
    /// scopes nested in its declarations.
    pub open spec fn messages(&self, region: Map<DesignatorView, ItemView>) -> Seq<MessageView> {
        items_messages(region, declarative_part_items(self.decl@)) + nested_messages(self.decl@)
    }
}

/// Checks a package declaration and returns its region, for its body to
/// go on from.
pub fn check_package_declaration(package: &PackageDeclaration, messages: &mut Vec<Message>) -> (region:
    DeclarativeRegion)
    ensures
        region.wf(),
        region@ == package.region(),
        message_views(final(messages)@) == message_views(old(messages)@) + package.messages(),
{
    let mut region = DeclarativeRegion::new();
    let ghost reported = message_views(messages@);
    let ghost generics = optional_interface_items(package.generic_clause);
    match &package.generic_clause {
        Some(list) => {
            region.add_interface_list(list, messages);
        },
        None => {
            assert(message_views(messages@) =~= reported + items_messages(Map::empty(), generics));
        },
    }
    region.add_declarative_part(&package.decl, messages);
    proof {
        lemma_items_concat(Map::empty(), generics, declarative_part_items(package.decl@));
        assert(message_views(messages@) =~= reported + items_messages(
            Map::empty(),
            package.items(),
        ));
    }
    check_declarative_part_unique_ident_inner(&package.decl, messages);
    assert(message_views(messages@) =~= reported + package.messages());
    region
}

/// Checks an architecture body against `entity_region`, the region of its
/// entity. The names of the architecture are declared in a copy of that
/// region, which is dropped at the end: the region of the entity stays as
/// it is, for the next architecture to start from.
pub fn check_architecture_body(
    entity_region: &DeclarativeRegion,
    architecture: &ArchitectureBody,
    messages: &mut Vec<Message>,
)
    requires
        entity_region.wf(),
    ensures
        message_views(final(messages)@) == message_views(old(messages)@) + architecture.messages(
            entity_region@,
        ),
{
    let mut region = entity_region.clone();
    region.add_declarative_part(&architecture.decl, messages);
    check_declarative_part_unique_ident_inner(&architecture.decl, messages);
    check_concurrent_part(&architecture.statements, messages);
    assert(message_views(messages@) =~= message_views(old(messages)@) + architecture.messages(
        entity_region@,
    ));
}

/// Checks a package body against `package_region`, the region of its
/// package. The names of the body are declared in a copy of that region,
/// which is dropped at the end: the region of the package stays as it is.
pub fn check_package_body(
    package_region: &DeclarativeRegion,
    package: &PackageBody,
    messages: &mut Vec<Message>,
)
    requires
        package_region.wf(),
    ensures
        message_views(final(messages)@) == message_views(old(messages)@) + package.messages(
            package_region@,
        ),
{
    let mut region = package_region.clone();
    region.add_declarative_part(&package.decl, messages);
    check_declarative_part_unique_ident_inner(&package.decl, messages);
    assert(message_views(messages@) =~= message_views(old(messages)@) + package.messages(
        package_region@,
    ));
}

/// Checks an entity declaration and returns its region, for its
/// architectures to go on from.
pub fn check_entity_declaration(entity: &EntityDeclaration, messages: &mut Vec<Message>) -> (region:
    DeclarativeRegion)
    ensures
        region.wf(),
        region@ == entity.region(),
        message_views(final(messages)@) == message_views(old(messages)@) + entity.messages(),
{
    let mut region = DeclarativeRegion::new();
    let ghost reported = message_views(messages@);
    let ghost generics = optional_interface_items(entity.generic_clause);
    let ghost ports = optional_interface_items(entity.port_clause);
    match &entity.generic_clause {
        Some(list) => {
            region.add_interface_list(list, messages);
        },
        None => {
            assert(message_views(messages@) =~= reported + items_messages(Map::empty(), generics));
        },
    }
    let ghost after_generics = region@;
    match &entity.port_clause {
        Some(list) => {
            region.add_interface_list(list, messages);
        },
        None => {
            assert(message_views(messages@) =~= reported + items_messages(Map::empty(), generics)
                + items_messages(after_generics, ports));
        },
    }
    proof {
        lemma_items_concat(Map::empty(), generics, ports);
        assert(message_views(messages@) =~= reported + items_messages(
            Map::empty(),
            generics + ports,
        ));
    }
    region.add_declarative_part(&entity.decl, messages);
    proof {
        lemma_items_concat(Map::empty(), generics + ports, declarative_part_items(entity.decl@));
        assert(message_views(messages@) =~= reported + items_messages(Map::empty(), entity.items()));
    }
    check_declarative_part_unique_ident_inner(&entity.decl, messages);
    check_concurrent_part(&entity.statements, messages);
    assert(message_views(messages@) =~= reported + entity.messages());
    region
}

} // verus!
