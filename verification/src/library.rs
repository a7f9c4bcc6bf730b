//! The design root: the libraries of a design and the design units that
//! each of them holds.

use vstd::prelude::*;
use crate::ast::{
    ArchitectureBody, DesignUnit, EntityDeclaration, PackageBody, PackageDeclaration,
};
use crate::symbol_table::Symbol;

verus! {

/// An entity with its architectures. The architectures are kept by name:
/// an entity holds one architecture of a name, in the order in which the
/// names came.
#[derive(Debug)]
pub struct EntityDesignUnit {
    entity: DesignUnit<EntityDeclaration>,
    architectures: Vec<DesignUnit<ArchitectureBody>>,
}

/// The name of an architecture, as text.
pub open spec fn architecture_name(architecture: DesignUnit<ArchitectureBody>) -> Seq<u8> {
    architecture.unit.ident.item@
}

/// No two architectures of the list have the same name.
pub open spec fn distinct_architectures(list: Seq<DesignUnit<ArchitectureBody>>) -> bool {
    forall|i: int, j: int|
        0 <= i < j < list.len() ==> architecture_name(#[trigger] list[i]) != architecture_name(
            #[trigger] list[j],
        )
}

/// Whether the list holds an architecture of this name.
pub open spec fn holds_architecture(list: Seq<DesignUnit<ArchitectureBody>>, name: Seq<u8>) -> bool {
    exists|i: int| 0 <= i < list.len() && architecture_name(#[trigger] list[i]) == name
}

/// The place of the first architecture of this name in the list.
pub open spec fn architecture_index(list: Seq<DesignUnit<ArchitectureBody>>, name: Seq<u8>) -> int {
    choose|i: int|
        0 <= i < list.len() && architecture_name(#[trigger] list[i]) == name && forall|j: int|
            0 <= j < i ==> architecture_name(#[trigger] list[j]) != name
}

/// The list after `architecture` was put in by its name: it takes the
/// place of the architecture of that name, or the end of the list where
/// no architecture has that name.
pub open spec fn with_architecture(
    list: Seq<DesignUnit<ArchitectureBody>>,
    architecture: DesignUnit<ArchitectureBody>,
) -> Seq<DesignUnit<ArchitectureBody>> {
    if holds_architecture(list, architecture_name(architecture)) {
        list.update(architecture_index(list, architecture_name(architecture)), architecture)
    } else {
        list.push(architecture)
    }
}

impl EntityDesignUnit {
    /// The entity declaration with its context clause.
    pub closed spec fn declaration(&self) -> DesignUnit<EntityDeclaration> {
        self.entity
    }

    /// The architectures of the entity, in the order in which the analysis
    /// takes them.
    pub closed spec fn architecture_list(&self) -> Seq<DesignUnit<ArchitectureBody>> {
        self.architectures@
    }

    /// No two architectures of the entity have the same name.
    pub open spec fn wf(&self) -> bool {
        distinct_architectures(self.architecture_list())
    }

    /// An entity without architectures.
    pub fn new(entity: DesignUnit<EntityDeclaration>) -> (unit: EntityDesignUnit)
        ensures
            unit.declaration() == entity,
            unit.architecture_list() == Seq::<DesignUnit<ArchitectureBody>>::empty(),
            unit.wf(),
    {
        EntityDesignUnit { entity, architectures: Vec::new() }
    }

    pub fn entity(&self) -> (entity: &DesignUnit<EntityDeclaration>)
        ensures
            *entity == self.declaration(),
    {
        &self.entity
    }

    pub fn architectures(&self) -> (list: &Vec<DesignUnit<ArchitectureBody>>)
        ensures
            list@ == self.architecture_list(),
    {
        &self.architectures
    }

    /// Puts an architecture in by its name. An architecture of the same
    /// name that the entity held gives way to it.
    pub fn add_architecture(&mut self, architecture: DesignUnit<ArchitectureBody>)
        requires
            old(self).wf(),
        ensures
            final(self).wf(),
            final(self).declaration() == old(self).declaration(),
            final(self).architecture_list() == with_architecture(
                old(self).architecture_list(),
                architecture,
            ),
    {
        let ghost name = architecture_name(architecture);
        let ghost list = self.architectures@;
        let mut i: usize = 0;
        while i < self.architectures.len()
            invariant
                i <= self.architectures.len(),
                self.architectures@ == list,
                list == old(self).architecture_list(),
                distinct_architectures(list),
                self.entity == old(self).entity,
                name == architecture_name(architecture),
                forall|j: int| 0 <= j < i ==> architecture_name(#[trigger] list[j]) != name,
            decreases self.architectures.len() - i,
        {
            if self.architectures[i].unit.ident.item.same_name(&architecture.unit.ident.item) {
                proof {
                    let at = i as int;
                    assert(architecture_name(list[at]) == name);
                    assert(holds_architecture(list, name));
                    let chosen = architecture_index(list, name);
                    assert(chosen == at) by {
                        if chosen < at {
                            assert(architecture_name(list[chosen]) != name);
                        }
                        if at < chosen {
                            assert(architecture_name(list[at]) != name);
                        }
                    }
                }
                self.architectures.set(i, architecture);
                assert(self.architectures@ == with_architecture(list, architecture));
                assert forall|a: int, b: int|
                    0 <= a < b < self.architectures@.len() implies architecture_name(
                    #[trigger] self.architectures@[a],
                ) != architecture_name(#[trigger] self.architectures@[b]) by {
                    assert(architecture_name(list[a]) != architecture_name(list[b]));
                    if a != i {
                        assert(self.architectures@[a] == list[a]);
                    }
                    if b != i {
                        assert(self.architectures@[b] == list[b]);
                    }
                }
                return;
            }
            i += 1;
        }
        assert(!holds_architecture(list, name));
        self.architectures.push(architecture);
        assert(self.architectures@ == with_architecture(list, architecture));
        assert forall|a: int, b: int|
            0 <= a < b < self.architectures@.len() implies architecture_name(
            #[trigger] self.architectures@[a],
        ) != architecture_name(#[trigger] self.architectures@[b]) by {
            if b < list.len() {
                assert(architecture_name(list[a]) != architecture_name(list[b]));
            } else {
                assert(architecture_name(list[a]) != name);
            }
        }
    }
}

/// A package with its body, if it has one.
#[derive(Debug)]
pub struct PackageDesignUnit {
    pub package: DesignUnit<PackageDeclaration>,
    pub body: Option<DesignUnit<PackageBody>>,
}

#[derive(Debug)]
pub struct Library {
    pub name: Symbol,
    pub entities: Vec<EntityDesignUnit>,
    pub packages: Vec<PackageDesignUnit>,
}

impl Library {
    pub fn new(name: Symbol, entities: Vec<EntityDesignUnit>, packages: Vec<PackageDesignUnit>) -> (library:
        Library)
        ensures
            library.name == name,
            library.entities == entities,
            library.packages == packages,
    {
        Library { name, entities, packages }
    }
}

/// All the libraries of a design.
#[derive(Debug)]
pub struct DesignRoot {
    pub libraries: Vec<Library>,
}

impl DesignRoot {
    /// Whether the root holds a library of this name.
    pub open spec fn holds_library(&self, name: Seq<u8>) -> bool {
        exists|i: int| 0 <= i < self.libraries@.len() && (#[trigger] self.libraries@[i]).name@ == name
    }

    pub fn new() -> (root: DesignRoot)
        ensures
            root.libraries@ == Seq::<Library>::empty(),
    {
        DesignRoot { libraries: Vec::new() }
    }

    pub fn add_library(&mut self, library: Library)
        ensures
            final(self).libraries@ == old(self).libraries@.push(library),
    {
        self.libraries.push(library);
    }

    pub fn has_library(&self, name: &Symbol) -> (found: bool)
        ensures
            found == self.holds_library(name@),
    {
        let mut i: usize = 0;
        while i < self.libraries.len()
            invariant
                i <= self.libraries.len(),
                forall|j: int| 0 <= j < i ==> self.libraries@[j].name@ != name@,
            decreases self.libraries.len() - i,
        {
            if self.libraries[i].name.same_name(name) {
                return true;
            }
            i += 1;
        }
        false
    }
}

} // verus!
