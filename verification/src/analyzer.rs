//! The analysis of a whole design.

use vstd::prelude::*;
use vstd::string::*;
use crate::ast::{ArchitectureBody, ContextItem, DesignUnit, DesignatorView, Ident};
use crate::latin_1::{latin1_chars, Latin1String};
use crate::library::{DesignRoot, EntityDesignUnit, Library, PackageDesignUnit};
use crate::message::{lemma_message_views_push, message_views, Message, MessageView, Severity};
use crate::region::ItemView;
use crate::source::WithPos;
use crate::symbol_table::{distinct_names, interned, Symbol, SymbolTable};
use crate::units::{
    check_architecture_body, check_entity_declaration, check_package_body,
    check_package_declaration,
};

verus! {

/// The name `work`, by which a design unit refers to the library it is
/// in.
pub open spec fn work_name() -> Seq<u8> {
    seq![0x77u8, 0x6fu8, 0x72u8, 0x6bu8]
}

/// The name `std`, the library that every design has.
pub open spec fn std_name() -> Seq<u8> {
    seq![0x73u8, 0x74u8, 0x64u8]
}

pub open spec fn missing_library_text(name: Seq<u8>) -> Seq<char> {
    "No such library '"@ + latin1_chars(name) + "'"@
}

/// What one name of a library clause reports. `std` is always there.
/// `work` needs no clause, which is a hint, whether or not the design
/// holds a library of that name. Any other name is an error unless the
/// design holds a library of that name.
pub open spec fn library_name_messages(root: DesignRoot, name: Ident) -> Seq<MessageView> {
    if name.item@ == std_name() {
        Seq::empty()
    } else if name.item@ == work_name() {
        seq![
            MessageView {
                pos: name.pos,
                message: "Library clause not necessary for current working library"@,
                severity: Severity::Hint,
                related: None,
            },
        ]
    } else if !root.holds_library(name.item@) {
        seq![
            MessageView {
                pos: name.pos,
                message: missing_library_text(name.item@),
                severity: Severity::Error,
                related: None,
            },
        ]
    } else {
        Seq::empty()
    }
}

/// What the names of one library clause report, name by name.
pub open spec fn library_clause_messages(root: DesignRoot, names: Seq<Ident>) -> Seq<MessageView>
    decreases names.len(),
{
    if names.len() == 0 {
        Seq::empty()
    } else {
        library_clause_messages(root, names.drop_last()) + library_name_messages(
            root,
            names.last(),
        )
    }
}

/// What one item of a context clause reports: only library clauses are
/// looked at.
pub open spec fn context_item_messages(root: DesignRoot, item: WithPos<ContextItem>) -> Seq<
    MessageView,
> {
    match item.item {
        ContextItem::Library(clause) => library_clause_messages(root, clause.name_list@),
        _ => Seq::empty(),
    }
}

/// What a context clause reports, item by item.
pub open spec fn context_clause_messages(
    root: DesignRoot,
    items: Seq<WithPos<ContextItem>>,
) -> Seq<MessageView>
    decreases items.len(),
{
    if items.len() == 0 {
        Seq::empty()
    } else {
        context_clause_messages(root, items.drop_last()) + context_item_messages(
            root,
            items.last(),
        )
    }
}

/// What the architectures of one entity report, one after the other. Each
/// starts from `region`, the region of the entity, and none sees what
/// another declared.
pub open spec fn architectures_messages(
    root: DesignRoot,
    region: Map<DesignatorView, ItemView>,
    architectures: Seq<DesignUnit<ArchitectureBody>>,
) -> Seq<MessageView>
    decreases architectures.len(),
{
    if architectures.len() == 0 {
        Seq::empty()
    } else {
        architectures_messages(root, region, architectures.drop_last()) + context_clause_messages(
            root,
            architectures.last().context_clause@,
        ) + architectures.last().unit.messages(region)
    }
}

/// What an entity and its architectures report.
pub open spec fn entity_unit_messages(root: DesignRoot, unit: EntityDesignUnit) -> Seq<MessageView> {
    context_clause_messages(root, unit.declaration().context_clause@)
        + unit.declaration().unit.messages() + architectures_messages(
        root,
        unit.declaration().unit.region(),
        unit.architecture_list(),
    )
}

pub open spec fn entities_messages(root: DesignRoot, entities: Seq<EntityDesignUnit>) -> Seq<
    MessageView,
>
    decreases entities.len(),
{
    if entities.len() == 0 {
        Seq::empty()
    } else {
        entities_messages(root, entities.drop_last()) + entity_unit_messages(root, entities.last())
    }
}

/// What a package and its body report. The body starts from the region
/// of the package.
pub open spec fn package_unit_messages(root: DesignRoot, unit: PackageDesignUnit) -> Seq<
    MessageView,
> {
    context_clause_messages(root, unit.package.context_clause@) + unit.package.unit.messages() + (
    match unit.body {
        Some(body) => context_clause_messages(root, body.context_clause@) + body.unit.messages(
            unit.package.unit.region(),
        ),
        None => Seq::empty(),
    })
}

pub open spec fn packages_messages(root: DesignRoot, packages: Seq<PackageDesignUnit>) -> Seq<
    MessageView,
>
    decreases packages.len(),
{
    if packages.len() == 0 {
        Seq::empty()
    } else {
        packages_messages(root, packages.drop_last()) + package_unit_messages(root, packages.last())
    }
}

/// What one library reports: its entities, then its packages.
pub open spec fn library_messages(root: DesignRoot, library: Library) -> Seq<MessageView> {
    entities_messages(root, library.entities@) + packages_messages(root, library.packages@)
}

pub open spec fn libraries_messages(root: DesignRoot, libraries: Seq<Library>) -> Seq<MessageView>
    decreases libraries.len(),
{
    if libraries.len() == 0 {
        Seq::empty()
    } else {
        libraries_messages(root, libraries.drop_last()) + library_messages(root, libraries.last())
    }
}

/// The diagnostics of a design: what its libraries report, one after the
/// other.
pub open spec fn analysis_messages(root: DesignRoot) -> Seq<MessageView> {
    libraries_messages(root, root.libraries@)
}

fn work_text() -> (name: Latin1String)
    ensures
        name@ == work_name(),
{
    let mut bytes: Vec<u8> = Vec::new();
    bytes.push(0x77u8);
    bytes.push(0x6fu8);
    bytes.push(0x72u8);
    bytes.push(0x6bu8);
    assert(bytes@ =~= work_name());
    Latin1String::from_vec(bytes)
}

fn std_text() -> (name: Latin1String)
    ensures
        name@ == std_name(),
{
    let mut bytes: Vec<u8> = Vec::new();
    bytes.push(0x73u8);
    bytes.push(0x74u8);
    bytes.push(0x64u8);
    assert(bytes@ =~= std_name());
    Latin1String::from_vec(bytes)
}

/// The analyzer of a design. It holds the symbols of the two library
/// names that every design knows.
pub struct Analyzer {
    work_sym: Symbol,
    std_sym: Symbol,
}

impl Analyzer {
    #[verifier::type_invariant]
    spec fn names_are_fixed(&self) -> bool {
        self.work_sym@ == work_name() && self.std_sym@ == std_name()
    }

    /// The symbol by which the analyzer knows the current working library.
    pub closed spec fn work_symbol(&self) -> Symbol {
        self.work_sym
    }

    /// The symbol by which the analyzer knows the library that every
    /// design has.
    pub closed spec fn std_symbol(&self) -> Symbol {
        self.std_sym
    }

    /// An analyzer whose two symbols, for the names `work` and `std`, are
    /// interned in `symtab`, in this order.
    pub fn new(symtab: &mut SymbolTable) -> (analyzer: Analyzer)
        ensures
            analyzer.work_symbol()@ == work_name(),
            analyzer.std_symbol()@ == std_name(),
            final(symtab).owns(&analyzer.work_symbol()),
            final(symtab).owns(&analyzer.std_symbol()),
            final(symtab)@ == interned(interned(old(symtab)@, work_name()), std_name()),
            distinct_names(old(symtab)@) ==> distinct_names(final(symtab)@),
    {
        let work_sym = symtab.insert(&work_text());
        let std_sym = symtab.insert(&std_text());
        Analyzer { work_sym, std_sym }
    }

    /// Checks the library clauses of a context clause against the
    /// libraries of the design.
    pub fn check_context_clause(
        &self,
        root: &DesignRoot,
        context_clause: &Vec<WithPos<ContextItem>>,
        messages: &mut Vec<Message>,
    )
        ensures
            message_views(final(messages)@) == message_views(old(messages)@)
                + context_clause_messages(*root, context_clause@),
    {
        proof {
            use_type_invariant(self);
        }
        let ghost reported = message_views(messages@);
        let mut i: usize = 0;
        assert(reported + context_clause_messages(*root, context_clause@.take(0)) =~= reported);
        while i < context_clause.len()
            invariant
                i <= context_clause.len(),
                self.work_sym@ == work_name(),
                self.std_sym@ == std_name(),
                message_views(messages@) == reported + context_clause_messages(
                    *root,
                    context_clause@.take(i as int),
                ),
            decreases context_clause.len() - i,
        {
            let ghost before = message_views(messages@);
            match &context_clause[i].item {
                ContextItem::Library(clause) => {
                    let names = &clause.name_list;
                    let mut j: usize = 0;
                    assert(before + library_clause_messages(*root, names@.take(0)) =~= before);
                    while j < names.len()
                        invariant
                            j <= names.len(),
                            self.work_sym@ == work_name(),
                            self.std_sym@ == std_name(),
                            message_views(messages@) == before + library_clause_messages(
                                *root,
                                names@.take(j as int),
                            ),
                        decreases names.len() - j,
                    {
                        let library_name = &names[j];
                        let ghost so_far = message_views(messages@);
                        if self.std_sym.same_name(&library_name.item) {
                            // The library std is always there.
                        } else if self.work_sym.same_name(&library_name.item) {
                            let msg = Message::hint(
                                &library_name.pos,
                                "Library clause not necessary for current working library",
                            );
                            proof {
                                lemma_message_views_push(messages@, msg);
                            }
                            messages.push(msg);
                        } else if !root.has_library(&library_name.item) {
                            let mut text = String::from_str("No such library '");
                            library_name.item.name().append_to(&mut text);
                            text.append("'");
                            let msg = Message::new(&library_name.pos, text, Severity::Error);
                            proof {
                                lemma_message_views_push(messages@, msg);
                            }
                            messages.push(msg);
                        }
                        proof {
                            assert(message_views(messages@) =~= so_far + library_name_messages(
                                *root,
                                names@[j as int],
                            ));
                            assert(names@.take(j + 1).drop_last() =~= names@.take(j as int));
                            assert(message_views(messages@) =~= before + library_clause_messages(
                                *root,
                                names@.take(j + 1),
                            ));
                        }
                        j += 1;
                    }
                    assert(names@.take(j as int) =~= names@);
                },
                _ => {},
            }
            proof {
                assert(message_views(messages@) =~= before + context_item_messages(
                    *root,
                    context_clause@[i as int],
                ));
                assert(context_clause@.take(i + 1).drop_last() =~= context_clause@.take(i as int));
                assert(message_views(messages@) =~= reported + context_clause_messages(
                    *root,
                    context_clause@.take(i + 1),
                ));
            }
            i += 1;
        }
        assert(context_clause@.take(i as int) =~= context_clause@);
    }

    /// Checks an entity and then each of its architectures, each against
    /// the entity's region as the entity left it.
    fn analyze_entity(
        &self,
        root: &DesignRoot,
        entity: &EntityDesignUnit,
        messages: &mut Vec<Message>,
    )
        ensures
            message_views(final(messages)@) == message_views(old(messages)@) + entity_unit_messages(
                *root,
                *entity,
            ),
    {
        let ghost reported = message_views(messages@);
        let declaration = entity.entity();
        self.check_context_clause(root, &declaration.context_clause, messages);
        let region = check_entity_declaration(&declaration.unit, messages);
        let ghost head = message_views(messages@);
        let architectures = entity.architectures();
        let mut i: usize = 0;
        assert(head + architectures_messages(*root, region@, architectures@.take(0)) =~= head);
        while i < architectures.len()
            invariant
                i <= architectures.len(),
                region.wf(),
                message_views(messages@) == head + architectures_messages(
                    *root,
                    region@,
                    architectures@.take(i as int),
                ),
            decreases architectures.len() - i,
        {
            let architecture = &architectures[i];
            self.check_context_clause(root, &architecture.context_clause, messages);
            check_architecture_body(&region, &architecture.unit, messages);
            proof {
                assert(architectures@.take(i + 1).drop_last() =~= architectures@.take(i as int));
                assert(message_views(messages@) =~= head + architectures_messages(
                    *root,
                    region@,
                    architectures@.take(i + 1),
                ));
            }
            i += 1;
        }
        assert(architectures@.take(i as int) =~= architectures@);
        assert(message_views(messages@) =~= reported + entity_unit_messages(*root, *entity));
    }

    /// Checks a package and then its body, against the package's region.
    fn analyze_package(
        &self,
        root: &DesignRoot,
        package: &PackageDesignUnit,
        messages: &mut Vec<Message>,
    )
        ensures
            message_views(final(messages)@) == message_views(old(messages)@)
                + package_unit_messages(*root, *package),
    {
        let ghost reported = message_views(messages@);
        self.check_context_clause(root, &package.package.context_clause, messages);
        let region = check_package_declaration(&package.package.unit, messages);
        match &package.body {
            Some(body) => {
                self.check_context_clause(root, &body.context_clause, messages);
                check_package_body(&region, &body.unit, messages);
            },
            None => {},
        }
        assert(message_views(messages@) =~= reported + package_unit_messages(*root, *package));
    }

    /// Analyzes the whole design: library by library, in each the
    /// entities with their architectures and then the packages with their
    /// bodies. Every diagnostic is appended to `messages`.
    pub fn analyze(&self, root: &DesignRoot, messages: &mut Vec<Message>)
        ensures
            message_views(final(messages)@) == message_views(old(messages)@) + analysis_messages(
                *root,
            ),
    {
        let ghost reported = message_views(messages@);
        let libraries = &root.libraries;
        let mut i: usize = 0;
        assert(reported + libraries_messages(*root, libraries@.take(0)) =~= reported);
        while i < libraries.len()
            invariant
                i <= libraries.len(),
                libraries == &root.libraries,
                message_views(messages@) == reported + libraries_messages(
                    *root,
                    libraries@.take(i as int),
                ),
            decreases libraries.len() - i,
        {
            let library = &libraries[i];
            let ghost before = message_views(messages@);
            let entities = &library.entities;
            let mut j: usize = 0;
            assert(before + entities_messages(*root, entities@.take(0)) =~= before);
            while j < entities.len()
                invariant
                    j <= entities.len(),
                    message_views(messages@) == before + entities_messages(
                        *root,
                        entities@.take(j as int),
                    ),
                decreases entities.len() - j,
            {
                self.analyze_entity(root, &entities[j], messages);
                proof {
                    assert(entities@.take(j + 1).drop_last() =~= entities@.take(j as int));
                    assert(message_views(messages@) =~= before + entities_messages(
                        *root,
                        entities@.take(j + 1),
                    ));
                }
                j += 1;
            }
            assert(entities@.take(j as int) =~= entities@);
            let ghost middle = message_views(messages@);
            let packages = &library.packages;
            let mut k: usize = 0;
            assert(middle + packages_messages(*root, packages@.take(0)) =~= middle);
            while k < packages.len()
                invariant
                    k <= packages.len(),
                    message_views(messages@) == middle + packages_messages(
                        *root,
                        packages@.take(k as int),
                    ),
                decreases packages.len() - k,
            {
                self.analyze_package(root, &packages[k], messages);
                proof {
                    assert(packages@.take(k + 1).drop_last() =~= packages@.take(k as int));
                    assert(message_views(messages@) =~= middle + packages_messages(
                        *root,
                        packages@.take(k + 1),
                    ));
                }
                k += 1;
            }
            assert(packages@.take(k as int) =~= packages@);
            proof {
                assert(message_views(messages@) =~= before + library_messages(
                    *root,
                    libraries@[i as int],
                ));
                assert(libraries@.take(i + 1).drop_last() =~= libraries@.take(i as int));
                assert(message_views(messages@) =~= reported + libraries_messages(
                    *root,
                    libraries@.take(i + 1),
                ));
            }
            i += 1;
        }
        assert(libraries@.take(i as int) =~= libraries@);
    }
}

} // verus!
