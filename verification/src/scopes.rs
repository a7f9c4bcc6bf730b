//! The walk over the nested scopes of a design: each scope gets a region
//! of its own, and the scopes nested in it are walked in turn.

use vstd::prelude::*;
use crate::ast::{
    ConcurrentStatement, Declaration, ElementDeclaration, GenerateBody, InterfaceDeclaration,
    LabeledConcurrentStatement, ProtectedTypeDeclarativeItem, TypeDefinition,
};
use crate::items::{declarative_part_items, element_items, interface_list_items};
use crate::message::{message_views, Message, MessageView};
use crate::region::{items_messages, DeclarativeRegion};

verus! {

/// What the names of an interface list report, checked among themselves.
pub open spec fn interface_list_messages(declarations: Seq<InterfaceDeclaration>) -> Seq<
    MessageView,
> {
    items_messages(Map::empty(), interface_list_items(declarations))
}

/// What the element names of a record type report, checked among
/// themselves.
pub open spec fn element_messages(declarations: Seq<ElementDeclaration>) -> Seq<MessageView> {
    items_messages(Map::empty(), element_items(declarations))
}

/// What the subprograms of a protected type declaration report: the
/// parameter names of each, checked among themselves.
pub open spec fn protected_items_messages(items: Seq<ProtectedTypeDeclarativeItem>) -> Seq<
    MessageView,
>
    decreases items.len(),
{
    if items.len() == 0 {
        Seq::empty()
    } else {
        protected_items_messages(items.drop_last()) + (match items.last() {
            ProtectedTypeDeclarativeItem::Subprogram(subprogram) => interface_list_messages(
                subprogram.parameters(),
            ),
        })
    }
}

/// What a declarative part reports as a scope of its own: first the
/// duplicates among its own names, then what the scopes nested in its
/// declarations report.
pub open spec fn declarative_part_messages(declarations: Seq<Declaration>) -> Seq<MessageView>
    decreases declarations, 1nat,
{
    items_messages(Map::empty(), declarative_part_items(declarations)) + nested_messages(
        declarations,
    )
}

/// What the scopes nested in the declarations of a declarative part
/// report, declaration by declaration.
pub open spec fn nested_messages(declarations: Seq<Declaration>) -> Seq<MessageView>
    decreases declarations, 0nat,
{
    if declarations.len() == 0 {
        Seq::empty()
    } else {
        nested_messages(declarations.drop_last()) + declaration_messages(declarations.last())
    }
}

/// What the scopes nested in one declaration report. A component has its
/// generics and its ports, each list a scope. A subprogram has its
/// parameters, and a subprogram body its declarative part as well: two
/// scopes, not one. A protected type has the parameters of each of its
/// subprograms, a protected type body its declarative part, a record type
/// its elements.
pub open spec fn declaration_messages(declaration: Declaration) -> Seq<MessageView>
    decreases declaration, 0nat,
{
    match declaration {
        Declaration::Component(component) => interface_list_messages(component.generic_list@)
            + interface_list_messages(component.port_list@),
        Declaration::SubprogramBody(body) => interface_list_messages(
            body.specification.parameters(),
        ) + declarative_part_messages(body.declarations@),
        Declaration::SubprogramDeclaration(subprogram) => interface_list_messages(
            subprogram.parameters(),
        ),
        Declaration::Type(type_decl) => match type_decl.def {
            TypeDefinition::ProtectedBody(body) => declarative_part_messages(body.decl@),
            TypeDefinition::Protected(protected) => protected_items_messages(protected.items@),
            TypeDefinition::Record(elements) => element_messages(elements@),
            _ => Seq::empty(),
        },
        _ => Seq::empty(),
    }
}

/// What the declarative part of a generate body reports, if it has one.
pub open spec fn optional_part_messages(decl: Option<Vec<Declaration>>) -> Seq<MessageView> {
    match decl {
        Some(declarations) => declarative_part_messages(declarations@),
        None => Seq::empty(),
    }
}

/// What a list of concurrent statements reports, statement by statement.
pub open spec fn concurrent_part_messages(statements: Seq<LabeledConcurrentStatement>) -> Seq<
    MessageView,
>
    decreases statements, 0nat,
{
    if statements.len() == 0 {
        Seq::empty()
    } else {
        concurrent_part_messages(statements.drop_last()) + concurrent_statement_messages(
            statements.last(),
        )
    }
}

/// What one concurrent statement reports. A block has its declarative
/// part and then its statements; a process its declarative part; a
/// generate statement the body of each of its branches, each on its own.
pub open spec fn concurrent_statement_messages(statement: LabeledConcurrentStatement) -> Seq<
    MessageView,
>
    decreases statement, 0nat,
{
    match statement.statement {
        ConcurrentStatement::Block(block) => declarative_part_messages(block.decl@)
            + concurrent_part_messages(block.statements@),
        ConcurrentStatement::Process(process) => declarative_part_messages(process.decl@),
        ConcurrentStatement::ForGenerate(generate) => generate_body_messages(generate.body),
        ConcurrentStatement::IfGenerate(generate) => generate_bodies_messages(
            generate.conditionals@,
        ) + (match generate.else_item {
            Some(body) => generate_body_messages(body),
            None => Seq::empty(),
        }),
        ConcurrentStatement::CaseGenerate(generate) => generate_bodies_messages(
            generate.alternatives@,
        ),
        _ => Seq::empty(),
    }
}

/// What the body of one branch of a generate statement reports: its
/// declarative part, if it has one, and then its statements.
pub open spec fn generate_body_messages(body: GenerateBody) -> Seq<MessageView>
    decreases body, 0nat,
{
    optional_part_messages(body.decl) + concurrent_part_messages(body.statements@)
}

/// What the bodies of the branches of a generate statement report, branch
/// by branch.
pub open spec fn generate_bodies_messages(bodies: Seq<GenerateBody>) -> Seq<MessageView>
    decreases bodies, 0nat,
{
    if bodies.len() == 0 {
        Seq::empty()
    } else {
        generate_bodies_messages(bodies.drop_last()) + generate_body_messages(bodies.last())
    }
}

/// Reports the duplicates among the element names of a record type.
pub fn check_element_declaration_unique_ident(
    declarations: &Vec<ElementDeclaration>,
    messages: &mut Vec<Message>,
)
    ensures
        message_views(final(messages)@) == message_views(old(messages)@) + element_messages(
            declarations@,
        ),
{
    let mut region = DeclarativeRegion::new();
    region.add_element_declarations(declarations, messages);
}

/// Reports the duplicates among the names of an interface list.
pub fn check_interface_list_unique_ident(
    declarations: &Vec<InterfaceDeclaration>,
    messages: &mut Vec<Message>,
)
    ensures
        message_views(final(messages)@) == message_views(old(messages)@)
            + interface_list_messages(declarations@),
{
    let mut region = DeclarativeRegion::new();
    region.add_interface_list(declarations, messages);
}

/// Reports the duplicates among the parameter names of each subprogram of
/// a protected type declaration.
fn check_protected_type_items(
    items: &Vec<ProtectedTypeDeclarativeItem>,
    messages: &mut Vec<Message>,
)
    ensures
        message_views(final(messages)@) == message_views(old(messages)@)
            + protected_items_messages(items@),
{
    let ghost reported = message_views(messages@);
    let mut i: usize = 0;
    assert(reported + protected_items_messages(items@.take(0)) =~= reported);
    while i < items.len()
        invariant
            i <= items.len(),
            message_views(messages@) == reported + protected_items_messages(items@.take(i as int)),
        decreases items.len() - i,
    {
        let ghost done = protected_items_messages(items@.take(i as int));
        match &items[i] {
            ProtectedTypeDeclarativeItem::Subprogram(subprogram) => {
                check_interface_list_unique_ident(subprogram.interface_list(), messages);
            },
        }
        proof {
            assert(items@.take(i + 1).drop_last() =~= items@.take(i as int));
            assert(message_views(messages@) =~= reported + protected_items_messages(
                items@.take(i + 1),
            ));
        }
        i += 1;
    }
    assert(items@.take(i as int) =~= items@);
}

/// Checks a declarative part as a scope of its own: the duplicates among
/// its names, then the scopes nested in its declarations.
pub fn check_declarative_part_unique_ident(
    declarations: &Vec<Declaration>,
    messages: &mut Vec<Message>,
)
    ensures
        message_views(final(messages)@) == message_views(old(messages)@)
            + declarative_part_messages(declarations@),
    decreases declarations@, 1nat,
{
    let mut region = DeclarativeRegion::new();
    region.add_declarative_part(declarations, messages);
    check_declarative_part_unique_ident_inner(declarations, messages);
    assert(message_views(messages@) =~= message_views(old(messages)@) + declarative_part_messages(
        declarations@,
    ));
}

/// Checks the scopes nested in the declarations of a declarative part.
pub fn check_declarative_part_unique_ident_inner(
    declarations: &Vec<Declaration>,
    messages: &mut Vec<Message>,
)
    ensures
        message_views(final(messages)@) == message_views(old(messages)@) + nested_messages(
            declarations@,
        ),
    decreases declarations@, 0nat,
{
    let ghost reported = message_views(messages@);
    let mut i: usize = 0;
    assert(reported + nested_messages(declarations@.take(0)) =~= reported);
    while i < declarations.len()
        invariant
            i <= declarations.len(),
            message_views(messages@) == reported + nested_messages(declarations@.take(i as int)),
        decreases declarations.len() - i,
    {
        let ghost before = message_views(messages@);
        match &declarations[i] {
            Declaration::Component(component) => {
                check_interface_list_unique_ident(&component.generic_list, messages);
                check_interface_list_unique_ident(&component.port_list, messages);
            },
            Declaration::SubprogramBody(body) => {
                check_interface_list_unique_ident(body.specification.interface_list(), messages);
                check_declarative_part_unique_ident(&body.declarations, messages);
            },
            Declaration::SubprogramDeclaration(subprogram) => {
                check_interface_list_unique_ident(subprogram.interface_list(), messages);
            },
            Declaration::Type(type_decl) => match &type_decl.def {
                TypeDefinition::ProtectedBody(body) => {
                    check_declarative_part_unique_ident(&body.decl, messages);
                },
                TypeDefinition::Protected(protected) => {
                    check_protected_type_items(&protected.items, messages);
                },
                TypeDefinition::Record(elements) => {
                    check_element_declaration_unique_ident(elements, messages);
                },
                _ => {},
            },
            _ => {},
        }
        proof {
            assert(message_views(messages@) =~= before + declaration_messages(
                declarations@[i as int],
            ));
            assert(declarations@.take(i + 1).drop_last() =~= declarations@.take(i as int));
            assert(message_views(messages@) =~= reported + nested_messages(
                declarations@.take(i + 1),
            ));
        }
        i += 1;
    }
    assert(declarations@.take(i as int) =~= declarations@);
}

/// Checks the body of one branch of a generate statement.
pub fn check_generate_body(body: &GenerateBody, messages: &mut Vec<Message>)
    ensures
        message_views(final(messages)@) == message_views(old(messages)@) + generate_body_messages(
            *body,
        ),
    decreases body, 0nat,
{
    match &body.decl {
        Some(declarations) => {
            check_declarative_part_unique_ident(declarations, messages);
        },
        None => {},
    }
    assert(message_views(messages@) =~= message_views(old(messages)@) + optional_part_messages(
        body.decl,
    ));
    check_concurrent_part(&body.statements, messages);
    assert(message_views(messages@) =~= message_views(old(messages)@) + generate_body_messages(
        *body,
    ));
}

/// Checks the bodies of the branches of a generate statement, each on its
/// own.
fn check_generate_bodies(bodies: &Vec<GenerateBody>, messages: &mut Vec<Message>)
    ensures
        message_views(final(messages)@) == message_views(old(messages)@)
            + generate_bodies_messages(bodies@),
    decreases bodies@, 0nat,
{
    let ghost reported = message_views(messages@);
    let mut i: usize = 0;
    assert(reported + generate_bodies_messages(bodies@.take(0)) =~= reported);
    while i < bodies.len()
        invariant
            i <= bodies.len(),
            message_views(messages@) == reported + generate_bodies_messages(bodies@.take(i as int)),
        decreases bodies.len() - i,
    {
        check_generate_body(&bodies[i], messages);
        proof {
            assert(bodies@.take(i + 1).drop_last() =~= bodies@.take(i as int));
            assert(message_views(messages@) =~= reported + generate_bodies_messages(
                bodies@.take(i + 1),
            ));
        }
        i += 1;
    }
    assert(bodies@.take(i as int) =~= bodies@);
}

/// Checks the scopes of one concurrent statement.
pub fn check_concurrent_statement(
    statement: &LabeledConcurrentStatement,
    messages: &mut Vec<Message>,
)
    ensures
        message_views(final(messages)@) == message_views(old(messages)@)
            + concurrent_statement_messages(*statement),
    decreases statement, 0nat,
{
    match &statement.statement {
        ConcurrentStatement::Block(block) => {
            check_declarative_part_unique_ident(&block.decl, messages);
            check_concurrent_part(&block.statements, messages);
        },
        ConcurrentStatement::Process(process) => {
            check_declarative_part_unique_ident(&process.decl, messages);
        },
        ConcurrentStatement::ForGenerate(generate) => {
            check_generate_body(&generate.body, messages);
        },
        ConcurrentStatement::IfGenerate(generate) => {
            check_generate_bodies(&generate.conditionals, messages);
            match &generate.else_item {
                Some(else_item) => {
                    check_generate_body(else_item, messages);
                },
                None => {},
            }
        },
        ConcurrentStatement::CaseGenerate(generate) => {
            check_generate_bodies(&generate.alternatives, messages);
        },
        _ => {},
    }
    assert(message_views(messages@) =~= message_views(old(messages)@)
        + concurrent_statement_messages(*statement));
}

/// Checks the scopes of a list of concurrent statements.
pub fn check_concurrent_part(
    statements: &Vec<LabeledConcurrentStatement>,
    messages: &mut Vec<Message>,
)
    ensures
        message_views(final(messages)@) == message_views(old(messages)@)
            + concurrent_part_messages(statements@),
    decreases statements@, 0nat,
{
    let ghost reported = message_views(messages@);
    let mut i: usize = 0;
    assert(reported + concurrent_part_messages(statements@.take(0)) =~= reported);
    while i < statements.len()
        invariant
            i <= statements.len(),
            message_views(messages@) == reported + concurrent_part_messages(
                statements@.take(i as int),
            ),
        decreases statements.len() - i,
    {
        check_concurrent_statement(&statements[i], messages);
        proof {
            assert(statements@.take(i + 1).drop_last() =~= statements@.take(i as int));
            assert(message_views(messages@) =~= reported + concurrent_part_messages(
                statements@.take(i + 1),
            ));
        }
        i += 1;
    }
    assert(statements@.take(i as int) =~= statements@);
}

} // verus!
