//! Regions, items and designators on values built by hand.

use vhdl_semantic::ast::{
    AliasDeclaration, Attribute, AttributeDeclaration, ComponentDeclaration, Declaration,
    Designator, ElementDeclaration, EnumerationLiteral, FileDeclaration, FunctionSpecification,
    Ident, InterfaceDeclaration, InterfaceObjectDeclaration, ObjectClass, ObjectDeclaration,
    PackageInstantiation, ProtectedTypeBody, SubprogramDeclaration, SubprogramDesignator,
    TypeDeclaration, TypeDefinition,
};
use vhdl_semantic::latin_1::Latin1String;
use vhdl_semantic::message::{Message, Severity};
use vhdl_semantic::region::{DeclarativeItem, DeclarativeRegion};
use vhdl_semantic::scopes::{
    check_declarative_part_unique_ident, check_element_declaration_unique_ident,
    check_interface_list_unique_ident,
};
use vhdl_semantic::source::{SrcPos, WithPos};
use vhdl_semantic::symbol_table::SymbolTable;

fn pos(start: usize) -> SrcPos {
    SrcPos::new(0, start, 1)
}

fn ident(name: &str, start: usize) -> Ident {
    let mut symtab = SymbolTable::new();
    WithPos::new(symtab.insert(&Latin1String::new(name.as_bytes())), pos(start))
}

fn identifier(name: &str) -> Designator {
    Designator::Identifier(ident(name, 0).item)
}

fn plain(name: &str, start: usize) -> DeclarativeItem {
    DeclarativeItem::from_ident(&ident(name, start))
}

fn duplicate(text: &str, second: usize, first: usize) -> Message {
    Message::error(&pos(second), &format!("Duplicate declaration of '{}'", text))
        .related(&pos(first), "Previously defined here")
}

fn constant(name: &str, start: usize, has_expression: bool) -> Declaration {
    Declaration::Object(ObjectDeclaration {
        class: ObjectClass::Constant,
        ident: ident(name, start),
        has_expression,
    })
}

fn function(name: &str, start: usize, parameters: Vec<InterfaceDeclaration>) -> SubprogramDeclaration {
    let name = ident(name, start);
    SubprogramDeclaration::Function(FunctionSpecification {
        designator: WithPos::new(SubprogramDesignator::Identifier(name.item), name.pos),
        parameter_list: parameters,
    })
}

fn parameter(name: &str, start: usize) -> InterfaceDeclaration {
    InterfaceDeclaration::Object(InterfaceObjectDeclaration {
        class: ObjectClass::Constant,
        ident: ident(name, start),
    })
}

#[test]
fn new_region_holds_nothing() {
    let region = DeclarativeRegion::new();
    assert!(region.lookup(&identifier("a")).is_none());
    assert!(region.lookup(&Designator::Character(b'a')).is_none());
}

#[test]
fn added_item_is_found_under_its_name() {
    let mut region = DeclarativeRegion::new();
    let mut messages = Vec::new();
    region.add(plain("a", 7), &mut messages);
    assert!(messages.is_empty());
    let found = region.lookup(&identifier("a")).expect("the name was declared");
    assert_eq!(found.designator.pos, pos(7));
    assert!(!found.may_overload);
    assert!(!found.is_deferred);
    assert!(region.lookup(&identifier("b")).is_none());
    assert!(region.lookup(&identifier("aa")).is_none());
}

#[test]
fn copy_of_a_region_is_independent() {
    let mut region = DeclarativeRegion::new();
    let mut messages = Vec::new();
    region.add(plain("a", 1), &mut messages);
    let mut copy = region.clone();
    copy.add(plain("b", 2), &mut messages);
    assert!(messages.is_empty());
    assert!(copy.lookup(&identifier("a")).is_some());
    assert!(copy.lookup(&identifier("b")).is_some());
    assert!(region.lookup(&identifier("a")).is_some());
    assert!(region.lookup(&identifier("b")).is_none());
    region.add(plain("b", 3), &mut messages);
    assert!(messages.is_empty());
    assert_eq!(copy.lookup(&identifier("b")).unwrap().designator.pos, pos(2));
    assert_eq!(region.lookup(&identifier("b")).unwrap().designator.pos, pos(3));
}

#[test]
fn duplicate_is_reported_and_leaves_the_region() {
    let mut region = DeclarativeRegion::new();
    let mut messages = Vec::new();
    region.add(plain("a", 1), &mut messages);
    region.add(plain("a", 5), &mut messages);
    assert_eq!(messages, vec![duplicate("a", 5, 1)]);
    assert_eq!(messages[0].severity, Severity::Error);
    assert_eq!(region.lookup(&identifier("a")).unwrap().designator.pos, pos(1));
    region.add(plain("a", 9), &mut messages);
    assert_eq!(messages, vec![duplicate("a", 5, 1), duplicate("a", 9, 1)]);
}

#[test]
fn deferred_declaration_is_completed_once() {
    let mut region = DeclarativeRegion::new();
    let mut messages = Vec::new();
    region.add(plain("a", 1).with_deferred(true), &mut messages);
    assert!(region.lookup(&identifier("a")).unwrap().is_deferred);
    region.add(plain("a", 2), &mut messages);
    assert!(messages.is_empty());
    let entry = region.lookup(&identifier("a")).unwrap();
    assert_eq!(entry.designator.pos, pos(2));
    assert!(!entry.is_deferred);
    region.add(plain("a", 3), &mut messages);
    assert_eq!(messages, vec![duplicate("a", 3, 2)]);
}

#[test]
fn deferred_after_complete_is_a_duplicate() {
    let mut region = DeclarativeRegion::new();
    let mut messages = Vec::new();
    region.add(plain("a", 1), &mut messages);
    region.add(plain("a", 2).with_deferred(true), &mut messages);
    assert_eq!(messages, vec![duplicate("a", 2, 1)]);
}

#[test]
fn deferred_after_deferred_is_a_duplicate() {
    let mut region = DeclarativeRegion::new();
    let mut messages = Vec::new();
    region.add(plain("a", 1).with_deferred(true), &mut messages);
    region.add(plain("a", 2).with_deferred(true), &mut messages);
    assert_eq!(messages, vec![duplicate("a", 2, 1)]);
}

#[test]
fn latest_overload_stands_for_the_name() {
    let mut region = DeclarativeRegion::new();
    let mut messages = Vec::new();
    region.add(plain("f", 1).with_overload(true), &mut messages);
    region.add(plain("f", 2).with_overload(true), &mut messages);
    assert!(messages.is_empty());
    assert_eq!(region.lookup(&identifier("f")).unwrap().designator.pos, pos(2));
    region.add(plain("f", 3), &mut messages);
    assert_eq!(messages, vec![duplicate("f", 3, 2)]);
    assert_eq!(region.lookup(&identifier("f")).unwrap().designator.pos, pos(2));
}

#[test]
fn overloadable_after_plain_is_a_duplicate() {
    let mut region = DeclarativeRegion::new();
    let mut messages = Vec::new();
    region.add(plain("f", 1), &mut messages);
    region.add(plain("f", 2).with_overload(true), &mut messages);
    assert_eq!(messages, vec![duplicate("f", 2, 1)]);
}

#[test]
fn complete_overload_replaces_deferred_plain() {
    let mut region = DeclarativeRegion::new();
    let mut messages = Vec::new();
    region.add(plain("f", 1).with_deferred(true), &mut messages);
    region.add(plain("f", 2).with_overload(true), &mut messages);
    assert!(messages.is_empty());
    assert!(region.lookup(&identifier("f")).unwrap().may_overload);
}

#[test]
fn kinds_of_designator_are_different_names() {
    let mut region = DeclarativeRegion::new();
    let mut messages = Vec::new();
    region.add(plain("a", 1), &mut messages);
    region.add(
        DeclarativeItem::new(WithPos::new(Designator::Character(b'a'), pos(2))),
        &mut messages,
    );
    region.add(
        DeclarativeItem::new(WithPos::new(
            Designator::OperatorSymbol(Latin1String::new(b"a")),
            pos(3),
        )),
        &mut messages,
    );
    assert!(messages.is_empty());
    assert_eq!(region.lookup(&Designator::Character(b'a')).unwrap().designator.pos, pos(2));
    assert!(region.lookup(&Designator::Character(b'b')).is_none());
}

#[test]
fn duplicate_names_the_designator_as_it_is_written() {
    let mut region = DeclarativeRegion::new();
    let mut messages = Vec::new();
    for start in [1, 2] {
        region.add(
            DeclarativeItem::new(WithPos::new(Designator::Character(b'x'), pos(start))),
            &mut messages,
        );
        region.add(
            DeclarativeItem::new(WithPos::new(
                Designator::OperatorSymbol(Latin1String::new(b"+")),
                pos(start + 10),
            )),
            &mut messages,
        );
    }
    assert_eq!(messages, vec![duplicate("'x'", 2, 1), duplicate("\"+\"", 12, 11)]);
    assert_eq!(messages[0].message, "Duplicate declaration of ''x''");
    assert_eq!(messages[1].message, "Duplicate declaration of '\"+\"'");
}

#[test]
fn designator_is_written_by_kind() {
    assert_eq!(identifier("foo").to_string(), "foo");
    assert_eq!(Designator::OperatorSymbol(Latin1String::new(b"and")).to_string(), "\"and\"");
    assert_eq!(Designator::Character(b'x').to_string(), "'x'");
    assert_eq!(Designator::Character(0xe9).to_string(), "'\u{e9}'");
}

#[test]
fn latin_1_bytes_are_code_points() {
    assert_eq!(Latin1String::new(&[0x61, 0xe9, 0xff]).to_string(), "a\u{e9}\u{ff}");
    assert_eq!(Latin1String::new(b"").to_string(), "");
    assert_eq!(Latin1String::new(b"abc").len(), 3);
    assert!(Latin1String::new(b"abc").same_text(&Latin1String::from_vec(vec![0x61, 0x62, 0x63])));
    assert!(!Latin1String::new(b"abc").same_text(&Latin1String::new(b"abd")));
    assert!(!Latin1String::new(b"abc").same_text(&Latin1String::new(b"ab")));
}

#[test]
fn item_builders_set_one_flag_each() {
    let item = DeclarativeItem::new(WithPos::new(Designator::Character(b'c'), pos(4)));
    assert!(!item.may_overload && !item.is_deferred);
    let item = item.with_overload(true);
    assert!(item.may_overload && !item.is_deferred);
    let item = item.with_deferred(true);
    assert!(item.may_overload && item.is_deferred);
    let item = item.with_overload(false);
    assert!(!item.may_overload && item.is_deferred);
    assert_eq!(item.designator.pos, pos(4));
}

#[test]
fn only_a_constant_without_value_is_deferred() {
    for (class, has_expression, deferred) in [
        (ObjectClass::Constant, false, true),
        (ObjectClass::Constant, true, false),
        (ObjectClass::Signal, false, false),
        (ObjectClass::Variable, false, false),
        (ObjectClass::SharedVariable, false, false),
    ] {
        let object =
            Declaration::Object(ObjectDeclaration { class, ident: ident("a", 1), has_expression });
        let items = object.declarative_items();
        assert_eq!(items.len(), 1);
        assert_eq!(items[0].is_deferred, deferred);
        assert!(!items[0].may_overload);
    }
}

#[test]
fn declarations_contribute_their_items() {
    let one_plain = vec![
        Declaration::File(FileDeclaration { ident: ident("a", 1) }),
        Declaration::Component(ComponentDeclaration {
            ident: ident("a", 1),
            generic_list: Vec::new(),
            port_list: Vec::new(),
        }),
        Declaration::Attribute(Attribute::Declaration(AttributeDeclaration {
            ident: ident("a", 1),
        })),
        Declaration::Package(PackageInstantiation { ident: ident("a", 1) }),
        Declaration::Type(TypeDeclaration { ident: ident("a", 1), def: TypeDefinition::Other }),
        Declaration::Type(TypeDeclaration {
            ident: ident("a", 1),
            def: TypeDefinition::Record(Vec::new()),
        }),
        Declaration::Alias(AliasDeclaration {
            designator: WithPos::new(identifier("a"), pos(1)),
            has_signature: false,
        }),
    ];
    for declaration in one_plain.iter() {
        let items = declaration.declarative_items();
        assert_eq!(items.len(), 1);
        assert_eq!(items[0].designator.item.to_string(), "a");
        assert_eq!(items[0].designator.pos, pos(1));
        assert!(!items[0].may_overload && !items[0].is_deferred);
    }
    let none = vec![
        Declaration::Use,
        Declaration::Configuration,
        Declaration::Attribute(Attribute::Specification),
        Declaration::Type(TypeDeclaration { ident: ident("a", 1), def: TypeDefinition::Incomplete }),
        Declaration::Type(TypeDeclaration {
            ident: ident("a", 1),
            def: TypeDefinition::ProtectedBody(ProtectedTypeBody { decl: Vec::new() }),
        }),
    ];
    for declaration in none.iter() {
        assert!(declaration.declarative_items().is_empty());
    }
    let overloadable = vec![
        Declaration::SubprogramDeclaration(function("a", 1, Vec::new())),
        Declaration::Alias(AliasDeclaration {
            designator: WithPos::new(identifier("a"), pos(1)),
            has_signature: true,
        }),
    ];
    for declaration in overloadable.iter() {
        let items = declaration.declarative_items();
        assert_eq!(items.len(), 1);
        assert!(items[0].may_overload && !items[0].is_deferred);
    }
}

#[test]
fn enumeration_contributes_its_name_and_its_literals() {
    let declaration = Declaration::Type(TypeDeclaration {
        ident: ident("t", 1),
        def: TypeDefinition::Enumeration(vec![
            WithPos::new(EnumerationLiteral::Identifier(ident("a", 0).item), pos(2)),
            WithPos::new(EnumerationLiteral::Character(b'b'), pos(3)),
        ]),
    });
    let items = declaration.declarative_items();
    let written: Vec<String> = items.iter().map(|i| i.designator.item.to_string()).collect();
    assert_eq!(written, vec!["t", "a", "'b'"]);
    let places: Vec<SrcPos> = items.iter().map(|i| i.designator.pos).collect();
    assert_eq!(places, vec![pos(1), pos(2), pos(3)]);
    let overload: Vec<bool> = items.iter().map(|i| i.may_overload).collect();
    assert_eq!(overload, vec![false, true, true]);
}

#[test]
fn operator_symbol_names_a_subprogram() {
    let plus = SubprogramDesignator::OperatorSymbol(Latin1String::new(b"+"));
    assert_eq!(plus.to_designator().to_string(), "\"+\"");
    let declaration = SubprogramDeclaration::Function(FunctionSpecification {
        designator: WithPos::new(plus, pos(9)),
        parameter_list: vec![parameter("l", 1), parameter("r", 2)],
    });
    assert_eq!(declaration.designator().pos, pos(9));
    assert_eq!(declaration.interface_list().len(), 2);
    assert_eq!(EnumerationLiteral::Character(b'1').to_designator().to_string(), "'1'");
}

#[test]
fn many_distinct_names_report_nothing() {
    let mut declarations = Vec::new();
    for i in 0..200 {
        declarations.push(constant(&format!("name_{}", i), i, true));
    }
    let mut messages = Vec::new();
    check_declarative_part_unique_ident(&declarations, &mut messages);
    assert!(messages.is_empty());
}

#[test]
fn character_literals_overload_across_types() {
    let enumeration = |name: &str, at: usize| {
        Declaration::Type(TypeDeclaration {
            ident: ident(name, at),
            def: TypeDefinition::Enumeration(vec![WithPos::new(
                EnumerationLiteral::Character(b'0'),
                pos(at + 1),
            )]),
        })
    };
    let mut messages = Vec::new();
    check_declarative_part_unique_ident(
        &vec![enumeration("bit", 1), enumeration("logic", 5)],
        &mut messages,
    );
    assert!(messages.is_empty());
}

#[test]
fn interface_subprograms_overload() {
    let list = vec![
        InterfaceDeclaration::Subprogram(function("f", 1, Vec::new())),
        InterfaceDeclaration::Subprogram(function("f", 2, Vec::new())),
        InterfaceDeclaration::Type(ident("f", 3)),
    ];
    let mut messages = Vec::new();
    check_interface_list_unique_ident(&list, &mut messages);
    assert_eq!(messages, vec![duplicate("f", 3, 2)]);
}

#[test]
fn record_elements_are_a_scope_of_their_own() {
    let elements = vec![
        ElementDeclaration { ident: ident("x", 1) },
        ElementDeclaration { ident: ident("y", 2) },
        ElementDeclaration { ident: ident("x", 3) },
    ];
    let mut messages = Vec::new();
    check_element_declaration_unique_ident(&elements, &mut messages);
    assert_eq!(messages, vec![duplicate("x", 3, 1)]);
    let record = Declaration::Type(TypeDeclaration {
        ident: ident("x", 0),
        def: TypeDefinition::Record(elements),
    });
    let mut messages = Vec::new();
    check_declarative_part_unique_ident(&vec![record], &mut messages);
    assert_eq!(messages, vec![duplicate("x", 3, 1)]);
}

#[test]
fn messages_are_appended_to_what_is_there() {
    let earlier = Message::hint(&pos(0), "kept");
    let mut messages = vec![Message::hint(&pos(0), "kept")];
    check_declarative_part_unique_ident(
        &vec![constant("a", 1, true), constant("a", 2, true)],
        &mut messages,
    );
    assert_eq!(messages, vec![earlier, duplicate("a", 2, 1)]);
}

#[test]
fn message_builders_fill_the_fields() {
    let error = Message::error(&pos(3), "wrong");
    assert_eq!(error.severity, Severity::Error);
    assert_eq!(error.pos, pos(3));
    assert_eq!(error.message, "wrong");
    assert_eq!(error.related, None);
    let hint = Message::hint(&pos(4), "maybe").related(&pos(5), "see");
    assert_eq!(hint.severity, Severity::Hint);
    assert_eq!(hint.message, "maybe");
    assert_eq!(hint.related, Some((pos(5), "see".to_string())));
    let made = Message::new(&pos(6), "text".to_string(), Severity::Hint);
    assert_eq!(made, Message::hint(&pos(6), "text"));
}
