//! The declarative items that each kind of declaration contributes to the
//! region it stands in.

use vstd::prelude::*;
use crate::ast::{
    Attribute, Declaration, Designator, DesignatorView, ElementDeclaration, EnumerationLiteral,
    Ident, InterfaceDeclaration, ObjectClass, SubprogramDeclaration, SubprogramDesignator,
    TypeDefinition,
};
use crate::region::{DeclarativeItem, ItemView};
use crate::source::{SrcPos, WithPos};

verus! {

/// The views of a list of items, in order.
pub open spec fn item_views(items: Seq<DeclarativeItem>) -> Seq<ItemView> {
    Seq::new(items.len(), |i: int| items[i]@)
}

/// The item of a name that can neither be overloaded nor completed.
pub open spec fn plain_item(designator: DesignatorView, pos: SrcPos) -> ItemView {
    ItemView { designator, pos, may_overload: false, is_deferred: false }
}

/// The item of a name that can be overloaded.
pub open spec fn overloadable_item(designator: DesignatorView, pos: SrcPos) -> ItemView {
    ItemView { designator, pos, may_overload: true, is_deferred: false }
}

pub open spec fn ident_item(ident: Ident) -> ItemView {
    plain_item(DesignatorView::Identifier(ident.item@), ident.pos)
}

impl SubprogramDesignator {
    pub open spec fn designator_view(&self) -> DesignatorView {
        match self {
            SubprogramDesignator::Identifier(sym) => DesignatorView::Identifier(sym@),
            SubprogramDesignator::OperatorSymbol(text) => DesignatorView::OperatorSymbol(text@),
        }
    }

    pub fn to_designator(&self) -> (designator: Designator)
        ensures
            designator@ == self.designator_view(),
    {
        match self {
            SubprogramDesignator::Identifier(sym) => Designator::Identifier(sym.clone()),
            SubprogramDesignator::OperatorSymbol(text) => Designator::OperatorSymbol(text.clone()),
        }
    }
}

impl EnumerationLiteral {
    pub open spec fn designator_view(&self) -> DesignatorView {
        match self {
            EnumerationLiteral::Identifier(sym) => DesignatorView::Identifier(sym@),
            EnumerationLiteral::Character(byte) => DesignatorView::Character(*byte),
        }
    }

    pub fn to_designator(&self) -> (designator: Designator)
        ensures
            designator@ == self.designator_view(),
    {
        match self {
            EnumerationLiteral::Identifier(sym) => Designator::Identifier(sym.clone()),
            EnumerationLiteral::Character(byte) => Designator::Character(*byte),
        }
    }
}

impl SubprogramDeclaration {
    /// The name of the subprogram, written where the declaration writes it.
    pub open spec fn name(&self) -> WithPos<SubprogramDesignator> {
        match self {
            SubprogramDeclaration::Function(function) => function.designator,
            SubprogramDeclaration::Procedure(procedure) => procedure.designator,
        }
    }

    /// The item that the subprogram contributes: subprograms overload.
    pub open spec fn item(&self) -> ItemView {
        overloadable_item(self.name().item.designator_view(), self.name().pos)
    }

    pub open spec fn parameters(&self) -> Seq<InterfaceDeclaration> {
        match self {
            SubprogramDeclaration::Function(function) => function.parameter_list@,
            SubprogramDeclaration::Procedure(procedure) => procedure.parameter_list@,
        }
    }

    pub fn designator(&self) -> (designator: WithPos<Designator>)
        ensures
            designator.item@ == self.name().item.designator_view(),
            designator.pos == self.name().pos,
    {
        match self {
            SubprogramDeclaration::Function(function) => WithPos {
                item: function.designator.item.to_designator(),
                pos: function.designator.pos,
            },
            SubprogramDeclaration::Procedure(procedure) => WithPos {
                item: procedure.designator.item.to_designator(),
                pos: procedure.designator.pos,
            },
        }
    }

    pub fn interface_list(&self) -> (list: &Vec<InterfaceDeclaration>)
        ensures
            list@ == self.parameters(),
    {
        match self {
            SubprogramDeclaration::Function(function) => &function.parameter_list,
            SubprogramDeclaration::Procedure(procedure) => &procedure.parameter_list,
        }
    }
}

/// The items of the literals of an enumeration type: literals overload.
pub open spec fn literal_items(literals: Seq<WithPos<EnumerationLiteral>>) -> Seq<ItemView> {
    Seq::new(
        literals.len(),
        |i: int| overloadable_item(literals[i].item.designator_view(), literals[i].pos),
    )
}

impl Declaration {
    /// The items that the declaration contributes to the region it stands
    /// in, in the order in which they are declared.
    pub open spec fn items(&self) -> Seq<ItemView> {
        match self {
            Declaration::Alias(alias) => seq![
                ItemView {
                    designator: alias.designator.item@,
                    pos: alias.designator.pos,
                    may_overload: alias.has_signature,
                    is_deferred: false,
                },
            ],
            Declaration::Object(object) => seq![
                ItemView {
                    designator: DesignatorView::Identifier(object.ident.item@),
                    pos: object.ident.pos,
                    may_overload: false,
                    is_deferred: object.class == ObjectClass::Constant && !object.has_expression,
                },
            ],
            Declaration::File(file) => seq![ident_item(file.ident)],
            Declaration::Component(component) => seq![ident_item(component.ident)],
            Declaration::Attribute(Attribute::Declaration(attribute)) => seq![
                ident_item(attribute.ident),
            ],
            Declaration::Attribute(Attribute::Specification) => Seq::empty(),
            Declaration::SubprogramBody(body) => seq![body.specification.item()],
            Declaration::SubprogramDeclaration(subprogram) => seq![subprogram.item()],
            Declaration::Use => Seq::empty(),
            Declaration::Package(package) => seq![ident_item(package.ident)],
            Declaration::Configuration => Seq::empty(),
            Declaration::Type(type_decl) => match type_decl.def {
                TypeDefinition::ProtectedBody(_) => Seq::empty(),
                TypeDefinition::Incomplete => Seq::empty(),
                TypeDefinition::Enumeration(literals) => seq![ident_item(type_decl.ident)]
                    + literal_items(literals@),
                _ => seq![ident_item(type_decl.ident)],
            },
        }
    }

    pub fn declarative_items(&self) -> (items: Vec<DeclarativeItem>)
        ensures
            item_views(items@) == self.items(),
    {
        let mut items: Vec<DeclarativeItem> = Vec::new();
        match self {
            Declaration::Alias(alias) => {
                items.push(
                    DeclarativeItem::new(
                        WithPos { item: alias.designator.item.clone(), pos: alias.designator.pos },
                    ).with_overload(alias.has_signature),
                );
            },
            Declaration::Object(object) => {
                let deferred = match object.class {
                    ObjectClass::Constant => !object.has_expression,
                    _ => false,
                };
                items.push(DeclarativeItem::from_ident(&object.ident).with_deferred(deferred));
            },
            Declaration::File(file) => {
                items.push(DeclarativeItem::from_ident(&file.ident));
            },
            Declaration::Component(component) => {
                items.push(DeclarativeItem::from_ident(&component.ident));
            },
            Declaration::Attribute(attribute) => match attribute {
                Attribute::Declaration(declaration) => {
                    items.push(DeclarativeItem::from_ident(&declaration.ident));
                },
                Attribute::Specification => {},
            },
            Declaration::SubprogramBody(body) => {
                items.push(DeclarativeItem::new(body.specification.designator()).with_overload(true));
            },
            Declaration::SubprogramDeclaration(subprogram) => {
                items.push(DeclarativeItem::new(subprogram.designator()).with_overload(true));
            },
            Declaration::Use => {},
            Declaration::Package(package) => {
                items.push(DeclarativeItem::from_ident(&package.ident));
            },
            Declaration::Configuration => {},
            Declaration::Type(type_decl) => match &type_decl.def {
                TypeDefinition::ProtectedBody(_) => {},
                TypeDefinition::Incomplete => {},
                TypeDefinition::Enumeration(literals) => {
                    items.push(DeclarativeItem::from_ident(&type_decl.ident));
                    let mut i: usize = 0;
                    while i < literals.len()
                        invariant
                            i <= literals.len(),
                            item_views(items@) == seq![ident_item(type_decl.ident)] + literal_items(
                                literals@.take(i as int),
                            ),
                        decreases literals.len() - i,
                    {
                        let literal = &literals[i];
                        let ghost before = items@;
                        let item = DeclarativeItem::new(
                            WithPos { item: literal.item.to_designator(), pos: literal.pos },
                        ).with_overload(true);
                        let ghost added = item@;
                        items.push(item);
                        proof {
                            let grown = literal_items(literals@.take(i + 1));
                            assert(literals@.take(i + 1)[i as int] == literals@[i as int]);
                            assert(grown[i as int] == added);
                            assert(grown =~= literal_items(literals@.take(i as int)).push(added));
                            assert(item_views(items@) =~= item_views(before).push(added));
                            assert(item_views(items@) =~= seq![ident_item(type_decl.ident)]
                                + grown);
                        }
                        i += 1;
                    }
                    assert(literals@.take(i as int) =~= literals@);
                },
                _ => {
                    items.push(DeclarativeItem::from_ident(&type_decl.ident));
                },
            },
        }
        assert(item_views(items@) =~= self.items());
        items
    }
}

impl InterfaceDeclaration {
    /// The item that the interface declaration contributes.
    pub open spec fn item(&self) -> ItemView {
        match self {
            InterfaceDeclaration::File(file) => ident_item(file.ident),
            InterfaceDeclaration::Object(object) => ident_item(object.ident),
            InterfaceDeclaration::Type(ident) => ident_item(*ident),
            InterfaceDeclaration::Subprogram(subprogram) => subprogram.item(),
            InterfaceDeclaration::Package(package) => ident_item(package.ident),
        }
    }

    pub fn declarative_items(&self) -> (items: Vec<DeclarativeItem>)
        ensures
            item_views(items@) == seq![self.item()],
    {
        let mut items: Vec<DeclarativeItem> = Vec::new();
        match self {
            InterfaceDeclaration::File(file) => {
                items.push(DeclarativeItem::from_ident(&file.ident));
            },
            InterfaceDeclaration::Object(object) => {
                items.push(DeclarativeItem::from_ident(&object.ident));
            },
            InterfaceDeclaration::Type(ident) => {
                items.push(DeclarativeItem::from_ident(ident));
            },
            InterfaceDeclaration::Subprogram(subprogram) => {
                items.push(DeclarativeItem::new(subprogram.designator()).with_overload(true));
            },
            InterfaceDeclaration::Package(package) => {
                items.push(DeclarativeItem::from_ident(&package.ident));
            },
        }
        assert(item_views(items@) =~= seq![self.item()]);
        items
    }
}

/// The items of a declarative part: those of its declarations, in source
/// order.
pub open spec fn declarative_part_items(declarations: Seq<Declaration>) -> Seq<ItemView>
    decreases declarations.len(),
{
    if declarations.len() == 0 {
        Seq::empty()
    } else {
        declarative_part_items(declarations.drop_last()) + declarations.last().items()
    }
}

/// The items of an interface list: one for each declaration, in source
/// order.
pub open spec fn interface_list_items(declarations: Seq<InterfaceDeclaration>) -> Seq<ItemView> {
    Seq::new(declarations.len(), |i: int| declarations[i].item())
}

/// The items of the elements of a record type: one for each element, in
/// source order.
pub open spec fn element_items(declarations: Seq<ElementDeclaration>) -> Seq<ItemView> {
    Seq::new(declarations.len(), |i: int| ident_item(declarations[i].ident))
}

} // verus!
