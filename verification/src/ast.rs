//! The parsed design, as far as the name checks read it.

use vstd::prelude::*;
use vstd::string::*;
use crate::latin_1::{latin1_chars, push_char, Latin1String};
use crate::source::WithPos;
use crate::symbol_table::Symbol;

verus! {

pub type Ident = WithPos<Symbol>;

/// The identity of a declared name.
#[derive(Debug)]
pub enum Designator {
    Identifier(Symbol),
    OperatorSymbol(Latin1String),
    Character(u8),
}

/// A designator as a mathematical value: its kind and its text. Two
/// designators are the same name exactly when their views are equal.
pub enum DesignatorView {
    Identifier(Seq<u8>),
    OperatorSymbol(Seq<u8>),
    Character(u8),
}

impl View for Designator {
    type V = DesignatorView;

    open spec fn view(&self) -> DesignatorView {
        match self {
            Designator::Identifier(sym) => DesignatorView::Identifier(sym@),
            Designator::OperatorSymbol(text) => DesignatorView::OperatorSymbol(text@),
            Designator::Character(byte) => DesignatorView::Character(*byte),
        }
    }
}

impl DesignatorView {
    /// The designator as it is written in a message: an identifier bare,
    /// an operator symbol between double quotes, a character literal
    /// between single quotes.
    pub open spec fn text(self) -> Seq<char> {
        match self {
            DesignatorView::Identifier(name) => latin1_chars(name),
            DesignatorView::OperatorSymbol(text) => seq!['"'] + latin1_chars(text) + seq!['"'],
            DesignatorView::Character(byte) => seq!['\'', byte as char, '\''],
        }
    }
}

impl Clone for Designator {
    fn clone(&self) -> (res: Self)
        ensures
            res@ == self@,
    {
        match self {
            Designator::Identifier(sym) => Designator::Identifier(sym.clone()),
            Designator::OperatorSymbol(text) => Designator::OperatorSymbol(text.clone()),
            Designator::Character(byte) => Designator::Character(*byte),
        }
    }
}

impl Designator {
    /// Appends the designator, as a message writes it, to `out`.
    pub fn append_to(&self, out: &mut String)
        ensures
            final(out)@ == old(out)@ + self@.text(),
    {
        match self {
            Designator::Identifier(sym) => {
                sym.name().append_to(out);
            },
            Designator::OperatorSymbol(text) => {
                push_char(out, '"');
                text.append_to(out);
                push_char(out, '"');
                assert(out@ =~= old(out)@ + self@.text());
            },
            Designator::Character(byte) => {
                push_char(out, '\'');
                push_char(out, *byte as char);
                push_char(out, '\'');
                assert(out@ =~= old(out)@ + self@.text());
            },
        }
    }

    /// The designator as a message writes it.
    pub fn to_string(&self) -> (text: String)
        ensures
            text@ == self@.text(),
    {
        let mut text = String::new();
        self.append_to(&mut text);
        assert(text@ =~= self@.text());
        text
    }
}

#[derive(Clone, Copy, Debug, PartialEq, Eq, Structural)]
pub enum ObjectClass {
    Signal,
    Constant,
    Variable,
    SharedVariable,
}

/// The name of a subprogram: an identifier or an operator symbol.
#[derive(Debug)]
pub enum SubprogramDesignator {
    Identifier(Symbol),
    OperatorSymbol(Latin1String),
}

#[derive(Debug)]
pub struct ProcedureSpecification {
    pub designator: WithPos<SubprogramDesignator>,
    pub parameter_list: Vec<InterfaceDeclaration>,
}

#[derive(Debug)]
pub struct FunctionSpecification {
    pub designator: WithPos<SubprogramDesignator>,
    pub parameter_list: Vec<InterfaceDeclaration>,
}

#[derive(Debug)]
pub enum SubprogramDeclaration {
    Procedure(ProcedureSpecification),
    Function(FunctionSpecification),
}

#[derive(Debug)]
pub struct SubprogramBody {
    pub specification: SubprogramDeclaration,
    pub declarations: Vec<Declaration>,
}

#[derive(Debug)]
pub struct InterfaceFileDeclaration {
    pub ident: Ident,
}

#[derive(Debug)]
pub struct InterfaceObjectDeclaration {
    pub class: ObjectClass,
    pub ident: Ident,
}

#[derive(Debug)]
pub struct InterfacePackageDeclaration {
    pub ident: Ident,
}

/// One element of a generic clause, a port clause or a parameter list.
#[derive(Debug)]
pub enum InterfaceDeclaration {
    Object(InterfaceObjectDeclaration),
    File(InterfaceFileDeclaration),
    Type(Ident),
    Subprogram(SubprogramDeclaration),
    Package(InterfacePackageDeclaration),
}

/// An object declaration; `has_expression` says whether it gives the
/// object an initial value.
#[derive(Debug)]
pub struct ObjectDeclaration {
    pub class: ObjectClass,
    pub ident: Ident,
    pub has_expression: bool,
}

#[derive(Debug)]
pub struct FileDeclaration {
    pub ident: Ident,
}

#[derive(Debug)]
pub struct ComponentDeclaration {
    pub ident: Ident,
    pub generic_list: Vec<InterfaceDeclaration>,
    pub port_list: Vec<InterfaceDeclaration>,
}

#[derive(Debug)]
pub struct AttributeDeclaration {
    pub ident: Ident,
}

#[derive(Debug)]
pub enum Attribute {
    Specification,
    Declaration(AttributeDeclaration),
}

/// An alias; `has_signature` says whether it names a subprogram or an
/// enumeration literal by its signature.
#[derive(Debug)]
pub struct AliasDeclaration {
    pub designator: WithPos<Designator>,
    pub has_signature: bool,
}

#[derive(Debug)]
pub struct PackageInstantiation {
    pub ident: Ident,
}

#[derive(Debug)]
pub enum EnumerationLiteral {
    Identifier(Symbol),
    Character(u8),
}

#[derive(Debug)]
pub struct ElementDeclaration {
    pub ident: Ident,
}

#[derive(Debug)]
pub enum ProtectedTypeDeclarativeItem {
    Subprogram(SubprogramDeclaration),
}

#[derive(Debug)]
pub struct ProtectedTypeDeclaration {
    pub items: Vec<ProtectedTypeDeclarativeItem>,
}

#[derive(Debug)]
pub struct ProtectedTypeBody {
    pub decl: Vec<Declaration>,
}

#[derive(Debug)]
pub enum TypeDefinition {
    Enumeration(Vec<WithPos<EnumerationLiteral>>),
    Record(Vec<ElementDeclaration>),
    Incomplete,
    Protected(ProtectedTypeDeclaration),
    ProtectedBody(ProtectedTypeBody),
    /// Any other type definition: it declares the name of the type and
    /// no name besides.
    Other,
}

#[derive(Debug)]
pub struct TypeDeclaration {
    pub ident: Ident,
    pub def: TypeDefinition,
}

/// One item of a declarative part.
#[derive(Debug)]
pub enum Declaration {
    Object(ObjectDeclaration),
    File(FileDeclaration),
    Type(TypeDeclaration),
    Component(ComponentDeclaration),
    Attribute(Attribute),
    Alias(AliasDeclaration),
    SubprogramDeclaration(SubprogramDeclaration),
    SubprogramBody(SubprogramBody),
    Use,
    Package(PackageInstantiation),
    Configuration,
}

#[derive(Debug)]
pub struct BlockStatement {
    pub decl: Vec<Declaration>,
    pub statements: Vec<LabeledConcurrentStatement>,
}

#[derive(Debug)]
pub struct ProcessStatement {
    pub decl: Vec<Declaration>,
}

/// The body of one branch of a generate statement.
#[derive(Debug)]
pub struct GenerateBody {
    pub decl: Option<Vec<Declaration>>,
    pub statements: Vec<LabeledConcurrentStatement>,
}

#[derive(Debug)]
pub struct ForGenerateStatement {
    pub body: GenerateBody,
}

#[derive(Debug)]
pub struct IfGenerateStatement {
    pub conditionals: Vec<GenerateBody>,
    pub else_item: Option<GenerateBody>,
}

#[derive(Debug)]
pub struct CaseGenerateStatement {
    pub alternatives: Vec<GenerateBody>,
}

#[derive(Debug)]
pub enum ConcurrentStatement {
    ProcedureCall,
    Block(BlockStatement),
    Process(ProcessStatement),
    Assert,
    Assignment,
    Instance,
    ForGenerate(ForGenerateStatement),
    IfGenerate(IfGenerateStatement),
    CaseGenerate(CaseGenerateStatement),
}

#[derive(Debug)]
pub struct LabeledConcurrentStatement {
    pub label: Option<Ident>,
    pub statement: ConcurrentStatement,
}

#[derive(Debug)]
pub struct LibraryClause {
    pub name_list: Vec<Ident>,
}

#[derive(Debug)]
pub enum ContextItem {
    Use,
    Library(LibraryClause),
    Context,
}

/// A design unit with the context clause written before it.
#[derive(Debug)]
pub struct DesignUnit<T> {
    pub context_clause: Vec<WithPos<ContextItem>>,
    pub unit: T,
}

#[derive(Debug)]
pub struct EntityDeclaration {
    pub ident: Ident,
    pub generic_clause: Option<Vec<InterfaceDeclaration>>,
    pub port_clause: Option<Vec<InterfaceDeclaration>>,
    pub decl: Vec<Declaration>,
    pub statements: Vec<LabeledConcurrentStatement>,
}

#[derive(Debug)]
pub struct ArchitectureBody {
    pub ident: Ident,
    pub entity_name: Ident,
    pub decl: Vec<Declaration>,
    pub statements: Vec<LabeledConcurrentStatement>,
}

#[derive(Debug)]
pub struct PackageDeclaration {
    pub ident: Ident,
    pub generic_clause: Option<Vec<InterfaceDeclaration>>,
    pub decl: Vec<Declaration>,
}

#[derive(Debug)]
pub struct PackageBody {
    pub ident: Ident,
    pub decl: Vec<Declaration>,
}

} // verus!
