//! The schema model: the entity definitions a decoded library is made of.
//!
//! Pure data. Every variant set is closed: the decoder rejects an unknown tag
//! rather than defaulting, so a consumer matching over these enums handles
//! every wire-format concept there is. The whole model is built once by
//! `decode` and never mutated afterwards.

use vstd::prelude::*;

verus! {

/// The closed set of handle subtypes.
#[derive(Debug, PartialEq, Eq, Clone, Copy)]
pub enum HandleSubtype {
    Handle,
    Process,
    Thread,
    Vmo,
    Channel,
    Event,
    Port,
    Interrupt,
    DebugLog,
    Socket,
    Resource,
    EventPair,
    Job,
    Vmar,
    Fifo,
    Guest,
    Timer,
    Bti,
    Profile,
}

/// The closed set of declaration kinds a name can resolve to.
#[derive(Debug, PartialEq, Eq, Clone, Copy)]
pub enum DeclarationKind {
    Const,
    Bits,
    Enum,
    Protocol,
    Struct,
    Table,
    Union,
    ExtensibleUnion,
}

/// A recursive, tagged type reference. `Array` and `Vector` nest an element
/// type; `Identifier` names another declaration by qualified name.
#[derive(Debug, PartialEq)]
#[allow(inconsistent_fields)]
pub enum Type {
    Array { element_type: Box<Type>, element_count: u32 },
    Vector { element_type: Box<Type>, nullable: bool, maybe_element_count: Option<u32> },
    Str { nullable: bool, maybe_element_count: Option<u32> },
    Handle { subtype: HandleSubtype, nullable: bool },
    Request { subtype: String, nullable: bool },
    Primitive { subtype: String },
    Identifier { identifier: String, nullable: bool },
}

/// An inline literal value. Numeric values stay as unparsed text: the producer
/// may emit values wider than any fixed-width representation.
#[derive(Debug, PartialEq)]
pub enum Literal {
    Str { value: String },
    Numeric { value: String },
    True,
    False,
    DefaultVal,
}

/// A constant expression: a reference to another declaration by qualified
/// name, or an inline literal. Recursion terminates at `Literal`.
#[derive(Debug, PartialEq)]
pub enum Constant {
    Identifier { identifier: String },
    Literal { literal: Literal },
}

/// A producer-attached name/value pair, opaque to this model.
#[derive(Debug, PartialEq)]
pub struct Attribute {
    pub name: String,
    pub value: String,
}

/// A `const` declaration.
#[derive(Debug, PartialEq)]
pub struct ConstDecl {
    pub name: String,
    pub ty: Type,
    pub value: Constant,
    pub attributes: Vec<Attribute>,
}

/// One member of an enum declaration.
#[derive(Debug, PartialEq)]
pub struct EnumMember {
    pub name: String,
    pub value: Constant,
    pub attributes: Vec<Attribute>,
}

/// An `enum` declaration; `ty` names the underlying primitive subtype.
#[derive(Debug, PartialEq)]
pub struct EnumDecl {
    pub name: String,
    pub ty: String,
    pub members: Vec<EnumMember>,
    pub attributes: Vec<Attribute>,
}

/// A field-bearing member of a struct or union, or of a method's request or
/// response. Carries the producer-supplied wire-layout facts.
#[derive(Debug, PartialEq)]
pub struct FieldMember {
    pub name: String,
    pub ty: Type,
    pub size: u32,
    pub alignment: u32,
    pub offset: u32,
    pub max_out_of_line: u32,
    pub maybe_default_value: Option<Constant>,
    pub attributes: Vec<Attribute>,
}

/// A `struct` declaration.
#[derive(Debug, PartialEq)]
pub struct StructDecl {
    pub name: String,
    pub members: Vec<FieldMember>,
    pub size: u32,
    pub max_out_of_line: u32,
    pub max_handles: Option<u32>,
    pub anonymous: Option<bool>,
    pub attributes: Vec<Attribute>,
}

/// One member of a table. A reserved member is a placeholder ordinal with no
/// payload: no name, no type, no layout.
#[derive(Debug, PartialEq)]
pub struct TableMember {
    pub reserved: bool,
    pub ordinal: u64,
    pub name: Option<String>,
    pub ty: Option<Type>,
    pub size: Option<u32>,
    pub alignment: Option<u32>,
    pub offset: Option<u32>,
    pub max_out_of_line: Option<u32>,
    pub maybe_default_value: Option<Constant>,
}

/// A `table` declaration.
#[derive(Debug, PartialEq)]
pub struct TableDecl {
    pub name: String,
    pub members: Vec<TableMember>,
    pub size: u32,
    pub max_out_of_line: u32,
    pub attributes: Vec<Attribute>,
}

/// A `union` declaration.
#[derive(Debug, PartialEq)]
pub struct UnionDecl {
    pub name: String,
    pub members: Vec<FieldMember>,
    pub size: u32,
    pub alignment: u32,
    pub max_out_of_line: u32,
    pub max_handles: Option<u32>,
    pub attributes: Vec<Attribute>,
}

/// An extensible-union declaration: a name plus attributes.
#[derive(Debug, PartialEq)]
pub struct XUnionDecl {
    pub name: String,
    pub attributes: Vec<Attribute>,
}

/// One protocol method. `ordinal` is the producer-assigned wire-dispatch
/// identifier; `generated_ordinal` is the derived fallback. A method carries a
/// request, a response, or both — never neither. See `method_ordinal_usable`
/// and `protocol_ordinals_unique` for what the producer promises about the
/// ordinals beyond what `decode` checks.
#[derive(Debug, PartialEq)]
pub struct Method {
    pub name: String,
    pub ordinal: u64,
    pub generated_ordinal: u64,
    pub has_request: bool,
    pub maybe_request: Option<Vec<FieldMember>>,
    pub maybe_request_size: Option<u32>,
    pub maybe_request_alignment: Option<u32>,
    pub has_response: bool,
    pub maybe_response: Option<Vec<FieldMember>>,
    pub maybe_response_size: Option<u32>,
    pub maybe_response_alignment: Option<u32>,
    pub attributes: Vec<Attribute>,
}

/// A protocol declaration: an ordered sequence of methods.
#[derive(Debug, PartialEq)]
pub struct ProtocolDecl {
    pub name: String,
    pub methods: Vec<Method>,
    pub attributes: Vec<Attribute>,
}

/// Producer assumption, stated for consumers and not checked by `decode`
/// (whose validation list does not include it): a method's wire identifier is
/// usable — `ordinal` or, failing that, `generated_ordinal` is non-zero, and
/// consumers prefer `ordinal`.
pub open spec fn method_ordinal_usable(m: Method) -> bool {
    m.ordinal != 0 || m.generated_ordinal != 0
}

/// Producer assumption, stated for consumers and not checked by `decode`: no
/// two methods of one protocol share a wire ordinal.
pub open spec fn protocol_ordinals_unique(p: ProtocolDecl) -> bool {
    forall|i: int, j: int|
        0 <= i < j < p.methods@.len() ==> (#[trigger] p.methods@[i]).ordinal != (
        #[trigger] p.methods@[j]).ordinal
}

/// A referenced library: its qualified name and the name-to-kind stubs of the
/// declarations it makes visible. Used for lookup only, never for layout.
#[derive(Debug, PartialEq)]
pub struct LibraryDependency {
    pub name: String,
    pub declarations: Vec<(String, DeclarationKind)>,
}

/// A decoded library: the top-level unit the decoder produces and the query
/// interface reads. Immutable once constructed.
///
/// The `declarations` field is the producer's name-to-kind index, re-exposed
/// as decoded; that it agrees with the kind lists is a producer assumption
/// (`kind_index_agrees` in the query interface), not a check `decode` makes —
/// `resolve` therefore reads the lists, never this index.
#[derive(Debug, PartialEq)]
pub struct Library {
    pub version: String,
    pub name: String,
    pub const_declarations: Vec<ConstDecl>,
    pub enum_declarations: Vec<EnumDecl>,
    pub interface_declarations: Vec<ProtocolDecl>,
    pub struct_declarations: Vec<StructDecl>,
    pub table_declarations: Vec<TableDecl>,
    pub union_declarations: Vec<UnionDecl>,
    pub xunion_declarations: Vec<XUnionDecl>,
    pub declaration_order: Vec<String>,
    pub declarations: Vec<(String, DeclarationKind)>,
    pub library_dependencies: Vec<LibraryDependency>,
}

/// Why a document failed to decode. Every variant names the enclosing
/// declaration or entity so the failure is actionable without re-deriving a
/// position in the raw document.
#[derive(Debug, PartialEq)]
pub enum DecodeError {
    /// The document (or a named part of it) is not of the expected shape: a
    /// non-object entity, an ill-shaped optional field, or a table whose
    /// member ordinals do not fill `1..=N`.
    MalformedDocument { context: String },
    /// A tag value outside its closed variant set, named by `tag`.
    UnknownVariant { context: String, tag: String },
    /// A required field of the detected variant, named by `field`, is absent
    /// or not of the shape the variant requires.
    MissingField { context: String, field: String },
    /// The same name declared more than once.
    DuplicateDeclaration { name: String },
    /// A `declaration_order` entry with no matching declaration.
    DanglingOrderEntry { name: String },
    /// A declared name absent from `declaration_order`.
    MissingOrderEntry { name: String },
    /// A method with neither request nor response.
    EmptyMethod { protocol: String, method: String },
}

} // verus!
