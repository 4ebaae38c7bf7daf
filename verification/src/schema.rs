//! The compiled type model: normalized items, struct and enum definitions,
//! and the errors that abort a compilation run.

use vstd::prelude::*;

verus! {

/// Why a compilation run was aborted. Every error is fatal: each emitted
/// type depends on the whole schema graph resolving, so there is no
/// meaningful partial result.
#[derive(Debug, Clone, Copy, PartialEq, Eq, Structural)]
pub enum CompileError {
    /// A `$ref` names a document that is not among the loaded files.
    NotFound,
    /// A referenced document is not syntactically valid JSON.
    ParseError,
    /// An object schema carries no `title`: an anonymous object cannot
    /// become a named type.
    MissingTitle,
    /// An array schema carries no `items`.
    MissingItems,
    /// The last branch of an `anyOf` enumeration carries no scalar `type`.
    MissingEnumBranchType,
    /// A schema node is not an object, or a recognized keyword holds a
    /// value of the wrong JSON shape.
    Malformed,
    /// Nesting, or a `$ref` chain, deeper than the defensive limit; a
    /// reference cycle always ends here.
    RecursionLimit,
}

/// A fatal compilation failure: what went wrong, and the path of the
/// document it was found in (for a reference that could not be resolved,
/// the path that was asked for).
#[derive(Debug, Clone, PartialEq, Eq)]
pub struct CompileFailure {
    pub error: CompileError,
    pub path: String,
}

/// A failure as the model sees it: the path by its characters.
pub ghost struct FailView {
    pub error: CompileError,
    pub path: Seq<char>,
}

impl View for CompileFailure {
    type V = FailView;

    open spec fn view(&self) -> FailView {
        FailView { error: self.error, path: self.path@ }
    }
}

/// Inclusive bounds of an integer schema; absent bounds default to the
/// full representable range.
#[derive(Debug, Clone, Copy, PartialEq, Eq, Structural)]
pub struct IntRange {
    pub minimum: i64,
    pub maximum: i64,
}

/// The shape of an array schema: its element type and its size bounds.
/// `max_items == None` means unbounded.
#[derive(Debug, PartialEq, Eq)]
pub struct Array {
    pub item_type: Box<Item>,
    pub min_items: i64,
    pub max_items: Option<i64>,
}

/// One normalized schema object: what a field's type compiles to.
#[derive(Debug, PartialEq, Eq)]
pub enum Item {
    /// A registered struct definition, by handle.
    Struct(usize),
    /// A registered enum definition, by handle.
    Enum(usize),
    Array(Array),
    Integer(IntRange),
    Number,
    String,
    Boolean,
    /// The open-ended extension slot: an opaque passthrough value.
    Extension,
    Unknown,
}

/// One named field of a struct definition.
#[derive(Debug, PartialEq, Eq)]
pub struct Property {
    pub title: String,
    pub description: Option<String>,
    pub item: Item,
    /// Whether the field's name stood in the schema's `required` list;
    /// a decoder reports an absent required field as a failure, while an
    /// absent optional field takes its type's default.
    pub required: bool,
}

/// A named record type: created exactly once per unique title, with its
/// property list complete before its handle is handed out.
#[derive(Debug, PartialEq, Eq)]
pub struct StructDefinition {
    pub title: String,
    pub description: Option<String>,
    pub properties: Vec<Property>,
}

/// The constant carried by one enumeration option. A non-integer numeric
/// constant keeps its decimal text.
#[derive(Debug, PartialEq, Eq)]
pub enum EnumValue {
    Integer(i64),
    String(String),
    Number(String),
}

/// One option of an enumeration: its name is its branch's `description`,
/// emitted under a placeholder name when absent.
#[derive(Debug, PartialEq, Eq)]
pub struct EnumOption {
    pub name: Option<String>,
    pub description: Option<String>,
    pub value: EnumValue,
}

/// A named enumeration, built in one pass from an `anyOf` list whose
/// branches carry single-constant `enum` lists. Enums are not deduplicated:
/// every `anyOf` occurrence produces its own definition, under its schema's
/// `title` when it has one.
#[derive(Debug, PartialEq, Eq)]
pub struct EnumDefinition {
    pub title: Option<String>,
    pub description: Option<String>,
    pub options: Vec<EnumOption>,
}

/// A struct definition as the model sees it: its property list as a
/// sequence.
pub ghost struct StructDefView {
    pub title: String,
    pub description: Option<String>,
    pub properties: Seq<Property>,
}

impl View for StructDefinition {
    type V = StructDefView;

    open spec fn view(&self) -> StructDefView {
        StructDefView {
            title: self.title,
            description: self.description,
            properties: self.properties@,
        }
    }
}

impl DeepView for StructDefinition {
    type V = StructDefView;

    open spec fn deep_view(&self) -> StructDefView {
        self@
    }
}

/// An enum definition as the model sees it: its option list as a sequence.
pub ghost struct EnumDefView {
    pub title: Option<String>,
    pub description: Option<String>,
    pub options: Seq<EnumOption>,
}

impl View for EnumDefinition {
    type V = EnumDefView;

    open spec fn view(&self) -> EnumDefView {
        EnumDefView { title: self.title, description: self.description, options: self.options@ }
    }
}

impl DeepView for EnumDefinition {
    type V = EnumDefView;

    open spec fn deep_view(&self) -> EnumDefView {
        self@
    }
}

/// The scalar kind of an enumeration, taken from its last branch's `type`.
#[derive(Debug, Clone, Copy, PartialEq, Eq, Structural)]
pub enum EnumKind {
    Integer,
    Number,
    String,
}

} // verus!
