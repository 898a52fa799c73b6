//! The generic header grammar model: the typed shape of one header's
//! items as the manifest extractor consumes them. Types, markers and
//! declarations are plain data; the extractor turns them into the
//! semantically categorized manifest.

use vstd::prelude::*;

verus! {

/// A scalar C type as the headers spell it.
#[derive(Debug, Clone, Copy, PartialEq, Eq, Structural)]
pub enum GPrimitive {
    Void,
    Bool,
    Char,
    ShortInt,
    Int,
    UnsignedInt,
    LongInt,
    Float,
    Double,
    SizeT,
    Int8T,
    Int16T,
    Int32T,
    Int64T,
    UInt8T,
    UInt16T,
    UInt32T,
    UInt64T,
}

/// One identifier token of the header grammar.
#[derive(Debug, Clone, PartialEq, Eq)]
pub struct GKeyword(pub String);

impl View for GKeyword {
    type V = Seq<char>;

    open spec fn view(&self) -> Seq<char> {
        self.0@
    }
}

/// A struct name as referenced by a type.
#[derive(Debug, Clone, PartialEq, Eq)]
pub struct GStructName(pub GKeyword);

impl View for GStructName {
    type V = Seq<char>;

    open spec fn view(&self) -> Seq<char> {
        self.0@
    }
}

/// An enum name as referenced by a type.
#[derive(Debug, Clone, PartialEq, Eq)]
pub struct GEnumName(pub GKeyword);

impl View for GEnumName {
    type V = Seq<char>;

    open spec fn view(&self) -> Seq<char> {
        self.0@
    }
}

/// The category of a type: a scalar, a struct or enum reference, a
/// pointer to another category, or an unrecognized keyword.
#[derive(Debug)]
pub enum GTypeCategory {
    Scalar(GPrimitive),
    Struct(GStructName),
    Enum(GEnumName),
    Pointer(Box<GTypeCategory>),
    Unrecognized(GKeyword),
}

/// Mathematical mirror of [`GTypeCategory`].
pub enum GTypeCategoryV {
    Scalar(GPrimitive),
    Struct(Seq<char>),
    Enum(Seq<char>),
    Pointer(Box<GTypeCategoryV>),
    Unrecognized(Seq<char>),
}

/// View of a type category, unfolded through pointers.
pub open spec fn cat_view(c: GTypeCategory) -> GTypeCategoryV
    decreases c,
{
    match c {
        GTypeCategory::Scalar(p) => GTypeCategoryV::Scalar(p),
        GTypeCategory::Struct(s) => GTypeCategoryV::Struct(s@),
        GTypeCategory::Enum(e) => GTypeCategoryV::Enum(e@),
        GTypeCategory::Pointer(inner) => GTypeCategoryV::Pointer(Box::new(cat_view(*inner))),
        GTypeCategory::Unrecognized(k) => GTypeCategoryV::Unrecognized(k@),
    }
}

/// A type with its mutability qualifier.
#[derive(Debug)]
pub enum GType {
    Mutable(GTypeCategory),
    Const(GTypeCategory),
}

/// The recognized marker vocabulary. The enum-export marker carries the
/// backing integer type of the enum it tags.
#[derive(Debug)]
pub enum GMarker {
    Nullable,
    NonNull,
    TwExportStruct,
    TwExportClass,
    TwExportEnum(GType),
    TwExportMethod,
    TwExportStaticMethod,
    TwExportProperty,
    TwExportStaticProperty,
}

/// The ordered markers attached to one declaration or type.
#[derive(Debug)]
pub struct GMarkers(pub Vec<GMarker>);

/// A typedef declaration.
#[derive(Debug)]
pub struct GTypedef {
    pub name: String,
    pub ty: GType,
}

/// A struct forward declaration carrying only markers.
#[derive(Debug)]
pub struct GStructInd {
    pub name: GStructName,
    pub markers: GMarkers,
}

/// A struct declaration with its ordered fields.
#[derive(Debug)]
pub struct GStructDecl {
    pub name: GStructName,
    pub fields: Vec<(GKeyword, GType)>,
    pub markers: GMarkers,
}

/// An enum declaration: each variant carries an optional explicit value.
#[derive(Debug)]
pub struct GEnumDecl {
    pub name: GKeyword,
    pub variants: Vec<(GKeyword, Option<usize>)>,
    pub markers: GMarkers,
}

/// One function parameter of a declaration.
#[derive(Debug)]
pub struct GParamItem {
    pub name: GKeyword,
    pub ty: GType,
    pub markers: GMarkers,
}

/// The return value of a declaration with its own markers.
#[derive(Debug)]
pub struct GReturnValue {
    pub ty: GType,
    pub markers: GMarkers,
}

/// A function declaration.
#[derive(Debug)]
pub struct GFunctionDecl {
    pub name: GKeyword,
    pub params: Vec<GParamItem>,
    pub return_value: GReturnValue,
    pub markers: GMarkers,
}

/// An include line's path.
#[derive(Debug, Clone, PartialEq, Eq)]
pub struct GHeaderInclude(pub String);

/// One top-level item of a parsed header.
#[derive(Debug)]
pub enum GHeaderFileItem {
    Typedef(GTypedef),
    StructIndicator(GStructInd),
    StructDecl(GStructDecl),
    EnumDecl(GEnumDecl),
    FunctionDecl(GFunctionDecl),
    HeaderInclude(GHeaderInclude),
    Comment(String),
    Unrecognized(String),
}

/// The parsed contents of a header directory: one entry per header file,
/// in order, each holding the file's name (with its `.h` suffix) and its
/// ordered items.
#[derive(Debug)]
pub struct CHeaderDirectory {
    pub map: Vec<(String, Vec<GHeaderFileItem>)>,
}

} // verus!
