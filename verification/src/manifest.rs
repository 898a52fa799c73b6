//! The manifest extractor: raw header items become a semantically
//! categorized manifest of structs, enums, constructors, destructors,
//! properties, plain methods, protobuf bridge types and imports, ready
//! for code generation.

use vstd::prelude::*;

use crate::camel::{lower_camel, lower_camel_of, coin_fix, spec_coin_fix};
use crate::grammar::{GPrimitive, GKeyword, GTypeCategory, GTypeCategoryV, GType, GMarker, GMarkers,
    GTypedef, GStructInd, GStructDecl, GEnumDecl, GParamItem, GReturnValue, GFunctionDecl,
    GHeaderInclude, GHeaderFileItem, CHeaderDirectory, cat_view};
use crate::strutil::{str_eq, contains_str, contains_seq, starts_with_str, starts_with_seq,
    find_char_from, find_char_str, lemma_find_char_props};

verus! {

/// Errors of the manifest extraction.
#[derive(Debug, Clone, Copy, PartialEq, Eq, Structural)]
pub enum Error {
    BadType,
    BadImport,
    BadObject,
    BadProperty,
}

/// The semantic type of a field, parameter or return value.
#[derive(Debug, Clone, PartialEq, Eq)]
pub enum TypeVariant {
    Void,
    Bool,
    Char,
    ShortInt,
    Int,
    UnsignedInt,
    LongInt,
    Float,
    Double,
    SizeT,
    Int8T,
    Int16T,
    Int32T,
    Int64T,
    UInt8T,
    UInt16T,
    UInt32T,
    UInt64T,
    Struct(String),
    Enum(String),
    Data,
    StringHandle,
}

/// Mathematical mirror of [`TypeVariant`].
pub enum TypeVariantV {
    Void,
    Bool,
    Char,
    ShortInt,
    Int,
    UnsignedInt,
    LongInt,
    Float,
    Double,
    SizeT,
    Int8T,
    Int16T,
    Int32T,
    Int64T,
    UInt8T,
    UInt16T,
    UInt32T,
    UInt64T,
    Struct(Seq<char>),
    Enum(Seq<char>),
    Data,
    StringHandle,
}

impl View for TypeVariant {
    type V = TypeVariantV;

    open spec fn view(&self) -> TypeVariantV {
        match self {
            TypeVariant::Void => TypeVariantV::Void,
            TypeVariant::Bool => TypeVariantV::Bool,
            TypeVariant::Char => TypeVariantV::Char,
            TypeVariant::ShortInt => TypeVariantV::ShortInt,
            TypeVariant::Int => TypeVariantV::Int,
            TypeVariant::UnsignedInt => TypeVariantV::UnsignedInt,
            TypeVariant::LongInt => TypeVariantV::LongInt,
            TypeVariant::Float => TypeVariantV::Float,
            TypeVariant::Double => TypeVariantV::Double,
            TypeVariant::SizeT => TypeVariantV::SizeT,
            TypeVariant::Int8T => TypeVariantV::Int8T,
            TypeVariant::Int16T => TypeVariantV::Int16T,
            TypeVariant::Int32T => TypeVariantV::Int32T,
            TypeVariant::Int64T => TypeVariantV::Int64T,
            TypeVariant::UInt8T => TypeVariantV::UInt8T,
            TypeVariant::UInt16T => TypeVariantV::UInt16T,
            TypeVariant::UInt32T => TypeVariantV::UInt32T,
            TypeVariant::UInt64T => TypeVariantV::UInt64T,
            TypeVariant::Struct(s) => TypeVariantV::Struct(s@),
            TypeVariant::Enum(s) => TypeVariantV::Enum(s@),
            TypeVariant::Data => TypeVariantV::Data,
            TypeVariant::StringHandle => TypeVariantV::StringHandle,
        }
    }
}

/// A resolved type together with its nullability.
#[derive(Debug, Clone, PartialEq, Eq)]
pub struct TypeInfo {
    pub variant: TypeVariant,
    pub is_nullable: bool,
}

/// Mathematical mirror of [`TypeInfo`].
pub struct TypeInfoV {
    pub variant: TypeVariantV,
    pub is_nullable: bool,
}

impl View for TypeInfo {
    type V = TypeInfoV;

    open spec fn view(&self) -> TypeInfoV {
        TypeInfoV { variant: self.variant@, is_nullable: self.is_nullable }
    }
}

/// Maps a scalar of the header grammar to its semantic variant.
pub open spec fn spec_scalar_variant(p: GPrimitive) -> TypeVariantV {
    match p {
        GPrimitive::Void => TypeVariantV::Void,
        GPrimitive::Bool => TypeVariantV::Bool,
        GPrimitive::Char => TypeVariantV::Char,
        GPrimitive::ShortInt => TypeVariantV::ShortInt,
        GPrimitive::Int => TypeVariantV::Int,
        GPrimitive::UnsignedInt => TypeVariantV::UnsignedInt,
        GPrimitive::LongInt => TypeVariantV::LongInt,
        GPrimitive::Float => TypeVariantV::Float,
        GPrimitive::Double => TypeVariantV::Double,
        GPrimitive::SizeT => TypeVariantV::SizeT,
        GPrimitive::Int8T => TypeVariantV::Int8T,
        GPrimitive::Int16T => TypeVariantV::Int16T,
        GPrimitive::Int32T => TypeVariantV::Int32T,
        GPrimitive::Int64T => TypeVariantV::Int64T,
        GPrimitive::UInt8T => TypeVariantV::UInt8T,
        GPrimitive::UInt16T => TypeVariantV::UInt16T,
        GPrimitive::UInt32T => TypeVariantV::UInt32T,
        GPrimitive::UInt64T => TypeVariantV::UInt64T,
    }
}

/// The variant of a non-pointer category: a scalar, a struct reference
/// or an enum reference; pointers and unrecognized keywords have none.
pub open spec fn spec_base_variant(c: GTypeCategoryV) -> Option<TypeVariantV> {
    match c {
        GTypeCategoryV::Scalar(p) => Some(spec_scalar_variant(p)),
        GTypeCategoryV::Struct(n) => Some(TypeVariantV::Struct(n)),
        GTypeCategoryV::Enum(n) => Some(TypeVariantV::Enum(n)),
        GTypeCategoryV::Pointer(_) => None,
        GTypeCategoryV::Unrecognized(_) => None,
    }
}

/// The variant of a category with one pointer level allowed: a pointer
/// to a struct or enum reference resolves to that reference; any other
/// pointer is rejected.
pub open spec fn spec_variant(c: GTypeCategoryV) -> Option<TypeVariantV> {
    match c {
        GTypeCategoryV::Pointer(inner) => match *inner {
            GTypeCategoryV::Struct(n) => Some(TypeVariantV::Struct(n)),
            GTypeCategoryV::Enum(n) => Some(TypeVariantV::Enum(n)),
            _ => None,
        },
        _ => spec_base_variant(c),
    }
}

/// Whether a nullable marker stands among the markers.
pub open spec fn spec_nullable(ms: GMarkers) -> bool {
    exists|i: int| 0 <= i < ms.0@.len() && ms.0@[i] is Nullable
}

/// The category under a type's mutability qualifier.
pub open spec fn spec_type_cat(t: GType) -> GTypeCategoryV {
    match t {
        GType::Mutable(c) => cat_view(c),
        GType::Const(c) => cat_view(c),
    }
}

/// Whether the category is a pointer to the named opaque keyword.
pub open spec fn spec_is_opaque_ptr(c: GTypeCategoryV, name: Seq<char>) -> bool {
    match c {
        GTypeCategoryV::Pointer(inner) => match *inner {
            GTypeCategoryV::Unrecognized(k) => k == name,
            _ => false,
        },
        _ => false,
    }
}

/// The resolved type of a field, parameter or return value: pointers to
/// the opaque `TWData` and `TWString` keywords become the dedicated
/// handle variants; otherwise the category resolves as [`spec_variant`]
/// or the type is rejected. Nullability comes from the markers alone.
pub open spec fn spec_type_info(t: GType, ms: GMarkers) -> Option<TypeInfoV> {
    match spec_type_variant(t) {
        Some(v) => Some(TypeInfoV { variant: v, is_nullable: spec_nullable(ms) }),
        None => None,
    }
}

/// Whether any marker of the list is the nullable marker.
fn has_nullable(markers: &GMarkers) -> (b: bool)
    ensures
        b == spec_nullable(*markers),
{
    let n = markers.0.len();
    let mut i: usize = 0;
    while i < n
        invariant
            0 <= i <= n,
            n == markers.0@.len(),
            forall|j: int| 0 <= j < i ==> !(markers.0@[j] is Nullable),
        decreases n - i,
    {
        let found = match &markers.0[i] {
            GMarker::Nullable => true,
            _ => false,
        };
        if found {
            return true;
        }
        i = i + 1;
    }
    false
}

/// Resolves a non-pointer category.
fn base_variant(cat: &GTypeCategory) -> (r: Result<TypeVariant, Error>)
    ensures
        r matches Ok(v) ==> spec_base_variant(cat_view(*cat)) == Some(v@),
        r matches Err(e) ==> spec_base_variant(cat_view(*cat)) is None && e == Error::BadType,
{
    match cat {
        GTypeCategory::Scalar(p) => Ok(scalar_variant(*p)),
        GTypeCategory::Struct(s) => Ok(TypeVariant::Struct(s.0.0.clone())),
        GTypeCategory::Enum(e) => Ok(TypeVariant::Enum(e.0.0.clone())),
        GTypeCategory::Pointer(_) => Err(Error::BadType),
        GTypeCategory::Unrecognized(_) => Err(Error::BadType),
    }
}

/// Maps a scalar to its semantic variant.
fn scalar_variant(p: GPrimitive) -> (v: TypeVariant)
    ensures
        v@ == spec_scalar_variant(p),
{
    match p {
        GPrimitive::Void => TypeVariant::Void,
        GPrimitive::Bool => TypeVariant::Bool,
        GPrimitive::Char => TypeVariant::Char,
        GPrimitive::ShortInt => TypeVariant::ShortInt,
        GPrimitive::Int => TypeVariant::Int,
        GPrimitive::UnsignedInt => TypeVariant::UnsignedInt,
        GPrimitive::LongInt => TypeVariant::LongInt,
        GPrimitive::Float => TypeVariant::Float,
        GPrimitive::Double => TypeVariant::Double,
        GPrimitive::SizeT => TypeVariant::SizeT,
        GPrimitive::Int8T => TypeVariant::Int8T,
        GPrimitive::Int16T => TypeVariant::Int16T,
        GPrimitive::Int32T => TypeVariant::Int32T,
        GPrimitive::Int64T => TypeVariant::Int64T,
        GPrimitive::UInt8T => TypeVariant::UInt8T,
        GPrimitive::UInt16T => TypeVariant::UInt16T,
        GPrimitive::UInt32T => TypeVariant::UInt32T,
        GPrimitive::UInt64T => TypeVariant::UInt64T,
    }
}

/// The variant a type resolves to, apart from nullability.
pub open spec fn spec_type_variant(t: GType) -> Option<TypeVariantV> {
    let c = spec_type_cat(t);
    if spec_is_opaque_ptr(c, "TWData"@) {
        Some(TypeVariantV::Data)
    } else if spec_is_opaque_ptr(c, "TWString"@) {
        Some(TypeVariantV::StringHandle)
    } else {
        spec_variant(c)
    }
}

impl TypeInfo {
    /// Resolves one type with the markers that qualify it.
    pub fn from_g_type(ty: &GType, markers: &GMarkers) -> (r: Result<TypeInfo, Error>)
        ensures
            r matches Ok(ti) ==> spec_type_info(*ty, *markers) == Some(ti@),
            r matches Err(e) ==> spec_type_info(*ty, *markers) is None && e == Error::BadType,
    {
        let is_nullable = has_nullable(markers);
        let cat = match ty {
            GType::Mutable(c) => c,
            GType::Const(c) => c,
        };
        match cat {
            GTypeCategory::Pointer(inner) => {
                proof {
                    assert(spec_type_cat(*ty) == cat_view(*cat));
                    assert(cat_view(*cat) == GTypeCategoryV::Pointer(
                        Box::new(cat_view(*(cat->Pointer_0))),
                    ));
                }
                match &**inner {
                    GTypeCategory::Unrecognized(kw) => {
                        proof {
                            assert(cat_view(**inner) == GTypeCategoryV::Unrecognized(kw.0@));
                            assert(spec_is_opaque_ptr(spec_type_cat(*ty), kw.0@));
                        }
                        if str_eq(kw.0.as_str(), "TWData") {
                            Ok(TypeInfo { variant: TypeVariant::Data, is_nullable })
                        } else if str_eq(kw.0.as_str(), "TWString") {
                            Ok(TypeInfo { variant: TypeVariant::StringHandle, is_nullable })
                        } else {
                            Err(Error::BadType)
                        }
                    },
                    GTypeCategory::Struct(s) => Ok(
                        TypeInfo { variant: TypeVariant::Struct(s.0.0.clone()), is_nullable },
                    ),
                    GTypeCategory::Enum(e) => Ok(
                        TypeInfo { variant: TypeVariant::Enum(e.0.0.clone()), is_nullable },
                    ),
                    _ => Err(Error::BadType),
                }
            },
            _ => {
                match base_variant(cat) {
                    Ok(v) => Ok(TypeInfo { variant: v, is_nullable }),
                    Err(e) => Err(e),
                }
            },
        }
    }
}

/// A normalized import path: the slash-separated components, the header
/// suffix stripped from the last.
#[derive(Debug, Clone, PartialEq, Eq)]
pub struct ImportInfo {
    pub path: Vec<String>,
}

impl View for ImportInfo {
    type V = Seq<Seq<char>>;

    open spec fn view(&self) -> Seq<Seq<char>> {
        self.path@.map_values(|s: String| s@)
    }
}

/// The slash-separated components of a path, empty components included.
pub open spec fn spec_split_slash(s: Seq<char>) -> Seq<Seq<char>>
    decreases s.len(),
{
    match find_char_from(s, '/', 0) {
        None => seq![s],
        Some(i) => if i < s.len() {
            seq![s.subrange(0, i as int)] + spec_split_slash(s.skip(i + 1 as int))
        } else {
            seq![s]
        },
    }
}

/// The normalized import path of an include line: its slash-separated
/// components with the `.h` suffix stripped from the last component,
/// rejected when that suffix is missing.
pub open spec fn spec_import_info(s: Seq<char>) -> Option<Seq<Seq<char>>> {
    let parts = spec_split_slash(s);
    let last = parts[parts.len() - 1];
    if last.len() >= 2 && last.subrange(last.len() - 2, last.len() as int) == ".h"@ {
        Some(parts.update(parts.len() - 1, last.subrange(0, last.len() - 2)))
    } else {
        None
    }
}

impl ImportInfo {
    /// Normalizes one include line.
    pub fn from_g_type(value: &GHeaderInclude) -> (r: Result<ImportInfo, Error>)
        ensures
            r matches Ok(im) ==> spec_import_info(value.0@) == Some(im@),
            r matches Err(e) ==> spec_import_info(value.0@) is None && e == Error::BadImport,
    {
        let mut path = split_slash(value.0.as_str());
        let n = path.len();
        proof {
            lemma_split_slash_nonempty(value.0@);
        }
        let last = path[n - 1].clone();
        let ll = last.as_str().unicode_len();
        let has_suffix = if ll >= 2 {
            str_eq(last.as_str().substring_char(ll - 2, ll), ".h")
        } else {
            false
        };
        if !has_suffix {
            proof {
                let parts = spec_split_slash(value.0@);
                assert(parts[parts.len() - 1] == path@.map_values(|s: String| s@)[n - 1]);
            }
            return Err(Error::BadImport);
        }
        let stripped = last.as_str().substring_char(0, ll - 2).to_owned();
        let ghost parts = spec_split_slash(value.0@);
        path.set(n - 1, stripped);
        let im = ImportInfo { path };
        proof {
            let lastv = parts[parts.len() - 1];
            assert(lastv.subrange(lastv.len() - 2, lastv.len() as int) =~= ".h"@);
            assert(im@ =~= parts.update(parts.len() - 1, lastv.subrange(0, lastv.len() - 2)));
        }
        Ok(im)
    }
}

/// The split of a path always has at least one component.
proof fn lemma_split_slash_nonempty(s: Seq<char>)
    ensures
        spec_split_slash(s).len() >= 1,
{
    if find_char_from(s, '/', 0) is Some {
    }
}

/// Splits a path on slashes.
fn split_slash(s: &str) -> (r: Vec<String>)
    ensures
        r@.map_values(|t: String| t@) == spec_split_slash(s@),
    decreases s@.len(),
{
    let n = s.unicode_len();
    match find_char_str(s, '/', 0) {
        None => {
            let mut r: Vec<String> = Vec::new();
            r.push(s.to_owned());
            proof {
                assert(r@.map_values(|t: String| t@) =~= spec_split_slash(s@));
            }
            r
        },
        Some(i) => {
            proof {
                lemma_find_char_props(s@, '/', 0);
            }
            let head = s.substring_char(0, i).to_owned();
            let rest = s.substring_char(i + 1, n);
            proof {
                assert(head@ =~= s@.subrange(0, i as int));
                assert(rest@ =~= s@.skip(i + 1 as int));
            }
            let mut r = split_slash(rest);
            let ghost rest_view = r@;
            r.insert(0, head);
            let ghost lhs = r@.map_values(|t: String| t@);
            let ghost rhs = seq![s@.subrange(0, i as int)] + rest_view.map_values(|t: String| t@);
            proof {
                assert(r@ =~= seq![head] + rest_view);
                assert forall|j: int| 0 <= j < lhs.len() implies lhs[j] == rhs[j] by {
                    if j > 0 {
                        assert(r@[j] == rest_view[j - 1]);
                    }
                }
                assert(lhs =~= rhs);
                assert(spec_split_slash(s@) =~= rhs);
            }
            r
        },
    }
}

/// A typedef that bridges a protobuf-backed parameter type: its name,
/// kept when the underlying type is a pointer to the opaque data handle.
#[derive(Debug, Clone, PartialEq, Eq)]
pub struct ProtoInfo(pub String);

impl View for ProtoInfo {
    type V = Seq<char>;

    open spec fn view(&self) -> Seq<char> {
        self.0@
    }
}

/// Whether a typedef is a protobuf bridge: its underlying type must be
/// a pointer to the opaque data handle.
pub open spec fn spec_proto_info(td: GTypedef) -> Option<Seq<char>> {
    if spec_is_opaque_ptr(spec_type_cat(td.ty), "TWData"@) {
        Some(td.name@)
    } else {
        None
    }
}

impl ProtoInfo {
    /// Accepts a typedef as a protobuf bridge marker.
    pub fn from_g_type(value: &GTypedef) -> (r: Result<ProtoInfo, Error>)
        ensures
            r matches Ok(p) ==> spec_proto_info(*value) == Some(p@),
            r matches Err(e) ==> spec_proto_info(*value) is None && e == Error::BadObject,
    {
        let cat = match &value.ty {
            GType::Mutable(c) => c,
            GType::Const(c) => c,
        };
        let found = match cat {
            GTypeCategory::Pointer(inner) => {
                proof {
                    assert(spec_type_cat(value.ty) == cat_view(*cat));
                    assert(cat_view(*cat) == GTypeCategoryV::Pointer(
                        Box::new(cat_view(*(cat->Pointer_0))),
                    ));
                }
                match &**inner {
                    GTypeCategory::Unrecognized(kw) => {
                        proof {
                            assert(cat_view(**inner) == GTypeCategoryV::Unrecognized(kw.0@));
                        }
                        str_eq(kw.0.as_str(), "TWData")
                    },
                    _ => false,
                }
            },
            _ => false,
        };
        if found {
            Ok(ProtoInfo(value.name.clone()))
        } else {
            Err(Error::BadObject)
        }
    }
}

/// One extracted struct: its name, visibility, class flag, ordered
/// fields and comments.
#[derive(Debug, Clone, PartialEq, Eq)]
pub struct StructInfo {
    pub name: String,
    pub is_public: bool,
    pub is_class: bool,
    pub fields: Vec<(String, TypeInfo)>,
    pub comments: Vec<String>,
}

/// Mathematical mirror of [`StructInfo`].
pub struct StructInfoV {
    pub name: Seq<char>,
    pub is_public: bool,
    pub is_class: bool,
    pub fields: Seq<(Seq<char>, TypeInfoV)>,
    pub comments: Seq<Seq<char>>,
}

impl View for StructInfo {
    type V = StructInfoV;

    open spec fn view(&self) -> StructInfoV {
        StructInfoV {
            name: self.name@,
            is_public: self.is_public,
            is_class: self.is_class,
            fields: self.fields@.map_values(|f: (String, TypeInfo)| (f.0@, f.1@)),
            comments: self.comments@.map_values(|c: String| c@),
        }
    }
}

/// One enum variant of the manifest: the normalized name, the assigned
/// value, and an optional string representation.
#[derive(Debug, Clone, PartialEq, Eq)]
pub struct EnumVariantInfo {
    pub name: String,
    pub value: usize,
    pub as_string: Option<String>,
}

/// Mathematical mirror of [`EnumVariantInfo`].
pub struct EnumVariantInfoV {
    pub name: Seq<char>,
    pub value: nat,
    pub as_string: Option<Seq<char>>,
}

impl View for EnumVariantInfo {
    type V = EnumVariantInfoV;

    open spec fn view(&self) -> EnumVariantInfoV {
        EnumVariantInfoV {
            name: self.name@,
            value: self.value as nat,
            as_string: match &self.as_string {
                Some(s) => Some(s@),
                None => None,
            },
        }
    }
}

/// One extracted enum: its name, backing type and ordered variants.
#[derive(Debug, Clone, PartialEq, Eq)]
pub struct EnumInfo {
    pub name: String,
    pub is_public: bool,
    pub value_type: TypeVariant,
    pub variants: Vec<EnumVariantInfo>,
    pub comments: Vec<String>,
}

/// Mathematical mirror of [`EnumInfo`].
pub struct EnumInfoV {
    pub name: Seq<char>,
    pub is_public: bool,
    pub value_type: TypeVariantV,
    pub variants: Seq<EnumVariantInfoV>,
    pub comments: Seq<Seq<char>>,
}

impl View for EnumInfo {
    type V = EnumInfoV;

    open spec fn view(&self) -> EnumInfoV {
        EnumInfoV {
            name: self.name@,
            is_public: self.is_public,
            value_type: self.value_type@,
            variants: self.variants@.map_values(|v: EnumVariantInfo| v@),
            comments: self.comments@.map_values(|c: String| c@),
        }
    }
}

/// One extracted property.
#[derive(Debug, Clone, PartialEq, Eq)]
pub struct PropertyInfo {
    pub name: String,
    pub is_public: bool,
    pub return_type: TypeInfo,
    pub comments: Vec<String>,
}

/// Mathematical mirror of [`PropertyInfo`].
pub struct PropertyInfoV {
    pub name: Seq<char>,
    pub is_public: bool,
    pub return_type: TypeInfoV,
    pub comments: Seq<Seq<char>>,
}

impl View for PropertyInfo {
    type V = PropertyInfoV;

    open spec fn view(&self) -> PropertyInfoV {
        PropertyInfoV {
            name: self.name@,
            is_public: self.is_public,
            return_type: self.return_type@,
            comments: self.comments@.map_values(|c: String| c@),
        }
    }
}

/// One resolved parameter of a method or constructor.
#[derive(Debug, Clone, PartialEq, Eq)]
pub struct ParamInfo {
    pub name: String,
    pub ty: TypeInfo,
}

/// Mathematical mirror of [`ParamInfo`].
pub struct ParamInfoV {
    pub name: Seq<char>,
    pub ty: TypeInfoV,
}

impl View for ParamInfo {
    type V = ParamInfoV;

    open spec fn view(&self) -> ParamInfoV {
        ParamInfoV { name: self.name@, ty: self.ty@ }
    }
}

/// One extracted constructor.
#[derive(Debug, Clone, PartialEq, Eq)]
pub struct InitInfo {
    pub name: String,
    pub is_public: bool,
    pub is_nullable: bool,
    pub params: Vec<ParamInfo>,
    pub comments: Vec<String>,
}

/// Mathematical mirror of [`InitInfo`].
pub struct InitInfoV {
    pub name: Seq<char>,
    pub is_public: bool,
    pub is_nullable: bool,
    pub params: Seq<ParamInfoV>,
    pub comments: Seq<Seq<char>>,
}

impl View for InitInfo {
    type V = InitInfoV;

    open spec fn view(&self) -> InitInfoV {
        InitInfoV {
            name: self.name@,
            is_public: self.is_public,
            is_nullable: self.is_nullable,
            params: self.params@.map_values(|p: ParamInfo| p@),
            comments: self.comments@.map_values(|c: String| c@),
        }
    }
}

/// One extracted destructor.
#[derive(Debug, Clone, PartialEq, Eq)]
pub struct DeinitInfo {
    pub name: String,
    pub comments: Vec<String>,
}

/// Mathematical mirror of [`DeinitInfo`].
pub struct DeinitInfoV {
    pub name: Seq<char>,
    pub comments: Seq<Seq<char>>,
}

impl View for DeinitInfo {
    type V = DeinitInfoV;

    open spec fn view(&self) -> DeinitInfoV {
        DeinitInfoV { name: self.name@, comments: self.comments@.map_values(|c: String| c@) }
    }
}

/// One extracted plain method.
#[derive(Debug, Clone, PartialEq, Eq)]
pub struct FunctionInfo {
    pub name: String,
    pub is_public: bool,
    pub is_static: bool,
    pub params: Vec<ParamInfo>,
    pub return_type: TypeInfo,
    pub comments: Vec<String>,
}

/// Mathematical mirror of [`FunctionInfo`].
pub struct FunctionInfoV {
    pub name: Seq<char>,
    pub is_public: bool,
    pub is_static: bool,
    pub params: Seq<ParamInfoV>,
    pub return_type: TypeInfoV,
    pub comments: Seq<Seq<char>>,
}

impl View for FunctionInfo {
    type V = FunctionInfoV;

    open spec fn view(&self) -> FunctionInfoV {
        FunctionInfoV {
            name: self.name@,
            is_public: self.is_public,
            is_static: self.is_static,
            params: self.params@.map_values(|p: ParamInfo| p@),
            return_type: self.return_type@,
            comments: self.comments@.map_values(|c: String| c@),
        }
    }
}

/// The flags a struct takes from its first marker: none means private,
/// the struct-export marker means public, the class-export marker means
/// a public class; any other first marker is rejected.
pub open spec fn spec_struct_flags(ms: GMarkers) -> Option<(bool, bool)> {
    if ms.0@.len() == 0 {
        Some((false, false))
    } else {
        match ms.0@[0] {
            GMarker::TwExportStruct => Some((true, false)),
            GMarker::TwExportClass => Some((true, true)),
            _ => None,
        }
    }
}

/// The resolved fields of a struct, in order; struct fields carry no
/// markers of their own.
pub open spec fn spec_struct_fields(fs: Seq<(GKeyword, GType)>) -> Option<
    Seq<(Seq<char>, TypeInfoV)>,
>
    decreases fs.len(),
{
    if fs.len() == 0 {
        Some(Seq::empty())
    } else {
        match spec_type_variant(fs[0].1) {
            Some(v) => match spec_struct_fields(fs.skip(1)) {
                Some(rest) => Some(
                    seq![(fs[0].0.0@, TypeInfoV { variant: v, is_nullable: false })] + rest,
                ),
                None => None,
            },
            None => None,
        }
    }
}

/// A struct declaration's manifest entry.
pub open spec fn spec_struct_info(d: GStructDecl) -> Option<StructInfoV> {
    match spec_struct_flags(d.markers) {
        Some(flags) => match spec_struct_fields(d.fields@) {
            Some(fields) => Some(
                StructInfoV {
                    name: d.name.0.0@,
                    is_public: flags.0,
                    is_class: flags.1,
                    fields,
                    comments: Seq::empty(),
                },
            ),
            None => None,
        },
        None => None,
    }
}

/// Reads the visibility flags off a struct's first marker.
fn struct_flags(ms: &GMarkers) -> (r: Option<(bool, bool)>)
    ensures
        r == spec_struct_flags(*ms),
{
    if ms.0.len() == 0 {
        Some((false, false))
    } else {
        let m = &ms.0[0];
        proof {
            assert(*m == ms.0@[0]);
        }
        match m {
            GMarker::TwExportStruct => Some((true, false)),
            GMarker::TwExportClass => Some((true, true)),
            _ => None,
        }
    }
}

/// The error a rejected struct declaration reports: a bad marker before
/// a bad field type.
pub open spec fn spec_struct_err(d: GStructDecl) -> Error {
    if spec_struct_flags(d.markers) is None {
        Error::BadObject
    } else {
        Error::BadType
    }
}

impl StructInfo {
    /// Extracts a struct declaration.
    pub fn from_g_type(value: &GStructDecl) -> (r: Result<StructInfo, Error>)
        ensures
            r matches Ok(si) ==> spec_struct_info(*value) == Some(si@),
            r matches Err(e) ==> spec_struct_info(*value) is None && e == spec_struct_err(*value),
    {
        let flags = match struct_flags(&value.markers) {
            Some(f) => f,
            None => {
                return Err(Error::BadObject);
            },
        };
        let n = value.fields.len();
        let mut fields: Vec<(String, TypeInfo)> = Vec::new();
        let empty_markers = GMarkers(Vec::new());
        proof {
            assert(value.fields@.skip(0) =~= value.fields@);
            assert(fields@.map_values(|f: (String, TypeInfo)| (f.0@, f.1@)) =~= Seq::<
                (Seq<char>, TypeInfoV),
            >::empty());
            assert(spec_struct_fields(value.fields@) matches Some(rest) ==> (Seq::<
                (Seq<char>, TypeInfoV),
            >::empty() + rest =~= rest));
        }
        let mut i: usize = 0;
        while i < n
            invariant
                0 <= i <= n,
                n == value.fields@.len(),
                empty_markers.0@.len() == 0,
                spec_struct_flags(value.markers) == Some(flags),
                spec_struct_fields(value.fields@) == (match spec_struct_fields(
                    value.fields@.skip(i as int),
                ) {
                    Some(rest) => Some(
                        fields@.map_values(|f: (String, TypeInfo)| (f.0@, f.1@)) + rest,
                    ),
                    None => None::<Seq<(Seq<char>, TypeInfoV)>>,
                }),
            decreases n - i,
        {
            let ghost pre = value.fields@.skip(i as int);
            proof {
                assert(pre[0] == value.fields@[i as int]);
                assert(pre.skip(1) =~= value.fields@.skip(i + 1));
            }
            let ti = match TypeInfo::from_g_type(&value.fields[i].1, &empty_markers) {
                Ok(ti) => ti,
                Err(_) => {
                    proof {
                        assert(!spec_nullable(empty_markers));
                        assert(spec_type_variant(value.fields@[i as int].1) is None);
                        assert(spec_struct_fields(pre) is None);
                        assert(spec_struct_fields(value.fields@) is None);
                        assert(spec_struct_flags(value.markers) is Some);
                    }
                    return Err(Error::BadType);
                },
            };
            proof {
                assert(ti@.is_nullable == spec_nullable(empty_markers));
                assert(!spec_nullable(empty_markers));
            }
            let name_i = value.fields[i].0.0.clone();
            let ghost before = fields@;
            fields.push((name_i, ti));
            proof {
                let mv = |f: (String, TypeInfo)| (f.0@, f.1@);
                before.lemma_push_map_commute(mv, (name_i, ti));
                assert(fields@.map_values(mv) =~= before.map_values(mv) + seq![
                    (value.fields@[i as int].0.0@, ti@),
                ]);
                assert(spec_struct_fields(pre) == (match spec_struct_fields(pre.skip(1)) {
                    Some(rest) => Some(seq![(value.fields@[i as int].0.0@, ti@)] + rest),
                    None => None::<Seq<(Seq<char>, TypeInfoV)>>,
                }));
                assert forall|rest: Seq<(Seq<char>, TypeInfoV)>| true implies (before.map_values(mv)
                    + (seq![(value.fields@[i as int].0.0@, ti@)] + rest)) =~= (fields@.map_values(
                    mv,
                ) + rest) by {}
            }
            i = i + 1;
        }
        proof {
            assert(value.fields@.skip(n as int) =~= Seq::<(GKeyword, GType)>::empty());
            assert(spec_struct_fields(Seq::<(GKeyword, GType)>::empty()) == Some(
                Seq::<(Seq<char>, TypeInfoV)>::empty(),
            ));
        }
        let si = StructInfo {
            name: value.name.0.0.clone(),
            is_public: flags.0,
            is_class: flags.1,
            fields,
            comments: Vec::new(),
        };
        proof {
            assert(si@.fields =~= si.fields@.map_values(|f: (String, TypeInfo)| (f.0@, f.1@))
                + Seq::<(Seq<char>, TypeInfoV)>::empty());
            assert(si@.comments =~= Seq::<Seq<char>>::empty());
        }
        Ok(si)
    }
}

/// The bespoke manifest entry of the Stellar passphrase enum: its two
/// variants carry the network passphrases as string representations.
pub open spec fn spec_custom_stellar() -> EnumInfoV {
    EnumInfoV {
        name: "TWStellarPassphrase"@,
        is_public: true,
        value_type: TypeVariantV::UInt32T,
        variants: seq![
            EnumVariantInfoV {
                name: "stellar"@,
                value: 0,
                as_string: Some("Public Global Stellar Network ; September 2015"@),
            },
            EnumVariantInfoV {
                name: "kin"@,
                value: 1,
                as_string: Some("Kin Mainnet ; December 2018"@),
            },
        ],
        comments: Seq::empty(),
    }
}

/// Builds one enum variant entry.
fn mk_variant(name: &str, value: usize, rep: Option<&str>) -> (v: EnumVariantInfo)
    ensures
        v@.name == name@,
        v@.value == value,
        rep matches Some(s) ==> v@.as_string == Some(s@),
        rep is None ==> v@.as_string is None,
{
    let as_string = match rep {
        Some(s) => Some(s.to_owned()),
        None => None,
    };
    EnumVariantInfo { name: name.to_owned(), value, as_string }
}

/// Hand-authored manifest entry for the Stellar passphrase enum; a
/// documented named exception to generic extraction.
pub fn custom_handle_stellar_passphrase() -> (e: EnumInfo)
    ensures
        e@ == spec_custom_stellar(),
{
    let variants = vec![
        mk_variant("stellar", 0, Some("Public Global Stellar Network ; September 2015")),
        mk_variant("kin", 1, Some("Kin Mainnet ; December 2018")),
    ];
    let e = EnumInfo {
        name: String::from_str("TWStellarPassphrase"),
        is_public: true,
        value_type: TypeVariant::UInt32T,
        variants,
        comments: Vec::new(),
    };
    proof {
        assert(e@.variants =~= spec_custom_stellar().variants);
        assert(e@.comments =~= Seq::<Seq<char>>::empty());
    }
    e
}

/// The bespoke manifest entry of the human-readable-part enum: a
/// hand-maintained table of chains and their address prefixes.
pub open spec fn spec_custom_hrp() -> EnumInfoV {
    EnumInfoV {
        name: "TWHRP"@,
        is_public: true,
        value_type: TypeVariantV::UInt32T,
        variants: seq![
            EnumVariantInfoV { name: "unknown"@, value: 0, as_string: None },
            EnumVariantInfoV { name: "bitcoin"@, value: 1, as_string: Some("bc"@) },
            EnumVariantInfoV { name: "litecoin"@, value: 2, as_string: Some("ltc"@) },
            EnumVariantInfoV { name: "viacoin"@, value: 3, as_string: Some("via"@) },
            EnumVariantInfoV { name: "groestlcoin"@, value: 4, as_string: Some("grs"@) },
            EnumVariantInfoV { name: "digiByte"@, value: 5, as_string: Some("dgb"@) },
            EnumVariantInfoV { name: "monacoin"@, value: 6, as_string: Some("mona"@) },
            EnumVariantInfoV { name: "cosmos"@, value: 7, as_string: Some("cosmos"@) },
            EnumVariantInfoV { name: "bitcoinCash"@, value: 8, as_string: Some("bitcoincash"@) },
            EnumVariantInfoV { name: "bitcoinGold"@, value: 9, as_string: Some("btg"@) },
            EnumVariantInfoV { name: "ioTeX"@, value: 10, as_string: Some("io"@) },
            EnumVariantInfoV { name: "zilliqa"@, value: 11, as_string: Some("zil"@) },
            EnumVariantInfoV { name: "terra"@, value: 12, as_string: Some("terra"@) },
            EnumVariantInfoV { name: "kava"@, value: 13, as_string: Some("kava"@) },
            EnumVariantInfoV { name: "qtum"@, value: 14, as_string: Some("qc"@) },
            EnumVariantInfoV { name: "binance"@, value: 15, as_string: Some("bnb"@) },
            EnumVariantInfoV { name: "harmony"@, value: 16, as_string: Some("one"@) },
            EnumVariantInfoV { name: "cardano"@, value: 17, as_string: Some("addr"@) },
            EnumVariantInfoV { name: "elrond"@, value: 18, as_string: Some("erd"@) },
            EnumVariantInfoV { name: "ecash"@, value: 19, as_string: Some("ecash"@) },
            EnumVariantInfoV { name: "thorchain"@, value: 20, as_string: Some("thor"@) },
            EnumVariantInfoV { name: "osmosis"@, value: 21, as_string: Some("osmo"@) },
        ],
        comments: Seq::empty(),
    }
}

/// Hand-authored manifest entry for the human-readable-part enum; a
/// documented named exception to generic extraction.
pub fn custom_handle_hrp() -> (e: EnumInfo)
    ensures
        e@ == spec_custom_hrp(),
{
    let variants = vec![
        mk_variant("unknown", 0, None),
        mk_variant("bitcoin", 1, Some("bc")),
        mk_variant("litecoin", 2, Some("ltc")),
        mk_variant("viacoin", 3, Some("via")),
        mk_variant("groestlcoin", 4, Some("grs")),
        mk_variant("digiByte", 5, Some("dgb")),
        mk_variant("monacoin", 6, Some("mona")),
        mk_variant("cosmos", 7, Some("cosmos")),
        mk_variant("bitcoinCash", 8, Some("bitcoincash")),
        mk_variant("bitcoinGold", 9, Some("btg")),
        mk_variant("ioTeX", 10, Some("io")),
        mk_variant("zilliqa", 11, Some("zil")),
        mk_variant("terra", 12, Some("terra")),
        mk_variant("kava", 13, Some("kava")),
        mk_variant("qtum", 14, Some("qc")),
        mk_variant("binance", 15, Some("bnb")),
        mk_variant("harmony", 16, Some("one")),
        mk_variant("cardano", 17, Some("addr")),
        mk_variant("elrond", 18, Some("erd")),
        mk_variant("ecash", 19, Some("ecash")),
        mk_variant("thorchain", 20, Some("thor")),
        mk_variant("osmosis", 21, Some("osmo")),
    ];
    let e = EnumInfo {
        name: String::from_str("TWHRP"),
        is_public: true,
        value_type: TypeVariant::UInt32T,
        variants,
        comments: Vec::new(),
    };
    proof {
        assert(e@.variants =~= spec_custom_hrp().variants);
        assert(e@.comments =~= Seq::<Seq<char>>::empty());
    }
    e
}

/// The normalized variants of an enum declaration: each variant name
/// must carry the enum's own name as a prefix; the remainder converts to
/// lower camel case (with the coin-type corrections when `fix` is set),
/// and a variant without an explicit value takes its position.
pub open spec fn spec_enum_variants(
    prefix: Seq<char>,
    fix: bool,
    vars: Seq<(GKeyword, Option<usize>)>,
    idx: nat,
) -> Option<Seq<EnumVariantInfoV>>
    decreases vars.len(),
{
    if vars.len() == 0 {
        Some(Seq::empty())
    } else {
        let k = vars[0].0;
        if starts_with_seq(k.0@, prefix) {
            let nm0 = lower_camel_of(k.0@.skip(prefix.len() as int));
            let nm = if fix {
                spec_coin_fix(nm0)
            } else {
                nm0
            };
            let value: nat = match vars[0].1 {
                Some(x) => x as nat,
                None => idx,
            };
            match spec_enum_variants(prefix, fix, vars.skip(1), (idx + 1) as nat) {
                Some(rest) => Some(
                    seq![EnumVariantInfoV { name: nm, value, as_string: None }] + rest,
                ),
                None => None,
            }
        } else {
            None
        }
    }
}

/// An enum declaration's manifest entry: exactly one marker, which must
/// be the enum-export marker carrying the backing type; the variants
/// normalize as [`spec_enum_variants`]. Enums are always public.
pub open spec fn spec_enum_info(d: GEnumDecl) -> Option<EnumInfoV> {
    if d.markers.0@.len() != 1 {
        None
    } else {
        match d.markers.0@[0] {
            GMarker::TwExportEnum(ty) => match spec_type_variant(ty) {
                Some(vt) => match spec_enum_variants(
                    d.name.0@,
                    d.name.0@ == "TWCoinType"@,
                    d.variants@,
                    0,
                ) {
                    Some(vs) => Some(
                        EnumInfoV {
                            name: d.name.0@,
                            is_public: true,
                            value_type: vt,
                            variants: vs,
                            comments: Seq::empty(),
                        },
                    ),
                    None => None,
                },
                None => None,
            },
            _ => None,
        }
    }
}

/// The error a rejected enum declaration reports.
pub open spec fn spec_enum_err(d: GEnumDecl) -> Error {
    if d.markers.0@.len() != 1 {
        Error::BadObject
    } else {
        match d.markers.0@[0] {
            GMarker::TwExportEnum(ty) => if spec_type_variant(ty) is None {
                Error::BadType
            } else {
                Error::BadObject
            },
            _ => Error::BadObject,
        }
    }
}

impl EnumInfo {
    /// Extracts an enum declaration. The Stellar passphrase and
    /// human-readable-part enums receive their hand-authored entries
    /// instead of generic extraction.
    pub fn from_g_type(value: &GEnumDecl) -> (r: Result<EnumInfo, Error>)
        ensures
            value.name.0@ == "TWStellarPassphrase"@ ==> (r matches Ok(e) && e@
                == spec_custom_stellar()),
            value.name.0@ == "TWHRP"@ ==> (r matches Ok(e) && e@ == spec_custom_hrp()),
            value.name.0@ != "TWStellarPassphrase"@ && value.name.0@ != "TWHRP"@ ==> match r {
                Ok(e) => spec_enum_info(*value) == Some(e@),
                Err(e) => spec_enum_info(*value) is None && e == spec_enum_err(*value),
            },
    {
        proof {
            reveal_strlit("TWStellarPassphrase");
            reveal_strlit("TWHRP");
            assert("TWStellarPassphrase"@.len() != "TWHRP"@.len());
        }
        if str_eq(value.name.0.as_str(), "TWStellarPassphrase") {
            return Ok(custom_handle_stellar_passphrase());
        }
        if str_eq(value.name.0.as_str(), "TWHRP") {
            return Ok(custom_handle_hrp());
        }
        if value.markers.0.len() != 1 {
            return Err(Error::BadObject);
        }
        let m = &value.markers.0[0];
        proof {
            assert(*m == value.markers.0@[0]);
        }
        let ty = match m {
            GMarker::TwExportEnum(ty) => ty,
            _ => {
                return Err(Error::BadObject);
            },
        };
        let empty_markers = GMarkers(Vec::new());
        let value_ty = match TypeInfo::from_g_type(ty, &empty_markers) {
            Ok(ti) => ti.variant,
            Err(_) => {
                return Err(Error::BadType);
            },
        };
        let prefix = value.name.0.as_str();
        let plen = prefix.unicode_len();
        let is_coin = str_eq(prefix, "TWCoinType");
        let n = value.variants.len();
        let mut variants: Vec<EnumVariantInfo> = Vec::new();
        proof {
            assert(value.variants@.skip(0) =~= value.variants@);
            assert(variants@.map_values(|v: EnumVariantInfo| v@) =~= Seq::<
                EnumVariantInfoV,
            >::empty());
            assert(spec_enum_variants(prefix@, is_coin, value.variants@, 0) matches Some(rest)
                ==> (Seq::<EnumVariantInfoV>::empty() + rest =~= rest));
        }
        let mut i: usize = 0;
        while i < n
            invariant
                0 <= i <= n,
                n == value.variants@.len(),
                plen == prefix@.len(),
                prefix@ == value.name.0@,
                is_coin == (value.name.0@ == "TWCoinType"@),
                value.name.0@ != "TWStellarPassphrase"@,
                value.name.0@ != "TWHRP"@,
                value.markers.0@.len() == 1,
                value.markers.0@[0] is TwExportEnum,
                spec_type_variant(value.markers.0@[0]->TwExportEnum_0) == Some(value_ty@),
                spec_enum_variants(prefix@, is_coin, value.variants@, 0) == (match
                    spec_enum_variants(prefix@, is_coin, value.variants@.skip(i as int), i as nat) {
                    Some(rest) => Some(variants@.map_values(|v: EnumVariantInfo| v@) + rest),
                    None => None::<Seq<EnumVariantInfoV>>,
                }),
            decreases n - i,
        {
            let ghost pre = value.variants@.skip(i as int);
            proof {
                assert(pre[0] == value.variants@[i as int]);
                assert(pre.skip(1) =~= value.variants@.skip(i + 1));
            }
            let k = &value.variants[i].0;
            let klen = k.0.as_str().unicode_len();
            if !(plen <= klen && str_eq(k.0.as_str().substring_char(0, plen), prefix)) {
                proof {
                    assert(!starts_with_seq(k.0@, prefix@));
                    assert(spec_enum_variants(prefix@, is_coin, pre, i as nat) is None);
                }
                return Err(Error::BadObject);
            }
            let stripped = k.0.as_str().substring_char(plen, klen);
            proof {
                assert(stripped@ =~= k.0@.skip(prefix@.len() as int));
            }
            let camel = lower_camel(stripped);
            let nm = if is_coin {
                coin_fix(camel.as_str())
            } else {
                camel
            };
            let val: usize = match &value.variants[i].1 {
                Some(x) => *x,
                None => i,
            };
            let ev = EnumVariantInfo { name: nm, value: val, as_string: None };
            let ghost before = variants@;
            variants.push(ev);
            proof {
                before.lemma_push_map_commute(|v: EnumVariantInfo| v@, ev);
                assert(variants@.map_values(|v: EnumVariantInfo| v@) =~= before.map_values(
                    |v: EnumVariantInfo| v@,
                ) + seq![ev@]);
                assert forall|rest: Seq<EnumVariantInfoV>| true implies (before.map_values(
                    |v: EnumVariantInfo| v@,
                ) + (seq![ev@] + rest)) =~= (variants@.map_values(|v: EnumVariantInfo| v@)
                    + rest) by {}
            }
            i = i + 1;
        }
        proof {
            assert(value.variants@.skip(n as int) =~= Seq::<(GKeyword, Option<usize>)>::empty());
        }
        let e = EnumInfo {
            name: value.name.0.clone(),
            is_public: true,
            value_type: value_ty,
            variants,
            comments: Vec::new(),
        };
        proof {
            assert(e@.variants + Seq::<EnumVariantInfoV>::empty() =~= e@.variants);
            assert(e@.comments =~= Seq::<Seq<char>>::empty());
        }
        Ok(e)
    }
}

/// Whether a property-export marker stands among the markers.
pub open spec fn spec_has_property_marker(ms: GMarkers) -> bool {
    exists|i: int|
        0 <= i < ms.0@.len() && (ms.0@[i] is TwExportProperty
            || ms.0@[i] is TwExportStaticProperty)
}

/// Whether a method-export marker stands among the markers.
pub open spec fn spec_has_method_marker(ms: GMarkers) -> bool {
    exists|i: int|
        0 <= i < ms.0@.len() && (ms.0@[i] is TwExportMethod || ms.0@[i] is TwExportStaticMethod)
}

/// Executable test for a property-export marker.
pub fn has_property_marker(ms: &GMarkers) -> (b: bool)
    ensures
        b == spec_has_property_marker(*ms),
{
    let n = ms.0.len();
    let mut i: usize = 0;
    while i < n
        invariant
            0 <= i <= n,
            n == ms.0@.len(),
            forall|j: int|
                0 <= j < i ==> !(ms.0@[j] is TwExportProperty) && !(ms.0@[j]
                    is TwExportStaticProperty),
        decreases n - i,
    {
        let found = match &ms.0[i] {
            GMarker::TwExportProperty => true,
            GMarker::TwExportStaticProperty => true,
            _ => false,
        };
        if found {
            return true;
        }
        i = i + 1;
    }
    false
}

/// Executable test for a method-export marker.
fn has_method_marker(ms: &GMarkers) -> (b: bool)
    ensures
        b == spec_has_method_marker(*ms),
{
    let n = ms.0.len();
    let mut i: usize = 0;
    while i < n
        invariant
            0 <= i <= n,
            n == ms.0@.len(),
            forall|j: int|
                0 <= j < i ==> !(ms.0@[j] is TwExportMethod) && !(ms.0@[j]
                    is TwExportStaticMethod),
        decreases n - i,
    {
        let found = match &ms.0[i] {
            GMarker::TwExportMethod => true,
            GMarker::TwExportStaticMethod => true,
            _ => false,
        };
        if found {
            return true;
        }
        i = i + 1;
    }
    false
}

/// A property's manifest entry: exactly one marker, which must be one of
/// the two property-export markers; at least one parameter; and a
/// resolvable return type. Properties are always public.
pub open spec fn spec_property_info(d: GFunctionDecl) -> Option<PropertyInfoV> {
    if d.markers.0@.len() != 1 {
        None
    } else {
        match d.markers.0@[0] {
            GMarker::TwExportProperty | GMarker::TwExportStaticProperty => {
                if d.params@.len() < 1 {
                    None
                } else {
                    match spec_type_info(d.return_value.ty, d.return_value.markers) {
                        Some(rt) => Some(
                            PropertyInfoV {
                                name: d.name.0@,
                                is_public: true,
                                return_type: rt,
                                comments: Seq::empty(),
                            },
                        ),
                        None => None,
                    }
                }
            },
            _ => None,
        }
    }
}

/// The error a rejected property reports.
pub open spec fn spec_property_err(d: GFunctionDecl) -> Error {
    if d.markers.0@.len() != 1 {
        Error::BadProperty
    } else {
        match d.markers.0@[0] {
            GMarker::TwExportProperty | GMarker::TwExportStaticProperty => {
                if d.params@.len() < 1 {
                    Error::BadProperty
                } else {
                    Error::BadType
                }
            },
            _ => Error::BadObject,
        }
    }
}

impl PropertyInfo {
    /// Extracts a property-tagged function declaration.
    pub fn from_g_type(value: &GFunctionDecl) -> (r: Result<PropertyInfo, Error>)
        ensures
            r matches Ok(p) ==> spec_property_info(*value) == Some(p@),
            r matches Err(e) ==> spec_property_info(*value) is None && e == spec_property_err(
                *value,
            ),
    {
        if value.markers.0.len() != 1 {
            return Err(Error::BadProperty);
        }
        let m = &value.markers.0[0];
        proof {
            assert(*m == value.markers.0@[0]);
        }
        let ok = match m {
            GMarker::TwExportProperty => true,
            GMarker::TwExportStaticProperty => true,
            _ => false,
        };
        if !ok {
            return Err(Error::BadObject);
        }
        if value.params.len() < 1 {
            return Err(Error::BadProperty);
        }
        let return_type = match TypeInfo::from_g_type(&value.return_value.ty, &value.return_value.markers) {
            Ok(ti) => ti,
            Err(_) => {
                return Err(Error::BadType);
            },
        };
        let p = PropertyInfo {
            name: value.name.0.clone(),
            is_public: true,
            return_type,
            comments: Vec::new(),
        };
        proof {
            assert(p@.comments =~= Seq::<Seq<char>>::empty());
        }
        Ok(p)
    }
}

/// The flags a method takes from its first marker: none means a private
/// instance method, the method-export marker a public instance method,
/// the static-method-export marker a public static method; any other
/// first marker is rejected.
pub open spec fn spec_method_flags(ms: GMarkers) -> Option<(bool, bool)> {
    if ms.0@.len() == 0 {
        Some((false, false))
    } else {
        match ms.0@[0] {
            GMarker::TwExportMethod => Some((false, true)),
            GMarker::TwExportStaticMethod => Some((true, true)),
            _ => None,
        }
    }
}

/// The resolved parameters of a declaration, in order, each with its own
/// markers.
pub open spec fn spec_params_info(ps: Seq<GParamItem>) -> Option<Seq<ParamInfoV>>
    decreases ps.len(),
{
    if ps.len() == 0 {
        Some(Seq::empty())
    } else {
        match spec_type_info(ps[0].ty, ps[0].markers) {
            Some(ti) => match spec_params_info(ps.skip(1)) {
                Some(rest) => Some(seq![ParamInfoV { name: ps[0].name.0@, ty: ti }] + rest),
                None => None,
            },
            None => None,
        }
    }
}

/// A plain method's manifest entry.
pub open spec fn spec_function_info(d: GFunctionDecl) -> Option<FunctionInfoV> {
    match spec_method_flags(d.markers) {
        Some(flags) => match spec_params_info(d.params@) {
            Some(params) => match spec_type_info(d.return_value.ty, d.return_value.markers) {
                Some(rt) => Some(
                    FunctionInfoV {
                        name: d.name.0@,
                        is_public: flags.1,
                        is_static: flags.0,
                        params,
                        return_type: rt,
                        comments: Seq::empty(),
                    },
                ),
                None => None,
            },
            None => None,
        },
        None => None,
    }
}

/// The error a rejected method reports: a bad first marker before a bad
/// parameter or return type.
pub open spec fn spec_function_err(d: GFunctionDecl) -> Error {
    if spec_method_flags(d.markers) is None {
        Error::BadObject
    } else {
        Error::BadType
    }
}

/// Reads the flags off a method's first marker.
fn method_flags(ms: &GMarkers) -> (r: Option<(bool, bool)>)
    ensures
        r == spec_method_flags(*ms),
{
    if ms.0.len() == 0 {
        Some((false, false))
    } else {
        let m = &ms.0[0];
        proof {
            assert(*m == ms.0@[0]);
        }
        match m {
            GMarker::TwExportMethod => Some((false, true)),
            GMarker::TwExportStaticMethod => Some((true, true)),
            _ => None,
        }
    }
}

impl FunctionInfo {
    /// Extracts a plain method declaration.
    pub fn from_g_type(decl: &GFunctionDecl) -> (r: Result<FunctionInfo, Error>)
        ensures
            r matches Ok(f) ==> spec_function_info(*decl) == Some(f@),
            r matches Err(e) ==> spec_function_info(*decl) is None && e == spec_function_err(
                *decl,
            ),
    {
        let flags = match method_flags(&decl.markers) {
            Some(f) => f,
            None => {
                return Err(Error::BadObject);
            },
        };
        let n = decl.params.len();
        let mut params: Vec<ParamInfo> = Vec::new();
        proof {
            assert(decl.params@.skip(0) =~= decl.params@);
            assert(params@.map_values(|p: ParamInfo| p@) =~= Seq::<ParamInfoV>::empty());
            assert(spec_params_info(decl.params@) matches Some(rest) ==> (Seq::<
                ParamInfoV,
            >::empty() + rest =~= rest));
        }
        let mut i: usize = 0;
        while i < n
            invariant
                0 <= i <= n,
                n == decl.params@.len(),
                spec_method_flags(decl.markers) == Some(flags),
                spec_params_info(decl.params@) == (match spec_params_info(
                    decl.params@.skip(i as int),
                ) {
                    Some(rest) => Some(params@.map_values(|p: ParamInfo| p@) + rest),
                    None => None::<Seq<ParamInfoV>>,
                }),
            decreases n - i,
        {
            let ghost pre = decl.params@.skip(i as int);
            proof {
                assert(pre[0] == decl.params@[i as int]);
                assert(pre.skip(1) =~= decl.params@.skip(i + 1));
            }
            let item = &decl.params[i];
            let ti = match TypeInfo::from_g_type(&item.ty, &item.markers) {
                Ok(ti) => ti,
                Err(_) => {
                    proof {
                        assert(spec_params_info(pre) is None);
                        assert(spec_params_info(decl.params@) is None);
                    }
                    return Err(Error::BadType);
                },
            };
            let pi = ParamInfo { name: item.name.0.clone(), ty: ti };
            let ghost before = params@;
            params.push(pi);
            proof {
                before.lemma_push_map_commute(|p: ParamInfo| p@, pi);
                assert(params@.map_values(|p: ParamInfo| p@) =~= before.map_values(
                    |p: ParamInfo| p@,
                ) + seq![pi@]);
                assert forall|rest: Seq<ParamInfoV>| true implies (before.map_values(
                    |p: ParamInfo| p@,
                ) + (seq![pi@] + rest)) =~= (params@.map_values(|p: ParamInfo| p@) + rest) by {}
            }
            i = i + 1;
        }
        proof {
            assert(decl.params@.skip(n as int) =~= Seq::<GParamItem>::empty());
        }
        let return_type = match TypeInfo::from_g_type(&decl.return_value.ty, &decl.return_value.markers) {
            Ok(ti) => ti,
            Err(_) => {
                return Err(Error::BadType);
            },
        };
        let f = FunctionInfo {
            name: decl.name.0.clone(),
            is_public: flags.1,
            is_static: flags.0,
            params,
            return_type,
            comments: Vec::new(),
        };
        proof {
            assert(f@.params + Seq::<ParamInfoV>::empty() =~= f@.params);
            assert(f@.comments =~= Seq::<Seq<char>>::empty());
        }
        Ok(f)
    }
}

/// A constructor's manifest entry: the method entry, with visibility
/// taken from any method-export marker and nullability from the return
/// value's markers.
pub open spec fn spec_init_info(d: GFunctionDecl) -> Option<InitInfoV> {
    match spec_function_info(d) {
        Some(f) => Some(
            InitInfoV {
                name: f.name,
                is_public: spec_has_method_marker(d.markers),
                is_nullable: spec_nullable(d.return_value.markers),
                params: f.params,
                comments: Seq::empty(),
            },
        ),
        None => None,
    }
}

impl InitInfo {
    /// Extracts a constructor declaration.
    pub fn from_g_type(value: &GFunctionDecl) -> (r: Result<InitInfo, Error>)
        ensures
            r matches Ok(ini) ==> spec_init_info(*value) == Some(ini@),
            r matches Err(e) ==> spec_init_info(*value) is None && e == spec_function_err(*value),
    {
        let func = match FunctionInfo::from_g_type(value) {
            Ok(f) => f,
            Err(e) => {
                return Err(e);
            },
        };
        let is_public = has_method_marker(&value.markers);
        let is_nullable = has_nullable(&value.return_value.markers);
        let ini = InitInfo {
            name: func.name,
            is_public,
            is_nullable,
            params: func.params,
            comments: Vec::new(),
        };
        proof {
            assert(ini@.comments =~= Seq::<Seq<char>>::empty());
        }
        Ok(ini)
    }
}

/// A destructor's manifest entry: only the name is retained.
pub open spec fn spec_deinit_info(d: GFunctionDecl) -> Option<DeinitInfoV> {
    match spec_function_info(d) {
        Some(f) => Some(DeinitInfoV { name: f.name, comments: Seq::empty() }),
        None => None,
    }
}

impl DeinitInfo {
    /// Extracts a destructor declaration.
    pub fn from_g_type(value: &GFunctionDecl) -> (r: Result<DeinitInfo, Error>)
        ensures
            r matches Ok(de) ==> spec_deinit_info(*value) == Some(de@),
            r matches Err(e) ==> spec_deinit_info(*value) is None && e == spec_function_err(
                *value,
            ),
    {
        let func = match FunctionInfo::from_g_type(value) {
            Ok(f) => f,
            Err(e) => {
                return Err(e);
            },
        };
        let de = DeinitInfo { name: func.name, comments: Vec::new() };
        proof {
            assert(de@.comments =~= Seq::<Seq<char>>::empty());
        }
        Ok(de)
    }
}

/// The manifest of one header file: its base name and the ordered,
/// categorized entries extracted from its items.
#[derive(Debug, Clone, PartialEq, Eq)]
pub struct FileInfo {
    pub name: String,
    pub structs: Vec<StructInfo>,
    pub inits: Vec<InitInfo>,
    pub deinits: Vec<DeinitInfo>,
    pub enums: Vec<EnumInfo>,
    pub functions: Vec<FunctionInfo>,
    pub properties: Vec<PropertyInfo>,
    pub protos: Vec<ProtoInfo>,
    pub imports: Vec<ImportInfo>,
}

/// The categorized entries of one header, without its name.
#[verifier::ext_equal]
pub struct FilePartsV {
    pub structs: Seq<StructInfoV>,
    pub inits: Seq<InitInfoV>,
    pub deinits: Seq<DeinitInfoV>,
    pub enums: Seq<EnumInfoV>,
    pub functions: Seq<FunctionInfoV>,
    pub properties: Seq<PropertyInfoV>,
    pub protos: Seq<Seq<char>>,
    pub imports: Seq<Seq<Seq<char>>>,
}

/// Mathematical mirror of [`FileInfo`].
#[verifier::ext_equal]
pub struct FileInfoV {
    pub name: Seq<char>,
    pub parts: FilePartsV,
}

impl View for FileInfo {
    type V = FileInfoV;

    open spec fn view(&self) -> FileInfoV {
        FileInfoV {
            name: self.name@,
            parts: FilePartsV {
                structs: self.structs@.map_values(|x: StructInfo| x@),
                inits: self.inits@.map_values(|x: InitInfo| x@),
                deinits: self.deinits@.map_values(|x: DeinitInfo| x@),
                enums: self.enums@.map_values(|x: EnumInfo| x@),
                functions: self.functions@.map_values(|x: FunctionInfo| x@),
                properties: self.properties@.map_values(|x: PropertyInfo| x@),
                protos: self.protos@.map_values(|x: ProtoInfo| x@),
                imports: self.imports@.map_values(|x: ImportInfo| x@),
            },
        }
    }
}

/// No entries of any category.
pub open spec fn parts_empty() -> FilePartsV {
    FilePartsV {
        structs: Seq::empty(),
        inits: Seq::empty(),
        deinits: Seq::empty(),
        enums: Seq::empty(),
        functions: Seq::empty(),
        properties: Seq::empty(),
        protos: Seq::empty(),
        imports: Seq::empty(),
    }
}

/// Concatenation of two headers' worth of entries, category by category.
pub open spec fn parts_concat(a: FilePartsV, b: FilePartsV) -> FilePartsV {
    FilePartsV {
        structs: a.structs + b.structs,
        inits: a.inits + b.inits,
        deinits: a.deinits + b.deinits,
        enums: a.enums + b.enums,
        functions: a.functions + b.functions,
        properties: a.properties + b.properties,
        protos: a.protos + b.protos,
        imports: a.imports + b.imports,
    }
}

proof fn lemma_parts_assoc(a: FilePartsV, b: FilePartsV, c: FilePartsV)
    ensures
        parts_concat(a, parts_concat(b, c)) == parts_concat(parts_concat(a, b), c),
{
    assert(parts_concat(a, parts_concat(b, c)) =~= parts_concat(parts_concat(a, b), c));
}

proof fn lemma_parts_empty_concat(a: FilePartsV)
    ensures
        parts_concat(parts_empty(), a) == a,
        parts_concat(a, parts_empty()) == a,
{
    assert(parts_concat(parts_empty(), a) =~= a);
    assert(parts_concat(a, parts_empty()) =~= a);
}

/// The manifest entries one header item contributes. A typedef becomes
/// a protobuf bridge entry when its name holds `Proto` and its shape
/// fits; any other typedef is silently dropped. A struct indicator
/// yields an empty-fields struct entry. Declarations go through their
/// extractors; a function declaration is a property when a
/// property-export marker tags it, else a constructor when its name
/// holds `Create`, a destructor when it holds `Delete`, and a plain
/// method otherwise. Comment and unrecognized items contribute nothing.
/// `None` marks a hard extraction error for the whole header.
pub open spec fn spec_item_parts(item: GHeaderFileItem) -> Option<FilePartsV> {
    match item {
        GHeaderFileItem::Typedef(td) => {
            if contains_seq(td.name@, "Proto"@) {
                match spec_proto_info(td) {
                    Some(p) => Some(FilePartsV { protos: seq![p], ..parts_empty() }),
                    None => Some(parts_empty()),
                }
            } else {
                Some(parts_empty())
            }
        },
        GHeaderFileItem::StructIndicator(si) => {
            match spec_struct_flags(si.markers) {
                Some(flags) => Some(
                    FilePartsV {
                        structs: seq![
                            StructInfoV {
                                name: si.name@,
                                is_public: flags.0,
                                is_class: flags.1,
                                fields: Seq::empty(),
                                comments: Seq::empty(),
                            },
                        ],
                        ..parts_empty()
                    },
                ),
                None => None,
            }
        },
        GHeaderFileItem::StructDecl(sd) => {
            match spec_struct_info(sd) {
                Some(si) => Some(FilePartsV { structs: seq![si], ..parts_empty() }),
                None => None,
            }
        },
        GHeaderFileItem::EnumDecl(ed) => {
            if ed.name.0@ == "TWStellarPassphrase"@ {
                Some(FilePartsV { enums: seq![spec_custom_stellar()], ..parts_empty() })
            } else if ed.name.0@ == "TWHRP"@ {
                Some(FilePartsV { enums: seq![spec_custom_hrp()], ..parts_empty() })
            } else {
                match spec_enum_info(ed) {
                    Some(ei) => Some(FilePartsV { enums: seq![ei], ..parts_empty() }),
                    None => None,
                }
            }
        },
        GHeaderFileItem::FunctionDecl(fd) => {
            if spec_has_property_marker(fd.markers) {
                match spec_property_info(fd) {
                    Some(p) => Some(FilePartsV { properties: seq![p], ..parts_empty() }),
                    None => None,
                }
            } else if contains_seq(fd.name.0@, "Create"@) {
                match spec_init_info(fd) {
                    Some(ini) => Some(FilePartsV { inits: seq![ini], ..parts_empty() }),
                    None => None,
                }
            } else if contains_seq(fd.name.0@, "Delete"@) {
                match spec_deinit_info(fd) {
                    Some(de) => Some(FilePartsV { deinits: seq![de], ..parts_empty() }),
                    None => None,
                }
            } else {
                match spec_function_info(fd) {
                    Some(f) => Some(FilePartsV { functions: seq![f], ..parts_empty() }),
                    None => None,
                }
            }
        },
        GHeaderFileItem::HeaderInclude(inc) => {
            match spec_import_info(inc.0@) {
                Some(im) => Some(FilePartsV { imports: seq![im], ..parts_empty() }),
                None => None,
            }
        },
        GHeaderFileItem::Comment(_) => Some(parts_empty()),
        GHeaderFileItem::Unrecognized(_) => Some(parts_empty()),
    }
}

/// The categorized entries of a whole header, in source order; one bad
/// item fails the header.
pub open spec fn spec_extract_items(items: Seq<GHeaderFileItem>) -> Option<FilePartsV>
    decreases items.len(),
{
    if items.len() == 0 {
        Some(parts_empty())
    } else {
        match spec_item_parts(items[0]) {
            Some(p) => match spec_extract_items(items.skip(1)) {
                Some(rest) => Some(parts_concat(p, rest)),
                None => None,
            },
            None => None,
        }
    }
}

/// Whether a header is excluded from extraction upfront: the string and
/// data primitives, the base types and the signing entry points follow a
/// hand-maintained binding convention outside this pipeline.
pub open spec fn spec_excluded(base: Seq<char>) -> bool {
    starts_with_seq(base, "TWAnySigner"@) || starts_with_seq(base, "TWString"@)
        || starts_with_seq(base, "TWData"@) || starts_with_seq(base, "TWBase"@)
}

/// The manifests of a header directory, in order. Entries whose name
/// does not end in `.h`, excluded headers, and headers whose extraction
/// fails contribute nothing; every other header contributes its
/// manifest.
pub open spec fn spec_process(entries: Seq<(String, Vec<GHeaderFileItem>)>) -> Seq<FileInfoV>
    decreases entries.len(),
{
    if entries.len() == 0 {
        Seq::empty()
    } else {
        let nm = entries[0].0@;
        let rest = spec_process(entries.skip(1));
        if nm.len() >= 2 && nm.subrange(nm.len() - 2, nm.len() as int) == ".h"@ {
            let base = nm.subrange(0, nm.len() - 2);
            if spec_excluded(base) {
                rest
            } else {
                match spec_extract_items(entries[0].1@) {
                    Some(parts) => seq![FileInfoV { name: base, parts }] + rest,
                    None => rest,
                }
            }
        } else {
            rest
        }
    }
}

/// Extracts one header's manifest from its base name and items.
fn extract_file(base: String, items: &Vec<GHeaderFileItem>) -> (r: Result<FileInfo, Error>)
    ensures
        r matches Ok(fi) ==> spec_extract_items(items@) == Some(fi@.parts) && fi@.name == base@,
        r matches Err(e) ==> spec_extract_items(items@) is None,
{
    let n = items.len();
    let ghost base_view = base@;
    let mut fi = FileInfo {
        name: base,
        structs: Vec::new(),
        inits: Vec::new(),
        deinits: Vec::new(),
        enums: Vec::new(),
        functions: Vec::new(),
        properties: Vec::new(),
        protos: Vec::new(),
        imports: Vec::new(),
    };
    proof {
        assert(items@.skip(0) =~= items@);
        assert(fi@.parts =~= parts_empty());
        if spec_extract_items(items@) is Some {
            lemma_parts_empty_concat(spec_extract_items(items@)->Some_0);
        }
    }
    let mut i: usize = 0;
    while i < n
        invariant
            0 <= i <= n,
            n == items@.len(),
            fi@.name == base_view,
            spec_extract_items(items@) == (match spec_extract_items(items@.skip(i as int)) {
                Some(rest) => Some(parts_concat(fi@.parts, rest)),
                None => None::<FilePartsV>,
            }),
        decreases n - i,
    {
        let ghost pre = items@.skip(i as int);
        let ghost acc0 = fi@.parts;
        proof {
            assert(pre[0] == items@[i as int]);
            assert(pre.skip(1) =~= items@.skip(i + 1));
        }
        let item = &items[i];
        match item {
            GHeaderFileItem::Typedef(td) => {
                if contains_str(td.name.as_str(), "Proto") {
                    match ProtoInfo::from_g_type(td) {
                        Ok(p) => {
                            let ghost before = fi.protos@;
                            fi.protos.push(p);
                            proof {
                                before.lemma_push_map_commute(|x: ProtoInfo| x@, p);
                                assert(spec_item_parts(items@[i as int]) == Some(
                                    FilePartsV { protos: seq![p@], ..parts_empty() },
                                ));
                                assert(fi@.parts =~= parts_concat(
                                    acc0,
                                    FilePartsV { protos: seq![p@], ..parts_empty() },
                                ));
                            }
                        },
                        Err(_) => {
                            proof {
                                assert(spec_item_parts(items@[i as int]) == Some(parts_empty()));
                                lemma_parts_empty_concat(acc0);
                                assert(fi@.parts =~= parts_concat(acc0, parts_empty()));
                            }
                        },
                    }
                } else {
                    proof {
                        assert(spec_item_parts(items@[i as int]) == Some(parts_empty()));
                        assert(fi@.parts =~= parts_concat(acc0, parts_empty()));
                    }
                }
            },
            GHeaderFileItem::StructIndicator(si) => {
                let flags = match struct_flags(&si.markers) {
                    Some(f) => f,
                    None => {
                        proof {
                            assert(spec_item_parts(items@[i as int]) is None);
                        }
                        return Err(Error::BadObject);
                    },
                };
                let st = StructInfo {
                    name: si.name.0.0.clone(),
                    is_public: flags.0,
                    is_class: flags.1,
                    fields: Vec::new(),
                    comments: Vec::new(),
                };
                proof {
                    assert(st@.fields =~= Seq::<(Seq<char>, TypeInfoV)>::empty());
                    assert(st@.comments =~= Seq::<Seq<char>>::empty());
                }
                let ghost before = fi.structs@;
                fi.structs.push(st);
                proof {
                    before.lemma_push_map_commute(|x: StructInfo| x@, st);
                    assert(spec_item_parts(items@[i as int]) == Some(
                        FilePartsV { structs: seq![st@], ..parts_empty() },
                    ));
                    assert(fi@.parts =~= parts_concat(
                        acc0,
                        FilePartsV { structs: seq![st@], ..parts_empty() },
                    ));
                }
            },
            GHeaderFileItem::StructDecl(sd) => {
                match StructInfo::from_g_type(sd) {
                    Ok(st) => {
                        let ghost before = fi.structs@;
                        fi.structs.push(st);
                        proof {
                            before.lemma_push_map_commute(|x: StructInfo| x@, st);
                            assert(fi@.parts =~= parts_concat(
                                acc0,
                                FilePartsV { structs: seq![st@], ..parts_empty() },
                            ));
                        }
                    },
                    Err(e) => {
                        proof {
                            assert(spec_item_parts(items@[i as int]) is None);
                        }
                        return Err(e);
                    },
                }
            },
            GHeaderFileItem::EnumDecl(ed) => {
                proof {
                    reveal_strlit("TWStellarPassphrase");
                    reveal_strlit("TWHRP");
                    assert("TWStellarPassphrase"@.len() != "TWHRP"@.len());
                }
                match EnumInfo::from_g_type(ed) {
                    Ok(en) => {
                        let ghost before = fi.enums@;
                        fi.enums.push(en);
                        proof {
                            before.lemma_push_map_commute(|x: EnumInfo| x@, en);
                            assert(spec_item_parts(items@[i as int]) == Some(
                                FilePartsV { enums: seq![en@], ..parts_empty() },
                            ));
                            assert(fi@.parts =~= parts_concat(
                                acc0,
                                FilePartsV { enums: seq![en@], ..parts_empty() },
                            ));
                        }
                    },
                    Err(e) => {
                        proof {
                            assert(spec_item_parts(items@[i as int]) is None);
                        }
                        return Err(e);
                    },
                }
            },
            GHeaderFileItem::FunctionDecl(fd) => {
                if has_property_marker(&fd.markers) {
                    match PropertyInfo::from_g_type(fd) {
                        Ok(p) => {
                            let ghost before = fi.properties@;
                            fi.properties.push(p);
                            proof {
                                before.lemma_push_map_commute(|x: PropertyInfo| x@, p);
                                assert(fi@.parts =~= parts_concat(
                                    acc0,
                                    FilePartsV { properties: seq![p@], ..parts_empty() },
                                ));
                            }
                        },
                        Err(e) => {
                            proof {
                                assert(spec_item_parts(items@[i as int]) is None);
                            }
                            return Err(e);
                        },
                    }
                } else if contains_str(fd.name.0.as_str(), "Create") {
                    match InitInfo::from_g_type(fd) {
                        Ok(ini) => {
                            let ghost before = fi.inits@;
                            fi.inits.push(ini);
                            proof {
                                before.lemma_push_map_commute(|x: InitInfo| x@, ini);
                                assert(fi@.parts =~= parts_concat(
                                    acc0,
                                    FilePartsV { inits: seq![ini@], ..parts_empty() },
                                ));
                            }
                        },
                        Err(e) => {
                            proof {
                                assert(spec_item_parts(items@[i as int]) is None);
                            }
                            return Err(e);
                        },
                    }
                } else if contains_str(fd.name.0.as_str(), "Delete") {
                    match DeinitInfo::from_g_type(fd) {
                        Ok(de) => {
                            let ghost before = fi.deinits@;
                            fi.deinits.push(de);
                            proof {
                                before.lemma_push_map_commute(|x: DeinitInfo| x@, de);
                                assert(fi@.parts =~= parts_concat(
                                    acc0,
                                    FilePartsV { deinits: seq![de@], ..parts_empty() },
                                ));
                            }
                        },
                        Err(e) => {
                            proof {
                                assert(spec_item_parts(items@[i as int]) is None);
                            }
                            return Err(e);
                        },
                    }
                } else {
                    match FunctionInfo::from_g_type(fd) {
                        Ok(f) => {
                            let ghost before = fi.functions@;
                            fi.functions.push(f);
                            proof {
                                before.lemma_push_map_commute(|x: FunctionInfo| x@, f);
                                assert(fi@.parts =~= parts_concat(
                                    acc0,
                                    FilePartsV { functions: seq![f@], ..parts_empty() },
                                ));
                            }
                        },
                        Err(e) => {
                            proof {
                                assert(spec_item_parts(items@[i as int]) is None);
                            }
                            return Err(e);
                        },
                    }
                }
            },
            GHeaderFileItem::HeaderInclude(inc) => {
                match ImportInfo::from_g_type(inc) {
                    Ok(im) => {
                        let ghost before = fi.imports@;
                        fi.imports.push(im);
                        proof {
                            before.lemma_push_map_commute(|x: ImportInfo| x@, im);
                            assert(fi@.parts =~= parts_concat(
                                acc0,
                                FilePartsV { imports: seq![im@], ..parts_empty() },
                            ));
                        }
                    },
                    Err(e) => {
                        proof {
                            assert(spec_item_parts(items@[i as int]) is None);
                        }
                        return Err(e);
                    },
                }
            },
            GHeaderFileItem::Comment(_) => {
                proof {
                    assert(spec_item_parts(items@[i as int]) == Some(parts_empty()));
                    assert(fi@.parts =~= parts_concat(acc0, parts_empty()));
                }
            },
            GHeaderFileItem::Unrecognized(_) => {
                proof {
                    assert(spec_item_parts(items@[i as int]) == Some(parts_empty()));
                    assert(fi@.parts =~= parts_concat(acc0, parts_empty()));
                }
            },
        }
        proof {
            if spec_extract_items(pre.skip(1)) is Some {
                lemma_parts_assoc(
                    acc0,
                    spec_item_parts(items@[i as int])->Some_0,
                    spec_extract_items(pre.skip(1))->Some_0,
                );
            }
        }
        i = i + 1;
    }
    proof {
        assert(items@.skip(n as int) =~= Seq::<GHeaderFileItem>::empty());
        if spec_extract_items(items@) is Some {
            lemma_parts_empty_concat(fi@.parts);
        }
    }
    Ok(fi)
}

/// Builds the manifests of a whole header directory, one per header
/// file, in order. Headers that are excluded by name, carry no `.h`
/// suffix, or fail extraction are skipped; the remaining headers each
/// contribute one manifest.
pub fn process_c_grammar(dir: &CHeaderDirectory) -> (r: Vec<FileInfo>)
    ensures
        r@.map_values(|f: FileInfo| f@) == spec_process(dir.map@),
{
    let n = dir.map.len();
    let mut out: Vec<FileInfo> = Vec::new();
    proof {
        assert(dir.map@.skip(0) =~= dir.map@);
        assert(out@.map_values(|f: FileInfo| f@) =~= Seq::<FileInfoV>::empty());
        assert(Seq::<FileInfoV>::empty() + spec_process(dir.map@) =~= spec_process(dir.map@));
    }
    let mut i: usize = 0;
    while i < n
        invariant
            0 <= i <= n,
            n == dir.map@.len(),
            spec_process(dir.map@) =~= out@.map_values(|f: FileInfo| f@) + spec_process(
                dir.map@.skip(i as int),
            ),
        decreases n - i,
    {
        let ghost pre = dir.map@.skip(i as int);
        let ghost acc0 = out@.map_values(|f: FileInfo| f@);
        proof {
            assert(pre[0] == dir.map@[i as int]);
            assert(pre.skip(1) =~= dir.map@.skip(i + 1));
        }
        let name = &dir.map[i].0;
        let nlen = name.as_str().unicode_len();
        let is_header = if nlen >= 2 {
            str_eq(name.as_str().substring_char(nlen - 2, nlen), ".h")
        } else {
            false
        };
        if is_header {
            let base = name.as_str().substring_char(0, nlen - 2).to_owned();
            proof {
                assert(name@.subrange(name@.len() - 2, name@.len() as int) =~= ".h"@);
                assert(base@ =~= name@.subrange(0, name@.len() - 2));
            }
            let excluded = starts_with_str(base.as_str(), "TWAnySigner") || starts_with_str(
                base.as_str(),
                "TWString",
            ) || starts_with_str(base.as_str(), "TWData") || starts_with_str(
                base.as_str(),
                "TWBase",
            );
            if !excluded {
                match extract_file(base, &dir.map[i].1) {
                    Ok(fi) => {
                        let ghost before = out@;
                        out.push(fi);
                        proof {
                            before.lemma_push_map_commute(|f: FileInfo| f@, fi);
                            assert(spec_process(pre) =~= seq![fi@] + spec_process(pre.skip(1)));
                            assert(out@.map_values(|f: FileInfo| f@) =~= acc0 + seq![fi@]);
                            assert(acc0 + (seq![fi@] + spec_process(pre.skip(1))) =~= (acc0
                                + seq![fi@]) + spec_process(pre.skip(1)));
                        }
                    },
                    Err(_) => {
                        proof {
                            assert(spec_process(pre) =~= spec_process(pre.skip(1)));
                        }
                    },
                }
            } else {
                proof {
                    assert(spec_process(pre) =~= spec_process(pre.skip(1)));
                }
            }
        } else {
            proof {
                assert(!(name@.len() >= 2 && name@.subrange(name@.len() - 2, name@.len() as int)
                    == ".h"@)) by {
                    if nlen >= 2 {
                        assert(name@.subrange(name@.len() - 2, name@.len() as int) != ".h"@);
                    } else {
                        reveal_strlit(".h");
                    }
                }
                assert(spec_process(pre) =~= spec_process(pre.skip(1)));
            }
        }
        i = i + 1;
    }
    proof {
        assert(dir.map@.skip(n as int) =~= Seq::<(String, Vec<GHeaderFileItem>)>::empty());
        assert(out@.map_values(|f: FileInfo| f@) + Seq::<FileInfoV>::empty() =~= out@.map_values(
            |f: FileInfo| f@,
        ));
    }
    out
}

} // verus!
