//! Lexical token categories and their grammar rules: primitive type
//! keywords, opaque identifiers, `struct` references, qualified types,
//! markers and comment lines.
//!
//! Every rule is all-or-nothing over the walker's uncommitted remainder: on
//! success it commits exactly its production, on failure it leaves the
//! stream where the rule started. The rules enforce strict token
//! boundaries: a token must start immediately (no leading separators) and
//! nothing may follow it but the separators its own grammar calls for.

use vstd::prelude::*;

use crate::Error;
use crate::strutil::{word_len, word_len_str, str_eq, trim_str, lemma_word_len_char};
use crate::walker::{Walker, StopKind, is_sep, trim};

verus! {

/// A primitive C type keyword combination.
#[derive(Debug, Clone, Copy, PartialEq, Eq, Structural)]
pub enum Primitive {
    Char,
    UnsignedChar,
    Int,
    UnsignedInt,
    Short,
    UnsignedShort,
    Long,
    UnsignedLong,
    Bool,
}

/// An opaque identifier: a function name, a custom or opaque type name, or
/// a marker name.
#[derive(Debug, Clone, PartialEq, Eq)]
pub struct Other(pub String);

/// A qualified name following the `struct` keyword.
#[derive(Debug, Clone, PartialEq, Eq)]
pub struct Struct(pub String);

/// An annotation token attached to a declaration or a type.
#[derive(Debug, Clone, PartialEq, Eq)]
pub enum Marker {
    Other(String),
}

/// One documentation comment line, its triple-slash prefix stripped.
#[derive(Debug, Clone, PartialEq, Eq)]
pub struct CommentBlock(pub String);

/// A parsed type: a primitive, a `struct` reference, or an opaque custom
/// name, optionally `const`-qualified.
#[derive(Debug, Clone, PartialEq, Eq)]
pub enum Type {
    Primitive(Primitive),
    ConstPrimitive(Primitive),
    ConstOther(Other),
    Struct(Struct),
    Custom(Other),
}

/// Mathematical mirror of [`Type`].
pub enum TypeV {
    Primitive(Primitive),
    ConstPrimitive(Primitive),
    ConstOther(Seq<char>),
    Struct(Seq<char>),
    Custom(Seq<char>),
}

impl View for Other {
    type V = Seq<char>;

    open spec fn view(&self) -> Seq<char> {
        self.0@
    }
}

impl View for Struct {
    type V = Seq<char>;

    open spec fn view(&self) -> Seq<char> {
        self.0@
    }
}

impl View for Marker {
    type V = Seq<char>;

    open spec fn view(&self) -> Seq<char> {
        match self {
            Marker::Other(s) => s@,
        }
    }
}

impl View for CommentBlock {
    type V = Seq<char>;

    open spec fn view(&self) -> Seq<char> {
        self.0@
    }
}

impl View for Type {
    type V = TypeV;

    open spec fn view(&self) -> TypeV {
        match self {
            Type::Primitive(p) => TypeV::Primitive(*p),
            Type::ConstPrimitive(p) => TypeV::ConstPrimitive(*p),
            Type::ConstOther(o) => TypeV::ConstOther(o@),
            Type::Struct(s) => TypeV::Struct(s@),
            Type::Custom(o) => TypeV::Custom(o@),
        }
    }
}

/// The primitive grammar: one of the bare keywords, or `unsigned` /
/// `signed` followed by one separator and a nested primitive. `unsigned`
/// remaps the four plain keywords and rejects everything else (`bool` in
/// particular); `signed` keeps the four plain keywords and rejects
/// everything else. The window must hold the keywords and their single
/// separators exactly: leading or trailing separators fail the rule.
pub open spec fn spec_primitive(s: Seq<char>) -> Option<Primitive>
    decreases s.len(),
{
    if s.len() == 0 {
        None
    } else if word_len(s) == s.len() {
        if s == "char"@ {
            Some(Primitive::Char)
        } else if s == "int"@ {
            Some(Primitive::Int)
        } else if s == "short"@ {
            Some(Primitive::Short)
        } else if s == "long"@ {
            Some(Primitive::Long)
        } else if s == "bool"@ {
            Some(Primitive::Bool)
        } else {
            None
        }
    } else if word_len(s) < s.len() {
        let hd = s.subrange(0, word_len(s) as int);
        let rest = s.skip(word_len(s) + 1 as int);
        if hd == "unsigned"@ {
            match spec_primitive(rest) {
                Some(Primitive::Char) => Some(Primitive::UnsignedChar),
                Some(Primitive::Int) => Some(Primitive::UnsignedInt),
                Some(Primitive::Short) => Some(Primitive::UnsignedShort),
                Some(Primitive::Long) => Some(Primitive::UnsignedLong),
                _ => None,
            }
        } else if hd == "signed"@ {
            match spec_primitive(rest) {
                Some(Primitive::Char) => Some(Primitive::Char),
                Some(Primitive::Int) => Some(Primitive::Int),
                Some(Primitive::Short) => Some(Primitive::Short),
                Some(Primitive::Long) => Some(Primitive::Long),
                _ => None,
            }
        } else {
            None
        }
    } else {
        None
    }
}

/// Parses a whole window as a primitive keyword combination.
pub fn parse_primitive(s: &str) -> (r: Result<Primitive, Error>)
    ensures
        r matches Ok(p) ==> spec_primitive(s@) == Some(p),
        r matches Err(e) ==> spec_primitive(s@) is None && e == Error::Malformed,
    decreases s@.len(),
{
    let n = s.unicode_len();
    if n == 0 {
        return Err(Error::Malformed);
    }
    let w = word_len_str(s);
    if w == n {
        if str_eq(s, "char") {
            Ok(Primitive::Char)
        } else if str_eq(s, "int") {
            Ok(Primitive::Int)
        } else if str_eq(s, "short") {
            Ok(Primitive::Short)
        } else if str_eq(s, "long") {
            Ok(Primitive::Long)
        } else if str_eq(s, "bool") {
            Ok(Primitive::Bool)
        } else {
            Err(Error::Malformed)
        }
    } else {
        let hd = s.substring_char(0, w);
        let rest = s.substring_char(w + 1, n);
        proof {
            assert(rest@ =~= s@.skip(word_len(s@) + 1 as int));
        }
        if str_eq(hd, "unsigned") {
            match parse_primitive(rest) {
                Ok(Primitive::Char) => Ok(Primitive::UnsignedChar),
                Ok(Primitive::Int) => Ok(Primitive::UnsignedInt),
                Ok(Primitive::Short) => Ok(Primitive::UnsignedShort),
                Ok(Primitive::Long) => Ok(Primitive::UnsignedLong),
                _ => Err(Error::Malformed),
            }
        } else if str_eq(hd, "signed") {
            match parse_primitive(rest) {
                Ok(Primitive::Char) => Ok(Primitive::Char),
                Ok(Primitive::Int) => Ok(Primitive::Int),
                Ok(Primitive::Short) => Ok(Primitive::Short),
                Ok(Primitive::Long) => Ok(Primitive::Long),
                _ => Err(Error::Malformed),
            }
        } else {
            Err(Error::Malformed)
        }
    }
}

impl Primitive {
    /// Drives the primitive rule against the walker's whole remainder.
    /// On success the remainder is exactly the keyword combination and is
    /// consumed; on failure the stream does not move.
    pub fn drive(walker: &mut Walker) -> (r: Result<Primitive, Error>)
        requires
            old(walker).wf(),
        ensures
            final(walker).wf(),
            r matches Ok(p) ==> spec_primitive(old(walker).rem()) == Some(p)
                && final(walker).rem() == Seq::<char>::empty(),
            r matches Err(e) ==> spec_primitive(old(walker).rem()) is None
                && final(walker).rem() == old(walker).rem() && e == Error::Malformed,
    {
        let s = walker.remaining_string();
        match parse_primitive(s.as_str()) {
            Ok(p) => {
                walker.skip_all();
                Ok(p)
            },
            Err(e) => Err(e),
        }
    }

    /// The keyword combination this variant prints as; parsing it yields
    /// the variant back.
    pub open spec fn spec_keywords(self) -> Seq<char> {
        match self {
            Primitive::Char => "char"@,
            Primitive::UnsignedChar => "unsigned char"@,
            Primitive::Int => "int"@,
            Primitive::UnsignedInt => "unsigned int"@,
            Primitive::Short => "short"@,
            Primitive::UnsignedShort => "unsigned short"@,
            Primitive::Long => "long"@,
            Primitive::UnsignedLong => "unsigned long"@,
            Primitive::Bool => "bool"@,
        }
    }

    /// Serializes the variant back to its keyword combination.
    pub fn keyword_string(&self) -> (r: String)
        ensures
            r@ == self.spec_keywords(),
    {
        match self {
            Primitive::Char => String::from_str("char"),
            Primitive::UnsignedChar => String::from_str("unsigned char"),
            Primitive::Int => String::from_str("int"),
            Primitive::UnsignedInt => String::from_str("unsigned int"),
            Primitive::Short => String::from_str("short"),
            Primitive::UnsignedShort => String::from_str("unsigned short"),
            Primitive::Long => String::from_str("long"),
            Primitive::UnsignedLong => String::from_str("unsigned long"),
            Primitive::Bool => String::from_str("bool"),
        }
    }
}

/// The primitive grammar as read keyword by keyword from a
/// [`WalkerTwo`]: the qualifiers recurse on the next keyword, and
/// whatever follows the parsed combination is left unread.
pub open spec fn spec_drive_two(s: Seq<char>) -> Option<Primitive>
    decreases s.len(),
{
    let n1 = crate::walker_two::raw_scan_len(s, StopKind::Content);
    let a1: nat = if n1 > 0 {
        (n1 - 1) as nat
    } else {
        0
    };
    let s2 = s.skip(a1 as int);
    let n2 = crate::walker_two::raw_scan_len(s2, StopKind::Separator);
    if s2.len() == 0 {
        None
    } else if n2 < 1 || a1 + n2 > s.len() {
        // Reads stay within these bounds; the branch only grounds the
        // recursion.
        None
    } else {
        let w = crate::walker_two::drop_ws_back(s2.subrange(0, n2 as int));
        if w == "char"@ {
            Some(Primitive::Char)
        } else if w == "int"@ {
            Some(Primitive::Int)
        } else if w == "short"@ {
            Some(Primitive::Short)
        } else if w == "long"@ {
            Some(Primitive::Long)
        } else if w == "bool"@ {
            Some(Primitive::Bool)
        } else if w == "unsigned"@ {
            match spec_drive_two(s2.skip(n2 as int)) {
                Some(Primitive::Char) => Some(Primitive::UnsignedChar),
                Some(Primitive::Int) => Some(Primitive::UnsignedInt),
                Some(Primitive::Short) => Some(Primitive::UnsignedShort),
                Some(Primitive::Long) => Some(Primitive::UnsignedLong),
                _ => None,
            }
        } else if w == "signed"@ {
            match spec_drive_two(s2.skip(n2 as int)) {
                Some(Primitive::Char) => Some(Primitive::Char),
                Some(Primitive::Int) => Some(Primitive::Int),
                Some(Primitive::Short) => Some(Primitive::Short),
                Some(Primitive::Long) => Some(Primitive::Long),
                _ => None,
            }
        } else {
            None
        }
    }
}

/// Whether a keyword read on the given stream meets the end of input:
/// nothing remains once the leading separators are skipped.
pub open spec fn spec_drive_two_at_end(s: Seq<char>) -> bool {
    let n1 = crate::walker_two::raw_scan_len(s, StopKind::Content);
    let a1: nat = if n1 > 0 {
        (n1 - 1) as nat
    } else {
        0
    };
    s.skip(a1 as int).len() == 0
}

impl Primitive {
    /// Drives the primitive grammar keyword by keyword over the given
    /// reader, consuming it. The end of input fails with `Error::Eof`;
    /// an unknown keyword, or a qualifier over anything but the four
    /// plain keywords, fails with `Error::Malformed`.
    pub fn drive_two(walker: crate::walker_two::WalkerTwo) -> (r: Result<Primitive, Error>)
        requires
            walker.wf(),
        ensures
            r matches Ok(p) ==> spec_drive_two(walker.rem().skip(walker.amt_read() as int))
                == Some(p),
            r matches Err(e) ==> spec_drive_two(walker.rem().skip(walker.amt_read() as int))
                is None && ((e == Error::Eof) <==> spec_drive_two_at_end(
                walker.rem().skip(walker.amt_read() as int),
            )) && (e == Error::Eof || e == Error::Malformed),
        decreases walker.rem().len() - walker.amt_read(),
    {
        let ghost m0 = walker.rem().len() - walker.amt_read();
        let mut w2 = walker;
        let ghost s = w2.rem().skip(w2.amt_read() as int);
        let ghost n1 = crate::walker_two::raw_scan_len(s, StopKind::Content);
        let ghost a1: nat = if n1 > 0 {
            (n1 - 1) as nat
        } else {
            0
        };
        proof {
            w2.lemma_wf_bounds();
            crate::ast::lemma_scan_len_from_range(s, StopKind::Content, 0);
            crate::ast::lemma_scan_len_from_range(s.skip(a1 as int), StopKind::Separator, 0);
        }
        let kw = match w2.read_keyword() {
            Ok(o) => o,
            Err(e) => {
                proof {
                    assert(false);
                }
                return Err(e);
            },
        };
        let word = match kw {
            Some(w) => w,
            None => {
                return Err(Error::Eof);
            },
        };
        proof {
            assert(w2.rem() == s.skip(a1 as int));
            assert(w2.rem().len() == s.len() - a1);
            assert(w2.amt_read() >= 1);
            assert(w2.rem().len() - w2.amt_read() < m0);
        }
        if str_eq(word.as_str(), "char") {
            Ok(Primitive::Char)
        } else if str_eq(word.as_str(), "int") {
            Ok(Primitive::Int)
        } else if str_eq(word.as_str(), "short") {
            Ok(Primitive::Short)
        } else if str_eq(word.as_str(), "long") {
            Ok(Primitive::Long)
        } else if str_eq(word.as_str(), "bool") {
            Ok(Primitive::Bool)
        } else if str_eq(word.as_str(), "unsigned") {
            match Primitive::drive_two(w2) {
                Ok(Primitive::Char) => Ok(Primitive::UnsignedChar),
                Ok(Primitive::Int) => Ok(Primitive::UnsignedInt),
                Ok(Primitive::Short) => Ok(Primitive::UnsignedShort),
                Ok(Primitive::Long) => Ok(Primitive::UnsignedLong),
                _ => Err(Error::Malformed),
            }
        } else if str_eq(word.as_str(), "signed") {
            match Primitive::drive_two(w2) {
                Ok(Primitive::Char) => Ok(Primitive::Char),
                Ok(Primitive::Int) => Ok(Primitive::Int),
                Ok(Primitive::Short) => Ok(Primitive::Short),
                Ok(Primitive::Long) => Ok(Primitive::Long),
                _ => Err(Error::Malformed),
            }
        } else {
            Err(Error::Malformed)
        }
    }
}

/// The opaque-identifier grammar: the window, trimmed of surrounding
/// separators, must be one non-empty token with no embedded separator.
pub open spec fn spec_other(s: Seq<char>) -> Option<Seq<char>> {
    let t = trim(s);
    if t.len() > 0 && word_len(t) == t.len() {
        Some(t)
    } else {
        None
    }
}

/// Parses a whole window as one opaque identifier token.
pub fn parse_other(s: &str) -> (r: Result<String, Error>)
    ensures
        r matches Ok(t) ==> spec_other(s@) == Some(t@),
        r matches Err(e) ==> spec_other(s@) is None && e == Error::Malformed,
{
    let t = trim_str(s);
    let n = t.as_str().unicode_len();
    if n > 0 && word_len_str(t.as_str()) == n {
        Ok(t)
    } else {
        Err(Error::Malformed)
    }
}

impl Other {
    /// Drives the opaque-identifier rule against the walker's whole
    /// remainder; all-or-nothing as with every rule.
    pub fn drive(walker: &mut Walker) -> (r: Result<Other, Error>)
        requires
            old(walker).wf(),
        ensures
            final(walker).wf(),
            r matches Ok(o) ==> spec_other(old(walker).rem()) == Some(o@)
                && final(walker).rem() == Seq::<char>::empty(),
            r matches Err(e) ==> spec_other(old(walker).rem()) is None
                && final(walker).rem() == old(walker).rem() && e == Error::Malformed,
    {
        let s = walker.remaining_string();
        match parse_other(s.as_str()) {
            Ok(t) => {
                walker.skip_all();
                Ok(Other(t))
            },
            Err(e) => Err(e),
        }
    }
}

/// The struct-reference grammar: the literal keyword `struct`, one
/// separator, and a non-empty name token, with nothing around them.
pub open spec fn spec_struct_decl(s: Seq<char>) -> Option<Seq<char>> {
    if word_len(s) < s.len() && s.subrange(0, word_len(s) as int) == "struct"@ {
        let name = s.skip(word_len(s) + 1 as int);
        if name.len() > 0 && word_len(name) == name.len() {
            Some(name)
        } else {
            None
        }
    } else {
        None
    }
}

/// Parses a whole window as a `struct` reference, returning the name.
pub fn parse_struct_decl(s: &str) -> (r: Result<String, Error>)
    ensures
        r matches Ok(t) ==> spec_struct_decl(s@) == Some(t@),
        r matches Err(e) ==> spec_struct_decl(s@) is None && e == Error::Malformed,
{
    let n = s.unicode_len();
    let w = word_len_str(s);
    if w < n && str_eq(s.substring_char(0, w), "struct") {
        let name = s.substring_char(w + 1, n);
        proof {
            assert(name@ =~= s@.skip(word_len(s@) + 1 as int));
        }
        let m = name.unicode_len();
        if m > 0 && word_len_str(name) == m {
            Ok(name.to_owned())
        } else {
            Err(Error::Malformed)
        }
    } else {
        Err(Error::Malformed)
    }
}

impl Struct {
    /// Drives the struct-reference rule against the walker's whole
    /// remainder; all-or-nothing as with every rule.
    pub fn drive(walker: &mut Walker) -> (r: Result<Struct, Error>)
        requires
            old(walker).wf(),
        ensures
            final(walker).wf(),
            r matches Ok(st) ==> spec_struct_decl(old(walker).rem()) == Some(st@)
                && final(walker).rem() == Seq::<char>::empty(),
            r matches Err(e) ==> spec_struct_decl(old(walker).rem()) is None
                && final(walker).rem() == old(walker).rem() && e == Error::Malformed,
    {
        let s = walker.remaining_string();
        match parse_struct_decl(s.as_str()) {
            Ok(t) => {
                walker.skip_all();
                Ok(Struct(t))
            },
            Err(e) => Err(e),
        }
    }
}

impl Marker {
    /// Drives the marker rule: any single opaque identifier token counts
    /// as a marker name.
    pub fn drive(walker: &mut Walker) -> (r: Result<Marker, Error>)
        requires
            old(walker).wf(),
        ensures
            final(walker).wf(),
            r matches Ok(m) ==> spec_other(old(walker).rem()) == Some(m@)
                && final(walker).rem() == Seq::<char>::empty(),
            r matches Err(e) ==> spec_other(old(walker).rem()) is None
                && final(walker).rem() == old(walker).rem() && e == Error::Malformed,
    {
        let s = walker.remaining_string();
        match parse_other(s.as_str()) {
            Ok(t) => {
                walker.skip_all();
                Ok(Marker::Other(t))
            },
            Err(e) => Err(e),
        }
    }
}

/// The comment-line grammar: the trimmed window must begin with a triple
/// slash; the rule yields the remainder, trimmed.
pub open spec fn spec_comment(s: Seq<char>) -> Option<Seq<char>> {
    let t = trim(s);
    if t.len() >= 3 && t.subrange(0, 3) == "///"@ {
        Some(trim(t.skip(3)))
    } else {
        None
    }
}

/// Parses a whole window as one documentation comment line.
pub fn parse_comment(s: &str) -> (r: Result<String, Error>)
    ensures
        r matches Ok(t) ==> spec_comment(s@) == Some(t@),
        r matches Err(e) ==> spec_comment(s@) is None && e == Error::Malformed,
{
    let t = trim_str(s);
    let n = t.as_str().unicode_len();
    if n >= 3 && str_eq(t.as_str().substring_char(0, 3), "///") {
        let rest = t.as_str().substring_char(3, n);
        proof {
            assert(rest@ =~= trim(s@).skip(3));
        }
        Ok(trim_str(rest))
    } else {
        Err(Error::Malformed)
    }
}

impl CommentBlock {
    /// Drives the comment-line rule against the walker's whole remainder.
    pub fn drive(walker: &mut Walker) -> (r: Result<CommentBlock, Error>)
        requires
            old(walker).wf(),
        ensures
            final(walker).wf(),
            r matches Ok(c) ==> spec_comment(old(walker).rem()) == Some(c@)
                && final(walker).rem() == Seq::<char>::empty(),
            r matches Err(e) ==> spec_comment(old(walker).rem()) is None
                && final(walker).rem() == old(walker).rem() && e == Error::Malformed,
    {
        let s = walker.remaining_string();
        match parse_comment(s.as_str()) {
            Ok(t) => {
                walker.skip_all();
                Ok(CommentBlock(t))
            },
            Err(e) => Err(e),
        }
    }
}

/// The type grammar. The alternatives are tried in order: a primitive
/// keyword combination; the `struct` keyword with a name; the `const`
/// keyword qualifying a primitive or one opaque token; one bare opaque
/// token. The window must hold the production exactly: leading or
/// trailing separators, or trailing content, fail the rule, and the bare
/// keywords `struct` and `const` are no type by themselves.
pub open spec fn spec_type(s: Seq<char>) -> Option<TypeV> {
    match spec_primitive(s) {
        Some(p) => Some(TypeV::Primitive(p)),
        None => {
            let w = word_len(s);
            if w < s.len() && s.subrange(0, w as int) == "struct"@ {
                match spec_struct_decl(s) {
                    Some(name) => Some(TypeV::Struct(name)),
                    None => None,
                }
            } else if w < s.len() && s.subrange(0, w as int) == "const"@ {
                let rest = s.skip(w + 1 as int);
                match spec_primitive(rest) {
                    Some(p) => Some(TypeV::ConstPrimitive(p)),
                    None => {
                        if rest.len() > 0 && word_len(rest) == rest.len() {
                            Some(TypeV::ConstOther(rest))
                        } else {
                            None
                        }
                    },
                }
            } else if w == s.len() && s.len() > 0 && s != "struct"@ && s != "const"@ {
                Some(TypeV::Custom(s))
            } else {
                None
            }
        },
    }
}

/// Parses a whole window as a type.
pub fn parse_type(s: &str) -> (r: Result<Type, Error>)
    ensures
        r matches Ok(t) ==> spec_type(s@) == Some(t@),
        r matches Err(e) ==> spec_type(s@) is None && e == Error::Malformed,
{
    match parse_primitive(s) {
        Ok(p) => Ok(Type::Primitive(p)),
        Err(_) => {
            let n = s.unicode_len();
            let w = word_len_str(s);
            if w < n && str_eq(s.substring_char(0, w), "struct") {
                match parse_struct_decl(s) {
                    Ok(name) => Ok(Type::Struct(Struct(name))),
                    Err(e) => Err(e),
                }
            } else if w < n && str_eq(s.substring_char(0, w), "const") {
                let rest = s.substring_char(w + 1, n);
                proof {
                    assert(rest@ =~= s@.skip(word_len(s@) + 1 as int));
                }
                match parse_primitive(rest) {
                    Ok(p) => Ok(Type::ConstPrimitive(p)),
                    Err(_) => {
                        let m = rest.unicode_len();
                        if m > 0 && word_len_str(rest) == m {
                            Ok(Type::ConstOther(Other(rest.to_owned())))
                        } else {
                            Err(Error::Malformed)
                        }
                    },
                }
            } else if w == n && n > 0 && !str_eq(s, "struct") && !str_eq(s, "const") {
                Ok(Type::Custom(Other(s.to_owned())))
            } else {
                Err(Error::Malformed)
            }
        },
    }
}

impl Type {
    /// Drives the type rule against the walker's whole remainder;
    /// all-or-nothing as with every rule.
    pub fn drive(walker: &mut Walker) -> (r: Result<Type, Error>)
        requires
            old(walker).wf(),
        ensures
            final(walker).wf(),
            r matches Ok(t) ==> spec_type(old(walker).rem()) == Some(t@)
                && final(walker).rem() == Seq::<char>::empty(),
            r matches Err(e) ==> spec_type(old(walker).rem()) is None
                && final(walker).rem() == old(walker).rem() && e == Error::Malformed,
    {
        let s = walker.remaining_string();
        match parse_type(s.as_str()) {
            Ok(t) => {
                walker.skip_all();
                Ok(t)
            },
            Err(e) => Err(e),
        }
    }
}

} // verus!

verus! {

/// A separator-free non-empty sequence is one whole word.
proof fn lemma_single_keyword(s: Seq<char>)
    requires
        s.len() > 0,
        forall|j: int| 0 <= j < s.len() ==> !is_sep(s[j]),
    ensures
        word_len(s) == s.len(),
{
    lemma_word_len_char(s, s.len());
}

/// Shape of a two-word keyword combination: the first word, one space,
/// the rest.
proof fn lemma_keyword_pair(s: Seq<char>, hd: Seq<char>, rest: Seq<char>)
    requires
        s == hd + seq![' '] + rest,
        hd.len() > 0,
        rest.len() > 0,
        forall|j: int| 0 <= j < hd.len() ==> !is_sep(hd[j]),
    ensures
        word_len(s) == hd.len(),
        s.subrange(0, hd.len() as int) == hd,
        s.skip(hd.len() + 1 as int) == rest,
        s.len() == hd.len() + 1 + rest.len(),
{
    assert forall|j: int| 0 <= j < hd.len() implies !is_sep(s[j]) by {
        assert(s[j] == hd[j]);
    }
    assert(s[hd.len() as int] == ' ');
    lemma_word_len_char(s, hd.len());
    assert(s.subrange(0, hd.len() as int) =~= hd);
    assert(s.skip(hd.len() + 1 as int) =~= rest);
}

/// Evaluates the primitive grammar on one bare keyword literal.
proof fn lemma_parse_bare(s: Seq<char>)
    requires
        s == "char"@ || s == "int"@ || s == "short"@ || s == "long"@ || s == "bool"@,
    ensures
        s == "char"@ ==> spec_primitive(s) == Some(Primitive::Char),
        s == "int"@ ==> spec_primitive(s) == Some(Primitive::Int),
        s == "short"@ ==> spec_primitive(s) == Some(Primitive::Short),
        s == "long"@ ==> spec_primitive(s) == Some(Primitive::Long),
        s == "bool"@ ==> spec_primitive(s) == Some(Primitive::Bool),
{
    reveal_strlit("char");
    reveal_strlit("int");
    reveal_strlit("short");
    reveal_strlit("long");
    reveal_strlit("bool");
    assert forall|j: int| 0 <= j < s.len() implies !is_sep(s[j]) by {}
    lemma_single_keyword(s);
}

/// Round-trip law: parsing the keyword combination a primitive variant
/// serializes to yields that variant back, for every variant.
pub proof fn lemma_primitive_round_trip(p: Primitive)
    ensures
        spec_primitive(p.spec_keywords()) == Some(p),
{
    reveal_strlit("unsigned");
    reveal_strlit("unsigned char");
    reveal_strlit("unsigned int");
    reveal_strlit("unsigned short");
    reveal_strlit("unsigned long");
    reveal_strlit("char");
    reveal_strlit("int");
    reveal_strlit("short");
    reveal_strlit("long");
    reveal_strlit("bool");
    let hd = "unsigned"@;
    assert forall|j: int| 0 <= j < hd.len() implies !is_sep(hd[j]) by {}
    match p {
        Primitive::Char => lemma_parse_bare("char"@),
        Primitive::Int => lemma_parse_bare("int"@),
        Primitive::Short => lemma_parse_bare("short"@),
        Primitive::Long => lemma_parse_bare("long"@),
        Primitive::Bool => lemma_parse_bare("bool"@),
        Primitive::UnsignedChar => {
            let s = "unsigned char"@;
            assert(s =~= hd + seq![' '] + "char"@);
            lemma_keyword_pair(s, hd, "char"@);
            lemma_parse_bare("char"@);
        },
        Primitive::UnsignedInt => {
            let s = "unsigned int"@;
            assert(s =~= hd + seq![' '] + "int"@);
            lemma_keyword_pair(s, hd, "int"@);
            lemma_parse_bare("int"@);
        },
        Primitive::UnsignedShort => {
            let s = "unsigned short"@;
            assert(s =~= hd + seq![' '] + "short"@);
            lemma_keyword_pair(s, hd, "short"@);
            lemma_parse_bare("short"@);
        },
        Primitive::UnsignedLong => {
            let s = "unsigned long"@;
            assert(s =~= hd + seq![' '] + "long"@);
            lemma_keyword_pair(s, hd, "long"@);
            lemma_parse_bare("long"@);
        },
    }
}

/// Applying `unsigned` or `signed` to `bool` is rejected.
pub proof fn lemma_qualified_bool_rejected()
    ensures
        spec_primitive("unsigned bool"@) is None,
        spec_primitive("signed bool"@) is None,
{
    reveal_strlit("unsigned");
    reveal_strlit("signed");
    reveal_strlit("unsigned bool");
    reveal_strlit("signed bool");
    reveal_strlit("bool");
    let hd = "unsigned"@;
    assert forall|j: int| 0 <= j < hd.len() implies !is_sep(hd[j]) by {}
    let s = "unsigned bool"@;
    assert(s =~= hd + seq![' '] + "bool"@);
    lemma_keyword_pair(s, hd, "bool"@);
    lemma_parse_bare("bool"@);
    assert(hd != "signed"@) by {
        assert(hd.len() != "signed"@.len());
    }
    let hd2 = "signed"@;
    assert forall|j: int| 0 <= j < hd2.len() implies !is_sep(hd2[j]) by {}
    let s2 = "signed bool"@;
    assert(s2 =~= hd2 + seq![' '] + "bool"@);
    lemma_keyword_pair(s2, hd2, "bool"@);
    assert(hd2 != "unsigned"@) by {
        assert(hd2.len() != "unsigned"@.len());
    }
}

} // verus!
