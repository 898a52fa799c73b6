//! The function grammar: parameter lists, the name-with-parameters rule,
//! and whole function declarations with their markers and terminating
//! semicolon.

use vstd::prelude::*;

use crate::Error;
use crate::strutil::{word_len, word_len_str, ws_len_str, str_eq, trim_str, find_char_from,
    find_char_str, lemma_find_char_props, lemma_word_len_props};
use crate::tokens::{Type, TypeV, Marker, parse_type, spec_type};
use crate::walker::{Walker, is_sep, ws_len, trim};

verus! {

/// One function parameter: its name, its type, and the markers standing
/// between the type and the name.
#[derive(Debug, Clone, PartialEq, Eq)]
pub struct FunctionParam {
    pub name: String,
    pub ty: Type,
    pub markers: Vec<Marker>,
}

/// Mathematical mirror of [`FunctionParam`].
pub struct ParamV {
    pub name: Seq<char>,
    pub ty: TypeV,
    pub markers: Seq<Seq<char>>,
}

impl View for FunctionParam {
    type V = ParamV;

    open spec fn view(&self) -> ParamV {
        ParamV {
            name: self.name@,
            ty: self.ty@,
            markers: self.markers@.map_values(|m: Marker| m@),
        }
    }
}

/// A function name together with its parsed parameter list.
#[derive(Debug, Clone, PartialEq, Eq)]
pub struct FunctionNameWithParams {
    pub name: String,
    pub params: Vec<FunctionParam>,
}

/// Mathematical mirror of [`FunctionNameWithParams`].
pub struct FnHeadV {
    pub name: Seq<char>,
    pub params: Seq<ParamV>,
}

impl View for FunctionNameWithParams {
    type V = FnHeadV;

    open spec fn view(&self) -> FnHeadV {
        FnHeadV {
            name: self.name@,
            params: self.params@.map_values(|p: FunctionParam| p@),
        }
    }
}

/// A whole function declaration: name, ordered parameters, return type,
/// and the markers collected before the name and before the semicolon.
#[derive(Debug, Clone, PartialEq, Eq)]
pub struct Function {
    pub name: String,
    pub params: Vec<FunctionParam>,
    pub return_ty: Type,
    pub markers: Vec<Marker>,
}

/// Mathematical mirror of [`Function`].
pub struct FunctionV {
    pub name: Seq<char>,
    pub params: Seq<ParamV>,
    pub return_ty: TypeV,
    pub markers: Seq<Seq<char>>,
}

impl View for Function {
    type V = FunctionV;

    open spec fn view(&self) -> FunctionV {
        FunctionV {
            name: self.name@,
            params: self.params@.map_values(|p: FunctionParam| p@),
            return_ty: self.return_ty@,
            markers: self.markers@.map_values(|m: Marker| m@),
        }
    }
}

/// A character a variable name may hold: ASCII alphanumeric, underscore
/// or hyphen.
pub open spec fn is_name_char(c: char) -> bool {
    (('a' as u32) <= (c as u32) && (c as u32) <= ('z' as u32)) || (('A' as u32) <= (c as u32) && (c
        as u32) <= ('Z' as u32)) || is_digit_char(c) || c == '_' || c == '-'
}

/// An ASCII decimal digit.
pub open spec fn is_digit_char(c: char) -> bool {
    ('0' as u32) <= (c as u32) && (c as u32) <= ('9' as u32)
}

/// A valid variable or function name: non-empty, not starting with a
/// digit, made of name characters only.
pub open spec fn spec_valid_var_name(s: Seq<char>) -> bool {
    s.len() > 0 && !is_digit_char(s[0]) && forall|j: int| 0 <= j < s.len() ==> is_name_char(s[j])
}

/// Whether `name` is a valid variable or function name.
pub fn valid_var_name(name: &str) -> (b: bool)
    ensures
        b == spec_valid_var_name(name@),
{
    let n = name.unicode_len();
    if n == 0 {
        return false;
    }
    let c0 = name.get_char(0);
    if ('0' <= c0 && c0 <= '9') {
        proof {
            assert(is_digit_char(name@[0]));
        }
        return false;
    }
    let mut i: usize = 0;
    while i < n
        invariant
            0 <= i <= n,
            n == name@.len(),
            forall|j: int| 0 <= j < i ==> is_name_char(name@[j]),
        decreases n - i,
    {
        let c = name.get_char(i);
        let ok = ('a' <= c && c <= 'z') || ('A' <= c && c <= 'Z') || ('0' <= c && c <= '9') || c
            == '_' || c == '-';
        if !ok {
            proof {
                assert(!is_name_char(name@[i as int]));
            }
            return false;
        }
        i = i + 1;
    }
    proof {
        assert(!is_digit_char(name@[0]));
    }
    true
}

/// The separator-delimited tokens of `s`, in order.
pub open spec fn words(s: Seq<char>) -> Seq<Seq<char>>
    decreases s.len(),
{
    if s.len() == 0 {
        Seq::empty()
    } else if is_sep(s[0]) {
        words(s.skip(1))
    } else if word_len(s) >= s.len() {
        seq![s]
    } else {
        seq![s.subrange(0, word_len(s) as int)] + words(s.skip(word_len(s) as int))
    }
}

/// Splits `s` into the tokens [`words`] describes.
pub fn words_str(s: &str) -> (r: Vec<String>)
    ensures
        r@.map_values(|t: String| t@) == words(s@),
    decreases s@.len(),
{
    let n = s.unicode_len();
    if n == 0 {
        let r: Vec<String> = Vec::new();
        proof {
            assert(r@.map_values(|t: String| t@) =~= words(s@));
        }
        return r;
    }
    if is_sep_first(s) {
        let rest = s.substring_char(1, n);
        proof {
            assert(rest@ =~= s@.skip(1));
        }
        return words_str(rest);
    }
    let w = word_len_str(s);
    if w >= n {
        let mut r: Vec<String> = Vec::new();
        r.push(s.to_owned());
        proof {
            assert(r@.map_values(|t: String| t@) =~= words(s@));
        }
        r
    } else {
        let word = s.substring_char(0, w).to_owned();
        let rest = s.substring_char(w, n);
        proof {
            assert(rest@ =~= s@.skip(word_len(s@) as int));
        }
        let mut r = words_str(rest);
        r.insert(0, word);
        proof {
            assert(r@.map_values(|t: String| t@) =~= words(s@));
        }
        r
    }
}

/// Whether the first character of a non-empty `s` is a separator.
fn is_sep_first(s: &str) -> (b: bool)
    requires
        s@.len() > 0,
    ensures
        b == is_sep(s@[0]),
{
    let c = s.get_char(0);
    c == ' ' || c == '\n'
}

/// The parameter grammar: the tokens of the chunk are its type, zero or
/// more markers, and last the parameter name. The first token must parse
/// as a type on its own, and the last token must be a valid name; every
/// token between them is kept as a marker.
pub open spec fn spec_param(chunk: Seq<char>) -> Option<ParamV> {
    let toks = words(chunk);
    if toks.len() >= 2 {
        match spec_type(toks[0]) {
            Some(ty) => {
                let name = toks[toks.len() - 1];
                if spec_valid_var_name(name) {
                    Some(
                        ParamV {
                            name,
                            ty,
                            markers: toks.subrange(1, toks.len() - 1),
                        },
                    )
                } else {
                    None
                }
            },
            None => None,
        }
    } else {
        None
    }
}

/// Parses one comma-free parameter chunk.
pub fn parse_param(chunk: &str) -> (r: Result<FunctionParam, Error>)
    ensures
        r matches Ok(p) ==> spec_param(chunk@) == Some(p@),
        r matches Err(e) ==> spec_param(chunk@) is None && e == Error::Malformed,
{
    let toks = words_str(chunk);
    let ghost tv = chunk@;
    if toks.len() < 2 {
        return Err(Error::Malformed);
    }
    let ty = match parse_type(toks[0].as_str()) {
        Ok(t) => t,
        Err(e) => {
            proof {
                assert(words(tv)[0] == toks@.map_values(|t: String| t@)[0]);
            }
            return Err(e);
        },
    };
    proof {
        assert(words(tv)[0] == toks@.map_values(|t: String| t@)[0]);
    }
    let last = toks.len() - 1;
    let name = toks[last].as_str();
    if !valid_var_name(name) {
        proof {
            assert(words(tv)[words(tv).len() - 1] == toks@.map_values(|t: String| t@)[last as int]);
        }
        return Err(Error::Malformed);
    }
    let mut markers: Vec<Marker> = Vec::new();
    let mut i: usize = 1;
    while i < last
        invariant
            1 <= i <= last,
            last == toks@.len() - 1,
            markers@.map_values(|m: Marker| m@) =~= toks@.map_values(|t: String| t@).subrange(
                1,
                i as int,
            ),
        decreases last - i,
    {
        let m = Marker::Other(toks[i].clone());
        let ghost before = markers@;
        markers.push(m);
        proof {
            before.lemma_push_map_commute(|m2: Marker| m2@, m);
            assert(m@ == toks@[i as int]@);
            assert(toks@.map_values(|t: String| t@)[i as int] == toks@[i as int]@);
            assert(markers@.map_values(|m2: Marker| m2@) =~= toks@.map_values(
                |t: String| t@,
            ).subrange(1, i + 1));
        }
        i = i + 1;
    }
    let p = FunctionParam { name: name.to_owned(), ty, markers };
    proof {
        let tw = toks@.map_values(|t: String| t@);
        assert(words(tv)[words(tv).len() - 1] == tw[last as int]);
        assert(p@.markers =~= words(tv).subrange(1, words(tv).len() - 1));
        assert(spec_param(tv) == Some(p@));
    }
    Ok(p)
}

/// The comma-separated chunks of a parameter list body, empty chunks
/// included.
pub open spec fn split_commas(s: Seq<char>) -> Seq<Seq<char>>
    decreases s.len(),
{
    match find_char_from(s, ',', 0) {
        None => seq![s],
        Some(i) => if i < s.len() {
            seq![s.subrange(0, i as int)] + split_commas(s.skip(i + 1 as int))
        } else {
            seq![s]
        },
    }
}

/// Parses every chunk of a parameter list; one bad chunk fails the list.
pub open spec fn spec_params_list(chunks: Seq<Seq<char>>) -> Option<Seq<ParamV>>
    decreases chunks.len(),
{
    if chunks.len() == 0 {
        Some(Seq::empty())
    } else {
        match spec_param(chunks[0]) {
            Some(p) => match spec_params_list(chunks.skip(1)) {
                Some(r) => Some(seq![p] + r),
                None => None,
            },
            None => None,
        }
    }
}

/// What may follow a closed parameter list: nothing, or a whitespace run
/// that ends the line with a newline. A bare trailing space before the
/// end of input violates the strict boundary.
pub open spec fn spec_tail_ok(tail: Seq<char>) -> bool {
    tail.len() == 0 || (ws_len(tail) == tail.len() && tail[tail.len() - 1] == '\n')
}

/// The name-with-parameters grammar: `name(params)`, where the name
/// before the parenthesis must be a valid identifier, the parameter list
/// is comma-separated, an empty or `void` body means no parameters, and
/// nothing but a line ending may follow the closing parenthesis.
pub open spec fn spec_fnwp(s: Seq<char>) -> Option<FnHeadV> {
    match find_char_from(s, '(', 0) {
        None => None,
        Some(p) => {
            let name = trim(s.subrange(0, p as int));
            if !spec_valid_var_name(name) {
                None
            } else {
                match find_char_from(s, ')', (p + 1) as nat) {
                    None => None,
                    Some(q) => {
                        let body = s.subrange(p + 1 as int, q as int);
                        let tail = s.skip(q + 1 as int);
                        if !spec_tail_ok(tail) {
                            None
                        } else {
                            let bt = trim(body);
                            if bt.len() == 0 || bt == "void"@ {
                                Some(FnHeadV { name, params: Seq::empty() })
                            } else {
                                match spec_params_list(split_commas(body)) {
                                    Some(ps) => Some(FnHeadV { name, params: ps }),
                                    None => None,
                                }
                            }
                        }
                    },
                }
            }
        },
    }
}

/// Parses the comma-separated chunks of `s` as parameters.
fn parse_params_rec(s: &str) -> (r: Result<Vec<FunctionParam>, Error>)
    ensures
        r matches Ok(ps) ==> spec_params_list(split_commas(s@)) == Some(
            ps@.map_values(|p: FunctionParam| p@),
        ),
        r matches Err(e) ==> spec_params_list(split_commas(s@)) is None && e == Error::Malformed,
    decreases s@.len(),
{
    let n = s.unicode_len();
    match find_char_str(s, ',', 0) {
        None => {
            proof {
                lemma_find_char_props(s@, ',', 0);
                assert(split_commas(s@) =~= seq![s@]);
            }
            match parse_param(s) {
                Ok(p) => {
                    let mut out: Vec<FunctionParam> = Vec::new();
                    out.push(p);
                    let ghost lhs = out@.map_values(|p: FunctionParam| p@);
                    proof {
                        assert(split_commas(s@).skip(1) =~= Seq::<Seq<char>>::empty());
                        assert(split_commas(s@)[0] == s@);
                        assert(spec_params_list(Seq::<Seq<char>>::empty()) == Some(
                            Seq::<ParamV>::empty(),
                        ));
                        assert(lhs =~= seq![p@] + Seq::<ParamV>::empty());
                        assert(spec_params_list(split_commas(s@)) == Some(lhs));
                    }
                    Ok(out)
                },
                Err(e) => Err(e),
            }
        },
        Some(i) => {
            proof {
                lemma_find_char_props(s@, ',', 0);
            }
            let chunk = s.substring_char(0, i);
            let rest = s.substring_char(i + 1, n);
            proof {
                assert(chunk@ =~= s@.subrange(0, i as int));
                assert(rest@ =~= s@.skip(i + 1 as int));
                assert(split_commas(s@) =~= seq![chunk@] + split_commas(rest@));
                assert((seq![chunk@] + split_commas(rest@))[0] == chunk@);
                assert((seq![chunk@] + split_commas(rest@)).skip(1) =~= split_commas(rest@));
            }
            let p = match parse_param(chunk) {
                Ok(p) => p,
                Err(e) => {
                    return Err(e);
                },
            };
            let mut rest_ps = match parse_params_rec(rest) {
                Ok(ps) => ps,
                Err(e) => {
                    return Err(e);
                },
            };
            let mut out: Vec<FunctionParam> = Vec::new();
            out.push(p);
            let ghost rest_view = rest_ps@;
            out.append(&mut rest_ps);
            let ghost pv = p@;
            let ghost lhs = out@.map_values(|p: FunctionParam| p@);
            let ghost rhs = seq![pv] + rest_view.map_values(|p: FunctionParam| p@);
            proof {
                assert(out@ =~= seq![p] + rest_view);
                assert forall|j: int| 0 <= j < lhs.len() implies lhs[j] == rhs[j] by {
                    if j > 0 {
                        assert(out@[j] == rest_view[j - 1]);
                    }
                }
                assert(lhs =~= rhs);
                assert(spec_params_list(split_commas(s@)) == Some(rhs));
            }
            Ok(out)
        },
    }
}

/// Parses a whole window as `name(params)`.
pub fn parse_fnwp(s: &str) -> (r: Result<FunctionNameWithParams, Error>)
    ensures
        r matches Ok(h) ==> spec_fnwp(s@) == Some(h@),
        r matches Err(e) ==> spec_fnwp(s@) is None && e == Error::Malformed,
{
    let n = s.unicode_len();
    let p = match find_char_str(s, '(', 0) {
        Some(p) => p,
        None => {
            return Err(Error::Malformed);
        },
    };
    proof {
        lemma_find_char_props(s@, '(', 0);
    }
    let name_raw = s.substring_char(0, p);
    proof {
        assert(name_raw@ =~= s@.subrange(0, p as int));
    }
    let name = trim_str(name_raw);
    if !valid_var_name(name.as_str()) {
        return Err(Error::Malformed);
    }
    let q = match find_char_str(s, ')', p + 1) {
        Some(q) => q,
        None => {
            return Err(Error::Malformed);
        },
    };
    proof {
        lemma_find_char_props(s@, ')', (p + 1) as nat);
    }
    let body = s.substring_char(p + 1, q);
    let tail = s.substring_char(q + 1, n);
    proof {
        assert(body@ =~= s@.subrange(p + 1 as int, q as int));
        assert(tail@ =~= s@.skip(q + 1 as int));
    }
    let tail_len = tail.unicode_len();
    let tail_ok = if tail_len == 0 {
        true
    } else {
        let wsl = ws_len_str(tail);
        wsl == tail_len && tail.get_char(tail_len - 1) == '\n'
    };
    if !tail_ok {
        return Err(Error::Malformed);
    }
    let bt = trim_str(body);
    if bt.as_str().unicode_len() == 0 || str_eq(bt.as_str(), "void") {
        proof {
            assert(bt@.len() == 0 ==> trim(body@).len() == 0);
        }
        let params: Vec<FunctionParam> = Vec::new();
        let h = FunctionNameWithParams { name, params };
        proof {
            assert(h@.params =~= Seq::<ParamV>::empty());
        }
        return Ok(h);
    }
    match parse_params_rec(body) {
        Ok(params) => Ok(FunctionNameWithParams { name, params }),
        Err(e) => Err(e),
    }
}

/// The alternation after the return type: windows up to the next closing
/// parenthesis are tried as `name(params)`; until one matches, each
/// leading word is collected as a marker. No closing parenthesis, or no
/// word left to take, is a hard failure. Yields the head, the collected
/// markers, and the text after the closing parenthesis.
pub open spec fn spec_fn_scan(s: Seq<char>) -> Option<(FnHeadV, Seq<Seq<char>>, Seq<char>)>
    decreases s.len(),
{
    match find_char_from(s, ')', 0) {
        None => None,
        Some(q) => {
            let win = trim(s.subrange(0, q + 1 as int));
            match spec_fnwp(win) {
                Some(head) => Some((head, Seq::empty(), s.skip(q + 1 as int))),
                None => {
                    let a = ws_len(s);
                    let w = word_len(s.skip(a as int));
                    if w == 0 || a + w > s.len() {
                        None
                    } else {
                        let m = s.subrange(a as int, (a + w) as int);
                        match spec_fn_scan(s.skip((a + w) as int)) {
                            Some(t3) => Some((t3.0, seq![m] + t3.1, t3.2)),
                            None => None,
                        }
                    }
                },
            }
        },
    }
}

/// The trailing-marker phase: zero or more markers, then exactly one
/// semicolon, standing alone or glued to the last marker; after it only
/// whitespace may follow. A missing semicolon, a doubled one, or any
/// content after it fails the rule.
pub open spec fn spec_trailing(tail: Seq<char>) -> Option<Seq<Seq<char>>>
    decreases tail.len(),
{
    let a = ws_len(tail);
    let w = word_len(tail.skip(a as int));
    if w == 0 || a + w > tail.len() {
        None
    } else {
        let m = tail.subrange(a as int, (a + w) as int);
        let rest = tail.skip((a + w) as int);
        if m == seq![';'] {
            if trim(rest).len() == 0 {
                Some(Seq::empty())
            } else {
                None
            }
        } else if m[m.len() - 1] == ';' {
            let base = m.subrange(0, m.len() - 1);
            if (forall|j: int| 0 <= j < base.len() ==> base[j] != ';') && trim(rest).len() == 0 {
                Some(seq![base])
            } else {
                None
            }
        } else {
            match spec_trailing(rest) {
                Some(ms) => Some(seq![m] + ms),
                None => None,
            }
        }
    }
}

/// The function grammar: a return type token, the marker/name
/// alternation, and the trailing-marker phase up to the mandatory
/// semicolon. The markers collected on both sides are kept in order.
pub open spec fn spec_function(s: Seq<char>) -> Option<FunctionV> {
    let a = ws_len(s);
    let w = word_len(s.skip(a as int));
    if w == 0 || a + w > s.len() {
        None
    } else {
        let tok0 = s.subrange(a as int, (a + w) as int);
        match spec_type(tok0) {
            None => None,
            Some(ret) => match spec_fn_scan(s.skip((a + w) as int)) {
                None => None,
                Some(t3) => match spec_trailing(t3.2) {
                    None => None,
                    Some(tms) => Some(
                        FunctionV {
                            name: t3.0.name,
                            params: t3.0.params,
                            return_ty: ret,
                            markers: t3.1 + tms,
                        },
                    ),
                },
            },
        }
    }
}

/// First word of `s` after leading separators, with its end offset:
/// returns the word and the offset just past it.
fn take_word(s: &str) -> (r: (String, usize))
    ensures
        ({
            let a = ws_len(s@);
            let w = word_len(s@.skip(a as int));
            a + w <= s@.len() && r.0@ == s@.subrange(a as int, (a + w) as int) && r.1 == a + w
                && r.0@.len() == w
        }),
{
    let n = s.unicode_len();
    let a = ws_len_str(s);
    let rest = s.substring_char(a, n);
    proof {
        assert(rest@ =~= s@.skip(a as int));
    }
    let w = word_len_str(rest);
    let word = s.substring_char(a, a + w).to_owned();
    proof {
        assert(word@ =~= s@.subrange(a as int, (a + w) as int));
        assert(word@ =~= s@.skip(a as int).subrange(0, w as int));
    }
    (word, a + w)
}

/// Runs the marker/name alternation of [`spec_fn_scan`].
fn parse_fn_scan(s: &str) -> (r: Result<(FunctionNameWithParams, Vec<Marker>, String), Error>)
    ensures
        r matches Ok(t) ==> spec_fn_scan(s@) == Some(
            (t.0@, t.1@.map_values(|m: Marker| m@), t.2@),
        ),
        r matches Err(e) ==> spec_fn_scan(s@) is None && e == Error::Malformed,
    decreases s@.len(),
{
    let n = s.unicode_len();
    let q = match find_char_str(s, ')', 0) {
        Some(q) => q,
        None => {
            return Err(Error::Malformed);
        },
    };
    proof {
        lemma_find_char_props(s@, ')', 0);
    }
    let win_raw = s.substring_char(0, q + 1);
    proof {
        assert(win_raw@ =~= s@.subrange(0, q + 1 as int));
    }
    let win = trim_str(win_raw);
    match parse_fnwp(win.as_str()) {
        Ok(head) => {
            let tail = s.substring_char(q + 1, n).to_owned();
            let ms: Vec<Marker> = Vec::new();
            proof {
                assert(tail@ =~= s@.skip(q + 1 as int));
                assert(ms@.map_values(|m: Marker| m@) =~= Seq::<Seq<char>>::empty());
            }
            Ok((head, ms, tail))
        },
        Err(_) => {
            let (word, e) = take_word(s);
            if word.as_str().unicode_len() == 0 {
                return Err(Error::Malformed);
            }
            let rest = s.substring_char(e, n);
            proof {
                assert(rest@ =~= s@.skip(e as int));
            }
            match parse_fn_scan(rest) {
                Ok((head, mut ms, tail)) => {
                    let ghost ms_view = ms@;
                    ms.insert(0, Marker::Other(word));
                    let ghost lhs = ms@.map_values(|m: Marker| m@);
                    let ghost rhs = seq![word@] + ms_view.map_values(|m: Marker| m@);
                    proof {
                        assert(ms@ =~= seq![Marker::Other(word)] + ms_view);
                        assert forall|j: int| 0 <= j < lhs.len() implies lhs[j] == rhs[j] by {
                            if j > 0 {
                                assert(ms@[j] == ms_view[j - 1]);
                            }
                        }
                        assert(lhs =~= rhs);
                    }
                    Ok((head, ms, tail))
                },
                Err(e2) => Err(e2),
            }
        },
    }
}

/// Runs the trailing-marker phase of [`spec_trailing`].
fn parse_trailing(s: &str) -> (r: Result<Vec<Marker>, Error>)
    ensures
        r matches Ok(ms) ==> spec_trailing(s@) == Some(ms@.map_values(|m: Marker| m@)),
        r matches Err(e) ==> spec_trailing(s@) is None && e == Error::Malformed,
    decreases s@.len(),
{
    let n = s.unicode_len();
    let (word, e) = take_word(s);
    let wl = word.as_str().unicode_len();
    if wl == 0 {
        return Err(Error::Malformed);
    }
    let rest = s.substring_char(e, n);
    proof {
        assert(rest@ =~= s@.skip(e as int));
    }
    if wl == 1 && word.as_str().get_char(0) == ';' {
        proof {
            assert(word@ =~= seq![';']);
        }
        let rest_t = trim_str(rest);
        if rest_t.as_str().unicode_len() == 0 {
            let ms: Vec<Marker> = Vec::new();
            proof {
                assert(ms@.map_values(|m: Marker| m@) =~= Seq::<Seq<char>>::empty());
            }
            Ok(ms)
        } else {
            Err(Error::Malformed)
        }
    } else if word.as_str().get_char(wl - 1) == ';' {
        proof {
            assert(word@ != seq![';']) by {
                if word@.len() == 1 {
                    assert(word@[0] != ';' || word@.len() != 1);
                }
            }
        }
        let base = word.as_str().substring_char(0, wl - 1);
        proof {
            assert(base@ =~= word@.subrange(0, word@.len() - 1));
        }
        let mut has_semi = false;
        let mut i: usize = 0;
        let bl = wl - 1;
        while i < bl
            invariant
                0 <= i <= bl,
                bl == base@.len(),
                has_semi == exists|j: int| 0 <= j < i && base@[j] == ';',
            decreases bl - i,
        {
            if base.get_char(i) == ';' {
                has_semi = true;
            }
            i = i + 1;
        }
        let rest_t = trim_str(rest);
        if !has_semi && rest_t.as_str().unicode_len() == 0 {
            let mut ms: Vec<Marker> = Vec::new();
            ms.push(Marker::Other(base.to_owned()));
            proof {
                assert(ms@.map_values(|m: Marker| m@) =~= seq![base@]);
            }
            Ok(ms)
        } else {
            Err(Error::Malformed)
        }
    } else {
        proof {
            assert(word@ != seq![';']) by {
                if word@.len() == 1 {
                    assert(word@[word@.len() - 1] == word@[0]);
                }
            }
            assert(word@[word@.len() - 1] != ';');
        }
        match parse_trailing(rest) {
            Ok(mut ms) => {
                let ghost ms_view = ms@;
                ms.insert(0, Marker::Other(word));
                let ghost lhs = ms@.map_values(|m: Marker| m@);
                let ghost rhs = seq![word@] + ms_view.map_values(|m: Marker| m@);
                proof {
                    assert(ms@ =~= seq![Marker::Other(word)] + ms_view);
                    assert forall|j: int| 0 <= j < lhs.len() implies lhs[j] == rhs[j] by {
                        if j > 0 {
                            assert(ms@[j] == ms_view[j - 1]);
                        }
                    }
                    assert(lhs =~= rhs);
                }
                Ok(ms)
            },
            Err(e2) => Err(e2),
        }
    }
}

/// Parses a whole window as a function declaration.
pub fn parse_function(s: &str) -> (r: Result<Function, Error>)
    ensures
        r matches Ok(f) ==> spec_function(s@) == Some(f@),
        r matches Err(e) ==> spec_function(s@) is None && e == Error::Malformed,
{
    let n = s.unicode_len();
    let (tok0, e0) = take_word(s);
    if tok0.as_str().unicode_len() == 0 {
        return Err(Error::Malformed);
    }
    let ret = match parse_type(tok0.as_str()) {
        Ok(t) => t,
        Err(e) => {
            return Err(e);
        },
    };
    let after = s.substring_char(e0, n);
    proof {
        assert(after@ =~= s@.skip(e0 as int));
    }
    let (head, mut markers, tail) = match parse_fn_scan(after) {
        Ok(t) => t,
        Err(e) => {
            return Err(e);
        },
    };
    let mut tms = match parse_trailing(tail.as_str()) {
        Ok(ms) => ms,
        Err(e) => {
            return Err(e);
        },
    };
    let ghost lead_view = markers@;
    let ghost tms_view = tms@;
    markers.append(&mut tms);
    let f = Function { name: head.name, params: head.params, return_ty: ret, markers };
    let ghost lhs = f.markers@.map_values(|m: Marker| m@);
    let ghost rhs = lead_view.map_values(|m: Marker| m@) + tms_view.map_values(|m: Marker| m@);
    proof {
        assert(f.markers@ =~= lead_view + tms_view);
        assert forall|j: int| 0 <= j < lhs.len() implies lhs[j] == rhs[j] by {
            if j < lead_view.len() {
                assert(f.markers@[j] == lead_view[j]);
            } else {
                assert(f.markers@[j] == tms_view[j - lead_view.len()]);
            }
        }
        assert(lhs =~= rhs);
    }
    Ok(f)
}

impl Function {
    /// Drives the function rule against the walker's whole remainder;
    /// all-or-nothing as with every rule.
    pub fn drive(walker: &mut Walker) -> (r: Result<Function, Error>)
        requires
            old(walker).wf(),
        ensures
            final(walker).wf(),
            r matches Ok(f) ==> spec_function(old(walker).rem()) == Some(f@)
                && final(walker).rem() == Seq::<char>::empty(),
            r matches Err(e) ==> spec_function(old(walker).rem()) is None
                && final(walker).rem() == old(walker).rem() && e == Error::Malformed,
    {
        let s = walker.remaining_string();
        match parse_function(s.as_str()) {
            Ok(f) => {
                walker.skip_all();
                Ok(f)
            },
            Err(e) => Err(e),
        }
    }
}

impl FunctionNameWithParams {
    /// Drives the name-with-parameters rule against the walker's whole
    /// remainder; all-or-nothing as with every rule.
    pub fn drive(walker: &mut Walker) -> (r: Result<FunctionNameWithParams, Error>)
        requires
            old(walker).wf(),
        ensures
            final(walker).wf(),
            r matches Ok(h) ==> spec_fnwp(old(walker).rem()) == Some(h@)
                && final(walker).rem() == Seq::<char>::empty(),
            r matches Err(e) ==> spec_fnwp(old(walker).rem()) is None
                && final(walker).rem() == old(walker).rem() && e == Error::Malformed,
    {
        let s = walker.remaining_string();
        match parse_fnwp(s.as_str()) {
            Ok(h) => {
                walker.skip_all();
                Ok(h)
            },
            Err(e) => Err(e),
        }
    }
}

} // verus!
