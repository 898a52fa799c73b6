//! The top-level scan: one header's text becomes an ordered sequence of
//! items. Comment and preprocessor lines are recognized and skipped;
//! every other line is speculatively parsed as a function declaration up
//! to its terminating semicolon, and a line that is no function is kept
//! as one opaque token so that a single malformed declaration never
//! aborts the scan of the rest of the file.

use vstd::prelude::*;

use crate::Error;
use crate::function::{Function, FunctionV, parse_function, spec_function};
use crate::strutil::{starts_with_seq, starts_with_str};
use crate::tokens::Other;
use crate::walker::{Walker, StopKind, peek_tok, scan_len, scan_found, scan_len_from, ws_len,
    lemma_ws_len_props};

verus! {

/// One top-level item of a header file.
#[derive(Debug, Clone, PartialEq, Eq)]
pub enum AstVariants {
    Function(Function),
    Other(Other),
}

/// Mathematical mirror of [`AstVariants`].
pub enum AstItemV {
    Function(FunctionV),
    Other(Seq<char>),
}

impl View for AstVariants {
    type V = AstItemV;

    open spec fn view(&self) -> AstItemV {
        match self {
            AstVariants::Function(f) => AstItemV::Function(f@),
            AstVariants::Other(o) => AstItemV::Other(o@),
        }
    }
}

/// The ordered items of one header file, in source order.
#[derive(Debug, Clone, PartialEq, Eq)]
pub struct Ast {
    pub list: Vec<AstVariants>,
}

impl View for Ast {
    type V = Seq<AstItemV>;

    open spec fn view(&self) -> Seq<AstItemV> {
        self.list@.map_values(|v: AstVariants| v@)
    }
}

/// Every scan covers at least one character of a non-empty input and
/// never more than the whole input.
pub proof fn lemma_scan_len_range(s: Seq<char>, k: StopKind)
    ensures
        scan_len(s, k) <= s.len(),
        s.len() > 0 ==> scan_len(s, k) >= 1,
{
    lemma_ws_len_props(s);
    lemma_scan_len_from_range(s, k, ws_len(s));
}

pub proof fn lemma_scan_len_from_range(s: Seq<char>, k: StopKind, i: nat)
    requires
        i <= s.len(),
    ensures
        scan_len_from(s, k, i) <= s.len(),
        i < s.len() ==> scan_len_from(s, k, i) >= i + 1,
        i == s.len() ==> scan_len_from(s, k, i) == s.len(),
    decreases s.len() - i,
{
    if i < s.len() && !crate::walker::stops(k, s[i as int]) {
        lemma_scan_len_from_range(s, k, (i + 1) as nat);
    }
}

/// The top-level scan, line by line. An empty (or all-separator)
/// remainder ends the scan. A line starting with a double slash or a
/// hash (a comment or preprocessor line) is skipped. Otherwise the
/// window up to the next semicolon is parsed as a function declaration;
/// on success it is consumed whole, on failure the line's first token is
/// kept as an opaque item and the line is skipped. A remainder with no
/// semicolon at all ends the scan.
pub open spec fn spec_ast(s: Seq<char>) -> Seq<AstItemV>
    decreases s.len(),
{
    let line = peek_tok(s, StopKind::Token('\n'));
    let ll = scan_len(s, StopKind::Token('\n'));
    if s.len() == 0 || line.len() == 0 {
        Seq::empty()
    } else if ll < 1 || ll > s.len() {
        // Scans stay within these bounds; the branch only grounds the
        // recursion.
        Seq::empty()
    } else if starts_with_seq(line, "//"@) || line[0] == '#' {
        spec_ast(s.skip(ll as int))
    } else if !scan_found(s, StopKind::Token(';')) {
        Seq::empty()
    } else {
        let dl = scan_len(s, StopKind::Token(';'));
        let w = peek_tok(s, StopKind::Token(';'));
        match spec_function(w) {
            Some(f) => if 1 <= dl <= s.len() {
                seq![AstItemV::Function(f)] + spec_ast(s.skip(dl as int))
            } else {
                Seq::empty()
            },
            None => seq![AstItemV::Other(peek_tok(s, StopKind::Separator))] + spec_ast(
                s.skip(ll as int),
            ),
        }
    }
}

impl Ast {
    pub fn new() -> (a: Ast)
        ensures
            a@ == Seq::<AstItemV>::empty(),
    {
        let a = Ast { list: Vec::new() };
        proof {
            assert(a@ =~= Seq::<AstItemV>::empty());
        }
        a
    }

    pub fn push(&mut self, variant: AstVariants)
        ensures
            final(self)@ == old(self)@.push(variant@),
    {
        let ghost before = self.list@;
        self.list.push(variant);
        proof {
            before.lemma_push_map_commute(|v: AstVariants| v@, variant);
        }
    }

    /// Drives the top-level scan over the walker's whole remainder. The
    /// scan never fails: a malformed line becomes an opaque item, and
    /// the scan ends cleanly at the end of input.
    pub fn drive(walker: &mut Walker) -> (r: Result<Ast, Error>)
        requires
            old(walker).wf(),
        ensures
            final(walker).wf(),
            r matches Ok(a) && a@ == spec_ast(old(walker).rem()),
    {
        let ghost orig = walker.rem();
        let mut ast = Ast::new();
        loop
            invariant
                walker.wf(),
                spec_ast(orig) =~= ast@ + spec_ast(walker.rem()),
            ensures
                walker.wf(),
                spec_ast(orig) =~= ast@ + spec_ast(walker.rem()),
                spec_ast(walker.rem()) =~= Seq::<AstItemV>::empty(),
            decreases walker.rem().len(),
        {
            let ghost rem0 = walker.rem();
            let line = match walker.read_until_kind(StopKind::Token('\n'), true) {
                Ok(t) => t,
                Err(e) => {
                    proof {
                        assert(false);
                    }
                    break ;
                },
            };
            if line.as_str().unicode_len() == 0 {
                proof {
                    assert(spec_ast(rem0) =~= Seq::<AstItemV>::empty());
                }
                break ;
            }
            proof {
                lemma_scan_len_range(rem0, StopKind::Token('\n'));
                if rem0.len() == 0 {
                    assert(scan_len(rem0, StopKind::Token('\n')) == 0);
                    assert(rem0.subrange(0, 0) =~= Seq::<char>::empty());
                    assert(peek_tok(rem0, StopKind::Token('\n')).len() == 0);
                    assert(false);
                }
            }
            let skip_line = starts_with_str(line.as_str(), "//") || line.as_str().get_char(0)
                == '#';
            if skip_line {
                walker.next();
            } else {
                let decl = walker.read_until(';');
                match decl {
                    Err(_) => {
                        proof {
                            assert(spec_ast(rem0) =~= Seq::<AstItemV>::empty());
                        }
                        break ;
                    },
                    Ok(wtok) => {
                        match parse_function(wtok.as_str()) {
                            Ok(f) => {
                                proof {
                                    lemma_scan_len_range(rem0, StopKind::Token(';'));
                                }
                                let ghost item = AstVariants::Function(f)@;
                                ast.push(AstVariants::Function(f));
                                walker.next();
                                proof {
                                    assert(spec_ast(rem0) =~= seq![item] + spec_ast(
                                        walker.rem(),
                                    ));
                                    assert(ast@ + spec_ast(walker.rem()) =~= spec_ast(orig));
                                }
                            },
                            Err(_) => {
                                let tok = match walker.read_until_separator() {
                                    Ok(t) => t,
                                    Err(e) => {
                                        proof {
                                            assert(false);
                                        }
                                        break ;
                                    },
                                };
                                let ghost item = AstItemV::Other(tok@);
                                ast.push(AstVariants::Other(Other(tok)));
                                let _line2 = walker.read_until_kind(StopKind::Token('\n'), true);
                                walker.next();
                                proof {
                                    assert(spec_ast(rem0) =~= seq![item] + spec_ast(
                                        walker.rem(),
                                    ));
                                    assert(ast@ + spec_ast(walker.rem()) =~= spec_ast(orig));
                                }
                            },
                        }
                    },
                }
            }
        }
        proof {
            assert(ast@ =~= spec_ast(orig));
        }
        Ok(ast)
    }
}

} // verus!
