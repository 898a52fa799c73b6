//! Naming normalization for enum variants: lower-camel-case conversion
//! through the `heck` crate, and a verified literal replacement used for
//! the finite table of irregular coin-type casings.

use vstd::prelude::*;

use crate::strutil::str_eq;

verus! {

/// What `heck`'s lower-camel-case conversion returns for the given
/// characters. The conversion depends on the characters alone.
pub uninterp spec fn lower_camel_of(s: Seq<char>) -> Seq<char>;

/// Relies on heck's `ToLowerCamelCase` for `str`: the result is a pure
/// function of the input characters, and an empty input gives an empty
/// output (the conversion writes one fragment per word of the input).
#[verifier::external_body]
pub fn lower_camel(s: &str) -> (r: String)
    ensures
        r@ == lower_camel_of(s@),
        s@.len() == 0 ==> r@.len() == 0,
{
    heck::ToLowerCamelCase::to_lower_camel_case(s)
}

/// `s` with every non-overlapping occurrence of `p` replaced by `r`,
/// scanning left to right; an empty pattern leaves `s` unchanged.
pub open spec fn spec_replace(s: Seq<char>, p: Seq<char>, r: Seq<char>) -> Seq<char>
    decreases s.len(),
{
    if p.len() == 0 || s.len() < p.len() {
        s
    } else if s.subrange(0, p.len() as int) == p {
        r + spec_replace(s.skip(p.len() as int), p, r)
    } else {
        seq![s[0]] + spec_replace(s.skip(1), p, r)
    }
}

/// Replaces every occurrence of `p` in `s` by `rep`, left to right.
pub fn replace_str(s: &str, p: &str, rep: &str) -> (t: String)
    ensures
        t@ == spec_replace(s@, p@, rep@),
    decreases s@.len(),
{
    let n = s.unicode_len();
    let m = p.unicode_len();
    if m == 0 || n < m {
        return s.to_owned();
    }
    if str_eq(s.substring_char(0, m), p) {
        let rest = s.substring_char(m, n);
        proof {
            assert(rest@ =~= s@.skip(p@.len() as int));
        }
        let tail = replace_str(rest, p, rep);
        rep.to_owned().concat(tail.as_str())
    } else {
        proof {
            assert(s@.subrange(0, p@.len() as int) != p@);
        }
        let rest = s.substring_char(1, n);
        proof {
            assert(rest@ =~= s@.skip(1));
        }
        let tail = replace_str(rest, p, rep);
        let head = s.substring_char(0, 1);
        proof {
            assert(head@ =~= seq![s@[0]]);
        }
        head.to_owned().concat(tail.as_str())
    }
}

/// The finite table of coin-type casing corrections: specific variant
/// names of one enum do not follow the lower-camel-case convention and
/// are rewritten after conversion.
pub open spec fn spec_coin_fix(s: Seq<char>) -> Seq<char> {
    let s1 = spec_replace(s, "xDai"@, "xdai"@);
    let s2 = spec_replace(s1, "polygonzkEvm"@, "polygonzkEVM"@);
    let s3 = spec_replace(s2, "ecoChain"@, "ecochain"@);
    let s4 = spec_replace(s3, "okxChain"@, "okxchain"@);
    let s5 = spec_replace(s4, "ioTeXevm"@, "ioTeXEVM"@);
    let s6 = spec_replace(s5, "poaNetwork"@, "poanetwork"@);
    let s7 = spec_replace(s6, "thorChain"@, "thorchain"@);
    let s8 = spec_replace(s7, "eCash"@, "ecash"@);
    spec_replace(s8, "fetchAi"@, "fetchAI"@)
}

/// Applies the coin-type casing corrections to one variant name.
pub fn coin_fix(s: &str) -> (t: String)
    ensures
        t@ == spec_coin_fix(s@),
{
    let s1 = replace_str(s, "xDai", "xdai");
    let s2 = replace_str(s1.as_str(), "polygonzkEvm", "polygonzkEVM");
    let s3 = replace_str(s2.as_str(), "ecoChain", "ecochain");
    let s4 = replace_str(s3.as_str(), "okxChain", "okxchain");
    let s5 = replace_str(s4.as_str(), "ioTeXevm", "ioTeXEVM");
    let s6 = replace_str(s5.as_str(), "poaNetwork", "poanetwork");
    let s7 = replace_str(s6.as_str(), "thorChain", "thorchain");
    let s8 = replace_str(s7.as_str(), "eCash", "ecash");
    replace_str(s8.as_str(), "fetchAi", "fetchAI")
}

} // verus!
