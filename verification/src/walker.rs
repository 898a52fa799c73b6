//! The peek-then-commit cursor over one header's text.
//!
//! A [`Walker`] scans forward from a committed position without advancing it:
//! every `read_*` method records how far it scanned as a pending length and
//! returns the token it saw, and only [`Walker::next`] advances the committed
//! position by the pending length. A grammar rule may therefore attempt a
//! read, fail, and leave the stream positioned where the rule started,
//! provided it never committed.

use vstd::prelude::*;

use crate::Error;

verus! {

/// A separator: the two whitespace characters the grammar recognizes.
pub open spec fn is_sep(c: char) -> bool {
    c == ' ' || c == '\n'
}

/// Executable separator test.
#[verifier::when_used_as_spec(is_sep)]
pub fn is_sep_char(c: char) -> (b: bool)
    ensures
        b == is_sep(c),
{
    c == ' ' || c == '\n'
}

/// Where a scan stops: at one exact character, at any separator, at the
/// first non-separator, or never (scan to the end of input).
#[derive(Debug, Clone, Copy, PartialEq, Eq, Structural)]
pub enum StopKind {
    Token(char),
    Separator,
    Content,
    Never,
}

/// Whether a scan of the given kind stops at character `c`.
pub open spec fn stops(k: StopKind, c: char) -> bool {
    match k {
        StopKind::Token(t) => c == t,
        StopKind::Separator => is_sep(c),
        StopKind::Content => !is_sep(c),
        StopKind::Never => false,
    }
}

/// Executable form of [`stops`].
#[verifier::when_used_as_spec(stops)]
pub fn stops_at(k: StopKind, c: char) -> (b: bool)
    ensures
        b == stops(k, c),
{
    match k {
        StopKind::Token(t) => c == t,
        StopKind::Separator => is_sep_char(c),
        StopKind::Content => !is_sep_char(c),
        StopKind::Never => false,
    }
}

/// Length of the maximal run of separators at the front of `s`.
pub open spec fn ws_len(s: Seq<char>) -> nat
    decreases s.len(),
{
    if s.len() > 0 && is_sep(s[0]) {
        (1 + ws_len(s.skip(1))) as nat
    } else {
        0
    }
}

/// Length of the maximal run of separators at the back of `s`.
pub open spec fn ws_len_back(s: Seq<char>) -> nat
    decreases s.len(),
{
    if s.len() > 0 && is_sep(s[s.len() - 1]) {
        (1 + ws_len_back(s.drop_last())) as nat
    } else {
        0
    }
}

/// `s` with leading and trailing separators removed.
pub open spec fn trim(s: Seq<char>) -> Seq<char> {
    if ws_len(s) == s.len() {
        Seq::empty()
    } else {
        s.subrange(ws_len(s) as int, s.len() - ws_len_back(s))
    }
}

/// Number of characters a scan of kind `k` covers when it resumes at
/// offset `i` of `s`, the stop character included.
pub open spec fn scan_len_from(s: Seq<char>, k: StopKind, i: nat) -> nat
    decreases s.len() - i,
{
    if i >= s.len() {
        s.len()
    } else if stops(k, s[i as int]) {
        (i + 1) as nat
    } else {
        scan_len_from(s, k, (i + 1) as nat)
    }
}

/// Whether a scan of kind `k` resumed at offset `i` of `s` meets its stop
/// character before the end of input.
pub open spec fn found_from(s: Seq<char>, k: StopKind, i: nat) -> bool
    decreases s.len() - i,
{
    if i >= s.len() {
        false
    } else if stops(k, s[i as int]) {
        true
    } else {
        found_from(s, k, (i + 1) as nat)
    }
}

/// Number of characters a full scan of kind `k` covers on `s`: leading
/// separators are skipped before the stop character is looked for.
pub open spec fn scan_len(s: Seq<char>, k: StopKind) -> nat {
    scan_len_from(s, k, ws_len(s))
}

/// Whether a full scan of kind `k` on `s` meets its stop character.
pub open spec fn scan_found(s: Seq<char>, k: StopKind) -> bool {
    found_from(s, k, ws_len(s))
}

/// The token a scan of kind `k` on `s` returns: the scanned prefix with
/// leading and trailing separators removed.
pub open spec fn peek_tok(s: Seq<char>, k: StopKind) -> Seq<char> {
    trim(s.subrange(0, scan_len(s, k) as int))
}

pub proof fn lemma_ws_len_props(s: Seq<char>)
    ensures
        ws_len(s) <= s.len(),
        forall|j: int| 0 <= j < ws_len(s) ==> is_sep(s[j]),
        ws_len(s) < s.len() ==> !is_sep(s[ws_len(s) as int]),
    decreases s.len(),
{
    if s.len() > 0 && is_sep(s[0]) {
        lemma_ws_len_props(s.skip(1));
        assert forall|j: int| 0 <= j < ws_len(s) implies is_sep(s[j]) by {
            if j > 0 {
                assert(s.skip(1)[j - 1] == s[j]);
            }
        }
    }
}

pub proof fn lemma_ws_len_char(s: Seq<char>, i: nat)
    requires
        i <= s.len(),
        forall|j: int| 0 <= j < i ==> is_sep(s[j]),
        i == s.len() || !is_sep(s[i as int]),
    ensures
        ws_len(s) == i,
    decreases i,
{
    if i == 0 {
        if s.len() > 0 && is_sep(s[0]) {
            assert(false);
        }
    } else {
        assert(is_sep(s[0]));
        let t = s.skip(1);
        assert forall|j: int| 0 <= j < i - 1 implies is_sep(t[j]) by {
            assert(t[j] == s[j + 1]);
        }
        if i < s.len() {
            assert(t[i - 1] == s[i as int]);
        }
        lemma_ws_len_char(t, (i - 1) as nat);
    }
}

pub proof fn lemma_ws_len_back_char(s: Seq<char>, m: nat)
    requires
        m <= s.len(),
        forall|j: int| m <= j < s.len() ==> is_sep(s[j]),
        m == 0 || !is_sep(s[m - 1]),
    ensures
        ws_len_back(s) == s.len() - m,
    decreases s.len(),
{
    if m == s.len() {
        if s.len() > 0 && is_sep(s[s.len() - 1]) {
            assert(false);
        }
    } else {
        assert(is_sep(s[s.len() - 1]));
        let t = s.drop_last();
        assert forall|j: int| m <= j < t.len() implies is_sep(t[j]) by {
            assert(t[j] == s[j]);
        }
        lemma_ws_len_back_char(t, m);
    }
}

pub proof fn lemma_scan_char(s: Seq<char>, k: StopKind, i: nat, j: nat)
    requires
        i <= j <= s.len(),
        forall|m: int| i <= m < j ==> !stops(k, s[m]),
        j == s.len() || stops(k, s[j as int]),
    ensures
        scan_len_from(s, k, i) == if j < s.len() {
            j + 1
        } else {
            s.len()
        },
        found_from(s, k, i) == (j < s.len()),
    decreases j - i,
{
    if i < j {
        assert(!stops(k, s[i as int]));
        lemma_scan_char(s, k, (i + 1) as nat, j);
    }
}

/// The back separator run fits in the string.
pub proof fn lemma_ws_len_back_le(s: Seq<char>)
    ensures
        ws_len_back(s) <= s.len(),
    decreases s.len(),
{
    if s.len() > 0 && is_sep(s[s.len() - 1]) {
        lemma_ws_len_back_le(s.drop_last());
    }
}

/// Every character in the back separator run is a separator.
proof fn lemma_ws_len_back_drop(s: Seq<char>, j: int)
    requires
        s.len() - ws_len_back(s) <= j < s.len(),
    ensures
        is_sep(s[j]),
    decreases s.len(),
{
    lemma_ws_len_back_le(s);
    if s.len() > 0 && is_sep(s[s.len() - 1]) {
        if j < s.len() - 1 {
            let t = s.drop_last();
            lemma_ws_len_back_drop(t, j);
            assert(t[j] == s[j]);
        }
    } else {
        assert(ws_len_back(s) == 0);
    }
}

/// Buffered forward-only reader with tentative reads.
///
/// `pos` is the committed position in `data`; `pending` is how many
/// characters the last read scanned past `pos` without committing them.
pub struct Walker {
    data: String,
    pos: usize,
    pending: usize,
}

impl Walker {
    /// The uncommitted remainder of the input.
    pub closed spec fn rem(self) -> Seq<char> {
        self.data@.subrange(self.pos as int, self.data@.len() as int)
    }

    /// The pending length recorded by the last read.
    pub closed spec fn pending_len(self) -> nat {
        self.pending as nat
    }

    /// Structural well-formedness: the committed position lies in the
    /// input and the pending length lies in the remainder.
    pub closed spec fn wf(self) -> bool {
        self.pos <= self.data@.len() && self.pending <= self.data@.len() - self.pos
            && self.data@.len() <= usize::MAX
    }

    pub fn new(s: &str) -> (w: Walker)
        ensures
            w.wf(),
            w.rem() == s@,
            w.pending_len() == 0,
    {
        let data = s.to_owned();
        let _n: usize = data.as_str().unicode_len();
        proof {
            assert(data@.subrange(0, data@.len() as int) =~= s@);
        }
        Walker { data, pos: 0, pending: 0 }
    }

    /// A copy of the uncommitted remainder.
    pub fn remaining_string(&self) -> (s: String)
        requires
            self.wf(),
        ensures
            s@ == self.rem(),
    {
        let n = self.data.as_str().unicode_len();
        self.data.as_str().substring_char(self.pos, n).to_owned()
    }

    /// Scans forward from the committed position: leading separators are
    /// skipped, then characters accumulate until the stop character of `k`
    /// is met or the input ends. The scanned length (stop character and
    /// skipped separators included) becomes the pending length; the token,
    /// trimmed of surrounding separators, is returned. A scan that reaches
    /// the end of input without meeting its stop character fails with
    /// `Error::Eof` unless `eof_ok` is set. The committed position never
    /// moves: repeating the same read yields the same token.
    pub fn read_until_kind(&mut self, k: StopKind, eof_ok: bool) -> (r: Result<String, Error>)
        requires
            old(self).wf(),
        ensures
            final(self).wf(),
            final(self).rem() == old(self).rem(),
            final(self).pending_len() == scan_len(old(self).rem(), k),
            (r matches Ok(t) ==> t@ == peek_tok(old(self).rem(), k)),
            (r matches Ok(t)) <==> (scan_found(old(self).rem(), k) || eof_ok),
            r matches Err(e) ==> e == Error::Eof && !scan_found(old(self).rem(), k) && !eof_ok,
    {
        let ghost s = self.rem();
        let n_total = self.data.as_str().unicode_len();
        // Phase 1: skip leading separators.
        let mut i: usize = self.pos;
        while i < n_total && is_sep_char(self.data.as_str().get_char(i))
            invariant
                self.wf(),
                self.pos <= i <= n_total,
                n_total == self.data@.len(),
                s == self.rem(),
                forall|j: int| self.pos <= j < i ==> is_sep(self.data@[j]),
            decreases n_total - i,
        {
            i = i + 1;
        }
        proof {
            assert forall|j: int| 0 <= j < i - self.pos implies is_sep(s[j]) by {
                assert(s[j] == self.data@[self.pos + j]);
            }
            if i < n_total {
                assert(s[i - self.pos] == self.data@[i as int]);
            }
            lemma_ws_len_char(s, (i - self.pos) as nat);
        }
        // Phase 2: accumulate until the stop character.
        let mut j: usize = i;
        while j < n_total && !stops_at(k, self.data.as_str().get_char(j))
            invariant
                self.wf(),
                self.pos <= i <= j <= n_total,
                n_total == self.data@.len(),
                s == self.rem(),
                i - self.pos == ws_len(s),
                forall|m: int| i - self.pos <= m < j - self.pos ==> !stops(k, s[m]),
            decreases n_total - j,
        {
            proof {
                assert(s[j - self.pos] == self.data@[j as int]);
            }
            j = j + 1;
        }
        let found = j < n_total;
        let scan_end: usize = if found {
            j + 1
        } else {
            n_total
        };
        proof {
            if j < n_total {
                assert(s[j - self.pos] == self.data@[j as int]);
            }
            lemma_scan_char(s, k, (i - self.pos) as nat, (j - self.pos) as nat);
            assert(scan_len(s, k) == scan_end - self.pos);
            assert(scan_found(s, k) == found);
        }
        self.pending = scan_end - self.pos;
        if !found && !eof_ok {
            return Err(Error::Eof);
        }
        // Trim trailing separators off the scanned window.
        let ghost w = s.subrange(0, (scan_end - self.pos) as int);
        let mut e: usize = scan_end;
        while e > i && is_sep_char(self.data.as_str().get_char(e - 1))
            invariant
                self.wf(),
                self.pos <= i <= e <= scan_end <= n_total,
                n_total == self.data@.len(),
                s == self.rem(),
                forall|j2: int| e <= j2 < scan_end ==> is_sep(self.data@[j2]),
            decreases e,
        {
            e = e - 1;
        }
        proof {
            assert forall|j2: int| e - self.pos <= j2 < w.len() implies is_sep(w[j2]) by {
                assert(w[j2] == self.data@[self.pos + j2]);
            }
            if i == scan_end {
                // The window is all separators.
                assert(e == i);
                assert forall|j2: int| 0 <= j2 < w.len() implies is_sep(w[j2]) by {}
                lemma_ws_len_char(w, w.len());
                assert(trim(w) =~= Seq::<char>::empty());
                assert(self.data@.subrange(i as int, e as int) =~= Seq::<char>::empty());
            } else {
                // The window reaches content at offset i - pos.
                assert(i < scan_end);
                assert forall|j2: int| 0 <= j2 < i - self.pos implies is_sep(w[j2]) by {
                    assert(w[j2] == self.data@[self.pos + j2]);
                    assert(s[j2] == self.data@[self.pos + j2]);
                    lemma_ws_len_props(s);
                }
                assert(w[i - self.pos] == self.data@[i as int]);
                assert(s[i - self.pos] == self.data@[i as int]);
                lemma_ws_len_props(s);
                assert(!is_sep(w[i - self.pos]));
                lemma_ws_len_char(w, (i - self.pos) as nat);
                // The back loop stopped above content: the character just
                // before e is no separator.
                assert(e > i);
                assert(w[e - self.pos - 1] == self.data@[e - 1]);
                lemma_ws_len_back_char(w, (e - self.pos) as nat);
                assert(trim(w) =~= self.data@.subrange(i as int, e as int));
            }
        }
        let t = self.data.as_str().substring_char(i, e).to_owned();
        proof {
            assert(t@ =~= trim(w));
        }
        Ok(t)
    }

    /// Reads up to and including the next occurrence of `token`; the end of
    /// input is an error.
    pub fn read_until(&mut self, token: char) -> (r: Result<String, Error>)
        requires
            old(self).wf(),
        ensures
            final(self).wf(),
            final(self).rem() == old(self).rem(),
            final(self).pending_len() == scan_len(old(self).rem(), StopKind::Token(token)),
            (r matches Ok(t) ==> t@ == peek_tok(old(self).rem(), StopKind::Token(token))),
            (r matches Ok(t)) <==> scan_found(old(self).rem(), StopKind::Token(token)),
            r matches Err(e) ==> e == Error::Eof,
    {
        self.read_until_kind(StopKind::Token(token), false)
    }

    /// Reads the next separator-delimited token; the end of input counts as
    /// a boundary, so this never fails.
    pub fn read_until_separator(&mut self) -> (r: Result<String, Error>)
        requires
            old(self).wf(),
        ensures
            final(self).wf(),
            final(self).rem() == old(self).rem(),
            final(self).pending_len() == scan_len(old(self).rem(), StopKind::Separator),
            r matches Ok(t) && t@ == peek_tok(old(self).rem(), StopKind::Separator),
    {
        let r = self.read_until_kind(StopKind::Separator, true);
        match r {
            Ok(t) => Ok(t),
            Err(e) => {
                proof {
                    assert(false);
                }
                Err(e)
            },
        }
    }

    /// Reads everything that remains, trimmed of surrounding separators.
    pub fn read_eof(&mut self) -> (r: Result<String, Error>)
        requires
            old(self).wf(),
        ensures
            final(self).wf(),
            final(self).rem() == old(self).rem(),
            final(self).pending_len() == old(self).rem().len(),
            r matches Ok(t) && t@ == trim(old(self).rem()),
    {
        let r = self.read_until_kind(StopKind::Never, true);
        proof {
            lemma_scan_never(old(self).rem());
            assert(old(self).rem().subrange(0, old(self).rem().len() as int) =~= old(self).rem());
        }
        match r {
            Ok(t) => Ok(t),
            Err(e) => {
                proof {
                    assert(false);
                }
                Err(e)
            },
        }
    }

    /// Fails with a malformed-input error unless only separators remain.
    /// The whole remainder becomes pending either way.
    pub fn ensure_eof(&mut self) -> (r: Result<(), Error>)
        requires
            old(self).wf(),
        ensures
            final(self).wf(),
            final(self).rem() == old(self).rem(),
            final(self).pending_len() == old(self).rem().len(),
            (r matches Ok(u)) <==> trim(old(self).rem()) == Seq::<char>::empty(),
            r matches Err(e) ==> e == Error::Malformed,
    {
        let r = self.read_eof();
        match r {
            Ok(t) => {
                if t.as_str().unicode_len() == 0 {
                    proof {
                        assert(t@ =~= Seq::<char>::empty());
                    }
                    Ok(())
                } else {
                    Err(Error::Malformed)
                }
            },
            Err(e) => {
                proof {
                    assert(false);
                }
                Err(Error::Malformed)
            },
        }
    }

    /// Commits the pending length: the stream advances past what the last
    /// read scanned, and the pending length resets to zero.
    pub fn next(&mut self)
        requires
            old(self).wf(),
        ensures
            final(self).wf(),
            final(self).rem() == old(self).rem().skip(old(self).pending_len() as int),
            final(self).pending_len() == 0,
    {
        self.pos = self.pos + self.pending;
        self.pending = 0;
        proof {
            assert(self.data@.subrange(self.pos as int, self.data@.len() as int) =~= old(
                self,
            ).rem().skip(old(self).pending_len() as int));
        }
    }

    /// Consumes the whole remainder in one step.
    pub fn skip_all(&mut self)
        requires
            old(self).wf(),
        ensures
            final(self).wf(),
            final(self).rem() == Seq::<char>::empty(),
            final(self).pending_len() == 0,
    {
        let n = self.data.as_str().unicode_len();
        self.pos = n;
        self.pending = 0;
        proof {
            assert(self.data@.subrange(self.data@.len() as int, self.data@.len() as int)
                =~= Seq::<char>::empty());
        }
    }
}

/// A scan that never stops covers the whole input and finds nothing.
pub proof fn lemma_scan_never(s: Seq<char>)
    ensures
        scan_len(s, StopKind::Never) == s.len(),
        !scan_found(s, StopKind::Never),
{
    lemma_ws_len_props(s);
    lemma_scan_never_from(s, ws_len(s));
}

proof fn lemma_scan_never_from(s: Seq<char>, i: nat)
    requires
        i <= s.len(),
    ensures
        scan_len_from(s, StopKind::Never, i) == s.len(),
        !found_from(s, StopKind::Never, i),
    decreases s.len() - i,
{
    if i < s.len() {
        lemma_scan_never_from(s, (i + 1) as nat);
    }
}

/// Reading without committing does not move the stream, so the same read
/// repeated returns the same token: the token is a function of the
/// uncommitted remainder and the stop kind alone.
pub proof fn lemma_peek_idempotent(w0: Walker, w1: Walker, k: StopKind)
    requires
        w1.rem() == w0.rem(),
    ensures
        peek_tok(w1.rem(), k) == peek_tok(w0.rem(), k),
        scan_len(w1.rem(), k) == scan_len(w0.rem(), k),
{
}

} // verus!
