//! A second, simpler reader: each read consumes what the previous read
//! returned and hands back the raw scanned prefix, untrimmed. Keyword
//! reads trim line endings off the token but keep the stream exact.

use vstd::prelude::*;

use crate::Error;
use crate::walker::{StopKind, scan_len_from, stops, ws_len_back, lemma_scan_char,
    lemma_ws_len_back_char, lemma_ws_len_back_le};

verus! {

/// The raw prefix a [`WalkerTwo`] read covers on remainder `s`: up to
/// and including the stop character of `k`, or everything when no stop
/// occurs.
pub open spec fn raw_scan_len(s: Seq<char>, k: StopKind) -> nat {
    scan_len_from(s, k, 0)
}

/// `s` with its trailing separator run removed.
pub open spec fn drop_ws_back(s: Seq<char>) -> Seq<char> {
    s.subrange(0, s.len() - ws_len_back(s))
}

/// The raw prefix a read with the stop set `ts` covers on `s` when it
/// resumes at offset `i`.
pub open spec fn one_of_scan_from(s: Seq<char>, ts: Seq<char>, i: nat) -> nat
    decreases s.len() - i,
{
    if i >= s.len() {
        s.len()
    } else if ts.contains(s[i as int]) {
        (i + 1) as nat
    } else {
        one_of_scan_from(s, ts, (i + 1) as nat)
    }
}

/// The raw prefix a read with the stop set `ts` covers on `s`.
pub open spec fn one_of_scan_len(s: Seq<char>, ts: Seq<char>) -> nat {
    one_of_scan_from(s, ts, 0)
}

pub proof fn lemma_one_of_scan_char(s: Seq<char>, ts: Seq<char>, i: nat, j: nat)
    requires
        i <= j <= s.len(),
        forall|m: int| i <= m < j ==> !ts.contains(s[m]),
        j == s.len() || ts.contains(s[j as int]),
    ensures
        one_of_scan_from(s, ts, i) == if j < s.len() {
            j + 1
        } else {
            s.len()
        },
    decreases j - i,
{
    if i < j {
        lemma_one_of_scan_char(s, ts, (i + 1) as nat, j);
    }
}

/// Whether `c` occurs in the slice `ts`.
fn slice_contains(ts: &[char], c: char) -> (b: bool)
    ensures
        b == ts@.contains(c),
{
    let n = ts.len();
    let mut i: usize = 0;
    while i < n
        invariant
            0 <= i <= n,
            n == ts@.len(),
            forall|j: int| 0 <= j < i ==> ts@[j] != c,
        decreases n - i,
    {
        if ts[i] == c {
            return true;
        }
        i = i + 1;
    }
    false
}

/// Forward-only reader whose reads consume the previous read's data.
///
/// `pos` is the committed position in `data`; `amt` is how much the last
/// read returned, consumed by the next read before it scans.
pub struct WalkerTwo {
    data: String,
    pos: usize,
    amt: usize,
}

impl WalkerTwo {
    /// The text at and after the committed position.
    pub closed spec fn rem(self) -> Seq<char> {
        self.data@.subrange(self.pos as int, self.data@.len() as int)
    }

    /// What the last read returned and the next read will consume.
    pub closed spec fn amt_read(self) -> nat {
        self.amt as nat
    }

    /// Structural well-formedness.
    pub closed spec fn wf(self) -> bool {
        self.pos <= self.data@.len() && self.amt <= self.data@.len() - self.pos && self.data@.len()
            <= usize::MAX
    }

    /// The pending amount never exceeds the remainder.
    pub proof fn lemma_wf_bounds(self)
        requires
            self.wf(),
        ensures
            self.amt_read() <= self.rem().len(),
    {
    }

    pub fn new(s: &str) -> (w: WalkerTwo)
        ensures
            w.wf(),
            w.rem() == s@,
            w.amt_read() == 0,
    {
        let data = s.to_owned();
        let _n: usize = data.as_str().unicode_len();
        proof {
            assert(data@.subrange(0, data@.len() as int) =~= s@);
        }
        WalkerTwo { data, pos: 0, amt: 0 }
    }

    /// A fresh reader over everything not yet committed; the pending
    /// amount of this reader is dropped without being consumed.
    pub fn soft_clone(&mut self) -> (w: WalkerTwo)
        requires
            old(self).wf(),
        ensures
            final(self).wf(),
            final(self).rem() == old(self).rem(),
            final(self).amt_read() == 0,
            w.wf(),
            w.rem() == old(self).rem(),
            w.amt_read() == 0,
    {
        let n = self.data.as_str().unicode_len();
        let rest = self.data.as_str().substring_char(self.pos, n).to_owned();
        self.amt = 0;
        let _m: usize = rest.as_str().unicode_len();
        let w = WalkerTwo { data: rest, pos: 0, amt: 0 };
        proof {
            assert(w.rem() =~= old(self).rem());
        }
        w
    }

    /// Consumes the previous read's data, then reads up to and including
    /// the first character the stop kind `k` matches. At the end of
    /// input the read returns `None` when `allow_eof` is set and fails
    /// with `Error::Eof` otherwise.
    pub fn read_until_kind(&mut self, k: StopKind, allow_eof: bool) -> (r: Result<
        Option<String>,
        Error,
    >)
        requires
            old(self).wf(),
        ensures
            final(self).wf(),
            ({
                let s1 = old(self).rem().skip(old(self).amt_read() as int);
                let n = raw_scan_len(s1, k);
                &&& final(self).rem() == s1
                &&& if s1.len() == 0 {
                    final(self).amt_read() == 0 && if allow_eof {
                        r matches Ok(t) && t is None
                    } else {
                        (r matches Err(e) && e == Error::Eof)
                    }
                } else {
                    final(self).amt_read() == n && (r matches Ok(t) && (t matches Some(tok)
                        && tok@ == s1.subrange(0, n as int)))
                }
            }),
    {
        self.pos = self.pos + self.amt;
        self.amt = 0;
        let ghost s1 = self.rem();
        proof {
            assert(s1 =~= old(self).rem().skip(old(self).amt_read() as int));
        }
        let n_total = self.data.as_str().unicode_len();
        let mut j: usize = self.pos;
        while j < n_total && !crate::walker::stops_at(k, self.data.as_str().get_char(j))
            invariant
                self.wf(),
                self.pos <= j <= n_total,
                n_total == self.data@.len(),
                s1 == self.rem(),
                self.amt == 0,
                forall|m: int| self.pos <= m < j ==> !stops(k, self.data@[m]),
            decreases n_total - j,
        {
            j = j + 1;
        }
        proof {
            assert forall|m: int| 0 <= m < j - self.pos implies !stops(k, s1[m]) by {
                assert(s1[m] == self.data@[self.pos + m]);
            }
            if j < n_total {
                assert(s1[j - self.pos] == self.data@[j as int]);
            }
            lemma_scan_char(s1, k, 0, (j - self.pos) as nat);
        }
        let scan_end: usize = if j < n_total {
            j + 1
        } else {
            n_total
        };
        let n = scan_end - self.pos;
        if n == 0 {
            if allow_eof {
                return Ok(None);
            } else {
                return Err(Error::Eof);
            }
        }
        self.amt = n;
        let tok = self.data.as_str().substring_char(self.pos, scan_end).to_owned();
        proof {
            assert(tok@ =~= s1.subrange(0, n as int));
        }
        Ok(Some(tok))
    }

    /// Reads up to and including the next occurrence of `token`; the end
    /// of input is an error.
    pub fn read_until(&mut self, token: char) -> (r: Result<Option<String>, Error>)
        requires
            old(self).wf(),
        ensures
            final(self).wf(),
            ({
                let s1 = old(self).rem().skip(old(self).amt_read() as int);
                let n = raw_scan_len(s1, StopKind::Token(token));
                &&& final(self).rem() == s1
                &&& if s1.len() == 0 {
                    final(self).amt_read() == 0 && (r matches Err(e) && e == Error::Eof)
                } else {
                    final(self).amt_read() == n && (r matches Ok(t) && (t matches Some(tok)
                        && tok@ == s1.subrange(0, n as int)))
                }
            }),
    {
        self.read_until_kind(StopKind::Token(token), false)
    }

    /// Reads up to and including the first character among `tokens`.
    pub fn read_until_one_of(&mut self, tokens: &[char], allow_eof: bool) -> (r: Result<
        Option<String>,
        Error,
    >)
        requires
            old(self).wf(),
        ensures
            final(self).wf(),
            ({
                let s1 = old(self).rem().skip(old(self).amt_read() as int);
                let n = one_of_scan_len(s1, tokens@);
                &&& final(self).rem() == s1
                &&& if s1.len() == 0 {
                    final(self).amt_read() == 0 && if allow_eof {
                        r matches Ok(t) && t is None
                    } else {
                        (r matches Err(e) && e == Error::Eof)
                    }
                } else {
                    final(self).amt_read() == n && (r matches Ok(t) && (t matches Some(tok)
                        && tok@ == s1.subrange(0, n as int)))
                }
            }),
    {
        self.pos = self.pos + self.amt;
        self.amt = 0;
        let ghost s1 = self.rem();
        proof {
            assert(s1 =~= old(self).rem().skip(old(self).amt_read() as int));
        }
        let n_total = self.data.as_str().unicode_len();
        let mut j: usize = self.pos;
        while j < n_total && !slice_contains(tokens, self.data.as_str().get_char(j))
            invariant
                self.wf(),
                self.pos <= j <= n_total,
                n_total == self.data@.len(),
                s1 == self.rem(),
                self.amt == 0,
                forall|m: int| self.pos <= m < j ==> !tokens@.contains(self.data@[m]),
            decreases n_total - j,
        {
            j = j + 1;
        }
        proof {
            assert forall|m: int| 0 <= m < j - self.pos implies !tokens@.contains(s1[m]) by {
                assert(s1[m] == self.data@[self.pos + m]);
            }
            if j < n_total {
                assert(s1[j - self.pos] == self.data@[j as int]);
            }
            lemma_one_of_scan_char(s1, tokens@, 0, (j - self.pos) as nat);
        }
        let scan_end: usize = if j < n_total {
            j + 1
        } else {
            n_total
        };
        let n = scan_end - self.pos;
        if n == 0 {
            if allow_eof {
                return Ok(None);
            } else {
                return Err(Error::Eof);
            }
        }
        self.amt = n;
        let tok = self.data.as_str().substring_char(self.pos, scan_end).to_owned();
        proof {
            assert(tok@ =~= s1.subrange(0, n as int));
        }
        Ok(Some(tok))
    }

    /// Consumes the previous read, skips the separator run in front of
    /// the next word, and reads that word; the token comes back with its
    /// trailing separator removed. `None` marks the end of input.
    pub fn read_keyword(&mut self) -> (r: Result<Option<String>, Error>)
        requires
            old(self).wf(),
        ensures
            final(self).wf(),
            ({
                let s1 = old(self).rem().skip(old(self).amt_read() as int);
                let n1 = raw_scan_len(s1, StopKind::Content);
                let a1 = if n1 > 0 {
                    (n1 - 1) as nat
                } else {
                    0
                };
                let s2 = s1.skip(a1 as int);
                let n2 = raw_scan_len(s2, StopKind::Separator);
                &&& final(self).rem() == s2
                &&& if s2.len() == 0 {
                    final(self).amt_read() == 0 && (r matches Ok(t) && t is None)
                } else {
                    final(self).amt_read() == n2 && (r matches Ok(t) && (t matches Some(tok)
                        && tok@ == drop_ws_back(s2.subrange(0, n2 as int))))
                }
            }),
    {
        let step1 = self.read_until_kind(StopKind::Content, true);
        match step1 {
            Ok(_) => {},
            Err(e) => {
                proof {
                    assert(false);
                }
                return Err(e);
            },
        }
        if self.amt > 0 {
            self.amt = self.amt - 1;
        }
        let step2 = self.read_until_kind(StopKind::Separator, true);
        match step2 {
            Ok(Some(tok)) => {
                let t = trim_end_str(tok.as_str());
                Ok(Some(t))
            },
            Ok(None) => Ok(None),
            Err(e) => {
                proof {
                    assert(false);
                }
                Err(e)
            },
        }
    }
}

/// `s` with its trailing separator run removed, as an owned string.
fn trim_end_str(s: &str) -> (t: String)
    ensures
        t@ == drop_ws_back(s@),
{
    let n = s.unicode_len();
    let mut e: usize = n;
    while e > 0 && crate::walker::is_sep_char(s.get_char(e - 1))
        invariant
            0 <= e <= n,
            n == s@.len(),
            forall|j: int| e <= j < n ==> crate::walker::is_sep(s@[j]),
        decreases e,
    {
        e = e - 1;
    }
    proof {
        lemma_ws_len_back_char(s@, e as nat);
        lemma_ws_len_back_le(s@);
    }
    let t = s.substring_char(0, e).to_owned();
    proof {
        assert(t@ =~= drop_ws_back(s@));
    }
    t
}

} // verus!
