use vstd::prelude::*;

verus! {

/// Whether a character is ASCII whitespace, the only whitespace the record
/// formats use: space, tab, line feed, form feed, carriage return.
pub open spec fn is_ws(c: char) -> bool {
    c == ' ' || c == '\t' || c == '\n' || c == '\x0c' || c == '\r'
}

/// Executable twin of `is_ws`.
pub fn ws_char(c: char) -> (r: bool)
    ensures
        r == is_ws(c),
{
    c == ' ' || c == '\t' || c == '\n' || c == '\x0c' || c == '\r'
}

/// Length of the leading run of characters whose whitespace-ness is `in_ws`.
pub open spec fn run_len(s: Seq<char>, in_ws: bool) -> nat
    decreases s.len(),
{
    if s.len() == 0 {
        0
    } else if is_ws(s[0]) == in_ws {
        (1 + run_len(s.subrange(1, s.len() as int), in_ws)) as nat
    } else {
        0
    }
}

/// A run length is pinned down by its two boundary facts: everything before
/// index `k` is in the run and, unless the whole sequence is, index `k` is not.
pub proof fn lemma_run_len_is(s: Seq<char>, in_ws: bool, k: int)
    requires
        0 <= k <= s.len(),
        forall|j: int| 0 <= j < k ==> is_ws(s[j]) == in_ws,
        k < s.len() ==> is_ws(s[k]) != in_ws,
    ensures
        run_len(s, in_ws) == k,
    decreases s.len(),
{
    if k == 0 {
    } else {
        let t = s.subrange(1, s.len() as int);
        assert forall|j: int| 0 <= j < k - 1 implies is_ws(t[j]) == in_ws by {
            assert(t[j] == s[j + 1]);
        };
        if k - 1 < t.len() {
            assert(t[k - 1] == s[k]);
        }
        lemma_run_len_is(t, in_ws, k - 1);
    }
}

/// The basic facts about a leading run: it stays within the sequence,
/// everything in it matches, and the character after it (if any) does not.
pub proof fn lemma_run_len_bounds(s: Seq<char>, in_ws: bool)
    ensures
        run_len(s, in_ws) <= s.len(),
        forall|j: int| 0 <= j < run_len(s, in_ws) ==> is_ws(s[j]) == in_ws,
        run_len(s, in_ws) < s.len() ==> is_ws(s[run_len(s, in_ws) as int]) != in_ws,
    decreases s.len(),
{
    if s.len() > 0 && is_ws(s[0]) == in_ws {
        let t = s.subrange(1, s.len() as int);
        lemma_run_len_bounds(t, in_ws);
        assert forall|j: int| 0 <= j < run_len(s, in_ws) implies is_ws(s[j]) == in_ws by {
            if j > 0 {
                assert(t[j - 1] == s[j]);
            }
        };
        if run_len(s, in_ws) < s.len() {
            assert(t[run_len(t, in_ws) as int] == s[run_len(s, in_ws) as int]);
        }
    }
}

/// The token at the head of `s`: its longest whitespace-free prefix.
pub open spec fn next_token(s: Seq<char>) -> Seq<char> {
    s.subrange(0, run_len(s, false) as int)
}

/// What remains of `s` after the head token and the whitespace run behind it.
pub open spec fn rest_after_token(s: Seq<char>) -> Seq<char> {
    let t = s.subrange(run_len(s, false) as int, s.len() as int);
    t.subrange(run_len(t, true) as int, t.len() as int)
}

/// `s` with its leading whitespace removed.
pub open spec fn skip_ws(s: Seq<char>) -> Seq<char> {
    s.subrange(run_len(s, true) as int, s.len() as int)
}

/// Length of the trailing whitespace run of `s`.
pub open spec fn ws_suffix_len(s: Seq<char>) -> nat
    decreases s.len(),
{
    if s.len() == 0 {
        0
    } else if is_ws(s[s.len() - 1]) {
        (1 + ws_suffix_len(s.subrange(0, s.len() - 1))) as nat
    } else {
        0
    }
}

/// The trailing whitespace run stays within the sequence.
pub proof fn lemma_ws_suffix_le(s: Seq<char>)
    ensures
        ws_suffix_len(s) <= s.len(),
    decreases s.len(),
{
    if s.len() > 0 && is_ws(s[s.len() - 1]) {
        lemma_ws_suffix_le(s.subrange(0, s.len() - 1));
    }
}

/// The trailing-run twin of `lemma_run_len_is`.
pub proof fn lemma_ws_suffix_is(s: Seq<char>, k: int)
    requires
        0 <= k <= s.len(),
        forall|j: int| s.len() - k <= j < s.len() ==> is_ws(s[j]),
        k < s.len() ==> !is_ws(s[s.len() - k - 1]),
    ensures
        ws_suffix_len(s) == k,
    decreases s.len(),
{
    if s.len() == 0 {
    } else if k == 0 {
    } else {
        let t = s.subrange(0, s.len() - 1);
        assert forall|j: int| t.len() - (k - 1) <= j < t.len() implies is_ws(t[j]) by {
            assert(t[j] == s[j]);
        };
        if k - 1 < t.len() {
            assert(t[t.len() - (k - 1) - 1] == s[s.len() - k - 1]);
        }
        lemma_ws_suffix_is(t, k - 1);
    }
}

/// `s` with ASCII whitespace removed from both ends.
pub open spec fn trim_spec(s: Seq<char>) -> Seq<char> {
    let t = skip_ws(s);
    t.subrange(0, t.len() - ws_suffix_len(t))
}

/// Removes ASCII whitespace from both ends of a line, as the record reader
/// does before splitting a record into its fields.
pub fn trim_str<'a>(s: &'a str) -> (r: &'a str)
    ensures
        r@ == trim_spec(s@),
{
    let n = s.unicode_len();
    let mut start: usize = 0;
    while start < n && ws_char(s.get_char(start))
        invariant
            n == s@.len(),
            start <= n,
            forall|j: int| 0 <= j < start ==> is_ws(s@[j]),
        decreases n - start,
    {
        start = start + 1;
    }
    proof {
        lemma_run_len_is(s@, true, start as int);
    }
    let mut end: usize = n;
    while end > start && ws_char(s.get_char(end - 1))
        invariant
            n == s@.len(),
            start <= end <= n,
            forall|j: int| end <= j < n ==> is_ws(s@[j]),
        decreases end,
    {
        end = end - 1;
    }
    let r = s.substring_char(start, end);
    proof {
        let t = skip_ws(s@);
        assert(t =~= s@.subrange(start as int, n as int));
        assert forall|j: int| t.len() - (n - end) <= j < t.len() implies is_ws(t[j]) by {
            assert(t[j] == s@[j + start]);
        };
        if ((n - end) as int) < t.len() {
            assert(t[t.len() - (n - end) - 1] == s@[end - 1]);
        }
        lemma_ws_suffix_is(t, (n - end) as int);
        assert(r@ =~= trim_spec(s@));
    }
    r
}

/// The first `n` whitespace-separated fields of `s`, which must already
/// carry no leading whitespace: the `n`-th field is the whole remainder,
/// embedded whitespace and all, so a short line simply yields empty
/// trailing fields rather than fewer of them.
pub open spec fn split_n(s: Seq<char>, n: nat) -> Seq<Seq<char>>
    decreases n,
{
    if n == 0 {
        Seq::empty()
    } else if n == 1 {
        seq![s]
    } else {
        seq![next_token(s)] + split_n(rest_after_token(s), (n - 1) as nat)
    }
}

/// A split into `n` fields always has exactly `n` of them.
pub proof fn lemma_split_n_len(s: Seq<char>, n: nat)
    ensures
        split_n(s, n).len() == n,
    decreases n,
{
    if n > 1 {
        lemma_split_n_len(rest_after_token(s), (n - 1) as nat);
    }
}

/// A bounded whitespace splitter: hands out up to `times` fields of the
/// line it was given, the last of which is the whole remainder.
pub struct SplitWhitespaceN<'a> {
    pub remaining: &'a str,
    pub times: usize,
}

/// Builds a splitter over `data` with its leading whitespace skipped.
pub fn split_whitespace_n<'a>(data: &'a str, times: usize) -> (r: SplitWhitespaceN<'a>)
    ensures
        r.remaining@ == skip_ws(data@),
        r.times == times,
{
    SplitWhitespaceN::new(data, times)
}

impl<'a> SplitWhitespaceN<'a> {
    /// See `split_whitespace_n`.
    pub fn new(data: &'a str, times: usize) -> (r: SplitWhitespaceN<'a>)
        ensures
            r.remaining@ == skip_ws(data@),
            r.times == times,
    {
        let n = data.unicode_len();
        let mut start: usize = 0;
        while start < n && ws_char(data.get_char(start))
            invariant
                n == data@.len(),
                start <= n,
                forall|j: int| 0 <= j < start ==> is_ws(data@[j]),
            decreases n - start,
        {
            start = start + 1;
        }
        proof {
            lemma_run_len_is(data@, true, start as int);
        }
        let remaining = data.substring_char(start, n);
        proof {
            assert(remaining@ =~= skip_ws(data@));
        }
        SplitWhitespaceN { remaining, times }
    }

    /// Hands out the next field: `None` once `times` fields have been
    /// produced; the whole remainder when one production is left; and
    /// otherwise the head token, consuming it and the whitespace behind it.
    pub fn next(&mut self) -> (r: Option<&'a str>)
        ensures
            old(self).times == 0 ==> r is None && *final(self) == *old(self),
            old(self).times == 1 ==> (r matches Some(t) && t@ == old(self).remaining@
                && final(self).times == 0 && final(self).remaining@ == old(self).remaining@),
            old(self).times > 1 ==> (r matches Some(t) && t@ == next_token(old(self).remaining@)
                && final(self).times == old(self).times - 1
                && final(self).remaining@ == rest_after_token(old(self).remaining@)),
    {
        if self.times > 0 {
            self.times = self.times - 1;
            if self.times == 0 {
                Some(self.remaining)
            } else {
                let rem = self.remaining;
                let n = rem.unicode_len();
                let mut end: usize = 0;
                while end < n && !ws_char(rem.get_char(end))
                    invariant
                        n == rem@.len(),
                        end <= n,
                        forall|j: int| 0 <= j < end ==> !is_ws(rem@[j]),
                    decreases n - end,
                {
                    end = end + 1;
                }
                proof {
                    lemma_run_len_is(rem@, false, end as int);
                }
                let tok = rem.substring_char(0, end);
                let mut ns: usize = end;
                while ns < n && ws_char(rem.get_char(ns))
                    invariant
                        n == rem@.len(),
                        end <= ns <= n,
                        forall|j: int| end <= j < ns ==> is_ws(rem@[j]),
                    decreases n - ns,
                {
                    ns = ns + 1;
                }
                self.remaining = rem.substring_char(ns, n);
                proof {
                    let t = rem@.subrange(end as int, n as int);
                    assert forall|j: int| 0 <= j < ns - end implies is_ws(t[j]) by {
                        assert(t[j] == rem@[j + end]);
                    };
                    if (ns as int - end as int) < t.len() {
                        assert(t[ns as int - end as int] == rem@[ns as int]);
                    }
                    lemma_run_len_is(t, true, ns as int - end as int);
                    assert(tok@ =~= next_token(rem@));
                    assert(self.remaining@ =~= rest_after_token(rem@));
                }
                Some(tok)
            }
        } else {
            None
        }
    }
}

} // verus!
