use vstd::prelude::*;
use vstd::utf8::*;
use vstd::string::*;
use crate::text::{append_str, byte_slice};

verus! {

#[verifier::external_type_specification]
#[verifier::external_body]
pub struct ExRegex(regress::Regex);

/// Whether `regress` accepts `pattern` with `flags` (what `Regex::with_flags` decides).
pub uninterp spec fn regex_compiles(pattern: Seq<char>, flags: Seq<char>) -> bool;

/// The byte ranges of the successive matches that `regress` yields for the
/// regex built from `pattern` and `flags`, searching `text` from its start
/// (what `Regex::find_iter` produces).
pub uninterp spec fn regex_match_ranges(pattern: Seq<char>, flags: Seq<char>, text: Seq<char>) -> Seq<(usize, usize)>;

/// Match ranges lie inside `bytes`, start and end on character boundaries,
/// and come in order without overlapping.
pub open spec fn ranges_well_formed(ms: Seq<(usize, usize)>, bytes: Seq<u8>) -> bool {
    &&& forall|i: int| 0 <= i < ms.len() ==> #[trigger] ms[i].0 <= ms[i].1 <= bytes.len()
    &&& forall|i: int|
        0 <= i < ms.len() ==> is_char_boundary(bytes, #[trigger] ms[i].0 as int)
            && is_char_boundary(bytes, ms[i].1 as int)
    &&& forall|i: int, j: int| 0 <= i < j < ms.len() ==> #[trigger] ms[i].1 <= #[trigger] ms[j].0
}

/// The reason `regress` gave for refusing a pattern.
#[derive(Debug)]
pub struct PatternError {
    pub message: String,
}

/// A regular expression compiled by `regress`, together with the pattern and
/// flags it was compiled from.
pub struct CompiledPattern {
    source: String,
    flags: String,
    regex: regress::Regex,
}

impl CompiledPattern {
    /// The pattern this regex was compiled from.
    pub closed spec fn source(&self) -> Seq<char> {
        self.source@
    }

    /// The flags this regex was compiled with.
    pub closed spec fn flags(&self) -> Seq<char> {
        self.flags@
    }

    /// Compiles `pattern` with `flags` (JavaScript flag letters such as `"i"`).
    pub fn new(pattern: &str, flags: &str) -> (res: Result<CompiledPattern, PatternError>)
        ensures
            res is Ok <==> regex_compiles(pattern@, flags@),
            res matches Ok(p) ==> p.source() == pattern@ && p.flags() == flags@,
    {
        regex_with_flags(pattern, flags)
    }

    /// The match ranges of this regex in `text`, first to last.
    pub fn find_all(&self, text: &str) -> (res: Vec<(usize, usize)>)
        ensures
            res@ == regex_match_ranges(self.source(), self.flags(), text@),
            ranges_well_formed(res@, text.spec_bytes()),
    {
        regex_find_iter(self, text)
    }

    /// Whether this regex matches somewhere in `text`.
    pub fn is_found_in(&self, text: &str) -> (res: bool)
        ensures
            res == (regex_match_ranges(self.source(), self.flags(), text@).len() > 0),
    {
        regex_find(self, text).is_some()
    }
}

/// Calls `regress::Regex::with_flags(pattern, flags)`. Trusted: it succeeds
/// exactly when the name `regex_compiles` holds, and on success the pattern
/// and flags are kept beside the compiled regex. The error text is not stated.
#[verifier::external_body]
fn regex_with_flags(pattern: &str, flags: &str) -> (res: Result<CompiledPattern, PatternError>)
    ensures
        res is Ok <==> regex_compiles(pattern@, flags@),
        res matches Ok(p) ==> p.source() == pattern@ && p.flags() == flags@,
{
    match regress::Regex::with_flags(pattern, flags) {
        Ok(regex) => Ok(CompiledPattern { source: pattern.to_string(), flags: flags.to_string(), regex }),
        Err(e) => Err(PatternError { message: e.text }),
    }
}

/// Calls `regress::Regex::find_iter` and collects each match's byte range.
/// Trusted: the ranges are the named `regex_match_ranges` of the regex's pattern
/// and flags on `text`; as the `regress` source shows (a UTF-8 input indexer that
/// moves by code points, a search that resumes at the previous match's end or one
/// character past an empty match), they lie on character boundaries inside
/// `text`, in order and without overlap.
#[verifier::external_body]
fn regex_find_iter(p: &CompiledPattern, text: &str) -> (res: Vec<(usize, usize)>)
    ensures
        res@ == regex_match_ranges(p.source(), p.flags(), text@),
        ranges_well_formed(res@, text.spec_bytes()),
{
    p.regex.find_iter(text).map(|m| (m.range.start, m.range.end)).collect()
}

/// Calls `regress::Regex::find`, which `regress` defines as the first item of
/// `find_iter`. Trusted: it finds a match exactly when the named match ranges
/// are not empty.
#[verifier::external_body]
fn regex_find(p: &CompiledPattern, text: &str) -> (res: Option<(usize, usize)>)
    ensures
        res is Some <==> regex_match_ranges(p.source(), p.flags(), text@).len() > 0,
        res matches Some(m) ==> m == regex_match_ranges(p.source(), p.flags(), text@)[0],
{
    p.regex.find(text).map(|m| (m.range.start, m.range.end))
}


/// One step of a search through a haystack: a matched range, a range that
/// holds no match, or the end of the search.
#[derive(Debug, Clone, Copy, PartialEq, Eq, Structural)]
pub enum SearchStep {
    Match(usize, usize),
    Reject(usize, usize),
    Done,
}

/// The full sequence of steps of a search that starts at byte `pos`, with the
/// matches `ms` still ahead, in a haystack of `len` bytes: each match is
/// preceded by a rejected range for the gap before it, and a final rejected
/// range covers what follows the last match.
pub open spec fn search_steps(pos: int, ms: Seq<(usize, usize)>, len: int) -> Seq<SearchStep>
    decreases ms.len(),
{
    if ms.len() == 0 {
        if pos < len {
            seq![SearchStep::Reject(pos as usize, len as usize)]
        } else {
            seq![]
        }
    } else {
        let m = ms[0];
        let gap = if pos < m.0 {
            seq![SearchStep::Reject(pos as usize, m.0)]
        } else {
            seq![]
        };
        gap + seq![SearchStep::Match(m.0, m.1)] + search_steps(m.1 as int, ms.drop_first(), len)
    }
}

/// Where a step's range starts.
pub open spec fn step_start(st: SearchStep) -> int {
    match st {
        SearchStep::Match(s, _) | SearchStep::Reject(s, _) => s as int,
        SearchStep::Done => 0,
    }
}

/// Where a step's range ends.
pub open spec fn step_end(st: SearchStep) -> int {
    match st {
        SearchStep::Match(_, e) | SearchStep::Reject(_, e) => e as int,
        SearchStep::Done => 0,
    }
}

/// The ranges of the `Match` steps, in order.
pub open spec fn matched_ranges(st: Seq<SearchStep>) -> Seq<(usize, usize)>
    decreases st.len(),
{
    if st.len() == 0 {
        seq![]
    } else {
        match st[0] {
            SearchStep::Match(s, e) => seq![(s, e)] + matched_ranges(st.drop_first()),
            _ => matched_ranges(st.drop_first()),
        }
    }
}

/// `matched_ranges` of a concatenation.
pub proof fn lemma_matched_ranges_concat(a: Seq<SearchStep>, b: Seq<SearchStep>)
    ensures
        matched_ranges(a + b) == matched_ranges(a) + matched_ranges(b),
    decreases a.len(),
{
    if a.len() == 0 {
        assert(a + b =~= b);
        assert(matched_ranges(a) + matched_ranges(b) =~= matched_ranges(b));
    } else {
        lemma_matched_ranges_concat(a.drop_first(), b);
        assert((a + b).drop_first() =~= a.drop_first() + b);
        assert((a + b)[0] == a[0]);
        match a[0] {
            SearchStep::Match(s, e) => {
                assert(seq![(s, e)] + (matched_ranges(a.drop_first()) + matched_ranges(b))
                    =~= seq![(s, e)] + matched_ranges(a.drop_first()) + matched_ranges(b));
            },
            _ => {},
        }
    }
}

/// The steps of a search tile the haystack: they are never `Done`, each
/// range is non-empty unless it is a match, the first starts where the
/// search starts, each starts where the one before it ends, the last ends at
/// the end of the haystack, and the `Match` steps are exactly the matches, in
/// order.
pub proof fn lemma_search_steps_tile(pos: int, ms: Seq<(usize, usize)>, len: int)
    requires
        0 <= pos <= len <= usize::MAX,
        forall|i: int| 0 <= i < ms.len() ==> (#[trigger] ms[i]).0 <= ms[i].1 <= len,
        forall|i: int, j: int| 0 <= i < j < ms.len() ==> #[trigger] ms[i].1 <= #[trigger] ms[j].0,
        ms.len() > 0 ==> pos <= ms[0].0,
    ensures
        ({
            let st = search_steps(pos, ms, len);
            &&& st.len() == 0 <==> (ms.len() == 0 && pos == len)
            &&& st.len() > 0 ==> step_start(st[0]) == pos && step_end(st[st.len() - 1]) == len
            &&& forall|k: int| 0 <= k < st.len() - 1 ==> #[trigger] step_end(st[k]) == step_start(st[k + 1])
            &&& forall|k: int| 0 <= k < st.len() ==> st[k] !is Done && step_start(#[trigger] st[k]) <= step_end(st[k])
            &&& forall|k: int| 0 <= k < st.len() ==> (#[trigger] st[k] is Reject ==> step_start(st[k]) < step_end(st[k]))
            &&& matched_ranges(st) == ms
        }),
    decreases ms.len(),
{
    let st = search_steps(pos, ms, len);
    if ms.len() == 0 {
        if pos < len {
            let r = SearchStep::Reject(pos as usize, len as usize);
            assert(st == seq![r]);
            assert(seq![r].drop_first() =~= Seq::<SearchStep>::empty());
            assert(matched_ranges(Seq::<SearchStep>::empty()) =~= Seq::<(usize, usize)>::empty());
            assert(matched_ranges(seq![r]) =~= Seq::<(usize, usize)>::empty());
        }
    } else {
        let m = ms[0];
        let rest_ms = ms.drop_first();
        let gap = if pos < m.0 {
            seq![SearchStep::Reject(pos as usize, m.0)]
        } else {
            seq![]
        };
        let mid = seq![SearchStep::Match(m.0, m.1)];
        let rest = search_steps(m.1 as int, rest_ms, len);
        assert forall|i: int| 0 <= i < rest_ms.len() implies (#[trigger] rest_ms[i]).0 <= rest_ms[i].1 <= len by {
            assert(rest_ms[i] == ms[i + 1]);
        }
        assert forall|i: int, j: int| 0 <= i < j < rest_ms.len() implies #[trigger] rest_ms[i].1 <= #[trigger] rest_ms[j].0 by {
            assert(rest_ms[i] == ms[i + 1]);
            assert(rest_ms[j] == ms[j + 1]);
        }
        if rest_ms.len() > 0 {
            assert(rest_ms[0] == ms[1]);
        }
        lemma_search_steps_tile(m.1 as int, rest_ms, len);
        assert(st == gap + mid + rest);
        let head = gap + mid;
        assert(head.len() >= 1);
        assert(head[head.len() - 1] == SearchStep::Match(m.0, m.1));
        assert forall|k: int| 0 <= k < st.len() - 1 implies #[trigger] step_end(st[k]) == step_start(st[k + 1]) by {
            if k < head.len() - 1 {
                assert(gap.len() == 1 && k == 0);
            } else if k == head.len() - 1 {
                assert(st[k] == SearchStep::Match(m.0, m.1));
                assert(st[k + 1] == rest[0]);
            } else {
                assert(st[k] == rest[k - head.len()]);
                assert(st[k + 1] == rest[k - head.len() + 1]);
            }
        }
        assert forall|k: int| 0 <= k < st.len() implies st[k] !is Done && step_start(#[trigger] st[k]) <= step_end(st[k]) by {
            if k >= head.len() {
                assert(st[k] == rest[k - head.len()]);
            }
        }
        assert forall|k: int| 0 <= k < st.len() && #[trigger] st[k] is Reject implies step_start(st[k]) < step_end(st[k]) by {
            if k >= head.len() {
                assert(st[k] == rest[k - head.len()]);
            }
        }
        if rest.len() > 0 {
            assert(st[st.len() - 1] == rest[rest.len() - 1]);
        }
        lemma_matched_ranges_concat(head, rest);
        lemma_matched_ranges_concat(gap, mid);
        assert(mid.drop_first() =~= Seq::<SearchStep>::empty());
        assert(matched_ranges(Seq::<SearchStep>::empty()) =~= Seq::<(usize, usize)>::empty());
        assert(matched_ranges(mid) =~= seq![(m.0, m.1)]);
        if pos < m.0 {
            assert(gap.drop_first() =~= Seq::<SearchStep>::empty());
            assert(matched_ranges(gap) =~= Seq::<(usize, usize)>::empty());
        } else {
            assert(matched_ranges(gap) =~= Seq::<(usize, usize)>::empty());
        }
        assert(ms =~= seq![(m.0, m.1)] + rest_ms);
        assert(matched_ranges(st) =~= ms);
    }
}

/// The steps of a search begin and end on character boundaries, and no two
/// rejected ranges follow each other: a rejected range is followed by a match
/// or ends the search.
pub proof fn lemma_search_steps_shape(pos: int, ms: Seq<(usize, usize)>, bytes: Seq<u8>)
    requires
        0 <= pos <= bytes.len() <= usize::MAX,
        is_char_boundary(bytes, pos),
        is_char_boundary(bytes, bytes.len() as int),
        ranges_well_formed(ms, bytes),
        ms.len() > 0 ==> pos <= ms[0].0,
    ensures
        ({
            let st = search_steps(pos, ms, bytes.len() as int);
            &&& forall|k: int|
                0 <= k < st.len() ==> is_char_boundary(bytes, step_start(#[trigger] st[k]))
                    && is_char_boundary(bytes, step_end(st[k]))
            &&& forall|k: int| 0 <= k < st.len() - 1 ==> !(#[trigger] st[k] is Reject && st[k + 1] is Reject)
        }),
    decreases ms.len(),
{
    let len = bytes.len() as int;
    let st = search_steps(pos, ms, len);
    if ms.len() > 0 {
        let m = ms[0];
        let rest_ms = ms.drop_first();
        let gap = if pos < m.0 {
            seq![SearchStep::Reject(pos as usize, m.0)]
        } else {
            seq![]
        };
        let mid = seq![SearchStep::Match(m.0, m.1)];
        let rest = search_steps(m.1 as int, rest_ms, len);
        assert forall|i: int| 0 <= i < rest_ms.len() implies (#[trigger] rest_ms[i]).0 <= rest_ms[i].1 <= bytes.len() by {
            assert(rest_ms[i] == ms[i + 1]);
        }
        assert forall|i: int| 0 <= i < rest_ms.len() implies is_char_boundary(bytes, #[trigger] rest_ms[i].0 as int)
            && is_char_boundary(bytes, rest_ms[i].1 as int) by {
            assert(rest_ms[i] == ms[i + 1]);
        }
        assert forall|i: int, j: int| 0 <= i < j < rest_ms.len() implies #[trigger] rest_ms[i].1 <= #[trigger] rest_ms[j].0 by {
            assert(rest_ms[i] == ms[i + 1]);
            assert(rest_ms[j] == ms[j + 1]);
        }
        if rest_ms.len() > 0 {
            assert(rest_ms[0] == ms[1]);
            assert(ms[0].1 <= ms[1].0);
        }
        assert(is_char_boundary(bytes, m.0 as int) && is_char_boundary(bytes, m.1 as int));
        lemma_search_steps_shape(m.1 as int, rest_ms, bytes);
        assert(st == gap + mid + rest);
        let head = gap + mid;
        assert forall|k: int| 0 <= k < st.len() implies is_char_boundary(bytes, step_start(#[trigger] st[k]))
            && is_char_boundary(bytes, step_end(st[k])) by {
            if k >= head.len() {
                assert(st[k] == rest[k - head.len()]);
            }
        }
        assert forall|k: int| 0 <= k < st.len() - 1 implies !(#[trigger] st[k] is Reject && st[k + 1] is Reject) by {
            if k >= head.len() {
                assert(st[k] == rest[k - head.len()]);
                assert(st[k + 1] == rest[k + 1 - head.len()]);
            } else if k == head.len() - 1 {
                assert(st[k] == SearchStep::Match(m.0, m.1));
            } else {
                assert(k == 0 && gap.len() == 1);
                assert(st[1] == SearchStep::Match(m.0, m.1));
            }
        }
    }
}

/// A regex used as a search pattern over a haystack.
pub struct RegexPattern<'r>(pub &'r CompiledPattern);

/// The state of a search of one regex through one haystack.
pub struct RegexSearcher<'t> {
    haystack: &'t str,
    matches: Vec<(usize, usize)>,
    next_index: usize,
    last_step_end: usize,
    next_match: Option<(usize, usize)>,
}

impl<'r> RegexPattern<'r> {
    /// Starts a search of this regex through `haystack`.
    pub fn into_searcher<'t>(self, haystack: &'t str) -> (searcher: RegexSearcher<'t>)
        ensures
            searcher.wf(),
            searcher.haystack() == haystack,
            searcher.pending_steps() == search_steps(
                0,
                regex_match_ranges(self.0.source(), self.0.flags(), haystack@),
                haystack.spec_bytes().len() as int,
            ),
            searcher.pending_matches() == regex_match_ranges(
                self.0.source(),
                self.0.flags(),
                haystack@,
            ),
            searcher.position() == 0,
    {
        let matches = self.0.find_all(haystack);
        // The byte length of a `str` fits in a `usize`.
        let haystack_len = haystack.as_bytes().len();
        proof {
            assert(haystack_len == haystack.spec_bytes().len());
            encode_utf8_valid_utf8(haystack@);
            is_char_boundary_start_end_of_seq(haystack.spec_bytes());
        }
        let searcher = RegexSearcher {
            haystack,
            matches,
            next_index: 0,
            last_step_end: 0,
            next_match: None,
        };
        proof {
            assert(searcher.remaining() =~= matches@);
        }
        searcher
    }
}

impl<'t> RegexSearcher<'t> {
    /// The text being searched.
    pub closed spec fn haystack(&self) -> &'t str {
        self.haystack
    }

    /// The byte offset up to which steps have been handed out.
    pub closed spec fn position(&self) -> int {
        self.last_step_end as int
    }

    closed spec fn remaining(&self) -> Seq<(usize, usize)> {
        self.matches@.skip(self.next_index as int)
    }

    /// The matches not yet handed out as `Match` steps.
    pub closed spec fn pending_matches(&self) -> Seq<(usize, usize)> {
        match self.next_match {
            Some(m) => seq![m] + self.remaining(),
            None => self.remaining(),
        }
    }

    /// The steps this search has still to hand out, `Done` not included.
    pub closed spec fn pending_steps(&self) -> Seq<SearchStep> {
        let len = self.haystack.spec_bytes().len() as int;
        match self.next_match {
            Some(m) => seq![SearchStep::Match(m.0, m.1)] + search_steps(
                m.1 as int,
                self.remaining(),
                len,
            ),
            None => search_steps(self.last_step_end as int, self.remaining(), len),
        }
    }

    /// The searcher's invariant.
    pub closed spec fn wf(&self) -> bool {
        let bytes = self.haystack.spec_bytes();
        let rem = self.remaining();
        &&& ranges_well_formed(self.matches@, bytes)
        &&& self.next_index <= self.matches@.len()
        &&& self.last_step_end <= bytes.len()
        &&& bytes.len() <= usize::MAX
        &&& is_char_boundary(bytes, self.last_step_end as int)
        &&& match self.next_match {
            Some(m) => {
                &&& self.next_index > 0
                &&& m == self.matches@[self.next_index - 1]
                &&& self.last_step_end == m.0
            },
            None => rem.len() > 0 ==> self.last_step_end <= rem[0].0,
        }
        &&& self.next_index > 0 && self.next_match is None ==> self.last_step_end
            >= self.matches@[self.next_index - 1].1
    }

    /// What the invariant gives about the matches still ahead: they are well
    /// formed and none starts before the current position, which is a
    /// character boundary.
    pub proof fn lemma_pending(&self)
        requires
            self.wf(),
        ensures
            ranges_well_formed(self.pending_matches(), self.haystack().spec_bytes()),
            self.pending_matches().len() > 0 ==> self.position() <= self.pending_matches()[0].0,
            0 <= self.position() <= self.haystack().spec_bytes().len(),
            is_char_boundary(self.haystack().spec_bytes(), self.position()),
            self.haystack().spec_bytes().len() <= usize::MAX,
    {
        let pm = self.pending_matches();
        let ms = self.matches@;
        let k = self.next_index as int;
        match self.next_match {
            Some(m) => {
                assert(pm =~= ms.subrange(k - 1, ms.len() as int));
            },
            None => {
                assert(pm =~= ms.subrange(k, ms.len() as int));
            },
        }
    }

    /// The steps a search has still to hand out (`next` gives them one by one,
    /// then `Done` on every later call) tile the haystack from the current
    /// position to its end: each starts where the one before it ends, all
    /// on character boundaries; every rejected range is non-empty and no two
    /// of them follow each other; and the `Match` steps are exactly the
    /// matches still ahead, in order. For a fresh search the position is 0
    /// and the matches ahead are all of the regex's matches.
    pub proof fn lemma_pending_steps_tile(&self)
        requires
            self.wf(),
        ensures
            ({
                let st = self.pending_steps();
                let bytes = self.haystack().spec_bytes();
                &&& st.len() == 0 <==> (self.pending_matches().len() == 0 && self.position() == bytes.len())
                &&& st.len() > 0 ==> step_start(st[0]) == self.position() && step_end(st[st.len() - 1])
                    == bytes.len()
                &&& forall|k: int| 0 <= k < st.len() - 1 ==> #[trigger] step_end(st[k]) == step_start(st[k + 1])
                &&& forall|k: int|
                    0 <= k < st.len() ==> st[k] !is Done && step_start(#[trigger] st[k]) <= step_end(st[k])
                &&& forall|k: int| 0 <= k < st.len() ==> (#[trigger] st[k] is Reject ==> step_start(st[k]) < step_end(st[k]))
                &&& forall|k: int|
                    0 <= k < st.len() ==> is_char_boundary(bytes, step_start(#[trigger] st[k]))
                        && is_char_boundary(bytes, step_end(st[k]))
                &&& forall|k: int| 0 <= k < st.len() - 1 ==> !(#[trigger] st[k] is Reject && st[k + 1] is Reject)
                &&& matched_ranges(st) == self.pending_matches()
            }),
    {
        self.lemma_pending();
        let bytes = self.haystack.spec_bytes();
        let len = bytes.len() as int;
        let pm = self.pending_matches();
        encode_utf8_valid_utf8(self.haystack@);
        is_char_boundary_start_end_of_seq(bytes);
        match self.next_match {
            Some(m) => {
                let gap: Seq<SearchStep> = seq![];
                assert(pm[0] == m);
                assert(pm.drop_first() =~= self.remaining());
                assert(search_steps(self.position(), pm, len) =~= gap + seq![SearchStep::Match(m.0, m.1)]
                    + search_steps(m.1 as int, self.remaining(), len));
                assert(self.pending_steps() =~= search_steps(self.position(), pm, len));
            },
            None => {},
        }
        assert(self.pending_steps() == search_steps(self.position(), pm, len));
        assert forall|i: int| 0 <= i < pm.len() implies (#[trigger] pm[i]).0 <= pm[i].1 <= len by {}
        lemma_search_steps_tile(self.position(), pm, len);
        lemma_search_steps_shape(self.position(), pm, bytes);
    }

    /// The haystack of this search.
    pub fn haystack_str(&self) -> (h: &'t str)
        ensures
            h == self.haystack(),
    {
        self.haystack
    }

    /// Hands out the next step of the search: the steps come in the order
    /// `pending_steps` lists them, and `Done` once none is left.
    pub fn next(&mut self) -> (step: SearchStep)
        requires
            old(self).wf(),
        ensures
            final(self).wf(),
            final(self).haystack() == old(self).haystack(),
            step is Done <==> old(self).pending_steps().len() == 0,
            step is Done ==> old(self).pending_steps() == Seq::<SearchStep>::empty(),
            step is Done ==> final(self).pending_steps() == Seq::<SearchStep>::empty(),
            step is Done ==> final(self).pending_matches() == Seq::<(usize, usize)>::empty(),
            step is Done ==> final(self).position() == old(self).position(),
            final(self).position() >= old(self).position(),
            step !is Done ==> old(self).pending_steps() == seq![step] + final(self).pending_steps(),
            step matches SearchStep::Match(s, e) ==> old(self).pending_matches() == seq![(s, e)]
                + final(self).pending_matches(),
            !(step is Match) ==> final(self).pending_matches() == old(self).pending_matches(),
            step matches SearchStep::Match(s, e) ==> final(self).position() == e && old(self).position() == s,
            step matches SearchStep::Reject(s, e) ==> final(self).position() == e && old(self).position() == s,
    {
        let ghost bytes = self.haystack.spec_bytes();
        let ghost len = bytes.len() as int;
        proof {
            encode_utf8_valid_utf8(self.haystack@);
            is_char_boundary_start_end_of_seq(bytes);
        }
        if let Some((s, e)) = self.next_match {
            self.next_match = None;
            self.last_step_end = e;
            proof {
                let rem = self.remaining();
                if rem.len() > 0 {
                    assert(rem[0] == self.matches@[self.next_index as int]);
                }
            }
            return SearchStep::Match(s, e);
        }
        if self.next_index >= self.matches.len() {
            let len_now = self.haystack.as_bytes().len();
            if self.last_step_end < len_now {
                let last = self.last_step_end;
                self.last_step_end = len_now;
                proof {
                    assert(old(self).remaining().len() == 0);
                    assert(self.remaining().len() == 0);
                    assert(search_steps(last as int, self.remaining(), len) == seq![SearchStep::Reject(last, len_now)]);
                    assert(search_steps(len_now as int, self.remaining(), len) == Seq::<SearchStep>::empty());
                    assert(seq![SearchStep::Reject(last, len_now)] =~= seq![SearchStep::Reject(last, len_now)] + Seq::<SearchStep>::empty());
                }
                SearchStep::Reject(last, len_now)
            } else {
                proof {
                    assert(old(self).remaining().len() == 0);
                    assert(search_steps(self.last_step_end as int, self.remaining(), len) == Seq::<SearchStep>::empty());
                }
                SearchStep::Done
            }
        } else {
            let (s, e) = self.matches[self.next_index];
            proof {
                assert(old(self).remaining()[0] == (s, e));
                assert(old(self).remaining().drop_first() =~= self.matches@.skip(
                    self.next_index + 1,
                ));
            }
            self.next_index = self.next_index + 1;
            if s == self.last_step_end {
                self.last_step_end = e;
                proof {
                    let rem = self.remaining();
                    if rem.len() > 0 {
                        assert(rem[0] == self.matches@[self.next_index as int]);
                    }
                }
                SearchStep::Match(s, e)
            } else {
                self.next_match = Some((s, e));
                let last = self.last_step_end;
                self.last_step_end = s;
                SearchStep::Reject(last, s)
            }
        }
    }
}

/// The bytes of `bytes` from `pos` on, with each range of `ms` replaced by `to`.
pub open spec fn replaced_bytes(bytes: Seq<u8>, pos: int, ms: Seq<(usize, usize)>, to: Seq<u8>) -> Seq<u8>
    decreases ms.len(),
{
    if ms.len() == 0 {
        bytes.subrange(pos, bytes.len() as int)
    } else {
        bytes.subrange(pos, ms[0].0 as int) + to + replaced_bytes(
            bytes,
            ms[0].1 as int,
            ms.drop_first(),
            to,
        )
    }
}

/// Where the text before match `k` of `ms` starts: at the start of the text
/// for the first match, else where the match before it ends.
pub open spec fn gap_start(ms: Seq<(usize, usize)>, k: int) -> int {
    if k == 0 {
        0
    } else {
        ms[k - 1].1 as int
    }
}

/// The first `n` matches of `ms` in `bytes` written out: for each, the text
/// between it and the match before it, then one copy of `to`.
pub open spec fn with_matches_written(bytes: Seq<u8>, ms: Seq<(usize, usize)>, to: Seq<u8>, n: int) -> Seq<u8>
    decreases n,
{
    if n <= 0 {
        seq![]
    } else {
        with_matches_written(bytes, ms, to, n - 1) + bytes.subrange(gap_start(ms, n - 1), ms[n - 1].0 as int)
            + to
    }
}

/// Replacing every match writes, for each match in turn, the text before it
/// (from where the previous match ended) and one copy of `to` in its place,
/// and then the text after the last match: the text with each match range
/// removed and `to` written where it was, one copy per match.
pub proof fn lemma_replaced_bytes_writes_each_match(bytes: Seq<u8>, ms: Seq<(usize, usize)>, to: Seq<u8>)
    ensures
        replaced_bytes(bytes, 0, ms, to) == with_matches_written(bytes, ms, to, ms.len() as int)
            + bytes.subrange(gap_start(ms, ms.len() as int), bytes.len() as int),
{
    lemma_matches_written_up_to(bytes, ms, to, ms.len() as int);
    assert(ms.skip(ms.len() as int) =~= Seq::<(usize, usize)>::empty());
}

/// Replacing is the first `k` matches written out, then the replacing of
/// the rest from where match `k - 1` ends.
proof fn lemma_matches_written_up_to(bytes: Seq<u8>, ms: Seq<(usize, usize)>, to: Seq<u8>, k: int)
    requires
        0 <= k <= ms.len(),
    ensures
        replaced_bytes(bytes, 0, ms, to) == with_matches_written(bytes, ms, to, k) + replaced_bytes(
            bytes,
            gap_start(ms, k),
            ms.skip(k),
            to,
        ),
    decreases k,
{
    if k == 0 {
        assert(ms.skip(0) =~= ms);
        assert(with_matches_written(bytes, ms, to, 0) + replaced_bytes(bytes, 0, ms, to) =~= replaced_bytes(
            bytes,
            0,
            ms,
            to,
        ));
    } else {
        lemma_matches_written_up_to(bytes, ms, to, k - 1);
        let rest = ms.skip(k - 1);
        assert(rest[0] == ms[k - 1]);
        assert(rest.drop_first() =~= ms.skip(k));
        assert(with_matches_written(bytes, ms, to, k - 1) + replaced_bytes(bytes, gap_start(ms, k - 1), rest, to)
            =~= with_matches_written(bytes, ms, to, k) + replaced_bytes(bytes, gap_start(ms, k), ms.skip(k), to));
    }
}

/// With no match, replacing gives back the text as it is.
pub proof fn lemma_replaced_without_matches(bytes: Seq<u8>, to: Seq<u8>)
    ensures
        replaced_bytes(bytes, 0, Seq::<(usize, usize)>::empty(), to) == bytes,
{
    assert(bytes.subrange(0, bytes.len() as int) =~= bytes);
}

/// Replaces every match of `from` in `text` by `to`, scanning the matches
/// left to right as the search hands them out.
pub fn replace(text: &str, from: RegexPattern, to: &str) -> (res: String)
    ensures
        encode_utf8(res@) == replaced_bytes(
            text.spec_bytes(),
            0,
            regex_match_ranges(from.0.source(), from.0.flags(), text@),
            to.spec_bytes(),
        ),
        ({
            let ms = regex_match_ranges(from.0.source(), from.0.flags(), text@);
            encode_utf8(res@) == with_matches_written(text.spec_bytes(), ms, to.spec_bytes(), ms.len() as int)
                + text.spec_bytes().subrange(gap_start(ms, ms.len() as int), text.spec_bytes().len() as int)
        }),
{
    let ghost bytes = text.spec_bytes();
    let ghost total = replaced_bytes(
        bytes,
        0,
        regex_match_ranges(from.0.source(), from.0.flags(), text@),
        to.spec_bytes(),
    );
    let mut searcher = from.into_searcher(text);
    let mut result = String::new();
    let mut last_end: usize = 0;
    let mut done = false;
    proof {
        encode_utf8_valid_utf8(text@);
        is_char_boundary_start_end_of_seq(bytes);
        assert(encode_utf8(result@) =~= Seq::<u8>::empty());
        assert(Seq::<u8>::empty() + total =~= total);
    }
    while !done
        invariant
            searcher.wf(),
            searcher.haystack() == text,
            bytes == text.spec_bytes(),
            last_end <= searcher.position(),
            is_char_boundary(bytes, last_end as int),
            done ==> searcher.pending_matches() == Seq::<(usize, usize)>::empty(),
            encode_utf8(result@) + replaced_bytes(bytes, last_end as int, searcher.pending_matches(), to.spec_bytes()) == total,
        decreases
            if done { 0 } else { searcher.pending_steps().len() + 1 },
    {
        proof {
            searcher.lemma_pending();
        }
        let ghost before = searcher.pending_matches();
        let ghost prefix = encode_utf8(result@);
        match searcher.next() {
            SearchStep::Match(start, end) => {
                proof {
                    assert(before[0] == (start, end));
                    assert(before.drop_first() =~= searcher.pending_matches());
                }
                let piece = byte_slice(text, last_end, start);
                append_str(&mut result, piece);
                append_str(&mut result, to);
                proof {
                    assert(encode_utf8(result@) + replaced_bytes(bytes, end as int, searcher.pending_matches(), to.spec_bytes())
                        =~= prefix + replaced_bytes(bytes, last_end as int, before, to.spec_bytes()));
                }
                last_end = end;
            },
            SearchStep::Reject(_, _) => {},
            SearchStep::Done => {
                done = true;
            },
        }
    }
    proof {
        searcher.lemma_pending();
    }
    let rest = byte_slice(text, last_end, text.as_bytes().len());
    append_str(&mut result, rest);
    proof {
        lemma_replaced_bytes_writes_each_match(
            bytes,
            regex_match_ranges(from.0.source(), from.0.flags(), text@),
            to.spec_bytes(),
        );
    }
    result
}

} // verus!
