use vstd::prelude::*;
use vstd::utf8::*;
use vstd::string::*;
use crate::pattern::{CompiledPattern, PatternError, regex_compiles, regex_match_ranges, replaced_bytes, replace, RegexPattern};
use crate::text::{byte_slice, lemma_boundary_around_ascii, split_on};

verus! {

/// The regex that a screenshot URL must match somewhere (compiled case-insensitively).
pub const URL_PATTERN: &'static str = "(https?:\\/\\/(?:www\\.|(?!www))[a-zA-Z0-9][a-zA-Z0-9-]+[a-zA-Z0-9]\\.[^\\s]{2,}|www\\.[a-zA-Z0-9][a-zA-Z0-9-]+[a-zA-Z0-9]\\.[^\\s]{2,}|https?:\\/\\/(?:www\\.|(?!www))[a-zA-Z0-9]+\\.[^\\s]{2,}|www\\.[a-zA-Z0-9]+\\.[^\\s]{2,})";

/// The flags the URL regex is compiled with.
pub const URL_PATTERN_FLAGS: &'static str = "i";

/// The hosts-file prefix stripped from each entry of the NSFW block list.
pub const NSFW_ENTRY_PREFIX: &'static str = "^(0.0.0.0 )";

/// Where the NSFW block list is fetched from.
pub const NSFW_LIST_URL: &'static str = "https://blocklistproject.github.io/Lists/porn.txt";

/// Why a URL check did not succeed.
#[derive(Debug)]
pub enum UrlCheckError {
    /// The text matches no part of the URL regex.
    NotAUrl,
    /// The URL regex itself was refused.
    Pattern(PatternError),
}

impl UrlCheckError {
    /// The error's message.
    pub fn to_string(&self) -> (text: String)
        ensures
            self is NotAUrl ==> text@ == "url not valid"@,
            self matches UrlCheckError::Pattern(e) ==> text@ == e.message@,
    {
        match self {
            UrlCheckError::NotAUrl => "url not valid".to_owned(),
            UrlCheckError::Pattern(e) => e.message.clone(),
        }
    }
}

/// Compiles the URL regex.
pub fn get_url_regex() -> (res: Result<CompiledPattern, PatternError>)
    ensures
        res is Ok <==> regex_compiles(URL_PATTERN@, URL_PATTERN_FLAGS@),
        res matches Ok(p) ==> p.source() == URL_PATTERN@ && p.flags() == URL_PATTERN_FLAGS@,
{
    CompiledPattern::new(URL_PATTERN, URL_PATTERN_FLAGS)
}

/// Checks `url` against an already compiled URL regex: `Ok(true)` when the
/// regex matches somewhere in it, `NotAUrl` otherwise.
pub fn check_if_url_with(re: &CompiledPattern, url: &str) -> (res: Result<bool, UrlCheckError>)
    ensures
        res matches Ok(b) ==> b,
        res is Ok <==> regex_match_ranges(re.source(), re.flags(), url@).len() > 0,
        res is Err ==> res matches Err(UrlCheckError::NotAUrl),
{
    if re.is_found_in(url) {
        Ok(true)
    } else {
        Err(UrlCheckError::NotAUrl)
    }
}

/// Checks that `url` looks like a web address: `Ok(true)` when the URL regex
/// matches somewhere in it, `NotAUrl` when it does not, and `Pattern` when the
/// regex cannot be compiled.
pub fn check_if_url(url: &str) -> (res: Result<bool, UrlCheckError>)
    ensures
        res matches Ok(b) ==> b,
        res is Ok <==> regex_compiles(URL_PATTERN@, URL_PATTERN_FLAGS@)
            && regex_match_ranges(URL_PATTERN@, URL_PATTERN_FLAGS@, url@).len() > 0,
        res matches Err(UrlCheckError::NotAUrl) <==> regex_compiles(URL_PATTERN@, URL_PATTERN_FLAGS@)
            && regex_match_ranges(URL_PATTERN@, URL_PATTERN_FLAGS@, url@).len() == 0,
        res matches Err(UrlCheckError::Pattern(_)) <==> !regex_compiles(URL_PATTERN@, URL_PATTERN_FLAGS@),
{
    match get_url_regex() {
        Ok(re) => check_if_url_with(&re, url),
        Err(e) => Err(UrlCheckError::Pattern(e)),
    }
}

/// Whether `host` is one of the entries of the block list.
pub fn check_if_nsfw(list: &Vec<String>, host: &str) -> (res: bool)
    ensures
        res == exists|i: int| 0 <= i < list@.len() && (#[trigger] list@[i])@ == host@,
{
    let host_owned = host.to_owned();
    let mut i: usize = 0;
    while i < list.len()
        invariant
            i <= list@.len(),
            host_owned@ == host@,
            forall|j: int| 0 <= j < i ==> (#[trigger] list@[j])@ != host@,
        decreases list@.len() - i,
    {
        if list[i] == host_owned {
            return true;
        }
        i = i + 1;
    }
    false
}

/// The lines of `bytes`, split at each newline byte as `str::split('\n')` does:
/// a text with `n` newlines has `n + 1` lines.
pub open spec fn split_lines(bytes: Seq<u8>) -> Seq<Seq<u8>> {
    split_on(bytes, 10u8)
}

/// A block-list line is kept when it is not empty and is not a `#` comment.
pub open spec fn is_list_entry(line: Seq<u8>) -> bool {
    line.len() > 0 && line[0] != 35u8
}

/// The entries of the block list made of `lines`: the kept lines, each with
/// the matches of the prefix regex (`pattern`, `flags`) removed.
pub open spec fn nsfw_entries(lines: Seq<Seq<u8>>, pattern: Seq<char>, flags: Seq<char>) -> Seq<Seq<u8>>
    decreases lines.len(),
{
    if lines.len() == 0 {
        seq![]
    } else {
        let prev = nsfw_entries(lines.drop_last(), pattern, flags);
        let line = lines.last();
        if is_list_entry(line) {
            prev.push(replaced_bytes(
                line,
                0,
                regex_match_ranges(pattern, flags, decode_utf8(line)),
                Seq::<u8>::empty(),
            ))
        } else {
            prev
        }
    }
}

/// Compiles the regex that strips the hosts-file prefix from block-list entries.
pub fn get_nsfw_prefix_regex() -> (res: Result<CompiledPattern, PatternError>)
    ensures
        res is Ok <==> regex_compiles(NSFW_ENTRY_PREFIX@, ""@),
        res matches Ok(p) ==> p.source() == NSFW_ENTRY_PREFIX@ && p.flags() == ""@,
{
    CompiledPattern::new(NSFW_ENTRY_PREFIX, "")
}

/// Adds the entry made of the line `text[a..b]`, if that line is kept.
fn push_entry(entries: &mut Vec<String>, text: &str, a: usize, b: usize, prefix: &CompiledPattern)
    requires
        a <= b <= text.spec_bytes().len(),
        is_char_boundary(text.spec_bytes(), a as int),
        is_char_boundary(text.spec_bytes(), b as int),
    ensures
        ({
            let line = text.spec_bytes().subrange(a as int, b as int);
            if is_list_entry(line) {
                &&& final(entries)@.len() == old(entries)@.len() + 1
                &&& final(entries)@.subrange(0, old(entries)@.len() as int) == old(entries)@
                &&& encode_utf8(final(entries)@.last()@) == replaced_bytes(
                    line,
                    0,
                    regex_match_ranges(prefix.source(), prefix.flags(), decode_utf8(line)),
                    Seq::<u8>::empty(),
                )
            } else {
                final(entries)@ == old(entries)@
            }
        }),
{
    let bytes = text.as_bytes();
    let ghost line = text.spec_bytes().subrange(a as int, b as int);
    if a < b && bytes[a] != 35u8 {
        let piece = byte_slice(text, a, b);
        proof {
            encode_utf8_decode_utf8(piece@);
            reveal_strlit("");
            assert(""@ =~= Seq::<char>::empty());
            assert(encode_utf8(""@) =~= Seq::<u8>::empty());
            assert(line[0] == bytes@[a as int]);
        }
        let entry = replace(piece, RegexPattern(prefix), "");
        entries.push(entry);
        proof {
            assert(final(entries)@.subrange(0, old(entries)@.len() as int) =~= old(entries)@);
        }
    } else {
        proof {
            if a < b {
                assert(line[0] == bytes@[a as int]);
            }
        }
    }
}

/// The block-list entries of the text `text`: its lines, less the empty ones
/// and the `#` comments, each with the matches of `prefix` removed.
pub fn parse_nsfw_list(text: &str, prefix: &CompiledPattern) -> (entries: Vec<String>)
    ensures
        entries@.len() == nsfw_entries(split_lines(text.spec_bytes()), prefix.source(), prefix.flags()).len(),
        forall|k: int|
            0 <= k < entries@.len() ==> encode_utf8(#[trigger] entries@[k]@) == nsfw_entries(
                split_lines(text.spec_bytes()),
                prefix.source(),
                prefix.flags(),
            )[k],
{
    let bytes = text.as_bytes();
    let n = bytes.len();
    let mut entries: Vec<String> = Vec::new();
    let mut line_start: usize = 0;
    let mut i: usize = 0;
    let ghost mut completed: Seq<Seq<u8>> = seq![];
    proof {
        encode_utf8_valid_utf8(text@);
        is_char_boundary_start_end_of_seq(bytes@);
        assert(bytes@.subrange(0, 0) =~= Seq::<u8>::empty());
        assert(split_lines(bytes@.subrange(0, 0)) =~= completed.push(bytes@.subrange(0, 0)));
    }
    while i < n
        invariant
            bytes@ == text.spec_bytes(),
            valid_utf8(bytes@),
            n == bytes@.len(),
            line_start <= i <= n,
            is_char_boundary(bytes@, line_start as int),
            split_lines(bytes@.subrange(0, i as int)) == completed.push(
                bytes@.subrange(line_start as int, i as int),
            ),
            entries@.len() == nsfw_entries(completed, prefix.source(), prefix.flags()).len(),
            forall|k: int|
                0 <= k < entries@.len() ==> encode_utf8(#[trigger] entries@[k]@) == nsfw_entries(
                    completed,
                    prefix.source(),
                    prefix.flags(),
                )[k],
        decreases n - i,
    {
        let ghost cur = bytes@.subrange(line_start as int, i as int);
        let ghost prefix_bytes = bytes@.subrange(0, i as int + 1);
        proof {
            assert(prefix_bytes.drop_last() =~= bytes@.subrange(0, i as int));
            assert(prefix_bytes.last() == bytes@[i as int]);
        }
        if bytes[i] == 10u8 {
            proof {
                lemma_boundary_around_ascii(bytes@, i as int);
            }
            let ghost old_entries = entries@;
            push_entry(&mut entries, text, line_start, i, prefix);
            proof {
                let new_completed = completed.push(cur);
                assert(new_completed.drop_last() =~= completed);
                assert(new_completed.last() == cur);
                let ne = nsfw_entries(new_completed, prefix.source(), prefix.flags());
                let oe = nsfw_entries(completed, prefix.source(), prefix.flags());
                if is_list_entry(cur) {
                    assert forall|k: int| 0 <= k < entries@.len() implies encode_utf8(#[trigger] entries@[k]@) == ne[k] by {
                        if k < old_entries.len() {
                            assert(entries@[k] == entries@.subrange(0, old_entries.len() as int)[k]);
                        }
                    }
                }
                assert(bytes@.subrange(i as int + 1, i as int + 1) =~= Seq::<u8>::empty());
                assert(split_lines(prefix_bytes) =~= new_completed.push(Seq::<u8>::empty()));
                completed = new_completed;
            }
            line_start = i + 1;
        } else {
            proof {
                assert(bytes@.subrange(line_start as int, i as int + 1) =~= cur.push(bytes@[i as int]));
                assert(split_lines(prefix_bytes) =~= completed.push(cur.push(bytes@[i as int])));
            }
        }
        i = i + 1;
    }
    let ghost cur = bytes@.subrange(line_start as int, n as int);
    let ghost old_entries = entries@;
    push_entry(&mut entries, text, line_start, n, prefix);
    proof {
        assert(bytes@.subrange(0, n as int) =~= bytes@);
        let all = completed.push(cur);
        assert(split_lines(text.spec_bytes()) == all);
        assert(all.drop_last() =~= completed);
        assert(all.last() == cur);
        let ne = nsfw_entries(all, prefix.source(), prefix.flags());
        if is_list_entry(cur) {
            assert forall|k: int| 0 <= k < entries@.len() implies encode_utf8(#[trigger] entries@[k]@) == ne[k] by {
                if k < old_entries.len() {
                    assert(entries@[k] == entries@.subrange(0, old_entries.len() as int)[k]);
                }
            }
        }
    }
    entries
}

} // verus!
