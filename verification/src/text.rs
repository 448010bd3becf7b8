use vstd::prelude::*;
use vstd::utf8::*;
use vstd::string::*;

verus! {

/// The UTF-8 encoding of a concatenation is the concatenation of the encodings.
pub proof fn lemma_encode_utf8_concat(a: Seq<char>, b: Seq<char>)
    ensures
        encode_utf8(a + b) == encode_utf8(a) + encode_utf8(b),
    decreases a.len(),
{
    if a.len() == 0 {
        assert(a + b =~= b);
        assert(encode_utf8(a) =~= Seq::<u8>::empty());
        assert(encode_utf8(a) + encode_utf8(b) =~= encode_utf8(b));
    } else {
        lemma_encode_utf8_concat(a.drop_first(), b);
        assert((a + b).drop_first() =~= a.drop_first() + b);
        assert((a + b)[0] == a[0]);
        assert(encode_utf8(a + b) =~= encode_scalar(a[0] as u32) + encode_utf8(a.drop_first() + b));
        assert(encode_utf8(a) + encode_utf8(b) =~= encode_scalar(a[0] as u32) + (encode_utf8(
            a.drop_first(),
        ) + encode_utf8(b)));
    }
}

/// A character boundary of a byte string stays one in any prefix that contains it.
pub proof fn lemma_char_boundary_in_prefix(bytes: Seq<u8>, a: int, b: int)
    requires
        valid_utf8(bytes),
        0 <= a <= b <= bytes.len(),
        is_char_boundary(bytes, a),
        is_char_boundary(bytes, b),
    ensures
        valid_utf8(bytes.subrange(0, b)),
        is_char_boundary(bytes.subrange(0, b), a),
{
    valid_utf8_split(bytes, b);
    let sub = bytes.subrange(0, b);
    if a == b {
        is_char_boundary_start_end_of_seq(sub);
    } else if a == 0 {
        is_char_boundary_start_end_of_seq(sub);
    } else {
        is_char_boundary_iff_not_is_continuation_byte(bytes, a);
        is_char_boundary_iff_not_is_continuation_byte(sub, a);
    }
}

/// The part of `text` between the byte offsets `a` and `b`.
pub fn byte_slice<'a>(text: &'a str, a: usize, b: usize) -> (piece: &'a str)
    requires
        a <= b <= text.spec_bytes().len(),
        is_char_boundary(text.spec_bytes(), a as int),
        is_char_boundary(text.spec_bytes(), b as int),
    ensures
        piece.spec_bytes() == text.spec_bytes().subrange(a as int, b as int),
{
    proof {
        encode_utf8_valid_utf8(text@);
        lemma_char_boundary_in_prefix(text.spec_bytes(), a as int, b as int);
    }
    let (left, _) = text.split_at(b);
    let (_, piece) = left.split_at(a);
    proof {
        assert(piece.spec_bytes() =~= text.spec_bytes().subrange(a as int, b as int));
    }
    piece
}

/// Appending a string extends the encoding of the target by the encoding of the piece.
pub fn append_str(target: &mut String, piece: &str)
    ensures
        final(target)@ == old(target)@ + piece@,
        encode_utf8(final(target)@) == encode_utf8(old(target)@) + piece.spec_bytes(),
{
    target.append(piece);
    proof {
        lemma_encode_utf8_concat(old(target)@, piece@);
    }
}

/// The positions on both sides of an ASCII byte are character boundaries.
pub proof fn lemma_boundary_around_ascii(bytes: Seq<u8>, i: int)
    requires
        valid_utf8(bytes),
        0 <= i < bytes.len(),
        bytes[i] < 128,
    ensures
        is_char_boundary(bytes, i),
        is_char_boundary(bytes, i + 1),
{
    is_char_boundary_iff_not_is_continuation_byte(bytes, i);
    if i + 1 == bytes.len() {
        is_char_boundary_start_end_of_seq(bytes);
    } else {
        valid_utf8_split(bytes, i);
        let suf = bytes.subrange(i, bytes.len() as int);
        assert(suf[0] == bytes[i]);
        reveal_with_fuel(is_char_boundary, 2);
        is_char_boundary_start_end_of_seq(pop_first_scalar(suf));
        assert(is_char_boundary(suf, 1));
        is_char_boundary_iff_not_is_continuation_byte(suf, 1);
        assert(suf[1] == bytes[i + 1]);
        is_char_boundary_iff_not_is_continuation_byte(bytes, i + 1);
    }
}

/// `bytes` from `i` on with each occurrence of `pat` replaced by `to`,
/// occurrences taken left to right without overlap.
pub open spec fn literal_replaced(bytes: Seq<u8>, pat: Seq<u8>, to: Seq<u8>, i: int) -> Seq<u8>
    decreases bytes.len() - i,
{
    if i < 0 || i >= bytes.len() {
        seq![]
    } else if pat.len() > 0 && i + pat.len() <= bytes.len() && bytes.subrange(i, i + pat.len()) == pat {
        to + literal_replaced(bytes, pat, to, i + pat.len())
    } else {
        seq![bytes[i]] + literal_replaced(bytes, pat, to, i + 1)
    }
}

/// Replacing a non-empty pattern that does not occur leaves the bytes as
/// they are.
pub proof fn lemma_literal_replaced_absent(bytes: Seq<u8>, pat: Seq<u8>, to: Seq<u8>, i: int)
    requires
        0 <= i <= bytes.len(),
        pat.len() > 0,
        forall|j: int| i <= j && j + pat.len() <= bytes.len() ==> #[trigger] bytes.subrange(j, j + pat.len()) != pat,
    ensures
        literal_replaced(bytes, pat, to, i) == bytes.subrange(i, bytes.len() as int),
    decreases bytes.len() - i,
{
    if i < bytes.len() {
        lemma_literal_replaced_absent(bytes, pat, to, i + 1);
        assert(bytes.subrange(i, bytes.len() as int) =~= seq![bytes[i]] + bytes.subrange(i + 1, bytes.len() as int));
    } else {
        assert(bytes.subrange(i, bytes.len() as int) =~= Seq::<u8>::empty());
    }
}

/// Whether `pat` occurs in `bytes` at `i`.
fn occurs_at(bytes: &[u8], pat: &[u8], i: usize) -> (res: bool)
    requires
        i <= bytes@.len(),
    ensures
        res == (i + pat@.len() <= bytes@.len() && bytes@.subrange(i as int, i + pat@.len()) == pat@),
{
    let blen = bytes.len();
    if pat.len() > blen - i {
        return false;
    }
    let mut k: usize = 0;
    while k < pat.len()
        invariant
            blen == bytes@.len(),
            i + pat@.len() <= bytes@.len(),
            k <= pat@.len(),
            forall|j: int| 0 <= j < k ==> bytes@[i + j] == pat@[j],
        decreases pat@.len() - k,
    {
        if bytes[i + k] != pat[k] {
            proof {
                assert(bytes@.subrange(i as int, i + pat@.len())[k as int] != pat@[k as int]);
            }
            return false;
        }
        k = k + 1;
    }
    proof {
        assert(bytes@.subrange(i as int, i + pat@.len()) =~= pat@);
    }
    true
}

/// Replaces every occurrence of the non-empty ASCII text `from` in `text` by `to`.
pub fn replace_literal(text: &str, from: &str, to: &str) -> (res: String)
    requires
        from@.len() > 0,
        is_ascii_chars(from@),
    ensures
        encode_utf8(res@) == literal_replaced(text.spec_bytes(), from.spec_bytes(), to.spec_bytes(), 0),
{
    let bytes = text.as_bytes();
    let pat = from.as_bytes();
    let n = bytes.len();
    let ghost total = literal_replaced(bytes@, pat@, to.spec_bytes(), 0);
    proof {
        is_ascii_chars_encode_utf8(from@);
        encode_utf8_valid_utf8(text@);
        is_char_boundary_start_end_of_seq(bytes@);
        assert(pat@.len() > 0);
        assert(forall|j: int| 0 <= j < pat@.len() ==> pat@[j] < 128) by {
            assert forall|j: int| 0 <= j < pat@.len() implies pat@[j] < 128 by {
                assert(from@[j] as u8 == pat@[j]);
            }
        }
    }
    let mut result = String::new();
    let mut piece_start: usize = 0;
    let mut i: usize = 0;
    proof {
        assert(encode_utf8(result@) =~= Seq::<u8>::empty());
        assert(bytes@.subrange(0, 0) =~= Seq::<u8>::empty());
        assert(Seq::<u8>::empty() + Seq::<u8>::empty() + total =~= total);
    }
    while i < n
        invariant
            bytes@ == text.spec_bytes(),
            pat@ == from.spec_bytes(),
            valid_utf8(bytes@),
            n == bytes@.len(),
            pat@.len() > 0,
            forall|j: int| 0 <= j < pat@.len() ==> pat@[j] < 128,
            piece_start <= i <= n,
            is_char_boundary(bytes@, piece_start as int),
            total == literal_replaced(bytes@, pat@, to.spec_bytes(), 0),
            encode_utf8(result@) + bytes@.subrange(piece_start as int, i as int) + literal_replaced(
                bytes@,
                pat@,
                to.spec_bytes(),
                i as int,
            ) == total,
        decreases n - i,
    {
        let ghost before = encode_utf8(result@);
        if occurs_at(bytes, pat, i) {
            proof {
                assert(bytes@[i as int] == bytes@.subrange(i as int, i + pat@.len())[0]);
                lemma_boundary_around_ascii(bytes@, i as int);
                let last = i + pat@.len() - 1;
                assert(bytes@[last] == bytes@.subrange(i as int, i + pat@.len())[pat@.len() - 1]);
                lemma_boundary_around_ascii(bytes@, last);
            }
            let piece = byte_slice(text, piece_start, i);
            append_str(&mut result, piece);
            append_str(&mut result, to);
            proof {
                let next = (i + pat@.len()) as int;
                assert(bytes@.subrange(next, next) =~= Seq::<u8>::empty());
                assert(encode_utf8(result@) + bytes@.subrange(next, next) + literal_replaced(bytes@, pat@, to.spec_bytes(), next)
                    =~= before + bytes@.subrange(piece_start as int, i as int) + literal_replaced(bytes@, pat@, to.spec_bytes(), i as int));
            }
            i = i + pat.len();
            piece_start = i;
        } else {
            proof {
                assert(bytes@.subrange(piece_start as int, i as int + 1) =~= bytes@.subrange(piece_start as int, i as int).push(bytes@[i as int]));
                assert(before + bytes@.subrange(piece_start as int, i as int + 1) + literal_replaced(bytes@, pat@, to.spec_bytes(), i + 1)
                    =~= before + bytes@.subrange(piece_start as int, i as int) + literal_replaced(bytes@, pat@, to.spec_bytes(), i as int));
            }
            i = i + 1;
        }
    }
    let rest = byte_slice(text, piece_start, n);
    append_str(&mut result, rest);
    proof {
        assert(literal_replaced(bytes@, pat@, to.spec_bytes(), n as int) =~= Seq::<u8>::empty());
        assert(encode_utf8(result@) =~= total);
    }
    result
}

/// The pieces of `bytes` between occurrences of the byte `sep`, as
/// `str::split` gives them: a text with `n` separators has `n + 1` pieces.
pub open spec fn split_on(bytes: Seq<u8>, sep: u8) -> Seq<Seq<u8>>
    decreases bytes.len(),
{
    if bytes.len() == 0 {
        seq![Seq::<u8>::empty()]
    } else {
        let prev = split_on(bytes.drop_last(), sep);
        if bytes.last() == sep {
            prev.push(Seq::<u8>::empty())
        } else {
            prev.update(prev.len() - 1, prev.last().push(bytes.last()))
        }
    }
}

/// Splits `text` at each occurrence of the ASCII character `sep`.
pub fn split_ascii(text: &str, sep: u8) -> (pieces: Vec<String>)
    requires
        sep < 128,
    ensures
        pieces@.len() == split_on(text.spec_bytes(), sep).len(),
        forall|k: int|
            0 <= k < pieces@.len() ==> encode_utf8(#[trigger] pieces@[k]@) == split_on(text.spec_bytes(), sep)[k],
{
    let bytes = text.as_bytes();
    let n = bytes.len();
    let mut pieces: Vec<String> = Vec::new();
    let mut start: usize = 0;
    let mut i: usize = 0;
    let ghost mut done: Seq<Seq<u8>> = seq![];
    proof {
        encode_utf8_valid_utf8(text@);
        is_char_boundary_start_end_of_seq(bytes@);
        assert(bytes@.subrange(0, 0) =~= Seq::<u8>::empty());
        assert(split_on(bytes@.subrange(0, 0), sep) =~= done.push(bytes@.subrange(0, 0)));
    }
    while i < n
        invariant
            bytes@ == text.spec_bytes(),
            valid_utf8(bytes@),
            n == bytes@.len(),
            sep < 128,
            start <= i <= n,
            is_char_boundary(bytes@, start as int),
            split_on(bytes@.subrange(0, i as int), sep) == done.push(bytes@.subrange(start as int, i as int)),
            pieces@.len() == done.len(),
            forall|k: int| 0 <= k < pieces@.len() ==> encode_utf8(#[trigger] pieces@[k]@) == done[k],
        decreases n - i,
    {
        let ghost cur = bytes@.subrange(start as int, i as int);
        let ghost upto = bytes@.subrange(0, i as int + 1);
        proof {
            assert(upto.drop_last() =~= bytes@.subrange(0, i as int));
            assert(upto.last() == bytes@[i as int]);
        }
        if bytes[i] == sep {
            proof {
                lemma_boundary_around_ascii(bytes@, i as int);
            }
            let piece = byte_slice(text, start, i);
            let ghost before = pieces@;
            pieces.push(piece.to_owned());
            proof {
                let next = done.push(cur);
                assert(bytes@.subrange(i as int + 1, i as int + 1) =~= Seq::<u8>::empty());
                assert(split_on(upto, sep) =~= next.push(Seq::<u8>::empty()));
                assert forall|k: int| 0 <= k < pieces@.len() implies encode_utf8(#[trigger] pieces@[k]@) == next[k] by {
                    if k < done.len() {
                        assert(pieces@[k] == before[k]);
                    }
                }
                done = next;
            }
            start = i + 1;
        } else {
            proof {
                assert(bytes@.subrange(start as int, i as int + 1) =~= cur.push(bytes@[i as int]));
                assert(split_on(upto, sep) =~= done.push(cur.push(bytes@[i as int])));
            }
        }
        i = i + 1;
    }
    let last = byte_slice(text, start, n);
    let ghost before = pieces@;
    pieces.push(last.to_owned());
    proof {
        assert(bytes@.subrange(0, n as int) =~= bytes@);
        let all = done.push(bytes@.subrange(start as int, n as int));
        assert forall|k: int| 0 <= k < pieces@.len() implies encode_utf8(#[trigger] pieces@[k]@) == all[k] by {
            if k < before.len() {
                assert(pieces@[k] == before[k]);
            }
        }
    }
    pieces
}

} // verus!
