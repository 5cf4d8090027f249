//! Slicing and joining of UTF-8 text at ASCII bytes.

use vstd::prelude::*;
use vstd::string::*;
use vstd::utf8::*;

verus! {

/// The UTF-8 encoding of a concatenation is the concatenation of the encodings.
pub proof fn lemma_encode_concat(a: Seq<char>, b: Seq<char>)
    ensures
        encode_utf8(a + b) == encode_utf8(a) + encode_utf8(b),
    decreases a.len(),
{
    if a.len() == 0 {
        assert(a + b == b);
    } else {
        assert((a + b).drop_first() == a.drop_first() + b);
        lemma_encode_concat(a.drop_first(), b);
    }
}

/// In valid UTF-8, an ASCII byte is a character of its own: a character starts
/// at it and another (or the end) directly behind it.
pub proof fn lemma_ascii_boundaries(bytes: Seq<u8>, p: int)
    requires
        valid_utf8(bytes),
        0 <= p < bytes.len(),
        bytes[p] <= 0x7f,
    ensures
        is_char_boundary(bytes, p),
        is_char_boundary(bytes, p + 1),
{
    is_char_boundary_iff_not_is_continuation_byte(bytes, p);
    valid_utf8_split(bytes, p);
    let tail = bytes.subrange(p, bytes.len() as int);
    assert(tail[0] == bytes[p]);
    let rest = pop_first_scalar(tail);
    assert(rest == bytes.subrange(p + 1, bytes.len() as int));
    assert(valid_utf8(rest));
    if p + 1 < bytes.len() {
        assert(rest[0] == bytes[p + 1]);
        assert(valid_first_scalar(rest));
        is_char_boundary_iff_not_is_continuation_byte(bytes, p + 1);
    } else {
        is_char_boundary_start_end_of_seq(bytes);
    }
}

/// The part of `s` between the byte offsets `a` and `b`.
pub(crate) fn cut<'a>(s: &'a str, a: usize, b: usize) -> (part: &'a str)
    requires
        a <= b <= s.spec_bytes().len(),
        is_char_boundary(s.spec_bytes(), a as int),
        is_char_boundary(s.spec_bytes(), b as int),
    ensures
        part.spec_bytes() == s.spec_bytes().subrange(a as int, b as int),
{
    proof {
        encode_utf8_valid_utf8(s@);
        valid_utf8_split(s.spec_bytes(), b as int);
    }
    let (head, _) = s.split_at(b);
    proof {
        let full = s.spec_bytes();
        let front = head.spec_bytes();
        assert(front == full.subrange(0, b as int));
        if a < b {
            is_char_boundary_iff_not_is_continuation_byte(full, a as int);
            assert(front[a as int] == full[a as int]);
            is_char_boundary_iff_not_is_continuation_byte(front, a as int);
        } else {
            is_char_boundary_start_end_of_seq(front);
        }
    }
    let (_, part) = head.split_at(a);
    part
}

/// Appends `s` to `out`.
pub(crate) fn push(out: &mut String, s: &str)
    ensures
        final(out)@ == old(out)@ + s@,
        encode_utf8(final(out)@) == encode_utf8(old(out)@) + s.spec_bytes(),
{
    proof {
        lemma_encode_concat(out@, s@);
    }
    out.append(s);
}

/// Whether `a` and `b` are the same text.
pub(crate) fn same(a: &str, b: &str) -> (r: bool)
    ensures
        r == (a@ == b@),
{
    let x = a.as_bytes();
    let y = b.as_bytes();
    proof {
        encode_utf8_decode_utf8(a@);
        encode_utf8_decode_utf8(b@);
    }
    if x.len() != y.len() {
        return false;
    }
    let mut k: usize = 0;
    while k < x.len()
        invariant
            k <= x.len(),
            x@ == a.spec_bytes(),
            y@ == b.spec_bytes(),
            x@.len() == y@.len(),
            forall|j: int| 0 <= j < k ==> x@[j] == y@[j],
        decreases x.len() - k,
    {
        if x[k] != y[k] {
            return false;
        }
        k = k + 1;
    }
    assert(x@ == y@);
    true
}

/// A new string that holds `s`.
pub(crate) fn text(s: &str) -> (out: String)
    ensures
        out@ == s@,
{
    String::from_str(s)
}

/// The texts `items`, with `sep` between each two.
pub open spec fn joined(items: Seq<Seq<char>>, sep: Seq<char>) -> Seq<char>
    decreases items.len(),
{
    if items.len() == 0 {
        seq![]
    } else if items.len() == 1 {
        items[0]
    } else {
        joined(items.drop_last(), sep) + sep + items.last()
    }
}

/// The texts `items`, one behind the other.
pub open spec fn concat(items: Seq<Seq<char>>) -> Seq<char>
    decreases items.len(),
{
    if items.len() == 0 {
        seq![]
    } else {
        concat(items.drop_last()) + items.last()
    }
}

/// Joins `items` with `sep` between each two.
pub(crate) fn join(items: &Vec<String>, sep: &str) -> (out: String)
    ensures
        out@ == joined(items.deep_view(), sep@),
{
    let mut out = String::new();
    let mut k: usize = 0;
    while k < items.len()
        invariant
            k <= items.len(),
            out@ == joined(items.deep_view().take(k as int), sep@),
        decreases items.len() - k,
    {
        proof {
            let now = items.deep_view().take(k as int + 1);
            assert(now.drop_last() == items.deep_view().take(k as int));
            assert(now.last() == items@[k as int]@);
            if k == 0 {
                assert(out@ + items@[0]@ == items@[0]@);
            }
        }
        if k > 0 {
            out.append(sep);
        }
        out.append(items[k].as_str());
        k = k + 1;
    }
    assert(items.deep_view().take(k as int) == items.deep_view());
    out
}

/// Joins the names `items` with `sep` between each two.
pub(crate) fn join_names(items: &Vec<&str>, sep: &str) -> (out: String)
    ensures
        out@ == joined(items.deep_view(), sep@),
{
    let mut out = String::new();
    let mut k: usize = 0;
    while k < items.len()
        invariant
            k <= items.len(),
            out@ == joined(items.deep_view().take(k as int), sep@),
        decreases items.len() - k,
    {
        proof {
            let now = items.deep_view().take(k as int + 1);
            assert(now.drop_last() == items.deep_view().take(k as int));
            assert(now.last() == items@[k as int]@);
            if k == 0 {
                assert(out@ + items@[0]@ == items@[0]@);
            }
        }
        if k > 0 {
            out.append(sep);
        }
        out.append(items[k]);
        k = k + 1;
    }
    assert(items.deep_view().take(k as int) == items.deep_view());
    out
}

/// Puts `items` one behind the other.
pub(crate) fn concat_all(items: &Vec<String>) -> (out: String)
    ensures
        out@ == concat(items.deep_view()),
{
    let mut out = String::new();
    let mut k: usize = 0;
    while k < items.len()
        invariant
            k <= items.len(),
            out@ == concat(items.deep_view().take(k as int)),
        decreases items.len() - k,
    {
        proof {
            let now = items.deep_view().take(k as int + 1);
            assert(now.drop_last() == items.deep_view().take(k as int));
            assert(now.last() == items@[k as int]@);
        }
        out.append(items[k].as_str());
        k = k + 1;
    }
    assert(items.deep_view().take(k as int) == items.deep_view());
    out
}

/// Puts `part` behind the texts `parts`.
pub(crate) fn append(parts: &mut Vec<String>, part: String)
    ensures
        final(parts).deep_view() == old(parts).deep_view().push(part@),
{
    parts.push(part);
    assert(parts.deep_view() =~= old(parts).deep_view().push(part@));
}

} // verus!
