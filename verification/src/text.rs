//! Verified text utilities: character-level string equality, decimal
//! rendering of integers, and splitting a path on `/`.

use vstd::prelude::*;
use vstd::string::*;

verus! {

/// Compare two string slices character by character.
pub fn str_eq(a: &str, b: &str) -> (r: bool)
    ensures
        r == (a@ == b@),
{
    let alen = a.unicode_len();
    let blen = b.unicode_len();
    if alen != blen {
        return false;
    }
    let mut i: usize = 0;
    while i < alen
        invariant
            alen == a@.len(),
            blen == b@.len(),
            alen == blen,
            i <= alen,
            forall|j: int| 0 <= j < i ==> a@[j] == b@[j],
        decreases alen - i,
    {
        if a.get_char(i) != b.get_char(i) {
            return false;
        }
        i += 1;
    }
    proof {
        assert(a@ =~= b@);
    }
    true
}

/// The hexadecimal digit characters; the decimal digits are its first ten.
pub open spec fn hex_digit(n: int) -> char {
    "0123456789abcdef"@[n]
}

/// One-character string holding the digit for `n`.
pub fn hex_char_str(n: u64) -> (r: &'static str)
    requires
        n < 16,
    ensures
        r@ =~= seq![hex_digit(n as int)],
{
    let s = "0123456789abcdef";
    proof {
        reveal_strlit("0123456789abcdef");
    }
    let r = s.substring_char(n as usize, n as usize + 1);
    proof {
        assert(r@ =~= seq![hex_digit(n as int)]);
    }
    r
}

/// Decimal representation of a non-negative integer, most significant
/// digit first, with no leading zeros (`0` itself is the single digit `0`).
pub open spec fn spec_digits(n: int) -> Seq<char>
    decreases n,
{
    if n < 10 {
        seq![hex_digit(n)]
    } else {
        spec_digits(n / 10).push(hex_digit(n % 10))
    }
}

/// Render `n` in decimal.
pub fn u64_to_string(n: u64) -> (r: String)
    ensures
        r@ == spec_digits(n as int),
    decreases n,
{
    if n < 10 {
        String::from_str(hex_char_str(n))
    } else {
        let mut s = u64_to_string(n / 10);
        s.append(hex_char_str(n % 10));
        proof {
            assert(s@ =~= spec_digits(n as int));
        }
        s
    }
}

/// Decimal representation of a possibly negative integer.
pub open spec fn spec_int_str(v: int) -> Seq<char> {
    if v < 0 {
        seq!['-'] + spec_digits(-v)
    } else {
        spec_digits(v)
    }
}

/// Render `v` in decimal, with a leading minus sign when negative.
pub fn i64_to_string(v: i64) -> (r: String)
    ensures
        r@ == spec_int_str(v as int),
{
    if v >= 0 {
        u64_to_string(v as u64)
    } else {
        let m: u64 = ((-(v + 1)) as u64) + 1;
        proof {
            assert(m as int == -(v as int));
        }
        let digits = u64_to_string(m);
        let mut s = String::from_str("-");
        s.append(digits.as_str());
        proof {
            reveal_strlit("-");
            assert(s@ =~= spec_int_str(v as int));
        }
        s
    }
}

/// Split a character sequence on `/`. The result always has at least one
/// element; splitting the empty sequence yields one empty segment.
pub open spec fn spec_split(s: Seq<char>) -> Seq<Seq<char>>
    decreases s.len(),
{
    if s.len() == 0 {
        seq![Seq::<char>::empty()]
    } else if s.last() == '/' {
        spec_split(s.drop_last()).push(Seq::<char>::empty())
    } else {
        let r = spec_split(s.drop_last());
        r.update(r.len() - 1, r.last().push(s.last()))
    }
}

/// Split `path` on `/`, as a string `split` iterator would.
pub fn split_path(path: &str) -> (segs: Vec<String>)
    ensures
        segs.deep_view() == spec_split(path@),
{
    let len = path.unicode_len();
    let mut segs: Vec<String> = Vec::new();
    let mut seg_start: usize = 0;
    let mut i: usize = 0;
    proof {
        assert(path@.take(0) =~= Seq::<char>::empty());
        assert(path@.subrange(0, 0) =~= Seq::<char>::empty());
        assert(spec_split(path@.take(0)) =~~= segs.deep_view().push(path@.subrange(0, 0)));
    }
    while i < len
        invariant
            len == path@.len(),
            seg_start <= i <= len,
            spec_split(path@.take(i as int)) =~~= segs.deep_view().push(
                path@.subrange(seg_start as int, i as int),
            ),
        decreases len - i,
    {
        let ghost prefix = path@.take(i as int);
        let ghost old_deep = segs.deep_view();
        let ghost old_start = seg_start as int;
        let c = path.get_char(i);
        proof {
            assert(path@.take(i + 1).drop_last() =~= prefix);
            assert(path@.take(i + 1).last() == path@[i as int]);
        }
        if c == '/' {
            let seg = String::from_str(path.substring_char(seg_start, i));
            segs.push(seg);
            seg_start = i + 1;
            proof {
                assert(segs.deep_view() =~~= old_deep.push(path@.subrange(old_start, i as int)));
                assert(spec_split(path@.take(i + 1)) =~~= spec_split(prefix).push(
                    Seq::<char>::empty(),
                ));
                assert(path@.subrange(seg_start as int, i + 1) =~= Seq::<char>::empty());
                assert(spec_split(path@.take(i + 1)) =~~= segs.deep_view().push(
                    path@.subrange(seg_start as int, i + 1),
                ));
            }
        } else {
            proof {
                let r = spec_split(prefix);
                assert(r.last().push(path@[i as int]) =~= path@.subrange(old_start, i + 1));
                assert(spec_split(path@.take(i + 1)) =~~= r.update(
                    r.len() - 1,
                    r.last().push(path@[i as int]),
                ));
                assert(spec_split(path@.take(i + 1)) =~~= segs.deep_view().push(
                    path@.subrange(seg_start as int, i + 1),
                ));
            }
        }
        i += 1;
    }
    let ghost old_deep = segs.deep_view();
    let seg = String::from_str(path.substring_char(seg_start, len));
    segs.push(seg);
    proof {
        assert(path@.take(len as int) =~= path@);
        assert(segs.deep_view() =~~= old_deep.push(path@.subrange(seg_start as int, len as int)));
        assert(segs.deep_view() =~~= spec_split(path@));
    }
    segs
}

} // verus!
