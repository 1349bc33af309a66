//! Rendering of the aggregation view as JSON text: an array of
//! `["name", value]` pairs, with the names escaped as JSON strings.

use vstd::prelude::*;
use vstd::string::*;
use crate::sort::Pair;
use crate::sort::PairV;
use crate::text::hex_digit;
use crate::text::hex_char_str;
use crate::text::spec_int_str;
use crate::text::i64_to_string;

verus! {

/// JSON escaping of one character inside a string literal: quote and
/// backslash get a backslash escape, other control characters the
/// `\u00XX` form, everything else stands as itself.
pub open spec fn spec_escape_char(c: char) -> Seq<char> {
    if c == '"' {
        seq!['\\', '"']
    } else if c == '\\' {
        seq!['\\', '\\']
    } else if (c as int) < 32 {
        seq!['\\', 'u', '0', '0', hex_digit((c as int) / 16), hex_digit((c as int) % 16)]
    } else {
        seq![c]
    }
}

/// JSON escaping of a whole character sequence.
pub open spec fn spec_escape(s: Seq<char>) -> Seq<char>
    decreases s.len(),
{
    if s.len() == 0 {
        Seq::empty()
    } else {
        spec_escape(s.drop_last()) + spec_escape_char(s.last())
    }
}

/// A JSON string literal: the escaped text between double quotes.
pub open spec fn spec_json_string(s: Seq<char>) -> Seq<char> {
    seq!['"'] + spec_escape(s) + seq!['"']
}

/// One `["name", value]` pair as JSON text.
pub open spec fn spec_pair_json(p: PairV) -> Seq<char> {
    seq!['['] + spec_json_string(p.name) + seq![','] + spec_int_str(p.value) + seq![']']
}

/// The pairs as JSON texts joined by commas.
pub open spec fn spec_join(s: Seq<PairV>) -> Seq<char>
    decreases s.len(),
{
    if s.len() == 0 {
        Seq::empty()
    } else if s.len() == 1 {
        spec_pair_json(s[0])
    } else {
        spec_join(s.drop_last()) + seq![','] + spec_pair_json(s.last())
    }
}

/// The whole aggregation response body: a JSON array of pairs.
pub open spec fn spec_pairs_json(s: Seq<PairV>) -> Seq<char> {
    seq!['['] + spec_join(s) + seq![']']
}

/// Escape `s` for use inside a JSON string literal.
pub fn escape_str(s: &str) -> (r: String)
    ensures
        r@ == spec_escape(s@),
{
    let len = s.unicode_len();
    let mut acc = String::new();
    let mut i: usize = 0;
    proof {
        assert(s@.take(0) =~= Seq::<char>::empty());
    }
    while i < len
        invariant
            len == s@.len(),
            i <= len,
            acc@ =~= spec_escape(s@.take(i as int)),
        decreases len - i,
    {
        let ghost prefix = s@.take(i as int);
        let c = s.get_char(i);
        if c == '"' {
            proof {
                reveal_strlit("\\\"");
            }
            acc.append("\\\"");
            proof {
                assert("\\\""@ =~= spec_escape_char(c));
            }
        } else if c == '\\' {
            proof {
                reveal_strlit("\\\\");
            }
            acc.append("\\\\");
            proof {
                assert("\\\\"@ =~= spec_escape_char(c));
            }
        } else if (c as u32) < 32 {
            proof {
                reveal_strlit("\\u00");
            }
            acc.append("\\u00");
            let hi = ((c as u32) / 16) as u64;
            let lo = ((c as u32) % 16) as u64;
            acc.append(hex_char_str(hi));
            acc.append(hex_char_str(lo));
            proof {
                assert("\\u00"@ + seq![hex_digit(hi as int)] + seq![hex_digit(lo as int)]
                    =~= spec_escape_char(c));
            }
        } else {
            acc.append(s.substring_char(i, i + 1));
            proof {
                assert(s@.subrange(i as int, i + 1) =~= spec_escape_char(c));
            }
        }
        proof {
            assert(s@.take(i + 1).drop_last() =~= prefix);
            assert(s@.take(i + 1).last() == s@[i as int]);
            assert(acc@ =~= spec_escape(s@.take(i + 1)));
        }
        i += 1;
    }
    proof {
        assert(s@.take(len as int) =~= s@);
    }
    acc
}

/// Render one pair as JSON text.
pub fn render_pair(p: &Pair) -> (r: String)
    ensures
        r@ == spec_pair_json(p@),
{
    let mut s = String::from_str("[\"");
    s.append(escape_str(p.name.as_str()).as_str());
    s.append("\",");
    s.append(i64_to_string(p.value).as_str());
    s.append("]");
    proof {
        reveal_strlit("[\"");
        reveal_strlit("\",");
        reveal_strlit("]");
        assert(s@ =~= spec_pair_json(p@));
    }
    s
}

/// Render the sorted pair list as the JSON array the client receives.
pub fn render_pairs(pairs: &Vec<Pair>) -> (r: String)
    ensures
        r@ == spec_pairs_json(pairs.deep_view()),
{
    let ghost pd = pairs.deep_view();
    let mut acc = String::from_str("[");
    let n = pairs.len();
    let mut i: usize = 0;
    proof {
        reveal_strlit("[");
        assert(acc@ =~= seq!['['] + spec_join(pd.take(0)));
    }
    while i < n
        invariant
            n == pairs.len(),
            n == pd.len(),
            pd == pairs.deep_view(),
            i <= n,
            acc@ =~= seq!['['] + spec_join(pd.take(i as int)),
        decreases n - i,
    {
        let ghost prefix = pd.take(i as int);
        if i > 0 {
            proof {
                reveal_strlit(",");
            }
            acc.append(",");
        }
        let piece = render_pair(&pairs[i]);
        acc.append(piece.as_str());
        proof {
            assert(pd[i as int] == pairs@[i as int]@);
            assert(pd.take(i + 1).drop_last() =~= prefix);
            assert(pd.take(i + 1).last() == pd[i as int]);
            assert(acc@ =~= seq!['['] + spec_join(pd.take(i + 1)));
        }
        i += 1;
    }
    acc.append("]");
    proof {
        reveal_strlit("]");
        assert(pd.take(n as int) =~= pd);
        assert(acc@ =~= spec_pairs_json(pd));
    }
    acc
}

} // verus!
