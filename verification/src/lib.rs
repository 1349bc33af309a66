//! A minimal read-only user-record API core.
//!
//! The library holds the verified logic of a small HTTP service: path
//! parsing, request dispatch, user lookup, a descending sort over a numeric
//! field, and response formatting. The surrounding binary performs the I/O
//! (loading the JSON document, listening for connections) and hands the
//! library plain values.
//!
//! Of the two historical readings of the aggregation endpoint this library
//! implements the scalar one: `/sort/<field>` reads `<field>` as a
//! top-level integer attribute of each user record and lists the users by
//! it in descending order; a missing or non-integer attribute counts as
//! zero, so one sparse record never takes the service down.

use vstd::prelude::*;

pub mod document;
pub mod json_out;
pub mod laws;
pub mod sort;
pub mod text;

use crate::document::Document;
use crate::document::UserEntryV;
use crate::document::find_user;
use crate::document::field_value;
use crate::document::spec_find_user;
use crate::document::spec_field_value;
use crate::json_out::render_pairs;
use crate::json_out::spec_pairs_json;
use crate::sort::Pair;
use crate::sort::PairV;
use crate::sort::sort_pairs;
use crate::sort::spec_sort;
use crate::text::split_path;
use crate::text::spec_split;
use crate::text::spec_digits;
use crate::text::str_eq;
use crate::text::u64_to_string;

verus! {

/// An HTTP-level response: a status code and a text body.
pub struct HttpReply {
    pub status: u16,
    pub body: String,
}

/// Spec-level image of an [`HttpReply`].
#[verifier::ext_equal]
pub struct ReplyV {
    pub status: int,
    pub body: Seq<char>,
}

impl View for HttpReply {
    type V = ReplyV;

    open spec fn view(&self) -> ReplyV {
        ReplyV { status: self.status as int, body: self.body@ }
    }
}

/// Body text of every error reply: `404 Not found: {reason}`.
pub open spec fn spec_not_found_body(reason: Seq<char>) -> Seq<char> {
    "404 Not found: "@ + reason
}

/// The uniform error reply, at spec level.
pub open spec fn spec_err_reply(reason: Seq<char>) -> ReplyV {
    ReplyV { status: 404, body: spec_not_found_body(reason) }
}

/// Build the uniform error reply used for every failure.
pub fn not_found(reason: &str) -> (r: HttpReply)
    ensures
        r@ == spec_err_reply(reason@),
{
    let mut body = String::from_str("404 Not found: ");
    body.append(reason);
    let r = HttpReply { status: 404, body };
    proof {
        assert(r@ =~~= spec_err_reply(reason@));
    }
    r
}

/// The API version string served by `/version`.
pub open spec fn spec_api_version() -> Seq<char> {
    "1.0"@
}

/// The API version string served by `/version`.
pub fn api_version() -> (r: &'static str)
    ensures
        r@ == spec_api_version(),
{
    "1.0"
}

/// Reason text for a call with the wrong number of path arguments, given
/// the number of path segments the request had.
pub open spec fn spec_arg_count_reason(nsegs: int) -> Seq<char> {
    "expected 2 args (got "@ + spec_digits(nsegs - 1) + ")"@
}

/// The `[username, attribute value]` pairs of all users, in document order.
pub open spec fn spec_pairs_of(users: Seq<UserEntryV>, field: Seq<char>) -> Seq<PairV> {
    users.map_values(
        |u: UserEntryV| PairV { name: u.name, value: spec_field_value(u.record.fields, field) },
    )
}

/// The reply to one request, as a function of the request method, the
/// request path and the loaded document.
///
/// The path is split on `/`; the path must begin with `/` (its first
/// segment must be empty). The second segment names the endpoint:
/// `version` answers with the API version string, `user_info/{username}`
/// with the stored record of that user, `sort/{field}` with all users
/// listed as `[username, value]` pairs in descending order of the named
/// integer attribute. Every failure is a 404 whose body names the reason.
pub open spec fn spec_respond(method: Seq<char>, path: Seq<char>, users: Seq<UserEntryV>) -> ReplyV {
    let segs = spec_split(path);
    if segs.len() < 2 || segs[0] != Seq::<char>::empty() {
        spec_err_reply("invalid HTTP GET request format"@)
    } else if method != "GET"@ {
        spec_err_reply("unknown API endpoint: "@ + segs[1])
    } else if segs[1] == "version"@ {
        ReplyV { status: 200, body: spec_api_version() }
    } else if segs[1] == "user_info"@ {
        if segs.len() != 3 {
            spec_err_reply(spec_arg_count_reason(segs.len() as int))
        } else {
            match spec_find_user(users, segs[2]) {
                Option::Some(rec) => ReplyV { status: 200, body: rec.json },
                Option::None => spec_err_reply("user "@ + segs[2] + " doesn't exist"@),
            }
        }
    } else if segs[1] == "sort"@ {
        if segs.len() != 3 {
            spec_err_reply(spec_arg_count_reason(segs.len() as int))
        } else {
            ReplyV {
                status: 200,
                body: spec_pairs_json(spec_sort(spec_pairs_of(users, segs[2]))),
            }
        }
    } else {
        spec_err_reply("unknown API endpoint: "@ + segs[1])
    }
}

/// Build the reason text for a wrong argument count.
fn arg_count_reason(nsegs: usize) -> (r: String)
    requires
        nsegs >= 1,
    ensures
        r@ == spec_arg_count_reason(nsegs as int),
{
    let mut s = String::from_str("expected 2 args (got ");
    let digits = u64_to_string((nsegs - 1) as u64);
    s.append(digits.as_str());
    s.append(")");
    proof {
        assert(s@ =~= spec_arg_count_reason(nsegs as int));
    }
    s
}

/// Answer one request against the immutable document snapshot.
///
/// The reply is exactly [`spec_respond`] of the method, the path and the
/// document: a pure function of its inputs, which never touches the
/// document other than to read it.
pub fn respond(method: &str, path: &str, doc: &Document) -> (r: HttpReply)
    ensures
        r@ == spec_respond(method@, path@, doc@),
{
    let segs = split_path(path);
    let ghost segv = spec_split(path@);
    proof {
        assert(segv.len() == segs@.len());
        assert(forall|i: int| 0 <= i < segs@.len() ==> segv[i] == segs@[i]@);
    }
    if segs.len() < 2 || segs[0].as_str().unicode_len() != 0 {
        proof {
            if segs.len() >= 2 {
                assert(segv[0] != Seq::<char>::empty());
            }
        }
        let r = not_found("invalid HTTP GET request format");
        proof {
            assert(r@ =~~= spec_respond(method@, path@, doc@));
        }
        return r;
    }
    proof {
        assert(segv[0] =~= Seq::<char>::empty());
    }
    if !str_eq(method, "GET") {
        let mut reason = String::from_str("unknown API endpoint: ");
        reason.append(segs[1].as_str());
        let r = not_found(reason.as_str());
        proof {
            assert(r@ =~~= spec_respond(method@, path@, doc@));
        }
        return r;
    }
    if str_eq(segs[1].as_str(), "version") {
        let r = HttpReply { status: 200, body: String::from_str(api_version()) };
        proof {
            assert(r@ =~~= spec_respond(method@, path@, doc@));
        }
        return r;
    }
    if str_eq(segs[1].as_str(), "user_info") {
        if segs.len() != 3 {
            let reason = arg_count_reason(segs.len());
            let r = not_found(reason.as_str());
            proof {
                assert(r@ =~~= spec_respond(method@, path@, doc@));
            }
            return r;
        }
        let r = match find_user(doc, segs[2].as_str()) {
            Some(rec) => HttpReply { status: 200, body: rec.json.clone() },
            None => {
                let mut reason = String::from_str("user ");
                reason.append(segs[2].as_str());
                reason.append(" doesn't exist");
                not_found(reason.as_str())
            },
        };
        proof {
            assert(r@ =~~= spec_respond(method@, path@, doc@));
        }
        return r;
    }
    if str_eq(segs[1].as_str(), "sort") {
        if segs.len() != 3 {
            let reason = arg_count_reason(segs.len());
            let r = not_found(reason.as_str());
            proof {
                assert(r@ =~~= spec_respond(method@, path@, doc@));
            }
            return r;
        }
        let ghost pv = spec_pairs_of(doc@, segv[2]);
        let n = doc.users.len();
        let mut pairs: Vec<Pair> = Vec::new();
        let mut i: usize = 0;
        proof {
            assert(pairs.deep_view() =~~= pv.take(0));
        }
        while i < n
            invariant
                n == doc.users.len(),
                n == doc@.len(),
                pv == spec_pairs_of(doc@, segv[2]),
                segv == spec_split(path@),
                segv.len() == 3,
                segv[2] == segs@[2]@,
                segs@.len() == 3,
                i <= n,
                pairs.deep_view() =~~= pv.take(i as int),
            decreases n - i,
        {
            let value = field_value(&doc.users[i].record, segs[2].as_str());
            let name = doc.users[i].name.clone();
            let ghost before = pairs.deep_view();
            pairs.push(Pair { name, value });
            proof {
                assert(doc@[i as int] == doc.users@[i as int]@);
                assert(pairs.deep_view() =~~= before.push(
                    PairV {
                        name: doc@[i as int].name,
                        value: spec_field_value(doc@[i as int].record.fields, segv[2]),
                    },
                ));
                assert(pv[i as int] == PairV {
                    name: doc@[i as int].name,
                    value: spec_field_value(doc@[i as int].record.fields, segv[2]),
                });
                assert(pairs.deep_view() =~~= pv.take(i + 1));
            }
            i += 1;
        }
        proof {
            assert(pv.take(n as int) =~~= pv);
        }
        let sorted = sort_pairs(pairs);
        let body = render_pairs(&sorted);
        let r = HttpReply { status: 200, body };
        proof {
            assert(r@ =~~= spec_respond(method@, path@, doc@));
        }
        return r;
    }
    let mut reason = String::from_str("unknown API endpoint: ");
    reason.append(segs[1].as_str());
    let r = not_found(reason.as_str());
    proof {
        assert(r@ =~~= spec_respond(method@, path@, doc@));
    }
    r
}

} // verus!
