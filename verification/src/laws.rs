//! Laws of the service, proved of the same spec functions that the
//! contract of [`crate::respond`] speaks of. Since `respond` returns
//! exactly [`crate::spec_respond`] of its inputs, each law transfers to
//! every actual reply.

use vstd::prelude::*;

use crate::ReplyV;
use crate::spec_api_version;
use crate::spec_arg_count_reason;
use crate::spec_err_reply;
use crate::spec_pairs_of;
use crate::spec_respond;
use crate::json_out::spec_pairs_json;
use crate::document::UserEntryV;
use crate::document::UserRecordV;
use crate::document::spec_find_user;
use crate::document::spec_user_exists;
use crate::document::lemma_find_user_exists;
use crate::sort::PairV;
use crate::sort::spec_sort;
use crate::sort::lemma_spec_sort_contains;
use crate::sort::lemma_spec_sort_multiset;
use crate::sort::lemma_spec_sort_sorted;
use crate::text::spec_split;

verus! {

/// A pair with this username occurs in the list.
pub open spec fn spec_pair_name_present(ps: Seq<PairV>, n: Seq<char>) -> bool {
    exists|i: int| 0 <= i < ps.len() && ps[i].name == n
}

/// Every username present in the document is served its stored record:
/// a `GET` whose path segments are exactly `["", "user_info", u]` for a
/// stored user `u` answers 200 with the record's JSON text as the body.
pub proof fn lemma_user_info_present(
    path: Seq<char>,
    users: Seq<UserEntryV>,
    u: Seq<char>,
    rec: UserRecordV,
)
    requires
        spec_split(path) == (seq![Seq::<char>::empty(), "user_info"@, u]),
        spec_find_user(users, u) == Some(rec),
    ensures
        spec_respond("GET"@, path, users) == (ReplyV { status: 200, body: rec.json }),
{
    reveal_strlit("user_info");
    reveal_strlit("version");
    assert("user_info"@.len() == 9);
    assert("version"@.len() == 7);
    assert("user_info"@ != "version"@);
    assert(spec_respond("GET"@, path, users) =~~= ReplyV { status: 200, body: rec.json });
}

/// Every username absent from the document is answered 404, with a body
/// naming the user.
pub proof fn lemma_user_info_absent(path: Seq<char>, users: Seq<UserEntryV>, u: Seq<char>)
    requires
        spec_split(path) == (seq![Seq::<char>::empty(), "user_info"@, u]),
        !spec_user_exists(users, u),
    ensures
        spec_respond("GET"@, path, users) == spec_err_reply("user "@ + u + " doesn't exist"@),
        spec_respond("GET"@, path, users).status == 404,
{
    reveal_strlit("user_info");
    reveal_strlit("version");
    assert("user_info"@.len() == 9);
    assert("version"@.len() == 7);
    assert("user_info"@ != "version"@);
    lemma_find_user_exists(users, u);
    assert(spec_respond("GET"@, path, users) =~~= spec_err_reply(
        "user "@ + u + " doesn't exist"@,
    ));
}

/// `GET /version` answers 200 with the fixed version string, whatever the
/// document holds and whatever follows the endpoint name in the path.
pub proof fn lemma_version(path: Seq<char>, users: Seq<UserEntryV>)
    requires
        spec_split(path).len() >= 2,
        spec_split(path)[0] == (Seq::<char>::empty()),
        spec_split(path)[1] == "version"@,
    ensures
        spec_respond("GET"@, path, users) == (ReplyV { status: 200, body: spec_api_version() }),
{
    assert(spec_respond("GET"@, path, users) =~~= ReplyV {
        status: 200,
        body: spec_api_version(),
    });
}

/// The values of the aggregation view never increase from one entry to
/// the next: the served pair list is sorted descending by value.
pub proof fn lemma_sort_monotone(users: Seq<UserEntryV>, field: Seq<char>)
    ensures
        forall|i: int, j: int|
            0 <= i <= j < spec_sort(spec_pairs_of(users, field)).len() ==> spec_sort(
                spec_pairs_of(users, field),
            )[i].value >= spec_sort(spec_pairs_of(users, field))[j].value,
{
    lemma_spec_sort_sorted(spec_pairs_of(users, field));
}

/// Repeating a request yields the identical reply: the reply is a function
/// of the method, the path and the immutable document alone, so two
/// replies to the same request are equal.
pub proof fn lemma_idempotent(
    method: Seq<char>,
    path: Seq<char>,
    users: Seq<UserEntryV>,
    r1: ReplyV,
    r2: ReplyV,
)
    requires
        r1 == spec_respond(method, path, users),
        r2 == spec_respond(method, path, users),
    ensures
        r1 == r2,
{
}

/// Round trip: the aggregation view lists exactly the usernames stored in
/// the document — every stored user appears, and nothing else does.
pub proof fn lemma_sort_round_trip(users: Seq<UserEntryV>, field: Seq<char>)
    ensures
        forall|n: Seq<char>|
            spec_pair_name_present(spec_sort(spec_pairs_of(users, field)), n)
                <==> spec_user_exists(users, n),
{
    let ps = spec_pairs_of(users, field);
    let sorted = spec_sort(ps);
    assert forall|n: Seq<char>|
        spec_pair_name_present(sorted, n) <==> spec_user_exists(users, n) by {
        if spec_pair_name_present(sorted, n) {
            let i = choose|i: int| 0 <= i < sorted.len() && sorted[i].name == n;
            lemma_spec_sort_contains(ps, sorted[i]);
            assert(sorted.contains(sorted[i]));
            let j = choose|j: int| 0 <= j < ps.len() && ps[j] == sorted[i];
            assert(users[j].name == n);
        }
        if spec_user_exists(users, n) {
            let i = choose|i: int| 0 <= i < users.len() && users[i].name == n;
            lemma_spec_sort_contains(ps, ps[i]);
            assert(ps.contains(ps[i]));
            assert(sorted.contains(ps[i]));
            let k = choose|k: int| 0 <= k < sorted.len() && sorted[k] == ps[i];
            assert(sorted[k].name == n);
        }
    }
}

/// A `sort` call with exactly one argument always succeeds: the reply is
/// 200 and its body is the JSON rendering of the users' `[name, value]`
/// pairs, sorted descending by the named attribute.
pub proof fn lemma_sort_ok(path: Seq<char>, users: Seq<UserEntryV>, field: Seq<char>)
    requires
        spec_split(path) == (seq![Seq::<char>::empty(), "sort"@, field]),
    ensures
        spec_respond("GET"@, path, users) == (ReplyV {
            status: 200,
            body: spec_pairs_json(spec_sort(spec_pairs_of(users, field))),
        }),
{
    reveal_strlit("sort");
    reveal_strlit("user_info");
    reveal_strlit("version");
    assert("sort"@.len() == 4);
    assert("user_info"@.len() == 9);
    assert("version"@.len() == 7);
    assert(spec_respond("GET"@, path, users) =~~= ReplyV {
        status: 200,
        body: spec_pairs_json(spec_sort(spec_pairs_of(users, field))),
    });
}

/// In a well-formed document usernames are unique ([`crate::document::Document::wf`]),
/// and then the aggregation view lists no username twice.
pub proof fn lemma_sort_names_unique(users: Seq<UserEntryV>, field: Seq<char>)
    requires
        forall|i: int, j: int| 0 <= i < j < users.len() ==> users[i].name != users[j].name,
    ensures
        forall|i: int, j: int|
            0 <= i < j < spec_sort(spec_pairs_of(users, field)).len() ==> spec_sort(
                spec_pairs_of(users, field),
            )[i].name != spec_sort(spec_pairs_of(users, field))[j].name,
{
    let ps = spec_pairs_of(users, field);
    let sorted = spec_sort(ps);
    assert(ps.no_duplicates()) by {
        assert forall|i: int, j: int| 0 <= i < ps.len() && 0 <= j < ps.len() && i != j
            implies ps[i] != ps[j] by {
            assert(ps[i].name == users[i].name);
            assert(ps[j].name == users[j].name);
        }
    }
    ps.lemma_multiset_has_no_duplicates();
    lemma_spec_sort_multiset(ps);
    sorted.lemma_multiset_has_no_duplicates_conv();
    assert forall|i: int, j: int| 0 <= i < j < sorted.len() implies sorted[i].name
        != sorted[j].name by {
        if sorted[i].name == sorted[j].name {
            lemma_spec_sort_contains(ps, sorted[i]);
            lemma_spec_sort_contains(ps, sorted[j]);
            assert(sorted.contains(sorted[i]));
            assert(sorted.contains(sorted[j]));
            let k1 = choose|k: int| 0 <= k < ps.len() && ps[k] == sorted[i];
            let k2 = choose|k: int| 0 <= k < ps.len() && ps[k] == sorted[j];
            assert(users[k1].name == users[k2].name);
            assert(false);
        }
    }
}

/// A `user_info` call with any number of path arguments other than one is
/// answered 404 with the argument-count reason, and no lookup happens.
pub proof fn lemma_user_info_arg_count(path: Seq<char>, users: Seq<UserEntryV>)
    requires
        spec_split(path).len() >= 2,
        spec_split(path).len() != 3,
        spec_split(path)[0] == (Seq::<char>::empty()),
        spec_split(path)[1] == "user_info"@,
    ensures
        spec_respond("GET"@, path, users) == spec_err_reply(
            spec_arg_count_reason(spec_split(path).len() as int),
        ),
        spec_respond("GET"@, path, users).status == 404,
{
    reveal_strlit("user_info");
    reveal_strlit("version");
    assert("user_info"@.len() == 9);
    assert("version"@.len() == 7);
    assert("user_info"@ != "version"@);
    assert(spec_respond("GET"@, path, users) =~~= spec_err_reply(
        spec_arg_count_reason(spec_split(path).len() as int),
    ));
}

} // verus!
