//! The in-memory model of the loaded JSON document.
//!
//! The document is reduced, once, at startup, to the plain values the
//! handlers read: for each user its name, its record serialized as JSON
//! text, and its top-level integer fields. A field that is missing or not
//! an integer is simply absent from the list and counts as zero when
//! sorting, so one sparse record never brings the service down.

use vstd::prelude::*;
use crate::text::str_eq;

verus! {

/// One top-level integer attribute of a user record.
pub struct NumField {
    pub name: String,
    pub value: i64,
}

/// Spec-level image of a [`NumField`].
pub struct NumFieldV {
    pub name: Seq<char>,
    pub value: int,
}

impl View for NumField {
    type V = NumFieldV;

    open spec fn view(&self) -> NumFieldV {
        NumFieldV { name: self.name@, value: self.value as int }
    }
}

impl DeepView for NumField {
    type V = NumFieldV;

    open spec fn deep_view(&self) -> NumFieldV {
        self.view()
    }
}

/// One user record: its full JSON text and its integer attributes.
pub struct UserRecord {
    pub json: String,
    pub fields: Vec<NumField>,
}

/// Spec-level image of a [`UserRecord`].
pub struct UserRecordV {
    pub json: Seq<char>,
    pub fields: Seq<NumFieldV>,
}

impl View for UserRecord {
    type V = UserRecordV;

    open spec fn view(&self) -> UserRecordV {
        UserRecordV { json: self.json@, fields: self.fields.deep_view() }
    }
}

/// One entry of the document: a username and its record.
pub struct UserEntry {
    pub name: String,
    pub record: UserRecord,
}

/// Spec-level image of a [`UserEntry`].
pub struct UserEntryV {
    pub name: Seq<char>,
    pub record: UserRecordV,
}

impl View for UserEntry {
    type V = UserEntryV;

    open spec fn view(&self) -> UserEntryV {
        UserEntryV { name: self.name@, record: self.record@ }
    }
}

impl DeepView for UserEntry {
    type V = UserEntryV;

    open spec fn deep_view(&self) -> UserEntryV {
        self.view()
    }
}

/// The immutable snapshot served for the whole run of the process.
pub struct Document {
    pub users: Vec<UserEntry>,
}

impl View for Document {
    type V = Seq<UserEntryV>;

    open spec fn view(&self) -> Seq<UserEntryV> {
        self.users.deep_view()
    }
}

impl Document {
    /// Usernames are unique, as keys of a JSON object are.
    pub open spec fn wf(&self) -> bool {
        forall|i: int, j: int|
            0 <= i < j < self@.len() ==> self@[i].name != self@[j].name
    }
}

/// The record stored for `name`, if any: the first entry whose name matches.
pub open spec fn spec_find_user(users: Seq<UserEntryV>, name: Seq<char>) -> Option<UserRecordV>
    decreases users.len(),
{
    if users.len() == 0 {
        None
    } else if users[0].name == name {
        Some(users[0].record)
    } else {
        spec_find_user(users.drop_first(), name)
    }
}

/// A user of this name exists in the document.
pub open spec fn spec_user_exists(users: Seq<UserEntryV>, name: Seq<char>) -> bool {
    exists|i: int| 0 <= i < users.len() && users[i].name == name
}

/// `spec_find_user` succeeds exactly on the names present in the document.
pub proof fn lemma_find_user_exists(users: Seq<UserEntryV>, name: Seq<char>)
    ensures
        spec_find_user(users, name) is Some <==> spec_user_exists(users, name),
    decreases users.len(),
{
    if users.len() != 0 && users[0].name != name {
        lemma_find_user_exists(users.drop_first(), name);
        if spec_user_exists(users.drop_first(), name) {
            let i = choose|i: int|
                0 <= i < users.drop_first().len() && users.drop_first()[i].name == name;
            assert(users[i + 1].name == name);
        }
        if spec_user_exists(users, name) {
            let i = choose|i: int| 0 <= i < users.len() && users[i].name == name;
            assert(users.drop_first()[i - 1].name == name);
        }
    }
}

/// Look `name` up in the document.
pub fn find_user<'a>(doc: &'a Document, name: &str) -> (r: Option<&'a UserRecord>)
    ensures
        match r {
            Some(rec) => spec_find_user(doc@, name@) == Some(rec@),
            None => spec_find_user(doc@, name@) is None,
        },
{
    let n = doc.users.len();
    let mut i: usize = 0;
    proof {
        assert(doc@.skip(0) =~= doc@);
    }
    while i < n
        invariant
            n == doc@.len(),
            i <= n,
            spec_find_user(doc@, name@) == spec_find_user(doc@.skip(i as int), name@),
        decreases n - i,
    {
        let ghost rest = doc@.skip(i as int);
        proof {
            assert(rest[0] == doc@[i as int]);
            assert(rest.drop_first() =~= doc@.skip(i + 1));
        }
        if str_eq(doc.users[i].name.as_str(), name) {
            return Some(&doc.users[i].record);
        }
        i += 1;
    }
    proof {
        assert(doc@.skip(n as int) =~= Seq::<UserEntryV>::empty());
    }
    None
}

/// The value sorted on for one user: the named integer attribute, or zero
/// where the record has no such attribute.
pub open spec fn spec_field_value(fields: Seq<NumFieldV>, name: Seq<char>) -> int
    decreases fields.len(),
{
    if fields.len() == 0 {
        0
    } else if fields[0].name == name {
        fields[0].value
    } else {
        spec_field_value(fields.drop_first(), name)
    }
}

/// Read the named integer attribute of a record, defaulting to zero.
pub fn field_value(rec: &UserRecord, name: &str) -> (v: i64)
    ensures
        v as int == spec_field_value(rec@.fields, name@),
{
    let n = rec.fields.len();
    let mut i: usize = 0;
    proof {
        assert(rec@.fields.skip(0) =~= rec@.fields);
    }
    while i < n
        invariant
            n == rec@.fields.len(),
            i <= n,
            spec_field_value(rec@.fields, name@) == spec_field_value(
                rec@.fields.skip(i as int),
                name@,
            ),
        decreases n - i,
    {
        let ghost rest = rec@.fields.skip(i as int);
        proof {
            assert(rest[0] == rec@.fields[i as int]);
            assert(rest.drop_first() =~= rec@.fields.skip(i + 1));
        }
        if str_eq(rec.fields[i].name.as_str(), name) {
            return rec.fields[i].value;
        }
        i += 1;
    }
    proof {
        assert(rec@.fields.skip(n as int) =~= Seq::<NumFieldV>::empty());
    }
    0
}

} // verus!
