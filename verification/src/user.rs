//! The `User` record of the generated project and the decisions made
//! around its storage keys and updates. The store calls themselves (scan,
//! get, put, update, delete) belong to the generated service, which makes
//! them through its storage client.

use vstd::prelude::*;
use crate::keys::{gen_pk, lower_hex_i64, pk_of};
use crate::text::{
    chars_eq, chars_to_string, extend_chars, occurs_at_exec, starts_with, str_to_chars, sub_chars,
};

verus! {

/// A moment as seconds since the Unix epoch and the nanoseconds within that second.
#[derive(Debug, Clone, Copy, PartialEq, Eq, Structural)]
pub struct Timestamp {
    pub secs: i64,
    pub nanos: u32,
}

/// A user item. Users are stored under `pk == "User#<uid>"`, `sk == "#"`.
#[derive(Debug)]
pub struct User {
    pub pk: Option<String>,
    pub sk: Option<String>,
    pub email: String,
    pub name: String,
    pub role: String,
    pub given_name: Option<String>,
    pub family_name: Option<String>,
    pub picture: Option<String>,
    pub status: Option<String>,
    pub created: Option<Timestamp>,
}

/// The view of an optional string.
pub open spec fn opt_view(s: Option<String>) -> Option<Seq<char>> {
    match s {
        Some(x) => Some(x@),
        None => None,
    }
}

/// The view of an optional string slice.
pub open spec fn opt_str_view(s: Option<&str>) -> Option<Seq<char>> {
    match s {
        Some(x) => Some(x@),
        None => None,
    }
}

/// Prefix of every user partition key.
pub open spec fn user_pk_prefix() -> Seq<char> {
    "User#"@
}

/// `User` alone, or `User#<uid>`.
pub open spec fn user_pk(uid: Option<Seq<char>>) -> Seq<char> {
    match uid {
        Some(u) => pk_of("User"@, u),
        None => "User"@,
    }
}

/// `#` alone, or `#<uid>`.
pub open spec fn user_sk(uid: Option<Seq<char>>) -> Seq<char> {
    match uid {
        Some(u) => seq!['#'] + u,
        None => seq!['#'],
    }
}

/// The uid of a user: what follows `User#` in its pk, else what follows
/// `#` in its sk, else nothing.
pub open spec fn uid_of(pk: Option<Seq<char>>, sk: Option<Seq<char>>) -> Seq<char> {
    if pk is Some && starts_with(pk->0, user_pk_prefix()) {
        pk->0.skip(5)
    } else if sk is Some && starts_with(sk->0, seq!['#']) {
        sk->0.skip(1)
    } else {
        seq![]
    }
}

/// A string value of a JSON object, as the update logic reads it: the key,
/// and the text when the value is a JSON string (`None` for any other value).
pub struct JsonField {
    pub key: String,
    pub text: Option<String>,
}

/// The text stored under `key` in an object (the first field with that key),
/// when it is a JSON string.
pub open spec fn string_field(body: Seq<JsonField>, key: Seq<char>) -> Option<Seq<char>>
    decreases body.len(),
{
    if body.len() == 0 {
        None
    } else if body[0].key@ == key {
        opt_view(body[0].text)
    } else {
        string_field(body.skip(1), key)
    }
}

/// The `(field, text)` pairs to write: each listed field, in order, that
/// holds a string in the body.
pub open spec fn planned_updates(body: Seq<JsonField>, fields: Seq<Seq<char>>) -> Seq<(Seq<char>, Seq<char>)>
    decreases fields.len(),
{
    if fields.len() == 0 {
        seq![]
    } else {
        let rest = planned_updates(body, fields.drop_last());
        match string_field(body, fields.last()) {
            Some(t) => rest.push((fields.last(), t)),
            None => rest,
        }
    }
}

/// The uid a request body names: the string under `"uid"` of a JSON object.
pub open spec fn request_uid(from_map: Option<&Vec<JsonField>>) -> Option<Seq<char>> {
    match from_map {
        Some(body) => string_field(body@, "uid"@),
        None => None,
    }
}

/// A body field named exactly `key`, before which no field has that name.
pub open spec fn first_field_at(body: Seq<JsonField>, key: Seq<char>, i: int) -> bool {
    &&& 0 <= i < body.len()
    &&& body[i].key@ == key
    &&& forall|j: int| 0 <= j < i ==> (#[trigger] body[j]).key@ != key
}

/// Looking up a key reads the field whose name equals the key character for
/// character (the first such field); with no field of that name there is no text.
pub proof fn lemma_string_field_exact(body: Seq<JsonField>, key: Seq<char>)
    ensures
        forall|i: int| #[trigger] first_field_at(body, key, i) ==> string_field(body, key) == opt_view(
            body[i].text,
        ),
        (forall|i: int| 0 <= i < body.len() ==> (#[trigger] body[i]).key@ != key) ==> string_field(
            body,
            key,
        ) is None,
        string_field(body, key) is Some ==> exists|i: int|
            #[trigger] first_field_at(body, key, i) && string_field(body, key) == opt_view(
                body[i].text,
            ),
    decreases body.len(),
{
    if body.len() > 0 {
        let rest = body.skip(1);
        lemma_string_field_exact(rest, key);
        assert forall|i: int| #[trigger] first_field_at(body, key, i) implies string_field(body, key)
            == opt_view(body[i].text) by {
            if i > 0 {
                assert(body[0].key@ != key);
                assert(rest[i - 1] == body[i]);
                assert forall|j: int| 0 <= j < i - 1 implies (#[trigger] rest[j]).key@ != key by {
                    assert(rest[j] == body[j + 1]);
                }
                assert(first_field_at(rest, key, i - 1));
            }
        }
        if forall|i: int| 0 <= i < body.len() ==> (#[trigger] body[i]).key@ != key {
            assert(body[0].key@ != key);
            assert forall|i: int| 0 <= i < rest.len() implies (#[trigger] rest[i]).key@ != key by {
                assert(rest[i] == body[i + 1]);
            }
        }
        if string_field(body, key) is Some {
            if body[0].key@ == key {
                assert(first_field_at(body, key, 0));
            } else {
                let i = choose|i: int|
                    #[trigger] first_field_at(rest, key, i) && string_field(rest, key) == opt_view(
                        rest[i].text,
                    );
                assert(rest[i] == body[i + 1]);
                assert forall|j: int| 0 <= j < i + 1 implies (#[trigger] body[j]).key@ != key by {
                    if j > 0 {
                        assert(body[j] == rest[j - 1]);
                    }
                }
                assert(first_field_at(body, key, i + 1));
            }
        }
    }
}

/// Every planned write names a listed field and carries the text of the body
/// field with exactly that name; and every listed field whose body text is a
/// string is planned.
pub proof fn lemma_planned_updates_from_body(body: Seq<JsonField>, fields: Seq<Seq<char>>)
    ensures
        forall|j: int|
            0 <= j < planned_updates(body, fields).len() ==> {
                let (f, t) = #[trigger] planned_updates(body, fields)[j];
                &&& fields.contains(f)
                &&& exists|i: int| #[trigger] first_field_at(body, f, i) && opt_view(body[i].text) == Some(t)
            },
        forall|k: int|
            0 <= k < fields.len() && #[trigger] string_field(body, fields[k]) is Some ==> planned_updates(
                body,
                fields,
            ).contains((fields[k], string_field(body, fields[k])->0)),
    decreases fields.len(),
{
    if fields.len() > 0 {
        let init = fields.drop_last();
        lemma_planned_updates_from_body(body, init);
        lemma_string_field_exact(body, fields.last());
        let p = planned_updates(body, fields);
        let q = planned_updates(body, init);
        assert forall|j: int| 0 <= j < p.len() implies {
            let (f, t) = #[trigger] p[j];
            &&& fields.contains(f)
            &&& exists|i: int| #[trigger] first_field_at(body, f, i) && opt_view(body[i].text) == Some(t)
        } by {
            if j < q.len() {
                assert(p[j] == q[j]);
                let (f, t) = q[j];
                assert(init.contains(f));
                let m = choose|m: int| 0 <= m < init.len() && init[m] == f;
                assert(fields[m] == f);
            } else {
                assert(p[j] == (fields.last(), string_field(body, fields.last())->0));
                assert(fields[fields.len() - 1] == fields.last());
            }
        }
        assert forall|k: int|
            0 <= k < fields.len() && #[trigger] string_field(body, fields[k]) is Some implies p.contains(
            (fields[k], string_field(body, fields[k])->0),
        ) by {
            if k < fields.len() - 1 {
                assert(init[k] == fields[k]);
                assert(string_field(body, init[k]) is Some);
                let m = choose|m: int| 0 <= m < q.len() && q[m] == (init[k], string_field(body, init[k])->0);
                if string_field(body, fields.last()) is Some {
                    assert(p[m] == q[m]);
                } else {
                    assert(p == q);
                }
            } else {
                assert(p[p.len() - 1] == (fields[k], string_field(body, fields[k])->0));
            }
        }
    }
}

/// Why an update request is refused.
#[derive(PartialEq, Eq, Structural, Debug, Clone, Copy)]
pub enum UpdateUserError {
    /// The request body is not a JSON object.
    NotAnObject,
    /// None of the updatable fields holds a string.
    NoAttributes,
}

impl UpdateUserError {
    /// The message of the bad-request answer.
    pub fn message(&self) -> (r: &'static str)
        ensures
            *self == UpdateUserError::NotAnObject ==> r@ == "request body must be a JSON object"@,
            *self == UpdateUserError::NoAttributes ==> r@ == "No attributes to update"@,
    {
        match self {
            UpdateUserError::NotAnObject => "request body must be a JSON object",
            UpdateUserError::NoAttributes => "No attributes to update",
        }
    }
}

/// The writes of an accepted update: the item's keys and the new texts.
pub struct UserUpdate {
    pub pk: String,
    pub sk: String,
    pub updates: Vec<(String, String)>,
}

/// The views of the planned writes.
pub open spec fn update_views(u: Seq<(String, String)>) -> Seq<(Seq<char>, Seq<char>)> {
    u.map_values(|p: (String, String)| (p.0@, p.1@))
}

/// The character views of string slices.
pub open spec fn field_views(f: Seq<&str>) -> Seq<Seq<char>> {
    f.map_values(|s: &str| s@)
}

/// What the scan for all users is filtered with: the filter expression,
/// the attribute names, and the string attribute values.
pub struct ScanParams {
    pub filter: String,
    pub names: Vec<(String, String)>,
    pub values: Vec<(String, String)>,
}

fn copy_string(s: &String) -> (r: String)
    ensures
        r@ == s@,
{
    chars_to_string(&str_to_chars(s.as_str()))
}

fn copy_opt_string(s: &Option<String>) -> (r: Option<String>)
    ensures
        opt_view(r) == opt_view(*s),
{
    match s {
        Some(x) => Some(copy_string(x)),
        None => None,
    }
}

/// The text under `key` in `body`.
fn lookup_string(body: &Vec<JsonField>, key: &Vec<char>) -> (r: Option<String>)
    ensures
        opt_view(r) == string_field(body@, key@),
{
    let ghost b = body@;
    assert(b.skip(0) == b);
    for i in 0..body.len()
        invariant
            b == body@,
            string_field(b.skip(i as int), key@) == string_field(b, key@),
    {
        assert(b.skip(i as int)[0] == b[i as int]);
        assert(b.skip(i as int).skip(1) == b.skip(i + 1));
        let k = str_to_chars(body[i].key.as_str());
        if chars_eq(&k, key) {
            return copy_opt_string(&body[i].text);
        }
    }
    assert(b.skip(body.len() as int).len() == 0);
    None
}

impl User {
    /// The partition key of a user, or the common prefix of all of them.
    pub fn makepk(uid: Option<&str>) -> (r: String)
        ensures
            r@ == user_pk(opt_str_view(uid)),
    {
        match uid {
            Some(u) => {
                let mut out = str_to_chars("User");
                out.push('#');
                extend_chars(&mut out, &str_to_chars(u));
                chars_to_string(&out)
            },
            None => chars_to_string(&str_to_chars("User")),
        }
    }

    /// The sort key of a user item.
    pub fn makesk(uid: Option<&str>) -> (r: String)
        ensures
            r@ == user_sk(opt_str_view(uid)),
    {
        let mut out: Vec<char> = Vec::new();
        out.push('#');
        match uid {
            Some(u) => {
                extend_chars(&mut out, &str_to_chars(u));
            },
            None => {},
        }
        chars_to_string(&out)
    }

    /// The uid of this user, read from its keys.
    pub fn uid(&self) -> (r: String)
        ensures
            r@ == uid_of(opt_view(self.pk), opt_view(self.sk)),
    {
        proof {
            reveal_strlit("User#");
        }
        let prefix = str_to_chars("User#");
        match &self.pk {
            Some(pk) => {
                let p = str_to_chars(pk.as_str());
                if occurs_at_exec(&p, &prefix, 0) {
                    let rest = sub_chars(&p, 5, p.len());
                    assert(rest@ == p@.skip(5));
                    return chars_to_string(&rest);
                }
            },
            None => {},
        }
        match &self.sk {
            Some(sk) => {
                let s = str_to_chars(sk.as_str());
                let mut hash: Vec<char> = Vec::new();
                hash.push('#');
                if occurs_at_exec(&s, &hash, 0) {
                    let rest = sub_chars(&s, 1, s.len());
                    assert(rest@ == s@.skip(1));
                    return chars_to_string(&rest);
                }
            },
            None => {},
        }
        String::new()
    }

    /// Whether this user has the given role.
    pub fn iam(&self, role: &str) -> (r: bool)
        ensures
            r == (self.role@ == role@),
    {
        chars_eq(&str_to_chars(self.role.as_str()), &str_to_chars(role))
    }

    /// Sets the keys of a new user item: `User#<uid>` when the request names
    /// a uid, else a fresh key stamped with the current time; the sort key is `#`.
    pub fn set_keys_for_uid(&mut self, uid: Option<&str>)
        ensures
            opt_view(final(self).sk) == Some(seq!['#']),
            uid is Some ==> opt_view(final(self).pk) == Some(pk_of("User"@, uid->0@)),
            uid is None ==> exists|t: i64|
                t >= 0 && opt_view(final(self).pk) == Some(pk_of("User"@, #[trigger] lower_hex_i64(t))),
            final(self).email == old(self).email,
            final(self).name == old(self).name,
            final(self).role == old(self).role,
            final(self).given_name == old(self).given_name,
            final(self).family_name == old(self).family_name,
            final(self).picture == old(self).picture,
            final(self).status == old(self).status,
            final(self).created == old(self).created,
    {
        let pk = match uid {
            Some(u) => User::makepk(Some(u)),
            None => gen_pk("User"),
        };
        self.pk = Some(pk);
        self.sk = Some(User::makesk(None));
    }

    /// Sets the keys of a new user item from the request body: the uid is the
    /// string under `"uid"` when the body is a JSON object that holds one
    /// (`from_map` is `None` when the body is not an object).
    pub fn set_default_keys(&mut self, from_map: Option<&Vec<JsonField>>)
        ensures
            opt_view(final(self).sk) == Some(seq!['#']),
            request_uid(from_map) matches Some(u) ==> opt_view(final(self).pk) == Some(
                pk_of("User"@, u),
            ),
            request_uid(from_map) is None ==> exists|t: i64|
                t >= 0 && opt_view(final(self).pk) == Some(pk_of("User"@, #[trigger] lower_hex_i64(t))),
            final(self).email == old(self).email,
            final(self).name == old(self).name,
            final(self).role == old(self).role,
            final(self).given_name == old(self).given_name,
            final(self).family_name == old(self).family_name,
            final(self).picture == old(self).picture,
            final(self).status == old(self).status,
            final(self).created == old(self).created,
    {
        let uid = match from_map {
            Some(body) => lookup_string(body, &str_to_chars("uid")),
            None => None,
        };
        match uid {
            Some(u) => self.set_keys_for_uid(Some(u.as_str())),
            None => self.set_keys_for_uid(None),
        }
    }

    /// The filter of the scan that lists users: items whose pk begins with `User#`.
    pub fn user_scan_params() -> (r: ScanParams)
        ensures
            r.filter@ == "begins_with(#pk, :pkv)"@,
            r.names@.len() == 1,
            r.names@[0].0@ == "#pk"@,
            r.names@[0].1@ == "pk"@,
            r.values@.len() == 1,
            r.values@[0].0@ == ":pkv"@,
            r.values@[0].1@ == user_pk_prefix(),
    {
        let filter = chars_to_string(&str_to_chars("begins_with(#pk, :pkv)"));
        let mut names: Vec<(String, String)> = Vec::new();
        names.push((chars_to_string(&str_to_chars("#pk")), chars_to_string(&str_to_chars("pk"))));
        let mut values: Vec<(String, String)> = Vec::new();
        values.push(
            (chars_to_string(&str_to_chars(":pkv")), chars_to_string(&str_to_chars("User#"))),
        );
        ScanParams { filter, names, values }
    }

    /// Decides the writes of an update of user `uid`: the body must be a JSON
    /// object (`None` when it is not), and at least one of `fields` must hold a
    /// string in it; each such field, in the order of `fields`, is written.
    pub fn plan_update(uid: &str, body: Option<&Vec<JsonField>>, fields: &[&str]) -> (r: Result<
        UserUpdate,
        UpdateUserError,
    >)
        ensures
            body is None ==> r == Err::<UserUpdate, UpdateUserError>(UpdateUserError::NotAnObject),
            body is Some && planned_updates(body->0@, field_views(fields@)).len() == 0 ==> r
                == Err::<UserUpdate, UpdateUserError>(UpdateUserError::NoAttributes),
            body is Some && planned_updates(body->0@, field_views(fields@)).len() > 0 ==> (r is Ok
                && r->Ok_0.pk@ == user_pk(Some(uid@)) && r->Ok_0.sk@ == user_sk(None)
                && update_views(r->Ok_0.updates@) == planned_updates(body->0@, field_views(fields@))),
    {
        let pk = User::makepk(Some(uid));
        let sk = User::makesk(None);
        let body = match body {
            Some(b) => b,
            None => {
                return Err(UpdateUserError::NotAnObject);
            },
        };
        let ghost fv = field_views(fields@);
        let mut updates: Vec<(String, String)> = Vec::new();
        for i in 0..fields.len()
            invariant
                fv == field_views(fields@),
                update_views(updates@) == planned_updates(body@, fv.take(i as int)),
        {
            let key = str_to_chars(fields[i]);
            assert(fv.take(i + 1).drop_last() == fv.take(i as int));
            assert(fv.take(i + 1).last() == key@);
            match lookup_string(body, &key) {
                Some(text) => {
                    let ghost before = updates@;
                    let pair = (chars_to_string(&key), text);
                    updates.push(pair);
                    assert(update_views(updates@) == update_views(before).push((key@, pair.1@)));
                },
                None => {},
            }
        }
        assert(fv.take(fields.len() as int) == fv);
        if updates.len() == 0 {
            return Err(UpdateUserError::NoAttributes);
        }
        Ok(UserUpdate { pk, sk, updates })
    }
}

/// The fields that an update request may change.
pub fn user_update_fields() -> (r: Vec<&'static str>)
    ensures
        field_views(r@) == seq!["name"@, "given_name"@, "family_name"@, "title"@, "role"@],
{
    let r = vec!["name", "given_name", "family_name", "title", "role"];
    assert(field_views(r@) == seq!["name"@, "given_name"@, "family_name"@, "title"@, "role"@]);
    r
}

/// The uid of a user keyed by `makepk(Some(uid))` is `uid`, whatever its sort
/// key; a user keyed by `makepk(None)` with sort key `makesk(Some(uid))` has uid `uid`.
pub proof fn lemma_uid_of_made_keys(uid: Seq<char>, sk: Option<Seq<char>>)
    ensures
        uid_of(Some(user_pk(Some(uid))), sk) == uid,
        uid_of(Some(user_pk(None)), Some(user_sk(Some(uid)))) == uid,
{
    reveal_strlit("User#");
    reveal_strlit("User");
    let pk = user_pk(Some(uid));
    assert(pk.subrange(0, 5) == user_pk_prefix());
    assert(pk.skip(5) == uid);
    assert(!starts_with(user_pk(None), user_pk_prefix()));
    let s = user_sk(Some(uid));
    assert(s.subrange(0, 1) == seq!['#']);
    assert(s.skip(1) == uid);
}

} // verus!
