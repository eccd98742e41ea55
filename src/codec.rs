use vstd::prelude::*;

use crate::json::{get, lookup, push_member, text, Json, Member};
use crate::model::{Category, Garden, GardenItem, GardenReference, Maintainer, Theme};

verus! {

/// What went wrong while turning a JSON value into a record.
pub enum DecodeErrorKind {
    /// The value is not a JSON object.
    NotAnObject,
    /// A required field is absent.
    Missing,
    /// A field holds a value of the wrong JSON type.
    WrongType,
}

/// A decoding failure and the field it concerns (empty for the value itself).
pub struct DecodeError {
    pub field: String,
    pub kind: DecodeErrorKind,
}

/// Field `k` holds the string `s`.
pub open spec fn str_at(ms: Seq<Member>, k: Seq<char>, s: String) -> bool {
    lookup(ms, k) == Some(Json::Str(s))
}

/// Field `k` holds the string of `o`, or is absent when `o` is `None`.
pub open spec fn opt_str_at(ms: Seq<Member>, k: Seq<char>, o: Option<String>) -> bool {
    match o {
        Some(s) => str_at(ms, k, s),
        None => lookup(ms, k) is None,
    }
}

/// A record type with a JSON form: `encodes(x, j)` says that `j` is a JSON form of `x`.
/// A JSON form may carry fields that the record does not declare; an absent
/// optional field has no key at all.
pub trait JsonCodec: Sized {
    spec fn encodes(self, j: Json) -> bool;

    /// `k` is the name of a declared field.
    spec fn declares(k: Seq<char>) -> bool;

    /// The JSON form of `self`; it holds declared fields only.
    fn encode(&self) -> (j: Json)
        ensures
            self.encodes(j),
            j matches Json::Object(ms) && forall|i: int|
                0 <= i < ms@.len() ==> Self::declares(#[trigger] ms@[i].key@),
    ;

    /// The record whose JSON form `j` is; fails exactly when there is none.
    fn decode(j: &Json) -> (r: Result<Self, DecodeError>)
        ensures
            r matches Ok(x) ==> x.encodes(*j),
            forall|x: Self| #[trigger] x.encodes(*j) ==> r is Ok,
            !(j is Object) ==> (r matches Err(e) && e.kind is NotAnObject),
    ;

    /// Round trip: a JSON value is the form of at most one record, so decoding
    /// the JSON form of `x` (which `decode` does not fail on) gives back `x`.
    proof fn lemma_round_trip(x: Self, y: Self, j: Json)
        requires
            x.encodes(j),
            y.encodes(j),
        ensures
            x == y,
    ;
}

/// Field `k` holds a JSON form of `o`, or is absent when `o` is `None`.
pub open spec fn opt_at<T: JsonCodec>(ms: Seq<Member>, k: Seq<char>, o: Option<T>) -> bool {
    match o {
        Some(t) => lookup(ms, k) matches Some(v) && t.encodes(v),
        None => lookup(ms, k) is None,
    }
}

/// `a` holds the JSON forms of the elements of `v`, in order.
pub open spec fn encodes_seq<T: JsonCodec>(v: Seq<T>, a: Seq<Json>) -> bool {
    &&& a.len() == v.len()
    &&& forall|i: int| 0 <= i < v.len() ==> #[trigger] v[i].encodes(a[i])
}

/// Field `k` holds an array of the JSON forms of `o`, or is absent when `o` is `None`.
pub open spec fn list_at<T: JsonCodec>(ms: Seq<Member>, k: Seq<char>, o: Option<Vec<T>>) -> bool {
    match o {
        Some(v) => lookup(ms, k) matches Some(Json::Array(a)) && encodes_seq(v@, a@),
        None => lookup(ms, k) is None,
    }
}

/// Two optional vectors hold the same elements.
pub open spec fn same_opt_vec<T>(a: Option<Vec<T>>, b: Option<Vec<T>>) -> bool {
    match (a, b) {
        (Some(x), Some(y)) => x@ == y@,
        (None, None) => true,
        _ => false,
    }
}

pub proof fn lemma_encodes_seq_unique<T: JsonCodec>(v: Seq<T>, w: Seq<T>, a: Seq<Json>)
    requires
        encodes_seq(v, a),
        encodes_seq(w, a),
    ensures
        v == w,
{
    assert forall|i: int| 0 <= i < v.len() implies v[i] == w[i] by {
        T::lemma_round_trip(v[i], w[i], a[i]);
    }
    assert(v =~= w);
}

pub proof fn lemma_list_at_unique<T: JsonCodec>(
    ms: Seq<Member>,
    k: Seq<char>,
    a: Option<Vec<T>>,
    b: Option<Vec<T>>,
)
    requires
        list_at(ms, k, a),
        list_at(ms, k, b),
    ensures
        same_opt_vec(a, b),
{
    if let (Some(x), Some(y)) = (a, b) {
        if let Some(Json::Array(arr)) = lookup(ms, k) {
            lemma_encodes_seq_unique(x@, y@, arr@);
        }
    }
}

pub proof fn lemma_opt_at_unique<T: JsonCodec>(ms: Seq<Member>, k: Seq<char>, a: Option<T>, b: Option<T>)
    requires
        opt_at(ms, k, a),
        opt_at(ms, k, b),
    ensures
        a == b,
{
    if let (Some(x), Some(y)) = (a, b) {
        T::lemma_round_trip(x, y, lookup(ms, k)->Some_0);
    }
}

/// The field names of the records differ pairwise; their lengths and first
/// two characters tell them apart.
proof fn lemma_field_names()
    ensures
        "name"@.len() == 4,
        "name"@[0] == 'n',
        "name"@[1] == 'a',
        "description"@.len() == 11,
        "description"@[0] == 'd',
        "description"@[1] == 'e',
        "version"@.len() == 7,
        "version"@[0] == 'v',
        "version"@[1] == 'e',
        "categories"@.len() == 10,
        "categories"@[0] == 'c',
        "categories"@[1] == 'a',
        "maintainers"@.len() == 11,
        "maintainers"@[0] == 'm',
        "maintainers"@[1] == 'a',
        "created_at"@.len() == 10,
        "created_at"@[0] == 'c',
        "created_at"@[1] == 'r',
        "updated_at"@.len() == 10,
        "updated_at"@[0] == 'u',
        "updated_at"@[1] == 'p',
        "theme"@.len() == 5,
        "theme"@[0] == 't',
        "theme"@[1] == 'h',
        "supergardens"@.len() == 12,
        "supergardens"@[0] == 's',
        "supergardens"@[1] == 'u',
        "subgardens"@.len() == 10,
        "subgardens"@[0] == 's',
        "subgardens"@[1] == 'u',
        "homepage_url"@.len() == 12,
        "homepage_url"@[0] == 'h',
        "homepage_url"@[1] == 'o',
        "logo"@.len() == 4,
        "logo"@[0] == 'l',
        "logo"@[1] == 'o',
        "repo_url"@.len() == 8,
        "repo_url"@[0] == 'r',
        "repo_url"@[1] == 'e',
        "project_url"@.len() == 11,
        "project_url"@[0] == 'p',
        "project_url"@[1] == 'r',
        "twitter"@.len() == 7,
        "twitter"@[0] == 't',
        "twitter"@[1] == 'w',
        "url"@.len() == 3,
        "url"@[0] == 'u',
        "url"@[1] == 'r',
        "icon_color"@.len() == 10,
        "icon_color"@[0] == 'i',
        "icon_color"@[1] == 'c',
        "items"@.len() == 5,
        "items"@[0] == 'i',
        "items"@[1] == 't',
        "garden_refs"@.len() == 11,
        "garden_refs"@[0] == 'g',
        "garden_refs"@[1] == 'a',
        "email"@.len() == 5,
        "email"@[0] == 'e',
        "email"@[1] == 'm',
        "primary_color"@.len() == 13,
        "primary_color"@[0] == 'p',
        "primary_color"@[1] == 'r',
        "secondary_color"@.len() == 15,
        "secondary_color"@[0] == 's',
        "secondary_color"@[1] == 'e',
        "background_color"@.len() == 16,
        "background_color"@[0] == 'b',
        "background_color"@[1] == 'a',
        "text_color"@.len() == 10,
        "text_color"@[0] == 't',
        "text_color"@[1] == 'e',
{
    reveal_strlit("name");
    reveal_strlit("description");
    reveal_strlit("version");
    reveal_strlit("categories");
    reveal_strlit("maintainers");
    reveal_strlit("created_at");
    reveal_strlit("updated_at");
    reveal_strlit("theme");
    reveal_strlit("supergardens");
    reveal_strlit("subgardens");
    reveal_strlit("homepage_url");
    reveal_strlit("logo");
    reveal_strlit("repo_url");
    reveal_strlit("project_url");
    reveal_strlit("twitter");
    reveal_strlit("url");
    reveal_strlit("icon_color");
    reveal_strlit("items");
    reveal_strlit("garden_refs");
    reveal_strlit("email");
    reveal_strlit("primary_color");
    reveal_strlit("secondary_color");
    reveal_strlit("background_color");
    reveal_strlit("text_color");
}

fn err(field: &str, kind: DecodeErrorKind) -> (e: DecodeError)
    ensures
        e.field@ == field@,
        e.kind == kind,
{
    DecodeError { field: text(field), kind }
}

/// The members of an object.
pub fn members(j: &Json) -> (r: Result<&Vec<Member>, DecodeError>)
    ensures
        match r {
            Ok(ms) => *j == Json::Object(*ms),
            Err(e) => !(j is Object) && e.kind is NotAnObject,
        },
{
    match j {
        Json::Object(ms) => Ok(ms),
        _ => Err(err("", DecodeErrorKind::NotAnObject)),
    }
}

/// The required string field `key`.
pub fn req_str(ms: &Vec<Member>, key: &str) -> (r: Result<String, DecodeError>)
    ensures
        match r {
            Ok(s) => str_at(ms@, key@, s),
            Err(e) => {
                &&& forall|s: String| !str_at(ms@, key@, s)
                &&& e.field@ == key@
                &&& (e.kind is Missing <==> lookup(ms@, key@) is None)
                &&& (e.kind is WrongType <==> lookup(ms@, key@) is Some)
            },
        },
{
    match get(ms, key) {
        Some(Json::Str(s)) => Ok(s.clone()),
        Some(_) => Err(err(key, DecodeErrorKind::WrongType)),
        None => Err(err(key, DecodeErrorKind::Missing)),
    }
}

/// The optional string field `key`: absent gives `None`.
pub fn opt_str(ms: &Vec<Member>, key: &str) -> (r: Result<Option<String>, DecodeError>)
    ensures
        match r {
            Ok(o) => opt_str_at(ms@, key@, o),
            Err(e) => {
                &&& forall|o: Option<String>| !opt_str_at(ms@, key@, o)
                &&& e.field@ == key@
                &&& e.kind is WrongType
            },
        },
{
    match get(ms, key) {
        Some(Json::Str(s)) => Ok(Some(s.clone())),
        Some(_) => Err(err(key, DecodeErrorKind::WrongType)),
        None => Ok(None),
    }
}

/// The optional record field `key`.
pub fn opt_record<T: JsonCodec>(ms: &Vec<Member>, key: &str) -> (r: Result<Option<T>, DecodeError>)
    ensures
        match r {
            Ok(o) => opt_at(ms@, key@, o),
            Err(_) => forall|o: Option<T>| !opt_at(ms@, key@, o),
        },
{
    match get(ms, key) {
        Some(v) => match T::decode(v) {
            Ok(t) => Ok(Some(t)),
            Err(e) => Err(e),
        },
        None => Ok(None),
    }
}

/// Decodes each element of an array.
pub fn decode_seq<T: JsonCodec>(a: &Vec<Json>) -> (r: Result<Vec<T>, DecodeError>)
    ensures
        match r {
            Ok(v) => encodes_seq(v@, a@),
            Err(_) => forall|v: Seq<T>| !encodes_seq(v, a@),
        },
{
    let mut out: Vec<T> = Vec::new();
    let mut i: usize = 0;
    while i < a.len()
        invariant
            0 <= i <= a.len(),
            out@.len() == i,
            forall|j: int| 0 <= j < i ==> #[trigger] out@[j].encodes(a@[j]),
        decreases a.len() - i,
    {
        match T::decode(&a[i]) {
            Ok(t) => out.push(t),
            Err(e) => {
                assert forall|v: Seq<T>| !encodes_seq(v, a@) by {
                    if encodes_seq(v, a@) {
                        assert(v[i as int].encodes(a@[i as int]));
                    }
                }
                return Err(e);
            },
        }
        i += 1;
    }
    Ok(out)
}

/// The JSON forms of the elements of `v`, in order.
pub fn encode_seq<T: JsonCodec>(v: &Vec<T>) -> (a: Vec<Json>)
    ensures
        encodes_seq(v@, a@),
{
    let mut out: Vec<Json> = Vec::new();
    let mut i: usize = 0;
    while i < v.len()
        invariant
            0 <= i <= v.len(),
            out@.len() == i,
            forall|j: int| 0 <= j < i ==> #[trigger] v@[j].encodes(out@[j]),
        decreases v.len() - i,
    {
        out.push(v[i].encode());
        i += 1;
    }
    out
}

/// The optional array field `key`.
pub fn opt_list<T: JsonCodec>(ms: &Vec<Member>, key: &str) -> (r: Result<Option<Vec<T>>, DecodeError>)
    ensures
        match r {
            Ok(o) => list_at(ms@, key@, o),
            Err(_) => forall|o: Option<Vec<T>>| !list_at(ms@, key@, o),
        },
{
    match get(ms, key) {
        Some(Json::Array(a)) => match decode_seq(a) {
            Ok(v) => Ok(Some(v)),
            Err(e) => {
                assert forall|o: Option<Vec<T>>| !list_at(ms@, key@, o) by {
                    if let Some(v) = o {
                        assert(!encodes_seq(v@, a@));
                    }
                }
                Err(e)
            },
        },
        Some(_) => Err(err(key, DecodeErrorKind::WrongType)),
        None => Ok(None),
    }
}

/// Adds the string field `key`.
pub fn put_str(ms: &mut Vec<Member>, key: &str, s: &String)
    requires
        lookup(old(ms)@, key@) is None,
    ensures
        final(ms)@.len() >= old(ms)@.len(),
        forall|i: int| 0 <= i < old(ms)@.len() ==> final(ms)@[i] == old(ms)@[i],
        forall|i: int| old(ms)@.len() <= i < final(ms)@.len() ==> final(ms)@[i].key@ == key@,
        forall|k: Seq<char>| #[trigger] lookup(final(ms)@, k) == (if k == key@ {
            Some(Json::Str(*s))
        } else {
            lookup(old(ms)@, k)
        }),
{
    push_member(ms, key, Json::Str(s.clone()));
}

/// Adds the string field `key` when `o` holds one; otherwise adds nothing.
pub fn put_opt_str(ms: &mut Vec<Member>, key: &str, o: &Option<String>)
    requires
        lookup(old(ms)@, key@) is None,
    ensures
        final(ms)@.len() >= old(ms)@.len(),
        forall|i: int| 0 <= i < old(ms)@.len() ==> final(ms)@[i] == old(ms)@[i],
        forall|i: int| old(ms)@.len() <= i < final(ms)@.len() ==> final(ms)@[i].key@ == key@,
        forall|k: Seq<char>| #[trigger] lookup(final(ms)@, k) == (if k == key@ && o is Some {
            Some(Json::Str(o->Some_0))
        } else {
            lookup(old(ms)@, k)
        }),
{
    if let Some(s) = o {
        push_member(ms, key, Json::Str(s.clone()));
    }
}

/// Adds the record field `key` when `o` holds one; otherwise adds nothing.
pub fn put_opt_record<T: JsonCodec>(ms: &mut Vec<Member>, key: &str, o: &Option<T>)
    requires
        lookup(old(ms)@, key@) is None,
    ensures
        final(ms)@.len() >= old(ms)@.len(),
        forall|i: int| 0 <= i < old(ms)@.len() ==> final(ms)@[i] == old(ms)@[i],
        forall|i: int| old(ms)@.len() <= i < final(ms)@.len() ==> final(ms)@[i].key@ == key@,
        opt_at(final(ms)@, key@, *o),
        forall|k: Seq<char>| k != key@ ==> #[trigger] lookup(final(ms)@, k) == lookup(old(ms)@, k),
{
    if let Some(t) = o {
        push_member(ms, key, t.encode());
    }
}

/// Adds the array field `key` when `o` holds one; otherwise adds nothing.
pub fn put_opt_list<T: JsonCodec>(ms: &mut Vec<Member>, key: &str, o: &Option<Vec<T>>)
    requires
        lookup(old(ms)@, key@) is None,
    ensures
        final(ms)@.len() >= old(ms)@.len(),
        forall|i: int| 0 <= i < old(ms)@.len() ==> final(ms)@[i] == old(ms)@[i],
        forall|i: int| old(ms)@.len() <= i < final(ms)@.len() ==> final(ms)@[i].key@ == key@,
        list_at(final(ms)@, key@, *o),
        forall|k: Seq<char>| k != key@ ==> #[trigger] lookup(final(ms)@, k) == lookup(old(ms)@, k),
{
    if let Some(v) = o {
        push_member(ms, key, Json::Array(encode_seq(v)));
    }
}

} // verus!

verus! {

impl JsonCodec for GardenItem {
    open spec fn declares(k: Seq<char>) -> bool {
        k == "name"@ || k == "homepage_url"@ || k == "logo"@ || k == "repo_url"@ || k == "project_url"@ || k == "twitter"@ || k == "description"@
    }

    open spec fn encodes(self, j: Json) -> bool {
        match j {
            Json::Object(ms) => {
                &&& str_at(ms@, "name"@, self.name)
                &&& str_at(ms@, "homepage_url"@, self.homepage_url)
                &&& opt_str_at(ms@, "logo"@, self.logo)
                &&& opt_str_at(ms@, "repo_url"@, self.repo_url)
                &&& opt_str_at(ms@, "project_url"@, self.project_url)
                &&& opt_str_at(ms@, "twitter"@, self.twitter)
                &&& opt_str_at(ms@, "description"@, self.description)
            },
            _ => false,
        }
    }

    fn encode(&self) -> (j: Json) {
        proof { lemma_field_names(); }
        let mut ms: Vec<Member> = Vec::new();
        put_str(&mut ms, "name", &self.name);
        put_str(&mut ms, "homepage_url", &self.homepage_url);
        put_opt_str(&mut ms, "logo", &self.logo);
        put_opt_str(&mut ms, "repo_url", &self.repo_url);
        put_opt_str(&mut ms, "project_url", &self.project_url);
        put_opt_str(&mut ms, "twitter", &self.twitter);
        put_opt_str(&mut ms, "description", &self.description);
        Json::Object(ms)
    }

    fn decode(j: &Json) -> (r: Result<Self, DecodeError>) {
        let ms = members(j)?;
        let name = req_str(ms, "name")?;
        let homepage_url = req_str(ms, "homepage_url")?;
        let logo = opt_str(ms, "logo")?;
        let repo_url = opt_str(ms, "repo_url")?;
        let project_url = opt_str(ms, "project_url")?;
        let twitter = opt_str(ms, "twitter")?;
        let description = opt_str(ms, "description")?;
        Ok(GardenItem { name, homepage_url, logo, repo_url, project_url, twitter, description })
    }

    proof fn lemma_round_trip(x: Self, y: Self, j: Json) {
    }
}

} // verus!

verus! {

impl JsonCodec for GardenReference {
    open spec fn declares(k: Seq<char>) -> bool {
        k == "name"@ || k == "url"@ || k == "description"@ || k == "logo"@ || k == "version"@
    }

    open spec fn encodes(self, j: Json) -> bool {
        match j {
            Json::Object(ms) => {
                &&& str_at(ms@, "name"@, self.name)
                &&& str_at(ms@, "url"@, self.url)
                &&& opt_str_at(ms@, "description"@, self.description)
                &&& opt_str_at(ms@, "logo"@, self.logo)
                &&& opt_str_at(ms@, "version"@, self.version)
            },
            _ => false,
        }
    }

    fn encode(&self) -> (j: Json) {
        proof { lemma_field_names(); }
        let mut ms: Vec<Member> = Vec::new();
        put_str(&mut ms, "name", &self.name);
        put_str(&mut ms, "url", &self.url);
        put_opt_str(&mut ms, "description", &self.description);
        put_opt_str(&mut ms, "logo", &self.logo);
        put_opt_str(&mut ms, "version", &self.version);
        Json::Object(ms)
    }

    fn decode(j: &Json) -> (r: Result<Self, DecodeError>) {
        let ms = members(j)?;
        let name = req_str(ms, "name")?;
        let url = req_str(ms, "url")?;
        let description = opt_str(ms, "description")?;
        let logo = opt_str(ms, "logo")?;
        let version = opt_str(ms, "version")?;
        Ok(GardenReference { name, url, description, logo, version })
    }

    proof fn lemma_round_trip(x: Self, y: Self, j: Json) {
    }
}

impl JsonCodec for Maintainer {
    open spec fn declares(k: Seq<char>) -> bool {
        k == "name"@ || k == "email"@ || k == "url"@
    }

    open spec fn encodes(self, j: Json) -> bool {
        match j {
            Json::Object(ms) => {
                &&& str_at(ms@, "name"@, self.name)
                &&& opt_str_at(ms@, "email"@, self.email)
                &&& opt_str_at(ms@, "url"@, self.url)
            },
            _ => false,
        }
    }

    fn encode(&self) -> (j: Json) {
        proof { lemma_field_names(); }
        let mut ms: Vec<Member> = Vec::new();
        put_str(&mut ms, "name", &self.name);
        put_opt_str(&mut ms, "email", &self.email);
        put_opt_str(&mut ms, "url", &self.url);
        Json::Object(ms)
    }

    fn decode(j: &Json) -> (r: Result<Self, DecodeError>) {
        let ms = members(j)?;
        let name = req_str(ms, "name")?;
        let email = opt_str(ms, "email")?;
        let url = opt_str(ms, "url")?;
        Ok(Maintainer { name, email, url })
    }

    proof fn lemma_round_trip(x: Self, y: Self, j: Json) {
    }
}

impl JsonCodec for Theme {
    open spec fn declares(k: Seq<char>) -> bool {
        k == "primary_color"@ || k == "secondary_color"@ || k == "background_color"@ || k == "text_color"@
    }

    open spec fn encodes(self, j: Json) -> bool {
        match j {
            Json::Object(ms) => {
                &&& opt_str_at(ms@, "primary_color"@, self.primary_color)
                &&& opt_str_at(ms@, "secondary_color"@, self.secondary_color)
                &&& opt_str_at(ms@, "background_color"@, self.background_color)
                &&& opt_str_at(ms@, "text_color"@, self.text_color)
            },
            _ => false,
        }
    }

    fn encode(&self) -> (j: Json) {
        proof { lemma_field_names(); }
        let mut ms: Vec<Member> = Vec::new();
        put_opt_str(&mut ms, "primary_color", &self.primary_color);
        put_opt_str(&mut ms, "secondary_color", &self.secondary_color);
        put_opt_str(&mut ms, "background_color", &self.background_color);
        put_opt_str(&mut ms, "text_color", &self.text_color);
        Json::Object(ms)
    }

    fn decode(j: &Json) -> (r: Result<Self, DecodeError>) {
        let ms = members(j)?;
        let primary_color = opt_str(ms, "primary_color")?;
        let secondary_color = opt_str(ms, "secondary_color")?;
        let background_color = opt_str(ms, "background_color")?;
        let text_color = opt_str(ms, "text_color")?;
        Ok(Theme { primary_color, secondary_color, background_color, text_color })
    }

    proof fn lemma_round_trip(x: Self, y: Self, j: Json) {
    }
}

} // verus!

verus! {

broadcast use vstd::std_specs::vec::group_vec_axioms;

/// `k` is the name of a declared field of a category.
pub open spec fn category_declares(k: Seq<char>) -> bool {
    k == "name"@ || k == "description"@ || k == "icon_color"@ || k == "items"@ || k == "categories"@ || k == "garden_refs"@
}

/// `j` is a JSON form of the category `c`, nested categories included.
pub open spec fn category_encodes(c: Category, j: Json) -> bool
    decreases c,
{
    match j {
        Json::Object(ms) => {
            &&& str_at(ms@, "name"@, c.name)
            &&& opt_str_at(ms@, "description"@, c.description)
            &&& opt_str_at(ms@, "icon_color"@, c.icon_color)
            &&& list_at(ms@, "items"@, c.items)
            &&& list_at(ms@, "garden_refs"@, c.garden_refs)
            &&& match c.categories {
                Some(v) => match lookup(ms@, "categories"@) {
                    Some(Json::Array(a)) => categories_encode(v@, a@),
                    _ => false,
                },
                None => lookup(ms@, "categories"@) is None,
            }
        },
        _ => false,
    }
}

/// `a` holds the JSON forms of the categories `v`, in order.
pub open spec fn categories_encode(v: Seq<Category>, a: Seq<Json>) -> bool
    decreases v,
{
    if v.len() == 0 {
        a.len() == 0
    } else {
        &&& a.len() == v.len()
        &&& categories_encode(v.subrange(0, v.len() - 1), a.subrange(0, a.len() - 1))
        &&& category_encodes(v[v.len() - 1], a[a.len() - 1])
    }
}

/// Structural equality of two category trees.
pub open spec fn same_category(a: Category, b: Category) -> bool
    decreases a,
{
    &&& a.name == b.name
    &&& a.description == b.description
    &&& a.icon_color == b.icon_color
    &&& same_opt_vec(a.items, b.items)
    &&& same_opt_vec(a.garden_refs, b.garden_refs)
    &&& match (a.categories, b.categories) {
        (Some(x), Some(y)) => same_categories(x@, y@),
        (None, None) => true,
        _ => false,
    }
}

/// Structural equality of two sequences of category trees.
pub open spec fn same_categories(x: Seq<Category>, y: Seq<Category>) -> bool
    decreases x,
{
    if x.len() == 0 {
        y.len() == 0
    } else {
        &&& y.len() == x.len()
        &&& same_categories(x.subrange(0, x.len() - 1), y.subrange(0, y.len() - 1))
        &&& same_category(x[x.len() - 1], y[y.len() - 1])
    }
}

/// `categories_encode` holds element by element.
pub proof fn lemma_categories_encode(v: Seq<Category>, a: Seq<Json>)
    ensures
        categories_encode(v, a) <==> (a.len() == v.len() && forall|i: int|
            0 <= i < v.len() ==> #[trigger] category_encodes(v[i], a[i])),
    decreases v.len(),
{
    if v.len() > 0 && a.len() == v.len() {
        let v0 = v.subrange(0, v.len() - 1);
        let a0 = a.subrange(0, a.len() - 1);
        lemma_categories_encode(v0, a0);
        assert forall|i: int| 0 <= i < v0.len() implies v0[i] == v[i] && a0[i] == a[i] by {}
        assert(categories_encode(v, a) == (categories_encode(v0, a0) && category_encodes(v[v.len() - 1], a[a.len() - 1])));
        if categories_encode(v, a) {
            assert forall|i: int| 0 <= i < v.len() implies #[trigger] category_encodes(v[i], a[i]) by {
                if i < v.len() - 1 {
                    assert(category_encodes(v0[i], a0[i]));
                }
            }
        }
    }
}

/// `same_categories` holds element by element.
pub proof fn lemma_same_categories(x: Seq<Category>, y: Seq<Category>)
    ensures
        same_categories(x, y) <==> (y.len() == x.len() && forall|i: int|
            0 <= i < x.len() ==> #[trigger] same_category(x[i], y[i])),
    decreases x.len(),
{
    if x.len() > 0 && y.len() == x.len() {
        let x0 = x.subrange(0, x.len() - 1);
        let y0 = y.subrange(0, y.len() - 1);
        lemma_same_categories(x0, y0);
        assert forall|i: int| 0 <= i < x0.len() implies x0[i] == x[i] && y0[i] == y[i] by {}
        assert(same_categories(x, y) == (same_categories(x0, y0) && same_category(x[x.len() - 1], y[y.len() - 1])));
        if same_categories(x, y) {
            assert forall|i: int| 0 <= i < x.len() implies #[trigger] same_category(x[i], y[i]) by {
                if i < x.len() - 1 {
                    assert(same_category(x0[i], y0[i]));
                }
            }
        }
    }
}

/// A value stored in an object is smaller than the object.
pub proof fn lemma_lookup_decreases(j: Json, ms: Vec<Member>, k: Seq<char>)
    requires
        j == Json::Object(ms),
        lookup(ms@, k) is Some,
    ensures
        decreases_to!(j => lookup(ms@, k)->Some_0),
{
    crate::json::lemma_find_key_bounds(ms@, k);
    let i = crate::json::find_key(ms@, k);
    assert(decreases_to!(j => j->Object_0));
    assert(decreases_to!(ms => ms@));
    assert(decreases_to!(ms@ => ms@[i]));
    assert(decreases_to!(ms@[i] => ms@[i].value));
}

/// Decoding the JSON form of a category tree gives back a structurally equal
/// tree: two trees with a common JSON form are structurally equal.
pub proof fn lemma_category_round_trip(x: Category, y: Category, j: Json)
    requires
        category_encodes(x, j),
        category_encodes(y, j),
    ensures
        same_category(x, y),
    decreases x,
{
    if let Json::Object(ms) = j {
        lemma_list_at_unique(ms@, "items"@, x.items, y.items);
        lemma_list_at_unique(ms@, "garden_refs"@, x.garden_refs, y.garden_refs);
        if let (Some(v), Some(w)) = (x.categories, y.categories) {
            if let Some(Json::Array(a)) = lookup(ms@, "categories"@) {
                lemma_categories_encode(v@, a@);
                lemma_categories_encode(w@, a@);
                assert forall|i: int| 0 <= i < v@.len() implies #[trigger] same_category(v@[i], w@[i]) by {
                    assert(decreases_to!(x => x.categories));
                    assert(decreases_to!(x.categories => v));
                    assert(decreases_to!(v => v@));
                    assert(decreases_to!(v@ => v@[i]));
                    lemma_category_round_trip(v@[i], w@[i], a@[i]);
                }
                lemma_same_categories(v@, w@);
            }
        }
    }
}

impl Category {
    /// The JSON form of this category and of everything nested in it; its
    /// object holds declared fields only.
    pub fn encode(&self) -> (j: Json)
        ensures
            category_encodes(*self, j),
            j matches Json::Object(ms) && forall|i: int|
                0 <= i < ms@.len() ==> category_declares(#[trigger] ms@[i].key@),
        decreases self,
    {
        proof { lemma_field_names(); }
        let mut ms: Vec<Member> = Vec::new();
        put_str(&mut ms, "name", &self.name);
        put_opt_str(&mut ms, "description", &self.description);
        put_opt_str(&mut ms, "icon_color", &self.icon_color);
        put_opt_list(&mut ms, "items", &self.items);
        put_opt_list(&mut ms, "garden_refs", &self.garden_refs);
        if let Some(v) = &self.categories {
            let mut a: Vec<Json> = Vec::new();
            let mut i: usize = 0;
            while i < v.len()
                invariant
                    self.categories == Some(*v),
                    0 <= i <= v.len(),
                    a.len() == i,
                    forall|k: int| 0 <= k < i ==> #[trigger] category_encodes(v@[k], a@[k]),
                decreases v.len() - i,
            {
                proof {
                    assert(decreases_to!(*self => self.categories));
                    assert(decreases_to!(self.categories => self.categories->Some_0));
                    assert(decreases_to!(*v => v@));
                    assert(decreases_to!(v@ => v@[i as int]));
                }
                a.push(v[i].encode());
                i += 1;
            }
            proof { lemma_categories_encode(v@, a@); }
            push_member(&mut ms, "categories", Json::Array(a));
        }
        Json::Object(ms)
    }

    /// The category tree whose JSON form `j` is; fails exactly when there is none.
    pub fn decode(j: &Json) -> (r: Result<Category, DecodeError>)
        ensures
            r matches Ok(c) ==> category_encodes(c, *j),
            forall|c: Category| #[trigger] category_encodes(c, *j) ==> r is Ok,
            !(j is Object) ==> (r matches Err(e) && e.kind is NotAnObject),
            (j matches Json::Object(ms) && lookup(ms@, "name"@) is None) ==> (r matches Err(e) && e.kind
                is Missing && e.field@ == "name"@),
        decreases j,
    {
        let ms = members(j)?;
        let name = req_str(ms, "name")?;
        let description = opt_str(ms, "description")?;
        let icon_color = opt_str(ms, "icon_color")?;
        let items = opt_list(ms, "items")?;
        let garden_refs = opt_list(ms, "garden_refs")?;
        let categories = match get(ms, "categories") {
            None => None,
            Some(Json::Array(a)) => {
                proof {
                    lemma_lookup_decreases(*j, *ms, "categories"@);
                    let jv = lookup(ms@, "categories"@)->Some_0;
                    assert(decreases_to!(jv => jv->Array_0));
                    assert(decreases_to!(*j => *a));
                }
                let mut out: Vec<Category> = Vec::new();
                let mut i: usize = 0;
                while i < a.len()
                    invariant
                        *j == Json::Object(*ms),
                        lookup(ms@, "name"@) is Some,
                        lookup(ms@, "categories"@) == Some(Json::Array(*a)),
                        decreases_to!(*j => *a),
                        0 <= i <= a.len(),
                        out.len() == i,
                        forall|k: int| 0 <= k < i ==> #[trigger] category_encodes(out@[k], a@[k]),
                    decreases a.len() - i,
                {
                    proof {
                        assert(decreases_to!(*a => a@));
                        assert(decreases_to!(a@ => a@[i as int]));
                    }
                    match Category::decode(&a[i]) {
                        Ok(c) => out.push(c),
                        Err(e) => {
                            assert forall|c: Category| !category_encodes(c, *j) by {
                                if category_encodes(c, *j) {
                                    lemma_categories_encode(c.categories->Some_0@, a@);
                                    assert(category_encodes(c.categories->Some_0@[i as int], a@[i as int]));
                                }
                            }
                            return Err(e);
                        },
                    }
                    i += 1;
                }
                proof { lemma_categories_encode(out@, a@); }
                Some(out)
            },
            Some(_) => {
                return Err(err("categories", DecodeErrorKind::WrongType));
            },
        };
        Ok(Category { name, description, icon_color, items, categories, garden_refs })
    }
}

} // verus!

verus! {

/// Decodes an array of category trees.
pub fn decode_categories(a: &Vec<Json>) -> (r: Result<Vec<Category>, DecodeError>)
    ensures
        match r {
            Ok(v) => categories_encode(v@, a@),
            Err(_) => forall|v: Seq<Category>| !categories_encode(v, a@),
        },
{
    let mut out: Vec<Category> = Vec::new();
    let mut i: usize = 0;
    while i < a.len()
        invariant
            0 <= i <= a.len(),
            out.len() == i,
            forall|k: int| 0 <= k < i ==> #[trigger] category_encodes(out@[k], a@[k]),
        decreases a.len() - i,
    {
        match Category::decode(&a[i]) {
            Ok(c) => out.push(c),
            Err(e) => {
                assert forall|v: Seq<Category>| !categories_encode(v, a@) by {
                    lemma_categories_encode(v, a@);
                    if categories_encode(v, a@) {
                        assert(category_encodes(v[i as int], a@[i as int]));
                    }
                }
                return Err(e);
            },
        }
        i += 1;
    }
    proof { lemma_categories_encode(out@, a@); }
    Ok(out)
}

/// The JSON forms of a sequence of category trees, in order.
pub fn encode_categories(v: &Vec<Category>) -> (a: Vec<Json>)
    ensures
        categories_encode(v@, a@),
{
    let mut out: Vec<Json> = Vec::new();
    let mut i: usize = 0;
    while i < v.len()
        invariant
            0 <= i <= v.len(),
            out.len() == i,
            forall|k: int| 0 <= k < i ==> #[trigger] category_encodes(v@[k], out@[k]),
        decreases v.len() - i,
    {
        out.push(v[i].encode());
        i += 1;
    }
    proof { lemma_categories_encode(v@, out@); }
    out
}

/// `k` is the name of a declared field of a garden.
pub open spec fn garden_declares(k: Seq<char>) -> bool {
    k == "name"@ || k == "description"@ || k == "version"@ || k == "categories"@ || k == "maintainers"@ || k == "created_at"@ || k == "updated_at"@ || k == "theme"@ || k == "supergardens"@ || k == "subgardens"@
}

/// `j` is a JSON form of the garden `g`.
pub open spec fn garden_encodes(g: Garden, j: Json) -> bool {
    match j {
        Json::Object(ms) => {
            &&& str_at(ms@, "name"@, g.name)
            &&& opt_str_at(ms@, "description"@, g.description)
            &&& str_at(ms@, "version"@, g.version)
            &&& match lookup(ms@, "categories"@) {
                Some(Json::Array(a)) => categories_encode(g.categories@, a@),
                _ => false,
            }
            &&& list_at(ms@, "maintainers"@, g.maintainers)
            &&& opt_str_at(ms@, "created_at"@, g.created_at)
            &&& opt_str_at(ms@, "updated_at"@, g.updated_at)
            &&& opt_at(ms@, "theme"@, g.theme)
            &&& list_at(ms@, "supergardens"@, g.supergardens)
            &&& list_at(ms@, "subgardens"@, g.subgardens)
        },
        _ => false,
    }
}

/// Structural equality of two gardens.
pub open spec fn same_garden(a: Garden, b: Garden) -> bool {
    &&& a.name == b.name
    &&& a.description == b.description
    &&& a.version == b.version
    &&& same_categories(a.categories@, b.categories@)
    &&& same_opt_vec(a.maintainers, b.maintainers)
    &&& a.created_at == b.created_at
    &&& a.updated_at == b.updated_at
    &&& a.theme == b.theme
    &&& same_opt_vec(a.supergardens, b.supergardens)
    &&& same_opt_vec(a.subgardens, b.subgardens)
}

impl Garden {
    /// The JSON form of this garden; it holds declared fields only.
    pub fn encode(&self) -> (j: Json)
        ensures
            garden_encodes(*self, j),
            j matches Json::Object(ms) && forall|i: int|
                0 <= i < ms@.len() ==> garden_declares(#[trigger] ms@[i].key@),
    {
        proof { lemma_field_names(); }
        let mut ms: Vec<Member> = Vec::new();
        put_str(&mut ms, "name", &self.name);
        put_opt_str(&mut ms, "description", &self.description);
        put_str(&mut ms, "version", &self.version);
        push_member(&mut ms, "categories", Json::Array(encode_categories(&self.categories)));
        put_opt_list(&mut ms, "maintainers", &self.maintainers);
        put_opt_str(&mut ms, "created_at", &self.created_at);
        put_opt_str(&mut ms, "updated_at", &self.updated_at);
        put_opt_record(&mut ms, "theme", &self.theme);
        put_opt_list(&mut ms, "supergardens", &self.supergardens);
        put_opt_list(&mut ms, "subgardens", &self.subgardens);
        Json::Object(ms)
    }

    /// The garden whose JSON form `j` is; fails exactly when there is none.
    pub fn decode(j: &Json) -> (r: Result<Garden, DecodeError>)
        ensures
            r matches Ok(g) ==> garden_encodes(g, *j),
            forall|g: Garden| #[trigger] garden_encodes(g, *j) ==> r is Ok,
            !(j is Object) ==> (r matches Err(e) && e.kind is NotAnObject),
            (j matches Json::Object(ms) && lookup(ms@, "name"@) is None) ==> (r matches Err(e) && e.kind
                is Missing && e.field@ == "name"@),
    {
        let ms = members(j)?;
        let name = req_str(ms, "name")?;
        let description = opt_str(ms, "description")?;
        let version = req_str(ms, "version")?;
        let categories = match get(ms, "categories") {
            Some(Json::Array(a)) => decode_categories(a)?,
            Some(_) => {
                return Err(err("categories", DecodeErrorKind::WrongType));
            },
            None => {
                return Err(err("categories", DecodeErrorKind::Missing));
            },
        };
        let maintainers = opt_list(ms, "maintainers")?;
        let created_at = opt_str(ms, "created_at")?;
        let updated_at = opt_str(ms, "updated_at")?;
        let theme = opt_record(ms, "theme")?;
        let supergardens = opt_list(ms, "supergardens")?;
        let subgardens = opt_list(ms, "subgardens")?;
        Ok(
            Garden {
                name,
                description,
                version,
                categories,
                maintainers,
                created_at,
                updated_at,
                theme,
                supergardens,
                subgardens,
            },
        )
    }
}

/// Decoding the JSON form of a garden gives back a structurally equal garden:
/// `encode` returns a JSON form of `x`, `decode` succeeds on every JSON form
/// of some garden and returns a garden of which it is a JSON form, and two
/// gardens with a common JSON form are structurally equal.
pub proof fn lemma_garden_round_trip(x: Garden, j: Json, y: Garden)
    requires
        garden_encodes(x, j),
        garden_encodes(y, j),
    ensures
        same_garden(x, y),
{
    if let Json::Object(ms) = j {
        lemma_list_at_unique(ms@, "maintainers"@, x.maintainers, y.maintainers);
        lemma_list_at_unique(ms@, "supergardens"@, x.supergardens, y.supergardens);
        lemma_list_at_unique(ms@, "subgardens"@, x.subgardens, y.subgardens);
        lemma_opt_at_unique(ms@, "theme"@, x.theme, y.theme);
        if let Some(Json::Array(a)) = lookup(ms@, "categories"@) {
            lemma_categories_encode(x.categories@, a@);
            lemma_categories_encode(y.categories@, a@);
            assert forall|i: int| 0 <= i < x.categories@.len() implies #[trigger] same_category(
                x.categories@[i],
                y.categories@[i],
            ) by {
                lemma_category_round_trip(x.categories@[i], y.categories@[i], a@[i]);
            }
            lemma_same_categories(x.categories@, y.categories@);
        }
    }
}

} // verus!

verus! {

/// `j` is an object with a member whose key is `k`.
pub open spec fn has_key(j: Json, k: Seq<char>) -> bool {
    j matches Json::Object(ms) && exists|i: int| 0 <= i < ms@.len() && #[trigger] ms@[i].key@ == k
}

/// A key that a lookup does not find is held by no member.
pub proof fn lemma_no_key(j: Json, k: Seq<char>)
    requires
        j matches Json::Object(ms) && lookup(ms@, k) is None,
    ensures
        !has_key(j, k),
{
    if let Json::Object(ms) = j {
        crate::json::lemma_find_key_bounds(ms@, k);
    }
}

/// A JSON form of an item has no key for an optional field that is absent.
pub proof fn lemma_garden_item_absent_fields(x: GardenItem, j: Json)
    requires
        x.encodes(j),
    ensures
        x.logo is None ==> !has_key(j, "logo"@),
        x.repo_url is None ==> !has_key(j, "repo_url"@),
        x.project_url is None ==> !has_key(j, "project_url"@),
        x.twitter is None ==> !has_key(j, "twitter"@),
        x.description is None ==> !has_key(j, "description"@),
{
    if x.logo is None {
        lemma_no_key(j, "logo"@);
    }
    if x.repo_url is None {
        lemma_no_key(j, "repo_url"@);
    }
    if x.project_url is None {
        lemma_no_key(j, "project_url"@);
    }
    if x.twitter is None {
        lemma_no_key(j, "twitter"@);
    }
    if x.description is None {
        lemma_no_key(j, "description"@);
    }
}

/// A JSON form of a garden reference has no key for an optional field that is absent.
pub proof fn lemma_garden_reference_absent_fields(x: GardenReference, j: Json)
    requires
        x.encodes(j),
    ensures
        x.description is None ==> !has_key(j, "description"@),
        x.logo is None ==> !has_key(j, "logo"@),
        x.version is None ==> !has_key(j, "version"@),
{
    if x.description is None {
        lemma_no_key(j, "description"@);
    }
    if x.logo is None {
        lemma_no_key(j, "logo"@);
    }
    if x.version is None {
        lemma_no_key(j, "version"@);
    }
}

/// A JSON form of a maintainer has no key for an optional field that is absent.
pub proof fn lemma_maintainer_absent_fields(x: Maintainer, j: Json)
    requires
        x.encodes(j),
    ensures
        x.email is None ==> !has_key(j, "email"@),
        x.url is None ==> !has_key(j, "url"@),
{
    if x.email is None {
        lemma_no_key(j, "email"@);
    }
    if x.url is None {
        lemma_no_key(j, "url"@);
    }
}

/// A JSON form of a theme has no key for an optional field that is absent.
pub proof fn lemma_theme_absent_fields(x: Theme, j: Json)
    requires
        x.encodes(j),
    ensures
        x.primary_color is None ==> !has_key(j, "primary_color"@),
        x.secondary_color is None ==> !has_key(j, "secondary_color"@),
        x.background_color is None ==> !has_key(j, "background_color"@),
        x.text_color is None ==> !has_key(j, "text_color"@),
{
    if x.primary_color is None {
        lemma_no_key(j, "primary_color"@);
    }
    if x.secondary_color is None {
        lemma_no_key(j, "secondary_color"@);
    }
    if x.background_color is None {
        lemma_no_key(j, "background_color"@);
    }
    if x.text_color is None {
        lemma_no_key(j, "text_color"@);
    }
}

/// A JSON form of a category has no key for an optional field that is absent.
pub proof fn lemma_category_absent_fields(x: Category, j: Json)
    requires
        category_encodes(x, j),
    ensures
        x.description is None ==> !has_key(j, "description"@),
        x.icon_color is None ==> !has_key(j, "icon_color"@),
        x.items is None ==> !has_key(j, "items"@),
        x.categories is None ==> !has_key(j, "categories"@),
        x.garden_refs is None ==> !has_key(j, "garden_refs"@),
{
    if x.description is None {
        lemma_no_key(j, "description"@);
    }
    if x.icon_color is None {
        lemma_no_key(j, "icon_color"@);
    }
    if x.items is None {
        lemma_no_key(j, "items"@);
    }
    if x.categories is None {
        lemma_no_key(j, "categories"@);
    }
    if x.garden_refs is None {
        lemma_no_key(j, "garden_refs"@);
    }
}

/// A JSON form of a garden has no key for an optional field that is absent.
pub proof fn lemma_garden_absent_fields(x: Garden, j: Json)
    requires
        garden_encodes(x, j),
    ensures
        x.description is None ==> !has_key(j, "description"@),
        x.maintainers is None ==> !has_key(j, "maintainers"@),
        x.created_at is None ==> !has_key(j, "created_at"@),
        x.updated_at is None ==> !has_key(j, "updated_at"@),
        x.theme is None ==> !has_key(j, "theme"@),
        x.supergardens is None ==> !has_key(j, "supergardens"@),
        x.subgardens is None ==> !has_key(j, "subgardens"@),
{
    if x.description is None {
        lemma_no_key(j, "description"@);
    }
    if x.maintainers is None {
        lemma_no_key(j, "maintainers"@);
    }
    if x.created_at is None {
        lemma_no_key(j, "created_at"@);
    }
    if x.updated_at is None {
        lemma_no_key(j, "updated_at"@);
    }
    if x.theme is None {
        lemma_no_key(j, "theme"@);
    }
    if x.supergardens is None {
        lemma_no_key(j, "supergardens"@);
    }
    if x.subgardens is None {
        lemma_no_key(j, "subgardens"@);
    }
}

} // verus!
