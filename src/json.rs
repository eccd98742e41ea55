use vstd::prelude::*;
use vstd::string::*;

verus! {

/// One key/value pair of a JSON object, in document order.
pub struct Member {
    pub key: String,
    pub value: Json,
}

/// A JSON value. Numbers keep their decimal text, so that no precision is lost.
pub enum Json {
    Null,
    Bool(bool),
    Number(String),
    Str(String),
    Array(Vec<Json>),
    Object(Vec<Member>),
}

/// Index of the first member whose key is `k`, or -1 when there is none.
pub open spec fn find_key(ms: Seq<Member>, k: Seq<char>) -> int
    decreases ms.len(),
{
    if ms.len() == 0 {
        -1
    } else if ms[0].key@ == k {
        0
    } else {
        let r = find_key(ms.drop_first(), k);
        if r < 0 { -1 } else { r + 1 }
    }
}

pub proof fn lemma_find_key_bounds(ms: Seq<Member>, k: Seq<char>)
    ensures
        -1 <= find_key(ms, k) < ms.len(),
        find_key(ms, k) >= 0 ==> ms[find_key(ms, k)].key@ == k,
        find_key(ms, k) < 0 ==> forall|i: int| 0 <= i < ms.len() ==> ms[i].key@ != k,
        find_key(ms, k) >= 0 ==> forall|i: int| 0 <= i < find_key(ms, k) ==> ms[i].key@ != k,
    decreases ms.len(),
{
    if ms.len() > 0 && ms[0].key@ != k {
        lemma_find_key_bounds(ms.drop_first(), k);
        assert forall|i: int| 1 <= i < ms.len() implies ms[i] == ms.drop_first()[i - 1] by {}
    }
}

/// The value stored under key `k` (the first such member), if any.
pub open spec fn lookup(ms: Seq<Member>, k: Seq<char>) -> Option<Json> {
    let i = find_key(ms, k);
    if 0 <= i < ms.len() {
        Some(ms[i].value)
    } else {
        None
    }
}

/// Character-wise equality of two strings.
pub fn str_eq(a: &str, b: &str) -> (r: bool)
    ensures
        r == (a@ == b@),
{
    let n = a.unicode_len();
    if n != b.unicode_len() {
        return false;
    }
    let mut i: usize = 0;
    while i < n
        invariant
            n == a@.len(),
            n == b@.len(),
            0 <= i <= n,
            forall|j: int| 0 <= j < i ==> a@[j] == b@[j],
        decreases n - i,
    {
        if a.get_char(i) != b.get_char(i) {
            return false;
        }
        i += 1;
    }
    assert(a@ =~= b@);
    true
}

/// Looks up `key` in an object's members: the first member with that key wins.
pub fn get<'a>(ms: &'a Vec<Member>, key: &str) -> (r: Option<&'a Json>)
    ensures
        match lookup(ms@, key@) {
            Some(v) => r is Some && *r->Some_0 == v,
            None => r is None,
        },
{
    proof { lemma_find_key_bounds(ms@, key@); }
    let mut i: usize = 0;
    while i < ms.len()
        invariant
            0 <= i <= ms.len(),
            forall|j: int| 0 <= j < i ==> ms@[j].key@ != key@,
            -1 <= find_key(ms@, key@) < ms@.len(),
            find_key(ms@, key@) >= 0 ==> ms@[find_key(ms@, key@)].key@ == key@,
            find_key(ms@, key@) >= 0 ==> forall|j: int| 0 <= j < find_key(ms@, key@) ==> ms@[j].key@ != key@,
            find_key(ms@, key@) < 0 ==> forall|j: int| 0 <= j < ms@.len() ==> ms@[j].key@ != key@,
        decreases ms.len() - i,
    {
        if str_eq(ms[i].key.as_str(), key) {
            return Some(&ms[i].value);
        }
        i += 1;
    }
    None
}

} // verus!

verus! {

proof fn lemma_find_key_push(ms: Seq<Member>, m: Member, k: Seq<char>)
    ensures
        find_key(ms.push(m), k) == (if find_key(ms, k) >= 0 {
            find_key(ms, k)
        } else if m.key@ == k {
            ms.len() as int
        } else {
            -1
        }),
    decreases ms.len(),
{
    let p = ms.push(m);
    if ms.len() > 0 {
        assert(p[0] == ms[0]);
        assert(p.drop_first() =~= ms.drop_first().push(m));
        lemma_find_key_push(ms.drop_first(), m, k);
    } else {
        assert(p.drop_first() =~= Seq::<Member>::empty());
        assert(find_key(p.drop_first(), k) == -1);
    }
}

/// Appending a member changes a lookup only where the key was absent.
pub proof fn lemma_lookup_push(ms: Seq<Member>, m: Member, k: Seq<char>)
    ensures
        lookup(ms.push(m), k) == (if lookup(ms, k) is Some {
            lookup(ms, k)
        } else if m.key@ == k {
            Some(m.value)
        } else {
            None
        }),
{
    lemma_find_key_push(ms, m, k);
    lemma_find_key_bounds(ms, k);
    lemma_find_key_bounds(ms.push(m), k);
    if find_key(ms, k) >= 0 {
        assert(ms.push(m)[find_key(ms, k)] == ms[find_key(ms, k)]);
    }
}

/// An owned copy of a string slice.
pub fn text(s: &str) -> (r: String)
    ensures
        r@ == s@,
{
    String::from_str(s)
}

/// Appends the member `key: value` to an object that does not hold `key` yet.
pub fn push_member(ms: &mut Vec<Member>, key: &str, value: Json)
    requires
        lookup(old(ms)@, key@) is None,
    ensures
        final(ms)@.len() == old(ms)@.len() + 1,
        forall|i: int| 0 <= i < old(ms)@.len() ==> final(ms)@[i] == old(ms)@[i],
        final(ms)@[old(ms)@.len() as int].key@ == key@,
        forall|k: Seq<char>| #[trigger] lookup(final(ms)@, k) == (if k == key@ {
            Some(value)
        } else {
            lookup(old(ms)@, k)
        }),
{
    let m = Member { key: text(key), value };
    ms.push(m);
    proof {
        assert forall|k: Seq<char>| #[trigger] lookup(final(ms)@, k) == (if k == key@ {
            Some(value)
        } else {
            lookup(old(ms)@, k)
        }) by {
            lemma_lookup_push(old(ms)@, m, k);
        }
    }
}

} // verus!
