//! The JSON that the gateway reads and writes.

use serde_json::Value;
use vstd::prelude::*;

verus! {

/// The members of a JSON object with their boolean values: `Some` for `true` and
/// `false`, `None` for any other value.
pub type Flags = Map<Seq<char>, Option<bool>>;

/// The members of the JSON object that `bytes` hold as `serde_json` reads them;
/// nothing where they hold no JSON or other JSON than an object.
pub uninterp spec fn object_flags(bytes: Seq<u8>) -> Option<Map<Seq<char>, Option<bool>>>;

/// The text that `serde_json` writes for the JSON object with the one member
/// `key`, itself an object of strings (`Some`) and nulls (`None`).
pub uninterp spec fn nested_object_text(
    key: Seq<char>,
    members: Seq<(Seq<char>, Option<Seq<char>>)>,
) -> Seq<char>;

/// `list` gives every member of `flags` once, and nothing else.
pub open spec fn lists_flags(list: Seq<(String, Option<bool>)>, flags: Flags) -> bool {
    &&& forall|i: int, j: int|
        0 <= i < j < list.len() ==> #[trigger] list[i].0@ != #[trigger] list[j].0@
    &&& forall|i: int|
        0 <= i < list.len() ==> flags.contains_key(#[trigger] list[i].0@) && flags[list[i].0@]
            == list[i].1
    &&& forall|name: Seq<char>| #[trigger]
        flags.contains_key(name) ==> exists|i: int|
            0 <= i < list.len() && #[trigger] list[i].0@ == name
}

/// The members of an object as plain text.
pub open spec fn member_texts(members: Seq<(String, Option<String>)>) -> Seq<
    (Seq<char>, Option<Seq<char>>),
> {
    Seq::new(
        members.len(),
        |i: int|
            (
                members[i].0@,
                match members[i].1 {
                    Some(text) => Some(text@),
                    None => None,
                },
            ),
    )
}

/// `serde_json::from_slice` into a `Value`, of which the members of an object are
/// handed out, each with what `Value::as_bool` says of it.
#[verifier::external_body]
pub(crate) fn read_object(bytes: &[u8]) -> (r: Option<Vec<(String, Option<bool>)>>)
    ensures
        r is Some <==> object_flags(bytes@) is Some,
        r matches Some(list) ==> lists_flags(list@, object_flags(bytes@)->0),
{
    match serde_json::from_slice::<Value>(bytes) {
        Ok(Value::Object(members)) => {
            Some(members.iter().map(|(name, value)| (name.clone(), value.as_bool())).collect())
        },
        Ok(_) => None,
        Err(_) => None,
    }
}

/// `Value::to_string` of an object of one member, which is an object of strings
/// and nulls.
#[verifier::external_body]
pub(crate) fn write_nested_object(key: &str, members: &Vec<(String, Option<String>)>) -> (r: String)
    ensures
        r@ == nested_object_text(key@, member_texts(members@)),
{
    let inner = members.iter().map(|(name, text)| (name.clone(), Value::from(text.clone())));
    let mut outer = serde_json::Map::new();
    outer.insert(key.to_owned(), Value::Object(inner.collect()));
    Value::Object(outer).to_string()
}

/// A list of members has `name` with the value `true` the first time it has it.
pub open spec fn first_is_true(list: Seq<(String, Option<bool>)>, name: Seq<char>) -> bool {
    exists|i: int|
        0 <= i < list.len() && #[trigger] list[i].0@ == name && list[i].1 == Some(true) && forall|
            j: int,
        |
            0 <= j < i ==> #[trigger] list[j].0@ != name
}

/// Whether the members of an object have `name` with the value `true`.
pub fn member_is_true(list: &Vec<(String, Option<bool>)>, name: &str) -> (r: bool)
    ensures
        r == first_is_true(list@, name@),
{
    let wanted = name.to_owned();
    let mut i: usize = 0;
    while i < list.len()
        invariant
            i <= list.len(),
            wanted@ == name@,
            forall|j: int| 0 <= j < i ==> #[trigger] list@[j].0@ != name@,
        decreases list.len() - i,
    {
        if list[i].0 == wanted {
            let r = match list[i].1 {
                Some(flag) => flag,
                None => false,
            };
            assert(list@[i as int].0@ == name@);
            return r;
        }
        i = i + 1;
    }
    false
}

/// The object that `flags` describe has `name` with the value `true`.
pub open spec fn is_true(flags: Option<Flags>, name: Seq<char>) -> bool {
    flags matches Some(members) && members.contains_key(name) && members[name] == Some(true)
}

/// A list of the members agrees with the members.
pub proof fn lemma_listed_member(list: Seq<(String, Option<bool>)>, flags: Flags, name: Seq<char>)
    requires
        lists_flags(list, flags),
    ensures
        first_is_true(list, name) == is_true(Some(flags), name),
{
    if is_true(Some(flags), name) {
        let i = choose|i: int| 0 <= i < list.len() && #[trigger] list[i].0@ == name;
        assert(list[i].1 == Some(true));
        assert forall|j: int| 0 <= j < i implies #[trigger] list[j].0@ != name by {
            assert(list[j].0@ != list[i].0@);
        }
    }
}

/// The first member of a name decides whether the name counts as true, whatever
/// stands before and after it; a name that is not there does not count as true.
pub proof fn law_first_member_decides(
    before: Seq<(String, Option<bool>)>,
    member: (String, Option<bool>),
    after: Seq<(String, Option<bool>)>,
    name: Seq<char>,
)
    requires
        forall|i: int| 0 <= i < before.len() ==> #[trigger] before[i].0@ != name,
        member.0@ == name,
    ensures
        first_is_true(before + seq![member] + after, name) <==> member.1 == Some(true),
        !first_is_true(before, name),
{
    let all = before + seq![member] + after;
    let at = before.len() as int;
    assert(all[at] == member);
    assert forall|i: int| 0 <= i < at implies #[trigger] all[i].0@ != name by {
        assert(all[i] == before[i]);
    }
    if first_is_true(all, name) {
        let i = choose|i: int|
            0 <= i < all.len() && #[trigger] all[i].0@ == name && all[i].1 == Some(true) && forall|
                j: int,
            |
                0 <= j < i ==> #[trigger] all[j].0@ != name;
        assert(all[at].0@ == name);
        assert(i == at);
    }
}

/// Members as plain text are the members, one for one.
pub proof fn law_members_keep_their_texts(members: Seq<(String, Option<String>)>)
    ensures
        member_texts(members).len() == members.len(),
        forall|i: int|
            0 <= i < members.len() ==> (#[trigger] member_texts(members)[i]).0 == members[i].0@ && (
            member_texts(members)[i].1 is Some <==> members[i].1 is Some) && (
            members[i].1 matches Some(text) ==> member_texts(members)[i].1 == Some(text@)),
{
}

} // verus!
