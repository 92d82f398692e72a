//! JSON values as plain data, read and written through `serde_json`.

use vstd::prelude::*;
use vstd::string::*;

use crate::text::same_text;

verus! {

/// A number of `serde_json`, carried through unread but for its integer value.
#[verifier::external_type_specification]
#[verifier::external_body]
pub struct ExNumber(serde_json::Number);

/// A value tree of `serde_json`.
#[verifier::external_type_specification]
#[verifier::external_body]
pub struct ExValue(serde_json::Value);

/// A JSON value. In an object the last member of a name is the one that counts, and two objects
/// are equal that hold equal members, whatever their order.
#[derive(Debug)]
pub enum Json {
    Null,
    Bool(bool),
    Number(serde_json::Number),
    Text(String),
    Array(Vec<Json>),
    Object(Vec<(String, Json)>),
}

/// What a JSON value says, whatever the order of its members.
pub enum JsonView {
    Null,
    Bool(bool),
    Number(serde_json::Number),
    Text(Seq<char>),
    Array(Seq<JsonView>),
    Object(Map<Seq<char>, JsonView>),
}

impl Json {
    pub open spec fn view(self) -> JsonView
        decreases self,
    {
        match self {
            Json::Null => JsonView::Null,
            Json::Bool(flag) => JsonView::Bool(flag),
            Json::Number(number) => JsonView::Number(number),
            Json::Text(text) => JsonView::Text(text@),
            Json::Array(items) => JsonView::Array(item_views(items@)),
            Json::Object(members) => JsonView::Object(member_views(members@)),
        }
    }
}

/// What the items of an array say, in order.
pub open spec fn item_views(items: Seq<Json>) -> Seq<JsonView>
    decreases items,
{
    Seq::new(
        items.len(),
        |i: int|
            if 0 <= i < items.len() {
                items[i].view()
            } else {
                JsonView::Null
            },
    )
}

/// What the members of an object say, by name; a later member replaces an earlier one.
pub open spec fn member_views(members: Seq<(String, Json)>) -> Map<Seq<char>, JsonView>
    decreases members,
{
    if members.len() == 0 {
        Map::empty()
    } else {
        member_views(members.drop_last()).insert(members.last().0@, members.last().1.view())
    }
}

impl JsonView {
    /// The member `name` of an object.
    pub open spec fn member(self, name: Seq<char>) -> Option<JsonView> {
        match self {
            JsonView::Object(members) => if members.contains_key(name) {
                Some(members[name])
            } else {
                None
            },
            _ => None,
        }
    }

    /// The characters of a text.
    pub open spec fn as_text(self) -> Option<Seq<char>> {
        match self {
            JsonView::Text(text) => Some(text),
            _ => None,
        }
    }

    /// The value of a flag.
    pub open spec fn as_flag(self) -> Option<bool> {
        match self {
            JsonView::Bool(flag) => Some(flag),
            _ => None,
        }
    }

    /// The items of an array.
    pub open spec fn as_items(self) -> Option<Seq<JsonView>> {
        match self {
            JsonView::Array(items) => Some(items),
            _ => None,
        }
    }

    /// The value of a number that is an integer of 64 bits without a sign.
    pub open spec fn as_unsigned(self) -> Option<u64> {
        match self {
            JsonView::Number(number) => number_unsigned(number),
            _ => None,
        }
    }
}

/// The member `name` of an optional value.
pub open spec fn member_of(value: Option<JsonView>, name: Seq<char>) -> Option<JsonView> {
    match value {
        Some(value) => value.member(name),
        None => None,
    }
}

/// The characters of an optional text.
pub open spec fn text_of_member(value: Option<JsonView>) -> Option<Seq<char>> {
    match value {
        Some(value) => value.as_text(),
        None => None,
    }
}

/// The value of an optional flag.
pub open spec fn flag_of_member(value: Option<JsonView>) -> Option<bool> {
    match value {
        Some(value) => value.as_flag(),
        None => None,
    }
}

/// The items of an optional array.
pub open spec fn items_of_member(value: Option<JsonView>) -> Option<Seq<JsonView>> {
    match value {
        Some(value) => value.as_items(),
        None => None,
    }
}

/// What an optional value says.
pub open spec fn view_opt_json(value: Option<&Json>) -> Option<JsonView> {
    match value {
        Some(value) => Some(value@),
        None => None,
    }
}

/// The value of a number that `serde_json` holds as an integer from 0 to `u64::MAX`.
pub uninterp spec fn number_unsigned(number: serde_json::Number) -> Option<u64>;

/// Trusted: `serde_json::Number::as_u64`, a function of the number alone.
pub assume_specification[ serde_json::Number::as_u64 ](number: &serde_json::Number) -> (value:
    Option<u64>)
    ensures
        value == number_unsigned(*number),
;

/// Trusted: `Clone` of `serde_json::Number` copies the number.
pub assume_specification[ <serde_json::Number as Clone>::clone ](
    number: &serde_json::Number,
) -> (copy: serde_json::Number)
    ensures
        copy == *number,
;

/// The number that `serde_json` makes of an integer without a sign.
pub uninterp spec fn unsigned_number(value: u64) -> serde_json::Number;

/// Trusted: `serde_json::Number::from` on an integer without a sign: a function of the
/// integer alone, whose result holds that integer.
#[verifier::external_body]
fn number_from_unsigned(value: u64) -> (number: serde_json::Number)
    ensures
        number == unsigned_number(value),
        number_unsigned(number) == Some(value),
{
    serde_json::Number::from(value)
}

/// Whether `serde_json` takes two numbers for equal.
pub uninterp spec fn numbers_equal(a: serde_json::Number, b: serde_json::Number) -> bool;

/// Trusted: `==` of `serde_json::Number`, a function of the two numbers alone.
#[verifier::external_body]
fn same_number(a: &serde_json::Number, b: &serde_json::Number) -> (same: bool)
    ensures
        same == numbers_equal(*a, *b),
{
    a == b
}

/// What a value tree of `serde_json` says.
pub uninterp spec fn tree_view(value: serde_json::Value) -> JsonView;

/// One level of a value tree.
pub enum TreeLevel {
    Null,
    Bool(bool),
    Number(serde_json::Number),
    Text(String),
    Array(Vec<serde_json::Value>),
    Object(Vec<(String, serde_json::Value)>),
}

/// What the named trees say, by name; a later one replaces an earlier one.
pub open spec fn named_tree_views(members: Seq<(String, serde_json::Value)>) -> Map<
    Seq<char>,
    JsonView,
>
    decreases members.len(),
{
    if members.len() == 0 {
        Map::empty()
    } else {
        named_tree_views(members.drop_last()).insert(
            members.last().0@,
            tree_view(members.last().1),
        )
    }
}

/// What one level of a value tree says together with the trees below it.
pub open spec fn level_view(level: TreeLevel) -> JsonView {
    match level {
        TreeLevel::Null => JsonView::Null,
        TreeLevel::Bool(flag) => JsonView::Bool(flag),
        TreeLevel::Number(number) => JsonView::Number(number),
        TreeLevel::Text(text) => JsonView::Text(text@),
        TreeLevel::Array(items) => JsonView::Array(
            items@.map_values(|item: serde_json::Value| tree_view(item)),
        ),
        TreeLevel::Object(members) => JsonView::Object(named_tree_views(members@)),
    }
}

/// Whether no two of the named trees have the same name.
pub open spec fn names_distinct(members: Seq<(String, serde_json::Value)>) -> bool {
    forall|i: int, j: int|
        0 <= i < j < members.len() ==> (#[trigger] members[i]).0@ != (#[trigger] members[j]).0@
}

/// Trusted: the variants of `serde_json::Value` told apart, with the members of its map
/// handed out as a list. The map holds each name once.
#[verifier::external_body]
fn split_tree(value: serde_json::Value) -> (level: TreeLevel)
    ensures
        level_view(level) == tree_view(value),
        level matches TreeLevel::Object(members) ==> names_distinct(members@),
{
    match value {
        serde_json::Value::Null => TreeLevel::Null,
        serde_json::Value::Bool(flag) => TreeLevel::Bool(flag),
        serde_json::Value::Number(number) => TreeLevel::Number(number),
        serde_json::Value::String(text) => TreeLevel::Text(text),
        serde_json::Value::Array(items) => TreeLevel::Array(items),
        serde_json::Value::Object(members) => TreeLevel::Object(members.into_iter().collect()),
    }
}

/// Trusted: the variants of `serde_json::Value` built from their parts, with the members of
/// an object collected into its map, where a later member of a name replaces an earlier one.
#[verifier::external_body]
fn build_tree(level: TreeLevel) -> (value: serde_json::Value)
    ensures
        tree_view(value) == level_view(level),
{
    match level {
        TreeLevel::Null => serde_json::Value::Null,
        TreeLevel::Bool(flag) => serde_json::Value::Bool(flag),
        TreeLevel::Number(number) => serde_json::Value::Number(number),
        TreeLevel::Text(text) => serde_json::Value::String(text),
        TreeLevel::Array(items) => serde_json::Value::Array(items),
        TreeLevel::Object(members) => serde_json::Value::Object(members.into_iter().collect()),
    }
}

/// What `serde_json::from_str` reads from a text as a value tree, or the text of its error.
pub uninterp spec fn read_json(text: Seq<char>) -> Result<JsonView, Seq<char>>;

/// Trusted: `serde_json::from_str` into a value tree, a function of the text alone.
#[verifier::external_body]
fn read_tree(text: &str) -> (result: Result<serde_json::Value, String>)
    ensures
        match result {
            Ok(value) => read_json(text@) == Ok::<JsonView, Seq<char>>(tree_view(value)),
            Err(error) => read_json(text@) == Err::<JsonView, Seq<char>>(error@),
        },
{
    serde_json::from_str::<serde_json::Value>(text).map_err(|error| error.to_string())
}

/// The compact text that `serde_json` writes for a value.
pub uninterp spec fn written_json(value: JsonView) -> Seq<char>;

/// Trusted: `serde_json::Value` rendered by `Display` in its compact format, which depends
/// on what the value says alone: the members of an object are written in the order of
/// their names.
#[verifier::external_body]
fn write_tree(value: &serde_json::Value) -> (text: String)
    ensures
        text@ == written_json(tree_view(*value)),
{
    value.to_string()
}

/// The indented text that `serde_json` writes for a value, as bytes, or the text of its error.
pub uninterp spec fn pretty_json(value: JsonView) -> Result<Seq<u8>, Seq<char>>;

/// Trusted: `serde_json::to_vec_pretty` on a value tree, which depends on what the value says
/// alone: the members of an object are written in the order of their names.
#[verifier::external_body]
fn write_pretty_tree(value: &serde_json::Value) -> (result: Result<Vec<u8>, String>)
    ensures
        match result {
            Ok(bytes) => pretty_json(tree_view(*value)) == Ok::<Seq<u8>, Seq<char>>(bytes@),
            Err(error) => pretty_json(tree_view(*value)) == Err::<Seq<u8>, Seq<char>>(error@),
        },
{
    serde_json::to_vec_pretty(value).map_err(|error| error.to_string())
}

proof fn lemma_member_views_take(members: Seq<(String, Json)>, i: int)
    requires
        0 <= i < members.len(),
    ensures
        member_views(members.take(i + 1)) == member_views(members.take(i)).insert(
            members[i].0@,
            members[i].1@,
        ),
{
    assert(members.take(i + 1).drop_last() == members.take(i));
}

proof fn lemma_named_tree_views_take(members: Seq<(String, serde_json::Value)>, i: int)
    requires
        0 <= i < members.len(),
    ensures
        named_tree_views(members.take(i + 1)) == named_tree_views(members.take(i)).insert(
            members[i].0@,
            tree_view(members[i].1),
        ),
{
    assert(members.take(i + 1).drop_last() == members.take(i));
}

proof fn lemma_named_trees_finite(members: Seq<(String, serde_json::Value)>)
    ensures
        named_tree_views(members).dom().finite(),
    decreases members.len(),
{
    if members.len() > 0 {
        lemma_named_trees_finite(members.drop_last());
    }
}

/// With distinct names, each named tree is found under its name.
proof fn lemma_named_tree_found(members: Seq<(String, serde_json::Value)>, i: int)
    requires
        0 <= i < members.len(),
        names_distinct(members),
    ensures
        named_tree_views(members).dom().finite(),
        named_tree_views(members).contains_key(members[i].0@),
        named_tree_views(members)[members[i].0@] == tree_view(members[i].1),
    decreases members.len(),
{
    lemma_named_trees_finite(members);
    if i < members.len() - 1 {
        lemma_named_tree_found(members.drop_last(), i);
        assert(members[i].0@ != members[members.len() - 1].0@);
    }
}

/// The library's value for a value tree.
fn json_from_tree(value: serde_json::Value) -> (json: Json)
    ensures
        json@ == tree_view(value),
    decreases tree_view(value),
{
    let ghost whole = tree_view(value);
    match split_tree(value) {
        TreeLevel::Null => Json::Null,
        TreeLevel::Bool(flag) => Json::Bool(flag),
        TreeLevel::Number(number) => Json::Number(number),
        TreeLevel::Text(text) => Json::Text(text),
        TreeLevel::Array(items) => {
            let ghost listed = items@;
            let mut rest: Vec<serde_json::Value> = items;
            let mut reversed: Vec<Json> = Vec::new();
            while rest.len() > 0
                invariant
                    rest@.len() + reversed@.len() == listed.len(),
                    rest@ == listed.take(rest@.len() as int),
                    forall|i: int|
                        0 <= i < reversed@.len() ==> (#[trigger] reversed@[i])@ == tree_view(
                            listed[listed.len() - 1 - i],
                        ),
                    whole == tree_view(value),
                    whole == JsonView::Array(
                        listed.map_values(|item: serde_json::Value| tree_view(item)),
                    ),
                decreases rest@.len(),
            {
                let ghost at = rest@.len() - 1;
                match rest.pop() {
                    Some(item) => {
                        assert(item == listed[at]);
                        assert(whole->Array_0[at] == tree_view(item));
                        assert(decreases_to!(whole->Array_0 => whole->Array_0[at]));
                        reversed.push(json_from_tree(item));
                    },
                    None => {},
                }
            }
            let mut ordered: Vec<Json> = Vec::new();
            while reversed.len() > 0
                invariant
                    reversed@.len() + ordered@.len() == listed.len(),
                    forall|i: int|
                        0 <= i < reversed@.len() ==> (#[trigger] reversed@[i])@ == tree_view(
                            listed[listed.len() - 1 - i],
                        ),
                    forall|i: int|
                        0 <= i < ordered@.len() ==> (#[trigger] ordered@[i])@ == tree_view(
                            listed[i],
                        ),
                decreases reversed@.len(),
            {
                match reversed.pop() {
                    Some(item) => ordered.push(item),
                    None => {},
                }
            }
            assert(item_views(ordered@) == listed.map_values(
                |item: serde_json::Value| tree_view(item),
            ));
            Json::Array(ordered)
        },
        TreeLevel::Object(members) => {
            let ghost listed = members@;
            let mut rest: Vec<(String, serde_json::Value)> = members;
            let mut reversed: Vec<(String, Json)> = Vec::new();
            while rest.len() > 0
                invariant
                    rest@.len() + reversed@.len() == listed.len(),
                    rest@ == listed.take(rest@.len() as int),
                    forall|i: int|
                        0 <= i < reversed@.len() ==> (#[trigger] reversed@[i]).0
                            == listed[listed.len() - 1 - i].0 && reversed@[i].1@ == tree_view(
                            listed[listed.len() - 1 - i].1,
                        ),
                    names_distinct(listed),
                    whole == tree_view(value),
                    whole == JsonView::Object(named_tree_views(listed)),
                decreases rest@.len(),
            {
                let ghost at = rest@.len() - 1;
                match rest.pop() {
                    Some((name, item)) => {
                        proof {
                            assert(listed[at] == (name, item));
                            lemma_named_tree_found(listed, at);
                            assert(whole->Object_0[name@] == tree_view(item));
                            assert(decreases_to!(whole->Object_0 => whole->Object_0[name@]));
                        }
                        reversed.push((name, json_from_tree(item)));
                    },
                    None => {},
                }
            }
            let mut ordered: Vec<(String, Json)> = Vec::new();
            assert(ordered@.take(0) == ordered@);
            while reversed.len() > 0
                invariant
                    reversed@.len() + ordered@.len() == listed.len(),
                    forall|i: int|
                        0 <= i < reversed@.len() ==> (#[trigger] reversed@[i]).0
                            == listed[listed.len() - 1 - i].0 && reversed@[i].1@ == tree_view(
                            listed[listed.len() - 1 - i].1,
                        ),
                    member_views(ordered@) == named_tree_views(listed.take(ordered@.len() as int)),
                decreases reversed@.len(),
            {
                let ghost before = ordered@;
                match reversed.pop() {
                    Some(member) => {
                        ordered.push(member);
                        proof {
                            assert(ordered@.drop_last() == before);
                            lemma_named_tree_views_take(listed, before.len() as int);
                        }
                    },
                    None => {},
                }
            }
            assert(listed.take(listed.len() as int) == listed);
            Json::Object(ordered)
        },
    }
}

/// The value tree for a value of the library.
fn tree_from_json(json: &Json) -> (value: serde_json::Value)
    ensures
        tree_view(value) == json@,
    decreases json,
{
    match json {
        Json::Null => build_tree(TreeLevel::Null),
        Json::Bool(flag) => build_tree(TreeLevel::Bool(*flag)),
        Json::Number(number) => build_tree(TreeLevel::Number(number.clone())),
        Json::Text(text) => build_tree(TreeLevel::Text(text.clone())),
        Json::Array(items) => {
            let mut trees: Vec<serde_json::Value> = Vec::new();
            let mut i: usize = 0;
            while i < items.len()
                invariant
                    i <= items@.len(),
                    trees@.len() == i,
                    json matches Json::Array(listed) && listed == items,
                    forall|k: int| 0 <= k < i ==> tree_view(#[trigger] trees@[k]) == items@[k]@,
                decreases items@.len() - i,
            {
                trees.push(tree_from_json(&items[i]));
                i += 1;
            }
            assert(trees@.map_values(|item: serde_json::Value| tree_view(item)) == item_views(
                items@,
            ));
            build_tree(TreeLevel::Array(trees))
        },
        Json::Object(members) => {
            let mut trees: Vec<(String, serde_json::Value)> = Vec::new();
            let mut i: usize = 0;
            assert(members@.take(0) == Seq::<(String, Json)>::empty());
            while i < members.len()
                invariant
                    i <= members@.len(),
                    trees@.len() == i,
                    json matches Json::Object(listed) && listed == members,
                    named_tree_views(trees@) == member_views(members@.take(i as int)),
                decreases members@.len() - i,
            {
                let ghost before = trees@;
                let name: String = members[i].0.clone();
                trees.push((name, tree_from_json(&members[i].1)));
                proof {
                    assert(trees@.drop_last() == before);
                    lemma_member_views_take(members@, i as int);
                }
                i += 1;
            }
            assert(members@.take(members@.len() as int) == members@);
            build_tree(TreeLevel::Object(trees))
        },
    }
}

/// Reads one JSON value from `text`; the error is the text of the reader's error.
pub fn parse_json(text: &str) -> (result: Result<Json, String>)
    ensures
        match result {
            Ok(json) => read_json(text@) == Ok::<JsonView, Seq<char>>(json@),
            Err(error) => read_json(text@) == Err::<JsonView, Seq<char>>(error@),
        },
{
    match read_tree(text) {
        Ok(value) => Ok(json_from_tree(value)),
        Err(error) => Err(error),
    }
}

/// Where the member `name` stands that counts.
fn find_member(members: &Vec<(String, Json)>, name: &str) -> (at: Option<usize>)
    ensures
        match at {
            Some(at) => {
                &&& at < members@.len()
                &&& member_views(members@).contains_key(name@)
                &&& member_views(members@)[name@] == members@[at as int].1@
            },
            None => !member_views(members@).contains_key(name@),
        },
{
    let mut i: usize = members.len();
    let ghost found = member_views(members@);
    assert(members@.take(members@.len() as int) == members@);
    while i > 0
        invariant
            i <= members@.len(),
            found == member_views(members@),
            member_views(members@.take(i as int)).contains_key(name@) == found.contains_key(name@),
            member_views(members@.take(i as int))[name@] == found[name@],
        decreases i,
    {
        proof {
            lemma_member_views_take(members@, i - 1);
        }
        if same_text(members[i - 1].0.as_str(), name) {
            return Some(i - 1);
        }
        i -= 1;
    }
    assert(members@.take(0) == Seq::<(String, Json)>::empty());
    None
}

/// Whether two values are equal: numbers as `serde_json` has it, objects by their members.
pub open spec fn alike(a: JsonView, b: JsonView) -> bool
    decreases a,
{
    match (a, b) {
        (JsonView::Null, JsonView::Null) => true,
        (JsonView::Bool(a), JsonView::Bool(b)) => a == b,
        (JsonView::Number(a), JsonView::Number(b)) => numbers_equal(a, b),
        (JsonView::Text(a), JsonView::Text(b)) => a == b,
        (JsonView::Array(a), JsonView::Array(b)) => {
            &&& a.len() == b.len()
            &&& forall|i: int|
                if 0 <= i < a.len() {
                    alike(#[trigger] a[i], b[i])
                } else {
                    true
                }
        },
        (JsonView::Object(a), JsonView::Object(b)) => {
            &&& a.dom() == b.dom()
            &&& forall|name: Seq<char>|
                if a.contains_key(name) {
                    alike(#[trigger] a[name], b[name])
                } else {
                    true
                }
        },
        _ => false,
    }
}

proof fn lemma_names_are_keys(members: Seq<(String, Json)>)
    ensures
        forall|i: int|
            0 <= i < members.len() ==> member_views(members).contains_key(
                (#[trigger] members[i]).0@,
            ),
        forall|name: Seq<char>| #[trigger]
            member_views(members).contains_key(name) ==> exists|i: int|
                0 <= i < members.len() && (#[trigger] members[i]).0@ == name,
    decreases members.len(),
{
    if members.len() > 0 {
        let before = members.drop_last();
        lemma_names_are_keys(before);
        assert forall|i: int| 0 <= i < members.len() implies member_views(members).contains_key(
            (#[trigger] members[i]).0@,
        ) by {
            if i < before.len() {
                assert(before[i] == members[i]);
            }
        }
        assert forall|name: Seq<char>| #[trigger]
            member_views(members).contains_key(name) implies exists|i: int|
            0 <= i < members.len() && (#[trigger] members[i]).0@ == name by {
            if name == members.last().0@ {
                assert(members[members.len() - 1].0@ == name);
            } else {
                assert(member_views(before).contains_key(name));
                let i = choose|i: int| 0 <= i < before.len() && (#[trigger] before[i]).0@ == name;
                assert(members[i].0@ == name);
            }
        }
    }
}

/// Whether two values are equal.
fn same_json(a: &Json, b: &Json) -> (same: bool)
    ensures
        same == alike(a@, b@),
    decreases a,
{
    match (a, b) {
        (Json::Null, Json::Null) => true,
        (Json::Bool(a), Json::Bool(b)) => *a == *b,
        (Json::Number(a), Json::Number(b)) => same_number(a, b),
        (Json::Text(a), Json::Text(b)) => same_text(a.as_str(), b.as_str()),
        (Json::Array(items), Json::Array(others)) => {
            let ghost left = item_views(items@);
            let ghost right = item_views(others@);
            if items.len() != others.len() {
                return false;
            }
            let mut i: usize = 0;
            while i < items.len()
                invariant
                    i <= items@.len(),
                    items@.len() == others@.len(),
                    left == item_views(items@),
                    right == item_views(others@),
                    a matches Json::Array(listed) && listed == items,
                    b matches Json::Array(listed) && listed == others,
                    forall|k: int| 0 <= k < i ==> alike(#[trigger] left[k], right[k]),
                decreases items@.len() - i,
            {
                assert(left[i as int] == items@[i as int]@);
                assert(right[i as int] == others@[i as int]@);
                if !same_json(&items[i], &others[i]) {
                    return false;
                }
                i += 1;
            }
            true
        },
        (Json::Object(members), Json::Object(others)) => {
            let ghost left = member_views(members@);
            let ghost right = member_views(others@);
            proof {
                lemma_names_are_keys(members@);
                lemma_names_are_keys(others@);
            }
            let mut i: usize = 0;
            while i < members.len()
                invariant
                    i <= members@.len(),
                    left == member_views(members@),
                    right == member_views(others@),
                    a matches Json::Object(listed) && listed == members,
                    b matches Json::Object(listed) && listed == others,
                    forall|k: int|
                        0 <= k < members@.len() ==> left.contains_key((#[trigger] members@[k]).0@),
                    forall|k: int|
                        0 <= k < i ==> right.contains_key((#[trigger] members@[k]).0@) && alike(
                            left[members@[k].0@],
                            right[members@[k].0@],
                        ),
                decreases members@.len() - i,
            {
                let name: &str = members[i].0.as_str();
                match (find_member(members, name), find_member(others, name)) {
                    (Some(at), Some(other)) => {
                        if !same_json(&members[at].1, &others[other].1) {
                            return false;
                        }
                    },
                    _ => {
                        return false;
                    },
                }
                i += 1;
            }
            let mut j: usize = 0;
            while j < others.len()
                invariant
                    j <= others@.len(),
                    left == member_views(members@),
                    right == member_views(others@),
                    a matches Json::Object(listed) && listed == members,
                    b matches Json::Object(listed) && listed == others,
                    forall|k: int|
                        0 <= k < others@.len() ==> right.contains_key((#[trigger] others@[k]).0@),
                    forall|k: int| 0 <= k < j ==> left.contains_key((#[trigger] others@[k]).0@),
                decreases others@.len() - j,
            {
                if find_member(members, others[j].0.as_str()).is_none() {
                    assert(right.contains_key(others@[j as int].0@));
                    assert(left.dom() != right.dom());
                    return false;
                }
                j += 1;
            }
            proof {
                assert forall|name: Seq<char>| left.contains_key(name) implies right.contains_key(
                    name,
                ) && alike(#[trigger] left[name], right[name]) by {
                    let k = choose|k: int|
                        0 <= k < members@.len() && (#[trigger] members@[k]).0@ == name;
                    assert(members@[k].0@ == name);
                }
                assert forall|name: Seq<char>| right.contains_key(name) implies left.contains_key(
                    name,
                ) by {
                    let k = choose|k: int|
                        0 <= k < others@.len() && (#[trigger] others@[k]).0@ == name;
                    assert(others@[k].0@ == name);
                }
                assert(left.dom() == right.dom());
            }
            true
        },
        _ => false,
    }
}

impl PartialEq for Json {
    fn eq(&self, other: &Self) -> (same: bool) {
        same_json(self, other)
    }
}

impl vstd::std_specs::cmp::PartialEqSpecImpl for Json {
    open spec fn obeys_eq_spec() -> bool {
        true
    }

    open spec fn eq_spec(&self, other: &Self) -> bool {
        alike(self@, other@)
    }
}

impl Clone for Json {
    fn clone(&self) -> (copy: Self)
        ensures
            copy@ == self@,
        decreases self,
    {
        match self {
            Json::Null => Json::Null,
            Json::Bool(flag) => Json::Bool(*flag),
            Json::Number(number) => Json::Number(number.clone()),
            Json::Text(text) => Json::Text(text.clone()),
            Json::Array(items) => {
                let mut copies: Vec<Json> = Vec::new();
                let mut i: usize = 0;
                while i < items.len()
                    invariant
                        i <= items@.len(),
                        copies@.len() == i,
                        self matches Json::Array(listed) && listed == items,
                        forall|k: int| 0 <= k < i ==> (#[trigger] copies@[k])@ == items@[k]@,
                    decreases items@.len() - i,
                {
                    copies.push(items[i].clone());
                    i += 1;
                }
                assert(item_views(copies@) == item_views(items@));
                Json::Array(copies)
            },
            Json::Object(members) => {
                let mut copies: Vec<(String, Json)> = Vec::new();
                let mut i: usize = 0;
                assert(members@.take(0) == Seq::<(String, Json)>::empty());
                while i < members.len()
                    invariant
                        i <= members@.len(),
                        copies@.len() == i,
                        self matches Json::Object(listed) && listed == members,
                        member_views(copies@) == member_views(members@.take(i as int)),
                    decreases members@.len() - i,
                {
                    let ghost before = copies@;
                    let name: String = members[i].0.clone();
                    copies.push((name, members[i].1.clone()));
                    proof {
                        assert(copies@.drop_last() == before);
                        lemma_member_views_take(members@, i as int);
                    }
                    i += 1;
                }
                assert(members@.take(members@.len() as int) == members@);
                Json::Object(copies)
            },
        }
    }
}

impl Json {
    /// The compact text of the value.
    pub fn to_text(&self) -> (text: String)
        ensures
            text@ == written_json(self@),
    {
        let value = tree_from_json(self);
        write_tree(&value)
    }

    /// The indented text of the value, as bytes.
    pub fn to_pretty_bytes(&self) -> (result: Result<Vec<u8>, String>)
        ensures
            match result {
                Ok(bytes) => pretty_json(self@) == Ok::<Seq<u8>, Seq<char>>(bytes@),
                Err(error) => pretty_json(self@) == Err::<Seq<u8>, Seq<char>>(error@),
            },
    {
        let value = tree_from_json(self);
        write_pretty_tree(&value)
    }

    /// The member `name`, when this is an object that has one.
    pub fn get(&self, name: &str) -> (member: Option<&Json>)
        ensures
            view_opt_json(member) == self@.member(name@),
    {
        match self {
            Json::Object(members) => match find_member(members, name) {
                Some(at) => Some(&members[at].1),
                None => None,
            },
            _ => None,
        }
    }

    /// The text, when this is one.
    pub fn as_str(&self) -> (text: Option<&str>)
        ensures
            match text {
                Some(text) => self@.as_text() == Some(text@),
                None => self@.as_text() is None,
            },
    {
        match self {
            Json::Text(text) => Some(text.as_str()),
            _ => None,
        }
    }

    /// The flag, when this is one.
    pub fn as_bool(&self) -> (flag: Option<bool>)
        ensures
            flag == self@.as_flag(),
    {
        match self {
            Json::Bool(flag) => Some(*flag),
            _ => None,
        }
    }

    /// The items, when this is an array.
    pub fn as_array(&self) -> (items: Option<&Vec<Json>>)
        ensures
            match items {
                Some(items) => self@.as_items() == Some(item_views(items@)),
                None => self@.as_items() is None,
            },
    {
        match self {
            Json::Array(items) => Some(items),
            _ => None,
        }
    }

    /// The integer, when this is a number that holds one without a sign.
    pub fn as_u64(&self) -> (value: Option<u64>)
        ensures
            value == self@.as_unsigned(),
    {
        match self {
            Json::Number(number) => number.as_u64(),
            _ => None,
        }
    }

    /// An object without members.
    pub fn object() -> (json: Json)
        ensures
            json@ == JsonView::Object(Map::empty()),
            json is Object,
    {
        Json::Object(Vec::new())
    }

    /// The object with one more member.
    pub fn with(self, name: &str, value: Json) -> (json: Json)
        requires
            self is Object,
        ensures
            json is Object,
            json@ == JsonView::Object(self@->Object_0.insert(name@, value@)),
    {
        match self {
            Json::Object(members) => {
                let mut members: Vec<(String, Json)> = members;
                let ghost before = members@;
                members.push((name.to_owned(), value));
                assert(members@.drop_last() == before);
                Json::Object(members)
            },
            other => other,
        }
    }

    /// A text.
    pub fn text(text: &str) -> (json: Json)
        ensures
            json@ == JsonView::Text(text@),
    {
        Json::Text(text.to_owned())
    }

    /// A flag.
    pub fn flag(value: bool) -> (json: Json)
        ensures
            json@ == JsonView::Bool(value),
    {
        Json::Bool(value)
    }

    /// An integer without a sign.
    pub fn unsigned(value: u64) -> (json: Json)
        ensures
            json@ == JsonView::Number(unsigned_number(value)),
            json@.as_unsigned() == Some(value),
    {
        Json::Number(number_from_unsigned(value))
    }

    /// An array of one item.
    pub fn single(item: Json) -> (json: Json)
        ensures
            json@ == JsonView::Array(seq![item@]),
    {
        let mut items: Vec<Json> = Vec::new();
        items.push(item);
        assert(item_views(items@) == seq![item@]);
        Json::Array(items)
    }

    /// An array of texts.
    pub fn texts(texts: &Vec<String>) -> (json: Json)
        ensures
            json@ == JsonView::Array(texts@.map_values(|text: String| JsonView::Text(text@))),
    {
        let mut items: Vec<Json> = Vec::new();
        let mut i: usize = 0;
        while i < texts.len()
            invariant
                i <= texts@.len(),
                items@.len() == i,
                forall|k: int|
                    0 <= k < i ==> (#[trigger] items@[k])@ == JsonView::Text(texts@[k]@),
            decreases texts@.len() - i,
        {
            items.push(Json::Text(texts[i].clone()));
            i += 1;
        }
        assert(item_views(items@) == texts@.map_values(|text: String| JsonView::Text(text@)));
        Json::Array(items)
    }
}

/// A member that is added last is what the object says of its name; what it says of every other
/// name stays.
pub proof fn law_later_members_replace_earlier_ones(
    members: Seq<(String, Json)>,
    member: (String, Json),
    name: Seq<char>,
)
    ensures
        JsonView::Object(member_views(members.push(member))).member(member.0@) == Some(
            member.1@,
        ),
        name != member.0@ ==> JsonView::Object(member_views(members.push(member))).member(name)
            == JsonView::Object(member_views(members)).member(name),
        JsonView::Object(member_views(Seq::empty())).member(name) is None,
{
    assert(members.push(member).drop_last() == members);
}

/// A value is read as what it is and as nothing else: text as text, a flag as a flag, an array as
/// its items, and an object by the names of its members.
pub proof fn law_values_are_read_as_what_they_are(
    value: JsonView,
    text: Seq<char>,
    flag: bool,
    items: Seq<JsonView>,
    name: Seq<char>,
)
    ensures
        value.as_text() == Some(text) <==> value == JsonView::Text(text),
        value.as_flag() == Some(flag) <==> value == JsonView::Bool(flag),
        value.as_items() == Some(items) <==> value == JsonView::Array(items),
        value.as_unsigned() is Some ==> value is Number,
        value.member(name) is Some <==> (value matches JsonView::Object(members)
            && members.contains_key(name)),
        value matches JsonView::Object(members) ==> (value.member(name) matches Some(member)
            ==> member == members[name]),
{
}

} // verus!
