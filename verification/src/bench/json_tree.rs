//! JSON documents as plain values.
use vstd::prelude::*;

use crate::text::owned;

verus! {

/// A JSON value. A floating-point number is held by its bits.
#[derive(Debug)]
pub enum Json {
    Null,
    Flag(bool),
    Whole(i64),
    Count(u64),
    Real(u64),
    Text(String),
    List(Vec<Json>),
    Object(Vec<(String, Json)>),
}

/// What a JSON value is.
pub enum JsonTree {
    Null,
    Flag(bool),
    Whole(i64),
    Count(u64),
    Real(u64),
    Text(Seq<char>),
    List(Seq<JsonTree>),
    Object(Seq<(Seq<char>, JsonTree)>),
}

/// What a JSON value is, part by part.
pub open spec fn tree_of(value: Json) -> JsonTree
    decreases value,
{
    match value {
        Json::Null => JsonTree::Null,
        Json::Flag(b) => JsonTree::Flag(b),
        Json::Whole(n) => JsonTree::Whole(n),
        Json::Count(n) => JsonTree::Count(n),
        Json::Real(bits) => JsonTree::Real(bits),
        Json::Text(s) => JsonTree::Text(s@),
        Json::List(items) => JsonTree::List(
            Seq::new(
                items@.len(),
                |i: int|
                    if 0 <= i < items@.len() {
                        tree_of(items@[i])
                    } else {
                        JsonTree::Null
                    },
            ),
        ),
        Json::Object(members) => JsonTree::Object(
            Seq::new(
                members@.len(),
                |i: int|
                    if 0 <= i < members@.len() {
                        (members@[i].0@, tree_of(members@[i].1))
                    } else {
                        (Seq::<char>::empty(), JsonTree::Null)
                    },
            ),
        ),
    }
}

impl View for Json {
    type V = JsonTree;

    open spec fn view(&self) -> JsonTree {
        tree_of(*self)
    }
}

/// An object to which members are added.
pub open spec fn no_members() -> Seq<(Seq<char>, JsonTree)> {
    Seq::empty()
}

/// A list to which items are added.
pub open spec fn no_items() -> Seq<JsonTree> {
    Seq::empty()
}

pub fn text_value(s: &str) -> (r: Json)
    ensures
        r@ == JsonTree::Text(s@),
{
    Json::Text(owned(s))
}

/// The members of an object that is being written.
#[derive(Debug)]
pub struct Members {
    members: Vec<(String, Json)>,
}

impl View for Members {
    type V = Seq<(Seq<char>, JsonTree)>;

    closed spec fn view(&self) -> Seq<(Seq<char>, JsonTree)> {
        Seq::new(self.members@.len(), |i: int| (self.members@[i].0@, self.members@[i].1@))
    }
}

impl Members {
    pub fn new() -> (r: Self)
        ensures
            r@ == no_members(),
    {
        let r = Members { members: Vec::new() };
        assert(r@ =~= no_members());
        r
    }

    /// Adds a member.
    pub fn put(&mut self, name: &str, value: Json)
        ensures
            final(self)@ == old(self)@.push((name@, value@)),
    {
        self.members.push((owned(name), value));
        assert(self@ =~= old(self)@.push((name@, value@)));
    }

    pub fn put_text(&mut self, name: &str, value: &str)
        ensures
            final(self)@ == old(self)@.push((name@, JsonTree::Text(value@))),
    {
        self.put(name, text_value(value));
    }

    /// The object of the members.
    pub fn done(self) -> (r: Json)
        ensures
            r@ == JsonTree::Object(self@),
    {
        let r = Json::Object(self.members);
        proof {
            reveal_with_fuel(tree_of, 2);
            assert(r@->Object_0 =~= self@);
        }
        r
    }
}

/// The items of a list that is being written.
#[derive(Debug)]
pub struct Items {
    items: Vec<Json>,
}

impl View for Items {
    type V = Seq<JsonTree>;

    closed spec fn view(&self) -> Seq<JsonTree> {
        Seq::new(self.items@.len(), |i: int| self.items@[i]@)
    }
}

impl Items {
    pub fn new() -> (r: Self)
        ensures
            r@ == no_items(),
    {
        let r = Items { items: Vec::new() };
        assert(r@ =~= no_items());
        r
    }

    /// Adds an item.
    pub fn push(&mut self, value: Json)
        ensures
            final(self)@ == old(self)@.push(value@),
    {
        self.items.push(value);
        assert(self@ =~= old(self)@.push(value@));
    }

    /// The list of the items.
    pub fn done(self) -> (r: Json)
        ensures
            r@ == JsonTree::List(self@),
    {
        let r = Json::List(self.items);
        proof {
            reveal_with_fuel(tree_of, 2);
            assert(r@->List_0 =~= self@);
        }
        r
    }
}

/// Whether a document has a value at the end of a path of member names.
pub open spec fn says(tree: JsonTree, path: Seq<Seq<char>>, value: JsonTree) -> bool
    decreases path.len(),
{
    if path.len() == 0 {
        tree == value
    } else {
        tree is Object && exists|i: int|
            0 <= i < tree->Object_0.len() && (#[trigger] tree->Object_0[i]).0 == path[0] && says(
                tree->Object_0[i].1,
                path.drop_first(),
                value,
            )
    }
}

/// A document says what its members are.
pub proof fn lemma_says_member(tree: JsonTree, i: int)
    requires
        tree is Object,
        0 <= i < tree->Object_0.len(),
    ensures
        says(tree, seq![tree->Object_0[i].0], tree->Object_0[i].1),
{
    let path = seq![tree->Object_0[i].0];
    assert(path.drop_first() =~= Seq::<Seq<char>>::empty());
    assert(says(tree->Object_0[i].1, path.drop_first(), tree->Object_0[i].1));
}

/// A document says what a member of it says.
pub proof fn lemma_says_inner(tree: JsonTree, i: int, path: Seq<Seq<char>>, value: JsonTree)
    requires
        tree is Object,
        0 <= i < tree->Object_0.len(),
        says(tree->Object_0[i].1, path, value),
    ensures
        says(tree, seq![tree->Object_0[i].0] + path, value),
{
    let longer = seq![tree->Object_0[i].0] + path;
    assert(longer.drop_first() =~= path);
}

/// What a member of a member is.
pub proof fn lemma_says_second(tree: JsonTree, i: int, j: int)
    requires
        tree is Object,
        0 <= i < tree->Object_0.len(),
        tree->Object_0[i].1 is Object,
        0 <= j < tree->Object_0[i].1->Object_0.len(),
    ensures
        says(
            tree,
            seq![tree->Object_0[i].0, tree->Object_0[i].1->Object_0[j].0],
            tree->Object_0[i].1->Object_0[j].1,
        ),
{
    let inner = tree->Object_0[i].1;
    lemma_says_member(inner, j);
    lemma_says_inner(tree, i, seq![inner->Object_0[j].0], inner->Object_0[j].1);
    assert(seq![tree->Object_0[i].0] + seq![inner->Object_0[j].0] =~= seq![
        tree->Object_0[i].0,
        inner->Object_0[j].0,
    ]);
}

/// What a member of a member of a member is.
pub proof fn lemma_says_third(tree: JsonTree, i: int, j: int, k: int)
    requires
        tree is Object,
        0 <= i < tree->Object_0.len(),
        tree->Object_0[i].1 is Object,
        0 <= j < tree->Object_0[i].1->Object_0.len(),
        tree->Object_0[i].1->Object_0[j].1 is Object,
        0 <= k < tree->Object_0[i].1->Object_0[j].1->Object_0.len(),
    ensures
        says(
            tree,
            seq![
                tree->Object_0[i].0,
                tree->Object_0[i].1->Object_0[j].0,
                tree->Object_0[i].1->Object_0[j].1->Object_0[k].0,
            ],
            tree->Object_0[i].1->Object_0[j].1->Object_0[k].1,
        ),
{
    let inner = tree->Object_0[i].1;
    let last = inner->Object_0[j].1;
    lemma_says_second(inner, j, k);
    let path = seq![inner->Object_0[j].0, last->Object_0[k].0];
    lemma_says_inner(tree, i, path, last->Object_0[k].1);
    assert(seq![tree->Object_0[i].0] + path =~= seq![
        tree->Object_0[i].0,
        inner->Object_0[j].0,
        last->Object_0[k].0,
    ]);
}

} // verus!
