//! Settings documents: the tree of values that a TOML text denotes.
use vstd::prelude::*;

use crate::text::same;

verus! {

/// A value of a settings document. Floats and dates carry nothing that the
/// configuration reads, so they are kept as `Other`.
#[derive(Debug)]
pub enum Setting {
    Text(String),
    Integer(i64),
    Boolean(bool),
    List(Vec<Setting>),
    Table(Vec<(String, Setting)>),
    Other,
}

/// The mathematical content of a [`Setting`].
pub enum Tree {
    Text(Seq<char>),
    Integer(i64),
    Boolean(bool),
    List(Seq<Tree>),
    Table(Seq<(Seq<char>, Tree)>),
    Other,
}

/// The tree that a setting holds.
pub open spec fn tree(v: Setting) -> Tree
    decreases v,
{
    match v {
        Setting::Text(s) => Tree::Text(s@),
        Setting::Integer(i) => Tree::Integer(i),
        Setting::Boolean(b) => Tree::Boolean(b),
        Setting::List(a) => Tree::List(
            Seq::new(
                a@.len(),
                |i: int|
                    if 0 <= i < a@.len() {
                        tree(a@[i])
                    } else {
                        Tree::Other
                    },
            ),
        ),
        Setting::Table(a) => Tree::Table(
            Seq::new(
                a@.len(),
                |i: int|
                    if 0 <= i < a@.len() {
                        (a@[i].0@, tree(a@[i].1))
                    } else {
                        (seq![], Tree::Other)
                    },
            ),
        ),
        Setting::Other => Tree::Other,
    }
}

/// The trees of a list of settings.
pub open spec fn items(v: Seq<Setting>) -> Seq<Tree> {
    Seq::new(v.len(), |i: int| tree(v[i]))
}

/// The keys and trees of a table, in the order in which it lists them.
pub open spec fn fields(v: Seq<(String, Setting)>) -> Seq<(Seq<char>, Tree)> {
    Seq::new(v.len(), |i: int| (v[i].0@, tree(v[i].1)))
}

/// The value under `key`, the first where a key occurs more than once.
pub open spec fn lookup(t: Seq<(Seq<char>, Tree)>, key: Seq<char>) -> Option<Tree>
    decreases t.len(),
{
    if t.len() == 0 {
        None
    } else if t[0].0 == key {
        Some(t[0].1)
    } else {
        lookup(t.drop_first(), key)
    }
}

/// A table holds its fields, and a list its items.
pub proof fn lemma_tree_parts(v: Setting)
    ensures
        v matches Setting::Table(a) ==> tree(v) == Tree::Table(fields(a@)),
        v matches Setting::List(a) ==> tree(v) == Tree::List(items(a@)),
{
    match v {
        Setting::Table(a) => {
            assert(tree(v)->Table_0 =~= fields(a@));
        },
        Setting::List(a) => {
            assert(tree(v)->List_0 =~= items(a@));
        },
        _ => {},
    }
}

/// The value under `key` of a table.
pub fn get<'a>(t: &'a Vec<(String, Setting)>, key: &str) -> (r: Option<&'a Setting>)
    ensures
        match r {
            Some(v) => lookup(fields(t@), key@) == Some(tree(*v)),
            None => lookup(fields(t@), key@) is None,
        },
{
    let ghost all = fields(t@);
    let mut i: usize = 0;
    assert(all.skip(0) =~= all);
    while i < t.len()
        invariant
            i <= t@.len(),
            all == fields(t@),
            lookup(all, key@) == lookup(all.skip(i as int), key@),
        decreases t@.len() - i,
    {
        assert(all.skip(i as int)[0] == all[i as int]);
        if same(t[i].0.as_str(), key) {
            return Some(&t[i].1);
        }
        assert(all.skip(i as int).drop_first() =~= all.skip(i + 1));
        i += 1;
    }
    None
}

/// `toml::Value`: a value that was read from TOML. Nothing is claimed of it.
#[verifier::external_type_specification]
#[verifier::external_body]
pub struct ExTomlValue(toml::Value);

/// The fields that the `toml` crate reads from a text, or its words on why it
/// rejects the text.
pub uninterp spec fn toml_document(content: Seq<char>) -> Result<
    Seq<(Seq<char>, Tree)>,
    Seq<char>,
>;

/// The setting that a `toml::Value` stands for, variant by variant; what a
/// list or a table holds is carried over in its order.
#[verifier::external_body]
fn setting_of(value: toml::Value) -> Setting {
    match value {
        toml::Value::String(s) => Setting::Text(s),
        toml::Value::Integer(i) => Setting::Integer(i),
        toml::Value::Boolean(b) => Setting::Boolean(b),
        toml::Value::Array(a) => Setting::List(a.into_iter().map(setting_of).collect()),
        toml::Value::Table(t) => {
            Setting::Table(t.into_iter().map(|(k, v)| (k, setting_of(v))).collect())
        },
        toml::Value::Float(_) => Setting::Other,
        toml::Value::Datetime(_) => Setting::Other,
    }
}

/// `toml::from_str`, asked for a `toml::Table`: whether the text is accepted,
/// which fields come out and how the rejection is worded depends on the text
/// alone. The fields come in the order in which `toml::Table` iterates over
/// them; the words are those that `toml::de::Error` displays.
#[verifier::external_body]
pub(crate) fn parse_toml(content: &str) -> (r: Result<Vec<(String, Setting)>, String>)
    ensures
        toml_document(content@) == match r {
            Ok(t) => Ok::<Seq<(Seq<char>, Tree)>, Seq<char>>(fields(t@)),
            Err(reason) => Err::<Seq<(Seq<char>, Tree)>, Seq<char>>(reason@),
        },
{
    toml::from_str::<toml::Table>(content).map(
        |t| t.into_iter().map(|(k, v)| (k, setting_of(v))).collect()).map_err(|e| e.to_string())
}

} // verus!
