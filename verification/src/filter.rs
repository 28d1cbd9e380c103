//! From query dimensions to a filter.

use crate::error::QueryError;
use crate::json::{
    int_value, json_of, jsons_of, list_value, no_entries, object_insert, object_new, object_of,
    text_value, Json,
};
use crate::text::{integer_value, parse_integer, split, split_commas, texts};
use serde_json::Value;
use vstd::prelude::*;
use vstd::string::*;

verus! {

/// The dimensions of a query, each present or absent on its own.
///
/// List-valued dimensions are held as written: comma-separated text.
#[derive(Debug, Clone)]
pub struct QueryDimensions {
    pub authors: Option<String>,
    pub ids: Option<String>,
    pub limit: Option<i32>,
    /// A tag name and its comma-separated values, for the key `#<tag>`.
    pub generic: Option<(String, String)>,
    pub hashtag: Option<String>,
    pub mentions: Option<String>,
    pub references: Option<String>,
    pub kinds: Option<String>,
}

/// Query dimensions as mathematical values.
pub struct Dimensions {
    pub authors: Option<Seq<char>>,
    pub ids: Option<Seq<char>>,
    pub limit: Option<int>,
    pub generic: Option<(Seq<char>, Seq<char>)>,
    pub hashtag: Option<Seq<char>>,
    pub mentions: Option<Seq<char>>,
    pub references: Option<Seq<char>>,
    pub kinds: Option<Seq<char>>,
}

/// The text of an optional string.
pub open spec fn opt_text(o: Option<String>) -> Option<Seq<char>> {
    match o {
        Some(s) => Some(s@),
        None => None,
    }
}

impl View for QueryDimensions {
    type V = Dimensions;

    open spec fn view(&self) -> Dimensions {
        Dimensions {
            authors: opt_text(self.authors),
            ids: opt_text(self.ids),
            limit: match self.limit {
                Some(n) => Some(n as int),
                None => None,
            },
            generic: match self.generic {
                Some((tag, values)) => Some((tag@, values@)),
                None => None,
            },
            hashtag: opt_text(self.hashtag),
            mentions: opt_text(self.mentions),
            references: opt_text(self.references),
            kinds: opt_text(self.kinds),
        }
    }
}

/// The JSON list of the given texts.
pub open spec fn text_list(items: Seq<Seq<char>>) -> Json {
    Json::List(items.map_values(|t: Seq<char>| Json::Text(t)))
}

/// The JSON list of the given integers.
pub open spec fn int_list(items: Seq<int>) -> Json {
    Json::List(items.map_values(|n: int| Json::Int(n)))
}

/// The filter value of a comma-separated list.
pub open spec fn list_entry(raw: Seq<char>) -> Json {
    text_list(split(raw, ','))
}

/// Whether every piece of the comma-separated text `raw` is an integer literal.
pub open spec fn kinds_parse(raw: Seq<char>) -> bool {
    forall|i: int|
        0 <= i < split(raw, ',').len() ==> integer_value(#[trigger] split(raw, ',')[i]) is Some
}

/// The integers that the pieces of `raw` write.
pub open spec fn kind_values(raw: Seq<char>) -> Seq<int> {
    split(raw, ',').map_values(|p: Seq<char>| integer_value(p).unwrap())
}

/// Whether a filter can be built from `d`: its `kinds`, if present, parse.
pub open spec fn well_formed(d: Dimensions) -> bool {
    d.kinds matches Some(raw) ==> kinds_parse(raw)
}

/// `m` with the list `raw` under `key`, if `raw` is present.
pub open spec fn with_list(
    m: Map<Seq<char>, Json>,
    key: Seq<char>,
    raw: Option<Seq<char>>,
) -> Map<Seq<char>, Json> {
    match raw {
        Some(r) => m.insert(key, list_entry(r)),
        None => m,
    }
}

/// The key under which the values of a generic tag are filed.
pub open spec fn tag_key(tag: Seq<char>) -> Seq<char> {
    "#"@ + tag
}

/// The entries of the filter that `d` describes.
///
/// Each present dimension contributes one entry, in the order authors, ids,
/// limit, generic tag, hashtag, mentions, references, kinds. A later entry
/// replaces an earlier one with the same key.
pub open spec fn filter_entries(d: Dimensions) -> Map<Seq<char>, Json> {
    let m = no_entries();
    let m = with_list(m, "authors"@, d.authors);
    let m = with_list(m, "ids"@, d.ids);
    let m = match d.limit {
        Some(n) => m.insert("limit"@, Json::Int(n)),
        None => m,
    };
    let m = match d.generic {
        Some((tag, values)) => m.insert(tag_key(tag), list_entry(values)),
        None => m,
    };
    let m = with_list(m, "#t"@, d.hashtag);
    let m = with_list(m, "#p"@, d.mentions);
    let m = with_list(m, "#e"@, d.references);
    match d.kinds {
        Some(raw) => m.insert("kinds"@, int_list(kind_values(raw))),
        None => m,
    }
}

/// The documents that stand for the given strings, in order.
fn text_values(items: &Vec<String>) -> (values: Vec<Value>)
    ensures
        Json::List(jsons_of(values@)) == text_list(texts(items@)),
{
    let mut values: Vec<Value> = Vec::new();
    let mut i: usize = 0;
    while i < items.len()
        invariant
            i <= items.len(),
            values.len() == i,
            forall|j: int| 0 <= j < i ==> json_of(#[trigger] values[j]) == Json::Text(items[j]@),
        decreases items.len() - i,
    {
        values.push(text_value(items[i].clone()));
        i = i + 1;
    }
    assert(jsons_of(values@) =~= texts(items@).map_values(|t: Seq<char>| Json::Text(t)));
    values
}

/// The documents that stand for the given integers, in order.
fn int_values(items: &Vec<i64>) -> (values: Vec<Value>)
    ensures
        Json::List(jsons_of(values@)) == int_list(items@.map_values(|n: i64| n as int)),
{
    let mut values: Vec<Value> = Vec::new();
    let mut i: usize = 0;
    while i < items.len()
        invariant
            i <= items.len(),
            values.len() == i,
            forall|j: int| 0 <= j < i ==> json_of(#[trigger] values[j]) == Json::Int(items[j] as int),
        decreases items.len() - i,
    {
        values.push(int_value(items[i]));
        i = i + 1;
    }
    assert(jsons_of(values@) =~= items@.map_values(|n: i64| n as int).map_values(
        |n: int| Json::Int(n),
    ));
    values
}

/// Files the comma-separated list `raw` under `key`.
fn insert_list(filter: &mut serde_json::Map<String, Value>, key: String, raw: &str)
    ensures
        object_of(*final(filter)) == object_of(*old(filter)).insert(key@, list_entry(raw@)),
{
    let pieces = split_commas(raw);
    let values = text_values(&pieces);
    object_insert(filter, key, list_value(values));
}

/// Reads the comma-separated text `raw` as a list of integers.
///
/// Gives `None` as soon as one piece is not an integer literal.
pub fn parse_kinds(raw: &str) -> (kinds: Option<Vec<i64>>)
    ensures
        kinds is Some <==> kinds_parse(raw@),
        kinds matches Some(ks) ==> ks@.map_values(|n: i64| n as int) == kind_values(raw@),
{
    let pieces = split_commas(raw);
    let mut kinds: Vec<i64> = Vec::new();
    let mut i: usize = 0;
    while i < pieces.len()
        invariant
            i <= pieces.len(),
            texts(pieces@) == split(raw@, ','),
            kinds.len() == i,
            forall|j: int|
                0 <= j < i ==> integer_value(#[trigger] split(raw@, ',')[j]) == Some(
                    kinds[j] as int,
                ),
        decreases pieces.len() - i,
    {
        assert(texts(pieces@)[i as int] == pieces[i as int]@);
        match parse_integer(pieces[i].as_str()) {
            Some(k) => {
                kinds.push(k);
            },
            None => {
                return None;
            },
        }
        i = i + 1;
    }
    assert(texts(pieces@).len() == pieces.len());
    assert(kinds@.map_values(|n: i64| n as int) =~= kind_values(raw@));
    Some(kinds)
}

/// Builds the filter that `dims` describes.
///
/// Fails, without a partial filter, exactly when `kinds` is present and one of
/// its pieces is not an integer literal.
pub fn build_filter(dims: &QueryDimensions) -> (r: Result<
    serde_json::Map<String, Value>,
    QueryError,
>)
    ensures
        well_formed(dims@) ==> r is Ok,
        !well_formed(dims@) ==> r matches Err(QueryError::MalformedKinds),
        r matches Ok(filter) ==> object_of(filter) == filter_entries(dims@),
{
    let mut filter = object_new();
    match &dims.authors {
        Some(authors) => insert_list(&mut filter, String::from_str("authors"), authors.as_str()),
        None => {},
    }
    match &dims.ids {
        Some(ids) => insert_list(&mut filter, String::from_str("ids"), ids.as_str()),
        None => {},
    }
    match dims.limit {
        Some(limit) => object_insert(&mut filter, String::from_str("limit"), int_value(limit as i64)),
        None => {},
    }
    match &dims.generic {
        Some((tag, values)) => {
            let key = String::from_str("#").concat(tag.as_str());
            insert_list(&mut filter, key, values.as_str());
        },
        None => {},
    }
    match &dims.hashtag {
        Some(hashtag) => insert_list(&mut filter, String::from_str("#t"), hashtag.as_str()),
        None => {},
    }
    match &dims.mentions {
        Some(mentions) => insert_list(&mut filter, String::from_str("#p"), mentions.as_str()),
        None => {},
    }
    match &dims.references {
        Some(references) => insert_list(&mut filter, String::from_str("#e"), references.as_str()),
        None => {},
    }
    match &dims.kinds {
        Some(raw) => {
            match parse_kinds(raw.as_str()) {
                Some(kinds) => {
                    let values = int_values(&kinds);
                    object_insert(&mut filter, String::from_str("kinds"), list_value(values));
                },
                None => {
                    return Err(QueryError::MalformedKinds);
                },
            }
        },
        None => {},
    }
    Ok(filter)
}

impl Default for QueryDimensions {
    fn default() -> (dims: QueryDimensions)
        ensures
            dims@ == absent(),
    {
        QueryDimensions::new()
    }
}

impl QueryDimensions {
    /// Dimensions with nothing set.
    pub fn new() -> (dims: QueryDimensions)
        ensures
            dims@ == absent(),
    {
        QueryDimensions {
            authors: None,
            ids: None,
            limit: None,
            generic: None,
            hashtag: None,
            mentions: None,
            references: None,
            kinds: None,
        }
    }

    /// The number of results to collect: one for a lookup by `ids`, whatever
    /// limit was asked for, and the limit asked for otherwise.
    pub fn effective_limit(&self) -> (limit: Option<i32>)
        ensures
            limit == effective_limit_of(self@.ids is Some, self.limit),
    {
        match &self.ids {
            Some(_) => Some(1),
            None => self.limit,
        }
    }
}

/// Dimensions with nothing set.
pub open spec fn absent() -> Dimensions {
    Dimensions {
        authors: None,
        ids: None,
        limit: None,
        generic: None,
        hashtag: None,
        mentions: None,
        references: None,
        kinds: None,
    }
}

/// The limit in force when `requested` was asked for: a lookup by ids expects
/// one direct match.
pub open spec fn effective_limit_of(by_ids: bool, requested: Option<i32>) -> Option<i32> {
    if by_ids {
        Some(1i32)
    } else {
        requested
    }
}

/// The fixed keys of a filter are pairwise different, and none but `#t`, `#p`
/// and `#e` can be the key of a generic tag.
pub proof fn lemma_keys_differ(tag: Seq<char>)
    ensures
        "authors"@ != "ids"@,
        "authors"@ != "limit"@,
        "authors"@ != "kinds"@,
        "ids"@ != "limit"@,
        "ids"@ != "kinds"@,
        "limit"@ != "kinds"@,
        "#t"@ != "#p"@,
        "#t"@ != "#e"@,
        "#p"@ != "#e"@,
        tag_key(tag) != "authors"@,
        tag_key(tag) != "ids"@,
        tag_key(tag) != "limit"@,
        tag_key(tag) != "kinds"@,
        tag_key("t"@) == "#t"@,
        tag_key("p"@) == "#p"@,
        tag_key("e"@) == "#e"@,
        tag_key(tag) == "#t"@ <==> tag == "t"@,
        tag_key(tag) == "#p"@ <==> tag == "p"@,
        tag_key(tag) == "#e"@ <==> tag == "e"@,
{
    reveal_strlit("authors");
    reveal_strlit("ids");
    reveal_strlit("limit");
    reveal_strlit("kinds");
    reveal_strlit("#");
    reveal_strlit("#t");
    reveal_strlit("#p");
    reveal_strlit("#e");
    reveal_strlit("t");
    reveal_strlit("p");
    reveal_strlit("e");
    let key = tag_key(tag);
    assert(key[0] == '#');
    assert("authors"@[0] == 'a' && "ids"@[0] == 'i' && "limit"@[0] == 'l' && "kinds"@[0] == 'k');
    assert("#t"@[1] == 't' && "#p"@[1] == 'p' && "#e"@[1] == 'e');
    assert(tag_key("t"@) =~= "#t"@);
    assert(tag_key("p"@) =~= "#p"@);
    assert(tag_key("e"@) =~= "#e"@);
    assert(key.skip(1) =~= tag);
    assert("#t"@.skip(1) =~= "t"@);
    assert("#p"@.skip(1) =~= "p"@);
    assert("#e"@.skip(1) =~= "e"@);
}

/// With nothing set, the filter has no entries.
pub proof fn lemma_nothing_set()
    ensures
        well_formed(absent()),
        filter_entries(absent()) == no_entries(),
{
}

/// With `authors` alone set, the filter holds the authors' list under
/// `authors` and nothing else.
pub proof fn lemma_authors_alone(d: Dimensions, authors: Seq<char>)
    requires
        d == (Dimensions { authors: Some(authors), ..absent() }),
    ensures
        well_formed(d),
        filter_entries(d) == no_entries().insert("authors"@, text_list(split(authors, ','))),
        filter_entries(d).dom() == set!["authors"@],
{
    assert(filter_entries(d).dom() =~= set!["authors"@]);
}

/// Which keys a filter has: one for each dimension that is present, and no
/// other. An absent dimension leaves no trace.
pub proof fn lemma_filter_keys(d: Dimensions, key: Seq<char>)
    ensures
        filter_entries(d).contains_key(key) <==> {
            ||| d.authors is Some && key == "authors"@
            ||| d.ids is Some && key == "ids"@
            ||| d.limit is Some && key == "limit"@
            ||| d.generic is Some && key == tag_key(d.generic.unwrap().0)
            ||| d.hashtag is Some && key == "#t"@
            ||| d.mentions is Some && key == "#p"@
            ||| d.references is Some && key == "#e"@
            ||| d.kinds is Some && key == "kinds"@
        },
{
}

/// The entries of the dimensions whose key no other dimension can take:
/// authors, ids, limit and kinds.
pub proof fn lemma_plain_entries(d: Dimensions)
    ensures
        d.authors matches Some(raw) ==> filter_entries(d)["authors"@] == list_entry(raw),
        d.ids matches Some(raw) ==> filter_entries(d)["ids"@] == list_entry(raw),
        d.limit matches Some(n) ==> filter_entries(d)["limit"@] == Json::Int(n),
        d.kinds matches Some(raw) ==> filter_entries(d)["kinds"@] == int_list(kind_values(raw)),
{
    lemma_keys_differ("t"@);
    lemma_keys_differ("p"@);
    lemma_keys_differ("e"@);
    if d.generic is Some {
        lemma_keys_differ(d.generic.unwrap().0);
    }
}

/// Hashtag, mentions and references are filed after the generic tag: where
/// one of them is present it holds its slot, whatever the generic tag names.
pub proof fn lemma_reserved_tags_win(d: Dimensions)
    ensures
        d.hashtag matches Some(raw) ==> filter_entries(d)["#t"@] == list_entry(raw),
        d.mentions matches Some(raw) ==> filter_entries(d)["#p"@] == list_entry(raw),
        d.references matches Some(raw) ==> filter_entries(d)["#e"@] == list_entry(raw),
{
    lemma_keys_differ("t"@);
    lemma_keys_differ("p"@);
    lemma_keys_differ("e"@);
}

/// A generic tag holds the key `#<tag>` unless that key is `#t`, `#p` or `#e`
/// and the dimension of that slot is present too.
pub proof fn lemma_generic_entry(d: Dimensions, tag: Seq<char>, values: Seq<char>)
    requires
        d.generic == Some((tag, values)),
        d.hashtag is Some ==> tag != "t"@,
        d.mentions is Some ==> tag != "p"@,
        d.references is Some ==> tag != "e"@,
    ensures
        filter_entries(d)[tag_key(tag)] == list_entry(values),
{
    lemma_keys_differ(tag);
    lemma_keys_differ("t"@);
    lemma_keys_differ("p"@);
    lemma_keys_differ("e"@);
}

} // verus!
