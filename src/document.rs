use vstd::prelude::*;

verus! {

/// One member of a top-level JSON object, reduced to what configuration
/// loading reads: the member's string value, if it is a string, and the
/// elements of its array value, if it is an array (each element kept as its
/// string value, or `None` where the element is not a string).
pub struct Entry {
    pub key: String,
    pub text: Option<String>,
    pub items: Option<Vec<Option<String>>>,
}

/// A parsed JSON document: either an object, given member by member, or any
/// other JSON value.
pub enum Document {
    NotObject,
    Object(Vec<Entry>),
}

pub struct EntryView {
    pub key: Seq<char>,
    pub text: Option<Seq<char>>,
    pub items: Option<Seq<Option<Seq<char>>>>,
}

pub enum DocumentView {
    NotObject,
    Object(Seq<EntryView>),
}

pub open spec fn opt_str_view(o: Option<String>) -> Option<Seq<char>> {
    match o {
        Some(s) => Some(s@),
        None => None,
    }
}

pub open spec fn opt_strs_view(v: Seq<Option<String>>) -> Seq<Option<Seq<char>>> {
    v.map_values(|o: Option<String>| opt_str_view(o))
}

pub open spec fn items_view(items: Option<Vec<Option<String>>>) -> Option<Seq<Option<Seq<char>>>> {
    match items {
        Some(v) => Some(opt_strs_view(v@)),
        None => None,
    }
}

impl View for Entry {
    type V = EntryView;

    open spec fn view(&self) -> EntryView {
        EntryView { key: self.key@, text: opt_str_view(self.text), items: items_view(self.items) }
    }
}

impl View for Document {
    type V = DocumentView;

    open spec fn view(&self) -> DocumentView {
        match self {
            Document::NotObject => DocumentView::NotObject,
            Document::Object(entries) => DocumentView::Object(entries_view(entries@)),
        }
    }
}

pub open spec fn entries_view(v: Seq<Entry>) -> Seq<EntryView> {
    v.map_values(|e: Entry| e@)
}

/// The members of a document; a value that is not an object has none.
pub open spec fn members(d: DocumentView) -> Seq<EntryView> {
    match d {
        DocumentView::NotObject => Seq::empty(),
        DocumentView::Object(entries) => entries,
    }
}

/// The first member named `key`, if any.
pub open spec fn lookup(entries: Seq<EntryView>, key: Seq<char>) -> Option<EntryView>
    decreases entries.len(),
{
    if entries.len() == 0 {
        None
    } else if entries[0].key == key {
        Some(entries[0])
    } else {
        lookup(entries.drop_first(), key)
    }
}

/// No two members share a name, as in any JSON object map.
pub open spec fn keys_distinct(entries: Seq<EntryView>) -> bool {
    forall|i: int, j: int|
        0 <= i < j < entries.len() ==> #[trigger] entries[i].key != #[trigger] entries[j].key
}

/// Where member `i` is named `key` and no earlier one is, the lookup finds it.
pub proof fn lemma_lookup_first(entries: Seq<EntryView>, key: Seq<char>, i: int)
    requires
        0 <= i < entries.len(),
        entries[i].key == key,
        forall|j: int| 0 <= j < i ==> #[trigger] entries[j].key != key,
    ensures
        lookup(entries, key) == Some(entries[i]),
    decreases i,
{
    if i > 0 {
        let rest = entries.drop_first();
        assert forall|j: int| 0 <= j < i - 1 implies #[trigger] rest[j].key != key by {
            assert(rest[j] == entries[j + 1]);
        }
        lemma_lookup_first(rest, key, i - 1);
    }
}

/// In an object with distinct member names, the lookup finds the member of
/// that name.
pub proof fn lemma_lookup_distinct(entries: Seq<EntryView>, key: Seq<char>, i: int)
    requires
        keys_distinct(entries),
        0 <= i < entries.len(),
        entries[i].key == key,
    ensures
        lookup(entries, key) == Some(entries[i]),
{
    assert forall|j: int| 0 <= j < i implies #[trigger] entries[j].key != key by {
        assert(entries[j].key != entries[i].key);
    }
    lemma_lookup_first(entries, key, i);
}

/// Where no member is named `key`, the lookup finds nothing.
pub proof fn lemma_lookup_absent(entries: Seq<EntryView>, key: Seq<char>)
    requires
        forall|j: int| 0 <= j < entries.len() ==> #[trigger] entries[j].key != key,
    ensures
        lookup(entries, key) is None,
    decreases entries.len(),
{
    if entries.len() > 0 {
        let rest = entries.drop_first();
        assert forall|j: int| 0 <= j < rest.len() implies #[trigger] rest[j].key != key by {
            assert(rest[j] == entries[j + 1]);
        }
        lemma_lookup_absent(rest, key);
    }
}

/// Index of the first entry named `key`, if any.
pub fn find_entry(entries: &Vec<Entry>, key: &String) -> (r: Option<usize>)
    ensures
        match r {
            Some(i) => i < entries@.len() && lookup(entries_view(entries@), key@)
                == Some(entries@[i as int]@),
            None => lookup(entries_view(entries@), key@) is None,
        },
{
    let ghost all = entries_view(entries@);
    let mut i: usize = 0;
    assert(all.subrange(0, all.len() as int) =~= all);
    while i < entries.len()
        invariant
            i <= entries@.len(),
            all == entries_view(entries@),
            lookup(all, key@) == lookup(all.subrange(i as int, all.len() as int), key@),
        decreases entries.len() - i,
    {
        let ghost rest = all.subrange(i as int, all.len() as int);
        assert(rest[0] == entries@[i as int]@);
        if entries[i].key == *key {
            return Some(i);
        }
        assert(rest.drop_first() =~= all.subrange(i + 1, all.len() as int));
        i = i + 1;
    }
    None
}

/// The JSON document that `serde_json` reads from `text`, or `None` where the
/// text is not accepted as JSON.
pub uninterp spec fn parsed_json(text: Seq<char>) -> Option<DocumentView>;

/// serde_json's parse error, carried through opaque.
#[verifier::external_type_specification]
#[verifier::external_body]
pub struct ExJsonError(serde_json::Error);

/// Relies on serde_json::from_str (into a serde_json::Value): it either fails
/// or yields one value determined by the text. An object's members are
/// handed over with `as_str` and `as_array` applied to each of them.
#[verifier::external_body]
pub(crate) fn parse_document(text: &str) -> (r: Result<Document, serde_json::Error>)
    ensures
        match r {
            Ok(d) => parsed_json(text@) == Some(d@),
            Err(_) => parsed_json(text@) is None,
        },
{
    match serde_json::from_str(text)? {
        serde_json::Value::Object(m) => Ok(Document::Object(m.into_iter().map(|(key, v)| Entry {
            text: v.as_str().map(String::from),
            items: v.as_array().map(|a| a.iter().map(|i| i.as_str().map(String::from)).collect()),
            key,
        }).collect())),
        _ => Ok(Document::NotObject),
    }
}

} // verus!
