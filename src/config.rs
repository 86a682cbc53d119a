use vstd::prelude::*;
use crate::document::{
    Document, DocumentView, Entry, EntryView, entries_view, find_entry, keys_distinct, lemma_lookup_absent,
    lemma_lookup_distinct, lookup, members, opt_str_view, opt_strs_view, parse_document, parsed_json,
};

verus! {

/// The three members that a configuration file must hold.
#[derive(Debug, Clone, Copy, PartialEq, Eq, Structural)]
pub enum FieldName {
    MeetingApps,
    NotificationTitle,
    NotificationMessage,
}

/// Why a configuration could not be loaded.
#[derive(Debug, Clone, Copy, PartialEq, Eq, Structural)]
pub enum ConfigError {
    /// The file could not be read.
    Unreadable,
    /// The file's text is not JSON.
    InvalidJson,
    /// A required member is absent.
    MissingField(FieldName),
    /// A required member holds a value of the wrong type.
    WrongType(FieldName),
}

/// The settings of the monitor, fixed for the whole run.
#[derive(Debug, Clone)]
pub struct Config {
    pub meeting_apps: Vec<String>,
    pub notification_title: String,
    pub notification_message: String,
}

pub struct ConfigView {
    pub meeting_apps: Seq<Seq<char>>,
    pub notification_title: Seq<char>,
    pub notification_message: Seq<char>,
}

impl View for Config {
    type V = ConfigView;

    open spec fn view(&self) -> ConfigView {
        ConfigView {
            meeting_apps: strings_view(self.meeting_apps@),
            notification_title: self.notification_title@,
            notification_message: self.notification_message@,
        }
    }
}

pub open spec fn strings_view(v: Seq<String>) -> Seq<Seq<char>> {
    v.map_values(|s: String| s@)
}

pub open spec fn result_view(r: Result<Config, ConfigError>) -> Result<ConfigView, ConfigError> {
    match r {
        Ok(c) => Ok(c@),
        Err(e) => Err(e),
    }
}

/// The JSON member name of each required field.
pub open spec fn key_of(f: FieldName) -> Seq<char> {
    match f {
        FieldName::MeetingApps => "meetingApps"@,
        FieldName::NotificationTitle => "notificationTitle"@,
        FieldName::NotificationMessage => "notificationMessage"@,
    }
}

pub open spec fn unwrap_all(items: Seq<Option<Seq<char>>>) -> Seq<Seq<char>> {
    items.map_values(|o: Option<Seq<char>>| o->0)
}

/// The elements of an array, where every one of them is a string.
pub open spec fn all_strings(items: Seq<Option<Seq<char>>>) -> Option<Seq<Seq<char>>> {
    if forall|i: int| 0 <= i < items.len() ==> #[trigger] items[i] is Some {
        Some(unwrap_all(items))
    } else {
        None
    }
}

/// The list of application names held by member `e`.
pub open spec fn app_list_of(e: Option<EntryView>) -> Result<Seq<Seq<char>>, ConfigError> {
    match e {
        None => Err(ConfigError::MissingField(FieldName::MeetingApps)),
        Some(e) => match e.items {
            Some(items) => match all_strings(items) {
                Some(apps) => Ok(apps),
                None => Err(ConfigError::WrongType(FieldName::MeetingApps)),
            },
            None => Err(ConfigError::WrongType(FieldName::MeetingApps)),
        },
    }
}

/// The string held by member `e`, the required field `f`.
pub open spec fn text_of(e: Option<EntryView>, f: FieldName) -> Result<Seq<char>, ConfigError> {
    match e {
        None => Err(ConfigError::MissingField(f)),
        Some(e) => match e.text {
            Some(t) => Ok(t),
            None => Err(ConfigError::WrongType(f)),
        },
    }
}

/// The configuration that a JSON document describes; the first field in the
/// order list, title, message that is absent or mistyped gives the error.
pub open spec fn config_of(d: DocumentView) -> Result<ConfigView, ConfigError> {
    let m = members(d);
    let apps = app_list_of(lookup(m, key_of(FieldName::MeetingApps)));
    let title = text_of(lookup(m, key_of(FieldName::NotificationTitle)), FieldName::NotificationTitle);
    let message = text_of(
        lookup(m, key_of(FieldName::NotificationMessage)),
        FieldName::NotificationMessage,
    );
    match apps {
        Err(e) => Err(e),
        Ok(a) => match title {
            Err(e) => Err(e),
            Ok(t) => match message {
                Err(e) => Err(e),
                Ok(msg) => Ok(
                    ConfigView { meeting_apps: a, notification_title: t, notification_message: msg },
                ),
            },
        },
    }
}

/// The configuration that the text of a configuration file describes.
pub open spec fn config_of_text(text: Seq<char>) -> Result<ConfigView, ConfigError> {
    match parsed_json(text) {
        None => Err(ConfigError::InvalidJson),
        Some(d) => config_of(d),
    }
}

fn key_string(f: FieldName) -> (r: String)
    ensures
        r@ == key_of(f),
{
    match f {
        FieldName::MeetingApps => "meetingApps".to_owned(),
        FieldName::NotificationTitle => "notificationTitle".to_owned(),
        FieldName::NotificationMessage => "notificationMessage".to_owned(),
    }
}

fn app_list(entries: &Vec<Entry>) -> (r: Result<Vec<String>, ConfigError>)
    ensures
        match r {
            Ok(v) => app_list_of(lookup(entries_view(entries@), key_of(FieldName::MeetingApps)))
                == Ok::<Seq<Seq<char>>, ConfigError>(strings_view(v@)),
            Err(e) => app_list_of(lookup(entries_view(entries@), key_of(FieldName::MeetingApps)))
                == Err::<Seq<Seq<char>>, ConfigError>(e),
        },
{
    let key = key_string(FieldName::MeetingApps);
    let idx = match find_entry(entries, &key) {
        None => return Err(ConfigError::MissingField(FieldName::MeetingApps)),
        Some(i) => i,
    };
    let items = match &entries[idx].items {
        None => return Err(ConfigError::WrongType(FieldName::MeetingApps)),
        Some(items) => items,
    };
    let ghost iv = opt_strs_view(items@);
    assert(entries@[idx as int]@.items == Some(iv));
    let mut out: Vec<String> = Vec::new();
    let mut j: usize = 0;
    while j < items.len()
        invariant
            j <= items@.len(),
            idx < entries@.len(),
            lookup(entries_view(entries@), key_of(FieldName::MeetingApps)) == Some(entries@[idx as int]@),
            entries@[idx as int]@.items == Some(iv),
            iv == opt_strs_view(items@),
            forall|k: int| 0 <= k < j ==> #[trigger] iv[k] is Some,
            strings_view(out@) =~= unwrap_all(iv.subrange(0, j as int)),
        decreases items.len() - j,
    {
        assert(iv[j as int] == opt_str_view(items@[j as int]));
        match &items[j] {
            None => {
                assert(iv[j as int] is None);
                assert(all_strings(iv) is None);
                return Err(ConfigError::WrongType(FieldName::MeetingApps));
            },
            Some(s) => {
                let t = s.clone();
                assert(iv[j as int] == Some(t@));
                let ghost prev = out@;
                out.push(t);
                assert(out@ == prev.push(t));
                assert(strings_view(out@) =~= unwrap_all(iv.subrange(0, j as int)).push(t@));
                assert(unwrap_all(iv.subrange(0, j + 1)) =~= unwrap_all(iv.subrange(0, j as int)).push(t@));
            },
        }
        j = j + 1;
    }
    assert(iv.subrange(0, iv.len() as int) =~= iv);
    Ok(out)
}

fn text_field(entries: &Vec<Entry>, f: FieldName) -> (r: Result<String, ConfigError>)
    ensures
        match r {
            Ok(t) => text_of(lookup(entries_view(entries@), key_of(f)), f)
                == Ok::<Seq<char>, ConfigError>(t@),
            Err(e) => text_of(lookup(entries_view(entries@), key_of(f)), f)
                == Err::<Seq<char>, ConfigError>(e),
        },
{
    let key = key_string(f);
    match find_entry(entries, &key) {
        None => Err(ConfigError::MissingField(f)),
        Some(i) => match &entries[i].text {
            None => Err(ConfigError::WrongType(f)),
            Some(t) => Ok(t.clone()),
        },
    }
}

/// Builds the configuration that a parsed JSON document describes.
pub fn config_from_document(doc: &Document) -> (r: Result<Config, ConfigError>)
    ensures
        result_view(r) == config_of(doc@),
{
    let empty: Vec<Entry> = Vec::new();
    let entries = match doc {
        Document::NotObject => &empty,
        Document::Object(entries) => entries,
    };
    assert(entries_view(entries@) =~= members(doc@));
    let meeting_apps = app_list(entries)?;
    let notification_title = text_field(entries, FieldName::NotificationTitle)?;
    let notification_message = text_field(entries, FieldName::NotificationMessage)?;
    Ok(Config { meeting_apps, notification_title, notification_message })
}

/// Loads the configuration from the content of the configuration file, or
/// `None` where the file could not be read.
pub fn load_config(content: Option<&str>) -> (r: Result<Config, ConfigError>)
    ensures
        match content {
            None => r == Err::<Config, ConfigError>(ConfigError::Unreadable),
            Some(text) => result_view(r) == config_of_text(text@),
        },
{
    match content {
        None => Err(ConfigError::Unreadable),
        Some(text) => match parse_document(text) {
            Err(_) => Err(ConfigError::InvalidJson),
            Ok(doc) => config_from_document(&doc),
        },
    }
}

/// An array holding the strings `apps`, in order.
pub open spec fn string_items(apps: Seq<Seq<char>>) -> Seq<Option<Seq<char>>> {
    apps.map_values(|a: Seq<char>| Some(a))
}

/// Loading an object that holds the application list, the title and the
/// message gives back exactly that list, title and message.
pub proof fn lemma_config_round_trip(
    entries: Seq<EntryView>,
    apps: Seq<Seq<char>>,
    title: Seq<char>,
    message: Seq<char>,
    i: int,
    j: int,
    k: int,
)
    requires
        keys_distinct(entries),
        0 <= i < entries.len(),
        0 <= j < entries.len(),
        0 <= k < entries.len(),
        entries[i].key == key_of(FieldName::MeetingApps),
        entries[i].items == Some(string_items(apps)),
        entries[j].key == key_of(FieldName::NotificationTitle),
        entries[j].text == Some(title),
        entries[k].key == key_of(FieldName::NotificationMessage),
        entries[k].text == Some(message),
    ensures
        config_of(DocumentView::Object(entries)) == Ok::<ConfigView, ConfigError>(
            ConfigView { meeting_apps: apps, notification_title: title, notification_message: message },
        ),
{
    lemma_lookup_distinct(entries, key_of(FieldName::MeetingApps), i);
    lemma_lookup_distinct(entries, key_of(FieldName::NotificationTitle), j);
    lemma_lookup_distinct(entries, key_of(FieldName::NotificationMessage), k);
    let items = string_items(apps);
    assert(forall|x: int| 0 <= x < items.len() ==> #[trigger] items[x] is Some);
    assert(unwrap_all(items) =~= apps);
}

/// A document that lacks one of the required members is rejected: no
/// configuration, partial or whole, comes out of it.
pub proof fn lemma_missing_field_rejected(d: DocumentView, f: FieldName)
    requires
        forall|x: int| 0 <= x < members(d).len() ==> #[trigger] members(d)[x].key != key_of(f),
    ensures
        config_of(d) is Err,
{
    lemma_lookup_absent(members(d), key_of(f));
}

} // verus!
