//! Which host builds: the command line's choice first, then the project's
//! configuration file, then the user's. A file that is missing, is not a
//! TOML document, or might nest deeper than is read is passed over; a file
//! counts only where it holds a non-empty string under `remote`.

use crate::error::FatalError;
use vstd::prelude::*;

verus! {

/// The most marks of nesting that a configuration text may hold and still
/// be read.
pub const NESTING_LIMIT: usize = 128;

/// Whether a character can open a level of nesting in a TOML text: `[` an
/// array or a table's name, `{` a table in a line, `.` the next part of a
/// key.
pub open spec fn opens_level(c: char) -> bool {
    c == '[' || c == '{' || c == '.'
}

/// The number of characters of a text that can open a level of nesting.
/// No TOML text nests deeper than this.
pub open spec fn nesting_marks(text: Seq<char>) -> nat
    decreases text.len(),
{
    if text.len() == 0 {
        0
    } else {
        nesting_marks(text.drop_last()) + if opens_level(text.last()) {
            1nat
        } else {
            0nat
        }
    }
}

/// Whether a text holds few enough marks of nesting to be read.
pub open spec fn is_shallow(text: Seq<char>) -> bool {
    nesting_marks(text) <= NESTING_LIMIT
}

/// A value of a TOML document, as the `toml` crate holds it. Nothing inside
/// it is visible here; [`string_entries`] names what is read from it.
#[verifier::external_type_specification]
#[verifier::external_body]
pub struct ExTomlValue(toml::Value);

/// The `toml` crate's report on a text that is not a TOML document.
#[verifier::external_type_specification]
#[verifier::external_body]
pub struct ExTomlError(toml::de::Error);

/// The entries of a table whose values are strings, each under its key.
/// A value that is no table has none.
pub uninterp spec fn string_entries(value: toml::Value) -> Map<Seq<char>, Seq<char>>;

/// What the `toml` crate reads from a text: nothing where the text is not
/// a TOML document, else the string entries of the document's top table.
pub uninterp spec fn document_entries(text: Seq<char>) -> Option<Map<Seq<char>, Seq<char>>>;

/// Reads a text as a TOML document with `toml::Value`'s `from_str`, which
/// `str::parse` calls. The parser calls itself once for each level of
/// nesting and bounds that depth by nothing, so only a text that
/// [`is_shallow`] is handed to it. Not proved: that the outcome is a
/// function of the text alone, an error exactly where [`document_entries`]
/// is `None` and otherwise a value with the string entries that it names.
#[verifier::external_body]
fn parse_document(text: &str) -> (parsed: Result<toml::Value, toml::de::Error>)
    requires
        is_shallow(text@),
    ensures
        match parsed {
            Ok(value) => document_entries(text@) == Some(string_entries(value)),
            Err(_) => document_entries(text@) is None,
        },
{
    text.parse::<toml::Value>()
}

/// Looks a key up with `toml::Value::get` and keeps the entry where it is
/// a `toml::Value::String`. Not proved: that a string comes back exactly
/// where [`string_entries`] has the key, and that it is the one found
/// there.
#[verifier::external_body]
fn string_entry(value: &toml::Value, key: &str) -> (found: Option<String>)
    ensures
        match found {
            Some(text) => string_entries(*value).contains_key(key@) && string_entries(
                *value,
            )[key@] == text@,
            None => !string_entries(*value).contains_key(key@),
        },
{
    match value.get(key) {
        Some(toml::Value::String(text)) => Some(text.clone()),
        _ => None,
    }
}

/// Writes out a `toml::de::Error` through its `Display` impl. Nothing is
/// claimed of the wording.
#[verifier::external_body]
fn describe(error: &toml::de::Error) -> (wording: String) {
    error.to_string()
}

/// Why a configuration text offers nothing.
#[derive(Debug, PartialEq, Eq)]
pub enum Unreadable {
    /// The text holds more marks of nesting than are read.
    TooNested,
    /// The text is not a TOML document. The parser's account of what is
    /// wrong comes with it.
    Malformed(String),
}

impl Unreadable {
    /// What is wrong, in words.
    pub fn reason(&self) -> (words: String)
        ensures
            match self {
                Unreadable::TooNested => words@ == "nested too deeply"@,
                Unreadable::Malformed(account) => words@ == account@,
            },
    {
        match self {
            Unreadable::TooNested => String::from_str("nested too deeply"),
            Unreadable::Malformed(account) => account.clone(),
        }
    }
}

/// Where the project's own configuration file lies.
pub open spec fn project_config_of(project_dir: Seq<char>) -> Seq<char> {
    project_dir + "/.cargo-remote.toml"@
}

/// What a document holds under `remote`, where that is a string.
pub open spec fn remote_in(entries: Map<Seq<char>, Seq<char>>) -> Option<Seq<char>> {
    if entries.contains_key("remote"@) {
        Some(entries["remote"@])
    } else {
        None
    }
}

/// What a configuration source offers as host: the string under `remote`
/// of a source that is there, is shallow enough to be read, and is a TOML
/// document.
pub open spec fn offer_of(source: Option<Seq<char>>) -> Option<Seq<char>> {
    match source {
        Some(text) => if is_shallow(text) {
            match document_entries(text) {
                Some(entries) => remote_in(entries),
                None => None,
            }
        } else {
            None
        },
        None => None,
    }
}

/// The offers of a list of sources, in order.
pub open spec fn offers_of(sources: Seq<Option<Seq<char>>>) -> Seq<Option<Seq<char>>> {
    Seq::new(sources.len(), |i: int| offer_of(sources[i]))
}

/// Whether an offer is there and is not empty.
pub open spec fn usable(offer: Option<Seq<char>>) -> bool {
    offer matches Some(host) && host.len() > 0
}

/// The first offer that is there and is not empty.
pub open spec fn first_usable(offers: Seq<Option<Seq<char>>>) -> Option<Seq<char>>
    decreases offers.len(),
{
    if offers.len() == 0 {
        None
    } else {
        if usable(offers[0]) {
            offers[0]
        } else {
            first_usable(offers.skip(1))
        }
    }
}

/// The host to build on: the command line's where it names one, whatever
/// the files say; else the first usable offer of the files.
pub open spec fn chosen(cli: Option<Seq<char>>, offers: Seq<Option<Seq<char>>>) -> Option<
    Seq<char>,
> {
    match cli {
        Some(host) => Some(host),
        None => first_usable(offers),
    }
}

/// The beginning of a text holds no more marks of nesting than the whole.
pub proof fn lemma_marks_grow(text: Seq<char>, count: int)
    requires
        0 <= count <= text.len(),
    ensures
        nesting_marks(text.take(count)) <= nesting_marks(text),
    decreases text.len(),
{
    if count < text.len() {
        assert(text.drop_last().take(count) =~= text.take(count));
        lemma_marks_grow(text.drop_last(), count);
    } else {
        assert(text.take(count) =~= text);
    }
}

/// The first match wins: the first usable offer is the usable offer with
/// no usable offer before it, and there is none only where no offer is
/// usable.
pub proof fn lemma_first_usable(offers: Seq<Option<Seq<char>>>)
    ensures
        match first_usable(offers) {
            Some(host) => exists|i: int|
                {
                    &&& 0 <= i < offers.len()
                    &&& #[trigger] offers[i] == Some(host)
                    &&& usable(offers[i])
                    &&& forall|j: int| 0 <= j < i ==> !usable(#[trigger] offers[j])
                },
            None => forall|i: int| 0 <= i < offers.len() ==> !usable(#[trigger] offers[i]),
        },
    decreases offers.len(),
{
    if offers.len() > 0 {
        if usable(offers[0]) {
            assert(offers[0] == Some(first_usable(offers)->0));
        } else {
            let rest = offers.skip(1);
            lemma_first_usable(rest);
            match first_usable(rest) {
                Some(host) => {
                    let i = choose|i: int|
                        {
                            &&& 0 <= i < rest.len()
                            &&& #[trigger] rest[i] == Some(host)
                            &&& usable(rest[i])
                            &&& forall|j: int| 0 <= j < i ==> !usable(#[trigger] rest[j])
                        };
                    assert(offers[i + 1] == rest[i]);
                    assert forall|j: int| 0 <= j < i + 1 implies !usable(
                        #[trigger] offers[j],
                    ) by {
                        if j > 0 {
                            assert(offers[j] == rest[j - 1]);
                        }
                    }
                },
                None => {
                    assert forall|i: int| 0 <= i < offers.len() implies !usable(
                        #[trigger] offers[i],
                    ) by {
                        if i > 0 {
                            assert(offers[i] == rest[i - 1]);
                        }
                    }
                },
            }
        }
    }
}

/// Tells whether a text holds few enough marks of nesting to be read.
pub fn shallow_enough(text: &str) -> (yes: bool)
    ensures
        yes == is_shallow(text@),
{
    let mut count: usize = 0;
    for c in it: text.chars()
        invariant
            count == nesting_marks(text@.take(it.index() as int)),
            count <= NESTING_LIMIT,
            it.seq() == text@,
    {
        assert(text@.take(it.index() + 1).drop_last() =~= text@.take(it.index() as int));
        if c == '[' || c == '{' || c == '.' {
            if count == NESTING_LIMIT {
                proof {
                    lemma_marks_grow(text@, it.index() + 1);
                }
                return false;
            }
            count += 1;
        }
    }
    assert(text@.take(text@.len() as int) =~= text@);
    true
}

/// The path of the configuration file of the project at `project_dir`.
pub fn project_config_path(project_dir: &str) -> (path: String)
    ensures
        path@ == project_config_of(project_dir@),
{
    let mut path = String::from_str(project_dir);
    path.append("/.cargo-remote.toml");
    path
}

/// Reads the `remote` entry of a configuration text. A text with too many
/// marks of nesting is refused unread, and one that is not a TOML document
/// is reported as the parser reports it; a document without a string under
/// `remote` gives `None`.
pub fn read_remote(text: &str) -> (read: Result<Option<String>, Unreadable>)
    ensures
        match read {
            Ok(found) => {
                &&& is_shallow(text@)
                &&& document_entries(text@) is Some
                &&& found.deep_view() == offer_of(Some(text@))
            },
            Err(Unreadable::TooNested) => !is_shallow(text@),
            Err(Unreadable::Malformed(_)) => is_shallow(text@) && document_entries(text@) is None,
        },
{
    if !shallow_enough(text) {
        return Err(Unreadable::TooNested);
    }
    match parse_document(text) {
        Ok(value) => Ok(string_entry(&value, "remote")),
        Err(error) => Err(Unreadable::Malformed(describe(&error))),
    }
}

/// Finds the first offer that is there and is not empty.
fn find_first_usable(offers: &Vec<Option<String>>) -> (first: Option<String>)
    ensures
        first.deep_view() == first_usable(offers.deep_view()),
{
    let ghost all = offers.deep_view();
    let mut i: usize = 0;
    assert(all.skip(0) =~= all);
    while i < offers.len()
        invariant
            i <= offers.len(),
            all == offers.deep_view(),
            first_usable(all) == first_usable(all.skip(i as int)),
        decreases offers.len() - i,
    {
        let ghost rest = all.skip(i as int);
        assert(rest[0] == offers[i as int].deep_view());
        assert(rest.skip(1) =~= all.skip(i + 1));
        match &offers[i] {
            Some(host) => {
                if host.as_str().unicode_len() > 0 {
                    return Some(host.clone());
                }
            },
            None => {},
        }
        i += 1;
    }
    None
}

/// Chooses the host from the command line's value and from what each
/// configuration source holds under `remote`, the sources in order of
/// precedence. Fails with [`FatalError::NoRemote`] exactly where the
/// command line names none and no source holds a non-empty one.
pub fn pick_remote(cli: Option<String>, offers: &Vec<Option<String>>) -> (picked: Result<
    String,
    FatalError,
>)
    ensures
        match chosen(cli.deep_view(), offers.deep_view()) {
            Some(host) => picked matches Ok(text) && text@ == host,
            None => picked == Err::<String, FatalError>(FatalError::NoRemote),
        },
        cli matches Some(host) ==> picked matches Ok(text) && text@ == host@,
{
    match cli {
        Some(host) => Ok(host),
        None => match find_first_usable(offers) {
            Some(host) => Ok(host),
            None => Err(FatalError::NoRemote),
        },
    }
}

/// Resolves the host from the command line's value and the texts of the
/// configuration files, in order of precedence; `None` stands for a file
/// that could not be read. A value on the command line is taken as it is
/// and no file is looked at.
pub fn resolve_remote(cli: Option<String>, sources: &Vec<Option<String>>) -> (resolved: Result<
    String,
    FatalError,
>)
    ensures
        match chosen(cli.deep_view(), offers_of(sources.deep_view())) {
            Some(host) => resolved matches Ok(text) && text@ == host,
            None => resolved == Err::<String, FatalError>(FatalError::NoRemote),
        },
        cli matches Some(host) ==> resolved matches Ok(text) && text@ == host@,
{
    if let Some(host) = cli {
        return Ok(host);
    }
    let mut offers: Vec<Option<String>> = Vec::new();
    let mut i: usize = 0;
    while i < sources.len()
        invariant
            i <= sources.len(),
            offers.len() == i,
            forall|k: int| 0 <= k < i ==> offers[k].deep_view() == offer_of(sources[k].deep_view()),
        decreases sources.len() - i,
    {
        let offer = match &sources[i] {
            Some(text) => match read_remote(text.as_str()) {
                Ok(found) => found,
                Err(_) => None,
            },
            None => None,
        };
        offers.push(offer);
        i += 1;
    }
    assert(offers.deep_view() =~= offers_of(sources.deep_view()));
    pick_remote(None, &offers)
}

} // verus!
