use vstd::prelude::*;

use crate::status::{status_text, HttpStatus};
use crate::text::seq_join;

verus! {

/// Errors of the Artifactory client.
///
/// The failures that come from outside this library (the HTTP client, the
/// file system, the package tooling) are carried as the text their own
/// `Display` renders, so that every variant is a plain value.
#[derive(Debug)]
pub enum ArtifactoryError {
    /// The HTTP request could not be sent or its body could not be read.
    HttpClient(String),
    /// Artifactory answered with a status that the operation does not accept,
    /// with the details of the response.
    ApiError(HttpStatus, ResponseDetails),
    /// The underlying HTTP client could not be built.
    BuilderCore(String),
    /// Reading or writing a local file failed.
    IO(String),
    /// The downloaded file is not a valid package archive.
    HabitatCore(String),
    /// A configuration value was rejected before any network call was made.
    InvalidConfig(String),
}

/// Whether no name occurs twice among `entries`.
pub open spec fn names_distinct(entries: Seq<(Seq<char>, Seq<char>)>) -> bool {
    forall|i: int, j: int| 0 <= i < j < entries.len() ==> entries[i].0 != entries[j].0
}

/// Whether entry `i` of `entries` has the name `name`.
pub open spec fn has_name_at(entries: Seq<(Seq<char>, Seq<char>)>, name: Seq<char>, i: int) -> bool {
    0 <= i < entries.len() && entries[i].0 == name
}

/// The details of an error response: a map from names to values, each name
/// at most once, kept in the order in which the names were first inserted.
#[derive(Debug)]
pub struct ResponseDetails {
    entries: Vec<(String, String)>,
}

impl View for ResponseDetails {
    type V = Seq<(Seq<char>, Seq<char>)>;

    closed spec fn view(&self) -> Seq<(Seq<char>, Seq<char>)> {
        self.entries@.map_values(|e: (String, String)| (e.0@, e.1@))
    }
}

impl ResponseDetails {
    #[verifier::type_invariant]
    spec fn names_unique(self) -> bool {
        names_distinct(self@)
    }

    /// No details.
    pub fn new() -> (details: ResponseDetails)
        ensures
            details@ == Seq::<(Seq<char>, Seq<char>)>::empty(),
    {
        let details = ResponseDetails { entries: Vec::new() };
        assert(details@ =~= Seq::<(Seq<char>, Seq<char>)>::empty());
        details
    }

    /// The number of names.
    pub fn len(&self) -> (n: usize)
        ensures
            n == self@.len(),
    {
        self.entries.len()
    }

    /// Sets `name` to `value`, as `HashMap::insert` does: a name already
    /// present keeps its place and gets the new value, and its previous value
    /// is handed back; a new name is added at the end.
    pub fn insert(&mut self, name: String, value: String) -> (previous: Option<String>)
        ensures
            names_distinct(final(self)@),
            forall|i: int|
                #[trigger] has_name_at(old(self)@, name@, i) ==> final(self)@ == old(self)@.update(
                    i,
                    (name@, value@),
                ) && (previous matches Some(p) && p@ == old(self)@[i].1),
            (forall|i: int| !has_name_at(old(self)@, name@, i)) ==> final(self)@ == old(self)@.push(
                (name@, value@),
            ) && previous is None,
    {
        proof {
            use_type_invariant(&*self);
        }
        let ghost before = self@;
        let mut entries: Vec<(String, String)> = Vec::new();
        std::mem::swap(&mut entries, &mut self.entries);
        assert(entries@.map_values(|e: (String, String)| (e.0@, e.1@)) == before);
        let mut i: usize = 0;
        while i < entries.len()
            invariant
                i <= entries.len(),
                entries@.map_values(|e: (String, String)| (e.0@, e.1@)) == before,
                names_distinct(before),
                before == old(self)@,
                forall|j: int| 0 <= j < i ==> before[j].0 != name@,
            decreases entries.len() - i,
        {
            assert(before[i as int] == (entries@[i as int].0@, entries@[i as int].1@));
            if entries[i].0 == name {
                let previous = entries[i].1.clone();
                assert(has_name_at(before, name@, i as int));
                assert(previous@ == before[i as int].1);
                let ghost name_view = name@;
                let ghost value_view = value@;
                entries.set(i, (name, value));
                let ghost after = entries@.map_values(|e: (String, String)| (e.0@, e.1@));
                assert(after =~= before.update(i as int, (name_view, value_view)));
                assert forall|k: int| #[trigger] has_name_at(before, name_view, k) implies k
                    == i by {
                    if k != i {
                        if k < i {
                            assert(before[k].0 != before[i as int].0);
                        } else {
                            assert(before[i as int].0 != before[k].0);
                        }
                    }
                }
                assert(names_distinct(after)) by {
                    assert forall|a: int, b: int| 0 <= a < b < after.len() implies after[a].0
                        != after[b].0 by {
                        if a != i && b != i {
                            assert(after[a] == before[a] && after[b] == before[b]);
                        }
                    }
                }
                self.entries = entries;
                assert(self@ == after);
                return Some(previous);
            }
            i = i + 1;
        }
        let ghost name_view = name@;
        let ghost value_view = value@;
        entries.push((name, value));
        let ghost after = entries@.map_values(|e: (String, String)| (e.0@, e.1@));
        assert(after =~= before.push((name_view, value_view)));
        assert forall|k: int| !#[trigger] has_name_at(before, name_view, k) by {}
        assert(names_distinct(after)) by {
            assert forall|a: int, b: int| 0 <= a < b < after.len() implies after[a].0
                != after[b].0 by {
                if b < before.len() {
                    assert(after[a] == before[a] && after[b] == before[b]);
                } else {
                    assert(after[a] == before[a]);
                }
            }
        }
        self.entries = entries;
        assert(self@ == after);
        None
    }
}

/// Result type of the Artifactory client.
pub type ArtifactoryResult<T> = Result<T, ArtifactoryError>;

/// What `{:?}` writes for a string: the text in double quotes, with the
/// characters that `str::escape_debug` escapes escaped.
pub uninterp spec fn debug_text(s: Seq<char>) -> Seq<char>;

/// Renders `s` as `<str as Debug>::fmt` does (`format!("{:?}", s)`).
/// What the escaping does to each character is left unsaid: the result is
/// named `debug_text`.
#[verifier::external_body]
fn debug_quoted(s: &str) -> (res: String)
    ensures
        res@ == debug_text(s@),
{
    format!("{:?}", s)
}

/// One response entry as a map's `Debug` writes it: `"name": "value"`.
pub open spec fn entry_text(entry: (Seq<char>, Seq<char>)) -> Seq<char> {
    debug_text(entry.0) + ": "@ + debug_text(entry.1)
}

/// The response entries as a map's `Debug` writes them: `{}` when there are
/// none, else `{"a": "1", "b": "2"}`.
pub open spec fn entries_text(entries: Seq<(Seq<char>, Seq<char>)>) -> Seq<char> {
    "{"@ + seq_join(entries.map_values(|e: (Seq<char>, Seq<char>)| entry_text(e)), ", "@) + "}"@
}

/// The fixed start of the message of an `ApiError`.
pub open spec fn api_error_prefix() -> Seq<char> {
    "Received a non-200 response, status="@
}

/// The fixed start of the message of an `InvalidConfig`.
pub open spec fn invalid_config_prefix() -> Seq<char> {
    "Invalid configuration: "@
}

impl ArtifactoryError {
    /// The message that this error renders.
    pub open spec fn spec_message(&self) -> Seq<char> {
        match self {
            ArtifactoryError::HttpClient(m) => m@,
            ArtifactoryError::ApiError(status, response) => api_error_prefix() + status_text(status@)
                + ", response="@ + entries_text(response@),
            ArtifactoryError::BuilderCore(m) => m@,
            ArtifactoryError::IO(m) => m@,
            ArtifactoryError::HabitatCore(m) => m@,
            ArtifactoryError::InvalidConfig(m) => invalid_config_prefix() + m@,
        }
    }

    /// The human-readable message of this error (what the error displays).
    pub fn message(&self) -> (res: String)
        ensures
            res@ == self.spec_message(),
    {
        match self {
            ArtifactoryError::HttpClient(m) => m.clone(),
            ArtifactoryError::ApiError(status, response) => {
                let mut res = String::from_str("Received a non-200 response, status=");
                res.append(status.text().as_str());
                res.append(", response=");
                res.append(render_entries(response).as_str());
                res
            },
            ArtifactoryError::BuilderCore(m) => m.clone(),
            ArtifactoryError::IO(m) => m.clone(),
            ArtifactoryError::HabitatCore(m) => m.clone(),
            ArtifactoryError::InvalidConfig(m) => {
                let mut res = String::from_str("Invalid configuration: ");
                res.append(m.as_str());
                res
            },
        }
    }
}

/// Renders response details as a map's `Debug` renders them.
fn render_entries(details: &ResponseDetails) -> (res: String)
    ensures
        res@ == entries_text(details@),
{
    let entries = &details.entries;
    let ghost texts = details@.map_values(|e: (Seq<char>, Seq<char>)| entry_text(e));
    let mut body = String::new();
    let mut i: usize = 0;
    while i < entries.len()
        invariant
            i <= entries.len(),
            texts == details@.map_values(|e: (Seq<char>, Seq<char>)| entry_text(e)),
            details@ == entries@.map_values(|e: (String, String)| (e.0@, e.1@)),
            body@ == seq_join(texts.take(i as int), ", "@),
        decreases entries.len() - i,
    {
        if i != 0 {
            body.append(", ");
        }
        let entry = &entries[i];
        body.append(debug_quoted(entry.0.as_str()).as_str());
        body.append(": ");
        body.append(debug_quoted(entry.1.as_str()).as_str());
        assert(texts.take((i + 1) as int).drop_last() =~= texts.take(i as int));
        assert(details@[i as int] == (entries@[i as int].0@, entries@[i as int].1@));
        assert(texts.take((i + 1) as int).last() == entry_text(details@[i as int]));
        i = i + 1;
    }
    assert(texts.take(entries.len() as int) =~= texts);
    let mut res = String::from_str("{");
    res.append(body.as_str());
    res.append("}");
    res
}

} // verus!
