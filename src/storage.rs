use vstd::prelude::*;

use crate::repository::{restored, snapshot_view, RepositoryView, TaskRepository};

verus! {

/// ron::Error, the error of ron::ser::to_string, carried through unread.
#[verifier::external_type_specification]
#[verifier::external_body]
pub struct ExRonError(ron::Error);

/// ron::error::SpannedError, the error of ron::de::from_str, carried through
/// unread.
#[verifier::external_type_specification]
#[verifier::external_body]
pub struct ExRonSpannedError(ron::error::SpannedError);

/// The RON text that ron writes for a snapshot.
pub uninterp spec fn ron_text(snapshot: (Seq<(usize, Seq<char>, bool)>, usize)) -> Seq<char>;

/// The snapshot that ron reads from a text, `None` where it refuses the text.
pub uninterp spec fn ron_value(text: Seq<char>) -> Option<(Seq<(usize, Seq<char>, bool)>, usize)>;

/// Relies on ron::ser::to_string: it writes into a `Vec<u8>`, which cannot
/// fail, a tuple of sequences, strings, integers and flags is well inside its
/// recursion limit, so it succeeds; the text depends on the snapshot alone.
#[verifier::external_body]
fn write_ron(snapshot: &(Vec<(usize, String, bool)>, usize)) -> (r: Result<String, ron::Error>)
    ensures
        r is Ok,
        r matches Ok(text) ==> text@ == ron_text(snapshot_view(*snapshot)),
{
    ron::ser::to_string(snapshot)
}

/// Relies on ron::de::from_str: whether a text parses as a snapshot, and into
/// which, depends on the text alone.
#[verifier::external_body]
fn read_ron(text: &str) -> (r: Result<(Vec<(usize, String, bool)>, usize), ron::error::SpannedError>)
    ensures
        match r {
            Ok(s) => ron_value(text@) == Some(snapshot_view(s)),
            Err(_) => ron_value(text@) is None,
        },
{
    ron::de::from_str(text)
}

impl TaskRepository {
    /// The repository as RON text, as it is written to storage.
    pub fn to_ron(&self) -> (r: String)
        ensures
            r@ == ron_text(self@.snapshot()),
    {
        match write_ron(&self.snapshot()) {
            Ok(text) => text,
            Err(_) => {
                proof {
                    assert(false);
                }
                String::new()
            },
        }
    }

    /// The repository that a RON text describes, as it stands; the empty
    /// repository where the text is no snapshot.
    pub fn from_ron(text: &str) -> (r: TaskRepository)
        ensures
            r@ == restored(ron_value(text@)),
    {
        match read_ron(text) {
            Ok(s) => TaskRepository::restore(Some(s)),
            Err(_) => TaskRepository::restore(None),
        }
    }

    /// The repository to start from, given the contents of the storage file:
    /// `None` where there is no such file or it cannot be read.
    pub fn load(contents: Option<&str>) -> (r: TaskRepository)
        ensures
            r@ == match contents {
                Some(text) => restored(ron_value(text@)),
                None => RepositoryView::empty(),
            },
    {
        match contents {
            Some(text) => TaskRepository::from_ron(text),
            None => TaskRepository::new(),
        }
    }
}

} // verus!
