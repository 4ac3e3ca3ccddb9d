//! A directory child's presentation projection: just the data a listing page
//! needs, created transiently for each response.

use vstd::prelude::*;

verus! {

/// The mathematical value of an [`Entry`].
pub struct EntryV {
    pub is_dir: bool,
    pub file_name: Seq<char>,
    pub modified: Seq<char>,
}

/// One directory child as a listing shows it: its name, whether it is a
/// directory, and its last modification time at minute precision.
#[derive(Debug, Clone)]
pub struct Entry {
    pub is_dir: bool,
    pub file_name: String,
    pub modified: String,
}

impl View for Entry {
    type V = EntryV;

    open spec fn view(&self) -> EntryV {
        EntryV { is_dir: self.is_dir, file_name: self.file_name@, modified: self.modified@ }
    }
}

impl DeepView for Entry {
    type V = EntryV;

    open spec fn deep_view(&self) -> EntryV {
        self.view()
    }
}

/// The minute-precision label chrono gives to a moment, as seconds since the
/// Unix epoch; `None` where the seconds fall outside chrono's range.
pub uninterp spec fn time_label(secs: int) -> Option<Seq<char>>;

/// Relies on chrono's `DateTime::<Utc>::from_timestamp` and
/// `DateTime::format` with the fixed format `"%Y-%m-%d %R"`: the label is a
/// function of the epoch seconds alone (UTC, minute precision), and the
/// timestamp constructor returns `None` exactly on out-of-range seconds.
#[verifier::external_body]
fn format_minute(secs: i64) -> (r: Option<String>)
    ensures
        r is Some <==> time_label(secs as int) is Some,
        r is Some ==> r.unwrap()@ == time_label(secs as int).unwrap(),
{
    match chrono::DateTime::<chrono::Utc>::from_timestamp(secs, 0) {
        Some(d) => Some(d.format("%Y-%m-%d %R").to_string()),
        None => None,
    }
}

/// The label an [`Entry`] shows for a modification time: chrono's label for
/// readable in-range times, empty otherwise.
pub open spec fn minute_label(modified_secs: Option<i64>) -> Seq<char> {
    match modified_secs {
        Some(s) => match time_label(s as int) {
            Some(t) => t,
            None => Seq::empty(),
        },
        None => Seq::empty(),
    }
}

impl Entry {
    /// Projects one directory child into an [`Entry`]. `modified_secs` is the
    /// modification time in seconds since the Unix epoch, `None` where it
    /// could not be read.
    pub fn from(file_name: &str, is_dir: bool, modified_secs: Option<i64>) -> (e: Entry)
        ensures
            e@.is_dir == is_dir,
            e@.file_name == file_name@,
            e@.modified == minute_label(modified_secs),
    {
        let modified = match modified_secs {
            Some(s) => match format_minute(s) {
                Some(t) => t,
                None => String::new(),
            },
            None => String::new(),
        };
        Entry { is_dir, file_name: String::from_str(file_name), modified }
    }
}

} // verus!
