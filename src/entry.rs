//! Tracked entries: todos and meetings with their moments.

use crate::time::datetime::DateTime;
use crate::time::text::{chars_of, range_is, trim, trim_range};
use vstd::prelude::*;

verus! {

/// What kind of entry this is.
#[derive(Debug, PartialEq, Eq, Clone, Copy, Structural)]
pub enum EntryType {
    Todo,
    Meeting,
}

/// The name of an entry type in text.
pub open spec fn entry_type_text(t: EntryType) -> Seq<char> {
    match t {
        EntryType::Todo => "todo"@,
        EntryType::Meeting => "meeting"@,
    }
}

/// What the text `s` names, after trimming.
pub open spec fn entry_type_of_text(s: Seq<char>) -> Option<EntryType> {
    if trim(s) == "todo"@ {
        Some(EntryType::Todo)
    } else if trim(s) == "meeting"@ {
        Some(EntryType::Meeting)
    } else {
        None
    }
}

impl EntryType {
    /// The name: `todo` or `meeting`.
    pub fn to_string(&self) -> (r: String)
        ensures
            r@ == entry_type_text(*self),
    {
        match self {
            EntryType::Todo => String::from_str("todo"),
            EntryType::Meeting => String::from_str("meeting"),
        }
    }

    /// Reads a name; surrounding whitespace is ignored.
    pub fn parse(s: &str) -> (r: Result<EntryType, ()>)
        ensures
            r matches Ok(t) ==> entry_type_of_text(s@) == Some(t),
            r is Err ==> entry_type_of_text(s@) is None,
    {
        let cs = chars_of(s);
        assert(cs@.subrange(0, cs@.len() as int) =~= s@);
        let (a, b) = trim_range(&cs, 0, cs.len());
        if range_is(&cs, a, b, "todo") {
            Ok(EntryType::Todo)
        } else if range_is(&cs, a, b, "meeting") {
            Ok(EntryType::Meeting)
        } else {
            Err(())
        }
    }
}

impl std::str::FromStr for EntryType {
    type Err = ();

    fn from_str(s: &str) -> (r: Result<EntryType, ()>)
        ensures
            r matches Ok(t) ==> entry_type_of_text(s@) == Some(t),
            r is Err ==> entry_type_of_text(s@) is None,
    {
        EntryType::parse(s)
    }
}

#[derive(Debug, PartialEq, Eq, Clone, Copy, Structural)]
pub enum EntryState {
    Open,
    Closed,
}

/// A tracked entry.
#[derive(Debug, PartialEq, Eq, Clone)]
pub struct Entry {
    pub id: u64,
    pub title: String,
    pub body: String,
    pub prefix: String,
    pub entry_type: EntryType,
    pub opened: DateTime,
    pub closed: Option<DateTime>,
    pub scheduled: Option<DateTime>,
    pub scheduled_end: Option<DateTime>,
    pub deadline: Option<DateTime>,
}

/// The state an entry reports: `Open` exactly when a closing moment is recorded.
pub open spec fn state_of(e: Entry) -> EntryState {
    if e.closed is Some {
        EntryState::Open
    } else {
        EntryState::Closed
    }
}

impl Entry {
    /// A todo with the given id and title, opened at `opened`, with empty
    /// body and prefix and no further moments.
    pub fn test_entry(id: u64, title: String, opened: DateTime) -> (r: Entry)
        ensures
            r.id == id,
            r.title@ == title@,
            r.body@.len() == 0,
            r.prefix@.len() == 0,
            r.entry_type == EntryType::Todo,
            r.opened == opened,
            r.closed is None,
            r.scheduled is None,
            r.scheduled_end is None,
            r.deadline is None,
    {
        Entry {
            id,
            title,
            body: String::new(),
            entry_type: EntryType::Todo,
            prefix: String::new(),
            opened,
            closed: None,
            scheduled: None,
            scheduled_end: None,
            deadline: None,
        }
    }

    /// Whether a closing moment is recorded.
    pub fn is_open(&self) -> (r: bool)
        ensures
            r == (self.closed is Some),
    {
        self.closed.is_some()
    }

    pub fn is_closed(&self) -> (r: bool)
        ensures
            r == !(self.closed is Some),
    {
        !self.is_open()
    }

    pub fn state(&self) -> (r: EntryState)
        ensures
            r == state_of(*self),
    {
        if self.is_open() {
            EntryState::Open
        } else {
            EntryState::Closed
        }
    }
}

} // verus!
