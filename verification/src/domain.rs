//! The domain entities: stories (containers) and the tasks they own, plus the
//! task status enumeration with its explicit wire-string mapping.
use vstd::prelude::*;
use crate::error::Error;

verus! {

/// The status of a task: a closed enumeration, stored as text with an
/// explicit bidirectional string mapping.
#[derive(Clone, Copy, Debug, PartialEq, Eq, Structural)]
pub enum Status {
    Incomplete,
    Complete,
}

impl Status {
    /// The wire value of this status.
    pub open spec fn label_view(self) -> Seq<char> {
        match self {
            Status::Incomplete => "Incomplete"@,
            Status::Complete => "Complete"@,
        }
    }

    /// The wire string of this status: exactly `Incomplete` or `Complete`.
    pub fn label(&self) -> (r: String)
        ensures
            r@ == self.label_view(),
    {
        match self {
            Status::Incomplete => "Incomplete".to_owned(),
            Status::Complete => "Complete".to_owned(),
        }
    }

    /// Decode a stored status string. The two wire values are case-sensitive;
    /// an unrecognized value is data corruption, an internal error rather
    /// than a silent default.
    pub fn parse(s: &str) -> (r: Result<Status, Error>)
        ensures
            s@ == "Incomplete"@ ==> r == Ok::<Status, Error>(Status::Incomplete),
            s@ == "Complete"@ ==> r == Ok::<Status, Error>(Status::Complete),
            r matches Ok(st) ==> s@ == st.label_view(),
            r matches Err(e) ==> e is Internal && s@ != "Incomplete"@ && s@ != "Complete"@,
    {
        proof {
            reveal_strlit("Incomplete");
            reveal_strlit("Complete");
            assert("Incomplete"@.len() == 10);
            assert("Complete"@.len() == 8);
            assert("Incomplete"@ != "Complete"@);
        }
        let owned = s.to_owned();
        if owned == "Incomplete".to_owned() {
            Ok(Status::Incomplete)
        } else if owned == "Complete".to_owned() {
            Ok(Status::Complete)
        } else {
            Err(Error::internal("unrecognized task status"))
        }
    }
}

/// A story: a container of tasks. The sequence number is the internal
/// ordering key behind pagination; it is never exposed to clients.
#[derive(Debug)]
pub struct Story {
    pub id: i32,
    pub name: String,
    pub seqno: i32,
    pub created_at: u64,
    pub updated_at: u64,
}

impl Clone for Story {
    /// Clone a story, field for field.
    fn clone(&self) -> (r: Self)
        ensures
            r == *self,
    {
        Story {
            id: self.id,
            name: self.name.clone(),
            seqno: self.seqno,
            created_at: self.created_at,
            updated_at: self.updated_at,
        }
    }
}

/// A task: a work item owned by exactly one story.
#[derive(Debug)]
pub struct Task {
    pub id: i32,
    pub story_id: i32,
    pub name: String,
    pub status: Status,
    pub created_at: u64,
    pub updated_at: u64,
}

impl Clone for Task {
    /// Clone a task, field for field.
    fn clone(&self) -> (r: Self)
        ensures
            r == *self,
    {
        Task {
            id: self.id,
            story_id: self.story_id,
            name: self.name.clone(),
            status: self.status,
            created_at: self.created_at,
            updated_at: self.updated_at,
        }
    }
}

} // verus!
