use std::collections::HashMap;
use vstd::prelude::*;

verus! {

/// The lifecycle state of an epic or a story. Any state may follow any other.
#[derive(PartialEq, Eq, Structural, Clone, Copy, Debug)]
pub enum Status {
    InProgress,
    Closed,
    Open,
    Resolved,
}

impl Status {
    /// The status chosen by number in a menu: 1 open, 2 in progress,
    /// 3 resolved, 4 closed; any other number chooses none.
    pub fn from_choice(choice: u32) -> (r: Option<Status>)
        ensures
            choice == 1 ==> r == Some(Status::Open),
            choice == 2 ==> r == Some(Status::InProgress),
            choice == 3 ==> r == Some(Status::Resolved),
            choice == 4 ==> r == Some(Status::Closed),
            (choice < 1 || choice > 4) <==> r is None,
    {
        match choice {
            1 => Some(Status::Open),
            2 => Some(Status::InProgress),
            3 => Some(Status::Resolved),
            4 => Some(Status::Closed),
            _ => None,
        }
    }
}

/// A parent work item; `stories` lists the identifiers of its stories in
/// the order they were added.
#[derive(PartialEq, Eq, Debug, Clone)]
pub struct Epic {
    pub name: String,
    pub description: String,
    pub status: Status,
    pub stories: Vec<u32>,
}

/// The mathematical content of an [`Epic`].
pub struct EpicView {
    pub name: Seq<char>,
    pub description: Seq<char>,
    pub status: Status,
    pub stories: Seq<u32>,
}

impl View for Epic {
    type V = EpicView;

    open spec fn view(&self) -> EpicView {
        EpicView {
            name: self.name@,
            description: self.description@,
            status: self.status,
            stories: self.stories@,
        }
    }
}

impl Epic {
    /// An open epic with no stories.
    pub fn new(name: String, description: String) -> (r: Epic)
        ensures
            r@ == (EpicView {
                name: name@,
                description: description@,
                status: Status::Open,
                stories: Seq::empty(),
            }),
    {
        Epic { name, description, status: Status::Open, stories: Vec::new() }
    }
}

/// A child work item, owned by exactly one epic.
#[derive(PartialEq, Eq, Debug, Clone)]
pub struct Story {
    pub name: String,
    pub description: String,
    pub status: Status,
}

/// The mathematical content of a [`Story`].
pub struct StoryView {
    pub name: Seq<char>,
    pub description: Seq<char>,
    pub status: Status,
}

impl View for Story {
    type V = StoryView;

    open spec fn view(&self) -> StoryView {
        StoryView { name: self.name@, description: self.description@, status: self.status }
    }
}

impl Story {
    /// An open story.
    pub fn new(name: String, description: String) -> (r: Story)
        ensures
            r@ == (StoryView { name: name@, description: description@, status: Status::Open }),
    {
        Story { name, description, status: Status::Open }
    }
}

/// The whole dataset: the highest identifier ever issued, and the epics and
/// stories keyed by identifier. Epics and stories draw from the one counter.
#[derive(PartialEq, Eq, Debug, Clone)]
pub struct DBState {
    pub last_item_id: u32,
    pub epics: HashMap<u32, Epic>,
    pub stories: HashMap<u32, Story>,
}

/// The mathematical content of a [`DBState`].
pub struct DBStateView {
    pub last_item_id: u32,
    pub epics: Map<u32, EpicView>,
    pub stories: Map<u32, StoryView>,
}

impl View for DBState {
    type V = DBStateView;

    open spec fn view(&self) -> DBStateView {
        DBStateView {
            last_item_id: self.last_item_id,
            epics: self.epics@.map_values(|e: Epic| e@),
            stories: self.stories@.map_values(|s: Story| s@),
        }
    }
}

/// Why an operation failed.
#[derive(PartialEq, Eq, Debug, Clone)]
pub enum DbError {
    /// The backing medium could not be opened, read or written.
    Medium(String),
    /// The stored bytes do not decode to a snapshot.
    Format(String),
    /// No epic has the given identifier.
    EpicNotFound(u32),
    /// No story has the given identifier.
    StoryNotFound(u32),
    /// The identifier counter has reached its largest value.
    IdsExhausted,
}

impl DbError {
    /// An error of the storage medium rather than of the command.
    pub open spec fn is_storage(self) -> bool {
        self is Medium || self is Format
    }
}

} // verus!
