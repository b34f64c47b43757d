use crate::models::{DBState, DBStateView, DbError, Epic, Status, Story};
use vstd::prelude::*;

verus! {

/// A durable medium for snapshots. It loads the snapshot it holds, and
/// persist replaces that snapshot wholesale or, on failure, not at all.
pub trait Database {
    /// The snapshot that the medium holds.
    spec fn stored(&self) -> DBStateView;

    /// The medium never fails to load or persist.
    spec fn infallible(&self) -> bool;

    /// Loads the snapshot that the medium holds.
    fn read_db(&self) -> (r: Result<DBState, DbError>)
        ensures
            r is Ok ==> r->Ok_0@ == self.stored(),
            r is Err ==> r->Err_0.is_storage(),
            self.infallible() ==> r is Ok,
    ;

    /// Replaces the snapshot that the medium holds by `db_state`.
    fn write_db(&mut self, db_state: &DBState) -> (r: Result<(), DbError>)
        ensures
            r is Ok ==> final(self).stored() == db_state@,
            r is Err ==> r->Err_0.is_storage() && final(self).stored() == old(self).stored(),
            old(self).infallible() ==> r is Ok,
            final(self).infallible() == old(self).infallible(),
    ;
}

/// A medium held in memory: it keeps the last snapshot persisted to it.
pub struct MockDB {
    last_written_state: DBState,
}

impl MockDB {
    /// A medium that holds the empty snapshot.
    pub fn new() -> (r: MockDB)
        ensures
            r.stored() == DBStateView::empty(),
            r.infallible(),
    {
        MockDB { last_written_state: DBState::new() }
    }
}

impl Default for MockDB {
    fn default() -> (r: MockDB)
        ensures
            r.stored() == DBStateView::empty(),
            r.infallible(),
    {
        MockDB::new()
    }
}

impl Database for MockDB {
    closed spec fn stored(&self) -> DBStateView {
        self.last_written_state@
    }

    open spec fn infallible(&self) -> bool {
        true
    }

    fn read_db(&self) -> (r: Result<DBState, DbError>)
        ensures
            r is Ok,
    {
        Ok(self.last_written_state.duplicate())
    }

    fn write_db(&mut self, db_state: &DBState) -> (r: Result<(), DbError>)
        ensures
            r is Ok,
    {
        self.last_written_state = db_state.duplicate();
        Ok(())
    }
}

/// The domain store: each operation loads the snapshot from the medium,
/// applies one command, and persists the result only if the command
/// succeeded.
pub struct JiraDatabase<D: Database> {
    pub database: D,
}

impl<D: Database> JiraDatabase<D> {
    /// A store over `database`.
    pub fn new(database: D) -> (r: Self)
        ensures
            r.database == database,
    {
        JiraDatabase { database }
    }

    /// The snapshot that the medium holds.
    pub fn read_db(&self) -> (r: Result<DBState, DbError>)
        ensures
            r is Ok ==> r->Ok_0@ == self.database.stored(),
            r is Err ==> r->Err_0.is_storage(),
            self.database.infallible() ==> r is Ok,
    {
        self.database.read_db()
    }

    /// Adds `epic` under the next identifier and returns that identifier.
    pub fn create_epic(&mut self, epic: Epic) -> (r: Result<u32, DbError>)
        ensures
            r is Ok ==> (old(self).database.stored().create_epic_error() is None) && r->Ok_0 == old(self).database.stored().next_id() && final(self).database.stored() == old(self).database.stored().with_epic(epic@),
            r is Err ==> final(self).database.stored() == old(self).database.stored() && (
            r->Err_0.is_storage() || Some(r->Err_0) == old(self).database.stored().create_epic_error()),
            old(self).database.stored().create_epic_error() is Some ==> r is Err,
            old(self).database.infallible() && (old(self).database.stored().create_epic_error() is None) ==> r is Ok,
            final(self).database.infallible() == old(self).database.infallible(),
    {
        let mut db = self.database.read_db()?;
        let next_id = db.create_epic(epic)?;
        self.database.write_db(&db)?;
        Ok(next_id)
    }

    /// Adds `story` under the next identifier to epic `epic_id` and returns
    /// that identifier.
    pub fn create_story(&mut self, story: Story, epic_id: u32) -> (r: Result<u32, DbError>)
        ensures
            r is Ok ==> (old(self).database.stored().create_story_error(epic_id) is None) && r->Ok_0
                == old(self).database.stored().next_id() && final(self).database.stored() == old(self).database.stored().with_story(story@, epic_id),
            r is Err ==> final(self).database.stored() == old(self).database.stored() && (
            r->Err_0.is_storage() || Some(r->Err_0) == old(self).database.stored().create_story_error(epic_id)),
            old(self).database.stored().create_story_error(epic_id) is Some ==> r is Err,
            old(self).database.infallible() && (old(self).database.stored().create_story_error(epic_id) is None) ==> r is Ok,
            final(self).database.infallible() == old(self).database.infallible(),
    {
        let mut db = self.database.read_db()?;
        let next_id = db.create_story(story, epic_id)?;
        self.database.write_db(&db)?;
        Ok(next_id)
    }

    /// Removes epic `epic_id` and every story it lists.
    pub fn delete_epic(&mut self, epic_id: u32) -> (r: Result<(), DbError>)
        ensures
            r is Ok ==> (old(self).database.stored().epic_error(epic_id) is None) && final(self).database.stored() == old(self).database.stored().without_epic(epic_id),
            r is Err ==> final(self).database.stored() == old(self).database.stored() && (
            r->Err_0.is_storage() || Some(r->Err_0) == old(self).database.stored().epic_error(
                epic_id,
            )),
            old(self).database.stored().epic_error(epic_id) is Some ==> r is Err,
            old(self).database.infallible() && (old(self).database.stored().epic_error(epic_id) is None) ==> r is Ok,
            final(self).database.infallible() == old(self).database.infallible(),
    {
        let mut db = self.database.read_db()?;
        db.delete_epic(epic_id)?;
        self.database.write_db(&db)?;
        Ok(())
    }

    /// Removes story `story_id` and its occurrences in the list of epic
    /// `epic_id`.
    pub fn delete_story(&mut self, epic_id: u32, story_id: u32) -> (r: Result<(), DbError>)
        ensures
            r is Ok ==> (old(self).database.stored().delete_story_error(epic_id, story_id) is None)
                && final(self).database.stored() == old(self).database.stored().without_story(
                epic_id,
                story_id,
            ),
            r is Err ==> final(self).database.stored() == old(self).database.stored() && (
            r->Err_0.is_storage() || Some(r->Err_0) == old(self).database.stored().delete_story_error(epic_id, story_id)),
            old(self).database.stored().delete_story_error(epic_id, story_id) is Some ==> r is Err,
            old(self).database.infallible() && (old(self).database.stored().delete_story_error(epic_id, story_id) is None) ==> r is Ok,
            final(self).database.infallible() == old(self).database.infallible(),
    {
        let mut db = self.database.read_db()?;
        db.delete_story(epic_id, story_id)?;
        self.database.write_db(&db)?;
        Ok(())
    }

    /// Sets the status of epic `epic_id`.
    pub fn update_epic_status(&mut self, epic_id: u32, status: Status) -> (r: Result<(), DbError>)
        ensures
            r is Ok ==> (old(self).database.stored().epic_error(epic_id) is None) && final(self).database.stored() == old(self).database.stored().with_epic_status(epic_id, status),
            r is Err ==> final(self).database.stored() == old(self).database.stored() && (
            r->Err_0.is_storage() || Some(r->Err_0) == old(self).database.stored().epic_error(
                epic_id,
            )),
            old(self).database.stored().epic_error(epic_id) is Some ==> r is Err,
            old(self).database.infallible() && (old(self).database.stored().epic_error(epic_id) is None) ==> r is Ok,
            final(self).database.infallible() == old(self).database.infallible(),
    {
        let mut db = self.database.read_db()?;
        db.update_epic_status(epic_id, status)?;
        self.database.write_db(&db)?;
        Ok(())
    }

    /// Sets the status of story `story_id`.
    pub fn update_story_status(&mut self, story_id: u32, status: Status) -> (r: Result<
        (),
        DbError,
    >)
        ensures
            r is Ok ==> (old(self).database.stored().story_error(story_id) is None) && final(self).database.stored() == old(self).database.stored().with_story_status(story_id, status),
            r is Err ==> final(self).database.stored() == old(self).database.stored() && (
            r->Err_0.is_storage() || Some(r->Err_0) == old(self).database.stored().story_error(
                story_id,
            )),
            old(self).database.stored().story_error(story_id) is Some ==> r is Err,
            old(self).database.infallible() && (old(self).database.stored().story_error(story_id) is None) ==> r is Ok,
            final(self).database.infallible() == old(self).database.infallible(),
    {
        let mut db = self.database.read_db()?;
        db.update_story_status(story_id, status)?;
        self.database.write_db(&db)?;
        Ok(())
    }
}

} // verus!
