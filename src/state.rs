use crate::models::{DBState, DBStateView, DbError, Epic, EpicView, Status, Story, StoryView};
use std::collections::HashMap;
use vstd::prelude::*;

verus! {

/// The predicate that keeps every identifier but `id`.
pub open spec fn other_than(id: u32) -> spec_fn(u32) -> bool {
    |x: u32| x != id
}

impl DBStateView {
    /// The snapshot of a store that has never been written.
    pub open spec fn empty() -> DBStateView {
        DBStateView { last_item_id: 0, epics: Map::empty(), stories: Map::empty() }
    }

    /// The identifier that the next created item receives.
    pub open spec fn next_id(self) -> u32 {
        (self.last_item_id + 1) as u32
    }

    /// No identifier is left to issue.
    pub open spec fn exhausted(self) -> bool {
        self.last_item_id == u32::MAX
    }

    /// Every identifier in use, as an epic, a story, or an entry of a story
    /// list, is at most the counter.
    pub open spec fn ids_within_counter(self) -> bool {
        &&& forall|k: u32| #[trigger] self.epics.contains_key(k) ==> k <= self.last_item_id
        &&& forall|k: u32| #[trigger] self.stories.contains_key(k) ==> k <= self.last_item_id
        &&& forall|k: u32, i: int|
            self.epics.contains_key(k) && 0 <= i < self.epics[k].stories.len()
                ==> #[trigger] self.epics[k].stories[i] <= self.last_item_id
    }

    /// Story `story_id` is listed by epic `epic_id`.
    pub open spec fn lists(self, epic_id: u32, story_id: u32) -> bool {
        self.epics.contains_key(epic_id) && self.epics[epic_id].stories.contains(story_id)
    }

    /// The snapshot's invariant: identifiers stay within the counter, no
    /// identifier is both an epic and a story, every listed story exists,
    /// no story is listed by two epics, and every story is listed by an epic.
    pub open spec fn wf(self) -> bool {
        &&& self.ids_within_counter()
        &&& forall|k: u32| !(#[trigger] self.epics.contains_key(k) && self.stories.contains_key(k))
        &&& forall|e: u32, s: u32| #[trigger] self.lists(e, s) ==> self.stories.contains_key(s)
        &&& forall|e1: u32, e2: u32, s: u32|
            #[trigger] self.lists(e1, s) && #[trigger] self.lists(e2, s) ==> e1 == e2
        &&& forall|s: u32| #[trigger]
            self.stories.contains_key(s) ==> exists|e: u32| #[trigger] self.lists(e, s)
    }

    /// The referential error, if any, of creating an epic.
    pub open spec fn create_epic_error(self) -> Option<DbError> {
        if self.exhausted() {
            Some(DbError::IdsExhausted)
        } else {
            None
        }
    }

    /// The referential error, if any, of creating a story under `epic_id`.
    pub open spec fn create_story_error(self, epic_id: u32) -> Option<DbError> {
        if !self.epics.contains_key(epic_id) {
            Some(DbError::EpicNotFound(epic_id))
        } else if self.exhausted() {
            Some(DbError::IdsExhausted)
        } else {
            None
        }
    }

    /// The referential error, if any, of an operation on epic `epic_id`.
    pub open spec fn epic_error(self, epic_id: u32) -> Option<DbError> {
        if !self.epics.contains_key(epic_id) {
            Some(DbError::EpicNotFound(epic_id))
        } else {
            None
        }
    }

    /// The referential error, if any, of an operation on story `story_id`.
    pub open spec fn story_error(self, story_id: u32) -> Option<DbError> {
        if !self.stories.contains_key(story_id) {
            Some(DbError::StoryNotFound(story_id))
        } else {
            None
        }
    }

    /// The referential error, if any, of deleting story `story_id` from epic
    /// `epic_id`: the story must exist, the epic must exist, and the epic
    /// must list the story, checked in that order.
    pub open spec fn delete_story_error(self, epic_id: u32, story_id: u32) -> Option<DbError> {
        if !self.stories.contains_key(story_id) {
            Some(DbError::StoryNotFound(story_id))
        } else if !self.epics.contains_key(epic_id) {
            Some(DbError::EpicNotFound(epic_id))
        } else if !self.lists(epic_id, story_id) {
            Some(DbError::StoryNotFound(story_id))
        } else {
            None
        }
    }

    /// The snapshot after `epic` is added under the next identifier.
    pub open spec fn with_epic(self, epic: EpicView) -> DBStateView {
        DBStateView {
            last_item_id: self.next_id(),
            epics: self.epics.insert(self.next_id(), epic),
            stories: self.stories,
        }
    }

    /// The snapshot after `story` is added under the next identifier and
    /// that identifier is appended to the story list of epic `epic_id`.
    pub open spec fn with_story(self, story: StoryView, epic_id: u32) -> DBStateView {
        let epic = self.epics[epic_id];
        DBStateView {
            last_item_id: self.next_id(),
            epics: self.epics.insert(
                epic_id,
                EpicView {
                    name: epic.name,
                    description: epic.description,
                    status: epic.status,
                    stories: epic.stories.push(self.next_id()),
                },
            ),
            stories: self.stories.insert(self.next_id(), story),
        }
    }

    /// The snapshot after epic `epic_id` and every story it lists are removed.
    pub open spec fn without_epic(self, epic_id: u32) -> DBStateView {
        DBStateView {
            last_item_id: self.last_item_id,
            epics: self.epics.remove(epic_id),
            stories: self.stories.remove_keys(self.epics[epic_id].stories.to_set()),
        }
    }

    /// The snapshot after story `story_id` is removed, and with it every
    /// occurrence of `story_id` in the story list of epic `epic_id`.
    pub open spec fn without_story(self, epic_id: u32, story_id: u32) -> DBStateView {
        let epic = self.epics[epic_id];
        DBStateView {
            last_item_id: self.last_item_id,
            epics: self.epics.insert(
                epic_id,
                EpicView {
                    name: epic.name,
                    description: epic.description,
                    status: epic.status,
                    stories: epic.stories.filter(other_than(story_id)),
                },
            ),
            stories: self.stories.remove(story_id),
        }
    }

    /// The snapshot after the status of epic `epic_id` is set to `status`.
    pub open spec fn with_epic_status(self, epic_id: u32, status: Status) -> DBStateView {
        let epic = self.epics[epic_id];
        DBStateView {
            last_item_id: self.last_item_id,
            epics: self.epics.insert(
                epic_id,
                EpicView {
                    name: epic.name,
                    description: epic.description,
                    status: status,
                    stories: epic.stories,
                },
            ),
            stories: self.stories,
        }
    }

    /// The snapshot after the status of story `story_id` is set to `status`.
    pub open spec fn with_story_status(self, story_id: u32, status: Status) -> DBStateView {
        let story = self.stories[story_id];
        DBStateView {
            last_item_id: self.last_item_id,
            epics: self.epics,
            stories: self.stories.insert(
                story_id,
                StoryView { name: story.name, description: story.description, status: status },
            ),
        }
    }
}

/// Whether `stories` holds `id`.
fn lists_story(stories: &Vec<u32>, id: u32) -> (r: bool)
    ensures
        r == stories@.contains(id),
{
    let mut i: usize = 0;
    while i < stories.len()
        invariant
            0 <= i <= stories.len(),
            forall|j: int| 0 <= j < i ==> stories@[j] != id,
        decreases stories.len() - i,
    {
        if stories[i] == id {
            assert(stories@[i as int] == id);
            return true;
        }
        i += 1;
    }
    false
}

impl DBState {
    /// An empty snapshot: no epics, no stories, counter at zero.
    pub fn new() -> (r: DBState)
        ensures
            r@ == DBStateView::empty(),
    {
        let r = DBState { last_item_id: 0, epics: HashMap::new(), stories: HashMap::new() };
        assert(r@.epics =~= Map::empty());
        assert(r@.stories =~= Map::empty());
        r
    }

    /// A copy with the same content.
    pub fn duplicate(&self) -> (r: DBState)
        ensures
            r@ == self@,
    {
        DBState {
            last_item_id: self.last_item_id,
            epics: self.epics.clone(),
            stories: self.stories.clone(),
        }
    }

    /// Adds `epic` under the next identifier and returns that identifier.
    /// Fails, changing nothing, when the counter is exhausted.
    pub fn create_epic(&mut self, epic: Epic) -> (r: Result<u32, DbError>)
        ensures
            !old(self)@.exhausted() ==> r == Ok::<u32, DbError>(old(self)@.next_id())
                && final(self)@ == old(self)@.with_epic(epic@),
            old(self)@.exhausted() ==> r == Err::<u32, DbError>(DbError::IdsExhausted)
                && final(self)@ == old(self)@,
    {
        if self.last_item_id == u32::MAX {
            return Err(DbError::IdsExhausted);
        }
        let next_id = self.last_item_id + 1;
        self.epics.insert(next_id, epic);
        self.last_item_id = next_id;
        assert(self@.epics =~= old(self)@.epics.insert(next_id, epic@));
        Ok(next_id)
    }

    /// Adds `story` under the next identifier, appends that identifier to
    /// the story list of epic `epic_id`, and returns it. Fails, changing
    /// nothing, when there is no such epic or the counter is exhausted.
    pub fn create_story(&mut self, story: Story, epic_id: u32) -> (r: Result<u32, DbError>)
        ensures
            !old(self)@.epics.contains_key(epic_id) ==> r == Err::<u32, DbError>(
                DbError::EpicNotFound(epic_id),
            ) && final(self)@ == old(self)@,
            old(self)@.epics.contains_key(epic_id) && old(self)@.exhausted() ==> r == Err::<
                u32,
                DbError,
            >(DbError::IdsExhausted) && final(self)@ == old(self)@,
            old(self)@.epics.contains_key(epic_id) && !old(self)@.exhausted() ==> r == Ok::<
                u32,
                DbError,
            >(old(self)@.next_id()) && final(self)@ == old(self)@.with_story(story@, epic_id),
    {
        if !self.epics.contains_key(&epic_id) {
            return Err(DbError::EpicNotFound(epic_id));
        }
        if self.last_item_id == u32::MAX {
            return Err(DbError::IdsExhausted);
        }
        let next_id = self.last_item_id + 1;
        let mut epic = match self.epics.remove(&epic_id) {
            Some(e) => e,
            None => {
                return Err(DbError::EpicNotFound(epic_id));
            },
        };
        epic.stories.push(next_id);
        self.epics.insert(epic_id, epic);
        self.stories.insert(next_id, story);
        self.last_item_id = next_id;
        assert(self@.epics =~= old(self)@.with_story(story@, epic_id).epics);
        assert(self@.stories =~= old(self)@.with_story(story@, epic_id).stories);
        Ok(next_id)
    }

    /// Removes epic `epic_id` and every story it lists; the counter is kept.
    /// Fails, changing nothing, when there is no such epic.
    pub fn delete_epic(&mut self, epic_id: u32) -> (r: Result<(), DbError>)
        ensures
            !old(self)@.epics.contains_key(epic_id) ==> r == Err::<(), DbError>(
                DbError::EpicNotFound(epic_id),
            ) && final(self)@ == old(self)@,
            old(self)@.epics.contains_key(epic_id) ==> r == Ok::<(), DbError>(())
                && final(self)@ == old(self)@.without_epic(epic_id),
    {
        if !self.epics.contains_key(&epic_id) {
            return Err(DbError::EpicNotFound(epic_id));
        }
        let epic = match self.epics.remove(&epic_id) {
            Some(e) => e,
            None => {
                return Err(DbError::EpicNotFound(epic_id));
            },
        };
        let ghost listed = epic.stories@;
        let mut i: usize = 0;
        while i < epic.stories.len()
            invariant
                0 <= i <= epic.stories.len(),
                epic.stories@ == listed,
                listed == old(self)@.epics[epic_id].stories,
                self.last_item_id == old(self).last_item_id,
                self.epics@ == old(self).epics@.remove(epic_id),
                self.stories@ == old(self).stories@.remove_keys(
                    listed.subrange(0, i as int).to_set(),
                ),
            decreases epic.stories.len() - i,
        {
            let story_id = epic.stories[i];
            self.stories.remove(&story_id);
            proof {
                let upto = listed.subrange(0, i + 1);
                assert(upto.drop_last() =~= listed.subrange(0, i as int));
                assert(upto.drop_last().to_set().insert(upto.last()) =~= upto.to_set());
            }
            assert(self.stories@ =~= old(self).stories@.remove_keys(
                listed.subrange(0, i + 1).to_set(),
            ));
            i += 1;
        }
        assert(listed.subrange(0, listed.len() as int) =~= listed);
        assert(self@.epics =~= old(self)@.without_epic(epic_id).epics);
        assert(self@.stories =~= old(self)@.without_epic(epic_id).stories);
        Ok(())
    }

    /// Removes story `story_id` and every occurrence of it in the story list
    /// of epic `epic_id`. Everything is checked before anything changes:
    /// fails with `StoryNotFound` when there is no such story, else with
    /// `EpicNotFound` when there is no such epic, else with `StoryNotFound`
    /// when that epic does not list the story, changing nothing.
    pub fn delete_story(&mut self, epic_id: u32, story_id: u32) -> (r: Result<(), DbError>)
        ensures
            !old(self)@.stories.contains_key(story_id) ==> r == Err::<(), DbError>(
                DbError::StoryNotFound(story_id),
            ) && final(self)@ == old(self)@,
            old(self)@.stories.contains_key(story_id) && !old(self)@.epics.contains_key(epic_id)
                ==> r == Err::<(), DbError>(DbError::EpicNotFound(epic_id)) && final(self)@ == old(self)@,
            old(self)@.stories.contains_key(story_id) && old(self)@.epics.contains_key(epic_id)
                && !old(self)@.lists(epic_id, story_id) ==> r == Err::<(), DbError>(
                DbError::StoryNotFound(story_id),
            ) && final(self)@ == old(self)@,
            old(self)@.stories.contains_key(story_id) && old(self)@.lists(epic_id, story_id)
                ==> r == Ok::<(), DbError>(()) && final(self)@ == old(self)@.without_story(
                epic_id,
                story_id,
            ),
    {
        if !self.stories.contains_key(&story_id) {
            return Err(DbError::StoryNotFound(story_id));
        }
        match self.epics.get(&epic_id) {
            Some(epic) => {
                if !lists_story(&epic.stories, story_id) {
                    return Err(DbError::StoryNotFound(story_id));
                }
            },
            None => {
                return Err(DbError::EpicNotFound(epic_id));
            },
        }
        let mut epic = match self.epics.remove(&epic_id) {
            Some(e) => e,
            None => {
                return Err(DbError::EpicNotFound(epic_id));
            },
        };
        let ghost listed = epic.stories@;
        let mut kept: Vec<u32> = Vec::new();
        let mut i: usize = 0;
        while i < epic.stories.len()
            invariant
                0 <= i <= epic.stories.len(),
                epic.stories@ == listed,
                kept@ == listed.subrange(0, i as int).filter(other_than(story_id)),
            decreases epic.stories.len() - i,
        {
            let x = epic.stories[i];
            if x != story_id {
                kept.push(x);
            }
            proof {
                let upto = listed.subrange(0, i + 1);
                assert(upto.drop_last() =~= listed.subrange(0, i as int));
                reveal(Seq::filter);
            }
            i += 1;
        }
        assert(listed.subrange(0, listed.len() as int) =~= listed);
        epic.stories = kept;
        self.epics.insert(epic_id, epic);
        self.stories.remove(&story_id);
        assert(self@.epics =~= old(self)@.without_story(epic_id, story_id).epics);
        assert(self@.stories =~= old(self)@.without_story(epic_id, story_id).stories);
        Ok(())
    }

    /// Sets the status of epic `epic_id`; fails, changing nothing, when there
    /// is no such epic.
    pub fn update_epic_status(&mut self, epic_id: u32, status: Status) -> (r: Result<(), DbError>)
        ensures
            !old(self)@.epics.contains_key(epic_id) ==> r == Err::<(), DbError>(
                DbError::EpicNotFound(epic_id),
            ) && final(self)@ == old(self)@,
            old(self)@.epics.contains_key(epic_id) ==> r == Ok::<(), DbError>(())
                && final(self)@ == old(self)@.with_epic_status(epic_id, status),
    {
        let mut epic = match self.epics.remove(&epic_id) {
            Some(e) => e,
            None => {
                assert(self@.epics =~= old(self)@.epics);
                return Err(DbError::EpicNotFound(epic_id));
            },
        };
        epic.status = status;
        self.epics.insert(epic_id, epic);
        assert(self@.epics =~= old(self)@.with_epic_status(epic_id, status).epics);
        Ok(())
    }

    /// Sets the status of story `story_id`; fails, changing nothing, when
    /// there is no such story.
    pub fn update_story_status(&mut self, story_id: u32, status: Status) -> (r: Result<
        (),
        DbError,
    >)
        ensures
            !old(self)@.stories.contains_key(story_id) ==> r == Err::<(), DbError>(
                DbError::StoryNotFound(story_id),
            ) && final(self)@ == old(self)@,
            old(self)@.stories.contains_key(story_id) ==> r == Ok::<(), DbError>(())
                && final(self)@ == old(self)@.with_story_status(story_id, status),
    {
        let mut story = match self.stories.remove(&story_id) {
            Some(s) => s,
            None => {
                assert(self@.stories =~= old(self)@.stories);
                return Err(DbError::StoryNotFound(story_id));
            },
        };
        story.status = status;
        self.stories.insert(story_id, story);
        assert(self@.stories =~= old(self)@.with_story_status(story_id, status).stories);
        Ok(())
    }
}

/// Creating an epic issues the identifier one past the counter, which no
/// epic or story holds yet; the epic is then found under it exactly as given,
/// and the counter equals it. The bound on identifiers in use is kept when the
/// epic lists no identifier beyond the old counter.
pub proof fn lemma_create_epic_fresh_id(s: DBStateView, epic: EpicView)
    requires
        s.ids_within_counter(),
        !s.exhausted(),
    ensures
        s.next_id() == s.last_item_id + 1,
        !s.epics.contains_key(s.next_id()),
        !s.stories.contains_key(s.next_id()),
        s.with_epic(epic).last_item_id == s.next_id(),
        s.with_epic(epic).epics.contains_key(s.next_id()),
        s.with_epic(epic).epics[s.next_id()] == epic,
        s.with_epic(epic).stories == s.stories,
        (forall|i: int| 0 <= i < epic.stories.len() ==> epic.stories[i] <= s.last_item_id)
            ==> s.with_epic(epic).ids_within_counter(),
{
}

/// Creating a story under an existing epic advances the counter by exactly
/// one, adds the story under the new identifier, and appends that identifier,
/// which the epic's list did not hold before, to the end of the list; so it
/// appears there exactly once. The bound on identifiers in use is kept.
pub proof fn lemma_create_story_appends_once(s: DBStateView, story: StoryView, epic_id: u32)
    requires
        s.ids_within_counter(),
        s.epics.contains_key(epic_id),
        !s.exhausted(),
    ensures
        s.with_story(story, epic_id).last_item_id == s.last_item_id + 1,
        !s.stories.contains_key(s.next_id()),
        !s.epics.contains_key(s.next_id()),
        s.with_story(story, epic_id).stories == s.stories.insert(s.next_id(), story),
        s.with_story(story, epic_id).epics[epic_id].stories == s.epics[epic_id].stories.push(
            s.next_id(),
        ),
        !s.epics[epic_id].stories.contains(s.next_id()),
        s.with_story(story, epic_id).ids_within_counter(),
{
    let t = s.with_story(story, epic_id);
    assert forall|k: u32, i: int|
        t.epics.contains_key(k) && 0 <= i < t.epics[k].stories.len() implies #[trigger] t.epics[k].stories[i]
        <= t.last_item_id by {
        if k != epic_id {
            assert(s.epics[k].stories[i] <= s.last_item_id);
        } else if i < s.epics[epic_id].stories.len() {
            assert(s.epics[epic_id].stories[i] <= s.last_item_id);
        }
    }
    if s.epics[epic_id].stories.contains(s.next_id()) {
        let i = choose|i: int|
            0 <= i < s.epics[epic_id].stories.len() && s.epics[epic_id].stories[i] == s.next_id();
        assert(s.epics[epic_id].stories[i] <= s.last_item_id);
    }
}

/// Deleting an existing epic removes it and every story it lists, keeps every
/// other epic and every unlisted story as it was, and leaves the counter
/// unchanged.
pub proof fn lemma_delete_epic_cascades(s: DBStateView, epic_id: u32)
    requires
        s.epics.contains_key(epic_id),
    ensures
        !s.without_epic(epic_id).epics.contains_key(epic_id),
        forall|i: int|
            0 <= i < s.epics[epic_id].stories.len() ==> !s.without_epic(
                epic_id,
            ).stories.contains_key(#[trigger] s.epics[epic_id].stories[i]),
        forall|k: u32|
            k != epic_id && s.epics.contains_key(k) ==> #[trigger] s.without_epic(
                epic_id,
            ).epics.contains_key(k) && s.without_epic(epic_id).epics[k] == s.epics[k],
        forall|k: u32|
            s.stories.contains_key(k) && !s.epics[epic_id].stories.contains(k) ==> #[trigger] s.without_epic(
                epic_id,
            ).stories.contains_key(k) && s.without_epic(epic_id).stories[k] == s.stories[k],
        s.without_epic(epic_id).last_item_id == s.last_item_id,
{
    assert forall|i: int| 0 <= i < s.epics[epic_id].stories.len() implies !s.without_epic(
        epic_id,
    ).stories.contains_key(#[trigger] s.epics[epic_id].stories[i]) by {
        assert(s.epics[epic_id].stories.to_set().contains(s.epics[epic_id].stories[i]));
    }
}

/// Deleting an existing story through an existing epic removes the story, and
/// the epic's list no longer holds its identifier; the counter is unchanged.
pub proof fn lemma_delete_story_unlinks(s: DBStateView, epic_id: u32, story_id: u32)
    requires
        s.stories.contains_key(story_id),
        s.epics.contains_key(epic_id),
    ensures
        !s.without_story(epic_id, story_id).stories.contains_key(story_id),
        !s.without_story(epic_id, story_id).epics[epic_id].stories.contains(story_id),
        s.without_story(epic_id, story_id).last_item_id == s.last_item_id,
{
    let kept = s.epics[epic_id].stories.filter(other_than(story_id));
    assert(s.without_story(epic_id, story_id).epics[epic_id].stories == kept);
    if kept.contains(story_id) {
        let i = choose|i: int| 0 <= i < kept.len() && kept[i] == story_id;
        s.epics[epic_id].stories.lemma_filter_pred(other_than(story_id), i);
    }
}

/// The empty snapshot satisfies the invariant.
pub proof fn lemma_empty_wf()
    ensures
        DBStateView::empty().wf(),
{
}

/// Creating an epic that lists no stories keeps the invariant.
pub proof fn lemma_create_epic_keeps_wf(s: DBStateView, epic: EpicView)
    requires
        s.wf(),
        !s.exhausted(),
        epic.stories.len() == 0,
    ensures
        s.with_epic(epic).wf(),
{
    let t = s.with_epic(epic);
    let id = s.next_id();
    assert forall|e: u32, x: u32| #[trigger] t.lists(e, x) implies e != id && s.lists(e, x) by {
        if e == id {
            assert(!epic.stories.contains(x));
        }
    }
    assert forall|x: u32| #[trigger] t.stories.contains_key(x) implies exists|e: u32| #[trigger]
        t.lists(e, x) by {
        let e = choose|e: u32| #[trigger] s.lists(e, x);
        assert(e != id);
        assert(t.lists(e, x));
    }
}

/// Creating a story under an existing epic keeps the invariant.
pub proof fn lemma_create_story_keeps_wf(s: DBStateView, story: StoryView, epic_id: u32)
    requires
        s.wf(),
        s.epics.contains_key(epic_id),
        !s.exhausted(),
    ensures
        s.with_story(story, epic_id).wf(),
{
    let t = s.with_story(story, epic_id);
    let id = s.next_id();
    lemma_create_story_appends_once(s, story, epic_id);
    let old_list = s.epics[epic_id].stories;
    let new_list = t.epics[epic_id].stories;
    assert forall|e: u32, x: u32| #[trigger] t.lists(e, x) implies (x == id && e == epic_id) || (x
        != id && s.lists(e, x)) by {
        if e == epic_id {
            let i = choose|i: int| 0 <= i < new_list.len() && new_list[i] == x;
            if i < old_list.len() {
                assert(old_list[i] == x);
                assert(old_list[i] <= s.last_item_id);
            }
        } else if x == id {
            let i = choose|i: int| 0 <= i < s.epics[e].stories.len() && s.epics[e].stories[i] == x;
            assert(s.epics[e].stories[i] <= s.last_item_id);
        }
    }
    assert forall|e: u32, x: u32| #[trigger] s.lists(e, x) implies t.lists(e, x) by {
        if e == epic_id {
            let i = choose|i: int| 0 <= i < old_list.len() && old_list[i] == x;
            assert(new_list[i] == x);
        }
    }
    assert(t.lists(epic_id, id)) by {
        assert(new_list[old_list.len() as int] == id);
    }
    assert forall|x: u32| #[trigger] t.stories.contains_key(x) implies exists|e: u32| #[trigger]
        t.lists(e, x) by {
        if x != id {
            let e = choose|e: u32| #[trigger] s.lists(e, x);
            assert(t.lists(e, x));
        }
    }
}

/// Deleting an existing epic keeps the invariant.
pub proof fn lemma_delete_epic_keeps_wf(s: DBStateView, epic_id: u32)
    requires
        s.wf(),
        s.epics.contains_key(epic_id),
    ensures
        s.without_epic(epic_id).wf(),
{
    let t = s.without_epic(epic_id);
    assert forall|e: u32, x: u32| #[trigger] t.lists(e, x) implies s.lists(e, x) && e != epic_id
        && !s.lists(epic_id, x) by {
        if s.lists(epic_id, x) {
            assert(s.lists(e, x));
        }
    }
    assert forall|x: u32| #[trigger] t.stories.contains_key(x) implies exists|e: u32| #[trigger]
        t.lists(e, x) by {
        let e = choose|e: u32| #[trigger] s.lists(e, x);
        assert(!s.epics[epic_id].stories.to_set().contains(x));
        assert(e != epic_id);
        assert(t.lists(e, x));
    }
    assert forall|e: u32, x: u32| #[trigger] t.lists(e, x) implies t.stories.contains_key(x) by {
        assert(!s.epics[epic_id].stories.to_set().contains(x));
    }
    assert forall|k: u32, i: int|
        t.epics.contains_key(k) && 0 <= i < t.epics[k].stories.len() implies #[trigger] t.epics[k].stories[i]
        <= t.last_item_id by {
        assert(s.epics[k].stories[i] <= s.last_item_id);
    }
}

/// Deleting a story through the epic that lists it keeps the invariant.
pub proof fn lemma_delete_story_keeps_wf(s: DBStateView, epic_id: u32, story_id: u32)
    requires
        s.wf(),
        s.lists(epic_id, story_id),
    ensures
        s.without_story(epic_id, story_id).wf(),
{
    let t = s.without_story(epic_id, story_id);
    let old_list = s.epics[epic_id].stories;
    let kept = old_list.filter(other_than(story_id));
    assert(t.epics[epic_id].stories == kept);
    assert forall|x: u32| kept.contains(x) <==> old_list.contains(x) && x != story_id by {
        if kept.contains(x) {
            let i = choose|i: int| 0 <= i < kept.len() && kept[i] == x;
            old_list.lemma_filter_pred(other_than(story_id), i);
            old_list.lemma_filter_contains_rev(other_than(story_id), x);
        }
        if old_list.contains(x) && x != story_id {
            let i = choose|i: int| 0 <= i < old_list.len() && old_list[i] == x;
            old_list.lemma_filter_contains(other_than(story_id), i);
        }
    }
    assert forall|e: u32, x: u32| #[trigger] t.lists(e, x) implies s.lists(e, x) && x != story_id by {
        if e != epic_id && x == story_id {
            assert(s.lists(e, x));
        }
    }
    assert forall|x: u32| #[trigger] t.stories.contains_key(x) implies exists|e: u32| #[trigger]
        t.lists(e, x) by {
        let e = choose|e: u32| #[trigger] s.lists(e, x);
        assert(t.lists(e, x));
    }
    assert forall|k: u32, i: int|
        t.epics.contains_key(k) && 0 <= i < t.epics[k].stories.len() implies #[trigger] t.epics[k].stories[i]
        <= t.last_item_id by {
        if k == epic_id {
            assert(kept.contains(kept[i]));
            let j = choose|j: int| 0 <= j < old_list.len() && old_list[j] == kept[i];
            assert(old_list[j] <= s.last_item_id);
        } else {
            assert(s.epics[k].stories[i] <= s.last_item_id);
        }
    }
}

/// Setting the status of an existing epic or story keeps the invariant.
pub proof fn lemma_status_updates_keep_wf(s: DBStateView, id: u32, status: Status)
    requires
        s.wf(),
    ensures
        s.epics.contains_key(id) ==> s.with_epic_status(id, status).wf(),
        s.stories.contains_key(id) ==> s.with_story_status(id, status).wf(),
{
    if s.epics.contains_key(id) {
        let t = s.with_epic_status(id, status);
        assert forall|e: u32, x: u32| #[trigger] t.lists(e, x) <==> s.lists(e, x) by {}
        assert forall|x: u32| #[trigger] t.stories.contains_key(x) implies exists|e: u32| #[trigger]
            t.lists(e, x) by {
            let e = choose|e: u32| #[trigger] s.lists(e, x);
            assert(t.lists(e, x));
        }
        assert forall|k: u32, i: int|
            t.epics.contains_key(k) && 0 <= i < t.epics[k].stories.len() implies #[trigger] t.epics[k].stories[i]
            <= t.last_item_id by {
            assert(s.epics[k].stories[i] <= s.last_item_id);
        }
    }
    if s.stories.contains_key(id) {
        let t = s.with_story_status(id, status);
        assert forall|e: u32, x: u32| #[trigger] t.lists(e, x) implies t.stories.contains_key(x) by {
            assert(s.lists(e, x));
        }
        assert forall|k: u32| !(#[trigger] t.epics.contains_key(k) && t.stories.contains_key(k)) by {
            assert(!(s.epics.contains_key(k) && s.stories.contains_key(k)));
        }
        assert(t.epics == s.epics);
        assert forall|e1: u32, e2: u32, x: u32|
            #[trigger] t.lists(e1, x) && #[trigger] t.lists(e2, x) implies e1 == e2 by {
            assert(s.lists(e1, x) && s.lists(e2, x));
        }
        assert(t.ids_within_counter());
        assert forall|x: u32| #[trigger] t.stories.contains_key(x) implies exists|e: u32| #[trigger]
            t.lists(e, x) by {
            let e = choose|e: u32| #[trigger] s.lists(e, x);
            assert(t.lists(e, x));
        }
    }
}

} // verus!
