//! Who may do what to ideas and comments.
//!
//! Authors edit their own ideas and comments; authors and moderators delete
//! them; only moderators change an idea's status.

use vstd::prelude::*;
use crate::domain::IdeaStatus;

verus! {

/// The kind of record that a request names.
#[derive(Debug, Clone, Copy, PartialEq, Eq, Structural)]
pub enum Entity {
    Idea,
    Comment,
}

/// Why a store operation was refused.
#[derive(Debug, Clone, Copy, PartialEq, Eq, Structural)]
pub enum StorageError {
    NotFound(Entity),
}

impl Entity {
    pub fn name(self) -> (r: &'static str)
        ensures
            r@ == entity_name(self),
    {
        match self {
            Entity::Idea => "idea",
            Entity::Comment => "comment",
        }
    }
}

pub open spec fn entity_name(e: Entity) -> Seq<char> {
    match e {
        Entity::Idea => "idea"@,
        Entity::Comment => "comment"@,
    }
}

/// Whether the signed-in viewer, if any, is the user with id `user_id`.
pub open spec fn viewer_is(viewer: Option<String>, user_id: Seq<char>) -> bool {
    match viewer {
        Some(v) => v@ == user_id,
        None => false,
    }
}

/// May the viewer edit a record written by `author_id`?
pub open spec fn may_edit(viewer: Option<String>, author_id: Seq<char>) -> bool {
    viewer_is(viewer, author_id)
}

/// May the viewer delete a record written by `author_id`?
pub open spec fn may_delete(viewer: Option<String>, author_id: Seq<char>, moderator: bool) -> bool {
    viewer_is(viewer, author_id) || moderator
}

/// May the viewer open, close or mark an idea in progress?
pub open spec fn may_change_status(moderator: bool) -> bool {
    moderator
}

pub fn is_viewer(viewer: &Option<String>, user_id: &String) -> (r: bool)
    ensures
        r == viewer_is(*viewer, user_id@),
{
    match viewer {
        Some(v) => *v == *user_id,
        None => false,
    }
}

/// An edit by `actor` of a record whose author is `author` (`None`: no such record).
pub fn authorize_edit(author: &Option<String>, actor: &String, entity: Entity) -> (r: Result<
    (),
    StorageError,
>)
    ensures
        r is Ok <==> (author is Some && may_edit(Some(*actor), author->0@)),
        r is Err ==> r == Err::<(), StorageError>(StorageError::NotFound(entity)),
{
    match author {
        Some(a) => {
            if *a == *actor {
                Ok(())
            } else {
                Err(StorageError::NotFound(entity))
            }
        },
        None => Err(StorageError::NotFound(entity)),
    }
}

/// A deletion by `actor` of a record whose author is `author` (`None`: no such record).
pub fn authorize_delete(
    author: &Option<String>,
    actor: &String,
    actor_is_moderator: bool,
    entity: Entity,
) -> (r: Result<(), StorageError>)
    ensures
        r is Ok <==> (author is Some && may_delete(Some(*actor), author->0@, actor_is_moderator)),
        r is Err ==> r == Err::<(), StorageError>(StorageError::NotFound(entity)),
{
    match author {
        Some(a) => {
            if actor_is_moderator || *a == *actor {
                Ok(())
            } else {
                Err(StorageError::NotFound(entity))
            }
        },
        None => Err(StorageError::NotFound(entity)),
    }
}

/// A status change of an idea that exists when `idea_exists`.
pub fn authorize_status_change(idea_exists: bool, actor_is_moderator: bool) -> (r: Result<
    (),
    StorageError,
>)
    ensures
        r is Ok <==> (idea_exists && may_change_status(actor_is_moderator)),
        r is Err ==> r == Err::<(), StorageError>(StorageError::NotFound(Entity::Idea)),
{
    if !actor_is_moderator {
        return Err(StorageError::NotFound(Entity::Idea));
    }
    if !idea_exists {
        return Err(StorageError::NotFound(Entity::Idea));
    }
    Ok(())
}

/// An operation that needs the named record to exist.
pub fn require_exists(exists: bool, entity: Entity) -> (r: Result<(), StorageError>)
    ensures
        r is Ok <==> exists,
        r is Err ==> r == Err::<(), StorageError>(StorageError::NotFound(entity)),
{
    if exists {
        Ok(())
    } else {
        Err(StorageError::NotFound(entity))
    }
}

/// The status that closing (`true`) or reopening (`false`) sets.
pub fn status_for_closed(closed: bool) -> (s: IdeaStatus)
    ensures
        s == (if closed {
            IdeaStatus::Closed
        } else {
            IdeaStatus::Open
        }),
{
    if closed {
        IdeaStatus::Closed
    } else {
        IdeaStatus::Open
    }
}

/// Law: an author may edit and delete what they wrote, moderator or not.
pub proof fn lemma_author_edits_and_deletes_own(author_id: String, moderator: bool)
    ensures
        may_edit(Some(author_id), author_id@),
        may_delete(Some(author_id), author_id@, moderator),
{
}

/// Law: without moderation rights nobody changes an idea's status, its author included.
pub proof fn lemma_status_change_needs_moderator(idea_exists: bool)
    ensures
        !(idea_exists && may_change_status(false)),
{
}

/// Law: a moderator may delete any record and change the status of any idea.
pub proof fn lemma_moderator_deletes_and_moderates(viewer: Option<String>, author_id: Seq<char>)
    ensures
        may_delete(viewer, author_id, true),
        may_change_status(true),
{
}

/// Law: a viewer who is neither the author nor a moderator may do nothing to the record.
pub proof fn lemma_others_may_not_touch(viewer: Option<String>, author_id: Seq<char>)
    requires
        !viewer_is(viewer, author_id),
    ensures
        !may_edit(viewer, author_id),
        !may_delete(viewer, author_id, false),
        !may_change_status(false),
{
}

} // verus!
