//! How stored ideas and comments are shown to a viewer: counts, the viewer's
//! rights, and the order of lists.

use vstd::prelude::*;
use crate::domain::{status_from_text, Comment, Idea, IdeaStatus, PublicUser};
use crate::policy::{is_viewer, may_change_status, may_delete, may_edit};

verus! {

broadcast use vstd::seq_lib::group_to_multiset_ensures;

/// An idea as stored.
pub struct IdeaRow {
    pub id: String,
    pub title: String,
    pub body: String,
    pub problem: String,
    pub status: String,
    pub author_user_id: String,
    pub author: PublicUser,
    pub created_at: i64,
    pub updated_at: i64,
}

/// A comment as stored.
pub struct CommentRow {
    pub id: String,
    pub idea_id: String,
    pub body: String,
    pub author_user_id: String,
    pub author: PublicUser,
    pub created_at: i64,
    pub updated_at: i64,
}

/// One upvote: `user_id` upvoted the idea or comment `target_id`.
pub struct Vote {
    pub target_id: String,
    pub user_id: String,
}

/// The number of votes for `target`.
pub open spec fn votes_for(votes: Seq<Vote>, target: Seq<char>) -> nat
    decreases votes.len(),
{
    if votes.len() == 0 {
        0
    } else {
        votes_for(votes.drop_last(), target) + if votes.last().target_id@ == target {
            1nat
        } else {
            0nat
        }
    }
}

/// Whether `user` upvoted `target`.
pub open spec fn has_vote(votes: Seq<Vote>, target: Seq<char>, user: Seq<char>) -> bool {
    exists|i: int|
        0 <= i < votes.len() && (#[trigger] votes[i]).target_id@ == target && votes[i].user_id@
            == user
}

/// The number of entries of `ids` equal to `target`.
pub open spec fn occurrences(ids: Seq<String>, target: Seq<char>) -> nat
    decreases ids.len(),
{
    if ids.len() == 0 {
        0
    } else {
        occurrences(ids.drop_last(), target) + if ids.last()@ == target {
            1nat
        } else {
            0nat
        }
    }
}

/// Whether the viewer, if signed in, upvoted `target`.
pub open spec fn viewer_voted(votes: Seq<Vote>, target: Seq<char>, viewer: Option<String>) -> bool {
    match viewer {
        Some(v) => has_vote(votes, target, v@),
        None => false,
    }
}

/// The idea that `row` is, seen by `viewer`, given all upvotes and the idea ids of all comments.
pub open spec fn idea_view(
    row: IdeaRow,
    votes: Seq<Vote>,
    comment_idea_ids: Seq<String>,
    viewer: Option<String>,
    moderator: bool,
) -> Idea {
    let status = status_from_text(row.status@);
    Idea {
        id: row.id,
        title: row.title,
        body_text: row.body,
        problem: row.problem,
        upvote_count: votes_for(votes, row.id@) as i64,
        comment_count: occurrences(comment_idea_ids, row.id@) as i64,
        viewer_has_upvoted: viewer_voted(votes, row.id@, viewer),
        viewer_can_edit: may_edit(viewer, row.author_user_id@),
        viewer_can_delete: may_delete(viewer, row.author_user_id@, moderator),
        viewer_can_close: may_change_status(moderator),
        author: row.author,
        created_at: row.created_at,
        updated_at: row.updated_at,
        status: status,
        closed: status == IdeaStatus::Closed,
    }
}

/// The comment that `row` is, seen by `viewer`, given all comment upvotes.
pub open spec fn comment_view(
    row: CommentRow,
    votes: Seq<Vote>,
    viewer: Option<String>,
    moderator: bool,
) -> Comment {
    Comment {
        id: row.id,
        idea_id: row.idea_id,
        body_text: row.body,
        upvote_count: votes_for(votes, row.id@) as i64,
        viewer_has_upvoted: viewer_voted(votes, row.id@, viewer),
        viewer_can_edit: may_edit(viewer, row.author_user_id@),
        viewer_can_delete: may_delete(viewer, row.author_user_id@, moderator),
        author: row.author,
        created_at: row.created_at,
        updated_at: row.updated_at,
    }
}

/// Ideas are listed by upvotes, most first, then newest first: may `a` stand before `b`?
pub open spec fn idea_ranks_before(a: Idea, b: Idea) -> bool {
    a.upvote_count > b.upvote_count || (a.upvote_count == b.upvote_count && a.created_at
        >= b.created_at)
}

pub open spec fn ideas_ranked(s: Seq<Idea>) -> bool {
    forall|i: int, j: int| 0 <= i < j < s.len() ==> idea_ranks_before(#[trigger] s[i], #[trigger] s[j])
}

/// Law: ideas are ordered by upvote count alone, most first, and among equal
/// counts by creation time, newest first; comment counts and everything else about
/// an idea play no part.
pub proof fn lemma_ranking_is_upvotes_then_newest(a: Idea, b: Idea)
    ensures
        a.upvote_count > b.upvote_count ==> idea_ranks_before(a, b) && !idea_ranks_before(b, a),
        a.upvote_count == b.upvote_count ==> (idea_ranks_before(a, b) <==> a.created_at
            >= b.created_at),
        a.upvote_count == b.upvote_count && a.created_at == b.created_at ==> idea_ranks_before(
            a,
            b,
        ) && idea_ranks_before(b, a),
{
}

/// Law: in a ranked list every idea has at least as many upvotes as any idea after
/// it, and, with as many, was created no earlier.
pub proof fn lemma_ranked_list_order(s: Seq<Idea>, i: int, j: int)
    requires
        ideas_ranked(s),
        0 <= i < j < s.len(),
    ensures
        s[i].upvote_count >= s[j].upvote_count,
        s[i].upvote_count == s[j].upvote_count ==> s[i].created_at >= s[j].created_at,
{
    assert(idea_ranks_before(s[i], s[j]));
}

/// Comments are listed oldest first.
pub open spec fn comments_chronological(s: Seq<Comment>) -> bool {
    forall|i: int, j: int|
        0 <= i < j < s.len() ==> (#[trigger] s[i]).created_at <= (#[trigger] s[j]).created_at
}

/// `t` is the comment to promote: it has upvotes, none has more, and none before it has as many.
pub open spec fn is_top_comment(s: Seq<Comment>, t: int) -> bool {
    &&& 0 <= t < s.len()
    &&& s[t].upvote_count > 0
    &&& forall|j: int| 0 <= j < s.len() ==> (#[trigger] s[j]).upvote_count <= s[t].upvote_count
    &&& forall|j: int| 0 <= j < t ==> (#[trigger] s[j]).upvote_count < s[t].upvote_count
}

/// `r` is `s` with its most upvoted comment moved to the front, or `s` itself when
/// no comment has an upvote.
pub open spec fn promoted(s: Seq<Comment>, r: Seq<Comment>) -> bool {
    if exists|t: int| is_top_comment(s, t) {
        exists|t: int| is_top_comment(s, t) && r == seq![s[t]] + s.remove(t)
    } else {
        r == s
    }
}

pub fn count_votes(votes: &Vec<Vote>, target: &String) -> (n: usize)
    ensures
        n == votes_for(votes@, target@),
{
    let mut n: usize = 0;
    let mut i: usize = 0;
    while i < votes.len()
        invariant
            i <= votes@.len(),
            n == votes_for(votes@.take(i as int), target@),
            n <= i,
        decreases votes@.len() - i,
    {
        assert(votes@.take(i + 1).drop_last() == votes@.take(i as int));
        if votes[i].target_id == *target {
            n = n + 1;
        }
        i = i + 1;
    }
    assert(votes@.take(votes@.len() as int) == votes@);
    n
}

pub fn count_occurrences(ids: &Vec<String>, target: &String) -> (n: usize)
    ensures
        n == occurrences(ids@, target@),
{
    let mut n: usize = 0;
    let mut i: usize = 0;
    while i < ids.len()
        invariant
            i <= ids@.len(),
            n == occurrences(ids@.take(i as int), target@),
            n <= i,
        decreases ids@.len() - i,
    {
        assert(ids@.take(i + 1).drop_last() == ids@.take(i as int));
        if ids[i] == *target {
            n = n + 1;
        }
        i = i + 1;
    }
    assert(ids@.take(ids@.len() as int) == ids@);
    n
}

proof fn lemma_votes_for_bound(votes: Seq<Vote>, target: Seq<char>)
    ensures
        votes_for(votes, target) <= votes.len(),
    decreases votes.len(),
{
    if votes.len() > 0 {
        lemma_votes_for_bound(votes.drop_last(), target);
    }
}

proof fn lemma_occurrences_bound(ids: Seq<String>, target: Seq<char>)
    ensures
        occurrences(ids, target) <= ids.len(),
    decreases ids.len(),
{
    if ids.len() > 0 {
        lemma_occurrences_bound(ids.drop_last(), target);
    }
}

pub fn voted(votes: &Vec<Vote>, target: &String, viewer: &Option<String>) -> (r: bool)
    ensures
        r == viewer_voted(votes@, target@, *viewer),
{
    match viewer {
        None => false,
        Some(v) => {
            let mut i: usize = 0;
            while i < votes.len()
                invariant
                    i <= votes@.len(),
                    *viewer == Some(*v),
                    forall|k: int|
                        0 <= k < i ==> !((#[trigger] votes@[k]).target_id@ == target@
                            && votes@[k].user_id@ == v@),
                decreases votes@.len() - i,
            {
                if votes[i].target_id == *target && votes[i].user_id == *v {
                    assert((#[trigger] votes@[i as int]).target_id@ == target@
                        && votes@[i as int].user_id@ == v@);
                    return true;
                }
                i = i + 1;
            }
            false
        },
    }
}

/// The idea that `row` is, seen by `viewer`.
pub fn build_idea(
    row: &IdeaRow,
    votes: &Vec<Vote>,
    comment_idea_ids: &Vec<String>,
    viewer: &Option<String>,
    viewer_is_moderator: bool,
) -> (r: Idea)
    requires
        votes@.len() <= i64::MAX,
        comment_idea_ids@.len() <= i64::MAX,
    ensures
        r == idea_view(*row, votes@, comment_idea_ids@, *viewer, viewer_is_moderator),
{
    proof {
        lemma_votes_for_bound(votes@, row.id@);
        lemma_occurrences_bound(comment_idea_ids@, row.id@);
    }
    let upvotes = count_votes(votes, &row.id);
    let comments = count_occurrences(comment_idea_ids, &row.id);
    let status = IdeaStatus::from_db(row.status.as_str());
    let can_edit = is_viewer(viewer, &row.author_user_id);
    Idea {
        id: row.id.clone(),
        title: row.title.clone(),
        body_text: row.body.clone(),
        problem: row.problem.clone(),
        upvote_count: upvotes as i64,
        comment_count: comments as i64,
        viewer_has_upvoted: voted(votes, &row.id, viewer),
        viewer_can_edit: can_edit,
        viewer_can_delete: can_edit || viewer_is_moderator,
        viewer_can_close: viewer_is_moderator,
        author: row.author.duplicate(),
        created_at: row.created_at,
        updated_at: row.updated_at,
        status: status,
        closed: status == IdeaStatus::Closed,
    }
}

/// The comment that `row` is, seen by `viewer`.
pub fn build_comment(
    row: &CommentRow,
    votes: &Vec<Vote>,
    viewer: &Option<String>,
    viewer_is_moderator: bool,
) -> (r: Comment)
    requires
        votes@.len() <= i64::MAX,
    ensures
        r == comment_view(*row, votes@, *viewer, viewer_is_moderator),
{
    proof {
        lemma_votes_for_bound(votes@, row.id@);
    }
    let upvotes = count_votes(votes, &row.id);
    let can_edit = is_viewer(viewer, &row.author_user_id);
    Comment {
        id: row.id.clone(),
        idea_id: row.idea_id.clone(),
        body_text: row.body.clone(),
        upvote_count: upvotes as i64,
        viewer_has_upvoted: voted(votes, &row.id, viewer),
        viewer_can_edit: can_edit,
        viewer_can_delete: can_edit || viewer_is_moderator,
        author: row.author.duplicate(),
        created_at: row.created_at,
        updated_at: row.updated_at,
    }
}

/// Inserts `x` into the ranked `s`, after every idea that may stand before it.
fn insert_ranked(s: &mut Vec<Idea>, x: Idea)
    requires
        ideas_ranked(old(s)@),
    ensures
        ideas_ranked(final(s)@),
        final(s)@.to_multiset() == old(s)@.to_multiset().insert(x),
{
    let mut p: usize = 0;
    while p < s.len() && (s[p].upvote_count > x.upvote_count || (s[p].upvote_count
        == x.upvote_count && s[p].created_at >= x.created_at))
        invariant
            p <= s@.len(),
            s@ == old(s)@,
            forall|k: int| 0 <= k < p ==> idea_ranks_before(#[trigger] s@[k], x),
        decreases s@.len() - p,
    {
        p = p + 1;
    }
    let ghost before = s@;
    s.insert(p, x);
    proof {
        before.insert_ensures(p as int, x);
        assert(s@ == before.insert(p as int, x));
        assert forall|i: int, j: int| 0 <= i < j < s@.len() implies idea_ranks_before(
            #[trigger] s@[i],
            #[trigger] s@[j],
        ) by {
            if j < p {
                assert(s@[i] == before[i] && s@[j] == before[j]);
            } else if j == p {
                assert(s@[i] == before[i]);
            } else if i == p {
                assert(s@[j] == before[j - 1]);
                assert(idea_ranks_before(before[p as int], before[j - 1]));
            } else if i < p {
                assert(s@[i] == before[i] && s@[j] == before[j - 1]);
            } else {
                assert(s@[i] == before[i - 1] && s@[j] == before[j - 1]);
            }
        }
    }
}

/// All ideas seen by `viewer`, most upvoted first and, among equals, newest first.
pub fn list_ideas_view(
    rows: &Vec<IdeaRow>,
    votes: &Vec<Vote>,
    comment_idea_ids: &Vec<String>,
    viewer: &Option<String>,
    viewer_is_moderator: bool,
) -> (r: Vec<Idea>)
    requires
        votes@.len() <= i64::MAX,
        comment_idea_ids@.len() <= i64::MAX,
    ensures
        ideas_ranked(r@),
        r@.to_multiset() == rows@.map_values(
            |row: IdeaRow| idea_view(row, votes@, comment_idea_ids@, *viewer, viewer_is_moderator),
        ).to_multiset(),
{
    let ghost all = rows@.map_values(
        |row: IdeaRow| idea_view(row, votes@, comment_idea_ids@, *viewer, viewer_is_moderator),
    );
    let mut r: Vec<Idea> = Vec::new();
    let mut i: usize = 0;
    while i < rows.len()
        invariant
            i <= rows@.len(),
            all == rows@.map_values(
                |row: IdeaRow|
                    idea_view(row, votes@, comment_idea_ids@, *viewer, viewer_is_moderator),
            ),
            votes@.len() <= i64::MAX,
            comment_idea_ids@.len() <= i64::MAX,
            ideas_ranked(r@),
            r@.to_multiset() == all.take(i as int).to_multiset(),
        decreases rows@.len() - i,
    {
        let idea = build_idea(&rows[i], votes, comment_idea_ids, viewer, viewer_is_moderator);
        assert(all.take(i + 1) == all.take(i as int).push(all[i as int]));
        insert_ranked(&mut r, idea);
        i = i + 1;
    }
    assert(all.take(rows@.len() as int) == all);
    r
}

/// Inserts `x` into the chronological `s`, after every comment not newer than it.
fn insert_chronological(s: &mut Vec<Comment>, x: Comment)
    requires
        comments_chronological(old(s)@),
    ensures
        comments_chronological(final(s)@),
        final(s)@.to_multiset() == old(s)@.to_multiset().insert(x),
{
    let mut p: usize = 0;
    while p < s.len() && s[p].created_at <= x.created_at
        invariant
            p <= s@.len(),
            s@ == old(s)@,
            forall|k: int| 0 <= k < p ==> (#[trigger] s@[k]).created_at <= x.created_at,
        decreases s@.len() - p,
    {
        p = p + 1;
    }
    let ghost before = s@;
    s.insert(p, x);
    proof {
        before.insert_ensures(p as int, x);
        assert(s@ == before.insert(p as int, x));
        assert forall|i: int, j: int| 0 <= i < j < s@.len() implies (#[trigger] s@[i]).created_at
            <= (#[trigger] s@[j]).created_at by {
            if j < p {
                assert(s@[i] == before[i] && s@[j] == before[j]);
            } else if j == p {
                assert(s@[i] == before[i]);
            } else if i == p {
                assert(s@[j] == before[j - 1]);
                assert(before[p as int].created_at <= before[j - 1].created_at);
            } else if i < p {
                assert(s@[i] == before[i] && s@[j] == before[j - 1]);
            } else {
                assert(s@[i] == before[i - 1] && s@[j] == before[j - 1]);
            }
        }
    }
}

/// Moves the most upvoted comment (the first of them, if several tie) to the front.
pub fn promote_most_upvoted_comment(comments: &mut Vec<Comment>)
    ensures
        promoted(old(comments)@, final(comments)@),
{
    let ghost s = comments@;
    let mut best: Option<usize> = None;
    let mut i: usize = 0;
    while i < comments.len()
        invariant
            i <= comments@.len(),
            comments@ == s,
            match best {
                None => forall|j: int| 0 <= j < i ==> (#[trigger] s[j]).upvote_count <= 0,
                Some(t) => {
                    &&& t < i
                    &&& s[t as int].upvote_count > 0
                    &&& forall|j: int|
                        0 <= j < i ==> (#[trigger] s[j]).upvote_count <= s[t as int].upvote_count
                    &&& forall|j: int|
                        0 <= j < t ==> (#[trigger] s[j]).upvote_count < s[t as int].upvote_count
                },
            },
        decreases comments@.len() - i,
    {
        let c = comments[i].upvote_count;
        if c > 0 {
            match best {
                Some(t) => {
                    if comments[t].upvote_count < c {
                        best = Some(i);
                    }
                },
                None => {
                    best = Some(i);
                },
            }
        }
        i = i + 1;
    }
    match best {
        None => {
            assert(!exists|t: int| is_top_comment(s, t));
        },
        Some(t) => {
            assert(is_top_comment(s, t as int));
            if t != 0 {
                let top = comments.remove(t);
                comments.insert(0, top);
                assert(comments@ =~= seq![s[t as int]] + s.remove(t as int));
            } else {
                assert(s.remove(0) =~= s.drop_first());
                assert(comments@ =~= seq![s[0]] + s.remove(0));
            }
        },
    }
}

/// The comments seen by `viewer`, oldest first, with the most upvoted one moved to the front.
pub fn list_comments_view(
    rows: &Vec<CommentRow>,
    votes: &Vec<Vote>,
    viewer: &Option<String>,
    viewer_is_moderator: bool,
) -> (r: Vec<Comment>)
    requires
        votes@.len() <= i64::MAX,
    ensures
        exists|s: Seq<Comment>|
            {
                &&& comments_chronological(s)
                &&& s.to_multiset() == rows@.map_values(
                    |row: CommentRow| comment_view(row, votes@, *viewer, viewer_is_moderator),
                ).to_multiset()
                &&& promoted(s, r@)
            },
{
    let ghost all = rows@.map_values(
        |row: CommentRow| comment_view(row, votes@, *viewer, viewer_is_moderator),
    );
    let mut r: Vec<Comment> = Vec::new();
    let mut i: usize = 0;
    while i < rows.len()
        invariant
            i <= rows@.len(),
            all == rows@.map_values(
                |row: CommentRow| comment_view(row, votes@, *viewer, viewer_is_moderator),
            ),
            votes@.len() <= i64::MAX,
            comments_chronological(r@),
            r@.to_multiset() == all.take(i as int).to_multiset(),
        decreases rows@.len() - i,
    {
        let comment = build_comment(&rows[i], votes, viewer, viewer_is_moderator);
        assert(all.take(i + 1) == all.take(i as int).push(all[i as int]));
        insert_chronological(&mut r, comment);
        i = i + 1;
    }
    assert(all.take(rows@.len() as int) == all);
    let ghost sorted = r@;
    promote_most_upvoted_comment(&mut r);
    assert(comments_chronological(sorted) && sorted.to_multiset() == all.to_multiset() && promoted(
        sorted,
        r@,
    ));
    r
}

/// Law: promoting a comment neither adds, drops nor changes any comment.
pub proof fn lemma_promotion_keeps_comments(s: Seq<Comment>, r: Seq<Comment>)
    requires
        promoted(s, r),
    ensures
        r.to_multiset() == s.to_multiset(),
        r.len() == s.len(),
{
    if exists|t: int| is_top_comment(s, t) {
        let t = choose|t: int| is_top_comment(s, t) && r == seq![s[t]] + s.remove(t);
        assert(seq![s[t]] + s.remove(t) == s.remove(t).insert(0, s[t]));
        vstd::seq_lib::to_multiset_insert(s.remove(t), 0, s[t]);
        vstd::seq_lib::to_multiset_remove(s, t);
        assert(s.to_multiset().remove(s[t]).insert(s[t]) =~= s.to_multiset());
    }
    r.to_multiset_ensures();
    s.to_multiset_ensures();
}

/// Law: after promotion, the comments other than the front one keep their chronological order.
pub proof fn lemma_promotion_keeps_order_of_rest(s: Seq<Comment>, r: Seq<Comment>)
    requires
        promoted(s, r),
        comments_chronological(s),
        r.len() > 0,
    ensures
        comments_chronological(r.drop_first()),
{
    if exists|t: int| is_top_comment(s, t) {
        let t = choose|t: int| is_top_comment(s, t) && r == seq![s[t]] + s.remove(t);
        assert(r.drop_first() =~= s.remove(t));
        assert forall|i: int, j: int| 0 <= i < j < r.drop_first().len() implies (
        #[trigger] r.drop_first()[i]).created_at <= (#[trigger] r.drop_first()[j]).created_at by {
            let a = if i < t { i } else { i + 1 };
            let b = if j < t { j } else { j + 1 };
            assert(r.drop_first()[i] == s[a]);
            assert(r.drop_first()[j] == s[b]);
        }
    } else {
        assert forall|i: int, j: int| 0 <= i < j < r.drop_first().len() implies (
        #[trigger] r.drop_first()[i]).created_at <= (#[trigger] r.drop_first()[j]).created_at by {
            assert(r.drop_first()[i] == s[i + 1]);
            assert(r.drop_first()[j] == s[j + 1]);
        }
    }
}

/// Law: the rights an idea shows its signed-in viewer are exactly the changes the
/// store accepts from that viewer (`authorize_edit`, `authorize_delete`,
/// `authorize_status_change` state their outcomes with the same predicates).
pub proof fn lemma_idea_rights_match_authorization(
    row: IdeaRow,
    votes: Seq<Vote>,
    comment_idea_ids: Seq<String>,
    viewer_id: String,
    moderator: bool,
)
    ensures
        ({
            let idea = idea_view(row, votes, comment_idea_ids, Some(viewer_id), moderator);
            &&& idea.viewer_can_edit == may_edit(Some(viewer_id), row.author_user_id@)
            &&& idea.viewer_can_edit == (viewer_id@ == row.author_user_id@)
            &&& idea.viewer_can_delete == may_delete(Some(viewer_id), row.author_user_id@, moderator)
            &&& idea.viewer_can_close == may_change_status(moderator)
        }),
{
}

/// Law: an anonymous viewer is shown no right to change an idea, and no upvote of theirs.
pub proof fn lemma_anonymous_has_no_rights(
    row: IdeaRow,
    votes: Seq<Vote>,
    comment_idea_ids: Seq<String>,
)
    ensures
        ({
            let idea = idea_view(row, votes, comment_idea_ids, None, false);
            !idea.viewer_can_edit && !idea.viewer_can_delete && !idea.viewer_can_close
                && !idea.viewer_has_upvoted
        }),
{
}

/// Law: the rights a comment shows its signed-in viewer are exactly the changes the
/// store accepts from that viewer.
pub proof fn lemma_comment_rights_match_authorization(
    row: CommentRow,
    votes: Seq<Vote>,
    viewer_id: String,
    moderator: bool,
)
    ensures
        ({
            let c = comment_view(row, votes, Some(viewer_id), moderator);
            &&& c.viewer_can_edit == may_edit(Some(viewer_id), row.author_user_id@)
            &&& c.viewer_can_delete == may_delete(Some(viewer_id), row.author_user_id@, moderator)
        }),
{
}

/// Law: an idea is shown as closed exactly when its status is closed.
pub proof fn lemma_closed_iff_status_closed(
    row: IdeaRow,
    votes: Seq<Vote>,
    comment_idea_ids: Seq<String>,
    viewer: Option<String>,
    moderator: bool,
)
    ensures
        idea_view(row, votes, comment_idea_ids, viewer, moderator).closed <==> idea_view(
            row,
            votes,
            comment_idea_ids,
            viewer,
            moderator,
        ).status == IdeaStatus::Closed,
{
}

/// The votes of `votes` for `target`, in their order.
pub open spec fn votes_on(votes: Seq<Vote>, target: Seq<char>) -> Seq<Vote>
    decreases votes.len(),
{
    if votes.len() == 0 {
        votes
    } else {
        let before = votes_on(votes.drop_last(), target);
        if votes.last().target_id@ == target {
            before.push(votes.last())
        } else {
            before
        }
    }
}

/// The entries of `ids` equal to `target`.
pub open spec fn ids_on(ids: Seq<String>, target: Seq<char>) -> Seq<String>
    decreases ids.len(),
{
    if ids.len() == 0 {
        ids
    } else {
        let before = ids_on(ids.drop_last(), target);
        if ids.last()@ == target {
            before.push(ids.last())
        } else {
            before
        }
    }
}

proof fn lemma_votes_on_keeps_target(votes: Seq<Vote>, target: Seq<char>, user: Seq<char>)
    ensures
        votes_for(votes_on(votes, target), target) == votes_for(votes, target),
        has_vote(votes_on(votes, target), target, user) == has_vote(votes, target, user),
    decreases votes.len(),
{
    if votes.len() > 0 {
        let rest = votes.drop_last();
        let before = votes_on(rest, target);
        lemma_votes_on_keeps_target(rest, target, user);
        let f = votes_on(votes, target);
        if votes.last().target_id@ == target {
            assert(f.drop_last() == before);
            assert(f.last() == votes.last());
        }
        if has_vote(votes, target, user) {
            let i = choose|i: int|
                0 <= i < votes.len() && (#[trigger] votes[i]).target_id@ == target
                    && votes[i].user_id@ == user;
            if i < votes.len() - 1 {
                assert(rest[i] == votes[i]);
                let j = choose|j: int|
                    0 <= j < before.len() && (#[trigger] before[j]).target_id@ == target
                        && before[j].user_id@ == user;
                if votes.last().target_id@ == target {
                    assert(f[j] == before[j]);
                }
            } else {
                assert(f[f.len() - 1] == votes.last());
            }
        }
        if has_vote(f, target, user) {
            let i = choose|i: int|
                0 <= i < f.len() && (#[trigger] f[i]).target_id@ == target && f[i].user_id@ == user;
            if votes.last().target_id@ == target && i == f.len() - 1 {
                assert(votes[votes.len() - 1] == votes.last());
            } else {
                assert(before[i] == f[i]);
                let j = choose|j: int|
                    0 <= j < rest.len() && (#[trigger] rest[j]).target_id@ == target
                        && rest[j].user_id@ == user;
                assert(votes[j] == rest[j]);
            }
        }
    }
}

proof fn lemma_ids_on_keeps_target(ids: Seq<String>, target: Seq<char>)
    ensures
        occurrences(ids_on(ids, target), target) == occurrences(ids, target),
    decreases ids.len(),
{
    if ids.len() > 0 {
        lemma_ids_on_keeps_target(ids.drop_last(), target);
        let f = ids_on(ids, target);
        if ids.last()@ == target {
            assert(f.drop_last() == ids_on(ids.drop_last(), target));
        }
    }
}

/// Law: an idea seen on its own, given only its own upvotes and comments, is the
/// idea as the list shows it, given every upvote and comment.
pub proof fn lemma_single_idea_matches_listing(
    row: IdeaRow,
    votes: Seq<Vote>,
    comment_idea_ids: Seq<String>,
    viewer: Option<String>,
    moderator: bool,
)
    ensures
        idea_view(
            row,
            votes_on(votes, row.id@),
            ids_on(comment_idea_ids, row.id@),
            viewer,
            moderator,
        ) == idea_view(row, votes, comment_idea_ids, viewer, moderator),
{
    let u = match viewer {
        Some(v) => v@,
        None => Seq::<char>::empty(),
    };
    lemma_votes_on_keeps_target(votes, row.id@, u);
    lemma_ids_on_keeps_target(comment_idea_ids, row.id@);
}

/// Law: a comment seen on its own, given only its own upvotes, is the comment as
/// the idea's comment list shows it, given every comment upvote.
pub proof fn lemma_single_comment_matches_listing(
    row: CommentRow,
    votes: Seq<Vote>,
    viewer: Option<String>,
    moderator: bool,
)
    ensures
        comment_view(row, votes_on(votes, row.id@), viewer, moderator) == comment_view(
            row,
            votes,
            viewer,
            moderator,
        ),
{
    let u = match viewer {
        Some(v) => v@,
        None => Seq::<char>::empty(),
    };
    lemma_votes_on_keeps_target(votes, row.id@, u);
}

/// No user's vote for a target is stored twice.
pub open spec fn unique_votes(votes: Seq<Vote>) -> bool {
    forall|i: int, j: int|
        0 <= i < j < votes.len() ==> !((#[trigger] votes[i]).target_id@ == (
        #[trigger] votes[j]).target_id@ && votes[i].user_id@ == votes[j].user_id@)
}

/// The users who upvoted `target`.
pub open spec fn voters(votes: Seq<Vote>, target: Seq<char>) -> Set<Seq<char>>
    decreases votes.len(),
{
    if votes.len() == 0 {
        Set::empty()
    } else {
        let before = voters(votes.drop_last(), target);
        if votes.last().target_id@ == target {
            before.insert(votes.last().user_id@)
        } else {
            before
        }
    }
}

proof fn lemma_voters_are_has_vote(votes: Seq<Vote>, target: Seq<char>, user: Seq<char>)
    ensures
        voters(votes, target).contains(user) == has_vote(votes, target, user),
        voters(votes, target).finite(),
    decreases votes.len(),
{
    if votes.len() > 0 {
        let rest = votes.drop_last();
        lemma_voters_are_has_vote(rest, target, user);
        if has_vote(votes, target, user) {
            let i = choose|i: int|
                0 <= i < votes.len() && (#[trigger] votes[i]).target_id@ == target
                    && votes[i].user_id@ == user;
            if i < votes.len() - 1 {
                assert(rest[i] == votes[i]);
            }
        }
        if has_vote(rest, target, user) {
            let i = choose|i: int|
                0 <= i < rest.len() && (#[trigger] rest[i]).target_id@ == target
                    && rest[i].user_id@ == user;
            assert(votes[i] == rest[i]);
        }
        if votes.last().target_id@ == target && votes.last().user_id@ == user {
            assert(votes[votes.len() - 1] == votes.last());
        }
    }
}

/// Law: while no user's vote for an idea or comment is stored twice (the upvote
/// tables' primary keys), its upvote count is the number of distinct users who
/// upvoted it, and a user is shown as having upvoted exactly when among them.
pub proof fn lemma_upvote_count_is_distinct_voters(votes: Seq<Vote>, target: Seq<char>)
    requires
        unique_votes(votes),
    ensures
        voters(votes, target).finite(),
        votes_for(votes, target) == voters(votes, target).len(),
        forall|user: Seq<char>| #[trigger]
            voters(votes, target).contains(user) == has_vote(votes, target, user),
    decreases votes.len(),
{
    assert forall|user: Seq<char>| #[trigger]
        voters(votes, target).contains(user) == has_vote(votes, target, user) by {
        lemma_voters_are_has_vote(votes, target, user);
    }
    lemma_voters_are_has_vote(votes, target, Seq::empty());
    if votes.len() > 0 {
        let rest = votes.drop_last();
        assert forall|i: int, j: int| 0 <= i < j < rest.len() implies !((
        #[trigger] rest[i]).target_id@ == (#[trigger] rest[j]).target_id@ && rest[i].user_id@
            == rest[j].user_id@) by {
            assert(rest[i] == votes[i] && rest[j] == votes[j]);
        }
        lemma_upvote_count_is_distinct_voters(rest, target);
        let last = votes.last();
        if last.target_id@ == target {
            lemma_voters_are_has_vote(rest, target, last.user_id@);
            if has_vote(rest, target, last.user_id@) {
                let i = choose|i: int|
                    0 <= i < rest.len() && (#[trigger] rest[i]).target_id@ == target
                        && rest[i].user_id@ == last.user_id@;
                assert(votes[i] == rest[i]);
                assert(votes[votes.len() - 1] == last);
                assert(false);
            }
        }
    }
}

proof fn lemma_max_index(s: Seq<Comment>, n: int) -> (b: int)
    requires
        0 < n <= s.len(),
    ensures
        0 <= b < n,
        forall|j: int| 0 <= j < n ==> (#[trigger] s[j]).upvote_count <= s[b].upvote_count,
    decreases n,
{
    if n == 1 {
        0
    } else {
        let b = lemma_max_index(s, n - 1);
        if s[n - 1].upvote_count > s[b].upvote_count {
            n - 1
        } else {
            b
        }
    }
}

proof fn lemma_least_reaching(s: Seq<Comment>, v: i64, b: int) -> (t: int)
    requires
        0 <= b < s.len(),
        s[b].upvote_count >= v,
    ensures
        0 <= t <= b,
        s[t].upvote_count >= v,
        forall|j: int| 0 <= j < t ==> (#[trigger] s[j]).upvote_count < v,
    decreases b,
{
    if exists|j: int| 0 <= j < b && (#[trigger] s[j]).upvote_count >= v {
        let j = choose|j: int| 0 <= j < b && (#[trigger] s[j]).upvote_count >= v;
        lemma_least_reaching(s, v, j)
    } else {
        b
    }
}

/// Law: when some comment has an upvote, the front comment after promotion has
/// at least as many upvotes as any comment.
pub proof fn lemma_front_is_most_upvoted(s: Seq<Comment>, r: Seq<Comment>)
    requires
        promoted(s, r),
        exists|i: int| 0 <= i < s.len() && (#[trigger] s[i]).upvote_count > 0,
    ensures
        r.len() > 0,
        forall|j: int| 0 <= j < r.len() ==> (#[trigger] r[j]).upvote_count <= r[0].upvote_count,
{
    let i = choose|i: int| 0 <= i < s.len() && (#[trigger] s[i]).upvote_count > 0;
    let b = lemma_max_index(s, s.len() as int);
    let first = lemma_least_reaching(s, s[b].upvote_count, b);
    assert(s[i].upvote_count <= s[b].upvote_count);
    assert(is_top_comment(s, first));
    let t = choose|t: int| is_top_comment(s, t) && r == seq![s[t]] + s.remove(t);
    assert(r[0] == s[t]);
    assert forall|j: int| 0 <= j < r.len() implies (#[trigger] r[j]).upvote_count <= r[0].upvote_count by {
        if j > 0 {
            let a = if j - 1 < t { j - 1 } else { j };
            assert(r[j] == s.remove(t)[j - 1]);
            assert(s.remove(t)[j - 1] == s[a]);
        }
    }
}

} // verus!
