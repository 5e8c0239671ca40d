use ideas::seed::seed_plan;
use ideas::domain::{IdeaStatus, PublicUser};
use ideas::listing::{
    build_comment, build_idea, list_comments_view, list_ideas_view, promote_most_upvoted_comment,
    CommentRow, IdeaRow, Vote,
};
use ideas::policy::{
    authorize_delete, authorize_edit, authorize_status_change, require_exists, status_for_closed,
    Entity, StorageError,
};

fn user(login: &str) -> PublicUser {
    PublicUser {
        login: login.to_string(),
        avatar_url: format!("https://example.com/{login}.png"),
    }
}

fn idea_row(id: &str, author: &str, status: &str, created_at: i64) -> IdeaRow {
    IdeaRow {
        id: id.to_string(),
        title: format!("Idea {id} with a title"),
        body: "This body is long enough to satisfy validation.".to_string(),
        problem: "This problem statement is long enough to satisfy validation.".to_string(),
        status: status.to_string(),
        author_user_id: author.to_string(),
        author: user(author),
        created_at,
        updated_at: created_at,
    }
}

fn comment_row(id: &str, author: &str, created_at: i64) -> CommentRow {
    CommentRow {
        id: id.to_string(),
        idea_id: "idea".to_string(),
        body: format!("Comment {id}"),
        author_user_id: author.to_string(),
        author: user(author),
        created_at,
        updated_at: created_at,
    }
}

fn vote(target: &str, user: &str) -> Vote {
    Vote {
        target_id: target.to_string(),
        user_id: user.to_string(),
    }
}

#[test]
fn status_text_round_trip() {
    for status in [IdeaStatus::Open, IdeaStatus::InProgress, IdeaStatus::Closed] {
        assert_eq!(IdeaStatus::from_db(status.as_str()), status);
    }
    assert_eq!(IdeaStatus::InProgress.as_str(), "inprogress");
    assert_eq!(IdeaStatus::from_db("closed"), IdeaStatus::Closed);
    assert_eq!(IdeaStatus::from_db("something else"), IdeaStatus::Open);
    assert_eq!(IdeaStatus::from_db("Closed"), IdeaStatus::Open);
}

#[test]
fn viewer_rights_on_ideas() {
    let row = idea_row("i1", "author", "open", 10);
    let votes: Vec<Vote> = Vec::new();
    let comments: Vec<String> = Vec::new();

    let author_view = build_idea(&row, &votes, &comments, &Some("author".to_string()), false);
    assert!(author_view.viewer_can_edit);
    assert!(author_view.viewer_can_delete);
    assert!(!author_view.viewer_can_close);

    let other_view = build_idea(&row, &votes, &comments, &Some("other".to_string()), false);
    assert!(!other_view.viewer_can_edit);
    assert!(!other_view.viewer_can_delete);
    assert!(!other_view.viewer_can_close);

    let anonymous_view = build_idea(&row, &votes, &comments, &None, false);
    assert!(!anonymous_view.viewer_can_edit);
    assert!(!anonymous_view.viewer_can_delete);
    assert!(!anonymous_view.viewer_can_close);

    let moderator_view = build_idea(&row, &votes, &comments, &Some("moderator".to_string()), true);
    assert!(!moderator_view.viewer_can_edit);
    assert!(moderator_view.viewer_can_delete);
    assert!(moderator_view.viewer_can_close);
}

#[test]
fn idea_counts_and_status() {
    let row = idea_row("i1", "author", "inprogress", 10);
    let votes = vec![vote("i1", "a"), vote("i2", "a"), vote("i1", "b")];
    let comments = vec!["i1".to_string(), "i2".to_string(), "i1".to_string(), "i1".to_string()];
    let seen = build_idea(&row, &votes, &comments, &Some("b".to_string()), false);
    assert_eq!(seen.upvote_count, 2);
    assert_eq!(seen.comment_count, 3);
    assert!(seen.viewer_has_upvoted);
    assert_eq!(seen.status, IdeaStatus::InProgress);
    assert!(!seen.closed);
    assert_eq!(seen.title, "Idea i1 with a title");
    assert_eq!(seen.author.login, "author");

    let closed = build_idea(&idea_row("i2", "x", "closed", 1), &votes, &comments, &Some("b".to_string()), false);
    assert!(closed.closed);
    assert_eq!(closed.upvote_count, 1);
    assert!(!closed.viewer_has_upvoted);
}

#[test]
fn ideas_listed_by_upvotes_then_newest() {
    let rows = vec![
        idea_row("old-popular", "a", "open", 1),
        idea_row("new-unpopular", "a", "open", 50),
        idea_row("newer-popular", "a", "open", 20),
        idea_row("newest-unpopular", "a", "open", 60),
    ];
    let votes = vec![
        vote("old-popular", "u1"),
        vote("old-popular", "u2"),
        vote("newer-popular", "u1"),
        vote("newer-popular", "u2"),
    ];
    let listed = list_ideas_view(&rows, &votes, &Vec::new(), &None, false);
    let ids: Vec<&str> = listed.iter().map(|idea| idea.id.as_str()).collect();
    assert_eq!(
        ids,
        vec!["newer-popular", "old-popular", "newest-unpopular", "new-unpopular"]
    );
}

#[test]
fn list_comments_promotes_only_the_most_upvoted_comment_view() {
    let rows = vec![
        comment_row("third", "author", 30),
        comment_row("first", "author", 10),
        comment_row("second", "author", 20),
    ];
    let votes = vec![vote("third", "voter")];
    let listed = list_comments_view(&rows, &votes, &Some("voter".to_string()), false);
    let ids: Vec<&str> = listed.iter().map(|c| c.id.as_str()).collect();
    assert_eq!(ids, vec!["third", "first", "second"]);
    assert!(listed[0].viewer_has_upvoted);
    assert_eq!(listed[0].upvote_count, 1);

    let no_votes = list_comments_view(&rows, &Vec::new(), &None, false);
    let ids: Vec<&str> = no_votes.iter().map(|c| c.id.as_str()).collect();
    assert_eq!(ids, vec!["first", "second", "third"]);
}

#[test]
fn promotion_picks_the_first_of_equal_tops() {
    let votes = vec![
        vote("b", "u1"),
        vote("c", "u1"),
        vote("c", "u2"),
        vote("d", "u1"),
        vote("d", "u2"),
    ];
    let mut comments: Vec<_> = ["a", "b", "c", "d"]
        .iter()
        .enumerate()
        .map(|(i, id)| build_comment(&comment_row(id, "x", i as i64), &votes, &None, false))
        .collect();
    promote_most_upvoted_comment(&mut comments);
    let ids: Vec<&str> = comments.iter().map(|c| c.id.as_str()).collect();
    assert_eq!(ids, vec!["c", "a", "b", "d"]);

    let mut already_first: Vec<_> = ["d", "a"]
        .iter()
        .map(|id| build_comment(&comment_row(id, "x", 0), &votes, &None, false))
        .collect();
    promote_most_upvoted_comment(&mut already_first);
    let ids: Vec<&str> = already_first.iter().map(|c| c.id.as_str()).collect();
    assert_eq!(ids, vec!["d", "a"]);
}

#[test]
fn comment_rights() {
    let row = comment_row("c", "commenter", 1);
    let votes: Vec<Vote> = Vec::new();
    let own = build_comment(&row, &votes, &Some("commenter".to_string()), false);
    assert!(own.viewer_can_edit && own.viewer_can_delete);
    let other = build_comment(&row, &votes, &Some("author".to_string()), false);
    assert!(!other.viewer_can_edit && !other.viewer_can_delete);
    let moderator = build_comment(&row, &votes, &Some("moderator".to_string()), true);
    assert!(!moderator.viewer_can_edit && moderator.viewer_can_delete);
}

#[test]
fn store_authorization_rules() {
    let author = Some("author".to_string());
    let author_id = "author".to_string();
    let other_id = "other".to_string();

    assert_eq!(authorize_edit(&author, &author_id, Entity::Idea), Ok(()));
    assert_eq!(
        authorize_edit(&author, &other_id, Entity::Comment),
        Err(StorageError::NotFound(Entity::Comment))
    );
    assert_eq!(
        authorize_edit(&None, &author_id, Entity::Idea),
        Err(StorageError::NotFound(Entity::Idea))
    );

    assert_eq!(authorize_delete(&author, &author_id, false, Entity::Idea), Ok(()));
    assert_eq!(authorize_delete(&author, &other_id, true, Entity::Idea), Ok(()));
    assert_eq!(
        authorize_delete(&author, &other_id, false, Entity::Idea),
        Err(StorageError::NotFound(Entity::Idea))
    );
    assert_eq!(
        authorize_delete(&None, &other_id, true, Entity::Comment),
        Err(StorageError::NotFound(Entity::Comment))
    );

    assert_eq!(authorize_status_change(true, true), Ok(()));
    assert_eq!(
        authorize_status_change(true, false),
        Err(StorageError::NotFound(Entity::Idea))
    );
    assert_eq!(
        authorize_status_change(false, true),
        Err(StorageError::NotFound(Entity::Idea))
    );

    assert_eq!(require_exists(true, Entity::Comment), Ok(()));
    assert_eq!(
        require_exists(false, Entity::Comment),
        Err(StorageError::NotFound(Entity::Comment))
    );
    assert_eq!(status_for_closed(true), IdeaStatus::Closed);
    assert_eq!(status_for_closed(false), IdeaStatus::Open);
    assert_eq!(Entity::Idea.name(), "idea");
    assert_eq!(Entity::Comment.name(), "comment");
}

#[test]
fn seed_tally_counts_distinct_ideas() {
    let mut tally = ideas::seed::SeedTally::new();
    tally.record(&"a".to_string(), 3);
    tally.record(&"b".to_string(), 2);
    tally.record(&"a".to_string(), 3);
    let report = tally.report(4);
    assert_eq!(
        report,
        ideas::domain::DevSeedReport { users: 4, ideas: 2, upvotes: 8 }
    );
}

#[test]
fn seed_plan_reuses_by_title_and_closes_once() {
    let fresh_open = seed_plan(None, false);
    assert_eq!((fresh_open.create, fresh_open.close), (true, false));
    let fresh_closed = seed_plan(None, true);
    assert_eq!((fresh_closed.create, fresh_closed.close), (true, true));
    let stored_open = seed_plan(Some(false), true);
    assert_eq!((stored_open.create, stored_open.close), (false, true));
    let stored_closed = seed_plan(Some(true), true);
    assert_eq!((stored_closed.create, stored_closed.close), (false, false));
    let stored_kept = seed_plan(Some(false), false);
    assert_eq!((stored_kept.create, stored_kept.close), (false, false));
}

#[test]
fn single_idea_matches_its_listing() {
    let rows = vec![idea_row("i1", "author", "open", 10), idea_row("i2", "other", "closed", 20)];
    let votes = vec![vote("i1", "a"), vote("i2", "a"), vote("i1", "b"), vote("i2", "c")];
    let comments = vec!["i1".to_string(), "i2".to_string(), "i1".to_string()];
    let viewer = Some("b".to_string());
    let listed = list_ideas_view(&rows, &votes, &comments, &viewer, false);
    let own_votes = vec![vote("i1", "a"), vote("i1", "b")];
    let own_comments = vec!["i1".to_string(), "i1".to_string()];
    let alone = build_idea(&rows[0], &own_votes, &own_comments, &viewer, false);
    let in_list = listed.iter().find(|idea| idea.id == "i1").expect("listed");
    assert_eq!(
        (alone.upvote_count, alone.comment_count, alone.viewer_has_upvoted, alone.viewer_can_edit),
        (in_list.upvote_count, in_list.comment_count, in_list.viewer_has_upvoted, in_list.viewer_can_edit)
    );
    assert_eq!((alone.upvote_count, alone.comment_count), (2, 2));
}

#[test]
fn seed_data_and_report() {
    let users = ideas::seed::dev_seed_users();
    let seeds = ideas::seed::dev_seed_ideas();
    assert_eq!(users.len(), 4);
    assert_eq!(users[0].login, "coollabs");
    assert_eq!(users[3].github_id, 90_000_004);
    assert_eq!(seeds.len(), 6);
    assert_eq!(seeds[0].title, "One-click status pages for Coolify services");
    assert_eq!(seeds[0].upvoter_logins, vec!["andras", "demo-builder", "infra-friend"]);
    assert!(seeds[5].closed);
    assert!(seeds[..5].iter().all(|s| !s.closed));
    let cast: usize = seeds.iter().map(|s| s.upvoter_logins.len()).sum();
    assert_eq!(cast, 12);

    let ids: Vec<String> = (1..=6).map(|k| format!("idea-{k}")).collect();
    let report = ideas::seed::seed_report(&ids);
    assert_eq!((report.users, report.ideas, report.upvotes), (4, 6, 12));
    let repeated: Vec<String> = vec!["a", "a", "b", "c", "d", "e"].into_iter().map(String::from).collect();
    let report = ideas::seed::seed_report(&repeated);
    assert_eq!((report.users, report.ideas, report.upvotes), (4, 5, 12));
}

#[test]
fn stored_times_fall_back_to_now() {
    assert_eq!(ideas::domain::stored_time("1970-01-01T00:00:01.500Z", 7), 1_500);
    assert_eq!(ideas::domain::stored_time("2026-05-07T12:00:00+02:00", 7), 1_778_148_000_000);
    assert_eq!(ideas::domain::stored_time("not a time", 7), 7);
    assert_eq!(ideas::domain::time_or_now(Some(3), 7), 3);
    assert_eq!(ideas::domain::time_or_now(None, 7), 7);
}

#[test]
fn upvote_count_is_the_number_of_distinct_voters() {
    let row = idea_row("i1", "author", "open", 10);
    let votes = vec![vote("i1", "a"), vote("i2", "a"), vote("i1", "b"), vote("i1", "c")];
    let seen = build_idea(&row, &votes, &Vec::new(), &Some("c".to_string()), false);
    assert_eq!(seen.upvote_count, 3);
    assert!(seen.viewer_has_upvoted);
    let unseen = build_idea(&row, &votes, &Vec::new(), &Some("d".to_string()), false);
    assert!(!unseen.viewer_has_upvoted);
}
