//! The SQL of the shipped schema migrations, oldest first. A script whose first
//! line is `-- no-transaction` runs outside a transaction.

use vstd::prelude::*;

verus! {

pub const INIT_UP_SQL: &'static str = r#"CREATE TABLE users (
  id TEXT PRIMARY KEY,
  github_id INTEGER NOT NULL UNIQUE,
  login TEXT NOT NULL,
  avatar_url TEXT NOT NULL,
  created_at TEXT NOT NULL DEFAULT (strftime('%Y-%m-%dT%H:%M:%fZ','now')),
  updated_at TEXT NOT NULL DEFAULT (strftime('%Y-%m-%dT%H:%M:%fZ','now'))
);

CREATE TABLE sessions (
  sid TEXT PRIMARY KEY,
  user_id TEXT NOT NULL REFERENCES users(id) ON DELETE CASCADE,
  csrf_token TEXT NOT NULL,
  created_at INTEGER NOT NULL,
  expires_at INTEGER NOT NULL
);
CREATE INDEX idx_sessions_expires ON sessions(expires_at);

CREATE TABLE oauth_state (
  state TEXT PRIMARY KEY,
  created_at INTEGER NOT NULL
);

CREATE TABLE ideas (
  id TEXT PRIMARY KEY,
  title TEXT NOT NULL CHECK(length(title) BETWEEN 10 AND 300),
  body TEXT NOT NULL CHECK(length(body) BETWEEN 30 AND 10000),
  author_user_id TEXT NOT NULL REFERENCES users(id) ON DELETE CASCADE,
  status TEXT NOT NULL DEFAULT 'open' CHECK(status IN ('open', 'closed')),
  created_at TEXT NOT NULL DEFAULT (strftime('%Y-%m-%dT%H:%M:%fZ','now')),
  updated_at TEXT NOT NULL DEFAULT (strftime('%Y-%m-%dT%H:%M:%fZ','now'))
);
CREATE INDEX idx_ideas_status_created ON ideas(status, created_at DESC);
CREATE INDEX idx_ideas_author ON ideas(author_user_id);

CREATE TABLE upvotes (
  idea_id TEXT NOT NULL REFERENCES ideas(id) ON DELETE CASCADE,
  user_id TEXT NOT NULL REFERENCES users(id) ON DELETE CASCADE,
  created_at TEXT NOT NULL DEFAULT (strftime('%Y-%m-%dT%H:%M:%fZ','now')),
  PRIMARY KEY (idea_id, user_id)
);
"#;

pub const INIT_DOWN_SQL: &'static str = r#"DROP TABLE IF EXISTS upvotes;
DROP TABLE IF EXISTS ideas;
DROP TABLE IF EXISTS oauth_state;
DROP TABLE IF EXISTS sessions;
DROP TABLE IF EXISTS users;
"#;

pub const ADD_INPROGRESS_STATUS_UP_SQL: &'static str = r#"-- no-transaction
PRAGMA foreign_keys = OFF;

CREATE TEMP TABLE upvotes_backup AS SELECT idea_id, user_id, created_at FROM upvotes;

CREATE TABLE ideas_new (
  id TEXT PRIMARY KEY,
  title TEXT NOT NULL CHECK(length(title) BETWEEN 10 AND 300),
  body TEXT NOT NULL CHECK(length(body) BETWEEN 30 AND 10000),
  author_user_id TEXT NOT NULL REFERENCES users(id) ON DELETE CASCADE,
  status TEXT NOT NULL DEFAULT 'open' CHECK(status IN ('open', 'inprogress', 'closed')),
  created_at TEXT NOT NULL DEFAULT (strftime('%Y-%m-%dT%H:%M:%fZ','now')),
  updated_at TEXT NOT NULL DEFAULT (strftime('%Y-%m-%dT%H:%M:%fZ','now'))
);

INSERT INTO ideas_new (id, title, body, author_user_id, status, created_at, updated_at)
SELECT id, title, body, author_user_id, status, created_at, updated_at
FROM ideas;

DROP TABLE ideas;
ALTER TABLE ideas_new RENAME TO ideas;

CREATE INDEX idx_ideas_status_created ON ideas(status, created_at DESC);
CREATE INDEX idx_ideas_author ON ideas(author_user_id);

INSERT OR IGNORE INTO upvotes (idea_id, user_id, created_at)
SELECT idea_id, user_id, created_at FROM upvotes_backup;
DROP TABLE upvotes_backup;

PRAGMA foreign_keys = ON;
"#;

pub const ADD_INPROGRESS_STATUS_DOWN_SQL: &'static str = r#"-- no-transaction
PRAGMA foreign_keys = OFF;

CREATE TEMP TABLE upvotes_backup AS SELECT idea_id, user_id, created_at FROM upvotes;

CREATE TABLE ideas_old (
  id TEXT PRIMARY KEY,
  title TEXT NOT NULL CHECK(length(title) BETWEEN 10 AND 300),
  body TEXT NOT NULL CHECK(length(body) BETWEEN 30 AND 10000),
  author_user_id TEXT NOT NULL REFERENCES users(id) ON DELETE CASCADE,
  status TEXT NOT NULL DEFAULT 'open' CHECK(status IN ('open', 'closed')),
  created_at TEXT NOT NULL DEFAULT (strftime('%Y-%m-%dT%H:%M:%fZ','now')),
  updated_at TEXT NOT NULL DEFAULT (strftime('%Y-%m-%dT%H:%M:%fZ','now'))
);

INSERT INTO ideas_old (id, title, body, author_user_id, status, created_at, updated_at)
SELECT id, title, body, author_user_id,
       CASE WHEN status = 'inprogress' THEN 'open' ELSE status END,
       created_at, updated_at
FROM ideas;

DROP TABLE ideas;
ALTER TABLE ideas_old RENAME TO ideas;

CREATE INDEX idx_ideas_status_created ON ideas(status, created_at DESC);
CREATE INDEX idx_ideas_author ON ideas(author_user_id);

INSERT OR IGNORE INTO upvotes (idea_id, user_id, created_at)
SELECT idea_id, user_id, created_at FROM upvotes_backup;
DROP TABLE upvotes_backup;

PRAGMA foreign_keys = ON;
"#;

pub const ADD_COMMENTS_UP_SQL: &'static str = r#"CREATE TABLE comments (
  id TEXT PRIMARY KEY,
  idea_id TEXT NOT NULL REFERENCES ideas(id) ON DELETE CASCADE,
  author_user_id TEXT NOT NULL REFERENCES users(id) ON DELETE CASCADE,
  body TEXT NOT NULL CHECK(length(body) BETWEEN 1 AND 2000),
  created_at TEXT NOT NULL DEFAULT (strftime('%Y-%m-%dT%H:%M:%fZ','now')),
  updated_at TEXT NOT NULL DEFAULT (strftime('%Y-%m-%dT%H:%M:%fZ','now'))
);
CREATE INDEX idx_comments_idea_created ON comments(idea_id, created_at);
"#;

pub const ADD_COMMENTS_DOWN_SQL: &'static str = "DROP TABLE IF EXISTS comments;\n";

pub const ADD_COMMENT_UPVOTES_UP_SQL: &'static str = r#"CREATE TABLE comment_upvotes (
  comment_id TEXT NOT NULL REFERENCES comments(id) ON DELETE CASCADE,
  user_id TEXT NOT NULL REFERENCES users(id) ON DELETE CASCADE,
  created_at TEXT NOT NULL DEFAULT (strftime('%Y-%m-%dT%H:%M:%fZ','now')),
  PRIMARY KEY (comment_id, user_id)
);
"#;

pub const ADD_COMMENT_UPVOTES_DOWN_SQL: &'static str = "DROP TABLE IF EXISTS comment_upvotes;\n";

pub const ADD_IDEA_PROBLEM_UP_SQL: &'static str =
    "ALTER TABLE ideas ADD COLUMN problem TEXT NOT NULL DEFAULT '';\n";

pub const ADD_IDEA_PROBLEM_DOWN_SQL: &'static str = "ALTER TABLE ideas DROP COLUMN problem;\n";

} // verus!
