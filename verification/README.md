# ideas

A self-hostable board for documenting and upvoting app ideas: GitHub sign-in,
ideas with comments and upvotes, and moderators who can mark ideas in progress,
close them or delete them.

The rules of the board are a library verified with Verus (`src/`):

- `domain`: the records (users, ideas, comments, sessions), idea status text
  and stored timestamps.
- `policy`: who may edit, delete or change the status of ideas and comments.
- `listing`: how stored rows become what a viewer sees (counts, the viewer's
  rights), idea ranking, chronological comments with the most upvoted promoted.
- `rate_limit`: fixed-window request counting per client key.
- `seed`: the development seed's users and ideas, what a run creates and
  closes, and its report.
- `validate`: length limits on titles, bodies and comments.
- `config`: settings, the moderator list and case-insensitive matching.
- `web`: which HTTP requests are refused and how, client keys, CSRF, security
  headers, every step of the GitHub sign-in callback, sign-out, the session
  cookie and its flags, session and OAuth-state times, the health answer.
- `assets`: which embedded file a path names and how it is cached.
- `migrations`: the shipped migrations, the migrator's up and down entries,
  and the lenient migration plan.
- `schema`: the SQL of each migration's up and down script.
- `text`: character-level string helpers.

`app/` is the server around it: the CLI, the axum routes, the SQLite store
(sqlx), GitHub OAuth (reqwest) and the embedded front end.
