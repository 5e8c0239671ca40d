//! The development seed: its users and ideas, what a run creates and closes,
//! and the report of what it touched.

use vstd::prelude::*;
use crate::config::views;
use crate::domain::DevSeedReport;

verus! {

/// A user that the development seed stores.
pub struct SeedUser {
    pub github_id: i64,
    pub login: &'static str,
    pub avatar_url: &'static str,
}

/// An idea that the development seed stores, with the users who upvote it.
pub struct SeedIdea {
    pub title: &'static str,
    pub body: &'static str,
    pub problem: &'static str,
    pub author_login: &'static str,
    pub upvoter_logins: Vec<&'static str>,
    pub closed: bool,
}

/// The seed users: (GitHub id, login, avatar URL).
pub open spec fn seed_users_spec() -> Seq<(i64, Seq<char>, Seq<char>)> {
    seq![
        (90000001i64, "coollabs"@, "https://avatars.githubusercontent.com/u/90269785?v=4"@),
        (90000002i64, "andras"@, "https://avatars.githubusercontent.com/u/5845193?v=4"@),
        (90000003i64, "demo-builder"@, "https://avatars.githubusercontent.com/u/9919?v=4"@),
        (90000004i64, "infra-friend"@, "https://avatars.githubusercontent.com/u/69631?v=4"@),
    ]
}

pub open spec fn seed_user_view(u: SeedUser) -> (i64, Seq<char>, Seq<char>) {
    (u.github_id, u.login@, u.avatar_url@)
}

pub fn dev_seed_users() -> (r: Vec<SeedUser>)
    ensures
        r@.map_values(|u: SeedUser| seed_user_view(u)) == seed_users_spec(),
{
    let mut r: Vec<SeedUser> = Vec::new();
    r.push(SeedUser { github_id: 90000001, login: "coollabs", avatar_url: "https://avatars.githubusercontent.com/u/90269785?v=4" });
    r.push(SeedUser { github_id: 90000002, login: "andras", avatar_url: "https://avatars.githubusercontent.com/u/5845193?v=4" });
    r.push(SeedUser { github_id: 90000003, login: "demo-builder", avatar_url: "https://avatars.githubusercontent.com/u/9919?v=4" });
    r.push(SeedUser { github_id: 90000004, login: "infra-friend", avatar_url: "https://avatars.githubusercontent.com/u/69631?v=4" });
    assert(r@.map_values(|u: SeedUser| seed_user_view(u)) =~= seed_users_spec());
    r
}

/// The seed ideas: (title, body, problem, author's login, upvoters' logins, closed).
pub open spec fn seed_ideas_spec() -> Seq<
    (Seq<char>, Seq<char>, Seq<char>, Seq<char>, Seq<Seq<char>>, bool),
> {
    seq![
        (
            "One-click status pages for Coolify services"@,
            "Generate public status pages from existing Coolify resources, including incidents, uptime history, and subscriber notifications."@,
            "Teams running Coolify have no built-in way to communicate outages. Hosted status pages like Statuspage are expensive and live outside the infrastructure they monitor."@,
            "coollabs"@,
            seq!["andras"@, "demo-builder"@, "infra-friend"@],
            false,
        ),
        (
            "Self-hosted changelog and release notes hub"@,
            "A small app for publishing product changelogs from Git tags, GitHub releases, and manually curated customer-facing updates."@,
            "Changelog SaaS tools are subscription-priced and lock content into their platform. Self-hosters want release notes that live next to their own app."@,
            "andras"@,
            seq!["coollabs"@, "demo-builder"@],
            false,
        ),
        (
            "Cron monitor with dead man switch alerts"@,
            "Track scheduled jobs by heartbeat URL and send alerts when backups, billing syncs, or maintenance tasks stop checking in."@,
            "Silent cron failures go unnoticed for days. Existing dead-man-switch services are hosted-only and bill per monitor, which adds up fast for self-hosters."@,
            "infra-friend"@,
            seq!["coollabs"@, "andras"@, "demo-builder"@],
            false,
        ),
        (
            "Tiny hosted forms backend for static sites"@,
            "Collect contact forms from static sites with spam controls, email forwarding, CSV export, and per-project API tokens."@,
            "Static sites cannot process form submissions on their own. Hosted form backends are priced per submission and keep customer data on third-party servers."@,
            "demo-builder"@,
            seq!["andras"@],
            false,
        ),
        (
            "Environment variable diff viewer for deployments"@,
            "Compare environment variables across staging and production without exposing secrets, highlighting missing keys and drift."@,
            "Config drift between environments causes hard-to-debug deploy failures. No lightweight tool diffs env vars without dumping secret values in plain text."@,
            "andras"@,
            seq!["coollabs"@, "infra-friend"@],
            false,
        ),
        (
            "Simple backup restore drill scheduler"@,
            "Schedule recurring restore drills, record evidence, and remind teams to prove their backups can actually be restored."@,
            "Backups are rarely tested until a real incident. No simple tool schedules restore drills and tracks evidence that recovery actually works."@,
            "infra-friend"@,
            seq!["coollabs"@],
            true,
        ),
    ]
}

pub open spec fn seed_idea_view(i: SeedIdea) -> (
    Seq<char>,
    Seq<char>,
    Seq<char>,
    Seq<char>,
    Seq<Seq<char>>,
    bool,
) {
    (
        i.title@,
        i.body@,
        i.problem@,
        i.author_login@,
        i.upvoter_logins@.map_values(|l: &'static str| l@),
        i.closed,
    )
}

pub fn dev_seed_ideas() -> (r: Vec<SeedIdea>)
    ensures
        r@.map_values(|i: SeedIdea| seed_idea_view(i)) == seed_ideas_spec(),
{
    let mut r: Vec<SeedIdea> = Vec::new();
    r.push(
        SeedIdea {
            title: "One-click status pages for Coolify services",
            body: "Generate public status pages from existing Coolify resources, including incidents, uptime history, and subscriber notifications.",
            problem: "Teams running Coolify have no built-in way to communicate outages. Hosted status pages like Statuspage are expensive and live outside the infrastructure they monitor.",
            author_login: "coollabs",
            upvoter_logins: vec!["andras", "demo-builder", "infra-friend"],
            closed: false,
        },
    );
    r.push(
        SeedIdea {
            title: "Self-hosted changelog and release notes hub",
            body: "A small app for publishing product changelogs from Git tags, GitHub releases, and manually curated customer-facing updates.",
            problem: "Changelog SaaS tools are subscription-priced and lock content into their platform. Self-hosters want release notes that live next to their own app.",
            author_login: "andras",
            upvoter_logins: vec!["coollabs", "demo-builder"],
            closed: false,
        },
    );
    r.push(
        SeedIdea {
            title: "Cron monitor with dead man switch alerts",
            body: "Track scheduled jobs by heartbeat URL and send alerts when backups, billing syncs, or maintenance tasks stop checking in.",
            problem: "Silent cron failures go unnoticed for days. Existing dead-man-switch services are hosted-only and bill per monitor, which adds up fast for self-hosters.",
            author_login: "infra-friend",
            upvoter_logins: vec!["coollabs", "andras", "demo-builder"],
            closed: false,
        },
    );
    r.push(
        SeedIdea {
            title: "Tiny hosted forms backend for static sites",
            body: "Collect contact forms from static sites with spam controls, email forwarding, CSV export, and per-project API tokens.",
            problem: "Static sites cannot process form submissions on their own. Hosted form backends are priced per submission and keep customer data on third-party servers.",
            author_login: "demo-builder",
            upvoter_logins: vec!["andras"],
            closed: false,
        },
    );
    r.push(
        SeedIdea {
            title: "Environment variable diff viewer for deployments",
            body: "Compare environment variables across staging and production without exposing secrets, highlighting missing keys and drift.",
            problem: "Config drift between environments causes hard-to-debug deploy failures. No lightweight tool diffs env vars without dumping secret values in plain text.",
            author_login: "andras",
            upvoter_logins: vec!["coollabs", "infra-friend"],
            closed: false,
        },
    );
    r.push(
        SeedIdea {
            title: "Simple backup restore drill scheduler",
            body: "Schedule recurring restore drills, record evidence, and remind teams to prove their backups can actually be restored.",
            problem: "Backups are rarely tested until a real incident. No simple tool schedules restore drills and tracks evidence that recovery actually works.",
            author_login: "infra-friend",
            upvoter_logins: vec!["coollabs"],
            closed: true,
        },
    );
    proof {
        let got = r@.map_values(|i: SeedIdea| seed_idea_view(i));
        let want = seed_ideas_spec();
        assert forall|k: int| 0 <= k < 6 implies #[trigger] got[k] == want[k] by {
            assert(r@[k].upvoter_logins@.map_values(|l: &'static str| l@) =~= want[k].4);
        }
        assert(got =~= want);
    }
    r
}

/// The distinct ideas a seed run touched and the upvotes it cast.
pub struct SeedTally {
    seeded: Vec<String>,
    upvotes: usize,
}

impl View for SeedTally {
    type V = (Set<Seq<char>>, nat);

    closed spec fn view(&self) -> (Set<Seq<char>>, nat) {
        (views(self.seeded@).to_set(), self.upvotes as nat)
    }
}

impl SeedTally {
    #[verifier::type_invariant]
    spec fn well_formed(self) -> bool {
        views(self.seeded@).no_duplicates()
    }

    pub fn new() -> (t: SeedTally)
        ensures
            t@ == (Set::<Seq<char>>::empty(), 0nat),
    {
        let t = SeedTally { seeded: Vec::new(), upvotes: 0 };
        assert(views(t.seeded@).to_set() =~= Set::<Seq<char>>::empty());
        t
    }

    /// Records that the idea `idea_id` was seeded with `upvotes` upvotes.
    pub fn record(&mut self, idea_id: &String, upvotes: usize)
        requires
            old(self)@.1 + upvotes <= usize::MAX,
        ensures
            final(self)@ == (old(self)@.0.insert(idea_id@), (old(self)@.1 + upvotes) as nat),
    {
        proof {
            use_type_invariant(&*self);
        }
        let ghost before = views(self.seeded@);
        let mut seen = false;
        let mut j: usize = 0;
        while j < self.seeded.len()
            invariant
                j <= self.seeded@.len(),
                before == views(self.seeded@),
                seen == exists|m: int| 0 <= m < j && (#[trigger] self.seeded@[m])@ == idea_id@,
            decreases self.seeded@.len() - j,
        {
            if self.seeded[j] == *idea_id {
                assert(self.seeded@[j as int]@ == idea_id@);
                seen = true;
            }
            j = j + 1;
        }
        let total = self.upvotes + upvotes;
        if seen {
            proof {
                let m = choose|m: int| 0 <= m < self.seeded@.len() && (#[trigger] self.seeded@[m])@
                    == idea_id@;
                assert(before[m] == idea_id@);
                assert(before.to_set().insert(idea_id@) =~= before.to_set());
            }
            self.upvotes = total;
        } else {
            let mut seeded = Vec::new();
            std::mem::swap(&mut seeded, &mut self.seeded);
            seeded.push(idea_id.clone());
            proof {
                assert(views(seeded@) == before.push(idea_id@));
                assert forall|a: int, b: int|
                    0 <= a < views(seeded@).len() && 0 <= b < views(seeded@).len() && a != b implies views(
                    seeded@,
                )[a] != views(seeded@)[b] by {
                    if a == before.len() {
                        assert(seeded@[b]@ == before[b]);
                    } else if b == before.len() {
                        assert(seeded@[a]@ == before[a]);
                    }
                }
                before.lemma_push_to_set_commute(idea_id@);
            }
            *self = SeedTally { seeded, upvotes: total };
        }
    }

    /// The report of the run, which also seeded `users` users.
    pub fn report(&self, users: usize) -> (r: DevSeedReport)
        ensures
            r.users == users,
            r.ideas == self@.0.len(),
            r.upvotes == self@.1,
    {
        proof {
            use_type_invariant(self);
            views(self.seeded@).unique_seq_to_set();
        }
        DevSeedReport { users, ideas: self.seeded.len(), upvotes: self.upvotes }
    }
}

/// Law: recording an idea that was already recorded adds its upvotes but no idea.
pub proof fn lemma_reseeding_counts_idea_once(seeded: Set<Seq<char>>, idea_id: Seq<char>)
    requires
        seeded.contains(idea_id),
    ensures
        seeded.insert(idea_id) == seeded,
{
    assert(seeded.insert(idea_id) =~= seeded);
}

/// What a seed run does with one seed idea.
#[derive(Debug, Clone, Copy, PartialEq, Eq, Structural)]
pub struct SeedPlan {
    /// No idea of that title is stored: create it, open.
    pub create: bool,
    /// The seed idea is closed and the stored or new idea is not: close it.
    pub close: bool,
}

pub open spec fn seed_plan_spec(stored_closed: Option<bool>, seed_closed: bool) -> SeedPlan {
    SeedPlan {
        create: stored_closed is None,
        close: seed_closed && stored_closed != Some(true),
    }
}

/// Plans one seed idea from whether an idea of its title is stored (and then
/// whether that one is closed) and whether the seed marks it closed. Stored ideas
/// are reused by title, so running the seed again creates nothing new.
pub fn seed_plan(stored_closed: Option<bool>, seed_closed: bool) -> (p: SeedPlan)
    ensures
        p == seed_plan_spec(stored_closed, seed_closed),
{
    match stored_closed {
        None => SeedPlan { create: true, close: seed_closed },
        Some(closed) => SeedPlan { create: false, close: seed_closed && !closed },
    }
}

/// How many upvotes the first `n` seed ideas cast.
pub open spec fn seed_upvotes_upto(n: int) -> nat
    decreases n,
{
    if n <= 0 {
        0
    } else {
        seed_upvotes_upto(n - 1) + seed_ideas_spec()[n - 1].4.len()
    }
}

proof fn lemma_seed_upvotes_grow(i: int, j: int)
    requires
        i <= j,
    ensures
        seed_upvotes_upto(i) <= seed_upvotes_upto(j),
    decreases j - i,
{
    if i < j {
        lemma_seed_upvotes_grow(i, j - 1);
    }
}

/// Law: the seed stores 4 users and 6 ideas, which cast 12 upvotes in all.
pub proof fn lemma_seed_sizes()
    ensures
        seed_users_spec().len() == 4,
        seed_ideas_spec().len() == 6,
        seed_upvotes_upto(6) == 12,
{
    reveal_with_fuel(seed_upvotes_upto, 7);
}

/// The report of a seed run in which seed idea `k` was stored as idea `idea_ids[k]`:
/// every seed user, the distinct ideas, and every upvote cast.
pub fn seed_report(idea_ids: &Vec<String>) -> (r: DevSeedReport)
    requires
        idea_ids@.len() == seed_ideas_spec().len(),
    ensures
        r.users == 4,
        r.upvotes == 12,
        r.ideas == views(idea_ids@).to_set().len(),
        views(idea_ids@).no_duplicates() ==> r.ideas == 6,
{
    proof {
        lemma_seed_sizes();
    }
    let users = dev_seed_users();
    let seeds = dev_seed_ideas();
    let ghost spec = seeds@.map_values(|i: SeedIdea| seed_idea_view(i));
    let mut tally = SeedTally::new();
    let mut i: usize = 0;
    while i < seeds.len()
        invariant
            i <= seeds@.len(),
            seeds@.len() == 6,
            idea_ids@.len() == 6,
            spec == seeds@.map_values(|i: SeedIdea| seed_idea_view(i)),
            spec == seed_ideas_spec(),
            seed_upvotes_upto(6) == 12,
            tally@ == (views(idea_ids@.take(i as int)).to_set(), seed_upvotes_upto(i as int)),
        decreases seeds@.len() - i,
    {
        let cast = seeds[i].upvoter_logins.len();
        proof {
            assert(spec[i as int].4.len() == cast);
            lemma_seed_upvotes_grow(i + 1, 6);
            assert(views(idea_ids@.take(i + 1)) == views(idea_ids@.take(i as int)).push(
                idea_ids@[i as int]@,
            ));
            views(idea_ids@.take(i as int)).lemma_push_to_set_commute(idea_ids@[i as int]@);
        }
        tally.record(&idea_ids[i], cast);
        i = i + 1;
    }
    proof {
        assert(idea_ids@.take(6) == idea_ids@);
        if views(idea_ids@).no_duplicates() {
            views(idea_ids@).unique_seq_to_set();
        }
    }
    tally.report(users.len())
}

/// Whether an idea titled `title` is stored and, if so, whether it is closed.
pub open spec fn stored_closed(stored: Map<Seq<char>, bool>, title: Seq<char>) -> Option<bool> {
    if stored.contains_key(title) {
        Some(stored[title])
    } else {
        None
    }
}

/// The stored ideas, by title and whether closed, after a seed run from `stored`
/// has handled its first `k` seed ideas as their plans say.
pub open spec fn seeded_upto(stored: Map<Seq<char>, bool>, k: int) -> Map<Seq<char>, bool>
    decreases k,
{
    if k <= 0 {
        stored
    } else {
        let before = seeded_upto(stored, k - 1);
        let seed = seed_ideas_spec()[k - 1];
        let plan = seed_plan_spec(stored_closed(before, seed.0), seed.5);
        let closed = if plan.close {
            true
        } else if plan.create {
            false
        } else {
            before[seed.0]
        };
        before.insert(seed.0, closed)
    }
}

/// The stored ideas after a whole seed run from `stored`.
pub open spec fn after_seed(stored: Map<Seq<char>, bool>) -> Map<Seq<char>, bool> {
    seeded_upto(stored, seed_ideas_spec().len() as int)
}

/// Every seed idea is stored, and closed when the seed marks it closed.
pub open spec fn holds_seed(m: Map<Seq<char>, bool>) -> bool {
    forall|j: int|
        0 <= j < seed_ideas_spec().len() ==> m.contains_key(#[trigger] seed_ideas_spec()[j].0) && (
        seed_ideas_spec()[j].5 ==> m[seed_ideas_spec()[j].0])
}

proof fn lemma_seeded_upto_holds(stored: Map<Seq<char>, bool>, k: int)
    requires
        0 <= k <= seed_ideas_spec().len(),
    ensures
        forall|j: int|
            0 <= j < k ==> seeded_upto(stored, k).contains_key(#[trigger] seed_ideas_spec()[j].0)
                && (seed_ideas_spec()[j].5 ==> seeded_upto(stored, k)[seed_ideas_spec()[j].0]),
    decreases k,
{
    if k > 0 {
        lemma_seeded_upto_holds(stored, k - 1);
        let before = seeded_upto(stored, k - 1);
        let after = seeded_upto(stored, k);
        let seed = seed_ideas_spec()[k - 1];
        assert forall|j: int| 0 <= j < k implies after.contains_key(
            #[trigger] seed_ideas_spec()[j].0,
        ) && (seed_ideas_spec()[j].5 ==> after[seed_ideas_spec()[j].0]) by {
            if j < k - 1 && seed_ideas_spec()[j].0 != seed.0 {
                assert(after[seed_ideas_spec()[j].0] == before[seed_ideas_spec()[j].0]);
            }
        }
    }
}

proof fn lemma_seeding_held_changes_nothing(m: Map<Seq<char>, bool>, k: int)
    requires
        holds_seed(m),
        0 <= k <= seed_ideas_spec().len(),
    ensures
        seeded_upto(m, k) == m,
    decreases k,
{
    if k > 0 {
        lemma_seeding_held_changes_nothing(m, k - 1);
        let seed = seed_ideas_spec()[k - 1];
        assert(m.contains_key(seed.0));
        assert(m.insert(seed.0, m[seed.0]) =~= m);
    }
}

/// Law: a seed run leaves every seed idea stored, and closed when the seed marks it
/// closed; so a second run plans to create and close nothing, and leaves the stored
/// ideas as the first run left them.
pub proof fn lemma_second_seed_run_changes_nothing(stored: Map<Seq<char>, bool>)
    ensures
        holds_seed(after_seed(stored)),
        forall|j: int|
            0 <= j < seed_ideas_spec().len() ==> seed_plan_spec(
                stored_closed(after_seed(stored), #[trigger] seed_ideas_spec()[j].0),
                seed_ideas_spec()[j].5,
            ) == (SeedPlan { create: false, close: false }),
        after_seed(after_seed(stored)) == after_seed(stored),
{
    lemma_seeded_upto_holds(stored, seed_ideas_spec().len() as int);
    let a = after_seed(stored);
    lemma_seeding_held_changes_nothing(a, seed_ideas_spec().len() as int);
}

} // verus!
