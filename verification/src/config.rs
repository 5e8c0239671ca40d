//! Server settings and the moderator list.

use vstd::prelude::*;
use crate::text::{
    chars_of, concat, lower_seq, starts_with, str_eq, to_ascii_lowercase, to_string, trim_seq,
};

verus! {

pub const SESSION_TTL_SEC: i64 = 604_800;

pub struct Config {
    pub github_client_id: String,
    pub github_client_secret: String,
    pub github_login_enabled: bool,
    pub base_url: String,
    pub session_ttl_sec: i64,
    pub moderator_logins: Vec<String>,
}

/// The pieces of `s` between occurrences of `sep` (`str::split`): one more piece than separators.
pub open spec fn split_seq(s: Seq<char>, sep: char) -> Seq<Seq<char>>
    decreases s.len(),
{
    if s.len() == 0 {
        seq![Seq::<char>::empty()]
    } else {
        let before = split_seq(s.drop_last(), sep);
        if s.last() == sep {
            before.push(Seq::<char>::empty())
        } else {
            before.update(before.len() - 1, before.last().push(s.last()))
        }
    }
}

/// A login as it is compared: trimmed and in ASCII lower case.
pub open spec fn normalized_login(s: Seq<char>) -> Seq<char> {
    lower_seq(trim_seq(s))
}

/// The logins that a comma separated list names: each entry normalized, empty entries dropped.
pub open spec fn login_set(raw: Seq<char>) -> Set<Seq<char>> {
    Set::new(
        |x: Seq<char>|
            x.len() > 0 && exists|i: int|
                0 <= i < split_seq(raw, ',').len() && x == normalized_login(
                    #[trigger] split_seq(raw, ',')[i],
                ),
    )
}

pub open spec fn views(v: Seq<String>) -> Seq<Seq<char>> {
    v.map_values(|s: String| s@)
}

/// `lower_seq(trim_seq(v))`, computed.
fn normalize(v: &Vec<char>) -> (r: String)
    ensures
        r@ == normalized_login(v@),
{
    let s = crate::text::string_of(v);
    let t = crate::text::trim(s.as_str());
    to_ascii_lowercase(t.as_str())
}

/// The logins named by the first `k` of `pieces`, normalized, empty ones dropped.
pub open spec fn logins_upto(pieces: Seq<Seq<char>>, k: int) -> Set<Seq<char>> {
    Set::new(
        |x: Seq<char>|
            x.len() > 0 && exists|i: int| 0 <= i < k && x == normalized_login(#[trigger] pieces[i]),
    )
}

/// The pieces of `raw` between commas.
fn split_commas(raw: &str) -> (pieces: Vec<Vec<char>>)
    ensures
        pieces@.map_values(|v: Vec<char>| v@) == split_seq(raw@, ','),
{
    let chars = chars_of(raw);
    let mut done: Vec<Vec<char>> = Vec::new();
    let mut current: Vec<char> = Vec::new();
    let mut i: usize = 0;
    while i < chars.len()
        invariant
            i <= chars@.len(),
            chars@ == raw@,
            done@.map_values(|v: Vec<char>| v@).push(current@) == split_seq(
                chars@.take(i as int),
                ',',
            ),
        decreases chars@.len() - i,
    {
        let c = chars[i];
        let ghost before = split_seq(chars@.take(i as int), ',');
        assert(chars@.take(i + 1).drop_last() == chars@.take(i as int));
        assert(chars@.take(i + 1).last() == c);
        if c == ',' {
            let finished = current;
            current = Vec::new();
            done.push(finished);
            assert(done@.map_values(|v: Vec<char>| v@).push(current@) == before.push(
                Seq::<char>::empty(),
            ));
        } else {
            let ghost old_done = done@.map_values(|v: Vec<char>| v@);
            current.push(c);
            assert(done@.map_values(|v: Vec<char>| v@).push(current@) == before.update(
                before.len() - 1,
                before.last().push(c),
            ));
        }
        i = i + 1;
    }
    assert(chars@.take(chars@.len() as int) == chars@);
    done.push(current);
    done
}

/// The moderators named by a comma separated list, each once.
pub fn parse_login_list(raw: &str) -> (r: Vec<String>)
    ensures
        views(r@).no_duplicates(),
        views(r@).to_set() == login_set(raw@),
{
    let pieces = split_commas(raw);
    let ghost ps = pieces@.map_values(|v: Vec<char>| v@);
    let mut r: Vec<String> = Vec::new();
    let mut k: usize = 0;
    while k < pieces.len()
        invariant
            k <= pieces@.len(),
            ps == pieces@.map_values(|v: Vec<char>| v@),
            views(r@).no_duplicates(),
            forall|x: Seq<char>| views(r@).contains(x) <==> logins_upto(ps, k as int).contains(x),
        decreases pieces@.len() - k,
    {
        let login = normalize(&pieces[k]);
        assert(login@ == normalized_login(ps[k as int]));
        let mut seen = false;
        let mut j: usize = 0;
        while j < r.len()
            invariant
                j <= r@.len(),
                seen == exists|m: int| 0 <= m < j && (#[trigger] r@[m])@ == login@,
            decreases r@.len() - j,
        {
            if r[j] == login {
                assert(r@[j as int]@ == login@);
                seen = true;
            }
            j = j + 1;
        }
        let ghost before = views(r@);
        let ghost lv = login@;
        let ghost pushed = !seen && lv.len() > 0;
        assert(forall|x: Seq<char>| before.contains(x) <==> logins_upto(ps, k as int).contains(x));
        if !seen && !login.as_str().is_empty() {
            r.push(login);
            proof {
                assert(views(r@) == before.push(lv));
                assert forall|a: int, b: int|
                    0 <= a < views(r@).len() && 0 <= b < views(r@).len() && a != b implies views(r@)[a]
                    != views(r@)[b] by {
                    if a == before.len() {
                        assert(r@[b]@ == before[b]);
                    } else if b == before.len() {
                        assert(r@[a]@ == before[a]);
                    }
                }
            }
        } else {
            proof {
                if lv.len() > 0 {
                    let m = choose|m: int| 0 <= m < r@.len() && (#[trigger] r@[m])@ == lv;
                    assert(before[m] == lv);
                    assert(before.contains(lv));
                }
            }
        }
        proof {
            assert forall|x: Seq<char>| views(r@).contains(x) <==> logins_upto(ps, k + 1).contains(
                x,
            ) by {
                if pushed {
                    assert(views(r@) == before.push(lv));
                    if views(r@).contains(x) {
                        let m = choose|m: int| 0 <= m < views(r@).len() && views(r@)[m] == x;
                        if m < before.len() {
                            assert(before[m] == x);
                            assert(before.contains(x));
                        } else {
                            assert(x == lv);
                            assert(x == normalized_login(ps[k as int]));
                        }
                    }
                    if logins_upto(ps, k + 1).contains(x) {
                        let i = choose|i: int| 0 <= i < k + 1 && x == normalized_login(#[trigger] ps[i]);
                        if i < k {
                            assert(logins_upto(ps, k as int).contains(x));
                            assert(before.contains(x));
                            let m = choose|m: int| 0 <= m < before.len() && before[m] == x;
                            assert(views(r@)[m] == x);
                        } else {
                            assert(views(r@)[before.len() as int] == x);
                        }
                    }
                } else {
                    assert(views(r@) == before);
                    if logins_upto(ps, k + 1).contains(x) {
                        let i = choose|i: int| 0 <= i < k + 1 && x == normalized_login(#[trigger] ps[i]);
                        if i < k {
                            assert(logins_upto(ps, k as int).contains(x));
                        } else {
                            assert(x == lv);
                        }
                    }
                    if views(r@).contains(x) {
                        assert(logins_upto(ps, k as int).contains(x));
                        let i = choose|i: int| 0 <= i < k && x == normalized_login(#[trigger] ps[i]);
                        assert(logins_upto(ps, k + 1).contains(x));
                    }
                }
            }
        }
        k = k + 1;
    }
    proof {
        assert(views(r@).to_set() =~= login_set(raw@)) by {
            assert forall|x: Seq<char>| views(r@).to_set().contains(x) <==> login_set(raw@).contains(
                x,
            ) by {
                if login_set(raw@).contains(x) {
                    let i = choose|i: int|
                        0 <= i < split_seq(raw@, ',').len() && x == normalized_login(
                            #[trigger] split_seq(raw@, ',')[i],
                        );
                    assert(ps[i] == split_seq(raw@, ',')[i]);
                    assert(logins_upto(ps, k as int).contains(x));
                }
                if views(r@).contains(x) {
                    assert(logins_upto(ps, k as int).contains(x));
                    let i = choose|i: int| 0 <= i < k && x == normalized_login(#[trigger] ps[i]);
                    assert(ps[i] == split_seq(raw@, ',')[i]);
                }
            }
        }
    }
    r
}

/// The text of a setting that may be unset; unset reads as empty.
pub open spec fn setting_or_empty(v: Option<String>) -> Seq<char> {
    match v {
        Some(s) => s@,
        None => Seq::empty(),
    }
}

fn take_or_empty(v: Option<String>) -> (r: String)
    ensures
        r@ == setting_or_empty(v),
{
    match v {
        Some(s) => s,
        None => String::new(),
    }
}

impl Config {
    /// Settings from their raw values (`None` where unset): sign-in stays enabled unless
    /// set to exactly `false`, the public address defaults to the local one, and
    /// sessions last a week.
    pub fn from_settings(
        client_id: Option<String>,
        client_secret: Option<String>,
        login_enabled: Option<String>,
        base_url: Option<String>,
        moderator_logins: Option<String>,
    ) -> (c: Config)
        ensures
            c.github_client_id@ == setting_or_empty(client_id),
            c.github_client_secret@ == setting_or_empty(client_secret),
            c.github_login_enabled == !(login_enabled matches Some(v) && v@ == "false"@),
            c.base_url@ == (match base_url {
                Some(u) => u@,
                None => "http://localhost:4321"@,
            }),
            c.session_ttl_sec == SESSION_TTL_SEC,
            views(c.moderator_logins@).no_duplicates(),
            views(c.moderator_logins@).to_set() == login_set(setting_or_empty(moderator_logins)),
    {
        let enabled = match &login_enabled {
            Some(v) => !str_eq(v.as_str(), "false"),
            None => true,
        };
        let url = match base_url {
            Some(u) => u,
            None => to_string("http://localhost:4321"),
        };
        let raw_logins = take_or_empty(moderator_logins);
        Config {
            github_client_id: take_or_empty(client_id),
            github_client_secret: take_or_empty(client_secret),
            github_login_enabled: enabled,
            base_url: url,
            session_ttl_sec: SESSION_TTL_SEC,
            moderator_logins: parse_login_list(raw_logins.as_str()),
        }
    }

    /// Whether the public address is served over HTTPS, so cookies are marked secure.
    pub fn secure_cookies(&self) -> (r: bool)
        ensures
            r == "https://"@.is_prefix_of(self.base_url@),
    {
        starts_with(self.base_url.as_str(), "https://")
    }

    /// Whether `login` is a moderator's, compared without regard to ASCII case.
    pub fn is_moderator(&self, login: &str) -> (r: bool)
        ensures
            r == views(self.moderator_logins@).contains(lower_seq(login@)),
    {
        let wanted = to_ascii_lowercase(login);
        let mut i: usize = 0;
        while i < self.moderator_logins.len()
            invariant
                i <= self.moderator_logins@.len(),
                wanted@ == lower_seq(login@),
                forall|k: int| 0 <= k < i ==> (#[trigger] self.moderator_logins@[k])@ != wanted@,
            decreases self.moderator_logins@.len() - i,
        {
            if self.moderator_logins[i] == wanted {
                assert(views(self.moderator_logins@)[i as int] == wanted@);
                return true;
            }
            i = i + 1;
        }
        assert forall|k: int| 0 <= k < views(self.moderator_logins@).len() implies #[trigger] views(
            self.moderator_logins@,
        )[k] != wanted@ by {
            assert(views(self.moderator_logins@)[k] == self.moderator_logins@[k]@);
        }
        false
    }

    /// The address GitHub sends the user back to after sign-in.
    pub fn callback_url(&self) -> (r: String)
        ensures
            r@ == self.base_url@ + "/api/auth/callback"@,
    {
        concat(self.base_url.as_str(), "/api/auth/callback")
    }
}

/// Law: whether a login is a moderator's does not depend on its ASCII case.
pub proof fn lemma_moderator_case_insensitive(logins: Seq<String>, a: Seq<char>, b: Seq<char>)
    requires
        lower_seq(a) == lower_seq(b),
    ensures
        views(logins).contains(lower_seq(a)) == views(logins).contains(lower_seq(b)),
{
}

/// The SQLite URL of a database path: a path that already is an `sqlite:` URL is
/// kept, any other is a file path (whose directory the caller creates).
pub open spec fn database_url_of(path: Seq<char>) -> Seq<char> {
    if "sqlite:"@.is_prefix_of(path) {
        path
    } else {
        "sqlite://"@ + path
    }
}

/// Whether a database path names a file rather than an `sqlite:` URL.
pub fn is_database_file(path: &str) -> (r: bool)
    ensures
        r == !"sqlite:"@.is_prefix_of(path@),
{
    !starts_with(path, "sqlite:")
}

pub fn database_url(path: &str) -> (r: String)
    ensures
        r@ == database_url_of(path@),
{
    if !is_database_file(path) {
        to_string(path)
    } else {
        concat("sqlite://", path)
    }
}

} // verus!
