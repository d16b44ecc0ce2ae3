//! The session store: sessions keyed by cookie token, permission grants and
//! the guilds that already have a group.
//!
//! [`Store`] keeps the three tables in memory and runs the statements on
//! them. A host that keeps its tables in a database runs the same
//! statements there and hands what came back, rows or failure, to
//! [`inserted`], [`looked_up`], [`names_found`] and [`permission_found`],
//! which decide the outcome for either store.

use vstd::prelude::*;
use vstd::string::*;
use crate::discord::{OauthTokenResponse, OauthTokenResponseView};
use crate::error::{AuthError, Cause, Error, ErrorKind, ErrorKindView, CauseView};
use crate::text::{
    clone_opt, contains_ref_text, contains_text, dedup_texts, distinct, lemma_distinct,
    lemma_distinct_keeps, lemma_distinct_push, lemma_push_no_duplicates, opt_text, ref_texts,
    texts,
};
use crate::token::CookieToken;
use crate::types::{User, UserView};

verus! {

/// A session: a cookie token bound to a provider credential and to the
/// identity that was cached when the session was made. The expiry is kept
/// as the provider gave it, in seconds from issue; it is not enforced.
#[derive(Debug, PartialEq, Eq)]
pub struct Session {
    pub id: i64,
    pub cookie: CookieToken,
    pub token: String,
    pub refresh_token: String,
    pub expires: u32,
    pub updated: u64,
    pub discord_id: String,
    pub discord_name: String,
    pub discord_avatar: Option<String>,
}

/// The mathematical value of a [`Session`].
pub struct SessionView {
    pub id: i64,
    pub cookie: CookieToken,
    pub token: Seq<char>,
    pub refresh_token: Seq<char>,
    pub expires: u32,
    pub updated: u64,
    pub discord_id: Seq<char>,
    pub discord_name: Seq<char>,
    pub discord_avatar: Option<Seq<char>>,
}

impl View for Session {
    type V = SessionView;

    open spec fn view(&self) -> SessionView {
        SessionView {
            id: self.id,
            cookie: self.cookie,
            token: self.token@,
            refresh_token: self.refresh_token@,
            expires: self.expires,
            updated: self.updated,
            discord_id: self.discord_id@,
            discord_name: self.discord_name@,
            discord_avatar: opt_text(self.discord_avatar),
        }
    }
}

impl Clone for Session {
    fn clone(&self) -> (r: Self)
        ensures
            r@ == self@,
    {
        Session {
            id: self.id,
            cookie: self.cookie,
            token: self.token.clone(),
            refresh_token: self.refresh_token.clone(),
            expires: self.expires,
            updated: self.updated,
            discord_id: self.discord_id.clone(),
            discord_name: self.discord_name.clone(),
            discord_avatar: clone_opt(&self.discord_avatar),
        }
    }
}

/// What an insert of a session hands to the store: every column but the
/// two that the store assigns itself.
#[derive(Debug, PartialEq, Eq)]
pub struct NewSession {
    pub session_token: String,
    pub session_expires: u32,
    pub session_refresh_token: String,
    pub session_cookie: CookieToken,
    pub discord_id: String,
    pub discord_name: String,
    pub discord_avatar: Option<String>,
}

impl NewSession {
    /// The session that the row becomes once the store has given it an
    /// identifier and a time stamp.
    pub open spec fn stored(self, id: i64, updated: u64) -> SessionView {
        SessionView {
            id,
            cookie: self.session_cookie,
            token: self.session_token@,
            refresh_token: self.session_refresh_token@,
            expires: self.session_expires,
            updated,
            discord_id: self.discord_id@,
            discord_name: self.discord_name@,
            discord_avatar: opt_text(self.discord_avatar),
        }
    }
}

/// The session that a handshake yields: the provider's credential and the
/// identity, under the cookie token.
pub open spec fn session_of(
    cookie: CookieToken,
    token: OauthTokenResponseView,
    user: UserView,
    id: i64,
    updated: u64,
) -> SessionView {
    SessionView {
        id,
        cookie,
        token: token.access_token,
        refresh_token: token.refresh_token,
        expires: token.expires_in,
        updated,
        discord_id: user.id,
        discord_name: user.name,
        discord_avatar: user.avatar,
    }
}

/// The row to insert for a handshake that yielded `token` and `user`.
pub fn new_session(cookie: CookieToken, token: &OauthTokenResponse, user: &User) -> (row:
    NewSession)
    ensures
        forall|id: i64, updated: u64| #[trigger]
            row.stored(id, updated) == session_of(cookie, token@, user@, id, updated),
{
    NewSession {
        session_token: token.access_token.clone(),
        session_expires: token.expires_in,
        session_refresh_token: token.refresh_token.clone(),
        session_cookie: cookie,
        discord_id: user.id.clone(),
        discord_name: user.name.clone(),
        discord_avatar: clone_opt(&user.avatar),
    }
}

/// One grant: a role of a guild holds a permission.
#[derive(Debug, PartialEq, Eq)]
pub struct PermissionGrant {
    pub guild_id: String,
    pub role_id: String,
    pub permission: String,
}

/// The mathematical value of a [`PermissionGrant`].
pub struct PermissionGrantView {
    pub guild_id: Seq<char>,
    pub role_id: Seq<char>,
    pub permission: Seq<char>,
}

impl View for PermissionGrant {
    type V = PermissionGrantView;

    open spec fn view(&self) -> PermissionGrantView {
        PermissionGrantView {
            guild_id: self.guild_id@,
            role_id: self.role_id@,
            permission: self.permission@,
        }
    }
}

/// The values of a sequence of sessions.
pub open spec fn session_views(rows: Seq<Session>) -> Seq<SessionView> {
    rows.map_values(|s: Session| s@)
}

/// The values of a sequence of grants.
pub open spec fn grant_views(rows: Seq<PermissionGrant>) -> Seq<PermissionGrantView> {
    rows.map_values(|g: PermissionGrant| g@)
}

/// Whether a session was issued under the cookie token.
pub open spec fn issued(rows: Seq<SessionView>, cookie: CookieToken) -> bool {
    exists|i: int| 0 <= i < rows.len() && (#[trigger] rows[i]).cookie == cookie
}

/// The sessions under a cookie token, in the order of the table.
pub open spec fn sessions_under(rows: Seq<SessionView>, cookie: CookieToken) -> Seq<SessionView> {
    rows.filter(|s: SessionView| s.cookie == cookie)
}

/// No two sessions share a cookie token.
pub open spec fn cookies_distinct(rows: Seq<SessionView>) -> bool {
    forall|i: int, j: int|
        0 <= i < j < rows.len() ==> (#[trigger] rows[i]).cookie != (#[trigger] rows[j]).cookie
}

/// Every session carries the identifier of its place in the table.
pub open spec fn ids_serial(rows: Seq<SessionView>) -> bool {
    forall|i: int| 0 <= i < rows.len() ==> (#[trigger] rows[i]).id == i + 1
}

/// Whether a grant answers a question about `guild` asked by a holder of
/// `roles`.
pub open spec fn in_scope(g: PermissionGrantView, guild: Seq<char>, roles: Seq<Seq<char>>) -> bool {
    g.guild_id == guild && roles.contains(g.role_id)
}

/// The permissions of the grants that answer for the roles in the guild:
/// one entry for each grant in scope, in the order of the table.
pub open spec fn granted_rows(
    grants: Seq<PermissionGrantView>,
    guild: Seq<char>,
    roles: Seq<Seq<char>>,
) -> Seq<Seq<char>> {
    grants.filter(|g: PermissionGrantView| in_scope(g, guild, roles)).map_values(
        |g: PermissionGrantView| g.permission,
    )
}

/// The set of the permissions that the roles hold in the guild: each
/// permission once, however many of the roles grant it, in the order in
/// which the table first grants it.
pub open spec fn granted(
    grants: Seq<PermissionGrantView>,
    guild: Seq<char>,
    roles: Seq<Seq<char>>,
) -> Seq<Seq<char>> {
    distinct(granted_rows(grants, guild, roles))
}

/// Whether at least one of the roles holds the permission in the guild.
pub open spec fn permitted(
    grants: Seq<PermissionGrantView>,
    guild: Seq<char>,
    roles: Seq<Seq<char>>,
    permission: Seq<char>,
) -> bool {
    exists|i: int|
        0 <= i < grants.len() && in_scope(#[trigger] grants[i], guild, roles) && grants[i].permission
            == permission
}

/// The guilds among `ids` that the groups table names: one entry for each
/// row, in the order of the table.
pub open spec fn group_rows(groups: Seq<Seq<char>>, ids: Seq<Seq<char>>) -> Seq<Seq<char>> {
    groups.filter(|g: Seq<char>| ids.contains(g))
}

/// The set of the guilds among `ids` that have a group: each guild once,
/// in the order of the table.
pub open spec fn bound_groups(groups: Seq<Seq<char>>, ids: Seq<Seq<char>>) -> Seq<Seq<char>> {
    distinct(group_rows(groups, ids))
}

/// A statement counter after one more statement; it stays at its maximum.
pub open spec fn bump(n: u64) -> u64 {
    if n < u64::MAX {
        (n + 1) as u64
    } else {
        n
    }
}

/// Why the store refuses to insert a session under `cookie`: the cookie
/// token is taken, or the table cannot take another row.
pub open spec fn insert_refusal(rows: Seq<SessionView>, cookie: CookieToken) -> Option<Seq<char>> {
    if issued(rows, cookie) {
        Some("duplicate key value violates unique constraint \"sessions_session_cookie_key\""@)
    } else if rows.len() >= i64::MAX {
        Some("sessions table is full"@)
    } else {
        None
    }
}

/// The store, in memory: three tables, a clock that stamps new sessions,
/// and a count of the statements that were run against it.
#[derive(Debug)]
pub struct Store {
    sessions: Vec<Session>,
    permissions: Vec<PermissionGrant>,
    groups: Vec<String>,
    now: u64,
    statements: u64,
}

impl Store {
    /// The sessions table.
    pub closed spec fn sessions(&self) -> Seq<SessionView> {
        session_views(self.sessions@)
    }

    /// The permissions table.
    pub closed spec fn grants(&self) -> Seq<PermissionGrantView> {
        grant_views(self.permissions@)
    }

    /// The groups table: the guild of each group.
    pub closed spec fn groups(&self) -> Seq<Seq<char>> {
        texts(self.groups@)
    }

    /// The reading of the store's clock.
    pub closed spec fn now(&self) -> u64 {
        self.now
    }

    /// How many statements were run against the store so far.
    pub closed spec fn statements(&self) -> u64 {
        self.statements
    }

    /// The store's invariant: each table is keyed. Sessions are unique by
    /// cookie token and carry serial identifiers, grants are unique by
    /// guild, role and permission, and groups are unique by guild.
    pub open spec fn wf(&self) -> bool {
        &&& cookies_distinct(self.sessions())
        &&& ids_serial(self.sessions())
        &&& self.grants().no_duplicates()
        &&& self.groups().no_duplicates()
    }

    /// Whether `after` holds the same tables and clock as `self`.
    pub open spec fn same_data(&self, after: &Store) -> bool {
        &&& after.sessions() == self.sessions()
        &&& after.grants() == self.grants()
        &&& after.groups() == self.groups()
        &&& after.now() == self.now()
    }

    /// Whether `after` is `self` untouched: same data, no statement run.
    pub open spec fn untouched(&self, after: &Store) -> bool {
        self.same_data(after) && after.statements() == self.statements()
    }

    /// Whether `after` is `self` after one statement that only read.
    pub open spec fn read_once(&self, after: &Store) -> bool {
        self.same_data(after) && after.statements() == bump(self.statements())
    }

    /// An empty store.
    pub fn new() -> (store: Store)
        ensures
            store.wf(),
            store.sessions() == Seq::<SessionView>::empty(),
            store.grants() == Seq::<PermissionGrantView>::empty(),
            store.groups() == Seq::<Seq<char>>::empty(),
            store.now() == 0,
            store.statements() == 0,
    {
        let store = Store {
            sessions: Vec::new(),
            permissions: Vec::new(),
            groups: Vec::new(),
            now: 0,
            statements: 0,
        };
        assert(store.sessions() =~= Seq::<SessionView>::empty());
        assert(store.grants() =~= Seq::<PermissionGrantView>::empty());
        assert(store.groups() =~= Seq::<Seq<char>>::empty());
        store
    }

    /// Sets the store's clock.
    pub fn set_time(&mut self, now: u64)
        ensures
            final(self).now() == now,
            final(self).sessions() == old(self).sessions(),
            final(self).grants() == old(self).grants(),
            final(self).groups() == old(self).groups(),
            final(self).statements() == old(self).statements(),
    {
        self.now = now;
    }

    fn holds_grant(&self, guild_id: &String, role_id: &String, permission: &String) -> (found:
        bool)
        ensures
            found == self.grants().contains(
                PermissionGrantView {
                    guild_id: guild_id@,
                    role_id: role_id@,
                    permission: permission@,
                },
            ),
    {
        let ghost row = PermissionGrantView {
            guild_id: guild_id@,
            role_id: role_id@,
            permission: permission@,
        };
        let mut i: usize = 0;
        while i < self.permissions.len()
            invariant
                i <= self.permissions.len(),
                row == (PermissionGrantView {
                    guild_id: guild_id@,
                    role_id: role_id@,
                    permission: permission@,
                }),
                forall|k: int| 0 <= k < i ==> self.grants()[k] != row,
            decreases self.permissions.len() - i,
        {
            let grant = &self.permissions[i];
            if grant.guild_id == *guild_id && grant.role_id == *role_id && grant.permission
                == *permission {
                assert(self.grants()[i as int] == row);
                return true;
            }
            i += 1;
        }
        false
    }

    /// Records a grant, unless the table holds it already. The result says
    /// whether a row was added.
    pub fn grant(&mut self, guild_id: String, role_id: String, permission: String) -> (added: bool)
        ensures
            added == !old(self).grants().contains(
                PermissionGrantView {
                    guild_id: guild_id@,
                    role_id: role_id@,
                    permission: permission@,
                },
            ),
            final(self).grants() == if added {
                old(self).grants().push(
                    PermissionGrantView {
                        guild_id: guild_id@,
                        role_id: role_id@,
                        permission: permission@,
                    },
                )
            } else {
                old(self).grants()
            },
            final(self).sessions() == old(self).sessions(),
            final(self).groups() == old(self).groups(),
            final(self).now() == old(self).now(),
            final(self).statements() == old(self).statements(),
            old(self).wf() ==> final(self).wf(),
    {
        if self.holds_grant(&guild_id, &role_id, &permission) {
            return false;
        }
        let ghost row = PermissionGrantView {
            guild_id: guild_id@,
            role_id: role_id@,
            permission: permission@,
        };
        self.permissions.push(PermissionGrant { guild_id, role_id, permission });
        assert(self.grants() =~= old(self).grants().push(row));
        proof {
            if old(self).wf() {
                lemma_push_no_duplicates(old(self).grants(), row);
            }
        }
        true
    }

    /// Records that a guild has a group, unless the table names the guild
    /// already. The result says whether a row was added.
    pub fn add_group(&mut self, guild_id: String) -> (added: bool)
        ensures
            added == !old(self).groups().contains(guild_id@),
            final(self).groups() == if added {
                old(self).groups().push(guild_id@)
            } else {
                old(self).groups()
            },
            final(self).sessions() == old(self).sessions(),
            final(self).grants() == old(self).grants(),
            final(self).now() == old(self).now(),
            final(self).statements() == old(self).statements(),
            old(self).wf() ==> final(self).wf(),
    {
        if contains_text(&self.groups, &guild_id) {
            return false;
        }
        self.groups.push(guild_id);
        assert(self.groups() =~= old(self).groups().push(guild_id@));
        proof {
            if old(self).wf() {
                lemma_push_no_duplicates(old(self).groups(), guild_id@);
            }
        }
        true
    }

    /// The number of statements that were run against the store so far.
    pub fn statement_count(&self) -> (n: u64)
        ensures
            n == self.statements(),
    {
        self.statements
    }

    /// The number of sessions in the store.
    pub fn session_count(&self) -> (n: usize)
        ensures
            n == self.sessions().len(),
    {
        self.sessions.len()
    }

    fn count_statement(&mut self)
        ensures
            old(self).read_once(final(self)),
            final(self).sessions@ == old(self).sessions@,
            final(self).permissions@ == old(self).permissions@,
            final(self).groups@ == old(self).groups@,
    {
        if self.statements < u64::MAX {
            self.statements = self.statements + 1;
        }
    }

    fn holds(&self, cookie: &CookieToken) -> (found: bool)
        ensures
            found == issued(self.sessions(), *cookie),
    {
        let mut i: usize = 0;
        while i < self.sessions.len()
            invariant
                i <= self.sessions.len(),
                forall|k: int| 0 <= k < i ==> (#[trigger] self.sessions()[k]).cookie != *cookie,
            decreases self.sessions.len() - i,
        {
            if self.sessions[i].cookie == *cookie {
                assert(self.sessions()[i as int].cookie == *cookie);
                return true;
            }
            i += 1;
        }
        false
    }

    /// Runs the insert of a session. The store assigns the identifier and
    /// the time stamp. It answers with the number of rows that the insert
    /// affected, or with the reason for which it refused the row.
    pub fn insert_session(&mut self, row: NewSession) -> (r: Result<u64, String>)
        requires
            old(self).wf(),
        ensures
            final(self).wf(),
            final(self).grants() == old(self).grants(),
            final(self).groups() == old(self).groups(),
            final(self).now() == old(self).now(),
            final(self).statements() == bump(old(self).statements()),
            match insert_refusal(old(self).sessions(), row.session_cookie) {
                Some(reason) => r is Err && r->Err_0@ == reason && final(self).sessions() == old(self).sessions(),
                None => r == Ok::<u64, String>(1) && final(self).sessions() == old(self).sessions().push(
                    row.stored((old(self).sessions().len() + 1) as i64, old(self).now()),
                ),
            },
    {
        self.count_statement();
        if self.holds(&row.session_cookie) {
            return Err(
                String::from_str(
                    "duplicate key value violates unique constraint \"sessions_session_cookie_key\"",
                ),
            );
        }
        if self.sessions.len() as u64 >= i64::MAX as u64 {
            return Err(String::from_str("sessions table is full"));
        }
        let id: i64 = (self.sessions.len() as u64 + 1) as i64;
        let ghost stored = row.stored(id, self.now);
        self.sessions.push(
            Session {
                id,
                cookie: row.session_cookie,
                token: row.session_token,
                refresh_token: row.session_refresh_token,
                expires: row.session_expires,
                updated: self.now,
                discord_id: row.discord_id,
                discord_name: row.discord_name,
                discord_avatar: row.discord_avatar,
            },
        );
        assert(self.sessions() =~= old(self).sessions().push(stored));
        Ok(1)
    }

    /// Runs the lookup of the sessions under a cookie token.
    pub fn select_session(&mut self, cookie: &CookieToken) -> (rows: Vec<Session>)
        ensures
            old(self).read_once(final(self)),
            session_views(rows@) == sessions_under(old(self).sessions(), *cookie),
    {
        self.count_statement();
        let mut rows: Vec<Session> = Vec::new();
        let mut i: usize = 0;
        let ghost pred = |s: SessionView| s.cookie == *cookie;
        assert(session_views(rows@) =~= self.sessions().take(0).filter(pred)) by {
            reveal(Seq::filter);
        }
        while i < self.sessions.len()
            invariant
                i <= self.sessions.len(),
                pred == |s: SessionView| s.cookie == *cookie,
                session_views(rows@) == self.sessions().take(i as int).filter(pred),
            decreases self.sessions.len() - i,
        {
            proof {
                let all = self.sessions();
                all.lemma_take_succ_push(i as int);
                all.take(i as int).lemma_filter_push(all[i as int], pred);
            }
            if self.sessions[i].cookie == *cookie {
                let ghost before = rows@;
                rows.push(self.sessions[i].clone());
                assert(session_views(rows@) =~= session_views(before).push(
                    self.sessions()[i as int],
                ));
            }
            i += 1;
        }
        assert(self.sessions().take(i as int) =~= self.sessions());
        rows
    }

    /// Runs the query for the set of the permissions that the roles hold in
    /// the guild: a permission that is listed already is not listed again.
    pub fn select_permissions(&mut self, guild_id: &String, role_ids: &Vec<String>) -> (rows: Vec<
        String,
    >)
        ensures
            old(self).read_once(final(self)),
            texts(rows@) == granted(old(self).grants(), guild_id@, texts(role_ids@)),
    {
        self.count_statement();
        let mut rows: Vec<String> = Vec::new();
        let mut i: usize = 0;
        let ghost pred = |g: PermissionGrantView| in_scope(g, guild_id@, texts(role_ids@));
        let ghost pick = |g: PermissionGrantView| g.permission;
        assert(texts(rows@) =~= distinct(self.grants().take(0).filter(pred).map_values(pick))) by {
            reveal(Seq::filter);
        }
        while i < self.permissions.len()
            invariant
                i <= self.permissions.len(),
                pred == |g: PermissionGrantView| in_scope(g, guild_id@, texts(role_ids@)),
                pick == |g: PermissionGrantView| g.permission,
                texts(rows@) == distinct(
                    self.grants().take(i as int).filter(pred).map_values(pick),
                ),
            decreases self.permissions.len() - i,
        {
            proof {
                let all = self.grants();
                all.lemma_take_succ_push(i as int);
                all.take(i as int).lemma_filter_push(all[i as int], pred);
                all.take(i as int).filter(pred).lemma_push_map_commute(pick, all[i as int]);
                lemma_distinct_push(
                    all.take(i as int).filter(pred).map_values(pick),
                    all[i as int].permission,
                );
            }
            let grant = &self.permissions[i];
            if grant.guild_id == *guild_id && contains_text(role_ids, &grant.role_id)
                && !contains_text(&rows, &grant.permission) {
                let ghost before = rows@;
                rows.push(grant.permission.clone());
                assert(texts(rows@) =~= texts(before).push(self.grants()[i as int].permission));
            }
            i += 1;
        }
        assert(self.grants().take(i as int) =~= self.grants());
        rows
    }

    /// Runs the query that tests for one permission and stops at the first
    /// grant that answers it. The result is the number of rows found, at
    /// most one.
    pub fn select_grant(
        &mut self,
        guild_id: &String,
        role_ids: &Vec<String>,
        permission: &String,
    ) -> (found: u64)
        ensures
            old(self).read_once(final(self)),
            found == if permitted(old(self).grants(), guild_id@, texts(role_ids@), permission@) {
                1u64
            } else {
                0u64
            },
    {
        self.count_statement();
        let mut i: usize = 0;
        while i < self.permissions.len()
            invariant
                i <= self.permissions.len(),
                old(self).read_once(self),
                forall|k: int|
                    0 <= k < i ==> !(in_scope(
                        #[trigger] self.grants()[k],
                        guild_id@,
                        texts(role_ids@),
                    ) && self.grants()[k].permission == permission@),
            decreases self.permissions.len() - i,
        {
            let grant = &self.permissions[i];
            if grant.guild_id == *guild_id && grant.permission == *permission && contains_text(
                role_ids,
                &grant.role_id,
            ) {
                assert(in_scope(self.grants()[i as int], guild_id@, texts(role_ids@)));
                return 1;
            }
            i += 1;
        }
        0
    }

    /// Runs the query for those of the given guilds that have a group: one
    /// row for each row of the table that names one of them.
    pub fn select_groups(&mut self, guild_ids: &Vec<&String>) -> (rows: Vec<String>)
        ensures
            old(self).read_once(final(self)),
            texts(rows@) == group_rows(old(self).groups(), ref_texts(guild_ids@)),
            old(self).wf() ==> texts(rows@).no_duplicates(),
    {
        proof {
            if self.wf() {
                lemma_filter_no_duplicates(
                    self.groups(),
                    |g: Seq<char>| ref_texts(guild_ids@).contains(g),
                );
            }
        }
        self.count_statement();
        let mut rows: Vec<String> = Vec::new();
        let mut i: usize = 0;
        let ghost pred = |g: Seq<char>| ref_texts(guild_ids@).contains(g);
        assert(texts(rows@) =~= self.groups().take(0).filter(pred)) by {
            reveal(Seq::filter);
        }
        while i < self.groups.len()
            invariant
                i <= self.groups.len(),
                pred == |g: Seq<char>| ref_texts(guild_ids@).contains(g),
                texts(rows@) == self.groups().take(i as int).filter(pred),
            decreases self.groups.len() - i,
        {
            proof {
                let all = self.groups();
                all.lemma_take_succ_push(i as int);
                all.take(i as int).lemma_filter_push(all[i as int], pred);
            }
            if contains_ref_text(guild_ids, &self.groups[i]) {
                let ghost before = rows@;
                rows.push(self.groups[i].clone());
                assert(texts(rows@) =~= texts(before).push(self.groups()[i as int]));
            }
            i += 1;
        }
        assert(self.groups().take(i as int) =~= self.groups());
        rows
    }
}

/// The error of an insert that the store ran without storing a row.
pub open spec fn no_rows_error() -> ErrorKindView {
    ErrorKindView::Database("No rows were updated"@)
}

/// The error of a statement that the store failed to run.
pub open spec fn store_error(reason: Seq<char>) -> ErrorKindView {
    ErrorKindView::Error(CauseView::Store(reason))
}

/// The error of a lookup by cookie token that found more than one row.
pub open spec fn ambiguous_error() -> ErrorKindView {
    store_error("query returned an unexpected number of rows"@)
}

/// The values of the outcome of a lookup.
pub open spec fn session_result(r: Result<Session, Error>) -> Result<SessionView, ErrorKindView> {
    match r {
        Ok(s) => Ok(s@),
        Err(e) => Err(e@),
    }
}

/// What a lookup by cookie token makes of the rows found: no row means
/// that the caller is not authorized, one row is the session, and more
/// than one row is a failure of the store.
pub open spec fn found(rows: Seq<SessionView>) -> Result<SessionView, ErrorKindView> {
    if rows.len() == 0 {
        Err(AuthError::Forbidden.error())
    } else if rows.len() == 1 {
        Ok(rows[0])
    } else {
        Err(ambiguous_error())
    }
}

/// What the insert of a session under `cookie` comes to, given the store's
/// answer: the cookie token where exactly one row was affected.
pub fn inserted(affected: Result<u64, String>, cookie: CookieToken) -> (r: Result<
    CookieToken,
    Error,
>)
    ensures
        match affected {
            Ok(n) => if n == 1 {
                r == Ok::<CookieToken, Error>(cookie)
            } else {
                r is Err && r->Err_0@ == no_rows_error()
            },
            Err(reason) => r is Err && r->Err_0@ == store_error(reason@),
        },
{
    match affected {
        Ok(n) => {
            if n == 1 {
                Ok(cookie)
            } else {
                Err(Error { kind: ErrorKind::Database(String::from_str("No rows were updated")) })
            }
        },
        Err(reason) => Err(Error::map_from(Cause::Store(reason))),
    }
}

/// Stores a session for a finished handshake under the given cookie
/// token. Exactly one row is added, or none and the store's refusal is
/// returned.
pub fn create_session_with(
    client: &mut Store,
    cookie: CookieToken,
    token: &OauthTokenResponse,
    user: &User,
) -> (r: Result<CookieToken, Error>)
    requires
        old(client).wf(),
    ensures
        final(client).wf(),
        final(client).grants() == old(client).grants(),
        final(client).groups() == old(client).groups(),
        final(client).now() == old(client).now(),
        final(client).statements() == bump(old(client).statements()),
        match insert_refusal(old(client).sessions(), cookie) {
            Some(reason) => r is Err && r->Err_0@ == store_error(reason) && final(client).sessions() == old(client).sessions(),
            None => r == Ok::<CookieToken, Error>(cookie) && final(client).sessions() == old(client).sessions().push(
                session_of(
                    cookie,
                    token@,
                    user@,
                    (old(client).sessions().len() + 1) as i64,
                    old(client).now(),
                ),
            ),
        },
{
    let row = new_session(cookie, token, user);
    assert(row.session_cookie == cookie) by {
        assert(row.stored(0, 0) == session_of(cookie, token@, user@, 0, 0));
    }
    let affected = client.insert_session(row);
    inserted(affected, cookie)
}

/// Stores a session for a finished handshake under a fresh random cookie
/// token, and returns the token. Exactly one row is added, or none and
/// the store's refusal of the drawn token is returned. An empty store
/// refuses no token.
pub fn create_session(client: &mut Store, token: &OauthTokenResponse, user: &User) -> (r: Result<
    CookieToken,
    Error,
>)
    requires
        old(client).wf(),
    ensures
        final(client).wf(),
        final(client).grants() == old(client).grants(),
        final(client).groups() == old(client).groups(),
        final(client).now() == old(client).now(),
        final(client).statements() == bump(old(client).statements()),
        match r {
            Ok(cookie) => {
                &&& cookie.is_random_layout()
                &&& insert_refusal(old(client).sessions(), cookie) is None
                &&& final(client).sessions() == old(client).sessions().push(
                    session_of(
                        cookie,
                        token@,
                        user@,
                        (old(client).sessions().len() + 1) as i64,
                        old(client).now(),
                    ),
                )
            },
            Err(e) => {
                &&& final(client).sessions() == old(client).sessions()
                &&& exists|cookie: CookieToken|
                    {
                        &&& cookie.is_random_layout()
                        &&& (#[trigger] insert_refusal(old(client).sessions(), cookie)) is Some
                        &&& e@ == store_error(insert_refusal(old(client).sessions(), cookie)->0)
                    }
            },
        },
        old(client).sessions().len() == 0 ==> r is Ok,
{
    let cookie = CookieToken::generate();
    let r = create_session_with(client, cookie, token, user);
    proof {
        if r is Err {
            assert(insert_refusal(old(client).sessions(), cookie) is Some);
        }
    }
    r
}

/// What a lookup by cookie token makes of the rows that the store found.
pub fn found_session(rows: Vec<Session>) -> (r: Result<Session, Error>)
    ensures
        session_result(r) == found(session_views(rows@)),
{
    let mut rows = rows;
    if rows.len() == 0 {
        Err(Error::from_auth(AuthError::Forbidden))
    } else if rows.len() == 1 {
        let ghost first = rows@[0];
        match rows.pop() {
            Some(session) => {
                assert(session == first);
                Ok(session)
            },
            None => Err(Error::from_auth(AuthError::Forbidden)),
        }
    } else {
        Err(
            Error::map_from(
                Cause::Store(String::from_str("query returned an unexpected number of rows")),
            ),
        )
    }
}

/// Under distinct cookie tokens a lookup finds at most one session, and
/// finds one exactly if a session was issued under the token.
pub proof fn lemma_sessions_under(rows: Seq<SessionView>, cookie: CookieToken)
    requires
        cookies_distinct(rows),
    ensures
        sessions_under(rows, cookie).len() <= 1,
        sessions_under(rows, cookie).len() == 1 <==> issued(rows, cookie),
        issued(rows, cookie) ==> rows.contains(sessions_under(rows, cookie)[0]) && sessions_under(
            rows,
            cookie,
        )[0].cookie == cookie,
    decreases rows.len(),
{
    let pred = |s: SessionView| s.cookie == cookie;
    if rows.len() == 0 {
        reveal(Seq::filter);
    } else {
        let front = rows.drop_last();
        let last = rows.last();
        assert(rows =~= front.push(last));
        lemma_sessions_under(front, cookie);
        front.lemma_filter_push(last, pred);
        if last.cookie == cookie {
            if issued(front, cookie) {
                let i = choose|i: int| 0 <= i < front.len() && (#[trigger] front[i]).cookie == cookie;
                assert(rows[i].cookie == rows[rows.len() - 1].cookie);
            }
            assert(sessions_under(rows, cookie) =~= seq![last]);
            assert(rows[rows.len() - 1].cookie == cookie);
            assert(rows.contains(last));
        } else {
            if issued(rows, cookie) {
                let i = choose|i: int| 0 <= i < rows.len() && (#[trigger] rows[i]).cookie == cookie;
                assert(front[i].cookie == cookie);
                let hit = sessions_under(front, cookie)[0];
                let k = choose|k: int| 0 <= k < front.len() && front[k] == hit;
                assert(rows[k] == hit);
            }
            if issued(front, cookie) {
                let i = choose|i: int| 0 <= i < front.len() && (#[trigger] front[i]).cookie == cookie;
                assert(rows[i].cookie == cookie);
            }
        }
    }
}

/// Looks the session up that was issued under a cookie token. A token
/// under which no session was issued is answered as forbidden.
pub fn get_session(client: &mut Store, session: &CookieToken) -> (r: Result<Session, Error>)
    requires
        old(client).wf(),
    ensures
        final(client).wf(),
        old(client).read_once(final(client)),
        session_result(r) == found(sessions_under(old(client).sessions(), *session)),
        r is Ok <==> issued(old(client).sessions(), *session),
        r is Ok ==> old(client).sessions().contains(r->Ok_0@) && r->Ok_0@.cookie == *session,
        r is Err ==> r->Err_0@ == AuthError::Forbidden.error(),
{
    proof {
        lemma_sessions_under(client.sessions(), *session);
    }
    let rows = client.select_session(session);
    found_session(rows)
}

/// What a query for names comes to, permissions or guilds: the set of the
/// names that came back, each once and in the order of first occurrence;
/// a failure of the store is its error.
pub fn names_found(rows: Result<Vec<String>, String>) -> (r: Result<Vec<String>, Error>)
    ensures
        match rows {
            Ok(names) => r is Ok && texts(r->Ok_0@) == distinct(texts(names@)),
            Err(reason) => r is Err && r->Err_0@ == store_error(reason@),
        },
{
    match rows {
        Ok(names) => Ok(dedup_texts(names)),
        Err(reason) => Err(Error::map_from(Cause::Store(reason))),
    }
}

/// What the test for one permission comes to, given the number of rows
/// that the store found: permitted where there is a row; a failure of the
/// store is its error.
pub fn permission_found(rows: Result<u64, String>) -> (r: Result<bool, Error>)
    ensures
        match rows {
            Ok(n) => r is Ok && r->Ok_0 == (n != 0),
            Err(reason) => r is Err && r->Err_0@ == store_error(reason@),
        },
{
    match rows {
        Ok(n) => Ok(n != 0),
        Err(reason) => Err(Error::map_from(Cause::Store(reason))),
    }
}

/// What a lookup by cookie token comes to: what [`found_session`] makes
/// of the rows; a failure of the store is its error.
pub fn looked_up(rows: Result<Vec<Session>, String>) -> (r: Result<Session, Error>)
    ensures
        match rows {
            Ok(found_rows) => session_result(r) == found(session_views(found_rows@)),
            Err(reason) => r is Err && r->Err_0@ == store_error(reason@),
        },
{
    match rows {
        Ok(found_rows) => found_session(found_rows),
        Err(reason) => Err(Error::map_from(Cause::Store(reason))),
    }
}

/// The roles to ask the store about; `None` where there are none, so that
/// the store need not be asked.
pub fn roles_question(role_ids: Vec<String>) -> (r: Option<Vec<String>>)
    ensures
        role_ids@.len() == 0 <==> r is None,
        r is Some ==> r->0 == role_ids,
{
    if role_ids.len() == 0 {
        None
    } else {
        Some(role_ids)
    }
}

/// The candidates to ask the store about; `None` where there are none, so
/// that the store need not be asked.
pub fn groups_question<'a>(guild_ids: Vec<&'a String>) -> (r: Option<Vec<&'a String>>)
    ensures
        guild_ids@.len() == 0 <==> r is None,
        r is Some ==> r->0 == guild_ids,
{
    if guild_ids.len() == 0 {
        None
    } else {
        Some(guild_ids)
    }
}

/// Lists the set of the permissions that the roles hold in the guild:
/// each permission once, however many of the roles grant it, in the order
/// in which the table first grants it. Without roles the set is empty and
/// the store is not asked.
pub fn get_permissions(client: &mut Store, guild_id: String, role_ids: Vec<String>) -> (r: Result<
    Vec<String>,
    Error,
>)
    ensures
        r is Ok,
        texts(r->Ok_0@) == granted(old(client).grants(), guild_id@, texts(role_ids@)),
        texts(r->Ok_0@).no_duplicates(),
        forall|p: Seq<char>| #[trigger]
            texts(r->Ok_0@).contains(p) <==> permitted(
                old(client).grants(),
                guild_id@,
                texts(role_ids@),
                p,
            ),
        role_ids@.len() == 0 ==> r->Ok_0@.len() == 0 && old(client).untouched(final(client)),
        role_ids@.len() > 0 ==> old(client).read_once(final(client)),
        old(client).wf() ==> final(client).wf(),
{
    proof {
        lemma_granted_is_set(client.grants(), guild_id@, texts(role_ids@));
        lemma_distinct_keeps(granted(client.grants(), guild_id@, texts(role_ids@)));
        if role_ids@.len() == 0 {
            lemma_no_roles(client.grants(), guild_id@, texts(role_ids@));
        }
    }
    match roles_question(role_ids) {
        Some(roles) => names_found(Ok(client.select_permissions(&guild_id, &roles))),
        None => {
            let none: Vec<String> = Vec::new();
            assert(texts(none@) =~= Seq::<Seq<char>>::empty());
            Ok(none)
        },
    }
}

/// Tests whether at least one of the roles holds the permission in the
/// guild, stopping at the first grant that says so. Without roles the
/// answer is no and the store is not asked.
pub fn has_permission(
    client: &mut Store,
    guild_id: String,
    role_ids: Vec<String>,
    permission: String,
) -> (r: Result<bool, Error>)
    ensures
        r is Ok,
        r->Ok_0 == permitted(old(client).grants(), guild_id@, texts(role_ids@), permission@),
        r->Ok_0 == granted(old(client).grants(), guild_id@, texts(role_ids@)).contains(
            permission@,
        ),
        role_ids@.len() == 0 ==> !r->Ok_0 && old(client).untouched(final(client)),
        role_ids@.len() > 0 ==> old(client).read_once(final(client)),
        old(client).wf() ==> final(client).wf(),
{
    proof {
        lemma_permitted_is_membership(client.grants(), guild_id@, texts(role_ids@), permission@);
        if role_ids@.len() == 0 {
            lemma_no_roles(client.grants(), guild_id@, texts(role_ids@));
        }
    }
    match roles_question(role_ids) {
        Some(roles) => permission_found(Ok(client.select_grant(&guild_id, &roles, &permission))),
        None => Ok(false),
    }
}

/// Of the given guilds, lists the set of those that already have a group:
/// each guild once, in the order of the groups table. Without candidates
/// the set is empty and the store is not asked.
pub fn existing_groups(client: &mut Store, guild_ids: Vec<&String>) -> (r: Result<
    Vec<String>,
    Error,
>)
    ensures
        r is Ok,
        texts(r->Ok_0@) == bound_groups(old(client).groups(), ref_texts(guild_ids@)),
        texts(r->Ok_0@).no_duplicates(),
        forall|g: Seq<char>| #[trigger]
            texts(r->Ok_0@).contains(g) <==> old(client).groups().contains(g) && ref_texts(
                guild_ids@,
            ).contains(g),
        guild_ids@.len() == 0 ==> r->Ok_0@.len() == 0 && old(client).untouched(final(client)),
        guild_ids@.len() > 0 ==> old(client).read_once(final(client)),
        old(client).wf() ==> final(client).wf(),
{
    proof {
        lemma_bound_groups(client.groups(), ref_texts(guild_ids@));
        if guild_ids@.len() == 0 {
            lemma_no_candidates(client.groups(), ref_texts(guild_ids@));
        }
    }
    match groups_question(guild_ids) {
        Some(candidates) => names_found(Ok(client.select_groups(&candidates))),
        None => {
            let none: Vec<String> = Vec::new();
            assert(texts(none@) =~= Seq::<Seq<char>>::empty());
            Ok(none)
        },
    }
}

/// Without roles nothing is granted and nothing is permitted.
pub proof fn lemma_no_roles(grants: Seq<PermissionGrantView>, guild: Seq<char>, roles: Seq<Seq<char>>)
    requires
        roles.len() == 0,
    ensures
        granted(grants, guild, roles) == Seq::<Seq<char>>::empty(),
        forall|permission: Seq<char>| !permitted(grants, guild, roles, permission),
{
    let pred = |g: PermissionGrantView| in_scope(g, guild, roles);
    if grants.filter(pred).len() > 0 {
        grants.lemma_filter_pred(pred, 0);
    }
    assert(granted_rows(grants, guild, roles) =~= Seq::<Seq<char>>::empty());
}

/// Without candidates no group is found.
pub proof fn lemma_no_candidates(groups: Seq<Seq<char>>, ids: Seq<Seq<char>>)
    requires
        ids.len() == 0,
    ensures
        bound_groups(groups, ids) == Seq::<Seq<char>>::empty(),
{
    let pred = |g: Seq<char>| ids.contains(g);
    if groups.filter(pred).len() > 0 {
        groups.lemma_filter_pred(pred, 0);
    }
    assert(group_rows(groups, ids) =~= Seq::<Seq<char>>::empty());
}

/// A test keeps a sequence free of entries that come twice.
pub proof fn lemma_filter_no_duplicates(s: Seq<Seq<char>>, pred: spec_fn(Seq<char>) -> bool)
    requires
        s.no_duplicates(),
    ensures
        s.filter(pred).no_duplicates(),
    decreases s.len(),
{
    if s.len() == 0 {
        reveal(Seq::filter);
    } else {
        let front = s.drop_last();
        let last = s.last();
        assert(s =~= front.push(last));
        assert(front.no_duplicates());
        lemma_filter_no_duplicates(front, pred);
        front.lemma_filter_push(last, pred);
        if front.filter(pred).contains(last) {
            front.lemma_filter_contains_rev(pred, last);
            let i = choose|i: int| 0 <= i < front.len() && front[i] == last;
            assert(s[i] == s[s.len() - 1]);
        }
        if pred(last) {
            lemma_push_no_duplicates(front.filter(pred), last);
        }
    }
}

/// The guilds found are a set, they are exactly the candidates that the
/// groups table names, and where the table is keyed the store's rows are
/// that set already.
pub proof fn lemma_bound_groups(groups: Seq<Seq<char>>, ids: Seq<Seq<char>>)
    ensures
        bound_groups(groups, ids).no_duplicates(),
        forall|g: Seq<char>| #[trigger]
            bound_groups(groups, ids).contains(g) <==> groups.contains(g) && ids.contains(g),
        groups.no_duplicates() ==> bound_groups(groups, ids) == group_rows(groups, ids),
        distinct(bound_groups(groups, ids)) == bound_groups(groups, ids),
{
    let pred = |g: Seq<char>| ids.contains(g);
    let rows = groups.filter(pred);
    lemma_distinct(rows);
    lemma_distinct_keeps(distinct(rows));
    assert forall|g: Seq<char>| #[trigger]
        bound_groups(groups, ids).contains(g) <==> groups.contains(g) && ids.contains(g) by {
        if groups.contains(g) && ids.contains(g) {
            let i = choose|i: int| 0 <= i < groups.len() && groups[i] == g;
            groups.lemma_filter_contains(pred, i);
        }
        if rows.contains(g) {
            groups.lemma_filter_contains_rev(pred, g);
            let k = choose|k: int| 0 <= k < rows.len() && rows[k] == g;
            groups.lemma_filter_pred(pred, k);
        }
    }
    if groups.no_duplicates() {
        lemma_filter_no_duplicates(groups, pred);
        lemma_distinct_keeps(rows);
    }
}

/// The list of the permissions that the roles hold is a set: no
/// permission comes twice.
pub proof fn lemma_granted_is_set(
    grants: Seq<PermissionGrantView>,
    guild: Seq<char>,
    roles: Seq<Seq<char>>,
)
    ensures
        granted(grants, guild, roles).no_duplicates(),
        forall|p: Seq<char>| #[trigger]
            granted(grants, guild, roles).contains(p) <==> permitted(grants, guild, roles, p),
{
    lemma_distinct(granted_rows(grants, guild, roles));
    assert forall|p: Seq<char>| #[trigger]
        granted(grants, guild, roles).contains(p) <==> permitted(grants, guild, roles, p) by {
        lemma_permitted_is_membership(grants, guild, roles, p);
    }
}

/// A permission is held by one of the roles exactly if it is in the set
/// of the permissions that the roles hold.
pub proof fn lemma_permitted_is_membership(
    grants: Seq<PermissionGrantView>,
    guild: Seq<char>,
    roles: Seq<Seq<char>>,
    permission: Seq<char>,
)
    ensures
        permitted(grants, guild, roles, permission) <==> granted(grants, guild, roles).contains(
            permission,
        ),
{
    let pred = |g: PermissionGrantView| in_scope(g, guild, roles);
    let pick = |g: PermissionGrantView| g.permission;
    let kept = grants.filter(pred);
    lemma_distinct(granted_rows(grants, guild, roles));
    if permitted(grants, guild, roles, permission) {
        let i = choose|i: int|
            0 <= i < grants.len() && in_scope(#[trigger] grants[i], guild, roles)
                && grants[i].permission == permission;
        assert(pred(grants[i]));
        grants.lemma_filter_contains(pred, i);
        let k = choose|k: int| 0 <= k < kept.len() && kept[k] == grants[i];
        assert(kept.map_values(pick)[k] == permission);
        assert(granted_rows(grants, guild, roles).contains(permission));
    }
    if granted_rows(grants, guild, roles).contains(permission) {
        let k = choose|k: int|
            0 <= k < kept.map_values(pick).len() && kept.map_values(pick)[k] == permission;
        grants.lemma_filter_pred(pred, k);
        assert(kept.contains(kept[k]));
        grants.lemma_filter_contains_rev(pred, kept[k]);
        let i = choose|i: int| 0 <= i < grants.len() && grants[i] == kept[k];
        assert(in_scope(grants[i], guild, roles) && grants[i].permission == permission);
    }
}

/// A session that is stored under a cookie token which no session held
/// before is found under that token, with the credential and the identity
/// that it was made for; and the cookie tokens stay distinct.
pub proof fn lemma_created_is_found(
    rows: Seq<SessionView>,
    cookie: CookieToken,
    token: OauthTokenResponseView,
    user: UserView,
    id: i64,
    updated: u64,
)
    requires
        cookies_distinct(rows),
        !issued(rows, cookie),
    ensures
        cookies_distinct(rows.push(session_of(cookie, token, user, id, updated))),
        found(sessions_under(rows.push(session_of(cookie, token, user, id, updated)), cookie))
            == Ok::<SessionView, ErrorKindView>(session_of(cookie, token, user, id, updated)),
        session_of(cookie, token, user, id, updated).discord_id == user.id,
        session_of(cookie, token, user, id, updated).discord_name == user.name,
        session_of(cookie, token, user, id, updated).discord_avatar == user.avatar,
{
    let row = session_of(cookie, token, user, id, updated);
    let after = rows.push(row);
    let pred = |s: SessionView| s.cookie == cookie;
    lemma_push_keeps_distinct(rows, row);
    lemma_sessions_under(rows, cookie);
    rows.lemma_filter_push(row, pred);
    assert(sessions_under(after, cookie) =~= seq![row]);
}

/// A row under a cookie token that no session holds keeps the cookie
/// tokens of the table distinct.
pub proof fn lemma_push_keeps_distinct(rows: Seq<SessionView>, row: SessionView)
    requires
        cookies_distinct(rows),
        !issued(rows, row.cookie),
    ensures
        cookies_distinct(rows.push(row)),
{
    let after = rows.push(row);
    assert forall|i: int, j: int| 0 <= i < j < after.len() implies (#[trigger] after[i]).cookie
        != (#[trigger] after[j]).cookie by {
        if j < rows.len() {
            assert(rows[i].cookie != rows[j].cookie);
        } else {
            assert(rows[i].cookie != row.cookie);
        }
    }
}

/// A run of successful handshakes: `tables[k]` is the sessions table
/// before the handshake `k`, which the store accepted under `cookies[k]`
/// and which added one row under that token.
pub open spec fn handshakes(tables: Seq<Seq<SessionView>>, cookies: Seq<CookieToken>) -> bool {
    &&& tables.len() == cookies.len() + 1
    &&& forall|k: int|
        0 <= k < cookies.len() ==> {
            &&& insert_refusal(#[trigger] tables[k], cookies[k]) is None
            &&& tables[k + 1].len() == tables[k].len() + 1
            &&& tables[k + 1].drop_last() == tables[k]
            &&& tables[k + 1].last().cookie == cookies[k]
        }
}

proof fn lemma_handshakes_prefix(tables: Seq<Seq<SessionView>>, cookies: Seq<CookieToken>, n: int)
    requires
        cookies_distinct(tables[0]),
        handshakes(tables, cookies),
        0 <= n <= cookies.len(),
    ensures
        cookies_distinct(tables[n]),
        forall|i: int| 0 <= i < n ==> issued(tables[n], #[trigger] cookies[i]),
    decreases n,
{
    if n > 0 {
        lemma_handshakes_prefix(tables, cookies, n - 1);
        let before = tables[n - 1];
        let after = tables[n];
        assert(insert_refusal(tables[n - 1], cookies[n - 1]) is None);
        assert(after =~= before.push(after.last()));
        lemma_push_keeps_distinct(before, after.last());
        assert forall|i: int| 0 <= i < n implies issued(after, #[trigger] cookies[i]) by {
            if i < n - 1 {
                let k = choose|k: int| 0 <= k < before.len() && (#[trigger] before[k]).cookie
                    == cookies[i];
                assert(after[k].cookie == cookies[i]);
            } else {
                assert(after[after.len() - 1].cookie == cookies[i]);
            }
        }
    }
}

/// The cookie tokens that a run of successful handshakes issues are
/// pairwise distinct, however long the run, and distinct from every token
/// that the table held before.
pub proof fn lemma_handshakes_issue_distinct_tokens(
    tables: Seq<Seq<SessionView>>,
    cookies: Seq<CookieToken>,
)
    requires
        cookies_distinct(tables[0]),
        handshakes(tables, cookies),
    ensures
        forall|i: int, j: int|
            0 <= i < j < cookies.len() ==> (#[trigger] cookies[i]) != (#[trigger] cookies[j]),
        forall|i: int| 0 <= i < cookies.len() ==> !issued(tables[0], #[trigger] cookies[i]),
        cookies_distinct(tables[cookies.len() as int]),
{
    lemma_handshakes_prefix(tables, cookies, cookies.len() as int);
    assert forall|i: int, j: int| 0 <= i < j < cookies.len() implies (#[trigger] cookies[i]) != (
    #[trigger] cookies[j]) by {
        lemma_handshakes_prefix(tables, cookies, j);
        assert(issued(tables[j], cookies[i]));
        assert(insert_refusal(tables[j], cookies[j]) is None);
    }
    assert forall|i: int| 0 <= i < cookies.len() implies !issued(tables[0], #[trigger] cookies[i]) by {
        lemma_handshakes_prefix(tables, cookies, i);
        assert(insert_refusal(tables[i], cookies[i]) is None);
        lemma_table_grows(tables, cookies, i);
    }
}

proof fn lemma_table_grows(tables: Seq<Seq<SessionView>>, cookies: Seq<CookieToken>, n: int)
    requires
        handshakes(tables, cookies),
        0 <= n <= cookies.len(),
    ensures
        forall|c: CookieToken| issued(tables[0], c) ==> issued(tables[n], c),
    decreases n,
{
    if n > 0 {
        lemma_table_grows(tables, cookies, n - 1);
        let before = tables[n - 1];
        let after = tables[n];
        assert(insert_refusal(tables[n - 1], cookies[n - 1]) is None);
        assert(after =~= before.push(after.last()));
        assert forall|c: CookieToken| issued(tables[0], c) implies issued(after, c) by {
            let k = choose|k: int| 0 <= k < before.len() && (#[trigger] before[k]).cookie == c;
            assert(after[k].cookie == c);
        }
    }
}

/// A cookie token under which no session was issued is answered as
/// forbidden.
pub proof fn lemma_unissued_is_forbidden(rows: Seq<SessionView>, cookie: CookieToken)
    requires
        !issued(rows, cookie),
    ensures
        found(sessions_under(rows, cookie)) == Err::<SessionView, ErrorKindView>(
            AuthError::Forbidden.error(),
        ),
{
    let pred = |s: SessionView| s.cookie == cookie;
    let under = rows.filter(pred);
    if under.len() > 0 {
        rows.lemma_filter_pred(pred, 0);
        assert(under.contains(under[0]));
        rows.lemma_filter_contains_rev(pred, under[0]);
        let i = choose|i: int| 0 <= i < rows.len() && rows[i] == under[0];
        assert(rows[i].cookie == cookie);
    }
}

} // verus!
