//! Routes that the user sets: which account a session is sent to.
//!
//! A route holds until it is deleted or switched off, and goes before any
//! binding that was learnt.
use crate::clock::{utc_now, Timestamp};
use crate::table::Table;
use crate::text::{copy_opt, same_text};
use vstd::prelude::*;

verus! {

/// Sends a session to an account.
#[derive(Clone, Debug)]
pub struct SessionRoute {
    pub id: String,
    pub session_id: String,
    pub account_id: String,
    pub enabled: bool,
    pub label: Option<String>,
    pub created_at: Timestamp,
    pub last_hit_at: Option<Timestamp>,
    pub hit_count: u64,
}

/// What a `SessionRoute` says.
pub ghost struct Route {
    pub id: Seq<char>,
    pub session_id: Seq<char>,
    pub account_id: Seq<char>,
    pub enabled: bool,
    pub label: Option<Seq<char>>,
    pub created_at: Timestamp,
    pub last_hit_at: Option<Timestamp>,
    pub hit_count: u64,
}

impl View for SessionRoute {
    type V = Route;

    open spec fn view(&self) -> Route {
        Route {
            id: self.id@,
            session_id: self.session_id@,
            account_id: self.account_id@,
            enabled: self.enabled,
            label: crate::text::opt_text(self.label),
            created_at: self.created_at,
            last_hit_at: self.last_hit_at,
            hit_count: self.hit_count,
        }
    }
}

/// Whether a text has the shape of a random UUID: lower-case hexadecimal digits
/// in five groups with hyphens between them, the third of which starts with the
/// version.
pub open spec fn is_random_uuid(text: Seq<char>) -> bool {
    &&& text.len() == 36
    &&& forall|i: int|
        0 <= i < 36 ==> {
            let c = #[trigger] text[i];
            if i == 8 || i == 13 || i == 18 || i == 23 {
                c == '-'
            } else {
                '0' <= c <= '9' || 'a' <= c <= 'f'
            }
        }
    &&& text[14] == '4'
}

/// Calls `uuid::Uuid::new_v4`, and `to_string` on what it gives. Nothing is
/// said of the text, which is drawn at random, but its shape.
#[verifier::external_body]
fn new_id() -> (r: String)
    ensures
        is_random_uuid(r@),
{
    uuid::Uuid::new_v4().to_string()
}

/// A route that has not been hit yet.
pub open spec fn fresh_route(
    id: Seq<char>,
    session_id: Seq<char>,
    account_id: Seq<char>,
    label: Option<Seq<char>>,
    now: Timestamp,
) -> Route {
    Route {
        id,
        session_id,
        account_id,
        enabled: true,
        label,
        created_at: now,
        last_hit_at: None,
        hit_count: 0,
    }
}

impl SessionRoute {
    /// A route with a given id that has not been hit yet, at a given time.
    pub fn new_at(
        id: String,
        session_id: String,
        account_id: String,
        label: Option<String>,
        now: Timestamp,
    ) -> (r: Self)
        ensures
            r@ == fresh_route(
                id@,
                session_id@,
                account_id@,
                crate::text::opt_text(label),
                now,
            ),
    {
        SessionRoute {
            id,
            session_id,
            account_id,
            enabled: true,
            label,
            created_at: now,
            last_hit_at: None,
            hit_count: 0,
        }
    }

    /// A route that has not been hit yet.
    pub fn new(session_id: String, account_id: String, label: Option<String>) -> (r: Self)
        ensures
            is_random_uuid(r@.id),
            r@.created_at.valid(),
            r@ == fresh_route(
                r@.id,
                session_id@,
                account_id@,
                crate::text::opt_text(label),
                r@.created_at,
            ),
    {
        SessionRoute::new_at(new_id(), session_id, account_id, label, utc_now())
    }

    pub fn copy(&self) -> (r: SessionRoute)
        ensures
            r@ == self@,
    {
        SessionRoute {
            id: self.id.clone(),
            session_id: self.session_id.clone(),
            account_id: self.account_id.clone(),
            enabled: self.enabled,
            label: copy_opt(&self.label),
            created_at: self.created_at,
            last_hit_at: self.last_hit_at,
            hit_count: self.hit_count,
        }
    }
}

/// The routes by their ids, and the version of the file that they are kept in.
pub struct SessionRoutesStore {
    pub routes: Table<SessionRoute>,
    pub version: u32,
}

impl View for SessionRoutesStore {
    type V = Map<Seq<char>, Route>;

    open spec fn view(&self) -> Map<Seq<char>, Route> {
        self.routes@.map_values(|r: SessionRoute| r@)
    }
}

/// Whether each route stands under its id.
pub open spec fn keyed(all: Map<Seq<char>, Route>) -> bool {
    forall|k: Seq<char>| #[trigger] all.contains_key(k) ==> all[k].id == k
}

/// Whether no session has two routes.
pub open spec fn sole(all: Map<Seq<char>, Route>) -> bool {
    forall|j: Seq<char>, k: Seq<char>|
        #![trigger all.contains_key(j), all.contains_key(k)]
        all.contains_key(j) && all.contains_key(k) && all[j].session_id == all[k].session_id ==> j
            == k
}

/// Whether a route is that of a session.
pub open spec fn routes_session(
    all: Map<Seq<char>, Route>,
    k: Seq<char>,
    session_id: Seq<char>,
) -> bool {
    all.contains_key(k) && all[k].session_id == session_id
}

/// Whether a route that is on is that of a session.
pub open spec fn active_route(
    all: Map<Seq<char>, Route>,
    k: Seq<char>,
    session_id: Seq<char>,
) -> bool {
    all.contains_key(k) && all[k].session_id == session_id && all[k].enabled
}

/// A route that takes the place of another of the same session: it keeps its
/// id and its hits, and is on.
pub open spec fn replaced(
    known: Route,
    account_id: Seq<char>,
    label: Option<Seq<char>>,
    now: Timestamp,
) -> Route {
    Route { account_id, label, enabled: true, created_at: now, ..known }
}

/// Whether `after` and `route` are what comes of adding a route: it takes the
/// place of one of the same session, or is put under the fresh id where there
/// is none.
pub open spec fn adds(
    before: Map<Seq<char>, Route>,
    after: Map<Seq<char>, Route>,
    route: Route,
    session_id: Seq<char>,
    account_id: Seq<char>,
    label: Option<Seq<char>>,
    fresh_id: Seq<char>,
    now: Timestamp,
) -> bool {
    &&& after == before.insert(route.id, route)
    &&& if exists|k: Seq<char>| #[trigger] routes_session(before, k, session_id) {
        exists|k: Seq<char>| #[trigger]
            routes_session(before, k, session_id) && route == replaced(
                before[k],
                account_id,
                label,
                now,
            )
    } else {
        route == fresh_route(fresh_id, session_id, account_id, label, now)
    }
}

/// The routes once one has been changed.
pub open spec fn changed(all: Map<Seq<char>, Route>, id: Seq<char>, route: Route) -> Map<
    Seq<char>,
    Route,
> {
    if all.contains_key(id) {
        all.insert(id, route)
    } else {
        all
    }
}

/// A route that has been hit once more.
pub open spec fn hit(r: Route, now: Timestamp) -> Route {
    Route {
        hit_count: if r.hit_count == u64::MAX {
            r.hit_count
        } else {
            (r.hit_count + 1) as u64
        },
        last_hit_at: Some(now),
        ..r
    }
}

pub open spec fn routes_of(v: Seq<SessionRoute>) -> Seq<Route> {
    Seq::new(v.len(), |i: int| v[i]@)
}

/// Whether no route of a list is older than one behind it.
pub open spec fn newest_first(list: Seq<Route>) -> bool {
    forall|i: int, j: int|
        0 <= i < j < list.len() ==> !(#[trigger] list[i]).created_at.earlier(
            (#[trigger] list[j]).created_at,
        )
}

impl SessionRoutesStore {
    /// No id occurs twice.
    pub open spec fn wf(self) -> bool {
        self.routes.wf()
    }

    /// All routes, in the order in which the table holds them.
    pub open spec fn all_routes(self) -> Seq<Route> {
        Seq::new(self.routes.pairs().len(), |i: int| self.routes.pairs()[i].1@)
    }

    /// A store without routes, in the present version.
    pub fn default_with_version() -> (r: Self)
        ensures
            r.wf(),
            r@ == Map::<Seq<char>, Route>::empty(),
            r.version == 1,
    {
        let r = SessionRoutesStore { routes: Table::new(), version: 1 };
        assert(r@ =~= Map::<Seq<char>, Route>::empty());
        r
    }

    /// What to go on with, given what could be read: nothing counts as a store
    /// without routes, and a file from before versions as one of the first.
    pub fn load(read: Option<SessionRoutesStore>) -> (r: Self)
        requires
            read is Some ==> read->Some_0.wf(),
        ensures
            r.wf(),
            match read {
                Some(s) => r@ == s@ && r.version == if s.version == 0 {
                    1
                } else {
                    s.version
                },
                None => r@ == Map::<Seq<char>, Route>::empty() && r.version == 1,
            },
    {
        match read {
            Some(s) => {
                let version: u32 = if s.version == 0 {
                    1
                } else {
                    s.version
                };
                SessionRoutesStore { routes: s.routes, version }
            },
            None => SessionRoutesStore::default_with_version(),
        }
    }

    /// A route of a session, where there is one.
    fn find(&self, session_id: &str, only_enabled: bool) -> (r: Option<SessionRoute>)
        requires
            self.wf(),
        ensures
            match r {
                Some(route) => exists|k: Seq<char>| #[trigger]
                    routes_session(self@, k, session_id@) && self@[k] == route@ && (only_enabled
                        ==> route@.enabled),
                None => forall|k: Seq<char>| #[trigger]
                    routes_session(self@, k, session_id@) ==> only_enabled && !self@[k].enabled,
            },
    {
        let count: usize = self.routes.len();
        proof {
            crate::table::lemma_entries(self.routes);
        }
        for i in 0..count
            invariant
                count == self.routes.pairs().len(),
                forall|j: int|
                    0 <= j < i ==> {
                        let route = (#[trigger] self.routes.pairs()[j]).1;
                        route.session_id@ != session_id@ || (only_enabled && !route.enabled)
                    },
                forall|j: int|
                    0 <= j < self.routes.pairs().len() ==> self.routes@.contains_key(
                        #[trigger] self.routes.pairs()[j].0@,
                    ) && self.routes@[self.routes.pairs()[j].0@] == self.routes.pairs()[j].1,
        {
            let (name, route) = self.routes.entry(i);
            if same_text(route.session_id.as_str(), session_id) && (route.enabled
                || !only_enabled) {
                assert(self.routes.pairs()[i as int].0@ == name@);
                assert(routes_session(self@, name@, session_id@));
                return Some(route.copy());
            }
        }
        assert forall|k: Seq<char>| #[trigger]
            routes_session(self@, k, session_id@) implies only_enabled && !self@[k].enabled by {
            assert(self.routes@.contains_key(k));
            let j = choose|j: int|
                0 <= j < self.routes.pairs().len() && #[trigger] self.routes.pairs()[j].0@ == k;
            assert(self.routes@[k] == self.routes.pairs()[j].1);
        }
        None
    }

    /// Adds a route, given an id for a new one and the present time. Where the
    /// session has a route, the new one takes its place.
    pub fn add_at(
        &mut self,
        session_id: String,
        account_id: String,
        label: Option<String>,
        fresh_id: String,
        now: Timestamp,
    ) -> (r: SessionRoute)
        requires
            old(self).wf(),
        ensures
            final(self).wf(),
            final(self).version == old(self).version,
            adds(
                old(self)@,
                final(self)@,
                r@,
                session_id@,
                account_id@,
                crate::text::opt_text(label),
                fresh_id@,
                now,
            ),
    {
        let ghost before = self@;
        let ghost wanted = session_id@;
        let route = match self.find(session_id.as_str(), false) {
            Some(known) => {
                let ghost k = choose|k: Seq<char>| #[trigger]
                    routes_session(before, k, wanted) && before[k] == known@;
                self.routes.remove(known.id.as_str());
                assert(self@ =~= before.remove(known.id@));
                assert(routes_session(before, k, wanted));
                SessionRoute {
                    id: known.id,
                    session_id,
                    account_id,
                    enabled: true,
                    label,
                    created_at: now,
                    last_hit_at: known.last_hit_at,
                    hit_count: known.hit_count,
                }
            },
            None => SessionRoute::new_at(fresh_id, session_id, account_id, label, now),
        };
        self.routes.insert(route.id.clone(), route.copy());
        assert(self@ =~= before.insert(route@.id, route@));
        route
    }

    /// Adds a route. Where the session has a route, the new one takes its place.
    pub fn add(&mut self, session_id: String, account_id: String, label: Option<String>) -> (r:
        SessionRoute)
        requires
            old(self).wf(),
        ensures
            final(self).wf(),
            final(self).version == old(self).version,
            exists|fresh_id: Seq<char>, now: Timestamp|
                is_random_uuid(fresh_id) && now.valid() && #[trigger] adds(
                    old(self)@,
                    final(self)@,
                    r@,
                    session_id@,
                    account_id@,
                    crate::text::opt_text(label),
                    fresh_id,
                    now,
                ),
    {
        let fresh_id = new_id();
        let now = utc_now();
        self.add_at(session_id, account_id, label, fresh_id, now)
    }

    /// Deletes a route, and tells whether it was there.
    pub fn delete(&mut self, id: &str) -> (r: bool)
        requires
            old(self).wf(),
        ensures
            final(self).wf(),
            final(self).version == old(self).version,
            final(self)@ == old(self)@.remove(id@),
            r == old(self)@.contains_key(id@),
    {
        let ghost before = self@;
        let gone = self.routes.remove(id);
        assert(self@ =~= before.remove(id@));
        gone.is_some()
    }

    /// Switches a route on or off, and tells whether it is there.
    pub fn toggle(&mut self, id: &str, enabled: bool) -> (r: bool)
        requires
            old(self).wf(),
        ensures
            final(self).wf(),
            final(self).version == old(self).version,
            final(self)@ == changed(old(self)@, id@, (Route { enabled, ..old(self)@[id@] })),
            r == old(self)@.contains_key(id@),
    {
        let ghost before = self@;
        let found = match self.routes.get_mut(id) {
            Some(route) => {
                route.enabled = enabled;
                true
            },
            None => false,
        };
        assert(self@ =~= changed(before, id@, (Route { enabled, ..before[id@] })));
        found
    }

    /// Labels a route, and tells whether it is there.
    pub fn update_label(&mut self, id: &str, label: Option<String>) -> (r: bool)
        requires
            old(self).wf(),
        ensures
            final(self).wf(),
            final(self).version == old(self).version,
            final(self)@ == changed(
                old(self)@,
                id@,
                (Route { label: crate::text::opt_text(label), ..old(self)@[id@] }),
            ),
            r == old(self)@.contains_key(id@),
    {
        let ghost before = self@;
        let ghost text = crate::text::opt_text(label);
        let found = match self.routes.get_mut(id) {
            Some(route) => {
                route.label = label;
                true
            },
            None => false,
        };
        assert(self@ =~= changed(before, id@, (Route { label: text, ..before[id@] })));
        found
    }

    /// The route of a session that is on, where there is one.
    pub fn find_enabled_by_session(&self, session_id: &str) -> (r: Option<SessionRoute>)
        requires
            self.wf(),
        ensures
            match r {
                Some(route) => exists|k: Seq<char>| #[trigger]
                    active_route(self@, k, session_id@) && self@[k] == route@,
                None => forall|k: Seq<char>| !#[trigger] active_route(self@, k, session_id@),
            },
    {
        let r = self.find(session_id, true);
        proof {
            match &r {
                Some(route) => {
                    let k = choose|k: Seq<char>| #[trigger]
                        routes_session(self@, k, session_id@) && self@[k] == route@;
                    assert(active_route(self@, k, session_id@));
                },
                None => {
                    assert forall|k: Seq<char>| !#[trigger] active_route(
                        self@,
                        k,
                        session_id@,
                    ) by {
                        assert(routes_session(self@, k, session_id@) ==> !self@[k].enabled);
                    }
                },
            }
        }
        r
    }

    /// Counts a hit of a route, at a given time.
    pub fn record_hit_at(&mut self, route_id: &str, now: Timestamp)
        requires
            old(self).wf(),
        ensures
            final(self).wf(),
            final(self).version == old(self).version,
            final(self)@ == changed(old(self)@, route_id@, hit(old(self)@[route_id@], now)),
    {
        let ghost before = self@;
        match self.routes.get_mut(route_id) {
            Some(route) => {
                if route.hit_count < u64::MAX {
                    route.hit_count = route.hit_count + 1;
                }
                route.last_hit_at = Some(now);
            },
            None => {},
        }
        assert(self@ =~= changed(before, route_id@, hit(before[route_id@], now)));
    }

    /// Counts a hit of a route.
    pub fn record_hit(&mut self, route_id: &str)
        requires
            old(self).wf(),
        ensures
            final(self).wf(),
            final(self).version == old(self).version,
            exists|now: Timestamp|
                now.valid() && final(self)@ == changed(
                    old(self)@,
                    route_id@,
                    #[trigger] hit(old(self)@[route_id@], now),
                ),
    {
        let now = utc_now();
        self.record_hit_at(route_id, now);
    }

    /// All routes, newest first.
    pub fn list(&self) -> (r: Vec<SessionRoute>)
        requires
            self.wf(),
        ensures
            newest_first(routes_of(r@)),
            routes_of(r@).to_multiset() == self.all_routes().to_multiset(),
    {
        let count: usize = self.routes.len();
        let ghost all = self.all_routes();
        let mut out: Vec<SessionRoute> = Vec::new();
        assert(routes_of(out@) =~= all.take(0));
        for i in 0..count
            invariant
                count == self.routes.pairs().len(),
                all == self.all_routes(),
                newest_first(routes_of(out@)),
                routes_of(out@).to_multiset() == all.take(i as int).to_multiset(),
        {
            let (_, route) = self.routes.entry(i);
            let ghost before = routes_of(out@);
            let at: usize = place_of(&out, &route.created_at);
            out.insert(at, route.copy());
            proof {
                broadcast use vstd::seq_lib::group_to_multiset_ensures;

                assert(routes_of(out@) =~= before.insert(at as int, route@));
                assert(all.take(i + 1) =~= all.take(i as int).push(route@));
                lemma_newest_first(before, at as int, route@);
                assert(before.insert(at as int, route@).to_multiset()
                    =~= before.to_multiset().insert(route@));
            }
        }
        assert(all.take(count as int) =~= all);
        out
    }
}

/// The position of the first route that is older.
fn place_of(list: &Vec<SessionRoute>, created_at: &Timestamp) -> (r: usize)
    ensures
        r <= list@.len(),
        forall|i: int| 0 <= i < r ==> !(#[trigger] list@[i]).created_at.earlier(*created_at),
        r < list@.len() ==> list@[r as int].created_at.earlier(*created_at),
{
    for i in 0..list.len()
        invariant
            forall|j: int| 0 <= j < i ==> !(#[trigger] list@[j]).created_at.earlier(*created_at),
    {
        if list[i].created_at.is_before(created_at) {
            return i;
        }
    }
    list.len()
}

proof fn lemma_newest_first(list: Seq<Route>, at: int, route: Route)
    requires
        newest_first(list),
        0 <= at <= list.len(),
        forall|i: int| 0 <= i < at ==> !(#[trigger] list[i]).created_at.earlier(route.created_at),
        at < list.len() ==> list[at].created_at.earlier(route.created_at),
    ensures
        newest_first(list.insert(at, route)),
{
    let after = list.insert(at, route);
    assert forall|i: int, j: int| 0 <= i < j < after.len() implies !(
    #[trigger] after[i]).created_at.earlier((#[trigger] after[j]).created_at) by {
        if i == at {
            assert(after[j] == list[j - 1]);
            assert(j - 1 == at || !list[at].created_at.earlier(list[j - 1].created_at));
        } else if j == at {
            assert(after[i] == list[i]);
        } else {
            let a = if i < at {
                i
            } else {
                i - 1
            };
            let b = if j < at {
                j
            } else {
                j - 1
            };
            assert(after[i] == list[a] && after[j] == list[b]);
        }
    }
}

impl Default for SessionRoutesStore {
    fn default() -> (r: Self)
        ensures
            r.wf(),
            r@ == Map::<Seq<char>, Route>::empty(),
            r.version == 0,
    {
        let r = SessionRoutesStore { routes: Table::new(), version: 0 };
        assert(r@ =~= Map::<Seq<char>, Route>::empty());
        r
    }
}

// ------------------------------------------------------------------------- laws

/// A store without routes is in order, and adding keeps it so: each route under
/// its id, and no session with two.
pub proof fn adding_keeps_one_route_for_a_session(
    before: Map<Seq<char>, Route>,
    after: Map<Seq<char>, Route>,
    route: Route,
    session_id: Seq<char>,
    account_id: Seq<char>,
    label: Option<Seq<char>>,
    fresh_id: Seq<char>,
    now: Timestamp,
)
    requires
        keyed(before),
        sole(before),
        !before.contains_key(fresh_id),
        adds(before, after, route, session_id, account_id, label, fresh_id, now),
    ensures
        keyed(Map::<Seq<char>, Route>::empty()) && sole(Map::<Seq<char>, Route>::empty()),
        keyed(after),
        sole(after),
{
    if exists|k: Seq<char>| #[trigger] routes_session(before, k, session_id) {
        let k = choose|k: Seq<char>| #[trigger]
            routes_session(before, k, session_id) && route == replaced(
                before[k],
                account_id,
                label,
                now,
            );
        assert(before.contains_key(k) && before[k].id == k);
    }
    assert forall|j: Seq<char>, k: Seq<char>|
        #![trigger after.contains_key(j), after.contains_key(k)]
        after.contains_key(j) && after.contains_key(k) && after[j].session_id
            == after[k].session_id implies j == k by {
        if j != route.id && k != route.id {
            assert(before.contains_key(j) && before.contains_key(k));
        } else if j != route.id {
            assert(before.contains_key(j));
            assert(routes_session(before, j, session_id));
        } else if k != route.id {
            assert(before.contains_key(k));
            assert(routes_session(before, k, session_id));
        }
    }
}

/// A session is sent where its route was last set to send it, and the route
/// that it had keeps its id and its hits.
pub proof fn added_route_is_found(
    before: Map<Seq<char>, Route>,
    after: Map<Seq<char>, Route>,
    route: Route,
    session_id: Seq<char>,
    account_id: Seq<char>,
    label: Option<Seq<char>>,
    fresh_id: Seq<char>,
    now: Timestamp,
    k: Seq<char>,
)
    requires
        keyed(before),
        sole(before),
        !before.contains_key(fresh_id),
        adds(before, after, route, session_id, account_id, label, fresh_id, now),
    ensures
        active_route(after, route.id, session_id) && after[route.id] == route && route.account_id
            == account_id,
        active_route(after, k, session_id) ==> k == route.id,
        routes_session(before, k, session_id) ==> route.id == k && route.hit_count
            == before[k].hit_count && route.last_hit_at == before[k].last_hit_at,
{
    adding_keeps_one_route_for_a_session(
        before,
        after,
        route,
        session_id,
        account_id,
        label,
        fresh_id,
        now,
    );
    assert(after.contains_key(route.id));
    if active_route(after, k, session_id) {
        assert(after.contains_key(k));
    }
    if routes_session(before, k, session_id) {
        let j = choose|j: Seq<char>| #[trigger]
            routes_session(before, j, session_id) && route == replaced(
                before[j],
                account_id,
                label,
                now,
            );
        assert(before.contains_key(j) && before.contains_key(k));
    }
}

/// A route that is switched off sends nobody anywhere, and one that is switched
/// on again does as before.
pub proof fn switched_off_route_is_not_found(
    all: Map<Seq<char>, Route>,
    id: Seq<char>,
    session_id: Seq<char>,
    k: Seq<char>,
)
    requires
        sole(all),
        routes_session(all, id, session_id),
    ensures
        !active_route(changed(all, id, (Route { enabled: false, ..all[id] })), k, session_id),
        active_route(changed(all, id, (Route { enabled: true, ..all[id] })), id, session_id),
{
    assert(all.contains_key(id));
    if all.contains_key(k) && all[k].session_id == session_id {
        assert(k == id);
    }
}

/// A route that is deleted is gone, and cannot be deleted again.
pub proof fn deleted_route_is_gone(all: Map<Seq<char>, Route>, id: Seq<char>)
    ensures
        !all.remove(id).contains_key(id),
        all.remove(id).remove(id) == all.remove(id),
{
    assert(all.remove(id).remove(id) =~= all.remove(id));
}

/// Deleting, switching, labelling and counting hits keep each route under its
/// id, and no session with two.
pub proof fn changing_keeps_one_route_for_a_session(
    all: Map<Seq<char>, Route>,
    id: Seq<char>,
    enabled: bool,
    label: Option<Seq<char>>,
    now: Timestamp,
)
    requires
        keyed(all),
        sole(all),
    ensures
        keyed(all.remove(id)) && sole(all.remove(id)),
        ({
            let a = changed(all, id, (Route { enabled, ..all[id] }));
            keyed(a) && sole(a)
        }),
        ({
            let a = changed(all, id, (Route { label, ..all[id] }));
            keyed(a) && sole(a)
        }),
        ({
            let a = changed(all, id, hit(all[id], now));
            keyed(a) && sole(a)
        }),
{
    lemma_changed(all, id, Route { enabled, ..all[id] });
    lemma_changed(all, id, Route { label, ..all[id] });
    lemma_changed(all, id, hit(all[id], now));
    let left = all.remove(id);
    assert forall|k: Seq<char>| #[trigger] left.contains_key(k) implies left[k].id == k by {
        assert(all.contains_key(k));
    }
    assert forall|j: Seq<char>, k: Seq<char>|
        #![trigger left.contains_key(j), left.contains_key(k)]
        left.contains_key(j) && left.contains_key(k) && left[j].session_id
            == left[k].session_id implies j == k by {
        assert(all.contains_key(j) && all.contains_key(k));
    }
}

proof fn lemma_changed(all: Map<Seq<char>, Route>, id: Seq<char>, route: Route)
    requires
        keyed(all),
        sole(all),
        route.id == all[id].id,
        route.session_id == all[id].session_id,
    ensures
        keyed(changed(all, id, route)),
        sole(changed(all, id, route)),
{
    let after = changed(all, id, route);
    assert forall|k: Seq<char>| #[trigger] after.contains_key(k) implies after[k].id == k by {
        assert(all.contains_key(k));
    }
    assert forall|j: Seq<char>, k: Seq<char>|
        #![trigger after.contains_key(j), after.contains_key(k)]
        after.contains_key(j) && after.contains_key(k) && after[j].session_id
            == after[k].session_id implies j == k by {
        assert(all.contains_key(j) && all.contains_key(k));
    }
}

/// A route that is added is on, sends the session to the account, has the label
/// and the present time, and leaves the routes of all other sessions as they
/// are. A new one has the fresh id and no hits.
pub proof fn added_route_is_as_it_was_asked_for(
    before: Map<Seq<char>, Route>,
    after: Map<Seq<char>, Route>,
    route: Route,
    session_id: Seq<char>,
    account_id: Seq<char>,
    label: Option<Seq<char>>,
    fresh_id: Seq<char>,
    now: Timestamp,
    other: Seq<char>,
)
    requires
        adds(before, after, route, session_id, account_id, label, fresh_id, now),
    ensures
        route.session_id == session_id,
        route.account_id == account_id,
        route.enabled,
        route.label == label,
        route.created_at == now,
        after.contains_key(route.id) && after[route.id] == route,
        (forall|k: Seq<char>|
            before.contains_key(k) ==> (#[trigger] before[k]).session_id != session_id) ==> route.id
            == fresh_id && route.hit_count == 0 && route.last_hit_at is None,
        other != route.id ==> (after.contains_key(other) <==> before.contains_key(other))
            && after[other] == before[other],
{
    if exists|k: Seq<char>| #[trigger] routes_session(before, k, session_id) {
        let k = choose|k: Seq<char>| #[trigger]
            routes_session(before, k, session_id) && route == replaced(
                before[k],
                account_id,
                label,
                now,
            );
        assert(before[k].session_id == session_id);
    }
}

/// A route that has not been hit is on, and is what it was made of.
pub proof fn fresh_route_is_what_it_was_made_of(
    id: Seq<char>,
    session_id: Seq<char>,
    account_id: Seq<char>,
    label: Option<Seq<char>>,
    now: Timestamp,
)
    ensures
        ({
            let r = fresh_route(id, session_id, account_id, label, now);
            &&& r.id == id && r.session_id == session_id && r.account_id == account_id
            &&& r.enabled && r.label == label && r.created_at == now
            &&& r.hit_count == 0 && r.last_hit_at is None
        }),
{
}

/// A hit is counted, as long as that can be done, and is the last one; nothing
/// else of the route changes, and no other route does.
pub proof fn hit_is_counted(
    all: Map<Seq<char>, Route>,
    id: Seq<char>,
    now: Timestamp,
    other: Seq<char>,
)
    requires
        all.contains_key(id),
    ensures
        ({
            let after = changed(all, id, hit(all[id], now));
            let r = after[id];
            &&& after.dom() == all.dom()
            &&& all[id].hit_count < u64::MAX ==> r.hit_count == all[id].hit_count + 1
            &&& all[id].hit_count == u64::MAX ==> r.hit_count == u64::MAX
            &&& r.last_hit_at == Some(now)
            &&& r.id == all[id].id && r.session_id == all[id].session_id
            &&& r.account_id == all[id].account_id && r.enabled == all[id].enabled
            &&& r.label == all[id].label && r.created_at == all[id].created_at
            &&& other != id ==> after[other] == all[other]
        }),
{
    assert(changed(all, id, hit(all[id], now)).dom() =~= all.dom());
}

/// A change of a route that is there is made to it alone, and one of a route
/// that is not there changes nothing.
pub proof fn change_is_made_to_one_route(
    all: Map<Seq<char>, Route>,
    id: Seq<char>,
    route: Route,
    other: Seq<char>,
)
    ensures
        all.contains_key(id) ==> changed(all, id, route)[id] == route,
        !all.contains_key(id) ==> changed(all, id, route) == all,
        other != id ==> changed(all, id, route)[other] == all[other],
        changed(all, id, route).contains_key(other) <==> all.contains_key(other),
{
}

/// Whether routes are in order, and which is that of a session, is told by
/// their ids, their sessions and whether they are on.
pub proof fn routes_are_told_by_their_sessions(
    all: Map<Seq<char>, Route>,
    k: Seq<char>,
    other: Seq<char>,
    session_id: Seq<char>,
)
    ensures
        active_route(all, k, session_id) <==> routes_session(all, k, session_id) && all[k].enabled,
        routes_session(all, k, session_id) <==> all.contains_key(k) && all[k].session_id
            == session_id,
        keyed(all) && all.contains_key(k) ==> all[k].id == k,
        sole(all) && routes_session(all, k, session_id) && routes_session(all, other, session_id)
            ==> k == other,
{
}

/// In a list that is newest first no route was made at a later second than one
/// before it.
pub proof fn newest_route_comes_first(list: Seq<Route>, i: int, j: int)
    requires
        newest_first(list),
        0 <= i < j < list.len(),
    ensures
        list[j].created_at.secs <= list[i].created_at.secs,
        list[j].created_at.secs == list[i].created_at.secs ==> list[j].created_at.nanos
            <= list[i].created_at.nanos,
{
}

/// A route is told field by field, and a list of routes is told one by one.
pub proof fn routes_are_told_field_by_field(r: SessionRoute, list: Seq<SessionRoute>, i: int)
    ensures
        r@.id == r.id@ && r@.session_id == r.session_id@ && r@.account_id == r.account_id@,
        r@.enabled == r.enabled && r@.label == crate::text::opt_text(r.label),
        r@.created_at == r.created_at && r@.last_hit_at == r.last_hit_at,
        r@.hit_count == r.hit_count,
        routes_of(list).len() == list.len(),
        0 <= i < list.len() ==> routes_of(list)[i] == list[i]@,
{
}

/// A store tells the route under each id, and lists each route that it holds.
pub proof fn store_tells_the_route_under_each_id(store: SessionRoutesStore, id: Seq<char>)
    requires
        store.wf(),
    ensures
        store@.contains_key(id) <==> store.routes@.contains_key(id),
        store@.contains_key(id) ==> store@[id] == store.routes@[id]@ && store.all_routes().contains(
            store@[id],
        ),
        store.all_routes().len() == store.routes.pairs().len(),
{
    crate::table::lemma_entries(store.routes);
    if store@.contains_key(id) {
        let i = choose|i: int|
            0 <= i < store.routes.pairs().len() && #[trigger] store.routes.pairs()[i].0@ == id;
        assert(store.all_routes()[i] == store@[id]);
    }
}

} // verus!
