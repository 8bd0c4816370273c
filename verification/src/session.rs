//! Named browser sessions and their request budgets.
use vstd::prelude::*;

use crate::text::{append_str, copy_str, decimal, push_decimal, str_eq};

verus! {

/// A browser kept alive between requests: its context, its page, and the
/// number of page requests served so far.
pub struct BrowserSession<C, P> {
    pub context: C,
    pub page: P,
    pub requests: u32,
}

/// What a browser is built from: the names of its context and page, and
/// how it reaches the network.
pub struct BrowserSpec {
    pub context_name: String,
    pub page_name: String,
    pub proxy: Option<String>,
    pub stealth: bool,
    pub user_agent: Option<String>,
}

/// `b` is what the browser of session `id` is built from, with the given
/// proxy, stealth mode and user agent.
pub open spec fn session_browser(
    b: BrowserSpec,
    id: Seq<char>,
    proxy: Option<String>,
    stealth: bool,
    user_agent: Option<String>,
) -> bool {
    &&& b.context_name@ == "solverr-"@ + id
    &&& b.page_name@ == "solverr-page-"@ + id
    &&& b.proxy == proxy
    &&& b.stealth == stealth
    &&& b.user_agent == user_agent
}

struct SessionEntry<C, P> {
    id: String,
    session: BrowserSession<C, P>,
}

/// Sessions by id, each allowed a bounded number of requests. The session
/// at each position of `sessions` is named by the id at the same position
/// of `ids`. The pairs are kept in vectors rather than a `HashMap`: vstd
/// models the contents of a `HashMap` only for keys whose hashing it
/// specifies (integers, `bool`), which leaves out `String` ids, while the
/// vectors, with the type invariant keeping ids distinct, give an exact map
/// view.
pub struct SessionStore<C, P> {
    ids: Vec<String>,
    sessions: Vec<BrowserSession<C, P>>,
    max_requests_per_session: u32,
}

/// `c` is a lowercase hexadecimal digit.
pub open spec fn is_lower_hex(c: char) -> bool {
    ('0' <= c && c <= '9') || ('a' <= c && c <= 'f')
}

/// `s` is a version 4 UUID in its hyphenated lowercase form, as
/// `uuid::Uuid::new_v4().to_string()` produces it.
pub open spec fn is_uuid_v4_text(s: Seq<char>) -> bool {
    &&& s.len() == 36
    &&& forall|i: int|
        0 <= i < 36 ==> if i == 8 || i == 13 || i == 18 || i == 23 {
            #[trigger] s[i] == '-'
        } else {
            is_lower_hex(s[i])
        }
    &&& s[14] == '4'
    &&& (s[19] == '8' || s[19] == '9' || s[19] == 'a' || s[19] == 'b')
}

/// The message for a session id that names no session.
pub open spec fn not_found_message(id: Seq<char>) -> Seq<char> {
    "Session not found: "@ + id
}

/// The message for a session that has used up its requests.
pub open spec fn exhausted_message(id: Seq<char>, max: u32) -> Seq<char> {
    "Session "@ + id + " exceeded max requests ("@ + decimal(max as nat) + ")"@
}

/// The session `id` of `m` may serve one more request under the limit `max`.
pub open spec fn touch_accepts<C, P>(
    m: Map<Seq<char>, BrowserSession<C, P>>,
    id: Seq<char>,
    max: u32,
) -> bool {
    m.contains_key(id) && m[id].requests < max
}

/// The sessions `m` after a request of session `id` is counted under the
/// limit `max`: one more request for that session when it may serve one,
/// no change otherwise.
pub open spec fn touched<C, P>(
    m: Map<Seq<char>, BrowserSession<C, P>>,
    id: Seq<char>,
    max: u32,
) -> Map<Seq<char>, BrowserSession<C, P>> {
    if touch_accepts(m, id, max) {
        m.insert(id, counted(m[id]))
    } else {
        m
    }
}

/// `s` with one more request counted.
pub open spec fn counted<C, P>(s: BrowserSession<C, P>) -> BrowserSession<C, P> {
    BrowserSession { context: s.context, page: s.page, requests: (s.requests + 1) as u32 }
}

spec fn has_key<C, P>(e: Seq<SessionEntry<C, P>>, k: Seq<char>) -> bool {
    exists|i: int| 0 <= i < e.len() && (#[trigger] e[i]).id@ == k
}

spec fn unique_keys<C, P>(e: Seq<SessionEntry<C, P>>) -> bool {
    forall|i: int, j: int|
        0 <= i < e.len() && 0 <= j < e.len() && i != j ==> (#[trigger] e[i]).id@ != (
        #[trigger] e[j]).id@
}

spec fn entries_map<C, P>(e: Seq<SessionEntry<C, P>>) -> Map<Seq<char>, BrowserSession<C, P>> {
    Map::new(
        |k: Seq<char>| has_key(e, k),
        |k: Seq<char>| e[choose|i: int| 0 <= i < e.len() && (#[trigger] e[i]).id@ == k].session,
    )
}

proof fn lemma_lookup<C, P>(e: Seq<SessionEntry<C, P>>, i: int)
    requires
        unique_keys(e),
        0 <= i < e.len(),
    ensures
        entries_map(e).contains_key(e[i].id@),
        entries_map(e)[e[i].id@] == e[i].session,
{
    let k = e[i].id@;
    assert(has_key(e, k));
    let j = choose|j: int| 0 <= j < e.len() && (#[trigger] e[j]).id@ == k;
    assert(j == i);
}

proof fn lemma_update<C, P>(e: Seq<SessionEntry<C, P>>, i: int, x: SessionEntry<C, P>)
    requires
        unique_keys(e),
        0 <= i < e.len(),
        x.id@ == e[i].id@,
    ensures
        unique_keys(e.update(i, x)),
        entries_map(e.update(i, x)) == entries_map(e).insert(e[i].id@, x.session),
        e.update(i, x).map_values(|y: SessionEntry<C, P>| y.id@) == e.map_values(
            |y: SessionEntry<C, P>| y.id@,
        ),
{
    let e2 = e.update(i, x);
    let k = e[i].id@;
    assert forall|a: int, b: int|
        0 <= a < e2.len() && 0 <= b < e2.len() && a != b implies (#[trigger] e2[a]).id@ != (
        #[trigger] e2[b]).id@ by {
        assert(e2[a].id@ == e[a].id@);
        assert(e2[b].id@ == e[b].id@);
    }
    let m2 = entries_map(e2);
    let m = entries_map(e).insert(k, x.session);
    assert forall|y: Seq<char>| #[trigger] m2.contains_key(y) <==> m.contains_key(y) by {
        if has_key(e2, y) {
            let j = choose|j: int| 0 <= j < e2.len() && (#[trigger] e2[j]).id@ == y;
            assert(e[j].id@ == e2[j].id@);
        }
        if has_key(e, y) {
            let j = choose|j: int| 0 <= j < e.len() && (#[trigger] e[j]).id@ == y;
            assert(e[j].id@ == e2[j].id@);
        }
        if y == k {
            assert(e2[i].id@ == y);
        }
    }
    assert forall|y: Seq<char>| #[trigger] m2.contains_key(y) implies m2[y] == m[y] by {
        let j = choose|j: int| 0 <= j < e2.len() && (#[trigger] e2[j]).id@ == y;
        lemma_lookup(e2, j);
        if j != i {
            lemma_lookup(e, j);
        }
    }
    assert(m2 =~= m);
    assert(e2.map_values(|y: SessionEntry<C, P>| y.id@) =~= e.map_values(
        |y: SessionEntry<C, P>| y.id@,
    ));
}

proof fn lemma_remove<C, P>(e: Seq<SessionEntry<C, P>>, i: int)
    requires
        unique_keys(e),
        0 <= i < e.len(),
    ensures
        unique_keys(e.remove(i)),
        entries_map(e.remove(i)) == entries_map(e).remove(e[i].id@),
{
    let e2 = e.remove(i);
    let k = e[i].id@;
    assert forall|a: int, b: int|
        0 <= a < e2.len() && 0 <= b < e2.len() && a != b implies (#[trigger] e2[a]).id@ != (
        #[trigger] e2[b]).id@ by {
        let a0 = if a < i {
            a
        } else {
            a + 1
        };
        let b0 = if b < i {
            b
        } else {
            b + 1
        };
        assert(e2[a] == e[a0]);
        assert(e2[b] == e[b0]);
    }
    let m2 = entries_map(e2);
    let m = entries_map(e).remove(k);
    assert forall|x: Seq<char>| #[trigger] m2.contains_key(x) <==> m.contains_key(x) by {
        if has_key(e2, x) {
            let j = choose|j: int| 0 <= j < e2.len() && (#[trigger] e2[j]).id@ == x;
            let j0 = if j < i {
                j
            } else {
                j + 1
            };
            assert(e2[j] == e[j0]);
            assert(has_key(e, x));
        }
        if has_key(e, x) && x != k {
            let j = choose|j: int| 0 <= j < e.len() && (#[trigger] e[j]).id@ == x;
            assert(j != i);
            let j2 = if j < i {
                j
            } else {
                j - 1
            };
            assert(e2[j2] == e[j]);
            assert(has_key(e2, x));
        }
    }
    assert forall|x: Seq<char>| #[trigger] m2.contains_key(x) implies m2[x] == m[x] by {
        let j = choose|j: int| 0 <= j < e2.len() && (#[trigger] e2[j]).id@ == x;
        let j0 = if j < i {
            j
        } else {
            j + 1
        };
        assert(e2[j] == e[j0]);
        lemma_lookup(e2, j);
        lemma_lookup(e, j0);
    }
    assert(m2 =~= m);
}

proof fn lemma_push<C, P>(e: Seq<SessionEntry<C, P>>, x: SessionEntry<C, P>)
    requires
        unique_keys(e),
        !has_key(e, x.id@),
    ensures
        unique_keys(e.push(x)),
        entries_map(e.push(x)) == entries_map(e).insert(x.id@, x.session),
{
    let e2 = e.push(x);
    let n = e.len() as int;
    assert forall|a: int, b: int|
        0 <= a < e2.len() && 0 <= b < e2.len() && a != b implies (#[trigger] e2[a]).id@ != (
        #[trigger] e2[b]).id@ by {
        if a < n && b < n {
            assert(e2[a] == e[a]);
            assert(e2[b] == e[b]);
        } else if a < n {
            assert(e2[a] == e[a]);
        } else {
            assert(e2[b] == e[b]);
        }
    }
    let m2 = entries_map(e2);
    let m = entries_map(e).insert(x.id@, x.session);
    assert forall|y: Seq<char>| #[trigger] m2.contains_key(y) <==> m.contains_key(y) by {
        if has_key(e2, y) {
            let j = choose|j: int| 0 <= j < e2.len() && (#[trigger] e2[j]).id@ == y;
            if j < n {
                assert(e2[j] == e[j]);
            }
        }
        if has_key(e, y) {
            let j = choose|j: int| 0 <= j < e.len() && (#[trigger] e[j]).id@ == y;
            assert(e2[j] == e[j]);
        }
        if y == x.id@ {
            assert(e2[n] == x);
        }
    }
    assert forall|y: Seq<char>| #[trigger] m2.contains_key(y) implies m2[y] == m[y] by {
        let j = choose|j: int| 0 <= j < e2.len() && (#[trigger] e2[j]).id@ == y;
        lemma_lookup(e2, j);
        if j < n {
            assert(e2[j] == e[j]);
            lemma_lookup(e, j);
        }
    }
    assert(m2 =~= m);
}

/// Calls `uuid::Uuid::new_v4` and renders the UUID with `to_string`.
/// The UUID is random; claimed is only the shape of its text: the
/// hyphenated lowercase form with the version 4 and RFC 4122 variant
/// digits that `new_v4` sets.
#[verifier::external_body]
fn new_v4_text() -> (id: String)
    ensures
        is_uuid_v4_text(id@),
{
    uuid::Uuid::new_v4().to_string()
}

/// Sessions paired with their ids, by position.
spec fn entries_of<C, P>(ids: Seq<String>, sessions: Seq<BrowserSession<C, P>>) -> Seq<
    SessionEntry<C, P>,
> {
    Seq::new(ids.len(), |i: int| SessionEntry { id: ids[i], session: sessions[i] })
}

/// Each session has an id, and ids are distinct UUID texts.
spec fn parts_wf<C, P>(ids: Seq<String>, sessions: Seq<BrowserSession<C, P>>) -> bool {
    &&& ids.len() == sessions.len()
    &&& unique_keys(entries_of(ids, sessions))
    &&& forall|i: int| 0 <= i < ids.len() ==> is_uuid_v4_text(#[trigger] ids[i]@)
}

/// Replacing a session in place keeps the ids well formed and changes the
/// map at that id only.
proof fn lemma_replace_session<C, P>(
    ids: Seq<String>,
    sessions: Seq<BrowserSession<C, P>>,
    i: int,
)
    requires
        parts_wf(ids, sessions),
        0 <= i < ids.len(),
    ensures
        forall|x: BrowserSession<C, P>|
            {
                &&& parts_wf(ids, #[trigger] sessions.update(i, x))
                &&& entries_map(entries_of(ids, sessions.update(i, x))) == entries_map(
                    entries_of(ids, sessions),
                ).insert(ids[i]@, x)
            },
{
    let e = entries_of(ids, sessions);
    assert forall|x: BrowserSession<C, P>|
        {
            &&& parts_wf(ids, #[trigger] sessions.update(i, x))
            &&& entries_map(entries_of(ids, sessions.update(i, x))) == entries_map(e).insert(
                ids[i]@,
                x,
            )
        } by {
        let y = SessionEntry { id: ids[i], session: x };
        assert(entries_of(ids, sessions.update(i, x)) =~= e.update(i, y));
        lemma_update(e, i, y);
    }
}

/// The message for a session id that names no session.
pub fn not_found_text(id: &str) -> (m: String)
    ensures
        m@ == not_found_message(id@),
{
    let mut m = copy_str("Session not found: ");
    append_str(&mut m, id);
    m
}

impl<C, P> View for SessionStore<C, P> {
    type V = Map<Seq<char>, BrowserSession<C, P>>;

    closed spec fn view(&self) -> Self::V {
        entries_map(self.entries())
    }
}

impl<C, P> SessionStore<C, P> {
    /// The sessions paired with their ids, by position.
    closed spec fn entries(&self) -> Seq<SessionEntry<C, P>> {
        entries_of(self.ids@, self.sessions@)
    }

    /// The ids of the sessions, in the order in which they were created.
    pub closed spec fn ids(&self) -> Seq<Seq<char>> {
        self.ids@.map_values(|x: String| x@)
    }

    /// The number of requests each session may serve.
    pub closed spec fn max_requests(&self) -> u32 {
        self.max_requests_per_session
    }

    /// The store is well formed: each session has an id, and ids are
    /// distinct UUID texts. Every store that the program holds is.
    #[verifier::type_invariant]
    pub closed spec fn wf(&self) -> bool {
        parts_wf(self.ids@, self.sessions@)
    }

    /// The ids list each session once, and only sessions; every id is a
    /// UUID text.
    pub proof fn lemma_ids(&self)
        requires
            self.wf(),
        ensures
            forall|k: Seq<char>| #[trigger] self@.contains_key(k) <==> self.ids().contains(k),
            forall|i: int, j: int|
                0 <= i < self.ids().len() && 0 <= j < self.ids().len() && i != j ==> #[trigger] self.ids()[i]
                    != #[trigger] self.ids()[j],
            forall|i: int| 0 <= i < self.ids().len() ==> is_uuid_v4_text(#[trigger] self.ids()[i]),
    {
        let e = self.entries();
        assert forall|k: Seq<char>| #[trigger] self@.contains_key(k) <==> self.ids().contains(k) by {
            if has_key(e, k) {
                let j = choose|j: int| 0 <= j < e.len() && (#[trigger] e[j]).id@ == k;
                assert(self.ids()[j] == k);
            }
            if self.ids().contains(k) {
                let j = choose|j: int| 0 <= j < self.ids().len() && self.ids()[j] == k;
                assert(e[j].id@ == k);
            }
        }
        assert forall|i: int, j: int|
            0 <= i < self.ids().len() && 0 <= j < self.ids().len() && i != j implies #[trigger] self.ids()[i]
            != #[trigger] self.ids()[j] by {
            assert(self.ids()[i] == e[i].id@);
            assert(self.ids()[j] == e[j].id@);
        }
    }

    /// An empty store whose sessions may each serve `max_requests_per_session`
    /// requests.
    pub fn new(max_requests_per_session: u32) -> (r: Self)
        ensures
            r.wf(),
            r@ == Map::<Seq<char>, BrowserSession<C, P>>::empty(),
            r.ids() == Seq::<Seq<char>>::empty(),
            r.max_requests() == max_requests_per_session,
    {
        let r = SessionStore { ids: Vec::new(), sessions: Vec::new(), max_requests_per_session };
        assert(r@ =~= Map::<Seq<char>, BrowserSession<C, P>>::empty());
        assert(r.ids() =~= Seq::<Seq<char>>::empty());
        r
    }

    /// The position of the session named `id`, if there is one.
    fn find(&self, id: &str) -> (r: Option<usize>)
        ensures
            match r {
                Some(i) => i < self.ids@.len() && self.ids@[i as int]@ == id@,
                None => !self@.contains_key(id@),
            },
    {
        proof {
            use_type_invariant(&*self);
        }
        let mut i: usize = 0;
        while i < self.ids.len()
            invariant
                i <= self.ids@.len(),
                forall|j: int| 0 <= j < i ==> (#[trigger] self.ids@[j])@ != id@,
            decreases self.ids@.len() - i,
        {
            if str_eq(self.ids[i].as_str(), id) {
                return Some(i);
            }
            i = i + 1;
        }
        proof {
            if has_key(self.entries(), id@) {
                let j = choose|j: int|
                    0 <= j < self.entries().len() && (#[trigger] self.entries()[j]).id@ == id@;
                assert(self.ids@[j]@ == id@);
            }
        }
        None
    }

    /// Opens a session under a fresh random id. `make_browser` builds the
    /// session's browser context and page from a `BrowserSpec` named after
    /// the id (`solverr-{id}`, `solverr-page-{id}`) with the given proxy,
    /// stealth mode and user agent; the session starts with no requests
    /// served.
    pub fn create<F: FnOnce(BrowserSpec) -> (C, P)>(
        &mut self,
        proxy: Option<String>,
        stealth: bool,
        user_agent: Option<String>,
        make_browser: F,
    ) -> (id: String)
        requires
            forall|b: BrowserSpec| make_browser.requires((b,)),
        ensures
            is_uuid_v4_text(id@),
            final(self).max_requests() == old(self).max_requests(),
            exists|b: BrowserSpec, cp: (C, P)|
                session_browser(b, id@, proxy, stealth, user_agent) && make_browser.ensures(
                    (b,),
                    cp,
                ) && final(self)@ == old(self)@.insert(
                    id@,
                    BrowserSession { context: cp.0, page: cp.1, requests: 0 },
                ),
            final(self).ids() == if old(self)@.contains_key(id@) {
                old(self).ids()
            } else {
                old(self).ids().push(id@)
            },
    {
        proof {
            use_type_invariant(&*self);
        }
        let id = new_v4_text();
        let mut context_name = copy_str("solverr-");
        append_str(&mut context_name, id.as_str());
        let mut page_name = copy_str("solverr-page-");
        append_str(&mut page_name, id.as_str());
        let spec = BrowserSpec { context_name, page_name, proxy, stealth, user_agent };
        let (context, page) = make_browser(spec);
        let session = BrowserSession { context, page, requests: 0 };
        let key = copy_str(id.as_str());
        let ghost old_e = self.entries();
        let found = self.find(id.as_str());
        let mut taken = SessionStore::new(self.max_requests_per_session);
        std::mem::swap(self, &mut taken);
        let SessionStore { mut ids, mut sessions, max_requests_per_session } = taken;
        let ghost entry = SessionEntry { id: key, session };
        match found {
            Some(i) => {
                ids.set(i, key);
                sessions.set(i, session);
                proof {
                    assert(entries_of(ids@, sessions@) =~= old_e.update(i as int, entry));
                    lemma_update(old_e, i as int, entry);
                    lemma_lookup(old_e, i as int);
                }
                *self = SessionStore { ids, sessions, max_requests_per_session };
                proof {
                    assert(self.ids() =~= old(self).ids());
                }
            },
            None => {
                ids.push(key);
                sessions.push(session);
                proof {
                    assert(entries_of(ids@, sessions@) =~= old_e.push(entry));
                    assert(!has_key(old_e, id@));
                    lemma_push(old_e, entry);
                }
                *self = SessionStore { ids, sessions, max_requests_per_session };
                proof {
                    assert(self.entries() =~= old_e.push(entry));
                    assert(self.ids() =~= old(self).ids().push(id@));
                }
            },
        }
        id
    }

    /// Closes the session named `session_id`; whether there was one.
    pub fn destroy(&mut self, session_id: &str) -> (removed: bool)
        ensures
            removed == old(self)@.contains_key(session_id@),
            final(self)@ == old(self)@.remove(session_id@),
            final(self).max_requests() == old(self).max_requests(),
            removed ==> exists|i: int|
                0 <= i < old(self).ids().len() && old(self).ids()[i] == session_id@
                    && final(self).ids() == old(self).ids().remove(i),
            !removed ==> final(self).ids() == old(self).ids(),
    {
        proof {
            use_type_invariant(&*self);
        }
        let ghost old_e = self.entries();
        match self.find(session_id) {
            Some(i) => {
                let mut taken = SessionStore::new(self.max_requests_per_session);
                std::mem::swap(self, &mut taken);
                let SessionStore { mut ids, mut sessions, max_requests_per_session } = taken;
                ids.remove(i);
                sessions.remove(i);
                proof {
                    assert(entries_of(ids@, sessions@) =~= old_e.remove(i as int));
                    lemma_remove(old_e, i as int);
                }
                *self = SessionStore { ids, sessions, max_requests_per_session };
                proof {
                    assert(self.entries() =~= old_e.remove(i as int));
                    lemma_lookup(old_e, i as int);
                    assert(self.ids() =~= old(self).ids().remove(i as int));
                    assert(old(self).ids()[i as int] == session_id@);
                }
                true
            },
            None => {
                proof {
                    assert(self@ =~= old(self)@.remove(session_id@));
                }
                false
            },
        }
    }

    /// The ids of all sessions, in the order in which they were created.
    pub fn list(&self) -> (ids: Vec<String>)
        ensures
            ids@.len() == self.ids().len(),
            forall|i: int| 0 <= i < ids@.len() ==> #[trigger] ids@[i]@ == self.ids()[i],
    {
        let mut out: Vec<String> = Vec::new();
        let mut i: usize = 0;
        while i < self.ids.len()
            invariant
                i <= self.ids@.len(),
                out@.len() == i,
                forall|j: int| 0 <= j < i ==> #[trigger] out@[j]@ == self.ids@[j]@,
            decreases self.ids@.len() - i,
        {
            out.push(copy_str(self.ids[i].as_str()));
            i = i + 1;
        }
        out
    }

    /// The session named `session_id`, to be used and changed in place.
    pub fn get_mut(&mut self, session_id: &str) -> (r: Option<&mut BrowserSession<C, P>>)
        ensures
            match r {
                Some(s) => {
                    &&& old(self)@.contains_key(session_id@)
                    &&& *s == old(self)@[session_id@]
                    &&& final(self)@ == old(self)@.insert(session_id@, *final(s))
                    &&& final(self).ids() == old(self).ids()
                    &&& final(self).max_requests() == old(self).max_requests()
                },
                None => {
                    &&& !old(self)@.contains_key(session_id@)
                    &&& *final(self) == *old(self)
                },
            },
    {
        proof {
            use_type_invariant(&*self);
        }
        let ghost old_e = self.entries();
        match self.find(session_id) {
            Some(i) => {
                proof {
                    lemma_lookup(old_e, i as int);
                    lemma_replace_session(self.ids@, self.sessions@, i as int);
                }
                let s = &mut self.sessions[i];
                Some(s)
            },
            None => None,
        }
    }

    /// Counts one more request for the session named `session_id`, unless
    /// there is no such session or it has served its maximum.
    pub fn touch(&mut self, session_id: &str) -> (r: Result<(), String>)
        ensures
            final(self).ids() == old(self).ids(),
            final(self).max_requests() == old(self).max_requests(),
            final(self)@ == touched(old(self)@, session_id@, old(self).max_requests()),
            r is Ok <==> touch_accepts(old(self)@, session_id@, old(self).max_requests()),
            !old(self)@.contains_key(session_id@) ==> (r matches Err(m) && m@ == not_found_message(
                session_id@,
            )),
            old(self)@.contains_key(session_id@) && old(self)@[session_id@].requests >= old(
                self,
            ).max_requests() ==> (r matches Err(m) && m@ == exhausted_message(
                session_id@,
                old(self).max_requests(),
            )),
    {
        proof {
            use_type_invariant(&*self);
        }
        let ghost old_e = self.entries();
        match self.find(session_id) {
            None => Err(not_found_text(session_id)),
            Some(i) => {
                proof {
                    lemma_lookup(old_e, i as int);
                }
                if self.sessions[i].requests >= self.max_requests_per_session {
                    let mut m = copy_str("Session ");
                    append_str(&mut m, session_id);
                    append_str(&mut m, " exceeded max requests (");
                    push_decimal(&mut m, self.max_requests_per_session as u64);
                    append_str(&mut m, ")");
                    return Err(m);
                }
                proof {
                    lemma_replace_session(self.ids@, self.sessions@, i as int);
                }
                let s = &mut self.sessions[i];
                s.requests = s.requests + 1;
                Ok(())
            },
        }
    }
}

} // verus!
