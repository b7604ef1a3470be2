use crate::text::{clone_opt_text, opt_text, same_text};
use vstd::prelude::*;
use vstd::string::*;

verus! {

/// Whether no two pairs of the list carry the same name.
pub open spec fn distinct_names(pairs: Seq<(Seq<char>, Seq<char>)>) -> bool {
    forall|i: int, j: int|
        0 <= i < j < pairs.len() ==> (#[trigger] pairs[i]).0 != (#[trigger] pairs[j]).0
}

/// Whether some pair of the list carries `name`.
pub open spec fn has_name(pairs: Seq<(Seq<char>, Seq<char>)>, name: Seq<char>) -> bool {
    exists|i: int| 0 <= i < pairs.len() && (#[trigger] pairs[i]).0 == name
}

/// A position at which the list carries `name`; the only one where the
/// names are distinct.
pub open spec fn position_of(pairs: Seq<(Seq<char>, Seq<char>)>, name: Seq<char>) -> int {
    choose|i: int| 0 <= i < pairs.len() && (#[trigger] pairs[i]).0 == name
}

/// The value that the list gives to `name`, if it carries the name.
pub open spec fn lookup(pairs: Seq<(Seq<char>, Seq<char>)>, name: Seq<char>) -> Option<
    Seq<char>,
> {
    if has_name(pairs, name) {
        Some(pairs[position_of(pairs, name)].1)
    } else {
        None
    }
}

/// The list after `name` has been given `value`: the pair that carried the
/// name is replaced where it stood, and a new name goes to the end.
pub open spec fn upsert(
    pairs: Seq<(Seq<char>, Seq<char>)>,
    name: Seq<char>,
    value: Seq<char>,
) -> Seq<(Seq<char>, Seq<char>)> {
    if has_name(pairs, name) {
        pairs.update(position_of(pairs, name), (name, value))
    } else {
        pairs.push((name, value))
    }
}

/// The list that comes of giving each pair of `raw` in turn: a name keeps
/// the place of its first pair and ends with the value of its last.
pub open spec fn assoc(raw: Seq<(Seq<char>, Seq<char>)>) -> Seq<(Seq<char>, Seq<char>)>
    decreases raw.len(),
{
    if raw.len() == 0 {
        Seq::empty()
    } else {
        upsert(assoc(raw.drop_last()), raw.last().0, raw.last().1)
    }
}

/// One cookie as it stands in a request header: `name=value`.
pub open spec fn pair_text(pair: (Seq<char>, Seq<char>)) -> Seq<char> {
    pair.0 + seq!['='] + pair.1
}

/// The request header that carries all pairs: `name=value` for each, in
/// order, with `; ` between two of them.
pub open spec fn cookie_header(pairs: Seq<(Seq<char>, Seq<char>)>) -> Seq<char>
    decreases pairs.len(),
{
    if pairs.len() == 0 {
        Seq::empty()
    } else if pairs.len() == 1 {
        pair_text(pairs[0])
    } else {
        cookie_header(pairs.drop_last()) + seq![';', ' '] + pair_text(pairs.last())
    }
}

/// What a list of owned pairs holds, as characters.
pub open spec fn pair_views(entries: Seq<(String, String)>) -> Seq<(Seq<char>, Seq<char>)> {
    Seq::new(entries.len(), |i: int| (entries[i].0@, entries[i].1@))
}

/// Giving a value to a name keeps the names distinct.
pub proof fn lemma_upsert_distinct(
    pairs: Seq<(Seq<char>, Seq<char>)>,
    name: Seq<char>,
    value: Seq<char>,
)
    requires
        distinct_names(pairs),
    ensures
        distinct_names(upsert(pairs, name, value)),
        lookup(upsert(pairs, name, value), name) == Some(value),
        upsert(pairs, name, value).len() == if has_name(pairs, name) {
            pairs.len()
        } else {
            pairs.len() + 1
        },
{
    let after = upsert(pairs, name, value);
    if has_name(pairs, name) {
        let at = position_of(pairs, name);
        assert(after[at].0 == name);
        assert forall|i: int, j: int| 0 <= i < j < after.len() implies (#[trigger] after[i]).0 != (
        #[trigger] after[j]).0 by {
            assert(after[i].0 == pairs[i].0);
            assert(after[j].0 == pairs[j].0);
        }
        let found = position_of(after, name);
        assert(after[found].0 == name);
        if found < at {
            assert(after[found].0 != after[at].0);
        } else if at < found {
            assert(after[at].0 != after[found].0);
        }
    } else {
        let at = pairs.len() as int;
        assert(after[at].0 == name);
        assert forall|i: int, j: int| 0 <= i < j < after.len() implies (#[trigger] after[i]).0 != (
        #[trigger] after[j]).0 by {
            if j < pairs.len() {
                assert(after[i] == pairs[i]);
                assert(after[j] == pairs[j]);
            } else {
                assert(after[i] == pairs[i]);
            }
        }
        let found = position_of(after, name);
        assert(after[found].0 == name);
        if found < at {
            assert(after[found] == pairs[found]);
        }
    }
}

/// A list without a repeated name is the list that comes of giving its
/// pairs in turn: a jar made of the pairs of another jar holds what that
/// jar holds.
pub proof fn law_distinct_pairs_are_kept(pairs: Seq<(Seq<char>, Seq<char>)>)
    requires
        distinct_names(pairs),
    ensures
        assoc(pairs) == pairs,
    decreases pairs.len(),
{
    if pairs.len() > 0 {
        let shorter = pairs.drop_last();
        assert forall|i: int, j: int| 0 <= i < j < shorter.len() implies (#[trigger] shorter[i]).0
            != (#[trigger] shorter[j]).0 by {
            assert(shorter[i] == pairs[i]);
            assert(shorter[j] == pairs[j]);
        }
        law_distinct_pairs_are_kept(shorter);
        if has_name(shorter, pairs.last().0) {
            let at = position_of(shorter, pairs.last().0);
            assert(shorter[at] == pairs[at]);
            assert(pairs[at].0 != pairs[pairs.len() - 1].0);
        }
        assert(shorter.push(pairs.last()) =~= pairs);
    } else {
        assert(assoc(pairs) =~= pairs);
    }
}

/// The cookies of a session: names with their values, no name twice, in
/// the order in which the names came.
#[derive(Debug)]
pub struct CookieJar {
    entries: Vec<(String, String)>,
}

impl View for CookieJar {
    type V = Seq<(Seq<char>, Seq<char>)>;

    closed spec fn view(&self) -> Seq<(Seq<char>, Seq<char>)> {
        pair_views(self.entries@)
    }
}

impl CookieJar {
    #[verifier::type_invariant]
    spec fn names_are_distinct(self) -> bool {
        distinct_names(pair_views(self.entries@))
    }

    /// A jar without cookies.
    pub fn new() -> (jar: Self)
        ensures
            jar@ == Seq::<(Seq<char>, Seq<char>)>::empty(),
    {
        let jar = CookieJar { entries: Vec::new() };
        assert(jar@ =~= Seq::<(Seq<char>, Seq<char>)>::empty());
        jar
    }

    /// The number of cookies.
    pub fn len(&self) -> (n: usize)
        ensures
            n == self@.len(),
            distinct_names(self@),
    {
        proof {
            use_type_invariant(self);
        }
        self.entries.len()
    }

    /// Whether the jar holds no cookie.
    pub fn is_empty(&self) -> (empty: bool)
        ensures
            empty == (self@.len() == 0),
    {
        self.entries.len() == 0
    }

    /// Where `name` stands among the entries, or their number if it does
    /// not.
    fn find(&self, name: &str) -> (at: usize)
        ensures
            at <= self@.len(),
            at < self@.len() ==> self@[at as int].0 == name@ && position_of(self@, name@) == at,
            has_name(self@, name@) == (at < self@.len()),
    {
        proof {
            use_type_invariant(self);
        }
        let mut i: usize = 0;
        while i < self.entries.len()
            invariant
                i <= self.entries.len(),
                distinct_names(self@),
                self@ == pair_views(self.entries@),
                forall|k: int| 0 <= k < i ==> (#[trigger] self@[k]).0 != name@,
            decreases self.entries.len() - i,
        {
            if same_text(self.entries[i].0.as_str(), name) {
                proof {
                    let chosen = position_of(self@, name@);
                    assert(self@[i as int].0 == name@);
                    if chosen < i {
                        assert(self@[chosen].0 != self@[i as int].0);
                    } else if i < chosen {
                        assert(self@[i as int].0 != self@[chosen].0);
                    }
                }
                return i;
            }
            i += 1;
        }
        i
    }

    /// The value of the cookie called `name`.
    pub fn get(&self, name: &str) -> (found: Option<&String>)
        ensures
            match found {
                Some(value) => lookup(self@, name@) == Some(value@),
                None => lookup(self@, name@) is None,
            },
    {
        let at = self.find(name);
        if at < self.entries.len() {
            Some(&self.entries[at].1)
        } else {
            None
        }
    }

    /// Gives the cookie called `name` the value `value`. A cookie of that
    /// name keeps its place and loses its old value; a new name goes to the
    /// end.
    pub fn insert(&mut self, name: String, value: String)
        ensures
            final(self)@ == upsert(old(self)@, name@, value@),
    {
        let at = self.find(name.as_str());
        proof {
            use_type_invariant(&*self);
            lemma_upsert_distinct(self@, name@, value@);
        }
        let mut taken = CookieJar { entries: Vec::new() };
        core::mem::swap(self, &mut taken);
        let mut entries = taken.entries;
        if at < entries.len() {
            entries.set(at, (name, value));
        } else {
            entries.push((name, value));
        }
        assert(pair_views(entries@) =~= upsert(old(self)@, name@, value@));
        *self = CookieJar { entries };
    }

    /// The jar that holds the given pairs, each given in turn: of two pairs
    /// with one name the later gives the value.
    pub fn from_pairs(pairs: Vec<(String, String)>) -> (jar: Self)
        ensures
            jar@ == assoc(pair_views(pairs@)),
    {
        let ghost raw = pair_views(pairs@);
        let mut jar = CookieJar::new();
        for pair in it: pairs
            invariant
                it.seq() == pairs@,
                raw == pair_views(pairs@),
                jar@ == assoc(raw.take(it.index() as int)),
        {
            let ghost done = raw.take(it.index() as int);
            let ghost more = raw.take(it.index() + 1);
            assert(more.drop_last() =~= done);
            assert(more.last() == (pair.0@, pair.1@));
            jar.insert(pair.0, pair.1);
        }
        assert(raw.take(raw.len() as int) =~= raw);
        jar
    }

    /// The cookies of the jar, each a name and its value, in the jar's
    /// order.
    pub fn to_pairs(&self) -> (pairs: Vec<(String, String)>)
        ensures
            pair_views(pairs@) == self@,
    {
        let mut pairs: Vec<(String, String)> = Vec::new();
        let mut i: usize = 0;
        while i < self.entries.len()
            invariant
                i <= self.entries.len(),
                pairs@.len() == i,
                forall|k: int|
                    0 <= k < i ==> (#[trigger] pairs@[k]).0@ == self.entries@[k].0@
                        && pairs@[k].1@ == self.entries@[k].1@,
            decreases self.entries.len() - i,
        {
            pairs.push((self.entries[i].0.clone(), self.entries[i].1.clone()));
            i += 1;
        }
        assert(pair_views(pairs@) =~= pair_views(self.entries@));
        pairs
    }

    /// The `Cookie` header that sends every cookie of the jar: `name=value`
    /// for each, in the jar's order, with `; ` between two of them.
    pub fn header(&self) -> (line: String)
        ensures
            line@ == cookie_header(self@),
    {
        let mut line = String::new();
        let mut i: usize = 0;
        proof {
            reveal_strlit("; ");
            reveal_strlit("=");
        }
        while i < self.entries.len()
            invariant
                i <= self.entries.len(),
                self@ == pair_views(self.entries@),
                line@ == cookie_header(self@.take(i as int)),
                "; "@ == seq![';', ' '],
                "="@ == seq!['='],
            decreases self.entries.len() - i,
        {
            let ghost before = self@.take(i as int);
            let ghost after = self@.take(i + 1);
            assert(after.drop_last() =~= before);
            assert(after.last() == self@[i as int]);
            if i > 0 {
                line.append("; ");
            }
            line.append(self.entries[i].0.as_str());
            line.append("=");
            line.append(self.entries[i].1.as_str());
            assert(line@ =~= cookie_header(after));
            i += 1;
        }
        assert(self@.take(i as int) =~= self@);
        line
    }
}

impl Clone for CookieJar {
    fn clone(&self) -> (copy: Self)
        ensures
            copy@ == self@,
    {
        proof {
            use_type_invariant(self);
        }
        CookieJar { entries: self.to_pairs() }
    }
}

/// An authenticated session with the portal.
#[derive(Debug)]
pub struct AuthSession {
    /// The cookies that authenticate a request.
    pub cookies: CookieJar,
    /// The portal's name for the user, where it is known.
    pub user_id: Option<String>,
    /// When the session ends, in seconds since the Unix epoch.
    pub expires_at: i64,
}

/// What an `AuthSession` holds.
pub struct AuthSessionView {
    pub cookies: Seq<(Seq<char>, Seq<char>)>,
    pub user_id: Option<Seq<char>>,
    pub expires_at: i64,
}

impl View for AuthSession {
    type V = AuthSessionView;

    open spec fn view(&self) -> AuthSessionView {
        AuthSessionView {
            cookies: self.cookies@,
            user_id: opt_text(self.user_id),
            expires_at: self.expires_at,
        }
    }
}

impl Clone for AuthSession {
    fn clone(&self) -> (copy: Self)
        ensures
            copy@ == self@,
    {
        AuthSession {
            cookies: self.cookies.clone(),
            user_id: clone_opt_text(&self.user_id),
            expires_at: self.expires_at,
        }
    }
}

/// What a session that may be absent holds.
pub open spec fn opt_session(session: Option<AuthSession>) -> Option<AuthSessionView> {
    match session {
        Some(s) => Some(s@),
        None => None,
    }
}

/// The store of the process: the one session that is live, if any, and the
/// label of the one login surface that is open, if any.
#[derive(Debug)]
pub struct AuthState {
    /// The live session.
    pub session: Option<AuthSession>,
    /// The label of the open login surface.
    pub auth_webview_label: Option<String>,
}

/// What an `AuthState` holds.
pub struct AuthStateView {
    pub session: Option<AuthSessionView>,
    pub login_surface: Option<Seq<char>>,
}

impl View for AuthState {
    type V = AuthStateView;

    open spec fn view(&self) -> AuthStateView {
        AuthStateView {
            session: opt_session(self.session),
            login_surface: opt_text(self.auth_webview_label),
        }
    }
}

impl AuthState {
    /// A store without a session and without a login surface.
    pub fn new() -> (state: Self)
        ensures
            state@ == (AuthStateView { session: None, login_surface: None }),
    {
        AuthState { session: None, auth_webview_label: None }
    }

    /// A copy of the live session. The store stays as it is.
    pub fn get(&self) -> (session: Option<AuthSession>)
        ensures
            opt_session(session) == self@.session,
    {
        match &self.session {
            Some(s) => Some(s.clone()),
            None => None,
        }
    }

    /// Makes `session` the live session, in place of any other.
    pub fn set(&mut self, session: AuthSession)
        ensures
            final(self)@ == (AuthStateView { session: Some(session@), ..old(self)@ }),
    {
        self.session = Some(session);
    }

    /// Removes the live session.
    pub fn clear(&mut self)
        ensures
            final(self)@ == (AuthStateView { session: None, ..old(self)@ }),
    {
        self.session = None;
    }

    /// A copy of the open login surface's label. The store stays as it is.
    pub fn get_login_surface(&self) -> (label: Option<String>)
        ensures
            opt_text(label) == self@.login_surface,
    {
        clone_opt_text(&self.auth_webview_label)
    }

    /// Records `label` as the open login surface, or that none is open.
    pub fn set_login_surface(&mut self, label: Option<String>)
        ensures
            final(self)@ == (AuthStateView { login_surface: opt_text(label), ..old(self)@ }),
    {
        self.auth_webview_label = label;
    }
}

/// The live session, for the host: a copy of it, or nothing.
pub fn check_auth_status(state: &AuthState) -> (session: Option<AuthSession>)
    ensures
        opt_session(session) == state@.session,
{
    state.get()
}

/// Makes `session` the live session of `state`.
pub fn set_auth_session(session: AuthSession, state: &mut AuthState)
    ensures
        final(state)@ == (AuthStateView { session: Some(session@), ..old(state)@ }),
{
    state.set(session);
}

/// Ends the live session of `state`, if there is one.
pub fn logout(state: &mut AuthState)
    ensures
        final(state)@ == (AuthStateView { session: None, ..old(state)@ }),
{
    state.clear();
}

} // verus!
