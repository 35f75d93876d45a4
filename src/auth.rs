//! The table of permitted stream keys and the publisher authentication rule.
use vstd::prelude::*;
use vstd::string::StringExecFns;

verus! {

/// Why a publisher was refused.
#[derive(Clone, Debug, PartialEq, Eq)]
pub enum AuthError {
    EmptyStreamKey,
    UnknownApplication { app_name: String },
    UnpermittedStreamKey { app_name: String, stream_key: String },
}

/// Application name to stream key, each application named at most once.
pub struct AuthTable {
    entries: Vec<(String, String)>,
}

/// The outcome of authentication as a function of the table and the request.
pub open spec fn auth_outcome(
    table: Map<Seq<char>, Seq<char>>,
    app: Seq<char>,
    key: Seq<char>,
) -> AuthVerdict {
    if key.len() == 0 {
        AuthVerdict::EmptyStreamKey
    } else if !table.contains_key(app) {
        AuthVerdict::UnknownApplication
    } else if table[app] != key {
        AuthVerdict::UnpermittedStreamKey
    } else {
        AuthVerdict::Accepted
    }
}

/// The verdicts of authentication, without the names they carry.
pub ghost enum AuthVerdict {
    Accepted,
    EmptyStreamKey,
    UnknownApplication,
    UnpermittedStreamKey,
}

/// The verdict that an authentication result stands for.
pub open spec fn verdict_of(r: Result<(), AuthError>) -> AuthVerdict {
    match r {
        Ok(()) => AuthVerdict::Accepted,
        Err(AuthError::EmptyStreamKey) => AuthVerdict::EmptyStreamKey,
        Err(AuthError::UnknownApplication { .. }) => AuthVerdict::UnknownApplication,
        Err(AuthError::UnpermittedStreamKey { .. }) => AuthVerdict::UnpermittedStreamKey,
    }
}

/// The names that an authentication error carries are those of the request.
pub open spec fn error_names_request(r: Result<(), AuthError>, app: Seq<char>, key: Seq<char>) -> bool {
    match r {
        Err(AuthError::UnknownApplication { app_name }) => app_name@ == app,
        Err(AuthError::UnpermittedStreamKey { app_name, stream_key }) => app_name@ == app
            && stream_key@ == key,
        _ => true,
    }
}

impl AuthTable {
    pub closed spec fn entries_spec(&self) -> Seq<(Seq<char>, Seq<char>)> {
        self.entries@.map_values(|e: (String, String)| (e.0@, e.1@))
    }

    /// Application names are non-empty and listed once.
    pub open spec fn wf(&self) -> bool {
        &&& forall|i: int| 0 <= i < self.entries_spec().len() ==> (#[trigger] self.entries_spec()[i]).0.len() > 0
        &&& forall|i: int, j: int|
            #![trigger self.entries_spec()[i], self.entries_spec()[j]]
            0 <= i < self.entries_spec().len() && 0 <= j < self.entries_spec().len() && i != j
                ==> self.entries_spec()[i].0 != self.entries_spec()[j].0
    }

    pub open spec fn view(&self) -> Map<Seq<char>, Seq<char>> {
        Map::new(
            |a: Seq<char>| exists|i: int| 0 <= i < self.entries_spec().len() && #[trigger] self.entries_spec()[i].0 == a,
            |a: Seq<char>|
                self.entries_spec()[choose|i: int| 0 <= i < self.entries_spec().len() && #[trigger] self.entries_spec()[i].0 == a].1,
        )
    }

    /// Every application name in the table is non-empty.
    pub proof fn lemma_names_non_empty(&self)
        requires
            self.wf(),
        ensures
            forall|a: Seq<char>| #[trigger] self@.contains_key(a) ==> a.len() > 0,
    {
        assert forall|a: Seq<char>| #[trigger] self@.contains_key(a) implies a.len() > 0 by {
            let i = choose|i: int| 0 <= i < self.entries_spec().len() && #[trigger] self.entries_spec()[i].0 == a;
            assert(self.entries_spec()[i].0.len() > 0);
        }
    }

    pub fn new() -> (r: AuthTable)
        ensures
            r.wf(),
            r@ == Map::<Seq<char>, Seq<char>>::empty(),
    {
        let r = AuthTable { entries: Vec::new() };
        assert(r@ =~= Map::<Seq<char>, Seq<char>>::empty());
        r
    }

    /// The position of the entry for `app`, if there is one.
    fn position(&self, app: &String) -> (r: Option<usize>)
        requires
            self.wf(),
        ensures
            r is None ==> !self@.contains_key(app@),
            r matches Some(i) ==> i < self.entries_spec().len() && self.entries_spec()[i as int].0
                == app@ && self@.contains_key(app@) && self@[app@] == self.entries_spec()[i as int].1,
    {
        let mut i: usize = 0;
        while i < self.entries.len()
            invariant
                self.wf(),
                i <= self.entries@.len(),
                forall|j: int| 0 <= j < i ==> #[trigger] self.entries_spec()[j].0 != app@,
            decreases self.entries@.len() - i,
        {
            if self.entries[i].0 == *app {
                proof {
                    assert(self.entries_spec().len() == self.entries@.len());
                    assert(self.entries_spec()[i as int].0 == app@);
                    let k = choose|k: int| 0 <= k < self.entries_spec().len() && #[trigger] self.entries_spec()[k].0 == app@;
                    assert(self.entries_spec()[k].0 == self.entries_spec()[i as int].0);
                    assert(k == i);
                    assert(self@.contains_key(app@));
                    assert(self@[app@] == self.entries_spec()[k].1);
                }
                return Some(i);
            }
            assert(self.entries_spec()[i as int].0 != app@);
            i = i + 1;
        }
        None
    }

    /// Permits `key` for `app`, replacing the key it had.
    pub fn insert(&mut self, app: String, key: String)
        requires
            old(self).wf(),
            app@.len() > 0,
        ensures
            final(self).wf(),
            final(self)@ == old(self)@.insert(app@, key@),
    {
        let ghost old_entries = self.entries_spec();
        match self.position(&app) {
            Some(i) => {
                let ghost a = app@;
                let ghost k = key@;
                self.entries.set(i, (app, key));
                assert(self.entries_spec() =~= old_entries.update(i as int, (a, k)));
                assert(self@ =~= old(self)@.insert(a, k)) by {
                    assert forall|x: Seq<char>| self@.contains_key(x) implies old(self)@.insert(a, k).contains_key(x) by {
                        let j = choose|j: int| 0 <= j < self.entries_spec().len() && #[trigger] self.entries_spec()[j].0 == x;
                        if j != i {
                            assert(old_entries[j].0 == x);
                        }
                    }
                    assert forall|x: Seq<char>| old(self)@.insert(a, k).contains_key(x) implies self@.contains_key(x) by {
                        if x == a {
                            assert(self.entries_spec()[i as int].0 == x);
                        } else {
                            let j = choose|j: int| 0 <= j < old_entries.len() && #[trigger] old_entries[j].0 == x;
                            assert(self.entries_spec()[j].0 == x);
                        }
                    }
                    assert forall|x: Seq<char>| #[trigger] self@.contains_key(x) implies self@[x] == old(self)@.insert(a, k)[x] by {
                        let j = choose|j: int| 0 <= j < self.entries_spec().len() && #[trigger] self.entries_spec()[j].0 == x;
                        if x != a {
                            let j0 = choose|j: int| 0 <= j < old_entries.len() && #[trigger] old_entries[j].0 == x;
                            assert(self.entries_spec()[j0].0 == x);
                        }
                    }
                }
            },
            None => {
                let ghost a = app@;
                let ghost k = key@;
                self.entries.push((app, key));
                let ghost n = old_entries.len();
                assert(self.entries_spec() =~= old_entries.push((a, k)));
                assert(self@ =~= old(self)@.insert(a, k)) by {
                    assert forall|x: Seq<char>| self@.contains_key(x) implies old(self)@.insert(a, k).contains_key(x) by {
                        let j = choose|j: int| 0 <= j < self.entries_spec().len() && #[trigger] self.entries_spec()[j].0 == x;
                        if j != n {
                            assert(old_entries[j].0 == x);
                        }
                    }
                    assert forall|x: Seq<char>| old(self)@.insert(a, k).contains_key(x) implies self@.contains_key(x) by {
                        if x == a {
                            assert(self.entries_spec()[n as int].0 == x);
                        } else {
                            let j = choose|j: int| 0 <= j < old_entries.len() && #[trigger] old_entries[j].0 == x;
                            assert(self.entries_spec()[j].0 == x);
                        }
                    }
                    assert forall|x: Seq<char>| #[trigger] self@.contains_key(x) implies self@[x] == old(self)@.insert(a, k)[x] by {
                        let j = choose|j: int| 0 <= j < self.entries_spec().len() && #[trigger] self.entries_spec()[j].0 == x;
                        if x != a {
                            let j0 = choose|j: int| 0 <= j < old_entries.len() && #[trigger] old_entries[j].0 == x;
                            assert(self.entries_spec()[j0].0 == x);
                        }
                    }
                }
            },
        }
    }

    /// The key permitted for `app`, if any.
    pub fn get(&self, app: &str) -> (r: Option<&String>)
        requires
            self.wf(),
        ensures
            r is None <==> !self@.contains_key(app@),
            r matches Some(k) ==> k@ == self@[app@],
    {
        let name = String::from_str(app);
        match self.position(&name) {
            Some(i) => Some(&self.entries[i].1),
            None => None,
        }
    }

    /// Whether `key` is accepted for `app`.
    pub fn is_authenticated(&self, app: &str, key: &str) -> (r: bool)
        requires
            self.wf(),
        ensures
            r == (auth_outcome(self@, app@, key@) == AuthVerdict::Accepted),
    {
        self.authenticate(app, key).is_ok()
    }

    /// Decides whether `key` lets a publisher publish to `app`.
    pub fn authenticate(&self, app: &str, key: &str) -> (r: Result<(), AuthError>)
        requires
            self.wf(),
        ensures
            verdict_of(r) == auth_outcome(self@, app@, key@),
            error_names_request(r, app@, key@),
            app@.len() == 0 ==> r is Err,
    {
        proof {
            if app@.len() == 0 && self@.contains_key(app@) {
                let i = choose|i: int| 0 <= i < self.entries_spec().len() && #[trigger] self.entries_spec()[i].0 == app@;
                assert(self.entries_spec()[i].0.len() > 0);
            }
        }
        if key.is_empty() {
            return Err(AuthError::EmptyStreamKey);
        }
        match self.get(app) {
            None => Err(AuthError::UnknownApplication { app_name: String::from_str(app) }),
            Some(k) => {
                let given = String::from_str(key);
                if *k == given {
                    Ok(())
                } else {
                    Err(AuthError::UnpermittedStreamKey {
                        app_name: String::from_str(app),
                        stream_key: given,
                    })
                }
            },
        }
    }
}

/// Authentication depends on the table, the application and the key alone:
/// an empty key or an unknown application is refused, a key other than the
/// permitted one is refused, and the permitted key is accepted. A table of
/// non-empty application names, as `AuthTable::wf` keeps, refuses an empty
/// one.
pub proof fn lemma_authentication_rule(table: Map<Seq<char>, Seq<char>>, app: Seq<char>, key: Seq<char>)
    ensures
        key.len() == 0 ==> auth_outcome(table, app, key) == AuthVerdict::EmptyStreamKey,
        key.len() > 0 && !table.contains_key(app) ==> auth_outcome(table, app, key)
            == AuthVerdict::UnknownApplication,
        key.len() > 0 && table.contains_key(app) && table[app] != key ==> auth_outcome(table, app, key)
            == AuthVerdict::UnpermittedStreamKey,
        key.len() > 0 && table.contains_key(app) && table[app] == key ==> auth_outcome(table, app, key)
            == AuthVerdict::Accepted,
        (forall|a: Seq<char>| #[trigger] table.contains_key(a) ==> a.len() > 0) && app.len() == 0 ==> auth_outcome(
            table,
            app,
            key,
        ) != AuthVerdict::Accepted,
{
}

} // verus!
