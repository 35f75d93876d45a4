//! The session manager: the registry of fanout channels by application name,
//! the publishers' authentication, and the republish policy.
use vstd::prelude::*;
use vstd::string::StringExecFns;
use rml_rtmp::sessions::StreamMetadata;
use crate::auth::{AuthError, AuthTable, auth_outcome, verdict_of};
use crate::channel::{
    ChannelError, ConnectionId, Delivery, FanoutChannel, joined, left, metadata_set, publish_applied,
    publish_result, routed,
};
use vstd::pervasive::VecAdditionalExecFns;
use crate::config::RepublishAction;
use crate::media::Media;

verus! {

/// Why the manager refused a request.
#[derive(Clone, Debug, PartialEq, Eq)]
pub enum SessionError {
    /// The connection asked to publish without an accepted authentication
    /// for that application.
    NotAuthenticated,
    RepublishDenied { app_name: String },
}

/// A channel and the application it serves.
pub struct AppChannel {
    pub name: String,
    pub channel: FanoutChannel,
}

/// An accepted authentication: `conn` may publish to `app` with `key`.
pub struct Ticket {
    pub conn: ConnectionId,
    pub app: String,
    pub key: String,
}

pub struct SessionManager {
    auth: AuthTable,
    policy: RepublishAction,
    channels: Vec<AppChannel>,
    tickets: Vec<Ticket>,
}

/// The channel-level form of a manager's publish result.
pub open spec fn channel_result_of(r: Result<Option<ConnectionId>, SessionError>) -> Result<
    Option<ConnectionId>,
    ChannelError,
> {
    match r {
        Ok(x) => Ok(x),
        Err(_) => Err(ChannelError::RepublishDenied),
    }
}

/// A channel that nothing has happened to yet.
pub open spec fn is_fresh(c: FanoutChannel) -> bool {
    &&& c.publisher_spec() is None
    &&& c.publisher_key_spec() is None
    &&& c.metadata_spec() is None
    &&& c.video_seq_header_spec() is None
    &&& c.audio_seq_header_spec() is None
    &&& c.watchers_spec().len() == 0
}

/// Where `app` stands in `names`, when it stands there.
pub open spec fn holds_name(names: Seq<Seq<char>>, app: Seq<char>, i: int) -> bool {
    0 <= i < names.len() && names[i] == app
}

impl SessionManager {
    pub closed spec fn auth_spec(&self) -> Map<Seq<char>, Seq<char>> {
        self.auth@
    }

    pub closed spec fn policy_spec(&self) -> RepublishAction {
        self.policy
    }

    pub closed spec fn names(&self) -> Seq<Seq<char>> {
        self.channels@.map_values(|c: AppChannel| c.name@)
    }

    pub closed spec fn channel_at(&self, i: int) -> FanoutChannel {
        self.channels@[i].channel
    }

    /// The channel of `app`, once created.
    pub open spec fn channel_of(&self, app: Seq<char>) -> Option<FanoutChannel> {
        if exists|i: int| #[trigger] holds_name(self.names(), app, i) {
            Some(self.channel_at(choose|i: int| #[trigger] holds_name(self.names(), app, i)))
        } else {
            None
        }
    }

    /// The publisher of `app`: one connection at most.
    pub open spec fn publisher_of(&self, app: Seq<char>) -> Option<ConnectionId> {
        match self.channel_of(app) {
            Some(c) => c.publisher_spec(),
            None => None,
        }
    }

    /// The accepted authentication of `conn`, as application and key.
    pub closed spec fn ticket_of(&self, conn: ConnectionId) -> Option<(Seq<char>, Seq<char>)> {
        if exists|i: int| 0 <= i < self.tickets@.len() && #[trigger] self.tickets@[i].conn == conn {
            let i = choose|i: int| 0 <= i < self.tickets@.len() && #[trigger] self.tickets@[i].conn == conn;
            Some((self.tickets@[i].app@, self.tickets@[i].key@))
        } else {
            None
        }
    }

    /// Every application has one channel, every channel is well formed, and
    /// every connection one ticket at most.
    pub open spec fn wf(&self) -> bool {
        &&& self.auth_wf()
        &&& forall|i: int, j: int|
            #![trigger self.names()[i], self.names()[j]]
            0 <= i < self.names().len() && 0 <= j < self.names().len() && i != j ==> self.names()[i]
                != self.names()[j]
        &&& forall|i: int| 0 <= i < self.names().len() ==> (#[trigger] self.channel_at(i)).wf()
        &&& self.tickets_wf()
    }

    pub closed spec fn auth_wf(&self) -> bool {
        self.auth.wf()
    }

    pub closed spec fn tickets_wf(&self) -> bool {
        forall|i: int, j: int|
            #![trigger self.tickets@[i], self.tickets@[j]]
            0 <= i < self.tickets@.len() && 0 <= j < self.tickets@.len() && i != j ==> self.tickets@[i].conn
                != self.tickets@[j].conn
    }

    pub fn new(auth: AuthTable, policy: RepublishAction) -> (r: SessionManager)
        requires
            auth.wf(),
        ensures
            r.wf(),
            r.auth_spec() == auth@,
            r.policy_spec() == policy,
            forall|app: Seq<char>| r.channel_of(app) is None,
            forall|c: ConnectionId| r.ticket_of(c) is None,
    {
        let r = SessionManager { auth, policy, channels: Vec::new(), tickets: Vec::new() };
        assert(r.names().len() == 0);
        r
    }

    /// The index of the channel of `app`.
    fn find(&self, app: &String) -> (r: Option<usize>)
        requires
            self.wf(),
        ensures
            r is None ==> self.channel_of(app@) is None,
            r matches Some(i) ==> i < self.names().len() && self.names()[i as int] == app@
                && self.channel_of(app@) == Some(self.channel_at(i as int)),
    {
        let mut i: usize = 0;
        while i < self.channels.len()
            invariant
                self.wf(),
                i <= self.channels@.len(),
                forall|j: int| 0 <= j < i ==> #[trigger] self.names()[j] != app@,
            decreases self.channels@.len() - i,
        {
            if self.channels[i].name == *app {
                proof {
                    assert(self.names()[i as int] == app@);
                    assert(holds_name(self.names(), app@, i as int));
                    let k = choose|k: int| #[trigger] holds_name(self.names(), app@, k);
                    assert(self.names()[k] == self.names()[i as int]);
                    assert(k == i);
                }
                return Some(i);
            }
            assert(self.names()[i as int] != app@);
            i = i + 1;
        }
        assert(!exists|k: int| #[trigger] holds_name(self.names(), app@, k)) by {
            assert forall|k: int| !#[trigger] holds_name(self.names(), app@, k) by {
                if 0 <= k < self.names().len() {
                    assert(self.names()[k] != app@);
                }
            }
        }
        None
    }

    /// The index of the channel of `app`, created empty where there was none.
    fn find_or_create(&mut self, app: &String) -> (r: usize)
        requires
            old(self).wf(),
        ensures
            final(self).wf(),
            r < final(self).names().len(),
            final(self).names()[r as int] == app@,
            final(self).channel_of(app@) == Some(final(self).channel_at(r as int)),
            old(self).channel_of(app@) matches Some(c) ==> final(self).channel_at(r as int) == c,
            old(self).channel_of(app@) is None ==> ({
                let c = final(self).channel_at(r as int);
                &&& c.publisher_spec() is None
                &&& c.publisher_key_spec() is None
                &&& c.metadata_spec() is None
                &&& c.video_seq_header_spec() is None
                &&& c.audio_seq_header_spec() is None
                &&& c.watchers_spec().len() == 0
            }),
            forall|a: Seq<char>| a != app@ ==> #[trigger] final(self).channel_of(a) == old(self).channel_of(a),
            final(self).auth_spec() == old(self).auth_spec(),
            final(self).policy_spec() == old(self).policy_spec(),
            forall|c: ConnectionId| #[trigger] final(self).ticket_of(c) == old(self).ticket_of(c),
    {
        match self.find(app) {
            Some(i) => i,
            None => {
                let ghost old_names = self.names();
                let n = self.channels.len();
                self.channels.push(AppChannel { name: app.clone(), channel: FanoutChannel::new() });
                assert(self.tickets@ == old(self).tickets@);
                assert(forall|c: ConnectionId| #[trigger] self.ticket_of(c) == old(self).ticket_of(c));
                assert(self.names() =~= old_names.push(app@));
                assert(forall|j: int| 0 <= j < n ==> #[trigger] self.channel_at(j) == old(self).channel_at(j));
                assert(self.wf()) by {
                    assert forall|i: int, j: int|
                        0 <= i < self.names().len() && 0 <= j < self.names().len() && i != j
                        implies self.names()[i] != self.names()[j] by {
                        if i < n && j < n {
                            assert(old_names[i] != old_names[j]);
                        } else if i < n {
                            assert(!holds_name(old_names, app@, i));
                        } else if j < n {
                            assert(!holds_name(old_names, app@, j));
                        }
                    }
                    assert forall|i: int| 0 <= i < self.names().len() implies (#[trigger] self.channel_at(i)).wf() by {
                        if i < n {
                            assert(old(self).channel_at(i).wf());
                        }
                    }
                }
                assert(holds_name(self.names(), app@, n as int));
                proof {
                    let k = choose|k: int| #[trigger] holds_name(self.names(), app@, k);
                    if k != n {
                        assert(self.names()[k] != self.names()[n as int]);
                    }
                }
                assert forall|a: Seq<char>| a != app@ implies #[trigger] self.channel_of(a) == old(self).channel_of(a) by {
                    if exists|i: int| #[trigger] holds_name(old_names, a, i) {
                        let i = choose|i: int| #[trigger] holds_name(old_names, a, i);
                        assert(holds_name(self.names(), a, i));
                        let k = choose|k: int| #[trigger] holds_name(self.names(), a, k);
                        assert(self.names()[k] == self.names()[i]);
                        assert(k == i);
                    } else {
                        assert forall|k: int| !#[trigger] holds_name(self.names(), a, k) by {
                            if 0 <= k < n {
                                assert(!holds_name(old_names, a, k));
                            }
                        }
                    }
                }
                n
            },
        }
    }

    /// Writes `channel` back at `i`.
    proof fn lemma_channel_update(old_m: &SessionManager, new_m: &SessionManager, i: int, app: Seq<char>)
        requires
            old_m.wf(),
            0 <= i < old_m.names().len(),
            old_m.names()[i] == app,
            new_m.names() == old_m.names(),
            new_m.channel_at(i).wf(),
            forall|j: int| 0 <= j < old_m.names().len() && j != i ==> #[trigger] new_m.channel_at(j)
                == old_m.channel_at(j),
            new_m.auth_wf() == old_m.auth_wf(),
            new_m.tickets_wf() == old_m.tickets_wf(),
        ensures
            new_m.wf(),
            new_m.channel_of(app) == Some(new_m.channel_at(i)),
            forall|a: Seq<char>| a != app ==> #[trigger] new_m.channel_of(a) == old_m.channel_of(a),
    {
        assert forall|j: int| 0 <= j < new_m.names().len() implies (#[trigger] new_m.channel_at(j)).wf() by {
            if j != i {
                assert(old_m.channel_at(j).wf());
            }
        }
        assert(holds_name(new_m.names(), app, i));
        let k = choose|k: int| #[trigger] holds_name(new_m.names(), app, k);
        assert(new_m.names()[k] == new_m.names()[i]);
        assert forall|a: Seq<char>| a != app implies #[trigger] new_m.channel_of(a) == old_m.channel_of(a) by {
            if exists|j: int| #[trigger] holds_name(old_m.names(), a, j) {
                let j = choose|j: int| #[trigger] holds_name(old_m.names(), a, j);
                assert(holds_name(new_m.names(), a, j));
                assert(j != i);
            }
        }
    }

    /// Checks a publisher's credentials; on acceptance, `conn` holds a ticket
    /// for `app` and `key`.
    pub fn authenticate(&mut self, conn: ConnectionId, app: &str, key: &str) -> (r: Result<(), AuthError>)
        requires
            old(self).wf(),
        ensures
            final(self).wf(),
            verdict_of(r) == auth_outcome(old(self).auth_spec(), app@, key@),
            r is Ok ==> final(self).ticket_of(conn) == Some((app@, key@)),
            r is Err ==> final(self).ticket_of(conn) == old(self).ticket_of(conn),
            forall|c: ConnectionId| c != conn ==> #[trigger] final(self).ticket_of(c) == old(self).ticket_of(c),
            forall|a: Seq<char>| #[trigger] final(self).channel_of(a) == old(self).channel_of(a),
            final(self).auth_spec() == old(self).auth_spec(),
            final(self).policy_spec() == old(self).policy_spec(),
    {
        let r = self.auth.authenticate(app, key);
        if r.is_ok() {
            let ticket = Ticket { conn, app: String::from_str(app), key: String::from_str(key) };
            let ghost old_t = self.tickets@;
            let mut i: usize = 0;
            let mut found = false;
            while i < self.tickets.len() && !found
                invariant
                    self.tickets@ == old_t,
                    i <= old_t.len(),
                    forall|j: int| 0 <= j < i ==> #[trigger] old_t[j].conn != conn,
                    found ==> i < old_t.len() && old_t[i as int].conn == conn,
                decreases old_t.len() - i, if found { 0int } else { 1int },
            {
                if self.tickets[i].conn == conn {
                    found = true;
                } else {
                    i = i + 1;
                }
            }
            if found {
                self.tickets.set(i, ticket);
                proof {
                    assert(self.tickets@[i as int].conn == conn);
                    assert(self.tickets_wf()) by {
                        assert forall|a: int, b: int|
                            0 <= a < self.tickets@.len() && 0 <= b < self.tickets@.len() && a != b
                            implies self.tickets@[a].conn != self.tickets@[b].conn by {
                            assert(old_t[a].conn != old_t[b].conn);
                        }
                    }
                    let k = choose|k: int| 0 <= k < self.tickets@.len() && #[trigger] self.tickets@[k].conn == conn;
                    assert(self.tickets@[k].conn == self.tickets@[i as int].conn);
                    assert forall|c: ConnectionId| c != conn implies #[trigger] self.ticket_of(c) == old(self).ticket_of(c) by {
                        if exists|j: int| 0 <= j < old_t.len() && #[trigger] old_t[j].conn == c {
                            let j = choose|j: int| 0 <= j < old_t.len() && #[trigger] old_t[j].conn == c;
                            assert(self.tickets@[j].conn == c);
                            let k2 = choose|k: int| 0 <= k < self.tickets@.len() && #[trigger] self.tickets@[k].conn == c;
                            assert(old_t[k2].conn == c);
                            assert(k2 == j);
                        } else {
                            assert forall|k2: int| 0 <= k2 < self.tickets@.len() implies #[trigger] self.tickets@[k2].conn != c by {
                                if k2 != i {
                                    assert(old_t[k2].conn != c);
                                }
                            }
                        }
                    }
                }
            } else {
                let n = self.tickets.len();
                self.tickets.push(ticket);
                proof {
                    assert(self.tickets@[n as int].conn == conn);
                    assert(self.tickets_wf()) by {
                        assert forall|a: int, b: int|
                            0 <= a < self.tickets@.len() && 0 <= b < self.tickets@.len() && a != b
                            implies self.tickets@[a].conn != self.tickets@[b].conn by {
                            if a < n && b < n {
                                assert(old_t[a].conn != old_t[b].conn);
                            } else if a < n {
                                assert(old_t[a].conn != conn);
                            } else {
                                assert(old_t[b].conn != conn);
                            }
                        }
                    }
                    let k = choose|k: int| 0 <= k < self.tickets@.len() && #[trigger] self.tickets@[k].conn == conn;
                    if k != n {
                        assert(old_t[k].conn != conn);
                    }
                    assert forall|c: ConnectionId| c != conn implies #[trigger] self.ticket_of(c) == old(self).ticket_of(c) by {
                        if exists|j: int| 0 <= j < old_t.len() && #[trigger] old_t[j].conn == c {
                            let j = choose|j: int| 0 <= j < old_t.len() && #[trigger] old_t[j].conn == c;
                            assert(self.tickets@[j].conn == c);
                            let k2 = choose|k: int| 0 <= k < self.tickets@.len() && #[trigger] self.tickets@[k].conn == c;
                            assert(k2 != n);
                            assert(old_t[k2].conn == c);
                            assert(k2 == j);
                        } else {
                            assert forall|k2: int| 0 <= k2 < self.tickets@.len() implies #[trigger] self.tickets@[k2].conn != c by {
                                if k2 < n {
                                    assert(old_t[k2].conn != c);
                                }
                            }
                        }
                    }
                }
            }
        }
        assert(self.names() == old(self).names());
        assert(self.auth_wf() == old(self).auth_wf());
        assert(forall|i: int| #[trigger] self.channel_at(i) == old(self).channel_at(i));
        assert(forall|a: Seq<char>| #[trigger] self.channel_of(a) == old(self).channel_of(a));
        r
    }

    /// `conn` holds an accepted authentication for `app`.
    pub open spec fn may_publish(&self, conn: ConnectionId, app: Seq<char>) -> bool {
        self.ticket_of(conn) is Some && (self.ticket_of(conn)->0).0 == app
    }

    /// Everything but the channel of `app` is as it was.
    pub open spec fn others_unchanged(&self, before: &SessionManager, app: Seq<char>) -> bool {
        &&& forall|a: Seq<char>| a != app ==> #[trigger] self.channel_of(a) == before.channel_of(a)
        &&& forall|c: ConnectionId| #[trigger] self.ticket_of(c) == before.ticket_of(c)
        &&& self.auth_spec() == before.auth_spec()
        &&& self.policy_spec() == before.policy_spec()
    }

    /// The accepted authentication of `conn`, as application and key.
    fn ticket(&self, conn: ConnectionId) -> (r: Option<(String, String)>)
        requires
            self.wf(),
        ensures
            r is None ==> self.ticket_of(conn) is None,
            r matches Some(t) ==> self.ticket_of(conn) == Some((t.0@, t.1@)),
    {
        let mut i: usize = 0;
        while i < self.tickets.len()
            invariant
                self.wf(),
                i <= self.tickets@.len(),
                forall|j: int| 0 <= j < i ==> #[trigger] self.tickets@[j].conn != conn,
            decreases self.tickets@.len() - i,
        {
            if self.tickets[i].conn == conn {
                proof {
                    let k = choose|k: int| 0 <= k < self.tickets@.len() && #[trigger] self.tickets@[k].conn == conn;
                    assert(self.tickets@[k].conn == self.tickets@[i as int].conn);
                }
                let app = self.tickets[i].app.clone();
                let key = self.tickets[i].key.clone();
                return Some((app, key));
            }
            i = i + 1;
        }
        None
    }

    /// Takes the channel at `i` out, leaving a fresh one in its place.
    fn swap_out(&mut self, i: usize) -> (r: FanoutChannel)
        requires
            old(self).wf(),
            i < old(self).names().len(),
        ensures
            final(self).wf(),
            r == old(self).channel_at(i as int),
            r.wf(),
            final(self).names() == old(self).names(),
            forall|j: int| 0 <= j < old(self).names().len() && j != i ==> #[trigger] final(self).channel_at(j) == old(self).channel_at(j),
            final(self).auth_wf() == old(self).auth_wf(),
            final(self).tickets_wf() == old(self).tickets_wf(),
            final(self).auth_spec() == old(self).auth_spec(),
            final(self).policy_spec() == old(self).policy_spec(),
            forall|c: ConnectionId| #[trigger] final(self).ticket_of(c) == old(self).ticket_of(c),
    {
        let mut slot = AppChannel { name: String::new(), channel: FanoutChannel::new() };
        self.channels.set_and_swap(i, &mut slot);
        let AppChannel { name, channel } = slot;
        self.channels.set(i, AppChannel { name, channel: FanoutChannel::new() });
        assert(self.names() =~= old(self).names());
        assert(self.tickets@ == old(self).tickets@);
        assert(self.tickets_wf() == old(self).tickets_wf());
        assert(forall|c: ConnectionId| #[trigger] self.ticket_of(c) == old(self).ticket_of(c));
        assert(old(self).channel_at(i as int).wf());
        assert(self.wf()) by {
            assert forall|j: int| 0 <= j < self.names().len() implies (#[trigger] self.channel_at(j)).wf() by {
                if j != i {
                    assert(old(self).channel_at(j).wf());
                }
            }
        }
        channel
    }

    /// Puts `c` at `i`.
    fn put_back(&mut self, i: usize, c: FanoutChannel)
        requires
            i < old(self).names().len(),
        ensures
            final(self).channel_at(i as int) == c,
            final(self).names() == old(self).names(),
            forall|j: int| 0 <= j < old(self).names().len() && j != i ==> #[trigger] final(self).channel_at(j) == old(self).channel_at(j),
            final(self).auth_wf() == old(self).auth_wf(),
            final(self).tickets_wf() == old(self).tickets_wf(),
            final(self).auth_spec() == old(self).auth_spec(),
            final(self).policy_spec() == old(self).policy_spec(),
            forall|x: ConnectionId| #[trigger] final(self).ticket_of(x) == old(self).ticket_of(x),
    {
        let mut slot = AppChannel { name: String::new(), channel: FanoutChannel::new() };
        self.channels.set_and_swap(i, &mut slot);
        let AppChannel { name, channel: _ } = slot;
        self.channels.set(i, AppChannel { name, channel: c });
        assert(self.names() =~= old(self).names());
        assert(self.tickets@ == old(self).tickets@);
        assert(self.tickets_wf() == old(self).tickets_wf());
        assert(forall|x: ConnectionId| #[trigger] self.ticket_of(x) == old(self).ticket_of(x));
    }

    /// Gives `conn` the publisher slot of `app`, by its ticket and the
    /// republish policy. Returns the publisher that it replaced, which is
    /// to be disconnected.
    pub fn register_source(&mut self, conn: ConnectionId, app: &str) -> (r: Result<Option<ConnectionId>, SessionError>)
        requires
            old(self).wf(),
        ensures
            final(self).wf(),
            final(self).others_unchanged(old(self), app@),
            !old(self).may_publish(conn, app@) ==> r == Err::<
                Option<ConnectionId>,
                SessionError,
            >(SessionError::NotAuthenticated) && final(self).channel_of(app@) == old(self).channel_of(app@),
            old(self).may_publish(conn, app@) ==> {
                &&& r is Ok || (r matches Err(SessionError::RepublishDenied { app_name }) && app_name@ == app@)
                &&& channel_result_of(r) == publish_result(old(self).publisher_of(app@), old(self).policy_spec())
                &&& final(self).channel_of(app@) is Some
                &&& old(self).channel_of(app@) is Some ==> publish_applied(
                    old(self).channel_of(app@)->0,
                    final(self).channel_of(app@)->0,
                    conn,
                    (old(self).ticket_of(conn)->0).1,
                    old(self).policy_spec(),
                    channel_result_of(r),
                )
                &&& r is Ok ==> final(self).publisher_of(app@) == Some(conn)
                &&& r is Err ==> final(self).channel_of(app@) == old(self).channel_of(app@)
            },
    {
        let name = String::from_str(app);
        let key = match self.ticket(conn) {
            Some((a, k)) => {
                if a == name {
                    k
                } else {
                    return Err(SessionError::NotAuthenticated);
                }
            },
            None => {
                return Err(SessionError::NotAuthenticated);
            },
        };
        let ghost start = *self;
        let i = self.find_or_create(&name);
        let ghost created = *self;
        let mut c = self.swap_out(i);
        let res = c.set_publisher(conn, key, self.policy);
        self.put_back(i, c);
        proof {
            Self::lemma_channel_update(&created, self, i as int, app@);
        }
        match res {
            Ok(x) => Ok(x),
            Err(_) => {
                proof {
                    assert(start.publisher_of(app@) is Some);
                    assert(self.channel_of(app@) == created.channel_of(app@));
                }
                Err(SessionError::RepublishDenied { app_name: name })
            },
        }
    }

    /// Makes `conn` a player of `app` and returns what it is sent first.
    pub fn register_sink(&mut self, conn: ConnectionId, app: &str) -> (r: Vec<Delivery>)
        requires
            old(self).wf(),
        ensures
            final(self).wf(),
            final(self).others_unchanged(old(self), app@),
            final(self).channel_of(app@) matches Some(c2) && (old(self).channel_of(app@) matches Some(c)
                ==> joined(c, c2, conn, r@)) && (old(self).channel_of(app@) is None ==> r@.len() == 0
                && c2.watcher_ids() == set![conn] && c2.publisher_spec() is None),
    {
        let name = String::from_str(app);
        let i = self.find_or_create(&name);
        let ghost created = *self;
        let mut c = self.swap_out(i);
        let out = c.add_watcher(conn);
        self.put_back(i, c);
        proof {
            Self::lemma_channel_update(&created, self, i as int, app@);
            if old(self).channel_of(app@) is None {
                assert(created.channel_at(i as int).watcher_ids() =~= Set::<ConnectionId>::empty());
                assert(self.channel_at(i as int).watcher_ids() =~= set![conn]);
            }
        }
        out
    }

    /// Ends the part of `conn` in `app`: a publisher's end unpublishes the
    /// channel, a player's end removes the player.
    pub fn finished(&mut self, conn: ConnectionId, app: &str)
        requires
            old(self).wf(),
        ensures
            final(self).wf(),
            final(self).others_unchanged(old(self), app@),
            old(self).channel_of(app@) is None ==> final(self).channel_of(app@) is None,
            old(self).channel_of(app@) matches Some(c) ==> final(self).channel_of(app@) matches Some(c2) && if c.publisher_spec()
                == Some(conn) {
                c2.is_unpublished_from(&c)
            } else {
                left(c, c2, conn)
            },
    {
        let name = String::from_str(app);
        match self.find(&name) {
            None => {},
            Some(i) => {
                let ghost before = *self;
                let mut c = self.swap_out(i);
                if c.publisher() == Some(conn) {
                    c.unpublish();
                } else {
                    c.remove_watcher(conn);
                }
                self.put_back(i, c);
                proof {
                    Self::lemma_channel_update(&before, self, i as int, app@);
                }
            },
        }
    }

    /// Routes a media unit that `conn` sent for `app`; only the publisher's
    /// media is routed.
    pub fn route_media(&mut self, conn: ConnectionId, app: &str, media: &Media) -> (r: Vec<Delivery>)
        requires
            old(self).wf(),
        ensures
            final(self).wf(),
            final(self).others_unchanged(old(self), app@),
            old(self).publisher_of(app@) == Some(conn) ==> old(self).channel_of(app@) is Some
                && final(self).channel_of(app@) is Some && routed(old(self).channel_of(app@)->0, final(self).channel_of(app@)->0, *media, r@),
            old(self).publisher_of(app@) != Some(conn) ==> r@.len() == 0 && final(self).channel_of(app@)
                == old(self).channel_of(app@),
    {
        let name = String::from_str(app);
        match self.find(&name) {
            None => Vec::new(),
            Some(i) => {
                let ghost before = *self;
                let mut c = self.swap_out(i);
                let out = if c.publisher() == Some(conn) {
                    c.route_media(media)
                } else {
                    Vec::new()
                };
                self.put_back(i, c);
                proof {
                    Self::lemma_channel_update(&before, self, i as int, app@);
                }
                out
            },
        }
    }

    /// Replaces the metadata of `app` with what its publisher `conn` sent,
    /// and sends it to the players.
    pub fn set_metadata(&mut self, conn: ConnectionId, app: &str, m: StreamMetadata) -> (r: Vec<Delivery>)
        requires
            old(self).wf(),
        ensures
            final(self).wf(),
            final(self).others_unchanged(old(self), app@),
            old(self).publisher_of(app@) == Some(conn) ==> old(self).channel_of(app@) is Some
                && final(self).channel_of(app@) is Some && metadata_set(old(self).channel_of(app@)->0, final(self).channel_of(app@)->0, m, r@),
            old(self).publisher_of(app@) != Some(conn) ==> r@.len() == 0 && final(self).channel_of(app@)
                == old(self).channel_of(app@),
    {
        let name = String::from_str(app);
        match self.find(&name) {
            None => Vec::new(),
            Some(i) => {
                let ghost before = *self;
                let mut c = self.swap_out(i);
                let out = if c.publisher() == Some(conn) {
                    c.set_metadata(m)
                } else {
                    Vec::new()
                };
                self.put_back(i, c);
                proof {
                    Self::lemma_channel_update(&before, self, i as int, app@);
                }
                out
            },
        }
    }
}

/// For every application at most one connection holds the publisher slot:
/// the registry has one channel per application, and every entry under that
/// name carries the same publisher, `publisher_of(app)`.
pub proof fn lemma_one_publisher_per_app(m: SessionManager, app: Seq<char>)
    requires
        m.wf(),
    ensures
        forall|i: int| #[trigger] holds_name(m.names(), app, i) ==> m.channel_at(i).publisher_spec()
            == m.publisher_of(app),
        forall|i: int, j: int|
            #[trigger] holds_name(m.names(), app, i) && #[trigger] holds_name(m.names(), app, j) ==> i == j,
{
    assert forall|i: int, j: int|
        #[trigger] holds_name(m.names(), app, i) && #[trigger] holds_name(m.names(), app, j) implies i == j by {
        if i != j {
            assert(m.names()[i] != m.names()[j]);
        }
    }
    assert forall|i: int| #[trigger] holds_name(m.names(), app, i) implies m.channel_at(i).publisher_spec()
        == m.publisher_of(app) by {
        let k = choose|k: int| #[trigger] holds_name(m.names(), app, k);
        if k != i {
            assert(m.names()[k] != m.names()[i]);
        }
    }
}

} // verus!