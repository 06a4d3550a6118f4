//! Saved connection profiles: a keyed store of endpoints for quick
//! access to frequently used servers.
//!
//! The store keeps one profile per identifier.  The embedding process
//! persists the store as a keyed JSON file and reloads it at startup
//! through [`ProfileStore::insert_profile`]; passwords are never stored.

use vstd::prelude::*;

use vstd::multiset::Multiset;

use crate::clock::now_timestamp;
use crate::ids::fresh_id;
use crate::text::{chars_le, lemma_chars_le_refl, lemma_chars_le_total, lemma_chars_le_trans, lower_of, lowercase, opt_chars, str_eq, str_le};
use vstd::seq_lib::group_seq_lib_default;
use vstd::string::StringExecFns;

verus! {

/// The transport a profile connects with.
#[derive(Clone, Copy, Debug, PartialEq, Eq, Structural)]
pub enum ProfileConnectionType {
    /// An SSH connection.
    Ssh,
    /// A telnet connection.
    Telnet,
}

/// How an SSH profile authenticates.
#[derive(Clone, Copy, Debug, PartialEq, Eq, Structural)]
pub enum ProfileAuthMethod {
    /// Username and password, asked for at connect time.
    Password,
    /// A private key file, with an optional passphrase.
    PublicKey,
}

/// A saved connection profile.  Passwords are not stored; the user
/// enters them at connect time.
pub struct ConnectionProfile {
    /// The opaque profile identifier.
    pub id: String,
    /// The display name.
    pub name: String,
    /// The transport to connect with.
    pub connection_type: ProfileConnectionType,
    /// The host to connect to.
    pub host: String,
    /// The port to connect to.
    pub port: u16,
    /// The username, for SSH profiles.
    pub username: Option<String>,
    /// The authentication method, for SSH profiles.
    pub auth_method: Option<ProfileAuthMethod>,
    /// The private key path, for key-based SSH profiles.
    pub key_path: Option<String>,
    /// When the profile was created, as a human-readable timestamp.
    pub created_at: String,
    /// When the profile last changed, as a human-readable timestamp.
    pub updated_at: String,
}

/// The connection type a request names: `ssh` or `telnet`, compared
/// after lowercasing.
pub open spec fn conn_type_of(s: Seq<char>) -> Option<ProfileConnectionType> {
    if lower_of(s) == "ssh"@ {
        Some(ProfileConnectionType::Ssh)
    } else if lower_of(s) == "telnet"@ {
        Some(ProfileConnectionType::Telnet)
    } else {
        None
    }
}

/// The authentication method a request names: `publickey` after
/// lowercasing, anything else meaning password.
pub open spec fn auth_of(o: Option<Seq<char>>) -> Option<ProfileAuthMethod> {
    match o {
        Some(m) => Some(
            if lower_of(m) == "publickey"@ {
                ProfileAuthMethod::PublicKey
            } else {
                ProfileAuthMethod::Password
            },
        ),
        None => None,
    }
}

fn parse_conn_type(s: &str) -> (r: Option<ProfileConnectionType>)
    ensures
        r == conn_type_of(s@),
{
    let low = lowercase(s);
    if str_eq(low.as_str(), "ssh") {
        Some(ProfileConnectionType::Ssh)
    } else if str_eq(low.as_str(), "telnet") {
        Some(ProfileConnectionType::Telnet)
    } else {
        None
    }
}

fn parse_auth(o: &Option<String>) -> (r: Option<ProfileAuthMethod>)
    ensures
        r == auth_of(opt_chars(*o)),
{
    match o {
        Some(m) => {
            let low = lowercase(m.as_str());
            if str_eq(low.as_str(), "publickey") {
                Some(ProfileAuthMethod::PublicKey)
            } else {
                Some(ProfileAuthMethod::Password)
            }
        },
        None => None,
    }
}

fn duplicate_profile(p: &ConnectionProfile) -> (c: ConnectionProfile)
    ensures
        c == *p,
{
    let username = match &p.username {
        Some(u) => Some(u.clone()),
        None => None,
    };
    let key_path = match &p.key_path {
        Some(k) => Some(k.clone()),
        None => None,
    };
    ConnectionProfile {
        id: p.id.clone(),
        name: p.name.clone(),
        connection_type: p.connection_type,
        host: p.host.clone(),
        port: p.port,
        username,
        auth_method: p.auth_method,
        key_path,
        created_at: p.created_at.clone(),
        updated_at: p.updated_at.clone(),
    }
}

/// The keyed store of saved profiles.
pub struct ProfileStore {
    profiles: Vec<ConnectionProfile>,
}

impl ProfileStore {
    /// The stored profiles, oldest first.
    pub closed spec fn profiles(&self) -> Seq<ConnectionProfile> {
        self.profiles@
    }

    /// True when a stored profile carries the identifier.
    pub open spec fn contains_pid(&self, id: Seq<char>) -> bool {
        exists|i: int| 0 <= i < self.profiles().len() && self.profiles()[i].id@ == id
    }

    /// Well-formedness: profile identifiers are pairwise distinct.
    pub open spec fn wf(&self) -> bool {
        forall|i: int, j: int|
            0 <= i < j < self.profiles().len() ==> self.profiles()[i].id@
                != self.profiles()[j].id@
    }

    /// An empty store.  The embedding reloads saved profiles into it
    /// with [`ProfileStore::insert_profile`] before use.
    pub fn new() -> (r: ProfileStore)
        ensures
            r.wf(),
            r.profiles() == Seq::<ConnectionProfile>::empty(),
    {
        ProfileStore { profiles: Vec::new() }
    }

    fn find_index(&self, id: &str) -> (r: Option<usize>)
        ensures
            match r {
                Some(i) => i < self.profiles().len() && self.profiles()[i as int].id@ == id@,
                None => !self.contains_pid(id@),
            },
    {
        let n = self.profiles.len();
        let mut i: usize = 0;
        while i < n
            invariant
                n == self.profiles().len(),
                i <= n,
                forall|k: int| 0 <= k < i ==> self.profiles()[k].id@ != id@,
            decreases n - i,
        {
            if str_eq(self.profiles[i].id.as_str(), id) {
                return Some(i);
            }
            i = i + 1;
        }
        None
    }

    /// Stores the profile under its identifier, replacing any stored
    /// profile with the same identifier, and reports whether one was
    /// replaced.
    pub fn insert_profile(&mut self, p: ConnectionProfile) -> (replaced: bool)
        ensures
            replaced == old(self).contains_pid(p.id@),
            !replaced ==> final (self).profiles() == old(self).profiles().push(p),
            final (self).profiles().len() == old(self).profiles().len() + (if replaced {
                0int
            } else {
                1int
            }),
            final (self).profiles().last() == p,
            final (self).contains_pid(p.id@),
            old(self).wf() ==> final (self).wf(),
            old(self).wf() ==> forall|q: ConnectionProfile|
                #[trigger] final (self).profiles().contains(q) <==> (q == p || (old(
                    self,
                ).profiles().contains(q) && q.id@ != p.id@)),
    {
        let ghost old_profiles = self.profiles@;
        match self.find_index(p.id.as_str()) {
            Some(i) => {
                self.profiles.remove(i);
                let ghost mid = self.profiles@;
                self.profiles.push(p);
                proof {
                    assert(mid =~= old_profiles.remove(i as int));
                    assert(forall|k: int| 0 <= k < i ==> mid[k] == old_profiles[k]);
                    assert(forall|k: int|
                        i <= k < mid.len() ==> mid[k] == old_profiles[k + 1]);
                    assert(self.profiles@ == mid.push(p));
                    assert(self.profiles@.last() == p);
                    if old(self).wf() {
                        assert forall|q: ConnectionProfile|
                            #[trigger] self.profiles@.contains(q) <==> (q == p || (
                            old_profiles.contains(q) && q.id@ != p.id@)) by {
                            if self.profiles@.contains(q) {
                                let k = choose|k: int|
                                    0 <= k < self.profiles@.len() && self.profiles@[k] == q;
                                if k < mid.len() {
                                    if k < i {
                                        assert(old_profiles[k] == q);
                                        assert(old_profiles[k].id@ != old_profiles[i as int].id@);
                                    } else {
                                        assert(old_profiles[k + 1] == q);
                                        assert(old_profiles[k + 1].id@ != old_profiles[
                                            i as int].id@);
                                    }
                                }
                            }
                            if q == p {
                                assert(self.profiles@.last() == q);
                            }
                            if old_profiles.contains(q) && q.id@ != p.id@ {
                                let k = choose|k: int|
                                    0 <= k < old_profiles.len() && old_profiles[k] == q;
                                assert(k != i);
                                if k < i {
                                    assert(self.profiles@[k] == q);
                                } else {
                                    assert(self.profiles@[k - 1] == q);
                                }
                            }
                        }
                        assert forall|a: int, b: int|
                            0 <= a < b < self.profiles@.len() implies self.profiles@[a].id@
                            != self.profiles@[b].id@ by {
                            if b < mid.len() {
                            } else {
                                if a < i {
                                    assert(self.profiles@[a] == old_profiles[a]);
                                } else {
                                    assert(self.profiles@[a] == old_profiles[a + 1]);
                                }
                            }
                        }
                    }
                }
                true
            },
            None => {
                self.profiles.push(p);
                proof {
                    assert(self.profiles@.last() == p);
                    if old(self).wf() {
                        assert forall|q: ConnectionProfile|
                            #[trigger] self.profiles@.contains(q) <==> (q == p || (
                            old_profiles.contains(q) && q.id@ != p.id@)) by {
                            if self.profiles@.contains(q) {
                                let k = choose|k: int|
                                    0 <= k < self.profiles@.len() && self.profiles@[k] == q;
                                if k < old_profiles.len() {
                                    assert(old_profiles[k] == q);
                                    assert(old_profiles[k].id@ != p.id@);
                                }
                            }
                            if old_profiles.contains(q) && q.id@ != p.id@ {
                                let k = choose|k: int|
                                    0 <= k < old_profiles.len() && old_profiles[k] == q;
                                assert(self.profiles@[k] == q);
                            }
                        }
                    }
                }
                false
            },
        }
    }

    /// Creates a profile stamped with the given time: a fresh identifier
    /// is drawn and checked against the stored ones, the connection type
    /// and authentication method are read from their request strings, and
    /// the stored and returned profile carries the given timestamp as both
    /// its creation and update time.  In the vanishing case that the draw
    /// repeats a stored identifier, nothing changes and an error names it.
    pub fn create_profile_at(
        &mut self,
        name: String,
        connection_type: String,
        host: String,
        port: u16,
        username: Option<String>,
        auth_method: Option<String>,
        key_path: Option<String>,
        now: &str,
    ) -> (r: Result<ConnectionProfile, String>)
        ensures
            conn_type_of(connection_type@) is None ==> (r matches Err(e) && e@
                == "Invalid connection type"@),
            conn_type_of(connection_type@) is Some ==> (r matches Err(e) ==> e@
                == "Could not issue a fresh profile id"@),
            r is Err ==> *final (self) == *old(self),
            conn_type_of(connection_type@) is Some && old(self).profiles().len() == 0 ==> r is Ok,
            r matches Ok(p) ==> {
                &&& conn_type_of(connection_type@) is Some
                &&& p.name == name
                &&& p.connection_type == conn_type_of(connection_type@)->0
                &&& p.host == host
                &&& p.port == port
                &&& p.username == username
                &&& p.auth_method == auth_of(opt_chars(auth_method))
                &&& p.key_path == key_path
                &&& p.created_at@ == now@
                &&& p.updated_at@ == now@
                &&& p.created_at == p.updated_at
                &&& p.id@.len() == 36
                &&& !old(self).contains_pid(p.id@)
                &&& final (self).profiles() == old(self).profiles().push(p)
                &&& final (self).contains_pid(p.id@)
            },
            old(self).wf() ==> final (self).wf(),
    {
        let conn_type = match parse_conn_type(connection_type.as_str()) {
            Some(t) => t,
            None => {
                return Err("Invalid connection type".to_owned());
            },
        };
        let auth = parse_auth(&auth_method);
        let id = fresh_id();
        if let Some(_) = self.find_index(id.as_str()) {
            return Err("Could not issue a fresh profile id".to_owned());
        }
        let ts = now.to_owned();
        let profile = ConnectionProfile {
            id,
            name,
            connection_type: conn_type,
            host,
            port,
            username,
            auth_method: auth,
            key_path,
            created_at: ts.clone(),
            updated_at: ts,
        };
        let copy = duplicate_profile(&profile);
        self.insert_profile(copy);
        Ok(profile)
    }

    /// Creates a profile stamped with the current time.
    pub fn create_profile(
        &mut self,
        name: String,
        connection_type: String,
        host: String,
        port: u16,
        username: Option<String>,
        auth_method: Option<String>,
        key_path: Option<String>,
    ) -> (r: Result<ConnectionProfile, String>)
        ensures
            conn_type_of(connection_type@) is None ==> (r matches Err(e) && e@
                == "Invalid connection type"@),
            conn_type_of(connection_type@) is Some ==> (r matches Err(e) ==> e@
                == "Could not issue a fresh profile id"@),
            r is Err ==> *final (self) == *old(self),
            conn_type_of(connection_type@) is Some && old(self).profiles().len() == 0 ==> r is Ok,
            r matches Ok(p) ==> {
                &&& conn_type_of(connection_type@) is Some
                &&& p.name == name
                &&& p.connection_type == conn_type_of(connection_type@)->0
                &&& p.host == host
                &&& p.port == port
                &&& p.username == username
                &&& p.auth_method == auth_of(opt_chars(auth_method))
                &&& p.key_path == key_path
                &&& p.created_at == p.updated_at
                &&& p.id@.len() == 36
                &&& !old(self).contains_pid(p.id@)
                &&& final (self).profiles() == old(self).profiles().push(p)
                &&& final (self).contains_pid(p.id@)
            },
            old(self).wf() ==> final (self).wf(),
    {
        let now = now_timestamp();
        self.create_profile_at(
            name,
            connection_type,
            host,
            port,
            username,
            auth_method,
            key_path,
            now.as_str(),
        )
    }

    /// Rewrites the stored profile with the identifier, stamped with the
    /// given time; the creation time of the stored profile is kept.
    pub fn update_profile_at(
        &mut self,
        id: String,
        name: String,
        connection_type: String,
        host: String,
        port: u16,
        username: Option<String>,
        auth_method: Option<String>,
        key_path: Option<String>,
        now: &str,
    ) -> (r: Result<ConnectionProfile, String>)
        ensures
            conn_type_of(connection_type@) is None ==> (r matches Err(e) && e@
                == "Invalid connection type"@ && *final (self) == *old(self)),
            conn_type_of(connection_type@) is Some && !old(self).contains_pid(id@) ==> (r matches
                Err(e) && e@ == "Profile not found"@ && *final (self) == *old(self)),
            conn_type_of(connection_type@) is Some && old(self).contains_pid(id@) ==> (r matches Ok(
                p,
            ) && {
                &&& p.id == id
                &&& p.name == name
                &&& p.connection_type == conn_type_of(connection_type@)->0
                &&& p.host == host
                &&& p.port == port
                &&& p.username == username
                &&& p.auth_method == auth_of(opt_chars(auth_method))
                &&& p.key_path == key_path
                &&& p.updated_at@ == now@
                &&& (exists|i: int|
                    0 <= i < old(self).profiles().len() && old(self).profiles()[i].id@ == id@
                        && p.created_at == #[trigger] old(self).profiles()[i].created_at)
                &&& final (self).contains_pid(id@)
                &&& final (self).profiles().last() == p
                &&& (old(self).wf() ==> forall|q: ConnectionProfile|
                    #[trigger] final (self).profiles().contains(q) <==> (q == p || (old(
                        self,
                    ).profiles().contains(q) && q.id@ != id@)))
            }),
            old(self).wf() ==> final (self).wf(),
    {
        let conn_type = match parse_conn_type(connection_type.as_str()) {
            Some(t) => t,
            None => {
                return Err("Invalid connection type".to_owned());
            },
        };
        let auth = parse_auth(&auth_method);
        let created_at = match self.find_index(id.as_str()) {
            Some(i) => self.profiles[i].created_at.clone(),
            None => {
                return Err("Profile not found".to_owned());
            },
        };
        let profile = ConnectionProfile {
            id,
            name,
            connection_type: conn_type,
            host,
            port,
            username,
            auth_method: auth,
            key_path,
            created_at,
            updated_at: now.to_owned(),
        };
        let copy = duplicate_profile(&profile);
        self.insert_profile(copy);
        Ok(profile)
    }

    /// Rewrites the stored profile with the identifier, stamped with the
    /// current time; the creation time of the stored profile is kept.
    pub fn update_profile(
        &mut self,
        id: String,
        name: String,
        connection_type: String,
        host: String,
        port: u16,
        username: Option<String>,
        auth_method: Option<String>,
        key_path: Option<String>,
    ) -> (r: Result<ConnectionProfile, String>)
        ensures
            conn_type_of(connection_type@) is None ==> (r matches Err(e) && e@
                == "Invalid connection type"@ && *final (self) == *old(self)),
            conn_type_of(connection_type@) is Some && !old(self).contains_pid(id@) ==> (r matches
                Err(e) && e@ == "Profile not found"@ && *final (self) == *old(self)),
            conn_type_of(connection_type@) is Some && old(self).contains_pid(id@) ==> (r matches Ok(
                p,
            ) && {
                &&& p.id == id
                &&& p.name == name
                &&& p.connection_type == conn_type_of(connection_type@)->0
                &&& p.host == host
                &&& p.port == port
                &&& p.username == username
                &&& p.auth_method == auth_of(opt_chars(auth_method))
                &&& p.key_path == key_path
                &&& (exists|i: int|
                    0 <= i < old(self).profiles().len() && old(self).profiles()[i].id@ == id@
                        && p.created_at == #[trigger] old(self).profiles()[i].created_at)
                &&& final (self).contains_pid(id@)
                &&& final (self).profiles().last() == p
                &&& (old(self).wf() ==> forall|q: ConnectionProfile|
                    #[trigger] final (self).profiles().contains(q) <==> (q == p || (old(
                        self,
                    ).profiles().contains(q) && q.id@ != id@)))
            }),
            old(self).wf() ==> final (self).wf(),
    {
        let now = now_timestamp();
        self.update_profile_at(
            id,
            name,
            connection_type,
            host,
            port,
            username,
            auth_method,
            key_path,
            now.as_str(),
        )
    }

    /// Removes the profile with the identifier, reporting whether one
    /// was stored.
    pub fn delete_profile(&mut self, id: &str) -> (removed: bool)
        ensures
            removed == old(self).contains_pid(id@),
            !removed ==> *final (self) == *old(self),
            removed ==> final (self).profiles().len() == old(self).profiles().len() - 1,
            old(self).wf() ==> final (self).wf(),
            old(self).wf() ==> forall|x: Seq<char>|
                #[trigger] final (self).contains_pid(x) <==> (old(self).contains_pid(x) && x
                    != id@),
    {
        match self.find_index(id) {
            Some(i) => {
                let ghost old_profiles = self.profiles@;
                self.profiles.remove(i);
                proof {
                    assert(self.profiles@ =~= old_profiles.remove(i as int));
                    assert(forall|k: int| 0 <= k < i ==> self.profiles@[k] == old_profiles[k]);
                    assert(forall|k: int|
                        i <= k < self.profiles@.len() ==> self.profiles@[k] == old_profiles[k
                            + 1]);
                    if old(self).wf() {
                        assert forall|x: Seq<char>|
                            #[trigger] self.contains_pid(x) <==> (old(self).contains_pid(x) && x
                                != id@) by {
                            if self.contains_pid(x) {
                                let k = choose|k: int|
                                    0 <= k < self.profiles@.len() && self.profiles@[k].id@ == x;
                                if k < i {
                                    assert(old_profiles[k].id@ == x);
                                    assert(old_profiles[k].id@ != old_profiles[i as int].id@);
                                } else {
                                    assert(old_profiles[k + 1].id@ == x);
                                    assert(old_profiles[k + 1].id@ != old_profiles[i as int].id@);
                                }
                            }
                            if old(self).contains_pid(x) && x != id@ {
                                let k = choose|k: int|
                                    0 <= k < old_profiles.len() && old_profiles[k].id@ == x;
                                assert(k != i);
                                if k < i {
                                    assert(self.profiles@[k].id@ == x);
                                } else {
                                    assert(self.profiles@[k - 1].id@ == x);
                                }
                            }
                        }
                    }
                }
                true
            },
            None => false,
        }
    }

    /// Looks a profile up by identifier.
    pub fn get_profile(&self, id: &str) -> (r: Option<ConnectionProfile>)
        ensures
            match r {
                Some(p) => p.id@ == id@ && exists|i: int|
                    0 <= i < self.profiles().len() && #[trigger] self.profiles()[i] == p,
                None => !self.contains_pid(id@),
            },
    {
        match self.find_index(id) {
            Some(i) => {
                let p = duplicate_profile(&self.profiles[i]);
                Some(p)
            },
            None => None,
        }
    }

    /// The stored profiles, sorted by display name: the same profiles,
    /// in lexicographic name order.
    pub fn list_profiles(&self) -> (v: Vec<ConnectionProfile>)
        ensures
            v@.len() == self.profiles().len(),
            v@.to_multiset() == self.profiles().to_multiset(),
            forall|i: int, j: int| 0 <= i < j < v@.len() ==> chars_le(v@[i].name@, v@[j].name@),
    {
        let mut src: Vec<ConnectionProfile> = Vec::new();
        let n = self.profiles.len();
        let mut i: usize = 0;
        while i < n
            invariant
                n == self.profiles().len(),
                i <= n,
                src@ == self.profiles().take(i as int),
            decreases n - i,
        {
            let c = duplicate_profile(&self.profiles[i]);
            assert(c == self.profiles()[i as int]);
            src.push(c);
            proof {
                assert(self.profiles().take(i + 1 as int) =~= self.profiles().take(
                    i as int,
                ).push(self.profiles()[i as int]));
            }
            i = i + 1;
        }
        proof {
            assert(self.profiles().take(n as int) =~= self.profiles());
        }
        let mut out: Vec<ConnectionProfile> = Vec::new();
        proof {
            broadcast use group_seq_lib_default;

            out@.to_multiset_ensures();
            src@.to_multiset_ensures();
            assert(out@.to_multiset().len() == 0);
            assert(out@.to_multiset() =~= Multiset::<ConnectionProfile>::empty());
            assert(out@.to_multiset().add(src@.to_multiset()) =~= self.profiles().to_multiset());
        }
        while src.len() > 0
            invariant
                out@.to_multiset().add(src@.to_multiset()) == self.profiles().to_multiset(),
                out@.len() + src@.len() == self.profiles().len(),
                forall|a: int, b: int|
                    0 <= a < b < out@.len() ==> chars_le(out@[a].name@, out@[b].name@),
                forall|a: int, b: int|
                    #![trigger out@[a], src@[b]]
                    0 <= a < out@.len() && 0 <= b < src@.len() ==> chars_le(
                        out@[a].name@,
                        src@[b].name@,
                    ),
            decreases src@.len(),
        {
            let m = src.len();
            let mut best: usize = 0;
            let mut k: usize = 1;
            proof {
                lemma_chars_le_refl(src@[0].name@);
            }
            while k < m
                invariant
                    m == src@.len(),
                    best < m,
                    k <= m,
                    forall|a: int| 0 <= a < k ==> chars_le(src@[best as int].name@, #[trigger] src@[a].name@),
                decreases m - k,
            {
                if !str_le(src[best].name.as_str(), src[k].name.as_str()) {
                    proof {
                        lemma_chars_le_total(src@[best as int].name@, src@[k as int].name@);
                        assert forall|a: int| 0 <= a < k + 1 implies chars_le(
                            src@[k as int].name@,
                            #[trigger] src@[a].name@,
                        ) by {
                            if a < k {
                                lemma_chars_le_trans(
                                    src@[k as int].name@,
                                    src@[best as int].name@,
                                    src@[a].name@,
                                );
                            } else {
                                lemma_chars_le_refl(src@[k as int].name@);
                            }
                        }
                    }
                    best = k;
                } else {
                    proof {
                        assert forall|a: int| 0 <= a < k + 1 implies chars_le(
                            src@[best as int].name@,
                            #[trigger] src@[a].name@,
                        ) by {}
                    }
                }
                k = k + 1;
            }
            let ghost pre_out = out@;
            let ghost pre_src = src@;
            let picked = duplicate_profile(&src[best]);
            assert(picked == pre_src[best as int]);
            out.push(picked);
            src.remove(best);
            proof {
                broadcast use group_seq_lib_default;

                pre_out.to_multiset_ensures();
                pre_src.to_multiset_ensures();
                assert(out@ == pre_out.push(pre_src[best as int]));
                assert(src@ == pre_src.remove(best as int));
                assert(out@.to_multiset() =~= pre_out.to_multiset().insert(
                    pre_src[best as int],
                ));
                assert(src@.to_multiset() =~= pre_src.to_multiset().remove(
                    pre_src[best as int],
                ));
                assert(pre_src.to_multiset().contains(pre_src[best as int]));
                assert(out@.to_multiset().add(src@.to_multiset()) =~= pre_out.to_multiset().add(
                    pre_src.to_multiset(),
                ));
                assert forall|a: int, b: int|
                    #![trigger out@[a], src@[b]]
                    0 <= a < out@.len() && 0 <= b < src@.len() implies chars_le(
                    out@[a].name@,
                    src@[b].name@,
                ) by {
                    let orig = if b < best { b } else { b + 1 };
                    assert(src@[b] == pre_src[orig]);
                    if a < pre_out.len() {
                        assert(chars_le(pre_out[a].name@, pre_src[orig].name@));
                    } else {
                        assert(out@[a] == pre_src[best as int]);
                        assert(chars_le(pre_src[best as int].name@, pre_src[orig].name@));
                    }
                }
                assert forall|a: int, b: int|
                    0 <= a < b < out@.len() implies chars_le(out@[a].name@, out@[b].name@) by {
                    if b < pre_out.len() {
                    } else {
                        assert(out@[b] == pre_src[best as int]);
                        assert(chars_le(pre_out[a].name@, pre_src[best as int].name@));
                    }
                }
            }
        }
        proof {
            src@.to_multiset_ensures();
            assert(src@.to_multiset() =~= Multiset::<ConnectionProfile>::empty());
            assert(out@.to_multiset().add(Multiset::<ConnectionProfile>::empty())
                =~= out@.to_multiset());
        }
        out
    }
}

} // verus!
