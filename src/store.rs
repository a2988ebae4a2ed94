use vstd::prelude::*;

use crate::text::{parse_u32, parse_u32_spec, trim, trimmed};

verus! {

/// A saved host profile.
pub struct Connection {
    pub name: String,
    pub host: String,
    pub port: u32,
    pub username: String,
    pub password: Option<String>,
    pub key_path: Option<String>,
}

/// The mathematical value of a [`Connection`].
pub struct ConnectionView {
    pub name: Seq<char>,
    pub host: Seq<char>,
    pub port: u32,
    pub username: Seq<char>,
    pub password: Option<Seq<char>>,
    pub key_path: Option<Seq<char>>,
}

pub open spec fn opt_view(o: Option<String>) -> Option<Seq<char>> {
    match o {
        Some(s) => Some(s@),
        None => None,
    }
}

impl View for Connection {
    type V = ConnectionView;

    open spec fn view(&self) -> ConnectionView {
        ConnectionView {
            name: self.name@,
            host: self.host@,
            port: self.port,
            username: self.username@,
            password: opt_view(self.password),
            key_path: opt_view(self.key_path),
        }
    }
}

/// The first profile of `s` named `name`, if any.
pub open spec fn first_named(s: Seq<ConnectionView>, name: Seq<char>) -> Option<ConnectionView>
    decreases s.len(),
{
    if s.len() == 0 {
        None
    } else if s[0].name == name {
        Some(s[0])
    } else {
        first_named(s.drop_first(), name)
    }
}

/// The text lines that list a sequence of profiles: for each, its name, then its host.
pub open spec fn listing(s: Seq<ConnectionView>) -> Seq<Seq<char>>
    decreases s.len(),
{
    if s.len() == 0 {
        Seq::empty()
    } else {
        listing(s.drop_last()).push("Name:"@ + s.last().name).push("Host:"@ + s.last().host)
    }
}

/// Why typed-in profile fields were refused.
pub enum InputError {
    /// The port is not an unsigned 32-bit decimal number.
    InvalidPort,
}

/// The profile that the typed-in lines describe, each trimmed of surrounding
/// white space, with no password and the given key path; `None` when the port
/// line does not hold a number.
pub open spec fn entered_profile(
    name: Seq<char>,
    host: Seq<char>,
    port: Seq<char>,
    username: Seq<char>,
    key_path: Seq<char>,
) -> Option<ConnectionView> {
    match parse_u32_spec(trimmed(port)) {
        Some(p) => Some(
            ConnectionView {
                name: trimmed(name),
                host: trimmed(host),
                port: p,
                username: trimmed(username),
                password: None,
                key_path: Some(trimmed(key_path)),
            },
        ),
        None => None,
    }
}

/// The saved profiles, in the order in which they were added.
pub struct Store {
    pub connections: Vec<Connection>,
}

impl View for Store {
    type V = Seq<ConnectionView>;

    open spec fn view(&self) -> Seq<ConnectionView> {
        self.connections@.map_values(|c: Connection| c@)
    }
}

/// Lookup by name yields the earliest profile of that name, whatever later
/// profiles share it, and nothing when no profile (or none at all) has it.
pub proof fn lemma_first_named_at(s: Seq<ConnectionView>, name: Seq<char>, i: int)
    requires
        0 <= i <= s.len(),
        forall|j: int| 0 <= j < i ==> (#[trigger] s[j]).name != name,
    ensures
        i < s.len() && s[i].name == name ==> first_named(s, name) == Some(s[i]),
        i == s.len() ==> first_named(s, name) is None,
    decreases i,
{
    if i > 0 {
        let t = s.drop_first();
        assert forall|j: int| 0 <= j < i - 1 implies (#[trigger] t[j]).name != name by {
            assert(t[j] == s[j + 1]);
        }
        lemma_first_named_at(t, name, i - 1);
        assert(s[0].name != name);
        if i < s.len() {
            assert(t[i - 1] == s[i]);
        }
    }
}

impl Store {
    /// A store with no profiles.
    pub fn new() -> (r: Store)
        ensures
            r@ == Seq::<ConnectionView>::empty(),
    {
        let r = Store { connections: Vec::new() };
        assert(r@ =~= Seq::<ConnectionView>::empty());
        r
    }

    /// A store that holds `connections`, in that order.
    pub fn from_connections(connections: Vec<Connection>) -> (r: Store)
        ensures
            r.connections@ == connections@,
    {
        Store { connections }
    }

    pub fn len(&self) -> (r: usize)
        ensures
            r == self@.len(),
    {
        self.connections.len()
    }

    /// Adds `c` at the end; an existing profile of the same name stays as it is.
    pub fn append(&mut self, c: Connection)
        ensures
            final(self)@ == old(self)@.push(c@),
            final(self)@.last() == c@,
    {
        self.connections.push(c);
        assert(final(self)@ =~= old(self)@.push(c@));
    }

    /// Adds the profile that the typed-in lines describe, as
    /// [`entered_profile`] says; leaves the store as it is when the port is
    /// not a number.
    pub fn add_connection(
        &mut self,
        name: &str,
        host: &str,
        port: &str,
        username: &str,
        key_path: &str,
    ) -> (r: Result<(), InputError>)
        ensures
            match entered_profile(name@, host@, port@, username@, key_path@) {
                Some(c) => r is Ok && final(self)@ == old(self)@.push(c),
                None => r is Err && final(self)@ == old(self)@,
            },
    {
        let port = match parse_u32(trim(port)) {
            Some(p) => p,
            None => return Err(InputError::InvalidPort),
        };
        let c = Connection {
            name: String::from_str(trim(name)),
            host: String::from_str(trim(host)),
            port,
            username: String::from_str(trim(username)),
            password: None,
            key_path: Some(String::from_str(trim(key_path))),
        };
        self.append(c);
        Ok(())
    }

    /// The first profile named `name`, or `None` when no profile has that name.
    pub fn find_by_name(&self, name: &str) -> (r: Option<&Connection>)
        ensures
            match r {
                Some(c) => first_named(self@, name@) == Some(c@),
                None => first_named(self@, name@) is None,
            },
    {
        let key = String::from_str(name);
        let mut i: usize = 0;
        while i < self.connections.len()
            invariant
                i <= self@.len(),
                key@ == name@,
                forall|j: int| 0 <= j < i ==> (#[trigger] self@[j]).name != name@,
            decreases self@.len() - i,
        {
            let c = &self.connections[i];
            if c.name == key {
                proof {
                    lemma_first_named_at(self@, name@, i as int);
                }
                return Some(c);
            }
            i = i + 1;
        }
        proof {
            lemma_first_named_at(self@, name@, i as int);
        }
        None
    }

    /// The lines that list every profile: `Name:<name>`, then `Host:<host>`.
    pub fn list_lines(&self) -> (r: Vec<String>)
        ensures
            r@.map_values(|l: String| l@) == listing(self@),
    {
        let mut r: Vec<String> = Vec::new();
        let mut i: usize = 0;
        while i < self.connections.len()
            invariant
                i <= self@.len(),
                r@.map_values(|l: String| l@) == listing(self@.subrange(0, i as int)),
            decreases self@.len() - i,
        {
            let c = &self.connections[i];
            let mut name_line = String::from_str("Name:");
            name_line.append(c.name.as_str());
            let mut host_line = String::from_str("Host:");
            host_line.append(c.host.as_str());
            let ghost before = r@;
            r.push(name_line);
            r.push(host_line);
            proof {
                let p = self@.subrange(0, i + 1);
                assert(p.drop_last() =~= self@.subrange(0, i as int));
                assert(r@.map_values(|l: String| l@) =~= before.map_values(|l: String| l@).push(
                    "Name:"@ + p.last().name,
                ).push("Host:"@ + p.last().host));
            }
            i = i + 1;
        }
        assert(self@.subrange(0, i as int) =~= self@);
        r
    }
}

} // verus!
