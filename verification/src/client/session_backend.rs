//! Where a session is kept between runs.

use vstd::prelude::*;
use crate::client::session::{entries_view, DcEntryView, PersistedSession};
use crate::text::str_copy;

verus! {

/// A place that keeps a session. The text of an error says what the place
/// could not do.
pub trait SessionBackend {
    /// Keeps `session`, in place of what was kept before.
    fn save(&mut self, session: &PersistedSession) -> Result<(), String>;

    /// The session that is kept, if any.
    fn load(&self) -> Result<Option<PersistedSession>, String>;

    /// Forgets the session.
    fn delete(&mut self) -> Result<(), String>;

    /// The name of the place, for messages.
    fn name(&self) -> &str;
}

/// The file that holds a session in its stored form. Reading and writing
/// the file is left to the program; this type names the file and has the
/// stored form.
#[derive(Debug)]
pub struct BinaryFileBackend {
    path: String,
}

impl BinaryFileBackend {
    /// The path of the file.
    pub closed spec fn spec_path(self) -> Seq<char> {
        self.path@
    }

    /// The backend for the file at `path`.
    pub fn new(path: &str) -> (b: Self)
        ensures
            b.spec_path() == path@,
    {
        Self { path: str_copy(path) }
    }

    /// The path of the file.
    pub fn path(&self) -> (p: &str)
        ensures
            p@ == self.spec_path(),
    {
        self.path.as_str()
    }

    /// The bytes to write for `session`.
    pub fn encode(&self, session: &PersistedSession) -> (b: Vec<u8>)
        ensures
            b@ == crate::client::session::spec_encode_session(
                session.home_dc_id,
                entries_view(session.dcs@),
            ),
    {
        session.to_bytes()
    }

    /// The session that the bytes of the file hold.
    pub fn decode(&self, bytes: &[u8]) -> (r: Option<PersistedSession>)
        ensures
            match crate::client::session::spec_decode_session(bytes@) {
                Some((home, dcs)) => r is Some && r->Some_0.home_dc_id == home && entries_view(
                    r->Some_0.dcs@,
                ) == dcs,
                None => r is None,
            },
    {
        PersistedSession::from_bytes(bytes)
    }

    /// The name of the backend.
    pub fn name(&self) -> (n: &'static str)
        ensures
            n@ == "binary-file"@,
    {
        "binary-file"
    }
}

/// A backend that keeps the session in memory, for tests and for bots that
/// start afresh each time.
#[derive(Debug)]
pub struct InMemoryBackend {
    data: Option<PersistedSession>,
}

impl InMemoryBackend {
    /// What is kept: the home datacenter and the table.
    pub closed spec fn kept(self) -> Option<(i32, Seq<DcEntryView>)> {
        match self.data {
            Some(s) => Some((s.home_dc_id, entries_view(s.dcs@))),
            None => None,
        }
    }

    /// A backend that keeps nothing yet.
    pub fn new() -> (b: Self)
        ensures
            b.kept() is None,
    {
        Self { data: None }
    }

    /// Keeps a copy of `session`.
    pub fn store(&mut self, session: &PersistedSession)
        ensures
            final(self).kept() == Some((session.home_dc_id, entries_view(session.dcs@))),
    {
        self.data = Some(session.duplicate());
    }

    /// A copy of what is kept.
    pub fn fetch(&self) -> (r: Option<PersistedSession>)
        ensures
            match self.kept() {
                Some((home, dcs)) => r is Some && r->Some_0.home_dc_id == home && entries_view(
                    r->Some_0.dcs@,
                ) == dcs,
                None => r is None,
            },
    {
        match &self.data {
            Some(s) => Some(s.duplicate()),
            None => None,
        }
    }

    /// Forgets what is kept.
    pub fn clear(&mut self)
        ensures
            final(self).kept() is None,
    {
        self.data = None;
    }
}

impl Default for InMemoryBackend {
    fn default() -> (b: Self)
        ensures
            b.kept() is None,
    {
        Self::new()
    }
}

impl SessionBackend for InMemoryBackend {
    /// Keeps a copy of `session`; that never fails.
    fn save(&mut self, session: &PersistedSession) -> (r: Result<(), String>)
        ensures
            r is Ok,
            final(self).kept() == Some((session.home_dc_id, entries_view(session.dcs@))),
    {
        self.store(session);
        Ok(())
    }

    /// A copy of what is kept; that never fails.
    fn load(&self) -> (r: Result<Option<PersistedSession>, String>)
        ensures
            r is Ok,
            match self.kept() {
                Some((home, dcs)) => r->Ok_0 is Some && r->Ok_0->Some_0.home_dc_id == home
                    && entries_view(r->Ok_0->Some_0.dcs@) == dcs,
                None => r->Ok_0 is None,
            },
    {
        Ok(self.fetch())
    }

    /// Forgets what is kept; that never fails.
    fn delete(&mut self) -> (r: Result<(), String>)
        ensures
            r is Ok,
            final(self).kept() is None,
    {
        self.clear();
        Ok(())
    }

    /// The name of the place.
    fn name(&self) -> (n: &str)
        ensures
            n@ == "in-memory"@,
    {
        "in-memory"
    }
}

} // verus!
