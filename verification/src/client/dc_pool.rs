//! The table of datacenters: addresses, keys, and which of them have a
//! connection.

use vstd::prelude::*;
use std::collections::{HashMap, HashSet};
use vstd::string::StringSliceAdditionalSpecFns;
use vstd::utf8::encode_utf8;
use crate::client::api::enums;
use crate::client::session::{
    entries_view, lenient_text, spec_lenient_text, DcEntry, DcEntryView, PersistedSession,
};
use crate::text::{decimal_string, spec_decimal_text, str_copy};
use crate::tl::wire::push_all;

verus! {

broadcast use vstd::std_specs::hash::group_hash_axioms;

/// The home datacenter of a client that has none yet.
pub const DEFAULT_HOME_DC: i32 = 2;

/// The addresses to start from, by datacenter.
pub open spec fn spec_default_dc_addresses() -> Map<i32, Seq<char>> {
    map![
        1i32 => "149.154.175.53:443"@,
        2i32 => "149.154.167.51:443"@,
        3i32 => "149.154.175.100:443"@,
        4i32 => "149.154.167.91:443"@,
        5i32 => "91.108.56.130:443"@,
    ]
}

/// The texts of a map of strings.
pub open spec fn text_map(m: Map<i32, String>) -> Map<i32, Seq<char>> {
    Map::new(|k: i32| m.contains_key(k), |k: i32| m[k]@)
}

/// The addresses to start from, for when the server's configuration cannot
/// be had.
pub fn default_dc_addresses() -> (m: HashMap<i32, String>)
    ensures
        text_map(m@) == spec_default_dc_addresses(),
{
    let mut m: HashMap<i32, String> = HashMap::new();
    m.insert(1, str_copy("149.154.175.53:443"));
    m.insert(2, str_copy("149.154.167.51:443"));
    m.insert(3, str_copy("149.154.175.100:443"));
    m.insert(4, str_copy("149.154.167.91:443"));
    m.insert(5, str_copy("91.108.56.130:443"));
    assert(text_map(m@) =~= spec_default_dc_addresses());
    m
}

/// The first place in `entries` that holds the datacenter `dc_id`.
pub open spec fn position_of(entries: Seq<DcEntryView>, dc_id: i32) -> Option<int>
    decreases entries.len(),
{
    if entries.len() == 0 {
        None
    } else {
        match position_of(entries.drop_last(), dc_id) {
            Some(i) => Some(i),
            None => if entries.last().dc_id == dc_id {
                Some(entries.len() - 1)
            } else {
                None
            },
        }
    }
}

/// The entry of the datacenter `dc_id`.
pub open spec fn lookup(entries: Seq<DcEntryView>, dc_id: i32) -> Option<DcEntryView> {
    match position_of(entries, dc_id) {
        Some(i) => Some(entries[i]),
        None => None,
    }
}

/// The table with the address `addr` for the datacenter `dc_id`: its entry
/// gets the address, and where it has none it gets a new entry without a
/// key.
pub open spec fn with_address(entries: Seq<DcEntryView>, dc_id: i32, addr: Seq<char>) -> Seq<
    DcEntryView,
> {
    match position_of(entries, dc_id) {
        Some(i) => entries.update(i, DcEntryView { addr, ..entries[i] }),
        None => entries.push(
            DcEntryView { dc_id, addr, auth_key: None, first_salt: 0, time_offset: 0 },
        ),
    }
}

/// The table with the session of a connection to `dc_id` noted in its
/// entry; unchanged where it has no entry.
pub open spec fn with_session(
    entries: Seq<DcEntryView>,
    dc_id: i32,
    auth_key: Seq<u8>,
    first_salt: i64,
    time_offset: i32,
) -> Seq<DcEntryView> {
    match position_of(entries, dc_id) {
        Some(i) => entries.update(
            i,
            DcEntryView { auth_key: Some(auth_key), first_salt, time_offset, ..entries[i] },
        ),
        None => entries,
    }
}

/// An address that the client may use: not for media only, not of a
/// content network, not for obfuscated connections only, and of version 6
/// only where that is allowed.
pub open spec fn usable(o: crate::client::api::types::DcOption, allow_ipv6: bool) -> bool {
    !o.media_only && !o.cdn && !o.tcpo_only && (!o.ipv6 || allow_ipv6)
}

/// The address of an option: host, a colon, port.
pub open spec fn spec_address(o: crate::client::api::types::DcOption) -> Seq<char> {
    o.ip_address@ + seq![':'] + spec_decimal_text(o.port as int)
}

/// The table after the options `options` of the server's configuration
/// have been taken in, in order: each usable option sets the address of its
/// datacenter.
pub open spec fn with_config(entries: Seq<DcEntryView>, options: Seq<enums::DcOption>, allow_ipv6: bool) -> Seq<
    DcEntryView,
>
    decreases options.len(),
{
    if options.len() == 0 {
        entries
    } else {
        let before = with_config(entries, options.drop_last(), allow_ipv6);
        let enums::DcOption::DcOption(o) = options.last();
        if usable(o, allow_ipv6) {
            with_address(before, o.id, spec_address(o))
        } else {
            before
        }
    }
}

/// How to get a connection to a datacenter.
#[derive(Debug, PartialEq, Eq)]
pub enum ConnectPlan {
    /// There is one already.
    Reuse,
    /// Connect to `addr` and go on with the stored key; no key exchange.
    WithKey { addr: String, auth_key: [u8; 256], first_salt: i64, time_offset: i32 },
    /// Connect to `addr` and run the key exchange. Where `import_auth`
    /// says so, the authorization must then be exported from the home
    /// datacenter and imported on the new connection.
    Fresh { addr: String, import_auth: bool },
    /// No address is known for the datacenter.
    UnknownDc,
}

/// The datacenters that the client knows, and those it is connected to.
#[derive(Debug)]
pub struct DcPool {
    home_dc_id: i32,
    entries: Vec<DcEntry>,
    connected: HashSet<i32>,
}

impl DcPool {
    /// The home datacenter.
    pub closed spec fn home(self) -> i32 {
        self.home_dc_id
    }

    /// The table.
    pub closed spec fn table(self) -> Seq<DcEntryView> {
        entries_view(self.entries@)
    }

    /// The datacenters with a connection.
    pub closed spec fn connected(self) -> Set<i32> {
        self.connected@
    }

    /// A pool with the table `dc_entries` and no connections.
    pub fn new(home_dc_id: i32, dc_entries: &[DcEntry]) -> (p: Self)
        ensures
            p.home() == home_dc_id,
            p.table() == entries_view(dc_entries@),
            p.connected() == Set::<i32>::empty(),
    {
        let mut entries: Vec<DcEntry> = Vec::new();
        let mut i: usize = 0;
        while i < dc_entries.len()
            invariant
                i <= dc_entries@.len(),
                entries@.len() == i,
                forall|k: int| 0 <= k < i ==> entries@[k]@ == dc_entries@[k]@,
            decreases dc_entries@.len() - i,
        {
            entries.push(dc_entries[i].clone());
            i += 1;
        }
        assert(entries_view(entries@) =~= entries_view(dc_entries@));
        DcPool { home_dc_id, entries, connected: HashSet::new() }
    }

    /// Where the datacenter `dc_id` stands in the table.
    fn find(&self, dc_id: i32) -> (r: Option<usize>)
        ensures
            match position_of(self.table(), dc_id) {
                Some(i) => r is Some && r->Some_0 == i && 0 <= i < self.entries@.len()
                    && self.entries@[i].dc_id == dc_id,
                None => r is None,
            },
    {
        let mut i: usize = 0;
        let ghost all = entries_view(self.entries@);
        assert(all.take(0) =~= Seq::<DcEntryView>::empty());
        while i < self.entries.len()
            invariant
                i <= self.entries@.len(),
                all == entries_view(self.entries@),
                position_of(all.take(i as int), dc_id) is None,
            decreases self.entries@.len() - i,
        {
            proof {
                assert(all.take(i as int + 1).drop_last() =~= all.take(i as int));
                assert(all.take(i as int + 1).last() == self.entries@[i as int]@);
            }
            if self.entries[i].dc_id == dc_id {
                proof {
                    lemma_position_prefix(all, i as int + 1, dc_id);
                }
                return Some(i);
            }
            i += 1;
        }
        assert(all.take(self.entries@.len() as int) =~= all);
        None
    }

    /// Whether there is a connection to `dc_id`.
    pub fn has_connection(&self, dc_id: i32) -> (r: bool)
        ensures
            r == self.connected().contains(dc_id),
    {
        self.connected.contains(&dc_id)
    }

    /// Takes note of a connection to `dc_id` and of its session.
    pub fn insert(&mut self, dc_id: i32, auth_key: [u8; 256], first_salt: i64, time_offset: i32)
        ensures
            final(self).home() == old(self).home(),
            final(self).table() == with_session(
                old(self).table(),
                dc_id,
                auth_key@,
                first_salt,
                time_offset,
            ),
            final(self).connected() == old(self).connected().insert(dc_id),
    {
        self.connected.insert(dc_id);
        match self.find(dc_id) {
            Some(i) => {
                let ghost before = self.entries@[i as int]@;
                let mut e = self.entries.remove(i);
                e.auth_key = Some(auth_key);
                e.first_salt = first_salt;
                e.time_offset = time_offset;
                self.entries.insert(i, e);
                assert(entries_view(self.entries@) =~= old(self).table().update(
                    i as int,
                    DcEntryView {
                        auth_key: Some(auth_key@),
                        first_salt,
                        time_offset,
                        ..before
                    },
                ));
            },
            None => {},
        }
    }

    /// Sets the address of `dc_id`.
    pub fn set_address(&mut self, dc_id: i32, addr: String)
        ensures
            final(self).home() == old(self).home(),
            final(self).connected() == old(self).connected(),
            final(self).table() == with_address(old(self).table(), dc_id, addr@),
    {
        match self.find(dc_id) {
            Some(i) => {
                let ghost before = self.entries@[i as int]@;
                let mut e = self.entries.remove(i);
                e.addr = addr;
                self.entries.insert(i, e);
                assert(entries_view(self.entries@) =~= old(self).table().update(
                    i as int,
                    DcEntryView { addr: addr@, ..before },
                ));
            },
            None => {
                self.entries.push(
                    DcEntry { dc_id, addr, auth_key: None, first_salt: 0, time_offset: 0 },
                );
                assert(entries_view(self.entries@) =~= old(self).table().push(
                    DcEntryView {
                        dc_id,
                        addr: addr@,
                        auth_key: None,
                        first_salt: 0,
                        time_offset: 0,
                    },
                ));
            },
        }
    }

    /// Takes the addresses of `entries` into the table.
    pub fn update_addrs(&mut self, entries: &[DcEntry])
        ensures
            final(self).home() == old(self).home(),
            final(self).connected() == old(self).connected(),
            final(self).table() == with_addresses(old(self).table(), entries_view(entries@)),
    {
        let ghost all = entries_view(entries@);
        let mut i: usize = 0;
        assert(all.take(0) =~= Seq::<DcEntryView>::empty());
        while i < entries.len()
            invariant
                i <= entries@.len(),
                all == entries_view(entries@),
                self.home() == old(self).home(),
                self.connected() == old(self).connected(),
                self.table() == with_addresses(old(self).table(), all.take(i as int)),
            decreases entries@.len() - i,
        {
            proof {
                assert(all.take(i as int + 1).drop_last() =~= all.take(i as int));
                assert(all.take(i as int + 1).last() == entries@[i as int]@);
            }
            self.set_address(entries[i].dc_id, str_copy(entries[i].addr.as_str()));
            i += 1;
        }
        assert(all.take(entries@.len() as int) =~= all);
    }

    /// Takes the usable options of the server's configuration into the
    /// table.
    pub fn apply_config(&mut self, options: &[enums::DcOption], allow_ipv6: bool)
        ensures
            final(self).home() == old(self).home(),
            final(self).connected() == old(self).connected(),
            final(self).table() == with_config(old(self).table(), options@, allow_ipv6),
    {
        let mut i: usize = 0;
        assert(options@.take(0) =~= Seq::<enums::DcOption>::empty());
        while i < options.len()
            invariant
                i <= options@.len(),
                self.home() == old(self).home(),
                self.connected() == old(self).connected(),
                self.table() == with_config(old(self).table(), options@.take(i as int), allow_ipv6),
            decreases options@.len() - i,
        {
            proof {
                assert(options@.take(i as int + 1).drop_last() =~= options@.take(i as int));
                assert(options@.take(i as int + 1).last() == options@[i as int]);
            }
            match &options[i] {
                enums::DcOption::DcOption(o) => {
                    if !o.media_only && !o.cdn && !o.tcpo_only && (!o.ipv6 || allow_ipv6) {
                        let mut addr = str_copy(o.ip_address.as_str());
                        proof {
                            reveal_strlit(":");
                            assert(":"@ =~= seq![':']);
                        }
                        addr.append(":");
                        addr.append(decimal_string(o.port as i64).as_str());
                        self.set_address(o.id, addr);
                    }
                },
            }
            i += 1;
        }
        assert(options@.take(options@.len() as int) =~= options@);
    }

    /// Makes `dc_id` the home datacenter.
    pub fn set_home(&mut self, dc_id: i32)
        ensures
            final(self).home() == dc_id,
            final(self).table() == old(self).table(),
            final(self).connected() == old(self).connected(),
    {
        self.home_dc_id = dc_id;
    }

    /// The home datacenter.
    pub fn home_dc_id(&self) -> (dc: i32)
        ensures
            dc == self.home(),
    {
        self.home_dc_id
    }

    /// How to get a connection to `dc_id`: reuse the one there is; else go
    /// on with the stored key where there is one; else run the key exchange,
    /// and bring the authorization over where the datacenter is not the home
    /// one.
    pub fn plan_connection(&self, dc_id: i32) -> (plan: ConnectPlan)
        ensures
            self.connected().contains(dc_id) ==> plan == ConnectPlan::Reuse,
            !self.connected().contains(dc_id) ==> match lookup(self.table(), dc_id) {
                None => plan == ConnectPlan::UnknownDc,
                Some(e) => match e.auth_key {
                    Some(k) => plan is WithKey && plan->WithKey_addr@ == e.addr
                        && plan->WithKey_auth_key@ == k && plan->WithKey_first_salt == e.first_salt
                        && plan->WithKey_time_offset == e.time_offset,
                    None => plan is Fresh && plan->Fresh_addr@ == e.addr && plan->Fresh_import_auth
                        == (dc_id != self.home()),
                },
            },
    {
        if self.has_connection(dc_id) {
            return ConnectPlan::Reuse;
        }
        match self.find(dc_id) {
            None => ConnectPlan::UnknownDc,
            Some(i) => {
                let e = &self.entries[i];
                match e.auth_key {
                    Some(k) => ConnectPlan::WithKey {
                        addr: str_copy(e.addr.as_str()),
                        auth_key: k,
                        first_salt: e.first_salt,
                        time_offset: e.time_offset,
                    },
                    None => ConnectPlan::Fresh {
                        addr: str_copy(e.addr.as_str()),
                        import_auth: dc_id != self.home_dc_id,
                    },
                }
            },
        }
    }

    /// Writes the sessions of the connected datacenters into `entries`:
    /// every entry of a connected datacenter that the table knows gets the
    /// table's key, salt and time offset.
    pub fn collect_keys(&self, entries: &mut Vec<DcEntry>)
        ensures
            final(entries)@.len() == old(entries)@.len(),
            forall|k: int|
                0 <= k < old(entries)@.len() ==> #[trigger] final(entries)@[k]@ == self.collected(
                    old(entries)@[k]@,
                ),
    {
        let n = entries.len();
        let mut i: usize = 0;
        while i < n
            invariant
                i <= n,
                n == entries@.len(),
                n == old(entries)@.len(),
                forall|k: int| i <= k < n ==> entries@[k] == old(entries)@[k],
                forall|k: int|
                    0 <= k < i ==> #[trigger] entries@[k]@ == self.collected(old(entries)@[k]@),
            decreases n - i,
        {
            let dc_id = entries[i].dc_id;
            if self.has_connection(dc_id) {
                match self.find(dc_id) {
                    Some(j) => {
                        let mut e = entries.remove(i);
                        e.auth_key = self.entries[j].auth_key;
                        e.first_salt = self.entries[j].first_salt;
                        e.time_offset = self.entries[j].time_offset;
                        entries.insert(i, e);
                    },
                    None => {},
                }
            }
            i += 1;
        }
    }

    /// The entry `e` with the session that the pool holds for its
    /// datacenter, where that is connected and known.
    pub closed spec fn collected(self, e: DcEntryView) -> DcEntryView {
        if self.connected@.contains(e.dc_id) {
            match lookup(self.table(), e.dc_id) {
                Some(own) => DcEntryView {
                    auth_key: own.auth_key,
                    first_salt: own.first_salt,
                    time_offset: own.time_offset,
                    ..e
                },
                None => e,
            }
        } else {
            e
        }
    }

    /// The pool as a session to store.
    pub fn to_session(&self) -> (s: PersistedSession)
        ensures
            s.home_dc_id == self.home(),
            entries_view(s.dcs@) == self.table(),
    {
        let mut dcs: Vec<DcEntry> = Vec::new();
        let mut i: usize = 0;
        while i < self.entries.len()
            invariant
                i <= self.entries@.len(),
                dcs@.len() == i,
                forall|k: int| 0 <= k < i ==> dcs@[k]@ == self.entries@[k]@,
            decreases self.entries@.len() - i,
        {
            dcs.push(self.entries[i].clone());
            i += 1;
        }
        assert(entries_view(dcs@) =~= entries_view(self.entries@));
        PersistedSession { home_dc_id: self.home_dc_id, dcs }
    }
}

/// The table with the addresses of `entries` taken in, in order.
pub open spec fn with_addresses(table: Seq<DcEntryView>, entries: Seq<DcEntryView>) -> Seq<
    DcEntryView,
>
    decreases entries.len(),
{
    if entries.len() == 0 {
        table
    } else {
        with_address(
            with_addresses(table, entries.drop_last()),
            entries.last().dc_id,
            entries.last().addr,
        )
    }
}

/// Where the first `n` entries do not hold `dc_id` before their last one,
/// which does, the last one is its place in the whole table.
pub proof fn lemma_position_prefix(entries: Seq<DcEntryView>, n: int, dc_id: i32)
    requires
        1 <= n <= entries.len(),
        position_of(entries.take(n - 1), dc_id) is None,
        entries[n - 1].dc_id == dc_id,
    ensures
        position_of(entries, dc_id) == Some(n - 1),
    decreases entries.len() - n,
{
    let prefix = entries.take(n);
    assert(prefix.drop_last() =~= entries.take(n - 1));
    assert(prefix.last() == entries[n - 1]);
    assert(position_of(prefix, dc_id) == Some(n - 1));
    lemma_position_extends(entries, n, dc_id);
}

/// A place found in a prefix is the place in the whole table.
pub proof fn lemma_position_extends(entries: Seq<DcEntryView>, n: int, dc_id: i32)
    requires
        0 <= n <= entries.len(),
        position_of(entries.take(n), dc_id) is Some,
    ensures
        position_of(entries, dc_id) == position_of(entries.take(n), dc_id),
    decreases entries.len() - n,
{
    if n == entries.len() {
        assert(entries.take(n) =~= entries);
    } else {
        let next = entries.take(n + 1);
        assert(next.drop_last() =~= entries.take(n));
        lemma_position_extends(entries, n + 1, dc_id);
    }
}

} // verus!
