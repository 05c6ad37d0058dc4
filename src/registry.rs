use vstd::prelude::*;
use vstd::string::StringExecFns;

use crate::address::Address;
use crate::error::Error;
use crate::table::{Table, deep_map, lemma_deep_insert, lemma_deep_remove};

verus! {

/// A site's stored secrets: the wrapper key and the ajax key.
pub struct SiteStorage {
    pub wrapper_key: String,
    pub ajax_key: String,
}

/// The view of a site's storage: `(wrapper key, ajax key)`.
impl View for SiteStorage {
    type V = (Seq<char>, Seq<char>);

    open spec fn view(&self) -> (Seq<char>, Seq<char>) {
        (self.wrapper_key@, self.ajax_key@)
    }
}

impl SiteStorage {
    /// Storage with no keys set.
    pub fn empty() -> (r: Self)
        ensures
            r@ == (Seq::<char>::empty(), Seq::<char>::empty()),
    {
        SiteStorage { wrapper_key: String::new(), ajax_key: String::new() }
    }

    pub fn duplicate(&self) -> (r: Self)
        ensures
            r@ == self@,
    {
        SiteStorage { wrapper_key: self.wrapper_key.clone(), ajax_key: self.ajax_key.clone() }
    }
}

/// A site's declared database schema.
pub struct Schema {
    pub db_name: String,
    pub db_file: String,
}

impl View for Schema {
    type V = (Seq<char>, Seq<char>);

    open spec fn view(&self) -> (Seq<char>, Seq<char>) {
        (self.db_name@, self.db_file@)
    }
}

/// A site known to the registry: its address, its root directory and its storage.
pub struct Site {
    pub address: String,
    pub root: String,
    pub storage: SiteStorage,
}

pub struct SiteView {
    pub address: Seq<char>,
    pub root: Seq<char>,
    pub storage: (Seq<char>, Seq<char>),
}

impl View for Site {
    type V = SiteView;

    open spec fn view(&self) -> SiteView {
        SiteView { address: self.address@, root: self.root@, storage: self.storage@ }
    }
}

impl Site {
    pub fn duplicate(&self) -> (r: Self)
        ensures
            r@ == self@,
    {
        Site {
            address: self.address.clone(),
            root: self.root.clone(),
            storage: self.storage.duplicate(),
        }
    }
}

/// The handle of a site's concurrency domain: the registry hands out one per address.
#[derive(Debug, Clone, Copy, PartialEq, Eq, Structural)]
pub struct SiteHandle {
    pub id: u64,
}

impl View for SiteHandle {
    type V = u64;

    open spec fn view(&self) -> u64 {
        self.id
    }
}

/// The directory of the site at `address` under the data root.
pub open spec fn root_of(data_root: Seq<char>, address: Seq<char>) -> Seq<char> {
    data_root + seq!['/'] + address
}

/// The change counter after a mutation at time `now`: it never goes back.
pub open spec fn bump(changed: u64, now: u64) -> u64 {
    if now > changed {
        now
    } else {
        changed
    }
}

/// The registry's state as mathematical maps.
pub struct RegistryView {
    pub data_root: Seq<char>,
    /// Stored secrets of every site known at startup, by address.
    pub snapshot: Map<Seq<char>, (Seq<char>, Seq<char>)>,
    /// Registered sites, by address.
    pub sites: Map<Seq<char>, SiteView>,
    /// Handles of active sites, by address.
    pub handles: Map<Seq<char>, u64>,
    /// Address bound to each nonce.
    pub nonces: Map<Seq<char>, Seq<char>>,
    /// Address bound to each ajax key.
    pub ajax_keys: Map<Seq<char>, Seq<char>>,
    /// Schema records, by address; each stands for one open connection.
    pub schemas: Map<Seq<char>, (Seq<char>, Seq<char>)>,
    pub changed: u64,
    pub next_handle: u64,
}

/// The site registry: registered sites, active handles, nonce and ajax key bindings,
/// schema records and the change counter.
pub struct SitesController {
    pub data_root: String,
    pub snapshot: Table<SiteStorage>,
    pub sites: Table<Site>,
    pub sites_addr: Table<SiteHandle>,
    pub ajax_keys: Table<String>,
    pub nonce: Table<String>,
    pub schemas: Table<Schema>,
    pub sites_changed: u64,
    pub next_handle: u64,
}

impl View for SitesController {
    type V = RegistryView;

    open spec fn view(&self) -> RegistryView {
        RegistryView {
            data_root: self.data_root@,
            snapshot: deep_map(self.snapshot@),
            sites: deep_map(self.sites@),
            handles: deep_map(self.sites_addr@),
            nonces: deep_map(self.nonce@),
            ajax_keys: deep_map(self.ajax_keys@),
            schemas: deep_map(self.schemas@),
            changed: self.sites_changed,
            next_handle: self.next_handle,
        }
    }
}

/// The registry after `site` is added at time `now`.
pub open spec fn spec_add_site(v: RegistryView, site: SiteView, now: u64) -> RegistryView {
    RegistryView { sites: v.sites.insert(site.address, site), changed: bump(v.changed, now), ..v }
}

/// The registry after the site at `address` is removed at time `now`.
pub open spec fn spec_remove_site(v: RegistryView, address: Seq<char>, now: u64) -> RegistryView {
    RegistryView { sites: v.sites.remove(address), changed: bump(v.changed, now), ..v }
}

/// What resolving a nonce yields: the bound address and its handle, if both hops hit.
pub open spec fn spec_resolve(v: RegistryView, nonce: Seq<char>) -> Option<(Seq<char>, u64)> {
    if v.nonces.contains_key(nonce) && v.handles.contains_key(v.nonces[nonce]) {
        Some((v.nonces[nonce], v.handles[v.nonces[nonce]]))
    } else {
        None
    }
}

/// The site that activation starts for `address`: the registered one, else a fresh
/// site under the data root with no keys.
pub open spec fn spec_started_site(v: RegistryView, address: Seq<char>) -> SiteView {
    if v.sites.contains_key(address) {
        v.sites[address]
    } else {
        SiteView {
            address,
            root: root_of(v.data_root, address),
            storage: (Seq::<char>::empty(), Seq::<char>::empty()),
        }
    }
}

/// Activation of `address` at time `now`: the registry after it, and the handle
/// together with whether a new domain was started.
/// `present` is whether the manifest is on disk, `loaded` whether it loaded, and
/// `schema` the schema that the site declares.
pub open spec fn spec_get(
    v: RegistryView,
    address: Seq<char>,
    present: bool,
    loaded: bool,
    schema: Option<(Seq<char>, Seq<char>)>,
    now: u64,
) -> (RegistryView, Result<(u64, bool), Error>) {
    if !present {
        (v, Err(Error::ContentUnavailable))
    } else if v.handles.contains_key(address) {
        (v, Ok((v.handles[address], false)))
    } else if !loaded {
        (v, Err(Error::ContentLoadFailed))
    } else {
        let nonces = if v.snapshot.contains_key(address) && v.snapshot[address].0.len() > 0 {
            v.nonces.insert(v.snapshot[address].0, address)
        } else {
            v.nonces
        };
        let schemas = if schema is Some && !v.schemas.contains_key(address) {
            v.schemas.insert(address, schema->0)
        } else {
            v.schemas
        };
        (
            RegistryView {
                nonces,
                schemas,
                handles: v.handles.insert(address, v.next_handle),
                changed: bump(v.changed, now),
                next_handle: (v.next_handle + 1) as u64,
                ..v
            },
            Ok((v.next_handle, true)),
        )
    }
}

/// The outcome of activation: the address, its handle, the site to run in a newly
/// started domain, and whether a database connection must be opened for it.
pub struct Activation {
    pub address: Address,
    pub handle: SiteHandle,
    pub started: Option<Site>,
    pub open_db: bool,
}

/// What startup learned of one site from outside: its address and stored secrets,
/// whether its root directory exists and whether its content loaded.
pub struct BootEntry {
    pub address: String,
    pub storage: SiteStorage,
    pub root_exists: bool,
    pub content_loaded: bool,
}

pub struct BootEntryView {
    pub address: Seq<char>,
    pub storage: (Seq<char>, Seq<char>),
    pub root_exists: bool,
    pub content_loaded: bool,
}

impl View for BootEntry {
    type V = BootEntryView;

    open spec fn view(&self) -> BootEntryView {
        BootEntryView {
            address: self.address@,
            storage: self.storage@,
            root_exists: self.root_exists,
            content_loaded: self.content_loaded,
        }
    }
}

pub open spec fn boot_views(es: Seq<BootEntry>) -> Seq<BootEntryView> {
    es.map_values(|e: BootEntry| e@)
}

pub open spec fn site_views(ss: Seq<Site>) -> Seq<SiteView> {
    ss.map_values(|s: Site| s@)
}

/// Whether bootstrap registers the entry: its root exists and its content loaded.
pub open spec fn boot_registers(e: BootEntryView) -> bool {
    e.root_exists && e.content_loaded
}

/// The registry after bootstrap has processed one entry.
pub open spec fn spec_boot_one(v: RegistryView, e: BootEntryView) -> RegistryView {
    if boot_registers(e) {
        RegistryView {
            sites: v.sites.insert(
                e.address,
                SiteView { address: e.address, root: root_of(v.data_root, e.address), storage: e.storage },
            ),
            nonces: v.nonces.insert(e.storage.0, e.address),
            ajax_keys: v.ajax_keys.insert(e.storage.1, e.address),
            ..v
        }
    } else {
        v
    }
}

/// The registry after bootstrap has processed the entries in order, before the
/// change counter is bumped.
pub open spec fn spec_boot_all(v: RegistryView, es: Seq<BootEntryView>) -> RegistryView
    decreases es.len(),
{
    if es.len() == 0 {
        v
    } else {
        spec_boot_one(spec_boot_all(v, es.drop_last()), es.last())
    }
}

/// The registry after bootstrap over `es` at time `now`.
pub open spec fn spec_bootstrap(v: RegistryView, es: Seq<BootEntryView>, now: u64) -> RegistryView {
    RegistryView { changed: bump(v.changed, now), ..spec_boot_all(v, es) }
}

/// The sites after each of `sites` is registered in order.
pub open spec fn spec_extend(m: Map<Seq<char>, SiteView>, sites: Seq<SiteView>) -> Map<
    Seq<char>,
    SiteView,
>
    decreases sites.len(),
{
    if sites.len() == 0 {
        m
    } else {
        spec_extend(m, sites.drop_last()).insert(sites.last().address, sites.last())
    }
}

fn bump_counter(changed: u64, now: u64) -> (r: u64)
    ensures
        r == bump(changed, now),
{
    if now > changed {
        now
    } else {
        changed
    }
}

impl SitesController {
    /// A registry with no sites, over the data root and the startup snapshot of
    /// stored secrets.
    pub fn new(data_root: String, snapshot: Table<SiteStorage>, now: u64) -> (r: Self)
        ensures
            r@.data_root == data_root@,
            r@.snapshot == deep_map(snapshot@),
            r@.sites.is_empty(),
            r@.handles.is_empty(),
            r@.nonces.is_empty(),
            r@.ajax_keys.is_empty(),
            r@.schemas.is_empty(),
            r@.changed == now,
            r@.next_handle == 0,
    {
        let r = SitesController {
            data_root,
            snapshot,
            sites: Table::new(),
            sites_addr: Table::new(),
            ajax_keys: Table::new(),
            nonce: Table::new(),
            schemas: Table::new(),
            sites_changed: now,
            next_handle: 0,
        };
        assert(r@.sites =~= Map::empty());
        assert(r@.handles =~= Map::empty());
        assert(r@.nonces =~= Map::empty());
        assert(r@.ajax_keys =~= Map::empty());
        assert(r@.schemas =~= Map::empty());
        r
    }

    /// The directory of the site at `address`.
    pub fn site_root(&self, address: &str) -> (r: String)
        ensures
            r@ == root_of(self@.data_root, address@),
    {
        proof {
            reveal_strlit("/");
        }
        self.data_root.clone().concat("/").concat(address)
    }

    /// Registers `site`, replacing an earlier entry at its address.
    pub fn add_site(&mut self, site: Site, now: u64)
        ensures
            final(self)@ == spec_add_site(old(self)@, site@, now),
    {
        proof {
            lemma_deep_insert(self.sites@, site.address@, site);
        }
        let k = site.address.clone();
        self.sites.insert(k, site);
        self.sites_changed = bump_counter(self.sites_changed, now);
    }

    /// The registered site at `address`.
    pub fn get_site(&self, address: &str) -> (r: Option<&Site>)
        ensures
            r is Some <==> self@.sites.contains_key(address@),
            r matches Some(s) ==> s@ == self@.sites[address@],
    {
        self.sites.get(address)
    }

    /// The registered site at `address`, for change in place.
    pub fn get_site_mut(&mut self, address: &str) -> (r: Option<&mut Site>)
        ensures
            r is Some <==> old(self)@.sites.contains_key(address@),
            r matches Some(s) ==> s@ == old(self)@.sites[address@] && final(self)@ == (RegistryView {
                sites: old(self)@.sites.insert(address@, final(s)@),
                ..old(self)@
            }),
            r is None ==> final(self)@ == old(self)@,
    {
        proof {
            let m = self.sites@;
            assert forall|w: Site| #[trigger]
                deep_map(m.insert(address@, w)) == deep_map(m).insert(address@, w@) by {
                lemma_deep_insert(m, address@, w);
            }
        }
        self.sites.get_mut(address)
    }

    /// Removes the site at `address` from the registry; a running domain is left as it is.
    pub fn remove_site(&mut self, address: &str, now: u64)
        ensures
            final(self)@ == spec_remove_site(old(self)@, address@, now),
    {
        proof {
            lemma_deep_remove(self.sites@, address@);
        }
        self.sites.remove(address);
        self.sites_changed = bump_counter(self.sites_changed, now);
    }

    /// Binds `nonce` to `address`.
    pub fn add_wrapper_key(&mut self, address: &Address, nonce: String)
        ensures
            final(self)@ == (RegistryView {
                nonces: old(self)@.nonces.insert(nonce@, address@),
                ..old(self)@
            }),
    {
        proof {
            lemma_deep_insert(self.nonce@, nonce@, address.address);
        }
        self.nonce.insert(nonce, address.address.clone());
    }

    /// Activates `address`, or returns its handle when it is active already and its
    /// manifest is still on disk. A missing manifest is `ContentUnavailable`.
    /// `loaded` and `schema` are consulted only when a new domain is started.
    pub fn get(
        &mut self,
        address: &Address,
        present: bool,
        loaded: bool,
        schema: Option<Schema>,
        now: u64,
    ) -> (r: Result<Activation, Error>)
        requires
            old(self).next_handle < u64::MAX,
        ensures
            ({
                let sv = match schema {
                    Some(s) => Some(s@),
                    None => None,
                };
                let (v2, res) = spec_get(old(self)@, address@, present, loaded, sv, now);
                &&& final(self)@ == v2
                &&& r is Ok <==> res is Ok
                &&& r matches Err(e) ==> res == Err::<(u64, bool), Error>(e)
                &&& r matches Ok(act) ==> {
                    &&& res == Ok::<(u64, bool), Error>((act.handle@, act.started is Some))
                    &&& act.address@ == address@
                    &&& act.started matches Some(site) ==> site@ == spec_started_site(
                        old(self)@,
                        address@,
                    )
                    &&& act.open_db == (act.started is Some && schema is Some
                        && !old(self)@.schemas.contains_key(address@))
                }
            }),
    {
        let a = address.address.as_str();
        if !present {
            return Err(Error::ContentUnavailable);
        }
        match self.sites_addr.get(a) {
            Some(h) => {
                return Ok(
                    Activation {
                        address: Address { address: address.address.clone() },
                        handle: *h,
                        started: None,
                        open_db: false,
                    },
                );
            },
            None => {},
        }
        if !loaded {
            return Err(Error::ContentLoadFailed);
        }
        let site = match self.sites.get(a) {
            Some(s) => s.duplicate(),
            None => Site {
                address: address.address.clone(),
                root: self.site_root(a),
                storage: SiteStorage::empty(),
            },
        };
        let wrapper = match self.snapshot.get(a) {
            Some(st) => if st.wrapper_key.unicode_len() > 0 {
                Some(st.wrapper_key.clone())
            } else {
                None
            },
            None => None,
        };
        match wrapper {
            Some(w) => {
                proof {
                    lemma_deep_insert(self.nonce@, w@, address.address);
                }
                self.nonce.insert(w, address.address.clone());
            },
            None => {},
        }
        let mut open_db = false;
        match schema {
            Some(sc) => {
                if !self.schemas.contains(a) {
                    proof {
                        lemma_deep_insert(self.schemas@, address@, sc);
                    }
                    self.schemas.insert(address.address.clone(), sc);
                    open_db = true;
                }
            },
            None => {},
        }
        self.sites_changed = bump_counter(self.sites_changed, now);
        let h = SiteHandle { id: self.next_handle };
        proof {
            lemma_deep_insert(self.sites_addr@, address@, h);
        }
        self.sites_addr.insert(address.address.clone(), h);
        self.next_handle = self.next_handle + 1;
        Ok(
            Activation {
                address: Address { address: address.address.clone() },
                handle: h,
                started: Some(site),
                open_db,
            },
        )
    }

    /// Merges the startup metadata: each entry whose root exists and whose content
    /// loaded is registered and its wrapper key and ajax key are bound to its address;
    /// the others are skipped. The change counter is bumped once.
    pub fn extend_sites_from_sitedata(&mut self, entries: Vec<BootEntry>, now: u64)
        ensures
            final(self)@ == spec_bootstrap(old(self)@, boot_views(entries@), now),
    {
        let ghost es = boot_views(entries@);
        let ghost v0 = self@;
        let mut i: usize = 0;
        while i < entries.len()
            invariant
                es == boot_views(entries@),
                i <= entries.len(),
                self@ == spec_boot_all(v0, es.take(i as int)),
                self.sites_changed == v0.changed,
                v0 == old(self)@,
            decreases entries.len() - i,
        {
            assert(es.take(i + 1).drop_last() =~= es.take(i as int));
            let e = &entries[i];
            if e.root_exists && e.content_loaded {
                let site = Site {
                    address: e.address.clone(),
                    root: self.site_root(e.address.as_str()),
                    storage: e.storage.duplicate(),
                };
                proof {
                    lemma_deep_insert(self.sites@, e.address@, site);
                    lemma_deep_insert(self.nonce@, e.storage.wrapper_key@, e.address);
                    lemma_deep_insert(self.ajax_keys@, e.storage.ajax_key@, e.address);
                }
                self.sites.insert(e.address.clone(), site);
                self.nonce.insert(e.storage.wrapper_key.clone(), e.address.clone());
                self.ajax_keys.insert(e.storage.ajax_key.clone(), e.address.clone());
            }
            i = i + 1;
        }
        assert(es.take(i as int) =~= es);
        self.sites_changed = bump_counter(self.sites_changed, now);
    }

    /// Registers each of `sites`, in order, and bumps the change counter.
    pub fn extend_sites(&mut self, sites: Vec<Site>, now: u64)
        ensures
            final(self)@ == (RegistryView {
                sites: spec_extend(old(self)@.sites, site_views(sites@)),
                changed: bump(old(self)@.changed, now),
                ..old(self)@
            }),
    {
        let ghost ss = site_views(sites@);
        let mut i: usize = 0;
        while i < sites.len()
            invariant
                ss == site_views(sites@),
                i <= sites.len(),
                self@ == (RegistryView {
                    sites: spec_extend(old(self)@.sites, ss.take(i as int)),
                    ..old(self)@
                }),
            decreases sites.len() - i,
        {
            assert(ss.take(i + 1).drop_last() =~= ss.take(i as int));
            let site = sites[i].duplicate();
            proof {
                lemma_deep_insert(self.sites@, site.address@, site);
            }
            self.sites.insert(site.address.clone(), site);
            i = i + 1;
        }
        assert(ss.take(i as int) =~= ss);
        self.sites_changed = bump_counter(self.sites_changed, now);
    }

    /// The address and handle that `key` was bound to. Resolving leaves the binding in
    /// place: a nonce may be presented again.
    pub fn get_by_key(&self, key: &str) -> (r: Result<(Address, SiteHandle), Error>)
        ensures
            r is Ok <==> spec_resolve(self@, key@) is Some,
            r matches Ok((a, h)) ==> spec_resolve(self@, key@) == Some((a@, h@)),
            r matches Err(e) ==> e == Error::UnknownNonce,
    {
        match self.nonce.get(key) {
            Some(address) => match self.sites_addr.get(address.as_str()) {
                Some(h) => Ok((Address { address: address.clone() }, *h)),
                None => Err(Error::UnknownNonce),
            },
            None => Err(Error::UnknownNonce),
        }
    }
}


/// Activating an address whose manifest is on disk a second time yields the handle
/// that the first activation gave and changes nothing: one domain per address.
pub proof fn lemma_single_activation(
    v: RegistryView,
    address: Seq<char>,
    loaded1: bool,
    schema1: Option<(Seq<char>, Seq<char>)>,
    now1: u64,
    loaded2: bool,
    schema2: Option<(Seq<char>, Seq<char>)>,
    now2: u64,
)
    requires
        spec_get(v, address, true, loaded1, schema1, now1).1 is Ok,
    ensures
        ({
            let (v1, r1) = spec_get(v, address, true, loaded1, schema1, now1);
            let (v2, r2) = spec_get(v1, address, true, loaded2, schema2, now2);
            &&& v1.handles.contains_key(address)
            &&& v1.handles[address] == (r1->Ok_0).0
            &&& v2 == v1
            &&& r2 == Ok::<(u64, bool), Error>(((r1->Ok_0).0, false))
        }),
{
}

/// A nonce bound to an address that has a handle resolves to that address and handle.
pub proof fn lemma_resolve_after_bind(v: RegistryView, nonce: Seq<char>, address: Seq<char>)
    requires
        v.handles.contains_key(address),
    ensures
        spec_resolve(RegistryView { nonces: v.nonces.insert(nonce, address), ..v }, nonce) == Some(
            (address, v.handles[address]),
        ),
{
}

/// A nonce that was never bound does not resolve.
pub proof fn lemma_unknown_nonce(v: RegistryView, nonce: Seq<char>)
    requires
        !v.nonces.contains_key(nonce),
    ensures
        spec_resolve(v, nonce) is None,
{
}

/// Adding a site and then removing it leaves it absent from the registered sites,
/// while handles and nonce resolution are as they were.
pub proof fn lemma_add_then_remove(v: RegistryView, site: SiteView, now1: u64, now2: u64)
    ensures
        ({
            let v2 = spec_remove_site(spec_add_site(v, site, now1), site.address, now2);
            &&& !v2.sites.contains_key(site.address)
            &&& v2.handles == v.handles
            &&& forall|n: Seq<char>| spec_resolve(v2, n) == spec_resolve(v, n)
            &&& v2.changed >= v.changed
        }),
{
}

/// Bootstrap registers exactly the entries whose root exists and whose content
/// loaded, besides the sites registered before, and never moves the change counter back.
pub proof fn lemma_bootstrap_registers_present(v: RegistryView, es: Seq<BootEntryView>, now: u64)
    ensures
        ({
            let v2 = spec_bootstrap(v, es, now);
            &&& forall|k: Seq<char>| #[trigger]
                v2.sites.contains_key(k) ==> v.sites.contains_key(k) || exists|i: int|
                    0 <= i < es.len() && es[i].address == k && es[i].root_exists
            &&& forall|i: int| 0 <= i < es.len() && boot_registers(#[trigger] es[i])
                ==> v2.sites.contains_key(es[i].address)
            &&& v2.handles == v.handles
            &&& v2.changed >= v.changed
        }),
    decreases es.len(),
{
    if es.len() > 0 {
        let es0 = es.drop_last();
        lemma_bootstrap_registers_present(v, es0, now);
        let p = spec_boot_all(v, es0);
        assert forall|k: Seq<char>| #[trigger]
            spec_boot_all(v, es).sites.contains_key(k) implies v.sites.contains_key(k) || exists|
            i: int,
        | 0 <= i < es.len() && es[i].address == k && es[i].root_exists by {
            if !p.sites.contains_key(k) {
                assert(es[es.len() - 1].address == k);
            } else if !v.sites.contains_key(k) {
                assert(spec_bootstrap(v, es0, now).sites.contains_key(k));
                let i = choose|i: int|
                    0 <= i < es0.len() && es0[i].address == k && es0[i].root_exists;
                assert(es[i] == es0[i]);
            }
        }
        assert forall|i: int| 0 <= i < es.len() && boot_registers(#[trigger] es[i]) implies spec_boot_all(
            v,
            es,
        ).sites.contains_key(es[i].address) by {
            if i < es.len() - 1 {
                assert(es[i] == es0[i]);
                assert(spec_bootstrap(v, es0, now).sites.contains_key(es0[i].address));
            }
        }
    }
}

} // verus!
