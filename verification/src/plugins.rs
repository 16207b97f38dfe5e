//! The plugin host: the installed plugins, one per id, and the rules for
//! packages and plugin storage.
use vstd::prelude::*;
use crate::keyed::{Keyed, KeyedList};
use crate::manifest::{
    all_normal_components, byte_len, is_valid_id, has_char, normal_components, rooted, Manifest, Permission,
};
use crate::storage::{
    after_op, answer, apply_request, encode, null_json, op_named, request_error, PluginStore,
    StorageReply, MAX_STORAGE,
};
use crate::text::chars_of;

verus! {

/// The most bytes an archive entry of a plugin package may hold.
pub const MAX_ARCHIVE_FILE: u64 = 2097152;

/// The most files a plugin package may hold.
pub const MAX_ARCHIVE_ENTRIES: usize = 128;

/// A plugin as the host knows it.
pub struct PluginInfo {
    pub manifest: Manifest,
    pub enabled: bool,
    pub error: Option<String>,
    /// The plugin's SVG icon as a `data:` URI.
    pub icon_data: Option<String>,
    /// The page that runs the plugin (see `build_document`).
    pub document: Option<String>,
}

impl Keyed for PluginInfo {
    open spec fn key_view(&self) -> Seq<char> {
        self.manifest.id@
    }

    fn key(&self) -> (r: &String) {
        &self.manifest.id
    }
}

/// A plugin the host may keep: its manifest meets every rule, so its id is
/// valid, and it was read without error into its page.
pub open spec fn well_loaded(p: PluginInfo) -> bool {
    &&& exists|e: bool, i: bool| #[trigger] p.manifest.validation_error(e, i) is None
    &&& is_valid_id(p.manifest.id@)
    &&& p.error is None
    &&& p.document is Some
}

impl PluginInfo {
    /// A plugin read from its folder: fails with the manifest's first broken
    /// rule (`entry_exists` and `icon_exists` telling whether those files
    /// exist), else the plugin with its `document` and SVG `icon_data`,
    /// enabled unless the user's `enabled` setting for its id says otherwise.
    pub fn read(
        manifest: Manifest,
        entry_exists: bool,
        icon_exists: bool,
        document: String,
        icon_data: Option<String>,
        enabled_setting: Option<bool>,
    ) -> (r: Result<PluginInfo, String>)
        ensures
            r is Ok <==> manifest.validation_error(entry_exists, icon_exists) is None,
            r matches Err(e) ==> Some(e@) == manifest.validation_error(entry_exists, icon_exists),
            r matches Ok(p) ==> {
                &&& well_loaded(p)
                &&& p.manifest == manifest
                &&& p.enabled == (match enabled_setting {
                    Some(b) => b,
                    None => true,
                })
                &&& p.icon_data == icon_data
                &&& p.document == Some(document)
            },
    {
        manifest.validate(entry_exists, icon_exists)?;
        assert(manifest.header_error(entry_exists, icon_exists) is None);
        assert(manifest.validation_error(entry_exists, icon_exists) is None);
        Ok(PluginInfo::loaded(manifest, enabled_setting, icon_data, document))
    }

    /// A freshly read plugin: enabled unless the user's `enabled` setting for
    /// its id says otherwise, with no error.
    pub fn loaded(
        manifest: Manifest,
        enabled_setting: Option<bool>,
        icon_data: Option<String>,
        document: String,
    ) -> (r: PluginInfo)
        ensures
            r.manifest == manifest,
            r.enabled == (match enabled_setting {
                Some(b) => b,
                None => true,
            }),
            r.error is None,
            r.icon_data == icon_data,
            r.document == Some(document),
    {
        let enabled = match enabled_setting {
            Some(b) => b,
            None => true,
        };
        PluginInfo { manifest, enabled, error: None, icon_data, document: Some(document) }
    }
}

/// The plugins of a folder listing, found by id: where several carry the
/// same id, the first one counts.
pub open spec fn first_wins(found: Seq<PluginInfo>) -> Map<Seq<char>, PluginInfo>
    decreases found.len(),
{
    if found.len() == 0 {
        Map::empty()
    } else {
        let m = first_wins(found.drop_last());
        let p = found.last();
        if m.contains_key(p.manifest.id@) {
            m
        } else {
            m.insert(p.manifest.id@, p)
        }
    }
}

/// Of the plugins that a folder listing found, each id is kept, and with it
/// the first plugin that carries it.
pub proof fn lemma_first_wins(found: Seq<PluginInfo>, i: int)
    requires
        0 <= i < found.len(),
        forall|j: int| 0 <= j < i ==> (#[trigger] found[j]).manifest.id@ != found[i].manifest.id@,
    ensures
        first_wins(found).contains_key(found[i].manifest.id@),
        first_wins(found)[found[i].manifest.id@] == found[i],
    decreases found.len(),
{
    let k = found[i].manifest.id@;
    let prev = found.drop_last();
    if i < found.len() - 1 {
        assert forall|j: int| 0 <= j < i implies (#[trigger] prev[j]).manifest.id@ != prev[i].manifest.id@ by {
            assert(prev[j] == found[j]);
        }
        lemma_first_wins(prev, i);
        assert(prev[i] == found[i]);
    } else {
        lemma_first_wins_absent(prev, k);
    }
}

/// An id that no plugin of the listing carries is not kept.
pub proof fn lemma_first_wins_absent(found: Seq<PluginInfo>, k: Seq<char>)
    requires
        forall|j: int| 0 <= j < found.len() ==> (#[trigger] found[j]).manifest.id@ != k,
    ensures
        !first_wins(found).contains_key(k),
    decreases found.len(),
{
    if found.len() > 0 {
        let prev = found.drop_last();
        assert forall|j: int| 0 <= j < prev.len() implies (#[trigger] prev[j]).manifest.id@ != k by {
            assert(prev[j] == found[j]);
        }
        lemma_first_wins_absent(prev, k);
    }
}

/// The installed plugins, kept in id order.
pub struct Manager {
    plugins: KeyedList<PluginInfo>,
}

impl Manager {
    pub closed spec fn wf(&self) -> bool {
        &&& self.plugins.wf()
        &&& forall|k: Seq<char>| #[trigger]
            self.plugins.map().contains_key(k) ==> well_loaded(self.plugins.map()[k])
    }

    /// The installed plugins in id order.
    pub closed spec fn listed(&self) -> Seq<PluginInfo> {
        self.plugins@
    }

    /// The installed plugins by id.
    pub closed spec fn installed(&self) -> Map<Seq<char>, PluginInfo> {
        self.plugins.map()
    }

    /// The listing is in strictly increasing id order, and it holds exactly
    /// the installed plugins; each is found under its own id, and each was
    /// well loaded.
    pub proof fn lemma_listing(&self)
        requires
            self.wf(),
        ensures
            crate::keyed::keys_sorted(self.listed()),
            forall|k: Seq<char>| #[trigger]
                self.installed().contains_key(k) ==> self.installed()[k].manifest.id@ == k
                    && well_loaded(self.installed()[k]),
            forall|i: int| 0 <= i < self.listed().len() ==> well_loaded(#[trigger] self.listed()[i]),
            forall|i: int|
                0 <= i < self.listed().len() ==> self.installed().contains_key(
                    #[trigger] self.listed()[i].manifest.id@,
                ) && self.installed()[self.listed()[i].manifest.id@] == self.listed()[i],
            forall|k: Seq<char>|
                #[trigger] self.installed().contains_key(k) ==> exists|i: int|
                    0 <= i < self.listed().len() && #[trigger] self.listed()[i].manifest.id@ == k,
    {
        assert forall|i: int| 0 <= i < self.listed().len() implies self.installed().contains_key(
            #[trigger] self.listed()[i].manifest.id@,
        ) && self.installed()[self.listed()[i].manifest.id@] == self.listed()[i] by {
            crate::keyed::lemma_record_at(self.plugins@, i);
        }
        assert forall|k: Seq<char>| #[trigger] self.installed().contains_key(k) implies exists|i: int|
            0 <= i < self.listed().len() && #[trigger] self.listed()[i].manifest.id@ == k by {
            let i = crate::keyed::index_of(self.plugins@, k);
            assert(self.plugins@[i].key_view() == k);
        }
        assert forall|k: Seq<char>| #[trigger] self.installed().contains_key(k) implies self.installed()[k].manifest.id@
            == k && well_loaded(self.installed()[k]) by {
            let i = crate::keyed::index_of(self.plugins@, k);
            assert(self.plugins@[i].key_view() == k);
        }
        assert forall|i: int| 0 <= i < self.listed().len() implies well_loaded(
            #[trigger] self.listed()[i],
        ) by {
            crate::keyed::lemma_record_at(self.plugins@, i);
        }
    }

    /// No plugins.
    pub fn new() -> (r: Manager)
        ensures
            r.wf(),
            r.installed() == Map::<Seq<char>, PluginInfo>::empty(),
    {
        let r = Manager { plugins: KeyedList::new() };
        assert(r.installed() =~= Map::<Seq<char>, PluginInfo>::empty());
        r
    }

    /// The host's plugins from what a folder listing found, in listing order:
    /// of several plugins with one id, the first is kept.
    pub fn from_plugins(found: Vec<PluginInfo>) -> (r: Manager)
        requires
            forall|i: int| 0 <= i < found@.len() ==> well_loaded(#[trigger] found@[i]),
        ensures
            r.wf(),
            r.installed() == first_wins(found@),
    {
        let ghost all = found@;
        let n = found.len();
        let mut rest = found;
        let mut m = Manager::new();
        let mut k: usize = 0;
        assert(all.take(0) =~= Seq::<PluginInfo>::empty());
        assert(rest@ =~= all.skip(0));
        while rest.len() > 0
            invariant
                m.wf(),
                k <= all.len(),
                n == all.len(),
                forall|i: int| 0 <= i < all.len() ==> well_loaded(#[trigger] all[i]),
                rest@ == all.skip(k as int),
                m.installed() == first_wins(all.take(k as int)),
            decreases rest@.len(),
        {
            let p = rest.remove(0);
            assert(all.take(k + 1).drop_last() =~= all.take(k as int));
            assert(all.take(k + 1).last() == p);
            assert(rest@ =~= all.skip(k + 1));
            assert(well_loaded(all[k as int]));
            if m.plugins.get(&p.manifest.id).is_none() {
                m.add(p);
            }
            k += 1;
        }
        assert(all.take(k as int) =~= all);
        m
    }

    /// The installed plugins in id order.
    pub fn infos(&self) -> (r: &Vec<PluginInfo>)
        ensures
            r@ == self.listed(),
    {
        self.plugins.items()
    }

    /// The plugin with this id.
    pub fn get(&self, id: &str) -> (r: Option<&PluginInfo>)
        requires
            self.wf(),
        ensures
            r is Some <==> self.installed().contains_key(id@),
            r matches Some(p) ==> *p == self.installed()[id@],
    {
        self.plugins.get(&String::from_str(id))
    }

    /// The permissions that the plugin with this id declares.
    pub fn permissions(&self, id: &str) -> (r: Option<&Vec<Permission>>)
        requires
            self.wf(),
        ensures
            r is Some <==> self.installed().contains_key(id@),
            r matches Some(ps) ==> *ps == self.installed()[id@].manifest.permissions,
    {
        match self.get(id) {
            Some(p) => Some(&p.manifest.permissions),
            None => None,
        }
    }

    /// Whether the plugin with this id exists and declares `perm`.
    pub open spec fn grants(&self, id: Seq<char>, perm: Permission) -> bool {
        self.installed().contains_key(id) && self.installed()[id].manifest.permissions@.contains(
            perm,
        )
    }

    /// Whether the plugin with this id exists and declares `perm`.
    pub fn allows(&self, id: &str, perm: Permission) -> (r: bool)
        requires
            self.wf(),
        ensures
            r == self.grants(id@, perm),
    {
        match self.permissions(id) {
            Some(ps) => {
                let mut i: usize = 0;
                while i < ps.len()
                    invariant
                        i <= ps@.len(),
                        self.installed().contains_key(id@),
                        ps@ == self.installed()[id@].manifest.permissions@,
                        forall|j: int| 0 <= j < i ==> ps@[j] != perm,
                    decreases ps@.len() - i,
                {
                    if ps[i] == perm {
                        assert(ps@[i as int] == perm);
                        assert(ps@ == self.installed()[id@].manifest.permissions@);
                        assert(self.installed()[id@].manifest.permissions@.contains(perm));
                        return true;
                    }
                    i += 1;
                }
                false
            },
            None => false,
        }
    }

    /// Fails when a plugin with this id is installed already.
    pub fn check_new(&self, id: &str) -> (r: Result<(), String>)
        requires
            self.wf(),
        ensures
            r is Ok <==> !self.installed().contains_key(id@),
            r matches Err(e) ==> e@ == "plugin '"@ + id@ + "' is already installed"@,
    {
        if self.get(id).is_some() {
            let mut e = String::from_str("plugin '");
            e.append(id);
            e.append("' is already installed");
            return Err(e);
        }
        Ok(())
    }

    /// Records a newly installed plugin, in place of any with the same id.
    pub fn add(&mut self, p: PluginInfo)
        requires
            old(self).wf(),
            well_loaded(p),
        ensures
            final(self).wf(),
            final(self).installed() == old(self).installed().insert(p.manifest.id@, p),
    {
        self.plugins.upsert(p);
    }

    /// Forgets the plugin with this id; fails when there is none.
    pub fn uninstall(&mut self, id: &str) -> (r: Result<(), String>)
        requires
            old(self).wf(),
        ensures
            final(self).wf(),
            final(self).installed() == old(self).installed().remove(id@),
            r is Ok <==> old(self).installed().contains_key(id@),
            r matches Err(e) ==> e@ == "plugin not found"@,
    {
        match self.plugins.remove(&String::from_str(id)) {
            Some(_) => Ok(()),
            None => Err(String::from_str("plugin not found")),
        }
    }

    /// Runs a storage request of the plugin `id` against its stored values
    /// `store` (see `apply_request`); fails with `unknown plugin` when no
    /// such plugin is installed.
    pub fn storage(
        &self,
        id: &str,
        op: &str,
        key: Option<&str>,
        value: Option<String>,
        store: PluginStore,
    ) -> (r: Result<StorageReply, String>)
        requires
            self.wf(),
            store.wf(),
        ensures
            !self.installed().contains_key(id@) ==> (r matches Err(e) && e@ == "unknown plugin"@),
            self.installed().contains_key(id@) ==> ({
                let k = match key {
                    Some(k) => k@,
                    None => Seq::<char>::empty(),
                };
                let v = match value {
                    Some(v) => v@,
                    None => null_json(),
                };
                match request_error(op@, match key {
                    Some(k) => Some(k@),
                    None => None,
                }) {
                    Some(msg) => r matches Err(e) && e@ == msg,
                    None => {
                        let o = op_named(op@)->0;
                        let m = after_op(store.contents(), o, k, v);
                        match r {
                            Ok(reply) => {
                                &&& reply.store.wf()
                                &&& reply.store.contents() == m
                                &&& reply.value@ == answer(store.contents(), o, k)
                                &&& reply.body@ == encode(reply.store.list@)
                                &&& byte_len(reply.body@) <= MAX_STORAGE
                            },
                            Err(e) => {
                                &&& e@ == "plugin storage limit is 64 KiB"@
                                &&& forall|s: PluginStore|
                                    s.wf() && s.contents() == m ==> byte_len(encode(s.list@))
                                        > MAX_STORAGE
                            },
                        }
                    },
                }
            }),
    {
        if self.get(id).is_none() {
            return Err(String::from_str("unknown plugin"));
        }
        apply_request(store, op, key, value)
    }
}

// ---------------------------------------------------------------------------
// Packages
// ---------------------------------------------------------------------------

/// An archive entry name that stays inside the folder it is unpacked in:
/// not empty, no `\` or `:`, not absolute, and only plain components.
pub open spec fn is_safe_relative(s: Seq<char>) -> bool {
    &&& s.len() > 0
    &&& !s.contains('\\')
    &&& !s.contains(':')
    &&& !rooted(s)
    &&& all_normal_components(s)
}

/// Whether an archive entry name is a safe relative path.
pub fn safe_relative(path: &str) -> (r: bool)
    ensures
        r == is_safe_relative(path@),
{
    let cs = chars_of(path);
    if cs.len() == 0 || has_char(&cs, '\\') || has_char(&cs, ':') {
        return false;
    }
    if cs[0] == '/' || cs[0] == '\\' {
        return false;
    }
    normal_components(&cs)
}

/// Fails unless a package holds between 1 and `MAX_ARCHIVE_ENTRIES` files.
pub fn check_package_size(count: usize) -> (r: Result<(), String>)
    ensures
        r is Ok <==> 0 < count <= MAX_ARCHIVE_ENTRIES,
        r matches Err(e) ==> e@ == "package has an invalid number of files"@,
{
    if count == 0 || count > MAX_ARCHIVE_ENTRIES {
        return Err(String::from_str("package has an invalid number of files"));
    }
    Ok(())
}

/// What to do with one archive entry: fail when its name is unsafe or it is
/// over `MAX_ARCHIVE_FILE` bytes; otherwise `Ok(true)` to unpack a file and
/// `Ok(false)` to pass over a folder.
pub fn check_archive_entry(name: &str, size: u64, is_dir: bool) -> (r: Result<bool, String>)
    ensures
        r is Ok <==> is_safe_relative(name@) && size <= MAX_ARCHIVE_FILE,
        r matches Ok(unpack) ==> unpack == !is_dir,
        r matches Err(e) ==> e@ == "unsafe archive entry"@,
{
    if !safe_relative(name) || size > MAX_ARCHIVE_FILE {
        return Err(String::from_str("unsafe archive entry"));
    }
    Ok(!is_dir)
}

} // verus!
