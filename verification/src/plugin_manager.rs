//! The registry of plugins by custom tag, with a cache of the outputs of plugins whose output
//! does not change.
use vstd::prelude::*;
use crate::assoc::{
    assoc_get, assoc_insert, assoc_lookup, assoc_map, assoc_remove, find_key, keys_distinct,
    lemma_lookup_at, lemma_lookup_some, lemma_lookup_update,
};
use crate::errors::AppError;
use crate::plugin::{plugin_called, same_plugin, Plugin, PluginCallError};

verus! {

/// A plugin's manifest: the format version, whether its output may change between calls, its
/// name, the custom tag it renders, its module file and the function it exports.
pub struct PluginManifest {
    pub manifest_version: String,
    pub dynamic: bool,
    pub name: String,
    pub tag: String,
    pub wasm_path: String,
    pub func_name: String,
}

/// The manifest version assumed when a manifest gives none.
pub fn default_manifest_version() -> (r: String)
    ensures
        r@ == "1.0"@,
{
    "1.0".to_owned()
}

/// Whether a plugin is dynamic when its manifest does not say.
pub fn default_manifest_dynamic() -> (r: bool)
    ensures
        r == false,
{
    false
}

/// Why running a plugin failed.
pub enum RunPluginError {
    /// No plugin is registered for the tag.
    NoPlugin(String),
    /// The plugin's call failed.
    Call(PluginCallError),
}

impl RunPluginError {
    /// The error's message.
    pub fn message(&self) -> (r: String)
        ensures
            self matches RunPluginError::NoPlugin(tag) ==> r@ == "No plugin found for "@ + tag@,
            self matches RunPluginError::Call(e) ==> r@ == e.spec_message(),
    {
        match self {
            RunPluginError::NoPlugin(tag) => {
                let mut r = "No plugin found for ".to_owned();
                r.append(tag.as_str());
                r
            },
            RunPluginError::Call(e) => e.message(),
        }
    }
}

/// The cache key of a tag's output for a post: `tag__slug`.
pub open spec fn cache_key(tag: Seq<char>, slug: Seq<char>) -> Seq<char> {
    tag + "__"@ + slug
}

/// The registered plugins by tag, and the cached outputs by `tag__slug`.
pub struct PluginManager {
    plugins: Vec<(String, Plugin)>,
    cache: Vec<(String, String)>,
}

impl PluginManager {
    #[verifier::type_invariant]
    closed spec fn inv(self) -> bool {
        keys_distinct(self.plugins@) && keys_distinct(self.cache@)
    }

    /// For each registered tag, whether its plugin is dynamic.
    pub closed spec fn dynamic_flags(self) -> Map<Seq<char>, bool> {
        Map::new(
            |k: Seq<char>| assoc_lookup(self.plugins@, k) is Some,
            |k: Seq<char>| (assoc_lookup(self.plugins@, k)->0).dynamic,
        )
    }

    /// The registered plugins by tag.
    pub closed spec fn registered(self) -> Map<Seq<char>, Plugin> {
        assoc_map(self.plugins@)
    }

    /// The cached outputs.
    pub closed spec fn cached(self) -> Map<Seq<char>, Seq<char>> {
        Map::new(
            |k: Seq<char>| assoc_lookup(self.cache@, k) is Some,
            |k: Seq<char>| (assoc_lookup(self.cache@, k)->0)@,
        )
    }

    /// No plugins and nothing cached.
    pub fn new() -> (m: PluginManager)
        ensures
            m.dynamic_flags() == Map::<Seq<char>, bool>::empty(),
            m.registered() == Map::<Seq<char>, Plugin>::empty(),
            m.cached() == Map::<Seq<char>, Seq<char>>::empty(),
    {
        let m = PluginManager { plugins: Vec::new(), cache: Vec::new() };
        assert(m.registered() =~= Map::<Seq<char>, Plugin>::empty());
        assert(m.dynamic_flags() =~= Map::<Seq<char>, bool>::empty());
        assert(m.cached() =~= Map::<Seq<char>, Seq<char>>::empty());
        m
    }

    /// Registers `plugin` for its tag, replacing a plugin registered for the same tag.
    pub fn load_plugin(&mut self, plugin: Plugin)
        ensures
            final(self).registered() == old(self).registered().insert(plugin.tag@, plugin),
            final(self).dynamic_flags() == old(self).dynamic_flags().insert(plugin.tag@, plugin.dynamic),
            final(self).cached() == old(self).cached(),
    {
        proof {
            use_type_invariant(&*self);
        }
        let ghost before = *self;
        let ghost t = plugin.tag@;
        let ghost d = plugin.dynamic;
        let key = plugin.tag.clone();
        let mut plugins: Vec<(String, Plugin)> = Vec::new();
        std::mem::swap(&mut plugins, &mut self.plugins);
        let ghost old_plugins = plugins@;
        assoc_insert(&mut plugins, key, plugin);
        self.plugins = plugins;
        proof {
            assert forall|k: Seq<char>| #[trigger] self.dynamic_flags().contains_key(k) == before.dynamic_flags().insert(t, d).contains_key(k) by {
                assert(assoc_map(self.plugins@).contains_key(k) == assoc_map(old_plugins).insert(t, assoc_map(self.plugins@)[t]).contains_key(k));
            }
            assert forall|k: Seq<char>| #[trigger] self.dynamic_flags().contains_key(k) implies self.dynamic_flags()[k] == before.dynamic_flags().insert(t, d)[k] by {
                assert(assoc_map(self.plugins@) == assoc_map(old_plugins).insert(t, assoc_map(self.plugins@)[t]));
                if k != t {
                    assert(assoc_map(self.plugins@)[k] == assoc_map(old_plugins)[k]);
                }
            }
            assert(self.dynamic_flags() =~= before.dynamic_flags().insert(t, d));
            assert(self.cached() =~= before.cached());
        }
    }

    /// Removes the plugin registered for `tag`, if any.
    pub fn unload_plugin(&mut self, tag: &str)
        ensures
            final(self).registered() == old(self).registered().remove(tag@),
            final(self).dynamic_flags() == old(self).dynamic_flags().remove(tag@),
            final(self).cached() == old(self).cached(),
    {
        proof {
            use_type_invariant(&*self);
        }
        let ghost before = *self;
        let key = tag.to_owned();
        let mut plugins: Vec<(String, Plugin)> = Vec::new();
        std::mem::swap(&mut plugins, &mut self.plugins);
        let ghost old_plugins = plugins@;
        assoc_remove(&mut plugins, &key);
        self.plugins = plugins;
        proof {
            assert forall|k: Seq<char>| #[trigger] self.dynamic_flags().contains_key(k) == before.dynamic_flags().remove(tag@).contains_key(k) by {
                assert(assoc_map(self.plugins@).contains_key(k) == assoc_map(old_plugins).remove(tag@).contains_key(k));
            }
            assert forall|k: Seq<char>| #[trigger] self.dynamic_flags().contains_key(k) implies self.dynamic_flags()[k] == before.dynamic_flags().remove(tag@)[k] by {
                assert(assoc_map(self.plugins@)[k] == assoc_map(old_plugins)[k]);
            }
            assert(self.dynamic_flags() =~= before.dynamic_flags().remove(tag@));
            assert(self.cached() =~= before.cached());
        }
    }

    /// The tags that plugins are registered for.
    pub fn list_plugins(&self) -> (r: Vec<String>)
        ensures
            r@.len() == self.dynamic_flags().len(),
            forall|k: Seq<char>| self.dynamic_flags().contains_key(k) <==> exists|i: int| 0 <= i < r@.len() && #[trigger] r@[i]@ == k,
    {
        proof {
            use_type_invariant(self);
            crate::assoc::lemma_assoc_map_len(self.plugins@);
            assert(self.dynamic_flags().dom() =~= assoc_map(self.plugins@).dom());
        }
        let n = self.plugins.len();
        let mut r: Vec<String> = Vec::new();
        let mut i: usize = 0;
        while i < n
            invariant
                n == self.plugins@.len(),
                i <= n,
                r@.len() == i,
                forall|j: int| 0 <= j < i ==> #[trigger] r@[j]@ == self.plugins@[j].0@,
            decreases n - i,
        {
            r.push(self.plugins[i].0.clone());
            i = i + 1;
        }
        proof {
            assert forall|k: Seq<char>| self.dynamic_flags().contains_key(k) <==> exists|i: int| 0 <= i < r@.len() && #[trigger] r@[i]@ == k by {
                lemma_lookup_some(self.plugins@, k);
                if exists|i: int| 0 <= i < r@.len() && #[trigger] r@[i]@ == k {
                    let i = choose|i: int| 0 <= i < r@.len() && #[trigger] r@[i]@ == k;
                    assert(self.plugins@[i].0@ == k);
                }
                if self.dynamic_flags().contains_key(k) {
                    let i = choose|i: int| 0 <= i < self.plugins@.len() && self.plugins@[i].0@ == k;
                    assert(r@[i]@ == k);
                }
            }
        }
        r
    }

    /// Whether a plugin is registered for `tag`.
    pub fn has_plugin_handler(&self, tag: &str) -> (b: bool)
        ensures
            b == self.dynamic_flags().contains_key(tag@),
    {
        proof {
            use_type_invariant(self);
        }
        let key = tag.to_owned();
        assoc_get(&self.plugins, &key).is_some()
    }

    /// The plugin registered for `tag`, or a plugin error `Not found`.
    pub fn get_plugin_by_tag(&self, tag: &str) -> (r: Result<&Plugin, AppError>)
        ensures
            match r {
                Ok(p) => self.registered().contains_key(tag@) && *p == self.registered()[tag@]
                    && self.dynamic_flags().contains_key(tag@) && p.dynamic
                    == self.dynamic_flags()[tag@],
                Err(e) => !self.dynamic_flags().contains_key(tag@) && (e matches AppError::PluginError(
                    m,
                ) && m@ == "Not found"@),
            },
    {
        proof {
            use_type_invariant(self);
        }
        let key = tag.to_owned();
        match assoc_get(&self.plugins, &key) {
            Some(p) => Ok(p),
            None => Err(AppError::PluginError("Not found".to_owned())),
        }
    }
}

} // verus!
verus! {

/// What `run_plugin(tag, slug, ..)` does, from the manager `m0` to `m1` with result `r`:
/// with no plugin for `tag` it fails and changes nothing; for a plugin that is not dynamic and
/// an output already cached under `tag__slug` it returns that output and changes nothing;
/// otherwise it calls the plugin on `input` (see `plugin_called`) and caches what a successful
/// call returned.
pub open spec fn run_plugin_post(
    m0: PluginManager,
    m1: PluginManager,
    tag: Seq<char>,
    slug: Seq<char>,
    input: Seq<u8>,
    r: Result<String, RunPluginError>,
) -> bool {
    let key = cache_key(tag, slug);
    &&& m1.dynamic_flags() == m0.dynamic_flags()
    &&& m1.registered().dom() == m0.registered().dom()
    &&& forall|k: Seq<char>|
        k != tag && #[trigger] m0.registered().contains_key(k) ==> m1.registered()[k]
            == m0.registered()[k]
    &&& m0.registered().contains_key(tag) ==> same_plugin(m1.registered()[tag], m0.registered()[tag])
    &&& if !m0.dynamic_flags().contains_key(tag) {
        &&& r matches Err(RunPluginError::NoPlugin(t)) && t@ == tag
        &&& m1.cached() == m0.cached()
    } else if !m0.dynamic_flags()[tag] && m0.cached().contains_key(key) {
        &&& r matches Ok(s) && s@ == m0.cached()[key]
        &&& m1 == m0
    } else {
        &&& plugin_called(m0.registered()[tag], m1.registered()[tag], input, call_result(r))
        &&& match r {
            Ok(s) => m1.cached() == m0.cached().insert(key, s@),
            Err(e) => e is Call && m1.cached() == m0.cached(),
        }
    }
}

/// The plugin call's result behind a result of `run_plugin` that came from calling it.
pub open spec fn call_result(r: Result<String, RunPluginError>) -> Result<String, PluginCallError> {
    match r {
        Ok(s) => Ok(s),
        Err(RunPluginError::Call(e)) => Err(e),
        Err(RunPluginError::NoPlugin(_)) => Err(PluginCallError::MemoryAccess),
    }
}

impl PluginManager {
    /// Renders `tag` for the post `slug` with the registered plugin, given `input`: the cached
    /// output when the plugin is not dynamic and has run for this tag and post before,
    /// otherwise the plugin's output, which is then cached.
    pub fn run_plugin(&mut self, tag: &str, slug: &str, input: &Vec<u8>) -> (r: Result<
        String,
        RunPluginError,
    >)
        ensures
            run_plugin_post(*old(self), *final(self), tag@, slug@, input@, r),
    {
        proof {
            use_type_invariant(&*self);
        }
        let ghost before = *self;
        let t = tag.to_owned();
        let j = match find_key(&self.plugins, &t) {
            Some(j) => j,
            None => {
                proof {
                    lemma_lookup_some(self.plugins@, tag@);
                }
                return Err(RunPluginError::NoPlugin(t));
            },
        };
        proof {
            lemma_lookup_at(self.plugins@, j as int);
        }
        let mut key = tag.to_owned();
        key.append("__");
        key.append(slug);
        if !self.plugins[j].1.dynamic {
            match assoc_get(&self.cache, &key) {
                Some(v) => {
                    return Ok(v.clone());
                },
                None => {},
            }
        }
        let mut plugins: Vec<(String, Plugin)> = Vec::new();
        std::mem::swap(&mut plugins, &mut self.plugins);
        let ghost old_plugins = plugins@;
        let (k, mut p) = plugins.remove(j);
        let ghost p0 = p;
        let res = p.call(input);
        let ghost entry = (k, p);
        plugins.insert(j, (k, p));
        proof {
            assert(plugins@ =~= old_plugins.update(j as int, entry));
            assert forall|k2: Seq<char>| #[trigger] assoc_lookup(plugins@, k2) == (if k2 == old_plugins[j as int].0@ { Some(entry.1) } else { assoc_lookup(old_plugins, k2) }) by {
                lemma_lookup_update(old_plugins, j as int, entry.0, entry.1, k2);
            }
            lemma_lookup_update(old_plugins, j as int, entry.0, entry.1, tag@);
        }
        self.plugins = plugins;
        proof {
            assert(self.dynamic_flags() =~= before.dynamic_flags());
            assert(self.registered().dom() =~= before.registered().dom());
            assert(p0 == old_plugins[j as int].1);
            assert(same_plugin(self.registered()[tag@], before.registered()[tag@]));
        }
        match res {
            Ok(s) => {
                let ghost sv = s@;
                let mut cache: Vec<(String, String)> = Vec::new();
                std::mem::swap(&mut cache, &mut self.cache);
                let ghost old_cache = cache@;
                assoc_insert(&mut cache, key, s.clone());
                self.cache = cache;
                proof {
                    let kk = cache_key(tag@, slug@);
                    assert(assoc_map(self.cache@) == assoc_map(old_cache).insert(kk, assoc_map(self.cache@)[kk]));
                    assert forall|k2: Seq<char>| #[trigger] self.cached().contains_key(k2) == before.cached().insert(kk, sv).contains_key(k2) by {
                        assert(assoc_map(self.cache@).contains_key(k2) == assoc_map(old_cache).insert(kk, assoc_map(self.cache@)[kk]).contains_key(k2));
                    }
                    assert forall|k2: Seq<char>| #[trigger] self.cached().contains_key(k2) implies self.cached()[k2] == before.cached().insert(kk, sv)[k2] by {
                        if k2 != kk {
                            assert(assoc_map(self.cache@)[k2] == assoc_map(old_cache)[k2]);
                        }
                    }
                    assert(self.cached() =~= before.cached().insert(kk, sv));
                    assert(self.dynamic_flags() =~= before.dynamic_flags());
                }
                Ok(s)
            },
            Err(e) => {
                proof {
                    assert(self.cached() =~= before.cached());
                }
                Err(RunPluginError::Call(e))
            },
        }
    }
}

/// Running a plugin that is not dynamic twice for the same tag and post gives the same output:
/// the second run is served from the cache that the first one filled.
pub proof fn lemma_run_plugin_cached(
    m0: PluginManager,
    m1: PluginManager,
    m2: PluginManager,
    tag: Seq<char>,
    slug: Seq<char>,
    input1: Seq<u8>,
    input2: Seq<u8>,
    r1: Result<String, RunPluginError>,
    r2: Result<String, RunPluginError>,
)
    requires
        run_plugin_post(m0, m1, tag, slug, input1, r1),
        run_plugin_post(m1, m2, tag, slug, input2, r2),
        r1 is Ok,
        m0.dynamic_flags().contains_key(tag),
        !m0.dynamic_flags()[tag],
    ensures
        r2 is Ok && r2->Ok_0@ == r1->Ok_0@,
        m2.cached() == m1.cached(),
{
}


/// After registering a plugin for `tag`, a handler for `tag` is found, with that plugin's
/// `dynamic` flag; after removing `tag` again, none is; other tags are registered as they
/// were before both.
pub proof fn lemma_handler_after_load_unload(
    m0: PluginManager,
    m1: PluginManager,
    m2: PluginManager,
    tag: Seq<char>,
    dynamic: bool,
    other: Seq<char>,
)
    requires
        m1.dynamic_flags() == m0.dynamic_flags().insert(tag, dynamic),
        m2.dynamic_flags() == m1.dynamic_flags().remove(tag),
    ensures
        m1.dynamic_flags().contains_key(tag) && m1.dynamic_flags()[tag] == dynamic,
        !m2.dynamic_flags().contains_key(tag),
        other != tag ==> m2.dynamic_flags().contains_key(other) == m0.dynamic_flags().contains_key(
            other,
        ),
{
}

/// The tags with a dynamic flag are exactly the tags with a registered plugin, and each flag is
/// that plugin's `dynamic` field.
pub proof fn lemma_flags_of_registered(m: PluginManager)
    ensures
        m.dynamic_flags().dom() == m.registered().dom(),
        forall|k: Seq<char>| #[trigger] m.registered().contains_key(k) ==> m.dynamic_flags()[k]
            == m.registered()[k].dynamic,
{
    assert(m.dynamic_flags().dom() =~= m.registered().dom());
}

} // verus!
