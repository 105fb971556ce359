//! Per-project configuration records: the project name, its optional
//! dependency and remapping lists, and its environment-variable bindings.

use vstd::prelude::*;
use vstd::string::StringExecFns;

verus! {

/// Base URL under which every benchmarked repository lives.
pub const GITHUB_URL: &'static str = "https://github.com";

/// The source URL a project name denotes.
pub open spec fn url_of(name: Seq<char>) -> Seq<char> {
    GITHUB_URL@ + "/"@ + name
}

/// First value bound to `key` in a sequence of key/value pairs, if any.
pub open spec fn env_lookup(s: Seq<(Seq<char>, Seq<char>)>, key: Seq<char>) -> Option<Seq<char>>
    decreases s.len(),
{
    if s.len() == 0 {
        None
    } else if s[0].0 == key {
        Some(s[0].1)
    } else {
        env_lookup(s.drop_first(), key)
    }
}

/// Whether some pair in `s` binds `key`.
pub open spec fn env_contains_key(s: Seq<(Seq<char>, Seq<char>)>, key: Seq<char>) -> bool {
    env_lookup(s, key) is Some
}

/// The keys of the pair sequence, in order.
pub open spec fn env_keys(s: Seq<(Seq<char>, Seq<char>)>) -> Seq<Seq<char>> {
    s.map_values(|p: (Seq<char>, Seq<char>)| p.0)
}

/// No key occurs twice.
pub open spec fn env_keys_distinct(s: Seq<(Seq<char>, Seq<char>)>) -> bool {
    forall|i: int, j: int| 0 <= i < j < s.len() ==> s[i].0 != s[j].0
}

/// The mapping denoted by the pair sequence (first binding wins).
pub open spec fn env_map(s: Seq<(Seq<char>, Seq<char>)>) -> Map<Seq<char>, Seq<char>> {
    Map::new(|k: Seq<char>| env_contains_key(s, k), |k: Seq<char>| env_lookup(s, k)->0)
}

/// If no pair before index `i` binds `key` and the pair at `i` does, the
/// lookup returns that pair's value.
pub proof fn lemma_env_lookup_at(s: Seq<(Seq<char>, Seq<char>)>, key: Seq<char>, i: int)
    requires
        0 <= i < s.len(),
        s[i].0 == key,
        forall|j: int| 0 <= j < i ==> s[j].0 != key,
    ensures
        env_lookup(s, key) == Some(s[i].1),
    decreases i,
{
    if i > 0 {
        lemma_env_lookup_at(s.drop_first(), key, i - 1);
    }
}

/// If no pair binds `key`, the lookup fails.
pub proof fn lemma_env_lookup_none(s: Seq<(Seq<char>, Seq<char>)>, key: Seq<char>)
    requires
        forall|j: int| 0 <= j < s.len() ==> s[j].0 != key,
    ensures
        env_lookup(s, key) is None,
    decreases s.len(),
{
    if s.len() > 0 {
        lemma_env_lookup_none(s.drop_first(), key);
    }
}

/// Compares two string slices by their character sequences.
pub fn str_eq(a: &str, b: &str) -> (r: bool)
    ensures
        r == (a@ == b@),
{
    let owned_a = a.to_owned();
    let owned_b = b.to_owned();
    owned_a.eq(&owned_b)
}

/// Ordered collection of environment-variable bindings with distinct names.
/// Stands in for a name-to-value mapping while keeping insertion order.
#[derive(Debug)]
pub struct EnvVars {
    pairs: Vec<(String, String)>,
}

impl View for EnvVars {
    type V = Seq<(Seq<char>, Seq<char>)>;

    closed spec fn view(&self) -> Seq<(Seq<char>, Seq<char>)> {
        self.pairs.deep_view()
    }
}

impl EnvVars {
    /// The bindings' names never repeat.
    pub open spec fn wf(&self) -> bool {
        env_keys_distinct(self@)
    }

    pub fn new() -> (r: EnvVars)
        ensures
            r@ == Seq::<(Seq<char>, Seq<char>)>::empty(),
            r.wf(),
    {
        EnvVars { pairs: Vec::new() }
    }

    pub fn len(&self) -> (r: usize)
        ensures
            r == self@.len(),
    {
        self.pairs.len()
    }

    pub fn is_empty(&self) -> (r: bool)
        ensures
            r == (self@.len() == 0),
    {
        self.pairs.len() == 0
    }

    /// The pair at position `i`, in insertion order.
    pub fn pair_at(&self, i: usize) -> (r: &(String, String))
        requires
            i < self@.len(),
        ensures
            r.deep_view() == self@[i as int],
    {
        &self.pairs[i]
    }

    /// Index of the binding named `key`, if any.
    fn index_of(&self, key: &str) -> (r: Option<usize>)
        ensures
            match r {
                Some(i) => i < self@.len() && self@[i as int].0 == key@,
                None => !env_contains_key(self@, key@),
            },
    {
        let n = self.pairs.len();
        let mut i: usize = 0;
        while i < n
            invariant
                n == self@.len(),
                i <= n,
                forall|j: int| 0 <= j < i ==> self@[j].0 != key@,
            decreases n - i,
        {
            if str_eq(self.pairs[i].0.as_str(), key) {
                return Some(i);
            }
            i = i + 1;
        }
        proof {
            lemma_env_lookup_none(self@, key@);
        }
        None
    }

    /// Value bound to `key`, if any.
    pub fn get(&self, key: &str) -> (r: Option<&String>)
        ensures
            match r {
                Some(v) => env_lookup(self@, key@) == Some(v@),
                None => env_lookup(self@, key@) is None,
            },
    {
        let n = self.pairs.len();
        let mut i: usize = 0;
        while i < n
            invariant
                n == self@.len(),
                i <= n,
                forall|j: int| 0 <= j < i ==> self@[j].0 != key@,
            decreases n - i,
        {
            if str_eq(self.pairs[i].0.as_str(), key) {
                proof {
                    lemma_env_lookup_at(self@, key@, i as int);
                }
                return Some(&self.pairs[i].1);
            }
            i = i + 1;
        }
        proof {
            lemma_env_lookup_none(self@, key@);
        }
        None
    }

    /// Replaces the value at position `i`, keeping the name there.
    pub fn set_value(&mut self, i: usize, value: String)
        requires
            old(self).wf(),
            i < old(self)@.len(),
        ensures
            final(self).wf(),
            final(self)@ == old(self)@.update(i as int, (old(self)@[i as int].0, value@)),
    {
        let key = self.pairs[i].0.clone();
        self.pairs[i] = (key, value);
        proof {
            assert(self@ =~= old(self)@.update(i as int, (old(self)@[i as int].0, value@)));
        }
    }

    /// Adds every binding of `other`, overriding same-named bindings here.
    pub fn extend(&mut self, other: &EnvVars)
        requires
            old(self).wf(),
            other.wf(),
        ensures
            final(self).wf(),
            env_map(final(self)@) == env_map(old(self)@).union_prefer_right(env_map(other@)),
    {
        let n = other.len();
        let mut i: usize = 0;
        proof {
            assert(env_map(other@.subrange(0, 0)) =~= Map::<Seq<char>, Seq<char>>::empty());
            assert(env_map(old(self)@).union_prefer_right(env_map(other@.subrange(0, 0))) =~= env_map(
                old(self)@,
            ));
        }
        while i < n
            invariant
                self.wf(),
                other.wf(),
                n == other@.len(),
                i <= n,
                env_map(self@) == env_map(old(self)@).union_prefer_right(
                    env_map(other@.subrange(0, i as int)),
                ),
            decreases n - i,
        {
            let p = other.pair_at(i);
            self.insert(p.0.clone(), p.1.clone());
            proof {
                let pre = other@.subrange(0, i as int);
                let post = other@.subrange(0, i + 1 as int);
                let pair = other@[i as int];
                assert(post =~= pre.push(pair));
                assert forall|j: int| 0 <= j < pre.len() implies pre[j].0 != pair.0 by {}
                lemma_env_lookup_none(pre, pair.0);
                lemma_env_insert_append(pre, post, pair.0, pair.1);
                assert(env_map(self@) =~= env_map(old(self)@).union_prefer_right(env_map(post)));
            }
            i = i + 1;
        }
        proof {
            assert(other@.subrange(0, n as int) =~= other@);
        }
    }

    /// Binds `key` to `value`, replacing an existing binding in place or
    /// appending a new one.
    pub fn insert(&mut self, key: String, value: String)
        requires
            old(self).wf(),
        ensures
            final(self).wf(),
            env_map(final(self)@) == env_map(old(self)@).insert(key@, value@),
            env_keys(final(self)@) == (if env_contains_key(old(self)@, key@) {
                env_keys(old(self)@)
            } else {
                env_keys(old(self)@).push(key@)
            }),
            env_lookup(final(self)@, key@) == Some(value@),
            forall|k: Seq<char>| k != key@ ==> env_lookup(final(self)@, k) == env_lookup(
                old(self)@,
                k,
            ),
    {
        let found = self.index_of(key.as_str());
        match found {
            Some(i) => {
                self.pairs[i] = (key, value);
                proof {
                    lemma_env_first_match(old(self)@, key@, i as int);
                    assert(self@ =~= old(self)@.update(i as int, (key@, value@)));
                    lemma_env_insert_replace(old(self)@, self@, key@, value@, i as int);
                }
            },
            None => {
                self.pairs.push((key, value));
                proof {
                    assert(self@ =~= old(self)@.push((key@, value@)));
                    lemma_env_insert_append(old(self)@, self@, key@, value@);
                }
            },
        }
    }
}

/// Replacing the pair at the (unique) index bound to `key` rewrites exactly
/// that key's binding.
proof fn lemma_env_insert_replace(
    pre: Seq<(Seq<char>, Seq<char>)>,
    post: Seq<(Seq<char>, Seq<char>)>,
    key: Seq<char>,
    value: Seq<char>,
    i: int,
)
    requires
        env_keys_distinct(pre),
        0 <= i < pre.len(),
        pre[i].0 == key,
        post == pre.update(i, (key, value)),
    ensures
        env_keys_distinct(post),
        env_map(post) == env_map(pre).insert(key, value),
        env_keys(post) == env_keys(pre),
        env_lookup(post, key) == Some(value),
        forall|k: Seq<char>| k != key ==> env_lookup(post, k) == env_lookup(pre, k),
{
    assert(env_keys(post) =~= env_keys(pre));
    lemma_env_lookup_at(post, key, i);
    assert forall|k: Seq<char>| k != key implies env_lookup(post, k) == env_lookup(pre, k) by {
        lemma_env_lookup_update_other(pre, i, (key, value), k);
    }
    assert(env_map(post) =~= env_map(pre).insert(key, value));
}

/// Appending a pair with a fresh key extends the mapping by that binding.
proof fn lemma_env_insert_append(
    pre: Seq<(Seq<char>, Seq<char>)>,
    post: Seq<(Seq<char>, Seq<char>)>,
    key: Seq<char>,
    value: Seq<char>,
)
    requires
        env_keys_distinct(pre),
        !env_contains_key(pre, key),
        post == pre.push((key, value)),
    ensures
        env_keys_distinct(post),
        env_map(post) == env_map(pre).insert(key, value),
        env_keys(post) == env_keys(pre).push(key),
        env_lookup(post, key) == Some(value),
        forall|k: Seq<char>| k != key ==> env_lookup(post, k) == env_lookup(pre, k),
{
    assert(env_keys(post) =~= env_keys(pre).push(key));
    assert forall|j: int| 0 <= j < pre.len() implies pre[j].0 != key by {
        if pre[j].0 == key {
            lemma_env_first_match(pre, key, j);
        }
    }
    lemma_env_lookup_at(post, key, pre.len() as int);
    assert forall|k: Seq<char>| k != key implies env_lookup(post, k) == env_lookup(pre, k) by {
        lemma_env_lookup_push_other(pre, (key, value), k);
    }
    assert(env_map(post) =~= env_map(pre).insert(key, value));
}

/// If some pair binds `key`, the lookup succeeds.
pub proof fn lemma_env_first_match(s: Seq<(Seq<char>, Seq<char>)>, key: Seq<char>, j: int)
    requires
        0 <= j < s.len(),
        s[j].0 == key,
    ensures
        env_contains_key(s, key),
    decreases j,
{
    if s[0].0 != key {
        lemma_env_first_match(s.drop_first(), key, j - 1);
    }
}

/// Appending a pair leaves lookups of other keys unchanged.
proof fn lemma_env_lookup_push_other(
    s: Seq<(Seq<char>, Seq<char>)>,
    p: (Seq<char>, Seq<char>),
    k: Seq<char>,
)
    requires
        k != p.0,
    ensures
        env_lookup(s.push(p), k) == env_lookup(s, k),
    decreases s.len(),
{
    if s.len() == 0 {
        assert(s.push(p).drop_first() =~= Seq::<(Seq<char>, Seq<char>)>::empty());
    } else {
        assert(s.push(p).drop_first() =~= s.drop_first().push(p));
        lemma_env_lookup_push_other(s.drop_first(), p, k);
    }
}

impl Clone for EnvVars {
    fn clone(&self) -> (r: Self)
        ensures
            r@ == self@,
    {
        let r = EnvVars { pairs: clone_pairs(&self.pairs) };
        proof {
            assert(r@ =~= self@);
        }
        r
    }
}

/// Copies a vector of string pairs, preserving every element.
fn clone_pairs(v: &Vec<(String, String)>) -> (r: Vec<(String, String)>)
    ensures
        r@ == v@,
{
    let mut r: Vec<(String, String)> = Vec::new();
    let n = v.len();
    let mut i: usize = 0;
    while i < n
        invariant
            n == v@.len(),
            i <= n,
            r@ =~= v@.subrange(0, i as int),
        decreases n - i,
    {
        let p = &v[i];
        r.push((p.0.clone(), p.1.clone()));
        proof {
            assert(r@ =~= v@.subrange(0, i + 1 as int));
        }
        i = i + 1;
    }
    proof {
        assert(r@ =~= v@);
    }
    r
}

/// Copies a vector of strings, preserving every element.
pub fn clone_strings(v: &Vec<String>) -> (r: Vec<String>)
    ensures
        r@ == v@,
        r.deep_view() == v.deep_view(),
{
    let mut r: Vec<String> = Vec::new();
    let n = v.len();
    let mut i: usize = 0;
    while i < n
        invariant
            n == v@.len(),
            i <= n,
            r@ =~= v@.subrange(0, i as int),
        decreases n - i,
    {
        r.push(v[i].clone());
        proof {
            assert(r@ =~= v@.subrange(0, i + 1 as int));
        }
        i = i + 1;
    }
    proof {
        assert(r@ =~= v@);
        assert forall|j: int| 0 <= j < v@.len() implies r.deep_view()[j] == v.deep_view()[j] by {
            assert(r.deep_view()[j] == r@[j]@);
            assert(v.deep_view()[j] == v@[j]@);
        }
        assert(r.deep_view() =~= v.deep_view());
    }
    r
}

/// Copies an optional vector of strings.
pub fn clone_opt_strings(v: &Option<Vec<String>>) -> (r: Option<Vec<String>>)
    ensures
        match r {
            Some(x) => v matches Some(y) && x@ == y@,
            None => v is None,
        },
{
    match v {
        Some(x) => Some(clone_strings(x)),
        None => None,
    }
}

/// Turns borrowed string slices into owned strings, preserving the contents.
pub fn strings_to_owned(v: &Vec<&str>) -> (r: Vec<String>)
    ensures
        r.deep_view() == v.deep_view(),
{
    let mut r: Vec<String> = Vec::new();
    let n = v.len();
    let mut i: usize = 0;
    while i < n
        invariant
            n == v@.len(),
            i <= n,
            r@.len() == i,
            forall|j: int| 0 <= j < i ==> #[trigger] r@[j]@ == v@[j]@,
        decreases n - i,
    {
        let elem: &str = v[i];
        r.push(elem.to_owned());
        i = i + 1;
    }
    proof {
        assert forall|j: int| 0 <= j < n implies r.deep_view()[j] == v.deep_view()[j] by {
            assert(r.deep_view()[j] == r@[j]@);
            assert(v.deep_view()[j] == v@[j]@);
        }
        assert(r.deep_view() =~~= v.deep_view());
    }
    r
}

/// Rebinding the pair at index `i` to a pair with the same key leaves
/// lookups of every other key unchanged.
proof fn lemma_env_lookup_update_other(
    pre: Seq<(Seq<char>, Seq<char>)>,
    i: int,
    p: (Seq<char>, Seq<char>),
    k: Seq<char>,
)
    requires
        0 <= i < pre.len(),
        p.0 == pre[i].0,
        k != pre[i].0,
    ensures
        env_lookup(pre.update(i, p), k) == env_lookup(pre, k),
    decreases pre.len(),
{
    let post = pre.update(i, p);
    if i == 0 {
        assert(post.drop_first() =~= pre.drop_first());
    } else {
        if pre[0].0 != k {
            assert(post.drop_first() =~= pre.drop_first().update(i - 1, p));
            lemma_env_lookup_update_other(pre.drop_first(), i - 1, p, k);
        }
    }
}

/// Mathematical image of a [`JsonProjectConfig`].
pub ghost struct JsonProjectConfigView {
    pub dependencies: Option<Seq<Seq<char>>>,
    pub remappings: Option<Seq<Seq<char>>>,
    pub env_vars: Option<Seq<(Seq<char>, Seq<char>)>>,
}

/// Per-project settings besides the name: extra install arguments, remapping
/// lines, and environment-variable bindings; each optional.
#[derive(Debug)]
pub struct JsonProjectConfig {
    pub dependencies: Option<Vec<String>>,
    pub remappings: Option<Vec<String>>,
    pub env_vars: Option<EnvVars>,
}

impl View for JsonProjectConfig {
    type V = JsonProjectConfigView;

    open spec fn view(&self) -> JsonProjectConfigView {
        JsonProjectConfigView {
            dependencies: self.dependencies.deep_view(),
            remappings: self.remappings.deep_view(),
            env_vars: match self.env_vars {
                Some(e) => Some(e@),
                None => None,
            },
        }
    }
}

/// The settings' environment bindings, when present, have distinct names.
pub open spec fn json_config_wf(v: JsonProjectConfigView) -> bool {
    v.env_vars matches Some(e) ==> env_keys_distinct(e)
}

impl JsonProjectConfig {
    pub open spec fn wf(&self) -> bool {
        json_config_wf(self@)
    }
}

impl Default for JsonProjectConfig {
    /// No dependencies, no remappings, no environment bindings.
    fn default() -> (r: Self)
        ensures
            r@.dependencies is None,
            r@.remappings is None,
            r@.env_vars is None,
            r.wf(),
    {
        JsonProjectConfig { dependencies: None, remappings: None, env_vars: None }
    }
}

impl Clone for JsonProjectConfig {
    fn clone(&self) -> (r: Self)
        ensures
            r@ == self@,
    {
        JsonProjectConfig {
            dependencies: clone_opt_strings(&self.dependencies),
            remappings: clone_opt_strings(&self.remappings),
            env_vars: match &self.env_vars {
                Some(e) => Some(e.clone()),
                None => None,
            },
        }
    }
}

/// Mathematical image of a [`ProjectConfig`].
pub ghost struct ProjectConfigView {
    pub name: Seq<char>,
    pub config: JsonProjectConfigView,
}

/// Configuration of one benchmarkable project: its repository name plus the
/// optional per-project settings.
#[derive(Debug)]
pub struct ProjectConfig {
    pub name: String,
    pub config: JsonProjectConfig,
}

impl View for ProjectConfig {
    type V = ProjectConfigView;

    open spec fn view(&self) -> ProjectConfigView {
        ProjectConfigView { name: self.name@, config: self.config@ }
    }
}

impl DeepView for ProjectConfig {
    type V = ProjectConfigView;

    open spec fn deep_view(&self) -> ProjectConfigView {
        self@
    }
}

impl Clone for ProjectConfig {
    fn clone(&self) -> (r: Self)
        ensures
            r@ == self@,
    {
        ProjectConfig { name: self.name.clone(), config: self.config.clone() }
    }
}

impl ProjectConfig {
    pub open spec fn wf(&self) -> bool {
        json_config_wf(self@.config)
    }

    /// A project with the given repository name and no extra settings.
    pub fn new(name: &str) -> (r: Self)
        ensures
            r@.name == name@,
            r@.config.dependencies is None,
            r@.config.remappings is None,
            r@.config.env_vars is None,
            r.wf(),
    {
        ProjectConfig { name: name.to_owned(), config: JsonProjectConfig::default() }
    }

    /// Replaces the per-project settings wholesale.
    pub fn with_config(self, config: JsonProjectConfig) -> (r: Self)
        ensures
            r@.name == self@.name,
            r@.config == config@,
    {
        ProjectConfig { name: self.name, config }
    }

    /// Sets the dependency-install arguments.
    pub fn with_deps(self, deps: Vec<&str>) -> (r: Self)
        ensures
            r@.name == self@.name,
            r@.config.dependencies == Some(deps.deep_view()),
            r@.config.remappings == self@.config.remappings,
            r@.config.env_vars == self@.config.env_vars,
    {
        let owned = strings_to_owned(&deps);
        ProjectConfig {
            name: self.name,
            config: JsonProjectConfig { dependencies: Some(owned), ..self.config },
        }
    }

    /// Sets the remapping lines.
    pub fn with_remappings(self, remappings: Vec<&str>) -> (r: Self)
        ensures
            r@.name == self@.name,
            r@.config.remappings == Some(remappings.deep_view()),
            r@.config.dependencies == self@.config.dependencies,
            r@.config.env_vars == self@.config.env_vars,
    {
        let owned = strings_to_owned(&remappings);
        ProjectConfig {
            name: self.name,
            config: JsonProjectConfig { remappings: Some(owned), ..self.config },
        }
    }

    /// Sets the environment bindings from parallel name and value lists;
    /// a name given twice keeps its last value.
    pub fn with_env_vars(self, names: Vec<&str>, values: Vec<&str>) -> (r: Self)
        requires
            names@.len() == values@.len(),
        ensures
            r@.name == self@.name,
            r@.config.dependencies == self@.config.dependencies,
            r@.config.remappings == self@.config.remappings,
            r@.config.env_vars matches Some(e) && env_map(e) == zip_env_map(
                names.deep_view(),
                values.deep_view(),
            ),
            r.wf(),
    {
        let mut env = EnvVars::new();
        let n = names.len();
        let mut i: usize = 0;
        while i < n
            invariant
                n == names@.len(),
                names@.len() == values@.len(),
                i <= n,
                env.wf(),
                env_map(env@) =~= zip_env_map(
                    names.deep_view().subrange(0, i as int),
                    values.deep_view().subrange(0, i as int),
                ),
            decreases n - i,
        {
            env.insert(names[i].to_owned(), values[i].to_owned());
            proof {
                let pre_n = names.deep_view().subrange(0, i as int);
                let pre_v = values.deep_view().subrange(0, i as int);
                let post_n = names.deep_view().subrange(0, i + 1 as int);
                let post_v = values.deep_view().subrange(0, i + 1 as int);
                assert(post_n.drop_last() =~= pre_n);
                assert(post_v.drop_last() =~= pre_v);
                assert(env_map(env@) =~= zip_env_map(post_n, post_v));
            }
            i = i + 1;
        }
        proof {
            assert(names.deep_view().subrange(0, n as int) =~= names.deep_view());
            assert(values.deep_view().subrange(0, n as int) =~= values.deep_view());
        }
        ProjectConfig {
            name: self.name,
            config: JsonProjectConfig { env_vars: Some(env), ..self.config },
        }
    }

    /// The project's source URL, derived from its name.
    pub fn url(&self) -> (r: String)
        ensures
            r@ == url_of(self@.name),
    {
        let mut s: String = GITHUB_URL.to_owned();
        s.append("/");
        s.append(self.name.as_str());
        s
    }

    /// The bracketed tag that prefixes this project's log lines.
    pub fn label(&self) -> (r: String)
        ensures
            r@ == "["@ + self@.name + "]"@,
    {
        let mut s: String = "[".to_owned();
        s.append(self.name.as_str());
        s.append("]");
        s
    }

    /// The dependency-install arguments, if configured.
    pub fn dependencies(&self) -> (r: Option<&Vec<String>>)
        ensures
            match r {
                Some(d) => self.config.dependencies == Some(*d),
                None => self.config.dependencies is None,
            },
    {
        self.config.dependencies.as_ref()
    }

    /// The remapping lines, if configured.
    pub fn remappings(&self) -> (r: Option<&Vec<String>>)
        ensures
            match r {
                Some(m) => self.config.remappings == Some(*m),
                None => self.config.remappings is None,
            },
    {
        self.config.remappings.as_ref()
    }

    /// The environment bindings, if configured.
    pub fn env_vars(&self) -> (r: Option<&EnvVars>)
        ensures
            match r {
                Some(e) => self.config.env_vars == Some(*e),
                None => self.config.env_vars is None,
            },
    {
        self.config.env_vars.as_ref()
    }
}

/// The mapping obtained by binding each name to the value at the same
/// position, later positions winning.
pub open spec fn zip_env_map(names: Seq<Seq<char>>, values: Seq<Seq<char>>) -> Map<
    Seq<char>,
    Seq<char>,
>
    decreases names.len(),
{
    if names.len() == 0 {
        Map::empty()
    } else {
        zip_env_map(names.drop_last(), values.drop_last()).insert(names.last(), values.last())
    }
}

} // verus!
