//! The benchmark configuration file: a `custom` and a `defaults` section of
//! global environment bindings, plus one entry per project. The application
//! parses the file's text and hands the structured records to this module,
//! which expands environment references and merges the sections into
//! per-project configurations.

use vstd::prelude::*;

use crate::utils::EnvVars;
use crate::utils::JsonProjectConfig;
use crate::utils::ProjectConfig;
use crate::utils::clone_opt_strings;
use crate::utils::env_keys;
use crate::utils::env_keys_distinct;
use crate::utils::env_map;

verus! {

/// Mathematical image of a [`ProjectConfigToml`].
pub ghost struct ProjectTomlView {
    pub name: Seq<char>,
    pub dependencies: Option<Seq<Seq<char>>>,
    pub remappings: Option<Seq<Seq<char>>>,
    pub env_vars: Option<Seq<(Seq<char>, Seq<char>)>>,
}

/// One project entry of the configuration file.
pub struct ProjectConfigToml {
    pub name: String,
    pub dependencies: Option<Vec<String>>,
    pub remappings: Option<Vec<String>>,
    pub env_vars: Option<EnvVars>,
}

impl View for ProjectConfigToml {
    type V = ProjectTomlView;

    open spec fn view(&self) -> ProjectTomlView {
        ProjectTomlView {
            name: self.name@,
            dependencies: self.dependencies.deep_view(),
            remappings: self.remappings.deep_view(),
            env_vars: match self.env_vars {
                Some(e) => Some(e@),
                None => None,
            },
        }
    }
}

impl DeepView for ProjectConfigToml {
    type V = ProjectTomlView;

    open spec fn deep_view(&self) -> ProjectTomlView {
        self@
    }
}

impl ProjectConfigToml {
    pub open spec fn wf(&self) -> bool {
        self@.env_vars matches Some(e) ==> env_keys_distinct(e)
    }

    /// Expands environment references in this entry's bindings; names, their
    /// order, and the other fields stay as they are.
    pub fn expand_env(&mut self)
        requires
            old(self).wf(),
        ensures
            final(self).wf(),
            final(self)@.name == old(self)@.name,
            final(self)@.dependencies == old(self)@.dependencies,
            final(self)@.remappings == old(self)@.remappings,
            final(self)@.env_vars is Some <==> old(self)@.env_vars is Some,
            match (final(self)@.env_vars, old(self)@.env_vars) {
                (Some(e), Some(p)) => env_keys(e) == env_keys(p),
                _ => true,
            },
    {
        let current = self.env_vars.take();
        match current {
            Some(mut e) => {
                expand_env_map(&mut e);
                self.env_vars = Some(e);
            },
            None => {},
        }
    }
}

/// The `custom` section: optional global environment bindings that apply when
/// no command-line override is given.
pub struct CustomConfig {
    pub env_vars: Option<EnvVars>,
}

impl Default for CustomConfig {
    /// No bindings.
    fn default() -> (r: Self)
        ensures
            r.env_vars is None,
    {
        CustomConfig { env_vars: None }
    }
}

/// The `defaults` section: optional global environment bindings used when the
/// `custom` section is absent or set aside.
pub struct DefaultsConfig {
    pub env_vars: Option<EnvVars>,
}

impl Default for DefaultsConfig {
    /// No bindings.
    fn default() -> (r: Self)
        ensures
            r.env_vars is None,
    {
        DefaultsConfig { env_vars: None }
    }
}

/// Mathematical image of a [`ConfigFile`].
pub ghost struct ConfigFileView {
    pub custom_env: Option<Seq<(Seq<char>, Seq<char>)>>,
    pub defaults_env: Option<Seq<(Seq<char>, Seq<char>)>>,
    pub project: Seq<ProjectTomlView>,
}

/// The whole configuration file.
pub struct ConfigFile {
    pub custom: CustomConfig,
    pub defaults: DefaultsConfig,
    pub project: Vec<ProjectConfigToml>,
}

impl View for ConfigFile {
    type V = ConfigFileView;

    open spec fn view(&self) -> ConfigFileView {
        ConfigFileView {
            custom_env: match self.custom.env_vars {
                Some(e) => Some(e@),
                None => None,
            },
            defaults_env: match self.defaults.env_vars {
                Some(e) => Some(e@),
                None => None,
            },
            project: self.project.deep_view(),
        }
    }
}

impl Default for ConfigFile {
    /// Empty sections and no project entries.
    fn default() -> (r: Self)
        ensures
            r@.custom_env is None,
            r@.defaults_env is None,
            r@.project == Seq::<ProjectTomlView>::empty(),
            r.wf(),
    {
        let r = ConfigFile {
            custom: CustomConfig::default(),
            defaults: DefaultsConfig::default(),
            project: Vec::new(),
        };
        proof {
            assert(r@.project =~= Seq::<ProjectTomlView>::empty());
        }
        r
    }
}

/// The global mapping the file selects: the `custom` section when asked for
/// and present, otherwise the `defaults` section, otherwise nothing.
pub open spec fn global_env_view(c: ConfigFileView, use_custom: bool) -> Map<Seq<char>, Seq<char>> {
    if use_custom && c.custom_env is Some {
        env_map(c.custom_env->0)
    } else if c.defaults_env is Some {
        env_map(c.defaults_env->0)
    } else {
        Map::empty()
    }
}

/// The mapping project `i` ends up with: the global bindings, overridden by
/// the project's own.
pub open spec fn merged_env_view(c: ConfigFileView, use_custom: bool, i: int) -> Map<
    Seq<char>,
    Seq<char>,
> {
    global_env_view(c, use_custom).union_prefer_right(
        match c.project[i].env_vars {
            Some(e) => env_map(e),
            None => Map::empty(),
        },
    )
}

impl ConfigFile {
    pub open spec fn wf(&self) -> bool {
        &&& (self@.custom_env matches Some(e) ==> env_keys_distinct(e))
        &&& (self@.defaults_env matches Some(e) ==> env_keys_distinct(e))
        &&& (forall|i: int|
            0 <= i < self@.project.len() ==> ((#[trigger] self@.project[i].env_vars) matches Some(
                e,
            ) ==> env_keys_distinct(e)))
    }

    /// Whether the `custom` section carries any configuration.
    pub fn has_custom_config(&self) -> (r: bool)
        ensures
            r == (self@.custom_env is Some),
    {
        self.custom.env_vars.is_some()
    }

    /// Expands environment references in every section's and every project's
    /// bindings; the file's structure — which sections and entries are
    /// present, and each binding's name and position — stays as it is.
    pub fn expand_env_vars(&mut self)
        requires
            old(self).wf(),
        ensures
            final(self).wf(),
            final(self)@.custom_env is Some <==> old(self)@.custom_env is Some,
            final(self)@.defaults_env is Some <==> old(self)@.defaults_env is Some,
            match (final(self)@.custom_env, old(self)@.custom_env) {
                (Some(e), Some(p)) => env_keys(e) == env_keys(p),
                _ => true,
            },
            match (final(self)@.defaults_env, old(self)@.defaults_env) {
                (Some(e), Some(p)) => env_keys(e) == env_keys(p),
                _ => true,
            },
            final(self)@.project.len() == old(self)@.project.len(),
            forall|i: int|
                0 <= i < old(self)@.project.len() ==> {
                    let pre = old(self)@.project[i];
                    let post = #[trigger] final(self)@.project[i];
                    &&& post.name == pre.name
                    &&& post.dependencies == pre.dependencies
                    &&& post.remappings == pre.remappings
                    &&& (post.env_vars is Some <==> pre.env_vars is Some)
                    &&& (match (post.env_vars, pre.env_vars) {
                        (Some(e), Some(p)) => env_keys(e) == env_keys(p),
                        _ => true,
                    })
                },
    {
        let custom_env = self.custom.env_vars.take();
        match custom_env {
            Some(mut e) => {
                expand_env_map(&mut e);
                self.custom.env_vars = Some(e);
            },
            None => {},
        }
        let defaults_env = self.defaults.env_vars.take();
        match defaults_env {
            Some(mut e) => {
                expand_env_map(&mut e);
                self.defaults.env_vars = Some(e);
            },
            None => {},
        }
        let ghost pre_projects = self@.project;
        let n = self.project.len();
        let mut remaining: Vec<ProjectConfigToml> = Vec::new();
        core::mem::swap(&mut remaining, &mut self.project);
        let mut updated: Vec<ProjectConfigToml> = Vec::new();
        let mut i: usize = 0;
        while i < n
            invariant
                n == pre_projects.len(),
                i <= n,
                forall|j: int|
                    0 <= j < n ==> ((#[trigger] pre_projects[j].env_vars) matches Some(e)
                        ==> env_keys_distinct(e)),
                remaining@.len() == n - i,
                remaining.deep_view() =~= pre_projects.subrange(i as int, n as int),
                updated@.len() == i,
                forall|j: int|
                    0 <= j < i ==> {
                        let pre = pre_projects[j];
                        let post = (#[trigger] updated@[j])@;
                        &&& post.name == pre.name
                        &&& post.dependencies == pre.dependencies
                        &&& post.remappings == pre.remappings
                        &&& (post.env_vars is Some <==> pre.env_vars is Some)
                        &&& (match (post.env_vars, pre.env_vars) {
                            (Some(e), Some(p)) => env_keys(e) == env_keys(p),
                            _ => true,
                        })
                        &&& updated@[j].wf()
                    },
            decreases n - i,
        {
            let ghost pre_remaining = remaining;
            let mut p = remaining.remove(0);
            proof {
                assert(pre_remaining.deep_view()[0] == pre_remaining@[0].deep_view());
                assert(p@ == pre_projects[i as int]);
                assert forall|k: int| 0 <= k < n - i - 1 implies remaining.deep_view()[k]
                    == pre_projects.subrange(i + 1 as int, n as int)[k] by {
                    assert(remaining@[k] == pre_remaining@[k + 1]);
                    assert(pre_remaining.deep_view()[k + 1] == pre_remaining@[k + 1].deep_view());
                }
                assert(remaining.deep_view() =~= pre_projects.subrange(i + 1 as int, n as int));
                assert(pre_projects[i as int].env_vars matches Some(e) ==> env_keys_distinct(e));
            }
            p.expand_env();
            updated.push(p);
            i = i + 1;
        }
        self.project = updated;
    }

    /// Builds one [`ProjectConfig`] per project entry, merging the selected
    /// global bindings with the entry's own (the entry's winning); the merged
    /// bindings are attached only when the merge is non-empty.
    pub fn to_project_configs(&self, use_custom: bool) -> (r: Vec<ProjectConfig>)
        requires
            self.wf(),
        ensures
            r@.len() == self@.project.len(),
            forall|i: int|
                0 <= i < r@.len() ==> {
                    let proj = self@.project[i];
                    let out = (#[trigger] r@[i])@;
                    &&& out.name == proj.name
                    &&& out.config.dependencies == proj.dependencies
                    &&& out.config.remappings == proj.remappings
                    &&& (match out.config.env_vars {
                        Some(e) => env_map(e) == merged_env_view(self@, use_custom, i)
                            && merged_env_view(self@, use_custom, i) != Map::<Seq<char>, Seq<char>>::empty(),
                        None => merged_env_view(self@, use_custom, i) == Map::<
                            Seq<char>,
                            Seq<char>,
                        >::empty(),
                    })
                    &&& r@[i].wf()
                },
    {
        let global: EnvVars = if use_custom && self.custom.env_vars.is_some() {
            match &self.custom.env_vars {
                Some(e) => e.clone(),
                None => EnvVars::new(),
            }
        } else {
            match &self.defaults.env_vars {
                Some(e) => e.clone(),
                None => EnvVars::new(),
            }
        };
        proof {
            assert(env_map(global@) =~= global_env_view(self@, use_custom));
        }
        let n = self.project.len();
        let mut r: Vec<ProjectConfig> = Vec::new();
        let mut i: usize = 0;
        while i < n
            invariant
                self.wf(),
                n == self@.project.len(),
                i <= n,
                global.wf(),
                env_map(global@) == global_env_view(self@, use_custom),
                r@.len() == i,
                forall|j: int|
                    0 <= j < i ==> {
                        let proj = self@.project[j];
                        let out = (#[trigger] r@[j])@;
                        &&& out.name == proj.name
                        &&& out.config.dependencies == proj.dependencies
                        &&& out.config.remappings == proj.remappings
                        &&& (match out.config.env_vars {
                            Some(e) => env_map(e) == merged_env_view(self@, use_custom, j)
                                && merged_env_view(self@, use_custom, j) != Map::<Seq<char>, Seq<char>>::empty(),
                            None => merged_env_view(self@, use_custom, j) == Map::<
                                Seq<char>,
                                Seq<char>,
                            >::empty(),
                        })
                        &&& r@[j].wf()
                    },
            decreases n - i,
        {
            let proj = &self.project[i];
            proof {
                assert(proj@ == self@.project[i as int]);
            }
            let mut env = global.clone();
            match &proj.env_vars {
                Some(proj_env) => {
                    proof {
                        assert(self@.project[i as int].env_vars == Some(proj_env@));
                        assert(env_keys_distinct(proj_env@));
                    }
                    env.extend(proj_env);
                },
                None => {
                    proof {
                        assert(env_map(env@) =~= merged_env_view(self@, use_custom, i as int));
                    }
                },
            }
            proof {
                assert(env_map(env@) =~= merged_env_view(self@, use_custom, i as int));
            }
            let env_field: Option<EnvVars> = if env.is_empty() {
                proof {
                    assert(env_map(env@) =~= Map::<Seq<char>, Seq<char>>::empty());
                }
                None
            } else {
                proof {
                    crate::utils::lemma_env_first_match(env@, env@[0].0, 0);
                    assert(env_map(env@).dom().contains(env@[0].0));
                }
                Some(env)
            };
            let json_config = JsonProjectConfig {
                dependencies: clone_opt_strings(&proj.dependencies),
                remappings: clone_opt_strings(&proj.remappings),
                env_vars: env_field,
            };
            r.push(ProjectConfig { name: proj.name.clone(), config: json_config });
            i = i + 1;
        }
        r
    }
}

/// Relies on `shellexpand::env`: substitutes `$VAR` and `${VAR}` references
/// from the process environment, so the result depends on that environment;
/// a failed lookup reports an error.
#[verifier::external_body]
fn expand_env_value(value: &String) -> (r: Option<String>) {
    match shellexpand::env(value.as_str()) {
        Ok(expanded) => Some(expanded.into_owned()),
        Err(_) => None,
    }
}

/// Replaces every value by its environment expansion, keeping a value as
/// written where expansion fails; the names and their order stay.
fn expand_env_map(env: &mut EnvVars)
    requires
        old(env).wf(),
    ensures
        final(env).wf(),
        env_keys(final(env)@) == env_keys(old(env)@),
{
    let n = env.len();
    let mut i: usize = 0;
    while i < n
        invariant
            env.wf(),
            n == env@.len(),
            i <= n,
            env@.len() == old(env)@.len(),
            forall|j: int| 0 <= j < n ==> (#[trigger] env@[j]).0 == old(env)@[j].0,
        decreases n - i,
    {
        let value = env.pair_at(i).1.clone();
        let expanded = match expand_env_value(&value) {
            Some(e) => e,
            None => value,
        };
        env.set_value(i, expanded);
        i = i + 1;
    }
    proof {
        assert(env_keys(env@) =~= env_keys(old(env)@));
    }
}

} // verus!
