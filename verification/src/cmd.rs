//! The command-line surface: the flag record the argument parser fills in,
//! and the rules that turn it, together with the configuration file, into
//! the list of projects to benchmark.
//!
//! Priority order: per-project `--repo` specifications win over `--repos`
//! with global overrides, which win over the file's `custom` section, which
//! wins over its `defaults` section.

use vstd::prelude::*;
use vstd::string::StrSliceExecFns;

use crate::benchmark::Source;
use crate::benchmark::SourceView;
use crate::config::ConfigFile;
use crate::config::ConfigFileView;
use crate::config::ProjectTomlView;
use crate::config::merged_env_view;
use crate::utils::EnvVars;
use crate::utils::JsonProjectConfig;
use crate::utils::JsonProjectConfigView;
use crate::utils::ProjectConfig;
use crate::utils::ProjectConfigView;
use crate::utils::env_keys_distinct;
use crate::utils::env_map;
use crate::utils::str_eq;

verus! {

/// `c` occurs at position `i` and nowhere earlier.
pub open spec fn first_index_of(s: Seq<char>, c: char, i: int) -> bool {
    &&& 0 <= i < s.len()
    &&& s[i] == c
    &&& forall|j: int| 0 <= j < i ==> s[j] != c
}

/// `c` occurs somewhere in `s`.
pub open spec fn contains_char(s: Seq<char>, c: char) -> bool {
    exists|i: int| 0 <= i < s.len() && s[i] == c
}

/// The text before and after the first occurrence of `c`.
pub open spec fn split_first(s: Seq<char>, c: char) -> (Seq<char>, Seq<char>) {
    let i = choose|i: int| first_index_of(s, c, i);
    (s.subrange(0, i), s.subrange(i + 1, s.len() as int))
}

/// The first occurrence is the only position satisfying `first_index_of`.
proof fn lemma_first_index_unique(s: Seq<char>, c: char, i: int, j: int)
    requires
        first_index_of(s, c, i),
        first_index_of(s, c, j),
    ensures
        i == j,
{
}

/// Splits at the first occurrence of `sep`, or reports that there is none.
pub fn split_at_first(s: &str, sep: char) -> (r: Option<(String, String)>)
    ensures
        match r {
            Some(parts) => contains_char(s@, sep) && (parts.0@, parts.1@) == split_first(s@, sep),
            None => !contains_char(s@, sep),
        },
{
    let n = s.unicode_len();
    let mut i: usize = 0;
    while i < n
        invariant
            n == s@.len(),
            i <= n,
            forall|j: int| 0 <= j < i ==> s@[j] != sep,
        decreases n - i,
    {
        if s.get_char(i) == sep {
            let before = s.substring_char(0, i);
            let after = s.substring_char(i + 1, n);
            proof {
                assert(first_index_of(s@, sep, i as int));
                let k = choose|k: int| first_index_of(s@, sep, k);
                lemma_first_index_unique(s@, sep, i as int, k);
            }
            return Some((before.to_owned(), after.to_owned()));
        }
        i = i + 1;
    }
    proof {
        assert(!contains_char(s@, sep));
    }
    None
}

/// The mapping the `KEY=VALUE` pairs denote, later pairs winning.
pub open spec fn env_pairs_map(pairs: Seq<Seq<char>>) -> Map<Seq<char>, Seq<char>>
    decreases pairs.len(),
{
    if pairs.len() == 0 {
        Map::empty()
    } else {
        let sp = split_first(pairs.last(), '=');
        env_pairs_map(pairs.drop_last()).insert(sp.0, sp.1)
    }
}

/// Parses `KEY=VALUE` pairs into environment bindings, splitting each pair
/// at its first equals sign; a pair without one is rejected.
pub fn parse_env_pairs(pairs: &Vec<String>) -> (r: Result<EnvVars, String>)
    ensures
        r is Ok <==> (forall|i: int|
            0 <= i < pairs.deep_view().len() ==> contains_char(
                #[trigger] pairs.deep_view()[i],
                '=',
            )),
        r matches Ok(env) ==> env.wf() && env_map(env@) == env_pairs_map(pairs.deep_view()),
        r matches Err(m) ==> exists|i: int|
            {
                &&& 0 <= i < pairs.deep_view().len()
                &&& !contains_char(#[trigger] pairs.deep_view()[i], '=')
                &&& (forall|j: int| 0 <= j < i ==> contains_char(pairs.deep_view()[j], '='))
                &&& m@ == "Invalid environment variable format: '"@ + pairs.deep_view()[i]
                    + "'. Expected KEY=VALUE"@
            },
{
    let ghost pairs_view = pairs.deep_view();
    let n = pairs.len();
    let mut env = EnvVars::new();
    let mut i: usize = 0;
    proof {
        assert(env_map(env@) =~= env_pairs_map(pairs_view.subrange(0, 0)));
    }
    while i < n
        invariant
            pairs_view == pairs.deep_view(),
            n == pairs_view.len(),
            i <= n,
            env.wf(),
            env_map(env@) == env_pairs_map(pairs_view.subrange(0, i as int)),
            forall|j: int| 0 <= j < i ==> contains_char(#[trigger] pairs_view[j], '='),
        decreases n - i,
    {
        proof {
            assert(pairs_view[i as int] == pairs@[i as int]@);
        }
        match split_at_first(pairs[i].as_str(), '=') {
            Some(parts) => {
                env.insert(parts.0, parts.1);
                proof {
                    let pre = pairs_view.subrange(0, i as int);
                    let post = pairs_view.subrange(0, i + 1 as int);
                    assert(post.drop_last() =~= pre);
                    assert(post.last() == pairs_view[i as int]);
                    assert(env_map(env@) =~= env_pairs_map(post));
                }
            },
            None => {
                let mut msg: String = "Invalid environment variable format: '".to_owned();
                msg.append(pairs[i].as_str());
                msg.append("'. Expected KEY=VALUE");
                return Err(msg);
            },
        }
        i = i + 1;
    }
    proof {
        assert(pairs_view.subrange(0, n as int) =~= pairs_view);
    }
    Ok(env)
}

/// First configuration bearing `name` in the sequence, if any.
pub open spec fn cfg_lookup(s: Seq<ProjectConfigView>, name: Seq<char>) -> Option<
    ProjectConfigView,
>
    decreases s.len(),
{
    if s.len() == 0 {
        None
    } else if s[0].name == name {
        Some(s[0])
    } else {
        cfg_lookup(s.drop_first(), name)
    }
}

/// No two configurations share a name.
pub open spec fn cfg_names_distinct(s: Seq<ProjectConfigView>) -> bool {
    forall|i: int, j: int| 0 <= i < j < s.len() ==> s[i].name != s[j].name
}

/// If no configuration before index `i` bears `name` and the one at `i`
/// does, the lookup returns it.
proof fn lemma_cfg_lookup_at(s: Seq<ProjectConfigView>, name: Seq<char>, i: int)
    requires
        0 <= i < s.len(),
        s[i].name == name,
        forall|j: int| 0 <= j < i ==> s[j].name != name,
    ensures
        cfg_lookup(s, name) == Some(s[i]),
    decreases i,
{
    if i > 0 {
        lemma_cfg_lookup_at(s.drop_first(), name, i - 1);
    }
}

/// If no configuration bears `name`, the lookup fails.
proof fn lemma_cfg_lookup_none(s: Seq<ProjectConfigView>, name: Seq<char>)
    requires
        forall|j: int| 0 <= j < s.len() ==> s[j].name != name,
    ensures
        cfg_lookup(s, name) is None,
    decreases s.len(),
{
    if s.len() > 0 {
        lemma_cfg_lookup_none(s.drop_first(), name);
    }
}

/// With distinct names, looking an element's name up yields that element.
pub proof fn lemma_cfg_lookup_self(s: Seq<ProjectConfigView>, k: int)
    requires
        cfg_names_distinct(s),
        0 <= k < s.len(),
    ensures
        cfg_lookup(s, s[k].name) == Some(s[k]),
{
    lemma_cfg_lookup_at(s, s[k].name, k);
}

/// Rebinding index `i` to a configuration with the same name leaves lookups
/// of every other name unchanged.
proof fn lemma_cfg_lookup_update_other(
    s: Seq<ProjectConfigView>,
    i: int,
    c: ProjectConfigView,
    name: Seq<char>,
)
    requires
        0 <= i < s.len(),
        c.name == s[i].name,
        name != s[i].name,
    ensures
        cfg_lookup(s.update(i, c), name) == cfg_lookup(s, name),
    decreases s.len(),
{
    let post = s.update(i, c);
    if i == 0 {
        assert(post.drop_first() =~= s.drop_first());
    } else {
        if s[0].name != name {
            assert(post.drop_first() =~= s.drop_first().update(i - 1, c));
            lemma_cfg_lookup_update_other(s.drop_first(), i - 1, c, name);
        }
    }
}

/// Appending a configuration leaves lookups of other names unchanged.
proof fn lemma_cfg_lookup_push_other(s: Seq<ProjectConfigView>, c: ProjectConfigView, name: Seq<char>)
    requires
        name != c.name,
    ensures
        cfg_lookup(s.push(c), name) == cfg_lookup(s, name),
    decreases s.len(),
{
    if s.len() == 0 {
        assert(s.push(c).drop_first() =~= Seq::<ProjectConfigView>::empty());
        assert(s.push(c)[0] == c);
        assert(cfg_lookup(s.push(c).drop_first(), name) is None);
    } else {
        assert(s.push(c).drop_first() =~= s.drop_first().push(c));
        assert(s.push(c)[0] == s[0]);
        lemma_cfg_lookup_push_other(s.drop_first(), c, name);
    }
}

/// Index of the configuration bearing `name`, if any.
fn cfg_find(list: &Vec<ProjectConfig>, name: &str) -> (r: Option<usize>)
    ensures
        match r {
            Some(i) => i < list.deep_view().len() && list.deep_view()[i as int].name == name@,
            None => cfg_lookup(list.deep_view(), name@) is None,
        },
{
    let n = list.len();
    let mut i: usize = 0;
    while i < n
        invariant
            n == list@.len(),
            i <= n,
            forall|j: int| 0 <= j < i ==> list.deep_view()[j].name != name@,
        decreases n - i,
    {
        proof {
            assert(list.deep_view()[i as int] == list@[i as int]@);
        }
        if str_eq(list[i].name.as_str(), name) {
            return Some(i);
        }
        i = i + 1;
    }
    proof {
        lemma_cfg_lookup_none(list.deep_view(), name@);
    }
    None
}

/// A borrowed view of the configuration bearing `name`, if any.
fn cfg_get<'a>(list: &'a Vec<ProjectConfig>, name: &str) -> (r: Option<&'a ProjectConfig>)
    ensures
        match r {
            Some(c) => cfg_lookup(list.deep_view(), name@) == Some(c@),
            None => cfg_lookup(list.deep_view(), name@) is None,
        },
{
    let n = list.len();
    let mut i: usize = 0;
    while i < n
        invariant
            n == list@.len(),
            i <= n,
            forall|j: int| 0 <= j < i ==> list.deep_view()[j].name != name@,
        decreases n - i,
    {
        proof {
            assert(list.deep_view()[i as int] == list@[i as int]@);
        }
        if str_eq(list[i].name.as_str(), name) {
            proof {
                lemma_cfg_lookup_at(list.deep_view(), name@, i as int);
            }
            return Some(&list[i]);
        }
        i = i + 1;
    }
    proof {
        lemma_cfg_lookup_none(list.deep_view(), name@);
    }
    None
}

/// Binds `c` under its name, replacing the configuration already bearing it
/// or appending.
fn cfg_upsert(list: &mut Vec<ProjectConfig>, c: ProjectConfig)
    requires
        cfg_names_distinct(old(list).deep_view()),
    ensures
        cfg_names_distinct(final(list).deep_view()),
        cfg_lookup(final(list).deep_view(), c@.name) == Some(c@),
        forall|nm: Seq<char>|
            nm != c@.name ==> #[trigger] cfg_lookup(final(list).deep_view(), nm) == cfg_lookup(
                old(list).deep_view(),
                nm,
            ),
{
    let ghost pre = list.deep_view();
    let found = cfg_find(list, c.name.as_str());
    match found {
        Some(i) => {
            let ghost cv = c@;
            list[i] = c;
            proof {
                assert forall|k: int| 0 <= k < list@.len() implies list.deep_view()[k]
                    == pre.update(i as int, cv)[k] by {
                    assert(list.deep_view()[k] == list@[k]@);
                    if k != i {
                        assert(pre[k] == old(list)@[k]@);
                    }
                }
                assert(list.deep_view() =~= pre.update(i as int, cv));
                assert forall|k: int| 0 <= k < i implies pre[k].name != cv.name by {}
                lemma_cfg_lookup_at(list.deep_view(), cv.name, i as int);
                assert forall|nm: Seq<char>| nm != cv.name implies #[trigger] cfg_lookup(
                    list.deep_view(),
                    nm,
                ) == cfg_lookup(pre, nm) by {
                    lemma_cfg_lookup_update_other(pre, i as int, cv, nm);
                }
            }
        },
        None => {
            let ghost cv = c@;
            proof {
                assert forall|k: int| 0 <= k < pre.len() implies pre[k].name != cv.name by {
                    if pre[k].name == cv.name {
                        lemma_cfg_lookup_at(pre, cv.name, choose|m: int|
                            0 <= m <= k && pre[m].name == cv.name && forall|j: int|
                                0 <= j < m ==> pre[j].name != cv.name);
                    }
                }
            }
            list.push(c);
            proof {
                assert forall|k: int| 0 <= k < list@.len() implies list.deep_view()[k]
                    == pre.push(cv)[k] by {
                    assert(list.deep_view()[k] == list@[k]@);
                    if k < list@.len() - 1 {
                        assert(pre[k] == old(list)@[k]@);
                    }
                }
                assert(list.deep_view() =~= pre.push(cv));
                lemma_cfg_lookup_at(list.deep_view(), cv.name, pre.len() as int);
                assert forall|nm: Seq<char>| nm != cv.name implies #[trigger] cfg_lookup(
                    list.deep_view(),
                    nm,
                ) == cfg_lookup(pre, nm) by {
                    lemma_cfg_lookup_push_other(pre, cv, nm);
                }
            }
        },
    }
}

/// Index of the last file entry bearing `name`, `-1` when there is none.
pub open spec fn last_project_index(projects: Seq<ProjectTomlView>, name: Seq<char>) -> int
    decreases projects.len(),
{
    if projects.len() == 0 {
        -1
    } else if projects.last().name == name {
        projects.len() - 1
    } else {
        last_project_index(projects.drop_last(), name)
    }
}

/// The last-entry index is in range and names the entry it points at.
pub proof fn lemma_last_project_index(projects: Seq<ProjectTomlView>, name: Seq<char>)
    ensures
        -1 <= last_project_index(projects, name) < projects.len(),
        last_project_index(projects, name) >= 0 ==> projects[last_project_index(
            projects,
            name,
        )].name == name,
        last_project_index(projects, name) == -1 ==> forall|j: int|
            0 <= j < projects.len() ==> (#[trigger] projects[j]).name != name,
    decreases projects.len(),
{
    if projects.len() > 0 {
        lemma_last_project_index(projects.drop_last(), name);
        if projects.last().name != name && last_project_index(projects, name) == -1 {
            assert forall|j: int| 0 <= j < projects.len() implies (#[trigger] projects[j]).name
                != name by {
                if j < projects.len() - 1 {
                    assert(projects.drop_last()[j] == projects[j]);
                }
            }
        }
    }
}

/// `out` is what the file yields for entry `i`: the entry's name,
/// dependencies and remappings, and the merged environment bindings — the
/// selected global section overridden by the entry's own — attached exactly
/// when that merge is non-empty.
pub open spec fn matches_file_config(
    out: ProjectConfigView,
    c: ConfigFileView,
    use_custom: bool,
    i: int,
) -> bool {
    &&& out.name == c.project[i].name
    &&& out.config.dependencies == c.project[i].dependencies
    &&& out.config.remappings == c.project[i].remappings
    &&& (match out.config.env_vars {
        Some(e) => env_map(e) == merged_env_view(c, use_custom, i) && merged_env_view(
            c,
            use_custom,
            i,
        ) != Map::<Seq<char>, Seq<char>>::empty(),
        None => merged_env_view(c, use_custom, i) == Map::<Seq<char>, Seq<char>>::empty(),
    })
}

/// Mathematical image of a [`RepoSpec`].
pub ghost struct RepoSpecView {
    pub name: Seq<char>,
    pub config: Option<JsonProjectConfigView>,
}

/// One `--repo` argument, already taken apart: the repository name and, when
/// the argument carried a configuration after a colon, that configuration.
pub struct RepoSpec {
    pub name: String,
    pub config: Option<JsonProjectConfig>,
}

impl View for RepoSpec {
    type V = RepoSpecView;

    open spec fn view(&self) -> RepoSpecView {
        RepoSpecView {
            name: self.name@,
            config: match self.config {
                Some(c) => Some(c@),
                None => None,
            },
        }
    }
}

impl DeepView for RepoSpec {
    type V = RepoSpecView;

    open spec fn deep_view(&self) -> RepoSpecView {
        self@
    }
}

/// Splits one `--repo` argument at its first colon into the repository name
/// and the optional configuration text.
pub fn split_repo_spec(spec: &str) -> (r: (String, Option<String>))
    ensures
        match r.1 {
            Some(json) => contains_char(spec@, ':') && (r.0@, json@) == split_first(spec@, ':'),
            None => !contains_char(spec@, ':') && r.0@ == spec@,
        },
{
    match split_at_first(spec, ':') {
        Some(parts) => (parts.0, Some(parts.1)),
        None => (spec.to_owned(), None),
    }
}

/// `out` is the file's configuration for `name` — its last entry with that
/// name — or, when the file has none, a fresh configuration with no
/// settings.
pub open spec fn base_config_for(
    out: ProjectConfigView,
    c: ConfigFileView,
    use_custom: bool,
    name: Seq<char>,
) -> bool {
    let j = last_project_index(c.project, name);
    &&& out.name == name
    &&& (if j >= 0 {
        matches_file_config(out, c, use_custom, j)
    } else {
        &&& out.config.dependencies is None
        &&& out.config.remappings is None
        &&& out.config.env_vars is None
    })
}

/// `out` is the configuration selected for `name` under the global
/// command-line overrides: each override replaces the corresponding field of
/// the file's configuration for that name.
pub open spec fn selected_config(
    out: ProjectConfigView,
    c: ConfigFileView,
    use_custom: bool,
    name: Seq<char>,
    deps: Option<Seq<Seq<char>>>,
    remappings: Option<Seq<Seq<char>>>,
    env_pairs: Option<Seq<Seq<char>>>,
) -> bool {
    let j = last_project_index(c.project, name);
    &&& out.name == name
    &&& (match deps {
        Some(d) => out.config.dependencies == Some(d),
        None => out.config.dependencies == (if j >= 0 {
            c.project[j].dependencies
        } else {
            Option::<Seq<Seq<char>>>::None
        }),
    })
    &&& (match remappings {
        Some(m) => out.config.remappings == Some(m),
        None => out.config.remappings == (if j >= 0 {
            c.project[j].remappings
        } else {
            Option::<Seq<Seq<char>>>::None
        }),
    })
    &&& (match env_pairs {
        Some(ps) => out.config.env_vars matches Some(e) && env_keys_distinct(e) && env_map(e)
            == env_pairs_map(ps),
        None => if j >= 0 {
            match out.config.env_vars {
                Some(e) => env_map(e) == merged_env_view(c, use_custom, j) && merged_env_view(
                    c,
                    use_custom,
                    j,
                ) != Map::<Seq<char>, Seq<char>>::empty(),
                None => merged_env_view(c, use_custom, j) == Map::<Seq<char>, Seq<char>>::empty(),
            }
        } else {
            out.config.env_vars is None
        },
    })
}

/// `out` is one `--repo` specification resolved against the file: the
/// specification's own fields win, the file's configuration for the name —
/// with the `defaults` section — fills what they leave open.
pub open spec fn repo_spec_config(
    out: ProjectConfigView,
    c: ConfigFileView,
    sv: RepoSpecView,
) -> bool {
    let j = last_project_index(c.project, sv.name);
    let json = match sv.config {
        Some(jc) => jc,
        None => JsonProjectConfigView { dependencies: None, remappings: None, env_vars: None },
    };
    &&& out.name == sv.name
    &&& out.config.dependencies == (if json.dependencies is Some {
        json.dependencies
    } else if j >= 0 {
        c.project[j].dependencies
    } else {
        Option::<Seq<Seq<char>>>::None
    })
    &&& out.config.remappings == (if json.remappings is Some {
        json.remappings
    } else if j >= 0 {
        c.project[j].remappings
    } else {
        Option::<Seq<Seq<char>>>::None
    })
    &&& (if json.env_vars is Some {
        out.config.env_vars == json.env_vars
    } else if j >= 0 {
        match out.config.env_vars {
            Some(e) => env_map(e) == merged_env_view(c, false, j) && merged_env_view(c, false, j)
                != Map::<Seq<char>, Seq<char>>::empty(),
            None => merged_env_view(c, false, j) == Map::<Seq<char>, Seq<char>>::empty(),
        }
    } else {
        out.config.env_vars is None
    })
}

/// Folds the file's project list into a name-keyed index, a later entry
/// replacing an earlier one of the same name.
fn build_config_index(file_config: &ConfigFile, use_custom: bool) -> (r: Vec<ProjectConfig>)
    requires
        file_config.wf(),
    ensures
        cfg_names_distinct(r.deep_view()),
        forall|nm: Seq<char>|
            {
                let j = last_project_index(file_config@.project, nm);
                &&& ((#[trigger] cfg_lookup(r.deep_view(), nm)) is Some <==> j >= 0)
                &&& (cfg_lookup(r.deep_view(), nm) matches Some(out) ==> j >= 0
                    && matches_file_config(out, file_config@, use_custom, j))
            },
{
    let ghost cv = file_config@;
    let file_configs = file_config.to_project_configs(use_custom);
    let ghost fc_view = file_configs.deep_view();
    let n = file_configs.len();
    let mut remaining = file_configs;
    let mut base: Vec<ProjectConfig> = Vec::new();
    let mut i: usize = 0;
    proof {
        assert(base.deep_view() =~= Seq::<ProjectConfigView>::empty());
    }
    while i < n
        invariant
            cv == file_config@,
            file_config.wf(),
            n == cv.project.len(),
            fc_view.len() == n,
            i <= n,
            remaining@.len() == n - i,
            remaining.deep_view() =~= fc_view.subrange(i as int, n as int),
            forall|k: int|
                0 <= k < n ==> matches_file_config(#[trigger] fc_view[k], cv, use_custom, k),
            cfg_names_distinct(base.deep_view()),
            forall|nm: Seq<char>|
                {
                    let j = last_project_index(cv.project.subrange(0, i as int), nm);
                    &&& ((#[trigger] cfg_lookup(base.deep_view(), nm)) is Some <==> j >= 0)
                    &&& (cfg_lookup(base.deep_view(), nm) matches Some(out) ==> j >= 0
                        && matches_file_config(out, cv, use_custom, j))
                },
        decreases n - i,
    {
        let ghost pre_remaining = remaining.deep_view();
        let ghost pre_base = base.deep_view();
        let c = crate::benchmark::take_first(&mut remaining);
        proof {
            assert(pre_remaining[0] == fc_view[i as int]);
            assert(pre_remaining.drop_first() =~= fc_view.subrange(i + 1 as int, n as int));
            assert(matches_file_config(c@, cv, use_custom, i as int));
        }
        cfg_upsert(&mut base, c);
        proof {
            let pre_prefix = cv.project.subrange(0, i as int);
            let post_prefix = cv.project.subrange(0, i + 1 as int);
            assert(post_prefix.drop_last() =~= pre_prefix);
            assert(post_prefix.last() == cv.project[i as int]);
            assert(c@.name == cv.project[i as int].name);
            assert forall|nm: Seq<char>|
                {
                    let j = last_project_index(post_prefix, nm);
                    &&& ((#[trigger] cfg_lookup(base.deep_view(), nm)) is Some <==> j >= 0)
                    &&& (cfg_lookup(base.deep_view(), nm) matches Some(out) ==> j >= 0
                        && matches_file_config(out, cv, use_custom, j))
                } by {
                if nm == c@.name {
                    assert(last_project_index(post_prefix, nm) == i as int);
                    assert(cfg_lookup(base.deep_view(), nm) == Some(c@));
                } else {
                    assert(cfg_lookup(base.deep_view(), nm) == cfg_lookup(pre_base, nm));
                    assert(last_project_index(post_prefix, nm) == last_project_index(
                        pre_prefix,
                        nm,
                    ));
                }
            }
        }
        i = i + 1;
    }
    proof {
        assert(cv.project.subrange(0, n as int) =~= cv.project);
    }
    base
}

/// The reference Foundry source choice: a version or a branch.
pub struct ReferenceSource {
    pub ref_version: Option<String>,
    pub ref_branch: Option<String>,
}

/// The comparison Foundry source choice: a version or a branch.
pub struct ComparisonSource {
    pub vs_version: Option<String>,
    pub vs_branch: Option<String>,
}

/// The `diff` subcommand's arguments.
pub struct DiffConfig {
    pub reference_source: ReferenceSource,
    pub comparison_source: ComparisonSource,
    pub foundry_repo: String,
}

/// The subcommands.
pub enum Commands {
    Diff(DiffConfig),
}

/// The command-line flags, as the argument parser hands them over.
pub struct Cli {
    pub repos: Option<Vec<String>>,
    pub config: Option<String>,
    pub repo: Option<Vec<RepoSpec>>,
    pub deps: Option<Vec<String>>,
    pub remappings: Option<Vec<String>>,
    pub env: Option<Vec<String>>,
    pub num_runs: usize,
    pub verbosity: u8,
    pub command: Option<Commands>,
}

/// The source a version/branch option pair selects, if exactly one of the
/// two is given.
pub open spec fn pick_source(version: Option<Seq<char>>, branch: Option<Seq<char>>) -> Option<
    SourceView,
> {
    match (version, branch) {
        (Some(v), None) => Some(SourceView::Version(v)),
        (None, Some(b)) => Some(SourceView::Branch(b)),
        _ => None,
    }
}

impl Cli {
    /// Whether any global command-line override is present.
    pub open spec fn spec_has_cli_overrides(&self) -> bool {
        ||| self.repos is Some
        ||| self.deps is Some
        ||| self.remappings is Some
        ||| self.env is Some
    }

    /// The list of projects to benchmark.
    ///
    /// Priority order: `--repo` specifications first; then the file's
    /// entries, under the `custom` section only when no command-line
    /// override is present, selected and overridden by `--repos`, `--deps`,
    /// `--remappings` and `--env` when given; otherwise the file's entries
    /// as they are, a repeated name keeping its last entry.
    pub fn get_repos(&self, file_config: &ConfigFile) -> (r: Result<Vec<ProjectConfig>, String>)
        requires
            file_config.wf(),
        ensures
            self.repo matches Some(specs) ==> (r matches Ok(list) && list@.len() == specs@.len()
                && (forall|k: int|
                0 <= k < specs@.len() ==> repo_spec_config(
                    #[trigger] list.deep_view()[k],
                    file_config@,
                    specs.deep_view()[k],
                ))),
            self.repo is None ==> match self.repos {
                Some(names) => {
                    let uc = file_config@.custom_env is Some && !self.spec_has_cli_overrides();
                    &&& ((r is Err) <==> (names@.len() > 0 && (match self.env {
                        Some(ps) => exists|i: int|
                            {
                                &&& 0 <= i < ps.deep_view().len()
                                &&& !contains_char(#[trigger] ps.deep_view()[i], '=')
                            },
                        None => false,
                    })))
                    &&& (r matches Ok(list) ==> list@.len() == names@.len() && (forall|k: int|
                        0 <= k < names@.len() ==> selected_config(
                            #[trigger] list.deep_view()[k],
                            file_config@,
                            uc,
                            names.deep_view()[k],
                            self.deps.deep_view(),
                            self.remappings.deep_view(),
                            self.env.deep_view(),
                        )))
                },
                None => r matches Ok(list) && {
                    let uc = file_config@.custom_env is Some && !self.spec_has_cli_overrides();
                    &&& cfg_names_distinct(list.deep_view())
                    &&& (forall|nm: Seq<char>|
                        {
                            let j = last_project_index(file_config@.project, nm);
                            &&& ((#[trigger] cfg_lookup(list.deep_view(), nm)) is Some <==> j >= 0)
                            &&& (cfg_lookup(list.deep_view(), nm) matches Some(out) ==> j >= 0
                                && matches_file_config(out, file_config@, uc, j))
                        })
                    &&& (forall|k: int|
                        0 <= k < list.deep_view().len() ==> {
                            let out = #[trigger] list.deep_view()[k];
                            let j = last_project_index(file_config@.project, out.name);
                            j >= 0 && matches_file_config(out, file_config@, uc, j)
                        })
                },
            },
    {
        match &self.repo {
            Some(specs) => {
                return Ok(self.parse_project_config(specs, file_config));
            },
            None => {},
        }
        let has_cli_overrides = self.repos.is_some() || self.deps.is_some()
            || self.remappings.is_some() || self.env.is_some();
        let use_custom = file_config.has_custom_config() && !has_cli_overrides;
        let base = build_config_index(file_config, use_custom);
        match &self.repos {
            Some(repo_names) => {
                let ghost names_view = repo_names.deep_view();
                let n = repo_names.len();
                let mut selected: Vec<ProjectConfig> = Vec::new();
                let mut i: usize = 0;
                while i < n
                    invariant
                        names_view == repo_names.deep_view(),
                        file_config.wf(),
                        n == names_view.len(),
                        i <= n,
                        use_custom == (file_config@.custom_env is Some
                            && !self.spec_has_cli_overrides()),
                        self.repo is None,
                        self.repos matches Some(ns) && ns.deep_view() == names_view,
                        names_view.len() == n,
                        cfg_names_distinct(base.deep_view()),
                        forall|nm: Seq<char>|
                            {
                                let j = last_project_index(file_config@.project, nm);
                                &&& ((#[trigger] cfg_lookup(base.deep_view(), nm)) is Some <==> j
                                    >= 0)
                                &&& (cfg_lookup(base.deep_view(), nm) matches Some(out) ==> j >= 0
                                    && matches_file_config(out, file_config@, use_custom, j))
                            },
                        i > 0 ==> (match self.env {
                            Some(ps) => forall|m: int|
                                0 <= m < ps.deep_view().len() ==> contains_char(
                                    #[trigger] ps.deep_view()[m],
                                    '=',
                                ),
                            None => true,
                        }),
                        selected@.len() == i,
                        forall|k: int|
                            0 <= k < i ==> selected_config(
                                #[trigger] selected.deep_view()[k],
                                file_config@,
                                use_custom,
                                names_view[k],
                                self.deps.deep_view(),
                                self.remappings.deep_view(),
                                self.env.deep_view(),
                            ),
                    decreases n - i,
                {
                    let name = &repo_names[i];
                    proof {
                        assert(name@ == names_view[i as int]);
                        lemma_last_project_index(file_config@.project, name@);
                    }
                    let mut config: ProjectConfig = match cfg_get(&base, name.as_str()) {
                        Some(c) => c.clone(),
                        None => {
                            proof {
                                lemma_last_project_index(file_config@.project, name@);
                            }
                            ProjectConfig::new(name.as_str())
                        },
                    };
                    match &self.deps {
                        Some(deps) => {
                            config.config.dependencies = Some(crate::utils::clone_strings(deps));
                            proof {
                                assert(config@.config.dependencies == Some(
                                    self.deps.deep_view()->0,
                                ));
                            }
                        },
                        None => {},
                    }
                    match &self.remappings {
                        Some(remappings) => {
                            config.config.remappings = Some(
                                crate::utils::clone_strings(remappings),
                            );
                            proof {
                                assert(config@.config.remappings == Some(
                                    self.remappings.deep_view()->0,
                                ));
                            }
                        },
                        None => {},
                    }
                    match &self.env {
                        Some(env_pairs) => {
                            match parse_env_pairs(env_pairs) {
                                Ok(e) => {
                                    config.config.env_vars = Some(e);
                                },
                                Err(m) => {
                                    return Err(m);
                                },
                            }
                        },
                        None => {},
                    }
                    crate::benchmark::push_elem(&mut selected, config);
                    i = i + 1;
                }
            Ok(selected)
            },
            None => {
                proof {
                    assert forall|k: int| 0 <= k < base.deep_view().len() implies {
                        let out = #[trigger] base.deep_view()[k];
                        let j = last_project_index(file_config@.project, out.name);
                        j >= 0 && matches_file_config(out, file_config@, use_custom, j)
                    } by {
                        lemma_cfg_lookup_self(base.deep_view(), k);
                    }
                }
                Ok(base)
            },
        }
    }

    /// Resolves `--repo` specifications against the file: each
    /// specification's own fields win, and the file's entry for the name —
    /// always with the `defaults` section — fills what they leave open.
    pub fn parse_project_config(&self, specs: &Vec<RepoSpec>, file_config: &ConfigFile) -> (r: Vec<
        ProjectConfig,
    >)
        requires
            file_config.wf(),
        ensures
            r@.len() == specs@.len(),
            forall|k: int|
                0 <= k < specs@.len() ==> repo_spec_config(
                    #[trigger] r.deep_view()[k],
                    file_config@,
                    specs.deep_view()[k],
                ),
    {
        let ghost specs_view = specs.deep_view();
        let base = build_config_index(file_config, false);
        let n = specs.len();
        let mut result: Vec<ProjectConfig> = Vec::new();
        let mut i: usize = 0;
        while i < n
            invariant
                specs_view == specs.deep_view(),
                file_config.wf(),
                n == specs_view.len(),
                i <= n,
                cfg_names_distinct(base.deep_view()),
                forall|nm: Seq<char>|
                    {
                        let j = last_project_index(file_config@.project, nm);
                        &&& ((#[trigger] cfg_lookup(base.deep_view(), nm)) is Some <==> j >= 0)
                        &&& (cfg_lookup(base.deep_view(), nm) matches Some(out) ==> j >= 0
                            && matches_file_config(out, file_config@, false, j))
                    },
                result@.len() == i,
                forall|k: int|
                    0 <= k < i ==> repo_spec_config(
                        #[trigger] result.deep_view()[k],
                        file_config@,
                        specs_view[k],
                    ),
            decreases n - i,
        {
            let spec_item = &specs[i];
            proof {
                assert(spec_item@ == specs_view[i as int]);
            }
            let base_config: ProjectConfig = match cfg_get(&base, spec_item.name.as_str()) {
                Some(c) => c.clone(),
                None => {
                    proof {
                        lemma_last_project_index(file_config@.project, spec_item.name@);
                    }
                    ProjectConfig::new(spec_item.name.as_str())
                },
            };
            let merged: ProjectConfig = match &spec_item.config {
                Some(json_config) => {
                    let base_fields = base_config.config;
                    let dependencies: Option<Vec<String>> = match &json_config.dependencies {
                        Some(d) => Some(crate::utils::clone_strings(d)),
                        None => base_fields.dependencies,
                    };
                    let remappings: Option<Vec<String>> = match &json_config.remappings {
                        Some(m) => Some(crate::utils::clone_strings(m)),
                        None => base_fields.remappings,
                    };
                    let env_vars: Option<EnvVars> = match &json_config.env_vars {
                        Some(e) => Some(e.clone()),
                        None => base_fields.env_vars,
                    };
                    ProjectConfig {
                        name: base_config.name,
                        config: JsonProjectConfig { dependencies, remappings, env_vars },
                    }
                },
                None => base_config,
            };
            proof {
                lemma_last_project_index(file_config@.project, spec_item.name@);
                assert(repo_spec_config(merged@, file_config@, specs_view[i as int]));
            }
            crate::benchmark::push_elem(&mut result, merged);
            i = i + 1;
        }
        result
    }

    /// The `diff` subcommand's repository and two sources, when that
    /// subcommand was given with exactly one reference and one comparison
    /// source; an error names the side that was not.
    pub fn get_cmd(&self) -> (r: Result<Option<(String, Source, Source)>, String>)
        ensures
            self.command is None ==> (r matches Ok(o) && o is None),
            self.command matches Some(Commands::Diff(d)) ==> {
                let baseline = pick_source(
                    d.reference_source.ref_version.deep_view(),
                    d.reference_source.ref_branch.deep_view(),
                );
                let comparison = pick_source(
                    d.comparison_source.vs_version.deep_view(),
                    d.comparison_source.vs_branch.deep_view(),
                );
                match (baseline, comparison) {
                    (Some(b), Some(c)) => r matches Ok(o) && o matches Some(t) && t.0@
                        == d.foundry_repo@ && t.1@ == b && t.2@ == c,
                    (None, _) => r matches Err(m) && m@
                        == "(single) Foundry reference source is required"@,
                    (Some(_), None) => r matches Err(m) && m@
                        == "(single) Foundry comparison source is required"@,
                }
            },
    {
        match &self.command {
            None => Ok(None),
            Some(Commands::Diff(config)) => {
                let baseline = match (
                    &config.reference_source.ref_version,
                    &config.reference_source.ref_branch,
                ) {
                    (Some(version), None) => Source::Version(version.clone()),
                    (None, Some(branch)) => Source::Branch(branch.clone()),
                    _ => {
                        return Err("(single) Foundry reference source is required".to_owned());
                    },
                };
                let comparison = match (
                    &config.comparison_source.vs_version,
                    &config.comparison_source.vs_branch,
                ) {
                    (Some(version), None) => Source::Version(version.clone()),
                    (None, Some(branch)) => Source::Branch(branch.clone()),
                    _ => {
                        return Err("(single) Foundry comparison source is required".to_owned());
                    },
                };
                Ok(Some((config.foundry_repo.clone(), baseline, comparison)))
            },
        }
    }
}

} // verus!
