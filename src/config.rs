use vstd::prelude::*;

verus! {

/// A named deployment target.
pub struct Environment {
    pub name: String,
    pub baseurl: String,
}

/// What a run probes: the environments, the paths tried on each, and the optional
/// application-level error rule. No two environments share a name (see `wf`).
pub struct Config {
    pub environments: Vec<Environment>,
    pub paths: Vec<String>,
    pub app_error_key_to_fail: String,
    pub app_error_code_to_fail: Option<String>,
}

/// The key searched for in a response body when none is configured.
pub open spec fn default_key() -> Seq<char> {
    seq!['c', 'o', 'd', 'e']
}

/// The key searched for in a response body when none is configured.
pub fn default_app_error_key() -> (r: String)
    ensures
        r@ == default_key(),
{
    proof {
        reveal_strlit("code");
    }
    String::from_str("code")
}

/// The view of an optional string.
pub open spec fn opt_view(o: Option<String>) -> Option<Seq<char>> {
    match o {
        Some(s) => Some(s@),
        None => None,
    }
}

/// No two environments of `envs` share a name.
pub open spec fn names_unique(envs: Seq<Environment>) -> bool {
    forall|i: int, j: int|
        0 <= i < j < envs.len() ==> #[trigger] envs[i].name@ != #[trigger] envs[j].name@
}

/// Why a configuration is refused.
#[derive(Debug)]
pub enum ConfigError {
    /// Two environments carry this name.
    DuplicateEnvironment(String),
}

/// Whether two environments of `envs` share a name; the later of the first such pair when so.
pub fn duplicate_name(envs: &Vec<Environment>) -> (r: Option<usize>)
    ensures
        r is None <==> names_unique(envs@),
        r matches Some(j) ==> j < envs@.len() && exists|i: int|
            0 <= i < j && envs@[i].name@ == #[trigger] envs@[j as int].name@,
{
    let mut j: usize = 0;
    while j < envs.len()
        invariant
            j <= envs@.len(),
            names_unique(envs@.take(j as int)),
        decreases envs@.len() - j,
    {
        let mut i: usize = 0;
        while i < j
            invariant
                i <= j < envs@.len(),
                forall|k: int| 0 <= k < i ==> envs@[k].name@ != envs@[j as int].name@,
            decreases j - i,
        {
            if envs[i].name == envs[j].name {
                return Some(j);
            }
            i = i + 1;
        }
        assert(names_unique(envs@.take(j + 1))) by {
            assert forall|a: int, b: int| 0 <= a < b < j + 1 implies #[trigger] envs@.take(
                j + 1,
            )[a].name@ != #[trigger] envs@.take(j + 1)[b].name@ by {
                if b < j {
                    assert(envs@.take(j as int)[a] == envs@[a]);
                    assert(envs@.take(j as int)[b] == envs@[b]);
                }
            }
        }
        j = j + 1;
    }
    assert(envs@.take(envs@.len() as int) =~= envs@);
    None
}

impl Config {
    /// The configuration is well formed: its environment names are unique.
    pub open spec fn wf(&self) -> bool {
        names_unique(self.environments@)
    }

    /// A configuration from its parts; an absent key falls back to the default one,
    /// an absent code turns the application-level check off. Refused when two environments
    /// share a name.
    pub fn new(
        environments: Vec<Environment>,
        paths: Vec<String>,
        app_error_key_to_fail: Option<String>,
        app_error_code_to_fail: Option<String>,
    ) -> (r: Result<Config, ConfigError>)
        ensures
            r is Ok <==> names_unique(environments@),
            r matches Ok(c) ==> {
                &&& c.wf()
                &&& c.environments@ == environments@
                &&& c.paths@ == paths@
                &&& c.app_error_key_to_fail@ == (match app_error_key_to_fail {
                    Some(k) => k@,
                    None => default_key(),
                })
                &&& c.app_error_code_to_fail == app_error_code_to_fail
            },
            r matches Err(ConfigError::DuplicateEnvironment(n)) ==> exists|i: int, j: int|
                0 <= i < j < environments@.len() && #[trigger] environments@[i].name@ == n@
                    && #[trigger] environments@[j].name@ == n@,
    {
        if let Some(j) = duplicate_name(&environments) {
            return Err(ConfigError::DuplicateEnvironment(environments[j].name.clone()));
        }
        let key = match app_error_key_to_fail {
            Some(k) => k,
            None => default_app_error_key(),
        };
        Ok(Config { environments, paths, app_error_key_to_fail: key, app_error_code_to_fail })
    }
}

/// The first index at or after `i` of an environment called `name`.
pub open spec fn env_index_from(envs: Seq<Environment>, name: Seq<char>, i: int) -> Option<int>
    decreases envs.len() - i,
{
    if i < 0 || i >= envs.len() {
        None
    } else if envs[i].name@ == name {
        Some(i)
    } else {
        env_index_from(envs, name, i + 1)
    }
}

/// The first index of an environment called `name`.
pub open spec fn env_index(envs: Seq<Environment>, name: Seq<char>) -> Option<int> {
    env_index_from(envs, name, 0)
}

/// An index found by `env_index_from` holds an environment of that name, and none before it
/// does; when none is found, no environment from `i` on has that name.
pub proof fn lemma_env_index_from(envs: Seq<Environment>, name: Seq<char>, i: int)
    requires
        0 <= i,
    ensures
        match env_index_from(envs, name, i) {
            Some(k) => i <= k < envs.len() && envs[k].name@ == name && forall|j: int|
                i <= j < k ==> envs[j].name@ != name,
            None => forall|j: int| i <= j < envs.len() ==> envs[j].name@ != name,
        },
    decreases envs.len() - i,
{
    if i < envs.len() && envs[i].name@ != name {
        lemma_env_index_from(envs, name, i + 1);
    }
}

/// The index of the first environment called `name`, if there is one; with unique names,
/// the only one.
pub fn find_environment(envs: &Vec<Environment>, name: &str) -> (r: Option<usize>)
    ensures
        r == (match env_index(envs@, name@) {
            Some(k) => Some(k as usize),
            None => None::<usize>,
        }),
        r is None <==> forall|j: int| 0 <= j < envs@.len() ==> envs@[j].name@ != name@,
        r matches Some(k) ==> k < envs@.len() && envs@[k as int].name@ == name@,
        names_unique(envs@) ==> (r matches Some(k) ==> forall|j: int|
            0 <= j < envs@.len() && j != k ==> envs@[j].name@ != name@),
{
    proof {
        lemma_env_index_from(envs@, name@, 0);
    }
    let target = String::from_str(name);
    let mut i: usize = 0;
    while i < envs.len()
        invariant
            i <= envs@.len(),
            target@ == name@,
            env_index(envs@, name@) == env_index_from(envs@, name@, i as int),
        decreases envs@.len() - i,
    {
        if envs[i].name == target {
            return Some(i);
        }
        i = i + 1;
    }
    None
}

} // verus!
