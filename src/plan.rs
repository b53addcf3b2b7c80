use vstd::prelude::*;
use crate::config::{Config, Environment, env_index, find_environment, lemma_env_index_from, opt_view};
use crate::text::{chars_of, find_chars, find_from, lemma_find_from};

verus! {

/// One request to make: the environment it belongs to, the full URL, and the state
/// parameter read from the path.
pub struct Probe {
    pub environment_name: String,
    pub url: String,
    pub state_param: Option<String>,
}

/// The marker that introduces the state parameter in a path.
pub open spec fn state_marker() -> Seq<char> {
    seq!['S', 't', 'a', 't', 'e', '=']
}

/// The state parameter of a path: after the first `State=`, everything up to the next `&`,
/// or to the end when no `&` follows; absent when the path holds no `State=`.
pub open spec fn state_param_of(path: Seq<char>) -> Option<Seq<char>> {
    match find_from(path, state_marker(), 0) {
        None => None,
        Some(i) => match find_from(path, seq!['&'], i + 6) {
            Some(j) => Some(path.subrange(i + 6, j)),
            None => Some(path.skip(i + 6)),
        },
    }
}

/// The state parameter of `path`, used to group results.
pub fn extract_state_param(path: &str) -> (r: Option<String>)
    ensures
        opt_view(r) == state_param_of(path@),
{
    proof {
        reveal_strlit("State=");
        reveal_strlit("&");
    }
    let p = chars_of(path);
    let plen: usize = p.len();
    let marker = chars_of("State=");
    assert(marker@ =~= state_marker());
    proof {
        lemma_find_from(path@, state_marker(), 0);
    }
    match find_chars(&p, &marker, 0) {
        None => None,
        Some(i) => {
            let amp = chars_of("&");
            assert(amp@ =~= seq!['&']);
            proof {
                lemma_find_from(path@, seq!['&'], i + 6);
            }
            match find_chars(&p, &amp, i + 6) {
                Some(j) => {
                    Some(String::from_str(path.substring_char(i + 6, j)))
                },
                None => {
                    let rest = String::from_str(path.substring_char(i + 6, plen));
                    assert(rest@ =~= path@.skip(i + 6));
                    Some(rest)
                },
            }
        },
    }
}

/// `p` is the probe of `path` on `env`.
pub open spec fn probe_of(p: Probe, env: Environment, path: Seq<char>) -> bool {
    &&& p.environment_name@ == env.name@
    &&& p.url@ == env.baseurl@ + path
    &&& opt_view(p.state_param) == state_param_of(path)
}

/// `batch` holds the probe of each path on `env`, in the order of the paths.
pub open spec fn batch_of(batch: Seq<Probe>, env: Environment, paths: Seq<String>) -> bool {
    &&& batch.len() == paths.len()
    &&& forall|j: int| 0 <= j < paths.len() ==> probe_of(#[trigger] batch[j], env, paths[j]@)
}

/// The probes of every path on `env`, in the order of the paths.
pub fn probes_for(env: &Environment, paths: &Vec<String>) -> (r: Vec<Probe>)
    ensures
        batch_of(r@, *env, paths@),
{
    let mut r: Vec<Probe> = Vec::new();
    let mut j: usize = 0;
    while j < paths.len()
        invariant
            j <= paths@.len(),
            r@.len() == j,
            forall|k: int| 0 <= k < j ==> probe_of(#[trigger] r@[k], *env, paths@[k]@),
        decreases paths@.len() - j,
    {
        let path = paths[j].as_str();
        let mut url = env.baseurl.clone();
        url.append(path);
        let probe = Probe {
            environment_name: env.name.clone(),
            url,
            state_param: extract_state_param(path),
        };
        r.push(probe);
        j = j + 1;
    }
    r
}

/// What a run does once its configuration is read.
pub enum RunPlan {
    /// The configuration names no environment: nothing to do.
    NoEnvironments,
    /// The configuration names no path: nothing to do.
    NoPaths,
    /// One batch of probes per selected environment, run one batch after another.
    Batches(Vec<Vec<Probe>>),
}

/// Why a run stops before any request.
pub enum PlanError {
    /// The environment asked for is not in the configuration.
    EnvironmentNotFound(String),
}

/// The environments a run covers: all of them, or the one with the name asked for (names
/// are unique in a well-formed configuration); `None` when a name is asked for that no
/// environment has.
pub open spec fn selected(envs: Seq<Environment>, filter: Option<Seq<char>>) -> Option<
    Seq<Environment>,
> {
    match filter {
        None => Some(envs),
        Some(name) => match env_index(envs, name) {
            Some(k) => Some(seq![envs[k]]),
            None => None,
        },
    }
}

/// `batches` holds, for each environment of `envs` in order, the probes of all `paths` on it.
pub open spec fn batches_of(batches: Seq<Vec<Probe>>, envs: Seq<Environment>, paths: Seq<String>) -> bool {
    &&& batches.len() == envs.len()
    &&& forall|i: int| 0 <= i < envs.len() ==> batch_of(#[trigger] batches[i]@, envs[i], paths)
}

/// The view of an optional string slice.
pub open spec fn opt_str_view(o: Option<&str>) -> Option<Seq<char>> {
    match o {
        Some(s) => Some(s@),
        None => None,
    }
}

/// Decides what a run does: stop cleanly when there is no environment or no path, fail when
/// the environment asked for is unknown, and otherwise plan one batch per selected environment.
pub fn plan_run(config: &Config, env_filter: Option<&str>) -> (r: Result<RunPlan, PlanError>)
    requires
        config.wf(),
    ensures
        config.environments@.len() == 0 ==> r matches Ok(RunPlan::NoEnvironments),
        config.environments@.len() > 0 && config.paths@.len() == 0 ==> r matches Ok(
            RunPlan::NoPaths,
        ),
        config.environments@.len() > 0 && config.paths@.len() > 0 ==> match selected(
            config.environments@,
            opt_str_view(env_filter),
        ) {
            None => r matches Err(PlanError::EnvironmentNotFound(n)) && n@ == env_filter->0@,
            Some(envs) => r matches Ok(RunPlan::Batches(b)) && batches_of(b@, envs, config.paths@),
        },
{
    if config.environments.len() == 0 {
        return Ok(RunPlan::NoEnvironments);
    }
    if config.paths.len() == 0 {
        return Ok(RunPlan::NoPaths);
    }
    let mut batches: Vec<Vec<Probe>> = Vec::new();
    match env_filter {
        Some(name) => match find_environment(&config.environments, name) {
            Some(k) => {
                proof {
                    lemma_env_index_from(config.environments@, name@, 0);
                }
                batches.push(probes_for(&config.environments[k], &config.paths));
                Ok(RunPlan::Batches(batches))
            },
            None => Err(PlanError::EnvironmentNotFound(String::from_str(name))),
        },
        None => {
            let mut i: usize = 0;
            while i < config.environments.len()
                invariant
                    i <= config.environments@.len(),
                    batches@.len() == i,
                    forall|k: int|
                        0 <= k < i ==> batch_of(
                            #[trigger] batches@[k]@,
                            config.environments@[k],
                            config.paths@,
                        ),
                decreases config.environments@.len() - i,
            {
                batches.push(probes_for(&config.environments[i], &config.paths));
                i = i + 1;
            }
            Ok(RunPlan::Batches(batches))
        },
    }
}

/// The number of probes in all batches together.
pub open spec fn total_probes(batches: Seq<Vec<Probe>>) -> nat
    decreases batches.len(),
{
    if batches.len() == 0 {
        0
    } else {
        total_probes(batches.drop_last()) + batches.last()@.len()
    }
}

/// A planned run makes exactly one probe per selected environment and path.
pub proof fn lemma_probe_count(batches: Seq<Vec<Probe>>, envs: Seq<Environment>, paths: Seq<String>)
    requires
        batches_of(batches, envs, paths),
    ensures
        total_probes(batches) == envs.len() * paths.len(),
    decreases batches.len(),
{
    if batches.len() > 0 {
        let n = (batches.len() - 1) as int;
        assert(batch_of(batches[n]@, envs[n], paths));
        lemma_probe_count(batches.drop_last(), envs.drop_last(), paths);
        assert(total_probes(batches) == (envs.len() - 1) * paths.len() + paths.len());
        assert((envs.len() - 1) * paths.len() + paths.len() == envs.len() * paths.len())
            by (nonlinear_arith);
    }
}

} // verus!
