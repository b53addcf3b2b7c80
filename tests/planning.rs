use url_tester::config::{default_app_error_key, duplicate_name, find_environment, Config, ConfigError, Environment};
use url_tester::plan::{extract_state_param, plan_run, PlanError, RunPlan};

fn env(name: &str, base: &str) -> Environment {
    Environment { name: name.to_string(), baseurl: base.to_string() }
}

fn config(envs: Vec<Environment>, paths: &[&str]) -> Config {
    Config::new(envs, paths.iter().map(|p| p.to_string()).collect(), None, None).unwrap()
}

#[test]
fn state_param_stops_at_ampersand() {
    assert_eq!(extract_state_param("/x?State=foo&bar=1"), Some("foo".to_string()));
}

#[test]
fn state_param_runs_to_end() {
    assert_eq!(extract_state_param("/x?State=foo"), Some("foo".to_string()));
}

#[test]
fn state_param_absent() {
    assert_eq!(extract_state_param("/x"), None);
}

#[test]
fn state_param_empty_value_and_first_marker() {
    assert_eq!(extract_state_param("/x?State=&a=1"), Some(String::new()));
    assert_eq!(extract_state_param("/a?State=one&State=two"), Some("one".to_string()));
    assert_eq!(extract_state_param("/a?state=low"), None);
}

#[test]
fn default_key_is_code() {
    assert_eq!(default_app_error_key(), "code");
    let c = config(vec![env("dev", "http://d")], &["/a"]);
    assert_eq!(c.app_error_key_to_fail, "code");
    assert_eq!(c.app_error_code_to_fail, None);
    let c2 = Config::new(vec![], vec![], Some("errorCode".to_string()), Some("5".to_string())).unwrap();
    assert_eq!(c2.app_error_key_to_fail, "errorCode");
    assert_eq!(c2.app_error_code_to_fail, Some("5".to_string()));
}

#[test]
fn one_probe_per_environment_and_path() {
    let c = config(vec![env("dev", "http://d"), env("prod", "http://p")], &["/a", "/b?State=s1", "/c"]);
    match plan_run(&c, None) {
        Ok(RunPlan::Batches(b)) => {
            assert_eq!(b.len(), 2);
            let total: usize = b.iter().map(|x| x.len()).sum();
            assert_eq!(total, 6);
            assert_eq!(b[0][0].environment_name, "dev");
            assert_eq!(b[0][0].url, "http://d/a");
            assert_eq!(b[1][1].url, "http://p/b?State=s1");
            assert_eq!(b[1][1].state_param, Some("s1".to_string()));
            assert_eq!(b[1][2].state_param, None);
        }
        _ => panic!("expected batches"),
    }
}

#[test]
fn url_is_plain_concatenation() {
    let c = config(vec![env("dev", "http://d/")], &["/a b"]);
    match plan_run(&c, None) {
        Ok(RunPlan::Batches(b)) => assert_eq!(b[0][0].url, "http://d//a b"),
        _ => panic!("expected batches"),
    }
}

#[test]
fn filter_selects_one_environment() {
    let c = config(vec![env("dev", "http://d"), env("prod", "http://p")], &["/a", "/b"]);
    match plan_run(&c, Some("prod")) {
        Ok(RunPlan::Batches(b)) => {
            assert_eq!(b.len(), 1);
            assert_eq!(b[0].len(), 2);
            assert_eq!(b[0][0].environment_name, "prod");
            assert_eq!(b[0][1].url, "http://p/b");
        }
        _ => panic!("expected batches"),
    }
}

#[test]
fn unknown_environment_is_an_error() {
    let c = config(vec![env("dev", "http://d"), env("prod", "http://p")], &["/a"]);
    match plan_run(&c, Some("nonexistent")) {
        Err(PlanError::EnvironmentNotFound(n)) => assert_eq!(n, "nonexistent"),
        _ => panic!("expected an error"),
    }
}

#[test]
fn empty_paths_is_a_clean_stop() {
    let c = config(vec![env("dev", "http://d")], &[]);
    assert!(matches!(plan_run(&c, None), Ok(RunPlan::NoPaths)));
    assert!(matches!(plan_run(&c, Some("nonexistent")), Ok(RunPlan::NoPaths)));
}

#[test]
fn empty_environments_is_a_clean_stop() {
    let c = config(vec![], &["/a"]);
    assert!(matches!(plan_run(&c, None), Ok(RunPlan::NoEnvironments)));
}

#[test]
fn find_environment_by_name() {
    let envs = vec![env("dev", "http://d"), env("prod", "http://p")];
    assert_eq!(find_environment(&envs, "prod"), Some(1));
    assert_eq!(find_environment(&envs, "dev"), Some(0));
    assert_eq!(find_environment(&envs, "qa"), None);
}

#[test]
fn duplicate_environment_names_are_refused() {
    let envs = vec![env("dev", "http://d"), env("prod", "http://p"), env("dev", "http://e")];
    assert_eq!(duplicate_name(&envs), Some(2));
    match Config::new(envs, vec!["/a".to_string()], None, None) {
        Err(ConfigError::DuplicateEnvironment(n)) => assert_eq!(n, "dev"),
        Ok(_) => panic!("expected a refusal"),
    }
    assert_eq!(duplicate_name(&vec![env("dev", "http://d"), env("prod", "http://p")]), None);
}
