use samokod::acp::{
    binary_candidates, candidate_dirs, login_shells, parse_path_helper, resolve_in_dirs,
    resolve_opencode_binary, split_path_value,
};
use samokod::types::AgentError;

fn strings(list: &[&str]) -> Vec<String> {
    list.iter().map(|s| s.to_string()).collect()
}

#[test]
fn acp_missing_binary_is_typed() {
    let dirs = strings(&["/nonexistent-samokod-path"]);
    let result = resolve_in_dirs(&dirs, &vec![false]);
    assert!(matches!(result, Err(AgentError::MissingBinary)));
    let desktop = samokod::desktop::resolve_in_path(Some("/nonexistent-samokod-path"), &vec![false]);
    assert!(matches!(desktop, Err(samokod::desktop::AgentError::MissingBinary)));
    assert!(samokod::desktop::resolve_in_path(None, &vec![]).is_err());
}

#[test]
fn acp_real_binary_resolves_when_present() {
    let process = strings(&["/usr/local/bin", "/usr/bin"]);
    let helper = strings(&["/usr/bin", "/opt/homebrew/bin"]);
    let shell = strings(&["/home/me/.opencode/bin"]);
    let found = resolve_opencode_binary(&process, &helper, &shell, &vec![false, false, true, false]);
    assert_eq!(found, Ok("/opt/homebrew/bin/opencode".to_string()));
    let missing = resolve_opencode_binary(&process, &helper, &shell, &vec![false, false, false, false]);
    assert!(matches!(missing, Err(AgentError::MissingBinary)));
}

#[test]
fn duplicate_dirs_stay_typed() {
    let dirs = strings(&["/nonexistent-samokod-path", "/nonexistent-samokod-path"]);
    let candidates = binary_candidates(&dirs);
    assert_eq!(candidates, vec!["/nonexistent-samokod-path/opencode"]);
    let result = resolve_in_dirs(&dirs, &vec![false]);
    assert!(matches!(result, Err(AgentError::MissingBinary)));
}

#[test]
fn falls_back_to_later_dirs() {
    let dirs = strings(&["/nonexistent-samokod-path", "/shell/bin"]);
    assert_eq!(resolve_in_dirs(&dirs, &vec![false, true]), Ok("/shell/bin/opencode".to_string()));
}

#[test]
fn prefers_earlier_dirs() {
    let dirs = strings(&["/first", "", "/second", "/first", "/third"]);
    assert_eq!(binary_candidates(&dirs), vec!["/first/opencode", "/second/opencode", "/third/opencode"]);
    assert_eq!(resolve_in_dirs(&dirs, &vec![true, true, true]), Ok("/first/opencode".to_string()));
}

#[test]
fn path_helper_parses_quoted_path() {
    let dirs = parse_path_helper("PATH=\"/usr/bin:/bin\"; export PATH;\n");
    assert_eq!(dirs, vec!["/usr/bin", "/bin"]);
    assert_eq!(parse_path_helper("MANPATH=\"/x\""), vec!["/x"]);
    assert!(parse_path_helper("nothing here").is_empty());
    assert_eq!(parse_path_helper("PATH=\"aPATH=\"b\""), vec!["a"]);
    assert_eq!(parse_path_helper("PATH=\"/x:/y"), vec!["/x", "/y"]);
}

#[test]
fn path_value_splits_on_colon() {
    assert_eq!(split_path_value("/usr/bin:/bin\n"), vec!["/usr/bin", "/bin"]);
    assert_eq!(split_path_value("a::b"), vec!["a", "", "b"]);
    assert!(split_path_value("  \n").is_empty());
}

#[test]
fn search_order_is_process_helper_shell() {
    let dirs = candidate_dirs(&strings(&["/p"]), &strings(&["/h"]), &strings(&["/s"]));
    assert_eq!(dirs, vec!["/p", "/h", "/s"]);
    assert_eq!(login_shells(Some("/bin/zsh")), vec!["/bin/zsh", "/bin/sh"]);
    assert_eq!(login_shells(Some("")), vec!["/bin/sh"]);
    assert_eq!(login_shells(Some("/bin/sh")), vec!["/bin/sh"]);
}
