use spire_kernel::interface::CliSolver;
use std::time::Duration;

#[test]
fn cli_solver_builder_pattern() {
    let solver = CliSolver::new("echo").args(&["-n"]).timeout_secs(10).working_dir("/tmp");
    assert_eq!(solver.executable(), "echo");
    assert_eq!(solver.configured_timeout(), Duration::from_secs(10));
    assert_eq!(solver.arguments(), &vec!["-n".to_string()]);
    assert_eq!(solver.work_dir(), Some("/tmp"));
}

#[test]
fn cli_solver_with_env() {
    let solver = CliSolver::new("echo").env("MY_VAR", "hello").env("OTHER", "world");
    assert_eq!(solver.env_vars().len(), 2);
    assert_eq!(solver.env_vars()[0], ("MY_VAR".to_string(), "hello".to_string()));
}

#[test]
fn cli_solver_default_timeout() {
    let solver = CliSolver::new("cat");
    assert_eq!(solver.configured_timeout(), Duration::from_secs(30));
    assert_eq!(solver.timeout_parts(), (30, 0));
}

#[test]
fn cli_solver_duration_timeout() {
    let solver = CliSolver::new("cat").timeout(Duration::from_millis(1500));
    assert_eq!(solver.configured_timeout(), Duration::from_millis(1500));
    assert_eq!(solver.timeout_parts(), (1, 500_000_000));
}

#[test]
fn cli_solver_name_is_executable() {
    let solver = CliSolver::new("my_program");
    assert_eq!(solver.name(), "my_program");
}
