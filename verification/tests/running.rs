use tokio::runtime::Runtime;
use vistula_updater::commands::{resolve, CommandSpec};
use vistula_updater::supervisor::assemble_result;

#[test]
fn test_echo_hello_end_to_end() {
    let spec = CommandSpec {
        program: "echo".to_string(),
        arguments: vec!["hello".to_string()],
        elevate: false,
    };
    let inv = resolve(&spec).unwrap();
    let rt = Runtime::new().unwrap();
    let output = rt
        .block_on(async {
            tokio::process::Command::new(&inv.executable)
                .args(&inv.arguments)
                .output()
                .await
        })
        .unwrap();
    let result = assemble_result(
        output.status.code(),
        String::from_utf8_lossy(&output.stdout).into_owned(),
        String::from_utf8_lossy(&output.stderr).into_owned(),
    );
    assert_eq!(result.exit_code, 0);
    assert_eq!(result.stdout, "hello\n");
    assert_eq!(result.stderr, "");
    assert!(result.success());
}

#[test]
fn test_spawn_failure_yields_no_result() {
    let spec = CommandSpec {
        program: "definitely_not_a_real_command_xyz".to_string(),
        arguments: Vec::new(),
        elevate: false,
    };
    let inv = resolve(&spec).unwrap();
    let rt = Runtime::new().unwrap();
    let spawned = rt.block_on(async {
        tokio::process::Command::new(&inv.executable)
            .args(&inv.arguments)
            .output()
            .await
    });
    assert!(spawned.is_err());
}
