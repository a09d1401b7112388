use portless::cli::commands::build_command_for;

fn to_strings(slice: &[&str]) -> Vec<String> {
    slice.iter().map(|s| s.to_string()).collect()
}

#[test]
fn test_direct_vite_injection() {
    let cmd = to_strings(&["vite", "dev"]);
    let result = build_command_for(&cmd, 4567, false);
    assert_eq!(
        result,
        to_strings(&["vite", "dev", "--port", "4567", "--strictPort", "--host", "127.0.0.1"])
    );
}

#[test]
fn test_npx_vite_injection() {
    let cmd = to_strings(&["npx", "vite", "dev"]);
    let result = build_command_for(&cmd, 4567, false);
    assert_eq!(
        result,
        to_strings(&["npx", "vite", "dev", "--port", "4567", "--strictPort", "--host", "127.0.0.1"])
    );
}

#[test]
fn test_bunx_vite_injection() {
    let cmd = to_strings(&["bunx", "--bun", "vite", "dev"]);
    let result = build_command_for(&cmd, 4567, false);
    assert_eq!(
        result,
        to_strings(&[
            "bunx", "--bun", "vite", "dev", "--port", "4567", "--strictPort", "--host", "127.0.0.1"
        ])
    );
}

#[test]
fn test_pnpm_exec_vite_injection() {
    let cmd = to_strings(&["pnpm", "exec", "vite", "dev"]);
    let result = build_command_for(&cmd, 4567, false);
    assert_eq!(
        result,
        to_strings(&[
            "pnpm", "exec", "vite", "dev", "--port", "4567", "--strictPort", "--host", "127.0.0.1"
        ])
    );
}

#[test]
fn test_yarn_vite_implicit_injection() {
    let cmd = to_strings(&["yarn", "vite", "dev"]);
    let result = build_command_for(&cmd, 4567, false);
    assert_eq!(
        result,
        to_strings(&["yarn", "vite", "dev", "--port", "4567", "--strictPort", "--host", "127.0.0.1"])
    );
}

#[test]
fn test_yarn_dlx_vite_injection() {
    let cmd = to_strings(&["yarn", "dlx", "--yes", "vite", "dev"]);
    let result = build_command_for(&cmd, 4567, false);
    assert_eq!(
        result,
        to_strings(&[
            "yarn", "dlx", "--yes", "vite", "dev", "--port", "4567", "--strictPort", "--host",
            "127.0.0.1"
        ])
    );
}

#[test]
fn test_expo_lan_mode() {
    let cmd = to_strings(&["expo", "start"]);
    let result = build_command_for(&cmd, 4567, true);
    assert_eq!(result, to_strings(&["expo", "start", "--port", "4567"]));
}

#[test]
fn test_expo_normal_mode() {
    let cmd = to_strings(&["expo", "start"]);
    let result = build_command_for(&cmd, 4567, false);
    assert_eq!(result, to_strings(&["expo", "start", "--port", "4567", "--host", "localhost"]));
}

#[test]
fn test_next_dev_no_injection() {
    let cmd = to_strings(&["next", "dev"]);
    let result = build_command_for(&cmd, 4567, false);
    assert_eq!(result, cmd);
}

#[test]
fn test_custom_command_no_injection() {
    let cmd = to_strings(&["python", "-m", "http.server"]);
    let result = build_command_for(&cmd, 4567, false);
    assert_eq!(result, cmd);
}

#[test]
fn explicit_port_flag_is_left_alone() {
    let cmd = to_strings(&["vite", "dev", "--port", "9999"]);
    let result = build_command_for(&cmd, 4567, false);
    assert_eq!(result, to_strings(&["vite", "dev", "--port", "9999", "--host", "127.0.0.1"]));
}

#[test]
fn empty_command_stays_empty() {
    let cmd: Vec<String> = Vec::new();
    assert!(build_command_for(&cmd, 4567, false).is_empty());
}
