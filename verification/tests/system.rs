use orion::error::SessionError;
use orion::executor::CommandOutput;
use orion::system::{
    parse_power_mode, reboot_outcome, set_power_mode_command, set_power_mode_outcome,
    shutdown_outcome, sys_info_at, sys_info_now, POWER_MODE_QUERY_COMMAND, REBOOT_COMMAND,
    SHUTDOWN_COMMAND, SYS_INFO_COMMAND,
};
use orion::types::SystemInfo;

fn output(stdout: &str, stderr: &str, exit_status: i32) -> CommandOutput {
    CommandOutput { stdout: stdout.to_string(), stderr: stderr.to_string(), exit_status }
}

#[test]
fn commands_have_their_fixed_text() {
    assert_eq!(
        POWER_MODE_QUERY_COMMAND,
        "sh -lc 'sudo -n nvpmodel -q 2>/dev/null || nvpmodel -q 2>/dev/null || echo \"unknown\"'"
    );
    assert_eq!(SHUTDOWN_COMMAND, "sudo -n shutdown");
    assert_eq!(REBOOT_COMMAND, "sh -lc 'sudo -n reboot 2>/dev/null || reboot 2>/dev/null'");
    let expected = r#"sh -lc '
        hostname=$(hostname)
        os=$(uname -s)
        kernel=$(uname -r)
        cuda=$(nvcc --version 2>/dev/null | grep "release" | sed -E "s/.*release ([0-9.]+).*/\1/" || echo "")
        jetpack=$(dpkg -l | grep nvidia-jetpack | awk "{print \$3}" | head -1 || echo "")
        uptime_sec=$(cat /proc/uptime | awk "{print int(\$1)}")
        
        echo "$hostname"
        echo "$os"
        echo "$kernel"
        echo "$cuda"
        echo "$jetpack"
        echo "$uptime_sec"
    '"#;
    assert_eq!(SYS_INFO_COMMAND, expected);
}

#[test]
fn power_mode_is_the_text_behind_the_colon() {
    assert_eq!(parse_power_mode("NV Power Mode: MAXN\n0\n"), "MAXN");
    assert_eq!(parse_power_mode("NV Fan Mode:quiet\nNV Power Mode:   MODE_15W  \n2\n"), "MODE_15W");
    assert_eq!(parse_power_mode("NV Power Mode: 10W: extra"), "10W");
    assert_eq!(parse_power_mode("Power Mode:"), "");
    assert_eq!(parse_power_mode("NV Power Mode: MAXN\r\n0\r\n"), "MAXN");
}

#[test]
fn power_mode_falls_back_to_the_whole_output() {
    assert_eq!(parse_power_mode("unknown\n"), "unknown");
    assert_eq!(parse_power_mode("  \n"), "");
    assert_eq!(parse_power_mode(""), "");
    assert_eq!(parse_power_mode("Power Mode MAXN\nNV Power Mode: 5W\n"), "Power Mode MAXN\nNV Power Mode: 5W");
    assert_eq!(parse_power_mode("power mode: x\n"), "power mode: x");
}

#[test]
fn set_power_mode_command_names_the_mode_twice() {
    assert_eq!(
        set_power_mode_command(0),
        "sh -lc 'sudo -n nvpmodel -m 0 2>/dev/null || nvpmodel -m 0 2>/dev/null'"
    );
    assert_eq!(
        set_power_mode_command(15),
        "sh -lc 'sudo -n nvpmodel -m 15 2>/dev/null || nvpmodel -m 15 2>/dev/null'"
    );
    assert_eq!(
        set_power_mode_command(-2147483648),
        "sh -lc 'sudo -n nvpmodel -m -2147483648 2>/dev/null || nvpmodel -m -2147483648 2>/dev/null'"
    );
}

#[test]
fn set_power_mode_fails_on_a_non_zero_exit_status() {
    assert_eq!(set_power_mode_outcome(&output("ok", "", 0)), Ok(()));
    assert_eq!(
        set_power_mode_outcome(&output("bad mode\n", "ignored", 255)),
        Err(SessionError::RemoteCommandFailed {
            exit_status: 255,
            message: "nvpmodel failed: bad mode\n".to_string()
        })
    );
    assert_eq!(
        set_power_mode_outcome(&output("", "", -1)),
        Err(SessionError::RemoteCommandFailed {
            exit_status: -1,
            message: "nvpmodel failed: ".to_string()
        })
    );
}

#[test]
fn shutdown_gives_the_trimmed_output_or_a_fixed_sentence() {
    assert_eq!(
        shutdown_outcome(&output("Shutdown scheduled for Mon 2024-01-01 10:00:00 UTC\n", "", 0)),
        Ok("Shutdown scheduled for Mon 2024-01-01 10:00:00 UTC".to_string())
    );
    assert_eq!(
        shutdown_outcome(&output("", "", 0)),
        Ok("Shutdown scheduled successfully.".to_string())
    );
    assert_eq!(shutdown_outcome(&output("  \n", "unused", 0)), Ok(String::new()));
}

#[test]
fn shutdown_fails_with_the_error_output() {
    assert_eq!(
        shutdown_outcome(&output("", "sudo: a password is required\n", 1)),
        Err(SessionError::RemoteCommandFailed {
            exit_status: 1,
            message: "sudo: a password is required".to_string()
        })
    );
    assert_eq!(
        shutdown_outcome(&output("out", " \n", 2)),
        Err(SessionError::RemoteCommandFailed { exit_status: 2, message: String::new() })
    );
}

#[test]
fn shutdown_without_error_output_names_the_exit_status() {
    assert_eq!(
        shutdown_outcome(&output("", "", 1)),
        Err(SessionError::RemoteCommandFailed {
            exit_status: 1,
            message: "Shutdown command failed with exit status: 1".to_string()
        })
    );
    assert_eq!(
        shutdown_outcome(&output("text", "", -7)),
        Err(SessionError::RemoteCommandFailed {
            exit_status: -7,
            message: "Shutdown command failed with exit status: -7".to_string()
        })
    );
}

#[test]
fn reboot_fails_on_a_non_zero_exit_status() {
    assert_eq!(reboot_outcome(&output("", "", 0)), Ok(()));
    assert_eq!(reboot_outcome(&output("anything", "noise", 0)), Ok(()));
    assert_eq!(
        reboot_outcome(&output("", "", 1)),
        Err(SessionError::RemoteCommandFailed {
            exit_status: 1,
            message: "Reboot command failed with exit status: 1".to_string()
        })
    );
    assert_eq!(
        reboot_outcome(&output("", "reboot: must be superuser\n", 1)),
        Err(SessionError::RemoteCommandFailed {
            exit_status: 1,
            message: "reboot: must be superuser".to_string()
        })
    );
}

#[test]
fn sys_info_reads_six_lines() {
    let out = "jetson-nano\nLinux\n5.10.104-tegra\n11.4\n5.1.2-b104\n86400\n";
    assert_eq!(
        sys_info_at(out, 3, 1_700_000_000_000),
        SystemInfo {
            id: None,
            device_id: 3,
            updated_at: Some(1_700_000_000_000),
            hostname: "jetson-nano".to_string(),
            os: "Linux".to_string(),
            kernel: "5.10.104-tegra".to_string(),
            cuda: Some("11.4".to_string()),
            jetpack: Some("5.1.2-b104".to_string()),
            uptime_sec: 86400,
        }
    );
}

#[test]
fn sys_info_fills_what_is_missing() {
    assert_eq!(
        sys_info_at("", 1, 5),
        SystemInfo {
            id: None,
            device_id: 1,
            updated_at: Some(5),
            hostname: "unknown".to_string(),
            os: "unknown".to_string(),
            kernel: "unknown".to_string(),
            cuda: None,
            jetpack: None,
            uptime_sec: 0,
        }
    );
    let partial = sys_info_at("host\nLinux\n5.15\n\n\nsoon\n", 1, 5);
    assert_eq!(partial.hostname, "host");
    assert_eq!(partial.cuda, None);
    assert_eq!(partial.jetpack, None);
    assert_eq!(partial.uptime_sec, 0);
    let blank_first = sys_info_at("\nLinux\n", 1, 5);
    assert_eq!(blank_first.hostname, "");
    assert_eq!(blank_first.os, "Linux");
    assert_eq!(blank_first.kernel, "unknown");
    let spaced = sys_info_at("h\no\nk\n \n12.2\n 77\n", 1, 5);
    assert_eq!(spaced.cuda, Some(" ".to_string()));
    assert_eq!(spaced.jetpack, Some("12.2".to_string()));
    assert_eq!(spaced.uptime_sec, 0);
}

#[test]
fn sys_info_now_is_stamped_with_the_clock() {
    let info = sys_info_now("h\nLinux\nk\n\n\n12\n", 9);
    assert_eq!(info.device_id, 9);
    assert_eq!(info.id, None);
    assert_eq!(info.hostname, "h");
    assert_eq!(info.uptime_sec, 12);
    assert!(info.updated_at.unwrap() > 1_577_836_800_000);
}
