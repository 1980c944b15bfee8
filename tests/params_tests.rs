use core_dump_agent::params::{
    all_params, core_pattern, managed_value, plan_install, plan_restore, Host, HostParam,
    InstallError, ManagedParam, RestoreError,
};
use core_dump_agent::text::{assignment, first_line, join_path};

fn host_with(cp: &str, limit: &str, suid: &str) -> Host {
    Host {
        core_pattern: HostParam::new(cp),
        core_pipe_limit: HostParam::new(limit),
        suid_dumpable: HostParam::new(suid),
    }
}

#[test]
fn first_line_takes_only_the_first_line() {
    assert_eq!(first_line("core\nrest\n"), Some("core".to_string()));
    assert_eq!(first_line("a\r\nb"), Some("a".to_string()));
    assert_eq!(first_line("no newline"), Some("no newline".to_string()));
    assert_eq!(first_line("\n"), Some(String::new()));
    assert_eq!(first_line(""), None);
}

#[test]
fn assignment_joins_name_and_value() {
    assert_eq!(assignment("kernel.core_pipe_limit", "128"), "kernel.core_pipe_limit=128");
    assert_eq!(join_path("/var/mnt", "core"), "/var/mnt/core");
}

#[test]
fn core_pattern_follows_the_pipe_grammar() {
    assert_eq!(
        core_pattern("/var/mnt/core-dump-handler"),
        "|/var/mnt/core-dump-handler/cdc -c=%c -e=%e -p=%p -s=%s -t=%t -d=/var/mnt/core-dump-handler/core -h=%h -E=%E"
    );
}

#[test]
fn managed_values_and_names() {
    assert_eq!(managed_value(ManagedParam::CorePipeLimit, "/h", "2"), "128");
    assert_eq!(managed_value(ManagedParam::SuidDumpable, "/h", "1"), "1");
    assert_eq!(ManagedParam::SuidDumpable.name(), "fs.suid_dumpable");
    assert_eq!(ManagedParam::CorePattern.backup_path("/h"), "/h/core_pattern.bak");
    assert_eq!(
        all_params(),
        vec![ManagedParam::CorePattern, ManagedParam::CorePipeLimit, ManagedParam::SuidDumpable]
    );
}

#[test]
fn plan_install_decisions() {
    assert_eq!(plan_install(false, "core\n"), Ok("core".to_string()));
    assert_eq!(plan_install(true, "core\n"), Err(InstallError::BackupPresent));
    assert_eq!(plan_install(false, ""), Err(InstallError::EmptyQuery));
}

#[test]
fn plan_restore_decisions() {
    assert_eq!(plan_restore(Some("core".to_string())), Ok("core".to_string()));
    assert_eq!(plan_restore(None), Err(RestoreError::MissingBackup));
}

#[test]
fn install_then_restore_gives_back_each_value() {
    for before in ["core", "", "|/usr/lib/systemd/systemd-coredump %P", "0", "a b\tc"] {
        let mut p = HostParam::new(before);
        assert_eq!(p.install("managed"), Ok(()));
        assert_eq!(p.live, "managed");
        assert_eq!(p.backup, Some(before.to_string()));
        assert_eq!(p.restore(), Ok(()));
        assert_eq!(p.live, before);
        assert_eq!(p.backup, None);
        assert_eq!(p.writes, vec!["managed".to_string(), before.to_string()]);
    }
}

#[test]
fn second_install_keeps_first_backup() {
    let mut p = HostParam::new("core");
    assert_eq!(p.install("first"), Ok(()));
    assert_eq!(p.install("second"), Err(InstallError::BackupPresent));
    assert_eq!(p.backup, Some("core".to_string()));
    assert_eq!(p.live, "first");
    assert_eq!(p.restore(), Ok(()));
    assert_eq!(p.live, "core");
}

#[test]
fn install_all_sets_the_managed_values() {
    let mut h = host_with("core", "0", "0");
    assert_eq!(h.install_all("/h", "2"), Ok(()));
    assert_eq!(h.core_pattern.live, core_pattern("/h"));
    assert_eq!(h.core_pipe_limit.live, "128");
    assert_eq!(h.suid_dumpable.live, "2");
    assert_eq!(h.teardown(), Ok(()));
    assert_eq!(h.core_pattern.live, "core");
    assert_eq!(h.core_pipe_limit.live, "0");
    assert_eq!(h.suid_dumpable.live, "0");
}

#[test]
fn install_all_stops_at_first_refusal() {
    let mut h = host_with("core", "0", "0");
    h.core_pipe_limit.backup = Some("16".to_string());
    assert_eq!(h.install_all("/h", "2"), Err(InstallError::BackupPresent));
    assert_eq!(h.core_pattern.live, core_pattern("/h"));
    assert_eq!(h.core_pipe_limit.live, "0");
    assert_eq!(h.suid_dumpable.live, "0");
    assert!(h.suid_dumpable.writes.is_empty());
}

#[test]
fn teardown_without_suid_backup_is_fatal_and_writes_nothing_there() {
    let mut h = host_with("core", "0", "0");
    assert_eq!(h.install_all("/h", "2"), Ok(()));
    h.suid_dumpable.backup = None;
    let writes_before = h.suid_dumpable.writes.clone();
    assert_eq!(h.teardown(), Err(vec![ManagedParam::SuidDumpable]));
    assert_eq!(h.suid_dumpable.writes, writes_before);
    assert_eq!(h.suid_dumpable.live, "2");
    assert_eq!(h.core_pattern.live, "core");
    assert_eq!(h.core_pipe_limit.live, "0");
}

#[test]
fn rejected_install_write_keeps_live_value() {
    let mut p = HostParam::new("core");
    p.writable = false;
    assert_eq!(p.install("managed"), Err(InstallError::SetRejected));
    assert_eq!(p.live, "core");
    assert_eq!(p.backup, Some("core".to_string()));
    assert!(p.writes.is_empty());
}

#[test]
fn rejected_restore_write_keeps_backup() {
    let mut p = HostParam::new("core");
    assert_eq!(p.install("managed"), Ok(()));
    p.writable = false;
    assert_eq!(p.restore(), Err(RestoreError::SetRejected));
    assert_eq!(p.live, "managed");
    assert_eq!(p.backup, Some("core".to_string()));
    p.writable = true;
    assert_eq!(p.restore(), Ok(()));
    assert_eq!(p.live, "core");
}

#[test]
fn teardown_lists_every_unrestorable_parameter() {
    let mut h = host_with("core", "0", "0");
    assert_eq!(h.install_all("/h", "2"), Ok(()));
    h.core_pattern.writable = false;
    h.suid_dumpable.backup = None;
    assert_eq!(
        h.teardown(),
        Err(vec![ManagedParam::CorePattern, ManagedParam::SuidDumpable])
    );
    assert_eq!(h.core_pipe_limit.live, "0");
    assert_eq!(h.core_pattern.backup, Some("core".to_string()));
}
