use runsc_sentry_guard::config::{AtomicAction, RuleConfig};
use runsc_sentry_guard::seccomp::{
    allowed_syscalls, build_filter, check_length, profile_for_config, RuntimeSeccompProfile,
    SockFilter, ARCH_OFFSET, AUDIT_ARCH_X86_64, JUMP_IF_EQUAL, LOAD_WORD, MAX_INSTRUCTIONS,
    NUMBER_OFFSET, RETURN, VERDICT_ALLOW, VERDICT_KILL_PROCESS, VERDICT_TRAP,
};
use runsc_sentry_guard::syscalls::{AUTOMATION_SYSCALLS, CORE_SYSCALLS};

fn rules_with_actions(try_actions: Vec<AtomicAction>) -> Vec<RuleConfig> {
    vec![RuleConfig {
        name: "test".to_string(),
        file_pattern: "*.boot".to_string(),
        regex_match: "execve".to_string(),
        try_actions,
        final_actions: vec![AtomicAction::LogCritical],
    }]
}

#[test]
fn core_profile_selected_without_child_process_actions() {
    let config = rules_with_actions(vec![AtomicAction::ValidateState, AtomicAction::Pause]);
    assert_eq!(profile_for_config(&config), RuntimeSeccompProfile::Core);
}

#[test]
fn automation_profile_selected_for_external_actions() {
    let config = rules_with_actions(vec![AtomicAction::RunCustomScript {
        path: "/usr/local/bin/respond".to_string(),
    }]);
    assert_eq!(profile_for_config(&config), RuntimeSeccompProfile::AutomationCompatible);

    let config = rules_with_actions(vec![AtomicAction::NftBlacklist {
        set_name: "container_blacklist".to_string(),
        timeout: "24h".to_string(),
    }]);
    assert_eq!(profile_for_config(&config), RuntimeSeccompProfile::AutomationCompatible);

    let config = rules_with_actions(vec![AtomicAction::WebhookAlert {
        url: "https://hooks.example.invalid".to_string(),
    }]);
    assert_eq!(profile_for_config(&config), RuntimeSeccompProfile::AutomationCompatible);
}

#[test]
fn fallback_actions_count_for_the_profile() {
    let mut config = rules_with_actions(vec![AtomicAction::Pause]);
    config[0].final_actions =
        vec![AtomicAction::WebhookAlert { url: "https://hooks.example.invalid".to_string() }];
    assert_eq!(profile_for_config(&config), RuntimeSeccompProfile::AutomationCompatible);
    assert_eq!(profile_for_config(&[]), RuntimeSeccompProfile::Core);
    assert_eq!(RuntimeSeccompProfile::Core.label(), "core");
    assert_eq!(RuntimeSeccompProfile::AutomationCompatible.label(), "automation-compatible");
}

#[test]
fn automation_profile_extends_core_profile() {
    let core = allowed_syscalls(RuntimeSeccompProfile::Core);
    let automation = allowed_syscalls(RuntimeSeccompProfile::AutomationCompatible);

    assert!(automation.len() > core.len());
    assert!(automation.contains(&libc::SYS_execve));
    assert!(automation.contains(&libc::SYS_wait4));
    assert!(!core.contains(&libc::SYS_execve));
    assert!(core.iter().all(|call| automation.contains(call)));
}

#[test]
fn generated_bpf_program_stays_within_kernel_instruction_limit() {
    let filter = build_filter(RuntimeSeccompProfile::AutomationCompatible);
    assert!(filter.len() < libc::BPF_MAXINSNS as usize);
    assert_eq!(filter.len(), 4 + 2 * 208 + 1);
    assert!(check_length(filter.len()).is_ok());
    assert_eq!(MAX_INSTRUCTIONS, libc::BPF_MAXINSNS as usize);
    assert_eq!(
        check_length(5000).unwrap_err(),
        "generated BPF program contains 5000 instructions; kernel maximum is 4096"
    );
}

#[test]
fn high_risk_kernel_mutation_syscalls_remain_denied() {
    let automation = allowed_syscalls(RuntimeSeccompProfile::AutomationCompatible);
    let denied = [
        libc::SYS_bpf,
        libc::SYS_chroot,
        libc::SYS_finit_module,
        libc::SYS_init_module,
        libc::SYS_io_uring_setup,
        libc::SYS_keyctl,
        libc::SYS_mount,
        libc::SYS_perf_event_open,
        libc::SYS_ptrace,
        libc::SYS_reboot,
        libc::SYS_setns,
        libc::SYS_unshare,
        libc::SYS_userfaultfd,
    ];

    for syscall in denied {
        assert!(!automation.contains(&syscall));
    }
}

fn run(program: &[SockFilter], arch: u32, number: u32) -> u32 {
    let mut at = 0;
    let mut word = 0;
    loop {
        let step = program[at];
        at += 1;
        match (step.code, step.k) {
            (LOAD_WORD, ARCH_OFFSET) => word = arch,
            (LOAD_WORD, NUMBER_OFFSET) => word = number,
            (JUMP_IF_EQUAL, k) => at += if word == k { step.jt } else { step.jf } as usize,
            (RETURN, k) => return k,
            other => panic!("unexpected {:?}", other),
        }
    }
}

#[test]
fn filter_gives_the_verdicts_of_its_profile() {
    for profile in [RuntimeSeccompProfile::Core, RuntimeSeccompProfile::AutomationCompatible] {
        let program = build_filter(profile);
        let allowed = allowed_syscalls(profile);
        assert!(allowed.windows(2).all(|pair| pair[0] < pair[1]));
        for number in 0..500u32 {
            let expected =
                if allowed.contains(&(number as i64)) { VERDICT_ALLOW } else { VERDICT_TRAP };
            assert_eq!(run(&program, AUDIT_ARCH_X86_64, number), expected);
            assert_eq!(run(&program, 0x4000_0003, number), VERDICT_KILL_PROCESS);
        }
    }
}

#[test]
fn instruction_codes_are_those_of_the_kernel() {
    assert_eq!(LOAD_WORD as u32, libc::BPF_LD | libc::BPF_W | libc::BPF_ABS);
    assert_eq!(JUMP_IF_EQUAL as u32, libc::BPF_JMP | libc::BPF_JEQ | libc::BPF_K);
    assert_eq!(RETURN as u32, libc::BPF_RET | libc::BPF_K);
    assert_eq!(VERDICT_KILL_PROCESS, libc::SECCOMP_RET_KILL_PROCESS);
    assert_eq!(VERDICT_TRAP, libc::SECCOMP_RET_TRAP);
    assert_eq!(VERDICT_ALLOW, libc::SECCOMP_RET_ALLOW);
}

#[test]
fn call_numbers_are_those_of_the_kernel() {
    let core = [
        libc::SYS_read,
        libc::SYS_write,
        libc::SYS_open,
        libc::SYS_openat,
        libc::SYS_openat2,
        libc::SYS_close,
        libc::SYS_close_range,
        libc::SYS_stat,
        libc::SYS_fstat,
        libc::SYS_lstat,
        libc::SYS_newfstatat,
        libc::SYS_statx,
        libc::SYS_lseek,
        libc::SYS_pread64,
        libc::SYS_pwrite64,
        libc::SYS_readv,
        libc::SYS_writev,
        libc::SYS_access,
        libc::SYS_faccessat,
        libc::SYS_faccessat2,
        libc::SYS_readlink,
        libc::SYS_readlinkat,
        libc::SYS_getcwd,
        libc::SYS_getdents,
        libc::SYS_getdents64,
        libc::SYS_unlink,
        libc::SYS_unlinkat,
        libc::SYS_chmod,
        libc::SYS_fchmod,
        libc::SYS_fchmodat,
        libc::SYS_fchmodat2,
        libc::SYS_umask,
        libc::SYS_mmap,
        libc::SYS_mprotect,
        libc::SYS_munmap,
        libc::SYS_mremap,
        libc::SYS_madvise,
        libc::SYS_brk,
        libc::SYS_rt_sigaction,
        libc::SYS_rt_sigprocmask,
        libc::SYS_rt_sigreturn,
        libc::SYS_rt_sigpending,
        libc::SYS_rt_sigtimedwait,
        libc::SYS_rt_sigsuspend,
        libc::SYS_sigaltstack,
        libc::SYS_tkill,
        libc::SYS_tgkill,
        libc::SYS_getpid,
        libc::SYS_getppid,
        libc::SYS_gettid,
        libc::SYS_getuid,
        libc::SYS_geteuid,
        libc::SYS_getgid,
        libc::SYS_getegid,
        libc::SYS_getresuid,
        libc::SYS_getresgid,
        libc::SYS_prctl,
        libc::SYS_arch_prctl,
        libc::SYS_set_tid_address,
        libc::SYS_set_robust_list,
        libc::SYS_get_robust_list,
        libc::SYS_rseq,
        libc::SYS_futex,
        libc::SYS_futex_waitv,
        libc::SYS_sched_yield,
        libc::SYS_sched_getaffinity,
        libc::SYS_clone,
        libc::SYS_clone3,
        libc::SYS_exit,
        libc::SYS_exit_group,
        libc::SYS_restart_syscall,
        libc::SYS_clock_gettime,
        libc::SYS_clock_getres,
        libc::SYS_clock_nanosleep,
        libc::SYS_nanosleep,
        libc::SYS_gettimeofday,
        libc::SYS_time,
        libc::SYS_prlimit64,
        libc::SYS_getrlimit,
        libc::SYS_getrandom,
        libc::SYS_membarrier,
        libc::SYS_uname,
        libc::SYS_socket,
        libc::SYS_socketpair,
        libc::SYS_connect,
        libc::SYS_bind,
        libc::SYS_listen,
        libc::SYS_accept,
        libc::SYS_accept4,
        libc::SYS_shutdown,
        libc::SYS_getsockname,
        libc::SYS_getpeername,
        libc::SYS_setsockopt,
        libc::SYS_getsockopt,
        libc::SYS_sendto,
        libc::SYS_recvfrom,
        libc::SYS_sendmsg,
        libc::SYS_recvmsg,
        libc::SYS_sendmmsg,
        libc::SYS_recvmmsg,
        libc::SYS_pipe,
        libc::SYS_pipe2,
        libc::SYS_dup,
        libc::SYS_dup2,
        libc::SYS_dup3,
        libc::SYS_fcntl,
        libc::SYS_ioctl,
        libc::SYS_poll,
        libc::SYS_ppoll,
        libc::SYS_select,
        libc::SYS_pselect6,
        libc::SYS_epoll_create,
        libc::SYS_epoll_create1,
        libc::SYS_epoll_ctl,
        libc::SYS_epoll_wait,
        libc::SYS_epoll_pwait,
        libc::SYS_epoll_pwait2,
        libc::SYS_eventfd,
        libc::SYS_eventfd2,
    ];
    assert_eq!(CORE_SYSCALLS, core);
    let automation = [
        libc::SYS_execve,
        libc::SYS_execveat,
        libc::SYS_fork,
        libc::SYS_vfork,
        libc::SYS_wait4,
        libc::SYS_waitid,
        libc::SYS_kill,
        libc::SYS_rt_sigqueueinfo,
        libc::SYS_rt_tgsigqueueinfo,
        libc::SYS_setpgid,
        libc::SYS_getpgid,
        libc::SYS_getpgrp,
        libc::SYS_getsid,
        libc::SYS_setsid,
        libc::SYS_getgroups,
        libc::SYS_setgroups,
        libc::SYS_setuid,
        libc::SYS_setgid,
        libc::SYS_setresuid,
        libc::SYS_setresgid,
        libc::SYS_capget,
        libc::SYS_capset,
        libc::SYS_personality,
        libc::SYS_chdir,
        libc::SYS_fchdir,
        libc::SYS_mkdir,
        libc::SYS_mkdirat,
        libc::SYS_rmdir,
        libc::SYS_rename,
        libc::SYS_renameat,
        libc::SYS_renameat2,
        libc::SYS_link,
        libc::SYS_linkat,
        libc::SYS_symlink,
        libc::SYS_symlinkat,
        libc::SYS_chown,
        libc::SYS_fchown,
        libc::SYS_lchown,
        libc::SYS_fchownat,
        libc::SYS_creat,
        libc::SYS_truncate,
        libc::SYS_ftruncate,
        libc::SYS_fsync,
        libc::SYS_fdatasync,
        libc::SYS_sendfile,
        libc::SYS_copy_file_range,
        libc::SYS_splice,
        libc::SYS_tee,
        libc::SYS_vmsplice,
        libc::SYS_statfs,
        libc::SYS_fstatfs,
        libc::SYS_getxattr,
        libc::SYS_lgetxattr,
        libc::SYS_fgetxattr,
        libc::SYS_listxattr,
        libc::SYS_llistxattr,
        libc::SYS_flistxattr,
        libc::SYS_getrusage,
        libc::SYS_sysinfo,
        libc::SYS_times,
        libc::SYS_getpriority,
        libc::SYS_setpriority,
        libc::SYS_sched_getparam,
        libc::SYS_sched_setparam,
        libc::SYS_sched_getscheduler,
        libc::SYS_sched_setscheduler,
        libc::SYS_sched_getattr,
        libc::SYS_sched_setattr,
        libc::SYS_sched_get_priority_max,
        libc::SYS_sched_get_priority_min,
        libc::SYS_sched_rr_get_interval,
        libc::SYS_sched_setaffinity,
        libc::SYS_inotify_init,
        libc::SYS_inotify_init1,
        libc::SYS_inotify_add_watch,
        libc::SYS_inotify_rm_watch,
        libc::SYS_timerfd_create,
        libc::SYS_timerfd_settime,
        libc::SYS_timerfd_gettime,
        libc::SYS_signalfd,
        libc::SYS_signalfd4,
        libc::SYS_preadv,
        libc::SYS_pwritev,
        libc::SYS_preadv2,
        libc::SYS_pwritev2,
        libc::SYS_fadvise64,
        libc::SYS_mincore,
        libc::SYS_msync,
        libc::SYS_memfd_create,
    ];
    assert_eq!(AUTOMATION_SYSCALLS, automation);
}
