//! The system calls that the guard may make, by their numbers on x86-64.
use vstd::prelude::*;

verus! {

pub const SYS_READ: i64 = 0;

pub const SYS_WRITE: i64 = 1;

pub const SYS_OPEN: i64 = 2;

pub const SYS_OPENAT: i64 = 257;

pub const SYS_OPENAT2: i64 = 437;

pub const SYS_CLOSE: i64 = 3;

pub const SYS_CLOSE_RANGE: i64 = 436;

pub const SYS_STAT: i64 = 4;

pub const SYS_FSTAT: i64 = 5;

pub const SYS_LSTAT: i64 = 6;

pub const SYS_NEWFSTATAT: i64 = 262;

pub const SYS_STATX: i64 = 332;

pub const SYS_LSEEK: i64 = 8;

pub const SYS_PREAD64: i64 = 17;

pub const SYS_PWRITE64: i64 = 18;

pub const SYS_READV: i64 = 19;

pub const SYS_WRITEV: i64 = 20;

pub const SYS_ACCESS: i64 = 21;

pub const SYS_FACCESSAT: i64 = 269;

pub const SYS_FACCESSAT2: i64 = 439;

pub const SYS_READLINK: i64 = 89;

pub const SYS_READLINKAT: i64 = 267;

pub const SYS_GETCWD: i64 = 79;

pub const SYS_GETDENTS: i64 = 78;

pub const SYS_GETDENTS64: i64 = 217;

pub const SYS_UNLINK: i64 = 87;

pub const SYS_UNLINKAT: i64 = 263;

pub const SYS_CHMOD: i64 = 90;

pub const SYS_FCHMOD: i64 = 91;

pub const SYS_FCHMODAT: i64 = 268;

pub const SYS_FCHMODAT2: i64 = 452;

pub const SYS_UMASK: i64 = 95;

pub const SYS_MMAP: i64 = 9;

pub const SYS_MPROTECT: i64 = 10;

pub const SYS_MUNMAP: i64 = 11;

pub const SYS_MREMAP: i64 = 25;

pub const SYS_MADVISE: i64 = 28;

pub const SYS_BRK: i64 = 12;

pub const SYS_RT_SIGACTION: i64 = 13;

pub const SYS_RT_SIGPROCMASK: i64 = 14;

pub const SYS_RT_SIGRETURN: i64 = 15;

pub const SYS_RT_SIGPENDING: i64 = 127;

pub const SYS_RT_SIGTIMEDWAIT: i64 = 128;

pub const SYS_RT_SIGSUSPEND: i64 = 130;

pub const SYS_SIGALTSTACK: i64 = 131;

pub const SYS_TKILL: i64 = 200;

pub const SYS_TGKILL: i64 = 234;

pub const SYS_GETPID: i64 = 39;

pub const SYS_GETPPID: i64 = 110;

pub const SYS_GETTID: i64 = 186;

pub const SYS_GETUID: i64 = 102;

pub const SYS_GETEUID: i64 = 107;

pub const SYS_GETGID: i64 = 104;

pub const SYS_GETEGID: i64 = 108;

pub const SYS_GETRESUID: i64 = 118;

pub const SYS_GETRESGID: i64 = 120;

pub const SYS_PRCTL: i64 = 157;

pub const SYS_ARCH_PRCTL: i64 = 158;

pub const SYS_SET_TID_ADDRESS: i64 = 218;

pub const SYS_SET_ROBUST_LIST: i64 = 273;

pub const SYS_GET_ROBUST_LIST: i64 = 274;

pub const SYS_RSEQ: i64 = 334;

pub const SYS_FUTEX: i64 = 202;

pub const SYS_FUTEX_WAITV: i64 = 449;

pub const SYS_SCHED_YIELD: i64 = 24;

pub const SYS_SCHED_GETAFFINITY: i64 = 204;

pub const SYS_CLONE: i64 = 56;

pub const SYS_CLONE3: i64 = 435;

pub const SYS_EXIT: i64 = 60;

pub const SYS_EXIT_GROUP: i64 = 231;

pub const SYS_RESTART_SYSCALL: i64 = 219;

pub const SYS_CLOCK_GETTIME: i64 = 228;

pub const SYS_CLOCK_GETRES: i64 = 229;

pub const SYS_CLOCK_NANOSLEEP: i64 = 230;

pub const SYS_NANOSLEEP: i64 = 35;

pub const SYS_GETTIMEOFDAY: i64 = 96;

pub const SYS_TIME: i64 = 201;

pub const SYS_PRLIMIT64: i64 = 302;

pub const SYS_GETRLIMIT: i64 = 97;

pub const SYS_GETRANDOM: i64 = 318;

pub const SYS_MEMBARRIER: i64 = 324;

pub const SYS_UNAME: i64 = 63;

pub const SYS_SOCKET: i64 = 41;

pub const SYS_SOCKETPAIR: i64 = 53;

pub const SYS_CONNECT: i64 = 42;

pub const SYS_BIND: i64 = 49;

pub const SYS_LISTEN: i64 = 50;

pub const SYS_ACCEPT: i64 = 43;

pub const SYS_ACCEPT4: i64 = 288;

pub const SYS_SHUTDOWN: i64 = 48;

pub const SYS_GETSOCKNAME: i64 = 51;

pub const SYS_GETPEERNAME: i64 = 52;

pub const SYS_SETSOCKOPT: i64 = 54;

pub const SYS_GETSOCKOPT: i64 = 55;

pub const SYS_SENDTO: i64 = 44;

pub const SYS_RECVFROM: i64 = 45;

pub const SYS_SENDMSG: i64 = 46;

pub const SYS_RECVMSG: i64 = 47;

pub const SYS_SENDMMSG: i64 = 307;

pub const SYS_RECVMMSG: i64 = 299;

pub const SYS_PIPE: i64 = 22;

pub const SYS_PIPE2: i64 = 293;

pub const SYS_DUP: i64 = 32;

pub const SYS_DUP2: i64 = 33;

pub const SYS_DUP3: i64 = 292;

pub const SYS_FCNTL: i64 = 72;

pub const SYS_IOCTL: i64 = 16;

pub const SYS_POLL: i64 = 7;

pub const SYS_PPOLL: i64 = 271;

pub const SYS_SELECT: i64 = 23;

pub const SYS_PSELECT6: i64 = 270;

pub const SYS_EPOLL_CREATE: i64 = 213;

pub const SYS_EPOLL_CREATE1: i64 = 291;

pub const SYS_EPOLL_CTL: i64 = 233;

pub const SYS_EPOLL_WAIT: i64 = 232;

pub const SYS_EPOLL_PWAIT: i64 = 281;

pub const SYS_EPOLL_PWAIT2: i64 = 441;

pub const SYS_EVENTFD: i64 = 284;

pub const SYS_EVENTFD2: i64 = 290;

pub const SYS_EXECVE: i64 = 59;

pub const SYS_EXECVEAT: i64 = 322;

pub const SYS_FORK: i64 = 57;

pub const SYS_VFORK: i64 = 58;

pub const SYS_WAIT4: i64 = 61;

pub const SYS_WAITID: i64 = 247;

pub const SYS_KILL: i64 = 62;

pub const SYS_RT_SIGQUEUEINFO: i64 = 129;

pub const SYS_RT_TGSIGQUEUEINFO: i64 = 297;

pub const SYS_SETPGID: i64 = 109;

pub const SYS_GETPGID: i64 = 121;

pub const SYS_GETPGRP: i64 = 111;

pub const SYS_GETSID: i64 = 124;

pub const SYS_SETSID: i64 = 112;

pub const SYS_GETGROUPS: i64 = 115;

pub const SYS_SETGROUPS: i64 = 116;

pub const SYS_SETUID: i64 = 105;

pub const SYS_SETGID: i64 = 106;

pub const SYS_SETRESUID: i64 = 117;

pub const SYS_SETRESGID: i64 = 119;

pub const SYS_CAPGET: i64 = 125;

pub const SYS_CAPSET: i64 = 126;

pub const SYS_PERSONALITY: i64 = 135;

pub const SYS_CHDIR: i64 = 80;

pub const SYS_FCHDIR: i64 = 81;

pub const SYS_MKDIR: i64 = 83;

pub const SYS_MKDIRAT: i64 = 258;

pub const SYS_RMDIR: i64 = 84;

pub const SYS_RENAME: i64 = 82;

pub const SYS_RENAMEAT: i64 = 264;

pub const SYS_RENAMEAT2: i64 = 316;

pub const SYS_LINK: i64 = 86;

pub const SYS_LINKAT: i64 = 265;

pub const SYS_SYMLINK: i64 = 88;

pub const SYS_SYMLINKAT: i64 = 266;

pub const SYS_CHOWN: i64 = 92;

pub const SYS_FCHOWN: i64 = 93;

pub const SYS_LCHOWN: i64 = 94;

pub const SYS_FCHOWNAT: i64 = 260;

pub const SYS_CREAT: i64 = 85;

pub const SYS_TRUNCATE: i64 = 76;

pub const SYS_FTRUNCATE: i64 = 77;

pub const SYS_FSYNC: i64 = 74;

pub const SYS_FDATASYNC: i64 = 75;

pub const SYS_SENDFILE: i64 = 40;

pub const SYS_COPY_FILE_RANGE: i64 = 326;

pub const SYS_SPLICE: i64 = 275;

pub const SYS_TEE: i64 = 276;

pub const SYS_VMSPLICE: i64 = 278;

pub const SYS_STATFS: i64 = 137;

pub const SYS_FSTATFS: i64 = 138;

pub const SYS_GETXATTR: i64 = 191;

pub const SYS_LGETXATTR: i64 = 192;

pub const SYS_FGETXATTR: i64 = 193;

pub const SYS_LISTXATTR: i64 = 194;

pub const SYS_LLISTXATTR: i64 = 195;

pub const SYS_FLISTXATTR: i64 = 196;

pub const SYS_GETRUSAGE: i64 = 98;

pub const SYS_SYSINFO: i64 = 99;

pub const SYS_TIMES: i64 = 100;

pub const SYS_GETPRIORITY: i64 = 140;

pub const SYS_SETPRIORITY: i64 = 141;

pub const SYS_SCHED_GETPARAM: i64 = 143;

pub const SYS_SCHED_SETPARAM: i64 = 142;

pub const SYS_SCHED_GETSCHEDULER: i64 = 145;

pub const SYS_SCHED_SETSCHEDULER: i64 = 144;

pub const SYS_SCHED_GETATTR: i64 = 315;

pub const SYS_SCHED_SETATTR: i64 = 314;

pub const SYS_SCHED_GET_PRIORITY_MAX: i64 = 146;

pub const SYS_SCHED_GET_PRIORITY_MIN: i64 = 147;

pub const SYS_SCHED_RR_GET_INTERVAL: i64 = 148;

pub const SYS_SCHED_SETAFFINITY: i64 = 203;

pub const SYS_INOTIFY_INIT: i64 = 253;

pub const SYS_INOTIFY_INIT1: i64 = 294;

pub const SYS_INOTIFY_ADD_WATCH: i64 = 254;

pub const SYS_INOTIFY_RM_WATCH: i64 = 255;

pub const SYS_TIMERFD_CREATE: i64 = 283;

pub const SYS_TIMERFD_SETTIME: i64 = 286;

pub const SYS_TIMERFD_GETTIME: i64 = 287;

pub const SYS_SIGNALFD: i64 = 282;

pub const SYS_SIGNALFD4: i64 = 289;

pub const SYS_PREADV: i64 = 295;

pub const SYS_PWRITEV: i64 = 296;

pub const SYS_PREADV2: i64 = 327;

pub const SYS_PWRITEV2: i64 = 328;

pub const SYS_FADVISE64: i64 = 221;

pub const SYS_MINCORE: i64 = 27;

pub const SYS_MSYNC: i64 = 26;

pub const SYS_MEMFD_CREATE: i64 = 319;

/// The calls that the guard itself needs.
pub const CORE_SYSCALLS: [i64; 119] = [
    SYS_READ,
    SYS_WRITE,
    SYS_OPEN,
    SYS_OPENAT,
    SYS_OPENAT2,
    SYS_CLOSE,
    SYS_CLOSE_RANGE,
    SYS_STAT,
    SYS_FSTAT,
    SYS_LSTAT,
    SYS_NEWFSTATAT,
    SYS_STATX,
    SYS_LSEEK,
    SYS_PREAD64,
    SYS_PWRITE64,
    SYS_READV,
    SYS_WRITEV,
    SYS_ACCESS,
    SYS_FACCESSAT,
    SYS_FACCESSAT2,
    SYS_READLINK,
    SYS_READLINKAT,
    SYS_GETCWD,
    SYS_GETDENTS,
    SYS_GETDENTS64,
    SYS_UNLINK,
    SYS_UNLINKAT,
    SYS_CHMOD,
    SYS_FCHMOD,
    SYS_FCHMODAT,
    SYS_FCHMODAT2,
    SYS_UMASK,
    SYS_MMAP,
    SYS_MPROTECT,
    SYS_MUNMAP,
    SYS_MREMAP,
    SYS_MADVISE,
    SYS_BRK,
    SYS_RT_SIGACTION,
    SYS_RT_SIGPROCMASK,
    SYS_RT_SIGRETURN,
    SYS_RT_SIGPENDING,
    SYS_RT_SIGTIMEDWAIT,
    SYS_RT_SIGSUSPEND,
    SYS_SIGALTSTACK,
    SYS_TKILL,
    SYS_TGKILL,
    SYS_GETPID,
    SYS_GETPPID,
    SYS_GETTID,
    SYS_GETUID,
    SYS_GETEUID,
    SYS_GETGID,
    SYS_GETEGID,
    SYS_GETRESUID,
    SYS_GETRESGID,
    SYS_PRCTL,
    SYS_ARCH_PRCTL,
    SYS_SET_TID_ADDRESS,
    SYS_SET_ROBUST_LIST,
    SYS_GET_ROBUST_LIST,
    SYS_RSEQ,
    SYS_FUTEX,
    SYS_FUTEX_WAITV,
    SYS_SCHED_YIELD,
    SYS_SCHED_GETAFFINITY,
    SYS_CLONE,
    SYS_CLONE3,
    SYS_EXIT,
    SYS_EXIT_GROUP,
    SYS_RESTART_SYSCALL,
    SYS_CLOCK_GETTIME,
    SYS_CLOCK_GETRES,
    SYS_CLOCK_NANOSLEEP,
    SYS_NANOSLEEP,
    SYS_GETTIMEOFDAY,
    SYS_TIME,
    SYS_PRLIMIT64,
    SYS_GETRLIMIT,
    SYS_GETRANDOM,
    SYS_MEMBARRIER,
    SYS_UNAME,
    SYS_SOCKET,
    SYS_SOCKETPAIR,
    SYS_CONNECT,
    SYS_BIND,
    SYS_LISTEN,
    SYS_ACCEPT,
    SYS_ACCEPT4,
    SYS_SHUTDOWN,
    SYS_GETSOCKNAME,
    SYS_GETPEERNAME,
    SYS_SETSOCKOPT,
    SYS_GETSOCKOPT,
    SYS_SENDTO,
    SYS_RECVFROM,
    SYS_SENDMSG,
    SYS_RECVMSG,
    SYS_SENDMMSG,
    SYS_RECVMMSG,
    SYS_PIPE,
    SYS_PIPE2,
    SYS_DUP,
    SYS_DUP2,
    SYS_DUP3,
    SYS_FCNTL,
    SYS_IOCTL,
    SYS_POLL,
    SYS_PPOLL,
    SYS_SELECT,
    SYS_PSELECT6,
    SYS_EPOLL_CREATE,
    SYS_EPOLL_CREATE1,
    SYS_EPOLL_CTL,
    SYS_EPOLL_WAIT,
    SYS_EPOLL_PWAIT,
    SYS_EPOLL_PWAIT2,
    SYS_EVENTFD,
    SYS_EVENTFD2,
];

/// The calls that are needed besides where other programs are run.
pub const AUTOMATION_SYSCALLS: [i64; 89] = [
    SYS_EXECVE,
    SYS_EXECVEAT,
    SYS_FORK,
    SYS_VFORK,
    SYS_WAIT4,
    SYS_WAITID,
    SYS_KILL,
    SYS_RT_SIGQUEUEINFO,
    SYS_RT_TGSIGQUEUEINFO,
    SYS_SETPGID,
    SYS_GETPGID,
    SYS_GETPGRP,
    SYS_GETSID,
    SYS_SETSID,
    SYS_GETGROUPS,
    SYS_SETGROUPS,
    SYS_SETUID,
    SYS_SETGID,
    SYS_SETRESUID,
    SYS_SETRESGID,
    SYS_CAPGET,
    SYS_CAPSET,
    SYS_PERSONALITY,
    SYS_CHDIR,
    SYS_FCHDIR,
    SYS_MKDIR,
    SYS_MKDIRAT,
    SYS_RMDIR,
    SYS_RENAME,
    SYS_RENAMEAT,
    SYS_RENAMEAT2,
    SYS_LINK,
    SYS_LINKAT,
    SYS_SYMLINK,
    SYS_SYMLINKAT,
    SYS_CHOWN,
    SYS_FCHOWN,
    SYS_LCHOWN,
    SYS_FCHOWNAT,
    SYS_CREAT,
    SYS_TRUNCATE,
    SYS_FTRUNCATE,
    SYS_FSYNC,
    SYS_FDATASYNC,
    SYS_SENDFILE,
    SYS_COPY_FILE_RANGE,
    SYS_SPLICE,
    SYS_TEE,
    SYS_VMSPLICE,
    SYS_STATFS,
    SYS_FSTATFS,
    SYS_GETXATTR,
    SYS_LGETXATTR,
    SYS_FGETXATTR,
    SYS_LISTXATTR,
    SYS_LLISTXATTR,
    SYS_FLISTXATTR,
    SYS_GETRUSAGE,
    SYS_SYSINFO,
    SYS_TIMES,
    SYS_GETPRIORITY,
    SYS_SETPRIORITY,
    SYS_SCHED_GETPARAM,
    SYS_SCHED_SETPARAM,
    SYS_SCHED_GETSCHEDULER,
    SYS_SCHED_SETSCHEDULER,
    SYS_SCHED_GETATTR,
    SYS_SCHED_SETATTR,
    SYS_SCHED_GET_PRIORITY_MAX,
    SYS_SCHED_GET_PRIORITY_MIN,
    SYS_SCHED_RR_GET_INTERVAL,
    SYS_SCHED_SETAFFINITY,
    SYS_INOTIFY_INIT,
    SYS_INOTIFY_INIT1,
    SYS_INOTIFY_ADD_WATCH,
    SYS_INOTIFY_RM_WATCH,
    SYS_TIMERFD_CREATE,
    SYS_TIMERFD_SETTIME,
    SYS_TIMERFD_GETTIME,
    SYS_SIGNALFD,
    SYS_SIGNALFD4,
    SYS_PREADV,
    SYS_PWRITEV,
    SYS_PREADV2,
    SYS_PWRITEV2,
    SYS_FADVISE64,
    SYS_MINCORE,
    SYS_MSYNC,
    SYS_MEMFD_CREATE,
];

pub const SYS_BPF: i64 = 321;

pub const SYS_CHROOT: i64 = 161;

pub const SYS_FINIT_MODULE: i64 = 313;

pub const SYS_INIT_MODULE: i64 = 175;

pub const SYS_IO_URING_SETUP: i64 = 425;

pub const SYS_KEYCTL: i64 = 250;

pub const SYS_MOUNT: i64 = 165;

pub const SYS_PERF_EVENT_OPEN: i64 = 298;

pub const SYS_PTRACE: i64 = 101;

pub const SYS_REBOOT: i64 = 169;

pub const SYS_SETNS: i64 = 308;

pub const SYS_UNSHARE: i64 = 272;

pub const SYS_USERFAULTFD: i64 = 323;

/// A call that changes the kernel, its namespaces or other processes.
pub open spec fn is_high_risk(call: i64) -> bool {
    ||| call == SYS_BPF
    ||| call == SYS_CHROOT
    ||| call == SYS_FINIT_MODULE
    ||| call == SYS_INIT_MODULE
    ||| call == SYS_IO_URING_SETUP
    ||| call == SYS_KEYCTL
    ||| call == SYS_MOUNT
    ||| call == SYS_PERF_EVENT_OPEN
    ||| call == SYS_PTRACE
    ||| call == SYS_REBOOT
    ||| call == SYS_SETNS
    ||| call == SYS_UNSHARE
    ||| call == SYS_USERFAULTFD
}

} // verus!
