//! The isolation profile: the exact command line for one sandboxed
//! invocation of the version-control tool.
//!
//! Every invocation runs under the isolation mechanism with host
//! system directories mounted read-only, process/hostname/cgroup
//! namespaces unshared, all capabilities dropped, a cleared
//! environment, hook execution disabled by pointing the hooks path at
//! a discard target, a single writable workspace, and an external
//! wall-clock timeout.  Network access is removed unless the stage
//! asks for it.

use vstd::prelude::*;
use vstd::string::StringExecFns;

verus! {

/// The fixed leading arguments of a sandboxed invocation: the timeout
/// wrapper, the isolation mechanism, its read-only host mounts, the
/// minimal device nodes, the writable workspace bind and the
/// namespace/capability restrictions.
pub open spec fn argv_head(workspace: Seq<char>) -> Seq<Seq<char>> {
    seq![
        ("timeout")@,
        ("300")@,
        ("bwrap")@,
        ("--ro-bind")@,
        ("/usr")@,
        ("/usr")@,
        ("--ro-bind")@,
        ("/lib")@,
        ("/lib")@,
        ("--ro-bind")@,
        ("/lib64")@,
        ("/lib64")@,
        ("--ro-bind")@,
        ("/bin")@,
        ("/bin")@,
        ("--ro-bind")@,
        ("/sbin")@,
        ("/sbin")@,
        ("--ro-bind")@,
        ("/etc")@,
        ("/etc")@,
        ("--proc")@,
        ("/proc")@,
        ("--dev-bind")@,
        ("/dev/null")@,
        ("/dev/null")@,
        ("--dev-bind")@,
        ("/dev/zero")@,
        ("/dev/zero")@,
        ("--dev-bind")@,
        ("/dev/urandom")@,
        ("/dev/urandom")@,
        ("--tmpfs")@,
        ("/tmp")@,
        ("--bind")@,
        workspace,
        ("/workspace")@,
        ("--chdir")@,
        ("/workspace")@,
        ("--unshare-pid")@,
        ("--unshare-uts")@,
        ("--unshare-cgroup")@,
        ("--die-with-parent")@,
        ("--cap-drop")@,
        ("ALL")@,
    ]
}

/// The network restriction: present exactly when the stage is denied
/// network access.
pub open spec fn argv_net(allow_network: bool) -> Seq<Seq<char>> {
    if allow_network {
        Seq::empty()
    } else {
        seq![("--unshare-net")@]
    }
}

/// The cleared, minimal environment, with hook execution disabled by
/// pointing the tool's hooks path at the discard device.
pub open spec fn argv_env() -> Seq<Seq<char>> {
    seq![
        ("--clearenv")@,
        ("--setenv")@,
        ("PATH")@,
        ("/usr/bin:/bin")@,
        ("--setenv")@,
        ("HOME")@,
        ("/workspace")@,
        ("--setenv")@,
        ("GIT_CONFIG_COUNT")@,
        ("1")@,
        ("--setenv")@,
        ("GIT_CONFIG_KEY_0")@,
        ("core.hooksPath")@,
        ("--setenv")@,
        ("GIT_CONFIG_VALUE_0")@,
        ("/dev/null")@,
    ]
}

/// The whole command line for one sandboxed invocation of the
/// version-control tool with the given arguments.
pub open spec fn isolation_argv(
    workspace: Seq<char>,
    git_args: Seq<Seq<char>>,
    allow_network: bool,
) -> Seq<Seq<char>> {
    argv_head(workspace) + argv_net(allow_network) + argv_env() + seq![("git")@] + git_args
}

/// The views of a list of argument strings.
pub open spec fn argv_views(args: Seq<String>) -> Seq<Seq<char>> {
    args.map_values(|s: String| s@)
}

/// Builds the exact command line for running the version-control tool
/// inside the isolation mechanism: read-only host mounts, unshared
/// namespaces, dropped capabilities, cleared environment, disabled
/// hooks, one writable workspace, a wall-clock timeout, and network
/// access only when `allow_network` holds.
pub fn sandboxed_git_command(workspace: &str, git_args: &Vec<String>, allow_network: bool) -> (r:
    Vec<String>)
    ensures
        argv_views(r@) == isolation_argv(workspace@, argv_views(git_args@), allow_network),
{
    let mut out: Vec<String> = Vec::new();
    out.push(String::from_str("timeout"));
    out.push(String::from_str("300"));
    out.push(String::from_str("bwrap"));
    out.push(String::from_str("--ro-bind"));
    out.push(String::from_str("/usr"));
    out.push(String::from_str("/usr"));
    out.push(String::from_str("--ro-bind"));
    out.push(String::from_str("/lib"));
    out.push(String::from_str("/lib"));
    out.push(String::from_str("--ro-bind"));
    out.push(String::from_str("/lib64"));
    out.push(String::from_str("/lib64"));
    out.push(String::from_str("--ro-bind"));
    out.push(String::from_str("/bin"));
    out.push(String::from_str("/bin"));
    out.push(String::from_str("--ro-bind"));
    out.push(String::from_str("/sbin"));
    out.push(String::from_str("/sbin"));
    out.push(String::from_str("--ro-bind"));
    out.push(String::from_str("/etc"));
    out.push(String::from_str("/etc"));
    out.push(String::from_str("--proc"));
    out.push(String::from_str("/proc"));
    out.push(String::from_str("--dev-bind"));
    out.push(String::from_str("/dev/null"));
    out.push(String::from_str("/dev/null"));
    out.push(String::from_str("--dev-bind"));
    out.push(String::from_str("/dev/zero"));
    out.push(String::from_str("/dev/zero"));
    out.push(String::from_str("--dev-bind"));
    out.push(String::from_str("/dev/urandom"));
    out.push(String::from_str("/dev/urandom"));
    out.push(String::from_str("--tmpfs"));
    out.push(String::from_str("/tmp"));
    out.push(String::from_str("--bind"));
    out.push(workspace.to_owned());
    out.push(String::from_str("/workspace"));
    out.push(String::from_str("--chdir"));
    out.push(String::from_str("/workspace"));
    out.push(String::from_str("--unshare-pid"));
    out.push(String::from_str("--unshare-uts"));
    out.push(String::from_str("--unshare-cgroup"));
    out.push(String::from_str("--die-with-parent"));
    out.push(String::from_str("--cap-drop"));
    out.push(String::from_str("ALL"));
    proof {
        assert(argv_views(out@) =~= argv_head(workspace@));
    }
    if !allow_network {
        out.push(String::from_str("--unshare-net"));
    }
    proof {
        assert(argv_views(out@) =~= argv_head(workspace@) + argv_net(allow_network));
    }
    out.push(String::from_str("--clearenv"));
    out.push(String::from_str("--setenv"));
    out.push(String::from_str("PATH"));
    out.push(String::from_str("/usr/bin:/bin"));
    out.push(String::from_str("--setenv"));
    out.push(String::from_str("HOME"));
    out.push(String::from_str("/workspace"));
    out.push(String::from_str("--setenv"));
    out.push(String::from_str("GIT_CONFIG_COUNT"));
    out.push(String::from_str("1"));
    out.push(String::from_str("--setenv"));
    out.push(String::from_str("GIT_CONFIG_KEY_0"));
    out.push(String::from_str("core.hooksPath"));
    out.push(String::from_str("--setenv"));
    out.push(String::from_str("GIT_CONFIG_VALUE_0"));
    out.push(String::from_str("/dev/null"));
    out.push(String::from_str("git"));
    let ghost fixed = argv_head(workspace@) + argv_net(allow_network) + argv_env() + seq![
        ("git")@,
    ];
    proof {
        assert(argv_views(out@) =~= fixed);
    }
    let n = git_args.len();
    let mut i: usize = 0;
    while i < n
        invariant
            n == git_args@.len(),
            0 <= i <= n,
            argv_views(out@) == fixed + argv_views(git_args@).take(i as int),
        decreases n - i,
    {
        let ghost before = argv_views(out@);
        out.push(git_args[i].clone());
        proof {
            assert(argv_views(out@) =~= before.push(git_args@[i as int]@));
            assert(argv_views(git_args@).take(i + 1) =~= argv_views(git_args@).take(i as int).push(
                git_args@[i as int]@,
            ));
            assert(argv_views(out@) =~= fixed + argv_views(git_args@).take(i + 1));
        }
        i = i + 1;
    }
    proof {
        assert(argv_views(git_args@).take(n as int) =~= argv_views(git_args@));
        assert(argv_views(out@) =~= isolation_argv(workspace@, argv_views(git_args@), allow_network));
    }
    out
}

} // verus!
