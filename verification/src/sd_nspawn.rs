//! The builder of `systemd-nspawn` invocations for one root directory.

use crate::invocation::{Invocation, InvocationView, Stream};
use vstd::prelude::*;

verus! {

/// Defines the location where a `chroot` will be performed, with `systemd-nspawn`.
pub struct SystemdNspawn<'a> {
    /// The root directory, as an absolute path with every symlink resolved.
    pub path: String,
    clear_envs: bool,
    envs: Vec<(&'a str, &'a str)>,
}

/// The mathematical content of a [`SystemdNspawn`].
pub struct SystemdNspawnView {
    pub path: Seq<char>,
    pub clear_envs: bool,
    pub envs: Seq<(Seq<char>, Seq<char>)>,
}

impl SystemdNspawnView {
    /// This builder after one more variable was set.
    pub open spec fn with_env(self, key: Seq<char>, value: Seq<char>) -> SystemdNspawnView {
        SystemdNspawnView { envs: self.envs.push((key, value)), ..self }
    }

    /// This builder after the choice to clear the environment was made anew.
    pub open spec fn with_clear_envs(self, clear: bool) -> SystemdNspawnView {
        SystemdNspawnView { clear_envs: clear, ..self }
    }
}

/// The arguments that every invocation starts with: the host paths bound into
/// the container, then the device classes it may read and write.
pub open spec fn fixed_args() -> Seq<Seq<char>> {
    seq![
        "--bind"@,
        "/dev"@,
        "--bind"@,
        "/sys"@,
        "--bind"@,
        "/proc"@,
        "--bind"@,
        "/dev/mapper/control"@,
        "--property=DeviceAllow=block-sd rw"@,
        "--property=DeviceAllow=block-devices-mapper rw"@,
    ]
}

/// The invocation that runs `cmd` with `args` inside the root of `builder`.
pub open spec fn nspawn_invocation(
    builder: SystemdNspawnView,
    cmd: Seq<char>,
    args: Seq<Seq<char>>,
) -> InvocationView {
    InvocationView {
        program: "systemd-nspawn"@,
        args: fixed_args() + seq!["-D"@, builder.path, cmd] + args,
        env_clear: builder.clear_envs,
        envs: builder.envs,
        stdout: Stream::Piped,
        stderr: Stream::Piped,
    }
}

impl<'a> View for SystemdNspawn<'a> {
    type V = SystemdNspawnView;

    closed spec fn view(&self) -> SystemdNspawnView {
        SystemdNspawnView {
            path: self.path@,
            clear_envs: self.clear_envs,
            envs: self.envs.deep_view(),
        }
    }
}

/// Appends an owned copy of each of `items` to `argv`, in order.
fn push_all(argv: &mut Vec<String>, items: &[&str])
    ensures
        final(argv).deep_view() == old(argv).deep_view() + items.deep_view(),
{
    let ghost before = argv.deep_view();
    let mut i: usize = 0;
    while i < items.len()
        invariant
            i <= items.len(),
            argv.deep_view() == before + items.deep_view().take(i as int),
        decreases items.len() - i,
    {
        let ghost grown = argv.deep_view().push(items[i as int]@);
        argv.push(items[i].to_owned());
        assert(argv.deep_view() =~= grown);
        assert(grown =~= before + items.deep_view().take(i + 1));
        i = i + 1;
    }
    assert(items.deep_view().take(i as int) == items.deep_view());
}

impl<'a> SystemdNspawn<'a> {
    /// Starts a builder for the root directory `path`, which the caller has
    /// resolved to its canonical form. The environment is inherited and no
    /// variable is set.
    pub fn new(path: &str) -> (r: Self)
        ensures
            r@ == (SystemdNspawnView { path: path@, clear_envs: false, envs: Seq::empty() }),
    {
        let r = SystemdNspawn { path: path.to_owned(), clear_envs: false, envs: Vec::new() };
        assert(r.envs.deep_view() =~= Seq::empty());
        r
    }

    /// Set an environment variable to define for this chroot.
    pub fn env(&mut self, key: &'a str, value: &'a str)
        ensures
            final(self)@ == old(self)@.with_env(key@, value@),
    {
        self.envs.push((key, value));
        assert(self.envs.deep_view() =~= old(self).envs.deep_view().push((key@, value@)));
    }

    /// Clear all environment variables for this chroot.
    pub fn clear_envs(&mut self, clear: bool)
        ensures
            final(self)@ == old(self)@.with_clear_envs(clear),
    {
        self.clear_envs = clear;
    }

    /// Describes the execution of `cmd` with `args` under `systemd-nspawn`.
    pub fn command(&self, cmd: &str, args: &[&str]) -> (r: Invocation)
        ensures
            r@ == nspawn_invocation(self@, cmd@, args.deep_view()),
            r.stdout == Stream::Piped,
            r.stderr == Stream::Piped,
    {
        let fixed: [&str; 10] = [
            "--bind",
            "/dev",
            "--bind",
            "/sys",
            "--bind",
            "/proc",
            "--bind",
            "/dev/mapper/control",
            "--property=DeviceAllow=block-sd rw",
            "--property=DeviceAllow=block-devices-mapper rw",
        ];
        let mut argv: Vec<String> = Vec::new();
        push_all(&mut argv, fixed.as_slice());
        assert(argv.deep_view() =~= fixed_args());
        argv.push("-D".to_owned());
        argv.push(self.path.clone());
        argv.push(cmd.to_owned());
        assert(argv.deep_view() =~= fixed_args() + seq!["-D"@, self.path@, cmd@]);
        push_all(&mut argv, args);

        let mut envs: Vec<(String, String)> = Vec::new();
        let mut i: usize = 0;
        while i < self.envs.len()
            invariant
                i <= self.envs.len(),
                envs.deep_view() == self.envs.deep_view().take(i as int),
            decreases self.envs.len() - i,
        {
            let (key, value) = self.envs[i];
            let ghost grown = envs.deep_view().push((key@, value@));
            envs.push((key.to_owned(), value.to_owned()));
            assert(envs.deep_view() =~= grown);
            assert(grown =~= self.envs.deep_view().take(i + 1));
            i = i + 1;
        }
        assert(self.envs.deep_view().take(i as int) == self.envs.deep_view());

        Invocation {
            program: "systemd-nspawn".to_owned(),
            args: argv,
            env_clear: self.clear_envs,
            envs,
            stdout: Stream::Piped,
            stderr: Stream::Piped,
        }
    }
}

/// The arguments of an invocation are the fixed arguments, then `-D` and the
/// root, then the program, then the program's own arguments in their order.
pub proof fn lemma_argument_layout(builder: SystemdNspawnView, cmd: Seq<char>, args: Seq<Seq<char>>)
    ensures
        ({
            let built = nspawn_invocation(builder, cmd, args);
            &&& built.args.len() == 13 + args.len()
            &&& built.args.take(10) == fixed_args()
            &&& built.args[10] == "-D"@
            &&& built.args[11] == builder.path
            &&& built.args[12] == cmd
            &&& built.args.skip(13) == args
        }),
{
}

/// Two invocations built from one builder differ in nothing but the program
/// and the program's arguments: both carry the builder's root, its choice to
/// clear the environment and its overrides, and both capture their output.
pub proof fn lemma_builds_share_configuration(
    builder: SystemdNspawnView,
    cmd1: Seq<char>,
    args1: Seq<Seq<char>>,
    cmd2: Seq<char>,
    args2: Seq<Seq<char>>,
)
    ensures
        ({
            let first = nspawn_invocation(builder, cmd1, args1);
            let second = nspawn_invocation(builder, cmd2, args2);
            &&& first.program == second.program
            &&& first.args.take(12) == second.args.take(12)
            &&& first.args[11] == builder.path
            &&& first.env_clear == builder.clear_envs && second.env_clear == builder.clear_envs
            &&& first.envs == builder.envs && second.envs == builder.envs
            &&& first.stdout == Stream::Piped && second.stdout == Stream::Piped
            &&& first.stderr == Stream::Piped && second.stderr == Stream::Piped
        }),
{
    lemma_argument_layout(builder, cmd1, args1);
    lemma_argument_layout(builder, cmd2, args2);
    let first = nspawn_invocation(builder, cmd1, args1);
    let second = nspawn_invocation(builder, cmd2, args2);
    assert(first.args.take(12) =~= second.args.take(12));
}

/// Setting a variable and choosing whether to clear the environment do not
/// interfere: in either order they leave the same builder, and each changes
/// only its own setting of what is built afterwards.
pub proof fn lemma_setters_are_independent(
    builder: SystemdNspawnView,
    key: Seq<char>,
    value: Seq<char>,
    clear: bool,
    cmd: Seq<char>,
    args: Seq<Seq<char>>,
)
    ensures
        builder.with_env(key, value).with_clear_envs(clear) == builder.with_clear_envs(
            clear,
        ).with_env(key, value),
        nspawn_invocation(builder.with_env(key, value), cmd, args) == (InvocationView {
            envs: builder.envs.push((key, value)),
            ..nspawn_invocation(builder, cmd, args)
        }),
        nspawn_invocation(builder.with_clear_envs(clear), cmd, args) == (InvocationView {
            env_clear: clear,
            ..nspawn_invocation(builder, cmd, args)
        }),
{
}

} // verus!
