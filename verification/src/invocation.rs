//! The description of a process that is ready to be spawned.

use vstd::prelude::*;

verus! {

/// Where a standard stream of the spawned process is connected.
#[derive(Clone, Copy, Debug, PartialEq, Eq, Structural)]
pub enum Stream {
    /// The stream of the calling process is passed on.
    Inherit,
    /// The stream is captured through a pipe.
    Piped,
}

/// A process to launch: program, arguments, environment and streams.
#[derive(Debug)]
pub struct Invocation {
    /// The program to run.
    pub program: String,
    /// Its arguments, in order, without the program itself.
    pub args: Vec<String>,
    /// Whether the process starts from an empty environment.
    pub env_clear: bool,
    /// Variables to set, applied in order on top of the base environment.
    /// Where a name occurs more than once, the value given last is the one
    /// that the process sees.
    pub envs: Vec<(String, String)>,
    /// Where standard output goes.
    pub stdout: Stream,
    /// Where standard error goes.
    pub stderr: Stream,
}

/// The mathematical content of an [`Invocation`].
pub struct InvocationView {
    pub program: Seq<char>,
    pub args: Seq<Seq<char>>,
    pub env_clear: bool,
    pub envs: Seq<(Seq<char>, Seq<char>)>,
    pub stdout: Stream,
    pub stderr: Stream,
}

impl View for Invocation {
    type V = InvocationView;

    open spec fn view(&self) -> InvocationView {
        InvocationView {
            program: self.program@,
            args: self.args.deep_view(),
            env_clear: self.env_clear,
            envs: self.envs.deep_view(),
            stdout: self.stdout,
            stderr: self.stderr,
        }
    }
}

/// The value that the last pair of `overrides` with the name `key` gives it,
/// if any pair has that name.
pub open spec fn last_override(overrides: Seq<(Seq<char>, Seq<char>)>, key: Seq<char>) -> Option<
    Seq<char>,
>
    decreases overrides.len(),
{
    if overrides.len() == 0 {
        None
    } else if overrides.last().0 == key {
        Some(overrides.last().1)
    } else {
        last_override(overrides.drop_last(), key)
    }
}

/// The environment that results from setting each pair of `overrides`, in
/// order, in `base`. A later pair replaces an earlier one of the same name.
pub open spec fn apply_overrides(
    base: Map<Seq<char>, Seq<char>>,
    overrides: Seq<(Seq<char>, Seq<char>)>,
) -> Map<Seq<char>, Seq<char>>
    decreases overrides.len(),
{
    if overrides.len() == 0 {
        base
    } else {
        apply_overrides(base, overrides.drop_last()).insert(
            overrides.last().0,
            overrides.last().1,
        )
    }
}

/// The value of `key` in `env`, if `env` defines it.
pub open spec fn lookup(env: Map<Seq<char>, Seq<char>>, key: Seq<char>) -> Option<Seq<char>> {
    if env.contains_key(key) {
        Some(env[key])
    } else {
        None
    }
}

impl InvocationView {
    /// The environment that the overrides are applied to: empty when the
    /// invocation clears the environment, else that of the calling process.
    pub open spec fn base_env(self, inherited: Map<Seq<char>, Seq<char>>) -> Map<
        Seq<char>,
        Seq<char>,
    > {
        if self.env_clear {
            Map::empty()
        } else {
            inherited
        }
    }

    /// The environment of the spawned process, given that of the calling
    /// process.
    pub open spec fn spawned_env(self, inherited: Map<Seq<char>, Seq<char>>) -> Map<
        Seq<char>,
        Seq<char>,
    > {
        apply_overrides(self.base_env(inherited), self.envs)
    }

    /// The value of `key` in the spawned process, given the value that `key`
    /// has in the calling process: the last override of that name, else
    /// nothing when the environment is cleared, else the inherited value.
    pub open spec fn env_value(self, key: Seq<char>, inherited: Option<Seq<char>>) -> Option<
        Seq<char>,
    > {
        match last_override(self.envs, key) {
            Some(value) => Some(value),
            None => if self.env_clear {
                None
            } else {
                inherited
            },
        }
    }
}

impl Invocation {
    /// The value that the variable `key` has in the spawned process, where
    /// `inherited` is the value it has in the calling process.
    pub fn env_value(&self, key: &str, inherited: Option<&str>) -> (r: Option<String>)
        ensures
            r.deep_view() == self@.env_value(key@, inherited.deep_view()),
    {
        let name: String = key.to_owned();
        let ghost pairs = self.envs.deep_view();
        let mut i: usize = self.envs.len();
        assert(pairs.take(i as int) == pairs);
        while i > 0
            invariant
                i <= self.envs.len(),
                pairs == self.envs.deep_view(),
                name@ == key@,
                last_override(pairs, key@) == last_override(pairs.take(i as int), key@),
            decreases i,
        {
            i = i - 1;
            proof {
                let upto = pairs.take(i + 1);
                assert(upto.last() == pairs[i as int]);
                assert(upto.drop_last() == pairs.take(i as int));
            }
            if self.envs[i].0 == name {
                return Some(self.envs[i].1.clone());
            }
        }
        assert(pairs.take(0) == Seq::<(Seq<char>, Seq<char>)>::empty());
        if self.env_clear {
            None
        } else {
            match inherited {
                Some(value) => Some(value.to_owned()),
                None => None,
            }
        }
    }
}

/// The last override of a name is the pair after which no pair has that name;
/// a name has no override when no pair has it.
pub proof fn lemma_last_override(overrides: Seq<(Seq<char>, Seq<char>)>, key: Seq<char>)
    ensures
        match last_override(overrides, key) {
            Some(value) => exists|i: int|
                0 <= i < overrides.len() && overrides[i] == (key, value) && forall|j: int|
                    i < j < overrides.len() ==> overrides[j].0 != key,
            None => forall|i: int| 0 <= i < overrides.len() ==> overrides[i].0 != key,
        },
    decreases overrides.len(),
{
    if overrides.len() > 0 && overrides.last().0 != key {
        let rest = overrides.drop_last();
        lemma_last_override(rest, key);
        match last_override(rest, key) {
            Some(value) => {
                let i = choose|i: int|
                    0 <= i < rest.len() && rest[i] == (key, value) && forall|j: int|
                        i < j < rest.len() ==> rest[j].0 != key;
                assert(overrides[i] == (key, value));
                assert forall|j: int| i < j < overrides.len() implies overrides[j].0 != key by {
                    if j < rest.len() {
                        assert(rest[j].0 != key);
                    }
                }
            },
            None => {
                assert forall|i: int| 0 <= i < overrides.len() implies overrides[i].0 != key by {
                    if i < rest.len() {
                        assert(rest[i].0 != key);
                    }
                }
            },
        }
    } else if overrides.len() > 0 {
        let i = overrides.len() - 1;
        assert(overrides[i] == (key, overrides.last().1));
    }
}

/// Last write wins: a name that is set once more has the value given last,
/// whatever was set before, and every other name keeps its override.
pub proof fn lemma_last_write_wins(
    overrides: Seq<(Seq<char>, Seq<char>)>,
    key: Seq<char>,
    value: Seq<char>,
    other: Seq<char>,
)
    ensures
        last_override(overrides.push((key, value)), key) == Some(value),
        other != key ==> last_override(overrides.push((key, value)), other) == last_override(
            overrides,
            other,
        ),
{
    let longer = overrides.push((key, value));
    assert(longer.last() == (key, value));
    assert(longer.drop_last() == overrides);
}

/// Applying overrides to an environment gives each name its last override,
/// and leaves a name without override as the environment had it.
pub proof fn lemma_apply_overrides_lookup(
    base: Map<Seq<char>, Seq<char>>,
    overrides: Seq<(Seq<char>, Seq<char>)>,
    key: Seq<char>,
)
    ensures
        lookup(apply_overrides(base, overrides), key) == match last_override(overrides, key) {
            Some(value) => Some(value),
            None => lookup(base, key),
        },
    decreases overrides.len(),
{
    if overrides.len() > 0 {
        lemma_apply_overrides_lookup(base, overrides.drop_last(), key);
    }
}

/// The environment of the spawned process, read name by name: the value of
/// a name there is what [`InvocationView::env_value`] gives for the value
/// that the name has in the calling process.
pub proof fn lemma_spawned_env_lookup(
    invocation: InvocationView,
    inherited: Map<Seq<char>, Seq<char>>,
    key: Seq<char>,
)
    ensures
        lookup(invocation.spawned_env(inherited), key) == invocation.env_value(
            key,
            lookup(inherited, key),
        ),
{
    lemma_apply_overrides_lookup(invocation.base_env(inherited), invocation.envs, key);
}

/// An invocation that clears the environment yields the same environment
/// whatever the calling process has: exactly the overridden names are
/// defined, each with its last override.
pub proof fn lemma_cleared_env_ignores_inherited(
    invocation: InvocationView,
    first: Map<Seq<char>, Seq<char>>,
    second: Map<Seq<char>, Seq<char>>,
)
    requires
        invocation.env_clear,
    ensures
        invocation.spawned_env(first) == invocation.spawned_env(second),
        forall|key: Seq<char>|
            #[trigger] lookup(invocation.spawned_env(first), key) == last_override(
                invocation.envs,
                key,
            ),
{
    assert forall|key: Seq<char>|
        #[trigger] lookup(invocation.spawned_env(first), key) == last_override(
            invocation.envs,
            key,
        ) by {
        lemma_spawned_env_lookup(invocation, first, key);
    }
}

/// An invocation that keeps the environment passes on every inherited
/// variable that no override names.
pub proof fn lemma_inherited_env_kept(
    invocation: InvocationView,
    inherited: Map<Seq<char>, Seq<char>>,
    key: Seq<char>,
)
    requires
        !invocation.env_clear,
        forall|i: int| 0 <= i < invocation.envs.len() ==> invocation.envs[i].0 != key,
    ensures
        lookup(invocation.spawned_env(inherited), key) == lookup(inherited, key),
{
    lemma_spawned_env_lookup(invocation, inherited, key);
    lemma_last_override(invocation.envs, key);
}

} // verus!
