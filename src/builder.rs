use vstd::prelude::*;

use crate::cost::Platform;
use crate::error::Error;
use crate::limits::CommandLimits;
use crate::overrides::{
    bytes_eq, copy_byte_lists, copy_bytes, copy_entries, entries_view, lemma_to_map_keys,
    lemma_to_map_len, lemma_to_map_push, lemma_to_map_remove, lemma_to_map_update,
    lemma_to_map_value, to_map, unique_keys, EnvEntry,
};

verus! {

/// A command whose arguments and environment are checked against size limits
/// as they are added.
#[derive(Clone, Debug)]
pub struct CommandBuilder {
    limits: CommandLimits,
    argv: Vec<Vec<u8>>,
    env: Vec<EnvEntry>,
    arg_size: usize,
    env_size: usize,
    clear_env: bool,
}

/// What a `CommandBuilder` holds, as plain values.
pub ghost struct BuilderView {
    pub limits: CommandLimits,
    /// The program followed by its arguments.
    pub argv: Seq<Seq<u8>>,
    /// The tracked environment variables: `Some` sets, `None` unsets.
    pub env: Map<Seq<u8>, Option<Seq<u8>>>,
    /// The cost of the arguments.
    pub arg_size: nat,
    /// The cost of the environment.
    pub env_size: nat,
    /// Whether the command starts from an empty environment instead of
    /// inheriting one.
    pub cleared: bool,
}

/// `a - b`, or zero where `b` is larger.
pub open spec fn sat_sub(a: nat, b: nat) -> nat {
    if a >= b {
        (a - b) as nat
    } else {
        0
    }
}

/// The byte strings of `v`.
pub open spec fn byte_lists(v: Seq<Vec<u8>>) -> Seq<Seq<u8>> {
    v.map_values(|a: Vec<u8>| a@)
}

/// The bytes of an optional byte string.
pub open spec fn opt_slice(v: Option<&[u8]>) -> Option<Seq<u8>> {
    match v {
        Some(b) => Some(b@),
        None => None,
    }
}

/// The pairs of an environment snapshot, as plain values.
pub open spec fn pairs_view(v: Seq<(Vec<u8>, Vec<u8>)>) -> Seq<(Seq<u8>, Seq<u8>)> {
    v.map_values(|p: (Vec<u8>, Vec<u8>)| (p.0@, p.1@))
}

/// The total cost of the entries of an environment snapshot.
pub open spec fn ambient_cost(p: Platform, s: Seq<(Seq<u8>, Seq<u8>)>) -> nat
    decreases s.len(),
{
    if s.len() == 0 {
        0
    } else {
        ambient_cost(p, s.drop_last()) + p.env_pair_cost(s.last().0, s.last().1)
    }
}

/// The entries of an environment snapshot as tracked variables that set them.
pub open spec fn captured(s: Seq<(Seq<u8>, Seq<u8>)>) -> Seq<(Seq<u8>, Option<Seq<u8>>)> {
    s.map_values(|p: (Seq<u8>, Seq<u8>)| (p.0, Some(p.1)))
}

/// The outcome of adding `arg` to a command with `argc` arguments (the program
/// included) whose arguments cost `arg_size` and environment `env_size`: the
/// cost of `arg`, or why it is refused. A cost over the single-argument ceiling
/// is `TooLarge`; an argument count already at its limit is `TooMany`; a cost
/// over the space left is `InsufficientSpace`.
pub open spec fn arg_outcome(limits: CommandLimits, argc: nat, arg_size: nat, env_size: nat, arg: Seq<u8>) -> Result<nat, Error> {
    let cost = limits.platform.arg_cost(arg);
    let room = match limits.env_size {
        Some(_) => arg_size + cost <= limits.arg_size,
        None => arg_size + env_size + cost <= limits.arg_size,
    };
    if cost > limits.arg_ceiling() {
        Err(Error::TooLarge)
    } else if limits.arg_count matches Some(n) && n <= argc {
        Err(Error::TooMany)
    } else if !room {
        Err(Error::InsufficientSpace)
    } else {
        Ok(cost)
    }
}

impl BuilderView {
    /// A command with no program, no arguments and nothing tracked.
    pub open spec fn empty(limits: CommandLimits) -> BuilderView {
        BuilderView {
            limits,
            argv: Seq::empty(),
            env: Map::empty(),
            arg_size: 0,
            env_size: 0,
            cleared: false,
        }
    }

    /// The costs stay within the limits: arguments and environment each within
    /// their own, or together within the argument limit when no separate
    /// environment limit is given.
    pub open spec fn within_budget(self) -> bool {
        match self.limits.env_size {
            Some(l) => self.arg_size <= self.limits.arg_size && self.env_size <= l,
            None => self.arg_size + self.env_size <= self.limits.arg_size,
        }
    }

    /// Whether arguments of `extra` more cost still fit.
    pub open spec fn arg_room(self, extra: nat) -> bool {
        match self.limits.env_size {
            Some(_) => self.arg_size + extra <= self.limits.arg_size,
            None => self.arg_size + self.env_size + extra <= self.limits.arg_size,
        }
    }

    /// Whether an environment of cost `total` would fit beside the arguments.
    pub open spec fn env_fits(self, total: nat) -> bool {
        match self.limits.env_size {
            Some(l) => total <= l,
            None => self.arg_size + total <= self.limits.arg_size,
        }
    }

    /// The outcome of adding `arg`; see `arg_outcome`.
    pub open spec fn arg_check(self, arg: Seq<u8>) -> Result<nat, Error> {
        arg_outcome(self.limits, self.argv.len(), self.arg_size, self.env_size, arg)
    }

    /// The command after `arg` was added, or why it cannot be.
    pub open spec fn add_arg(self, arg: Seq<u8>) -> Result<BuilderView, Error> {
        match self.arg_check(arg) {
            Ok(cost) => Ok(BuilderView { argv: self.argv.push(arg), arg_size: self.arg_size + cost, ..self }),
            Err(e) => Err(e),
        }
    }

    /// The command after each of `args` was added in turn, or the first
    /// refusal.
    pub open spec fn add_args(self, args: Seq<Seq<u8>>) -> Result<BuilderView, Error>
        decreases args.len(),
    {
        if args.len() == 0 {
            Ok(self)
        } else {
            match self.add_arg(args[0]) {
                Ok(next) => next.add_args(args.drop_first()),
                Err(e) => Err(e),
            }
        }
    }

    /// The environment cost after a variable that cost `old_cost` was changed
    /// to cost `new_cost`.
    pub open spec fn resized_env(self, old_cost: nat, new_cost: nat) -> nat {
        if new_cost >= old_cost {
            self.env_size + (new_cost - old_cost) as nat
        } else {
            sat_sub(self.env_size, (old_cost - new_cost) as nat)
        }
    }

    /// Sets `key` to `value` in place of something that cost `old_cost`, where
    /// the new contribution costs `new_cost`. Only growth is checked: the whole
    /// entry against the entry ceiling, then the new total against the space.
    pub open spec fn replace_env(self, key: Seq<u8>, value: Seq<u8>, old_cost: nat, new_cost: nat) -> Result<BuilderView, Error> {
        if new_cost > old_cost && self.limits.platform.env_pair_cost(key, value) > self.limits.env_ceiling() {
            Err(Error::TooLarge)
        } else if new_cost > old_cost && !self.env_fits(self.env_size + (new_cost - old_cost) as nat) {
            Err(Error::InsufficientSpace)
        } else {
            Ok(BuilderView {
                env: self.env.insert(key, Some(value)),
                env_size: self.resized_env(old_cost, new_cost),
                ..self
            })
        }
    }

    /// Sets a variable that neither is tracked nor is inherited.
    pub open spec fn add_env(self, key: Seq<u8>, value: Seq<u8>) -> Result<BuilderView, Error> {
        let cost = self.limits.platform.env_pair_cost(key, value);
        if cost > self.limits.env_ceiling() {
            Err(Error::TooLarge)
        } else if self.limits.env_count matches Some(n) && n <= self.env.len() {
            Err(Error::TooMany)
        } else if !self.env_fits(self.env_size + cost) {
            Err(Error::InsufficientSpace)
        } else {
            Ok(BuilderView { env: self.env.insert(key, Some(value)), env_size: self.env_size + cost, ..self })
        }
    }

    /// The command after `key` was set to `value`, where `inherited` is what
    /// the inherited environment holds for `key`.
    pub open spec fn set_env(self, key: Seq<u8>, value: Seq<u8>, inherited: Option<Seq<u8>>) -> Result<BuilderView, Error> {
        let p = self.limits.platform;
        if self.env.contains_key(key) {
            match self.env[key] {
                Some(old) => self.replace_env(key, value, p.env_val_cost(old), p.env_val_cost(value)),
                None => self.replace_env(key, value, 0, p.env_pair_cost(key, value)),
            }
        } else if !self.cleared && inherited is Some {
            self.replace_env(key, value, p.env_val_cost(inherited->Some_0), p.env_val_cost(value))
        } else {
            self.add_env(key, value)
        }
    }

    /// The command after `key` was removed, where `inherited` is what the
    /// inherited environment holds for `key`. A key that is already unset stays
    /// as it is; otherwise its cost is taken off, and it is unset, or merely
    /// forgotten when nothing is inherited.
    pub open spec fn remove_env(self, key: Seq<u8>, inherited: Option<Seq<u8>>) -> BuilderView {
        let p = self.limits.platform;
        if self.env.contains_key(key) && self.env[key] is None {
            self
        } else {
            let env_size = if self.env.contains_key(key) {
                sat_sub(self.env_size, p.env_pair_cost(key, self.env[key]->Some_0))
            } else if !self.cleared && inherited is Some {
                sat_sub(self.env_size, p.env_pair_cost(key, inherited->Some_0))
            } else {
                self.env_size
            };
            let env = if self.cleared {
                self.env.remove(key)
            } else {
                self.env.insert(key, None)
            };
            BuilderView { env, env_size, ..self }
        }
    }

    /// The command with an empty environment.
    pub open spec fn clear_env(self) -> BuilderView {
        BuilderView { env: Map::empty(), env_size: 0, cleared: true, ..self }
    }

    /// The command inheriting `ambient`, which is sized but not tracked.
    pub open spec fn inherit_env(self, ambient: Seq<(Seq<u8>, Seq<u8>)>) -> Result<BuilderView, Error> {
        let total = ambient_cost(self.limits.platform, ambient);
        if !self.env_fits(total) {
            Err(Error::InsufficientSpace)
        } else {
            Ok(BuilderView { env: Map::empty(), env_size: total, cleared: false, ..self })
        }
    }

    /// The command with `ambient` copied in as its whole environment.
    pub open spec fn capture_env(self, ambient: Seq<(Seq<u8>, Seq<u8>)>) -> Result<BuilderView, Error> {
        let total = ambient_cost(self.limits.platform, ambient);
        if !self.env_fits(total) {
            Err(Error::InsufficientSpace)
        } else {
            Ok(BuilderView { env: to_map(captured(ambient)), env_size: total, cleared: true, ..self })
        }
    }

    /// The command that the constructors build: the environment inherited or
    /// captured from `ambient`, then `command` as the program.
    pub open spec fn start(limits: CommandLimits, command: Seq<u8>, ambient: Seq<(Seq<u8>, Seq<u8>)>, capture: bool) -> Result<BuilderView, Error> {
        let env = if capture {
            BuilderView::empty(limits).capture_env(ambient)
        } else {
            BuilderView::empty(limits).inherit_env(ambient)
        };
        match env {
            Ok(b) => b.add_arg(command),
            Err(e) => Err(e),
        }
    }
}

/// A command ready to be started: the program, its arguments, and how to
/// form its environment.
pub struct Invocation {
    pub program: Vec<u8>,
    pub args: Vec<Vec<u8>>,
    /// Start from an empty environment rather than the inherited one.
    pub clear_env: bool,
    /// Variables to set (`Some`) or unset (`None`), keys unique.
    pub env: Vec<EnvEntry>,
}

/// Every argument costs something.
proof fn lemma_arg_cost_positive(p: Platform, arg: Seq<u8>)
    ensures
        p.arg_cost(arg) >= 1,
{
}

/// The cost of a prefix of a snapshot is at most the cost of all of it.
proof fn lemma_ambient_cost_prefix(p: Platform, s: Seq<(Seq<u8>, Seq<u8>)>, i: int)
    requires
        0 <= i <= s.len(),
    ensures
        ambient_cost(p, s.take(i)) <= ambient_cost(p, s),
    decreases s.len(),
{
    if i < s.len() {
        lemma_ambient_cost_prefix(p, s.drop_last(), i);
        assert(s.drop_last().take(i) == s.take(i));
    } else {
        assert(s.take(i) == s);
    }
}

/// The index of the entry with key `key`, if there is one.
fn find_key(entries: &Vec<EnvEntry>, key: &[u8]) -> (r: Option<usize>)
    ensures
        match r {
            Some(j) => j < entries@.len() && entries@[j as int].key@ == key@,
            None => forall|j: int| 0 <= j < entries@.len() ==> entries@[j].key@ != key@,
        },
{
    let mut j: usize = 0;
    while j < entries.len()
        invariant
            j <= entries@.len(),
            forall|i: int| 0 <= i < j ==> entries@[i].key@ != key@,
        decreases entries@.len() - j,
    {
        if bytes_eq(entries[j].key.as_slice(), key) {
            return Some(j);
        }
        j = j + 1;
    }
    None
}

/// The total cost of a snapshot, or `None` where it exceeds `usize::MAX`.
fn snapshot_cost(p: Platform, ambient: &[(Vec<u8>, Vec<u8>)]) -> (r: Option<usize>)
    ensures
        match r {
            Some(t) => t == ambient_cost(p, pairs_view(ambient@)),
            None => ambient_cost(p, pairs_view(ambient@)) > usize::MAX,
        },
{
    let ghost s = pairs_view(ambient@);
    let mut total: u128 = 0;
    let mut i: usize = 0;
    while i < ambient.len()
        invariant
            s == pairs_view(ambient@),
            i <= ambient@.len(),
            total == ambient_cost(p, s.take(i as int)),
            total <= usize::MAX,
        decreases ambient@.len() - i,
    {
        let c = p.env_pair_len(ambient[i].0.as_slice(), ambient[i].1.as_slice());
        proof {
            assert(s.take(i + 1).drop_last() == s.take(i as int));
            assert(s.take(i + 1).last() == s[i as int]);
        }
        if total + c > usize::MAX as u128 {
            proof {
                lemma_ambient_cost_prefix(p, s, i + 1);
            }
            return None;
        }
        total = total + c;
        i = i + 1;
    }
    proof {
        assert(s.take(i as int) == s);
    }
    Some(total as usize)
}

impl View for CommandBuilder {
    type V = BuilderView;

    closed spec fn view(&self) -> BuilderView {
        BuilderView {
            limits: self.limits,
            argv: byte_lists(self.argv@),
            env: to_map(entries_view(self.env@)),
            arg_size: self.arg_size as nat,
            env_size: self.env_size as nat,
            cleared: self.clear_env,
        }
    }
}

impl CommandBuilder {
    spec fn inv(&self) -> bool {
        &&& unique_keys(entries_view(self.env@))
        &&& self@.within_budget()
        &&& self.argv@.len() <= self.arg_size
    }

    /// The builder is consistent and holds a program.
    pub closed spec fn wf(&self) -> bool {
        &&& self.inv()
        &&& self.argv@.len() > 0
    }

    /// Whether an environment of cost `total` fits.
    fn env_fits(&self, total: u128) -> (r: bool)
        requires
            total <= 8 * usize::MAX,
        ensures
            r == self@.env_fits(total as nat),
    {
        match self.limits.env_size {
            Some(l) => total <= l as u128,
            None => self.arg_size as u128 + total <= self.limits.arg_size as u128,
        }
    }

    /// The cost that `arg` would add, or why it cannot be added.
    fn check_arg(&self, arg: &[u8], argc: usize, arg_size: usize) -> (r: Result<usize, Error>)
        ensures
            match arg_outcome(self.limits, argc as nat, arg_size as nat, self.env_size as nat, arg@) {
                Ok(c) => r == Ok::<usize, Error>(c as usize) && c <= usize::MAX,
                Err(e) => r == Err::<usize, Error>(e),
            },
    {
        let cost = self.limits.platform.arg_len(arg);
        let ceiling = match self.limits.individual_arg_size {
            Some(n) => n,
            None => self.limits.arg_size,
        };
        if cost > ceiling as u128 {
            return Err(Error::TooLarge);
        }
        if let Some(n) = self.limits.arg_count {
            if n <= argc {
                return Err(Error::TooMany);
            }
        }
        let room = match self.limits.env_size {
            Some(_) => arg_size as u128 + cost <= self.limits.arg_size as u128,
            None => arg_size as u128 + self.env_size as u128 + cost <= self.limits.arg_size as u128,
        };
        if !room {
            return Err(Error::InsufficientSpace);
        }
        Ok(cost as usize)
    }

    /// A command with nothing in it.
    fn empty(limits: CommandLimits) -> (r: CommandBuilder)
        ensures
            r.inv(),
            r@ == BuilderView::empty(limits),
    {
        let r = CommandBuilder {
            limits,
            argv: Vec::new(),
            env: Vec::new(),
            arg_size: 0,
            env_size: 0,
            clear_env: false,
        };
        assert(entries_view(r.env@) =~= Seq::empty());
        assert(byte_lists(r.argv@) =~= Seq::empty());
        r
    }

    /// Adds `arg` if it fits.
    fn push_arg(&mut self, arg: &[u8]) -> (r: Result<(), Error>)
        requires
            old(self).inv(),
        ensures
            final(self).inv(),
            r is Ok ==> final(self).argv@.len() == old(self).argv@.len() + 1,
            match old(self)@.add_arg(arg@) {
                Ok(v) => r == Ok::<(), Error>(()) && final(self)@ == v,
                Err(e) => r == Err::<(), Error>(e) && final(self)@ == old(self)@,
            },
    {
        match self.check_arg(arg, self.argv.len(), self.arg_size) {
            Ok(c) => {
                proof {
                    lemma_arg_cost_positive(self.limits.platform, arg@);
                }
                self.argv.push(copy_bytes(arg));
                self.arg_size = self.arg_size + c;
                assert(byte_lists(self.argv@) =~= byte_lists(old(self).argv@).push(arg@));
                Ok(())
            },
            Err(e) => Err(e),
        }
    }

    /// Sizes `ambient` as the inherited environment.
    fn reset_inherited(&mut self, ambient: &[(Vec<u8>, Vec<u8>)]) -> (r: Result<(), Error>)
        requires
            old(self).inv(),
        ensures
            final(self).inv(),
            final(self).argv == old(self).argv,
            match old(self)@.inherit_env(pairs_view(ambient@)) {
                Ok(v) => r == Ok::<(), Error>(()) && final(self)@ == v,
                Err(e) => r == Err::<(), Error>(e) && final(self)@ == old(self)@,
            },
    {
        let total = match snapshot_cost(self.limits.platform, ambient) {
            Some(t) => t,
            None => return Err(Error::InsufficientSpace),
        };
        if !self.env_fits(total as u128) {
            return Err(Error::InsufficientSpace);
        }
        self.env_size = total;
        self.clear_env = false;
        self.env = Vec::new();
        assert(entries_view(self.env@) =~= Seq::empty());
        Ok(())
    }

    /// Copies `ambient` in as the whole environment.
    fn reset_captured(&mut self, ambient: &[(Vec<u8>, Vec<u8>)]) -> (r: Result<(), Error>)
        requires
            old(self).inv(),
        ensures
            final(self).inv(),
            final(self).argv == old(self).argv,
            match old(self)@.capture_env(pairs_view(ambient@)) {
                Ok(v) => r == Ok::<(), Error>(()) && final(self)@ == v,
                Err(e) => r == Err::<(), Error>(e) && final(self)@ == old(self)@,
            },
    {
        let total = match snapshot_cost(self.limits.platform, ambient) {
            Some(t) => t,
            None => return Err(Error::InsufficientSpace),
        };
        if !self.env_fits(total as u128) {
            return Err(Error::InsufficientSpace);
        }
        let ghost s = captured(pairs_view(ambient@));
        let mut entries: Vec<EnvEntry> = Vec::new();
        let mut i: usize = 0;
        assert(entries_view(entries@) =~= Seq::empty());
        assert(s.take(0) =~= Seq::empty());
        while i < ambient.len()
            invariant
                s == captured(pairs_view(ambient@)),
                i <= ambient@.len(),
                unique_keys(entries_view(entries@)),
                to_map(entries_view(entries@)) == to_map(s.take(i as int)),
            decreases ambient@.len() - i,
        {
            let key = ambient[i].0.as_slice();
            let entry = EnvEntry { key: copy_bytes(key), value: Some(copy_bytes(ambient[i].1.as_slice())) };
            let ghost before = entries_view(entries@);
            proof {
                assert(s.take(i + 1).drop_last() == s.take(i as int));
                assert(s.take(i + 1).last() == (key@, Some(ambient@[i as int].1@)));
                lemma_to_map_keys(before, key@);
            }
            match find_key(&entries, key) {
                Some(j) => {
                    proof {
                        lemma_to_map_update(before, j as int, entry@.1);
                    }
                    entries.set(j, entry);
                    assert(entries_view(entries@) =~= before.update(j as int, (before[j as int].0, entry@.1)));
                },
                None => {
                    proof {
                        lemma_to_map_push(before, key@, entry@.1);
                    }
                    entries.push(entry);
                    assert(entries_view(entries@) =~= before.push((key@, entry@.1)));
                },
            }
            i = i + 1;
        }
        proof {
            assert(s.take(i as int) == s);
        }
        self.env = entries;
        self.env_size = total;
        self.clear_env = true;
        Ok(())
    }

    /// A command for `command` with `limits`, inheriting `ambient`, the
    /// environment of the current process: its cost is counted, but it is not
    /// copied.
    pub fn with_limits(command: &[u8], limits: CommandLimits, ambient: &[(Vec<u8>, Vec<u8>)]) -> (r: Result<CommandBuilder, Error>)
        ensures
            match BuilderView::start(limits, command@, pairs_view(ambient@), false) {
                Ok(v) => r matches Ok(b) && b.wf() && b@ == v,
                Err(e) => r == Err::<CommandBuilder, Error>(e),
            },
    {
        let mut cmd = CommandBuilder::empty(limits);
        match cmd.reset_inherited(ambient) {
            Ok(()) => {},
            Err(e) => return Err(e),
        }
        match cmd.push_arg(command) {
            Ok(()) => Ok(cmd),
            Err(e) => Err(e),
        }
    }

    /// A command for `command` with `limits`, holding a copy of `ambient`, the
    /// environment of the current process, so that later changes to it do not
    /// affect the command.
    pub fn capture_with_limits(command: &[u8], limits: CommandLimits, ambient: &[(Vec<u8>, Vec<u8>)]) -> (r: Result<CommandBuilder, Error>)
        ensures
            match BuilderView::start(limits, command@, pairs_view(ambient@), true) {
                Ok(v) => r matches Ok(b) && b.wf() && b@ == v,
                Err(e) => r == Err::<CommandBuilder, Error>(e),
            },
    {
        let mut cmd = CommandBuilder::empty(limits);
        match cmd.reset_captured(ambient) {
            Ok(()) => {},
            Err(e) => return Err(e),
        }
        match cmd.push_arg(command) {
            Ok(()) => Ok(cmd),
            Err(e) => Err(e),
        }
    }

    /// `with_limits` under the default limits.
    pub fn new(command: &[u8], ambient: &[(Vec<u8>, Vec<u8>)]) -> (r: Result<CommandBuilder, Error>)
        ensures
            match BuilderView::start(CommandLimits::default_spec(), command@, pairs_view(ambient@), false) {
                Ok(v) => r matches Ok(b) && b.wf() && b@ == v,
                Err(e) => r == Err::<CommandBuilder, Error>(e),
            },
    {
        CommandBuilder::with_limits(command, CommandLimits::default(), ambient)
    }

    /// `capture_with_limits` under the default limits.
    pub fn new_capture_env(command: &[u8], ambient: &[(Vec<u8>, Vec<u8>)]) -> (r: Result<CommandBuilder, Error>)
        ensures
            match BuilderView::start(CommandLimits::default_spec(), command@, pairs_view(ambient@), true) {
                Ok(v) => r matches Ok(b) && b.wf() && b@ == v,
                Err(e) => r == Err::<CommandBuilder, Error>(e),
            },
    {
        CommandBuilder::capture_with_limits(command, CommandLimits::default(), ambient)
    }

    /// Drops every tracked variable and inherits `ambient` again. Fails, and
    /// changes nothing, when it does not fit.
    pub fn inherit_env(&mut self, ambient: &[(Vec<u8>, Vec<u8>)]) -> (r: Result<(), Error>)
        requires
            old(self).wf(),
        ensures
            final(self).wf(),
            match old(self)@.inherit_env(pairs_view(ambient@)) {
                Ok(v) => r == Ok::<(), Error>(()) && final(self)@ == v,
                Err(e) => r == Err::<(), Error>(e) && final(self)@ == old(self)@,
            },
    {
        self.reset_inherited(ambient)
    }

    /// Drops every tracked variable and copies `ambient` in as the whole
    /// environment. Fails, and changes nothing, when it does not fit.
    pub fn capture_env(&mut self, ambient: &[(Vec<u8>, Vec<u8>)]) -> (r: Result<(), Error>)
        requires
            old(self).wf(),
        ensures
            final(self).wf(),
            match old(self)@.capture_env(pairs_view(ambient@)) {
                Ok(v) => r == Ok::<(), Error>(()) && final(self)@ == v,
                Err(e) => r == Err::<(), Error>(e) && final(self)@ == old(self)@,
            },
    {
        self.reset_captured(ambient)
    }

    /// Adds `arg` if it fits; otherwise changes nothing.
    pub fn arg(&mut self, arg: &[u8]) -> (r: Result<(), Error>)
        requires
            old(self).wf(),
        ensures
            final(self).wf(),
            match old(self)@.add_arg(arg@) {
                Ok(v) => r == Ok::<(), Error>(()) && final(self)@ == v,
                Err(e) => r == Err::<(), Error>(e) && final(self)@ == old(self)@,
            },
    {
        self.push_arg(arg)
    }

    /// Adds all of `args`, each checked after the ones before it were counted;
    /// if any of them does not fit, nothing is added.
    pub fn args(&mut self, args: &[Vec<u8>]) -> (r: Result<(), Error>)
        requires
            old(self).wf(),
        ensures
            final(self).wf(),
            match old(self)@.add_args(byte_lists(args@)) {
                Ok(v) => r == Ok::<(), Error>(()) && final(self)@ == v,
                Err(e) => r == Err::<(), Error>(e) && final(self)@ == old(self)@,
            },
    {
        let ghost all = byte_lists(args@);
        let ghost start = self@;
        let ghost mut cur = self@;
        let mut size: usize = self.arg_size;
        let mut argc: usize = self.argv.len();
        let mut i: usize = 0;
        proof {
            assert(all.skip(0) == all);
            assert(start.argv + all.take(0) == start.argv);
        }
        while i < args.len()
            invariant
                all == byte_lists(args@),
                self@ == start,
                self.wf(),
                i <= args@.len(),
                cur == (BuilderView { argv: start.argv + all.take(i as int), arg_size: size as nat, ..start }),
                start.add_args(all) == cur.add_args(all.skip(i as int)),
                cur.within_budget(),
                argc == cur.argv.len(),
                argc <= size,
            decreases args@.len() - i,
        {
            let a = args[i].as_slice();
            proof {
                assert(all.skip(i as int)[0] == a@);
                assert(all.skip(i as int).drop_first() == all.skip(i + 1));
            }
            match self.check_arg(a, argc, size) {
                Ok(c) => {
                    proof {
                        lemma_arg_cost_positive(self.limits.platform, a@);
                        cur = BuilderView { argv: cur.argv.push(a@), arg_size: cur.arg_size + c as nat, ..cur };
                        assert(start.argv + all.take(i + 1) == (start.argv + all.take(i as int)).push(a@));
                    }
                    size = size + c;
                    argc = argc + 1;
                },
                Err(e) => {
                    return Err(e);
                },
            }
            i = i + 1;
        }
        proof {
            assert(all.skip(i as int).len() == 0);
            assert(all.take(i as int) == all);
        }
        let mut j: usize = 0;
        while j < args.len()
            invariant
                all == byte_lists(args@),
                j <= args@.len(),
                byte_lists(self.argv@) == start.argv + all.take(j as int),
                self.argv@.len() == start.argv.len() + j,
                self.limits == start.limits,
                self.env == old(self).env,
                self.env_size == old(self).env_size,
                self.clear_env == old(self).clear_env,
                self.arg_size == old(self).arg_size,
            decreases args@.len() - j,
        {
            let ghost before = byte_lists(self.argv@);
            self.argv.push(copy_bytes(args[j].as_slice()));
            proof {
                assert(byte_lists(self.argv@) =~= before.push(all[j as int]));
                assert(start.argv + all.take(j + 1) == (start.argv + all.take(j as int)).push(all[j as int]));
            }
            j = j + 1;
        }
        self.arg_size = size;
        Ok(())
    }

    /// The new environment cost when a variable that cost `old_cost` comes to
    /// cost `new_cost`, or why it cannot.
    fn check_replace(&self, key: &[u8], value: &[u8], old_cost: u128, new_cost: u128) -> (r: Result<usize, Error>)
        requires
            self.inv(),
            old_cost <= 4 * usize::MAX + 12,
            new_cost <= 4 * usize::MAX + 12,
        ensures
            match self@.replace_env(key@, value@, old_cost as nat, new_cost as nat) {
                Ok(v) => r == Ok::<usize, Error>(v.env_size as usize) && v.env_size <= usize::MAX,
                Err(e) => r == Err::<usize, Error>(e),
            },
    {
        let p = self.limits.platform;
        if new_cost > old_cost {
            let ceiling = match self.limits.individual_env_size {
                Some(n) => n,
                None => match self.limits.env_size {
                    Some(n) => n,
                    None => self.limits.arg_size,
                },
            };
            if p.env_pair_len(key, value) > ceiling as u128 {
                return Err(Error::TooLarge);
            }
            let total = self.env_size as u128 + (new_cost - old_cost);
            if !self.env_fits(total) {
                return Err(Error::InsufficientSpace);
            }
            Ok(total as usize)
        } else if old_cost - new_cost <= self.env_size as u128 {
            Ok(self.env_size - (old_cost - new_cost) as usize)
        } else {
            Ok(0)
        }
    }

    /// The new environment cost when a variable that neither is tracked nor is
    /// inherited is set, or why it cannot be.
    fn check_fresh(&self, key: &[u8], value: &[u8]) -> (r: Result<usize, Error>)
        requires
            self.inv(),
        ensures
            match self@.add_env(key@, value@) {
                Ok(v) => r == Ok::<usize, Error>(v.env_size as usize) && v.env_size <= usize::MAX,
                Err(e) => r == Err::<usize, Error>(e),
            },
    {
        let cost = self.limits.platform.env_pair_len(key, value);
        let ceiling = match self.limits.individual_env_size {
            Some(n) => n,
            None => match self.limits.env_size {
                Some(n) => n,
                None => self.limits.arg_size,
            },
        };
        if cost > ceiling as u128 {
            return Err(Error::TooLarge);
        }
        if let Some(n) = self.limits.env_count {
            proof {
                lemma_to_map_len(entries_view(self.env@));
            }
            if n <= self.env.len() {
                return Err(Error::TooMany);
            }
        }
        let total = self.env_size as u128 + cost;
        if !self.env_fits(total) {
            return Err(Error::InsufficientSpace);
        }
        Ok(total as usize)
    }

    /// Sets the variable `key` to `value`, if it fits; otherwise changes
    /// nothing. `inherited` is what the environment of the current process
    /// holds for `key`.
    pub fn env(&mut self, key: &[u8], value: &[u8], inherited: Option<&[u8]>) -> (r: Result<(), Error>)
        requires
            old(self).wf(),
        ensures
            final(self).wf(),
            match old(self)@.set_env(key@, value@, opt_slice(inherited)) {
                Ok(v) => r == Ok::<(), Error>(()) && final(self)@ == v,
                Err(e) => r == Err::<(), Error>(e) && final(self)@ == old(self)@,
            },
    {
        let p = self.limits.platform;
        let ghost before = entries_view(self.env@);
        let found = find_key(&self.env, key);
        proof {
            lemma_to_map_keys(before, key@);
        }
        let entry = EnvEntry { key: copy_bytes(key), value: Some(copy_bytes(value)) };
        match found {
            Some(j) => {
                proof {
                    lemma_to_map_value(before, j as int);
                }
                let (old_cost, new_cost) = match &self.env[j].value {
                    Some(old) => (p.env_val_len(old.as_slice()), p.env_val_len(value)),
                    None => (0, p.env_pair_len(key, value)),
                };
                let size = match self.check_replace(key, value, old_cost, new_cost) {
                    Ok(n) => n,
                    Err(e) => return Err(e),
                };
                proof {
                    lemma_to_map_update(before, j as int, entry@.1);
                }
                self.env.set(j, entry);
                assert(entries_view(self.env@) =~= before.update(j as int, (before[j as int].0, entry@.1)));
                self.env_size = size;
            },
            None => {
                let size = match inherited {
                    Some(old) if !self.clear_env => {
                        let old_cost = p.env_val_len(old);
                        let new_cost = p.env_val_len(value);
                        match self.check_replace(key, value, old_cost, new_cost) {
                            Ok(n) => n,
                            Err(e) => return Err(e),
                        }
                    },
                    _ => match self.check_fresh(key, value) {
                        Ok(n) => n,
                        Err(e) => return Err(e),
                    },
                };
                proof {
                    lemma_to_map_push(before, key@, entry@.1);
                }
                self.env.push(entry);
                assert(entries_view(self.env@) =~= before.push((key@, entry@.1)));
                self.env_size = size;
            },
        }
        Ok(())
    }

    /// Removes the variable `key`, so that it is not set even where the
    /// inherited environment has it. `inherited` is what the environment of the
    /// current process holds for `key`.
    pub fn env_remove(&mut self, key: &[u8], inherited: Option<&[u8]>)
        requires
            old(self).wf(),
        ensures
            final(self).wf(),
            final(self)@ == old(self)@.remove_env(key@, opt_slice(inherited)),
    {
        let p = self.limits.platform;
        let ghost before = entries_view(self.env@);
        let found = find_key(&self.env, key);
        proof {
            lemma_to_map_keys(before, key@);
        }
        let cost: Option<u128> = match found {
            Some(j) => {
                proof {
                    lemma_to_map_value(before, j as int);
                }
                match &self.env[j].value {
                    Some(v) => Some(p.env_pair_len(key, v.as_slice())),
                    None => return,
                }
            },
            None => match inherited {
                Some(v) if !self.clear_env => Some(p.env_pair_len(key, v)),
                _ => None,
            },
        };
        if let Some(c) = cost {
            self.env_size = if c <= self.env_size as u128 {
                self.env_size - c as usize
            } else {
                0
            };
        }
        match found {
            Some(j) => {
                if self.clear_env {
                    proof {
                        lemma_to_map_remove(before, j as int);
                    }
                    self.env.remove(j);
                    assert(entries_view(self.env@) =~= before.remove(j as int));
                } else {
                    let entry = EnvEntry { key: copy_bytes(key), value: None };
                    proof {
                        lemma_to_map_update(before, j as int, entry@.1);
                    }
                    self.env.set(j, entry);
                    assert(entries_view(self.env@) =~= before.update(j as int, (before[j as int].0, entry@.1)));
                }
            },
            None => {
                if self.clear_env {
                    assert(to_map(before).remove(key@) =~= to_map(before));
                } else {
                    let entry = EnvEntry { key: copy_bytes(key), value: None };
                    proof {
                        lemma_to_map_push(before, key@, entry@.1);
                    }
                    self.env.push(entry);
                    assert(entries_view(self.env@) =~= before.push((key@, entry@.1)));
                }
            },
        }
    }

    /// Starts the command from an empty environment, dropping every tracked
    /// variable.
    pub fn env_clear(&mut self)
        requires
            old(self).wf(),
        ensures
            final(self).wf(),
            final(self)@ == old(self)@.clear_env(),
    {
        self.clear_env = true;
        self.env = Vec::new();
        self.env_size = 0;
        assert(entries_view(self.env@) =~= Seq::empty());
    }

    /// The program, its arguments in the order they were added, and how to form
    /// its environment.
    pub fn into_command(&self) -> (r: Invocation)
        requires
            self.wf(),
        ensures
            r.program@ == self@.argv[0],
            byte_lists(r.args@) == self@.argv.drop_first(),
            r.clear_env == self@.cleared,
            unique_keys(entries_view(r.env@)),
            to_map(entries_view(r.env@)) == self@.env,
    {
        let program = copy_bytes(self.argv[0].as_slice());
        let mut args: Vec<Vec<u8>> = Vec::new();
        let mut i: usize = 1;
        while i < self.argv.len()
            invariant
                1 <= i <= self.argv@.len(),
                args@.len() == i - 1,
                forall|k: int| 0 <= k < i - 1 ==> args@[k]@ == self.argv@[k + 1]@,
            decreases self.argv@.len() - i,
        {
            args.push(copy_bytes(self.argv[i].as_slice()));
            i = i + 1;
        }
        assert(byte_lists(args@) =~= self@.argv.drop_first());
        Invocation { program, args, clear_env: self.clear_env, env: copy_entries(&self.env) }
    }

    /// An independent copy of this command.
    pub fn snapshot(&self) -> (r: CommandBuilder)
        requires
            self.wf(),
        ensures
            r.wf(),
            r@ == self@,
    {
        let argv = copy_byte_lists(self.argv.as_slice());
        let env = copy_entries(&self.env);
        assert(byte_lists(argv@).len() == argv@.len());
        assert(byte_lists(self.argv@).len() == self.argv@.len());
        CommandBuilder {
            limits: self.limits,
            argv,
            env,
            arg_size: self.arg_size,
            env_size: self.env_size,
            clear_env: self.clear_env,
        }
    }

    /// The limits that this command is checked against.
    pub fn get_limits(&self) -> (r: CommandLimits)
        ensures
            r == self@.limits,
    {
        self.limits
    }

    /// The program.
    pub fn get_program(&self) -> (r: &[u8])
        requires
            self.wf(),
        ensures
            r@ == self@.argv[0],
    {
        self.argv[0].as_slice()
    }

    /// The arguments after the program.
    pub fn get_args(&self) -> (r: Vec<Vec<u8>>)
        requires
            self.wf(),
        ensures
            byte_lists(r@) == self@.argv.drop_first(),
    {
        self.into_command().args
    }

    /// The number of arguments, the program included.
    pub fn argc(&self) -> (r: usize)
        ensures
            r == self@.argv.len(),
    {
        assert(byte_lists(self.argv@).len() == self.argv@.len());
        self.argv.len()
    }

    /// The cost of the program and arguments.
    pub fn arg_size(&self) -> (r: usize)
        ensures
            r == self@.arg_size,
    {
        self.arg_size
    }

    /// The cost of the environment.
    pub fn env_size(&self) -> (r: usize)
        ensures
            r == self@.env_size,
    {
        self.env_size
    }
}

} // verus!
