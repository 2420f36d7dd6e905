use vstd::prelude::*;

use crate::error::{OrchestratorError, Result};

verus! {

/// The operating system a machine runs, as far as the orchestrator cares.
#[derive(Debug, Clone, Copy, PartialEq, Eq, Structural, Default)]
pub enum MachineOs {
    WindowsWsl,
    Linux,
    #[default]
    Unknown,
}

/// A machine of the LAN that sessions are run on.
#[derive(Debug, PartialEq, Eq)]
pub struct Machine {
    pub name: String,
    /// IP address or host name.
    pub host: String,
    /// Without a MAC address the machine is never woken.
    pub mac: Option<String>,
    pub os: MachineOs,
    pub ssh_user: String,
    pub ssh_port: u16,
    /// Path of the private key handed to `ssh -i`.
    pub ssh_key: String,
    pub default_session: String,
}

/// Copies an optional string.
pub(crate) fn clone_opt_string(s: &Option<String>) -> (r: Option<String>)
    ensures
        r == *s,
{
    match s {
        Some(x) => Some(x.clone()),
        None => None,
    }
}

impl Clone for Machine {
    fn clone(&self) -> (r: Self)
        ensures
            r == *self,
    {
        Machine {
            name: self.name.clone(),
            host: self.host.clone(),
            mac: clone_opt_string(&self.mac),
            os: self.os,
            ssh_user: self.ssh_user.clone(),
            ssh_port: self.ssh_port,
            ssh_key: self.ssh_key.clone(),
            default_session: self.default_session.clone(),
        }
    }
}

/// The whole `machines.toml` file.
#[derive(Debug, PartialEq, Eq)]
pub struct Config {
    pub onboarding_done: bool,
    pub mcp_port: u16,
    pub mcp_auth_token: Option<String>,
    pub machine: Vec<Machine>,
}

impl Clone for Config {
    fn clone(&self) -> (r: Self)
        ensures
            r.onboarding_done == self.onboarding_done,
            r.mcp_port == self.mcp_port,
            r.mcp_auth_token == self.mcp_auth_token,
            r.machine@ == self.machine@,
    {
        let mut machine: Vec<Machine> = Vec::new();
        let mut i: usize = 0;
        while i < self.machine.len()
            invariant
                i <= self.machine@.len(),
                machine@ == self.machine@.take(i as int),
            decreases self.machine@.len() - i,
        {
            machine.push(self.machine[i].clone());
            i = i + 1;
            assert(machine@ =~= self.machine@.take(i as int));
        }
        assert(machine@ =~= self.machine@);
        Config {
            onboarding_done: self.onboarding_done,
            mcp_port: self.mcp_port,
            mcp_auth_token: clone_opt_string(&self.mcp_auth_token),
            machine,
        }
    }
}

/// SSH port used when a machine names none.
pub fn default_port() -> (p: u16)
    ensures
        p == 22,
{
    22
}

/// Session name used when a machine names none.
pub fn default_session() -> (s: String)
    ensures
        s@ == "main"@,
{
    String::from_str("main")
}

/// Port of the MCP server when the file names none.
pub fn default_mcp_port() -> (p: u16)
    ensures
        p == 8321,
{
    8321
}

impl Default for Config {
    fn default() -> (c: Self)
        ensures
            !c.onboarding_done,
            c.mcp_port == 8321,
            c.mcp_auth_token is None,
            c.machine@.len() == 0,
    {
        Config {
            onboarding_done: false,
            mcp_port: default_mcp_port(),
            mcp_auth_token: None,
            machine: Vec::new(),
        }
    }
}

/// `i` is the first index of `ms` whose machine is called `name`.
pub open spec fn first_named(ms: Seq<Machine>, name: Seq<char>, i: int) -> bool {
    &&& 0 <= i < ms.len()
    &&& ms[i].name@ == name
    &&& forall|j: int| 0 <= j < i ==> ms[j].name@ != name
}

/// Some machine of `ms` is called `name`.
pub open spec fn has_named(ms: Seq<Machine>, name: Seq<char>) -> bool {
    exists|i: int| 0 <= i < ms.len() && (#[trigger] ms[i]).name@ == name
}

pub proof fn lemma_first_named_unique(ms: Seq<Machine>, name: Seq<char>, i: int, j: int)
    requires
        first_named(ms, name, i),
        first_named(ms, name, j),
    ensures
        i == j,
{
}

/// The index of the first machine of `ms` called `name` (meaningful when there is one).
pub open spec fn first_index(ms: Seq<Machine>, name: Seq<char>) -> int {
    choose|i: int| first_named(ms, name, i)
}

/// When some machine has the name, `first_index` is the first of them.
pub proof fn lemma_first_index(ms: Seq<Machine>, name: Seq<char>)
    requires
        has_named(ms, name),
    ensures
        first_named(ms, name, first_index(ms, name)),
    decreases ms.len(),
{
    let init = ms.drop_last();
    if has_named(init, name) {
        lemma_first_index(init, name);
        let i = first_index(init, name);
        assert forall|j: int| 0 <= j < i implies ms[j].name@ != name by {
            assert(ms[j] == init[j]);
        }
        assert(ms[i] == init[i]);
        assert(first_named(ms, name, i));
    } else {
        let k = ms.len() - 1;
        let j = choose|j: int| 0 <= j < ms.len() && (#[trigger] ms[j]).name@ == name;
        if j < k {
            assert(init[j].name@ == name);
        }
        assert forall|l: int| 0 <= l < k implies ms[l].name@ != name by {
            if ms[l].name@ == name {
                assert(init[l].name@ == name);
            }
        }
        assert(first_named(ms, name, k));
    }
}

/// `ms` after registering `m`: `m` takes the place of the first machine with
/// its name, or is appended when there is none.
pub open spec fn upserted(ms: Seq<Machine>, m: Machine) -> Seq<Machine> {
    if has_named(ms, m.name@) {
        ms.update(first_index(ms, m.name@), m)
    } else {
        ms.push(m)
    }
}

/// `ms` without the machines called `name`, the others in their order.
pub open spec fn without_named(ms: Seq<Machine>, name: Seq<char>) -> Seq<Machine>
    decreases ms.len(),
{
    if ms.len() == 0 {
        seq![]
    } else {
        let rest = without_named(ms.drop_last(), name);
        if ms.last().name@ == name {
            rest
        } else {
            rest.push(ms.last())
        }
    }
}

/// What reading `machines.toml` gave.
pub enum ConfigRead {
    /// The file does not exist.
    Missing,
    /// The file exists but could not be read; the text of the failure.
    Unreadable(String),
    /// The file was read but is not a valid configuration; the text of the failure.
    Malformed(String),
    /// The file was read and parsed.
    Parsed(Config),
}

impl Config {
    /// The configuration that a read of `machines.toml` stands for: a missing
    /// file is the default configuration (nothing registered, onboarding not
    /// done); a file that cannot be read is an `Io` error; one that does not
    /// parse is a `ConfigError`.
    pub fn from_read(read: ConfigRead) -> (r: Result<Config>)
        ensures
            match read {
                ConfigRead::Missing => r matches Ok(c) && !c.onboarding_done && c.mcp_port == 8321
                    && c.mcp_auth_token is None && c.machine@.len() == 0,
                ConfigRead::Unreadable(t) => r == Err::<Config, OrchestratorError>(
                    OrchestratorError::Io(t),
                ),
                ConfigRead::Malformed(t) => r == Err::<Config, OrchestratorError>(
                    OrchestratorError::ConfigError(t),
                ),
                ConfigRead::Parsed(c) => r == Ok::<Config, OrchestratorError>(c),
            },
    {
        match read {
            ConfigRead::Missing => Ok(Config::default()),
            ConfigRead::Unreadable(t) => Err(OrchestratorError::Io(t)),
            ConfigRead::Malformed(t) => Err(OrchestratorError::ConfigError(t)),
            ConfigRead::Parsed(c) => Ok(c),
        }
    }

    /// The first machine called `name`.
    pub fn find(&self, name: &str) -> (r: Option<&Machine>)
        ensures
            r is None <==> !has_named(self.machine@, name@),
            r matches Some(m) ==> exists|i: int|
                first_named(self.machine@, name@, i) && *m == self.machine@[i],
    {
        let key = name.to_owned();
        let n = self.machine.len();
        let mut i: usize = 0;
        while i < n
            invariant
                n == self.machine@.len(),
                i <= n,
                key@ == name@,
                forall|j: int| 0 <= j < i ==> self.machine@[j].name@ != name@,
            decreases n - i,
        {
            if self.machine[i].name == key {
                assert(first_named(self.machine@, name@, i as int));
                return Some(&self.machine[i]);
            }
            i = i + 1;
        }
        None
    }

    /// Registers `m`: it takes the place of the first machine with the same
    /// name, or is appended when there is none.
    pub fn upsert(&mut self, m: Machine)
        ensures
            final(self).onboarding_done == old(self).onboarding_done,
            final(self).mcp_port == old(self).mcp_port,
            final(self).mcp_auth_token == old(self).mcp_auth_token,
            final(self).machine@ == upserted(old(self).machine@, m),
    {
        let n = self.machine.len();
        let mut i: usize = 0;
        while i < n
            invariant
                n == self.machine@.len(),
                i <= n,
                self.machine@ == old(self).machine@,
                self.onboarding_done == old(self).onboarding_done,
                self.mcp_port == old(self).mcp_port,
                self.mcp_auth_token == old(self).mcp_auth_token,
                forall|j: int| 0 <= j < i ==> self.machine@[j].name@ != m.name@,
            decreases n - i,
        {
            if self.machine[i].name == m.name {
                proof {
                    let ms = self.machine@;
                    assert(first_named(ms, m.name@, i as int));
                    assert(has_named(ms, m.name@));
                    lemma_first_named_unique(ms, m.name@, i as int, first_index(ms, m.name@));
                }
                self.machine.set(i, m);
                return;
            }
            i = i + 1;
        }
        self.machine.push(m);
    }

    /// Unregisters every machine called `name`; whether there was one.
    pub fn remove(&mut self, name: &str) -> (removed: bool)
        ensures
            final(self).onboarding_done == old(self).onboarding_done,
            final(self).mcp_port == old(self).mcp_port,
            final(self).mcp_auth_token == old(self).mcp_auth_token,
            final(self).machine@ == without_named(old(self).machine@, name@),
            removed == has_named(old(self).machine@, name@),
    {
        let key = name.to_owned();
        let ghost orig = self.machine@;
        let n0 = self.machine.len();
        let mut found = false;
        let mut i: usize = 0;
        let mut j: usize = 0;
        while i < self.machine.len()
            invariant
                key@ == name@,
                n0 == orig.len(),
                j <= orig.len(),
                self.machine@ == without_named(orig.take(j as int), name@) + orig.skip(j as int),
                i == without_named(orig.take(j as int), name@).len(),
                found == has_named(orig.take(j as int), name@),
                self.onboarding_done == old(self).onboarding_done,
                self.mcp_port == old(self).mcp_port,
                self.mcp_auth_token == old(self).mcp_auth_token,
                orig == old(self).machine@,
            decreases orig.len() - j,
        {
            assert(orig.skip(j as int).len() > 0);
            assert(self.machine@[i as int] == orig[j as int]);
            assert(orig.take(j + 1).drop_last() =~= orig.take(j as int));
            assert(orig.take(j + 1).last() == orig[j as int]);
            if self.machine[i].name == key {
                self.machine.remove(i);
                assert(self.machine@ =~= without_named(orig.take(j + 1), name@) + orig.skip(j + 1));
                found = true;
                assert(orig.take(j + 1)[j as int].name@ == name@);
            } else {
                assert(self.machine@ =~= without_named(orig.take(j + 1), name@) + orig.skip(j + 1));
                i = i + 1;
                assert(has_named(orig.take(j + 1), name@) == has_named(orig.take(j as int), name@))
                    by {
                    let t1 = orig.take(j + 1);
                    let t0 = orig.take(j as int);
                    if has_named(t1, name@) {
                        let k = choose|k: int| 0 <= k < t1.len() && (#[trigger] t1[k]).name@ == name@;
                        assert(t0[k].name@ == name@);
                    }
                    if has_named(t0, name@) {
                        let k = choose|k: int| 0 <= k < t0.len() && (#[trigger] t0[k]).name@ == name@;
                        assert(t1[k].name@ == name@);
                    }
                }
            }
            j = j + 1;
        }
        assert(orig.take(j as int) =~= orig);
        found
    }
}


// ---------------------------------------------------------------------------
// Laws of the machine registry
// ---------------------------------------------------------------------------

/// After registering `m`, looking up its name finds `m`.
pub proof fn law_find_after_upsert(ms: Seq<Machine>, m: Machine)
    ensures
        has_named(upserted(ms, m), m.name@),
        exists|k: int| first_named(upserted(ms, m), m.name@, k) && upserted(ms, m)[k] == m,
{
    let ms2 = upserted(ms, m);
    if has_named(ms, m.name@) {
        let i = first_index(ms, m.name@);
        lemma_first_index(ms, m.name@);
        assert(first_named(ms2, m.name@, i));
    } else {
        let k = ms.len() as int;
        assert forall|j: int| 0 <= j < k implies ms2[j].name@ != m.name@ by {
            assert(ms2[j] == ms[j]);
            if ms[j].name@ == m.name@ {
                assert(has_named(ms, m.name@));
            }
        }
        assert(first_named(ms2, m.name@, k));
    }
}

/// Registering `m` leaves the lookup of every other name as it was.
pub proof fn law_upsert_keeps_others(ms: Seq<Machine>, m: Machine, name: Seq<char>, i: int)
    requires
        name != m.name@,
    ensures
        has_named(upserted(ms, m), name) == has_named(ms, name),
        first_named(ms, name, i) <==> first_named(upserted(ms, m), name, i),
        first_named(ms, name, i) ==> upserted(ms, m)[i] == ms[i],
{
    let ms2 = upserted(ms, m);
    if has_named(ms, m.name@) {
        let f = first_index(ms, m.name@);
        lemma_first_index(ms, m.name@);
        assert forall|j: int| 0 <= j < ms.len() implies (ms2[j].name@ == name) == (ms[j].name@
            == name) by {
            if j == f {
                assert(ms2[j] == m);
            }
        }
        if has_named(ms2, name) {
            let j = choose|j: int| 0 <= j < ms2.len() && (#[trigger] ms2[j]).name@ == name;
            assert(ms[j].name@ == name);
        }
        if has_named(ms, name) {
            let j = choose|j: int| 0 <= j < ms.len() && (#[trigger] ms[j]).name@ == name;
            assert(ms2[j].name@ == name);
        }
    } else {
        assert forall|j: int| 0 <= j < ms.len() implies ms2[j] == ms[j] by {}
        if has_named(ms2, name) {
            let j = choose|j: int| 0 <= j < ms2.len() && (#[trigger] ms2[j]).name@ == name;
            assert(j < ms.len());
            assert(ms[j].name@ == name);
        }
        if has_named(ms, name) {
            let j = choose|j: int| 0 <= j < ms.len() && (#[trigger] ms[j]).name@ == name;
            assert(ms2[j].name@ == name);
        }
    }
}

/// Registering a name that is already there keeps the number of machines;
/// registering a new one adds one.
pub proof fn law_upsert_len(ms: Seq<Machine>, m: Machine)
    ensures
        has_named(ms, m.name@) ==> upserted(ms, m).len() == ms.len(),
        !has_named(ms, m.name@) ==> upserted(ms, m).len() == ms.len() + 1,
{
    if has_named(ms, m.name@) {
        lemma_first_index(ms, m.name@);
    }
}

/// Registering the same machine twice is the same as registering it once.
pub proof fn law_upsert_idempotent(ms: Seq<Machine>, m: Machine)
    ensures
        upserted(upserted(ms, m), m) == upserted(ms, m),
{
    let ms1 = upserted(ms, m);
    law_find_after_upsert(ms, m);
    let k = choose|k: int| first_named(ms1, m.name@, k) && ms1[k] == m;
    lemma_first_named_unique(ms1, m.name@, k, first_index(ms1, m.name@));
    assert(upserted(ms1, m) =~= ms1);
}

proof fn lemma_without_named_absent(ms: Seq<Machine>, name: Seq<char>)
    ensures
        !has_named(without_named(ms, name), name),
        forall|j: int|
            0 <= j < without_named(ms, name).len() ==> (#[trigger] without_named(ms, name)[j]).name@
                != name,
    decreases ms.len(),
{
    if ms.len() > 0 {
        lemma_without_named_absent(ms.drop_last(), name);
    }
}

/// After unregistering a name, no machine has it (so a second removal reports
/// that nothing was there).
pub proof fn law_remove_then_find(ms: Seq<Machine>, name: Seq<char>)
    ensures
        !has_named(without_named(ms, name), name),
{
    lemma_without_named_absent(ms, name);
}

proof fn lemma_without_named_keeps(ms: Seq<Machine>, name: Seq<char>, other: Seq<char>)
    requires
        other != name,
    ensures
        has_named(without_named(ms, name), other) == has_named(ms, other),
    decreases ms.len(),
{
    if ms.len() > 0 {
        let init = ms.drop_last();
        lemma_without_named_keeps(init, name, other);
        let w = without_named(ms, name);
        let wi = without_named(init, name);
        if has_named(ms, other) {
            let j = choose|j: int| 0 <= j < ms.len() && (#[trigger] ms[j]).name@ == other;
            if j < ms.len() - 1 {
                assert(init[j].name@ == other);
                let k = choose|k: int| 0 <= k < wi.len() && (#[trigger] wi[k]).name@ == other;
                assert(w[k] == wi[k]);
            } else {
                assert(w[w.len() - 1] == ms.last());
            }
        }
        if has_named(w, other) {
            let k = choose|k: int| 0 <= k < w.len() && (#[trigger] w[k]).name@ == other;
            if k < wi.len() {
                assert(w[k] == wi[k]);
                let j = choose|j: int| 0 <= j < init.len() && (#[trigger] init[j]).name@ == other;
                assert(ms[j] == init[j]);
            } else {
                assert(ms[ms.len() - 1].name@ == other);
            }
        }
    }
}

/// Unregistering a name leaves every other name registered or not as it was.
pub proof fn law_remove_keeps_others(ms: Seq<Machine>, name: Seq<char>, other: Seq<char>)
    requires
        other != name,
    ensures
        has_named(without_named(ms, name), other) == has_named(ms, other),
{
    lemma_without_named_keeps(ms, name, other);
}

proof fn lemma_without_update(ms: Seq<Machine>, name: Seq<char>, i: int, m: Machine)
    requires
        0 <= i < ms.len(),
        ms[i].name@ == name,
        m.name@ == name,
    ensures
        without_named(ms.update(i, m), name) == without_named(ms, name),
    decreases ms.len(),
{
    if i < ms.len() - 1 {
        lemma_without_update(ms.drop_last(), name, i, m);
        assert(ms.update(i, m).drop_last() =~= ms.drop_last().update(i, m));
    } else {
        assert(ms.update(i, m).drop_last() =~= ms.drop_last());
    }
}

/// Registering `m` and then unregistering its name is the same as only
/// unregistering the name.
pub proof fn law_remove_after_upsert(ms: Seq<Machine>, m: Machine)
    ensures
        without_named(upserted(ms, m), m.name@) == without_named(ms, m.name@),
{
    if has_named(ms, m.name@) {
        let f = first_index(ms, m.name@);
        lemma_first_index(ms, m.name@);
        lemma_without_update(ms, m.name@, f, m);
    } else {
        assert(ms.push(m).drop_last() =~= ms);
    }
}

} // verus!
