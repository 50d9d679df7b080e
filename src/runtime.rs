use vstd::prelude::*;
use crate::status::Status;
use crate::MAX_DEPTH;

verus! {

/// The builtins that run inside the shell instead of in a new process.
#[derive(Clone, Copy, Debug, PartialEq, Eq, Structural)]
pub enum Builtin {
    /// Runs its arguments, joined by spaces, as a new command line.
    Command,
}

/// The state of a session as the contracts see it.
pub struct RuntimeModel {
    pub last_status: Status,
    pub depth: nat,
    /// Registered builtins by name; the earliest entry for a name wins.
    pub builtins: Seq<(Seq<u8>, Builtin)>,
}

impl RuntimeModel {
    pub open spec fn wf(self) -> bool {
        self.depth <= MAX_DEPTH
    }
}

/// The name under which the `command` builtin is registered.
pub open spec fn command_name() -> Seq<u8> {
    seq![99u8, 111u8, 109u8, 109u8, 97u8, 110u8, 100u8]
}

/// The builtin that a name resolves to, if any.
pub open spec fn builtin_named(reg: Seq<(Seq<u8>, Builtin)>, name: Seq<u8>) -> Option<Builtin>
    decreases reg.len(),
{
    if reg.len() == 0 {
        None
    } else if reg[0].0 == name {
        Some(reg[0].1)
    } else {
        builtin_named(reg.skip(1), name)
    }
}

/// State shared by every command of one shell session.
pub struct Runtime {
    last_status: Status,
    depth: usize,
    builtins: Vec<(Vec<u8>, Builtin)>,
}

impl View for Runtime {
    type V = RuntimeModel;

    closed spec fn view(&self) -> RuntimeModel {
        RuntimeModel {
            last_status: self.last_status,
            depth: self.depth as nat,
            builtins: self.builtins@.map_values(|e: (Vec<u8>, Builtin)| (e.0@, e.1)),
        }
    }
}

fn same_bytes(a: &[u8], b: &[u8]) -> (r: bool)
    ensures
        r == (a@ == b@),
{
    if a.len() != b.len() {
        return false;
    }
    let mut i: usize = 0;
    while i < a.len()
        invariant
            a@.len() == b@.len(),
            i <= a@.len(),
            forall|j: int| 0 <= j < i ==> a@[j] == b@[j],
        decreases a@.len() - i,
    {
        if a[i] != b[i] {
            return false;
        }
        i = i + 1;
    }
    assert(a@ =~= b@);
    true
}

impl Runtime {
    /// A fresh session: last status success, depth 0, and `command` registered.
    pub fn new() -> (r: Runtime)
        ensures
            r@ == (RuntimeModel {
                last_status: Status::Exited(0),
                depth: 0,
                builtins: seq![(command_name(), Builtin::Command)],
            }),
            r@.wf(),
    {
        let name: Vec<u8> = vec![99u8, 111u8, 109u8, 109u8, 97u8, 110u8, 100u8];
        let mut builtins: Vec<(Vec<u8>, Builtin)> = Vec::new();
        builtins.push((name, Builtin::Command));
        let r = Runtime { last_status: Status::Exited(0), depth: 0, builtins };
        assert(r@.builtins =~= seq![(command_name(), Builtin::Command)]);
        r
    }

    pub fn last_status(&self) -> (r: Status)
        ensures
            r == self@.last_status,
    {
        self.last_status
    }

    pub fn set_last_status(&mut self, status: Status)
        ensures
            final(self)@ == (RuntimeModel { last_status: status, ..old(self)@ }),
    {
        self.last_status = status;
    }

    pub fn depth(&self) -> (r: usize)
        ensures
            r as nat == self@.depth,
    {
        self.depth
    }

    /// Counts one more nested dispatch.
    pub fn enter(&mut self)
        requires
            old(self)@.depth < MAX_DEPTH,
        ensures
            final(self)@ == (RuntimeModel { depth: old(self)@.depth + 1, ..old(self)@ }),
    {
        self.depth = self.depth + 1;
    }

    /// Counts one nested dispatch less.
    pub fn leave(&mut self)
        requires
            old(self)@.depth > 0,
        ensures
            final(self)@ == (RuntimeModel { depth: (old(self)@.depth - 1) as nat, ..old(self)@ }),
    {
        self.depth = self.depth - 1;
    }

    /// Makes `name` resolve to `builtin`, over any earlier registration.
    pub fn register(&mut self, name: Vec<u8>, builtin: Builtin)
        ensures
            final(self)@ == (RuntimeModel {
                builtins: seq![(name@, builtin)] + old(self)@.builtins,
                ..old(self)@
            }),
    {
        let ghost before = self.builtins@;
        self.builtins.insert(0, (name, builtin));
        assert(self.builtins@.map_values(|e: (Vec<u8>, Builtin)| (e.0@, e.1)) =~= seq![(name@, builtin)]
            + before.map_values(|e: (Vec<u8>, Builtin)| (e.0@, e.1)));
    }

    /// The builtin that `name` resolves to, if any.
    pub fn lookup(&self, name: &[u8]) -> (r: Option<Builtin>)
        ensures
            r == builtin_named(self@.builtins, name@),
    {
        let ghost reg = self@.builtins;
        let mut i: usize = 0;
        assert(reg.skip(0) =~= reg);
        while i < self.builtins.len()
            invariant
                reg == self@.builtins,
                i <= reg.len(),
                builtin_named(reg, name@) == builtin_named(reg.skip(i as int), name@),
            decreases reg.len() - i,
        {
            let entry = &self.builtins[i];
            assert(reg.skip(i as int)[0] == reg[i as int]);
            assert(reg.skip(i as int).skip(1) =~= reg.skip(i + 1));
            if same_bytes(entry.0.as_slice(), name) {
                return Some(entry.1);
            }
            i = i + 1;
        }
        assert(reg.skip(i as int).len() == 0);
        None
    }
}

} // verus!
