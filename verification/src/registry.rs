//! The command registry: an ordered list of name/builtin pairs, built once
//! at startup. Lookup returns the earliest entry with a matching name, and
//! the registration order is queryable for introspection.

use vstd::prelude::*;
use vstd::string::StringExecFns;

verus! {

/// The closed set of built-in command kinds. `Run` is the internal entry
/// that forwards an unrecognized name to an external program.
#[derive(Clone, Copy, PartialEq, Eq, Structural, Debug)]
pub enum Builtin {
    Exit,
    Echo,
    Type,
    Run,
}

pub struct Entry {
    pub name: String,
    pub builtin: Builtin,
}

impl View for Entry {
    type V = (Seq<char>, Builtin);

    open spec fn view(&self) -> (Seq<char>, Builtin) {
        (self.name@, self.builtin)
    }
}

/// The registry. Entries are only ever appended; duplicates are allowed and
/// lookup favours the earliest.
pub struct CommandEnv {
    pub entries: Vec<Entry>,
}

impl View for CommandEnv {
    type V = Seq<(Seq<char>, Builtin)>;

    open spec fn view(&self) -> Seq<(Seq<char>, Builtin)> {
        self.entries@.map_values(|e: Entry| e@)
    }
}

/// The first entry whose name equals `name`, scanning in registration order.
pub open spec fn lookup_in(entries: Seq<(Seq<char>, Builtin)>, name: Seq<char>) -> Option<
    Builtin,
>
    decreases entries.len(),
{
    if entries.len() == 0 {
        None
    } else if entries[0].0 == name {
        Some(entries[0].1)
    } else {
        lookup_in(entries.skip(1), name)
    }
}

/// The registered names, in registration order.
pub open spec fn names_of(entries: Seq<(Seq<char>, Builtin)>) -> Seq<Seq<char>> {
    entries.map_values(|p: (Seq<char>, Builtin)| p.0)
}

/// The name of the internal entry that runs external programs. It is
/// registered like any builtin but is plumbing, not part of the user-visible
/// command surface.
pub open spec fn run_internal_name() -> Seq<char> {
    ("__r_u_n__")@
}

/// Whether `name` is a registered, user-visible builtin: the internal
/// sentinel entry is excluded.
pub open spec fn is_user_builtin(entries: Seq<(Seq<char>, Builtin)>, name: Seq<char>) -> bool {
    name != run_internal_name() && (exists|i: int|
        0 <= i < entries.len() && entries[i].0 == name)
}

impl CommandEnv {
    /// Appends an entry; nothing is ever removed or reordered.
    pub fn push(&mut self, name: String, builtin: Builtin)
        ensures
            final(self)@ == old(self)@.push((name@, builtin)),
    {
        let ghost before = self@;
        self.entries.push(Entry { name, builtin });
        proof {
            assert(self@ =~= before.push((self.entries@.last().name@, builtin)));
        }
    }

    /// All registered names in registration order, the internal sentinel
    /// included: presentation to a user is the caller's concern.
    pub fn names(&self) -> (r: Vec<String>)
        ensures
            r.deep_view() == names_of(self@),
    {
        let mut r: Vec<String> = Vec::new();
        let mut i: usize = 0;
        while i < self.entries.len()
            invariant
                i <= self.entries@.len(),
                r@.len() == i,
                forall|k: int| 0 <= k < i ==> r@[k]@ == self.entries@[k].name@,
            decreases self.entries@.len() - i,
        {
            r.push(self.entries[i].name.clone());
            i += 1;
        }
        proof {
            assert(r.deep_view() =~= names_of(self@));
        }
        r
    }

    /// The builtin behind the earliest entry named `name`, if any.
    pub fn lookup(&self, name: &String) -> (r: Option<Builtin>)
        ensures
            r == lookup_in(self@, name@),
    {
        let mut i: usize = 0;
        proof {
            assert(self@.skip(0) =~= self@);
        }
        while i < self.entries.len()
            invariant
                i <= self.entries@.len(),
                lookup_in(self@, name@) == lookup_in(self@.skip(i as int), name@),
            decreases self.entries@.len() - i,
        {
            if self.entries[i].name.eq(name) {
                return Some(self.entries[i].builtin);
            }
            proof {
                assert(self@.skip(i as int).skip(1) =~= self@.skip(i + 1));
            }
            i += 1;
        }
        None
    }

    /// Whether `name` is a user-visible builtin, the internal sentinel
    /// excluded, as the `type` introspection requires.
    pub fn has_user_builtin(&self, name: &String) -> (r: bool)
        ensures
            r == is_user_builtin(self@, name@),
    {
        let internal = run_internal();
        if name.eq(&internal) {
            return false;
        }
        let mut i: usize = 0;
        while i < self.entries.len()
            invariant
                i <= self.entries@.len(),
                name@ != run_internal_name(),
                forall|k: int| 0 <= k < i ==> self@[k].0 != name@,
            decreases self.entries@.len() - i,
        {
            if self.entries[i].name.eq(name) {
                proof {
                    assert(self@[i as int].0 == name@);
                }
                return true;
            }
            i += 1;
        }
        false
    }
}

/// The internal sentinel name as a string value.
pub fn run_internal() -> (r: String)
    ensures
        r@ == run_internal_name(),
{
    String::from_str("__r_u_n__")
}

/// Builds the startup registry: `exit`, `echo`, `type`, then the internal
/// external-run entry, in that order.
pub fn init() -> (r: CommandEnv)
    ensures
        r@ == seq![
            (("exit")@, Builtin::Exit),
            (("echo")@, Builtin::Echo),
            (("type")@, Builtin::Type),
            (run_internal_name(), Builtin::Run),
        ],
{
    let mut command_env = CommandEnv { entries: Vec::new() };
    proof {
        assert(command_env@ =~= Seq::<(Seq<char>, Builtin)>::empty());
    }
    command_env.push("exit".to_owned(), Builtin::Exit);
    command_env.push("echo".to_owned(), Builtin::Echo);
    command_env.push("type".to_owned(), Builtin::Type);
    command_env.push(run_internal(), Builtin::Run);
    proof {
        assert(command_env@ =~= seq![
            (("exit")@, Builtin::Exit),
            (("echo")@, Builtin::Echo),
            (("type")@, Builtin::Type),
            (run_internal_name(), Builtin::Run),
        ]);
    }
    command_env
}

} // verus!
