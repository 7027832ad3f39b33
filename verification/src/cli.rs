//! The two registries of a command-line program and the lookups in them.
use vstd::prelude::*;
use crate::text::texts;

verus! {

/// A command: the word on the command line that selects what the program does, e.g.
/// `app list`.
pub struct Argument {
    /// The word that selects the command.
    pub name: String,
    /// What the command does, shown in the help.
    pub description: String,
    /// Whether the command takes a value behind it, e.g. `app rfc <arg>`.
    pub arg: bool,
}

/// An option that may stand beside a command, e.g. `app list -v`.
pub struct Flag {
    /// The accepted spellings. One of a single character is written behind one dash and can be
    /// bundled with others (`-va`); any spelling can be written behind two dashes
    /// (`--verbose`).
    pub flags: Vec<String>,
    /// What the flag does, shown in the help.
    pub description: String,
}

/// A command-line program: its name, version and description, and its two registries.
pub struct CLI {
    /// The program's name, shown in the help.
    pub app_name: String,
    /// The program's version, shown in the help.
    pub app_version: String,
    /// A short description, shown in the help.
    pub app_description: String,
    /// The commands, in registry order.
    pub arguments: Vec<Argument>,
    /// The flags, in registry order. A flag is known by its slot in this registry.
    pub flags: Vec<Flag>,
}

/// What a command is to the parser and the help: plain text and a switch.
pub struct ArgumentView {
    pub name: Seq<char>,
    pub description: Seq<char>,
    pub arg: bool,
}

/// What a flag is to the parser and the help: its spellings and its description.
pub struct FlagView {
    pub spellings: Seq<Seq<char>>,
    pub description: Seq<char>,
}

/// What a program is to the parser and the help.
pub struct CliView {
    pub app_name: Seq<char>,
    pub app_version: Seq<char>,
    pub app_description: Seq<char>,
    pub arguments: Seq<ArgumentView>,
    pub flags: Seq<FlagView>,
}

impl View for Argument {
    type V = ArgumentView;

    open spec fn view(&self) -> ArgumentView {
        ArgumentView { name: self.name@, description: self.description@, arg: self.arg }
    }
}

impl View for Flag {
    type V = FlagView;

    open spec fn view(&self) -> FlagView {
        FlagView { spellings: texts(self.flags@), description: self.description@ }
    }
}

impl View for CLI {
    type V = CliView;

    open spec fn view(&self) -> CliView {
        CliView {
            app_name: self.app_name@,
            app_version: self.app_version@,
            app_description: self.app_description@,
            arguments: Seq::new(self.arguments@.len(), |i: int| self.arguments@[i]@),
            flags: Seq::new(self.flags@.len(), |i: int| self.flags@[i]@),
        }
    }
}

impl FlagView {
    /// Whether `name` is one of the flag's spellings, letter for letter.
    pub open spec fn accepts(self, name: Seq<char>) -> bool {
        self.spellings.contains(name)
    }
}

/// Whether slot `i` holds the first flag of `flags` that accepts `name`.
pub open spec fn is_first_flag(flags: Seq<FlagView>, name: Seq<char>, i: int) -> bool {
    &&& 0 <= i < flags.len()
    &&& flags[i].accepts(name)
    &&& forall|k: int| 0 <= k < i ==> !(#[trigger] flags[k]).accepts(name)
}

/// The slot of the first flag of `flags` that accepts `name`, if any does.
pub open spec fn lookup_flag(flags: Seq<FlagView>, name: Seq<char>) -> Option<int> {
    if exists|i: int| is_first_flag(flags, name, i) {
        Some(choose|i: int| is_first_flag(flags, name, i))
    } else {
        None
    }
}

/// Whether slot `i` holds the first command of `arguments` that is called `name`.
pub open spec fn is_first_argument(arguments: Seq<ArgumentView>, name: Seq<char>, i: int) -> bool {
    &&& 0 <= i < arguments.len()
    &&& arguments[i].name == name
    &&& forall|k: int| 0 <= k < i ==> (#[trigger] arguments[k]).name != name
}

/// The slot of the first command of `arguments` that is called `name`, if any is.
pub open spec fn lookup_argument(arguments: Seq<ArgumentView>, name: Seq<char>) -> Option<int> {
    if exists|i: int| is_first_argument(arguments, name, i) {
        Some(choose|i: int| is_first_argument(arguments, name, i))
    } else {
        None
    }
}

/// The first flag that accepts a name is the only one to be the first.
pub proof fn lemma_first_flag(flags: Seq<FlagView>, name: Seq<char>, i: int)
    requires
        is_first_flag(flags, name, i),
    ensures
        lookup_flag(flags, name) == Some(i),
{
    let j = choose|j: int| is_first_flag(flags, name, j);
    assert(is_first_flag(flags, name, j));
    if j < i {
        assert(!flags[j].accepts(name));
    }
    if i < j {
        assert(!flags[i].accepts(name));
    }
}

/// Where some flag accepts a name, the lookup finds the first that does, at or before it.
pub proof fn lemma_flag_found(flags: Seq<FlagView>, name: Seq<char>, k: int)
    requires
        0 <= k < flags.len(),
        flags[k].accepts(name),
    ensures
        lookup_flag(flags, name) is Some,
        is_first_flag(flags, name, lookup_flag(flags, name)->0),
        lookup_flag(flags, name)->0 <= k,
    decreases k,
{
    if exists|m: int| 0 <= m < k && (#[trigger] flags[m]).accepts(name) {
        let m = choose|m: int| 0 <= m < k && (#[trigger] flags[m]).accepts(name);
        lemma_flag_found(flags, name, m);
    } else {
        assert(is_first_flag(flags, name, k));
        lemma_first_flag(flags, name, k);
    }
}

/// The first command of a name is the only one to be the first.
pub proof fn lemma_first_argument(arguments: Seq<ArgumentView>, name: Seq<char>, i: int)
    requires
        is_first_argument(arguments, name, i),
    ensures
        lookup_argument(arguments, name) == Some(i),
{
    let j = choose|j: int| is_first_argument(arguments, name, j);
    assert(is_first_argument(arguments, name, j));
    if j < i {
        assert(arguments[j].name != name);
    }
    if i < j {
        assert(arguments[i].name != name);
    }
}

impl Flag {
    /// Whether `name` is one of the flag's spellings.
    pub fn accepts(&self, name: &String) -> (r: bool)
        ensures
            r == self@.accepts(name@),
    {
        let mut j: usize = 0;
        while j < self.flags.len()
            invariant
                j <= self.flags.len(),
                forall|m: int| 0 <= m < j ==> self.flags@[m]@ != name@,
            decreases self.flags.len() - j,
        {
            if self.flags[j] == *name {
                assert(self@.spellings[j as int] == name@);
                return true;
            }
            j += 1;
        }
        false
    }
}

impl CLI {
    /// Looks a flag up by one of its spellings and returns the slot of the first flag of the
    /// registry that accepts `flag`, or `None` where no flag does.
    pub fn handle_flag(&self, flag: &String) -> (r: Option<usize>)
        ensures
            match r {
                Some(i) => lookup_flag(self@.flags, flag@) == Some(i as int),
                None => lookup_flag(self@.flags, flag@) is None,
            },
            r is Some ==> is_first_flag(self@.flags, flag@, r->0 as int),
            r is None ==> forall|k: int|
                0 <= k < self.flags@.len() ==> !(#[trigger] self@.flags[k]).accepts(flag@),
    {
        let mut i: usize = 0;
        while i < self.flags.len()
            invariant
                i <= self.flags.len(),
                forall|k: int| 0 <= k < i ==> !(#[trigger] self@.flags[k]).accepts(flag@),
            decreases self.flags.len() - i,
        {
            if self.flags[i].accepts(flag) {
                proof {
                    lemma_first_flag(self@.flags, flag@, i as int);
                }
                return Some(i);
            }
            i += 1;
        }
        None
    }

    /// Looks a command up by its name and returns the slot of the first command of the
    /// registry that is called `name`, or `None` where none is.
    pub fn find_argument(&self, name: &String) -> (r: Option<usize>)
        ensures
            match r {
                Some(i) => lookup_argument(self@.arguments, name@) == Some(i as int),
                None => lookup_argument(self@.arguments, name@) is None,
            },
            r is Some ==> is_first_argument(self@.arguments, name@, r->0 as int),
            r is None ==> forall|k: int|
                0 <= k < self.arguments@.len() ==> (#[trigger] self@.arguments[k]).name != name@,
    {
        let mut i: usize = 0;
        while i < self.arguments.len()
            invariant
                i <= self.arguments.len(),
                forall|k: int| 0 <= k < i ==> (#[trigger] self@.arguments[k]).name != name@,
            decreases self.arguments.len() - i,
        {
            if self.arguments[i].name == *name {
                proof {
                    lemma_first_argument(self@.arguments, name@, i as int);
                }
                return Some(i);
            }
            i += 1;
        }
        None
    }
}

} // verus!
