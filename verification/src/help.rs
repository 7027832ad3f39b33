//! The help: a summary of the program and its two registries, as text.
use vstd::prelude::*;
use crate::cli::{Argument, ArgumentView, CliView, Flag, FlagView, CLI};

verus! {

/// A spelling as it is written on the command line: behind two dashes where it has more than
/// one character, behind one dash otherwise.
pub open spec fn spec_spelled(spelling: Seq<char>) -> Seq<char> {
    if spelling.len() > 1 {
        "--"@ + spelling
    } else {
        "-"@ + spelling
    }
}

/// The spellings of one flag as they are written, with ` | ` between each two.
pub open spec fn spec_alternatives(spellings: Seq<Seq<char>>) -> Seq<char>
    decreases spellings.len(),
{
    if spellings.len() == 0 {
        Seq::empty()
    } else if spellings.len() == 1 {
        spec_spelled(spellings[0])
    } else {
        spec_alternatives(spellings.drop_last()) + " | "@ + spec_spelled(spellings.last())
    }
}

/// One flag in the usage line: its spellings in square brackets, and a space.
pub open spec fn spec_flag_group(flag: FlagView) -> Seq<char> {
    "["@ + spec_alternatives(flag.spellings) + "] "@
}

/// The flags in the usage line, in registry order.
pub open spec fn spec_flag_groups(flags: Seq<FlagView>) -> Seq<char>
    decreases flags.len(),
{
    if flags.len() == 0 {
        Seq::empty()
    } else {
        spec_flag_groups(flags.drop_last()) + spec_flag_group(flags.last())
    }
}

/// The line of one command: its name, `<arg>` where it takes a value, and its description.
pub open spec fn spec_argument_line(argument: ArgumentView) -> Seq<char> {
    if argument.arg {
        "    "@ + argument.name + " <arg> - "@ + argument.description + "\n"@
    } else {
        "    "@ + argument.name + " - "@ + argument.description + "\n"@
    }
}

/// The lines of the commands, in registry order.
pub open spec fn spec_argument_lines(arguments: Seq<ArgumentView>) -> Seq<char>
    decreases arguments.len(),
{
    if arguments.len() == 0 {
        Seq::empty()
    } else {
        spec_argument_lines(arguments.drop_last()) + spec_argument_line(arguments.last())
    }
}

/// The help: a title line of name and version, the description, the usage line with every
/// flag, and a line for every command. The usage line names the client, `wildptr`, whatever
/// the program's name.
pub open spec fn spec_help(cli: CliView) -> Seq<char> {
    cli.app_name + " v"@ + cli.app_version + "\n"@ + cli.app_description + "\n"@
        + "\nusage: wildptr "@ + spec_flag_groups(cli.flags) + "\n"@ + "\narguments:\n"@
        + spec_argument_lines(cli.arguments)
}

impl Flag {
    /// The flag as it stands in the usage line, e.g. `[-v | --verbose] `.
    pub fn usage(&self) -> (r: String)
        ensures
            r@ == spec_flag_group(self@),
    {
        let ghost spellings = self@.spellings;
        let mut out = String::from_str("[");
        let mut j: usize = 0;
        while j < self.flags.len()
            invariant
                j <= self.flags.len(),
                spellings == self@.spellings,
                out@ == "["@ + spec_alternatives(spellings.take(j as int)),
            decreases self.flags.len() - j,
        {
            let ghost before = out@;
            if j > 0 {
                out.append(" | ");
            }
            let spelling = self.flags[j].as_str();
            if spelling.unicode_len() > 1 {
                out.append("--");
            } else {
                out.append("-");
            }
            out.append(spelling);
            proof {
                let upto = spellings.take(j + 1);
                assert(upto.drop_last() =~= spellings.take(j as int));
                assert(upto.last() == spelling@);
                assert(out@ =~= "["@ + spec_alternatives(upto));
            }
            j += 1;
        }
        assert(spellings.take(j as int) =~= spellings);
        out.append("] ");
        out
    }
}

impl Argument {
    /// The command's line in the help, e.g. `    rfc <arg> - show one record`, with the end of
    /// line.
    pub fn help_line(&self) -> (r: String)
        ensures
            r@ == spec_argument_line(self@),
    {
        let mut out = String::from_str("    ");
        out.append(self.name.as_str());
        if self.arg {
            out.append(" <arg> - ");
        } else {
            out.append(" - ");
        }
        out.append(self.description.as_str());
        out.append("\n");
        out
    }
}

impl CLI {
    /// Renders the help: see [`spec_help`].
    pub fn render_help(&self) -> (r: String)
        ensures
            r@ == spec_help(self@),
    {
        let ghost cli = self@;
        let mut out = self.app_name.clone();
        out.append(" v");
        out.append(self.app_version.as_str());
        out.append("\n");
        out.append(self.app_description.as_str());
        out.append("\n");
        out.append("\nusage: wildptr ");
        let ghost head = out@;
        let mut i: usize = 0;
        while i < self.flags.len()
            invariant
                i <= self.flags.len(),
                cli == self@,
                out@ == head + spec_flag_groups(cli.flags.take(i as int)),
            decreases self.flags.len() - i,
        {
            let group = self.flags[i].usage();
            out.append(group.as_str());
            proof {
                let upto = cli.flags.take(i + 1);
                assert(upto.drop_last() =~= cli.flags.take(i as int));
                assert(upto.last() == self.flags@[i as int]@);
                assert(out@ =~= head + spec_flag_groups(upto));
            }
            i += 1;
        }
        assert(cli.flags.take(i as int) =~= cli.flags);
        out.append("\n");
        out.append("\narguments:\n");
        let ghost middle = out@;
        let mut k: usize = 0;
        while k < self.arguments.len()
            invariant
                k <= self.arguments.len(),
                cli == self@,
                out@ == middle + spec_argument_lines(cli.arguments.take(k as int)),
            decreases self.arguments.len() - k,
        {
            let line = self.arguments[k].help_line();
            out.append(line.as_str());
            proof {
                let upto = cli.arguments.take(k + 1);
                assert(upto.drop_last() =~= cli.arguments.take(k as int));
                assert(upto.last() == self.arguments@[k as int]@);
                assert(out@ =~= middle + spec_argument_lines(upto));
            }
            k += 1;
        }
        assert(cli.arguments.take(k as int) =~= cli.arguments);
        assert(out@ =~= spec_help(cli));
        out
    }
}

} // verus!
