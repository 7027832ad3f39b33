use wildptr::cli::{Argument, Flag, CLI};

fn owned(s: &str) -> String {
    s.to_string()
}

fn spelled(spellings: &[&str]) -> Flag {
    Flag { flags: spellings.iter().map(|s| s.to_string()).collect(), description: owned("") }
}

fn client() -> CLI {
    CLI {
        app_name: owned("wildptr"),
        app_version: owned("1.0.0"),
        app_description: owned("(c) harrego"),
        arguments: vec![
            Argument { name: owned("list"), description: owned("list all RFCs"), arg: false },
            Argument {
                name: owned("rfc"),
                description: owned("specify info on a specific rfc"),
                arg: true,
            },
        ],
        flags: vec![Flag {
            flags: vec![owned("v"), owned("verbose")],
            description: owned("verbose mode"),
        }],
    }
}

#[test]
fn help_of_the_client() {
    let expected = "wildptr v1.0.0\n\
                    (c) harrego\n\
                    \n\
                    usage: wildptr [-v | --verbose] \n\
                    \n\
                    arguments:\n\
                    \x20   list - list all RFCs\n\
                    \x20   rfc <arg> - specify info on a specific rfc\n";
    assert_eq!(client().render_help(), expected);
}

#[test]
fn help_without_flags_and_commands() {
    let cli = CLI {
        app_name: owned("tool"),
        app_version: owned("0.1"),
        app_description: owned("does little"),
        arguments: vec![],
        flags: vec![],
    };
    assert_eq!(cli.render_help(), "tool v0.1\ndoes little\n\nusage: wildptr \n\narguments:\n");
}

#[test]
fn help_lists_every_flag_in_registry_order() {
    let mut cli = client();
    cli.flags.push(spelled(&["all", "a", "everything"]));
    cli.flags.push(spelled(&["q"]));
    cli.flags.push(spelled(&[]));
    let help = cli.render_help();
    assert!(
        help.contains("usage: wildptr [-v | --verbose] [--all | -a | --everything] [-q] [] \n")
    );
}

#[test]
fn usage_of_one_flag() {
    assert_eq!(spelled(&["v", "verbose"]).usage(), "[-v | --verbose] ");
    assert_eq!(spelled(&["verbose"]).usage(), "[--verbose] ");
    assert_eq!(spelled(&["v"]).usage(), "[-v] ");
    assert_eq!(spelled(&["x", "y", "z"]).usage(), "[-x | -y | -z] ");
    assert_eq!(spelled(&[]).usage(), "[] ");
}

#[test]
fn dashes_go_by_characters_not_bytes() {
    assert_eq!(spelled(&["é", "ét"]).usage(), "[-é | --ét] ");
    assert_eq!(spelled(&[""]).usage(), "[-] ");
}

#[test]
fn line_of_one_command() {
    let plain = Argument { name: owned("list"), description: owned("list all RFCs"), arg: false };
    assert_eq!(plain.help_line(), "    list - list all RFCs\n");
    let valued = Argument { name: owned("rfc"), description: owned("one record"), arg: true };
    assert_eq!(valued.help_line(), "    rfc <arg> - one record\n");
}
