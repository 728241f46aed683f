//! The command line.
use vstd::prelude::*;

use crate::text::{opt_text, same_text, texts};

verus! {

/// What the command line asks for.
#[derive(Debug)]
pub struct CliArgs {
    pub config_path: Option<String>,
    pub generate_config: bool,
    pub generate_nix: bool,
    pub list_sensors: bool,
    pub list_fans: bool,
    pub status: bool,
}

/// The values of a `CliArgs`.
#[verifier::ext_equal]
pub ghost struct CliView {
    pub config_path: Option<Seq<char>>,
    pub generate_config: bool,
    pub generate_nix: bool,
    pub list_sensors: bool,
    pub list_fans: bool,
    pub status: bool,
}

impl View for CliArgs {
    type V = CliView;

    open spec fn view(&self) -> CliView {
        CliView {
            config_path: opt_text(self.config_path),
            generate_config: self.generate_config,
            generate_nix: self.generate_nix,
            list_sensors: self.list_sensors,
            list_fans: self.list_fans,
            status: self.status,
        }
    }
}

/// Nothing asked for.
pub open spec fn no_args() -> CliView {
    CliView {
        config_path: None,
        generate_config: false,
        generate_nix: false,
        list_sensors: false,
        list_fans: false,
        status: false,
    }
}

/// What the argument asks for besides what was asked for before.
pub open spec fn with_switch(cli: CliView, arg: Seq<char>) -> CliView {
    if arg == "--generate-config"@ {
        CliView { generate_config: true, ..cli }
    } else if arg == "--generate-nix"@ {
        CliView { generate_nix: true, ..cli }
    } else if arg == "--list-sensors"@ {
        CliView { list_sensors: true, ..cli }
    } else if arg == "--list-fans"@ {
        CliView { list_fans: true, ..cli }
    } else if arg == "--status"@ {
        CliView { status: true, ..cli }
    } else {
        cli
    }
}

/// What the arguments from position `i` on ask for: `--config` takes the argument behind it,
/// if there is one; what is not known is passed over.
pub open spec fn cli_from(args: Seq<Seq<char>>, i: int, cli: CliView) -> CliView
    decreases args.len() - i,
{
    if i >= args.len() {
        cli
    } else if args[i] == "--config"@ {
        if i + 1 < args.len() {
            cli_from(args, i + 2, CliView { config_path: Some(args[i + 1]), ..cli })
        } else {
            cli
        }
    } else {
        cli_from(args, i + 1, with_switch(cli, args[i]))
    }
}

/// Reads the command line; the first argument is the name of the program.
pub fn parse_cli_args(args: &Vec<String>) -> (r: CliArgs)
    ensures
        r@ == cli_from(texts(args@), 1, no_args()),
{
    let ghost all = texts(args@);
    let mut cli = CliArgs {
        config_path: None,
        generate_config: false,
        generate_nix: false,
        list_sensors: false,
        list_fans: false,
        status: false,
    };
    if args.len() == 0 {
        return cli;
    }
    let mut i: usize = 1;
    while i < args.len()
        invariant
            all == texts(args@),
            1 <= i <= args.len(),
            cli_from(all, i as int, cli@) == cli_from(all, 1, no_args()),
        decreases args.len() - i,
    {
        let arg = args[i].as_str();
        assert(arg@ == all[i as int]);
        proof {
            lemma_switch_names();
        }
        if same_text(arg, "--config") {
            if i + 1 < args.len() {
                cli.config_path = Some(args[i + 1].clone());
                assert(all[i + 1] == args@[i + 1]@);
                i = i + 2;
            } else {
                i = i + 1;
            }
        } else {
            if same_text(arg, "--generate-config") {
                cli.generate_config = true;
            } else if same_text(arg, "--generate-nix") {
                cli.generate_nix = true;
            } else if same_text(arg, "--list-sensors") {
                cli.list_sensors = true;
            } else if same_text(arg, "--list-fans") {
                cli.list_fans = true;
            } else if same_text(arg, "--status") {
                cli.status = true;
            }
            i = i + 1;
        }
    }
    cli
}

/// No two of the known arguments are equal.
proof fn lemma_switch_names()
    ensures
        "--generate-config"@ != "--config"@,
        "--generate-nix"@ != "--config"@,
        "--list-sensors"@ != "--config"@,
        "--list-fans"@ != "--config"@,
        "--status"@ != "--config"@,
        "--generate-config"@ != "--generate-nix"@,
        "--generate-config"@ != "--list-sensors"@,
        "--generate-config"@ != "--list-fans"@,
        "--generate-config"@ != "--status"@,
        "--generate-nix"@ != "--list-sensors"@,
        "--generate-nix"@ != "--list-fans"@,
        "--generate-nix"@ != "--status"@,
        "--list-sensors"@ != "--list-fans"@,
        "--list-sensors"@ != "--status"@,
        "--list-fans"@ != "--status"@,
{
    reveal_strlit("--config");
    reveal_strlit("--generate-config");
    reveal_strlit("--generate-nix");
    reveal_strlit("--list-sensors");
    reveal_strlit("--list-fans");
    reveal_strlit("--status");
    assert("--config"@.len() == 8);
    assert("--status"@.len() == 8);
    assert("--config"@[2] == 'c');
    assert("--status"@[2] == 's');
    assert("--generate-config"@.len() == 17);
    assert("--generate-nix"@.len() == 14);
    assert("--list-sensors"@.len() == 14);
    assert("--generate-nix"@[2] == 'g');
    assert("--list-sensors"@[2] == 'l');
    assert("--list-fans"@.len() == 11);
}

/// Whether the argument at position `j`, reading from position `i` on, is read for itself, not
/// as what a `--config` takes.
pub open spec fn read_at(args: Seq<Seq<char>>, i: int, j: int) -> bool
    decreases args.len() - i,
{
    if i >= args.len() || j < i {
        false
    } else if i == j {
        true
    } else if args[i] == "--config"@ {
        i + 1 < args.len() && read_at(args, i + 2, j)
    } else {
        read_at(args, i + 1, j)
    }
}

/// Whether `arg` is read for itself from position `i` on.
pub open spec fn read_from(args: Seq<Seq<char>>, i: int, arg: Seq<char>) -> bool {
    exists|j: int| #[trigger] read_at(args, i, j) && args[j] == arg
}

/// Whether a `--config` at position `j` is read and has an argument to take.
pub open spec fn takes_path(args: Seq<Seq<char>>, i: int, j: int) -> bool {
    read_at(args, i, j) && args[j] == "--config"@ && j + 1 < args.len()
}

/// A switch is on if and only if its argument is read, in whatever place: one that a `--config`
/// takes as its path does not count.
pub proof fn law_switches_are_on_where_they_are_read(args: Seq<Seq<char>>, i: int, cli: CliView)
    ensures
        ({
            let r = cli_from(args, i, cli);
            &&& r.generate_config == (cli.generate_config || read_from(
                args,
                i,
                "--generate-config"@,
            ))
            &&& r.generate_nix == (cli.generate_nix || read_from(args, i, "--generate-nix"@))
            &&& r.list_sensors == (cli.list_sensors || read_from(args, i, "--list-sensors"@))
            &&& r.list_fans == (cli.list_fans || read_from(args, i, "--list-fans"@))
            &&& r.status == (cli.status || read_from(args, i, "--status"@))
        }),
    decreases args.len() - i,
{
    lemma_switch_names();
    lemma_read_step(args, i, "--generate-config"@);
    lemma_read_step(args, i, "--generate-nix"@);
    lemma_read_step(args, i, "--list-sensors"@);
    lemma_read_step(args, i, "--list-fans"@);
    lemma_read_step(args, i, "--status"@);
    if i < args.len() {
        if args[i] == "--config"@ && i + 1 < args.len() {
            let taken = CliView { config_path: Some(args[i + 1]), ..cli };
            law_switches_are_on_where_they_are_read(args, i + 2, taken);
        } else if args[i] != "--config"@ {
            law_switches_are_on_where_they_are_read(args, i + 1, with_switch(cli, args[i]));
        }
    }
}

/// Where the reading goes on behind position `i`.
spec fn next_position(args: Seq<Seq<char>>, i: int) -> int {
    if args[i] == "--config"@ {
        i + 2
    } else {
        i + 1
    }
}

proof fn lemma_read_step(args: Seq<Seq<char>>, i: int, arg: Seq<char>)
    ensures
        read_from(args, i, arg) <==> i < args.len() && (args[i] == arg || read_from(
            args,
            next_position(args, i),
            arg,
        )),
{
    let next = next_position(args, i);
    if read_from(args, i, arg) {
        let j = choose|j: int| #[trigger] read_at(args, i, j) && args[j] == arg;
        if j != i {
            assert(read_at(args, next, j));
        }
    }
    if i < args.len() {
        assert(read_at(args, i, i));
        if read_from(args, next, arg) {
            let j = choose|j: int| #[trigger] read_at(args, next, j) && args[j] == arg;
            assert(read_at(args, i, j));
        }
    }
}

/// Without a `--config` that takes an argument, the path is what it was.
pub proof fn law_path_stays_without_config(args: Seq<Seq<char>>, i: int, cli: CliView)
    requires
        forall|j: int| !#[trigger] takes_path(args, i, j),
    ensures
        cli_from(args, i, cli).config_path == cli.config_path,
    decreases args.len() - i,
{
    if i < args.len() {
        assert(!takes_path(args, i, i));
        if args[i] != "--config"@ {
            assert forall|j: int| !#[trigger] takes_path(args, i + 1, j) by {
                assert(!takes_path(args, i, j));
            }
            law_path_stays_without_config(args, i + 1, with_switch(cli, args[i]));
        }
    }
}

/// The path is the argument behind the last `--config` that takes one.
pub proof fn law_last_config_gives_the_path(args: Seq<Seq<char>>, i: int, last: int, cli: CliView)
    requires
        takes_path(args, i, last),
        forall|j: int| #[trigger] takes_path(args, i, j) ==> j <= last,
    ensures
        cli_from(args, i, cli).config_path == Some(args[last + 1]),
    decreases args.len() - i,
{
    let next = next_position(args, i);
    assert forall|j: int| #[trigger] takes_path(args, next, j) implies next <= j <= last by {
        assert(takes_path(args, i, j));
    }
    if i == last {
        law_path_stays_without_config(
            args,
            next,
            CliView { config_path: Some(args[i + 1]), ..cli },
        );
    } else {
        assert(takes_path(args, next, last));
        let after = if args[i] == "--config"@ {
            CliView { config_path: Some(args[i + 1]), ..cli }
        } else {
            with_switch(cli, args[i])
        };
        law_last_config_gives_the_path(args, next, last, after);
    }
}

/// What the program does.
#[derive(Clone, Copy, Debug, PartialEq, Eq, Structural)]
pub enum Command {
    ListSensors,
    ListFans,
    GenerateConfig,
    GenerateNix,
    Daemon,
}

/// What the program does where the command line asks for `cli`.
pub open spec fn command_for(cli: CliView) -> Command {
    if cli.list_sensors {
        Command::ListSensors
    } else if cli.list_fans {
        Command::ListFans
    } else if cli.generate_config {
        Command::GenerateConfig
    } else if cli.generate_nix {
        Command::GenerateNix
    } else {
        Command::Daemon
    }
}

impl CliArgs {
    /// What the program does: the first of the listings and generators that is asked for, and
    /// else it runs as the daemon.
    pub fn command(&self) -> (r: Command)
        ensures
            r == command_for(self@),
    {
        if self.list_sensors {
            Command::ListSensors
        } else if self.list_fans {
            Command::ListFans
        } else if self.generate_config {
            Command::GenerateConfig
        } else if self.generate_nix {
            Command::GenerateNix
        } else {
            Command::Daemon
        }
    }
}

/// The sensors are listed where that is asked for, else the fans, else a configuration is made,
/// in TOML before Nix, and else the daemon runs.
pub proof fn law_listings_come_first(cli: CliView)
    ensures
        cli.list_sensors ==> command_for(cli) == Command::ListSensors,
        !cli.list_sensors && cli.list_fans ==> command_for(cli) == Command::ListFans,
        !cli.list_sensors && !cli.list_fans && cli.generate_config ==> command_for(cli)
            == Command::GenerateConfig,
        !cli.list_sensors && !cli.list_fans && !cli.generate_config && cli.generate_nix
            ==> command_for(cli) == Command::GenerateNix,
        !cli.list_sensors && !cli.list_fans && !cli.generate_config && !cli.generate_nix
            ==> command_for(cli) == Command::Daemon,
{
}

/// Without arguments nothing is asked for.
pub proof fn law_no_arguments_ask_for_nothing(args: Seq<Seq<char>>)
    requires
        args.len() <= 1,
    ensures
        ({
            let cli = cli_from(args, 1, no_args());
            &&& cli.config_path is None
            &&& !cli.generate_config && !cli.generate_nix && !cli.list_sensors && !cli.list_fans
                && !cli.status
            &&& command_for(cli) == Command::Daemon
        }),
{
}

} // verus!
