//! The command line.

use vstd::prelude::*;

verus! {

/// What the program is asked to do.
#[derive(Debug, Clone, PartialEq, Eq)]
pub enum CliCommand {
    /// Run as a node of a dataflow.
    Run { config_path: Option<String> },
    /// List the color cameras.
    ListDevices { json: bool },
    /// Check the environment without opening a camera.
    CheckEnvironment { json: bool },
    /// Save one frame as JPEG.
    Snapshot { config_path: Option<String>, device: Option<String>, output: String },
}

/// The arguments of the command line.
#[derive(Debug, Clone, PartialEq, Eq)]
pub struct Cli {
    pub config: Option<String>,
    pub command: Option<Commands>,
    /// An older way to ask for the list of cameras.
    pub list_devices: bool,
    /// An older way to ask for a snapshot of a device.
    pub snapshot: Option<String>,
    /// Where the older way saves the snapshot.
    pub output: String,
    pub json: bool,
}

/// The subcommands.
#[derive(Debug, Clone, PartialEq, Eq)]
pub enum Commands {
    Run { config: Option<String> },
    ListDevices { json: bool },
    CheckEnvironment { json: bool },
    Snapshot { device: Option<String>, config: Option<String>, output: String },
}

/// The first of the two that is there.
pub open spec fn first_of(a: Option<String>, b: Option<String>) -> Option<String> {
    if a is Some {
        a
    } else {
        b
    }
}

/// The command that the arguments ask for. The older arguments come first, the
/// list of cameras before the snapshot. A subcommand's own configuration comes
/// before the general one, and `json` counts in either place.
pub open spec fn command_of(cli: Cli) -> CliCommand {
    if cli.list_devices {
        CliCommand::ListDevices { json: cli.json }
    } else if cli.snapshot is Some {
        CliCommand::Snapshot {
            config_path: cli.config,
            device: cli.snapshot,
            output: cli.output,
        }
    } else {
        match cli.command {
            Some(Commands::ListDevices { json }) => CliCommand::ListDevices {
                json: json || cli.json,
            },
            Some(Commands::CheckEnvironment { json }) => CliCommand::CheckEnvironment {
                json: json || cli.json,
            },
            Some(Commands::Snapshot { device, config, output }) => CliCommand::Snapshot {
                config_path: first_of(config, cli.config),
                device,
                output,
            },
            Some(Commands::Run { config }) => CliCommand::Run {
                config_path: first_of(config, cli.config),
            },
            None => CliCommand::Run { config_path: cli.config },
        }
    }
}

fn either(a: Option<String>, b: Option<String>) -> (r: Option<String>)
    ensures
        r == first_of(a, b),
{
    match a {
        Some(_) => a,
        None => b,
    }
}

/// The command that the arguments ask for, see `command_of`.
pub fn parse_args(cli: Cli) -> (r: CliCommand)
    ensures
        r == command_of(cli),
{
    let Cli { config, command, list_devices, snapshot, output, json } = cli;
    if list_devices {
        return CliCommand::ListDevices { json };
    }
    if let Some(device) = snapshot {
        return CliCommand::Snapshot { config_path: config, device: Some(device), output };
    }
    match command {
        Some(Commands::ListDevices { json: command_json }) => CliCommand::ListDevices {
            json: command_json || json,
        },
        Some(Commands::CheckEnvironment { json: command_json }) => CliCommand::CheckEnvironment {
            json: command_json || json,
        },
        Some(Commands::Snapshot { device, config: command_config, output: command_output }) =>
            CliCommand::Snapshot {
                config_path: either(command_config, config),
                device,
                output: command_output,
            },
        Some(Commands::Run { config: command_config }) => CliCommand::Run {
            config_path: either(command_config, config),
        },
        None => CliCommand::Run { config_path: config },
    }
}

/// Whatever else is given, the older argument for the list of cameras asks for
/// that list, and without it, the older argument for a snapshot for a snapshot of
/// its device.
pub proof fn law_older_arguments_come_first(cli: Cli)
    ensures
        cli.list_devices ==> command_of(cli) == (CliCommand::ListDevices { json: cli.json }),
        !cli.list_devices && cli.snapshot is Some ==> (command_of(cli) matches CliCommand::Snapshot {
            config_path,
            device,
            output,
        } && config_path == cli.config && device == cli.snapshot && output == cli.output),
{
}

/// Without older arguments the subcommand decides, and running the node is what
/// is asked for where there is none. A configuration or `json` that the
/// subcommand does not give counts from before it; a snapshot's device and
/// output are those of the subcommand.
pub proof fn law_subcommand_decides(cli: Cli)
    requires
        !cli.list_devices,
        cli.snapshot is None,
    ensures
        match cli.command {
            None => command_of(cli) matches CliCommand::Run { config_path } && config_path
                == cli.config,
            Some(Commands::Run { config }) => command_of(cli) matches CliCommand::Run { config_path }
                && config_path == (if config is Some {
                config
            } else {
                cli.config
            }),
            Some(Commands::ListDevices { json: own }) => command_of(
                cli,
            ) matches CliCommand::ListDevices { json } && json == (own || cli.json),
            Some(Commands::CheckEnvironment { json: own }) => command_of(
                cli,
            ) matches CliCommand::CheckEnvironment { json } && json == (own || cli.json),
            Some(Commands::Snapshot { device, config, output }) => command_of(
                cli,
            ) matches CliCommand::Snapshot { config_path, device: d, output: o } && {
                &&& d == device
                &&& o == output
                &&& config_path == (if config is Some {
                    config
                } else {
                    cli.config
                })
            },
        },
{
}

/// `parse_args` returns the command that the arguments ask for.
pub proof fn law_arguments_are_obeyed(cli: Cli, r: CliCommand)
    requires
        call_ensures(parse_args, (cli,), r),
    ensures
        r == command_of(cli),
        r is ListDevices <==> cli.list_devices || (cli.snapshot is None && (
        cli.command matches Some(c) && c is ListDevices)),
        r is Snapshot <==> !cli.list_devices && (cli.snapshot is Some || (
        cli.command matches Some(c) && c is Snapshot)),
        r is CheckEnvironment ==> (cli.command matches Some(c) && c is CheckEnvironment),
        r is Run ==> cli.command is None || (cli.command matches Some(c) && c is Run),
{
}

} // verus!
