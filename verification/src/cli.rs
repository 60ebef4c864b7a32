//! The command line: what the program is asked to do.
use vstd::prelude::*;
use crate::text::{copy_str, eq_str, push_str, starts_with, starts_with_str, trim, trim_str};

verus! {

/// How the program is to run when it opens a workspace.
pub struct CliOptions {
    pub project_path: Option<String>,
    pub config_path: Option<String>,
    pub scenario: Option<String>,
    pub debug: bool,
    pub perf: bool,
    pub log_file: Option<String>,
}

/// What the command line asks for.
pub enum CliCommand {
    Help,
    Version,
    Init,
    Run(CliOptions),
}

/// The options gathered so far, as values.
pub struct OptionsView {
    pub project_path: Option<Seq<char>>,
    pub config_path: Option<Seq<char>>,
    pub scenario: Option<Seq<char>>,
    pub debug: bool,
    pub perf: bool,
    pub log_file: Option<Seq<char>>,
    pub init: bool,
}

pub enum CommandView {
    Help,
    Version,
    Init,
    Run(OptionsView),
}

impl View for CliOptions {
    type V = OptionsView;

    open spec fn view(&self) -> OptionsView {
        OptionsView {
            project_path: self.project_path.deep_view(),
            config_path: self.config_path.deep_view(),
            scenario: self.scenario.deep_view(),
            debug: self.debug,
            perf: self.perf,
            log_file: self.log_file.deep_view(),
            init: false,
        }
    }
}

impl View for CliCommand {
    type V = CommandView;

    open spec fn view(&self) -> CommandView {
        match self {
            CliCommand::Help => CommandView::Help,
            CliCommand::Version => CommandView::Version,
            CliCommand::Init => CommandView::Init,
            CliCommand::Run(o) => CommandView::Run(o@),
        }
    }
}

pub open spec fn no_options() -> OptionsView {
    OptionsView {
        project_path: None,
        config_path: None,
        scenario: None,
        debug: false,
        perf: false,
        log_file: None,
        init: false,
    }
}

/// The value that follows an option: present, not blank and not itself an option.
pub open spec fn option_value(args: Seq<Seq<char>>, i: int, option: Seq<char>) -> Result<Seq<char>, Seq<char>> {
    if 0 <= i < args.len() && trim(args[i]).len() > 0 && !starts_with(args[i], "-"@) {
        Ok(args[i])
    } else {
        Err(option + " requires a value; provide a path or name after it"@)
    }
}

/// The command once every argument is read: `--log-file` needs `--debug`, and `init`
/// takes nothing else.
pub open spec fn finish_options(st: OptionsView) -> Result<CommandView, Seq<char>> {
    if st.log_file is Some && !st.debug {
        Err("--log-file requires --debug"@)
    } else if st.init {
        if st.config_path is Some || st.scenario is Some {
            Err("postui init does not accept --config or --scenario"@)
        } else if st.project_path is Some {
            Err("postui init does not accept a project path"@)
        } else if st.debug {
            Err("postui init does not accept --debug"@)
        } else if st.log_file is Some {
            Err("postui init does not accept --log-file"@)
        } else {
            Ok(CommandView::Init)
        }
    } else {
        Ok(CommandView::Run(st))
    }
}

/// The arguments read from the `i`-th on: help and version answer at once; each option
/// may be given once; an unknown option is refused; a bare argument is the project path.
pub open spec fn cli_run(args: Seq<Seq<char>>, i: int, st: OptionsView) -> Result<CommandView, Seq<char>>
    decreases args.len() - i,
{
    if i < 0 || i >= args.len() {
        finish_options(st)
    } else {
        let a = args[i];
        if a == "-h"@ || a == "--help"@ {
            Ok(CommandView::Help)
        } else if a == "-V"@ || a == "--version"@ {
            Ok(CommandView::Version)
        } else if a == "init"@ {
            if st.init {
                Err("postui init may be specified only once"@)
            } else {
                cli_run(args, i + 1, OptionsView { init: true, ..st })
            }
        } else if a == "--debug"@ {
            cli_run(args, i + 1, OptionsView { debug: true, ..st })
        } else if a == "--perf"@ {
            cli_run(args, i + 1, OptionsView { perf: true, debug: true, ..st })
        } else if a == "--config"@ {
            match option_value(args, i + 1, a) {
                Err(e) => Err(e),
                Ok(v) => if st.config_path is Some {
                    Err("--config may be specified only once"@)
                } else {
                    cli_run(args, i + 2, OptionsView { config_path: Some(v), ..st })
                },
            }
        } else if a == "--scenario"@ {
            match option_value(args, i + 1, a) {
                Err(e) => Err(e),
                Ok(v) => if st.scenario is Some {
                    Err("--scenario may be specified only once"@)
                } else {
                    cli_run(args, i + 2, OptionsView { scenario: Some(v), ..st })
                },
            }
        } else if a == "--log-file"@ {
            match option_value(args, i + 1, a) {
                Err(e) => Err(e),
                Ok(v) => if st.log_file is Some {
                    Err("--log-file may be specified only once"@)
                } else {
                    cli_run(args, i + 2, OptionsView { log_file: Some(v), ..st })
                },
            }
        } else if starts_with(a, "-"@) {
            Err("Unknown argument: "@ + a)
        } else if st.project_path is Some {
            Err("Project path may be specified only once"@)
        } else {
            cli_run(args, i + 1, OptionsView { project_path: Some(a), ..st })
        }
    }
}

fn next_value(args: &Vec<String>, i: usize, option: &str) -> (r: Result<String, String>)
    ensures
        match r {
            Ok(v) => option_value(crate::text::views(args@), i as int, option@) == Ok::<
                Seq<char>,
                Seq<char>,
            >(v@),
            Err(e) => option_value(crate::text::views(args@), i as int, option@) == Err::<
                Seq<char>,
                Seq<char>,
            >(e@),
        },
{
    if i < args.len() && !trim_str(args[i].as_str()).as_str().is_empty() && !starts_with_str(
        args[i].as_str(),
        "-",
    ) {
        return Ok(args[i].clone());
    }
    let mut m = copy_str(option);
    push_str(&mut m, " requires a value; provide a path or name after it");
    Err(m)
}

fn finish(
    project_path: Option<String>,
    config_path: Option<String>,
    scenario: Option<String>,
    debug: bool,
    perf: bool,
    log_file: Option<String>,
    init: bool,
) -> (r: Result<CliCommand, String>)
    ensures
        ({
            let st = OptionsView {
                project_path: project_path.deep_view(),
                config_path: config_path.deep_view(),
                scenario: scenario.deep_view(),
                debug,
                perf,
                log_file: log_file.deep_view(),
                init,
            };
            match r {
                Ok(c) => finish_options(st) == Ok::<CommandView, Seq<char>>(c@),
                Err(e) => finish_options(st) == Err::<CommandView, Seq<char>>(e@),
            }
        }),
{
    if log_file.is_some() && !debug {
        return Err(copy_str("--log-file requires --debug"));
    }
    if init {
        if config_path.is_some() || scenario.is_some() {
            return Err(copy_str("postui init does not accept --config or --scenario"));
        }
        if project_path.is_some() {
            return Err(copy_str("postui init does not accept a project path"));
        }
        if debug {
            return Err(copy_str("postui init does not accept --debug"));
        }
        if log_file.is_some() {
            return Err(copy_str("postui init does not accept --log-file"));
        }
        return Ok(CliCommand::Init);
    }
    Ok(CliCommand::Run(CliOptions { project_path, config_path, scenario, debug, perf, log_file }))
}

/// Reads the command line: the arguments after the program's name.
pub fn parse_args(args: &Vec<String>) -> (r: Result<CliCommand, String>)
    ensures
        match r {
            Ok(c) => cli_run(crate::text::views(args@), 0, no_options()) == Ok::<CommandView, Seq<char>>(c@),
            Err(e) => cli_run(crate::text::views(args@), 0, no_options()) == Err::<CommandView, Seq<char>>(e@),
        },
{
    let ghost av = crate::text::views(args@);
    let mut project_path: Option<String> = None;
    let mut config_path: Option<String> = None;
    let mut scenario: Option<String> = None;
    let mut debug = false;
    let mut perf = false;
    let mut log_file: Option<String> = None;
    let mut init = false;
    let mut i: usize = 0;
    while i < args.len()
        invariant
            av == crate::text::views(args@),
            i <= av.len(),
            cli_run(av, 0, no_options()) == cli_run(
                av,
                i as int,
                OptionsView {
                    project_path: project_path.deep_view(),
                    config_path: config_path.deep_view(),
                    scenario: scenario.deep_view(),
                    debug,
                    perf,
                    log_file: log_file.deep_view(),
                    init,
                },
            ),
        decreases av.len() - i,
    {
        let a = args[i].as_str();
        assert(av[i as int] == a@);
        if eq_str(a, "-h") || eq_str(a, "--help") {
            return Ok(CliCommand::Help);
        } else if eq_str(a, "-V") || eq_str(a, "--version") {
            return Ok(CliCommand::Version);
        } else if eq_str(a, "init") {
            if init {
                return Err(copy_str("postui init may be specified only once"));
            }
            init = true;
            i = i + 1;
        } else if eq_str(a, "--debug") {
            debug = true;
            i = i + 1;
        } else if eq_str(a, "--perf") {
            perf = true;
            debug = true;
            i = i + 1;
        } else if eq_str(a, "--config") {
            let v = match next_value(args, i + 1, a) {
                Ok(v) => v,
                Err(e) => return Err(e),
            };
            if config_path.is_some() {
                return Err(copy_str("--config may be specified only once"));
            }
            config_path = Some(v);
            i = i + 2;
        } else if eq_str(a, "--scenario") {
            let v = match next_value(args, i + 1, a) {
                Ok(v) => v,
                Err(e) => return Err(e),
            };
            if scenario.is_some() {
                return Err(copy_str("--scenario may be specified only once"));
            }
            scenario = Some(v);
            i = i + 2;
        } else if eq_str(a, "--log-file") {
            let v = match next_value(args, i + 1, a) {
                Ok(v) => v,
                Err(e) => return Err(e),
            };
            if log_file.is_some() {
                return Err(copy_str("--log-file may be specified only once"));
            }
            log_file = Some(v);
            i = i + 2;
        } else if starts_with_str(a, "-") {
            let mut m = copy_str("Unknown argument: ");
            push_str(&mut m, a);
            return Err(m);
        } else {
            if project_path.is_some() {
                return Err(copy_str("Project path may be specified only once"));
            }
            project_path = Some(args[i].clone());
            i = i + 1;
        }
    }
    finish(project_path, config_path, scenario, debug, perf, log_file, init)
}

} // verus!
