use clap::{Arg, ArgAction, Command};
use dmux::server::{
    dmux_managed_service_flag_present, have_panes_in_domain, initial_command, plan_listeners,
    plan_startup, removed_variables, require_prebound_service, restart_arguments,
    should_spawn_default_pane, validate_dmux_managed_invocation, ListenPlan, Opt, StartupStep,
};

fn words(args: &[&str]) -> Vec<Vec<u8>> {
    args.iter().map(|arg| arg.as_bytes().to_vec()).collect()
}

fn text_args(matches: &clap::ArgMatches, name: &str) -> Vec<String> {
    match matches.get_many::<String>(name) {
        Some(values) => values.cloned().collect(),
        None => Vec::new(),
    }
}

fn parse(args: &[&str]) -> Result<Opt, clap::Error> {
    let command = Command::new("wezterm-mux-server")
        .arg(Arg::new("skip_config").long("skip-config").short('n').action(ArgAction::SetTrue))
        .arg(Arg::new("config_file").long("config-file").conflicts_with("skip_config"))
        .arg(Arg::new("config").long("config").num_args(1).action(ArgAction::Append))
        .arg(Arg::new("daemonize").long("daemonize").action(ArgAction::SetTrue))
        .arg(
            Arg::new("dmux_managed_service")
                .long("dmux-managed-service")
                .action(ArgAction::SetTrue)
                .requires("config_file")
                .conflicts_with_all(["daemonize", "skip_config"]),
        )
        .arg(Arg::new("cwd").long("cwd"))
        .arg(
            Arg::new("prog")
                .num_args(1..)
                .trailing_var_arg(true),
        );
    let matches = command
        .try_get_matches_from(std::iter::once("wezterm-mux-server").chain(args.iter().copied()))?;
    Ok(Opt {
        skip_config: matches.get_flag("skip_config"),
        config_file: matches
            .get_one::<String>("config_file")
            .map(|file| file.as_bytes().to_vec()),
        config_override: text_args(&matches, "config")
            .into_iter()
            .map(|pair| {
                let (name, value) = pair.split_once('=').unwrap();
                (name.to_string(), value.to_string())
            })
            .collect(),
        daemonize: matches.get_flag("daemonize"),
        dmux_managed_service: matches.get_flag("dmux_managed_service"),
        cwd: matches.get_one::<String>("cwd").map(|cwd| cwd.as_bytes().to_vec()),
        pid_file_fd: None,
        prog: text_args(&matches, "prog")
            .into_iter()
            .map(|word| word.into_bytes())
            .collect(),
    })
}

#[test]
fn managed_service_flag_is_detected_for_early_prebind_only() {
    let args = words(&[
        "wezterm-mux-server",
        "--dmux-managed-service",
        "--config-file",
        "/tmp/dmux-mux.lua",
    ]);
    assert!(dmux_managed_service_flag_present(&args));

    let program_args = words(&["wezterm-mux-server", "--", "sh", "--dmux-managed-service"]);
    assert!(!dmux_managed_service_flag_present(&program_args));
}

#[test]
fn the_name_of_the_program_is_no_flag() {
    assert!(!dmux_managed_service_flag_present(&words(&["--dmux-managed-service"])));
    assert!(!dmux_managed_service_flag_present(&words(&[])));
}

#[test]
fn managed_service_flag_requires_exact_foreground_config_invocation() {
    assert!(parse(&["--dmux-managed-service"]).is_err());
    assert!(parse(&[
        "--dmux-managed-service",
        "--config-file",
        "/tmp/dmux-mux.lua",
        "--daemonize",
    ])
    .is_err());
    assert!(parse(&[
        "--dmux-managed-service",
        "--config-file",
        "/tmp/dmux-mux.lua",
        "-n",
    ])
    .is_err());

    let exact = parse(&[
        "--dmux-managed-service",
        "--config-file",
        "/tmp/dmux-mux.lua",
    ])
    .unwrap();
    validate_dmux_managed_invocation(&exact).unwrap();

    for extra in [
        vec!["--cwd", "/tmp"],
        vec!["--config", "font_size=10"],
        vec!["--", "sh"],
    ] {
        let mut args = vec![
            "--dmux-managed-service",
            "--config-file",
            "/tmp/dmux-mux.lua",
        ];
        args.extend(extra);
        let parsed = parse(&args).unwrap();
        assert!(validate_dmux_managed_invocation(&parsed).is_err());
    }

    let relative = parse(&["--dmux-managed-service", "--config-file", "dmux-mux.lua"]).unwrap();
    assert!(validate_dmux_managed_invocation(&relative).is_err());
}

#[test]
fn inherited_pid_file_is_refused_for_the_managed_service() {
    let mut exact = parse(&[
        "--dmux-managed-service",
        "--config-file",
        "/tmp/dmux-mux.lua",
    ])
    .unwrap();
    exact.pid_file_fd = Some(7);
    assert_eq!(
        validate_dmux_managed_invocation(&exact),
        Err("--dmux-managed-service refuses inherited daemon pid-file descriptors")
    );
    exact.config_file = None;
    assert_eq!(
        validate_dmux_managed_invocation(&exact),
        Err("--dmux-managed-service requires --config-file")
    );
}

#[test]
fn ordinary_mux_invocation_remains_unchanged() {
    let ordinary = parse(&["--config-file", "wezterm.lua", "--", "sh"])
        .expect("ordinary legacy invocation parses");
    validate_dmux_managed_invocation(&ordinary).unwrap();
}

#[test]
fn managed_mux_never_falls_through_to_the_default_program() {
    assert_eq!(should_spawn_default_pane(false, false).unwrap(), true);
    assert_eq!(should_spawn_default_pane(false, true).unwrap(), false);
    assert_eq!(should_spawn_default_pane(true, true).unwrap(), false);
    assert!(should_spawn_default_pane(true, false).is_err());
}

#[test]
fn restart_repeats_the_command_line() {
    let opts = Opt {
        skip_config: true,
        config_file: Some(b"/etc/mux.lua".to_vec()),
        config_override: vec![
            ("a".to_string(), "1".to_string()),
            ("b".to_string(), "2=3".to_string()),
        ],
        daemonize: true,
        dmux_managed_service: false,
        cwd: Some(b"/home".to_vec()),
        pid_file_fd: None,
        prog: words(&["sh", "-c", "true"]),
    };
    assert_eq!(
        restart_arguments(&opts, Some(-5)),
        words(&[
            "--pid-file-fd",
            "-5",
            "-n",
            "--config-file",
            "/etc/mux.lua",
            "--config",
            "a=1",
            "--config",
            "b=2=3",
            "--cwd",
            "/home",
            "--",
            "sh",
            "-c",
            "true",
        ])
    );
    let plain = parse(&[]).unwrap();
    assert_eq!(restart_arguments(&plain, None), words(&[]));
}

#[test]
fn misleading_variables_are_removed_before_configured_ones() {
    assert_eq!(
        removed_variables(&vec!["SECRET".to_string()]),
        vec!["OLDPWD", "PWD", "SHLVL", "WEZTERM_PANE", "WEZTERM_UNIX_SOCKET", "_", "SECRET"]
    );
}

#[test]
fn initial_command_is_asked_for_by_program_or_directory() {
    assert!(initial_command(words(&[]), None).is_none());
    let only_cwd = initial_command(words(&[]), Some(b"/tmp".to_vec())).unwrap();
    assert!(only_cwd.prog.is_none());
    assert_eq!(only_cwd.cwd, Some(b"/tmp".to_vec()));
    let both = initial_command(words(&["sh"]), None).unwrap();
    assert_eq!(both.prog, Some(words(&["sh"])));
}

#[test]
fn listeners_and_prebound_service() {
    assert_eq!(plan_listeners(true, 1), Ok(ListenPlan::Handover));
    assert_eq!(
        plan_listeners(true, 0),
        Err("managed listener handoff has no configured Unix domain")
    );
    assert_eq!(plan_listeners(false, 0), Ok(ListenPlan::BindEach));
    assert!(require_prebound_service(false, true).is_err());
    assert!(require_prebound_service(true, true).is_ok());
    assert!(require_prebound_service(false, false).is_ok());
    assert!(have_panes_in_domain(&vec![3, 5], 5));
    assert!(!have_panes_in_domain(&vec![3, 5], 4));
}

#[test]
fn managed_start_binds_before_anything_else() {
    let exact = parse(&[
        "--dmux-managed-service",
        "--config-file",
        "/tmp/dmux-mux.lua",
    ])
    .unwrap();
    assert_eq!(
        plan_startup(true, &exact, true),
        vec![
            StartupStep::ParseOptions,
            StartupStep::ValidateInvocation,
            StartupStep::Prebind,
            StartupStep::Bootstrap,
            StartupStep::SaveUmask,
            StartupStep::LoadConfiguration,
            StartupStep::TakeListener,
            StartupStep::ApplyConfiguration,
            StartupStep::RemoveVariables,
            StartupStep::RegisterStorage,
            StartupStep::MakeMux,
            StartupStep::SpawnListeners,
            StartupStep::Serve,
        ]
    );
    let daemon = parse(&["--daemonize"]).unwrap();
    assert_eq!(
        plan_startup(false, &daemon, true),
        vec![
            StartupStep::Bootstrap,
            StartupStep::ParseOptions,
            StartupStep::ValidateInvocation,
            StartupStep::SaveUmask,
            StartupStep::LoadConfiguration,
            StartupStep::RequireNoService,
            StartupStep::ApplyConfiguration,
            StartupStep::Daemonize,
        ]
    );
    assert!(plan_startup(true, &exact, false).contains(&StartupStep::RefuseManagedService));
}
