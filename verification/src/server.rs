//! The multiplexer server program: how it may be invoked as the managed
//! service, and what it does without one.

use crate::path_text::{byte_rows, is_absolute, starts_at_root};
use crate::text::{copy_bytes, same_bytes, signed_decimal, signed_decimal_text};
use vstd::prelude::*;
use vstd::utf8::encode_utf8;

verus! {

/// The command line of the server, parsed. Arguments that come from the system
/// are byte strings.
#[derive(Debug)]
pub struct Opt {
    pub skip_config: bool,
    pub config_file: Option<Vec<u8>>,
    pub config_override: Vec<(String, String)>,
    pub daemonize: bool,
    pub dmux_managed_service: bool,
    pub cwd: Option<Vec<u8>>,
    pub pid_file_fd: Option<i32>,
    pub prog: Vec<Vec<u8>>,
}

/// Whether the managed service is asked for by one of the arguments before a
/// lone `--`, from `from` on.
pub open spec fn flag_present_from(args: Seq<Seq<u8>>, from: int) -> bool
    decreases args.len() - from,
{
    if from >= args.len() || args[from] == encode_utf8("--"@) {
        false
    } else {
        args[from] == encode_utf8("--dmux-managed-service"@) || flag_present_from(args, from + 1)
    }
}

/// Whether the command line asks for the managed service. The name of the
/// program does not count, nor does anything behind `--`.
pub fn dmux_managed_service_flag_present(args: &Vec<Vec<u8>>) -> (present: bool)
    ensures
        present == flag_present_from(byte_rows(args@), 1),
{
    let ghost rows = byte_rows(args@);
    let mut i: usize = 1;
    while i < args.len()
        invariant
            1 <= i,
            i <= args@.len() || i == 1,
            rows == byte_rows(args@),
            flag_present_from(rows, 1) == flag_present_from(rows, i as int),
        decreases args@.len() - i,
    {
        assert(rows[i as int] == args@[i as int]@);
        if same_bytes(args[i].as_slice(), "--".as_bytes()) {
            return false;
        }
        if same_bytes(args[i].as_slice(), "--dmux-managed-service".as_bytes()) {
            return true;
        }
        i += 1;
    }
    false
}

/// Whether the process initialises its environment before it parses its
/// command line. The managed service must first bind its socket while it has
/// a single thread.
pub fn bootstraps_before_parsing(managed_flag_present: bool) -> (yes: bool)
    ensures
        yes == !managed_flag_present,
{
    !managed_flag_present
}

/// Why an invocation as the managed service is refused.
pub open spec fn invocation_refusal(opts: Opt) -> Option<Seq<char>> {
    if !opts.dmux_managed_service {
        None
    } else if opts.config_override@.len() != 0 || opts.cwd is Some || opts.prog@.len() != 0 {
        Some("--dmux-managed-service accepts only the fixed --config-file invocation"@)
    } else if opts.config_file is None {
        Some("--dmux-managed-service requires --config-file"@)
    } else if !is_absolute(opts.config_file->0@) {
        Some("--dmux-managed-service requires an absolute --config-file"@)
    } else if opts.pid_file_fd is Some {
        Some("--dmux-managed-service refuses inherited daemon pid-file descriptors"@)
    } else {
        None
    }
}

/// Checks an invocation as the managed service: a configuration file with an
/// absolute path, and nothing else.
pub fn validate_dmux_managed_invocation(opts: &Opt) -> (result: Result<(), &'static str>)
    ensures
        match result {
            Ok(()) => invocation_refusal(*opts) is None,
            Err(reason) => invocation_refusal(*opts) == Some(reason@),
        },
{
    if !opts.dmux_managed_service {
        return Ok(());
    }
    if opts.config_override.len() != 0 || opts.cwd.is_some() || opts.prog.len() != 0 {
        return Err("--dmux-managed-service accepts only the fixed --config-file invocation");
    }
    let config_file = match &opts.config_file {
        Some(config_file) => config_file,
        None => {
            return Err("--dmux-managed-service requires --config-file");
        },
    };
    if !starts_at_root(config_file.as_slice()) {
        return Err("--dmux-managed-service requires an absolute --config-file");
    }
    if opts.pid_file_fd.is_some() {
        return Err("--dmux-managed-service refuses inherited daemon pid-file descriptors");
    }
    Ok(())
}

/// Refuses to serve where the configuration asked for the managed service and
/// the command line did not.
pub fn require_prebound_service(prebound: bool, missing_prebind_attempted: bool) -> (result: Result<
    (),
    &'static str,
>)
    ensures
        match result {
            Ok(()) => prebound || !missing_prebind_attempted,
            Err(reason) => !prebound && missing_prebind_attempted && reason@
                == "managed mux configuration attempted bootstrap without --dmux-managed-service"@,
        },
{
    if prebound || !missing_prebind_attempted {
        Ok(())
    } else {
        Err("managed mux configuration attempted bootstrap without --dmux-managed-service")
    }
}

/// The words of a text as an argument.
pub open spec fn word(text: Seq<char>) -> Seq<u8> {
    encode_utf8(text)
}

/// The `--config` arguments of some overrides.
pub open spec fn override_words(overrides: Seq<(String, String)>) -> Seq<Seq<u8>>
    decreases overrides.len(),
{
    if overrides.len() == 0 {
        seq![]
    } else {
        override_words(overrides.drop_last()).push(word("--config"@)).push(
            word(overrides.last().0@ + "="@ + overrides.last().1@),
        )
    }
}

/// A named argument with its value, if there is one.
pub open spec fn named_words(name: Seq<char>, value: Option<Seq<u8>>) -> Seq<Seq<u8>> {
    match value {
        Some(value) => seq![word(name), value],
        None => seq![],
    }
}

/// The view of an optional byte string.
pub open spec fn optional_bytes(value: Option<Vec<u8>>) -> Option<Seq<u8>> {
    match value {
        Some(value) => Some(value@),
        None => None,
    }
}

/// An inherited descriptor as an argument.
pub open spec fn descriptor_word(fd: Option<i32>) -> Option<Seq<u8>> {
    match fd {
        Some(fd) => Some(word(signed_decimal(fd as int))),
        None => None,
    }
}

/// The flag that skips the configuration, if it is set.
pub open spec fn skip_words(skip_config: bool) -> Seq<Seq<u8>> {
    if skip_config {
        seq![word("-n"@)]
    } else {
        seq![]
    }
}

/// A program and its arguments behind `--`, if there is one.
pub open spec fn program_words(prog: Seq<Seq<u8>>) -> Seq<Seq<u8>> {
    if prog.len() > 0 {
        seq![word("--"@)] + prog
    } else {
        seq![]
    }
}

/// The arguments with which the server starts itself again in the background.
pub open spec fn restart_words(opts: Opt, pid_file: Option<i32>) -> Seq<Seq<u8>> {
    named_words("--pid-file-fd"@, descriptor_word(pid_file)) + skip_words(opts.skip_config)
        + named_words("--config-file"@, optional_bytes(opts.config_file)) + override_words(
        opts.config_override@,
    ) + named_words("--cwd"@, optional_bytes(opts.cwd)) + program_words(byte_rows(opts.prog@))
}

fn push_word(words: &mut Vec<Vec<u8>>, bytes: &[u8])
    ensures
        byte_rows(final(words)@) == byte_rows(old(words)@).push(bytes@),
{
    let copy = copy_bytes(bytes);
    words.push(copy);
    assert(byte_rows(words@) =~= byte_rows(old(words)@).push(bytes@));
}

/// The arguments with which the server starts itself again in the background.
#[verifier::rlimit(60)]
pub fn restart_arguments(opts: &Opt, pid_file: Option<i32>) -> (words: Vec<Vec<u8>>)
    ensures
        byte_rows(words@) == restart_words(*opts, pid_file),
{
    let mut words: Vec<Vec<u8>> = Vec::new();
    assert(byte_rows(words@) =~= seq![]);
    if let Some(fd) = pid_file {
        push_word(&mut words, "--pid-file-fd".as_bytes());
        let number = signed_decimal_text(fd as i64);
        push_word(&mut words, number.as_str().as_bytes());
    }
    let ghost pid_words = named_words("--pid-file-fd"@, descriptor_word(pid_file));
    assert(byte_rows(words@) =~= pid_words);
    if opts.skip_config {
        push_word(&mut words, "-n".as_bytes());
    }
    assert(byte_rows(words@) =~= pid_words + skip_words(opts.skip_config));
    if let Some(file) = &opts.config_file {
        push_word(&mut words, "--config-file".as_bytes());
        push_word(&mut words, file.as_slice());
    }
    let ghost file_words = named_words("--config-file"@, optional_bytes(opts.config_file));
    assert(byte_rows(words@) =~= pid_words + skip_words(opts.skip_config) + file_words);
    let ghost start = byte_rows(words@);
    let overrides = &opts.config_override;
    let mut i: usize = 0;
    assert(overrides@.take(0) =~= seq![]);
    assert(start + override_words(overrides@.take(0)) =~= start);
    while i < overrides.len()
        invariant
            i <= overrides@.len(),
            byte_rows(words@) == start + override_words(overrides@.take(i as int)),
        decreases overrides@.len() - i,
    {
        assert(overrides@.take(i + 1).drop_last() =~= overrides@.take(i as int));
        push_word(&mut words, "--config".as_bytes());
        let pair = overrides[i].0.clone().concat("=").concat(overrides[i].1.as_str());
        push_word(&mut words, pair.as_str().as_bytes());
        i += 1;
        assert(byte_rows(words@) =~= start + override_words(overrides@.take(i as int)));
    }
    assert(overrides@.take(i as int) =~= overrides@);
    if let Some(cwd) = &opts.cwd {
        push_word(&mut words, "--cwd".as_bytes());
        push_word(&mut words, cwd.as_slice());
    }
    let ghost cwd_words = named_words("--cwd"@, optional_bytes(opts.cwd));
    assert(byte_rows(words@) =~= start + override_words(overrides@) + cwd_words);
    if opts.prog.len() > 0 {
        push_word(&mut words, "--".as_bytes());
        let ghost begun = byte_rows(words@);
        let prog = &opts.prog;
        let mut k: usize = 0;
        assert(begun + byte_rows(prog@).take(0) =~= begun);
        while k < prog.len()
            invariant
                k <= prog@.len(),
                byte_rows(words@) == begun + byte_rows(prog@).take(k as int),
            decreases prog@.len() - k,
        {
            push_word(&mut words, prog[k].as_slice());
            k += 1;
            assert(byte_rows(words@) =~= begun + byte_rows(prog@).take(k as int));
        }
        assert(byte_rows(prog@).take(k as int) =~= byte_rows(prog@));
    }
    assert(byte_rows(words@) =~= restart_words(*opts, pid_file));
    words
}

/// The environment variables that the server does not inherit whatever the
/// configuration says.
pub open spec fn misleading_variables() -> Seq<Seq<char>> {
    seq!["OLDPWD"@, "PWD"@, "SHLVL"@, "WEZTERM_PANE"@, "WEZTERM_UNIX_SOCKET"@, "_"@]
}

/// The views of a row of texts.
pub open spec fn texts(row: Seq<String>) -> Seq<Seq<char>> {
    row.map_values(|s: String| s@)
}

/// The environment variables that the server removes: the misleading ones, and
/// those that the configuration names.
pub fn removed_variables(configured: &Vec<String>) -> (names: Vec<String>)
    ensures
        texts(names@) == misleading_variables() + texts(configured@),
{
    let mut names: Vec<String> = Vec::new();
    names.push("OLDPWD".to_owned());
    names.push("PWD".to_owned());
    names.push("SHLVL".to_owned());
    names.push("WEZTERM_PANE".to_owned());
    names.push("WEZTERM_UNIX_SOCKET".to_owned());
    names.push("_".to_owned());
    let mut i: usize = 0;
    assert(texts(names@) =~= misleading_variables() + texts(configured@).take(0));
    while i < configured.len()
        invariant
            i <= configured@.len(),
            texts(names@) == misleading_variables() + texts(configured@).take(i as int),
        decreases configured@.len() - i,
    {
        let name = configured[i].clone();
        let ghost before = names@;
        names.push(name);
        assert(texts(names@) =~= texts(before).push(configured@[i as int]@));
        i += 1;
        assert(texts(names@) =~= misleading_variables() + texts(configured@).take(i as int));
    }
    assert(texts(configured@).take(i as int) =~= texts(configured@));
    names
}

/// What the server runs in its first pane: a program or the default one, in a
/// directory or the default one.
#[derive(Debug)]
pub struct InitialCommand {
    pub prog: Option<Vec<Vec<u8>>>,
    pub cwd: Option<Vec<u8>>,
}

/// What the command line asks to run, if anything.
pub fn initial_command(prog: Vec<Vec<u8>>, cwd: Option<Vec<u8>>) -> (command: Option<
    InitialCommand,
>)
    ensures
        command is None <==> prog@.len() == 0 && cwd is None,
        command is Some ==> command->0.cwd == cwd && command->0.prog == (if prog@.len() == 0 {
            None::<Vec<Vec<u8>>>
        } else {
            Some(prog)
        }),
{
    if prog.len() == 0 && cwd.is_none() {
        None
    } else if prog.len() == 0 {
        Some(InitialCommand { prog: None, cwd })
    } else {
        Some(InitialCommand { prog: Some(prog), cwd })
    }
}

/// Whether a pane is in a domain, given the domains of all panes.
pub fn have_panes_in_domain(pane_domains: &Vec<usize>, domain_id: usize) -> (yes: bool)
    ensures
        yes == pane_domains@.contains(domain_id),
{
    let mut i: usize = 0;
    while i < pane_domains.len()
        invariant
            i <= pane_domains@.len(),
            forall|k: int| 0 <= k < i ==> pane_domains@[k] != domain_id,
        decreases pane_domains@.len() - i,
    {
        if pane_domains[i] == domain_id {
            return true;
        }
        i += 1;
    }
    false
}

/// Whether the server spawns the default program. The managed service never
/// does: without a pane it fails.
pub fn should_spawn_default_pane(dmux_managed_service: bool, have_panes_in_domain: bool) -> (result:
    Result<bool, &'static str>)
    ensures
        match result {
            Ok(spawn) => (!dmux_managed_service || have_panes_in_domain) && spawn
                == !have_panes_in_domain,
            Err(reason) => dmux_managed_service && !have_panes_in_domain && reason@
                == "dmux managed mux-startup produced no sentinel/user pane; refusing default-pane fallback"@,
        },
        dmux_managed_service ==> result != Ok::<bool, &'static str>(true),
{
    if dmux_managed_service && !have_panes_in_domain {
        return Err(
            "dmux managed mux-startup produced no sentinel/user pane; refusing default-pane fallback",
        );
    }
    Ok(!have_panes_in_domain)
}

/// Which listeners the server runs.
#[derive(Clone, Copy, Debug, PartialEq, Eq, Structural)]
pub enum ListenPlan {
    /// The listener that was handed over, for the first configured domain.
    Handover,
    /// One listener for each configured domain.
    BindEach,
}

/// Which listeners the server runs. `WEZTERM_UNIX_SOCKET` is set to the socket
/// of each domain just before its listener starts.
pub fn plan_listeners(managed_listener: bool, unix_domains: usize) -> (result: Result<
    ListenPlan,
    &'static str,
>)
    ensures
        match result {
            Ok(ListenPlan::Handover) => managed_listener && unix_domains > 0,
            Ok(ListenPlan::BindEach) => !managed_listener,
            Err(reason) => managed_listener && unix_domains == 0 && reason@
                == "managed listener handoff has no configured Unix domain"@,
        },
{
    if managed_listener {
        if unix_domains == 0 {
            return Err("managed listener handoff has no configured Unix domain");
        }
        Ok(ListenPlan::Handover)
    } else {
        Ok(ListenPlan::BindEach)
    }
}

/// One step of the server's start. Each is taken in turn; the first that fails
/// ends the start.
#[derive(Clone, Copy, Debug, PartialEq, Eq, Structural)]
pub enum StartupStep {
    /// Initialise the environment of the process, and name this its main thread.
    Bootstrap,
    /// Parse the command line.
    ParseOptions,
    /// Check an invocation as the managed service.
    ValidateInvocation,
    /// Keep an inherited descriptor from children.
    ProtectDescriptor(i32),
    /// Bind the socket of the managed service.
    Prebind,
    /// Remember the file creation mask.
    SaveUmask,
    /// Refuse the managed service where the system has none.
    RefuseManagedService,
    /// Load the configuration.
    LoadConfiguration,
    /// Take over the listener that was bound.
    TakeListener,
    /// Check that the configuration asked for no managed service.
    RequireNoService,
    /// Raise the limits of the process and set the agent socket.
    ApplyConfiguration,
    /// Leave the foreground, and start the server again there.
    Daemonize,
    /// Remove misleading variables.
    RemoveVariables,
    /// Register the storage of large objects.
    RegisterStorage,
    /// Make the multiplexer.
    MakeMux,
    /// Start the listeners.
    SpawnListeners,
    /// Run the first pane and the event loop.
    Serve,
}

/// The steps before the command line is known.
pub open spec fn steps_before_options(managed_flag: bool) -> Seq<StartupStep> {
    if managed_flag {
        seq![StartupStep::ParseOptions]
    } else {
        seq![StartupStep::Bootstrap, StartupStep::ParseOptions]
    }
}

/// The steps that bind the socket, and the bootstrap that may have waited for
/// them.
pub open spec fn steps_of_binding(managed_flag: bool, opts: Opt, supported: bool) -> Seq<
    StartupStep,
> {
    let protect = match opts.pid_file_fd {
        Some(fd) => seq![StartupStep::ValidateInvocation, StartupStep::ProtectDescriptor(fd)],
        None => seq![StartupStep::ValidateInvocation],
    };
    let prebind = if opts.dmux_managed_service && supported {
        protect.push(StartupStep::Prebind)
    } else {
        protect
    };
    let bootstrap = if managed_flag {
        prebind.push(StartupStep::Bootstrap)
    } else {
        prebind
    };
    let saved = bootstrap.push(StartupStep::SaveUmask);
    if opts.dmux_managed_service && !supported {
        saved.push(StartupStep::RefuseManagedService)
    } else {
        saved
    }
}

/// The steps that load the configuration and hand over the listener.
pub open spec fn steps_of_configuration(opts: Opt, supported: bool) -> Seq<StartupStep> {
    let loaded = seq![StartupStep::LoadConfiguration];
    let taken = if !supported {
        loaded
    } else if opts.dmux_managed_service {
        loaded.push(StartupStep::TakeListener)
    } else {
        loaded.push(StartupStep::RequireNoService)
    };
    taken.push(StartupStep::ApplyConfiguration)
}

/// The steps that serve, or that leave the foreground.
pub open spec fn steps_of_serving(opts: Opt) -> Seq<StartupStep> {
    if opts.daemonize {
        seq![StartupStep::Daemonize]
    } else {
        seq![
            StartupStep::RemoveVariables,
            StartupStep::RegisterStorage,
            StartupStep::MakeMux,
            StartupStep::SpawnListeners,
            StartupStep::Serve,
        ]
    }
}

/// The steps of the server's start, in order. `supported` tells whether the
/// system has a managed service.
pub open spec fn startup_steps(managed_flag: bool, opts: Opt, supported: bool) -> Seq<StartupStep> {
    steps_before_options(managed_flag) + steps_of_binding(managed_flag, opts, supported)
        + steps_of_configuration(opts, supported) + steps_of_serving(opts)
}

fn list_binding(managed_flag: bool, opts: &Opt, supported: bool) -> (steps: Vec<StartupStep>)
    ensures
        steps@ == steps_of_binding(managed_flag, *opts, supported),
{
    let mut steps: Vec<StartupStep> = Vec::new();
    steps.push(StartupStep::ValidateInvocation);
    if let Some(fd) = opts.pid_file_fd {
        steps.push(StartupStep::ProtectDescriptor(fd));
    }
    assert(steps@ =~= match opts.pid_file_fd {
        Some(fd) => seq![StartupStep::ValidateInvocation, StartupStep::ProtectDescriptor(fd)],
        None => seq![StartupStep::ValidateInvocation],
    });
    if opts.dmux_managed_service && supported {
        steps.push(StartupStep::Prebind);
    }
    if managed_flag {
        steps.push(StartupStep::Bootstrap);
    }
    steps.push(StartupStep::SaveUmask);
    if opts.dmux_managed_service && !supported {
        steps.push(StartupStep::RefuseManagedService);
    }
    steps
}

fn list_configuration(opts: &Opt, supported: bool) -> (steps: Vec<StartupStep>)
    ensures
        steps@ == steps_of_configuration(*opts, supported),
{
    let mut steps: Vec<StartupStep> = Vec::new();
    steps.push(StartupStep::LoadConfiguration);
    assert(steps@ =~= seq![StartupStep::LoadConfiguration]);
    if supported {
        if opts.dmux_managed_service {
            steps.push(StartupStep::TakeListener);
        } else {
            steps.push(StartupStep::RequireNoService);
        }
    }
    steps.push(StartupStep::ApplyConfiguration);
    steps
}

fn list_serving(opts: &Opt) -> (steps: Vec<StartupStep>)
    ensures
        steps@ == steps_of_serving(*opts),
{
    let mut steps: Vec<StartupStep> = Vec::new();
    if opts.daemonize {
        steps.push(StartupStep::Daemonize);
    } else {
        steps.push(StartupStep::RemoveVariables);
        steps.push(StartupStep::RegisterStorage);
        steps.push(StartupStep::MakeMux);
        steps.push(StartupStep::SpawnListeners);
        steps.push(StartupStep::Serve);
    }
    assert(steps@ =~= steps_of_serving(*opts));
    steps
}

/// Lists the steps of the server's start.
pub fn plan_startup(managed_flag: bool, opts: &Opt, supported: bool) -> (steps: Vec<StartupStep>)
    ensures
        steps@ == startup_steps(managed_flag, *opts, supported),
{
    let mut steps: Vec<StartupStep> = Vec::new();
    if !managed_flag {
        steps.push(StartupStep::Bootstrap);
    }
    steps.push(StartupStep::ParseOptions);
    assert(steps@ =~= steps_before_options(managed_flag));
    let mut binding = list_binding(managed_flag, opts, supported);
    steps.append(&mut binding);
    let mut configuration = list_configuration(opts, supported);
    steps.append(&mut configuration);
    let mut serving = list_serving(opts);
    steps.append(&mut serving);
    steps
}

/// Whether one step is taken before another, which is taken too.
pub open spec fn precedes(steps: Seq<StartupStep>, first: StartupStep, then: StartupStep) -> bool {
    exists|i: int, j: int|
        0 <= i < j < steps.len() && #[trigger] steps[i] == first && #[trigger] steps[j] == then
}

/// The managed service binds its socket before the process initialises anything
/// that could start a thread, and before its configuration is loaded; in the
/// foreground it serves the listener that it took over.
pub proof fn law_managed_service_binds_first(opts: Opt)
    requires
        opts.dmux_managed_service,
    ensures
        ({
            let steps = startup_steps(true, opts, true);
            &&& precedes(steps, StartupStep::ValidateInvocation, StartupStep::Prebind)
            &&& precedes(steps, StartupStep::Prebind, StartupStep::Bootstrap)
            &&& precedes(steps, StartupStep::Prebind, StartupStep::LoadConfiguration)
            &&& precedes(steps, StartupStep::LoadConfiguration, StartupStep::TakeListener)
            &&& !opts.daemonize ==> precedes(
                steps,
                StartupStep::TakeListener,
                StartupStep::SpawnListeners,
            )
        }),
{
    let steps = startup_steps(true, opts, true);
    let k: int = if opts.pid_file_fd is Some {
        1
    } else {
        0
    };
    assert(steps[1] == StartupStep::ValidateInvocation);
    assert(steps[2 + k] == StartupStep::Prebind);
    assert(steps[3 + k] == StartupStep::Bootstrap);
    assert(steps[5 + k] == StartupStep::LoadConfiguration);
    assert(steps[6 + k] == StartupStep::TakeListener);
    if !opts.daemonize {
        assert(steps[11 + k] == StartupStep::SpawnListeners);
    }
}

/// Without the managed service nothing is bound early and no listener is taken
/// over.
pub proof fn law_ordinary_start_binds_nothing_early(opts: Opt, i: int)
    requires
        !opts.dmux_managed_service,
        0 <= i < startup_steps(false, opts, true).len(),
    ensures
        startup_steps(false, opts, true)[i] != StartupStep::Prebind,
        startup_steps(false, opts, true)[i] != StartupStep::TakeListener,
{
    let steps = startup_steps(false, opts, true);
    let a = steps_before_options(false);
    let b = steps_of_binding(false, opts, true);
    let c = steps_of_configuration(opts, true);
    let d = steps_of_serving(opts);
    if i < a.len() {
        assert(steps[i] == a[i]);
    } else if i < a.len() + b.len() {
        assert(steps[i] == b[i - a.len()]);
    } else if i < a.len() + b.len() + c.len() {
        assert(steps[i] == c[i - a.len() - b.len()]);
    } else {
        assert(steps[i] == d[i - a.len() - b.len() - c.len()]);
    }
}

/// The flag counts exactly where it stands before the end of the options.
pub proof fn law_flag_counts_before_the_end_of_options(args: Seq<Seq<u8>>, from: int)
    requires
        0 <= from,
    ensures
        flag_present_from(args, from) <==> exists|i: int|
            from <= i < args.len() && (#[trigger] args[i]) == encode_utf8("--dmux-managed-service"@)
                && forall|k: int| from <= k <= i ==> (#[trigger] args[k]) != encode_utf8("--"@),
    decreases args.len() - from,
{
    let flag = encode_utf8("--dmux-managed-service"@);
    let end = encode_utf8("--"@);
    assert(flag != end) by {
        reveal_strlit("--dmux-managed-service");
        reveal_strlit("--");
        crate::text::lemma_utf8_injective("--dmux-managed-service"@, "--"@);
        assert("--dmux-managed-service"@.len() != "--"@.len());
    }
    if from < args.len() {
        law_flag_counts_before_the_end_of_options(args, from + 1);
        if args[from] == end {
            assert(!flag_present_from(args, from));
        } else if args[from] == flag {
            assert(forall|k: int| from <= k <= from ==> (#[trigger] args[k]) != end);
        } else {
            if flag_present_from(args, from + 1) {
                let i = choose|i: int|
                    from + 1 <= i < args.len() && (#[trigger] args[i]) == flag && forall|k: int|
                        from + 1 <= k <= i ==> (#[trigger] args[k]) != end;
                assert forall|k: int| from <= k <= i implies (#[trigger] args[k]) != end by {}
            }
            if exists|i: int|
                from <= i < args.len() && (#[trigger] args[i]) == flag && forall|k: int|
                    from <= k <= i ==> (#[trigger] args[k]) != end {
                let i = choose|i: int|
                    from <= i < args.len() && (#[trigger] args[i]) == flag && forall|k: int|
                        from <= k <= i ==> (#[trigger] args[k]) != end;
                assert(i >= from + 1);
            }
        }
    }
}

/// An invocation as the managed service is accepted exactly where it names an
/// absolute configuration file and nothing that would change what is served. Any
/// other invocation is accepted.
pub proof fn law_managed_invocation_names_only_its_configuration(opts: Opt)
    ensures
        invocation_refusal(opts) is None <==> !opts.dmux_managed_service || {
            &&& opts.config_file is Some
            &&& is_absolute(opts.config_file->0@)
            &&& opts.config_override@.len() == 0
            &&& opts.cwd is None
            &&& opts.prog@.len() == 0
            &&& opts.pid_file_fd is None
        },
{
}

/// Whether a word stands in a row with its value right behind it.
pub open spec fn gives_option(words: Seq<Seq<u8>>, name: Seq<char>, value: Seq<u8>) -> bool {
    exists|i: int|
        0 <= i < words.len() - 1 && (#[trigger] words[i]) == encode_utf8(name) && words[i + 1]
            == value
}

proof fn lemma_override_words(overrides: Seq<(String, String)>)
    ensures
        override_words(overrides).len() == 2 * overrides.len(),
        forall|k: int|
            0 <= k < overrides.len() ==> (#[trigger] override_words(overrides)[2 * k])
                == encode_utf8("--config"@) && override_words(overrides)[2 * k + 1] == encode_utf8(
                overrides[k].0@ + "="@ + overrides[k].1@,
            ),
    decreases overrides.len(),
{
    if overrides.len() > 0 {
        let rest = overrides.drop_last();
        lemma_override_words(rest);
        let all = override_words(overrides);
        assert forall|k: int| 0 <= k < overrides.len() implies (#[trigger] all[2 * k])
            == encode_utf8("--config"@) && all[2 * k + 1] == encode_utf8(
            overrides[k].0@ + "="@ + overrides[k].1@,
        ) by {
            if k < rest.len() {
                assert(override_words(rest)[2 * k] == encode_utf8("--config"@));
                assert(rest[k] == overrides[k]);
            }
        }
    }
}

/// The server is started again with what it was started with: the file descriptor
/// of the process number, the configuration, every override, the directory and
/// the program, each where there is one, and nothing more.
pub proof fn law_restart_hands_every_option_on(opts: Opt, pid_file: Option<i32>)
    ensures
        ({
            let words = restart_words(opts, pid_file);
            let prog = byte_rows(opts.prog@);
            &&& pid_file matches Some(fd) ==> gives_option(
                words,
                "--pid-file-fd"@,
                encode_utf8(signed_decimal(fd as int)),
            )
            &&& opts.skip_config ==> words.contains(encode_utf8("-n"@))
            &&& opts.config_file matches Some(path) ==> gives_option(
                words,
                "--config-file"@,
                path@,
            )
            &&& forall|k: int|
                0 <= k < opts.config_override@.len() ==> gives_option(
                    words,
                    "--config"@,
                    encode_utf8(
                        (#[trigger] opts.config_override@[k]).0@ + "="@
                            + opts.config_override@[k].1@,
                    ),
                )
            &&& opts.cwd matches Some(path) ==> gives_option(words, "--cwd"@, path@)
            &&& prog.len() > 0 ==> words.skip(words.len() - prog.len()) == prog && words[words.len()
                - prog.len() - 1] == encode_utf8("--"@)
            &&& words.len() == (if pid_file is Some {
                2int
            } else {
                0
            }) + (if opts.skip_config {
                1int
            } else {
                0
            }) + (if opts.config_file is Some {
                2int
            } else {
                0
            }) + 2 * opts.config_override@.len() + (if opts.cwd is Some {
                2int
            } else {
                0
            }) + (if prog.len() > 0 {
                prog.len() + 1
            } else {
                0
            })
        }),
{
    lemma_override_words(opts.config_override@);
    lemma_restart_named(opts, pid_file);
    lemma_restart_overrides(opts, pid_file);
    lemma_restart_program(opts, pid_file);
}

proof fn lemma_restart_named(opts: Opt, pid_file: Option<i32>)
    ensures
        ({
            let words = restart_words(opts, pid_file);
            &&& pid_file matches Some(fd) ==> gives_option(
                words,
                "--pid-file-fd"@,
                encode_utf8(signed_decimal(fd as int)),
            )
            &&& opts.config_file matches Some(path) ==> gives_option(
                words,
                "--config-file"@,
                path@,
            )
            &&& opts.cwd matches Some(path) ==> gives_option(words, "--cwd"@, path@)
        }),
{
    let words = restart_words(opts, pid_file);
    let a = named_words("--pid-file-fd"@, descriptor_word(pid_file));
    let b = a + skip_words(opts.skip_config);
    let c = named_words("--config-file"@, optional_bytes(opts.config_file));
    let d = b + c + override_words(opts.config_override@);
    let e = named_words("--cwd"@, optional_bytes(opts.cwd));
    let f = program_words(byte_rows(opts.prog@));
    assert(words == d + e + f);
    if pid_file is Some {
        assert(a.len() == 2);
        assert(words[0] == a[0] && words[1] == a[1]);
        assert(words[0] == encode_utf8("--pid-file-fd"@));
    }
    if opts.config_file is Some {
        let i = b.len() as int;
        assert(c.len() == 2);
        assert(words[i] == c[0] && words[i + 1] == c[1]);
        assert(words[i] == encode_utf8("--config-file"@));
    }
    if opts.cwd is Some {
        let i = d.len() as int;
        assert(e.len() == 2);
        assert(words[i] == e[0] && words[i + 1] == e[1]);
        assert(words[i] == encode_utf8("--cwd"@));
    }
}

proof fn lemma_restart_overrides(opts: Opt, pid_file: Option<i32>)
    ensures
        forall|k: int|
            0 <= k < opts.config_override@.len() ==> gives_option(
                restart_words(opts, pid_file),
                "--config"@,
                encode_utf8(
                    (#[trigger] opts.config_override@[k]).0@ + "="@ + opts.config_override@[k].1@,
                ),
            ),
{
    let words = restart_words(opts, pid_file);
    let head = named_words("--pid-file-fd"@, descriptor_word(pid_file)) + skip_words(
        opts.skip_config,
    ) + named_words("--config-file"@, optional_bytes(opts.config_file));
    let d = override_words(opts.config_override@);
    let tail = named_words("--cwd"@, optional_bytes(opts.cwd));
    let f = program_words(byte_rows(opts.prog@));
    assert(words == head + d + tail + f);
    lemma_override_words(opts.config_override@);
    assert forall|k: int| 0 <= k < opts.config_override@.len() implies gives_option(
        words,
        "--config"@,
        encode_utf8(
            (#[trigger] opts.config_override@[k]).0@ + "="@ + opts.config_override@[k].1@,
        ),
    ) by {
        let i = head.len() + 2 * k;
        assert(d[2 * k] == encode_utf8("--config"@));
        assert(words[i] == d[2 * k]);
        assert(words[i + 1] == d[2 * k + 1]);
    }
}

proof fn lemma_restart_program(opts: Opt, pid_file: Option<i32>)
    ensures
        ({
            let words = restart_words(opts, pid_file);
            let prog = byte_rows(opts.prog@);
            &&& opts.skip_config ==> words.contains(encode_utf8("-n"@))
            &&& prog.len() > 0 ==> words.skip(words.len() - prog.len()) == prog && words[words.len()
                - prog.len() - 1] == encode_utf8("--"@)
        }),
{
    let words = restart_words(opts, pid_file);
    let prog = byte_rows(opts.prog@);
    let a = named_words("--pid-file-fd"@, descriptor_word(pid_file));
    let rest = named_words("--config-file"@, optional_bytes(opts.config_file)) + override_words(
        opts.config_override@,
    ) + named_words("--cwd"@, optional_bytes(opts.cwd));
    let f = program_words(prog);
    let head = a + skip_words(opts.skip_config) + rest;
    assert(words =~= head + f);
    if opts.skip_config {
        assert(words[a.len() as int] == encode_utf8("-n"@));
    }
    if prog.len() > 0 {
        assert(words.skip(words.len() - prog.len()) =~= prog);
        assert(words[words.len() - prog.len() - 1] == f[0]);
    }
}

/// Every start parses its options before it checks them, loads the configuration
/// after that, and applies it before it serves or leaves the foreground. In the
/// foreground the multiplexer is made before the listeners are started, and these
/// before anything is served; in the background nothing is served.
pub proof fn law_startup_is_in_order(managed_flag: bool, opts: Opt, supported: bool)
    ensures
        ({
            let steps = startup_steps(managed_flag, opts, supported);
            let n = steps.len();
            &&& n >= 5
            &&& precedes(steps, StartupStep::ParseOptions, StartupStep::ValidateInvocation)
            &&& precedes(steps, StartupStep::ValidateInvocation, StartupStep::LoadConfiguration)
            &&& precedes(steps, StartupStep::SaveUmask, StartupStep::LoadConfiguration)
            &&& precedes(steps, StartupStep::Bootstrap, StartupStep::LoadConfiguration)
            &&& precedes(steps, StartupStep::LoadConfiguration, StartupStep::ApplyConfiguration)
            &&& opts.pid_file_fd matches Some(fd) ==> precedes(
                steps,
                StartupStep::ProtectDescriptor(fd),
                StartupStep::LoadConfiguration,
            )
            &&& opts.dmux_managed_service && !supported ==> precedes(
                steps,
                StartupStep::RefuseManagedService,
                StartupStep::LoadConfiguration,
            )
            &&& !opts.dmux_managed_service && supported ==> precedes(
                steps,
                StartupStep::LoadConfiguration,
                StartupStep::RequireNoService,
            ) && precedes(
                steps,
                StartupStep::RequireNoService,
                StartupStep::ApplyConfiguration,
            )
            &&& opts.daemonize ==> steps[n - 1] == StartupStep::Daemonize && steps[n - 2]
                == StartupStep::ApplyConfiguration && !steps.contains(StartupStep::Serve)
                && !steps.contains(StartupStep::SpawnListeners)
            &&& !opts.daemonize ==> steps[n - 1] == StartupStep::Serve && precedes(
                steps,
                StartupStep::ApplyConfiguration,
                StartupStep::RemoveVariables,
            ) && precedes(steps, StartupStep::RegisterStorage, StartupStep::MakeMux) && precedes(
                steps,
                StartupStep::MakeMux,
                StartupStep::SpawnListeners,
            ) && precedes(steps, StartupStep::SpawnListeners, StartupStep::Serve) && precedes(
                steps,
                StartupStep::RemoveVariables,
                StartupStep::Serve,
            ) && !steps.contains(StartupStep::Daemonize)
        }),
{
    let steps = startup_steps(managed_flag, opts, supported);
    let a = steps_before_options(managed_flag);
    let b = steps_of_binding(managed_flag, opts, supported);
    let c = steps_of_configuration(opts, supported);
    let d = steps_of_serving(opts);
    let x = a.len() as int;
    let y = x + b.len();
    let z = y + c.len();
    assert(steps[x - 1] == StartupStep::ParseOptions);
    assert(steps[x] == StartupStep::ValidateInvocation);
    assert(steps[y] == StartupStep::LoadConfiguration);
    assert(steps[z - 1] == StartupStep::ApplyConfiguration);
    assert(steps.len() == z + d.len());
    if opts.dmux_managed_service && !supported {
        assert(steps[y - 1] == StartupStep::RefuseManagedService);
        assert(steps[y - 2] == StartupStep::SaveUmask);
        if managed_flag {
            assert(steps[y - 3] == StartupStep::Bootstrap);
        }
    } else {
        assert(steps[y - 1] == StartupStep::SaveUmask);
        if managed_flag {
            assert(steps[y - 2] == StartupStep::Bootstrap);
        }
    }
    if !managed_flag {
        assert(steps[0] == StartupStep::Bootstrap);
    }
    if opts.pid_file_fd is Some {
        assert(steps[x + 1] == StartupStep::ProtectDescriptor(opts.pid_file_fd->0));
    }
    if !opts.dmux_managed_service && supported {
        assert(steps[y + 1] == StartupStep::RequireNoService);
    }
    if opts.daemonize {
        assert(steps[z] == StartupStep::Daemonize);
    } else {
        assert(steps[z] == StartupStep::RemoveVariables);
        assert(steps[z + 1] == StartupStep::RegisterStorage);
        assert(steps[z + 2] == StartupStep::MakeMux);
        assert(steps[z + 3] == StartupStep::SpawnListeners);
        assert(steps[z + 4] == StartupStep::Serve);
    }
}

/// The variables that would mislead are exactly those about the directory and the
/// shell that the server was started from, and about the pane and the socket that
/// it was started in.
pub proof fn law_misleading_variables(name: Seq<char>)
    ensures
        misleading_variables().contains(name) <==> name == "OLDPWD"@ || name == "PWD"@ || name
            == "SHLVL"@ || name == "WEZTERM_PANE"@ || name == "WEZTERM_UNIX_SOCKET"@ || name
            == "_"@,
{
    let names = misleading_variables();
    assert(names.len() == 6);
    assert(names[0] == "OLDPWD"@ && names[1] == "PWD"@ && names[2] == "SHLVL"@ && names[3]
        == "WEZTERM_PANE"@ && names[4] == "WEZTERM_UNIX_SOCKET"@ && names[5] == "_"@);
}

} // verus!
