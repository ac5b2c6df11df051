//! Layered configuration (defaults, configuration files, environment,
//! command-line flags), flag validation, user-facing errors and the
//! startup banner.
use vstd::prelude::*;
use crate::paths::{path_join, path_parent, std_path_join, std_path_parent};
use crate::text::{pad_right, push_padded_right, push_str, string_views};

verus! {

// ---------------------------------------------------------------------------
// Errors
// ---------------------------------------------------------------------------

/// User-facing agent errors, each with a friendly message.
#[derive(Debug, Clone, PartialEq)]
pub enum AgentError {
    Config { message: String },
    Session { message: String },
    /// A failed file operation: the path and the system's error text.
    Io { path: String, source: String },
    Provider { message: String },
}

/// The message of an agent error.
pub open spec fn agent_error_message(e: AgentError) -> Seq<char> {
    match e {
        AgentError::Config { message } => "Configuration error: "@ + message@,
        AgentError::Session { message } => "Session error: "@ + message@,
        AgentError::Io { path, source } => "I/O error at "@ + path@ + ": "@ + source@,
        AgentError::Provider { message } => "Provider error: "@ + message@,
    }
}

impl AgentError {
    /// The message shown to the user.
    pub fn message(&self) -> (s: String)
        ensures
            s@ == agent_error_message(*self),
    {
        let mut s = String::new();
        match self {
            AgentError::Config { message } => {
                push_str(&mut s, "Configuration error: ");
                push_str(&mut s, message.as_str());
            },
            AgentError::Session { message } => {
                push_str(&mut s, "Session error: ");
                push_str(&mut s, message.as_str());
            },
            AgentError::Io { path, source } => {
                push_str(&mut s, "I/O error at ");
                push_str(&mut s, path.as_str());
                push_str(&mut s, ": ");
                push_str(&mut s, source.as_str());
            },
            AgentError::Provider { message } => {
                push_str(&mut s, "Provider error: ");
                push_str(&mut s, message.as_str());
            },
        }
        s
    }
}

// ---------------------------------------------------------------------------
// Configuration
// ---------------------------------------------------------------------------

/// Which model to use and how long its answers may be.
#[derive(Debug, Clone)]
pub struct ProviderConfig {
    /// Provider name: `anthropic`, `openai` or `ollama`.
    pub name: String,
    pub model: String,
    pub max_tokens: u32,
}

/// Logging settings.
#[derive(Debug, Clone)]
pub struct LoggingConfig {
    /// Log level: `error`, `warn`, `info`, `debug` or `trace`.
    pub level: String,
}

/// Interface settings.
#[derive(Debug, Clone)]
pub struct UiConfig {
    /// Whether to show the startup banner.
    pub banner: bool,
}

/// Session persistence settings.
#[derive(Debug, Clone)]
pub struct SessionConfig {
    /// Directory for session files.
    pub directory: Option<String>,
    /// Whether to save the session on exit.
    pub auto_save: bool,
}

/// The whole configuration.
#[derive(Debug, Clone)]
pub struct AgentConfig {
    pub provider: ProviderConfig,
    pub logging: LoggingConfig,
    pub ui: UiConfig,
    pub session: SessionConfig,
}

/// The view of an optional string.
pub open spec fn opt_view(o: Option<String>) -> Option<Seq<char>> {
    match o {
        Some(s) => Some(s@),
        None => None,
    }
}

/// A configuration by its values: provider name, model, token limit, log
/// level, banner, session directory and auto-save.
pub type ConfigView = (Seq<char>, Seq<char>, u32, Seq<char>, bool, Option<Seq<char>>, bool);

impl View for AgentConfig {
    type V = ConfigView;

    open spec fn view(&self) -> ConfigView {
        (
            self.provider.name@,
            self.provider.model@,
            self.provider.max_tokens,
            self.logging.level@,
            self.ui.banner,
            opt_view(self.session.directory),
            self.session.auto_save,
        )
    }
}

/// The built-in defaults: Anthropic with the given default model and
/// 4096 tokens, log level `info`, a banner, and auto-saved sessions in the
/// default place.
pub open spec fn default_config(model: Seq<char>) -> ConfigView {
    ("anthropic"@, model, 4096, "info"@, true, None, true)
}

impl AgentConfig {
    /// The built-in defaults (the first layer of the configuration), with
    /// Anthropic's default model.
    pub fn defaults(model: &str) -> (c: Self)
        ensures
            c@ == default_config(model@),
    {
        AgentConfig {
            provider: ProviderConfig {
                name: "anthropic".to_string(),
                model: model.to_string(),
                max_tokens: 4096,
            },
            logging: LoggingConfig { level: "info".to_string() },
            ui: UiConfig { banner: true },
            session: SessionConfig { directory: None, auto_save: true },
        }
    }
}

/// The configuration with environment overrides applied: `AGENT_PROVIDER`,
/// `AGENT_MODEL` and `AGENT_LOG_LEVEL`, each where set.
pub open spec fn with_env(
    c: ConfigView,
    provider: Option<Seq<char>>,
    model: Option<Seq<char>>,
    level: Option<Seq<char>>,
) -> ConfigView {
    (
        match provider {
            Some(p) => p,
            None => c.0,
        },
        match model {
            Some(m) => m,
            None => c.1,
        },
        c.2,
        match level {
            Some(l) => l,
            None => c.3,
        },
        c.4,
        c.5,
        c.6,
    )
}

/// Applies the environment layer of the configuration, given the values
/// of `AGENT_PROVIDER`, `AGENT_MODEL` and `AGENT_LOG_LEVEL` (`None` where
/// unset).
pub fn apply_env_overrides(
    config: &mut AgentConfig,
    provider: Option<String>,
    model: Option<String>,
    level: Option<String>,
)
    ensures
        final(config)@ == with_env(
            old(config)@,
            opt_view(provider),
            opt_view(model),
            opt_view(level),
        ),
{
    if let Some(p) = provider {
        config.provider.name = p;
    }
    if let Some(m) = model {
        config.provider.model = m;
    }
    if let Some(l) = level {
        config.logging.level = l;
    }
}

/// The global configuration file: under `XDG_CONFIG_HOME` when set, else
/// under the platform's configuration directory, else `.cli-agent.toml`.
pub open spec fn global_config_path_for(xdg: Option<Seq<char>>, config_dir: Option<Seq<char>>) -> Seq<
    char,
> {
    match xdg {
        Some(x) => std_path_join(std_path_join(x, "cli-agent"@), "config.toml"@),
        None => match config_dir {
            Some(d) => std_path_join(std_path_join(d, "cli-agent"@), "config.toml"@),
            None => ".cli-agent.toml"@,
        },
    }
}

/// The path of the global configuration file, given the value of
/// `XDG_CONFIG_HOME` and the platform's configuration directory.
pub fn global_config_path(xdg: Option<&str>, config_dir: Option<&str>) -> (p: String)
    ensures
        p@ == global_config_path_for(
            match xdg {
                Some(x) => Some(x@),
                None => None,
            },
            match config_dir {
                Some(d) => Some(d@),
                None => None,
            },
        ),
{
    match xdg {
        Some(x) => {
            let dir = path_join(x, "cli-agent");
            path_join(dir.as_str(), "config.toml")
        },
        None => match config_dir {
            Some(d) => {
                let dir = path_join(d, "cli-agent");
                path_join(dir.as_str(), "config.toml")
            },
            None => ".cli-agent.toml".to_string(),
        },
    }
}

/// The project configuration files looked for, nearest first: `.agent.toml`
/// in `dir`, then in each directory above it, up to the top.
pub open spec fn project_config_candidates_for(dir: Seq<char>) -> Seq<Seq<char>>
    decreases dir.len(),
{
    seq![std_path_join(dir, ".agent.toml"@)] + match std_path_parent(dir) {
        Some(up) => if up.len() < dir.len() {
            project_config_candidates_for(up)
        } else {
            Seq::<Seq<char>>::empty()
        },
        None => Seq::<Seq<char>>::empty(),
    }
}

/// The places to look for a project configuration file, nearest first:
/// the first that exists is the one to use.
pub fn project_config_candidates(start: &str) -> (c: Vec<String>)
    ensures
        string_views(c@) == project_config_candidates_for(start@),
{
    let mut out: Vec<String> = Vec::new();
    let mut cur = start.to_string();
    let mut done = false;
    while !done
        invariant
            done ==> string_views(out@) == project_config_candidates_for(start@),
            !done ==> string_views(out@) + project_config_candidates_for(cur@)
                == project_config_candidates_for(start@),
        decreases (if done { 0 } else { cur@.len() + 1 }),
    {
        let ghost before = out@;
        let ghost here = cur@;
        out.push(path_join(cur.as_str(), ".agent.toml"));
        assert(string_views(out@) == string_views(before).push(std_path_join(here, ".agent.toml"@)));
        match path_parent(cur.as_str()) {
            Some(up) => {
                cur = up;
            },
            None => {
                done = true;
            },
        }
        assert(string_views(before) + project_config_candidates_for(here) == string_views(before).push(
            std_path_join(here, ".agent.toml"@),
        ) + (project_config_candidates_for(here).drop_first()));
    }
    out
}

// ---------------------------------------------------------------------------
// Command line
// ---------------------------------------------------------------------------

/// The command-line arguments.
#[derive(Debug, Clone)]
pub struct Args {
    /// The initial prompt.
    pub prompt: Option<String>,
    /// The provider to use.
    pub provider: Option<String>,
    /// The model to use.
    pub model: Option<String>,
    /// Debug-level logging.
    pub verbose: bool,
    /// Maximum number of agentic turns.
    pub max_turns: u32,
    /// A configuration file to use.
    pub config: Option<String>,
    /// Run without confirmation prompts.
    pub non_interactive: bool,
    /// A session file to resume.
    pub resume: Option<String>,
    /// Where to save the session when finished.
    pub save_session: Option<String>,
}

/// The error for non-interactive mode without a prompt.
pub open spec fn missing_prompt_message() -> Seq<char> {
    "Non-interactive mode requires a prompt. Use: cli-agent --non-interactive -p \"your prompt\""@
}

impl Args {
    /// Checks the flag combinations that the parser cannot express:
    /// non-interactive mode needs a prompt.
    pub fn validate(&self) -> (r: Result<(), String>)
        ensures
            r is Err <==> (self.non_interactive && self.prompt is None),
            match r {
                Err(m) => m@ == missing_prompt_message(),
                Ok(_) => true,
            },
    {
        if self.non_interactive && self.prompt.is_none() {
            return Err(
                "Non-interactive mode requires a prompt. Use: cli-agent --non-interactive -p \"your prompt\"".to_string(),
            );
        }
        Ok(())
    }
}

/// The configuration with the command-line flags applied on top: provider
/// and model where given, `debug` logging when verbose, and the session
/// directory set to the parent of an explicit save path.
pub open spec fn with_flags(c: ConfigView, args: Args) -> ConfigView {
    (
        match args.provider {
            Some(p) => p@,
            None => c.0,
        },
        match args.model {
            Some(m) => m@,
            None => c.1,
        },
        c.2,
        if args.verbose {
            "debug"@
        } else {
            c.3
        },
        c.4,
        match args.save_session {
            Some(p) => std_path_parent(p@),
            None => c.5,
        },
        c.6,
    )
}

/// Applies the command-line layer of the configuration (the highest).
pub fn apply_cli_overrides(config: &mut AgentConfig, args: &Args)
    ensures
        final(config)@ == with_flags(old(config)@, *args),
{
    if let Some(provider) = &args.provider {
        config.provider.name = provider.clone();
    }
    if let Some(model) = &args.model {
        config.provider.model = model.clone();
    }
    if args.verbose {
        config.logging.level = "debug".to_string();
    }
    if let Some(path) = &args.save_session {
        config.session.directory = path_parent(path.as_str());
    }
}

// ---------------------------------------------------------------------------
// Startup banner
// ---------------------------------------------------------------------------

/// The startup banner: a box with the version, provider and model, then a
/// blank line.
pub open spec fn banner(version: Seq<char>, provider: Seq<char>, model: Seq<char>) -> Seq<Seq<char>> {
    seq![
        "┌─────────────────────────────────────────┐"@,
        "│  cli-agent v"@ + pad_right(version, 27) + "│"@,
        "│  Provider: "@ + pad_right(provider, 29) + "│"@,
        "│  Model:    "@ + pad_right(model, 29) + "│"@,
        "└─────────────────────────────────────────┘"@,
        Seq::<char>::empty(),
    ]
}

/// A banner line: a label, a left-aligned value and the box's edge.
fn banner_line(label: &str, value: &str, width: usize) -> (s: String)
    ensures
        s@ == label@ + pad_right(value@, width as nat) + "│"@,
{
    let mut s = String::new();
    push_str(&mut s, label);
    push_padded_right(&mut s, value, width);
    push_str(&mut s, "│");
    assert(Seq::<char>::empty() + label@ + pad_right(value@, width as nat) + "│"@ == label@
        + pad_right(value@, width as nat) + "│"@);
    s
}

/// The lines of the startup banner for `config` and the program version.
pub fn banner_lines(config: &AgentConfig, version: &str) -> (lines: Vec<String>)
    ensures
        string_views(lines@) == banner(version@, config.provider.name@, config.provider.model@),
{
    let mut lines: Vec<String> = Vec::new();
    lines.push("┌─────────────────────────────────────────┐".to_string());
    lines.push(banner_line("│  cli-agent v", version, 27));
    lines.push(banner_line("│  Provider: ", config.provider.name.as_str(), 29));
    lines.push(banner_line("│  Model:    ", config.provider.model.as_str(), 29));
    lines.push("└─────────────────────────────────────────┘".to_string());
    lines.push(String::new());
    lines
}

// ---------------------------------------------------------------------------
// Laws
// ---------------------------------------------------------------------------

/// A flag given on the command line wins over every lower layer: after the
/// flags are applied, the provider and model are those of the flags,
/// whatever the environment or files said.
pub proof fn law_flags_win(c: ConfigView, env_provider: Option<Seq<char>>, env_model: Option<Seq<char>>, env_level: Option<Seq<char>>, args: Args)
    ensures
        args.provider is Some ==> with_flags(with_env(c, env_provider, env_model, env_level), args).0
            == args.provider->0@,
        args.model is Some ==> with_flags(with_env(c, env_provider, env_model, env_level), args).1
            == args.model->0@,
        args.verbose ==> with_flags(with_env(c, env_provider, env_model, env_level), args).3
            == "debug"@,
{
}


/// The environment layer sets exactly what it is given: a set
/// `AGENT_PROVIDER`, `AGENT_MODEL` or `AGENT_LOG_LEVEL` becomes the
/// provider, model or log level; an unset one leaves the earlier value; the
/// other settings never change.
pub proof fn law_environment_sets_what_it_names(
    c: ConfigView,
    provider: Option<Seq<char>>,
    model: Option<Seq<char>>,
    level: Option<Seq<char>>,
)
    ensures
        ({
            let r = with_env(c, provider, model, level);
            &&& r.0 == (if provider is Some { provider->0 } else { c.0 })
            &&& r.1 == (if model is Some { model->0 } else { c.1 })
            &&& r.3 == (if level is Some { level->0 } else { c.3 })
            &&& r.2 == c.2 && r.4 == c.4 && r.5 == c.5 && r.6 == c.6
        }),
{
}
} // verus!
