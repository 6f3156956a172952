//! The tool's settings: defaults, the overlay of configuration files, and the
//! API key taken from the environment.
use vstd::prelude::*;

verus! {

/// The settings of a run.
pub struct Config {
    pub model: String,
    pub max_tokens: u16,
    pub context: Vec<String>,
    pub api_key: String,
    pub provider: String,
}

/// A `Config` as plain values.
#[verifier::ext_equal]
pub struct ConfigView {
    pub model: Seq<char>,
    pub max_tokens: u16,
    pub context: Seq<Seq<char>>,
    pub api_key: Seq<char>,
    pub provider: Seq<char>,
}

/// The characters of each string of `v`.
pub open spec fn strings_view(v: Seq<String>) -> Seq<Seq<char>> {
    v.map_values(|s: String| s@)
}

impl View for Config {
    type V = ConfigView;

    open spec fn view(&self) -> ConfigView {
        ConfigView {
            model: self.model@,
            max_tokens: self.max_tokens,
            context: strings_view(self.context@),
            api_key: self.api_key@,
            provider: self.provider@,
        }
    }
}

/// The model used when no file names one.
pub open spec fn default_model_spec() -> Seq<char> {
    "gpt-4o-mini"@
}

/// The context files read when no file names any.
pub open spec fn default_context_spec() -> Seq<Seq<char>> {
    seq!["README.md"@]
}

/// The settings before any file or environment variable is read.
pub open spec fn default_config() -> ConfigView {
    ConfigView {
        model: default_model_spec(),
        max_tokens: 100,
        context: default_context_spec(),
        api_key: Seq::empty(),
        provider: "openai"@,
    }
}

/// `base` with each setting of `file` that is given (a non-empty string or list,
/// a positive token limit) laid over it.
pub open spec fn overlay(base: ConfigView, file: ConfigView) -> ConfigView {
    ConfigView {
        model: if file.model.len() > 0 { file.model } else { base.model },
        max_tokens: if file.max_tokens > 0 { file.max_tokens } else { base.max_tokens },
        context: if file.context.len() > 0 { file.context } else { base.context },
        api_key: if file.api_key.len() > 0 { file.api_key } else { base.api_key },
        provider: if file.provider.len() > 0 { file.provider } else { base.provider },
    }
}

/// `c` after the API keys found in the environment: an OpenAI key wins over an
/// Anthropic key, and each sets the provider it belongs to.
pub open spec fn with_env_keys(
    c: ConfigView,
    openai_key: Option<Seq<char>>,
    anthropic_key: Option<Seq<char>>,
) -> ConfigView {
    match openai_key {
        Some(k) => ConfigView { api_key: k, provider: "openai"@, ..c },
        None => match anthropic_key {
            Some(k) => ConfigView { api_key: k, provider: "anthropic"@, ..c },
            None => c,
        },
    }
}

/// The characters of an optional string.
pub open spec fn opt_view(o: Option<String>) -> Option<Seq<char>> {
    match o {
        Some(s) => Some(s@),
        None => None,
    }
}

/// The settings that a run ends up with: the defaults, then the user's file, then
/// the project's file, then the environment.
pub open spec fn loaded_config(
    user_file: Option<ConfigView>,
    project_file: Option<ConfigView>,
    openai_key: Option<Seq<char>>,
    anthropic_key: Option<Seq<char>>,
) -> ConfigView {
    let c0 = default_config();
    let c1 = match user_file {
        Some(f) => overlay(c0, f),
        None => c0,
    };
    let c2 = match project_file {
        Some(f) => overlay(c1, f),
        None => c1,
    };
    with_env_keys(c2, openai_key, anthropic_key)
}

/// The name of the default model.
pub fn default_model() -> (m: String)
    ensures
        m@ == default_model_spec(),
{
    "gpt-4o-mini".to_string()
}

/// The default limit on generated tokens.
pub fn default_max_tokens() -> (n: u16)
    ensures
        n == 100,
{
    100
}

/// The default list of context files.
pub fn default_context() -> (v: Vec<String>)
    ensures
        strings_view(v@) == default_context_spec(),
{
    let v = vec!["README.md".to_string()];
    assert(strings_view(v@) =~= default_context_spec());
    v
}

impl Default for Config {
    fn default() -> (c: Config)
        ensures
            c@ == default_config(),
    {
        Config {
            model: default_model(),
            max_tokens: default_max_tokens(),
            context: default_context(),
            api_key: String::new(),
            provider: "openai".to_string(),
        }
    }
}

impl Config {
    /// Lays the settings given in a configuration file over `self`.
    pub fn merge_from_file(&mut self, file_config: Config)
        ensures
            final(self)@ == overlay(old(self)@, file_config@),
    {
        let Config { model, max_tokens, context, api_key, provider } = file_config;
        if !model.as_str().is_empty() {
            self.model = model;
        }
        if max_tokens > 0 {
            self.max_tokens = max_tokens;
        }
        if context.len() > 0 {
            self.context = context;
        }
        if !api_key.as_str().is_empty() {
            self.api_key = api_key;
        }
        if !provider.as_str().is_empty() {
            self.provider = provider;
        }
    }

    /// Takes the API key from the environment's values: the OpenAI key when it is
    /// set, else the Anthropic key when it is set.
    pub fn apply_env_keys(&mut self, openai_key: Option<String>, anthropic_key: Option<String>)
        ensures
            final(self)@ == with_env_keys(old(self)@, opt_view(openai_key), opt_view(anthropic_key)),
    {
        match openai_key {
            Some(key) => {
                self.api_key = key;
                self.provider = "openai".to_string();
            },
            None => match anthropic_key {
                Some(key) => {
                    self.api_key = key;
                    self.provider = "anthropic".to_string();
                },
                None => {},
            },
        }
    }

    /// The settings of a run, from the parsed user file (`~/.gcmrc`), the parsed
    /// project file (`.gcm.yml`) and the two API key variables, where each is given.
    pub fn load(
        user_file: Option<Config>,
        project_file: Option<Config>,
        openai_key: Option<String>,
        anthropic_key: Option<String>,
    ) -> (c: Config)
        ensures
            c@ == loaded_config(
                match user_file {
                    Some(f) => Some(f@),
                    None => None,
                },
                match project_file {
                    Some(f) => Some(f@),
                    None => None,
                },
                opt_view(openai_key),
                opt_view(anthropic_key),
            ),
    {
        let mut config = Config::default();
        match user_file {
            Some(f) => config.merge_from_file(f),
            None => {},
        }
        match project_file {
            Some(f) => config.merge_from_file(f),
            None => {},
        }
        config.apply_env_keys(openai_key, anthropic_key);
        config
    }

    /// Replaces the model with the one asked for on the command line, if any.
    pub fn override_model(&mut self, model: Option<String>)
        ensures
            final(self)@ == (match model {
                Some(m) => ConfigView { model: m@, ..old(self)@ },
                None => old(self)@,
            }),
    {
        match model {
            Some(m) => {
                self.model = m;
            },
            None => {},
        }
    }
}

/// A configuration file that gives no setting at all.
pub open spec fn empty_file() -> ConfigView {
    ConfigView {
        model: Seq::empty(),
        max_tokens: 0,
        context: Seq::empty(),
        api_key: Seq::empty(),
        provider: Seq::empty(),
    }
}

/// Reading two files one after the other gives what reading once, a file that
/// holds the second file's settings laid over the first's, gives.
pub proof fn lemma_overlay_associative(base: ConfigView, first: ConfigView, second: ConfigView)
    ensures
        overlay(overlay(base, first), second) == overlay(base, overlay(first, second)),
{
    assert(overlay(overlay(base, first), second) =~= overlay(base, overlay(first, second)));
}

/// Reading the same file twice changes nothing more than reading it once.
pub proof fn lemma_overlay_idempotent(base: ConfigView, file: ConfigView)
    ensures
        overlay(overlay(base, file), file) == overlay(base, file),
{
    assert(overlay(overlay(base, file), file) =~= overlay(base, file));
}

/// A file that gives no setting leaves the settings as they were.
pub proof fn lemma_overlay_empty_file(base: ConfigView)
    ensures
        overlay(base, empty_file()) == base,
{
    assert(overlay(base, empty_file()) =~= base);
}

/// Each setting that a file gives is the one in force after reading it.
pub proof fn lemma_overlay_given_settings_win(base: ConfigView, file: ConfigView)
    ensures
        file.model.len() > 0 ==> overlay(base, file).model == file.model,
        file.max_tokens > 0 ==> overlay(base, file).max_tokens == file.max_tokens,
        file.context.len() > 0 ==> overlay(base, file).context == file.context,
        file.api_key.len() > 0 ==> overlay(base, file).api_key == file.api_key,
        file.provider.len() > 0 ==> overlay(base, file).provider == file.provider,
{
}

/// A setting that a file does not give is left as it was.
pub proof fn lemma_overlay_keeps_unset_settings(base: ConfigView, file: ConfigView)
    ensures
        file.model.len() == 0 ==> overlay(base, file).model == base.model,
        file.max_tokens == 0 ==> overlay(base, file).max_tokens == base.max_tokens,
        file.context.len() == 0 ==> overlay(base, file).context == base.context,
        file.api_key.len() == 0 ==> overlay(base, file).api_key == base.api_key,
        file.provider.len() == 0 ==> overlay(base, file).provider == base.provider,
{
}

/// The user's file is laid over the defaults whether or not there is a project file;
/// without a project file, the settings are the defaults with the user's file over
/// them, then the environment's key.
pub proof fn lemma_user_file_applies(
    user: ConfigView,
    project_file: Option<ConfigView>,
    openai_key: Option<Seq<char>>,
    anthropic_key: Option<Seq<char>>,
)
    ensures
        loaded_config(Some(user), None, openai_key, anthropic_key) == with_env_keys(
            overlay(default_config(), user),
            openai_key,
            anthropic_key,
        ),
        ({
            let c = loaded_config(Some(user), project_file, openai_key, anthropic_key);
            let project_silent_model = project_file is None || project_file->0.model.len() == 0;
            let project_silent_tokens = project_file is None || project_file->0.max_tokens == 0;
            let project_silent_context = project_file is None || project_file->0.context.len()
                == 0;
            let project_silent_key = project_file is None || project_file->0.api_key.len() == 0;
            let no_env = openai_key is None && anthropic_key is None;
            &&& (project_silent_model && user.model.len() > 0) ==> c.model == user.model
            &&& (project_silent_tokens && user.max_tokens > 0) ==> c.max_tokens
                == user.max_tokens
            &&& (project_silent_context && user.context.len() > 0) ==> c.context
                == user.context
            &&& (project_silent_key && no_env && user.api_key.len() > 0) ==> c.api_key
                == user.api_key
            &&& (project_silent_model && user.model.len() == 0) ==> c.model == "gpt-4o-mini"@
            &&& (project_silent_tokens && user.max_tokens == 0) ==> c.max_tokens == 100
        }),
{
    assert(loaded_config(Some(user), None, openai_key, anthropic_key) =~= with_env_keys(
        overlay(default_config(), user),
        openai_key,
        anthropic_key,
    ));
}

/// The defaults are those the README documents: model `gpt-4o-mini`, a limit of 100
/// tokens, `README.md` as context, no API key, and the OpenAI provider.
pub proof fn lemma_default_values()
    ensures
        default_config().model == "gpt-4o-mini"@,
        default_config().max_tokens == 100,
        default_config().context == seq!["README.md"@],
        default_config().api_key.len() == 0,
        default_config().provider == "openai"@,
{
}

/// Without a key in the environment, the key and the provider are left as the files
/// set them.
pub proof fn lemma_no_env_key_keeps_settings(c: ConfigView)
    ensures
        with_env_keys(c, None, None) == c,
{
}

/// With no file and no key in the environment, the defaults are in force.
pub proof fn lemma_load_nothing_gives_defaults()
    ensures
        loaded_config(None, None, None, None) == default_config(),
{
}

/// The project's file wins over the user's file for each setting it gives, unless an
/// API key in the environment replaces the key and the provider.
pub proof fn lemma_project_file_wins(
    user_file: Option<ConfigView>,
    project: ConfigView,
    openai_key: Option<Seq<char>>,
    anthropic_key: Option<Seq<char>>,
)
    ensures
        ({
            let c = loaded_config(user_file, Some(project), openai_key, anthropic_key);
            &&& project.model.len() > 0 ==> c.model == project.model
            &&& project.max_tokens > 0 ==> c.max_tokens == project.max_tokens
            &&& project.context.len() > 0 ==> c.context == project.context
            &&& (project.api_key.len() > 0 && openai_key is None && anthropic_key is None)
                ==> c.api_key == project.api_key
            &&& (project.provider.len() > 0 && openai_key is None && anthropic_key is None)
                ==> c.provider == project.provider
        }),
{
}

/// A key in `OPENAI_API_KEY` is used, with the OpenAI provider, whatever the files
/// and `ANTHROPIC_API_KEY` say; otherwise a key in `ANTHROPIC_API_KEY` is used, with
/// the Anthropic provider.
pub proof fn lemma_env_key_precedence(
    user_file: Option<ConfigView>,
    project_file: Option<ConfigView>,
    openai_key: Option<Seq<char>>,
    anthropic_key: Option<Seq<char>>,
)
    ensures
        ({
            let c = loaded_config(user_file, project_file, openai_key, anthropic_key);
            &&& openai_key matches Some(k) ==> c.api_key == k && c.provider == "openai"@
            &&& openai_key is None ==> (anthropic_key matches Some(k) ==> c.api_key == k
                && c.provider == "anthropic"@)
        }),
{
}

/// The environment's keys touch only the key and the provider.
pub proof fn lemma_env_keys_keep_other_settings(
    c: ConfigView,
    openai_key: Option<Seq<char>>,
    anthropic_key: Option<Seq<char>>,
)
    ensures
        with_env_keys(c, openai_key, anthropic_key).model == c.model,
        with_env_keys(c, openai_key, anthropic_key).max_tokens == c.max_tokens,
        with_env_keys(c, openai_key, anthropic_key).context == c.context,
{
}

} // verus!
