//! The command line as plain values: the providers, the output formats and
//! the commands that the program accepts.

use vstd::prelude::*;

verus! {

/// A hosted inference service.
#[derive(Clone, Copy, Debug, PartialEq, Eq, Structural)]
pub enum Provider {
    Replicate,
    Fal,
    WaveSpeed,
}

/// The name under which a provider is shown and under which its key is stored.
pub open spec fn provider_name(p: Provider) -> Seq<char> {
    match p {
        Provider::Replicate => "replicate"@,
        Provider::Fal => "fal"@,
        Provider::WaveSpeed => "wavespeed"@,
    }
}

/// Distinct providers have distinct names.
pub proof fn lemma_provider_name_injective(p: Provider, q: Provider)
    ensures
        provider_name(p) == provider_name(q) <==> p == q,
{
    reveal_strlit("replicate");
    reveal_strlit("fal");
    reveal_strlit("wavespeed");
    if p != q {
        match (p, q) {
            (Provider::Replicate, Provider::Fal) => assert(provider_name(p).len() != provider_name(q).len()),
            (Provider::Fal, Provider::Replicate) => assert(provider_name(p).len() != provider_name(q).len()),
            (Provider::Replicate, Provider::WaveSpeed) => assert(provider_name(p)[0] != provider_name(q)[0]),
            (Provider::WaveSpeed, Provider::Replicate) => assert(provider_name(p)[0] != provider_name(q)[0]),
            (Provider::Fal, Provider::WaveSpeed) => assert(provider_name(p).len() != provider_name(q).len()),
            (Provider::WaveSpeed, Provider::Fal) => assert(provider_name(p).len() != provider_name(q).len()),
            _ => {},
        }
    }
}

/// The provider at a position of the menu "Replicate", "Fal", "WaveSpeed".
pub open spec fn menu_provider(index: int) -> Option<Provider> {
    if index == 0 {
        Some(Provider::Replicate)
    } else if index == 1 {
        Some(Provider::Fal)
    } else if index == 2 {
        Some(Provider::WaveSpeed)
    } else {
        None
    }
}

impl Provider {
    /// The provider's name, as it is displayed.
    pub fn name(self) -> (s: &'static str)
        ensures
            s@ == provider_name(self),
    {
        match self {
            Provider::Replicate => "replicate",
            Provider::Fal => "fal",
            Provider::WaveSpeed => "wavespeed",
        }
    }

    /// The provider's name as an owned string.
    pub fn to_string(&self) -> (s: String)
        ensures
            s@ == provider_name(*self),
    {
        self.name().to_owned()
    }

    /// The provider at a position of the menu "Replicate", "Fal", "WaveSpeed".
    pub fn from_menu_index(index: usize) -> (p: Option<Provider>)
        ensures
            p == menu_provider(index as int),
    {
        if index == 0 {
            Some(Provider::Replicate)
        } else if index == 1 {
            Some(Provider::Fal)
        } else if index == 2 {
            Some(Provider::WaveSpeed)
        } else {
            None
        }
    }
}

/// How results are printed.
#[derive(Clone, Copy, Debug, PartialEq, Eq, Structural)]
pub enum OutputFormat {
    Text,
    Json,
    Pretty,
}

impl Default for OutputFormat {
    fn default() -> (f: Self)
        ensures
            f == OutputFormat::Text,
    {
        OutputFormat::Text
    }
}

/// What `config` is asked to do.
#[allow(inconsistent_fields)]
pub enum ConfigAction {
    /// Store an API key for a provider.
    SetKey { provider: Provider, key: String },
    /// Show the stored configuration.
    Show,
    /// Clear the key of one provider, or all keys.
    Clear { provider: Option<Provider> },
}

/// The program's commands.
#[allow(inconsistent_fields)]
pub enum Commands {
    /// Run a model with the given provider.
    Run {
        provider: Provider,
        model: String,
        input: Option<String>,
        input_file: Option<String>,
        file: Vec<String>,
        wait: bool,
        timeout: u64,
    },
    /// Fetch a model's schema.
    Schema { provider: Provider, model: String },
    /// List the models of a provider.
    List { provider: Provider, query: Option<String>, limit: usize },
    /// Guided model selection and input.
    Interactive { provider: Option<Provider> },
    /// Manage the stored API keys.
    Config { action: ConfigAction },
}

/// A parsed command line.
pub struct Cli {
    pub command: Commands,
    pub output: OutputFormat,
    pub verbose: bool,
}

/// Where the input of a `run` comes from.
#[derive(Debug)]
pub enum InputSource {
    /// JSON given on the command line.
    Inline(String),
    /// JSON read from a file at this path.
    File(String),
    /// No input given: an empty object.
    Empty,
}

/// Picks the input of a `run`: the inline JSON first, then the input file,
/// else an empty object.
pub fn choose_input_source(input: Option<String>, input_file: Option<String>) -> (s: InputSource)
    ensures
        match (input, input_file) {
            (Some(i), _) => s matches InputSource::Inline(t) && t@ == i@,
            (None, Some(f)) => s matches InputSource::File(t) && t@ == f@,
            (None, None) => s is Empty,
        },
{
    match input {
        Some(i) => InputSource::Inline(i),
        None => match input_file {
            Some(f) => InputSource::File(f),
            None => InputSource::Empty,
        },
    }
}

} // verus!
