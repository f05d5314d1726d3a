//! The guided session: which question comes next and what each answer
//! changes. The terminal front end asks the questions and does the
//! requests; every decision is taken here.

use vstd::prelude::*;
use crate::cli::Provider;
use crate::config::{get_api_key_for_provider, resolved_key, Config, EnvKeys};
use crate::json::{Json, JsonV};
use crate::output::{shorten, shortenable, shortened};
use crate::providers::{infos_view, FileUpload, ModelInfo, ModelInfoV};
use crate::strmap::StrMap;
use crate::text::concat3;

verus! {

/// The step a guided session is at: what the front end asks or does next.
#[derive(Clone, Copy, Debug, PartialEq, Eq, Structural)]
pub enum Stage {
    /// Ask which provider to use (menu "Replicate", "Fal", "WaveSpeed").
    ChooseProvider,
    /// Load the configuration and read the environment's keys.
    ResolveKey,
    /// Ask for an API key.
    EnterKey,
    /// Ask whether to save the key entered.
    ConfirmSaveKey,
    /// Save the configuration.
    SaveKey,
    /// Open a client for the provider with the key.
    OpenProvider,
    /// Ask whether to see the available models.
    ConfirmListing,
    /// List the provider's models (no query, at most twenty).
    ListModels,
    /// Ask which listed model to use.
    ChooseModel,
    /// Ask for a model id.
    EnterModelId,
    /// Fetch and show the model's schema.
    ShowSchema,
    /// Ask how the input is given (menu: JSON, editor, default).
    ChooseInputMethod,
    /// Ask for the input as JSON (default `{}`).
    EnterInputJson,
    /// Open an editor on `{}` for the input.
    EditInputJson,
    /// Ask whether files are to be uploaded.
    ConfirmUploads,
    /// Ask for the parameter name of a file.
    EnterParamName,
    /// Ask for the path of a file.
    EnterFilePath,
    /// Check whether the file exists.
    CheckFile,
    /// Ask whether to add another file.
    ConfirmAnotherFile,
    /// Ask whether to wait for completion.
    ConfirmWait,
    /// Ask for the timeout in seconds (default 300).
    EnterTimeout,
    /// Run the model with what was gathered.
    Run,
}

/// The timeout used when none is asked for, in seconds.
pub const DEFAULT_TIMEOUT_SECS: u64 = 300;

/// The number of models asked for when listing.
pub const LISTING_LIMIT: usize = 20;

/// What a guided session has gathered so far.
pub struct Session {
    pub stage: Stage,
    pub provider: Provider,
    pub config: Config,
    pub api_key: String,
    pub models: Vec<ModelInfo>,
    pub model: String,
    pub input: Json,
    pub files: StrMap<FileUpload>,
    pub param_name: String,
    pub file_path: String,
    pub wait: bool,
    pub timeout: u64,
}

/// Whether two sessions hold the same answers, the stage aside.
pub open spec fn same_answers(a: Session, b: Session) -> bool {
    &&& a.provider == b.provider
    &&& a.config == b.config
    &&& a.api_key == b.api_key
    &&& a.models == b.models
    &&& a.model == b.model
    &&& a.input == b.input
    &&& a.files == b.files
    &&& a.param_name == b.param_name
    &&& a.file_path == b.file_path
    &&& a.wait == b.wait
    &&& a.timeout == b.timeout
}

/// The label of a model in the model menu: its id, a dash and its
/// description (empty when it has none) shortened to 50 bytes.
pub open spec fn model_label(m: ModelInfoV) -> Seq<char> {
    m.id + " - "@ + shortened(
        match m.description {
            Some(d) => d,
            None => Seq::empty(),
        },
        50,
        47,
    )
}

/// Whether every description of a listing can be shortened for the menu.
pub open spec fn labels_showable(ms: Seq<ModelInfoV>) -> bool {
    forall|i: int|
        0 <= i < ms.len() ==> match (#[trigger] ms[i]).description {
            Some(d) => shortenable(d, 50, 47),
            None => true,
        }
}

/// The texts of a list of strings.
pub open spec fn strings_view(v: Seq<String>) -> Seq<Seq<char>> {
    Seq::new(v.len(), |i: int| v[i]@)
}

/// The text of an editor session: what was saved, or `{}` when nothing was.
pub fn edited_text(saved: Option<String>) -> (t: String)
    ensures
        t@ == match saved {
            Some(s) => s@,
            None => "{}"@,
        },
{
    match saved {
        Some(s) => s,
        None => "{}".to_owned(),
    }
}

impl Session {
    /// A new session: it starts by asking for a provider unless one is given.
    pub fn start(provider: Option<Provider>) -> (s: Session)
        ensures
            match provider {
                Some(p) => s.stage == Stage::ResolveKey && s.provider == p,
                None => s.stage == Stage::ChooseProvider,
            },
            s.files.contents().is_empty(),
            s.models@.len() == 0,
            s.input@ == JsonV::Object(Seq::empty()),
            s.timeout == DEFAULT_TIMEOUT_SECS,
            !s.wait,
    {
        let (stage, p) = match provider {
            Some(p) => (Stage::ResolveKey, p),
            None => (Stage::ChooseProvider, Provider::Replicate),
        };
        let input = Json::Object(Vec::new());
        assert(input@->Object_0 =~= Seq::<(Seq<char>, JsonV)>::empty());
        let files = StrMap::new();
        assert(files.contents() =~= Map::empty());
        Session {
            stage,
            provider: p,
            config: Config::default(),
            api_key: String::new(),
            models: Vec::new(),
            model: String::new(),
            input,
            files,
            param_name: String::new(),
            file_path: String::new(),
            wait: false,
            timeout: DEFAULT_TIMEOUT_SECS,
        }
    }

    /// The provider at a position of the provider menu has been chosen.
    pub fn choose_provider(&mut self, index: usize)
        requires
            old(self).stage == Stage::ChooseProvider,
            index < 3,
        ensures
            final(self).stage == Stage::ResolveKey,
            crate::cli::menu_provider(index as int) == Some(final(self).provider),
            same_answers(*final(self), Session { provider: final(self).provider, ..*old(self) }),
    {
        let p = match Provider::from_menu_index(index) {
            Some(p) => p,
            None => Provider::Replicate,
        };
        self.provider = p;
        self.stage = Stage::ResolveKey;
    }

    /// The configuration and the environment's keys are known: the key is
    /// the environment's, else the stored one; without either, it is asked for.
    pub fn resolve_key(&mut self, env: &EnvKeys, config: Config)
        requires
            old(self).stage == Stage::ResolveKey,
        ensures
            final(self).config == config,
            match resolved_key(old(self).provider, *env, config.api_keys.contents()) {
                Ok(k) => final(self).stage == Stage::OpenProvider && final(self).api_key@ == k,
                Err(_) => final(self).stage == Stage::EnterKey && final(self).api_key == old(
                    self,
                ).api_key,
            },
            same_answers(
                *final(self),
                Session { config: final(self).config, api_key: final(self).api_key, ..*old(self) },
            ),
    {
        match get_api_key_for_provider(self.provider, env, &config) {
            Ok(k) => {
                self.api_key = k;
                self.stage = Stage::OpenProvider;
            },
            Err(_) => {
                self.stage = Stage::EnterKey;
            },
        }
        self.config = config;
    }

    /// A key has been entered.
    pub fn enter_key(&mut self, key: String)
        requires
            old(self).stage == Stage::EnterKey,
        ensures
            final(self).stage == Stage::ConfirmSaveKey,
            final(self).api_key == key,
            same_answers(*final(self), Session { api_key: key, ..*old(self) }),
    {
        self.api_key = key;
        self.stage = Stage::ConfirmSaveKey;
    }

    /// The user said whether to save the key: if so it is stored in the
    /// configuration, which is then saved.
    pub fn confirm_save_key(&mut self, save: bool)
        requires
            old(self).stage == Stage::ConfirmSaveKey,
        ensures
            save ==> final(self).stage == Stage::SaveKey && final(self).config.api_keys.contents()
                == old(self).config.api_keys.contents().insert(
                crate::cli::provider_name(old(self).provider),
                old(self).api_key@,
            ),
            !save ==> final(self).stage == Stage::OpenProvider && final(self).config == old(
                self,
            ).config,
            same_answers(*final(self), Session { config: final(self).config, ..*old(self) }),
    {
        if save {
            let key = self.api_key.clone();
            self.config.set_api_key(self.provider, key);
            self.stage = Stage::SaveKey;
        } else {
            self.stage = Stage::OpenProvider;
        }
    }

    /// The configuration has been saved.
    pub fn key_saved(&mut self)
        requires
            old(self).stage == Stage::SaveKey,
        ensures
            final(self).stage == Stage::OpenProvider,
            same_answers(*final(self), *old(self)),
    {
        self.stage = Stage::OpenProvider;
    }

    /// The provider's client is open.
    pub fn provider_opened(&mut self)
        requires
            old(self).stage == Stage::OpenProvider,
        ensures
            final(self).stage == Stage::ConfirmListing,
            same_answers(*final(self), *old(self)),
    {
        self.stage = Stage::ConfirmListing;
    }

    /// The user said whether to see the available models.
    pub fn confirm_listing(&mut self, yes: bool)
        requires
            old(self).stage == Stage::ConfirmListing,
        ensures
            final(self).stage == (if yes {
                Stage::ListModels
            } else {
                Stage::EnterModelId
            }),
            same_answers(*final(self), *old(self)),
    {
        self.stage = if yes {
            Stage::ListModels
        } else {
            Stage::EnterModelId
        };
    }

    /// The listing is done: `None` when it failed. A non-empty listing is
    /// offered as a menu; otherwise a model id is asked for.
    pub fn models_listed(&mut self, models: Option<Vec<ModelInfo>>)
        requires
            old(self).stage == Stage::ListModels,
        ensures
            match models {
                Some(ms) => if ms@.len() > 0 {
                    final(self).stage == Stage::ChooseModel && final(self).models == ms
                } else {
                    final(self).stage == Stage::EnterModelId && final(self).models == old(
                        self,
                    ).models
                },
                None => final(self).stage == Stage::EnterModelId && final(self).models == old(
                    self,
                ).models,
            },
            same_answers(*final(self), Session { models: final(self).models, ..*old(self) }),
    {
        match models {
            Some(ms) => {
                if ms.len() > 0 {
                    self.models = ms;
                    self.stage = Stage::ChooseModel;
                } else {
                    self.stage = Stage::EnterModelId;
                }
            },
            None => {
                self.stage = Stage::EnterModelId;
            },
        }
    }

    /// The labels of the model menu, in listing order.
    pub fn model_labels(&self) -> (labels: Vec<String>)
        requires
            labels_showable(infos_view(self.models@)),
        ensures
            strings_view(labels@) == Seq::new(
                self.models@.len(),
                |i: int| model_label(self.models@[i]@),
            ),
    {
        let ghost ms = infos_view(self.models@);
        let mut labels: Vec<String> = Vec::new();
        let mut i: usize = 0;
        while i < self.models.len()
            invariant
                i <= self.models@.len(),
                ms == infos_view(self.models@),
                labels_showable(ms),
                labels@.len() == i,
                forall|j: int| 0 <= j < i ==> (#[trigger] labels@[j])@ == model_label(ms[j]),
            decreases self.models@.len() - i,
        {
            let m = &self.models[i];
            assert(ms[i as int] == m@);
            let desc: &str = match &m.description {
                Some(d) => d.as_str(),
                None => "",
            };
            proof {
                if m.description is None {
                    reveal_strlit("");
                    assert(desc@ =~= Seq::<char>::empty());
                }
            }
            let short = shorten(desc, 50, 47);
            labels.push(concat3(m.id.as_str(), " - ", short.as_str()));
            i = i + 1;
        }
        assert(strings_view(labels@) =~= Seq::new(
            self.models@.len(),
            |i: int| model_label(self.models@[i]@),
        ));
        labels
    }

    /// The model at a position of the menu has been chosen.
    pub fn choose_model(&mut self, index: usize)
        requires
            old(self).stage == Stage::ChooseModel,
            index < old(self).models@.len(),
        ensures
            final(self).stage == Stage::ShowSchema,
            final(self).model@ == old(self).models@[index as int].id@,
            same_answers(*final(self), Session { model: final(self).model, ..*old(self) }),
    {
        self.model = self.models[index].id.clone();
        self.stage = Stage::ShowSchema;
    }

    /// A model id has been entered.
    pub fn enter_model_id(&mut self, id: String)
        requires
            old(self).stage == Stage::EnterModelId,
        ensures
            final(self).stage == Stage::ShowSchema,
            final(self).model == id,
            same_answers(*final(self), Session { model: id, ..*old(self) }),
    {
        self.model = id;
        self.stage = Stage::ShowSchema;
    }

    /// The schema has been shown (or could not be fetched).
    pub fn schema_shown(&mut self)
        requires
            old(self).stage == Stage::ShowSchema,
        ensures
            final(self).stage == Stage::ChooseInputMethod,
            same_answers(*final(self), *old(self)),
    {
        self.stage = Stage::ChooseInputMethod;
    }

    /// The input method at a position of the menu has been chosen: JSON,
    /// editor, or the default empty object.
    pub fn choose_input_method(&mut self, index: usize)
        requires
            old(self).stage == Stage::ChooseInputMethod,
        ensures
            index == 0 ==> final(self).stage == Stage::EnterInputJson && final(self).input == old(
                self,
            ).input,
            index == 1 ==> final(self).stage == Stage::EditInputJson && final(self).input == old(
                self,
            ).input,
            index >= 2 ==> final(self).stage == Stage::ConfirmUploads && final(self).input@
                == JsonV::Object(Seq::empty()),
            same_answers(*final(self), Session { input: final(self).input, ..*old(self) }),
    {
        if index == 0 {
            self.stage = Stage::EnterInputJson;
        } else if index == 1 {
            self.stage = Stage::EditInputJson;
        } else {
            let empty = Json::Object(Vec::new());
            assert(empty@->Object_0 =~= Seq::<(Seq<char>, JsonV)>::empty());
            self.input = empty;
            self.stage = Stage::ConfirmUploads;
        }
    }

    /// The input has been given and read.
    pub fn input_given(&mut self, input: Json)
        requires
            old(self).stage == Stage::EnterInputJson || old(self).stage == Stage::EditInputJson,
        ensures
            final(self).stage == Stage::ConfirmUploads,
            final(self).input == input,
            same_answers(*final(self), Session { input, ..*old(self) }),
    {
        self.input = input;
        self.stage = Stage::ConfirmUploads;
    }

    /// The user said whether files are to be uploaded.
    pub fn confirm_uploads(&mut self, yes: bool)
        requires
            old(self).stage == Stage::ConfirmUploads,
        ensures
            final(self).stage == (if yes {
                Stage::EnterParamName
            } else {
                Stage::ConfirmWait
            }),
            same_answers(*final(self), *old(self)),
    {
        self.stage = if yes {
            Stage::EnterParamName
        } else {
            Stage::ConfirmWait
        };
    }

    /// A file's parameter name has been entered.
    pub fn enter_param_name(&mut self, name: String)
        requires
            old(self).stage == Stage::EnterParamName,
        ensures
            final(self).stage == Stage::EnterFilePath,
            final(self).param_name == name,
            same_answers(*final(self), Session { param_name: name, ..*old(self) }),
    {
        self.param_name = name;
        self.stage = Stage::EnterFilePath;
    }

    /// A file's path has been entered.
    pub fn enter_file_path(&mut self, path: String)
        requires
            old(self).stage == Stage::EnterFilePath,
        ensures
            final(self).stage == Stage::CheckFile,
            final(self).file_path == path,
            same_answers(*final(self), Session { file_path: path, ..*old(self) }),
    {
        self.file_path = path;
        self.stage = Stage::CheckFile;
    }

    /// The file has been looked for: an existing file is added under its
    /// parameter name (replacing one of the same name), a missing one is
    /// skipped.
    pub fn file_checked(&mut self, exists: bool)
        requires
            old(self).stage == Stage::CheckFile,
        ensures
            final(self).stage == Stage::ConfirmAnotherFile,
            exists ==> final(self).files.contents() == old(self).files.contents().insert(
                old(self).param_name@,
                (old(self).file_path@, None::<Seq<char>>),
            ),
            !exists ==> final(self).files == old(self).files,
            same_answers(*final(self), Session { files: final(self).files, ..*old(self) }),
    {
        if exists {
            let name = self.param_name.clone();
            let path = self.file_path.clone();
            self.files.insert(name, FileUpload::new(path));
        }
        self.stage = Stage::ConfirmAnotherFile;
    }

    /// The user said whether to add another file.
    pub fn confirm_another_file(&mut self, yes: bool)
        requires
            old(self).stage == Stage::ConfirmAnotherFile,
        ensures
            final(self).stage == (if yes {
                Stage::EnterParamName
            } else {
                Stage::ConfirmWait
            }),
            same_answers(*final(self), *old(self)),
    {
        self.stage = if yes {
            Stage::EnterParamName
        } else {
            Stage::ConfirmWait
        };
    }

    /// The user said whether to wait: if so a timeout is asked for, else the
    /// default one is kept and the model is run.
    pub fn confirm_wait(&mut self, wait: bool)
        requires
            old(self).stage == Stage::ConfirmWait,
        ensures
            final(self).wait == wait,
            wait ==> final(self).stage == Stage::EnterTimeout,
            !wait ==> final(self).stage == Stage::Run && final(self).timeout
                == DEFAULT_TIMEOUT_SECS,
            same_answers(
                *final(self),
                Session { wait, timeout: final(self).timeout, ..*old(self) },
            ),
    {
        self.wait = wait;
        if wait {
            self.stage = Stage::EnterTimeout;
        } else {
            self.timeout = DEFAULT_TIMEOUT_SECS;
            self.stage = Stage::Run;
        }
    }

    /// A timeout has been entered.
    pub fn enter_timeout(&mut self, secs: u64)
        requires
            old(self).stage == Stage::EnterTimeout,
        ensures
            final(self).stage == Stage::Run,
            final(self).timeout == secs,
            same_answers(*final(self), Session { timeout: secs, ..*old(self) }),
    {
        self.timeout = secs;
        self.stage = Stage::Run;
    }
}

} // verus!
