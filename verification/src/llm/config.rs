use vstd::prelude::*;

use crate::text::{concat, lemma_trim_idempotent, opt_view, str_eq, trim, trim_str};

verus! {

/// Where the example model configuration lives; a user configuration starts as a copy of it.
pub const EXAMPLE_MODEL_CONFIG_PATH: &'static str = "config/models.json";

/// The context window reported for a model that does not resolve.
pub const FALLBACK_CONTEXT_WINDOW: i64 = 256_000;

/// The two files of the model configuration: the example and the user's own.
#[derive(Clone)]
pub struct ModelConfigPaths {
    example_path: String,
    user_path: String,
}

impl ModelConfigPaths {
    pub fn new(user_path: String) -> (p: Self)
        ensures
            p.example_path() == EXAMPLE_MODEL_CONFIG_PATH@,
            p.user_path() == user_path@,
    {
        Self { example_path: EXAMPLE_MODEL_CONFIG_PATH.to_owned(), user_path }
    }

    pub closed spec fn example_path(&self) -> Seq<char> {
        self.example_path@
    }

    pub closed spec fn user_path(&self) -> Seq<char> {
        self.user_path@
    }

    /// The file the configuration is read from and saved to: the user's.
    pub fn path(&self) -> (p: String)
        ensures
            p@ == self.user_path(),
    {
        self.user_path.clone()
    }

    /// The example file a missing user configuration is copied from.
    pub fn example(&self) -> (p: &str)
        ensures
            p@ == self.example_path(),
    {
        self.example_path.as_str()
    }
}

/// Which API serves a model.
#[derive(Clone, Copy, PartialEq, Eq, Structural)]
pub enum LlmProviderKind {
    Bedrock,
    Openai,
}

/// A provider entry of the configuration.
pub struct ProviderConfig {
    pub kind: LlmProviderKind,
    pub base_url: Option<String>,
    pub api_key_env: Option<String>,
}

/// A model entry of the configuration: its id, the name of its provider, the provider's
/// model name and its context window.
pub struct ModelConfig {
    pub id: String,
    pub provider: String,
    pub model: String,
    pub context_window: i64,
}

/// A model ready to be called.
pub struct Llm {
    pub id: String,
    pub provider: LlmProviderKind,
    pub model: String,
    pub context_window: i64,
    pub base_url: Option<String>,
    pub api_key_env: Option<String>,
}

/// The abstract value of an [`Llm`].
pub struct LlmView {
    pub id: Seq<char>,
    pub provider: LlmProviderKind,
    pub model: Seq<char>,
    pub context_window: i64,
    pub base_url: Option<Seq<char>>,
    pub api_key_env: Option<Seq<char>>,
}

impl View for Llm {
    type V = LlmView;

    open spec fn view(&self) -> LlmView {
        LlmView {
            id: self.id@,
            provider: self.provider,
            model: self.model@,
            context_window: self.context_window,
            base_url: opt_view(self.base_url),
            api_key_env: opt_view(self.api_key_env),
        }
    }
}

/// The model configuration: the default model's id, the providers by name and the models.
pub struct LlmConfig {
    pub default_model: String,
    pub providers: Vec<(String, ProviderConfig)>,
    pub models: Vec<ModelConfig>,
}

/// The index of the first model whose id is `id`, from `i` on.
pub open spec fn model_index_from(models: Seq<ModelConfig>, id: Seq<char>, i: int) -> Option<int>
    decreases models.len() - i,
{
    if i < 0 || i >= models.len() {
        None
    } else if models[i].id@ == id {
        Some(i)
    } else {
        model_index_from(models, id, i + 1)
    }
}

/// The index of the first provider named `name`, from `i` on.
pub open spec fn provider_index_from(providers: Seq<(String, ProviderConfig)>, name: Seq<char>, i: int) -> Option<
    int,
>
    decreases providers.len() - i,
{
    if i < 0 || i >= providers.len() {
        None
    } else if providers[i].0@ == name {
        Some(i)
    } else {
        provider_index_from(providers, name, i + 1)
    }
}

/// What resolving the model `id` (trimmed) gives: the first model with that id, through its
/// provider, with its id and model name trimmed; refused when the id is blank or unknown, the
/// provider unknown, the model name blank or the context window not positive.
pub open spec fn resolve_spec(
    providers: Seq<(String, ProviderConfig)>,
    models: Seq<ModelConfig>,
    id: Seq<char>,
) -> Result<LlmView, Seq<char>> {
    let id = trim(id);
    if id.len() == 0 {
        Err("llm id must not be empty"@)
    } else {
        match model_index_from(models, id, 0) {
            None => Err("unknown model id: "@ + id),
            Some(i) => {
                let m = models[i];
                match provider_index_from(providers, m.provider@, 0) {
                    None => Err("model "@ + m.id@ + " references unknown provider "@ + m.provider@),
                    Some(j) => {
                        let p = providers[j].1;
                        if trim(m.id@).len() == 0 {
                            Err("llm id must not be empty"@)
                        } else if trim(m.model@).len() == 0 {
                            Err("llm model must not be empty"@)
                        } else if m.context_window <= 0 {
                            Err("llm context_window must be positive"@)
                        } else {
                            Ok(
                                LlmView {
                                    id: trim(m.id@),
                                    provider: p.kind,
                                    model: trim(m.model@),
                                    context_window: m.context_window,
                                    base_url: opt_view(p.base_url),
                                    api_key_env: opt_view(p.api_key_env),
                                },
                            )
                        }
                    },
                }
            },
        }
    }
}

/// Resolving every model in order: the models, or the first refusal.
pub open spec fn list_spec(providers: Seq<(String, ProviderConfig)>, models: Seq<ModelConfig>, n: int) -> Result<
    Seq<LlmView>,
    Seq<char>,
>
    decreases n,
{
    if n <= 0 || n > models.len() {
        Ok(Seq::empty())
    } else {
        match list_spec(providers, models, n - 1) {
            Err(e) => Err(e),
            Ok(before) => match resolve_spec(providers, models, models[n - 1].id@) {
                Err(e) => Err(e),
                Ok(l) => Ok(before.push(l)),
            },
        }
    }
}

/// Checking a configuration: the default model resolves, then every model does.
pub open spec fn validate_spec(
    default_model: Seq<char>,
    providers: Seq<(String, ProviderConfig)>,
    models: Seq<ModelConfig>,
) -> Result<(), Seq<char>> {
    match resolve_spec(providers, models, default_model) {
        Err(e) => Err(e),
        Ok(_) => match list_spec(providers, models, models.len() as int) {
            Err(e) => Err(e),
            Ok(_) => Ok(()),
        },
    }
}

pub open spec fn llm_views(v: Seq<Llm>) -> Seq<LlmView> {
    v.map_values(|l: Llm| l@)
}

fn clone_opt(o: &Option<String>) -> (r: Option<String>)
    ensures
        opt_view(r) == opt_view(*o),
{
    match o {
        Some(s) => Some(s.clone()),
        None => None,
    }
}

impl LlmConfig {
    pub open spec fn resolves(&self, id: Seq<char>) -> Result<LlmView, Seq<char>> {
        resolve_spec(self.providers@, self.models@, id)
    }

    fn model_index(&self, id: &str) -> (r: Option<usize>)
        ensures
            match r {
                Some(i) => model_index_from(self.models@, id@, 0) == Some(i as int) && i < self.models@.len(),
                None => model_index_from(self.models@, id@, 0) is None,
            },
    {
        let mut i: usize = 0;
        while i < self.models.len()
            invariant
                i <= self.models.len(),
                model_index_from(self.models@, id@, 0) == model_index_from(self.models@, id@, i as int),
            decreases self.models.len() - i,
        {
            if str_eq(self.models[i].id.as_str(), id) {
                return Some(i);
            }
            i += 1;
        }
        None
    }

    fn provider_index(&self, name: &str) -> (r: Option<usize>)
        ensures
            match r {
                Some(j) => provider_index_from(self.providers@, name@, 0) == Some(j as int) && j
                    < self.providers@.len(),
                None => provider_index_from(self.providers@, name@, 0) is None,
            },
    {
        let mut j: usize = 0;
        while j < self.providers.len()
            invariant
                j <= self.providers.len(),
                provider_index_from(self.providers@, name@, 0) == provider_index_from(
                    self.providers@,
                    name@,
                    j as int,
                ),
            decreases self.providers.len() - j,
        {
            if str_eq(self.providers[j].0.as_str(), name) {
                return Some(j);
            }
            j += 1;
        }
        None
    }

    /// Resolves the model `id` through its provider.
    pub fn resolve(&self, id: &str) -> (r: Result<Llm, String>)
        ensures
            match r {
                Ok(l) => self.resolves(id@) == Ok::<LlmView, Seq<char>>(l@),
                Err(e) => self.resolves(id@) == Err::<LlmView, Seq<char>>(e@),
            },
    {
        let id = trim_str(id);
        if id.as_str().is_empty() {
            return Err("llm id must not be empty".to_owned());
        }
        let i = match self.model_index(id.as_str()) {
            None => return Err(concat("unknown model id: ", id.as_str())),
            Some(i) => i,
        };
        let m = &self.models[i];
        let j = match self.provider_index(m.provider.as_str()) {
            None => {
                let a = concat("model ", m.id.as_str());
                let b = concat(a.as_str(), " references unknown provider ");
                return Err(concat(b.as_str(), m.provider.as_str()));
            },
            Some(j) => j,
        };
        let p = &self.providers[j].1;
        let model_id = trim_str(m.id.as_str());
        if model_id.as_str().is_empty() {
            return Err("llm id must not be empty".to_owned());
        }
        let model_name = trim_str(m.model.as_str());
        if model_name.as_str().is_empty() {
            return Err("llm model must not be empty".to_owned());
        }
        if m.context_window <= 0 {
            return Err("llm context_window must be positive".to_owned());
        }
        Ok(
            Llm {
                id: model_id,
                provider: p.kind,
                model: model_name,
                context_window: m.context_window,
                base_url: clone_opt(&p.base_url),
                api_key_env: clone_opt(&p.api_key_env),
            },
        )
    }

    /// Every model, resolved, in order; the first refusal when one does not resolve.
    pub fn list_llms(&self) -> (r: Result<Vec<Llm>, String>)
        ensures
            match r {
                Ok(v) => list_spec(self.providers@, self.models@, self.models@.len() as int) == Ok::<
                    Seq<LlmView>,
                    Seq<char>,
                >(llm_views(v@)),
                Err(e) => list_spec(self.providers@, self.models@, self.models@.len() as int) == Err::<
                    Seq<LlmView>,
                    Seq<char>,
                >(e@),
            },
    {
        let mut out: Vec<Llm> = Vec::new();
        let mut i: usize = 0;
        assert(llm_views(out@) =~= Seq::<LlmView>::empty());
        while i < self.models.len()
            invariant
                i <= self.models.len(),
                list_spec(self.providers@, self.models@, i as int) == Ok::<Seq<LlmView>, Seq<char>>(
                    llm_views(out@),
                ),
            decreases self.models.len() - i,
        {
            match self.resolve(self.models[i].id.as_str()) {
                Err(e) => {
                    assert(list_spec(self.providers@, self.models@, i + 1) == Err::<Seq<LlmView>, Seq<char>>(e@));
                    proof {
                        lemma_list_error_sticks(self.providers@, self.models@, i + 1, self.models@.len() as int);
                    }
                    return Err(e);
                },
                Ok(l) => {
                    let ghost before = llm_views(out@);
                    out.push(l);
                    assert(llm_views(out@) =~= before.push(l@));
                },
            }
            i += 1;
        }
        Ok(out)
    }

    /// Makes the model `id` the default and returns it; the configuration is unchanged when
    /// it does not resolve.
    pub fn select_default_model(&mut self, id: &str) -> (r: Result<Llm, String>)
        ensures
            match r {
                Ok(l) => old(self).resolves(id@) == Ok::<LlmView, Seq<char>>(l@)
                    && final(self).default_model@ == l.id@,
                Err(e) => old(self).resolves(id@) == Err::<LlmView, Seq<char>>(e@)
                    && final(self).default_model@ == old(self).default_model@,
            },
            final(self).providers@ == old(self).providers@,
            final(self).models@ == old(self).models@,
    {
        let llm = match self.resolve(id) {
            Ok(l) => l,
            Err(e) => return Err(e),
        };
        self.default_model = llm.id.clone();
        Ok(llm)
    }

    /// Checks that the default model and every model resolve.
    pub fn validate(&self) -> (r: Result<(), String>)
        ensures
            match r {
                Ok(()) => validate_spec(self.default_model@, self.providers@, self.models@) == Ok::<
                    (),
                    Seq<char>,
                >(()),
                Err(e) => validate_spec(self.default_model@, self.providers@, self.models@) == Err::<
                    (),
                    Seq<char>,
                >(e@),
            },
    {
        match self.resolve(self.default_model.as_str()) {
            Err(e) => return Err(e),
            Ok(_) => {},
        }
        match self.list_llms() {
            Err(e) => Err(e),
            Ok(_) => Ok(()),
        }
    }

    /// The context window of the model `id`, or [`FALLBACK_CONTEXT_WINDOW`] when it does not
    /// resolve.
    pub fn context_window(&self, id: &str) -> (w: i64)
        ensures
            w == match self.resolves(id@) {
                Ok(l) => l.context_window,
                Err(_) => FALLBACK_CONTEXT_WINDOW,
            },
    {
        match self.resolve(id) {
            Ok(l) => l.context_window,
            Err(_) => FALLBACK_CONTEXT_WINDOW,
        }
    }
}

pub proof fn lemma_list_error_sticks(
    providers: Seq<(String, ProviderConfig)>,
    models: Seq<ModelConfig>,
    i: int,
    n: int,
)
    requires
        0 < i <= n <= models.len(),
        list_spec(providers, models, i) is Err,
    ensures
        list_spec(providers, models, n) == list_spec(providers, models, i),
    decreases n - i,
{
    if i < n {
        lemma_list_error_sticks(providers, models, i, n - 1);
    }
}

proof fn lemma_list_ok_prefix(providers: Seq<(String, ProviderConfig)>, models: Seq<ModelConfig>, k: int, n: int)
    requires
        0 <= k <= n <= models.len(),
        list_spec(providers, models, n) is Ok,
    ensures
        list_spec(providers, models, k) is Ok,
    decreases n - k,
{
    if k < n {
        lemma_list_ok_prefix(providers, models, k + 1, n);
    }
}

/// A configuration that validates lists all its models, and resolves its default model:
/// listing the models of a validated configuration never fails.
pub proof fn law_validated_config_lists(config: LlmConfig)
    requires
        validate_spec(config.default_model@, config.providers@, config.models@) is Ok,
    ensures
        list_spec(config.providers@, config.models@, config.models@.len() as int) is Ok,
        config.resolves(config.default_model@) is Ok,
{
}

/// Every model of a validated configuration resolves by its id.
pub proof fn law_validated_models_resolve(config: LlmConfig, i: int)
    requires
        validate_spec(config.default_model@, config.providers@, config.models@) is Ok,
        0 <= i < config.models@.len(),
    ensures
        config.resolves(config.models@[i].id@) is Ok,
{
    lemma_list_ok_prefix(config.providers@, config.models@, i + 1, config.models@.len() as int);
}

/// A model resolves to an id that resolves to it again: after a model is selected as the
/// default, the default resolves to that same model.
pub proof fn law_resolved_id_resolves_again(
    providers: Seq<(String, ProviderConfig)>,
    models: Seq<ModelConfig>,
    id: Seq<char>,
)
    requires
        resolve_spec(providers, models, id) is Ok,
    ensures
        resolve_spec(providers, models, resolve_spec(providers, models, id)->Ok_0.id) == resolve_spec(
            providers,
            models,
            id,
        ),
{
    let t = trim(id);
    let i = model_index_from(models, t, 0)->Some_0;
    lemma_model_index_found(models, t, 0);
    let m = models[i];
    assert(m.id@ == t);
    lemma_trim_idempotent(id);
    assert(trim(m.id@) == t);
    assert(trim(trim(m.id@)) == t);
}

/// Selecting a model that resolves keeps a valid configuration valid.
pub proof fn law_selection_keeps_config_valid(
    default_model: Seq<char>,
    providers: Seq<(String, ProviderConfig)>,
    models: Seq<ModelConfig>,
    id: Seq<char>,
)
    requires
        validate_spec(default_model, providers, models) is Ok,
        resolve_spec(providers, models, id) is Ok,
    ensures
        validate_spec(resolve_spec(providers, models, id)->Ok_0.id, providers, models) is Ok,
{
    law_resolved_id_resolves_again(providers, models, id);
}

proof fn lemma_model_index_found(models: Seq<ModelConfig>, id: Seq<char>, i: int)
    ensures
        model_index_from(models, id, i) matches Some(k) ==> 0 <= k < models.len() && models[k].id@ == id,
    decreases models.len() - i,
{
    if 0 <= i < models.len() && models[i].id@ != id {
        lemma_model_index_found(models, id, i + 1);
    }
}

} // verus!
