//! The embedding model registry: aliases mapped to model configurations.
use vstd::prelude::*;
use crate::error::{contains, lemma_unknown_message_mentions, lists_sorted, RegistryError};
use crate::names::{sorted_copy, views};

verus! {

/// Configuration of one embedding model.
#[derive(Debug, Clone)]
pub struct ModelConfig {
    pub name: String,
    pub provider: String,
    pub dimensions: usize,
    pub max_tokens: usize,
    pub description: String,
}

impl ModelConfig {
    /// A copy of the configuration, field for field.
    pub fn cloned(&self) -> (r: ModelConfig)
        ensures
            r == *self,
    {
        ModelConfig {
            name: self.name.clone(),
            provider: self.provider.clone(),
            dimensions: self.dimensions,
            max_tokens: self.max_tokens,
            description: self.description.clone(),
        }
    }
}

/// Model configurations keyed by alias, with a designated default alias.
/// Entries are kept in order; a well-formed registry has unique aliases.
#[derive(Debug, Clone)]
pub struct ModelRegistry {
    pub models: Vec<(String, ModelConfig)>,
    pub default_model: String,
}

/// Whether `e` is the entry `alias` with exactly the given configuration.
pub open spec fn model_entry(
    e: (String, ModelConfig),
    alias: Seq<char>,
    name: Seq<char>,
    provider: Seq<char>,
    dimensions: usize,
    max_tokens: usize,
    description: Seq<char>,
) -> bool {
    &&& e.0@ == alias
    &&& e.1.name@ == name
    &&& e.1.provider@ == provider
    &&& e.1.dimensions == dimensions
    &&& e.1.max_tokens == max_tokens
    &&& e.1.description@ == description
}

fn text(s: &str) -> (r: String)
    ensures
        r@ == s@,
{
    String::from_str(s)
}

fn model(
    name: &str,
    provider: &str,
    dimensions: usize,
    max_tokens: usize,
    description: &str,
) -> (r: ModelConfig)
    ensures
        r.name@ == name@,
        r.provider@ == provider@,
        r.dimensions == dimensions,
        r.max_tokens == max_tokens,
        r.description@ == description@,
{
    ModelConfig {
        name: text(name),
        provider: text(provider),
        dimensions,
        max_tokens,
        description: text(description),
    }
}

impl Default for ModelRegistry {
    /// The built-in catalog, with `bge-small` as the default.
    fn default() -> (r: ModelRegistry)
        ensures
            r.wf(),
            r.default_model@ == "bge-small"@,
            r.models@.len() == 5,
            model_entry(
                r.models@[0],
                "bge-small"@,
                "BAAI/bge-small-en-v1.5"@,
                "fastembed"@,
                384,
                512,
                "Small, fast English embedding model"@,
            ),
            model_entry(
                r.models@[1],
                "minilm"@,
                "sentence-transformers/all-MiniLM-L6-v2"@,
                "fastembed"@,
                384,
                256,
                "Lightweight English embedding model"@,
            ),
            model_entry(
                r.models@[2],
                "nomic-v1.5"@,
                "nomic-embed-text-v1.5"@,
                "fastembed"@,
                768,
                8192,
                "High-quality English embedding model with large context window"@,
            ),
            model_entry(
                r.models@[3],
                "jina-code"@,
                "jina-embeddings-v2-base-code"@,
                "fastembed"@,
                768,
                8192,
                "Code-specific embedding model optimized for programming tasks"@,
            ),
            model_entry(
                r.models@[4],
                "mxbai-xsmall"@,
                "mixedbread-ai/mxbai-embed-xsmall-v1"@,
                "mixedbread"@,
                384,
                4096,
                "Mixedbread xsmall embedding model (4k context, 384 dims) optimized for local semantic search"@,
            ),
    {
        let mut models: Vec<(String, ModelConfig)> = Vec::new();
        models.push(
            (
                text("bge-small"),
                model(
                    "BAAI/bge-small-en-v1.5",
                    "fastembed",
                    384,
                    512,
                    "Small, fast English embedding model",
                ),
            ),
        );
        models.push(
            (
                text("minilm"),
                model(
                    "sentence-transformers/all-MiniLM-L6-v2",
                    "fastembed",
                    384,
                    256,
                    "Lightweight English embedding model",
                ),
            ),
        );
        models.push(
            (
                text("nomic-v1.5"),
                model(
                    "nomic-embed-text-v1.5",
                    "fastembed",
                    768,
                    8192,
                    "High-quality English embedding model with large context window",
                ),
            ),
        );
        models.push(
            (
                text("jina-code"),
                model(
                    "jina-embeddings-v2-base-code",
                    "fastembed",
                    768,
                    8192,
                    "Code-specific embedding model optimized for programming tasks",
                ),
            ),
        );
        models.push(
            (
                text("mxbai-xsmall"),
                model(
                    "mixedbread-ai/mxbai-embed-xsmall-v1",
                    "mixedbread",
                    384,
                    4096,
                    "Mixedbread xsmall embedding model (4k context, 384 dims) optimized for local semantic search",
                ),
            ),
        );
        let r = ModelRegistry { models, default_model: text("bge-small") };
        proof {
            reveal_strlit("bge-small");
            reveal_strlit("minilm");
            reveal_strlit("nomic-v1.5");
            reveal_strlit("jina-code");
            reveal_strlit("mxbai-xsmall");
            assert forall|i: int, j: int| 0 <= i < j < 5 implies #[trigger] r.models@[i].0@
                != #[trigger] r.models@[j].0@ by {
                if i == 0 && j == 3 {
                    assert(r.models@[0].0@[0] != r.models@[3].0@[0]);
                } else {
                    assert(r.models@[i].0@.len() != r.models@[j].0@.len());
                }
            }
        }
        r
    }
}

impl ModelRegistry {
    /// No two entries share an alias.
    pub open spec fn wf(&self) -> bool {
        forall|i: int, j: int|
            0 <= i < j < self.models@.len() ==> #[trigger] self.models@[i].0@
                != #[trigger] self.models@[j].0@
    }

    pub open spec fn alias_views(&self) -> Seq<Seq<char>> {
        self.models@.map_values(|e: (String, ModelConfig)| e.0@)
    }

    pub open spec fn has_alias(&self, k: Seq<char>) -> bool {
        exists|i: int| 0 <= i < self.models@.len() && #[trigger] self.models@[i].0@ == k
    }

    pub open spec fn has_name(&self, k: Seq<char>) -> bool {
        exists|i: int| 0 <= i < self.models@.len() && #[trigger] self.models@[i].1.name@ == k
    }

    /// Entry `i` is the first whose alias is `k`.
    pub open spec fn first_alias_at(&self, k: Seq<char>, i: int) -> bool {
        &&& 0 <= i < self.models@.len()
        &&& self.models@[i].0@ == k
        &&& forall|j: int| 0 <= j < i ==> #[trigger] self.models@[j].0@ != k
    }

    /// Entry `i` is the one that key `k` resolves to: the first with alias
    /// `k`, or, where no alias is `k`, the first whose model identifier is `k`.
    pub open spec fn resolves_at(&self, k: Seq<char>, i: int) -> bool {
        ||| self.first_alias_at(k, i)
        ||| {
            &&& !self.has_alias(k)
            &&& 0 <= i < self.models@.len()
            &&& self.models@[i].1.name@ == k
            &&& forall|j: int| 0 <= j < i ==> #[trigger] self.models@[j].1.name@ != k
        }
    }

    fn find_alias(&self, key: &String) -> (r: Option<usize>)
        ensures
            match r {
                Some(i) => self.first_alias_at(key@, i as int),
                None => !self.has_alias(key@),
            },
    {
        let mut i: usize = 0;
        while i < self.models.len()
            invariant
                i <= self.models@.len(),
                forall|j: int| 0 <= j < i ==> #[trigger] self.models@[j].0@ != key@,
            decreases self.models@.len() - i,
        {
            if self.models[i].0 == *key {
                return Some(i);
            }
            i = i + 1;
        }
        None
    }

    fn resolve_alias_or_name(&self, key: &String) -> (r: Option<usize>)
        ensures
            match r {
                Some(i) => self.resolves_at(key@, i as int),
                None => !self.has_alias(key@) && !self.has_name(key@),
            },
    {
        if let Some(i) = self.find_alias(key) {
            return Some(i);
        }
        let mut i: usize = 0;
        while i < self.models.len()
            invariant
                i <= self.models@.len(),
                !self.has_alias(key@),
                forall|j: int| 0 <= j < i ==> #[trigger] self.models@[j].1.name@ != key@,
            decreases self.models@.len() - i,
        {
            if self.models[i].1.name == *key {
                return Some(i);
            }
            i = i + 1;
        }
        None
    }

    fn alias_list(&self) -> (r: Vec<String>)
        ensures
            views(r@) == self.alias_views(),
    {
        let mut out: Vec<String> = Vec::new();
        let mut i: usize = 0;
        while i < self.models.len()
            invariant
                i <= self.models@.len(),
                out@.len() == i,
                views(out@) == self.alias_views().take(i as int),
            decreases self.models@.len() - i,
        {
            let ghost before = out@;
            let a = self.models[i].0.clone();
            assert(a@ == self.models@[i as int].0@);
            out.push(a);
            proof {
                assert(out@ == before.push(self.models@[i as int].0));
                assert(views(out@)[i as int] == out@[i as int]@);
                assert(self.alias_views()[i as int] == self.models@[i as int].0@);
                assert forall|j: int| 0 <= j < i + 1 implies views(out@)[j] == self.alias_views().take(i + 1)[j] by {
                    if j < i {
                        assert(views(before)[j] == self.alias_views().take(i as int)[j]);
                    }
                }
                assert(views(out@) =~= self.alias_views().take(i + 1));
            }
            i = i + 1;
        }
        proof {
            assert(self.alias_views().take(i as int) =~= self.alias_views());
        }
        out
    }

    fn format_available_models(&self) -> (r: Vec<String>)
        ensures
            lists_sorted(r@, self.alias_views()),
    {
        sorted_copy(&self.alias_list())
    }

    /// What `resolve(requested)` returns: the entry that the key resolves
    /// to, or with `None` the entry of the default alias; else the error.
    pub open spec fn resolved(
        &self,
        requested: Option<Seq<char>>,
        r: Result<(String, ModelConfig), RegistryError>,
    ) -> bool {
        match requested {
            Some(k) => match r {
                Ok((a, c)) => exists|i: int|
                    self.resolves_at(k, i) && a == #[trigger] self.models@[i].0 && c
                        == self.models@[i].1,
                Err(e) => {
                    &&& !self.has_alias(k)
                    &&& !self.has_name(k)
                    &&& e matches RegistryError::UnknownModel { requested, available }
                    &&& requested@ == k
                    &&& lists_sorted(available@, self.alias_views())
                },
            },
            None => match r {
                Ok((a, c)) => a == self.default_model && exists|i: int|
                    self.first_alias_at(self.default_model@, i) && c
                        == #[trigger] self.models@[i].1,
                Err(e) => !self.has_alias(self.default_model@) && e
                    == RegistryError::NoDefaultModel,
            },
        }
    }

    /// Resolves an alias or a model identifier, or with `None` the default.
    pub fn resolve(&self, requested: Option<&str>) -> (r: Result<(String, ModelConfig), RegistryError>)
        ensures
            self.resolved(
                match requested {
                    Some(k) => Some(k@),
                    None => None,
                },
                r,
            ),
    {
        match requested {
            Some(name) => {
                let key = String::from_str(name);
                match self.resolve_alias_or_name(&key) {
                    Some(i) => Ok((self.models[i].0.clone(), self.models[i].1.cloned())),
                    None => Err(
                        RegistryError::UnknownModel {
                            requested: key,
                            available: self.format_available_models(),
                        },
                    ),
                }
            },
            None => {
                match self.find_alias(&self.default_model) {
                    Some(i) => Ok((self.default_model.clone(), self.models[i].1.cloned())),
                    None => Err(RegistryError::NoDefaultModel),
                }
            },
        }
    }

    /// Every alias, in ascending order.
    pub fn aliases(&self) -> (r: Vec<String>)
        ensures
            lists_sorted(r@, self.alias_views()),
    {
        self.format_available_models()
    }

    /// The configuration stored under alias `name`.
    pub fn get_model(&self, name: &str) -> (r: Option<&ModelConfig>)
        ensures
            match r {
                Some(c) => exists|i: int|
                    self.first_alias_at(name@, i) && *c == #[trigger] self.models@[i].1,
                None => !self.has_alias(name@),
            },
    {
        let key = String::from_str(name);
        match self.find_alias(&key) {
            Some(i) => Some(&self.models[i].1),
            None => None,
        }
    }

    /// The configuration stored under the default alias.
    pub fn get_default_model(&self) -> (r: Option<&ModelConfig>)
        ensures
            match r {
                Some(c) => exists|i: int|
                    self.first_alias_at(self.default_model@, i) && *c
                        == #[trigger] self.models@[i].1,
                None => !self.has_alias(self.default_model@),
            },
    {
        match self.find_alias(&self.default_model) {
            Some(i) => Some(&self.models[i].1),
            None => None,
        }
    }
}

/// In a registry with unique aliases, resolving an alias gives that alias
/// and the configuration stored under it.
pub proof fn lemma_resolve_alias(
    reg: ModelRegistry,
    i: int,
    r: Result<(String, ModelConfig), RegistryError>,
)
    requires
        reg.wf(),
        0 <= i < reg.models@.len(),
        reg.resolved(Some(reg.models@[i].0@), r),
    ensures
        r == Ok::<(String, ModelConfig), RegistryError>((reg.models@[i].0, reg.models@[i].1)),
{
    let k = reg.models@[i].0@;
    assert(reg.has_alias(k));
    assert forall|j: int| #[trigger] reg.resolves_at(k, j) implies j == i by {
        if j != i {
            if j < i {
                assert(reg.models@[j].0@ != reg.models@[i].0@);
            } else {
                assert(reg.models@[i].0@ != reg.models@[j].0@);
            }
        }
    }
}

/// In a registry with unique aliases whose default alias has an entry,
/// resolving no key gives the default alias and the configuration stored
/// under it.
pub proof fn lemma_resolve_default(
    reg: ModelRegistry,
    i: int,
    r: Result<(String, ModelConfig), RegistryError>,
)
    requires
        reg.wf(),
        0 <= i < reg.models@.len(),
        reg.models@[i].0@ == reg.default_model@,
        reg.resolved(None, r),
    ensures
        r == Ok::<(String, ModelConfig), RegistryError>((reg.default_model, reg.models@[i].1)),
{
    let k = reg.default_model@;
    assert(reg.has_alias(k));
    assert forall|j: int| #[trigger] reg.first_alias_at(k, j) implies j == i by {
        if j != i {
            if j < i {
                assert(reg.models@[j].0@ != reg.models@[i].0@);
            } else {
                assert(reg.models@[i].0@ != reg.models@[j].0@);
            }
        }
    }
}

/// When a key resolves to nothing, the error's message names that key and
/// every alias of the registry.
pub proof fn lemma_unknown_key_message(
    reg: ModelRegistry,
    k: Seq<char>,
    r: Result<(String, ModelConfig), RegistryError>,
)
    requires
        reg.resolved(Some(k), r),
        r is Err,
    ensures
        r matches Err(e) && contains(e.text(), k) && forall|j: int|
            0 <= j < reg.models@.len() ==> contains(e.text(), #[trigger] reg.models@[j].0@),
{
    if let Err(RegistryError::UnknownModel { requested, available }) = r {
        lemma_unknown_message_mentions("Unknown model '"@, k, available@, reg.alias_views());
        assert forall|j: int| 0 <= j < reg.models@.len() implies contains(
            r->Err_0.text(),
            #[trigger] reg.models@[j].0@,
        ) by {
            assert(reg.alias_views()[j] == reg.models@[j].0@);
        }
    }
}

} // verus!
