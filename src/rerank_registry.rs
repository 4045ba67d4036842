//! The reranking model registry: aliases mapped to reranker configurations.
use vstd::prelude::*;
use crate::error::{contains, lemma_unknown_message_mentions, lists_sorted, RegistryError};
use crate::names::{sorted_copy, views};

verus! {

/// Configuration of one reranking model.
#[derive(Debug, Clone)]
pub struct RerankModelConfig {
    pub name: String,
    pub provider: String,
    pub description: String,
}

impl RerankModelConfig {
    /// A copy of the configuration, field for field.
    pub fn cloned(&self) -> (r: RerankModelConfig)
        ensures
            r == *self,
    {
        RerankModelConfig {
            name: self.name.clone(),
            provider: self.provider.clone(),
            description: self.description.clone(),
        }
    }
}

/// Reranker configurations keyed by alias, with a designated default alias.
/// Entries are kept in order; a well-formed registry has unique aliases.
#[derive(Debug, Clone)]
pub struct RerankModelRegistry {
    pub models: Vec<(String, RerankModelConfig)>,
    pub default_model: String,
}

/// Whether `e` is the entry `alias` with exactly the given configuration.
pub open spec fn rerank_entry(
    e: (String, RerankModelConfig),
    alias: Seq<char>,
    name: Seq<char>,
    provider: Seq<char>,
    description: Seq<char>,
) -> bool {
    &&& e.0@ == alias
    &&& e.1.name@ == name
    &&& e.1.provider@ == provider
    &&& e.1.description@ == description
}

fn reranker(name: &str, provider: &str, description: &str) -> (r: RerankModelConfig)
    ensures
        r.name@ == name@,
        r.provider@ == provider@,
        r.description@ == description@,
{
    RerankModelConfig {
        name: String::from_str(name),
        provider: String::from_str(provider),
        description: String::from_str(description),
    }
}

impl Default for RerankModelRegistry {
    /// The built-in catalog, with `jina` as the default.
    fn default() -> (r: RerankModelRegistry)
        ensures
            r.wf(),
            r.default_model@ == "jina"@,
            r.models@.len() == 3,
            rerank_entry(
                r.models@[0],
                "jina"@,
                "jina-reranker-v1-turbo-en"@,
                "fastembed"@,
                "Jina Turbo reranker (default) tuned for English code + text relevance"@,
            ),
            rerank_entry(
                r.models@[1],
                "bge"@,
                "BAAI/bge-reranker-base"@,
                "fastembed"@,
                "BGE reranker base model for multilingual use cases"@,
            ),
            rerank_entry(
                r.models@[2],
                "mxbai"@,
                "mixedbread-ai/mxbai-rerank-xsmall-v1"@,
                "mixedbread"@,
                "Mixedbread xsmall reranker (quantized) optimized for local inference"@,
            ),
    {
        let mut models: Vec<(String, RerankModelConfig)> = Vec::new();
        models.push(
            (
                String::from_str("jina"),
                reranker(
                    "jina-reranker-v1-turbo-en",
                    "fastembed",
                    "Jina Turbo reranker (default) tuned for English code + text relevance",
                ),
            ),
        );
        models.push(
            (
                String::from_str("bge"),
                reranker(
                    "BAAI/bge-reranker-base",
                    "fastembed",
                    "BGE reranker base model for multilingual use cases",
                ),
            ),
        );
        models.push(
            (
                String::from_str("mxbai"),
                reranker(
                    "mixedbread-ai/mxbai-rerank-xsmall-v1",
                    "mixedbread",
                    "Mixedbread xsmall reranker (quantized) optimized for local inference",
                ),
            ),
        );
        let r = RerankModelRegistry { models, default_model: String::from_str("jina") };
        proof {
            reveal_strlit("jina");
            reveal_strlit("bge");
            reveal_strlit("mxbai");
            assert forall|i: int, j: int| 0 <= i < j < 3 implies #[trigger] r.models@[i].0@
                != #[trigger] r.models@[j].0@ by {
                assert(r.models@[i].0@.len() != r.models@[j].0@.len());
            }
        }
        r
    }
}

impl RerankModelRegistry {
    /// No two entries share an alias.
    pub open spec fn wf(&self) -> bool {
        forall|i: int, j: int|
            0 <= i < j < self.models@.len() ==> #[trigger] self.models@[i].0@
                != #[trigger] self.models@[j].0@
    }

    pub open spec fn alias_views(&self) -> Seq<Seq<char>> {
        self.models@.map_values(|e: (String, RerankModelConfig)| e.0@)
    }

    pub open spec fn has_alias(&self, k: Seq<char>) -> bool {
        exists|i: int| 0 <= i < self.models@.len() && #[trigger] self.models@[i].0@ == k
    }

    pub open spec fn has_name(&self, k: Seq<char>) -> bool {
        exists|i: int| 0 <= i < self.models@.len() && #[trigger] self.models@[i].1.name@ == k
    }

    /// Entry `i` is the first whose alias is `k`.
    pub open spec fn first_alias_at(&self, k: Seq<char>, i: int) -> bool {
        &&& 0 <= i < self.models@.len()
        &&& self.models@[i].0@ == k
        &&& forall|j: int| 0 <= j < i ==> #[trigger] self.models@[j].0@ != k
    }

    /// Entry `i` is the one that key `k` resolves to: the first with alias
    /// `k`, or, where no alias is `k`, the first whose model identifier is `k`.
    pub open spec fn resolves_at(&self, k: Seq<char>, i: int) -> bool {
        ||| self.first_alias_at(k, i)
        ||| {
            &&& !self.has_alias(k)
            &&& 0 <= i < self.models@.len()
            &&& self.models@[i].1.name@ == k
            &&& forall|j: int| 0 <= j < i ==> #[trigger] self.models@[j].1.name@ != k
        }
    }

    fn find_alias(&self, key: &String) -> (r: Option<usize>)
        ensures
            match r {
                Some(i) => self.first_alias_at(key@, i as int),
                None => !self.has_alias(key@),
            },
    {
        let mut i: usize = 0;
        while i < self.models.len()
            invariant
                i <= self.models@.len(),
                forall|j: int| 0 <= j < i ==> #[trigger] self.models@[j].0@ != key@,
            decreases self.models@.len() - i,
        {
            if self.models[i].0 == *key {
                return Some(i);
            }
            i = i + 1;
        }
        None
    }

    fn resolve_alias_or_name(&self, key: &String) -> (r: Option<usize>)
        ensures
            match r {
                Some(i) => self.resolves_at(key@, i as int),
                None => !self.has_alias(key@) && !self.has_name(key@),
            },
    {
        if let Some(i) = self.find_alias(key) {
            return Some(i);
        }
        let mut i: usize = 0;
        while i < self.models.len()
            invariant
                i <= self.models@.len(),
                !self.has_alias(key@),
                forall|j: int| 0 <= j < i ==> #[trigger] self.models@[j].1.name@ != key@,
            decreases self.models@.len() - i,
        {
            if self.models[i].1.name == *key {
                return Some(i);
            }
            i = i + 1;
        }
        None
    }

    fn alias_list(&self) -> (r: Vec<String>)
        ensures
            views(r@) == self.alias_views(),
    {
        let mut out: Vec<String> = Vec::new();
        let mut i: usize = 0;
        while i < self.models.len()
            invariant
                i <= self.models@.len(),
                out@.len() == i,
                views(out@) == self.alias_views().take(i as int),
            decreases self.models@.len() - i,
        {
            let ghost before = out@;
            let a = self.models[i].0.clone();
            assert(a@ == self.models@[i as int].0@);
            out.push(a);
            proof {
                assert(out@ == before.push(self.models@[i as int].0));
                assert(views(out@)[i as int] == out@[i as int]@);
                assert(self.alias_views()[i as int] == self.models@[i as int].0@);
                assert forall|j: int| 0 <= j < i + 1 implies views(out@)[j] == self.alias_views().take(i + 1)[j] by {
                    if j < i {
                        assert(views(before)[j] == self.alias_views().take(i as int)[j]);
                    }
                }
                assert(views(out@) =~= self.alias_views().take(i + 1));
            }
            i = i + 1;
        }
        proof {
            assert(self.alias_views().take(i as int) =~= self.alias_views());
        }
        out
    }

    fn format_available_models(&self) -> (r: Vec<String>)
        ensures
            lists_sorted(r@, self.alias_views()),
    {
        sorted_copy(&self.alias_list())
    }

    /// What `resolve(requested)` returns: the entry that the key resolves
    /// to, or with `None` the entry of the default alias; else the error.
    pub open spec fn resolved(
        &self,
        requested: Option<Seq<char>>,
        r: Result<(String, RerankModelConfig), RegistryError>,
    ) -> bool {
        match requested {
            Some(k) => match r {
                Ok((a, c)) => exists|i: int|
                    self.resolves_at(k, i) && a == #[trigger] self.models@[i].0 && c
                        == self.models@[i].1,
                Err(e) => {
                    &&& !self.has_alias(k)
                    &&& !self.has_name(k)
                    &&& e matches RegistryError::UnknownRerankModel { requested, available }
                    &&& requested@ == k
                    &&& lists_sorted(available@, self.alias_views())
                },
            },
            None => match r {
                Ok((a, c)) => a == self.default_model && exists|i: int|
                    self.first_alias_at(self.default_model@, i) && c
                        == #[trigger] self.models@[i].1,
                Err(e) => !self.has_alias(self.default_model@) && e
                    == RegistryError::NoDefaultRerankModel,
            },
        }
    }

    /// Resolves an alias or a model identifier, or with `None` the default.
    pub fn resolve(&self, requested: Option<&str>) -> (r: Result<(String, RerankModelConfig), RegistryError>)
        ensures
            self.resolved(
                match requested {
                    Some(k) => Some(k@),
                    None => None,
                },
                r,
            ),
    {
        match requested {
            Some(name) => {
                let key = String::from_str(name);
                match self.resolve_alias_or_name(&key) {
                    Some(i) => Ok((self.models[i].0.clone(), self.models[i].1.cloned())),
                    None => Err(
                        RegistryError::UnknownRerankModel {
                            requested: key,
                            available: self.format_available_models(),
                        },
                    ),
                }
            },
            None => {
                match self.find_alias(&self.default_model) {
                    Some(i) => Ok((self.default_model.clone(), self.models[i].1.cloned())),
                    None => Err(RegistryError::NoDefaultRerankModel),
                }
            },
        }
    }

    /// Every alias, in ascending order.
    pub fn aliases(&self) -> (r: Vec<String>)
        ensures
            lists_sorted(r@, self.alias_views()),
    {
        self.format_available_models()
    }
}

/// In a registry with unique aliases, resolving an alias gives that alias
/// and the configuration stored under it.
pub proof fn lemma_rerank_resolve_alias(
    reg: RerankModelRegistry,
    i: int,
    r: Result<(String, RerankModelConfig), RegistryError>,
)
    requires
        reg.wf(),
        0 <= i < reg.models@.len(),
        reg.resolved(Some(reg.models@[i].0@), r),
    ensures
        r == Ok::<(String, RerankModelConfig), RegistryError>((reg.models@[i].0, reg.models@[i].1)),
{
    let k = reg.models@[i].0@;
    assert(reg.has_alias(k));
    assert forall|j: int| #[trigger] reg.resolves_at(k, j) implies j == i by {
        if j != i {
            if j < i {
                assert(reg.models@[j].0@ != reg.models@[i].0@);
            } else {
                assert(reg.models@[i].0@ != reg.models@[j].0@);
            }
        }
    }
}

/// In a registry with unique aliases whose default alias has an entry,
/// resolving no key gives the default alias and the configuration stored
/// under it.
pub proof fn lemma_rerank_resolve_default(
    reg: RerankModelRegistry,
    i: int,
    r: Result<(String, RerankModelConfig), RegistryError>,
)
    requires
        reg.wf(),
        0 <= i < reg.models@.len(),
        reg.models@[i].0@ == reg.default_model@,
        reg.resolved(None, r),
    ensures
        r == Ok::<(String, RerankModelConfig), RegistryError>((reg.default_model, reg.models@[i].1)),
{
    let k = reg.default_model@;
    assert(reg.has_alias(k));
    assert forall|j: int| #[trigger] reg.first_alias_at(k, j) implies j == i by {
        if j != i {
            if j < i {
                assert(reg.models@[j].0@ != reg.models@[i].0@);
            } else {
                assert(reg.models@[i].0@ != reg.models@[j].0@);
            }
        }
    }
}

/// When a key resolves to nothing, the error's message names that key and
/// every alias of the registry.
pub proof fn lemma_rerank_unknown_key_message(
    reg: RerankModelRegistry,
    k: Seq<char>,
    r: Result<(String, RerankModelConfig), RegistryError>,
)
    requires
        reg.resolved(Some(k), r),
        r is Err,
    ensures
        r matches Err(e) && contains(e.text(), k) && forall|j: int|
            0 <= j < reg.models@.len() ==> contains(e.text(), #[trigger] reg.models@[j].0@),
{
    if let Err(RegistryError::UnknownRerankModel { requested, available }) = r {
        lemma_unknown_message_mentions("Unknown rerank model '"@, k, available@, reg.alias_views());
        assert forall|j: int| 0 <= j < reg.models@.len() implies contains(
            r->Err_0.text(),
            #[trigger] reg.models@[j].0@,
        ) by {
            assert(reg.alias_views()[j] == reg.models@[j].0@);
        }
    }
}

} // verus!
