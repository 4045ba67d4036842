//! Errors of model lookup in a registry.
use vstd::prelude::*;
use crate::names::{is_sorted, joined, views, join_comma};

verus! {

/// Why a registry could not resolve a model.
#[derive(Debug, Clone)]
pub enum RegistryError {
    /// The requested key is neither an alias nor a model identifier of the
    /// embedding registry; `available` holds every alias, sorted.
    UnknownModel { requested: String, available: Vec<String> },
    /// As `UnknownModel`, for the reranking registry.
    UnknownRerankModel { requested: String, available: Vec<String> },
    /// The embedding registry's default alias has no entry.
    NoDefaultModel,
    /// The reranking registry's default alias has no entry.
    NoDefaultRerankModel,
}

/// `available` lists the aliases `aliases` in ascending order.
pub open spec fn lists_sorted(available: Seq<String>, aliases: Seq<Seq<char>>) -> bool {
    is_sorted(views(available)) && views(available).to_multiset() == aliases.to_multiset()
}

/// Whether `needle` occurs in `hay` as a contiguous run.
pub open spec fn contains(hay: Seq<char>, needle: Seq<char>) -> bool {
    exists|p: int|
        0 <= p && p + needle.len() <= hay.len() && #[trigger] hay.subrange(p, p + needle.len())
            == needle
}

pub open spec fn unknown_text(kind: Seq<char>, requested: Seq<char>, available: Seq<String>) -> Seq<char> {
    kind + requested + "'. Available models: "@ + joined(views(available), ", "@)
}

impl RegistryError {
    /// The text that describes the error to a user.
    pub open spec fn text(&self) -> Seq<char> {
        match self {
            RegistryError::UnknownModel { requested, available } => unknown_text(
                "Unknown model '"@,
                requested@,
                available@,
            ),
            RegistryError::UnknownRerankModel { requested, available } => unknown_text(
                "Unknown rerank model '"@,
                requested@,
                available@,
            ),
            RegistryError::NoDefaultModel => "No default model configured in registry"@,
            RegistryError::NoDefaultRerankModel => "No default reranking model configured"@,
        }
    }

    pub fn message(&self) -> (r: String)
        ensures
            r@ == self.text(),
    {
        match self {
            RegistryError::UnknownModel { requested, available } => {
                let mut s = String::from_str("Unknown model '");
                s.append(requested.as_str());
                s.append("'. Available models: ");
                let list = join_comma(available);
                s.append(list.as_str());
                s
            },
            RegistryError::UnknownRerankModel { requested, available } => {
                let mut s = String::from_str("Unknown rerank model '");
                s.append(requested.as_str());
                s.append("'. Available models: ");
                let list = join_comma(available);
                s.append(list.as_str());
                s
            },
            RegistryError::NoDefaultModel => String::from_str(
                "No default model configured in registry",
            ),
            RegistryError::NoDefaultRerankModel => String::from_str(
                "No default reranking model configured",
            ),
        }
    }
}

} // verus!

verus! {

/// A run found at position `p` of `hay` is contained in it.
pub proof fn lemma_contains_at(hay: Seq<char>, needle: Seq<char>, p: int)
    requires
        0 <= p,
        p + needle.len() <= hay.len(),
        hay.subrange(p, p + needle.len()) =~= needle,
    ensures
        contains(hay, needle),
{
    assert(hay.subrange(p, p + needle.len()) == needle);
}

/// A run found in `b` is found in `a + b + c` too.
pub proof fn lemma_contains_within(a: Seq<char>, b: Seq<char>, c: Seq<char>, needle: Seq<char>)
    requires
        contains(b, needle),
    ensures
        contains(a + b + c, needle),
{
    let p = choose|p: int|
        0 <= p && p + needle.len() <= b.len() && #[trigger] b.subrange(p, p + needle.len())
            == needle;
    let q = a.len() + p;
    assert((a + b + c).subrange(q, q + needle.len()) =~= b.subrange(p, p + needle.len()));
    lemma_contains_at(a + b + c, needle, q);
}

/// Each item of a joined list occurs in the joined text.
pub proof fn lemma_joined_contains(items: Seq<Seq<char>>, sep: Seq<char>, i: int)
    requires
        0 <= i < items.len(),
    ensures
        contains(joined(items, sep), items[i]),
    decreases items.len(),
{
    if items.len() == 1 {
        lemma_contains_at(joined(items, sep), items[0], 0);
    } else if i == items.len() - 1 {
        let pre = joined(items.drop_last(), sep) + sep;
        lemma_contains_at(joined(items, sep), items[i], pre.len() as int);
    } else {
        let rest = joined(items.drop_last(), sep);
        lemma_joined_contains(items.drop_last(), sep, i);
        assert(items.drop_last()[i] == items[i]);
        lemma_contains_within(Seq::empty(), rest, sep + items.last(), items[i]);
        assert(Seq::<char>::empty() + rest + (sep + items.last()) =~= joined(items, sep));
    }
}

/// The message of an unknown-model error names the requested key and every
/// alias that the registry offers.
pub proof fn lemma_unknown_message_mentions(
    kind: Seq<char>,
    requested: Seq<char>,
    available: Seq<String>,
    aliases: Seq<Seq<char>>,
)
    requires
        lists_sorted(available, aliases),
    ensures
        contains(unknown_text(kind, requested, available), requested),
        forall|j: int|
            0 <= j < aliases.len() ==> contains(
                unknown_text(kind, requested, available),
                #[trigger] aliases[j],
            ),
{
    let lit = "'. Available models: "@;
    let list = joined(views(available), ", "@);
    lemma_contains_at(requested, requested, 0);
    lemma_contains_within(kind, requested, lit + list, requested);
    assert(kind + requested + (lit + list) =~= unknown_text(kind, requested, available));
    assert forall|j: int| 0 <= j < aliases.len() implies contains(
        unknown_text(kind, requested, available),
        #[trigger] aliases[j],
    ) by {
        let x = aliases[j];
        vstd::seq_lib::to_multiset_contains(aliases, x);
        assert(aliases.contains(x));
        vstd::seq_lib::to_multiset_contains(views(available), x);
        let k = choose|k: int| 0 <= k < views(available).len() && views(available)[k] == x;
        lemma_joined_contains(views(available), ", "@, k);
        lemma_contains_within(kind + requested + lit, list, Seq::empty(), x);
        assert(kind + requested + lit + list + Seq::<char>::empty() =~= unknown_text(
            kind,
            requested,
            available,
        ));
    }
}

} // verus!
