//! Laws of the catalog that is made of a list of models.

use vstd::prelude::*;
use crate::models::{
    listed_catalog, listed_model, listed_models, names_new_model, priority_at, ModelInfoView,
    OpenAiModelView, NVIDIA_NIM_BASE_INSTRUCTIONS_APPENDIX,
};
use crate::text::{law_blank, law_trim_idempotent, trimmed, white_space};

verus! {

/// The entries among the first `n` that name a model for the first time.
pub open spec fn first_mentions(listing: Seq<OpenAiModelView>, n: nat) -> Seq<int>
    decreases n,
{
    if n == 0 {
        Seq::empty()
    } else {
        let before = first_mentions(listing, (n - 1) as nat);
        if names_new_model(listing, n - 1) {
            before.push(n - 1)
        } else {
            before
        }
    }
}

/// What holds of the catalog of the first `n` entries and of first mentions.
spec fn catalog_follows(
    listing: Seq<OpenAiModelView>,
    n: nat,
    base_instructions: Seq<char>,
) -> bool {
    let catalog = listed_models(listing, n, base_instructions);
    let mentions = first_mentions(listing, n);
    &&& catalog.len() == mentions.len()
    &&& forall|k: int|
        0 <= k < mentions.len() ==> {
            &&& 0 <= #[trigger] mentions[k] < n
            &&& names_new_model(listing, mentions[k])
            &&& catalog[k] == listed_model(
                trimmed(listing[mentions[k]].id),
                listing[mentions[k]].owned_by,
                priority_at(k as nat),
                base_instructions,
            )
        }
    &&& forall|k: int, l: int| 0 <= k < l < mentions.len() ==> mentions[k] < mentions[l]
    &&& forall|i: int|
        0 <= i < n && names_new_model(listing, i) ==> #[trigger] mentions.contains(i)
}

proof fn lemma_catalog_follows(
    listing: Seq<OpenAiModelView>,
    n: nat,
    base_instructions: Seq<char>,
)
    requires
        n <= listing.len(),
    ensures
        catalog_follows(listing, n, base_instructions),
    decreases n,
{
    if n > 0 {
        lemma_catalog_follows(listing, (n - 1) as nat, base_instructions);
        let before = first_mentions(listing, (n - 1) as nat);
        let mentions = first_mentions(listing, n);
        assert forall|i: int| 0 <= i < n && names_new_model(listing, i) implies
            #[trigger] mentions.contains(i) by {
            if i < n - 1 {
                assert(before.contains(i));
                let k = before.index_of(i);
                assert(mentions[k] == i);
            } else {
                assert(mentions[before.len() as int] == i);
            }
        }
    }
}

/// The catalog holds the models in the order of first mention: its entries are
/// those of ascending positions of the list, each taken from the entry that names
/// the model first, with its position in the catalog as its priority.
pub proof fn law_catalog_keeps_order(listing: Seq<OpenAiModelView>, base_instructions: Seq<char>)
    ensures
        ({
            let catalog = listed_catalog(listing, base_instructions);
            let mentions = first_mentions(listing, listing.len());
            &&& catalog.len() == mentions.len()
            &&& forall|k: int, l: int| 0 <= k < l < mentions.len() ==> mentions[k] < mentions[l]
            &&& forall|k: int|
                0 <= k < mentions.len() ==> {
                    &&& 0 <= #[trigger] mentions[k] < listing.len()
                    &&& names_new_model(listing, mentions[k])
                    &&& catalog[k] == listed_model(
                        trimmed(listing[mentions[k]].id),
                        listing[mentions[k]].owned_by,
                        priority_at(k as nat),
                        base_instructions,
                    )
                }
        }),
{
    lemma_catalog_follows(listing, listing.len(), base_instructions);
}

/// No model is in the catalog twice.
pub proof fn law_slugs_are_distinct(
    listing: Seq<OpenAiModelView>,
    base_instructions: Seq<char>,
    k: int,
    l: int,
)
    requires
        0 <= k < l < listed_catalog(listing, base_instructions).len(),
    ensures
        listed_catalog(listing, base_instructions)[k].slug != listed_catalog(
            listing,
            base_instructions,
        )[l].slug,
{
    lemma_catalog_follows(listing, listing.len(), base_instructions);
    let mentions = first_mentions(listing, listing.len());
    assert(mentions[k] < mentions[l]);
    assert(names_new_model(listing, mentions[l]));
    assert(trimmed(listing[mentions[k]].id) != trimmed(listing[mentions[l]].id));
}

/// The slug of a catalog entry is not empty and has no white space at its ends.
pub proof fn law_slugs_are_clean(
    listing: Seq<OpenAiModelView>,
    base_instructions: Seq<char>,
    k: int,
)
    requires
        0 <= k < listed_catalog(listing, base_instructions).len(),
    ensures
        listed_catalog(listing, base_instructions)[k].slug.len() > 0,
        trimmed(listed_catalog(listing, base_instructions)[k].slug) == listed_catalog(
            listing,
            base_instructions,
        )[k].slug,
{
    lemma_catalog_follows(listing, listing.len(), base_instructions);
    let mentions = first_mentions(listing, listing.len());
    assert(names_new_model(listing, mentions[k]));
    law_trim_idempotent(listing[mentions[k]].id);
}

/// The first entry that names the model that entry `i` names.
proof fn lemma_first_mention(listing: Seq<OpenAiModelView>, i: int) -> (first: int)
    requires
        0 <= i < listing.len(),
        trimmed(listing[i].id).len() > 0,
    ensures
        0 <= first <= i,
        trimmed(listing[first].id) == trimmed(listing[i].id),
        names_new_model(listing, first),
    decreases i,
{
    if names_new_model(listing, i) {
        i
    } else {
        let j = choose|j: int|
            0 <= j < i && trimmed(#[trigger] listing[j].id) == trimmed(listing[i].id);
        lemma_first_mention(listing, j)
    }
}

/// Every entry whose name is not blank has its model in the catalog.
pub proof fn law_every_named_model_is_listed(
    listing: Seq<OpenAiModelView>,
    base_instructions: Seq<char>,
    i: int,
)
    requires
        0 <= i < listing.len(),
        trimmed(listing[i].id).len() > 0,
    ensures
        exists|k: int|
            0 <= k < listed_catalog(listing, base_instructions).len() && (
            #[trigger] listed_catalog(listing, base_instructions)[k]).slug == trimmed(
                listing[i].id,
            ),
{
    let first = lemma_first_mention(listing, i);
    lemma_catalog_follows(listing, listing.len(), base_instructions);
    let mentions = first_mentions(listing, listing.len());
    assert(mentions.contains(first));
    let k = mentions.index_of(first);
    assert(mentions[k] == first);
    assert(listed_catalog(listing, base_instructions)[k].slug == trimmed(listing[i].id));
}

/// An entry that names no model, or one that an earlier entry names, can be left
/// out of the end of a list.
pub proof fn law_repeated_entry_adds_nothing(
    listing: Seq<OpenAiModelView>,
    entry: OpenAiModelView,
    base_instructions: Seq<char>,
)
    requires
        trimmed(entry.id).len() == 0 || exists|j: int|
            0 <= j < listing.len() && trimmed(#[trigger] listing[j].id) == trimmed(entry.id),
    ensures
        listed_catalog(listing.push(entry), base_instructions) == listed_catalog(
            listing,
            base_instructions,
        ),
{
    let longer = listing.push(entry);
    lemma_prefix_catalog(listing, longer, listing.len(), base_instructions);
    if trimmed(entry.id).len() > 0 {
        let j = choose|j: int|
            0 <= j < listing.len() && trimmed(#[trigger] listing[j].id) == trimmed(entry.id);
        assert(trimmed(longer[j].id) == trimmed(longer[listing.len() as int].id));
    }
    assert(!names_new_model(longer, listing.len() as int));
}

proof fn lemma_prefix_catalog(
    listing: Seq<OpenAiModelView>,
    longer: Seq<OpenAiModelView>,
    n: nat,
    base_instructions: Seq<char>,
)
    requires
        n <= listing.len() <= longer.len(),
        forall|i: int| 0 <= i < listing.len() ==> #[trigger] longer[i] == listing[i],
    ensures
        listed_models(longer, n, base_instructions) == listed_models(
            listing,
            n,
            base_instructions,
        ),
    decreases n,
{
    if n > 0 {
        lemma_prefix_catalog(listing, longer, (n - 1) as nat, base_instructions);
        assert(longer[n - 1] == listing[n - 1]);
        assert(names_new_model(longer, n - 1) == names_new_model(listing, n - 1)) by {
            assert forall|j: int| 0 <= j < n - 1 implies #[trigger] longer[j].id
                == listing[j].id by {
                assert(longer[j] == listing[j]);
            }
            assert forall|j: int| 0 <= j < n - 1 implies #[trigger] listing[j].id
                == longer[j].id by {
                assert(longer[j] == listing[j]);
            }
        }
    }
}

/// How a model is described: by its owner, where the owner has a character that is
/// not white space.
pub open spec fn described_as(description: Option<Seq<char>>, owned_by: Option<Seq<char>>) -> bool {
    let owned = owned_by is Some && exists|i: int|
        0 <= i < owned_by->0.len() && !white_space(#[trigger] owned_by->0[i]);
    &&& owned ==> description == Some("NVIDIA NIM model owned by "@ + owned_by->0)
    &&& !owned ==> description == Some("NVIDIA NIM model"@)
}

/// What every listed model may be used for, and how, field by field.
pub open spec fn usable_as_listed(model: ModelInfoView) -> bool {
    &&& model.visibility is List
    &&& model.supported_in_api
    &&& model.shell_type is ShellCommand
    &&& model.default_reasoning_level is None
    &&& model.supported_reasoning_levels.len() == 0
    &&& !model.supports_reasoning_summaries
    &&& model.default_reasoning_summary is Auto
    &&& !model.support_verbosity
    &&& model.default_verbosity is None
    &&& model.additional_speed_tiers.len() == 0
    &&& model.service_tiers.len() == 0
    &&& model.availability_nux is None
    &&& model.upgrade is None
    &&& model.model_messages is None
    &&& model.apply_patch_tool_type is None
    &&& model.web_search_tool_type is Text
    &&& model.truncation_policy.mode is Tokens
    &&& model.truncation_policy.limit == 10_000
    &&& !model.supports_parallel_tool_calls
    &&& !model.supports_image_detail_original
    &&& model.context_window == Some(128_000i64)
    &&& model.max_context_window == Some(128_000i64)
    &&& model.auto_compact_token_limit is None
    &&& model.effective_context_window_percent == 95
    &&& model.experimental_supported_tools.len() == 0
    &&& model.input_modalities.len() == 1
    &&& model.input_modalities[0] is Text
    &&& !model.used_fallback_model_metadata
    &&& !model.supports_search_tool
}

/// What the entry of a model is made of: the slug is its name, the priority is the one
/// given, the instructions are the base instructions and the note on searching, the
/// description names the owner, and the rest is the same for every model.
pub proof fn law_model_entry(
    slug: Seq<char>,
    owned_by: Option<Seq<char>>,
    priority: i32,
    base_instructions: Seq<char>,
)
    ensures
        ({
            let model = listed_model(slug, owned_by, priority, base_instructions);
            &&& model.slug == slug
            &&& model.display_name == slug
            &&& model.priority == priority
            &&& model.base_instructions == base_instructions
                + NVIDIA_NIM_BASE_INSTRUCTIONS_APPENDIX@
            &&& described_as(model.description, owned_by)
            &&& usable_as_listed(model)
        }),
{
    if let Some(owner) = owned_by {
        law_blank(owner);
    }
}

/// Whether entry `i` is the first of a list whose trimmed name is `slug`.
pub open spec fn first_named(listing: Seq<OpenAiModelView>, i: int, slug: Seq<char>) -> bool {
    &&& 0 <= i < listing.len()
    &&& trimmed(listing[i].id) == slug
    &&& forall|j: int| 0 <= j < i ==> trimmed(#[trigger] listing[j].id) != slug
}

/// Every entry of the catalog stands for the first entry of the list of its name, with
/// the owner given there and its place in the catalog as its priority, and is listed
/// and supported in the API as every other.
pub proof fn law_catalog_entries(
    listing: Seq<OpenAiModelView>,
    base_instructions: Seq<char>,
    k: int,
) -> (first: int)
    requires
        0 <= k < listed_catalog(listing, base_instructions).len(),
    ensures
        ({
            let model = listed_catalog(listing, base_instructions)[k];
            &&& model.slug.len() > 0
            &&& first_named(listing, first, model.slug)
            &&& model.display_name == model.slug
            &&& described_as(model.description, listing[first].owned_by)
            &&& model.priority == if k <= i32::MAX {
                k
            } else {
                i32::MAX as int
            }
            &&& model.base_instructions == base_instructions
                + NVIDIA_NIM_BASE_INSTRUCTIONS_APPENDIX@
            &&& usable_as_listed(model)
        }),
{
    lemma_catalog_follows(listing, listing.len(), base_instructions);
    let first = first_mentions(listing, listing.len())[k];
    assert(names_new_model(listing, first));
    law_model_entry(
        trimmed(listing[first].id),
        listing[first].owned_by,
        priority_at(k as nat),
        base_instructions,
    );
    first
}

/// The catalog is in the order in which the list names models first.
pub proof fn law_catalog_in_order_of_naming(
    listing: Seq<OpenAiModelView>,
    base_instructions: Seq<char>,
    k: int,
    l: int,
    i: int,
    j: int,
)
    requires
        0 <= k < l < listed_catalog(listing, base_instructions).len(),
        first_named(listing, i, listed_catalog(listing, base_instructions)[k].slug),
        first_named(listing, j, listed_catalog(listing, base_instructions)[l].slug),
    ensures
        i < j,
{
    lemma_catalog_follows(listing, listing.len(), base_instructions);
    let mentions = first_mentions(listing, listing.len());
    let catalog = listed_catalog(listing, base_instructions);
    assert(mentions[k] < mentions[l]);
    assert(names_new_model(listing, mentions[k]));
    assert(names_new_model(listing, mentions[l]));
    assert(trimmed(listing[mentions[k]].id) == catalog[k].slug);
    assert(trimmed(listing[mentions[l]].id) == catalog[l].slug);
    assert(trimmed(listing[i].id) == catalog[k].slug);
    assert(trimmed(listing[j].id) == catalog[l].slug);
    assert(i == mentions[k]);
    assert(j == mentions[l]);
}

} // verus!
