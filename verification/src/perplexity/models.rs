//! The models that an account may use: those for searching, of the tiers
//! that its subscription covers.
use vstd::prelude::*;

use super::session::SubscriptionTier;
use crate::json::{deep_fields, jstr, push_member, JsonValue, JsonView};
use crate::text::str_eq;

verus! {

/// The lower-case form of `s`, as `str::to_lowercase` gives it.
pub uninterp spec fn lowercase_of(s: Seq<char>) -> Seq<char>;

/// `str::to_lowercase`: the text in lower case by Unicode's mapping. Its
/// contract names the result and says no more.
#[verifier::external_body]
pub(crate) fn lowercase(s: &str) -> (r: String)
    ensures
        r@ == lowercase_of(s@),
{
    s.to_lowercase()
}

/// What the models configuration says of the model `id`.
pub open spec fn model_info(config: JsonValue, id: Seq<char>) -> Option<JsonValue> {
    match config.get_spec("models"@) {
        Some(models) => models.get_spec(id),
        None => None,
    }
}

/// The listing of the model named under `key` in `entry`, when it is a
/// search model.
pub open spec fn key_model(config: JsonValue, entry: JsonValue, key: Seq<char>) -> Seq<JsonView> {
    match entry.str_field(key) {
        None => Seq::empty(),
        Some(id) => {
            let info = model_info(config, id);
            let mode = match info {
                Some(m) => m.str_field("mode"@),
                None => None,
            };
            if mode == Some("search"@) {
                let provider = match info {
                    Some(m) => match m.str_field("provider"@) {
                        Some(p) => p,
                        None => "perplexity"@,
                    },
                    None => "perplexity"@,
                };
                seq![
                    JsonView::Object(
                        seq![
                            ("id"@, JsonView::Str(id)),
                            ("object"@, JsonView::Str("model"@)),
                            ("owned_by"@, JsonView::Str(lowercase_of(provider))),
                            (
                                "description"@,
                                match entry.get_spec("description"@) {
                                    Some(d) => d.deep(),
                                    None => JsonView::Null,
                                },
                            ),
                        ],
                    ),
                ]
            } else {
                Seq::empty()
            }
        },
    }
}

/// The tier that an entry of the configuration needs: the one it names, or
/// free.
pub open spec fn entry_tier(entry: JsonValue) -> SubscriptionTier {
    SubscriptionTier::parse_spec(
        match entry.str_field("subscription_tier"@) {
            Some(t) => t,
            None => "free"@,
        },
    )
}

/// The search models of an entry, when the tier covers it.
pub open spec fn entry_models(config: JsonValue, tier: SubscriptionTier, entry: JsonValue) -> Seq<JsonView> {
    if tier.rank_spec() < entry_tier(entry).rank_spec() {
        Seq::empty()
    } else {
        key_model(config, entry, "non_reasoning_model"@) + key_model(config, entry, "reasoning_model"@)
    }
}

/// The search models of the entries, in order.
pub open spec fn entries_models(config: JsonValue, tier: SubscriptionTier, es: Seq<JsonValue>) -> Seq<JsonView>
    decreases es.len(),
{
    if es.len() == 0 {
        Seq::empty()
    } else {
        entries_models(config, tier, es.drop_last()) + entry_models(config, tier, es.last())
    }
}

/// The models that an account of tier `tier` may search with, by the
/// models configuration `config`.
pub open spec fn listed_models(config: JsonValue, tier: SubscriptionTier) -> Seq<JsonView> {
    match config.get_spec("config"@) {
        Some(JsonValue::Array(es)) => entries_models(config, tier, es@),
        _ => Seq::empty(),
    }
}

fn push_key_model(config: &JsonValue, entry: &JsonValue, key: &str, data: &mut Vec<JsonValue>)
    ensures
        crate::json::deep_values(final(data)@) == crate::json::deep_values(old(data)@) + key_model(
            *config,
            *entry,
            key@,
        ),
{
    proof {
        reveal_strlit("perplexity");
    }
    let ghost d0 = crate::json::deep_values(data@);
    let model_id = match entry.get_str(key) {
        Some(m) => m,
        None => {
            proof {
                assert(d0 + Seq::<JsonView>::empty() =~= d0);
            }
            return;
        },
    };
    let info = match config.get("models") {
        Some(models) => models.get(model_id),
        None => None,
    };
    let ghost infos: Option<JsonValue> = match info {
        Some(m) => Some(*m),
        None => None,
    };
    proof {
        assert(model_info(*config, model_id@) == infos);
    }
    let mode_ok = match info {
        Some(m) => match m.get_str("mode") {
            Some(md) => str_eq(md, "search"),
            None => false,
        },
        None => false,
    };
    if !mode_ok {
        proof {
            assert(d0 + Seq::<JsonView>::empty() =~= d0);
        }
        return;
    }
    let provider = match info {
        Some(m) => match m.get_str("provider") {
            Some(p) => p,
            None => "perplexity",
        },
        None => "perplexity",
    };
    let mut fields: Vec<(String, JsonValue)> = Vec::new();
    proof {
        assert(deep_fields(fields@) =~= Seq::<(Seq<char>, JsonView)>::empty());
    }
    push_member(&mut fields, "id", jstr(model_id));
    push_member(&mut fields, "object", jstr("model"));
    let owner = lowercase(provider);
    push_member(&mut fields, "owned_by", JsonValue::Str(owner));
    let desc = match entry.get("description") {
        Some(d) => d.duplicate(),
        None => JsonValue::Null,
    };
    let ghost dd = desc.deep();
    push_member(&mut fields, "description", desc);
    let ghost fv = deep_fields(fields@);
    proof {
        assert(fv =~= seq![
            ("id"@, JsonView::Str(model_id@)),
            ("object"@, JsonView::Str("model"@)),
            ("owned_by"@, JsonView::Str(lowercase_of(provider@))),
            ("description"@, dd),
        ]);
    }
    let ghost before = data@;
    let o = JsonValue::Object(fields);
    let ghost og = o;
    proof {
        assert(og.deep() == JsonView::Object(fv));
    }
    data.push(o);
    proof {
        assert(data@ == before.push(og));
        assert(data@.subrange(0, data@.len() - 1) =~= before);
        assert(data@[data@.len() - 1] == og);
        assert(crate::json::deep_values(data@) == d0.push(JsonView::Object(fv)));
        let pv: Seq<char> = match infos {
            Some(m) => match m.str_field("provider"@) {
                Some(p) => p,
                None => "perplexity"@,
            },
            None => "perplexity"@,
        };
        assert(pv == provider@);
        let mode: Option<Seq<char>> = match infos {
            Some(m) => m.str_field("mode"@),
            None => None,
        };
        assert(mode == Some("search"@));
        assert(dd == match entry.get_spec("description"@) {
            Some(d) => d.deep(),
            None => JsonView::Null,
        });
        assert(entry.str_field(key@) == Some(model_id@));
        let info2 = model_info(*config, model_id@);
        assert(info2 == infos);
        let expected = seq![
            JsonView::Object(
                seq![
                    ("id"@, JsonView::Str(model_id@)),
                    ("object"@, JsonView::Str("model"@)),
                    ("owned_by"@, JsonView::Str(lowercase_of(pv))),
                    (
                        "description"@,
                        match entry.get_spec("description"@) {
                            Some(d) => d.deep(),
                            None => JsonView::Null,
                        },
                    ),
                ],
            ),
        ];
        assert(key_model(*config, *entry, key@) == expected);
        let ef = seq![
            ("id"@, JsonView::Str(model_id@)),
            ("object"@, JsonView::Str("model"@)),
            ("owned_by"@, JsonView::Str(lowercase_of(pv))),
            (
                "description"@,
                match entry.get_spec("description"@) {
                    Some(d) => d.deep(),
                    None => JsonView::Null,
                },
            ),
        ];
        assert(fv[0] == ef[0]);
        assert(fv[1] == ef[1]);
        assert(fv[2] == ef[2]);
        assert(fv[3] == ef[3]);
        assert(fv.len() == ef.len());
        assert(fv =~= ef);
        assert(expected =~= seq![JsonView::Object(fv)]);
        assert(crate::json::deep_values(data@) =~= d0 + key_model(*config, *entry, key@));
    }
}

/// The models that an account of tier `tier` may search with, by the
/// models configuration `config`, each as `{id, object, owned_by,
/// description}`.
pub fn list_models(config: &JsonValue, tier: SubscriptionTier) -> (r: Vec<JsonValue>)
    ensures
        crate::json::deep_values(r@) == listed_models(*config, tier),
{
    let mut data: Vec<JsonValue> = Vec::new();
    match config.get("config") {
        Some(JsonValue::Array(es)) => {
            let mut i: usize = 0;
            while i < es.len()
                invariant
                    i <= es@.len(),
                    crate::json::deep_values(data@) == entries_models(*config, tier, es@.take(i as int)),
                decreases es@.len() - i,
            {
                proof {
                    assert(es@.take(i + 1).drop_last() =~= es@.take(i as int));
                }
                let entry = &es[i];
                let et = match entry.get_str("subscription_tier") {
                    Some(t) => SubscriptionTier::parse_or_free(t),
                    None => SubscriptionTier::parse_or_free("free"),
                };
                if tier.is_below(&et) {
                    proof {
                        assert(crate::json::deep_values(data@) =~= crate::json::deep_values(data@) + Seq::<JsonView>::empty());
                    }
                } else {
                    let ghost d0 = crate::json::deep_values(data@);
                    push_key_model(config, entry, "non_reasoning_model", &mut data);
                    push_key_model(config, entry, "reasoning_model", &mut data);
                    proof {
                        reveal_strlit("non_reasoning_model");
                        reveal_strlit("reasoning_model");
                        assert(crate::json::deep_values(data@) =~= d0 + entry_models(*config, tier, *entry));
                    }
                }
                i = i + 1;
            }
            proof {
                assert(es@.take(es@.len() as int) =~= es@);
            }
        },
        _ => {},
    }
    data
}

/// The answer of the models listing: `{"object": "list", "data": data}`.
pub fn models_response(data: Vec<JsonValue>) -> (r: JsonValue)
    ensures
        r.deep() == JsonView::Object(
            seq![
                ("object"@, JsonView::Str("list"@)),
                ("data"@, JsonView::Array(crate::json::deep_values(data@))),
            ],
        ),
{
    let ghost dv = crate::json::deep_values(data@);
    let mut fields: Vec<(String, JsonValue)> = Vec::new();
    proof {
        assert(deep_fields(fields@) =~= Seq::<(Seq<char>, JsonView)>::empty());
    }
    push_member(&mut fields, "object", jstr("list"));
    push_member(&mut fields, "data", JsonValue::Array(data));
    proof {
        assert(deep_fields(fields@) =~= seq![
            ("object"@, JsonView::Str("list"@)),
            ("data"@, JsonView::Array(dv)),
        ]);
    }
    JsonValue::Object(fields)
}

} // verus!
