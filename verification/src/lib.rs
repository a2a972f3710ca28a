//! A browser driven over WebDriver for the `browser` resource group of a
//! bddkit suite: configuration, element lookup, the step table and the
//! decisions of each step, the reply shapes, the event buffers of a
//! session, and the table of live instances.

pub mod bidi;
pub mod config;
pub mod find;
pub mod handles;
pub mod instance;
pub mod json;
pub mod managed;
pub mod reply;
pub mod steps;
pub mod text;
pub mod webdriver;
pub mod weburl;

pub use handles::{live_instances, take_instance};

use vstd::prelude::*;

use crate::config::{field_json, field_table, Field};
use crate::json::{entry_views, json_text, lemma_entry_views_map, object_from, object_of, render, Json, JsonV};
use crate::text::owned;

verus! {

/// The plugin's manifest: its name and version, the resource group it
/// serves, its concurrency (one browser per feature file, reset per
/// scenario: per-scenario state is per worker), and the fields of an
/// instance body.
pub open spec fn manifest_spec(version: Seq<char>) -> JsonV {
    object_of(
        seq![
            ("name"@, JsonV::Str("browser"@)),
            ("version"@, JsonV::Str(version)),
            ("groups"@, JsonV::Array(seq![JsonV::Str("browser"@)])),
            ("concurrency"@, JsonV::Str("per_worker"@)),
            (
                "fields"@,
                object_of(
                    seq![("browser"@, JsonV::Array(field_table().map_values(|f: Field| field_json(f))))],
                ),
            ),
        ],
    )
}

/// The manifest as JSON text; `version` is the plugin's package version.
pub fn manifest_json(version: &str) -> (r: String)
    ensures
        r@ == json_text(manifest_spec(version@)),
{
    let mut groups: Vec<Json> = Vec::new();
    groups.push(Json::text("browser"));
    proof {
        crate::json::lemma_json_views_len(groups@);
    }
    assert(crate::json::json_views(groups@) =~= seq![JsonV::Str("browser"@)]);
    let fields = crate::json::object1("browser", crate::config::fields_json());
    let mut es: Vec<(String, Json)> = Vec::new();
    es.push((owned("name"), Json::text("browser")));
    es.push((owned("version"), Json::text(version)));
    es.push((owned("groups"), Json::Array(groups)));
    es.push((owned("concurrency"), Json::text("per_worker")));
    es.push((owned("fields"), fields));
    proof {
        lemma_entry_views_map(es@);
    }
    assert(entry_views(es@) =~= seq![
        ("name"@, JsonV::Str("browser"@)),
        ("version"@, JsonV::Str(version@)),
        ("groups"@, JsonV::Array(seq![JsonV::Str("browser"@)])),
        ("concurrency"@, JsonV::Str("per_worker"@)),
        (
            "fields"@,
            object_of(seq![("browser"@, JsonV::Array(field_table().map_values(|f: Field| field_json(f))))]),
        ),
    ]);
    render(&object_from(&es))
}

} // verus!
