//! Core endpoints: the starter configuration offered to the editor.
use vstd::prelude::*;
use crate::json::{empty_object, members_view, items_view, push_item, push_member, string, JsonValue, JsonView};

verus! {

/// The starter configuration: warning-level logs, no inbounds, and a direct outbound.
pub open spec fn default_config_view() -> JsonView {
    JsonView::Object(
        seq![
            ("log"@, JsonView::Object(seq![("loglevel"@, JsonView::Str("warning"@))])),
            ("inbounds"@, JsonView::Array(Seq::empty())),
            ("outbounds"@, JsonView::Array(seq![JsonView::Object(seq![
                ("tag"@, JsonView::Str("direct"@)),
                ("protocol"@, JsonView::Str("freedom"@)),
                ("settings"@, JsonView::Object(Seq::empty())),
            ])])),
        ],
    )
}

/// The starter configuration (see `default_config_view`).
pub fn default_config() -> (r: JsonValue)
    ensures
        r@ == default_config_view(),
{
    let mut log: Vec<(String, JsonValue)> = Vec::new();
    push_member(&mut log, "loglevel", string("warning"));
    assert(members_view(log@) =~= seq![("loglevel"@, JsonView::Str("warning"@))]);
    let mut direct: Vec<(String, JsonValue)> = Vec::new();
    push_member(&mut direct, "tag", string("direct"));
    push_member(&mut direct, "protocol", string("freedom"));
    push_member(&mut direct, "settings", empty_object());
    assert(members_view(direct@) =~= seq![
        ("tag"@, JsonView::Str("direct"@)),
        ("protocol"@, JsonView::Str("freedom"@)),
        ("settings"@, JsonView::Object(Seq::empty())),
    ]);
    let mut outbounds: Vec<JsonValue> = Vec::new();
    assert(items_view(outbounds@) =~= Seq::<JsonView>::empty());
    push_item(&mut outbounds, JsonValue::Object(direct));
    let inbounds: Vec<JsonValue> = Vec::new();
    assert(items_view(inbounds@) =~= Seq::<JsonView>::empty());
    let mut m: Vec<(String, JsonValue)> = Vec::new();
    push_member(&mut m, "log", JsonValue::Object(log));
    push_member(&mut m, "inbounds", JsonValue::Array(inbounds));
    push_member(&mut m, "outbounds", JsonValue::Array(outbounds));
    assert(members_view(m@) =~= default_config_view()->Object_0);
    JsonValue::Object(m)
}

} // verus!
