//! Traffic routing modes: the operations that rewrite the `inbounds` of a
//! configuration, the IP version preference, and the fields that a downloaded
//! subscription gets on its way into the configuration file.
//!
//! Each operation exists twice. The one on a [`ConfigDocument`] says exactly
//! which tree comes out. The one on the text of the configuration file parses,
//! applies the first and writes the tree back; it is what a caller that reads
//! and writes the file needs.

use crate::codec::{parsed, rendered};
use crate::config::{
    keys_view, lemma_put_same, lemma_put_then_get, lemma_put_twice, lemma_reached_is_not_blocked,
    ConfigDocument, ConfigError, PathError,
};
use crate::json::{items_view, no_members, push_member, Json, JsonView, NumberView};
use vstd::prelude::*;

verus! {

/// The port on which the mixed inbound listens.
pub const MIXED_PORT: u64 = 2080;

/// The path of the inbounds in a configuration.
pub open spec fn inbounds_path() -> Seq<Seq<char>> {
    seq!["inbounds"@]
}

/// The path of the controller settings in a configuration.
pub open spec fn clash_api_path() -> Seq<Seq<char>> {
    seq!["clash_api"@]
}

/// The path of the cache settings in a configuration.
pub open spec fn cache_file_path() -> Seq<Seq<char>> {
    seq!["cache_file"@]
}

/// The path of the field that holds the domain strategy.
pub open spec fn strategy_path() -> Seq<Seq<char>> {
    seq!["dns"@, "strategy"@]
}

/// The mixed inbound on all addresses. In system proxy mode it also sets the
/// system's proxy.
pub open spec fn mixed_form(system_proxy: bool) -> JsonView {
    let base = Map::<Seq<char>, JsonView>::empty().insert(
        "type"@,
        JsonView::Text("mixed"@),
    ).insert("tag"@, JsonView::Text("mixed-in"@)).insert(
        "listen"@,
        JsonView::Text("0.0.0.0"@),
    ).insert("listen_port"@, JsonView::Number(NumberView::Integer(MIXED_PORT as int)));
    JsonView::Object(
        if system_proxy {
            base.insert("set_system_proxy"@, JsonView::Bool(true))
        } else {
            base
        },
    )
}

/// The TUN inbound: its two addresses, automatic and strict routing, and the
/// mixed stack.
pub open spec fn tun_form() -> JsonView {
    JsonView::Object(
        Map::<Seq<char>, JsonView>::empty().insert("type"@, JsonView::Text("tun"@)).insert(
            "tag"@,
            JsonView::Text("tun-in"@),
        ).insert(
            "address"@,
            JsonView::Array(
                seq![
                    JsonView::Text("172.18.0.1/30"@),
                    JsonView::Text("fdfe:dcba:9876::1/126"@),
                ],
            ),
        ).insert("auto_route"@, JsonView::Bool(true)).insert(
            "strict_route"@,
            JsonView::Bool(true),
        ).insert("stack"@, JsonView::Text("mixed"@)),
    )
}

/// The inbounds of system proxy mode.
pub open spec fn system_proxy_form() -> JsonView {
    JsonView::Array(seq![mixed_form(true)])
}

/// The inbounds of TUN mode.
pub open spec fn tun_proxy_form() -> JsonView {
    JsonView::Array(seq![mixed_form(false), tun_form()])
}

/// The controller settings that every configuration gets.
pub open spec fn clash_api_form() -> JsonView {
    JsonView::Object(
        Map::<Seq<char>, JsonView>::empty().insert(
            "external_controller"@,
            JsonView::Text("127.0.0.1:9090"@),
        ).insert("external_ui"@, JsonView::Text("metacubexd"@)).insert(
            "external_ui_download_url"@,
            JsonView::Text(""@),
        ).insert("external_ui_download_detour"@, JsonView::Text("手动切换"@)).insert(
            "default_mode"@,
            JsonView::Text("rule"@),
        ),
    )
}

/// The cache settings that every configuration gets.
pub open spec fn cache_file_form() -> JsonView {
    JsonView::Object(Map::<Seq<char>, JsonView>::empty().insert("enabled"@, JsonView::Bool(true)))
}

/// The name of a domain strategy as the kernel spells it.
pub open spec fn strategy_name(prefer_ipv6: bool) -> Seq<char> {
    if prefer_ipv6 {
        "prefer_ipv6"@
    } else {
        "ipv4_only"@
    }
}

/// The document after the IP version preference is set: where the domain
/// strategy holds the other of the two names it gets this one, and everywhere
/// else the document stays as it is.
pub open spec fn with_ip_version(doc: JsonView, prefer_ipv6: bool) -> JsonView {
    if doc.get(strategy_path()) == Some(JsonView::Text(strategy_name(!prefer_ipv6))) {
        doc.put(strategy_path(), JsonView::Text(strategy_name(prefer_ipv6)))
    } else {
        doc
    }
}

/// The configuration that a subscription becomes: the controller and cache
/// settings are set over what it brought, and its inbounds are those of system
/// proxy mode.
pub open spec fn subscription_config(doc: JsonView) -> JsonView {
    doc.put(clash_api_path(), clash_api_form()).put(cache_file_path(), cache_file_form()).put(
        inbounds_path(),
        system_proxy_form(),
    )
}

/// The two names of the domain strategy differ.
pub proof fn lemma_strategy_names_differ()
    ensures
        strategy_name(true) != strategy_name(false),
{
    reveal_strlit("prefer_ipv6");
    reveal_strlit("ipv4_only");
    assert(strategy_name(true).len() == 11);
    assert(strategy_name(false).len() == 9);
}

/// Setting the IP version preference twice is setting it once.
pub proof fn lemma_ip_version_idempotent(doc: JsonView, prefer_ipv6: bool)
    ensures
        with_ip_version(with_ip_version(doc, prefer_ipv6), prefer_ipv6) == with_ip_version(
            doc,
            prefer_ipv6,
        ),
{
    lemma_strategy_names_differ();
    lemma_put_then_get(doc, strategy_path(), JsonView::Text(strategy_name(prefer_ipv6)));
}

/// After the IP version preference is set, the domain strategy does not hold
/// the other name.
pub proof fn lemma_ip_version_leaves_no_other(doc: JsonView, prefer_ipv6: bool)
    ensures
        with_ip_version(doc, prefer_ipv6).get(strategy_path()) != Some(
            JsonView::Text(strategy_name(!prefer_ipv6)),
        ),
{
    lemma_strategy_names_differ();
    lemma_put_then_get(doc, strategy_path(), JsonView::Text(strategy_name(prefer_ipv6)));
}

/// Setting one preference and then the other gives back the document, where
/// its domain strategy held the other name to begin with.
pub proof fn lemma_ip_version_reverses(doc: JsonView, prefer_ipv6: bool)
    requires
        doc.get(strategy_path()) == Some(JsonView::Text(strategy_name(!prefer_ipv6))),
    ensures
        with_ip_version(with_ip_version(doc, prefer_ipv6), !prefer_ipv6) == doc,
{
    let this = JsonView::Text(strategy_name(prefer_ipv6));
    let other = JsonView::Text(strategy_name(!prefer_ipv6));
    lemma_put_then_get(doc, strategy_path(), this);
    lemma_put_twice(doc, strategy_path(), this, other);
    lemma_put_same(doc, strategy_path(), other);
}

/// System proxy mode, then TUN mode, then system proxy mode again gives the
/// document of system proxy mode, with the inbounds of that mode.
pub proof fn lemma_mode_round_trip(doc: JsonView)
    ensures
        doc.put(inbounds_path(), system_proxy_form()).put(inbounds_path(), tun_proxy_form()).put(
            inbounds_path(),
            system_proxy_form(),
        ) == doc.put(inbounds_path(), system_proxy_form()),
        doc.put(inbounds_path(), system_proxy_form()).get(inbounds_path()) == Some(
            system_proxy_form(),
        ),
{
    let sys = system_proxy_form();
    let tun = tun_proxy_form();
    lemma_put_twice(doc, inbounds_path(), sys, tun);
    lemma_put_twice(doc, inbounds_path(), tun, sys);
    lemma_put_then_get(doc, inbounds_path(), sys);
}

/// A patch at a path of one key is refused exactly where the document is not
/// an object.
pub proof fn lemma_single_key_fault(doc: JsonView, key: Seq<char>)
    ensures
        doc.fault(seq![key]) == if doc is Object {
            None
        } else {
            Some(PathError::NotAnObject)
        },
{
    let path = seq![key];
    assert(path.drop_first().len() == 0);
    if let JsonView::Object(m) = doc {
        if m.dom().contains(key) {
            assert(!m[path[0]].blocked(path.drop_first()));
        }
    }
}

/// A path of one key.
fn path_of(key: &str) -> (path: Vec<String>)
    ensures
        keys_view(path@) == seq![key@],
{
    let mut path: Vec<String> = Vec::new();
    path.push(key.to_owned());
    assert(keys_view(path@) =~= seq![key@]);
    path
}

/// A path of two keys.
fn path_of_two(first: &str, second: &str) -> (path: Vec<String>)
    ensures
        keys_view(path@) == seq![first@, second@],
{
    let mut path: Vec<String> = Vec::new();
    path.push(first.to_owned());
    path.push(second.to_owned());
    assert(keys_view(path@) =~= seq![first@, second@]);
    path
}

/// Builds the mixed inbound.
pub fn mixed_inbound(system_proxy: bool) -> (j: Json)
    ensures
        j@ == mixed_form(system_proxy),
{
    let mut members = no_members();
    push_member(&mut members, "type", Json::text("mixed"));
    push_member(&mut members, "tag", Json::text("mixed-in"));
    push_member(&mut members, "listen", Json::text("0.0.0.0"));
    push_member(&mut members, "listen_port", Json::integer(MIXED_PORT));
    if system_proxy {
        push_member(&mut members, "set_system_proxy", Json::Bool(true));
    }
    Json::Object(members)
}

/// Builds the TUN inbound.
pub fn tun_inbound() -> (j: Json)
    ensures
        j@ == tun_form(),
{
    let mut address: Vec<Json> = Vec::new();
    address.push(Json::text("172.18.0.1/30"));
    address.push(Json::text("fdfe:dcba:9876::1/126"));
    assert(items_view(address@) =~= seq![
        JsonView::Text("172.18.0.1/30"@),
        JsonView::Text("fdfe:dcba:9876::1/126"@),
    ]);
    let mut members = no_members();
    push_member(&mut members, "type", Json::text("tun"));
    push_member(&mut members, "tag", Json::text("tun-in"));
    push_member(&mut members, "address", Json::Array(address));
    push_member(&mut members, "auto_route", Json::Bool(true));
    push_member(&mut members, "strict_route", Json::Bool(true));
    push_member(&mut members, "stack", Json::text("mixed"));
    Json::Object(members)
}

/// Builds the inbounds of system proxy mode.
pub fn system_proxy_inbounds() -> (j: Json)
    ensures
        j@ == system_proxy_form(),
{
    let mut inbounds: Vec<Json> = Vec::new();
    inbounds.push(mixed_inbound(true));
    assert(items_view(inbounds@) =~= seq![mixed_form(true)]);
    Json::Array(inbounds)
}

/// Builds the inbounds of TUN mode.
pub fn tun_proxy_inbounds() -> (j: Json)
    ensures
        j@ == tun_proxy_form(),
{
    let mut inbounds: Vec<Json> = Vec::new();
    inbounds.push(mixed_inbound(false));
    inbounds.push(tun_inbound());
    assert(items_view(inbounds@) =~= seq![mixed_form(false), tun_form()]);
    Json::Array(inbounds)
}

/// Builds the controller settings.
pub fn clash_api_settings() -> (j: Json)
    ensures
        j@ == clash_api_form(),
{
    let mut members = no_members();
    push_member(&mut members, "external_controller", Json::text("127.0.0.1:9090"));
    push_member(&mut members, "external_ui", Json::text("metacubexd"));
    push_member(&mut members, "external_ui_download_url", Json::text(""));
    push_member(&mut members, "external_ui_download_detour", Json::text("手动切换"));
    push_member(&mut members, "default_mode", Json::text("rule"));
    Json::Object(members)
}

/// Builds the cache settings.
pub fn cache_file_settings() -> (j: Json)
    ensures
        j@ == cache_file_form(),
{
    let mut members = no_members();
    push_member(&mut members, "enabled", Json::Bool(true));
    Json::Object(members)
}

/// Switches a document to system proxy mode: its inbounds become those of
/// that mode. Refused, with the document unchanged, where the root is not an
/// object.
pub fn apply_system_proxy(doc: &mut ConfigDocument) -> (r: Result<(), PathError>)
    ensures
        match old(doc)@.fault(inbounds_path()) {
            Some(e) => r == Err::<(), PathError>(e) && final(doc)@ == old(doc)@,
            None => r is Ok && final(doc)@ == old(doc)@.put(inbounds_path(), system_proxy_form()),
        },
{
    let path = path_of("inbounds");
    doc.modify(&path, system_proxy_inbounds())
}

/// Switches a document to TUN mode: its inbounds become those of that mode.
/// Refused, with the document unchanged, where the root is not an object.
pub fn apply_tun_proxy(doc: &mut ConfigDocument) -> (r: Result<(), PathError>)
    ensures
        match old(doc)@.fault(inbounds_path()) {
            Some(e) => r == Err::<(), PathError>(e) && final(doc)@ == old(doc)@,
            None => r is Ok && final(doc)@ == old(doc)@.put(inbounds_path(), tun_proxy_form()),
        },
{
    let path = path_of("inbounds");
    doc.modify(&path, tun_proxy_inbounds())
}

/// Sets the IP version preference of a document.
pub fn apply_ip_version(doc: &mut ConfigDocument, prefer_ipv6: bool)
    ensures
        final(doc)@ == with_ip_version(old(doc)@, prefer_ipv6),
{
    let path = path_of_two("dns", "strategy");
    let this = if prefer_ipv6 {
        "prefer_ipv6"
    } else {
        "ipv4_only"
    };
    let other = if prefer_ipv6 {
        "ipv4_only"
    } else {
        "prefer_ipv6"
    };
    let holds_other = match doc.get(&path) {
        Some(j) => match j.as_text() {
            Some(s) => *s == other.to_owned(),
            None => false,
        },
        None => false,
    };
    if holds_other {
        proof {
            lemma_reached_is_not_blocked(doc@, strategy_path());
        }
        let _ = doc.modify(&path, Json::text(this));
    }
}

/// Makes a configuration of a subscription: sets the controller and cache
/// settings and switches to system proxy mode. Refused, with the document
/// unchanged, where the root is not an object.
pub fn apply_subscription_defaults(doc: &mut ConfigDocument) -> (r: Result<(), PathError>)
    ensures
        match old(doc)@.fault(clash_api_path()) {
            Some(e) => r == Err::<(), PathError>(e) && final(doc)@ == old(doc)@,
            None => r is Ok && final(doc)@ == subscription_config(old(doc)@),
        },
{
    let clash_api = path_of("clash_api");
    let cache_file = path_of("cache_file");
    match doc.modify(&clash_api, clash_api_settings()) {
        Ok(()) => {},
        Err(e) => {
            return Err(e);
        },
    }
    proof {
        lemma_single_key_fault(doc@, "cache_file"@);
    }
    let _ = doc.modify(&cache_file, cache_file_settings());
    proof {
        lemma_single_key_fault(doc@, "inbounds"@);
    }
    apply_system_proxy(doc)
}

/// Switches the configuration in `config_text` to system proxy mode and gives
/// the new text.
pub fn set_system_proxy(config_text: &str) -> (r: Result<String, ConfigError>)
    ensures
        match parsed(config_text@) {
            None => r matches Err(e) && e is Parse,
            Some(doc) => match doc.fault(inbounds_path()) {
                Some(fault) => r matches Err(e) && e == ConfigError::Path(fault),
                None => r matches Ok(text) && text@ == rendered(
                    doc.put(inbounds_path(), system_proxy_form()),
                ),
            },
        },
{
    let mut doc = match ConfigDocument::load(config_text) {
        Ok(doc) => doc,
        Err(e) => {
            return Err(e);
        },
    };
    match apply_system_proxy(&mut doc) {
        Ok(()) => Ok(doc.save()),
        Err(fault) => Err(ConfigError::Path(fault)),
    }
}

/// Switches the configuration in `config_text` to TUN mode and gives the new
/// text.
pub fn set_tun_proxy(config_text: &str) -> (r: Result<String, ConfigError>)
    ensures
        match parsed(config_text@) {
            None => r matches Err(e) && e is Parse,
            Some(doc) => match doc.fault(inbounds_path()) {
                Some(fault) => r matches Err(e) && e == ConfigError::Path(fault),
                None => r matches Ok(text) && text@ == rendered(
                    doc.put(inbounds_path(), tun_proxy_form()),
                ),
            },
        },
{
    let mut doc = match ConfigDocument::load(config_text) {
        Ok(doc) => doc,
        Err(e) => {
            return Err(e);
        },
    };
    match apply_tun_proxy(&mut doc) {
        Ok(()) => Ok(doc.save()),
        Err(fault) => Err(ConfigError::Path(fault)),
    }
}

/// Sets the IP version preference in the configuration in `config_text` and
/// gives the new text. Fails only where the text is not JSON.
pub fn toggle_ip_version(config_text: &str, prefer_ipv6: bool) -> (r: Result<String, ConfigError>)
    ensures
        match parsed(config_text@) {
            None => r matches Err(e) && e is Parse,
            Some(doc) => r matches Ok(text) && text@ == rendered(with_ip_version(doc, prefer_ipv6)),
        },
{
    let mut doc = match ConfigDocument::load(config_text) {
        Ok(doc) => doc,
        Err(e) => {
            return Err(e);
        },
    };
    apply_ip_version(&mut doc, prefer_ipv6);
    Ok(doc.save())
}

/// Makes the configuration text of the body of a downloaded subscription.
pub fn download_subscription(body: &str) -> (r: Result<String, ConfigError>)
    ensures
        match parsed(body@) {
            None => r matches Err(e) && e is Parse,
            Some(doc) => match doc.fault(clash_api_path()) {
                Some(fault) => r matches Err(e) && e == ConfigError::Path(fault),
                None => r matches Ok(text) && text@ == rendered(subscription_config(doc)),
            },
        },
{
    let mut doc = match ConfigDocument::load(body) {
        Ok(doc) => doc,
        Err(e) => {
            return Err(e);
        },
    };
    match apply_subscription_defaults(&mut doc) {
        Ok(()) => Ok(doc.save()),
        Err(fault) => Err(ConfigError::Path(fault)),
    }
}

} // verus!
