//! Proxy records: what one share link decodes to, and the document entry
//! that each record is written as.

use crate::text::{decimal_text, opt_text, texts};
use crate::yaml::{entries_named, entries_of, push_entry, tags_named, text_list, Yaml, YamlView};
use vstd::prelude::*;

verus! {

/// The text of each string of an optional list.
pub open spec fn opt_texts(list: Option<Vec<String>>) -> Option<Seq<Seq<char>>> {
    match list {
        Some(items) => Some(texts(items@)),
        None => None,
    }
}

/// Transport options that follow from the network of a link.
#[derive(Debug, Clone)]
pub enum Transport {
    /// Neither `ws` nor `grpc`.
    Plain,
    /// WebSocket: the request path and the `Host` header.
    Ws { path: Option<String>, host: Option<String> },
    /// gRPC: the service name.
    Grpc { service_name: Option<String> },
}

pub enum TransportView {
    Plain,
    Ws { path: Option<Seq<char>>, host: Option<Seq<char>> },
    Grpc { service_name: Option<Seq<char>> },
}

impl View for Transport {
    type V = TransportView;

    open spec fn view(&self) -> TransportView {
        match self {
            Transport::Plain => TransportView::Plain,
            Transport::Ws { path, host } => TransportView::Ws {
                path: opt_text(*path),
                host: opt_text(*host),
            },
            Transport::Grpc { service_name } => TransportView::Grpc {
                service_name: opt_text(*service_name),
            },
        }
    }
}

/// REALITY options of a VLess link.
#[derive(Debug, Clone)]
pub struct RealityOptions {
    pub public_key: Option<String>,
    pub short_id: Option<String>,
    pub spider_x: Option<String>,
    pub fingerprint: Option<String>,
}

pub struct RealityOptionsView {
    pub public_key: Option<Seq<char>>,
    pub short_id: Option<Seq<char>>,
    pub spider_x: Option<Seq<char>>,
    pub fingerprint: Option<Seq<char>>,
}

impl View for RealityOptions {
    type V = RealityOptionsView;

    open spec fn view(&self) -> RealityOptionsView {
        RealityOptionsView {
            public_key: opt_text(self.public_key),
            short_id: opt_text(self.short_id),
            spider_x: opt_text(self.spider_x),
            fingerprint: opt_text(self.fingerprint),
        }
    }
}

/// The view of optional REALITY options.
pub open spec fn opt_reality(r: Option<RealityOptions>) -> Option<RealityOptionsView> {
    match r {
        Some(o) => Some(o@),
        None => None,
    }
}

/// A Shadowsocks proxy.
#[derive(Debug, Clone)]
pub struct ShadowsocksRecord {
    pub name: String,
    pub server: String,
    pub port: u16,
    pub cipher: String,
    pub password: String,
    pub plugin: Option<String>,
    pub plugin_opts: Option<String>,
}

pub struct ShadowsocksView {
    pub name: Seq<char>,
    pub server: Seq<char>,
    pub port: u16,
    pub cipher: Seq<char>,
    pub password: Seq<char>,
    pub plugin: Option<Seq<char>>,
    pub plugin_opts: Option<Seq<char>>,
}

impl View for ShadowsocksRecord {
    type V = ShadowsocksView;

    open spec fn view(&self) -> ShadowsocksView {
        ShadowsocksView {
            name: self.name@,
            server: self.server@,
            port: self.port,
            cipher: self.cipher@,
            password: self.password@,
            plugin: opt_text(self.plugin),
            plugin_opts: opt_text(self.plugin_opts),
        }
    }
}

/// A VMess proxy.
#[derive(Debug, Clone)]
pub struct VmessRecord {
    pub name: String,
    pub server: String,
    pub port: u16,
    pub uuid: String,
    pub cipher: String,
    pub alter_id: Option<u16>,
    pub network: Option<String>,
    pub tls: bool,
    pub servername: Option<String>,
    pub alpn: Option<Vec<String>>,
    pub transport: Transport,
}

pub struct VmessView {
    pub name: Seq<char>,
    pub server: Seq<char>,
    pub port: u16,
    pub uuid: Seq<char>,
    pub cipher: Seq<char>,
    pub alter_id: Option<u16>,
    pub network: Option<Seq<char>>,
    pub tls: bool,
    pub servername: Option<Seq<char>>,
    pub alpn: Option<Seq<Seq<char>>>,
    pub transport: TransportView,
}

impl View for VmessRecord {
    type V = VmessView;

    open spec fn view(&self) -> VmessView {
        VmessView {
            name: self.name@,
            server: self.server@,
            port: self.port,
            uuid: self.uuid@,
            cipher: self.cipher@,
            alter_id: self.alter_id,
            network: opt_text(self.network),
            tls: self.tls,
            servername: opt_text(self.servername),
            alpn: opt_texts(self.alpn),
            transport: self.transport@,
        }
    }
}

/// A VLess proxy.
#[derive(Debug, Clone)]
pub struct VlessRecord {
    pub name: String,
    pub server: String,
    pub port: u16,
    pub uuid: String,
    pub udp: bool,
    pub network: Option<String>,
    pub flow: Option<String>,
    pub encryption: Option<String>,
    pub tls: bool,
    pub servername: Option<String>,
    pub alpn: Option<Vec<String>>,
    pub reality: Option<RealityOptions>,
    pub transport: Transport,
}

pub struct VlessView {
    pub name: Seq<char>,
    pub server: Seq<char>,
    pub port: u16,
    pub uuid: Seq<char>,
    pub udp: bool,
    pub network: Option<Seq<char>>,
    pub flow: Option<Seq<char>>,
    pub encryption: Option<Seq<char>>,
    pub tls: bool,
    pub servername: Option<Seq<char>>,
    pub alpn: Option<Seq<Seq<char>>>,
    pub reality: Option<RealityOptionsView>,
    pub transport: TransportView,
}

impl View for VlessRecord {
    type V = VlessView;

    open spec fn view(&self) -> VlessView {
        VlessView {
            name: self.name@,
            server: self.server@,
            port: self.port,
            uuid: self.uuid@,
            udp: self.udp,
            network: opt_text(self.network),
            flow: opt_text(self.flow),
            encryption: opt_text(self.encryption),
            tls: self.tls,
            servername: opt_text(self.servername),
            alpn: opt_texts(self.alpn),
            reality: opt_reality(self.reality),
            transport: self.transport@,
        }
    }
}

/// A Trojan proxy.
#[derive(Debug, Clone)]
pub struct TrojanRecord {
    pub name: String,
    pub server: String,
    pub port: u16,
    pub password: String,
    pub udp: bool,
    pub skip_cert_verify: bool,
    pub network: Option<String>,
    pub sni: Option<String>,
    pub alpn: Option<Vec<String>>,
    pub transport: Transport,
}

pub struct TrojanView {
    pub name: Seq<char>,
    pub server: Seq<char>,
    pub port: u16,
    pub password: Seq<char>,
    pub udp: bool,
    pub skip_cert_verify: bool,
    pub network: Option<Seq<char>>,
    pub sni: Option<Seq<char>>,
    pub alpn: Option<Seq<Seq<char>>>,
    pub transport: TransportView,
}

impl View for TrojanRecord {
    type V = TrojanView;

    open spec fn view(&self) -> TrojanView {
        TrojanView {
            name: self.name@,
            server: self.server@,
            port: self.port,
            password: self.password@,
            udp: self.udp,
            skip_cert_verify: self.skip_cert_verify,
            network: opt_text(self.network),
            sni: opt_text(self.sni),
            alpn: opt_texts(self.alpn),
            transport: self.transport@,
        }
    }
}

/// The protocol of a record.
#[derive(Debug, Clone, Copy, PartialEq, Eq, Structural)]
pub enum ProxyKind {
    Shadowsocks,
    Vmess,
    Vless,
    Trojan,
}

/// The normalized result of decoding one share link.
#[derive(Debug, Clone)]
pub enum ProxyRecord {
    Shadowsocks(ShadowsocksRecord),
    Vmess(VmessRecord),
    Vless(VlessRecord),
    Trojan(TrojanRecord),
}

pub enum ProxyRecordView {
    Shadowsocks(ShadowsocksView),
    Vmess(VmessView),
    Vless(VlessView),
    Trojan(TrojanView),
}

impl View for ProxyRecord {
    type V = ProxyRecordView;

    open spec fn view(&self) -> ProxyRecordView {
        match self {
            ProxyRecord::Shadowsocks(r) => ProxyRecordView::Shadowsocks(r@),
            ProxyRecord::Vmess(r) => ProxyRecordView::Vmess(r@),
            ProxyRecord::Vless(r) => ProxyRecordView::Vless(r@),
            ProxyRecord::Trojan(r) => ProxyRecordView::Trojan(r@),
        }
    }
}

/// The views of a list of records.
pub open spec fn record_views(records: Seq<ProxyRecord>) -> Seq<ProxyRecordView> {
    records.map_values(|r: ProxyRecord| r@)
}

/// The entry `key: value` with a text value.
pub open spec fn text_entry(key: Seq<char>, value: Seq<char>) -> (YamlView, YamlView) {
    (YamlView::Text(key), YamlView::Text(value))
}

/// The entry `key: n`.
pub open spec fn number_entry(key: Seq<char>, n: nat) -> (YamlView, YamlView) {
    (YamlView::Text(key), YamlView::Number(decimal_text(n)))
}

/// The entry `key: flag`.
pub open spec fn flag_entry(key: Seq<char>, flag: bool) -> (YamlView, YamlView) {
    (YamlView::Text(key), YamlView::Bool(flag))
}

/// The entry for a text that may be absent.
pub open spec fn optional_text(key: Seq<char>, value: Option<Seq<char>>) -> Seq<
    (YamlView, YamlView),
> {
    match value {
        Some(v) => seq![text_entry(key, v)],
        None => seq![],
    }
}

/// The entry `key: true`, written only for a flag that is set.
pub open spec fn set_flag(key: Seq<char>, flag: bool) -> Seq<(YamlView, YamlView)> {
    if flag {
        seq![flag_entry(key, true)]
    } else {
        seq![]
    }
}

/// The entry `alpn` for a list that may be absent.
pub open spec fn alpn_entries(alpn: Option<Seq<Seq<char>>>) -> Seq<(YamlView, YamlView)> {
    match alpn {
        Some(items) => if items.len() > 0 {
            seq![(YamlView::Text("alpn"@), text_list(items))]
        } else {
            seq![]
        },
        None => seq![],
    }
}

/// The entry `key: mapping`, written only for a mapping with entries.
pub open spec fn nested(key: Seq<char>, entries: Seq<(YamlView, YamlView)>) -> Seq<
    (YamlView, YamlView),
> {
    if entries.len() > 0 {
        seq![(YamlView::Text(key), YamlView::Mapping(entries))]
    } else {
        seq![]
    }
}

/// The entries of the `headers` mapping of WebSocket options.
pub open spec fn host_header(host: Option<Seq<char>>) -> Seq<(YamlView, YamlView)> {
    match host {
        Some(h) => seq![
            (YamlView::Text("headers"@), YamlView::Mapping(seq![text_entry("Host"@, h)])),
        ],
        None => seq![],
    }
}

/// The entry that transport options are written as: `ws-opts` or `grpc-opts`,
/// and nothing where they hold no value.
pub open spec fn transport_entries(transport: TransportView) -> Seq<(YamlView, YamlView)> {
    match transport {
        TransportView::Plain => seq![],
        TransportView::Ws { path, host } => nested(
            "ws-opts"@,
            optional_text("path"@, path) + host_header(host),
        ),
        TransportView::Grpc { service_name } => nested(
            "grpc-opts"@,
            optional_text("grpc-service-name"@, service_name),
        ),
    }
}

/// The entry `reality-opts`, and nothing where the options hold no value.
pub open spec fn reality_entries(reality: Option<RealityOptionsView>) -> Seq<
    (YamlView, YamlView),
> {
    match reality {
        Some(r) => nested(
            "reality-opts"@,
            optional_text("public-key"@, r.public_key) + optional_text("short-id"@, r.short_id)
                + optional_text("spider-x"@, r.spider_x) + optional_text(
                "fingerprint"@,
                r.fingerprint,
            ),
        ),
        None => seq![],
    }
}

impl ShadowsocksView {
    /// The entries of the proxy's mapping, in the order they are written.
    pub open spec fn entries(self) -> Seq<(YamlView, YamlView)> {
        seq![
            text_entry("name"@, self.name),
            text_entry("type"@, "ss"@),
            text_entry("server"@, self.server),
            number_entry("port"@, self.port as nat),
            text_entry("cipher"@, self.cipher),
            text_entry("password"@, self.password),
        ] + optional_text("plugin"@, self.plugin) + optional_text("plugin-opts"@, self.plugin_opts)
    }
}

impl VmessView {
    /// The entries of the proxy's mapping, in the order they are written.
    pub open spec fn entries(self) -> Seq<(YamlView, YamlView)> {
        seq![
            text_entry("name"@, self.name),
            text_entry("type"@, "vmess"@),
            text_entry("server"@, self.server),
            number_entry("port"@, self.port as nat),
            text_entry("uuid"@, self.uuid),
            text_entry("cipher"@, self.cipher),
        ] + (match self.alter_id {
            Some(id) => seq![number_entry("alterId"@, id as nat)],
            None => seq![],
        }) + optional_text("network"@, self.network) + set_flag("tls"@, self.tls) + optional_text(
            "servername"@,
            self.servername,
        ) + alpn_entries(self.alpn) + transport_entries(self.transport)
    }
}

impl VlessView {
    /// The entries of the proxy's mapping, in the order they are written.
    pub open spec fn entries(self) -> Seq<(YamlView, YamlView)> {
        seq![
            text_entry("name"@, self.name),
            text_entry("type"@, "vless"@),
            text_entry("server"@, self.server),
            number_entry("port"@, self.port as nat),
            text_entry("uuid"@, self.uuid),
            flag_entry("udp"@, self.udp),
        ] + optional_text("network"@, self.network) + optional_text("flow"@, self.flow)
            + optional_text("encryption"@, self.encryption) + set_flag("tls"@, self.tls)
            + optional_text("servername"@, self.servername) + alpn_entries(self.alpn)
            + reality_entries(self.reality) + transport_entries(self.transport)
    }
}

impl TrojanView {
    /// The entries of the proxy's mapping, in the order they are written.
    pub open spec fn entries(self) -> Seq<(YamlView, YamlView)> {
        seq![
            text_entry("name"@, self.name),
            text_entry("type"@, "trojan"@),
            text_entry("server"@, self.server),
            number_entry("port"@, self.port as nat),
            text_entry("password"@, self.password),
            flag_entry("udp"@, self.udp),
        ] + set_flag("skip-cert-verify"@, self.skip_cert_verify) + optional_text(
            "network"@,
            self.network,
        ) + optional_text("sni"@, self.sni) + alpn_entries(self.alpn) + transport_entries(
            self.transport,
        )
    }
}

impl ProxyRecordView {
    /// The display name.
    pub open spec fn name(self) -> Seq<char> {
        match self {
            ProxyRecordView::Shadowsocks(r) => r.name,
            ProxyRecordView::Vmess(r) => r.name,
            ProxyRecordView::Vless(r) => r.name,
            ProxyRecordView::Trojan(r) => r.name,
        }
    }

    /// The server's host.
    pub open spec fn server(self) -> Seq<char> {
        match self {
            ProxyRecordView::Shadowsocks(r) => r.server,
            ProxyRecordView::Vmess(r) => r.server,
            ProxyRecordView::Vless(r) => r.server,
            ProxyRecordView::Trojan(r) => r.server,
        }
    }

    /// The server's port.
    pub open spec fn port(self) -> u16 {
        match self {
            ProxyRecordView::Shadowsocks(r) => r.port,
            ProxyRecordView::Vmess(r) => r.port,
            ProxyRecordView::Vless(r) => r.port,
            ProxyRecordView::Trojan(r) => r.port,
        }
    }

    /// The protocol.
    pub open spec fn kind(self) -> ProxyKind {
        match self {
            ProxyRecordView::Shadowsocks(_) => ProxyKind::Shadowsocks,
            ProxyRecordView::Vmess(_) => ProxyKind::Vmess,
            ProxyRecordView::Vless(_) => ProxyKind::Vless,
            ProxyRecordView::Trojan(_) => ProxyKind::Trojan,
        }
    }

    /// The entries of the proxy's mapping, in the order they are written.
    pub open spec fn entries(self) -> Seq<(YamlView, YamlView)> {
        match self {
            ProxyRecordView::Shadowsocks(r) => r.entries(),
            ProxyRecordView::Vmess(r) => r.entries(),
            ProxyRecordView::Vless(r) => r.entries(),
            ProxyRecordView::Trojan(r) => r.entries(),
        }
    }

    /// The mapping that the proxy is written as in a configuration document.
    pub open spec fn document(self) -> YamlView {
        YamlView::Mapping(self.entries())
    }

    /// A record has a name.
    pub open spec fn well_formed(self) -> bool {
        self.name().len() > 0
    }
}

/// Appends `key: value` where the text is present.
fn push_optional(entries: &mut Vec<(Yaml, Yaml)>, key: &str, value: &Option<String>)
    ensures
        entries_of(final(entries)@) == entries_of(old(entries)@) + optional_text(
            key@,
            opt_text(*value),
        ),
        entries_named(entries_of(old(entries)@)) ==> entries_named(entries_of(final(entries)@)),
{
    match value {
        Some(v) => {
            push_entry(entries, key, Yaml::text(v.as_str()));
            assert(entries_of(entries@) =~= entries_of(old(entries)@) + optional_text(
                key@,
                opt_text(*value),
            ));
        },
        None => {
            assert(entries_of(entries@) =~= entries_of(old(entries)@) + optional_text(
                key@,
                opt_text(*value),
            ));
        },
    }
}

/// Appends `key: true` where the flag is set.
fn push_set_flag(entries: &mut Vec<(Yaml, Yaml)>, key: &str, flag: bool)
    ensures
        entries_of(final(entries)@) == entries_of(old(entries)@) + set_flag(key@, flag),
        entries_named(entries_of(old(entries)@)) ==> entries_named(entries_of(final(entries)@)),
{
    if flag {
        push_entry(entries, key, Yaml::Bool(true));
    }
    assert(entries_of(entries@) =~= entries_of(old(entries)@) + set_flag(key@, flag));
}

/// Appends the `alpn` list where there is one.
fn push_alpn(entries: &mut Vec<(Yaml, Yaml)>, alpn: &Option<Vec<String>>)
    ensures
        entries_of(final(entries)@) == entries_of(old(entries)@) + alpn_entries(opt_texts(*alpn)),
        entries_named(entries_of(old(entries)@)) ==> entries_named(entries_of(final(entries)@)),
{
    match alpn {
        Some(items) => {
            if items.len() > 0 {
                push_entry(entries, "alpn", Yaml::texts(items));
            }
        },
        None => {},
    }
    assert(entries_of(entries@) =~= entries_of(old(entries)@) + alpn_entries(opt_texts(*alpn)));
}

/// Appends `key: mapping` where the mapping has entries.
fn push_nested(entries: &mut Vec<(Yaml, Yaml)>, key: &str, inner: Vec<(Yaml, Yaml)>)
    ensures
        entries_of(final(entries)@) == entries_of(old(entries)@) + nested(
            key@,
            entries_of(inner@),
        ),
        entries_named(entries_of(old(entries)@)) && entries_named(entries_of(inner@))
            ==> entries_named(entries_of(final(entries)@)),
{
    if inner.len() > 0 {
        push_entry(entries, key, Yaml::mapping(inner));
    }
    assert(entries_of(entries@) =~= entries_of(old(entries)@) + nested(key@, entries_of(inner@)));
}

/// Appends the entry that the transport options are written as.
fn push_transport(entries: &mut Vec<(Yaml, Yaml)>, transport: &Transport)
    ensures
        entries_of(final(entries)@) == entries_of(old(entries)@) + transport_entries(transport@),
        entries_named(entries_of(old(entries)@)) ==> entries_named(entries_of(final(entries)@)),
{
    match transport {
        Transport::Plain => {
            assert(entries_of(entries@) =~= entries_of(old(entries)@) + transport_entries(
                transport@,
            ));
        },
        Transport::Ws { path, host } => {
            let mut ws: Vec<(Yaml, Yaml)> = Vec::new();
            assert(entries_of(ws@) =~= Seq::<(YamlView, YamlView)>::empty());
            push_optional(&mut ws, "path", path);
            match host {
                Some(h) => {
                    let mut headers: Vec<(Yaml, Yaml)> = Vec::new();
                    assert(entries_of(headers@) =~= Seq::<(YamlView, YamlView)>::empty());
                    push_entry(&mut headers, "Host", Yaml::text(h.as_str()));
                    assert(entries_of(headers@) =~= seq![text_entry("Host"@, h@)]);
                    push_entry(&mut ws, "headers", Yaml::mapping(headers));
                },
                None => {},
            }
            assert(entries_of(ws@) =~= optional_text("path"@, opt_text(*path)) + host_header(
                opt_text(*host),
            ));
            push_nested(entries, "ws-opts", ws);
        },
        Transport::Grpc { service_name } => {
            let mut grpc: Vec<(Yaml, Yaml)> = Vec::new();
            assert(entries_of(grpc@) =~= Seq::<(YamlView, YamlView)>::empty());
            push_optional(&mut grpc, "grpc-service-name", service_name);
            assert(entries_of(grpc@) =~= optional_text(
                "grpc-service-name"@,
                opt_text(*service_name),
            ));
            push_nested(entries, "grpc-opts", grpc);
        },
    }
}

/// Appends the `reality-opts` entry where there are such options.
fn push_reality(entries: &mut Vec<(Yaml, Yaml)>, reality: &Option<RealityOptions>)
    ensures
        entries_of(final(entries)@) == entries_of(old(entries)@) + reality_entries(
            opt_reality(*reality),
        ),
        entries_named(entries_of(old(entries)@)) ==> entries_named(entries_of(final(entries)@)),
{
    match reality {
        Some(r) => {
            let mut inner: Vec<(Yaml, Yaml)> = Vec::new();
            assert(entries_of(inner@) =~= Seq::<(YamlView, YamlView)>::empty());
            push_optional(&mut inner, "public-key", &r.public_key);
            push_optional(&mut inner, "short-id", &r.short_id);
            push_optional(&mut inner, "spider-x", &r.spider_x);
            push_optional(&mut inner, "fingerprint", &r.fingerprint);
            assert(entries_of(inner@) =~= optional_text("public-key"@, r@.public_key)
                + optional_text("short-id"@, r@.short_id) + optional_text(
                "spider-x"@,
                r@.spider_x,
            ) + optional_text("fingerprint"@, r@.fingerprint));
            push_nested(entries, "reality-opts", inner);
        },
        None => {
            assert(entries_of(entries@) =~= entries_of(old(entries)@) + reality_entries(
                opt_reality(*reality),
            ));
        },
    }
}

/// The six entries that every proxy begins with, `fifth` and `sixth` being
/// the protocol's own.
fn leading_entries(
    name: &String,
    kind: &str,
    server: &String,
    port: u16,
    fifth: (&str, &String),
    sixth: (&str, Yaml),
) -> (entries: Vec<(Yaml, Yaml)>)
    ensures
        entries_of(entries@) == seq![
            text_entry("name"@, name@),
            text_entry("type"@, kind@),
            text_entry("server"@, server@),
            number_entry("port"@, port as nat),
            text_entry(fifth.0@, fifth.1@),
            (YamlView::Text(sixth.0@), sixth.1@),
        ],
        tags_named(sixth.1@) ==> entries_named(entries_of(entries@)),
{
    let mut entries: Vec<(Yaml, Yaml)> = Vec::new();
    assert(entries_of(entries@) =~= Seq::<(YamlView, YamlView)>::empty());
    push_entry(&mut entries, "name", Yaml::text(name.as_str()));
    push_entry(&mut entries, "type", Yaml::text(kind));
    push_entry(&mut entries, "server", Yaml::text(server.as_str()));
    push_entry(&mut entries, "port", Yaml::number(port as u64));
    push_entry(&mut entries, fifth.0, Yaml::text(fifth.1.as_str()));
    push_entry(&mut entries, sixth.0, sixth.1);
    assert(entries_of(entries@) =~= seq![
        text_entry("name"@, name@),
        text_entry("type"@, kind@),
        text_entry("server"@, server@),
        number_entry("port"@, port as nat),
        text_entry(fifth.0@, fifth.1@),
        (YamlView::Text(sixth.0@), sixth.1@),
    ]);
    entries
}

impl ShadowsocksRecord {
    /// The mapping that the proxy is written as.
    pub fn to_yaml(&self) -> (node: Yaml)
        ensures
            node@ == YamlView::Mapping(self@.entries()),
            tags_named(node@),
    {
        let mut entries = leading_entries(
            &self.name,
            "ss",
            &self.server,
            self.port,
            ("cipher", &self.cipher),
            ("password", Yaml::text(self.password.as_str())),
        );
        push_optional(&mut entries, "plugin", &self.plugin);
        push_optional(&mut entries, "plugin-opts", &self.plugin_opts);
        Yaml::mapping(entries)
    }
}

impl VmessRecord {
    /// The mapping that the proxy is written as.
    pub fn to_yaml(&self) -> (node: Yaml)
        ensures
            node@ == YamlView::Mapping(self@.entries()),
            tags_named(node@),
    {
        let mut entries = leading_entries(
            &self.name,
            "vmess",
            &self.server,
            self.port,
            ("uuid", &self.uuid),
            ("cipher", Yaml::text(self.cipher.as_str())),
        );
        let ghost lead = entries_of(entries@);
        match self.alter_id {
            Some(id) => {
                push_entry(&mut entries, "alterId", Yaml::number(id as u64));
            },
            None => {},
        }
        assert(entries_of(entries@) =~= lead + (match self.alter_id {
            Some(id) => seq![number_entry("alterId"@, id as nat)],
            None => seq![],
        }));
        push_optional(&mut entries, "network", &self.network);
        push_set_flag(&mut entries, "tls", self.tls);
        push_optional(&mut entries, "servername", &self.servername);
        push_alpn(&mut entries, &self.alpn);
        push_transport(&mut entries, &self.transport);
        Yaml::mapping(entries)
    }
}

impl VlessRecord {
    /// The mapping that the proxy is written as.
    pub fn to_yaml(&self) -> (node: Yaml)
        ensures
            node@ == YamlView::Mapping(self@.entries()),
            tags_named(node@),
    {
        let mut entries = leading_entries(
            &self.name,
            "vless",
            &self.server,
            self.port,
            ("uuid", &self.uuid),
            ("udp", Yaml::Bool(self.udp)),
        );
        push_optional(&mut entries, "network", &self.network);
        push_optional(&mut entries, "flow", &self.flow);
        push_optional(&mut entries, "encryption", &self.encryption);
        push_set_flag(&mut entries, "tls", self.tls);
        push_optional(&mut entries, "servername", &self.servername);
        push_alpn(&mut entries, &self.alpn);
        push_reality(&mut entries, &self.reality);
        push_transport(&mut entries, &self.transport);
        Yaml::mapping(entries)
    }
}

impl TrojanRecord {
    /// The mapping that the proxy is written as.
    pub fn to_yaml(&self) -> (node: Yaml)
        ensures
            node@ == YamlView::Mapping(self@.entries()),
            tags_named(node@),
    {
        let mut entries = leading_entries(
            &self.name,
            "trojan",
            &self.server,
            self.port,
            ("password", &self.password),
            ("udp", Yaml::Bool(self.udp)),
        );
        push_set_flag(&mut entries, "skip-cert-verify", self.skip_cert_verify);
        push_optional(&mut entries, "network", &self.network);
        push_optional(&mut entries, "sni", &self.sni);
        push_alpn(&mut entries, &self.alpn);
        push_transport(&mut entries, &self.transport);
        Yaml::mapping(entries)
    }
}

impl ProxyRecord {
    /// The display name.
    pub fn name(&self) -> (name: &String)
        ensures
            name@ == self@.name(),
    {
        match self {
            ProxyRecord::Shadowsocks(r) => &r.name,
            ProxyRecord::Vmess(r) => &r.name,
            ProxyRecord::Vless(r) => &r.name,
            ProxyRecord::Trojan(r) => &r.name,
        }
    }

    /// The protocol.
    pub fn kind(&self) -> (kind: ProxyKind)
        ensures
            kind == self@.kind(),
    {
        match self {
            ProxyRecord::Shadowsocks(_) => ProxyKind::Shadowsocks,
            ProxyRecord::Vmess(_) => ProxyKind::Vmess,
            ProxyRecord::Vless(_) => ProxyKind::Vless,
            ProxyRecord::Trojan(_) => ProxyKind::Trojan,
        }
    }

    /// The server's host.
    pub fn server(&self) -> (server: &String)
        ensures
            server@ == self@.server(),
    {
        match self {
            ProxyRecord::Shadowsocks(r) => &r.server,
            ProxyRecord::Vmess(r) => &r.server,
            ProxyRecord::Vless(r) => &r.server,
            ProxyRecord::Trojan(r) => &r.server,
        }
    }

    /// The server's port.
    pub fn port(&self) -> (port: u16)
        ensures
            port == self@.port(),
    {
        match self {
            ProxyRecord::Shadowsocks(r) => r.port,
            ProxyRecord::Vmess(r) => r.port,
            ProxyRecord::Vless(r) => r.port,
            ProxyRecord::Trojan(r) => r.port,
        }
    }

    /// The mapping that the proxy is written as in a configuration document.
    pub fn to_yaml(&self) -> (node: Yaml)
        ensures
            node@ == self@.document(),
            tags_named(node@),
    {
        match self {
            ProxyRecord::Shadowsocks(r) => r.to_yaml(),
            ProxyRecord::Vmess(r) => r.to_yaml(),
            ProxyRecord::Vless(r) => r.to_yaml(),
            ProxyRecord::Trojan(r) => r.to_yaml(),
        }
    }
}

/// The entry of a proxy starts with its name, its server and its port, as
/// the record holds them, and goes on with its credentials.
pub proof fn lemma_entry_keeps_endpoint(record: ProxyRecordView)
    ensures
        record.entries().len() >= 6,
        record.entries()[0] == text_entry("name"@, record.name()),
        record.entries()[2] == text_entry("server"@, record.server()),
        record.entries()[3] == number_entry("port"@, record.port() as nat),
        match record {
            ProxyRecordView::Shadowsocks(r) => record.entries()[4] == text_entry(
                "cipher"@,
                r.cipher,
            ) && record.entries()[5] == text_entry("password"@, r.password),
            ProxyRecordView::Vmess(r) => record.entries()[4] == text_entry("uuid"@, r.uuid),
            ProxyRecordView::Vless(r) => record.entries()[4] == text_entry("uuid"@, r.uuid),
            ProxyRecordView::Trojan(r) => record.entries()[4] == text_entry(
                "password"@,
                r.password,
            ),
        },
{
}

} // verus!
