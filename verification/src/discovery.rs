//! Discovery: from what the tunnel managers answer to the services they expose.

use crate::json::{json_document, items_view, lemma_items_view, parse_document, Json, JsonView};
use crate::ports::{
    distinct_ports, extract_port, lemma_lookup_exact, lookup, port_of, IdentityView, PortTable,
};
use crate::services::{lemma_insert_wf, ServiceMap, Services};
use vstd::prelude::*;

verus! {

/// A tunnel manager whose API lists the active tunnels.
#[derive(Clone, Debug, PartialEq, Eq)]
pub struct TunnelSource {
    pub label: String,
    pub base_url: String,
}

/// A tunnel source as mathematics sees it.
pub struct SourceView {
    pub label: Seq<char>,
    pub base_url: Seq<char>,
}

impl View for TunnelSource {
    type V = SourceView;

    open spec fn view(&self) -> SourceView {
        SourceView { label: self.label@, base_url: self.base_url@ }
    }
}

/// A tunnel as a source lists it: the public URL and the local `host:port`
/// it forwards to.
#[derive(Clone, Debug, PartialEq, Eq)]
pub struct RawTunnel {
    pub public_url: String,
    pub local_address: String,
}

/// A listed tunnel as mathematics sees it.
pub struct TunnelView {
    pub public_url: Seq<char>,
    pub local_address: Seq<char>,
}

impl View for RawTunnel {
    type V = TunnelView;

    open spec fn view(&self) -> TunnelView {
        TunnelView { public_url: self.public_url@, local_address: self.local_address@ }
    }
}

/// The tunnels as mathematics sees them.
pub open spec fn tunnels_view(tunnels: Seq<RawTunnel>) -> Seq<TunnelView> {
    tunnels.map_values(|tunnel: RawTunnel| tunnel@)
}

/// Why a source added nothing to the discovered services.
#[derive(Clone, Debug, PartialEq, Eq)]
pub enum DiscoveryError {
    /// The source's URL is no valid URL; no request was made.
    InvalidUrl,
    /// The source answered with a status outside 200..=299.
    Refused { status: u16 },
    /// No answer came; `detail` is the transport's own account.
    Unreachable { detail: String },
    /// The answer's body is no JSON text.
    NotJson,
    /// The answer's body is JSON without a `tunnels` array.
    NoTunnelList,
}

/// A discovery error as mathematics sees it.
pub enum DiscoveryErrorView {
    InvalidUrl,
    Refused { status: u16 },
    Unreachable { detail: Seq<char> },
    NotJson,
    NoTunnelList,
}

impl View for DiscoveryError {
    type V = DiscoveryErrorView;

    open spec fn view(&self) -> DiscoveryErrorView {
        match self {
            DiscoveryError::InvalidUrl => DiscoveryErrorView::InvalidUrl,
            DiscoveryError::Refused { status } => DiscoveryErrorView::Refused { status: *status },
            DiscoveryError::Unreachable { detail } => DiscoveryErrorView::Unreachable {
                detail: detail@,
            },
            DiscoveryError::NotJson => DiscoveryErrorView::NotJson,
            DiscoveryError::NoTunnelList => DiscoveryErrorView::NoTunnelList,
        }
    }
}

/// What came back from one GET to a source.
#[derive(Clone, Debug, PartialEq, Eq)]
pub enum SourceReply {
    /// A response, whatever its status, with the whole of its body.
    Response { status: u16, body: Vec<u8> },
    /// No response, or one whose body could not be read to its end.
    Unreachable { detail: String },
}

/// A source's reply as mathematics sees it.
pub enum ReplyView {
    Response { status: u16, body: Seq<u8> },
    Unreachable { detail: Seq<char> },
}

impl View for SourceReply {
    type V = ReplyView;

    open spec fn view(&self) -> ReplyView {
        match self {
            SourceReply::Response { status, body } => ReplyView::Response {
                status: *status,
                body: body@,
            },
            SourceReply::Unreachable { detail } => ReplyView::Unreachable { detail: detail@ },
        }
    }
}

/// The sources as mathematics sees them.
pub open spec fn sources_view(sources: Seq<TunnelSource>) -> Seq<SourceView> {
    sources.map_values(|source: TunnelSource| source@)
}

/// The replies as mathematics sees them.
pub open spec fn replies_view(replies: Seq<SourceReply>) -> Seq<ReplyView> {
    replies.map_values(|reply: SourceReply| reply@)
}

/// Whether `hyper::Uri` accepts `url` when it parses it.
pub uninterp spec fn is_valid_url(url: Seq<char>) -> bool;

/// Parses `url` as a `hyper::Uri` and says whether that succeeded. The
/// contract claims only that the answer depends on the text alone: it is
/// `is_valid_url` of it.
#[verifier::external_body]
pub(crate) fn url_parses(url: &str) -> (valid: bool)
    ensures
        valid == is_valid_url(url@),
{
    url.parse::<hyper::Uri>().is_ok()
}

/// The text of the member `key` of `value`, where it has one that is a text.
pub open spec fn text_member(value: JsonView, key: Seq<char>) -> Option<Seq<char>> {
    match value.member(key) {
        Some(member) => member.text(),
        None => None,
    }
}

/// The tunnel that an element of the `tunnels` array describes: its
/// `public_url` and its `config.addr`, where both are there as texts.
pub open spec fn tunnel_in(item: JsonView) -> Option<TunnelView> {
    let public_url = text_member(item, "public_url"@);
    let address = match item.member("config"@) {
        Some(config) => text_member(config, "addr"@),
        None => None,
    };
    if public_url is Some && address is Some {
        Some(TunnelView { public_url: public_url->0, local_address: address->0 })
    } else {
        None
    }
}

/// The tunnels that `items` describe, in their order; an element that
/// describes none is passed over.
pub open spec fn tunnels_among(items: Seq<JsonView>) -> Seq<TunnelView>
    decreases items.len(),
{
    if items.len() == 0 {
        Seq::empty()
    } else {
        let before = tunnels_among(items.drop_last());
        match tunnel_in(items.last()) {
            Some(tunnel) => before.push(tunnel),
            None => before,
        }
    }
}

/// The tunnels that a document lists under `tunnels`, where that is an array.
pub open spec fn listed(document: JsonView) -> Option<Seq<TunnelView>> {
    match document.member("tunnels"@) {
        Some(JsonView::List(items)) => Some(tunnels_among(items)),
        _ => None,
    }
}

/// What a response body yields: its tunnels, or why it has none to give.
pub open spec fn listing(body: Seq<u8>) -> Result<Seq<TunnelView>, DiscoveryErrorView> {
    match json_document(body) {
        None => Err(DiscoveryErrorView::NotJson),
        Some(document) => match listed(document) {
            Some(tunnels) => Ok(tunnels),
            None => Err(DiscoveryErrorView::NoTunnelList),
        },
    }
}

/// The services after `tunnel` was seen: bound anew where the port of its
/// address is in the table, unchanged where it is not.
pub open spec fn record(table: Seq<IdentityView>, services: Services, tunnel: TunnelView)
    -> Services {
    match lookup(table, port_of(tunnel.local_address)) {
        Some(name) => services.insert(name, tunnel.public_url),
        None => services,
    }
}

/// The services after all of `tunnels` were seen, first to last.
pub open spec fn record_all(
    table: Seq<IdentityView>,
    services: Services,
    tunnels: Seq<TunnelView>,
) -> Services
    decreases tunnels.len(),
{
    if tunnels.len() == 0 {
        services
    } else {
        record(table, record_all(table, services, tunnels.drop_last()), tunnels.last())
    }
}

/// Whether a status is one of success: 200 to 299.
pub open spec fn status_ok(status: u16) -> bool {
    200 <= status < 300
}

/// What a reply yields: the tunnels of a successful response, or the error.
pub open spec fn reply_listing(reply: ReplyView) -> Result<Seq<TunnelView>, DiscoveryErrorView> {
    match reply {
        ReplyView::Unreachable { detail } => Err(DiscoveryErrorView::Unreachable { detail }),
        ReplyView::Response { status, body } => if status_ok(status) {
            listing(body)
        } else {
            Err(DiscoveryErrorView::Refused { status })
        },
    }
}

/// The services after a source's reply: with its tunnels recorded, or as
/// they were where the reply yields none.
pub open spec fn after_reply(table: Seq<IdentityView>, services: Services, reply: ReplyView)
    -> Services {
    match reply_listing(reply) {
        Ok(tunnels) => record_all(table, services, tunnels),
        Err(_) => services,
    }
}

/// The services after the replies of all sources, first to last.
pub open spec fn after_replies(
    table: Seq<IdentityView>,
    services: Services,
    replies: Seq<ReplyView>,
) -> Services
    decreases replies.len(),
{
    if replies.len() == 0 {
        services
    } else {
        after_reply(table, after_replies(table, services, replies.drop_last()), replies.last())
    }
}

/// What a run discovers from the replies of its sources.
pub open spec fn discovered(table: Seq<IdentityView>, replies: Seq<ReplyView>) -> Services {
    after_replies(table, Services::empty(), replies)
}

/// The tunnels of all replies that yield some, first reply to last.
pub open spec fn tunnels_heard(replies: Seq<ReplyView>) -> Seq<TunnelView>
    decreases replies.len(),
{
    if replies.len() == 0 {
        Seq::empty()
    } else {
        tunnels_heard(replies.drop_last()) + match reply_listing(replies.last()) {
            Ok(tunnels) => tunnels,
            Err(_) => Seq::empty(),
        }
    }
}

/// A tunnel is recorded if and only if the port of its address is, to the
/// character, the port of a row of the table; it then binds that row's name.
pub proof fn lemma_recorded_iff_port_known(
    table: Seq<IdentityView>,
    services: Services,
    tunnel: TunnelView,
)
    requires
        distinct_ports(table),
    ensures
        (forall|i: int| 0 <= i < table.len() ==> (#[trigger] table[i]).port != port_of(
            tunnel.local_address,
        )) ==> record(table, services, tunnel) == services,
        forall|i: int|
            0 <= i < table.len() && (#[trigger] table[i]).port == port_of(tunnel.local_address)
                ==> record(table, services, tunnel) == services.insert(
                table[i].name,
                tunnel.public_url,
            ),
{
    lemma_lookup_exact(table, port_of(tunnel.local_address));
}

/// The names that are bound after a list of tunnels are those that were
/// bound before and those that the table gives to the port of some tunnel.
pub proof fn lemma_bound_names(
    table: Seq<IdentityView>,
    services: Services,
    tunnels: Seq<TunnelView>,
    name: Seq<char>,
)
    ensures
        record_all(table, services, tunnels).urls.contains_key(name) <==> (
        services.urls.contains_key(name) || exists|k: int|
            0 <= k < tunnels.len() && lookup(
                table,
                port_of((#[trigger] tunnels[k]).local_address),
            ) == Some(name)),
    decreases tunnels.len(),
{
    if tunnels.len() > 0 {
        let front = tunnels.drop_last();
        lemma_bound_names(table, services, front, name);
        if exists|k: int|
            0 <= k < front.len() && lookup(table, port_of((#[trigger] front[k]).local_address))
                == Some(name) {
            let k = choose|k: int|
                0 <= k < front.len() && lookup(
                    table,
                    port_of((#[trigger] front[k]).local_address),
                ) == Some(name);
            assert(tunnels[k] == front[k]);
        }
        if exists|k: int|
            0 <= k < tunnels.len() && lookup(
                table,
                port_of((#[trigger] tunnels[k]).local_address),
            ) == Some(name) {
            let k = choose|k: int|
                0 <= k < tunnels.len() && lookup(
                    table,
                    port_of((#[trigger] tunnels[k]).local_address),
                ) == Some(name);
            if k < front.len() {
                assert(tunnels[k] == front[k]);
            }
        }
    }
}

/// Recording tunnels keeps the services well formed.
pub proof fn lemma_record_all_wf(
    table: Seq<IdentityView>,
    services: Services,
    tunnels: Seq<TunnelView>,
)
    requires
        services.wf(),
    ensures
        record_all(table, services, tunnels).wf(),
    decreases tunnels.len(),
{
    if tunnels.len() > 0 {
        let before = record_all(table, services, tunnels.drop_last());
        lemma_record_all_wf(table, services, tunnels.drop_last());
        match lookup(table, port_of(tunnels.last().local_address)) {
            Some(name) => lemma_insert_wf(before, name, tunnels.last().public_url),
            None => {},
        }
    }
}

/// Of the tunnels that resolve to one service, the last decides its URL.
pub proof fn lemma_last_tunnel_decides(
    table: Seq<IdentityView>,
    services: Services,
    tunnels: Seq<TunnelView>,
    last: int,
    name: Seq<char>,
)
    requires
        0 <= last < tunnels.len(),
        lookup(table, port_of(tunnels[last].local_address)) == Some(name),
        forall|k: int|
            last < k < tunnels.len() ==> lookup(
                table,
                port_of((#[trigger] tunnels[k]).local_address),
            ) != Some(name),
    ensures
        record_all(table, services, tunnels).urls.contains_key(name),
        record_all(table, services, tunnels).urls[name] == tunnels[last].public_url,
    decreases tunnels.len(),
{
    if last < tunnels.len() - 1 {
        let front = tunnels.drop_last();
        assert(front[last] == tunnels[last]);
        assert forall|k: int| last < k < front.len() implies lookup(
            table,
            port_of((#[trigger] front[k]).local_address),
        ) != Some(name) by {
            assert(front[k] == tunnels[k]);
        }
        lemma_last_tunnel_decides(table, services, front, last, name);
        assert(tunnels.last() == tunnels[tunnels.len() - 1]);
    }
}

/// Recording one list of tunnels after another is recording the two as one.
pub proof fn lemma_record_all_concat(
    table: Seq<IdentityView>,
    services: Services,
    first: Seq<TunnelView>,
    second: Seq<TunnelView>,
)
    ensures
        record_all(table, services, first + second) == record_all(
            table,
            record_all(table, services, first),
            second,
        ),
    decreases second.len(),
{
    if second.len() == 0 {
        assert(first + second == first);
    } else {
        lemma_record_all_concat(table, services, first, second.drop_last());
        assert((first + second).drop_last() == first + second.drop_last());
        assert((first + second).last() == second.last());
    }
}

/// Across sources as within one: the services after the replies are those
/// after the tunnels of all replies, in the order of the sources and, within
/// a source, in the order of its list.
pub proof fn lemma_replies_as_tunnels(
    table: Seq<IdentityView>,
    services: Services,
    replies: Seq<ReplyView>,
)
    ensures
        after_replies(table, services, replies) == record_all(
            table,
            services,
            tunnels_heard(replies),
        ),
    decreases replies.len(),
{
    if replies.len() > 0 {
        let front = replies.drop_last();
        lemma_replies_as_tunnels(table, services, front);
        match reply_listing(replies.last()) {
            Ok(tunnels) => {
                lemma_record_all_concat(table, services, tunnels_heard(front), tunnels);
            },
            Err(_) => {
                assert(tunnels_heard(front) + Seq::<TunnelView>::empty() == tunnels_heard(front));
            },
        }
    }
}

/// A source that cannot be reached, or that answers with a refusal or with
/// something that is no tunnel list, changes nothing for the others: the
/// outcome is what it would be had that source not been asked.
pub proof fn lemma_failed_source_is_isolated(
    table: Seq<IdentityView>,
    services: Services,
    replies: Seq<ReplyView>,
    failed: int,
)
    requires
        0 <= failed < replies.len(),
        reply_listing(replies[failed]) is Err,
    ensures
        after_replies(table, services, replies) == after_replies(
            table,
            services,
            replies.remove(failed),
        ),
    decreases replies.len(),
{
    if failed == replies.len() - 1 {
        assert(replies.remove(failed) == replies.drop_last());
    } else {
        let front = replies.drop_last();
        assert(front[failed] == replies[failed]);
        lemma_failed_source_is_isolated(table, services, front, failed);
        assert(replies.remove(failed).drop_last() == front.remove(failed));
        assert(replies.remove(failed).last() == replies.last());
    }
}

/// The text of the member `key`, where `value` has one that is a text.
fn text_of_member<'a>(value: &'a Json, key: &str) -> (found: Option<&'a str>)
    ensures
        found matches Some(text) ==> text_member(value@, key@) == Some(text@),
        found is None ==> text_member(value@, key@) is None,
{
    match value.member(key) {
        Some(member) => member.text(),
        None => None,
    }
}

/// Reads one element of the `tunnels` array.
pub fn tunnel_of(item: &Json) -> (found: Option<RawTunnel>)
    ensures
        found matches Some(tunnel) ==> tunnel_in(item@) == Some(tunnel@),
        found is None ==> tunnel_in(item@) is None,
{
    let public_url = text_of_member(item, "public_url");
    let address = match item.member("config") {
        Some(config) => text_of_member(config, "addr"),
        None => None,
    };
    match (public_url, address) {
        (Some(public_url), Some(address)) => Some(
            RawTunnel {
                public_url: String::from_str(public_url),
                local_address: String::from_str(address),
            },
        ),
        _ => None,
    }
}

/// Reads the tunnels out of a tunnel manager's document.
pub fn tunnels_in(document: &Json) -> (found: Option<Vec<RawTunnel>>)
    ensures
        found matches Some(tunnels) ==> listed(document@) == Some(tunnels_view(tunnels@)),
        found is None ==> listed(document@) is None,
{
    let items = match document.member("tunnels") {
        Some(member) => match member.items() {
            Some(items) => items,
            None => {
                return None;
            },
        },
        None => {
            return None;
        },
    };
    let ghost views = items_view(items@);
    proof {
        lemma_items_view(items@);
    }
    let mut tunnels: Vec<RawTunnel> = Vec::new();
    let mut i: usize = 0;
    assert(views.take(0) == Seq::<JsonView>::empty());
    while i < items.len()
        invariant
            i <= items.len(),
            views.len() == items@.len(),
            forall|k: int| 0 <= k < items@.len() ==> (#[trigger] views[k]) == items@[k]@,
            tunnels_view(tunnels@) == tunnels_among(views.take(i as int)),
        decreases items.len() - i,
    {
        proof {
            let grown = views.take(i + 1);
            assert(grown.drop_last() == views.take(i as int));
            assert(grown.last() == items@[i as int]@);
        }
        let ghost before = tunnels_view(tunnels@);
        match tunnel_of(&items[i]) {
            Some(tunnel) => {
                tunnels.push(tunnel);
                assert(tunnels_view(tunnels@) == before.push(tunnel@));
            },
            None => {},
        }
        i = i + 1;
    }
    assert(views.take(i as int) == views);
    Some(tunnels)
}

/// Reads the tunnels out of a response body.
pub fn read_listing(body: &[u8]) -> (read: Result<Vec<RawTunnel>, DiscoveryError>)
    ensures
        read matches Ok(tunnels) ==> listing(body@) == Ok::<_, DiscoveryErrorView>(
            tunnels_view(tunnels@),
        ),
        read matches Err(error) ==> listing(body@) == Err::<Seq<TunnelView>, _>(error@),
{
    match parse_document(body) {
        None => Err(DiscoveryError::NotJson),
        Some(document) => match tunnels_in(&document) {
            Some(tunnels) => Ok(tunnels),
            None => Err(DiscoveryError::NoTunnelList),
        },
    }
}

/// Records the tunnels, first to last: each one whose port the table knows
/// binds its service to its public URL, and the last such tunnel of a
/// service decides.
pub fn record_tunnels(table: &PortTable, services: &mut ServiceMap, tunnels: &Vec<RawTunnel>)
    ensures
        final(services)@ == record_all(table@, old(services)@, tunnels_view(tunnels@)),
{
    let ghost start = services@;
    let ghost views = tunnels_view(tunnels@);
    let mut i: usize = 0;
    assert(views.take(0) == Seq::<TunnelView>::empty());
    while i < tunnels.len()
        invariant
            i <= tunnels.len(),
            views == tunnels_view(tunnels@),
            services@ == record_all(table@, start, views.take(i as int)),
        decreases tunnels.len() - i,
    {
        proof {
            let grown = views.take(i + 1);
            assert(grown.drop_last() == views.take(i as int));
            assert(grown.last() == tunnels@[i as int]@);
        }
        let port = extract_port(tunnels[i].local_address.as_str());
        match table.resolve(port.as_str()) {
            Some(name) => {
                services.insert(String::from_str(name), tunnels[i].public_url.clone());
            },
            None => {},
        }
        i = i + 1;
    }
    assert(views.take(i as int) == views);
}

/// Whether a status is one of success.
pub fn is_success(status: u16) -> (ok: bool)
    ensures
        ok == status_ok(status),
{
    200 <= status && status < 300
}

/// Takes in what a source answered: records the tunnels of a successful
/// response, and otherwise leaves the services as they were and says why.
pub fn absorb_reply(table: &PortTable, services: &mut ServiceMap, reply: &SourceReply) -> (taken:
    Result<(), DiscoveryError>)
    ensures
        final(services)@ == after_reply(table@, old(services)@, reply@),
        taken is Ok <==> reply_listing(reply@) is Ok,
        taken matches Err(error) ==> reply_listing(reply@) == Err::<Seq<TunnelView>, _>(error@),
{
    match reply {
        SourceReply::Unreachable { detail } => Err(
            DiscoveryError::Unreachable { detail: detail.clone() },
        ),
        SourceReply::Response { status, body } => {
            if is_success(*status) {
                match read_listing(body.as_slice()) {
                    Ok(tunnels) => {
                        record_tunnels(table, services, &tunnels);
                        Ok(())
                    },
                    Err(error) => Err(error),
                }
            } else {
                Err(DiscoveryError::Refused { status: *status })
            }
        },
    }
}

/// Discovers the services from what each source answered, the sources in
/// their configured order. A source whose reply yields no tunnels adds
/// nothing and takes nothing away.
pub fn discover(table: &PortTable, replies: &Vec<SourceReply>) -> (services: ServiceMap)
    ensures
        services@ == discovered(table@, replies_view(replies@)),
{
    let ghost views = replies_view(replies@);
    let mut services = ServiceMap::new();
    let mut i: usize = 0;
    assert(views.take(0) == Seq::<ReplyView>::empty());
    while i < replies.len()
        invariant
            i <= replies.len(),
            views == replies_view(replies@),
            services@ == discovered(table@, views.take(i as int)),
        decreases replies.len() - i,
    {
        proof {
            let grown = views.take(i + 1);
            assert(grown.drop_last() == views.take(i as int));
            assert(grown.last() == replies@[i as int]@);
        }
        let _ = absorb_reply(table, &mut services, &replies[i]);
        i = i + 1;
    }
    assert(views.take(i as int) == views);
    services
}

} // verus!
