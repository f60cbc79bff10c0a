//! The assembled proxy configuration: an ordered list of inbounds, one of
//! which carries the client list, plus routing rules and opaque extension
//! payloads carried as pre-rendered JSON text. The configuration is written
//! as numerically prefixed fragment files that the consuming service merges
//! in lexical filename order, so the fragment holding the priority (API)
//! routing rule must sort strictly before the fragment holding the general
//! rules and the client-bearing inbound.

use vstd::prelude::*;

use crate::jsontext::{enc_str, write_lit, write_quoted_str};
use crate::text::{chars_of, contains_seq, lex_lt, string_of};

verus! {

/// The fixed protocol-flow tag attached to every client credential.
pub open spec fn flow_tag() -> Seq<char> {
    "xtls-rprx-vision"@
}

/// One provisioned end-user identity.
pub struct Client {
    pub id: String,
    pub flow: String,
}

/// The mathematical content of a [`Client`].
#[verifier::ext_equal]
pub struct ClientV {
    pub id: Seq<char>,
    pub flow: Seq<char>,
}

impl View for Client {
    type V = ClientV;

    open spec fn view(&self) -> ClientV {
        ClientV { id: self.id@, flow: self.flow@ }
    }
}

impl Client {
    /// A client with the given identifier and the fixed flow tag.
    pub fn new(id: &str) -> (c: Client)
        ensures
            c@.id == id@,
            c@.flow == flow_tag(),
    {
        Client { id: id.to_owned(), flow: String::from_str("xtls-rprx-vision") }
    }

    /// The protocol-flow tag.
    pub fn flow(&self) -> (r: &String)
        ensures
            r@ == self@.flow,
    {
        &self.flow
    }
}

/// One service-side listener. The typed core is the tag and the client
/// list; everything else the consuming service understands is carried as
/// pre-rendered JSON text spliced in at serialization time.
pub struct Inbound {
    pub tag: String,
    pub clients: Vec<Client>,
    pub settings_extra: String,
    pub extra: String,
}

#[verifier::ext_equal]
pub struct InboundV {
    pub tag: Seq<char>,
    pub clients: Seq<ClientV>,
    pub settings_extra: Seq<char>,
    pub extra: Seq<char>,
}

impl View for Inbound {
    type V = InboundV;

    open spec fn view(&self) -> InboundV {
        InboundV {
            tag: self.tag@,
            clients: Seq::new(self.clients@.len(), |i: int| self.clients@[i]@),
            settings_extra: self.settings_extra@,
            extra: self.extra@,
        }
    }
}

/// The assembled configuration.
pub struct XrayConfig {
    api: Option<String>,
    dns: String,
    domain_strategy: String,
    rules: Vec<String>,
    inbounds: Vec<Inbound>,
    outbounds: String,
    inbound_with_clients_index: usize,
}

#[verifier::ext_equal]
pub struct XrayConfigV {
    pub api: Option<Seq<char>>,
    pub dns: Seq<char>,
    pub domain_strategy: Seq<char>,
    pub rules: Seq<Seq<char>>,
    pub inbounds: Seq<InboundV>,
    pub outbounds: Seq<char>,
    pub idx: int,
}

impl View for XrayConfig {
    type V = XrayConfigV;

    closed spec fn view(&self) -> XrayConfigV {
        XrayConfigV {
            api: match self.api {
                Option::None => Option::None,
                Option::Some(ref a) => Option::Some(a@),
            },
            dns: self.dns@,
            domain_strategy: self.domain_strategy@,
            rules: Seq::new(self.rules@.len(), |i: int| self.rules@[i]@),
            inbounds: Seq::new(self.inbounds@.len(), |i: int| self.inbounds@[i]@),
            outbounds: self.outbounds@,
            idx: self.inbound_with_clients_index as int,
        }
    }
}

/// Exactly one inbound carries the client list, and the index names it.
pub open spec fn wf(c: XrayConfigV) -> bool {
    0 <= c.idx < c.inbounds.len()
}

/// The client list of the client-bearing inbound.
pub open spec fn users_view(c: XrayConfigV) -> Seq<ClientV> {
    c.inbounds[c.idx].clients
}

/// Everything of the configuration except the client list is the same.
pub open spec fn same_but_users(a: XrayConfigV, b: XrayConfigV) -> bool {
    &&& a.api == b.api
    &&& a.dns == b.dns
    &&& a.domain_strategy == b.domain_strategy
    &&& a.rules == b.rules
    &&& a.outbounds == b.outbounds
    &&& a.idx == b.idx
    &&& a.inbounds.len() == b.inbounds.len()
    &&& forall|i: int|
        0 <= i < a.inbounds.len() && i != a.idx ==> a.inbounds[i] == #[trigger] b.inbounds[i]
    &&& a.inbounds[a.idx].tag == b.inbounds[b.idx].tag
    &&& a.inbounds[a.idx].settings_extra == b.inbounds[b.idx].settings_extra
    &&& a.inbounds[a.idx].extra == b.inbounds[b.idx].extra
}

/// The routing rule that sends management-API traffic to the API backend:
/// the priority rule that must be merged before all general rules.
pub open spec fn api_rule_text() -> Seq<char> {
    "{\"inboundTag\":[\"api\"],\"outboundTag\":\"api\"}"@
}

pub open spec fn block_private_rule_text() -> Seq<char> {
    "{\"ip\":[\"geoip:private\"],\"outboundTag\":\"block\"}"@
}

pub open spec fn block_cn_rule_text() -> Seq<char> {
    "{\"ip\":[\"geoip:cn\"],\"outboundTag\":\"block\"}"@
}

pub open spec fn block_ads_rule_text() -> Seq<char> {
    "{\"domain\":[\"geosite:category-ads-all\"],\"outboundTag\":\"block\"}"@
}

/// The general-purpose rules, in merge order.
pub open spec fn general_rules() -> Seq<Seq<char>> {
    seq![block_private_rule_text(), block_cn_rule_text(), block_ads_rule_text()]
}

/// The full rule list of a configuration: the priority API rule first when
/// the API is enabled, then the general rules.
pub open spec fn rules_of(api: bool) -> Seq<Seq<char>> {
    if api {
        seq![api_rule_text()] + general_rules()
    } else {
        general_rules()
    }
}

/// The settings payload of the listener the clients connect through: the
/// TLS certificate and key the certificate step installed.
pub open spec fn vless_extra_text(cert_dir: Seq<char>) -> Seq<char> {
    "\"port\":443,\"protocol\":\"vless\",\"streamSettings\":{\"network\":\"tcp\",\"security\":\"tls\",\"tlsSettings\":{\"alpn\":\"http/1.1\",\"certificates\":[{\"certificateFile\":"@
        + enc_str(cert_dir + "/xray.crt"@) + ",\"keyFile\":"@ + enc_str(cert_dir + "/xray.key"@)
        + "}]}}"@
}

pub open spec fn api_inbound_v(api_port: u32) -> InboundV {
    InboundV {
        tag: "api"@,
        clients: Seq::empty(),
        settings_extra: "\"address\":\"127.0.0.1\""@,
        extra: "\"listen\":\"127.0.0.1\",\"port\":"@ + crate::text::dec_str(api_port as int)
            + ",\"protocol\":\"dokodemo-door\""@,
    }
}

pub open spec fn vless_inbound_v(cert_dir: Seq<char>) -> InboundV {
    InboundV {
        tag: "vless"@,
        clients: Seq::empty(),
        settings_extra: "\"decryption\":\"none\",\"fallbacks\":[{\"dest\":8080}]"@,
        extra: vless_extra_text(cert_dir),
    }
}

fn vless_extra_exec(cert_dir: &str) -> (r: String)
    ensures
        r@ == vless_extra_text(cert_dir@),
{
    let mut out: Vec<char> = Vec::new();
    write_lit(
        &mut out,
        "\"port\":443,\"protocol\":\"vless\",\"streamSettings\":{\"network\":\"tcp\",\"security\":\"tls\",\"tlsSettings\":{\"alpn\":\"http/1.1\",\"certificates\":[{\"certificateFile\":",
    );
    let mut crt = chars_of(cert_dir);
    let mut key = crt.clone();
    let mut tail_crt = chars_of("/xray.crt");
    let mut tail_key = chars_of("/xray.key");
    crt.append(&mut tail_crt);
    key.append(&mut tail_key);
    crate::jsontext::write_quoted(&mut out, &crt);
    write_lit(&mut out, ",\"keyFile\":");
    crate::jsontext::write_quoted(&mut out, &key);
    write_lit(&mut out, "}]}}");
    proof {
        assert(crt@ == cert_dir@ + "/xray.crt"@);
        assert(key@ == cert_dir@ + "/xray.key"@);
        assert(out@ =~= vless_extra_text(cert_dir@));
    }
    string_of(&out)
}

impl XrayConfig {
    /// The configuration skeleton: the client-bearing `vless` inbound (and,
    /// when the API is enabled, the API inbound, service and priority
    /// routing rule ahead of the general rules), with an empty client list.
    pub fn new(api: bool, api_port: u32, cert_dir: &str) -> (r: XrayConfig)
        ensures
            wf(r@),
            users_view(r@).len() == 0,
            r@.rules == rules_of(api),
            r@.api is Some <==> api,
            r@.idx == (if api {
                1int
            } else {
                0int
            }),
            r@.inbounds.len() == (if api {
                2int
            } else {
                1int
            }),
            api ==> r@.inbounds[0] == api_inbound_v(api_port),
            r@.inbounds[r@.idx] == vless_inbound_v(cert_dir@),
            r@.dns == dns_text(),
            r@.outbounds == outbounds_text(),
            r@.domain_strategy == "IPIfNonMatch"@,
            api ==> r@.api == Option::Some(api_services_text()),
    {
        let mut rules: Vec<String> = Vec::new();
        if api {
            rules.push("{\"inboundTag\":[\"api\"],\"outboundTag\":\"api\"}".to_owned());
        }
        rules.push("{\"ip\":[\"geoip:private\"],\"outboundTag\":\"block\"}".to_owned());
        rules.push("{\"ip\":[\"geoip:cn\"],\"outboundTag\":\"block\"}".to_owned());
        rules.push("{\"domain\":[\"geosite:category-ads-all\"],\"outboundTag\":\"block\"}"
            .to_owned());
        let mut inbounds: Vec<Inbound> = Vec::new();
        if api {
            let mut port_extra: Vec<char> = Vec::new();
            write_lit(&mut port_extra, "\"listen\":\"127.0.0.1\",\"port\":");
            crate::jsontext::write_u64(&mut port_extra, api_port as u64);
            write_lit(&mut port_extra, ",\"protocol\":\"dokodemo-door\"");
            inbounds.push(
                Inbound {
                    tag: "api".to_owned(),
                    clients: Vec::new(),
                    settings_extra: "\"address\":\"127.0.0.1\"".to_owned(),
                    extra: string_of(&port_extra),
                },
            );
        }
        inbounds.push(
            Inbound {
                tag: "vless".to_owned(),
                clients: Vec::new(),
                settings_extra: "\"decryption\":\"none\",\"fallbacks\":[{\"dest\":8080}]"
                    .to_owned(),
                extra: vless_extra_exec(cert_dir),
            },
        );
        let r = XrayConfig {
            api: if api {
                Some(
                    "{\"tag\":\"api\",\"services\":[\"HandlerService\",\"ReflectionService\"]}"
                        .to_owned(),
                )
            } else {
                None
            },
            dns: "{\"servers\":[\"https+local://1.1.1.1/dns-query\",\"localhost\"]}".to_owned(),
            domain_strategy: "IPIfNonMatch".to_owned(),
            rules,
            inbounds,
            outbounds:
                "[{\"tag\":\"direct\",\"protocol\":\"freedom\"},{\"tag\":\"block\",\"protocol\":\"blackhole\"}]"
                .to_owned(),
            inbound_with_clients_index: if api {
                1
            } else {
                0
            },
        };
        proof {
            assert(r@.rules =~= rules_of(api));
            if api {
                assert(r@.inbounds[0].clients =~= Seq::<ClientV>::empty());
                assert(r@.inbounds[0] =~= api_inbound_v(api_port));
            }
            assert(r@.inbounds[r@.idx].clients =~= Seq::<ClientV>::empty());
            assert(r@.inbounds[r@.idx] =~= vless_inbound_v(cert_dir@));
        }
        r
    }

    /// The provisioned clients.
    pub fn users(&self) -> (r: &Vec<Client>)
        requires
            wf(self@),
        ensures
            Seq::new(r@.len(), |i: int| r@[i]@) == users_view(self@),
    {
        let r = &self.inbounds[self.inbound_with_clients_index].clients;
        proof {
            assert(Seq::new(r@.len(), |i: int| r@[i]@) =~= users_view(self@));
        }
        r
    }

    /// Pre-allocates space for that many more clients; the configuration
    /// itself does not change.
    pub fn reserve_users_space(&mut self, count: usize)
        requires
            wf(old(self)@),
        ensures
            final(self)@ == old(self)@,
    {
        let i = self.inbound_with_clients_index;
        let inbound = &mut self.inbounds[i];
        inbound.clients.reserve(count);
        proof {
            assert(self@ =~~= old(self)@);
        }
    }

    /// Appends one client with a caller-supplied identifier and the fixed
    /// flow tag. No deduplication: the same identifier twice gives two
    /// entries.
    pub fn add_user_with_id(&mut self, id: &str)
        requires
            wf(old(self)@),
        ensures
            wf(final(self)@),
            same_but_users(old(self)@, final(self)@),
            users_view(final(self)@) == users_view(old(self)@).push(
                ClientV { id: id@, flow: flow_tag() },
            ),
    {
        let i = self.inbound_with_clients_index;
        let client = Client::new(id);
        let inbound = &mut self.inbounds[i];
        inbound.clients.push(client);
        proof {
            assert(users_view(self@) =~= users_view(old(self)@).push(
                ClientV { id: id@, flow: flow_tag() },
            ));
            assert(forall|k: int|
                0 <= k < old(self)@.inbounds.len() && k != old(self)@.idx
                    ==> old(self)@.inbounds[k] == #[trigger] self@.inbounds[k]);
        }
    }

    /// Appends `count` freshly generated clients, each with a random
    /// identifier and the fixed flow tag.
    pub fn add_users(&mut self, count: usize)
        requires
            wf(old(self)@),
            users_view(old(self)@).len() + count <= usize::MAX,
        ensures
            wf(final(self)@),
            same_but_users(old(self)@, final(self)@),
            users_view(final(self)@).len() == users_view(old(self)@).len() + count,
            forall|k: int|
                0 <= k < users_view(old(self)@).len() ==> users_view(final(self)@)[k]
                    == #[trigger] users_view(old(self)@)[k],
            forall|k: int|
                users_view(old(self)@).len() <= k < users_view(final(self)@).len() ==> (
                #[trigger] users_view(final(self)@)[k]).flow == flow_tag() && users_view(
                    final(self)@,
                )[k].id.len() == 36,
    {
        self.reserve_users_space(count);
        let mut n: usize = 0;
        while n < count
            invariant
                wf(self@),
                n <= count,
                users_view(old(self)@).len() + count <= usize::MAX,
                same_but_users(old(self)@, self@),
                users_view(self@).len() == users_view(old(self)@).len() + n,
                forall|k: int|
                    0 <= k < users_view(old(self)@).len() ==> users_view(self@)[k]
                        == #[trigger] users_view(old(self)@)[k],
                forall|k: int|
                    users_view(old(self)@).len() <= k < users_view(self@).len() ==> (
                    #[trigger] users_view(self@)[k]).flow == flow_tag() && users_view(self@)[k]
                        .id.len() == 36,
            decreases count - n,
        {
            let id = crate::outside::fresh_client_id();
            self.add_user_with_id(id.as_str());
            n = n + 1;
        }
    }

    /// Populates the client list from the arguments: every explicit
    /// identifier in the order supplied when any are given, and only then;
    /// otherwise the requested number of fresh random clients.
    pub fn add_configured_users(&mut self, args: &crate::install::input_xray::Install)
        requires
            wf(old(self)@),
            users_view(old(self)@).len() + args@.add_user_ids.len() <= usize::MAX,
            users_view(old(self)@).len() + args@.add_users_count <= usize::MAX,
        ensures
            wf(final(self)@),
            same_but_users(old(self)@, final(self)@),
            args@.add_user_ids.len() > 0 ==> users_view(final(self)@) == users_view(old(self)@)
                + Seq::new(
                args@.add_user_ids.len(),
                |i: int| ClientV { id: args@.add_user_ids[i], flow: flow_tag() },
            ),
            args@.add_user_ids.len() == 0 ==> {
                &&& users_view(final(self)@).len() == users_view(old(self)@).len()
                    + args@.add_users_count
                &&& forall|k: int|
                    0 <= k < users_view(old(self)@).len() ==> users_view(final(self)@)[k]
                        == #[trigger] users_view(old(self)@)[k]
                &&& forall|k: int|
                    users_view(old(self)@).len() <= k < users_view(final(self)@).len() ==> (
                    #[trigger] users_view(final(self)@)[k]).flow == flow_tag() && users_view(
                        final(self)@,
                    )[k].id.len() == 36
            },
    {
        if self.explicit_ids_given(args) {
            self.reserve_users_space(args.add_user_ids.len());
            let mut i: usize = 0;
            while i < args.add_user_ids.len()
                invariant
                    wf(self@),
                    i <= args@.add_user_ids.len(),
                    users_view(old(self)@).len() + args@.add_user_ids.len() <= usize::MAX,
                    same_but_users(old(self)@, self@),
                    users_view(self@) == users_view(old(self)@) + Seq::new(
                        i as nat,
                        |k: int| ClientV { id: args@.add_user_ids[k], flow: flow_tag() },
                    ),
                decreases args@.add_user_ids.len() - i,
            {
                self.add_user_with_id(args.add_user_ids[i].as_str());
                i = i + 1;
                proof {
                    assert(users_view(self@) =~= users_view(old(self)@) + Seq::new(
                        i as nat,
                        |k: int| ClientV { id: args@.add_user_ids[k], flow: flow_tag() },
                    ));
                }
            }
        } else {
            self.add_users(args.add_users_count);
        }
    }

    fn explicit_ids_given(&self, args: &crate::install::input_xray::Install) -> (r: bool)
        ensures
            r == (args@.add_user_ids.len() > 0),
    {
        args.add_user_ids.len() > 0
    }
}

/// Raw JSON texts joined by commas.
pub open spec fn join_texts(items: Seq<Seq<char>>) -> Seq<char>
    decreases items.len(),
{
    if items.len() == 0 {
        Seq::empty()
    } else if items.len() == 1 {
        items[0]
    } else {
        items[0] + seq![','] + join_texts(items.drop_first())
    }
}

/// One client as configuration text.
pub open spec fn render_client(c: ClientV) -> Seq<char> {
    "{\"id\":"@ + enc_str(c.id) + ",\"flow\":"@ + enc_str(c.flow) + "}"@
}

pub open spec fn render_clients(cs: Seq<ClientV>) -> Seq<Seq<char>> {
    Seq::new(cs.len(), |i: int| render_client(cs[i]))
}

/// One inbound as configuration text. An empty client list is written as
/// absent, not as an empty list: the consumer treats presence as meaningful.
pub open spec fn render_inbound(ib: InboundV) -> Seq<char> {
    "{\"tag\":"@ + enc_str(ib.tag) + ",\"settings\":{"@ + (if ib.clients.len() == 0 {
        Seq::<char>::empty()
    } else {
        "\"clients\":["@ + join_texts(render_clients(ib.clients)) + "],"@
    }) + ib.settings_extra + "},"@ + ib.extra + "}"@
}

/// The routing fragment: the rule list in merge order, priority rule first.
pub open spec fn render_routing(c: XrayConfigV) -> Seq<char> {
    "{\"routing\":{\"domainStrategy\":"@ + enc_str(c.domain_strategy) + ",\"rules\":["@
        + join_texts(c.rules) + "]}}"@
}

/// The base fragment: API service block when enabled, DNS and outbounds.
pub open spec fn render_base(c: XrayConfigV) -> Seq<char> {
    "{"@ + (match c.api {
        Option::Some(a) => "\"api\":"@ + a + ","@,
        Option::None => Seq::<char>::empty(),
    }) + "\"dns\":"@ + c.dns + ",\"outbounds\":"@ + c.outbounds + "}"@
}

/// The main fragment: the inbounds, the client-bearing one among them.
pub open spec fn render_main(c: XrayConfigV) -> Seq<char> {
    "{\"inbounds\":["@ + join_texts(Seq::new(c.inbounds.len(), |i: int| render_inbound(c.inbounds[i])))
        + "]}"@
}

pub open spec fn routing_fragment_name() -> Seq<char> {
    "00-routing.json"@
}

pub open spec fn base_fragment_name() -> Seq<char> {
    "05-base.json"@
}

pub open spec fn main_fragment_name() -> Seq<char> {
    "10-main.json"@
}

/// One configuration fragment file: its filename decides its merge position.
pub struct Fragment {
    pub name: String,
    pub content: String,
}

/// The fragment filenames sort strictly in the order routing, base, main:
/// whatever carries a priority routing rule is merged before the general
/// rules and before the client-bearing inbound.
pub proof fn lemma_fragment_name_order()
    ensures
        lex_lt(routing_fragment_name(), base_fragment_name()),
        lex_lt(base_fragment_name(), main_fragment_name()),
        lex_lt(routing_fragment_name(), main_fragment_name()),
{
    reveal_strlit("00-routing.json");
    reveal_strlit("05-base.json");
    reveal_strlit("10-main.json");
    let r = routing_fragment_name();
    let b = base_fragment_name();
    let m = main_fragment_name();
    assert(r[0] == '0' && b[0] == '0' && m[0] == '1');
    assert(r.drop_first()[0] == '0' && b.drop_first()[0] == '5');
    assert(lex_lt(r.drop_first(), b.drop_first()));
    assert(lex_lt(r, b));
    assert(lex_lt(b, m));
    assert(lex_lt(r, m));
}

/// When the API is enabled, the priority API routing rule stands in the
/// routing fragment, whose filename sorts strictly before the fragments that
/// carry the general rules and the client inbound.
pub proof fn lemma_priority_rule_fragment_first(c: XrayConfigV)
    requires
        c.rules.len() > 0,
        c.rules[0] == api_rule_text(),
    ensures
        contains_seq(render_routing(c), api_rule_text()),
        lex_lt(routing_fragment_name(), base_fragment_name()),
        lex_lt(routing_fragment_name(), main_fragment_name()),
{
    lemma_fragment_name_order();
    let x = api_rule_text();
    crate::text::lemma_contains_self(x);
    let j = join_texts(c.rules);
    if c.rules.len() > 1 {
        assert(j == x + seq![','] + join_texts(c.rules.drop_first()));
        crate::text::lemma_contains_concat_left(x, seq![','], x);
        crate::text::lemma_contains_concat_left(x + seq![','], join_texts(c.rules.drop_first()), x);
    }
    assert(contains_seq(j, x));
    let pre = "{\"routing\":{\"domainStrategy\":"@ + enc_str(c.domain_strategy) + ",\"rules\":["@;
    crate::text::lemma_contains_concat_left(j, "]}}"@, x);
    crate::text::lemma_contains_concat_right(pre, j + "]}}"@, x);
    assert(render_routing(c) =~= pre + (j + "]}}"@));
}

fn write_texts_join(out: &mut Vec<char>, items: &Vec<String>, idx: usize)
    requires
        idx <= items@.len(),
    ensures
        final(out)@ == old(out)@ + join_texts(
            crate::jsontext::views_of_strings(items@).skip(idx as int),
        ),
    decreases items@.len() - idx,
{
    let ghost vs = crate::jsontext::views_of_strings(items@).skip(idx as int);
    if idx == items.len() {
        proof {
            assert(out@ + join_texts(vs) =~= out@);
        }
        return ;
    }
    let ghost base = out@;
    write_lit(out, items[idx].as_str());
    proof {
        assert(vs[0] == items@[idx as int]@);
    }
    if idx + 1 == items.len() {
        proof {
            assert(vs.len() == 1);
            assert(out@ =~= base + join_texts(vs));
        }
    } else {
        out.push(',');
        write_texts_join(out, items, idx + 1);
        proof {
            assert(vs.len() > 1);
            assert(vs.drop_first() =~= crate::jsontext::views_of_strings(items@).skip(
                idx as int + 1,
            ));
            assert(out@ =~= base + join_texts(vs));
        }
    }
}

fn write_clients_join(out: &mut Vec<char>, clients: &Vec<Client>, idx: usize)
    requires
        idx <= clients@.len(),
    ensures
        final(out)@ == old(out)@ + join_texts(
            render_clients(Seq::new(clients@.len(), |i: int| clients@[i]@)).skip(idx as int),
        ),
    decreases clients@.len() - idx,
{
    let ghost cs = Seq::new(clients@.len(), |i: int| clients@[i]@);
    let ghost vs = render_clients(cs).skip(idx as int);
    if idx == clients.len() {
        proof {
            assert(out@ + join_texts(vs) =~= out@);
        }
        return ;
    }
    let ghost base = out@;
    write_lit(out, "{\"id\":");
    write_quoted_str(out, clients[idx].id.as_str());
    write_lit(out, ",\"flow\":");
    write_quoted_str(out, clients[idx].flow.as_str());
    write_lit(out, "}");
    proof {
        assert(vs[0] == render_client(cs[idx as int]));
        assert(out@ =~= base + render_client(cs[idx as int]));
    }
    if idx + 1 == clients.len() {
        proof {
            assert(vs.len() == 1);
            assert(out@ =~= base + join_texts(vs));
        }
    } else {
        out.push(',');
        write_clients_join(out, clients, idx + 1);
        proof {
            assert(vs.len() > 1);
            assert(vs.drop_first() =~= render_clients(cs).skip(idx as int + 1));
            assert(out@ =~= base + join_texts(vs));
        }
    }
}

fn write_inbound(out: &mut Vec<char>, ib: &Inbound)
    ensures
        final(out)@ == old(out)@ + render_inbound(ib@),
{
    let ghost base = out@;
    write_lit(out, "{\"tag\":");
    write_quoted_str(out, ib.tag.as_str());
    write_lit(out, ",\"settings\":{");
    if ib.clients.len() > 0 {
        write_lit(out, "\"clients\":[");
        write_clients_join(out, &ib.clients, 0);
        write_lit(out, "],");
        proof {
            assert(render_clients(ib@.clients).skip(0) =~= render_clients(ib@.clients));
        }
    }
    write_lit(out, ib.settings_extra.as_str());
    write_lit(out, "},");
    write_lit(out, ib.extra.as_str());
    write_lit(out, "}");
    proof {
        assert(out@ =~= base + render_inbound(ib@));
    }
}

impl XrayConfig {
    /// The three fragment files, in the exact order and under the exact
    /// names the consuming service will merge them: routing first, then the
    /// base blocks, then the inbounds with the client list.
    pub fn render_fragments(&self) -> (r: Vec<Fragment>)
        requires
            wf(self@),
        ensures
            r@.len() == 3,
            r@[0].name@ == routing_fragment_name(),
            r@[1].name@ == base_fragment_name(),
            r@[2].name@ == main_fragment_name(),
            r@[0].content@ == render_routing(self@),
            r@[1].content@ == render_base(self@),
            r@[2].content@ == render_main(self@),
            lex_lt(r@[0].name@, r@[1].name@),
            lex_lt(r@[1].name@, r@[2].name@),
            lex_lt(r@[0].name@, r@[2].name@),
    {
        proof {
            lemma_fragment_name_order();
        }
        // Routing fragment.
        let mut routing: Vec<char> = Vec::new();
        write_lit(&mut routing, "{\"routing\":{\"domainStrategy\":");
        write_quoted_str(&mut routing, self.domain_strategy.as_str());
        write_lit(&mut routing, ",\"rules\":[");
        write_texts_join(&mut routing, &self.rules, 0);
        write_lit(&mut routing, "]}}");
        proof {
            assert(crate::jsontext::views_of_strings(self.rules@).skip(0)
                =~= crate::jsontext::views_of_strings(self.rules@));
            assert(crate::jsontext::views_of_strings(self.rules@) =~= self@.rules);
            assert(routing@ =~= render_routing(self@));
        }
        // Base fragment.
        let mut base: Vec<char> = Vec::new();
        write_lit(&mut base, "{");
        match &self.api {
            Some(a) => {
                write_lit(&mut base, "\"api\":");
                write_lit(&mut base, a.as_str());
                write_lit(&mut base, ",");
            },
            None => {},
        }
        write_lit(&mut base, "\"dns\":");
        write_lit(&mut base, self.dns.as_str());
        write_lit(&mut base, ",\"outbounds\":");
        write_lit(&mut base, self.outbounds.as_str());
        write_lit(&mut base, "}");
        proof {
            assert(base@ =~= render_base(self@));
        }
        // Main fragment.
        let mut main: Vec<char> = Vec::new();
        write_lit(&mut main, "{\"inbounds\":[");
        let ghost renders = Seq::new(self@.inbounds.len(), |i: int| render_inbound(self@.inbounds[i]));
        write_inbounds_join(&mut main, &self.inbounds, 0);
        write_lit(&mut main, "]}");
        proof {
            assert(Seq::new(self.inbounds@.len(), |i: int| render_inbound(self.inbounds@[i]@))
                =~= renders);
            assert(renders.skip(0) =~= renders);
            assert(main@ =~= render_main(self@));
        }
        let mut r: Vec<Fragment> = Vec::new();
        r.push(Fragment { name: "00-routing.json".to_owned(), content: string_of(&routing) });
        r.push(Fragment { name: "05-base.json".to_owned(), content: string_of(&base) });
        r.push(Fragment { name: "10-main.json".to_owned(), content: string_of(&main) });
        r
    }
}

fn write_inbounds_join(out: &mut Vec<char>, inbounds: &Vec<Inbound>, idx: usize)
    requires
        idx <= inbounds@.len(),
    ensures
        final(out)@ == old(out)@ + join_texts(
            Seq::new(inbounds@.len(), |i: int| render_inbound(inbounds@[i]@)).skip(idx as int),
        ),
    decreases inbounds@.len() - idx,
{
    let ghost vs = Seq::new(inbounds@.len(), |i: int| render_inbound(inbounds@[i]@)).skip(
        idx as int,
    );
    if idx == inbounds.len() {
        proof {
            assert(out@ + join_texts(vs) =~= out@);
        }
        return ;
    }
    let ghost base = out@;
    write_inbound(out, &inbounds[idx]);
    proof {
        assert(vs[0] == render_inbound(inbounds@[idx as int]@));
    }
    if idx + 1 == inbounds.len() {
        proof {
            assert(vs.len() == 1);
            assert(out@ =~= base + join_texts(vs));
        }
    } else {
        out.push(',');
        write_inbounds_join(out, inbounds, idx + 1);
        proof {
            assert(vs.len() > 1);
            assert(vs.drop_first() =~= Seq::new(
                inbounds@.len(),
                |i: int| render_inbound(inbounds@[i]@),
            ).skip(idx as int + 1));
            assert(out@ =~= base + join_texts(vs));
        }
    }
}

/// With explicit identifiers supplied and an empty starting list, the
/// assembled client list holds exactly the supplied identifiers, as many as
/// were supplied, in the order supplied, each under the fixed flow tag —
/// the requested count plays no part in it.
pub proof fn lemma_assembled_explicit_ids(ids: Seq<Seq<char>>, users: Seq<ClientV>)
    requires
        ids.len() >= 1,
        users == Seq::<ClientV>::empty() + Seq::new(
            ids.len(),
            |i: int| ClientV { id: ids[i], flow: flow_tag() },
        ),
    ensures
        users.len() == ids.len(),
        forall|j: int|
            0 <= j < ids.len() ==> (#[trigger] users[j]).id == ids[j] && users[j].flow
                == flow_tag(),
{
    assert(users =~= Seq::new(ids.len(), |i: int| ClientV { id: ids[i], flow: flow_tag() }));
}

/// With no explicit identifiers and an empty starting list, the assembled
/// client list has exactly the requested number of entries, each freshly
/// generated under the fixed flow tag and in the generated identifier shape.
pub proof fn lemma_assembled_fresh_count(count: usize, users: Seq<ClientV>)
    requires
        users.len() == Seq::<ClientV>::empty().len() + count,
        forall|k: int|
            Seq::<ClientV>::empty().len() <= k < users.len() ==> (#[trigger] users[k]).flow
                == flow_tag() && users[k].id.len() == 36,
    ensures
        users.len() == count,
        forall|k: int|
            0 <= k < users.len() ==> (#[trigger] users[k]).flow == flow_tag() && users[k].id.len()
                == 36,
{
}

/// The DNS servers block, carried as pre-rendered text.
pub open spec fn dns_text() -> Seq<char> {
    "{\"servers\":[\"https+local://1.1.1.1/dns-query\",\"localhost\"]}"@
}

/// The outbound definitions, carried as pre-rendered text.
pub open spec fn outbounds_text() -> Seq<char> {
    "[{\"tag\":\"direct\",\"protocol\":\"freedom\"},{\"tag\":\"block\",\"protocol\":\"blackhole\"}]"@
}

/// The API service block, present only when the API is enabled.
pub open spec fn api_services_text() -> Seq<char> {
    "{\"tag\":\"api\",\"services\":[\"HandlerService\",\"ReflectionService\"]}"@
}

} // verus!
