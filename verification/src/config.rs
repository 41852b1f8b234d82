//! The binding of this install to a LINE relay, and the addresses that follow from it.

use vstd::prelude::*;

use crate::text;
use crate::url;

verus! {

/// The relay that is used when neither the binding nor the environment names one.
pub const DEFAULT_SERVER_URL: &'static str = "https://line.thclaws.ai";

/// The environment variable that names a relay.
pub const SERVER_VARIABLE: &'static str = "THCLAWS_LINE_SERVER";

/// A binding, as it is kept on disk.
#[derive(Debug, Clone)]
pub struct LineConfig {
    /// HS256 JWT issued by the relay's `POST /pair`.
    pub binding_token: String,
    /// Override URL for the relay.
    pub server_url: Option<String>,
    /// LINE display name cached at pair time.
    pub display_name: Option<String>,
    pub picture_url: Option<String>,
    pub language: Option<String>,
}

/// What a binding holds.
pub struct LineConfigView {
    pub binding_token: Seq<char>,
    pub server_url: Option<Seq<char>>,
    pub display_name: Option<Seq<char>>,
    pub picture_url: Option<Seq<char>>,
    pub language: Option<Seq<char>>,
}

impl View for LineConfig {
    type V = LineConfigView;

    open spec fn view(&self) -> LineConfigView {
        LineConfigView {
            binding_token: self.binding_token@,
            server_url: text_of(self.server_url),
            display_name: text_of(self.display_name),
            picture_url: text_of(self.picture_url),
            language: text_of(self.language),
        }
    }
}

impl Default for LineConfig {
    fn default() -> (r: Self)
        ensures
            r.binding_token@ == Seq::<char>::empty(),
            r.server_url is None,
            r.display_name is None,
            r.picture_url is None,
            r.language is None,
    {
        LineConfig {
            binding_token: String::new(),
            server_url: None,
            display_name: None,
            picture_url: None,
            language: None,
        }
    }
}

/// The relay's address: the explicit one, else that of the environment unless it is blank, else
/// the default. Slashes at the end of the first two are dropped.
pub open spec fn relay_url(explicit: Option<Seq<char>>, environment: Option<Seq<char>>) -> Seq<
    char,
> {
    match (explicit, environment) {
        (Some(url), _) => text::trimmed_end_of(url, '/'),
        (None, Some(url)) if text::trimmed(url).len() > 0 => text::trimmed_end_of(url, '/'),
        _ => DEFAULT_SERVER_URL@,
    }
}

/// The scheme of the WebSocket that goes with a relay's address.
pub open spec fn ws_scheme(base: Seq<char>) -> Seq<char> {
    if "http://"@.is_prefix_of(base) {
        "ws://"@
    } else {
        "wss://"@
    }
}

/// A relay's address without its scheme.
pub open spec fn host(base: Seq<char>) -> Seq<char> {
    text::trimmed_start_of(text::trimmed_start_of(base, "https://"@), "http://"@)
}

/// The address of the WebSocket for `token`.
pub open spec fn ws_address(base: Seq<char>, token: Seq<char>) -> Seq<char> {
    ws_scheme(base) + host(base) + "/ws?token="@ + url::percent_encoded(token)
}

/// The address that a reply to `request_id` is posted to.
pub open spec fn reply_address(base: Seq<char>, request_id: Seq<char>) -> Seq<char> {
    base + "/reply/"@ + url::percent_encoded(request_id)
}

/// The characters of an optional string.
pub open spec fn text_of(s: Option<String>) -> Option<Seq<char>> {
    match s {
        Some(s) => Some(s@),
        None => None,
    }
}

/// The characters of an optional string slice.
pub open spec fn str_text_of(s: Option<&str>) -> Option<Seq<char>> {
    match s {
        Some(s) => Some(s@),
        None => None,
    }
}

impl LineConfig {
    /// The relay's address for this binding, when the environment names `environment`.
    pub open spec fn relay(&self, environment: Option<&str>) -> Seq<char> {
        relay_url(text_of(self.server_url), str_text_of(environment))
    }

    /// Resolves the relay's address. `environment` is the value of [`SERVER_VARIABLE`], where it
    /// is set.
    pub fn resolved_server_url(&self, environment: Option<&str>) -> (r: String)
        ensures
            r@ == self.relay(environment),
    {
        if let Some(url) = &self.server_url {
            return text::trim_end_matches(url.as_str(), '/');
        }
        if let Some(url) = environment {
            if !text::trim(url).as_str().is_empty() {
                return text::trim_end_matches(url, '/');
            }
        }
        DEFAULT_SERVER_URL.to_owned()
    }

    /// The `wss://…/ws?token=<jwt>` address that the WebSocket client opens.
    pub fn ws_url(&self, environment: Option<&str>) -> (r: String)
        ensures
            r@ == ws_address(self.relay(environment), self.binding_token@),
    {
        let base = self.resolved_server_url(environment);
        let mut out = if text::starts_with(base.as_str(), "http://") {
            "ws://".to_owned()
        } else {
            "wss://".to_owned()
        };
        let without_https = text::trim_start_matches(base.as_str(), "https://");
        let host = text::trim_start_matches(without_https.as_str(), "http://");
        out.append(host.as_str());
        out.append("/ws?token=");
        out.append(url::percent_encode(self.binding_token.as_str()).as_str());
        out
    }

    /// The absolute `POST /reply/<request_id>` address.
    pub fn reply_url(&self, environment: Option<&str>, request_id: &str) -> (r: String)
        ensures
            r@ == reply_address(self.relay(environment), request_id@),
    {
        let mut out = self.resolved_server_url(environment);
        out.append("/reply/");
        out.append(url::percent_encode(request_id).as_str());
        out
    }

    /// The absolute `POST /unpair` address.
    pub fn unpair_url(&self, environment: Option<&str>) -> (r: String)
        ensures
            r@ == self.relay(environment) + "/unpair"@,
    {
        let mut out = self.resolved_server_url(environment);
        out.append("/unpair");
        out
    }

    /// The absolute `POST /push` address, for messages that answer no inbound event.
    pub fn push_url(&self, environment: Option<&str>) -> (r: String)
        ensures
            r@ == self.relay(environment) + "/push"@,
    {
        let mut out = self.resolved_server_url(environment);
        out.append("/push");
        out
    }

    /// The absolute `POST /chat-bridge/event` address, for the events of a turn.
    pub fn chat_bridge_event_url(&self, environment: Option<&str>) -> (r: String)
        ensures
            r@ == self.relay(environment) + "/chat-bridge/event"@,
    {
        let mut out = self.resolved_server_url(environment);
        out.append("/chat-bridge/event");
        out
    }
}

proof fn lemma_trimmed_end_of(s: Seq<char>, c: char)
    ensures
        text::trimmed_end_of(s, c).len() > 0 ==> text::trimmed_end_of(s, c).last() != c,
    decreases s.len(),
{
    if s.len() > 0 && s.last() == c {
        lemma_trimmed_end_of(s.drop_last(), c);
    }
}

/// The relay's address never ends with a slash, so a path can be put behind it.
pub proof fn relay_url_has_no_slash_at_its_end(
    explicit: Option<Seq<char>>,
    environment: Option<Seq<char>>,
)
    ensures
        ({
            let base = relay_url(explicit, environment);
            base.len() > 0 ==> base.last() != '/'
        }),
{
    reveal_strlit("https://line.thclaws.ai");
    if let Some(u) = explicit {
        lemma_trimmed_end_of(u, '/');
    }
    if let Some(u) = environment {
        lemma_trimmed_end_of(u, '/');
    }
}

/// An explicit address wins over the environment, whatever it says.
pub proof fn explicit_url_wins(
    url: Seq<char>,
    environment: Option<Seq<char>>,
    other: Option<Seq<char>>,
)
    ensures
        relay_url(Some(url), environment) == relay_url(Some(url), other),
        relay_url(Some(url), environment) == text::trimmed_end_of(url, '/'),
{
}

/// A blank environment counts as none.
pub proof fn blank_environment_counts_as_none(url: Seq<char>)
    requires
        text::trimmed(url).len() == 0,
    ensures
        relay_url(None, Some(url)) == relay_url(None, None),
        relay_url(None, None) == DEFAULT_SERVER_URL@,
{
}

/// Two bindings of one relay share their WebSocket address only if they share their token.
pub proof fn ws_addresses_tell_tokens_apart(base: Seq<char>, a: Seq<char>, b: Seq<char>)
    requires
        ws_address(base, a) == ws_address(base, b),
    ensures
        a == b,
{
    let front = ws_scheme(base) + host(base) + "/ws?token="@;
    lemma_same_tail(front, url::percent_encoded(a), url::percent_encoded(b));
    url::encoding_tells_texts_apart(a, b);
}

/// Two requests at one relay share their reply address only if they are the same request.
pub proof fn reply_addresses_tell_requests_apart(base: Seq<char>, a: Seq<char>, b: Seq<char>)
    requires
        reply_address(base, a) == reply_address(base, b),
    ensures
        a == b,
{
    lemma_same_tail(base + "/reply/"@, url::percent_encoded(a), url::percent_encoded(b));
    url::encoding_tells_texts_apart(a, b);
}

proof fn lemma_same_tail(front: Seq<char>, a: Seq<char>, b: Seq<char>)
    requires
        front + a == front + b,
    ensures
        a == b,
{
    assert((front + a).skip(front.len() as int) =~= a);
    assert((front + b).skip(front.len() as int) =~= b);
}

/// The WebSocket is unencrypted exactly where the relay is named with `http://`.
pub proof fn ws_scheme_follows_relay(base: Seq<char>, token: Seq<char>)
    ensures
        "ws://"@.is_prefix_of(ws_address(base, token)) <==> "http://"@.is_prefix_of(base),
        "wss://"@.is_prefix_of(ws_address(base, token)) <==> !"http://"@.is_prefix_of(base),
{
    reveal_strlit("ws://");
    reveal_strlit("wss://");
    let a = ws_address(base, token);
    let s = ws_scheme(base);
    assert(a.subrange(0, s.len() as int) =~= s);
    if "http://"@.is_prefix_of(base) {
        assert(a[2] == ':');
        if "wss://"@.is_prefix_of(a) {
            assert(a.subrange(0, "wss://"@.len() as int)[2] == a[2]);
        }
    } else {
        assert(a[2] == 's');
        if "ws://"@.is_prefix_of(a) {
            assert(a.subrange(0, "ws://"@.len() as int)[2] == a[2]);
        }
    }
}

/// Whether `r` is `u` without the slashes at its end: it begins `u`, only slashes follow it in
/// `u`, and it does not end with one.
pub open spec fn is_without_end_slashes(r: Seq<char>, u: Seq<char>) -> bool {
    &&& r.is_prefix_of(u)
    &&& forall|i: int| r.len() <= i < u.len() ==> #[trigger] u[i] == '/'
    &&& r.len() > 0 ==> r.last() != '/'
}

proof fn lemma_without_end_slashes(u: Seq<char>)
    ensures
        is_without_end_slashes(text::trimmed_end_of(u, '/'), u),
{
    text::end_trimming_takes_copies_only(u, '/');
    let t = text::trimmed_end_of(u, '/');
    assert(t =~= u.subrange(0, t.len() as int));
}

/// An explicit address is the relay's address, whatever the environment says: without the slashes
/// at its end, and unchanged where it has none.
pub proof fn explicit_url_decides(u: Seq<char>, environment: Option<Seq<char>>)
    ensures
        is_without_end_slashes(relay_url(Some(u), environment), u),
        (u.len() == 0 || u.last() != '/') ==> relay_url(Some(u), environment) == u,
        relay_url(Some(u.push('/')), environment) == relay_url(Some(u), environment),
{
    lemma_without_end_slashes(u);
    assert(u.push('/').drop_last() =~= u);
}

/// With no explicit address, an environment that is not blank decides the relay: its address is
/// the environment's without the slashes at its end, and unchanged where it has none.
pub proof fn environment_decides_when_nothing_is_explicit(u: Seq<char>)
    requires
        exists|i: int| 0 <= i < u.len() && !text::is_white_space(#[trigger] u[i]),
    ensures
        is_without_end_slashes(relay_url(None, Some(u)), u),
        u.last() != '/' ==> relay_url(None, Some(u)) == u,
        relay_url(None, Some(u)) == relay_url(Some(u), None),
        relay_url(None, Some(u.push('/'))) == relay_url(None, Some(u)),
{
    let k = choose|k: int| 0 <= k < u.len() && !text::is_white_space(#[trigger] u[k]);
    let longer = u.push('/');
    assert(longer[k] == u[k]);
    text::trimming_empties_only_blank_text(u);
    text::trimming_empties_only_blank_text(longer);
    lemma_without_end_slashes(u);
    assert(longer.drop_last() =~= u);
}

/// With no explicit address and an environment that is unset or blank, the default relay is used.
pub proof fn default_relay_is_the_last_resort(u: Seq<char>)
    requires
        text::is_blank(u),
    ensures
        relay_url(None, None) == "https://line.thclaws.ai"@,
        relay_url(None, Some(u)) == "https://line.thclaws.ai"@,
{
    text::trimming_empties_only_blank_text(u);
}

/// The variable that names a relay, and the relay that is used where nothing names one.
pub proof fn relay_names()
    ensures
        SERVER_VARIABLE@ == "THCLAWS_LINE_SERVER"@,
        DEFAULT_SERVER_URL@ == "https://line.thclaws.ai"@,
{
}

/// What every call of [`LineConfig::resolved_server_url`] returns: the binding's own address
/// where it has one, else the environment's where that is not blank, each without the slashes at
/// its end, else the default.
pub proof fn resolved_server_url_by_cases(c: &LineConfig, environment: Option<&str>, r: String)
    requires
        call_ensures(LineConfig::resolved_server_url, (c, environment), r),
    ensures
        c.server_url matches Some(u) ==> is_without_end_slashes(r@, u@) && (u@.len() == 0
            || u@.last() != '/' ==> r@ == u@),
        c.server_url is None ==> (environment matches Some(u) ==> !text::is_blank(u@)
            ==> is_without_end_slashes(r@, u@) && (u@.last() != '/' ==> r@ == u@)),
        c.server_url is None && (environment is None || text::is_blank(environment->0@)) ==> r@
            == "https://line.thclaws.ai"@,
{
    match c.server_url {
        Some(u) => {
            explicit_url_decides(u@, str_text_of(environment));
        },
        None => {
            match environment {
                Some(u) => {
                    if text::is_blank(u@) {
                        default_relay_is_the_last_resort(u@);
                    } else {
                        environment_decides_when_nothing_is_explicit(u@);
                    }
                },
                None => {},
            }
        },
    }
}

/// A second `https://` in front of an address makes no difference to its host.
pub proof fn host_ignores_https(base: Seq<char>)
    ensures
        host("https://"@ + base) == host(base),
{
    reveal_strlit("https://");
    text::start_trimming_ignores_a_copy("https://"@, base);
}

/// An address without a scheme is its own host.
pub proof fn host_of_bare_address(h: Seq<char>)
    requires
        !"https://"@.is_prefix_of(h),
        !"http://"@.is_prefix_of(h),
    ensures
        host(h) == h,
        host("https://"@ + h) == h,
{
    host_ignores_https(h);
}

/// Of an address with `http://` the host is what follows; a second `http://` makes no difference.
pub proof fn host_of_http_address(h: Seq<char>)
    ensures
        !"http://"@.is_prefix_of(h) ==> host("http://"@ + h) == h,
        host("http://"@ + ("http://"@ + h)) == host("http://"@ + h),
{
    lemma_http_is_not_https(h);
    lemma_http_is_not_https("http://"@ + h);
    reveal_strlit("http://");
    text::start_trimming_ignores_a_copy("http://"@, h);
    text::start_trimming_ignores_a_copy("http://"@, "http://"@ + h);
}

proof fn lemma_http_is_not_https(h: Seq<char>)
    ensures
        "http://"@.is_prefix_of("http://"@ + h),
        !"https://"@.is_prefix_of("http://"@ + h),
        !"http://"@.is_prefix_of("https://"@ + h),
{
    reveal_strlit("http://");
    reveal_strlit("https://");
    let plain = "http://"@ + h;
    let secure = "https://"@ + h;
    assert("http://"@ =~= plain.subrange(0, 7));
    assert(plain[4] == ':');
    assert(secure[4] == 's');
    if "https://"@.is_prefix_of(plain) {
        assert(plain.subrange(0, 8)[4] == plain[4]);
    }
    if "http://"@.is_prefix_of(secure) {
        assert(secure.subrange(0, 7)[4] == secure[4]);
    }
}

/// The WebSocket's address by the form of the relay's: `https://` and no scheme give `wss://`,
/// `http://` gives `ws://`, before the same host; the token follows, encoded, as a parameter.
pub proof fn ws_address_by_scheme(h: Seq<char>, token: Seq<char>)
    requires
        !"https://"@.is_prefix_of(h),
        !"http://"@.is_prefix_of(h),
    ensures
        ws_address("https://"@ + h, token) == "wss://"@ + h + "/ws?token="@ + url::percent_encoded(
            token,
        ),
        ws_address("http://"@ + h, token) == "ws://"@ + h + "/ws?token="@ + url::percent_encoded(
            token,
        ),
        ws_address(h, token) == "wss://"@ + h + "/ws?token="@ + url::percent_encoded(token),
{
    host_of_bare_address(h);
    host_of_http_address(h);
    lemma_http_is_not_https(h);
}

/// The token can be read back from the end of the WebSocket's address, where it stands behind the
/// relay's host.
pub proof fn ws_address_holds_the_token(base: Seq<char>, token: Seq<char>)
    ensures
        ({
            let a = ws_address(base, token);
            let n = if "http://"@.is_prefix_of(base) {
                5
            } else {
                6int
            };
            let m = n + host(base).len();
            &&& a.subrange(n, m) == host(base)
            &&& a.subrange(m, m + 10) == "/ws?token="@
            &&& vstd::utf8::decode_utf8(url::decoded_bytes(a.skip(m + 10))) == token
        }),
{
    reveal_strlit("ws://");
    reveal_strlit("wss://");
    reveal_strlit("/ws?token=");
    let a = ws_address(base, token);
    let n = ws_scheme(base).len() as int;
    let m = n + host(base).len();
    assert(a.subrange(n, m) =~= host(base));
    assert(a.subrange(m, m + 10) =~= "/ws?token="@);
    assert(a.skip(m + 10) =~= url::percent_encoded(token));
    url::encoded_text_reads_back(token);
}

/// What every call of [`LineConfig::ws_url`] returns, by the form of the relay's address.
pub proof fn ws_url_by_scheme(
    c: &LineConfig,
    environment: Option<&str>,
    base: String,
    h: Seq<char>,
    r: String,
)
    requires
        call_ensures(LineConfig::resolved_server_url, (c, environment), base),
        call_ensures(LineConfig::ws_url, (c, environment), r),
        !"https://"@.is_prefix_of(h),
        !"http://"@.is_prefix_of(h),
    ensures
        base@ == "https://"@ + h || base@ == h ==> r@ == "wss://"@ + h + "/ws?token="@
            + url::percent_encoded(c.binding_token@),
        base@ == "http://"@ + h ==> r@ == "ws://"@ + h + "/ws?token="@ + url::percent_encoded(
            c.binding_token@,
        ),
{
    ws_address_by_scheme(h, c.binding_token@);
}

/// The id of a request can be read back from the address that its reply goes to: it stands,
/// encoded, behind the relay's address and `/reply/`.
pub proof fn reply_address_holds_the_request(base: Seq<char>, id: Seq<char>)
    ensures
        ({
            let a = reply_address(base, id);
            let n = base.len() as int;
            &&& a.len() >= n + 7
            &&& a.take(n) == base
            &&& a.subrange(n, n + 7) == seq!['/', 'r', 'e', 'p', 'l', 'y', '/']
            &&& vstd::utf8::decode_utf8(url::decoded_bytes(a.skip(n + 7))) == id
        }),
{
    reveal_strlit("/reply/");
    let a = reply_address(base, id);
    let n = base.len() as int;
    assert(a.take(n) =~= base);
    assert(a.subrange(n, n + 7) =~= seq!['/', 'r', 'e', 'p', 'l', 'y', '/']);
    assert(a.skip(n + 7) =~= url::percent_encoded(id));
    url::encoded_text_reads_back(id);
}

/// What every call of an address method returns: the relay's address, as
/// [`LineConfig::resolved_server_url`] returns it, and the path of the endpoint behind it.
pub proof fn endpoints_stand_behind_the_relay(
    c: &LineConfig,
    environment: Option<&str>,
    id: &str,
    base: String,
    reply: String,
    unpair: String,
    push: String,
    event: String,
)
    requires
        call_ensures(LineConfig::resolved_server_url, (c, environment), base),
        call_ensures(LineConfig::reply_url, (c, environment, id), reply),
        call_ensures(LineConfig::unpair_url, (c, environment), unpair),
        call_ensures(LineConfig::push_url, (c, environment), push),
        call_ensures(LineConfig::chat_bridge_event_url, (c, environment), event),
    ensures
        reply@ == base@ + "/reply/"@ + url::percent_encoded(id@),
        unpair@ == base@ + "/unpair"@,
        push@ == base@ + "/push"@,
        event@ == base@ + "/chat-bridge/event"@,
{
}

/// What every call that makes an unset binding returns: no token, no address and no profile.
pub proof fn default_binding_is_empty(r: LineConfig)
    requires
        call_ensures(LineConfig::default, (), r),
    ensures
        r@ == (LineConfigView {
            binding_token: Seq::empty(),
            server_url: None,
            display_name: None,
            picture_url: None,
            language: None,
        }),
{
}

} // verus!
