//! The web interface behind its server: what requests ask for, and the pages that answer them.
use vstd::prelude::*;
use vstd::string::*;

use crate::config::{AppContext, Config, ConfigView, SpotifyView};
use crate::text::{group_views, hex, nonempty, nonempty_text, ov, push_hex, same};
use crate::web_bridge::form::{
    form_of, parse_form, percent_encode, percent_encoded, value_of, value_or_empty,
};
use crate::web_bridge::pages::{redirect_uri_of, spotify_redirect_uri};
use crate::web_bridge::replies::{next_number, on_ask, settled, Pending, PendingModel};
use crate::web_bridge::routes::{query_of, split_url};
use crate::web_bridge::settings::Fields;

pub mod actions;
pub mod form;
pub mod media;
pub mod pages;
pub mod replies;
pub mod routes;
pub mod settings;

verus! {

broadcast use group_views;

/// What the workers of the web server share.
pub struct WebBridge {
    pending: Pending,
    bind_addr: String,
    config_path: String,
    oauth_state: Option<String>,
    open_browser: bool,
}

pub struct BridgeModel {
    /// The requests on the bus that pages wait for.
    pub pending: PendingModel,
    pub bind_addr: Seq<char>,
    pub config_path: Seq<char>,
    /// What a login that was started must come back with.
    pub oauth_state: Option<Seq<char>>,
    pub open_browser: bool,
}

impl View for WebBridge {
    type V = BridgeModel;

    closed spec fn view(&self) -> BridgeModel {
        BridgeModel {
            pending: self.pending@,
            bind_addr: self.bind_addr@,
            config_path: self.config_path@,
            oauth_state: ov(self.oauth_state),
            open_browser: self.open_browser,
        }
    }
}

/// The nonce of a login: the time and a running number, in hexadecimal.
pub open spec fn nonce(nanos: u128, number: u64) -> Seq<char> {
    hex(nanos as nat) + hex(number as nat)
}

pub const AUTHORIZE: &'static str = "https://accounts.spotify.com/authorize?response_type=code&client_id=";

/// What is asked for at the login: to read the user's playlists.
pub const SCOPE: &'static str = "playlist-read-private playlist-read-collaborative";

/// Where the browser is sent to log in.
pub open spec fn authorize_url(
    client_id: Seq<char>,
    redirect_uri: Seq<char>,
    state: Seq<char>,
) -> Seq<char> {
    AUTHORIZE@ + percent_encoded(client_id) + "&redirect_uri="@ + percent_encoded(redirect_uri)
        + "&scope="@ + percent_encoded(SCOPE@) + "&state="@ + percent_encoded(state)
}

/// The code that a login came back with, or what is wrong with it. `expected` is what the login
/// was started with.
pub open spec fn callback_code(params: Fields, expected: Option<Seq<char>>) -> Result<
    Seq<char>,
    Seq<char>,
> {
    match value_of(params, "error"@) {
        Some(err) => Err("Spotify returned '"@ + err + "'"@),
        None => match nonempty(value_of(params, "code"@)) {
            None => Err("callback had no authorization code"@),
            Some(code) => if expected == Some(value_or_empty(params, "state"@)) {
                Ok(code)
            } else {
                Err("state mismatch — please start the login again"@)
            },
        },
    }
}

/// Whether a login that came back used up what it was started with: it does once it carries a
/// code.
pub open spec fn uses_state(params: Fields) -> bool {
    value_of(params, "error"@) is None && nonempty(value_of(params, "code"@)) is Some
}

pub open spec fn text_result(r: Result<String, String>) -> Result<Seq<char>, Seq<char>> {
    match r {
        Ok(t) => Ok(t@),
        Err(e) => Err(e@),
    }
}

impl WebBridge {
    pub fn new(ctx: &AppContext) -> (r: WebBridge)
        ensures
            r@ == (BridgeModel {
                pending: PendingModel { corr: 0, waiting: Set::empty() },
                bind_addr: ctx.config@.ui.bind_addr,
                config_path: ctx.config_path@,
                oauth_state: None,
                open_browser: ctx.config@.ui.open_browser,
            }),
    {
        WebBridge {
            pending: Pending::new(),
            bind_addr: ctx.config.ui.bind_addr.clone(),
            config_path: ctx.config_path.clone(),
            oauth_state: None,
            open_browser: ctx.config.ui.open_browser,
        }
    }

    /// Where the server listens.
    pub fn bind_addr(&self) -> (r: &str)
        ensures
            r@ == self@.bind_addr,
    {
        self.bind_addr.as_str()
    }

    /// Where the settings are stored.
    pub fn config_path(&self) -> (r: &str)
        ensures
            r@ == self@.config_path,
    {
        self.config_path.as_str()
    }

    /// Whether the interface opens in the browser at the start.
    pub fn opens_browser(&self) -> (r: bool)
        ensures
            r == self@.open_browser,
    {
        self.open_browser
    }

    /// The number of a new request on the bus, which a page waits for.
    pub fn ask(&mut self) -> (corr: u64)
        ensures
            final(self)@ == (BridgeModel { pending: on_ask(old(self)@.pending), ..old(self)@ }),
            corr == final(self)@.pending.corr,
    {
        self.pending.ask()
    }

    /// A reply came: whether a page still waits for it.
    pub fn complete(&mut self, corr: u64) -> (wanted: bool)
        ensures
            wanted == old(self)@.pending.waiting.contains(corr),
            final(self)@ == (BridgeModel {
                pending: settled(old(self)@.pending, corr),
                ..old(self)@
            }),
    {
        self.pending.complete(corr)
    }

    /// A page waits for a reply no more.
    pub fn give_up(&mut self, corr: u64)
        ensures
            final(self)@ == (BridgeModel {
                pending: settled(old(self)@.pending, corr),
                ..old(self)@
            }),
    {
        self.pending.give_up(corr);
    }

    /// Starts a login: where to send the browser, or what is missing. `nanos` is the time.
    pub fn spotify_authorize_url(&mut self, config: &Config, nanos: u128) -> (r: Result<
        String,
        String,
    >)
        ensures
            match nonempty(config@.spotify.client_id) {
                None => final(self)@ == old(self)@ && text_result(r) == Err::<Seq<char>, Seq<char>>(
                    "set your Spotify Client ID first (see the Connect Spotify page)"@,
                ),
                Some(id) => {
                    let state = nonce(nanos, old(self)@.pending.corr);
                    &&& final(self)@ == (BridgeModel {
                        pending: PendingModel {
                            corr: next_number(old(self)@.pending.corr),
                            ..old(self)@.pending
                        },
                        oauth_state: Some(state),
                        ..old(self)@
                    })
                    &&& text_result(r) == Ok::<Seq<char>, Seq<char>>(
                        authorize_url(id, redirect_uri_of(config@.ui.bind_addr), state),
                    )
                },
            },
    {
        let id = match nonempty_text(&config.spotify.client_id) {
            Some(id) => id,
            None => {
                return Err(
                    "set your Spotify Client ID first (see the Connect Spotify page)".to_owned(),
                );
            },
        };
        let number: u64 = self.pending.number();
        let mut state = String::new();
        push_hex(&mut state, nanos);
        assert(state@ =~= hex(nanos as nat));
        push_hex(&mut state, number as u128);
        self.oauth_state = Some(state.clone());
        let mut url = AUTHORIZE.to_owned();
        url.append(percent_encode(id).as_str());
        url.append("&redirect_uri=");
        url.append(percent_encode(spotify_redirect_uri(config).as_str()).as_str());
        url.append("&scope=");
        url.append(percent_encode(SCOPE).as_str());
        url.append("&state=");
        url.append(percent_encode(state.as_str()).as_str());
        Ok(url)
    }

    /// A login came back: its code, or what is wrong with it. What it was started with counts
    /// once.
    pub fn spotify_callback(&mut self, url: &str) -> (r: Result<String, String>)
        ensures
            text_result(r) == callback_code(form_of(query_of(url@)), old(self)@.oauth_state),
            final(self)@ == (if uses_state(form_of(query_of(url@))) {
                BridgeModel { oauth_state: None, ..old(self)@ }
            } else {
                old(self)@
            }),
    {
        let (_, query) = split_url(url);
        let params = parse_form(query.as_str());
        if let Some(err) = params.get("error") {
            let mut out = "Spotify returned '".to_owned();
            out.append(err);
            out.append("'");
            return Err(out);
        }
        let code = match params.get("code") {
            Some(code) => {
                if code.is_empty() {
                    return Err("callback had no authorization code".to_owned());
                }
                code
            },
            None => {
                return Err("callback had no authorization code".to_owned());
            },
        };
        let state = params.get_or_empty("state");
        let expected = self.oauth_state.take();
        let matches = match &expected {
            Some(e) => same(e.as_str(), state.as_str()),
            None => false,
        };
        if matches {
            Ok(code.to_owned())
        } else {
            Err("state mismatch — please start the login again".to_owned())
        }
    }
}

/// What the code of a login is exchanged with.
pub struct LoginKeys {
    pub client_id: String,
    pub client_secret: String,
    pub redirect_uri: String,
}

/// The keys for a login, or which is missing.
pub fn login_keys(config: &Config) -> (r: Result<LoginKeys, String>)
    ensures
        match (
            nonempty(config@.spotify.client_id),
            nonempty(config@.spotify.client_secret),
        ) {
            (None, _) => r matches Err(e) && e@ == "Spotify Client ID is not set"@,
            (_, None) => r matches Err(e) && e@ == "Spotify Client Secret is not set"@,
            (Some(id), Some(secret)) => r matches Ok(keys) && keys.client_id@ == id
                && keys.client_secret@ == secret && keys.redirect_uri@ == redirect_uri_of(
                config@.ui.bind_addr,
            ),
        },
{
    let client_id = match nonempty_text(&config.spotify.client_id) {
        Some(id) => id.to_owned(),
        None => {
            return Err("Spotify Client ID is not set".to_owned());
        },
    };
    let client_secret = match nonempty_text(&config.spotify.client_secret) {
        Some(secret) => secret.to_owned(),
        None => {
            return Err("Spotify Client Secret is not set".to_owned());
        },
    };
    Ok(LoginKeys { client_id, client_secret, redirect_uri: spotify_redirect_uri(config) })
}

/// The settings once a login succeeded.
pub fn with_refresh_token(config: Config, token: String) -> (r: Config)
    ensures
        r@ == (ConfigView {
            spotify: SpotifyView { refresh_token: Some(token@), ..config@.spotify },
            ..config@
        }),
{
    let mut c = config;
    c.spotify.refresh_token = Some(token);
    c
}

/// A login that was not started here is refused, whatever it comes back with; and one that was
/// started counts once, so that coming back with it again is refused too.
pub proof fn law_logins_are_bound_to_their_start(params: Fields, expected: Option<Seq<char>>)
    ensures
        callback_code(params, None) is Err,
        callback_code(params, expected) is Ok ==> expected == Some(
            value_or_empty(params, "state"@),
        ) && uses_state(params),
{
}

/// A login that comes back with the mark that it was sent with, and no error, hands over its code;
/// with another mark, or none, it is refused.
pub proof fn law_a_login_comes_back_with_its_mark(
    params: Fields,
    expected: Seq<char>,
    code: Seq<char>,
    state: Seq<char>,
)
    requires
        value_of(params, "error"@) is None,
        value_of(params, "code"@) == Some(code),
        code.len() > 0,
        value_of(params, "state"@) == Some(state),
    ensures
        state == expected ==> callback_code(params, Some(expected)) == Ok::<Seq<char>, Seq<char>>(
            code,
        ),
        state != expected ==> callback_code(params, Some(expected)) is Err,
{
}

spec fn unmarked(s: Seq<char>) -> bool {
    forall|k: int| 0 <= k < s.len() ==> #[trigger] s[k] != '?'
}

proof fn lemma_parameter(name: Seq<char>, value: Seq<char>, rest: Seq<char>)
    requires
        crate::web_bridge::form::is_plain(name),
        name.len() > 0,
    ensures
        form_of(name.push('=') + percent_encoded(value)) == seq![(name, value)],
        form_of((name.push('=') + percent_encoded(value)).push('&') + rest) == seq![(name, value)]
            + form_of(rest),
        unmarked(name.push('=') + percent_encoded(value)),
        unmarked(rest) ==> unmarked((name.push('=') + percent_encoded(value)).push('&') + rest),
{
    crate::web_bridge::form::law_plain_texts_stay_as_they_are(name);
    crate::web_bridge::form::law_a_field_reads_back(name, value);
    crate::web_bridge::form::law_encoded_values_hold_no_separators(name);
    crate::web_bridge::form::law_encoded_values_hold_no_separators(value);
    let pair = name.push('=') + percent_encoded(value);
    assert forall|k: int| 0 <= k < pair.len() implies #[trigger] pair[k] != '&' && pair[k]
        != '?' by {
        if k < name.len() {
            assert(pair[k] == percent_encoded(name)[k]);
        } else if k > name.len() {
            assert(pair[k] == percent_encoded(value)[k - name.len() - 1]);
        }
    }
    crate::web_bridge::form::law_ampersands_part_the_fields(pair, rest);
    let all = pair.push('&') + rest;
    if unmarked(rest) {
        assert forall|k: int| 0 <= k < all.len() implies #[trigger] all[k] != '?' by {
            if k < pair.len() {
                assert(all[k] == pair[k]);
            } else if k > pair.len() {
                assert(all[k] == rest[k - pair.len() - 1]);
            }
        }
    }
}

proof fn lemma_joined(
    h: Seq<char>,
    p: Seq<char>,
    c: Seq<char>,
    e1: Seq<char>,
    r: Seq<char>,
    e2: Seq<char>,
    s: Seq<char>,
    e3: Seq<char>,
    t: Seq<char>,
    e4: Seq<char>,
)
    ensures
        (h.push('?') + p.push('&') + c) + e1 + (seq!['&'] + r) + e2 + (seq!['&'] + s) + e3 + (
        seq!['&'] + t) + e4 == h.push('?') + (p.push('&') + ((c + e1).push('&') + ((r + e2).push(
            '&',
        ) + ((s + e3).push('&') + (t + e4))))),
{
    let q4 = t + e4;
    let q3 = (s + e3).push('&') + q4;
    let q2 = (r + e2).push('&') + q3;
    let q1 = (c + e1).push('&') + q2;
    assert(e3 + (seq!['&'] + t) + e4 =~= e3.push('&') + q4);
    let l3 = s + e3 + (seq!['&'] + t) + e4;
    assert(l3 =~= q3);
    let l2 = r + e2 + (seq!['&'] + s) + e3 + (seq!['&'] + t) + e4;
    assert(l2 =~= (r + e2).push('&') + l3);
    let l1 = c + e1 + (seq!['&'] + r) + e2 + (seq!['&'] + s) + e3 + (seq!['&'] + t) + e4;
    assert(l1 =~= (c + e1).push('&') + l2);
    let l0 = (h.push('?') + p.push('&') + c) + e1 + (seq!['&'] + r) + e2 + (seq!['&'] + s) + e3 + (
    seq!['&'] + t) + e4;
    assert(l0 =~= h.push('?') + (p.push('&') + l1));
}

spec fn parameter(name: Seq<char>, value: Seq<char>) -> Seq<char> {
    name.push('=') + percent_encoded(value)
}

spec fn login_query(client_id: Seq<char>, redirect_uri: Seq<char>, state: Seq<char>) -> Seq<char> {
    parameter("response_type"@, "code"@).push('&') + (parameter("client_id"@, client_id).push('&')
        + (parameter("redirect_uri"@, redirect_uri).push('&') + (parameter(
        "scope"@,
        SCOPE@,
    ).push('&') + parameter("state"@, state))))
}

proof fn lemma_authorize_start()
    ensures
        AUTHORIZE@ == "https://accounts.spotify.com/authorize"@.push('?') + parameter(
            "response_type"@,
            "code"@,
        ).push('&') + "client_id"@.push('='),
        unmarked("https://accounts.spotify.com/authorize"@),
{
    reveal_strlit("https://accounts.spotify.com/authorize?response_type=code&client_id=");
    reveal_strlit("https://accounts.spotify.com/authorize");
    reveal_strlit("response_type");
    reveal_strlit("code");
    reveal_strlit("client_id");
    crate::web_bridge::form::law_plain_texts_stay_as_they_are("code"@);
    assert(AUTHORIZE@ =~= "https://accounts.spotify.com/authorize"@.push('?') + parameter(
        "response_type"@,
        "code"@,
    ).push('&') + "client_id"@.push('='));
}

proof fn lemma_authorize_url(client_id: Seq<char>, redirect_uri: Seq<char>, state: Seq<char>)
    ensures
        authorize_url(client_id, redirect_uri, state)
            == "https://accounts.spotify.com/authorize"@.push('?') + login_query(
            client_id,
            redirect_uri,
            state,
        ),
{
    lemma_authorize_start();
    assert("&redirect_uri="@ == seq!['&'] + "redirect_uri"@.push('=') && "&scope="@ == seq!['&']
        + "scope"@.push('=') && "&state="@ == seq!['&'] + "state"@.push('=')) by {
        reveal_strlit("&redirect_uri=");
        reveal_strlit("redirect_uri");
        reveal_strlit("&scope=");
        reveal_strlit("scope");
        reveal_strlit("&state=");
        reveal_strlit("state");
        assert("&redirect_uri="@ =~= seq!['&'] + "redirect_uri"@.push('='));
        assert("&scope="@ =~= seq!['&'] + "scope"@.push('='));
        assert("&state="@ =~= seq!['&'] + "state"@.push('='));
    }
    lemma_joined(
        "https://accounts.spotify.com/authorize"@,
        parameter("response_type"@, "code"@),
        "client_id"@.push('='),
        percent_encoded(client_id),
        "redirect_uri"@.push('='),
        percent_encoded(redirect_uri),
        "scope"@.push('='),
        percent_encoded(SCOPE@),
        "state"@.push('='),
        percent_encoded(state),
    );
}

proof fn lemma_parameter_names()
    ensures
        crate::web_bridge::form::is_plain("response_type"@) && "response_type"@.len() == 13,
        crate::web_bridge::form::is_plain("client_id"@) && "client_id"@.len() == 9,
        crate::web_bridge::form::is_plain("redirect_uri"@) && "redirect_uri"@.len() == 12,
        crate::web_bridge::form::is_plain("scope"@) && "scope"@.len() == 5 && "scope"@[1] == 'c',
        crate::web_bridge::form::is_plain("state"@) && "state"@.len() == 5 && "state"@[1] == 't',
{
    reveal_strlit("response_type");
    reveal_strlit("client_id");
    reveal_strlit("redirect_uri");
    reveal_strlit("scope");
    reveal_strlit("state");
}

proof fn lemma_login_fields(client_id: Seq<char>, redirect_uri: Seq<char>, state: Seq<char>)
    ensures
        form_of(login_query(client_id, redirect_uri, state)) == seq![("response_type"@, "code"@)]
            + (seq![("client_id"@, client_id)] + (seq![("redirect_uri"@, redirect_uri)] + (seq![
            ("scope"@, SCOPE@),
        ] + seq![("state"@, state)]))),
        unmarked(login_query(client_id, redirect_uri, state)),
{
    let p5 = parameter("state"@, state);
    let q4 = parameter("scope"@, SCOPE@).push('&') + p5;
    let q3 = parameter("redirect_uri"@, redirect_uri).push('&') + q4;
    let q2 = parameter("client_id"@, client_id).push('&') + q3;
    lemma_parameter_names();
    lemma_parameter("state"@, state, Seq::empty());
    lemma_parameter("scope"@, SCOPE@, p5);
    lemma_parameter("redirect_uri"@, redirect_uri, q4);
    lemma_parameter("client_id"@, client_id, q3);
    lemma_parameter("response_type"@, "code"@, q2);
}

proof fn lemma_field_in_front(
    f: (Seq<char>, Seq<char>),
    rest: Seq<(Seq<char>, Seq<char>)>,
    key: Seq<char>,
)
    ensures
        value_of(seq![f] + rest, key) == (match value_of(rest, key) {
            Some(v) => Some(v),
            None => if f.0 == key {
                Some(f.1)
            } else {
                None
            },
        }),
    decreases rest.len(),
{
    let all = seq![f] + rest;
    if rest.len() == 0 {
        assert(all.last() == f);
        assert(all.drop_last() =~= rest);
    } else {
        lemma_field_in_front(f, rest.drop_last(), key);
        assert(all.last() == rest.last());
        assert(all.drop_last() =~= seq![f] + rest.drop_last());
    }
}

proof fn lemma_five_fields(
    a: (Seq<char>, Seq<char>),
    b: (Seq<char>, Seq<char>),
    c: (Seq<char>, Seq<char>),
    d: (Seq<char>, Seq<char>),
    e: (Seq<char>, Seq<char>),
    key: Seq<char>,
)
    ensures
        value_of(seq![a] + (seq![b] + (seq![c] + (seq![d] + seq![e]))), key) == (if e.0 == key {
            Some(e.1)
        } else if d.0 == key {
            Some(d.1)
        } else if c.0 == key {
            Some(c.1)
        } else if b.0 == key {
            Some(b.1)
        } else if a.0 == key {
            Some(a.1)
        } else {
            None
        }),
{
    let none = Seq::<(Seq<char>, Seq<char>)>::empty();
    assert(seq![e] + none =~= seq![e]);
    lemma_field_in_front(e, none, key);
    lemma_field_in_front(d, seq![e], key);
    lemma_field_in_front(c, seq![d] + seq![e], key);
    lemma_field_in_front(b, seq![c] + (seq![d] + seq![e]), key);
    lemma_field_in_front(a, seq![b] + (seq![c] + (seq![d] + seq![e])), key);
}

/// The address that a login starts with asks for a code, and carries the client, where to come back
/// to, and the mark to come back with, each as it was given.
pub proof fn law_a_login_says_where_to_come_back_to(
    client_id: Seq<char>,
    redirect_uri: Seq<char>,
    state: Seq<char>,
)
    ensures
        ({
            let params = form_of(query_of(authorize_url(client_id, redirect_uri, state)));
            &&& value_of(params, "client_id"@) == Some(client_id)
            &&& value_of(params, "redirect_uri"@) == Some(redirect_uri)
            &&& value_of(params, "state"@) == Some(state)
            &&& value_of(params, "response_type"@) == Some("code"@)
        }),
{
    let query = login_query(client_id, redirect_uri, state);
    lemma_login_fields(client_id, redirect_uri, state);
    assert(query_of(authorize_url(client_id, redirect_uri, state)) == query) by {
        lemma_authorize_start();
        lemma_authorize_url(client_id, redirect_uri, state);
        crate::web_bridge::routes::law_an_address_is_its_path_and_its_query(
            "https://accounts.spotify.com/authorize"@,
            query,
        );
    }
    lemma_parameter_names();
    let (a, b, c, d, e) = (
        ("response_type"@, "code"@),
        ("client_id"@, client_id),
        ("redirect_uri"@, redirect_uri),
        ("scope"@, SCOPE@),
        ("state"@, state),
    );
    lemma_five_fields(a, b, c, d, e, "client_id"@);
    lemma_five_fields(a, b, c, d, e, "redirect_uri"@);
    lemma_five_fields(a, b, c, d, e, "state"@);
    lemma_five_fields(a, b, c, d, e, "response_type"@);
}

} // verus!
