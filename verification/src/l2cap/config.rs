//! The TLS configuration of links, and how it travels in endpoints.
use vstd::prelude::*;
use vstd::string::*;
use crate::l2cap::{
    BT_L2CAP_TLS_ENABLE_MTLS_DEFAULT, BT_L2CAP_TLS_VERIFY_NAME_ON_CONNECT_DEFAULT,
};
use crate::params;
use crate::text;

verus! {

/// The key for the certificates that peers are verified against.
pub const TLS_ROOT_CA_CERTIFICATE_FILE: &'static str = "root_ca_certificate_file";

/// The key for the certificates that a listener shows.
pub const TLS_LISTEN_CERTIFICATE_FILE: &'static str = "listen_certificate_file";

/// The key for the private key of a listener.
pub const TLS_LISTEN_PRIVATE_KEY_FILE: &'static str = "listen_private_key_file";

/// The key for the certificates that a connector shows.
pub const TLS_CONNECT_CERTIFICATE_FILE: &'static str = "connect_certificate_file";

/// The key for the private key of a connector.
pub const TLS_CONNECT_PRIVATE_KEY_FILE: &'static str = "connect_private_key_file";

/// The key for whether both peers show certificates.
pub const TLS_ENABLE_MTLS: &'static str = "enable_mtls";

/// The key for whether the name of a server is verified.
pub const TLS_VERIFY_NAME_ON_CONNECT: &'static str = "verify_name_on_connect";

/// The key for how long a handshake may take, in milliseconds.
pub const TLS_HANDSHAKE_TIMEOUT_MS: &'static str = "tls_handshake_timeout_ms";

/// How long a handshake may take in milliseconds, where the endpoint does not
/// say.
pub const TLS_HANDSHAKE_TIMEOUT_MS_DEFAULT: u64 = 10_000;

/// The TLS section of the configuration.
pub struct TlsLinkConfig {
    pub root_ca_certificate: Option<String>,
    pub listen_certificate: Option<String>,
    pub listen_private_key: Option<String>,
    pub connect_certificate: Option<String>,
    pub connect_private_key: Option<String>,
    pub enable_mtls: Option<bool>,
    pub verify_name_on_connect: Option<bool>,
}

/// What an optional text holds.
pub open spec fn option_text(s: Option<String>) -> Option<Seq<char>> {
    match s {
        Some(s) => Some(s@),
        None => None,
    }
}

/// A pair with this key, where there is a value.
pub open spec fn option_pair(key: Seq<char>, value: Option<Seq<char>>) -> Seq<params::Pair> {
    match value {
        Some(v) => seq![(key, v)],
        None => seq![],
    }
}

impl TlsLinkConfig {
    /// Whether both peers show certificates.
    pub open spec fn mtls(self) -> bool {
        match self.enable_mtls {
            Some(b) => b,
            None => BT_L2CAP_TLS_ENABLE_MTLS_DEFAULT,
        }
    }

    /// Whether the name of a server is verified.
    pub open spec fn verify_name(self) -> bool {
        match self.verify_name_on_connect {
            Some(b) => b,
            None => BT_L2CAP_TLS_VERIFY_NAME_ON_CONNECT_DEFAULT,
        }
    }

    /// The parameters that the configuration comes to: the paths that are set,
    /// and both switches in any case.
    pub open spec fn pairs(self) -> Seq<params::Pair> {
        option_pair(TLS_ROOT_CA_CERTIFICATE_FILE@, option_text(self.root_ca_certificate))
            + option_pair(TLS_LISTEN_CERTIFICATE_FILE@, option_text(self.listen_certificate))
            + option_pair(TLS_LISTEN_PRIVATE_KEY_FILE@, option_text(self.listen_private_key))
            + option_pair(TLS_CONNECT_CERTIFICATE_FILE@, option_text(self.connect_certificate))
            + option_pair(TLS_CONNECT_PRIVATE_KEY_FILE@, option_text(self.connect_private_key))
            + option_pair(TLS_ENABLE_MTLS@, Some(text::bool_text(self.mtls())))
            + option_pair(TLS_VERIFY_NAME_ON_CONNECT@, Some(text::bool_text(self.verify_name())))
    }

    /// Whether no path holds the character that separates parameters.
    pub open spec fn paths_are_plain(self) -> bool {
        &&& path_is_plain(option_text(self.root_ca_certificate))
        &&& path_is_plain(option_text(self.listen_certificate))
        &&& path_is_plain(option_text(self.listen_private_key))
        &&& path_is_plain(option_text(self.connect_certificate))
        &&& path_is_plain(option_text(self.connect_private_key))
    }
}

/// Whether a path, if there is one, can be told from the parameter behind it.
pub open spec fn path_is_plain(path: Option<Seq<char>>) -> bool {
    path is Some ==> !(path->0).contains(';')
}

/// Carries the TLS section of the configuration over to endpoints.
#[derive(Clone, Copy, Default, Debug)]
pub struct BtL2capTlsConfigurator;

/// Adds a pair, where there is a value.
fn push_option(pairs: &mut Vec<(String, String)>, key: &str, value: &Option<String>)
    ensures
        params::pairs_view(final(pairs)@) == params::pairs_view(old(pairs)@) + option_pair(
            key@,
            option_text(*value),
        ),
{
    match value {
        Some(v) => push_pair(pairs, key, v.as_str()),
        None => {
            assert(params::pairs_view(pairs@) =~= params::pairs_view(pairs@) + option_pair(
                key@,
                None,
            ));
        },
    }
}

/// Adds a pair.
fn push_pair(pairs: &mut Vec<(String, String)>, key: &str, value: &str)
    ensures
        params::pairs_view(final(pairs)@) == params::pairs_view(old(pairs)@) + option_pair(
            key@,
            Some(value@),
        ),
{
    pairs.push((key.to_owned(), value.to_owned()));
    assert(params::pairs_view(pairs@) =~= params::pairs_view(old(pairs)@) + option_pair(
        key@,
        Some(value@),
    ));
}

impl BtL2capTlsConfigurator {
    /// The parameter list that tells endpoints of the configuration.
    pub fn inspect_config(&self, config: &TlsLinkConfig) -> (list: String)
        ensures
            list@ == params::params_text(config.pairs()),
    {
        let mut pairs: Vec<(String, String)> = Vec::new();
        assert(params::pairs_view(pairs@) =~= Seq::<params::Pair>::empty());
        push_option(&mut pairs, TLS_ROOT_CA_CERTIFICATE_FILE, &config.root_ca_certificate);
        push_option(&mut pairs, TLS_LISTEN_CERTIFICATE_FILE, &config.listen_certificate);
        push_option(&mut pairs, TLS_LISTEN_PRIVATE_KEY_FILE, &config.listen_private_key);
        push_option(&mut pairs, TLS_CONNECT_CERTIFICATE_FILE, &config.connect_certificate);
        push_option(&mut pairs, TLS_CONNECT_PRIVATE_KEY_FILE, &config.connect_private_key);
        let enable_mtls = match config.enable_mtls {
            Some(b) => b,
            None => BT_L2CAP_TLS_ENABLE_MTLS_DEFAULT,
        };
        push_pair(&mut pairs, TLS_ENABLE_MTLS, text::write_bool(enable_mtls));
        let verify_name = match config.verify_name_on_connect {
            Some(b) => b,
            None => BT_L2CAP_TLS_VERIFY_NAME_ON_CONNECT_DEFAULT,
        };
        push_pair(&mut pairs, TLS_VERIFY_NAME_ON_CONNECT, text::write_bool(verify_name));
        assert(params::pairs_view(pairs@) =~= config.pairs());
        params::params_from_pairs(&pairs)
    }
}

/// The switch that a parameter list sets, or the default where it does not say
/// `true` or `false`.
pub open spec fn switch(list: Seq<char>, key: Seq<char>, default: bool) -> bool {
    match params::param_value(list, key) {
        Some(s) => match text::bool_value(s) {
            Some(b) => b,
            None => default,
        },
        None => default,
    }
}

/// Reads a switch.
fn read_switch(list: &str, key: &str, default: bool) -> (b: bool)
    ensures
        b == switch(list@, key@, default),
{
    match params::params_get(list, key) {
        Some(s) => match text::parse_bool(s.as_str()) {
            Some(b) => b,
            None => default,
        },
        None => default,
    }
}

/// Whether a key survives being written into a parameter list.
pub open spec fn key_is_plain(key: Seq<char>) -> bool {
    key.len() > 0 && !key.contains('=') && !key.contains(';')
}

/// The keys are plain, and no two are the same.
proof fn lemma_keys()
    ensures
        key_is_plain(TLS_ROOT_CA_CERTIFICATE_FILE@),
        key_is_plain(TLS_LISTEN_CERTIFICATE_FILE@),
        key_is_plain(TLS_LISTEN_PRIVATE_KEY_FILE@),
        key_is_plain(TLS_CONNECT_CERTIFICATE_FILE@),
        key_is_plain(TLS_CONNECT_PRIVATE_KEY_FILE@),
        key_is_plain(TLS_ENABLE_MTLS@),
        key_is_plain(TLS_VERIFY_NAME_ON_CONNECT@),
        seq![
            TLS_ROOT_CA_CERTIFICATE_FILE@,
            TLS_LISTEN_CERTIFICATE_FILE@,
            TLS_LISTEN_PRIVATE_KEY_FILE@,
            TLS_CONNECT_CERTIFICATE_FILE@,
            TLS_CONNECT_PRIVATE_KEY_FILE@,
            TLS_ENABLE_MTLS@,
            TLS_VERIFY_NAME_ON_CONNECT@,
            TLS_HANDSHAKE_TIMEOUT_MS@,
        ].no_duplicates(),
{
    reveal_strlit("root_ca_certificate_file");
    reveal_strlit("listen_certificate_file");
    reveal_strlit("listen_private_key_file");
    reveal_strlit("connect_certificate_file");
    reveal_strlit("connect_private_key_file");
    reveal_strlit("enable_mtls");
    reveal_strlit("verify_name_on_connect");
    reveal_strlit("tls_handshake_timeout_ms");
    assert(TLS_ROOT_CA_CERTIFICATE_FILE@[0] == 'r');
    assert(TLS_LISTEN_CERTIFICATE_FILE@[0] == 'l');
    assert(TLS_LISTEN_CERTIFICATE_FILE@[7] == 'c');
    assert(TLS_LISTEN_PRIVATE_KEY_FILE@[0] == 'l');
    assert(TLS_LISTEN_PRIVATE_KEY_FILE@[7] == 'p');
    assert(TLS_CONNECT_CERTIFICATE_FILE@[0] == 'c');
    assert(TLS_CONNECT_CERTIFICATE_FILE@[8] == 'c');
    assert(TLS_CONNECT_PRIVATE_KEY_FILE@[0] == 'c');
    assert(TLS_CONNECT_PRIVATE_KEY_FILE@[8] == 'p');
    assert(TLS_ENABLE_MTLS@[0] == 'e');
    assert(TLS_VERIFY_NAME_ON_CONNECT@[0] == 'v');
    assert(TLS_HANDSHAKE_TIMEOUT_MS@[0] == 't');
}

/// Two lists of plain pairs make one.
proof fn lemma_plain_pairs_add(a: Seq<params::Pair>, b: Seq<params::Pair>)
    requires
        forall|i: int| 0 <= i < a.len() ==> params::pair_is_plain(#[trigger] a[i]),
        forall|i: int| 0 <= i < b.len() ==> params::pair_is_plain(#[trigger] b[i]),
    ensures
        forall|i: int| 0 <= i < (a + b).len() ==> params::pair_is_plain(#[trigger] (a + b)[i]),
{
    assert forall|i: int| 0 <= i < (a + b).len() implies params::pair_is_plain(
        #[trigger] (a + b)[i],
    ) by {
        if i < a.len() {
            assert((a + b)[i] == a[i]);
        } else {
            assert((a + b)[i] == b[i - a.len()]);
        }
    }
}

/// A text of a truth value holds no separator.
proof fn lemma_bool_text_is_plain(b: bool)
    ensures
        path_is_plain(Some(text::bool_text(b))),
{
    reveal_strlit("true");
    reveal_strlit("false");
    assert("true"@.len() == 4);
    assert("false"@.len() == 5);
}

/// The pairs of a configuration are plain where its paths are.
proof fn lemma_config_pairs_are_plain(config: TlsLinkConfig)
    requires
        config.paths_are_plain(),
    ensures
        forall|i: int|
            0 <= i < config.pairs().len() ==> params::pair_is_plain(#[trigger] config.pairs()[i]),
{
    lemma_keys();
    lemma_bool_text_is_plain(config.mtls());
    lemma_bool_text_is_plain(config.verify_name());
    let a = option_pair(TLS_ROOT_CA_CERTIFICATE_FILE@, option_text(config.root_ca_certificate));
    let b = option_pair(TLS_LISTEN_CERTIFICATE_FILE@, option_text(config.listen_certificate));
    let c = option_pair(TLS_LISTEN_PRIVATE_KEY_FILE@, option_text(config.listen_private_key));
    let d = option_pair(TLS_CONNECT_CERTIFICATE_FILE@, option_text(config.connect_certificate));
    let e = option_pair(TLS_CONNECT_PRIVATE_KEY_FILE@, option_text(config.connect_private_key));
    let f = option_pair(TLS_ENABLE_MTLS@, Some(text::bool_text(config.mtls())));
    let g = option_pair(TLS_VERIFY_NAME_ON_CONNECT@, Some(text::bool_text(config.verify_name())));
    lemma_plain_pairs_add(a, b);
    lemma_plain_pairs_add(a + b, c);
    lemma_plain_pairs_add(a + b + c, d);
    lemma_plain_pairs_add(a + b + c + d, e);
    lemma_plain_pairs_add(a + b + c + d + e, f);
    lemma_plain_pairs_add(a + b + c + d + e + f, g);
}

/// What a configuration holds for a key: the option with this key.
proof fn lemma_config_pair_value(config: TlsLinkConfig, key: Seq<char>)
    ensures
        params::pair_value(config.pairs(), key) == if key == TLS_ROOT_CA_CERTIFICATE_FILE@ {
            option_text(config.root_ca_certificate)
        } else if key == TLS_LISTEN_CERTIFICATE_FILE@ {
            option_text(config.listen_certificate)
        } else if key == TLS_LISTEN_PRIVATE_KEY_FILE@ {
            option_text(config.listen_private_key)
        } else if key == TLS_CONNECT_CERTIFICATE_FILE@ {
            option_text(config.connect_certificate)
        } else if key == TLS_CONNECT_PRIVATE_KEY_FILE@ {
            option_text(config.connect_private_key)
        } else if key == TLS_ENABLE_MTLS@ {
            Some(text::bool_text(config.mtls()))
        } else if key == TLS_VERIFY_NAME_ON_CONNECT@ {
            Some(text::bool_text(config.verify_name()))
        } else {
            None
        },
{
    lemma_keys();
    let keys = seq![
        TLS_ROOT_CA_CERTIFICATE_FILE@,
        TLS_LISTEN_CERTIFICATE_FILE@,
        TLS_LISTEN_PRIVATE_KEY_FILE@,
        TLS_CONNECT_CERTIFICATE_FILE@,
        TLS_CONNECT_PRIVATE_KEY_FILE@,
        TLS_ENABLE_MTLS@,
        TLS_VERIFY_NAME_ON_CONNECT@,
        TLS_HANDSHAKE_TIMEOUT_MS@,
    ];
    assert(forall|i: int, j: int| 0 <= i < j < 8 ==> keys[i] != keys[j]);
    assert(keys[0] == TLS_ROOT_CA_CERTIFICATE_FILE@);
    assert(keys[1] == TLS_LISTEN_CERTIFICATE_FILE@);
    assert(keys[2] == TLS_LISTEN_PRIVATE_KEY_FILE@);
    assert(keys[3] == TLS_CONNECT_CERTIFICATE_FILE@);
    assert(keys[4] == TLS_CONNECT_PRIVATE_KEY_FILE@);
    assert(keys[5] == TLS_ENABLE_MTLS@);
    assert(keys[6] == TLS_VERIFY_NAME_ON_CONNECT@);
    let a = option_pair(TLS_ROOT_CA_CERTIFICATE_FILE@, option_text(config.root_ca_certificate));
    let b = option_pair(TLS_LISTEN_CERTIFICATE_FILE@, option_text(config.listen_certificate));
    let c = option_pair(TLS_LISTEN_PRIVATE_KEY_FILE@, option_text(config.listen_private_key));
    let d = option_pair(TLS_CONNECT_CERTIFICATE_FILE@, option_text(config.connect_certificate));
    let e = option_pair(TLS_CONNECT_PRIVATE_KEY_FILE@, option_text(config.connect_private_key));
    let f = option_pair(TLS_ENABLE_MTLS@, Some(text::bool_text(config.mtls())));
    let g = option_pair(TLS_VERIFY_NAME_ON_CONNECT@, Some(text::bool_text(config.verify_name())));
    params::lemma_pair_value_add(a, b, key);
    params::lemma_pair_value_add(a + b, c, key);
    params::lemma_pair_value_add(a + b + c, d, key);
    params::lemma_pair_value_add(a + b + c + d, e, key);
    params::lemma_pair_value_add(a + b + c + d + e, f, key);
    params::lemma_pair_value_add(a + b + c + d + e + f, g, key);
    lemma_option_pair_value(
        TLS_ROOT_CA_CERTIFICATE_FILE@,
        option_text(config.root_ca_certificate),
        key,
    );
    lemma_option_pair_value(
        TLS_LISTEN_CERTIFICATE_FILE@,
        option_text(config.listen_certificate),
        key,
    );
    lemma_option_pair_value(
        TLS_LISTEN_PRIVATE_KEY_FILE@,
        option_text(config.listen_private_key),
        key,
    );
    lemma_option_pair_value(
        TLS_CONNECT_CERTIFICATE_FILE@,
        option_text(config.connect_certificate),
        key,
    );
    lemma_option_pair_value(
        TLS_CONNECT_PRIVATE_KEY_FILE@,
        option_text(config.connect_private_key),
        key,
    );
    lemma_option_pair_value(TLS_ENABLE_MTLS@, Some(text::bool_text(config.mtls())), key);
    lemma_option_pair_value(
        TLS_VERIFY_NAME_ON_CONNECT@,
        Some(text::bool_text(config.verify_name())),
        key,
    );
}

/// The pairs of one option hold its value for its key and nothing else.
proof fn lemma_option_pair_value(key: Seq<char>, value: Option<Seq<char>>, looked_up: Seq<char>)
    ensures
        params::pair_value(option_pair(key, value), looked_up) == if key == looked_up {
            value
        } else {
            None
        },
{
    reveal_with_fuel(params::pair_value, 2);
}

/// Whether a configuration says something for a key.
pub open spec fn is_config_key(key: Seq<char>) -> bool {
    ||| key == TLS_ROOT_CA_CERTIFICATE_FILE@
    ||| key == TLS_LISTEN_CERTIFICATE_FILE@
    ||| key == TLS_LISTEN_PRIVATE_KEY_FILE@
    ||| key == TLS_CONNECT_CERTIFICATE_FILE@
    ||| key == TLS_CONNECT_PRIVATE_KEY_FILE@
    ||| key == TLS_ENABLE_MTLS@
    ||| key == TLS_VERIFY_NAME_ON_CONNECT@
}

/// What the configuration says is what an endpoint that carries it says: every
/// path that is set reads back as it was, one that is not set reads back as not
/// set, and so do both switches with their defaults filled in. No other key is
/// set; so a handshake may take the default time. A path must not hold a `;`,
/// which would cut it short.
pub proof fn law_config_reads_back(config: TlsLinkConfig)
    requires
        config.paths_are_plain(),
    ensures
        ({
            let list = params::params_text(config.pairs());
            &&& params::param_value(list, TLS_ROOT_CA_CERTIFICATE_FILE@) == option_text(
                config.root_ca_certificate,
            )
            &&& params::param_value(list, TLS_LISTEN_CERTIFICATE_FILE@) == option_text(
                config.listen_certificate,
            )
            &&& params::param_value(list, TLS_LISTEN_PRIVATE_KEY_FILE@) == option_text(
                config.listen_private_key,
            )
            &&& params::param_value(list, TLS_CONNECT_CERTIFICATE_FILE@) == option_text(
                config.connect_certificate,
            )
            &&& params::param_value(list, TLS_CONNECT_PRIVATE_KEY_FILE@) == option_text(
                config.connect_private_key,
            )
            &&& forall|key: Seq<char>| #[trigger]
                params::param_value(list, key) is Some ==> is_config_key(key)
            &&& forall|default: bool| #[trigger]
                switch(list, TLS_ENABLE_MTLS@, default) == config.mtls()
            &&& forall|default: bool| #[trigger]
                switch(list, TLS_VERIFY_NAME_ON_CONNECT@, default) == config.verify_name()
            &&& handshake_ms(list) == TLS_HANDSHAKE_TIMEOUT_MS_DEFAULT
        }),
{
    lemma_keys();
    lemma_config_pairs_are_plain(config);
    let keys = seq![
        TLS_ROOT_CA_CERTIFICATE_FILE@,
        TLS_LISTEN_CERTIFICATE_FILE@,
        TLS_LISTEN_PRIVATE_KEY_FILE@,
        TLS_CONNECT_CERTIFICATE_FILE@,
        TLS_CONNECT_PRIVATE_KEY_FILE@,
        TLS_ENABLE_MTLS@,
        TLS_VERIFY_NAME_ON_CONNECT@,
        TLS_HANDSHAKE_TIMEOUT_MS@,
    ];
    assert forall|i: int| 0 <= i < 8 implies params::param_value(
        params::params_text(config.pairs()),
        #[trigger] keys[i],
    ) == params::pair_value(config.pairs(), keys[i]) by {
        params::law_params_read_back(config.pairs(), keys[i]);
    }
    assert forall|i: int, j: int| 0 <= i < j < 8 implies keys[i] != keys[j] by {}
    assert(keys[0] == TLS_ROOT_CA_CERTIFICATE_FILE@);
    assert(keys[1] == TLS_LISTEN_CERTIFICATE_FILE@);
    assert(keys[2] == TLS_LISTEN_PRIVATE_KEY_FILE@);
    assert(keys[3] == TLS_CONNECT_CERTIFICATE_FILE@);
    assert(keys[4] == TLS_CONNECT_PRIVATE_KEY_FILE@);
    assert(keys[5] == TLS_ENABLE_MTLS@);
    assert(keys[6] == TLS_VERIFY_NAME_ON_CONNECT@);
    assert(keys[7] == TLS_HANDSHAKE_TIMEOUT_MS@);
    assert forall|key: Seq<char>| #[trigger]
        params::param_value(
            params::params_text(config.pairs()),
            key,
        ) is Some implies is_config_key(key) by {
        params::law_params_read_back(config.pairs(), key);
        lemma_config_pair_value(config, key);
    }
    lemma_config_pair_value(config, keys[0]);
    lemma_config_pair_value(config, keys[1]);
    lemma_config_pair_value(config, keys[2]);
    lemma_config_pair_value(config, keys[3]);
    lemma_config_pair_value(config, keys[4]);
    lemma_config_pair_value(config, keys[5]);
    lemma_config_pair_value(config, keys[6]);
    lemma_config_pair_value(config, keys[7]);
    text::law_bool_text_reads_back(config.mtls());
    text::law_bool_text_reads_back(config.verify_name());
}

/// A switch that the configuration sets reads back as it was set, whatever the
/// reader takes for a default: what was switched on is on, what was switched off is
/// off. Where the configuration does not say, both peers show certificates and the
/// name of a server is not verified.
pub proof fn law_switches_read_back(config: TlsLinkConfig, b: bool, default: bool)
    requires
        config.paths_are_plain(),
    ensures
        ({
            let list = params::params_text(config.pairs());
            &&& config.enable_mtls == Some(b) ==> switch(list, "enable_mtls"@, default) == b
            &&& config.enable_mtls is None ==> switch(list, "enable_mtls"@, default) == true
            &&& config.verify_name_on_connect == Some(b) ==> switch(
                list,
                "verify_name_on_connect"@,
                default,
            ) == b
            &&& config.verify_name_on_connect is None ==> switch(
                list,
                "verify_name_on_connect"@,
                default,
            ) == false
        }),
{
    law_config_reads_back(config);
}

/// What a configuration comes to, key by key: each path under the key of its own,
/// exactly where it is set, and both switches as `true` or `false` in any case.
pub proof fn law_config_is_told_by_key(config: TlsLinkConfig, b: bool)
    requires
        config.paths_are_plain(),
    ensures
        ({
            let list = params::params_text(config.pairs());
            let told = |key: Seq<char>| params::param_value(list, key);
            let word = if b {
                seq!['t', 'r', 'u', 'e']
            } else {
                seq!['f', 'a', 'l', 's', 'e']
            };
            &&& told("root_ca_certificate_file"@) is Some <==> config.root_ca_certificate is Some
            &&& config.root_ca_certificate matches Some(path) ==> told(
                "root_ca_certificate_file"@,
            ) == Some(path@)
            &&& told("listen_certificate_file"@) is Some <==> config.listen_certificate is Some
            &&& config.listen_certificate matches Some(path) ==> told("listen_certificate_file"@)
                == Some(path@)
            &&& told("listen_private_key_file"@) is Some <==> config.listen_private_key is Some
            &&& config.listen_private_key matches Some(path) ==> told("listen_private_key_file"@)
                == Some(path@)
            &&& told("connect_certificate_file"@) is Some <==> config.connect_certificate is Some
            &&& config.connect_certificate matches Some(path) ==> told("connect_certificate_file"@)
                == Some(path@)
            &&& told("connect_private_key_file"@) is Some <==> config.connect_private_key is Some
            &&& config.connect_private_key matches Some(path) ==> told("connect_private_key_file"@)
                == Some(path@)
            &&& config.enable_mtls == Some(b) ==> told("enable_mtls"@) == Some(word)
            &&& config.enable_mtls is None && b ==> told("enable_mtls"@) == Some(word)
            &&& config.verify_name_on_connect == Some(b) ==> told("verify_name_on_connect"@)
                == Some(word)
            &&& config.verify_name_on_connect is None && !b ==> told("verify_name_on_connect"@)
                == Some(word)
        }),
{
    let list = params::params_text(config.pairs());
    law_config_reads_back(config);
    lemma_keys();
    lemma_config_pairs_are_plain(config);
    params::law_params_read_back(config.pairs(), TLS_ENABLE_MTLS@);
    params::law_params_read_back(config.pairs(), TLS_VERIFY_NAME_ON_CONNECT@);
    lemma_config_pair_value(config, TLS_ENABLE_MTLS@);
    lemma_config_pair_value(config, TLS_VERIFY_NAME_ON_CONNECT@);
    reveal_strlit("enable_mtls");
    reveal_strlit("verify_name_on_connect");
    reveal_strlit("root_ca_certificate_file");
    reveal_strlit("listen_certificate_file");
    reveal_strlit("listen_private_key_file");
    reveal_strlit("connect_certificate_file");
    reveal_strlit("connect_private_key_file");
    assert(TLS_ENABLE_MTLS@[0] == 'e');
    assert(TLS_VERIFY_NAME_ON_CONNECT@[0] == 'v');
    assert(TLS_ROOT_CA_CERTIFICATE_FILE@[0] == 'r');
    assert(TLS_LISTEN_CERTIFICATE_FILE@[0] == 'l');
    assert(TLS_LISTEN_PRIVATE_KEY_FILE@[0] == 'l');
    assert(TLS_CONNECT_CERTIFICATE_FILE@[0] == 'c');
    assert(TLS_CONNECT_PRIVATE_KEY_FILE@[0] == 'c');
    text::law_each_truth_value_has_one_text(Seq::empty());
}

/// A switch is on exactly where a list says `true` for it, or says neither `true`
/// nor `false` and it is on by default.
pub proof fn law_switch_says_what_the_list_says(list: Seq<char>, key: Seq<char>, default: bool)
    ensures
        switch(list, key, default) <==> params::param_value(list, key) == Some(
            seq!['t', 'r', 'u', 'e'],
        ) || (default && params::param_value(list, key) != Some(seq!['f', 'a', 'l', 's', 'e'])),
{
    match params::param_value(list, key) {
        Some(s) => {
            text::law_each_truth_value_has_one_text(s);
            assert(seq!['t', 'r', 'u', 'e'].len() != seq!['f', 'a', 'l', 's', 'e'].len());
        },
        None => {},
    }
}

/// How long a handshake may take in milliseconds, by a parameter list. What is
/// not an unsigned number of 64 bits is passed over.
pub open spec fn handshake_ms(list: Seq<char>) -> nat {
    match params::param_value(list, TLS_HANDSHAKE_TIMEOUT_MS@) {
        Some(s) => match text::unsigned_value(s) {
            Some(n) => if n <= u64::MAX {
                n
            } else {
                TLS_HANDSHAKE_TIMEOUT_MS_DEFAULT as nat
            },
            None => TLS_HANDSHAKE_TIMEOUT_MS_DEFAULT as nat,
        },
        None => TLS_HANDSHAKE_TIMEOUT_MS_DEFAULT as nat,
    }
}

/// How long a handshake may take in milliseconds, by the configuration of an
/// endpoint.
pub fn handshake_timeout_ms(list: &str) -> (ms: u64)
    ensures
        ms as nat == handshake_ms(list@),
{
    match params::params_get(list, TLS_HANDSHAKE_TIMEOUT_MS) {
        Some(s) => match text::parse_u64(s.as_str()) {
            Some(n) => n,
            None => TLS_HANDSHAKE_TIMEOUT_MS_DEFAULT,
        },
        None => TLS_HANDSHAKE_TIMEOUT_MS_DEFAULT,
    }
}

/// A handshake may take as many milliseconds as the list says, where it says a
/// number that 64 bits hold, and ten seconds otherwise.
pub proof fn law_handshake_takes_as_long_as_said(list: Seq<char>, n: nat)
    ensures
        ({
            let said = params::param_value(list, "tls_handshake_timeout_ms"@);
            let number = if said is Some {
                text::unsigned_value(said->0)
            } else {
                None
            };
            &&& number == Some(n) && n <= 0xFFFF_FFFF_FFFF_FFFF ==> handshake_ms(list) == n
            &&& number == Some(n) && n > 0xFFFF_FFFF_FFFF_FFFF ==> handshake_ms(list) == 10_000
            &&& number is None ==> handshake_ms(list) == 10_000
        }),
{
}

/// The configuration of an endpoint lacks a parameter.
#[derive(Debug)]
pub struct MissingParameter {
    pub key: &'static str,
}

/// Where a connector gets the certificate from that it shows.
pub enum ClientIdentity {
    /// It shows none.
    Absent,
    /// From these files.
    Files { certificate: String, private_key: String },
    /// From nowhere: only one of the two files is named.
    Unpaired,
}

/// Where a connector gets its certificates from, and what it verifies.
pub struct ConnectorPlan {
    pub root_ca: String,
    pub verify_name: bool,
    pub identity: ClientIdentity,
}

/// Whether an identity is what a parameter list says.
pub open spec fn identity_is(identity: ClientIdentity, list: Seq<char>) -> bool {
    let certificate = params::param_value(list, TLS_CONNECT_CERTIFICATE_FILE@);
    let private_key = params::param_value(list, TLS_CONNECT_PRIVATE_KEY_FILE@);
    match identity {
        ClientIdentity::Absent => certificate is None && private_key is None,
        ClientIdentity::Files { certificate: c, private_key: k } => certificate == Some(c@)
            && private_key == Some(k@),
        ClientIdentity::Unpaired => certificate is Some != private_key is Some,
    }
}

/// Whether a connector is planned as a parameter list says.
pub open spec fn connector_is(plan: ConnectorPlan, list: Seq<char>) -> bool {
    &&& Some(plan.root_ca@) == params::param_value(list, TLS_ROOT_CA_CERTIFICATE_FILE@)
    &&& plan.verify_name == switch(
        list,
        TLS_VERIFY_NAME_ON_CONNECT@,
        BT_L2CAP_TLS_VERIFY_NAME_ON_CONNECT_DEFAULT,
    )
    &&& identity_is(plan.identity, list)
}

/// Plans a connector by the configuration of an endpoint.
pub fn plan_connector(list: &str) -> (plan: Result<ConnectorPlan, MissingParameter>)
    ensures
        plan is Ok <==> params::param_value(list@, TLS_ROOT_CA_CERTIFICATE_FILE@) is Some,
        plan matches Ok(plan) ==> connector_is(plan, list@),
        plan matches Err(e) ==> e.key@ == TLS_ROOT_CA_CERTIFICATE_FILE@,
{
    let root_ca = match params::params_get(list, TLS_ROOT_CA_CERTIFICATE_FILE) {
        Some(path) => path,
        None => {
            return Err(MissingParameter { key: TLS_ROOT_CA_CERTIFICATE_FILE });
        },
    };
    let verify_name = read_switch(
        list,
        TLS_VERIFY_NAME_ON_CONNECT,
        BT_L2CAP_TLS_VERIFY_NAME_ON_CONNECT_DEFAULT,
    );
    let certificate = params::params_get(list, TLS_CONNECT_CERTIFICATE_FILE);
    let private_key = params::params_get(list, TLS_CONNECT_PRIVATE_KEY_FILE);
    let identity = match (certificate, private_key) {
        (Some(certificate), Some(private_key)) => ClientIdentity::Files {
            certificate,
            private_key,
        },
        (None, None) => ClientIdentity::Absent,
        _ => ClientIdentity::Unpaired,
    };
    Ok(ConnectorPlan { root_ca, verify_name, identity })
}

/// Where a listener gets its certificates from.
pub struct AcceptorPlan {
    pub certificate: String,
    pub private_key: String,
    /// The certificates that clients are verified against, where they have to
    /// show one.
    pub client_ca: Option<String>,
}

/// The parameter that the plan of a listener lacks, if it lacks one.
pub open spec fn acceptor_lacks(list: Seq<char>) -> Option<Seq<char>> {
    if params::param_value(list, TLS_LISTEN_CERTIFICATE_FILE@) is None {
        Some(TLS_LISTEN_CERTIFICATE_FILE@)
    } else if params::param_value(list, TLS_LISTEN_PRIVATE_KEY_FILE@) is None {
        Some(TLS_LISTEN_PRIVATE_KEY_FILE@)
    } else if switch(list, TLS_ENABLE_MTLS@, BT_L2CAP_TLS_ENABLE_MTLS_DEFAULT)
        && params::param_value(list, TLS_ROOT_CA_CERTIFICATE_FILE@) is None {
        Some(TLS_ROOT_CA_CERTIFICATE_FILE@)
    } else {
        None
    }
}

/// Whether a listener is planned as a parameter list says.
pub open spec fn acceptor_is(plan: AcceptorPlan, list: Seq<char>) -> bool {
    &&& Some(plan.certificate@) == params::param_value(list, TLS_LISTEN_CERTIFICATE_FILE@)
    &&& Some(plan.private_key@) == params::param_value(list, TLS_LISTEN_PRIVATE_KEY_FILE@)
    &&& option_text(plan.client_ca) == if switch(
        list,
        TLS_ENABLE_MTLS@,
        BT_L2CAP_TLS_ENABLE_MTLS_DEFAULT,
    ) {
        params::param_value(list, TLS_ROOT_CA_CERTIFICATE_FILE@)
    } else {
        None
    }
}

/// Plans a listener by the configuration of an endpoint.
pub fn plan_acceptor(list: &str) -> (plan: Result<AcceptorPlan, MissingParameter>)
    ensures
        plan is Ok <==> acceptor_lacks(list@) is None,
        plan matches Ok(plan) ==> acceptor_is(plan, list@),
        plan matches Err(e) ==> acceptor_lacks(list@) == Some(e.key@),
{
    let certificate = match params::params_get(list, TLS_LISTEN_CERTIFICATE_FILE) {
        Some(path) => path,
        None => {
            return Err(MissingParameter { key: TLS_LISTEN_CERTIFICATE_FILE });
        },
    };
    let private_key = match params::params_get(list, TLS_LISTEN_PRIVATE_KEY_FILE) {
        Some(path) => path,
        None => {
            return Err(MissingParameter { key: TLS_LISTEN_PRIVATE_KEY_FILE });
        },
    };
    let client_ca = if read_switch(list, TLS_ENABLE_MTLS, BT_L2CAP_TLS_ENABLE_MTLS_DEFAULT) {
        match params::params_get(list, TLS_ROOT_CA_CERTIFICATE_FILE) {
            Some(path) => Some(path),
            None => {
                return Err(MissingParameter { key: TLS_ROOT_CA_CERTIFICATE_FILE });
            },
        }
    } else {
        None
    };
    Ok(AcceptorPlan { certificate, private_key, client_ca })
}

/// A connector that is planned by the parameter list of a configuration follows
/// the configuration: its root, its switch and both paths of its identity.
pub proof fn law_connector_follows_config(config: TlsLinkConfig, plan: ConnectorPlan)
    requires
        config.paths_are_plain(),
        connector_is(plan, params::params_text(config.pairs())),
    ensures
        Some(plan.root_ca@) == option_text(config.root_ca_certificate),
        plan.verify_name == config.verify_name(),
        plan.verify_name <==> config.verify_name_on_connect == Some(true),
        match plan.identity {
            ClientIdentity::Absent => config.connect_certificate is None
                && config.connect_private_key is None,
            ClientIdentity::Files { certificate, private_key } => option_text(
                config.connect_certificate,
            ) == Some(certificate@) && option_text(config.connect_private_key) == Some(
                private_key@,
            ),
            ClientIdentity::Unpaired => config.connect_certificate is Some
                != config.connect_private_key is Some,
        },
{
    law_config_reads_back(config);
}

/// A listener that is planned by the parameter list of a configuration follows
/// the configuration: both its paths, and the root exactly where both peers show
/// certificates.
pub proof fn law_acceptor_follows_config(config: TlsLinkConfig, plan: AcceptorPlan)
    requires
        config.paths_are_plain(),
        acceptor_is(plan, params::params_text(config.pairs())),
    ensures
        Some(plan.certificate@) == option_text(config.listen_certificate),
        Some(plan.private_key@) == option_text(config.listen_private_key),
        option_text(plan.client_ca) == if config.mtls() {
            option_text(config.root_ca_certificate)
        } else {
            None
        },
        plan.client_ca is Some <==> config.enable_mtls != Some(false)
            && config.root_ca_certificate is Some,
{
    law_config_reads_back(config);
}

/// A connector that is planned by any parameter list verifies servers against the
/// root that the list names, and their name exactly where the list says `true`. It
/// shows a certificate exactly where both of its files are named, and these are the
/// files; where only one is, that is noticed.
pub proof fn law_connector_follows_list(plan: ConnectorPlan, list: Seq<char>)
    requires
        connector_is(plan, list),
    ensures
        ({
            let certificate = params::param_value(list, "connect_certificate_file"@);
            let private_key = params::param_value(list, "connect_private_key_file"@);
            &&& params::param_value(list, "root_ca_certificate_file"@) == Some(plan.root_ca@)
            &&& plan.verify_name <==> params::param_value(list, "verify_name_on_connect"@) == Some(
                seq!['t', 'r', 'u', 'e'],
            )
            &&& plan.identity is Absent <==> certificate is None && private_key is None
            &&& plan.identity is Files <==> certificate is Some && private_key is Some
            &&& plan.identity matches ClientIdentity::Files { certificate: c, private_key: k }
                ==> certificate == Some(c@) && private_key == Some(k@)
        }),
{
    law_switch_says_what_the_list_says(list, TLS_VERIFY_NAME_ON_CONNECT@, false);
}

/// A listener that is planned by any parameter list shows what the two files hold
/// that the list names. It asks clients for certificates unless the list says
/// `false`, and verifies them against the root that the list names.
pub proof fn law_acceptor_follows_list(plan: AcceptorPlan, list: Seq<char>)
    requires
        acceptor_is(plan, list),
    ensures
        params::param_value(list, "listen_certificate_file"@) == Some(plan.certificate@),
        params::param_value(list, "listen_private_key_file"@) == Some(plan.private_key@),
        params::param_value(list, "enable_mtls"@) == Some(seq!['f', 'a', 'l', 's', 'e'])
            ==> plan.client_ca is None,
        params::param_value(list, "enable_mtls"@) != Some(seq!['f', 'a', 'l', 's', 'e'])
            ==> option_text(plan.client_ca) == params::param_value(
            list,
            "root_ca_certificate_file"@,
        ),
{
    law_switch_says_what_the_list_says(list, TLS_ENABLE_MTLS@, true);
    assert(seq!['t', 'r', 'u', 'e'].len() != seq!['f', 'a', 'l', 's', 'e'].len());
}

/// A list is enough for a listener exactly where it names a certificate and a key
/// and, unless clients need none, a root. What is missed first is told, in this
/// order.
pub proof fn law_listener_needs_its_files(list: Seq<char>)
    ensures
        ({
            let certificate = params::param_value(list, "listen_certificate_file"@);
            let private_key = params::param_value(list, "listen_private_key_file"@);
            let root = params::param_value(list, "root_ca_certificate_file"@);
            let for_anyone = params::param_value(list, "enable_mtls"@) == Some(
                seq!['f', 'a', 'l', 's', 'e'],
            );
            &&& acceptor_lacks(list) is None <==> certificate is Some && private_key is Some && (
            root is Some || for_anyone)
            &&& certificate is None ==> acceptor_lacks(list) == Some("listen_certificate_file"@)
            &&& certificate is Some && private_key is None ==> acceptor_lacks(list) == Some(
                "listen_private_key_file"@,
            )
            &&& certificate is Some && private_key is Some && root is None && !for_anyone
                ==> acceptor_lacks(list) == Some("root_ca_certificate_file"@)
        }),
{
    law_switch_says_what_the_list_says(list, TLS_ENABLE_MTLS@, true);
    assert(seq!['t', 'r', 'u', 'e'].len() != seq!['f', 'a', 'l', 's', 'e'].len());
}

} // verus!
