use vstd::prelude::*;

use crate::errors::ConfigError;

verus! {

/// The view of an optional setting: present with its characters, or absent.
pub open spec fn opt_view(o: Option<String>) -> Option<Seq<char>> {
    match o {
        Some(s) => Some(s@),
        None => None,
    }
}

/// The views of an optional list of path settings.
pub open spec fn opt_list_view(o: Option<Vec<String>>) -> Option<Seq<Seq<char>>> {
    match o {
        Some(v) => Some(v.deep_view()),
        None => None,
    }
}

/// One layer of configuration, as a file, the command line or the built-in
/// defaults supply it. Every entry is optional; layers are merged with a
/// fixed precedence before the result is validated.
#[derive(Debug)]
pub struct FileConfig {
    /// Relay address to connect to.
    pub relay: Option<String>,
    /// Path of the local private key (PEM, PKCS#8).
    pub client_key: Option<String>,
    /// Paths of the peers' public keys (PEM).
    pub peers_keys: Option<Vec<String>>,
}

/// A configuration with every required entry present: what the client
/// session is actually built from.
#[derive(Debug)]
pub struct ResolvedConfig {
    /// Relay address to connect to.
    pub relay: String,
    /// Path of the local private key.
    pub client_key: String,
    /// Paths of the peers' public keys; empty when no peers were given.
    pub peers_keys: Vec<String>,
}

/// The built-in defaults: only the relay address has one.
pub fn default_config() -> (r: FileConfig)
    ensures
        opt_view(r.relay) == Some("130.61.88.218:5200"@),
        r.client_key is None,
        r.peers_keys is None,
{
    FileConfig { relay: Some("130.61.88.218:5200".to_owned()), client_key: None, peers_keys: None }
}

/// Merge two configuration layers: wherever `over` has an entry it wins,
/// wherever it has none the entry of `base` is kept. Applying this first
/// to the defaults and a config file and then to the command line gives
/// the precedence defaults < file < flags.
pub fn merge(base: FileConfig, over: FileConfig) -> (r: FileConfig)
    ensures
        opt_view(r.relay) == (if over.relay is Some {
            opt_view(over.relay)
        } else {
            opt_view(base.relay)
        }),
        opt_view(r.client_key) == (if over.client_key is Some {
            opt_view(over.client_key)
        } else {
            opt_view(base.client_key)
        }),
        opt_list_view(r.peers_keys) == (if over.peers_keys is Some {
            opt_list_view(over.peers_keys)
        } else {
            opt_list_view(base.peers_keys)
        }),
{
    let relay = match over.relay {
        Some(s) => Some(s),
        None => base.relay,
    };
    let client_key = match over.client_key {
        Some(s) => Some(s),
        None => base.client_key,
    };
    let peers_keys = match over.peers_keys {
        Some(v) => Some(v),
        None => base.peers_keys,
    };
    FileConfig { relay, client_key, peers_keys }
}

/// Validate a merged configuration. Succeeds exactly when a relay address
/// and a private-key path are present; a missing relay is reported before
/// a missing key; absent peer keys become the empty list.
pub fn finalize(cfg: FileConfig) -> (r: Result<ResolvedConfig, ConfigError>)
    ensures
        r is Ok <==> (cfg.relay is Some && cfg.client_key is Some),
        r matches Ok(res) ==> {
            &&& Some(res.relay@) == opt_view(cfg.relay)
            &&& Some(res.client_key@) == opt_view(cfg.client_key)
            &&& Some(res.peers_keys.deep_view()) == (if cfg.peers_keys is Some {
                opt_list_view(cfg.peers_keys)
            } else {
                Some(Seq::<Seq<char>>::empty())
            })
        },
        cfg.relay is None ==> r == Result::<ResolvedConfig, ConfigError>::Err(ConfigError::MissingRelay),
        (cfg.relay is Some && cfg.client_key is None) ==> r == Result::<
            ResolvedConfig,
            ConfigError,
        >::Err(ConfigError::MissingClientKey),
{
    let relay = match cfg.relay {
        Some(s) => s,
        None => {
            return Err(ConfigError::MissingRelay);
        },
    };
    let client_key = match cfg.client_key {
        Some(s) => s,
        None => {
            return Err(ConfigError::MissingClientKey);
        },
    };
    let peers_keys = match cfg.peers_keys {
        Some(v) => v,
        None => Vec::new(),
    };
    Ok(ResolvedConfig { relay, client_key, peers_keys })
}

} // verus!
