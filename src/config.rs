use vstd::prelude::*;

verus! {

/// Runtime configuration: endpoints, keys and switches.
#[derive(Clone, Debug)]
pub struct Env {
    /// HTTPS endpoint of the node.
    pub https_url: String,
    /// WebSocket endpoint of the node.
    pub wss_url: String,
    /// Address of the deployed bot contract.
    pub bot_address: String,
    /// Key of the owner account that signs the bundle transactions.
    pub private_key: String,
    /// Key that signs bundles towards the relays.
    pub identity_key: String,
    pub telegram_token: String,
    pub telegram_chat_id: String,
    /// Whether alerts are sent.
    pub use_alert: bool,
    /// Whether debug output is on.
    pub debug: bool,
}

/// The flag that a configuration text spells: `true` or `false` exactly.
pub open spec fn flag_text(s: Seq<char>) -> Option<bool> {
    if s == "true"@ {
        Some(true)
    } else if s == "false"@ {
        Some(false)
    } else {
        None
    }
}

/// Relies on `<bool as FromStr>::from_str`, which accepts exactly "true" and
/// "false".
#[verifier::external_body]
fn parse_flag(s: &str) -> (r: Option<bool>)
    ensures
        r == flag_text(s@),
{
    s.parse::<bool>().ok()
}

impl Env {
    /// Builds the configuration from the values of its variables; `None`
    /// when `use_alert` or `debug` is not `true` or `false`.
    pub fn new(
        https_url: String,
        wss_url: String,
        bot_address: String,
        private_key: String,
        identity_key: String,
        telegram_token: String,
        telegram_chat_id: String,
        use_alert: &str,
        debug: &str,
    ) -> (r: Option<Env>)
        ensures
            r is Some <==> flag_text(use_alert@) is Some && flag_text(debug@) is Some,
            r matches Some(e) ==> {
                &&& e.https_url == https_url
                &&& e.wss_url == wss_url
                &&& e.bot_address == bot_address
                &&& e.private_key == private_key
                &&& e.identity_key == identity_key
                &&& e.telegram_token == telegram_token
                &&& e.telegram_chat_id == telegram_chat_id
                &&& Some(e.use_alert) == flag_text(use_alert@)
                &&& Some(e.debug) == flag_text(debug@)
            },
    {
        let use_alert = match parse_flag(use_alert) {
            Some(b) => b,
            None => return None,
        };
        let debug = match parse_flag(debug) {
            Some(b) => b,
            None => return None,
        };
        Some(
            Env {
                https_url,
                wss_url,
                bot_address,
                private_key,
                identity_key,
                telegram_token,
                telegram_chat_id,
                use_alert,
                debug,
            },
        )
    }
}

/// How a sandwich is financed: from the bot's own balance in three
/// transactions, or with a flash loan in one.
#[derive(Clone, Copy, Debug, PartialEq, Eq, Structural)]
pub enum SandwichMode {
    Traditional,
    FlashloanV3,
}

} // verus!
