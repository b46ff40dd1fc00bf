//! Plain settings records. All text is held as bytes; the process edge
//! converts to and from its configuration format outside the library.
use vstd::prelude::*;

verus! {

/// The feed connection block of the configuration file.
#[derive(Clone, Debug)]
pub struct YbPriceFeedSettingsModel {
    pub host_port: Vec<u8>,
    pub sender_company_id: Vec<u8>,
    pub target_company_id: Vec<u8>,
    pub user_password: Vec<u8>,
}

/// The whole configuration record of the bridge.
#[derive(Clone, Debug)]
pub struct SettingsModel {
    pub seq_conn_string: Vec<u8>,
    pub my_no_sql_tcp_reader: Vec<u8>,
    pub liquidity_provider_id: Vec<u8>,
    pub my_telemetry: Vec<u8>,
    pub my_no_sql_writer: Vec<u8>,
    pub feed_settings: Option<YbPriceFeedSettingsModel>,
}

/// What the FIX Logon needs to present.
#[derive(Clone, Debug)]
pub struct LogonCredentials {
    pub password: Vec<u8>,
    pub sender: Vec<u8>,
    pub target: Vec<u8>,
}

/// The feed settings as the session uses them: endpoint and identity.
#[derive(Clone, Debug)]
pub struct YbPriceFeedSettings {
    pub time_stamp: Vec<u8>,
    pub url: Vec<u8>,
    pub pass: Vec<u8>,
    pub sender_company_id: Vec<u8>,
    pub target_company_id: Vec<u8>,
}

impl SettingsModel {
    /// The configured liquidity provider id.
    pub fn get_liquidity_provider_id(&self) -> (r: Vec<u8>)
        ensures
            r@ == self.liquidity_provider_id@,
    {
        self.liquidity_provider_id.clone()
    }

    /// The feed settings derived from the configuration block, if one is
    /// present: the block's host/port becomes the url, its password and
    /// company ids carry over, and the time stamp starts empty.
    pub fn get_yb_price_feed(&self) -> (r: Option<YbPriceFeedSettings>)
        ensures
            match r {
                Some(s) => self.feed_settings matches Some(m) && s.url@ == m.host_port@ && s.pass@
                    == m.user_password@ && s.sender_company_id@ == m.sender_company_id@
                    && s.target_company_id@ == m.target_company_id@ && s.time_stamp@
                    == Seq::<u8>::empty(),
                None => self.feed_settings is None,
            },
    {
        match &self.feed_settings {
            Some(m) => Some(
                YbPriceFeedSettings {
                    time_stamp: Vec::new(),
                    url: m.host_port.clone(),
                    pass: m.user_password.clone(),
                    sender_company_id: m.sender_company_id.clone(),
                    target_company_id: m.target_company_id.clone(),
                },
            ),
            None => None,
        }
    }
}

/// Which feed settings the session uses: the configuration block when it
/// is present, else what the product store offered, else nothing.
pub fn choose_feed_settings(
    from_reader: Option<YbPriceFeedSettings>,
    from_products: Option<YbPriceFeedSettings>,
) -> (r: Option<YbPriceFeedSettings>)
    ensures
        from_reader is Some ==> r == from_reader,
        from_reader is None ==> r == from_products,
{
    match from_reader {
        Some(s) => Some(s),
        None => from_products,
    }
}

/// Whether and where to connect: no endpoint without a loaded mapping and
/// without feed settings; otherwise the settings' url.
pub fn get_host_port(map_present: bool, settings: &Option<YbPriceFeedSettings>) -> (r: Option<
    Vec<u8>,
>)
    ensures
        !map_present ==> r is None,
        settings is None ==> r is None,
        map_present ==> match settings {
            Some(s) => match r {
                Some(url) => url@ == s.url@,
                None => false,
            },
            None => r is None,
        },
{
    if !map_present {
        return None;
    }
    match settings {
        Some(s) => Some(vstd::slice::slice_to_vec(s.url.as_slice())),
        None => None,
    }
}

/// The broadcast listener port: the default unless the override text
/// holds a port number; an override that is not one is refused, for the
/// caller to report.
pub fn resolve_port(custom: &Option<Vec<u8>>) -> (r: Option<u16>)
    ensures
        custom is None ==> r == Some(8085u16),
        custom matches Some(text) ==> match r {
            Some(p) => 1 <= text@.len() <= 18 && crate::text::all_digits(text@)
                && crate::text::dec_value(text@) == p && p <= 0xFFFF,
            None => !(1 <= text@.len() <= 18 && crate::text::all_digits(text@)
                && crate::text::dec_value(text@) <= 0xFFFF),
        },
{
    match custom {
        Some(text) => {
            match crate::text::parse_number(text.as_slice()) {
                Some(v) => {
                    if v <= 0xFFFF {
                        Some(v as u16)
                    } else {
                        None
                    }
                },
                None => None,
            }
        },
        None => Some(8085),
    }
}

} // verus!
