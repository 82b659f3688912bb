//! What the user configures.

use vstd::prelude::*;
use crate::views::opt_view;

verus! {

/// The settings of the reader: where the remote service is, who logs in,
/// and which program opens links.
#[derive(Debug)]
pub struct Config {
    pub fresh_rss_api_url: Option<String>,
    pub fresh_rss_api_user: Option<String>,
    pub fresh_rss_api_password: Option<String>,
    pub browser: Option<String>,
}

/// What the settings hold, as plain values.
pub struct ConfigView {
    pub fresh_rss_api_url: Option<Seq<char>>,
    pub fresh_rss_api_user: Option<Seq<char>>,
    pub fresh_rss_api_password: Option<Seq<char>>,
    pub browser: Option<Seq<char>>,
}

impl ConfigView {
    /// The base URL, the user name and the password are all there.
    pub open spec fn has_credentials(self) -> bool {
        self.fresh_rss_api_url is Some && self.fresh_rss_api_user is Some
            && self.fresh_rss_api_password is Some
    }
}

impl View for Config {
    type V = ConfigView;

    open spec fn view(&self) -> ConfigView {
        ConfigView {
            fresh_rss_api_url: opt_view(self.fresh_rss_api_url),
            fresh_rss_api_user: opt_view(self.fresh_rss_api_user),
            fresh_rss_api_password: opt_view(self.fresh_rss_api_password),
            browser: opt_view(self.browser),
        }
    }
}

impl Default for Config {
    fn default() -> (r: Self)
        ensures
            r@ == (ConfigView {
                fresh_rss_api_url: None,
                fresh_rss_api_user: None,
                fresh_rss_api_password: None,
                browser: None,
            }),
    {
        Config {
            fresh_rss_api_url: None,
            fresh_rss_api_user: None,
            fresh_rss_api_password: None,
            browser: None,
        }
    }
}

} // verus!
