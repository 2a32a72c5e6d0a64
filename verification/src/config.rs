//! What the server was started with, and what follows from it.

use crate::site::UISource;
use include_dir::Dir;
use vstd::prelude::*;

verus! {

/// The address that the server listens on.
pub const LISTEN_ADDRESS: &'static str = "0.0.0.0:8080";

/// The path of the endpoint that answers a ping.
pub const PING_PATH: &'static str = "/api/ping";

/// What the ping endpoint answers.
pub const PING_REPLY: &'static str = "Get ponged :sunglasses:";

/// The server's settings.
pub struct Config {
    pub db_config: DBConfig,
    /// Dynamically serve the web frontend from this path instead of the
    /// bundled frontend.
    pub frontend_path: Option<String>,
    /// Do not serve a frontend webpage.
    pub no_ui: bool,
}

/// How the server reaches its database. One of the two must be given.
pub struct DBConfig {
    pub database_url: Option<String>,
    /// Run without a database: all API calls return a default response.
    /// Intended for testing purposes.
    pub no_db: bool,
}

impl DBConfig {
    /// At least one of the two settings was given.
    pub open spec fn is_complete(&self) -> bool {
        self.database_url is Some || self.no_db
    }

    /// The database to connect to: none where the server runs without one,
    /// whether or not an address was given as well.
    pub open spec fn target(&self) -> Option<String> {
        if self.no_db {
            None
        } else {
            self.database_url
        }
    }

    /// The address of the database to connect to, if the server is to have
    /// one.
    pub fn database(&self) -> (url: Option<&String>)
        ensures
            self.target() == match url {
                Some(url) => Some(*url),
                None => None,
            },
            url is Some <==> !self.no_db && self.database_url is Some,
            self.is_complete() ==> (url is None <==> self.no_db),
    {
        if self.no_db {
            None
        } else {
            self.database_url.as_ref()
        }
    }
}

impl Config {
    /// Where the UI comes from under these settings: nowhere if the UI is
    /// switched off, else the directory given, else the bundle.
    pub open spec fn chosen_ui(self, bundle: &'static Dir<'static>) -> UISource {
        if self.no_ui {
            UISource::NoUi
        } else {
            match self.frontend_path {
                Some(dir) => UISource::Dynamic(dir),
                None => UISource::Bundled(bundle),
            }
        }
    }

    /// Picks the source of the UI. `bundle` holds the files that were built
    /// into the program.
    pub fn ui_source(self, bundle: &'static Dir<'static>) -> (source: UISource)
        ensures
            source == self.chosen_ui(bundle),
    {
        if self.no_ui {
            UISource::NoUi
        } else {
            match self.frontend_path {
                Some(dir) => UISource::Dynamic(dir),
                None => UISource::bundled(bundle),
            }
        }
    }
}

} // verus!
