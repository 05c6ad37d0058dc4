use vstd::prelude::*;

use crate::error::Error;

verus! {

/// What a site's storage and download must support. Paths are strings.
pub trait SiteIO {
    fn site_path(&self) -> String;

    fn content_path(&self) -> String;

    /// Starts fetching the site from peers; reports `Ok(false)` where that is not available.
    fn init_download(&mut self) -> Result<bool, Error>;

    fn load_storage(path: &str) -> Result<bool, Error>;

    fn save_storage(&self) -> Result<bool, Error>;
}

/// What user data must support.
pub trait UserIO {
    type IOType;

    fn load() -> Result<Self::IOType, Error>;

    fn save(&self) -> Result<bool, Error>;
}

/// What a site's signed content manifest must support.
pub trait ContentMod {
    type Content;

    fn load_content_from_path(&self, inner_path: String) -> Result<Self::Content, Error>;

    fn add_file_to_content(&mut self, path: String) -> Result<(), Error>;

    fn sign_content(&mut self, inner_path: Option<&str>, private_key: &str) -> Result<(), Error>;

    fn save_content(&mut self, inner_path: Option<&str>) -> Result<(), Error>;
}

} // verus!
