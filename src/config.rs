use vstd::prelude::*;

verus! {

/// Where the service keeps and sends its files.
#[derive(Clone, Debug)]
pub struct Config {
    pub media_server_path: String,
    pub download_dir: String,
    pub processed_dir: String,
}

impl Config {
    /// The built-in settings.
    pub fn load() -> (r: Self)
        ensures
            r.media_server_path@ == "/path/to/media/server"@,
            r.download_dir@ == "/tmp/pegasus/downloads"@,
            r.processed_dir@ == "/tmp/pegasus/processed"@,
    {
        Config {
            media_server_path: String::from_str("/path/to/media/server"),
            download_dir: String::from_str("/tmp/pegasus/downloads"),
            processed_dir: String::from_str("/tmp/pegasus/processed"),
        }
    }
}

} // verus!
