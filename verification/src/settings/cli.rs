//! The options that the command line gives.

use vstd::prelude::*;

verus! {

/// Commands besides serving.
#[derive(Debug)]
pub enum Commands {
    /// Write shell completions and man pages.
    Generate {
        /// Write shell completions.
        completions: bool,
        /// Write man pages.
        man_pages: bool,
        /// Where to write to.
        out_dir: String,
    },
}

impl Commands {
    /// Whether shell completions are written: where they are asked for, or nothing in particular is.
    pub fn writes_completions(&self) -> (r: bool)
        ensures
            r == (self->completions || !self->man_pages),
    {
        match self {
            Commands::Generate { completions, man_pages, .. } => *completions || !*man_pages,
        }
    }

    /// Whether man pages are written: where they are asked for, or nothing in particular is.
    pub fn writes_man_pages(&self) -> (r: bool)
        ensures
            r == (self->man_pages || !self->completions),
    {
        match self {
            Commands::Generate { completions, man_pages, .. } => *man_pages || !*completions,
        }
    }
}

/// General server options.
#[derive(Debug)]
pub struct General {
    /// Show the version and stop.
    pub version: bool,
    /// Host address.
    pub host: String,
    /// Host port.
    pub port: u16,
    /// Root directory of static files.
    pub root: String,
    /// Logging level in lower case.
    pub log_level: String,
    /// Log with ANSI escape codes.
    pub log_with_ansi: bool,
    /// The configuration file.
    pub config_file: String,
    /// Send cache control headers.
    pub cache_control_headers: bool,
    /// Compress responses.
    pub compression: bool,
    /// How hard to compress.
    pub compression_level: String,
    /// Look for pre-compressed files.
    pub compression_static: bool,
    /// HTML file for 404 errors.
    pub page404: String,
    /// HTML file for 50x errors.
    pub page50x: String,
    /// Serve HTTP/2 with TLS.
    pub http2: bool,
    /// TLS certificate file.
    pub http2_tls_cert: Option<String>,
    /// TLS private key file.
    pub http2_tls_key: Option<String>,
    /// Redirect from HTTP to HTTPS.
    pub https_redirect: bool,
    /// Host that HTTPS redirects lead to.
    pub https_redirect_host: String,
    /// Port that is redirected to HTTPS.
    pub https_redirect_from_port: u16,
    /// Hosts that are redirected to HTTPS.
    pub https_redirect_from_hosts: String,
    /// Send security headers.
    pub security_headers: bool,
    /// Allowed CORS origins.
    pub cors_allow_origins: String,
    /// Allowed CORS request headers.
    pub cors_allow_headers: String,
    /// Exposed CORS response headers.
    pub cors_expose_headers: String,
    /// List directories.
    pub directory_listing: bool,
    /// Order of directory listings.
    pub directory_listing_order: u8,
    /// Format of directory listings.
    pub directory_listing_format: String,
    /// Formats in which directories can be downloaded.
    pub directory_listing_download: Vec<String>,
    /// Credentials for basic authentication.
    pub basic_auth: String,
    /// File descriptor of an open listener.
    pub fd: Option<usize>,
    /// Worker threads per CPU.
    pub threads_multiplier: usize,
    /// Limit of blocking threads.
    pub max_blocking_threads: usize,
    /// Seconds to wait before shutdown.
    pub grace_period: u8,
    /// HTML file for missing pages.
    pub page_fallback: String,
    /// Log remote addresses.
    pub log_remote_address: bool,
    /// Log the `X-Real-IP` header.
    pub log_x_real_ip: bool,
    /// Log the `X-Forwarded-For` header.
    pub log_forwarded_for: bool,
    /// Proxies whose headers are trusted.
    pub trusted_proxies: Vec<String>,
    /// Redirect directories to a trailing slash.
    pub redirect_trailing_slash: bool,
    /// Do not serve hidden files.
    pub ignore_hidden_files: bool,
    /// Do not follow symbolic links.
    pub disable_symlinks: bool,
    /// Serve Markdown to clients that accept it.
    pub accept_markdown: bool,
    /// Character set of text files.
    pub text_charset: String,
    /// Names of index files.
    pub index_files: String,
    /// Serve a health endpoint.
    pub health: bool,
    /// Serve metrics.
    pub metrics: bool,
    /// Answer every request with the maintenance page.
    pub maintenance_mode: bool,
    /// Status code of the maintenance page.
    pub maintenance_mode_status: u16,
    /// HTML file of the maintenance page.
    pub maintenance_mode_file: String,
    /// Run as a service; of no effect but on Windows.
    pub windows_service: bool,
    /// A command besides serving.
    pub commands: Option<Commands>,
}

} // verus!
