//! Options of the configuration file in place of those of the command line.

use vstd::prelude::*;

use crate::error::{err, error, ErrorKind, ErrorView, GatewayError};
use crate::settings::cli::General;
use crate::settings::file;
use crate::status::{is_status, status_from_u16};
use crate::text::{ascii_lowered, to_ascii_lowercase};

verus! {

/// The option of the configuration file, where it is given there, or else that of the command line.
pub open spec fn file_or<T>(from_file: Option<T>, from_cli: T) -> T {
    match from_file {
        Some(v) => v,
        None => from_cli,
    }
}

/// The option of the configuration file, where it is given there, or else that of the command line,
/// if it is given there.
pub open spec fn file_or_else<T>(from_file: Option<T>, from_cli: Option<T>) -> Option<T> {
    match from_file {
        Some(v) => Some(v),
        None => from_cli,
    }
}

fn choose_option<T>(from_file: Option<T>, from_cli: T) -> (r: T)
    ensures
        r == file_or(from_file, from_cli),
{
    match from_file {
        Some(v) => v,
        None => from_cli,
    }
}

fn choose_optional<T>(from_file: Option<T>, from_cli: Option<T>) -> (r: Option<T>)
    ensures
        r == file_or_else(from_file, from_cli),
{
    match from_file {
        Some(v) => Some(v),
        None => from_cli,
    }
}

/// Security headers are sent as the configuration file says; where it says nothing, with HTTP/2 they
/// are, and without it as the command line says.
pub open spec fn sends_security_headers(cli: General, from_file: file::General) -> bool {
    match from_file.security_headers {
        Some(v) => v,
        None => file_or(from_file.http2, cli.http2) || cli.security_headers,
    }
}

/// The general options that the configuration file and the command line give together, but for the
/// logging level, whose text is [`merged_log_level`].
pub open spec fn merged_options(cli: General, from_file: file::General, config_file: String) -> General {
    General {
        version: cli.version,
        host: file_or(from_file.host, cli.host),
        port: file_or(from_file.port, cli.port),
        root: file_or(from_file.root, cli.root),
        log_level: cli.log_level,
        log_with_ansi: file_or(from_file.log_with_ansi, cli.log_with_ansi),
        config_file,
        cache_control_headers: file_or(from_file.cache_control_headers, cli.cache_control_headers),
        compression: file_or(from_file.compression, cli.compression),
        compression_level: file_or(from_file.compression_level, cli.compression_level),
        compression_static: file_or(from_file.compression_static, cli.compression_static),
        page404: file_or(from_file.page404, cli.page404),
        page50x: file_or(from_file.page50x, cli.page50x),
        http2: file_or(from_file.http2, cli.http2),
        http2_tls_cert: file_or_else(from_file.http2_tls_cert, cli.http2_tls_cert),
        http2_tls_key: file_or_else(from_file.http2_tls_key, cli.http2_tls_key),
        https_redirect: file_or(from_file.https_redirect, cli.https_redirect),
        https_redirect_host: file_or(from_file.https_redirect_host, cli.https_redirect_host),
        https_redirect_from_port: file_or(from_file.https_redirect_from_port, cli.https_redirect_from_port),
        https_redirect_from_hosts: file_or(from_file.https_redirect_from_hosts, cli.https_redirect_from_hosts),
        security_headers: sends_security_headers(cli, from_file),
        cors_allow_origins: file_or(from_file.cors_allow_origins, cli.cors_allow_origins),
        cors_allow_headers: file_or(from_file.cors_allow_headers, cli.cors_allow_headers),
        cors_expose_headers: file_or(from_file.cors_expose_headers, cli.cors_expose_headers),
        directory_listing: file_or(from_file.directory_listing, cli.directory_listing),
        directory_listing_order: file_or(from_file.directory_listing_order, cli.directory_listing_order),
        directory_listing_format: file_or(from_file.directory_listing_format, cli.directory_listing_format),
        directory_listing_download: file_or(from_file.directory_listing_download, cli.directory_listing_download),
        basic_auth: file_or(from_file.basic_auth, cli.basic_auth),
        fd: file_or_else(from_file.fd, cli.fd),
        threads_multiplier: file_or(from_file.threads_multiplier, cli.threads_multiplier),
        max_blocking_threads: file_or(from_file.max_blocking_threads, cli.max_blocking_threads),
        grace_period: file_or(from_file.grace_period, cli.grace_period),
        page_fallback: file_or(from_file.page_fallback, cli.page_fallback),
        log_remote_address: file_or(from_file.log_remote_address, cli.log_remote_address),
        log_x_real_ip: file_or(from_file.log_x_real_ip, cli.log_x_real_ip),
        log_forwarded_for: file_or(from_file.log_forwarded_for, cli.log_forwarded_for),
        trusted_proxies: file_or(from_file.trusted_proxies, cli.trusted_proxies),
        redirect_trailing_slash: file_or(from_file.redirect_trailing_slash, cli.redirect_trailing_slash),
        ignore_hidden_files: file_or(from_file.ignore_hidden_files, cli.ignore_hidden_files),
        disable_symlinks: file_or(from_file.disable_symlinks, cli.disable_symlinks),
        accept_markdown: file_or(from_file.accept_markdown, cli.accept_markdown),
        text_charset: file_or(from_file.text_charset, cli.text_charset),
        index_files: file_or(from_file.index_files, cli.index_files),
        health: file_or(from_file.health, cli.health),
        metrics: file_or(from_file.metrics, cli.metrics),
        maintenance_mode: file_or(from_file.maintenance_mode, cli.maintenance_mode),
        maintenance_mode_status: file_or(from_file.maintenance_mode_status, cli.maintenance_mode_status),
        maintenance_mode_file: file_or(from_file.maintenance_mode_file, cli.maintenance_mode_file),
        windows_service: file_or(from_file.windows_service, cli.windows_service),
        commands: cli.commands,
    }
}

/// The text of the logging level that the configuration file and the command line give together.
pub open spec fn merged_log_level(cli: General, from_file: file::General) -> Seq<char> {
    match from_file.log_level {
        Some(level) => ascii_lowered(level.label()),
        None => cli.log_level@,
    }
}

/// What is wrong with the general options of a configuration file: the status code of the maintenance
/// page.
pub open spec fn general_error(from_file: file::General) -> Option<ErrorView> {
    match from_file.maintenance_mode_status {
        Some(code) => if is_status(code) {
            None
        } else {
            Some(err(ErrorKind::StatusCode, "invalid HTTP status code"@))
        },
        None => None,
    }
}

/// Puts the options of the configuration file, as far as they are given, in place of those of the
/// command line.
pub fn merge_general(cli: General, from_file: file::General, config_file: String) -> (r: Result<
    General,
    GatewayError,
>)
    ensures
        match r {
            Ok(g) => {
                &&& general_error(from_file) is None
                &&& g == (General {
                    log_level: g.log_level,
                    ..merged_options(cli, from_file, config_file)
                })
                &&& g.log_level@ == merged_log_level(cli, from_file)
            },
            Err(e) => general_error(from_file) == Some(e@),
        },
{
    let log_level = match &from_file.log_level {
        Some(level) => to_ascii_lowercase(level.name()),
        None => cli.log_level,
    };
    let maintenance_mode_status: u16 = match from_file.maintenance_mode_status {
        Some(code) => match status_from_u16(code) {
            Ok(status) => status,
            Err(_) => {
                return Err(error(ErrorKind::StatusCode, "invalid HTTP status code".to_owned()));
            },
        },
        None => cli.maintenance_mode_status,
    };
    let http2 = choose_option(from_file.http2, cli.http2);
    let security_headers = match from_file.security_headers {
        Some(v) => v,
        None => http2 || cli.security_headers,
    };
    Ok(
        General {
            version: cli.version,
            host: choose_option(from_file.host, cli.host),
            port: choose_option(from_file.port, cli.port),
            root: choose_option(from_file.root, cli.root),
            log_level,
            log_with_ansi: choose_option(from_file.log_with_ansi, cli.log_with_ansi),
            config_file,
            cache_control_headers: choose_option(from_file.cache_control_headers, cli.cache_control_headers),
            compression: choose_option(from_file.compression, cli.compression),
            compression_level: choose_option(from_file.compression_level, cli.compression_level),
            compression_static: choose_option(from_file.compression_static, cli.compression_static),
            page404: choose_option(from_file.page404, cli.page404),
            page50x: choose_option(from_file.page50x, cli.page50x),
            http2,
            http2_tls_cert: choose_optional(from_file.http2_tls_cert, cli.http2_tls_cert),
            http2_tls_key: choose_optional(from_file.http2_tls_key, cli.http2_tls_key),
            https_redirect: choose_option(from_file.https_redirect, cli.https_redirect),
            https_redirect_host: choose_option(from_file.https_redirect_host, cli.https_redirect_host),
            https_redirect_from_port: choose_option(from_file.https_redirect_from_port, cli.https_redirect_from_port),
            https_redirect_from_hosts: choose_option(from_file.https_redirect_from_hosts, cli.https_redirect_from_hosts),
            security_headers,
            cors_allow_origins: choose_option(from_file.cors_allow_origins, cli.cors_allow_origins),
            cors_allow_headers: choose_option(from_file.cors_allow_headers, cli.cors_allow_headers),
            cors_expose_headers: choose_option(from_file.cors_expose_headers, cli.cors_expose_headers),
            directory_listing: choose_option(from_file.directory_listing, cli.directory_listing),
            directory_listing_order: choose_option(from_file.directory_listing_order, cli.directory_listing_order),
            directory_listing_format: choose_option(from_file.directory_listing_format, cli.directory_listing_format),
            directory_listing_download: choose_option(from_file.directory_listing_download, cli.directory_listing_download),
            basic_auth: choose_option(from_file.basic_auth, cli.basic_auth),
            fd: choose_optional(from_file.fd, cli.fd),
            threads_multiplier: choose_option(from_file.threads_multiplier, cli.threads_multiplier),
            max_blocking_threads: choose_option(from_file.max_blocking_threads, cli.max_blocking_threads),
            grace_period: choose_option(from_file.grace_period, cli.grace_period),
            page_fallback: choose_option(from_file.page_fallback, cli.page_fallback),
            log_remote_address: choose_option(from_file.log_remote_address, cli.log_remote_address),
            log_x_real_ip: choose_option(from_file.log_x_real_ip, cli.log_x_real_ip),
            log_forwarded_for: choose_option(from_file.log_forwarded_for, cli.log_forwarded_for),
            trusted_proxies: choose_option(from_file.trusted_proxies, cli.trusted_proxies),
            redirect_trailing_slash: choose_option(from_file.redirect_trailing_slash, cli.redirect_trailing_slash),
            ignore_hidden_files: choose_option(from_file.ignore_hidden_files, cli.ignore_hidden_files),
            disable_symlinks: choose_option(from_file.disable_symlinks, cli.disable_symlinks),
            accept_markdown: choose_option(from_file.accept_markdown, cli.accept_markdown),
            text_charset: choose_option(from_file.text_charset, cli.text_charset),
            index_files: choose_option(from_file.index_files, cli.index_files),
            health: choose_option(from_file.health, cli.health),
            metrics: choose_option(from_file.metrics, cli.metrics),
            maintenance_mode: choose_option(from_file.maintenance_mode, cli.maintenance_mode),
            maintenance_mode_status,
            maintenance_mode_file: choose_option(from_file.maintenance_mode_file, cli.maintenance_mode_file),
            windows_service: choose_option(from_file.windows_service, cli.windows_service),
            commands: cli.commands,
        },
    )
}

} // verus!
