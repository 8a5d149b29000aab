//! Cloudflare Tunnels: the ingress that Ciao writes, reads back, keeps in step
//! with the active release and takes away again.

use crate::domain::{active_found, active_release};
use crate::envfile::{file_text, lemma_lines_of_file};
use crate::error::{opt_text_outcome, plain_outcome, unit_outcome, CiaoError, ErrorView};
use crate::manifest::{manifest_outcome, ReleaseManifest};
use crate::model::{HealthConfig, HostOs, HostPlatform};
use crate::observe::{
    domain_read, manifest_read, read_existing_domain, read_release_manifest, MISSING_FILE,
};
use crate::release::{
    app_root, attempts, health_attempts, host_app_root, write_file_plan, write_remote_file,
};
use crate::remote::{
    inspected, script_command, script_spec, CommandSpec, CommandView, Log, OutputView, RemoteHost,
    Session,
};
use crate::shell::{shell_quote, shell_quoted};
use crate::steps::{asked, commands_view, one, perform, performed, plan_outcome, single_plan};
use crate::text::{
    decimal, decimal_text, is_digit, is_white, join, lemma_decimal_digits,
    lemma_decimal_reads_back, lines, occurs_at, opt_str, opt_text, parse_number, parsed_number,
    same_text, strip_prefix, text_lines, texts, trim, trimmed, without_prefix,
};
use crate::validate::{domain_check, identifier_check, validate_domain, validate_identifier};
use vstd::prelude::*;

verus! {

// ---------------------------------------------------------------------------
// The configuration file
// ---------------------------------------------------------------------------

/// The file that cloudflared reads.
pub const CLOUDFLARED_CONFIG: &'static str = "/etc/cloudflared/config.yml";

pub open spec fn tunnel_comment(name: Option<Seq<char>>) -> Seq<char> {
    match name {
        Some(name) => "# tunnel-name: "@ + name + "\n"@,
        None => Seq::empty(),
    }
}

/// The configuration of a tunnel whose ingress is the port of an application.
pub open spec fn config_text(
    app: Seq<char>,
    tunnel: Seq<char>,
    name: Option<Seq<char>>,
    credentials: Seq<char>,
    hostname: Seq<char>,
    port: u16,
) -> Seq<char> {
    let comment = tunnel_comment(name);
    "# managed-by: ciao app="@ + app + "\n"@ + comment + "tunnel: "@ + tunnel
        + "\ncredentials-file: "@ + credentials + "\ningress:\n  - hostname: "@ + hostname
        + "\n    service: http://localhost:"@ + decimal(port as nat)
        + "\n    originRequest:\n      httpHostHeader: "@ + hostname
        + "\n  - service: http_status:404\n"@
}

pub fn cloudflare_config_contents(
    app: &str,
    tunnel: &str,
    name: Option<&str>,
    credentials: &str,
    hostname: &str,
    port: u16,
) -> (r: String)
    ensures
        r@ == config_text(app@, tunnel@, opt_str(name), credentials@, hostname@, port),
{
    let comment_text = match name {
        Some(name) => "# tunnel-name: ".to_owned().concat(name).concat("\n"),
        None => String::new(),
    };
    let comment = comment_text.as_str();
    "# managed-by: ciao app=".to_owned()
        .concat(app)
        .concat("\n")
        .concat(comment)
        .concat("tunnel: ")
        .concat(tunnel)
        .concat("\ncredentials-file: ")
        .concat(credentials)
        .concat("\ningress:\n  - hostname: ")
        .concat(hostname)
        .concat("\n    service: http://localhost:")
        .concat(decimal_text(port as u64).as_str())
        .concat("\n    originRequest:\n      httpHostHeader: ")
        .concat(hostname)
        .concat("\n  - service: http_status:404\n")
}

/// What Ciao reads of a configuration file.
#[derive(Debug, PartialEq, Eq)]
pub struct ParsedCloudflareConfig {
    pub app: Option<String>,
    pub tunnel_name: Option<String>,
    pub tunnel: String,
    pub credentials: String,
    pub hostname: String,
    pub port: u16,
}

pub struct TunnelView {
    pub app: Option<Seq<char>>,
    pub tunnel_name: Option<Seq<char>>,
    pub tunnel: Seq<char>,
    pub credentials: Seq<char>,
    pub hostname: Seq<char>,
    pub port: u16,
}

impl View for ParsedCloudflareConfig {
    type V = TunnelView;

    open spec fn view(&self) -> TunnelView {
        TunnelView {
            app: opt_text(self.app),
            tunnel_name: opt_text(self.tunnel_name),
            tunnel: self.tunnel@,
            credentials: self.credentials@,
            hostname: self.hostname@,
            port: self.port,
        }
    }
}

/// What follows `prefix` in a line, where anything does.
pub open spec fn setting_in(line: Seq<char>, prefix: Seq<char>) -> Option<Seq<char>> {
    match without_prefix(trim(line), prefix) {
        Some(rest) => if trim(rest).len() > 0 {
            Some(trim(rest))
        } else {
            None
        },
        None => None,
    }
}

/// The first setting of that name.
pub open spec fn setting(list: Seq<Seq<char>>, prefix: Seq<char>) -> Option<Seq<char>>
    decreases list.len(),
{
    if list.len() == 0 {
        None
    } else {
        match setting_in(list[0], prefix) {
            Some(value) => Some(value),
            None => setting(list.skip(1), prefix),
        }
    }
}

/// The last ingress host.
pub open spec fn last_hostname(list: Seq<Seq<char>>) -> Option<Seq<char>>
    decreases list.len(),
{
    if list.len() == 0 {
        None
    } else {
        match without_prefix(trim(list.last()), "- hostname:"@) {
            Some(rest) => Some(trim(rest)),
            None => last_hostname(list.drop_last()),
        }
    }
}

/// The loopback address that a service line points to, if it points to one.
pub open spec fn loopback_address(line: Seq<char>) -> Option<Seq<char>> {
    match without_prefix(trim(line), "service:"@) {
        None => None,
        Some(rest) => {
            let service = trim(rest);
            match without_prefix(service, "http://localhost:"@) {
                Some(address) => Some(address),
                None => without_prefix(service, "http://127.0.0.1:"@),
            }
        },
    }
}

/// The port of the last loopback service.
pub open spec fn last_port(list: Seq<Seq<char>>) -> Option<nat>
    decreases list.len(),
{
    if list.len() == 0 {
        None
    } else if without_prefix(trim(list.last()), "- hostname:"@) is Some {
        last_port(list.drop_last())
    } else {
        match loopback_address(list.last()) {
            Some(address) => parse_number(address, 65_535),
            None => last_port(list.drop_last()),
        }
    }
}

/// What a configuration file says, where it says all that Ciao needs. The
/// fallback ingress, which has no loopback service, does not count.
pub open spec fn parsed_config(contents: Seq<char>) -> Option<TunnelView> {
    let list = lines(contents);
    match (
        setting(list, "tunnel:"@),
        setting(list, "credentials-file:"@),
        last_hostname(list),
        last_port(list),
    ) {
        (Some(tunnel), Some(credentials), Some(hostname), Some(port)) => if hostname.len() == 0 {
            None
        } else {
            Some(
                TunnelView {
                    app: setting(list, "# managed-by: ciao app="@),
                    tunnel_name: setting(list, "# tunnel-name:"@),
                    tunnel,
                    credentials,
                    hostname,
                    port: port as u16,
                },
            )
        },
        _ => None,
    }
}

fn find_setting(list: &Vec<String>, prefix: &str) -> (r: Option<String>)
    ensures
        opt_text(r) == setting(texts(list@), prefix@),
{
    let ghost all = texts(list@);
    let mut i: usize = 0;
    assert(all.skip(0) =~= all);
    while i < list.len()
        invariant
            i <= list@.len(),
            all == texts(list@),
            setting(all, prefix@) == setting(all.skip(i as int), prefix@),
        decreases list@.len() - i,
    {
        assert(all.skip(i as int)[0] == list@[i as int]@);
        assert(all.skip(i as int).skip(1) =~= all.skip(i + 1));
        let line = trimmed(list[i].as_str());
        match strip_prefix(line.as_str(), prefix) {
            Some(rest) => {
                let value = trimmed(rest.as_str());
                if !value.as_str().is_empty() {
                    return Some(value);
                }
            },
            None => {},
        }
        i += 1;
    }
    None
}

fn find_last_hostname(list: &Vec<String>) -> (r: Option<String>)
    ensures
        opt_text(r) == last_hostname(texts(list@)),
{
    let ghost all = texts(list@);
    let mut n: usize = list.len();
    assert(all.take(n as int) =~= all);
    while n > 0
        invariant
            n <= list@.len(),
            all == texts(list@),
            last_hostname(all) == last_hostname(all.take(n as int)),
        decreases n,
    {
        assert(all.take(n as int).last() == list@[n - 1]@);
        assert(all.take(n as int).drop_last() =~= all.take(n - 1));
        let line = trimmed(list[n - 1].as_str());
        match strip_prefix(line.as_str(), "- hostname:") {
            Some(rest) => {
                return Some(trimmed(rest.as_str()));
            },
            None => {},
        }
        n -= 1;
    }
    None
}

fn find_loopback_address(line: &str) -> (r: Option<String>)
    ensures
        opt_text(r) == loopback_address(line@),
{
    match strip_prefix(trimmed(line).as_str(), "service:") {
        None => None,
        Some(rest) => {
            let service = trimmed(rest.as_str());
            match strip_prefix(service.as_str(), "http://localhost:") {
                Some(address) => Some(address),
                None => strip_prefix(service.as_str(), "http://127.0.0.1:"),
            }
        },
    }
}

fn find_last_port(list: &Vec<String>) -> (r: Option<u16>)
    ensures
        match r {
            Some(port) => last_port(texts(list@)) == Some(port as nat),
            None => last_port(texts(list@)) is None,
        },
{
    let ghost all = texts(list@);
    let mut n: usize = list.len();
    assert(all.take(n as int) =~= all);
    while n > 0
        invariant
            n <= list@.len(),
            all == texts(list@),
            last_port(all) == last_port(all.take(n as int)),
        decreases n,
    {
        assert(all.take(n as int).last() == list@[n - 1]@);
        assert(all.take(n as int).drop_last() =~= all.take(n - 1));
        let line = trimmed(list[n - 1].as_str());
        if strip_prefix(line.as_str(), "- hostname:").is_none() {
            match find_loopback_address(list[n - 1].as_str()) {
                Some(address) => {
                    return match parsed_number(address.as_str(), 65_535) {
                        Some(port) => Some(port as u16),
                        None => None,
                    };
                },
                None => {},
            }
        }
        n -= 1;
    }
    None
}

pub open spec fn opt_config(r: Option<ParsedCloudflareConfig>) -> Option<TunnelView> {
    match r {
        Some(config) => Some(config@),
        None => None,
    }
}

/// Reads a configuration file of cloudflared.
pub fn parse_cloudflare_config(contents: &str) -> (r: Option<ParsedCloudflareConfig>)
    ensures
        opt_config(r) == parsed_config(contents@),
{
    let list = text_lines(contents);
    let app = find_setting(&list, "# managed-by: ciao app=");
    let tunnel_name = find_setting(&list, "# tunnel-name:");
    let tunnel = match find_setting(&list, "tunnel:") {
        Some(value) => value,
        None => {
            return None;
        },
    };
    let credentials = match find_setting(&list, "credentials-file:") {
        Some(value) => value,
        None => {
            return None;
        },
    };
    let hostname = match find_last_hostname(&list) {
        Some(value) => value,
        None => {
            return None;
        },
    };
    let port: u16 = match find_last_port(&list) {
        Some(value) => value,
        None => {
            return None;
        },
    };
    if hostname.as_str().is_empty() {
        return None;
    }
    Some(ParsedCloudflareConfig { app, tunnel_name, tunnel, credentials, hostname, port })
}

// ---------------------------------------------------------------------------
// What is written is read back
// ---------------------------------------------------------------------------

/// A value that can stand in the configuration: not empty, on one line, without
/// white space around it.
pub open spec fn settable(value: Seq<char>) -> bool {
    &&& bounded(value)
    &&& !value.contains('\n')
    &&& !value.contains('\r')
}

/// A text that begins and ends with something else than white space.
pub open spec fn bounded(text: Seq<char>) -> bool {
    text.len() > 0 && !is_white(text[0]) && !is_white(text.last())
}

spec fn spaces(n: nat) -> Seq<char> {
    Seq::new(n, |i: int| ' ')
}

/// The lines of the configuration.
spec fn config_lines(
    app: Seq<char>,
    tunnel: Seq<char>,
    name: Option<Seq<char>>,
    credentials: Seq<char>,
    hostname: Seq<char>,
    port: u16,
) -> Seq<Seq<char>> {
    let first = seq!["# managed-by: ciao app="@ + app];
    let named = match name {
        Some(name) => first.push("# tunnel-name: "@ + name),
        None => first,
    };
    named.push("tunnel: "@ + tunnel).push("credentials-file: "@ + credentials).push(
        "ingress:"@,
    ).push("  - hostname: "@ + hostname).push(
        "    service: http://localhost:"@ + decimal(port as nat),
    ).push("    originRequest:"@).push("      httpHostHeader: "@ + hostname).push(
        "  - service: http_status:404"@,
    )
}

proof fn lemma_join_push(list: Seq<Seq<char>>, line: Seq<char>)
    requires
        list.len() > 0,
    ensures
        join(list.push(line), "\n"@) == join(list, "\n"@) + "\n"@ + line,
{
    assert(list.push(line).drop_last() =~= list);
}

proof fn lemma_config_is_its_lines(
    app: Seq<char>,
    tunnel: Seq<char>,
    name: Option<Seq<char>>,
    credentials: Seq<char>,
    hostname: Seq<char>,
    port: u16,
)
    ensures
        config_text(app, tunnel, name, credentials, hostname, port) == file_text(
            config_lines(app, tunnel, name, credentials, hostname, port),
        ),
{
    reveal_strlit("\n");
    reveal_strlit("# managed-by: ciao app=");
    reveal_strlit("credentials-file: ");
    reveal_strlit("\ncredentials-file: ");
    reveal_strlit("ingress:");
    reveal_strlit("  - hostname: ");
    reveal_strlit("\ningress:\n  - hostname: ");
    reveal_strlit("    service: http://localhost:");
    reveal_strlit("\n    service: http://localhost:");
    reveal_strlit("    originRequest:");
    reveal_strlit("      httpHostHeader: ");
    reveal_strlit("\n    originRequest:\n      httpHostHeader: ");
    reveal_strlit("  - service: http_status:404");
    reveal_strlit("\n  - service: http_status:404\n");
    let digits = decimal(port as nat);
    let first = seq!["# managed-by: ciao app="@ + app];
    let named = match name {
        Some(name) => first.push("# tunnel-name: "@ + name),
        None => first,
    };
    let t1 = "# managed-by: ciao app="@ + app + "\n"@ + tunnel_comment(name) + "tunnel: "@ + tunnel;
    let l1 = named.push("tunnel: "@ + tunnel);
    assert(join(first, "\n"@) == "# managed-by: ciao app="@ + app);
    lemma_join_push(named, "tunnel: "@ + tunnel);
    if let Some(name) = name {
        lemma_join_push(first, "# tunnel-name: "@ + name);
    }
    assert(join(l1, "\n"@) =~= t1);
    let t2 = t1 + "\ncredentials-file: "@ + credentials;
    let l2 = l1.push("credentials-file: "@ + credentials);
    lemma_join_push(l1, "credentials-file: "@ + credentials);
    assert("\ncredentials-file: "@ =~= "\n"@ + "credentials-file: "@);
    assert(join(l2, "\n"@) =~= t2);
    let t3 = t2 + "\ningress:\n  - hostname: "@ + hostname;
    let l3 = l2.push("ingress:"@).push("  - hostname: "@ + hostname);
    lemma_join_push(l2, "ingress:"@);
    lemma_join_push(l2.push("ingress:"@), "  - hostname: "@ + hostname);
    assert("\ningress:\n  - hostname: "@ =~= "\n"@ + "ingress:"@ + "\n"@ + "  - hostname: "@);
    assert(join(l3, "\n"@) =~= t3);
    let t4 = t3 + "\n    service: http://localhost:"@ + digits;
    let l4 = l3.push("    service: http://localhost:"@ + digits);
    lemma_join_push(l3, "    service: http://localhost:"@ + digits);
    assert("\n    service: http://localhost:"@ =~= "\n"@ + "    service: http://localhost:"@);
    assert(join(l4, "\n"@) =~= t4);
    let t5 = t4 + "\n    originRequest:\n      httpHostHeader: "@ + hostname;
    let l5 = l4.push("    originRequest:"@).push("      httpHostHeader: "@ + hostname);
    lemma_join_push(l4, "    originRequest:"@);
    lemma_join_push(l4.push("    originRequest:"@), "      httpHostHeader: "@ + hostname);
    assert("\n    originRequest:\n      httpHostHeader: "@ =~= "\n"@ + "    originRequest:"@ + "\n"@
        + "      httpHostHeader: "@);
    assert(join(l5, "\n"@) =~= t5);
    lemma_join_push(l5, "  - service: http_status:404"@);
    assert("\n  - service: http_status:404\n"@ =~= "\n"@ + "  - service: http_status:404"@ + "\n"@);
    assert(t5 + "\n  - service: http_status:404\n"@ =~= t5 + "\n"@ + "  - service: http_status:404"@
        + "\n"@);
}

proof fn lemma_indented(n: nat, core: Seq<char>)
    requires
        bounded(core),
    ensures
        trim(spaces(n) + core) == core,
    decreases n,
{
    let line = spaces(n) + core;
    if n == 0 {
        assert(line =~= core);
    } else {
        assert(line.skip(1) =~= spaces((n - 1) as nat) + core);
        lemma_indented((n - 1) as nat, core);
    }
}

/// A line of the form `prefix value` sets `value`.
proof fn lemma_line_sets(n: nat, prefix: Seq<char>, space: nat, value: Seq<char>)
    requires
        bounded(value),
        prefix.len() > 0,
        !is_white(prefix[0]),
    ensures
        without_prefix(trim(spaces(n) + (prefix + spaces(space) + value)), prefix) == Some(
            spaces(space) + value,
        ),
        trim(spaces(space) + value) == value,
        setting_in(spaces(n) + (prefix + spaces(space) + value), prefix) == Some(value),
{
    let core = prefix + spaces(space) + value;
    assert(core[0] == prefix[0] && core.last() == value.last());
    lemma_indented(n, core);
    lemma_indented(space, value);
    assert(core.subrange(0, prefix.len() as int) =~= prefix);
    assert(core.skip(prefix.len() as int) =~= spaces(space) + value);
}

/// A line that differs from a prefix somewhere does not set it.
proof fn lemma_line_is_other(n: nat, core: Seq<char>, prefix: Seq<char>, at: int)
    requires
        bounded(core),
        0 <= at < core.len(),
        at < prefix.len(),
        core[at] != prefix[at],
    ensures
        without_prefix(trim(spaces(n) + core), prefix) is None,
        setting_in(spaces(n) + core, prefix) is None,
{
    lemma_indented(n, core);
    if occurs_at(core, prefix, 0) {
        assert(core.subrange(0, prefix.len() as int)[at] == prefix[at]);
    }
}

proof fn lemma_setting_push(list: Seq<Seq<char>>, line: Seq<char>, prefix: Seq<char>)
    ensures
        setting(list.push(line), prefix) == match setting(list, prefix) {
            Some(value) => Some(value),
            None => setting_in(line, prefix),
        },
    decreases list.len(),
{
    reveal_with_fuel(setting, 2);
    let all = list.push(line);
    if list.len() > 0 {
        assert(all[0] == list[0]);
        assert(all.skip(1) =~= list.skip(1).push(line));
        lemma_setting_push(list.skip(1), line, prefix);
    }
}

/// The lines from the ingress on set nothing of the tunnel.
proof fn lemma_ingress_sets_nothing(
    list: Seq<Seq<char>>,
    hostname: Seq<char>,
    port: u16,
    prefix: Seq<char>,
)
    requires
        settable(hostname),
        prefix.len() > 0,
        prefix[0] == '#' || prefix[0] == 't' || prefix[0] == 'c',
    ensures
        setting(
            list.push("ingress:"@).push("  - hostname: "@ + hostname).push(
                "    service: http://localhost:"@ + decimal(port as nat),
            ).push("    originRequest:"@).push("      httpHostHeader: "@ + hostname).push(
                "  - service: http_status:404"@,
            ),
            prefix,
        ) == setting(list, prefix),
{
    reveal_strlit("ingress:");
    reveal_strlit("  - hostname: ");
    reveal_strlit("- hostname: ");
    reveal_strlit("    service: http://localhost:");
    reveal_strlit("service: http://localhost:");
    reveal_strlit("    originRequest:");
    reveal_strlit("originRequest:");
    reveal_strlit("      httpHostHeader: ");
    reveal_strlit("httpHostHeader: ");
    reveal_strlit("  - service: http_status:404");
    reveal_strlit("- service: http_status:404");
    let digits = decimal(port as nat);
    lemma_decimal_digits(port as nat);
    assert(is_digit(digits.last()));
    let l1 = list.push("ingress:"@);
    lemma_setting_push(list, "ingress:"@, prefix);
    lemma_line_is_other(0, "ingress:"@, prefix, 0);
    assert("ingress:"@ =~= spaces(0) + "ingress:"@);
    let host = "  - hostname: "@ + hostname;
    let l2 = l1.push(host);
    lemma_setting_push(l1, host, prefix);
    lemma_line_is_other(2, "- hostname: "@ + hostname, prefix, 0);
    assert(host =~= spaces(2) + ("- hostname: "@ + hostname));
    let service = "    service: http://localhost:"@ + digits;
    let l3 = l2.push(service);
    lemma_setting_push(l2, service, prefix);
    lemma_line_is_other(4, "service: http://localhost:"@ + digits, prefix, 0);
    assert(service =~= spaces(4) + ("service: http://localhost:"@ + digits));
    let l4 = l3.push("    originRequest:"@);
    lemma_setting_push(l3, "    originRequest:"@, prefix);
    lemma_line_is_other(4, "originRequest:"@, prefix, 0);
    assert("    originRequest:"@ =~= spaces(4) + "originRequest:"@);
    let header = "      httpHostHeader: "@ + hostname;
    lemma_setting_push(l4, header, prefix);
    lemma_line_is_other(6, "httpHostHeader: "@ + hostname, prefix, 0);
    assert(header =~= spaces(6) + ("httpHostHeader: "@ + hostname));
    lemma_setting_push(l4.push(header), "  - service: http_status:404"@, prefix);
    lemma_line_is_other(2, "- service: http_status:404"@, prefix, 0);
    assert("  - service: http_status:404"@ =~= spaces(2) + "- service: http_status:404"@);
}

/// What the lines before the ingress set.
proof fn lemma_head_sets(
    app: Seq<char>,
    tunnel: Seq<char>,
    name: Option<Seq<char>>,
    credentials: Seq<char>,
)
    requires
        settable(app),
        settable(tunnel),
        name matches Some(name) ==> settable(name),
        settable(credentials),
    ensures
        ({
            let first = seq!["# managed-by: ciao app="@ + app];
            let named = match name {
                Some(name) => first.push("# tunnel-name: "@ + name),
                None => first,
            };
            let head = named.push("tunnel: "@ + tunnel).push("credentials-file: "@ + credentials);
            &&& setting(head, "# managed-by: ciao app="@) == Some(app)
            &&& setting(head, "# tunnel-name:"@) == name
            &&& setting(head, "tunnel:"@) == Some(tunnel)
            &&& setting(head, "credentials-file:"@) == Some(credentials)
        }),
{
    let p1 = "# managed-by: ciao app="@;
    let p2 = "# tunnel-name:"@;
    let p3 = "tunnel:"@;
    let p4 = "credentials-file:"@;
    reveal_strlit("# managed-by: ciao app=");
    reveal_strlit("# tunnel-name:");
    reveal_strlit("# tunnel-name: ");
    reveal_strlit("tunnel:");
    reveal_strlit("tunnel: ");
    reveal_strlit("credentials-file:");
    reveal_strlit("credentials-file: ");
    let none = Seq::<Seq<char>>::empty();
    let first = seq![p1 + app];
    assert(first =~= none.push(p1 + app));
    lemma_line_sets(0, p1, 0, app);
    assert(p1 + app =~= spaces(0) + (p1 + spaces(0) + app));
    assert(p1 + app =~= spaces(0) + (p1 + app));
    lemma_line_is_other(0, p1 + app, p2, 2);
    lemma_line_is_other(0, p1 + app, p3, 0);
    lemma_line_is_other(0, p1 + app, p4, 0);
    lemma_setting_push(none, p1 + app, p1);
    lemma_setting_push(none, p1 + app, p2);
    lemma_setting_push(none, p1 + app, p3);
    lemma_setting_push(none, p1 + app, p4);
    let named = match name {
        Some(name) => first.push("# tunnel-name: "@ + name),
        None => first,
    };
    if let Some(name) = name {
        let line = "# tunnel-name: "@ + name;
        lemma_line_sets(0, p2, 1, name);
        assert(line =~= spaces(0) + (p2 + spaces(1) + name));
        assert(line =~= spaces(0) + line);
        lemma_line_is_other(0, line, p3, 0);
        lemma_line_is_other(0, line, p4, 0);
        lemma_setting_push(first, line, p1);
        lemma_setting_push(first, line, p2);
        lemma_setting_push(first, line, p3);
        lemma_setting_push(first, line, p4);
    }
    let third = "tunnel: "@ + tunnel;
    lemma_line_sets(0, p3, 1, tunnel);
    assert(third =~= spaces(0) + (p3 + spaces(1) + tunnel));
    assert(third =~= spaces(0) + third);
    lemma_line_is_other(0, third, p2, 0);
    lemma_line_is_other(0, third, p4, 0);
    lemma_setting_push(named, third, p1);
    lemma_setting_push(named, third, p2);
    lemma_setting_push(named, third, p3);
    lemma_setting_push(named, third, p4);
    let fourth = "credentials-file: "@ + credentials;
    lemma_line_sets(0, p4, 1, credentials);
    assert(fourth =~= spaces(0) + (p4 + spaces(1) + credentials));
    assert(fourth =~= spaces(0) + fourth);
    lemma_line_is_other(0, fourth, p2, 0);
    lemma_setting_push(named.push(third), fourth, p1);
    lemma_setting_push(named.push(third), fourth, p2);
    lemma_setting_push(named.push(third), fourth, p3);
    lemma_setting_push(named.push(third), fourth, p4);
}

/// The ingress names the host and the port.
proof fn lemma_ingress_reads_back(list: Seq<Seq<char>>, hostname: Seq<char>, port: u16)
    requires
        settable(hostname),
    ensures
        ({
            let all = list.push("  - hostname: "@ + hostname).push(
                "    service: http://localhost:"@ + decimal(port as nat),
            ).push("    originRequest:"@).push("      httpHostHeader: "@ + hostname).push(
                "  - service: http_status:404"@,
            );
            last_hostname(all) == Some(hostname) && last_port(all) == Some(port as nat)
        }),
{
    reveal_strlit("- hostname:");
    reveal_strlit("  - hostname: ");
    reveal_strlit("service:");
    reveal_strlit("http://localhost:");
    reveal_strlit("    service: http://localhost:");
    reveal_strlit("service: http://localhost:");
    reveal_strlit("    originRequest:");
    reveal_strlit("originRequest:");
    reveal_strlit("      httpHostHeader: ");
    reveal_strlit("httpHostHeader: ");
    reveal_strlit("  - service: http_status:404");
    reveal_strlit("- service: http_status:404");
    let digits = decimal(port as nat);
    lemma_decimal_digits(port as nat);
    lemma_decimal_reads_back(port as nat, 65_535);
    assert(is_digit(digits.last()));
    let host = "  - hostname: "@ + hostname;
    let l1 = list.push(host);
    assert(l1.drop_last() =~= list);
    lemma_line_sets(2, "- hostname:"@, 1, hostname);
    assert(host =~= spaces(2) + ("- hostname:"@ + spaces(1) + hostname));
    let address = "http://localhost:"@ + digits;
    let service = "    service: http://localhost:"@ + digits;
    let core = "service: http://localhost:"@ + digits;
    let l2 = l1.push(service);
    assert(l2.drop_last() =~= l1);
    assert(service =~= spaces(4) + core);
    assert(service =~= spaces(4) + ("service:"@ + spaces(1) + address));
    lemma_line_is_other(4, core, "- hostname:"@, 0);
    lemma_line_sets(4, "service:"@, 1, address);
    assert(address.subrange(0, "http://localhost:"@.len() as int) =~= "http://localhost:"@);
    assert(address.skip("http://localhost:"@.len() as int) =~= digits);
    assert(loopback_address(service) == Some(digits));
    let l3 = l2.push("    originRequest:"@);
    assert(l3.drop_last() =~= l2);
    lemma_line_is_other(4, "originRequest:"@, "- hostname:"@, 0);
    lemma_line_is_other(4, "originRequest:"@, "service:"@, 0);
    assert("    originRequest:"@ =~= spaces(4) + "originRequest:"@);
    let header = "      httpHostHeader: "@ + hostname;
    let l4 = l3.push(header);
    assert(l4.drop_last() =~= l3);
    lemma_line_is_other(6, "httpHostHeader: "@ + hostname, "- hostname:"@, 0);
    lemma_line_is_other(6, "httpHostHeader: "@ + hostname, "service:"@, 0);
    assert(header =~= spaces(6) + ("httpHostHeader: "@ + hostname));
    let l5 = l4.push("  - service: http_status:404"@);
    assert(l5.drop_last() =~= l4);
    lemma_line_is_other(2, "- service: http_status:404"@, "- hostname:"@, 2);
    lemma_line_is_other(2, "- service: http_status:404"@, "service:"@, 0);
    assert("  - service: http_status:404"@ =~= spaces(2) + "- service: http_status:404"@);
    assert(last_hostname(l1) == Some(hostname));
    assert(last_hostname(l2) == Some(hostname));
    assert(last_hostname(l3) == Some(hostname));
    assert(last_hostname(l4) == Some(hostname));
    assert(last_port(l2) == Some(port as nat));
    assert(last_port(l3) == Some(port as nat));
    assert(last_port(l4) == Some(port as nat));
}

proof fn lemma_on_one_line(prefix: Seq<char>, value: Seq<char>)
    requires
        !prefix.contains('\n'),
        !prefix.contains('\r'),
        !value.contains('\n'),
        !value.contains('\r'),
    ensures
        !(prefix + value).contains('\n'),
        !(prefix + value).contains('\r'),
{
    let line = prefix + value;
    assert forall|i: int| 0 <= i < line.len() implies line[i] != '\n' && line[i] != '\r' by {
        if i < prefix.len() {
            assert(prefix.contains(prefix[i]));
        } else {
            assert(value.contains(value[i - prefix.len()]));
        }
    }
}

/// Each line of the configuration is one line.
proof fn lemma_config_lines_are_lines(
    app: Seq<char>,
    tunnel: Seq<char>,
    name: Option<Seq<char>>,
    credentials: Seq<char>,
    hostname: Seq<char>,
    port: u16,
)
    requires
        settable(app),
        settable(tunnel),
        name matches Some(name) ==> settable(name),
        settable(credentials),
        settable(hostname),
    ensures
        lines(file_text(config_lines(app, tunnel, name, credentials, hostname, port)))
            == config_lines(app, tunnel, name, credentials, hostname, port),
{
    reveal_strlit("# managed-by: ciao app=");
    reveal_strlit("# tunnel-name: ");
    reveal_strlit("tunnel: ");
    reveal_strlit("credentials-file: ");
    reveal_strlit("ingress:");
    reveal_strlit("  - hostname: ");
    reveal_strlit("    service: http://localhost:");
    reveal_strlit("    originRequest:");
    reveal_strlit("      httpHostHeader: ");
    reveal_strlit("  - service: http_status:404");
    let digits = decimal(port as nat);
    lemma_decimal_digits(port as nat);
    assert forall|i: int| 0 <= i < digits.len() implies digits[i] != '\n' && digits[i] != '\r' by {
        assert(is_digit(digits[i]));
    }
    lemma_on_one_line("# managed-by: ciao app="@, app);
    if let Some(name) = name {
        lemma_on_one_line("# tunnel-name: "@, name);
    }
    lemma_on_one_line("tunnel: "@, tunnel);
    lemma_on_one_line("credentials-file: "@, credentials);
    lemma_on_one_line("  - hostname: "@, hostname);
    lemma_on_one_line("    service: http://localhost:"@, digits);
    lemma_on_one_line("      httpHostHeader: "@, hostname);
    lemma_lines_of_file(config_lines(app, tunnel, name, credentials, hostname, port));
}

/// What Ciao writes of a tunnel it reads back, and it knows the tunnel as that
/// of the application.
pub proof fn lemma_config_reads_back(
    app: Seq<char>,
    tunnel: Seq<char>,
    name: Option<Seq<char>>,
    credentials: Seq<char>,
    hostname: Seq<char>,
    port: u16,
)
    requires
        settable(app),
        settable(tunnel),
        name matches Some(name) ==> settable(name),
        settable(credentials),
        settable(hostname),
    ensures
        parsed_config(config_text(app, tunnel, name, credentials, hostname, port)) == Some(
            TunnelView {
                app: Some(app),
                tunnel_name: name,
                tunnel,
                credentials,
                hostname,
                port,
            },
        ),
        owned_by(
            parsed_config(config_text(app, tunnel, name, credentials, hostname, port))->0,
            app,
        ),
{
    let first = seq!["# managed-by: ciao app="@ + app];
    let named = match name {
        Some(name) => first.push("# tunnel-name: "@ + name),
        None => first,
    };
    let head = named.push("tunnel: "@ + tunnel).push("credentials-file: "@ + credentials);
    lemma_config_is_its_lines(app, tunnel, name, credentials, hostname, port);
    lemma_config_lines_are_lines(app, tunnel, name, credentials, hostname, port);
    lemma_head_sets(app, tunnel, name, credentials);
    reveal_strlit("# managed-by: ciao app=");
    reveal_strlit("# tunnel-name:");
    reveal_strlit("tunnel:");
    reveal_strlit("credentials-file:");
    lemma_ingress_sets_nothing(head, hostname, port, "# managed-by: ciao app="@);
    lemma_ingress_sets_nothing(head, hostname, port, "# tunnel-name:"@);
    lemma_ingress_sets_nothing(head, hostname, port, "tunnel:"@);
    lemma_ingress_sets_nothing(head, hostname, port, "credentials-file:"@);
    lemma_ingress_reads_back(head.push("ingress:"@), hostname, port);
}

/// Whether a tunnel belongs to an application: its file says so, or it has the
/// name that Ciao gives tunnels.
pub open spec fn owned_by(config: TunnelView, app: Seq<char>) -> bool {
    config.app == Some(app) || config.tunnel_name == Some("ciao-"@ + app) || config.tunnel == "ciao-"@
        + app
}

fn opt_is(value: &Option<String>, text: &str) -> (r: bool)
    ensures
        r == (opt_text(*value) == Some(text@)),
{
    match value {
        Some(other) => same_text(other.as_str(), text),
        None => false,
    }
}

pub fn cloudflare_config_owned_by_app(config: &ParsedCloudflareConfig, app: &str) -> (r: bool)
    ensures
        r == owned_by(config@, app@),
{
    let name = "ciao-".to_owned().concat(app);
    opt_is(&config.app, app) || opt_is(&config.tunnel_name, name.as_str()) || same_text(
        config.tunnel.as_str(),
        name.as_str(),
    )
}

// ---------------------------------------------------------------------------
// Reading it on the host
// ---------------------------------------------------------------------------

pub open spec fn config_question() -> CommandView {
    script_command(
        "read Cloudflare Tunnel configuration"@,
        "set -eu\n\
            if sudo -n test -f /etc/cloudflared/config.yml; then sudo -n cat /etc/cloudflared/config.yml; else printf '__CIAO_MISSING__'; fi\n"@,
    )
}

pub open spec fn config_answer(stdout: Seq<char>) -> Option<Seq<char>> {
    if trim(stdout) == MISSING_FILE@ || trim(stdout).len() == 0 {
        None
    } else {
        Some(stdout)
    }
}

/// The configuration file was read.
pub open spec fn config_read(a: Log, b: Log, r: Result<Option<Seq<char>>, ErrorView>) -> bool {
    asked(config_question(), |out: OutputView| Ok(config_answer(out.stdout)), a, b, r)
}

pub fn read_cloudflare_config<T: RemoteHost>(session: &mut Session<T>) -> (r: Result<
    Option<String>,
    CiaoError,
>)
    ensures
        final(session).peer() == old(session).peer(),
        config_read(old(session)@, final(session)@, opt_text_outcome(r)),
{
    let output = session.script(
        "read Cloudflare Tunnel configuration",
        "set -eu\n\
            if sudo -n test -f /etc/cloudflared/config.yml; then sudo -n cat /etc/cloudflared/config.yml; else printf '__CIAO_MISSING__'; fi\n",
    )?;
    let value = trimmed(output.stdout.as_str());
    if same_text(value.as_str(), MISSING_FILE) || value.as_str().is_empty() {
        Ok(None)
    } else {
        Ok(Some(output.stdout))
    }
}

/// Whether a tunnel belongs to an application was found out. A tunnel without a
/// mark is taken over where its host is the domain of the application.
pub open spec fn ownership_read(
    config: TunnelView,
    app: Seq<char>,
    adopt: bool,
    a: Log,
    b: Log,
    r: Result<bool, ErrorView>,
) -> bool {
    if owned_by(config, app) {
        b == a && r == Ok::<bool, ErrorView>(true)
    } else if !adopt {
        b == a && r == Ok::<bool, ErrorView>(false)
    } else {
        exists|domain: Result<Option<Seq<char>>, ErrorView>|
            #[trigger] domain_read(app, a, b, domain) && r == match domain {
                Err(error) => Err(error),
                Ok(domain) => Ok(domain == Some(config.hostname)),
            }
    }
}

pub fn cloudflare_config_owned_by_app_on_host<T: RemoteHost>(
    session: &mut Session<T>,
    config: &ParsedCloudflareConfig,
    app: &str,
    adopt: bool,
) -> (r: Result<bool, CiaoError>)
    ensures
        final(session).peer() == old(session).peer(),
        ownership_read(config@, app@, adopt, old(session)@, final(session)@, plain_outcome(r)),
{
    if cloudflare_config_owned_by_app(config, app) {
        return Ok(true);
    }
    if !adopt {
        return Ok(false);
    }
    let domain = read_existing_domain(session, app)?;
    Ok(opt_is(&domain, config.hostname.as_str()))
}

/// A tunnel was kept where it belongs to the application.
pub open spec fn tunnel_kept(
    config: TunnelView,
    app: Seq<char>,
    adopt: bool,
    a: Log,
    b: Log,
    r: Result<Option<TunnelView>, ErrorView>,
) -> bool {
    exists|owned: Result<bool, ErrorView>|
        #[trigger] ownership_read(config, app, adopt, a, b, owned) && r == kept_config(config, owned)
}

pub open spec fn kept_config(config: TunnelView, owned: Result<bool, ErrorView>) -> Result<
    Option<TunnelView>,
    ErrorView,
> {
    match owned {
        Err(error) => Err(error),
        Ok(true) => Ok(Some(config)),
        Ok(false) => Ok(None),
    }
}

/// The tunnel of an application was looked up: after its file, its owner.
pub open spec fn tunnel_after_config(
    contents: Option<Seq<char>>,
    app: Seq<char>,
    adopt: bool,
    a: Log,
    b: Log,
    r: Result<Option<TunnelView>, ErrorView>,
) -> bool {
    let config = match contents {
        Some(text) => parsed_config(text),
        None => None,
    };
    match config {
        None => b == a && r == Ok::<Option<TunnelView>, ErrorView>(None),
        Some(config) => tunnel_kept(config, app, adopt, a, b, r),
    }
}

/// The tunnel of an application was looked up.
pub open spec fn tunnel_found(
    app: Seq<char>,
    adopt: bool,
    a: Log,
    b: Log,
    r: Result<Option<TunnelView>, ErrorView>,
) -> bool {
    exists|m: Log, contents: Result<Option<Seq<char>>, ErrorView>|
        #[trigger] config_read(a, m, contents) && match contents {
            Err(error) => b == m && r == Err::<Option<TunnelView>, ErrorView>(error),
            Ok(contents) => tunnel_after_config(contents, app, adopt, m, b, r),
        }
}

pub open spec fn tunnel_outcome(r: Result<Option<ParsedCloudflareConfig>, CiaoError>) -> Result<
    Option<TunnelView>,
    ErrorView,
> {
    match r {
        Ok(config) => Ok(opt_config(config)),
        Err(error) => Err(error@),
    }
}

fn keep_owned_tunnel<T: RemoteHost>(
    session: &mut Session<T>,
    contents: Option<String>,
    app: &str,
    adopt: bool,
) -> (r: Result<Option<ParsedCloudflareConfig>, CiaoError>)
    ensures
        final(session).peer() == old(session).peer(),
        tunnel_after_config(
            opt_text(contents),
            app@,
            adopt,
            old(session)@,
            final(session)@,
            tunnel_outcome(r),
        ),
{
    let contents = match contents {
        Some(contents) => contents,
        None => {
            return Ok(None);
        },
    };
    let config = match parse_cloudflare_config(contents.as_str()) {
        Some(config) => config,
        None => {
            return Ok(None);
        },
    };
    keep_if_owned(session, config, app, adopt)
}

fn keep_if_owned<T: RemoteHost>(
    session: &mut Session<T>,
    config: ParsedCloudflareConfig,
    app: &str,
    adopt: bool,
) -> (r: Result<Option<ParsedCloudflareConfig>, CiaoError>)
    ensures
        final(session).peer() == old(session).peer(),
        tunnel_kept(config@, app@, adopt, old(session)@, final(session)@, tunnel_outcome(r)),
{
    let owned = cloudflare_config_owned_by_app_on_host(session, &config, app, adopt);
    let ghost outcome = plain_outcome(owned);
    match owned {
        Err(error) => {
            assert(tunnel_outcome(Err(error)) == kept_config(config@, outcome));
            Err(error)
        },
        Ok(owned) => if owned {
            Ok(Some(config))
        } else {
            Ok(None)
        },
    }
}

fn find_tunnel<T: RemoteHost>(session: &mut Session<T>, app: &str, adopt: bool) -> (r: Result<
    Option<ParsedCloudflareConfig>,
    CiaoError,
>)
    ensures
        final(session).peer() == old(session).peer(),
        tunnel_found(app@, adopt, old(session)@, final(session)@, tunnel_outcome(r)),
{
    let contents = read_cloudflare_config(session)?;
    keep_owned_tunnel(session, contents, app, adopt)
}

// ---------------------------------------------------------------------------
// Status
// ---------------------------------------------------------------------------

#[derive(Debug, PartialEq, Eq)]
pub struct CloudflareTunnelStatus {
    pub hostname: String,
    pub tunnel: String,
    pub port: u16,
    pub managed: bool,
}

pub struct TunnelStatusView {
    pub hostname: Seq<char>,
    pub tunnel: Seq<char>,
    pub port: u16,
    pub managed: bool,
}

impl View for CloudflareTunnelStatus {
    type V = TunnelStatusView;

    open spec fn view(&self) -> TunnelStatusView {
        TunnelStatusView {
            hostname: self.hostname@,
            tunnel: self.tunnel@,
            port: self.port,
            managed: self.managed,
        }
    }
}

pub open spec fn status_outcome(r: Result<Option<CloudflareTunnelStatus>, CiaoError>) -> Result<
    Option<TunnelStatusView>,
    ErrorView,
> {
    match r {
        Ok(Some(status)) => Ok(Some(status@)),
        Ok(None) => Ok(None),
        Err(error) => Err(error@),
    }
}

/// What users see of a tunnel.
pub open spec fn status_of(config: Option<TunnelView>, app: Seq<char>) -> Result<
    Option<TunnelStatusView>,
    ErrorView,
> {
    match config {
        None => Ok(None),
        Some(config) => match domain_check(config.hostname) {
            Err(error) => Err(error),
            Ok(_) => Ok(
                Some(
                    TunnelStatusView {
                        hostname: config.hostname,
                        tunnel: match config.tunnel_name {
                            Some(name) => name,
                            None => config.tunnel,
                        },
                        port: config.port,
                        managed: config.app == Some(app),
                    },
                ),
            ),
        },
    }
}

/// The state of the tunnel of an application was read.
pub open spec fn tunnel_status_read(
    app: Seq<char>,
    a: Log,
    b: Log,
    r: Result<Option<TunnelStatusView>, ErrorView>,
) -> bool {
    exists|config: Result<Option<TunnelView>, ErrorView>|
        #[trigger] tunnel_found(app, true, a, b, config) && r == match config {
            Err(error) => Err(error),
            Ok(config) => status_of(config, app),
        }
}

pub fn cloudflare_tunnel_status<T: RemoteHost>(session: &mut Session<T>, app: &str) -> (r: Result<
    Option<CloudflareTunnelStatus>,
    CiaoError,
>)
    ensures
        final(session).peer() == old(session).peer(),
        tunnel_status_read(app@, old(session)@, final(session)@, status_outcome(r)),
{
    match find_tunnel(session, app, true)? {
        None => Ok(None),
        Some(config) => {
            validate_domain(config.hostname.as_str())?;
            let managed = opt_is(&config.app, app);
            Ok(
                Some(
                    CloudflareTunnelStatus {
                        hostname: config.hostname,
                        tunnel: match config.tunnel_name {
                            Some(name) => name,
                            None => config.tunnel,
                        },
                        port: config.port,
                        managed,
                    },
                ),
            )
        },
    }
}

// ---------------------------------------------------------------------------
// The active release behind the tunnel
// ---------------------------------------------------------------------------

pub open spec fn active_manifest_after(
    platform: HostPlatform,
    release: Seq<char>,
    app: Seq<char>,
    a: Log,
    b: Log,
    r: Result<ReleaseManifest, ErrorView>,
) -> bool {
    manifest_read(app_root(platform.os), app, release, a, b, r)
}

/// The manifest of the active release was read.
pub open spec fn active_manifest_read(
    app: Seq<char>,
    a: Log,
    b: Log,
    r: Result<ReleaseManifest, ErrorView>,
) -> bool {
    exists|m: Log, x: Result<(HostPlatform, Seq<char>), ErrorView>|
        #[trigger] active_found(app, a, m, x) && match x {
            Err(error) => b == m && r == Err::<ReleaseManifest, ErrorView>(error),
            Ok((platform, release)) => active_manifest_after(platform, release, app, m, b, r),
        }
}

fn active_manifest<T: RemoteHost>(session: &mut Session<T>, app: &str) -> (r: Result<
    ReleaseManifest,
    CiaoError,
>)
    ensures
        final(session).peer() == old(session).peer(),
        active_manifest_read(app@, old(session)@, final(session)@, manifest_outcome(r)),
{
    let (platform, release) = active_release(session, app)?;
    let root = host_app_root(&platform.os);
    read_release_manifest(session, root.as_str(), app, release.as_str())
}

/// The port that a tunnel has to point to.
pub open spec fn port_answer(manifest: Result<ReleaseManifest, ErrorView>) -> Result<u16, ErrorView> {
    match manifest {
        Err(error) => Err(error),
        Ok(manifest) => Ok(
            match manifest.port {
                Some(port) => port,
                None => 80,
            },
        ),
    }
}

pub open spec fn active_port_read(
    app: Seq<char>,
    a: Log,
    b: Log,
    r: Result<u16, ErrorView>,
) -> bool {
    exists|manifest: Result<ReleaseManifest, ErrorView>|
        #[trigger] active_manifest_read(app, a, b, manifest) && r == port_answer(manifest)
}

pub fn active_cloudflare_port<T: RemoteHost>(session: &mut Session<T>, app: &str) -> (r: Result<
    u16,
    CiaoError,
>)
    ensures
        final(session).peer() == old(session).peer(),
        active_port_read(app@, old(session)@, final(session)@, plain_outcome(r)),
{
    let manifest = active_manifest(session, app)?;
    match manifest.port {
        Some(port) => Ok(port),
        None => Ok(80),
    }
}

pub open spec fn health_answer(manifest: Result<ReleaseManifest, ErrorView>) -> Result<
    HealthConfig,
    ErrorView,
> {
    match manifest {
        Err(error) => Err(error),
        Ok(manifest) => Ok(manifest.health),
    }
}

pub open spec fn active_health_read(
    app: Seq<char>,
    a: Log,
    b: Log,
    r: Result<HealthConfig, ErrorView>,
) -> bool {
    exists|manifest: Result<ReleaseManifest, ErrorView>|
        #[trigger] active_manifest_read(app, a, b, manifest) && r == health_answer(manifest)
}

pub fn read_active_health<T: RemoteHost>(session: &mut Session<T>, app: &str) -> (r: Result<
    HealthConfig,
    CiaoError,
>)
    ensures
        final(session).peer() == old(session).peer(),
        active_health_read(app@, old(session)@, final(session)@, plain_outcome(r)),
{
    let manifest = active_manifest(session, app)?;
    Ok(manifest.health)
}

pub const CLOUDFLARE_PROBE: &'static str = " || true)\n    if [ \"$actual\" = \"$expected\" ]; then exit 0; fi\n    case \"$actual\" in 000|5??|'') ;; *) echo \"Cloudflare healthcheck expected HTTP $expected, got $actual\" >&2; exit 1;; esac\n    if [ \"$attempt\" -lt \"$attempts\" ]; then sleep 0.5; fi\n\
    done\n\
    echo \"Cloudflare healthcheck timed out after ";

pub open spec fn public_probe(
    hostname: Seq<char>,
    path: Seq<char>,
    expected: u16,
    timeout: u64,
) -> Seq<char> {
    let tries = attempts(timeout);
    let header = "Host: "@ + hostname;
    let url = "https://"@ + hostname + path;
    "set -eu\nexpected="@ + decimal(expected as nat) + "\nattempts="@ + decimal(tries as nat)
        + "\nfor attempt in $(seq 1 \"$attempts\"); do\n    actual=$(curl --silent --insecure --max-time 3 --header "@
        + shell_quoted(header) + " --output /dev/null --write-out '%{http_code}' "@
        + shell_quoted(url) + CLOUDFLARE_PROBE@ + decimal(timeout as nat) + "s for "@
        + shell_quoted(hostname) + "\" >&2\nexit 1\n"@
}

/// Asking the public host name whether the application answers.
pub open spec fn public_health_plan(hostname: Seq<char>, health: HealthConfig) -> Result<
    Seq<CommandView>,
    ErrorView,
> {
    match domain_check(hostname) {
        Err(error) => Err(error),
        Ok(_) => one(
            script_command(
                "Cloudflare public healthcheck"@,
                public_probe(
                    hostname,
                    health.path@,
                    health.expected_status,
                    health.timeout_seconds,
                ),
            ),
        ),
    }
}

pub fn cloudflare_public_healthcheck(hostname: &str, health: &HealthConfig) -> (r: Result<
    Vec<CommandSpec>,
    CiaoError,
>)
    ensures
        plan_outcome(r) == public_health_plan(hostname@, *health),
{
    validate_domain(hostname)?;
    let timeout: u64 = health.timeout_seconds;
    let expected: u16 = health.expected_status;
    let tries = health_attempts(timeout);
    let header_text = "Host: ".to_owned().concat(hostname);
    let header = header_text.as_str();
    let url_text = "https://".to_owned().concat(hostname).concat(health.path.as_str());
    let url = url_text.as_str();
    let script = "set -eu\nexpected=".to_owned()
        .concat(decimal_text(expected as u64).as_str())
        .concat("\nattempts=")
        .concat(decimal_text(tries as u64).as_str())
        .concat(
            "\nfor attempt in $(seq 1 \"$attempts\"); do\n    actual=$(curl --silent --insecure --max-time 3 --header ",
        )
            .concat(shell_quote(header).as_str())
            .concat(" --output /dev/null --write-out '%{http_code}' ")
            .concat(shell_quote(url).as_str())
            .concat(CLOUDFLARE_PROBE)
            .concat(decimal_text(timeout as u64).as_str())
            .concat("s for ")
            .concat(shell_quote(hostname).as_str())
            .concat("\" >&2\nexit 1\n");
    single_plan(script_spec("Cloudflare public healthcheck", script.as_str()))
}

// ---------------------------------------------------------------------------
// Keeping the tunnel in step
// ---------------------------------------------------------------------------

pub open spec fn reload_tunnel_script(os: HostOs) -> Seq<char> {
    match os {
        HostOs::Linux => "set -eu\n\
            sudo -n systemctl reload cloudflared 2>/dev/null || sudo -n systemctl restart cloudflared\n"@,
        HostOs::MacOs => "set -eu\n\
            sudo -n launchctl kickstart -k system/com.cloudflare.cloudflared 2>/dev/null || sudo -n launchctl start com.cloudflare.cloudflared\n"@,
        HostOs::Unknown(_) => Seq::empty(),
    }
}

pub fn cloudflared_reload_script(os: &HostOs) -> (r: String)
    ensures
        r@ == reload_tunnel_script(*os),
{
    match os {
        HostOs::Linux => "set -eu\n\
            sudo -n systemctl reload cloudflared 2>/dev/null || sudo -n systemctl restart cloudflared\n".to_owned(),
        HostOs::MacOs => "set -eu\n\
            sudo -n launchctl kickstart -k system/com.cloudflare.cloudflared 2>/dev/null || sudo -n launchctl start com.cloudflare.cloudflared\n".to_owned(),
        HostOs::Unknown(_) => String::new(),
    }
}

pub open spec fn disable_tunnel_script(os: HostOs) -> Seq<char> {
    match os {
        HostOs::Linux => "set -eu\n\
            sudo -n systemctl disable --now cloudflared 2>/dev/null || true\n"@,
        HostOs::MacOs => "set -eu\n\
            sudo -n launchctl bootout system/com.cloudflare.cloudflared 2>/dev/null || sudo -n launchctl stop com.cloudflare.cloudflared 2>/dev/null || true\n"@,
        HostOs::Unknown(_) => "set -eu\ntrue\n"@,
    }
}

pub fn cloudflared_disable_script(os: &HostOs) -> (r: String)
    ensures
        r@ == disable_tunnel_script(*os),
{
    match os {
        HostOs::Linux => "set -eu\n\
            sudo -n systemctl disable --now cloudflared 2>/dev/null || true\n".to_owned(),
        HostOs::MacOs => "set -eu\n\
            sudo -n launchctl bootout system/com.cloudflare.cloudflared 2>/dev/null || sudo -n launchctl stop com.cloudflare.cloudflared 2>/dev/null || true\n".to_owned(),
        HostOs::Unknown(_) => "set -eu\ntrue\n".to_owned(),
    }
}

/// Whether a tunnel has to be written anew: its port is no longer the active
/// one, or it is not marked as the application's.
pub open spec fn out_of_step(config: TunnelView, app: Seq<char>, port: u16) -> bool {
    config.port != port || config.app != Some(app)
}

/// Pointing a tunnel at a port.
pub open spec fn retarget_plan(os: HostOs, config: TunnelView, app: Seq<char>, port: u16) -> Result<
    Seq<CommandView>,
    ErrorView,
> {
    match write_file_plan(
        CLOUDFLARED_CONFIG@,
        config_text(
            app,
            config.tunnel,
            config.tunnel_name,
            config.credentials,
            config.hostname,
            port,
        ),
        "root"@,
        "synchronize Cloudflare Tunnel ingress"@,
    ) {
        Err(error) => Err(error),
        Ok(write) => Ok(
            write.push(script_command("reload Cloudflare Tunnel"@, reload_tunnel_script(os))),
        ),
    }
}

fn retarget_commands(
    os: &HostOs,
    config: &ParsedCloudflareConfig,
    app: &str,
    port: u16,
) -> (r: Result<Vec<CommandSpec>, CiaoError>)
    ensures
        plan_outcome(r) == retarget_plan(*os, config@, app@, port),
{
    let contents = cloudflare_config_contents(
        app,
        config.tunnel.as_str(),
        crate::text::borrow_opt(&config.tunnel_name),
        config.credentials.as_str(),
        config.hostname.as_str(),
        port,
    );
    let mut list = write_remote_file(
        CLOUDFLARED_CONFIG,
        contents.as_str(),
        "root",
        "synchronize Cloudflare Tunnel ingress",
    )?;
    let ghost write = commands_view(list@);
    let reload = script_spec("reload Cloudflare Tunnel", cloudflared_reload_script(os).as_str());
    let ghost last = reload@;
    list.push(reload);
    assert(commands_view(list@) =~= write.push(last));
    Ok(list)
}

/// The tunnel was pointed at the active port, where it was not.
pub open spec fn tunnel_updated(
    os: HostOs,
    config: TunnelView,
    app: Seq<char>,
    port: u16,
    a: Log,
    b: Log,
    r: Result<(), ErrorView>,
) -> bool {
    if out_of_step(config, app, port) {
        performed(retarget_plan(os, config, app, port), a, b, r)
    } else {
        b == a && r == Ok::<(), ErrorView>(())
    }
}

/// The public host name was asked, with the health check of the active release.
pub open spec fn public_health_checked(
    config: TunnelView,
    app: Seq<char>,
    changed: bool,
    a: Log,
    b: Log,
    r: Result<bool, ErrorView>,
) -> bool {
    exists|m: Log, x: Result<HealthConfig, ErrorView>|
        #[trigger] active_health_read(app, a, m, x) && match x {
            Err(error) => b == m && r == Err::<bool, ErrorView>(error),
            Ok(health) => exists|done: Result<(), ErrorView>|
                #[trigger] performed(public_health_plan(config.hostname, health), m, b, done) && r
                    == match done {
                    Err(error) => Err(error),
                    Ok(_) => Ok(changed),
                },
        }
}

pub open spec fn synced_with_port(
    os: HostOs,
    config: TunnelView,
    app: Seq<char>,
    port: u16,
    a: Log,
    b: Log,
    r: Result<bool, ErrorView>,
) -> bool {
    exists|m: Log, x: Result<(), ErrorView>|
        #[trigger] tunnel_updated(os, config, app, port, a, m, x) && match x {
            Err(error) => b == m && r == Err::<bool, ErrorView>(error),
            Ok(_) => public_health_checked(config, app, out_of_step(config, app, port), m, b, r),
        }
}

pub open spec fn synced_on(
    platform: HostPlatform,
    config: TunnelView,
    app: Seq<char>,
    a: Log,
    b: Log,
    r: Result<bool, ErrorView>,
) -> bool {
    exists|m: Log, x: Result<u16, ErrorView>|
        #[trigger] active_port_read(app, a, m, x) && match x {
            Err(error) => b == m && r == Err::<bool, ErrorView>(error),
            Ok(port) => synced_with_port(platform.os, config, app, port, m, b, r),
        }
}

pub open spec fn synced_tunnel(
    config: Option<TunnelView>,
    app: Seq<char>,
    a: Log,
    b: Log,
    r: Result<bool, ErrorView>,
) -> bool {
    match config {
        None => b == a && r == Ok::<bool, ErrorView>(false),
        Some(config) => match domain_check(config.hostname) {
            Err(error) => b == a && r == Err::<bool, ErrorView>(error),
            Ok(_) => exists|m: Log, x: Result<HostPlatform, ErrorView>|
                #[trigger] inspected(a, m, x) && match x {
                    Err(error) => b == m && r == Err::<bool, ErrorView>(error),
                    Ok(platform) => synced_on(platform, config, app, m, b, r),
                },
        },
    }
}

/// The tunnel of an application, where it has one, was brought in step with the
/// active release: it points to the active port and carries the mark of the
/// application.
pub open spec fn tunnel_synced(app: Seq<char>, a: Log, b: Log, r: Result<bool, ErrorView>) -> bool {
    match identifier_check("app name"@, app) {
        Err(error) => b == a && r == Err::<bool, ErrorView>(error),
        Ok(_) => exists|m: Log, x: Result<Option<TunnelView>, ErrorView>|
            #[trigger] tunnel_found(app, true, a, m, x) && match x {
                Err(error) => b == m && r == Err::<bool, ErrorView>(error),
                Ok(config) => synced_tunnel(config, app, m, b, r),
            },
    }
}

fn sync_with_port<T: RemoteHost>(
    session: &mut Session<T>,
    os: &HostOs,
    config: &ParsedCloudflareConfig,
    app: &str,
    port: u16,
) -> (r: Result<bool, CiaoError>)
    ensures
        final(session).peer() == old(session).peer(),
        synced_with_port(
            *os,
            config@,
            app@,
            port,
            old(session)@,
            final(session)@,
            plain_outcome(r),
        ),
{
    let changed = config.port != port || !opt_is(&config.app, app);
    let ghost before = session@;
    let updated = if changed {
        perform(session, retarget_commands(os, config, app, port))
    } else {
        Ok(())
    };
    assert(tunnel_updated(*os, config@, app@, port, before, session@, unit_outcome(updated)));
    updated?;
    let health = read_active_health(session, app)?;
    let ghost middle = session@;
    let checked = perform(
        session,
        cloudflare_public_healthcheck(config.hostname.as_str(), &health),
    );
    assert(performed(
        public_health_plan(config@.hostname, health),
        middle,
        session@,
        unit_outcome(checked),
    ));
    checked?;
    Ok(changed)
}

/// Points the tunnel of an application, where it has one, at the active
/// release.
pub fn sync_cloudflare_tunnel_if_present<T: RemoteHost>(
    session: &mut Session<T>,
    app: &str,
) -> (r: Result<bool, CiaoError>)
    ensures
        final(session).peer() == old(session).peer(),
        tunnel_synced(app@, old(session)@, final(session)@, plain_outcome(r)),
{
    validate_identifier("app name", app)?;
    let config = match find_tunnel(session, app, true)? {
        Some(config) => config,
        None => {
            return Ok(false);
        },
    };
    validate_domain(config.hostname.as_str())?;
    let platform = session.inspect()?;
    let port = active_cloudflare_port(session, app)?;
    sync_with_port(session, &platform.os, &config, app, port)
}

// ---------------------------------------------------------------------------
// Taking the tunnel away
// ---------------------------------------------------------------------------

/// Stopping the tunnel and removing its ingress.
pub open spec fn remove_tunnel_plan(os: HostOs) -> Result<Seq<CommandView>, ErrorView> {
    Ok(
        seq![
            script_command("disable Cloudflare Tunnel service"@, disable_tunnel_script(os)),
            script_command(
                "remove Cloudflare Tunnel ingress"@,
                "set -eu\nsudo -n rm -f /etc/cloudflared/config.yml\n"@,
            ),
        ],
    )
}

fn remove_tunnel_commands(os: &HostOs) -> (r: Result<Vec<CommandSpec>, CiaoError>)
    ensures
        plan_outcome(r) == remove_tunnel_plan(*os),
{
    let list: Vec<CommandSpec> = vec![
        script_spec("disable Cloudflare Tunnel service", cloudflared_disable_script(os).as_str()),
        script_spec(
            "remove Cloudflare Tunnel ingress",
            "set -eu\nsudo -n rm -f /etc/cloudflared/config.yml\n",
        ),
    ];
    assert(commands_view(list@) =~= remove_tunnel_plan(*os)->Ok_0);
    Ok(list)
}

pub open spec fn removed_tunnel(
    config: Option<TunnelView>,
    a: Log,
    b: Log,
    r: Result<bool, ErrorView>,
) -> bool {
    match config {
        None => b == a && r == Ok::<bool, ErrorView>(false),
        Some(_) => exists|m: Log, x: Result<HostPlatform, ErrorView>|
            #[trigger] inspected(a, m, x) && match x {
                Err(error) => b == m && r == Err::<bool, ErrorView>(error),
                Ok(platform) => exists|done: Result<(), ErrorView>|
                    #[trigger] performed(remove_tunnel_plan(platform.os), m, b, done) && r
                        == match done {
                        Err(error) => Err(error),
                        Ok(_) => Ok(true),
                    },
            },
    }
}

/// The tunnel of an application was taken away, where its file says that it is
/// the application's. A tunnel that only serves its domain is left alone.
pub open spec fn tunnel_removed(
    app: Seq<char>,
    a: Log,
    b: Log,
    r: Result<bool, ErrorView>,
) -> bool {
    match identifier_check("app name"@, app) {
        Err(error) => b == a && r == Err::<bool, ErrorView>(error),
        Ok(_) => exists|m: Log, x: Result<Option<TunnelView>, ErrorView>|
            #[trigger] tunnel_found(app, false, a, m, x) && match x {
                Err(error) => b == m && r == Err::<bool, ErrorView>(error),
                Ok(config) => removed_tunnel(config, m, b, r),
            },
    }
}

pub fn remove_cloudflare_tunnel_if_owned<T: RemoteHost>(
    session: &mut Session<T>,
    app: &str,
) -> (r: Result<bool, CiaoError>)
    ensures
        final(session).peer() == old(session).peer(),
        tunnel_removed(app@, old(session)@, final(session)@, plain_outcome(r)),
{
    validate_identifier("app name", app)?;
    match find_tunnel(session, app, false)? {
        None => {
            return Ok(false);
        },
        Some(_) => {},
    }
    let platform = session.inspect()?;
    let ghost middle = session@;
    let done = perform(session, remove_tunnel_commands(&platform.os));
    assert(performed(remove_tunnel_plan(platform.os), middle, session@, unit_outcome(done)));
    done?;
    Ok(true)
}

} // verus!
