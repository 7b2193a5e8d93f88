//! The services dashboard's derived values.
//!
//! Each configured service shares one IP; its URL is built from
//! protocol, IP and port, the health-check URL appends an optional
//! path, and the probe's HTTP status code decides whether the service
//! counts as online. The HTTP probe itself lives in the surrounding
//! application.

use vstd::prelude::*;
use vstd::string::StringExecFns;
use crate::config::{
    Config, GlobalConfig, ServiceCardConfig, ServicesConfig, default_server_config,
    spec_default_collectors_config, spec_default_performance_config,
};
use crate::models::{ServiceCard, ServiceStatus};

verus! {

pub open spec fn spec_digit_char(d: nat) -> char {
    if d == 0 {
        '0'
    } else if d == 1 {
        '1'
    } else if d == 2 {
        '2'
    } else if d == 3 {
        '3'
    } else if d == 4 {
        '4'
    } else if d == 5 {
        '5'
    } else if d == 6 {
        '6'
    } else if d == 7 {
        '7'
    } else if d == 8 {
        '8'
    } else {
        '9'
    }
}

/// The decimal numeral of `n`, most significant digit first.
pub open spec fn spec_dec_chars(n: nat) -> Seq<char>
    decreases n,
{
    if n < 10 {
        seq![spec_digit_char(n)]
    } else {
        spec_dec_chars(n / 10).push(spec_digit_char(n % 10))
    }
}

fn digit_str(d: u16) -> (r: &'static str)
    requires
        d < 10,
    ensures
        r@ == seq![spec_digit_char(d as nat)],
{
    proof {
        reveal_strlit("0");
        reveal_strlit("1");
        reveal_strlit("2");
        reveal_strlit("3");
        reveal_strlit("4");
        reveal_strlit("5");
        reveal_strlit("6");
        reveal_strlit("7");
        reveal_strlit("8");
        reveal_strlit("9");
    }
    match d {
        0 => "0",
        1 => "1",
        2 => "2",
        3 => "3",
        4 => "4",
        5 => "5",
        6 => "6",
        7 => "7",
        8 => "8",
        _ => "9",
    }
}

/// The decimal numeral of a port number.
pub fn port_to_string(n: u16) -> (r: String)
    ensures
        r@ == spec_dec_chars(n as nat),
    decreases n,
{
    if n < 10 {
        digit_str(n).to_owned()
    } else {
        let mut s = port_to_string(n / 10);
        s.append(digit_str(n % 10));
        s
    }
}

/// The URL one configured service is reached under.
pub fn service_url(item: &ServiceCardConfig, ip: &str) -> (r: String)
    ensures
        r@ == item.protocol@ + "://"@ + ip@ + ":"@ + spec_dec_chars(item.port as nat),
{
    let mut s = item.protocol.clone();
    s.append("://");
    s.append(ip);
    s.append(":");
    let p = port_to_string(item.port);
    s.append(p.as_str());
    s
}

/// The URL the health probe uses: the service URL, extended by the
/// configured path if there is one.
pub fn service_health_url(item: &ServiceCardConfig, url: &str) -> (r: String)
    ensures
        r@ == url@ + (match item.health_check_path {
            Some(p) => p@,
            None => Seq::<char>::empty(),
        }),
{
    let mut s = url.to_owned();
    match &item.health_check_path {
        Some(p) => {
            s.append(p.as_str());
        },
        None => {
            proof {
                assert(url@ + Seq::<char>::empty() =~= url@);
            }
        },
    }
    s
}

/// A service is online exactly when its probe answered with a success
/// or redirection status.
pub fn service_status_from_http(status_code: u16) -> (r: ServiceStatus)
    ensures
        (r == ServiceStatus::Online) <==> (200 <= status_code < 400),
{
    if 200 <= status_code && status_code < 400 {
        ServiceStatus::Online
    } else {
        ServiceStatus::Offline
    }
}

/// The dashboard card of one service, once its probe has answered.
pub fn make_service_card(item: &ServiceCardConfig, url: String, status: ServiceStatus) -> (r:
    ServiceCard)
    ensures
        r.name == item.name,
        r.url == url,
        r.icon == item.icon,
        r.description == item.description,
        r.status == status,
{
    ServiceCard {
        name: item.name.clone(),
        url,
        icon: item.icon.clone(),
        description: item.description.clone(),
        status,
    }
}

/// The built-in dashboard: four common self-hosted services on
/// localhost, probed over plain HTTP without a health-check path.
pub fn get_default_services_config() -> (r: ServicesConfig)
    ensures
        r.ip@ == "localhost"@,
        r.items@.len() == 4,
        r.items@[0].name@ == "Gitea"@ && r.items@[0].port == 3000 && r.items@[0].icon@
            == "fab fa-git-alt"@ && r.items@[0].protocol@ == "http"@
            && r.items@[0].health_check_path is None,
        r.items@[1].name@ == "Nextcloud"@ && r.items@[1].port == 8080 && r.items@[1].icon@
            == "fas fa-cloud"@ && r.items@[1].protocol@ == "http"@
            && r.items@[1].health_check_path is None,
        r.items@[2].name@ == "Jellyfin"@ && r.items@[2].port == 8096 && r.items@[2].icon@
            == "fas fa-play-circle"@ && r.items@[2].protocol@ == "http"@
            && r.items@[2].health_check_path is None,
        r.items@[3].name@ == "Home Assistant"@ && r.items@[3].port == 8123 && r.items@[3].icon@
            == "fas fa-home"@ && r.items@[3].protocol@ == "http"@
            && r.items@[3].health_check_path is None,
{
    let mut items: Vec<ServiceCardConfig> = Vec::new();
    items.push(
        ServiceCardConfig {
            name: "Gitea".to_owned(),
            port: 3000,
            icon: "fab fa-git-alt".to_owned(),
            description: "Git仓库管理".to_owned(),
            protocol: "http".to_owned(),
            health_check_path: None,
        },
    );
    items.push(
        ServiceCardConfig {
            name: "Nextcloud".to_owned(),
            port: 8080,
            icon: "fas fa-cloud".to_owned(),
            description: "私有云存储".to_owned(),
            protocol: "http".to_owned(),
            health_check_path: None,
        },
    );
    items.push(
        ServiceCardConfig {
            name: "Jellyfin".to_owned(),
            port: 8096,
            icon: "fas fa-play-circle".to_owned(),
            description: "媒体服务器".to_owned(),
            protocol: "http".to_owned(),
            health_check_path: None,
        },
    );
    items.push(
        ServiceCardConfig {
            name: "Home Assistant".to_owned(),
            port: 8123,
            icon: "fas fa-home".to_owned(),
            description: "智能家居".to_owned(),
            protocol: "http".to_owned(),
            health_check_path: None,
        },
    );
    ServicesConfig { ip: "localhost".to_owned(), items }
}

/// The whole configuration used when the configuration file is missing
/// or does not parse: the default binding, the built-in dashboard, and
/// default monitoring settings.
pub fn default_config() -> (r: Config)
    ensures
        r.server.host@ == "0.0.0.0"@,
        r.server.port == 9876,
        r.services.ip@ == "localhost"@,
        r.services.items@.len() == 4,
        r.monitoring.collectors == spec_default_collectors_config(),
        r.monitoring.performance == spec_default_performance_config(),
{
    Config {
        server: default_server_config(),
        services: get_default_services_config(),
        monitoring: GlobalConfig::default(),
    }
}

} // verus!
