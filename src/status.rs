use vstd::prelude::*;

use crate::i18n::{t, Lang};
use crate::ingress::{hostnames_of, mapping_count, rules_model, TunnelConfig};

verus! {

/// What the local machine looks like to the client.
#[derive(Debug)]
pub struct SystemStatus {
    pub service_running: bool,
    pub config_exists: bool,
    pub tunnel_name: Option<String>,
    pub mappings_count: usize,
    pub api_configured: bool,
    pub cloudflared_installed: bool,
    pub warnings: Vec<String>,
}

/// The text of the language.
pub open spec fn in_lang(lang: Lang, en: Seq<char>, zh: Seq<char>) -> Seq<char> {
    match lang {
        Lang::En => en,
        Lang::Zh => zh,
    }
}

/// The warnings for what is missing, in this order: the daemon, the tunnel
/// configuration file, the API configuration.
pub open spec fn status_warnings(
    lang: Lang,
    cloudflared_installed: bool,
    config_exists: bool,
    api_configured: bool,
) -> Seq<Seq<char>> {
    (if cloudflared_installed {
        seq![]
    } else {
        seq![
            in_lang(
                lang,
                "cloudflared is not installed or not in PATH"@,
                "cloudflared 未安装或不在 PATH 中"@,
            ),
        ]
    }) + (if config_exists {
        seq![]
    } else {
        seq![in_lang(lang, "Tunnel config file not found"@, "隧道配置文件不存在"@)]
    }) + (if api_configured {
        seq![]
    } else {
        seq![
            in_lang(
                lang,
                "API not configured. Run `tunnel config set`"@,
                "API 未配置，请运行 `tunnel config set`"@,
            ),
        ]
    })
}

fn warn(out: &mut Vec<String>, lang: Lang, en: &str, zh: &str)
    ensures
        final(out)@.map_values(|w: String| w@) == old(out)@.map_values(|w: String| w@).push(
            in_lang(lang, en@, zh@),
        ),
{
    let ghost before = out@.map_values(|w: String| w@);
    out.push(String::from_str(t(lang, en, zh)));
    assert(out@.map_values(|w: String| w@) =~= before.push(in_lang(lang, en@, zh@)));
}

/// Put together the status from what was observed: whether the daemon is
/// installed and running, whether the tunnel configuration file and the API
/// configuration exist, and the tunnel configuration when it could be read.
pub fn get_system_status(
    lang: Lang,
    cloudflared_installed: bool,
    service_running: bool,
    config_exists: bool,
    api_configured: bool,
    tunnel: Option<&TunnelConfig>,
) -> (r: SystemStatus)
    ensures
        r.cloudflared_installed == cloudflared_installed,
        r.service_running == service_running,
        r.config_exists == config_exists,
        r.api_configured == api_configured,
        match tunnel {
            Some(c) => r.tunnel_name matches Some(n) && n@ == c.tunnel@ && r.mappings_count
                == hostnames_of(rules_model(c.ingress@)).len(),
            None => r.tunnel_name is None && r.mappings_count == 0,
        },
        r.warnings@.map_values(|w: String| w@) == status_warnings(
            lang,
            cloudflared_installed,
            config_exists,
            api_configured,
        ),
{
    let (tunnel_name, mappings_count) = match tunnel {
        Some(c) => (Some(c.tunnel.clone()), mapping_count(&c.ingress)),
        None => (None, 0),
    };
    let mut warnings: Vec<String> = Vec::new();
    assert(warnings@.map_values(|w: String| w@) =~= seq![]);
    if !cloudflared_installed {
        warn(
            &mut warnings,
            lang,
            "cloudflared is not installed or not in PATH",
            "cloudflared 未安装或不在 PATH 中",
        );
    }
    if !config_exists {
        warn(&mut warnings, lang, "Tunnel config file not found", "隧道配置文件不存在");
    }
    if !api_configured {
        warn(
            &mut warnings,
            lang,
            "API not configured. Run `tunnel config set`",
            "API 未配置，请运行 `tunnel config set`",
        );
    }
    assert(warnings@.map_values(|w: String| w@) =~= status_warnings(
        lang,
        cloudflared_installed,
        config_exists,
        api_configured,
    ));
    SystemStatus {
        service_running,
        config_exists,
        tunnel_name,
        mappings_count,
        api_configured,
        cloudflared_installed,
        warnings,
    }
}

} // verus!
