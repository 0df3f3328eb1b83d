use avdl::proxy::{
    detect_from_env, detect_system_proxy, detect_windows_registry, detection_from_scutil, kv,
    parse_proxy_server, parse_proxy_url, plan_proxy_settings, proxy_from_sysproxy,
    reg_query_value, split_host_port, Detection, ProxyConfig, ProxyPlan, ProxySettings,
};

#[test]
fn split_host_port_basic() {
    assert_eq!(
        split_host_port("127.0.0.1:7890"),
        Some(("127.0.0.1".to_string(), 7890))
    );
    assert_eq!(
        split_host_port("localhost:8080"),
        Some(("localhost".to_string(), 8080))
    );
    assert_eq!(
        split_host_port("[::1]:7890"),
        Some(("::1".to_string(), 7890))
    );
    assert_eq!(split_host_port(""), None);
    assert_eq!(split_host_port("noport"), None);
    assert_eq!(split_host_port("host:notaport"), None);
}

#[test]
fn parse_proxy_url_variants() {
    assert_eq!(
        parse_proxy_url("http://127.0.0.1:7890", "http"),
        Some(ProxyConfig {
            scheme: "http".to_string(),
            host: "127.0.0.1".to_string(),
            port: 7890
        })
    );
    assert_eq!(
        parse_proxy_url("socks5://127.0.0.1:1080", "http"),
        Some(ProxyConfig {
            scheme: "socks5".to_string(),
            host: "127.0.0.1".to_string(),
            port: 1080
        })
    );
    // socks:// is normalized to socks5://
    assert_eq!(
        parse_proxy_url("socks://127.0.0.1:1080", "http").unwrap().scheme,
        "socks5"
    );
    // bare host:port assumes the default scheme
    assert_eq!(
        parse_proxy_url("127.0.0.1:7890", "http").unwrap().scheme,
        "http"
    );
    assert_eq!(parse_proxy_url("", "http"), None);
    assert_eq!(parse_proxy_url("   ", "http"), None);
}

#[test]
fn parse_proxy_server_variants() {
    // Common Clash format: bare ip:port
    let cfg = parse_proxy_server("127.0.0.1:7897").unwrap();
    assert_eq!(cfg.host, "127.0.0.1");
    assert_eq!(cfg.port, 7897);
    assert_eq!(cfg.scheme, "http");

    // Hostname (a strict SocketAddr parse would reject this)
    let cfg = parse_proxy_server("localhost:7897").unwrap();
    assert_eq!(cfg.host, "localhost");

    // Per-protocol list — prefer https, then http, then socks
    let cfg = parse_proxy_server("http=127.0.0.1:7890;https=127.0.0.1:7891").unwrap();
    assert_eq!(cfg.port, 7891);
    assert_eq!(cfg.scheme, "https");

    // socks entry maps to socks5
    let cfg = parse_proxy_server("socks=127.0.0.1:7892").unwrap();
    assert_eq!(cfg.scheme, "socks5");

    assert_eq!(parse_proxy_server(""), None);
    assert_eq!(parse_proxy_server("garbage"), None);
}

const SCUTIL_SAMPLE: &str = "\
<dictionary> {
    ExceptionsList : <array> {
        0 : *.local
        1 : 169.254/16
    }
    FTPPassive : 1
    HTTPEnable : 1
    HTTPPort : 7897
    HTTPProxy : 127.0.0.1
    HTTPSEnable : 1
    HTTPSPort : 7897
    HTTPSProxy : 127.0.0.1
    ProxyAutoConfigEnable : 0
    SOCKSEnable : 0
    SOCKSProxy : 127.0.0.1
    SOCKSPort : 7897
}
";

#[test]
fn scutil_output_parsing() {
    let sample = SCUTIL_SAMPLE;
    assert_eq!(kv(sample, "HTTPEnable"), Some("1"));
    assert_eq!(kv(sample, "HTTPProxy"), Some("127.0.0.1"));
    assert_eq!(kv(sample, "HTTPPort"), Some("7897"));
    assert_eq!(kv(sample, "SOCKSEnable"), Some("0"));
    assert_eq!(kv(sample, "ProxyAutoConfigEnable"), Some("0"));
    assert_eq!(kv(sample, "MissingKey"), None);
}

#[test]
fn scutil_detection_prefers_http() {
    let d = detection_from_scutil(SCUTIL_SAMPLE).unwrap();
    assert_eq!(
        d.proxy,
        Some(ProxyConfig {
            scheme: "http".to_string(),
            host: "127.0.0.1".to_string(),
            port: 7897
        })
    );
    assert_eq!(d.warning, None);
}

#[test]
fn scutil_pac_without_static_proxy_is_reported() {
    let text = "<dictionary> {\n  ProxyAutoConfigEnable : 1\n  HTTPEnable : 0\n}\n";
    let d = detection_from_scutil(text).unwrap();
    assert_eq!(d.proxy, None);
    assert_eq!(d.warning, Some("pac_unsupported"));
    assert!(detection_from_scutil("<dictionary> {\n}\n").is_none());
}

#[test]
fn windows_registry_decisions() {
    assert!(detect_windows_registry(Some("0x0"), Some("127.0.0.1:7890")).is_none());
    assert!(detect_windows_registry(None, Some("127.0.0.1:7890")).is_none());
    let d = detect_windows_registry(Some(" 0x1 "), Some("127.0.0.1:7890")).unwrap();
    assert_eq!(d.proxy.unwrap().port, 7890);
    let d = detect_windows_registry(Some("0x1"), Some("garbage")).unwrap();
    assert_eq!(d.proxy, None);
    assert_eq!(d.warning, Some("parse_failed"));
}

#[test]
fn reg_query_output_value() {
    let out = "\r\nHKEY_CURRENT_USER\\Software\\Microsoft\\Windows\\CurrentVersion\\Internet Settings\r\n    ProxyServer    REG_SZ    127.0.0.1:7890\r\n\r\n";
    assert_eq!(reg_query_value(out, "ProxyServer"), Some("127.0.0.1:7890".to_string()));
    assert_eq!(reg_query_value(out, "ProxyEnable"), None);
    assert_eq!(reg_query_value("    ProxyEnable    REG_DWORD\n    ProxyEnable    REG_DWORD    0x1\n", "ProxyEnable"), Some("0x1".to_string()));
}

#[test]
fn env_and_fallback_order() {
    let c = detect_from_env(None, None, Some("bad"), Some("http://10.0.0.1:3128"), None, None).unwrap();
    assert_eq!(c.host, "10.0.0.1");
    assert_eq!(c.scheme, "http");
    let c = detect_from_env(Some("127.0.0.1:8443"), None, None, None, None, None).unwrap();
    assert_eq!(c.scheme, "https");
    assert!(detect_from_env(None, None, None, None, None, None).is_none());
    assert!(proxy_from_sysproxy(true, "", 8080).is_none());
    assert!(proxy_from_sysproxy(false, "h", 8080).is_none());
    assert_eq!(proxy_from_sysproxy(true, "h", 8080).unwrap().url(), "http://h:8080");
    let d = detect_system_proxy(None, None, proxy_from_sysproxy(true, "h", 1));
    assert_eq!(d.proxy.unwrap().port, 1);
    let d = detect_system_proxy(Some(Detection { proxy: None, warning: Some("pac_unsupported") }), c_none(), None);
    assert_eq!(d.warning, Some("pac_unsupported"));
}

fn c_none() -> Option<ProxyConfig> {
    None
}

#[test]
fn proxy_settings_plans() {
    let s = |mode: &str, custom: Option<&str>| ProxySettings {
        mode: mode.to_string(),
        custom_proxy: custom.map(|c| c.to_string()),
    };
    assert!(matches!(plan_proxy_settings(&s("direct", None)), Ok(ProxyPlan::Direct)));
    assert!(matches!(plan_proxy_settings(&s("system", None)), Ok(ProxyPlan::System)));
    match plan_proxy_settings(&s("custom", Some(" socks5://1.2.3.4:1080 "))) {
        Ok(ProxyPlan::Custom(c)) => assert_eq!(c.url(), "socks5://1.2.3.4:1080"),
        _ => panic!("custom proxy expected"),
    }
    assert_eq!(plan_proxy_settings(&s("custom", Some("  "))).err().unwrap(), "自定义代理地址不能为空");
    assert_eq!(
        plan_proxy_settings(&s("custom", Some("nope"))).err().unwrap(),
        "无法解析自定义代理地址: nope"
    );
    assert_eq!(plan_proxy_settings(&s("pac", None)).err().unwrap(), "未知的代理模式: pac");
}

#[test]
fn host_and_port_round_trip() {
    for (h, p) in [("127.0.0.1", 7890u16), ("localhost", 0), ("proxy.example.com", 65535)] {
        assert_eq!(split_host_port(&format!("{}:{}", h, p)), Some((h.to_string(), p)));
    }
    assert_eq!(split_host_port(&format!("[{}]:{}", "::1", 1080)), Some(("::1".to_string(), 1080)));
}

#[test]
fn detections_name_a_host_or_carry_a_warning_alone() {
    let d = detect_windows_registry(Some("0x1"), Some("garbage")).unwrap();
    assert!(d.proxy.is_none());
    assert_eq!(d.warning, Some("parse_failed"));
    let d = detection_from_scutil("ProxyAutoConfigEnable : 1\n").unwrap();
    assert!(d.proxy.is_none());
    assert_eq!(d.warning, Some("pac_unsupported"));
    let d = detect_system_proxy(None, None, proxy_from_sysproxy(true, "127.0.0.1", 7890));
    assert_eq!(d.proxy.unwrap().host, "127.0.0.1");
    assert!(proxy_from_sysproxy(true, "", 7890).is_none());
}

#[test]
fn proxy_urls_round_trip() {
    for (scheme, host, port) in [("http", "127.0.0.1", 7890u16), ("socks5", "proxy.local", 1080), ("https", "::1", 443)] {
        let cfg = ProxyConfig { scheme: scheme.to_string(), host: host.to_string(), port };
        assert_eq!(parse_proxy_url(&cfg.url(), "http"), Some(cfg.clone()));
        assert_eq!(parse_proxy_url(&cfg.url(), "https"), Some(cfg));
    }
}
