use liver::config::{port_setting, Config, DEFAULT_HTTP_PORT, DEFAULT_WS_PORT};
use liver::decimal::{parse_port, port_text};
use liver::snippet::{reload_script, reload_snippet, ws_url, RELOAD_MESSAGE};

const SCRIPT_8001: &str = r#"<script>
const socket = new WebSocket("ws://127.0.0.1:8001");

socket.addEventListener('error', (event) => {
  console.error(event);
});

socket.addEventListener('open', (event) => {
  console.debug("Liver: reloading enabled!");
});

socket.addEventListener('message', (event) => {
  if (event.data === 'Reload') {
    console.debug('Liver: reloading...');
    location.reload();
  }
});
</script>"#;

#[test]
fn script_for_default_port_is_exact() {
    assert_eq!(reload_script(8001), SCRIPT_8001);
}

#[test]
fn script_embeds_the_given_port() {
    let script = reload_script(9123);
    assert_eq!(script, SCRIPT_8001.replace("8001", "9123"));
    assert!(script.contains("new WebSocket(\"ws://127.0.0.1:9123\")"));
    assert!(!script.contains("8001"));
}

#[test]
fn snippet_bytes_are_the_script_bytes() {
    assert_eq!(reload_snippet(8001), SCRIPT_8001.as_bytes().to_vec());
    assert_eq!(reload_snippet(1), reload_script(1).into_bytes());
}

#[test]
fn snippet_is_the_same_on_every_call() {
    assert_eq!(reload_snippet(8001), reload_snippet(8001));
}

#[test]
fn snippet_reloads_on_the_reload_message() {
    assert_eq!(RELOAD_MESSAGE, "Reload");
    assert!(reload_script(8001).contains("event.data === 'Reload'"));
    assert!(reload_script(8001).contains("location.reload();"));
    assert!(reload_script(8001).contains("console.error(event);"));
}

#[test]
fn ws_url_is_local_host_and_port() {
    assert_eq!(ws_url(8001), "127.0.0.1:8001");
    assert_eq!(ws_url(0), "127.0.0.1:0");
    assert_eq!(ws_url(65535), "127.0.0.1:65535");
}

#[test]
fn port_text_has_no_padding() {
    assert_eq!(port_text(0), "0");
    assert_eq!(port_text(9), "9");
    assert_eq!(port_text(10), "10");
    assert_eq!(port_text(8000), "8000");
    assert_eq!(port_text(65535), "65535");
}

#[test]
fn parse_port_reads_digits_only() {
    assert_eq!(parse_port("8001"), Some(8001));
    assert_eq!(parse_port("0"), Some(0));
    assert_eq!(parse_port("0080"), Some(80));
    assert_eq!(parse_port("65535"), Some(65535));
    assert_eq!(parse_port("65536"), None);
    assert_eq!(parse_port("99999999999999999999"), None);
    assert_eq!(parse_port(""), None);
    assert_eq!(parse_port("+80"), None);
    assert_eq!(parse_port("80 "), None);
    assert_eq!(parse_port("8o"), None);
}

#[test]
fn parse_port_reads_back_every_port_text() {
    let mut port: u16 = 0;
    loop {
        assert_eq!(parse_port(&port_text(port)), Some(port));
        if port == u16::MAX {
            break;
        }
        port += 1;
    }
}

#[test]
fn config_defaults() {
    let config = Config::default();
    assert_eq!(config.http_port, 8000);
    assert_eq!(config.ws_port, 8001);
    assert_eq!(DEFAULT_HTTP_PORT, 8000);
    assert_eq!(DEFAULT_WS_PORT, 8001);
    assert_eq!(Config::new(None, None), config);
    assert_eq!(Config::new(Some(1), None), Config { http_port: 1, ws_port: 8001 });
    assert_eq!(Config::new(None, Some(2)), Config { http_port: 8000, ws_port: 2 });
}

#[test]
fn config_from_settings() {
    assert_eq!(Config::from_settings(None, None), Some(Config::default()));
    assert_eq!(
        Config::from_settings(Some("3000"), Some("3001")),
        Some(Config { http_port: 3000, ws_port: 3001 })
    );
    assert_eq!(Config::from_settings(Some("x"), None), None);
    assert_eq!(Config::from_settings(None, Some("70000")), None);
    assert_eq!(port_setting(None, 8001), Some(8001));
    assert_eq!(port_setting(Some("9"), 8001), Some(9));
    assert_eq!(port_setting(Some(""), 8001), None);
}
