//! The script that a served HTML page carries, and the address it connects to.

use crate::decimal::{decimal_text, push_decimal};
use vstd::prelude::*;
use vstd::string::StringExecFns;
use vstd::utf8::encode_utf8;

verus! {

/// The host that the push channel listens on, with the colon before the port.
pub const PUSH_HOST: &'static str = "127.0.0.1:";

/// The message that tells a page to reload.
pub const RELOAD_MESSAGE: &'static str = "Reload";

/// The snippet up to the port number.
pub const SNIPPET_HEAD: &'static str = "<script>\nconst socket = new WebSocket(\"ws://127.0.0.1:";

/// The snippet after the port number.
pub const SNIPPET_TAIL: &'static str = "\");\n\nsocket.addEventListener('error', (event) => {\n  console.error(event);\n});\n\nsocket.addEventListener('open', (event) => {\n  console.debug(\"Liver: reloading enabled!\");\n});\n\nsocket.addEventListener('message', (event) => {\n  if (event.data === 'Reload') {\n    console.debug('Liver: reloading...');\n    location.reload();\n  }\n});\n</script>";

/// The address of the push channel: the local host and the port.
pub open spec fn ws_url_text(port: u16) -> Seq<char> {
    PUSH_HOST@ + decimal_text(port as nat)
}

/// The text of the reload snippet for a push channel on `port`.
pub open spec fn snippet_text(port: u16) -> Seq<char> {
    SNIPPET_HEAD@ + decimal_text(port as nat) + SNIPPET_TAIL@
}

/// The bytes of the reload snippet, as they are appended to a page.
pub open spec fn snippet_bytes(port: u16) -> Seq<u8> {
    encode_utf8(snippet_text(port))
}

/// The address that the push channel binds and that pages connect to.
pub fn ws_url(port: u16) -> (url: String)
    ensures
        url@ == ws_url_text(port),
{
    let mut url = String::from_str(PUSH_HOST);
    push_decimal(&mut url, port);
    url
}

/// The reload snippet as text.
pub fn reload_script(port: u16) -> (script: String)
    ensures
        script@ == snippet_text(port),
{
    let mut script = String::from_str(SNIPPET_HEAD);
    push_decimal(&mut script, port);
    script.append(SNIPPET_TAIL);
    script
}

/// The reload snippet as the bytes that follow an HTML document.
pub fn reload_snippet(port: u16) -> (bytes: Vec<u8>)
    ensures
        bytes@ == snippet_bytes(port),
{
    let script = reload_script(port);
    script.as_str().as_bytes_vec()
}

} // verus!
