//! What the process, web and SOAP functions offered to reconcile scripts
//! check before they act, and how a SOAP reply is read. Running processes
//! and sending requests stays with the caller.
use crate::env_map::StringMap;
use crate::rhai_facade_validation::{
    ensure_no_nul, ensure_not_blank, map_result, map_to_strings, normalize_timeout_ms,
    not_blank_result, strings_result, array_to_strings, entry_view, ScriptValue,
    FacadeError,
};
use crate::text::{ascii_lower, chars_of, concat3, ends_with, string_from_chars, str_ends_with, trim, trim_str, vec_ascii_lower, views};
use quick_xml::events::Event;
use vstd::prelude::*;

verus! {

/// The timeout used when a script gives none.
pub const DEFAULT_TIMEOUT_MS: u64 = 10000;

/// An HTTP status counts as success from 200 up to, not including, 400.
pub fn status_is_ok(status: i64) -> (r: bool)
    ensures
        r == (200 <= status < 400),
{
    200 <= status && status < 400
}

pub open spec fn entries_view(entries: Seq<(String, ScriptValue)>) -> Seq<(Seq<char>, ScriptValue)> {
    entries.map_values(|e: (String, ScriptValue)| entry_view(e))
}

pub open spec fn timeout_error(timeout_ms: i64) -> Option<Seq<char>> {
    if timeout_ms < 0 {
        Some("timeout_ms cannot be negative"@)
    } else {
        None
    }
}

/// The first error of a list of checks, in order.
pub open spec fn first_error(checks: Seq<Option<Seq<char>>>) -> Option<Seq<char>>
    decreases checks.len(),
{
    if checks.len() == 0 {
        None
    } else if checks[0] is Some {
        checks[0]
    } else {
        first_error(checks.drop_first())
    }
}

pub open spec fn err_of<T>(r: Result<T, Seq<char>>) -> Option<Seq<char>> {
    match r {
        Ok(_) => None,
        Err(e) => Some(e),
    }
}

pub open spec fn web_request_error(
    method: Seq<char>,
    url: Seq<char>,
    headers: Seq<(Seq<char>, ScriptValue)>,
    timeout_ms: i64,
) -> Option<Seq<char>> {
    first_error(
        seq![
            err_of(not_blank_result("method"@, method)),
            err_of(not_blank_result("url"@, url)),
            err_of(map_result("headers"@, headers)),
            timeout_error(timeout_ms),
        ],
    )
}

pub open spec fn process_request_error(
    executable: Seq<char>,
    args: Seq<ScriptValue>,
    env: Seq<(Seq<char>, ScriptValue)>,
    cwd: Seq<char>,
    timeout_ms: i64,
) -> Option<Seq<char>> {
    first_error(
        seq![
            err_of(not_blank_result("exec"@, executable)),
            err_of(strings_result("args"@, args)),
            err_of(map_result("env"@, env)),
            if cwd.contains('\0') {
                Some(crate::rhai_facade_validation::nul_message("cwd"@))
            } else {
                None
            },
            timeout_error(timeout_ms),
        ],
    )
}

pub open spec fn soap_request_error(url: Seq<char>, action: Seq<char>, body_xml: Seq<char>, timeout_ms: i64) -> Option<
    Seq<char>,
> {
    first_error(
        seq![
            err_of(not_blank_result("url"@, url)),
            if action.contains('\0') {
                Some(crate::rhai_facade_validation::nul_message("action"@))
            } else {
                None
            },
            if body_xml.contains('\0') {
                Some(crate::rhai_facade_validation::nul_message("body_xml"@))
            } else {
                None
            },
            timeout_error(timeout_ms),
        ],
    )
}

/// A path can be run without asking when it is a regular file with an
/// execute bit (owner, group or other) set.
pub fn runnable_without_confirmation(is_file: bool, mode: u32) -> (r: bool)
    ensures
        r == (is_file && (mode & 0o111u32) != 0),
{
    is_file && (mode & 0o111u32) != 0
}

/// A checked web request.
#[derive(Debug, Clone, PartialEq, Eq)]
pub struct WebRequest {
    pub method: String,
    pub url: String,
    pub headers: StringMap,
    pub timeout_ms: u64,
}

/// Checks a web request: method and url not blank (trimmed), headers all
/// strings, timeout not negative (zero means the default).
pub fn web_request(
    method: &str,
    url: &str,
    headers: &Vec<(String, ScriptValue)>,
    timeout_ms: i64,
) -> (r: Result<WebRequest, FacadeError>)
    ensures
        r is Ok <==> web_request_error(method@, url@, entries_view(headers@), timeout_ms) is None,
        r matches Err(e) ==> web_request_error(method@, url@, entries_view(headers@), timeout_ms) == Some(
            e.message@,
        ),
        r matches Ok(req) ==> {
            &&& Ok::<Seq<char>, Seq<char>>(req.method@) == not_blank_result("method"@, method@)
            &&& Ok::<Seq<char>, Seq<char>>(req.url@) == not_blank_result("url"@, url@)
            &&& Ok::<Map<Seq<char>, Seq<char>>, Seq<char>>(req.headers@) == map_result(
                "headers"@,
                entries_view(headers@),
            )
            &&& req.timeout_ms == if timeout_ms == 0 {
                DEFAULT_TIMEOUT_MS as int
            } else {
                timeout_ms as int
            }
        },
{
    proof {
        reveal_with_fuel(first_error, 6);
    }
    let method = ensure_not_blank("method", method)?;
    let url = ensure_not_blank("url", url)?;
    let headers = map_to_strings("headers", headers)?;
    let timeout = normalize_timeout_ms(timeout_ms)?;
    let timeout_ms = match timeout {
        Some(t) => t,
        None => DEFAULT_TIMEOUT_MS,
    };
    Ok(WebRequest { method, url, headers, timeout_ms })
}

/// A checked process request.
#[derive(Debug, Clone, PartialEq, Eq)]
pub struct ProcessRequest {
    pub executable: String,
    pub args: Vec<String>,
    pub env: StringMap,
    /// The working directory, when the script gave a non-blank one (trimmed).
    pub cwd: Option<String>,
    /// `None`: wait without limit.
    pub timeout_ms: Option<u64>,
}

/// Checks a process request: the command not blank (trimmed), arguments
/// and environment all strings without NUL, the directory without NUL,
/// the timeout not negative.
pub fn process_request(
    executable: &str,
    args: &Vec<ScriptValue>,
    env: &Vec<(String, ScriptValue)>,
    cwd: &str,
    timeout_ms: i64,
) -> (r: Result<ProcessRequest, FacadeError>)
    ensures
        r is Ok <==> process_request_error(executable@, args@, entries_view(env@), cwd@, timeout_ms) is None,
        r matches Err(e) ==> process_request_error(executable@, args@, entries_view(env@), cwd@, timeout_ms)
            == Some(e.message@),
        r matches Ok(req) ==> {
            &&& Ok::<Seq<char>, Seq<char>>(req.executable@) == not_blank_result("exec"@, executable@)
            &&& Ok::<Seq<Seq<char>>, Seq<char>>(views(req.args@)) == strings_result("args"@, args@)
            &&& Ok::<Map<Seq<char>, Seq<char>>, Seq<char>>(req.env@) == map_result(
                "env"@,
                entries_view(env@),
            )
            &&& crate::journal_validation::opt_string_view(req.cwd) == if trim(cwd@).len() == 0 {
                None
            } else {
                Some(trim(cwd@))
            }
            &&& req.timeout_ms == if timeout_ms == 0 {
                None
            } else {
                Some(timeout_ms as u64)
            }
        },
{
    proof {
        reveal_with_fuel(first_error, 6);
    }
    let executable = ensure_not_blank("exec", executable)?;
    let args = array_to_strings("args", args)?;
    let env = map_to_strings("env", env)?;
    ensure_no_nul("cwd", cwd)?;
    let timeout_ms = normalize_timeout_ms(timeout_ms)?;
    let cwd = crate::env_util::path_override_value(Some(cwd));
    Ok(ProcessRequest { executable, args, env, cwd, timeout_ms })
}

/// A checked SOAP call.
#[derive(Debug, Clone, PartialEq, Eq)]
pub struct SoapRequest {
    pub url: String,
    pub action: String,
    pub body_xml: String,
    pub timeout_ms: u64,
}

pub fn soap_request(url: &str, action: &str, body_xml: &str, timeout_ms: i64) -> (r: Result<
    SoapRequest,
    FacadeError,
>)
    ensures
        r is Ok <==> soap_request_error(url@, action@, body_xml@, timeout_ms) is None,
        r matches Err(e) ==> soap_request_error(url@, action@, body_xml@, timeout_ms) == Some(e.message@),
        r matches Ok(req) ==> {
            &&& Ok::<Seq<char>, Seq<char>>(req.url@) == not_blank_result("url"@, url@)
            &&& req.action@ == action@
            &&& req.body_xml@ == body_xml@
            &&& req.timeout_ms == if timeout_ms == 0 {
                DEFAULT_TIMEOUT_MS as int
            } else {
                timeout_ms as int
            }
        },
{
    proof {
        reveal_with_fuel(first_error, 6);
    }
    let url = ensure_not_blank("url", url)?;
    ensure_no_nul("action", action)?;
    ensure_no_nul("body_xml", body_xml)?;
    let timeout = normalize_timeout_ms(timeout_ms)?;
    let timeout_ms = match timeout {
        Some(t) => t,
        None => DEFAULT_TIMEOUT_MS,
    };
    Ok(SoapRequest {
        url,
        action: crate::text::to_owned(action),
        body_xml: crate::text::to_owned(body_xml),
        timeout_ms,
    })
}

pub open spec fn envelope_head() -> Seq<char> {
    "<?xml version=\"1.0\" encoding=\"utf-8\"?>\n<soap:Envelope xmlns:soap=\"http://schemas.xmlsoap.org/soap/envelope/\">\n  <soap:Body>\n    "@
}

pub open spec fn envelope_tail() -> Seq<char> {
    "\n  </soap:Body>\n</soap:Envelope>"@
}

/// A SOAP 1.1 envelope around a body.
pub fn soap_envelope(body_xml: &str) -> (r: Result<String, FacadeError>)
    ensures
        r is Ok <==> !body_xml@.contains('\0'),
        r matches Ok(s) ==> s@ == envelope_head() + body_xml@ + envelope_tail(),
        r matches Err(e) ==> e.message@ == crate::rhai_facade_validation::nul_message("body_xml"@),
{
    ensure_no_nul("body_xml", body_xml)?;
    Ok(concat3(
        "<?xml version=\"1.0\" encoding=\"utf-8\"?>\n<soap:Envelope xmlns:soap=\"http://schemas.xmlsoap.org/soap/envelope/\">\n  <soap:Body>\n    ",
        body_xml,
        "\n  </soap:Body>\n</soap:Envelope>",
    ))
}

/// An XML reader event, as far as fault detection looks at it.
#[derive(Debug, Clone, PartialEq, Eq)]
pub enum XmlEvent {
    /// An opening tag and its name.
    Start(String),
    /// A closing tag and its name.
    End(String),
    /// Character data.
    Text(String),
    /// Anything else (declarations, comments, empty elements, references).
    Other,
    /// End of the document.
    Eof,
    /// The document is not well formed here.
    Error,
}

/// The event stream `quick_xml` reads from a text, with whitespace around
/// character data trimmed, ending with the first `Eof` or `Error`.
pub uninterp spec fn xml_events_of(xml: Seq<char>) -> Seq<XmlEvent>;

/// Reads the events of an XML text with `quick_xml::Reader` (text trimmed),
/// up to and including the end or the first error.
#[verifier::external_body]
fn xml_events(xml: &str) -> (r: Vec<XmlEvent>)
    ensures
        r@ == xml_events_of(xml@),
{
    let mut reader = quick_xml::Reader::from_str(xml);
    reader.config_mut().trim_text(true);
    let mut out = Vec::new();
    loop {
        out.push(match reader.read_event() {
            Ok(Event::Start(s)) => XmlEvent::Start(String::from(s.name().0)),
            Ok(Event::End(e)) => XmlEvent::End(String::from(e.name().0)),
            Ok(Event::Text(t)) => XmlEvent::Text(String::from(t.as_ref())),
            Ok(Event::Eof) => XmlEvent::Eof,
            Err(_) => XmlEvent::Error,
            Ok(_) => XmlEvent::Other,
        });
        if matches!(out.last(), Some(XmlEvent::Eof | XmlEvent::Error)) { return out; }
    }
}

/// The fault text of a reply: inside an element whose name ends in
/// `fault`, the first non-blank text (trimmed) of an element whose name
/// ends in `faultstring`, `reason` or `text` (names in any ASCII case).
pub open spec fn fault_scan(events: Seq<XmlEvent>, in_fault: bool, tag: Seq<char>) -> Option<Seq<char>>
    decreases events.len(),
{
    if events.len() == 0 {
        None
    } else {
        let rest = events.drop_first();
        match events[0] {
            XmlEvent::Start(n) => {
                let t = ascii_lower(n@);
                fault_scan(rest, in_fault || ends_with(t, "fault"@), t)
            },
            XmlEvent::End(n) => {
                let t = ascii_lower(n@);
                fault_scan(rest, in_fault && !ends_with(t, "fault"@), Seq::empty())
            },
            XmlEvent::Text(s) => {
                let x = trim(s@);
                if in_fault && x.len() > 0 && (ends_with(tag, "faultstring"@) || ends_with(tag, "reason"@)
                    || ends_with(tag, "text"@)) {
                    Some(x)
                } else {
                    fault_scan(rest, in_fault, tag)
                }
            },
            XmlEvent::Other => fault_scan(rest, in_fault, tag),
            XmlEvent::Eof => None,
            XmlEvent::Error => None,
        }
    }
}

/// A fault text is never blank and carries no surrounding whitespace.
pub proof fn lemma_fault_text_trimmed(events: Seq<XmlEvent>, in_fault: bool, tag: Seq<char>)
    ensures
        fault_scan(events, in_fault, tag) matches Some(x) ==> x.len() > 0 && trim(x) == x,
    decreases events.len(),
{
    if events.len() > 0 {
        let rest = events.drop_first();
        match events[0] {
            XmlEvent::Start(n) => {
                lemma_fault_text_trimmed(rest, in_fault || ends_with(ascii_lower(n@), "fault"@), ascii_lower(n@));
            },
            XmlEvent::End(n) => {
                lemma_fault_text_trimmed(rest, in_fault && !ends_with(ascii_lower(n@), "fault"@), Seq::empty());
            },
            XmlEvent::Text(s) => {
                crate::text::lemma_trim_idempotent(s@);
                lemma_fault_text_trimmed(rest, in_fault, tag);
            },
            XmlEvent::Other => {
                lemma_fault_text_trimmed(rest, in_fault, tag);
            },
            _ => {},
        }
    }
}

fn lower_string(s: &str) -> (r: String)
    ensures
        r@ == ascii_lower(s@),
{
    string_from_chars(&vec_ascii_lower(&chars_of(s)))
}

/// The fault text found in a sequence of reader events.
pub fn fault_text_from_events(events: &Vec<XmlEvent>) -> (r: Option<String>)
    ensures
        crate::journal_validation::opt_string_view(r) == fault_scan(events@, false, Seq::empty()),
{
    let mut in_fault = false;
    let mut tag = String::new();
    let mut i: usize = 0;
    assert(events@.subrange(0, events@.len() as int) =~= events@);
    while i < events.len()
        invariant
            0 <= i <= events.len(),
            fault_scan(events@, false, Seq::empty()) == fault_scan(
                events@.subrange(i as int, events@.len() as int),
                in_fault,
                tag@,
            ),
        decreases events.len() - i,
    {
        let ghost rest = events@.subrange(i as int, events@.len() as int);
        assert(rest[0] == events@[i as int]);
        assert(rest.drop_first() =~= events@.subrange(i + 1, events@.len() as int));
        match &events[i] {
            XmlEvent::Start(n) => {
                tag = lower_string(n.as_str());
                if str_ends_with(tag.as_str(), "fault") {
                    in_fault = true;
                }
            },
            XmlEvent::End(n) => {
                let t = lower_string(n.as_str());
                if str_ends_with(t.as_str(), "fault") {
                    in_fault = false;
                }
                tag = String::new();
            },
            XmlEvent::Text(s) => {
                if in_fault {
                    let x = trim_str(s.as_str());
                    let nonblank = !crate::text::str_is_blank(s.as_str());
                    if nonblank && (str_ends_with(tag.as_str(), "faultstring") || str_ends_with(
                        tag.as_str(),
                        "reason",
                    ) || str_ends_with(tag.as_str(), "text")) {
                        return Some(x);
                    }
                }
            },
            XmlEvent::Other => {},
            XmlEvent::Eof => {
                return None;
            },
            XmlEvent::Error => {
                return None;
            },
        }
        i = i + 1;
    }
    assert(events@.subrange(i as int, events@.len() as int).len() == 0);
    None
}

/// The fault text of a SOAP reply body, if it carries one.
pub fn extract_fault_text(xml: &str) -> (r: Option<String>)
    ensures
        crate::journal_validation::opt_string_view(r) == fault_scan(xml_events_of(xml@), false, Seq::empty()),
{
    let events = xml_events(xml);
    fault_text_from_events(&events)
}

/// What a SOAP call answers a script when the server replied.
#[derive(Debug, Clone, PartialEq, Eq)]
pub struct SoapReply {
    pub ok: bool,
    pub status: i64,
    pub body: String,
    pub fault: bool,
    pub fault_text: String,
}

pub fn soap_reply(status: i64, body: String) -> (r: SoapReply)
    ensures
        r.ok == (200 <= status < 400),
        r.status == status,
        r.body@ == body@,
        r.fault == fault_scan(xml_events_of(body@), false, Seq::empty()) is Some,
        r.fault_text@ == match fault_scan(xml_events_of(body@), false, Seq::empty()) {
            Some(t) => t,
            None => Seq::empty(),
        },
{
    let fault_text = extract_fault_text(body.as_str());
    let fault = fault_text.is_some();
    let text = match fault_text {
        Some(t) => t,
        None => String::new(),
    };
    SoapReply { ok: status_is_ok(status), status, body, fault, fault_text: text }
}

} // verus!
