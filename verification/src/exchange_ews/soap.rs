//! The SOAP envelope around EWS requests.

use vstd::prelude::*;
use crate::exchange_ews::types::{version_name, ServerVersion};
use crate::text::xml_escape;

verus! {

pub const NS_SOAP: &'static str = "http://schemas.xmlsoap.org/soap/envelope/";

pub const NS_TYPES: &'static str = "http://schemas.microsoft.com/exchange/services/2006/types";

pub const NS_MESSAGES: &'static str = "http://schemas.microsoft.com/exchange/services/2006/messages";

pub const SOAP_ACTION_BASE: &'static str = "http://schemas.microsoft.com/exchange/services/2006/messages";

#[derive(Debug, Clone, Copy)]
pub struct EnvelopeOptions<'a> {
    pub version: ServerVersion,
    pub impersonated_smtp: Option<&'a str>,
}

impl<'a> EnvelopeOptions<'a> {
    /// Exchange 2013 SP1, no impersonation.
    pub fn default() -> (r: EnvelopeOptions<'a>)
        ensures
            r.version == ServerVersion::Exchange2013Sp1,
            r.impersonated_smtp is None,
    {
        EnvelopeOptions { version: ServerVersion::Exchange2013Sp1, impersonated_smtp: None }
    }
}

/// The envelope header: the schema version and, when given, the mailbox to
/// impersonate.
pub open spec fn envelope_header(version: ServerVersion, smtp: Option<Seq<char>>) -> Seq<char> {
    "<t:RequestServerVersion Version=\""@ + version_name(version) + "\"/>"@ + match smtp {
        Some(a) => "<t:ExchangeImpersonation><t:ConnectingSID><t:PrimarySmtpAddress>"@ + xml_escape(a)
            + "</t:PrimarySmtpAddress></t:ConnectingSID></t:ExchangeImpersonation>"@,
        None => Seq::empty(),
    }
}

/// A complete SOAP request around `body`.
pub open spec fn envelope(version: ServerVersion, smtp: Option<Seq<char>>, body: Seq<char>) -> Seq<char> {
    "<?xml version=\"1.0\" encoding=\"utf-8\"?>"@ + "<soap:Envelope xmlns:soap=\""@ + NS_SOAP@
        + "\" xmlns:t=\""@ + NS_TYPES@ + "\" xmlns:m=\""@ + NS_MESSAGES@ + "\"><soap:Header>"@
        + envelope_header(version, smtp) + "</soap:Header><soap:Body>"@ + body
        + "</soap:Body></soap:Envelope>"@
}

pub open spec fn opt_str_view(o: Option<&str>) -> Option<Seq<char>> {
    match o {
        Some(s) => Some(s@),
        None => None,
    }
}

pub fn wrap_envelope(opts: EnvelopeOptions<'_>, body: &str) -> (r: String)
    ensures
        r@ == envelope(opts.version, opt_str_view(opts.impersonated_smtp), body@),
{
    let mut out = String::new();
    out.append("<?xml version=\"1.0\" encoding=\"utf-8\"?>");
    out.append("<soap:Envelope xmlns:soap=\"");
    out.append(NS_SOAP);
    out.append("\" xmlns:t=\"");
    out.append(NS_TYPES);
    out.append("\" xmlns:m=\"");
    out.append(NS_MESSAGES);
    out.append("\"><soap:Header>");
    out.append("<t:RequestServerVersion Version=\"");
    out.append(opts.version.as_str());
    out.append("\"/>");
    if let Some(smtp) = opts.impersonated_smtp {
        out.append("<t:ExchangeImpersonation><t:ConnectingSID><t:PrimarySmtpAddress>");
        write_escaped(&mut out, smtp);
        out.append("</t:PrimarySmtpAddress></t:ConnectingSID></t:ExchangeImpersonation>");
    }
    out.append("</soap:Header><soap:Body>");
    out.append(body);
    out.append("</soap:Body></soap:Envelope>");
    out
}

/// The quoted SOAPAction header value for an operation.
pub fn soap_action(operation: &str) -> (r: String)
    ensures
        r@ == "\""@ + SOAP_ACTION_BASE@ + "/"@ + operation@ + "\""@,
{
    let mut out = String::new();
    out.append("\"");
    out.append(SOAP_ACTION_BASE);
    out.append("/");
    out.append(operation);
    out.append("\"");
    out
}

/// Appends `s` escaped for XML.
pub fn write_escaped(out: &mut String, s: &str)
    ensures
        final(out)@ == old(out)@ + xml_escape(s@),
{
    crate::text::append_xml_escaped(out, s);
}

} // verus!
