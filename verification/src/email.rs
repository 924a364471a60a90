//! Email delivery: which provider sends a message, and what an SMTP
//! delivery is made of.
//!
//! The connection itself is made by `lettre` around this library.
use vstd::prelude::*;
use crate::error::FolioError;
use crate::types::{EmailConfig, FolioConfig};
use crate::text::{opt_view, same_text};
use crate::types::copy_strings;
use crate::encode::{base64, json_string, push_base64, push_json_string};
use crate::text::{digits, string_of, u32_text};
use crate::paths::views;

verus! {

/// A message to send.
#[derive(Clone, Debug)]
pub struct EmailMessage {
    pub to: String,
    pub cc: Vec<String>,
    pub bcc: Vec<String>,
    pub subject: String,
    pub body: String,
    pub attachment_path: Option<String>,
    pub attachment_name: Option<String>,
}

/// The configured email provider.
#[derive(Clone, Copy, Debug, PartialEq, Eq, Structural)]
pub enum EmailProvider {
    Smtp,
    Sendgrid,
    Resend,
}

/// The provider named in `[email].provider` (`smtp` when unset).
pub open spec fn provider_name(cfg: EmailConfig) -> Seq<char> {
    match cfg.provider {
        Some(p) => p@,
        None => "smtp"@,
    }
}

/// Which provider sends mail: an error when `[email]` is missing or names
/// an unknown provider.
pub fn email_provider(config: &FolioConfig) -> (r: Result<EmailProvider, FolioError>)
    ensures
        match config.email {
            None => r matches Err(FolioError::Other(m)) && m@ == "Email not configured in folio.toml"@,
            Some(cfg) => {
                let p = provider_name(cfg);
                if p == "smtp"@ {
                    r == Ok::<EmailProvider, FolioError>(EmailProvider::Smtp)
                } else if p == "sendgrid"@ {
                    r == Ok::<EmailProvider, FolioError>(EmailProvider::Sendgrid)
                } else if p == "resend"@ {
                    r == Ok::<EmailProvider, FolioError>(EmailProvider::Resend)
                } else {
                    r matches Err(FolioError::Other(m)) && m@ == "Unknown email provider: "@ + p
                }
            },
        },
{
    let cfg = match &config.email {
        Some(c) => c,
        None => return Err(FolioError::Other(String::from_str("Email not configured in folio.toml"))),
    };
    let name = match &cfg.provider {
        Some(p) => p.clone(),
        None => String::from_str("smtp"),
    };
    if same_text(name.as_str(), "smtp") {
        Ok(EmailProvider::Smtp)
    } else if same_text(name.as_str(), "sendgrid") {
        Ok(EmailProvider::Sendgrid)
    } else if same_text(name.as_str(), "resend") {
        Ok(EmailProvider::Resend)
    } else {
        let mut m = String::from_str("Unknown email provider: ");
        m.append(name.as_str());
        Err(FolioError::Other(m))
    }
}

/// The sender's address: `[email].from`, else `[me].email`.
pub open spec fn sender_address(email_cfg: EmailConfig, config: FolioConfig) -> Seq<char> {
    match email_cfg.from {
        Some(a) => a@,
        None => config.me.email@,
    }
}

/// The sender's name: `[email].from_name`, else `[me].name`.
pub open spec fn sender_name(email_cfg: EmailConfig, config: FolioConfig) -> Seq<char> {
    match email_cfg.from_name {
        Some(n) => n@,
        None => config.me.name@,
    }
}

/// The file name an attachment is sent under (`invoice.pdf` unless given).
pub open spec fn attachment_file_name(msg: EmailMessage) -> Seq<char> {
    match msg.attachment_name {
        Some(n) => n@,
        None => "invoice.pdf"@,
    }
}

/// `{"email":A},{"email":B},...`: SendGrid address objects.
pub open spec fn sendgrid_addresses(items: Seq<Seq<char>>) -> Seq<char>
    decreases items.len(),
{
    if items.len() == 0 {
        Seq::empty()
    } else {
        sendgrid_addresses(items.drop_last())
            + (if items.len() > 1 { ","@ } else { Seq::empty() })
            + "{\"email\":"@ + json_string(items.last()) + "}"@
    }
}

/// `"A","B",...`: JSON strings separated by commas.
pub open spec fn json_strings(items: Seq<Seq<char>>) -> Seq<char>
    decreases items.len(),
{
    if items.len() == 0 {
        Seq::empty()
    } else {
        json_strings(items.drop_last())
            + (if items.len() > 1 { ","@ } else { Seq::empty() })
            + json_string(items.last())
    }
}

/// An HTTPS request to a mail provider's API: a POST of a JSON body with
/// a bearer token.
#[derive(Clone, Debug)]
pub struct ApiRequest {
    pub url: String,
    /// The `Authorization` header: `Bearer <key>`.
    pub authorization: String,
    /// The JSON body.
    pub body: String,
}

/// The JSON body of a SendGrid `mail/send` request. `attachment` is the
/// Base64 text of the file and the name it is sent under.
pub open spec fn sendgrid_body(
    from_addr: Seq<char>,
    from_name: Seq<char>,
    to: Seq<char>,
    cc: Seq<Seq<char>>,
    subject: Seq<char>,
    html: Seq<char>,
    attachment: Option<(Seq<char>, Seq<char>)>,
) -> Seq<char> {
    "{\"personalizations\":[{\"to\":[{\"email\":"@ + json_string(to) + "}]"@
        + (if cc.len() > 0 { ",\"cc\":["@ + sendgrid_addresses(cc) + "]"@ } else { Seq::empty() })
        + "}],\"from\":{\"email\":"@ + json_string(from_addr)
        + ",\"name\":"@ + json_string(from_name)
        + "},\"subject\":"@ + json_string(subject)
        + ",\"content\":[{\"type\":\"text/html\",\"value\":"@ + json_string(html) + "}]"@
        + match attachment {
            None => Seq::empty(),
            Some((content, file)) => ",\"attachments\":[{\"content\":\""@ + content
                + "\",\"type\":\"application/pdf\",\"filename\":"@ + json_string(file)
                + ",\"disposition\":\"attachment\"}]"@,
        }
        + "}"@
}

/// The JSON body of a Resend `emails` request. `attachment` is the Base64
/// text of the file and the name it is sent under.
pub open spec fn resend_body(
    from: Seq<char>,
    to: Seq<char>,
    cc: Seq<Seq<char>>,
    subject: Seq<char>,
    html: Seq<char>,
    attachment: Option<(Seq<char>, Seq<char>)>,
) -> Seq<char> {
    "{\"from\":"@ + json_string(from) + ",\"to\":["@ + json_string(to) + "]"@
        + (if cc.len() > 0 { ",\"cc\":["@ + json_strings(cc) + "]"@ } else { Seq::empty() })
        + ",\"subject\":"@ + json_string(subject)
        + ",\"html\":"@ + json_string(html)
        + match attachment {
            None => Seq::empty(),
            Some((content, file)) => ",\"attachments\":[{\"filename\":"@ + json_string(file)
                + ",\"content\":\""@ + content + "\"}]"@,
        }
        + "}"@
}

/// The attachment as the bodies above take it: Base64 text and file name.
pub open spec fn encoded_attachment(msg: EmailMessage, bytes: Option<Vec<u8>>) -> Option<(Seq<char>, Seq<char>)> {
    match bytes {
        None => None,
        Some(b) => Some((base64(b@), attachment_file_name(msg))),
    }
}

fn push_sendgrid_addresses(out: &mut String, items: &Vec<String>)
    ensures
        final(out)@ == old(out)@ + sendgrid_addresses(views(items@)),
{
    let ghost start = out@;
    let mut i: usize = 0;
    assert(views(items@).take(0) =~= Seq::<Seq<char>>::empty());
    while i < items.len()
        invariant
            i <= items.len(),
            out@ == start + sendgrid_addresses(views(items@).take(i as int)),
        decreases items.len() - i,
    {
        let ghost before = out@;
        let ghost t = views(items@).take(i + 1);
        assert(t.drop_last() =~= views(items@).take(i as int));
        assert(t.last() == items@[i as int]@);
        if i > 0 {
            out.append(",");
        }
        out.append("{\"email\":");
        push_json_string(out, items[i].as_str());
        out.append("}");
        if i > 0 {
            assert(out@ =~= before + ","@ + "{\"email\":"@ + json_string(t.last()) + "}"@);
        } else {
            assert(out@ =~= before + Seq::<char>::empty() + "{\"email\":"@ + json_string(t.last()) + "}"@);
        }
        i = i + 1;
    }
    assert(views(items@).take(items.len() as int) =~= views(items@));
}

fn push_json_strings(out: &mut String, items: &Vec<String>)
    ensures
        final(out)@ == old(out)@ + json_strings(views(items@)),
{
    let ghost start = out@;
    let mut i: usize = 0;
    assert(views(items@).take(0) =~= Seq::<Seq<char>>::empty());
    while i < items.len()
        invariant
            i <= items.len(),
            out@ == start + json_strings(views(items@).take(i as int)),
        decreases items.len() - i,
    {
        let ghost before = out@;
        let ghost t = views(items@).take(i + 1);
        assert(t.drop_last() =~= views(items@).take(i as int));
        assert(t.last() == items@[i as int]@);
        if i > 0 {
            out.append(",");
        }
        push_json_string(out, items[i].as_str());
        if i > 0 {
            assert(out@ =~= before + ","@ + json_string(t.last()));
        } else {
            assert(out@ =~= before + Seq::<char>::empty() + json_string(t.last()));
        }
        i = i + 1;
    }
    assert(views(items@).take(items.len() as int) =~= views(items@));
}

fn bearer(key: &String) -> (r: String)
    ensures
        r@ == "Bearer "@ + key@,
{
    let mut r = String::from_str("Bearer ");
    r.append(key.as_str());
    r
}

/// The SendGrid request for a message: `None` for the key gives
/// `FOLIO_SENDGRID_API_KEY not set`. The sender is as for SMTP; cc is
/// left out when empty; the file in `attachment` is attached as PDF.
pub fn sendgrid_request(
    email_cfg: &EmailConfig,
    config: &FolioConfig,
    msg: &EmailMessage,
    api_key: &Option<String>,
    attachment: &Option<Vec<u8>>,
) -> (r: Result<ApiRequest, FolioError>)
    ensures
        match api_key {
            None => r matches Err(FolioError::Other(m)) && m@ == "FOLIO_SENDGRID_API_KEY not set"@,
            Some(key) => r matches Ok(q) && {
                &&& q.url@ == "https://api.sendgrid.com/v3/mail/send"@
                &&& q.authorization@ == "Bearer "@ + key@
                &&& q.body@ == sendgrid_body(
                    sender_address(*email_cfg, *config),
                    sender_name(*email_cfg, *config),
                    msg.to@,
                    views(msg.cc@),
                    msg.subject@,
                    msg.body@,
                    encoded_attachment(*msg, *attachment),
                )
            },
        },
{
    let key = match api_key {
        Some(k) => k,
        None => return Err(FolioError::Other(String::from_str("FOLIO_SENDGRID_API_KEY not set"))),
    };
    let addr = match &email_cfg.from {
        Some(a) => a.clone(),
        None => config.me.email.clone(),
    };
    let name = match &email_cfg.from_name {
        Some(n) => n.clone(),
        None => config.me.name.clone(),
    };
    let mut b = String::new();
    let ghost s0 = b@;
    b.append("{\"personalizations\":[{\"to\":[{\"email\":");
    push_json_string(&mut b, msg.to.as_str());
    b.append("}]");
    let ghost s1 = b@;
    if msg.cc.len() > 0 {
        b.append(",\"cc\":[");
        push_sendgrid_addresses(&mut b, &msg.cc);
        b.append("]");
    }
    let ghost cc_part: Seq<char> = if msg.cc.len() > 0 {
        ",\"cc\":["@ + sendgrid_addresses(views(msg.cc@)) + "]"@
    } else {
        Seq::empty()
    };
    assert(b@ =~= s1 + cc_part);
    let ghost s2 = b@;
    b.append("}],\"from\":{\"email\":");
    push_json_string(&mut b, addr.as_str());
    b.append(",\"name\":");
    push_json_string(&mut b, name.as_str());
    b.append("},\"subject\":");
    push_json_string(&mut b, msg.subject.as_str());
    b.append(",\"content\":[{\"type\":\"text/html\",\"value\":");
    push_json_string(&mut b, msg.body.as_str());
    b.append("}]");
    let ghost s3 = b@;
    let file = match &msg.attachment_name {
        Some(n) => n.clone(),
        None => String::from_str("invoice.pdf"),
    };
    match attachment {
        None => {},
        Some(bytes) => {
            b.append(",\"attachments\":[{\"content\":\"");
            push_base64(&mut b, bytes);
            b.append("\",\"type\":\"application/pdf\",\"filename\":");
            push_json_string(&mut b, file.as_str());
            b.append(",\"disposition\":\"attachment\"}]");
        },
    }
    let ghost att_part: Seq<char> = match encoded_attachment(*msg, *attachment) {
        None => Seq::empty(),
        Some((content, f)) => ",\"attachments\":[{\"content\":\""@ + content
            + "\",\"type\":\"application/pdf\",\"filename\":"@ + json_string(f)
            + ",\"disposition\":\"attachment\"}]"@,
    };
    assert(b@ =~= s3 + att_part);
    b.append("}");
    assert(b@ =~= sendgrid_body(
        addr@, name@, msg.to@, views(msg.cc@), msg.subject@, msg.body@,
        encoded_attachment(*msg, *attachment),
    ));
    Ok(ApiRequest {
        url: String::from_str("https://api.sendgrid.com/v3/mail/send"),
        authorization: bearer(key),
        body: b,
    })
}

/// The Resend request for a message: `None` for the key gives
/// `FOLIO_RESEND_API_KEY not set`. The sender is `Name <address>` as for
/// SMTP; cc is left out when empty; the file in `attachment` is attached.
pub fn resend_request(
    email_cfg: &EmailConfig,
    config: &FolioConfig,
    msg: &EmailMessage,
    api_key: &Option<String>,
    attachment: &Option<Vec<u8>>,
) -> (r: Result<ApiRequest, FolioError>)
    ensures
        match api_key {
            None => r matches Err(FolioError::Other(m)) && m@ == "FOLIO_RESEND_API_KEY not set"@,
            Some(key) => r matches Ok(q) && {
                &&& q.url@ == "https://api.resend.com/emails"@
                &&& q.authorization@ == "Bearer "@ + key@
                &&& q.body@ == resend_body(
                    sender_name(*email_cfg, *config) + " <"@ + sender_address(*email_cfg, *config) + ">"@,
                    msg.to@,
                    views(msg.cc@),
                    msg.subject@,
                    msg.body@,
                    encoded_attachment(*msg, *attachment),
                )
            },
        },
{
    let key = match api_key {
        Some(k) => k,
        None => return Err(FolioError::Other(String::from_str("FOLIO_RESEND_API_KEY not set"))),
    };
    let addr = match &email_cfg.from {
        Some(a) => a.clone(),
        None => config.me.email.clone(),
    };
    let mut from = match &email_cfg.from_name {
        Some(n) => n.clone(),
        None => config.me.name.clone(),
    };
    from.append(" <");
    from.append(addr.as_str());
    from.append(">");
    let mut b = String::new();
    b.append("{\"from\":");
    push_json_string(&mut b, from.as_str());
    b.append(",\"to\":[");
    push_json_string(&mut b, msg.to.as_str());
    b.append("]");
    let ghost s1 = b@;
    if msg.cc.len() > 0 {
        b.append(",\"cc\":[");
        push_json_strings(&mut b, &msg.cc);
        b.append("]");
    }
    let ghost cc_part: Seq<char> = if msg.cc.len() > 0 {
        ",\"cc\":["@ + json_strings(views(msg.cc@)) + "]"@
    } else {
        Seq::empty()
    };
    assert(b@ =~= s1 + cc_part);
    b.append(",\"subject\":");
    push_json_string(&mut b, msg.subject.as_str());
    b.append(",\"html\":");
    push_json_string(&mut b, msg.body.as_str());
    let ghost s3 = b@;
    let file = match &msg.attachment_name {
        Some(n) => n.clone(),
        None => String::from_str("invoice.pdf"),
    };
    match attachment {
        None => {},
        Some(bytes) => {
            b.append(",\"attachments\":[{\"filename\":");
            push_json_string(&mut b, file.as_str());
            b.append(",\"content\":\"");
            push_base64(&mut b, bytes);
            b.append("\"}]");
        },
    }
    let ghost att_part: Seq<char> = match encoded_attachment(*msg, *attachment) {
        None => Seq::empty(),
        Some((content, f)) => ",\"attachments\":[{\"filename\":"@ + json_string(f)
            + ",\"content\":\""@ + content + "\"}]"@,
    };
    assert(b@ =~= s3 + att_part);
    b.append("}");
    assert(b@ =~= resend_body(
        from@, msg.to@, views(msg.cc@), msg.subject@, msg.body@,
        encoded_attachment(*msg, *attachment),
    ));
    Ok(ApiRequest {
        url: String::from_str("https://api.resend.com/emails"),
        authorization: bearer(key),
        body: b,
    })
}

/// What a provider's answer means: success for a 2xx status, else the
/// error `<service> returned HTTP <status>: <response text>`.
pub fn api_outcome(service: &str, status: u16, response: &str) -> (r: Result<(), FolioError>)
    ensures
        200 <= status < 300 ==> r is Ok,
        !(200 <= status < 300) ==> (r matches Err(FolioError::Other(m))
            && m@ == service@ + " returned HTTP "@ + digits(status as nat) + ": "@ + response@),
{
    if 200 <= status && status < 300 {
        Ok(())
    } else {
        let mut m = String::from_str(service);
        m.append(" returned HTTP ");
        let d = u32_text(status as u32);
        let ds = string_of(&d);
        m.append(ds.as_str());
        m.append(": ");
        m.append(response);
        Err(FolioError::Other(m))
    }
}

/// Everything an SMTP delivery needs.
#[derive(Clone, Debug)]
pub struct SmtpDelivery {
    pub host: String,
    pub port: u16,
    pub username: String,
    pub use_tls: bool,
    /// The `From` header: `Name <address>`.
    pub from: String,
    pub to: String,
    pub cc: Vec<String>,
    pub subject: String,
    pub body: String,
    /// The file to attach and the name to give it.
    pub attachment: Option<(String, String)>,
}

/// The SMTP delivery of a message: the sender is `[email].from` /
/// `[email].from_name`, falling back to `[me]`; TLS is on unless turned
/// off; an attachment is named `invoice.pdf` unless a name is given.
pub fn smtp_delivery(email_cfg: &EmailConfig, config: &FolioConfig, msg: &EmailMessage) -> (r: Result<SmtpDelivery, FolioError>)
    ensures
        match email_cfg.smtp {
            None => r matches Err(FolioError::Other(m)) && m@ == "SMTP config missing"@,
            Some(smtp) => r matches Ok(d) && {
                let addr = match email_cfg.from { Some(a) => a@, None => config.me.email@ };
                let name = match email_cfg.from_name { Some(n) => n@, None => config.me.name@ };
                &&& d.host == smtp.host
                &&& d.port == smtp.port
                &&& d.username == smtp.username
                &&& d.use_tls == match smtp.tls { Some(t) => t, None => true }
                &&& d.from@ == name + " <"@ + addr + ">"@
                &&& d.to == msg.to
                &&& d.cc@ == msg.cc@
                &&& d.subject == msg.subject
                &&& d.body == msg.body
                &&& match msg.attachment_path {
                    None => d.attachment is None,
                    Some(p) => d.attachment matches Some((path, file)) && path == p
                        && file@ == match msg.attachment_name { Some(n) => n@, None => "invoice.pdf"@ },
                }
            },
        },
{
    let smtp = match &email_cfg.smtp {
        Some(s) => s,
        None => return Err(FolioError::Other(String::from_str("SMTP config missing"))),
    };
    let addr = match &email_cfg.from {
        Some(a) => a.clone(),
        None => config.me.email.clone(),
    };
    let name = match &email_cfg.from_name {
        Some(n) => n.clone(),
        None => config.me.name.clone(),
    };
    let mut from = name;
    from.append(" <");
    from.append(addr.as_str());
    from.append(">");
    let attachment = match &msg.attachment_path {
        None => None,
        Some(p) => {
            let file = match &msg.attachment_name {
                Some(n) => n.clone(),
                None => String::from_str("invoice.pdf"),
            };
            Some((p.clone(), file))
        },
    };
    Ok(SmtpDelivery {
        host: smtp.host.clone(),
        port: smtp.port,
        username: smtp.username.clone(),
        use_tls: match smtp.tls {
            Some(t) => t,
            None => true,
        },
        from,
        to: msg.to.clone(),
        cc: copy_strings(&msg.cc),
        subject: msg.subject.clone(),
        body: msg.body.clone(),
        attachment,
    })
}

} // verus!
