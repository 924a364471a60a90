//! `folio client`: new clients and how one is shown.
use vstd::prelude::*;
use crate::markdown::is_whitespace;
use crate::text::{chars_of, lowercase_of, lowercase_text, push_char, string_of};
use crate::types::Client;

verus! {

/// Arguments of `folio client`.
#[derive(Clone, Debug)]
pub struct ClientArgs {
    pub command: ClientCommand,
}

/// The subcommands of `folio client`.
#[derive(Clone, Debug)]
pub enum ClientCommand {
    /// Create a new client interactively.
    New(ClientNewArgs),
    /// List all clients.
    List(ClientListArgs),
    /// Show details for a single client.
    Show(ClientShowArgs),
}

/// Arguments of `folio client new`.
#[derive(Clone, Debug)]
pub struct ClientNewArgs {}

/// Arguments of `folio client list`.
#[derive(Clone, Debug)]
pub struct ClientListArgs {}

/// Arguments of `folio client show`.
#[derive(Clone, Debug)]
pub struct ClientShowArgs {
    /// Client slug (filename without `.toml`).
    pub slug: String,
}

/// The whitespace-separated words of `s` joined by `-`.
pub open spec fn dashed_words(s: Seq<char>) -> Seq<char>
    decreases s.len(),
{
    if s.len() == 0 {
        s
    } else {
        let prev = dashed_words(s.drop_last());
        let c = s.last();
        if is_whitespace(c) {
            prev
        } else if prev.len() > 0 && s.len() >= 2 && is_whitespace(s[s.len() - 2]) {
            prev + seq!['-', c]
        } else {
            prev.push(c)
        }
    }
}

/// The slug suggested for a client name: its words in lower case, joined by `-`.
pub open spec fn default_slug_spec(name: Seq<char>) -> Seq<char> {
    dashed_words(lowercase_text(name))
}

pub fn default_slug(name: &str) -> (r: String)
    ensures
        r@ == default_slug_spec(name@),
{
    let lower = lowercase_of(name);
    let c = chars_of(lower.as_str());
    let mut out: Vec<char> = Vec::new();
    let mut i: usize = 0;
    while i < c.len()
        invariant
            0 <= i <= c.len(),
            out@ == dashed_words(c@.take(i as int)),
        decreases c.len() - i,
    {
        let ch = c[i];
        let ghost t = c@.take(i + 1);
        assert(t.drop_last() =~= c@.take(i as int));
        if crate::markdown::exec_is_whitespace(ch) {
        } else if out.len() > 0 && i >= 1 && crate::markdown::exec_is_whitespace(c[i - 1]) {
            assert(t[t.len() - 2] == c@[i - 1]);
            out.push('-');
            out.push(ch);
            assert(out@ =~= dashed_words(c@.take(i as int)) + seq!['-', ch]);
        } else {
            proof {
                if i >= 1 {
                    assert(t[t.len() - 2] == c@[i - 1]);
                }
            }
            out.push(ch);
        }
        i = i + 1;
    }
    assert(c@.take(c@.len() as int) =~= c@);
    string_of(&out)
}

/// A new client from what was typed: an empty contact is left unset and
/// empty address lines are dropped.
pub fn new_client(name: String, slug: String, contact: String, email: String, line1: String, line2: String) -> (r: Client)
    ensures
        r.name == name,
        r.slug == slug,
        r.email == email,
        r.contact == (if contact@.len() == 0 { None } else { Some(contact) }),
        r.address@ == (if line1@.len() == 0 { Seq::<String>::empty() } else { seq![line1] })
            + (if line2@.len() == 0 { Seq::<String>::empty() } else { seq![line2] }),
        r.currency is None && r.due_days is None && r.template is None,
        r.email_opts is None && r.notes is None && r.defaults is None,
{
    let mut address: Vec<String> = Vec::new();
    let ghost l1 = line1;
    let ghost l2 = line2;
    if !line1.as_str().is_empty() {
        address.push(line1);
    }
    let ghost a1 = address@;
    assert(a1 =~= (if l1@.len() == 0 { Seq::<String>::empty() } else { seq![l1] }));
    if !line2.as_str().is_empty() {
        address.push(line2);
    }
    assert(address@ =~= a1 + (if l2@.len() == 0 { Seq::<String>::empty() } else { seq![l2] }));
    let contact = if contact.as_str().is_empty() { None } else { Some(contact) };
    Client {
        name,
        contact,
        email,
        address,
        currency: None,
        due_days: None,
        template: None,
        email_opts: None,
        notes: None,
        defaults: None,
        slug,
    }
}

/// The contact shown in the client list: `—` when there is none.
pub fn contact_display(client: &Client) -> (r: String)
    ensures
        r@ == match client.contact {
            Some(c) => c@,
            None => "—"@,
        },
{
    match &client.contact {
        Some(c) => c.clone(),
        None => String::from_str("—"),
    }
}

/// The first line of a text, as `str::lines` yields it: up to the first
/// `\n`, without a `\r` just before it; the whole text when there is no `\n`.
pub open spec fn first_line(s: Seq<char>) -> Seq<char> {
    if exists|i: int| 0 <= i < s.len() && s[i] == '\n' {
        let i = choose|i: int| 0 <= i < s.len() && s[i] == '\n' && forall|k: int| 0 <= k < i ==> s[k] != '\n';
        if i > 0 && s[i - 1] == '\r' {
            s.take(i - 1)
        } else {
            s.take(i)
        }
    } else {
        s
    }
}

/// The preview of a client's default notes: the first 60 characters of
/// their first line.
pub fn notes_preview(notes: &str) -> (r: String)
    ensures
        r@ == (if first_line(notes@).len() <= 60 { first_line(notes@) } else { first_line(notes@).take(60) }),
{
    let c = chars_of(notes);
    let mut i: usize = 0;
    while i < c.len() && c[i] != '\n'
        invariant
            0 <= i <= c.len(),
            forall|k: int| 0 <= k < i ==> c@[k] != '\n',
        decreases c.len() - i,
    {
        i = i + 1;
    }
    let end = if i < c.len() && i > 0 && c[i - 1] == '\r' { i - 1 } else { i };
    proof {
        if i < c.len() {
            let j = choose|j: int| 0 <= j < c@.len() && c@[j] == '\n' && forall|k: int| 0 <= k < j ==> c@[k] != '\n';
            assert(j == i) by {
                if j < i {
                    assert(c@[j] != '\n');
                }
                if j > i {
                    assert(c@[i as int] == '\n');
                }
            }
        } else {
            assert(c@.take(i as int) =~= c@);
        }
    }
    let take = if end <= 60 { end } else { 60 };
    let mut out: Vec<char> = Vec::new();
    let mut k: usize = 0;
    while k < take
        invariant
            0 <= k <= take,
            take <= end <= c.len(),
            out@ == c@.take(k as int),
        decreases take - k,
    {
        out.push(c[k]);
        k = k + 1;
        assert(out@ =~= c@.take(k as int));
    }
    assert(c@.take(end as int).take(take as int) =~= c@.take(take as int));
    string_of(&out)
}

} // verus!
