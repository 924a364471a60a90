//! Invoice templates: the bundled ones, and where custom ones are found.
//!
//! Custom templates live at `templates/{name}/invoice.html` and take
//! priority over a bundled template of the same name.
use vstd::prelude::*;
use crate::error::FolioError;
use crate::paths::{join_path, join_spec};

verus! {

/// A template that can be chosen by name.
#[derive(Clone, Debug)]
pub struct TemplateInfo {
    pub name: String,
    pub description: String,
    pub is_bundled: bool,
    pub path: Option<String>,
}

/// The names of the bundled templates, in the order they are listed.
pub open spec fn bundled_names() -> Seq<Seq<char>> {
    seq!["basic"@, "classic"@, "modern"@, "floral"@, "slate"@, "signature"@]
}

/// The description of each bundled template.
pub open spec fn bundled_descriptions() -> Seq<Seq<char>> {
    seq![
        "Clean, minimal layout. Black and white, no decoration. (default)"@,
        "Traditional invoice style with a ruled header and footer."@,
        "Bold accent colour, sans-serif, left-aligned logo block."@,
        "Decorative botanical accents in the header and footer. Warm tones."@,
        "Dark header band, light body. Professional and high-contrast."@,
        "Editorial serif design. Cream paper, forest-green ink, EB Garamond italic accents."@,
    ]
}

fn bundled(name: &str, description: &str) -> (r: TemplateInfo)
    ensures
        r.name@ == name@,
        r.description@ == description@,
        r.is_bundled,
        r.path is None,
{
    TemplateInfo {
        name: String::from_str(name),
        description: String::from_str(description),
        is_bundled: true,
        path: None,
    }
}

/// The templates compiled into `folio`.
pub fn list_bundled() -> (r: Vec<TemplateInfo>)
    ensures
        r@.len() == 6,
        forall|i: int|
            0 <= i < 6 ==> {
                &&& (#[trigger] r@[i]).name@ == bundled_names()[i]
                &&& r@[i].description@ == bundled_descriptions()[i]
                &&& r@[i].is_bundled
                &&& r@[i].path is None
            },
{
    let mut r: Vec<TemplateInfo> = Vec::new();
    r.push(bundled("basic", "Clean, minimal layout. Black and white, no decoration. (default)"));
    r.push(bundled("classic", "Traditional invoice style with a ruled header and footer."));
    r.push(bundled("modern", "Bold accent colour, sans-serif, left-aligned logo block."));
    r.push(bundled("floral", "Decorative botanical accents in the header and footer. Warm tones."));
    r.push(bundled("slate", "Dark header band, light body. Professional and high-contrast."));
    r.push(bundled("signature", "Editorial serif design. Cream paper, forest-green ink, EB Garamond italic accents."));
    r
}

/// `<root>/templates/{name}/invoice.html`: where a custom template is read.
pub fn custom_template_path(root: &str, name: &str) -> (r: String)
    ensures
        r@ == join_spec(join_spec(join_spec(root@, "templates"@), name@), "invoice.html"@),
{
    let dir = join_path(root, "templates");
    let named = join_path(dir.as_str(), name);
    join_path(named.as_str(), "invoice.html")
}

/// `{name}/invoice.html`: the key of a bundled template.
pub fn bundled_template_key(name: &str) -> (r: String)
    ensures
        r@ == name@ + "/invoice.html"@,
{
    let mut key = String::from_str(name);
    key.append("/invoice.html");
    key
}

/// The HTML of a template: the custom one when it exists, else the bundled
/// one, else `TemplateNotFound`.
pub fn get_template_html(name: &str, custom: Option<String>, bundled: Option<String>) -> (r: Result<String, FolioError>)
    ensures
        match (custom, bundled) {
            (Some(c), _) => r == Ok::<String, FolioError>(c),
            (None, Some(b)) => r == Ok::<String, FolioError>(b),
            (None, None) => r matches Err(FolioError::TemplateNotFound { name: n }) && n@ == name@,
        },
{
    match custom {
        Some(c) => Ok(c),
        None => match bundled {
            Some(b) => Ok(b),
            None => Err(FolioError::TemplateNotFound { name: String::from_str(name) }),
        },
    }
}

} // verus!
