//! Request-side helpers: cookie parsing, language resolution, the static
//! footer pages, and the plain data handed to the page templates.

use vstd::prelude::*;

use crate::i18n::{lang_from_code_spec, Language, LanguageOption};
use crate::models::{Mineral, MineralFormData};
use crate::strutil::{
    chars_eq, find_char, index_of, line_views, split_chars, split_on, str_eq, string_from_chars,
    subvec, trim_chars, trim_spec,
};
use crate::text::UiText;

verus! {

/// Scans cookie parts for `key`: each part is trimmed and split at its
/// first `=`; the first part whose name matches and whose value is
/// non-empty wins.
pub open spec fn cookie_scan(parts: Seq<Seq<char>>, key: Seq<char>) -> Option<Seq<char>>
    decreases parts.len(),
{
    if parts.len() == 0 {
        None
    } else {
        let t = trim_spec(parts[0]);
        let i = index_of(t, '=');
        if i < t.len() && t.subrange(0, i) == key && i + 1 < t.len() {
            Some(t.subrange(i + 1, t.len() as int))
        } else {
            cookie_scan(parts.drop_first(), key)
        }
    }
}

/// The value of the cookie named `key` in a `Cookie` header line.
pub open spec fn cookie_value_spec(header: Seq<char>, key: Seq<char>) -> Option<Seq<char>> {
    cookie_scan(split_on(header, ';'), key)
}

/// Reads one cookie out of a `Cookie` header line.
#[verifier::loop_isolation(false)]
pub fn cookie_value(header: &str, key: &str) -> (r: Option<String>)
    ensures
        match r {
            Some(v) => cookie_value_spec(header@, key@) == Some(v@),
            None => cookie_value_spec(header@, key@) is None,
        },
{
    let cs = crate::strutil::chars_of(header);
    let parts = split_chars(&cs, ';');
    let key_chars = crate::strutil::chars_of(key);
    let n = parts.len();
    let mut i: usize = 0;
    proof {
        assert(line_views(parts@).subrange(0, n as int) =~= line_views(parts@));
    }
    while i < n
        invariant
            i <= n,
            n == parts@.len(),
            line_views(parts@) == split_on(header@, ';'),
            key_chars@ == key@,
            cookie_scan(line_views(parts@).subrange(i as int, n as int), key@) == cookie_value_spec(
                header@,
                key@,
            ),
        decreases n - i,
    {
        let rest = Ghost(line_views(parts@).subrange(i as int, n as int));
        proof {
            assert(rest@[0] == line_views(parts@)[i as int]);
            assert(line_views(parts@)[i as int] == parts@[i as int]@);
            assert(rest@.drop_first() =~= line_views(parts@).subrange(i as int + 1, n as int));
        }
        let t = trim_chars(&parts[i]);
        let eq = find_char(&t, '=');
        proof {
            crate::strutil::lemma_index_of(t@, '=');
        }
        if eq < t.len() {
            let name = subvec(&t, 0, eq);
            if chars_eq(&name, &key_chars) && eq + 1 < t.len() {
                let value = subvec(&t, eq + 1, t.len());
                return Some(string_from_chars(&value));
            }
        }
        i += 1;
    }
    proof {
        assert(line_views(parts@).subrange(n as int, n as int) =~= Seq::<Seq<char>>::empty());
    }
    None
}

/// Picks the language a request sees: the language cookie when it names a
/// supported language, else the configured default.
pub fn resolve_language(lang_cookie: Option<&str>, default: Language) -> (r: Language)
    ensures
        match lang_cookie {
            Some(c) => r == (match lang_from_code_spec(c@) {
                Some(l) => l,
                None => default,
            }),
            None => r == default,
        },
{
    match lang_cookie {
        Some(c) => match Language::from_code(c) {
            Some(l) => l,
            None => default,
        },
        None => default,
    }
}

/// Title and body of each footer information page, by slug.
pub open spec fn footer_page_spec(slug: Seq<char>) -> (Seq<char>, Seq<char>) {
    if slug == "contact-us"@ {
        (
            "Contact Us"@,
            "For sales, partnerships, and operations queries, contact support@waajacu.com."@,
        )
    } else if slug == "support"@ {
        (
            "Support"@,
            "For platform issues, account access, and report troubleshooting, open a support request with your mineral record id."@,
        )
    } else if slug == "frequently-asked-questions"@ {
        (
            "Frequently Asked Questions"@,
            "This section answers common questions about publishing minerals, report generation, and account operations."@,
        )
    } else if slug == "legal"@ {
        (
            "Legal"@,
            "Legal notices, jurisdiction terms, platform liabilities, and content governance policies."@,
        )
    } else if slug == "shipping"@ {
        (
            "Shipping"@,
            "Shipping policy, logistics windows, and custody documentation requirements for listed mineral products."@,
        )
    } else if slug == "account"@ {
        (
            "Account"@,
            "Manage account identity, organization profile, login security, and notification settings."@,
        )
    } else if slug == "conflict-free-minerals"@ {
        (
            "Conflict Free Minerals"@,
            "Conflict-free sourcing statement and compliance position across mineral provenance workflows."@,
        )
    } else if slug == "privacy-policy"@ {
        (
            "Privacy Policy"@,
            "Data handling, retention, operational logs, and personal information usage policy."@,
        )
    } else if slug == "terms-of-service"@ {
        (
            "Terms of Service"@,
            "Terms governing access, use, and publication of mineral records on this platform."@,
        )
    } else if slug == "returns-and-refunds"@ {
        (
            "Returns and Refunds"@,
            "Return eligibility, refund conditions, and resolution paths for disputed transactions."@,
        )
    } else {
        (
            "Information"@,
            "This page is part of the WAAJACU information center for operational, legal, and customer support topics."@,
        )
    }
}

/// The static content of a footer information page.
pub fn footer_page_content(slug: &str) -> (r: (&'static str, &'static str))
    ensures
        r.0@ == footer_page_spec(slug@).0,
        r.1@ == footer_page_spec(slug@).1,
{
    if str_eq(slug, "contact-us") {
        (
            "Contact Us",
            "For sales, partnerships, and operations queries, contact support@waajacu.com.",
        )
    } else if str_eq(slug, "support") {
        (
            "Support",
            "For platform issues, account access, and report troubleshooting, open a support request with your mineral record id.",
        )
    } else if str_eq(slug, "frequently-asked-questions") {
        (
            "Frequently Asked Questions",
            "This section answers common questions about publishing minerals, report generation, and account operations.",
        )
    } else if str_eq(slug, "legal") {
        (
            "Legal",
            "Legal notices, jurisdiction terms, platform liabilities, and content governance policies.",
        )
    } else if str_eq(slug, "shipping") {
        (
            "Shipping",
            "Shipping policy, logistics windows, and custody documentation requirements for listed mineral products.",
        )
    } else if str_eq(slug, "account") {
        (
            "Account",
            "Manage account identity, organization profile, login security, and notification settings.",
        )
    } else if str_eq(slug, "conflict-free-minerals") {
        (
            "Conflict Free Minerals",
            "Conflict-free sourcing statement and compliance position across mineral provenance workflows.",
        )
    } else if str_eq(slug, "privacy-policy") {
        (
            "Privacy Policy",
            "Data handling, retention, operational logs, and personal information usage policy.",
        )
    } else if str_eq(slug, "terms-of-service") {
        (
            "Terms of Service",
            "Terms governing access, use, and publication of mineral records on this platform.",
        )
    } else if str_eq(slug, "returns-and-refunds") {
        (
            "Returns and Refunds",
            "Return eligibility, refund conditions, and resolution paths for disputed transactions.",
        )
    } else {
        (
            "Information",
            "This page is part of the WAAJACU information center for operational, legal, and customer support topics.",
        )
    }
}

/// Wraps a page's data for rendering.
pub struct TemplateResponse<T>(pub T);

/// Data of the language-selection page.
pub struct HomeTemplate {
    pub lang_code: String,
    pub lang_dir: String,
    pub txt: UiText,
    pub language_options: Vec<LanguageOption>,
    pub current_lang_code: &'static str,
}

/// Data of the catalog page.
pub struct IndexTemplate {
    pub lang_code: String,
    pub lang_dir: String,
    pub txt: UiText,
    pub minerals: Vec<Mineral>,
    pub has_admin_session: bool,
}

/// Data of the admin page.
pub struct AdminTemplate {
    pub lang_code: String,
    pub lang_dir: String,
    pub txt: UiText,
    pub has_admin_session: bool,
    pub error_message: Option<String>,
    pub success_message: Option<String>,
    pub draft_form: MineralFormData,
    pub has_suggestion: bool,
}

/// Data of the about page.
pub struct AboutTemplate {
    pub lang_code: String,
    pub lang_dir: String,
    pub txt: UiText,
    pub has_admin_session: bool,
}

/// Data of one footer information page.
pub struct InfoTemplate {
    pub lang_code: String,
    pub lang_dir: String,
    pub txt: UiText,
    pub has_admin_session: bool,
    pub page_title: String,
    pub page_body: String,
}

} // verus!
