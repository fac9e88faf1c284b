//! Supported languages: codes, names, text direction, and parsing of a
//! requested language code.

use vstd::prelude::*;

use crate::strutil::{chars_of, chars_eq, index_of, lower_chars, lower_seq, subvec, trim_chars, trim_spec};

verus! {

/// The languages the catalog can serve; `En` is the base language.
#[derive(Debug, Clone, Copy, PartialEq, Eq, Hash, Structural)]
pub enum Language {
    En,
    Es,
    Cs,
    Zh,
    Ar,
    Fr,
    De,
    Pt,
    Hi,
    Ja,
}

/// The fixed presentation order of the supported languages.
pub open spec fn all_languages() -> Seq<Language> {
    seq![
        Language::En,
        Language::Es,
        Language::Cs,
        Language::De,
        Language::Fr,
        Language::Zh,
        Language::Ar,
        Language::Pt,
        Language::Hi,
        Language::Ja,
    ]
}

/// The two-letter code of each language.
pub open spec fn lang_code_spec(l: Language) -> Seq<char> {
    match l {
        Language::En => "en"@,
        Language::Es => "es"@,
        Language::Cs => "cs"@,
        Language::Zh => "zh"@,
        Language::Ar => "ar"@,
        Language::Fr => "fr"@,
        Language::De => "de"@,
        Language::Pt => "pt"@,
        Language::Hi => "hi"@,
        Language::Ja => "ja"@,
    }
}

/// English display name of each language.
pub open spec fn english_name_spec(l: Language) -> Seq<char> {
    match l {
        Language::En => "English"@,
        Language::Es => "Spanish"@,
        Language::Cs => "Czech"@,
        Language::Zh => "Chinese"@,
        Language::Ar => "Arabic"@,
        Language::Fr => "French"@,
        Language::De => "German"@,
        Language::Pt => "Portuguese"@,
        Language::Hi => "Hindi"@,
        Language::Ja => "Japanese"@,
    }
}

/// Native display name of each language.
pub open spec fn native_name_spec(l: Language) -> Seq<char> {
    match l {
        Language::En => "English"@,
        Language::Es => "Español"@,
        Language::Cs => "Čeština"@,
        Language::Zh => "中文"@,
        Language::Ar => "العربية"@,
        Language::Fr => "Français"@,
        Language::De => "Deutsch"@,
        Language::Pt => "Português"@,
        Language::Hi => "हिन्दी"@,
        Language::Ja => "日本語"@,
    }
}

/// A requested code, trimmed, ASCII-lowercased, and cut at the first `-`
/// so that a regional tag like `pt-BR` selects its primary language.
pub open spec fn normalize_code_spec(s: Seq<char>) -> Seq<char> {
    let lowered = lower_seq(trim_spec(s));
    lowered.subrange(0, index_of(lowered, '-'))
}

/// Which language a requested code selects, if any.
pub open spec fn lang_from_code_spec(s: Seq<char>) -> Option<Language> {
    let code = normalize_code_spec(s);
    if code == "en"@ {
        Some(Language::En)
    } else if code == "es"@ {
        Some(Language::Es)
    } else if code == "cs"@ {
        Some(Language::Cs)
    } else if code == "fr"@ {
        Some(Language::Fr)
    } else if code == "de"@ {
        Some(Language::De)
    } else if code == "zh"@ {
        Some(Language::Zh)
    } else if code == "ar"@ {
        Some(Language::Ar)
    } else if code == "pt"@ {
        Some(Language::Pt)
    } else if code == "hi"@ {
        Some(Language::Hi)
    } else if code == "ja"@ {
        Some(Language::Ja)
    } else {
        None
    }
}

impl Language {
    /// Every supported language, in presentation order.
    pub fn all() -> (r: Vec<Language>)
        ensures
            r@ == all_languages(),
    {
        let mut v: Vec<Language> = Vec::new();
        v.push(Language::En);
        v.push(Language::Es);
        v.push(Language::Cs);
        v.push(Language::De);
        v.push(Language::Fr);
        v.push(Language::Zh);
        v.push(Language::Ar);
        v.push(Language::Pt);
        v.push(Language::Hi);
        v.push(Language::Ja);
        proof {
            assert(v@ =~= all_languages());
        }
        v
    }

    /// The language's two-letter code.
    pub fn code(self) -> (r: &'static str)
        ensures
            r@ == lang_code_spec(self),
    {
        match self {
            Language::En => "en",
            Language::Cs => "cs",
            Language::Es => "es",
            Language::De => "de",
            Language::Fr => "fr",
            Language::Zh => "zh",
            Language::Ar => "ar",
            Language::Pt => "pt",
            Language::Hi => "hi",
            Language::Ja => "ja",
        }
    }

    /// Writing direction of the language's script.
    pub fn dir(self) -> (r: &'static str)
        ensures
            self is Ar ==> r@ == "rtl"@,
            !(self is Ar) ==> r@ == "ltr"@,
    {
        match self {
            Language::Ar => "rtl",
            _ => "ltr",
        }
    }

    /// The language's name in English.
    pub fn english_name(self) -> (r: &'static str)
        ensures
            r@ == english_name_spec(self),
    {
        match self {
            Language::En => "English",
            Language::Es => "Spanish",
            Language::Cs => "Czech",
            Language::Zh => "Chinese",
            Language::Ar => "Arabic",
            Language::Fr => "French",
            Language::De => "German",
            Language::Pt => "Portuguese",
            Language::Hi => "Hindi",
            Language::Ja => "Japanese",
        }
    }

    /// The language's name in itself.
    pub fn native_name(self) -> (r: &'static str)
        ensures
            r@ == native_name_spec(self),
    {
        match self {
            Language::En => "English",
            Language::Es => "Español",
            Language::Cs => "Čeština",
            Language::Zh => "中文",
            Language::Ar => "العربية",
            Language::Fr => "Français",
            Language::De => "Deutsch",
            Language::Pt => "Português",
            Language::Hi => "हिन्दी",
            Language::Ja => "日本語",
        }
    }

    /// Reads a requested language code, tolerating case, surrounding
    /// whitespace and a regional suffix; `None` for an unsupported code.
    pub fn from_code(value: &str) -> (r: Option<Language>)
        ensures
            r == lang_from_code_spec(value@),
    {
        let cs = chars_of(value);
        let trimmed = trim_chars(&cs);
        let lowered = lower_chars(&trimmed);
        let cut = crate::strutil::find_char(&lowered, '-');
        proof {
            crate::strutil::lemma_index_of(lowered@, '-');
        }
        let code = subvec(&lowered, 0, cut);
        proof {
            crate::strutil::lemma_index_of(lowered@, '-');
            assert(code@ == normalize_code_spec(value@));
        }
        if chars_eq(&code, &chars_of("en")) {
            Some(Language::En)
        } else if chars_eq(&code, &chars_of("es")) {
            Some(Language::Es)
        } else if chars_eq(&code, &chars_of("cs")) {
            Some(Language::Cs)
        } else if chars_eq(&code, &chars_of("fr")) {
            Some(Language::Fr)
        } else if chars_eq(&code, &chars_of("de")) {
            Some(Language::De)
        } else if chars_eq(&code, &chars_of("zh")) {
            Some(Language::Zh)
        } else if chars_eq(&code, &chars_of("ar")) {
            Some(Language::Ar)
        } else if chars_eq(&code, &chars_of("pt")) {
            Some(Language::Pt)
        } else if chars_eq(&code, &chars_of("hi")) {
            Some(Language::Hi)
        } else if chars_eq(&code, &chars_of("ja")) {
            Some(Language::Ja)
        } else {
            None
        }
    }
}

/// One entry of the language picker.
pub struct LanguageOption {
    pub code: &'static str,
    pub label: &'static str,
}

/// The language picker's entries: each supported language's code with its
/// native name, in presentation order.
pub fn language_options() -> (r: Vec<LanguageOption>)
    ensures
        r@.len() == all_languages().len(),
        forall|i: int|
            0 <= i < r@.len() ==> #[trigger] r@[i].code@ == lang_code_spec(all_languages()[i])
                && r@[i].label@ == native_name_spec(all_languages()[i]),
{
    let langs = Language::all();
    let mut out: Vec<LanguageOption> = Vec::new();
    let mut i: usize = 0;
    while i < langs.len()
        invariant
            i <= langs.len(),
            langs@ == all_languages(),
            out@.len() == i,
            forall|j: int|
                0 <= j < i ==> #[trigger] out@[j].code@ == lang_code_spec(all_languages()[j])
                    && out@[j].label@ == native_name_spec(all_languages()[j]),
        decreases langs.len() - i,
    {
        let lang = langs[i];
        out.push(LanguageOption { code: lang.code(), label: lang.native_name() });
        i += 1;
    }
    out
}

} // verus!
