//! The site configuration record: named, independently defaulted fields.
//!
//! Loading and deserializing the configuration file is the caller's job;
//! the rules below only say what the fields mean and how a locale string is
//! understood.

use vstd::prelude::*;
use vstd::string::StrSliceExecFns;
use vstd::string::StringExecFns;

verus! {

/// A locale tag such as `en_US`, split into the full tag and its language
/// prefix.
#[derive(Clone)]
pub struct LocaleConfig {
    pub locale: String,
    pub lang: String,
}

/// Optional social-card account handles.
#[derive(Clone)]
pub struct TwitterConfig {
    pub site: Option<String>,
    pub creator: Option<String>,
}

/// The site author, shown in page metadata and in the feed.
#[derive(Clone)]
pub struct AuthorConfig {
    pub name: String,
    /// The author's own URL, already normalized by the caller.
    pub url: Option<String>,
}

/// The configuration record. Every field has a default, so an absent
/// configuration file is never an error.
#[derive(Clone)]
pub struct Config {
    pub name: String,
    pub description: String,
    pub author: Option<AuthorConfig>,
    pub cover: Option<String>,
    pub icon: Option<String>,
    pub locale: LocaleConfig,
    /// The site's base URL in normalized form, as produced by
    /// [`crate::urls::parse_base_url`]; absent when none is configured.
    pub url: Option<String>,
    pub twitter: TwitterConfig,
}

impl Default for Config {
    /// The defaults used when the configuration file is absent.
    fn default() -> (r: Config)
        ensures
            r.name@ == "Diary"@,
            r.description@ == "A neat diary"@,
            r.author is None,
            r.cover is None,
            r.icon is None,
            r.locale.locale@ == "en_US"@,
            r.locale.lang@ == "en"@,
            r.url is None,
            r.twitter.site is None,
            r.twitter.creator is None,
    {
        Config {
            name: String::from_str("Diary"),
            description: String::from_str("A neat diary"),
            author: None,
            cover: None,
            icon: None,
            locale: LocaleConfig {
                locale: String::from_str("en_US"),
                lang: String::from_str("en"),
            },
            url: None,
            twitter: TwitterConfig { site: None, creator: None },
        }
    }
}

/// Why a configuration value was rejected.
#[derive(Clone, Copy, PartialEq, Eq, Structural, Debug)]
pub enum ConfigError {
    /// The configured site URL is not a valid absolute URL.
    InvalidUrl,
}

impl ConfigError {
    pub fn message(&self) -> (r: String)
        ensures
            r@ == "The configured site URL is not a valid absolute URL"@,
    {
        String::from_str("The configured site URL is not a valid absolute URL")
    }
}

/// Normalize the configured site URL, if any. An absent URL is the
/// default, never an error; configured text that does not parse as an
/// absolute URL is one.
pub fn parse_configured_url(text: Option<&String>) -> (r: Result<Option<String>, ConfigError>)
    ensures
        match r {
            Ok(o) => match (text, o) {
                (Some(t), Some(u)) => crate::urls::spec_base_url(t@) == Some(u@),
                (None, None) => true,
                _ => false,
            },
            Err(e) => text matches Some(t) && crate::urls::spec_base_url(t@) is None && e
                == ConfigError::InvalidUrl,
        },
{
    match text {
        None => Ok(None),
        Some(t) => match crate::urls::parse_base_url(t.as_str()) {
            Some(u) => Ok(Some(u)),
            None => Err(ConfigError::InvalidUrl),
        },
    }
}

impl LocaleConfig {
    /// Parse a locale tag. The tag is valid exactly when it contains an
    /// underscore; the language is everything before the first one.
    pub fn parse(s: &str) -> (r: Option<LocaleConfig>)
        ensures
            match r {
                Some(lc) => {
                    &&& lc.locale@ == s@
                    &&& exists|i: int|
                        0 <= i < s@.len() && s@[i] == '_' && lc.lang@ == s@.take(i) && (forall|
                            j: int,
                        |
                            0 <= j < i ==> s@[j] != '_')
                },
                None => forall|i: int| 0 <= i < s@.len() ==> s@[i] != '_',
            },
    {
        let n = s.unicode_len();
        let mut i: usize = 0;
        while i < n
            invariant
                i <= n,
                n == s@.len(),
                forall|j: int| 0 <= j < i ==> s@[j] != '_',
            decreases n - i,
        {
            if s.get_char(i) == '_' {
                let lang = s.substring_char(0, i);
                proof {
                    assert(lang@ =~= s@.take(i as int));
                }
                return Some(LocaleConfig { locale: s.to_owned(), lang: lang.to_owned() });
            }
            i = i + 1;
        }
        None
    }
}

} // verus!
