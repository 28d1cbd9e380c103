//! The settings of one client session, and the builder that assembles them.

use vstd::prelude::*;
use vstd::string::*;

verus! {

/// The settings of a session as mathematical values.
pub struct Settings {
    pub host: Seq<char>,
    pub port: u16,
    pub use_tls: bool,
    pub retries: u8,
    pub authors: Seq<char>,
    pub ids: Seq<char>,
    pub limit: i32,
    pub generic: (Seq<char>, Seq<char>),
    pub hashtag: Seq<char>,
    pub mentions: Seq<char>,
    pub references: Seq<char>,
    pub kinds: Seq<char>,
}

/// The settings gathered so far.
pub struct Draft {
    pub host: Option<Seq<char>>,
    pub port: Option<u16>,
    pub use_tls: bool,
    pub retries: u8,
    pub authors: Option<Seq<char>>,
    pub ids: Option<Seq<char>>,
    pub limit: Option<i32>,
    pub generic: Option<(Seq<char>, Seq<char>)>,
    pub hashtag: Option<Seq<char>>,
    pub mentions: Option<Seq<char>>,
    pub references: Option<Seq<char>>,
    pub kinds: Option<Seq<char>>,
}

impl Draft {
    /// A draft with nothing set: no TLS, no retries.
    pub open spec fn blank() -> Draft {
        Draft {
            host: None,
            port: None,
            use_tls: false,
            retries: 0,
            authors: None,
            ids: None,
            limit: None,
            generic: None,
            hashtag: None,
            mentions: None,
            references: None,
            kinds: None,
        }
    }

    /// Whether every setting that has no default is set.
    pub open spec fn complete(self) -> bool {
        &&& self.host is Some
        &&& self.port is Some
        &&& self.authors is Some
        &&& self.ids is Some
        &&& self.limit is Some
        &&& self.generic is Some
        &&& self.hashtag is Some
        &&& self.mentions is Some
        &&& self.references is Some
        &&& self.kinds is Some
    }

    /// The settings of a complete draft.
    pub open spec fn settings(self) -> Settings {
        Settings {
            host: self.host.unwrap(),
            port: self.port.unwrap(),
            use_tls: self.use_tls,
            retries: self.retries,
            authors: self.authors.unwrap(),
            ids: self.ids.unwrap(),
            limit: self.limit.unwrap(),
            generic: self.generic.unwrap(),
            hashtag: self.hashtag.unwrap(),
            mentions: self.mentions.unwrap(),
            references: self.references.unwrap(),
            kinds: self.kinds.unwrap(),
        }
    }

    /// The message for an incomplete draft. A missing host is reported first,
    /// then a missing port; any other missing setting has the empty message.
    pub open spec fn complaint(self) -> Seq<char> {
        if self.host is None {
            "Missing host"@
        } else if self.port is None {
            "Missing port"@
        } else {
            ""@
        }
    }
}

/// The settings of one session.
#[derive(Debug)]
pub struct Config {
    host: String,
    port: u16,
    use_tls: bool,
    retries: u8,
    authors: String,
    ids: String,
    limit: i32,
    generic: (String, String),
    hashtag: String,
    mentions: String,
    references: String,
    kinds: String,
}

impl View for Config {
    type V = Settings;

    closed spec fn view(&self) -> Settings {
        Settings {
            host: self.host@,
            port: self.port,
            use_tls: self.use_tls,
            retries: self.retries,
            authors: self.authors@,
            ids: self.ids@,
            limit: self.limit,
            generic: (self.generic.0@, self.generic.1@),
            hashtag: self.hashtag@,
            mentions: self.mentions@,
            references: self.references@,
            kinds: self.kinds@,
        }
    }
}

/// Gathers the settings of a session one by one.
#[derive(Debug)]
pub struct ConfigBuilder {
    host: Option<String>,
    port: Option<u16>,
    use_tls: bool,
    retries: u8,
    authors: Option<String>,
    ids: Option<String>,
    limit: Option<i32>,
    generic: Option<(String, String)>,
    hashtag: Option<String>,
    mentions: Option<String>,
    references: Option<String>,
    kinds: Option<String>,
}

/// The text of an optional string.
pub open spec fn text_of(o: Option<String>) -> Option<Seq<char>> {
    match o {
        Some(s) => Some(s@),
        None => None,
    }
}

impl View for ConfigBuilder {
    type V = Draft;

    closed spec fn view(&self) -> Draft {
        Draft {
            host: text_of(self.host),
            port: self.port,
            use_tls: self.use_tls,
            retries: self.retries,
            authors: text_of(self.authors),
            ids: text_of(self.ids),
            limit: self.limit,
            generic: match self.generic {
                Some((tag, values)) => Some((tag@, values@)),
                None => None,
            },
            hashtag: text_of(self.hashtag),
            mentions: text_of(self.mentions),
            references: text_of(self.references),
            kinds: text_of(self.kinds),
        }
    }
}

impl Default for ConfigBuilder {
    fn default() -> (builder: ConfigBuilder)
        ensures
            builder@ == Draft::blank(),
    {
        ConfigBuilder::new()
    }
}

impl ConfigBuilder {
    /// A builder with nothing set.
    pub fn new() -> (builder: ConfigBuilder)
        ensures
            builder@ == Draft::blank(),
    {
        ConfigBuilder {
            host: None,
            port: None,
            use_tls: false,
            retries: 0,
            authors: None,
            ids: None,
            limit: None,
            generic: None,
            hashtag: None,
            mentions: None,
            references: None,
            kinds: None,
        }
    }

    /// Sets the host.
    pub fn host(self, host: &str) -> (builder: ConfigBuilder)
        ensures
            builder@ == (Draft { host: Some(host@), ..self@ }),
    {
        let mut builder = self;
        builder.host = Some(String::from_str(host));
        builder
    }

    /// Sets the port.
    pub fn port(self, port: u16) -> (builder: ConfigBuilder)
        ensures
            builder@ == (Draft { port: Some(port), ..self@ }),
    {
        let mut builder = self;
        builder.port = Some(port);
        builder
    }

    /// Says whether the session uses TLS.
    pub fn use_tls(self, use_tls: bool) -> (builder: ConfigBuilder)
        ensures
            builder@ == (Draft { use_tls, ..self@ }),
    {
        let mut builder = self;
        builder.use_tls = use_tls;
        builder
    }

    /// Sets the number of retries.
    pub fn retries(self, retries: u8) -> (builder: ConfigBuilder)
        ensures
            builder@ == (Draft { retries, ..self@ }),
    {
        let mut builder = self;
        builder.retries = retries;
        builder
    }

    /// Sets the authors.
    pub fn authors(self, authors: &str) -> (builder: ConfigBuilder)
        ensures
            builder@ == (Draft { authors: Some(authors@), ..self@ }),
    {
        let mut builder = self;
        builder.authors = Some(String::from_str(authors));
        builder
    }

    /// Sets the ids.
    pub fn ids(self, ids: &str) -> (builder: ConfigBuilder)
        ensures
            builder@ == (Draft { ids: Some(ids@), ..self@ }),
    {
        let mut builder = self;
        builder.ids = Some(String::from_str(ids));
        builder
    }

    /// Sets the limit.
    pub fn limit(self, limit: i32) -> (builder: ConfigBuilder)
        ensures
            builder@ == (Draft { limit: Some(limit), ..self@ }),
    {
        let mut builder = self;
        builder.limit = Some(limit);
        builder
    }

    /// Sets the generic tag and its values.
    pub fn generic(self, tag: &str, val: &str) -> (builder: ConfigBuilder)
        ensures
            builder@ == (Draft { generic: Some((tag@, val@)), ..self@ }),
    {
        let mut builder = self;
        builder.generic = Some((String::from_str(tag), String::from_str(val)));
        builder
    }

    /// Sets the hashtags.
    pub fn hashtag(self, hashtag: &str) -> (builder: ConfigBuilder)
        ensures
            builder@ == (Draft { hashtag: Some(hashtag@), ..self@ }),
    {
        let mut builder = self;
        builder.hashtag = Some(String::from_str(hashtag));
        builder
    }

    /// Sets the mentions.
    pub fn mentions(self, mentions: &str) -> (builder: ConfigBuilder)
        ensures
            builder@ == (Draft { mentions: Some(mentions@), ..self@ }),
    {
        let mut builder = self;
        builder.mentions = Some(String::from_str(mentions));
        builder
    }

    /// Sets the references.
    pub fn references(self, references: &str) -> (builder: ConfigBuilder)
        ensures
            builder@ == (Draft { references: Some(references@), ..self@ }),
    {
        let mut builder = self;
        builder.references = Some(String::from_str(references));
        builder
    }

    /// Sets the kinds.
    pub fn kinds(self, kinds: &str) -> (builder: ConfigBuilder)
        ensures
            builder@ == (Draft { kinds: Some(kinds@), ..self@ }),
    {
        let mut builder = self;
        builder.kinds = Some(String::from_str(kinds));
        builder
    }

    /// Finishes the settings.
    ///
    /// Succeeds exactly when the draft is complete; otherwise gives the
    /// draft's complaint.
    pub fn build(self) -> (r: Result<Config, String>)
        ensures
            r is Ok <==> self@.complete(),
            r matches Ok(config) ==> config@ == self@.settings(),
            r matches Err(message) ==> message@ == self@.complaint(),
    {
        let host = match self.host {
            Some(host) => host,
            None => {
                return Err(String::from_str("Missing host"));
            },
        };
        let port = match self.port {
            Some(port) => port,
            None => {
                return Err(String::from_str("Missing port"));
            },
        };
        let authors = match self.authors {
            Some(authors) => authors,
            None => {
                return Err(String::from_str(""));
            },
        };
        let ids = match self.ids {
            Some(ids) => ids,
            None => {
                return Err(String::from_str(""));
            },
        };
        let limit = match self.limit {
            Some(limit) => limit,
            None => {
                return Err(String::from_str(""));
            },
        };
        let generic = match self.generic {
            Some(generic) => generic,
            None => {
                return Err(String::from_str(""));
            },
        };
        let hashtag = match self.hashtag {
            Some(hashtag) => hashtag,
            None => {
                return Err(String::from_str(""));
            },
        };
        let mentions = match self.mentions {
            Some(mentions) => mentions,
            None => {
                return Err(String::from_str(""));
            },
        };
        let references = match self.references {
            Some(references) => references,
            None => {
                return Err(String::from_str(""));
            },
        };
        let kinds = match self.kinds {
            Some(kinds) => kinds,
            None => {
                return Err(String::from_str(""));
            },
        };
        Ok(
            Config {
                host,
                port,
                use_tls: self.use_tls,
                retries: self.retries,
                authors,
                ids,
                limit,
                generic,
                hashtag,
                mentions,
                references,
                kinds,
            },
        )
    }
}

} // verus!
