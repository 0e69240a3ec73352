//! The supported upstream providers and their request settings.
use vstd::prelude::*;

verus! {

/// Which upstream a session talks to; it selects the event schema.
#[derive(PartialEq, Eq, Structural, Clone, Copy, Debug)]
pub enum ProviderKind {
    /// Message/delta oriented events.
    Anthropic,
    /// Choice-array oriented events, ended by a `[DONE]` sentinel.
    OpenAI,
}

/// The provider that a request names, if it is supported.
pub open spec fn kind_named(name: Seq<char>) -> Option<ProviderKind> {
    if name == "anthropic"@ {
        Some(ProviderKind::Anthropic)
    } else if name == "openai"@ {
        Some(ProviderKind::OpenAI)
    } else {
        None
    }
}

/// The provider's name in messages.
pub open spec fn display_name(kind: ProviderKind) -> Seq<char> {
    match kind {
        ProviderKind::Anthropic => "Anthropic"@,
        ProviderKind::OpenAI => "OpenAI"@,
    }
}

/// The environment variable that holds the provider's API key.
pub open spec fn key_variable(kind: ProviderKind) -> Seq<char> {
    match kind {
        ProviderKind::Anthropic => "ANTHROPIC_API_KEY"@,
        ProviderKind::OpenAI => "OPENAI_API_KEY"@,
    }
}

/// True when `s` holds exactly the text of `lit`.
pub fn text_is(s: &str, lit: &str) -> (r: bool)
    ensures
        r == (s@ == lit@),
{
    s.to_owned() == lit.to_owned()
}

/// `a` followed by `b`.
pub fn join(a: &str, b: &str) -> (r: String)
    ensures
        r@ == a@ + b@,
{
    let mut s = a.to_owned();
    s.append(b);
    s
}

impl ProviderKind {
    /// The provider named by `name` (`"anthropic"` or `"openai"`).
    pub fn from_name(name: &str) -> (r: Option<ProviderKind>)
        ensures
            r == kind_named(name@),
    {
        if text_is(name, "anthropic") {
            Some(ProviderKind::Anthropic)
        } else if text_is(name, "openai") {
            Some(ProviderKind::OpenAI)
        } else {
            None
        }
    }

    /// The provider's name in messages.
    pub fn display_name(&self) -> (r: &'static str)
        ensures
            r@ == display_name(*self),
    {
        match self {
            ProviderKind::Anthropic => "Anthropic",
            ProviderKind::OpenAI => "OpenAI",
        }
    }

    /// The environment variable that holds the provider's API key.
    pub fn api_key_variable(&self) -> (r: &'static str)
        ensures
            r@ == key_variable(*self),
    {
        match self {
            ProviderKind::Anthropic => "ANTHROPIC_API_KEY",
            ProviderKind::OpenAI => "OPENAI_API_KEY",
        }
    }
}


/// The upstream endpoint of a provider.
pub open spec fn endpoint_of(kind: ProviderKind) -> Seq<char> {
    match kind {
        ProviderKind::Anthropic => "https://api.anthropic.com/v1/messages"@,
        ProviderKind::OpenAI => "https://api.openai.com/v1/chat/completions"@,
    }
}

/// The views of a list of header name/value pairs.
pub open spec fn header_views(h: Seq<(String, String)>) -> Seq<(Seq<char>, Seq<char>)> {
    h.map_values(|p: (String, String)| (p.0@, p.1@))
}

fn header(name: &str, value: &str) -> (r: (String, String))
    ensures
        r.0@ == name@,
        r.1@ == value@,
{
    (name.to_owned(), value.to_owned())
}

/// A client of the message/delta oriented upstream.
pub struct AnthropicProvider {
    api_key: String,
}

impl AnthropicProvider {
    pub closed spec fn key(&self) -> Seq<char> {
        self.api_key@
    }

    pub fn new(api_key: String) -> (r: Self)
        ensures
            r.key() == api_key@,
    {
        AnthropicProvider { api_key }
    }

    pub fn api_key(&self) -> (r: &str)
        ensures
            r@ == self.key(),
    {
        self.api_key.as_str()
    }

    pub fn kind(&self) -> (r: ProviderKind)
        ensures
            r == ProviderKind::Anthropic,
    {
        ProviderKind::Anthropic
    }

    pub fn endpoint(&self) -> (r: &'static str)
        ensures
            r@ == endpoint_of(ProviderKind::Anthropic),
    {
        "https://api.anthropic.com/v1/messages"
    }

    /// The request headers: content type, API version and key.
    pub fn headers(&self) -> (r: Vec<(String, String)>)
        ensures
            header_views(r@) == seq![
                ("content-type"@, "application/json"@),
                ("anthropic-version"@, "2023-06-01"@),
                ("x-api-key"@, self.key()),
            ],
    {
        let r = vec![
            header("content-type", "application/json"),
            header("anthropic-version", "2023-06-01"),
            header("x-api-key", self.api_key.as_str()),
        ];
        assert(header_views(r@) =~= seq![
            ("content-type"@, "application/json"@),
            ("anthropic-version"@, "2023-06-01"@),
            ("x-api-key"@, self.key()),
        ]);
        r
    }
}

/// A client of the choice-array oriented upstream.
pub struct OpenAIProvider {
    api_key: String,
}

impl OpenAIProvider {
    pub closed spec fn key(&self) -> Seq<char> {
        self.api_key@
    }

    pub fn new(api_key: String) -> (r: Self)
        ensures
            r.key() == api_key@,
    {
        OpenAIProvider { api_key }
    }

    pub fn api_key(&self) -> (r: &str)
        ensures
            r@ == self.key(),
    {
        self.api_key.as_str()
    }

    pub fn kind(&self) -> (r: ProviderKind)
        ensures
            r == ProviderKind::OpenAI,
    {
        ProviderKind::OpenAI
    }

    pub fn endpoint(&self) -> (r: &'static str)
        ensures
            r@ == endpoint_of(ProviderKind::OpenAI),
    {
        "https://api.openai.com/v1/chat/completions"
    }

    /// The request headers: content type and bearer authorization.
    pub fn headers(&self) -> (r: Vec<(String, String)>)
        ensures
            header_views(r@) == seq![
                ("content-type"@, "application/json"@),
                ("authorization"@, "Bearer "@ + self.key()),
            ],
    {
        let bearer = join("Bearer ", self.api_key.as_str());
        let r = vec![
            header("content-type", "application/json"),
            header("authorization", bearer.as_str()),
        ];
        assert(header_views(r@) =~= seq![
            ("content-type"@, "application/json"@),
            ("authorization"@, "Bearer "@ + self.key()),
        ]);
        r
    }
}

} // verus!
